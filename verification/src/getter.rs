use syn::{Fields, Meta};
use vstd::prelude::*;

verus! {

/// Which accessor a field attribute asks for.
#[derive(Clone, Copy, PartialEq, Eq, Structural, Debug)]
pub enum AccessorKind {
    /// `#[get]`: `fn name(&self) -> &T`.
    Get,
    /// `#[get_mut]`: `fn name(&mut self) -> &mut T`.
    GetMut,
}

/// The argument form of a `#[get]` / `#[get_mut]` attribute.
pub enum AttrArg {
    /// `#[get]`: the accessor is named after the field.
    Bare,
    /// `#[get(name)]`: the accessor is called `name`.
    Name(String),
    /// `#[get = ..]`: not accepted.
    NameValue,
}

/// One attribute of a field: an accessor request with its argument, or any other attribute
/// (`accessor` is `None`), which stays on the field.
pub struct FieldAttrShape {
    pub accessor: Option<AccessorKind>,
    pub arg: AttrArg,
}

/// An accessor to generate: its name, the field it reads and its kind.
pub struct AccessorPlan {
    pub method_name: String,
    pub field_index: usize,
    pub kind: AccessorKind,
}

/// An accessor as a plain value: name, field index, kind.
pub type AccessorView = (Seq<char>, int, AccessorKind);

pub open spec fn plan_view(p: AccessorPlan) -> AccessorView {
    (p.method_name@, p.field_index as int, p.kind)
}

/// The accessor that attribute `a` of field `field` (named `name`) asks for, if any.
pub open spec fn accessor_of(name: String, field: int, a: FieldAttrShape) -> Option<AccessorView> {
    match a.accessor {
        None => None,
        Some(kind) => match a.arg {
            AttrArg::Bare => Some((name@, field, kind)),
            AttrArg::Name(n) => Some((n@, field, kind)),
            AttrArg::NameValue => None,
        },
    }
}

/// Accessors asked for by the attributes `attrs` of field `field`, in order.
pub open spec fn field_accessors(name: String, field: int, attrs: Seq<FieldAttrShape>) -> Seq<
    AccessorView,
>
    decreases attrs.len(),
{
    if attrs.len() == 0 {
        Seq::empty()
    } else {
        let p = field_accessors(name, field, attrs.drop_last());
        match accessor_of(name, field, attrs.last()) {
            Some(acc) => p.push(acc),
            None => p,
        }
    }
}

/// Accessors asked for by the first `n` fields, field by field.
pub open spec fn all_accessors(names: Seq<String>, attrs: Seq<Vec<FieldAttrShape>>, n: int) -> Seq<
    AccessorView,
>
    decreases n,
{
    if n <= 0 {
        Seq::empty()
    } else {
        all_accessors(names, attrs, n - 1) + field_accessors(names[n - 1], n - 1, attrs[n - 1]@)
    }
}

/// An accessor attribute in the refused `name = value` form.
pub open spec fn is_refused(a: FieldAttrShape) -> bool {
    a.accessor is Some && a.arg is NameValue
}

/// Plans the accessors of a struct with named fields `field_names`, whose attributes are
/// `field_attrs`; refuses an accessor attribute in `name = value` form.
pub fn getter(field_names: &Vec<String>, field_attrs: &Vec<Vec<FieldAttrShape>>) -> (r: Result<
    Vec<AccessorPlan>,
    (),
>)
    requires
        field_names@.len() == field_attrs@.len(),
    ensures
        r is Err <==> exists|i: int, j: int|
            0 <= i < field_attrs@.len() && 0 <= j < field_attrs@[i]@.len() && is_refused(
                #[trigger] field_attrs@[i]@[j],
            ),
        r matches Ok(v) ==> v@.map_values(|p: AccessorPlan| plan_view(p)) == all_accessors(
            field_names@,
            field_attrs@,
            field_names@.len() as int,
        ),
{
    let mut plans: Vec<AccessorPlan> = Vec::new();
    let n = field_names.len();
    let mut i: usize = 0;
    while i < n
        invariant
            n == field_names@.len(),
            n == field_attrs@.len(),
            i <= n,
            plans@.map_values(|p: AccessorPlan| plan_view(p)) == all_accessors(
                field_names@,
                field_attrs@,
                i as int,
            ),
            forall|a: int, b: int|
                0 <= a < i && 0 <= b < field_attrs@[a]@.len() ==> !is_refused(
                    #[trigger] field_attrs@[a]@[b],
                ),
        decreases n - i,
    {
        let attrs = &field_attrs[i];
        let ghost base = plans@.map_values(|p: AccessorPlan| plan_view(p));
        let mut j: usize = 0;
        while j < attrs.len()
            invariant
                i < n,
                n == field_names@.len(),
                n == field_attrs@.len(),
                *attrs == field_attrs@[i as int],
                j <= attrs@.len(),
                base == all_accessors(field_names@, field_attrs@, i as int),
                plans@.map_values(|p: AccessorPlan| plan_view(p)) == base + field_accessors(
                    field_names@[i as int],
                    i as int,
                    attrs@.take(j as int),
                ),
                forall|b: int| 0 <= b < j ==> !is_refused(#[trigger] attrs@[b]),
            decreases attrs@.len() - j,
        {
            let a = &attrs[j];
            let ghost before = plans@.map_values(|p: AccessorPlan| plan_view(p));
            assert(attrs@.take(j + 1).drop_last() =~= attrs@.take(j as int));
            match a.accessor {
                None => {},
                Some(kind) => {
                    let name = match &a.arg {
                        AttrArg::Bare => field_names[i].clone(),
                        AttrArg::Name(custom) => custom.clone(),
                        AttrArg::NameValue => {
                            assert(is_refused(field_attrs@[i as int]@[j as int]));
                            return Err(());
                        },
                    };
                    plans.push(AccessorPlan { method_name: name, field_index: i, kind });
                    assert(plans@.map_values(|p: AccessorPlan| plan_view(p)) =~= before.push(
                        accessor_of(field_names@[i as int], i as int, attrs@[j as int])->0,
                    ));
                },
            }
            j = j + 1;
        }
        assert(attrs@.take(attrs@.len() as int) =~= attrs@);
        assert(all_accessors(field_names@, field_attrs@, i + 1) == all_accessors(
            field_names@,
            field_attrs@,
            i as int,
        ) + field_accessors(field_names@[i as int], i as int, field_attrs@[i as int]@));
        i = i + 1;
    }
    Ok(plans)
}

#[verifier::external_type_specification]
#[verifier::external_body]
pub struct ExSynItemStruct(syn::ItemStruct);

/// One attribute as syn reads it: its path when that is a single identifier, its form (0 a bare
/// path, 1 a list, 2 `name = value`) and, for a list, the text of its tokens.
pub type RawAttr = (Option<String>, (u8, String));

/// A field as syn reads it: its name and its attributes.
pub type RawField = (String, Vec<RawAttr>);

/// `RawAttr` as a plain value.
pub type RawAttrV = (Option<Seq<char>>, (u8, Seq<char>));

pub open spec fn raw_attr_view(a: RawAttr) -> RawAttrV {
    (
        match a.0 {
            Some(s) => Some(s@),
            None => None,
        },
        (a.1.0, a.1.1@),
    )
}

pub open spec fn raw_field_view(f: RawField) -> (Seq<char>, Seq<RawAttrV>) {
    (f.0@, f.1@.map_values(|a: RawAttr| raw_attr_view(a)))
}

/// What `syn::parse_str::<syn::ItemStruct>` reads from `tokens`, when it parses: for a struct
/// with named fields, each field's name and attributes; `None` inside for a tuple or unit
/// struct.
pub uninterp spec fn struct_fields_of(tokens: Seq<char>) -> Option<Option<Seq<(Seq<char>, Seq<RawAttrV>)>>>;

/// What `syn::parse_str::<syn::Ident>` reads from `text`: the identifier, when `text` is one.
pub uninterp spec fn ident_of(text: Seq<char>) -> Option<Seq<char>>;

/// `syn::parse_str::<syn::ItemStruct>`: the struct and, when its fields are named, each field's
/// name and attributes; or syn's error. A function of the text alone.
#[verifier::external_body]
fn parse_struct(tokens: &str) -> (r: Result<(syn::ItemStruct, Option<Vec<RawField>>), syn::Error>)
    ensures
        r is Ok <==> struct_fields_of(tokens@) is Some,
        r matches Ok(p) ==> struct_fields_of(tokens@)->0 == (match p.1 {
            Some(fs) => Some(fs@.map_values(|f: RawField| raw_field_view(f))),
            None => None,
        }),
{
    let s = syn::parse_str::<syn::ItemStruct>(tokens)?;
    let fields = match &s.fields {
        Fields::Named(f) => Some(f.named.iter().map(|x| (
            x.ident.as_ref().map(ToString::to_string).unwrap_or_default(),
            x.attrs.iter().map(|a| (a.path().get_ident().map(ToString::to_string), match &a.meta {
                Meta::Path(_) => (0, String::new()),
                Meta::List(l) => (1, l.tokens.to_string()),
                Meta::NameValue(_) => (2, String::new()),
            })).collect(),
        )).collect()),
        _ => None,
    };
    Ok((s.clone(), fields))
}

/// `syn::parse_str::<syn::Ident>`: the identifier `text` holds, if it is one.
#[verifier::external_body]
fn parse_ident(text: &str) -> (r: Option<String>)
    ensures
        r matches Some(s) ==> ident_of(text@) == Some(s@),
        r is None ==> ident_of(text@) is None,
{
    syn::parse_str::<syn::Ident>(text).ok().map(|i| i.to_string())
}

/// The accessor an attribute path asks for: `get` or `get_mut`.
pub open spec fn accessor_kind_of(ident: Option<Seq<char>>) -> Option<AccessorKind> {
    if ident == Some("get"@) {
        Some(AccessorKind::Get)
    } else if ident == Some("get_mut"@) {
        Some(AccessorKind::GetMut)
    } else {
        None
    }
}

/// Why `#[getter]` refuses a struct.
pub enum GetterError {
    /// The input does not parse as a struct.
    Syn(syn::Error),
    /// The struct's fields are not named.
    NotNamedStruct,
    /// A `#[get(..)]` / `#[get_mut(..)]` list does not hold a single identifier.
    NotAnIdent,
    /// A `#[get = ..]` / `#[get_mut = ..]` attribute.
    NameValue,
}

/// The kinds of refusal over a parsed struct, as plain values.
#[derive(Clone, Copy, PartialEq, Eq, Structural, Debug)]
pub enum GetterRefusal {
    NotAnIdent,
    NameValue,
}

/// The accessor attribute `a` of field `field` named `fname`: its plan, or why it is refused;
/// `Ok(None)` for an attribute that asks for no accessor.
pub open spec fn raw_accessor(fname: Seq<char>, field: int, a: RawAttrV) -> Result<
    Option<AccessorView>,
    GetterRefusal,
> {
    match accessor_kind_of(a.0) {
        None => Ok(None),
        Some(kind) => if a.1.0 == 0 {
            Ok(Some((fname, field, kind)))
        } else if a.1.0 == 1 {
            match ident_of(a.1.1) {
                Some(n) => Ok(Some((n, field, kind))),
                None => Err(GetterRefusal::NotAnIdent),
            }
        } else {
            Err(GetterRefusal::NameValue)
        },
    }
}

/// The accessors of the first `n` attributes of field `field`, or the first refusal.
pub open spec fn raw_field_plan(fname: Seq<char>, field: int, attrs: Seq<RawAttrV>, n: int) -> Result<
    Seq<AccessorView>,
    GetterRefusal,
>
    decreases n,
{
    if n <= 0 {
        Ok(Seq::empty())
    } else {
        match raw_field_plan(fname, field, attrs, n - 1) {
            Err(e) => Err(e),
            Ok(p) => match raw_accessor(fname, field, attrs[n - 1]) {
                Err(e) => Err(e),
                Ok(Some(acc)) => Ok(p.push(acc)),
                Ok(None) => Ok(p),
            },
        }
    }
}

/// How many of the first `n` attributes ask for an accessor (`#[get..]` or `#[get_mut..]`).
pub open spec fn accessor_attr_count(attrs: Seq<RawAttrV>, n: int) -> int
    decreases n,
{
    if n <= 0 {
        0
    } else {
        accessor_attr_count(attrs, n - 1) + if accessor_kind_of(attrs[n - 1].0) is Some {
            1int
        } else {
            0int
        }
    }
}

/// How many attributes of the first `n` fields ask for an accessor.
pub open spec fn fields_accessor_count(fields: Seq<(Seq<char>, Seq<RawAttrV>)>, n: int) -> int
    decreases n,
{
    if n <= 0 {
        0
    } else {
        fields_accessor_count(fields, n - 1) + accessor_attr_count(
            fields[n - 1].1,
            fields[n - 1].1.len() as int,
        )
    }
}

/// The accessors of the first `n` fields, field by field and attribute by attribute, or the
/// first refusal in that order.
pub open spec fn raw_plan(fields: Seq<(Seq<char>, Seq<RawAttrV>)>, n: int) -> Result<
    Seq<AccessorView>,
    GetterRefusal,
>
    decreases n,
{
    if n <= 0 {
        Ok(Seq::empty())
    } else {
        match raw_plan(fields, n - 1) {
            Err(e) => Err(e),
            Ok(p) => match raw_field_plan(
                fields[n - 1].0,
                n - 1,
                fields[n - 1].1,
                fields[n - 1].1.len() as int,
            ) {
                Err(e) => Err(e),
                Ok(q) => Ok(p + q),
            },
        }
    }
}

/// Every accessor attribute of a field yields an accessor of its own, in attribute order:
/// when the attributes of a field are accepted, there are as many accessors as accessor
/// attributes, each reads this field, and the accessor of the `j`-th attribute stands after
/// those of the accessor attributes before it, with that attribute's kind, named after the
/// field for a bare attribute or after the identifier in its list; a `name = value` form is
/// never accepted.
pub proof fn law_one_accessor_per_attribute(fname: Seq<char>, field: int, attrs: Seq<RawAttrV>, n: int)
    requires
        0 <= n <= attrs.len(),
    ensures
        raw_field_plan(fname, field, attrs, n) matches Ok(q) ==> {
            &&& q.len() == accessor_attr_count(attrs, n)
            &&& forall|k: int| 0 <= k < q.len() ==> (#[trigger] q[k]).1 == field
            &&& forall|j: int|
                0 <= j < n && accessor_kind_of(attrs[j].0) is Some ==> {
                    &&& raw_accessor(fname, field, attrs[j]) matches Ok(Some(acc))
                    &&& q[accessor_attr_count(attrs, j)] == acc
                    &&& Some(acc.2) == accessor_kind_of(attrs[j].0)
                    &&& attrs[j].1.0 == 0 ==> acc.0 == fname
                    &&& attrs[j].1.0 == 1 ==> Some(acc.0) == ident_of(attrs[j].1.1)
                    &&& attrs[j].1.0 != 0 && attrs[j].1.0 != 1 ==> false
                }
        },
    decreases n,
{
    if n > 0 {
        law_one_accessor_per_attribute(fname, field, attrs, n - 1);
        lemma_attr_count_mono(attrs, n - 1);
        if let Ok(q) = raw_field_plan(fname, field, attrs, n) {
            let p = raw_field_plan(fname, field, attrs, n - 1)->Ok_0;
            assert forall|j: int|
                0 <= j < n && accessor_kind_of(attrs[j].0) is Some implies {
                    &&& raw_accessor(fname, field, attrs[j]) matches Ok(Some(acc))
                    &&& q[accessor_attr_count(attrs, j)] == acc
                    &&& Some(acc.2) == accessor_kind_of(attrs[j].0)
                    &&& attrs[j].1.0 == 0 ==> acc.0 == fname
                    &&& attrs[j].1.0 == 1 ==> Some(acc.0) == ident_of(attrs[j].1.1)
                    &&& attrs[j].1.0 != 0 && attrs[j].1.0 != 1 ==> false
                } by {
                lemma_attr_count_mono(attrs, j);
                if j < n - 1 {
                    lemma_attr_count_le(attrs, j, n - 1);
                    assert(raw_accessor(fname, field, attrs[j]) matches Ok(Some(acc)) && p[accessor_attr_count(attrs, j)] == acc);
                    assert(q[accessor_attr_count(attrs, j)] == p[accessor_attr_count(attrs, j)]);
                } else {
                    assert(raw_accessor(fname, field, attrs[n - 1]) matches Ok(Some(acc)) && q == p.push(acc));
                }
            }
            assert(p.len() == accessor_attr_count(attrs, n - 1));
        }
    }
}

proof fn lemma_attr_count_mono(attrs: Seq<RawAttrV>, n: int)
    ensures
        accessor_attr_count(attrs, n) >= 0,
    decreases n,
{
    if n > 0 {
        lemma_attr_count_mono(attrs, n - 1);
    }
}

/// A count over fewer attributes is no larger; strictly smaller when an accessor attribute
/// lies in between.
proof fn lemma_attr_count_le(attrs: Seq<RawAttrV>, j: int, n: int)
    requires
        0 <= j < n,
        accessor_kind_of(attrs[j].0) is Some,
    ensures
        accessor_attr_count(attrs, j) < accessor_attr_count(attrs, n),
    decreases n - j,
{
    if n - 1 > j {
        lemma_attr_count_le(attrs, j, n - 1);
    }
}

/// Accepted fields give, in all, one accessor per accessor attribute of every field.
pub proof fn law_accessor_count(fields: Seq<(Seq<char>, Seq<RawAttrV>)>, n: int)
    requires
        0 <= n <= fields.len(),
    ensures
        raw_plan(fields, n) matches Ok(v) ==> v.len() == fields_accessor_count(fields, n),
    decreases n,
{
    if n > 0 {
        law_accessor_count(fields, n - 1);
        law_one_accessor_per_attribute(
            fields[n - 1].0,
            n - 1,
            fields[n - 1].1,
            fields[n - 1].1.len() as int,
        );
    }
}

/// Once the plan of a field's attributes is refused, it stays refused the same way.
proof fn lemma_field_plan_err_to(fname: Seq<char>, field: int, attrs: Seq<RawAttrV>, n: int, m: int)
    requires
        0 <= n <= m,
        raw_field_plan(fname, field, attrs, n) is Err,
    ensures
        raw_field_plan(fname, field, attrs, m) == raw_field_plan(fname, field, attrs, n),
    decreases m - n,
{
    if m > n {
        lemma_field_plan_err_to(fname, field, attrs, n, m - 1);
    }
}

/// Once the plan of the fields is refused, it stays refused the same way.
proof fn lemma_plan_err_to(fields: Seq<(Seq<char>, Seq<RawAttrV>)>, n: int, m: int)
    requires
        0 <= n <= m,
        raw_plan(fields, n) is Err,
    ensures
        raw_plan(fields, m) == raw_plan(fields, n),
    decreases m - n,
{
    if m > n {
        lemma_plan_err_to(fields, n, m - 1);
    }
}

/// `keep[i][j]` tells that attribute `j` of field `i` asks for no accessor, so it stays.
pub open spec fn keep_matches(keep: Seq<Vec<bool>>, fields: Seq<(Seq<char>, Seq<RawAttrV>)>) -> bool {
    &&& keep.len() == fields.len()
    &&& forall|i: int| 0 <= i < fields.len() ==> (#[trigger] keep[i])@.len() == fields[i].1.len()
    &&& forall|i: int, j: int|
        0 <= i < fields.len() && 0 <= j < fields[i].1.len() ==> #[trigger] keep[i]@[j]
            == (accessor_kind_of(fields[i].1[j].0) is None)
}

/// A planned `#[getter]`: the parsed struct, its accessors, and per field which attributes
/// stay on it (every one that asks for no accessor).
pub struct GetterPlan {
    pub item: syn::ItemStruct,
    pub accessors: Vec<AccessorPlan>,
    pub keep: Vec<Vec<bool>>,
}

/// Plans one attribute.
fn plan_attr(fname: &String, field: usize, a: &RawAttr) -> (r: Result<Option<AccessorPlan>, GetterRefusal>)
    ensures
        match raw_accessor(fname@, field as int, raw_attr_view(*a)) {
            Err(e) => r == Err::<Option<AccessorPlan>, GetterRefusal>(e),
            Ok(None) => r matches Ok(None),
            Ok(Some(v)) => r matches Ok(Some(p)) && plan_view(p) == v,
        },
{
    let kind = match &a.0 {
        Some(n) => if crate::collection::str_eq(n.as_str(), "get") {
            AccessorKind::Get
        } else if crate::collection::str_eq(n.as_str(), "get_mut") {
            AccessorKind::GetMut
        } else {
            return Ok(None);
        },
        None => return Ok(None),
    };
    if a.1.0 == 0 {
        Ok(Some(AccessorPlan { method_name: fname.clone(), field_index: field, kind }))
    } else if a.1.0 == 1 {
        match parse_ident(a.1.1.as_str()) {
            Some(n) => Ok(Some(AccessorPlan { method_name: n, field_index: field, kind })),
            None => Err(GetterRefusal::NotAnIdent),
        }
    } else {
        Err(GetterRefusal::NameValue)
    }
}

/// Plans the accessors of a struct's fields as `raw_plan` states, with the attributes that
/// stay on each field.
fn plan_fields(fields: &Vec<RawField>) -> (r: Result<(Vec<AccessorPlan>, Vec<Vec<bool>>), GetterRefusal>)
    ensures
        match raw_plan(fields@.map_values(|f: RawField| raw_field_view(f)), fields@.len() as int) {
            Err(e) => r == Err::<(Vec<AccessorPlan>, Vec<Vec<bool>>), GetterRefusal>(e),
            Ok(v) => r matches Ok(p) && p.0@.map_values(|q: AccessorPlan| plan_view(q)) == v
                && keep_matches(p.1@, fields@.map_values(|f: RawField| raw_field_view(f))),
        },
{
    let ghost fv = fields@.map_values(|f: RawField| raw_field_view(f));
    let mut plans: Vec<AccessorPlan> = Vec::new();
    let mut keep: Vec<Vec<bool>> = Vec::new();
    let mut i: usize = 0;
    while i < fields.len()
        invariant
            i <= fields@.len(),
            fv == fields@.map_values(|f: RawField| raw_field_view(f)),
            raw_plan(fv, i as int) matches Ok(v) && plans@.map_values(|q: AccessorPlan| plan_view(q))
                == v,
            keep_matches(keep@, fv.take(i as int)),
        decreases fields@.len() - i,
    {
        let (fname, attrs) = (&fields[i].0, &fields[i].1);
        let ghost av = attrs@.map_values(|a: RawAttr| raw_attr_view(a));
        assert(fv[i as int] == (fname@, av));
        let ghost base = plans@.map_values(|q: AccessorPlan| plan_view(q));
        let mut flags: Vec<bool> = Vec::new();
        let mut j: usize = 0;
        while j < attrs.len()
            invariant
                i < fields@.len(),
                fv == fields@.map_values(|f: RawField| raw_field_view(f)),
                fv[i as int] == (fname@, av),
                *attrs == fields@[i as int].1,
                av == attrs@.map_values(|a: RawAttr| raw_attr_view(a)),
                j <= attrs@.len(),
                raw_plan(fv, i as int) == Ok::<Seq<AccessorView>, GetterRefusal>(base),
                raw_field_plan(fname@, i as int, av, j as int) matches Ok(q) && plans@.map_values(
                    |p: AccessorPlan| plan_view(p),
                ) == base + q,
                flags@.len() == j,
                forall|b: int|
                    0 <= b < j ==> #[trigger] flags@[b] == (accessor_kind_of(av[b].0) is None),
            decreases attrs@.len() - j,
        {
            let ghost before = plans@.map_values(|p: AccessorPlan| plan_view(p));
            let step = plan_attr(fname, i, &attrs[j]);
            assert(raw_attr_view(attrs@[j as int]) == av[j as int]);
            match step {
                Err(e) => {
                    assert(raw_field_plan(fname@, i as int, av, j + 1) == Err::<Seq<AccessorView>, GetterRefusal>(e));
                    proof {
                        lemma_field_plan_err_to(fname@, i as int, av, j + 1, av.len() as int);
                        assert(raw_plan(fv, i + 1) == Err::<Seq<AccessorView>, GetterRefusal>(e));
                        lemma_plan_err_to(fv, i + 1, fv.len() as int);
                    }
                    return Err(e);
                },
                Ok(Some(p)) => {
                    plans.push(p);
                    flags.push(false);
                    assert(plans@.map_values(|q: AccessorPlan| plan_view(q)) =~= before.push(plan_view(p)));
                },
                Ok(None) => {
                    flags.push(true);
                },
            }
            j = j + 1;
        }
        let ghost kb = keep@;
        keep.push(flags);
        assert(av.len() == attrs@.len());
        proof {
            let ft = fv.take(i + 1);
            assert(ft.drop_last() == fv.take(i as int));
            assert forall|a: int| 0 <= a < ft.len() implies (#[trigger] keep@[a])@.len() == ft[a].1.len() by {
                if a < i {
                    assert(keep@[a] == kb[a]);
                    assert(ft[a] == fv.take(i as int)[a]);
                }
            }
            assert forall|a: int, b: int|
                0 <= a < ft.len() && 0 <= b < ft[a].1.len() implies #[trigger] keep@[a]@[b]
                    == (accessor_kind_of(ft[a].1[b].0) is None) by {
                if a < i {
                    assert(keep@[a] == kb[a]);
                    assert(ft[a] == fv.take(i as int)[a]);
                } else {
                    assert(ft[a].1 == av);
                }
            }
        }
        i = i + 1;
    }
    assert(fv.len() == fields@.len());
    assert(fv.take(fv.len() as int) == fv);
    Ok((plans, keep))
}

/// Plans `#[getter]` on the struct `tokens`: syn's error when it does not parse, a refusal for
/// a struct whose fields are not named, else the first refused attribute (field by field) or
/// the accessors of `raw_plan` with the attributes that stay on each field.
pub fn plan_getter(tokens: &str) -> (r: Result<GetterPlan, GetterError>)
    ensures
        struct_fields_of(tokens@) is None <==> r matches Err(GetterError::Syn(_)),
        struct_fields_of(tokens@) == Some(None::<Seq<(Seq<char>, Seq<RawAttrV>)>>) <==> r matches Err(
            GetterError::NotNamedStruct,
        ),
        struct_fields_of(tokens@) matches Some(Some(fs)) ==> match raw_plan(fs, fs.len() as int) {
            Err(GetterRefusal::NotAnIdent) => r matches Err(GetterError::NotAnIdent),
            Err(GetterRefusal::NameValue) => r matches Err(GetterError::NameValue),
            Ok(v) => r matches Ok(p) && p.accessors@.map_values(|q: AccessorPlan| plan_view(q)) == v
                && keep_matches(p.keep@, fs),
        },
        struct_fields_of(tokens@) matches Some(Some(fs)) ==> (r matches Ok(p) ==> p.accessors@.len()
            == fields_accessor_count(fs, fs.len() as int)),
{
    let (item, fields) = match parse_struct(tokens) {
        Ok(p) => p,
        Err(e) => return Err(GetterError::Syn(e)),
    };
    let fields = match fields {
        Some(f) => f,
        None => return Err(GetterError::NotNamedStruct),
    };
    let ghost fv = fields@.map_values(|f: RawField| raw_field_view(f));
    assert(fv.len() == fields@.len());
    assert(struct_fields_of(tokens@) == Some(Some(fv)));
    proof {
        law_accessor_count(fv, fv.len() as int);
    }
    match plan_fields(&fields) {
        Err(GetterRefusal::NotAnIdent) => Err(GetterError::NotAnIdent),
        Err(GetterRefusal::NameValue) => Err(GetterError::NameValue),
        Ok((accessors, keep)) => {
            Ok(GetterPlan { item, accessors, keep })
        },
    }
}

/// The struct `tokens` holds, for a macro that only re-emits it (the singletons): syn's
/// error exactly when it does not parse as a struct.
pub fn parse_struct_item(tokens: &str) -> (r: Result<syn::ItemStruct, syn::Error>)
    ensures
        r is Ok <==> struct_fields_of(tokens@) is Some,
{
    match parse_struct(tokens) {
        Ok((item, _)) => Ok(item),
        Err(e) => Err(e),
    }
}

} // verus!

