use quote::ToTokens;
use syn::{ReturnType, TraitItem, Type};
use vstd::prelude::*;

use super::cache::UniqueItemId;
use super::{
    arg_undeclared, first_undeclared_type_arg, is_bare_self, looks_like_type_param, method_violation, names_contain,
    spec_is_bare_self, validate_trait_methods, MethodViolation, TraitMethodShape, TypeShape,
};

verus! {

#[verifier::external_type_specification]
#[verifier::external_body]
pub struct ExSynError(syn::Error);

#[verifier::external_type_specification]
#[verifier::external_body]
pub struct ExSynPath(syn::Path);

#[verifier::external_type_specification]
#[verifier::external_body]
pub struct ExSynItemEnum(syn::ItemEnum);

#[verifier::external_type_specification]
#[verifier::external_body]
pub struct ExSynItemTrait(syn::ItemTrait);

/// A type shape as a plain value: `Some((has_qself, segment names))` for a path type.
pub open spec fn shape_of(t: TypeShape) -> Option<(bool, Seq<Seq<char>>)> {
    match t {
        TypeShape::Path { has_qself, segments } => Some(
            (has_qself, segments@.map_values(|s: String| s@)),
        ),
        TypeShape::Other => None,
    }
}

/// What `syn::parse_str::<syn::Path>` reads from `path`, when it parses: the name of the
/// last segment, and the shape of each of its angle-bracketed arguments (`None` for one that
/// is not a type path).
pub uninterp spec fn trait_path_of(path: Seq<char>) -> Option<
    (Seq<char>, Seq<Option<(bool, Seq<Seq<char>>)>>),
>;

/// What `syn::parse_str::<syn::ItemEnum>` reads from `tokens`, when it parses: the enum's
/// name and, per generic parameter, its name when it is a type parameter (`None` for a
/// lifetime or const parameter).
pub uninterp spec fn enum_generics_of(tokens: Seq<char>) -> Option<(Seq<char>, Seq<Option<Seq<char>>>)>;

/// `syn::parse_str::<syn::Path>`: the path, its last segment's name and its arguments'
/// shapes, or syn's error; a function of the text alone.
#[verifier::external_body]
fn parse_trait_path(path: &str) -> (r: Result<(syn::Path, String, Vec<TypeShape>), syn::Error>)
    ensures
        r is Ok <==> trait_path_of(path@) is Some,
        r matches Ok(p) ==> (p.1@, p.2@.map_values(|t: TypeShape| shape_of(t))) == trait_path_of(
            path@,
        )->0,
{
    let p = syn::parse_str::<syn::Path>(path)?;
    let seg = p.segments.last().unwrap();
    let args = match &seg.arguments {
        syn::PathArguments::AngleBracketed(a) => a.args.iter().map(|g| match g {
            syn::GenericArgument::Type(syn::Type::Path(t)) => TypeShape::Path {
                has_qself: t.qself.is_some(),
                segments: t.path.segments.iter().map(|s| s.ident.to_string()).collect(),
            },
            _ => TypeShape::Other,
        }).collect(),
        _ => Vec::new(),
    };
    Ok((p.clone(), seg.ident.to_string(), args))
}

/// `syn::parse_str::<syn::ItemEnum>`: the enum, its name and its generic parameters (the
/// name of each type parameter), or syn's error; a function of the text alone.
#[verifier::external_body]
fn parse_enum(tokens: &str) -> (r: Result<(syn::ItemEnum, String, Vec<Option<String>>), syn::Error>)
    ensures
        r is Ok <==> enum_generics_of(tokens@) is Some,
        r matches Ok(e) ==> (e.1@, e.2@.map_values(|p: Option<String>| opt_view(p)))
            == enum_generics_of(tokens@)->0,
{
    let e = syn::parse_str::<syn::ItemEnum>(tokens)?;
    let params = e.generics.params.iter().map(|g| match g {
        syn::GenericParam::Type(t) => Some(t.ident.to_string()),
        _ => None,
    }).collect();
    Ok((e.clone(), e.ident.to_string(), params))
}

pub open spec fn opt_view(p: Option<String>) -> Option<Seq<char>> {
    match p {
        Some(s) => Some(s@),
        None => None,
    }
}

/// The bare name of an argument shape: a path without qualified self and with one segment.
pub open spec fn bare_name(s: Option<(bool, Seq<Seq<char>>)>) -> Option<Seq<char>> {
    match s {
        Some((q, segs)) => if !q && segs.len() == 1 {
            Some(segs[0])
        } else {
            None
        },
        None => None,
    }
}

/// The names of the type parameters among the generic parameters, in order.
pub open spec fn type_param_names(params: Seq<Option<Seq<char>>>) -> Seq<Seq<char>>
    decreases params.len(),
{
    if params.len() == 0 {
        Seq::empty()
    } else {
        let r = type_param_names(params.drop_last());
        match params.last() {
            Some(n) => r.push(n),
            None => r,
        }
    }
}

/// Argument `k` is a bare name that reads as a type parameter and is not one of `params`.
pub open spec fn undeclared_at(args: Seq<Option<Seq<char>>>, params: Seq<Seq<char>>, k: int) -> bool {
    match args[k] {
        Some(n) => looks_like_type_param(n) && !params.contains(n),
        None => false,
    }
}

/// Why `#[enum_dispatcher(Trait<..>)]` refuses an enum.
pub enum DispatchError {
    /// The trait path or the enum does not parse.
    Syn(syn::Error),
    /// Argument `name` of the trait path reads as a type parameter the enum does not declare.
    UndeclaredParam { name: String, enum_name: String },
}

/// What dispatching an enum through a trait needs: the parsed path and enum, and the ids
/// under which the trait and the enum are cached.
pub struct EnumDispatch {
    pub trait_path: syn::Path,
    pub enum_def: syn::ItemEnum,
    pub trait_id: UniqueItemId,
    pub enum_id: UniqueItemId,
}

/// The first argument that is a bare name reading as a type parameter and not among `tps`.
pub open spec fn first_undeclared(args: Seq<Option<Seq<char>>>, tps: Seq<Seq<char>>) -> Option<int>
    decreases args.len(),
{
    if args.len() == 0 {
        None
    } else {
        match first_undeclared(args.drop_last(), tps) {
            Some(k) => Some(k),
            None => if undeclared_at(args, tps, args.len() - 1) {
                Some(args.len() - 1)
            } else {
                None
            },
        }
    }
}

/// The outcome over the parsed parts: for an enum with generic parameters, the first
/// undeclared argument (its name and the enum's); else the trait id (last segment, argument
/// count) and the enum id (name, generic count).
pub open spec fn dispatch_of(
    base: Seq<char>,
    shapes: Seq<Option<(bool, Seq<Seq<char>>)>>,
    ename: Seq<char>,
    params: Seq<Option<Seq<char>>>,
) -> Result<((Seq<char>, usize), (Seq<char>, usize)), (Seq<char>, Seq<char>)> {
    let args = shapes.map_values(|s: Option<(bool, Seq<Seq<char>>)>| bare_name(s));
    match (if params.len() > 0 {
        first_undeclared(args, type_param_names(params))
    } else {
        None
    }) {
        Some(k) => Err((args[k]->0, ename)),
        None => Ok(((base, shapes.len() as usize), (ename, params.len() as usize))),
    }
}

/// The outcome of checking `#[enum_dispatcher(path)]` on the enum `tokens`: `None` when either
/// does not parse, else `dispatch_of` over what they parse to.
pub open spec fn dispatch_outcome(path: Seq<char>, tokens: Seq<char>) -> Option<
    Result<((Seq<char>, usize), (Seq<char>, usize)), (Seq<char>, Seq<char>)>,
> {
    match (trait_path_of(path), enum_generics_of(tokens)) {
        (Some((base, shapes)), Some((ename, params))) => Some(dispatch_of(base, shapes, ename, params)),
        _ => None,
    }
}

/// `first_undeclared` finds exactly the first undeclared argument.
proof fn lemma_first_undeclared(args: Seq<Option<Seq<char>>>, tps: Seq<Seq<char>>)
    ensures
        match first_undeclared(args, tps) {
            Some(k) => 0 <= k < args.len() && undeclared_at(args, tps, k) && forall|j: int|
                0 <= j < k ==> !undeclared_at(args, tps, j),
            None => forall|j: int| 0 <= j < args.len() ==> !undeclared_at(args, tps, j),
        },
    decreases args.len(),
{
    if args.len() > 0 {
        let a0 = args.drop_last();
        lemma_first_undeclared(a0, tps);
        assert forall|j: int| 0 <= j < a0.len() implies undeclared_at(a0, tps, j) == undeclared_at(
            args,
            tps,
            j,
        ) by {
            assert(a0[j] == args[j]);
        }
    }
}

/// The bare name of an argument shape.
fn bare_type_name(t: &TypeShape) -> (r: Option<String>)
    ensures
        opt_view(r) == bare_name(shape_of(*t)),
{
    match t {
        TypeShape::Path { has_qself, segments } => {
            if !*has_qself && segments.len() == 1 {
                Some(segments[0].clone())
            } else {
                None
            }
        },
        TypeShape::Other => None,
    }
}

/// The bare names of the argument shapes, in order.
fn bare_names(shapes: &Vec<TypeShape>) -> (args: Vec<Option<String>>)
    ensures
        args@.len() == shapes@.len(),
        forall|j: int|
            0 <= j < shapes@.len() ==> #[trigger] opt_view(args@[j]) == bare_name(shape_of(shapes@[j])),
{
    let mut args: Vec<Option<String>> = Vec::new();
    let mut i: usize = 0;
    while i < shapes.len()
        invariant
            i <= shapes@.len(),
            args@.len() == i,
            forall|j: int| 0 <= j < i ==> #[trigger] opt_view(args@[j]) == bare_name(shape_of(shapes@[j])),
        decreases shapes@.len() - i,
    {
        let a = bare_type_name(&shapes[i]);
        args.push(a);
        i = i + 1;
    }
    args
}

/// The names of the type parameters, in order.
fn type_params(params: &Vec<Option<String>>) -> (tps: Vec<String>)
    ensures
        tps@.map_values(|s: String| s@) == type_param_names(
            params@.map_values(|p: Option<String>| opt_view(p)),
        ),
{
    let ghost params_v = params@.map_values(|p: Option<String>| opt_view(p));
    let mut tps: Vec<String> = Vec::new();
    let mut j: usize = 0;
    while j < params.len()
        invariant
            j <= params@.len(),
            params_v == params@.map_values(|p: Option<String>| opt_view(p)),
            tps@.map_values(|s: String| s@) == type_param_names(params_v.take(j as int)),
        decreases params@.len() - j,
    {
        assert(params_v.take(j + 1).drop_last() == params_v.take(j as int));
        match &params[j] {
            Some(n) => {
                tps.push(n.clone());
                assert(tps@.map_values(|s: String| s@) =~= type_param_names(
                    params_v.take(j as int),
                ).push(n@));
            },
            None => {},
        }
        j = j + 1;
    }
    assert(params_v.take(params@.len() as int) == params_v);
    tps
}

/// `arg_undeclared` over the strings is `undeclared_at` over their views.
proof fn lemma_undeclared_views(
    args: Seq<Option<String>>,
    tps: Seq<String>,
    args_v: Seq<Option<Seq<char>>>,
    tps_v: Seq<Seq<char>>,
    k: int,
)
    requires
        0 <= k < args.len(),
        args_v.len() == args.len(),
        opt_view(args[k]) == args_v[k],
        tps_v == tps.map_values(|s: String| s@),
    ensures
        arg_undeclared(args, tps, k) == undeclared_at(args_v, tps_v, k),
{
    if let Some(n) = args[k] {
        if names_contain(tps, n@) {
            let q = choose|q: int| 0 <= q < tps.len() && tps[q]@ == n@;
            assert(tps_v[q] == tps[q]@);
        }
        if tps_v.contains(n@) {
            let q = choose|q: int| 0 <= q < tps_v.len() && tps_v[q] == n@;
            assert(tps_v[q] == tps[q]@);
        }
    }
}

/// Checks `#[enum_dispatcher(path)]` on the enum `tokens`, as `dispatch_outcome` states:
/// a parse failure is syn's error; an argument that reads as a type parameter the enum does
/// not declare is refused; concrete types are fine.
pub fn check_enum_dispatch(path: &str, tokens: &str) -> (r: Result<EnumDispatch, DispatchError>)
    ensures
        dispatch_outcome(path@, tokens@) is None <==> r matches Err(DispatchError::Syn(_)),
        dispatch_outcome(path@, tokens@) matches Some(Err((n, e))) ==> r matches Err(
            DispatchError::UndeclaredParam { name, enum_name },
        ) && name@ == n && enum_name@ == e,
        dispatch_outcome(path@, tokens@) matches Some(Ok((t, e))) ==> r matches Ok(d) && d.trait_id@
            == t && d.enum_id@ == e,
{
    let (trait_path, base, shapes) = match parse_trait_path(path) {
        Ok(p) => p,
        Err(e) => return Err(DispatchError::Syn(e)),
    };
    let (enum_def, ename, params) = match parse_enum(tokens) {
        Ok(p) => p,
        Err(e) => return Err(DispatchError::Syn(e)),
    };
    let ghost shapes_v = shapes@.map_values(|t: TypeShape| shape_of(t));
    let ghost params_v = params@.map_values(|p: Option<String>| opt_view(p));
    let ghost args_v = shapes_v.map_values(|s: Option<(bool, Seq<Seq<char>>)>| bare_name(s));
    let args = bare_names(&shapes);
    let tps = type_params(&params);
    let ghost tps_v = type_param_names(params_v);
    proof {
        assert forall|k: int| 0 <= k < args@.len() implies #[trigger] arg_undeclared(
            args@,
            tps@,
            k,
        ) == undeclared_at(args_v, tps_v, k) by {
            assert(opt_view(args@[k]) == bare_name(shape_of(shapes@[k])));
            lemma_undeclared_views(args@, tps@, args_v, tps_v, k);
        }
    }
    let num_generics = params.len();
    let found = first_undeclared_type_arg(&args, &tps, num_generics);
    proof {
        lemma_first_undeclared(args_v, tps_v);
        let f = first_undeclared(args_v, tps_v);
        if num_generics > 0 {
            match found {
                Some(k) => {
                    if f != Some(k as int) {
                        match f {
                            Some(k2) => {
                                if k2 < k {
                                    assert(!arg_undeclared(args@, tps@, k2));
                                    assert(!undeclared_at(args_v, tps_v, k2));
                                } else {
                                    assert(arg_undeclared(args@, tps@, k as int));
                                    assert(undeclared_at(args_v, tps_v, k as int));
                                }
                            },
                            None => {
                                assert(arg_undeclared(args@, tps@, k as int));
                                assert(undeclared_at(args_v, tps_v, k as int));
                            },
                        }
                    }
                },
                None => {
                    if let Some(k2) = f {
                        assert(!arg_undeclared(args@, tps@, k2));
                        assert(!undeclared_at(args_v, tps_v, k2));
                    }
                },
            }
        }
        assert(dispatch_outcome(path@, tokens@) == Some(dispatch_of(base@, shapes_v, ename@, params_v)));
    }
    match found {
        Some(k) => {
            let name = match &args[k] {
                Some(n) => n.clone(),
                None => String::new(),
            };
            assert(opt_view(args@[k as int]) == args_v[k as int]);
            Err(DispatchError::UndeclaredParam { name, enum_name: ename })
        },
        None => {
            let trait_id = UniqueItemId::new(base, shapes.len());
            let enum_id = UniqueItemId::new(ename, num_generics);
            Ok(EnumDispatch { trait_path, enum_def, trait_id, enum_id })
        },
    }
}

/// A trait method as syn reads it: whether it has a `self` receiver, its own generic
/// parameter and `where` predicate counts, and, for a path return type, whether it has a
/// qualified self and its segment names.
pub type RawMethod = (bool, usize, usize, Option<(bool, Vec<String>)>);

/// `RawMethod` as a plain value.
pub type RawMethodV = (bool, usize, usize, Option<(bool, Seq<Seq<char>>)>);

pub open spec fn raw_method_view(m: RawMethod) -> RawMethodV {
    (m.0, m.1, m.2, match m.3 {
        Some((q, segs)) => Some((q, segs@.map_values(|s: String| s@))),
        None => None,
    })
}

pub open spec fn raw_item_view(i: Option<RawMethod>) -> Option<RawMethodV> {
    match i {
        Some(m) => Some(raw_method_view(m)),
        None => None,
    }
}

/// What `syn::parse_str::<syn::ItemTrait>` reads from `tokens`, when it parses: the trait's
/// name, its generic parameter count and, per item, the text of its signature when it is a
/// method (`None` for another item).
pub uninterp spec fn trait_items_of(tokens: Seq<char>) -> Option<(Seq<char>, usize, Seq<Option<Seq<char>>>)>;

/// What `syn::parse_str::<syn::Signature>` reads from `text`, when it parses.
pub uninterp spec fn signature_of(text: Seq<char>) -> Option<RawMethodV>;

/// `syn::parse_str::<syn::ItemTrait>`: the trait, its name, generic count and the text of each
/// method's signature; or syn's error. A function of the text alone.
#[verifier::external_body]
fn parse_trait(tokens: &str) -> (r: Result<(syn::ItemTrait, String, usize, Vec<Option<String>>), syn::Error>)
    ensures
        r is Ok <==> trait_items_of(tokens@) is Some,
        r matches Ok(t) ==> trait_items_of(tokens@)->0 == (t.1@, t.2, t.3@.map_values(
            |i: Option<String>| opt_view(i),
        )),
{
    let t = syn::parse_str::<syn::ItemTrait>(tokens)?;
    let sigs = t.items.iter().map(|i| match i {
        TraitItem::Fn(m) => Some(m.sig.to_token_stream().to_string()),
        _ => None,
    }).collect();
    Ok((t.clone(), t.ident.to_string(), t.generics.params.len(), sigs))
}

/// `syn::parse_str::<syn::Signature>`: whether it has a `self` receiver, its own generic
/// parameter and `where` predicate counts, and its path return type's shape; `None` when
/// `text` is not a signature. A function of the text alone.
#[verifier::external_body]
fn parse_signature(text: &str) -> (r: Option<RawMethod>)
    ensures
        r matches Some(m) ==> signature_of(text@) == Some(raw_method_view(m)),
        r is None ==> signature_of(text@) is None,
{
    let s = syn::parse_str::<syn::Signature>(text).ok()?;
    Some((s.receiver().is_some(), s.generics.params.len(),
        s.generics.where_clause.as_ref().map_or(0, |w| w.predicates.len()),
        match &s.output {
            ReturnType::Type(_, ty) => match &**ty {
                Type::Path(p) => Some((p.qself.is_some(), p.path.segments.iter().map(|g| g.ident.to_string()).collect())),
                _ => None,
            },
            _ => None,
        }))
}

/// A return shape that is a bare `Self`: no qualified self, one segment `Self`.
pub open spec fn bare_self_v(o: Option<(bool, Seq<Seq<char>>)>) -> bool {
    match o {
        Some((q, segs)) => !q && segs.len() == 1 && segs[0] == "Self"@,
        None => false,
    }
}

/// The first dispatch rule a method breaks, over its plain shape (the rules of
/// `method_violation`).
pub open spec fn raw_violation(m: RawMethodV) -> Option<MethodViolation> {
    if !m.0 {
        Some(MethodViolation::NoSelfReceiver)
    } else if m.1 > 0 {
        Some(MethodViolation::MethodGenerics)
    } else if m.2 > 0 {
        Some(MethodViolation::MethodWhereClause)
    } else if bare_self_v(m.3) {
        Some(MethodViolation::ReturnsSelf)
    } else {
        None
    }
}

/// Why a parsed trait cannot take `#[enum_dispatcher]`, as a plain value.
#[derive(Clone, Copy, PartialEq, Eq, Structural, Debug)]
pub enum TraitRefusal {
    /// A method's signature text does not parse back as a signature.
    BadSignature,
    /// Method `index` (among the methods, in order) breaks `violation`.
    Method(usize, MethodViolation),
}

/// The outcome of checking `#[enum_dispatcher]` on the trait `tokens`: `None` when it does not
/// parse; a refusal when a method signature does not parse back, or for the first method that
/// breaks a rule (its first rule); else the trait id (name, generic count).
pub open spec fn trait_outcome(tokens: Seq<char>) -> Option<Result<(Seq<char>, usize), TraitRefusal>> {
    match trait_items_of(tokens) {
        None => None,
        Some((name, generics, items)) => {
            let sigs = type_param_names(items);
            if exists|i: int| 0 <= i < sigs.len() && #[trigger] signature_of(sigs[i]) is None {
                Some(Err(TraitRefusal::BadSignature))
            } else if exists|i: int|
                0 <= i < sigs.len() && #[trigger] raw_violation(signature_of(sigs[i])->0) is Some {
                let i = choose|i: int|
                    0 <= i < sigs.len() && raw_violation(signature_of(sigs[i])->0) is Some && forall|j: int|
                        0 <= j < i ==> #[trigger] raw_violation(signature_of(sigs[j])->0) is None;
                Some(Err(TraitRefusal::Method(i as usize, raw_violation(signature_of(sigs[i])->0)->0)))
            } else {
                Some(Ok((name, generics)))
            }
        },
    }
}

/// Why `#[enum_dispatcher]` refuses a trait.
pub enum TraitDispatchError {
    /// The trait does not parse.
    Syn(syn::Error),
    /// A method's signature does not parse back.
    BadSignature,
    /// Method `index` (among the trait's methods, in order) breaks `violation`.
    Method { item: syn::ItemTrait, index: usize, violation: MethodViolation },
}

/// A trait that takes `#[enum_dispatcher]`: the parsed trait and its cache id.
pub struct TraitDispatch {
    pub item: syn::ItemTrait,
    pub trait_id: UniqueItemId,
}

/// The dispatch shape of one method.
fn method_shape(m: RawMethod) -> (r: TraitMethodShape)
    ensures
        method_violation(r) == raw_violation(raw_method_view(m)),
{
    let shape = match m.3 {
        Some((q, segs)) => TypeShape::Path { has_qself: q, segments: segs },
        None => TypeShape::Other,
    };
    let returns_bare_self = is_bare_self(&shape);
    proof {
        if let TypeShape::Path { has_qself, segments } = shape {
            if segments@.len() == 1 {
                assert(segments@.map_values(|s: String| s@)[0] == segments@[0]@);
            }
        }
    }
    TraitMethodShape {
        has_self_receiver: m.0,
        num_generic_params: m.1,
        num_where_predicates: m.2,
        returns_bare_self,
    }
}

/// Checks `#[enum_dispatcher]` on the trait `tokens`, as `trait_outcome` states.
pub fn check_trait_dispatch(tokens: &str) -> (r: Result<TraitDispatch, TraitDispatchError>)
    ensures
        match trait_outcome(tokens@) {
            None => r matches Err(TraitDispatchError::Syn(_)),
            Some(Err(TraitRefusal::BadSignature)) => r matches Err(TraitDispatchError::BadSignature),
            Some(Err(TraitRefusal::Method(i, v))) => r matches Err(
                TraitDispatchError::Method { index, violation, .. },
            ) && index == i && violation == v,
            Some(Ok(id)) => r matches Ok(d) && d.trait_id@ == id,
        },
{
    let (item, name, generics, items) = match parse_trait(tokens) {
        Ok(t) => t,
        Err(e) => return Err(TraitDispatchError::Syn(e)),
    };
    let ghost items_v = items@.map_values(|i: Option<String>| opt_view(i));
    let sigs = type_params(&items);
    let ghost sigs_v = type_param_names(items_v);
    assert(sigs@.map_values(|s: String| s@) == sigs_v);
    assert(sigs@.len() == sigs_v.len());
    let mut shapes: Vec<TraitMethodShape> = Vec::new();
    let mut i: usize = 0;
    while i < sigs.len()
        invariant
            i <= sigs@.len(),
            trait_items_of(tokens@) == Some((name@, generics, items_v)),
            sigs_v == type_param_names(items_v),
            sigs@.len() == sigs_v.len(),
            sigs@.map_values(|s: String| s@) == sigs_v,
            shapes@.len() == i,
            forall|j: int| 0 <= j < i ==> #[trigger] signature_of(sigs_v[j]) is Some,
            forall|j: int|
                0 <= j < i ==> #[trigger] method_violation(shapes@[j]) == raw_violation(
                    signature_of(sigs_v[j])->0,
                ),
        decreases sigs@.len() - i,
    {
        assert(sigs_v[i as int] == sigs@[i as int]@);
        match parse_signature(sigs[i].as_str()) {
            Some(m) => {
                let sh = method_shape(m);
                shapes.push(sh);
            },
            None => {
                assert(signature_of(sigs_v[i as int]) is None);
                assert(trait_items_of(tokens@) == Some((name@, generics, items_v)));
                return Err(TraitDispatchError::BadSignature);
            },
        }
        i = i + 1;
    }
    assert(trait_items_of(tokens@) == Some((name@, generics, items_v)));
    match validate_trait_methods(&shapes) {
        Ok(()) => {
            assert forall|j: int| 0 <= j < sigs_v.len() implies #[trigger] raw_violation(
                signature_of(sigs_v[j])->0,
            ) is None by {
                assert(method_violation(shapes@[j]) is None);
            }
            let trait_id = UniqueItemId::new(name, generics);
            Ok(TraitDispatch { item, trait_id })
        },
        Err((index, violation)) => {
            assert(raw_violation(signature_of(sigs_v[index as int])->0) is Some);
            assert forall|j: int| 0 <= j < index implies #[trigger] raw_violation(
                signature_of(sigs_v[j])->0,
            ) is None by {
                assert(method_violation(shapes@[j]) is None);
            }
            Err(TraitDispatchError::Method { item, index, violation })
        },
    }
}

} // verus!
