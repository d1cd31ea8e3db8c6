use vstd::prelude::*;

use crate::collection::xy_hash_map::{insert_all, reversed};
use crate::collection::{str_eq, XyHashMap, TOMBSTONE};

pub mod cache;
pub mod input;

pub use cache::{defer_link, DeferredEntry, DeferredLinks, UniqueItemId};

verus! {

/// What dispatch needs to know of a trait method's signature.
pub struct TraitMethodShape {
    /// It takes `self`, `&self` or `&mut self`.
    pub has_self_receiver: bool,
    /// Its own generic parameters.
    pub num_generic_params: usize,
    /// Predicates of its own `where` clause.
    pub num_where_predicates: usize,
    /// It returns `Self` itself.
    pub returns_bare_self: bool,
}

/// Why a trait method cannot be dispatched through an enum.
#[derive(Clone, Copy, PartialEq, Eq, Structural, Debug)]
pub enum MethodViolation {
    /// A static method: no `self` receiver.
    NoSelfReceiver,
    /// Method-level generic parameters.
    MethodGenerics,
    /// A method-level `where` clause.
    MethodWhereClause,
    /// Returns `Self`.
    ReturnsSelf,
}

/// The first rule that `m` breaks, in the order the rules are checked.
pub open spec fn method_violation(m: TraitMethodShape) -> Option<MethodViolation> {
    if !m.has_self_receiver {
        Some(MethodViolation::NoSelfReceiver)
    } else if m.num_generic_params > 0 {
        Some(MethodViolation::MethodGenerics)
    } else if m.num_where_predicates > 0 {
        Some(MethodViolation::MethodWhereClause)
    } else if m.returns_bare_self {
        Some(MethodViolation::ReturnsSelf)
    } else {
        None
    }
}

/// Checks that every method can be dispatched; reports the first method that cannot, and
/// the first rule it breaks.
pub fn validate_trait_methods(methods: &Vec<TraitMethodShape>) -> (r: Result<
    (),
    (usize, MethodViolation),
>)
    ensures
        r is Ok <==> forall|i: int| 0 <= i < methods@.len() ==> method_violation(
            #[trigger] methods@[i],
        ) is None,
        r matches Err((i, v)) ==> {
            &&& i < methods@.len()
            &&& method_violation(methods@[i as int]) == Some(v)
            &&& forall|j: int| 0 <= j < i ==> method_violation(#[trigger] methods@[j]) is None
        },
{
    let mut i: usize = 0;
    while i < methods.len()
        invariant
            i <= methods@.len(),
            forall|j: int| 0 <= j < i ==> method_violation(#[trigger] methods@[j]) is None,
        decreases methods@.len() - i,
    {
        let m = &methods[i];
        if !m.has_self_receiver {
            return Err((i, MethodViolation::NoSelfReceiver));
        }
        if m.num_generic_params > 0 {
            return Err((i, MethodViolation::MethodGenerics));
        }
        if m.num_where_predicates > 0 {
            return Err((i, MethodViolation::MethodWhereClause));
        }
        if m.returns_bare_self {
            return Err((i, MethodViolation::ReturnsSelf));
        }
        i = i + 1;
    }
    Ok(())
}

/// The parts of a type that decide whether it is a bare `Self`.
pub enum TypeShape {
    /// A path type: whether it has a qualified self, and its segment identifiers.
    Path { has_qself: bool, segments: Vec<String> },
    /// Any other type.
    Other,
}

/// A path type without qualified self whose single segment is `Self`.
pub open spec fn spec_is_bare_self(ty: TypeShape) -> bool {
    match ty {
        TypeShape::Path { has_qself, segments } => !has_qself && segments@.len() == 1
            && segments@[0]@ == "Self"@,
        TypeShape::Other => false,
    }
}

pub fn is_bare_self(ty: &TypeShape) -> (r: bool)
    ensures
        r == spec_is_bare_self(*ty),
{
    match ty {
        TypeShape::Path { has_qself, segments } => {
            if *has_qself || segments.len() != 1 {
                return false;
            }
            str_eq(segments[0].as_str(), "Self")
        },
        TypeShape::Other => false,
    }
}

/// A name appears among `names`.
pub open spec fn names_contain(names: Seq<String>, n: Seq<char>) -> bool {
    exists|j: int| 0 <= j < names.len() && names[j]@ == n
}

/// A name that reads as a type parameter: an upper-case ASCII letter followed by upper-case
/// ASCII letters and digits (`T`, `U`, `K2`). Concrete type names (`f32`, `String`) do not.
pub open spec fn looks_like_type_param(n: Seq<char>) -> bool {
    &&& n.len() > 0
    &&& 'A' <= n[0] <= 'Z'
    &&& forall|i: int| 0 <= i < n.len() ==> ('A' <= #[trigger] n[i] <= 'Z' || '0' <= n[i] <= '9')
}

/// Argument `k` of a trait path names a type parameter the enum does not declare: a bare
/// name that reads as a type parameter and is not one of the enum's.
pub open spec fn arg_undeclared(args: Seq<Option<String>>, enum_params: Seq<String>, k: int) -> bool {
    match args[k] {
        Some(n) => looks_like_type_param(n@) && !names_contain(enum_params, n@),
        None => false,
    }
}

/// Whether `s` reads as a type parameter, as `looks_like_type_param` states.
pub fn is_type_param_like(s: &str) -> (r: bool)
    ensures
        r == looks_like_type_param(s@),
{
    let n = s.unicode_len();
    if n == 0 {
        return false;
    }
    let c0 = s.get_char(0);
    if !('A' <= c0 && c0 <= 'Z') {
        return false;
    }
    let mut i: usize = 0;
    while i < n
        invariant
            n == s@.len(),
            i <= n,
            forall|j: int| 0 <= j < i ==> ('A' <= #[trigger] s@[j] <= 'Z' || '0' <= s@[j] <= '9'),
        decreases n - i,
    {
        let c = s.get_char(i);
        if !(('A' <= c && c <= 'Z') || ('0' <= c && c <= '9')) {
            return false;
        }
        i = i + 1;
    }
    true
}

/// For an enum with generics, the first argument of the trait path that is a bare name
/// reading as a type parameter (`args[k]` is `Some(name)`) but not one of the enum's type
/// parameters. Concrete types such as `f32` or `String` are never reported.
pub fn first_undeclared_type_arg(
    args: &Vec<Option<String>>,
    enum_type_params: &Vec<String>,
    enum_num_generics: usize,
) -> (r: Option<usize>)
    ensures
        enum_num_generics == 0 ==> r is None,
        enum_num_generics > 0 ==> match r {
            Some(k) => {
                &&& k < args@.len()
                &&& arg_undeclared(args@, enum_type_params@, k as int)
                &&& forall|j: int| 0 <= j < k ==> !arg_undeclared(args@, enum_type_params@, j)
            },
            None => forall|j: int|
                0 <= j < args@.len() ==> !arg_undeclared(args@, enum_type_params@, j),
        },
{
    if enum_num_generics == 0 {
        return None;
    }
    let mut k: usize = 0;
    while k < args.len()
        invariant
            enum_num_generics > 0,
            k <= args@.len(),
            forall|j: int| 0 <= j < k ==> !arg_undeclared(args@, enum_type_params@, j),
        decreases args@.len() - k,
    {
        match &args[k] {
            Some(name) => if is_type_param_like(name.as_str()) {
                let mut found = false;
                let mut j: usize = 0;
                while j < enum_type_params.len()
                    invariant
                        j <= enum_type_params@.len(),
                        found == exists|q: int|
                            0 <= q < j && enum_type_params@[q]@ == name@,
                    decreases enum_type_params@.len() - j,
                {
                    if str_eq(enum_type_params[j].as_str(), name.as_str()) {
                        found = true;
                    }
                    j = j + 1;
                }
                if !found {
                    return Some(k);
                }
            },
            None => {},
        }
        k = k + 1;
    }
    None
}

/// Pairs each trait type parameter with the concrete argument at its position.
pub open spec fn param_arg_pairs<T>(params: Seq<String>, args: Seq<T>) -> Seq<(String, T)> {
    Seq::new(
        if params.len() < args.len() {
            params.len()
        } else {
            args.len()
        },
        |i: int| (params[i], args[i]),
    )
}

/// Maps each trait type parameter to the concrete argument at its position; a repeated
/// parameter name keeps its last argument.
pub fn build_substitution_map<T>(trait_params: Vec<String>, concrete_args: Vec<T>) -> (m: XyHashMap<
    String,
    T,
>)
    requires
        trait_params@.len() + 1 <= TOMBSTONE,
        (trait_params@.len() + 1) * 32 <= usize::MAX,
    ensures
        m.wf(),
        m@ == insert_all(Map::empty(), param_arg_pairs(trait_params@, concrete_args@)),
{
    let ghost ps = trait_params@;
    let ghost az = concrete_args@;
    let mut rp = reversed(trait_params);
    let mut ra = reversed(concrete_args);
    let n = if rp.len() < ra.len() {
        rp.len()
    } else {
        ra.len()
    };
    let mut pairs: Vec<(String, T)> = Vec::new();
    let mut i: usize = 0;
    while i < n
        invariant
            n == param_arg_pairs(ps, az).len(),
            i <= n,
            rp@ == ps.skip(i as int).reverse(),
            ra@ == az.skip(i as int).reverse(),
            pairs@ == param_arg_pairs(ps, az).take(i as int),
        decreases n - i,
    {
        assert(rp@.last() == ps[i as int]);
        assert(ra@.last() == az[i as int]);
        let p = rp.pop().unwrap();
        let a = ra.pop().unwrap();
        pairs.push((p, a));
        assert(pairs@ =~= param_arg_pairs(ps, az).take(i + 1));
        assert(rp@ =~= ps.skip(i + 1).reverse());
        assert(ra@ =~= az.skip(i + 1).reverse());
        i = i + 1;
    }
    assert(pairs@ =~= param_arg_pairs(ps, az));
    XyHashMap::from_pairs(pairs)
}

} // verus!
