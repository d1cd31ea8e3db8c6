use vstd::prelude::*;

verus! {

#[verifier::external_type_specification]
#[verifier::external_body]
pub struct ExSynDeriveInput(syn::DeriveInput);

/// What `syn::parse_str::<syn::DeriveInput>` reads from `tokens`, when it parses: for an enum,
/// each variant's name and whether it is a unit variant; `None` inside for a struct or union.
pub uninterp spec fn enum_variants_of(tokens: Seq<char>) -> Option<Option<Seq<(Seq<char>, bool)>>>;

/// `syn::parse_str::<syn::DeriveInput>`: the item and, for an enum, each variant's name and
/// whether it is a unit variant; or syn's error. A function of the text alone.
#[verifier::external_body]
fn parse_derive_input(tokens: &str) -> (r: Result<(syn::DeriveInput, Option<Vec<(String, bool)>>), syn::Error>)
    ensures
        r is Ok <==> enum_variants_of(tokens@) is Some,
        r matches Ok(p) ==> enum_variants_of(tokens@)->0 == (match p.1 {
            Some(vs) => Some(vs@.map_values(|v: (String, bool)| (v.0@, v.1))),
            None => None,
        }),
{
    let d = syn::parse_str::<syn::DeriveInput>(tokens)?;
    let variants = match &d.data {
        syn::Data::Enum(e) => Some(e.variants.iter().map(|v| (
            v.ident.to_string(),
            matches!(v.fields, syn::Fields::Unit),
        )).collect()),
        _ => None,
    };
    Ok((d.clone(), variants))
}

/// Why `#[enum_extensions]` refuses an item.
pub enum EnumExtError {
    /// The input does not parse.
    Syn(syn::Error),
    /// The item is not an enum.
    NotAnEnum,
    /// Some variant carries fields.
    NonUnit,
}

/// A planned `#[enum_extensions]`: the parsed enum and its variant names, in order.
pub struct EnumExtPlan {
    pub item: syn::DeriveInput,
    pub variants: Vec<String>,
}

/// Why `#[enum_extensions]` refuses a parsed item, as a plain value.
#[derive(Clone, Copy, PartialEq, Eq, Structural, Debug)]
pub enum EnumExtRefusal {
    NotAnEnum,
    NonUnit,
}

/// The outcome over what the input parses to: `None` when it does not parse; a refusal for an
/// item that is not an enum or for an enum with a non-unit variant; else the variant names.
pub open spec fn ext_outcome(parsed: Option<Option<Seq<(Seq<char>, bool)>>>) -> Option<
    Result<Seq<Seq<char>>, EnumExtRefusal>,
> {
    match parsed {
        None => None,
        Some(None) => Some(Err(EnumExtRefusal::NotAnEnum)),
        Some(Some(vs)) => if forall|i: int| 0 <= i < vs.len() ==> #[trigger] vs[i].1 {
            Some(Ok(vs.map_values(|v: (Seq<char>, bool)| v.0)))
        } else {
            Some(Err(EnumExtRefusal::NonUnit))
        },
    }
}

/// Plans `#[enum_extensions]` on `tokens`, as `ext_outcome` states: syn's error when it does
/// not parse, a refusal for an item that is not an enum or has a non-unit variant, else the
/// variant names in order.
pub fn plan_enum_extensions(tokens: &str) -> (r: Result<EnumExtPlan, EnumExtError>)
    ensures
        match ext_outcome(enum_variants_of(tokens@)) {
            None => r matches Err(EnumExtError::Syn(_)),
            Some(Err(EnumExtRefusal::NotAnEnum)) => r matches Err(EnumExtError::NotAnEnum),
            Some(Err(EnumExtRefusal::NonUnit)) => r matches Err(EnumExtError::NonUnit),
            Some(Ok(names)) => r matches Ok(p) && p.variants@.map_values(|s: String| s@) == names,
        },
{
    let (item, variants) = match parse_derive_input(tokens) {
        Ok(p) => p,
        Err(e) => return Err(EnumExtError::Syn(e)),
    };
    let variants = match variants {
        Some(v) => v,
        None => return Err(EnumExtError::NotAnEnum),
    };
    let ghost vs = variants@.map_values(|v: (String, bool)| (v.0@, v.1));
    assert(vs.len() == variants@.len());
    let mut all_unit = true;
    let mut k: usize = 0;
    while k < variants.len()
        invariant
            k <= variants@.len(),
            vs == variants@.map_values(|v: (String, bool)| (v.0@, v.1)),
            all_unit == forall|j: int| 0 <= j < k ==> #[trigger] vs[j].1,
        decreases variants@.len() - k,
    {
        assert(vs[k as int].1 == variants@[k as int].1);
        if !variants[k].1 {
            all_unit = false;
        }
        k = k + 1;
    }
    if !all_unit {
        return Err(EnumExtError::NonUnit);
    }
    let mut names: Vec<String> = Vec::new();
    let mut i: usize = 0;
    while i < variants.len()
        invariant
            i <= variants@.len(),
            vs == variants@.map_values(|v: (String, bool)| (v.0@, v.1)),
            names@.len() == i,
            forall|j: int| 0 <= j < i ==> #[trigger] names@[j]@ == vs[j].0,
        decreases variants@.len() - i,
    {
        names.push(variants[i].0.clone());
        i = i + 1;
    }
    assert(names@.map_values(|s: String| s@) =~= vs.map_values(|v: (Seq<char>, bool)| v.0));
    Ok(EnumExtPlan { item, variants: names })
}

} // verus!
