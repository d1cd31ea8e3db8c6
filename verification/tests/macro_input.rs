use xynok_std::enum_dispatcher::input::{check_enum_dispatch, check_trait_dispatch, DispatchError, TraitDispatchError};
use xynok_std::enum_dispatcher::MethodViolation;
use xynok_std::enum_extensions::{plan_enum_extensions, EnumExtError};
use xynok_std::getter::{parse_struct_item, plan_getter, AccessorKind, GetterError};

#[test]
fn enum_dispatch_accepts_concrete_arguments()
{
    let d = match check_enum_dispatch("Processor<T, f32>", "enum Fx<T> { Scale(ScaleProcessor<T>) }")
    {
        Ok(d) => d,
        Err(_) => panic!("a concrete argument was refused"),
    };
    assert_eq!((d.trait_id.item_name.as_str(), d.trait_id.num_generics), ("Processor", 2));
    assert_eq!((d.enum_id.item_name.as_str(), d.enum_id.num_generics), ("Fx", 1));
}

#[test]
fn enum_dispatch_refuses_an_undeclared_parameter()
{
    match check_enum_dispatch("Processor<T, U>", "enum Fx<T> { Scale(ScaleProcessor<T>) }")
    {
        Err(DispatchError::UndeclaredParam { name, enum_name }) => assert_eq!((name.as_str(), enum_name.as_str()), ("U", "Fx")),
        _ => panic!("expected the undeclared parameter U"),
    }
    // an enum without generics takes any arguments
    assert!(check_enum_dispatch("Processor<T>", "enum Plain { A(u8) }").is_ok());
    assert!(matches!(check_enum_dispatch("Processor<T>", "struct NotAnEnum;"), Err(DispatchError::Syn(_))));
    assert!(matches!(check_enum_dispatch("<<", "enum E { A }"), Err(DispatchError::Syn(_))));
}

#[test]
fn getter_plan_from_struct_text()
{
    let plan = match plan_getter("pub struct FeatureChain { #[get(root)] f10: u32, #[get] linked: bool, #[get_mut] broken: bool, #[get_mut(custom_name_here)] broken2: bool, #[doc = \"x\"] plain: u8 }")
    {
        Ok(p) => p,
        Err(_) => panic!("the struct was refused"),
    };
    let got: Vec<(String, usize, AccessorKind)> = plan.accessors.into_iter().map(|p| (p.method_name, p.field_index, p.kind)).collect();
    assert_eq!(
        got,
        vec![
            ("root".to_string(), 0, AccessorKind::Get),
            ("linked".to_string(), 1, AccessorKind::Get),
            ("broken".to_string(), 2, AccessorKind::GetMut),
            ("custom_name_here".to_string(), 3, AccessorKind::GetMut),
        ]
    );
    assert_eq!(plan.keep, vec![vec![false], vec![false], vec![false], vec![false], vec![true]]);
}

#[test]
fn getter_refusals()
{
    assert!(matches!(plan_getter("struct T(u8);"), Err(GetterError::NotNamedStruct)));
    assert!(matches!(plan_getter("struct S { #[get = \"x\"] a: u8 }"), Err(GetterError::NameValue)));
    assert!(matches!(plan_getter("struct S { #[get(a b)] a: u8 }"), Err(GetterError::NotAnIdent)));
    assert!(matches!(plan_getter("enum E { A }"), Err(GetterError::Syn(_))));
}

#[test]
fn enum_extensions_plan_from_enum_text()
{
    match plan_enum_extensions("enum Color { Red, Green, Blue }")
    {
        Ok(p) => assert_eq!(p.variants, vec!["Red", "Green", "Blue"]),
        Err(_) => panic!("a unit-only enum was refused"),
    }
    assert!(matches!(plan_enum_extensions("enum E { A, B(u8) }"), Err(EnumExtError::NonUnit)));
    assert!(matches!(plan_enum_extensions("struct S;"), Err(EnumExtError::NotAnEnum)));
    assert!(matches!(plan_enum_extensions("fn f() {}"), Err(EnumExtError::Syn(_))));
}

#[test]
fn trait_dispatch_checks_methods_from_trait_text()
{
    match check_trait_dispatch("pub trait Processor<T, U> { fn process(&mut self, input: T) -> U; const N: usize; fn name(&self) -> String; }")
    {
        Ok(d) => assert_eq!((d.trait_id.item_name.as_str(), d.trait_id.num_generics), ("Processor", 2)),
        Err(_) => panic!("a dispatchable trait was refused"),
    }
    match check_trait_dispatch("trait T { fn ok(&self); fn make() -> Self; }")
    {
        Err(TraitDispatchError::Method { index, violation, .. }) => assert_eq!((index, violation), (1, MethodViolation::NoSelfReceiver)),
        _ => panic!("expected the static method to be refused"),
    }
    match check_trait_dispatch("trait T { fn dup(&self) -> Self; }")
    {
        Err(TraitDispatchError::Method { index, violation, .. }) => assert_eq!((index, violation), (0, MethodViolation::ReturnsSelf)),
        _ => panic!("expected the Self return to be refused"),
    }
    match check_trait_dispatch("trait T { fn g<X>(&self, x: X) where X: Copy; }")
    {
        Err(TraitDispatchError::Method { index, violation, .. }) => assert_eq!((index, violation), (0, MethodViolation::MethodGenerics)),
        _ => panic!("expected method generics to be refused"),
    }
    assert!(matches!(check_trait_dispatch("struct S;"), Err(TraitDispatchError::Syn(_))));
}

#[test]
fn singleton_input_must_be_a_struct()
{
    assert!(parse_struct_item("#[derive(Default)] struct AppState { counter: u32 }").is_ok());
    assert!(parse_struct_item("enum E { A }").is_err());
}
