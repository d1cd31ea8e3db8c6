use xynok_std::enum_dispatcher::{
    build_substitution_map, defer_link, first_undeclared_type_arg, is_bare_self, is_type_param_like, validate_trait_methods, DeferredLinks, MethodViolation, TraitMethodShape,
    TypeShape, UniqueItemId,
};

fn method(_name: &str, has_self_receiver: bool, num_generic_params: usize, num_where_predicates: usize, returns_bare_self: bool) -> TraitMethodShape
{
    TraitMethodShape { has_self_receiver, num_generic_params, num_where_predicates, returns_bare_self }
}

#[test]
fn dispatchable_methods_pass_validation()
{
    let ms = vec![method("area", true, 0, 0, false), method("scale", true, 0, 0, false)];
    assert_eq!(validate_trait_methods(&ms), Ok(()));
    assert_eq!(validate_trait_methods(&Vec::new()), Ok(()));
}

#[test]
fn validation_reports_first_method_and_first_rule_broken()
{
    let ms = vec![
        method("ok", true, 0, 0, false),
        method("make", false, 1, 1, true),
        method("generic", true, 2, 0, false),
    ];
    assert_eq!(validate_trait_methods(&ms), Err((1, MethodViolation::NoSelfReceiver)));
    assert_eq!(validate_trait_methods(&vec![method("g", true, 1, 1, true)]), Err((0, MethodViolation::MethodGenerics)));
    assert_eq!(validate_trait_methods(&vec![method("w", true, 0, 2, true)]), Err((0, MethodViolation::MethodWhereClause)));
    assert_eq!(validate_trait_methods(&vec![method("s", true, 0, 0, true)]), Err((0, MethodViolation::ReturnsSelf)));
}

#[test]
fn bare_self_is_a_single_unqualified_self_segment()
{
    assert!(is_bare_self(&TypeShape::Path { has_qself: false, segments: vec!["Self".to_string()] }));
    assert!(!is_bare_self(&TypeShape::Path { has_qself: true, segments: vec!["Self".to_string()] }));
    assert!(!is_bare_self(&TypeShape::Path { has_qself: false, segments: vec!["Self".to_string(), "Item".to_string()] }));
    assert!(!is_bare_self(&TypeShape::Path { has_qself: false, segments: vec!["Shape".to_string()] }));
    assert!(!is_bare_self(&TypeShape::Other));
}

#[test]
fn undeclared_type_argument_is_found()
{
    let params = vec!["T".to_string(), "U".to_string()];
    let args = vec![Some("T".to_string()), None, Some("X".to_string()), Some("Y".to_string())];
    assert_eq!(first_undeclared_type_arg(&args, &params, 2), Some(2));
    assert_eq!(first_undeclared_type_arg(&vec![Some("U".to_string()), None], &params, 2), None);
    // concrete types are fine on a generic enum: `Processor<T, f32>` on `Fx<T>`
    let fx = vec!["T".to_string()];
    assert_eq!(first_undeclared_type_arg(&vec![Some("T".to_string()), Some("f32".to_string())], &fx, 1), None);
    assert_eq!(first_undeclared_type_arg(&vec![Some("String".to_string()), Some("T".to_string())], &fx, 1), None);
    assert_eq!(first_undeclared_type_arg(&vec![Some("T".to_string()), Some("U".to_string())], &fx, 1), Some(1));
    assert!(is_type_param_like("K2"));
    assert!(!is_type_param_like("String"));
    assert!(!is_type_param_like("f32"));
    assert!(!is_type_param_like("2T"));
    // an enum without generics never has an undeclared argument
    assert_eq!(first_undeclared_type_arg(&args, &params, 0), None);
}

#[test]
fn substitution_map_pairs_parameters_with_arguments()
{
    let m = build_substitution_map(vec!["T".to_string(), "U".to_string(), "V".to_string()], vec![10u32, 20u32]);
    assert_eq!(m.len(), 2);
    assert_eq!(m.get(&"T".to_string()), Some(&10));
    assert_eq!(m.get(&"U".to_string()), Some(&20));
    assert_eq!(m.get(&"V".to_string()), None);
    // a repeated parameter keeps its last argument
    let m2 = build_substitution_map(vec!["T".to_string(), "T".to_string()], vec![1u8, 2u8]);
    assert_eq!(m2.len(), 1);
    assert_eq!(m2.get(&"T".to_string()), Some(&2));
}

#[test]
fn deferred_links_collect_waiters_and_hand_them_out_once()
{
    let mut links = DeferredLinks::new();
    assert_eq!(links.awaited(), 0);
    let shape = UniqueItemId::new("Shape".to_string(), 1);
    defer_link(&mut links, shape.clone(), UniqueItemId::new("Circle".to_string(), 0), "Shape<f32>".to_string());
    defer_link(&mut links, shape.clone(), UniqueItemId::new("Square".to_string(), 0), "Shape<f64>".to_string());
    defer_link(&mut links, UniqueItemId::new("Shape".to_string(), 2), UniqueItemId::new("Pair".to_string(), 0), "Shape<A, B>".to_string());
    assert_eq!(links.awaited(), 2);
    let waiting = links.take_waiting(&shape);
    let names: Vec<(String, String)> = waiting.into_iter().map(|(id, path)| (id.item_name, path)).collect();
    assert_eq!(names, vec![("Circle".to_string(), "Shape<f32>".to_string()), ("Square".to_string(), "Shape<f64>".to_string())]);
    assert!(links.take_waiting(&shape).is_empty());
    assert_eq!(links.awaited(), 1);
}
