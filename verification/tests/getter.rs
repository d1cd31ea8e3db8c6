use xynok_std::getter::{getter, AccessorKind, AttrArg, FieldAttrShape};

fn attr(accessor: Option<AccessorKind>, arg: AttrArg) -> FieldAttrShape
{
    FieldAttrShape { accessor, arg }
}

#[test]
fn getter_plans_accessors_in_field_and_attribute_order()
{
    let names = vec!["f10".to_string(), "linked".to_string(), "broken".to_string(), "broken2".to_string(), "plain".to_string()];
    let attrs = vec![
        vec![attr(Some(AccessorKind::Get), AttrArg::Name("root".to_string()))],
        vec![attr(None, AttrArg::Bare), attr(Some(AccessorKind::Get), AttrArg::Bare)],
        vec![attr(Some(AccessorKind::GetMut), AttrArg::Bare)],
        vec![attr(Some(AccessorKind::GetMut), AttrArg::Name("custom_name_here".to_string()))],
        vec![],
    ];
    let plans = getter(&names, &attrs).ok().unwrap();
    let got: Vec<(String, usize, AccessorKind)> = plans.into_iter().map(|p| (p.method_name, p.field_index, p.kind)).collect();
    assert_eq!(
        got,
        vec![
            ("root".to_string(), 0, AccessorKind::Get),
            ("linked".to_string(), 1, AccessorKind::Get),
            ("broken".to_string(), 2, AccessorKind::GetMut),
            ("custom_name_here".to_string(), 3, AccessorKind::GetMut),
        ]
    );
}

#[test]
fn getter_refuses_name_value_form()
{
    let names = vec!["a".to_string(), "b".to_string()];
    let attrs = vec![vec![attr(Some(AccessorKind::Get), AttrArg::Bare)], vec![attr(Some(AccessorKind::GetMut), AttrArg::NameValue)]];
    assert!(getter(&names, &attrs).is_err());
    // the same form on an attribute that asks for no accessor is left alone
    let attrs = vec![vec![attr(None, AttrArg::NameValue)], vec![]];
    assert_eq!(getter(&names, &attrs).ok().map(|p| p.len()), Some(0));
}
