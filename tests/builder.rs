use phase_builder::classify::{eq_ignore_ascii_case, FieldInfo, FieldsClassify};
use phase_builder::machine::{derive_plan, Builder};
use phase_builder::phases::{
    build_builder_struct, build_optional_impls, build_phases, build_required_impls, entry_phase,
    PhaseMarker,
};

#[derive(Debug, PartialEq)]
enum Value {
    Int(i64),
    Text(String),
}

fn field(name: &str, head: Option<&str>) -> FieldInfo {
    FieldInfo { name: name.to_string(), head: head.map(|h| h.to_string()) }
}

fn person() -> FieldsClassify {
    FieldsClassify::new(vec![
        field("id", Some("i64")),
        field("name", Some("String")),
        field("nickname", Some("Option")),
    ])
}

#[test]
fn classifies_by_outer_constructor() {
    let f = FieldsClassify::new(vec![
        field("a", Some("OPTION")),
        field("b", None),
        field("c", Some("Vec")),
        field("d", Some("option")),
        field("e", Some("Optional")),
    ]);
    assert_eq!(f.required(), vec![1, 2, 4]);
    assert_eq!(f.optional(), vec![0, 3]);
    assert_eq!(f.all().len(), 5);
}

#[test]
fn exclude_ignores_ascii_case() {
    let f = person();
    assert_eq!(f.exclude("NAME".to_string()), vec![0, 2]);
    assert_eq!(f.exclude("other".to_string()), vec![0, 1, 2]);
    assert!(eq_ignore_ascii_case("OpTiOn", "option"));
    assert!(!eq_ignore_ascii_case("optio", "option"));
    assert!(!eq_ignore_ascii_case("ÉA", "éa"));
}

#[test]
fn phases_one_per_required_plus_terminal() {
    let f = person();
    assert_eq!(
        build_phases(&f),
        vec![PhaseMarker::Phase(1), PhaseMarker::Phase(2), PhaseMarker::CanBuild]
    );
    assert_eq!(entry_phase(&f), PhaseMarker::Phase(1));
    let none = FieldsClassify::new(vec![field("x", Some("Option"))]);
    assert_eq!(build_phases(&none), vec![PhaseMarker::CanBuild]);
    assert_eq!(entry_phase(&none), PhaseMarker::CanBuild);
}

#[test]
fn transitions_chain_in_declaration_order() {
    let t = build_required_impls(&person());
    assert_eq!(t.len(), 2);
    assert_eq!((t[0].field, t[0].from, t[0].to), (0, PhaseMarker::Phase(1), PhaseMarker::Phase(2)));
    assert_eq!((t[1].field, t[1].from, t[1].to), (1, PhaseMarker::Phase(2), PhaseMarker::CanBuild));
    assert_eq!(t[0].carried, vec![1, 2]);
    assert_eq!(t[1].carried, vec![0, 2]);
}

#[test]
fn optional_setters_and_slots() {
    let f = person();
    let o = build_optional_impls(&f);
    assert_eq!(o.len(), 1);
    assert_eq!((o[0].field, o[0].at), (2, PhaseMarker::CanBuild));
    let s = build_builder_struct(&f);
    let shape: Vec<(usize, bool)> = s.iter().map(|x| (x.field, x.required)).collect();
    assert_eq!(shape, vec![(0, true), (1, true), (2, false)]);
}

#[test]
fn full_sequence_scenario() {
    let plan = derive_plan(&person());
    let b: Builder<Value> = Builder::start(&plan);
    let b = b.supply(&plan, 0, Value::Int(7)).unwrap();
    let b = b.supply(&plan, 1, Value::Text("ann".to_string())).unwrap();
    assert_eq!(b.phase, PhaseMarker::CanBuild);
    let b = b.set(&plan, 2, Value::Text("a".to_string())).unwrap();
    let b = b.set_opt(&plan, 2, None).unwrap();
    let r = b.build().unwrap();
    assert_eq!(r, vec![Some(Value::Int(7)), Some(Value::Text("ann".to_string())), None]);
}

#[test]
fn name_not_offered_before_id() {
    let plan = derive_plan(&person());
    let b: Builder<Value> = Builder::start(&plan);
    assert!(b.supply(&plan, 1, Value::Text("ann".to_string())).is_none());
}

#[test]
fn required_field_not_offered_twice() {
    let plan = derive_plan(&person());
    let b: Builder<Value> = Builder::start(&plan);
    let b = b.supply(&plan, 0, Value::Int(7)).unwrap();
    assert!(b.supply(&plan, 0, Value::Int(8)).is_none());
}

#[test]
fn optional_and_build_not_offered_early() {
    let plan = derive_plan(&person());
    let b: Builder<Value> = Builder::start(&plan);
    assert!(b.set(&plan, 2, Value::Text("a".to_string())).is_none());
    let b: Builder<Value> = Builder::start(&plan);
    let b = b.supply(&plan, 0, Value::Int(7)).unwrap();
    assert!(b.build().is_none());
}

#[test]
fn second_set_wins() {
    let plan = derive_plan(&person());
    let b: Builder<Value> = Builder::start(&plan);
    let b = b.supply(&plan, 0, Value::Int(1)).unwrap();
    let b = b.supply(&plan, 1, Value::Text("n".to_string())).unwrap();
    let b = b.set(&plan, 2, Value::Text("v1".to_string())).unwrap();
    let b = b.set(&plan, 2, Value::Text("v2".to_string())).unwrap();
    let r = b.build().unwrap();
    assert_eq!(r[2], Some(Value::Text("v2".to_string())));
}

#[test]
fn no_required_fields_build_at_once() {
    let f = FieldsClassify::new(vec![field("x", Some("Option"))]);
    let plan = derive_plan(&f);
    let b: Builder<Value> = Builder::start(&plan);
    assert_eq!(b.phase, PhaseMarker::CanBuild);
    let b = b.set_opt(&plan, 0, Some(Value::Int(3))).unwrap();
    assert_eq!(b.build().unwrap(), vec![Some(Value::Int(3))]);
    let b: Builder<Value> = Builder::start(&plan);
    assert_eq!(b.build().unwrap(), vec![None]);
}

#[test]
fn names_equal_up_to_case_are_both_excluded() {
    let f = FieldsClassify::new(vec![
        field("a", Some("u8")),
        field("A", Some("u8")),
        field("b", Some("Option")),
    ]);
    assert_eq!(f.exclude("a".to_string()), vec![2]);
    let t = build_required_impls(&f);
    assert_eq!(t[0].carried, vec![2]);
}
