use macrogen::builder::{
    BuilderError, BuilderPlan, Field, FieldPlan, Fill, Initial, Setter, SetterKind, Storage,
    Structure, TypeShape,
};

fn wrapped_in(outer: &str) -> TypeShape {
    TypeShape::Path { last_segment: outer.to_string(), type_argument: true }
}

fn plain(name: &str) -> TypeShape {
    TypeShape::Path { last_segment: name.to_string(), type_argument: false }
}

fn field(name: &str, shape: TypeShape, each: Option<&str>) -> Field {
    Field { name: name.to_string(), shape, each: each.map(|each| each.to_string()) }
}

fn setter(name: &str, kind: SetterKind) -> Setter {
    Setter { name: name.to_string(), kind }
}

fn plan_of(fields: Vec<Field>) -> Result<BuilderPlan, BuilderError> {
    macrogen::builder::derive(&Structure { name: "Command".to_string(), fields: Some(fields) })
}

fn only_plan(field: Field) -> FieldPlan {
    let mut plan = plan_of(vec![field]).unwrap();
    assert_eq!(plan.fields.len(), 1);
    plan.fields.pop().unwrap()
}

#[test]
fn builder_is_named_after_the_structure() {
    let plan = plan_of(vec![]).unwrap();
    assert_eq!(plan.builder_name, "CommandBuilder");
    assert_eq!(plan.fields, vec![]);
}

#[test]
fn plain_field_is_required() {
    assert_eq!(
        only_plan(field("executable", plain("String"), None)),
        FieldPlan {
            storage: Storage::Wrapped,
            initial: Initial::Absent,
            setters: vec![setter("executable", SetterKind::Store)],
            required: true,
            fill: Fill::Taken,
        }
    );
}

#[test]
fn optional_field_may_stay_unset() {
    assert_eq!(
        only_plan(field("current_dir", wrapped_in("Option"), None)),
        FieldPlan {
            storage: Storage::Inner,
            initial: Initial::Absent,
            setters: vec![setter("current_dir", SetterKind::StoreInner)],
            required: false,
            fill: Fill::AsStored,
        }
    );
}

#[test]
fn collection_is_filled_item_by_item() {
    assert_eq!(
        only_plan(field("args", wrapped_in("Vec"), Some("arg"))),
        FieldPlan {
            storage: Storage::Declared,
            initial: Initial::Empty,
            setters: vec![setter("arg", SetterKind::PushEach), setter("args", SetterKind::ReplaceAll)],
            required: false,
            fill: Fill::AsStored,
        }
    );
}

#[test]
fn item_setter_of_the_fields_own_name_stands_alone() {
    assert_eq!(
        only_plan(field("env", wrapped_in("Vec"), Some("env"))).setters,
        vec![setter("env", SetterKind::PushEach)]
    );
}

#[test]
fn collection_without_an_item_setter_is_a_plain_field() {
    assert_eq!(
        only_plan(field("args", wrapped_in("Vec"), None)),
        FieldPlan {
            storage: Storage::Wrapped,
            initial: Initial::Absent,
            setters: vec![setter("args", SetterKind::Store)],
            required: true,
            fill: Fill::Taken,
        }
    );
}

#[test]
fn option_without_a_type_argument_is_a_plain_field() {
    let plan = only_plan(field("flag", plain("Option"), None));
    assert_eq!(plan.storage, Storage::Wrapped);
    assert!(plan.required);
    let plan = only_plan(field("tuple", TypeShape::Other, None));
    assert_eq!(plan.storage, Storage::Wrapped);
    assert_eq!(plan.setters, vec![setter("tuple", SetterKind::Store)]);
}

#[test]
fn optional_field_with_an_item_setter_is_set_as_an_option() {
    assert_eq!(
        only_plan(field("dir", wrapped_in("Option"), Some("d"))),
        FieldPlan {
            storage: Storage::Inner,
            initial: Initial::Empty,
            setters: vec![setter("dir", SetterKind::StoreInner)],
            required: false,
            fill: Fill::AsStored,
        }
    );
}

#[test]
fn item_setter_needs_a_vec() {
    let fields = vec![
        field("executable", plain("String"), None),
        field("args", wrapped_in("Vec"), Some("arg")),
        field("env", plain("String"), Some("e")),
        field("more", TypeShape::Other, Some("m")),
    ];
    assert_eq!(plan_of(fields), Err(BuilderError::EachNeedsVec { field: 2 }));
    let fields = vec![field("env", plain("Vec"), Some("e"))];
    assert_eq!(plan_of(fields), Err(BuilderError::EachNeedsVec { field: 0 }));
    let fields = vec![field("env", wrapped_in("HashSet"), Some("e"))];
    assert_eq!(plan_of(fields), Err(BuilderError::EachNeedsVec { field: 0 }));
}

#[test]
fn structure_without_named_fields_has_no_builder() {
    let structure = Structure { name: "Unit".to_string(), fields: None };
    assert_eq!(macrogen::builder::derive(&structure), Err(BuilderError::NotNamedStruct));
}

#[test]
fn fields_are_planned_in_the_order_of_the_declaration() {
    let plan = plan_of(vec![
        field("executable", plain("String"), None),
        field("args", wrapped_in("Vec"), Some("arg")),
        field("env", wrapped_in("Vec"), Some("env")),
        field("current_dir", wrapped_in("Option"), None),
    ])
    .unwrap();
    let storages: Vec<Storage> = plan.fields.iter().map(|field| field.storage).collect();
    assert_eq!(
        storages,
        vec![Storage::Wrapped, Storage::Declared, Storage::Declared, Storage::Inner]
    );
    let required: Vec<bool> = plan.fields.iter().map(|field| field.required).collect();
    assert_eq!(required, vec![true, false, false, false]);
    let names: Vec<Vec<&str>> = plan
        .fields
        .iter()
        .map(|field| field.setters.iter().map(|setter| setter.name.as_str()).collect())
        .collect();
    assert_eq!(
        names,
        vec![vec!["executable"], vec!["arg", "args"], vec!["env"], vec!["current_dir"]]
    );
}

#[test]
fn builder_errors_have_their_messages() {
    assert_eq!(BuilderError::NotNamedStruct.message(), "解析字段名错误");
    assert_eq!(
        BuilderError::EachNeedsVec { field: 3 }.message(),
        "each field must be specified with Vec field"
    );
}
