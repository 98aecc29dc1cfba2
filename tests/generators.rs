use custom_debug::{
    plan_builder, plan_debug, Attribute, BuilderState, Field, MetaItem, MetaValue, Method, Record,
    Render, Segment, Shape, Slot, SlotKind, SynthError, TypeExpr,
};

fn bare(name: &str) -> TypeExpr {
    TypeExpr::Path(vec![Segment { ident: name.to_string(), args: vec![] }])
}

fn generic(name: &str, args: Vec<TypeExpr>) -> TypeExpr {
    TypeExpr::Path(vec![Segment { ident: name.to_string(), args }])
}

fn tag(path: &str, key: &str, value: &str) -> Attribute {
    Attribute {
        path: path.to_string(),
        items: vec![MetaItem { key: key.to_string(), value: MetaValue::Str(value.to_string()) }],
        well_formed: true,
    }
}

fn field(name: &str, ty: TypeExpr, attrs: Vec<Attribute>) -> Field {
    Field { name: name.to_string(), ty, attrs }
}

fn record(name: &str, params: &[&str], fields: Vec<Field>, attrs: Vec<Attribute>) -> Record {
    Record {
        name: name.to_string(),
        params: params.iter().map(|p| p.to_string()).collect(),
        shape: Shape::Named(fields),
        attrs,
    }
}

fn command() -> Record {
    record(
        "Command",
        &[],
        vec![
            field("executable", bare("String"), vec![]),
            field("args", generic("Vec", vec![bare("String")]), vec![tag("builder", "each", "arg")]),
            field("env", generic("Vec", vec![bare("String")]), vec![tag("builder", "each", "env")]),
            field("current_dir", generic("Option", vec![bare("String")]), vec![]),
        ],
        vec![],
    )
}

#[test]
fn debug_plan_uses_templates_in_field_order() {
    let rec = record(
        "Point",
        &[],
        vec![
            field("name", bare("String"), vec![]),
            field("x", bare("f64"), vec![tag("debug", "format", "{:.2}")]),
            field("bitmask", bare("u8"), vec![tag("debug", "debug", "0b{:08b}")]),
        ],
        vec![],
    );
    let plan = plan_debug(&rec).unwrap();
    assert_eq!(plan.name, "Point");
    let names: Vec<&str> = plan.fields.iter().map(|l| l.name.as_str()).collect();
    assert_eq!(names, vec!["name", "x", "bitmask"]);
    assert!(matches!(plan.fields[0].render, Render::Default));
    assert!(matches!(&plan.fields[1].render, Render::Template(t) if t == "{:.2}"));
    assert!(matches!(&plan.fields[2].render, Render::Template(t) if t == "0b{:08b}"));
}

#[test]
fn debug_plan_infers_bounds() {
    let rec = record(
        "Wrapper",
        &["T", "U"],
        vec![
            field("value", bare("T"), vec![]),
            field("marker", generic("PhantomData", vec![bare("U")]), vec![]),
        ],
        vec![],
    );
    let plan = plan_debug(&rec).unwrap();
    assert_eq!(plan.clause.bounded, vec![true, false]);
    assert!(plan.clause.predicates.is_empty());
}

#[test]
fn debug_plan_takes_the_escape_hatch() {
    let rec = record(
        "Wrapper",
        &["T"],
        vec![field("value", bare("T"), vec![])],
        vec![tag("debug", "bound", "T: SomeOtherConstraint")],
    );
    let plan = plan_debug(&rec).unwrap();
    assert_eq!(plan.clause.bounded, vec![false]);
    assert_eq!(plan.clause.predicates, vec!["T: SomeOtherConstraint".to_string()]);
}

#[test]
fn debug_plan_rejects_a_clause_that_does_not_parse() {
    let rec = record(
        "Wrapper",
        &["T"],
        vec![field("value", bare("T"), vec![])],
        vec![tag("debug", "bound", "T: :")],
    );
    assert_eq!(plan_debug(&rec).err(), Some(SynthError::InvalidBound { index: 0 }));
}

#[test]
fn debug_plan_rejects_other_shapes() {
    let rec = Record { name: "E".to_string(), params: vec![], shape: Shape::Other, attrs: vec![] };
    assert_eq!(plan_debug(&rec).err(), Some(SynthError::UnsupportedShape));
}

#[test]
fn debug_plan_reports_a_malformed_field_tag() {
    let bad = Attribute {
        path: "debug".to_string(),
        items: vec![MetaItem { key: "format".to_string(), value: MetaValue::Other }],
        well_formed: true,
    };
    let rec = record(
        "Point",
        &[],
        vec![field("x", bare("i32"), vec![]), field("y", bare("i32"), vec![bad])],
        vec![],
    );
    assert_eq!(plan_debug(&rec).err(), Some(SynthError::MalformedFieldMetadata { field: 1, attr: 0 }));
}

#[test]
fn debug_plan_reports_a_malformed_record_tag() {
    let bad = Attribute { path: "debug".to_string(), items: vec![], well_formed: false };
    let rec = record("Point", &[], vec![field("x", bare("i32"), vec![])], vec![bad]);
    assert_eq!(plan_debug(&rec).err(), Some(SynthError::MalformedMetadata { attr: 0 }));
}

#[test]
fn builder_plan_has_one_setter_per_plain_field() {
    let rec = record(
        "Plain",
        &[],
        vec![field("a", bare("u8"), vec![]), field("b", bare("String"), vec![]), field("c", bare("bool"), vec![])],
        vec![],
    );
    let plan = plan_builder(&rec).unwrap();
    assert_eq!(plan.methods.len(), 3);
    for (i, m) in plan.methods.iter().enumerate() {
        assert!(matches!(m, Method::Setter { field } if *field == i));
    }
    assert_eq!(plan.slots, vec![SlotKind::Required; 3]);
}

#[test]
fn builder_plan_each_with_the_field_name_emits_one_method() {
    let rec = record(
        "Command",
        &[],
        vec![field("arg", generic("Vec", vec![bare("String")]), vec![tag("builder", "each", "arg")])],
        vec![],
    );
    let plan = plan_builder(&rec).unwrap();
    assert_eq!(plan.methods.len(), 1);
    assert!(matches!(&plan.methods[0], Method::Accumulator { field: 0, name } if name == "arg"));
}

#[test]
fn builder_plan_each_with_another_name_emits_both() {
    let plan = plan_builder(&command()).unwrap();
    assert_eq!(plan.slots, vec![SlotKind::Required, SlotKind::Collection, SlotKind::Collection, SlotKind::Optional]);
    // `args` keeps its setter beside `arg`; `env` shares its field's name,
    // so only the accumulating method is emitted for it.
    assert_eq!(plan.methods.len(), 5);
    assert!(matches!(plan.methods[0], Method::Setter { field: 0 }));
    assert!(matches!(plan.methods[1], Method::Setter { field: 1 }));
    assert!(matches!(&plan.methods[2], Method::Accumulator { field: 1, name } if name == "arg"));
    assert!(matches!(&plan.methods[3], Method::Accumulator { field: 2, name } if name == "env"));
    assert!(matches!(plan.methods[4], Method::Setter { field: 3 }));
}

#[test]
fn builder_plan_rejects_each_on_a_non_collection() {
    let rec = record(
        "Bad",
        &[],
        vec![field("ok", bare("u8"), vec![]), field("name", bare("String"), vec![tag("builder", "each", "n")])],
        vec![],
    );
    assert_eq!(plan_builder(&rec).err(), Some(SynthError::UnsupportedAttributeTarget { field: 1 }));
}

#[test]
fn builder_plan_rejects_other_shapes() {
    let rec = Record { name: "E".to_string(), params: vec![], shape: Shape::Other, attrs: vec![] };
    assert_eq!(plan_builder(&rec).err(), Some(SynthError::UnsupportedShape));
}

fn single(s: &Slot<&'static str>) -> Option<&'static str> {
    match s {
        Slot::Single(v) => *v,
        Slot::Many(_) => panic!("expected a single slot"),
    }
}

fn many(s: &Slot<&'static str>) -> Vec<&'static str> {
    match s {
        Slot::Many(v) => v.clone(),
        Slot::Single(_) => panic!("expected a collection slot"),
    }
}

#[test]
fn builder_accumulates_in_call_order() {
    let kinds = vec![SlotKind::Required, SlotKind::Collection];
    let mut b = BuilderState::new(kinds);
    b.set(0, "cargo");
    b.push(1, "build");
    b.push(1, "--release");
    b.push(1, "--quiet");
    let slots = b.finish().ok().unwrap();
    assert_eq!(single(&slots[0]), Some("cargo"));
    assert_eq!(many(&slots[1]), vec!["build", "--release", "--quiet"]);
}

#[test]
fn builder_last_write_wins() {
    let kinds = vec![SlotKind::Required, SlotKind::Optional, SlotKind::Collection];
    let mut b = BuilderState::new(kinds);
    b.set(0, "first");
    b.set(0, "second");
    b.push(2, "dropped");
    b.set_all(2, vec!["a", "b"]);
    b.push(2, "c");
    let slots = b.finish().ok().unwrap();
    assert_eq!(single(&slots[0]), Some("second"));
    assert_eq!(single(&slots[1]), None);
    assert_eq!(many(&slots[2]), vec!["a", "b", "c"]);
}

#[test]
fn builder_finish_names_the_missing_field() {
    let kinds = vec![SlotKind::Required, SlotKind::Optional, SlotKind::Required, SlotKind::Required];
    let mut b: BuilderState<&'static str> = BuilderState::new(kinds);
    b.set(0, "x");
    assert_eq!(b.finish().err(), Some(2));
}

#[test]
fn builder_finish_succeeds_with_only_optional_and_collections_unset() {
    let kinds = vec![SlotKind::Optional, SlotKind::Collection];
    let b: BuilderState<u8> = BuilderState::new(kinds);
    assert!(b.finish().is_ok());
}
