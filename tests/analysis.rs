use custom_debug::{
    dedup_texts, infer_bounds, parse_config, parse_outcomes, render_type, resolve_bounds, values_for, walk_type,
    Attribute, Field, MetaItem, MetaValue, Segment, SynthError, TypeExpr, Usage,
};

fn seg(name: &str, args: Vec<TypeExpr>) -> Segment {
    Segment { ident: name.to_string(), args }
}

fn bare(name: &str) -> TypeExpr {
    TypeExpr::Path(vec![seg(name, vec![])])
}

fn generic(name: &str, args: Vec<TypeExpr>) -> TypeExpr {
    TypeExpr::Path(vec![seg(name, args)])
}

fn assoc(param: &str, member: &str) -> TypeExpr {
    TypeExpr::Path(vec![seg(param, vec![]), seg(member, vec![])])
}

fn phantom(param: &str) -> TypeExpr {
    TypeExpr::Path(vec![
        seg("std", vec![]),
        seg("marker", vec![]),
        seg("PhantomData", vec![bare(param)]),
    ])
}

fn field(name: &str, ty: TypeExpr) -> Field {
    Field { name: name.to_string(), ty, attrs: vec![] }
}

fn strings(v: &[&str]) -> Vec<String> {
    v.iter().map(|s| s.to_string()).collect()
}

fn entry(key: &str, value: &str) -> MetaItem {
    MetaItem { key: key.to_string(), value: MetaValue::Str(value.to_string()) }
}

fn tag(path: &str, items: Vec<MetaItem>) -> Attribute {
    Attribute { path: path.to_string(), items, well_formed: true }
}

const DEBUG: &str = "::std::fmt::Debug";

#[test]
fn renders_nested_paths() {
    let t = generic("HashMap", vec![bare("String"), generic("Vec", vec![bare("T")])]);
    assert_eq!(render_type(&t), "HashMap<String, Vec<T>>");
    assert_eq!(render_type(&assoc("T", "Value")), "T::Value");
    assert_eq!(render_type(&phantom("T")), "std::marker::PhantomData<T>");
    assert_eq!(render_type(&TypeExpr::Other("&'a str".to_string())), "&'a str");
}

#[test]
fn walk_classifies_uses() {
    let p = "T".to_string();
    let mut u = Usage { direct: false, marker: false, assoc: vec![] };
    walk_type(&phantom("T"), &p, &mut u);
    assert!(!u.direct);
    assert!(u.marker);
    walk_type(&generic("Box", vec![assoc("T", "Value")]), &p, &mut u);
    assert!(!u.direct);
    assert_eq!(u.assoc, strings(&["T::Value"]));
    walk_type(&generic("Vec", vec![bare("T")]), &p, &mut u);
    assert!(u.direct);
}

#[test]
fn direct_use_gets_the_bound() {
    let params = strings(&["T"]);
    let fields = vec![field("value", bare("T"))];
    let c = infer_bounds(&params, &fields, &DEBUG.to_string());
    assert_eq!(c.bounded, vec![true]);
    assert!(c.predicates.is_empty());
}

#[test]
fn use_inside_a_container_gets_the_bound() {
    let params = strings(&["T"]);
    let fields = vec![field("items", generic("Vec", vec![bare("T")]))];
    let c = infer_bounds(&params, &fields, &DEBUG.to_string());
    assert_eq!(c.bounded, vec![true]);
}

#[test]
fn marker_only_use_gets_no_bound() {
    let params = strings(&["T"]);
    let fields = vec![field("marker", phantom("T")), field("count", bare("u32"))];
    let c = infer_bounds(&params, &fields, &DEBUG.to_string());
    assert_eq!(c.bounded, vec![false]);
    assert!(c.predicates.is_empty());
}

#[test]
fn direct_use_dominates_marker_use() {
    let params = strings(&["T"]);
    let fields = vec![field("marker", phantom("T")), field("value", bare("T"))];
    let c = infer_bounds(&params, &fields, &DEBUG.to_string());
    assert_eq!(c.bounded, vec![true]);
}

#[test]
fn associated_use_bounds_the_path_not_the_parameter() {
    let params = strings(&["T"]);
    let fields = vec![
        field("values", generic("Vec", vec![assoc("T", "Value")])),
        field("first", assoc("T", "Value")),
    ];
    let c = infer_bounds(&params, &fields, &DEBUG.to_string());
    assert_eq!(c.bounded, vec![false]);
    assert_eq!(c.predicates, strings(&["T::Value: ::std::fmt::Debug"]));
}

#[test]
fn unused_parameter_keeps_the_bound() {
    let params = strings(&["T", "U"]);
    let fields = vec![field("value", bare("U"))];
    let c = infer_bounds(&params, &fields, &DEBUG.to_string());
    assert_eq!(c.bounded, vec![true, true]);
}

#[test]
fn predicates_follow_parameter_order() {
    let params = strings(&["A", "B"]);
    let fields = vec![field("b", assoc("B", "Item")), field("a", assoc("A", "Item"))];
    let c = infer_bounds(&params, &fields, &"Clone".to_string());
    assert_eq!(c.bounded, vec![false, false]);
    assert_eq!(c.predicates, strings(&["A::Item: Clone", "B::Item: Clone"]));
}

#[test]
fn escape_hatch_replaces_inference() {
    let params = strings(&["T"]);
    let fields = vec![field("value", bare("T")), field("next", assoc("T", "Value"))];
    let hatch = strings(&["T: SomeOtherConstraint"]);
    let c = resolve_bounds(&params, &fields, &hatch, &vec![true], &DEBUG.to_string()).unwrap();
    assert_eq!(c.bounded, vec![false]);
    assert_eq!(c.predicates, strings(&["T: SomeOtherConstraint"]));
}

#[test]
fn escape_hatch_keeps_repeats() {
    let params = strings(&["T"]);
    let fields = vec![field("value", bare("T"))];
    let hatch = strings(&["T: Clone", "T: Clone"]);
    let c = resolve_bounds(&params, &fields, &hatch, &vec![true, true], &DEBUG.to_string()).unwrap();
    assert_eq!(c.predicates, hatch);
}

#[test]
fn escape_hatch_rejects_the_first_clause_that_did_not_parse() {
    let params = strings(&["T"]);
    let fields = vec![field("value", bare("T"))];
    let hatch = strings(&["T: Clone", "T: :", "U: :"]);
    let r = resolve_bounds(&params, &fields, &hatch, &vec![true, false, false], &DEBUG.to_string());
    assert_eq!(r.err(), Some(SynthError::InvalidBound { index: 1 }));
}

#[test]
fn syn_judges_each_clause() {
    let hatch = strings(&["T: Clone", "T: :", "T::Value: ::std::fmt::Debug"]);
    assert_eq!(parse_outcomes(&hatch), vec![true, false, true]);
}

#[test]
fn no_hatch_means_inference() {
    let params = strings(&["T"]);
    let fields = vec![field("value", bare("T"))];
    let c = resolve_bounds(&params, &fields, &vec![], &vec![], &DEBUG.to_string()).unwrap();
    assert_eq!(c.bounded, vec![true]);
}

#[test]
fn dedup_keeps_first_occurrences() {
    let v = strings(&["b", "a", "b", "c", "a"]);
    assert_eq!(dedup_texts(&v), strings(&["b", "a", "c"]));
}

#[test]
fn config_gathers_entries_of_the_tag() {
    let attrs = vec![
        tag("debug", vec![entry("bound", "T: Clone")]),
        tag("serde", vec![MetaItem { key: "x".to_string(), value: MetaValue::Other }]),
        tag("debug", vec![MetaItem { key: "skip".to_string(), value: MetaValue::Flag }, entry("bound", "U: Copy")]),
    ];
    let cfg = parse_config(&attrs, &"debug".to_string()).unwrap();
    assert_eq!(cfg.len(), 3);
    let bounds = values_for(&cfg, &"bound".to_string(), &"bound".to_string());
    assert_eq!(bounds, strings(&["T: Clone", "U: Copy"]));
}

#[test]
fn config_rejects_a_non_string_value() {
    let attrs = vec![
        tag("debug", vec![entry("bound", "T: Clone")]),
        tag("debug", vec![MetaItem { key: "bound".to_string(), value: MetaValue::Other }]),
    ];
    let r = parse_config(&attrs, &"debug".to_string());
    assert_eq!(r.err(), Some(SynthError::MalformedMetadata { attr: 1 }));
}

#[test]
fn config_rejects_an_unparsable_tag() {
    let attrs = vec![Attribute { path: "debug".to_string(), items: vec![], well_formed: false }];
    let r = parse_config(&attrs, &"debug".to_string());
    assert_eq!(r.err(), Some(SynthError::MalformedMetadata { attr: 0 }));
}
