use wasm_autogen::mapper::{map_annotation, map_class, map_module, map_types};
use wasm_autogen::render::{render_block, render_descriptor};
use wasm_autogen::types::{
    BindingType, ClassDecl, ClassMember, KeywordKind, ModuleItem, Param, SourceModule,
    TypeAnnotation,
};

fn named(name: &str, kind: KeywordKind) -> Param {
    Param::Named {
        name: name.to_string(),
        annotation: Some(TypeAnnotation::Keyword(kind)),
    }
}

fn class(name: &str, members: Vec<ClassMember>) -> ClassDecl {
    ClassDecl { name: name.to_string(), members }
}

#[test]
fn keyword_types_map_to_binding_types() {
    assert_eq!(map_types(KeywordKind::Number), BindingType::F64);
    assert_eq!(map_types(KeywordKind::Str), BindingType::Text);
    assert_eq!(map_types(KeywordKind::Boolean), BindingType::Bool);
    assert_eq!(map_types(KeywordKind::Void), BindingType::Unit);
    assert_eq!(map_types(KeywordKind::Other), BindingType::Any);
    assert_eq!(map_annotation(TypeAnnotation::Compound), BindingType::Any);
}

#[test]
fn constructor_parameters_are_mapped_in_order() {
    let c = class(
        "Point",
        vec![ClassMember::Constructor(vec![
            named("x", KeywordKind::Number),
            named("s", KeywordKind::Str),
            named("b", KeywordKind::Boolean),
            named("v", KeywordKind::Void),
        ])],
    );
    let d = map_class(&c).unwrap();
    assert_eq!(d.name, "Point");
    assert_eq!(d.constructors.len(), 1);
    let ps = &d.constructors[0].params;
    let got: Vec<(String, BindingType)> = ps.iter().map(|p| (p.name.clone(), p.ty)).collect();
    assert_eq!(
        got,
        vec![
            ("x".to_string(), BindingType::F64),
            ("s".to_string(), BindingType::Text),
            ("b".to_string(), BindingType::Bool),
            ("v".to_string(), BindingType::Unit),
        ]
    );
}

#[test]
fn unannotated_parameter_names_class_and_parameter() {
    let c = class(
        "Widget",
        vec![ClassMember::Constructor(vec![
            named("a", KeywordKind::Number),
            Param::Named { name: "size".to_string(), annotation: None },
            Param::Named { name: "later".to_string(), annotation: None },
        ])],
    );
    let e = map_class(&c).unwrap_err();
    assert_eq!(e.class_name, "Widget");
    assert_eq!(e.param_name, "size");
}

#[test]
fn class_without_constructor_keeps_its_type() {
    let c = class(
        "Empty",
        vec![ClassMember::Property("p".to_string()), ClassMember::Method("m".to_string())],
    );
    let d = map_class(&c).unwrap();
    assert_eq!(d.name, "Empty");
    assert!(d.constructors.is_empty());
    assert_eq!(render_descriptor(&d), "#[wasm_bindgen]\npub type Empty;\n");
}

#[test]
fn shorthand_and_pattern_parameters_are_dropped() {
    let c = class(
        "Shape",
        vec![ClassMember::Constructor(vec![
            Param::Property,
            named("w", KeywordKind::Number),
            Param::Pattern,
            Param::Named {
                name: "tags".to_string(),
                annotation: Some(TypeAnnotation::Compound),
            },
        ])],
    );
    let d = map_class(&c).unwrap();
    let got: Vec<(String, BindingType)> =
        d.constructors[0].params.iter().map(|p| (p.name.clone(), p.ty)).collect();
    assert_eq!(
        got,
        vec![("w".to_string(), BindingType::F64), ("tags".to_string(), BindingType::Any)]
    );
}

#[test]
fn module_maps_only_its_classes() {
    let m = SourceModule {
        items: vec![
            ModuleItem::Import("./b".to_string()),
            ModuleItem::Class(class("A", vec![])),
            ModuleItem::OtherDecl,
            ModuleItem::ExportAll("./c".to_string()),
            ModuleItem::Class(class(
                "B",
                vec![ClassMember::Constructor(vec![named("n", KeywordKind::Number)])],
            )),
            ModuleItem::OtherStatement,
        ],
    };
    let ds = map_module(&m).unwrap();
    let names: Vec<String> = ds.iter().map(|d| d.name.clone()).collect();
    assert_eq!(names, vec!["A".to_string(), "B".to_string()]);
    assert_eq!(
        render_block(&ds),
        "#[wasm_bindgen]\npub type A;\n#[wasm_bindgen]\npub type B;\n\
         #[wasm_bindgen(constructor)]\npub fn new(n: f64) -> B;\n"
    );
}

#[test]
fn module_mapping_stops_at_first_bad_class() {
    let bad = class(
        "Bad",
        vec![ClassMember::Constructor(vec![Param::Named { name: "q".to_string(), annotation: None }])],
    );
    let m = SourceModule {
        items: vec![ModuleItem::Class(class("Fine", vec![])), ModuleItem::Class(bad)],
    };
    let e = map_module(&m).unwrap_err();
    assert_eq!((e.class_name.as_str(), e.param_name.as_str()), ("Bad", "q"));
}

#[test]
fn constructor_renders_all_parameter_types() {
    let c = class(
        "Point",
        vec![
            ClassMember::Constructor(vec![
                named("x", KeywordKind::Number),
                named("s", KeywordKind::Str),
                named("b", KeywordKind::Boolean),
                named("v", KeywordKind::Void),
                named("o", KeywordKind::Other),
            ]),
            ClassMember::Constructor(vec![]),
        ],
    );
    let d = map_class(&c).unwrap();
    assert_eq!(
        render_descriptor(&d),
        "#[wasm_bindgen]\npub type Point;\n\
         #[wasm_bindgen(constructor)]\npub fn new(x: f64, s: String, b: bool, v: (), o: JsValue) -> Point;\n\
         #[wasm_bindgen(constructor)]\npub fn new() -> Point;\n"
    );
}
