use wasm_autogen::config::GenerateConfig;
use wasm_autogen::pipeline::{generate, GenerateError, ParsedModule};
use wasm_autogen::types::{ClassDecl, ClassMember, KeywordKind, ModuleItem, Param, SourceModule, TypeAnnotation};

fn p(parts: &[&str]) -> Vec<String> {
    parts.iter().map(|s| s.to_string()).collect()
}

fn module(path: &[&str], classes: Vec<ClassDecl>) -> ParsedModule {
    ParsedModule {
        path: p(path),
        module: SourceModule { items: classes.into_iter().map(ModuleItem::Class).collect() },
    }
}

fn point() -> ClassDecl {
    ClassDecl {
        name: "Point".to_string(),
        members: vec![ClassMember::Constructor(vec![Param::Named {
            name: "x".to_string(),
            annotation: Some(TypeAnnotation::Keyword(KeywordKind::Number)),
        }])],
    }
}

#[test]
fn generation_is_deterministic() {
    let mods = vec![
        module(&["/w", "ts", "index.ts"], vec![point()]),
        module(&["/w", "ts", "sub", "foo.ts"], vec![]),
    ];
    let base = p(&["/w", "ts"]);
    let out = p(&["/w", "out"]);
    let a = generate(&mods, &base, &out).unwrap();
    let b = generate(&mods, &base, &out).unwrap();
    assert_eq!(a.len(), 2);
    for (x, y) in a.iter().zip(b.iter()) {
        assert_eq!(x.path, y.path);
        assert_eq!(x.text, y.text);
    }
    assert_eq!(a[0].path, p(&["/w", "out", "index.rs"]));
    assert_eq!(
        a[0].text,
        "#[wasm_bindgen]\npub type Point;\n#[wasm_bindgen(constructor)]\npub fn new(x: f64) -> Point;\n"
    );
    assert_eq!(a[1].path, p(&["/w", "out", "sub", "foo.rs"]));
    assert_eq!(a[1].text, "");
}

#[test]
fn mapping_error_stops_generation() {
    let bad = ClassDecl {
        name: "Bad".to_string(),
        members: vec![ClassMember::Constructor(vec![Param::Named {
            name: "y".to_string(),
            annotation: None,
        }])],
    };
    let mods = vec![module(&["/w", "ts", "index.ts"], vec![point()]), module(&["/w", "ts", "b.ts"], vec![bad])];
    match generate(&mods, &p(&["/w", "ts"]), &p(&["/o"])) {
        Err(GenerateError::Mapping(e)) => {
            assert_eq!(e.class_name, "Bad");
            assert_eq!(e.param_name, "y");
        }
        _ => panic!("expected a mapping error"),
    }
}

#[test]
fn module_outside_base_stops_generation() {
    let mods = vec![module(&["/w", "lib", "x.ts"], vec![])];
    match generate(&mods, &p(&["/w", "ts"]), &p(&["/o"])) {
        Err(GenerateError::OutsideBase(path)) => assert_eq!(path, p(&["/w", "lib", "x.ts"])),
        _ => panic!("expected an outside-base error"),
    }
}

#[test]
fn config_defaults() {
    let c = GenerateConfig::default();
    assert_eq!(c.input.index_file, "ts/index.ts");
    assert_eq!(c.output.directory, "output");
}
