use wasm_autogen::paths::{output_path, replace_extension, strip_prefix};

fn p(parts: &[&str]) -> Vec<String> {
    parts.iter().map(|s| s.to_string()).collect()
}

#[test]
fn output_mirrors_the_source_tree() {
    let base = p(&["/", "home", "proj", "ts"]);
    let out = p(&["/", "home", "proj", "output"]);
    let module = p(&["/", "home", "proj", "ts", "sub", "foo.ts"]);
    assert_eq!(
        output_path(&module, &base, &out),
        Some(p(&["/", "home", "proj", "output", "sub", "foo.rs"]))
    );
    let entry = p(&["/", "home", "proj", "ts", "index.ts"]);
    assert_eq!(output_path(&entry, &base, &out), Some(p(&["/", "home", "proj", "output", "index.rs"])));
}

#[test]
fn module_outside_base_has_no_output() {
    let base = p(&["/", "a", "ts"]);
    let out = p(&["/", "out"]);
    assert_eq!(output_path(&p(&["/", "a", "other", "x.ts"]), &base, &out), None);
    assert_eq!(output_path(&p(&["/", "a", "ts"]), &base, &out), None);
    assert_eq!(output_path(&p(&["/", "a"]), &base, &out), None);
}

#[test]
fn extension_is_replaced() {
    assert_eq!(replace_extension(&"foo.ts".to_string(), "rs"), "foo.rs");
    assert_eq!(replace_extension(&"foo.d.ts".to_string(), "rs"), "foo.d.rs");
    assert_eq!(replace_extension(&"foo".to_string(), "rs"), "foo.rs");
    assert_eq!(replace_extension(&".hidden".to_string(), "rs"), ".hidden.rs");
    assert_eq!(replace_extension(&"ünï.ts".to_string(), "rs"), "ünï.rs");
}

#[test]
fn prefix_is_stripped() {
    assert_eq!(strip_prefix(&p(&["a", "b", "c"]), &p(&["a", "b"])), Some(p(&["c"])));
    assert_eq!(strip_prefix(&p(&["a", "b"]), &p(&["a", "x"])), None);
    assert_eq!(strip_prefix(&p(&["a"]), &p(&["a", "b"])), None);
}
