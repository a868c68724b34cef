use wasm_autogen::order::{insert_sorted, path_less};
use wasm_autogen::resolver::{resolve, targets_of, ModuleEdges, Resolver};

fn m(path: &str, targets: &[&str]) -> ModuleEdges {
    ModuleEdges {
        path: path.to_string(),
        targets: targets.iter().map(|s| s.to_string()).collect(),
    }
}

fn strs(v: &[&str]) -> Vec<String> {
    v.iter().map(|s| s.to_string()).collect()
}

#[test]
fn chain_resolves_to_all_three() {
    let g = vec![m("/p/A.ts", &["/p/B.ts"]), m("/p/B.ts", &["/p/C.ts"]), m("/p/C.ts", &[])];
    let r = resolve(&"/p/A.ts".to_string(), &g).unwrap();
    assert_eq!(r, strs(&["/p/A.ts", "/p/B.ts", "/p/C.ts"]));
    let g2 = vec![m("/p/C.ts", &[]), m("/p/B.ts", &["/p/C.ts"]), m("/p/A.ts", &["/p/B.ts"])];
    assert_eq!(resolve(&"/p/A.ts".to_string(), &g2).unwrap(), r);
    assert_eq!(resolve(&"/p/A.ts".to_string(), &g).unwrap(), r);
}

#[test]
fn cycles_and_diamonds_visit_each_once() {
    let g = vec![
        m("/x/index.ts", &["/x/b.ts", "/x/a.ts"]),
        m("/x/a.ts", &["/x/c.ts", "/x/index.ts"]),
        m("/x/b.ts", &["/x/c.ts", "/x/b.ts"]),
        m("/x/c.ts", &["/x/a.ts"]),
        m("/x/unused.ts", &["/x/index.ts"]),
    ];
    let r = resolve(&"/x/index.ts".to_string(), &g).unwrap();
    assert_eq!(r, strs(&["/x/a.ts", "/x/b.ts", "/x/c.ts", "/x/index.ts"]));
}

#[test]
fn missing_module_is_a_resolution_error() {
    let g = vec![m("/p/A.ts", &["/p/B.ts"]), m("/p/B.ts", &["/p/gone.ts"])];
    assert_eq!(resolve(&"/p/A.ts".to_string(), &g), Err("/p/gone.ts".to_string()));
    assert_eq!(resolve(&"/p/none.ts".to_string(), &g), Err("/p/none.ts".to_string()));
}

#[test]
fn visited_module_gives_nothing_new() {
    let mut w = Resolver::new(&"/p/A.ts".to_string());
    assert_eq!(w.next_module(), Some("/p/A.ts".to_string()));
    w.add_targets(&strs(&["/p/B.ts", "/p/A.ts"]));
    assert_eq!(w.next_module(), Some("/p/B.ts".to_string()));
    w.add_targets(&strs(&["/p/A.ts", "/p/B.ts"]));
    assert_eq!(w.next_module(), None);
    assert_eq!(w.visited, strs(&["/p/A.ts", "/p/B.ts"]));
}

#[test]
fn targets_are_collected_per_path() {
    let g = vec![m("/a", &["/b"]), m("/c", &["/d"]), m("/a", &["/e"])];
    assert_eq!(targets_of(&g, &"/a".to_string()), Some(strs(&["/b", "/e"])));
    assert_eq!(targets_of(&g, &"/z".to_string()), None);
}

#[test]
fn paths_are_ordered_by_character() {
    assert!(path_less(&"/a/b".to_string(), &"/a/c".to_string()));
    assert!(path_less(&"/a".to_string(), &"/a/b".to_string()));
    assert!(!path_less(&"/a/b".to_string(), &"/a/b".to_string()));
    assert!(!path_less(&"/b".to_string(), &"/a/z".to_string()));
    let mut v = Vec::new();
    assert!(insert_sorted(&mut v, &"m".to_string()));
    assert!(insert_sorted(&mut v, &"a".to_string()));
    assert!(insert_sorted(&mut v, &"z".to_string()));
    assert!(!insert_sorted(&mut v, &"m".to_string()));
    assert_eq!(v, strs(&["a", "m", "z"]));
}
