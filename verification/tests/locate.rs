use uniffi_dart::locate::{
    default_out_dir, is_library_extension, is_library_file, library_file_names, library_name,
    out_dir_beside, search_plan, LibrarySearch, ProjectPlan, SearchPlan,
};

fn run(existing: &[&str]) -> (Option<String>, Vec<String>) {
    let mut search = LibrarySearch::new(search_plan("a/b/c/my_lib.udl").unwrap());
    let mut asked = Vec::new();
    while let Some(path) = search.next_probe() {
        search.answer(existing.contains(&path.as_str()));
        asked.push(path);
    }
    (search.library(), asked)
}

#[test]
fn libraries_are_known_by_their_extension() {
    assert!(is_library_extension("dll"));
    assert!(is_library_extension("so"));
    assert!(is_library_extension("dylib"));
    assert!(!is_library_extension("udl"));
    assert!(!is_library_extension(""));
    assert!(!is_library_extension("SO"));
    assert!(is_library_file("target/release/libdemo.so"));
    assert!(is_library_file("demo.dll"));
    assert!(is_library_file("a.b/libdemo.1.dylib"));
    assert!(!is_library_file("src/demo.udl"));
    assert!(!is_library_file("so"));
    assert!(!is_library_file(".so"));
    assert!(!is_library_file(""));
}

#[test]
fn the_output_goes_beside_the_source() {
    assert_eq!(default_out_dir("src/api/demo.udl"), "src/api");
    assert_eq!(default_out_dir("demo.udl"), "");
    assert_eq!(default_out_dir("/"), ".");
    assert_eq!(default_out_dir(""), ".");
    assert_eq!(out_dir_beside(Some("x".to_string())), "x");
    assert_eq!(out_dir_beside(None), ".");
}

#[test]
fn the_library_is_named_after_the_definition() {
    assert_eq!(library_name("my_demo_lib"), "my-demo-lib");
    assert_eq!(library_name("plain"), "plain");
    assert_eq!(library_name("_a__b_"), "-a--b-");
    assert_eq!(library_name(""), "");
    assert_eq!(library_file_names("my-lib"), vec!["my-lib.dll", "my-lib.so", "my-lib.dylib"]);
}

#[test]
fn the_library_is_looked_for_beside_the_definition_and_in_the_builds_above() {
    let plan = search_plan("proj/src/my_lib.udl").unwrap();
    assert_eq!(
        plan.siblings,
        vec!["proj/src/my-lib.dll", "proj/src/my-lib.so", "proj/src/my-lib.dylib"]
    );
    assert_eq!(plan.projects.len(), 2);
    assert_eq!(plan.projects[0].manifest, "proj/Cargo.toml");
    assert_eq!(
        plan.projects[0].targets,
        vec![
            "proj/target/release/my-lib.dll",
            "proj/target/release/my-lib.so",
            "proj/target/release/my-lib.dylib",
            "proj/target/debug/my-lib.dll",
            "proj/target/debug/my-lib.so",
            "proj/target/debug/my-lib.dylib",
        ]
    );
    assert_eq!(plan.projects[1].manifest, "Cargo.toml");
    assert_eq!(plan.projects[1].targets[0], "target/release/my-lib.dll");
    let bare = search_plan("api.udl").unwrap();
    assert_eq!(bare.siblings, vec!["api.dll", "api.so", "api.dylib"]);
    assert!(bare.projects.is_empty());
    assert_eq!(search_plan("/"), None);
    assert_eq!(search_plan(""), None);
}

#[test]
fn a_search_takes_the_first_sibling_that_exists() {
    let (library, asked) = run(&["a/b/c/my-lib.so", "a/b/c/my-lib.dylib", "a/b/Cargo.toml"]);
    assert_eq!(library, Some("a/b/c/my-lib.so".to_string()));
    assert_eq!(asked, vec!["a/b/c/my-lib.dll", "a/b/c/my-lib.so"]);
}

#[test]
fn a_search_takes_the_first_target_of_the_nearest_project() {
    let (library, asked) = run(&[
        "a/Cargo.toml",
        "Cargo.toml",
        "a/target/debug/my-lib.so",
        "a/target/debug/my-lib.dylib",
        "target/release/my-lib.dll",
    ]);
    assert_eq!(library, Some("a/target/debug/my-lib.so".to_string()));
    assert_eq!(
        asked,
        vec![
            "a/b/c/my-lib.dll",
            "a/b/c/my-lib.so",
            "a/b/c/my-lib.dylib",
            "a/b/Cargo.toml",
            "a/Cargo.toml",
            "a/target/release/my-lib.dll",
            "a/target/release/my-lib.so",
            "a/target/release/my-lib.dylib",
            "a/target/debug/my-lib.dll",
            "a/target/debug/my-lib.so",
        ]
    );
}

#[test]
fn a_search_looks_no_further_up_than_the_nearest_project() {
    let (library, asked) = run(&["a/b/Cargo.toml", "a/target/release/my-lib.so", "a/Cargo.toml"]);
    assert_eq!(library, None);
    assert_eq!(asked.len(), 3 + 1 + 6);
    assert_eq!(asked.last().unwrap(), "a/b/target/debug/my-lib.dylib");
    let (library, asked) = run(&[]);
    assert_eq!(library, None);
    assert_eq!(asked.len(), 3 + 3);
    assert_eq!(asked.last().unwrap(), "Cargo.toml");
}

#[test]
fn a_search_without_anything_to_ask_for_is_over() {
    let mut search = LibrarySearch::new(SearchPlan { siblings: vec![], projects: vec![] });
    assert_eq!(search.next_probe(), None);
    assert_eq!(search.library(), None);
    search.answer(true);
    assert_eq!(search.library(), None);
    let mut search = LibrarySearch::new(SearchPlan {
        siblings: vec![],
        projects: vec![ProjectPlan { manifest: "m".to_string(), targets: vec![] }],
    });
    assert_eq!(search.next_probe(), Some("m".to_string()));
    search.answer(true);
    assert_eq!(search.next_probe(), None);
    assert_eq!(search.library(), None);
}
