use native_utils::discovery::{
    discover_files, ext_with_dot, lowercase_all, should_ignore, walk_depth, WalkEntry,
};

fn strings(items: &[&str]) -> Vec<String> {
    items.iter().map(|s| s.to_string()).collect()
}

fn file(path: &str) -> WalkEntry {
    WalkEntry { path: path.to_string(), is_file: true }
}

fn dir(path: &str) -> WalkEntry {
    WalkEntry { path: path.to_string(), is_file: false }
}

#[test]
fn ignore_matches_relative_path_substring() {
    let pats = strings(&["node_modules"]);
    assert!(should_ignore("/r", "/r/node_modules/x.ts", &pats));
    assert!(!should_ignore("/r", "/r/src/x.ts", &pats));
}

#[test]
fn ignore_is_case_insensitive_both_ways() {
    assert!(should_ignore("/r", "/r/Node_Modules/x.ts", &strings(&["NODE_modules"])));
}

#[test]
fn ignore_uses_relative_not_root_part() {
    // the root's own name does not count against the entry
    assert!(!should_ignore("/build", "/build/src/a.ts", &strings(&["build"])));
}

#[test]
fn ignore_falls_back_to_full_path_outside_root() {
    assert!(should_ignore("/r", "/other/Build/a.ts", &strings(&["build"])));
}

#[test]
fn ignore_with_no_patterns_keeps_everything() {
    assert!(!should_ignore("/r", "/r/a.ts", &Vec::new()));
}

#[test]
fn ext_with_dot_is_lowercased() {
    assert_eq!(ext_with_dot("/r/a.TS"), ".ts");
    assert_eq!(ext_with_dot("/r/archive.tar.GZ"), ".gz");
}

#[test]
fn ext_with_dot_empty_without_extension() {
    assert_eq!(ext_with_dot("/r/Makefile"), "");
    assert_eq!(ext_with_dot("/r/.gitignore"), "");
}

#[test]
fn lowercase_all_folds_each() {
    assert_eq!(lowercase_all(&strings(&[".TS", ".Md"])), strings(&[".ts", ".md"]));
}

#[test]
fn walk_depth_adds_one_level() {
    assert_eq!(walk_depth(0), 1);
    assert_eq!(walk_depth(3), 4);
    assert_eq!(walk_depth(u32::MAX), 4294967296);
}

#[test]
fn ignored_directory_file_excluded() {
    let entries = vec![dir("/r/node_modules"), file("/r/node_modules/x.ts"), file("/r/src/a.ts")];
    let out = discover_files("/r", &entries, &strings(&["node_modules"]), &strings(&[".ts"]));
    assert_eq!(out, strings(&["/r/src/a.ts"]));
}

#[test]
fn ignored_excluded_regardless_of_extension() {
    let entries = vec![file("/r/node_modules/x.ts"), file("/r/node_modules/y.md")];
    let out = discover_files("/r", &entries, &strings(&["node_modules"]), &strings(&[".ts", ".md"]));
    assert!(out.is_empty());
}

#[test]
fn extension_match_is_case_insensitive() {
    let entries = vec![file("/r/a.ts"), file("/r/a.TS"), file("/r/b.js")];
    let out = discover_files("/r", &entries, &Vec::new(), &strings(&[".ts"]));
    assert_eq!(out, strings(&["/r/a.ts", "/r/a.TS"]));
}

#[test]
fn allow_list_is_case_folded_too() {
    let entries = vec![file("/r/a.ts")];
    let out = discover_files("/r", &entries, &Vec::new(), &strings(&[".TS"]));
    assert_eq!(out, strings(&["/r/a.ts"]));
}

#[test]
fn directories_are_never_reported() {
    let entries = vec![dir("/r"), dir("/r/lib.ts"), file("/r/lib.ts/a.ts")];
    let out = discover_files("/r", &entries, &Vec::new(), &strings(&[".ts"]));
    assert_eq!(out, strings(&["/r/lib.ts/a.ts"]));
}

#[test]
fn files_without_extension_are_not_reported() {
    let entries = vec![file("/r/Makefile"), file("/r/a.md")];
    let out = discover_files("/r", &entries, &Vec::new(), &strings(&[".md"]));
    assert_eq!(out, strings(&["/r/a.md"]));
}

#[test]
fn results_stay_below_root_and_keep_walk_order() {
    let entries = vec![file("/r/z.ts"), dir("/r/d"), file("/r/d/a.ts"), file("/r/b.ts")];
    let out = discover_files("/r", &entries, &Vec::new(), &strings(&[".ts"]));
    assert_eq!(out, strings(&["/r/z.ts", "/r/d/a.ts", "/r/b.ts"]));
    assert!(out.iter().all(|p| p.starts_with("/r/")));
}

#[test]
fn deeper_walk_keeps_shallower_results() {
    let shallow = vec![file("/r/a.ts"), dir("/r/d")];
    let deep = vec![file("/r/a.ts"), dir("/r/d"), file("/r/d/b.ts")];
    let exts = strings(&[".ts"]);
    let small = discover_files("/r", &shallow, &Vec::new(), &exts);
    let large = discover_files("/r", &deep, &Vec::new(), &exts);
    assert_eq!(small, strings(&["/r/a.ts"]));
    assert!(small.iter().all(|p| large.contains(p)));
    assert_eq!(large.len(), 2);
}

#[test]
fn empty_walk_gives_nothing() {
    let out = discover_files("/r", &Vec::new(), &Vec::new(), &strings(&[".ts"]));
    assert!(out.is_empty());
}
