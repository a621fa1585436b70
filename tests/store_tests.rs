use meowda::path::StorePath;
use meowda::scope::{marker_candidates, resolve, select_found, OverrideDir, ScopeError, ScopeInputs, VenvScope};
use meowda::store::VenvStore;

fn p(parts: &[&str]) -> StorePath {
    StorePath::from_parts(parts.iter().map(|s| s.to_string()).collect())
}

fn parts(path: &StorePath) -> Vec<String> {
    path.parts.clone()
}

fn same(a: &StorePath, b: &StorePath) -> bool {
    a.parts == b.parts
}

/// The walk's result for `cwd`, given the directories that exist on disk.
fn walk(cwd: &StorePath, dirs: &[StorePath]) -> Vec<StorePath> {
    let cands = marker_candidates(cwd);
    let accessible: Vec<bool> = cands.iter().map(|c| dirs.iter().any(|d| same(c, d))).collect();
    select_found(&cands, &accessible)
}

fn inputs(cwd: StorePath, found: Vec<StorePath>) -> ScopeInputs {
    ScopeInputs {
        local_override: OverrideDir::Unset,
        global_override: OverrideDir::Unset,
        data_dir: Some(p(&["home", "u", ".local", "share"])),
        cwd: Some(cwd),
        local_found: found,
    }
}

#[test]
fn test_find_local_venv_dirs_in_tempdir() {
    let temp = p(&["tmp", "t0"]);
    let result = walk(&temp, &[]);
    assert_eq!(result.len(), 0);
}

#[test]
fn test_find_local_venv_dirs_with_hierarchy() {
    let temp = p(&["tmp", "t1"]);
    let root_meowda = temp.join(".meowda").join("venvs");
    let sub_meowda = temp.join("sub").join(".meowda").join("venvs");
    let deep_dir = temp.join("sub").join("deep");
    let result = walk(&deep_dir, &[root_meowda.copy(), sub_meowda.copy(), deep_dir.copy()]);
    assert_eq!(result.len(), 2);
    assert_eq!(parts(&result[0]), parts(&sub_meowda));
    assert_eq!(parts(&result[1]), parts(&root_meowda));
}

#[test]
fn test_recursive_env_exists() {
    let temp = p(&["tmp", "t2"]);
    let root_meowda = temp.join(".meowda").join("venvs");
    let sub_meowda = temp.join("sub").join(".meowda").join("venvs");
    let deep_dir = temp.join("sub").join("deep");
    let existing = vec![
        root_meowda.copy(),
        sub_meowda.copy(),
        deep_dir.copy(),
        root_meowda.join("root-env"),
        sub_meowda.join("sub-env"),
        sub_meowda.join("shadowed-env"),
        root_meowda.join("shadowed-env"),
    ];
    let found = walk(&deep_dir, &existing);
    let store = VenvStore::create(Some(VenvScope::Local), &inputs(deep_dir.copy(), found)).unwrap();
    assert!(store.env_exists("root-env", &existing));
    assert!(store.env_exists("sub-env", &existing));
    assert!(store.env_exists("shadowed-env", &existing));
    assert_eq!(parts(&store.find_env_path("sub-env", &existing).unwrap()), parts(&sub_meowda.join("sub-env")));
    assert_eq!(
        parts(&store.find_env_path("shadowed-env", &existing).unwrap()),
        parts(&sub_meowda.join("shadowed-env"))
    );
    assert_eq!(parts(&store.find_env_path("root-env", &existing).unwrap()), parts(&root_meowda.join("root-env")));
    assert!(store.find_env_path("nonexistent", &existing).is_none());
}

#[test]
fn exists_false_when_no_candidate_holds_name() {
    let store = VenvStore::with_candidates(vec![p(&["a", "v"]), p(&["b", "v"])]).unwrap();
    let existing = vec![p(&["a", "v", "x"]), p(&["c", "v", "y"])];
    assert!(store.env_exists("x", &existing));
    assert!(!store.env_exists("y", &existing));
    assert!(!store.env_exists("v", &existing));
}

#[test]
fn find_env_path_prefers_first_candidate() {
    let store = VenvStore::with_candidates(vec![p(&["A"]), p(&["B"])]).unwrap();
    let existing = vec![p(&["B", "n"]), p(&["A", "n"])];
    assert_eq!(parts(&store.find_env_path("n", &existing).unwrap()), vec!["A", "n"]);
}

#[test]
fn local_override_ignores_walk() {
    let mut inp = inputs(p(&["w"]), vec![p(&["w", ".meowda", "venvs"])]);
    inp.local_override = OverrideDir::Dir(p(&["custom", "dir"]));
    let paths = resolve(Some(VenvScope::Local), &inp).unwrap();
    assert_eq!(paths.len(), 1);
    assert_eq!(parts(&paths[0]), vec!["custom", "dir"]);
}

#[test]
fn local_falls_back_to_working_directory() {
    let paths = resolve(Some(VenvScope::Local), &inputs(p(&["w", "x"]), vec![])).unwrap();
    assert_eq!(paths.len(), 1);
    assert_eq!(parts(&paths[0]), vec!["w", "x", ".meowda", "venvs"]);
}

#[test]
fn local_without_working_directory_fails() {
    let mut inp = inputs(p(&["w"]), vec![]);
    inp.cwd = None;
    assert!(matches!(resolve(Some(VenvScope::Local), &inp), Err(ScopeError::NoWorkingDir)));
}

#[test]
fn invalid_overrides_fail() {
    let mut inp = inputs(p(&["w"]), vec![]);
    inp.local_override = OverrideDir::Invalid;
    inp.global_override = OverrideDir::Invalid;
    assert!(matches!(resolve(Some(VenvScope::Local), &inp), Err(ScopeError::InvalidLocalOverride)));
    assert!(matches!(resolve(Some(VenvScope::Global), &inp), Err(ScopeError::InvalidGlobalOverride)));
}

#[test]
fn global_uses_data_dir_or_override() {
    let mut inp = inputs(p(&["w"]), vec![p(&["w", ".meowda", "venvs"])]);
    let paths = resolve(None, &inp).unwrap();
    assert_eq!(paths.len(), 1);
    assert_eq!(parts(&paths[0]), vec!["home", "u", ".local", "share", "meowda", "venvs"]);
    inp.global_override = OverrideDir::Dir(p(&["g"]));
    let paths = resolve(Some(VenvScope::Global), &inp).unwrap();
    assert_eq!(parts(&paths[0]), vec!["g"]);
}

#[test]
fn global_without_data_dir_fails() {
    let mut inp = inputs(p(&["w"]), vec![]);
    inp.data_dir = None;
    assert!(matches!(resolve(Some(VenvScope::Global), &inp), Err(ScopeError::NoStateDir)));
}

#[test]
fn walk_from_root_probes_one_directory() {
    let cands = marker_candidates(&StorePath::root());
    assert_eq!(cands.len(), 1);
    assert_eq!(parts(&cands[0]), vec![".meowda", "venvs"]);
}

#[test]
fn walk_orders_nearest_first() {
    let cwd = p(&["a", "b", "c"]);
    let found = walk(&cwd, &[p(&["a", ".meowda", "venvs"]), p(&["a", "b", ".meowda", "venvs"])]);
    assert_eq!(found.len(), 2);
    assert_eq!(parts(&found[0]), vec!["a", "b", ".meowda", "venvs"]);
    assert_eq!(parts(&found[1]), vec!["a", ".meowda", "venvs"]);
}

#[test]
fn contains_checks_every_candidate() {
    let store = VenvStore::with_candidates(vec![p(&["a", "v"]), p(&["b", "v"])]).unwrap();
    assert!(store.contains(&p(&["a", "v", "env"])));
    assert!(store.contains(&p(&["b", "v", "env", "bin"])));
    assert!(store.contains(&p(&["b", "v"])));
    assert!(!store.contains(&p(&["a", "vv", "env"])));
    assert!(!store.contains(&p(&["a"])));
}

#[test]
fn store_paths() {
    let store = VenvStore::with_candidates(vec![p(&["a", "v"]), p(&["b", "v"])]).unwrap();
    assert_eq!(parts(store.path()), vec!["a", "v"]);
    assert_eq!(parts(&store.marker_path()), vec!["a", "v", ".gitignore"]);
    assert_eq!(parts(&store.lock_path()), vec!["a", "v", ".lock"]);
    let all = store.all_paths();
    assert_eq!(all.len(), 2);
    assert_eq!(parts(&all[1]), vec!["b", "v"]);
    let envs = store.env_paths("e");
    assert_eq!(parts(&envs[1]), vec!["b", "v", "e"]);
    assert!(VenvStore::with_candidates(vec![]).is_none());
}

#[test]
fn readiness_and_init_plan() {
    let store = VenvStore::with_candidates(vec![p(&["s"])]).unwrap();
    assert!(!store.is_ready(false, false));
    assert!(!store.is_ready(true, false));
    assert!(store.is_ready(true, true));
    let plan = store.init(false, false);
    assert!(plan.create_dir && plan.write_marker);
    assert_eq!(plan.marker_contents, b"*".to_vec());
    assert_eq!(parts(&plan.marker), vec!["s", ".gitignore"]);
    let again = store.init(true, true);
    assert!(!again.create_dir && !again.write_marker);
}

#[test]
fn activation_path_falls_back_to_primary() {
    let store = VenvStore::with_candidates(vec![p(&["a", "v"]), p(&["b", "v"])]).unwrap();
    let existing = vec![p(&["b", "v", "e"])];
    assert_eq!(parts(&store.activation_path("e", &existing)), vec!["b", "v", "e"]);
    assert_eq!(parts(&store.activation_path("f", &existing)), vec!["a", "v", "f"]);
}
