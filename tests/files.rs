use trooper::files::{
    base_name, copy_name, free_name, join_path, parent_path, plan_paste, remove_after_copy,
    EntryKind, PasteSource, PasteStep, SkipReason, YankMode, YankRegister, MAX_COPIES,
};

fn src(path: &str, kind: EntryKind) -> PasteSource {
    PasteSource { path: path.to_string(), kind }
}

#[test]
fn copy_names_go_before_the_extension() {
    assert_eq!(copy_name("note.txt", false), "note (Copy).txt");
    assert_eq!(copy_name("note (Copy).txt", false), "note (Copy) (Copy).txt");
    assert_eq!(copy_name("a.tar.gz", false), "a.tar (Copy).gz");
    assert_eq!(copy_name("photos", true), "photos (Copy)");
    assert_eq!(copy_name("v1.2", true), "v1.2 (Copy)");
    assert_eq!(copy_name("Makefile", false), "Makefile (Copy)");
    assert_eq!(copy_name(".bashrc", false), ".bashrc (Copy)");
}

#[test]
fn pasting_over_an_existing_file_renames_the_copy() {
    let existing = vec!["note.txt".to_string()];
    let plan = plan_paste("/dst", &vec![src("/src/note.txt", EntryKind::File)], &existing);
    match &plan[0] {
        PasteStep::Copy { source, dest, dest_name, is_dir } => {
            assert_eq!(source, "/src/note.txt");
            assert_eq!(dest, "/dst/note (Copy).txt");
            assert_eq!(dest_name, "note (Copy).txt");
            assert!(!is_dir);
        }
        _ => panic!("expected a copy"),
    }
    let existing = vec!["note.txt".to_string(), "note (Copy).txt".to_string()];
    let plan = plan_paste("/dst/", &vec![src("/src/note.txt", EntryKind::File)], &existing);
    match &plan[0] {
        PasteStep::Copy { dest, .. } => assert_eq!(dest, "/dst/note (Copy) (Copy).txt"),
        _ => panic!("expected a copy"),
    }
}

#[test]
fn copies_of_one_paste_do_not_collide() {
    let sources = vec![
        src("/a/x.txt", EntryKind::File),
        src("/b/x.txt", EntryKind::File),
        src("/c/gone", EntryKind::Missing),
        src("/d/pics", EntryKind::Dir),
    ];
    let existing = vec!["pics".to_string()];
    let plan = plan_paste("/dst", &sources, &existing);
    assert_eq!(plan.len(), 4);
    let names: Vec<String> = plan
        .iter()
        .filter_map(|s| match s {
            PasteStep::Copy { dest_name, .. } => Some(dest_name.clone()),
            _ => None,
        })
        .collect();
    assert_eq!(names, vec!["x.txt", "x (Copy).txt", "pics (Copy)"]);
    match &plan[2] {
        PasteStep::Skip { source, reason } => {
            assert_eq!(source, "/c/gone");
            assert_eq!(*reason, SkipReason::NotFound);
        }
        _ => panic!("a missing source is skipped"),
    }
}

#[test]
fn renaming_gives_up_after_the_cap() {
    let mut taken = Vec::new();
    let mut name = "a.txt".to_string();
    for _ in 0..=MAX_COPIES {
        taken.push(name.clone());
        name = copy_name(&name, false);
    }
    assert_eq!(free_name("a.txt", false, &taken), None);
    let plan = plan_paste("/d", &vec![src("/s/a.txt", EntryKind::File)], &taken);
    match &plan[0] {
        PasteStep::Skip { reason, .. } => assert_eq!(*reason, SkipReason::NoFreeName),
        _ => panic!("expected a skip"),
    }
    let last = taken.pop().unwrap();
    assert_eq!(free_name("a.txt", false, &taken), Some(last));
    assert_ne!(name, "a.txt");
}

#[test]
fn a_source_without_a_name_is_skipped() {
    let plan = plan_paste("/d", &vec![src("/s/", EntryKind::Dir), src("", EntryKind::File)], &vec![]);
    for step in &plan {
        match step {
            PasteStep::Skip { reason, .. } => assert_eq!(*reason, SkipReason::NoName),
            _ => panic!("expected a skip"),
        }
    }
}

#[test]
fn cut_sources_are_removed_only_after_a_successful_copy() {
    assert!(remove_after_copy(Some(YankMode::Cutting), true));
    assert!(!remove_after_copy(Some(YankMode::Cutting), false));
    assert!(!remove_after_copy(Some(YankMode::Copying), true));
    assert!(!remove_after_copy(None, true));
}

#[test]
fn yank_register_keeps_paths_and_mode() {
    let mut y = YankRegister::new();
    assert_eq!(y.mode, None);
    y.copy_files(vec!["/a".to_string()]);
    assert_eq!(y.mode, Some(YankMode::Copying));
    y.cut_files(vec!["/b".to_string(), "/c".to_string()]);
    assert_eq!(y.mode, Some(YankMode::Cutting));
    assert_eq!(y.paths, vec!["/b", "/c"]);
}

#[test]
fn path_helpers() {
    assert_eq!(base_name("/home/u/note.txt"), "note.txt");
    assert_eq!(base_name("note.txt"), "note.txt");
    assert_eq!(base_name("/"), "");
    assert_eq!(join_path("/home/u", "x"), "/home/u/x");
    assert_eq!(join_path("/", "x"), "/x");
    assert_eq!(join_path("/home/u", "/abs"), "/abs");
    assert_eq!(parent_path("/home/u"), Some("/home".to_string()));
    assert_eq!(parent_path("/home"), Some("/".to_string()));
    assert_eq!(parent_path("/"), None);
    assert_eq!(parent_path("relative"), None);
}
