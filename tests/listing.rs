use trooper::listing::{sorted_listing, Entry};

fn entry(name: &str, is_dir: bool) -> Entry {
    Entry {
        name: name.to_string(),
        path: format!("/d/{}", name),
        is_dir,
        is_file: !is_dir,
    }
}

fn names(v: &[Entry]) -> Vec<String> {
    v.iter().map(|e| e.name.clone()).collect()
}

fn sample() -> Vec<Entry> {
    vec![
        entry("b.txt", false),
        entry("Zeta", true),
        entry(".hidden", false),
        entry("A.txt", false),
        entry("alpha", true),
        entry(".config", true),
    ]
}

#[test]
fn directories_first_then_case_insensitive_path() {
    let all = sorted_listing(sample(), true);
    assert_eq!(names(&all), vec![".config", "alpha", "Zeta", ".hidden", "A.txt", "b.txt"]);
}

#[test]
fn hiding_dot_entries_keeps_the_order_of_the_rest() {
    let shown = sorted_listing(sample(), true);
    let hidden = sorted_listing(sample(), false);
    assert_eq!(names(&hidden), vec!["alpha", "Zeta", "A.txt", "b.txt"]);
    let filtered: Vec<String> = names(&shown).into_iter().filter(|n| !n.starts_with('.')).collect();
    assert_eq!(names(&hidden), filtered);
}

#[test]
fn empty_listing() {
    assert!(sorted_listing(Vec::new(), false).is_empty());
}
