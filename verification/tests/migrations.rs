use clipforge::{get_pending_migrations, migration_id, sort_migration_files, MigrationFile};
use std::path::PathBuf;

fn file(id: &str, path: &str) -> MigrationFile {
    MigrationFile { id: id.to_string(), path: PathBuf::from(path), sql: format!("-- {}", id) }
}

#[test]
fn sorting_orders_by_id() {
    let mut files = vec![file("003_c", "c"), file("001_a", "a"), file("002_b", "b")];
    sort_migration_files(&mut files);
    let ids: Vec<&str> = files.iter().map(|f| f.id.as_str()).collect();
    assert_eq!(ids, vec!["001_a", "002_b", "003_c"]);
}

#[test]
fn sorting_is_stable_and_byte_ordered() {
    let mut files = vec![
        file("b", "p1"),
        file("a", "p2"),
        file("B", "p3"),
        file("a", "p4"),
        file("ab", "p5"),
        file("é", "p6"),
        file("", "p7"),
    ];
    sort_migration_files(&mut files);
    let got: Vec<(String, String)> = files
        .iter()
        .map(|f| (f.id.clone(), f.path.to_string_lossy().to_string()))
        .collect();
    let want: Vec<(String, String)> = vec![
        ("", "p7"), ("B", "p3"), ("a", "p2"), ("a", "p4"), ("ab", "p5"), ("b", "p1"), ("é", "p6"),
    ]
    .into_iter()
    .map(|(a, b)| (a.to_string(), b.to_string()))
    .collect();
    assert_eq!(got, want);
    let mut std_sorted: Vec<String> = want.iter().map(|p| p.0.clone()).collect();
    std_sorted.sort();
    assert_eq!(std_sorted, want.iter().map(|p| p.0.clone()).collect::<Vec<_>>());
}

#[test]
fn sorting_empty_list() {
    let mut files: Vec<MigrationFile> = Vec::new();
    sort_migration_files(&mut files);
    assert!(files.is_empty());
}

#[test]
fn pending_skips_applied_and_keeps_order() {
    let files = vec![file("001", "a"), file("002", "b"), file("003", "c")];
    let applied = vec!["002".to_string(), "999".to_string()];
    let pending = get_pending_migrations(files, applied);
    let ids: Vec<&str> = pending.iter().map(|f| f.id.as_str()).collect();
    assert_eq!(ids, vec!["001", "003"]);
}

#[test]
fn applying_pending_leaves_nothing_pending() {
    let mk = || vec![file("001", "a"), file("002", "b"), file("003", "c")];
    let applied = vec!["001".to_string()];
    let pending = get_pending_migrations(mk(), applied.clone());
    let mut now_applied = applied;
    now_applied.extend(pending.iter().map(|f| f.id.clone()));
    assert!(get_pending_migrations(mk(), now_applied).is_empty());
}

#[test]
fn migration_ids_from_file_names() {
    assert_eq!(migration_id("001_init.sql"), Some("001_init".to_string()));
    assert_eq!(migration_id("a.b.sql"), Some("a.b".to_string()));
    assert_eq!(migration_id(".sql"), None);
    assert_eq!(migration_id("..sql"), Some(".".to_string()));
    assert_eq!(migration_id("x.SQL"), None);
    assert_eq!(migration_id("noext"), None);
    assert_eq!(migration_id("x.sql.bak"), None);
    assert_eq!(migration_id("x.sq"), None);
    assert_eq!(migration_id(""), None);
}

#[test]
fn migration_ids_agree_with_path() {
    for name in ["001_init.sql", "a.b.sql", ".sql", "..sql", "x.SQL", "noext", "x.sql.bak", "y.", ".hidden"] {
        let p = std::path::Path::new(name);
        let want = if p.extension().and_then(|e| e.to_str()) == Some("sql") {
            p.file_stem().and_then(|s| s.to_str()).map(|s| s.to_string())
        } else {
            None
        };
        assert_eq!(migration_id(name), want, "{}", name);
    }
}

#[test]
fn pending_after_sorting_stays_sorted() {
    let mut files = vec![file("004", "d"), file("001", "a"), file("003", "c"), file("002", "b")];
    sort_migration_files(&mut files);
    let pending = get_pending_migrations(files, vec!["002".to_string()]);
    let ids: Vec<&str> = pending.iter().map(|f| f.id.as_str()).collect();
    assert_eq!(ids, vec!["001", "003", "004"]);
}
