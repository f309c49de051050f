use human_bytes::human_bytes;
use rsclean::entry::{Entry, Visit};
use rsclean::remove::{delete_dirs, Step};
use rsclean::report::{match_line, total_line};
use rsclean::scan::{find_dirs, MatchedDirectory};

/// A file system in memory: paths in walk order, with `None` for a directory
/// and the length for a file.
struct Disk {
    entries: Vec<(String, Option<u64>)>,
    locked: Vec<String>,
}

impl Disk {
    fn new(entries: &[(&str, Option<u64>)]) -> Disk {
        Disk {
            entries: entries.iter().map(|(path, len)| (path.to_string(), *len)).collect(),
            locked: Vec::new(),
        }
    }

    fn below(path: &str, root: &str) -> bool {
        path == root || path.starts_with(&format!("{}/", root))
    }

    fn walk(&self, root: &str) -> Vec<Visit> {
        let found: Vec<Visit> = self
            .entries
            .iter()
            .filter(|(path, _)| Disk::below(path, root))
            .map(|(path, len)| {
                Visit::Entry(Entry {
                    path: path.clone(),
                    file_name: path.rsplit('/').next().unwrap().to_string(),
                    is_dir: len.is_none(),
                    len: Some(len.unwrap_or(4096)),
                })
            })
            .collect();
        if found.is_empty() {
            vec![Visit::Unreadable]
        } else {
            found
        }
    }

    fn remove(&mut self, root: &str) -> bool {
        if self.locked.iter().any(|path| path == root) {
            return false;
        }
        let before = self.entries.len();
        self.entries.retain(|(path, _)| !Disk::below(path, root));
        self.entries.len() < before
    }

    fn has(&self, path: &str) -> bool {
        self.entries.iter().any(|(known, _)| known == path)
    }
}

fn scan(disk: &Disk, root: &str) -> Vec<MatchedDirectory> {
    let mut scan = find_dirs(&disk.walk(root));
    while let Some(dir) = scan.pending() {
        let walk = disk.walk(dir);
        scan.measured(&walk);
    }
    scan.finish()
}

/// Runs the removal on `disk` and gives the lines printed, and whether the
/// run ended well.
fn run(disk: &mut Disk, root: &str, dry_run: bool) -> (Vec<String>, bool) {
    let mut lines = Vec::new();
    let mut removal = delete_dirs(scan(disk, root), dry_run);
    loop {
        match removal.step() {
            Step::Show { size, path } => {
                lines.push(match_line(&human_bytes(size as f64), &path));
                removal.advance(true);
            }
            Step::Delete { path } => {
                let ok = disk.remove(&path);
                removal.advance(ok);
            }
            Step::Finish { total } => {
                lines.push(total_line(&human_bytes(total as f64)));
                return (lines, true);
            }
            Step::Abort => return (lines, false),
        }
    }
}

fn two_projects() -> Disk {
    Disk::new(&[
        ("root", None),
        ("root/proj1", None),
        ("root/proj1/target", None),
        ("root/proj1/target/debug", None),
        ("root/proj1/target/debug/bin", Some(10)),
        ("root/proj2", None),
        ("root/proj2/target", None),
        ("root/proj2/target/release", None),
        ("root/proj2/target/release/lib", Some(20)),
        ("root/proj2/other", None),
        ("root/proj2/other/file", Some(5)),
    ])
}

#[test]
fn scanning_two_projects_finds_both_targets_with_their_sizes() {
    assert_eq!(
        scan(&two_projects(), "root"),
        vec![
            MatchedDirectory { path: "root/proj1/target".to_string(), size_bytes: 10 },
            MatchedDirectory { path: "root/proj2/target".to_string(), size_bytes: 20 },
        ]
    );
}

#[test]
fn a_dry_run_over_two_projects_prints_two_lines_and_the_total() {
    let mut disk = two_projects();
    let (lines, ok) = run(&mut disk, "root", true);
    assert!(ok);
    assert_eq!(
        lines,
        vec![
            "10 B root/proj1/target".to_string(),
            "20 B root/proj2/target".to_string(),
            "Space reclamed: 30 B".to_string(),
        ]
    );
    assert_eq!(disk.entries, two_projects().entries);
}

#[test]
fn a_real_run_over_two_projects_deletes_the_targets_only() {
    let mut disk = two_projects();
    let (lines, ok) = run(&mut disk, "root", false);
    assert!(ok);
    assert_eq!(lines, vec!["Space reclamed: 30 B".to_string()]);
    assert!(!disk.has("root/proj1/target"));
    assert!(!disk.has("root/proj1/target/debug/bin"));
    assert!(!disk.has("root/proj2/target"));
    assert!(!disk.has("root/proj2/target/release/lib"));
    assert!(disk.has("root/proj1"));
    assert!(disk.has("root/proj2/other/file"));
    assert_eq!(scan(&disk, "root"), vec![]);
}

#[test]
fn a_real_run_after_a_dry_run_reports_the_same_total() {
    let mut disk = two_projects();
    let (dry, _) = run(&mut disk, "root", true);
    let (real, _) = run(&mut disk, "root", false);
    assert_eq!(dry.last(), real.last());
    assert_eq!(real.last(), Some(&"Space reclamed: 30 B".to_string()));
}

#[test]
fn a_locked_directory_ends_the_run_without_a_total() {
    let mut disk = Disk::new(&[
        ("root", None),
        ("root/a", None),
        ("root/a/target", None),
        ("root/a/target/x", Some(1)),
        ("root/b", None),
        ("root/b/target", None),
        ("root/b/target/y", Some(2)),
        ("root/c", None),
        ("root/c/target", None),
        ("root/c/target/z", Some(4)),
    ]);
    disk.locked.push("root/b/target".to_string());
    let (lines, ok) = run(&mut disk, "root", false);
    assert!(!ok);
    assert_eq!(lines, Vec::<String>::new());
    assert!(!disk.has("root/a/target"));
    assert!(disk.has("root/b/target/y"));
    assert!(disk.has("root/c/target/z"));
}

#[test]
fn a_target_inside_a_target_fails_the_real_run() {
    let mut disk = Disk::new(&[
        ("root", None),
        ("root/target", None),
        ("root/target/a", Some(3)),
        ("root/target/dep", None),
        ("root/target/dep/target", None),
        ("root/target/dep/target/b", Some(4)),
    ]);
    assert_eq!(
        scan(&disk, "root"),
        vec![
            MatchedDirectory { path: "root/target".to_string(), size_bytes: 7 },
            MatchedDirectory { path: "root/target/dep/target".to_string(), size_bytes: 4 },
        ]
    );
    let (dry, ok) = run(&mut disk, "root", true);
    assert!(ok);
    assert_eq!(dry.last(), Some(&"Space reclamed: 11 B".to_string()));
    let (lines, ok) = run(&mut disk, "root", false);
    assert!(!ok);
    assert_eq!(lines, Vec::<String>::new());
    assert!(!disk.has("root/target"));
}

#[test]
fn a_missing_root_reclaims_nothing() {
    let mut disk = two_projects();
    let (lines, ok) = run(&mut disk, "nowhere", false);
    assert!(ok);
    assert_eq!(lines, vec!["Space reclamed: 0 B".to_string()]);
    assert_eq!(disk.entries, two_projects().entries);
}
