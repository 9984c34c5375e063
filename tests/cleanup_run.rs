use maven_cleanup::cleanup::{Child, Cleanup};
use maven_cleanup::paths::get_file_name;
use maven_cleanup::rules::{classify_file, FileAction};
use std::collections::{BTreeMap, BTreeSet};

/// A directory tree held in memory: directories, files with their sizes,
/// directories that cannot be listed and files that cannot be removed.
struct Tree {
    dirs: BTreeSet<String>,
    files: BTreeMap<String, usize>,
    unreadable: BTreeSet<String>,
    undeletable: BTreeSet<String>,
}

impl Tree {
    fn new(root: &str) -> Tree {
        let mut dirs = BTreeSet::new();
        dirs.insert(root.to_string());
        Tree { dirs, files: BTreeMap::new(), unreadable: BTreeSet::new(), undeletable: BTreeSet::new() }
    }

    fn dir(&mut self, path: &str) {
        self.dirs.insert(path.to_string());
    }

    fn file(&mut self, path: &str, size: usize) {
        self.files.insert(path.to_string(), size);
    }

    fn children(&self, dir: &str) -> Vec<Child> {
        let prefix = format!("{}/", dir);
        let direct = |p: &String| p.starts_with(&prefix) && !p[prefix.len()..].contains('/');
        let mut out = Vec::new();
        for d in self.dirs.iter().filter(|p| direct(p)) {
            out.push(Child { path: d.clone(), is_file: false });
        }
        for f in self.files.keys().filter(|p| direct(p)) {
            out.push(Child { path: f.clone(), is_file: true });
        }
        out
    }
}

/// Drives a run over the tree the way the command-line program drives it over
/// a real file system; returns the summary and the removed paths in order.
fn run(tree: &mut Tree, root: &str) -> (String, Vec<String>) {
    let mut cleanup = Cleanup::new(root.to_string());
    let mut removed = Vec::new();
    while let Some(path) = cleanup.next_path() {
        if tree.dirs.contains(&path) {
            let Some(folder_name) = get_file_name(&path) else { continue };
            if tree.unreadable.contains(&path) {
                continue;
            }
            let children = tree.children(&path);
            cleanup.expand_dir(&folder_name, children);
        } else {
            match classify_file(&path) {
                FileAction::DeleteMetadata => {
                    if tree.undeletable.contains(&path) {
                        cleanup.halt();
                    } else {
                        tree.files.remove(&path);
                        removed.push(path);
                    }
                }
                FileAction::DeleteStale => {
                    let size = tree.files.get(&path).copied().unwrap_or(0);
                    if !tree.undeletable.contains(&path) {
                        tree.files.remove(&path);
                        cleanup.record_deleted(size);
                        removed.push(path);
                    }
                }
                FileAction::Skip | FileAction::Keep => {}
            }
        }
    }
    (cleanup.summary(), removed)
}

fn snapshot_tree() -> Tree {
    let mut t = Tree::new("/repo");
    t.dir("/repo/com");
    t.dir("/repo/com/foo");
    t.dir("/repo/com/foo/1.0-SNAPSHOT");
    t.file("/repo/com/foo/1.0-SNAPSHOT/foo-1.0-20230101.120000-1.jar", 2048);
    t.file("/repo/com/foo/1.0-SNAPSHOT/foo-1.0-SNAPSHOT.jar", 4096);
    t
}

#[test]
fn timestamped_snapshot_is_removed_and_named_one_kept() {
    let mut t = snapshot_tree();
    let (summary, removed) = run(&mut t, "/repo");
    assert_eq!(removed, vec!["/repo/com/foo/1.0-SNAPSHOT/foo-1.0-20230101.120000-1.jar".to_string()]);
    assert!(t.files.contains_key("/repo/com/foo/1.0-SNAPSHOT/foo-1.0-SNAPSHOT.jar"));
    assert_eq!(summary, "2.00 KiB");
}

#[test]
fn second_run_removes_nothing() {
    let mut t = snapshot_tree();
    t.file("/repo/com/foo/maven-metadata-local.xml", 100);
    t.dir("/repo/com/foo/0.9");
    t.file("/repo/com/foo/0.9/maven-metadata-local.xml", 50);
    let (_, first) = run(&mut t, "/repo");
    assert_eq!(first.len(), 3);
    let (summary, second) = run(&mut t, "/repo");
    assert!(second.is_empty());
    assert_eq!(summary, "0 B");
}

#[test]
fn released_folders_are_left_alone() {
    let mut t = Tree::new("/repo");
    t.dir("/repo/com");
    t.dir("/repo/com/foo");
    t.dir("/repo/com/foo/1.0");
    t.file("/repo/com/foo/1.0/foo-0.9.jar", 10);
    t.file("/repo/com/foo/1.0/foo-1.0.pom", 10);
    t.file("/repo/com/foo/1.0/maven-metadata.xml", 10);
    let (summary, removed) = run(&mut t, "/repo");
    assert!(removed.is_empty());
    assert_eq!(t.files.len(), 3);
    assert_eq!(summary, "0 B");
}

#[test]
fn metadata_removed_in_any_folder_without_counting() {
    let mut t = Tree::new("/repo");
    t.dir("/repo/org");
    t.dir("/repo/org/bar");
    t.dir("/repo/org/bar/2.1");
    t.file("/repo/org/bar/2.1/maven-metadata-local.xml", 777);
    t.file("/repo/org/bar/maven-metadata-local.xml", 333);
    let (summary, removed) = run(&mut t, "/repo");
    assert_eq!(removed.len(), 2);
    assert!(t.files.is_empty());
    assert_eq!(summary, "0 B");
}

#[test]
fn reported_total_is_sum_of_removed_sizes() {
    let mut t = Tree::new("/repo");
    t.dir("/repo/a");
    t.dir("/repo/a/2.0-SNAPSHOT");
    t.file("/repo/a/2.0-SNAPSHOT/a-2.0-1.jar", 1_000_000);
    t.file("/repo/a/2.0-SNAPSHOT/a-2.0-1.pom", 2_000_000);
    t.file("/repo/a/2.0-SNAPSHOT/a-2.0-1.jar.sha1", 2_242_880);
    t.file("/repo/a/2.0-SNAPSHOT/a-2.0-SNAPSHOT.jar", 9_999_999);
    let (summary, removed) = run(&mut t, "/repo");
    assert_eq!(removed.len(), 3);
    assert_eq!(summary, "5.00 MiB");
}

#[test]
fn unreadable_directory_does_not_stop_siblings() {
    let mut t = Tree::new("/repo");
    t.dir("/repo/locked");
    t.dir("/repo/locked/1.0-SNAPSHOT");
    t.file("/repo/locked/1.0-SNAPSHOT/x-old.jar", 5);
    t.dir("/repo/open");
    t.dir("/repo/open/1.0-SNAPSHOT");
    t.file("/repo/open/1.0-SNAPSHOT/y-old.jar", 512);
    t.dir("/repo/zzz");
    t.dir("/repo/zzz/3-SNAPSHOT");
    t.file("/repo/zzz/3-SNAPSHOT/z.war", 512);
    t.unreadable.insert("/repo/locked".to_string());
    let (summary, removed) = run(&mut t, "/repo");
    assert_eq!(
        removed,
        vec!["/repo/open/1.0-SNAPSHOT/y-old.jar".to_string(), "/repo/zzz/3-SNAPSHOT/z.war".to_string()]
    );
    assert!(t.files.contains_key("/repo/locked/1.0-SNAPSHOT/x-old.jar"));
    assert_eq!(summary, "1.00 KiB");
}

#[test]
fn failed_metadata_removal_halts_the_run() {
    let mut t = Tree::new("/repo");
    t.file("/repo/maven-metadata-local.xml", 1);
    t.dir("/repo/x");
    t.dir("/repo/x/1-SNAPSHOT");
    t.file("/repo/x/1-SNAPSHOT/old.jar", 9);
    t.undeletable.insert("/repo/maven-metadata-local.xml".to_string());
    let (summary, removed) = run(&mut t, "/repo");
    assert!(removed.is_empty());
    assert!(t.files.contains_key("/repo/x/1-SNAPSHOT/old.jar"));
    assert_eq!(summary, "0 B");
}

#[test]
fn failed_artifact_removal_is_not_counted_and_run_goes_on() {
    let mut t = Tree::new("/repo");
    t.dir("/repo/1-SNAPSHOT");
    t.file("/repo/1-SNAPSHOT/a.jar", 2048);
    t.file("/repo/1-SNAPSHOT/b.jar", 1024);
    t.undeletable.insert("/repo/1-SNAPSHOT/a.jar".to_string());
    let (summary, removed) = run(&mut t, "/repo");
    assert_eq!(removed, vec!["/repo/1-SNAPSHOT/b.jar".to_string()]);
    assert_eq!(summary, "1.00 KiB");
}

#[test]
fn worklist_is_first_in_first_out() {
    let mut c = Cleanup::new("/r".to_string());
    assert_eq!(c.next_path(), Some("/r".to_string()));
    assert_eq!(c.next_path(), None);
    c.expand_dir(
        "r",
        vec![
            Child { path: "/r/a".to_string(), is_file: false },
            Child { path: "/r/x.jar".to_string(), is_file: true },
            Child { path: "/r/maven-metadata-local.xml".to_string(), is_file: true },
            Child { path: "/r/b".to_string(), is_file: false },
        ],
    );
    assert_eq!(c.next_path(), Some("/r/a".to_string()));
    assert_eq!(c.next_path(), Some("/r/maven-metadata-local.xml".to_string()));
    assert_eq!(c.next_path(), Some("/r/b".to_string()));
    assert_eq!(c.next_path(), None);
}

#[test]
fn snapshot_folder_queues_every_file() {
    let mut c = Cleanup::new("/r".to_string());
    c.next_path();
    c.expand_dir(
        "1.0-SNAPSHOT",
        vec![
            Child { path: "/r/1.0-SNAPSHOT/a.txt".to_string(), is_file: true },
            Child { path: "/r/1.0-SNAPSHOT/b.jar".to_string(), is_file: true },
        ],
    );
    assert_eq!(c.next_path(), Some("/r/1.0-SNAPSHOT/a.txt".to_string()));
    assert_eq!(c.next_path(), Some("/r/1.0-SNAPSHOT/b.jar".to_string()));
}

#[test]
fn halted_run_hands_out_nothing() {
    let mut c = Cleanup::new("/r".to_string());
    c.halt();
    assert_eq!(c.next_path(), None);
}

#[test]
fn deleted_size_accumulates() {
    let mut c = Cleanup::new("/r".to_string());
    assert_eq!(c.deleted_size(), 0);
    c.record_deleted(1000);
    c.record_deleted(24);
    assert_eq!(c.deleted_size(), 1024);
    assert_eq!(c.summary(), "1.00 KiB");
}
