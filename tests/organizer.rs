use organizer::classify::{bucket_name, extension};
use organizer::{
    BucketStatus, CollectStep, CollectedFile, Collector, EntryDescription, EntryKind,
    FileOperationMode, FileOrganizerCore, ListedEntry, ORganizer, OrganizeRun, OrganizerResult,
    PathProbe,
};

fn file(name: &str) -> ListedEntry {
    ListedEntry { name: name.to_string(), kind: EntryKind::File }
}

fn dir(name: &str) -> ListedEntry {
    ListedEntry { name: name.to_string(), kind: EntryKind::Directory }
}

/// Runs a collection over an in-memory tree: `tree` gives the listing of a
/// directory by its path joined with `/` (the root is ""). Returns the
/// collected paths joined with `/` and the directories that were read.
fn collect(excluded: &[String], tree: &dyn Fn(&str) -> Vec<ListedEntry>) -> (Vec<String>, Vec<String>) {
    let mut c = Collector::new(excluded);
    let mut read = Vec::new();
    loop {
        match c.next_step() {
            CollectStep::ReadDirectory(path) => {
                let key = path.join("/");
                read.push(key.clone());
                c.feed(tree(&key));
            }
            CollectStep::Done => break,
        }
    }
    let files = c
        .files
        .iter()
        .map(|f| {
            let mut parts = f.dirs.clone();
            parts.push(f.name.clone());
            parts.join("/")
        })
        .collect();
    (files, read)
}

fn scenario_tree(path: &str) -> Vec<ListedEntry> {
    match path {
        "" => vec![file("a.TXT"), file("b.txt"), file("c"), dir("skip")],
        "skip" => vec![file("x.txt")],
        _ => vec![],
    }
}

fn collected(names: &[&str]) -> Vec<CollectedFile> {
    names
        .iter()
        .map(|n| CollectedFile { dirs: vec![], name: n.to_string() })
        .collect()
}

/// Drives a run in which every bucket directory is created the first time
/// it is needed and every operation succeeds.
fn run_all(mode: FileOperationMode, files: Vec<CollectedFile>) -> OrganizerResult {
    let mut run = OrganizeRun::new(mode, files);
    let mut made: Vec<String> = Vec::new();
    while run.progress().is_some() {
        let bucket = run.current_bucket_name();
        let status = if made.contains(&bucket) {
            BucketStatus::Present
        } else {
            made.push(bucket);
            BucketStatus::Created
        };
        if run.authorize(status, false) {
            run.complete(Ok(()));
        }
    }
    run.finish()
}

fn bucket<'a>(r: &'a OrganizerResult, name: &str) -> Option<&'a Vec<String>> {
    r.extension_map.iter().find(|b| b.name == name).map(|b| &b.files)
}

fn bucket_total(r: &OrganizerResult) -> usize {
    r.extension_map.iter().map(|b| b.files.len()).sum()
}

#[test]
fn bucket_names_follow_extension() {
    assert_eq!(bucket_name("a.TXT"), "TXT");
    assert_eq!(bucket_name("b.txt"), "TXT");
    assert_eq!(bucket_name("photo.JpG"), "JPG");
    assert_eq!(bucket_name("archive.tar.gz"), "GZ");
    assert_eq!(bucket_name("c"), "NO_EXTENSION");
    assert_eq!(bucket_name(".profile"), "PROFILE");
    assert_eq!(bucket_name(".bashrc"), "BASHRC");
    assert_eq!(bucket_name("ends."), "NO_EXTENSION");
    assert_eq!(bucket_name(""), "NO_EXTENSION");
}

#[test]
fn extension_is_after_last_dot() {
    assert_eq!(extension("report.final.PDF"), Some("PDF".to_string()));
    assert_eq!(extension("x.y"), Some("y".to_string()));
    assert_eq!(extension("plain"), None);
    assert_eq!(extension(".hidden"), Some("hidden".to_string()));
    assert_eq!(extension("trailing."), None);
}

#[test]
fn collector_skips_excluded_directory() {
    let (files, read) = collect(&["skip".to_string()], &scenario_tree);
    assert_eq!(files, vec!["a.TXT", "b.txt", "c"]);
    assert_eq!(read, vec![""]);
}

#[test]
fn collector_descends_depth_first_in_listed_order() {
    let tree = |p: &str| match p {
        "" => vec![file("1.a"), dir("d"), file("3.c")],
        "d" => vec![file("2.b"), dir("e")],
        "d/e" => vec![file("deep")],
        _ => vec![],
    };
    let (files, read) = collect(&[], &tree);
    assert_eq!(files, vec!["1.a", "d/2.b", "d/e/deep", "3.c"]);
    assert_eq!(read, vec!["", "d", "d/e"]);
}

#[test]
fn collector_exclusion_is_trimmed_and_case_insensitive() {
    let tree = |p: &str| match p {
        "" => vec![dir("Private"), file("keep.md"), file("NOTES.TXT")],
        "Private" => vec![file("secret.txt")],
        _ => vec![],
    };
    let (files, read) = collect(&["  PRIVATE ".to_string(), "notes.txt".to_string()], &tree);
    assert_eq!(files, vec!["keep.md"]);
    assert_eq!(read, vec![""]);
}

#[test]
fn collector_never_enters_output_directory() {
    let tree = |p: &str| match p {
        "" => vec![dir("Organizer"), dir("ORGANIZER"), file("organizer"), file("new.txt")],
        "Organizer" => vec![dir("TXT")],
        "Organizer/TXT" => vec![file("old.txt")],
        _ => vec![],
    };
    let (files, read) = collect(&[], &tree);
    assert_eq!(files, vec!["new.txt"]);
    assert_eq!(read, vec![""]);
}

#[test]
fn rerun_on_organized_tree_collects_nothing() {
    let tree = |p: &str| match p {
        "" => vec![dir("Organizer")],
        "Organizer" => vec![dir("TXT"), dir("NO_EXTENSION")],
        "Organizer/TXT" => vec![file("a.TXT"), file("b.txt")],
        "Organizer/NO_EXTENSION" => vec![file("c")],
        _ => vec![],
    };
    let (files, _) = collect(&[], &tree);
    assert!(files.is_empty());
    let run = OrganizeRun::new(FileOperationMode::Cut, vec![]);
    assert!(!run.needs_output_directory());
    let r = run.finish();
    assert_eq!(r.total_moved, 0);
}

#[test]
fn collector_ignores_other_entries() {
    let tree = |p: &str| match p {
        "" => vec![ListedEntry { name: "socket".to_string(), kind: EntryKind::Other }, file("f.rs")],
        _ => vec![],
    };
    let (files, _) = collect(&[], &tree);
    assert_eq!(files, vec!["f.rs"]);
}

#[test]
fn scenario_move_three_files() {
    let (paths, _) = collect(&["skip".to_string()], &scenario_tree);
    let files: Vec<CollectedFile> = paths
        .iter()
        .map(|p| CollectedFile { dirs: vec![], name: p.clone() })
        .collect();
    let r = run_all(FileOperationMode::Cut, files);
    assert_eq!(r.total_moved, 3);
    assert_eq!(r.folders_created, 2);
    assert_eq!(r.extension_map.len(), 2);
    assert_eq!(bucket(&r, "TXT").unwrap(), &vec!["a.TXT".to_string(), "b.txt".to_string()]);
    assert_eq!(bucket(&r, "NO_EXTENSION").unwrap(), &vec!["c".to_string()]);
    assert!(r.errors.is_none());
    assert!(r.summary.contains("Files moved: 3"));
}

#[test]
fn scenario_copy_reports_copied() {
    let r = run_all(FileOperationMode::Copy, collected(&["a.TXT", "b.txt", "c"]));
    assert_eq!(r.total_moved, 3);
    assert_eq!(r.folders_created, 2);
    assert!(r.summary.contains("Files copied: 3"));
    assert!(!r.summary.contains("moved"));
}

#[test]
fn scenario_collision_is_an_error() {
    let mut run = OrganizeRun::new(FileOperationMode::Cut, collected(&["a.txt", "b.txt"]));
    assert_eq!(run.progress(), Some((1, 2)));
    assert!(run.authorize(BucketStatus::Present, false));
    run.complete(Ok(()));
    assert_eq!(run.progress(), Some((2, 2)));
    assert!(!run.authorize(BucketStatus::Present, true));
    assert_eq!(run.progress(), None);
    let r = run.finish();
    assert_eq!(r.total_moved, 1);
    assert_eq!(r.folders_created, 0);
    assert_eq!(bucket(&r, "TXT").unwrap(), &vec!["a.txt".to_string()]);
    assert_eq!(
        r.errors,
        Some(vec!["Error al mover b.txt: el destino ya existe".to_string()])
    );
}

#[test]
fn failed_operation_is_recorded_and_run_goes_on() {
    let mut run = OrganizeRun::new(FileOperationMode::Cut, collected(&["a.txt", "b.png"]));
    assert!(run.authorize(BucketStatus::Created, false));
    run.complete(Err("permission denied".to_string()));
    assert!(run.authorize(BucketStatus::Created, false));
    run.complete(Ok(()));
    let r = run.finish();
    assert_eq!(r.total_moved, 1);
    assert_eq!(r.folders_created, 2);
    assert_eq!(r.errors, Some(vec!["Error al mover a.txt: permission denied".to_string()]));
    assert!(bucket(&r, "TXT").is_none());
    assert_eq!(bucket(&r, "PNG").unwrap(), &vec!["b.png".to_string()]);
}

#[test]
fn bucket_failure_skips_file_and_retries() {
    let mut run = OrganizeRun::new(FileOperationMode::Cut, collected(&["a.txt", "b.txt"]));
    assert!(!run.authorize(BucketStatus::CreateFailed("disk full".to_string()), false));
    assert_eq!(run.current_bucket_name(), "TXT");
    assert!(run.authorize(BucketStatus::Created, false));
    run.complete(Ok(()));
    let r = run.finish();
    assert_eq!(r.total_moved, 1);
    assert_eq!(r.folders_created, 1);
    assert_eq!(r.errors, Some(vec!["Error al crear carpeta TXT: disk full".to_string()]));
}

#[test]
fn created_bucket_counted_once() {
    let mut run = OrganizeRun::new(FileOperationMode::Cut, collected(&["a.txt", "b.txt", "c.txt"]));
    for _ in 0..3 {
        assert!(run.authorize(BucketStatus::Created, false));
        run.complete(Ok(()));
    }
    let r = run.finish();
    assert_eq!(r.folders_created, 1);
    assert_eq!(r.total_moved, 3);
}

#[test]
fn present_bucket_is_not_counted() {
    let r = {
        let mut run = OrganizeRun::new(FileOperationMode::Cut, collected(&["a.txt"]));
        assert!(run.authorize(BucketStatus::Present, false));
        run.complete(Ok(()));
        run.finish()
    };
    assert_eq!(r.folders_created, 0);
    assert_eq!(r.total_moved, 1);
}

#[test]
fn total_equals_bucket_sizes() {
    let r = run_all(
        FileOperationMode::Cut,
        collected(&["a.rs", "b.RS", "c.toml", "d", "e.md", "f.rs", ".env", "g"]),
    );
    assert_eq!(r.total_moved, 8);
    assert_eq!(bucket_total(&r), 8);
    assert_eq!(r.folders_created, 5);
    assert_eq!(bucket(&r, "RS").unwrap().len(), 3);
    assert_eq!(bucket(&r, "NO_EXTENSION").unwrap(), &vec!["d".to_string(), "g".to_string()]);
    assert_eq!(bucket(&r, "ENV").unwrap(), &vec![".env".to_string()]);
}

#[test]
fn empty_input_gives_empty_result() {
    let run = OrganizeRun::new(FileOperationMode::Copy, vec![]);
    assert!(!run.needs_output_directory());
    assert_eq!(run.progress(), None);
    let r = run.finish();
    assert_eq!(r.total_moved, 0);
    assert_eq!(r.folders_created, 0);
    assert!(r.extension_map.is_empty());
    assert!(r.errors.is_none());
    assert_eq!(r.summary, "No files were processed.");
}

#[test]
fn empty_result_is_canonical() {
    let r = OrganizerResult::empty();
    assert_eq!(r.total_moved, 0);
    assert_eq!(r.folders_created, 0);
    assert!(r.extension_map.is_empty());
    assert!(r.errors.is_none());
    assert_eq!(r.summary, "No files were processed.");
}

#[test]
fn summary_text_is_exact() {
    let r = run_all(FileOperationMode::Cut, collected(&["a.TXT", "b.txt", "c"]));
    assert_eq!(
        r.summary,
        "Organization complete\n\nFiles moved: 3\nFolders created: 2\n\nOrganized extensions:\n  - TXT: 2 file(s)\n  - NO_EXTENSION: 1 file(s)\n"
    );
}

#[test]
fn summary_counts_with_several_digits() {
    let names: Vec<String> = (0..12).map(|i| format!("f{}.log", i)).collect();
    let refs: Vec<&str> = names.iter().map(|s| s.as_str()).collect();
    let r = run_all(FileOperationMode::Copy, collected(&refs));
    assert!(r.summary.contains("Files copied: 12\n"));
    assert!(r.summary.contains("  - LOG: 12 file(s)\n"));
    let s = FileOrganizerCore::create_organization_summary(&r.extension_map, 1234567890, 105, FileOperationMode::Cut);
    assert!(s.contains("Files moved: 1234567890\nFolders created: 105\n"));
}

#[test]
fn run_ignores_out_of_order_calls() {
    let mut run = OrganizeRun::new(FileOperationMode::Cut, collected(&["a.txt"]));
    run.complete(Ok(()));
    assert_eq!(run.progress(), Some((1, 1)));
    assert!(run.authorize(BucketStatus::Created, false));
    assert!(!run.authorize(BucketStatus::Created, false));
    run.complete(Ok(()));
    assert!(!run.authorize(BucketStatus::Created, false));
    let r = run.finish();
    assert_eq!(r.total_moved, 1);
    assert_eq!(r.folders_created, 1);
}

#[test]
fn listing_missing_path() {
    let r = FileOrganizerCore::list_files_in_path("/nope", PathProbe::Missing);
    assert_eq!(r, Err("La ruta '/nope' no existe".to_string()));
}

#[test]
fn listing_unusable_path() {
    let r = FileOrganizerCore::list_files_in_path("/dev/x", PathProbe::Unusable);
    assert_eq!(r, Err("Ruta no válida".to_string()));
}

#[test]
fn listing_single_file() {
    let r = FileOrganizerCore::list_files_in_path(
        "/tmp/a.txt",
        PathProbe::File { name: Some("a.txt".to_string()), size: 42 },
    );
    assert_eq!(r, Ok(vec!["Archivo a.txt (42 bytes)".to_string()]));
    let r = FileOrganizerCore::list_files_in_path("/", PathProbe::File { name: None, size: 0 });
    assert_eq!(r, Ok(vec!["Archivo sin nombre".to_string()]));
}

#[test]
fn listing_directory_is_sorted() {
    let entries = vec![
        Ok(EntryDescription { name: Some("zeta.txt".to_string()), is_dir: false, size: Some(10) }),
        Ok(EntryDescription { name: Some("alpha".to_string()), is_dir: true, size: None }),
        Err("bad entry".to_string()),
        Ok(EntryDescription { name: Some("beta.rs".to_string()), is_dir: false, size: None }),
    ];
    let r = FileOrganizerCore::list_files_in_path("/d", PathProbe::Directory(Ok(entries)));
    assert_eq!(
        r,
        Ok(vec![
            "Error leyendo entrada: bad entry".to_string(),
            "[DIR]  alpha".to_string(),
            "[FILE] beta.rs".to_string(),
            "[FILE] zeta.txt (10 bytes)".to_string(),
        ])
    );
}

#[test]
fn listing_unreadable_directory() {
    let r = FileOrganizerCore::list_files_in_path("/d", PathProbe::Directory(Err("denied".to_string())));
    assert_eq!(r, Err("Error al leer el directorio: denied".to_string()));
}

#[test]
fn front_end_starts_without_path() {
    let ui = ORganizer::new();
    assert!(ui.ruta_seleccionada.is_empty());
}

#[test]
fn default_mode_is_cut() {
    assert_eq!(FileOperationMode::default(), FileOperationMode::Cut);
}


#[test]
fn exclusion_trims_unicode_white_space() {
    let tree = |p: &str| match p {
        "" => vec![dir("Skip"), file("keep.txt")],
        "Skip" => vec![file("x.txt")],
        _ => vec![],
    };
    let (files, read) = collect(&["\u{3000}skip\t\n".to_string()], &tree);
    assert_eq!(files, vec!["keep.txt"]);
    assert_eq!(read, vec![""]);
}

#[test]
fn admits_checks_output_and_exclusions() {
    let c = Collector::new(&[" Build ".to_string()]);
    assert!(!c.admits(&"build".to_string()));
    assert!(!c.admits(&"organizer".to_string()));
    assert!(c.admits(&"src".to_string()));
}

#[test]
fn listing_unnamed_entry() {
    let entries = vec![Ok(EntryDescription { name: None, is_dir: true, size: None })];
    let r = FileOrganizerCore::list_files_in_path("/d", PathProbe::Directory(Ok(entries)));
    assert_eq!(r, Ok(vec!["[DIR]  sin_nombre".to_string()]));
}
