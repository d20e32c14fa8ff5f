use music_cleaner::collect::collect_deep_files;
use music_cleaner::extract::{extract_plan, ExtractError};
use music_cleaner::fs_tree::{Folder, FoundFile};

fn folder(name: &str, files: &[&str], subs: Vec<Folder>) -> Folder {
    Folder {
        name: name.to_string(),
        files: files.iter().map(|f| f.to_string()).collect(),
        subs,
    }
}

fn found(dirs: &[&str], name: &str) -> FoundFile {
    FoundFile {
        dirs: dirs.iter().map(|d| d.to_string()).collect(),
        name: name.to_string(),
    }
}

#[test]
fn collects_all_deep_files_exactly_once() {
    let tree = vec![
        folder(
            "A",
            &["x.flac", "y.mp3"],
            vec![folder("B", &["z.flac"], Vec::new())],
        ),
        folder("C", &[], Vec::new()),
    ];
    let deep = collect_deep_files(&tree);
    assert_eq!(
        deep,
        vec![
            found(&["A"], "x.flac"),
            found(&["A"], "y.mp3"),
            found(&["A", "B"], "z.flac"),
        ]
    );
}

#[test]
fn collects_nothing_from_empty_scan() {
    let deep = collect_deep_files(&Vec::new());
    assert!(deep.is_empty());
}

#[test]
fn deeply_nested_file_is_found() {
    let tree = vec![folder(
        "a",
        &[],
        vec![folder("b", &[], vec![folder("c", &["deep.flac"], Vec::new())])],
    )];
    let deep = collect_deep_files(&tree);
    assert_eq!(deep, vec![found(&["a", "b", "c"], "deep.flac")]);
}

#[test]
fn flat_directory_plans_nothing() {
    let flat: Vec<Folder> = Vec::new();
    let exts = vec!["flac".to_string()];
    let plan = extract_plan(&flat, &exts).unwrap();
    assert!(plan.copies.is_empty());
    assert!(plan.remove.is_empty());
    // A second run over the still-flat directory plans nothing again.
    let plan = extract_plan(&flat, &exts).unwrap();
    assert!(plan.copies.is_empty());
    assert!(plan.remove.is_empty());
}

#[test]
fn extracts_album_track_and_removes_album() {
    let tree = vec![folder("Album", &["01.flac"], Vec::new())];
    let exts = vec!["flac".to_string()];
    let plan = extract_plan(&tree, &exts).unwrap();
    assert_eq!(plan.copies, vec![found(&["Album"], "01.flac")]);
    assert_eq!(plan.remove, vec!["Album".to_string()]);
}

#[test]
fn extension_filter_is_exact_and_case_sensitive() {
    let tree = vec![folder(
        "Album",
        &["01.flac", "02.FLAC", "cover.jpg", "notes", "03.mp3"],
        Vec::new(),
    )];
    let exts = vec!["flac".to_string(), "mp3".to_string()];
    let plan = extract_plan(&tree, &exts).unwrap();
    assert_eq!(
        plan.copies,
        vec![found(&["Album"], "01.flac"), found(&["Album"], "03.mp3")]
    );
}

#[test]
fn hidden_folder_is_never_removed() {
    let tree = vec![
        folder(".hidden", &["secret.flac"], Vec::new()),
        folder("Keep", &["song.flac"], Vec::new()),
    ];
    let exts = vec!["flac".to_string()];
    let plan = extract_plan(&tree, &exts).unwrap();
    assert_eq!(plan.remove, vec!["Keep".to_string()]);
    // Files inside the hidden folder are still collected and copied.
    assert_eq!(
        plan.copies,
        vec![found(&[".hidden"], "secret.flac"), found(&["Keep"], "song.flac")]
    );
}

#[test]
fn empty_extension_set_is_refused() {
    let tree = vec![folder("Album", &["01.flac"], Vec::new())];
    let err = extract_plan(&tree, &Vec::new()).unwrap_err();
    assert_eq!(err, ExtractError::NoExtensions);
    assert_eq!(err.message(), "No file extensions given!");
}
