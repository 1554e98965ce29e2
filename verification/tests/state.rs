use std::collections::BTreeMap;

use nd_organizer::state::{fnv1a64, rollback_record, takes_place, ApplyRecord, FileRename, UndoStep};

type Files = BTreeMap<String, Vec<u8>>;

fn stands(files: &Files, path: &str) -> bool {
    let beneath = format!("{path}/");
    files.keys().any(|k| k == path || k.starts_with(&beneath))
}

fn rename(files: &mut Files, from: &str, to: &str) {
    let beneath = format!("{from}/");
    let moved: Vec<String> =
        files.keys().filter(|k| *k == from || k.starts_with(&beneath)).cloned().collect();
    for key in moved {
        let content = files.remove(&key).unwrap();
        files.insert(format!("{to}{}", &key[from.len()..]), content);
    }
}

fn undo(files: &mut Files, steps: &[UndoStep]) {
    for step in steps {
        let (from, to) = match step {
            UndoStep::RenameFile { dir, from, to } => {
                (format!("{dir}/{from}"), format!("{dir}/{to}"))
            }
            UndoStep::MoveFolder { from, to } => (from.clone(), to.clone()),
            UndoStep::WriteNfo { path, content } => {
                files.insert(path.clone(), content.clone());
                continue;
            }
        };
        if takes_place(stands(files, &from), stands(files, &to)) {
            rename(files, &from, &to);
        }
    }
}

#[test]
fn fnv1a64_is_stable() {
    assert_eq!(
        fnv1a64("musicbrainz|Pink Floyd|The Wall"),
        fnv1a64("musicbrainz|Pink Floyd|The Wall")
    );
    assert_ne!(fnv1a64("a"), fnv1a64("b"));
}

#[test]
fn rollback_restores_files_nfo_and_folder() {
    let rec = ApplyRecord {
        seq: 1,
        ts: 0,
        run_id: "run-1".into(),
        library_id: 1,
        from_dir: "Album".into(),
        to_dir: "Artist/Album (2020)".into(),
        file_renames: vec![FileRename { from: "01 - Old.flac".into(), to: "01 - New.flac".into() }],
        dir_sidecars: vec!["album.nfo".into()],
        nfo_written: Some("Artist/Album (2020)/album.nfo".into()),
        nfo_backup: Some("backup:run-1:1".into()),
    };
    let mut files = Files::new();
    files.insert("Artist/Album (2020)/01 - New.flac".into(), b"audio".to_vec());
    files.insert("Artist/Album (2020)/album.nfo".into(), b"<album>NEW</album>".to_vec());

    let steps = rollback_record(&rec, Some(b"<album>ORIGINAL</album>".to_vec()));
    undo(&mut files, &steps);

    assert!(files.contains_key("Album/01 - Old.flac"), "file renamed back");
    assert_eq!(files["Album/album.nfo"], b"<album>ORIGINAL</album>".to_vec());
    assert!(!stands(&files, "Artist/Album (2020)"), "target dir moved back");
}

#[test]
fn rollback_is_idempotent_when_already_undone() {
    let rec = ApplyRecord {
        seq: 1,
        ts: 0,
        run_id: "run-1".into(),
        library_id: 1,
        from_dir: "Album".into(),
        to_dir: "Album (2020)".into(),
        file_renames: vec![FileRename { from: "a.flac".into(), to: "b.flac".into() }],
        dir_sidecars: vec![],
        nfo_written: None,
        nfo_backup: None,
    };
    let mut files = Files::new();
    files.insert("Album/a.flac".into(), b"x".to_vec());
    undo(&mut files, &rollback_record(&rec, None));
    assert!(files.contains_key("Album/a.flac"));
}

#[test]
fn the_hash_is_fnv_1a() {
    assert_eq!(fnv1a64(""), 0xcbf2_9ce4_8422_2325);
    assert_eq!(fnv1a64("a"), 0xaf63_dc4c_8601_ec8c);
    assert_eq!(fnv1a64("foobar"), 0x8594_4171_f739_67e8);
}
