use dotfiledesk_core::diff::{diff_file_maps, maps_differ, trim_newlines_exec, DiffResult, FileChangeKind, LineTag};
use dotfiledesk_core::filemap::{changed_files, FileMap};

fn map(files: &[(&str, &[u8])]) -> FileMap {
    let mut m = FileMap::new();
    for (p, c) in files {
        m.insert(p.to_string(), c.to_vec());
    }
    m
}

#[test]
fn identical_states_show_no_change() {
    let a = map(&[("init.lua", b"-- init\n"), ("lua/plugins.lua", b"-- plugins\n")]);
    let b = map(&[("lua/plugins.lua", b"-- plugins\n"), ("init.lua", b"-- init\n")]);
    assert!(diff_file_maps(&a, &b).files.is_empty());
    assert!(!maps_differ(&a, &b));
}

#[test]
fn added_modified_and_deleted_files_in_path_order() {
    let old = map(&[("b.conf", b"b\n"), ("c.conf", b"c\n")]);
    let new = map(&[("a.conf", b"a\n"), ("b.conf", b"b changed\n")]);
    let d = diff_file_maps(&old, &new);
    assert!(maps_differ(&old, &new));
    assert_eq!(d.files.len(), 3);
    assert_eq!(d.files[0].path, "a.conf");
    assert_eq!(d.files[0].change, FileChangeKind::Added);
    assert_eq!(d.files[1].path, "b.conf");
    assert_eq!(d.files[1].change, FileChangeKind::Modified);
    assert_eq!(d.files[2].path, "c.conf");
    assert_eq!(d.files[2].change, FileChangeKind::Deleted);
    assert!(d.files.iter().all(|f| !f.binary));
}

#[test]
fn line_level_changes_without_line_breaks() {
    let old = map(&[("myrc", b"line one\n")]);
    let new = map(&[("myrc", b"line one\nline two\n")]);
    let d = diff_file_maps(&old, &new);
    assert_eq!(d.files.len(), 1);
    let lines = &d.files[0].lines;
    assert_eq!(lines.len(), 2);
    assert_eq!(lines[0].tag, LineTag::Context);
    assert_eq!(lines[0].content, "line one");
    assert_eq!(lines[1].tag, LineTag::Added);
    assert_eq!(lines[1].content, "line two");
}

#[test]
fn removed_lines_are_tagged() {
    let old = map(&[("f", b"a\nb\nc\n")]);
    let new = map(&[("f", b"a\nc\n")]);
    let d = diff_file_maps(&old, &new);
    let tags: Vec<LineTag> = d.files[0].lines.iter().map(|l| l.tag).collect();
    assert_eq!(tags, vec![LineTag::Context, LineTag::Removed, LineTag::Context]);
    assert_eq!(d.files[0].lines[1].content, "b");
}

#[test]
fn binary_files_have_no_lines() {
    let old = map(&[("blob", &[0xff, 0xfe, 0x00])]);
    let new = map(&[("blob", &[0xff, 0xfe, 0x01])]);
    let d = diff_file_maps(&old, &new);
    assert_eq!(d.files.len(), 1);
    assert!(d.files[0].binary);
    assert!(d.files[0].lines.is_empty());
}

#[test]
fn a_first_snapshot_diffs_as_all_added() {
    let new = map(&[("x", b"1\n"), ("y", b"2\n")]);
    let d = diff_file_maps(&FileMap::new(), &new);
    assert_eq!(d.files.len(), 2);
    assert!(d.files.iter().all(|f| f.change == FileChangeKind::Added));
    assert_eq!(d.files[1].lines[0].tag, LineTag::Added);
}

#[test]
fn file_map_insert_replaces_and_keeps_path_order() {
    let mut m = map(&[("b", b"1"), ("a", b"2")]);
    m.insert("b".to_string(), b"3".to_vec());
    assert_eq!(m.len(), 2);
    assert_eq!(m.entry(0).path, "a");
    assert_eq!(m.entry(1).path, "b");
    assert_eq!(m.entry(1).content, b"3".to_vec());
}

#[test]
fn changed_files_lists_both_sides() {
    let old = map(&[("k", b"old")]);
    let new = map(&[("k", b"new"), ("n", b"added")]);
    let c = changed_files(&old, &new);
    assert_eq!(c.len(), 2);
    assert_eq!(c[0].path, "k");
    assert_eq!(c[0].old, Some(b"old".to_vec()));
    assert_eq!(c[1].old, None);
    assert_eq!(c[1].new, Some(b"added".to_vec()));
}

#[test]
fn trailing_line_breaks_are_trimmed() {
    assert_eq!(trim_newlines_exec(&"x\n\n".to_string()), "x");
    assert_eq!(trim_newlines_exec(&"x\r\n".to_string()), "x\r");
    assert_eq!(trim_newlines_exec(&"\n".to_string()), "");
}

#[test]
fn default_diff_is_empty() {
    assert!(DiffResult::default().files.is_empty());
}
