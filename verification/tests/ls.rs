use cliutils::ls::{format_mode, mk_triple, Owner};

#[test]
fn lib_test_format_mode() {
    assert_eq!(format_mode(0o755), "rwxr-xr-x");
    assert_eq!(format_mode(0o421), "r---w---x");
}

#[test]
fn lib_test_mk_triple() {
    assert_eq!(mk_triple(0o751, Owner::User), "rwx");
    assert_eq!(mk_triple(0o751, Owner::Group), "r-x");
    assert_eq!(mk_triple(0o751, Owner::Other), "--x");
    assert_eq!(mk_triple(0o600, Owner::Other), "---");
}

#[test]
fn masks_by_owner() {
    assert_eq!(Owner::User.masks(), [0o400, 0o200, 0o100]);
    assert_eq!(Owner::Group.masks(), [0o040, 0o020, 0o010]);
    assert_eq!(Owner::Other.masks(), [0o004, 0o002, 0o001]);
}

#[test]
fn format_mode_ignores_higher_bits() {
    assert_eq!(format_mode(0o100644), "rw-r--r--");
    assert_eq!(format_mode(0o40755), "rwxr-xr-x");
}

fn entry(path: &str, is_dir: bool, mode: u32, len: u64) -> cliutils::ls::LongEntry {
    cliutils::ls::LongEntry {
        is_dir,
        mode,
        nlink: 1,
        user: "kyclark".to_string(),
        group: "staff".to_string(),
        len,
        modified: "Oct 27 20 16:43".to_string(),
        path: path.to_string(),
    }
}

fn long_match(line: &str, permissions: &str, size: &str, path: &str) {
    let parts: Vec<_> = line.split_whitespace().collect();

    if let Some(&file_perm) = parts.get(0) {
        assert_eq!(file_perm, permissions);
    }
    if let Some(&file_size) = parts.get(4) {
        assert_eq!(file_size, size);
    }
    if let Some(&file_path) = parts.last() {
        assert_eq!(file_path, path);
    }
}

#[test]
fn test_format_output_one() {
    let bustle_path = "tests/inputs/bustle.txt";
    let bustle = entry(bustle_path, false, 0o100644, 193);

    let res = cliutils::ls::format_output(&vec![bustle]);
    assert!(res.is_some());

    let out = res.unwrap();
    let lines: Vec<&str> = out.split("\n").filter(|s| !s.is_empty()).collect();
    assert_eq!(lines.len(), 1);

    let line1 = lines.first().unwrap();
    long_match(&line1, "-rw-r--r--", "193", bustle_path);
}

#[test]
fn test_format_output_two() {
    let res = cliutils::ls::format_output(&vec![
        entry("tests/inputs/dir", true, 0o40755, 128),
        entry("tests/inputs/empty.txt", false, 0o100644, 0),
    ]);
    assert!(res.is_some());

    let out = res.unwrap();
    let mut lines: Vec<&str> = out.split("\n").filter(|s| !s.is_empty()).collect();
    lines.sort();
    assert_eq!(lines.len(), 2);

    let empty_line = lines.remove(0);
    long_match(&empty_line, "-rw-r--r--", "0", "tests/inputs/empty.txt");

    let dir_line = lines.remove(0);
    long_match(&dir_line, "drwxr-xr-x", "128", "tests/inputs/dir");
}

#[test]
fn the_table_lines_its_columns_up() {
    let mut wide = entry("b", true, 0o755, 12345);
    wide.nlink = 12;
    wide.user = "root".to_string();
    let out = cliutils::ls::format_output(&vec![entry("a", false, 0o644, 7), wide]).unwrap();
    assert_eq!(
        out,
        "-rw-r--r--  1 kyclark staff     7 Oct 27 20 16:43 a\n\
         drwxr-xr-x 12 root    staff 12345 Oct 27 20 16:43 b\n"
    );
    assert_eq!(cliutils::ls::format_output(&Vec::new()).unwrap(), "");
}

#[test]
fn one_line_of_a_long_listing() {
    let e = entry("tests/inputs/fox.txt", false, 0o600, 45);
    assert_eq!(cliutils::ls::format_line(&e, false), "tests/inputs/fox.txt");
    assert_eq!(
        cliutils::ls::format_line(&e, true),
        "-rw-------  1 kyclark  staff          45 Oct 27 20 16:43 tests/inputs/fox.txt"
    );
    let mut long = entry("d", true, 0o755, 123456789);
    long.user = "averylongname".to_string();
    long.group = "agroupwithalongname".to_string();
    long.nlink = 123;
    assert_eq!(
        cliutils::ls::format_line(&long, true),
        "drwxr-xr-x 123 averylon agroupwithalongname 123456789 Oct 27 20 16:43 d"
    );
}

#[test]
fn hidden_files_and_owners() {
    assert!(cliutils::ls::lists("fox.txt", false));
    assert!(!cliutils::ls::lists(".hidden", false));
    assert!(cliutils::ls::lists(".hidden", true));
    assert!(cliutils::ls::lists("", false));
    assert!(cliutils::ls::lists("a.b", false));
    assert_eq!(cliutils::ls::owner_name(Some("root".to_string()), 0), "root");
    assert_eq!(cliutils::ls::owner_name(None, 0), "0");
    assert_eq!(cliutils::ls::owner_name(None, 4294967295), "4294967295");
}
