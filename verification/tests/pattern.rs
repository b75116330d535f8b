use cliutils::find::{matches_name, matches_type, parse_entry_type, selects, Entry, EntryType};
use cliutils::pattern::{matches_any, Pattern};

fn entry(name: &str, is_dir: bool, is_file: bool, is_symlink: bool) -> Entry {
    Entry { file_name: name.to_string(), is_dir, is_file, is_symlink }
}

#[test]
fn patterns_compile_or_say_why_not() {
    assert!(Pattern::parse("^a.c$", false, "pattern").is_ok());
    let err = Pattern::parse("*foo", false, "pattern").err().unwrap();
    assert_eq!(err, "Invalid pattern \"*foo\"");
    let err = Pattern::parse("(", true, "--pattern").err().unwrap();
    assert_eq!(err, "Invalid --pattern \"(\"");
    let err = Pattern::parse("[", false, "--name").err().unwrap();
    assert_eq!(err, "Invalid --name \"[\"");
}

#[test]
fn patterns_match_anywhere_in_the_text() {
    let p = Pattern::parse("b+", false, "pattern").ok().unwrap();
    assert!(p.is_match("aabbcc"));
    assert!(!p.is_match("aacc"));
    assert!(!p.is_match("aaBBcc"));
    let q = Pattern::parse("b+", true, "pattern").ok().unwrap();
    assert!(q.is_match("aaBBcc"));
    let anchored = Pattern::parse("^b", false, "pattern").ok().unwrap();
    assert!(!anchored.is_match("ab"));
    assert!(anchored.is_match("ba"));
    let empty = Pattern::parse("", false, "pattern").ok().unwrap();
    assert!(empty.is_match(""));
}

#[test]
fn any_of_several_patterns() {
    let ps = vec![
        Pattern::parse(r"\.txt$", false, "--name").ok().unwrap(),
        Pattern::parse(r"^g", false, "--name").ok().unwrap(),
    ];
    assert!(matches_any(&ps, "a.txt"));
    assert!(matches_any(&ps, "g.csv"));
    assert!(!matches_any(&ps, "a.csv"));
    assert!(!matches_any(&Vec::new(), "a.csv"));
}

#[test]
fn entry_types_from_letters() {
    assert_eq!(parse_entry_type("d"), Some(EntryType::Dir));
    assert_eq!(parse_entry_type("f"), Some(EntryType::File));
    assert_eq!(parse_entry_type("l"), Some(EntryType::Link));
    for other in ["", "x", "dd", "D", "file", "é"] {
        assert_eq!(parse_entry_type(other), None);
    }
}

#[test]
fn entries_by_type() {
    let dir = entry("d", true, false, false);
    let file = entry("f.txt", false, true, false);
    let link = entry("l", false, false, true);
    assert!(matches_type(&None, &dir));
    assert!(matches_type(&Some(vec![EntryType::Dir]), &dir));
    assert!(!matches_type(&Some(vec![EntryType::Dir]), &file));
    assert!(matches_type(&Some(vec![EntryType::Dir, EntryType::File]), &file));
    assert!(matches_type(&Some(vec![EntryType::Link]), &link));
    assert!(!matches_type(&Some(vec![EntryType::File, EntryType::Dir]), &link));
    assert!(!matches_type(&Some(vec![]), &file));
}

#[test]
fn entries_by_name() {
    let file = entry("f.txt", false, true, false);
    let names = Some(vec![Pattern::parse(r".*\.csv", false, "--name").ok().unwrap()]);
    assert!(matches_name(&None, &file));
    assert!(!matches_name(&names, &file));
    assert!(matches_name(&names, &entry("g.csv", false, true, false)));
    assert!(selects(&Some(vec![EntryType::File]), &names, &entry("g.csv", false, true, false)));
    assert!(!selects(&Some(vec![EntryType::Dir]), &names, &entry("g.csv", false, true, false)));
    assert!(!selects(&Some(vec![EntryType::File]), &names, &file));
    assert!(selects(&None, &None, &file));
}
