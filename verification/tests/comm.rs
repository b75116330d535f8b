use cliutils::comm::{check_files, comm, fold_case, format_col, Cols};

fn lines(items: &[&str]) -> Vec<String> {
    items.iter().map(|s| s.to_string()).collect()
}

fn show(cols: &[Cols]) -> Vec<String> {
    cols.iter()
        .map(|c| match c {
            Cols::Col1(s) => format!("1:{}", s),
            Cols::Col2(s) => format!("2:{}", s),
            Cols::Col3(s) => format!("3:{}", s),
        })
        .collect()
}

#[test]
fn merges_two_sorted_files() {
    let out = comm(&lines(&["a", "b", "c"]), &lines(&["B", "a", "b"]));
    assert_eq!(show(&out), vec!["2:B", "3:a", "3:b", "1:c"]);
    let out = comm(&lines(&["a", "c"]), &lines(&[]));
    assert_eq!(show(&out), vec!["1:a", "1:c"]);
    let out = comm(&lines(&[]), &lines(&["a", "c"]));
    assert_eq!(show(&out), vec!["2:a", "2:c"]);
    assert!(comm(&lines(&[]), &lines(&[])).is_empty());
}

#[test]
fn orders_lines_as_strings_are_ordered() {
    for (a, b) in [("a", "ab"), ("", "a"), ("Z", "a"), ("é", "z"), ("z", "é"), ("a\u{10000}", "a\u{ffff}")] {
        let out = comm(&lines(&[a]), &lines(&[b]));
        let want = if a < b {
            vec![format!("1:{}", a), format!("2:{}", b)]
        } else {
            vec![format!("2:{}", b), format!("1:{}", a)]
        };
        assert_eq!(show(&out), want);
    }
}

#[test]
fn folds_case_where_asked() {
    let given = lines(&["Alpha", "BETA", "ÉTÉ"]);
    assert_eq!(fold_case(given.clone(), false), given);
    // a wrapper that handed the line back would keep the capitals
    assert_eq!(fold_case(given, true), lines(&["alpha", "beta", "été"]));
    let out = comm(&fold_case(lines(&["A", "b"]), true), &fold_case(lines(&["a", "B"]), true));
    assert_eq!(show(&out), vec!["3:a", "3:b"]);
}

#[test]
fn shows_columns_behind_tabs() {
    let one = Cols::Col1("x".to_string());
    let two = Cols::Col2("x".to_string());
    let three = Cols::Col3("x".to_string());
    assert_eq!(format_col(&one, false, false, false), Some("x".to_string()));
    assert_eq!(format_col(&two, false, false, false), Some("\tx".to_string()));
    assert_eq!(format_col(&three, false, false, false), Some("\t\tx".to_string()));
    assert_eq!(format_col(&one, true, false, false), None);
    assert_eq!(format_col(&two, true, false, false), Some("x".to_string()));
    assert_eq!(format_col(&three, true, false, false), Some("\tx".to_string()));
    assert_eq!(format_col(&two, false, true, false), None);
    assert_eq!(format_col(&three, false, true, false), Some("\tx".to_string()));
    assert_eq!(format_col(&three, true, true, false), Some("x".to_string()));
    assert_eq!(format_col(&three, false, false, true), None);
}

#[test]
fn refuses_two_standard_inputs() {
    assert_eq!(check_files("-", "-").unwrap_err(), "Both input files cannot be STDIN (\"-\")");
    assert!(check_files("-", "a").is_ok());
    assert!(check_files("a", "-").is_ok());
    assert!(check_files("a", "a").is_ok());
}
