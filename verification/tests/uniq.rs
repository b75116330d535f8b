use cliutils::uniq::{format_result, uniq};

fn lines(text: &str) -> Vec<String> {
    text.split_inclusive('\n').map(|l| l.to_string()).collect()
}

fn groups(text: &str) -> Vec<(usize, String)> {
    uniq(&lines(text)).into_iter().map(|g| (g.count, g.line)).collect()
}

#[test]
fn folds_runs_of_equal_lines() {
    assert_eq!(groups("a\n"), vec![(1, "a\n".to_string())]);
    assert_eq!(groups("a\na\n"), vec![(2, "a\n".to_string())]);
    assert_eq!(
        groups("a\na\nb\na\n"),
        vec![(2, "a\n".to_string()), (1, "b\n".to_string()), (1, "a\n".to_string())]
    );
    assert_eq!(groups(""), vec![]);
}

#[test]
fn compares_lines_without_the_white_space_at_their_ends() {
    // the last line has no newline and still belongs to the run
    assert_eq!(groups("a\na"), vec![(2, "a\n".to_string())]);
    assert_eq!(groups("a \r\n  a\nA\n"), vec![(2, "a \r\n".to_string()), (1, "A\n".to_string())]);
    assert_eq!(groups("a\n\n\nb\n"), vec![
        (1, "a\n".to_string()),
        (2, "\n".to_string()),
        (1, "b\n".to_string())
    ]);
}

#[test]
fn blank_lines_at_the_head_belong_to_no_run() {
    assert_eq!(groups("\n\n"), vec![]);
    assert_eq!(groups("\n \na\n"), vec![(1, "a\n".to_string())]);
}

#[test]
fn formats_a_group() {
    assert_eq!(format_result(false, 3, "a\n"), "a\n");
    assert_eq!(format_result(true, 3, "a\n"), "   3 a\n");
    assert_eq!(format_result(true, 12345, "a"), "12345 a");
    assert_eq!(format_result(true, 1, ""), "   1 ");
}
