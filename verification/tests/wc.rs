use cliutils::wc::{count, format_counts, FileInfo};

#[test]
fn test_count() {
    let text = "I don't want the world. I just want your half.\r\n";
    let info = count(text);
    let expected = FileInfo {
        num_lines: 1,
        num_words: 10,
        num_chars: 48,
        num_bytes: 48,
    };
    assert_eq!(info, expected);
}

#[test]
fn counts_at_the_edges() {
    assert_eq!(count(""), FileInfo { num_lines: 0, num_words: 0, num_bytes: 0, num_chars: 0 });
    assert_eq!(count("\n"), FileInfo { num_lines: 1, num_words: 0, num_bytes: 1, num_chars: 1 });
    assert_eq!(count("a"), FileInfo { num_lines: 1, num_words: 1, num_bytes: 1, num_chars: 1 });
    assert_eq!(
        count("Öne line, four wordś.\n"),
        FileInfo { num_lines: 1, num_words: 4, num_bytes: 24, num_chars: 22 }
    );
    assert_eq!(
        count("  two\u{3000}words\t\n\n and\u{a0}more"),
        FileInfo { num_lines: 3, num_words: 4, num_bytes: 26, num_chars: 23 }
    );
}

#[test]
fn counts_in_columns_of_eight() {
    let info = FileInfo { num_lines: 1, num_words: 10, num_bytes: 48, num_chars: 48 };
    assert_eq!(format_counts(&info, "fox.txt"), "       1      10      48 fox.txt");
    let big = FileInfo { num_lines: 123456789, num_words: 0, num_bytes: 12345678, num_chars: 1 };
    assert_eq!(format_counts(&big, ""), "123456789       012345678 ");
}

#[test]
fn counts_shown_by_default() {
    let choose = cliutils::wc::choose_counts;
    assert_eq!(choose(false, false, false, false), (true, true, true, false));
    assert_eq!(choose(true, false, false, false), (true, false, false, false));
    assert_eq!(choose(false, false, false, true), (false, false, false, true));
    assert_eq!(choose(false, true, true, false), (false, true, true, false));
}
