use cliutils::fortune::parse_u64;

#[test]
fn test_parse_u64() {
    let res = parse_u64("a");
    assert!(res.is_err());
    assert_eq!(res.unwrap_err().to_string(), "\"a\" not a valid integer");
    let res = parse_u64("0");
    assert!(res.is_ok());
    assert_eq!(res.unwrap(), 0);
    let res = parse_u64("4");
    assert!(res.is_ok());
    assert_eq!(res.unwrap(), 4);
}

#[test]
fn lib_test_parse_u64() {
    let res = parse_u64("a");
    assert!(res.is_err());
    assert_eq!(res.unwrap_err().to_string(), "\"a\" not a valid integer");
    let res = parse_u64("0");
    assert!(res.is_ok());
    assert_eq!(res.unwrap(), 0);
    let res = parse_u64("4");
    assert!(res.is_ok());
    assert_eq!(res.unwrap(), 4);
}

#[test]
fn seeds_at_the_edges() {
    assert_eq!(parse_u64("18446744073709551615").unwrap(), u64::MAX);
    assert_eq!(
        parse_u64("18446744073709551616").unwrap_err(),
        "\"18446744073709551616\" not a valid integer"
    );
    assert_eq!(parse_u64("+1").unwrap(), 1);
    assert_eq!(parse_u64("-1").unwrap_err(), "\"-1\" not a valid integer");
    assert_eq!(parse_u64("").unwrap_err(), "\"\" not a valid integer");
    assert_eq!(parse_u64(" 1").unwrap_err(), "\" 1\" not a valid integer");
}

fn file(source: &str, text: &str) -> cliutils::fortune::FortuneFile {
    cliutils::fortune::FortuneFile {
        source: source.to_string(),
        lines: text.split_inclusive('\n').map(|l| l.to_string()).collect(),
    }
}

const JOKES: &str = "Q. What do you call a head of lettuce in a shirt and tie?\n\
A. Collared greens.\n\
%\n\
Q: Why did the gardener quit his job?\n\
A: His celery wasn't high enough.\n\
%\n\
Q. Why did the honeydew couple get married in a church?\n\
A. Their parents told them they cantaloupe.\n\
%\n";

#[test]
fn reads_fortunes_between_separators() {
    let files = vec![file("jokes", JOKES)];
    let fortunes = cliutils::fortune::read_fortunes(&files, &None);
    assert_eq!(fortunes.len(), 3);
    assert_eq!(
        fortunes[0].text,
        "Q. What do you call a head of lettuce in a shirt and tie?\nA. Collared greens."
    );
    assert_eq!(
        fortunes[2].text,
        "Q. Why did the honeydew couple get married in a church?\n\
         A. Their parents told them they cantaloupe."
    );
    assert!(fortunes.iter().all(|f| f.source == "jokes"));
}

#[test]
fn keeps_the_fortunes_that_match() {
    let files = vec![file("jokes", JOKES), file("quotes", "  It ain't over till it's over.\r\n-- Yogi Berra \n % \nleft over\n")];
    let pattern = cliutils::pattern::Pattern::parse("Yogi Berra", false, "--pattern").ok();
    let fortunes = cliutils::fortune::read_fortunes(&files, &pattern);
    assert_eq!(fortunes.len(), 1);
    assert_eq!(fortunes[0].source, "quotes");
    assert_eq!(fortunes[0].text, "It ain't over till it's over.\n-- Yogi Berra");
    let pattern = cliutils::pattern::Pattern::parse("^q", true, "--pattern").ok();
    assert_eq!(cliutils::fortune::read_fortunes(&files, &pattern).len(), 3);
    let pattern = cliutils::pattern::Pattern::parse("^q", false, "--pattern").ok();
    assert_eq!(cliutils::fortune::read_fortunes(&files, &pattern).len(), 0);
}

#[test]
fn fortunes_at_the_edges() {
    let none = cliutils::fortune::read_fortunes(&vec![file("empty", "")], &None);
    assert!(none.is_empty());
    let unfinished = cliutils::fortune::read_fortunes(&vec![file("f", "no separator\n")], &None);
    assert!(unfinished.is_empty());
    let blank = cliutils::fortune::read_fortunes(&vec![file("f", "%\n\n%\na\n\nb\n%")], &None);
    let texts: Vec<&str> = blank.iter().map(|f| f.text.as_str()).collect();
    assert_eq!(texts, vec!["", "", "a\n\nb"]);
    let mut all = Vec::new();
    cliutils::fortune::add_fortunes(&mut all, "one", &vec!["x\n".to_string(), "%\n".to_string()], &None);
    cliutils::fortune::add_fortunes(&mut all, "two", &vec!["y\n".to_string(), "%%\n".to_string(), "%\n".to_string()], &None);
    assert_eq!(all.len(), 2);
    assert_eq!((all[1].source.as_str(), all[1].text.as_str()), ("two", "y\n%%"));
    assert!(cliutils::fortune::is_wanted(&None, "anything"));
}
