use cliutils::head::{first_bytes, first_lines, header, parse_int, parse_positive_int};

#[test]
fn test_parse_int() {
    // 3 is an OK integer
    let res2 = parse_int("3");
    assert!(res2.is_ok());
    assert_eq!(res2.unwrap(), 3);
    // Any string is an error
    let res3 = parse_int("foo");
    assert!(res3.is_err());
    if let Err(e) = res3 {
        assert_eq!(e.to_string(), "foo".to_string());
    }
    // A zero is an error
    let res4 = parse_int("0");
    assert!(res4.is_err());
    if let Err(e) = res4 {
        assert_eq!(e.to_string(), "0".to_string());
    }
}

#[test]
fn test_parse_positive_int() {
    // 3 is an OK integer
    let res = parse_positive_int("3");
    assert!(res.is_ok());
    assert_eq!(res.unwrap(), 3);

    // Any string is an error
    let res = parse_positive_int("foo");
    assert!(res.is_err());
    assert_eq!(res.unwrap_err().to_string(), "foo".to_string());

    // A zero is an error
    let res = parse_positive_int("0");
    assert!(res.is_err());
    assert_eq!(res.unwrap_err().to_string(), "0".to_string());
}

#[test]
fn counts_with_and_without_white_space() {
    assert_eq!(parse_int(" 12\t").unwrap(), 12);
    assert_eq!(parse_int("\u{3000}12\u{a0}").unwrap(), 12);
    assert_eq!(parse_int(" 0 ").unwrap_err(), " 0 ");
    assert_eq!(parse_int("1 2").unwrap_err(), "1 2");
    assert_eq!(parse_positive_int(" 12").unwrap_err(), " 12");
    assert_eq!(parse_positive_int("+12").unwrap(), 12);
    assert_eq!(parse_positive_int("-12").unwrap_err(), "-12");
    assert_eq!(parse_positive_int("").unwrap_err(), "");
    assert_eq!(parse_positive_int(&usize::MAX.to_string()).unwrap(), usize::MAX);
    assert!(parse_positive_int("340282366920938463463374607431768211456").is_err());
    assert_eq!(parse_positive_int("000").unwrap_err(), "000");
    assert_eq!(parse_positive_int("007").unwrap(), 7);
}

#[test]
fn first_lines_and_bytes() {
    let data = b"one\ntwo\nthree";
    assert_eq!(first_lines(data, 0), b"");
    assert_eq!(first_lines(data, 1), b"one\n");
    assert_eq!(first_lines(data, 2), b"one\ntwo\n");
    assert_eq!(first_lines(data, 3), data);
    assert_eq!(first_lines(data, 10), data);
    assert_eq!(first_bytes(data, 0), b"");
    assert_eq!(first_bytes(data, 5), b"one\nt");
    assert_eq!(first_bytes(data, 13), data);
    assert_eq!(first_bytes(data, 100), data);
}

#[test]
fn headers_between_files() {
    assert_eq!(header(0, "a.txt"), "==> a.txt <==");
    assert_eq!(header(1, "b.txt"), "\n==> b.txt <==");
    assert_eq!(header(7, ""), "\n==>  <==");
}
