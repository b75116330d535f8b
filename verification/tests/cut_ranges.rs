use cliutils::cut_ranges::{parse_index, parse_pos, Extract};

#[test]
fn lib_test_parse_pos() {
    // The empty string is an error
    assert!(parse_pos("").is_err());
    // Zero is an error
    let res = parse_pos("0");
    assert!(res.is_err());
    assert_eq!(res.unwrap_err().to_string(), "illegal list value: \"0\"",);
    let res = parse_pos("0-1");
    assert!(res.is_err());
    assert_eq!(res.unwrap_err().to_string(), "illegal list value: \"0\"",);
    // A leading "+" is an error
    let res = parse_pos("+1");
    assert!(res.is_err());
    assert_eq!(res.unwrap_err().to_string(), "illegal list value: \"+1\"",);
    let res = parse_pos("+1-2");
    assert!(res.is_err());
    assert_eq!(res.unwrap_err().to_string(), "illegal list value: \"+1-2\"",);
    let res = parse_pos("1-+2");
    assert!(res.is_err());
    assert_eq!(res.unwrap_err().to_string(), "illegal list value: \"1-+2\"",);
    // Any non-number is an error
    let res = parse_pos("a");
    assert!(res.is_err());
    assert_eq!(res.unwrap_err().to_string(), "illegal list value: \"a\"",);
    let res = parse_pos("1,a");
    assert!(res.is_err());
    assert_eq!(res.unwrap_err().to_string(), "illegal list value: \"a\"",);
    let res = parse_pos("1-a");
    assert!(res.is_err());
    assert_eq!(res.unwrap_err().to_string(), "illegal list value: \"1-a\"",);
    let res = parse_pos("a-1");
    assert!(res.is_err());
    assert_eq!(res.unwrap_err().to_string(), "illegal list value: \"a-1\"",);
    // Wonky ranges
    let res = parse_pos("-");
    assert!(res.is_err());
    let res = parse_pos(",");
    assert!(res.is_err());
    let res = parse_pos("1,");
    assert!(res.is_err());
    let res = parse_pos("1-");
    assert!(res.is_err());
    let res = parse_pos("1-1-1");
    assert!(res.is_err());
    let res = parse_pos("1-1-a");
    assert!(res.is_err());
    // First number must be less than second

    let res = parse_pos("1-1");
    assert!(res.is_err());
    assert_eq!(
        res.unwrap_err().to_string(),
        "First number in range (1) must be lower than second number (1)"
    );
    let res = parse_pos("2-1");
    assert!(res.is_err());
    assert_eq!(
        res.unwrap_err().to_string(),
        "First number in range (2) must be lower than second number (1)"
    );
    // All the following are acceptable
    let res = parse_pos("1");
    assert!(res.is_ok());
    assert_eq!(res.unwrap(), vec![0..1]);
    let res = parse_pos("01");
    assert!(res.is_ok());
    assert_eq!(res.unwrap(), vec![0..1]);
    let res = parse_pos("1,3");
    assert!(res.is_ok());
    assert_eq!(res.unwrap(), vec![0..1, 2..3]);
    let res = parse_pos("001,0003");
    assert!(res.is_ok());
    assert_eq!(res.unwrap(), vec![0..1, 2..3]);
    let res = parse_pos("1-3");
    assert!(res.is_ok());
    assert_eq!(res.unwrap(), vec![0..3]);
    let res = parse_pos("0001-03");
    assert!(res.is_ok());
    assert_eq!(res.unwrap(), vec![0..3]);
    let res = parse_pos("1,7,3-5");
    assert!(res.is_ok());
    assert_eq!(res.unwrap(), vec![0..1, 6..7, 2..5]);
    let res = parse_pos("15,19-20");
    assert!(res.is_ok());
    assert_eq!(res.unwrap(), vec![14..15, 18..20]);
}

#[test]
fn indexes_count_from_one() {
    assert_eq!(parse_index("1").unwrap(), 0);
    assert_eq!(parse_index("0010").unwrap(), 9);
    assert_eq!(parse_index(&usize::MAX.to_string()).unwrap(), usize::MAX - 1);
    for bad in ["0", "+1", "-1", "", "a", "1a", " 1", "99999999999999999999999"] {
        assert_eq!(parse_index(bad).unwrap_err(), format!("illegal list value: \"{}\"", bad));
    }
}

#[test]
fn ranges_at_the_edges() {
    assert_eq!(parse_pos("1-0").unwrap_err(), "illegal list value: \"0\"");
    assert_eq!(parse_pos("1-1-1").unwrap_err(), "illegal list value: \"1-1-1\"");
    assert_eq!(parse_pos(",").unwrap_err(), "illegal list value: \"\"");
    assert_eq!(
        parse_pos("99999999999999999999999-1").unwrap_err(),
        "illegal list value: \"99999999999999999999999\""
    );
    assert_eq!(
        parse_pos("3,10-2").unwrap_err(),
        "First number in range (10) must be lower than second number (2)"
    );
    let e = Extract::Fields(parse_pos("2-4").unwrap());
    assert!(matches!(e, Extract::Fields(ref list) if list == &vec![1..4]));
}
