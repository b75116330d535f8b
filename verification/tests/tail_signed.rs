use cliutils::tail::{get_start_index, TakeValue};
use cliutils::tail_signed::{parse_num, seek_position};

#[test]
fn lib_test_parse_num() {
    let res0 = parse_num("3");
    assert!(res0.is_ok());
    assert_eq!(res0.unwrap(), -3);

    let res = parse_num("+3");
    assert!(res.is_ok());
    assert_eq!(res.unwrap(), 3);

    let res = parse_num("-3");
    assert!(res.is_ok());
    assert_eq!(res.unwrap(), -3);

    let res = parse_num("3.14");
    assert!(res.is_err());
    assert_eq!(res.unwrap_err().to_string(), "3.14");

    let res = parse_num("foo");
    assert!(res.is_err());
    assert_eq!(res.unwrap_err().to_string(), "foo");
}

#[test]
fn signed_counts_at_the_edges() {
    assert_eq!(parse_num("+0").unwrap(), 0);
    assert_eq!(parse_num("0").unwrap(), 0);
    assert_eq!(parse_num("9223372036854775807").unwrap(), -i64::MAX);
    assert_eq!(parse_num("+9223372036854775807").unwrap(), i64::MAX);
    assert_eq!(parse_num("9223372036854775808").unwrap_err(), "9223372036854775808");
    assert_eq!(parse_num("-9223372036854775808").unwrap_err(), "-9223372036854775808");
    for bad in ["", "+", "-", "1-", "٣", " 1"] {
        assert_eq!(parse_num(bad).unwrap_err(), bad);
    }
}

#[test]
fn seek_positions() {
    assert_eq!(seek_position(1, 49), 0);
    assert_eq!(seek_position(49, 49), 48);
    assert_eq!(seek_position(50, 49), 49);
    assert_eq!(seek_position(0, 49), 49);
    assert_eq!(seek_position(-10, 49), 39);
    assert_eq!(seek_position(-49, 49), 0);
    assert_eq!(seek_position(-50, 49), 0);
    assert_eq!(seek_position(i64::MIN, 49), 0);
    assert_eq!(seek_position(i64::MAX, u64::MAX), i64::MAX as u64 - 1);
    assert_eq!(seek_position(-1, 0), 0);
}

#[test]
fn seeking_agrees_with_the_start_index() {
    for total in [0u64, 1, 5, 49] {
        for n in [i64::MIN, -60, -49, -48, -5, -1, 0, 1, 5, 48, 49, 50, i64::MAX] {
            let at = seek_position(n, total);
            match get_start_index(&TakeValue::TakeNum(n), total) {
                Some(start) => assert_eq!(at, start),
                None => assert_eq!(at, total),
            }
        }
    }
}
