use cliutils::tail::{
    count_lines_bytes, find_line_start, get_start_index, next_action, parse_num, print_bytes,
    print_lines, step, tail, Counter, FileAction, FileEvent, FileState, FileTotals, LineSkipper,
    TailError, TakeValue, Unit,
};
use cliutils::tail::TakeValue::{PlusZero, TakeNum};

const TEN: &[u8] = b"one\ntwo\nthree\nfour\nfive\nsix\nseven\neight\nnine\nten\n";

#[test]
fn test_count_lines_bytes() {
    let one = "Öne line, four wordś.\n";
    let res = count_lines_bytes(one.as_bytes());
    assert_eq!((res.line_count, res.byte_count), (1, 24));
    let res = count_lines_bytes(TEN);
    assert_eq!((res.line_count, res.byte_count), (10, 49));
}

#[test]
fn test_parse_num() {
    // All integers should be interpreted as negative numbers
    let res = parse_num("3");
    assert!(res.is_ok());
    assert_eq!(res.unwrap(), TakeNum(-3));

    // A leading "+" should result in a positive number
    let res = parse_num("+3");
    assert!(res.is_ok());
    assert_eq!(res.unwrap(), TakeNum(3));

    // An explicit "-" value should result in a negative number
    let res = parse_num("-3");
    assert!(res.is_ok());
    assert_eq!(res.unwrap(), TakeNum(-3));

    // Zero is zero
    let res = parse_num("0");
    assert!(res.is_ok());
    assert_eq!(res.unwrap(), TakeNum(0));

    // Plus zero is special
    let res = parse_num("+0");
    assert!(res.is_ok());
    assert_eq!(res.unwrap(), PlusZero);

    // Test boundaries
    let res = parse_num(&i64::MAX.to_string());
    assert!(res.is_ok());
    assert_eq!(res.unwrap(), TakeNum(i64::MIN + 1));

    let res = parse_num(&(i64::MIN + 1).to_string());
    assert!(res.is_ok());
    assert_eq!(res.unwrap(), TakeNum(i64::MIN + 1));

    let res = parse_num(&format!("+{}", i64::MAX));
    assert!(res.is_ok());
    assert_eq!(res.unwrap(), TakeNum(i64::MAX));

    let res = parse_num(&i64::MIN.to_string());
    assert!(res.is_ok());
    assert_eq!(res.unwrap(), TakeNum(i64::MIN));

    // A floating-point value is invalid
    let res = parse_num("3.14");
    assert!(res.is_err());
    assert_eq!(res.unwrap_err().to_string(), "3.14");

    // Any non-integer string is invalid
    let res = parse_num("foo");
    assert!(res.is_err());
    assert_eq!(res.unwrap_err().to_string(), "foo");
}

#[test]
fn test_get_start_index() {
    // +0 from an empty file (0 lines/bytes) returns None
    assert_eq!(get_start_index(&PlusZero, 0), None);
    // +0 from a nonempty file returns an index that
    // is one less than the number of lines/bytes
    assert_eq!(get_start_index(&PlusZero, 1), Some(0));
    // Taking 0 lines/bytes returns None
    assert_eq!(get_start_index(&TakeNum(0), 1), None);
    // Taking any lines/bytes from an empty file returns None
    assert_eq!(get_start_index(&TakeNum(1), 0), None);
    // Taking more lines/bytes than is available returns None
    assert_eq!(get_start_index(&TakeNum(2), 1), None);
    // When starting line/byte is less than total lines/bytes,
    // return one less than starting number
    assert_eq!(get_start_index(&TakeNum(1), 10), Some(0));
    assert_eq!(get_start_index(&TakeNum(2), 10), Some(1));
    assert_eq!(get_start_index(&TakeNum(3), 10), Some(2));
    // When starting line/byte is negative and less than total,
    // return total - start
    assert_eq!(get_start_index(&TakeNum(-1), 10), Some(9));
    assert_eq!(get_start_index(&TakeNum(-2), 10), Some(8));
    assert_eq!(get_start_index(&TakeNum(-3), 10), Some(7));

    assert_eq!(get_start_index(&TakeNum(-20), 10), Some(0));
}

#[test]
fn parse_num_rejects_shapes_without_digits() {
    for token in ["", "+", "-", "+-3", "--3", "3-", " 3", "3 ", "٣", "1e3", "0x10"] {
        let res = parse_num(token);
        assert!(res.is_err());
        let err = res.unwrap_err();
        assert!(matches!(&err, TailError::MalformedOffset(t) if t == token));
        assert_eq!(err.to_string(), token);
    }
}

#[test]
fn parse_num_at_the_limits_of_the_range() {
    // The largest magnitude without a sign is the smallest number there is.
    assert_eq!(parse_num("9223372036854775808").unwrap(), TakeNum(i64::MIN));
    assert_eq!(parse_num("-9223372036854775808").unwrap(), TakeNum(i64::MIN));
    assert_eq!(parse_num("0009223372036854775808").unwrap(), TakeNum(i64::MIN));
    assert!(parse_num("9223372036854775809").is_err());
    assert!(parse_num("-9223372036854775809").is_err());
    assert!(parse_num("+9223372036854775808").is_err());
    assert!(parse_num("99999999999999999999999999").is_err());
    assert_eq!(parse_num("+9223372036854775807").unwrap(), TakeNum(i64::MAX));
}

#[test]
fn the_default_is_the_last_ten() {
    assert_eq!(TakeValue::default(), TakeNum(-10));
    assert_eq!(parse_num("10").unwrap(), TakeValue::default());
    let two = b"1\n2\n3\n4\n5\n6\n7\n8\n9\n10\n11\n12\n";
    assert_eq!(tail(two, &TakeValue::default(), &None), &two[4..]);
}

#[test]
fn parse_num_keeps_plus_zero_apart() {
    assert_eq!(parse_num("+0").unwrap(), PlusZero);
    assert_eq!(parse_num("0").unwrap(), TakeNum(0));
    assert_eq!(parse_num("-0").unwrap(), TakeNum(0));
    assert_eq!(parse_num("+00").unwrap(), TakeNum(0));
    assert_ne!(PlusZero, TakeNum(0));
}

#[test]
fn parse_num_follows_the_sign_rule() {
    assert_eq!(parse_num("5").unwrap(), TakeNum(-5));
    assert_eq!(parse_num("+5").unwrap(), TakeNum(5));
    assert_eq!(parse_num("-5").unwrap(), TakeNum(-5));
    for n in [1i64, 7, 10, 99, 1234567890123, i64::MAX] {
        assert_eq!(parse_num(&n.to_string()).unwrap(), TakeNum(-n));
        assert_eq!(parse_num(&format!("+{}", n)).unwrap(), TakeNum(n));
        assert_eq!(parse_num(&format!("-{}", n)).unwrap(), TakeNum(-n));
    }
}

#[test]
fn error_messages() {
    assert_eq!(TailError::MalformedOffset("3.14".to_string()).to_string(), "3.14");
    assert_eq!(
        TailError::FileUnreadable("blargh".to_string(), "No such file".to_string()).to_string(),
        "blargh: No such file"
    );
}

#[test]
fn start_index_of_zero_is_none_for_every_total() {
    for total in [0u64, 1, 2, 10, u64::MAX] {
        assert_eq!(get_start_index(&TakeNum(0), total), None);
    }
}

#[test]
fn start_index_of_plus_zero() {
    assert_eq!(get_start_index(&PlusZero, 0), None);
    for total in [1u64, 2, 10, u64::MAX] {
        assert_eq!(get_start_index(&PlusZero, total), Some(0));
    }
}

#[test]
fn start_index_of_positive_counts_cuts_off_once() {
    let total = 5u64;
    for n in 1..=5i64 {
        assert_eq!(get_start_index(&TakeNum(n), total), Some(n as u64 - 1));
    }
    for n in [6i64, 7, 100, i64::MAX] {
        assert_eq!(get_start_index(&TakeNum(n), total), None);
    }
}

#[test]
fn start_index_of_negative_counts_clips_to_the_start() {
    let total = 5u64;
    for k in 1..5i64 {
        assert_eq!(get_start_index(&TakeNum(-k), total), Some(total - k as u64));
    }
    for n in [-5i64, -6, -100, i64::MIN] {
        assert_eq!(get_start_index(&TakeNum(n), total), Some(0));
    }
    assert_eq!(get_start_index(&TakeNum(-1), 0), None);
    assert_eq!(get_start_index(&TakeNum(i64::MIN), 0), None);
}

#[test]
fn start_index_with_totals_beyond_i64() {
    assert_eq!(get_start_index(&TakeNum(i64::MAX), u64::MAX), Some(i64::MAX as u64 - 1));
    assert_eq!(get_start_index(&TakeNum(i64::MIN), u64::MAX), Some(u64::MAX - (1u64 << 63)));
    assert_eq!(get_start_index(&TakeNum(-1), u64::MAX), Some(u64::MAX - 1));
}

#[test]
fn counts_an_unterminated_last_line() {
    let t = count_lines_bytes(b"one\ntwo");
    assert_eq!(t, FileTotals { line_count: 2, byte_count: 7 });
    let t = count_lines_bytes(b"x");
    assert_eq!(t, FileTotals { line_count: 1, byte_count: 1 });
    let t = count_lines_bytes(b"");
    assert_eq!(t, FileTotals { line_count: 0, byte_count: 0 });
    let t = count_lines_bytes(b"\n\n\n");
    assert_eq!(t, FileTotals { line_count: 3, byte_count: 3 });
}

#[test]
fn counting_in_chunks_gives_the_same_totals() {
    for size in 1..=TEN.len() {
        let mut counter = Counter::new();
        for chunk in TEN.chunks(size) {
            counter.feed(chunk);
        }
        assert_eq!(counter.totals(), count_lines_bytes(TEN));
    }
    let open = b"alpha\nbeta\ngam";
    for size in 1..=open.len() {
        let mut counter = Counter::new();
        for chunk in open.chunks(size) {
            counter.feed(chunk);
        }
        counter.feed(b"");
        assert_eq!(counter.totals(), FileTotals { line_count: 3, byte_count: 14 });
    }
}

#[test]
fn finds_where_lines_start() {
    assert_eq!(find_line_start(TEN, 0), 0);
    assert_eq!(find_line_start(TEN, 1), 4);
    assert_eq!(find_line_start(TEN, 2), 8);
    assert_eq!(find_line_start(TEN, 9), 45);
    assert_eq!(find_line_start(TEN, 10), 49);
    assert_eq!(find_line_start(TEN, 11), 49);
    assert_eq!(find_line_start(b"", 3), 0);
}

#[test]
fn skipping_in_chunks_finds_the_same_start() {
    for k in 0..12u64 {
        for size in 1..=TEN.len() {
            let mut skipper = LineSkipper::new(k);
            let mut out: Vec<u8> = Vec::new();
            for chunk in TEN.chunks(size) {
                let from = skipper.feed(chunk);
                out.extend_from_slice(&chunk[from..]);
            }
            assert_eq!(out, &TEN[find_line_start(TEN, k)..]);
        }
    }
}

#[test]
fn last_three_lines_of_ten() {
    let out = tail(TEN, &TakeNum(-3), &None);
    assert_eq!(out, b"eight\nnine\nten\n");
    let totals = count_lines_bytes(TEN);
    assert_eq!(print_lines(TEN, &TakeNum(-3), totals.line_count), b"eight\nnine\nten\n");
}

#[test]
fn plus_zero_on_an_empty_file() {
    assert_eq!(tail(b"", &PlusZero, &None), b"");
    assert_eq!(tail(b"", &TakeNum(-10), &Some(PlusZero)), b"");
    assert_eq!(get_start_index(&PlusZero, 0), None);
}

#[test]
fn request_beyond_the_total() {
    assert_eq!(tail(TEN, &TakeNum(100), &None), b"");
    assert_eq!(print_lines(TEN, &TakeNum(100), 10), b"");
}

#[test]
fn last_ten_bytes_of_forty_nine() {
    assert_eq!(TEN.len(), 49);
    let out = tail(TEN, &TakeNum(-10), &Some(TakeNum(-10)));
    assert_eq!(out, &TEN[39..]);
    assert_eq!(out, b"\nnine\nten\n");
    assert_eq!(print_bytes(TEN, &TakeNum(-10), 49), &TEN[39..]);
}

#[test]
fn malformed_offsets_name_the_token() {
    for token in ["3.14", "foo"] {
        match parse_num(token) {
            Err(TailError::MalformedOffset(t)) => assert_eq!(t, token),
            other => panic!("unexpected {:?}", other),
        }
    }
}

#[test]
fn selects_lines_from_the_start() {
    assert_eq!(tail(TEN, &TakeNum(1), &None), TEN);
    assert_eq!(tail(TEN, &PlusZero, &None), TEN);
    assert_eq!(tail(TEN, &TakeNum(9), &None), b"nine\nten\n");
    assert_eq!(tail(TEN, &TakeNum(10), &None), b"ten\n");
    assert_eq!(tail(TEN, &TakeNum(11), &None), b"");
    assert_eq!(tail(TEN, &TakeNum(0), &None), b"");
    assert_eq!(tail(TEN, &TakeNum(-20), &None), TEN);
}

#[test]
fn keeps_an_unterminated_last_line() {
    let data = b"one\r\ntwo\r\nthree";
    assert_eq!(tail(data, &TakeNum(-1), &None), b"three");
    assert_eq!(tail(data, &TakeNum(-2), &None), b"two\r\nthree");
    assert_eq!(tail(data, &TakeNum(3), &None), b"three");
    assert_eq!(tail(data, &TakeNum(4), &None), b"");
}

#[test]
fn selects_bytes() {
    assert_eq!(tail(TEN, &TakeNum(-10), &Some(TakeNum(1))), TEN);
    assert_eq!(tail(TEN, &TakeNum(-10), &Some(TakeNum(49))), b"\n");
    assert_eq!(tail(TEN, &TakeNum(-10), &Some(TakeNum(50))), b"");
    assert_eq!(tail(TEN, &TakeNum(-10), &Some(TakeNum(0))), b"");
    assert_eq!(tail(TEN, &TakeNum(-10), &Some(TakeNum(-1))), b"\n");
    assert_eq!(tail(TEN, &TakeNum(-10), &Some(TakeNum(-100))), TEN);
    // bytes are raw: a character may be cut in two
    let text = "Öne".as_bytes();
    assert_eq!(tail(text, &TakeNum(-10), &Some(TakeNum(2))), &text[1..]);
}

#[test]
fn print_bytes_with_a_total_that_is_not_the_length() {
    assert_eq!(print_bytes(b"abc", &TakeNum(10), 20), b"");
    assert_eq!(print_bytes(b"abc", &TakeNum(-1), 20), b"");
    assert_eq!(print_bytes(b"abc", &TakeNum(-18), 20), b"c");
}

#[test]
fn a_file_runs_through_its_states() {
    let take = TakeNum(-3);
    let totals = FileTotals { line_count: 10, byte_count: 49 };
    let mut state = FileState::Unopened;
    assert_eq!(next_action(&state), FileAction::Count);
    state = step(state, FileEvent::Totals(totals), &take, Unit::Line);
    assert_eq!(state, FileState::Counted(totals));
    assert_eq!(next_action(&state), FileAction::Proceed);
    state = step(state, FileEvent::Proceed, &take, Unit::Line);
    assert_eq!(state, FileState::PositionResolved(Some(7)));
    assert_eq!(next_action(&state), FileAction::Proceed);
    state = step(state, FileEvent::Proceed, &take, Unit::Line);
    assert_eq!(state, FileState::Streaming(7));
    assert_eq!(next_action(&state), FileAction::Stream(7));
    state = step(state, FileEvent::Copied, &take, Unit::Line);
    assert_eq!(state, FileState::Done(true));
    assert_eq!(next_action(&state), FileAction::Stop);
    assert_eq!(step(state, FileEvent::Failed, &take, Unit::Line), FileState::Done(true));
}

#[test]
fn a_file_without_selection_is_never_streamed() {
    let take = TakeNum(100);
    let totals = FileTotals { line_count: 10, byte_count: 49 };
    let mut state = step(FileState::Unopened, FileEvent::Totals(totals), &take, Unit::Line);
    state = step(state, FileEvent::Proceed, &take, Unit::Line);
    assert_eq!(state, FileState::PositionResolved(None));
    state = step(state, FileEvent::Proceed, &take, Unit::Line);
    assert_eq!(state, FileState::Done(false));
    // in bytes the same request selects something
    let mut state = step(FileState::Unopened, FileEvent::Totals(totals), &TakeNum(40), Unit::Byte);
    state = step(state, FileEvent::Proceed, &TakeNum(40), Unit::Byte);
    assert_eq!(state, FileState::PositionResolved(Some(39)));
}

#[test]
fn a_failure_ends_the_file() {
    let take = PlusZero;
    let totals = FileTotals { line_count: 1, byte_count: 1 };
    let live = [
        FileState::Unopened,
        FileState::Counted(totals),
        FileState::PositionResolved(Some(0)),
        FileState::PositionResolved(None),
        FileState::Streaming(0),
    ];
    for state in live {
        assert_eq!(step(state, FileEvent::Failed, &take, Unit::Byte), FileState::Errored);
    }
    for event in [FileEvent::Totals(totals), FileEvent::Proceed, FileEvent::Copied, FileEvent::Failed] {
        assert_eq!(step(FileState::Errored, event, &take, Unit::Byte), FileState::Errored);
    }
    assert_eq!(next_action(&FileState::Errored), FileAction::Stop);
    // an event that does not belong to the state changes nothing
    assert_eq!(step(FileState::Unopened, FileEvent::Copied, &take, Unit::Line), FileState::Unopened);
    assert_eq!(step(FileState::Streaming(3), FileEvent::Proceed, &take, Unit::Line), FileState::Streaming(3));
}
