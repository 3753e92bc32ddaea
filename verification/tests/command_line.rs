use yaxiwm::args::{argument, Args, Argument, Rule};
use yaxiwm::error::Error;
use yaxiwm::proto::Request;

fn reader(words: &[&str]) -> Args<Request> {
    let mut args: Args<Request> = Args::new(words.iter().map(|word| word.to_string()).collect());
    args.append("--kill", Rule::Flag(Request::Kill));
    args.append("--workspace", Rule::Integer(Request::Workspace));
    args.append("--focused-border", Rule::Hex(Request::FocusedBorder));
    args
}

#[test]
fn flag_takes_one_word() {
    let mut args = reader(&["--kill", "--kill"]);
    assert_eq!(args.next(), Ok(Argument::Flag { kind: Request::Kill }));
    assert!(!args.is_empty());
    assert_eq!(args.next(), Ok(Argument::Flag { kind: Request::Kill }));
    assert!(args.is_empty());
}

#[test]
fn integer_is_read_as_decimal() {
    let mut args = reader(&["--workspace", "42"]);
    assert_eq!(args.next(), Ok(Argument::Integer { kind: Request::Workspace, value: 42 }));
    assert!(args.is_empty());
}

#[test]
fn hex_is_read_with_radix_16() {
    let mut args = reader(&["--focused-border", "ff8800"]);
    assert_eq!(
        args.next(),
        Ok(Argument::Hex { kind: Request::FocusedBorder, value: 0xff8800 })
    );
}

#[test]
fn same_word_differs_between_decimal_and_hex() {
    let mut args = reader(&["--workspace", "10", "--focused-border", "10"]);
    assert_eq!(args.next(), Ok(Argument::Integer { kind: Request::Workspace, value: 10 }));
    assert_eq!(args.next(), Ok(Argument::Hex { kind: Request::FocusedBorder, value: 16 }));
}

#[test]
fn no_word_left_is_args_empty() {
    let mut args = reader(&[]);
    assert!(args.is_empty());
    assert_eq!(args.next(), Err(Error::ArgsEmpty));
}

#[test]
fn missing_number_is_args_empty() {
    let mut args = reader(&["--workspace"]);
    assert_eq!(args.next(), Err(Error::ArgsEmpty));
    assert!(args.is_empty());
}

#[test]
fn unknown_flag_is_named() {
    let mut args = reader(&["--bogus", "--kill"]);
    assert_eq!(args.next(), Err(Error::Unknown { arg: "--bogus".to_string() }));
    assert_eq!(args.next(), Ok(Argument::Flag { kind: Request::Kill }));
}

#[test]
fn word_that_is_no_number_is_invalid() {
    let mut args = reader(&["--workspace", "ff", "--workspace", "4294967296"]);
    assert_eq!(args.next(), Err(Error::Invalid { arg: "ff".to_string() }));
    assert_eq!(args.next(), Err(Error::Invalid { arg: "4294967296".to_string() }));
}

#[test]
fn later_rule_replaces_earlier_rule() {
    let mut args = reader(&["--kill", "7"]);
    args.append("--kill", Rule::Integer(Request::Close));
    assert_eq!(args.next(), Ok(Argument::Integer { kind: Request::Close, value: 7 }));
}

#[test]
fn argument_from_named_number() {
    assert_eq!(
        argument(Rule::Integer(Request::WindowGaps), "8".to_string(), Some(8)),
        Ok(Argument::Integer { kind: Request::WindowGaps, value: 8 })
    );
    assert_eq!(
        argument(Rule::Hex(Request::NormalBorder), "zz".to_string(), None),
        Err(Error::Invalid { arg: "zz".to_string() })
    );
    assert_eq!(
        argument(Rule::Flag(Request::Quit), "x".to_string(), None),
        Ok(Argument::Flag { kind: Request::Quit })
    );
}

fn read_with(flag: &str, word: &str) -> Result<Argument<Request>, Error> {
    reader(&[flag, word]).next()
}

#[test]
fn decimal_takes_a_plus_sign_and_leading_zeros() {
    let integer = |value: u32| Ok(Argument::Integer { kind: Request::Workspace, value });
    assert_eq!(read_with("--workspace", "+5"), integer(5));
    assert_eq!(read_with("--workspace", "00012"), integer(12));
    assert_eq!(read_with("--workspace", "0"), integer(0));
    assert_eq!(read_with("--workspace", "4294967295"), integer(u32::MAX));
}

#[test]
fn decimal_refuses_everything_else() {
    for word in ["", "+", "-", "-1", "++5", " 5", "5 ", "1_0", "0x10", "1a", "4294967296", "٣"] {
        assert_eq!(
            read_with("--workspace", word),
            Err(Error::Invalid { arg: word.to_string() })
        );
    }
}

#[test]
fn hex_takes_both_cases_and_a_plus_sign() {
    let hex = |value: u32| Ok(Argument::Hex { kind: Request::FocusedBorder, value });
    assert_eq!(read_with("--focused-border", "FF"), hex(255));
    assert_eq!(read_with("--focused-border", "Ff"), hex(255));
    assert_eq!(read_with("--focused-border", "+a0"), hex(160));
    assert_eq!(read_with("--focused-border", "ffffffff"), hex(u32::MAX));
    assert_eq!(read_with("--focused-border", "000000001"), hex(1));
}

#[test]
fn hex_refuses_everything_else() {
    for word in ["", "+", "-f", "0x10", "g", "f f", "100000000", "ff_ff"] {
        assert_eq!(
            read_with("--focused-border", word),
            Err(Error::Invalid { arg: word.to_string() })
        );
    }
}
