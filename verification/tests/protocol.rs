use pixelflood::error::MyError;
use pixelflood::protocol::{
    encode_response, help_text, parse_command, parse_px, Color, Command, Response,
};
use pixelflood::text::{parse_usize, split_at_spaces, trim, usize_to_dec};

#[test]
fn test_px() {
    let tests = [
        (
            "PX 1 2 112233",
            Some(((1usize, 2usize), Some(Color(0xff112233u32)))),
        ),
        (
            "PX 1 2 11223344",
            Some(((1usize, 2usize), Some(Color(0x44112233u32)))),
        ),
        ("PX 1 2", Some(((1usize, 2usize), None))),
        ("PX 1 2 00", None),
        ("PX 1", None),
    ];
    for (msg, exp) in tests.iter() {
        assert_eq!(&parse_px(msg), exp, "msg: {}", msg);
    }
}

#[test]
fn parse_px_rejects_extra_tokens() {
    assert_eq!(parse_px("PX 1 2 112233 9"), None);
    assert_eq!(parse_px("PX  1 2"), None);
    assert_eq!(parse_px("QX 1 2"), None);
}

#[test]
fn color_six_digits_is_opaque() {
    assert_eq!(Color::from_str("112233").unwrap(), Color(0xff112233));
    assert_eq!(Color::from_str("FFAA00").unwrap(), Color(0xffffaa00));
}

#[test]
fn color_eight_digits_carries_alpha() {
    assert_eq!(Color::from_str("11223344").unwrap(), Color(0x44112233));
    assert_eq!(Color::from_str("ffffff00").unwrap(), Color(0x00ffffff));
}

#[test]
fn color_rejects_bad_tokens() {
    assert!(Color::from_str("").is_err());
    assert!(Color::from_str("00").is_err());
    assert!(Color::from_str("1122334").is_err());
    assert!(Color::from_str("11223g").is_err());
    let e = Color::from_str("xyz").unwrap_err();
    assert_eq!(e.0, "xyz");
}

#[test]
fn color_hex_round_trip() {
    let c = Color(0x00abcdef);
    let rendered = c.to_hex();
    assert_eq!(rendered, "abcdef");
    assert_eq!(Color::from_str(&rendered).unwrap(), Color(0xffabcdef));
    assert_eq!(Color::from_str(&rendered).unwrap().0 & 0xffffff, c.0);
    assert_eq!(Color(0x00000001).to_hex(), "000001");
}

#[test]
fn parse_command_known_commands() {
    assert_eq!(parse_command("HELP").unwrap(), Command::Help);
    assert_eq!(parse_command("  SIZE \r\n").unwrap(), Command::Size);
    assert_eq!(
        parse_command("PX 3 4\n").unwrap(),
        Command::GetPx((3, 4))
    );
    assert_eq!(
        parse_command("PX 3 4 010203\n").unwrap(),
        Command::SetPx((3, 4), Color(0xff010203))
    );
}

#[test]
fn parse_command_unknown_keeps_line() {
    match parse_command("BOGUS\n") {
        Err(MyError::UnknownCommand(s)) => assert_eq!(s, "BOGUS\n"),
        other => panic!("expected UnknownCommand, got {:?}", other),
    }
}

#[test]
fn parse_command_malformed_px_is_invalid_input() {
    assert!(matches!(parse_command("PX a b"), Err(MyError::InvalidInput)));
    assert!(matches!(parse_command("PX 1"), Err(MyError::InvalidInput)));
    assert!(matches!(
        parse_command("PX 1 2 00"),
        Err(MyError::InvalidInput)
    ));
}

#[test]
fn encode_size_and_px() {
    assert_eq!(encode_response(&Response::Size((640, 480))), "SIZE 640 480");
    assert_eq!(
        encode_response(&Response::Px((0, 0), Color(0x00ff0000))),
        "PX 0 0 ff0000"
    );
    assert_eq!(
        encode_response(&Response::Px((12, 34), Color(0x0000cafe))),
        "PX 12 34 00cafe"
    );
    assert_eq!(encode_response(&Response::Help), help_text());
}

#[test]
fn text_helpers() {
    assert_eq!(trim("  PX 1 2 \r\n"), "PX 1 2");
    assert_eq!(trim(" \t\r\n"), "");
    assert_eq!(split_at_spaces("PX 1 2"), vec!["PX", "1", "2"]);
    assert_eq!(split_at_spaces("a  b"), vec!["a", "", "b"]);
    assert_eq!(parse_usize("007"), Some(7));
    assert_eq!(parse_usize(""), None);
    assert_eq!(parse_usize("12x"), None);
    assert_eq!(parse_usize("99999999999999999999999999"), None);
    assert_eq!(usize_to_dec(0), "0");
    assert_eq!(usize_to_dec(640), "640");
}
