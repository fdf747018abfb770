use pixelflood::canvas::Canvas;
use pixelflood::error::MyError;
use pixelflood::session::{handle_command, session_step, Event, Step};
use pixelflood::protocol::{Color, Command, Response};

fn line(s: &str) -> Event {
    Event::Line(s.to_string())
}

#[test]
fn session_size_get_set_sequence() {
    let mut canvas = Canvas::new(640, 480);
    match session_step(&mut canvas, line("SIZE\n")) {
        Step::Reply(m) => assert_eq!(m, "SIZE 640 480"),
        other => panic!("expected a reply, got {:?}", other),
    }
    assert!(matches!(
        session_step(&mut canvas, line("PX 0 0 ff0000\n")),
        Step::Silent
    ));
    match session_step(&mut canvas, line("PX 0 0\n")) {
        Step::Reply(m) => assert_eq!(m, "PX 0 0 ff0000"),
        other => panic!("expected a reply, got {:?}", other),
    }
}

#[test]
fn session_out_of_range_get_closes() {
    let mut canvas = Canvas::new(640, 480);
    assert!(matches!(
        session_step(&mut canvas, line("PX 99999 0\n")),
        Step::CloseErr(MyError::InvalidInput)
    ));
}

#[test]
fn session_out_of_range_set_closes() {
    let mut canvas = Canvas::new(640, 480);
    match session_step(&mut canvas, line("PX 0 480 112233\n")) {
        Step::CloseErr(MyError::GetPxOutside(pos)) => assert_eq!(pos, (0, 480)),
        other => panic!("expected a bounds failure, got {:?}", other),
    }
}

#[test]
fn session_garbage_is_skipped_and_connection_lives_on() {
    let mut canvas = Canvas::new(640, 480);
    match session_step(&mut canvas, line("BOGUS\n")) {
        Step::Ignored(MyError::UnknownCommand(s)) => assert_eq!(s, "BOGUS\n"),
        other => panic!("expected an ignored line, got {:?}", other),
    }
    assert!(matches!(
        session_step(&mut canvas, line("PX 1 2 zz\n")),
        Step::Ignored(MyError::InvalidInput)
    ));
    match session_step(&mut canvas, line("SIZE\n")) {
        Step::Reply(m) => assert_eq!(m, "SIZE 640 480"),
        other => panic!("expected a reply, got {:?}", other),
    }
}

#[test]
fn session_blank_lines_are_skipped() {
    let mut canvas = Canvas::new(8, 8);
    assert!(matches!(session_step(&mut canvas, line("\n")), Step::Silent));
    assert!(matches!(session_step(&mut canvas, line("  \t \r\n")), Step::Silent));
}

#[test]
fn session_idle_timeout_closes_cleanly() {
    let mut canvas = Canvas::new(8, 8);
    let before = canvas.get(4, 4);
    assert!(matches!(session_step(&mut canvas, Event::TimedOut), Step::CloseOk));
    assert_eq!(canvas.get(4, 4), before);
}

#[test]
fn session_help_replies_usage() {
    let mut canvas = Canvas::new(8, 8);
    match session_step(&mut canvas, line("HELP\n")) {
        Step::Reply(m) => assert!(m.starts_with("Commands:")),
        other => panic!("expected a reply, got {:?}", other),
    }
}

#[test]
fn dispatch_set_has_no_response() {
    let mut canvas = Canvas::new(8, 8);
    let r = handle_command(&mut canvas, &Command::SetPx((1, 1), Color(0xff102030)));
    assert!(matches!(r, Ok(None)));
    let r = handle_command(&mut canvas, &Command::GetPx((1, 1)));
    match r {
        Ok(Some(Response::Px(pos, c))) => {
            assert_eq!(pos, (1, 1));
            assert_eq!(c, Color(0x00102030));
        },
        other => panic!("expected a pixel response, got {:?}", other),
    }
}
