//! Per-connection decision logic: what one input event (a received line or
//! an idle timeout) does to the canvas and to the connection.
//!
//! The surrounding I/O loop — reading lines with a timeout, writing replies,
//! releasing the transport — performs whatever `Step` it is handed back;
//! every decision is taken here.

use vstd::prelude::*;
use crate::canvas::{spec_blend, Canvas};
use crate::error::MyError;
use crate::protocol::{
    encode_response, parse_command, spec_encode_response, spec_parse_px, starts_with_px, Color,
    Command, Response,
};
use crate::text::spec_trim;

verus! {

/// One input event of a connection: a raw line arrived, or the idle timeout
/// elapsed before one did.
#[derive(Debug)]
pub enum Event {
    Line(String),
    TimedOut,
}

/// What the connection loop must do next.
#[derive(Debug)]
pub enum Step {
    /// Write this line to the client and keep reading.
    Reply(String),
    /// Keep reading; nothing is written (a blank line, or a paint that
    /// answers nothing).
    Silent,
    /// Keep reading; the line did not decode — worth a diagnostic, never
    /// fatal.
    Ignored(MyError),
    /// Close the connection normally: the client was idle.
    CloseOk,
    /// Close the connection with this fatal error.
    CloseErr(MyError),
}

/// Executes one successfully decoded command against the canvas: `Help` and
/// `Size` answer without touching it, an in-bounds `GetPx` reads it, an
/// in-bounds `SetPx` blends into it and answers nothing, and an out-of-range
/// coordinate fails without touching it.
pub fn handle_command(canvas: &mut Canvas, cmd: &Command) -> (r: Result<Option<Response>, MyError>)
    requires
        old(canvas).wf(),
    ensures
        final(canvas).wf(),
        final(canvas).width == old(canvas).width,
        final(canvas).height == old(canvas).height,
        match *cmd {
            Command::Help => r == Ok::<Option<Response>, MyError>(Some(Response::Help))
                && *final(canvas) == *old(canvas),
            Command::Size => r == Ok::<Option<Response>, MyError>(
                Some(Response::Size((old(canvas).width, old(canvas).height))),
            ) && *final(canvas) == *old(canvas),
            Command::GetPx((x, y)) => {
                if old(canvas).in_bounds(x as int, y as int) {
                    r == Ok::<Option<Response>, MyError>(
                        Some(Response::Px((x, y), Color(old(canvas).cell(x as int, y as int)))),
                    ) && *final(canvas) == *old(canvas)
                } else {
                    (r matches Err(MyError::InvalidInput)) && *final(canvas) == *old(canvas)
                }
            },
            Command::SetPx((x, y), c) => {
                if old(canvas).in_bounds(x as int, y as int) {
                    r == Ok::<Option<Response>, MyError>(None) && final(canvas).cells@ == old(
                        canvas,
                    ).cells@.update(
                        old(canvas).idx(x as int, y as int),
                        spec_blend(old(canvas).cell(x as int, y as int), c.0),
                    )
                } else {
                    (r matches Err(MyError::GetPxOutside(p)) && p == (x, y)) && *final(canvas)
                        == *old(canvas)
                }
            },
        },
{
    match cmd {
        Command::Help => Ok(Some(Response::Help)),
        Command::Size => Ok(Some(Response::Size((canvas.width, canvas.height)))),
        Command::GetPx((x, y)) => {
            if *x >= canvas.width || *y >= canvas.height {
                Err(MyError::InvalidInput)
            } else {
                let v = canvas.get(*x, *y);
                Ok(Some(Response::Px((*x, *y), Color(v))))
            }
        },
        Command::SetPx((x, y), c) => {
            if *x >= canvas.width || *y >= canvas.height {
                Err(MyError::GetPxOutside((*x, *y)))
            } else {
                canvas.blend_set(*x, *y, c.0);
                Ok(None)
            }
        },
    }
}

/// What one event does to the connection, stated over the decoded form of
/// the line: an idle timeout closes the connection normally and leaves the
/// canvas alone; blank lines and undecodable lines are skipped; `HELP`,
/// `SIZE` and an in-bounds `GetPx` answer with the encoded response; an
/// in-bounds `SetPx` blends silently; an out-of-range coordinate of a
/// decoded command is fatal.
pub open spec fn step_spec(
    before: Canvas,
    after: Canvas,
    event: Event,
    r: Step,
) -> bool {
    match event {
        Event::TimedOut => (r is CloseOk) && after == before,
        Event::Line(line) => {
            let t = spec_trim(line@);
            if t.len() == 0 {
                (r is Silent) && after == before
            } else if t == "HELP"@ {
                (r matches Step::Reply(m) && m@ == spec_encode_response(Response::Help)) && after
                    == before
            } else if t == "SIZE"@ {
                (r matches Step::Reply(m) && m@ == spec_encode_response(
                    Response::Size((before.width, before.height)),
                )) && after == before
            } else if starts_with_px(t) {
                match spec_parse_px(t) {
                    Some((pos, Some(c))) => {
                        if before.in_bounds(pos.0 as int, pos.1 as int) {
                            (r is Silent) && after.cells@ == before.cells@.update(
                                before.idx(pos.0 as int, pos.1 as int),
                                spec_blend(before.cell(pos.0 as int, pos.1 as int), c.0),
                            )
                        } else {
                            (r matches Step::CloseErr(MyError::GetPxOutside(p)) && p == pos)
                                && after == before
                        }
                    },
                    Some((pos, None)) => {
                        if before.in_bounds(pos.0 as int, pos.1 as int) {
                            (r matches Step::Reply(m) && m@ == spec_encode_response(
                                Response::Px(pos, Color(before.cell(pos.0 as int, pos.1 as int))),
                            )) && after == before
                        } else {
                            (r matches Step::CloseErr(MyError::InvalidInput)) && after == before
                        }
                    },
                    None => (r matches Step::Ignored(MyError::InvalidInput)) && after == before,
                }
            } else {
                (r matches Step::Ignored(MyError::UnknownCommand(s)) && s@ == line@) && after
                    == before
            }
        },
    }
}

/// Drives the canvas by one event, as `step_spec` describes. The canvas
/// keeps its dimensions and its well-formedness whatever arrives.
pub fn session_step(canvas: &mut Canvas, event: Event) -> (r: Step)
    requires
        old(canvas).wf(),
    ensures
        final(canvas).wf(),
        final(canvas).width == old(canvas).width,
        final(canvas).height == old(canvas).height,
        step_spec(*old(canvas), *final(canvas), event, r),
{
    match event {
        Event::TimedOut => Step::CloseOk,
        Event::Line(line) => {
            let t = crate::text::trim(line.as_str());
            if t.unicode_len() == 0 {
                return Step::Silent;
            }
            match parse_command(line.as_str()) {
                Ok(cmd) => {
                    match handle_command(canvas, &cmd) {
                        Ok(Some(resp)) => Step::Reply(encode_response(&resp)),
                        Ok(None) => Step::Silent,
                        Err(e) => Step::CloseErr(e),
                    }
                },
                Err(e) => Step::Ignored(e),
            }
        },
    }
}

} // verus!
