//! The protocol codec: stateless translation between raw text lines and
//! typed `Command` / `Response` values.

use vstd::prelude::*;
use crate::Pos;
use crate::canvas::alpha_of;
use crate::error::{MyError, MyResult, ParseColorError};
use crate::text::{
    hex_str_fixed, hex_value, parse_usize, pow16, spec_dec_str, spec_hex_value, spec_parse_usize,
    spec_trim, split_at_spaces, split_spaces, str_eq, to_hex_fixed, trim, usize_to_dec,
};

verus! {

/// A pixel colour packed as `0xAARRGGBB`: 24 RGB bits plus a transient
/// blend-alpha that is never stored in the canvas.
#[derive(Debug, Clone, Copy, PartialEq, Eq, Structural)]
pub struct Color(pub u32);

/// What parsing a colour token yields, packed as `0xAARRGGBB`: six hex
/// digits are the RGB with an opaque alpha of `255`; eight hex digits are
/// `RRGGBBAA` with the trailing byte as alpha; anything else fails.
pub open spec fn spec_parse_color(s: Seq<char>) -> Option<u32> {
    if s.len() == 6 {
        match spec_hex_value(s) {
            Some(v) => Some(v | 0xff000000),
            None => None,
        }
    } else if s.len() == 8 {
        match spec_hex_value(s) {
            Some(v) => Some(((v & 0xff) << 24) | (v >> 8)),
            None => None,
        }
    } else {
        None
    }
}

impl Color {
    /// The 24 externally visible RGB bits.
    pub open spec fn rgb(self) -> u32 {
        self.0 & 0xffffff
    }

    /// The transient blend weight.
    pub open spec fn alpha(self) -> u8 {
        alpha_of(self.0)
    }

    /// Parses a colour token, as `spec_parse_color` describes; a failure
    /// carries the offending token.
    pub fn from_str(s: &str) -> (r: Result<Color, ParseColorError>)
        ensures
            match spec_parse_color(s@) {
                Some(v) => r == Ok::<Color, ParseColorError>(Color(v)),
                None => r matches Err(e) && e.0@ == s@,
            },
    {
        let len = s.unicode_len();
        if len == 6 {
            match hex_value(s) {
                Some(v) => Ok(Color(v | 0xff000000)),
                None => Err(ParseColorError::new(s)),
            }
        } else if len == 8 {
            match hex_value(s) {
                Some(v) => Ok(Color(((v & 0xff) << 24) | (v >> 8))),
                None => Err(ParseColorError::new(s)),
            }
        } else {
            Err(ParseColorError::new(s))
        }
    }

    /// The RGB bits as exactly six lowercase hex digits; the alpha is never
    /// rendered.
    pub fn to_hex(&self) -> (r: String)
        ensures
            r@ == hex_str_fixed(self.0 as int, 6),
    {
        to_hex_fixed(self.0, 6)
    }
}

/// Law: the six lowercase hex digits a stored RGB value is rendered as (the
/// tail of a `PX` response, `Color::to_hex`) decode back to exactly that RGB
/// value, now carrying an opaque alpha of `255`. Alpha itself never
/// round-trips, because it is never stored.
pub proof fn lemma_color_round_trip(rgb: u32)
    requires
        rgb < 0x1000000,
    ensures
        spec_parse_color(hex_str_fixed(rgb as int, 6)) == Some(rgb | 0xff000000),
        Color(rgb | 0xff000000).rgb() == rgb,
        Color(rgb | 0xff000000).alpha() == 255,
{
    assert(pow16(6) == 0x1000000) by {
        reveal_with_fuel(pow16, 7);
    }
    crate::text::lemma_hex_round_trip(rgb as int, 6);
    let s = hex_str_fixed(rgb as int, 6);
    assert(spec_hex_value(s) == Some(rgb));
    assert((rgb | 0xff000000) & 0xffffff == rgb && (rgb | 0xff000000) >> 24 == 255)
        by (bit_vector)
        requires
            rgb < 0x1000000;
}

/// One decoded client line.
#[derive(Debug, Clone, Copy, PartialEq, Eq)]
pub enum Command {
    /// `HELP`: request the usage text.
    Help,
    /// `SIZE`: request the canvas dimensions.
    Size,
    /// `PX x y colour`: paint one pixel.
    SetPx(Pos, Color),
    /// `PX x y`: read one pixel.
    GetPx(Pos),
}

/// One server reply.
#[derive(Debug, Clone, Copy, PartialEq, Eq)]
pub enum Response {
    /// The usage text.
    Help,
    /// The canvas dimensions.
    Size(Pos),
    /// The current colour of one pixel.
    Px(Pos, Color),
}

/// What parsing the argument part of a `PX` line yields: the line split at
/// single spaces must be `PX x y` (a read) or `PX x y colour` (a paint),
/// with unsigned decimal coordinates; any other shape fails.
pub open spec fn spec_parse_px(s: Seq<char>) -> Option<(Pos, Option<Color>)> {
    let t = split_spaces(s);
    if (t.len() == 3 || t.len() == 4) && t[0] == "PX"@ {
        match (spec_parse_usize(t[1]), spec_parse_usize(t[2])) {
            (Some(x), Some(y)) => {
                if t.len() == 3 {
                    Some(((x, y), None))
                } else {
                    match spec_parse_color(t[3]) {
                        Some(v) => Some(((x, y), Some(Color(v)))),
                        None => None,
                    }
                }
            },
            _ => None,
        }
    } else {
        None
    }
}

/// Parses a whole `PX` line, as `spec_parse_px` describes.
pub fn parse_px(s: &str) -> (r: Option<(Pos, Option<Color>)>)
    ensures
        r == spec_parse_px(s@),
{
    let parts = split_at_spaces(s);
    if parts.len() != 3 && parts.len() != 4 {
        return None;
    }
    if !str_eq(parts[0].as_str(), "PX") {
        return None;
    }
    let x = match parse_usize(parts[1].as_str()) {
        Some(x) => x,
        None => {
            return None;
        },
    };
    let y = match parse_usize(parts[2].as_str()) {
        Some(y) => y,
        None => {
            return None;
        },
    };
    if parts.len() == 3 {
        Some(((x, y), None))
    } else {
        match Color::from_str(parts[3].as_str()) {
            Ok(c) => Some(((x, y), Some(c))),
            Err(_) => None,
        }
    }
}

/// The trimmed line opens with the literal `PX` token.
pub open spec fn starts_with_px(t: Seq<char>) -> bool {
    t.len() >= 3 && t.subrange(0, 3) == "PX "@
}

/// Decodes one non-blank line, as the protocol grammar describes: `HELP`,
/// `SIZE`, a `PX` read or paint, a malformed `PX` line (`InvalidInput`), or
/// no command at all (`UnknownCommand`, carrying the raw line).
pub fn parse_command(line: &str) -> (r: MyResult<Command>)
    requires
        spec_trim(line@).len() > 0,
    ensures
        ({
            let t = spec_trim(line@);
            if t == "HELP"@ {
                r == Ok::<Command, MyError>(Command::Help)
            } else if t == "SIZE"@ {
                r == Ok::<Command, MyError>(Command::Size)
            } else if starts_with_px(t) {
                match spec_parse_px(t) {
                    Some((pos, Some(c))) => r == Ok::<Command, MyError>(Command::SetPx(pos, c)),
                    Some((pos, None)) => r == Ok::<Command, MyError>(Command::GetPx(pos)),
                    None => r matches Err(MyError::InvalidInput),
                }
            } else {
                r matches Err(MyError::UnknownCommand(s)) && s@ == line@
            }
        }),
{
    let t = trim(line);
    if str_eq(t, "HELP") {
        Ok(Command::Help)
    } else if str_eq(t, "SIZE") {
        Ok(Command::Size)
    } else if t.unicode_len() >= 3 && str_eq(t.substring_char(0, 3), "PX ") {
        match parse_px(t) {
            Some((pos, Some(c))) => Ok(Command::SetPx(pos, c)),
            Some((pos, None)) => Ok(Command::GetPx(pos)),
            None => Err(MyError::InvalidInput),
        }
    } else {
        Err(MyError::UnknownCommand(line.to_owned()))
    }
}

/// The usage text sent for `HELP`.
pub open spec fn spec_help_text() -> Seq<char> {
    "Commands:\n    - HELP - Show this message\n    - SIZE - Get canvas size\n    - PX [x] [y] - Get color from canvas at this position\n    - PX [x] [y] [color] - Paint this color on canvas at this position\n"@
}

/// The usage text as a value.
pub fn help_text() -> (r: &'static str)
    ensures
        r@ == spec_help_text(),
{
    "Commands:\n    - HELP - Show this message\n    - SIZE - Get canvas size\n    - PX [x] [y] - Get color from canvas at this position\n    - PX [x] [y] [color] - Paint this color on canvas at this position\n"
}

/// The exact line a response is rendered as: the usage text for `Help`,
/// `SIZE w h` with decimal dimensions, or `PX x y rrggbb` with the colour as
/// six lowercase hex digits and no alpha.
pub open spec fn spec_encode_response(resp: Response) -> Seq<char> {
    match resp {
        Response::Help => spec_help_text(),
        Response::Size((w, h)) => "SIZE "@ + spec_dec_str(w as nat) + " "@ + spec_dec_str(h as nat),
        Response::Px((x, y), c) => "PX "@ + spec_dec_str(x as nat) + " "@ + spec_dec_str(y as nat)
            + " "@ + hex_str_fixed(c.0 as int, 6),
    }
}

/// Renders a response, as `spec_encode_response` describes.
pub fn encode_response(resp: &Response) -> (r: String)
    ensures
        r@ == spec_encode_response(*resp),
{
    match resp {
        Response::Help => help_text().to_owned(),
        Response::Size((w, h)) => {
            let mut s = "SIZE ".to_owned();
            s.append(usize_to_dec(*w).as_str());
            s.append(" ");
            s.append(usize_to_dec(*h).as_str());
            proof {
                assert(s@ =~= spec_encode_response(*resp));
            }
            s
        },
        Response::Px((x, y), c) => {
            let mut s = "PX ".to_owned();
            s.append(usize_to_dec(*x).as_str());
            s.append(" ");
            s.append(usize_to_dec(*y).as_str());
            s.append(" ");
            s.append(c.to_hex().as_str());
            proof {
                assert(s@ =~= spec_encode_response(*resp));
            }
            s
        },
    }
}

} // verus!
