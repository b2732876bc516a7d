//! The SSD1306 OLED tool: its command line and where each text line is
//! drawn on the 128x32 display.

use vstd::prelude::*;

use crate::args::{parse_u16, u16_arg_spec};
use crate::text::{
    arg_views, ascii_upper_spec, chars_of, concat_decimal, decimal_spec, push_char, str_eq,
    string_from,
};

verus! {

pub const DEFAULT_I2C_DEVICE: &'static str = "/dev/i2c-2";
pub const DEFAULT_I2C_ADDRESS: u16 = 0x3C;
pub const DISPLAY_WIDTH: i32 = 128;
pub const DISPLAY_HEIGHT: i32 = 32;
/// The most lines the display shows.
pub const MAX_LINES: usize = 3;
/// What is shown when no text is given.
pub const DEFAULT_TEXT: &'static str = "Hello world";

/// `embedded_graphics::mono_font::ascii::FONT_6X10`, the font the lines
/// are drawn in: its `character_size` is 6 pixels wide and 10 high.
#[verifier::external_body]
fn font_6x10_glyph_size() -> (size: (u32, u32))
    ensures
        size == (6u32, 10u32),
{
    let s = embedded_graphics::mono_font::ascii::FONT_6X10.character_size;
    (s.width, s.height)
}

/// The display to draw on and the text to draw.
#[derive(Debug, Clone)]
pub struct Config {
    pub i2c_device: String,
    pub address: u16,
    pub lines: Vec<String>,
}

/// Device path, address and lines.
pub type ConfigModel = (Seq<char>, u16, Seq<Seq<char>>);

impl View for Config {
    type V = ConfigModel;

    open spec fn view(&self) -> ConfigModel {
        (self.i2c_device@, self.address, arg_views(self.lines@))
    }
}

pub open spec fn default_config() -> ConfigModel {
    (DEFAULT_I2C_DEVICE@, DEFAULT_I2C_ADDRESS, seq![DEFAULT_TEXT@])
}

impl Default for Config {
    fn default() -> (c: Self)
        ensures
            c@ == default_config(),
    {
        let mut lines = Vec::new();
        lines.push(string_from(DEFAULT_TEXT));
        let c = Config { i2c_device: string_from(DEFAULT_I2C_DEVICE), address: DEFAULT_I2C_ADDRESS, lines };
        assert(arg_views(c.lines@) =~= seq![DEFAULT_TEXT@]);
        c
    }
}

/// What a command line comes to: the help, or a display to draw on.
pub enum OledInvocation {
    Help,
    Draw(Config),
}

/// An invocation as plain values.
pub enum OledInvocationModel {
    Help,
    Draw(ConfigModel),
}

impl View for OledInvocation {
    type V = OledInvocationModel;

    open spec fn view(&self) -> OledInvocationModel {
        match self {
            OledInvocation::Help => OledInvocationModel::Help,
            OledInvocation::Draw(c) => OledInvocationModel::Draw(c@),
        }
    }
}

/// The arguments from `i` on: a help word stops everything, `--device`
/// and `--address` take the next argument, and every other argument is a
/// line of text.
pub open spec fn options_spec(
    args: Seq<Seq<char>>,
    i: int,
    device: Seq<char>,
    address: u16,
    lines: Seq<Seq<char>>,
) -> Result<Option<(Seq<char>, u16, Seq<Seq<char>>)>, Seq<char>>
    decreases args.len() - i,
{
    if i < 0 || i >= args.len() {
        Ok(Some((device, address, lines)))
    } else if args[i] == "--help"@ || args[i] == "-h"@ || args[i] == "help"@ {
        Ok(None)
    } else if args[i] == "--device"@ {
        if i + 1 >= args.len() {
            Err("missing value for --device"@)
        } else {
            options_spec(args, i + 2, args[i + 1], address, lines)
        }
    } else if args[i] == "--address"@ {
        if i + 1 >= args.len() {
            Err("missing value for --address"@)
        } else {
            match u16_arg_spec(args[i + 1]) {
                Err(e) => Err(e),
                Ok(a) => options_spec(args, i + 2, device, a, lines),
            }
        }
    } else {
        options_spec(args, i + 1, device, address, lines.push(args[i]))
    }
}

/// The message for more lines than the display shows.
pub open spec fn too_many_lines_text(n: nat) -> Seq<char> {
    "too many lines: got "@ + decimal_spec(n) + ", max is 3"@
}

/// What a whole command line comes to: the help, or the display with the
/// lines given (at most three), or the default line when none is given.
pub open spec fn invocation_spec(args: Seq<Seq<char>>) -> Result<OledInvocationModel, Seq<char>> {
    match options_spec(args, 0, DEFAULT_I2C_DEVICE@, DEFAULT_I2C_ADDRESS, Seq::empty()) {
        Err(e) => Err(e),
        Ok(None) => Ok(OledInvocationModel::Help),
        Ok(Some((device, address, lines))) => if lines.len() == 0 {
            Ok(OledInvocationModel::Draw((device, address, seq![DEFAULT_TEXT@])))
        } else if lines.len() > MAX_LINES {
            Err(too_many_lines_text(lines.len()))
        } else {
            Ok(OledInvocationModel::Draw((device, address, lines)))
        },
    }
}

/// Reads the OLED tool's command line (without the program name).
pub fn parse_args(args: Vec<String>) -> (r: Result<OledInvocation, String>)
    ensures
        (match r {
            Ok(inv) => invocation_spec(arg_views(args@)) == Ok::<OledInvocationModel, Seq<char>>(
                inv@,
            ),
            Err(e) => invocation_spec(arg_views(args@)) == Err::<OledInvocationModel, Seq<char>>(e@),
        }),
{
    let ghost a = arg_views(args@);
    let mut config = Config::default();
    let mut lines: Vec<String> = Vec::new();
    let mut i: usize = 0;
    proof {
        assert(arg_views(lines@) =~= Seq::<Seq<char>>::empty());
    }
    while i < args.len()
        invariant
            i <= args.len(),
            a == arg_views(args@),
            arg_views(config.lines@) == seq![DEFAULT_TEXT@],
            options_spec(a, 0, DEFAULT_I2C_DEVICE@, DEFAULT_I2C_ADDRESS, Seq::empty())
                == options_spec(a, i as int, config.i2c_device@, config.address, arg_views(lines@)),
        decreases args.len() - i,
    {
        let arg = args[i].as_str();
        if str_eq(arg, "--help") || str_eq(arg, "-h") || str_eq(arg, "help") {
            return Ok(OledInvocation::Help);
        } else if str_eq(arg, "--device") {
            if i + 1 >= args.len() {
                return Err(string_from("missing value for --device"));
            }
            config.i2c_device = string_from(args[i + 1].as_str());
            i = i + 2;
        } else if str_eq(arg, "--address") {
            if i + 1 >= args.len() {
                return Err(string_from("missing value for --address"));
            }
            match parse_u16(args[i + 1].as_str()) {
                Ok(v) => {
                    config.address = v;
                },
                Err(e) => {
                    return Err(e);
                },
            }
            i = i + 2;
        } else {
            let ghost before = arg_views(lines@);
            lines.push(string_from(arg));
            proof {
                assert(arg_views(lines@) =~= before.push(a[i as int]));
            }
            i = i + 1;
        }
    }
    if lines.len() > 0 {
        if lines.len() > MAX_LINES {
            let mut m = concat_decimal("too many lines: got ", lines.len() as u64);
            m.append(", max is 3");
            return Err(m);
        }
        config.lines = lines;
    }
    Ok(OledInvocation::Draw(config))
}

/// `a / 2` rounded toward zero, as `i32` division rounds.
pub open spec fn half_toward_zero(a: int) -> int {
    if a >= 0 {
        a / 2
    } else {
        -((-a) / 2)
    }
}

/// The top edge of the first of `n` lines, centring the block of lines
/// vertically.
pub open spec fn first_line_y(n: int) -> int {
    half_toward_zero(DISPLAY_HEIGHT - 10 * n)
}

/// The left edge of a line of `chars` characters, centring it, or 0 when
/// it is wider than the display.
pub open spec fn line_x(chars: int) -> int {
    let w = 6 * chars;
    if DISPLAY_WIDTH - w > 0 {
        (DISPLAY_WIDTH - w) / 2
    } else {
        0
    }
}

/// A line ready to draw: its text in capitals and its top-left corner.
pub struct PlacedLine {
    pub text: String,
    pub x: i32,
    pub y: i32,
}

/// `s` with ASCII letters raised (`str::to_ascii_uppercase`).
pub open spec fn upper(s: Seq<char>) -> Seq<char> {
    s.map_values(|c: char| ascii_upper_spec(c))
}

/// The placed line for line `index` of `n` holding `text`.
pub open spec fn placed(text: Seq<char>, index: int, n: int) -> (Seq<char>, int, int) {
    (upper(text), line_x(text.len() as int), first_line_y(n) + 10 * index)
}

/// Places each line in the 6x10 font: in capitals, centred across the
/// display, the block of lines centred down it.
pub fn layout_lines(lines: &Vec<String>) -> (placed_lines: Vec<PlacedLine>)
    requires
        10 * lines@.len() <= i32::MAX,
        forall|k: int| 0 <= k < lines@.len() ==> 6 * (#[trigger] lines@[k]@).len() <= i32::MAX,
    ensures
        placed_lines@.len() == lines@.len(),
        forall|k: int|
            0 <= k < lines@.len() ==> ((#[trigger] placed_lines@[k]).text@, placed_lines@[k].x as int,
            placed_lines@[k].y as int) == placed(lines@[k]@, k, lines@.len() as int),
{
    let (glyph_width, line_height) = font_6x10_glyph_size();
    let n = lines.len();
    let total_height: i32 = (line_height as i32) * (n as i32);
    let start_y: i32 = (DISPLAY_HEIGHT - total_height) / 2;
    assert(start_y == first_line_y(n as int));
    let mut out: Vec<PlacedLine> = Vec::new();
    let mut index: usize = 0;
    while index < n
        invariant
            n == lines@.len(),
            index <= n,
            out@.len() == index,
            10 * n <= i32::MAX,
            glyph_width == 6 && line_height == 10,
            start_y == first_line_y(n as int),
            forall|k: int| 0 <= k < n ==> 6 * (#[trigger] lines@[k]@).len() <= i32::MAX,
            forall|k: int|
                0 <= k < index ==> ((#[trigger] out@[k]).text@, out@[k].x as int, out@[k].y as int)
                    == placed(lines@[k]@, k, n as int),
        decreases n - index,
    {
        let chars = chars_of(lines[index].as_str());
        let mut rendered = String::new();
        let mut j: usize = 0;
        while j < chars.len()
            invariant
                j <= chars@.len(),
                chars@ == lines@[index as int]@,
                rendered@ == upper(chars@.take(j as int)),
            decreases chars@.len() - j,
        {
            let c = chars[j];
            let u = if 'a' <= c && c <= 'z' {
                ((c as u32) - 32) as u8 as char
            } else {
                c
            };
            push_char(&mut rendered, u);
            j = j + 1;
            proof {
                assert(rendered@ =~= upper(chars@.take(j as int)));
            }
        }
        proof {
            assert(chars@.take(j as int) =~= chars@);
        }
        let count = chars.len();
        let text_width: i32 = (glyph_width as i32) * (count as i32);
        let free: i32 = DISPLAY_WIDTH - text_width;
        let start_x: i32 = if free > 0 {
            free / 2
        } else {
            0
        };
        let y: i32 = start_y + (line_height as i32) * (index as i32);
        out.push(PlacedLine { text: rendered, x: start_x, y });
        index = index + 1;
    }
    out
}

} // verus!
