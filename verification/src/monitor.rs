//! Monitor records and how they are read from the compositor's status text.
//!
//! A record is a block of lines. Its first line, the heading, names the
//! monitor and gives its number: `Monitor <name> (ID <id>)`. Its second
//! line gives the geometry: `<width>x<height>@<rate> at <x>x<y>`. Fields
//! are separated by single spaces and found by their place in the line.

use crate::number::{digits, is_digit, lemma_digits_free_of, parse_usize, push_digits, small_number};
use crate::rate::{is_rate, rate};
use crate::text::{cut, free_of, head, lemma_cut, lemma_uncut, piece, piece_of, tail};
use vstd::prelude::*;

verus! {

/// Why a record could not be read.
#[derive(Clone, Copy, Debug, PartialEq, Eq, Structural)]
pub enum ParseError {
    /// The heading lacks its fourth field, or that field does not start
    /// with the monitor's number.
    Heading,
    /// The first field of the geometry line is not of the shape
    /// `<width>x<height>@<rate>` with two numbers and a rate.
    Resolution,
    /// The geometry line lacks its third field, or that field is not of the
    /// shape `<x>x<y>` with two numbers.
    Position,
}

/// Top left corner of a monitor on the virtual desktop, in pixels.
#[derive(Clone, Copy, Debug, PartialEq, Eq, Structural)]
pub struct Position {
    pub x: usize,
    pub y: usize,
}

/// Size of a monitor in pixels, and its refresh rate as the status text
/// writes it.
#[derive(Clone, Debug, PartialEq, Eq)]
pub struct Resolution {
    pub x: usize,
    pub y: usize,
    pub freq: String,
}

/// What a `Resolution` stands for.
pub struct ResolutionView {
    pub x: usize,
    pub y: usize,
    pub freq: Seq<char>,
}

impl View for Resolution {
    type V = ResolutionView;

    open spec fn view(&self) -> ResolutionView {
        ResolutionView { x: self.x, y: self.y, freq: self.freq@ }
    }
}

/// One monitor as the compositor listed it.
#[derive(Clone, Debug, PartialEq, Eq)]
pub struct Monitor {
    pub ctlname: String,
    pub res: Resolution,
    pub id: usize,
    pub pos: Position,
}

/// What a `Monitor` stands for.
pub struct MonitorView {
    pub ctlname: Seq<char>,
    pub res: ResolutionView,
    pub id: usize,
    pub pos: Position,
}

impl View for Monitor {
    type V = MonitorView;

    open spec fn view(&self) -> MonitorView {
        MonitorView { ctlname: self.ctlname@, res: self.res@, id: self.id, pos: self.pos }
    }
}

/// The position that a geometry line gives: its third field, cut once at
/// `x` into two numbers.
pub open spec fn position_of(line: Seq<char>) -> Option<Position> {
    match piece(line, ' ', 2) {
        None => None,
        Some(field) => match (small_number(head(field, 'x')), tail(field, 'x')) {
            (Some(x), Some(rest)) => match small_number(rest) {
                Some(y) => Some(Position { x, y }),
                None => None,
            },
            _ => None,
        },
    }
}

impl Position {
    /// Reads the position from a geometry line.
    pub fn from_str(rpos: &str) -> (r: Result<Position, ParseError>)
        ensures
            r == match position_of(rpos@) {
                Some(p) => Ok::<Position, ParseError>(p),
                None => Err(ParseError::Position),
            },
    {
        let field = match piece_of(rpos, ' ', 2) {
            Some(field) => field,
            None => {
                return Err(ParseError::Position);
            },
        };
        let (first, rest) = cut(field, 'x');
        match (parse_usize(first), rest) {
            (Some(x), Some(rest)) => match parse_usize(rest) {
                Some(y) => Ok(Position { x, y }),
                None => Err(ParseError::Position),
            },
            _ => Err(ParseError::Position),
        }
    }
}

/// A width as the geometry line writes it, without the one character that
/// may mark it: a first character that is no digit is left out.
pub open spec fn without_marker(width: Seq<char>) -> Seq<char> {
    if width.len() > 0 && !is_digit(width[0]) {
        width.skip(1)
    } else {
        width
    }
}

/// One character that is no digit before a width does not change the
/// width that is read.
pub proof fn lemma_marker_is_left_out(marker: char, width: Seq<char>)
    requires
        !is_digit(marker),
    ensures
        without_marker(seq![marker] + width) == width,
        small_number(without_marker(seq![marker] + width)) == small_number(width),
{
    assert((seq![marker] + width).skip(1) =~= width);
}

/// The resolution that a geometry line gives: its first field, cut once at
/// `@` into the size and the refresh rate, the size cut once at `x` into
/// width and height. The rate must be one, and is kept as it is written.
pub open spec fn resolution_of(line: Seq<char>) -> Option<ResolutionView> {
    let field = head(line, ' ');
    let size = head(field, '@');
    match (tail(field, '@'), tail(size, 'x')) {
        (Some(freq), Some(height)) => match (
            small_number(without_marker(head(size, 'x'))),
            small_number(height),
        ) {
            (Some(x), Some(y)) => if is_rate(freq) {
                Some(ResolutionView { x, y, freq })
            } else {
                None
            },
            _ => None,
        },
        _ => None,
    }
}

/// A resolution as a configuration command writes it:
/// `<width>x<height>@<rate>`.
pub open spec fn mode_text(res: ResolutionView) -> Seq<char> {
    digits(res.x as nat) + seq!['x'] + digits(res.y as nat) + seq!['@'] + res.freq
}

/// Leaves out the first character of `width` where it is no digit.
fn strip_marker<'a>(width: &'a str) -> (r: &'a str)
    ensures
        r@ == without_marker(width@),
{
    let len = width.unicode_len();
    if len == 0 {
        return width;
    }
    let first = width.get_char(0);
    if '0' <= first && first <= '9' {
        width
    } else {
        width.substring_char(1, len)
    }
}

impl Resolution {
    /// Writes the resolution as a configuration command takes it.
    pub fn display(&self) -> (r: String)
        ensures
            r@ == mode_text(self@),
    {
        proof {
            reveal_strlit("x");
            reveal_strlit("@");
        }
        let mut r = String::new();
        push_digits(&mut r, self.x as u128);
        r.append("x");
        push_digits(&mut r, self.y as u128);
        r.append("@");
        r.append(self.freq.as_str());
        assert(r@ =~= mode_text(self@));
        r
    }

    /// Reads the resolution from a geometry line.
    pub fn from_str(rres: &str) -> (r: Result<Resolution, ParseError>)
        ensures
            match r {
                Ok(res) => resolution_of(rres@) == Some(res@),
                Err(e) => e == ParseError::Resolution && resolution_of(rres@) is None,
            },
    {
        let (field, _) = cut(rres, ' ');
        let (size, freq) = cut(field, '@');
        let (width, height) = cut(size, 'x');
        match (freq, height) {
            (Some(freq), Some(height)) => match (
                parse_usize(strip_marker(width)),
                parse_usize(height),
            ) {
                (Some(x), Some(y)) => if rate(freq) {
                    Ok(Resolution { x, y, freq: freq.to_owned() })
                } else {
                    Err(ParseError::Resolution)
                },
                _ => Err(ParseError::Resolution),
            },
            _ => Err(ParseError::Resolution),
        }
    }
}

/// The second line of a block, empty where the block has one line only.
pub open spec fn geometry_line(block: Seq<char>) -> Seq<char> {
    match piece(block, '\n', 1) {
        Some(line) => line,
        None => Seq::empty(),
    }
}

/// The name and the number that a heading gives: its second field, and its
/// fourth field up to the first closing bracket, read as a number.
pub open spec fn heading_of(line: Seq<char>) -> Option<(Seq<char>, usize)> {
    match (piece(line, ' ', 1), piece(line, ' ', 3)) {
        (Some(ctlname), Some(field)) => match small_number(head(field, ')')) {
            Some(id) => Some((ctlname, id)),
            None => None,
        },
        _ => None,
    }
}

/// The monitor that a block describes. The heading is read first, then the
/// resolution, then the position; the first that cannot be read names the
/// error.
pub open spec fn monitor_of(block: Seq<char>) -> Result<MonitorView, ParseError> {
    let line = geometry_line(block);
    match heading_of(head(block, '\n')) {
        None => Err(ParseError::Heading),
        Some((ctlname, id)) => match resolution_of(line) {
            None => Err(ParseError::Resolution),
            Some(res) => match position_of(line) {
                None => Err(ParseError::Position),
                Some(pos) => Ok(MonitorView { ctlname, res, id, pos }),
            },
        },
    }
}

/// A heading as the status text writes it: `Monitor <name> (ID <id>)`.
pub open spec fn heading_text(ctlname: Seq<char>, id: usize) -> Seq<char> {
    seq!['M', 'o', 'n', 'i', 't', 'o', 'r', ' '] + ctlname + seq![' ', '(', 'I', 'D', ' ']
        + digits(id as nat) + seq![')']
}

/// A geometry line as the status text writes it:
/// `<width>x<height>@<rate> at <x>x<y>`.
pub open spec fn geometry_text(res: ResolutionView, pos: Position) -> Seq<char> {
    mode_text(res) + seq![' ', 'a', 't', ' '] + digits(pos.x as nat) + seq!['x'] + digits(
        pos.y as nat,
    )
}

/// A block as the status text writes it: the heading, then the geometry
/// line.
pub open spec fn block_text(mon: MonitorView) -> Seq<char> {
    heading_text(mon.ctlname, mon.id) + seq!['\n'] + geometry_text(mon.res, mon.pos)
}

/// A heading that was written reads back as the name and the number that
/// it was written from, where the name holds no space.
pub proof fn lemma_heading_reads_back(ctlname: Seq<char>, id: usize)
    requires
        free_of(ctlname, ' '),
    ensures
        heading_of(heading_text(ctlname, id)) == Some((ctlname, id)),
{
    let word = seq!['M', 'o', 'n', 'i', 't', 'o', 'r'];
    let open = seq!['(', 'I', 'D'];
    let number = digits(id as nat);
    let last = number + seq![')'] + Seq::empty();
    let third = open + seq![' '] + last;
    let second = ctlname + seq![' '] + third;
    let line = word + seq![' '] + second;
    assert(line =~= heading_text(ctlname, id));
    lemma_digits_free_of(id as nat, ' ');
    lemma_digits_free_of(id as nat, ')');
    lemma_cut(word, ' ', second);
    lemma_cut(ctlname, ' ', third);
    lemma_cut(open, ' ', last);
    assert(free_of(last, ' ')) by {
        assert forall|i: int| 0 <= i < last.len() implies #[trigger] last[i] != ' ' by {
            if i < number.len() {
                assert(last[i] == number[i]);
            }
        }
    }
    lemma_uncut(last, ' ');
    lemma_cut(number, ')', Seq::empty());
    assert(piece(line, ' ', 1) == piece(second, ' ', 0));
    assert(piece(line, ' ', 3) == piece(second, ' ', 2));
    assert(piece(second, ' ', 2) == piece(third, ' ', 1));
    assert(piece(third, ' ', 1) == piece(last, ' ', 0));
    assert(piece(line, ' ', 3) == Some(last));
    assert(piece(line, ' ', 1) == Some(ctlname));
}

/// A geometry line that was written reads back as the resolution and the
/// position that it was written from, where the rate is one and holds no
/// space.
pub proof fn lemma_geometry_reads_back(res: ResolutionView, pos: Position)
    requires
        is_rate(res.freq),
        free_of(res.freq, ' '),
    ensures
        resolution_of(geometry_text(res, pos)) == Some(res),
        position_of(geometry_text(res, pos)) == Some(pos),
{
    let width = digits(res.x as nat);
    let height = digits(res.y as nat);
    let size = width + seq!['x'] + height;
    let field = size + seq!['@'] + res.freq;
    let place = digits(pos.x as nat) + seq!['x'] + digits(pos.y as nat);
    let rest = seq!['a', 't'] + seq![' '] + place;
    let line = field + seq![' '] + rest;
    assert(line =~= geometry_text(res, pos));
    lemma_digits_free_of(res.x as nat, ' ');
    lemma_digits_free_of(res.y as nat, ' ');
    lemma_digits_free_of(res.x as nat, '@');
    lemma_digits_free_of(res.y as nat, '@');
    lemma_digits_free_of(res.x as nat, 'x');
    lemma_digits_free_of(res.y as nat, 'x');
    lemma_digits_free_of(pos.x as nat, ' ');
    lemma_digits_free_of(pos.y as nat, ' ');
    lemma_digits_free_of(pos.x as nat, 'x');
    assert(free_of(size, '@')) by {
        assert forall|i: int| 0 <= i < size.len() implies #[trigger] size[i] != '@' by {
            if i < width.len() {
                assert(size[i] == width[i]);
            } else if i > width.len() {
                assert(size[i] == height[i - width.len() - 1]);
            }
        }
    }
    assert(free_of(field, ' ')) by {
        assert forall|i: int| 0 <= i < field.len() implies #[trigger] field[i] != ' ' by {
            if i < width.len() {
                assert(field[i] == width[i]);
            } else if width.len() < i < size.len() {
                assert(field[i] == height[i - width.len() - 1]);
            } else if i > size.len() {
                assert(field[i] == res.freq[i - size.len() - 1]);
            }
        }
    }
    assert(free_of(place, ' ')) by {
        let column = digits(pos.x as nat);
        let row = digits(pos.y as nat);
        assert forall|i: int| 0 <= i < place.len() implies #[trigger] place[i] != ' ' by {
            if i < column.len() {
                assert(place[i] == column[i]);
            } else if i > column.len() {
                assert(place[i] == row[i - column.len() - 1]);
            }
        }
    }
    lemma_cut(field, ' ', rest);
    lemma_cut(seq!['a', 't'], ' ', place);
    lemma_uncut(place, ' ');
    assert(piece(line, ' ', 2) == piece(rest, ' ', 1));
    assert(piece(rest, ' ', 1) == piece(place, ' ', 0));
    assert(piece(line, ' ', 2) == Some(place));
    lemma_cut(digits(pos.x as nat), 'x', digits(pos.y as nat));
    lemma_cut(size, '@', res.freq);
    lemma_cut(width, 'x', height);
    assert(without_marker(width) == width);
}

/// A block that was written reads back as the monitor that it was written
/// from, where neither the name nor the rate holds a space or a newline
/// and the rate is one.
pub proof fn lemma_block_reads_back(mon: MonitorView)
    requires
        free_of(mon.ctlname, ' '),
        free_of(mon.ctlname, '\n'),
        is_rate(mon.res.freq),
        free_of(mon.res.freq, ' '),
        free_of(mon.res.freq, '\n'),
    ensures
        monitor_of(block_text(mon)) == Ok::<MonitorView, ParseError>(mon),
{
    let heading = heading_text(mon.ctlname, mon.id);
    let line = geometry_text(mon.res, mon.pos);
    lemma_heading_reads_back(mon.ctlname, mon.id);
    lemma_geometry_reads_back(mon.res, mon.pos);
    lemma_digits_free_of(mon.id as nat, '\n');
    lemma_digits_free_of(mon.res.x as nat, '\n');
    lemma_digits_free_of(mon.res.y as nat, '\n');
    lemma_digits_free_of(mon.pos.x as nat, '\n');
    lemma_digits_free_of(mon.pos.y as nat, '\n');
    assert(free_of(heading, '\n')) by {
        let number = digits(mon.id as nat);
        assert forall|i: int| 0 <= i < heading.len() implies #[trigger] heading[i] != '\n' by {
            if 8 <= i < 8 + mon.ctlname.len() {
                assert(heading[i] == mon.ctlname[i - 8]);
            } else if 13 + mon.ctlname.len() <= i < 13 + mon.ctlname.len() + number.len() {
                assert(heading[i] == number[i - 13 - mon.ctlname.len()]);
            }
        }
    }
    assert(free_of(line, '\n')) by {
        let width = digits(mon.res.x as nat);
        let height = digits(mon.res.y as nat);
        let column = digits(mon.pos.x as nat);
        let row = digits(mon.pos.y as nat);
        let freq = mon.res.freq;
        let a = width.len();
        let b = a + 1 + height.len();
        let c = b + 1 + freq.len();
        let d = c + 4 + column.len();
        assert forall|i: int| 0 <= i < line.len() implies #[trigger] line[i] != '\n' by {
            if i < a {
                assert(line[i] == width[i]);
            } else if a < i < b {
                assert(line[i] == height[i - a - 1]);
            } else if b < i < c {
                assert(line[i] == freq[i - b - 1]);
            } else if c + 4 <= i < d {
                assert(line[i] == column[i - c - 4]);
            } else if i > d {
                assert(line[i] == row[i - d - 1]);
            }
        }
    }
    lemma_cut(heading, '\n', line);
    lemma_uncut(line, '\n');
    assert(piece(block_text(mon), '\n', 1) == piece(line, '\n', 0));
    assert(geometry_line(block_text(mon)) == line);
}

impl Monitor {
    /// Reads one monitor from its block of the status text.
    pub fn from_str(rmon: &str) -> (r: Result<Monitor, ParseError>)
        ensures
            match r {
                Ok(mon) => monitor_of(rmon@) == Ok::<MonitorView, ParseError>(mon@),
                Err(e) => monitor_of(rmon@) == Err::<MonitorView, ParseError>(e),
            },
    {
        let (heading, _) = cut(rmon, '\n');
        let (ctlname, id) = match (piece_of(heading, ' ', 1), piece_of(heading, ' ', 3)) {
            (Some(ctlname), Some(field)) => {
                let (number, _) = cut(field, ')');
                match parse_usize(number) {
                    Some(id) => (ctlname, id),
                    None => {
                        return Err(ParseError::Heading);
                    },
                }
            },
            _ => {
                return Err(ParseError::Heading);
            },
        };
        let line = match piece_of(rmon, '\n', 1) {
            Some(line) => line,
            None => "",
        };
        proof {
            reveal_strlit("");
            assert(line@ =~= geometry_line(rmon@));
        }
        let res = match Resolution::from_str(line) {
            Ok(res) => res,
            Err(e) => {
                return Err(e);
            },
        };
        let pos = match Position::from_str(line) {
            Ok(pos) => pos,
            Err(e) => {
                return Err(e);
            },
        };
        Ok(Monitor { ctlname: ctlname.to_owned(), res, id, pos })
    }
}

} // verus!
