//! Status messages: what they say when a file is opened, when they are
//! shown and hidden, and the text that puts them on the bottom row.

use vstd::prelude::*;
use vstd::string::StrSliceExecFns;
use crate::error::Error;
use crate::playback::MESSAGE_DISPLAY_DURATION;
use crate::text::{decimal, push_decimal};

verus! {

/// The sequence that puts the cursor in column `col` of text row `row`,
/// both counted from one.
pub open spec fn cursor_to(row: nat, col: nat) -> Seq<char> {
    "\x1B["@ + decimal(row) + ";"@ + decimal(col) + "H"@
}

/// Appends the sequence that puts the cursor in column `col` of text row
/// `row`.
pub fn push_cursor_to(out: &mut String, row: u64, col: u64)
    ensures
        final(out)@ == old(out)@ + cursor_to(row as nat, col as nat),
{
    out.push_str("\x1B[");
    push_decimal(out, row);
    out.push_str(";");
    push_decimal(out, col);
    out.push_str("H");
    assert(out@ =~= old(out)@ + cursor_to(row as nat, col as nat));
}

/// The message for a file that was opened: its name, with the image's own
/// name before it where it has one, between two spaces.
pub open spec fn opened_text(name: Option<Seq<char>>, filename: Seq<char>) -> Seq<char> {
    match name {
        Some(n) => " "@ + n + " ("@ + filename + ") "@,
        None => " "@ + filename + " "@,
    }
}

/// The message for a file whose image has no pixels.
pub open spec fn empty_image_text(filename: Seq<char>, width: nat, height: nat) -> Seq<char> {
    " "@ + filename + ": image of size "@ + decimal(width) + " x "@ + decimal(height) + " "@
}

/// The message for a file that could not be opened.
pub open spec fn failed_text(filename: Seq<char>, error: Seq<char>) -> Seq<char> {
    " "@ + filename + ": "@ + error + " "@
}

/// The message for a file that was opened.
pub fn opened_message(name: Option<&str>, filename: &str) -> (m: String)
    ensures
        m@ == opened_text(
            match name {
                Some(n) => Some(n@),
                None => None,
            },
            filename@,
        ),
{
    let mut m = String::new();
    m.push_str(" ");
    match name {
        Some(n) => {
            m.push_str(n);
            m.push_str(" (");
            m.push_str(filename);
            m.push_str(") ");
            assert(m@ =~= " "@ + n@ + " ("@ + filename@ + ") "@);
        },
        None => {
            m.push_str(filename);
            m.push_str(" ");
            assert(m@ =~= " "@ + filename@ + " "@);
        },
    }
    m
}

/// The message for a file whose image has no pixels.
pub fn empty_image_message(filename: &str, width: u32, height: u32) -> (m: String)
    ensures
        m@ == empty_image_text(filename@, width as nat, height as nat),
{
    let mut m = String::new();
    m.push_str(" ");
    m.push_str(filename);
    m.push_str(": image of size ");
    push_decimal(&mut m, width as u64);
    m.push_str(" x ");
    push_decimal(&mut m, height as u64);
    m.push_str(" ");
    assert(m@ =~= empty_image_text(filename@, width as nat, height as nat));
    m
}

/// The message for a file that could not be opened.
pub fn failed_message(filename: &str, error: &Error) -> (m: String)
    ensures
        m@ == failed_text(filename@, error@.display()),
{
    let mut m = String::new();
    m.push_str(" ");
    m.push_str(filename);
    m.push_str(": ");
    let text = error.describe();
    m.push_str(text.as_str());
    m.push_str(" ");
    assert(m@ =~= failed_text(filename@, error@.display()));
    m
}

/// The status message of a session and until when it is shown.
#[derive(Debug)]
pub struct Banner {
    /// The text of the message.
    pub message: String,
    /// The time in milliseconds until which the message is shown.
    pub until: u64,
    /// The message is on the screen.
    pub shown: bool,
}

/// What is done about the message in a frame.
#[derive(Clone, Copy, Debug, PartialEq, Eq, Structural)]
pub enum OverlayStep {
    /// Write the message over the image.
    Draw,
    /// A shorter message took the place of a longer one: write the bottom
    /// row anew, and then the message over it.
    Redraw,
    /// The message has run out: write the bottom row anew.
    Hide,
    /// Nothing to do.
    Rest,
}

/// What is done about a message shown until `until` in a frame that began
/// at `now`, where `updated` says that the message was replaced
/// in this frame, by one of `new_len` characters for one of `old_len`.
pub open spec fn overlay_step(
    until: u64,
    now: u64,
    updated: bool,
    old_len: nat,
    new_len: nat,
    shown: bool,
) -> OverlayStep {
    if until >= now {
        if updated && old_len > new_len {
            OverlayStep::Redraw
        } else {
            OverlayStep::Draw
        }
    } else if shown {
        OverlayStep::Hide
    } else {
        OverlayStep::Rest
    }
}

impl Banner {
    /// No message.
    pub fn new() -> (b: Banner)
        ensures
            b.message@ == Seq::<char>::empty(),
            b.until == 0,
            !b.shown,
    {
        Banner { message: String::new(), until: 0, shown: false }
    }

    /// Replaces the message by one that is shown for the usual time from
    /// `now` on.
    pub fn post(&mut self, message: String, now: u64)
        ensures
            final(self).message@ == message@,
            final(self).until == if now + MESSAGE_DISPLAY_DURATION > u64::MAX {
                u64::MAX
            } else {
                (now + MESSAGE_DISPLAY_DURATION) as u64
            },
            final(self).shown == old(self).shown,
    {
        self.message = message;
        self.until = if now > u64::MAX - MESSAGE_DISPLAY_DURATION {
            u64::MAX
        } else {
            now + MESSAGE_DISPLAY_DURATION
        };
    }

    /// Replaces the message by one that stays until another takes its place.
    pub fn post_error(&mut self, message: String)
        ensures
            final(self).message@ == message@,
            final(self).until == u64::MAX,
            final(self).shown == old(self).shown,
    {
        self.message = message;
        self.until = u64::MAX;
    }

    /// Decides what is done about the message in a frame that began at
    /// `now`, and records whether the message is on the screen.
    /// `updated` says that the message was replaced in this frame, and
    /// `old_len` how many characters the one before it had.
    pub fn settle(&mut self, now: u64, updated: bool, old_len: usize) -> (step: OverlayStep)
        ensures
            step == overlay_step(
                old(self).until,
                now,
                updated,
                old_len as nat,
                old(self).message@.len(),
                old(self).shown,
            ),
            final(self).message@ == old(self).message@,
            final(self).until == old(self).until,
            final(self).shown == match step {
                OverlayStep::Draw => true,
                OverlayStep::Redraw => true,
                OverlayStep::Hide => false,
                OverlayStep::Rest => old(self).shown,
            },
    {
        if self.until >= now {
            if updated && old_len > self.message.as_str().unicode_len() {
                self.shown = true;
                OverlayStep::Redraw
            } else {
                self.shown = true;
                OverlayStep::Draw
            }
        } else if self.shown {
            self.shown = false;
            OverlayStep::Hide
        } else {
            OverlayStep::Rest
        }
    }
}

/// The column in which a message of `len` characters starts so that it
/// stands in the middle of `term_width` columns, counted from one.
pub open spec fn centered_column(len: nat, term_width: nat) -> nat {
    if len < term_width {
        ((term_width - len) / 2 + 1) as nat
    } else {
        1
    }
}

/// The text row at the bottom of a drawing area `term_height` pixels high,
/// counted from one.
pub open spec fn bottom_row(term_height: nat) -> nat {
    (term_height + 1) / 2
}

/// The text that shows `message` in white on black in the middle of the
/// bottom row. What of the message does not fit into the row is left out.
pub open spec fn overlay_text(message: Seq<char>, term_width: nat, term_height: nat) -> Seq<char> {
    cursor_to(bottom_row(term_height), centered_column(message.len(), term_width))
        + "\x1B[38;2;255;255;255m\x1B[48;2;0;0;0m"@ + (if message.len() > term_width {
        message.take(term_width as int)
    } else {
        message
    })
}

/// Appends the text that shows `message` in the middle of the bottom row.
pub fn push_overlay(out: &mut String, message: &str, term_width: u32, term_height: u32)
    ensures
        final(out)@ == old(out)@ + overlay_text(message@, term_width as nat, term_height as nat),
{
    let len = message.unicode_len();
    let column: u64 = if len < term_width as usize {
        ((term_width as usize - len) / 2 + 1) as u64
    } else {
        1
    };
    let row: u64 = term_height as u64 / 2 + term_height as u64 % 2;
    push_cursor_to(out, row, column);
    out.push_str("\x1B[38;2;255;255;255m\x1B[48;2;0;0;0m");
    if len > term_width as usize {
        let part = message.substring_char(0, term_width as usize);
        out.push_str(part);
        assert(part@ =~= message@.take(term_width as int));
    } else {
        out.push_str(message);
    }
    assert(out@ =~= old(out)@ + overlay_text(message@, term_width as nat, term_height as nat));
}

/// The text that clears one side of `count` text rows from row `row` on:
/// for each row the cursor is put in column `column` and the row is erased
/// with `erase`.
pub open spec fn side_clears(row: nat, count: nat, column: nat, erase: Seq<char>) -> Seq<char>
    decreases count,
{
    if count == 0 {
        Seq::empty()
    } else {
        side_clears(row, (count - 1) as nat, column, erase) + cursor_to(
            row + (count - 1) as nat,
            column,
        ) + erase
    }
}

/// Where an image smaller than the drawing area lies in it, in pixels.
#[derive(Clone, Copy, Debug, PartialEq, Eq, Structural)]
pub struct Margins {
    /// Columns left of the image.
    pub x: u32,
    /// Pixel rows above the image.
    pub y: u32,
    /// Width of the image.
    pub width: u32,
    /// Height of the image.
    pub height: u32,
    /// Width of the drawing area.
    pub term_width: u32,
    /// Height of the drawing area.
    pub term_height: u32,
}

impl Margins {
    /// The text row of the image's first pixel row, counted from one.
    pub open spec fn first_row(self) -> nat {
        (self.y / 2 + 1) as nat
    }

    /// Number of text rows of the image.
    pub open spec fn rows(self) -> nat {
        ((self.height + 1) / 2) as nat
    }

    /// The text that erases what lies above the image, if anything does.
    pub open spec fn above_text(self) -> Seq<char> {
        if self.y > 0 {
            cursor_to(self.first_row(), 1) + "\x1B[1J"@
        } else {
            Seq::empty()
        }
    }

    /// The text that erases what lies left of the image, if anything does.
    pub open spec fn left_text(self) -> Seq<char> {
        if self.x > 0 {
            side_clears(self.first_row(), self.rows(), self.x as nat, "\x1B[1K"@)
        } else {
            Seq::empty()
        }
    }

    /// The text that erases what lies right of the image, if anything does.
    pub open spec fn right_text(self) -> Seq<char> {
        if self.x + self.width < self.term_width {
            side_clears(self.first_row(), self.rows(), (self.x + 1 + self.width) as nat, "\x1B[0K"@)
        } else {
            Seq::empty()
        }
    }

    /// The text that erases what lies below the image, if anything does.
    pub open spec fn below_text(self) -> Seq<char> {
        if (self.y + self.height + 1) / 2 < self.term_height / 2 {
            cursor_to(self.first_row() + self.rows(), 1) + "\x1B[0J"@
        } else {
            Seq::empty()
        }
    }

    /// The text that blacks out what of the drawing area the image does not
    /// cover: nothing if it covers all of it; else the colors are set to
    /// black, and then what lies above, left, right and below is erased.
    pub open spec fn text(self) -> Seq<char> {
        if self.width < self.term_width || self.height < self.term_height {
            "\x1B[38;2;0;0;0m\x1B[48;2;0;0;0m"@ + self.above_text() + self.left_text()
                + self.right_text() + self.below_text()
        } else {
            Seq::empty()
        }
    }
}

/// Appends the text that clears one side of `count` text rows.
fn push_side_clears(out: &mut String, row: u64, count: u64, column: u64, erase: &str)
    requires
        row + count <= u64::MAX,
    ensures
        final(out)@ == old(out)@ + side_clears(row as nat, count as nat, column as nat, erase@),
{
    let mut i: u64 = 0;
    assert(out@ =~= old(out)@ + side_clears(row as nat, 0, column as nat, erase@));
    while i < count
        invariant
            i <= count,
            row + count <= u64::MAX,
            out@ == old(out)@ + side_clears(row as nat, i as nat, column as nat, erase@),
        decreases count - i,
    {
        push_cursor_to(out, row + i, column);
        out.push_str(erase);
        assert(out@ =~= old(out)@ + side_clears(row as nat, (i + 1) as nat, column as nat, erase@));
        i += 1;
    }
}

fn push_above(out: &mut String, m: Margins)
    ensures
        final(out)@ == old(out)@ + m.above_text(),
{
    if m.y > 0 {
        push_cursor_to(out, m.y as u64 / 2 + 1, 1);
        out.push_str("\x1B[1J");
        assert(out@ =~= old(out)@ + m.above_text());
    } else {
        assert(out@ =~= old(out)@ + m.above_text());
    }
}

fn push_left(out: &mut String, m: Margins)
    ensures
        final(out)@ == old(out)@ + m.left_text(),
{
    if m.x > 0 {
        push_side_clears(out, m.y as u64 / 2 + 1, (m.height as u64 + 1) / 2, m.x as u64, "\x1B[1K");
    } else {
        assert(out@ =~= old(out)@ + m.left_text());
    }
}

fn push_right(out: &mut String, m: Margins)
    ensures
        final(out)@ == old(out)@ + m.right_text(),
{
    if (m.x as u64) + (m.width as u64) < m.term_width as u64 {
        push_side_clears(
            out,
            m.y as u64 / 2 + 1,
            (m.height as u64 + 1) / 2,
            m.x as u64 + 1 + m.width as u64,
            "\x1B[0K",
        );
    } else {
        assert(out@ =~= old(out)@ + m.right_text());
    }
}

fn push_below(out: &mut String, m: Margins)
    ensures
        final(out)@ == old(out)@ + m.below_text(),
{
    if (m.y as u64 + m.height as u64 + 1) / 2 < (m.term_height as u64) / 2 {
        push_cursor_to(out, m.y as u64 / 2 + 1 + (m.height as u64 + 1) / 2, 1);
        out.push_str("\x1B[0J");
        assert(out@ =~= old(out)@ + m.below_text());
    } else {
        assert(out@ =~= old(out)@ + m.below_text());
    }
}

/// Appends the text that blacks out what of the drawing area the image does
/// not cover.
pub fn push_margins(out: &mut String, m: Margins)
    ensures
        final(out)@ == old(out)@ + m.text(),
{
    if m.width < m.term_width || m.height < m.term_height {
        out.push_str("\x1B[38;2;0;0;0m\x1B[48;2;0;0;0m");
        push_above(out, m);
        push_left(out, m);
        push_right(out, m);
        push_below(out, m);
        assert(out@ =~= old(out)@ + ("\x1B[38;2;0;0;0m\x1B[48;2;0;0;0m"@ + m.above_text()
            + m.left_text() + m.right_text() + m.below_text()));
    } else {
        assert(out@ =~= old(out)@ + m.text());
    }
}

} // verus!
