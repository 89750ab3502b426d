//! The bytes that the terminal commands of `crossterm` write, as spec
//! functions, and the trusted wrappers that let the renderer append them to
//! its output buffer.

use vstd::prelude::*;

verus! {

/// A colour as red, green and blue intensities.
pub type Rgb = (u8, u8, u8);

/// The control sequence introducer: `ESC [`.
pub open spec fn csi() -> Seq<u8> {
    seq![0x1bu8, 0x5bu8]
}

/// The ASCII decimal digits of `n`, most significant first, with no
/// leading zero (`0` is written as a single digit).
pub open spec fn decimal(n: nat) -> Seq<u8>
    decreases n,
{
    if n < 10 {
        seq![(n + 48) as u8]
    } else {
        decimal(n / 10).push((n % 10 + 48) as u8)
    }
}

/// `ESC [ row+1 ; col+1 H`: moves the cursor to the zero-based cell
/// in column `col` and row `row`.
pub open spec fn move_to_bytes(col: u16, row: u16) -> Seq<u8> {
    csi() + decimal(row as nat + 1) + seq![0x3bu8] + decimal(col as nat + 1) + seq![0x48u8]
}

/// The select-graphic-rendition sequence that sets the foreground colour:
/// `ESC [ 38;2;r;g;b m` while colour output is on, and `ESC [ m` while the
/// `NO_COLOR` convention has switched it off.
pub open spec fn foreground_bytes(color: Rgb, colored: bool) -> Seq<u8> {
    if colored {
        csi() + seq![0x33u8, 0x38u8, 0x3bu8, 0x32u8, 0x3bu8] + decimal(color.0 as nat) + seq![0x3bu8]
            + decimal(color.1 as nat) + seq![0x3bu8] + decimal(color.2 as nat) + seq![0x6du8]
    } else {
        csi() + seq![0x6du8]
    }
}

/// The UTF-8 encoding of a character.
pub open spec fn utf8_bytes(c: char) -> Seq<u8> {
    let n = c as nat;
    if n < 0x80 {
        seq![n as u8]
    } else if n < 0x800 {
        seq![(0xc0 + n / 64) as u8, (0x80 + n % 64) as u8]
    } else if n < 0x10000 {
        seq![(0xe0 + n / 4096) as u8, (0x80 + (n / 64) % 64) as u8, (0x80 + n % 64) as u8]
    } else {
        seq![
            (0xf0 + n / 262144) as u8,
            (0x80 + (n / 4096) % 64) as u8,
            (0x80 + (n / 64) % 64) as u8,
            (0x80 + n % 64) as u8,
        ]
    }
}

/// How a foreground-colour command reached the output buffer.
#[derive(PartialEq, Eq, Structural)]
pub enum ColorWrite {
    /// Written as ANSI text with colour output on.
    Colored,
    /// Written as ANSI text with colour output switched off by `NO_COLOR`.
    Plain,
    /// Not written to the buffer at all.
    Omitted,
}

/// The bytes a foreground-colour command leaves in the buffer.
pub open spec fn color_bytes(color: Rgb, how: ColorWrite) -> Seq<u8> {
    match how {
        ColorWrite::Colored => foreground_bytes(color, true),
        ColorWrite::Plain => foreground_bytes(color, false),
        ColorWrite::Omitted => Seq::empty(),
    }
}

/// `std::io::Error`, carried through as an opaque value.
#[verifier::external_type_specification]
#[verifier::external_body]
pub struct ExIoError(std::io::Error);

/// Queues `crossterm::cursor::MoveTo(col, row)` on the buffer as ANSI
/// text, the form `crossterm::QueueableCommand::queue` writes to every
/// terminal that takes ANSI text: the text of `MoveTo::write_ansi`, which
/// formats `csi!("{};{}H")` with `row + 1` and `col + 1`, that is
/// `move_to_bytes`. Writing into a `String` does not fail, so the result is
/// always `Ok`. The `+ 1` is done on `u16`, hence neither coordinate may be
/// `u16::MAX`.
#[verifier::external_body]
pub(crate) fn queue_move_to(buf: &mut Vec<u8>, col: u16, row: u16) -> (res: Result<(), std::io::Error>)
    requires
        col < u16::MAX,
        row < u16::MAX,
    ensures
        final(buf)@ == old(buf)@ + move_to_bytes(col, row),
        res is Ok,
{
    let mut text = String::new();
    let _ = crossterm::Command::write_ansi(&crossterm::cursor::MoveTo(col, row), &mut text);
    buf.extend_from_slice(text.as_bytes());
    Ok(())
}

/// Queues `crossterm::style::SetForegroundColor(Color::from(color))` on the
/// buffer as ANSI text: the text of its `write_ansi`, `csi!("{}m")` around
/// the `Display` of `Colored::ForegroundColor(Color::Rgb { r, g, b })`,
/// which is `38;2;r;g;b`, or nothing once
/// `Colored::ansi_color_disabled_memoized` reports colour output off
/// (`NO_COLOR` in the environment, or `Colored::set_ansi_color_disabled`,
/// which may change it at any time); so the contract names both. Writing
/// into a `String` does not fail.
#[verifier::external_body]
pub(crate) fn queue_foreground(buf: &mut Vec<u8>, color: Rgb) -> (res: Result<(), std::io::Error>)
    ensures
        final(buf)@ == old(buf)@ + color_bytes(color, ColorWrite::Colored)
            || final(buf)@ == old(buf)@ + color_bytes(color, ColorWrite::Plain),
        res is Ok,
{
    let mut text = String::new();
    let command = crossterm::style::SetForegroundColor(crossterm::style::Color::from(color));
    let _ = crossterm::Command::write_ansi(&command, &mut text);
    buf.extend_from_slice(text.as_bytes());
    Ok(())
}

/// Queues `crossterm::style::Print(glyph)` on the buffer as ANSI text: the
/// glyph formatted with `{}`, its UTF-8 encoding. Writing into a `String`
/// does not fail.
#[verifier::external_body]
pub(crate) fn queue_print(buf: &mut Vec<u8>, glyph: char) -> (res: Result<(), std::io::Error>)
    ensures
        final(buf)@ == old(buf)@ + utf8_bytes(glyph),
        res is Ok,
{
    let mut text = String::new();
    let _ = crossterm::Command::write_ansi(&crossterm::style::Print(glyph), &mut text);
    buf.extend_from_slice(text.as_bytes());
    Ok(())
}

} // verus!
