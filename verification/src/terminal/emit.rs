//! The control sequences that set a pen or a cursor position, as a program
//! writes them to a terminal.

use vstd::prelude::*;
use crate::terminal::grid::Colour;

verus! {

/// The decimal digits of `n`, most significant first.
pub open spec fn decimal(n: nat) -> Seq<u8>
    decreases n,
{
    if n < 10 {
        seq![(0x30 + n) as u8]
    } else {
        decimal(n / 10).push((0x30 + n % 10) as u8)
    }
}

/// The SGR parameter that selects `colour` as the foreground.
pub open spec fn fg_code(colour: Colour) -> nat {
    match colour {
        Colour::Default => 39,
        Colour::Black => 30,
        Colour::Red => 31,
        Colour::Green => 32,
        Colour::Yellow => 33,
        Colour::Blue => 34,
        Colour::Magenta => 35,
        Colour::Cyan => 36,
        Colour::White => 37,
        Colour::BrightBlack => 90,
        Colour::BrightRed => 91,
        Colour::BrightGreen => 92,
        Colour::BrightYellow => 93,
        Colour::BrightBlue => 94,
        Colour::BrightMagenta => 95,
        Colour::BrightCyan => 96,
        Colour::BrightWhite => 97,
    }
}

/// The SGR parameter that selects `colour` as the background.
pub open spec fn bg_code(colour: Colour) -> nat {
    fg_code(colour) + 10
}

/// `ESC [ code m`: the sequence that hands the one parameter `code` to SGR.
pub open spec fn sgr_code_bytes(code: nat) -> Seq<u8> {
    seq![0x1Bu8, 0x5Bu8] + decimal(code) + seq![0x6Du8]
}

/// `ESC [ fg ; bg m`: the sequence that sets the pen to `(fg, bg)`.
pub open spec fn sgr_bytes(fg: Colour, bg: Colour) -> Seq<u8> {
    seq![0x1Bu8, 0x5Bu8] + decimal(fg_code(fg)) + seq![0x3Bu8] + decimal(bg_code(bg)) + seq![
        0x6Du8,
    ]
}

/// `ESC [ row+1 ; col+1 H`: the sequence that moves the cursor to the
/// zero-based `(col, row)`.
pub open spec fn cup_bytes(col: int, row: int) -> Seq<u8> {
    seq![0x1Bu8, 0x5Bu8] + decimal((row + 1) as nat) + seq![0x3Bu8] + decimal((col + 1) as nat)
        + seq![0x48u8]
}

/// Appends the decimal digits of `n`.
fn push_decimal(out: &mut Vec<u8>, n: u32)
    ensures
        final(out)@ == old(out)@ + decimal(n as nat),
    decreases n,
{
    if n >= 10 {
        push_decimal(out, n / 10);
    }
    out.push(0x30 + (n % 10) as u8);
    assert(out@ =~= old(out)@ + decimal(n as nat));
}

/// The SGR parameter that selects `colour` as the foreground.
fn foreground_parameter(colour: Colour) -> (code: u32)
    ensures
        code == fg_code(colour),
{
    match colour {
        Colour::Default => 39,
        Colour::Black => 30,
        Colour::Red => 31,
        Colour::Green => 32,
        Colour::Yellow => 33,
        Colour::Blue => 34,
        Colour::Magenta => 35,
        Colour::Cyan => 36,
        Colour::White => 37,
        Colour::BrightBlack => 90,
        Colour::BrightRed => 91,
        Colour::BrightGreen => 92,
        Colour::BrightYellow => 93,
        Colour::BrightBlue => 94,
        Colour::BrightMagenta => 95,
        Colour::BrightCyan => 96,
        Colour::BrightWhite => 97,
    }
}

/// The bytes that set the pen of a terminal to `(fg, bg)`.
pub fn sgr_sequence(fg: Colour, bg: Colour) -> (bytes: Vec<u8>)
    ensures
        bytes@ == sgr_bytes(fg, bg),
{
    let mut bytes: Vec<u8> = Vec::new();
    bytes.push(0x1B);
    bytes.push(0x5B);
    assert(bytes@ =~= seq![0x1Bu8, 0x5Bu8]);
    push_decimal(&mut bytes, foreground_parameter(fg));
    bytes.push(0x3B);
    push_decimal(&mut bytes, foreground_parameter(bg) + 10);
    bytes.push(0x6D);
    assert(bytes@ =~= sgr_bytes(fg, bg));
    bytes
}

/// The bytes that move the cursor of a terminal to the zero-based `(col, row)`.
pub fn cup_sequence(col: u16, row: u16) -> (bytes: Vec<u8>)
    ensures
        bytes@ == cup_bytes(col as int, row as int),
{
    let mut bytes: Vec<u8> = Vec::new();
    bytes.push(0x1B);
    bytes.push(0x5B);
    assert(bytes@ =~= seq![0x1Bu8, 0x5Bu8]);
    push_decimal(&mut bytes, row as u32 + 1);
    bytes.push(0x3B);
    push_decimal(&mut bytes, col as u32 + 1);
    bytes.push(0x48);
    assert(bytes@ =~= cup_bytes(col as int, row as int));
    bytes
}

} // verus!
