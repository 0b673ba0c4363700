//! Compact QR code rendering with block characters: each text line shows two
//! rows of modules, with a light quiet zone of two characters around.

use crate::text::{push_char, texts};
use vstd::prelude::*;

verus! {

/// Why a QR code could not be built (the variants of `qrcode::types::QrError`).
#[derive(Debug, Clone, Copy, PartialEq, Eq, Structural)]
pub enum QrFault {
    DataTooLong,
    InvalidVersion,
    UnsupportedCharacterSet,
    InvalidEciDesignator,
    InvalidCharacter,
}

/// The QR code that `qrcode::QrCode::new` builds for the bytes of a text, as
/// its width and its modules row by row (`true` for dark), or why it failed.
pub uninterp spec fn qr_encoding(data: Seq<char>) -> Result<(usize, Seq<bool>), QrFault>;

/// `qrcode::QrCode::new` on the UTF-8 bytes of `data`, at the default error
/// correction level: the width and the module colours (`to_colors`, dark as
/// `true`), or the error mapped to `QrFault`. The modules are a square of
/// `width * width` (the canvas is allocated so in the crate's source); which
/// code is chosen is left to the crate.
#[verifier::external_body]
fn qr_matrix(data: &str) -> (r: Result<(usize, Vec<bool>), QrFault>)
    ensures
        match r {
            Ok((w, m)) => qr_encoding(data@) == Ok::<(usize, Seq<bool>), QrFault>((w, m@)) && m@.len()
                == w * w,
            Err(e) => qr_encoding(data@) == Err::<(usize, Seq<bool>), QrFault>(e),
        },
{
    match qrcode::QrCode::new(data.as_bytes()) {
        Ok(code) => Ok((
            code.width(),
            code.to_colors().into_iter().map(|c| c == qrcode::types::Color::Dark).collect(),
        )),
        Err(qrcode::types::QrError::DataTooLong) => Err(QrFault::DataTooLong),
        Err(qrcode::types::QrError::InvalidVersion) => Err(QrFault::InvalidVersion),
        Err(qrcode::types::QrError::UnsupportedCharacterSet) => Err(QrFault::UnsupportedCharacterSet),
        Err(qrcode::types::QrError::InvalidEciDesignator) => Err(QrFault::InvalidEciDesignator),
        Err(qrcode::types::QrError::InvalidCharacter) => Err(QrFault::InvalidCharacter),
    }
}

/// The character for a column of two modules: light/light is a space,
/// light over dark `▄`, dark over light `▀`, dark/dark `█`.
pub open spec fn block_char(top: bool, bottom: bool) -> char {
    if top {
        if bottom { '█' } else { '▀' }
    } else {
        if bottom { '▄' } else { ' ' }
    }
}

/// `n` spaces.
pub open spec fn spaces(n: nat) -> Seq<char> {
    Seq::new(n, |i: int| ' ')
}

/// The text line for module rows `r` and `r + 1` of a `w`-wide code (a row
/// past the bottom is light), between two-space borders.
pub open spec fn qr_row_line(m: Seq<bool>, w: nat, r: int) -> Seq<char> {
    spaces(2) + Seq::new(w, |c: int| block_char(m[r * w + c], r + 1 < w && m[(r + 1) * w + c]))
        + spaces(2)
}

/// The lines showing a `w`-wide code with modules `m`: two blank lines, one
/// line per pair of rows, two blank lines; every line is `w + 4` wide.
pub open spec fn qr_lines(w: nat, m: Seq<bool>) -> Seq<Seq<char>> {
    let border = spaces(w + 4);
    seq![border, border] + Seq::new((w + 1) / 2, |k: int| qr_row_line(m, w, 2 * k)) + seq![border, border]
}

fn block_char_of(top: bool, bottom: bool) -> (c: char)
    ensures
        c == block_char(top, bottom),
{
    if top {
        if bottom { '█' } else { '▀' }
    } else {
        if bottom { '▄' } else { ' ' }
    }
}

fn spaces_line(n: usize) -> (s: String)
    ensures
        s@ == spaces(n as nat),
{
    let mut s = String::new();
    let mut i: usize = 0;
    while i < n
        invariant
            i <= n,
            s@ == spaces(i as nat),
        decreases n - i,
    {
        push_char(&mut s, ' ');
        i = i + 1;
        assert(s@ =~= spaces(i as nat));
    }
    s
}

proof fn lemma_row_index(w: int, r: int, c: int)
    requires
        0 <= r < w,
        0 <= c < w,
    ensures
        0 <= r * w + c < w * w,
{
    assert(r * w + c < w * w) by (nonlinear_arith)
        requires
            0 <= r < w,
            0 <= c < w,
    ;
    assert(0 <= r * w) by (nonlinear_arith)
        requires
            0 <= r,
            0 <= w,
    ;
}

fn qr_row(m: &Vec<bool>, w: usize, r: usize) -> (s: String)
    requires
        m@.len() == w * w,
        r < w,
    ensures
        s@ == qr_row_line(m@, w as nat, r as int),
{
    let total = m.len();
    let mut s = spaces_line(2);
    let mut c: usize = 0;
    proof {
        lemma_row_index(w as int, r as int, 0);
    }
    while c < w
        invariant
            m@.len() == w * w,
            total == w * w,
            r < w,
            c <= w,
            s@ == spaces(2) + Seq::new(
                c as nat,
                |k: int| block_char(m@[r * w + k], r + 1 < w && m@[(r + 1) * w + k]),
            ),
        decreases w - c,
    {
        proof {
            lemma_row_index(w as int, r as int, c as int);
            if r + 1 < w {
                lemma_row_index(w as int, r + 1, c as int);
            }
        }
        let top = m[r * w + c];
        let bottom = if r + 1 < w { m[(r + 1) * w + c] } else { false };
        push_char(&mut s, block_char_of(top, bottom));
        c = c + 1;
        assert(s@ =~= spaces(2) + Seq::new(
            c as nat,
            |k: int| block_char(m@[r * w + k], r + 1 < w && m@[(r + 1) * w + k]),
        ));
    }
    push_char(&mut s, ' ');
    push_char(&mut s, ' ');
    assert(s@ =~= qr_row_line(m@, w as nat, r as int));
    s
}

/// The lines showing the code of width `w` with modules `m` (dark as `true`).
pub fn render_qr_lines(w: usize, m: &Vec<bool>) -> (lines: Vec<String>)
    requires
        m@.len() == w * w,
    ensures
        texts(lines@) == qr_lines(w as nat, m@),
{
    let total = m.len();
    proof {
        if w >= 3 {
            assert(w + 4 <= w * w) by (nonlinear_arith)
                requires
                    w >= 3,
            ;
        }
    }
    let border = spaces_line(w + 4);
    let mut lines: Vec<String> = Vec::new();
    lines.push(border.clone());
    lines.push(border.clone());
    let ghost head = seq![border@, border@];
    assert(texts(lines@) =~= head);
    let mut row: usize = 0;
    while row < w
        invariant
            m@.len() == w * w,
            w + 4 <= usize::MAX,
            row <= w + 1,
            row % 2 == 0,
            texts(lines@) == head + Seq::new(
                (row / 2) as nat,
                |k: int| qr_row_line(m@, w as nat, 2 * k),
            ),
        decreases w + 1 - row,
    {
        let line = qr_row(m, w, row);
        let ghost before = lines@;
        lines.push(line);
        assert(texts(lines@) =~= texts(before).push(line@));
        assert(2 * (row / 2) == row);
        row = row + 2;
        assert(texts(lines@) =~= head + Seq::new(
            (row / 2) as nat,
            |k: int| qr_row_line(m@, w as nat, 2 * k),
        ));
    }
    assert(row / 2 == (w + 1) / 2);
    lines.push(border.clone());
    lines.push(border);
    assert(texts(lines@) =~= qr_lines(w as nat, m@));
    lines
}

/// Renders `data` as a QR code in compact block characters (see
/// `render_qr_lines`), or tells why no QR code could be built.
pub fn render_qr_compact(data: &str) -> (r: Result<Vec<String>, QrFault>)
    ensures
        match qr_encoding(data@) {
            Ok((w, m)) => r matches Ok(lines) && texts(lines@) == qr_lines(w as nat, m),
            Err(e) => r == Err::<Vec<String>, QrFault>(e),
        },
{
    match qr_matrix(data) {
        Ok((w, m)) => Ok(render_qr_lines(w, &m)),
        Err(e) => Err(e),
    }
}

} // verus!
