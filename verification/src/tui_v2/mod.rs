//! The second design of the panel: a red globe on black.
//!
//! It shares the screens and the keys of the first; see [`crate::tui`]. What
//! is its own is the header.

use vstd::prelude::*;

use crate::tui::paint;
use crate::tui::paint::{add_line, hue_of, no_lines, Line, Role, Span, SpanText};
use crate::tui::state::Flavor;

verus! {

/// The wireframe globe.
pub const GLOBE: [&'static str; 23] = [
    "                       ███████████                       ",
    "                   ████           ████                   ",
    "                ███                   ███                ",
    "              ██                         ██              ",
    "            ██                             ██            ",
    "           █               ───┬───               █           ",
    "          █           ──────┼──────              █          ",
    "        █           ──  │   │   │  ──           █        ",
    "       █           │ ╲  │  ╱│╲  │ ╱  │           █       ",
    "       █           │  ╲ │ ╱ │ ╲ │╱   │           █       ",
    "      █            │   ╲│╱  │  ╲│   │            █      ",
    "      █      ──────┼────╳───┼───╳────┼──────      █      ",
    "      █            │   ╱│╲  │  ╱│   │            █      ",
    "       █           │  ╱ │ ╲ │ ╱ │╲  │           █       ",
    "       █           │ ╱  │  ╲│╱  │ ╲ │           █       ",
    "        █           ──  │   │   │  ──           █        ",
    "          █           ──────┼──────              █          ",
    "           █               ───┴───               █           ",
    "            ██                             ██            ",
    "              ██                         ██              ",
    "                ███                   ███                ",
    "                   ████           ████                   ",
    "                       ███████████                       ",
];

/// The eye in its middle.
pub const EYE_LINES: [&'static str; 3] = [
    "      ─      ──────┼───╱▓▓▓▓▓▓▓▓▓▓▓▓▓▓╲───┼──────      ─      ",
    "      ─            │  ╱▓▓▓▓▓▓▓▓●▓▓▓▓▓▓╲ │            ─      ",
    "      ─      ──────┼───╲▓▓▓▓▓▓▓▓▓▓▓▓▓▓╱───┼──────      ─      ",
];

/// A row of the header: the globe, with the eye in its middle.
pub open spec fn header_row(i: int) -> SpanText {
    let c = paint::hue(Flavor::Red, Role::Accent);
    if 11 <= i <= 13 {
        paint::strong(EYE_LINES@[i - 11]@, c)
    } else {
        paint::colored(GLOBE@[i]@, c)
    }
}

/// The header: the globe, the title and the subtitle.
pub open spec fn header() -> Seq<Seq<SpanText>> {
    let c = paint::hue(Flavor::Red, Role::Accent);
    Seq::new(23, |i: int| seq![header_row(i)]).push(seq![paint::plain(""@)]).push(
        seq![paint::strong("GHOST PROVIDER"@, c)],
    ).push(seq![paint::colored("Программное обеспечение для самохостинга"@, c)])
}

pub fn draw_header() -> (r: Vec<Line>)
    ensures
        paint::painted(r@) == header(),
{
    let c = hue_of(Flavor::Red, Role::Accent);
    let mut out = no_lines();
    let globe = GLOBE;
    let eye = EYE_LINES;
    let mut i: usize = 0;
    while i < 23
        invariant
            i <= 23,
            c == paint::hue(Flavor::Red, Role::Accent),
            globe@ == GLOBE@,
            eye@ == EYE_LINES@,
            globe@.len() == 23,
            eye@.len() == 3,
            paint::painted(out@) == Seq::new(i as nat, |j: int| seq![header_row(j)]),
        decreases 23 - i,
    {
        if 11 <= i && i <= 13 {
            add_line(&mut out, Line::of(Span::strong(eye[i - 11], c)));
        } else {
            add_line(&mut out, Line::of(Span::colored(globe[i], c)));
        }
        i = i + 1;
        assert(paint::painted(out@) =~= Seq::new(i as nat, |j: int| seq![header_row(j)]));
    }
    add_line(&mut out, Line::of(Span::raw("")));
    add_line(&mut out, Line::of(Span::strong("GHOST PROVIDER", c)));
    add_line(&mut out, Line::of(Span::colored("Программное обеспечение для самохостинга", c)));
    out
}

/// The header ends with the title and the subtitle; above them stand the rows of the
/// globe, of which the three in the middle are those of the eye.
pub proof fn law_header(i: int)
    requires
        0 <= i < 23,
    ensures
        header().len() == 26,
        header()[24][0].content == "GHOST PROVIDER"@,
        header()[25][0].content == "Программное обеспечение для самохостинга"@,
        header()[i].len() == 1,
        11 <= i <= 13 ==> header()[i][0].content == EYE_LINES@[i - 11]@,
        i < 11 || i > 13 ==> header()[i][0].content == GLOBE@[i]@,
        header()[i][0].style.bold <==> 11 <= i <= 13,
{
}

} // verus!
