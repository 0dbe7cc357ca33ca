//! Coloured text: spans, lines, and the two palettes.

use vstd::prelude::*;

use crate::tui::state::Flavor;

verus! {

/// A colour of the terminal.
#[derive(Debug, Clone, Copy, PartialEq, Eq, Structural)]
pub enum Color {
    Rgb(u8, u8, u8),
    White,
    Black,
}

/// How a span looks.
#[derive(Debug, Clone, Copy, PartialEq, Eq, Structural)]
pub struct Style {
    pub fg: Option<Color>,
    pub bg: Option<Color>,
    pub bold: bool,
    pub reversed: bool,
}

/// A run of characters that look alike.
#[derive(Debug)]
pub struct Span {
    pub content: String,
    pub style: Style,
}

/// What a span says, and how.
#[verifier::ext_equal]
pub struct SpanText {
    pub content: Seq<char>,
    pub style: Style,
}

impl View for Span {
    type V = SpanText;

    open spec fn view(&self) -> SpanText {
        SpanText { content: self.content@, style: self.style }
    }
}

/// A line of spans.
#[derive(Debug)]
pub struct Line {
    pub spans: Vec<Span>,
}

impl View for Line {
    type V = Seq<SpanText>;

    open spec fn view(&self) -> Seq<SpanText> {
        self.spans@.map_values(|s: Span| s@)
    }
}

/// What a list of lines says.
pub open spec fn painted(v: Seq<Line>) -> Seq<Seq<SpanText>> {
    v.map_values(|l: Line| l@)
}

/// What a colour is for. Each design has its own colours.
#[derive(Debug, Clone, Copy, PartialEq, Eq, Structural)]
pub enum Role {
    /// Chrome and commands.
    Accent,
    /// Success.
    Good,
    /// Warnings.
    Warn,
    /// Failures.
    Bad,
    /// Secondary text.
    Dim,
    /// Regular text.
    Body,
    /// Emphasised text.
    Strong,
    /// A question.
    Prompt,
    /// Input, and what is ours.
    Input,
    /// Sections of the scan.
    Section,
    /// Ports that are not ours.
    Foreign,
    /// The services screen.
    Services,
    /// A choice that is not highlighted.
    Faint,
    /// Every other row.
    Zebra,
    /// The deploy screen.
    Deploy,
    /// An invitation.
    Invite,
    /// What is written on a coloured ground.
    Ink,
}

/// The colour of a role in a design.
pub open spec fn hue(f: Flavor, r: Role) -> Color {
    let red = Color::Rgb(255, 0, 18);
    let dim_red = Color::Rgb(170, 0, 12);
    let yellow = Color::Rgb(255, 184, 0);
    let violet = Color::Rgb(171, 130, 255);
    let magenta = Color::Rgb(255, 92, 200);
    let faint = Color::Rgb(150, 160, 174);
    match (f, r) {
        (Flavor::Neon, Role::Accent) => Color::Rgb(64, 220, 255),
        (Flavor::Neon, Role::Good) => Color::Rgb(80, 250, 123),
        (Flavor::Neon, Role::Warn) => yellow,
        (Flavor::Neon, Role::Bad) => Color::Rgb(255, 85, 85),
        (Flavor::Neon, Role::Dim) => Color::Rgb(110, 118, 129),
        (Flavor::Neon, Role::Body) => Color::Rgb(205, 213, 224),
        (Flavor::Neon, Role::Strong) => Color::White,
        (Flavor::Neon, Role::Prompt) => yellow,
        (Flavor::Neon, Role::Input) => yellow,
        (Flavor::Neon, Role::Section) => violet,
        (Flavor::Neon, Role::Foreign) => violet,
        (Flavor::Neon, Role::Services) => Color::Rgb(97, 143, 255),
        (Flavor::Neon, Role::Faint) => faint,
        (Flavor::Neon, Role::Zebra) => faint,
        (Flavor::Neon, Role::Deploy) => magenta,
        (Flavor::Neon, Role::Invite) => magenta,
        (Flavor::Red, Role::Warn) => dim_red,
        (Flavor::Red, Role::Bad) => Color::Rgb(255, 48, 48),
        (Flavor::Red, Role::Dim) => Color::Rgb(90, 0, 9),
        (Flavor::Red, Role::Prompt) => Color::Rgb(90, 0, 9),
        (Flavor::Red, Role::Faint) => Color::Rgb(90, 0, 9),
        (Flavor::Red, Role::Foreign) => dim_red,
        (Flavor::Red, Role::Invite) => dim_red,
        (Flavor::Neon, Role::Ink) => Color::Black,
        (Flavor::Red, Role::Ink) => Color::Rgb(0, 0, 0),
        (Flavor::Red, _) => red,
    }
}

pub fn hue_of(f: Flavor, r: Role) -> (c: Color)
    ensures
        c == hue(f, r),
{
    match (f, r) {
        (Flavor::Neon, Role::Accent) => Color::Rgb(64, 220, 255),
        (Flavor::Neon, Role::Good) => Color::Rgb(80, 250, 123),
        (Flavor::Neon, Role::Warn) => Color::Rgb(255, 184, 0),
        (Flavor::Neon, Role::Bad) => Color::Rgb(255, 85, 85),
        (Flavor::Neon, Role::Dim) => Color::Rgb(110, 118, 129),
        (Flavor::Neon, Role::Body) => Color::Rgb(205, 213, 224),
        (Flavor::Neon, Role::Strong) => Color::White,
        (Flavor::Neon, Role::Prompt) => Color::Rgb(255, 184, 0),
        (Flavor::Neon, Role::Input) => Color::Rgb(255, 184, 0),
        (Flavor::Neon, Role::Section) => Color::Rgb(171, 130, 255),
        (Flavor::Neon, Role::Foreign) => Color::Rgb(171, 130, 255),
        (Flavor::Neon, Role::Services) => Color::Rgb(97, 143, 255),
        (Flavor::Neon, Role::Faint) => Color::Rgb(150, 160, 174),
        (Flavor::Neon, Role::Zebra) => Color::Rgb(150, 160, 174),
        (Flavor::Neon, Role::Deploy) => Color::Rgb(255, 92, 200),
        (Flavor::Neon, Role::Invite) => Color::Rgb(255, 92, 200),
        (Flavor::Red, Role::Warn) => Color::Rgb(170, 0, 12),
        (Flavor::Red, Role::Bad) => Color::Rgb(255, 48, 48),
        (Flavor::Red, Role::Dim) => Color::Rgb(90, 0, 9),
        (Flavor::Red, Role::Prompt) => Color::Rgb(90, 0, 9),
        (Flavor::Red, Role::Faint) => Color::Rgb(90, 0, 9),
        (Flavor::Red, Role::Foreign) => Color::Rgb(170, 0, 12),
        (Flavor::Red, Role::Invite) => Color::Rgb(170, 0, 12),
        (Flavor::Neon, Role::Ink) => Color::Black,
        (Flavor::Red, Role::Ink) => Color::Rgb(0, 0, 0),
        (Flavor::Red, _) => Color::Rgb(255, 0, 18),
    }
}

/// Text without a style.
pub open spec fn plain(t: Seq<char>) -> SpanText {
    SpanText { content: t, style: Style { fg: None, bg: None, bold: false, reversed: false } }
}

/// Text in a colour.
pub open spec fn colored(t: Seq<char>, c: Color) -> SpanText {
    SpanText { content: t, style: Style { fg: Some(c), bg: None, bold: false, reversed: false } }
}

/// Text in a colour, bold or not.
pub open spec fn weighted(t: Seq<char>, c: Color, bold: bool) -> SpanText {
    SpanText { content: t, style: Style { fg: Some(c), bg: None, bold, reversed: false } }
}

/// Bold text in a colour.
pub open spec fn strong(t: Seq<char>, c: Color) -> SpanText {
    weighted(t, c, true)
}

/// Bold text on a coloured ground.
pub open spec fn badge(t: Seq<char>, ink: Color, ground: Color) -> SpanText {
    SpanText {
        content: t,
        style: Style { fg: Some(ink), bg: Some(ground), bold: true, reversed: false },
    }
}

/// No text, on a coloured ground.
pub open spec fn blank(ground: Color) -> SpanText {
    SpanText {
        content: Seq::empty(),
        style: Style { fg: None, bg: Some(ground), bold: false, reversed: false },
    }
}

impl Span {
    pub fn raw(t: &str) -> (r: Self)
        ensures
            r@ == plain(t@),
    {
        Span {
            content: t.to_owned(),
            style: Style { fg: None, bg: None, bold: false, reversed: false },
        }
    }

    pub fn colored(t: &str, c: Color) -> (r: Self)
        ensures
            r@ == colored(t@, c),
    {
        Span {
            content: t.to_owned(),
            style: Style { fg: Some(c), bg: None, bold: false, reversed: false },
        }
    }

    pub fn weighted(t: &str, c: Color, bold: bool) -> (r: Self)
        ensures
            r@ == weighted(t@, c, bold),
    {
        Span {
            content: t.to_owned(),
            style: Style { fg: Some(c), bg: None, bold, reversed: false },
        }
    }

    pub fn strong(t: &str, c: Color) -> (r: Self)
        ensures
            r@ == strong(t@, c),
    {
        Span::weighted(t, c, true)
    }

    pub fn badge(t: &str, ink: Color, ground: Color) -> (r: Self)
        ensures
            r@ == badge(t@, ink, ground),
    {
        Span {
            content: t.to_owned(),
            style: Style { fg: Some(ink), bg: Some(ground), bold: true, reversed: false },
        }
    }

    pub fn blank(ground: Color) -> (r: Self)
        ensures
            r@ == blank(ground),
    {
        let r = Span {
            content: String::new(),
            style: Style { fg: None, bg: Some(ground), bold: false, reversed: false },
        };
        assert(r@ =~= blank(ground));
        r
    }
}

impl Line {
    /// A line without spans.
    pub fn new() -> (r: Self)
        ensures
            r@ == Seq::<SpanText>::empty(),
    {
        let r = Line { spans: Vec::new() };
        assert(r@ =~= Seq::<SpanText>::empty());
        r
    }

    /// A line of one span.
    pub fn of(s: Span) -> (r: Self)
        ensures
            r@ == seq![s@],
    {
        let mut r = Line::new();
        r.add_span(s);
        r
    }

    /// Adds a span at the end.
    pub fn add_span(&mut self, s: Span)
        ensures
            final(self)@ == old(self)@.push(s@),
    {
        let ghost before = self@;
        self.spans.push(s);
        assert(self@ =~= before.push(s@));
    }
}

/// A list without lines.
pub fn no_lines() -> (r: Vec<Line>)
    ensures
        painted(r@) == Seq::<Seq<SpanText>>::empty(),
        r@.len() == 0,
{
    let r: Vec<Line> = Vec::new();
    assert(painted(r@) =~= Seq::<Seq<SpanText>>::empty());
    r
}

/// Adds a line at the end of a list.
pub fn add_line(v: &mut Vec<Line>, l: Line)
    ensures
        painted(final(v)@) == painted(old(v)@).push(l@),
        final(v)@.len() == old(v)@.len() + 1,
{
    let ghost before = painted(v@);
    v.push(l);
    assert(painted(v@) =~= before.push(l@));
}

/// Adds lines at the end of a list.
pub fn add_lines(v: &mut Vec<Line>, more: Vec<Line>)
    ensures
        painted(final(v)@) == painted(old(v)@) + painted(more@),
{
    let ghost before = painted(v@);
    let mut m = more;
    v.append(&mut m);
    assert(painted(v@) =~= before + painted(more@));
}

/// What a line says, span after span.
pub open spec fn said(line: Seq<SpanText>) -> Seq<char>
    decreases line.len(),
{
    if line.len() == 0 {
        Seq::empty()
    } else {
        said(line.drop_last()) + line.last().content
    }
}

/// A span says the text it is made of, in the colours it is given; only the strong
/// ones are bold, and only a badge has a ground.
pub proof fn law_spans_say_their_text(t: Seq<char>, c: Color, ground: Color, bold: bool)
    ensures
        plain(t).content == t && plain(t).style.fg is None && plain(t).style.bg is None,
        colored(t, c).content == t && colored(t, c).style.fg == Some(c) && !colored(t, c).style.bold,
        weighted(t, c, bold).content == t && weighted(t, c, bold).style.fg == Some(c)
            && weighted(t, c, bold).style.bold == bold,
        strong(t, c).content == t && strong(t, c).style.fg == Some(c) && strong(t, c).style.bold,
        badge(t, c, ground).content == t && badge(t, c, ground).style.fg == Some(c)
            && badge(t, c, ground).style.bg == Some(ground) && badge(t, c, ground).style.bold
            && !badge(t, c, ground).style.reversed,
        blank(ground).content.len() == 0 && blank(ground).style.bg == Some(ground),
        colored(t, c).style.bg is None && strong(t, c).style.bg is None,
        !plain(t).style.reversed && !colored(t, c).style.reversed && !strong(t, c).style.reversed,
{
}

/// Success, warnings, failures and secondary text are told apart by their colour in
/// both designs.
pub proof fn law_outcomes_are_told_apart(f: Flavor)
    ensures
        hue(f, Role::Good) != hue(f, Role::Bad),
        hue(f, Role::Good) != hue(f, Role::Warn),
        hue(f, Role::Good) != hue(f, Role::Dim),
        hue(f, Role::Bad) != hue(f, Role::Warn),
        hue(f, Role::Bad) != hue(f, Role::Dim),
        hue(f, Role::Warn) != hue(f, Role::Dim),
        hue(f, Role::Body) != hue(f, Role::Dim),
        hue(f, Role::Input) != hue(f, Role::Foreign),
        hue(f, Role::Strong) != hue(f, Role::Faint),
{
}

/// On the neon panel success is green, a warning amber and a failure red; emphasised
/// text is white.
pub proof fn law_neon_colours()
    ensures
        hue(Flavor::Neon, Role::Accent) == Color::Rgb(64, 220, 255),
        hue(Flavor::Neon, Role::Good) == Color::Rgb(80, 250, 123),
        hue(Flavor::Neon, Role::Warn) == Color::Rgb(255, 184, 0),
        hue(Flavor::Neon, Role::Bad) == Color::Rgb(255, 85, 85),
        hue(Flavor::Neon, Role::Dim) == Color::Rgb(110, 118, 129),
        hue(Flavor::Neon, Role::Body) == Color::Rgb(205, 213, 224),
        hue(Flavor::Neon, Role::Section) == Color::Rgb(171, 130, 255),
        hue(Flavor::Neon, Role::Services) == Color::Rgb(97, 143, 255),
        hue(Flavor::Neon, Role::Faint) == Color::Rgb(150, 160, 174),
        hue(Flavor::Neon, Role::Deploy) == Color::Rgb(255, 92, 200),
        hue(Flavor::Neon, Role::Good) matches Color::Rgb(r, g, b) && g > r && g > b,
        hue(Flavor::Neon, Role::Warn) matches Color::Rgb(r, g, b) && r > g && g > b,
        hue(Flavor::Neon, Role::Bad) matches Color::Rgb(r, g, b) && r > g && g == b,
        hue(Flavor::Neon, Role::Accent) matches Color::Rgb(r, g, b) && b > g && g > r,
        hue(Flavor::Neon, Role::Services) matches Color::Rgb(r, g, b) && b > g && g > r,
        hue(Flavor::Neon, Role::Section) matches Color::Rgb(r, g, b) && b > r && r > g,
        hue(Flavor::Neon, Role::Deploy) matches Color::Rgb(r, g, b) && r > b && b > g,
        hue(Flavor::Neon, Role::Strong) == Color::White,
        hue(Flavor::Neon, Role::Ink) == Color::Black,
        hue(Flavor::Neon, Role::Foreign) == hue(Flavor::Neon, Role::Section),
        hue(Flavor::Neon, Role::Prompt) == hue(Flavor::Neon, Role::Warn),
        hue(Flavor::Neon, Role::Input) == hue(Flavor::Neon, Role::Warn),
        hue(Flavor::Neon, Role::Invite) == hue(Flavor::Neon, Role::Deploy),
        hue(Flavor::Neon, Role::Zebra) == hue(Flavor::Neon, Role::Faint),
{
}

/// The red panel writes in red on whatever ground: all but the ink is a shade of it.
pub proof fn law_red_panel_is_red(role: Role)
    requires
        role != Role::Ink,
    ensures
        hue(Flavor::Red, role) matches Color::Rgb(r, g, b) && r >= 90 && g <= 48 && b <= 48,
        hue(Flavor::Red, Role::Ink) == Color::Rgb(0, 0, 0),
        hue(Flavor::Red, Role::Bad) == Color::Rgb(255, 48, 48),
        role == Role::Dim || role == Role::Prompt || role == Role::Faint ==> hue(Flavor::Red, role)
            == Color::Rgb(90, 0, 9),
        role == Role::Warn || role == Role::Foreign || role == Role::Invite ==> hue(
            Flavor::Red,
            role,
        ) == Color::Rgb(170, 0, 12),
        role == Role::Accent || role == Role::Good || role == Role::Body || role == Role::Strong
            || role == Role::Input || role == Role::Section || role == Role::Services || role
            == Role::Zebra || role == Role::Deploy ==> hue(Flavor::Red, role) == Color::Rgb(
            255,
            0,
            18,
        ),
{
}

} // verus!
