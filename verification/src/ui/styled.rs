//! Styled text: lines made of spans, each span a text and a style. The
//! terminal front end draws these as they are.
use vstd::prelude::*;

verus! {

/// A colour of a span; `Default` leaves the terminal's colour.
#[derive(Clone, Copy, Debug, PartialEq, Eq, Structural)]
pub enum Color {
    Default,
    White,
    Gray,
    DarkGray,
    Yellow,
    Cyan,
    Red,
    Magenta,
    Black,
    Blue,
    Green,
}

/// The style of a span: a foreground and a background colour, and four
/// modifiers.
#[derive(Clone, Copy, Debug, PartialEq, Eq, Structural)]
pub struct SpanStyle {
    pub fg: Color,
    pub bg: Color,
    pub bold: bool,
    pub italic: bool,
    pub reversed: bool,
    pub underlined: bool,
}

/// No colour, no modifier.
pub open spec fn plain() -> SpanStyle {
    SpanStyle { fg: Color::Default, bg: Color::Default, bold: false, italic: false, reversed: false, underlined: false }
}

/// A colour, no modifier.
pub open spec fn colored(c: Color) -> SpanStyle {
    SpanStyle { fg: c, bg: Color::Default, bold: false, italic: false, reversed: false, underlined: false }
}

/// A colour in bold.
pub open spec fn bold(c: Color) -> SpanStyle {
    SpanStyle { fg: c, bg: Color::Default, bold: true, italic: false, reversed: false, underlined: false }
}

/// A piece of text in one style.
pub struct StyledSpan {
    pub text: String,
    pub style: SpanStyle,
}

impl View for StyledSpan {
    type V = (Seq<char>, SpanStyle);

    open spec fn view(&self) -> (Seq<char>, SpanStyle) {
        (self.text@, self.style)
    }
}

/// One line of styled text.
pub struct StyledLine {
    pub spans: Vec<StyledSpan>,
}

impl View for StyledLine {
    type V = Seq<(Seq<char>, SpanStyle)>;

    open spec fn view(&self) -> Seq<(Seq<char>, SpanStyle)> {
        self.spans@.map_values(|s: StyledSpan| s@)
    }
}

/// The views of a list of lines.
pub open spec fn lines_view(lines: Seq<StyledLine>) -> Seq<Seq<(Seq<char>, SpanStyle)>> {
    lines.map_values(|l: StyledLine| l@)
}

/// A span.
pub fn span(text: String, style: SpanStyle) -> (res: StyledSpan)
    ensures
        res@ == (text@, style),
{
    StyledSpan { text, style }
}

/// A line of no span.
pub fn empty_line() -> (res: StyledLine)
    ensures
        res@ == Seq::<(Seq<char>, SpanStyle)>::empty(),
{
    let res = StyledLine { spans: Vec::new() };
    assert(res@ =~= Seq::<(Seq<char>, SpanStyle)>::empty());
    res
}

/// A line of one span.
pub fn line_of(text: String, style: SpanStyle) -> (res: StyledLine)
    ensures
        res@ == seq![(text@, style)],
{
    let mut spans: Vec<StyledSpan> = Vec::new();
    spans.push(StyledSpan { text, style });
    let res = StyledLine { spans };
    assert(res@ =~= seq![(text@, style)]);
    res
}

impl StyledLine {
    /// Append a span.
    pub fn push(&mut self, text: String, style: SpanStyle)
        ensures
            final(self)@ == old(self)@.push((text@, style)),
    {
        self.spans.push(StyledSpan { text, style });
        assert(final(self)@ =~= old(self)@.push((text@, style)));
    }
}

/// Append a line to a list of lines.
pub fn push_line(lines: &mut Vec<StyledLine>, line: StyledLine)
    ensures
        lines_view(final(lines)@) == lines_view(old(lines)@).push(line@),
{
    lines.push(line);
    assert(lines_view(final(lines)@) =~= lines_view(old(lines)@).push(line@));
}

} // verus!
