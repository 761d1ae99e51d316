//! Text with terminal sequences, taken apart into styled lines.

use crate::convert::{parse_u32, parsed_u32};
use crate::text::{chars_of, split_on, text_split, texts};
use vstd::prelude::*;

verus! {

#[derive(Debug, Clone, Copy, PartialEq, Eq, Structural)]
pub enum PreviewColor {
    Yellow,
    Cyan,
    LightBlue,
    LightCyan,
}

/// Whether text is set to be bold, set not to be, or left as it is.
#[derive(Debug, Clone, Copy, PartialEq, Eq, Structural)]
pub enum PreviewWeight {
    Unset,
    Bold,
    NotBold,
}

#[derive(Debug, Clone, Copy, PartialEq, Eq, Structural)]
pub struct PreviewStyle {
    pub color: Option<PreviewColor>,
    pub weight: PreviewWeight,
}

pub open spec fn plain_style() -> PreviewStyle {
    PreviewStyle { color: None, weight: PreviewWeight::Unset }
}

/// A stretch of text in one style.
#[derive(Debug, PartialEq, Eq)]
pub struct PreviewSpan {
    pub text: String,
    pub style: PreviewStyle,
}

/// A line of a preview.
#[derive(Debug, PartialEq, Eq)]
pub struct PreviewLine {
    pub spans: Vec<PreviewSpan>,
}

/// What a stretch says, and in what style.
pub type SpanView = (Seq<char>, PreviewStyle);

pub open spec fn span_views(spans: Seq<PreviewSpan>) -> Seq<SpanView> {
    spans.map_values(|span: PreviewSpan| (span.text@, span.style))
}

impl View for PreviewLine {
    type V = Seq<SpanView>;

    open spec fn view(&self) -> Seq<SpanView> {
        span_views(self.spans@)
    }
}

pub open spec fn line_views(lines: Seq<PreviewLine>) -> Seq<Seq<SpanView>> {
    lines.map_values(|line: PreviewLine| line@)
}

/// The style after one code.
pub open spec fn with_code(style: PreviewStyle, code: u32) -> PreviewStyle {
    if code == 0 {
        plain_style()
    } else if code == 1 {
        PreviewStyle { weight: PreviewWeight::Bold, ..style }
    } else if code == 22 {
        PreviewStyle { weight: PreviewWeight::NotBold, ..style }
    } else if code == 33 {
        PreviewStyle { color: Some(PreviewColor::Yellow), ..style }
    } else if code == 39 {
        PreviewStyle { color: None, ..style }
    } else if code == 94 {
        PreviewStyle { color: Some(PreviewColor::LightBlue), ..style }
    } else if code == 96 {
        PreviewStyle { color: Some(PreviewColor::LightCyan), ..style }
    } else {
        style
    }
}

/// The style after codes; those that are no numbers of 16 bits are passed over.
pub open spec fn with_codes(style: PreviewStyle, codes: Seq<Seq<char>>) -> PreviewStyle
    decreases codes.len(),
{
    if codes.len() == 0 {
        style
    } else {
        let before = with_codes(style, codes.drop_last());
        match parsed_u32(codes.last()) {
            Some(code) => if code <= u16::MAX {
                with_code(before, code)
            } else {
                before
            },
            None => before,
        }
    }
}

/// The style after a terminal sequence; one without codes resets it.
pub open spec fn styled_by(style: PreviewStyle, codes: Seq<char>) -> PreviewStyle {
    if codes.len() == 0 {
        plain_style()
    } else {
        with_codes(style, split_on(codes, ';'))
    }
}

/// Applies the codes of one terminal sequence to a style.
pub fn apply_ansi_style_codes(codes: &str, style: PreviewStyle) -> (r: PreviewStyle)
    ensures
        r == styled_by(style, codes@),
{
    if codes.is_empty() {
        return PreviewStyle { color: None, weight: PreviewWeight::Unset };
    }
    let parts = text_split(codes, ';');
    let ghost all = texts(parts@);
    let mut out = style;
    let mut i: usize = 0;
    while i < parts.len()
        invariant
            i <= parts@.len(),
            all == texts(parts@),
            out == with_codes(style, all.take(i as int)),
        decreases parts@.len() - i,
    {
        proof {
            assert(all.take(i + 1).drop_last() =~= all.take(i as int));
        }
        match parse_u32(parts[i].as_str()) {
            Some(code) => {
                if code <= u16::MAX as u32 {
                    if code == 0 {
                        out = PreviewStyle { color: None, weight: PreviewWeight::Unset };
                    } else if code == 1 {
                        out.weight = PreviewWeight::Bold;
                    } else if code == 22 {
                        out.weight = PreviewWeight::NotBold;
                    } else if code == 33 {
                        out.color = Some(PreviewColor::Yellow);
                    } else if code == 39 {
                        out.color = None;
                    } else if code == 94 {
                        out.color = Some(PreviewColor::LightBlue);
                    } else if code == 96 {
                        out.color = Some(PreviewColor::LightCyan);
                    }
                }
            },
            None => {},
        }
        i += 1;
    }
    proof {
        assert(all.take(all.len() as int) =~= all);
    }
    out
}

/// What has been taken apart so far: whole lines, the stretches of the line
/// under way, the text of the stretch under way, and its style.
pub struct Parsing {
    pub lines: Seq<Seq<SpanView>>,
    pub spans: Seq<SpanView>,
    pub text: Seq<char>,
    pub style: PreviewStyle,
}

impl Parsing {
    /// With the stretch under way closed.
    pub open spec fn closed(self) -> Parsing {
        if self.text.len() == 0 {
            self
        } else {
            Parsing {
                spans: self.spans.push((self.text, self.style)),
                text: Seq::empty(),
                ..self
            }
        }
    }

    /// With the line under way ended.
    pub open spec fn ended(self) -> Parsing {
        Parsing {
            lines: self.lines.push(self.closed().spans),
            spans: Seq::empty(),
            text: Seq::empty(),
            ..self
        }
    }
}

/// How many characters stand before the `m` that ends a terminal sequence.
pub open spec fn codes_len(s: Seq<char>) -> nat
    decreases s.len(),
{
    if s.len() == 0 || s[0] == 'm' {
        0
    } else {
        1 + codes_len(s.skip(1))
    }
}

pub proof fn lemma_codes_len(s: Seq<char>)
    ensures
        codes_len(s) <= s.len(),
    decreases s.len(),
{
    if s.len() > 0 {
        lemma_codes_len(s.skip(1));
    }
}

/// Whether a terminal sequence starts a text.
pub open spec fn starts_sequence(s: Seq<char>) -> bool {
    s.len() > 1 && s[0] == '\u{1b}' && s[1] == '['
}

/// The text behind the terminal sequence that starts it.
pub open spec fn behind_sequence(s: Seq<char>) -> Seq<char> {
    let n = 2 + codes_len(s.skip(2));
    if n < s.len() {
        s.skip(n as int + 1)
    } else {
        Seq::empty()
    }
}

/// The lines of a text, from what has been taken apart of it.
pub open spec fn lines_of(state: Parsing, s: Seq<char>) -> Seq<Seq<SpanView>>
    decreases s.len(),
{
    if s.len() == 0 {
        state.ended().lines
    } else if starts_sequence(s) {
        lines_of(
            Parsing {
                style: styled_by(state.style, s.skip(2).take(codes_len(s.skip(2)) as int)),
                ..state.closed()
            },
            behind_sequence(s),
        )
    } else if s[0] == '\n' {
        lines_of(state.ended(), s.skip(1))
    } else {
        lines_of(Parsing { text: state.text.push(s[0]), ..state }, s.skip(1))
    }
}

/// The styled lines of a text with terminal sequences.
pub open spec fn preview_lines(s: Seq<char>) -> Seq<Seq<SpanView>> {
    lines_of(
        Parsing {
            lines: Seq::empty(),
            spans: Seq::empty(),
            text: Seq::empty(),
            style: plain_style(),
        },
        s,
    )
}

/// Closes the stretch under way, if it has text.
fn push_preview_span(spans: &mut Vec<PreviewSpan>, text: String, style: PreviewStyle)
    ensures
        span_views(final(spans)@) == (if text@.len() == 0 {
            span_views(old(spans)@)
        } else {
            span_views(old(spans)@).push((text@, style))
        }),
{
    let ghost before = span_views(spans@);
    if !text.as_str().is_empty() {
        let ghost shown = text@;
        spans.push(PreviewSpan { text, style });
        proof {
            assert(span_views(spans@) =~= before.push((shown, style)));
        }
    }
}

fn string_between(cs: &Vec<char>, from: usize, to: usize) -> (r: String)
    requires
        from <= to <= cs@.len(),
    ensures
        r@ == cs@.subrange(from as int, to as int),
{
    let mut out = String::new();
    let mut i: usize = from;
    while i < to
        invariant
            from <= i <= to <= cs@.len(),
            out@ =~= cs@.subrange(from as int, i as int),
        decreases to - i,
    {
        out.push(cs[i]);
        i += 1;
    }
    out
}

fn find_end(cs: &Vec<char>, from: usize) -> (r: usize)
    requires
        from <= cs@.len(),
    ensures
        r == from + codes_len(cs@.skip(from as int)),
        from <= r <= cs@.len(),
        r < cs@.len() ==> cs@[r as int] == 'm',
{
    let mut i: usize = from;
    while i < cs.len() && cs[i] != 'm'
        invariant
            from <= i <= cs@.len(),
            codes_len(cs@.skip(from as int)) == i - from + codes_len(cs@.skip(i as int)),
        decreases cs@.len() - i,
    {
        proof {
            assert(cs@.skip(i as int).skip(1) =~= cs@.skip(i + 1));
        }
        i += 1;
    }
    i
}

/// The lines that a text with terminal sequences shows.
pub fn ansi_to_preview_lines(value: &str) -> (r: Vec<PreviewLine>)
    ensures
        line_views(r@) == preview_lines(value@),
{
    let cs = chars_of(value);
    let mut lines: Vec<PreviewLine> = Vec::new();
    let mut spans: Vec<PreviewSpan> = Vec::new();
    let mut text = String::new();
    let mut style = PreviewStyle { color: None, weight: PreviewWeight::Unset };
    let mut i: usize = 0;
    proof {
        assert(line_views(lines@) =~= Seq::empty());
        assert(span_views(spans@) =~= Seq::empty());
        assert(value@.skip(0) =~= value@);
    }
    while i < cs.len()
        invariant
            i <= cs@.len(),
            cs@ == value@,
            preview_lines(value@) == lines_of(
                Parsing {
                    lines: line_views(lines@),
                    spans: span_views(spans@),
                    text: text@,
                    style,
                },
                value@.skip(i as int),
            ),
        decreases cs@.len() - i,
    {
        let ghost rest = value@.skip(i as int);
        let ghost before = Parsing {
            lines: line_views(lines@),
            spans: span_views(spans@),
            text: text@,
            style,
        };
        if i + 1 < cs.len() && cs[i] == '\u{1b}' && cs[i + 1] == '[' {
            let end: usize = find_end(&cs, i + 2);
            let codes = string_between(&cs, i + 2, end);
            push_preview_span(&mut spans, text, style);
            text = String::new();
            style = apply_ansi_style_codes(codes.as_str(), style);
            proof {
                assert(rest[0] == value@[i as int] && rest[1] == value@[i + 1]);
                assert(rest.skip(2) =~= value@.skip(i + 2));
                assert(rest.skip(2).take(codes_len(rest.skip(2)) as int) =~= codes@);
                if end < cs@.len() {
                    assert(behind_sequence(rest) =~= value@.skip(end + 1));
                } else {
                    assert(behind_sequence(rest) =~= value@.skip(end as int));
                }
                if before.text.len() == 0 {
                    assert(before.text =~= Seq::empty());
                }
            }
            i = if end < cs.len() {
                end + 1
            } else {
                end
            };
        } else if cs[i] == '\n' {
            push_preview_span(&mut spans, text, style);
            text = String::new();
            lines.push(PreviewLine { spans });
            spans = Vec::new();
            proof {
                assert(span_views(spans@) =~= Seq::empty());
                assert(line_views(lines@) =~= before.lines.push(before.closed().spans));
                assert(rest.skip(1) =~= value@.skip(i + 1));
            }
            i += 1;
        } else {
            text.push(cs[i]);
            proof {
                assert(rest.skip(1) =~= value@.skip(i + 1));
            }
            i += 1;
        }
    }
    let ghost last = Parsing {
        lines: line_views(lines@),
        spans: span_views(spans@),
        text: text@,
        style,
    };
    push_preview_span(&mut spans, text, style);
    lines.push(PreviewLine { spans });
    proof {
        assert(value@.skip(i as int) =~= Seq::empty());
        assert(line_views(lines@) =~= last.ended().lines);
    }
    lines
}

/// There is always a line to show.
pub proof fn law_preview_has_a_line(state: Parsing, s: Seq<char>)
    ensures
        lines_of(state, s).len() > state.lines.len(),
    decreases s.len(),
{
    if s.len() > 0 {
        if starts_sequence(s) {
            lemma_codes_len(s.skip(2));
            law_preview_has_a_line(
                Parsing {
                    style: styled_by(state.style, s.skip(2).take(codes_len(s.skip(2)) as int)),
                    ..state.closed()
                },
                behind_sequence(s),
            );
        } else if s[0] == '\n' {
            law_preview_has_a_line(state.ended(), s.skip(1));
        } else {
            law_preview_has_a_line(
                Parsing { text: state.text.push(s[0]), ..state },
                s.skip(1),
            );
        }
    }
}

} // verus!
