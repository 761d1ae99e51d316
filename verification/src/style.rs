//! Text with coloured parts, and how it is rendered for a terminal.

use crate::text::replace;
use colored::Colorize;
use vstd::prelude::*;

verus! {

/// The colours that output is painted in.
#[derive(Debug, Clone, Copy, PartialEq, Eq, Structural)]
pub enum Tone {
    Green,
    Red,
    Yellow,
    BrightBlue,
    BrightCyan,
}

/// The terminal sequence that switches to a colour.
pub open spec fn tone_sequence(tone: Tone) -> Seq<char> {
    match tone {
        Tone::Green => "\x1b[32m"@,
        Tone::Red => "\x1b[31m"@,
        Tone::Yellow => "\x1b[33m"@,
        Tone::BrightBlue => "\x1b[94m"@,
        Tone::BrightCyan => "\x1b[96m"@,
    }
}

/// A text in colour as terminal sequences. Where the text switches colours off
/// itself, its own colour is switched on again.
pub open spec fn coloured(tone: Tone, text: Seq<char>) -> Seq<char> {
    let on = tone_sequence(tone);
    let off = "\x1b[0m"@;
    on + replace(text, off, off + on) + off
}

/// `Colorize::color` and the `Display` of what it returns: the text between
/// terminal sequences where the process writes colours, and the text alone
/// where it does not. Which of the two holds depends on the environment and on
/// the override that `colored::control` keeps, so it is left open; both are
/// stated for a setting that stands still during the call.
#[verifier::external_body]
pub(crate) fn paint(tone: Tone, text: &str) -> (r: String)
    ensures
        r@ == text@ || r@ == coloured(tone, text@),
{
    text.color(match tone {
        Tone::Green => colored::Color::Green,
        Tone::Red => colored::Color::Red,
        Tone::Yellow => colored::Color::Yellow,
        Tone::BrightBlue => colored::Color::BrightBlue,
        Tone::BrightCyan => colored::Color::BrightCyan,
    }).to_string()
}

/// A part of a styled text: its colour, if it has one, and what it says.
#[derive(Debug, Clone)]
pub struct Part {
    pub tone: Option<Tone>,
    pub text: String,
}

/// What a part shows.
pub type Mark = (Option<Tone>, Seq<char>);

/// An unpainted text.
pub open spec fn plain(text: Seq<char>) -> Seq<Mark> {
    seq![(None, text)]
}

/// A painted text.
pub open spec fn painted(tone: Tone, text: Seq<char>) -> Seq<Mark> {
    seq![(Some(tone), text)]
}

/// A text some parts of which are painted.
#[derive(Debug, Clone)]
pub struct Styled {
    pub parts: Vec<Part>,
}

impl View for Styled {
    type V = Seq<Mark>;

    open spec fn view(&self) -> Seq<Mark> {
        self.parts@.map_values(|part: Part| (part.tone, part.text@))
    }
}

/// What the marks look like where `on` says of each position whether a painted
/// part there is shown in colour.
pub open spec fn rendered(marks: Seq<Mark>, on: spec_fn(int) -> bool) -> Seq<char>
    decreases marks.len(),
{
    if marks.len() == 0 {
        Seq::empty()
    } else {
        let text = marks.last().1;
        rendered(marks.drop_last(), on) + (match marks.last().0 {
            Some(tone) => if on(marks.len() - 1) {
                coloured(tone, text)
            } else {
                text
            },
            None => text,
        })
    }
}

/// Whether `text` shows the marks, with each painted part in colour or not.
pub open spec fn renders(marks: Seq<Mark>, text: Seq<char>) -> bool {
    exists|on: spec_fn(int) -> bool| text == rendered(marks, on)
}

proof fn lemma_rendered_agree(
    marks: Seq<Mark>,
    on: spec_fn(int) -> bool,
    other: spec_fn(int) -> bool,
)
    requires
        forall|i: int| 0 <= i < marks.len() ==> #[trigger] on(i) == other(i),
    ensures
        rendered(marks, on) == rendered(marks, other),
    decreases marks.len(),
{
    if marks.len() > 0 {
        lemma_rendered_agree(marks.drop_last(), on, other);
        let last = marks.len() - 1;
        assert(on(last) == other(last));
    }
}

impl Styled {
    /// No text.
    pub fn new() -> (r: Styled)
        ensures
            r@ == Seq::<Mark>::empty(),
    {
        let r = Styled { parts: Vec::new() };
        proof {
            assert(r@ =~= Seq::<Mark>::empty());
        }
        r
    }

    /// The styled text that holds one unpainted text.
    pub fn of(text: &str) -> (r: Styled)
        ensures
            r@ == plain(text@),
    {
        let mut r = Styled::new();
        r.push(text);
        proof {
            assert(r@ =~= plain(text@));
        }
        r
    }

    /// The styled text that holds one painted text.
    pub fn of_painted(tone: Tone, text: &str) -> (r: Styled)
        ensures
            r@ == painted(tone, text@),
    {
        let mut r = Styled::new();
        r.push_painted(tone, text);
        proof {
            assert(r@ =~= painted(tone, text@));
        }
        r
    }

    /// Appends an unpainted text.
    pub fn push(&mut self, text: &str)
        ensures
            final(self)@ == old(self)@ + plain(text@),
    {
        self.parts.push(Part { tone: None, text: text.to_owned() });
        proof {
            assert(self@ =~= old(self)@ + plain(text@));
        }
    }

    /// Appends a painted text.
    pub fn push_painted(&mut self, tone: Tone, text: &str)
        ensures
            final(self)@ == old(self)@ + painted(tone, text@),
    {
        self.parts.push(Part { tone: Some(tone), text: text.to_owned() });
        proof {
            assert(self@ =~= old(self)@ + painted(tone, text@));
        }
    }

    /// Appends another styled text.
    pub fn append(&mut self, other: Styled)
        ensures
            final(self)@ == old(self)@ + other@,
    {
        let mut more = other.parts;
        self.parts.append(&mut more);
        proof {
            assert(self@ =~= old(self)@ + other@);
        }
    }

    /// The text as it goes to the terminal.
    pub fn render(&self) -> (r: String)
        ensures
            renders(self@, r@),
    {
        let mut out = String::new();
        let mut i: usize = 0;
        let ghost mut on: spec_fn(int) -> bool = |k: int| false;
        while i < self.parts.len()
            invariant
                i <= self.parts@.len(),
                out@ == rendered(self@.take(i as int), on),
            decreases self.parts@.len() - i,
        {
            let ghost marks = self@.take(i as int);
            let part = &self.parts[i];
            proof {
                assert(self@.take(i + 1).drop_last() =~= marks);
            }
            match part.tone {
                None => {
                    out.push_str(part.text.as_str());
                },
                Some(tone) => {
                    let shown = paint(tone, part.text.as_str());
                    out.push_str(shown.as_str());
                    proof {
                        let lit = shown@ == coloured(tone, part.text@);
                        let before = on;
                        on = |k: int| if k == marks.len() { lit } else { before(k) };
                        lemma_rendered_agree(marks, before, on);
                    }
                },
            }
            i += 1;
        }
        proof {
            assert(self@.take(self@.len() as int) =~= self@);
        }
        out
    }
}

} // verus!
