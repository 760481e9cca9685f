//! Coloured text for terminals, as the `colored` crate writes it.
use vstd::prelude::*;
use vstd::string::*;
use colored::Colorize;

verus! {

/// The escape sequence that sets the colour with the two-digit code
/// `c1 c2` (foreground codes 30 to 97, background codes 40 to 107).
pub open spec fn color_escape(c1: char, c2: char) -> Seq<char> {
    seq!['\x1b', '[', c1, c2, 'm']
}

/// The escape sequence that resets all colours.
pub open spec fn reset_escape() -> Seq<char> {
    seq!['\x1b', '[', '0', 'm']
}

/// Whether `t` is a way `colored` writes `s` in the colour with code
/// `c1 c2`: unchanged when colouring is off; between the colour's escape
/// sequence and the reset sequence when it is on; followed by the reset
/// sequence alone when colouring is switched off while the text is written.
pub open spec fn colored_as(t: Seq<char>, s: Seq<char>, c1: char, c2: char) -> bool {
    ||| t == s
    ||| t == color_escape(c1, c2) + s + reset_escape()
    ||| t == s + reset_escape()
}

/// Whether `s` holds no escape character.
pub open spec fn no_escape(s: Seq<char>) -> bool {
    forall|i: int| 0 <= i < s.len() ==> s[i] != '\x1b'
}

/// `colored`'s `on_white` on `s`, written out by `to_string`. Whether the
/// colour is written depends on the environment (`CLICOLOR`, `NO_COLOR`,
/// `CLICOLOR_FORCE`, whether standard output is a terminal) and on
/// `colored`'s override, so the contract names each possible text. Text
/// holding an escape character is left out: `colored` repeats the style
/// after each reset sequence inside it.
#[verifier::external_body]
fn on_white_string(s: &str) -> (r: String)
    requires
        no_escape(s@),
    ensures
        colored_as(r@, s@, '4', '7'),
{
    s.on_white().to_string()
}

/// `colored`'s `on_black` on `s`, written out by `to_string`; as
/// `on_white_string`, with the code of a black background.
#[verifier::external_body]
fn on_black_string(s: &str) -> (r: String)
    requires
        no_escape(s@),
    ensures
        colored_as(r@, s@, '4', '0'),
{
    s.on_black().to_string()
}

/// `colored`'s `bright_blue` on `s`, written out by `to_string`; as
/// `on_white_string`, with the code of a bright blue foreground.
#[verifier::external_body]
fn bright_blue_string(s: &str) -> (r: String)
    requires
        no_escape(s@),
    ensures
        colored_as(r@, s@, '9', '4'),
{
    s.bright_blue().to_string()
}

/// `colored`'s `bright_black` on `s`, written out by `to_string`; as
/// `on_white_string`, with the code of a bright black foreground.
#[verifier::external_body]
fn bright_black_string(s: &str) -> (r: String)
    requires
        no_escape(s@),
    ensures
        colored_as(r@, s@, '9', '0'),
{
    s.bright_black().to_string()
}

/// How a piece of text is to be written.
#[derive(Debug, PartialEq, Eq, Structural, Clone, Copy)]
pub enum Paint {
    Plain,
    BrightBlue,
    BrightBlack,
    OnWhite,
    OnBlack,
}

impl Paint {
    /// The colour code of the paint, if it has a colour.
    pub open spec fn code(self) -> Option<(char, char)> {
        match self {
            Paint::Plain => None,
            Paint::BrightBlue => Some(('9', '4')),
            Paint::BrightBlack => Some(('9', '0')),
            Paint::OnWhite => Some(('4', '7')),
            Paint::OnBlack => Some(('4', '0')),
        }
    }
}

/// A piece of text and how it is to be written.
pub type Segment = (Seq<char>, Paint);

/// Whether `t` is segment `s` as written: its text when plain, one of the
/// ways `colored` writes it otherwise.
pub open spec fn writes(t: Seq<char>, s: Segment) -> bool {
    match s.1.code() {
        None => t == s.0,
        Some((c1, c2)) => colored_as(t, s.0, c1, c2),
    }
}

/// The first `n` of `parts`, one after the other.
pub open spec fn join_parts(parts: Seq<Seq<char>>, n: int) -> Seq<char>
    decreases n,
{
    if n <= 0 {
        Seq::<char>::empty()
    } else {
        join_parts(parts, n - 1) + parts[n - 1]
    }
}

/// Whether `t` is the segments `segs` written one after the other.
pub open spec fn writes_all(t: Seq<char>, segs: Seq<Segment>) -> bool {
    exists|parts: Seq<Seq<char>>|
        {
            &&& parts.len() == segs.len()
            &&& forall|k: int| 0 <= k < segs.len() ==> writes(#[trigger] parts[k], segs[k])
            &&& t == join_parts(parts, parts.len() as int)
        }
}

/// Joining a prefix of parts reads only that prefix.
proof fn lemma_join_parts_prefix(a: Seq<Seq<char>>, b: Seq<Seq<char>>, n: int)
    requires
        0 <= n <= a.len(),
        n <= b.len(),
        forall|k: int| 0 <= k < n ==> a[k] == b[k],
    ensures
        join_parts(a, n) == join_parts(b, n),
    decreases n,
{
    if n > 0 {
        lemma_join_parts_prefix(a, b, n - 1);
    }
}

/// Text being written, segment by segment.
pub struct Canvas {
    text: String,
    parts: Ghost<Seq<Seq<char>>>,
    segs: Ghost<Seq<Segment>>,
}

impl Canvas {
    /// The segments written so far.
    pub closed spec fn segments(self) -> Seq<Segment> {
        self.segs@
    }

    /// The text written so far.
    pub closed spec fn text(self) -> Seq<char> {
        self.text@
    }

    /// What the canvas keeps true: its text is its segments written in turn.
    pub closed spec fn wf(self) -> bool {
        &&& self.parts@.len() == self.segs@.len()
        &&& forall|k: int| 0 <= k < self.segs@.len() ==> writes(#[trigger] self.parts@[k], self.segs@[k])
        &&& self.text@ == join_parts(self.parts@, self.parts@.len() as int)
    }

    /// A canvas with nothing written on it.
    pub fn new() -> (r: Canvas)
        ensures
            r.wf(),
            r.segments() == Seq::<Segment>::empty(),
    {
        Canvas { text: String::new(), parts: Ghost(Seq::empty()), segs: Ghost(Seq::empty()) }
    }

    /// Write `s` with paint `paint`.
    pub fn paint(&mut self, s: &str, paint: Paint)
        requires
            old(self).wf(),
            no_escape(s@),
        ensures
            final(self).wf(),
            final(self).segments() == old(self).segments().push((s@, paint)),
    {
        let written = match paint {
            Paint::Plain => String::from_str(s),
            Paint::BrightBlue => bright_blue_string(s),
            Paint::BrightBlack => bright_black_string(s),
            Paint::OnWhite => on_white_string(s),
            Paint::OnBlack => on_black_string(s),
        };
        self.text.append(written.as_str());
        proof {
            let old_parts = self.parts@;
            let new_parts = old_parts.push(written@);
            lemma_join_parts_prefix(old_parts, new_parts, old_parts.len() as int);
            self.parts = Ghost(new_parts);
            self.segs = Ghost(self.segs@.push((s@, paint)));
        }
    }

    /// The text written, which is the segments written one after the other.
    pub fn finish(self) -> (r: String)
        requires
            self.wf(),
        ensures
            writes_all(r@, self.segments()),
    {
        proof {
            assert(self.parts@.len() == self.segs@.len());
        }
        self.text
    }
}

} // verus!
