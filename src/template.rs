//! Templates: text with `{N}` placeholders that name capture groups.
//!
//! A placeholder is `{`, one or more ASCII digits, `}`. Every other character,
//! a lone brace included, stands for itself: there is no escape for braces.
use vstd::prelude::*;
use crate::text::{chars_of, push_char};
use vstd::string::StringExecFns;

verus! {

/// One segment of a template, as a mathematical value: a character that
/// stands for itself, or a placeholder with its group index.
pub enum Segment {
    Literal(char),
    Group(nat),
}

/// What a capture group gave: the matched text, or nothing when the group
/// took no part in the match.
pub type CaptureMap = Seq<Option<Seq<char>>>;

/// An ASCII decimal digit.
pub open spec fn is_digit(c: char) -> bool {
    '0' <= c && c <= '9'
}

/// The number of digits in the run that starts at `i`.
pub open spec fn digit_run(t: Seq<char>, i: nat) -> nat
    decreases t.len() - i,
{
    if i < t.len() && is_digit(t[i as int]) {
        1 + digit_run(t, i + 1)
    } else {
        0
    }
}

/// The decimal value of a run of digits.
pub open spec fn digits_value(d: Seq<char>) -> nat
    decreases d.len(),
{
    if d.len() == 0 {
        0
    } else {
        digits_value(d.drop_last()) * 10 + (((d.last() as u32) as int - 48) as nat)
    }
}

/// Whether a placeholder starts at `i`: `{`, a run of digits, then `}`.
pub open spec fn placeholder_at(t: Seq<char>, i: nat) -> bool {
    &&& i < t.len()
    &&& t[i as int] == '{'
    &&& digit_run(t, i + 1) > 0
    &&& i + 1 + digit_run(t, i + 1) < t.len()
    &&& t[(i + 1 + digit_run(t, i + 1)) as int] == '}'
}

/// Where the segment that starts at `i` ends.
pub open spec fn next_pos(t: Seq<char>, i: nat) -> nat {
    if placeholder_at(t, i) {
        i + 2 + digit_run(t, i + 1)
    } else {
        i + 1
    }
}

/// The segment that starts at `i`: a placeholder, or one literal character.
pub open spec fn segment_at(t: Seq<char>, i: nat) -> Segment {
    if placeholder_at(t, i) {
        Segment::Group(digits_value(t.subrange((i + 1) as int, (i + 1 + digit_run(t, i + 1)) as int)))
    } else {
        Segment::Literal(t[i as int])
    }
}

/// The segments of `t` from position `i` on, read left to right.
pub open spec fn segments_from(t: Seq<char>, i: nat) -> Seq<Segment>
    decreases t.len() - i,
{
    if i >= t.len() {
        Seq::empty()
    } else {
        Seq::<Segment>::empty().push(segment_at(t, i)) + segments_from(t, next_pos(t, i))
    }
}

proof fn lemma_push_front<A>(a: Seq<A>, x: A, r: Seq<A>)
    ensures
        a + (Seq::<A>::empty().push(x) + r) == a.push(x) + r,
{
    assert(a + (Seq::<A>::empty().push(x) + r) =~= a.push(x) + r);
}

/// The segments of a whole template.
pub open spec fn segments(t: Seq<char>) -> Seq<Segment> {
    segments_from(t, 0)
}

/// Every placeholder names a group that the capture map has.
pub open spec fn resolvable(ts: Seq<Segment>, caps: CaptureMap) -> bool {
    forall|i: int|
        0 <= i < ts.len() ==> (#[trigger] ts[i] matches Segment::Group(n) ==> n < caps.len())
}

/// The text of a capture group; empty when the group did not take part.
pub open spec fn group_text(c: Option<Seq<char>>) -> Seq<char> {
    match c {
        Some(s) => s,
        None => Seq::empty(),
    }
}

/// The segments with each placeholder replaced by its group's text.
pub open spec fn expand(ts: Seq<Segment>, caps: CaptureMap) -> Seq<char>
    decreases ts.len(),
{
    if ts.len() == 0 {
        Seq::empty()
    } else {
        let head = expand(ts.drop_last(), caps);
        match ts.last() {
            Segment::Literal(c) => head.push(c),
            Segment::Group(n) => if n < caps.len() {
                head + group_text(caps[n as int])
            } else {
                head
            },
        }
    }
}

/// The substituted text, or `None` when a placeholder names a group that the
/// capture map does not have.
pub open spec fn render(t: Seq<char>, caps: CaptureMap) -> Option<Seq<char>> {
    if resolvable(segments(t), caps) {
        Some(expand(segments(t), caps))
    } else {
        None
    }
}

/// A segment as the executable code holds it. A group index too large for a
/// `usize` is kept as `Beyond`: no capture map can have that group.
#[derive(Clone, Copy, Debug, PartialEq, Eq)]
pub enum Piece {
    Literal(char),
    Group(usize),
    Beyond,
}

impl Piece {
    /// Whether this piece holds the segment `k`.
    pub open spec fn stands_for(self, k: Segment) -> bool {
        match (self, k) {
            (Piece::Literal(a), Segment::Literal(b)) => a == b,
            (Piece::Group(a), Segment::Group(b)) => a as nat == b,
            (Piece::Beyond, Segment::Group(b)) => b > usize::MAX,
            _ => false,
        }
    }
}

/// A template, kept both as its text and as the pieces read from it.
#[derive(Debug)]
pub struct Template {
    text: String,
    pieces: Vec<Piece>,
}

/// The capture map that a vector of optional strings holds.
pub open spec fn captures_view(v: Seq<Option<String>>) -> CaptureMap {
    v.map_values(|o: Option<String>| match o {
        Some(s) => Some(s@),
        None => None,
    })
}

impl View for Template {
    type V = Seq<char>;

    closed spec fn view(&self) -> Seq<char> {
        self.text@
    }
}

impl Template {
    /// The pieces are the segments of the text, one for one.
    pub closed spec fn wf(&self) -> bool {
        let ts = segments(self.text@);
        &&& self.pieces@.len() == ts.len()
        &&& forall|i: int| 0 <= i < ts.len() ==> #[trigger] self.pieces@[i].stands_for(ts[i])
    }

    /// Reads the placeholders of `text` once, so that substitution need not.
    pub fn parse(text: &str) -> (r: Template)
        ensures
            r.wf(),
            r@ == text@,
    {
        let cs = chars_of(text);
        let n = cs.len();
        let ghost t = text@;
        let ghost done: Seq<Segment> = Seq::empty();
        let mut out: Vec<Piece> = Vec::new();
        let mut i: usize = 0;
        while i < n
            invariant
                cs@ == t,
                n == t.len(),
                i <= n,
                done + segments_from(t, i as nat) == segments(t),
                out@.len() == done.len(),
                forall|k: int| 0 <= k < done.len() ==> #[trigger] out@[k].stands_for(done[k]),
            decreases n - i,
        {
            let (j, value, beyond) = scan_number(&cs, i + 1);
            let is_group = cs[i] == '{' && j > i + 1 && j < n && cs[j] == '}';
            let piece = if !is_group {
                Piece::Literal(cs[i])
            } else if beyond {
                Piece::Beyond
            } else {
                Piece::Group(value)
            };
            let next = if is_group { j + 1 } else { i + 1 };
            proof {
                assert(is_group == placeholder_at(t, i as nat));
                assert(next == next_pos(t, i as nat));
                assert(piece.stands_for(segment_at(t, i as nat)));
                lemma_push_front(done, segment_at(t, i as nat), segments_from(t, next as nat));
                done = done.push(segment_at(t, i as nat));
            }
            out.push(piece);
            i = next;
        }
        Template { text: String::from_str(text), pieces: out }
    }

    /// Replaces each placeholder by the text of the group it names, or gives
    /// `None` when one names a group that `caps` does not have.
    pub fn substitute(&self, caps: &Vec<Option<String>>) -> (r: Option<String>)
        requires
            self.wf(),
        ensures
            r matches Some(s) ==> render(self@, captures_view(caps@)) == Some(s@),
            r is None ==> render(self@, captures_view(caps@)) is None,
    {
        let ghost segs = segments(self.text@);
        let ghost cv = captures_view(caps@);
        let mut out = String::new();
        let mut k: usize = 0;
        while k < self.pieces.len()
            invariant
                self.wf(),
                segs == segments(self.text@),
                cv == captures_view(caps@),
                k <= segs.len(),
                out@ == expand(segs.subrange(0, k as int), cv),
                forall|m: int| 0 <= m < k ==> (#[trigger] segs[m] matches Segment::Group(g) ==> g < cv.len()),
            decreases self.pieces@.len() - k,
        {
            let piece = self.pieces[k];
            assert(piece.stands_for(segs[k as int]));
            assert(segs.subrange(0, k + 1).drop_last() =~= segs.subrange(0, k as int));
            match piece {
                Piece::Literal(c) => {
                    push_char(&mut out, c);
                },
                Piece::Group(g) => {
                    if g >= caps.len() {
                        assert(!resolvable(segs, cv));
                        return None;
                    }
                    match &caps[g] {
                        Some(part) => {
                            out.append(part.as_str());
                        },
                        None => {
                            assert(out@ =~= out@ + group_text(cv[g as int]));
                        },
                    }
                },
                Piece::Beyond => {
                    let ncaps = caps.len();
                    assert(cv.len() == ncaps);
                    assert(!resolvable(segs, cv));
                    return None;
                },
            }
            k = k + 1;
        }
        assert(segs.subrange(0, segs.len() as int) =~= segs);
        Some(out)
    }
}

/// Reads the run of digits that starts at `start`: where it ends, and its
/// value unless that exceeds `usize::MAX` (then the flag is set).
fn scan_number(cs: &Vec<char>, start: usize) -> (r: (usize, usize, bool))
    requires
        start <= cs@.len(),
    ensures
        start <= r.0 <= cs@.len(),
        digit_run(cs@, start as nat) == r.0 - start,
        r.2 ==> digits_value(cs@.subrange(start as int, r.0 as int)) > usize::MAX,
        !r.2 ==> digits_value(cs@.subrange(start as int, r.0 as int)) == r.1,
{
    let ghost t = cs@;
    let n = cs.len();
    let mut j: usize = start;
    let mut value: usize = 0;
    let mut beyond = false;
    assert(t.subrange(start as int, start as int) =~= Seq::<char>::empty());
    while j < n && '0' <= cs[j] && cs[j] <= '9'
        invariant
            cs@ == t,
            n == t.len(),
            start <= j <= n,
            digit_run(t, start as nat) == (j - start) + digit_run(t, j as nat),
            beyond ==> digits_value(t.subrange(start as int, j as int)) > usize::MAX,
            !beyond ==> digits_value(t.subrange(start as int, j as int)) == value,
        decreases n - j,
    {
        let d = (cs[j] as u32 - 48) as usize;
        let ghost before = digits_value(t.subrange(start as int, j as int));
        assert(t.subrange(start as int, j + 1).drop_last() =~= t.subrange(start as int, j as int));
        assert(digits_value(t.subrange(start as int, j + 1)) == before * 10 + d);
        if !beyond {
            if value > (usize::MAX - d) / 10 {
                beyond = true;
                assert(before * 10 + d > usize::MAX) by (nonlinear_arith)
                    requires before == value, value > (usize::MAX - d) / 10, d <= 9;
            } else {
                assert(value * 10 + d <= usize::MAX) by (nonlinear_arith)
                    requires value <= (usize::MAX - d) / 10, d <= 9;
                value = value * 10 + d;
            }
        } else {
            assert(before * 10 + d > usize::MAX) by (nonlinear_arith)
                requires before > usize::MAX;
        }
        j = j + 1;
    }
    assert(digit_run(t, j as nat) == 0);
    (j, value, beyond)
}

} // verus!
