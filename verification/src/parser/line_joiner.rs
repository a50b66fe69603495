//! Reassembles TeX's hard-wrapped physical lines into logical lines.
//!
//! TeX chops every over-long output line at column 79 (LuaTeX's own
//! Lua-originated output one column later, at 80), mid-word and mid-path.
//! A physical line of exactly 79 or 80 characters is therefore held back
//! and joined with what follows, unless what follows unambiguously starts a
//! fresh line.
use vstd::prelude::*;

use crate::text::{chars_of, concat, has_prefix, starts_with_str, string_of};

verus! {

/// Whether a physical line of `n` characters is a wrapped fragment.
pub open spec fn is_wrap_len(n: nat) -> bool {
    n == 79 || n == 80
}

/// Whether `line` starts a new logical line whatever came before it: an
/// empty line, or one of the prefixes TeX and latexmk begin their own
/// lines with.
pub open spec fn starts_fresh_line(line: Seq<char>) -> bool {
    ||| line.len() == 0
    ||| has_prefix(line, "------------"@)
    ||| has_prefix(line, "Package "@)
    ||| has_prefix(line, "LaTeX "@)
    ||| has_prefix(line, "Class "@)
    ||| has_prefix(line, "Overfull "@)
    ||| has_prefix(line, "Underfull "@)
    ||| has_prefix(line, "! "@)
    ||| has_prefix(line, "FiXme "@)
    ||| has_prefix(line, "Warning--"@)
    ||| has_prefix(line, "("@)
    ||| has_prefix(line, ")"@)
    ||| has_prefix(line, "["@)
    ||| has_prefix(line, "]"@)
    ||| has_prefix(line, "l."@)
    ||| has_prefix(line, "Run number"@)
    ||| has_prefix(line, "Latexmk:"@)
    ||| has_prefix(line, "Running '"@)
}

fn starts_fresh_line_exec(line: &[char]) -> (r: bool)
    ensures
        r == starts_fresh_line(line@),
{
    line.len() == 0 || starts_with_str(line, "------------") || starts_with_str(line, "Package ")
        || starts_with_str(line, "LaTeX ") || starts_with_str(line, "Class ") || starts_with_str(
        line,
        "Overfull ",
    ) || starts_with_str(line, "Underfull ") || starts_with_str(line, "! ") || starts_with_str(
        line,
        "FiXme ",
    ) || starts_with_str(line, "Warning--") || starts_with_str(line, "(") || starts_with_str(
        line,
        ")",
    ) || starts_with_str(line, "[") || starts_with_str(line, "]") || starts_with_str(line, "l.")
        || starts_with_str(line, "Run number") || starts_with_str(line, "Latexmk:")
        || starts_with_str(line, "Running '")
}

/// One step of the joiner: from the held-back fragment (if any) and the
/// next physical line, the new held-back fragment and the completed
/// logical lines, in order.
pub open spec fn feed_spec(pending: Option<Seq<char>>, line: Seq<char>) -> (
    Option<Seq<char>>,
    Seq<Seq<char>>,
) {
    let (out, joined) = match pending {
        Some(p) => if starts_fresh_line(line) {
            (seq![p], line)
        } else {
            (Seq::<Seq<char>>::empty(), p + line)
        },
        None => (Seq::<Seq<char>>::empty(), line),
    };
    if is_wrap_len(line.len()) {
        (Some(joined), out)
    } else {
        (None, out.push(joined))
    }
}

/// What is still held back when the input ends.
pub open spec fn finish_spec(pending: Option<Seq<char>>) -> Seq<Seq<char>> {
    match pending {
        Some(p) => seq![p],
        None => Seq::empty(),
    }
}

/// The text a held-back fragment stands for (nothing when there is none).
pub open spec fn pending_text(pending: Option<Seq<char>>) -> Seq<char> {
    match pending {
        Some(p) => p,
        None => Seq::empty(),
    }
}

/// Reassembles TeX's 79-character hard-wrapped physical lines into logical
/// lines.
#[derive(Debug, Default)]
pub struct LineJoiner {
    pending: Option<Vec<char>>,
}

impl View for LineJoiner {
    type V = Option<Seq<char>>;

    closed spec fn view(&self) -> Option<Seq<char>> {
        match self.pending {
            Some(p) => Some(p@),
            None => None,
        }
    }
}

impl LineJoiner {
    pub fn new() -> (j: Self)
        ensures
            j@ is None,
    {
        Self { pending: None }
    }

    /// Feed one physical line; returns zero or more completed logical
    /// lines (at most two).
    ///
    /// Whether wrapping continues is decided by the length of the incoming
    /// physical line itself (TeX chops every wrapped fragment at the wrap
    /// column except the last), not by the length of the accumulated buffer.
    pub fn feed(&mut self, line: &str) -> (out: Vec<String>)
        ensures
            (final(self)@, out.deep_view()) == feed_spec(old(self)@, line@),
    {
        let lv = chars_of(line);
        let n = lv.len();
        let mut out: Vec<String> = Vec::new();
        let joined = match self.pending.take() {
            Some(p) => {
                if starts_fresh_line_exec(lv.as_slice()) {
                    out.push(string_of(p.as_slice()));
                    lv
                } else {
                    concat(p.as_slice(), lv.as_slice())
                }
            },
            None => lv,
        };
        if n == 79 || n == 80 {
            self.pending = Some(joined);
        } else {
            out.push(string_of(joined.as_slice()));
        }
        proof {
            let spec = feed_spec(old(self)@, line@);
            assert(out.deep_view() =~= spec.1);
        }
        out
    }

    /// Flush any buffered fragment at EOF.
    pub fn finish(&mut self) -> (out: Vec<String>)
        ensures
            final(self)@ is None,
            out.deep_view() == finish_spec(old(self)@),
    {
        let mut out: Vec<String> = Vec::new();
        if let Some(p) = self.pending.take() {
            out.push(string_of(p.as_slice()));
        }
        assert(out.deep_view() =~= finish_spec(old(self)@));
        out
    }
}

/// Joining never loses, invents or reorders text: what comes out of a step,
/// followed by what stays held back, is what was held back followed by the
/// new line.
pub proof fn law_feed_preserves_text(pending: Option<Seq<char>>, line: Seq<char>)
    ensures
        ({
            let (next, out) = feed_spec(pending, line);
            out.flatten() + pending_text(next) == pending_text(pending) + line
        }),
{
    let (next, out) = feed_spec(pending, line);
    reveal_with_fuel(Seq::flatten, 3);
    match pending {
        Some(p) => {
            if starts_fresh_line(line) {
                if is_wrap_len(line.len()) {
                    assert(out =~= seq![p]);
                    assert(out.drop_first() =~= Seq::<Seq<char>>::empty());
                    assert(out.flatten() =~= p);
                } else {
                    assert(out =~= seq![p, line]);
                    assert(out.drop_first() =~= seq![line]);
                    assert(out.drop_first().drop_first() =~= Seq::<Seq<char>>::empty());
                    assert(out.flatten() =~= p + line);
                }
            } else {
                if is_wrap_len(line.len()) {
                    assert(out =~= Seq::<Seq<char>>::empty());
                } else {
                    assert(out =~= seq![p + line]);
                    assert(out.drop_first() =~= Seq::<Seq<char>>::empty());
                }
            }
        },
        None => {
            if !is_wrap_len(line.len()) {
                assert(out =~= seq![line]);
                assert(out.drop_first() =~= Seq::<Seq<char>>::empty());
            }
        },
    }
    assert(out.flatten() + pending_text(next) =~= pending_text(pending) + line);
}

/// A line is held back exactly when it is a wrap-length fragment, and a
/// step completes at most two logical lines.
pub proof fn law_feed_holds_back_only_wrapped_fragments(
    pending: Option<Seq<char>>,
    line: Seq<char>,
)
    ensures
        feed_spec(pending, line).0 is Some <==> is_wrap_len(line.len()),
        feed_spec(pending, line).1.len() <= 2,
{
}

/// With nothing held back, a line that is not a wrap-length fragment comes
/// out unchanged, on its own.
pub proof fn law_short_line_passes_through(line: Seq<char>)
    requires
        !is_wrap_len(line.len()),
    ensures
        feed_spec(None, line) == (None::<Seq<char>>, seq![line]),
{
    assert(Seq::<Seq<char>>::empty().push(line) =~= seq![line]);
}


/// The joiner fed a sequence of physical lines, one after the other: the
/// fragment still held back and every logical line completed, in order.
pub open spec fn feed_all(pending: Option<Seq<char>>, lines: Seq<Seq<char>>) -> (
    Option<Seq<char>>,
    Seq<Seq<char>>,
)
    decreases lines.len(),
{
    if lines.len() == 0 {
        (pending, Seq::empty())
    } else {
        let (p1, o1) = feed_all(pending, lines.drop_last());
        let (p2, o2) = feed_spec(p1, lines.last());
        (p2, o1 + o2)
    }
}

proof fn lemma_feed_all_text(pending: Option<Seq<char>>, lines: Seq<Seq<char>>)
    ensures
        ({
            let (p, o) = feed_all(pending, lines);
            o.flatten() + pending_text(p) == pending_text(pending) + lines.flatten()
        }),
    decreases lines.len(),
{
    if lines.len() == 0 {
        assert(lines.flatten() =~= Seq::<char>::empty());
        assert(Seq::<Seq<char>>::empty().flatten() =~= Seq::<char>::empty());
        assert(pending_text(pending) + Seq::<char>::empty() =~= pending_text(pending));
    } else {
        let (p1, o1) = feed_all(pending, lines.drop_last());
        let (p2, o2) = feed_spec(p1, lines.last());
        lemma_feed_all_text(pending, lines.drop_last());
        law_feed_preserves_text(p1, lines.last());
        vstd::seq_lib::lemma_flatten_concat(o1, o2);
        assert(lines.drop_last().push(lines.last()) =~= lines);
        lines.drop_last().lemma_flatten_push(lines.last());
        let a = o1.flatten();
        let b = o2.flatten();
        assert(lines.flatten() == lines.drop_last().flatten() + lines.last());
        assert(a + pending_text(p1) == pending_text(pending) + lines.drop_last().flatten());
        assert(b + pending_text(p2) == pending_text(p1) + lines.last());
        assert((o1 + o2).flatten() == a + b);
        assert(a + b + pending_text(p2) =~= a + (b + pending_text(p2)));
        assert(a + (pending_text(p1) + lines.last()) =~= (a + pending_text(p1)) + lines.last());
        assert((pending_text(pending) + lines.drop_last().flatten()) + lines.last()
            =~= pending_text(pending) + (lines.drop_last().flatten() + lines.last()));
    }
}

/// Over a whole input - every physical line fed in order, then the end of
/// the input - the logical lines that come out, concatenated, are exactly
/// the physical lines concatenated: no character is lost, duplicated or
/// reordered, and no separator is added.
pub proof fn law_whole_input_keeps_its_text(lines: Seq<Seq<char>>)
    ensures
        ({
            let (p, o) = feed_all(None, lines);
            (o + finish_spec(p)).flatten() == lines.flatten()
        }),
{
    let (p, o) = feed_all(None, lines);
    lemma_feed_all_text(None, lines);
    vstd::seq_lib::lemma_flatten_concat(o, finish_spec(p));
    match p {
        Some(t) => {
            seq![t].lemma_flatten_singleton();
        },
        None => {
            assert(finish_spec(p).flatten() =~= Seq::<char>::empty());
        },
    }
    assert(Seq::<char>::empty() + lines.flatten() =~= lines.flatten());
    assert(o.flatten() + pending_text(p) =~= (o + finish_spec(p)).flatten());
}

proof fn lemma_fragments_held(frags: Seq<Seq<char>>, k: int)
    requires
        1 <= k <= frags.len(),
        forall|i: int| 0 <= i < k ==> is_wrap_len(#[trigger] frags[i].len()),
        forall|i: int| 1 <= i < frags.len() ==> !starts_fresh_line(#[trigger] frags[i]),
    ensures
        feed_all(None, frags.take(k)) == (Some(frags.take(k).flatten()), Seq::<Seq<char>>::empty()),
    decreases k,
{
    let t = frags.take(k);
    assert(t.drop_last() =~= frags.take(k - 1));
    assert(t.last() == frags[k - 1]);
    assert(frags.take(k - 1).push(frags[k - 1]) =~= t);
    frags.take(k - 1).lemma_flatten_push(frags[k - 1]);
    assert(is_wrap_len(frags[k - 1].len()));
    if k == 1 {
        assert(frags.take(0) =~= Seq::<Seq<char>>::empty());
        assert(Seq::<Seq<char>>::empty().flatten() =~= Seq::<char>::empty());
        assert(Seq::<char>::empty() + frags[0] =~= frags[0]);
        assert(feed_all(None, frags.take(0)) == (None::<Seq<char>>, Seq::<Seq<char>>::empty()));
        assert(feed_spec(None, frags[0]) == (Some(frags[0]), Seq::<Seq<char>>::empty()));
    } else {
        lemma_fragments_held(frags, k - 1);
        assert(!starts_fresh_line(frags[k - 1]));
        assert(feed_spec(Some(frags.take(k - 1).flatten()), frags[k - 1]) == (
            Some(frags.take(k - 1).flatten() + frags[k - 1]),
            Seq::<Seq<char>>::empty(),
        ));
    }
    assert(Seq::<Seq<char>>::empty() + Seq::<Seq<char>>::empty() =~= Seq::<Seq<char>>::empty());
}

/// Joining undoes TeX's hard wrap: a logical line that TeX cut into
/// 79- or 80-character fragments (the last one of any length), none of
/// the later fragments looking like the start of a fresh line, comes out
/// of the joiner as the one line it was.
pub proof fn law_wrapped_line_is_rebuilt(frags: Seq<Seq<char>>)
    requires
        frags.len() >= 1,
        forall|i: int| 0 <= i < frags.len() - 1 ==> is_wrap_len(#[trigger] frags[i].len()),
        forall|i: int| 1 <= i < frags.len() ==> !starts_fresh_line(#[trigger] frags[i]),
    ensures
        ({
            let (p, o) = feed_all(None, frags);
            o + finish_spec(p) == seq![frags.flatten()]
        }),
{
    let n = frags.len() as int;
    assert(frags.take(n) =~= frags);
    let last = frags[n - 1];
    let (p, o) = feed_all(None, frags);
    if is_wrap_len(last.len()) {
        assert forall|i: int| 0 <= i < n implies is_wrap_len(#[trigger] frags[i].len()) by {
            if i < n - 1 {
                assert(is_wrap_len(frags[i].len()));
            }
        }
        lemma_fragments_held(frags, n);
        assert(p == Some(frags.flatten()));
        assert(o == Seq::<Seq<char>>::empty());
        assert(o + finish_spec(p) =~= seq![frags.flatten()]);
    } else if n == 1 {
        assert(frags.drop_last() =~= Seq::<Seq<char>>::empty());
        assert(feed_all(None, frags.drop_last()) == (None::<Seq<char>>, Seq::<Seq<char>>::empty()));
        frags.lemma_flatten_singleton();
        assert(feed_spec(None, last) == (None::<Seq<char>>, Seq::<Seq<char>>::empty().push(last)));
        assert(p is None);
        assert(o =~= seq![last]);
        assert(o + finish_spec(p) =~= seq![frags.flatten()]);
    } else {
        lemma_fragments_held(frags, n - 1);
        assert(frags.drop_last() =~= frags.take(n - 1));
        assert(frags.take(n - 1).push(last) =~= frags);
        frags.take(n - 1).lemma_flatten_push(last);
        let x = frags.take(n - 1).flatten();
        assert(!starts_fresh_line(last));
        assert(feed_spec(Some(x), last) == (
            None::<Seq<char>>,
            Seq::<Seq<char>>::empty().push(x + last),
        ));
        assert(p is None);
        assert(o =~= seq![frags.flatten()]);
        assert(o + finish_spec(p) =~= seq![frags.flatten()]);
    }
}

} // verus!
