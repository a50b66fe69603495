//! Word wrapping for the rendered message body, context and hint lines.
use vstd::prelude::*;

use crate::text::{seqs, is_whitespace, is_ws, skip, slice_of, string_of, to_vec, chars_of};

verus! {

/// The whitespace-separated words of `s[..i]`, and the word still being
/// read at index `i`.
pub open spec fn words_fold(s: Seq<char>, i: int) -> (Seq<Seq<char>>, Seq<char>)
    decreases i,
{
    if i <= 0 || i > s.len() {
        (Seq::empty(), Seq::empty())
    } else {
        let (w, cur) = words_fold(s, i - 1);
        let c = s[i - 1];
        if is_ws(c) {
            if cur.len() > 0 {
                (w.push(cur), Seq::empty())
            } else {
                (w, Seq::empty())
            }
        } else {
            (w, cur.push(c))
        }
    }
}

/// `str::split_whitespace`: the maximal runs of non-whitespace characters.
pub open spec fn words(s: Seq<char>) -> Seq<Seq<char>> {
    let (w, cur) = words_fold(s, s.len() as int);
    if cur.len() > 0 {
        w.push(cur)
    } else {
        w
    }
}


fn push_seq(v: &mut Vec<Vec<char>>, e: Vec<char>)
    ensures
        seqs(final(v)@) == seqs(old(v)@).push(e@),
{
    let ghost before = seqs(v@);
    v.push(e);
    assert(seqs(v@) =~= before.push(e@));
}

pub fn split_words(s: &[char]) -> (r: Vec<Vec<char>>)
    ensures
        seqs(r@) == words(s@),
{
    let mut w: Vec<Vec<char>> = Vec::new();
    let mut cur: Vec<char> = Vec::new();
    let mut i: usize = 0;
    assert(seqs(w@) =~= Seq::<Seq<char>>::empty());
    while i < s.len()
        invariant
            i <= s@.len(),
            (seqs(w@), cur@) == words_fold(s@, i as int),
        decreases s@.len() - i,
    {
        let c = s[i];
        if is_whitespace(c) {
            if cur.len() > 0 {
                let mut done: Vec<char> = Vec::new();
                std::mem::swap(&mut done, &mut cur);
                push_seq(&mut w, done);
            }
        } else {
            cur.push(c);
        }
        i = i + 1;
    }
    if cur.len() > 0 {
        push_seq(&mut w, cur);
    }
    w
}

/// Hard-breaks `rest` into `width`-character pieces while it is longer
/// than `width`: the pieces are appended to `lines`, the remainder is
/// returned.
pub open spec fn break_long(lines: Seq<Seq<char>>, rest: Seq<char>, width: nat) -> (
    Seq<Seq<char>>,
    Seq<char>,
)
    decreases rest.len(),
{
    if width > 0 && rest.len() > width {
        break_long(lines.push(rest.take(width as int)), rest.skip(width as int), width)
    } else {
        (lines, rest)
    }
}

/// Adds one word to the finished lines and the line being filled: the
/// line is closed first when the word (after a space) would not fit, and
/// a word longer than the whole width is hard-broken.
pub open spec fn add_word(
    st: (Seq<Seq<char>>, Seq<char>),
    word: Seq<char>,
    width: nat,
) -> (Seq<Seq<char>>, Seq<char>) {
    let (lines, cur) = st;
    let (lines, cur) = if cur.len() > 0 && cur.len() + 1 + word.len() > width {
        (lines.push(cur), Seq::<char>::empty())
    } else {
        (lines, cur)
    };
    if word.len() > width {
        let lines = if cur.len() > 0 {
            lines.push(cur)
        } else {
            lines
        };
        break_long(lines, word, width)
    } else {
        (
            lines,
            if cur.len() > 0 {
                cur + seq![' '] + word
            } else {
                word
            },
        )
    }
}

/// The lines and the current line after the first `k` words.
pub open spec fn wrap_fold(ws: Seq<Seq<char>>, k: int, width: nat) -> (Seq<Seq<char>>, Seq<char>)
    decreases k,
{
    if k <= 0 || k > ws.len() {
        (Seq::empty(), Seq::empty())
    } else {
        add_word(wrap_fold(ws, k - 1, width), ws[k - 1], width)
    }
}

/// Word-wraps `text` to `width` columns. `width == 0` means "no limit".
/// Text that already fits comes back unmodified; otherwise its words are
/// laid out greedily, one space apart, and a single word longer than the
/// width is hard-broken.
pub open spec fn wrap(text: Seq<char>, width: nat) -> Seq<Seq<char>> {
    if width == 0 || text.len() <= width {
        seq![text]
    } else {
        let ws = words(text);
        let (lines, cur) = wrap_fold(ws, ws.len() as int, width);
        if cur.len() > 0 || lines.len() == 0 {
            lines.push(cur)
        } else {
            lines
        }
    }
}

fn take_vec(v: &mut Vec<char>) -> (r: Vec<char>)
    ensures
        r@ == old(v)@,
        final(v)@ == Seq::<char>::empty(),
{
    let mut r: Vec<char> = Vec::new();
    std::mem::swap(&mut r, v);
    r
}

fn add_word_exec(lines: &mut Vec<Vec<char>>, cur: &mut Vec<char>, word: &[char], width: usize)
    requires
        width > 0,
    ensures
        (seqs(final(lines)@), final(cur)@) == add_word(
            (seqs(old(lines)@), old(cur)@),
            word@,
            width as nat,
        ),
{
    let word_len = word.len();
    if cur.len() > 0 && (cur.len() as u128) + 1 + (word_len as u128) > (width as u128) {
        push_seq(lines, take_vec(cur));
    }
    if word_len > width {
        if cur.len() > 0 {
            push_seq(lines, take_vec(cur));
        }
        let ghost target = break_long(seqs(lines@), word@, width as nat);
        let mut rest = to_vec(word);
        while rest.len() > width
            invariant
                width > 0,
                cur@ == Seq::<char>::empty(),
                break_long(seqs(lines@), rest@, width as nat) == target,
            decreases rest@.len(),
        {
            let head = slice_of(rest.as_slice(), 0, width);
            let tail = skip(rest.as_slice(), width);
            push_seq(lines, head);
            rest = tail;
        }
        *cur = rest;
    } else {
        if cur.len() > 0 {
            cur.push(' ');
        }
        crate::text::append(cur, word);
    }
}

/// Word-wraps `text` to `width` columns (character count). `width == 0`
/// means "no limit", used both as an explicit opt-out and as the
/// saturating-subtraction result when a prefix already consumes the whole
/// terminal width.
///
/// When `text` already fits, it is returned unmodified, so that meaningful
/// whitespace (e.g. a source-snippet line whose leading spaces line up a
/// caret under a token) survives. Wrapping only kicks in for lines that
/// actually overflow, at which point runs of whitespace are normalized to
/// single spaces as part of reflowing.
pub fn wrap_plain(text: &str, width: usize) -> (r: Vec<String>)
    ensures
        r.deep_view() == wrap(text@, width as nat),
{
    let tv = chars_of(text);
    let lines = wrap_chars(tv.as_slice(), width);
    strings_of(&lines)
}

pub fn wrap_chars(text: &[char], width: usize) -> (r: Vec<Vec<char>>)
    ensures
        seqs(r@) == wrap(text@, width as nat),
{
    if width == 0 || text.len() <= width {
        let mut r: Vec<Vec<char>> = Vec::new();
        push_seq(&mut r, to_vec(text));
        assert(seqs(r@) =~= seq![text@]);
        return r;
    }
    let ws = split_words(text);
    let mut lines: Vec<Vec<char>> = Vec::new();
    let mut cur: Vec<char> = Vec::new();
    let mut k: usize = 0;
    assert(seqs(lines@) =~= Seq::<Seq<char>>::empty());
    while k < ws.len()
        invariant
            width > 0,
            k <= ws@.len(),
            seqs(ws@) == words(text@),
            (seqs(lines@), cur@) == wrap_fold(seqs(ws@), k as int, width as nat),
        decreases ws@.len() - k,
    {
        add_word_exec(&mut lines, &mut cur, ws[k].as_slice(), width);
        k = k + 1;
    }
    if cur.len() > 0 || lines.len() == 0 {
        push_seq(&mut lines, cur);
    }
    lines
}

pub fn strings_of(v: &Vec<Vec<char>>) -> (r: Vec<String>)
    ensures
        r.deep_view() == seqs(v@),
{
    let mut r: Vec<String> = Vec::new();
    let mut i: usize = 0;
    while i < v.len()
        invariant
            i <= v@.len(),
            r.deep_view() == seqs(v@).take(i as int),
        decreases v@.len() - i,
    {
        let ghost before = r.deep_view();
        r.push(string_of(v[i].as_slice()));
        assert(r.deep_view() =~= before.push(v[i as int]@));
        assert(seqs(v@).take(i + 1) =~= seqs(v@).take(i as int).push(v[i as int]@));
        i = i + 1;
    }
    assert(seqs(v@).take(v@.len() as int) =~= seqs(v@));
    r
}

// ---------------------------------------------------------------------
// Laws
// ---------------------------------------------------------------------

proof fn lemma_break_long_fits(lines: Seq<Seq<char>>, rest: Seq<char>, width: nat)
    requires
        width > 0,
        forall|i: int| 0 <= i < lines.len() ==> #[trigger] lines[i].len() <= width,
    ensures
        ({
            let (l, r) = break_long(lines, rest, width);
            &&& forall|i: int| 0 <= i < l.len() ==> #[trigger] l[i].len() <= width
            &&& r.len() <= width
            &&& r.len() > 0 || rest.len() == 0
        }),
    decreases rest.len(),
{
    if rest.len() > width {
        let l2 = lines.push(rest.take(width as int));
        assert forall|i: int| 0 <= i < l2.len() implies #[trigger] l2[i].len() <= width by {
            if i < lines.len() {
                assert(l2[i] == lines[i]);
            }
        }
        lemma_break_long_fits(l2, rest.skip(width as int), width);
    }
}

proof fn lemma_wrap_fold_fits(ws: Seq<Seq<char>>, k: int, width: nat)
    requires
        width > 0,
    ensures
        ({
            let (l, cur) = wrap_fold(ws, k, width);
            &&& forall|i: int| 0 <= i < l.len() ==> #[trigger] l[i].len() <= width
            &&& cur.len() <= width
        }),
    decreases k,
{
    if 0 < k <= ws.len() {
        lemma_wrap_fold_fits(ws, k - 1, width);
        let (l0, c0) = wrap_fold(ws, k - 1, width);
        let word = ws[k - 1];
        let (l1, c1) = if c0.len() > 0 && c0.len() + 1 + word.len() > width {
            (l0.push(c0), Seq::<char>::empty())
        } else {
            (l0, c0)
        };
        assert forall|i: int| 0 <= i < l1.len() implies #[trigger] l1[i].len() <= width by {
            if i < l0.len() {
                assert(l1[i] == l0[i]);
            }
        }
        if word.len() > width {
            let l2 = if c1.len() > 0 {
                l1.push(c1)
            } else {
                l1
            };
            assert forall|i: int| 0 <= i < l2.len() implies #[trigger] l2[i].len() <= width by {
                if i < l1.len() {
                    assert(l2[i] == l1[i]);
                }
            }
            lemma_break_long_fits(l2, word, width);
        }
    }
}

/// Wrapping never yields an empty list of lines, and every line fits the
/// width whenever there is a width limit: lines that already fit are
/// returned as they are, and longer text is reflowed into lines of at most
/// `width` characters.
pub proof fn law_wrap_fits_width(text: Seq<char>, width: nat)
    ensures
        wrap(text, width).len() >= 1,
        width > 0 ==> forall|i: int|
            0 <= i < wrap(text, width).len() ==> #[trigger] wrap(text, width)[i].len() <= width,
{
    if width > 0 && text.len() > width {
        let ws = words(text);
        lemma_wrap_fold_fits(ws, ws.len() as int, width);
        let (lines, cur) = wrap_fold(ws, ws.len() as int, width);
        let r = wrap(text, width);
        if cur.len() > 0 || lines.len() == 0 {
            assert forall|i: int| 0 <= i < r.len() implies #[trigger] r[i].len() <= width by {
                if i < lines.len() {
                    assert(r[i] == lines[i]);
                }
            }
        }
    }
}

/// Text that already fits, or any text when there is no width limit, is
/// returned as the only line, unchanged.
pub proof fn law_wrap_keeps_fitting_text(text: Seq<char>, width: nat)
    requires
        width == 0 || text.len() <= width,
    ensures
        wrap(text, width) == seq![text],
{
}


/// Whether `s` holds no whitespace at all.
pub open spec fn no_ws(s: Seq<char>) -> bool {
    forall|i: int| 0 <= i < s.len() ==> !is_ws(#[trigger] s[i])
}

/// `s` with every space removed.
pub open spec fn despace(s: Seq<char>) -> Seq<char>
    decreases s.len(),
{
    if s.len() == 0 {
        s
    } else if s.last() == ' ' {
        despace(s.drop_last())
    } else {
        despace(s.drop_last()).push(s.last())
    }
}

/// Whether a line has no leading, trailing or doubled space.
pub open spec fn well_spaced(l: Seq<char>) -> bool {
    &&& (l.len() > 0 ==> l[0] != ' ' && l[l.len() - 1] != ' ')
    &&& forall|i: int, j: int|
        0 <= i && j == i + 1 && j < l.len() ==> !(#[trigger] l[i] == ' ' && #[trigger] l[j] == ' ')
}

/// The first word of a line: everything before its first space.
pub open spec fn first_word(l: Seq<char>) -> Seq<char>
    decreases l.len(),
{
    if l.len() == 0 || l[0] == ' ' {
        Seq::empty()
    } else {
        seq![l[0]] + first_word(l.drop_first())
    }
}

/// Line `a` could not also have taken the first word of line `b`.
pub open spec fn greedy_pair(a: Seq<char>, b: Seq<char>, width: nat) -> bool {
    a.len() + 1 + first_word(b).len() > width
}

/// Every line is non-empty and well spaced, and each line is full with
/// respect to the next one.
pub open spec fn lines_ok(lines: Seq<Seq<char>>, width: nat) -> bool {
    &&& forall|i: int| 0 <= i < lines.len() ==> #[trigger] lines[i].len() > 0 && well_spaced(lines[i])
    &&& forall|i: int| 0 <= i < lines.len() - 1 ==> greedy_pair(#[trigger] lines[i], lines[i + 1], width)
}

proof fn lemma_words_fold_props(s: Seq<char>, i: int)
    ensures
        ({
            let (w, cur) = words_fold(s, i);
            &&& forall|k: int| 0 <= k < w.len() ==> #[trigger] w[k].len() > 0 && no_ws(w[k])
            &&& no_ws(cur)
        }),
    decreases i,
{
    if 0 < i <= s.len() {
        lemma_words_fold_props(s, i - 1);
        let (w, cur) = words_fold(s, i - 1);
        let c = s[i - 1];
        if is_ws(c) {
            if cur.len() > 0 {
                let w2 = w.push(cur);
                assert forall|k: int| 0 <= k < w2.len() implies #[trigger] w2[k].len() > 0 && no_ws(w2[k]) by {
                    if k < w.len() {
                        assert(w2[k] == w[k]);
                    }
                }
            }
            assert(no_ws(Seq::<char>::empty()));
        } else {
            let c2 = cur.push(c);
            assert forall|j: int| 0 <= j < c2.len() implies !is_ws(#[trigger] c2[j]) by {
                if j < cur.len() {
                    assert(c2[j] == cur[j]);
                }
            }
        }
    } else {
        assert(no_ws(Seq::<char>::empty()));
    }
}

proof fn lemma_words_props(s: Seq<char>)
    ensures
        forall|k: int| 0 <= k < words(s).len() ==> #[trigger] words(s)[k].len() > 0 && no_ws(words(s)[k]),
{
    lemma_words_fold_props(s, s.len() as int);
    let (w, cur) = words_fold(s, s.len() as int);
    if cur.len() > 0 {
        let w2 = w.push(cur);
        assert forall|k: int| 0 <= k < w2.len() implies #[trigger] w2[k].len() > 0 && no_ws(w2[k]) by {
            if k < w.len() {
                assert(w2[k] == w[k]);
            }
        }
    }
}

proof fn lemma_despace_concat(a: Seq<char>, b: Seq<char>)
    ensures
        despace(a + b) == despace(a) + despace(b),
    decreases b.len(),
{
    if b.len() == 0 {
        assert(a + b =~= a);
        assert(despace(a) + Seq::<char>::empty() =~= despace(a));
    } else {
        lemma_despace_concat(a, b.drop_last());
        assert((a + b).drop_last() =~= a + b.drop_last());
        assert((a + b).last() == b.last());
        if b.last() != ' ' {
            assert(despace(a) + despace(b.drop_last()).push(b.last()) =~= (despace(a) + despace(
                b.drop_last(),
            )).push(b.last()));
        }
    }
}

proof fn lemma_despace_no_ws(w: Seq<char>)
    requires
        no_ws(w),
    ensures
        despace(w) == w,
    decreases w.len(),
{
    if w.len() > 0 {
        assert(!is_ws(w[w.len() - 1]));
        assert(no_ws(w.drop_last())) by {
            assert forall|i: int| 0 <= i < w.drop_last().len() implies !is_ws(
                #[trigger] w.drop_last()[i],
            ) by {
                assert(w.drop_last()[i] == w[i]);
            }
        }
        lemma_despace_no_ws(w.drop_last());
        assert(w.drop_last().push(w.last()) =~= w);
    }
}

proof fn lemma_first_word_no_ws(w: Seq<char>)
    requires
        no_ws(w),
    ensures
        first_word(w) == w,
    decreases w.len(),
{
    if w.len() > 0 {
        assert(!is_ws(w[0]));
        assert(no_ws(w.drop_first())) by {
            assert forall|i: int| 0 <= i < w.drop_first().len() implies !is_ws(
                #[trigger] w.drop_first()[i],
            ) by {
                assert(w.drop_first()[i] == w[i + 1]);
            }
        }
        lemma_first_word_no_ws(w.drop_first());
        assert(seq![w[0]] + w.drop_first() =~= w);
    }
}

proof fn lemma_first_word_append(a: Seq<char>, b: Seq<char>)
    ensures
        first_word(a + seq![' '] + b) == first_word(a),
    decreases a.len(),
{
    let x = a + seq![' '] + b;
    if a.len() == 0 {
        assert(x[0] == ' ');
    } else {
        assert(x[0] == a[0]);
        if a[0] != ' ' {
            assert(x.drop_first() =~= a.drop_first() + seq![' '] + b);
            lemma_first_word_append(a.drop_first(), b);
        }
    }
}

proof fn lemma_well_spaced_no_ws(w: Seq<char>)
    requires
        no_ws(w),
    ensures
        well_spaced(w),
{
    if w.len() > 0 {
        assert(!is_ws(w[0]));
        assert(!is_ws(w[w.len() - 1]));
    }
    assert forall|i: int, j: int|
        0 <= i && j == i + 1 && j < w.len() implies !(#[trigger] w[i] == ' ' && #[trigger] w[j] == ' ') by {
        assert(!is_ws(w[i]));
    }
}

proof fn lemma_well_spaced_join(a: Seq<char>, w: Seq<char>)
    requires
        well_spaced(a),
        a.len() > 0,
        w.len() > 0,
        no_ws(w),
    ensures
        well_spaced(a + seq![' '] + w),
{
    let x = a + seq![' '] + w;
    let n = a.len() as int;
    assert(x[0] == a[0]);
    assert(x[x.len() - 1] == w[w.len() - 1]);
    assert(!is_ws(w[w.len() - 1]));
    assert forall|i: int, j: int|
        0 <= i && j == i + 1 && j < x.len() implies !(#[trigger] x[i] == ' ' && #[trigger] x[j] == ' ') by {
        if j < n {
            assert(x[i] == a[i] && x[j] == a[j]);
        } else if j == n {
            assert(x[i] == a[n - 1]);
        } else if j == n + 1 {
            assert(x[j] == w[0]);
            assert(!is_ws(w[0]));
        } else {
            assert(x[j] == w[j - n - 1]);
            assert(!is_ws(w[j - n - 1]));
        }
    }
}

proof fn lemma_lines_ok_push(lines: Seq<Seq<char>>, l: Seq<char>, width: nat)
    requires
        lines_ok(lines, width),
        l.len() > 0,
        well_spaced(l),
        lines.len() > 0 ==> greedy_pair(lines.last(), l, width),
    ensures
        lines_ok(lines.push(l), width),
{
    let l2 = lines.push(l);
    assert forall|i: int| 0 <= i < l2.len() implies #[trigger] l2[i].len() > 0 && well_spaced(l2[i]) by {
        if i < lines.len() {
            assert(l2[i] == lines[i]);
        }
    }
    assert forall|i: int| 0 <= i < l2.len() - 1 implies greedy_pair(#[trigger] l2[i], l2[i + 1], width) by {
        assert(l2[i] == lines[i]);
        if i < lines.len() - 1 {
            assert(l2[i + 1] == lines[i + 1]);
            assert(greedy_pair(lines[i], lines[i + 1], width));
        }
    }
}

proof fn lemma_break_long_props(lines: Seq<Seq<char>>, rest: Seq<char>, width: nat)
    requires
        width > 0,
        rest.len() > 0,
        no_ws(rest),
        lines_ok(lines, width),
        lines.len() > 0 ==> greedy_pair(lines.last(), rest, width),
    ensures
        ({
            let (l, r) = break_long(lines, rest, width);
            &&& lines_ok(l, width)
            &&& r.len() > 0
            &&& no_ws(r)
            &&& (l.len() > 0 ==> greedy_pair(l.last(), r, width))
            &&& l.flatten() + r == lines.flatten() + rest
        }),
    decreases rest.len(),
{
    if rest.len() > width {
        let piece = rest.take(width as int);
        let tail = rest.skip(width as int);
        assert(no_ws(piece)) by {
            assert forall|i: int| 0 <= i < piece.len() implies !is_ws(#[trigger] piece[i]) by {
                assert(piece[i] == rest[i]);
            }
        }
        assert(no_ws(tail)) by {
            assert forall|i: int| 0 <= i < tail.len() implies !is_ws(#[trigger] tail[i]) by {
                assert(tail[i] == rest[i + width]);
            }
        }
        lemma_first_word_no_ws(piece);
        lemma_first_word_no_ws(tail);
        lemma_well_spaced_no_ws(piece);
        lemma_lines_ok_push(lines, piece, width);
        let l2 = lines.push(piece);
        lemma_break_long_props(l2, tail, width);
        lines.lemma_flatten_push(piece);
        assert(piece + tail =~= rest);
        let (l, r) = break_long(l2, tail, width);
        assert(l.flatten() + r == l2.flatten() + tail);
        assert(lines.flatten() + piece + tail =~= lines.flatten() + rest);
    } else {
        assert(lines.flatten() + rest == lines.flatten() + rest);
    }
}

/// Everything the fold keeps: good lines, the line being filled well
/// spaced and full with respect to the last line, and no text but spaces
/// changed.
pub open spec fn fold_ok(ws: Seq<Seq<char>>, k: int, width: nat) -> bool {
    let (l, cur) = wrap_fold(ws, k, width);
    &&& lines_ok(l, width)
    &&& well_spaced(cur)
    &&& (cur.len() > 0 || l.len() == 0)
    &&& (l.len() > 0 && cur.len() > 0 ==> greedy_pair(l.last(), cur, width))
    &&& despace(l.flatten() + cur) == ws.take(k).flatten()
}

proof fn lemma_wrap_fold_props(ws: Seq<Seq<char>>, k: int, width: nat)
    requires
        width > 0,
        0 <= k <= ws.len(),
        forall|j: int| 0 <= j < ws.len() ==> #[trigger] ws[j].len() > 0 && no_ws(ws[j]),
    ensures
        fold_ok(ws, k, width),
    decreases k,
{
    if k == 0 {
        assert(ws.take(0) =~= Seq::<Seq<char>>::empty());
        assert(Seq::<Seq<char>>::empty().flatten() =~= Seq::<char>::empty());
        assert(Seq::<Seq<char>>::empty().flatten() + Seq::<char>::empty() =~= Seq::<char>::empty());
        assert(lines_ok(Seq::<Seq<char>>::empty(), width));
    } else {
        lemma_wrap_fold_props(ws, k - 1, width);
        let (l0, c0) = wrap_fold(ws, k - 1, width);
        let word = ws[k - 1];
        assert(word.len() > 0 && no_ws(word));
        lemma_first_word_no_ws(word);
        lemma_despace_no_ws(word);
        lemma_well_spaced_no_ws(word);
        assert(ws.take(k) =~= ws.take(k - 1).push(word));
        ws.take(k - 1).lemma_flatten_push(word);
        let before = ws.take(k - 1).flatten();
        assert(despace(l0.flatten() + c0) == before);
        let close = c0.len() > 0 && c0.len() + 1 + word.len() > width;
        let (l1, c1) = if close {
            (l0.push(c0), Seq::<char>::empty())
        } else {
            (l0, c0)
        };
        if close {
            lemma_lines_ok_push(l0, c0, width);
            l0.lemma_flatten_push(c0);
            assert(l1.flatten() + c1 =~= l0.flatten() + c0);
            assert(greedy_pair(c0, word, width));
        }
        assert(despace(l1.flatten() + c1) == before);
        assert(lines_ok(l1, width));
        assert(c1.len() > 0 || l1.len() == 0 || greedy_pair(l1.last(), word, width));
        let (l, cur) = wrap_fold(ws, k, width);
        if word.len() > width {
            assert(c1.len() == 0);
            lemma_break_long_props(l1, word, width);
            let (lb, rb) = break_long(l1, word, width);
            assert(l == lb && cur == rb);
            lemma_despace_concat(l1.flatten(), word);
            lemma_despace_concat(l1.flatten() + Seq::<char>::empty(), word);
            assert(l1.flatten() + c1 =~= l1.flatten());
            assert(l.flatten() + cur == l1.flatten() + word);
            assert(despace(l1.flatten()) == before);
            lemma_well_spaced_no_ws(cur);
        } else if c1.len() > 0 {
            let x = c1 + seq![' '] + word;
            assert(cur == x);
            assert(l == l1);
            lemma_well_spaced_join(c1, word);
            lemma_first_word_append(c1, word);
            lemma_despace_concat(l1.flatten() + c1, seq![' ']);
            lemma_despace_concat(l1.flatten() + c1 + seq![' '], word);
            assert(despace(seq![' ']) == despace(Seq::<char>::empty())) by {
                assert(seq![' '].drop_last() =~= Seq::<char>::empty());
            }
            assert(despace(Seq::<char>::empty()) =~= Seq::<char>::empty());
            assert(l.flatten() + cur =~= l1.flatten() + c1 + seq![' '] + word);
            assert(before + Seq::<char>::empty() =~= before);
        } else {
            assert(cur == word);
            assert(l == l1);
            lemma_despace_concat(l1.flatten(), word);
            assert(l1.flatten() + c1 =~= l1.flatten());
        }
    }
}

/// When text is reflowed, only its spacing changes: every line has no
/// leading, trailing or doubled space, and the lines with their spaces
/// removed are the words of the text run together. The fill is greedy:
/// no line could also have taken the first word of the line after it.
pub proof fn law_wrap_changes_only_spacing(text: Seq<char>, width: nat)
    requires
        width > 0,
        text.len() > width,
    ensures
        forall|i: int| 0 <= i < wrap(text, width).len() ==> well_spaced(#[trigger] wrap(text, width)[i]),
        despace(wrap(text, width).flatten()) == words(text).flatten(),
        forall|i: int|
            0 <= i < wrap(text, width).len() - 1 ==> greedy_pair(
                #[trigger] wrap(text, width)[i],
                wrap(text, width)[i + 1],
                width,
            ),
{
    let ws = words(text);
    lemma_words_props(text);
    lemma_wrap_fold_props(ws, ws.len() as int, width);
    assert(ws.take(ws.len() as int) =~= ws);
    let (l, cur) = wrap_fold(ws, ws.len() as int, width);
    let r = wrap(text, width);
    if cur.len() > 0 || l.len() == 0 {
        assert(r == l.push(cur));
        l.lemma_flatten_push(cur);
        assert forall|i: int| 0 <= i < r.len() implies well_spaced(#[trigger] r[i]) by {
            if i < l.len() {
                assert(r[i] == l[i]);
            }
        }
        assert forall|i: int| 0 <= i < r.len() - 1 implies greedy_pair(#[trigger] r[i], r[i + 1], width) by {
            assert(r[i] == l[i]);
            if i < l.len() - 1 {
                assert(r[i + 1] == l[i + 1]);
                assert(greedy_pair(l[i], l[i + 1], width));
            }
        }
    } else {
        assert(r == l);
        assert(l.flatten() + cur =~= l.flatten());
        assert forall|i: int| 0 <= i < r.len() - 1 implies greedy_pair(#[trigger] r[i], r[i + 1], width) by {
            assert(greedy_pair(l[i], l[i + 1], width));
        }
    }
}

} // verus!
