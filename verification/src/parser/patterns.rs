//! Recognizers for the single-line shapes of TeX diagnostics: each one
//! tells whether a logical line has a given shape and, if so, extracts its
//! fields.
use vstd::prelude::*;

use crate::model::{KindV, MessageKind};
use crate::parser::file_stack::{looks_like_path, looks_like_path_exec};
use crate::text::{
    all_digits, chars_eq, chars_of, concat, dec, digit_run, find, find_char, find_char_exec,
    find_nondigit, find_seq, find_str, find_token_end, has_prefix, is_ascii_digit, is_blank,
    is_digit, lemma_char_from_bounds, lemma_find_from_bounds, lemma_nondigit_from_bounds,
    nondigit_from, parse_u32, to_vec, parse_u32_exec, skip, slice_of, starts_with_char, starts_with_str,
    stop_from, string_of, token_end, trim, trim_exec, trim_start, trim_start_exec,
};

verus! {

// ---------------------------------------------------------------------
// Views of optional results
// ---------------------------------------------------------------------

pub open spec fn opt_chars(o: Option<Vec<char>>) -> Option<Seq<char>> {
    match o {
        Some(v) => Some(v@),
        None => None,
    }
}

pub open spec fn opt_pair(o: Option<(Vec<char>, Vec<char>)>) -> Option<(Seq<char>, Seq<char>)> {
    match o {
        Some((a, b)) => Some((a@, b@)),
        None => None,
    }
}

/// Removes one leading space, if there is one.
pub open spec fn strip_one_space(s: Seq<char>) -> Seq<char> {
    if starts_with_char(s, ' ') {
        s.drop_first()
    } else {
        s
    }
}

fn strip_one_space_exec(s: Vec<char>) -> (r: Vec<char>)
    ensures
        r@ == strip_one_space(s@),
{
    if s.len() > 0 && s[0] == ' ' {
        skip(s.as_slice(), 1)
    } else {
        s
    }
}

// ---------------------------------------------------------------------
// Terminators
// ---------------------------------------------------------------------

/// Whether `line` starts a recognised event: a new error, box, warning,
/// file open, page bracket or `l.N` source marker.
pub open spec fn is_event_prefix(line: Seq<char>) -> bool {
    ||| has_prefix(line, "l."@)
    ||| has_prefix(line, "FiXme"@)
    ||| has_prefix(line, "!"@)
    ||| has_prefix(line, "Overfull"@)
    ||| has_prefix(line, "Underfull"@)
    ||| has_prefix(line, "LaTeX Warning"@)
    ||| has_prefix(line, "Package"@)
    ||| has_prefix(line, "Class"@)
    ||| has_prefix(line, "Missing character"@)
    ||| has_prefix(line, "("@)
    ||| has_prefix(line, "["@)
    ||| has_prefix(line, "]"@)
    ||| has_prefix(line, "Warning--"@)
}

pub fn is_recognized_event_prefix(line: &[char]) -> (r: bool)
    ensures
        r == is_event_prefix(line@),
{
    starts_with_str(line, "l.") || starts_with_str(line, "FiXme") || starts_with_str(line, "!")
        || starts_with_str(line, "Overfull") || starts_with_str(line, "Underfull")
        || starts_with_str(line, "LaTeX Warning") || starts_with_str(line, "Package")
        || starts_with_str(line, "Class") || starts_with_str(line, "Missing character")
        || starts_with_str(line, "(") || starts_with_str(line, "[") || starts_with_str(line, "]")
        || starts_with_str(line, "Warning--")
}

/// Whether `line` ends an in-progress multi-line warning continuation.
///
/// Narrower than [`is_event_prefix`] in two ways: a `(` only terminates if
/// what follows looks like a file path (not a `(package)` padding marker),
/// and a `<` (an unrelated font-usage trailer) always terminates.
pub open spec fn terminates_warning(line: Seq<char>) -> bool {
    if starts_with_char(line, '<') {
        true
    } else if starts_with_char(line, '(') {
        let rest = line.drop_first();
        looks_like_path(rest.take(token_end(rest)))
    } else {
        is_event_prefix(line)
    }
}

pub fn terminates_warning_continuation(line: &[char]) -> (r: bool)
    ensures
        r == terminates_warning(line@),
{
    if line.len() > 0 && line[0] == '<' {
        return true;
    }
    if line.len() > 0 && line[0] == '(' {
        let rest = skip(line, 1);
        let end = find_token_end(rest.as_slice(), 0);
        let tok = slice_of(rest.as_slice(), 0, end);
        assert(tok@ =~= rest@.take(token_end(rest@)));
        return looks_like_path_exec(tok.as_slice());
    }
    is_recognized_event_prefix(line)
}

/// A leading `(package)` continuation marker, e.g. `"(natbib)
/// Rerun to get citations correct."`: the text after the marker, or `None`
/// when the line has no such marker (a word in parentheses that does not
/// look like a file path).
pub open spec fn strip_pkg_annotation(line: Seq<char>) -> Option<Seq<char>> {
    let t = trim_start(line);
    if !starts_with_char(t, '(') {
        None
    } else {
        let rest = t.drop_first();
        let e = token_end(rest);
        if starts_with_char(rest.skip(e), ')') && !looks_like_path(rest.take(e)) {
            Some(rest.skip(e + 1))
        } else {
            None
        }
    }
}

pub fn strip_pkg_annotation_exec(line: &[char]) -> (r: Option<Vec<char>>)
    ensures
        opt_chars(r) == strip_pkg_annotation(line@),
{
    let t = trim_start_exec(line);
    if t.len() == 0 || t[0] != '(' {
        return None;
    }
    let rest = skip(t.as_slice(), 1);
    let e = find_token_end(rest.as_slice(), 0);
    if e < rest.len() && rest[e] == ')' {
        let tok = slice_of(rest.as_slice(), 0, e);
        assert(tok@ =~= rest@.take(e as int));
        if !looks_like_path_exec(tok.as_slice()) {
            return Some(skip(rest.as_slice(), e + 1));
        }
    }
    None
}

/// [`strip_pkg_annotation`], keeping `line` unchanged when there is no
/// marker to strip.
pub open spec fn strip_warning_annotation(line: Seq<char>) -> Seq<char> {
    match strip_pkg_annotation(line) {
        Some(r) => r,
        None => line,
    }
}

pub fn strip_warning_annotation_exec(line: &[char]) -> (r: Vec<char>)
    ensures
        r@ == strip_warning_annotation(line@),
{
    match strip_pkg_annotation_exec(line) {
        Some(r) => r,
        None => to_vec(line),
    }
}

// ---------------------------------------------------------------------
// Errors
// ---------------------------------------------------------------------

/// A GCC-style error line `file:N: message`: the file, the line number and
/// the message, when the file looks like a path, `N` is a number and the
/// message is not empty.
pub open spec fn gcc_style(line: Seq<char>) -> Option<(Seq<char>, u32, Seq<char>)> {
    match find_char(line, ':') {
        None => None,
        Some(c1) => {
            let path = line.take(c1);
            let rem = line.skip(c1 + 1);
            if !looks_like_path(path) {
                None
            } else {
                match find_char(rem, ':') {
                    None => None,
                    Some(c2) => match parse_u32(trim(rem.take(c2))) {
                        None => None,
                        Some(n) => {
                            let msg = strip_one_space(rem.skip(c2 + 1));
                            if msg.len() == 0 {
                                None
                            } else {
                                Some((path, n, msg))
                            }
                        },
                    },
                }
            }
        },
    }
}

pub open spec fn opt_triple(o: Option<(Vec<char>, u32, Vec<char>)>) -> Option<
    (Seq<char>, u32, Seq<char>),
> {
    match o {
        Some((a, n, b)) => Some((a@, n, b@)),
        None => None,
    }
}

pub fn try_parse_gcc_style(line: &[char]) -> (r: Option<(Vec<char>, u32, Vec<char>)>)
    ensures
        opt_triple(r) == gcc_style(line@),
{
    let c1 = match find_char_exec(line, ':') {
        None => return None,
        Some(c1) => c1,
    };
    let path = slice_of(line, 0, c1);
    if !looks_like_path_exec(path.as_slice()) {
        return None;
    }
    let rem = skip(line, c1 + 1);
    let c2 = match find_char_exec(rem.as_slice(), ':') {
        None => return None,
        Some(c2) => c2,
    };
    let num = slice_of(rem.as_slice(), 0, c2);
    let num = trim_exec(num.as_slice());
    let n = match parse_u32_exec(num.as_slice()) {
        None => return None,
        Some(n) => n,
    };
    let msg = strip_one_space_exec(skip(rem.as_slice(), c2 + 1));
    if msg.len() == 0 {
        return None;
    }
    Some((path, n, msg))
}

/// A `"<prefix><label><sep><rest>"` shape (e.g. `"Package foo Error: "`):
/// `(label, rest)`, split at the first occurrence of `sep` after `prefix`.
pub open spec fn strip_labeled(line: Seq<char>, prefix: Seq<char>, sep: Seq<char>) -> Option<
    (Seq<char>, Seq<char>),
> {
    if !has_prefix(line, prefix) {
        None
    } else {
        let rest = line.skip(prefix.len() as int);
        match find(rest, sep) {
            None => None,
            Some(i) => Some((rest.take(i), rest.skip(i + sep.len()))),
        }
    }
}

pub fn strip_labeled_exec(line: &[char], prefix: &str, sep: &str) -> (r: Option<
    (Vec<char>, Vec<char>),
>)
    ensures
        opt_pair(r) == strip_labeled(line@, prefix@, sep@),
{
    let pv = chars_of(prefix);
    if !starts_with_str(line, prefix) {
        return None;
    }
    let rest = skip(line, pv.len());
    let sv = chars_of(sep);
    match find_seq(rest.as_slice(), sv.as_slice()) {
        None => None,
        Some(i) => Some((slice_of(rest.as_slice(), 0, i), skip(rest.as_slice(), i + sv.len()))),
    }
}

/// The kind and text of an error, from the text after `! ` (or after a
/// GCC-style location): `Package X Error: ` and `Class X Error: ` give a
/// package error for `X`, `LaTeX Error: ` is stripped, anything else is a
/// plain LaTeX error kept whole.
pub open spec fn classify_error(rest: Seq<char>) -> (KindV, Seq<char>) {
    match strip_labeled(rest, "Package "@, " Error: "@) {
        Some((pkg, text)) => (KindV::PackageError { package: pkg }, text),
        None => match strip_labeled(rest, "Class "@, " Error: "@) {
            Some((pkg, text)) => (KindV::PackageError { package: pkg }, text),
            None => if has_prefix(rest, "LaTeX Error: "@) {
                (KindV::LatexError, rest.skip("LaTeX Error: "@.len() as int))
            } else {
                (KindV::LatexError, rest)
            },
        },
    }
}

pub fn classify_error_text(rest: &[char]) -> (r: (MessageKind, Vec<char>))
    ensures
        (r.0@, r.1@) == classify_error(rest@),
{
    if let Some((pkg, text)) = strip_labeled_exec(rest, "Package ", " Error: ") {
        return (MessageKind::PackageError { package: string_of(pkg.as_slice()) }, text);
    }
    if let Some((pkg, text)) = strip_labeled_exec(rest, "Class ", " Error: ") {
        return (MessageKind::PackageError { package: string_of(pkg.as_slice()) }, text);
    }
    let lv = chars_of("LaTeX Error: ");
    if starts_with_str(rest, "LaTeX Error: ") {
        return (MessageKind::LatexError, skip(rest, lv.len()));
    }
    (MessageKind::LatexError, to_vec(rest))
}

/// An `l.N` source marker: the line number `N` and the source text after
/// it (one separating space removed). The digits may run to the end of the
/// line: a bare `l.42` is the marker of line 42 with no source text.
pub open spec fn line_marker(line: Seq<char>) -> Option<(u32, Seq<char>)> {
    if !has_prefix(line, "l."@) {
        None
    } else {
        let rest = line.skip(2);
        let end = digit_run(rest);
        if end == 0 {
            None
        } else {
            match parse_u32(rest.take(end)) {
                None => None,
                Some(n) => Some((n, strip_one_space(rest.skip(end)))),
            }
        }
    }
}

pub open spec fn opt_num_chars(o: Option<(u32, Vec<char>)>) -> Option<(u32, Seq<char>)> {
    match o {
        Some((n, v)) => Some((n, v@)),
        None => None,
    }
}

pub fn try_parse_line_marker(line: &[char]) -> (r: Option<(u32, Vec<char>)>)
    ensures
        opt_num_chars(r) == line_marker(line@),
{
    proof {
        reveal_strlit("l.");
    }
    if !starts_with_str(line, "l.") {
        return None;
    }
    let rest = skip(line, 2);
    let end = digit_run_exec(rest.as_slice());
    if end == 0 {
        return None;
    }
    let digits = slice_of(rest.as_slice(), 0, end);
    let n = match parse_u32_exec(digits.as_slice()) {
        None => return None,
        Some(n) => n,
    };
    Some((n, strip_one_space_exec(skip(rest.as_slice(), end))))
}

// ---------------------------------------------------------------------
// Warnings
// ---------------------------------------------------------------------

/// Finds `marker` followed by a run of ASCII digits (optionally followed by
/// a `.`), and returns the text with that whole `"<marker>N[.]"` span
/// removed, plus the number.
pub open spec fn extract_marker(text: Seq<char>, marker: Seq<char>) -> Option<(Seq<char>, u32)> {
    match find(text, marker) {
        None => None,
        Some(idx) => {
            let after = text.skip(idx + marker.len());
            let num_end = digit_run(after);
            if num_end == 0 {
                None
            } else {
                match parse_u32(after.take(num_end)) {
                    None => None,
                    Some(n) => {
                        let rest = after.skip(num_end);
                        let rest = if starts_with_char(rest, '.') {
                            rest.drop_first()
                        } else {
                            rest
                        };
                        Some((text.take(idx) + rest, n))
                    },
                }
            }
        },
    }
}

pub open spec fn opt_chars_num(o: Option<(Vec<char>, u32)>) -> Option<(Seq<char>, u32)> {
    match o {
        Some((v, n)) => Some((v@, n)),
        None => None,
    }
}

pub(crate) fn digit_run_exec(s: &[char]) -> (r: usize)
    ensures
        r == digit_run(s@),
        r <= s@.len(),
{
    match find_nondigit(s) {
        Some(k) => k,
        None => s.len(),
    }
}

pub fn extract_marker_exec(text: &[char], marker: &str) -> (r: Option<(Vec<char>, u32)>)
    ensures
        opt_chars_num(r) == extract_marker(text@, marker@),
{
    let mv = chars_of(marker);
    let idx = match find_str(text, marker) {
        None => return None,
        Some(idx) => idx,
    };
    let after = skip(text, idx + mv.len());
    let num_end = digit_run_exec(after.as_slice());
    if num_end == 0 {
        return None;
    }
    let digits = slice_of(after.as_slice(), 0, num_end);
    let n = match parse_u32_exec(digits.as_slice()) {
        None => return None,
        Some(n) => n,
    };
    let rest = skip(after.as_slice(), num_end);
    let rest = if rest.len() > 0 && rest[0] == '.' {
        skip(rest.as_slice(), 1)
    } else {
        rest
    };
    let head = slice_of(text, 0, idx);
    Some((concat(head.as_slice(), rest.as_slice()), n))
}

/// `s` split on single spaces, empty pieces dropped, and joined back with
/// single spaces: the first `i` characters of `s`, squeezed.
pub open spec fn squeeze_upto(s: Seq<char>, i: int) -> Seq<char>
    decreases i,
{
    if i <= 0 || i > s.len() {
        Seq::empty()
    } else {
        let prev = squeeze_upto(s, i - 1);
        let c = s[i - 1];
        if c == ' ' {
            prev
        } else if i >= 2 && s[i - 2] == ' ' && prev.len() > 0 {
            prev.push(' ').push(c)
        } else {
            prev.push(c)
        }
    }
}

/// Collapses runs of spaces down to one; leaves `s` unchanged when it
/// holds no two spaces in a row.
pub open spec fn normalize_spaces(s: Seq<char>) -> Seq<char> {
    if !(find(s, "  "@) is Some) {
        s
    } else {
        squeeze_upto(s, s.len() as int)
    }
}

pub fn normalize_spaces_exec(s: &[char]) -> (r: Vec<char>)
    ensures
        r@ == normalize_spaces(s@),
{
    if find_str(s, "  ").is_none() {
        return to_vec(s);
    }
    let mut out: Vec<char> = Vec::new();
    let mut i: usize = 0;
    while i < s.len()
        invariant
            i <= s@.len(),
            out@ == squeeze_upto(s@, i as int),
        decreases s@.len() - i,
    {
        let c = s[i];
        if c == ' ' {
        } else if i >= 1 && s[i - 1] == ' ' && out.len() > 0 {
            out.push(' ');
            out.push(c);
        } else {
            out.push(c);
        }
        i = i + 1;
    }
    out
}

/// The text with the first `<marker>N[.]` span removed and the number, or
/// the text unchanged and no number when there is no such span.
pub open spec fn take_marker(text: Seq<char>, marker: Seq<char>) -> (Seq<char>, Option<u32>) {
    match extract_marker(text, marker) {
        Some((t, n)) => (t, Some(n)),
        None => (text, None),
    }
}

fn take_marker_exec(text: &[char], marker: &str) -> (r: (Vec<char>, Option<u32>))
    ensures
        (r.0@, r.1) == take_marker(text@, marker@),
{
    match extract_marker_exec(text, marker) {
        Some((t, n)) => (t, Some(n)),
        None => (to_vec(text), None),
    }
}

/// The warning text with its `on page N` and `on input line N` markers
/// removed and spaces tidied, plus the line and page numbers found.
pub open spec fn page_and_line(text: Seq<char>) -> (Seq<char>, Option<u32>, Option<u32>) {
    let a = take_marker(text, "on page "@);
    let b = take_marker(a.0, "on input line "@);
    (trim(normalize_spaces(b.0)), b.1, a.1)
}

pub fn parse_optional_page_and_line(text: &[char]) -> (r: (Vec<char>, Option<u32>, Option<u32>))
    ensures
        (r.0@, r.1, r.2) == page_and_line(text@),
{
    let a = take_marker_exec(text, "on page ");
    let b = take_marker_exec(a.0.as_slice(), "on input line ");
    let cleaned = normalize_spaces_exec(b.0.as_slice());
    (trim_exec(cleaned.as_slice()), b.1, a.1)
}

/// A named warning: `Package X Warning: `, `Class X Warning: `, or any
/// single-word label `X Warning: ` (e.g. `LaTeX`, `FiXme`): the label and
/// the text after it.
pub open spec fn named_warning(line: Seq<char>) -> Option<(Seq<char>, Seq<char>)> {
    if has_prefix(line, "Package "@) {
        strip_labeled(line, "Package "@, " Warning: "@)
    } else if has_prefix(line, "Class "@) {
        strip_labeled(line, "Class "@, " Warning: "@)
    } else {
        match find(line, " Warning: "@) {
            None => None,
            Some(idx) => {
                let pkg = line.take(idx);
                if pkg.len() > 0 && !pkg.contains(' ') {
                    Some((pkg, line.skip(idx + " Warning: "@.len())))
                } else {
                    None
                }
            },
        }
    }
}

pub fn try_parse_named_warning(line: &[char]) -> (r: Option<(Vec<char>, Vec<char>)>)
    ensures
        opt_pair(r) == named_warning(line@),
{
    if starts_with_str(line, "Package ") {
        return strip_labeled_exec(line, "Package ", " Warning: ");
    }
    if starts_with_str(line, "Class ") {
        return strip_labeled_exec(line, "Class ", " Warning: ");
    }
    let wv = chars_of(" Warning: ");
    match find_str(line, " Warning: ") {
        None => None,
        Some(idx) => {
            let pkg = slice_of(line, 0, idx);
            let sp = find_char_exec(pkg.as_slice(), ' ');
            proof {
                lemma_char_from_bounds(pkg@, ' ', 0);
            }
            if pkg.len() > 0 && sp.is_none() {
                Some((pkg, skip(line, idx + wv.len())))
            } else {
                None
            }
        },
    }
}

/// An engine-level warning `[<engine> ]warning (<tag>): <text>`: the label
/// (`"<engine> (<tag>)"`, or just `"<tag>"` without an engine) and the
/// text.
pub open spec fn engine_warning(line: Seq<char>) -> Option<(Seq<char>, Seq<char>)> {
    match find(line, "warning"@) {
        None => None,
        Some(idx) => {
            let engine = trim(line.take(idx));
            let rest = trim_start(line.skip(idx + "warning"@.len()));
            if !starts_with_char(rest, '(') {
                None
            } else {
                let rest = rest.drop_first();
                match find_char(rest, ')') {
                    None => None,
                    Some(close) => {
                        let tag = rest.take(close);
                        let after = rest.skip(close + 1);
                        if !starts_with_char(after, ':') {
                            None
                        } else {
                            let text = strip_one_space(after.drop_first());
                            let package = if engine.len() == 0 {
                                tag
                            } else {
                                engine + " ("@ + tag + ")"@
                            };
                            Some((package, text))
                        }
                    },
                }
            }
        },
    }
}

pub fn try_parse_engine_warning(line: &[char]) -> (r: Option<(Vec<char>, Vec<char>)>)
    ensures
        opt_pair(r) == engine_warning(line@),
{
    let wv = chars_of("warning");
    let idx = match find_str(line, "warning") {
        None => return None,
        Some(idx) => idx,
    };
    let head = slice_of(line, 0, idx);
    let engine = trim_exec(head.as_slice());
    let tail = skip(line, idx + wv.len());
    let rest = trim_start_exec(tail.as_slice());
    if rest.len() == 0 || rest[0] != '(' {
        return None;
    }
    let rest = skip(rest.as_slice(), 1);
    let close = match find_char_exec(rest.as_slice(), ')') {
        None => return None,
        Some(close) => close,
    };
    let tag = slice_of(rest.as_slice(), 0, close);
    let after = skip(rest.as_slice(), close + 1);
    if after.len() == 0 || after[0] != ':' {
        return None;
    }
    let text = strip_one_space_exec(skip(after.as_slice(), 1));
    let package = if engine.len() == 0 {
        tag
    } else {
        let open = chars_of(" (");
        let shut = chars_of(")");
        let a = concat(engine.as_slice(), open.as_slice());
        let b = concat(a.as_slice(), tag.as_slice());
        concat(b.as_slice(), shut.as_slice())
    };
    Some((package, text))
}

// ---------------------------------------------------------------------
// Boxes
// ---------------------------------------------------------------------

/// The `at lines N--M` location of a box warning.
pub open spec fn box_location(after: Seq<char>) -> Option<(u32, u32)> {
    match find(after, "at lines "@) {
        None => None,
        Some(idx) => {
            let rest = after.skip(idx + "at lines "@.len());
            match find(rest, "--"@) {
                None => None,
                Some(d) => match parse_u32(trim(rest.take(d))) {
                    None => None,
                    Some(n) => {
                        let m_part = rest.skip(d + 2);
                        let end = digit_run(m_part);
                        if end == 0 {
                            None
                        } else {
                            match parse_u32(m_part.take(end)) {
                                None => None,
                                Some(m) => Some((n, m)),
                            }
                        }
                    },
                },
            }
        },
    }
}

pub fn parse_box_location(after: &[char]) -> (r: Option<(u32, u32)>)
    ensures
        r == box_location(after@),
{
    let av = chars_of("at lines ");
    let idx = match find_str(after, "at lines ") {
        None => return None,
        Some(idx) => idx,
    };
    let rest = skip(after, idx + av.len());
    proof {
        reveal_strlit("--");
    }
    let d = match find_str(rest.as_slice(), "--") {
        None => return None,
        Some(d) => d,
    };
    let first = slice_of(rest.as_slice(), 0, d);
    let first = trim_exec(first.as_slice());
    let n = match parse_u32_exec(first.as_slice()) {
        None => return None,
        Some(n) => n,
    };
    let m_part = skip(rest.as_slice(), d + 2);
    let end = digit_run_exec(m_part.as_slice());
    if end == 0 {
        return None;
    }
    let digits = slice_of(m_part.as_slice(), 0, end);
    match parse_u32_exec(digits.as_slice()) {
        None => None,
        Some(m) => Some((n, m)),
    }
}

/// Whether `c` is the ASCII letter `lower` in either case.
pub open spec fn is_letter_ci(c: char, lower: char) -> bool {
    c == lower || (c as u32) == (lower as u32) - 32
}

/// Whether `s` spells `word` (given in lower case) ignoring ASCII case.
pub open spec fn eq_ignore_case(s: Seq<char>, word: Seq<char>) -> bool {
    s.len() == word.len() && forall|i: int| 0 <= i < s.len() ==> is_letter_ci(s[i], word[i])
}

/// The part of `b` before its exponent marker (`e` or `E`).
pub open spec fn mantissa_part(b: Seq<char>) -> Seq<char> {
    match find_char(b, 'e') {
        Some(k) => b.take(k),
        None => match find_char(b, 'E') {
            Some(k) => b.take(k),
            None => b,
        },
    }
}

/// The part of `b` after its exponent marker, if it has one.
pub open spec fn exponent_part(b: Seq<char>) -> Option<Seq<char>> {
    match find_char(b, 'e') {
        Some(k) => Some(b.skip(k + 1)),
        None => match find_char(b, 'E') {
            Some(k) => Some(b.skip(k + 1)),
            None => None,
        },
    }
}

/// Digits with an optional fractional part, at least one digit in all.
pub open spec fn mantissa_ok(m: Seq<char>) -> bool {
    let d = digit_run(m);
    let tail = m.skip(d);
    if tail.len() == 0 {
        d > 0
    } else {
        tail[0] == '.' && all_digits(tail.drop_first()) && (d > 0 || tail.len() > 1)
    }
}

/// An optional sign followed by one or more digits.
pub open spec fn exponent_ok(x: Seq<char>) -> bool {
    let y = if starts_with_char(x, '+') || starts_with_char(x, '-') {
        x.drop_first()
    } else {
        x
    };
    y.len() > 0 && all_digits(y)
}

/// A number in decimal notation, with an optional exponent: digits with an
/// optional fractional part (at least one digit in all), then optionally
/// `e`/`E`, an optional sign and one or more digits.
pub open spec fn is_decimal(b: Seq<char>) -> bool {
    mantissa_ok(mantissa_part(b)) && match exponent_part(b) {
        None => true,
        Some(x) => exponent_ok(x),
    }
}

/// The strings `f32::from_str` accepts: an optional sign, then `inf`,
/// `infinity` or `nan` in any case, or a decimal number.
pub open spec fn is_float_literal(s: Seq<char>) -> bool {
    let b = if starts_with_char(s, '+') || starts_with_char(s, '-') {
        s.drop_first()
    } else {
        s
    };
    ||| eq_ignore_case(b, "inf"@)
    ||| eq_ignore_case(b, "infinity"@)
    ||| eq_ignore_case(b, "nan"@)
    ||| is_decimal(b)
}

pub(crate) fn eq_ignore_case_exec(s: &[char], word: &str) -> (r: bool)
    ensures
        r == eq_ignore_case(s@, word@),
{
    let w = chars_of(word);
    if s.len() != w.len() {
        return false;
    }
    let mut i: usize = 0;
    while i < s.len()
        invariant
            s@.len() == w@.len(),
            w@ == word@,
            i <= s@.len(),
            forall|j: int| 0 <= j < i ==> is_letter_ci(s@[j], w@[j]),
        decreases s@.len() - i,
    {
        let c = s[i];
        let l = w[i];
        if !(c == l || (l as u32 >= 32 && c as u32 == (l as u32) - 32)) {
            return false;
        }
        i = i + 1;
    }
    true
}

pub(crate) fn all_digits_exec(s: &[char]) -> (r: bool)
    ensures
        r == all_digits(s@),
{
    let mut i: usize = 0;
    while i < s.len()
        invariant
            i <= s@.len(),
            forall|j: int| 0 <= j < i ==> is_digit(s@[j]),
        decreases s@.len() - i,
    {
        if !is_ascii_digit(s[i]) {
            return false;
        }
        i = i + 1;
    }
    true
}

pub(crate) fn split_exponent(b: &[char]) -> (r: (Vec<char>, Option<Vec<char>>))
    ensures
        r.0@ == mantissa_part(b@),
        opt_chars(r.1) == exponent_part(b@),
{
    match find_char_exec(b, 'e') {
        Some(k) => (slice_of(b, 0, k), Some(skip(b, k + 1))),
        None => match find_char_exec(b, 'E') {
            Some(k) => (slice_of(b, 0, k), Some(skip(b, k + 1))),
            None => (to_vec(b), None),
        },
    }
}

pub fn mantissa_ok_exec(m: &[char]) -> (r: bool)
    ensures
        r == mantissa_ok(m@),
{
    let d = digit_run_exec(m);
    let tail = skip(m, d);
    if tail.len() == 0 {
        d > 0
    } else {
        let frac = skip(tail.as_slice(), 1);
        tail[0] == '.' && all_digits_exec(frac.as_slice()) && (d > 0 || tail.len() > 1)
    }
}

fn exponent_ok_exec(x: &[char]) -> (r: bool)
    ensures
        r == exponent_ok(x@),
{
    let y = if x.len() > 0 && (x[0] == '+' || x[0] == '-') {
        skip(x, 1)
    } else {
        to_vec(x)
    };
    y.len() > 0 && all_digits_exec(y.as_slice())
}

fn is_decimal_exec(b: &[char]) -> (r: bool)
    ensures
        r == is_decimal(b@),
{
    let (m, x) = split_exponent(b);
    if !mantissa_ok_exec(m.as_slice()) {
        return false;
    }
    match x {
        None => true,
        Some(x) => exponent_ok_exec(x.as_slice()),
    }
}

pub fn is_float_literal_exec(s: &[char]) -> (r: bool)
    ensures
        r == is_float_literal(s@),
{
    let b = if s.len() > 0 && (s[0] == '+' || s[0] == '-') {
        skip(s, 1)
    } else {
        to_vec(s)
    };
    eq_ignore_case_exec(b.as_slice(), "inf") || eq_ignore_case_exec(b.as_slice(), "infinity")
        || eq_ignore_case_exec(b.as_slice(), "nan") || is_decimal_exec(b.as_slice())
}

pub open spec fn opt_pt(o: Option<(Vec<char>, Option<(u32, u32)>)>) -> Option<
    (Seq<char>, Option<(u32, u32)>),
> {
    match o {
        Some((v, l)) => Some((v@, l)),
        None => None,
    }
}

/// A box line `<prefix><amount><unit><rest>`: the amount (trimmed), when it
/// is a well-formed number, and the `at lines` location in `<rest>`.
pub open spec fn box_with_amount(line: Seq<char>, prefix: Seq<char>, unit: Seq<char>) -> Option<
    (Seq<char>, Option<(u32, u32)>),
> {
    if !has_prefix(line, prefix) {
        None
    } else {
        let rest = line.skip(prefix.len() as int);
        match find(rest, unit) {
            None => None,
            Some(idx) => {
                let pt = trim(rest.take(idx));
                if !is_float_literal(pt) {
                    None
                } else {
                    Some((pt, box_location(rest.skip(idx + unit.len()))))
                }
            },
        }
    }
}

fn box_with_amount_exec(line: &[char], prefix: &str, unit: &str) -> (r: Option<
    (Vec<char>, Option<(u32, u32)>),
>)
    ensures
        opt_pt(r) == box_with_amount(line@, prefix@, unit@),
{
    let pv = chars_of(prefix);
    if !starts_with_str(line, prefix) {
        return None;
    }
    let rest = skip(line, pv.len());
    let uv = chars_of(unit);
    let idx = match find_str(rest.as_slice(), unit) {
        None => return None,
        Some(idx) => idx,
    };
    let amount = slice_of(rest.as_slice(), 0, idx);
    let pt = trim_exec(amount.as_slice());
    if !is_float_literal_exec(pt.as_slice()) {
        return None;
    }
    let after = skip(rest.as_slice(), idx + uv.len());
    Some((pt, parse_box_location(after.as_slice())))
}

/// `Overfull \hbox (<f>pt too wide)`.
pub open spec fn overfull_hbox(line: Seq<char>) -> Option<(Seq<char>, Option<(u32, u32)>)> {
    box_with_amount(line, "Overfull \\hbox ("@, "pt too wide)"@)
}

pub fn try_parse_overfull_hbox(line: &[char]) -> (r: Option<(Vec<char>, Option<(u32, u32)>)>)
    ensures
        opt_pt(r) == overfull_hbox(line@),
{
    box_with_amount_exec(line, "Overfull \\hbox (", "pt too wide)")
}

/// `Overfull \vbox (<f>pt too high)`.
pub open spec fn overfull_vbox(line: Seq<char>) -> Option<(Seq<char>, Option<(u32, u32)>)> {
    box_with_amount(line, "Overfull \\vbox ("@, "pt too high)"@)
}

pub fn try_parse_overfull_vbox(line: &[char]) -> (r: Option<(Vec<char>, Option<(u32, u32)>)>)
    ensures
        opt_pt(r) == overfull_vbox(line@),
{
    box_with_amount_exec(line, "Overfull \\vbox (", "pt too high)")
}

/// `Underfull \hbox (badness <n>)`: the badness and the location.
pub open spec fn underfull_hbox(line: Seq<char>) -> Option<(u32, Option<(u32, u32)>)> {
    if !has_prefix(line, "Underfull \\hbox (badness "@) {
        None
    } else {
        let rest = line.skip("Underfull \\hbox (badness "@.len() as int);
        match find_char(rest, ')') {
            None => None,
            Some(idx) => match parse_u32(trim(rest.take(idx))) {
                None => None,
                Some(b) => Some((b, box_location(rest.skip(idx + 1)))),
            },
        }
    }
}

pub fn try_parse_underfull_hbox(line: &[char]) -> (r: Option<(u32, Option<(u32, u32)>)>)
    ensures
        r == underfull_hbox(line@),
{
    let pv = chars_of("Underfull \\hbox (badness ");
    if !starts_with_str(line, "Underfull \\hbox (badness ") {
        return None;
    }
    let rest = skip(line, pv.len());
    let idx = match find_char_exec(rest.as_slice(), ')') {
        None => return None,
        Some(idx) => idx,
    };
    let amount = slice_of(rest.as_slice(), 0, idx);
    let amount = trim_exec(amount.as_slice());
    match parse_u32_exec(amount.as_slice()) {
        None => None,
        Some(b) => {
            let after = skip(rest.as_slice(), idx + 1);
            Some((b, parse_box_location(after.as_slice())))
        },
    }
}

// ---------------------------------------------------------------------
// Show output
// ---------------------------------------------------------------------

/// The command a `\show`-family call named: the text after `\showbox`,
/// `\showthe`, `\showlists` or `\show`, trimmed.
pub open spec fn show_command(after: Seq<char>) -> Seq<char> {
    if has_prefix(after, "\\showbox"@) {
        trim(after.skip("\\showbox"@.len() as int))
    } else if has_prefix(after, "\\showthe"@) {
        trim(after.skip("\\showthe"@.len() as int))
    } else if has_prefix(after, "\\showlists"@) {
        trim(after.skip("\\showlists"@.len() as int))
    } else if has_prefix(after, "\\show"@) {
        trim(after.skip("\\show"@.len() as int))
    } else {
        trim(after)
    }
}

fn strip_and_trim(after: &[char], prefix: &str) -> (r: Option<Vec<char>>)
    ensures
        opt_chars(r) == (if has_prefix(after@, prefix@) {
            Some(trim(after@.skip(prefix@.len() as int)))
        } else {
            None::<Seq<char>>
        }),
{
    let pv = chars_of(prefix);
    if starts_with_str(after, prefix) {
        let rest = skip(after, pv.len());
        Some(trim_exec(rest.as_slice()))
    } else {
        None
    }
}

pub fn extract_show_command(after: &[char]) -> (r: Vec<char>)
    ensures
        r@ == show_command(after@),
{
    if let Some(r) = strip_and_trim(after, "\\showbox") {
        return r;
    }
    if let Some(r) = strip_and_trim(after, "\\showthe") {
        return r;
    }
    if let Some(r) = strip_and_trim(after, "\\showlists") {
        return r;
    }
    if let Some(r) = strip_and_trim(after, "\\show") {
        return r;
    }
    trim_exec(after)
}


/// An `l.N` line reads back the number it was written with: for any `n`
/// and any text after it that does not go on with a digit (none at all
/// included), the marker is line `n` with that text, one separating space
/// removed.
pub proof fn law_line_marker_reads_any_number(n: u32, rest: Seq<char>)
    requires
        rest.len() == 0 || !is_digit(rest[0]),
    ensures
        line_marker("l."@ + dec(n as nat) + rest) == Some((n, strip_one_space(rest))),
{
    reveal_strlit("l.");
    let d = dec(n as nat);
    let line = "l."@ + d + rest;
    crate::text::lemma_dec_reads_back(n as nat);
    crate::text::lemma_parse_u32_of_dec(n);
    assert(line.take(2) =~= "l."@);
    let r = line.skip(2);
    assert(r =~= d + rest);
    crate::text::lemma_nondigit_from_bounds(r, 0);
    assert forall|j: int| 0 <= j < d.len() implies is_digit(#[trigger] r[j]) by {
        assert(r[j] == d[j]);
    }
    if rest.len() > 0 {
        assert(r[d.len() as int] == rest[0]);
    }
    assert(digit_run(r) == d.len());
    assert(r.take(d.len() as int) =~= d);
    assert(r.skip(d.len() as int) =~= rest);
}

} // verus!
