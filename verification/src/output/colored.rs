//! The terminal renderer: prints each event as soon as it arrives, grouped
//! under a header for the file it occurred in, with glyphs, colors and
//! word wrapping.
//!
//! The renderer does not write anywhere itself: it lays out its output as
//! a sequence of segments, each a piece of text with a paint (plain, a
//! foreground color, or bold in a color), and [`Renderer::flush`] hands the
//! text laid out so far to the caller, painted through the `colored` crate
//! when colors are on.
use vstd::prelude::*;

use colored::Colorize;

use crate::model::{Event, EventV, KindV, LogMessage, LogMessageV, MessageKind, PassKind, PassKindV};
use crate::output::wrap::{law_wrap_fits_width, wrap, wrap_chars};
use crate::parser::patterns::{
    all_digits_exec, digit_run_exec, eq_ignore_case, eq_ignore_case_exec, exponent_part,
    mantissa_ok, mantissa_ok_exec, mantissa_part, split_exponent,
};
use crate::text::{
    all_digits, chars_eq, chars_of, dec, dec_exec, digit_run, digit_value, digits_value,
    digits_value_exec, find_char, find_char_exec, lemma_char_from_bounds, lemma_digits_value_bound,
    repeat, repeat_exec, seqs, skip, slice_of, split_on, split_on_exec, starts_with_char, string_of,
    to_vec,
};

verus! {

// ---------------------------------------------------------------------
// Options, colors and segments
// ---------------------------------------------------------------------

#[derive(Debug, Clone, Copy)]
pub struct RenderOptions {
    pub ascii: bool,
    pub color: bool,
    pub width: usize,
}

impl Default for RenderOptions {
    fn default() -> (r: Self)
        ensures
            !r.ascii,
            r.color,
            r.width == 80,
    {
        Self { ascii: false, color: true, width: 80 }
    }
}

/// The terminal colors the renderer uses.
#[derive(Debug, Clone, Copy, PartialEq, Eq)]
pub enum Color {
    Red,
    Green,
    Yellow,
    Blue,
    Magenta,
    White,
    BrightBlack,
    BrightRed,
}

/// How a piece of text is painted.
#[derive(Debug, Clone, Copy, PartialEq, Eq)]
pub enum Paint {
    Plain,
    Fg(Color),
    Bold(Color),
}

/// A piece of laid-out text and its paint.
pub struct SegV {
    pub text: Seq<char>,
    pub paint: Paint,
}

struct Segment {
    text: Vec<char>,
    paint: Paint,
}

spec fn seg_views(v: Seq<Segment>) -> Seq<SegV> {
    v.map_values(|s: Segment| SegV { text: s.text@, paint: s.paint })
}

pub open spec fn plain(t: Seq<char>) -> SegV {
    SegV { text: t, paint: Paint::Plain }
}

pub open spec fn fg(t: Seq<char>, c: Color) -> SegV {
    SegV { text: t, paint: Paint::Fg(c) }
}

pub open spec fn bold(t: Seq<char>, c: Color) -> SegV {
    SegV { text: t, paint: Paint::Bold(c) }
}

pub open spec fn newline() -> SegV {
    plain(seq!['\n'])
}

/// The name `colored` knows a color by.
pub open spec fn color_name(c: Color) -> Seq<char> {
    match c {
        Color::Red => "red"@,
        Color::Green => "green"@,
        Color::Yellow => "yellow"@,
        Color::Blue => "blue"@,
        Color::Magenta => "magenta"@,
        Color::White => "white"@,
        Color::BrightBlack => "bright black"@,
        Color::BrightRed => "bright red"@,
    }
}

fn color_name_exec(c: Color) -> (r: &'static str)
    ensures
        r@ == color_name(c),
{
    match c {
        Color::Red => "red",
        Color::Green => "green",
        Color::Yellow => "yellow",
        Color::Blue => "blue",
        Color::Magenta => "magenta",
        Color::White => "white",
        Color::BrightBlack => "bright black",
        Color::BrightRed => "bright red",
    }
}

/// Whether `name` is one of the color names above.
pub open spec fn is_color_name(name: Seq<char>) -> bool {
    ||| name == "red"@
    ||| name == "green"@
    ||| name == "yellow"@
    ||| name == "blue"@
    ||| name == "magenta"@
    ||| name == "white"@
    ||| name == "bright black"@
    ||| name == "bright red"@
}

/// The ANSI foreground code `colored` emits for a color name.
pub open spec fn fg_code(name: Seq<char>) -> Seq<char> {
    if name == "red"@ {
        "31"@
    } else if name == "green"@ {
        "32"@
    } else if name == "yellow"@ {
        "33"@
    } else if name == "blue"@ {
        "34"@
    } else if name == "magenta"@ {
        "35"@
    } else if name == "white"@ {
        "37"@
    } else if name == "bright black"@ {
        "90"@
    } else {
        "91"@
    }
}

/// `s` wrapped in the ANSI sequence that sets the style (`1;` for bold)
/// and color, and the reset sequence.
pub open spec fn ansi(bold: bool, code: Seq<char>, s: Seq<char>) -> Seq<char> {
    seq!['\u{1b}', '['] + (if bold {
        seq!['1', ';']
    } else {
        Seq::empty()
    }) + code + seq!['m'] + s + seq!['\u{1b}', '[', '0', 'm']
}

/// `colored`'s `s.color(name).to_string()`: `s` unchanged when the global
/// colorizing switch is off (environment, terminal check or manual
/// override), else `s` in the color's ANSI sequence. Which of the two
/// comes out depends on that switch and is not stated; nor is anything
/// stated of text that already holds an escape character (`colored`
/// re-applies its style after each reset sequence inside it).
#[verifier::external_body]
fn paint_fg_text(s: &str, name: &str) -> (r: String)
    requires
        is_color_name(name@),
    ensures
        !s@.contains('\u{1b}') ==> (r@ == s@ || r@ == ansi(false, fg_code(name@), s@)),
{
    s.color(name).to_string()
}

/// `colored`'s `s.color(name).bold().to_string()`: like
/// [`paint_fg_text`], with the bold style added to the sequence.
#[verifier::external_body]
fn paint_bold_text(s: &str, name: &str) -> (r: String)
    requires
        is_color_name(name@),
    ensures
        !s@.contains('\u{1b}') ==> (r@ == s@ || r@ == ansi(true, fg_code(name@), s@)),
{
    s.color(name).bold().to_string()
}

/// `colored::control::set_override(true)`: makes `colored` paint from then
/// on, whatever the environment and the terminal say. It sets a
/// process-wide switch
/// that no contract here can see, so nothing is claimed of it; the paint
/// wrappers' contracts therefore allow both a painted and an unpainted
/// result.
#[verifier::external_body]
fn force_color_override() {
    colored::control::set_override(true);
}

/// Whether `piece` is a correct rendering of `s`: its text when colors are
/// off or it is plain, else its text or its text in its ANSI sequence (as
/// far as `colored` is described, for text without escape characters).
pub open spec fn piece_ok(s: SegV, piece: Seq<char>, color_on: bool) -> bool {
    match s.paint {
        Paint::Plain => piece == s.text,
        Paint::Fg(c) => if !color_on {
            piece == s.text
        } else {
            !s.text.contains('\u{1b}') ==> (piece == s.text || piece == ansi(
                false,
                fg_code(color_name(c)),
                s.text,
            ))
        },
        Paint::Bold(c) => if !color_on {
            piece == s.text
        } else {
            !s.text.contains('\u{1b}') ==> (piece == s.text || piece == ansi(
                true,
                fg_code(color_name(c)),
                s.text,
            ))
        },
    }
}

/// The text of segments, concatenated.
pub open spec fn texts(segs: Seq<SegV>) -> Seq<char>
    decreases segs.len(),
{
    if segs.len() == 0 {
        Seq::empty()
    } else {
        texts(segs.drop_last()) + segs.last().text
    }
}

/// Whether `out` is the concatenation of correct renderings of `segs`.
pub open spec fn rendered(segs: Seq<SegV>, out: Seq<char>, color_on: bool) -> bool
    decreases segs.len(),
{
    if segs.len() == 0 {
        out.len() == 0
    } else {
        exists|k: int|
            0 <= k <= out.len() && rendered(segs.drop_last(), out.take(k), color_on) && piece_ok(
                segs.last(),
                #[trigger] out.skip(k),
                color_on,
            )
    }
}

// ---------------------------------------------------------------------
// Layout
// ---------------------------------------------------------------------

/// Two spaces per nesting level.
pub open spec fn indent(depth: nat) -> Seq<char> {
    repeat("  "@, depth)
}

/// Whether `package` renders as a bare label (`LaTeX:`, `FiXme:`, or any
/// multi-word tag like `pdfTeX (ext4):`) rather than the usual `Package
/// foo:` form.
pub open spec fn label_is_bare(package: Seq<char>) -> bool {
    package == "LaTeX"@ || package == "FiXme"@ || package.contains(' ')
}

pub open spec fn glyph_and_color(k: KindV, ascii: bool) -> (Seq<char>, Color) {
    match k {
        KindV::LatexError | KindV::PackageError { .. } => (
            if ascii {
                "x"@
            } else {
                "✕"@
            },
            Color::BrightRed,
        ),
        KindV::PackageWarning { .. } | KindV::MissingChar | KindV::BibtexWarning => (
            if ascii {
                "!"@
            } else {
                "⚠"@
            },
            Color::Yellow,
        ),
        KindV::OverfullHbox { .. } | KindV::OverfullVbox { .. } => (
            if ascii {
                ">"@
            } else {
                "»"@
            },
            Color::Magenta,
        ),
        KindV::UnderfullHbox { .. } => (
            if ascii {
                "<"@
            } else {
                "«"@
            },
            Color::Magenta,
        ),
        KindV::ShowOutput { .. } => (
            if ascii {
                "?"@
            } else {
                "⊢"@
            },
            Color::Blue,
        ),
    }
}

/// The label of a package, as plain text.
pub open spec fn label_plain(package: Seq<char>) -> Seq<char> {
    if label_is_bare(package) {
        package
    } else {
        "Package "@ + package
    }
}

/// The label of a package, painted: the package name bold, after a dimmed
/// `Package` qualifier unless the label is bare.
pub open spec fn label_segs(package: Seq<char>) -> Seq<SegV> {
    if label_is_bare(package) {
        seq![bold(package, Color::White)]
    } else {
        seq![fg("Package"@, Color::BrightBlack), plain(" "@), bold(package, Color::White)]
    }
}

/// The `Package foo: ` / `BibTeX: ` label that precedes the body text, as
/// plain text (for width accounting) and as segments.
pub open spec fn label_parts(k: KindV) -> (Seq<char>, Seq<SegV>) {
    match k {
        KindV::PackageError { package } | KindV::PackageWarning { package } => (
            label_plain(package) + ": "@,
            label_segs(package).push(plain(": "@)),
        ),
        KindV::BibtexWarning => ("BibTeX: "@, seq![bold("BibTeX"@, Color::White), plain(": "@)]),
        _ => (Seq::empty(), Seq::empty()),
    }
}

/// The `k`-th fractional digit, zero past the end.
pub open spec fn frac_digit(frac: Seq<char>, k: int) -> nat {
    if 0 <= k < frac.len() {
        digit_value(frac[k])
    } else {
        0
    }
}

/// The value in hundredths, rounded half up on the third decimal.
pub open spec fn rounded_hundredths(ip: Seq<char>, frac: Seq<char>) -> nat {
    digits_value(ip) * 100 + frac_digit(frac, 0) * 10 + frac_digit(frac, 1) + if frac_digit(
        frac,
        2,
    ) >= 5 {
        1nat
    } else {
        0nat
    }
}

/// A value in hundredths written with two decimal places.
pub open spec fn two_places(n: nat) -> Seq<char> {
    dec(n / 100) + seq!['.'] + dec((n % 100) / 10) + dec(n % 10)
}

/// The sign of a number, the digits before its point, and the digits
/// after it.
pub open spec fn number_parts(pt: Seq<char>) -> (bool, Seq<char>, Seq<char>) {
    let neg = starts_with_char(pt, '-');
    let b = if starts_with_char(pt, '+') || neg {
        pt.drop_first()
    } else {
        pt
    };
    let d = digit_run(b);
    (
        neg,
        b.take(d),
        if b.len() > d {
            b.skip(d + 1)
        } else {
            Seq::<char>::empty()
        },
    )
}

/// Whether a size is written in plain decimal notation with at most
/// fifteen integer digits.
pub open spec fn plain_number(pt: Seq<char>) -> bool {
    let b = if starts_with_char(pt, '+') || starts_with_char(pt, '-') {
        pt.drop_first()
    } else {
        pt
    };
    mantissa_ok(b) && digit_run(b) <= 15
}

/// A size without its sign.
pub open spec fn unsigned_part(pt: Seq<char>) -> Seq<char> {
    if starts_with_char(pt, '+') || starts_with_char(pt, '-') {
        pt.drop_first()
    } else {
        pt
    }
}

/// `n` zero digits.
pub open spec fn zeros(n: nat) -> Seq<char> {
    Seq::new(n, |_i: int| '0')
}

/// The digits `ds` with the decimal point placed after the first `q` of
/// them, in plain decimal notation (zeros filled in on either side).
pub open spec fn place_point(ds: Seq<char>, q: int) -> Seq<char> {
    if q <= 0 {
        seq!['0', '.'] + zeros((-q) as nat) + ds
    } else if q >= ds.len() {
        ds + zeros((q - ds.len()) as nat)
    } else {
        ds.take(q) + seq!['.'] + ds.skip(q)
    }
}

/// The value of an exponent (an optional sign and digits) when it is at
/// most 1000 in size.
pub open spec fn small_exponent(x: Seq<char>) -> Option<int> {
    let y = unsigned_part(x);
    if 0 < y.len() <= 4 && all_digits(y) && digits_value(y) <= 1000 {
        Some(
            if starts_with_char(x, '-') {
                -digits_value(y)
            } else {
                digits_value(y) as int
            },
        )
    } else {
        None
    }
}

/// A size written with an exponent (`1.5e2`), rewritten in plain decimal
/// notation with the same value (`150`) and sign; any other size as it is.
pub open spec fn without_exponent(pt: Seq<char>) -> Seq<char> {
    let b = unsigned_part(pt);
    match exponent_part(b) {
        None => pt,
        Some(x) => match small_exponent(x) {
            None => pt,
            Some(e) => {
                let m = mantissa_part(b);
                if !mantissa_ok(m) {
                    pt
                } else {
                    let d = digit_run(m);
                    let ds = m.take(d) + (if m.len() > d {
                        m.skip(d + 1)
                    } else {
                        Seq::empty()
                    });
                    (if starts_with_char(pt, '-') {
                        seq!['-']
                    } else {
                        Seq::empty()
                    }) + place_point(ds, d + e)
                }
            },
        },
    }
}

/// A box size as `{:.2}` shows it: `inf`, `-inf` or `NaN` for the
/// infinite and not-a-number spellings; otherwise the value (exponent
/// notation taken into account) rounded to two decimal places, half up on
/// the decimal digits. A size with more than fifteen integer digits, or
/// an exponent over 1000 in size, is shown as written.
pub open spec fn format_points(pt: Seq<char>) -> Seq<char> {
    let b = unsigned_part(pt);
    if eq_ignore_case(b, "inf"@) || eq_ignore_case(b, "infinity"@) {
        if starts_with_char(pt, '-') {
            "-inf"@
        } else {
            "inf"@
        }
    } else if eq_ignore_case(b, "nan"@) {
        "NaN"@
    } else {
        let p = without_exponent(pt);
        if !plain_number(p) {
            pt
        } else {
            let (neg, ip, frac) = number_parts(p);
            (if neg {
                seq!['-']
            } else {
                Seq::empty()
            }) + two_places(rounded_hundredths(ip, frac))
        }
    }
}

/// The free-form message text, before any label prefix: the part that gets
/// word-wrapped.
pub open spec fn body_text(m: LogMessageV) -> Seq<char> {
    match m.kind {
        KindV::OverfullHbox { pt } => "Overfull \\hbox "@ + format_points(pt) + "pt too wide"@,
        KindV::OverfullVbox { pt } => "Overfull \\vbox "@ + format_points(pt) + "pt too high"@,
        KindV::UnderfullHbox { badness } => "Underfull \\hbox badness "@ + dec(badness as nat),
        _ => m.text,
    }
}

pub open spec fn line_loc(n: u32) -> Seq<char> {
    "(line "@ + dec(n as nat) + ")"@
}

/// The `(line N, page P)` location shown after the body text.
pub open spec fn location_text(m: LogMessageV, ascii: bool) -> Option<Seq<char>> {
    match m.kind {
        KindV::OverfullHbox { .. } | KindV::OverfullVbox { .. } | KindV::UnderfullHbox { .. } => {
            match m.line_range {
                Some((n, mm)) => if n == mm {
                    Some(line_loc(n))
                } else {
                    Some(
                        "(lines "@ + dec(n as nat) + (if ascii {
                            "--"@
                        } else {
                            "–"@
                        }) + dec(mm as nat) + ")"@,
                    )
                },
                None => Some("(output active)"@),
            }
        },
        KindV::LatexError | KindV::PackageError { .. } | KindV::ShowOutput { .. } => {
            match m.line_range {
                Some((n, _)) => Some(line_loc(n)),
                None => None,
            }
        },
        KindV::PackageWarning { .. } | KindV::BibtexWarning => match (m.line_range, m.page) {
            (Some((n, _)), Some(p)) => Some(
                "(line "@ + dec(n as nat) + ", page "@ + dec(p as nat) + ")"@,
            ),
            (Some((n, _)), None) => Some(line_loc(n)),
            (None, Some(p)) => Some("(page "@ + dec(p as nat) + ")"@),
            (None, None) => None,
        },
        KindV::MissingChar => None,
    }
}

pub open spec fn loc_segs(loc: Option<Seq<char>>) -> Seq<SegV> {
    match loc {
        Some(t) => seq![plain("  "@), fg(t, Color::BrightBlack)],
        None => Seq::empty(),
    }
}

/// The segments of the first `k` wrapped body lines: the first line after
/// the indent, glyph and label, the others under the text start; the
/// location after the last line.
pub open spec fn body_segs(
    lines: Seq<Seq<char>>,
    k: int,
    first: Seq<SegV>,
    cont: Seq<char>,
    loc: Option<Seq<char>>,
) -> Seq<SegV>
    decreases k,
{
    if k <= 0 || k > lines.len() {
        Seq::empty()
    } else {
        let i = k - 1;
        body_segs(lines, i, first, cont, loc) + (if i == 0 {
            first
        } else {
            seq![plain(cont)]
        }) + seq![plain(lines[i])] + (if i == lines.len() - 1 {
            loc_segs(loc)
        } else {
            Seq::empty()
        }) + seq![newline()]
    }
}

/// One `│`-prefixed context line per wrapped piece.
pub open spec fn bar_lines(ws: Seq<Seq<char>>, ind: Seq<char>, bar: Seq<char>, color: Color) -> Seq<
    SegV,
>
    decreases ws.len(),
{
    if ws.len() == 0 {
        Seq::empty()
    } else {
        bar_lines(ws.drop_last(), ind, bar, color) + seq![
            plain(ind),
            fg(bar, color),
            plain(" "@),
            plain(ws.last()),
            newline(),
        ]
    }
}

/// The wrapped context lines of the pieces of one context entry.
pub open spec fn piece_segs(
    ls: Seq<Seq<char>>,
    ind: Seq<char>,
    bar: Seq<char>,
    color: Color,
    width: nat,
) -> Seq<SegV>
    decreases ls.len(),
{
    if ls.len() == 0 {
        Seq::empty()
    } else {
        piece_segs(ls.drop_last(), ind, bar, color, width) + bar_lines(
            wrap(ls.last(), width),
            ind,
            bar,
            color,
        )
    }
}

/// The context entries, each split into its lines and each line wrapped.
pub open spec fn context_segs(
    ctx: Seq<Seq<char>>,
    ind: Seq<char>,
    bar: Seq<char>,
    color: Color,
    width: nat,
) -> Seq<SegV>
    decreases ctx.len(),
{
    if ctx.len() == 0 {
        Seq::empty()
    } else {
        context_segs(ctx.drop_last(), ind, bar, color, width) + piece_segs(
            split_on(ctx.last(), '\n'),
            ind,
            bar,
            color,
            width,
        )
    }
}

/// `a - b`, or zero when `b` is not smaller.
pub open spec fn sat_sub(a: nat, b: nat) -> nat {
    if a > b {
        (a - b) as nat
    } else {
        0
    }
}

pub open spec fn bar_glyph(ascii: bool) -> Seq<char> {
    if ascii {
        "|"@
    } else {
        "│"@
    }
}

/// A message at nesting `depth`: its wrapped body lines, then its context.
pub open spec fn message_segs(m: LogMessageV, depth: nat, opts: RenderOptions) -> Seq<SegV> {
    let ind = indent(depth + 1);
    let (glyph, color) = glyph_and_color(m.kind, opts.ascii);
    let (lp, lsegs) = label_parts(m.kind);
    let pw = ind.len() + glyph.len() + 1 + lp.len();
    let lines = wrap(body_text(m), sat_sub(opts.width as nat, pw));
    let first = seq![plain(ind), bold(glyph, color), plain(" "@)] + lsegs;
    let bar = bar_glyph(opts.ascii);
    body_segs(
        lines,
        lines.len() as int,
        first,
        repeat(" "@, pw),
        location_text(m, opts.ascii),
    ) + context_segs(m.context, ind, bar, color, sat_sub(opts.width as nat, ind.len() + bar.len() + 1))
}

/// The header line of a file group.
pub open spec fn header_segs(file: Seq<char>, depth: nat) -> Seq<SegV> {
    seq![plain(indent(depth)), fg(file, Color::Green), newline()]
}

/// How many of a message's ancestors already have a group of their own in
/// this pass: its visible nesting depth.
pub open spec fn seen_depth(ancestors: Seq<Seq<char>>, seen: Seq<Seq<char>>) -> nat
    decreases ancestors.len(),
{
    if ancestors.len() == 0 {
        0
    } else {
        seen_depth(ancestors.drop_last(), seen) + if seen.contains(ancestors.last()) {
            1nat
        } else {
            0nat
        }
    }
}

pub open spec fn pass_label(k: PassKindV) -> Seq<char> {
    match k {
        PassKindV::Pdflatex => "pdflatex"@,
        PassKindV::Bibtex => "bibtex"@,
        PassKindV::Other(name) => name,
    }
}

pub open spec fn dash(ascii: bool) -> Seq<char> {
    if ascii {
        "-"@
    } else {
        "─"@
    }
}

/// The separator line printed before every pass: `── <label> ` filled with
/// dashes to the width.
pub open spec fn separator_line(label: Seq<char>, opts: RenderOptions) -> Seq<char> {
    let d = dash(opts.ascii);
    let prefix = d + d + " "@ + label + " "@;
    prefix + repeat(d, sat_sub(opts.width as nat, prefix.len()))
}

pub open spec fn pdf_line(path: Seq<char>, ascii: bool) -> Seq<char> {
    (if ascii {
        "*"@
    } else {
        "✔"@
    }) + " PDF written: "@ + path
}

// ---------------------------------------------------------------------
// The renderer's state and transitions
// ---------------------------------------------------------------------

pub struct RendererV {
    pub opts: RenderOptions,
    pub printed_anything: bool,
    pub current_file: Option<Seq<char>>,
    pub seen: Seq<Seq<char>>,
    pub errors: usize,
    pub warnings: usize,
    pub overfull: usize,
    pub underfull: usize,
    pub buffer: Seq<SegV>,
}

pub open spec fn incr(n: usize) -> usize {
    if n < usize::MAX {
        (n + 1) as usize
    } else {
        n
    }
}

/// The counters after one more message of kind `k`.
pub open spec fn tally(r: RendererV, k: KindV) -> RendererV {
    match crate::model::entry::kind_category(k) {
        crate::model::Category::Error => RendererV { errors: incr(r.errors), ..r },
        crate::model::Category::OverfullBox => RendererV { overfull: incr(r.overfull), ..r },
        crate::model::Category::UnderfullBox => RendererV { underfull: incr(r.underfull), ..r },
        crate::model::Category::Warning => RendererV { warnings: incr(r.warnings), ..r },
    }
}

/// A blank line before something new, unless nothing was printed yet.
pub open spec fn gap(r: RendererV) -> Seq<SegV> {
    if r.printed_anything {
        seq![newline()]
    } else {
        Seq::empty()
    }
}

pub open spec fn insert_seen(seen: Seq<Seq<char>>, f: Seq<char>) -> Seq<Seq<char>> {
    if seen.contains(f) {
        seen
    } else {
        seen.push(f)
    }
}

/// One event. A message is tallied, gets a file header (after a blank
/// line) whenever its file differs from the previous message's - none for
/// an empty file - and is printed indented by its visible nesting. A pass
/// boundary prints a separator and a PDF line a confirmation; both start a
/// fresh grouping.
pub open spec fn handle_spec(r: RendererV, e: EventV) -> RendererV {
    match e {
        EventV::Message(m) => {
            let r1 = tally(r, m.kind);
            let depth = seen_depth(m.ancestors, r1.seen);
            let r2 = if r1.current_file != Some(m.file) {
                RendererV {
                    buffer: r1.buffer + gap(r1) + (if m.file.len() > 0 {
                        header_segs(m.file, depth)
                    } else {
                        Seq::empty()
                    }),
                    current_file: Some(m.file),
                    seen: insert_seen(r1.seen, m.file),
                    printed_anything: true,
                    ..r1
                }
            } else {
                r1
            };
            RendererV { buffer: r2.buffer + message_segs(m, depth, r.opts), ..r2 }
        },
        EventV::PassBoundary(k) => RendererV {
            buffer: r.buffer + gap(r) + seq![
                fg(separator_line(pass_label(k), r.opts), Color::BrightBlack),
                newline(),
            ],
            printed_anything: true,
            current_file: None,
            seen: Seq::empty(),
            ..r
        },
        EventV::PdfBuilt { path } => RendererV {
            buffer: r.buffer + gap(r) + seq![fg(pdf_line(path, r.opts.ascii), Color::Green), newline()],
            printed_anything: true,
            current_file: None,
            seen: Seq::empty(),
            ..r
        },
    }
}

/// The summary footer: a full-width rule, then the four counts, the error
/// count red when nonzero and green otherwise.
pub open spec fn summary_segs(r: RendererV) -> Seq<SegV> {
    seq![
        plain(repeat(dash(r.opts.ascii), r.opts.width as nat)),
        newline(),
        fg(
            dec(r.errors as nat) + " errors"@,
            if r.errors > 0 {
                Color::Red
            } else {
                Color::Green
            },
        ),
        plain(" · "@),
        fg(dec(r.warnings as nat) + " warnings"@, Color::Yellow),
        plain(" · "@),
        fg(dec(r.overfull as nat) + " overfull"@, Color::Magenta),
        plain(" · "@),
        fg(dec(r.underfull as nat) + " underfull"@, Color::Magenta),
        newline(),
    ]
}

// ---------------------------------------------------------------------
// Executable layout
// ---------------------------------------------------------------------

fn push_seg(buf: &mut Vec<Segment>, text: Vec<char>, paint: Paint)
    ensures
        seg_views(final(buf)@) == seg_views(old(buf)@).push(SegV { text: text@, paint }),
{
    let ghost before = seg_views(buf@);
    let ghost t = text@;
    buf.push(Segment { text, paint });
    assert(seg_views(buf@) =~= before.push(SegV { text: t, paint }));
}

fn push_lit(buf: &mut Vec<Segment>, text: &str, paint: Paint)
    ensures
        seg_views(final(buf)@) == seg_views(old(buf)@).push(SegV { text: text@, paint }),
{
    push_seg(buf, chars_of(text), paint);
}

fn push_newline(buf: &mut Vec<Segment>)
    ensures
        seg_views(final(buf)@) == seg_views(old(buf)@).push(newline()),
{
    let mut v: Vec<char> = Vec::new();
    v.push('\n');
    assert(v@ =~= seq!['\n']);
    push_seg(buf, v, Paint::Plain);
}

fn append_segs(buf: &mut Vec<Segment>, segs: Vec<Segment>)
    ensures
        seg_views(final(buf)@) == seg_views(old(buf)@) + seg_views(segs@),
{
    let ghost before = seg_views(buf@);
    let ghost add = seg_views(segs@);
    let mut segs = segs;
    buf.append(&mut segs);
    assert(seg_views(buf@) =~= before + add);
}

fn indent_exec(depth: usize) -> (r: Vec<char>)
    ensures
        r@ == indent(depth as nat),
{
    let two = chars_of("  ");
    repeat_exec(two.as_slice(), depth)
}

fn glyph_and_color_exec(k: &MessageKind, ascii: bool) -> (r: (&'static str, Color))
    ensures
        (r.0@, r.1) == glyph_and_color(k@, ascii),
{
    match k {
        MessageKind::LatexError | MessageKind::PackageError { .. } => (
            if ascii {
                "x"
            } else {
                "✕"
            },
            Color::BrightRed,
        ),
        MessageKind::PackageWarning { .. } | MessageKind::MissingChar
        | MessageKind::BibtexWarning => (
            if ascii {
                "!"
            } else {
                "⚠"
            },
            Color::Yellow,
        ),
        MessageKind::OverfullHbox { .. } | MessageKind::OverfullVbox { .. } => (
            if ascii {
                ">"
            } else {
                "»"
            },
            Color::Magenta,
        ),
        MessageKind::UnderfullHbox { .. } => (
            if ascii {
                "<"
            } else {
                "«"
            },
            Color::Magenta,
        ),
        MessageKind::ShowOutput { .. } => (
            if ascii {
                "?"
            } else {
                "⊢"
            },
            Color::Blue,
        ),
    }
}

fn label_is_bare_exec(package: &[char]) -> (r: bool)
    ensures
        r == label_is_bare(package@),
{
    let latex = chars_of("LaTeX");
    let fixme = chars_of("FiXme");
    let sp = find_char_exec(package, ' ');
    proof {
        lemma_char_from_bounds(package@, ' ', 0);
    }
    chars_eq(package, latex.as_slice()) || chars_eq(package, fixme.as_slice()) || sp.is_some()
}

fn label_parts_exec(k: &MessageKind) -> (r: (Vec<char>, Vec<Segment>))
    ensures
        (r.0@, seg_views(r.1@)) == label_parts(k@),
{
    let mut segs: Vec<Segment> = Vec::new();
    match k {
        MessageKind::PackageError { package } | MessageKind::PackageWarning { package } => {
            let p = chars_of(package.as_str());
            let mut lp: Vec<char>;
            if label_is_bare_exec(p.as_slice()) {
                lp = to_vec(p.as_slice());
                push_seg(&mut segs, to_vec(p.as_slice()), Paint::Bold(Color::White));
            } else {
                lp = chars_of("Package ");
                crate::text::append(&mut lp, p.as_slice());
                push_lit(&mut segs, "Package", Paint::Fg(Color::BrightBlack));
                push_lit(&mut segs, " ", Paint::Plain);
                push_seg(&mut segs, to_vec(p.as_slice()), Paint::Bold(Color::White));
            }
            let colon = chars_of(": ");
            crate::text::append(&mut lp, colon.as_slice());
            push_lit(&mut segs, ": ", Paint::Plain);
            proof {
                assert(seg_views(segs@) =~= label_segs(p@).push(plain(": "@)));
            }
            (lp, segs)
        },
        MessageKind::BibtexWarning => {
            push_lit(&mut segs, "BibTeX", Paint::Bold(Color::White));
            push_lit(&mut segs, ": ", Paint::Plain);
            assert(seg_views(segs@) =~= seq![bold("BibTeX"@, Color::White), plain(": "@)]);
            (chars_of("BibTeX: "), segs)
        },
        _ => {
            assert(seg_views(segs@) =~= Seq::<SegV>::empty());
            (Vec::new(), segs)
        },
    }
}

proof fn lemma_number_parts_digits(pt: Seq<char>)
    requires
        plain_number(pt),
    ensures
        all_digits(number_parts(pt).1),
        all_digits(number_parts(pt).2),
        number_parts(pt).1.len() <= 15,
{
    let b = if starts_with_char(pt, '+') || starts_with_char(pt, '-') {
        pt.drop_first()
    } else {
        pt
    };
    let d = digit_run(b);
    crate::text::lemma_nondigit_from_bounds(b, 0);
    if b.len() > d {
        assert(b.skip(d).drop_first() =~= b.skip(d + 1));
    }
}

fn two_places_exec(n: u64) -> (r: Vec<char>)
    ensures
        r@ == two_places(n as nat),
{
    let mut r = dec_exec(n / 100);
    r.push('.');
    let t = dec_exec((n % 100) / 10);
    crate::text::append(&mut r, t.as_slice());
    let u = dec_exec(n % 10);
    crate::text::append(&mut r, u.as_slice());
    assert(r@ =~= two_places(n as nat));
    r
}

fn frac_digit_exec(frac: &[char], k: usize) -> (r: u64)
    requires
        all_digits(frac@),
    ensures
        r as nat == frac_digit(frac@, k as int),
        r <= 9,
{
    if k < frac.len() {
        assert(crate::text::is_digit(frac@[k as int]));
        ((frac[k] as u32) - 0x30) as u64
    } else {
        0
    }
}

fn number_parts_exec(pt: &[char]) -> (r: (bool, Vec<char>, Vec<char>))
    ensures
        (r.0, r.1@, r.2@) == number_parts(pt@),
{
    let neg = pt.len() > 0 && pt[0] == '-';
    let b = if pt.len() > 0 && (pt[0] == '+' || neg) {
        skip(pt, 1)
    } else {
        to_vec(pt)
    };
    let d = match crate::text::find_nondigit(b.as_slice()) {
        Some(k) => k,
        None => b.len(),
    };
    let ip = slice_of(b.as_slice(), 0, d);
    let frac = if b.len() > d {
        skip(b.as_slice(), d + 1)
    } else {
        Vec::new()
    };
    (neg, ip, frac)
}

fn plain_number_exec(pt: &[char]) -> (r: bool)
    ensures
        r == plain_number(pt@),
{
    let b = if pt.len() > 0 && (pt[0] == '+' || pt[0] == '-') {
        skip(pt, 1)
    } else {
        to_vec(pt)
    };
    let d = match crate::text::find_nondigit(b.as_slice()) {
        Some(k) => k,
        None => b.len(),
    };
    crate::parser::patterns::mantissa_ok_exec(b.as_slice()) && d <= 15
}

fn zeros_exec(n: usize) -> (r: Vec<char>)
    ensures
        r@ == zeros(n as nat),
{
    let mut r: Vec<char> = Vec::new();
    let mut i: usize = 0;
    while i < n
        invariant
            i <= n,
            r@ == zeros(i as nat),
        decreases n - i,
    {
        r.push('0');
        assert(r@ =~= zeros((i + 1) as nat));
        i = i + 1;
    }
    r
}

fn place_point_exec(ds: &[char], q: i128) -> (r: Vec<char>)
    requires
        -2000 <= q <= ds@.len() + 2000,
    ensures
        r@ == place_point(ds@, q as int),
{
    if q <= 0 {
        let mut r: Vec<char> = Vec::new();
        r.push('0');
        r.push('.');
        let z = zeros_exec((0 - q) as usize);
        crate::text::append(&mut r, z.as_slice());
        crate::text::append(&mut r, ds);
        assert(r@ =~= seq!['0', '.'] + zeros((-q) as nat) + ds@);
        r
    } else if q >= ds.len() as i128 {
        let mut r = to_vec(ds);
        let z = zeros_exec((q - ds.len() as i128) as usize);
        crate::text::append(&mut r, z.as_slice());
        r
    } else {
        let k = q as usize;
        let mut r = slice_of(ds, 0, k);
        r.push('.');
        let t = skip(ds, k);
        crate::text::append(&mut r, t.as_slice());
        assert(r@ =~= ds@.take(q as int) + seq!['.'] + ds@.skip(q as int));
        r
    }
}

fn small_exponent_exec(x: &[char]) -> (r: Option<i64>)
    ensures
        match r {
            Some(e) => small_exponent(x@) == Some(e as int),
            None => small_exponent(x@) is None,
        },
{
    let y = if x.len() > 0 && (x[0] == '+' || x[0] == '-') {
        skip(x, 1)
    } else {
        to_vec(x)
    };
    if y.len() == 0 || y.len() > 4 || !all_digits_exec(y.as_slice()) {
        return None;
    }
    let v = digits_value_exec(y.as_slice());
    if v > 1000 {
        return None;
    }
    if x[0] == '-' {
        Some(0 - (v as i64))
    } else {
        Some(v as i64)
    }
}

fn without_exponent_exec(pt: &[char]) -> (r: Vec<char>)
    ensures
        r@ == without_exponent(pt@),
{
    let b = if pt.len() > 0 && (pt[0] == '+' || pt[0] == '-') {
        skip(pt, 1)
    } else {
        to_vec(pt)
    };
    let (m, x) = split_exponent(b.as_slice());
    let x = match x {
        None => return to_vec(pt),
        Some(x) => x,
    };
    let e = match small_exponent_exec(x.as_slice()) {
        None => return to_vec(pt),
        Some(e) => e,
    };
    if !mantissa_ok_exec(m.as_slice()) {
        return to_vec(pt);
    }
    let d = digit_run_exec(m.as_slice());
    let mut ds = slice_of(m.as_slice(), 0, d);
    if m.len() > d {
        let f = skip(m.as_slice(), d + 1);
        crate::text::append(&mut ds, f.as_slice());
    }
    let q = d as i128 + e as i128;
    let placed = place_point_exec(ds.as_slice(), q);
    let mut r: Vec<char> = Vec::new();
    if pt.len() > 0 && pt[0] == '-' {
        r.push('-');
    }
    crate::text::append(&mut r, placed.as_slice());
    proof {
        let sign: Seq<char> = if starts_with_char(pt@, '-') {
            seq!['-']
        } else {
            Seq::empty()
        };
        assert(r@ =~= sign + place_point(ds@, d + e));
    }
    r
}

fn format_points_exec(pt: &[char]) -> (r: Vec<char>)
    ensures
        r@ == format_points(pt@),
{
    let b = if pt.len() > 0 && (pt[0] == '+' || pt[0] == '-') {
        skip(pt, 1)
    } else {
        to_vec(pt)
    };
    if eq_ignore_case_exec(b.as_slice(), "inf") || eq_ignore_case_exec(b.as_slice(), "infinity") {
        return chars_of(
            if pt.len() > 0 && pt[0] == '-' {
                "-inf"
            } else {
                "inf"
            },
        );
    }
    if eq_ignore_case_exec(b.as_slice(), "nan") {
        return chars_of("NaN");
    }
    let p = without_exponent_exec(pt);
    if !plain_number_exec(p.as_slice()) {
        return to_vec(pt);
    }
    let (neg, ip, frac) = number_parts_exec(p.as_slice());
    proof {
        lemma_number_parts_digits(p@);
        lemma_digits_value_bound(ip@);
        crate::text::lemma_pow10_le(ip@.len(), 15);
        reveal_with_fuel(crate::text::pow10, 16);
    }
    let iv = digits_value_exec(ip.as_slice());
    let f0 = frac_digit_exec(frac.as_slice(), 0);
    let f1 = frac_digit_exec(frac.as_slice(), 1);
    let f2 = frac_digit_exec(frac.as_slice(), 2);
    let n = iv * 100 + f0 * 10 + f1 + if f2 >= 5 {
        1
    } else {
        0
    };
    let mut r: Vec<char> = Vec::new();
    if neg {
        r.push('-');
    }
    let t = two_places_exec(n);
    crate::text::append(&mut r, t.as_slice());
    proof {
        let spec_neg: Seq<char> = if neg {
            seq!['-']
        } else {
            Seq::empty()
        };
        assert(r@ =~= spec_neg + two_places(n as nat));
    }
    r
}

fn cat3(a: &str, mid: &[char], c: &str) -> (r: Vec<char>)
    ensures
        r@ == a@ + mid@ + c@,
{
    let mut r = chars_of(a);
    crate::text::append(&mut r, mid);
    let cv = chars_of(c);
    crate::text::append(&mut r, cv.as_slice());
    r
}

fn body_text_exec(m: &LogMessage) -> (r: Vec<char>)
    ensures
        r@ == body_text(m@),
{
    match &m.kind {
        MessageKind::OverfullHbox { pt } => {
            let p = chars_of(pt.as_str());
            let f = format_points_exec(p.as_slice());
            cat3("Overfull \\hbox ", f.as_slice(), "pt too wide")
        },
        MessageKind::OverfullVbox { pt } => {
            let p = chars_of(pt.as_str());
            let f = format_points_exec(p.as_slice());
            cat3("Overfull \\vbox ", f.as_slice(), "pt too high")
        },
        MessageKind::UnderfullHbox { badness } => {
            let d = dec_exec(*badness as u64);
            let mut r = chars_of("Underfull \\hbox badness ");
            crate::text::append(&mut r, d.as_slice());
            r
        },
        _ => chars_of(m.text.as_str()),
    }
}

fn line_loc_exec(n: u32) -> (r: Vec<char>)
    ensures
        r@ == line_loc(n),
{
    let d = dec_exec(n as u64);
    cat3("(line ", d.as_slice(), ")")
}

fn location_text_exec(m: &LogMessage, ascii: bool) -> (r: Option<Vec<char>>)
    ensures
        crate::parser::patterns::opt_chars(r) == location_text(m@, ascii),
{
    match &m.kind {
        MessageKind::OverfullHbox { .. } | MessageKind::OverfullVbox { .. }
        | MessageKind::UnderfullHbox { .. } => match m.line_range {
            Some((n, mm)) => if n == mm {
                Some(line_loc_exec(n))
            } else {
                let a = dec_exec(n as u64);
                let mut r = cat3("(lines ", a.as_slice(), if ascii {
                    "--"
                } else {
                    "–"
                });
                let b = dec_exec(mm as u64);
                crate::text::append(&mut r, b.as_slice());
                let close = chars_of(")");
                crate::text::append(&mut r, close.as_slice());
                Some(r)
            },
            None => Some(chars_of("(output active)")),
        },
        MessageKind::LatexError | MessageKind::PackageError { .. }
        | MessageKind::ShowOutput { .. } => match m.line_range {
            Some((n, _)) => Some(line_loc_exec(n)),
            None => None,
        },
        MessageKind::PackageWarning { .. } | MessageKind::BibtexWarning => match (
            m.line_range,
            m.page,
        ) {
            (Some((n, _)), Some(p)) => {
                let a = dec_exec(n as u64);
                let mut r = cat3("(line ", a.as_slice(), ", page ");
                let b = dec_exec(p as u64);
                crate::text::append(&mut r, b.as_slice());
                let close = chars_of(")");
                crate::text::append(&mut r, close.as_slice());
                Some(r)
            },
            (Some((n, _)), None) => Some(line_loc_exec(n)),
            (None, Some(p)) => {
                let b = dec_exec(p as u64);
                Some(cat3("(page ", b.as_slice(), ")"))
            },
            (None, None) => None,
        },
        MessageKind::MissingChar => None,
    }
}

fn push_bar_lines(
    buf: &mut Vec<Segment>,
    ws: &Vec<Vec<char>>,
    ind: &[char],
    bar: &[char],
    color: Color,
)
    ensures
        seg_views(final(buf)@) == seg_views(old(buf)@) + bar_lines(seqs(ws@), ind@, bar@, color),
{
    let ghost b0 = seg_views(buf@);
    let mut i: usize = 0;
    while i < ws.len()
        invariant
            i <= ws@.len(),
            seg_views(buf@) == b0 + bar_lines(seqs(ws@).take(i as int), ind@, bar@, color),
        decreases ws@.len() - i,
    {
        let ghost pre = seqs(ws@).take(i + 1);
        assert(pre.drop_last() =~= seqs(ws@).take(i as int));
        push_seg(buf, to_vec(ind), Paint::Plain);
        push_seg(buf, to_vec(bar), Paint::Fg(color));
        push_lit(buf, " ", Paint::Plain);
        push_seg(buf, to_vec(ws[i].as_slice()), Paint::Plain);
        push_newline(buf);
        i = i + 1;
        proof {
            let prev = bar_lines(seqs(ws@).take(i - 1), ind@, bar@, color);
            assert(seg_views(buf@) =~= b0 + prev + seq![
                plain(ind@),
                fg(bar@, color),
                plain(" "@),
                plain(ws@[i - 1]@),
                newline(),
            ]);
        }
    }
    assert(seqs(ws@).take(ws@.len() as int) =~= seqs(ws@));
}

fn push_context(
    buf: &mut Vec<Segment>,
    ctx: &Vec<String>,
    ind: &[char],
    bar: &[char],
    color: Color,
    width: usize,
)
    ensures
        seg_views(final(buf)@) == seg_views(old(buf)@) + context_segs(
            ctx.deep_view(),
            ind@,
            bar@,
            color,
            width as nat,
        ),
{
    let ghost b0 = seg_views(buf@);
    let mut i: usize = 0;
    while i < ctx.len()
        invariant
            i <= ctx@.len(),
            seg_views(buf@) == b0 + context_segs(
                ctx.deep_view().take(i as int),
                ind@,
                bar@,
                color,
                width as nat,
            ),
        decreases ctx@.len() - i,
    {
        let ghost pre = ctx.deep_view().take(i + 1);
        assert(pre.drop_last() =~= ctx.deep_view().take(i as int));
        let ghost before = seg_views(buf@);
        let entry = chars_of(ctx[i].as_str());
        let pieces = split_on_exec(entry.as_slice(), '\n');
        let ghost p0 = seg_views(buf@);
        let mut j: usize = 0;
        while j < pieces.len()
            invariant
                j <= pieces@.len(),
                seg_views(buf@) == p0 + piece_segs(
                    seqs(pieces@).take(j as int),
                    ind@,
                    bar@,
                    color,
                    width as nat,
                ),
            decreases pieces@.len() - j,
        {
            let ghost pre2 = seqs(pieces@).take(j + 1);
            assert(pre2.drop_last() =~= seqs(pieces@).take(j as int));
            let ghost q0 = seg_views(buf@);
            let wrapped = wrap_chars(pieces[j].as_slice(), width);
            push_bar_lines(buf, &wrapped, ind, bar, color);
            j = j + 1;
            proof {
                let prev = piece_segs(seqs(pieces@).take(j - 1), ind@, bar@, color, width as nat);
                assert(q0 == p0 + prev);
                assert(seg_views(buf@) =~= p0 + prev + bar_lines(
                    wrap(pieces@[j - 1]@, width as nat),
                    ind@,
                    bar@,
                    color,
                ));
            }
        }
        assert(seqs(pieces@).take(pieces@.len() as int) =~= seqs(pieces@));
        i = i + 1;
        proof {
            let prev = context_segs(ctx.deep_view().take(i - 1), ind@, bar@, color, width as nat);
            assert(before == b0 + prev);
            assert(ctx.deep_view()[i - 1] == ctx@[i - 1]@);
            assert(seg_views(buf@) =~= b0 + prev + piece_segs(
                split_on(ctx.deep_view()[i - 1], '\n'),
                ind@,
                bar@,
                color,
                width as nat,
            ));
        }
    }
    assert(ctx.deep_view().take(ctx@.len() as int) =~= ctx.deep_view());
}

proof fn lemma_body_segs_first_line_only(
    lines: Seq<Seq<char>>,
    k: int,
    first: Seq<SegV>,
    c1: Seq<char>,
    c2: Seq<char>,
    loc: Option<Seq<char>>,
)
    requires
        k <= 1,
    ensures
        body_segs(lines, k, first, c1, loc) == body_segs(lines, k, first, c2, loc),
{
    reveal_with_fuel(body_segs, 2);
}

fn push_body(
    buf: &mut Vec<Segment>,
    lines: &Vec<Vec<char>>,
    first: &Vec<Segment>,
    cont: &[char],
    loc: &Option<Vec<char>>,
)
    requires
        lines@.len() >= 1,
    ensures
        seg_views(final(buf)@) == seg_views(old(buf)@) + body_segs(
            seqs(lines@),
            lines@.len() as int,
            seg_views(first@),
            cont@,
            crate::parser::patterns::opt_chars(*loc),
        ),
{
    let ghost b0 = seg_views(buf@);
    let ghost fv = seg_views(first@);
    let ghost lv = crate::parser::patterns::opt_chars(*loc);
    let n = lines.len();
    let mut i: usize = 0;
    while i < n
        invariant
            n == lines@.len(),
            i <= n,
            fv == seg_views(first@),
            lv == crate::parser::patterns::opt_chars(*loc),
            seg_views(buf@) == b0 + body_segs(seqs(lines@), i as int, fv, cont@, lv),
        decreases n - i,
    {
        let ghost before = seg_views(buf@);
        if i == 0 {
            let mut k: usize = 0;
            while k < first.len()
                invariant
                    k <= first@.len(),
                    seg_views(buf@) == before + seg_views(first@).take(k as int),
                decreases first@.len() - k,
            {
                let ghost bb = seg_views(buf@);
                push_seg(buf, to_vec(first[k].text.as_slice()), first[k].paint);
                assert(seg_views(first@).take(k + 1) =~= seg_views(first@).take(k as int).push(
                    seg_views(first@)[k as int],
                ));
                k = k + 1;
            }
            assert(seg_views(first@).take(first@.len() as int) =~= fv);
        } else {
            push_seg(buf, to_vec(cont), Paint::Plain);
        }
        let ghost mid = seg_views(buf@);
        push_seg(buf, to_vec(lines[i].as_slice()), Paint::Plain);
        let ghost mid2 = seg_views(buf@);
        if i == n - 1 {
            match loc {
                Some(t) => {
                    push_lit(buf, "  ", Paint::Plain);
                    push_seg(buf, to_vec(t.as_slice()), Paint::Fg(Color::BrightBlack));
                },
                None => {},
            }
        }
        let ghost mid3 = seg_views(buf@);
        push_newline(buf);
        proof {
            let head: Seq<SegV> = if i == 0 {
                fv
            } else {
                seq![plain(cont@)]
            };
            let tail: Seq<SegV> = if i == n - 1 {
                loc_segs(lv)
            } else {
                Seq::empty()
            };
            assert(mid == before + head);
            assert(mid3 =~= mid2 + tail);
            assert(seg_views(buf@) =~= before + head + seq![plain(seqs(lines@)[i as int])] + tail
                + seq![newline()]);
        }
        i = i + 1;
    }
}

fn push_message(buf: &mut Vec<Segment>, m: &LogMessage, depth: usize, opts: RenderOptions)
    ensures
        seg_views(final(buf)@) == seg_views(old(buf)@) + message_segs(m@, depth as nat, opts),
{
    let ghost b0 = seg_views(buf@);
    let mut ind = indent_exec(depth);
    let two = chars_of("  ");
    crate::text::append(&mut ind, two.as_slice());
    assert(ind@ == indent((depth + 1) as nat));
    let (glyph_s, color) = glyph_and_color_exec(&m.kind, opts.ascii);
    let glyph = chars_of(glyph_s);
    let (lp, lsegs) = label_parts_exec(&m.kind);
    let pw: u128 = ind.len() as u128 + glyph.len() as u128 + 1 + lp.len() as u128;
    let cw: usize = if (opts.width as u128) > pw {
        ((opts.width as u128) - pw) as usize
    } else {
        0
    };
    let text = body_text_exec(m);
    let lines = wrap_chars(text.as_slice(), cw);
    proof {
        crate::output::wrap::law_wrap_fits_width(text@, cw as nat);
    }
    let ghost lv = seg_views(lsegs@);
    let mut first: Vec<Segment> = Vec::new();
    assert(seg_views(first@) =~= Seq::<SegV>::empty());
    push_seg(&mut first, to_vec(ind.as_slice()), Paint::Plain);
    push_seg(&mut first, to_vec(glyph.as_slice()), Paint::Bold(color));
    push_lit(&mut first, " ", Paint::Plain);
    append_segs(&mut first, lsegs);
    assert(seg_views(first@) =~= seq![plain(ind@), bold(glyph@, color), plain(" "@)] + lv);
    let cont = if (opts.width as u128) > pw {
        let sp = chars_of(" ");
        repeat_exec(sp.as_slice(), pw as usize)
    } else {
        Vec::new()
    };
    let loc = location_text_exec(m, opts.ascii);
    push_body(buf, &lines, &first, cont.as_slice(), &loc);
    proof {
        let lv = crate::parser::patterns::opt_chars(loc);
        let ls = seqs(lines@);
        if lines@.len() <= 1 {
            lemma_body_segs_first_line_only(
                ls,
                ls.len() as int,
                seg_views(first@),
                cont@,
                repeat(" "@, pw as nat),
                lv,
            );
        } else {
            assert(cw > 0);
        }
    }
    let bar = chars_of(
        if opts.ascii {
            "|"
        } else {
            "│"
        },
    );
    let used: u128 = ind.len() as u128 + bar.len() as u128 + 1;
    let ccw: usize = if (opts.width as u128) > used {
        ((opts.width as u128) - used) as usize
    } else {
        0
    };
    let ghost b1 = seg_views(buf@);
    push_context(buf, &m.context, ind.as_slice(), bar.as_slice(), color, ccw);
    proof {
        let pwn = ind@.len() + glyph@.len() + 1 + lp@.len();
        assert(pw as nat == pwn);
        assert(cw as nat == sat_sub(opts.width as nat, pwn));
        assert(bar@ == bar_glyph(opts.ascii));
        assert(ccw as nat == sat_sub(opts.width as nat, ind@.len() + bar@.len() + 1));
        let body = body_segs(
            wrap(body_text(m@), sat_sub(opts.width as nat, pwn)),
            wrap(body_text(m@), sat_sub(opts.width as nat, pwn)).len() as int,
            seq![plain(ind@), bold(glyph@, color), plain(" "@)] + lv,
            repeat(" "@, pwn),
            location_text(m@, opts.ascii),
        );
        assert(b1 == b0 + body);
        let ctx = context_segs(m.context.deep_view(), ind@, bar@, color, ccw as nat);
        assert(seg_views(buf@) == b1 + ctx);
        assert(seg_views(buf@) =~= b0 + (body + ctx));
    }
}

fn contains_seen(seen: &Vec<Vec<char>>, f: &[char]) -> (r: bool)
    ensures
        r == seqs(seen@).contains(f@),
{
    let mut i: usize = 0;
    while i < seen.len()
        invariant
            i <= seen@.len(),
            forall|j: int| 0 <= j < i ==> seqs(seen@)[j] != f@,
        decreases seen@.len() - i,
    {
        if chars_eq(seen[i].as_slice(), f) {
            assert(seqs(seen@)[i as int] == f@);
            return true;
        }
        i = i + 1;
    }
    false
}

fn seen_depth_exec(ancestors: &Vec<String>, seen: &Vec<Vec<char>>) -> (r: usize)
    ensures
        r as nat == seen_depth(ancestors.deep_view(), seqs(seen@)),
{
    let mut n: usize = 0;
    let mut i: usize = 0;
    while i < ancestors.len()
        invariant
            i <= ancestors@.len(),
            n <= i,
            n as nat == seen_depth(ancestors.deep_view().take(i as int), seqs(seen@)),
        decreases ancestors@.len() - i,
    {
        let ghost pre = ancestors.deep_view().take(i + 1);
        assert(pre.drop_last() =~= ancestors.deep_view().take(i as int));
        let a = chars_of(ancestors[i].as_str());
        if contains_seen(seen, a.as_slice()) {
            n = n + 1;
        }
        i = i + 1;
    }
    assert(ancestors.deep_view().take(ancestors@.len() as int) =~= ancestors.deep_view());
    n
}

/// Fully streaming renderer: each [`Event`] is laid out as soon as it
/// arrives - nothing is held back waiting for a pass boundary.
///
/// Messages are grouped under a file header, based purely on *immediate*
/// repetition: a new header is printed whenever the current message's file
/// differs from the previous message's file. Nesting per
/// [`LogMessage::ancestors`] collapses "invisible" wrapper files with no
/// messages of their own, computed from what has been seen so far this
/// pass.
pub struct Renderer {
    opts: RenderOptions,
    printed_anything: bool,
    current_file: Option<Vec<char>>,
    /// The files that have a group of their own in this pass, each once, in
    /// the order their groups opened. A set of strings: vstd's `HashSet`
    /// contracts hold only for key types it knows to hash faithfully
    /// (integers and `bool`), not `String`, so membership is kept here by
    /// `insert_seen` and [`law_seen_files_are_distinct`].
    files_seen_this_pass: Vec<Vec<char>>,
    error_count: usize,
    warning_count: usize,
    overfull_count: usize,
    underfull_count: usize,
    buffer: Vec<Segment>,
}

impl View for Renderer {
    type V = RendererV;

    closed spec fn view(&self) -> RendererV {
        RendererV {
            opts: self.opts,
            printed_anything: self.printed_anything,
            current_file: crate::parser::patterns::opt_chars(self.current_file),
            seen: seqs(self.files_seen_this_pass@),
            errors: self.error_count,
            warnings: self.warning_count,
            overfull: self.overfull_count,
            underfull: self.underfull_count,
            buffer: seg_views(self.buffer@),
        }
    }
}

impl Renderer {
    pub fn new(opts: RenderOptions) -> (r: Self)
        ensures
            r@ == (RendererV {
                opts,
                printed_anything: false,
                current_file: None,
                seen: Seq::empty(),
                errors: 0,
                warnings: 0,
                overfull: 0,
                underfull: 0,
                buffer: Seq::empty(),
            }),
    {
        // Coloring is governed solely by `opts.color`, not by `colored`'s
        // own detection of whether the process's stdout is a terminal.
        force_color_override();
        let r = Self {
            opts,
            printed_anything: false,
            current_file: None,
            files_seen_this_pass: Vec::new(),
            error_count: 0,
            warning_count: 0,
            overfull_count: 0,
            underfull_count: 0,
            buffer: Vec::new(),
        };
        assert(seqs(r.files_seen_this_pass@) =~= Seq::<Seq<char>>::empty());
        assert(seg_views(r.buffer@) =~= Seq::<SegV>::empty());
        r
    }

    fn tally(&mut self, kind: &MessageKind)
        ensures
            final(self)@ == tally(old(self)@, kind@),
    {
        match kind.category() {
            crate::model::Category::Error => {
                self.error_count = self.error_count.saturating_add(1);
            },
            crate::model::Category::OverfullBox => {
                self.overfull_count = self.overfull_count.saturating_add(1);
            },
            crate::model::Category::UnderfullBox => {
                self.underfull_count = self.underfull_count.saturating_add(1);
            },
            crate::model::Category::Warning => {
                self.warning_count = self.warning_count.saturating_add(1);
            },
        }
    }

    fn reset_grouping(&mut self)
        ensures
            final(self)@ == (RendererV {
                current_file: None,
                seen: Seq::empty(),
                ..old(self)@
            }),
    {
        self.current_file = None;
        self.files_seen_this_pass = Vec::new();
        assert(seqs(self.files_seen_this_pass@) =~= Seq::<Seq<char>>::empty());
    }

    fn handle_message(&mut self, m: &LogMessage)
        ensures
            final(self)@ == handle_spec(old(self)@, EventV::Message(m@)),
    {
        let ghost r0 = self@;
        self.tally(&m.kind);
        let ghost r1 = self@;
        let depth = seen_depth_exec(&m.ancestors, &self.files_seen_this_pass);
        let file = chars_of(m.file.as_str());
        let same = match &self.current_file {
            Some(f) => chars_eq(f.as_slice(), file.as_slice()),
            None => false,
        };
        assert(same == (r1.current_file == Some(m@.file)));
        if !same {
            let ghost bb = self@.buffer;
            if self.printed_anything {
                push_newline(&mut self.buffer);
            }
            assert(self@.buffer =~= bb + gap(r1));
            let ghost bg = self@.buffer;
            if file.len() > 0 {
                push_seg(&mut self.buffer, indent_exec(depth), Paint::Plain);
                push_seg(&mut self.buffer, to_vec(file.as_slice()), Paint::Fg(Color::Green));
                push_newline(&mut self.buffer);
                assert(self@.buffer =~= bg + header_segs(m@.file, depth as nat));
            } else {
                assert(self@.buffer =~= bg + Seq::<SegV>::empty());
            }
            if !contains_seen(&self.files_seen_this_pass, file.as_slice()) {
                let ghost before = seqs(self.files_seen_this_pass@);
                self.files_seen_this_pass.push(to_vec(file.as_slice()));
                assert(seqs(self.files_seen_this_pass@) =~= before.push(file@));
            }
            self.current_file = Some(file);
            self.printed_anything = true;
        }
        let ghost r2 = self@;
        let opts = self.opts;
        push_message(&mut self.buffer, m, depth, opts);
        proof {
            let spec2 = if r1.current_file != Some(m@.file) {
                RendererV {
                    buffer: r1.buffer + gap(r1) + (if m@.file.len() > 0 {
                        header_segs(m@.file, depth as nat)
                    } else {
                        Seq::empty()
                    }),
                    current_file: Some(m@.file),
                    seen: insert_seen(r1.seen, m@.file),
                    printed_anything: true,
                    ..r1
                }
            } else {
                r1
            };
            assert(r2 == spec2);
            assert(self@ == RendererV {
                buffer: r2.buffer + message_segs(m@, depth as nat, r0.opts),
                ..r2
            });
            assert(r1 == tally(r0, m@.kind));
            assert(depth as nat == seen_depth(m@.ancestors, r1.seen));
            assert(self@ == handle_spec(r0, EventV::Message(m@)));
        }
    }

    fn handle_pass(&mut self, kind: &PassKind)
        ensures
            final(self)@ == handle_spec(old(self)@, EventV::PassBoundary(kind@)),
    {
        let ghost r0 = self@;
        if self.printed_anything {
            push_newline(&mut self.buffer);
        }
        assert(self@.buffer =~= r0.buffer + gap(r0));
        let ghost bg = self@.buffer;
        let label = match kind {
            PassKind::Pdflatex => chars_of("pdflatex"),
            PassKind::Bibtex => chars_of("bibtex"),
            PassKind::Other(name) => chars_of(name.as_str()),
        };
        assert(label@ == pass_label(kind@));
        let line = separator_line_exec(label.as_slice(), self.opts);
        push_seg(&mut self.buffer, line, Paint::Fg(Color::BrightBlack));
        push_newline(&mut self.buffer);
        assert(self@.buffer =~= bg + seq![
            fg(separator_line(pass_label(kind@), r0.opts), Color::BrightBlack),
            newline(),
        ]);
        self.printed_anything = true;
        self.reset_grouping();
    }

    fn handle_pdf(&mut self, path: &String)
        ensures
            final(self)@ == handle_spec(old(self)@, EventV::PdfBuilt { path: path@ }),
    {
        let ghost r0 = self@;
        if self.printed_anything {
            push_newline(&mut self.buffer);
        }
        assert(self@.buffer =~= r0.buffer + gap(r0));
        let ghost bg = self@.buffer;
        let p = chars_of(path.as_str());
        let mut line = chars_of(
            if self.opts.ascii {
                "*"
            } else {
                "✔"
            },
        );
        let mid = chars_of(" PDF written: ");
        crate::text::append(&mut line, mid.as_slice());
        crate::text::append(&mut line, p.as_slice());
        assert(line@ == pdf_line(path@, r0.opts.ascii));
        push_seg(&mut self.buffer, line, Paint::Fg(Color::Green));
        push_newline(&mut self.buffer);
        assert(self@.buffer =~= bg + seq![fg(pdf_line(path@, r0.opts.ascii), Color::Green), newline()]);
        self.printed_anything = true;
        self.reset_grouping();
    }

    /// Lays out one event.
    pub fn handle(&mut self, event: Event)
        ensures
            final(self)@ == handle_spec(old(self)@, event@),
    {
        match &event {
            Event::Message(m) => self.handle_message(m),
            Event::PassBoundary(kind) => self.handle_pass(kind),
            Event::PdfBuilt { path } => self.handle_pdf(path),
        }
    }

    /// Nothing is buffered waiting for more input, so there is nothing left
    /// to do at the end of the input.
    pub fn finish(&mut self)
        ensures
            final(self)@ == old(self)@,
    {
    }

    /// Lays out the summary footer (for file input only).
    pub fn render_summary(&mut self)
        ensures
            final(self)@ == (RendererV {
                buffer: old(self)@.buffer + summary_segs(old(self)@),
                ..old(self)@
            }),
    {
        let d = chars_of(
            if self.opts.ascii {
                "-"
            } else {
                "─"
            },
        );
        push_seg(&mut self.buffer, repeat_exec(d.as_slice(), self.opts.width), Paint::Plain);
        push_newline(&mut self.buffer);
        let e = dec_exec(self.error_count as u64);
        let mut et = to_vec(e.as_slice());
        let es = chars_of(" errors");
        crate::text::append(&mut et, es.as_slice());
        push_seg(
            &mut self.buffer,
            et,
            Paint::Fg(
                if self.error_count > 0 {
                    Color::Red
                } else {
                    Color::Green
                },
            ),
        );
        push_lit(&mut self.buffer, " · ", Paint::Plain);
        let w = dec_exec(self.warning_count as u64);
        let mut wt = to_vec(w.as_slice());
        let ws = chars_of(" warnings");
        crate::text::append(&mut wt, ws.as_slice());
        push_seg(&mut self.buffer, wt, Paint::Fg(Color::Yellow));
        push_lit(&mut self.buffer, " · ", Paint::Plain);
        let o = dec_exec(self.overfull_count as u64);
        let mut ot = to_vec(o.as_slice());
        let os = chars_of(" overfull");
        crate::text::append(&mut ot, os.as_slice());
        push_seg(&mut self.buffer, ot, Paint::Fg(Color::Magenta));
        push_lit(&mut self.buffer, " · ", Paint::Plain);
        let u = dec_exec(self.underfull_count as u64);
        let mut ut = to_vec(u.as_slice());
        let us = chars_of(" underfull");
        crate::text::append(&mut ut, us.as_slice());
        push_seg(&mut self.buffer, ut, Paint::Fg(Color::Magenta));
        push_newline(&mut self.buffer);
        assert(self@.buffer =~= old(self)@.buffer + summary_segs(old(self)@));
    }

    /// Hands over the text laid out so far - painted when colors are on -
    /// and clears it.
    pub fn flush(&mut self) -> (out: String)
        ensures
            final(self)@ == (RendererV { buffer: Seq::empty(), ..old(self)@ }),
            rendered(old(self)@.buffer, out@, old(self)@.opts.color),
            !old(self)@.opts.color ==> out@ == texts(old(self)@.buffer),
    {
        let mut segs: Vec<Segment> = Vec::new();
        std::mem::swap(&mut segs, &mut self.buffer);
        assert(seg_views(self.buffer@) =~= Seq::<SegV>::empty());
        let ghost sv = seg_views(segs@);
        let color_on = self.opts.color;
        let mut out = String::new();
        let mut i: usize = 0;
        while i < segs.len()
            invariant
                i <= segs@.len(),
                sv == seg_views(segs@),
                rendered(sv.take(i as int), out@, color_on),
                !color_on ==> out@ == texts(sv.take(i as int)),
            decreases segs@.len() - i,
        {
            let text = string_of(segs[i].text.as_slice());
            let piece = match segs[i].paint {
                Paint::Plain => text,
                Paint::Fg(c) => if color_on {
                    paint_fg_text(text.as_str(), color_name_exec(c))
                } else {
                    text
                },
                Paint::Bold(c) => if color_on {
                    paint_bold_text(text.as_str(), color_name_exec(c))
                } else {
                    text
                },
            };
            let ghost before = out@;
            out.append(piece.as_str());
            proof {
                let pre = sv.take(i + 1);
                assert(pre.drop_last() =~= sv.take(i as int));
                assert(pre.last() == sv[i as int]);
                let k = before.len() as int;
                assert(out@.take(k) =~= before);
                assert(out@.skip(k) =~= piece@);
                assert(piece_ok(sv[i as int], out@.skip(k), color_on));
            }
            i = i + 1;
        }
        assert(sv.take(sv.len() as int) =~= sv);
        out
    }
}

fn separator_line_exec(label: &[char], opts: RenderOptions) -> (r: Vec<char>)
    ensures
        r@ == separator_line(label@, opts),
{
    let d = chars_of(
        if opts.ascii {
            "-"
        } else {
            "─"
        },
    );
    let mut prefix = to_vec(d.as_slice());
    crate::text::append(&mut prefix, d.as_slice());
    prefix.push(' ');
    crate::text::append(&mut prefix, label);
    prefix.push(' ');
    assert(prefix@ =~= d@ + d@ + " "@ + label@ + " "@) by {
        reveal_strlit(" ");
    }
    let fill = if prefix.len() < opts.width {
        opts.width - prefix.len()
    } else {
        0
    };
    let dashes = repeat_exec(d.as_slice(), fill);
    crate::text::append(&mut prefix, dashes.as_slice());
    prefix
}


// ---------------------------------------------------------------------
// Laws
// ---------------------------------------------------------------------

/// The number of messages counted so far, over the four categories.
pub open spec fn total_count(r: RendererV) -> int {
    r.errors + r.warnings + r.overfull + r.underfull
}

/// Output is only ever appended: whatever an event makes the renderer lay
/// out comes after everything laid out before, which stays as it was.
pub proof fn law_output_is_only_appended(r: RendererV, e: EventV)
    ensures
        r.buffer.len() <= handle_spec(r, e).buffer.len(),
        handle_spec(r, e).buffer.take(r.buffer.len() as int) == r.buffer,
{
    let r2 = handle_spec(r, e);
    match e {
        EventV::Message(m) => {
            let r1 = tally(r, m.kind);
            let depth = seen_depth(m.ancestors, r1.seen);
            if r1.current_file != Some(m.file) {
                let h = gap(r1) + (if m.file.len() > 0 {
                    header_segs(m.file, depth)
                } else {
                    Seq::empty()
                });
                assert(r2.buffer =~= r.buffer + (h + message_segs(m, depth, r.opts)));
            } else {
                assert(r2.buffer =~= r.buffer + message_segs(m, depth, r.opts));
            }
        },
        EventV::PassBoundary(k) => {},
        EventV::PdfBuilt { path } => {},
    }
    assert(r2.buffer.take(r.buffer.len() as int) =~= r.buffer);
}

/// Every message is laid out as soon as it arrives, each time it arrives
/// (nothing is held back or deduplicated): the buffer ends with the
/// message itself, at its visible nesting depth.
pub proof fn law_message_is_printed_at_once(r: RendererV, m: LogMessageV)
    ensures
        ({
            let b = handle_spec(r, EventV::Message(m)).buffer;
            let ms = message_segs(m, seen_depth(m.ancestors, r.seen), r.opts);
            b.len() >= ms.len() && b.skip(b.len() - ms.len()) == ms
        }),
{
    let b = handle_spec(r, EventV::Message(m)).buffer;
    let ms = message_segs(m, seen_depth(m.ancestors, r.seen), r.opts);
    assert(b.skip(b.len() - ms.len()) =~= ms);
}

/// A message for the file whose group is open gets no new header: it is
/// laid out directly under the previous one.
pub proof fn law_same_file_shares_one_header(r: RendererV, m: LogMessageV)
    requires
        r.current_file == Some(m.file),
    ensures
        handle_spec(r, EventV::Message(m)).buffer == r.buffer + message_segs(
            m,
            seen_depth(m.ancestors, r.seen),
            r.opts,
        ),
        handle_spec(r, EventV::Message(m)).current_file == r.current_file,
{
}

/// A message for any other file opens a new group: a blank line when
/// something was printed before, then the file's header (unless the file
/// is empty), then the message.
pub proof fn law_new_file_opens_a_group(r: RendererV, m: LogMessageV)
    requires
        r.current_file != Some(m.file),
    ensures
        ({
            let depth = seen_depth(m.ancestors, r.seen);
            handle_spec(r, EventV::Message(m)).buffer == r.buffer + gap(r) + (if m.file.len() > 0 {
                header_segs(m.file, depth)
            } else {
                Seq::empty()
            }) + message_segs(m, depth, r.opts)
        }),
        handle_spec(r, EventV::Message(m)).current_file == Some(m.file),
        handle_spec(r, EventV::Message(m)).seen.contains(m.file),
{
    let seen = tally(r, m.kind).seen;
    if !seen.contains(m.file) {
        assert(seen.push(m.file)[seen.len() as int] == m.file);
    }
}

/// Each message is counted once, in its own category, in the summary
/// (as long as the counter has room); pass separators and PDF lines are
/// not counted.
pub proof fn law_each_message_counted_once(r: RendererV, e: EventV)
    requires
        r.errors < usize::MAX,
        r.warnings < usize::MAX,
        r.overfull < usize::MAX,
        r.underfull < usize::MAX,
    ensures
        total_count(handle_spec(r, e)) == total_count(r) + (if e is Message {
            1int
        } else {
            0int
        }),
        e matches EventV::Message(m) ==> (match crate::model::entry::kind_category(m.kind) {
            crate::model::Category::Error => handle_spec(r, e).errors == r.errors + 1,
            crate::model::Category::Warning => handle_spec(r, e).warnings == r.warnings + 1,
            crate::model::Category::OverfullBox => handle_spec(r, e).overfull == r.overfull + 1,
            crate::model::Category::UnderfullBox => handle_spec(r, e).underfull == r.underfull
                + 1,
        }),
{
}

/// A pass separator or a PDF line ends the grouping: the next message
/// opens a new group, at depth zero.
pub proof fn law_boundary_starts_fresh_grouping(r: RendererV, e: EventV, m: LogMessageV)
    requires
        !(e is Message),
    ensures
        handle_spec(r, e).current_file is None,
        handle_spec(r, e).seen == Seq::<Seq<char>>::empty(),
        seen_depth(m.ancestors, handle_spec(r, e).seen) == 0,
{
    lemma_seen_depth_empty(m.ancestors);
}

proof fn lemma_seen_depth_empty(a: Seq<Seq<char>>)
    ensures
        seen_depth(a, Seq::empty()) == 0,
    decreases a.len(),
{
    if a.len() > 0 {
        lemma_seen_depth_empty(a.drop_last());
    }
}

proof fn lemma_repeat_len(s: Seq<char>, n: nat)
    requires
        s.len() == 1,
    ensures
        repeat(s, n).len() == n,
    decreases n,
{
    if n > 0 {
        lemma_repeat_len(s, (n - 1) as nat);
    }
}

/// A pass separator is exactly as wide as the layout width, whenever its
/// label fits.
pub proof fn law_separator_fills_the_width(label: Seq<char>, opts: RenderOptions)
    requires
        label.len() + 4 <= opts.width,
    ensures
        separator_line(label, opts).len() == opts.width,
{
    reveal_strlit("-");
    reveal_strlit("─");
    reveal_strlit(" ");
    let d = dash(opts.ascii);
    assert(d.len() == 1);
    let prefix = d + d + " "@ + label + " "@;
    lemma_repeat_len(d, sat_sub(opts.width as nat, prefix.len()));
}


/// The files seen in a pass form a set: an event never adds a file that is
/// already there.
pub proof fn law_seen_files_are_distinct(r: RendererV, e: EventV)
    requires
        r.seen.no_duplicates(),
    ensures
        handle_spec(r, e).seen.no_duplicates(),
{
    match e {
        EventV::Message(m) => {
            let seen = tally(r, m.kind).seen;
            if r.current_file != Some(m.file) && !seen.contains(m.file) {
                let s2 = seen.push(m.file);
                assert forall|i: int, j: int| 0 <= i < s2.len() && 0 <= j < s2.len() && i != j implies s2[i]
                    != s2[j] by {
                    if i < seen.len() && j < seen.len() {
                    } else if i == seen.len() {
                        assert(seen[j] == s2[j]);
                    } else {
                        assert(seen[i] == s2[i]);
                    }
                }
            }
        },
        _ => {
            assert(Seq::<Seq<char>>::empty().no_duplicates());
        },
    }
}


/// A message's location (`(line N)`, `(lines N–M)`, `(line N, page P)`,
/// `(page P)` or `(output active)`, as [`location_text`] gives it for the
/// message's kind) is laid out right after the last line of its body, two
/// spaces apart, before the line ends and before any context lines.
pub proof fn law_location_follows_the_body(m: LogMessageV, depth: nat, opts: RenderOptions)
    ensures
        ({
            let ind = indent(depth + 1);
            let (glyph, color) = glyph_and_color(m.kind, opts.ascii);
            let (lp, lsegs) = label_parts(m.kind);
            let pw = ind.len() + glyph.len() + 1 + lp.len();
            let lines = wrap(body_text(m), sat_sub(opts.width as nat, pw));
            let first = seq![plain(ind), bold(glyph, color), plain(" "@)] + lsegs;
            let b = body_segs(lines, lines.len() as int, first, repeat(" "@, pw), location_text(m, opts.ascii));
            let tail = seq![plain(lines.last())] + loc_segs(location_text(m, opts.ascii)) + seq![newline()];
            &&& lines.len() >= 1
            &&& b.len() >= tail.len()
            &&& b.skip(b.len() - tail.len()) == tail
            &&& message_segs(m, depth, opts) == b + context_segs(
                m.context,
                ind,
                bar_glyph(opts.ascii),
                color,
                sat_sub(opts.width as nat, ind.len() + bar_glyph(opts.ascii).len() + 1),
            )
        }),
{
    let ind = indent(depth + 1);
    let (glyph, color) = glyph_and_color(m.kind, opts.ascii);
    let (lp, lsegs) = label_parts(m.kind);
    let pw = ind.len() + glyph.len() + 1 + lp.len();
    let lines = wrap(body_text(m), sat_sub(opts.width as nat, pw));
    law_wrap_fits_width(body_text(m), sat_sub(opts.width as nat, pw));
    let first = seq![plain(ind), bold(glyph, color), plain(" "@)] + lsegs;
    let loc = location_text(m, opts.ascii);
    let cont = repeat(" "@, pw);
    let b = body_segs(lines, lines.len() as int, first, cont, loc);
    let n = lines.len() as int;
    let tail = seq![plain(lines.last())] + loc_segs(loc) + seq![newline()];
    let head = if n - 1 == 0 {
        first
    } else {
        seq![plain(cont)]
    };
    assert(b == body_segs(lines, n - 1, first, cont, loc) + head + seq![plain(lines[n - 1])] + loc_segs(
        loc,
    ) + seq![newline()]);
    assert(b =~= (body_segs(lines, n - 1, first, cont, loc) + head) + tail);
    assert(b.skip(b.len() - tail.len()) =~= tail);
}


/// Glyph and color follow the category: exactly the errors (`LaTeX` and
/// package errors) are drawn bright red, always with `✕` (`x` in ASCII),
/// and no other kind gets that glyph; warnings other than `\show` output
/// get `⚠` (`!`) in yellow, boxes are magenta.
pub proof fn law_glyph_and_color_follow_the_category(k: KindV, ascii: bool)
    ensures
        (glyph_and_color(k, ascii).1 == Color::BrightRed) <==> (crate::model::entry::kind_category(k)
            == crate::model::Category::Error),
        crate::model::entry::kind_category(k) == crate::model::Category::Error
            ==> glyph_and_color(k, ascii).0 == (if ascii {
            "x"@
        } else {
            "✕"@
        }),
        crate::model::entry::kind_category(k) != crate::model::Category::Error
            ==> glyph_and_color(k, ascii).0 != "x"@ && glyph_and_color(k, ascii).0 != "✕"@,
        crate::model::entry::kind_category(k) == crate::model::Category::Warning && !(k is ShowOutput)
            ==> glyph_and_color(k, ascii) == (if ascii {
            "!"@
        } else {
            "⚠"@
        }, Color::Yellow),
        (crate::model::entry::kind_category(k) == crate::model::Category::OverfullBox
            || crate::model::entry::kind_category(k) == crate::model::Category::UnderfullBox)
            ==> glyph_and_color(k, ascii).1 == Color::Magenta,
{
    reveal_strlit("x");
    reveal_strlit("✕");
    reveal_strlit("!");
    reveal_strlit("⚠");
    reveal_strlit(">");
    reveal_strlit("»");
    reveal_strlit("<");
    reveal_strlit("«");
    reveal_strlit("?");
    reveal_strlit("⊢");
    let g = glyph_and_color(k, ascii).0;
    if crate::model::entry::kind_category(k) != crate::model::Category::Error {
        assert(g.len() == 1);
        assert(g[0] != 'x' && g[0] != '✕');
        assert(g != "x"@) by {
            assert("x"@[0] == 'x');
        }
        assert(g != "✕"@) by {
            assert("✕"@[0] == '✕');
        }
    }
}

} // verus!
