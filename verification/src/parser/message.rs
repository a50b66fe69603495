//! The message state machine: turns logical lines into diagnostics,
//! following multi-line errors, warnings, BibTeX warnings and `\show`
//! output across the lines they span.
use vstd::prelude::*;

use crate::model::{KindV, MessageKind};
use crate::parser::patterns::{
    classify_error, classify_error_text, engine_warning, try_parse_engine_warning, gcc_style,
    try_parse_gcc_style, is_event_prefix, is_recognized_event_prefix, line_marker, try_parse_line_marker,
    named_warning, try_parse_named_warning, overfull_hbox, try_parse_overfull_hbox, overfull_vbox,
    try_parse_overfull_vbox, page_and_line, parse_optional_page_and_line, show_command, extract_show_command,
    strip_pkg_annotation, strip_pkg_annotation_exec, strip_warning_annotation,
    strip_warning_annotation_exec, terminates_warning, terminates_warning_continuation, underfull_hbox,
    try_parse_underfull_hbox,
};
use crate::text::{
    seqs, append, chars_of, concat, find, find_str, has_prefix, is_blank, is_blank_exec, parse_u32,
    parse_u32_exec, skip, slice_of, starts_with_str, string_of, to_vec, trim, trim_end,
    trim_end_exec, trim_exec, trim_start, trim_start_exec,
};

verus! {

// ---------------------------------------------------------------------
// Messages
// ---------------------------------------------------------------------

/// A message produced by [`MessageMatcher`], before the coordinator has
/// attached the file-stack-derived `file` field (or, for kinds that carry
/// their own file - GCC-style errors, BibTeX warnings - the coordinator uses
/// `file_override` verbatim instead of the stack top).
#[derive(Debug, Clone, PartialEq, Eq)]
pub struct RawMessage {
    pub kind: MessageKind,
    pub text: String,
    pub file_override: Option<String>,
    pub line_range: Option<(u32, u32)>,
    pub page: Option<u32>,
    pub context: Vec<String>,
}

pub struct RawV {
    pub kind: KindV,
    pub text: Seq<char>,
    pub file_override: Option<Seq<char>>,
    pub line_range: Option<(u32, u32)>,
    pub page: Option<u32>,
    pub context: Seq<Seq<char>>,
}

pub open spec fn opt_string(o: Option<String>) -> Option<Seq<char>> {
    match o {
        Some(s) => Some(s@),
        None => None,
    }
}

impl View for RawMessage {
    type V = RawV;

    open spec fn view(&self) -> RawV {
        RawV {
            kind: self.kind@,
            text: self.text@,
            file_override: opt_string(self.file_override),
            line_range: self.line_range,
            page: self.page,
            context: self.context.deep_view(),
        }
    }
}

/// The views of a sequence of character vectors, in order.

/// The views of a sequence of messages, in order.
pub open spec fn raws(v: Seq<RawMessage>) -> Seq<RawV> {
    v.map_values(|m: RawMessage| m@)
}

/// A message of the given kind and text with no location, page or
/// context.
pub open spec fn raw(kind: KindV, text: Seq<char>) -> RawV {
    RawV {
        kind,
        text,
        file_override: None,
        line_range: None,
        page: None,
        context: Seq::empty(),
    }
}

/// [`raw`] with a line range.
pub open spec fn raw_at(kind: KindV, text: Seq<char>, line_range: Option<(u32, u32)>) -> RawV {
    RawV { line_range, ..raw(kind, text) }
}

// ---------------------------------------------------------------------
// States
// ---------------------------------------------------------------------

/// An error whose `!` line has been read, waiting for its context and its
/// `l.N` source marker.
pub struct PartialV {
    pub kind: KindV,
    pub text: Seq<char>,
    pub line_range: Option<(u32, u32)>,
    pub context: Seq<Seq<char>>,
    pub snippet1: Option<Seq<char>>,
    pub snippet2: Option<Seq<char>>,
    /// Set once a context entry was collected before `l.N`: the `l.N`
    /// trailing text is then redundant with it and is not shown.
    pub discard_snippet: bool,
}

pub enum PhaseV {
    /// Collecting context lines; `pending` holds a context line awaiting
    /// its indented continuation, and whether it is a `<...>` tagged line.
    ContextLines { pending: Option<(Seq<char>, bool)> },
    /// The `l.N` line has been read; the next line, if any, is its
    /// continuation.
    SourceContinuation,
}

pub enum StateV {
    Idle,
    ErrorCtx { partial: PartialV, phase: PhaseV },
    Warning { package: Seq<char>, buffer: Seq<char> },
    BibtexPending { text: Seq<char> },
    ShowCollecting { first: Seq<char>, context: Seq<Seq<char>> },
}

// ---------------------------------------------------------------------
// The transition function
// ---------------------------------------------------------------------

/// Starts an error from the text after `! `. The engine's final abort
/// banner (`==> Fatal error occurred, ...`) never carries a location or
/// context, so it is complete at once; any other error waits for its
/// context.
pub open spec fn start_bang(rest: Seq<char>) -> (StateV, Seq<RawV>) {
    let (kind, text) = classify_error(rest);
    if find(rest, "Fatal error occurred"@) is Some {
        (StateV::Idle, seq![raw(kind, text)])
    } else {
        (
            StateV::ErrorCtx {
                partial: PartialV {
                    kind,
                    text,
                    line_range: None,
                    context: Seq::empty(),
                    snippet1: None,
                    snippet2: None,
                    discard_snippet: false,
                },
                phase: PhaseV::ContextLines { pending: None },
            },
            Seq::empty(),
        )
    }
}

/// The shapes that start a message that may span further lines.
pub open spec fn dispatch_idle_rest(line: Seq<char>) -> (StateV, Seq<RawV>) {
    if has_prefix(line, "Warning--"@) {
        (StateV::BibtexPending { text: line.skip("Warning--"@.len() as int) }, Seq::empty())
    } else {
        match named_warning(line) {
            Some((package, buffer)) => (StateV::Warning { package, buffer }, Seq::empty()),
            None => match engine_warning(line) {
                Some((package, buffer)) => (StateV::Warning { package, buffer }, Seq::empty()),
                None => if has_prefix(line, "> "@) {
                    (
                        StateV::ShowCollecting {
                            first: line.skip("> "@.len() as int),
                            context: Seq::empty(),
                        },
                        Seq::empty(),
                    )
                } else {
                    (StateV::Idle, Seq::empty())
                },
            },
        }
    }
}

/// A line read with no message in progress: the first matching shape wins
/// (GCC-style error, `!` error, missing character, boxes, BibTeX warning,
/// named and engine warnings, `\show` output); anything else is ignored.
pub open spec fn dispatch_idle(line: Seq<char>) -> (StateV, Seq<RawV>) {
    match gcc_style(line) {
        Some((file, n, msg)) => {
            let (kind, text) = classify_error(msg);
            (
                StateV::Idle,
                seq![RawV { file_override: Some(file), ..raw_at(kind, text, Some((n, n))) }],
            )
        },
        None => if has_prefix(line, "! "@) {
            start_bang(line.skip("! "@.len() as int))
        } else if has_prefix(line, "Missing character:"@) {
            (StateV::Idle, seq![raw(KindV::MissingChar, line)])
        } else {
            match overfull_hbox(line) {
                Some((pt, lr)) => (StateV::Idle, seq![raw_at(KindV::OverfullHbox { pt }, line, lr)]),
                None => match underfull_hbox(line) {
                    Some((badness, lr)) => (
                        StateV::Idle,
                        seq![raw_at(KindV::UnderfullHbox { badness }, line, lr)],
                    ),
                    None => match overfull_vbox(line) {
                        Some((pt, lr)) => (
                            StateV::Idle,
                            seq![raw_at(KindV::OverfullVbox { pt }, line, lr)],
                        ),
                        None => dispatch_idle_rest(line),
                    },
                },
            }
        },
    }
}

/// The context entry made of a pending first line alone.
pub open spec fn lone_entry(first: Seq<char>, tagged: bool) -> Seq<char> {
    if tagged {
        trim_end(first)
    } else {
        first
    }
}

/// The context entry made of a pending first line and its continuation: a
/// tagged line is joined with the trimmed continuation by a space, an
/// untagged one keeps both lines.
pub open spec fn joined_entry(first: Seq<char>, tagged: bool, line: Seq<char>) -> Seq<char> {
    if tagged {
        trim_end(first) + seq![' '] + trim(line)
    } else {
        first + seq!['\n'] + line
    }
}

/// A finished message emitted ahead of whatever `line` produces when read
/// with no message in progress.
pub open spec fn then_dispatch(done: RawV, line: Seq<char>) -> (StateV, Seq<RawV>) {
    let (st, out) = dispatch_idle(line);
    (st, seq![done] + out)
}

/// A line read while collecting an error's context, with no context line
/// pending.
pub open spec fn step_error_ctx(p: PartialV, line: Seq<char>) -> (StateV, Seq<RawV>) {
    match line_marker(line) {
        Some((n, s1)) => {
            let p2 = if p.context.len() == 0 {
                PartialV {
                    line_range: Some((n, n)),
                    snippet1: if is_blank(s1) {
                        None
                    } else {
                        Some(s1)
                    },
                    ..p
                }
            } else {
                PartialV { line_range: Some((n, n)), discard_snippet: true, ..p }
            };
            (StateV::ErrorCtx { partial: p2, phase: PhaseV::SourceContinuation }, Seq::empty())
        },
        None => if p.context.len() == 0 && strip_pkg_annotation(line) is Some {
            let rest = strip_pkg_annotation(line)->0;
            (
                StateV::ErrorCtx {
                    partial: PartialV { text: p.text + seq![' '] + trim(rest), ..p },
                    phase: PhaseV::ContextLines { pending: None },
                },
                Seq::empty(),
            )
        } else if is_event_prefix(line) {
            then_dispatch(finalize_error(p), line)
        } else if is_blank(line) {
            (
                StateV::ErrorCtx { partial: p, phase: PhaseV::ContextLines { pending: None } },
                Seq::empty(),
            )
        } else {
            (
                StateV::ErrorCtx {
                    partial: p,
                    phase: PhaseV::ContextLines {
                        pending: Some((line, has_prefix(trim_start(line), "<"@))),
                    },
                },
                Seq::empty(),
            )
        },
    }
}

/// A line read while a context line waits for its continuation. A blank
/// line, a recognised event or an `l.N` marker is not absorbed: the
/// pending line becomes an entry on its own and the line is read afresh.
pub open spec fn step_error_pending(p: PartialV, first: Seq<char>, tagged: bool, line: Seq<char>) -> (
    StateV,
    Seq<RawV>,
) {
    if is_blank(line) || is_event_prefix(line) || line_marker(line) is Some {
        step_error_ctx(PartialV { context: p.context.push(lone_entry(first, tagged)), ..p }, line)
    } else {
        (
            StateV::ErrorCtx {
                partial: PartialV {
                    context: p.context.push(joined_entry(first, tagged, line)),
                    ..p
                },
                phase: PhaseV::ContextLines { pending: None },
            },
            Seq::empty(),
        )
    }
}

/// A line read right after the `l.N` marker: its continuation, unless it
/// is blank or starts a new event.
pub open spec fn step_error_source(p: PartialV, line: Seq<char>) -> (StateV, Seq<RawV>) {
    if is_blank(line) {
        (StateV::Idle, seq![finalize_error(p)])
    } else if is_event_prefix(line) {
        then_dispatch(finalize_error(p), line)
    } else {
        (StateV::Idle, seq![finalize_error(PartialV { snippet2: Some(line), ..p })])
    }
}

/// Whether an optional snippet line is missing or blank.
pub open spec fn snippet_blank(s: Option<Seq<char>>) -> bool {
    match s {
        Some(t) => is_blank(t),
        None => true,
    }
}

pub open spec fn or_empty(s: Option<Seq<char>>) -> Seq<char> {
    match s {
        Some(t) => t,
        None => Seq::empty(),
    }
}

/// The finished error: the `l.N` snippet lines that are not blank become
/// one last context entry (unless discarded).
pub open spec fn finalize_error(p: PartialV) -> RawV {
    let s1 = or_empty(p.snippet1);
    let s2 = or_empty(p.snippet2);
    let context = if p.discard_snippet {
        p.context
    } else if snippet_blank(p.snippet1) && snippet_blank(p.snippet2) {
        p.context
    } else if snippet_blank(p.snippet2) {
        p.context.push(s1)
    } else if snippet_blank(p.snippet1) {
        p.context.push(s2)
    } else {
        p.context.push(s1 + seq!['\n'] + s2)
    };
    RawV {
        kind: p.kind,
        text: p.text,
        file_override: None,
        line_range: p.line_range,
        page: None,
        context,
    }
}

/// The finished warning, with its line and page markers extracted.
pub open spec fn finalize_warning(package: Seq<char>, buffer: Seq<char>) -> RawV {
    let (text, line, page) = page_and_line(buffer);
    RawV {
        kind: KindV::PackageWarning { package },
        text,
        file_override: None,
        line_range: match line {
            Some(n) => Some((n, n)),
            None => None,
        },
        page,
        context: Seq::empty(),
    }
}

/// A line read while a warning is in progress: a blank line or a
/// terminator ends it; anything else continues its text.
pub open spec fn step_warning(package: Seq<char>, buffer: Seq<char>, line: Seq<char>) -> (
    StateV,
    Seq<RawV>,
) {
    if is_blank(line) {
        (StateV::Idle, seq![finalize_warning(package, buffer)])
    } else if terminates_warning(line) {
        then_dispatch(finalize_warning(package, buffer), line)
    } else {
        (
            StateV::Warning {
                package,
                buffer: buffer + seq![' '] + trim(strip_warning_annotation(line)),
            },
            Seq::empty(),
        )
    }
}

/// The `--line N of file <path>` line that follows a BibTeX warning.
pub open spec fn bibtex_location(line: Seq<char>) -> Option<(u32, Seq<char>)> {
    if !has_prefix(line, "--line "@) {
        None
    } else {
        let rest = line.skip("--line "@.len() as int);
        match find(rest, " of file "@) {
            None => None,
            Some(idx) => Some(
                (
                    match parse_u32(trim(rest.take(idx))) {
                        Some(n) => n,
                        None => 0,
                    },
                    trim(rest.skip(idx + " of file "@.len())),
                ),
            ),
        }
    }
}

/// A line read after a BibTeX `Warning--` line: its location, or else the
/// warning ends without one and the line is read afresh.
pub open spec fn step_bibtex(text: Seq<char>, line: Seq<char>) -> (StateV, Seq<RawV>) {
    match bibtex_location(line) {
        Some((n, file)) => (
            StateV::Idle,
            seq![
                RawV {
                    file_override: Some(file),
                    ..raw_at(KindV::BibtexWarning, text, Some((n, n)))
                },
            ],
        ),
        None => then_dispatch(raw(KindV::BibtexWarning, text), line),
    }
}

/// A line read while collecting `\show` output: the `l.N \show...` line
/// ends it, anything else is more of the dump.
pub open spec fn step_show(first: Seq<char>, context: Seq<Seq<char>>, line: Seq<char>) -> (
    StateV,
    Seq<RawV>,
) {
    match line_marker(line) {
        Some((n, after)) => (
            StateV::Idle,
            seq![
                RawV {
                    context,
                    ..raw_at(KindV::ShowOutput { command: show_command(after) }, first, Some((n, n)))
                },
            ],
        ),
        None => (
            StateV::ShowCollecting {
                first,
                context: context.push(
                    if has_prefix(line, "> "@) {
                        line.skip("> "@.len() as int)
                    } else {
                        line
                    },
                ),
            },
            Seq::empty(),
        ),
    }
}

/// One step of the matcher: the next state and the messages completed by
/// reading `line` in state `s`.
pub open spec fn feed_spec(s: StateV, line: Seq<char>) -> (StateV, Seq<RawV>) {
    match s {
        StateV::Idle => dispatch_idle(line),
        StateV::ErrorCtx { partial, phase } => match phase {
            PhaseV::ContextLines { pending } => match pending {
                Some((first, tagged)) => step_error_pending(partial, first, tagged, line),
                None => step_error_ctx(partial, line),
            },
            PhaseV::SourceContinuation => step_error_source(partial, line),
        },
        StateV::Warning { package, buffer } => step_warning(package, buffer, line),
        StateV::BibtexPending { text } => step_bibtex(text, line),
        StateV::ShowCollecting { first, context } => step_show(first, context, line),
    }
}

/// The message still in progress when the input ends.
pub open spec fn finish_spec(s: StateV) -> Seq<RawV> {
    match s {
        StateV::Idle => Seq::empty(),
        StateV::ErrorCtx { partial, .. } => seq![finalize_error(partial)],
        StateV::Warning { package, buffer } => seq![finalize_warning(package, buffer)],
        StateV::BibtexPending { text } => seq![raw(KindV::BibtexWarning, text)],
        StateV::ShowCollecting { first, context } => seq![
            RawV { context, ..raw(KindV::ShowOutput { command: Seq::empty() }, first) },
        ],
    }
}

// ---------------------------------------------------------------------
// Executable states
// ---------------------------------------------------------------------

struct ErrorPartial {
    kind: MessageKind,
    text: Vec<char>,
    line_range: Option<(u32, u32)>,
    context: Vec<Vec<char>>,
    snippet1: Option<Vec<char>>,
    snippet2: Option<Vec<char>>,
    discard_snippet: bool,
}

impl View for ErrorPartial {
    type V = PartialV;

    closed spec fn view(&self) -> PartialV {
        PartialV {
            kind: self.kind@,
            text: self.text@,
            line_range: self.line_range,
            context: seqs(self.context@),
            snippet1: crate::parser::patterns::opt_chars(self.snippet1),
            snippet2: crate::parser::patterns::opt_chars(self.snippet2),
            discard_snippet: self.discard_snippet,
        }
    }
}

enum ErrorPhase {
    ContextLines { pending: Option<(Vec<char>, bool)> },
    SourceContinuation,
}

impl View for ErrorPhase {
    type V = PhaseV;

    closed spec fn view(&self) -> PhaseV {
        match self {
            ErrorPhase::ContextLines { pending } => PhaseV::ContextLines {
                pending: match pending {
                    Some((f, t)) => Some((f@, *t)),
                    None => None,
                },
            },
            ErrorPhase::SourceContinuation => PhaseV::SourceContinuation,
        }
    }
}

enum State {
    Idle,
    ErrorCtx { partial: ErrorPartial, phase: ErrorPhase },
    Warning { package: Vec<char>, buffer: Vec<char> },
    BibtexPending { text: Vec<char> },
    ShowCollecting { first: Vec<char>, context: Vec<Vec<char>> },
}

impl View for State {
    type V = StateV;

    closed spec fn view(&self) -> StateV {
        match self {
            State::Idle => StateV::Idle,
            State::ErrorCtx { partial, phase } => StateV::ErrorCtx {
                partial: partial@,
                phase: phase@,
            },
            State::Warning { package, buffer } => StateV::Warning {
                package: package@,
                buffer: buffer@,
            },
            State::BibtexPending { text } => StateV::BibtexPending { text: text@ },
            State::ShowCollecting { first, context } => StateV::ShowCollecting {
                first: first@,
                context: seqs(context@),
            },
        }
    }
}

// ---------------------------------------------------------------------
// Building messages
// ---------------------------------------------------------------------

fn strings_of(v: &Vec<Vec<char>>) -> (r: Vec<String>)
    ensures
        r.deep_view() == seqs(v@),
{
    let mut r: Vec<String> = Vec::new();
    let mut i: usize = 0;
    while i < v.len()
        invariant
            i <= v@.len(),
            r.deep_view() == seqs(v@).take(i as int),
        decreases v@.len() - i,
    {
        let ghost before = r.deep_view();
        r.push(string_of(v[i].as_slice()));
        assert(r.deep_view() =~= before.push(v[i as int]@));
        assert(seqs(v@).take(i + 1) =~= seqs(v@).take(i as int).push(v[i as int]@));
        i = i + 1;
    }
    assert(seqs(v@).take(v@.len() as int) =~= seqs(v@));
    r
}

fn opt_string_of(v: Option<Vec<char>>) -> (r: Option<String>)
    ensures
        opt_string(r) == crate::parser::patterns::opt_chars(v),
{
    match v {
        Some(v) => Some(string_of(v.as_slice())),
        None => None,
    }
}

fn make_raw(
    kind: MessageKind,
    text: &[char],
    file_override: Option<Vec<char>>,
    line_range: Option<(u32, u32)>,
    page: Option<u32>,
    context: &Vec<Vec<char>>,
) -> (m: RawMessage)
    ensures
        m@ == (RawV {
            kind: kind@,
            text: text@,
            file_override: crate::parser::patterns::opt_chars(file_override),
            line_range,
            page,
            context: seqs(context@),
        }),
{
    RawMessage {
        kind,
        text: string_of(text),
        file_override: opt_string_of(file_override),
        line_range,
        page,
        context: strings_of(context),
    }
}

fn no_context() -> (v: Vec<Vec<char>>)
    ensures
        seqs(v@) == Seq::<Seq<char>>::empty(),
{
    let v: Vec<Vec<char>> = Vec::new();
    assert(seqs(v@) =~= Seq::<Seq<char>>::empty());
    v
}

fn one(m: RawMessage) -> (v: Vec<RawMessage>)
    ensures
        raws(v@) == seq![m@],
{
    let mut v: Vec<RawMessage> = Vec::new();
    v.push(m);
    assert(raws(v@) =~= seq![m@]);
    v
}

fn none() -> (v: Vec<RawMessage>)
    ensures
        raws(v@) == Seq::<RawV>::empty(),
{
    let v: Vec<RawMessage> = Vec::new();
    assert(raws(v@) =~= Seq::<RawV>::empty());
    v
}

fn prepend(m: RawMessage, rest: Vec<RawMessage>) -> (v: Vec<RawMessage>)
    ensures
        raws(v@) == seq![m@] + raws(rest@),
{
    let mut v: Vec<RawMessage> = Vec::new();
    v.push(m);
    let mut rest = rest;
    let ghost r0 = rest@;
    v.append(&mut rest);
    assert(raws(v@) =~= seq![m@] + raws(r0));
    v
}

fn push_entry(v: &mut Vec<Vec<char>>, e: Vec<char>)
    ensures
        seqs(final(v)@) == seqs(old(v)@).push(e@),
{
    let ghost before = seqs(v@);
    v.push(e);
    assert(seqs(v@) =~= before.push(e@));
}

// ---------------------------------------------------------------------
// Executable transitions
// ---------------------------------------------------------------------

fn start_bang_error(rest: &[char]) -> (r: (State, Vec<RawMessage>))
    ensures
        (r.0@, raws(r.1@)) == start_bang(rest@),
{
    let (kind, text) = classify_error_text(rest);
    if find_str(rest, "Fatal error occurred").is_some() {
        let m = make_raw(kind, text.as_slice(), None, None, None, &no_context());
        return (State::Idle, one(m));
    }
    let partial = ErrorPartial {
        kind,
        text,
        line_range: None,
        context: no_context(),
        snippet1: None,
        snippet2: None,
        discard_snippet: false,
    };
    (State::ErrorCtx { partial, phase: ErrorPhase::ContextLines { pending: None } }, none())
}

fn dispatch_idle_rest_exec(line: &[char]) -> (r: (State, Vec<RawMessage>))
    ensures
        (r.0@, raws(r.1@)) == dispatch_idle_rest(line@),
{
    let wv = chars_of("Warning--");
    if starts_with_str(line, "Warning--") {
        return (State::BibtexPending { text: skip(line, wv.len()) }, none());
    }
    if let Some((package, buffer)) = try_parse_named_warning(line) {
        return (State::Warning { package, buffer }, none());
    }
    if let Some((package, buffer)) = try_parse_engine_warning(line) {
        return (State::Warning { package, buffer }, none());
    }
    let sv = chars_of("> ");
    if starts_with_str(line, "> ") {
        return (
            State::ShowCollecting { first: skip(line, sv.len()), context: no_context() },
            none(),
        );
    }
    (State::Idle, none())
}

fn dispatch_idle_exec(line: &[char]) -> (r: (State, Vec<RawMessage>))
    ensures
        (r.0@, raws(r.1@)) == dispatch_idle(line@),
{
    if let Some((file, n, msg)) = try_parse_gcc_style(line) {
        let (kind, text) = classify_error_text(msg.as_slice());
        let m = make_raw(kind, text.as_slice(), Some(file), Some((n, n)), None, &no_context());
        return (State::Idle, one(m));
    }
    let bv = chars_of("! ");
    if starts_with_str(line, "! ") {
        let rest = skip(line, bv.len());
        return start_bang_error(rest.as_slice());
    }
    if starts_with_str(line, "Missing character:") {
        let m = make_raw(MessageKind::MissingChar, line, None, None, None, &no_context());
        return (State::Idle, one(m));
    }
    if let Some((pt, lr)) = try_parse_overfull_hbox(line) {
        let kind = MessageKind::OverfullHbox { pt: string_of(pt.as_slice()) };
        let m = make_raw(kind, line, None, lr, None, &no_context());
        return (State::Idle, one(m));
    }
    if let Some((badness, lr)) = try_parse_underfull_hbox(line) {
        let m = make_raw(
            MessageKind::UnderfullHbox { badness },
            line,
            None,
            lr,
            None,
            &no_context(),
        );
        return (State::Idle, one(m));
    }
    if let Some((pt, lr)) = try_parse_overfull_vbox(line) {
        let kind = MessageKind::OverfullVbox { pt: string_of(pt.as_slice()) };
        let m = make_raw(kind, line, None, lr, None, &no_context());
        return (State::Idle, one(m));
    }
    dispatch_idle_rest_exec(line)
}

fn finalize_error_exec(p: ErrorPartial) -> (m: RawMessage)
    ensures
        m@ == finalize_error(p@),
{
    let mut context = p.context;
    if !p.discard_snippet {
        let b1 = match &p.snippet1 {
            Some(s) => is_blank_exec(s.as_slice()),
            None => true,
        };
        let b2 = match &p.snippet2 {
            Some(s) => is_blank_exec(s.as_slice()),
            None => true,
        };
        if b1 && b2 {
        } else if b2 {
            let s1 = match p.snippet1 {
                Some(s) => s,
                None => Vec::new(),
            };
            push_entry(&mut context, s1);
        } else if b1 {
            let s2 = match p.snippet2 {
                Some(s) => s,
                None => Vec::new(),
            };
            push_entry(&mut context, s2);
        } else {
            let s1 = match p.snippet1 {
                Some(s) => s,
                None => Vec::new(),
            };
            let s2 = match p.snippet2 {
                Some(s) => s,
                None => Vec::new(),
            };
            let mut e = s1;
            let ghost e0 = e@;
            e.push('\n');
            append(&mut e, s2.as_slice());
            assert(e@ =~= e0 + seq!['\n'] + s2@);
            push_entry(&mut context, e);
        }
    }
    make_raw(p.kind, p.text.as_slice(), None, p.line_range, None, &context)
}

fn then_dispatch_exec(done: RawMessage, line: &[char]) -> (r: (State, Vec<RawMessage>))
    ensures
        (r.0@, raws(r.1@)) == then_dispatch(done@, line@),
{
    let (st, out) = dispatch_idle_exec(line);
    (st, prepend(done, out))
}

fn step_error_ctx_exec(p: ErrorPartial, line: &[char]) -> (r: (State, Vec<RawMessage>))
    ensures
        (r.0@, raws(r.1@)) == step_error_ctx(p@, line@),
{
    let mut p = p;
    if let Some((n, s1)) = try_parse_line_marker(line) {
        p.line_range = Some((n, n));
        if p.context.len() == 0 {
            p.snippet1 = if is_blank_exec(s1.as_slice()) {
                None
            } else {
                Some(s1)
            };
        } else {
            p.discard_snippet = true;
        }
        return (State::ErrorCtx { partial: p, phase: ErrorPhase::SourceContinuation }, none());
    }
    if p.context.len() == 0 {
        if let Some(rest) = strip_pkg_annotation_exec(line) {
            let ghost t0 = p.text@;
            p.text.push(' ');
            let t = trim_exec(rest.as_slice());
            append(&mut p.text, t.as_slice());
            assert(p.text@ =~= t0 + seq![' '] + t@);
            return (
                State::ErrorCtx { partial: p, phase: ErrorPhase::ContextLines { pending: None } },
                none(),
            );
        }
    }
    if is_recognized_event_prefix(line) {
        let m = finalize_error_exec(p);
        return then_dispatch_exec(m, line);
    }
    if is_blank_exec(line) {
        return (
            State::ErrorCtx { partial: p, phase: ErrorPhase::ContextLines { pending: None } },
            none(),
        );
    }
    let t = trim_start_exec(line);
    let tagged = starts_with_str(t.as_slice(), "<");
    (
        State::ErrorCtx {
            partial: p,
            phase: ErrorPhase::ContextLines { pending: Some((to_vec(line), tagged)) },
        },
        none(),
    )
}

fn step_error_pending_exec(p: ErrorPartial, first: Vec<char>, tagged: bool, line: &[char]) -> (r: (
    State,
    Vec<RawMessage>,
))
    ensures
        (r.0@, raws(r.1@)) == step_error_pending(p@, first@, tagged, line@),
{
    let mut p = p;
    let is_terminator = is_blank_exec(line) || is_recognized_event_prefix(line)
        || try_parse_line_marker(line).is_some();
    if is_terminator {
        let entry = if tagged {
            trim_end_exec(first.as_slice())
        } else {
            first
        };
        push_entry(&mut p.context, entry);
        return step_error_ctx_exec(p, line);
    }
    let entry = if tagged {
        let mut e = trim_end_exec(first.as_slice());
        let ghost e0 = e@;
        e.push(' ');
        let t = trim_exec(line);
        append(&mut e, t.as_slice());
        assert(e@ =~= e0 + seq![' '] + t@);
        e
    } else {
        let mut e = first;
        let ghost e0 = e@;
        e.push('\n');
        append(&mut e, line);
        assert(e@ =~= e0 + seq!['\n'] + line@);
        e
    };
    push_entry(&mut p.context, entry);
    (State::ErrorCtx { partial: p, phase: ErrorPhase::ContextLines { pending: None } }, none())
}

fn step_error_source_exec(p: ErrorPartial, line: &[char]) -> (r: (State, Vec<RawMessage>))
    ensures
        (r.0@, raws(r.1@)) == step_error_source(p@, line@),
{
    if is_blank_exec(line) {
        return (State::Idle, one(finalize_error_exec(p)));
    }
    if is_recognized_event_prefix(line) {
        let m = finalize_error_exec(p);
        return then_dispatch_exec(m, line);
    }
    let mut p = p;
    p.snippet2 = Some(to_vec(line));
    (State::Idle, one(finalize_error_exec(p)))
}

fn finalize_warning_exec(package: &[char], buffer: &[char]) -> (m: RawMessage)
    ensures
        m@ == finalize_warning(package@, buffer@),
{
    let (text, line, page) = parse_optional_page_and_line(buffer);
    let lr = match line {
        Some(n) => Some((n, n)),
        None => None,
    };
    make_raw(
        MessageKind::PackageWarning { package: string_of(package) },
        text.as_slice(),
        None,
        lr,
        page,
        &no_context(),
    )
}

fn step_warning_exec(package: Vec<char>, buffer: Vec<char>, line: &[char]) -> (r: (
    State,
    Vec<RawMessage>,
))
    ensures
        (r.0@, raws(r.1@)) == step_warning(package@, buffer@, line@),
{
    if is_blank_exec(line) {
        let m = finalize_warning_exec(package.as_slice(), buffer.as_slice());
        return (State::Idle, one(m));
    }
    if terminates_warning_continuation(line) {
        let m = finalize_warning_exec(package.as_slice(), buffer.as_slice());
        return then_dispatch_exec(m, line);
    }
    let mut buffer = buffer;
    let ghost b0 = buffer@;
    buffer.push(' ');
    let stripped = strip_warning_annotation_exec(line);
    let t = trim_exec(stripped.as_slice());
    append(&mut buffer, t.as_slice());
    assert(buffer@ =~= b0 + seq![' '] + t@);
    (State::Warning { package, buffer }, none())
}

fn bibtex_location_exec(line: &[char]) -> (r: Option<(u32, Vec<char>)>)
    ensures
        crate::parser::patterns::opt_num_chars(r) == bibtex_location(line@),
{
    let lv = chars_of("--line ");
    if !starts_with_str(line, "--line ") {
        return None;
    }
    let rest = skip(line, lv.len());
    let fv = chars_of(" of file ");
    match find_str(rest.as_slice(), " of file ") {
        None => None,
        Some(idx) => {
            let num = slice_of(rest.as_slice(), 0, idx);
            let num = trim_exec(num.as_slice());
            let n = match parse_u32_exec(num.as_slice()) {
                Some(n) => n,
                None => 0,
            };
            let file = skip(rest.as_slice(), idx + fv.len());
            Some((n, trim_exec(file.as_slice())))
        },
    }
}

fn step_bibtex_exec(text: Vec<char>, line: &[char]) -> (r: (State, Vec<RawMessage>))
    ensures
        (r.0@, raws(r.1@)) == step_bibtex(text@, line@),
{
    match bibtex_location_exec(line) {
        Some((n, file)) => {
            let m = make_raw(
                MessageKind::BibtexWarning,
                text.as_slice(),
                Some(file),
                Some((n, n)),
                None,
                &no_context(),
            );
            (State::Idle, one(m))
        },
        None => {
            let m = make_raw(
                MessageKind::BibtexWarning,
                text.as_slice(),
                None,
                None,
                None,
                &no_context(),
            );
            then_dispatch_exec(m, line)
        },
    }
}

fn step_show_exec(first: Vec<char>, context: Vec<Vec<char>>, line: &[char]) -> (r: (
    State,
    Vec<RawMessage>,
))
    ensures
        (r.0@, raws(r.1@)) == step_show(first@, seqs(context@), line@),
{
    match try_parse_line_marker(line) {
        Some((n, after)) => {
            let command = extract_show_command(after.as_slice());
            let kind = MessageKind::ShowOutput { command: string_of(command.as_slice()) };
            let m = make_raw(kind, first.as_slice(), None, Some((n, n)), None, &context);
            (State::Idle, one(m))
        },
        None => {
            let sv = chars_of("> ");
            let entry = if starts_with_str(line, "> ") {
                skip(line, sv.len())
            } else {
                to_vec(line)
            };
            let mut context = context;
            push_entry(&mut context, entry);
            (State::ShowCollecting { first, context }, none())
        },
    }
}

fn step_exec(state: State, line: &[char]) -> (r: (State, Vec<RawMessage>))
    ensures
        (r.0@, raws(r.1@)) == feed_spec(state@, line@),
{
    match state {
        State::Idle => dispatch_idle_exec(line),
        State::ErrorCtx { partial, phase } => match phase {
            ErrorPhase::ContextLines { pending } => match pending {
                Some((first, tagged)) => step_error_pending_exec(partial, first, tagged, line),
                None => step_error_ctx_exec(partial, line),
            },
            ErrorPhase::SourceContinuation => step_error_source_exec(partial, line),
        },
        State::Warning { package, buffer } => step_warning_exec(package, buffer, line),
        State::BibtexPending { text } => step_bibtex_exec(text, line),
        State::ShowCollecting { first, context } => step_show_exec(first, context, line),
    }
}

// ---------------------------------------------------------------------
// The matcher
// ---------------------------------------------------------------------

/// Matches logical lines against the known diagnostic shapes, carrying a
/// message that spans several lines from one line to the next.
pub struct MessageMatcher {
    state: State,
}

impl View for MessageMatcher {
    type V = StateV;

    closed spec fn view(&self) -> StateV {
        self.state@
    }
}

impl MessageMatcher {
    pub fn new() -> (m: Self)
        ensures
            m@ == StateV::Idle,
    {
        Self { state: State::Idle }
    }

    /// Feed one logical line; returns the messages it completes.
    pub fn feed(&mut self, line: &str) -> (out: Vec<RawMessage>)
        ensures
            (final(self)@, raws(out@)) == feed_spec(old(self)@, line@),
    {
        let lv = chars_of(line);
        let mut state = State::Idle;
        std::mem::swap(&mut state, &mut self.state);
        let (next, out) = step_exec(state, lv.as_slice());
        self.state = next;
        out
    }

    /// The message still in progress at the end of the input, if any.
    pub fn finish(&mut self) -> (out: Vec<RawMessage>)
        ensures
            final(self)@ == StateV::Idle,
            raws(out@) == finish_spec(old(self)@),
    {
        let mut state = State::Idle;
        std::mem::swap(&mut state, &mut self.state);
        match state {
            State::Idle => none(),
            State::ErrorCtx { partial, .. } => one(finalize_error_exec(partial)),
            State::Warning { package, buffer } => one(
                finalize_warning_exec(package.as_slice(), buffer.as_slice()),
            ),
            State::BibtexPending { text } => one(
                make_raw(MessageKind::BibtexWarning, text.as_slice(), None, None, None, &no_context()),
            ),
            State::ShowCollecting { first, context } => {
                let kind = MessageKind::ShowOutput { command: String::new() };
                one(make_raw(kind, first.as_slice(), None, None, None, &context))
            },
        }
    }
}


// ---------------------------------------------------------------------
// Laws
// ---------------------------------------------------------------------

/// No message is lost at the end of the input: a message still in
/// progress is completed, and nothing is made up when none is.
pub proof fn law_message_in_progress_is_completed(s: StateV)
    ensures
        finish_spec(s).len() == (if s is Idle {
            0int
        } else {
            1int
        }),
{
}

/// One line completes at most two messages: the one it ends, and one it
/// forms on its own.
#[verifier::rlimit(50)]
pub proof fn law_at_most_two_messages_per_line(s: StateV, line: Seq<char>)
    ensures
        feed_spec(s, line).1.len() <= 2,
{
}


/// The BibTeX warning with text `text`, as it stands without a location.
pub open spec fn bibtex_warning_without_location(text: Seq<char>) -> RawV {
    RawV {
        kind: KindV::BibtexWarning,
        text,
        file_override: None,
        line_range: None,
        page: None,
        context: Seq::empty(),
    }
}

/// A `Warning--<text>` line (that is not a `file:N:` error) starts a BibTeX
/// warning with text `<text>`, and no message comes out yet.
pub proof fn law_bibtex_warning_line_starts_a_warning(text: Seq<char>)
    requires
        gcc_style("Warning--"@ + text) is None,
    ensures
        feed_spec(StateV::Idle, "Warning--"@ + text) == (
            StateV::BibtexPending { text },
            Seq::<RawV>::empty(),
        ),
{
    reveal_strlit("Warning--");
    reveal_strlit("! ");
    reveal_strlit("Missing character:");
    reveal_strlit("Overfull \\hbox (");
    reveal_strlit("Underfull \\hbox (badness ");
    reveal_strlit("Overfull \\vbox (");
    let line = "Warning--"@ + text;
    assert(line[0] == 'W');
    assert(line.take(9) =~= "Warning--"@);
    assert(line.skip(9) =~= text);
    assert(!has_prefix(line, "! "@)) by {
        if has_prefix(line, "! "@) {
            assert(line.take(2)[0] == line[0]);
        }
    }
    assert(!has_prefix(line, "Missing character:"@)) by {
        if has_prefix(line, "Missing character:"@) {
            assert(line.take(18)[0] == line[0]);
        }
    }
    assert(!has_prefix(line, "Overfull \\hbox ("@)) by {
        if has_prefix(line, "Overfull \\hbox ("@) {
            assert(line.take(16)[0] == line[0]);
        }
    }
    assert(!has_prefix(line, "Underfull \\hbox (badness "@)) by {
        if has_prefix(line, "Underfull \\hbox (badness "@) {
            assert(line.take(25)[0] == line[0]);
        }
    }
    assert(!has_prefix(line, "Overfull \\vbox ("@)) by {
        if has_prefix(line, "Overfull \\vbox ("@) {
            assert(line.take(16)[0] == line[0]);
        }
    }
    assert(overfull_hbox(line) is None);
    assert(underfull_hbox(line) is None);
    assert(overfull_vbox(line) is None);
    assert(has_prefix(line, "Warning--"@));
    assert(dispatch_idle_rest(line) == (StateV::BibtexPending { text }, Seq::<RawV>::empty()));
    assert(dispatch_idle(line) == (StateV::BibtexPending { text }, Seq::<RawV>::empty()));
}

/// A BibTeX warning in progress is never dropped: whatever line follows,
/// it comes out first, once, with its text. Without a `--line N of file F`
/// location the line then completes the warning (no file, no line) and is
/// read as if no message were in progress; with one, the warning takes
/// that file and line. At the end of the input it comes out as it is.
pub proof fn law_bibtex_warning_is_never_dropped(text: Seq<char>, line: Seq<char>)
    ensures
        ({
            let (s, out) = feed_spec(StateV::BibtexPending { text }, line);
            &&& out.len() >= 1
            &&& out[0].kind == KindV::BibtexWarning
            &&& out[0].text == text
            &&& forall|i: int| 1 <= i < out.len() ==> !(#[trigger] out[i].kind is BibtexWarning)
        }),
        bibtex_location(line) is None ==> feed_spec(StateV::BibtexPending { text }, line) == (
            feed_spec(StateV::Idle, line).0,
            seq![bibtex_warning_without_location(text)] + feed_spec(StateV::Idle, line).1,
        ),
        bibtex_location(line) matches Some((n, file)) ==> feed_spec(
            StateV::BibtexPending { text },
            line,
        ) == (
            StateV::Idle,
            seq![
                RawV {
                    kind: KindV::BibtexWarning,
                    text,
                    file_override: Some(file),
                    line_range: Some((n, n)),
                    page: None,
                    context: Seq::empty(),
                },
            ],
        ),
        finish_spec(StateV::BibtexPending { text }) == seq![bibtex_warning_without_location(text)],
{
}


/// The source text of an `l.N` marker is kept: when an error has collected
/// no context before its marker and the text after `l.N` is not blank, the
/// finished error is on line `N` and its last context entry is that text -
/// joined by a newline with the continuation line when that line is
/// neither blank nor the start of something new, and alone otherwise
/// (also when the input ends right after the marker).
pub proof fn law_error_keeps_its_source_snippet(
    p: PartialV,
    marker: Seq<char>,
    next: Seq<char>,
)
    requires
        p.context.len() == 0,
        !p.discard_snippet,
        p.snippet2 is None,
        line_marker(marker) is Some,
        !is_blank((line_marker(marker)->0).1),
    ensures
        ({
            let (n, s1) = line_marker(marker)->0;
            let start = StateV::ErrorCtx { partial: p, phase: PhaseV::ContextLines { pending: None } };
            let (st, out) = feed_spec(start, marker);
            let (_, out2) = feed_spec(st, next);
            let expected = if is_blank(next) || is_event_prefix(next) {
                s1
            } else {
                s1 + seq!['\n'] + next
            };
            &&& out.len() == 0
            &&& out2.len() >= 1
            &&& out2[0].kind == p.kind
            &&& out2[0].text == p.text
            &&& out2[0].line_range == Some((n, n))
            &&& out2[0].context == seq![expected]
            &&& finish_spec(st).len() == 1
            &&& finish_spec(st)[0].context == seq![s1]
            &&& finish_spec(st)[0].line_range == Some((n, n))
        }),
{
    let (n, s1) = line_marker(marker)->0;
    let p2 = PartialV { line_range: Some((n, n)), snippet1: Some(s1), ..p };
    let start = StateV::ErrorCtx { partial: p, phase: PhaseV::ContextLines { pending: None } };
    assert(feed_spec(start, marker) == (
        StateV::ErrorCtx { partial: p2, phase: PhaseV::SourceContinuation },
        Seq::<RawV>::empty(),
    ));
    assert(Seq::<Seq<char>>::empty().push(s1) =~= seq![s1]);
    assert(finalize_error(p2).context == seq![s1]);
    let e2 = s1 + seq!['\n'] + next;
    assert(Seq::<Seq<char>>::empty().push(e2) =~= seq![e2]);
}

} // verus!
