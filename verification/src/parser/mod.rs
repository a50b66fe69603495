//! The parsing pipeline: physical lines are joined into logical lines
//! ([`line_joiner`]), scanned for file opens and closes ([`file_stack`]) and
//! matched against the diagnostic shapes ([`message`]); [`LogParser`]
//! coordinates the three into a stream of [`Event`]s.
pub mod file_stack;
pub mod line_joiner;
pub mod message;
pub mod patterns;

use vstd::prelude::*;

use crate::model::entry::events_view;
use crate::model::{Event, EventV, LogMessage, LogMessageV, PassKind, PassKindV};
use crate::text::{
    chars_eq, chars_of, find, find_char, find_char_exec, find_nondigit, find_str, has_prefix,
    is_whitespace, is_ws, nondigit_from, skip, slice_of, starts_with_str, string_of, to_vec,
};
use file_stack::{FileStack, chain, current, process};
use line_joiner::LineJoiner;
use message::{MessageMatcher, RawMessage, RawV, StateV, raws};

verus! {

// ---------------------------------------------------------------------
// Pass boundaries and PDF output
// ---------------------------------------------------------------------

/// The pass kind named by a latexmk rule.
pub open spec fn rule_kind(name: Seq<char>) -> PassKindV {
    if name == "pdflatex"@ {
        PassKindV::Pdflatex
    } else if has_prefix(name, "bibtex"@) {
        PassKindV::Bibtex
    } else {
        PassKindV::Other(name)
    }
}

/// A latexmk `Run number N of rule '<name>'` line.
pub open spec fn pass_boundary(line: Seq<char>) -> Option<PassKindV> {
    if !has_prefix(line, "Run number "@) {
        None
    } else {
        let rest = line.skip("Run number "@.len() as int);
        match nondigit_from(rest, 0) {
            None => None,
            Some(k) => {
                let after = rest.skip(k);
                if !has_prefix(after, " of rule '"@) {
                    None
                } else {
                    let after = after.skip(" of rule '"@.len() as int);
                    match find_char(after, '\'') {
                        None => None,
                        Some(end) => Some(rule_kind(after.take(end))),
                    }
                }
            },
        }
    }
}

fn rule_kind_exec(name: Vec<char>) -> (r: PassKind)
    ensures
        r@ == rule_kind(name@),
{
    let pv = chars_of("pdflatex");
    if chars_eq(name.as_slice(), pv.as_slice()) {
        PassKind::Pdflatex
    } else if starts_with_str(name.as_slice(), "bibtex") {
        PassKind::Bibtex
    } else {
        PassKind::Other(string_of(name.as_slice()))
    }
}

pub open spec fn opt_pass(o: Option<PassKind>) -> Option<PassKindV> {
    match o {
        Some(k) => Some(k@),
        None => None,
    }
}

fn try_parse_pass_boundary(line: &[char]) -> (r: Option<PassKind>)
    ensures
        opt_pass(r) == pass_boundary(line@),
{
    let rv = chars_of("Run number ");
    if !starts_with_str(line, "Run number ") {
        return None;
    }
    let rest = skip(line, rv.len());
    let k = match find_nondigit(rest.as_slice()) {
        None => return None,
        Some(k) => k,
    };
    let after = skip(rest.as_slice(), k);
    let ov = chars_of(" of rule '");
    if !starts_with_str(after.as_slice(), " of rule '") {
        return None;
    }
    let after = skip(after.as_slice(), ov.len());
    match find_char_exec(after.as_slice(), '\'') {
        None => None,
        Some(end) => Some(rule_kind_exec(slice_of(after.as_slice(), 0, end))),
    }
}

/// An `Output written on <path> (...)` line: the path.
pub open spec fn pdf_built(line: Seq<char>) -> Option<Seq<char>> {
    if !has_prefix(line, "Output written on "@) {
        None
    } else {
        let rest = line.skip("Output written on "@.len() as int);
        match find(rest, " ("@) {
            None => None,
            Some(idx) => Some(rest.take(idx)),
        }
    }
}

fn try_parse_pdf_built(line: &[char]) -> (r: Option<Vec<char>>)
    ensures
        patterns::opt_chars(r) == pdf_built(line@),
{
    let ov = chars_of("Output written on ");
    if !starts_with_str(line, "Output written on ") {
        return None;
    }
    let rest = skip(line, ov.len());
    match find_str(rest.as_slice(), " (") {
        None => None,
        Some(idx) => Some(slice_of(rest.as_slice(), 0, idx)),
    }
}

/// The first index at or after `i` holding whitespace or `)`, or `s.len()`.
pub open spec fn format_end_from(s: Seq<char>, i: int) -> int
    decreases s.len() - i,
{
    if i < 0 || i >= s.len() {
        s.len() as int
    } else if is_ws(s[i]) || s[i] == ')' {
        i
    } else {
        format_end_from(s, i + 1)
    }
}

fn format_end(s: &[char]) -> (r: usize)
    ensures
        r == format_end_from(s@, 0),
        r <= s@.len(),
{
    let mut i: usize = 0;
    while i < s.len()
        invariant
            i <= s@.len(),
            format_end_from(s@, 0) == format_end_from(s@, i as int),
        decreases s@.len() - i,
    {
        if is_whitespace(s[i]) || s[i] == ')' {
            return i;
        }
        i = i + 1;
    }
    i
}

/// An engine banner `This is <Engine>, ...`: BibTeX's, or the pass named by
/// its `format=<name>` token, or else by the engine name up to the first
/// comma.
pub open spec fn engine_banner(line: Seq<char>) -> Option<PassKindV> {
    if !has_prefix(line, "This is "@) {
        None
    } else {
        let rest = line.skip("This is "@.len() as int);
        if has_prefix(rest, "BibTeX"@) {
            Some(PassKindV::Bibtex)
        } else {
            match find(rest, "format="@) {
                Some(idx) => {
                    let after = rest.skip(idx + "format="@.len());
                    let fmt = after.take(format_end_from(after, 0));
                    Some(
                        if fmt == "pdflatex"@ {
                            PassKindV::Pdflatex
                        } else {
                            PassKindV::Other(fmt)
                        },
                    )
                },
                None => {
                    let end = match find_char(rest, ',') {
                        Some(e) => e,
                        None => rest.len() as int,
                    };
                    Some(PassKindV::Other(rest.take(end)))
                },
            }
        }
    }
}

fn try_parse_engine_banner(line: &[char]) -> (r: Option<PassKind>)
    ensures
        opt_pass(r) == engine_banner(line@),
{
    let tv = chars_of("This is ");
    if !starts_with_str(line, "This is ") {
        return None;
    }
    let rest = skip(line, tv.len());
    if starts_with_str(rest.as_slice(), "BibTeX") {
        return Some(PassKind::Bibtex);
    }
    let fv = chars_of("format=");
    match find_str(rest.as_slice(), "format=") {
        Some(idx) => {
            let after = skip(rest.as_slice(), idx + fv.len());
            let end = format_end(after.as_slice());
            let fmt = slice_of(after.as_slice(), 0, end);
            let pv = chars_of("pdflatex");
            if chars_eq(fmt.as_slice(), pv.as_slice()) {
                Some(PassKind::Pdflatex)
            } else {
                Some(PassKind::Other(string_of(fmt.as_slice())))
            }
        },
        None => {
            let end = match find_char_exec(rest.as_slice(), ',') {
                Some(e) => e,
                None => rest.len(),
            };
            Some(PassKind::Other(string_of(slice_of(rest.as_slice(), 0, end).as_slice())))
        },
    }
}

// ---------------------------------------------------------------------
// Coordination
// ---------------------------------------------------------------------

/// The real files enclosing the current one, outermost first.
pub open spec fn ancestors(stack: Seq<Option<Seq<char>>>) -> Seq<Seq<char>> {
    if chain(stack).len() == 0 {
        Seq::empty()
    } else {
        chain(stack).drop_last()
    }
}

/// A matched message as an event: attributed to the file it carries, or
/// else to the innermost open file, with that file's ancestors.
pub open spec fn to_event(stack: Seq<Option<Seq<char>>>, r: RawV) -> EventV {
    EventV::Message(
        LogMessageV {
            kind: r.kind,
            text: r.text,
            file: match r.file_override {
                Some(f) => f,
                None => current(stack),
            },
            ancestors: match r.file_override {
                Some(_) => Seq::empty(),
                None => ancestors(stack),
            },
            line_range: r.line_range,
            page: r.page,
            context: r.context,
        },
    )
}

/// The state that logical lines drive: the file stack, the message
/// matcher, and whether a latexmk `Run number` line has been seen.
pub struct CoreV {
    pub stack: Seq<Option<Seq<char>>>,
    pub matcher: StateV,
    pub seen_run_number: bool,
}

/// The events of a sequence of matched messages, attributed with `stack`.
pub open spec fn events_of(stack: Seq<Option<Seq<char>>>, rs: Seq<RawV>) -> Seq<EventV> {
    rs.map_values(|r: RawV| to_event(stack, r))
}

/// One logical line. A pass boundary or PDF line is consumed on its own
/// (an engine banner counts as a boundary only until a latexmk `Run
/// number` line has been seen); any other line goes to the message matcher
/// first - so a message it completes is attributed to the files open
/// before the line - and then to the file stack.
pub open spec fn logical_step(c: CoreV, line: Seq<char>) -> (CoreV, Seq<EventV>) {
    match pass_boundary(line) {
        Some(k) => (CoreV { seen_run_number: true, ..c }, seq![EventV::PassBoundary(k)]),
        None => if !c.seen_run_number && engine_banner(line) is Some {
            (c, seq![EventV::PassBoundary(engine_banner(line)->0)])
        } else {
            match pdf_built(line) {
                Some(path) => (c, seq![EventV::PdfBuilt { path }]),
                None => {
                    let (m, rs) = message::feed_spec(c.matcher, line);
                    (
                        CoreV { stack: process(c.stack, line), matcher: m, ..c },
                        events_of(c.stack, rs),
                    )
                },
            }
        },
    }
}

/// Logical lines, one after the other.
pub open spec fn logical_steps(c: CoreV, lines: Seq<Seq<char>>) -> (CoreV, Seq<EventV>)
    decreases lines.len(),
{
    if lines.len() == 0 {
        (c, Seq::empty())
    } else {
        let (c1, e1) = logical_steps(c, lines.drop_last());
        let (c2, e2) = logical_step(c1, lines.last());
        (c2, e1 + e2)
    }
}

/// The whole parser state.
pub struct ParserV {
    pub pending: Option<Seq<char>>,
    pub core: CoreV,
}

/// One physical line: joined into logical lines, each of which is then
/// processed in turn.
pub open spec fn parser_feed(s: ParserV, raw_line: Seq<char>) -> (ParserV, Seq<EventV>) {
    let (pending, lines) = line_joiner::feed_spec(s.pending, raw_line);
    let (core, events) = logical_steps(s.core, lines);
    (ParserV { pending, core }, events)
}

/// The end of the input: the held-back fragment is processed, then the
/// message still in progress is completed.
pub open spec fn parser_finish(s: ParserV) -> (ParserV, Seq<EventV>) {
    let (core, events) = logical_steps(s.core, line_joiner::finish_spec(s.pending));
    let last = message::finish_spec(core.matcher);
    (
        ParserV { pending: None, core: CoreV { matcher: StateV::Idle, ..core } },
        events + events_of(core.stack, last),
    )
}

/// Coordinates [`LineJoiner`], [`FileStack`], and [`MessageMatcher`] into a
/// stream of [`Event`]s.
pub struct LogParser {
    joiner: LineJoiner,
    stack: FileStack,
    matcher: MessageMatcher,
    /// Once a latexmk `Run number` line has been seen, it is the
    /// authoritative pass-boundary signal for the rest of the stream, and
    /// engine banners (which always precede it in the same first pass under
    /// latexmk) are no longer treated as separate boundaries.
    seen_run_number: bool,
}

impl View for LogParser {
    type V = ParserV;

    closed spec fn view(&self) -> ParserV {
        ParserV {
            pending: self.joiner@,
            core: CoreV {
                stack: self.stack@,
                matcher: self.matcher@,
                seen_run_number: self.seen_run_number,
            },
        }
    }
}

impl LogParser {
    pub fn new() -> (p: Self)
        ensures
            p@ == (ParserV {
                pending: None,
                core: CoreV {
                    stack: Seq::empty(),
                    matcher: StateV::Idle,
                    seen_run_number: false,
                },
            }),
    {
        Self {
            joiner: LineJoiner::new(),
            stack: FileStack::new(),
            matcher: MessageMatcher::new(),
            seen_run_number: false,
        }
    }

    /// Feed one raw physical line; returns zero or more [`Event`]s.
    pub fn feed(&mut self, raw_line: &str) -> (out: Vec<Event>)
        ensures
            (final(self)@, events_view(out@)) == parser_feed(old(self)@, raw_line@),
    {
        let joined = self.joiner.feed(raw_line);
        let mut out: Vec<Event> = Vec::new();
        self.process_lines(&joined, &mut out);
        out
    }

    /// Flush any buffered state at EOF (line joiner + in-progress message).
    pub fn finish(&mut self) -> (out: Vec<Event>)
        ensures
            (final(self)@, events_view(out@)) == parser_finish(old(self)@),
    {
        let joined = self.joiner.finish();
        let mut out: Vec<Event> = Vec::new();
        self.process_lines(&joined, &mut out);
        let last = self.matcher.finish();
        self.push_events(last, &mut out);
        out
    }

    fn process_lines(&mut self, lines: &Vec<String>, out: &mut Vec<Event>)
        ensures
            final(self).joiner@ == old(self).joiner@,
            ({
                let (c, e) = logical_steps(old(self)@.core, lines.deep_view());
                final(self)@.core == c && events_view(final(out)@) == events_view(old(out)@) + e
            }),
    {
        let mut i: usize = 0;
        let ghost c0 = self@.core;
        let ghost o0 = events_view(out@);
        while i < lines.len()
            invariant
                i <= lines@.len(),
                self.joiner@ == old(self).joiner@,
                c0 == old(self)@.core,
                o0 == events_view(old(out)@),
                ({
                    let (c, e) = logical_steps(c0, lines.deep_view().take(i as int));
                    self@.core == c && events_view(out@) == o0 + e
                }),
            decreases lines@.len() - i,
        {
            let ghost pre = lines.deep_view().take(i + 1);
            assert(pre.drop_last() =~= lines.deep_view().take(i as int));
            assert(pre.last() == lines@[i as int]@);
            self.process_logical_line(lines[i].as_str(), out);
            proof {
                let (c1, e1) = logical_steps(c0, lines.deep_view().take(i as int));
                let (c2, e2) = logical_step(c1, lines@[i as int]@);
                assert(o0 + e1 + e2 =~= o0 + (e1 + e2));
            }
            i = i + 1;
        }
        assert(lines.deep_view().take(lines@.len() as int) =~= lines.deep_view());
    }

    fn process_logical_line(&mut self, line: &str, out: &mut Vec<Event>)
        ensures
            final(self).joiner@ == old(self).joiner@,
            ({
                let (c, e) = logical_step(old(self)@.core, line@);
                final(self)@.core == c && events_view(final(out)@) == events_view(old(out)@) + e
            }),
    {
        let lv = chars_of(line);
        if let Some(kind) = try_parse_pass_boundary(lv.as_slice()) {
            self.seen_run_number = true;
            push_event(out, Event::PassBoundary(kind));
            return;
        }
        if !self.seen_run_number {
            if let Some(kind) = try_parse_engine_banner(lv.as_slice()) {
                push_event(out, Event::PassBoundary(kind));
                return;
            }
        }
        if let Some(path) = try_parse_pdf_built(lv.as_slice()) {
            push_event(out, Event::PdfBuilt { path: string_of(path.as_slice()) });
            return;
        }
        let raws_out = self.matcher.feed(line);
        self.push_events(raws_out, out);
        self.stack.process_line(line);
    }

    /// Appends the events of `rs`, attributed with the current stack.
    fn push_events(&self, rs: Vec<RawMessage>, out: &mut Vec<Event>)
        ensures
            events_view(final(out)@) == events_view(old(out)@) + events_of(self.stack@, raws(rs@)),
    {
        let ghost o0 = events_view(out@);
        let mut rs = rs;
        let ghost r0 = rs@;
        let mut produced: Vec<Event> = Vec::new();
        while rs.len() > 0
            invariant
                events_view(produced@) == events_of(self.stack@, raws(r0.take(r0.len() - rs@.len()))),
                rs@.len() <= r0.len(),
                rs@ == r0.skip(r0.len() - rs@.len()),
            decreases rs@.len(),
        {
            let r = rs.remove(0);
            let ghost k = r0.len() - rs@.len() - 1;
            let ghost before = events_view(produced@);
            produced.push(self.to_event(r));
            proof {
                assert(r0.take(k + 1) =~= r0.take(k).push(r0[k]));
                assert(raws(r0.take(k + 1)) =~= raws(r0.take(k)).push(r0[k]@));
                assert(events_view(produced@) =~= before.push(to_event(self.stack@, r0[k]@)));
                assert(events_of(self.stack@, raws(r0.take(k + 1))) =~= events_of(
                    self.stack@,
                    raws(r0.take(k)),
                ).push(to_event(self.stack@, r0[k]@)));
                assert(rs@ =~= r0.skip(r0.len() - rs@.len()));
            }
        }
        assert(r0.take(r0.len() as int) =~= r0);
        let ghost p = events_view(produced@);
        out.append(&mut produced);
        assert(events_view(out@) =~= o0 + p);
    }

    /// A matched message as an event.
    fn to_event(&self, r: RawMessage) -> (e: Event)
        ensures
            e@ == to_event(self.stack@, r@),
    {
        let ghost rv = r@;
        let (file, encl) = match r.file_override {
            Some(f) => (f, empty_strings()),
            None => {
                let mut chain = self.stack.file_chain();
                let ghost c = chain.deep_view();
                if chain.len() > 0 {
                    chain.pop();
                    assert(chain.deep_view() =~= c.drop_last());
                }
                proof {
                    crate::parser::file_stack::law_current_file_is_innermost_of_chain(self.stack@);
                }
                (self.stack.current_file().to_owned(), chain)
            },
        };
        assert(file@ == (match rv.file_override {
            Some(f) => f,
            None => current(self.stack@),
        }));
        assert(encl.deep_view() == (match rv.file_override {
            Some(_) => Seq::<Seq<char>>::empty(),
            None => ancestors(self.stack@),
        }));
        Event::Message(
            LogMessage {
                kind: r.kind,
                text: r.text,
                file,
                ancestors: encl,
                line_range: r.line_range,
                page: r.page,
                context: r.context,
            },
        )
    }
}

fn empty_strings() -> (v: Vec<String>)
    ensures
        v.deep_view() == Seq::<Seq<char>>::empty(),
{
    let v: Vec<String> = Vec::new();
    assert(v.deep_view() =~= Seq::<Seq<char>>::empty());
    v
}

fn push_event(out: &mut Vec<Event>, e: Event)
    ensures
        events_view(final(out)@) == events_view(old(out)@) + seq![e@],
{
    let ghost o0 = events_view(out@);
    out.push(e);
    assert(events_view(out@) =~= o0 + seq![e@]);
}


// ---------------------------------------------------------------------
// Laws
// ---------------------------------------------------------------------

/// Pass boundaries and PDF lines are consumed on their own: they never
/// reach the file stack or the message matcher, and yield exactly one
/// event.
pub proof fn law_boundary_lines_do_not_reach_stack_or_matcher(c: CoreV, line: Seq<char>)
    requires
        pass_boundary(line) is Some || (!c.seen_run_number && engine_banner(line) is Some)
            || pdf_built(line) is Some,
    ensures
        logical_step(c, line).0.stack == c.stack,
        logical_step(c, line).0.matcher == c.matcher,
        logical_step(c, line).1.len() == 1,
        !(logical_step(c, line).1[0] is Message),
{
}

/// Once a latexmk `Run number` line has been seen, an engine banner is no
/// longer a pass boundary: only `Run number` lines are.
pub proof fn law_banner_ignored_after_run_number(c: CoreV, line: Seq<char>)
    requires
        c.seen_run_number,
        pass_boundary(line) is None,
    ensures
        forall|i: int|
            0 <= i < logical_step(c, line).1.len() ==> !(#[trigger] logical_step(c, line).1[i] is PassBoundary),
        logical_step(c, line).0.seen_run_number,
{
}

/// A message completed by a line is attributed to the files open before
/// that line (a file the line itself opens or closes does not count):
/// to the file the message names, or else to the innermost open file,
/// under that file's ancestors.
pub proof fn law_messages_use_the_stack_before_the_line(c: CoreV, line: Seq<char>)
    requires
        pass_boundary(line) is None,
        c.seen_run_number || engine_banner(line) is None,
        pdf_built(line) is None,
    ensures
        ({
            let rs = message::feed_spec(c.matcher, line).1;
            let es = logical_step(c, line).1;
            &&& es.len() == rs.len()
            &&& forall|i: int|
                0 <= i < es.len() ==> (#[trigger] es[i]) == EventV::Message(
                    LogMessageV {
                        kind: rs[i].kind,
                        text: rs[i].text,
                        file: match rs[i].file_override {
                            Some(f) => f,
                            None => current(c.stack),
                        },
                        ancestors: match rs[i].file_override {
                            Some(_) => Seq::empty(),
                            None => ancestors(c.stack),
                        },
                        line_range: rs[i].line_range,
                        page: rs[i].page,
                        context: rs[i].context,
                    },
                )
        }),
        logical_step(c, line).0.stack == process(c.stack, line),
{
}


/// A latexmk `Run number N of rule '<name>'` line names its pass after the
/// rule: `pdflatex` is the pdflatex pass, a rule starting with `bibtex` a
/// BibTeX pass, and any other rule (`lualatex`, `xelatex`, ...) a pass of
/// its own name - so the separator's label is the rule's name, except
/// that every BibTeX rule is labelled `bibtex`.
pub proof fn law_run_number_line_names_its_pass(n: u32, name: Seq<char>, rest: Seq<char>)
    requires
        !name.contains('\''),
    ensures
        ({
            let line = "Run number "@ + crate::text::dec(n as nat) + " of rule '"@ + name + "'"@ + rest;
            let expected = if name == "pdflatex"@ {
                PassKindV::Pdflatex
            } else if has_prefix(name, "bibtex"@) {
                PassKindV::Bibtex
            } else {
                PassKindV::Other(name)
            };
            &&& pass_boundary(line) == Some(expected)
            &&& crate::output::colored::pass_label(expected) == (if has_prefix(name, "bibtex"@) {
                "bibtex"@
            } else {
                name
            })
        }),
{
    reveal_strlit("Run number ");
    reveal_strlit(" of rule '");
    reveal_strlit("'");
    let d = crate::text::dec(n as nat);
    crate::text::lemma_dec_reads_back(n as nat);
    let line = "Run number "@ + d + " of rule '"@ + name + "'"@ + rest;
    assert(line.take(11) =~= "Run number "@);
    let r = line.skip(11);
    assert(r =~= d + " of rule '"@ + name + "'"@ + rest);
    crate::text::lemma_nondigit_from_bounds(r, 0);
    assert forall|j: int| 0 <= j < d.len() implies crate::text::is_digit(#[trigger] r[j]) by {
        assert(r[j] == d[j]);
    }
    assert(r[d.len() as int] == ' ');
    assert(nondigit_from(r, 0) == Some(d.len() as int));
    let after = r.skip(d.len() as int);
    assert(after =~= " of rule '"@ + name + "'"@ + rest);
    assert(after.take(10) =~= " of rule '"@);
    let after2 = after.skip(10);
    assert(after2 =~= name + "'"@ + rest);
    crate::text::lemma_char_from_bounds(after2, '\'', 0);
    assert forall|j: int| 0 <= j < name.len() implies after2[j] != '\'' by {
        assert(after2[j] == name[j]);
        if name[j] == '\'' {
            assert(name.contains('\''));
        }
    }
    assert(after2[name.len() as int] == '\'');
    assert(find_char(after2, '\'') == Some(name.len() as int));
    assert(after2.take(name.len() as int) =~= name);
    assert(has_prefix(line, "Run number "@));
    assert(has_prefix(after, " of rule '"@));
    assert(pass_boundary(line) == Some(rule_kind(name)));
    reveal_strlit("pdflatex");
    reveal_strlit("bibtex");
    if name == "pdflatex"@ {
        assert(!has_prefix(name, "bibtex"@)) by {
            assert(name[0] == 'p');
            if has_prefix(name, "bibtex"@) {
                assert(name.take(6)[0] == name[0]);
            }
        }
    }
}

} // verus!
