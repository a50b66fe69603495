//! Which diagnostics reach the renderer, and the rendering options the
//! command line settles before the log is read.
use vstd::prelude::*;

use crate::model::entry::{events_view, kind_category};
use crate::model::{Category, Event, EventV, KindV, MessageKind};
use crate::output::colored::{handle_spec, Renderer, RendererV};
use crate::parser::{parser_feed, parser_finish, LogParser};
use crate::text::{chars_eq, chars_of, seqs, split_on, split_on_exec, string_of};

verus! {

/// What `--no-warn` hides: nothing, every warning, or the warnings of the
/// packages it names.
pub enum WarnFilter {
    ShowAll,
    HideAll,
    HidePackages(Vec<String>),
}

pub enum WarnFilterV {
    ShowAll,
    HideAll,
    HidePackages(Seq<Seq<char>>),
}

impl View for WarnFilter {
    type V = WarnFilterV;

    open spec fn view(&self) -> WarnFilterV {
        match self {
            WarnFilter::ShowAll => WarnFilterV::ShowAll,
            WarnFilter::HideAll => WarnFilterV::HideAll,
            WarnFilter::HidePackages(names) => WarnFilterV::HidePackages(names.deep_view()),
        }
    }
}

/// A package name as the command line writes it: each space becomes a
/// dash, so the engine's `pdf backend` is named `pdf-backend`.
pub open spec fn flag_name(package: Seq<char>) -> Seq<char> {
    Seq::new(package.len(), |i: int| if package[i] == ' ' { '-' } else { package[i] })
}

/// The pieces that are not empty, in order.
pub open spec fn nonempty(ps: Seq<Seq<char>>) -> Seq<Seq<char>>
    decreases ps.len(),
{
    if ps.len() == 0 {
        Seq::empty()
    } else if ps.last().len() == 0 {
        nonempty(ps.drop_last())
    } else {
        nonempty(ps.drop_last()).push(ps.last())
    }
}

/// The package names of a comma-separated `--no-warn` list.
pub open spec fn package_list(list: Seq<char>) -> Seq<Seq<char>> {
    nonempty(split_on(list, ','))
}

/// Whether the filter hides a warning of kind `k`.
pub open spec fn warning_hidden(k: KindV, f: WarnFilterV) -> bool {
    match f {
        WarnFilterV::ShowAll => false,
        WarnFilterV::HideAll => true,
        WarnFilterV::HidePackages(names) => match k {
            KindV::PackageWarning { package } => names.contains(flag_name(package)),
            _ => false,
        },
    }
}

/// Errors always show; box diagnostics unless `--no-boxes`; warnings
/// unless the filter hides them.
pub open spec fn shown(k: KindV, f: WarnFilterV, no_boxes: bool) -> bool {
    match kind_category(k) {
        Category::Error => true,
        Category::OverfullBox | Category::UnderfullBox => !no_boxes,
        Category::Warning => !warning_hidden(k, f),
    }
}

/// Pass separators and PDF lines always show; a message as [`shown`] says.
pub open spec fn event_shown(e: EventV, f: WarnFilterV, no_boxes: bool) -> bool {
    match e {
        EventV::Message(m) => shown(m.kind, f, no_boxes),
        _ => true,
    }
}

/// The renderer after an event, if it is shown; unchanged otherwise (a
/// hidden message is not counted in the summary either).
pub open spec fn dispatch_spec(r: RendererV, e: EventV, f: WarnFilterV, no_boxes: bool) -> RendererV {
    if event_shown(e, f, no_boxes) {
        handle_spec(r, e)
    } else {
        r
    }
}

/// Events dispatched one after the other.
pub open spec fn dispatch_all_spec(
    r: RendererV,
    es: Seq<EventV>,
    f: WarnFilterV,
    no_boxes: bool,
) -> RendererV
    decreases es.len(),
{
    if es.len() == 0 {
        r
    } else {
        dispatch_spec(dispatch_all_spec(r, es.drop_last(), f, no_boxes), es.last(), f, no_boxes)
    }
}

/// `--width`: the given width unless it is absent or zero, else the
/// terminal's width when there is a terminal, else 80 columns.
pub open spec fn resolved_width(flag: Option<usize>, terminal: Option<usize>) -> usize {
    if flag is Some && flag->0 != 0 {
        flag->0
    } else if terminal is Some {
        terminal->0
    } else {
        80
    }
}

impl WarnFilter {
    /// The filter of `--no-warn=<list>`: hides the warnings of each package
    /// named in the comma-separated list (empty names are skipped).
    pub fn from_list(list: &str) -> (f: WarnFilter)
        ensures
            f@ == WarnFilterV::HidePackages(package_list(list@)),
    {
        let chars = chars_of(list);
        let pieces = split_on_exec(chars.as_slice(), ',');
        let ghost ps = seqs(pieces@);
        let mut names: Vec<String> = Vec::new();
        let mut i: usize = 0;
        assert(names.deep_view() =~= nonempty(ps.take(0)));
        while i < pieces.len()
            invariant
                i <= pieces@.len(),
                ps == seqs(pieces@),
                names.deep_view() == nonempty(ps.take(i as int)),
            decreases pieces@.len() - i,
        {
            let ghost pre = ps.take(i + 1);
            assert(pre.drop_last() =~= ps.take(i as int));
            assert(pre.last() == pieces@[i as int]@);
            if pieces[i].len() > 0 {
                let ghost before = names.deep_view();
                let name = string_of(pieces[i].as_slice());
                names.push(name);
                assert(names.deep_view() =~= before.push(pieces@[i as int]@));
            }
            i = i + 1;
        }
        assert(ps.take(pieces@.len() as int) =~= ps);
        WarnFilter::HidePackages(names)
    }
}

fn flag_name_exec(package: &str) -> (r: Vec<char>)
    ensures
        r@ == flag_name(package@),
{
    let cs = chars_of(package);
    let mut r: Vec<char> = Vec::new();
    let mut i: usize = 0;
    while i < cs.len()
        invariant
            i <= cs@.len(),
            cs@ == package@,
            r@ == flag_name(package@).take(i as int),
        decreases cs@.len() - i,
    {
        let c = cs[i];
        r.push(
            if c == ' ' {
                '-'
            } else {
                c
            },
        );
        assert(r@ =~= flag_name(package@).take(i + 1));
        i = i + 1;
    }
    assert(r@ =~= flag_name(package@));
    r
}

fn names_contain(names: &Vec<String>, name: &[char]) -> (r: bool)
    ensures
        r == names.deep_view().contains(name@),
{
    let mut i: usize = 0;
    while i < names.len()
        invariant
            i <= names@.len(),
            forall|j: int| 0 <= j < i ==> names.deep_view()[j] != name@,
        decreases names@.len() - i,
    {
        let cs = chars_of(names[i].as_str());
        if chars_eq(cs.as_slice(), name) {
            assert(names.deep_view()[i as int] == name@);
            return true;
        }
        i = i + 1;
    }
    assert(!names.deep_view().contains(name@)) by {
        if names.deep_view().contains(name@) {
            let j = choose|j: int| 0 <= j < names.deep_view().len() && names.deep_view()[j] == name@;
            assert(names.deep_view()[j] != name@);
        }
    }
    false
}

fn warning_hidden_exec(kind: &MessageKind, filter: &WarnFilter) -> (r: bool)
    ensures
        r == warning_hidden(kind@, filter@),
{
    match filter {
        WarnFilter::ShowAll => false,
        WarnFilter::HideAll => true,
        WarnFilter::HidePackages(names) => match kind {
            MessageKind::PackageWarning { package } => {
                let f = flag_name_exec(package.as_str());
                names_contain(names, f.as_slice())
            },
            _ => false,
        },
    }
}

/// Whether a diagnostic of this kind is shown, given `--no-warn` and
/// `--no-boxes`.
pub fn should_show(kind: &MessageKind, filter: &WarnFilter, no_boxes: bool) -> (r: bool)
    ensures
        r == shown(kind@, filter@, no_boxes),
{
    match kind.category() {
        Category::Error => true,
        Category::OverfullBox | Category::UnderfullBox => !no_boxes,
        Category::Warning => !warning_hidden_exec(kind, filter),
    }
}

/// Hands an event to the renderer unless the filters hide it.
pub fn dispatch(event: Event, renderer: &mut Renderer, filter: &WarnFilter, no_boxes: bool)
    ensures
        final(renderer)@ == dispatch_spec(old(renderer)@, event@, filter@, no_boxes),
{
    if let Event::Message(m) = &event {
        if !should_show(&m.kind, filter, no_boxes) {
            return ;
        }
    }
    renderer.handle(event);
}

/// Dispatches events in order.
pub fn dispatch_all(
    events: Vec<Event>,
    renderer: &mut Renderer,
    filter: &WarnFilter,
    no_boxes: bool,
)
    ensures
        final(renderer)@ == dispatch_all_spec(
            old(renderer)@,
            events_view(events@),
            filter@,
            no_boxes,
        ),
{
    let mut es = events;
    let ghost e0 = es@;
    let ghost r0 = renderer@;
    while es.len() > 0
        invariant
            es@.len() <= e0.len(),
            es@ == e0.skip(e0.len() - es@.len()),
            renderer@ == dispatch_all_spec(
                r0,
                events_view(e0.take(e0.len() - es@.len())),
                filter@,
                no_boxes,
            ),
        decreases es@.len(),
    {
        let e = es.remove(0);
        let ghost k = e0.len() - es@.len() - 1;
        proof {
            assert(e0.take(k + 1) =~= e0.take(k).push(e0[k]));
            assert(events_view(e0.take(k + 1)) =~= events_view(e0.take(k)).push(e0[k]@));
            assert(es@ =~= e0.skip(e0.len() - es@.len()));
            let s1 = events_view(e0.take(k + 1));
            assert(s1.drop_last() =~= events_view(e0.take(k)));
            assert(s1.last() == e@);
        }
        dispatch(e, renderer, filter, no_boxes);
    }
    assert(e0.take(e0.len() as int) =~= e0);
}

/// One physical line of the log: parsed, and each resulting event
/// dispatched.
pub fn sift_line(
    parser: &mut LogParser,
    renderer: &mut Renderer,
    line: &str,
    filter: &WarnFilter,
    no_boxes: bool,
)
    ensures
        ({
            let (p, es) = parser_feed(old(parser)@, line@);
            final(parser)@ == p && final(renderer)@ == dispatch_all_spec(
                old(renderer)@,
                es,
                filter@,
                no_boxes,
            )
        }),
{
    let events = parser.feed(line);
    dispatch_all(events, renderer, filter, no_boxes);
}

/// The end of the log: the parser's remaining events, dispatched.
pub fn sift_finish(parser: &mut LogParser, renderer: &mut Renderer, filter: &WarnFilter, no_boxes: bool)
    ensures
        ({
            let (p, es) = parser_finish(old(parser)@);
            final(parser)@ == p && final(renderer)@ == dispatch_all_spec(
                old(renderer)@,
                es,
                filter@,
                no_boxes,
            )
        }),
{
    let events = parser.finish();
    dispatch_all(events, renderer, filter, no_boxes);
}

/// The width to lay out for: `flag` (from `--width`) unless it is absent
/// or zero, else `terminal` (the detected terminal width), else 80.
pub fn resolve_width(flag: Option<usize>, terminal: Option<usize>) -> (w: usize)
    ensures
        w == resolved_width(flag, terminal),
{
    match flag {
        Some(n) if n != 0 => n,
        _ => match terminal {
            Some(t) => t,
            None => 80,
        },
    }
}


// ---------------------------------------------------------------------
// Laws
// ---------------------------------------------------------------------

/// Errors are always shown, whatever the flags.
pub proof fn law_errors_are_always_shown(k: KindV, f: WarnFilterV, no_boxes: bool)
    requires
        kind_category(k) == Category::Error,
    ensures
        shown(k, f, no_boxes),
{
}

/// A bare `--no-warn` hides every warning, and nothing else.
pub proof fn law_bare_no_warn_hides_every_warning(k: KindV, no_boxes: bool)
    ensures
        shown(k, WarnFilterV::HideAll, no_boxes) <==> (kind_category(k) != Category::Warning
            && shown(k, WarnFilterV::ShowAll, no_boxes)),
{
}

/// `--no-warn=<list>` hides exactly the package warnings whose package is
/// named in the list; every other diagnostic is shown as without it.
pub proof fn law_package_list_hides_only_its_packages(k: KindV, list: Seq<char>, no_boxes: bool)
    ensures
        shown(k, WarnFilterV::HidePackages(package_list(list)), no_boxes) <==> (shown(
            k,
            WarnFilterV::ShowAll,
            no_boxes,
        ) && !(k matches KindV::PackageWarning { package } && package_list(list).contains(
            flag_name(package),
        ))),
{
}

/// A hidden message leaves the renderer exactly as it was: nothing is
/// laid out, and it is not counted in the summary.
pub proof fn law_hidden_message_changes_nothing(
    r: RendererV,
    m: crate::model::LogMessageV,
    f: WarnFilterV,
    no_boxes: bool,
)
    requires
        !shown(m.kind, f, no_boxes),
    ensures
        dispatch_spec(r, EventV::Message(m), f, no_boxes) == r,
{
}

/// `--width=0` means the same as no `--width` at all.
pub proof fn law_zero_width_means_unset(terminal: Option<usize>)
    ensures
        resolved_width(Some(0), terminal) == resolved_width(None, terminal),
{
}


/// With no `--no-warn` and no `--no-boxes`, every diagnostic is shown;
/// with `--no-boxes` alone, every one but the box diagnostics.
pub proof fn law_no_flags_show_everything(k: KindV)
    ensures
        shown(k, WarnFilterV::ShowAll, false),
        shown(k, WarnFilterV::ShowAll, true) <==> !(k is OverfullHbox || k is OverfullVbox
            || k is UnderfullHbox),
{
}

/// A package list hides package warnings only: every other kind is shown
/// as it is without the list.
pub proof fn law_package_list_hides_package_warnings_only(
    k: KindV,
    names: Seq<Seq<char>>,
    no_boxes: bool,
)
    requires
        !(k is PackageWarning),
    ensures
        shown(k, WarnFilterV::HidePackages(names), no_boxes) <==> (!no_boxes || !(k is OverfullHbox
            || k is OverfullVbox || k is UnderfullHbox)),
{
}

} // verus!
