use texsift::parser::LogParser;
use texsift::{Event, MessageKind, PassKind};

fn run(lines: &[&str]) -> Vec<Event> {
    let mut p = LogParser::new();
    let mut out = Vec::new();
    for line in lines {
        out.extend(p.feed(line));
    }
    out.extend(p.finish());
    out
}

#[test]
fn attaches_file_from_stack_and_tracks_nesting() {
    let events = run(&[
        "(./intro.tex",
        "Package examplepkg Warning: Citation `citekey1' undefined on input line 8.",
        "(./sub.tex",
        "Overfull \\hbox (53.3pt too wide) in paragraph at lines 2--3",
        ")",
        ")",
    ]);
    assert_eq!(events.len(), 2);
    match &events[0] {
        Event::Message(m) => {
            assert_eq!(m.file, "./intro.tex");
            assert_eq!(m.kind, MessageKind::PackageWarning { package: "examplepkg".to_string() });
        }
        _ => panic!("expected message"),
    }
    match &events[1] {
        Event::Message(m) => {
            assert_eq!(m.file, "./sub.tex");
            assert!(matches!(m.kind, MessageKind::OverfullHbox { .. }));
        }
        _ => panic!("expected message"),
    }
}

#[test]
fn pass_boundary_and_pdf_built_do_not_reach_file_stack_or_messages() {
    let events = run(&[
        "Run number 1 of rule 'pdflatex'",
        "(./main.tex",
        "Output written on build/main.pdf (3 pages, 1000 bytes).",
        "Run number 1 of rule 'bibtex build/main'",
        "Run number 2 of rule 'sometool'",
    ]);
    assert_eq!(
        events,
        vec![
            Event::PassBoundary(PassKind::Pdflatex),
            Event::PdfBuilt { path: "build/main.pdf".to_string() },
            Event::PassBoundary(PassKind::Bibtex),
            Event::PassBoundary(PassKind::Other("sometool".to_string())),
        ]
    );
}

#[test]
fn engine_banner_is_pass_boundary_when_no_latexmk_wrapper() {
    let events =
        run(&["This is LuaHBTeX, Version 1.24.0 (TeX Live 2026)  (format=lualatex 2026.5.19)  1 JAN 2026"]);
    assert_eq!(events, vec![Event::PassBoundary(PassKind::Other("lualatex".to_string()))]);
}

#[test]
fn engine_banner_is_ignored_once_a_run_number_line_is_seen() {
    let events = run(&[
        "Run number 1 of rule 'pdflatex'",
        "This is pdfTeX, Version 3.14 (TeX Live 2025) (preloaded format=pdflatex)",
    ]);
    assert_eq!(events, vec![Event::PassBoundary(PassKind::Pdflatex)]);
}

#[test]
fn gcc_style_error_file_override_beats_stack() {
    let events = run(&[
        "(./main.tex",
        "(./chapters/intro.tex",
        "./chapters/intro.tex:42: Package examplepkg Error: Unknown option `foo'.",
    ]);
    match &events[0] {
        Event::Message(m) => assert_eq!(m.file, "./chapters/intro.tex"),
        _ => panic!("expected message"),
    }
}

#[test]
fn fatal_error_is_attributed_to_the_file_open_when_it_occurred_not_a_later_reopen() {
    let events = run(&[
        "(./main.tex",
        "!  ==> Fatal error occurred, no output PDF file produced!",
        "Transcript written on main.log.",
        "Latexmk: applying rule 'lualatex'...",
        "(./main.tex",
        "(/usr/local/texlive/2026/texmf-dist/tex/latex/examplecls/examplecls.cls",
        "Document Class: examplecls 2026/02/02 v3.49.2 Example document class",
    ]);
    let fatal = events
        .iter()
        .find_map(|e| match e {
            Event::Message(m) if m.text.contains("Fatal error occurred") => Some(m),
            _ => None,
        })
        .expect("fatal error message");
    assert_eq!(fatal.file, "./main.tex");
    assert!(fatal.context.is_empty());
}

// ---- further cases ----

#[test]
fn message_carries_the_ancestors_of_its_file() {
    let events = run(&[
        "(./main.tex",
        "(see manual)",
        "(./wrapper.tex (./sub.tex",
        "Package examplepkg Warning: Something on input line 2.",
    ]);
    match &events[0] {
        Event::Message(m) => {
            assert_eq!(m.file, "./sub.tex");
            assert_eq!(m.ancestors, vec!["./main.tex".to_string(), "./wrapper.tex".to_string()]);
            assert_eq!(m.line_range, Some((2, 2)));
        }
        _ => panic!("expected message"),
    }
}

#[test]
fn message_with_its_own_file_has_no_ancestors() {
    let events = run(&[
        "(./main.tex",
        "(./chapters/intro.tex",
        "./chapters/intro.tex:42: Package examplepkg Error: Unknown option `foo'.",
    ]);
    match &events[0] {
        Event::Message(m) => assert!(m.ancestors.is_empty()),
        _ => panic!("expected message"),
    }
}

#[test]
fn message_outside_any_file_has_an_empty_file() {
    let events = run(&["warning  (pdf backend): unreferenced destination with name 'x'"]);
    match &events[0] {
        Event::Message(m) => {
            assert_eq!(m.file, "");
            assert!(m.ancestors.is_empty());
        }
        _ => panic!("expected message"),
    }
}

#[test]
fn wrapped_warning_is_rejoined_before_matching() {
    let first = "Package natbib Warning: Citation `averyveryverylongcitationkey' on page 1 undefi";
    assert_eq!(first.chars().count(), 80);
    let events = run(&["(./main.tex", first, "ned on input line 8.", ""]);
    assert_eq!(events.len(), 1);
    match &events[0] {
        Event::Message(m) => {
            assert_eq!(m.text, "Citation `averyveryverylongcitationkey' undefined");
            assert_eq!(m.line_range, Some((8, 8)));
            assert_eq!(m.page, Some(1));
            assert_eq!(m.file, "./main.tex");
        }
        _ => panic!("expected message"),
    }
}

#[test]
fn bibtex_banner_is_a_bibtex_pass() {
    let events = run(&["This is BibTeX, Version 0.99d (TeX Live 2025)"]);
    assert_eq!(events, vec![Event::PassBoundary(PassKind::Bibtex)]);
}
