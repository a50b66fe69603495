use texsift::filter::{dispatch, resolve_width, should_show, sift_finish, sift_line, WarnFilter};
use texsift::output::{RenderOptions, Renderer};
use texsift::parser::LogParser;
use texsift::{Event, LogMessage, MessageKind};

fn pkg_warning(package: &str) -> MessageKind {
    MessageKind::PackageWarning { package: package.to_string() }
}

fn message(kind: MessageKind) -> Event {
    Event::Message(LogMessage {
        kind,
        text: "t".to_string(),
        file: "./a.tex".to_string(),
        ancestors: vec![],
        line_range: None,
        page: None,
        context: vec![],
    })
}

fn opts() -> RenderOptions {
    RenderOptions { ascii: true, color: false, width: 40 }
}

#[test]
fn errors_show_under_every_filter() {
    for f in [WarnFilter::ShowAll, WarnFilter::HideAll, WarnFilter::from_list("LaTeX")] {
        assert!(should_show(&MessageKind::LatexError, &f, true));
        assert!(should_show(&MessageKind::PackageError { package: "LaTeX".to_string() }, &f, true));
    }
}

#[test]
fn no_boxes_hides_box_diagnostics_only() {
    let f = WarnFilter::ShowAll;
    assert!(!should_show(&MessageKind::OverfullHbox { pt: "1.0".to_string() }, &f, true));
    assert!(!should_show(&MessageKind::OverfullVbox { pt: "1.0".to_string() }, &f, true));
    assert!(!should_show(&MessageKind::UnderfullHbox { badness: 10000 }, &f, true));
    assert!(should_show(&MessageKind::UnderfullHbox { badness: 10000 }, &f, false));
    assert!(should_show(&pkg_warning("x"), &f, true));
}

#[test]
fn bare_no_warn_hides_every_warning_kind() {
    let f = WarnFilter::HideAll;
    assert!(!should_show(&pkg_warning("x"), &f, false));
    assert!(!should_show(&MessageKind::BibtexWarning, &f, false));
    assert!(!should_show(&MessageKind::MissingChar, &f, false));
    assert!(!should_show(&MessageKind::ShowOutput { command: "\\x".to_string() }, &f, false));
    assert!(should_show(&MessageKind::OverfullHbox { pt: "1.0".to_string() }, &f, false));
}

#[test]
fn package_list_matches_names_with_dashes_for_spaces() {
    let f = WarnFilter::from_list("pdf-backend,LaTeX");
    assert!(!should_show(&pkg_warning("pdf backend"), &f, false));
    assert!(!should_show(&pkg_warning("LaTeX"), &f, false));
    assert!(should_show(&pkg_warning("scrbook"), &f, false));
    assert!(should_show(&pkg_warning("pdf"), &f, false));
    assert!(should_show(&MessageKind::BibtexWarning, &f, false));
}

#[test]
fn package_list_skips_empty_names() {
    let f = WarnFilter::from_list(",natbib,,");
    match &f {
        WarnFilter::HidePackages(names) => assert_eq!(names, &vec!["natbib".to_string()]),
        _ => panic!("expected a package list"),
    }
    assert!(!should_show(&pkg_warning("natbib"), &f, false));
}

#[test]
fn hidden_message_is_neither_printed_nor_counted() {
    let mut r = Renderer::new(opts());
    dispatch(message(pkg_warning("natbib")), &mut r, &WarnFilter::HideAll, false);
    assert_eq!(r.flush(), "");
    r.render_summary();
    assert!(r.flush().contains("0 errors · 0 warnings"));
}

#[test]
fn shown_message_is_printed_and_counted() {
    let mut r = Renderer::new(opts());
    dispatch(message(pkg_warning("natbib")), &mut r, &WarnFilter::ShowAll, false);
    assert_eq!(r.flush(), "./a.tex\n  ! Package natbib: t\n");
    r.render_summary();
    assert!(r.flush().contains("0 errors · 1 warnings"));
}

#[test]
fn sifting_a_log_filters_its_warnings() {
    let mut p = LogParser::new();
    let mut r = Renderer::new(opts());
    let f = WarnFilter::from_list("natbib");
    for line in [
        "(./main.tex",
        "Package natbib Warning: Citation `k' undefined on input line 3.",
        "LaTeX Warning: Reference `r' undefined on input line 4.",
    ] {
        sift_line(&mut p, &mut r, line, &f, false);
    }
    sift_finish(&mut p, &mut r, &f, false);
    assert_eq!(r.flush(), "./main.tex\n  ! LaTeX: Reference `r' undefined  (line 4)\n");
}

#[test]
fn width_flag_zero_falls_back_like_no_flag() {
    assert_eq!(resolve_width(Some(0), Some(120)), 120);
    assert_eq!(resolve_width(None, Some(120)), 120);
    assert_eq!(resolve_width(Some(0), None), 80);
    assert_eq!(resolve_width(None, None), 80);
    assert_eq!(resolve_width(Some(40), Some(120)), 40);
}
