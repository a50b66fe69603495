use texsift::parser::message::{MessageMatcher, RawMessage};
use texsift::parser::patterns::try_parse_line_marker;
use texsift::MessageKind;

fn feed_all(lines: &[&str]) -> Vec<RawMessage> {
    let mut m = MessageMatcher::new();
    let mut out = Vec::new();
    for line in lines {
        out.extend(m.feed(line));
    }
    out.extend(m.finish());
    out
}

fn points(pt: &str) -> f64 {
    pt.parse::<f64>().unwrap()
}

#[test]
fn package_warning_with_line_and_page() {
    let msgs = feed_all(&["Package examplepkg Warning: Citation `citekey1' on page 1 undefined on input line 8."]);
    assert_eq!(msgs.len(), 1);
    assert_eq!(msgs[0].kind, MessageKind::PackageWarning { package: "examplepkg".to_string() });
    assert_eq!(msgs[0].text, "Citation `citekey1' undefined");
    assert_eq!(msgs[0].line_range, Some((8, 8)));
    assert_eq!(msgs[0].page, Some(1));
}

#[test]
fn class_warning_matches_same_shape() {
    let msgs = feed_all(&["Class examplecls Warning: Something happened on input line 3."]);
    assert_eq!(msgs[0].kind, MessageKind::PackageWarning { package: "examplecls".to_string() });
    assert_eq!(msgs[0].text, "Something happened");
    assert_eq!(msgs[0].line_range, Some((3, 3)));
}

#[test]
fn catch_all_latex_warning() {
    let msgs = feed_all(&["LaTeX Warning: Reference `ex:foo' undefined on input line 13 on page 1."]);
    assert_eq!(msgs[0].kind, MessageKind::PackageWarning { package: "LaTeX".to_string() });
    assert_eq!(msgs[0].text, "Reference `ex:foo' undefined");
    assert_eq!(msgs[0].line_range, Some((13, 13)));
    assert_eq!(msgs[0].page, Some(1));
}

#[test]
fn engine_warning_with_engine_prefix() {
    let msgs = feed_all(&["pdfTeX warning (ext4): destination with the same identifier"]);
    assert_eq!(msgs[0].kind, MessageKind::PackageWarning { package: "pdfTeX (ext4)".to_string() });
    assert_eq!(msgs[0].text, "destination with the same identifier");
}

#[test]
fn engine_warning_without_engine_prefix() {
    let msgs = feed_all(&["warning  (pdf backend): some backend note"]);
    assert_eq!(msgs[0].kind, MessageKind::PackageWarning { package: "pdf backend".to_string() });
    assert_eq!(msgs[0].text, "some backend note");
}

#[test]
fn missing_character() {
    let msgs = feed_all(&["Missing character: There is no ~ in font examplefont!"]);
    assert_eq!(msgs[0].kind, MessageKind::MissingChar);
    assert_eq!(msgs[0].text, "Missing character: There is no ~ in font examplefont!");
}

#[test]
fn overfull_hbox_output_active() {
    let msgs = feed_all(&["Overfull \\hbox (13.3pt too wide) has occurred while \\output is active"]);
    match &msgs[0].kind {
        MessageKind::OverfullHbox { pt } => assert!((points(pt) - 13.3).abs() < 0.001),
        _ => panic!("wrong kind"),
    }
    assert_eq!(msgs[0].line_range, None);
}

#[test]
fn overfull_hbox_with_lines() {
    let msgs = feed_all(&["Overfull \\hbox (53.3pt too wide) in paragraph at lines 2--3"]);
    assert_eq!(msgs[0].line_range, Some((2, 3)));
}

#[test]
fn underfull_hbox_badness() {
    let msgs = feed_all(&["Underfull \\hbox (badness 10000) has occurred while \\output is active"]);
    assert_eq!(msgs[0].kind, MessageKind::UnderfullHbox { badness: 10000 });
}

#[test]
fn overfull_vbox() {
    let msgs = feed_all(&["Overfull \\vbox (50.2pt too high) has occurred while \\output is active"]);
    match &msgs[0].kind {
        MessageKind::OverfullVbox { pt } => assert!((points(pt) - 50.2).abs() < 0.001),
        _ => panic!("wrong kind"),
    }
}

#[test]
fn bibtex_warning() {
    let msgs = feed_all(&[
        "Warning--entry type for \"sometype\" isn't style-file defined",
        "--line 42 of file refs.bib",
    ]);
    assert_eq!(msgs.len(), 1);
    assert_eq!(msgs[0].kind, MessageKind::BibtexWarning);
    assert_eq!(msgs[0].text, "entry type for \"sometype\" isn't style-file defined");
    assert_eq!(msgs[0].line_range, Some((42, 42)));
    assert_eq!(msgs[0].file_override, Some("refs.bib".to_string()));
}

#[test]
fn fixme_warning_matches_catch_all_row() {
    let msgs = feed_all(&["FiXme Warning: 'a made-up note about something' on input line 18."]);
    assert_eq!(msgs[0].kind, MessageKind::PackageWarning { package: "FiXme".to_string() });
    assert_eq!(msgs[0].text, "'a made-up note about something'");
    assert_eq!(msgs[0].line_range, Some((18, 18)));
}

#[test]
fn show_output() {
    let msgs = feed_all(&["> \\mymacro=macro:", "#1->\\protect \\mymacro {#1}.", "l.10 \\show\\mymacro"]);
    assert_eq!(msgs.len(), 1);
    assert_eq!(msgs[0].kind, MessageKind::ShowOutput { command: "\\mymacro".to_string() });
    assert_eq!(msgs[0].text, "\\mymacro=macro:");
    assert_eq!(msgs[0].context, vec!["#1->\\protect \\mymacro {#1}.".to_string()]);
    assert_eq!(msgs[0].line_range, Some((10, 10)));
}

#[test]
fn gcc_style_package_error() {
    let msgs = feed_all(&[
        "./mydoc.tex:42: Package examplepkg Error: Unknown option `foo'.",
        "You might have misspelled `foo' or the language is not loaded.",
    ]);
    assert_eq!(msgs.len(), 1);
    assert_eq!(msgs[0].kind, MessageKind::PackageError { package: "examplepkg".to_string() });
    assert_eq!(msgs[0].text, "Unknown option `foo'.");
    assert_eq!(msgs[0].file_override, Some("./mydoc.tex".to_string()));
    assert_eq!(msgs[0].line_range, Some((42, 42)));
    assert!(msgs[0].context.is_empty());
}

#[test]
fn bang_error_message_folds_package_annotation_continuations() {
    let msgs = feed_all(&[
        "! Package amsmath Error: \\begin{align} on input line 12 ended by",
        "(amsmath)                \\end{equation}. Check for a missing or",
        "(amsmath)                mismatched \\end command.",
        "",
        "See the amsmath package documentation for explanation.",
        "Type  H <return>  for immediate help.",
        " ...                                              ",
        "",
        "l.14 \\end{equation}",
        "                    ",
    ]);
    assert_eq!(msgs.len(), 1);
    assert_eq!(msgs[0].kind, MessageKind::PackageError { package: "amsmath".to_string() });
    assert_eq!(
        msgs[0].text,
        "\\begin{align} on input line 12 ended by \\end{equation}. Check for a missing or mismatched \\end command."
    );
    assert_eq!(msgs[0].line_range, Some((14, 14)));
}

#[test]
fn fatal_error_has_no_context_and_finalizes_immediately() {
    let msgs = feed_all(&[
        "!  ==> Fatal error occurred, no output PDF file produced!",
        "Transcript written on main.log.",
        "Latexmk: Getting log file 'build/main.log'",
    ]);
    assert_eq!(msgs.len(), 1);
    assert_eq!(msgs[0].kind, MessageKind::LatexError);
    assert!(msgs[0].text.contains("Fatal error occurred"));
    assert!(msgs[0].context.is_empty());
    assert_eq!(msgs[0].line_range, None);
}

#[test]
fn bang_error_context_terminator_is_honored_regardless_of_line_parity() {
    let msgs = feed_all(&["! Undefined control sequence.", "\\foobar", "l.42 \\callsite", "              "]);
    assert_eq!(msgs.len(), 1);
    assert_eq!(msgs[0].line_range, Some((42, 42)));
    assert_eq!(msgs[0].context, vec!["\\foobar".to_string()]);
}

#[test]
fn bang_error_simple_tagged_context() {
    let msgs = feed_all(&[
        "! Missing $ inserted.",
        "<inserted text> ",
        "                $",
        "l.7 ",
        "     ",
        "Some hint prose describing the mistake, spanning",
        "more than one physical line of hint text.",
    ]);
    assert_eq!(msgs.len(), 1);
    assert_eq!(msgs[0].kind, MessageKind::LatexError);
    assert_eq!(msgs[0].text, "Missing $ inserted.");
    assert_eq!(msgs[0].line_range, Some((7, 7)));
    assert_eq!(msgs[0].context, vec!["<inserted text> $".to_string()]);
}

#[test]
fn bang_error_undefined_control_sequence_simple() {
    let msgs = feed_all(&[
        "! Undefined control sequence.",
        "l.42 \\foobar",
        "             some more context",
        "The control sequence at the end of the top line",
        "of your error message was never \\def'ed.",
    ]);
    assert_eq!(msgs.len(), 1);
    assert_eq!(msgs[0].text, "Undefined control sequence.");
    assert_eq!(msgs[0].line_range, Some((42, 42)));
    assert_eq!(msgs[0].context, vec!["\\foobar\n             some more context".to_string()]);
}

#[test]
fn bang_error_undefined_control_sequence_untagged_context() {
    let msgs = feed_all(&[
        "! Undefined control sequence.",
        "\\foobar",
        "        some more context",
        "l.42 \\callsite",
        "              ",
        "The control sequence at the end of the top line",
        "of your error message was never \\def'ed.",
    ]);
    assert_eq!(msgs.len(), 1);
    assert_eq!(msgs[0].line_range, Some((42, 42)));
    assert_eq!(msgs[0].context, vec!["\\foobar\n        some more context".to_string()]);
}

#[test]
fn ignored_lines_produce_no_messages() {
    let msgs = feed_all(&[
        "Package examplepkg Info: some informational note.",
        "LaTeX Font Info:    Font shape note.",
        "luaotfload | conf : Root cache directory note.",
        "Lua module: examplemod 1.0 some description",
        "Latexmk: Doing something.",
        "------------",
    ]);
    assert!(msgs.is_empty());
}

#[test]
fn multi_line_warning_continuation() {
    let msgs = feed_all(&[
        "Package examplepkg Warning: This warning wraps across",
        "two physical lines on input line 5.",
    ]);
    assert_eq!(msgs.len(), 1);
    assert_eq!(msgs[0].text, "This warning wraps across two physical lines");
    assert_eq!(msgs[0].line_range, Some((5, 5)));
}

#[test]
fn warning_continuation_survives_a_package_name_annotation_line() {
    let msgs = feed_all(&[
        "Package examplepkg Warning: Citation(s) may have changed.",
        "(examplepkg)                Rerun to get citations correct.",
    ]);
    assert_eq!(msgs.len(), 1);
    assert_eq!(msgs[0].text, "Citation(s) may have changed. Rerun to get citations correct.");
}

#[test]
fn warning_continuation_strips_package_annotation_across_multiple_lines() {
    let msgs = feed_all(&[
        "Package biblatex Warning: Please (re)run Biber on the file:",
        "(biblatex)                thesis",
        "(biblatex)                and rerun LaTeX afterwards.",
    ]);
    assert_eq!(msgs.len(), 1);
    assert_eq!(msgs[0].text, "Please (re)run Biber on the file: thesis and rerun LaTeX afterwards.");
}

#[test]
fn warning_continuation_stops_at_an_unrelated_font_trailer() {
    let msgs = feed_all(&[
        "warning  (pdf backend): unreferenced destination with name 'chapter.1'",
        "</usr/local/texlive/2026/texmf-dist/fonts/opentype/public/example/Example-Bold.otf>",
    ]);
    assert_eq!(msgs.len(), 1);
    assert_eq!(msgs[0].text, "unreferenced destination with name 'chapter.1'");
}

#[test]
fn warning_continuation_stops_at_a_page_close_bracket() {
    let msgs = feed_all(&[
        "warning  (pdf backend): ignoring duplicate destination with the name 'equation.4.1'",
        "] [58] [59] [60] [61]) (./chapters/b/wd.tex",
    ]);
    assert_eq!(msgs.len(), 1);
    assert_eq!(msgs[0].text, "ignoring duplicate destination with the name 'equation.4.1'");
}

// ---- further cases ----

#[test]
fn warning_in_progress_is_completed_by_finish() {
    let mut m = MessageMatcher::new();
    assert!(m.feed("Package examplepkg Warning: Something that might").is_empty());
    let done = m.finish();
    assert_eq!(done.len(), 1);
    assert_eq!(done[0].text, "Something that might");
    assert!(m.finish().is_empty());
}

#[test]
fn nothing_in_progress_finishes_empty() {
    let mut m = MessageMatcher::new();
    assert!(m.finish().is_empty());
}

#[test]
fn one_line_completes_a_warning_and_forms_another() {
    let mut m = MessageMatcher::new();
    assert!(m.feed("Package a Warning: first").is_empty());
    let out = m.feed("Missing character: There is no x in font y!");
    assert_eq!(out.len(), 2);
    assert_eq!(out[0].kind, MessageKind::PackageWarning { package: "a".to_string() });
    assert_eq!(out[1].kind, MessageKind::MissingChar);
}

#[test]
fn latex_error_without_package_is_a_latex_error() {
    let msgs = feed_all(&["! LaTeX Error: File `missing.sty' not found.", "l.3 \\usepackage{missing}"]);
    assert_eq!(msgs.len(), 1);
    assert_eq!(msgs[0].kind, MessageKind::LatexError);
    assert_eq!(msgs[0].line_range, Some((3, 3)));
}

#[test]
fn overfull_box_size_is_kept_as_written() {
    let msgs = feed_all(&["Overfull \\hbox (1.5e2pt too wide) in paragraph at lines 7--9"]);
    assert_eq!(msgs[0].kind, MessageKind::OverfullHbox { pt: "1.5e2".to_string() });
    assert_eq!(msgs[0].line_range, Some((7, 9)));
}

#[test]
fn overfull_box_with_unreadable_size_is_ignored() {
    let msgs = feed_all(&["Overfull \\hbox (lots too wide) in paragraph at lines 1--2"]);
    assert!(msgs.is_empty());
}

#[test]
fn underfull_hbox_with_lines() {
    let msgs = feed_all(&["Underfull \\hbox (badness 1521) in paragraph at lines 12--14"]);
    assert_eq!(msgs[0].kind, MessageKind::UnderfullHbox { badness: 1521 });
    assert_eq!(msgs[0].line_range, Some((12, 14)));
}

#[test]
fn show_output_cut_short_is_completed_by_finish() {
    let msgs = feed_all(&["> \\x=macro:", "->y."]);
    assert_eq!(msgs.len(), 1);
    assert_eq!(msgs[0].text, "\\x=macro:");
    assert_eq!(msgs[0].kind, MessageKind::ShowOutput { command: String::new() });
    assert_eq!(msgs[0].context, vec!["->y.".to_string()]);
}

#[test]
fn bare_line_marker_gives_the_error_its_line() {
    let msgs = feed_all(&["! Undefined control sequence.", "\\foobar", "l.42", "", "Some hint."]);
    assert_eq!(msgs.len(), 1);
    assert_eq!(msgs[0].line_range, Some((42, 42)));
    assert_eq!(msgs[0].context, vec!["\\foobar".to_string()]);
}

#[test]
fn bare_line_marker_parses_with_empty_source() {
    let line: Vec<char> = "l.42".chars().collect();
    assert_eq!(try_parse_line_marker(&line), Some((42, vec![])));
    let line: Vec<char> = "l.7 \\foo".chars().collect();
    assert_eq!(try_parse_line_marker(&line), Some((7, "\\foo".chars().collect())));
    let line: Vec<char> = "l.x".chars().collect();
    assert_eq!(try_parse_line_marker(&line), None);
}
