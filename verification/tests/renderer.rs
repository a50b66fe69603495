use texsift::output::{wrap_plain, RenderOptions, Renderer};
use texsift::{Event, LogMessage, MessageKind, PassKind};

fn render(events: Vec<Event>, opts: RenderOptions) -> String {
    let mut r = Renderer::new(opts);
    for e in events {
        r.handle(e);
    }
    r.finish();
    r.flush()
}

fn no_color(width: usize) -> RenderOptions {
    RenderOptions { ascii: false, color: false, width }
}

fn ascii_no_color(width: usize) -> RenderOptions {
    RenderOptions { ascii: true, color: false, width }
}

fn message(kind: MessageKind, file: &str, text: &str) -> LogMessage {
    LogMessage {
        kind,
        text: text.to_string(),
        file: file.to_string(),
        ancestors: vec![],
        line_range: None,
        page: None,
        context: vec![],
    }
}

fn warning(file: &str, ancestors: &[&str], package: &str, text: &str, line: u32, page: u32) -> Event {
    Event::Message(LogMessage {
        ancestors: ancestors.iter().map(|s| s.to_string()).collect(),
        line_range: Some((line, line)),
        page: Some(page),
        ..message(MessageKind::PackageWarning { package: package.to_string() }, file, text)
    })
}

#[test]
fn consecutive_messages_for_the_same_file_share_one_header() {
    let out = render(
        vec![
            warning("./intro.tex", &[], "examplepkg", "Citation `key1' undefined", 8, 1),
            warning("./intro.tex", &[], "examplepkg", "Citation `key2' undefined", 8, 1),
        ],
        no_color(80),
    );
    assert_eq!(
        out,
        "./intro.tex\n\
         \x20 ! Package examplepkg: Citation `key1' undefined  (line 8, page 1)\n\
         \x20 ! Package examplepkg: Citation `key2' undefined  (line 8, page 1)\n"
            .replace('!', "⚠")
    );
}

#[test]
fn messages_print_immediately_rather_than_waiting_to_be_grouped() {
    let out = render(
        vec![
            warning("./intro.tex", &[], "examplepkg", "Citation `key1' undefined", 8, 1),
            warning("./sub.tex", &["./intro.tex"], "examplepkg", "Something", 2, 1),
            warning("./intro.tex", &[], "examplepkg", "Citation `key2' undefined", 8, 1),
        ],
        no_color(80),
    );
    assert_eq!(
        out,
        "./intro.tex\n\
         \x20 ! Package examplepkg: Citation `key1' undefined  (line 8, page 1)\n\
         \n\
         \x20 ./sub.tex\n\
         \x20\x20\x20\x20! Package examplepkg: Something  (line 2, page 1)\n\
         \n\
         ./intro.tex\n\
         \x20 ! Package examplepkg: Citation `key2' undefined  (line 8, page 1)\n"
            .replace('!', "⚠")
    );
}

#[test]
fn empty_file_transition_skips_the_header_line() {
    let out = render(
        vec![
            warning("./chapters/intro.tex", &[], "examplepkg", "Something", 2, 1),
            warning("", &[], "pdf backend", "unreferenced destination with name 'x'", 0, 0),
        ],
        no_color(80),
    );
    assert_eq!(
        out,
        "./chapters/intro.tex\n\
         \x20 ⚠ Package examplepkg: Something  (line 2, page 1)\n\
         \n\
         \x20 ⚠ pdf backend: unreferenced destination with name 'x'  (line 0, page 0)\n"
    );
}

#[test]
fn message_less_wrapper_file_is_collapsed_out_of_indentation() {
    let out = render(
        vec![warning("./sub.tex", &["./main.tex", "./wrapper.tex"], "examplepkg", "Something", 2, 1)],
        no_color(80),
    );
    assert_eq!(out, "./sub.tex\n  ⚠ Package examplepkg: Something  (line 2, page 1)\n");
}

#[test]
fn ancestor_message_arriving_later_in_the_pass_does_not_retroactively_nest_its_earlier_child() {
    let out = render(
        vec![
            warning("build/main.aux", &["./main.tex"], "LaTeX", "Label multiply defined", 10, 1),
            Event::Message(message(
                MessageKind::PackageWarning { package: "natbib".to_string() },
                "./main.tex",
                "There were undefined citations",
            )),
        ],
        no_color(80),
    );
    assert_eq!(
        out,
        "build/main.aux\n  ⚠ LaTeX: Label multiply defined  (line 10, page 1)\n\
         \n\
         ./main.tex\n  ⚠ Package natbib: There were undefined citations\n"
    );
}

#[test]
fn ascii_theme_swaps_glyphs_not_colors() {
    let out = render(
        vec![Event::Message(LogMessage {
            line_range: Some((1145, 1145)),
            context: vec!["<inserted text> $".to_string()],
            ..message(MessageKind::LatexError, "./main.tex", "Missing $ inserted.")
        })],
        ascii_no_color(80),
    );
    assert_eq!(
        out,
        "./main.tex\n\
         \x20 x Missing $ inserted.  (line 1145)\n\
         \x20 | <inserted text> $\n"
    );
    assert!(!out.contains('✕'));
    assert!(!out.contains('│'));
}

#[test]
fn width_override_controls_separator_length() {
    let out = render(vec![Event::PassBoundary(PassKind::Pdflatex)], no_color(40));
    let first_line = out.lines().next().unwrap();
    assert_eq!(first_line.chars().count(), 40);
    assert!(first_line.starts_with("── pdflatex "));
}

#[test]
fn summary_footer_colors_by_error_count() {
    let mut r = Renderer::new(RenderOptions { ascii: false, color: true, width: 20 });
    r.handle(Event::Message(message(MessageKind::LatexError, "./main.tex", "boom")));
    r.finish();
    r.render_summary();
    let out = r.flush();
    assert!(out.contains("1 errors"));
    assert!(out.contains("31"));
}

#[test]
fn overfull_box_location_variants() {
    let with_lines = render(
        vec![Event::Message(LogMessage {
            line_range: Some((2, 3)),
            ..message(MessageKind::OverfullHbox { pt: "53.32617".to_string() }, "./main.tex", "")
        })],
        no_color(80),
    );
    assert!(with_lines.contains("Overfull \\hbox 53.33pt too wide  (lines 2–3)"));

    let output_active = render(
        vec![Event::Message(message(
            MessageKind::OverfullHbox { pt: "13.30402".to_string() },
            "./main.tex",
            "",
        ))],
        no_color(80),
    );
    assert!(output_active.contains("Overfull \\hbox 13.30pt too wide  (output active)"));
}

#[test]
fn wrap_plain_leaves_short_text_untouched_including_whitespace() {
    assert_eq!(wrap_plain("   a  b", 80), vec!["   a  b".to_string()]);
}

#[test]
fn wrap_plain_breaks_on_word_boundaries_at_width() {
    assert_eq!(
        wrap_plain("one two three four", 9),
        vec!["one two".to_string(), "three".to_string(), "four".to_string()]
    );
}

#[test]
fn wrap_plain_hard_breaks_a_single_word_longer_than_width() {
    assert_eq!(wrap_plain("abcdefghij", 4), vec!["abcd".to_string(), "efgh".to_string(), "ij".to_string()]);
}

#[test]
fn wrap_plain_zero_width_means_unbounded() {
    assert_eq!(wrap_plain("one two three four five", 0), vec!["one two three four five".to_string()]);
}

#[test]
fn context_wraps_at_width_with_bar_prefixed_continuation() {
    let out = render(
        vec![Event::Message(LogMessage {
            line_range: Some((1145, 1145)),
            context: vec![
                "I've inserted a begin-math/end-math symbol since I think you left one out.".to_string(),
            ],
            ..message(MessageKind::LatexError, "./main.tex", "Missing $ inserted.")
        })],
        ascii_no_color(60),
    );
    assert_eq!(
        out,
        "./main.tex\n\
         \x20 x Missing $ inserted.  (line 1145)\n\
         \x20 | I've inserted a begin-math/end-math symbol since I think\n\
         \x20 | you left one out.\n"
    );
}

#[test]
fn long_package_warning_body_wraps_with_continuation_aligned_under_label() {
    let out = render(
        vec![warning("./main.tex", &[], "examplepkg", "Citation for key alpha beta gamma delta undefined", 8, 1)],
        no_color(40),
    );
    assert_eq!(
        out,
        "./main.tex\n\
         \x20 ! Package examplepkg: Citation for key\n\
         \x20                       alpha beta gamma\n\
         \x20                       delta undefined  (line 8, page 1)\n"
            .replace('!', "⚠")
    );
}

#[test]
fn width_zero_disables_wrapping_in_render_options() {
    let long_context = "one two three four five six seven eight nine ten".to_string();
    let out = render(
        vec![Event::Message(LogMessage {
            context: vec![long_context.clone()],
            ..message(MessageKind::LatexError, "./main.tex", "boom")
        })],
        ascii_no_color(0),
    );
    assert!(out.contains(&format!("| {long_context}\n")), "expected unwrapped context line, got:\n{out}");
}

// ---- further cases ----

#[test]
fn pdf_line_is_green_and_glyphed() {
    let out = render(vec![Event::PdfBuilt { path: "build/main.pdf".to_string() }], no_color(80));
    assert_eq!(out, "✔ PDF written: build/main.pdf\n");
    let out = render(vec![Event::PdfBuilt { path: "build/main.pdf".to_string() }], ascii_no_color(80));
    assert_eq!(out, "* PDF written: build/main.pdf\n");
}

#[test]
fn color_output_wraps_segments_in_ansi_sequences() {
    let out = render(vec![Event::PdfBuilt { path: "a.pdf".to_string() }], RenderOptions {
        ascii: true,
        color: true,
        width: 80,
    });
    assert_eq!(out, "\u{1b}[32m* PDF written: a.pdf\u{1b}[0m\n");
}

#[test]
fn no_color_output_has_no_escape_sequences() {
    let out = render(
        vec![
            Event::PassBoundary(PassKind::Bibtex),
            warning("./a.tex", &[], "x", "y", 1, 1),
            Event::Message(message(MessageKind::LatexError, "./a.tex", "boom")),
        ],
        no_color(30),
    );
    assert!(!out.contains('\u{1b}'));
}

#[test]
fn separator_after_output_is_preceded_by_a_blank_line() {
    let out = render(
        vec![
            warning("./a.tex", &[], "x", "y", 1, 1),
            Event::PassBoundary(PassKind::Other("makeindex".to_string())),
        ],
        ascii_no_color(20),
    );
    assert_eq!(out, "./a.tex\n  ! Package x: y  (line 1, page 1)\n\n-- makeindex -------\n");
}

#[test]
fn boundary_resets_grouping_so_the_same_file_gets_a_new_header() {
    let out = render(
        vec![
            warning("./a.tex", &[], "x", "y", 1, 1),
            Event::PassBoundary(PassKind::Pdflatex),
            warning("./a.tex", &[], "x", "y", 1, 1),
        ],
        ascii_no_color(20),
    );
    assert_eq!(
        out,
        "./a.tex\n  ! Package x: y  (line 1, page 1)\n\n-- pdflatex --------\n\n./a.tex\n  ! Package x: y  (line 1, page 1)\n"
    );
}

#[test]
fn summary_counts_each_category() {
    let mut r = Renderer::new(RenderOptions { ascii: true, color: false, width: 10 });
    r.handle(Event::Message(message(MessageKind::LatexError, "./a.tex", "e")));
    r.handle(warning("./a.tex", &[], "x", "w", 1, 1));
    r.handle(warning("./a.tex", &[], "x", "w", 1, 1));
    r.handle(Event::Message(message(MessageKind::UnderfullHbox { badness: 10000 }, "./a.tex", "")));
    r.handle(Event::PassBoundary(PassKind::Pdflatex));
    let _ = r.flush();
    r.render_summary();
    let out = r.flush();
    assert_eq!(out, "----------\n1 errors · 2 warnings · 0 overfull · 1 underfull\n");
}

#[test]
fn flush_hands_over_text_only_once() {
    let mut r = Renderer::new(no_color(80));
    r.handle(Event::PdfBuilt { path: "x.pdf".to_string() });
    assert_eq!(r.flush(), "✔ PDF written: x.pdf\n");
    assert_eq!(r.flush(), "");
}

#[test]
fn box_size_is_rounded_to_two_places() {
    let out = render(
        vec![Event::Message(message(MessageKind::OverfullVbox { pt: "50.126".to_string() }, "./a.tex", ""))],
        no_color(80),
    );
    assert!(out.contains("Overfull \\vbox 50.13pt too high"), "got {out}");
}

#[test]
fn wrapped_lines_are_well_spaced_and_greedy() {
    let r = wrap_plain("a  b   c dd", 4);
    assert_eq!(r, vec!["a b".to_string(), "c dd".to_string()]);
    for l in &r {
        assert!(!l.starts_with(' ') && !l.ends_with(' ') && !l.contains("  "));
    }
}

fn shown_size(pt: &str) -> String {
    let out = render(
        vec![Event::Message(message(MessageKind::OverfullHbox { pt: pt.to_string() }, "./a.tex", ""))],
        no_color(80),
    );
    let start = out.find("\\hbox ").unwrap() + "\\hbox ".len();
    let end = out.find("pt too wide").unwrap();
    out[start..end].to_string()
}

#[test]
fn box_size_in_exponent_notation_is_shown_as_a_decimal() {
    assert_eq!(shown_size("1e3"), "1000.00");
    assert_eq!(shown_size("1.5E-1"), "0.15");
    assert_eq!(shown_size("25e-1"), "2.50");
    assert_eq!(shown_size("-1e-3"), "-0.00");
    assert_eq!(shown_size(".5e1"), "5.00");
}

#[test]
fn box_size_spelled_as_infinity_or_nan() {
    assert_eq!(shown_size("inf"), "inf");
    assert_eq!(shown_size("-Infinity"), "-inf");
    assert_eq!(shown_size("+INF"), "inf");
    assert_eq!(shown_size("nan"), "NaN");
}

#[test]
fn box_size_agrees_with_two_place_float_formatting() {
    for pt in ["53.32617", "13.30402", "1e3", "2.5e-1", "0.004", "7", "inf", "nan", "-12.345678"] {
        let v: f32 = pt.parse().unwrap();
        assert_eq!(shown_size(pt), format!("{v:.2}"), "size {pt}");
    }
}
