use texsift::parser::file_stack::FileStack;

#[test]
fn dot_slash_prefix_is_a_path() {
    let mut s = FileStack::new();
    s.process_line("(./intro.tex");
    assert_eq!(s.current_file(), "./intro.tex");
    assert_eq!(s.depth(), 1);
}

#[test]
fn absolute_texmf_path_is_a_path() {
    let mut s = FileStack::new();
    s.process_line("(/usr/local/texlive/2025/texmf-dist/tex/latex/base/article.cls");
    assert_eq!(s.current_file(), "/usr/local/texlive/2025/texmf-dist/tex/latex/base/article.cls");
}

#[test]
fn bare_letter_prefix_with_extension_is_a_path() {
    let mut s = FileStack::new();
    s.process_line("(article.cls");
    assert_eq!(s.current_file(), "article.cls");
}

#[test]
fn self_closing_relative_path_nets_to_zero_depth() {
    let mut s = FileStack::new();
    s.process_line("(build/main.aux)");
    assert_eq!(s.depth(), 0);
    assert_eq!(s.current_file(), "");
}

#[test]
fn font_file_path_with_slash_and_extension() {
    let mut s = FileStack::new();
    s.process_line("(type1/urw/uhvb8a.pfb)");
    assert_eq!(s.depth(), 0);
}

#[test]
fn output_active_is_not_a_path() {
    let mut s = FileStack::new();
    s.process_line("(./main.tex");
    s.process_line("(output active");
    // A non-path entry was pushed (depth increases)...
    assert_eq!(s.depth(), 2);
    // ...but it does not become the current file.
    assert_eq!(s.current_file(), "./main.tex");
}

#[test]
fn see_manual_is_not_a_path() {
    let mut s = FileStack::new();
    s.process_line("(./main.tex");
    s.process_line("(see manual)");
    assert_eq!(s.depth(), 1);
    assert_eq!(s.current_file(), "./main.tex");
}

#[test]
fn file_depth_ignores_non_path_entries() {
    let mut s = FileStack::new();
    assert_eq!(s.file_depth(), 0);
    s.process_line("(./main.tex");
    assert_eq!(s.file_depth(), 0); // top-level document, not "nested"
    s.process_line("(see manual");
    assert_eq!(s.file_depth(), 0); // non-path open does not add nesting
    s.process_line("(./sub.tex");
    assert_eq!(s.file_depth(), 1); // one real file nested inside another
}

#[test]
fn file_chain_lists_ancestors_outermost_first() {
    let mut s = FileStack::new();
    assert_eq!(s.file_chain(), Vec::<String>::new());
    s.process_line("(./main.tex");
    assert_eq!(s.file_chain(), vec!["./main.tex".to_string()]);
    s.process_line("(see manual");
    assert_eq!(s.file_chain(), vec!["./main.tex".to_string()]);
    s.process_line("(./wrapper.tex(./sub.tex");
    assert_eq!(
        s.file_chain(),
        vec!["./main.tex".to_string(), "./wrapper.tex".to_string(), "./sub.tex".to_string()]
    );
}

#[test]
fn consecutive_closes_pop_each_level() {
    let mut s = FileStack::new();
    s.process_line("(./a.tex(./b.tex(./c.tex");
    assert_eq!(s.depth(), 3);
    assert_eq!(s.current_file(), "./c.tex");
    s.process_line(")))");
    assert_eq!(s.depth(), 0);
    assert_eq!(s.current_file(), "");
}

#[test]
fn closing_on_empty_stack_does_not_panic() {
    let mut s = FileStack::new();
    s.process_line(")))");
    assert_eq!(s.depth(), 0);
}

#[test]
fn nested_include_under_top_level_file() {
    let mut s = FileStack::new();
    s.process_line("(./main.tex");
    assert_eq!(s.current_file(), "./main.tex");
    s.process_line("(./sub/included.tex");
    assert_eq!(s.current_file(), "./sub/included.tex");
    assert_eq!(s.depth(), 2);
    s.process_line(")");
    assert_eq!(s.current_file(), "./main.tex");
    assert_eq!(s.depth(), 1);
}

#[test]
fn unicode_letter_prefix_with_extension_is_a_path() {
    // The path rule's "starts with a letter" uses the Unicode notion of a
    // letter, so an accented file name still counts.
    let mut s = FileStack::new();
    s.process_line("(épreuve.tex");
    assert_eq!(s.current_file(), "épreuve.tex");
}

#[test]
fn token_stops_at_whitespace_and_parens() {
    let mut s = FileStack::new();
    s.process_line("(./a.tex [1] (./b.tex)");
    assert_eq!(s.file_chain(), vec!["./a.tex".to_string()]);
    assert_eq!(s.depth(), 1);
}

#[test]
fn punctuation_prefix_is_not_a_path() {
    let mut s = FileStack::new();
    s.process_line("(-x.tex");
    assert_eq!(s.depth(), 1);
    assert_eq!(s.file_depth(), 0);
    assert_eq!(s.current_file(), "");
}

#[test]
fn chain_grows_by_the_files_a_line_opens() {
    let mut s = FileStack::new();
    s.process_line("(./main.tex");
    s.process_line("(./a.tex (see manual (build/b.aux");
    assert_eq!(
        s.file_chain(),
        vec!["./main.tex".to_string(), "./a.tex".to_string(), "build/b.aux".to_string()]
    );
    assert_eq!(s.depth(), 4);
}
