use texsift::parser::line_joiner::LineJoiner;

fn feed_all(lines: &[&str]) -> Vec<String> {
    let mut j = LineJoiner::new();
    let mut out = Vec::new();
    for line in lines {
        out.extend(j.feed(line));
    }
    out.extend(j.finish());
    out
}

/// Split a full logical line into 79-char physical fragments the way TeX
/// itself would, so tests never have to hand-count characters.
fn wrap_at_79(full: &str) -> Vec<String> {
    let chars: Vec<char> = full.chars().collect();
    chars.chunks(79).map(|c| c.iter().collect()).collect()
}

#[test]
fn joins_split_path() {
    // A made-up texmf-style path, long enough to wrap at column 79.
    let full = "(/usr/local/texlive/2099/texmf-dist/tex/generic/example/example-utils.tex)";
    let full = format!("{full}{full}"); // force it well past 79 chars
    let frags = wrap_at_79(&full);
    assert!(frags.len() > 1);
    let refs: Vec<&str> = frags.iter().map(String::as_str).collect();
    let out = feed_all(&refs);
    assert_eq!(out, vec![full]);
}

#[test]
fn joins_split_warning_mid_sentence() {
    let full = "Package examplepkg Warning: Citation `somekey' on page 1 undefined on input line 8.";
    let frags = wrap_at_79(full);
    assert!(frags.len() > 1);
    let refs: Vec<&str> = frags.iter().map(String::as_str).collect();
    let out = feed_all(&refs);
    assert_eq!(out, vec![full.to_string()]);
}

#[test]
fn does_not_join_when_next_line_is_fresh() {
    let frag1 = "x".repeat(79);
    let out = feed_all(&[&frag1, "Package examplepkg Warning: something happened here today"]);
    assert_eq!(out.len(), 2);
    assert_eq!(out[0], frag1);
}

#[test]
fn joins_three_way_wrap() {
    let a = "a".repeat(79);
    let b = "b".repeat(79);
    let c = "cc".to_string();
    let out = feed_all(&[&a, &b, &c]);
    assert_eq!(out, vec![format!("{a}{b}{c}")]);
}

#[test]
fn short_lines_pass_through_unchanged() {
    let out = feed_all(&["short line one", "short line two"]);
    assert_eq!(out, vec!["short line one".to_string(), "short line two".to_string()]);
}

#[test]
fn finish_flushes_pending_79_char_line_at_eof() {
    let line79 = "y".repeat(79);
    let mut j = LineJoiner::new();
    assert!(j.feed(&line79).is_empty());
    assert_eq!(j.finish(), vec![line79]);
}

#[test]
fn lua_80_char_fragment_is_joined_too() {
    // LuaTeX's own output wraps one column later, at 80.
    let a = "w".repeat(80);
    let out = feed_all(&[&a, ".1'"]);
    assert_eq!(out, vec![format!("{a}.1'")]);
}

#[test]
fn fragment_followed_by_blank_line_is_emitted_separately() {
    let a = "z".repeat(79);
    let out = feed_all(&[&a, ""]);
    assert_eq!(out, vec![a, String::new()]);
}

#[test]
fn joined_text_is_never_lost() {
    // The concatenation of everything emitted equals the concatenation of
    // everything fed, whatever mix of fragments and fresh lines.
    let a = "q".repeat(79);
    let lines = [a.as_str(), "(./x.tex", a.as_str(), "tail", "short"];
    let out = feed_all(&lines);
    assert_eq!(out.concat(), lines.concat());
}

#[test]
fn whole_input_keeps_its_text() {
    let a = "x".repeat(79);
    let b = "y".repeat(80);
    let lines = [a.as_str(), "tail one", "Package p Warning: w", b.as_str(), "(./f.tex", "z"];
    let out = feed_all(&lines);
    assert_eq!(out.concat(), lines.concat());
    assert_eq!(out, vec![format!("{a}tail one"), "Package p Warning: w".to_string(), b.clone(), "(./f.tex".to_string(), "z".to_string()]);
}
