//! Tracks TeX's `(path` / `)` file-open/close nesting across the log.
use vstd::prelude::*;

use crate::text::{
    chars_of, find_char_exec, find_token_end, has_prefix, is_token_stop, lemma_char_from_bounds,
    lemma_stop_from_bounds, slice_of, starts_with_str, stop_from, string_of,
};

verus! {

/// The value `char::is_alphanumeric` gives for `c`: whether `c` has the
/// Unicode `Alphabetic` or `Numeric` property.
pub uninterp spec fn char_alphanumeric(c: char) -> bool;

/// Whether `c` is an ASCII letter or digit.
pub open spec fn ascii_alphanumeric(c: char) -> bool {
    let n = c as u32;
    (0x30 <= n <= 0x39) || (0x41 <= n <= 0x5a) || (0x61 <= n <= 0x7a)
}

/// `char::is_alphanumeric`: `Alphabetic` or `Numeric`, which on ASCII
/// means exactly the letters and the digits (beyond ASCII the Unicode
/// tables decide, and only the name says so).
#[verifier::external_body]
pub(crate) fn is_alphanumeric(c: char) -> (b: bool)
    ensures
        b == char_alphanumeric(c),
        (c as u32) < 0x80 ==> (b <==> ascii_alphanumeric(c)),
{
    c.is_alphanumeric()
}

/// The path rule: a token starting with `./` or `/` is always a path; a
/// token starting with a letter or digit is a path if it contains a `.`
/// somewhere (the extension).
pub open spec fn looks_like_path(token: Seq<char>) -> bool {
    ||| has_prefix(token, "./"@)
    ||| has_prefix(token, "/"@)
    ||| (token.len() > 0 && char_alphanumeric(token[0]) && token.contains('.'))
}

pub(crate) fn looks_like_path_exec(token: &[char]) -> (r: bool)
    ensures
        r == looks_like_path(token@),
{
    if starts_with_str(token, "./") || starts_with_str(token, "/") {
        return true;
    }
    if token.len() > 0 && is_alphanumeric(token[0]) {
        let dot = find_char_exec(token, '.');
        proof {
            lemma_char_from_bounds(token@, '.', 0);
        }
        dot.is_some()
    } else {
        false
    }
}

/// The stack entry a `(` followed by `token` pushes.
pub open spec fn entry_for(token: Seq<char>) -> Option<Seq<char>> {
    if looks_like_path(token) {
        Some(token)
    } else {
        None
    }
}

/// The token following the `(` at index `i` of `line`: everything up to
/// the next `(`, `)` or whitespace.
pub open spec fn token_after(line: Seq<char>, i: int) -> Seq<char> {
    line.subrange(i + 1, stop_from(line, i + 1))
}

/// Pops the top entry, if there is one.
pub open spec fn pop(stack: Seq<Option<Seq<char>>>) -> Seq<Option<Seq<char>>> {
    if stack.len() == 0 {
        stack
    } else {
        stack.drop_last()
    }
}

/// The stack after scanning `line` from index `i` on: every `(` pushes the
/// entry for the token after it, every `)` pops.
pub open spec fn process_from(stack: Seq<Option<Seq<char>>>, line: Seq<char>, i: int) -> Seq<
    Option<Seq<char>>,
>
    decreases line.len() - i,
{
    if i < 0 || i >= line.len() {
        stack
    } else if line[i] == '(' {
        process_from(stack.push(entry_for(token_after(line, i))), line, i + 1)
    } else if line[i] == ')' {
        process_from(pop(stack), line, i + 1)
    } else {
        process_from(stack, line, i + 1)
    }
}

/// The stack after scanning all of `line`.
pub open spec fn process(stack: Seq<Option<Seq<char>>>, line: Seq<char>) -> Seq<
    Option<Seq<char>>,
> {
    process_from(stack, line, 0)
}

/// The real files on the stack, outermost first.
pub open spec fn chain(stack: Seq<Option<Seq<char>>>) -> Seq<Seq<char>>
    decreases stack.len(),
{
    if stack.len() == 0 {
        Seq::empty()
    } else {
        match stack.last() {
            Some(p) => chain(stack.drop_last()).push(p),
            None => chain(stack.drop_last()),
        }
    }
}

/// The innermost real file on the stack, or the empty path.
pub open spec fn current(stack: Seq<Option<Seq<char>>>) -> Seq<char>
    decreases stack.len(),
{
    if stack.len() == 0 {
        Seq::empty()
    } else {
        match stack.last() {
            Some(p) => p,
            None => current(stack.drop_last()),
        }
    }
}

/// Tracks TeX's `(path` / `)` file-open/close nesting across the log
/// stream. Every `(` pushes an entry - `Some(path)` if it looks like a file
/// path, `None` otherwise (e.g. `(output active)`, `(see manual)`) - so that
/// a later `)` always pops the matching entry, whether or not it was a real
/// file open. [`FileStack::current_file`] reports the innermost open file,
/// skipping over any non-path entries above it.
#[derive(Debug, Default)]
pub struct FileStack {
    stack: Vec<Option<String>>,
}

pub open spec fn entry_view(e: Option<String>) -> Option<Seq<char>> {
    match e {
        Some(s) => Some(s@),
        None => None,
    }
}

impl View for FileStack {
    type V = Seq<Option<Seq<char>>>;

    closed spec fn view(&self) -> Seq<Option<Seq<char>>> {
        self.stack@.map_values(|e: Option<String>| entry_view(e))
    }
}

impl FileStack {
    pub fn new() -> (s: Self)
        ensures
            s@ == Seq::<Option<Seq<char>>>::empty(),
    {
        let s = Self { stack: Vec::new() };
        assert(s@ =~= Seq::<Option<Seq<char>>>::empty());
        s
    }

    /// The innermost currently-open file path, or `""` if none is open.
    pub fn current_file(&self) -> (r: &str)
        ensures
            r@ == current(self@),
    {
        let mut i = self.stack.len();
        assert(self@.take(i as int) =~= self@);
        while i > 0
            invariant
                i <= self.stack@.len(),
                current(self@) == current(self@.take(i as int)),
            decreases i,
        {
            let ghost pre = self@.take(i as int);
            assert(pre.drop_last() =~= self@.take(i - 1));
            assert(pre.last() == entry_view(self.stack@[i - 1]));
            if let Some(path) = &self.stack[i - 1] {
                return path.as_str();
            }
            i = i - 1;
        }
        proof {
            reveal_strlit("");
        }
        assert(self@.take(0) =~= Seq::<Option<Seq<char>>>::empty());
        ""
    }

    /// Total paren-nesting depth, including non-path entries.
    pub fn depth(&self) -> (r: usize)
        ensures
            r == self@.len(),
    {
        self.stack.len()
    }

    /// Nesting level of [`FileStack::current_file`], counting only real file
    /// entries: 0 if no file is open, or if exactly one is (the top-level
    /// document); 1 for a file opened from within that one, etc.
    pub fn file_depth(&self) -> (r: usize)
        ensures
            r == (if chain(self@).len() == 0 {
                0
            } else {
                chain(self@).len() - 1
            }),
    {
        let c = self.file_chain();
        if c.len() == 0 {
            0
        } else {
            c.len() - 1
        }
    }

    /// The full chain of currently-open real files, outermost first, e.g.
    /// `["./main.tex", "./compiler.tex", "./compiler_g2n.tex"]`. Non-path
    /// entries are skipped, same as [`FileStack::current_file`].
    pub fn file_chain(&self) -> (r: Vec<String>)
        ensures
            r.deep_view() == chain(self@),
    {
        let mut r: Vec<String> = Vec::new();
        let mut i: usize = 0;
        while i < self.stack.len()
            invariant
                i <= self.stack@.len(),
                r.deep_view() == chain(self@.take(i as int)),
            decreases self.stack@.len() - i,
        {
            let ghost pre = self@.take(i + 1);
            assert(pre.drop_last() =~= self@.take(i as int));
            assert(pre.last() == entry_view(self.stack@[i as int]));
            match &self.stack[i] {
                Some(path) => {
                    let ghost before = r.deep_view();
                    r.push(path.clone());
                    assert(r.deep_view() =~= before.push(path@));
                },
                None => {},
            }
            i = i + 1;
        }
        assert(self@.take(self@.len() as int) =~= self@);
        r
    }

    /// Scan one already-joined logical line, updating the stack.
    pub fn process_line(&mut self, line: &str)
        ensures
            final(self)@ == process(old(self)@, line@),
    {
        let lv = chars_of(line);
        let mut i: usize = 0;
        while i < lv.len()
            invariant
                i <= lv@.len(),
                lv@ == line@,
                process(old(self)@, line@) == process_from(self@, line@, i as int),
            decreases lv@.len() - i,
        {
            let c = lv[i];
            if c == '(' {
                let end = find_token_end(lv.as_slice(), i + 1);
                let token = slice_of(lv.as_slice(), i + 1, end);
                let ghost before = self@;
                if looks_like_path_exec(token.as_slice()) {
                    self.stack.push(Some(string_of(token.as_slice())));
                } else {
                    self.stack.push(None);
                }
                assert(self@ =~= before.push(entry_for(token_after(line@, i as int))));
            } else if c == ')' {
                let ghost before = self@;
                self.stack.pop();
                assert(self@ =~= pop(before));
            }
            i = i + 1;
        }
    }
}

// ---------------------------------------------------------------------
// Laws
// ---------------------------------------------------------------------

/// The current file is the innermost file of the chain, or the empty path
/// when no real file is open.
pub proof fn law_current_file_is_innermost_of_chain(stack: Seq<Option<Seq<char>>>)
    ensures
        current(stack) == (if chain(stack).len() == 0 {
            Seq::<char>::empty()
        } else {
            chain(stack).last()
        }),
    decreases stack.len(),
{
    if stack.len() > 0 {
        law_current_file_is_innermost_of_chain(stack.drop_last());
    }
}

proof fn lemma_process_from_no_parens(stack: Seq<Option<Seq<char>>>, line: Seq<char>, i: int)
    requires
        0 <= i,
        !line.contains('('),
        !line.contains(')'),
    ensures
        process_from(stack, line, i) == stack,
    decreases line.len() - i,
{
    if i < line.len() {
        assert(line[i] != '(' && line[i] != ')');
        lemma_process_from_no_parens(stack, line, i + 1);
    }
}

/// A line with no parentheses leaves the stack as it was.
pub proof fn law_line_without_parens_keeps_stack(stack: Seq<Option<Seq<char>>>, line: Seq<char>)
    requires
        !line.contains('('),
        !line.contains(')'),
    ensures
        process(stack, line) == stack,
{
    lemma_process_from_no_parens(stack, line, 0);
}

/// A self-contained `(token)` group - a file opened and closed on the same
/// line, such as `(build/main.aux)`, or an annotation such as
/// `(see manual)` - nets to no change at all.
pub proof fn law_closed_group_nets_to_nothing(stack: Seq<Option<Seq<char>>>, token: Seq<char>)
    requires
        forall|j: int| 0 <= j < token.len() ==> !is_token_stop(#[trigger] token[j]),
    ensures
        process(stack, seq!['('] + token + seq![')']) == stack,
{
    let line = seq!['('] + token + seq![')'];
    let n = token.len() as int;
    assert(line.len() == n + 2);
    assert(line[n + 1] == ')');
    assert forall|j: int| 1 <= j <= n implies line[j] == token[j - 1] by {}
    assert forall|j: int| 1 <= j < n + 1 implies !is_token_stop(#[trigger] line[j]) by {
        assert(line[j] == token[j - 1]);
    }
    assert(is_token_stop(line[n + 1]));
    lemma_stop_from_skips(line, 1, n + 1);
    assert(line.subrange(1, n + 1) =~= token);
    let pushed = stack.push(entry_for(token));
    assert(process_from(stack, line, 0) == process_from(pushed, line, 1));
    lemma_process_from_plain_run(pushed, line, 1, n + 1);
    assert(pop(pushed) =~= stack);
    assert(process_from(pop(pushed), line, n + 2) == pop(pushed));
}

/// `stop_from` skips over a run of non-stop characters ending in a stop.
proof fn lemma_stop_from_skips(s: Seq<char>, i: int, k: int)
    requires
        0 <= i <= k < s.len(),
        forall|j: int| i <= j < k ==> !is_token_stop(#[trigger] s[j]),
        is_token_stop(s[k]),
    ensures
        stop_from(s, i) == k,
    decreases k - i,
{
    if i < k {
        lemma_stop_from_skips(s, i + 1, k);
    }
}

/// Scanning across a run of characters that are neither `(` nor `)`
/// changes nothing.
proof fn lemma_process_from_plain_run(
    stack: Seq<Option<Seq<char>>>,
    line: Seq<char>,
    i: int,
    k: int,
)
    requires
        0 <= i <= k <= line.len(),
        forall|j: int| i <= j < k ==> !is_token_stop(#[trigger] line[j]),
    ensures
        process_from(stack, line, i) == process_from(stack, line, k),
    decreases k - i,
{
    if i < k {
        assert(!is_token_stop(line[i]));
        lemma_process_from_plain_run(stack, line, i + 1, k);
    }
}

/// Closing more groups than are open never underflows: a `)` on an empty
/// stack leaves it empty.
pub proof fn law_close_on_empty_stack_stays_empty(line: Seq<char>)
    requires
        forall|j: int| 0 <= j < line.len() ==> #[trigger] line[j] == ')',
    ensures
        process(Seq::<Option<Seq<char>>>::empty(), line) == Seq::<Option<Seq<char>>>::empty(),
{
    lemma_close_only(line, 0);
}

proof fn lemma_close_only(line: Seq<char>, i: int)
    requires
        0 <= i,
        forall|j: int| 0 <= j < line.len() ==> #[trigger] line[j] == ')',
    ensures
        process_from(Seq::<Option<Seq<char>>>::empty(), line, i) == Seq::<
            Option<Seq<char>>,
        >::empty(),
    decreases line.len() - i,
{
    if i < line.len() {
        assert(line[i] == ')');
        assert(pop(Seq::<Option<Seq<char>>>::empty()) == Seq::<Option<Seq<char>>>::empty());
        lemma_close_only(line, i + 1);
    }
}


/// The real files a line opens from index `i` on, in order: the path
/// token after each `(`.
pub open spec fn opened_from(line: Seq<char>, i: int) -> Seq<Seq<char>>
    decreases line.len() - i,
{
    if i < 0 || i >= line.len() {
        Seq::empty()
    } else if line[i] == '(' && looks_like_path(token_after(line, i)) {
        seq![token_after(line, i)] + opened_from(line, i + 1)
    } else {
        opened_from(line, i + 1)
    }
}

/// How many `(` a line holds from index `i` on.
pub open spec fn opens_from(line: Seq<char>, i: int) -> nat
    decreases line.len() - i,
{
    if i < 0 || i >= line.len() {
        0
    } else if line[i] == '(' {
        1 + opens_from(line, i + 1)
    } else {
        opens_from(line, i + 1)
    }
}

proof fn lemma_growth_from(stack: Seq<Option<Seq<char>>>, line: Seq<char>, i: int)
    requires
        0 <= i,
        !line.contains(')'),
    ensures
        chain(process_from(stack, line, i)) == chain(stack) + opened_from(line, i),
        process_from(stack, line, i).len() == stack.len() + opens_from(line, i),
    decreases line.len() - i,
{
    if i < line.len() {
        assert(line[i] != ')');
        if line[i] == '(' {
            let e = entry_for(token_after(line, i));
            lemma_growth_from(stack.push(e), line, i + 1);
            assert(stack.push(e).drop_last() =~= stack);
            if looks_like_path(token_after(line, i)) {
                assert(chain(stack.push(e)) == chain(stack).push(token_after(line, i)));
                assert(chain(stack).push(token_after(line, i)) + opened_from(line, i + 1) =~= chain(
                    stack,
                ) + (seq![token_after(line, i)] + opened_from(line, i + 1)));
            } else {
                assert(chain(stack.push(e)) == chain(stack));
            }
        } else {
            lemma_growth_from(stack, line, i + 1);
        }
    } else {
        assert(chain(stack) + Seq::<Seq<char>>::empty() =~= chain(stack));
    }
}

/// Over a line that closes nothing, the file chain grows by the real files
/// the line opens, in order, and the nesting depth by the number of `(` it
/// holds.
pub proof fn law_chain_grows_by_the_files_a_line_opens(
    stack: Seq<Option<Seq<char>>>,
    line: Seq<char>,
)
    requires
        !line.contains(')'),
    ensures
        chain(process(stack, line)) == chain(stack) + opened_from(line, 0),
        process(stack, line).len() == stack.len() + opens_from(line, 0),
{
    lemma_growth_from(stack, line, 0);
}

} // verus!
