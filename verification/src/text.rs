//! Characters of a text: white space, letter case, tokens and lines.
//!
//! White space is what Unicode calls so, and letter case is folded as Unicode
//! folds it: a text is compared with a key word after it has been put into
//! upper case as a whole, which may change its length.

use vstd::prelude::*;

verus! {

/// White space: the characters that have the Unicode property `White_Space`,
/// which are the characters that `char::is_whitespace` holds of.
pub open spec fn is_space(c: char) -> bool {
    let n = c as u32;
    ||| 0x09 <= n <= 0x0d
    ||| n == 0x20
    ||| n == 0x85
    ||| n == 0xa0
    ||| n == 0x1680
    ||| 0x2000 <= n <= 0x200a
    ||| n == 0x2028
    ||| n == 0x2029
    ||| n == 0x202f
    ||| n == 0x205f
    ||| n == 0x3000
}

/// Whether every character of `s` is an ASCII character.
pub open spec fn is_ascii_text(s: Seq<char>) -> bool {
    forall|i: int| 0 <= i < s.len() ==> (#[trigger] s[i]) as u32 <= 0x7f
}

/// The upper-case form of an ASCII character: a small letter becomes its
/// capital, any other character stays.
pub open spec fn ascii_upper(c: char) -> char {
    if 0x61 <= c as u32 <= 0x7a {
        ((c as u32) - 0x20) as char
    } else {
        c
    }
}

/// `s` with every small ASCII letter as its capital.
pub open spec fn ascii_upper_text(s: Seq<char>) -> Seq<char> {
    Seq::new(s.len(), |i: int| ascii_upper(s[i]))
}

/// What `str::to_uppercase` makes of a text that holds a character beyond
/// ASCII.
pub uninterp spec fn unicode_upper(s: Seq<char>) -> Seq<char>;

/// The upper-case form of a text, as Unicode defines it: in a text of ASCII
/// characters every small letter becomes its capital; what becomes of any
/// other text is for `str::to_uppercase` to say.
pub open spec fn upper_of(s: Seq<char>) -> Seq<char> {
    if is_ascii_text(s) {
        ascii_upper_text(s)
    } else {
        unicode_upper(s)
    }
}

/// Whether `token`, letter case aside, is the word `word` (given in capitals).
pub open spec fn is_word(token: Seq<char>, word: Seq<char>) -> bool {
    upper_of(token) == word
}

/// Whether `text` begins with `word`.
pub open spec fn starts_with(text: Seq<char>, word: Seq<char>) -> bool {
    text.len() >= word.len() && text.take(word.len() as int) == word
}

/// Whether `text`, letter case aside, begins with the word `word` (given in
/// capitals): whether its upper-case form begins with it.
pub open spec fn begins_with(text: Seq<char>, word: Seq<char>) -> bool {
    starts_with(upper_of(text), word)
}

/// Whether `c` is white space.
pub fn is_space_char(c: char) -> (r: bool)
    ensures
        r == is_space(c),
{
    let n = c as u32;
    (0x09 <= n && n <= 0x0d) || n == 0x20 || n == 0x85 || n == 0xa0 || n == 0x1680 || (0x2000 <= n
        && n <= 0x200a) || n == 0x2028 || n == 0x2029 || n == 0x202f || n == 0x205f || n == 0x3000
}

/// The characters of `s`.
pub fn chars_of(s: &str) -> (r: Vec<char>)
    ensures
        r@ == s@,
{
    let mut out: Vec<char> = Vec::new();
    for c in it: s.chars()
        invariant
            out@ == it.seq().take(it.index() as int),
            it.seq() == s@,
    {
        out.push(c);
    }
    out
}

/// `String::from_iter` over the characters: the text that holds the
/// characters `chars`, in order.
#[verifier::external_body]
pub(crate) fn string_of(chars: &[char]) -> (r: String)
    ensures
        r@ == chars@,
{
    chars.iter().collect()
}

/// `str::to_uppercase`: the upper-case form of a text. Of a text of ASCII
/// characters it is the text with every small letter as its capital; of any
/// other text it is what the Unicode tables of the standard library give,
/// which has a name here and no statement.
#[verifier::external_body]
pub(crate) fn to_upper(text: &[char]) -> (r: Vec<char>)
    ensures
        is_ascii_text(text@) ==> r@ == ascii_upper_text(text@),
        !is_ascii_text(text@) ==> r@ == unicode_upper(text@),
{
    text.iter().collect::<String>().to_uppercase().chars().collect()
}

/// Whether the text `text` is the word `word`.
pub fn eq_text(text: &[char], word: &str) -> (r: bool)
    ensures
        r == (text@ == word@),
{
    let w = chars_of(word);
    if text.len() != w.len() {
        return false;
    }
    let mut i: usize = 0;
    while i < text.len()
        invariant
            i <= text.len(),
            text.len() == w.len(),
            w@ == word@,
            forall|k: int| 0 <= k < i ==> text@[k] == w@[k],
        decreases text.len() - i,
    {
        if text[i] != w[i] {
            return false;
        }
        i += 1;
    }
    assert(text@ =~= word@);
    true
}

/// Whether the text `text` begins with the word `word`.
pub fn starts_text(text: &[char], word: &str) -> (r: bool)
    ensures
        r == starts_with(text@, word@),
{
    let w = chars_of(word);
    if text.len() < w.len() {
        return false;
    }
    let ghost head = text@.take(word@.len() as int);
    let mut i: usize = 0;
    while i < w.len()
        invariant
            i <= w.len(),
            w.len() <= text.len(),
            w@ == word@,
            head == text@.take(word@.len() as int),
            forall|k: int| 0 <= k < i ==> text@[k] == w@[k],
        decreases w.len() - i,
    {
        if text[i] != w[i] {
            assert(head[i as int] != word@[i as int]);
            return false;
        }
        i += 1;
    }
    assert(head =~= word@);
    true
}

/// The index of the first character of `s` at or after `i` that is no white
/// space, or the length of `s`.
pub open spec fn space_end(s: Seq<char>, i: int) -> int
    decreases s.len() - i,
{
    if i < 0 || i >= s.len() || !is_space(s[i]) {
        i
    } else {
        space_end(s, i + 1)
    }
}

/// The length of `s` without the white space at its end.
pub open spec fn trimmed_len(s: Seq<char>) -> int
    decreases s.len(),
{
    if s.len() == 0 || !is_space(s.last()) {
        s.len() as int
    } else {
        trimmed_len(s.drop_last())
    }
}

/// `s` without the white space at its two ends.
pub open spec fn trim(s: Seq<char>) -> Seq<char> {
    if space_end(s, 0) >= trimmed_len(s) {
        Seq::empty()
    } else {
        s.subrange(space_end(s, 0), trimmed_len(s))
    }
}

/// If every character of `s` from `i` up to `j` is white space, the white
/// space that starts at `i` ends where the white space that starts at `j` ends.
pub proof fn lemma_space_end_skip(s: Seq<char>, i: int, j: int)
    requires
        0 <= i <= j <= s.len(),
        forall|k: int| i <= k < j ==> is_space(#[trigger] s[k]),
    ensures
        space_end(s, i) == space_end(s, j),
    decreases j - i,
{
    if i < j {
        lemma_space_end_skip(s, i + 1, j);
    }
}

/// If every character of `s` from `j` on is white space, `s` without the white
/// space at its end is as long as its first `j` characters without theirs, and
/// no longer than `j`.
pub proof fn lemma_trimmed_len_take(s: Seq<char>, j: int)
    requires
        0 <= j <= s.len(),
        forall|k: int| j <= k < s.len() ==> is_space(#[trigger] s[k]),
    ensures
        trimmed_len(s) == trimmed_len(s.take(j)),
        trimmed_len(s.take(j)) <= j,
    decreases s.len() - j,
{
    if j < s.len() {
        assert(is_space(s[s.len() - 1]));
        lemma_trimmed_len_take(s.drop_last(), j);
        assert(s.drop_last().take(j) =~= s.take(j));
    } else {
        assert(s.take(j) =~= s);
        lemma_trimmed_len_bound(s);
    }
}

/// A text without the white space at its end is no longer than the text.
pub proof fn lemma_trimmed_len_bound(s: Seq<char>)
    ensures
        0 <= trimmed_len(s) <= s.len(),
    decreases s.len(),
{
    if s.len() > 0 && is_space(s.last()) {
        lemma_trimmed_len_bound(s.drop_last());
    }
}

/// A text that neither begins nor ends with white space is trimmed already.
pub proof fn lemma_trim_of_trimmed(s: Seq<char>)
    requires
        s.len() > 0,
        !is_space(s[0]),
        !is_space(s.last()),
    ensures
        trim(s) == s,
{
    assert(s.subrange(0, s.len() as int) =~= s);
}

/// `line` without the white space at its two ends.
pub fn trim_line<'a>(line: &'a [char]) -> (r: &'a [char])
    ensures
        r@ == trim(line@),
{
    let mut a: usize = 0;
    while a < line.len() && is_space_char(line[a])
        invariant
            a <= line.len(),
            forall|k: int| 0 <= k < a ==> is_space(#[trigger] line@[k]),
        decreases line.len() - a,
    {
        a += 1;
    }
    proof {
        lemma_space_end_skip(line@, 0, a as int);
    }
    let mut b: usize = line.len();
    while b > a && is_space_char(line[b - 1])
        invariant
            a <= b <= line.len(),
            forall|k: int| b <= k < line.len() ==> is_space(#[trigger] line@[k]),
        decreases b,
    {
        b -= 1;
    }
    proof {
        lemma_trimmed_len_take(line@, b as int);
        if b > a {
            assert(line@.take(b as int).last() == line@[b - 1]);
        }
    }
    let r = vstd::slice::slice_subrange(line, a, b);
    assert(r@ =~= trim(line@));
    r
}

/// The index at which the run of characters without white space that starts at `i` ends.
pub open spec fn word_end(s: Seq<char>, i: int) -> int
    decreases s.len() - i,
{
    if i < 0 || i >= s.len() || is_space(s[i]) {
        i
    } else {
        word_end(s, i + 1)
    }
}

/// The tokens of `s` from index `i` on.
pub open spec fn tokens_from(s: Seq<char>, i: int) -> Seq<Seq<char>>
    decreases s.len() - i,
{
    if i < 0 || i >= s.len() {
        Seq::empty()
    } else if is_space(s[i]) {
        tokens_from(s, i + 1)
    } else {
        proof {
            lemma_word_end_bounds(s, i + 1);
        }
        seq![s.subrange(i, word_end(s, i))] + tokens_from(s, word_end(s, i))
    }
}

/// The tokens of `s`: its longest runs of characters without white space, in order.
pub open spec fn tokens(s: Seq<char>) -> Seq<Seq<char>> {
    tokens_from(s, 0)
}

/// A run of characters without white space ends at or after its start and within the text.
pub proof fn lemma_word_end_bounds(s: Seq<char>, i: int)
    requires
        0 <= i <= s.len(),
    ensures
        i <= word_end(s, i) <= s.len(),
        word_end(s, i) < s.len() ==> is_space(s[word_end(s, i)]),
        forall|k: int| i <= k < word_end(s, i) ==> !is_space(#[trigger] s[k]),
    decreases s.len() - i,
{
    if i < s.len() && !is_space(s[i]) {
        lemma_word_end_bounds(s, i + 1);
    }
}

/// If no character of `s` from `i` up to `j` is white space, the run that starts at `i`
/// ends where the run that starts at `j` ends.
pub proof fn lemma_word_end_skip(s: Seq<char>, i: int, j: int)
    requires
        0 <= i <= j <= s.len(),
        forall|k: int| i <= k < j ==> !is_space(#[trigger] s[k]),
    ensures
        word_end(s, i) == word_end(s, j),
    decreases j - i,
{
    if i < j {
        lemma_word_end_skip(s, i + 1, j);
    }
}

/// The views of a vector of slices.
pub open spec fn views(v: Seq<&[char]>) -> Seq<Seq<char>> {
    Seq::new(v.len(), |i: int| v[i]@)
}

/// The tokens of `line`, in order.
pub fn split_tokens<'a>(line: &'a [char]) -> (r: Vec<&'a [char]>)
    ensures
        views(r@) == tokens(line@),
{
    let mut out: Vec<&'a [char]> = Vec::new();
    let mut i: usize = 0;
    while i < line.len()
        invariant
            i <= line.len(),
            tokens(line@) == views(out@) + tokens_from(line@, i as int),
        decreases line.len() - i,
    {
        if is_space_char(line[i]) {
            i += 1;
        } else {
            let mut j: usize = i + 1;
            while j < line.len() && !is_space_char(line[j])
                invariant
                    i < j <= line.len(),
                    forall|k: int| i <= k < j ==> !is_space(#[trigger] line@[k]),
                decreases line.len() - j,
            {
                j += 1;
            }
            proof {
                lemma_word_end_skip(line@, i as int, j as int);
                assert(word_end(line@, j as int) == j);
            }
            let ghost before = views(out@);
            let token = vstd::slice::slice_subrange(line, i, j);
            out.push(token);
            assert(views(out@) =~= before + seq![line@.subrange(i as int, j as int)]);
            assert(before + (seq![line@.subrange(i as int, j as int)] + tokens_from(line@, j as int))
                =~= views(out@) + tokens_from(line@, j as int));
            i = j;
        }
    }
    assert(views(out@) + Seq::<Seq<char>>::empty() =~= views(out@));
    out
}

/// The index of the first line feed of `s` at or after `i`, or the length of `s`.
pub open spec fn line_end(s: Seq<char>, i: int) -> int
    decreases s.len() - i,
{
    if i < 0 || i >= s.len() || s[i] == '\n' {
        i
    } else {
        line_end(s, i + 1)
    }
}

/// The lines of `s` from index `i` on.
pub open spec fn lines_from(s: Seq<char>, i: int) -> Seq<Seq<char>>
    decreases s.len() - i,
{
    if i < 0 || i > s.len() {
        Seq::empty()
    } else {
        proof {
            lemma_line_end_bounds(s, i);
        }
        let j = line_end(s, i);
        if j >= s.len() {
            seq![s.subrange(i, j)]
        } else {
            seq![s.subrange(i, j)] + lines_from(s, j + 1)
        }
    }
}

/// The lines of `s`: the stretches between its line feeds, in order. A text
/// that ends in a line feed has an empty last line.
pub open spec fn lines(s: Seq<char>) -> Seq<Seq<char>> {
    lines_from(s, 0)
}

/// A line ends at or after its start and within the text, at a line feed or at
/// the end, and holds no line feed.
pub proof fn lemma_line_end_bounds(s: Seq<char>, i: int)
    requires
        0 <= i <= s.len(),
    ensures
        i <= line_end(s, i) <= s.len(),
        line_end(s, i) < s.len() ==> s[line_end(s, i)] == '\n',
        forall|k: int| i <= k < line_end(s, i) ==> #[trigger] s[k] != '\n',
    decreases s.len() - i,
{
    if i < s.len() && s[i] != '\n' {
        lemma_line_end_bounds(s, i + 1);
    }
}

/// If no character of `s` from `i` up to `j` is a line feed, the line that starts at
/// `i` ends where the line that starts at `j` ends.
pub proof fn lemma_line_end_skip(s: Seq<char>, i: int, j: int)
    requires
        0 <= i <= j <= s.len(),
        forall|k: int| i <= k < j ==> #[trigger] s[k] != '\n',
    ensures
        line_end(s, i) == line_end(s, j),
    decreases j - i,
{
    if i < j {
        lemma_line_end_skip(s, i + 1, j);
    }
}

/// The lines of `text`, in order.
pub fn split_lines<'a>(text: &'a [char]) -> (r: Vec<&'a [char]>)
    ensures
        views(r@) == lines(text@),
{
    let mut out: Vec<&'a [char]> = Vec::new();
    let mut i: usize = 0;
    loop
        invariant_except_break
            i <= text.len(),
            lines(text@) == views(out@) + lines_from(text@, i as int),
        ensures
            views(out@) == lines(text@),
        decreases text.len() - i,
    {
        let mut j: usize = i;
        while j < text.len() && text[j] != '\n'
            invariant
                i <= j <= text.len(),
                forall|k: int| i <= k < j ==> #[trigger] text@[k] != '\n',
            decreases text.len() - j,
        {
            j += 1;
        }
        proof {
            lemma_line_end_skip(text@, i as int, j as int);
            assert(line_end(text@, j as int) == j);
        }
        let ghost before = views(out@);
        let line = vstd::slice::slice_subrange(text, i, j);
        out.push(line);
        assert(views(out@) =~= before + seq![text@.subrange(i as int, j as int)]);
        if j == text.len() {
            assert(views(out@) =~= lines(text@));
            break;
        }
        assert(before + (seq![text@.subrange(i as int, j as int)] + lines_from(text@, j + 1))
            =~= views(out@) + lines_from(text@, j + 1));
        i = j + 1;
    }
    out
}

/// Whether `t` can stand as a token: it is not empty and holds no white space.
pub open spec fn is_token(t: Seq<char>) -> bool {
    t.len() > 0 && forall|k: int| 0 <= k < t.len() ==> !is_space(#[trigger] t[k])
}

/// Whether `b` can stand as a line: it holds no line feed.
pub open spec fn is_line(b: Seq<char>) -> bool {
    forall|k: int| 0 <= k < b.len() ==> #[trigger] b[k] != '\n'
}

/// The tokens `ts` from index `i` on, written with one space between two of them.
pub open spec fn join_tokens(ts: Seq<Seq<char>>, i: int) -> Seq<char>
    decreases ts.len() - i,
{
    if i < 0 || i >= ts.len() {
        Seq::empty()
    } else if i == ts.len() - 1 {
        ts[i]
    } else {
        ts[i] + seq![' '] + join_tokens(ts, i + 1)
    }
}

/// The lines `ls` from index `i` on, written with a line feed after each.
pub open spec fn join_lines(ls: Seq<Seq<char>>, i: int) -> Seq<char>
    decreases ls.len() - i,
{
    if i < 0 || i >= ls.len() {
        Seq::empty()
    } else {
        ls[i] + seq!['\n'] + join_lines(ls, i + 1)
    }
}

/// Where a run without white space ends does not depend on what stands before
/// it in the text.
pub proof fn lemma_word_end_shift(s: Seq<char>, k: int, i: int)
    requires
        0 <= k,
        0 <= i,
        k + i <= s.len(),
    ensures
        word_end(s, k + i) == k + word_end(s.skip(k), i),
    decreases s.len() - k - i,
{
    if k + i < s.len() && !is_space(s[k + i]) {
        lemma_word_end_shift(s, k, i + 1);
    }
}

/// The tokens of a text from an index on do not depend on what stands before
/// that index.
pub proof fn lemma_tokens_from_shift(s: Seq<char>, k: int, i: int)
    requires
        0 <= k,
        0 <= i,
        k + i <= s.len(),
    ensures
        tokens_from(s, k + i) == tokens_from(s.skip(k), i),
    decreases s.len() - k - i,
{
    let t = s.skip(k);
    if k + i < s.len() {
        if is_space(s[k + i]) {
            lemma_tokens_from_shift(s, k, i + 1);
        } else {
            lemma_word_end_shift(s, k, i);
            lemma_word_end_bounds(t, i + 1);
            let e = word_end(t, i);
            assert(s.subrange(k + i, k + e) =~= t.subrange(i, e));
            lemma_tokens_from_shift(s, k, e);
        }
    }
}

/// A token at the head of a text, followed by a space, is the first token of
/// the text, and the other tokens are those of what follows the space.
pub proof fn lemma_tokens_cons(t: Seq<char>, rest: Seq<char>)
    requires
        is_token(t),
    ensures
        tokens(t + seq![' '] + rest) == seq![t] + tokens(rest),
        tokens(t) == seq![t],
{
    let n = t.len() as int;
    let s = t + seq![' '] + rest;
    assert forall|k: int| 0 <= k < n implies !is_space(#[trigger] s[k]) by {
        assert(s[k] == t[k]);
    }
    lemma_word_end_skip(s, 0, n);
    assert(is_space(s[n]));
    assert(word_end(s, n) == n);
    assert(s.subrange(0, n) =~= t);
    assert(!is_space(s[0]));
    assert(tokens_from(s, 0) == seq![t] + tokens_from(s, n));
    assert(tokens_from(s, n) == tokens_from(s, n + 1));
    lemma_tokens_from_shift(s, n + 1, 0);
    assert(s.skip(n + 1) =~= rest);

    assert forall|k: int| 0 <= k < n implies !is_space(#[trigger] t[k]) by {}
    lemma_word_end_skip(t, 0, n);
    assert(word_end(t, n) == n);
    assert(t.subrange(0, n) =~= t);
    assert(!is_space(t[0]));
    assert(tokens_from(t, n) =~= Seq::<Seq<char>>::empty());
    assert(tokens_from(t, 0) =~= seq![t]);
}

/// Tokens that are written with one space between them are read back as they
/// were.
pub proof fn lemma_tokens_of_join(ts: Seq<Seq<char>>, i: int)
    requires
        0 <= i <= ts.len(),
        forall|j: int| 0 <= j < ts.len() ==> is_token(#[trigger] ts[j]),
    ensures
        tokens(join_tokens(ts, i)) == ts.skip(i),
    decreases ts.len() - i,
{
    if i == ts.len() {
        assert(tokens(Seq::<char>::empty()) =~= Seq::<Seq<char>>::empty());
        assert(ts.skip(i) =~= Seq::<Seq<char>>::empty());
    } else if i == ts.len() - 1 {
        lemma_tokens_cons(ts[i], Seq::empty());
        assert(ts.skip(i) =~= seq![ts[i]]);
    } else {
        lemma_tokens_of_join(ts, i + 1);
        lemma_tokens_cons(ts[i], join_tokens(ts, i + 1));
        assert(ts.skip(i) =~= seq![ts[i]] + ts.skip(i + 1));
    }
}

/// Where a line ends does not depend on what stands before it in the text.
pub proof fn lemma_line_end_shift(s: Seq<char>, k: int, i: int)
    requires
        0 <= k,
        0 <= i,
        k + i <= s.len(),
    ensures
        line_end(s, k + i) == k + line_end(s.skip(k), i),
    decreases s.len() - k - i,
{
    if k + i < s.len() && s[k + i] != '\n' {
        lemma_line_end_shift(s, k, i + 1);
    }
}

/// The lines of a text from an index on do not depend on what stands before
/// that index.
pub proof fn lemma_lines_from_shift(s: Seq<char>, k: int, i: int)
    requires
        0 <= k,
        0 <= i,
        k + i <= s.len(),
    ensures
        lines_from(s, k + i) == lines_from(s.skip(k), i),
    decreases s.len() - k - i,
{
    let t = s.skip(k);
    lemma_line_end_shift(s, k, i);
    lemma_line_end_bounds(t, i);
    let e = line_end(t, i);
    assert(s.subrange(k + i, k + e) =~= t.subrange(i, e));
    if e < t.len() {
        lemma_lines_from_shift(s, k, e + 1);
    }
}

/// A line at the head of a text, followed by a line feed, is the first line of
/// the text, and the other lines are those of what follows the line feed.
pub proof fn lemma_lines_cons(b: Seq<char>, rest: Seq<char>)
    requires
        is_line(b),
    ensures
        lines(b + seq!['\n'] + rest) == seq![b] + lines(rest),
{
    let n = b.len() as int;
    let s = b + seq!['\n'] + rest;
    assert forall|k: int| 0 <= k < n implies #[trigger] s[k] != '\n' by {
        assert(s[k] == b[k]);
    }
    lemma_line_end_skip(s, 0, n);
    assert(s[n] == '\n');
    assert(line_end(s, n) == n);
    assert(s.subrange(0, n) =~= b);
    lemma_lines_from_shift(s, n + 1, 0);
    assert(s.skip(n + 1) =~= rest);
}

/// Lines that are written with a line feed after each are read back as they
/// were, with one empty line behind them.
pub proof fn lemma_lines_of_join(ls: Seq<Seq<char>>, i: int)
    requires
        0 <= i <= ls.len(),
        forall|j: int| 0 <= j < ls.len() ==> is_line(#[trigger] ls[j]),
    ensures
        lines(join_lines(ls, i)) == ls.skip(i).push(Seq::empty()),
    decreases ls.len() - i,
{
    if i == ls.len() {
        let e = Seq::<char>::empty();
        assert(e.subrange(0, 0) =~= e);
        assert(lines(e) =~= seq![e]);
        assert(ls.skip(i).push(e) =~= seq![e]);
    } else {
        lemma_lines_of_join(ls, i + 1);
        lemma_lines_cons(ls[i], join_lines(ls, i + 1));
        assert(ls.skip(i).push(Seq::empty()) =~= seq![ls[i]] + ls.skip(i + 1).push(Seq::empty()));
    }
}

/// The texts of a vector of texts.
pub open spec fn texts(v: Seq<Vec<char>>) -> Seq<Seq<char>> {
    Seq::new(v.len(), |i: int| v[i]@)
}

/// Writes the tokens `ts` behind `out`, with one space between two of them.
pub fn write_tokens(out: &mut Vec<char>, ts: &Vec<Vec<char>>)
    ensures
        final(out)@ == old(out)@ + join_tokens(texts(ts@), 0),
{
    let mut i: usize = 0;
    assert(out@ =~= old(out)@ + Seq::<char>::empty());
    while i < ts.len()
        invariant
            i <= ts.len(),
            old(out)@ + join_tokens(texts(ts@), 0) == out@ + join_tokens(texts(ts@), i as int),
        decreases ts.len() - i,
    {
        let ghost before = out@;
        let token = &ts[i];
        assert(texts(ts@)[i as int] == token@);
        out.extend_from_slice(token.as_slice());
        if i + 1 < ts.len() {
            out.push(' ');
            assert(before + (token@ + seq![' '] + join_tokens(texts(ts@), i + 1)) =~= out@
                + join_tokens(texts(ts@), i + 1));
        } else {
            assert(before + token@ =~= out@ + join_tokens(texts(ts@), i + 1));
        }
        i += 1;
    }
    assert(out@ + Seq::<char>::empty() =~= out@);
}

} // verus!
