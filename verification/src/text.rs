//! Text primitives on sequences of characters: splitting, trimming,
//! whitespace and case-insensitive comparison.
//!
//! Every function is specified over `Seq<char>`, the view of `str` and
//! `String`.

use vstd::prelude::*;
use vstd::string::*;

verus! {

/// The views of a sequence of strings, in order.
pub open spec fn texts(v: Seq<String>) -> Seq<Seq<char>> {
    Seq::new(v.len(), |i: int| v[i]@)
}

/// The characters of `s`, in order.
pub fn chars_of(s: &str) -> (v: Vec<char>)
    ensures
        v@ == s@,
{
    let mut v: Vec<char> = Vec::new();
    for c in it: s.chars()
        invariant
            it.seq() == s@,
            v@ == it.seq().take(it.index() as int),
    {
        v.push(c);
    }
    v
}

/// Collects characters into a `String` with `String::from_iter`: the result
/// holds exactly the characters of `chars`, in order.
#[verifier::external_body]
pub(crate) fn string_of(chars: &Vec<char>) -> (s: String)
    ensures
        s@ == chars@,
{
    String::from_iter(chars.iter())
}

/// Whether `c` is one of the code points with the Unicode property
/// White_Space.
pub open spec fn is_whitespace(c: char) -> bool {
    let n = c as u32;
    ||| 0x09 <= n <= 0x0D
    ||| n == 0x20
    ||| n == 0x85
    ||| n == 0xA0
    ||| n == 0x1680
    ||| 0x2000 <= n <= 0x200A
    ||| n == 0x2028
    ||| n == 0x2029
    ||| n == 0x202F
    ||| n == 0x205F
    ||| n == 0x3000
}

/// Decides [`is_whitespace`].
pub fn char_is_whitespace(c: char) -> (b: bool)
    ensures
        b == is_whitespace(c),
{
    let n: u32 = c as u32;
    (0x09 <= n && n <= 0x0D) || n == 0x20 || n == 0x85 || n == 0xA0 || n == 0x1680 || (0x2000 <= n
        && n <= 0x200A) || n == 0x2028 || n == 0x2029 || n == 0x202F || n == 0x205F || n == 0x3000
}

/// What separates the pieces of a text.
#[derive(Clone, Copy, Debug, PartialEq, Eq)]
pub enum Delimiter {
    /// One given character.
    Char(char),
    /// Any whitespace character.
    Whitespace,
}

impl Delimiter {
    /// Whether `c` separates two pieces.
    pub open spec fn separates(self, c: char) -> bool {
        match self {
            Delimiter::Char(d) => c == d,
            Delimiter::Whitespace => is_whitespace(c),
        }
    }

    /// Decides [`Delimiter::separates`].
    pub fn is_separator(&self, c: char) -> (b: bool)
        ensures
            b == self.separates(c),
    {
        match self {
            Delimiter::Char(d) => c == *d,
            Delimiter::Whitespace => char_is_whitespace(c),
        }
    }
}

/// The pieces of `s` between separators, in order. A text without a
/// separator is one piece; `k` separators give `k + 1` pieces, some of which
/// may be empty.
pub open spec fn split(s: Seq<char>, d: Delimiter) -> Seq<Seq<char>>
    decreases s.len(),
{
    if s.len() == 0 {
        seq![Seq::<char>::empty()]
    } else {
        let front = split(s.drop_last(), d);
        if d.separates(s.last()) {
            front.push(Seq::<char>::empty())
        } else {
            front.drop_last().push(front.last().push(s.last()))
        }
    }
}

/// `split` always yields at least one piece.
pub proof fn lemma_split_nonempty(s: Seq<char>, d: Delimiter)
    ensures
        split(s, d).len() >= 1,
    decreases s.len(),
{
    if s.len() > 0 {
        lemma_split_nonempty(s.drop_last(), d);
    }
}

/// No piece of a split text holds a separator.
pub proof fn lemma_split_pieces_hold_no_separator(s: Seq<char>, d: Delimiter)
    ensures
        forall|i: int, j: int|
            0 <= i < split(s, d).len() && 0 <= j < split(s, d)[i].len() ==> !d.separates(
                #[trigger] split(s, d)[i][j],
            ),
    decreases s.len(),
{
    if s.len() > 0 {
        lemma_split_pieces_hold_no_separator(s.drop_last(), d);
        lemma_split_nonempty(s.drop_last(), d);
    }
}

/// The pieces with the character `c` between each two of them.
pub open spec fn join(pieces: Seq<Seq<char>>, c: char) -> Seq<char>
    decreases pieces.len(),
{
    if pieces.len() == 0 {
        Seq::empty()
    } else if pieces.len() == 1 {
        pieces[0]
    } else {
        join(pieces.drop_last(), c).push(c) + pieces.last()
    }
}

/// Splitting at a character loses nothing: the pieces, joined by that
/// character, are the text again.
pub proof fn lemma_split_then_join(s: Seq<char>, c: char)
    ensures
        join(split(s, Delimiter::Char(c)), c) == s,
    decreases s.len(),
{
    let d = Delimiter::Char(c);
    if s.len() > 0 {
        let front = split(s.drop_last(), d);
        lemma_split_then_join(s.drop_last(), c);
        lemma_split_nonempty(s.drop_last(), d);
        if s.last() == c {
            assert(front.push(Seq::<char>::empty()).drop_last() == front);
        } else {
            let grown = front.last().push(s.last());
            let all = front.drop_last().push(grown);
            assert(all.drop_last() == front.drop_last());
            if front.len() > 1 {
                assert(join(front.drop_last(), c).push(c) + grown == (join(front.drop_last(), c).push(
                    c,
                ) + front.last()).push(s.last()));
            }
        }
    }
}

/// Splits `s` at every separator.
pub fn split_text(s: &str, d: &Delimiter) -> (pieces: Vec<String>)
    ensures
        texts(pieces@) == split(s@, *d),
{
    let mut pieces: Vec<String> = Vec::new();
    let mut current: Vec<char> = Vec::new();
    for c in it: s.chars()
        invariant
            it.seq() == s@,
            split(s@.take(it.index() as int), *d) == texts(pieces@).push(current@),
    {
        proof {
            let i = it.index() as int;
            assert(s@.take(i + 1).drop_last() == s@.take(i));
        }
        if d.is_separator(c) {
            let piece = string_of(&current);
            pieces.push(piece);
            current = Vec::new();
        } else {
            current.push(c);
        }
    }
    let piece = string_of(&current);
    proof {
        assert(s@.take(s@.len() as int) == s@);
    }
    pieces.push(piece);
    pieces
}

/// `s` without one trailing carriage return, if it ends in one.
pub open spec fn strip_cr(s: Seq<char>) -> Seq<char> {
    if s.len() > 0 && s.last() == '\r' {
        s.drop_last()
    } else {
        s
    }
}

/// The lines of `s`. A line ends at each `'\n'`; the `'\n'` and a `'\r'`
/// directly before it belong to no line. What follows the last `'\n'` is a
/// line of its own unless it is empty.
pub open spec fn lines(s: Seq<char>) -> Seq<Seq<char>> {
    let parts = split(s, Delimiter::Char('\n'));
    let ended = parts.drop_last().map_values(|p: Seq<char>| strip_cr(p));
    if parts.last().len() == 0 {
        ended
    } else {
        ended.push(parts.last())
    }
}

/// No line holds a line feed.
pub proof fn lemma_lines_hold_no_line_feed(s: Seq<char>)
    ensures
        forall|i: int, j: int|
            0 <= i < lines(s).len() && 0 <= j < lines(s)[i].len() ==> #[trigger] lines(s)[i][j]
                != '\n',
{
    let nl = Delimiter::Char('\n');
    lemma_split_nonempty(s, nl);
    lemma_split_pieces_hold_no_separator(s, nl);
}

/// Splits `s` into its lines.
pub fn split_lines(s: &str) -> (out: Vec<String>)
    ensures
        texts(out@) == lines(s@),
{
    let ghost nl = Delimiter::Char('\n');
    let mut out: Vec<String> = Vec::new();
    let mut current: Vec<char> = Vec::new();
    for c in it: s.chars()
        invariant
            nl == Delimiter::Char('\n'),
            it.seq() == s@,
            split(s@.take(it.index() as int), nl).last() == current@,
            split(s@.take(it.index() as int), nl).drop_last().map_values(
                |p: Seq<char>| strip_cr(p),
            ) == texts(out@),
    {
        proof {
            let i = it.index() as int;
            assert(s@.take(i + 1).drop_last() == s@.take(i));
            lemma_split_nonempty(s@.take(i), nl);
        }
        if c == '\n' {
            let n: usize = current.len();
            if n > 0 && current[n - 1] == '\r' {
                current.pop();
            }
            let line = string_of(&current);
            proof {
                assert(texts(out@.push(line)) == texts(out@).push(line@));
            }
            out.push(line);
            current = Vec::new();
        } else {
            current.push(c);
        }
    }
    proof {
        assert(s@.take(s@.len() as int) == s@);
    }
    if current.len() > 0 {
        let line = string_of(&current);
        out.push(line);
    }
    out
}

/// `s` without its leading whitespace.
pub open spec fn trim_start(s: Seq<char>) -> Seq<char>
    decreases s.len(),
{
    if s.len() > 0 && is_whitespace(s.first()) {
        trim_start(s.drop_first())
    } else {
        s
    }
}

/// `s` without its trailing whitespace.
pub open spec fn trim_end(s: Seq<char>) -> Seq<char>
    decreases s.len(),
{
    if s.len() > 0 && is_whitespace(s.last()) {
        trim_end(s.drop_last())
    } else {
        s
    }
}

/// `s` without its leading and trailing whitespace.
pub open spec fn trim(s: Seq<char>) -> Seq<char> {
    trim_end(trim_start(s))
}

/// What `trim_start` removes is whitespace, and what it leaves does not
/// begin with whitespace.
pub proof fn lemma_trim_start(s: Seq<char>)
    ensures
        trim_start(s).len() <= s.len(),
        trim_start(s) == s.skip(s.len() - trim_start(s).len()),
        forall|i: int| 0 <= i < s.len() - trim_start(s).len() ==> is_whitespace(#[trigger] s[i]),
        trim_start(s).len() > 0 ==> !is_whitespace(trim_start(s).first()),
    decreases s.len(),
{
    if s.len() > 0 && is_whitespace(s.first()) {
        let rest = s.drop_first();
        lemma_trim_start(rest);
        let k = rest.len() - trim_start(rest).len();
        assert forall|i: int| 0 <= i < k + 1 implies is_whitespace(#[trigger] s[i]) by {
            if i > 0 {
                assert(s[i] == rest[i - 1]);
            }
        }
    }
}

/// What `trim_end` removes is whitespace, and what it leaves does not end
/// with whitespace.
pub proof fn lemma_trim_end(s: Seq<char>)
    ensures
        trim_end(s).len() <= s.len(),
        trim_end(s) == s.take(trim_end(s).len() as int),
        forall|i: int| trim_end(s).len() <= i < s.len() ==> is_whitespace(#[trigger] s[i]),
        trim_end(s).len() > 0 ==> !is_whitespace(trim_end(s).last()),
    decreases s.len(),
{
    if s.len() > 0 && is_whitespace(s.last()) {
        let rest = s.drop_last();
        lemma_trim_end(rest);
        assert forall|i: int| trim_end(s).len() <= i < s.len() implies is_whitespace(
            #[trigger] s[i],
        ) by {
            if i < rest.len() {
                assert(s[i] == rest[i]);
            }
        }
    }
}

/// Trimming cuts whitespace off both ends and nothing else: the text is
/// whitespace, then the trimmed text, then whitespace, and the trimmed text
/// neither begins nor ends with whitespace.
pub proof fn lemma_trim(s: Seq<char>)
    ensures
        exists|a: int, b: int|
            {
                &&& 0 <= a <= b <= s.len()
                &&& #[trigger] s.subrange(a, b) == trim(s)
                &&& forall|i: int| 0 <= i < a ==> is_whitespace(#[trigger] s[i])
                &&& forall|i: int| b <= i < s.len() ==> is_whitespace(#[trigger] s[i])
            },
        trim(s).len() > 0 ==> !is_whitespace(trim(s).first()) && !is_whitespace(trim(s).last()),
{
    let t = trim_start(s);
    lemma_trim_start(s);
    lemma_trim_end(t);
    let a = s.len() - t.len();
    let b = a + trim(s).len();
    assert(s.subrange(a, b) == trim(s));
    assert forall|i: int| b <= i < s.len() implies is_whitespace(#[trigger] s[i]) by {
        assert(s[i] == t[i - a]);
    }
}

/// Removes leading and trailing whitespace.
pub fn trim_text(s: &str) -> (out: String)
    ensures
        out@ == trim(s@),
{
    let chars = chars_of(s);
    let n: usize = chars.len();
    let mut a: usize = 0;
    proof {
        assert(s@.skip(0) == s@);
    }
    while a < n && char_is_whitespace(chars[a])
        invariant
            chars@ == s@,
            n == chars.len(),
            a <= n,
            trim_start(s@) == trim_start(s@.skip(a as int)),
        decreases n - a,
    {
        proof {
            assert(s@.skip(a as int).drop_first() == s@.skip(a + 1));
        }
        a += 1;
    }
    let mut b: usize = n;
    while b > a && char_is_whitespace(chars[b - 1])
        invariant
            chars@ == s@,
            n == chars.len(),
            a <= b <= n,
            trim_start(s@) == s@.skip(a as int),
            trim(s@) == trim_end(s@.subrange(a as int, b as int)),
        decreases b,
    {
        proof {
            assert(s@.subrange(a as int, b as int).drop_last() == s@.subrange(a as int, b - 1));
        }
        b -= 1;
    }
    let mut kept: Vec<char> = Vec::new();
    let mut i: usize = a;
    while i < b
        invariant
            chars@ == s@,
            a <= i <= b <= chars.len(),
            kept@ == s@.subrange(a as int, i as int),
        decreases b - i,
    {
        kept.push(chars[i]);
        i += 1;
    }
    string_of(&kept)
}

/// The words of `s`: its maximal runs of characters that are not whitespace,
/// in order.
pub open spec fn words(s: Seq<char>) -> Seq<Seq<char>> {
    split(s, Delimiter::Whitespace).filter(|p: Seq<char>| p.len() > 0)
}

/// Every word holds at least one character and no whitespace.
pub proof fn lemma_words_hold_no_whitespace(s: Seq<char>)
    ensures
        forall|i: int| 0 <= i < words(s).len() ==> (#[trigger] words(s)[i]).len() > 0,
        forall|i: int, j: int|
            0 <= i < words(s).len() && 0 <= j < words(s)[i].len() ==> !is_whitespace(
                #[trigger] words(s)[i][j],
            ),
{
    let pieces = split(s, Delimiter::Whitespace);
    let keep = |p: Seq<char>| p.len() > 0;
    lemma_split_pieces_hold_no_separator(s, Delimiter::Whitespace);
    assert forall|i: int| 0 <= i < words(s).len() implies (#[trigger] words(s)[i]).len() > 0 && (
    forall|j: int| 0 <= j < words(s)[i].len() ==> !is_whitespace(#[trigger] words(s)[i][j])) by {
        pieces.lemma_filter_pred(keep, i);
        pieces.lemma_filter_contains_rev(keep, words(s)[i]);
        let k = choose|k: int| 0 <= k < pieces.len() && pieces[k] == words(s)[i];
        assert(forall|j: int| 0 <= j < pieces[k].len() ==> !is_whitespace(#[trigger] pieces[k][j]));
    }
}

/// Splits `s` into its words.
pub fn split_words(s: &str) -> (out: Vec<String>)
    ensures
        texts(out@) == words(s@),
{
    let ghost ws = Delimiter::Whitespace;
    let ghost keep = |p: Seq<char>| p.len() > 0;
    let mut out: Vec<String> = Vec::new();
    let mut current: Vec<char> = Vec::new();
    for c in it: s.chars()
        invariant
            ws == Delimiter::Whitespace,
            keep == |p: Seq<char>| p.len() > 0,
            it.seq() == s@,
            split(s@.take(it.index() as int), ws).last() == current@,
            split(s@.take(it.index() as int), ws).drop_last().filter(keep) == texts(out@),
    {
        proof {
            let i = it.index() as int;
            assert(s@.take(i + 1).drop_last() == s@.take(i));
            lemma_split_nonempty(s@.take(i), ws);
        }
        if char_is_whitespace(c) {
            proof {
                let i = it.index() as int;
                assert(split(s@.take(i + 1), ws).drop_last() == split(s@.take(i), ws));
                reveal(Seq::filter);
            }
            if current.len() > 0 {
                let word = string_of(&current);
                out.push(word);
                current = Vec::new();
            }
        } else {
            proof {
                let i = it.index() as int;
                assert(split(s@.take(i + 1), ws).drop_last() == split(s@.take(i), ws).drop_last());
            }
            current.push(c);
        }
    }
    proof {
        assert(s@.take(s@.len() as int) == s@);
        lemma_split_nonempty(s@, ws);
        reveal(Seq::filter);
    }
    if current.len() > 0 {
        let word = string_of(&current);
        out.push(word);
    }
    out
}

/// The code point of `c`, with the capital letters `A` to `Z` taken to their
/// small forms.
pub open spec fn ascii_fold(c: char) -> u32 {
    let n = c as u32;
    if 0x41 <= n <= 0x5A {
        (n + 0x20) as u32
    } else {
        n
    }
}

/// Whether `a` and `b` are equal up to the case of the letters `A` to `Z`.
pub open spec fn eq_ignore_ascii_case(a: Seq<char>, b: Seq<char>) -> bool {
    a.map_values(|c: char| ascii_fold(c)) == b.map_values(|c: char| ascii_fold(c))
}

/// Computes [`ascii_fold`].
pub fn fold_char(c: char) -> (n: u32)
    ensures
        n == ascii_fold(c),
{
    let n: u32 = c as u32;
    if 0x41 <= n && n <= 0x5A {
        n + 0x20
    } else {
        n
    }
}

/// Decides [`eq_ignore_ascii_case`].
pub fn eq_ignoring_ascii_case(a: &str, b: &str) -> (same: bool)
    ensures
        same == eq_ignore_ascii_case(a@, b@),
{
    let x = chars_of(a);
    let y = chars_of(b);
    let ghost fx = a@.map_values(|c: char| ascii_fold(c));
    let ghost fy = b@.map_values(|c: char| ascii_fold(c));
    if x.len() != y.len() {
        assert(fx.len() != fy.len());
        return false;
    }
    let mut i: usize = 0;
    while i < x.len()
        invariant
            x@ == a@,
            y@ == b@,
            x.len() == y.len(),
            i <= x.len(),
            fx == a@.map_values(|c: char| ascii_fold(c)),
            fy == b@.map_values(|c: char| ascii_fold(c)),
            forall|j: int| 0 <= j < i ==> fx[j] == fy[j],
        decreases x.len() - i,
    {
        if fold_char(x[i]) != fold_char(y[i]) {
            assert(fx[i as int] != fy[i as int]);
            return false;
        }
        i += 1;
    }
    assert(fx =~= fy);
    true
}

/// Whether `a` and `b` hold the same characters.
pub fn eq_text(a: &str, b: &str) -> (same: bool)
    ensures
        same == (a@ == b@),
{
    let x = chars_of(a);
    let y = chars_of(b);
    if x.len() != y.len() {
        return false;
    }
    let mut i: usize = 0;
    while i < x.len()
        invariant
            x@ == a@,
            y@ == b@,
            x.len() == y.len(),
            i <= x.len(),
            forall|j: int| 0 <= j < i ==> a@[j] == b@[j],
        decreases x.len() - i,
    {
        if x[i] != y[i] {
            return false;
        }
        i += 1;
    }
    assert(a@ =~= b@);
    true
}

/// Whether `s` begins with `prefix`.
pub fn starts_with(s: &str, prefix: &str) -> (yes: bool)
    ensures
        yes == prefix@.is_prefix_of(s@),
{
    let x = chars_of(s);
    let y = chars_of(prefix);
    if x.len() < y.len() {
        return false;
    }
    let mut i: usize = 0;
    while i < y.len()
        invariant
            x@ == s@,
            y@ == prefix@,
            y.len() <= x.len(),
            i <= y.len(),
            forall|j: int| 0 <= j < i ==> s@[j] == prefix@[j],
        decreases y.len() - i,
    {
        if x[i] != y[i] {
            return false;
        }
        i += 1;
    }
    true
}

/// Whether `t` holds no line feed.
pub open spec fn holds_no_line_feed(t: Seq<char>) -> bool {
    forall|i: int| 0 <= i < t.len() ==> #[trigger] t[i] != '\n'
}

/// Whether every line feed in `t` stands directly behind a carriage return.
pub open spec fn line_feeds_follow_cr(t: Seq<char>) -> bool {
    forall|i: int| 0 <= i < t.len() && #[trigger] t[i] == '\n' ==> i > 0 && t[i - 1] == '\r'
}

/// Whether `t` is one or more lines that each end in CR LF: it is not empty,
/// it ends in CR LF, and it holds no line feed without a carriage return
/// directly before it.
pub open spec fn crlf_lines(t: Seq<char>) -> bool {
    &&& t.len() >= 2
    &&& t[t.len() - 2] == '\r'
    &&& t[t.len() - 1] == '\n'
    &&& line_feeds_follow_cr(t)
}

/// A text without a line feed, followed by lines that end in CR LF, is
/// lines that end in CR LF.
pub proof fn lemma_crlf_lines_after_text(head: Seq<char>, tail: Seq<char>)
    requires
        holds_no_line_feed(head),
        crlf_lines(tail),
    ensures
        crlf_lines(head + tail),
{
    let t = head + tail;
    assert forall|i: int| 0 <= i < t.len() && #[trigger] t[i] == '\n' implies i > 0 && t[i - 1]
        == '\r' by {
        if i >= head.len() {
            assert(tail[i - head.len()] == '\n');
            assert(t[i - 1] == tail[i - head.len() - 1]);
        }
    }
}

/// Lines that end in CR LF, followed by more of them, are lines that end in
/// CR LF; so are the second lines alone behind nothing.
pub proof fn lemma_crlf_lines_after_lines(head: Seq<char>, tail: Seq<char>)
    requires
        head.len() == 0 || crlf_lines(head),
        crlf_lines(tail),
    ensures
        crlf_lines(head + tail),
{
    let t = head + tail;
    assert forall|i: int| 0 <= i < t.len() && #[trigger] t[i] == '\n' implies i > 0 && t[i - 1]
        == '\r' by {
        if i >= head.len() {
            assert(tail[i - head.len()] == '\n');
            assert(t[i - 1] == tail[i - head.len() - 1]);
        } else {
            assert(t[i] == head[i]);
        }
    }
}

/// Two texts without a line feed make one without a line feed.
pub proof fn lemma_no_line_feed_in_both(head: Seq<char>, tail: Seq<char>)
    requires
        holds_no_line_feed(head),
        holds_no_line_feed(tail),
    ensures
        holds_no_line_feed(head + tail),
{
}

/// The pieces of a text without a line feed hold none.
pub proof fn lemma_split_keeps_line_feeds_out(s: Seq<char>, d: Delimiter)
    requires
        holds_no_line_feed(s),
    ensures
        forall|i: int| 0 <= i < split(s, d).len() ==> holds_no_line_feed(#[trigger] split(s, d)[i]),
    decreases s.len(),
{
    if s.len() > 0 {
        assert(holds_no_line_feed(s.drop_last()));
        lemma_split_keeps_line_feeds_out(s.drop_last(), d);
        lemma_split_nonempty(s.drop_last(), d);
    }
}

/// What is left of a text without a line feed, once trimmed, holds none.
pub proof fn lemma_trim_keeps_line_feeds_out(s: Seq<char>)
    requires
        holds_no_line_feed(s),
    ensures
        holds_no_line_feed(trim(s)),
{
    lemma_trim(s);
    let (a, b) = choose|a: int, b: int|
        0 <= a <= b <= s.len() && #[trigger] s.subrange(a, b) == trim(s);
    assert forall|i: int| 0 <= i < trim(s).len() implies #[trigger] trim(s)[i] != '\n' by {
        assert(trim(s)[i] == s[a + i]);
    }
}

/// No word holds a line feed.
pub proof fn lemma_words_hold_no_line_feed(s: Seq<char>)
    ensures
        forall|i: int| 0 <= i < words(s).len() ==> holds_no_line_feed(#[trigger] words(s)[i]),
{
    lemma_words_hold_no_whitespace(s);
    assert forall|i: int| 0 <= i < words(s).len() implies holds_no_line_feed(
        #[trigger] words(s)[i],
    ) by {
        assert forall|j: int| 0 <= j < words(s)[i].len() implies #[trigger] words(s)[i][j]
            != '\n' by {
            assert(!is_whitespace(words(s)[i][j]));
        }
    }
}

// What `str::to_uppercase` makes of a text.
pub uninterp spec fn uppercase_of(s: Seq<char>) -> Seq<char>;

/// Calls `str::to_uppercase`, which maps a text to its uppercase form by the
/// Unicode case tables; the contract only names that form.
#[verifier::external_body]
pub(crate) fn to_uppercase(s: &str) -> (upper: String)
    ensures
        upper@ == uppercase_of(s@),
{
    s.to_uppercase()
}

// What `str::to_lowercase` makes of a text.
pub uninterp spec fn lowercase_of(s: Seq<char>) -> Seq<char>;

/// Calls `str::to_lowercase`, which maps a text to its lowercase form by the
/// Unicode case tables; the contract only names that form.
#[verifier::external_body]
pub(crate) fn to_lowercase(s: &str) -> (lower: String)
    ensures
        lower@ == lowercase_of(s@),
{
    s.to_lowercase()
}

} // verus!
