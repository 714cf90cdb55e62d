//! Character-level text utilities: trimming, searching, splitting and
//! decimal formatting, each specified over `Seq<char>`.

use vstd::prelude::*;

verus! {

use vstd::string::StrSliceExecFns;

/// The Unicode `White_Space` characters, the set that `str::trim` removes.
pub open spec fn is_space(c: char) -> bool {
    ||| c == ' '
    ||| c == '\t'
    ||| c == '\n'
    ||| c == '\u{b}'
    ||| c == '\u{c}'
    ||| c == '\r'
    ||| c == '\u{85}'
    ||| c == '\u{a0}'
    ||| c == '\u{1680}'
    ||| c == '\u{2000}'
    ||| c == '\u{2001}'
    ||| c == '\u{2002}'
    ||| c == '\u{2003}'
    ||| c == '\u{2004}'
    ||| c == '\u{2005}'
    ||| c == '\u{2006}'
    ||| c == '\u{2007}'
    ||| c == '\u{2008}'
    ||| c == '\u{2009}'
    ||| c == '\u{200a}'
    ||| c == '\u{2028}'
    ||| c == '\u{2029}'
    ||| c == '\u{202f}'
    ||| c == '\u{205f}'
    ||| c == '\u{3000}'
}

pub fn is_space_char(c: char) -> (r: bool)
    ensures
        r == is_space(c),
{
    match c {
        ' ' | '\t' | '\n' | '\u{b}' | '\u{c}' | '\r' | '\u{85}' | '\u{a0}' | '\u{1680}'
        | '\u{2000}' | '\u{2001}' | '\u{2002}' | '\u{2003}' | '\u{2004}' | '\u{2005}'
        | '\u{2006}' | '\u{2007}' | '\u{2008}' | '\u{2009}' | '\u{200a}' | '\u{2028}'
        | '\u{2029}' | '\u{202f}' | '\u{205f}' | '\u{3000}' => true,
        _ => false,
    }
}

/// The characters of `s`, one per element.
pub fn chars_of(s: &str) -> (r: Vec<char>)
    ensures
        r@ == s@,
{
    let n = s.unicode_len();
    let mut out: Vec<char> = Vec::new();
    let mut i: usize = 0;
    while i < n
        invariant
            i <= n,
            n == s@.len(),
            out@ == s@.subrange(0, i as int),
        decreases n - i,
    {
        let c = s.get_char(i);
        out.push(c);
        assert(out@ =~= s@.subrange(0, i + 1 as int));
        i = i + 1;
    }
    assert(out@ =~= s@);
    out
}

/// `s` with its leading whitespace removed.
pub open spec fn trim_front(s: Seq<char>) -> Seq<char>
    decreases s.len(),
{
    if s.len() > 0 && is_space(s[0]) {
        trim_front(s.drop_first())
    } else {
        s
    }
}

/// `s` with its trailing whitespace removed.
pub open spec fn trim_back(s: Seq<char>) -> Seq<char>
    decreases s.len(),
{
    if s.len() > 0 && is_space(s.last()) {
        trim_back(s.drop_last())
    } else {
        s
    }
}

/// `s` with both leading and trailing whitespace removed,
/// the behaviour of `str::trim`.
pub open spec fn trim(s: Seq<char>) -> Seq<char> {
    trim_back(trim_front(s))
}

pub proof fn lemma_trim_front_skip(s: Seq<char>, k: int)
    requires
        0 <= k <= s.len(),
        forall|j: int| 0 <= j < k ==> is_space(s[j]),
        k < s.len() ==> !is_space(s[k]),
    ensures
        trim_front(s) == s.skip(k),
    decreases k,
{
    if k == 0 {
        assert(s.skip(0) =~= s);
    } else {
        lemma_trim_front_skip(s.drop_first(), k - 1);
        assert(s.drop_first().skip(k - 1) =~= s.skip(k));
    }
}

pub proof fn lemma_trim_back_take(s: Seq<char>, k: int)
    requires
        0 <= k <= s.len(),
        forall|j: int| k <= j < s.len() ==> is_space(s[j]),
        k > 0 ==> !is_space(s[k - 1]),
    ensures
        trim_back(s) == s.take(k),
    decreases s.len() - k,
{
    if k == s.len() {
        assert(s.take(k) =~= s);
    } else {
        lemma_trim_back_take(s.drop_last(), k);
        assert(s.drop_last().take(k) =~= s.take(k));
    }
}

/// A trimmed, non-empty text neither starts nor ends with whitespace.
pub proof fn lemma_trimmed_ends(s: Seq<char>)
    requires
        trim(s) == s,
        s.len() > 0,
    ensures
        !is_space(s[0]),
        !is_space(s.last()),
{
    lemma_trim_front_len(s);
    lemma_trim_back_len(trim_front(s));
    if is_space(s[0]) {
        lemma_trim_front_len(s.drop_first());
        lemma_trim_back_len(trim_front(s.drop_first()));
        assert(trim(s).len() < s.len());
    }
    if !is_space(s[0]) {
        assert(trim_front(s) == s);
        if is_space(s.last()) {
            lemma_trim_back_len(s.drop_last());
            assert(trim(s).len() < s.len());
        }
    }
}

pub proof fn lemma_trim_front_len(s: Seq<char>)
    ensures
        trim_front(s).len() <= s.len(),
    decreases s.len(),
{
    if s.len() > 0 && is_space(s[0]) {
        lemma_trim_front_len(s.drop_first());
    }
}

pub proof fn lemma_trim_back_len(s: Seq<char>)
    ensures
        trim_back(s).len() <= s.len(),
    decreases s.len(),
{
    if s.len() > 0 && is_space(s.last()) {
        lemma_trim_back_len(s.drop_last());
    }
}

/// After `trim_front`, a non-empty result starts with non-whitespace.
proof fn lemma_trim_front_first(s: Seq<char>)
    ensures
        trim_front(s).len() > 0 ==> !is_space(trim_front(s)[0]),
    decreases s.len(),
{
    if s.len() > 0 && is_space(s[0]) {
        lemma_trim_front_first(s.drop_first());
    }
}

/// After `trim_back`, a non-empty result ends with non-whitespace and
/// keeps the first element.
proof fn lemma_trim_back_ends(x: Seq<char>)
    ensures
        trim_back(x).len() > 0 ==> !is_space(trim_back(x).last()),
        trim_back(x).len() > 0 ==> trim_back(x)[0] == x[0],
    decreases x.len(),
{
    if x.len() > 0 && is_space(x.last()) {
        lemma_trim_back_ends(x.drop_last());
    }
}

/// A non-empty trimmed text starts and ends with non-whitespace.
pub proof fn lemma_trim_ends(s: Seq<char>)
    ensures
        trim(s).len() > 0 ==> !is_space(trim(s)[0]) && !is_space(trim(s).last()),
{
    lemma_trim_front_first(s);
    lemma_trim_back_ends(trim_front(s));
}

/// Trimming is idempotent: a trimmed text trims to itself.
pub proof fn lemma_trim_idempotent(s: Seq<char>)
    ensures
        trim(trim(s)) == trim(s),
{
    let x = trim(s);
    if x.len() == 0 {
        assert(trim_front(x) == x);
        assert(trim_back(x) == x);
    } else {
        lemma_trim_ends(s);
        lemma_trim_front_skip(x, 0);
        assert(x.skip(0) =~= x);
        lemma_trim_back_take(x, x.len() as int);
        assert(x.take(x.len() as int) =~= x);
    }
}

/// A character absent from a text is absent from its trimmed form.
pub proof fn lemma_trim_no_char(s: Seq<char>, c: char)
    requires
        forall|j: int| 0 <= j < s.len() ==> s[j] != c,
    ensures
        forall|j: int| 0 <= j < trim(s).len() ==> trim(s)[j] != c,
{
    lemma_trim_front_no_char(s, c);
    lemma_trim_back_no_char(trim_front(s), c);
}

proof fn lemma_trim_front_no_char(s: Seq<char>, c: char)
    requires
        forall|j: int| 0 <= j < s.len() ==> s[j] != c,
    ensures
        forall|j: int| 0 <= j < trim_front(s).len() ==> trim_front(s)[j] != c,
    decreases s.len(),
{
    if s.len() > 0 && is_space(s[0]) {
        assert(forall|j: int| 0 <= j < s.drop_first().len() ==> s.drop_first()[j] != c);
        lemma_trim_front_no_char(s.drop_first(), c);
        assert forall|j: int| 0 <= j < trim_front(s).len() implies trim_front(s)[j] != c by {
            assert(trim_front(s.drop_first())[j] != c);
        }
    }
}

proof fn lemma_trim_back_no_char(x: Seq<char>, c: char)
    requires
        forall|j: int| 0 <= j < x.len() ==> x[j] != c,
    ensures
        forall|j: int| 0 <= j < trim_back(x).len() ==> trim_back(x)[j] != c,
    decreases x.len(),
{
    if x.len() > 0 && is_space(x.last()) {
        assert(forall|j: int| 0 <= j < x.drop_last().len() ==> x.drop_last()[j] != c);
        lemma_trim_back_no_char(x.drop_last(), c);
        assert forall|j: int| 0 <= j < trim_back(x).len() implies trim_back(x)[j] != c by {
            assert(trim_back(x.drop_last())[j] != c);
        }
    }
}

/// `s` trimmed, as a borrowed slice of `s`.
pub fn trim_str<'a>(s: &'a str) -> (r: &'a str)
    ensures
        r@ == trim(s@),
{
    let cs = chars_of(s);
    let n = cs.len();
    let mut lo: usize = 0;
    while lo < n && is_space_char(cs[lo])
        invariant
            lo <= n,
            n == s@.len(),
            cs@ == s@,
            forall|j: int| 0 <= j < lo ==> is_space(s@[j]),
        decreases n - lo,
    {
        lo = lo + 1;
    }
    proof {
        lemma_trim_front_skip(s@, lo as int);
    }
    let mut hi: usize = n;
    while hi > lo && is_space_char(cs[hi - 1])
        invariant
            lo <= hi <= n,
            n == s@.len(),
            cs@ == s@,
            forall|j: int| hi <= j < n ==> is_space(s@[j]),
        decreases hi,
    {
        hi = hi - 1;
    }
    proof {
        lemma_trim_back_take(s@.skip(lo as int), hi - lo as int);
        assert(s@.skip(lo as int).take(hi - lo as int) =~= s@.subrange(lo as int, hi as int));
    }
    s.substring_char(lo, hi)
}

/// Index of the first occurrence of `c` in `s`, or `s.len()` if absent.
pub open spec fn find_char(s: Seq<char>, c: char) -> nat
    decreases s.len(),
{
    if s.len() == 0 {
        0
    } else if s[0] == c {
        0
    } else {
        1 + find_char(s.drop_first(), c)
    }
}

pub proof fn lemma_find_char_props(s: Seq<char>, c: char)
    ensures
        find_char(s, c) <= s.len(),
        find_char(s, c) < s.len() ==> s[find_char(s, c) as int] == c,
        forall|j: int| 0 <= j < find_char(s, c) ==> s[j] != c,
    decreases s.len(),
{
    if s.len() > 0 && s[0] != c {
        lemma_find_char_props(s.drop_first(), c);
        assert forall|j: int| 0 <= j < find_char(s, c) implies s[j] != c by {
            if j > 0 {
                assert(s.drop_first()[j - 1] == s[j]);
            }
        }
    }
}

pub proof fn lemma_find_char_at(s: Seq<char>, c: char, k: int)
    requires
        0 <= k < s.len(),
        s[k] == c,
        forall|j: int| 0 <= j < k ==> s[j] != c,
    ensures
        find_char(s, c) == k,
    decreases k,
{
    if k > 0 {
        lemma_find_char_at(s.drop_first(), c, k - 1);
    }
}

pub proof fn lemma_find_char_none(s: Seq<char>, c: char)
    requires
        forall|j: int| 0 <= j < s.len() ==> s[j] != c,
    ensures
        find_char(s, c) == s.len(),
    decreases s.len(),
{
    if s.len() > 0 {
        lemma_find_char_none(s.drop_first(), c);
    }
}

/// How many times `c` occurs in `s`.
pub open spec fn count_char(s: Seq<char>, c: char) -> nat
    decreases s.len(),
{
    if s.len() == 0 {
        0
    } else {
        count_char(s.drop_last(), c) + if s.last() == c {
            1nat
        } else {
            0nat
        }
    }
}

pub proof fn lemma_count_char_zero(s: Seq<char>, c: char)
    ensures
        (count_char(s, c) == 0) <==> (forall|j: int| 0 <= j < s.len() ==> s[j] != c),
    decreases s.len(),
{
    if s.len() > 0 {
        lemma_count_char_zero(s.drop_last(), c);
        if count_char(s, c) == 0 {
            assert forall|j: int| 0 <= j < s.len() implies s[j] != c by {
                if j < s.len() - 1 {
                    assert(s.drop_last()[j] == s[j]);
                }
            }
        }
    }
}

pub proof fn lemma_count_char_concat(a: Seq<char>, b: Seq<char>, c: char)
    ensures
        count_char(a + b, c) == count_char(a, c) + count_char(b, c),
    decreases b.len(),
{
    if b.len() == 0 {
        assert(a + b =~= a);
    } else {
        lemma_count_char_concat(a, b.drop_last(), c);
        assert((a + b).drop_last() =~= a + b.drop_last());
        assert((a + b).last() == b.last());
    }
}

/// First occurrence of `c` in `cs[lo..hi]`, as an absolute index
/// (`hi` if absent).
pub fn find_in_range(cs: &Vec<char>, lo: usize, hi: usize, c: char) -> (r: usize)
    requires
        lo <= hi <= cs@.len(),
    ensures
        lo <= r <= hi,
        r - lo == find_char(cs@.subrange(lo as int, hi as int), c),
{
    let ghost t = cs@.subrange(lo as int, hi as int);
    let mut i: usize = lo;
    while i < hi && cs[i] != c
        invariant
            lo <= i <= hi <= cs@.len(),
            t == cs@.subrange(lo as int, hi as int),
            forall|j: int| 0 <= j < i - lo ==> t[j] != c,
        decreases hi - i,
    {
        i = i + 1;
    }
    proof {
        if i < hi {
            lemma_find_char_at(t, c, i - lo as int);
        } else {
            lemma_find_char_none(t, c);
        }
    }
    i
}

/// How many times `c` occurs in `cs[lo..hi]`.
pub fn count_in_range(cs: &Vec<char>, lo: usize, hi: usize, c: char) -> (r: usize)
    requires
        lo <= hi <= cs@.len(),
    ensures
        r == count_char(cs@.subrange(lo as int, hi as int), c),
{
    let ghost t = cs@.subrange(lo as int, hi as int);
    let mut i: usize = lo;
    let mut r: usize = 0;
    while i < hi
        invariant
            lo <= i <= hi <= cs@.len(),
            t == cs@.subrange(lo as int, hi as int),
            r <= i - lo,
            r == count_char(t.take(i - lo), c),
        decreases hi - i,
    {
        proof {
            assert(t.take(i + 1 - lo).drop_last() =~= t.take(i - lo));
            assert(t.take(i + 1 - lo).last() == cs@[i as int]);
        }
        if cs[i] == c {
            r = r + 1;
        }
        i = i + 1;
    }
    proof {
        assert(t.take(hi - lo) =~= t);
    }
    r
}

/// Does `cs[lo..hi]` spell exactly the text of `lit`?
pub fn range_eq_str(cs: &Vec<char>, lo: usize, hi: usize, lit: &str) -> (r: bool)
    requires
        lo <= hi <= cs@.len(),
    ensures
        r == (cs@.subrange(lo as int, hi as int) == lit@),
{
    let kw = chars_of(lit);
    if hi - lo != kw.len() {
        return false;
    }
    let mut j: usize = 0;
    while j < kw.len()
        invariant
            hi - lo == kw.len(),
            lo <= hi <= cs@.len(),
            j <= kw.len(),
            kw@ == lit@,
            forall|i: int| 0 <= i < j ==> cs@.subrange(lo as int, hi as int)[i] == lit@[i],
        decreases kw.len() - j,
    {
        if cs[lo + j] != kw[j] {
            assert(cs@.subrange(lo as int, hi as int)[j as int] != lit@[j as int]);
            return false;
        }
        j = j + 1;
    }
    assert(cs@.subrange(lo as int, hi as int) =~= lit@);
    true
}

/// Pieces of `s` cut at every occurrence of `sep`, scanning from position
/// `i` with the current piece starting at `start`.
pub open spec fn split_scan(s: Seq<char>, sep: char, i: nat, start: nat) -> Seq<Seq<char>>
    decreases s.len() - i,
{
    if i >= s.len() {
        seq![s.subrange(start as int, s.len() as int)]
    } else if s[i as int] == sep {
        seq![s.subrange(start as int, i as int)] + split_scan(s, sep, i + 1, i + 1)
    } else {
        split_scan(s, sep, i + 1, start)
    }
}

/// Pieces of `s` cut at every occurrence of `sep`; the behaviour of
/// `str::split`: an empty `s` gives one empty piece, `n` separators give
/// `n + 1` pieces.
pub open spec fn split_char(s: Seq<char>, sep: char) -> Seq<Seq<char>> {
    split_scan(s, sep, 0, 0)
}

/// The pieces of `s`, split at `sep`, as borrowed slices of `s`.
pub fn split_str<'a>(s: &'a str, sep: char) -> (r: Vec<&'a str>)
    ensures
        r@.len() == split_char(s@, sep).len(),
        forall|k: int| 0 <= k < r@.len() ==> #[trigger] r@[k]@ == split_char(s@, sep)[k],
{
    let cs = chars_of(s);
    let n = cs.len();
    let mut out: Vec<&'a str> = Vec::new();
    let mut start: usize = 0;
    let mut i: usize = 0;
    while i < n
        invariant
            start <= i <= n,
            n == s@.len(),
            cs@ == s@,
            split_char(s@, sep) =~= out@.map_values(|p: &str| p@) + split_scan(
                s@,
                sep,
                i as nat,
                start as nat,
            ),
        decreases n - i,
    {
        if cs[i] == sep {
            let piece = s.substring_char(start, i);
            out.push(piece);
            proof {
                assert(out@.map_values(|p: &str| p@) =~= out@.drop_last().map_values(
                    |p: &str| p@,
                ).push(piece@));
            }
            start = i + 1;
        }
        i = i + 1;
    }
    let piece = s.substring_char(start, n);
    out.push(piece);
    proof {
        assert(out@.map_values(|p: &str| p@) =~= out@.drop_last().map_values(|p: &str| p@).push(
            piece@,
        ));
    }
    out
}

/// Splitting yields at least one piece.
pub proof fn lemma_split_scan_nonempty(s: Seq<char>, sep: char, i: nat, start: nat)
    ensures
        split_scan(s, sep, i, start).len() >= 1,
    decreases s.len() - i,
{
    if i < s.len() {
        if s[i as int] == sep {
            lemma_split_scan_nonempty(s, sep, i + 1, i + 1);
        } else {
            lemma_split_scan_nonempty(s, sep, i + 1, start);
        }
    }
}

/// A piece of a document with one trailing carriage return removed.
pub open spec fn strip_cr(p: Seq<char>) -> Seq<char> {
    if p.len() > 0 && p.last() == '\r' {
        p.drop_last()
    } else {
        p
    }
}

/// The lines of a document: the text is cut at every newline, and every
/// line but the last loses one trailing carriage return, so that both
/// `\n` and `\r\n` endings are accepted; a final fragment without a
/// newline keeps its characters as they stand.
pub open spec fn doc_lines(s: Seq<char>) -> Seq<Seq<char>> {
    let ps = split_char(s, '\n');
    Seq::new(
        ps.len(),
        |i: int|
            if i < ps.len() - 1 {
                strip_cr(ps[i])
            } else {
                ps[i]
            },
    )
}

/// The lines of `s` as `doc_lines` cuts them, as borrowed slices.
pub fn split_doc_lines<'a>(s: &'a str) -> (r: Vec<&'a str>)
    ensures
        r@.len() == doc_lines(s@).len(),
        r@.len() >= 1,
        forall|k: int| 0 <= k < r@.len() ==> #[trigger] r@[k]@ == doc_lines(s@)[k],
{
    let pieces = split_str(s, '\n');
    proof {
        lemma_split_scan_nonempty(s@, '\n', 0, 0);
    }
    let mut lines: Vec<&'a str> = Vec::new();
    let n = pieces.len();
    let mut i: usize = 0;
    while i < n
        invariant
            i <= n,
            n == pieces@.len() == doc_lines(s@).len(),
            forall|k: int| 0 <= k < n ==> #[trigger] pieces@[k]@ == split_char(s@, '\n')[k],
            lines@.len() == i,
            forall|k: int| 0 <= k < i ==> #[trigger] lines@[k]@ == doc_lines(s@)[k],
        decreases n - i,
    {
        let piece = pieces[i];
        if i + 1 < n {
            let m = piece.unicode_len();
            if m > 0 && piece.get_char(m - 1) == '\r' {
                let stripped = piece.substring_char(0, m - 1);
                proof {
                    assert(piece@.subrange(0, m - 1 as int) =~= piece@.drop_last());
                }
                lines.push(stripped);
            } else {
                lines.push(piece);
            }
        } else {
            lines.push(piece);
        }
        i = i + 1;
    }
    lines
}

/// The lines of a text as `str::lines` cuts it: like `doc_lines`, and a
/// single final empty piece is dropped, so a trailing newline opens no
/// further line and an empty text has none.
pub open spec fn text_lines(t: Seq<char>) -> Seq<Seq<char>> {
    let ls = doc_lines(t);
    if ls.last().len() == 0 {
        ls.drop_last()
    } else {
        ls
    }
}

/// The lines of `s` as `text_lines` cuts them, as borrowed slices.
pub fn split_text_lines<'a>(s: &'a str) -> (r: Vec<&'a str>)
    ensures
        r@.len() == text_lines(s@).len(),
        forall|k: int| 0 <= k < r@.len() ==> #[trigger] r@[k]@ == text_lines(s@)[k],
{
    let mut lines = split_doc_lines(s);
    let last = lines[lines.len() - 1];
    if last.is_empty() {
        lines.pop();
    }
    lines
}

/// The whitespace-separated words of `s`, scanning from position `i`
/// with the current word starting at `start` (`start == i` while no
/// word is open): maximal non-whitespace runs, in order, none empty.
pub open spec fn words_scan(s: Seq<char>, i: nat, start: nat) -> Seq<Seq<char>>
    decreases s.len() - i,
{
    if i >= s.len() {
        if start < i {
            seq![s.subrange(start as int, i as int)]
        } else {
            seq![]
        }
    } else if is_space(s[i as int]) {
        if start < i {
            seq![s.subrange(start as int, i as int)] + words_scan(s, i + 1, i + 1)
        } else {
            words_scan(s, i + 1, i + 1)
        }
    } else {
        words_scan(s, i + 1, start)
    }
}

/// The whitespace-separated words of `s`; the behaviour of
/// `str::split_whitespace`.
pub open spec fn split_words(s: Seq<char>) -> Seq<Seq<char>> {
    words_scan(s, 0, 0)
}

/// The whitespace-separated words of `s`, owned.
pub fn split_words_str(s: &str) -> (r: Vec<String>)
    ensures
        r@.len() == split_words(s@).len(),
        forall|k: int| 0 <= k < r@.len() ==> #[trigger] r@[k]@ == split_words(s@)[k],
{
    let cs = chars_of(s);
    let n = cs.len();
    let mut out: Vec<String> = Vec::new();
    let mut start: usize = 0;
    let mut i: usize = 0;
    while i < n
        invariant
            start <= i <= n,
            n == s@.len(),
            cs@ == s@,
            split_words(s@) =~= out@.map_values(|p: String| p@) + words_scan(
                s@,
                i as nat,
                start as nat,
            ),
        decreases n - i,
    {
        if is_space_char(cs[i]) {
            if start < i {
                let w = s.substring_char(start, i).to_owned();
                out.push(w);
                proof {
                    assert(out@.map_values(|p: String| p@) =~= out@.drop_last().map_values(
                        |p: String| p@,
                    ).push(out@.last()@));
                }
            }
            start = i + 1;
        }
        i = i + 1;
    }
    if start < n {
        let w = s.substring_char(start, n).to_owned();
        out.push(w);
        proof {
            assert(out@.map_values(|p: String| p@) =~= out@.drop_last().map_values(
                |p: String| p@,
            ).push(out@.last()@));
        }
    }
    proof {
        assert(split_words(s@) =~= out@.map_values(|p: String| p@));
    }
    out
}

/// Appends one character; relies on `String::push`, which adds exactly
/// the given character at the end.
#[verifier::external_body]
pub fn push_char(out: &mut String, c: char)
    ensures
        final(out)@ == old(out)@ + seq![c],
{
    out.push(c);
}

/// The decimal digit character for `d` (`d` below ten).
pub open spec fn digit_char(d: nat) -> char {
    ((0x30 + d) as u8) as char
}

/// The decimal digits of `n`, most significant first, no sign and no
/// leading zeros (a single `'0'` for zero).
pub open spec fn dec_digits(n: nat) -> Seq<char>
    decreases n,
{
    if n < 10 {
        seq![digit_char(n)]
    } else {
        dec_digits(n / 10).push(digit_char(n % 10))
    }
}

/// The decimal form of a signed value: a `'-'` sign when negative,
/// then the digits of the magnitude.
pub open spec fn dec_i32(n: i32) -> Seq<char> {
    if n < 0 {
        seq!['-'] + dec_digits((-(n as int)) as nat)
    } else {
        dec_digits(n as nat)
    }
}

/// Appends the decimal form of `n`.
pub fn push_dec_u64(out: &mut String, n: u64)
    ensures
        final(out)@ == old(out)@ + dec_digits(n as nat),
    decreases n,
{
    if n < 10 {
        push_char(out, (0x30u8 + (n as u8)) as char);
        assert(out@ =~= old(out)@ + dec_digits(n as nat));
    } else {
        push_dec_u64(out, n / 10);
        push_char(out, (0x30u8 + ((n % 10) as u8)) as char);
        assert(out@ =~= old(out)@ + dec_digits(n as nat));
    }
}

/// Appends the decimal form of `n`, sign included.
pub fn push_dec_i32(out: &mut String, n: i32)
    ensures
        final(out)@ == old(out)@ + dec_i32(n),
{
    let wide: i64 = n as i64;
    if wide < 0 {
        push_char(out, '-');
        push_dec_u64(out, (-wide) as u64);
        assert(out@ =~= old(out)@ + dec_i32(n));
    } else {
        push_dec_u64(out, wide as u64);
    }
}

} // verus!
