//! Verified text utilities shared by the extractors and the rule engine.
//!
//! All reasoning is done over `Seq<char>` views; executable code walks
//! strings character by character through the vstd string operations.

use vstd::prelude::*;
use vstd::string::StrSliceExecFns;
use vstd::string::StringExecFns;

verus! {

/// The whitespace characters the extractors care about. The original inputs
/// are source files, so the ASCII whitespace set is what occurs in practice.
pub open spec fn is_ws(c: char) -> bool {
    c == ' ' || c == '\t' || c == '\r' || c == '\n'
}

/// Index of the first character of `s` that is not whitespace, or `s.len()`.
pub open spec fn first_non_ws(s: Seq<char>) -> int
    decreases s.len(),
{
    if s.len() == 0 {
        0
    } else if !is_ws(s[0]) {
        0
    } else {
        1 + first_non_ws(s.drop_first())
    }
}

/// Index one past the last character of `s` that is not whitespace, or 0.
pub open spec fn last_non_ws_end(s: Seq<char>) -> int
    decreases s.len(),
{
    if s.len() == 0 {
        0
    } else if !is_ws(s.last()) {
        s.len() as int
    } else {
        last_non_ws_end(s.drop_last())
    }
}

pub proof fn lemma_first_non_ws_bounds(s: Seq<char>)
    ensures
        0 <= first_non_ws(s) <= s.len(),
        forall|j: int| 0 <= j < first_non_ws(s) ==> is_ws(#[trigger] s[j]),
        first_non_ws(s) < s.len() ==> !is_ws(s[first_non_ws(s)]),
    decreases s.len(),
{
    if s.len() == 0 {
    } else if !is_ws(s[0]) {
    } else {
        lemma_first_non_ws_bounds(s.drop_first());
        assert forall|j: int| 0 <= j < first_non_ws(s) implies is_ws(#[trigger] s[j]) by {
            if j > 0 {
                assert(s.drop_first()[j - 1] == s[j]);
            }
        }
        if first_non_ws(s) < s.len() {
            assert(s.drop_first()[first_non_ws(s) - 1] == s[first_non_ws(s)]);
        }
    }
}

pub proof fn lemma_last_non_ws_end_bounds(s: Seq<char>)
    ensures
        0 <= last_non_ws_end(s) <= s.len(),
        forall|j: int| last_non_ws_end(s) <= j < s.len() ==> is_ws(#[trigger] s[j]),
        last_non_ws_end(s) > 0 ==> !is_ws(s[last_non_ws_end(s) - 1]),
    decreases s.len(),
{
    if s.len() == 0 {
    } else if !is_ws(s.last()) {
    } else {
        lemma_last_non_ws_end_bounds(s.drop_last());
        assert forall|j: int| last_non_ws_end(s) <= j < s.len() implies is_ws(#[trigger] s[j]) by {
            if j < s.len() - 1 {
                assert(s.drop_last()[j] == s[j]);
            }
        }
        if last_non_ws_end(s) > 0 {
            assert(s.drop_last()[last_non_ws_end(s) - 1] == s[last_non_ws_end(s) - 1]);
        }
    }
}

/// The text with leading and trailing whitespace removed.
pub open spec fn trim_of(s: Seq<char>) -> Seq<char> {
    if first_non_ws(s) <= last_non_ws_end(s) {
        s.subrange(first_non_ws(s), last_non_ws_end(s))
    } else {
        Seq::empty()
    }
}

/// Remove leading and trailing whitespace from a text.
pub fn trim_str(s: &str) -> (r: String)
    ensures
        r@ == trim_of(s@),
{
    let n = s.unicode_len();
    proof {
        lemma_first_non_ws_bounds(s@);
        lemma_last_non_ws_end_bounds(s@);
    }
    let mut lo: usize = 0;
    while lo < n && is_ws_exec(s.get_char(lo))
        invariant
            0 <= lo <= n,
            n == s@.len(),
            forall|j: int| 0 <= j < lo ==> is_ws(#[trigger] s@[j]),
        decreases n - lo,
    {
        lo = lo + 1;
    }
    let mut hi: usize = n;
    while hi > lo && is_ws_exec(s.get_char(hi - 1))
        invariant
            lo <= hi <= n,
            n == s@.len(),
            forall|j: int| hi <= j < n ==> is_ws(#[trigger] s@[j]),
        decreases hi,
    {
        hi = hi - 1;
    }
    proof {
        if lo < hi {
            // lo is the first non-whitespace index and hi ends the last run.
            assert(!is_ws(s@[lo as int]));
            assert(!is_ws(s@[hi - 1]));
            assert(first_non_ws(s@) == lo as int) by {
                lemma_first_non_ws_unique(s@, lo as int);
            }
            assert(last_non_ws_end(s@) == hi as int) by {
                lemma_last_non_ws_end_unique(s@, hi as int);
            }
        } else {
            // Everything is whitespace.
            assert(forall|j: int| 0 <= j < s@.len() ==> is_ws(#[trigger] s@[j]));
            assert(first_non_ws(s@) == s@.len() as int) by {
                lemma_first_non_ws_all_ws(s@);
            }
            assert(last_non_ws_end(s@) == 0) by {
                lemma_last_non_ws_end_all_ws(s@);
            }
            assert(trim_of(s@) =~= Seq::<char>::empty());
        }
    }
    let piece = s.substring_char(lo, hi);
    proof {
        if lo < hi {
            assert(piece@ =~= trim_of(s@));
        }
    }
    piece.to_owned()
}

/// Executable check of the whitespace predicate.
pub fn is_ws_exec(c: char) -> (r: bool)
    ensures
        r == is_ws(c),
{
    c == ' ' || c == '\t' || c == '\r' || c == '\n'
}

proof fn lemma_first_non_ws_unique(s: Seq<char>, i: int)
    requires
        0 <= i < s.len(),
        !is_ws(s[i]),
        forall|j: int| 0 <= j < i ==> is_ws(#[trigger] s[j]),
    ensures
        first_non_ws(s) == i,
    decreases s.len(),
{
    if i == 0 {
    } else {
        assert(is_ws(s[0]));
        assert(s.drop_first()[i - 1] == s[i]);
        assert forall|j: int| 0 <= j < i - 1 implies is_ws(#[trigger] s.drop_first()[j]) by {
            assert(s.drop_first()[j] == s[j + 1]);
        }
        lemma_first_non_ws_unique(s.drop_first(), i - 1);
    }
}

proof fn lemma_first_non_ws_all_ws(s: Seq<char>)
    requires
        forall|j: int| 0 <= j < s.len() ==> is_ws(#[trigger] s[j]),
    ensures
        first_non_ws(s) == s.len(),
    decreases s.len(),
{
    if s.len() > 0 {
        assert forall|j: int| 0 <= j < s.drop_first().len() implies is_ws(
            #[trigger] s.drop_first()[j],
        ) by {
            assert(s.drop_first()[j] == s[j + 1]);
        }
        lemma_first_non_ws_all_ws(s.drop_first());
    }
}

proof fn lemma_last_non_ws_end_unique(s: Seq<char>, i: int)
    requires
        0 < i <= s.len(),
        !is_ws(s[i - 1]),
        forall|j: int| i <= j < s.len() ==> is_ws(#[trigger] s[j]),
    ensures
        last_non_ws_end(s) == i,
    decreases s.len(),
{
    if i == s.len() {
    } else {
        assert(is_ws(s.last()));
        assert(s.drop_last()[i - 1] == s[i - 1]);
        assert forall|j: int| i <= j < s.drop_last().len() implies is_ws(
            #[trigger] s.drop_last()[j],
        ) by {
            assert(s.drop_last()[j] == s[j]);
        }
        lemma_last_non_ws_end_unique(s.drop_last(), i);
    }
}

proof fn lemma_last_non_ws_end_all_ws(s: Seq<char>)
    requires
        forall|j: int| 0 <= j < s.len() ==> is_ws(#[trigger] s[j]),
    ensures
        last_non_ws_end(s) == 0,
    decreases s.len(),
{
    if s.len() > 0 {
        assert(is_ws(s.last()));
        assert forall|j: int| 0 <= j < s.drop_last().len() implies is_ws(
            #[trigger] s.drop_last()[j],
        ) by {
            assert(s.drop_last()[j] == s[j]);
        }
        lemma_last_non_ws_end_all_ws(s.drop_last());
    }
}

/// Whether `p` occurs in `s` starting at position `i`.
pub open spec fn occurs_at(s: Seq<char>, p: Seq<char>, i: int) -> bool {
    0 <= i && i + p.len() <= s.len() && s.subrange(i, i + p.len()) == p
}

/// Whether `p` occurs anywhere in `s`.
pub open spec fn contains_seq(s: Seq<char>, p: Seq<char>) -> bool {
    exists|i: int| occurs_at(s, p, i)
}

/// Whether `s` begins with `p`.
pub open spec fn starts_with_seq(s: Seq<char>, p: Seq<char>) -> bool {
    occurs_at(s, p, 0)
}

/// Whether `s` ends with `p`.
pub open spec fn ends_with_seq(s: Seq<char>, p: Seq<char>) -> bool {
    p.len() <= s.len() && occurs_at(s, p, s.len() - p.len())
}

/// Whether `p` occurs in `s` at position `i`, decided by character.
pub fn occurs_at_exec(s: &str, p: &str, i: usize) -> (r: bool)
    requires
        i + p@.len() <= s@.len(),
    ensures
        r == occurs_at(s@, p@, i as int),
{
    let n = s.unicode_len();
    let m = p.unicode_len();
    let mut k: usize = 0;
    while k < m
        invariant
            0 <= k <= m,
            m == p@.len(),
            n == s@.len(),
            i + m <= n,
            forall|j: int| 0 <= j < k ==> s@[i + j] == p@[j],
        decreases m - k,
    {
        if s.get_char(i + k) != p.get_char(k) {
            proof {
                assert(s@.subrange(i as int, i + p@.len())[k as int] != p@[k as int]);
            }
            return false;
        }
        k = k + 1;
    }
    proof {
        assert(s@.subrange(i as int, i + p@.len()) =~= p@);
    }
    true
}

/// Whether `s` begins with `p`.
pub fn starts_with_str(s: &str, p: &str) -> (r: bool)
    ensures
        r == starts_with_seq(s@, p@),
{
    let n = s.unicode_len();
    let m = p.unicode_len();
    if m > n {
        return false;
    }
    occurs_at_exec(s, p, 0)
}

/// Whether `s` ends with `p`.
pub fn ends_with_str(s: &str, p: &str) -> (r: bool)
    ensures
        r == ends_with_seq(s@, p@),
{
    let n = s.unicode_len();
    let m = p.unicode_len();
    if m > n {
        return false;
    }
    occurs_at_exec(s, p, n - m)
}

/// Whether `p` occurs anywhere in `s`.
pub fn contains_str(s: &str, p: &str) -> (r: bool)
    ensures
        r == contains_seq(s@, p@),
{
    let n = s.unicode_len();
    let m = p.unicode_len();
    if m > n {
        proof {
            assert(forall|i: int| !occurs_at(s@, p@, i));
        }
        return false;
    }
    if m == 0 {
        proof {
            assert(s@.subrange(0, 0) =~= p@);
            assert(occurs_at(s@, p@, 0));
        }
        return true;
    }
    let mut i: usize = 0;
    while i <= n - m
        invariant
            1 <= m <= n,
            n == s@.len(),
            m == p@.len(),
            0 <= i <= n - m + 1,
            forall|j: int| 0 <= j < i ==> !occurs_at(s@, p@, j),
        decreases n - i,
    {
        if occurs_at_exec(s, p, i) {
            return true;
        }
        i = i + 1;
    }
    proof {
        assert(forall|j: int| occurs_at(s@, p@, j) ==> 0 <= j <= n - m);
    }
    false
}

/// Equality of two texts.
pub fn str_eq(a: &str, b: &str) -> (r: bool)
    ensures
        r == (a@ == b@),
{
    let n = a.unicode_len();
    let m = b.unicode_len();
    if n != m {
        return false;
    }
    proof {
        assert(a@.subrange(0, a@.len() as int) =~= a@);
    }
    occurs_at_exec(a, b, 0)
}

/// Index of the first occurrence of `c` in `s`, or `s.len()`.
pub open spec fn find_char(s: Seq<char>, c: char) -> int
    decreases s.len(),
{
    if s.len() == 0 {
        0
    } else if s[0] == c {
        0
    } else {
        1 + find_char(s.drop_first(), c)
    }
}

pub proof fn lemma_find_char_unique(s: Seq<char>, c: char, i: int)
    requires
        0 <= i <= s.len(),
        i < s.len() ==> s[i] == c,
        forall|j: int| 0 <= j < i ==> s[j] != c,
    ensures
        find_char(s, c) == i,
    decreases s.len(),
{
    if s.len() == 0 {
    } else if i == 0 {
        if s[0] != c {
            // then i == 0 == s.len() is impossible since s.len() > 0,
            // so s[0] == c must hold by the requirement on i.
            assert(i < s.len());
        }
    } else {
        assert(s[0] != c);
        assert forall|j: int| 0 <= j < i - 1 implies s.drop_first()[j] != c by {
            assert(s.drop_first()[j] == s[j + 1]);
        }
        if i - 1 < s.drop_first().len() {
            assert(s.drop_first()[i - 1] == s[i]);
        }
        lemma_find_char_unique(s.drop_first(), c, i - 1);
    }
}

/// Index of the first occurrence of `c` in `s` at or after `from`,
/// or `s.len()` if there is none.
pub fn find_char_from(s: &str, c: char, from: usize) -> (r: usize)
    requires
        from <= s@.len(),
    ensures
        from <= r <= s@.len(),
        forall|j: int| from <= j < r ==> s@[j] != c,
        r < s@.len() ==> s@[r as int] == c,
{
    let n = s.unicode_len();
    let mut i: usize = from;
    while i < n
        invariant
            from <= i <= n,
            n == s@.len(),
            forall|j: int| from <= j < i ==> s@[j] != c,
        decreases n - i,
    {
        if s.get_char(i) == c {
            return i;
        }
        i = i + 1;
    }
    n
}

/// Index one past the last occurrence of `c` in `s`, or 0 if there is none.
pub fn rfind_char_end(s: &str, c: char) -> (r: usize)
    ensures
        0 <= r <= s@.len(),
        forall|j: int| r <= j < s@.len() ==> s@[j] != c,
        r > 0 ==> s@[r - 1] == c,
{
    let n = s.unicode_len();
    let mut i: usize = n;
    while i > 0
        invariant
            0 <= i <= n,
            n == s@.len(),
            forall|j: int| i <= j < n ==> s@[j] != c,
        decreases i,
    {
        if s.get_char(i - 1) == c {
            return i;
        }
        i = i - 1;
    }
    0
}

/// A line with a trailing carriage return removed.
pub open spec fn strip_cr(l: Seq<char>) -> Seq<char> {
    if l.len() > 0 && l.last() == '\r' {
        l.drop_last()
    } else {
        l
    }
}

/// The lines of a text, split at newlines, each line stripped of a trailing
/// carriage return, with no final empty line after a trailing newline.
/// This matches how the standard library splits a text into lines.
pub open spec fn lines_of(s: Seq<char>) -> Seq<Seq<char>>
    decreases s.len(),
{
    if s.len() == 0 {
        Seq::empty()
    } else {
        let i = find_char(s, '\n');
        if 0 <= i < s.len() {
            seq![strip_cr(s.subrange(0, i))] + lines_of(s.subrange(i + 1, s.len() as int))
        } else {
            seq![strip_cr(s)]
        }
    }
}

/// Split a text into its lines.
pub fn split_lines(s: &str) -> (r: Vec<String>)
    ensures
        r.deep_view() == lines_of(s@),
{
    let n = s.unicode_len();
    let mut out: Vec<String> = Vec::new();
    let mut pos: usize = 0;
    proof {
        assert(s@.subrange(0, n as int) =~= s@);
        assert(out.deep_view() =~= Seq::<Seq<char>>::empty());
    }
    while pos < n
        invariant
            0 <= pos <= n,
            n == s@.len(),
            lines_of(s@) == out.deep_view() + lines_of(s@.subrange(pos as int, n as int)),
            pos > 0 ==> s@[pos - 1] == '\n',
        decreases n - pos,
    {
        let ghost rest = s@.subrange(pos as int, n as int);
        let nl = find_char_from(s, '\n', pos);
        proof {
            assert forall|j: int| 0 <= j < nl - pos implies rest[j] != '\n' by {
                assert(rest[j] == s@[pos + j]);
            }
            if nl < n {
                assert(rest[nl - pos] == s@[nl as int]);
            }
            lemma_find_char_unique(rest, '\n', nl - pos);
        }
        let mut end: usize = nl;
        if end > pos && s.get_char(end - 1) == '\r' {
            end = end - 1;
        }
        let piece = s.substring_char(pos, end);
        proof {
            assert(rest.subrange(0, nl - pos) =~= s@.subrange(pos as int, nl as int));
            if nl == n {
                assert(strip_cr(rest) =~= piece@);
                assert(lines_of(rest) == seq![strip_cr(rest)]);
            } else {
                assert(strip_cr(rest.subrange(0, nl - pos)) =~= piece@);
                assert(rest.subrange(nl - pos + 1, rest.len() as int) =~= s@.subrange(
                    nl + 1,
                    n as int,
                ));
                assert(lines_of(rest) == seq![strip_cr(rest.subrange(0, nl - pos))] + lines_of(
                    s@.subrange(nl + 1, n as int),
                ));
            }
        }
        out.push(piece.to_owned());
        if nl == n {
            proof {
                assert(lines_of(s@.subrange(n as int, n as int)) == Seq::<Seq<char>>::empty());
                assert(lines_of(s@) =~= out.deep_view());
            }
            return out;
        }
        pos = nl + 1;
        proof {
            assert(lines_of(s@) =~= out.deep_view() + lines_of(s@.subrange(pos as int, n as int)));
        }
    }
    proof {
        assert(lines_of(s@.subrange(pos as int, n as int)) == Seq::<Seq<char>>::empty());
        assert(lines_of(s@) =~= out.deep_view());
    }
    out
}

/// The pieces of `s` split at every occurrence of `c`. Splitting an empty
/// text yields one empty piece, as the standard library's split does.
pub open spec fn split_char_of(s: Seq<char>, c: char) -> Seq<Seq<char>>
    decreases s.len(),
{
    let i = find_char(s, c);
    if 0 <= i < s.len() {
        seq![s.subrange(0, i)] + split_char_of(s.subrange(i + 1, s.len() as int), c)
    } else {
        seq![s]
    }
}

/// Split a text at every occurrence of `c`.
pub fn split_on_char(s: &str, c: char) -> (r: Vec<String>)
    ensures
        r.deep_view() == split_char_of(s@, c),
        r.len() >= 1,
{
    let n = s.unicode_len();
    let mut out: Vec<String> = Vec::new();
    let mut pos: usize = 0;
    proof {
        assert(s@.subrange(0, n as int) =~= s@);
        assert(out.deep_view() =~= Seq::<Seq<char>>::empty());
    }
    loop
        invariant
            0 <= pos <= n,
            n == s@.len(),
            split_char_of(s@, c) == out.deep_view() + split_char_of(
                s@.subrange(pos as int, n as int),
                c,
            ),
        decreases n - pos,
    {
        let ghost rest = s@.subrange(pos as int, n as int);
        let sep = find_char_from(s, c, pos);
        proof {
            assert forall|j: int| 0 <= j < sep - pos implies rest[j] != c by {
                assert(rest[j] == s@[pos + j]);
            }
            if sep < n {
                assert(rest[sep - pos] == s@[sep as int]);
            }
            lemma_find_char_unique(rest, c, sep - pos);
        }
        let piece = s.substring_char(pos, sep);
        proof {
            assert(rest.subrange(0, sep - pos) =~= piece@);
            if sep == n {
                assert(rest =~= piece@);
                assert(split_char_of(rest, c) == seq![rest]);
            } else {
                assert(rest.subrange(sep - pos + 1, rest.len() as int) =~= s@.subrange(
                    sep + 1,
                    n as int,
                ));
            }
        }
        out.push(piece.to_owned());
        if sep == n {
            proof {
                assert(split_char_of(s@, c) =~= out.deep_view());
            }
            return out;
        }
        pos = sep + 1;
        proof {
            assert(split_char_of(s@, c) =~= out.deep_view() + split_char_of(
                s@.subrange(pos as int, n as int),
                c,
            ));
        }
    }
}

/// The pieces joined with `sep` between consecutive pieces.
pub open spec fn join_with_sep(parts: Seq<Seq<char>>, sep: Seq<char>) -> Seq<char>
    decreases parts.len(),
{
    if parts.len() == 0 {
        Seq::empty()
    } else if parts.len() == 1 {
        parts[0]
    } else {
        parts[0] + sep + join_with_sep(parts.drop_first(), sep)
    }
}

/// Join texts with a separator between consecutive ones.
pub fn join_strings(parts: &Vec<String>, sep: &str) -> (r: String)
    ensures
        r@ == join_with_sep(parts.deep_view(), sep@),
{
    let mut out = String::new();
    let n = parts.len();
    if n == 0 {
        return out;
    }
    let mut i: usize = 0;
    proof {
        assert(parts.deep_view().subrange(0, n as int) =~= parts.deep_view());
    }
    while i < n
        invariant
            0 < n == parts.len(),
            0 <= i <= n,
            join_with_sep(parts.deep_view(), sep@) == out@ + join_with_sep(
                parts.deep_view().subrange(i as int, n as int),
                sep@,
            ),
        decreases n - i,
    {
        let ghost pre = out@;
        out.append(parts[i].as_str());
        if i + 1 < n {
            out.append(sep);
        }
        proof {
            let tail = parts.deep_view().subrange(i as int, n as int);
            assert(tail[0] == parts.deep_view()[i as int]);
            if i + 1 < n {
                assert(tail.drop_first() =~= parts.deep_view().subrange(i + 1, n as int));
                assert(join_with_sep(tail, sep@) == tail[0] + sep@ + join_with_sep(
                    tail.drop_first(),
                    sep@,
                ));
            } else {
                assert(tail.len() == 1);
                assert(join_with_sep(tail, sep@) == tail[0]);
                assert(parts.deep_view().subrange(n as int, n as int)
                    =~= Seq::<Seq<char>>::empty());
            }
        }
        i = i + 1;
    }
    proof {
        assert(join_with_sep(parts.deep_view().subrange(n as int, n as int), sep@)
            == Seq::<char>::empty());
        assert(join_with_sep(parts.deep_view(), sep@) =~= out@);
    }
    out
}

/// The decimal digit character for a value below ten.
pub open spec fn digit_char(d: int) -> char {
    if d == 0 {
        '0'
    } else if d == 1 {
        '1'
    } else if d == 2 {
        '2'
    } else if d == 3 {
        '3'
    } else if d == 4 {
        '4'
    } else if d == 5 {
        '5'
    } else if d == 6 {
        '6'
    } else if d == 7 {
        '7'
    } else if d == 8 {
        '8'
    } else {
        '9'
    }
}

/// The decimal rendering of a non-negative number.
pub open spec fn dec_of(n: int) -> Seq<char>
    decreases n,
{
    if n < 10 {
        seq![digit_char(n)]
    } else {
        dec_of(n / 10).push(digit_char(n % 10))
    }
}

fn digit_str(d: u64) -> (r: &'static str)
    requires
        d < 10,
    ensures
        r@ =~= seq![digit_char(d as int)],
{
    proof {
        reveal_strlit("0");
        reveal_strlit("1");
        reveal_strlit("2");
        reveal_strlit("3");
        reveal_strlit("4");
        reveal_strlit("5");
        reveal_strlit("6");
        reveal_strlit("7");
        reveal_strlit("8");
        reveal_strlit("9");
    }
    match d {
        0 => "0",
        1 => "1",
        2 => "2",
        3 => "3",
        4 => "4",
        5 => "5",
        6 => "6",
        7 => "7",
        8 => "8",
        _ => "9",
    }
}

/// Render a number in decimal.
pub fn u64_to_string(n: u64) -> (r: String)
    ensures
        r@ == dec_of(n as int),
    decreases n,
{
    if n < 10 {
        digit_str(n).to_owned()
    } else {
        let mut s = u64_to_string(n / 10);
        s.append(digit_str(n % 10));
        proof {
            assert(s@ =~= dec_of(n as int));
        }
        s
    }
}

/// Render a length or index in decimal.
pub fn usize_to_string(n: usize) -> (r: String)
    ensures
        r@ == dec_of(n as int),
{
    u64_to_string(n as u64)
}

/// Index of the first occurrence of `p` in `s`, or `s.len()` if there is
/// none.
pub open spec fn find_sub(s: Seq<char>, p: Seq<char>) -> int
    decreases s.len(),
{
    if occurs_at(s, p, 0) {
        0
    } else if s.len() == 0 {
        0
    } else {
        1 + find_sub(s.drop_first(), p)
    }
}

pub proof fn lemma_find_sub_bounds(s: Seq<char>, p: Seq<char>)
    ensures
        0 <= find_sub(s, p) <= s.len(),
        forall|j: int| 0 <= j < find_sub(s, p) ==> !occurs_at(s, p, j),
        find_sub(s, p) < s.len() || !contains_seq(s, p) || occurs_at(s, p, s.len() as int),
        find_sub(s, p) == s.len() || occurs_at(s, p, find_sub(s, p)),
    decreases s.len(),
{
    if occurs_at(s, p, 0) {
    } else if s.len() == 0 {
    } else {
        let t = s.drop_first();
        lemma_find_sub_bounds(t, p);
        assert forall|j: int| 1 <= j <= t.len() implies occurs_at(s, p, j) == occurs_at(
            t,
            p,
            j - 1,
        ) by {
            if 0 <= j - 1 && j - 1 + p.len() <= t.len() {
                assert(t.subrange(j - 1, j - 1 + p.len()) =~= s.subrange(j, j + p.len()));
            }
        }
        let f = find_sub(s, p);
        assert forall|j: int| 0 <= j < f implies !occurs_at(s, p, j) by {
            if j >= 1 {
                assert(!occurs_at(t, p, j - 1));
            }
        }
        if f < s.len() {
            assert(occurs_at(t, p, f - 1));
        }
        if contains_seq(s, p) && f == s.len() {
            let w = choose|w: int| occurs_at(s, p, w);
            if w < s.len() {
                assert(!occurs_at(s, p, w));
            }
        }
    }
}

proof fn lemma_find_sub_unique(s: Seq<char>, p: Seq<char>, i: int)
    requires
        0 <= i <= s.len(),
        i == s.len() || occurs_at(s, p, i),
        forall|j: int| 0 <= j < i ==> !occurs_at(s, p, j),
        i == s.len() ==> !contains_seq(s, p) || occurs_at(s, p, s.len() as int),
    ensures
        find_sub(s, p) == i,
{
    lemma_find_sub_bounds(s, p);
    let f = find_sub(s, p);
    if f < i {
        assert(!occurs_at(s, p, f));
        assert(f == s.len());
    }
    if i < f {
        assert(!occurs_at(s, p, i));
    }
}

/// Index of the first occurrence of `p` in `s`, or the length of `s` if
/// there is none.
pub fn find_sub_str(s: &str, p: &str) -> (r: usize)
    ensures
        r == find_sub(s@, p@),
{
    let n = s.unicode_len();
    let m = p.unicode_len();
    if m == 0 {
        proof {
            assert(s@.subrange(0, 0) =~= p@);
            assert(occurs_at(s@, p@, 0));
        }
        return 0;
    }
    if m > n {
        proof {
            assert(forall|j: int| !occurs_at(s@, p@, j));
            lemma_find_sub_unique(s@, p@, n as int);
        }
        return n;
    }
    let mut i: usize = 0;
    while i <= n - m
        invariant
            1 <= m <= n,
            n == s@.len(),
            m == p@.len(),
            0 <= i <= n - m + 1,
            forall|j: int| 0 <= j < i ==> !occurs_at(s@, p@, j),
        decreases n - i,
    {
        if occurs_at_exec(s, p, i) {
            proof {
                lemma_find_sub_unique(s@, p@, i as int);
            }
            return i;
        }
        i = i + 1;
    }
    proof {
        assert(forall|j: int| occurs_at(s@, p@, j) ==> 0 <= j <= n - m);
        lemma_find_sub_unique(s@, p@, n as int);
    }
    n
}

/// The text with every trailing occurrence of `c` removed.
pub open spec fn strip_trailing(s: Seq<char>, c: char) -> Seq<char>
    decreases s.len(),
{
    if s.len() > 0 && s.last() == c {
        strip_trailing(s.drop_last(), c)
    } else {
        s
    }
}

/// Remove every trailing occurrence of `c` from a text.
pub fn strip_trailing_str(s: &str, c: char) -> (r: String)
    ensures
        r@ == strip_trailing(s@, c),
{
    let n = s.unicode_len();
    let mut e: usize = n;
    proof {
        assert(s@.subrange(0, n as int) =~= s@);
    }
    while e > 0 && s.get_char(e - 1) == c
        invariant
            0 <= e <= n,
            n == s@.len(),
            strip_trailing(s@, c) == strip_trailing(s@.subrange(0, e as int), c),
        decreases e,
    {
        proof {
            let sub = s@.subrange(0, e as int);
            assert(sub.last() == c);
            assert(sub.drop_last() =~= s@.subrange(0, e - 1));
        }
        e = e - 1;
    }
    let piece = s.substring_char(0, e);
    proof {
        let sub = s@.subrange(0, e as int);
        if e > 0 {
            assert(sub.last() == s@[e - 1]);
        }
        assert(strip_trailing(sub, c) == sub);
    }
    piece.to_owned()
}

/// The text with every leading repetition of `p` removed.
pub open spec fn strip_prefix_all(s: Seq<char>, p: Seq<char>) -> Seq<char>
    decreases s.len(),
{
    if p.len() > 0 && starts_with_seq(s, p) && p.len() <= s.len() {
        strip_prefix_all(s.subrange(p.len() as int, s.len() as int), p)
    } else {
        s
    }
}

/// The text with every trailing repetition of `p` removed.
pub open spec fn strip_suffix_all(s: Seq<char>, p: Seq<char>) -> Seq<char>
    decreases s.len(),
{
    if p.len() > 0 && ends_with_seq(s, p) {
        strip_suffix_all(s.take(s.len() - p.len()), p)
    } else {
        s
    }
}

/// Remove every leading repetition of `p` from a text.
pub fn strip_prefix_all_str(s: &str, p: &str) -> (r: String)
    ensures
        r@ == strip_prefix_all(s@, p@),
{
    let n = s.unicode_len();
    let m = p.unicode_len();
    if m == 0 {
        return s.to_owned();
    }
    let mut lo: usize = 0;
    proof {
        assert(s@.subrange(0, n as int) =~= s@);
    }
    while m <= n - lo && occurs_at_exec(s, p, lo)
        invariant
            1 <= m == p@.len(),
            n == s@.len(),
            0 <= lo <= n,
            strip_prefix_all(s@, p@) == strip_prefix_all(s@.subrange(lo as int, n as int), p@),
        decreases n - lo,
    {
        proof {
            let sub = s@.subrange(lo as int, n as int);
            assert(sub.subrange(0, m as int) =~= s@.subrange(lo as int, lo + m));
            assert(starts_with_seq(sub, p@));
            assert(sub.subrange(m as int, sub.len() as int) =~= s@.subrange(lo + m, n as int));
        }
        lo = lo + m;
    }
    proof {
        let sub = s@.subrange(lo as int, n as int);
        if p@.len() <= sub.len() && starts_with_seq(sub, p@) {
            assert(occurs_at(s@, p@, lo as int)) by {
                assert(s@.subrange(lo as int, lo + m) =~= sub.subrange(0, m as int));
            }
            assert(false);
        }
        assert(strip_prefix_all(sub, p@) == sub);
    }
    s.substring_char(lo, n).to_owned()
}

/// Remove every trailing repetition of `p` from a text.
pub fn strip_suffix_all_str(s: &str, p: &str) -> (r: String)
    ensures
        r@ == strip_suffix_all(s@, p@),
{
    let n = s.unicode_len();
    let m = p.unicode_len();
    if m == 0 {
        return s.to_owned();
    }
    let mut hi: usize = n;
    proof {
        assert(s@.take(n as int) =~= s@);
    }
    while hi >= m && occurs_at_exec(s, p, hi - m)
        invariant
            1 <= m == p@.len(),
            n == s@.len(),
            0 <= hi <= n,
            strip_suffix_all(s@, p@) == strip_suffix_all(s@.take(hi as int), p@),
        decreases hi,
    {
        proof {
            let sub = s@.take(hi as int);
            assert(sub.subrange(sub.len() - m, sub.len() as int) =~= s@.subrange(
                hi - m,
                hi as int,
            ));
            assert(ends_with_seq(sub, p@));
            assert(sub.take(sub.len() - m) =~= s@.take(hi - m));
        }
        hi = hi - m;
    }
    proof {
        let sub = s@.take(hi as int);
        if p@.len() > 0 && ends_with_seq(sub, p@) {
            assert(occurs_at(s@, p@, hi - m)) by {
                assert(s@.subrange(hi - m, hi as int) =~= sub.subrange(sub.len() - m, sub.len() as int));
            }
            assert(false);
        }
        assert(strip_suffix_all(sub, p@) == sub);
        assert(s@.take(hi as int) =~= s@.subrange(0, hi as int));
    }
    s.substring_char(0, hi).to_owned()
}

/// The text with every leading occurrence of `c` removed.
pub open spec fn strip_leading(s: Seq<char>, c: char) -> Seq<char>
    decreases s.len(),
{
    if s.len() > 0 && s[0] == c {
        strip_leading(s.drop_first(), c)
    } else {
        s
    }
}

/// Remove every leading occurrence of `c` from a text.
pub fn strip_leading_exec(s: &str, c: char) -> (r: String)
    ensures
        r@ == strip_leading(s@, c),
{
    let n = s.unicode_len();
    let mut lo: usize = 0;
    proof {
        assert(s@.subrange(0, n as int) =~= s@);
    }
    while lo < n && s.get_char(lo) == c
        invariant
            0 <= lo <= n,
            n == s@.len(),
            strip_leading(s@, c) == strip_leading(s@.subrange(lo as int, n as int), c),
        decreases n - lo,
    {
        proof {
            let sub = s@.subrange(lo as int, n as int);
            assert(sub[0] == s@[lo as int]);
            assert(sub.drop_first() =~= s@.subrange(lo as int + 1, n as int));
        }
        lo = lo + 1;
    }
    proof {
        let sub = s@.subrange(lo as int, n as int);
        if sub.len() > 0 {
            assert(sub[0] == s@[lo as int]);
        }
        assert(strip_leading(sub, c) == sub);
    }
    s.substring_char(lo, n).to_owned()
}

/// The text with every whitespace character removed.
pub open spec fn remove_ws(s: Seq<char>) -> Seq<char> {
    s.filter(|c: char| !is_ws(c))
}

/// The characters of a text that are not whitespace, in order.
pub fn remove_ws_chars(s: &str) -> (r: Vec<char>)
    ensures
        r@ == remove_ws(s@),
{
    let n = s.unicode_len();
    let mut out: Vec<char> = Vec::new();
    let mut i: usize = 0;
    proof {
        reveal(Seq::filter);
        assert(s@.subrange(0, 0) =~= Seq::<char>::empty());
        assert(out@ =~= remove_ws(s@.subrange(0, 0)));
    }
    while i < n
        invariant
            0 <= i <= n,
            n == s@.len(),
            out@ == remove_ws(s@.subrange(0, i as int)),
        decreases n - i,
    {
        let c = s.get_char(i);
        proof {
            reveal(Seq::filter);
            let sub1 = s@.subrange(0, i as int + 1);
            assert(sub1.drop_last() =~= s@.subrange(0, i as int));
            assert(sub1.last() == c);
        }
        if !is_ws_exec(c) {
            out.push(c);
        }
        i = i + 1;
    }
    proof {
        assert(s@.subrange(0, n as int) =~= s@);
    }
    out
}

/// Equality of two character vectors.
pub fn chars_eq(a: &Vec<char>, b: &Vec<char>) -> (r: bool)
    ensures
        r == (a@ == b@),
{
    if a.len() != b.len() {
        return false;
    }
    let n = a.len();
    let mut i: usize = 0;
    while i < n
        invariant
            0 <= i <= n,
            n == a@.len() == b@.len(),
            forall|j: int| 0 <= j < i ==> a@[j] == b@[j],
        decreases n - i,
    {
        if a[i] != b[i] {
            return false;
        }
        i = i + 1;
    }
    proof {
        assert(a@ =~= b@);
    }
    true
}

/// Whether a list of texts holds the given text.
pub fn contains_string(v: &Vec<String>, x: &str) -> (r: bool)
    ensures
        r == v.deep_view().contains(x@),
{
    let n = v.len();
    let mut i: usize = 0;
    while i < n
        invariant
            0 <= i <= n,
            n == v@.len(),
            forall|j: int| 0 <= j < i ==> v.deep_view()[j] != x@,
        decreases n - i,
    {
        if str_eq(v[i].as_str(), x) {
            proof {
                assert(v.deep_view()[i as int] == x@);
            }
            return true;
        }
        proof {
            assert(v.deep_view()[i as int] == v@[i as int]@);
        }
        i = i + 1;
    }
    proof {
        assert(forall|j: int| 0 <= j < v.deep_view().len() ==> v.deep_view()[j] != x@);
    }
    false
}

/// Equality of two optional texts.
pub fn opt_str_eq(a: &Option<String>, b: &Option<String>) -> (r: bool)
    ensures
        r == match (a, b) {
            (Some(x), Some(y)) => x@ == y@,
            (None, None) => true,
            _ => false,
        },
{
    match (a, b) {
        (Some(x), Some(y)) => str_eq(x.as_str(), y.as_str()),
        (None, None) => true,
        _ => false,
    }
}

} // verus!

verus! {

/// The lowercase form of an uppercase ASCII letter; every other character
/// stays itself.
pub open spec fn lower_char(c: char) -> char {
    if c == 'A' {
        'a'
    } else if c == 'B' {
        'b'
    } else if c == 'C' {
        'c'
    } else if c == 'D' {
        'd'
    } else if c == 'E' {
        'e'
    } else if c == 'F' {
        'f'
    } else if c == 'G' {
        'g'
    } else if c == 'H' {
        'h'
    } else if c == 'I' {
        'i'
    } else if c == 'J' {
        'j'
    } else if c == 'K' {
        'k'
    } else if c == 'L' {
        'l'
    } else if c == 'M' {
        'm'
    } else if c == 'N' {
        'n'
    } else if c == 'O' {
        'o'
    } else if c == 'P' {
        'p'
    } else if c == 'Q' {
        'q'
    } else if c == 'R' {
        'r'
    } else if c == 'S' {
        's'
    } else if c == 'T' {
        't'
    } else if c == 'U' {
        'u'
    } else if c == 'V' {
        'v'
    } else if c == 'W' {
        'w'
    } else if c == 'X' {
        'x'
    } else if c == 'Y' {
        'y'
    } else if c == 'Z' {
        'z'
    } else {
        c
    }
}

/// The text with every uppercase ASCII letter lowered.
pub open spec fn ascii_lower(s: Seq<char>) -> Seq<char> {
    s.map_values(|c: char| lower_char(c))
}

/// The lowercase form of one character.
pub fn lower_char_exec(c: char) -> (r: char)
    ensures
        r == lower_char(c),
{
    match c {
        'A' => 'a',
        'B' => 'b',
        'C' => 'c',
        'D' => 'd',
        'E' => 'e',
        'F' => 'f',
        'G' => 'g',
        'H' => 'h',
        'I' => 'i',
        'J' => 'j',
        'K' => 'k',
        'L' => 'l',
        'M' => 'm',
        'N' => 'n',
        'O' => 'o',
        'P' => 'p',
        'Q' => 'q',
        'R' => 'r',
        'S' => 's',
        'T' => 't',
        'U' => 'u',
        'V' => 'v',
        'W' => 'w',
        'X' => 'x',
        'Y' => 'y',
        'Z' => 'z',
        _ => c,
    }
}

/// Whether `s`, lowered, equals the already-lowercase text `p`.
pub fn eq_ignore_ascii_case_str(s: &str, p: &str) -> (r: bool)
    ensures
        r == (ascii_lower(s@) == p@),
{
    let n = s.unicode_len();
    let m = p.unicode_len();
    if n != m {
        proof {
            assert(ascii_lower(s@).len() == s@.len());
        }
        return false;
    }
    let mut i: usize = 0;
    while i < n
        invariant
            0 <= i <= n,
            n == s@.len() == p@.len(),
            forall|j: int| 0 <= j < i ==> lower_char(s@[j]) == p@[j],
        decreases n - i,
    {
        if lower_char_exec(s.get_char(i)) != p.get_char(i) {
            proof {
                assert(ascii_lower(s@)[i as int] == lower_char(s@[i as int]));
            }
            return false;
        }
        i = i + 1;
    }
    proof {
        assert(ascii_lower(s@) =~= p@);
    }
    true
}

} // verus!
