//! Verified text primitives shared by every parser: splitting a line into
//! tokens, splitting a stream into lines, locating a column in a header row,
//! and coercing digit strings into integers.

use vstd::prelude::*;

verus! {

// ---------------------------------------------------------------------------
// splitting
// ---------------------------------------------------------------------------
/// The tokens of `s` delimited by `sep`.  Splitting the empty sequence
/// yields one empty token, as `str::split` does.
pub open spec fn spec_split(s: Seq<char>, sep: char) -> Seq<Seq<char>>
    decreases s.len(),
{
    if s.len() == 0 {
        seq![Seq::<char>::empty()]
    } else if s[0] == sep {
        seq![Seq::<char>::empty()] + spec_split(s.skip(1), sep)
    } else {
        let r = spec_split(s.skip(1), sep);
        seq![seq![s[0]] + r[0]] + r.skip(1)
    }
}

pub proof fn lemma_split_len(s: Seq<char>, sep: char)
    ensures
        spec_split(s, sep).len() >= 1,
    decreases s.len(),
{
    if s.len() == 0 {
    } else if s[0] == sep {
    } else {
        lemma_split_len(s.skip(1), sep);
    }
}

/// The shape `spec_split` takes at the first separator: if no character
/// before position `k` is the separator, the first token is exactly the
/// prefix of length `k`.
pub proof fn lemma_split_at(s: Seq<char>, sep: char, k: int)
    requires
        0 <= k <= s.len(),
        forall|j: int| 0 <= j < k ==> s[j] != sep,
        k < s.len() ==> s[k] == sep,
    ensures
        k == s.len() ==> spec_split(s, sep) =~~= seq![s],
        k < s.len() ==> spec_split(s, sep) =~~= seq![s.take(k)] + spec_split(
            s.skip(k + 1),
            sep,
        ),
    decreases k,
{
    lemma_split_len(s, sep);
    if k == 0 {
        if s.len() > 0 && k < s.len() {
            assert(s.skip(k + 1) =~= s.skip(1));
        }
    } else {
        let t = s.skip(1);
        lemma_split_len(t, sep);
        lemma_split_at(t, sep, k - 1);
        if k == s.len() {
            assert(t.len() == k - 1);
            assert(spec_split(t, sep) =~~= seq![t]);
            assert(seq![s[0]] + t =~= s);
        } else {
            assert(t[k - 1] == s[k]);
            assert(spec_split(t, sep) =~~= seq![t.take(k - 1)] + spec_split(t.skip(k), sep));
            assert(seq![s[0]] + t.take(k - 1) =~= s.take(k));
            assert(t.skip(k) =~= s.skip(k + 1));
        }
    }
}

/// Compares two string slices by their character sequences.
pub fn str_eq(a: &str, b: &str) -> (r: bool)
    ensures
        r == (a@ == b@),
{
    let na = a.unicode_len();
    let nb = b.unicode_len();
    if na != nb {
        return false;
    }
    let mut i: usize = 0;
    while i < na
        invariant
            na == a@.len(),
            na == b@.len(),
            0 <= i <= na,
            forall|j: int| 0 <= j < i ==> a@[j] == b@[j],
        decreases na - i,
    {
        if a.get_char(i) != b.get_char(i) {
            return false;
        }
        i += 1;
    }
    proof {
        assert(a@ =~= b@);
    }
    true
}

/// Splits `s` at every occurrence of `sep`.
pub fn split_char(s: &str, sep: char) -> (r: Vec<String>)
    ensures
        r.deep_view() == spec_split(s@, sep),
{
    let n = s.unicode_len();
    let mut r: Vec<String> = Vec::new();
    let mut start: usize = 0;
    let mut i: usize = 0;
    proof {
        assert(s@.skip(0) =~= s@);
        assert(r.deep_view() =~= Seq::<Seq<char>>::empty());
        assert(r.deep_view() + spec_split(s@, sep) =~= spec_split(s@, sep));
    }
    while i < n
        invariant
            n == s@.len(),
            0 <= start <= i <= n,
            forall|j: int| start <= j < i ==> s@[j] != sep,
            spec_split(s@, sep) == r.deep_view() + spec_split(s@.skip(start as int), sep),
        decreases n - i,
    {
        let c = s.get_char(i);
        if c == sep {
            let tok = s.substring_char(start, i).to_owned();
            proof {
                let rest = s@.skip(start as int);
                assert(forall|j: int|
                    0 <= j < i - start ==> rest[j] == s@[start + j] && rest[j] != sep);
                assert(rest[i - start] == sep);
                lemma_split_at(rest, sep, i - start);
                assert(rest.take(i - start) =~= s@.subrange(start as int, i as int));
                assert(rest.skip(i - start + 1) =~= s@.skip(i as int + 1));
            }
            let ghost old_r = r;
            r.push(tok);
            proof {
                assert(r.deep_view() =~= old_r.deep_view() + seq![s@.subrange(
                    start as int,
                    i as int,
                )]);
            }
            start = i + 1;
        }
        i += 1;
    }
    let tok = s.substring_char(start, n).to_owned();
    proof {
        let rest = s@.skip(start as int);
        assert(forall|j: int| 0 <= j < rest.len() ==> rest[j] == s@[start + j] && rest[j] != sep);
        lemma_split_at(rest, sep, rest.len() as int);
        assert(rest =~= s@.subrange(start as int, n as int));
    }
    let ghost old_r = r;
    r.push(tok);
    proof {
        assert(r.deep_view() =~= old_r.deep_view() + seq![s@.subrange(start as int, n as int)]);
        assert(r.deep_view() =~= spec_split(s@, sep));
    }
    r
}

// ---------------------------------------------------------------------------
// lines
// ---------------------------------------------------------------------------
/// `l` without a single trailing carriage return.
pub open spec fn strip_cr(l: Seq<char>) -> Seq<char> {
    if l.len() > 0 && l[l.len() - 1] == '\r' {
        l.drop_last()
    } else {
        l
    }
}

/// The lines of `s`: split at every line feed, drop the empty final
/// segment that a trailing line feed (or an empty input) leaves, and
/// strip the carriage return of each line-feed-terminated line.
pub open spec fn spec_lines(s: Seq<char>) -> Seq<Seq<char>> {
    let p = spec_split(s, '\n');
    let kept = if p.last().len() == 0 {
        p.drop_last()
    } else {
        p
    };
    Seq::new(
        kept.len(),
        |k: int|
            if k < p.len() - 1 {
                strip_cr(kept[k])
            } else {
                kept[k]
            },
    )
}

/// Splits `s` into lines.
pub fn lines_of(s: &str) -> (r: Vec<String>)
    ensures
        r.deep_view() == spec_lines(s@),
{
    let parts = split_char(s, '\n');
    proof {
        lemma_split_len(s@, '\n');
    }
    let last_empty = parts[parts.len() - 1].as_str().unicode_len() == 0;
    proof {
        assert(parts.deep_view().last() == parts[parts.len() - 1]@);
    }
    let m = if last_empty {
        parts.len() - 1
    } else {
        parts.len()
    };
    let mut r: Vec<String> = Vec::new();
    let mut k: usize = 0;
    while k < m
        invariant
            m <= parts.len(),
            parts.deep_view().len() == parts.len(),
            parts.deep_view() == spec_split(s@, '\n'),
            m == if parts.deep_view().last().len() == 0 {
                parts.deep_view().len() - 1
            } else {
                parts.deep_view().len() as int
            },
            0 <= k <= m,
            r.deep_view().len() == k,
            forall|j: int|
                0 <= j < k ==> r.deep_view()[j] == #[trigger] spec_lines(s@)[j],
        decreases m - k,
    {
        let line = if k + 1 < parts.len() {
            let p = &parts[k];
            let pn = p.unicode_len();
            if pn > 0 && p.get_char(pn - 1) == '\r' {
                p.substring_char(0, pn - 1).to_owned()
            } else {
                p.clone()
            }
        } else {
            parts[k].clone()
        };
        proof {
            let pd = parts.deep_view();
            let kept = if pd.last().len() == 0 {
                pd.drop_last()
            } else {
                pd
            };
            assert(kept[k as int] == pd[k as int]);
            assert(parts[k as int].deep_view() == pd[k as int]);
            if k + 1 < parts.len() {
                if pd[k as int].len() > 0 && pd[k as int][pd[k as int].len() - 1] == '\r' {
                    assert(line@ =~= pd[k as int].drop_last());
                }
                assert(line@ == strip_cr(pd[k as int]));
            }
            assert(line@ == spec_lines(s@)[k as int]);
        }
        let ghost old_r = r;
        r.push(line);
        proof {
            assert(r.deep_view() =~= old_r.deep_view().push(line@));
        }
        k += 1;
    }
    proof {
        assert(r.deep_view() =~= spec_lines(s@));
    }
    r
}

// ---------------------------------------------------------------------------
// header columns
// ---------------------------------------------------------------------------
/// The position of column `name` in header row `hdr`: the last token equal
/// to `name`, as a later duplicate overrides an earlier one.
pub open spec fn col_ix(hdr: Seq<Seq<char>>, name: Seq<char>) -> Option<int>
    decreases hdr.len(),
{
    if hdr.len() == 0 {
        None
    } else if hdr.last() == name {
        Some(hdr.len() - 1)
    } else {
        col_ix(hdr.drop_last(), name)
    }
}

/// Locates column `name` in the header row `hdr`.
pub fn find_col(hdr: &Vec<String>, name: &str) -> (r: Option<usize>)
    ensures
        match r {
            Some(i) => col_ix(hdr.deep_view(), name@) == Some(i as int),
            None => col_ix(hdr.deep_view(), name@) is None,
        },
{
    let ghost hd = hdr.deep_view();
    let mut i: usize = hdr.len();
    proof {
        assert(hd.take(i as int) =~= hd);
    }
    while i > 0
        invariant
            hd == hdr.deep_view(),
            hd.len() == hdr.len(),
            0 <= i <= hdr.len(),
            col_ix(hd, name@) == col_ix(hd.take(i as int), name@),
        decreases i,
    {
        i -= 1;
        if str_eq(hdr[i].as_str(), name) {
            proof {
                let t = hd.take(i as int + 1);
                assert(t.last() == hd[i as int]);
                assert(col_ix(t, name@) == Some(i as int));
            }
            return Some(i);
        }
        proof {
            let t = hd.take(i as int + 1);
            assert(t.last() == hd[i as int]);
            assert(t.drop_last() =~= hd.take(i as int));
            assert(col_ix(t, name@) == col_ix(hd.take(i as int), name@));
        }
    }
    proof {
        assert(hd.take(0) =~= Seq::<Seq<char>>::empty());
    }
    None
}

// ---------------------------------------------------------------------------
// searching and rewriting
// ---------------------------------------------------------------------------
/// The position of the first `sep` in `s`, or `s.len()` if there is none.
pub open spec fn first_ix(s: Seq<char>, sep: char) -> int
    decreases s.len(),
{
    if s.len() == 0 {
        0
    } else if s[0] == sep {
        0
    } else {
        1 + first_ix(s.skip(1), sep)
    }
}

pub proof fn lemma_first_ix_at(s: Seq<char>, sep: char, k: int)
    requires
        0 <= k <= s.len(),
        forall|j: int| 0 <= j < k ==> s[j] != sep,
        k < s.len() ==> s[k] == sep,
    ensures
        first_ix(s, sep) == k,
    decreases k,
{
    if k == 0 {
        if s.len() > 0 {
        }
    } else {
        let t = s.skip(1);
        assert(forall|j: int| 0 <= j < k - 1 ==> t[j] == s[j + 1] && t[j] != sep);
        if k - 1 < t.len() {
            assert(t[k - 1] == s[k]);
        }
        lemma_first_ix_at(t, sep, k - 1);
    }
}

/// Splits `s` at the first `sep`, as `str::split_once` does.
pub fn split_once_char(s: &str, sep: char) -> (r: Option<(String, String)>)
    ensures
        ({
            let fi = first_ix(s@, sep);
            match r {
                Some(p) => fi < s@.len() && p.0@ == s@.take(fi) && p.1@ == s@.skip(fi + 1),
                None => fi == s@.len(),
            }
        }),
{
    let n = s.unicode_len();
    let mut i: usize = 0;
    while i < n
        invariant
            n == s@.len(),
            0 <= i <= n,
            forall|j: int| 0 <= j < i ==> s@[j] != sep,
        decreases n - i,
    {
        if s.get_char(i) == sep {
            proof {
                lemma_first_ix_at(s@, sep, i as int);
            }
            let before = s.substring_char(0, i).to_owned();
            let after = s.substring_char(i + 1, n).to_owned();
            proof {
                assert(before@ =~= s@.take(i as int));
                assert(after@ =~= s@.skip(i as int + 1));
            }
            return Some((before, after));
        }
        i += 1;
    }
    proof {
        lemma_first_ix_at(s@, sep, n as int);
    }
    None
}

/// The suffix of `s` after its last `sep`; all of `s` if there is none.
pub open spec fn after_last(s: Seq<char>, sep: char) -> Seq<char>
    decreases s.len(),
{
    if s.len() == 0 {
        s
    } else if s.last() == sep {
        Seq::empty()
    } else {
        after_last(s.drop_last(), sep).push(s.last())
    }
}

proof fn lemma_after_last_at(s: Seq<char>, sep: char, k: int)
    requires
        0 <= k <= s.len(),
        forall|j: int| k <= j < s.len() ==> s[j] != sep,
        k > 0 ==> s[k - 1] == sep,
    ensures
        after_last(s, sep) =~= s.skip(k),
    decreases s.len(),
{
    if s.len() == 0 {
    } else if k == s.len() {
        if k > 0 {
            assert(s.last() == sep);
        }
    } else {
        assert(s.last() != sep);
        lemma_after_last_at(s.drop_last(), sep, k);
        assert(s.drop_last().skip(k).push(s.last()) =~= s.skip(k));
    }
}

/// The suffix of `s` after its last `sep`, as a fresh string.
pub fn suffix_after_last(s: &str, sep: char) -> (r: String)
    ensures
        r@ == after_last(s@, sep),
{
    let n = s.unicode_len();
    let mut i: usize = n;
    while i > 0
        invariant
            n == s@.len(),
            0 <= i <= n,
            forall|j: int| i <= j < n ==> s@[j] != sep,
        decreases i,
    {
        if s.get_char(i - 1) == sep {
            proof {
                lemma_after_last_at(s@, sep, i as int);
            }
            let r = s.substring_char(i, n).to_owned();
            proof {
                assert(r@ =~= s@.skip(i as int));
            }
            return r;
        }
        i -= 1;
    }
    proof {
        lemma_after_last_at(s@, sep, 0);
    }
    let r = s.substring_char(0, n).to_owned();
    proof {
        assert(r@ =~= s@.skip(0));
    }
    r
}

/// `s` with every `%3A` escape rewritten to a colon, left to right.
pub open spec fn spec_unescape(s: Seq<char>) -> Seq<char>
    decreases s.len(),
{
    if s.len() == 0 {
        s
    } else if s.len() >= 3 && s[0] == '%' && s[1] == '3' && s[2] == 'A' {
        seq![':'] + spec_unescape(s.skip(3))
    } else {
        seq![s[0]] + spec_unescape(s.skip(1))
    }
}

/// Rewrites every `%3A` escape in `s` to a colon.
pub fn unescape_colons(s: &str) -> (r: String)
    ensures
        r@ == spec_unescape(s@),
{
    let n = s.unicode_len();
    let mut out = String::new();
    let mut i: usize = 0;
    proof {
        assert(s@.skip(0) =~= s@);
        assert(out@ + spec_unescape(s@) =~= spec_unescape(s@));
    }
    while i < n
        invariant
            n == s@.len(),
            0 <= i <= n,
            spec_unescape(s@) == out@ + spec_unescape(s@.skip(i as int)),
        decreases n - i,
    {
        let ghost rest = s@.skip(i as int);
        proof {
            assert(rest.len() == n - i);
            assert(forall|j: int| 0 <= j < rest.len() ==> rest[j] == s@[i + j]);
        }
        if n - i > 2 && s.get_char(i) == '%' && s.get_char(i + 1) == '3' && s.get_char(i + 2)
            == 'A' {
            out.append(":");
            proof {
                reveal_strlit(":");
                assert(rest.skip(3) =~= s@.skip(i as int + 3));
            }
            i += 3;
        } else {
            let c = s.substring_char(i, i + 1);
            out.append(c);
            proof {
                assert(c@ =~= seq![rest[0]]);
                assert(rest.skip(1) =~= s@.skip(i as int + 1));
            }
            i += 1;
        }
    }
    proof {
        assert(s@.skip(n as int) =~= Seq::<char>::empty());
        assert(out@ + Seq::<char>::empty() =~= out@);
    }
    out
}

/// The white-space class of the admin tools' plain-text files.
pub open spec fn is_ws(c: char) -> bool {
    c == ' ' || c == '\t' || c == '\n' || c == '\r'
}

/// `s` without its leading white space.
pub open spec fn trim_start(s: Seq<char>) -> Seq<char>
    decreases s.len(),
{
    if s.len() > 0 && is_ws(s[0]) {
        trim_start(s.skip(1))
    } else {
        s
    }
}

/// `s` without its trailing white space.
pub open spec fn trim_end(s: Seq<char>) -> Seq<char>
    decreases s.len(),
{
    if s.len() > 0 && is_ws(s[s.len() - 1]) {
        trim_end(s.drop_last())
    } else {
        s
    }
}

/// `s` without its surrounding white space.
pub open spec fn spec_trim(s: Seq<char>) -> Seq<char> {
    trim_end(trim_start(s))
}

proof fn lemma_trim_start_at(s: Seq<char>, k: int)
    requires
        0 <= k <= s.len(),
        forall|j: int| 0 <= j < k ==> is_ws(s[j]),
        k < s.len() ==> !is_ws(s[k]),
    ensures
        trim_start(s) =~= s.skip(k),
    decreases k,
{
    if k == 0 {
        assert(s.skip(0) =~= s);
    } else {
        assert(is_ws(s[0]));
        lemma_trim_start_at(s.skip(1), k - 1);
        assert(s.skip(1).skip(k - 1) =~= s.skip(k));
    }
}

proof fn lemma_trim_end_at(s: Seq<char>, k: int)
    requires
        0 <= k <= s.len(),
        forall|j: int| k <= j < s.len() ==> is_ws(s[j]),
        k > 0 ==> !is_ws(s[k - 1]),
    ensures
        trim_end(s) =~= s.take(k),
    decreases s.len(),
{
    if k == s.len() {
        if s.len() > 0 {
            assert(!is_ws(s[s.len() - 1]));
        }
        assert(s.take(k) =~= s);
    } else {
        assert(is_ws(s[s.len() - 1]));
        lemma_trim_end_at(s.drop_last(), k);
        assert(s.drop_last().take(k) =~= s.take(k));
    }
}

/// Whether `c` is in the white-space class.
pub fn is_ws_char(c: char) -> (r: bool)
    ensures
        r == is_ws(c),
{
    c == ' ' || c == '\t' || c == '\n' || c == '\r'
}

/// Strips surrounding white space, as `str::trim` does on this class.
pub fn trim_of(s: &str) -> (r: String)
    ensures
        r@ == spec_trim(s@),
{
    let n = s.unicode_len();
    let mut a: usize = 0;
    while a < n && is_ws_char(s.get_char(a))
        invariant
            n == s@.len(),
            0 <= a <= n,
            forall|j: int| 0 <= j < a ==> is_ws(s@[j]),
        decreases n - a,
    {
        a += 1;
    }
    proof {
        lemma_trim_start_at(s@, a as int);
    }
    let mut b: usize = n;
    while b > a && is_ws_char(s.get_char(b - 1))
        invariant
            n == s@.len(),
            0 <= a <= b <= n,
            forall|j: int| 0 <= j < a ==> is_ws(s@[j]),
            forall|j: int| b <= j < n ==> is_ws(s@[j]),
            a < n ==> !is_ws(s@[a as int]),
            trim_start(s@) =~= s@.skip(a as int),
        decreases b,
    {
        b -= 1;
    }
    let r = s.substring_char(a, b).to_owned();
    proof {
        let t = s@.skip(a as int);
        assert(forall|j: int|
            b - a <= j < t.len() ==> t[j] == s@[a + j] && is_ws(t[j]));
        if b > a {
            assert(t[b - a - 1] == s@[b - 1]);
        }
        lemma_trim_end_at(t, b - a);
        assert(r@ =~= t.take(b - a));
    }
    r
}

/// Whether some element of `v` reads as `s`.
pub fn contains_str(v: &Vec<String>, s: &str) -> (r: bool)
    ensures
        r == exists|i: int| 0 <= i < v.deep_view().len() && v.deep_view()[i] == s@,
{
    let mut i: usize = 0;
    while i < v.len()
        invariant
            0 <= i <= v.len(),
            v.deep_view().len() == v.len(),
            forall|j: int| 0 <= j < i ==> v.deep_view()[j] != s@,
        decreases v.len() - i,
    {
        if str_eq(v[i].as_str(), s) {
            proof {
                assert(v.deep_view()[i as int] == s@);
            }
            return true;
        }
        i += 1;
    }
    false
}

// ---------------------------------------------------------------------------
// integers
// ---------------------------------------------------------------------------
/// The largest value a `u64` accumulator may hold before a further digit
/// can push it past `u64::MAX`.
pub const U64_MAX_DIV_10: u64 = 1844674407370955161;

/// One tenth of one past `i64::MAX`, the magnitude bound of `i64::MIN`.
pub const I64_MAG_DIV_10: u64 = 922337203685477580;

pub open spec fn is_digit(c: char) -> bool {
    '0' <= c <= '9'
}

pub open spec fn digit_val(c: char) -> int {
    c as int - '0' as int
}

pub open spec fn all_digits(s: Seq<char>) -> bool {
    forall|i: int| 0 <= i < s.len() ==> is_digit(#[trigger] s[i])
}

/// The value of a digit string, most significant digit first.
pub open spec fn digits_val(s: Seq<char>) -> int
    decreases s.len(),
{
    if s.len() == 0 {
        0
    } else {
        digits_val(s.drop_last()) * 10 + digit_val(s.last())
    }
}

pub proof fn lemma_digits_val_nonneg(s: Seq<char>)
    requires
        all_digits(s),
    ensures
        digits_val(s) >= 0,
    decreases s.len(),
{
    if s.len() > 0 {
        lemma_digits_val_nonneg(s.drop_last());
    }
}

/// A digit string is worth at least any of its prefixes.
pub proof fn lemma_digits_val_prefix(s: Seq<char>, j: int)
    requires
        all_digits(s),
        0 <= j <= s.len(),
    ensures
        digits_val(s.take(j)) <= digits_val(s),
    decreases s.len() - j,
{
    assert(all_digits(s.take(j)));
    if j == s.len() {
        assert(s.take(j) =~= s);
    } else {
        assert(s.take(j + 1).drop_last() =~= s.take(j));
        assert(s.take(j + 1).last() == s[j]);
        lemma_digits_val_nonneg(s.take(j));
        lemma_digits_val_prefix(s, j + 1);
        assert(digits_val(s.take(j)) * 10 >= digits_val(s.take(j))) by (nonlinear_arith)
            requires
                digits_val(s.take(j)) >= 0,
        ;
    }
}

/// The payload of an unsigned decimal: the token without a leading plus.
pub open spec fn u64_body(s: Seq<char>) -> Seq<char> {
    if s.len() > 0 && s[0] == '+' {
        s.skip(1)
    } else {
        s
    }
}

/// Whether `str::parse::<u64>` accepts `s`: an optional plus sign, then
/// one or more digits, with a value that fits.
pub open spec fn u64_parseable(s: Seq<char>) -> bool {
    let b = u64_body(s);
    b.len() > 0 && all_digits(b) && digits_val(b) <= u64::MAX
}

pub open spec fn spec_parse_u64(s: Seq<char>) -> Option<u64> {
    if u64_parseable(s) {
        Some(digits_val(u64_body(s)) as u64)
    } else {
        None
    }
}

/// Accumulates the digits of `s` from position `start` on, within `bound`.
/// Returns the value, or `None` if a non-digit appears, the range is
/// empty, or the value exceeds `bound`.
fn digits_to_u64(s: &str, start: usize, bound: u64) -> (r: Option<u64>)
    requires
        start <= s@.len(),
        bound == u64::MAX || bound == 9223372036854775807 || bound == 9223372036854775808,
    ensures
        ({
            let b = s@.skip(start as int);
            match r {
                Some(v) => b.len() > 0 && all_digits(b) && digits_val(b) == v && v <= bound,
                None => !(b.len() > 0 && all_digits(b) && digits_val(b) <= bound),
            }
        }),
{
    let n = s.unicode_len();
    let ghost b = s@.skip(start as int);
    if start == n {
        return None;
    }
    let mut acc: u64 = 0;
    let mut i: usize = start;
    while i < n
        invariant
            start <= i <= n,
            n == s@.len(),
            start < n,
            b == s@.skip(start as int),
            bound == u64::MAX || bound == 9223372036854775807 || bound == 9223372036854775808,
            all_digits(b.take(i - start)),
            acc == digits_val(b.take(i - start)),
            acc <= bound,
        decreases n - i,
    {
        let c = s.get_char(i);
        proof {
            assert(b[i - start] == s@[i as int]);
        }
        if c < '0' || c > '9' {
            return None;
        }
        let d: u64 = (c as u32 - '0' as u32) as u64;
        proof {
            assert(b.take(i - start + 1).drop_last() =~= b.take(i - start));
            assert(b.take(i - start + 1).last() == b[i - start]);
        }
        let div10 = if bound == u64::MAX {
            U64_MAX_DIV_10
        } else {
            I64_MAG_DIV_10
        };
        let rem10: u64 = bound % 10;
        if acc > div10 || (acc == div10 && d > rem10) {
            // the value of this prefix already exceeds the bound, so the
            // whole digit string does too
            proof {
                if all_digits(b) {
                    lemma_digits_val_prefix(b, i - start + 1);
                }
            }
            return None;
        }
        acc = acc * 10 + d;
        i += 1;
    }
    proof {
        assert(b.take(i - start) =~= b);
    }
    Some(acc)
}

/// Parses an unsigned base-10 integer exactly as `str::parse::<u64>` does.
pub fn parse_u64(s: &str) -> (r: Option<u64>)
    ensures
        r == spec_parse_u64(s@),
{
    let n = s.unicode_len();
    let start: usize = if n > 0 && s.get_char(0) == '+' {
        1
    } else {
        0
    };
    proof {
        if start == 1 {
            assert(u64_body(s@) == s@.skip(1));
        } else {
            assert(s@.skip(0) =~= s@);
        }
    }
    digits_to_u64(s, start, u64::MAX)
}

/// The sign-stripped payload of a signed decimal.
pub open spec fn i64_body(s: Seq<char>) -> Seq<char> {
    if s.len() > 0 && (s[0] == '+' || s[0] == '-') {
        s.skip(1)
    } else {
        s
    }
}

pub open spec fn i64_negative(s: Seq<char>) -> bool {
    s.len() > 0 && s[0] == '-'
}

/// Whether `str::parse::<i64>` accepts `s`.
pub open spec fn i64_parseable(s: Seq<char>) -> bool {
    let b = i64_body(s);
    b.len() > 0 && all_digits(b) && (if i64_negative(s) {
        digits_val(b) <= 9223372036854775808
    } else {
        digits_val(b) <= i64::MAX
    })
}

pub open spec fn spec_parse_i64(s: Seq<char>) -> Option<i64> {
    if i64_parseable(s) {
        if i64_negative(s) {
            Some((-digits_val(i64_body(s))) as i64)
        } else {
            Some(digits_val(i64_body(s)) as i64)
        }
    } else {
        None
    }
}

/// Parses a signed base-10 integer exactly as `str::parse::<i64>` does.
pub fn parse_i64(s: &str) -> (r: Option<i64>)
    ensures
        r == spec_parse_i64(s@),
{
    let n = s.unicode_len();
    let mut neg = false;
    let mut start: usize = 0;
    if n > 0 {
        let c = s.get_char(0);
        if c == '+' {
            start = 1;
        } else if c == '-' {
            start = 1;
            neg = true;
        }
    }
    proof {
        if start == 1 {
            assert(i64_body(s@) == s@.skip(1));
        } else {
            assert(s@.skip(0) =~= s@);
        }
        assert(neg == i64_negative(s@));
    }
    let bound: u64 = if neg {
        9223372036854775808
    } else {
        9223372036854775807
    };
    match digits_to_u64(s, start, bound) {
        None => None,
        Some(v) => if neg {
            if v == 9223372036854775808 {
                Some(i64::MIN)
            } else {
                Some(-(v as i64))
            }
        } else {
            Some(v as i64)
        },
    }
}

} // verus!
