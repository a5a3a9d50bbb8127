//! The header-indexed record decoder.  Admin-command output is a stream of
//! colon-delimited lines: a line whose third token is `HEADER` rebinds the
//! column positions for the rows that follow; every other line is a data
//! row decoded against the header last seen.  The stream spec here is
//! shared by every record type; each record module instantiates `decode`
//! with its own row decoder.

use crate::error::Error;
use crate::error::ErrorSpec;
use crate::text::col_ix;
use crate::text::find_col;
use crate::text::spec_lines;
use crate::text::spec_parse_i64;
use crate::text::spec_parse_u64;
use crate::text::spec_split;
use crate::text::parse_i64;
use crate::text::parse_u64;
use crate::util::spec_is_false_token;
use crate::util::spec_is_true_token;
use crate::util::MMBool;
use vstd::prelude::*;

verus! {

/// Whether a line is a comment: it opens with three asterisks.
pub open spec fn spec_is_comment(l: Seq<char>) -> bool {
    l.len() >= 3 && l[0] == '*' && l[1] == '*' && l[2] == '*'
}

/// The token of data row `t` for column `name` under header `hdr`: the
/// token at the column's position, a missing-column failure if the header
/// has no such column, or a short-row failure if the row ends before the
/// position.
pub open spec fn spec_lookup(t: Seq<Seq<char>>, hdr: Seq<Seq<char>>, name: Seq<char>) -> Result<
    Seq<char>,
    ErrorSpec,
> {
    match col_ix(hdr, name) {
        Option::None => Result::Err(ErrorSpec::MissingColumn(name)),
        Option::Some(i) => if i < t.len() {
            Result::Ok(t[i])
        } else {
            Result::Err(ErrorSpec::RowTooShort(name))
        },
    }
}

/// The lookup of column `name` coerced to an unsigned integer.
pub open spec fn spec_lookup_u64(t: Seq<Seq<char>>, hdr: Seq<Seq<char>>, name: Seq<char>) -> Result<
    u64,
    ErrorSpec,
> {
    match spec_lookup(t, hdr, name) {
        Result::Err(e) => Result::Err(e),
        Result::Ok(tok) => match spec_parse_u64(tok) {
            Option::Some(v) => Result::Ok(v),
            Option::None => Result::Err(ErrorSpec::BadValue(name, tok)),
        },
    }
}

/// The lookup of column `name` coerced to a signed integer.
pub open spec fn spec_lookup_i64(t: Seq<Seq<char>>, hdr: Seq<Seq<char>>, name: Seq<char>) -> Result<
    i64,
    ErrorSpec,
> {
    match spec_lookup(t, hdr, name) {
        Result::Err(e) => Result::Err(e),
        Result::Ok(tok) => match spec_parse_i64(tok) {
            Option::Some(v) => Result::Ok(v),
            Option::None => Result::Err(ErrorSpec::BadValue(name, tok)),
        },
    }
}

/// The lookup of column `name` coerced through the `yes`/`no` convention.
pub open spec fn spec_lookup_bool(t: Seq<Seq<char>>, hdr: Seq<Seq<char>>, name: Seq<char>) -> Result<
    bool,
    ErrorSpec,
> {
    match spec_lookup(t, hdr, name) {
        Result::Err(e) => Result::Err(e),
        Result::Ok(tok) => if spec_is_true_token(tok) {
            Result::Ok(true)
        } else if spec_is_false_token(tok) {
            Result::Ok(false)
        } else {
            Result::Err(ErrorSpec::BadValue(name, tok))
        },
    }
}

/// Reads the token of data row `t` for column `name` under header `hdr`.
pub fn lookup<'a>(t: &'a Vec<String>, hdr: &Vec<String>, name: &str) -> (r: Result<
    &'a String,
    Error,
>)
    ensures
        match r {
            Result::Ok(s) => spec_lookup(t.deep_view(), hdr.deep_view(), name@) == Result::Ok::<
                Seq<char>,
                ErrorSpec,
            >(s@),
            Result::Err(e) => spec_lookup(t.deep_view(), hdr.deep_view(), name@) == Result::Err::<
                Seq<char>,
                ErrorSpec,
            >(e@),
        },
{
    match find_col(hdr, name) {
        Option::None => Result::Err(Error::MissingColumn(name.to_owned())),
        Option::Some(i) => if i < t.len() {
            Result::Ok(&t[i])
        } else {
            Result::Err(Error::RowTooShort(name.to_owned()))
        },
    }
}

/// Reads column `name` of row `t` as an unsigned integer.
pub fn lookup_u64(t: &Vec<String>, hdr: &Vec<String>, name: &str) -> (r: Result<u64, Error>)
    ensures
        match r {
            Result::Ok(v) => spec_lookup_u64(t.deep_view(), hdr.deep_view(), name@)
                == Result::Ok::<u64, ErrorSpec>(v),
            Result::Err(e) => spec_lookup_u64(t.deep_view(), hdr.deep_view(), name@)
                == Result::Err::<u64, ErrorSpec>(e@),
        },
{
    match lookup(t, hdr, name) {
        Result::Err(e) => Result::Err(e),
        Result::Ok(tok) => match parse_u64(tok.as_str()) {
            Option::Some(v) => Result::Ok(v),
            Option::None => Result::Err(Error::BadValue(name.to_owned(), tok.clone())),
        },
    }
}

/// Reads column `name` of row `t` as a signed integer.
pub fn lookup_i64(t: &Vec<String>, hdr: &Vec<String>, name: &str) -> (r: Result<i64, Error>)
    ensures
        match r {
            Result::Ok(v) => spec_lookup_i64(t.deep_view(), hdr.deep_view(), name@)
                == Result::Ok::<i64, ErrorSpec>(v),
            Result::Err(e) => spec_lookup_i64(t.deep_view(), hdr.deep_view(), name@)
                == Result::Err::<i64, ErrorSpec>(e@),
        },
{
    match lookup(t, hdr, name) {
        Result::Err(e) => Result::Err(e),
        Result::Ok(tok) => match parse_i64(tok.as_str()) {
            Option::Some(v) => Result::Ok(v),
            Option::None => Result::Err(Error::BadValue(name.to_owned(), tok.clone())),
        },
    }
}

/// Reads column `name` of row `t` as a `yes`/`no` boolean.
pub fn lookup_bool(t: &Vec<String>, hdr: &Vec<String>, name: &str) -> (r: Result<bool, Error>)
    ensures
        match r {
            Result::Ok(v) => spec_lookup_bool(t.deep_view(), hdr.deep_view(), name@)
                == Result::Ok::<bool, ErrorSpec>(v),
            Result::Err(e) => spec_lookup_bool(t.deep_view(), hdr.deep_view(), name@)
                == Result::Err::<bool, ErrorSpec>(e@),
        },
{
    match lookup(t, hdr, name) {
        Result::Err(e) => Result::Err(e),
        Result::Ok(tok) => match MMBool::parse(tok.as_str()) {
            Option::Some(b) => Result::Ok(b.as_bool()),
            Option::None => Result::Err(Error::BadValue(name.to_owned(), tok.clone())),
        },
    }
}

/// The decoder's walk over a stream of lines, one record type at a time.
/// `hdr` is the header last seen (empty before any header), `acc` the
/// records decoded so far.  A comment line is skipped when the stream
/// admits comments; a line is skipped when the stream is filtered to a
/// type tag and the line's second token differs; a header line rebinds
/// `hdr`; any other line is decoded against `hdr`.  Returns the final
/// header and the records, or the first failure.
pub open spec fn spec_stream<R>(
    lines: Seq<Seq<char>>,
    hdr: Seq<Seq<char>>,
    acc: Seq<R>,
    decode: spec_fn(Seq<Seq<char>>, Seq<Seq<char>>) -> Result<R, ErrorSpec>,
    skip_comments: bool,
    tag: Option<Seq<char>>,
) -> Result<(Seq<Seq<char>>, Seq<R>), ErrorSpec>
    decreases lines.len(),
{
    if lines.len() == 0 {
        Result::Ok((hdr, acc))
    } else {
        let line = lines[0];
        let rest = lines.skip(1);
        if skip_comments && spec_is_comment(line) {
            spec_stream(rest, hdr, acc, decode, skip_comments, tag)
        } else {
            let t = spec_split(line, ':');
            let skip_line = match tag {
                Option::Some(tg) => t.len() >= 2 && t[1] != tg,
                Option::None => false,
            };
            if t.len() < 2 {
                Result::Err(ErrorSpec::BadLine(line))
            } else if skip_line {
                spec_stream(rest, hdr, acc, decode, skip_comments, tag)
            } else if t.len() < 3 {
                Result::Err(ErrorSpec::BadLine(line))
            } else if t[2] == "HEADER"@ {
                spec_stream(rest, t, acc, decode, skip_comments, tag)
            } else {
                match decode(t, hdr) {
                    Result::Ok(r) => spec_stream(
                        rest,
                        hdr,
                        acc.push(r),
                        decode,
                        skip_comments,
                        tag,
                    ),
                    Result::Err(e) => Result::Err(e),
                }
            }
        }
    }
}

/// Splitting the stream: walking one run of lines and then another is
/// walking the first, then continuing the second from the header and
/// records the first left behind.
pub proof fn lemma_stream_append<R>(
    l1: Seq<Seq<char>>,
    l2: Seq<Seq<char>>,
    hdr: Seq<Seq<char>>,
    acc: Seq<R>,
    decode: spec_fn(Seq<Seq<char>>, Seq<Seq<char>>) -> Result<R, ErrorSpec>,
    skip_comments: bool,
    tag: Option<Seq<char>>,
)
    ensures
        spec_stream(l1 + l2, hdr, acc, decode, skip_comments, tag) == match spec_stream(
            l1,
            hdr,
            acc,
            decode,
            skip_comments,
            tag,
        ) {
            Result::Ok(p) => spec_stream(l2, p.0, p.1, decode, skip_comments, tag),
            Result::Err(e) => Result::Err(e),
        },
    decreases l1.len(),
{
    if l1.len() == 0 {
        assert(l1 + l2 =~= l2);
    } else {
        let line = l1[0];
        let rest = l1.skip(1);
        assert((l1 + l2)[0] == line);
        assert((l1 + l2).skip(1) =~= rest + l2);
        if skip_comments && spec_is_comment(line) {
            lemma_stream_append(rest, l2, hdr, acc, decode, skip_comments, tag);
        } else {
            let t = spec_split(line, ':');
            let skip_line = match tag {
                Option::Some(tg) => t.len() >= 2 && t[1] != tg,
                Option::None => false,
            };
            if t.len() < 2 {
            } else if skip_line {
                lemma_stream_append(rest, l2, hdr, acc, decode, skip_comments, tag);
            } else if t.len() < 3 {
            } else if t[2] == "HEADER"@ {
                lemma_stream_append(rest, l2, t, acc, decode, skip_comments, tag);
            } else {
                match decode(t, hdr) {
                    Result::Ok(r) => {
                        lemma_stream_append(
                            rest,
                            l2,
                            hdr,
                            acc.push(r),
                            decode,
                            skip_comments,
                            tag,
                        );
                    },
                    Result::Err(e) => {},
                }
            }
        }
    }
}

/// Whether a line is a header row that this stream accepts: not a
/// skipped comment, three or more tokens, the third reading `HEADER`,
/// and the type tag matching where the stream is filtered.
pub open spec fn spec_accepted_header_line(
    line: Seq<char>,
    skip_comments: bool,
    tag: Option<Seq<char>>,
) -> bool {
    let t = spec_split(line, ':');
    &&& !(skip_comments && spec_is_comment(line))
    &&& t.len() >= 3
    &&& t[2] == "HEADER"@
    &&& match tag {
        Option::Some(tg) => t[1] == tg,
        Option::None => true,
    }
}

/// A header row rebinds the columns for everything that follows it:
/// continuing a stream after a header row decodes against that header
/// alone, whatever header stood before it.  In particular, when two
/// header rows of one record type carry their columns in different
/// orders, each data row decodes by its immediately preceding header's
/// order, never an earlier one's.
pub proof fn lemma_header_rebinds<R>(
    before: Seq<Seq<char>>,
    hline: Seq<char>,
    after: Seq<Seq<char>>,
    hdr0: Seq<Seq<char>>,
    acc0: Seq<R>,
    decode: spec_fn(Seq<Seq<char>>, Seq<Seq<char>>) -> Result<R, ErrorSpec>,
    skip_comments: bool,
    tag: Option<Seq<char>>,
)
    requires
        spec_accepted_header_line(hline, skip_comments, tag),
    ensures
        spec_stream(before + seq![hline] + after, hdr0, acc0, decode, skip_comments, tag)
            == match spec_stream(before, hdr0, acc0, decode, skip_comments, tag) {
            Result::Ok(p) => spec_stream(
                after,
                spec_split(hline, ':'),
                p.1,
                decode,
                skip_comments,
                tag,
            ),
            Result::Err(e) => Result::Err(e),
        },
{
    let tail = seq![hline] + after;
    assert(before + seq![hline] + after =~= before + tail);
    lemma_stream_append(before, tail, hdr0, acc0, decode, skip_comments, tag);
    match spec_stream(before, hdr0, acc0, decode, skip_comments, tag) {
        Result::Ok(p) => {
            assert(tail[0] == hline);
            assert(tail.skip(1) =~= after);
        },
        Result::Err(e) => {},
    }
}

/// An unrecognized column is invisible to a lookup: extending the
/// header by a column of another name, and the data row by a token at
/// its end, yields the same result for the name, provided the row
/// covers the header's positions.
pub proof fn lemma_lookup_ignores_unknown(
    t: Seq<Seq<char>>,
    hdr: Seq<Seq<char>>,
    name: Seq<char>,
    extra_col: Seq<char>,
    extra_tok: Seq<char>,
)
    requires
        extra_col != name,
        hdr.len() <= t.len(),
    ensures
        spec_lookup(t.push(extra_tok), hdr.push(extra_col), name) == spec_lookup(t, hdr, name),
{
    assert(hdr.push(extra_col).drop_last() =~= hdr);
    match col_ix(hdr, name) {
        Option::None => {},
        Option::Some(i) => {
            lemma_col_ix_bound(hdr, name);
        },
    }
}

/// An unrecognized column is invisible wherever it stands: inserting a
/// column of another name at position `k` of the header, and a token at
/// position `k` of the data row — so that the recognized columns keep
/// their relative positions — yields the same result for the name.
pub proof fn lemma_lookup_ignores_inserted(
    t: Seq<Seq<char>>,
    hdr: Seq<Seq<char>>,
    name: Seq<char>,
    k: int,
    extra_col: Seq<char>,
    extra_tok: Seq<char>,
)
    requires
        extra_col != name,
        hdr.len() <= t.len(),
        0 <= k <= hdr.len(),
    ensures
        spec_lookup(t.insert(k, extra_tok), hdr.insert(k, extra_col), name) == spec_lookup(
            t,
            hdr,
            name,
        ),
{
    lemma_col_ix_insert_other(hdr, name, k, extra_col);
    match col_ix(hdr, name) {
        Option::None => {},
        Option::Some(i) => {
            lemma_col_ix_bound(hdr, name);
        },
    }
}

/// Inserting a column of another name shifts a found position past it
/// by one and leaves earlier positions alone.
proof fn lemma_col_ix_insert_other(hdr: Seq<Seq<char>>, name: Seq<char>, k: int, c: Seq<char>)
    requires
        c != name,
        0 <= k <= hdr.len(),
    ensures
        col_ix(hdr.insert(k, c), name) == match col_ix(hdr, name) {
            Option::Some(i) => Option::Some(
                if i < k {
                    i
                } else {
                    i + 1
                },
            ),
            Option::None => Option::<int>::None,
        },
    decreases hdr.len(),
{
    lemma_col_ix_bound(hdr, name);
    let h2 = hdr.insert(k, c);
    if k == hdr.len() {
        assert(h2 =~= hdr.push(c));
        assert(h2.drop_last() =~= hdr);
    } else {
        assert(h2.last() == hdr.last());
        assert(h2.drop_last() =~= hdr.drop_last().insert(k, c));
        if hdr.last() == name {
        } else {
            lemma_col_ix_insert_other(hdr.drop_last(), name, k, c);
        }
    }
}

/// A found column lies within its header.
pub proof fn lemma_col_ix_bound(hdr: Seq<Seq<char>>, name: Seq<char>)
    ensures
        match col_ix(hdr, name) {
            Option::Some(i) => 0 <= i < hdr.len(),
            Option::None => true,
        },
    decreases hdr.len(),
{
    if hdr.len() > 0 && hdr.last() != name {
        lemma_col_ix_bound(hdr.drop_last(), name);
    }
}

/// The records decoded from a whole input text, starting with no header
/// and no records.
pub open spec fn spec_records<R>(
    input: Seq<char>,
    decode: spec_fn(Seq<Seq<char>>, Seq<Seq<char>>) -> Result<R, ErrorSpec>,
    skip_comments: bool,
    tag: Option<Seq<char>>,
) -> Result<Seq<R>, ErrorSpec> {
    match spec_stream(
        spec_lines(input),
        Seq::empty(),
        Seq::empty(),
        decode,
        skip_comments,
        tag,
    ) {
        Result::Ok(p) => Result::Ok(p.1),
        Result::Err(e) => Result::Err(e),
    }
}

} // verus!
