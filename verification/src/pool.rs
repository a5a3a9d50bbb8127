//! Storage-pool records: the human-aligned output of the pool listing
//! command.  The first two lines are headings; each further line is one
//! pool, its fields separated by runs of spaces.  Two boolean gates say
//! whether the pool holds object data and metadata; each open gate is
//! followed by a total/free pair, and a known format variant inserts a
//! lone `(` token that shifts the metadata pair right by one.

use crate::error::Error;
use crate::error::ErrorSpec;
use crate::text::lines_of;
use crate::text::parse_u64;
use crate::text::spec_lines;
use crate::text::spec_parse_u64;
use crate::text::spec_split;
use crate::text::split_char;
use crate::text::str_eq;
use vstd::prelude::*;

verus! {

/// Pool size: a total and its free part, in kilobytes.
#[derive(Copy, Clone, Eq, PartialEq, Structural, Debug)]
pub struct Size {
    /// Total space in kilobytes.
    pub total_kb: u64,
    /// Free space in kilobytes.
    pub free_kb: u64,
}

/// The used share of a [`Size`], as a whole percentage rounded down.
pub open spec fn spec_used_percent(s: Size) -> int {
    ((s.total_kb - s.free_kb) * 100) / (s.total_kb as int)
}

impl Size {
    /// Builds a size from a total and its free part.
    pub fn new(total_kb: u64, free_kb: u64) -> (r: Size)
        ensures
            r == (Size { total_kb, free_kb }),
    {
        Size { total_kb, free_kb }
    }

    /// Returns total data in kilobytes.
    pub fn total_kb(&self) -> (r: u64)
        ensures
            r == self.total_kb,
    {
        self.total_kb
    }

    /// Returns free data in kilobytes.
    pub fn free_kb(&self) -> (r: u64)
        ensures
            r == self.free_kb,
    {
        self.free_kb
    }

    /// Returns the used percentage.  The total must be positive — a zero
    /// total has no percentage — and the free part must not exceed it.
    pub fn used_percent(&self) -> (r: u64)
        requires
            self.total_kb > 0,
            self.free_kb <= self.total_kb,
        ensures
            r == spec_used_percent(*self),
    {
        let used = self.total_kb - self.free_kb;
        let x = (used as u128) * 100;
        let y = self.total_kb as u128;
        let q = x / y;
        proof {
            assert(q <= 100) by (nonlinear_arith)
                requires
                    q == ((used as int) * 100) / (self.total_kb as int),
                    used <= self.total_kb,
                    self.total_kb > 0,
            ;
        }
        q as u64
    }

    /// The guarded form of [`Size::used_percent`]: absent when the total
    /// is zero or the free part exceeds it.
    pub fn checked_used_percent(&self) -> (r: Option<u64>)
        ensures
            r == if self.total_kb > 0 && self.free_kb <= self.total_kb {
                Option::Some(spec_used_percent(*self) as u64)
            } else {
                Option::<u64>::None
            },
    {
        if self.total_kb > 0 && self.free_kb <= self.total_kb {
            Option::Some(self.used_percent())
        } else {
            Option::None
        }
    }
}

/// A storage pool: its name and, for each open gate, a size.
#[derive(Debug)]
pub struct Pool {
    name: String,
    data: Option<Size>,
    meta: Option<Size>,
}

/// The mathematical shape of a [`Pool`].
#[verifier::ext_equal]
pub struct PoolV {
    pub name: Seq<char>,
    pub data: Option<Size>,
    pub meta: Option<Size>,
}

impl View for Pool {
    type V = PoolV;

    closed spec fn view(&self) -> PoolV {
        PoolV { name: self.name@, data: self.data, meta: self.meta }
    }
}

impl DeepView for Pool {
    type V = PoolV;

    open spec fn deep_view(&self) -> PoolV {
        self@
    }
}

impl Pool {
    /// Returns the pool name.
    pub fn name(&self) -> (r: &str)
        ensures
            r@ == self@.name,
    {
        self.name.as_str()
    }

    /// Returns the object data size.
    pub fn data(&self) -> (r: Option<&Size>)
        ensures
            match r {
                Option::Some(s) => self@.data == Option::Some(*s),
                Option::None => self@.data is None,
            },
    {
        self.data.as_ref()
    }

    /// Returns the metadata size.
    pub fn meta(&self) -> (r: Option<&Size>)
        ensures
            match r {
                Option::Some(s) => self@.meta == Option::Some(*s),
                Option::None => self@.meta is None,
            },
    {
        self.meta.as_ref()
    }
}

/// Whether a token holds a character that is not a space.
pub open spec fn has_non_space(t: Seq<char>) -> bool {
    exists|i: int| 0 <= i < t.len() && t[i] != ' '
}

/// The blank-field test, as a named predicate.
pub open spec fn nonblank() -> spec_fn(Seq<char>) -> bool {
    |t: Seq<char>| has_non_space(t)
}

/// The fields of a pool line: the space-separated tokens that are not
/// blank.
pub open spec fn spec_pool_fields(s: Seq<char>) -> Seq<Seq<char>> {
    spec_split(s, ' ').filter(nonblank())
}

/// Splits a pool line into its non-blank fields.
pub fn pool_fields(s: &str) -> (r: Vec<String>)
    ensures
        r.deep_view() == spec_pool_fields(s@),
{
    let parts = split_char(s, ' ');
    let ghost pv = parts.deep_view();
    let mut r: Vec<String> = Vec::new();
    proof {
        reveal(Seq::filter);
        assert(pv.take(0) =~= Seq::<Seq<char>>::empty());
        assert(r.deep_view() =~= pv.take(0).filter(nonblank()));
    }
    let mut i: usize = 0;
    while i < parts.len()
        invariant
            pv == parts.deep_view(),
            parts.len() == pv.len(),
            0 <= i <= parts.len(),
            r.deep_view() == pv.take(i as int).filter(nonblank()),
        decreases parts.len() - i,
    {
        proof {
            assert(pv.take(i as int + 1).drop_last() =~= pv.take(i as int));
            assert(pv.take(i as int + 1).last() == pv[i as int]);
            assert(parts[i as int].deep_view() == pv[i as int]);
        }
        let p = &parts[i];
        let pn = p.as_str().unicode_len();
        let mut keep = false;
        let mut j: usize = 0;
        while j < pn
            invariant
                pn == p@.len(),
                0 <= j <= pn,
                keep == exists|k: int| 0 <= k < j && p@[k] != ' ',
            decreases pn - j,
        {
            if p.as_str().get_char(j) != ' ' {
                keep = true;
            }
            j += 1;
        }
        proof {
            assert(p@ == pv[i as int]);
            assert(keep == has_non_space(pv[i as int]));
        }
        if keep {
            let ghost old_r = r;
            r.push(p.clone());
            proof {
                reveal(Seq::filter);
                assert(r.deep_view() =~= old_r.deep_view().push(pv[i as int]));
                assert(pv.take(i as int + 1).filter(nonblank()) == pv.take(i as int).filter(
                    nonblank(),
                ).push(pv[i as int]));
            }
        } else {
            proof {
                reveal(Seq::filter);
                assert(pv.take(i as int + 1).filter(nonblank()) == pv.take(i as int).filter(
                    nonblank(),
                ));
            }
        }
        i += 1;
    }
    proof {
        assert(pv.take(i as int) =~= pv);
    }
    r
}

/// The decode of one pool line.  The name is the first field; field 4 is
/// the data gate and field 5 the metadata gate; an open data gate reads
/// its total/free pair at fields 6 and 7; an open metadata gate reads
/// its pair at fields 9 and 10, shifted to 10 and 11 when field 8 is the
/// lone-parenthesis artifact.  A pool with both gates shut is an error.
pub open spec fn spec_pool_from_line(line: Seq<char>) -> Result<PoolV, ErrorSpec> {
    let f = spec_pool_fields(line);
    if f.len() < 6 {
        Result::Err(ErrorSpec::BadLine(line))
    } else {
        let name = f[0];
        match spec_pool_data(line, f) {
            Result::Err(e) => Result::Err(e),
            Result::Ok(data) => match spec_pool_meta(line, f) {
                Result::Err(e) => Result::Err(e),
                Result::Ok(meta) => if data is None && meta is None {
                    Result::Err(ErrorSpec::NoPoolSizes(name))
                } else {
                    Result::Ok(PoolV { name, data, meta })
                },
            },
        }
    }
}

/// The data size of a pool line, when its gate at field 4 is open.
pub open spec fn spec_pool_data(line: Seq<char>, f: Seq<Seq<char>>) -> Result<
    Option<Size>,
    ErrorSpec,
> {
    if f[4] != "yes"@ {
        Result::Ok(Option::None)
    } else if f.len() < 8 {
        Result::Err(ErrorSpec::BadLine(line))
    } else {
        match spec_parse_u64(f[6]) {
            Option::None => Result::Err(ErrorSpec::BadValue("dataTotalKB"@, f[6])),
            Option::Some(total_kb) => match spec_parse_u64(f[7]) {
                Option::None => Result::Err(ErrorSpec::BadValue("dataFreeKB"@, f[7])),
                Option::Some(free_kb) => Result::Ok(Option::Some(Size { total_kb, free_kb })),
            },
        }
    }
}

/// The metadata size of a pool line, when its gate at field 5 is open.
pub open spec fn spec_pool_meta(line: Seq<char>, f: Seq<Seq<char>>) -> Result<
    Option<Size>,
    ErrorSpec,
> {
    if f[5] != "yes"@ {
        Result::Ok(Option::None)
    } else if f.len() < 9 {
        Result::Err(ErrorSpec::BadLine(line))
    } else {
        let ti: int = if f[8] == "("@ {
            10
        } else {
            9
        };
        if f.len() < ti + 2 {
            Result::Err(ErrorSpec::BadLine(line))
        } else {
            match spec_parse_u64(f[ti]) {
                Option::None => Result::Err(ErrorSpec::BadValue("metaTotalKB"@, f[ti])),
                Option::Some(total_kb) => match spec_parse_u64(f[ti + 1]) {
                    Option::None => Result::Err(ErrorSpec::BadValue("metaFreeKB"@, f[ti + 1])),
                    Option::Some(free_kb) => Result::Ok(Option::Some(Size { total_kb, free_kb })),
                },
            }
        }
    }
}

impl Pool {
    /// Decodes one pool line.
    pub fn parse(line: &str) -> (r: Result<Pool, Error>)
        ensures
            match r {
                Result::Ok(p) => spec_pool_from_line(line@) == Result::Ok::<PoolV, ErrorSpec>(p@),
                Result::Err(e) => spec_pool_from_line(line@) == Result::Err::<PoolV, ErrorSpec>(
                    e@,
                ),
            },
    {
        let f = pool_fields(line);
        if f.len() < 6 {
            return Result::Err(Error::BadLine(line.to_owned()));
        }
        let name = f[0].clone();
        proof {
            assert(f.deep_view()[0] == f[0 as int]@);
            assert(f.deep_view()[4] == f[4 as int]@);
            assert(f.deep_view()[5] == f[5 as int]@);
        }
        let data = if str_eq(f[4].as_str(), "yes") {
            if f.len() < 8 {
                return Result::Err(Error::BadLine(line.to_owned()));
            }
            proof {
                assert(f.deep_view()[6] == f[6 as int]@);
                assert(f.deep_view()[7] == f[7 as int]@);
            }
            let total_kb = match parse_u64(f[6].as_str()) {
                Option::Some(v) => v,
                Option::None => {
                    return Result::Err(
                        Error::BadValue("dataTotalKB".to_owned(), f[6].clone()),
                    )
                },
            };
            let free_kb = match parse_u64(f[7].as_str()) {
                Option::Some(v) => v,
                Option::None => {
                    return Result::Err(Error::BadValue("dataFreeKB".to_owned(), f[7].clone()))
                },
            };
            Option::Some(Size { total_kb, free_kb })
        } else {
            Option::None
        };
        let meta = if str_eq(f[5].as_str(), "yes") {
            if f.len() < 9 {
                return Result::Err(Error::BadLine(line.to_owned()));
            }
            proof {
                assert(f.deep_view()[8] == f[8 as int]@);
            }
            let ti: usize = if str_eq(f[8].as_str(), "(") {
                10
            } else {
                9
            };
            if f.len() < ti + 2 {
                return Result::Err(Error::BadLine(line.to_owned()));
            }
            proof {
                assert(f.deep_view()[ti as int] == f[ti as int]@);
                assert(f.deep_view()[ti as int + 1] == f[ti as int + 1]@);
            }
            let total_kb = match parse_u64(f[ti].as_str()) {
                Option::Some(v) => v,
                Option::None => {
                    return Result::Err(
                        Error::BadValue("metaTotalKB".to_owned(), f[ti].clone()),
                    )
                },
            };
            let free_kb = match parse_u64(f[ti + 1].as_str()) {
                Option::Some(v) => v,
                Option::None => {
                    return Result::Err(
                        Error::BadValue("metaFreeKB".to_owned(), f[ti + 1].clone()),
                    )
                },
            };
            Option::Some(Size { total_kb, free_kb })
        } else {
            Option::None
        };
        if data.is_none() && meta.is_none() {
            return Result::Err(Error::NoPoolSizes(name));
        }
        Result::Ok(Pool { name, data, meta })
    }
}

/// The pools decoded from the lines after the two headings.
pub open spec fn spec_pools_from_lines(lines: Seq<Seq<char>>, acc: Seq<PoolV>) -> Result<
    Seq<PoolV>,
    ErrorSpec,
>
    decreases lines.len(),
{
    if lines.len() == 0 {
        Result::Ok(acc)
    } else {
        match spec_pool_from_line(lines[0]) {
            Result::Ok(p) => spec_pools_from_lines(lines.skip(1), acc.push(p)),
            Result::Err(e) => Result::Err(e),
        }
    }
}

/// The pools decoded from the pool listing command's whole output.
pub open spec fn spec_pools(input: Seq<char>) -> Result<Seq<PoolV>, ErrorSpec> {
    let ls = spec_lines(input);
    if ls.len() <= 2 {
        Result::Ok(Seq::empty())
    } else {
        spec_pools_from_lines(ls.skip(2), Seq::empty())
    }
}

/// Decodes the pool listing command's whole output, skipping its two
/// heading lines.
pub fn parse_mmlspool_output(input: &str) -> (r: Result<Vec<Pool>, Error>)
    ensures
        match r {
            Result::Ok(v) => spec_pools(input@) == Result::Ok::<Seq<PoolV>, ErrorSpec>(
                v.deep_view(),
            ),
            Result::Err(e) => spec_pools(input@) == Result::Err::<Seq<PoolV>, ErrorSpec>(e@),
        },
{
    let lines = lines_of(input);
    let ghost lv = lines.deep_view();
    let mut out: Vec<Pool> = Vec::new();
    if lines.len() <= 2 {
        proof {
            assert(out.deep_view() =~= Seq::<PoolV>::empty());
        }
        return Result::Ok(out);
    }
    let mut i: usize = 2;
    proof {
        assert(out.deep_view() =~= Seq::<PoolV>::empty());
    }
    while i < lines.len()
        invariant
            lv == lines.deep_view(),
            lv == spec_lines(input@),
            lines.len() == lv.len(),
            2 <= i <= lines.len(),
            lines.len() > 2,
            spec_pools_from_lines(lv.skip(2), Seq::empty()) == spec_pools_from_lines(
                lv.skip(i as int),
                out.deep_view(),
            ),
        decreases lines.len() - i,
    {
        proof {
            assert(lv.skip(i as int)[0] == lv[i as int]);
            assert(lv.skip(i as int).skip(1) =~= lv.skip(i as int + 1));
            assert(lines[i as int].deep_view() == lv[i as int]);
        }
        match Pool::parse(lines[i].as_str()) {
            Result::Ok(p) => {
                let ghost pv2 = p@;
                let ghost old_out = out;
                out.push(p);
                proof {
                    assert(out.deep_view() =~= old_out.deep_view().push(pv2));
                }
            },
            Result::Err(e) => {
                proof {
                    assert(spec_pools_from_lines(lv.skip(i as int), out.deep_view())
                        == Result::Err::<Seq<PoolV>, ErrorSpec>(e@));
                }
                return Result::Err(e)
            },
        }
        i += 1;
    }
    proof {
        assert(lv.skip(i as int) =~= Seq::<Seq<char>>::empty());
    }
    Result::Ok(out)
}

/// A file system and its pools.
#[derive(Debug)]
pub struct Filesystem {
    name: String,
    pools: Vec<Pool>,
}

/// The mathematical shape of a [`Filesystem`].
#[verifier::ext_equal]
pub struct FilesystemV {
    pub name: Seq<char>,
    pub pools: Seq<PoolV>,
}

impl View for Filesystem {
    type V = FilesystemV;

    closed spec fn view(&self) -> FilesystemV {
        FilesystemV { name: self.name@, pools: self.pools.deep_view() }
    }
}

impl Filesystem {
    /// Builds a file system from its name and pools.
    pub fn new(name: String, pools: Vec<Pool>) -> (r: Filesystem)
        ensures
            r@.name == name@,
            r@.pools == pools.deep_view(),
    {
        Filesystem { name, pools }
    }

    /// Returns the file system name.
    pub fn name(&self) -> (r: &str)
        ensures
            r@ == self@.name,
    {
        self.name.as_str()
    }

    /// Returns the pools.
    pub fn pools(&self) -> (r: &Vec<Pool>)
        ensures
            r.deep_view() == self@.pools,
    {
        &self.pools
    }
}

} // verus!
