//! Space-report records: the per-filesystem output of the space report
//! command, which interleaves per-NSD rows, per-pool totals and one
//! filesystem total, each type under its own header.

use crate::engine::lemma_lookup_ignores_inserted;
use crate::engine::lemma_lookup_ignores_unknown;
use crate::engine::lookup;
use crate::engine::lookup_bool;
use crate::engine::lookup_u64;
use crate::engine::spec_lookup;
use crate::engine::spec_lookup_bool;
use crate::engine::spec_lookup_u64;
use crate::error::Error;
use crate::error::ErrorSpec;
use crate::text::lines_of;
use crate::text::spec_lines;
use crate::text::spec_split;
use crate::text::split_char;
use crate::text::str_eq;
use vstd::prelude::*;

verus! {

/// One NSD's space row.
#[derive(Debug)]
pub struct Nsd {
    name: String,
    pool: String,
    size: u64,
    holds_metadata: bool,
    holds_objectdata: bool,
    free_blocks: u64,
    free_blocks_percent: u64,
    free_fragments: u64,
    free_fragments_percent: u64,
}

/// The mathematical shape of an [`Nsd`] space row.
#[verifier::ext_equal]
pub struct NsdV {
    pub name: Seq<char>,
    pub pool: Seq<char>,
    pub size: u64,
    pub holds_metadata: bool,
    pub holds_objectdata: bool,
    pub free_blocks: u64,
    pub free_blocks_percent: u64,
    pub free_fragments: u64,
    pub free_fragments_percent: u64,
}

impl View for Nsd {
    type V = NsdV;

    closed spec fn view(&self) -> NsdV {
        NsdV {
            name: self.name@,
            pool: self.pool@,
            size: self.size,
            holds_metadata: self.holds_metadata,
            holds_objectdata: self.holds_objectdata,
            free_blocks: self.free_blocks,
            free_blocks_percent: self.free_blocks_percent,
            free_fragments: self.free_fragments,
            free_fragments_percent: self.free_fragments_percent,
        }
    }
}

impl DeepView for Nsd {
    type V = NsdV;

    open spec fn deep_view(&self) -> NsdV {
        self@
    }
}

impl Nsd {
    /// Returns the NSD name.
    pub fn name(&self) -> (r: &str)
        ensures
            r@ == self@.name,
    {
        self.name.as_str()
    }

    /// Returns the storage pool.
    pub fn pool(&self) -> (r: &str)
        ensures
            r@ == self@.pool,
    {
        self.pool.as_str()
    }

    /// Returns the disk size in kilobytes.
    pub fn size(&self) -> (r: u64)
        ensures
            r == self@.size,
    {
        self.size
    }

    /// Returns whether the NSD holds metadata.
    pub fn holds_metadata(&self) -> (r: bool)
        ensures
            r == self@.holds_metadata,
    {
        self.holds_metadata
    }

    /// Returns whether the NSD holds object data.
    pub fn holds_objectdata(&self) -> (r: bool)
        ensures
            r == self@.holds_objectdata,
    {
        self.holds_objectdata
    }

    /// Returns the free blocks in kilobytes.
    pub fn free_blocks(&self) -> (r: u64)
        ensures
            r == self@.free_blocks,
    {
        self.free_blocks
    }

    /// Returns the free blocks as a percentage.
    pub fn free_blocks_percent(&self) -> (r: u64)
        ensures
            r == self@.free_blocks_percent,
    {
        self.free_blocks_percent
    }

    /// Returns the free fragments in kilobytes.
    pub fn free_fragments(&self) -> (r: u64)
        ensures
            r == self@.free_fragments,
    {
        self.free_fragments
    }

    /// Returns the free fragments as a percentage.
    pub fn free_fragments_percent(&self) -> (r: u64)
        ensures
            r == self@.free_fragments_percent,
    {
        self.free_fragments_percent
    }

    /// Decodes one NSD space row against the NSD header last seen.
    pub fn from_tokens(t: &Vec<String>, hdr: &Vec<String>) -> (r: Result<Nsd, Error>)
        ensures
            match r {
                Result::Ok(n) => spec_df_nsd_from_tokens(t.deep_view(), hdr.deep_view())
                    == Result::Ok::<NsdV, ErrorSpec>(n@),
                Result::Err(e) => spec_df_nsd_from_tokens(t.deep_view(), hdr.deep_view())
                    == Result::Err::<NsdV, ErrorSpec>(e@),
            },
    {
        let name = match lookup(t, hdr, "nsdName") {
            Result::Ok(s) => s.clone(),
            Result::Err(e) => { return Result::Err(e) },
        };
        let pool = match lookup(t, hdr, "storagePool") {
            Result::Ok(s) => s.clone(),
            Result::Err(e) => { return Result::Err(e) },
        };
        let size = match lookup_u64(t, hdr, "diskSize") {
            Result::Ok(v) => v,
            Result::Err(e) => { return Result::Err(e) },
        };
        let holds_metadata = match lookup_bool(t, hdr, "metadata") {
            Result::Ok(b) => b,
            Result::Err(e) => { return Result::Err(e) },
        };
        let holds_objectdata = match lookup_bool(t, hdr, "data") {
            Result::Ok(b) => b,
            Result::Err(e) => { return Result::Err(e) },
        };
        let free_blocks = match lookup_u64(t, hdr, "freeBlocks") {
            Result::Ok(v) => v,
            Result::Err(e) => { return Result::Err(e) },
        };
        let free_blocks_percent = match lookup_u64(t, hdr, "freeBlocksPct") {
            Result::Ok(v) => v,
            Result::Err(e) => { return Result::Err(e) },
        };
        let free_fragments = match lookup_u64(t, hdr, "freeFragments") {
            Result::Ok(v) => v,
            Result::Err(e) => { return Result::Err(e) },
        };
        let free_fragments_percent = match lookup_u64(t, hdr, "freeFragmentsPct") {
            Result::Ok(v) => v,
            Result::Err(e) => { return Result::Err(e) },
        };
        Result::Ok(
            Nsd {
                name,
                pool,
                size,
                holds_metadata,
                holds_objectdata,
                free_blocks,
                free_blocks_percent,
                free_fragments,
                free_fragments_percent,
            },
        )
    }
}

/// The decode of one NSD space row.
pub open spec fn spec_df_nsd_from_tokens(t: Seq<Seq<char>>, hdr: Seq<Seq<char>>) -> Result<
    NsdV,
    ErrorSpec,
> {
    match spec_lookup(t, hdr, "nsdName"@) {
        Result::Err(e) => Result::Err(e),
        Result::Ok(name) => match spec_lookup(t, hdr, "storagePool"@) {
            Result::Err(e) => Result::Err(e),
            Result::Ok(pool) => match spec_lookup_u64(t, hdr, "diskSize"@) {
                Result::Err(e) => Result::Err(e),
                Result::Ok(size) => match spec_lookup_bool(t, hdr, "metadata"@) {
                    Result::Err(e) => Result::Err(e),
                    Result::Ok(md) => match spec_lookup_bool(t, hdr, "data"@) {
                        Result::Err(e) => Result::Err(e),
                        Result::Ok(od) => match spec_lookup_u64(t, hdr, "freeBlocks"@) {
                            Result::Err(e) => Result::Err(e),
                            Result::Ok(fb) => match spec_lookup_u64(t, hdr, "freeBlocksPct"@) {
                                Result::Err(e) => Result::Err(e),
                                Result::Ok(fbp) => match spec_lookup_u64(t, hdr, "freeFragments"@) {
                                    Result::Err(e) => Result::Err(e),
                                    Result::Ok(ff) => match spec_lookup_u64(
                                        t,
                                        hdr,
                                        "freeFragmentsPct"@,
                                    ) {
                                        Result::Err(e) => Result::Err(e),
                                        Result::Ok(ffp) => Result::Ok(
                                            NsdV {
                                                name,
                                                pool,
                                                size,
                                                holds_metadata: md,
                                                holds_objectdata: od,
                                                free_blocks: fb,
                                                free_blocks_percent: fbp,
                                                free_fragments: ff,
                                                free_fragments_percent: ffp,
                                            },
                                        ),
                                    },
                                },
                            },
                        },
                    },
                },
            },
        },
    }
}

/// Unknown columns do not affect the decoding of an NSD space row:
/// with the header extended by an unrecognized column name and the data
/// row extended by a token at its end — the recognized columns keeping
/// their positions — the row decodes to exactly the same record, or
/// fails exactly the same way.
pub proof fn lemma_df_nsd_ignores_unknown(
    t: Seq<Seq<char>>,
    hdr: Seq<Seq<char>>,
    extra_col: Seq<char>,
    extra_tok: Seq<char>,
)
    requires
        hdr.len() <= t.len(),
        extra_col != "nsdName"@,
        extra_col != "storagePool"@,
        extra_col != "diskSize"@,
        extra_col != "metadata"@,
        extra_col != "data"@,
        extra_col != "freeBlocks"@,
        extra_col != "freeBlocksPct"@,
        extra_col != "freeFragments"@,
        extra_col != "freeFragmentsPct"@,
    ensures
        spec_df_nsd_from_tokens(t.push(extra_tok), hdr.push(extra_col)) == spec_df_nsd_from_tokens(
            t,
            hdr,
        ),
{
    lemma_lookup_ignores_unknown(t, hdr, "nsdName"@, extra_col, extra_tok);
    lemma_lookup_ignores_unknown(t, hdr, "storagePool"@, extra_col, extra_tok);
    lemma_lookup_ignores_unknown(t, hdr, "diskSize"@, extra_col, extra_tok);
    lemma_lookup_ignores_unknown(t, hdr, "metadata"@, extra_col, extra_tok);
    lemma_lookup_ignores_unknown(t, hdr, "data"@, extra_col, extra_tok);
    lemma_lookup_ignores_unknown(t, hdr, "freeBlocks"@, extra_col, extra_tok);
    lemma_lookup_ignores_unknown(t, hdr, "freeBlocksPct"@, extra_col, extra_tok);
    lemma_lookup_ignores_unknown(t, hdr, "freeFragments"@, extra_col, extra_tok);
    lemma_lookup_ignores_unknown(t, hdr, "freeFragmentsPct"@, extra_col, extra_tok);
}

/// The same tolerance for a column inserted anywhere: with an
/// unrecognized column name at position `k` of the header and a token at
/// position `k` of the data row, the row decodes to exactly the same
/// record, or fails exactly the same way.
pub proof fn lemma_df_nsd_ignores_inserted(
    t: Seq<Seq<char>>,
    hdr: Seq<Seq<char>>,
    k: int,
    extra_col: Seq<char>,
    extra_tok: Seq<char>,
)
    requires
        hdr.len() <= t.len(),
        0 <= k <= hdr.len(),
        extra_col != "nsdName"@,
        extra_col != "storagePool"@,
        extra_col != "diskSize"@,
        extra_col != "metadata"@,
        extra_col != "data"@,
        extra_col != "freeBlocks"@,
        extra_col != "freeBlocksPct"@,
        extra_col != "freeFragments"@,
        extra_col != "freeFragmentsPct"@,
    ensures
        spec_df_nsd_from_tokens(t.insert(k, extra_tok), hdr.insert(k, extra_col))
            == spec_df_nsd_from_tokens(t, hdr),
{
    lemma_lookup_ignores_inserted(t, hdr, "nsdName"@, k, extra_col, extra_tok);
    lemma_lookup_ignores_inserted(t, hdr, "storagePool"@, k, extra_col, extra_tok);
    lemma_lookup_ignores_inserted(t, hdr, "diskSize"@, k, extra_col, extra_tok);
    lemma_lookup_ignores_inserted(t, hdr, "metadata"@, k, extra_col, extra_tok);
    lemma_lookup_ignores_inserted(t, hdr, "data"@, k, extra_col, extra_tok);
    lemma_lookup_ignores_inserted(t, hdr, "freeBlocks"@, k, extra_col, extra_tok);
    lemma_lookup_ignores_inserted(t, hdr, "freeBlocksPct"@, k, extra_col, extra_tok);
    lemma_lookup_ignores_inserted(t, hdr, "freeFragments"@, k, extra_col, extra_tok);
    lemma_lookup_ignores_inserted(t, hdr, "freeFragmentsPct"@, k, extra_col, extra_tok);
}

/// One pool's space-total row.
#[derive(Debug)]
pub struct Pool {
    name: String,
    size: u64,
    free_blocks: u64,
    free_blocks_percent: u64,
    free_fragments: u64,
    free_fragments_percent: u64,
}

/// The mathematical shape of a [`Pool`] space row.
#[verifier::ext_equal]
pub struct PoolV {
    pub name: Seq<char>,
    pub size: u64,
    pub free_blocks: u64,
    pub free_blocks_percent: u64,
    pub free_fragments: u64,
    pub free_fragments_percent: u64,
}

impl View for Pool {
    type V = PoolV;

    closed spec fn view(&self) -> PoolV {
        PoolV {
            name: self.name@,
            size: self.size,
            free_blocks: self.free_blocks,
            free_blocks_percent: self.free_blocks_percent,
            free_fragments: self.free_fragments,
            free_fragments_percent: self.free_fragments_percent,
        }
    }
}

impl DeepView for Pool {
    type V = PoolV;

    open spec fn deep_view(&self) -> PoolV {
        self@
    }
}

impl Pool {
    /// Returns the pool name.
    pub fn name(&self) -> (r: &str)
        ensures
            r@ == self@.name,
    {
        self.name.as_str()
    }

    /// Returns the pool size in kilobytes.
    pub fn size(&self) -> (r: u64)
        ensures
            r == self@.size,
    {
        self.size
    }

    /// Returns the free blocks in kilobytes.
    pub fn free_blocks(&self) -> (r: u64)
        ensures
            r == self@.free_blocks,
    {
        self.free_blocks
    }

    /// Returns the free blocks as a percentage.
    pub fn free_blocks_percent(&self) -> (r: u64)
        ensures
            r == self@.free_blocks_percent,
    {
        self.free_blocks_percent
    }

    /// Returns the free fragments in kilobytes.
    pub fn free_fragments(&self) -> (r: u64)
        ensures
            r == self@.free_fragments,
    {
        self.free_fragments
    }

    /// Returns the free fragments as a percentage.
    pub fn free_fragments_percent(&self) -> (r: u64)
        ensures
            r == self@.free_fragments_percent,
    {
        self.free_fragments_percent
    }

    /// Decodes one pool-total row against the pool header last seen.
    pub fn from_tokens(t: &Vec<String>, hdr: &Vec<String>) -> (r: Result<Pool, Error>)
        ensures
            match r {
                Result::Ok(p) => spec_df_pool_from_tokens(t.deep_view(), hdr.deep_view())
                    == Result::Ok::<PoolV, ErrorSpec>(p@),
                Result::Err(e) => spec_df_pool_from_tokens(t.deep_view(), hdr.deep_view())
                    == Result::Err::<PoolV, ErrorSpec>(e@),
            },
    {
        let name = match lookup(t, hdr, "poolName") {
            Result::Ok(s) => s.clone(),
            Result::Err(e) => { return Result::Err(e) },
        };
        let size = match lookup_u64(t, hdr, "poolSize") {
            Result::Ok(v) => v,
            Result::Err(e) => { return Result::Err(e) },
        };
        let free_blocks = match lookup_u64(t, hdr, "freeBlocks") {
            Result::Ok(v) => v,
            Result::Err(e) => { return Result::Err(e) },
        };
        let free_blocks_percent = match lookup_u64(t, hdr, "freeBlocksPct") {
            Result::Ok(v) => v,
            Result::Err(e) => { return Result::Err(e) },
        };
        let free_fragments = match lookup_u64(t, hdr, "freeFragments") {
            Result::Ok(v) => v,
            Result::Err(e) => { return Result::Err(e) },
        };
        let free_fragments_percent = match lookup_u64(t, hdr, "freeFragmentsPct") {
            Result::Ok(v) => v,
            Result::Err(e) => { return Result::Err(e) },
        };
        Result::Ok(
            Pool {
                name,
                size,
                free_blocks,
                free_blocks_percent,
                free_fragments,
                free_fragments_percent,
            },
        )
    }
}

/// The decode of one pool-total row.
pub open spec fn spec_df_pool_from_tokens(t: Seq<Seq<char>>, hdr: Seq<Seq<char>>) -> Result<
    PoolV,
    ErrorSpec,
> {
    match spec_lookup(t, hdr, "poolName"@) {
        Result::Err(e) => Result::Err(e),
        Result::Ok(name) => match spec_lookup_u64(t, hdr, "poolSize"@) {
            Result::Err(e) => Result::Err(e),
            Result::Ok(size) => match spec_lookup_u64(t, hdr, "freeBlocks"@) {
                Result::Err(e) => Result::Err(e),
                Result::Ok(fb) => match spec_lookup_u64(t, hdr, "freeBlocksPct"@) {
                    Result::Err(e) => Result::Err(e),
                    Result::Ok(fbp) => match spec_lookup_u64(t, hdr, "freeFragments"@) {
                        Result::Err(e) => Result::Err(e),
                        Result::Ok(ff) => match spec_lookup_u64(t, hdr, "freeFragmentsPct"@) {
                            Result::Err(e) => Result::Err(e),
                            Result::Ok(ffp) => Result::Ok(
                                PoolV {
                                    name,
                                    size,
                                    free_blocks: fb,
                                    free_blocks_percent: fbp,
                                    free_fragments: ff,
                                    free_fragments_percent: ffp,
                                },
                            ),
                        },
                    },
                },
            },
        },
    }
}

/// The filesystem's space-total row.  All fields are plain counters, so
/// the record is its own mathematical shape.
#[derive(PartialEq, Eq, Structural, Debug, Clone, Copy)]
pub struct Filesystem {
    /// The filesystem size in kilobytes.
    pub size: u64,
    /// The free blocks in kilobytes.
    pub free_blocks: u64,
    /// The free blocks as a percentage.
    pub free_blocks_percent: u64,
    /// The free fragments in kilobytes.
    pub free_fragments: u64,
    /// The free fragments as a percentage.
    pub free_fragments_percent: u64,
}

/// The all-zero filesystem total that stands until a total row arrives.
pub open spec fn spec_df_total_zero() -> Filesystem {
    Filesystem {
        size: 0,
        free_blocks: 0,
        free_blocks_percent: 0,
        free_fragments: 0,
        free_fragments_percent: 0,
    }
}

impl Filesystem {
    /// Returns the filesystem size in kilobytes.
    pub fn size(&self) -> (r: u64)
        ensures
            r == self.size,
    {
        self.size
    }

    /// Returns the free blocks in kilobytes.
    pub fn free_blocks(&self) -> (r: u64)
        ensures
            r == self.free_blocks,
    {
        self.free_blocks
    }

    /// Returns the free blocks as a percentage.
    pub fn free_blocks_percent(&self) -> (r: u64)
        ensures
            r == self.free_blocks_percent,
    {
        self.free_blocks_percent
    }

    /// Returns the free fragments in kilobytes.
    pub fn free_fragments(&self) -> (r: u64)
        ensures
            r == self.free_fragments,
    {
        self.free_fragments
    }

    /// Returns the free fragments as a percentage.
    pub fn free_fragments_percent(&self) -> (r: u64)
        ensures
            r == self.free_fragments_percent,
    {
        self.free_fragments_percent
    }

    /// Decodes one filesystem-total row against the total header last
    /// seen.
    pub fn from_tokens(t: &Vec<String>, hdr: &Vec<String>) -> (r: Result<Filesystem, Error>)
        ensures
            match r {
                Result::Ok(f) => spec_df_total_from_tokens(t.deep_view(), hdr.deep_view())
                    == Result::Ok::<Filesystem, ErrorSpec>(f),
                Result::Err(e) => spec_df_total_from_tokens(t.deep_view(), hdr.deep_view())
                    == Result::Err::<Filesystem, ErrorSpec>(e@),
            },
    {
        let size = match lookup_u64(t, hdr, "fsSize") {
            Result::Ok(v) => v,
            Result::Err(e) => { return Result::Err(e) },
        };
        let free_blocks = match lookup_u64(t, hdr, "freeBlocks") {
            Result::Ok(v) => v,
            Result::Err(e) => { return Result::Err(e) },
        };
        let free_blocks_percent = match lookup_u64(t, hdr, "freeBlocksPct") {
            Result::Ok(v) => v,
            Result::Err(e) => { return Result::Err(e) },
        };
        let free_fragments = match lookup_u64(t, hdr, "freeFragments") {
            Result::Ok(v) => v,
            Result::Err(e) => { return Result::Err(e) },
        };
        let free_fragments_percent = match lookup_u64(t, hdr, "freeFragmentsPct") {
            Result::Ok(v) => v,
            Result::Err(e) => { return Result::Err(e) },
        };
        Result::Ok(
            Filesystem {
                size,
                free_blocks,
                free_blocks_percent,
                free_fragments,
                free_fragments_percent,
            },
        )
    }
}

/// The decode of one filesystem-total row.
pub open spec fn spec_df_total_from_tokens(t: Seq<Seq<char>>, hdr: Seq<Seq<char>>) -> Result<
    Filesystem,
    ErrorSpec,
> {
    match spec_lookup_u64(t, hdr, "fsSize"@) {
        Result::Err(e) => Result::Err(e),
        Result::Ok(size) => match spec_lookup_u64(t, hdr, "freeBlocks"@) {
            Result::Err(e) => Result::Err(e),
            Result::Ok(fb) => match spec_lookup_u64(t, hdr, "freeBlocksPct"@) {
                Result::Err(e) => Result::Err(e),
                Result::Ok(fbp) => match spec_lookup_u64(t, hdr, "freeFragments"@) {
                    Result::Err(e) => Result::Err(e),
                    Result::Ok(ff) => match spec_lookup_u64(t, hdr, "freeFragmentsPct"@) {
                        Result::Err(e) => Result::Err(e),
                        Result::Ok(ffp) => Result::Ok(
                            Filesystem {
                                size,
                                free_blocks: fb,
                                free_blocks_percent: fbp,
                                free_fragments: ff,
                                free_fragments_percent: ffp,
                            },
                        ),
                    },
                },
            },
        },
    }
}

/// The decoder's state over a space-report stream: one header per record
/// type, the rows decoded so far, and the filesystem total last seen.
#[verifier::ext_equal]
pub struct DfState {
    pub nhdr: Seq<Seq<char>>,
    pub phdr: Seq<Seq<char>>,
    pub thdr: Seq<Seq<char>>,
    pub nsds: Seq<NsdV>,
    pub pools: Seq<PoolV>,
    pub total: Filesystem,
}

/// The walk over a space-report stream.  Rows tagged `nsd`, `poolTotal`
/// and `fsTotal` each keep their own header; NSD and pool rows append,
/// a filesystem-total row overwrites the total; other rows are skipped.
pub open spec fn spec_df_stream(lines: Seq<Seq<char>>, st: DfState) -> Result<DfState, ErrorSpec>
    decreases lines.len(),
{
    if lines.len() == 0 {
        Result::Ok(st)
    } else {
        let line = lines[0];
        let rest = lines.skip(1);
        let t = spec_split(line, ':');
        if t.len() < 2 {
            Result::Err(ErrorSpec::BadLine(line))
        } else if t[1] == "nsd"@ {
            if t.len() < 3 {
                Result::Err(ErrorSpec::BadLine(line))
            } else if t[2] == "HEADER"@ {
                spec_df_stream(rest, DfState { nhdr: t, ..st })
            } else {
                match spec_df_nsd_from_tokens(t, st.nhdr) {
                    Result::Ok(n) => spec_df_stream(rest, DfState { nsds: st.nsds.push(n), ..st }),
                    Result::Err(e) => Result::Err(e),
                }
            }
        } else if t[1] == "poolTotal"@ {
            if t.len() < 3 {
                Result::Err(ErrorSpec::BadLine(line))
            } else if t[2] == "HEADER"@ {
                spec_df_stream(rest, DfState { phdr: t, ..st })
            } else {
                match spec_df_pool_from_tokens(t, st.phdr) {
                    Result::Ok(p) => spec_df_stream(
                        rest,
                        DfState { pools: st.pools.push(p), ..st },
                    ),
                    Result::Err(e) => Result::Err(e),
                }
            }
        } else if t[1] == "fsTotal"@ {
            if t.len() < 3 {
                Result::Err(ErrorSpec::BadLine(line))
            } else if t[2] == "HEADER"@ {
                spec_df_stream(rest, DfState { thdr: t, ..st })
            } else {
                match spec_df_total_from_tokens(t, st.thdr) {
                    Result::Ok(f) => spec_df_stream(rest, DfState { total: f, ..st }),
                    Result::Err(e) => Result::Err(e),
                }
            }
        } else {
            spec_df_stream(rest, st)
        }
    }
}

/// The decoder's initial state: no headers, no rows, a zero total.
pub open spec fn df_init() -> DfState {
    DfState {
        nhdr: Seq::empty(),
        phdr: Seq::empty(),
        thdr: Seq::empty(),
        nsds: Seq::empty(),
        pools: Seq::empty(),
        total: spec_df_total_zero(),
    }
}

/// One filesystem's whole space report.
#[derive(Debug)]
pub struct FsSummary {
    fs: String,
    nsds: Vec<Nsd>,
    pools: Vec<Pool>,
    total: Filesystem,
}

/// The mathematical shape of an [`FsSummary`].
#[verifier::ext_equal]
pub struct FsSummaryV {
    pub fs: Seq<char>,
    pub nsds: Seq<NsdV>,
    pub pools: Seq<PoolV>,
    pub total: Filesystem,
}

impl View for FsSummary {
    type V = FsSummaryV;

    closed spec fn view(&self) -> FsSummaryV {
        FsSummaryV {
            fs: self.fs@,
            nsds: self.nsds.deep_view(),
            pools: self.pools.deep_view(),
            total: self.total,
        }
    }
}

impl DeepView for FsSummary {
    type V = FsSummaryV;

    open spec fn deep_view(&self) -> FsSummaryV {
        self@
    }
}

/// The summary decoded from a whole space report for filesystem `fs`.
pub open spec fn spec_fs_summary(fs: Seq<char>, input: Seq<char>) -> Result<FsSummaryV, ErrorSpec> {
    match spec_df_stream(spec_lines(input), df_init()) {
        Result::Ok(st) => Result::Ok(
            FsSummaryV { fs, nsds: st.nsds, pools: st.pools, total: st.total },
        ),
        Result::Err(e) => Result::Err(e),
    }
}

impl FsSummary {
    /// Returns the filesystem name the report was taken for.
    pub fn fs(&self) -> (r: &str)
        ensures
            r@ == self@.fs,
    {
        self.fs.as_str()
    }

    /// Returns the per-NSD rows.
    pub fn nsds(&self) -> (r: &Vec<Nsd>)
        ensures
            r.deep_view() == self@.nsds,
    {
        &self.nsds
    }

    /// Returns the per-pool totals.
    pub fn pools(&self) -> (r: &Vec<Pool>)
        ensures
            r.deep_view() == self@.pools,
    {
        &self.pools
    }

    /// Returns the filesystem total; all zero when no total row arrived.
    pub fn total(&self) -> (r: &Filesystem)
        ensures
            *r == self@.total,
    {
        &self.total
    }

    /// Decodes one filesystem's whole space report.
    pub fn from_reader(fs: &str, input: &str) -> (r: Result<FsSummary, Error>)
        ensures
            match r {
                Result::Ok(s) => spec_fs_summary(fs@, input@) == Result::Ok::<
                    FsSummaryV,
                    ErrorSpec,
                >(s@),
                Result::Err(e) => spec_fs_summary(fs@, input@) == Result::Err::<
                    FsSummaryV,
                    ErrorSpec,
                >(e@),
            },
    {
        let lines = lines_of(input);
        let ghost lv = lines.deep_view();
        let mut nhdr: Vec<String> = Vec::new();
        let mut phdr: Vec<String> = Vec::new();
        let mut thdr: Vec<String> = Vec::new();
        let mut nsds: Vec<Nsd> = Vec::new();
        let mut pools: Vec<Pool> = Vec::new();
        let mut total = Filesystem {
            size: 0,
            free_blocks: 0,
            free_blocks_percent: 0,
            free_fragments: 0,
            free_fragments_percent: 0,
        };
        proof {
            assert(lv.skip(0) =~= lv);
            assert(nhdr.deep_view() =~= Seq::<Seq<char>>::empty());
            assert(phdr.deep_view() =~= Seq::<Seq<char>>::empty());
            assert(thdr.deep_view() =~= Seq::<Seq<char>>::empty());
            assert(nsds.deep_view() =~= Seq::<NsdV>::empty());
            assert(pools.deep_view() =~= Seq::<PoolV>::empty());
        }
        let mut i: usize = 0;
        while i < lines.len()
            invariant
                lv == lines.deep_view(),
                lv == spec_lines(input@),
                lines.len() == lv.len(),
                0 <= i <= lines.len(),
                spec_df_stream(lv, df_init()) == spec_df_stream(
                    lv.skip(i as int),
                    DfState {
                        nhdr: nhdr.deep_view(),
                        phdr: phdr.deep_view(),
                        thdr: thdr.deep_view(),
                        nsds: nsds.deep_view(),
                        pools: pools.deep_view(),
                        total: total,
                    },
                ),
            decreases lines.len() - i,
        {
            let ghost st = DfState {
                nhdr: nhdr.deep_view(),
                phdr: phdr.deep_view(),
                thdr: thdr.deep_view(),
                nsds: nsds.deep_view(),
                pools: pools.deep_view(),
                total: total,
            };
            proof {
                assert(lv.skip(i as int)[0] == lv[i as int]);
                assert(lv.skip(i as int).skip(1) =~= lv.skip(i as int + 1));
                assert(lines[i as int].deep_view() == lv[i as int]);
            }
            let t = split_char(lines[i].as_str(), ':');
            proof {
                assert(spec_split(lv[i as int], ':') == t.deep_view());
            }
            if t.len() < 2 {
                let e = Error::BadLine(lines[i].clone());
                proof {
                    assert(spec_df_stream(lv.skip(i as int), st) == Result::Err::<
                        DfState,
                        ErrorSpec,
                    >(e@));
                }
                return Result::Err(e);
            }
            proof {
                assert(t.deep_view()[1] == t[1 as int]@);
            }
            let tag_nsd = str_eq(t[1].as_str(), "nsd");
            let tag_pool = if tag_nsd {
                false
            } else {
                str_eq(t[1].as_str(), "poolTotal")
            };
            let tag_total = if tag_nsd || tag_pool {
                false
            } else {
                str_eq(t[1].as_str(), "fsTotal")
            };
            if tag_nsd || tag_pool || tag_total {
                if t.len() < 3 {
                    let e = Error::BadLine(lines[i].clone());
                    proof {
                        assert(spec_df_stream(lv.skip(i as int), st) == Result::Err::<
                            DfState,
                            ErrorSpec,
                        >(e@));
                    }
                    return Result::Err(e);
                }
                proof {
                    assert(t.deep_view()[2] == t[2 as int]@);
                }
                let is_header = str_eq(t[2].as_str(), "HEADER");
                if tag_nsd {
                    if is_header {
                        nhdr = t;
                        proof {
                            assert(DfState {
                                nhdr: nhdr.deep_view(),
                                phdr: phdr.deep_view(),
                                thdr: thdr.deep_view(),
                                nsds: nsds.deep_view(),
                                pools: pools.deep_view(),
                                total: total,
                            } =~= DfState { nhdr: nhdr.deep_view(), ..st });
                        }
                    } else {
                        match Nsd::from_tokens(&t, &nhdr) {
                            Result::Ok(n) => {
                                let ghost nv = n@;
                                let ghost old_nsds = nsds;
                                nsds.push(n);
                                proof {
                                    assert(nsds.deep_view() =~= old_nsds.deep_view().push(nv));
                                    assert(DfState {
                                        nhdr: nhdr.deep_view(),
                                        phdr: phdr.deep_view(),
                                        thdr: thdr.deep_view(),
                                        nsds: nsds.deep_view(),
                                        pools: pools.deep_view(),
                                        total: total,
                                    } =~= DfState { nsds: st.nsds.push(nv), ..st });
                                }
                            },
                            Result::Err(e) => {
                                proof {
                                    assert(spec_df_stream(lv.skip(i as int), st) == Result::Err::<
                                        DfState,
                                        ErrorSpec,
                                    >(e@));
                                }
                                return Result::Err(e)
                            },
                        }
                    }
                } else if tag_pool {
                    if is_header {
                        phdr = t;
                        proof {
                            assert(DfState {
                                nhdr: nhdr.deep_view(),
                                phdr: phdr.deep_view(),
                                thdr: thdr.deep_view(),
                                nsds: nsds.deep_view(),
                                pools: pools.deep_view(),
                                total: total,
                            } =~= DfState { phdr: phdr.deep_view(), ..st });
                        }
                    } else {
                        match Pool::from_tokens(&t, &phdr) {
                            Result::Ok(p) => {
                                let ghost pv = p@;
                                let ghost old_pools = pools;
                                pools.push(p);
                                proof {
                                    assert(pools.deep_view() =~= old_pools.deep_view().push(pv));
                                    assert(DfState {
                                        nhdr: nhdr.deep_view(),
                                        phdr: phdr.deep_view(),
                                        thdr: thdr.deep_view(),
                                        nsds: nsds.deep_view(),
                                        pools: pools.deep_view(),
                                        total: total,
                                    } =~= DfState { pools: st.pools.push(pv), ..st });
                                }
                            },
                            Result::Err(e) => {
                                proof {
                                    assert(spec_df_stream(lv.skip(i as int), st) == Result::Err::<
                                        DfState,
                                        ErrorSpec,
                                    >(e@));
                                }
                                return Result::Err(e)
                            },
                        }
                    }
                } else {
                    if is_header {
                        thdr = t;
                        proof {
                            assert(DfState {
                                nhdr: nhdr.deep_view(),
                                phdr: phdr.deep_view(),
                                thdr: thdr.deep_view(),
                                nsds: nsds.deep_view(),
                                pools: pools.deep_view(),
                                total: total,
                            } =~= DfState { thdr: thdr.deep_view(), ..st });
                        }
                    } else {
                        match Filesystem::from_tokens(&t, &thdr) {
                            Result::Ok(f) => {
                                total = f;
                                proof {
                                    assert(DfState {
                                        nhdr: nhdr.deep_view(),
                                        phdr: phdr.deep_view(),
                                        thdr: thdr.deep_view(),
                                        nsds: nsds.deep_view(),
                                        pools: pools.deep_view(),
                                        total: total,
                                    } =~= DfState { total: f, ..st });
                                }
                            },
                            Result::Err(e) => {
                                proof {
                                    assert(spec_df_stream(lv.skip(i as int), st) == Result::Err::<
                                        DfState,
                                        ErrorSpec,
                                    >(e@));
                                }
                                return Result::Err(e)
                            },
                        }
                    }
                }
            }
            i += 1;
        }
        proof {
            assert(lv.skip(i as int) =~= Seq::<Seq<char>>::empty());
        }
        Result::Ok(FsSummary { fs: fs.to_owned(), nsds, pools, total })
    }
}

/// The space reports of all filesystems, one summary each.
#[derive(Debug)]
pub struct Data {
    summaries: Vec<FsSummary>,
}

impl View for Data {
    type V = Seq<FsSummaryV>;

    closed spec fn view(&self) -> Seq<FsSummaryV> {
        self.summaries.deep_view()
    }
}

impl Data {
    /// Gathers per-filesystem summaries.
    pub fn from_summaries(summaries: Vec<FsSummary>) -> (r: Data)
        ensures
            r@ == summaries.deep_view(),
    {
        Data { summaries }
    }

    /// Returns the summaries.
    pub fn summaries(&self) -> (r: &Vec<FsSummary>)
        ensures
            r.deep_view() == self@,
    {
        &self.summaries
    }
}

} // verus!
