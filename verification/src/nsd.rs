//! Network-shared-disk records: the output of the NSD listing command,
//! the locality filter, the local device cache, and the grouping of local
//! NSDs by (filesystem, pool).

use crate::engine::lookup;
use crate::engine::spec_lookup;
use crate::engine::spec_records;
use crate::engine::spec_stream;
use crate::error::Error;
use crate::error::ErrorSpec;
use crate::text::after_last;
use crate::text::contains_str;
use crate::text::lines_of;
use crate::text::spec_lines;
use crate::text::spec_split;
use crate::text::split_char;
use crate::text::str_eq;
use crate::text::suffix_after_last;
use vstd::prelude::*;
use vstd::std_specs::cmp::PartialEqSpec;

verus! {

/// One NSD: its cluster-wide name, the servers that can reach it, and its
/// local block-device path.
#[derive(Debug)]
pub struct Nsd {
    name: String,
    server_list: Vec<String>,
    device: String,
}

/// The mathematical shape of an [`Nsd`].
#[verifier::ext_equal]
pub struct NsdV {
    pub name: Seq<char>,
    pub server_list: Seq<Seq<char>>,
    pub device: Seq<char>,
}

impl View for Nsd {
    type V = NsdV;

    closed spec fn view(&self) -> NsdV {
        NsdV { name: self.name@, server_list: self.server_list.deep_view(), device: self.device@ }
    }
}

impl DeepView for Nsd {
    type V = NsdV;

    open spec fn deep_view(&self) -> NsdV {
        self@
    }
}

impl Clone for Nsd {
    fn clone(&self) -> (r: Self)
        ensures
            r@ == self@,
    {
        let r = Nsd {
            name: self.name.clone(),
            server_list: self.server_list.clone(),
            device: self.device.clone(),
        };
        proof {
            assert(r.server_list.deep_view() =~= self.server_list.deep_view());
            assert(r@ =~= self@);
        }
        r
    }
}

impl Nsd {
    /// Returns the NSD name.
    pub fn name(&self) -> (r: &str)
        ensures
            r@ == self@.name,
    {
        self.name.as_str()
    }

    /// Returns the NSD server list.
    pub fn server_list(&self) -> (r: &Vec<String>)
        ensures
            r.deep_view() == self@.server_list,
    {
        &self.server_list
    }

    /// Returns the local block-device path.
    pub fn device(&self) -> (r: &str)
        ensures
            r@ == self@.device,
    {
        self.device.as_str()
    }

    /// Decodes one data row against the header last seen: the name from
    /// the `diskName` column, the servers from the comma-separated
    /// `serverList` column, and the device from the `localDiskName`
    /// column.
    pub fn from_tokens(t: &Vec<String>, hdr: &Vec<String>) -> (r: Result<Nsd, Error>)
        ensures
            match r {
                Result::Ok(n) => spec_nsd_from_tokens(t.deep_view(), hdr.deep_view())
                    == Result::Ok::<NsdV, ErrorSpec>(n@),
                Result::Err(e) => spec_nsd_from_tokens(t.deep_view(), hdr.deep_view())
                    == Result::Err::<NsdV, ErrorSpec>(e@),
            },
    {
        let name = match lookup(t, hdr, "diskName") {
            Result::Ok(s) => s.clone(),
            Result::Err(e) => { return Result::Err(e) },
        };
        let servers = match lookup(t, hdr, "serverList") {
            Result::Ok(s) => split_char(s.as_str(), ','),
            Result::Err(e) => { return Result::Err(e) },
        };
        let device = match lookup(t, hdr, "localDiskName") {
            Result::Ok(s) => s.clone(),
            Result::Err(e) => { return Result::Err(e) },
        };
        Result::Ok(Nsd { name, server_list: servers, device })
    }
}

/// The decode of one NSD data row: the three required columns looked up
/// under the header, the server list split at commas.
pub open spec fn spec_nsd_from_tokens(t: Seq<Seq<char>>, hdr: Seq<Seq<char>>) -> Result<
    NsdV,
    ErrorSpec,
> {
    match spec_lookup(t, hdr, "diskName"@) {
        Result::Err(e) => Result::Err(e),
        Result::Ok(name) => match spec_lookup(t, hdr, "serverList"@) {
            Result::Err(e) => Result::Err(e),
            Result::Ok(sl) => match spec_lookup(t, hdr, "localDiskName"@) {
                Result::Err(e) => Result::Err(e),
                Result::Ok(dev) => Result::Ok(
                    NsdV { name, server_list: spec_split(sl, ','), device: dev },
                ),
            },
        },
    }
}

pub open spec fn nsd_decoder() -> spec_fn(Seq<Seq<char>>, Seq<Seq<char>>) -> Result<
    NsdV,
    ErrorSpec,
> {
    |t: Seq<Seq<char>>, hdr: Seq<Seq<char>>| spec_nsd_from_tokens(t, hdr)
}

/// Parsed NSDs, in stream order.
#[derive(Debug)]
pub struct Nsds(pub(crate) Vec<Nsd>);

impl View for Nsds {
    type V = Seq<NsdV>;

    closed spec fn view(&self) -> Seq<NsdV> {
        self.0.deep_view()
    }
}

impl Nsds {
    /// Returns the NSDs.
    pub fn iter(&self) -> (r: &Vec<Nsd>)
        ensures
            r.deep_view() == self@,
    {
        &self.0
    }

    /// Returns the underlying collection.
    pub fn into_inner(self) -> (r: Vec<Nsd>)
        ensures
            r.deep_view() == self@,
    {
        self.0
    }

    /// Decodes the NSD listing command's whole output: header rows rebind
    /// the columns, every other row is one NSD.
    pub fn from_reader(input: &str) -> (r: Result<Nsds, Error>)
        ensures
            match r {
                Result::Ok(v) => spec_records(input@, nsd_decoder(), false, Option::None)
                    == Result::Ok::<Seq<NsdV>, ErrorSpec>(v@),
                Result::Err(e) => spec_records(input@, nsd_decoder(), false, Option::None)
                    == Result::Err::<Seq<NsdV>, ErrorSpec>(e@),
            },
    {
        let lines = lines_of(input);
        let ghost lv = lines.deep_view();
        let ghost dec = nsd_decoder();
        let mut hdr: Vec<String> = Vec::new();
        let mut out: Vec<Nsd> = Vec::new();
        proof {
            assert(lv.skip(0) =~= lv);
            assert(hdr.deep_view() =~= Seq::<Seq<char>>::empty());
            assert(out.deep_view() =~= Seq::<NsdV>::empty());
        }
        let mut i: usize = 0;
        while i < lines.len()
            invariant
                lv == lines.deep_view(),
                lv == spec_lines(input@),
                lines.len() == lv.len(),
                0 <= i <= lines.len(),
                dec == nsd_decoder(),
                spec_stream(lv, Seq::empty(), Seq::empty(), dec, false, Option::None)
                    == spec_stream(
                    lv.skip(i as int),
                    hdr.deep_view(),
                    out.deep_view(),
                    dec,
                    false,
                    Option::None,
                ),
            decreases lines.len() - i,
        {
            proof {
                assert(lv.skip(i as int)[0] == lv[i as int]);
                assert(lv.skip(i as int).skip(1) =~= lv.skip(i as int + 1));
                assert(lines[i as int].deep_view() == lv[i as int]);
            }
            let t = split_char(lines[i].as_str(), ':');
            if t.len() < 3 {
                let e = Error::BadLine(lines[i].clone());
                proof {
                    assert(spec_split(lv[i as int], ':') == t.deep_view());
                    assert(spec_stream(
                        lv.skip(i as int),
                        hdr.deep_view(),
                        out.deep_view(),
                        dec,
                        false,
                        Option::None,
                    ) == Result::Err::<(Seq<Seq<char>>, Seq<NsdV>), ErrorSpec>(e@));
                }
                return Result::Err(e);
            }
            if str_eq(t[2].as_str(), "HEADER") {
                proof {
                    assert(t.deep_view()[2] == t[2 as int]@);
                }
                hdr = t;
            } else {
                proof {
                    assert(t.deep_view()[2] == t[2 as int]@);
                }
                match Nsd::from_tokens(&t, &hdr) {
                    Result::Ok(n) => {
                        let ghost old_out = out;
                        out.push(n);
                        proof {
                            assert(out.deep_view() =~= old_out.deep_view().push(n@));
                        }
                    },
                    Result::Err(e) => {
                        proof {
                            assert(spec_split(lv[i as int], ':') == t.deep_view());
                            assert(dec(t.deep_view(), hdr.deep_view()) == spec_nsd_from_tokens(
                                t.deep_view(),
                                hdr.deep_view(),
                            ));
                            assert(spec_stream(
                                lv.skip(i as int),
                                hdr.deep_view(),
                                out.deep_view(),
                                dec,
                                false,
                                Option::None,
                            ) == Result::Err::<(Seq<Seq<char>>, Seq<NsdV>), ErrorSpec>(e@));
                        }
                        return Result::Err(e)
                    },
                }
            }
            i += 1;
        }
        proof {
            assert(lv.skip(i as int) =~= Seq::<Seq<char>>::empty());
        }
        Result::Ok(Nsds(out))
    }
}

// ---------------------------------------------------------------------------
// locality and the device cache
// ---------------------------------------------------------------------------
/// Whether the NSD's server list contains `node`: whether the NSD is
/// local to that node.
pub open spec fn spec_is_local(n: NsdV, node: Seq<char>) -> bool {
    exists|i: int| 0 <= i < n.server_list.len() && n.server_list[i] == node
}

/// The locality test against one node, as a named predicate.
pub open spec fn local_pred(node: Seq<char>) -> spec_fn(NsdV) -> bool {
    |n: NsdV| spec_is_local(n, node)
}

/// Keeps the NSDs whose server list contains `node`, in order.
pub fn local(nsds: Nsds, node: &str) -> (r: Nsds)
    ensures
        r@ == nsds@.filter(local_pred(node@)),
{
    let v = nsds.0;
    let ghost nv = v.deep_view();
    let mut out: Vec<Nsd> = Vec::new();
    proof {
        reveal(Seq::filter);
        assert(nv.take(0) =~= Seq::<NsdV>::empty());
        assert(out.deep_view() =~= nv.take(0).filter(local_pred(node@)));
    }
    let mut i: usize = 0;
    while i < v.len()
        invariant
            nv == v.deep_view(),
            v.len() == nv.len(),
            0 <= i <= v.len(),
            out.deep_view() == nv.take(i as int).filter(local_pred(node@)),
        decreases v.len() - i,
    {
        proof {
            assert(nv.take(i as int + 1).drop_last() =~= nv.take(i as int));
            assert(nv.take(i as int + 1).last() == nv[i as int]);
            assert(v[i as int].deep_view() == nv[i as int]);
        }
        let keep = contains_str(&v[i].server_list, node);
        proof {
            assert(v[i as int].server_list.deep_view() == nv[i as int].server_list);
            assert(keep == spec_is_local(nv[i as int], node@));
        }
        if keep {
            let ghost old_out = out;
            out.push(v[i].clone());
            proof {
                reveal(Seq::filter);
                assert(out.deep_view() =~= old_out.deep_view().push(nv[i as int]));
                assert(nv.take(i as int + 1).filter(local_pred(node@)) == nv.take(
                    i as int,
                ).filter(local_pred(node@)).push(nv[i as int]));
            }
        } else {
            proof {
                reveal(Seq::filter);
                assert(nv.take(i as int + 1).filter(local_pred(node@)) == nv.take(
                    i as int,
                ).filter(local_pred(node@)));
            }
        }
        i += 1;
    }
    proof {
        assert(nv.take(i as int) =~= nv);
    }
    Nsds(out)
}

/// The decode of one cache line, `name:device`, on the node the cache
/// was written on: that node is the whole server list by construction,
/// as the cache persists no ownership and is only valid on its writer.
pub open spec fn spec_cache_entry(line: Seq<char>, node: Seq<char>) -> Result<NsdV, ErrorSpec> {
    let t = spec_split(line, ':');
    if t.len() < 2 {
        Result::Err(ErrorSpec::BadLine(line))
    } else {
        Result::Ok(NsdV { name: t[0], server_list: seq![node], device: t[1] })
    }
}

/// The decode of a whole cache file.
pub open spec fn spec_cache_nsds(lines: Seq<Seq<char>>, node: Seq<char>, acc: Seq<NsdV>) -> Result<
    Seq<NsdV>,
    ErrorSpec,
>
    decreases lines.len(),
{
    if lines.len() == 0 {
        Result::Ok(acc)
    } else {
        match spec_cache_entry(lines[0], node) {
            Result::Ok(n) => spec_cache_nsds(lines.skip(1), node, acc.push(n)),
            Result::Err(e) => Result::Err(e),
        }
    }
}

/// Decodes the device cache, one `name:device` line per NSD, every
/// entry owned by `node`, the node that wrote the cache.
pub fn from_cache_text(input: &str, node: &str) -> (r: Result<Nsds, Error>)
    ensures
        match r {
            Result::Ok(v) => spec_cache_nsds(spec_lines(input@), node@, Seq::empty())
                == Result::Ok::<Seq<NsdV>, ErrorSpec>(v@),
            Result::Err(e) => spec_cache_nsds(spec_lines(input@), node@, Seq::empty())
                == Result::Err::<Seq<NsdV>, ErrorSpec>(e@),
        },
{
    let lines = lines_of(input);
    let ghost lv = lines.deep_view();
    let mut out: Vec<Nsd> = Vec::new();
    proof {
        assert(lv.skip(0) =~= lv);
        assert(out.deep_view() =~= Seq::<NsdV>::empty());
    }
    let mut i: usize = 0;
    while i < lines.len()
        invariant
            lv == lines.deep_view(),
            lv == spec_lines(input@),
            lines.len() == lv.len(),
            0 <= i <= lines.len(),
            spec_cache_nsds(lv, node@, Seq::empty()) == spec_cache_nsds(
                lv.skip(i as int),
                node@,
                out.deep_view(),
            ),
        decreases lines.len() - i,
    {
        proof {
            assert(lv.skip(i as int)[0] == lv[i as int]);
            assert(lv.skip(i as int).skip(1) =~= lv.skip(i as int + 1));
            assert(lines[i as int].deep_view() == lv[i as int]);
        }
        let t = split_char(lines[i].as_str(), ':');
        proof {
            assert(spec_split(lv[i as int], ':') == t.deep_view());
        }
        if t.len() < 2 {
            let e = Error::BadLine(lines[i].clone());
            proof {
                assert(spec_cache_nsds(lv.skip(i as int), node@, out.deep_view())
                    == Result::Err::<Seq<NsdV>, ErrorSpec>(e@));
            }
            return Result::Err(e);
        }
        let mut server_list: Vec<String> = Vec::new();
        server_list.push(node.to_owned());
        let n = Nsd { name: t[0].clone(), server_list, device: t[1].clone() };
        proof {
            assert(t.deep_view()[0] == t[0 as int]@);
            assert(t.deep_view()[1] == t[1 as int]@);
            assert(n.server_list.deep_view() =~= seq![node@]);
            assert(spec_cache_entry(lv[i as int], node@) == Result::Ok::<NsdV, ErrorSpec>(n@));
        }
        let ghost old_out = out;
        out.push(n);
        proof {
            assert(out.deep_view() =~= old_out.deep_view().push(n@));
        }
        i += 1;
    }
    proof {
        assert(lv.skip(i as int) =~= Seq::<Seq<char>>::empty());
    }
    Result::Ok(Nsds(out))
}

/// One cache line: the NSD's name and device joined by a colon, closed
/// by a line feed.
pub open spec fn spec_cache_line(n: NsdV) -> Seq<char> {
    n.name + seq![':'] + n.device + seq!['\n']
}

/// The cache text of a set of NSDs, one line each, in order.
pub open spec fn spec_cache_text(s: Seq<NsdV>) -> Seq<char>
    decreases s.len(),
{
    if s.len() == 0 {
        Seq::empty()
    } else {
        spec_cache_text(s.drop_last()) + spec_cache_line(s.last())
    }
}

impl Nsds {
    /// Renders the cache text these NSDs are persisted as: one
    /// `name:device` line per NSD.  Server ownership is not persisted,
    /// so the text is only valid to read back on this node.
    pub fn cache_text(&self) -> (r: String)
        ensures
            r@ == spec_cache_text(self@),
    {
        let ghost nv = self@;
        let mut out = String::new();
        proof {
            assert(nv.take(0) =~= Seq::<NsdV>::empty());
            assert(out@ =~= spec_cache_text(nv.take(0)));
        }
        let mut i: usize = 0;
        while i < self.0.len()
            invariant
                nv == self@,
                nv == self.0.deep_view(),
                self.0.len() == nv.len(),
                0 <= i <= self.0.len(),
                out@ == spec_cache_text(nv.take(i as int)),
            decreases self.0.len() - i,
        {
            proof {
                assert(nv.take(i as int + 1).drop_last() =~= nv.take(i as int));
                assert(nv.take(i as int + 1).last() == nv[i as int]);
                assert(self.0[i as int].deep_view() == nv[i as int]);
            }
            out.append(self.0[i].name.as_str());
            out.append(":");
            out.append(self.0[i].device.as_str());
            out.append("\n");
            proof {
                reveal_strlit(":");
                reveal_strlit("\n");
                assert(":"@ =~= seq![':']);
                assert("\n"@ =~= seq!['\n']);
                assert(out@ =~= spec_cache_text(nv.take(i as int + 1)));
            }
            i += 1;
        }
        proof {
            assert(nv.take(i as int) =~= nv);
        }
        out
    }
}

impl Nsd {
    /// The bare device name: the path's final component.  A path with
    /// an empty final component has no device name, a fatal condition
    /// naming the path.
    pub fn device_name(&self) -> (r: Result<String, Error>)
        ensures
            match r {
                Result::Ok(c) => after_last(self@.device, '/') == c@ && c@.len() > 0,
                Result::Err(e) => after_last(self@.device, '/').len() == 0 && e@
                    == ErrorSpec::BadDevicePath(self@.device),
            },
    {
        let c = suffix_after_last(self.device.as_str(), '/');
        if c.as_str().unicode_len() == 0 {
            Result::Err(Error::BadDevicePath(self.device.clone()))
        } else {
            Result::Ok(c)
        }
    }
}

// ---------------------------------------------------------------------------
// grouping by (filesystem, pool)
// ---------------------------------------------------------------------------
/// File system and pool tuple, the grouping key of the correlation.
/// Equality is structural: both fields must match.
#[derive(Eq, Hash, Debug)]
pub struct FsPoolId {
    fs: String,
    pool: String,
}

/// The mathematical shape of an [`FsPoolId`].
#[verifier::ext_equal]
pub struct FsPoolIdV {
    pub fs: Seq<char>,
    pub pool: Seq<char>,
}

impl View for FsPoolId {
    type V = FsPoolIdV;

    closed spec fn view(&self) -> FsPoolIdV {
        FsPoolIdV { fs: self.fs@, pool: self.pool@ }
    }
}

impl Clone for FsPoolId {
    fn clone(&self) -> (r: Self)
        ensures
            r@ == self@,
    {
        FsPoolId { fs: self.fs.clone(), pool: self.pool.clone() }
    }
}

impl PartialEq for FsPoolId {
    fn eq(&self, other: &FsPoolId) -> (r: bool) {
        self.fs == other.fs && self.pool == other.pool
    }
}

impl vstd::std_specs::cmp::PartialEqSpecImpl for FsPoolId {
    open spec fn obeys_eq_spec() -> bool {
        true
    }

    open spec fn eq_spec(&self, other: &FsPoolId) -> bool {
        self@.fs == other@.fs && self@.pool == other@.pool
    }
}

/// Two grouping keys are equal exactly when both fields agree: keys
/// with identical filesystem and pool names compare equal, and keys
/// that differ in either field never do.  `eq_spec` is what the `==`
/// operator on keys returns.
pub proof fn lemma_fs_pool_id_eq(a: FsPoolId, b: FsPoolId)
    ensures
        a.eq_spec(&b) <==> (a@.fs == b@.fs && a@.pool == b@.pool),
{
}

impl FsPoolId {
    /// Builds a grouping key.
    pub fn new(fs: String, pool: String) -> (r: FsPoolId)
        ensures
            r@ == (FsPoolIdV { fs: fs@, pool: pool@ }),
    {
        FsPoolId { fs, pool }
    }

    /// Returns the file system.
    pub fn fs(&self) -> (r: &str)
        ensures
            r@ == self@.fs,
    {
        self.fs.as_str()
    }

    /// Returns the pool.
    pub fn pool(&self) -> (r: &str)
        ensures
            r@ == self@.pool,
    {
        self.pool.as_str()
    }
}

/// NSDs grouped by [`FsPoolId`], keys in first-appearance order, each
/// group's NSDs in stream order.
#[derive(Debug)]
pub struct ByPool(pub(crate) Vec<(FsPoolId, Nsds)>);

impl View for ByPool {
    type V = Seq<(FsPoolIdV, Seq<NsdV>)>;

    closed spec fn view(&self) -> Seq<(FsPoolIdV, Seq<NsdV>)> {
        self.0@.map_values(|p: (FsPoolId, Nsds)| (p.0@, p.1@))
    }
}

impl ByPool {
    /// Returns the groups.
    pub fn groups(&self) -> (r: &Vec<(FsPoolId, Nsds)>)
        ensures
            r@.len() == self@.len(),
            forall|i: int|
                0 <= i < r@.len() ==> (#[trigger] r@[i].0)@ == self@[i].0 && r@[i].1@
                    == self@[i].1,
    {
        &self.0
    }

    /// Returns the underlying collection.
    pub fn into_inner(self) -> (r: Vec<(FsPoolId, Nsds)>)
        ensures
            r@.len() == self@.len(),
            forall|i: int|
                0 <= i < r@.len() ==> (#[trigger] r@[i].0)@ == self@[i].0 && r@[i].1@
                    == self@[i].1,
    {
        self.0
    }
}

/// The position of key `k` in the groups, or their number if absent.
pub open spec fn bp_ix(m: Seq<(FsPoolIdV, Seq<NsdV>)>, k: FsPoolIdV) -> int
    decreases m.len(),
{
    if m.len() == 0 {
        0
    } else if m[0].0 == k {
        0
    } else {
        1 + bp_ix(m.skip(1), k)
    }
}

proof fn lemma_bp_ix_at(m: Seq<(FsPoolIdV, Seq<NsdV>)>, k: FsPoolIdV, j: int)
    requires
        0 <= j <= m.len(),
        forall|l: int| 0 <= l < j ==> (#[trigger] m[l]).0 != k,
        j < m.len() ==> m[j].0 == k,
    ensures
        bp_ix(m, k) == j,
    decreases j,
{
    if j == 0 {
    } else {
        let t = m.skip(1);
        assert(forall|l: int| 0 <= l < j - 1 ==> (#[trigger] t[l]).0 == m[l + 1].0);
        if j - 1 < t.len() {
            assert(t[j - 1] == m[j]);
        }
        lemma_bp_ix_at(t, k, j - 1);
    }
}

/// Appends `n` to the group of key `k`, creating the group at the end
/// if the key is new.
pub open spec fn bp_append(m: Seq<(FsPoolIdV, Seq<NsdV>)>, k: FsPoolIdV, n: NsdV) -> Seq<
    (FsPoolIdV, Seq<NsdV>),
> {
    let i = bp_ix(m, k);
    if i == m.len() {
        m.push((k, seq![n]))
    } else {
        m.update(i, (k, m[i].1.push(n)))
    }
}

/// The position of the first disk named `name`, or the number of disks
/// if none is.
pub open spec fn disk_ix(disks: Seq<crate::disk::DiskV>, name: Seq<char>) -> int
    decreases disks.len(),
{
    if disks.len() == 0 {
        0
    } else if disks[0].nsd_name == name {
        0
    } else {
        1 + disk_ix(disks.skip(1), name)
    }
}

proof fn lemma_disk_ix_at(disks: Seq<crate::disk::DiskV>, name: Seq<char>, j: int)
    requires
        0 <= j <= disks.len(),
        forall|l: int| 0 <= l < j ==> (#[trigger] disks[l]).nsd_name != name,
        j < disks.len() ==> disks[j].nsd_name == name,
    ensures
        disk_ix(disks, name) == j,
    decreases j,
{
    if j == 0 {
    } else {
        let t = disks.skip(1);
        assert(forall|l: int| 0 <= l < j - 1 ==> (#[trigger] t[l]).nsd_name == disks[l + 1].nsd_name);
        if j - 1 < t.len() {
            assert(t[j - 1] == disks[j]);
        }
        lemma_disk_ix_at(t, name, j - 1);
    }
}

/// One NSD's contribution to the grouping for one filesystem: if some
/// disk of the filesystem carries the NSD's name, the NSD joins the
/// group of (filesystem, that disk's pool); otherwise the filesystem
/// does not claim it.
pub open spec fn spec_group_nsd(
    m: Seq<(FsPoolIdV, Seq<NsdV>)>,
    fs: Seq<char>,
    disks: Seq<crate::disk::DiskV>,
    n: NsdV,
) -> Seq<(FsPoolIdV, Seq<NsdV>)> {
    let i = disk_ix(disks, n.name);
    if i == disks.len() {
        m
    } else {
        bp_append(m, FsPoolIdV { fs: fs, pool: disks[i].storage_pool }, n)
    }
}

/// The contribution of one filesystem: each NSD in order.
pub open spec fn spec_group_fs(
    m: Seq<(FsPoolIdV, Seq<NsdV>)>,
    fs: Seq<char>,
    disks: Seq<crate::disk::DiskV>,
    nsds: Seq<NsdV>,
) -> Seq<(FsPoolIdV, Seq<NsdV>)>
    decreases nsds.len(),
{
    if nsds.len() == 0 {
        m
    } else {
        spec_group_fs(spec_group_nsd(m, fs, disks, nsds[0]), fs, disks, nsds.skip(1))
    }
}

/// The whole grouping: each filesystem in order, each NSD in order.
pub open spec fn spec_group_all(
    m: Seq<(FsPoolIdV, Seq<NsdV>)>,
    fss: Seq<(Seq<char>, Seq<crate::disk::DiskV>)>,
    nsds: Seq<NsdV>,
) -> Seq<(FsPoolIdV, Seq<NsdV>)>
    decreases fss.len(),
{
    if fss.len() == 0 {
        m
    } else {
        spec_group_all(spec_group_fs(m, fss[0].0, fss[0].1, nsds), fss.skip(1), nsds)
    }
}

/// The view of a filesystem/disk-list table.
pub open spec fn fs_disks_view(fd: Seq<(String, crate::disk::Disks)>) -> Seq<
    (Seq<char>, Seq<crate::disk::DiskV>),
> {
    fd.map_values(|p: (String, crate::disk::Disks)| (p.0@, p.1@))
}

/// Groups the given NSDs by (filesystem, pool): for every filesystem in
/// order, every NSD whose name appears in that filesystem's disk list
/// joins the group of the disk's pool.  An NSD without a matching disk
/// in a filesystem is not claimed by it.
pub fn local_pooled(nsds: &Nsds, fs_disks: &Vec<(String, crate::disk::Disks)>) -> (r: ByPool)
    ensures
        r@ == spec_group_all(Seq::empty(), fs_disks_view(fs_disks@), nsds@),
{
    let ghost nv = nsds@;
    let ghost fdv = fs_disks_view(fs_disks@);
    let mut m: Vec<(FsPoolId, Nsds)> = Vec::new();
    proof {
        assert(fdv.skip(0) =~= fdv);
        assert(m@.map_values(|p: (FsPoolId, Nsds)| (p.0@, p.1@)) =~= Seq::<
            (FsPoolIdV, Seq<NsdV>),
        >::empty());
    }
    let mut fi: usize = 0;
    while fi < fs_disks.len()
        invariant
            nv == nsds@,
            fdv == fs_disks_view(fs_disks@),
            fs_disks.len() == fdv.len(),
            0 <= fi <= fs_disks.len(),
            spec_group_all(Seq::empty(), fdv, nv) == spec_group_all(
                m@.map_values(|p: (FsPoolId, Nsds)| (p.0@, p.1@)),
                fdv.skip(fi as int),
                nv,
            ),
        decreases fs_disks.len() - fi,
    {
        let ghost m_start = m@.map_values(|p: (FsPoolId, Nsds)| (p.0@, p.1@));
        let ghost fsv = fdv[fi as int].0;
        let ghost dsv = fdv[fi as int].1;
        proof {
            assert(fdv.skip(fi as int)[0] == fdv[fi as int]);
            assert(fdv.skip(fi as int).skip(1) =~= fdv.skip(fi as int + 1));
            assert(fs_disks@[fi as int].0@ == fsv);
            assert(fs_disks@[fi as int].1@ == dsv);
        }
        let fs_name: &String = &fs_disks[fi].0;
        let disks: &crate::disk::Disks = &fs_disks[fi].1;
        let nsd_vec = nsds.iter();
        let mut ni: usize = 0;
        proof {
            assert(nv.skip(0) =~= nv);
        }
        while ni < nsd_vec.len()
            invariant
                nv == nsd_vec.deep_view(),
                nsd_vec.len() == nv.len(),
                0 <= ni <= nsd_vec.len(),
                fsv == fs_name@,
                dsv == disks@,
                spec_group_fs(m_start, fsv, dsv, nv) == spec_group_fs(
                    m@.map_values(|p: (FsPoolId, Nsds)| (p.0@, p.1@)),
                    fsv,
                    dsv,
                    nv.skip(ni as int),
                ),
            decreases nsd_vec.len() - ni,
        {
            let ghost mv = m@.map_values(|p: (FsPoolId, Nsds)| (p.0@, p.1@));
            proof {
                assert(nv.skip(ni as int)[0] == nv[ni as int]);
                assert(nv.skip(ni as int).skip(1) =~= nv.skip(ni as int + 1));
                assert(nsd_vec[ni as int].deep_view() == nv[ni as int]);
            }
            let nsd = &nsd_vec[ni];
            // find the disk of this filesystem that carries the NSD's name
            let dv = disks.iter();
            let mut di: usize = 0;
            let mut d_found = false;
            while di < dv.len() && !d_found
                invariant
                    dsv == dv.deep_view(),
                    dv.len() == dsv.len(),
                    0 <= di <= dv.len(),
                    !d_found ==> forall|l: int|
                        0 <= l < di ==> (#[trigger] dsv[l]).nsd_name != nv[ni as int].name,
                    d_found ==> di < dv.len() && dsv[di as int].nsd_name == nv[ni as int].name
                        && forall|l: int|
                        0 <= l < di ==> (#[trigger] dsv[l]).nsd_name != nv[ni as int].name,
                    nv == nsd_vec.deep_view(),
                    ni < nv.len(),
                    nsd@ == nv[ni as int],
                decreases dv.len() - di + if d_found {
                    0int
                } else {
                    1int
                },
            {
                proof {
                    assert(dv[di as int].deep_view() == dsv[di as int]);
                }
                if str_eq(dv[di].nsd_name(), nsd.name()) {
                    d_found = true;
                } else {
                    di += 1;
                }
            }
            if d_found {
                proof {
                    lemma_disk_ix_at(dsv, nv[ni as int].name, di as int);
                }
                let ghost key = FsPoolIdV { fs: fsv, pool: dsv[di as int].storage_pool };
                let id = FsPoolId { fs: fs_name.clone(), pool: dv[di].pool().to_owned() };
                proof {
                    assert(dv[di as int].deep_view() == dsv[di as int]);
                    assert(id@ =~= key);
                }
                // find the key's group, if it exists
                let mut gi: usize = 0;
                let mut g_found = false;
                while gi < m.len() && !g_found
                    invariant
                        0 <= gi <= m.len(),
                        !g_found ==> forall|l: int|
                            0 <= l < gi ==> (#[trigger] m@[l].0)@ != id@,
                        g_found ==> gi < m.len() && m@[gi as int].0@ == id@ && forall|l: int|
                            0 <= l < gi ==> (#[trigger] m@[l].0)@ != id@,
                    decreases m.len() - gi + if g_found {
                        0int
                    } else {
                        1int
                    },
                {
                    let same = str_eq(m[gi].0.fs.as_str(), id.fs.as_str()) && str_eq(
                        m[gi].0.pool.as_str(),
                        id.pool.as_str(),
                    );
                    if same {
                        proof {
                            assert(m@[gi as int].0@ =~= id@);
                        }
                        g_found = true;
                    } else {
                        gi += 1;
                    }
                }
                proof {
                    assert(forall|l: int|
                        0 <= l < mv.len() ==> (#[trigger] mv[l]).0 == m@[l].0@ && mv[l].1
                            == m@[l].1@);
                }
                if g_found {
                    proof {
                        lemma_bp_ix_at(mv, key, gi as int);
                    }
                    let pair = m.remove(gi);
                    let (k2, grp) = pair;
                    let mut grp_vec = grp.0;
                    let ghost old_grp = grp_vec.deep_view();
                    grp_vec.push(nsd.clone());
                    proof {
                        assert(grp_vec.deep_view() =~= old_grp.push(nv[ni as int]));
                    }
                    m.insert(gi, (k2, Nsds(grp_vec)));
                    proof {
                        assert(m@.map_values(|p: (FsPoolId, Nsds)| (p.0@, p.1@)) =~= bp_append(
                            mv,
                            key,
                            nv[ni as int],
                        ));
                    }
                } else {
                    proof {
                        lemma_bp_ix_at(mv, key, mv.len() as int);
                    }
                    let mut grp_vec: Vec<Nsd> = Vec::new();
                    grp_vec.push(nsd.clone());
                    proof {
                        assert(grp_vec.deep_view() =~= seq![nv[ni as int]]);
                    }
                    m.push((id, Nsds(grp_vec)));
                    proof {
                        assert(m@.map_values(|p: (FsPoolId, Nsds)| (p.0@, p.1@)) =~= bp_append(
                            mv,
                            key,
                            nv[ni as int],
                        ));
                    }
                }
            } else {
                proof {
                    lemma_disk_ix_at(dsv, nv[ni as int].name, dsv.len() as int);
                }
            }
            ni += 1;
        }
        fi += 1;
    }
    proof {
        assert(fdv.skip(fi as int) =~= Seq::<(Seq<char>, Seq<crate::disk::DiskV>)>::empty());
    }
    ByPool(m)
}

} // verus!
