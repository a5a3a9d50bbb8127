//! Per-pool block-device aggregation: the grouped NSDs correlated with
//! the kernel's per-device counters, summed field-wise per (filesystem,
//! pool) key.

use crate::error::Error;
use crate::error::ErrorSpec;
use crate::nsd::ByPool;
use crate::nsd::FsPoolId;
use crate::nsd::FsPoolIdV;
use crate::nsd::Nsds;
use crate::nsd::NsdV;
use crate::sysfs::block::spec_stat_add_fits;
use crate::sysfs::block::spec_stat_sum2;
use crate::sysfs::block::spec_stat_zero;
use crate::sysfs::block::Stat;
use crate::text::after_last;
use crate::text::str_eq;
use crate::text::suffix_after_last;
use vstd::prelude::*;

verus! {

/// The position of the first statistics entry for device `name`, or the
/// number of entries if none is.
pub open spec fn stat_ix(stats: Seq<(Seq<char>, Stat)>, name: Seq<char>) -> int
    decreases stats.len(),
{
    if stats.len() == 0 {
        0
    } else if stats[0].0 == name {
        0
    } else {
        1 + stat_ix(stats.skip(1), name)
    }
}

proof fn lemma_stat_ix_at(stats: Seq<(Seq<char>, Stat)>, name: Seq<char>, j: int)
    requires
        0 <= j <= stats.len(),
        forall|l: int| 0 <= l < j ==> (#[trigger] stats[l]).0 != name,
        j < stats.len() ==> stats[j].0 == name,
    ensures
        stat_ix(stats, name) == j,
    decreases j,
{
    if j == 0 {
    } else {
        let t = stats.skip(1);
        assert(forall|l: int| 0 <= l < j - 1 ==> (#[trigger] t[l]) == stats[l + 1]);
        if j - 1 < t.len() {
            assert(t[j - 1] == stats[j]);
        }
        lemma_stat_ix_at(t, name, j - 1);
    }
}

/// The field-wise sum of one group's device counters, walked in group
/// order with the running sum `acc`.  Each NSD must yield a bare device
/// name, that name must have a statistics entry (the first is taken),
/// and every field sum must fit; the first failure aborts the group.
pub open spec fn spec_group_stat(nsds: Seq<NsdV>, stats: Seq<(Seq<char>, Stat)>, acc: Stat) -> Result<
    Stat,
    ErrorSpec,
>
    decreases nsds.len(),
{
    if nsds.len() == 0 {
        Result::Ok(acc)
    } else {
        let n = nsds[0];
        let c = after_last(n.device, '/');
        if c.len() == 0 {
            Result::Err(ErrorSpec::BadDevicePath(n.device))
        } else {
            let i = stat_ix(stats, c);
            if i == stats.len() {
                Result::Err(ErrorSpec::NoDeviceStat(n.device))
            } else if !spec_stat_add_fits(acc, stats[i].1) {
                Result::Err(ErrorSpec::CounterOverflow(n.device))
            } else {
                spec_group_stat(nsds.skip(1), stats, spec_stat_sum2(acc, stats[i].1))
            }
        }
    }
}

/// The per-key sums over all groups, in group order.
pub open spec fn spec_pool_stats(
    groups: Seq<(FsPoolIdV, Seq<NsdV>)>,
    stats: Seq<(Seq<char>, Stat)>,
    acc: Seq<(FsPoolIdV, Stat)>,
) -> Result<Seq<(FsPoolIdV, Stat)>, ErrorSpec>
    decreases groups.len(),
{
    if groups.len() == 0 {
        Result::Ok(acc)
    } else {
        match spec_group_stat(groups[0].1, stats, spec_stat_zero()) {
            Result::Ok(s) => spec_pool_stats(
                groups.skip(1),
                stats,
                acc.push((groups[0].0, s)),
            ),
            Result::Err(e) => Result::Err(e),
        }
    }
}

/// The view of a device-statistics table.
pub open spec fn stats_view(stats: Seq<(String, Stat)>) -> Seq<(Seq<char>, Stat)> {
    stats.map_values(|p: (String, Stat)| (p.0@, p.1))
}

/// Block device counters summed per (filesystem, pool) group.
#[derive(Debug)]
pub struct PoolBlockDeviceMetrics {
    inner: Vec<(FsPoolId, Stat)>,
}

impl View for PoolBlockDeviceMetrics {
    type V = Seq<(FsPoolIdV, Stat)>;

    closed spec fn view(&self) -> Seq<(FsPoolIdV, Stat)> {
        self.inner@.map_values(|p: (FsPoolId, Stat)| (p.0@, p.1))
    }
}

impl PoolBlockDeviceMetrics {
    /// Returns the per-key sums, keys in group order.
    pub fn entries(&self) -> (r: &Vec<(FsPoolId, Stat)>)
        ensures
            r@.len() == self@.len(),
            forall|i: int|
                0 <= i < r@.len() ==> (#[trigger] r@[i].0)@ == self@[i].0 && r@[i].1
                    == self@[i].1,
    {
        &self.inner
    }
}

/// Sums the kernel's per-device counters over each (filesystem, pool)
/// group: each NSD's bare device name is looked up in `stats` and the
/// counters are added field-wise.  A device name that cannot be
/// extracted, a device with no entry, or a field sum past the counter
/// range aborts the whole aggregation.
pub fn pool_block_device_metrics(pooled: &ByPool, stats: &Vec<(String, Stat)>) -> (r: Result<
    PoolBlockDeviceMetrics,
    Error,
>)
    ensures
        match r {
            Result::Ok(m) => spec_pool_stats(pooled@, stats_view(stats@), Seq::empty())
                == Result::Ok::<Seq<(FsPoolIdV, Stat)>, ErrorSpec>(m@),
            Result::Err(e) => spec_pool_stats(pooled@, stats_view(stats@), Seq::empty())
                == Result::Err::<Seq<(FsPoolIdV, Stat)>, ErrorSpec>(e@),
        },
{
    let ghost pv = pooled@;
    let ghost sv = stats_view(stats@);
    let groups = pooled.groups();
    let mut out: Vec<(FsPoolId, Stat)> = Vec::new();
    proof {
        assert(pv.skip(0) =~= pv);
        assert(out@.map_values(|p: (FsPoolId, Stat)| (p.0@, p.1)) =~= Seq::<
            (FsPoolIdV, Stat),
        >::empty());
    }
    let mut gi: usize = 0;
    while gi < groups.len()
        invariant
            pv == pooled@,
            sv == stats_view(stats@),
            groups@.len() == pv.len(),
            forall|i: int|
                0 <= i < groups@.len() ==> (#[trigger] groups@[i].0)@ == pv[i].0 && groups@[i].1@
                    == pv[i].1,
            stats@.len() == sv.len(),
            0 <= gi <= groups.len(),
            spec_pool_stats(pv, sv, Seq::empty()) == spec_pool_stats(
                pv.skip(gi as int),
                sv,
                out@.map_values(|p: (FsPoolId, Stat)| (p.0@, p.1)),
            ),
        decreases groups.len() - gi,
    {
        let ghost outv = out@.map_values(|p: (FsPoolId, Stat)| (p.0@, p.1));
        proof {
            assert(pv.skip(gi as int)[0] == pv[gi as int]);
            assert(pv.skip(gi as int).skip(1) =~= pv.skip(gi as int + 1));
            assert(groups@[gi as int].0@ == pv[gi as int].0 && groups@[gi as int].1@
                == pv[gi as int].1);
        }
        let nsds: &Nsds = &groups[gi].1;
        let nsd_vec = nsds.iter();
        let ghost gv = pv[gi as int].1;
        let mut acc = Stat::zero();
        let mut ni: usize = 0;
        proof {
            assert(gv.skip(0) =~= gv);
        }
        while ni < nsd_vec.len()
            invariant
                pv == pooled@,
                sv == stats_view(stats@),
                stats@.len() == sv.len(),
                0 <= gi < pv.len(),
                gv == pv[gi as int].1,
                gv == nsd_vec.deep_view(),
                nsd_vec.len() == gv.len(),
                0 <= ni <= nsd_vec.len(),
                outv == out@.map_values(|p: (FsPoolId, Stat)| (p.0@, p.1)),
                spec_pool_stats(pv, sv, Seq::empty()) == spec_pool_stats(
                    pv.skip(gi as int),
                    sv,
                    outv,
                ),
                spec_group_stat(gv, sv, spec_stat_zero()) == spec_group_stat(
                    gv.skip(ni as int),
                    sv,
                    acc,
                ),
            decreases nsd_vec.len() - ni,
        {
            proof {
                assert(pv.skip(gi as int)[0] == pv[gi as int]);
            }
            proof {
                assert(gv.skip(ni as int)[0] == gv[ni as int]);
                assert(gv.skip(ni as int).skip(1) =~= gv.skip(ni as int + 1));
                assert(nsd_vec[ni as int].deep_view() == gv[ni as int]);
            }
            let nsd = &nsd_vec[ni];
            let name = suffix_after_last(nsd.device(), '/');
            if name.as_str().unicode_len() == 0 {
                let e = Error::BadDevicePath(nsd.device().to_owned());
                proof {
                    assert(spec_group_stat(gv.skip(ni as int), sv, acc) == Result::Err::<
                        Stat,
                        ErrorSpec,
                    >(e@));
                    assert(spec_pool_stats(pv.skip(gi as int), sv, outv) == Result::Err::<
                        Seq<(FsPoolIdV, Stat)>,
                        ErrorSpec,
                    >(e@));
                }
                return Result::Err(e);
            }
            // find the device's statistics entry
            let mut si: usize = 0;
            let mut s_found = false;
            while si < stats.len() && !s_found
                invariant
                    sv == stats_view(stats@),
                    stats@.len() == sv.len(),
                    0 <= si <= stats.len(),
                    !s_found ==> forall|l: int|
                        0 <= l < si ==> (#[trigger] sv[l]).0 != name@,
                    s_found ==> si < stats.len() && sv[si as int].0 == name@ && forall|l: int|
                        0 <= l < si ==> (#[trigger] sv[l]).0 != name@,
                decreases stats.len() - si + if s_found {
                    0int
                } else {
                    1int
                },
            {
                proof {
                    assert(sv[si as int] == (stats@[si as int].0@, stats@[si as int].1));
                }
                if str_eq(stats[si].0.as_str(), name.as_str()) {
                    s_found = true;
                } else {
                    si += 1;
                }
            }
            if !s_found {
                let e = Error::NoDeviceStat(nsd.device().to_owned());
                proof {
                    lemma_stat_ix_at(sv, name@, sv.len() as int);
                    assert(spec_group_stat(gv.skip(ni as int), sv, acc) == Result::Err::<
                        Stat,
                        ErrorSpec,
                    >(e@));
                    assert(spec_pool_stats(pv.skip(gi as int), sv, outv) == Result::Err::<
                        Seq<(FsPoolIdV, Stat)>,
                        ErrorSpec,
                    >(e@));
                }
                return Result::Err(e);
            }
            proof {
                lemma_stat_ix_at(sv, name@, si as int);
                assert(sv[si as int].1 == stats@[si as int].1);
            }
            match acc.checked_add(&stats[si].1) {
                Option::Some(next) => {
                    acc = next;
                },
                Option::None => {
                    let e = Error::CounterOverflow(nsd.device().to_owned());
                    proof {
                        assert(spec_group_stat(gv.skip(ni as int), sv, acc) == Result::Err::<
                            Stat,
                            ErrorSpec,
                        >(e@));
                        assert(spec_pool_stats(pv.skip(gi as int), sv, outv) == Result::Err::<
                            Seq<(FsPoolIdV, Stat)>,
                            ErrorSpec,
                        >(e@));
                    }
                    return Result::Err(e);
                },
            }
            ni += 1;
        }
        proof {
            assert(gv.skip(ni as int) =~= Seq::<NsdV>::empty());
        }
        let key = groups[gi].0.clone();
        let ghost old_out = out;
        out.push((key, acc));
        proof {
            assert(out@.map_values(|p: (FsPoolId, Stat)| (p.0@, p.1)) =~= outv.push(
                (pv[gi as int].0, acc),
            ));
        }
        gi += 1;
    }
    proof {
        assert(pv.skip(gi as int) =~= Seq::<(FsPoolIdV, Seq<NsdV>)>::empty());
    }
    Result::Ok(PoolBlockDeviceMetrics { inner: out })
}

} // verus!
