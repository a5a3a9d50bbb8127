//! Disk-group text for the performance monitor: one line per
//! (filesystem, pool) group, `fs-pool` followed by the group's bare
//! device names.

use crate::nsd::ByPool;
use crate::nsd::FsPoolIdV;
use crate::nsd::NsdV;
use crate::text::after_last;
use crate::text::suffix_after_last;
use vstd::prelude::*;

verus! {

/// The nonempty-name test, as a named predicate.
pub open spec fn nonempty_name() -> spec_fn(Seq<char>) -> bool {
    |c: Seq<char>| c.len() > 0
}

/// The bare device names of a group's NSDs, in order.  An NSD whose
/// path yields no final component contributes no name.
pub open spec fn spec_device_names(nsds: Seq<NsdV>) -> Seq<Seq<char>> {
    nsds.map_values(|n: NsdV| after_last(n.device, '/')).filter(nonempty_name())
}

/// The parts joined by single spaces.
pub open spec fn spec_join_space(parts: Seq<Seq<char>>) -> Seq<char>
    decreases parts.len(),
{
    if parts.len() == 0 {
        Seq::empty()
    } else if parts.len() == 1 {
        parts[0]
    } else {
        spec_join_space(parts.drop_last()) + seq![' '] + parts.last()
    }
}

/// One group's line: the key as `fs-pool`, a space, the device names.
pub open spec fn spec_nmon_line(k: FsPoolIdV, nsds: Seq<NsdV>) -> Seq<char> {
    k.fs + seq!['-'] + k.pool + seq![' '] + spec_join_space(spec_device_names(nsds)) + seq!['\n']
}

/// The whole text, one line per group in order.
pub open spec fn spec_nmon_text(groups: Seq<(FsPoolIdV, Seq<NsdV>)>) -> Seq<char>
    decreases groups.len(),
{
    if groups.len() == 0 {
        Seq::empty()
    } else {
        spec_nmon_text(groups.drop_last()) + spec_nmon_line(
            groups.last().0,
            groups.last().1,
        )
    }
}

/// Renders the performance monitor's disk groups: one `fs-pool` line
/// per group, each followed by the group's bare device names.  An NSD
/// whose device path has no final component is left out of its line.
pub fn by_pool(pooled: &ByPool) -> (r: String)
    ensures
        r@ == spec_nmon_text(pooled@),
{
    let ghost pv = pooled@;
    let groups = pooled.groups();
    let mut out = String::new();
    proof {
        assert(pv.take(0) =~= Seq::<(FsPoolIdV, Seq<NsdV>)>::empty());
        assert(out@ =~= spec_nmon_text(pv.take(0)));
    }
    let mut gi: usize = 0;
    while gi < groups.len()
        invariant
            pv == pooled@,
            groups@.len() == pv.len(),
            forall|i: int|
                0 <= i < groups@.len() ==> (#[trigger] groups@[i].0)@ == pv[i].0 && groups@[i].1@
                    == pv[i].1,
            0 <= gi <= groups.len(),
            out@ == spec_nmon_text(pv.take(gi as int)),
        decreases groups.len() - gi,
    {
        proof {
            assert(pv.take(gi as int + 1).drop_last() =~= pv.take(gi as int));
            assert(pv.take(gi as int + 1).last() == pv[gi as int]);
            assert(groups@[gi as int].0@ == pv[gi as int].0 && groups@[gi as int].1@
                == pv[gi as int].1);
        }
        let id = &groups[gi].0;
        let nsd_vec = groups[gi].1.iter();
        let ghost gv = pv[gi as int].1;
        let mut devices = String::new();
        let mut first = true;
        let mut ni: usize = 0;
        proof {
            reveal(Seq::filter);
            assert(gv.take(0) =~= Seq::<NsdV>::empty());
            assert(gv.take(0).map_values(|n: NsdV| after_last(n.device, '/')) =~= Seq::<
                Seq<char>,
            >::empty());
            assert(devices@ =~= spec_join_space(spec_device_names(gv.take(0))));
        }
        while ni < nsd_vec.len()
            invariant
                gv == nsd_vec.deep_view(),
                nsd_vec.len() == gv.len(),
                0 <= ni <= nsd_vec.len(),
                first == (spec_device_names(gv.take(ni as int)).len() == 0),
                devices@ == spec_join_space(spec_device_names(gv.take(ni as int))),
            decreases nsd_vec.len() - ni,
        {
            let ghost names = spec_device_names(gv.take(ni as int));
            proof {
                assert(nsd_vec[ni as int].deep_view() == gv[ni as int]);
                let m0 = gv.take(ni as int).map_values(|n: NsdV| after_last(n.device, '/'));
                let m1 = gv.take(ni as int + 1).map_values(|n: NsdV| after_last(n.device, '/'));
                assert(m1.drop_last() =~= m0);
                assert(m1.last() == after_last(gv[ni as int].device, '/'));
            }
            let name = suffix_after_last(nsd_vec[ni].device(), '/');
            if name.as_str().unicode_len() > 0 {
                proof {
                    reveal(Seq::filter);
                    assert(spec_device_names(gv.take(ni as int + 1)) == names.push(name@));
                }
                if first {
                    devices.append(name.as_str());
                    first = false;
                    proof {
                        assert(names.push(name@).len() == 1);
                        assert(devices@ =~= spec_join_space(names.push(name@)));
                    }
                } else {
                    devices.append(" ");
                    devices.append(name.as_str());
                    proof {
                        reveal_strlit(" ");
                        assert(" "@ =~= seq![' ']);
                        assert(names.push(name@).drop_last() =~= names);
                        assert(devices@ =~= spec_join_space(names.push(name@)));
                    }
                }
            } else {
                proof {
                    reveal(Seq::filter);
                    assert(spec_device_names(gv.take(ni as int + 1)) == names);
                }
            }
            ni += 1;
        }
        proof {
            assert(gv.take(ni as int) =~= gv);
        }
        out.append(id.fs());
        out.append("-");
        out.append(id.pool());
        out.append(" ");
        out.append(devices.as_str());
        out.append("\n");
        proof {
            reveal_strlit("-");
            reveal_strlit(" ");
            reveal_strlit("\n");
            assert("-"@ =~= seq!['-']);
            assert(" "@ =~= seq![' ']);
            assert("\n"@ =~= seq!['\n']);
            assert(out@ =~= spec_nmon_text(pv.take(gi as int + 1)));
        }
        gi += 1;
    }
    proof {
        assert(pv.take(gi as int) =~= pv);
    }
    out
}

} // verus!
