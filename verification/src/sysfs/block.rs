//! Block-device statistics: the kernel's per-device counter snapshot,
//! eleven white-space-separated unsigned integers in a fixed order, and
//! their field-wise summation.

use crate::error::Error;
use crate::error::ErrorSpec;
use crate::text::parse_u64;
use crate::text::spec_parse_u64;
use crate::text::spec_split;
use crate::text::spec_trim;
use crate::text::split_char;
use crate::text::trim_of;
use crate::text::is_ws;
use vstd::prelude::*;
use vstd::seq_lib::group_seq_properties;

verus! {

/// Block device statistics.  Time values are in milliseconds.
#[derive(Copy, Clone, Eq, PartialEq, Structural, Debug)]
pub struct Stat {
    /// The number of read I/Os processed.
    pub read_ios: u64,
    /// The number of read I/Os merged with in-queue I/O.
    pub read_merges: u64,
    /// The number of sectors read.
    pub read_sectors: u64,
    /// The total wait time for read requests.
    pub read_ticks: u64,
    /// The number of write I/Os processed.
    pub write_ios: u64,
    /// The number of write I/Os merged with in-queue I/O.
    pub write_merges: u64,
    /// The number of sectors written.
    pub write_sectors: u64,
    /// The total wait time for write requests.
    pub write_ticks: u64,
    /// The number of I/Os currently in flight.
    pub in_flight: u64,
    /// The total time this block device has been active.
    pub io_ticks: u64,
    /// The total wait time for all requests.
    pub time_in_queue: u64,
}

/// The all-zero snapshot.
pub open spec fn spec_stat_zero() -> Stat {
    Stat {
        read_ios: 0,
        read_merges: 0,
        read_sectors: 0,
        read_ticks: 0,
        write_ios: 0,
        write_merges: 0,
        write_sectors: 0,
        write_ticks: 0,
        in_flight: 0,
        io_ticks: 0,
        time_in_queue: 0,
    }
}

/// The unbounded field-wise totals of a set of snapshots.
#[verifier::ext_equal]
pub struct StatTotals {
    pub read_ios: int,
    pub read_merges: int,
    pub read_sectors: int,
    pub read_ticks: int,
    pub write_ios: int,
    pub write_merges: int,
    pub write_sectors: int,
    pub write_ticks: int,
    pub in_flight: int,
    pub io_ticks: int,
    pub time_in_queue: int,
}

/// The all-zero totals.
pub open spec fn spec_totals_zero() -> StatTotals {
    StatTotals {
        read_ios: 0,
        read_merges: 0,
        read_sectors: 0,
        read_ticks: 0,
        write_ios: 0,
        write_merges: 0,
        write_sectors: 0,
        write_ticks: 0,
        in_flight: 0,
        io_ticks: 0,
        time_in_queue: 0,
    }
}

/// Field-wise addition of one snapshot into running totals.
pub open spec fn spec_totals_push(t: StatTotals, s: Stat) -> StatTotals {
    StatTotals {
        read_ios: t.read_ios + s.read_ios,
        read_merges: t.read_merges + s.read_merges,
        read_sectors: t.read_sectors + s.read_sectors,
        read_ticks: t.read_ticks + s.read_ticks,
        write_ios: t.write_ios + s.write_ios,
        write_merges: t.write_merges + s.write_merges,
        write_sectors: t.write_sectors + s.write_sectors,
        write_ticks: t.write_ticks + s.write_ticks,
        in_flight: t.in_flight + s.in_flight,
        io_ticks: t.io_ticks + s.io_ticks,
        time_in_queue: t.time_in_queue + s.time_in_queue,
    }
}

/// Field-wise addition of two totals.
pub open spec fn spec_totals_add(a: StatTotals, b: StatTotals) -> StatTotals {
    StatTotals {
        read_ios: a.read_ios + b.read_ios,
        read_merges: a.read_merges + b.read_merges,
        read_sectors: a.read_sectors + b.read_sectors,
        read_ticks: a.read_ticks + b.read_ticks,
        write_ios: a.write_ios + b.write_ios,
        write_merges: a.write_merges + b.write_merges,
        write_sectors: a.write_sectors + b.write_sectors,
        write_ticks: a.write_ticks + b.write_ticks,
        in_flight: a.in_flight + b.in_flight,
        io_ticks: a.io_ticks + b.io_ticks,
        time_in_queue: a.time_in_queue + b.time_in_queue,
    }
}

/// The field-wise sum of a sequence of snapshots, over the unbounded
/// integers.
pub open spec fn spec_stat_totals(s: Seq<Stat>) -> StatTotals
    decreases s.len(),
{
    if s.len() == 0 {
        spec_totals_zero()
    } else {
        spec_totals_push(spec_stat_totals(s.drop_last()), s.last())
    }
}

/// Whether totals fit the 64-bit counters.
pub open spec fn spec_totals_fit(t: StatTotals) -> bool {
    t.read_ios <= u64::MAX && t.read_merges <= u64::MAX && t.read_sectors <= u64::MAX
        && t.read_ticks <= u64::MAX && t.write_ios <= u64::MAX && t.write_merges <= u64::MAX
        && t.write_sectors <= u64::MAX && t.write_ticks <= u64::MAX && t.in_flight <= u64::MAX
        && t.io_ticks <= u64::MAX && t.time_in_queue <= u64::MAX
}

/// Whether a snapshot holds exactly the given totals.
pub open spec fn spec_stat_is_totals(s: Stat, t: StatTotals) -> bool {
    s.read_ios == t.read_ios && s.read_merges == t.read_merges && s.read_sectors == t.read_sectors
        && s.read_ticks == t.read_ticks && s.write_ios == t.write_ios && s.write_merges
        == t.write_merges && s.write_sectors == t.write_sectors && s.write_ticks == t.write_ticks
        && s.in_flight == t.in_flight && s.io_ticks == t.io_ticks && s.time_in_queue
        == t.time_in_queue
}

/// Summing the empty set of snapshots yields the zero totals.
pub proof fn lemma_stat_totals_empty()
    ensures
        spec_stat_totals(Seq::<Stat>::empty()) == spec_totals_zero(),
{
}

/// Field-wise summation distributes over concatenation: the sum of two
/// runs of snapshots, one after the other, is the field-wise sum of
/// their sums.  With the commutativity of [`spec_totals_add`] this says
/// the total is the same whichever run is taken first.
pub proof fn lemma_stat_totals_append(a: Seq<Stat>, b: Seq<Stat>)
    ensures
        spec_stat_totals(a + b) == spec_totals_add(spec_stat_totals(a), spec_stat_totals(b)),
    decreases b.len(),
{
    if b.len() == 0 {
        assert(a + b =~= a);
        assert(spec_totals_add(spec_stat_totals(a), spec_totals_zero()) =~= spec_stat_totals(a));
    } else {
        lemma_stat_totals_append(a, b.drop_last());
        assert((a + b).drop_last() =~= a + b.drop_last());
        assert((a + b).last() == b.last());
        assert(spec_totals_add(spec_stat_totals(a), spec_stat_totals(b)) =~= spec_totals_push(
            spec_totals_add(spec_stat_totals(a), spec_stat_totals(b.drop_last())),
            b.last(),
        ));
    }
}

/// Field-wise addition of totals is commutative.
pub proof fn lemma_totals_add_commutes(a: StatTotals, b: StatTotals)
    ensures
        spec_totals_add(a, b) == spec_totals_add(b, a),
{
    assert(spec_totals_add(a, b) =~= spec_totals_add(b, a));
}

/// Field-wise addition of totals is associative.
pub proof fn lemma_totals_add_associates(a: StatTotals, b: StatTotals, c: StatTotals)
    ensures
        spec_totals_add(spec_totals_add(a, b), c) == spec_totals_add(a, spec_totals_add(b, c)),
{
    assert(spec_totals_add(spec_totals_add(a, b), c) =~= spec_totals_add(
        a,
        spec_totals_add(b, c),
    ));
}

/// Removing one snapshot takes exactly its fields out of the sum.
pub proof fn lemma_stat_totals_remove(s: Seq<Stat>, j: int)
    requires
        0 <= j < s.len(),
    ensures
        spec_stat_totals(s) == spec_totals_push(spec_stat_totals(s.remove(j)), s[j]),
    decreases s.len(),
{
    if j == s.len() - 1 {
        assert(s.remove(j) =~= s.drop_last());
    } else {
        lemma_stat_totals_remove(s.drop_last(), j);
        assert(s.remove(j).drop_last() =~= s.drop_last().remove(j));
        assert(s.remove(j).last() == s.last());
        assert(spec_totals_push(spec_stat_totals(s.remove(j)), s[j]) =~= spec_totals_push(
            spec_totals_push(spec_stat_totals(s.drop_last().remove(j)), s[j]),
            s.last(),
        ));
    }
}

/// Summing a set of per-device snapshots yields the same totals in any
/// order: two sequences with the same snapshots, however arranged, sum
/// field-wise to the same totals.
pub proof fn lemma_stat_totals_permutation(a: Seq<Stat>, b: Seq<Stat>)
    requires
        a.to_multiset() == b.to_multiset(),
    ensures
        spec_stat_totals(a) == spec_stat_totals(b),
    decreases a.len(),
{
    broadcast use group_seq_properties;

    if a.len() == 0 {
        assert(b.to_multiset().len() == 0);
        assert(b.len() == 0);
    } else {
        let x = a.last();
        assert(a.to_multiset().count(x) > 0) by {
            assert(a.contains(x));
        }
        assert(b.to_multiset().count(x) > 0);
        assert(b.contains(x));
        let j = choose|j: int| 0 <= j < b.len() && b[j] == x;
        lemma_stat_totals_remove(b, j);
        assert(a.drop_last() =~= a.remove(a.len() - 1));
        lemma_stat_totals_remove(a, a.len() - 1);
        assert(a.remove(a.len() - 1).to_multiset() =~= a.to_multiset().remove(x));
        assert(b.remove(j).to_multiset() =~= b.to_multiset().remove(x));
        lemma_stat_totals_permutation(a.drop_last(), b.remove(j));
    }
}

/// The field names of the snapshot file, in order.
pub open spec fn spec_stat_field_name(k: int) -> Seq<char> {
    if k == 0 {
        "read I/Os"@
    } else if k == 1 {
        "read merges"@
    } else if k == 2 {
        "read sectors"@
    } else if k == 3 {
        "read ticks"@
    } else if k == 4 {
        "write I/Os"@
    } else if k == 5 {
        "write merges"@
    } else if k == 6 {
        "write sectors"@
    } else if k == 7 {
        "write ticks"@
    } else if k == 8 {
        "in flight"@
    } else if k == 9 {
        "I/O ticks"@
    } else {
        "time in queue"@
    }
}

/// Whether a token holds a character outside the white-space class.
pub open spec fn has_non_ws(t: Seq<char>) -> bool {
    exists|i: int| 0 <= i < t.len() && !is_ws(t[i])
}

/// The blank-token test, as a named predicate.
pub open spec fn nonblank_ws() -> spec_fn(Seq<char>) -> bool {
    |t: Seq<char>| has_non_ws(t)
}

/// The value tokens of a snapshot file: the trimmed text split at
/// spaces, blank tokens dropped.
pub open spec fn spec_stat_fields(s: Seq<char>) -> Seq<Seq<char>> {
    spec_split(spec_trim(s), ' ').filter(nonblank_ws())
}

/// The value of field `k`, or the failure naming it: missing when the
/// file has no `k`-th token, bad when the token is not an unsigned
/// decimal.
pub open spec fn spec_stat_field(f: Seq<Seq<char>>, k: int) -> Result<u64, ErrorSpec> {
    if f.len() <= k {
        Result::Err(ErrorSpec::MissingColumn(spec_stat_field_name(k)))
    } else {
        match spec_parse_u64(f[k]) {
            Option::Some(v) => Result::Ok(v),
            Option::None => Result::Err(ErrorSpec::BadValue(spec_stat_field_name(k), f[k])),
        }
    }
}

/// The decode of a whole snapshot file: the first eleven value tokens,
/// each an unsigned decimal, in the kernel's fixed order.
pub open spec fn spec_stat_from_text(s: Seq<char>) -> Result<Stat, ErrorSpec> {
    let f = spec_stat_fields(s);
    match spec_stat_field(f, 0) {
        Result::Err(e) => Result::Err(e),
        Result::Ok(read_ios) => match spec_stat_field(f, 1) {
            Result::Err(e) => Result::Err(e),
            Result::Ok(read_merges) => match spec_stat_field(f, 2) {
                Result::Err(e) => Result::Err(e),
                Result::Ok(read_sectors) => match spec_stat_field(f, 3) {
                    Result::Err(e) => Result::Err(e),
                    Result::Ok(read_ticks) => match spec_stat_field(f, 4) {
                        Result::Err(e) => Result::Err(e),
                        Result::Ok(write_ios) => match spec_stat_field(f, 5) {
                            Result::Err(e) => Result::Err(e),
                            Result::Ok(write_merges) => match spec_stat_field(f, 6) {
                                Result::Err(e) => Result::Err(e),
                                Result::Ok(write_sectors) => match spec_stat_field(f, 7) {
                                    Result::Err(e) => Result::Err(e),
                                    Result::Ok(write_ticks) => match spec_stat_field(f, 8) {
                                        Result::Err(e) => Result::Err(e),
                                        Result::Ok(in_flight) => match spec_stat_field(f, 9) {
                                            Result::Err(e) => Result::Err(e),
                                            Result::Ok(io_ticks) => match spec_stat_field(f, 10) {
                                                Result::Err(e) => Result::Err(e),
                                                Result::Ok(time_in_queue) => Result::Ok(
                                                    Stat {
                                                        read_ios,
                                                        read_merges,
                                                        read_sectors,
                                                        read_ticks,
                                                        write_ios,
                                                        write_merges,
                                                        write_sectors,
                                                        write_ticks,
                                                        in_flight,
                                                        io_ticks,
                                                        time_in_queue,
                                                    },
                                                ),
                                            },
                                        },
                                    },
                                },
                            },
                        },
                    },
                },
            },
        },
    }
}

/// Splits a snapshot file into its value tokens.
fn stat_fields(s: &str) -> (r: Vec<String>)
    ensures
        r.deep_view() == spec_stat_fields(s@),
{
    let trimmed = trim_of(s);
    let parts = split_char(trimmed.as_str(), ' ');
    let ghost pv = parts.deep_view();
    let mut r: Vec<String> = Vec::new();
    proof {
        reveal(Seq::filter);
        assert(pv.take(0) =~= Seq::<Seq<char>>::empty());
        assert(r.deep_view() =~= pv.take(0).filter(nonblank_ws()));
    }
    let mut i: usize = 0;
    while i < parts.len()
        invariant
            pv == parts.deep_view(),
            pv == spec_split(spec_trim(s@), ' '),
            parts.len() == pv.len(),
            0 <= i <= parts.len(),
            r.deep_view() == pv.take(i as int).filter(nonblank_ws()),
        decreases parts.len() - i,
    {
        proof {
            assert(pv.take(i as int + 1).drop_last() =~= pv.take(i as int));
            assert(pv.take(i as int + 1).last() == pv[i as int]);
            assert(parts[i as int].deep_view() == pv[i as int]);
        }
        let p = &parts[i];
        let pn = p.as_str().unicode_len();
        let mut keep = false;
        let mut j: usize = 0;
        while j < pn
            invariant
                pn == p@.len(),
                0 <= j <= pn,
                keep == exists|k: int| 0 <= k < j && !is_ws(p@[k]),
            decreases pn - j,
        {
            let c = p.as_str().get_char(j);
            if !(c == ' ' || c == '\t' || c == '\n' || c == '\r') {
                keep = true;
            }
            j += 1;
        }
        proof {
            assert(p@ == pv[i as int]);
            assert(keep == has_non_ws(pv[i as int]));
        }
        if keep {
            let ghost old_r = r;
            r.push(p.clone());
            proof {
                reveal(Seq::filter);
                assert(r.deep_view() =~= old_r.deep_view().push(pv[i as int]));
                assert(pv.take(i as int + 1).filter(nonblank_ws()) == pv.take(i as int).filter(
                    nonblank_ws(),
                ).push(pv[i as int]));
            }
        } else {
            proof {
                reveal(Seq::filter);
                assert(pv.take(i as int + 1).filter(nonblank_ws()) == pv.take(i as int).filter(
                    nonblank_ws(),
                ));
            }
        }
        i += 1;
    }
    proof {
        assert(pv.take(i as int) =~= pv);
    }
    r
}

/// Reads value token `k` of a snapshot file.
fn stat_field(f: &Vec<String>, k: usize, name: &str) -> (r: Result<u64, Error>)
    requires
        name@ == spec_stat_field_name(k as int),
    ensures
        match r {
            Result::Ok(v) => spec_stat_field(f.deep_view(), k as int) == Result::Ok::<
                u64,
                ErrorSpec,
            >(v),
            Result::Err(e) => spec_stat_field(f.deep_view(), k as int) == Result::Err::<
                u64,
                ErrorSpec,
            >(e@),
        },
{
    if f.len() <= k {
        return Result::Err(Error::MissingColumn(name.to_owned()));
    }
    proof {
        assert(f.deep_view()[k as int] == f[k as int]@);
    }
    match parse_u64(f[k].as_str()) {
        Option::Some(v) => Result::Ok(v),
        Option::None => Result::Err(Error::BadValue(name.to_owned(), f[k].clone())),
    }
}

impl Stat {
    /// The all-zero snapshot.
    pub fn zero() -> (r: Stat)
        ensures
            r == spec_stat_zero(),
    {
        Stat {
            read_ios: 0,
            read_merges: 0,
            read_sectors: 0,
            read_ticks: 0,
            write_ios: 0,
            write_merges: 0,
            write_sectors: 0,
            write_ticks: 0,
            in_flight: 0,
            io_ticks: 0,
            time_in_queue: 0,
        }
    }

    /// Decodes one snapshot file: eleven unsigned integers separated by
    /// white space, surrounding white space ignored, further fields (as
    /// newer kernels append them) ignored.
    pub fn parse(input: &str) -> (r: Result<Stat, Error>)
        ensures
            match r {
                Result::Ok(s) => spec_stat_from_text(input@) == Result::Ok::<Stat, ErrorSpec>(s),
                Result::Err(e) => spec_stat_from_text(input@) == Result::Err::<Stat, ErrorSpec>(
                    e@,
                ),
            },
    {
        let f = stat_fields(input);
        let read_ios = match stat_field(&f, 0, "read I/Os") {
            Result::Ok(v) => v,
            Result::Err(e) => { return Result::Err(e) },
        };
        let read_merges = match stat_field(&f, 1, "read merges") {
            Result::Ok(v) => v,
            Result::Err(e) => { return Result::Err(e) },
        };
        let read_sectors = match stat_field(&f, 2, "read sectors") {
            Result::Ok(v) => v,
            Result::Err(e) => { return Result::Err(e) },
        };
        let read_ticks = match stat_field(&f, 3, "read ticks") {
            Result::Ok(v) => v,
            Result::Err(e) => { return Result::Err(e) },
        };
        let write_ios = match stat_field(&f, 4, "write I/Os") {
            Result::Ok(v) => v,
            Result::Err(e) => { return Result::Err(e) },
        };
        let write_merges = match stat_field(&f, 5, "write merges") {
            Result::Ok(v) => v,
            Result::Err(e) => { return Result::Err(e) },
        };
        let write_sectors = match stat_field(&f, 6, "write sectors") {
            Result::Ok(v) => v,
            Result::Err(e) => { return Result::Err(e) },
        };
        let write_ticks = match stat_field(&f, 7, "write ticks") {
            Result::Ok(v) => v,
            Result::Err(e) => { return Result::Err(e) },
        };
        let in_flight = match stat_field(&f, 8, "in flight") {
            Result::Ok(v) => v,
            Result::Err(e) => { return Result::Err(e) },
        };
        let io_ticks = match stat_field(&f, 9, "I/O ticks") {
            Result::Ok(v) => v,
            Result::Err(e) => { return Result::Err(e) },
        };
        let time_in_queue = match stat_field(&f, 10, "time in queue") {
            Result::Ok(v) => v,
            Result::Err(e) => { return Result::Err(e) },
        };
        Result::Ok(
            Stat {
                read_ios,
                read_merges,
                read_sectors,
                read_ticks,
                write_ios,
                write_merges,
                write_sectors,
                write_ticks,
                in_flight,
                io_ticks,
                time_in_queue,
            },
        )
    }

    /// Returns the total amount of bytes read, at 512 bytes a sector.
    pub fn read_bytes(&self) -> (r: u64)
        requires
            self.read_sectors * 512 <= u64::MAX,
        ensures
            r == self.read_sectors * 512,
    {
        self.read_sectors * 512
    }

    /// Returns the total amount of bytes written, at 512 bytes a sector.
    pub fn write_bytes(&self) -> (r: u64)
        requires
            self.write_sectors * 512 <= u64::MAX,
        ensures
            r == self.write_sectors * 512,
    {
        self.write_sectors * 512
    }

    /// Field-wise addition, absent when any field would leave the
    /// 64-bit range.
    pub fn checked_add(&self, other: &Stat) -> (r: Option<Stat>)
        ensures
            r == if spec_stat_add_fits(*self, *other) {
                Option::Some(spec_stat_sum2(*self, *other))
            } else {
                Option::<Stat>::None
            },
    {
        let read_ios = match self.read_ios.checked_add(other.read_ios) {
            Option::Some(v) => v,
            Option::None => { return Option::None },
        };
        let read_merges = match self.read_merges.checked_add(other.read_merges) {
            Option::Some(v) => v,
            Option::None => { return Option::None },
        };
        let read_sectors = match self.read_sectors.checked_add(other.read_sectors) {
            Option::Some(v) => v,
            Option::None => { return Option::None },
        };
        let read_ticks = match self.read_ticks.checked_add(other.read_ticks) {
            Option::Some(v) => v,
            Option::None => { return Option::None },
        };
        let write_ios = match self.write_ios.checked_add(other.write_ios) {
            Option::Some(v) => v,
            Option::None => { return Option::None },
        };
        let write_merges = match self.write_merges.checked_add(other.write_merges) {
            Option::Some(v) => v,
            Option::None => { return Option::None },
        };
        let write_sectors = match self.write_sectors.checked_add(other.write_sectors) {
            Option::Some(v) => v,
            Option::None => { return Option::None },
        };
        let write_ticks = match self.write_ticks.checked_add(other.write_ticks) {
            Option::Some(v) => v,
            Option::None => { return Option::None },
        };
        let in_flight = match self.in_flight.checked_add(other.in_flight) {
            Option::Some(v) => v,
            Option::None => { return Option::None },
        };
        let io_ticks = match self.io_ticks.checked_add(other.io_ticks) {
            Option::Some(v) => v,
            Option::None => { return Option::None },
        };
        let time_in_queue = match self.time_in_queue.checked_add(other.time_in_queue) {
            Option::Some(v) => v,
            Option::None => { return Option::None },
        };
        Option::Some(
            Stat {
                read_ios,
                read_merges,
                read_sectors,
                read_ticks,
                write_ios,
                write_merges,
                write_sectors,
                write_ticks,
                in_flight,
                io_ticks,
                time_in_queue,
            },
        )
    }
}

/// Whether the field-wise sum of two snapshots fits the counters.
pub open spec fn spec_stat_add_fits(a: Stat, b: Stat) -> bool {
    a.read_ios + b.read_ios <= u64::MAX && a.read_merges + b.read_merges <= u64::MAX
        && a.read_sectors + b.read_sectors <= u64::MAX && a.read_ticks + b.read_ticks <= u64::MAX
        && a.write_ios + b.write_ios <= u64::MAX && a.write_merges + b.write_merges <= u64::MAX
        && a.write_sectors + b.write_sectors <= u64::MAX && a.write_ticks + b.write_ticks
        <= u64::MAX && a.in_flight + b.in_flight <= u64::MAX && a.io_ticks + b.io_ticks <= u64::MAX
        && a.time_in_queue + b.time_in_queue <= u64::MAX
}

/// The field-wise sum of two snapshots, when it fits.
pub open spec fn spec_stat_sum2(a: Stat, b: Stat) -> Stat {
    Stat {
        read_ios: (a.read_ios + b.read_ios) as u64,
        read_merges: (a.read_merges + b.read_merges) as u64,
        read_sectors: (a.read_sectors + b.read_sectors) as u64,
        read_ticks: (a.read_ticks + b.read_ticks) as u64,
        write_ios: (a.write_ios + b.write_ios) as u64,
        write_merges: (a.write_merges + b.write_merges) as u64,
        write_sectors: (a.write_sectors + b.write_sectors) as u64,
        write_ticks: (a.write_ticks + b.write_ticks) as u64,
        in_flight: (a.in_flight + b.in_flight) as u64,
        io_ticks: (a.io_ticks + b.io_ticks) as u64,
        time_in_queue: (a.time_in_queue + b.time_in_queue) as u64,
    }
}

/// Totals never shrink as snapshots are appended.
proof fn lemma_stat_totals_prefix(s: Seq<Stat>, j: int)
    requires
        0 <= j <= s.len(),
    ensures
        spec_stat_totals(s.take(j)).read_ios <= spec_stat_totals(s).read_ios,
        spec_stat_totals(s.take(j)).read_merges <= spec_stat_totals(s).read_merges,
        spec_stat_totals(s.take(j)).read_sectors <= spec_stat_totals(s).read_sectors,
        spec_stat_totals(s.take(j)).read_ticks <= spec_stat_totals(s).read_ticks,
        spec_stat_totals(s.take(j)).write_ios <= spec_stat_totals(s).write_ios,
        spec_stat_totals(s.take(j)).write_merges <= spec_stat_totals(s).write_merges,
        spec_stat_totals(s.take(j)).write_sectors <= spec_stat_totals(s).write_sectors,
        spec_stat_totals(s.take(j)).write_ticks <= spec_stat_totals(s).write_ticks,
        spec_stat_totals(s.take(j)).in_flight <= spec_stat_totals(s).in_flight,
        spec_stat_totals(s.take(j)).io_ticks <= spec_stat_totals(s).io_ticks,
        spec_stat_totals(s.take(j)).time_in_queue <= spec_stat_totals(s).time_in_queue,
    decreases s.len() - j,
{
    if j == s.len() {
        assert(s.take(j) =~= s);
    } else {
        assert(s.take(j + 1).drop_last() =~= s.take(j));
        assert(s.take(j + 1).last() == s[j]);
        lemma_stat_totals_prefix(s, j + 1);
    }
}

/// Sums snapshots field-wise, absent exactly when some field's total
/// leaves the 64-bit range.
pub fn sum(stats: &Vec<Stat>) -> (r: Option<Stat>)
    ensures
        match r {
            Option::Some(t) => spec_totals_fit(spec_stat_totals(stats@)) && spec_stat_is_totals(
                t,
                spec_stat_totals(stats@),
            ),
            Option::None => !spec_totals_fit(spec_stat_totals(stats@)),
        },
{
    let mut acc = Stat::zero();
    let mut i: usize = 0;
    proof {
        assert(stats@.take(0) =~= Seq::<Stat>::empty());
    }
    while i < stats.len()
        invariant
            0 <= i <= stats.len(),
            spec_stat_is_totals(acc, spec_stat_totals(stats@.take(i as int))),
        decreases stats.len() - i,
    {
        proof {
            assert(stats@.take(i as int + 1).drop_last() =~= stats@.take(i as int));
            assert(stats@.take(i as int + 1).last() == stats@[i as int]);
        }
        match acc.checked_add(&stats[i]) {
            Option::Some(next) => {
                acc = next;
            },
            Option::None => {
                proof {
                    lemma_stat_totals_prefix(stats@, i as int + 1);
                }
                return Option::None;
            },
        }
        i += 1;
    }
    proof {
        assert(stats@.take(i as int) =~= stats@);
    }
    Option::Some(acc)
}

} // verus!
