//! Pool-based user distribution: the tally of the policy scan's list
//! output.  Each list line's fifth space-separated field is a payload
//! `user:file-size:kb-allocated`; the tally sums the sizes per user and
//! counts one file per line.

use crate::error::Error;
use crate::error::ErrorSpec;
use crate::text::first_ix;
use crate::text::lines_of;
use crate::text::parse_u64;
use crate::text::spec_lines;
use crate::text::spec_parse_u64;
use crate::text::spec_split;
use crate::text::split_char;
use crate::text::split_once_char;
use crate::text::str_eq;
use vstd::prelude::*;

verus! {

/// Per-user totals collected via policy.
#[derive(Copy, Clone, Eq, PartialEq, Ord, PartialOrd, Structural, Debug)]
pub struct Summary {
    /// The number of files.
    pub files: u64,
    /// The file size in bytes.
    pub file_size: u64,
    /// The allocated disk space in kilobytes.
    pub kb_allocated: u64,
}

/// Whether the field-wise sum of two summaries fits the counters.
pub open spec fn spec_summary_add_fits(a: Summary, b: Summary) -> bool {
    a.files + b.files <= u64::MAX && a.file_size + b.file_size <= u64::MAX && a.kb_allocated
        + b.kb_allocated <= u64::MAX
}

/// The field-wise sum of two summaries, when it fits.
pub open spec fn spec_summary_add(a: Summary, b: Summary) -> Summary {
    Summary {
        files: (a.files + b.files) as u64,
        file_size: (a.file_size + b.file_size) as u64,
        kb_allocated: (a.kb_allocated + b.kb_allocated) as u64,
    }
}

impl Summary {
    /// Field-wise addition, absent when any field would leave the
    /// 64-bit range.
    pub fn checked_add(&self, other: &Summary) -> (r: Option<Summary>)
        ensures
            r == if spec_summary_add_fits(*self, *other) {
                Option::Some(spec_summary_add(*self, *other))
            } else {
                Option::<Summary>::None
            },
    {
        let files = match self.files.checked_add(other.files) {
            Option::Some(v) => v,
            Option::None => { return Option::None },
        };
        let file_size = match self.file_size.checked_add(other.file_size) {
            Option::Some(v) => v,
            Option::None => { return Option::None },
        };
        let kb_allocated = match self.kb_allocated.checked_add(other.kb_allocated) {
            Option::Some(v) => v,
            Option::None => { return Option::None },
        };
        Option::Some(Summary { files, file_size, kb_allocated })
    }
}

/// The position of user `u` in the tally, or its length if absent.
pub open spec fn user_ix(m: Seq<(Seq<char>, Summary)>, u: Seq<char>) -> int
    decreases m.len(),
{
    if m.len() == 0 {
        0
    } else if m[0].0 == u {
        0
    } else {
        1 + user_ix(m.skip(1), u)
    }
}

proof fn lemma_user_ix_at(m: Seq<(Seq<char>, Summary)>, u: Seq<char>, j: int)
    requires
        0 <= j <= m.len(),
        forall|l: int| 0 <= l < j ==> (#[trigger] m[l]).0 != u,
        j < m.len() ==> m[j].0 == u,
    ensures
        user_ix(m, u) == j,
    decreases j,
{
    if j == 0 {
    } else {
        let t = m.skip(1);
        assert(forall|l: int| 0 <= l < j - 1 ==> (#[trigger] t[l]) == m[l + 1]);
        if j - 1 < t.len() {
            assert(t[j - 1] == m[j]);
        }
        lemma_user_ix_at(t, u, j - 1);
    }
}

/// One list line's contribution to the tally.  The payload is the
/// fifth space-separated field; its first two colons bound the user and
/// the file size, the rest is the allocation.  A new user opens an
/// entry; a known user's entry grows field-wise, one file per line.
pub open spec fn spec_tally_line(m: Seq<(Seq<char>, Summary)>, line: Seq<char>) -> Result<
    Seq<(Seq<char>, Summary)>,
    ErrorSpec,
> {
    let t = spec_split(line, ' ');
    if t.len() <= 4 {
        Result::Err(ErrorSpec::MissingColumn("payload"@))
    } else {
        let p = t[4];
        let i1 = first_ix(p, ':');
        if i1 == p.len() {
            Result::Err(ErrorSpec::MissingColumn("FILE_SIZE"@))
        } else {
            let user = p.take(i1);
            let r1 = p.skip(i1 + 1);
            let i2 = first_ix(r1, ':');
            if i2 == r1.len() {
                Result::Err(ErrorSpec::MissingColumn("KB_ALLOCATED"@))
            } else {
                let fs_tok = r1.take(i2);
                let kb_tok = r1.skip(i2 + 1);
                match spec_parse_u64(fs_tok) {
                    Option::None => Result::Err(ErrorSpec::BadValue("FILE_SIZE"@, fs_tok)),
                    Option::Some(file_size) => match spec_parse_u64(kb_tok) {
                        Option::None => Result::Err(ErrorSpec::BadValue("KB_ALLOCATED"@, kb_tok)),
                        Option::Some(kb_allocated) => {
                            let entry = Summary { files: 1, file_size, kb_allocated };
                            let j = user_ix(m, user);
                            if j == m.len() {
                                Result::Ok(m.push((user, entry)))
                            } else if !spec_summary_add_fits(m[j].1, entry) {
                                Result::Err(ErrorSpec::CounterOverflow(user))
                            } else {
                                Result::Ok(m.update(j, (user, spec_summary_add(m[j].1, entry))))
                            }
                        },
                    },
                }
            }
        }
    }
}

/// The tally of a whole list output, line by line.
pub open spec fn spec_tally(lines: Seq<Seq<char>>, m: Seq<(Seq<char>, Summary)>) -> Result<
    Seq<(Seq<char>, Summary)>,
    ErrorSpec,
>
    decreases lines.len(),
{
    if lines.len() == 0 {
        Result::Ok(m)
    } else {
        match spec_tally_line(m, lines[0]) {
            Result::Ok(m2) => spec_tally(lines.skip(1), m2),
            Result::Err(e) => Result::Err(e),
        }
    }
}

/// The view of a tally.
pub open spec fn tally_view(m: Seq<(String, Summary)>) -> Seq<(Seq<char>, Summary)> {
    m.map_values(|p: (String, Summary)| (p.0@, p.1))
}

/// Tallies the policy scan's list output: per user, the number of
/// files, the total file size, and the total allocation, users in
/// first-appearance order.
pub fn sum(input: &str) -> (r: Result<Vec<(String, Summary)>, Error>)
    ensures
        match r {
            Result::Ok(m) => spec_tally(spec_lines(input@), Seq::empty()) == Result::Ok::<
                Seq<(Seq<char>, Summary)>,
                ErrorSpec,
            >(tally_view(m@)),
            Result::Err(e) => spec_tally(spec_lines(input@), Seq::empty()) == Result::Err::<
                Seq<(Seq<char>, Summary)>,
                ErrorSpec,
            >(e@),
        },
{
    let lines = lines_of(input);
    let ghost lv = lines.deep_view();
    let mut m: Vec<(String, Summary)> = Vec::new();
    proof {
        assert(lv.skip(0) =~= lv);
        assert(tally_view(m@) =~= Seq::<(Seq<char>, Summary)>::empty());
    }
    let mut i: usize = 0;
    while i < lines.len()
        invariant
            lv == lines.deep_view(),
            lv == spec_lines(input@),
            lines.len() == lv.len(),
            0 <= i <= lines.len(),
            spec_tally(lv, Seq::empty()) == spec_tally(lv.skip(i as int), tally_view(m@)),
        decreases lines.len() - i,
    {
        let ghost mv = tally_view(m@);
        proof {
            assert(lv.skip(i as int)[0] == lv[i as int]);
            assert(lv.skip(i as int).skip(1) =~= lv.skip(i as int + 1));
            assert(lines[i as int].deep_view() == lv[i as int]);
        }
        let t = split_char(lines[i].as_str(), ' ');
        proof {
            assert(spec_split(lv[i as int], ' ') == t.deep_view());
        }
        if t.len() <= 4 {
            let e = Error::MissingColumn("payload".to_owned());
            proof {
                assert(spec_tally(lv.skip(i as int), mv) == Result::Err::<
                    Seq<(Seq<char>, Summary)>,
                    ErrorSpec,
                >(e@));
            }
            return Result::Err(e);
        }
        proof {
            assert(t.deep_view()[4] == t[4 as int]@);
        }
        let payload = &t[4];
        let (user, rest) = match split_once_char(payload.as_str(), ':') {
            Option::Some(p) => p,
            Option::None => {
                let e = Error::MissingColumn("FILE_SIZE".to_owned());
                proof {
                    assert(spec_tally(lv.skip(i as int), mv) == Result::Err::<
                        Seq<(Seq<char>, Summary)>,
                        ErrorSpec,
                    >(e@));
                }
                return Result::Err(e);
            },
        };
        let (fs_tok, kb_tok) = match split_once_char(rest.as_str(), ':') {
            Option::Some(p) => p,
            Option::None => {
                let e = Error::MissingColumn("KB_ALLOCATED".to_owned());
                proof {
                    assert(spec_tally(lv.skip(i as int), mv) == Result::Err::<
                        Seq<(Seq<char>, Summary)>,
                        ErrorSpec,
                    >(e@));
                }
                return Result::Err(e);
            },
        };
        let file_size = match parse_u64(fs_tok.as_str()) {
            Option::Some(v) => v,
            Option::None => {
                let e = Error::BadValue("FILE_SIZE".to_owned(), fs_tok);
                proof {
                    assert(spec_tally(lv.skip(i as int), mv) == Result::Err::<
                        Seq<(Seq<char>, Summary)>,
                        ErrorSpec,
                    >(e@));
                }
                return Result::Err(e);
            },
        };
        let kb_allocated = match parse_u64(kb_tok.as_str()) {
            Option::Some(v) => v,
            Option::None => {
                let e = Error::BadValue("KB_ALLOCATED".to_owned(), kb_tok);
                proof {
                    assert(spec_tally(lv.skip(i as int), mv) == Result::Err::<
                        Seq<(Seq<char>, Summary)>,
                        ErrorSpec,
                    >(e@));
                }
                return Result::Err(e);
            },
        };
        let entry = Summary { files: 1, file_size, kb_allocated };
        // find the user's tally entry
        let mut ui: usize = 0;
        let mut u_found = false;
        while ui < m.len() && !u_found
            invariant
                0 <= ui <= m.len(),
                !u_found ==> forall|l: int| 0 <= l < ui ==> (#[trigger] m@[l].0)@ != user@,
                u_found ==> ui < m.len() && m@[ui as int].0@ == user@ && forall|l: int|
                    0 <= l < ui ==> (#[trigger] m@[l].0)@ != user@,
            decreases m.len() - ui + if u_found {
                0int
            } else {
                1int
            },
        {
            if str_eq(m[ui].0.as_str(), user.as_str()) {
                u_found = true;
            } else {
                ui += 1;
            }
        }
        proof {
            assert(forall|l: int|
                0 <= l < mv.len() ==> (#[trigger] mv[l]) == (m@[l].0@, m@[l].1));
        }
        if u_found {
            proof {
                lemma_user_ix_at(mv, user@, ui as int);
            }
            let pair = m.remove(ui);
            let (uname, old_sum) = pair;
            match old_sum.checked_add(&entry) {
                Option::Some(next) => {
                    m.insert(ui, (uname, next));
                    proof {
                        assert(tally_view(m@) =~= mv.update(
                            ui as int,
                            (user@, spec_summary_add(mv[ui as int].1, entry)),
                        ));
                    }
                },
                Option::None => {
                    let e = Error::CounterOverflow(user);
                    proof {
                        assert(spec_tally(lv.skip(i as int), mv) == Result::Err::<
                            Seq<(Seq<char>, Summary)>,
                            ErrorSpec,
                        >(e@));
                    }
                    return Result::Err(e);
                },
            }
        } else {
            proof {
                lemma_user_ix_at(mv, user@, mv.len() as int);
            }
            let ghost userv = user@;
            m.push((user, entry));
            proof {
                assert(tally_view(m@) =~= mv.push((userv, entry)));
            }
        }
        i += 1;
    }
    proof {
        assert(lv.skip(i as int) =~= Seq::<Seq<char>>::empty());
    }
    Result::Ok(m)
}

/// The report's data: where the scan ran, which pool it covered, and
/// the per-user totals.
#[derive(Debug)]
pub struct Data {
    device_or_dir: String,
    pool: String,
    raw: Vec<(String, Summary)>,
}

/// The mathematical shape of a [`Data`].
#[verifier::ext_equal]
pub struct DataV {
    pub device_or_dir: Seq<char>,
    pub pool: Seq<char>,
    pub raw: Seq<(Seq<char>, Summary)>,
}

impl View for Data {
    type V = DataV;

    closed spec fn view(&self) -> DataV {
        DataV { device_or_dir: self.device_or_dir@, pool: self.pool@, raw: tally_view(self.raw@) }
    }
}

impl Data {
    /// Gathers a report: the scanned device or directory, the pool, and
    /// the per-user totals.
    pub fn new(device_or_dir: String, pool: String, raw: Vec<(String, Summary)>) -> (r: Data)
        ensures
            r@.device_or_dir == device_or_dir@,
            r@.pool == pool@,
            r@.raw == tally_view(raw@),
    {
        Data { device_or_dir, pool, raw }
    }

    /// Returns the scanned device or directory.
    pub fn device_or_dir(&self) -> (r: &str)
        ensures
            r@ == self@.device_or_dir,
    {
        self.device_or_dir.as_str()
    }

    /// Returns the scanned pool.
    pub fn pool(&self) -> (r: &str)
        ensures
            r@ == self@.pool,
    {
        self.pool.as_str()
    }

    /// Returns the per-user totals.
    pub fn raw(&self) -> (r: &Vec<(String, Summary)>)
        ensures
            tally_view(r@) == self@.raw,
    {
        &self.raw
    }
}

} // verus!
