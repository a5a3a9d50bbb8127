//! Deadlock-diagnostic records: the deadlock report of the diagnostics
//! command.  Only rows tagged `deadlockNodes` matter; each carries one
//! node in its `nodeList` column.

use crate::engine::lookup;
use crate::engine::spec_lookup;
use crate::engine::spec_records;
use crate::engine::spec_stream;
use crate::error::Error;
use crate::error::ErrorSpec;
use crate::text::lines_of;
use crate::text::spec_lines;
use crate::text::spec_split;
use crate::text::split_char;
use crate::text::str_eq;
use vstd::prelude::*;

verus! {

/// The nodes involved in a reported deadlock, in stream order; empty when
/// no deadlock is reported.
#[derive(Debug)]
pub struct Deadlock {
    node_list: Vec<String>,
}

impl View for Deadlock {
    type V = Seq<Seq<char>>;

    closed spec fn view(&self) -> Seq<Seq<char>> {
        self.node_list.deep_view()
    }
}

/// The decode of one deadlock data row: the `nodeList` column.
pub open spec fn spec_deadlock_from_tokens(t: Seq<Seq<char>>, hdr: Seq<Seq<char>>) -> Result<
    Seq<char>,
    ErrorSpec,
> {
    spec_lookup(t, hdr, "nodeList"@)
}

pub open spec fn deadlock_decoder() -> spec_fn(Seq<Seq<char>>, Seq<Seq<char>>) -> Result<
    Seq<char>,
    ErrorSpec,
> {
    |t: Seq<Seq<char>>, hdr: Seq<Seq<char>>| spec_deadlock_from_tokens(t, hdr)
}

impl Deadlock {
    /// Returns the deadlocked nodes.
    pub fn nodes(&self) -> (r: &Vec<String>)
        ensures
            r.deep_view() == self@,
    {
        &self.node_list
    }

    /// Decodes the diagnostic command's whole output, keeping only rows
    /// tagged `deadlockNodes`.
    pub fn from_reader(input: &str) -> (r: Result<Deadlock, Error>)
        ensures
            match r {
                Result::Ok(v) => spec_records(
                    input@,
                    deadlock_decoder(),
                    false,
                    Option::Some("deadlockNodes"@),
                ) == Result::Ok::<Seq<Seq<char>>, ErrorSpec>(v@),
                Result::Err(e) => spec_records(
                    input@,
                    deadlock_decoder(),
                    false,
                    Option::Some("deadlockNodes"@),
                ) == Result::Err::<Seq<Seq<char>>, ErrorSpec>(e@),
            },
    {
        let lines = lines_of(input);
        let ghost lv = lines.deep_view();
        let ghost dec = deadlock_decoder();
        let ghost tag = Option::Some("deadlockNodes"@);
        let mut hdr: Vec<String> = Vec::new();
        let mut out: Vec<String> = Vec::new();
        proof {
            assert(lv.skip(0) =~= lv);
            assert(hdr.deep_view() =~= Seq::<Seq<char>>::empty());
            assert(out.deep_view() =~= Seq::<Seq<char>>::empty());
        }
        let mut i: usize = 0;
        while i < lines.len()
            invariant
                lv == lines.deep_view(),
                lv == spec_lines(input@),
                lines.len() == lv.len(),
                0 <= i <= lines.len(),
                dec == deadlock_decoder(),
                tag == Option::Some("deadlockNodes"@),
                spec_stream(lv, Seq::empty(), Seq::empty(), dec, false, tag) == spec_stream(
                    lv.skip(i as int),
                    hdr.deep_view(),
                    out.deep_view(),
                    dec,
                    false,
                    tag,
                ),
            decreases lines.len() - i,
        {
            proof {
                assert(lv.skip(i as int)[0] == lv[i as int]);
                assert(lv.skip(i as int).skip(1) =~= lv.skip(i as int + 1));
                assert(lines[i as int].deep_view() == lv[i as int]);
            }
            let t = split_char(lines[i].as_str(), ':');
            proof {
                assert(spec_split(lv[i as int], ':') == t.deep_view());
            }
            if t.len() < 2 {
                let e = Error::BadLine(lines[i].clone());
                proof {
                    assert(spec_stream(
                        lv.skip(i as int),
                        hdr.deep_view(),
                        out.deep_view(),
                        dec,
                        false,
                        tag,
                    ) == Result::Err::<(Seq<Seq<char>>, Seq<Seq<char>>), ErrorSpec>(e@));
                }
                return Result::Err(e);
            }
            proof {
                assert(t.deep_view()[1] == t[1 as int]@);
            }
            if str_eq(t[1].as_str(), "deadlockNodes") {
                if t.len() < 3 {
                    let e = Error::BadLine(lines[i].clone());
                    proof {
                        assert(spec_stream(
                            lv.skip(i as int),
                            hdr.deep_view(),
                            out.deep_view(),
                            dec,
                            false,
                            tag,
                        ) == Result::Err::<(Seq<Seq<char>>, Seq<Seq<char>>), ErrorSpec>(e@));
                    }
                    return Result::Err(e);
                }
                proof {
                    assert(t.deep_view()[2] == t[2 as int]@);
                }
                if str_eq(t[2].as_str(), "HEADER") {
                    hdr = t;
                } else {
                    match lookup(&t, &hdr, "nodeList") {
                        Result::Ok(s) => {
                            let node = s.clone();
                            let ghost nodev = node@;
                            let ghost old_out = out;
                            out.push(node);
                            proof {
                                assert(dec(t.deep_view(), hdr.deep_view()) == spec_lookup(
                                    t.deep_view(),
                                    hdr.deep_view(),
                                    "nodeList"@,
                                ));
                                assert(out.deep_view() =~= old_out.deep_view().push(nodev));
                            }
                        },
                        Result::Err(e) => {
                            proof {
                                assert(dec(t.deep_view(), hdr.deep_view()) == spec_lookup(
                                    t.deep_view(),
                                    hdr.deep_view(),
                                    "nodeList"@,
                                ));
                                assert(spec_stream(
                                    lv.skip(i as int),
                                    hdr.deep_view(),
                                    out.deep_view(),
                                    dec,
                                    false,
                                    tag,
                                ) == Result::Err::<(Seq<Seq<char>>, Seq<Seq<char>>), ErrorSpec>(
                                    e@,
                                ));
                            }
                            return Result::Err(e)
                        },
                    }
                }
            }
            i += 1;
        }
        proof {
            assert(lv.skip(i as int) =~= Seq::<Seq<char>>::empty());
        }
        Result::Ok(Deadlock { node_list: out })
    }
}

} // verus!
