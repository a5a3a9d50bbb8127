//! Node-state records: the output of the node state command.  Its first
//! row names the invoking node, which is how the local node name is
//! obtained.

use crate::engine::lookup;
use crate::engine::spec_lookup;
use crate::engine::spec_records;
use crate::engine::spec_stream;
use crate::error::Error;
use crate::error::ErrorSpec;
use crate::text::lines_of;
use crate::text::spec_lines;
use crate::text::spec_split;
use crate::text::split_char;
use crate::text::str_eq;
use vstd::prelude::*;

verus! {

/// One node's state row.
#[derive(Debug)]
pub struct State {
    name: String,
    state: String,
}

/// The mathematical shape of a [`State`].
#[verifier::ext_equal]
pub struct StateV {
    pub name: Seq<char>,
    pub state: Seq<char>,
}

impl View for State {
    type V = StateV;

    closed spec fn view(&self) -> StateV {
        StateV { name: self.name@, state: self.state@ }
    }
}

impl DeepView for State {
    type V = StateV;

    open spec fn deep_view(&self) -> StateV {
        self@
    }
}

impl State {
    /// Returns the node name.
    pub fn name(&self) -> (r: &str)
        ensures
            r@ == self@.name,
    {
        self.name.as_str()
    }

    /// Returns the node name, consuming the record.
    pub fn into_name(self) -> (r: String)
        ensures
            r@ == self@.name,
    {
        self.name
    }

    /// Returns the state.
    pub fn state(&self) -> (r: &str)
        ensures
            r@ == self@.state,
    {
        self.state.as_str()
    }

    /// Decodes one data row: the `nodeName` and `state` columns.
    pub fn from_tokens(t: &Vec<String>, hdr: &Vec<String>) -> (r: Result<State, Error>)
        ensures
            match r {
                Result::Ok(s) => spec_state_from_tokens(t.deep_view(), hdr.deep_view())
                    == Result::Ok::<StateV, ErrorSpec>(s@),
                Result::Err(e) => spec_state_from_tokens(t.deep_view(), hdr.deep_view())
                    == Result::Err::<StateV, ErrorSpec>(e@),
            },
    {
        let name = match lookup(t, hdr, "nodeName") {
            Result::Ok(s) => s.clone(),
            Result::Err(e) => { return Result::Err(e) },
        };
        let state = match lookup(t, hdr, "state") {
            Result::Ok(s) => s.clone(),
            Result::Err(e) => { return Result::Err(e) },
        };
        Result::Ok(State { name, state })
    }
}

/// The decode of one node-state data row.
pub open spec fn spec_state_from_tokens(t: Seq<Seq<char>>, hdr: Seq<Seq<char>>) -> Result<
    StateV,
    ErrorSpec,
> {
    match spec_lookup(t, hdr, "nodeName"@) {
        Result::Err(e) => Result::Err(e),
        Result::Ok(name) => match spec_lookup(t, hdr, "state"@) {
            Result::Err(e) => Result::Err(e),
            Result::Ok(state) => Result::Ok(StateV { name, state }),
        },
    }
}

pub open spec fn state_decoder() -> spec_fn(Seq<Seq<char>>, Seq<Seq<char>>) -> Result<
    StateV,
    ErrorSpec,
> {
    |t: Seq<Seq<char>>, hdr: Seq<Seq<char>>| spec_state_from_tokens(t, hdr)
}

/// Parsed node states, in stream order.
#[derive(Debug)]
pub struct States(pub(crate) Vec<State>);

impl View for States {
    type V = Seq<StateV>;

    closed spec fn view(&self) -> Seq<StateV> {
        self.0.deep_view()
    }
}

impl States {
    /// Returns the states.
    pub fn states(&self) -> (r: &Vec<State>)
        ensures
            r.deep_view() == self@,
    {
        &self.0
    }

    /// Returns the underlying collection.
    pub fn into_inner(self) -> (r: Vec<State>)
        ensures
            r.deep_view() == self@,
    {
        self.0
    }

    /// Decodes the node state command's whole output.
    pub fn from_reader(input: &str) -> (r: Result<States, Error>)
        ensures
            match r {
                Result::Ok(v) => spec_records(input@, state_decoder(), false, Option::None)
                    == Result::Ok::<Seq<StateV>, ErrorSpec>(v@),
                Result::Err(e) => spec_records(input@, state_decoder(), false, Option::None)
                    == Result::Err::<Seq<StateV>, ErrorSpec>(e@),
            },
    {
        let lines = lines_of(input);
        let ghost lv = lines.deep_view();
        let ghost dec = state_decoder();
        let mut hdr: Vec<String> = Vec::new();
        let mut out: Vec<State> = Vec::new();
        proof {
            assert(lv.skip(0) =~= lv);
            assert(hdr.deep_view() =~= Seq::<Seq<char>>::empty());
            assert(out.deep_view() =~= Seq::<StateV>::empty());
        }
        let mut i: usize = 0;
        while i < lines.len()
            invariant
                lv == lines.deep_view(),
                lv == spec_lines(input@),
                lines.len() == lv.len(),
                0 <= i <= lines.len(),
                dec == state_decoder(),
                spec_stream(lv, Seq::empty(), Seq::empty(), dec, false, Option::None)
                    == spec_stream(
                    lv.skip(i as int),
                    hdr.deep_view(),
                    out.deep_view(),
                    dec,
                    false,
                    Option::None,
                ),
            decreases lines.len() - i,
        {
            proof {
                assert(lv.skip(i as int)[0] == lv[i as int]);
                assert(lv.skip(i as int).skip(1) =~= lv.skip(i as int + 1));
                assert(lines[i as int].deep_view() == lv[i as int]);
            }
            let t = split_char(lines[i].as_str(), ':');
            if t.len() < 3 {
                let e = Error::BadLine(lines[i].clone());
                proof {
                    assert(spec_split(lv[i as int], ':') == t.deep_view());
                    assert(spec_stream(
                        lv.skip(i as int),
                        hdr.deep_view(),
                        out.deep_view(),
                        dec,
                        false,
                        Option::None,
                    ) == Result::Err::<(Seq<Seq<char>>, Seq<StateV>), ErrorSpec>(e@));
                }
                return Result::Err(e);
            }
            if str_eq(t[2].as_str(), "HEADER") {
                proof {
                    assert(t.deep_view()[2] == t[2 as int]@);
                }
                hdr = t;
            } else {
                proof {
                    assert(t.deep_view()[2] == t[2 as int]@);
                }
                match State::from_tokens(&t, &hdr) {
                    Result::Ok(s) => {
                        let ghost old_out = out;
                        out.push(s);
                        proof {
                            assert(out.deep_view() =~= old_out.deep_view().push(s@));
                        }
                    },
                    Result::Err(e) => {
                        proof {
                            assert(spec_split(lv[i as int], ':') == t.deep_view());
                            assert(dec(t.deep_view(), hdr.deep_view()) == spec_state_from_tokens(
                                t.deep_view(),
                                hdr.deep_view(),
                            ));
                            assert(spec_stream(
                                lv.skip(i as int),
                                hdr.deep_view(),
                                out.deep_view(),
                                dec,
                                false,
                                Option::None,
                            ) == Result::Err::<(Seq<Seq<char>>, Seq<StateV>), ErrorSpec>(e@));
                        }
                        return Result::Err(e)
                    },
                }
            }
            i += 1;
        }
        proof {
            assert(lv.skip(i as int) =~= Seq::<Seq<char>>::empty());
        }
        Result::Ok(States(out))
    }
}

} // verus!
