//! Disk records: the output of the per-filesystem disk listing command.
//! Each row carries the NSD name, the metadata/data gates, the
//! availability state, and the storage pool the disk belongs to.

use crate::engine::lookup;
use crate::engine::lookup_bool;
use crate::engine::spec_lookup;
use crate::engine::spec_lookup_bool;
use crate::engine::spec_records;
use crate::engine::spec_stream;
use crate::error::Error;
use crate::error::ErrorSpec;
use crate::text::lines_of;
use crate::text::spec_lines;
use crate::text::spec_split;
use crate::text::split_char;
use crate::text::str_eq;
use vstd::prelude::*;

verus! {

/// Disk availability.  Unrecognized states are preserved, never rejected:
/// a new state in the command's output must not break decoding.
#[derive(Eq, PartialEq, Debug)]
pub enum Availability {
    /// Disk is available for I/O operations.
    Up,
    /// No I/O operations can be performed.
    Down,
    /// Intermediate state for disks coming up.
    Recovering,
    /// Disk was not successfully brought up.
    Unrecovered,
    /// Unknown state, carrying the raw token.
    Unknown(String),
}

/// The mathematical shape of an [`Availability`].
pub enum AvailabilityV {
    Up,
    Down,
    Recovering,
    Unrecovered,
    Unknown(Seq<char>),
}

impl View for Availability {
    type V = AvailabilityV;

    closed spec fn view(&self) -> AvailabilityV {
        match self {
            Availability::Up => AvailabilityV::Up,
            Availability::Down => AvailabilityV::Down,
            Availability::Recovering => AvailabilityV::Recovering,
            Availability::Unrecovered => AvailabilityV::Unrecovered,
            Availability::Unknown(s) => AvailabilityV::Unknown(s@),
        }
    }
}

impl Clone for Availability {
    fn clone(&self) -> (r: Self)
        ensures
            r@ == self@,
    {
        match self {
            Availability::Up => Availability::Up,
            Availability::Down => Availability::Down,
            Availability::Recovering => Availability::Recovering,
            Availability::Unrecovered => Availability::Unrecovered,
            Availability::Unknown(s) => Availability::Unknown(s.clone()),
        }
    }
}

/// The coercion of an availability token: the four known states by exact
/// match, anything else preserved as unknown.
pub open spec fn spec_availability(s: Seq<char>) -> AvailabilityV {
    if s == "up"@ {
        AvailabilityV::Up
    } else if s == "down"@ {
        AvailabilityV::Down
    } else if s == "recovering"@ {
        AvailabilityV::Recovering
    } else if s == "unrecovered"@ {
        AvailabilityV::Unrecovered
    } else {
        AvailabilityV::Unknown(s)
    }
}

impl Availability {
    /// Coerces an availability token.  Never fails: an unrecognized token
    /// becomes [`Availability::Unknown`].
    pub fn parse(s: &str) -> (r: Availability)
        ensures
            r@ == spec_availability(s@),
    {
        if str_eq(s, "up") {
            Availability::Up
        } else if str_eq(s, "down") {
            Availability::Down
        } else if str_eq(s, "recovering") {
            Availability::Recovering
        } else if str_eq(s, "unrecovered") {
            Availability::Unrecovered
        } else {
            Availability::Unknown(s.to_owned())
        }
    }

    /// Returns the lower-case name of the state, or the raw token of an
    /// unknown one.
    pub fn as_str(&self) -> (r: &str)
        ensures
            r@ == spec_availability_str(self@),
    {
        match self {
            Availability::Up => "up",
            Availability::Down => "down",
            Availability::Recovering => "recovering",
            Availability::Unrecovered => "unrecovered",
            Availability::Unknown(s) => s.as_str(),
        }
    }
}

/// The text an [`Availability`] renders as.
pub open spec fn spec_availability_str(a: AvailabilityV) -> Seq<char> {
    match a {
        AvailabilityV::Up => "up"@,
        AvailabilityV::Down => "down"@,
        AvailabilityV::Recovering => "recovering"@,
        AvailabilityV::Unrecovered => "unrecovered"@,
        AvailabilityV::Unknown(s) => s,
    }
}

/// One disk of one filesystem.
#[derive(Debug)]
pub struct Disk {
    nsd_name: String,
    is_metadata: bool,
    is_objectdata: bool,
    availability: Availability,
    storage_pool: String,
}

/// The mathematical shape of a [`Disk`].
#[verifier::ext_equal]
pub struct DiskV {
    pub nsd_name: Seq<char>,
    pub is_metadata: bool,
    pub is_objectdata: bool,
    pub availability: AvailabilityV,
    pub storage_pool: Seq<char>,
}

impl View for Disk {
    type V = DiskV;

    closed spec fn view(&self) -> DiskV {
        DiskV {
            nsd_name: self.nsd_name@,
            is_metadata: self.is_metadata,
            is_objectdata: self.is_objectdata,
            availability: self.availability@,
            storage_pool: self.storage_pool@,
        }
    }
}

impl DeepView for Disk {
    type V = DiskV;

    open spec fn deep_view(&self) -> DiskV {
        self@
    }
}

impl Clone for Disk {
    fn clone(&self) -> (r: Self)
        ensures
            r@ == self@,
    {
        let r = Disk {
            nsd_name: self.nsd_name.clone(),
            is_metadata: self.is_metadata,
            is_objectdata: self.is_objectdata,
            availability: self.availability.clone(),
            storage_pool: self.storage_pool.clone(),
        };
        proof {
            assert(r@ =~= self@);
        }
        r
    }
}

impl Disk {
    /// Returns the NSD name of this disk.
    pub fn nsd_name(&self) -> (r: &str)
        ensures
            r@ == self@.nsd_name,
    {
        self.nsd_name.as_str()
    }

    /// Returns `true` if this is a metadata disk.
    pub fn is_metadata(&self) -> (r: bool)
        ensures
            r == self@.is_metadata,
    {
        self.is_metadata
    }

    /// Returns `true` if this is an objectdata disk.
    pub fn is_objectdata(&self) -> (r: bool)
        ensures
            r == self@.is_objectdata,
    {
        self.is_objectdata
    }

    /// Returns the availability state.
    pub fn availability(&self) -> (r: &Availability)
        ensures
            r@ == self@.availability,
    {
        &self.availability
    }

    /// Returns the storage pool this disk is in.
    pub fn pool(&self) -> (r: &str)
        ensures
            r@ == self@.storage_pool,
    {
        self.storage_pool.as_str()
    }

    /// Decodes one data row against the header last seen: the `nsdName`,
    /// `metadata`, `data`, `availability` and `storagePool` columns.
    pub fn from_tokens(t: &Vec<String>, hdr: &Vec<String>) -> (r: Result<Disk, Error>)
        ensures
            match r {
                Result::Ok(d) => spec_disk_from_tokens(t.deep_view(), hdr.deep_view())
                    == Result::Ok::<DiskV, ErrorSpec>(d@),
                Result::Err(e) => spec_disk_from_tokens(t.deep_view(), hdr.deep_view())
                    == Result::Err::<DiskV, ErrorSpec>(e@),
            },
    {
        let nsd_name = match lookup(t, hdr, "nsdName") {
            Result::Ok(s) => s.clone(),
            Result::Err(e) => { return Result::Err(e) },
        };
        let is_metadata = match lookup_bool(t, hdr, "metadata") {
            Result::Ok(b) => b,
            Result::Err(e) => { return Result::Err(e) },
        };
        let is_objectdata = match lookup_bool(t, hdr, "data") {
            Result::Ok(b) => b,
            Result::Err(e) => { return Result::Err(e) },
        };
        let availability = match lookup(t, hdr, "availability") {
            Result::Ok(s) => Availability::parse(s.as_str()),
            Result::Err(e) => { return Result::Err(e) },
        };
        let storage_pool = match lookup(t, hdr, "storagePool") {
            Result::Ok(s) => s.clone(),
            Result::Err(e) => { return Result::Err(e) },
        };
        Result::Ok(Disk { nsd_name, is_metadata, is_objectdata, availability, storage_pool })
    }
}

/// The decode of one disk data row.
pub open spec fn spec_disk_from_tokens(t: Seq<Seq<char>>, hdr: Seq<Seq<char>>) -> Result<
    DiskV,
    ErrorSpec,
> {
    match spec_lookup(t, hdr, "nsdName"@) {
        Result::Err(e) => Result::Err(e),
        Result::Ok(nsd_name) => match spec_lookup_bool(t, hdr, "metadata"@) {
            Result::Err(e) => Result::Err(e),
            Result::Ok(is_metadata) => match spec_lookup_bool(t, hdr, "data"@) {
                Result::Err(e) => Result::Err(e),
                Result::Ok(is_objectdata) => match spec_lookup(t, hdr, "availability"@) {
                    Result::Err(e) => Result::Err(e),
                    Result::Ok(av) => match spec_lookup(t, hdr, "storagePool"@) {
                        Result::Err(e) => Result::Err(e),
                        Result::Ok(storage_pool) => Result::Ok(
                            DiskV {
                                nsd_name,
                                is_metadata,
                                is_objectdata,
                                availability: spec_availability(av),
                                storage_pool,
                            },
                        ),
                    },
                },
            },
        },
    }
}

pub open spec fn disk_decoder() -> spec_fn(Seq<Seq<char>>, Seq<Seq<char>>) -> Result<
    DiskV,
    ErrorSpec,
> {
    |t: Seq<Seq<char>>, hdr: Seq<Seq<char>>| spec_disk_from_tokens(t, hdr)
}

/// Parsed disks, in stream order.
#[derive(Debug)]
pub struct Disks(pub(crate) Vec<Disk>);

impl View for Disks {
    type V = Seq<DiskV>;

    closed spec fn view(&self) -> Seq<DiskV> {
        self.0.deep_view()
    }
}

impl Disks {
    /// Returns the disks.
    pub fn iter(&self) -> (r: &Vec<Disk>)
        ensures
            r.deep_view() == self@,
    {
        &self.0
    }

    /// Returns the underlying collection.
    pub fn into_inner(self) -> (r: Vec<Disk>)
        ensures
            r.deep_view() == self@,
    {
        self.0
    }

    /// Decodes the disk listing command's whole output.
    pub fn from_reader(input: &str) -> (r: Result<Disks, Error>)
        ensures
            match r {
                Result::Ok(v) => spec_records(input@, disk_decoder(), false, Option::None)
                    == Result::Ok::<Seq<DiskV>, ErrorSpec>(v@),
                Result::Err(e) => spec_records(input@, disk_decoder(), false, Option::None)
                    == Result::Err::<Seq<DiskV>, ErrorSpec>(e@),
            },
    {
        let lines = lines_of(input);
        let ghost lv = lines.deep_view();
        let ghost dec = disk_decoder();
        let mut hdr: Vec<String> = Vec::new();
        let mut out: Vec<Disk> = Vec::new();
        proof {
            assert(lv.skip(0) =~= lv);
            assert(hdr.deep_view() =~= Seq::<Seq<char>>::empty());
            assert(out.deep_view() =~= Seq::<DiskV>::empty());
        }
        let mut i: usize = 0;
        while i < lines.len()
            invariant
                lv == lines.deep_view(),
                lv == spec_lines(input@),
                lines.len() == lv.len(),
                0 <= i <= lines.len(),
                dec == disk_decoder(),
                spec_stream(lv, Seq::empty(), Seq::empty(), dec, false, Option::None)
                    == spec_stream(
                    lv.skip(i as int),
                    hdr.deep_view(),
                    out.deep_view(),
                    dec,
                    false,
                    Option::None,
                ),
            decreases lines.len() - i,
        {
            proof {
                assert(lv.skip(i as int)[0] == lv[i as int]);
                assert(lv.skip(i as int).skip(1) =~= lv.skip(i as int + 1));
                assert(lines[i as int].deep_view() == lv[i as int]);
            }
            let t = split_char(lines[i].as_str(), ':');
            if t.len() < 3 {
                let e = Error::BadLine(lines[i].clone());
                proof {
                    assert(spec_split(lv[i as int], ':') == t.deep_view());
                    assert(spec_stream(
                        lv.skip(i as int),
                        hdr.deep_view(),
                        out.deep_view(),
                        dec,
                        false,
                        Option::None,
                    ) == Result::Err::<(Seq<Seq<char>>, Seq<DiskV>), ErrorSpec>(e@));
                }
                return Result::Err(e);
            }
            if str_eq(t[2].as_str(), "HEADER") {
                proof {
                    assert(t.deep_view()[2] == t[2 as int]@);
                }
                hdr = t;
            } else {
                proof {
                    assert(t.deep_view()[2] == t[2 as int]@);
                }
                match Disk::from_tokens(&t, &hdr) {
                    Result::Ok(d) => {
                        let ghost old_out = out;
                        out.push(d);
                        proof {
                            assert(out.deep_view() =~= old_out.deep_view().push(d@));
                        }
                    },
                    Result::Err(e) => {
                        proof {
                            assert(spec_split(lv[i as int], ':') == t.deep_view());
                            assert(dec(t.deep_view(), hdr.deep_view()) == spec_disk_from_tokens(
                                t.deep_view(),
                                hdr.deep_view(),
                            ));
                            assert(spec_stream(
                                lv.skip(i as int),
                                hdr.deep_view(),
                                out.deep_view(),
                                dec,
                                false,
                                Option::None,
                            ) == Result::Err::<(Seq<Seq<char>>, Seq<DiskV>), ErrorSpec>(e@));
                        }
                        return Result::Err(e)
                    },
                }
            }
            i += 1;
        }
        proof {
            assert(lv.skip(i as int) =~= Seq::<Seq<char>>::empty());
        }
        Result::Ok(Disks(out))
    }
}

} // verus!
