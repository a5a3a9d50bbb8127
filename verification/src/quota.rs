//! Quota-report records, read from the quota report command's output.
//! Lines opening with `***` are report commentary and are skipped.

use crate::engine::lookup;
use crate::engine::lookup_i64;
use crate::engine::lookup_u64;
use crate::engine::spec_is_comment;
use crate::engine::spec_lookup;
use crate::engine::spec_lookup_i64;
use crate::engine::spec_lookup_u64;
use crate::engine::spec_records;
use crate::engine::spec_stream;
use crate::error::Error;
use crate::error::ErrorSpec;
use crate::text::lines_of;
use crate::text::spec_lines;
use crate::text::spec_split;
use crate::text::split_char;
use crate::text::str_eq;
use vstd::prelude::*;

verus! {

/// Quota type.  Unrecognized type tokens are preserved, never rejected.
#[derive(Eq, PartialEq, Debug)]
pub enum Type {
    /// Fileset quota.
    Fileset,
    /// Group quota.
    Group,
    /// User quota.
    User,
    /// Unknown quota type, carrying the raw token.
    Unknown(String),
}

/// The mathematical shape of a [`Type`].
pub enum TypeV {
    Fileset,
    Group,
    User,
    Unknown(Seq<char>),
}

impl View for Type {
    type V = TypeV;

    closed spec fn view(&self) -> TypeV {
        match self {
            Type::Fileset => TypeV::Fileset,
            Type::Group => TypeV::Group,
            Type::User => TypeV::User,
            Type::Unknown(s) => TypeV::Unknown(s@),
        }
    }
}

impl Clone for Type {
    fn clone(&self) -> (r: Self)
        ensures
            r@ == self@,
    {
        match self {
            Type::Fileset => Type::Fileset,
            Type::Group => Type::Group,
            Type::User => Type::User,
            Type::Unknown(s) => Type::Unknown(s.clone()),
        }
    }
}

/// The coercion of a quota-type token: `FILESET`, `GRP` and `USR` by
/// exact match, anything else preserved as unknown.
pub open spec fn spec_quota_type(s: Seq<char>) -> TypeV {
    if s == "FILESET"@ {
        TypeV::Fileset
    } else if s == "GRP"@ {
        TypeV::Group
    } else if s == "USR"@ {
        TypeV::User
    } else {
        TypeV::Unknown(s)
    }
}

impl Type {
    /// Coerces a quota-type token.  Never fails: an unrecognized token
    /// becomes [`Type::Unknown`].
    pub fn parse(s: &str) -> (r: Type)
        ensures
            r@ == spec_quota_type(s@),
    {
        if str_eq(s, "FILESET") {
            Type::Fileset
        } else if str_eq(s, "GRP") {
            Type::Group
        } else if str_eq(s, "USR") {
            Type::User
        } else {
            Type::Unknown(s.to_owned())
        }
    }

    /// Returns the token this type renders as.
    pub fn as_str(&self) -> (r: &str)
        ensures
            r@ == spec_quota_type_str(self@),
    {
        match self {
            Type::Fileset => "FILESET",
            Type::Group => "GRP",
            Type::User => "USR",
            Type::Unknown(s) => s.as_str(),
        }
    }
}

/// The text a [`Type`] renders as.
pub open spec fn spec_quota_type_str(t: TypeV) -> Seq<char> {
    match t {
        TypeV::Fileset => "FILESET"@,
        TypeV::Group => "GRP"@,
        TypeV::User => "USR"@,
        TypeV::Unknown(s) => s,
    }
}

/// Quota metrics.  Values are kilobytes for block quotas and numbers of
/// files for file quotas.  Usage may be negative in the source format.
#[derive(Copy, Clone, Eq, PartialEq, Structural, Debug)]
pub struct Metrics {
    /// The current usage.
    pub usage: i64,
    /// The soft quota limit.
    pub quota: u64,
    /// The hard quota limit.
    pub limit: u64,
    /// The in-doubt amount.
    pub in_doubt: u64,
}

impl Metrics {
    /// Returns the current usage.
    pub fn usage(&self) -> (r: i64)
        ensures
            r == self.usage,
    {
        self.usage
    }

    /// Returns the soft quota limit.
    pub fn quota(&self) -> (r: u64)
        ensures
            r == self.quota,
    {
        self.quota
    }

    /// Returns the hard quota limit.
    pub fn limit(&self) -> (r: u64)
        ensures
            r == self.limit,
    {
        self.limit
    }

    /// Returns the in-doubt amount.
    pub fn in_doubt(&self) -> (r: u64)
        ensures
            r == self.in_doubt,
    {
        self.in_doubt
    }
}

/// One quota entry: usage and limits for one user, group or fileset in
/// one filesystem.
#[derive(Debug)]
pub struct Entry {
    fs_name: String,
    quota_type: Type,
    id: u64,
    name: String,
    block: Metrics,
    files: Metrics,
    fileset_name: String,
}

/// The mathematical shape of an [`Entry`].
#[verifier::ext_equal]
pub struct EntryV {
    pub fs_name: Seq<char>,
    pub quota_type: TypeV,
    pub id: u64,
    pub name: Seq<char>,
    pub block: Metrics,
    pub files: Metrics,
    pub fileset_name: Seq<char>,
}

impl View for Entry {
    type V = EntryV;

    closed spec fn view(&self) -> EntryV {
        EntryV {
            fs_name: self.fs_name@,
            quota_type: self.quota_type@,
            id: self.id,
            name: self.name@,
            block: self.block,
            files: self.files,
            fileset_name: self.fileset_name@,
        }
    }
}

impl DeepView for Entry {
    type V = EntryV;

    open spec fn deep_view(&self) -> EntryV {
        self@
    }
}

impl Entry {
    /// Returns the file system name.
    pub fn fs_name(&self) -> (r: &str)
        ensures
            r@ == self@.fs_name,
    {
        self.fs_name.as_str()
    }

    /// Returns the quota type.
    pub fn quota_type(&self) -> (r: &Type)
        ensures
            r@ == self@.quota_type,
    {
        &self.quota_type
    }

    /// Returns the user, group or fileset id, according to the type.
    pub fn id(&self) -> (r: u64)
        ensures
            r == self@.id,
    {
        self.id
    }

    /// Returns the user, group or fileset name, according to the type.
    pub fn name(&self) -> (r: &str)
        ensures
            r@ == self@.name,
    {
        self.name.as_str()
    }

    /// Returns the block quota.
    pub fn block(&self) -> (r: Metrics)
        ensures
            r == self@.block,
    {
        self.block
    }

    /// Returns the files quota.
    pub fn files(&self) -> (r: Metrics)
        ensures
            r == self@.files,
    {
        self.files
    }

    /// Returns the name of the fileset that contains this entry.
    pub fn fileset_name(&self) -> (r: &str)
        ensures
            r@ == self@.fileset_name,
    {
        self.fileset_name.as_str()
    }

    /// Decodes one data row against the header last seen.
    pub fn from_tokens(t: &Vec<String>, hdr: &Vec<String>) -> (r: Result<Entry, Error>)
        ensures
            match r {
                Result::Ok(x) => spec_entry_from_tokens(t.deep_view(), hdr.deep_view())
                    == Result::Ok::<EntryV, ErrorSpec>(x@),
                Result::Err(e) => spec_entry_from_tokens(t.deep_view(), hdr.deep_view())
                    == Result::Err::<EntryV, ErrorSpec>(e@),
            },
    {
        let fs_name = match lookup(t, hdr, "filesystemName") {
            Result::Ok(s) => s.clone(),
            Result::Err(e) => { return Result::Err(e) },
        };
        let quota_type = match lookup(t, hdr, "quotaType") {
            Result::Ok(s) => Type::parse(s.as_str()),
            Result::Err(e) => { return Result::Err(e) },
        };
        let id = match lookup_u64(t, hdr, "id") {
            Result::Ok(v) => v,
            Result::Err(e) => { return Result::Err(e) },
        };
        let name = match lookup(t, hdr, "name") {
            Result::Ok(s) => s.clone(),
            Result::Err(e) => { return Result::Err(e) },
        };
        let block_usage = match lookup_i64(t, hdr, "blockUsage") {
            Result::Ok(v) => v,
            Result::Err(e) => { return Result::Err(e) },
        };
        let block_quota = match lookup_u64(t, hdr, "blockQuota") {
            Result::Ok(v) => v,
            Result::Err(e) => { return Result::Err(e) },
        };
        let block_limit = match lookup_u64(t, hdr, "blockLimit") {
            Result::Ok(v) => v,
            Result::Err(e) => { return Result::Err(e) },
        };
        let block_in_doubt = match lookup_u64(t, hdr, "blockInDoubt") {
            Result::Ok(v) => v,
            Result::Err(e) => { return Result::Err(e) },
        };
        let files_usage = match lookup_i64(t, hdr, "filesUsage") {
            Result::Ok(v) => v,
            Result::Err(e) => { return Result::Err(e) },
        };
        let files_quota = match lookup_u64(t, hdr, "filesQuota") {
            Result::Ok(v) => v,
            Result::Err(e) => { return Result::Err(e) },
        };
        let files_limit = match lookup_u64(t, hdr, "filesLimit") {
            Result::Ok(v) => v,
            Result::Err(e) => { return Result::Err(e) },
        };
        let files_in_doubt = match lookup_u64(t, hdr, "filesInDoubt") {
            Result::Ok(v) => v,
            Result::Err(e) => { return Result::Err(e) },
        };
        let fileset_name = match lookup(t, hdr, "filesetname") {
            Result::Ok(s) => s.clone(),
            Result::Err(e) => { return Result::Err(e) },
        };
        Result::Ok(
            Entry {
                fs_name,
                quota_type,
                id,
                name,
                block: Metrics {
                    usage: block_usage,
                    quota: block_quota,
                    limit: block_limit,
                    in_doubt: block_in_doubt,
                },
                files: Metrics {
                    usage: files_usage,
                    quota: files_quota,
                    limit: files_limit,
                    in_doubt: files_in_doubt,
                },
                fileset_name,
            },
        )
    }
}

/// The decode of one quota data row.
pub open spec fn spec_entry_from_tokens(t: Seq<Seq<char>>, hdr: Seq<Seq<char>>) -> Result<
    EntryV,
    ErrorSpec,
> {
    match spec_lookup(t, hdr, "filesystemName"@) {
        Result::Err(e) => Result::Err(e),
        Result::Ok(fs_name) => match spec_lookup(t, hdr, "quotaType"@) {
            Result::Err(e) => Result::Err(e),
            Result::Ok(qt) => match spec_lookup_u64(t, hdr, "id"@) {
                Result::Err(e) => Result::Err(e),
                Result::Ok(id) => match spec_lookup(t, hdr, "name"@) {
                    Result::Err(e) => Result::Err(e),
                    Result::Ok(name) => match spec_lookup_i64(t, hdr, "blockUsage"@) {
                        Result::Err(e) => Result::Err(e),
                        Result::Ok(bu) => match spec_lookup_u64(t, hdr, "blockQuota"@) {
                            Result::Err(e) => Result::Err(e),
                            Result::Ok(bq) => match spec_lookup_u64(t, hdr, "blockLimit"@) {
                                Result::Err(e) => Result::Err(e),
                                Result::Ok(bl) => match spec_lookup_u64(t, hdr, "blockInDoubt"@) {
                                    Result::Err(e) => Result::Err(e),
                                    Result::Ok(bd) => match spec_lookup_i64(t, hdr, "filesUsage"@) {
                                        Result::Err(e) => Result::Err(e),
                                        Result::Ok(fu) => match spec_lookup_u64(
                                            t,
                                            hdr,
                                            "filesQuota"@,
                                        ) {
                                            Result::Err(e) => Result::Err(e),
                                            Result::Ok(fq) => match spec_lookup_u64(
                                                t,
                                                hdr,
                                                "filesLimit"@,
                                            ) {
                                                Result::Err(e) => Result::Err(e),
                                                Result::Ok(fl) => match spec_lookup_u64(
                                                    t,
                                                    hdr,
                                                    "filesInDoubt"@,
                                                ) {
                                                    Result::Err(e) => Result::Err(e),
                                                    Result::Ok(fd) => match spec_lookup(
                                                        t,
                                                        hdr,
                                                        "filesetname"@,
                                                    ) {
                                                        Result::Err(e) => Result::Err(e),
                                                        Result::Ok(fsn) => Result::Ok(
                                                            EntryV {
                                                                fs_name,
                                                                quota_type: spec_quota_type(qt),
                                                                id,
                                                                name,
                                                                block: Metrics {
                                                                    usage: bu,
                                                                    quota: bq,
                                                                    limit: bl,
                                                                    in_doubt: bd,
                                                                },
                                                                files: Metrics {
                                                                    usage: fu,
                                                                    quota: fq,
                                                                    limit: fl,
                                                                    in_doubt: fd,
                                                                },
                                                                fileset_name: fsn,
                                                            },
                                                        ),
                                                    },
                                                },
                                            },
                                        },
                                    },
                                },
                            },
                        },
                    },
                },
            },
        },
    }
}

pub open spec fn entry_decoder() -> spec_fn(Seq<Seq<char>>, Seq<Seq<char>>) -> Result<
    EntryV,
    ErrorSpec,
> {
    |t: Seq<Seq<char>>, hdr: Seq<Seq<char>>| spec_entry_from_tokens(t, hdr)
}

/// Parsed quota entries, in stream order.
#[derive(Debug)]
pub struct Data {
    entries: Vec<Entry>,
}

impl View for Data {
    type V = Seq<EntryV>;

    closed spec fn view(&self) -> Seq<EntryV> {
        self.entries.deep_view()
    }
}

impl Data {
    /// Returns the entries.
    pub fn entries(&self) -> (r: &Vec<Entry>)
        ensures
            r.deep_view() == self@,
    {
        &self.entries
    }

    /// Decodes the quota report command's whole output, skipping the
    /// `***` commentary lines it interleaves.
    pub fn from_reader(input: &str) -> (r: Result<Data, Error>)
        ensures
            match r {
                Result::Ok(v) => spec_records(input@, entry_decoder(), true, Option::None)
                    == Result::Ok::<Seq<EntryV>, ErrorSpec>(v@),
                Result::Err(e) => spec_records(input@, entry_decoder(), true, Option::None)
                    == Result::Err::<Seq<EntryV>, ErrorSpec>(e@),
            },
    {
        let lines = lines_of(input);
        let ghost lv = lines.deep_view();
        let ghost dec = entry_decoder();
        let mut hdr: Vec<String> = Vec::new();
        let mut out: Vec<Entry> = Vec::new();
        proof {
            assert(lv.skip(0) =~= lv);
            assert(hdr.deep_view() =~= Seq::<Seq<char>>::empty());
            assert(out.deep_view() =~= Seq::<EntryV>::empty());
        }
        let mut i: usize = 0;
        while i < lines.len()
            invariant
                lv == lines.deep_view(),
                lv == spec_lines(input@),
                lines.len() == lv.len(),
                0 <= i <= lines.len(),
                dec == entry_decoder(),
                spec_stream(lv, Seq::empty(), Seq::empty(), dec, true, Option::None)
                    == spec_stream(
                    lv.skip(i as int),
                    hdr.deep_view(),
                    out.deep_view(),
                    dec,
                    true,
                    Option::None,
                ),
            decreases lines.len() - i,
        {
            proof {
                assert(lv.skip(i as int)[0] == lv[i as int]);
                assert(lv.skip(i as int).skip(1) =~= lv.skip(i as int + 1));
                assert(lines[i as int].deep_view() == lv[i as int]);
            }
            let line = &lines[i];
            let ln = line.as_str().unicode_len();
            let comment = ln >= 3 && line.as_str().get_char(0) == '*' && line.as_str().get_char(1)
                == '*' && line.as_str().get_char(2) == '*';
            proof {
                assert(comment == spec_is_comment(lv[i as int]));
            }
            if !comment {
                let t = split_char(line.as_str(), ':');
                if t.len() < 3 {
                    let e = Error::BadLine(lines[i].clone());
                    proof {
                        assert(spec_split(lv[i as int], ':') == t.deep_view());
                        assert(spec_stream(
                            lv.skip(i as int),
                            hdr.deep_view(),
                            out.deep_view(),
                            dec,
                            true,
                            Option::None,
                        ) == Result::Err::<(Seq<Seq<char>>, Seq<EntryV>), ErrorSpec>(e@));
                    }
                    return Result::Err(e);
                }
                if str_eq(t[2].as_str(), "HEADER") {
                    proof {
                        assert(t.deep_view()[2] == t[2 as int]@);
                    }
                    hdr = t;
                } else {
                    proof {
                        assert(t.deep_view()[2] == t[2 as int]@);
                    }
                    match Entry::from_tokens(&t, &hdr) {
                        Result::Ok(x) => {
                            let ghost old_out = out;
                            out.push(x);
                            proof {
                                assert(out.deep_view() =~= old_out.deep_view().push(x@));
                            }
                        },
                        Result::Err(e) => {
                            proof {
                                assert(spec_split(lv[i as int], ':') == t.deep_view());
                                assert(dec(t.deep_view(), hdr.deep_view())
                                    == spec_entry_from_tokens(t.deep_view(), hdr.deep_view()));
                                assert(spec_stream(
                                    lv.skip(i as int),
                                    hdr.deep_view(),
                                    out.deep_view(),
                                    dec,
                                    true,
                                    Option::None,
                                ) == Result::Err::<(Seq<Seq<char>>, Seq<EntryV>), ErrorSpec>(e@));
                            }
                            return Result::Err(e)
                        },
                    }
                }
            }
            i += 1;
        }
        proof {
            assert(lv.skip(i as int) =~= Seq::<Seq<char>>::empty());
        }
        Result::Ok(Data { entries: out })
    }
}

} // verus!
