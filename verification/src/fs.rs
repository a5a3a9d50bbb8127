//! Filesystem-name records: the output of the filesystem listing command.

use crate::engine::lookup;
use crate::engine::spec_lookup;
use crate::engine::spec_records;
use crate::engine::spec_stream;
use crate::error::Error;
use crate::error::ErrorSpec;
use crate::text::lines_of;
use crate::text::spec_lines;
use crate::text::spec_split;
use crate::text::split_char;
use crate::text::str_eq;
use vstd::prelude::*;

verus! {

/// One file system, by name.
#[derive(Debug)]
pub struct Filesystem {
    name: String,
}

/// The mathematical shape of a [`Filesystem`].
#[verifier::ext_equal]
pub struct FilesystemV {
    pub name: Seq<char>,
}

impl View for Filesystem {
    type V = FilesystemV;

    closed spec fn view(&self) -> FilesystemV {
        FilesystemV { name: self.name@ }
    }
}

impl DeepView for Filesystem {
    type V = FilesystemV;

    open spec fn deep_view(&self) -> FilesystemV {
        self@
    }
}

impl Filesystem {
    /// Returns the file system name.
    pub fn name(&self) -> (r: &str)
        ensures
            r@ == self@.name,
    {
        self.name.as_str()
    }

    /// Returns the name, consuming the record.
    pub fn into_name(self) -> (r: String)
        ensures
            r@ == self@.name,
    {
        self.name
    }

    /// Decodes one data row: the name from the `deviceName` column.
    pub fn from_tokens(t: &Vec<String>, hdr: &Vec<String>) -> (r: Result<Filesystem, Error>)
        ensures
            match r {
                Result::Ok(f) => spec_fs_from_tokens(t.deep_view(), hdr.deep_view())
                    == Result::Ok::<FilesystemV, ErrorSpec>(f@),
                Result::Err(e) => spec_fs_from_tokens(t.deep_view(), hdr.deep_view())
                    == Result::Err::<FilesystemV, ErrorSpec>(e@),
            },
    {
        let name = match lookup(t, hdr, "deviceName") {
            Result::Ok(s) => s.clone(),
            Result::Err(e) => { return Result::Err(e) },
        };
        Result::Ok(Filesystem { name })
    }
}

/// The decode of one filesystem data row.
pub open spec fn spec_fs_from_tokens(t: Seq<Seq<char>>, hdr: Seq<Seq<char>>) -> Result<
    FilesystemV,
    ErrorSpec,
> {
    match spec_lookup(t, hdr, "deviceName"@) {
        Result::Err(e) => Result::Err(e),
        Result::Ok(name) => Result::Ok(FilesystemV { name }),
    }
}

pub open spec fn fs_decoder() -> spec_fn(Seq<Seq<char>>, Seq<Seq<char>>) -> Result<
    FilesystemV,
    ErrorSpec,
> {
    |t: Seq<Seq<char>>, hdr: Seq<Seq<char>>| spec_fs_from_tokens(t, hdr)
}

/// Parsed file systems, in stream order.
#[derive(Debug)]
pub struct Filesystems(pub(crate) Vec<Filesystem>);

impl View for Filesystems {
    type V = Seq<FilesystemV>;

    closed spec fn view(&self) -> Seq<FilesystemV> {
        self.0.deep_view()
    }
}

impl Filesystems {
    /// Returns the underlying collection.
    pub fn into_inner(self) -> (r: Vec<Filesystem>)
        ensures
            r.deep_view() == self@,
    {
        self.0
    }

    /// Decodes the filesystem listing command's whole output.
    pub fn from_reader(input: &str) -> (r: Result<Filesystems, Error>)
        ensures
            match r {
                Result::Ok(v) => spec_records(input@, fs_decoder(), false, Option::None)
                    == Result::Ok::<Seq<FilesystemV>, ErrorSpec>(v@),
                Result::Err(e) => spec_records(input@, fs_decoder(), false, Option::None)
                    == Result::Err::<Seq<FilesystemV>, ErrorSpec>(e@),
            },
    {
        let lines = lines_of(input);
        let ghost lv = lines.deep_view();
        let ghost dec = fs_decoder();
        let mut hdr: Vec<String> = Vec::new();
        let mut out: Vec<Filesystem> = Vec::new();
        proof {
            assert(lv.skip(0) =~= lv);
            assert(hdr.deep_view() =~= Seq::<Seq<char>>::empty());
            assert(out.deep_view() =~= Seq::<FilesystemV>::empty());
        }
        let mut i: usize = 0;
        while i < lines.len()
            invariant
                lv == lines.deep_view(),
                lv == spec_lines(input@),
                lines.len() == lv.len(),
                0 <= i <= lines.len(),
                dec == fs_decoder(),
                spec_stream(lv, Seq::empty(), Seq::empty(), dec, false, Option::None)
                    == spec_stream(
                    lv.skip(i as int),
                    hdr.deep_view(),
                    out.deep_view(),
                    dec,
                    false,
                    Option::None,
                ),
            decreases lines.len() - i,
        {
            proof {
                assert(lv.skip(i as int)[0] == lv[i as int]);
                assert(lv.skip(i as int).skip(1) =~= lv.skip(i as int + 1));
                assert(lines[i as int].deep_view() == lv[i as int]);
            }
            let t = split_char(lines[i].as_str(), ':');
            if t.len() < 3 {
                let e = Error::BadLine(lines[i].clone());
                proof {
                    assert(spec_split(lv[i as int], ':') == t.deep_view());
                    assert(spec_stream(
                        lv.skip(i as int),
                        hdr.deep_view(),
                        out.deep_view(),
                        dec,
                        false,
                        Option::None,
                    ) == Result::Err::<(Seq<Seq<char>>, Seq<FilesystemV>), ErrorSpec>(e@));
                }
                return Result::Err(e);
            }
            if str_eq(t[2].as_str(), "HEADER") {
                proof {
                    assert(t.deep_view()[2] == t[2 as int]@);
                }
                hdr = t;
            } else {
                proof {
                    assert(t.deep_view()[2] == t[2 as int]@);
                }
                match Filesystem::from_tokens(&t, &hdr) {
                    Result::Ok(f) => {
                        let ghost old_out = out;
                        out.push(f);
                        proof {
                            assert(out.deep_view() =~= old_out.deep_view().push(f@));
                        }
                    },
                    Result::Err(e) => {
                        proof {
                            assert(spec_split(lv[i as int], ':') == t.deep_view());
                            assert(dec(t.deep_view(), hdr.deep_view()) == spec_fs_from_tokens(
                                t.deep_view(),
                                hdr.deep_view(),
                            ));
                            assert(spec_stream(
                                lv.skip(i as int),
                                hdr.deep_view(),
                                out.deep_view(),
                                dec,
                                false,
                                Option::None,
                            ) == Result::Err::<(Seq<Seq<char>>, Seq<FilesystemV>), ErrorSpec>(e@));
                        }
                        return Result::Err(e)
                    },
                }
            }
            i += 1;
        }
        proof {
            assert(lv.skip(i as int) =~= Seq::<Seq<char>>::empty());
        }
        Result::Ok(Filesystems(out))
    }
}

} // verus!
