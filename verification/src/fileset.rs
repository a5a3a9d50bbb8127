//! Fileset records: the output of the fileset listing command.  The
//! comment column escapes colons as `%3A`; decoding unescapes it, and an
//! empty comment becomes an absent one.

use crate::engine::lookup;
use crate::engine::lookup_bool;
use crate::engine::lookup_u64;
use crate::engine::spec_lookup;
use crate::engine::spec_lookup_bool;
use crate::engine::spec_lookup_u64;
use crate::engine::spec_records;
use crate::engine::spec_stream;
use crate::error::Error;
use crate::error::ErrorSpec;
use crate::text::lines_of;
use crate::text::spec_lines;
use crate::text::spec_split;
use crate::text::spec_unescape;
use crate::text::split_char;
use crate::text::str_eq;
use crate::text::unescape_colons;
use vstd::prelude::*;

verus! {

/// One fileset of one filesystem.
#[derive(Debug)]
pub struct Fileset {
    name: String,
    filesystem_name: String,
    is_inode_space_owner: bool,
    max_inodes: u64,
    alloc_inodes: u64,
    comment: Option<String>,
}

/// The mathematical shape of a [`Fileset`].
#[verifier::ext_equal]
pub struct FilesetV {
    pub name: Seq<char>,
    pub filesystem_name: Seq<char>,
    pub is_inode_space_owner: bool,
    pub max_inodes: u64,
    pub alloc_inodes: u64,
    pub comment: Option<Seq<char>>,
}

impl View for Fileset {
    type V = FilesetV;

    closed spec fn view(&self) -> FilesetV {
        FilesetV {
            name: self.name@,
            filesystem_name: self.filesystem_name@,
            is_inode_space_owner: self.is_inode_space_owner,
            max_inodes: self.max_inodes,
            alloc_inodes: self.alloc_inodes,
            comment: match self.comment {
                Option::Some(ref c) => Option::Some(c@),
                Option::None => Option::None,
            },
        }
    }
}

impl DeepView for Fileset {
    type V = FilesetV;

    open spec fn deep_view(&self) -> FilesetV {
        self@
    }
}

impl Fileset {
    /// Returns the filesystem name.
    pub fn filesystem_name(&self) -> (r: &str)
        ensures
            r@ == self@.filesystem_name,
    {
        self.filesystem_name.as_str()
    }

    /// Returns the fileset name.
    pub fn name(&self) -> (r: &str)
        ensures
            r@ == self@.name,
    {
        self.name.as_str()
    }

    /// Returns whether this fileset owns its inode space.
    pub fn is_inode_space_owner(&self) -> (r: bool)
        ensures
            r == self@.is_inode_space_owner,
    {
        self.is_inode_space_owner
    }

    /// Returns the maximum number of inodes.
    pub fn max_inodes(&self) -> (r: u64)
        ensures
            r == self@.max_inodes,
    {
        self.max_inodes
    }

    /// Returns the allocated inodes.
    pub fn alloc_inodes(&self) -> (r: u64)
        ensures
            r == self@.alloc_inodes,
    {
        self.alloc_inodes
    }

    /// Optionally returns the comment.
    pub fn comment(&self) -> (r: Option<&String>)
        ensures
            match r {
                Option::Some(c) => self@.comment == Option::Some(c@),
                Option::None => self@.comment is None,
            },
    {
        self.comment.as_ref()
    }

    /// Decodes one data row against the header last seen: the
    /// `filesystemName`, `filesetName`, `isInodeSpaceOwner`, `maxInodes`,
    /// `allocInodes` and `comment` columns, the comment unescaped and
    /// dropped when empty.
    pub fn from_tokens(t: &Vec<String>, hdr: &Vec<String>) -> (r: Result<Fileset, Error>)
        ensures
            match r {
                Result::Ok(f) => spec_fileset_from_tokens(t.deep_view(), hdr.deep_view())
                    == Result::Ok::<FilesetV, ErrorSpec>(f@),
                Result::Err(e) => spec_fileset_from_tokens(t.deep_view(), hdr.deep_view())
                    == Result::Err::<FilesetV, ErrorSpec>(e@),
            },
    {
        let filesystem_name = match lookup(t, hdr, "filesystemName") {
            Result::Ok(s) => s.clone(),
            Result::Err(e) => { return Result::Err(e) },
        };
        let name = match lookup(t, hdr, "filesetName") {
            Result::Ok(s) => s.clone(),
            Result::Err(e) => { return Result::Err(e) },
        };
        let is_inode_space_owner = match lookup_bool(t, hdr, "isInodeSpaceOwner") {
            Result::Ok(b) => b,
            Result::Err(e) => { return Result::Err(e) },
        };
        let max_inodes = match lookup_u64(t, hdr, "maxInodes") {
            Result::Ok(v) => v,
            Result::Err(e) => { return Result::Err(e) },
        };
        let alloc_inodes = match lookup_u64(t, hdr, "allocInodes") {
            Result::Ok(v) => v,
            Result::Err(e) => { return Result::Err(e) },
        };
        let comment = match lookup(t, hdr, "comment") {
            Result::Ok(s) => {
                let c = unescape_colons(s.as_str());
                if c.as_str().unicode_len() == 0 {
                    Option::None
                } else {
                    Option::Some(c)
                }
            },
            Result::Err(e) => { return Result::Err(e) },
        };
        Result::Ok(
            Fileset { name, filesystem_name, is_inode_space_owner, max_inodes, alloc_inodes, comment },
        )
    }
}

/// The decode of one fileset data row.
pub open spec fn spec_fileset_from_tokens(t: Seq<Seq<char>>, hdr: Seq<Seq<char>>) -> Result<
    FilesetV,
    ErrorSpec,
> {
    match spec_lookup(t, hdr, "filesystemName"@) {
        Result::Err(e) => Result::Err(e),
        Result::Ok(filesystem_name) => match spec_lookup(t, hdr, "filesetName"@) {
            Result::Err(e) => Result::Err(e),
            Result::Ok(name) => match spec_lookup_bool(t, hdr, "isInodeSpaceOwner"@) {
                Result::Err(e) => Result::Err(e),
                Result::Ok(is_inode_space_owner) => match spec_lookup_u64(t, hdr, "maxInodes"@) {
                    Result::Err(e) => Result::Err(e),
                    Result::Ok(max_inodes) => match spec_lookup_u64(t, hdr, "allocInodes"@) {
                        Result::Err(e) => Result::Err(e),
                        Result::Ok(alloc_inodes) => match spec_lookup(t, hdr, "comment"@) {
                            Result::Err(e) => Result::Err(e),
                            Result::Ok(ctok) => Result::Ok(
                                FilesetV {
                                    name,
                                    filesystem_name,
                                    is_inode_space_owner,
                                    max_inodes,
                                    alloc_inodes,
                                    comment: if spec_unescape(ctok).len() == 0 {
                                        Option::None
                                    } else {
                                        Option::Some(spec_unescape(ctok))
                                    },
                                },
                            ),
                        },
                    },
                },
            },
        },
    }
}

pub open spec fn fileset_decoder() -> spec_fn(Seq<Seq<char>>, Seq<Seq<char>>) -> Result<
    FilesetV,
    ErrorSpec,
> {
    |t: Seq<Seq<char>>, hdr: Seq<Seq<char>>| spec_fileset_from_tokens(t, hdr)
}

/// Decodes the fileset listing command's whole output.
pub fn from_reader(input: &str) -> (r: Result<Vec<Fileset>, Error>)
    ensures
        match r {
            Result::Ok(v) => spec_records(input@, fileset_decoder(), false, Option::None)
                == Result::Ok::<Seq<FilesetV>, ErrorSpec>(v.deep_view()),
            Result::Err(e) => spec_records(input@, fileset_decoder(), false, Option::None)
                == Result::Err::<Seq<FilesetV>, ErrorSpec>(e@),
        },
{
    let lines = lines_of(input);
    let ghost lv = lines.deep_view();
    let ghost dec = fileset_decoder();
    let mut hdr: Vec<String> = Vec::new();
    let mut out: Vec<Fileset> = Vec::new();
    proof {
        assert(lv.skip(0) =~= lv);
        assert(hdr.deep_view() =~= Seq::<Seq<char>>::empty());
        assert(out.deep_view() =~= Seq::<FilesetV>::empty());
    }
    let mut i: usize = 0;
    while i < lines.len()
        invariant
            lv == lines.deep_view(),
            lv == spec_lines(input@),
            lines.len() == lv.len(),
            0 <= i <= lines.len(),
            dec == fileset_decoder(),
            spec_stream(lv, Seq::empty(), Seq::empty(), dec, false, Option::None) == spec_stream(
                lv.skip(i as int),
                hdr.deep_view(),
                out.deep_view(),
                dec,
                false,
                Option::None,
            ),
        decreases lines.len() - i,
    {
        proof {
            assert(lv.skip(i as int)[0] == lv[i as int]);
            assert(lv.skip(i as int).skip(1) =~= lv.skip(i as int + 1));
            assert(lines[i as int].deep_view() == lv[i as int]);
        }
        let t = split_char(lines[i].as_str(), ':');
        if t.len() < 3 {
            let e = Error::BadLine(lines[i].clone());
            proof {
                assert(spec_split(lv[i as int], ':') == t.deep_view());
                assert(spec_stream(
                    lv.skip(i as int),
                    hdr.deep_view(),
                    out.deep_view(),
                    dec,
                    false,
                    Option::None,
                ) == Result::Err::<(Seq<Seq<char>>, Seq<FilesetV>), ErrorSpec>(e@));
            }
            return Result::Err(e);
        }
        if str_eq(t[2].as_str(), "HEADER") {
            proof {
                assert(t.deep_view()[2] == t[2 as int]@);
            }
            hdr = t;
        } else {
            proof {
                assert(t.deep_view()[2] == t[2 as int]@);
            }
            match Fileset::from_tokens(&t, &hdr) {
                Result::Ok(f) => {
                    let ghost old_out = out;
                    out.push(f);
                    proof {
                        assert(out.deep_view() =~= old_out.deep_view().push(f@));
                    }
                },
                Result::Err(e) => {
                    proof {
                        assert(spec_split(lv[i as int], ':') == t.deep_view());
                        assert(dec(t.deep_view(), hdr.deep_view()) == spec_fileset_from_tokens(
                            t.deep_view(),
                            hdr.deep_view(),
                        ));
                        assert(spec_stream(
                            lv.skip(i as int),
                            hdr.deep_view(),
                            out.deep_view(),
                            dec,
                            false,
                            Option::None,
                        ) == Result::Err::<(Seq<Seq<char>>, Seq<FilesetV>), ErrorSpec>(e@));
                    }
                    return Result::Err(e)
                },
            }
        }
        i += 1;
    }
    proof {
        assert(lv.skip(i as int) =~= Seq::<Seq<char>>::empty());
    }
    Result::Ok(out)
}

} // verus!
