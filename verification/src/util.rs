//! Shared small utilities: the file system's `yes`/`no` boolean convention.

use vstd::prelude::*;

verus! {

/// Boolean type as used by the `mm*` admin commands' `-Y` output.
#[derive(Copy, Clone, Eq, PartialEq, Structural, Debug)]
pub enum MMBool {
    /// False.
    No,
    /// True.
    Yes,
}

/// Holds when `s` spells `yes` with each letter in either case.
pub open spec fn spec_is_yes(s: Seq<char>) -> bool {
    s.len() == 3 && (s[0] == 'y' || s[0] == 'Y') && (s[1] == 'e' || s[1] == 'E') && (s[2] == 's'
        || s[2] == 'S')
}

/// Holds when `s` spells `no` with each letter in either case.
pub open spec fn spec_is_no(s: Seq<char>) -> bool {
    s.len() == 2 && (s[0] == 'n' || s[0] == 'N') && (s[1] == 'o' || s[1] == 'O')
}

/// Holds when `s` is accepted as a true token: `yes` in any case, or `1`.
pub open spec fn spec_is_true_token(s: Seq<char>) -> bool {
    spec_is_yes(s) || s =~= seq!['1']
}

/// Holds when `s` is accepted as a false token: `no` in any case, or `0`.
pub open spec fn spec_is_false_token(s: Seq<char>) -> bool {
    spec_is_no(s) || s =~= seq!['0']
}

impl MMBool {
    /// Returns the `bool` representation.
    pub fn as_bool(&self) -> (r: bool)
        ensures
            r == (*self is Yes),
    {
        match self {
            MMBool::No => false,
            MMBool::Yes => true,
        }
    }

    /// Coerces a raw token: case-insensitive `yes`/`no`, or `1`/`0`.
    /// Any other token is rejected; the caller attributes the failure
    /// to its field.
    pub fn parse(s: &str) -> (r: Option<MMBool>)
        ensures
            r == Some(MMBool::Yes) <==> spec_is_true_token(s@),
            r == Some(MMBool::No) <==> spec_is_false_token(s@),
            r is None <==> !spec_is_true_token(s@) && !spec_is_false_token(s@),
    {
        let n = s.unicode_len();
        if n == 3 {
            let c0 = s.get_char(0);
            let c1 = s.get_char(1);
            let c2 = s.get_char(2);
            if (c0 == 'y' || c0 == 'Y') && (c1 == 'e' || c1 == 'E') && (c2 == 's' || c2 == 'S') {
                Some(MMBool::Yes)
            } else {
                None
            }
        } else if n == 2 {
            let c0 = s.get_char(0);
            let c1 = s.get_char(1);
            if (c0 == 'n' || c0 == 'N') && (c1 == 'o' || c1 == 'O') {
                Some(MMBool::No)
            } else {
                None
            }
        } else if n == 1 {
            let c0 = s.get_char(0);
            if c0 == '1' {
                proof {
                    assert(s@ =~= seq!['1']);
                }
                Some(MMBool::Yes)
            } else if c0 == '0' {
                proof {
                    assert(s@ =~= seq!['0']);
                }
                Some(MMBool::No)
            } else {
                None
            }
        } else {
            None
        }
    }
}

} // verus!
