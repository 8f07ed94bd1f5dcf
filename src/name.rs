use vstd::prelude::*;

use crate::error::GitProfileError;

verus! {

/// A profile name names one file directly inside the profile directory: it is
/// not empty, holds no `/`, `\` or NUL, and is neither `.` nor `..`.
pub open spec fn valid_profile_name(s: Seq<char>) -> bool {
    &&& s.len() > 0
    &&& !s.contains('/')
    &&& !s.contains('\\')
    &&& !s.contains('\0')
    &&& s != seq!['.']
    &&& s != seq!['.', '.']
}

/// Whether `name` may be used as a profile name.
pub fn is_valid_profile_name(name: &str) -> (r: bool)
    ensures
        r == valid_profile_name(name@),
{
    let n = name.unicode_len();
    if n == 0 {
        return false;
    }
    let mut i: usize = 0;
    while i < n
        invariant
            n == name@.len(),
            i <= n,
            forall|j: int| 0 <= j < i ==> name@[j] != '/' && name@[j] != '\\' && name@[j] != '\0',
        decreases n - i,
    {
        let c = name.get_char(i);
        if c == '/' || c == '\\' || c == '\0' {
            return false;
        }
        i += 1;
    }
    if n <= 2 && name.get_char(0) == '.' && name.get_char(n - 1) == '.' {
        assert(name@ =~= seq!['.'] || name@ =~= seq!['.', '.']);
        return false;
    }
    assert(name@ != seq!['.']) by {
        if name@ =~= seq!['.'] { assert(name@[0] == '.'); }
    }
    assert(name@ != seq!['.', '.']) by {
        if name@ =~= seq!['.', '.'] { assert(name@[0] == '.' && name@[1] == '.'); }
    }
    true
}

/// Checks a profile name before anything is changed: a name that is not
/// valid is returned in a `ProfilePath` error.
pub fn validate_profile_name(profile_name: &str) -> (r: Result<(), GitProfileError>)
    ensures
        r is Ok <==> valid_profile_name(profile_name@),
        r matches Err(GitProfileError::ProfilePath { path }) ==> path@ == profile_name@,
        r is Err ==> r->Err_0 is ProfilePath,
{
    if !is_valid_profile_name(profile_name) {
        return Err(GitProfileError::ProfilePath { path: profile_name.to_string() });
    }
    Ok(())
}

} // verus!
