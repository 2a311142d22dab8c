//! Deriving the game executable's path from the launcher executable's path:
//! the two sit in the same directory, and the game's file name is the
//! launcher's with the `-launcher` part removed.
use vstd::prelude::*;
use vstd::string::*;

verus! {

/// The path's last four characters spell `.exe` up to ASCII letter case.
pub open spec fn has_exe_suffix(s: Seq<char>) -> bool {
    &&& s.len() >= 4
    &&& s[s.len() - 4] == '.'
    &&& (s[s.len() - 3] == 'e' || s[s.len() - 3] == 'E')
    &&& (s[s.len() - 2] == 'x' || s[s.len() - 2] == 'X')
    &&& (s[s.len() - 1] == 'e' || s[s.len() - 1] == 'E')
}

/// Converts the launcher executable's path to the game executable's path,
/// dropping the trailing `-launcher` (with its `.exe` where one is present,
/// which is put back as `.exe` in lower case). The launcher is assumed to be
/// named after the game with `-launcher` appended, so the path must be long
/// enough to carry that ending.
pub fn find_ja2_executable(launcher: &str) -> (r: String)
    requires
        has_exe_suffix(launcher@) ==> launcher@.len() >= 13,
        !has_exe_suffix(launcher@) ==> launcher@.len() >= 9,
    ensures
        has_exe_suffix(launcher@) ==> r@ == launcher@.take(launcher@.len() - 13) + ".exe"@,
        !has_exe_suffix(launcher@) ==> r@ == launcher@.take(launcher@.len() - 9),
{
    let n = launcher.unicode_len();
    let is_exe = n >= 4 && launcher.get_char(n - 4) == '.' && (launcher.get_char(n - 3) == 'e'
        || launcher.get_char(n - 3) == 'E') && (launcher.get_char(n - 2) == 'x'
        || launcher.get_char(n - 2) == 'X') && (launcher.get_char(n - 1) == 'e'
        || launcher.get_char(n - 1) == 'E');
    proof {
        assert(is_exe == has_exe_suffix(launcher@));
    }
    if is_exe {
        let stem = launcher.substring_char(0, n - 13).to_owned();
        let r = stem.concat(".exe");
        proof {
            assert(launcher@.subrange(0, n - 13) =~= launcher@.take(n - 13));
        }
        r
    } else {
        let r = launcher.substring_char(0, n - 9).to_owned();
        proof {
            assert(launcher@.subrange(0, n - 9) =~= launcher@.take(n - 9));
        }
        r
    }
}

} // verus!
