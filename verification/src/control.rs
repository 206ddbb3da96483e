use vstd::prelude::*;

use crate::num::{index_arg, spec_int_str};

verus! {

// The manager is driven entirely through its command line: one listing
// form, and a start and a stop form that take `--index` with the decimal
// instance index.  The functions here build those invocations; spawning
// the process and capturing its output is the caller's part.

/// The path of the manager executable: the fixed file name joined to the
/// installation directory, with a separator added only where one is
/// missing.  Purely syntactic; nothing checks that the file exists.
pub open spec fn spec_console_path(dir: Seq<char>) -> Seq<char> {
    if dir.len() > 0 && dir.last() != '/' {
        dir + seq!['/'] + "ldconsole.exe"@
    } else {
        dir + "ldconsole.exe"@
    }
}

/// Resolves the manager executable's path inside an installation
/// directory.
pub fn get_ld_console_path(ld_dir: &str) -> (r: String)
    ensures
        r@ == spec_console_path(ld_dir@),
{
    let n = ld_dir.unicode_len();
    let mut s = String::from_str(ld_dir);
    if n > 0 {
        let last = ld_dir.get_char(n - 1);
        if last != '/' {
            s.append("/");
            proof {
                reveal_strlit("/");
                assert("/"@ =~= seq!['/']);
            }
        }
    }
    s.append("ldconsole.exe");
    proof {
        assert(s@ =~= spec_console_path(ld_dir@));
    }
    s
}

/// The single argument of the listing invocation.
pub fn list2_args() -> (r: Vec<String>)
    ensures
        r@.len() == 1,
        r@[0]@ == "list2"@,
{
    let mut v: Vec<String> = Vec::new();
    v.push(String::from_str("list2"));
    v
}

/// The arguments of the start invocation for the given instance index:
/// the start command, then `--index` with the index in decimal.
pub fn launch_args(index: i32) -> (r: Vec<String>)
    ensures
        r@.len() == 3,
        r@[0]@ == "launch"@,
        r@[1]@ == "--index"@,
        r@[2]@ == spec_int_str(index as int),
{
    let mut v: Vec<String> = Vec::new();
    v.push(String::from_str("launch"));
    v.push(String::from_str("--index"));
    v.push(index_arg(index));
    v
}

/// The arguments of the stop invocation for the given instance index:
/// the quit command, then `--index` with the index in decimal.
pub fn quit_args(index: i32) -> (r: Vec<String>)
    ensures
        r@.len() == 3,
        r@[0]@ == "quit"@,
        r@[1]@ == "--index"@,
        r@[2]@ == spec_int_str(index as int),
{
    let mut v: Vec<String> = Vec::new();
    v.push(String::from_str("quit"));
    v.push(String::from_str("--index"));
    v.push(index_arg(index));
    v
}

} // verus!
