//! Command lines of launched programs.

use vstd::prelude::*;
use vstd::string::*;

verus! {

/// Results up to this one mean that a launch failed.
pub const LAUNCH_FAILURE: usize = 32;

/// A command line, parted at its first space.
pub open spec fn parted(cmd: Seq<char>) -> (Seq<char>, Option<Seq<char>>) {
    match cmd.index_of_first(' ') {
        Some(i) => (cmd.take(i), Some(cmd.skip(i + 1))),
        None => (cmd, None),
    }
}

/// Part a command line: the first token is the executable, the rest is
/// passed as parameters.
pub fn split_command(cmd: &str) -> (r: (String, Option<String>))
    ensures
        r.0@ == parted(cmd@).0,
        r.1 is Some <==> parted(cmd@).1 is Some,
        r.1 matches Some(args) ==> args@ == (parted(cmd@).1)->0,
{
    let n: usize = cmd.unicode_len();
    let mut i: usize = 0;
    proof {
        cmd@.index_of_first_ensures(' ');
    }
    while i < n
        invariant
            i <= n,
            n == cmd@.len(),
            forall|k: int| 0 <= k < i ==> cmd@[k] != ' ',
            cmd@.index_of_first(' ') matches Some(f) ==> 0 <= f < n && cmd@[f] == ' ' && forall|
                k: int,
            | 0 <= k < f ==> cmd@[k] != ' ',
            cmd@.index_of_first(' ') is None ==> forall|k: int| 0 <= k < n ==> cmd@[k] != ' ',
        decreases n - i,
    {
        if cmd.get_char(i) == ' ' {
            let app = cmd.substring_char(0, i).to_owned();
            let args = cmd.substring_char(i + 1, n).to_owned();
            assert(cmd@.index_of_first(' ') == Some(i as int));
            return (app, Some(args));
        }
        i = i + 1;
    }
    (cmd.to_owned(), None)
}

/// Did the launch fail? The shell answers a small number then.
pub fn launch_failed(code: usize) -> (failed: bool)
    ensures
        failed == (code <= LAUNCH_FAILURE),
{
    code <= LAUNCH_FAILURE
}

/// Joined by a space again, the parts of a command line are the command
/// line.
pub proof fn law_command_rejoins(cmd: Seq<char>)
    ensures
        match parted(cmd).1 {
            Some(args) => parted(cmd).0.push(' ') + args == cmd,
            None => parted(cmd).0 == cmd,
        },
        !parted(cmd).0.contains(' '),
{
    cmd.index_of_first_ensures(' ');
    if let Some(args) = parted(cmd).1 {
        assert(parted(cmd).0.push(' ') + args =~= cmd);
    }
}

} // verus!
