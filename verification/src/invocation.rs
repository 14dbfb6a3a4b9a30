//! The checks and assembly around the launcher's own invocation: parsing
//! the launcher flags out of the header's `exec_argv`, holding the
//! header's declared launcher path against the path actually invoked,
//! and assembling the argv handed to the real interpreter.

use vstd::prelude::*;

use crate::error::LauncherError;
use crate::sys;
use crate::sys::launcher_flags_of;

verus! {

/// The launcher flags a header's `exec_argv` carries.
#[derive(Debug, Clone, PartialEq, Eq)]
pub struct LaunchFlags {
    /// Collapse the new process's real ids onto the effective ids.
    pub use_real: bool,
    /// The `--environ` option's value, when one was given.
    pub environ: Option<String>,
}

/// Parse the launcher's flags: the `exec_argv` tokens after the launcher
/// path. Fails with `MalformedHeader` exactly when the flag parser
/// rejects them.
pub fn parse_launcher_flags(args: &Vec<String>) -> (r: Result<LaunchFlags, LauncherError>)
    ensures
        r is Ok <==> launcher_flags_of(args.deep_view()) is Some,
        r matches Result::Err(e) ==> e == LauncherError::MalformedHeader,
        r matches Result::Ok(f) ==> (launcher_flags_of(args.deep_view()) matches Option::Some(q)
            && f.use_real == q.0 && (match f.environ {
            Option::Some(s) => q.1 == Option::Some(s@),
            Option::None => q.1 is None,
        })),
{
    match sys::getopts_launcher_flags(args) {
        Option::Some(p) => Result::Ok(LaunchFlags { use_real: p.0, environ: p.1 }),
        Option::None => Result::Err(LauncherError::MalformedHeader),
    }
}

/// Hold the header's declared launcher path against the path the
/// launcher was actually invoked as; a mismatch is fatal, so a script
/// cannot claim a different trusted launcher than the one that ran.
pub fn check_executable_path(declared: &String, invoked: &String) -> (r: Result<
    (),
    LauncherError,
>)
    ensures
        r is Ok <==> declared@ == invoked@,
        r matches Result::Err(e) ==> e == LauncherError::ExecutableMismatch,
{
    if declared.eq(invoked) {
        Result::Ok(())
    } else {
        Result::Err(LauncherError::ExecutableMismatch)
    }
}

/// The argv handed to the real interpreter: the header's `script_argv`,
/// then the script path, then the user-supplied arguments, in that
/// order.
pub fn assemble_interpreter_argv(script_argv: &Vec<String>, path: &String, user_args: &Vec<
    String,
>) -> (r: Vec<String>)
    ensures
        r.deep_view() == script_argv.deep_view() + seq![path@] + user_args.deep_view(),
{
    let mut r: Vec<String> = Vec::new();
    let n = script_argv.len();
    let mut i: usize = 0;
    proof {
        assert(r.deep_view() =~= script_argv.deep_view().take(0));
    }
    while i < n
        invariant
            n == script_argv.len(),
            i <= n,
            r.deep_view() == script_argv.deep_view().take(i as int),
        decreases n - i,
    {
        let ghost prev = r.deep_view();
        r.push(script_argv[i].clone());
        proof {
            assert(script_argv.deep_view()[i as int] == script_argv@[i as int]@);
            assert(r.deep_view() =~= prev.push(script_argv.deep_view()[i as int]));
            assert(r.deep_view() =~= script_argv.deep_view().take(i + 1));
        }
        i = i + 1;
    }
    proof {
        assert(script_argv.deep_view().take(n as int) =~= script_argv.deep_view());
    }
    let ghost before_path = r.deep_view();
    r.push(path.clone());
    proof {
        assert(r.deep_view() =~= before_path.push(path@));
    }
    let m = user_args.len();
    let mut k: usize = 0;
    proof {
        assert(r.deep_view() =~= script_argv.deep_view() + seq![path@]
            + user_args.deep_view().take(0));
    }
    while k < m
        invariant
            m == user_args.len(),
            k <= m,
            r.deep_view() == script_argv.deep_view() + seq![path@] + user_args.deep_view().take(
                k as int,
            ),
        decreases m - k,
    {
        let ghost prev = r.deep_view();
        r.push(user_args[k].clone());
        proof {
            assert(user_args.deep_view()[k as int] == user_args@[k as int]@);
            assert(r.deep_view() =~= prev.push(user_args.deep_view()[k as int]));
            assert(user_args.deep_view().take(k + 1) =~= user_args.deep_view().take(
                k as int,
            ).push(user_args.deep_view()[k as int]));
            assert(r.deep_view() =~= script_argv.deep_view() + seq![path@]
                + user_args.deep_view().take(k + 1));
        }
        k = k + 1;
    }
    proof {
        assert(user_args.deep_view().take(m as int) =~= user_args.deep_view());
    }
    r
}

} // verus!
