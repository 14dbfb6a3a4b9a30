//! The header parser: extracting the interpreter invocation from the first
//! line of a script.
//!
//! The first line must begin with the two-character marker `#!` and hold,
//! among its whitespace-separated tokens, a single `--` separator token.
//! The tokens before the separator are the launcher's own invocation
//! (`exec_argv`); the tokens after it are prepended to the script's
//! arguments when the real interpreter is invoked (`script_argv`). The
//! separator itself belongs to neither half.

use vstd::prelude::*;

use crate::error::LauncherError;
use crate::text::{find_token, spec_find, spec_tokens, split_tokens};

verus! {

/// The two halves of a parsed header line.
#[derive(Debug, Clone, PartialEq, Eq)]
pub struct HeaderDirective {
    /// The launcher invocation named by the header: the launcher path
    /// followed by its flags.
    pub exec_argv: Vec<String>,
    /// The tokens to place before the script path when invoking the real
    /// interpreter.
    pub script_argv: Vec<String>,
}

/// Whether the line begins with the `#!` marker.
pub open spec fn has_shebang(line: Seq<char>) -> bool {
    line.len() >= 2 && line[0] == '#' && line[1] == '!'
}

/// What parsing a header line yields: the tokens split at the first `--`,
/// or `MalformedHeader` when the marker or the separator is missing.
pub open spec fn spec_parse_header(line: Seq<char>) -> Result<
    (Seq<Seq<char>>, Seq<Seq<char>>),
    LauncherError,
> {
    if !has_shebang(line) {
        Result::Err(LauncherError::MalformedHeader)
    } else {
        let toks = spec_tokens(line.skip(2));
        match spec_find(toks, "--"@) {
            Option::None => Result::Err(LauncherError::MalformedHeader),
            Option::Some(i) => Result::Ok((toks.take(i), toks.skip(i + 1))),
        }
    }
}

/// A header line that does not begin with `#!`, or whose tokens after
/// the marker hold no `--` separator, parses to `MalformedHeader` — and
/// nothing else does.
pub proof fn lemma_malformed_header(line: Seq<char>)
    ensures
        spec_parse_header(line) == Result::Err::<(Seq<Seq<char>>, Seq<Seq<char>>), LauncherError>(
            LauncherError::MalformedHeader,
        ) <==> (!has_shebang(line) || spec_find(spec_tokens(line.skip(2)), "--"@) is None),
{
}

/// Clone the tokens of `v` with indices in `[from, to)`.
fn clone_range(v: &Vec<String>, from: usize, to: usize) -> (r: Vec<String>)
    requires
        from <= to <= v.len(),
    ensures
        r.deep_view() == v.deep_view().subrange(from as int, to as int),
{
    let mut r: Vec<String> = Vec::new();
    let mut k = from;
    proof {
        assert(r.deep_view() =~= v.deep_view().subrange(from as int, from as int));
    }
    while k < to
        invariant
            from <= k <= to <= v.len(),
            r.deep_view() == v.deep_view().subrange(from as int, k as int),
        decreases to - k,
    {
        let ghost prev = r.deep_view();
        r.push(v[k].clone());
        proof {
            assert(r.deep_view() =~= prev.push(v@[k as int]@));
            assert(v.deep_view()[k as int] == v@[k as int]@);
            assert(r.deep_view() =~= v.deep_view().subrange(from as int, k + 1));
        }
        k = k + 1;
    }
    r
}

/// Parse a script's first line into the launcher invocation and the
/// interpreter arguments.
///
/// Fails with `MalformedHeader` exactly when the line does not begin with
/// `#!` or no `--` token follows the marker; otherwise returns the tokens
/// before the first `--` and the tokens after it.
pub fn parse_header_line(line: &str) -> (r: Result<HeaderDirective, LauncherError>)
    ensures
        match r {
            Result::Ok(h) => spec_parse_header(line@) == Result::Ok::<
                (Seq<Seq<char>>, Seq<Seq<char>>),
                LauncherError,
            >((h.exec_argv.deep_view(), h.script_argv.deep_view())),
            Result::Err(e) => spec_parse_header(line@) == Result::Err::<
                (Seq<Seq<char>>, Seq<Seq<char>>),
                LauncherError,
            >(e),
        },
{
    let n = line.unicode_len();
    if n < 2 {
        return Result::Err(LauncherError::MalformedHeader);
    }
    if line.get_char(0) != '#' || line.get_char(1) != '!' {
        return Result::Err(LauncherError::MalformedHeader);
    }
    let rest = line.substring_char(2, n);
    proof {
        assert(rest@ =~= line@.skip(2));
    }
    let toks = split_tokens(rest);
    let sep = String::from_str("--");
    match find_token(&toks, &sep) {
        Option::None => Result::Err(LauncherError::MalformedHeader),
        Option::Some(i) => {
            let exec_argv = clone_range(&toks, 0, i);
            let script_argv = clone_range(&toks, i + 1, toks.len());
            proof {
                assert(exec_argv.deep_view() =~= toks.deep_view().take(i as int));
                assert(script_argv.deep_view() =~= toks.deep_view().skip(i + 1));
            }
            Result::Ok(HeaderDirective { exec_argv, script_argv })
        },
    }
}

} // verus!
