//! The path trust validator.
//!
//! Before any privileged action, a target path must pass two checks:
//!
//! 1. **Hierarchical root ownership** — every component of the literal
//!    absolute form of the path, from the filesystem root down to the
//!    leaf, is owned by the superuser, each queried with a
//!    no-symlink-follow stat.
//! 2. **Mount suid eligibility** — the mount table entry matching the
//!    canonical (symlink-resolved) form of the path must not carry the
//!    `nosuid` option. The match is the last table entry whose mount
//!    point is a path prefix of the canonical path: mount tables are
//!    ordered, and later entries shadow earlier ones.
//!
//! The asymmetry is deliberate: the ownership walk defends the literal
//! invocation path, while the mount check defends the physical storage
//! the bytes live on.

use vstd::prelude::*;

use crate::error::LauncherError;
use crate::sys;
use crate::text::{spec_starts_with, spec_tokens, split_tokens, str_has_prefix};

verus! {

/// The absolute form of `path`: itself when already absolute, else `cwd`
/// and `path` joined with a slash.
pub open spec fn spec_abs_path(path: Seq<char>, cwd: Seq<char>) -> Seq<char> {
    if path.len() >= 1 && path[0] == '/' {
        path
    } else {
        cwd + "/"@ + path
    }
}

/// Resolve `path` against `cwd` without touching the filesystem.
pub fn join_path(path: &str, cwd: &str) -> (r: String)
    ensures
        r@ == spec_abs_path(path@, cwd@),
{
    if path.unicode_len() >= 1 && path.get_char(0) == '/' {
        String::from_str(path)
    } else {
        let r = String::from_str(cwd).concat("/").concat(path);
        proof {
            assert(r@ =~= cwd@ + "/"@ + path@);
        }
        r
    }
}

/// The prefixes of `abs` that end just before a slash at index `j` or
/// later, closed by `abs` itself.
pub open spec fn spec_cuts(abs: Seq<char>, j: int) -> Seq<Seq<char>>
    decreases abs.len() - j + 1,
{
    if j < 0 || j > abs.len() {
        Seq::empty()
    } else if j == abs.len() {
        seq![abs]
    } else if abs[j] == '/' {
        seq![abs.take(j)] + spec_cuts(abs, j + 1)
    } else {
        spec_cuts(abs, j + 1)
    }
}

/// Every path the ownership walk must stat, in root-to-leaf order: the
/// filesystem root, then each successive component prefix of `abs`.
pub open spec fn spec_walk_paths(abs: Seq<char>) -> Seq<Seq<char>> {
    seq!["/"@] + spec_cuts(abs, 2)
}

/// List the paths the ownership walk stats, from the root down.
pub fn prefix_paths(abs: &str) -> (r: Vec<String>)
    requires
        abs@.len() >= 1,
        abs@[0] == '/',
    ensures
        r.deep_view() == spec_walk_paths(abs@),
{
    let n = abs.unicode_len();
    let mut r: Vec<String> = Vec::new();
    r.push(String::from_str("/"));
    proof {
        assert(r.deep_view() =~= seq!["/"@]);
    }
    let mut j: usize = 2;
    while j < n
        invariant
            n == abs@.len(),
            2 <= j,
            j <= n || j == 2,
            spec_walk_paths(abs@) == r.deep_view() + spec_cuts(abs@, j as int),
        decreases n - j,
    {
        if abs.get_char(j) == '/' {
            let p = String::from_str(abs.substring_char(0, j));
            let ghost prev = r.deep_view();
            r.push(p);
            proof {
                assert(abs@.subrange(0, j as int) =~= abs@.take(j as int));
                assert(r.deep_view() =~= prev.push(abs@.take(j as int)));
                assert(spec_cuts(abs@, j as int) == seq![abs@.take(j as int)] + spec_cuts(
                    abs@,
                    j + 1,
                ));
                assert(r.deep_view() + spec_cuts(abs@, j + 1) =~= prev + spec_cuts(
                    abs@,
                    j as int,
                ));
            }
        } else {
            proof {
                assert(spec_cuts(abs@, j as int) == spec_cuts(abs@, j + 1));
            }
        }
        j = j + 1;
    }
    if j == n {
        let ghost prev = r.deep_view();
        r.push(String::from_str(abs));
        proof {
            assert(spec_cuts(abs@, n as int) == seq![abs@]);
            assert(r.deep_view() =~= prev.push(abs@));
            assert(r.deep_view() =~= prev + spec_cuts(abs@, n as int));
        }
    } else {
        proof {
            assert(j == 2 && n < 2);
            assert(spec_cuts(abs@, j as int) =~= Seq::<Seq<char>>::empty());
            assert(r.deep_view() =~= r.deep_view() + spec_cuts(abs@, j as int));
        }
    }
    r
}

/// A component owner that fails the walk: a successful stat reporting a
/// non-superuser owner.
pub open spec fn is_bad_owner(o: Option<u32>) -> bool {
    o matches Option::Some(u) && u != 0
}

/// The walk's verdict over what the per-component stats observed
/// (`None`: the stat failed). Any non-superuser owner condemns the path;
/// otherwise any failed stat makes it unreachable; otherwise it is
/// trusted.
pub open spec fn spec_ownership_verdict(obs: Seq<Option<u32>>) -> Result<(), LauncherError> {
    if exists|i: int| 0 <= i < obs.len() && is_bad_owner(#[trigger] obs[i]) {
        Result::Err(LauncherError::UntrustedOwnership)
    } else if exists|i: int| 0 <= i < obs.len() && (#[trigger] obs[i]) is None {
        Result::Err(LauncherError::NotFound)
    } else {
        Result::Ok(())
    }
}

/// Decide the ownership walk's verdict from the observed owners.
pub fn ownership_verdict(obs: &Vec<Option<u32>>) -> (r: Result<(), LauncherError>)
    ensures
        r == spec_ownership_verdict(obs@),
{
    let n = obs.len();
    let mut saw_bad = false;
    let mut saw_missing = false;
    let mut i: usize = 0;
    while i < n
        invariant
            n == obs.len(),
            i <= n,
            saw_bad == exists|k: int| 0 <= k < i && is_bad_owner(#[trigger] obs@[k]),
            saw_missing == exists|k: int| 0 <= k < i && (#[trigger] obs@[k]) is None,
        decreases n - i,
    {
        match obs[i] {
            Option::Some(u) => {
                if u != 0 {
                    proof {
                        assert(is_bad_owner(obs@[i as int]));
                    }
                    saw_bad = true;
                }
            },
            Option::None => {
                saw_missing = true;
            },
        }
        i = i + 1;
    }
    if saw_bad {
        Result::Err(LauncherError::UntrustedOwnership)
    } else if saw_missing {
        Result::Err(LauncherError::NotFound)
    } else {
        Result::Ok(())
    }
}

/// Observe the owner of each listed path with a no-follow stat.
fn observe_owners(prefixes: &Vec<String>) -> (obs: Vec<Option<u32>>)
    ensures
        obs@.len() == prefixes@.len(),
{
    let n = prefixes.len();
    let mut obs: Vec<Option<u32>> = Vec::new();
    let mut i: usize = 0;
    while i < n
        invariant
            n == prefixes.len(),
            i <= n,
            obs@.len() == i,
        decreases n - i,
    {
        obs.push(sys::lstat_owner_uid(prefixes[i].as_str()));
        i = i + 1;
    }
    obs
}

/// Walk every component of the absolute form of `path` — the root and
/// each ancestor directory included — and demand that the superuser owns
/// each one. The walk queries the literal path text: it never follows the
/// path's canonical resolution.
pub fn check_hierarchical_ownership(path: &str, cwd: &str) -> (r: Result<(), LauncherError>)
    requires
        cwd@.len() >= 1,
        cwd@[0] == '/',
    ensures
        r matches Result::Err(e) ==> (e == LauncherError::UntrustedOwnership || e
            == LauncherError::NotFound),
{
    if path.unicode_len() == 0 {
        return Result::Err(LauncherError::NotFound);
    }
    let abs = join_path(path, cwd);
    proof {
        assert(abs@.len() >= 1 && abs@[0] == '/');
    }
    let prefixes = prefix_paths(abs.as_str());
    let obs = observe_owners(&prefixes);
    ownership_verdict(&obs)
}

/// Whether mount point `p` covers path `q`: `p` is `q` itself, or a
/// prefix of `q` ending at a component boundary.
pub open spec fn spec_path_prefix(p: Seq<char>, q: Seq<char>) -> bool {
    &&& spec_starts_with(q, p)
    &&& (p.len() == q.len() || q[p.len() as int] == '/' || (p.len() >= 1 && p[p.len() - 1]
        == '/'))
}

/// Check whether mount point `p` covers path `q`.
pub fn is_path_prefix(p: &str, q: &str) -> (r: bool)
    ensures
        r == spec_path_prefix(p@, q@),
{
    if !str_has_prefix(q, p) {
        return false;
    }
    let pn = p.unicode_len();
    let qn = q.unicode_len();
    if pn == qn {
        return true;
    }
    if q.get_char(pn) == '/' {
        return true;
    }
    pn >= 1 && p.get_char(pn - 1) == '/'
}

/// The options column of the mount table entry matching `canon`: the
/// last line with at least four whitespace-separated fields whose second
/// field (the mount point) covers `canon`; its fourth field is the
/// options.
pub open spec fn spec_mount_options(lines: Seq<Seq<char>>, canon: Seq<char>) -> Option<Seq<char>>
    decreases lines.len(),
{
    if lines.len() == 0 {
        Option::None
    } else {
        let f = spec_tokens(lines.last());
        if f.len() >= 4 && spec_path_prefix(f[1], canon) {
            Option::Some(f[3])
        } else {
            spec_mount_options(lines.drop_last(), canon)
        }
    }
}

/// Find the options of the mount table entry matching `canon`, scanning
/// the table from its last line up.
pub fn find_mount_options(lines: &Vec<String>, canon: &str) -> (r: Option<String>)
    ensures
        match r {
            Option::Some(o) => spec_mount_options(lines.deep_view(), canon@) == Option::Some(
                o@,
            ),
            Option::None => spec_mount_options(lines.deep_view(), canon@) == Option::None::<
                Seq<char>,
            >,
        },
{
    let mut idx = lines.len();
    proof {
        assert(lines.deep_view().take(idx as int) =~= lines.deep_view());
    }
    while idx > 0
        invariant
            idx <= lines.len(),
            spec_mount_options(lines.deep_view(), canon@) == spec_mount_options(
                lines.deep_view().take(idx as int),
                canon@,
            ),
        decreases idx,
    {
        idx = idx - 1;
        let mut f = split_tokens(lines[idx].as_str());
        let ghost dv = lines.deep_view();
        proof {
            assert(dv.take(idx + 1).last() == dv[idx as int]);
            assert(dv.take(idx + 1).drop_last() =~= dv.take(idx as int));
            assert(dv[idx as int] == lines@[idx as int]@);
        }
        if f.len() >= 4 && is_path_prefix(f[1].as_str(), canon) {
            proof {
                assert(f.deep_view()[1] == f@[1]@);
                assert(f.deep_view()[3] == f@[3]@);
                assert(spec_mount_options(dv.take(idx + 1), canon@) == Option::Some(
                    f.deep_view()[3],
                ));
            }
            let o = f.remove(3);
            return Option::Some(o);
        }
        proof {
            if f.len() >= 4 {
                assert(f.deep_view()[1] == f@[1]@);
            }
            assert(spec_mount_options(dv.take(idx + 1), canon@) == spec_mount_options(
                dv.take(idx as int),
                canon@,
            ));
        }
    }
    proof {
        assert(lines.deep_view().take(0) =~= Seq::<Seq<char>>::empty());
    }
    Option::None
}

/// The index of the first comma of `s`, or its length when it has none.
pub open spec fn comma_pos(s: Seq<char>) -> int
    decreases s.len(),
{
    if s.len() == 0 {
        0
    } else if s[0] == ',' {
        0
    } else {
        1 + comma_pos(s.skip(1))
    }
}

proof fn lemma_comma_pos_bounds(s: Seq<char>)
    ensures
        0 <= comma_pos(s) <= s.len(),
    decreases s.len(),
{
    if s.len() != 0 && s[0] != ',' {
        lemma_comma_pos_bounds(s.skip(1));
    }
}

proof fn lemma_comma_pos_at(s: Seq<char>, k: int)
    requires
        0 <= k <= s.len(),
        forall|m: int| 0 <= m < k ==> #[trigger] s[m] != ',',
        k == s.len() || s[k] == ',',
    ensures
        comma_pos(s) == k,
    decreases k,
{
    if k != 0 {
        assert(s[0] != ',');
        assert forall|m: int| 0 <= m < k - 1 implies #[trigger] s.skip(1)[m] != ',' by {
            assert(s.skip(1)[m] == s[m + 1]);
        }
        if k - 1 < s.skip(1).len() {
            assert(s.skip(1)[k - 1] == s[k]);
        }
        lemma_comma_pos_at(s.skip(1), k - 1);
    }
}

/// The comma-separated fields of `s`, in order; empty fields included.
pub open spec fn spec_csv(s: Seq<char>) -> Seq<Seq<char>>
    decreases s.len(),
    via spec_csv_decreases
{
    let k = comma_pos(s);
    if k == s.len() {
        seq![s]
    } else {
        seq![s.take(k)] + spec_csv(s.skip(k + 1))
    }
}

#[via_fn]
proof fn spec_csv_decreases(s: Seq<char>) {
    lemma_comma_pos_bounds(s);
}

proof fn lemma_contains_cons(h: Seq<char>, tl: Seq<Seq<char>>, x: Seq<char>)
    ensures
        (seq![h] + tl).contains(x) <==> (h == x || tl.contains(x)),
{
    let c = seq![h] + tl;
    if c.contains(x) {
        let i = choose|i: int| 0 <= i < c.len() && c[i] == x;
        if i == 0 {
            assert(h == x);
        } else {
            assert(tl[i - 1] == x);
        }
    }
    if h == x {
        assert(c[0] == x);
    }
    if tl.contains(x) {
        let i = choose|i: int| 0 <= i < tl.len() && tl[i] == x;
        assert(c[i + 1] == x);
    }
}

/// Check whether the comma-separated option set `options` contains the
/// `nosuid` option.
pub fn has_nosuid(options: &str) -> (r: bool)
    ensures
        r == spec_csv(options@).contains("nosuid"@),
{
    let n = options.unicode_len();
    let nosuid = String::from_str("nosuid");
    let mut start: usize = 0;
    proof {
        assert(options@.skip(0) =~= options@);
    }
    loop
        invariant
            n == options@.len(),
            start <= n,
            nosuid@ == "nosuid"@,
            spec_csv(options@).contains("nosuid"@) == spec_csv(
                options@.skip(start as int),
            ).contains("nosuid"@),
        decreases n - start,
    {
        let ghost rest = options@.skip(start as int);
        let mut j = start;
        loop
            invariant
                n == options@.len(),
                start <= j <= n,
                forall|m: int| start <= m < j ==> #[trigger] options@[m] != ',',
            ensures
                start <= j <= n,
                forall|m: int| start <= m < j ==> #[trigger] options@[m] != ',',
                j == n || options@[j as int] == ',',
            decreases n - j,
        {
            if j == n {
                break ;
            }
            if options.get_char(j) == ',' {
                break ;
            }
            j = j + 1;
        }
        let field = String::from_str(options.substring_char(start, j));
        proof {
            assert forall|m: int| 0 <= m < j - start implies #[trigger] rest[m] != ',' by {
                assert(rest[m] == options@[m + start]);
            }
            if j - start < rest.len() {
                assert(rest[j - start] == options@[j as int]);
            }
            lemma_comma_pos_at(rest, j - start);
            assert(rest.take(j - start) =~= options@.subrange(start as int, j as int));
        }
        if field.eq(&nosuid) {
            proof {
                assert(field@ == "nosuid"@);
                if j == n {
                    assert(rest.take(j - start) =~= rest);
                    assert(comma_pos(rest) == rest.len());
                    assert(spec_csv(rest) == seq![rest]);
                    assert(spec_csv(rest)[0] == rest);
                    assert(rest == field@);
                } else {
                    assert(comma_pos(rest) == j - start < rest.len());
                    assert(spec_csv(rest) == seq![rest.take(j - start)] + spec_csv(
                        rest.skip(j - start + 1),
                    ));
                    assert(spec_csv(rest)[0] == rest.take(j - start));
                    assert(rest.take(j - start) == field@);
                }
                assert(spec_csv(rest).contains("nosuid"@)) by {
                    assert(spec_csv(rest)[0] == "nosuid"@);
                }
            }
            return true;
        }
        if j == n {
            proof {
                assert(rest.take(j - start) =~= rest);
                assert(rest == field@);
                assert(comma_pos(rest) == rest.len());
                assert(spec_csv(rest) == seq![rest]);
                if spec_csv(rest).contains("nosuid"@) {
                    let i = choose|i: int|
                        0 <= i < spec_csv(rest).len() && spec_csv(rest)[i] == "nosuid"@;
                    assert(spec_csv(rest)[i] == rest);
                    assert(field@ == "nosuid"@);
                }
            }
            return false;
        }
        proof {
            let tail = rest.skip(j - start + 1);
            assert(spec_csv(rest) == seq![rest.take(j - start)] + spec_csv(tail));
            lemma_contains_cons(rest.take(j - start), spec_csv(tail), "nosuid"@);
            assert(rest.take(j - start) == field@);
            assert(field@ != "nosuid"@);
            assert(tail =~= options@.skip(j + 1));
        }
        start = j + 1;
    }
}

/// The mount check's verdict over the mount table and the canonical
/// path: `MountNotFound` when no entry matches, `NoSuidMount` when the
/// matching entry's options contain `nosuid`, and acceptance otherwise.
pub open spec fn spec_mount_verdict(lines: Seq<Seq<char>>, canon: Seq<char>) -> Result<
    (),
    LauncherError,
> {
    match spec_mount_options(lines, canon) {
        Option::None => Result::Err(LauncherError::MountNotFound),
        Option::Some(opts) => if spec_csv(opts).contains("nosuid"@) {
            Result::Err(LauncherError::NoSuidMount)
        } else {
            Result::Ok(())
        },
    }
}

/// Check that the mount holding `canon` permits set-id execution.
pub fn check_mount_suid(lines: &Vec<String>, canon: &str) -> (r: Result<(), LauncherError>)
    ensures
        r == spec_mount_verdict(lines.deep_view(), canon@),
{
    match find_mount_options(lines, canon) {
        Option::None => Result::Err(LauncherError::MountNotFound),
        Option::Some(opts) => {
            if has_nosuid(opts.as_str()) {
                Result::Err(LauncherError::NoSuidMount)
            } else {
                Result::Ok(())
            }
        },
    }
}

/// Validate that `path` may be trusted for privileged execution: it
/// exists, the superuser owns every component of its literal absolute
/// form, and the mount holding its canonical location permits set-id
/// execution.
///
/// `cwd` resolves a relative path; `mount_lines` are the live mount
/// table's lines; `canon` is the canonical (symlink-resolved) form of
/// `path`. The checks run in a fixed order — existence, ownership,
/// mount — and the first failure decides.
pub fn validate_secure_path(path: &str, cwd: &str, mount_lines: &Vec<String>, canon: &str) -> (r:
    Result<(), LauncherError>)
    requires
        cwd@.len() >= 1,
        cwd@[0] == '/',
    ensures
        r is Ok ==> spec_mount_verdict(mount_lines.deep_view(), canon@) == Result::Ok::<
            (),
            LauncherError,
        >(()),
        !(spec_mount_verdict(mount_lines.deep_view(), canon@) is Ok) ==> r is Err,
        r == Result::Err::<(), LauncherError>(LauncherError::NoSuidMount) ==> spec_mount_verdict(
            mount_lines.deep_view(),
            canon@,
        ) == Result::Err::<(), LauncherError>(LauncherError::NoSuidMount),
        r == Result::Err::<(), LauncherError>(LauncherError::MountNotFound) ==> spec_mount_verdict(
            mount_lines.deep_view(),
            canon@,
        ) == Result::Err::<(), LauncherError>(LauncherError::MountNotFound),
        r matches Result::Err(e) ==> (e == LauncherError::NotFound || e
            == LauncherError::UntrustedOwnership || e == LauncherError::NoSuidMount || e
            == LauncherError::MountNotFound),
{
    if sys::stat_file_meta(path).is_none() {
        return Result::Err(LauncherError::NotFound);
    }
    match check_hierarchical_ownership(path, cwd) {
        Result::Err(e) => {
            return Result::Err(e);
        },
        Result::Ok(()) => {},
    }
    check_mount_suid(mount_lines, canon)
}

/// A single non-superuser-owned component — ancestor directories
/// included — forces `UntrustedOwnership`, whatever every other
/// component's owner is (the leaf's included).
pub proof fn lemma_untrusted_ancestor_rejected(obs: Seq<Option<u32>>, i: int)
    requires
        0 <= i < obs.len(),
        is_bad_owner(obs[i]),
    ensures
        spec_ownership_verdict(obs) == Result::Err::<(), LauncherError>(
            LauncherError::UntrustedOwnership,
        ),
{
    assert(exists|k: int| 0 <= k < obs.len() && is_bad_owner(#[trigger] obs[k])) by {
        assert(is_bad_owner(obs[i]));
    }
}

/// A matched mount entry carrying `nosuid` forces `NoSuidMount`,
/// whatever the ownership walk found.
pub proof fn lemma_nosuid_mount_rejected(lines: Seq<Seq<char>>, canon: Seq<char>, opts: Seq<char>)
    requires
        spec_mount_options(lines, canon) == Option::Some(opts),
        spec_csv(opts).contains("nosuid"@),
    ensures
        spec_mount_verdict(lines, canon) == Result::Err::<(), LauncherError>(
            LauncherError::NoSuidMount,
        ),
{
}

/// Validation is idempotent: the verdict is a function of what the
/// system presents — the per-component owners, the mount table and the
/// canonical path. An unmodified path presents the same data to two
/// validations, which therefore reach the same accept/reject decision.
pub proof fn lemma_validation_idempotent(
    obs1: Seq<Option<u32>>,
    obs2: Seq<Option<u32>>,
    lines1: Seq<Seq<char>>,
    lines2: Seq<Seq<char>>,
    canon1: Seq<char>,
    canon2: Seq<char>,
)
    requires
        obs1 == obs2,
        lines1 == lines2,
        canon1 == canon2,
    ensures
        spec_ownership_verdict(obs1) == spec_ownership_verdict(obs2),
        spec_mount_verdict(lines1, canon1) == spec_mount_verdict(lines2, canon2),
{
}

} // verus!
