//! The environment sanitizer: building the environment the target
//! interpreter starts with.
//!
//! Under the `Safe` policy (the default) the new environment holds only an
//! enumerated set of variables: `PATH` taken from the init process's
//! environment rather than the caller's, `LOGNAME`/`USER`/`HOME`/`SHELL`/
//! `MAIL` from the target account record, `TERM`/`LANG` from the caller
//! with fixed fallbacks, and the locale variables (`LANGUAGE`, `TZ`,
//! `LS_COLORS`, and every `LC_`-prefixed name) copied verbatim. Every other
//! caller-supplied variable is dropped.

use vstd::prelude::*;

use crate::error::LauncherError;
use crate::text::{spec_starts_with, str_has_prefix};

verus! {

/// One `KEY=VALUE` pair of the caller's environment, already split at the
/// first `=`.
#[derive(Debug, Clone, PartialEq, Eq)]
pub struct EnvVar {
    pub name: String,
    pub value: String,
}

/// The fields of a system account record that the sanitizer reads.
#[derive(Debug, Clone, PartialEq, Eq)]
pub struct UserRecord {
    /// The account name.
    pub name: String,
    /// The home directory.
    pub dir: String,
    /// The login shell.
    pub shell: String,
}

/// Which environment the new process receives.
#[derive(Debug, Clone, Copy, PartialEq, Eq, Structural)]
pub enum EnvironmentPolicy {
    /// An empty environment.
    KeepNone,
    /// The caller's environment, verbatim: an explicit opt-in.
    KeepAll,
    /// The minimal allow-listed environment for the target account.
    Safe,
}

/// The policy an `--environ` option value selects: `none` and `all` by
/// name, everything else (the default included) the safe policy.
pub open spec fn spec_policy_of(environ: Option<String>) -> EnvironmentPolicy {
    match environ {
        Option::None => EnvironmentPolicy::Safe,
        Option::Some(v) => if v@ == "none"@ {
            EnvironmentPolicy::KeepNone
        } else if v@ == "all"@ {
            EnvironmentPolicy::KeepAll
        } else {
            EnvironmentPolicy::Safe
        },
    }
}

/// Select the environment policy from the `--environ` option value.
pub fn policy_of(environ: &Option<String>) -> (r: EnvironmentPolicy)
    ensures
        r == spec_policy_of(*environ),
{
    match environ {
        Option::None => EnvironmentPolicy::Safe,
        Option::Some(v) => {
            if v.eq(&String::from_str("none")) {
                EnvironmentPolicy::KeepNone
            } else if v.eq(&String::from_str("all")) {
                EnvironmentPolicy::KeepAll
            } else {
                EnvironmentPolicy::Safe
            }
        },
    }
}

/// The value of the first variable of `env` named `k`, if any.
pub open spec fn spec_lookup(env: Seq<EnvVar>, k: Seq<char>) -> Option<Seq<char>>
    decreases env.len(),
{
    if env.len() == 0 {
        Option::None
    } else if env[0].name@ == k {
        Option::Some(env[0].value@)
    } else {
        spec_lookup(env.skip(1), k)
    }
}

proof fn lemma_lookup_hit(env: Seq<EnvVar>, k: Seq<char>, i: int)
    requires
        0 <= i < env.len(),
        env[i].name@ == k,
        forall|m: int| 0 <= m < i ==> (#[trigger] env[m].name)@ != k,
    ensures
        spec_lookup(env, k) == Option::Some(env[i].value@),
    decreases i,
{
    if i != 0 {
        assert(env[0].name@ != k);
        assert forall|m: int| 0 <= m < i - 1 implies (#[trigger] env.skip(1)[m].name)@ != k by {
            assert(env.skip(1)[m] == env[m + 1]);
        }
        assert(env.skip(1)[i - 1] == env[i]);
        lemma_lookup_hit(env.skip(1), k, i - 1);
    }
}

proof fn lemma_lookup_miss(env: Seq<EnvVar>, k: Seq<char>)
    requires
        forall|m: int| 0 <= m < env.len() ==> (#[trigger] env[m].name)@ != k,
    ensures
        spec_lookup(env, k) == Option::None::<Seq<char>>,
    decreases env.len(),
{
    if env.len() != 0 {
        assert forall|m: int| 0 <= m < env.len() - 1 implies (#[trigger] env.skip(1)[m].name)@
            != k by {
            assert(env.skip(1)[m] == env[m + 1]);
        }
        lemma_lookup_miss(env.skip(1), k);
    }
}

/// Find the value of the first variable of `env` named `k`.
pub fn lookup_env(env: &Vec<EnvVar>, k: &String) -> (r: Option<String>)
    ensures
        match r {
            Option::Some(v) => spec_lookup(env@, k@) == Option::Some(v@),
            Option::None => spec_lookup(env@, k@) == Option::None::<Seq<char>>,
        },
{
    let n = env.len();
    let mut i: usize = 0;
    while i < n
        invariant
            n == env.len(),
            i <= n,
            forall|m: int| 0 <= m < i ==> (#[trigger] env@[m].name)@ != k@,
        decreases n - i,
    {
        if env[i].name.eq(k) {
            proof {
                lemma_lookup_hit(env@, k@, i as int);
            }
            return Option::Some(env[i].value.clone());
        }
        i = i + 1;
    }
    proof {
        lemma_lookup_miss(env@, k@);
    }
    Option::None
}

/// The names the safe policy copies verbatim from the caller: the locale
/// variables.
pub open spec fn is_locale_name(k: Seq<char>) -> bool {
    k == "LANGUAGE"@ || k == "TZ"@ || k == "LS_COLORS"@ || spec_starts_with(k, "LC_"@)
}

/// Check whether `k` names a locale variable.
pub fn is_locale_var(k: &String) -> (r: bool)
    ensures
        r == is_locale_name(k@),
{
    k.eq(&String::from_str("LANGUAGE")) || k.eq(&String::from_str("TZ")) || k.eq(
        &String::from_str("LS_COLORS"),
    ) || str_has_prefix(k.as_str(), "LC_")
}

/// One formatted `KEY=VALUE` entry.
pub open spec fn spec_entry(v: EnvVar) -> Seq<char> {
    v.name@ + "="@ + v.value@
}

/// The caller's locale variables, formatted in their original order.
pub open spec fn spec_locale_entries(env: Seq<EnvVar>) -> Seq<Seq<char>>
    decreases env.len(),
{
    if env.len() == 0 {
        Seq::empty()
    } else {
        (if is_locale_name(env[0].name@) {
            seq![spec_entry(env[0])]
        } else {
            Seq::<Seq<char>>::empty()
        }) + spec_locale_entries(env.skip(1))
    }
}

/// The caller's whole environment, formatted in its original order.
pub open spec fn spec_all_entries(env: Seq<EnvVar>) -> Seq<Seq<char>>
    decreases env.len(),
{
    if env.len() == 0 {
        Seq::empty()
    } else {
        seq![spec_entry(env[0])] + spec_all_entries(env.skip(1))
    }
}

/// Format one `KEY=VALUE` entry.
fn format_entry(v: &EnvVar) -> (r: String)
    ensures
        r@ == spec_entry(*v),
{
    let r = String::from_str(v.name.as_str()).concat("=").concat(v.value.as_str());
    proof {
        assert(r@ =~= spec_entry(*v));
    }
    r
}

/// Build the environment the `All` policy hands over: the caller's
/// environment, verbatim.
pub fn build_all_env(caller: &Vec<EnvVar>) -> (r: Vec<String>)
    ensures
        r.deep_view() == spec_all_entries(caller@),
{
    let n = caller.len();
    let mut r: Vec<String> = Vec::new();
    proof {
        assert(caller@.skip(0) =~= caller@);
        assert(r.deep_view() =~= Seq::<Seq<char>>::empty());
    }
    let mut i: usize = 0;
    while i < n
        invariant
            n == caller.len(),
            i <= n,
            spec_all_entries(caller@) == r.deep_view() + spec_all_entries(caller@.skip(i as int)),
        decreases n - i,
    {
        let e = format_entry(&caller[i]);
        let ghost prev = r.deep_view();
        r.push(e);
        proof {
            let rest = caller@.skip(i as int);
            assert(rest[0] == caller@[i as int]);
            assert(rest.skip(1) =~= caller@.skip(i + 1));
            assert(r.deep_view() =~= prev.push(spec_entry(caller@[i as int])));
            assert(r.deep_view() + spec_all_entries(caller@.skip(i + 1)) =~= prev
                + spec_all_entries(rest));
        }
        i = i + 1;
    }
    proof {
        assert(caller@.skip(n as int) =~= Seq::<EnvVar>::empty());
        assert(spec_all_entries(caller@) =~= r.deep_view());
    }
    r
}

/// The environment the `Safe` policy hands over.
pub open spec fn spec_safe_env(u: UserRecord, path_entry: Seq<char>, caller: Seq<EnvVar>) -> Seq<
    Seq<char>,
> {
    seq![
        path_entry,
        "LOGNAME="@ + u.name@,
        "USER="@ + u.name@,
        "HOME="@ + u.dir@,
        "SHELL="@ + u.shell@,
        "MAIL=/var/mail/"@ + u.name@,
        "TERM="@ + spec_lookup_or(caller, "TERM"@, "unknown"@),
        "LANG="@ + spec_lookup_or(caller, "LANG"@, "en_US.UTF-8"@),
    ] + spec_locale_entries(caller)
}

/// The caller's value for `k`, or the fallback `d`.
pub open spec fn spec_lookup_or(env: Seq<EnvVar>, k: Seq<char>, d: Seq<char>) -> Seq<char> {
    match spec_lookup(env, k) {
        Option::Some(v) => v,
        Option::None => d,
    }
}

/// Build the minimal allow-listed environment for the target account.
///
/// `path_entry` is the `PATH=...` entry found in the init process's
/// environment; `caller` is the invoking process's environment.
pub fn build_safe_env(user: &UserRecord, path_entry: &String, caller: &Vec<EnvVar>) -> (r: Vec<
    String,
>)
    ensures
        r.deep_view() == spec_safe_env(*user, path_entry@, caller@),
{
    let mut r: Vec<String> = Vec::new();
    r.push(path_entry.clone());
    r.push(String::from_str("LOGNAME=").concat(user.name.as_str()));
    r.push(String::from_str("USER=").concat(user.name.as_str()));
    r.push(String::from_str("HOME=").concat(user.dir.as_str()));
    r.push(String::from_str("SHELL=").concat(user.shell.as_str()));
    r.push(String::from_str("MAIL=/var/mail/").concat(user.name.as_str()));
    let term = match lookup_env(caller, &String::from_str("TERM")) {
        Option::Some(v) => v,
        Option::None => String::from_str("unknown"),
    };
    r.push(String::from_str("TERM=").concat(term.as_str()));
    let lang = match lookup_env(caller, &String::from_str("LANG")) {
        Option::Some(v) => v,
        Option::None => String::from_str("en_US.UTF-8"),
    };
    r.push(String::from_str("LANG=").concat(lang.as_str()));
    proof {
        assert(term@ == spec_lookup_or(caller@, "TERM"@, "unknown"@));
        assert(lang@ == spec_lookup_or(caller@, "LANG"@, "en_US.UTF-8"@));
        assert(caller@.skip(0) =~= caller@);
        assert(r.deep_view() =~= spec_safe_env(*user, path_entry@, caller@).take(8));
        assert(spec_safe_env(*user, path_entry@, caller@) == r.deep_view()
            + spec_locale_entries(caller@.skip(0)));
    }
    let n = caller.len();
    let mut i: usize = 0;
    while i < n
        invariant
            n == caller.len(),
            i <= n,
            spec_safe_env(*user, path_entry@, caller@) == r.deep_view() + spec_locale_entries(
                caller@.skip(i as int),
            ),
        decreases n - i,
    {
        proof {
            let rest = caller@.skip(i as int);
            assert(rest[0] == caller@[i as int]);
            assert(rest.skip(1) =~= caller@.skip(i + 1));
        }
        if is_locale_var(&caller[i].name) {
            let e = format_entry(&caller[i]);
            let ghost prev = r.deep_view();
            r.push(e);
            proof {
                assert(r.deep_view() =~= prev.push(spec_entry(caller@[i as int])));
                assert(r.deep_view() + spec_locale_entries(caller@.skip(i + 1)) =~= prev
                    + spec_locale_entries(caller@.skip(i as int)));
            }
        }
        i = i + 1;
    }
    proof {
        assert(caller@.skip(n as int) =~= Seq::<EnvVar>::empty());
        assert(spec_safe_env(*user, path_entry@, caller@) =~= r.deep_view());
    }
    r
}

/// The index of the first `=` of `s`, or its length when it has none.
pub open spec fn eq_pos(s: Seq<char>) -> int
    decreases s.len(),
{
    if s.len() == 0 {
        0
    } else if s[0] == '=' {
        0
    } else {
        1 + eq_pos(s.skip(1))
    }
}

/// The name an environment entry carries: the text before its first `=`.
pub open spec fn spec_key_of(entry: Seq<char>) -> Seq<char> {
    entry.take(eq_pos(entry))
}

proof fn lemma_eq_pos_bounds(s: Seq<char>)
    ensures
        0 <= eq_pos(s) <= s.len(),
    decreases s.len(),
{
    if s.len() != 0 && s[0] != '=' {
        lemma_eq_pos_bounds(s.skip(1));
    }
}

proof fn lemma_eq_pos_at(s: Seq<char>, k: int)
    requires
        0 <= k <= s.len(),
        forall|m: int| 0 <= m < k ==> #[trigger] s[m] != '=',
        k == s.len() || s[k] == '=',
    ensures
        eq_pos(s) == k,
    decreases k,
{
    if k != 0 {
        assert(s[0] != '=');
        assert forall|m: int| 0 <= m < k - 1 implies #[trigger] s.skip(1)[m] != '=' by {
            assert(s.skip(1)[m] == s[m + 1]);
        }
        if k - 1 < s.skip(1).len() {
            assert(s.skip(1)[k - 1] == s[k]);
        }
        lemma_eq_pos_at(s.skip(1), k - 1);
    }
}

proof fn lemma_eq_pos_ge(s: Seq<char>, k: int)
    requires
        0 <= k <= s.len(),
        forall|m: int| 0 <= m < k ==> #[trigger] s[m] != '=',
    ensures
        eq_pos(s) >= k,
    decreases k,
{
    if k != 0 {
        assert(s[0] != '=');
        assert forall|m: int| 0 <= m < k - 1 implies #[trigger] s.skip(1)[m] != '=' by {
            assert(s.skip(1)[m] == s[m + 1]);
        }
        lemma_eq_pos_ge(s.skip(1), k - 1);
    } else {
        lemma_eq_pos_bounds(s);
    }
}

/// The name of an entry built as `prefix + rest`, when the prefix's first
/// `=` stands at index `k`: the prefix's first `k` characters.
proof fn lemma_key_of_prefixed(p: Seq<char>, rest: Seq<char>, k: int)
    requires
        0 <= k < p.len(),
        forall|m: int| 0 <= m < k ==> #[trigger] p[m] != '=',
        p[k] == '=',
    ensures
        spec_key_of(p + rest) == p.take(k),
{
    let e = p + rest;
    assert forall|m: int| 0 <= m < k implies #[trigger] e[m] != '=' by {
        assert(e[m] == p[m]);
    }
    assert(e[k] == p[k]);
    lemma_eq_pos_at(e, k);
    assert(e.take(k) =~= p.take(k));
}

/// The names the safe policy may emit.
pub open spec fn is_safe_env_name(k: Seq<char>) -> bool {
    ||| k == "PATH"@
    ||| k == "LOGNAME"@
    ||| k == "USER"@
    ||| k == "HOME"@
    ||| k == "SHELL"@
    ||| k == "MAIL"@
    ||| k == "TERM"@
    ||| k == "LANG"@
    ||| is_locale_name(k)
}

proof fn lemma_locale_entry_key(v: EnvVar)
    requires
        is_locale_name(v.name@),
    ensures
        is_safe_env_name(spec_key_of(spec_entry(v))),
{
    let k = v.name@;
    let e = k + "="@ + v.value@;
    assert(e =~= k + ("="@ + v.value@));
    reveal_strlit("=");
    if k == "LANGUAGE"@ || k == "TZ"@ || k == "LS_COLORS"@ {
        reveal_strlit("LANGUAGE");
        reveal_strlit("TZ");
        reveal_strlit("LS_COLORS");
        assert(forall|m: int| 0 <= m < k.len() ==> #[trigger] k[m] != '=');
        assert(("="@ + v.value@)[0] == '=');
        lemma_key_of_prefixed(k + seq!['='], v.value@, k.len() as int);
        assert(k + seq!['='] + v.value@ =~= e);
        assert((k + seq!['=']).take(k.len() as int) =~= k);
        assert(spec_key_of(e) == k);
    } else {
        reveal_strlit("LC_");
        assert(k.len() >= 3 && k.take(3) == "LC_"@);
        assert forall|m: int| 0 <= m < 3 implies #[trigger] e[m] != '=' by {
            assert(e[m] == k[m]);
            assert(k[m] == k.take(3)[m]);
        }
        lemma_eq_pos_ge(e, 3);
        lemma_eq_pos_bounds(e);
        let key = spec_key_of(e);
        assert(key.len() >= 3);
        assert forall|m: int| 0 <= m < 3 implies #[trigger] key.take(3)[m] == "LC_"@[m] by {
            assert(key.take(3)[m] == e[m]);
            assert(e[m] == k[m]);
            assert(k[m] == k.take(3)[m]);
        }
        assert(key.take(3) =~= "LC_"@);
        assert(spec_starts_with(key, "LC_"@));
    }
}

proof fn lemma_locale_entries_keys(caller: Seq<EnvVar>)
    ensures
        forall|j: int| 0 <= j < spec_locale_entries(caller).len() ==> is_safe_env_name(
            spec_key_of(#[trigger] spec_locale_entries(caller)[j]),
        ),
    decreases caller.len(),
{
    if caller.len() != 0 {
        lemma_locale_entries_keys(caller.skip(1));
        let out = spec_locale_entries(caller);
        let tail = spec_locale_entries(caller.skip(1));
        if is_locale_name(caller[0].name@) {
            lemma_locale_entry_key(caller[0]);
            assert(out == seq![spec_entry(caller[0])] + tail);
            assert forall|j: int| 0 <= j < out.len() implies is_safe_env_name(
                spec_key_of(#[trigger] out[j]),
            ) by {
                if j == 0 {
                    assert(out[0] == spec_entry(caller[0]));
                } else {
                    assert(out[j] == tail[j - 1]);
                }
            }
        } else {
            assert(out =~= tail);
            assert forall|j: int| 0 <= j < out.len() implies is_safe_env_name(
                spec_key_of(#[trigger] out[j]),
            ) by {
                assert(out[j] == tail[j]);
            }
        }
    }
}

/// The safe environment's allow-list law: whatever the caller's
/// environment holds, every entry the safe policy emits carries one of the
/// enumerated names (`PATH`, `LOGNAME`, `USER`, `HOME`, `SHELL`, `MAIL`,
/// `TERM`, `LANG`) or a locale name; no other caller variable survives.
pub proof fn lemma_safe_env_allowlist(u: UserRecord, path_entry: Seq<char>, caller: Seq<EnvVar>)
    requires
        spec_starts_with(path_entry, "PATH="@),
    ensures
        forall|i: int| 0 <= i < spec_safe_env(u, path_entry, caller).len() ==> is_safe_env_name(
            spec_key_of(#[trigger] spec_safe_env(u, path_entry, caller)[i]),
        ),
{
    let out = spec_safe_env(u, path_entry, caller);
    reveal_strlit("PATH=");
    reveal_strlit("PATH");
    assert forall|m: int| 0 <= m < 4 implies #[trigger] path_entry[m] != '=' by {
        assert(path_entry[m] == path_entry.take(5)[m]);
        assert(path_entry.take(5)[m] == "PATH="@[m]);
    }
    assert(path_entry[4] == path_entry.take(5)[4]);
    lemma_eq_pos_at(path_entry, 4);
    assert(path_entry.take(4) =~= "PATH"@);
    assert(is_safe_env_name(spec_key_of(out[0])));

    reveal_strlit("=");
    reveal_strlit("LOGNAME=");
    reveal_strlit("LOGNAME");
    lemma_key_of_prefixed("LOGNAME="@, u.name@, 7);
    assert("LOGNAME="@.take(7) =~= "LOGNAME"@);
    assert(is_safe_env_name(spec_key_of(out[1])));

    reveal_strlit("USER=");
    reveal_strlit("USER");
    lemma_key_of_prefixed("USER="@, u.name@, 4);
    assert("USER="@.take(4) =~= "USER"@);
    assert(is_safe_env_name(spec_key_of(out[2])));

    reveal_strlit("HOME=");
    reveal_strlit("HOME");
    lemma_key_of_prefixed("HOME="@, u.dir@, 4);
    assert("HOME="@.take(4) =~= "HOME"@);
    assert(is_safe_env_name(spec_key_of(out[3])));

    reveal_strlit("SHELL=");
    reveal_strlit("SHELL");
    lemma_key_of_prefixed("SHELL="@, u.shell@, 5);
    assert("SHELL="@.take(5) =~= "SHELL"@);
    assert(is_safe_env_name(spec_key_of(out[4])));

    reveal_strlit("MAIL=/var/mail/");
    reveal_strlit("MAIL");
    lemma_key_of_prefixed("MAIL=/var/mail/"@, u.name@, 4);
    assert("MAIL=/var/mail/"@.take(4) =~= "MAIL"@);
    assert(is_safe_env_name(spec_key_of(out[5])));

    reveal_strlit("TERM=");
    reveal_strlit("TERM");
    lemma_key_of_prefixed("TERM="@, spec_lookup_or(caller, "TERM"@, "unknown"@), 4);
    assert("TERM="@.take(4) =~= "TERM"@);
    assert(is_safe_env_name(spec_key_of(out[6])));

    reveal_strlit("LANG=");
    reveal_strlit("LANG");
    lemma_key_of_prefixed("LANG="@, spec_lookup_or(caller, "LANG"@, "en_US.UTF-8"@), 4);
    assert("LANG="@.take(4) =~= "LANG"@);
    assert(is_safe_env_name(spec_key_of(out[7])));

    lemma_locale_entries_keys(caller);
    assert forall|i: int| 0 <= i < out.len() implies is_safe_env_name(
        spec_key_of(#[trigger] out[i]),
    ) by {
        if i >= 8 {
            assert(out[i] == spec_locale_entries(caller)[i - 8]);
        }
    }
}

/// The `PATH=...` entry of the init process's environment: the first entry
/// beginning with `PATH=`, if any.
pub open spec fn spec_find_path_entry(entries: Seq<Seq<char>>) -> Option<Seq<char>>
    decreases entries.len(),
{
    if entries.len() == 0 {
        Option::None
    } else if spec_starts_with(entries[0], "PATH="@) {
        Option::Some(entries[0])
    } else {
        spec_find_path_entry(entries.skip(1))
    }
}

proof fn lemma_find_path_hit(entries: Seq<Seq<char>>, i: int)
    requires
        0 <= i < entries.len(),
        spec_starts_with(entries[i], "PATH="@),
        forall|m: int| 0 <= m < i ==> !spec_starts_with(#[trigger] entries[m], "PATH="@),
    ensures
        spec_find_path_entry(entries) == Option::Some(entries[i]),
    decreases i,
{
    if i != 0 {
        assert forall|m: int| 0 <= m < i - 1 implies !spec_starts_with(
            #[trigger] entries.skip(1)[m],
            "PATH="@,
        ) by {
            assert(entries.skip(1)[m] == entries[m + 1]);
        }
        assert(entries.skip(1)[i - 1] == entries[i]);
        lemma_find_path_hit(entries.skip(1), i - 1);
    }
}

proof fn lemma_find_path_miss(entries: Seq<Seq<char>>)
    requires
        forall|m: int| 0 <= m < entries.len() ==> !spec_starts_with(
            #[trigger] entries[m],
            "PATH="@,
        ),
    ensures
        spec_find_path_entry(entries) == Option::None::<Seq<char>>,
    decreases entries.len(),
{
    if entries.len() != 0 {
        assert forall|m: int| 0 <= m < entries.len() - 1 implies !spec_starts_with(
            #[trigger] entries.skip(1)[m],
            "PATH="@,
        ) by {
            assert(entries.skip(1)[m] == entries[m + 1]);
        }
        lemma_find_path_miss(entries.skip(1));
    }
}

/// Find the first `PATH=...` entry among the init process's environment
/// entries.
pub fn find_path_entry(entries: &Vec<String>) -> (r: Option<String>)
    ensures
        match r {
            Option::Some(v) => spec_find_path_entry(entries.deep_view()) == Option::Some(v@)
                && spec_starts_with(v@, "PATH="@),
            Option::None => spec_find_path_entry(entries.deep_view()) == Option::None::<
                Seq<char>,
            >,
        },
{
    let n = entries.len();
    let mut i: usize = 0;
    while i < n
        invariant
            n == entries.len(),
            i <= n,
            forall|m: int| 0 <= m < i ==> !spec_starts_with(
                #[trigger] entries.deep_view()[m],
                "PATH="@,
            ),
        decreases n - i,
    {
        if str_has_prefix(entries[i].as_str(), "PATH=") {
            proof {
                assert(entries.deep_view()[i as int] == entries@[i as int]@);
                lemma_find_path_hit(entries.deep_view(), i as int);
            }
            return Option::Some(entries[i].clone());
        }
        proof {
            assert(entries.deep_view()[i as int] == entries@[i as int]@);
        }
        i = i + 1;
    }
    proof {
        lemma_find_path_miss(entries.deep_view());
    }
    Option::None
}

/// Build the safe environment for the account of `effective_uid`: look
/// the account up in the system database — `UnknownUser` when it has no
/// record — and assemble the allow-listed environment around it.
pub fn build_safe_env_for(effective_uid: u32, path_entry: &String, caller_env: &Vec<EnvVar>) -> (r:
    Result<Vec<String>, LauncherError>)
    ensures
        r matches Result::Err(e) ==> e == LauncherError::UnknownUser,
        r matches Result::Ok(out) ==> exists|u: UserRecord|
            out.deep_view() == spec_safe_env(u, path_entry@, caller_env@),
        r matches Result::Ok(out) ==> (spec_starts_with(path_entry@, "PATH="@) ==> forall|i: int|
            0 <= i < out.deep_view().len() ==> is_safe_env_name(
                spec_key_of(#[trigger] out.deep_view()[i]),
            )),
{
    match crate::sys::lookup_user(effective_uid) {
        Option::None => Result::Err(LauncherError::UnknownUser),
        Option::Some(user) => {
            let out = build_safe_env(&user, path_entry, caller_env);
            proof {
                assert(out.deep_view() == spec_safe_env(user, path_entry@, caller_env@));
                if spec_starts_with(path_entry@, "PATH="@) {
                    lemma_safe_env_allowlist(user, path_entry@, caller_env@);
                }
            }
            Result::Ok(out)
        },
    }
}

} // verus!
