//! Splitting lines into whitespace-separated tokens, and locating a token
//! in a token list.
//!
//! Both the script header and the mount table are lines of
//! whitespace-separated fields; this module gives both parsers one verified
//! tokenizer. Tokens are separated by ASCII whitespace.

use vstd::prelude::*;

verus! {

/// ASCII whitespace: what separates tokens on a header or mount table line.
pub open spec fn is_space(c: char) -> bool {
    c == ' ' || c == '\t' || c == '\n' || c == '\r'
}

fn char_is_space(c: char) -> (r: bool)
    ensures
        r == is_space(c),
{
    c == ' ' || c == '\t' || c == '\n' || c == '\r'
}

/// Length of the maximal leading run of non-space characters of `s`.
pub open spec fn token_end(s: Seq<char>) -> int
    decreases s.len(),
{
    if s.len() == 0 {
        0
    } else if is_space(s[0]) {
        0
    } else {
        1 + token_end(s.skip(1))
    }
}

proof fn lemma_token_end_bounds(s: Seq<char>)
    ensures
        0 <= token_end(s) <= s.len(),
    decreases s.len(),
{
    if s.len() != 0 && !is_space(s[0]) {
        lemma_token_end_bounds(s.skip(1));
    }
}

/// `token_end` is exactly the first index holding a space (or the length,
/// when there is none).
proof fn lemma_token_end_at(s: Seq<char>, k: int)
    requires
        0 <= k <= s.len(),
        forall|m: int| 0 <= m < k ==> !is_space(#[trigger] s[m]),
        k == s.len() || is_space(s[k]),
    ensures
        token_end(s) == k,
    decreases k,
{
    if k != 0 {
        assert(!is_space(s[0]));
        assert forall|m: int| 0 <= m < k - 1 implies !is_space(#[trigger] s.skip(1)[m]) by {
            assert(s.skip(1)[m] == s[m + 1]);
        }
        if k - 1 < s.skip(1).len() {
            assert(s.skip(1)[k - 1] == s[k]);
        }
        lemma_token_end_at(s.skip(1), k - 1);
    }
}

/// The whitespace-separated tokens of `s`, in order, each one a maximal run
/// of non-space characters.
pub open spec fn spec_tokens(s: Seq<char>) -> Seq<Seq<char>>
    decreases s.len(),
    via spec_tokens_decreases
{
    if s.len() == 0 {
        Seq::empty()
    } else if is_space(s[0]) {
        spec_tokens(s.skip(1))
    } else {
        seq![s.take(token_end(s))] + spec_tokens(s.skip(token_end(s)))
    }
}

#[via_fn]
proof fn spec_tokens_decreases(s: Seq<char>) {
    lemma_token_end_bounds(s);
    if s.len() != 0 && !is_space(s[0]) {
        lemma_token_end_bounds(s.skip(1));
        assert(token_end(s) == 1 + token_end(s.skip(1)));
        assert(token_end(s) >= 1);
    }
}

/// Split `s` into its whitespace-separated tokens.
pub fn split_tokens(s: &str) -> (r: Vec<String>)
    ensures
        r.deep_view() == spec_tokens(s@),
{
    let n = s.unicode_len();
    let mut r: Vec<String> = Vec::new();
    proof {
        assert(s@.skip(0) =~= s@);
        assert(r.deep_view() =~= Seq::<Seq<char>>::empty());
    }
    let mut i: usize = 0;
    while i < n
        invariant
            n == s@.len(),
            i <= n,
            spec_tokens(s@) == r.deep_view() + spec_tokens(s@.skip(i as int)),
        decreases n - i,
    {
        if char_is_space(s.get_char(i)) {
            proof {
                assert(s@.skip(i as int).skip(1) =~= s@.skip(i + 1));
            }
            i = i + 1;
        } else {
            let start = i;
            let mut j = i + 1;
            loop
                invariant
                    n == s@.len(),
                    start < j <= n,
                    !is_space(s@[start as int]),
                    forall|m: int| start <= m < j ==> !is_space(#[trigger] s@[m]),
                ensures
                    start < j <= n,
                    forall|m: int| start <= m < j ==> !is_space(#[trigger] s@[m]),
                    j == n || is_space(s@[j as int]),
                decreases n - j,
            {
                if j == n {
                    break ;
                }
                if char_is_space(s.get_char(j)) {
                    break ;
                }
                j = j + 1;
            }
            let tok = s.substring_char(start, j);
            let tok_string = String::from_str(tok);
            let ghost prev = r.deep_view();
            r.push(tok_string);
            proof {
                let rest = s@.skip(start as int);
                assert forall|m: int| 0 <= m < j - start implies !is_space(
                    #[trigger] rest[m],
                ) by {
                    assert(rest[m] == s@[m + start]);
                }
                assert(rest[0] == s@[start as int]);
                if j - start < rest.len() {
                    assert(rest[j - start] == s@[j as int]);
                }
                lemma_token_end_at(rest, j - start);
                assert(rest.take(j - start) =~= s@.subrange(start as int, j as int));
                assert(rest.skip(j - start) =~= s@.skip(j as int));
                assert(spec_tokens(rest) == seq![s@.subrange(start as int, j as int)]
                    + spec_tokens(s@.skip(j as int)));
                assert(tok_string@ == s@.subrange(start as int, j as int));
                assert(r.deep_view() =~= prev.push(tok_string@));
                assert(r.deep_view() + spec_tokens(s@.skip(j as int)) =~= prev + spec_tokens(
                    rest,
                ));
            }
            i = j;
        }
    }
    proof {
        assert(s@.skip(i as int) =~= Seq::<char>::empty());
        assert(spec_tokens(s@) =~= r.deep_view());
    }
    r
}

/// Whether `p` is a leading run of `s`.
pub open spec fn spec_starts_with(s: Seq<char>, p: Seq<char>) -> bool {
    s.len() >= p.len() && s.take(p.len() as int) == p
}

/// Check whether `s` begins with `p`.
pub fn str_has_prefix(s: &str, p: &str) -> (r: bool)
    ensures
        r == spec_starts_with(s@, p@),
{
    let sn = s.unicode_len();
    let pn = p.unicode_len();
    if sn < pn {
        return false;
    }
    let mut i: usize = 0;
    while i < pn
        invariant
            sn == s@.len(),
            pn == p@.len(),
            pn <= sn,
            i <= pn,
            forall|m: int| 0 <= m < i ==> #[trigger] s@[m] == p@[m],
        decreases pn - i,
    {
        if s.get_char(i) != p.get_char(i) {
            proof {
                assert(s@.take(pn as int)[i as int] != p@[i as int]);
            }
            return false;
        }
        i = i + 1;
    }
    proof {
        assert(s@.take(pn as int) =~= p@);
    }
    true
}

/// The index of the first occurrence of `t` in `toks`, if any.
pub open spec fn spec_find(toks: Seq<Seq<char>>, t: Seq<char>) -> Option<int>
    decreases toks.len(),
{
    if toks.len() == 0 {
        Option::None
    } else if toks[0] == t {
        Option::Some(0int)
    } else {
        match spec_find(toks.skip(1), t) {
            Option::None => Option::None,
            Option::Some(i) => Option::Some(i + 1),
        }
    }
}

/// `spec_find` returns the first match: a hit at `i` with no earlier hit
/// pins it down.
proof fn lemma_find_first_hit(toks: Seq<Seq<char>>, t: Seq<char>, i: int)
    requires
        0 <= i < toks.len(),
        toks[i] == t,
        forall|k: int| 0 <= k < i ==> #[trigger] toks[k] != t,
    ensures
        spec_find(toks, t) == Option::Some(i),
    decreases i,
{
    if i != 0 {
        assert(toks[0] != t);
        assert forall|k: int| 0 <= k < i - 1 implies #[trigger] toks.skip(1)[k] != t by {
            assert(toks.skip(1)[k] == toks[k + 1]);
        }
        assert(toks.skip(1)[i - 1] == toks[i]);
        lemma_find_first_hit(toks.skip(1), t, i - 1);
    }
}

/// `spec_find` misses exactly when no token matches.
proof fn lemma_find_no_hit(toks: Seq<Seq<char>>, t: Seq<char>)
    requires
        forall|k: int| 0 <= k < toks.len() ==> #[trigger] toks[k] != t,
    ensures
        spec_find(toks, t) == Option::None::<int>,
    decreases toks.len(),
{
    if toks.len() != 0 {
        assert forall|k: int| 0 <= k < toks.len() - 1 implies #[trigger] toks.skip(1)[k]
            != t by {
            assert(toks.skip(1)[k] == toks[k + 1]);
        }
        lemma_find_no_hit(toks.skip(1), t);
    }
}

/// Find the first token of `toks` equal to `t`.
pub fn find_token(toks: &Vec<String>, t: &String) -> (r: Option<usize>)
    ensures
        match r {
            Option::Some(i) => i < toks.len() && spec_find(toks.deep_view(), t@)
                == Option::Some(i as int),
            Option::None => spec_find(toks.deep_view(), t@) == Option::None::<int>,
        },
{
    let n = toks.len();
    let mut i: usize = 0;
    while i < n
        invariant
            n == toks.len(),
            i <= n,
            forall|k: int| 0 <= k < i ==> #[trigger] toks.deep_view()[k] != t@,
        decreases n - i,
    {
        if toks[i].eq(t) {
            proof {
                assert(toks.deep_view()[i as int] == toks@[i as int]@);
                lemma_find_first_hit(toks.deep_view(), t@, i as int);
            }
            return Option::Some(i);
        }
        proof {
            assert(toks.deep_view()[i as int] == toks@[i as int]@);
        }
        i = i + 1;
    }
    proof {
        lemma_find_no_hit(toks.deep_view(), t@);
    }
    Option::None
}

} // verus!
