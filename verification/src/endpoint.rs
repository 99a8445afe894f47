//! Where the dashboard finds the proxy, and the addresses it asks there.

use vstd::prelude::*;
use vstd::string::{StrSliceExecFns, StringExecFns};

verus! {

/// `s` without the slashes at its end, as `s.trim_end_matches('/')`.
pub open spec fn without_trailing_slashes(s: Seq<char>) -> Seq<char>
    decreases s.len(),
{
    if s.len() > 0 && s.last() == '/' {
        without_trailing_slashes(s.drop_last())
    } else {
        s
    }
}

/// The proxy's base address with the slashes at its end taken off, so that
/// paths such as "/stats" can be appended to it.
pub fn normalize_base_url(url: &str) -> (r: String)
    ensures
        r@ == without_trailing_slashes(url@),
{
    let mut end = url.unicode_len();
    proof {
        assert(url@.take(end as int) =~= url@);
    }
    while end > 0 && url.get_char(end - 1) == '/'
        invariant
            end <= url@.len(),
            without_trailing_slashes(url@) == without_trailing_slashes(url@.take(end as int)),
        decreases end,
    {
        proof {
            assert(url@.take(end as int).drop_last() =~= url@.take(end - 1));
        }
        end -= 1;
    }
    url.substring_char(0, end).to_owned()
}

/// The address of `path` at the proxy.
pub fn endpoint_url(base_url: &str, path: &str) -> (r: String)
    ensures
        r@ == base_url@ + path@,
{
    let mut r = base_url.to_owned();
    r.append(path);
    r
}

/// The proxy's address when none is given.
pub open spec fn default_base_url() -> Seq<char> {
    "http://localhost:8787"@
}

/// The proxy's address: the one given on the command line, else the one in
/// the environment (`ANTHROPIC_BASE_URL`), else the local default.
pub fn resolve_base_url(from_args: Option<String>, from_env: Option<String>) -> (r: String)
    ensures
        r@ == match from_args {
            Some(u) => u@,
            None => match from_env {
                Some(u) => u@,
                None => default_base_url(),
            },
        },
{
    match from_args {
        Some(u) => u,
        None => match from_env {
            Some(u) => u,
            None => "http://localhost:8787".to_owned(),
        },
    }
}

/// Taking the trailing slashes off leaves none, takes nothing else, and a
/// second time changes nothing.
pub proof fn normalize_is_idempotent(s: Seq<char>)
    ensures
        without_trailing_slashes(s).len() <= s.len(),
        without_trailing_slashes(s).len() == 0 || without_trailing_slashes(s).last() != '/',
        without_trailing_slashes(s) == s.take(without_trailing_slashes(s).len() as int),
        without_trailing_slashes(without_trailing_slashes(s)) == without_trailing_slashes(s),
    decreases s.len(),
{
    if s.len() > 0 && s.last() == '/' {
        normalize_is_idempotent(s.drop_last());
        let t = without_trailing_slashes(s.drop_last());
        assert(s.drop_last().take(t.len() as int) =~= s.take(t.len() as int));
    } else {
        assert(s.take(s.len() as int) =~= s);
    }
}

} // verus!
