//! Credential injection: embedding a transient access token into an HTTPS
//! repository URL as its user-info component. A URL that does not start with
//! the known HTTPS host prefix is returned unchanged.

use vstd::prelude::*;
use vstd::string::{StrSliceExecFns, StringExecFns};

verus! {

/// The result of injecting the token `pat` into `url`: when `url` starts
/// with the HTTPS host prefix, the token and an empty password are embedded
/// ahead of the host; otherwise `url` itself.
pub open spec fn spec_inject(url: Seq<char>, pat: Seq<char>) -> Seq<char> {
    if "https://github.com"@.len() <= url.len()
        && url.subrange(0, "https://github.com"@.len() as int) == "https://github.com"@ {
        "https://"@ + pat + ":@github.com"@ + url.skip("https://github.com"@.len() as int)
    } else {
        url
    }
}

/// Embeds the personal access token `pat` into `repo_url` as the user-info
/// component, with an empty password, when the URL starts with the known
/// HTTPS host prefix; any other URL is returned unmodified.
pub fn add_pat(repo_url: String, pat: &str) -> (r: String)
    ensures
        r@ == spec_inject(repo_url@, pat@),
{
    let prefix = "https://github.com";
    let plen = prefix.unicode_len();
    let ulen = repo_url.as_str().unicode_len();
    if plen > ulen {
        return repo_url;
    }
    let mut i: usize = 0;
    let mut matched = true;
    while i < plen && matched
        invariant
            i <= plen,
            plen <= ulen,
            ulen == repo_url@.len(),
            plen == prefix@.len(),
            prefix@ == "https://github.com"@,
            matched ==> forall|j: int| 0 <= j < i ==> repo_url@[j] == prefix@[j],
            !matched ==> repo_url@.subrange(0, plen as int) != prefix@,
        decreases plen - i,
    {
        if repo_url.as_str().get_char(i) != prefix.get_char(i) {
            proof {
                assert(repo_url@.subrange(0, plen as int)[i as int] == repo_url@[i as int]);
            }
            matched = false;
        }
        i += 1;
    }
    if !matched {
        return repo_url;
    }
    proof {
        assert(repo_url@.subrange(0, plen as int) =~= prefix@);
    }
    let rest = repo_url.as_str().substring_char(plen, ulen);
    let out = String::from_str("https://").concat(pat).concat(":@github.com").concat(rest);
    proof {
        assert(rest@ == repo_url@.skip(plen as int));
        assert(out@ =~= "https://"@ + pat@ + ":@github.com"@ + repo_url@.skip(plen as int));
    }
    out
}


/// Applies credential injection to every repository URL of one entry: with a
/// token each URL is rewritten by `add_pat`, without one each URL is kept.
#[verifier::loop_isolation(false)]
pub fn inject_all(repos: &Vec<String>, pat: Option<&String>) -> (r: Vec<String>)
    ensures
        r@.len() == repos@.len(),
        forall|i: int| 0 <= i < r@.len() ==> r@[i]@ == (if pat is Some {
            spec_inject(repos@[i]@, pat->0@)
        } else {
            repos@[i]@
        }),
{
    let mut r: Vec<String> = Vec::new();
    let mut i: usize = 0;
    while i < repos.len()
        invariant
            i <= repos@.len(),
            r@.len() == i,
            forall|j: int| 0 <= j < i ==> r@[j]@ == (if pat is Some {
                spec_inject(repos@[j]@, pat->0@)
            } else {
                repos@[j]@
            }),
        decreases repos@.len() - i,
    {
        let u = match pat {
            Some(p) => add_pat(repos[i].clone(), p.as_str()),
            None => repos[i].clone(),
        };
        r.push(u);
        i += 1;
    }
    r
}

} // verus!
