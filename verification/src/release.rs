//! Release metadata: the data fetched from the release endpoints, and the
//! endpoint URLs themselves.

use vstd::prelude::*;
use vstd::string::StrSliceExecFns;
use vstd::string::StringExecFns;

verus! {

/// One downloadable file attached to a release.
#[derive(Debug)]
pub struct Asset {
    pub name: String,
    pub browser_download_url: String,
    pub size: u64,
}

/// A tagged, versioned publication of a repository.
#[derive(Debug)]
pub struct Release {
    pub tag_name: String,
    pub assets: Vec<Asset>,
}

impl Asset {
    /// An owned copy, equal to the original.
    pub fn duplicate(&self) -> (r: Asset)
        ensures
            r == *self,
    {
        Asset {
            name: self.name.clone(),
            browser_download_url: self.browser_download_url.clone(),
            size: self.size,
        }
    }
}

/// `k` is the position of the last `/` in `s`.
pub open spec fn is_last_slash(s: Seq<char>, k: int) -> bool {
    &&& 0 <= k < s.len()
    &&& s[k] == '/'
    &&& forall|m: int| k < m < s.len() ==> s[m] != '/'
}

/// The executable name a repository identifier implies when none is given:
/// what follows the last `/`, or the whole identifier when it has none.
pub fn default_bin_name(repo: &str) -> (r: String)
    ensures
        forall|k: int|
            is_last_slash(repo@, k) ==> r@ == repo@.subrange(k + 1, repo@.len() as int),
        (forall|m: int| 0 <= m < repo@.len() ==> repo@[m] != '/') ==> r@ == repo@,
{
    let len: usize = repo.unicode_len();
    let mut i: usize = len;
    while i > 0
        invariant
            i <= len,
            len == repo@.len(),
            forall|m: int| i <= m < len ==> repo@[m] != '/',
        ensures
            i <= len,
            forall|m: int| i <= m < len ==> repo@[m] != '/',
            i > 0 ==> repo@[i - 1] == '/',
        decreases i,
    {
        if repo.get_char(i - 1) == '/' {
            break;
        }
        i = i - 1;
    }
    if i == 0 {
        let r = repo.to_owned();
        proof {
            assert forall|k: int| is_last_slash(repo@, k) implies r@ == repo@.subrange(
                k + 1,
                repo@.len() as int,
            ) by {
                assert(repo@[k] != '/');
            }
        }
        r
    } else {
        let tail = repo.substring_char(i, len);
        let r = tail.to_owned();
        proof {
            assert forall|k: int| is_last_slash(repo@, k) implies r@ == repo@.subrange(
                k + 1,
                repo@.len() as int,
            ) by {
                if k < i - 1 {
                    assert(repo@[i - 1] != '/');
                } else if k > i - 1 {
                    assert(repo@[k] != '/');
                }
                assert(k == i - 1);
            }
        }
        r
    }
}

/// The endpoint listing every release of a repository.
pub open spec fn releases_list_url_spec(repo: Seq<char>) -> Seq<char> {
    "https://api.github.com/repos/"@ + repo + "/releases"@
}

/// The endpoint for one release: a given tag, or the latest one.
pub open spec fn release_url_spec(repo: Seq<char>, tag: Option<Seq<char>>) -> Seq<char> {
    match tag {
        Some(t) => "https://api.github.com/repos/"@ + repo + "/releases/tags/"@ + t,
        None => "https://api.github.com/repos/"@ + repo + "/releases/latest"@,
    }
}

/// Build the URL that lists a repository's releases.
pub fn releases_list_url(repo: &str) -> (r: String)
    ensures
        r@ == releases_list_url_spec(repo@),
{
    let mut s = String::from_str("https://api.github.com/repos/");
    s.append(repo);
    s.append("/releases");
    s
}

/// Build the URL of one release: of the given tag, or of the latest release
/// when no tag is given.
pub fn release_url(repo: &str, tag: Option<&str>) -> (r: String)
    ensures
        r@ == release_url_spec(repo@, match tag {
            Some(t) => Some(t@),
            None => None,
        }),
{
    let mut s = String::from_str("https://api.github.com/repos/");
    s.append(repo);
    match tag {
        Some(t) => {
            s.append("/releases/tags/");
            s.append(t);
        },
        None => {
            s.append("/releases/latest");
        },
    }
    s
}

} // verus!
