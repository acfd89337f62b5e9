//! Reading repository coordinates from a URL, and the requests the tools send.
use vstd::prelude::*;
use vstd::string::*;

verus! {

/// The pattern that picks owner and repository out of a repository URL.
pub const GITHUB_URL_PATTERN: &'static str = r"github\.com/([^/]+)/([^/]+?)(?:\.git)?$";

pub const API_BASE: &'static str = "https://api.github.com";

/// The ref that a tool reads where no branch is given.
pub const DEFAULT_REF: &'static str = "HEAD";

/// The texts of capture groups 1 and 2 of the leftmost match of `pattern` in
/// `text`, as the regex crate finds them; `None` where the pattern does not
/// compile, nothing matches, or either group takes no part in the match.
pub uninterp spec fn regex_pair(pattern: Seq<char>, text: Seq<char>) -> Option<(Seq<char>, Seq<char>)>;

/// The percent-encoding of `s` that the urlencoding crate produces.
pub uninterp spec fn url_encoded(s: Seq<char>) -> Seq<char>;

/// Relies on `regex::Regex::new`, `Regex::captures` and `Captures::get`:
/// groups 1 and 2 of the leftmost match.
#[verifier::external_body]
fn capture_pair(pattern: &str, text: &str) -> (r: Option<(String, String)>)
    ensures
        match r {
            Some(p) => regex_pair(pattern@, text@) == Some((p.0@, p.1@)),
            None => regex_pair(pattern@, text@) is None,
        },
{
    let re = regex::Regex::new(pattern).ok()?;
    let caps = re.captures(text)?;
    Some((caps.get(1)?.as_str().to_string(), caps.get(2)?.as_str().to_string()))
}

/// Relies on `urlencoding::encode`: the text with every byte but ASCII
/// letters, digits and `-_.~` percent-encoded.
#[verifier::external_body]
fn encode_component(s: &str) -> (r: String)
    ensures
        r@ == url_encoded(s@),
{
    urlencoding::encode(s).into_owned()
}

/// Owner and repository named by a GitHub URL.
pub fn parse_github_url(url: &str) -> (r: Result<(String, String), String>)
    ensures
        match r {
            Ok(p) => regex_pair(GITHUB_URL_PATTERN@, url@) == Some((p.0@, p.1@)),
            Err(e) => regex_pair(GITHUB_URL_PATTERN@, url@) is None && e@ == "Invalid GitHub URL"@,
        },
{
    match capture_pair(GITHUB_URL_PATTERN, url) {
        Some(p) => Ok(p),
        None => Err("Invalid GitHub URL".to_owned()),
    }
}

/// `API_BASE/repos/owner/repo`.
pub open spec fn repo_base(owner: Seq<char>, repo: Seq<char>) -> Seq<char> {
    API_BASE@ + "/repos/"@ + owner + "/"@ + repo
}

fn repo_base_url(owner: &str, repo: &str) -> (r: String)
    ensures
        r@ == repo_base(owner@, repo@),
{
    let mut u = API_BASE.to_owned();
    u.append("/repos/");
    u.append(owner);
    u.append("/");
    u.append(repo);
    u
}

pub open spec fn changelog_url_spec(owner: Seq<char>, repo: Seq<char>, from: Seq<char>, to: Seq<char>) -> Seq<char> {
    repo_base(owner, repo) + "/compare/"@ + from + "..."@ + to
}

/// The compare request between two refs.
pub fn changelog_url(owner: &str, repo: &str, from: &str, to: &str) -> (r: String)
    ensures
        r@ == changelog_url_spec(owner@, repo@, from@, to@),
{
    let mut u = repo_base_url(owner, repo);
    u.append("/compare/");
    u.append(from);
    u.append("...");
    u.append(to);
    u
}

/// The README request.
pub fn readme_url(owner: &str, repo: &str) -> (r: String)
    ensures
        r@ == repo_base(owner@, repo@) + "/readme"@,
{
    let mut u = repo_base_url(owner, repo);
    u.append("/readme");
    u
}

/// The recursive tree request for a ref.
pub fn tree_url(owner: &str, repo: &str, git_ref: &str) -> (r: String)
    ensures
        r@ == repo_base(owner@, repo@) + "/git/trees/"@ + git_ref@ + "?recursive=1"@,
{
    let mut u = repo_base_url(owner, repo);
    u.append("/git/trees/");
    u.append(git_ref);
    u.append("?recursive=1");
    u
}

/// The request for one file's content at a ref.
pub fn content_url(owner: &str, repo: &str, path: &str, git_ref: &str) -> (r: String)
    ensures
        r@ == repo_base(owner@, repo@) + "/contents/"@ + path@ + "?ref="@ + git_ref@,
{
    let mut u = repo_base_url(owner, repo);
    u.append("/contents/");
    u.append(path);
    u.append("?ref=");
    u.append(git_ref);
    u
}

/// The search query: the user's text restricted to one repository.
pub open spec fn search_query(query: Seq<char>, owner: Seq<char>, repo: Seq<char>) -> Seq<char> {
    query + " repo:"@ + owner + "/"@ + repo
}

/// The code search request, at most ten results.
pub fn search_url(query: &str, owner: &str, repo: &str) -> (r: String)
    ensures
        r@ == API_BASE@ + "/search/code?q="@ + url_encoded(search_query(query@, owner@, repo@))
            + "&per_page=10"@,
{
    let mut q = query.to_owned();
    q.append(" repo:");
    q.append(owner);
    q.append("/");
    q.append(repo);
    let mut u = API_BASE.to_owned();
    u.append("/search/code?q=");
    let e = encode_component(q.as_str());
    u.append(e.as_str());
    u.append("&per_page=10");
    u
}

/// The ref to read: the branch given, or `HEAD`.
pub fn target_ref(branch: Option<&str>) -> (r: String)
    ensures
        r@ == match branch {
            Some(b) => b@,
            None => DEFAULT_REF@,
        },
{
    match branch {
        Some(b) => b.to_owned(),
        None => DEFAULT_REF.to_owned(),
    }
}

/// `s` without its leading `/` characters.
pub open spec fn strip_slashes(s: Seq<char>) -> Seq<char>
    decreases s.len(),
{
    if s.len() > 0 && s[0] == '/' {
        strip_slashes(s.drop_first())
    } else {
        s
    }
}

/// A file path without leading `/`.
pub fn clean_path(path: &str) -> (r: String)
    ensures
        r@ == strip_slashes(path@),
{
    let n = path.unicode_len();
    let mut i: usize = 0;
    assert(path@.skip(0) =~= path@);
    while i < n && path.get_char(i) == '/'
        invariant
            n == path@.len(),
            0 <= i <= n,
            strip_slashes(path@) == strip_slashes(path@.skip(i as int)),
        decreases n - i,
    {
        assert(path@.skip(i as int).drop_first() =~= path@.skip(i + 1));
        i = i + 1;
    }
    proof {
        if i < n {
            assert(path@.skip(i as int)[0] == path@[i as int]);
        }
    }
    path.substring_char(i, n).to_owned()
}

} // verus!
