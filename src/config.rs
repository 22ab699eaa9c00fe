//! The options a volume is created with: the repository URL, checked
//! through git_url_parse, and the ref to check out.
use git_url_parse::{GitUrl, GitUrlParseError, Scheme};
use vstd::prelude::*;

use crate::address::trimmed;
use crate::address::trim_text;
use crate::protocol::Status;

verus! {

#[verifier::external_type_specification]
#[verifier::external_body]
pub struct ExGitUrlParseError(GitUrlParseError);

/// The scheme of a git URL.
#[derive(Debug, PartialEq, Eq, Hash, Structural)]
pub enum UrlScheme {
    File,
    Ftp,
    Ftps,
    Git,
    GitSsh,
    Http,
    Https,
    Ssh,
    Unspecified,
}

/// What git_url_parse makes of `s`: its scheme and its printed form, or
/// nothing where it refuses `s`.
pub uninterp spec fn git_url_parsed(s: Seq<char>) -> Option<(UrlScheme, Seq<char>)>;

pub open spec fn ascii_lower(c: char) -> char {
    if 'A' <= c && c <= 'Z' {
        ((c as u32) + 32) as char
    } else {
        c
    }
}

/// `s` holds the word "azure" at `i`, in any case.
pub open spec fn azure_at(s: Seq<char>, i: int) -> bool {
    0 <= i && i + 5 <= s.len() && ascii_lower(s[i]) == 'a' && ascii_lower(s[i + 1]) == 'z'
        && ascii_lower(s[i + 2]) == 'u' && ascii_lower(s[i + 3]) == 'r' && ascii_lower(s[i + 4]) == 'e'
}

/// The first `:` of `s` at or after `i`, or the length of `s`.
pub open spec fn colon_from(s: Seq<char>, i: int) -> int
    decreases s.len() - i,
{
    if i < 0 || i >= s.len() {
        s.len() as int
    } else if s[i] == ':' {
        i
    } else {
        colon_from(s, i + 1)
    }
}

/// The first position at or after `i` that holds no `/` or `\`.
pub open spec fn past_slashes(s: Seq<char>, i: int) -> int
    decreases s.len() - i,
{
    if 0 <= i < s.len() && (s[i] == '/' || s[i] == '\\') {
        past_slashes(s, i + 1)
    } else {
        i
    }
}

/// The first `/`, `?` or `#` of `s` at or after `i`, or the length of `s`.
pub open spec fn authority_stop(s: Seq<char>, i: int) -> int
    decreases s.len() - i,
{
    if i < 0 || i >= s.len() {
        s.len() as int
    } else if s[i] == '/' || s[i] == '?' || s[i] == '#' {
        i
    } else {
        authority_stop(s, i + 1)
    }
}

/// The end of the part of `s` that can name a host: the scheme (or the
/// host of a `host:path` address), the separators after the first `:`,
/// and what follows up to the next `/`, `?` or `#`. Text without a `:` is
/// read as a file path and names no host.
pub open spec fn host_region_end(s: Seq<char>) -> int {
    let k = colon_from(s, 0);
    if k >= s.len() {
        0
    } else {
        authority_stop(s, past_slashes(s, k + 1))
    }
}

/// At `i` a path may reduce to the bare root: a `.`, `%2e`, `?` or `#`
/// right after a `/` or `:`.
pub open spec fn root_path_at(s: Seq<char>, i: int) -> bool {
    1 <= i < s.len() && (s[i - 1] == '/' || s[i - 1] == ':') && (s[i] == '.' || s[i] == '?' || s[i]
        == '#' || (s[i] == '%' && i + 2 < s.len() && s[i + 1] == '2' && ascii_lower(s[i + 2])
        == 'e'))
}

/// Where the run of `/` that ends `s` starts.
pub open spec fn slash_run_start(s: Seq<char>) -> int
    decreases s.len(),
{
    if s.len() > 0 && s.last() == '/' {
        slash_run_start(s.drop_last())
    } else {
        s.len() as int
    }
}

/// `s` is an ssh URL without `//` and with a path that does not start
/// with `/`, such as `ssh:x`.
pub open spec fn opaque_ssh(s: Seq<char>) -> bool {
    colon_from(s, 0) == 3 && ascii_lower(s[0]) == 's' && ascii_lower(s[1]) == 's' && ascii_lower(s[2])
        == 'h' && s.len() > 4 && s[4] != '/'
}

/// Text on which git_url_parse's `GitUrl::parse` does not panic. It panics
/// where an ssh URL's path has a single character (the bare root, or one
/// character after `ssh:`), and where the host is an Azure DevOps host and
/// the path is short. So this leaves out: ASCII control characters, and a
/// space at the start or before the closing run of `/` (the URL parser
/// drops them); a path segment that may reduce to the root; `ssh:` not
/// followed by `/`; and, in the part that can name the host, the word
/// "azure" and anything that may spell it once decoded (`%` escapes,
/// non-ASCII characters).
pub open spec fn parse_safe(s: Seq<char>) -> bool {
    &&& forall|i: int| 0 <= i < s.len() ==> ' ' <= #[trigger] s[i]
    &&& s.len() == 0 || s[0] != ' '
    &&& slash_run_start(s) == 0 || s[slash_run_start(s) - 1] != ' '
    &&& !opaque_ssh(s)
    &&& forall|i: int| !root_path_at(s, i)
    &&& forall|i: int|
        0 <= i < host_region_end(s) ==> #[trigger] s[i] <= '~' && s[i] != '%'
    &&& forall|i: int| !(azure_at(s, i) && i + 5 <= host_region_end(s))
}

/// Relies on git_url_parse's `GitUrl::parse` and on `GitUrl`'s `Display`:
/// the scheme and the printed URL depend on the text alone.
#[verifier::external_body]
fn parse_git_url(s: &str) -> (r: Result<(UrlScheme, String), GitUrlParseError>)
    requires
        parse_safe(s@),
    ensures
        r is Ok <==> git_url_parsed(s@) is Some,
        r is Ok ==> git_url_parsed(s@) == Some((r->Ok_0.0, r->Ok_0.1@)),
{
    let url = GitUrl::parse(s)?;
    let scheme = match url.scheme {
        Scheme::File => UrlScheme::File,
        Scheme::Ftp => UrlScheme::Ftp,
        Scheme::Ftps => UrlScheme::Ftps,
        Scheme::Git => UrlScheme::Git,
        Scheme::GitSsh => UrlScheme::GitSsh,
        Scheme::Http => UrlScheme::Http,
        Scheme::Https => UrlScheme::Https,
        Scheme::Ssh => UrlScheme::Ssh,
        Scheme::Unspecified => UrlScheme::Unspecified,
    };
    Ok((scheme, url.to_string()))
}

/// Why a git URL is refused.
#[derive(Debug)]
pub enum UrlError {
    /// Nothing but white space.
    Empty,
    /// Text that is not handed to the URL parser, on which it could panic:
    /// see `parse_safe`.
    Unreadable,
    /// The URL parser refused it.
    Parse(GitUrlParseError),
    /// A scheme other than http and https.
    Unsupported(UrlScheme),
}

/// A git URL over http or https.
#[derive(Debug, Hash)]
pub struct Url {
    pub scheme: UrlScheme,
    pub text: String,
}

pub open spec fn supported_scheme(s: UrlScheme) -> bool {
    s == UrlScheme::Http || s == UrlScheme::Https
}

/// The outcome of reading a trimmed URL `t`.
pub open spec fn url_outcome(t: Seq<char>) -> Result<(UrlScheme, Seq<char>), Option<UrlScheme>> {
    if !parse_safe(t) || git_url_parsed(t) is None {
        Err(None)
    } else if !supported_scheme(git_url_parsed(t)->Some_0.0) {
        Err(Some(git_url_parsed(t)->Some_0.0))
    } else {
        Ok(git_url_parsed(t)->Some_0)
    }
}

fn colon_index(s: &str, n: usize) -> (r: usize)
    requires
        n == s@.len(),
    ensures
        r <= n,
        r as int == colon_from(s@, 0),
{
    let mut i: usize = 0;
    loop
        invariant
            n == s@.len(),
            i <= n,
            colon_from(s@, 0) == colon_from(s@, i as int),
        decreases n - i,
    {
        if i == n || s.get_char(i) == ':' {
            return i;
        }
        i = i + 1;
    }
}

fn skip_slashes(s: &str, n: usize, start: usize) -> (r: usize)
    requires
        n == s@.len(),
        start <= n,
    ensures
        r <= n,
        r as int == past_slashes(s@, start as int),
{
    let mut i: usize = start;
    loop
        invariant
            n == s@.len(),
            start <= i <= n,
            past_slashes(s@, start as int) == past_slashes(s@, i as int),
        decreases n - i,
    {
        if i == n {
            return i;
        }
        let c = s.get_char(i);
        if c != '/' && c != '\\' {
            return i;
        }
        i = i + 1;
    }
}

fn authority_end(s: &str, n: usize, start: usize) -> (r: usize)
    requires
        n == s@.len(),
        start <= n,
    ensures
        r <= n,
        r as int == authority_stop(s@, start as int),
{
    let mut i: usize = start;
    loop
        invariant
            n == s@.len(),
            start <= i <= n,
            authority_stop(s@, start as int) == authority_stop(s@, i as int),
        decreases n - i,
    {
        if i == n {
            return i;
        }
        let c = s.get_char(i);
        if c == '/' || c == '?' || c == '#' {
            return i;
        }
        i = i + 1;
    }
}

fn host_end(s: &str, n: usize) -> (r: usize)
    requires
        n == s@.len(),
    ensures
        r <= n,
        r as int == host_region_end(s@),
{
    let k = colon_index(s, n);
    if k >= n {
        0
    } else {
        let p = skip_slashes(s, n, k + 1);
        authority_end(s, n, p)
    }
}

fn scan_parse_safe(s: &str) -> (r: bool)
    ensures
        r == parse_safe(s@),
{
    let n = s.unicode_len();
    let end = host_end(s, n);
    let mut i: usize = 0;
    while i < n
        invariant
            n == s@.len(),
            end as int == host_region_end(s@),
            end <= n,
            i <= n,
            forall|j: int| 0 <= j < i ==> ' ' <= #[trigger] s@[j],
            forall|j: int| j < i ==> !root_path_at(s@, j),
            forall|j: int| 0 <= j < i && j < end ==> #[trigger] s@[j] <= '~' && s@[j] != '%',
            forall|j: int| j < i ==> !(azure_at(s@, j) && j + 5 <= end),
        decreases n - i,
    {
        let c = s.get_char(i);
        if ' ' > c {
            return false;
        }
        if i >= 1 {
            let prev = s.get_char(i - 1);
            if prev == '/' || prev == ':' {
                if c == '.' || c == '?' || c == '#' {
                    assert(root_path_at(s@, i as int));
                    return false;
                }
                if c == '%' && n - i > 2 {
                    if s.get_char(i + 1) == '2' && lower(s.get_char(i + 2)) == 'e' {
                        assert(root_path_at(s@, i as int));
                        return false;
                    }
                }
            }
        }
        assert(!root_path_at(s@, i as int));
        if i < end {
            if c > '~' || c == '%' {
                return false;
            }
            if end - i >= 5 {
                let a = lower(s.get_char(i));
                let b = lower(s.get_char(i + 1));
                let c2 = lower(s.get_char(i + 2));
                let d = lower(s.get_char(i + 3));
                let e = lower(s.get_char(i + 4));
                if a == 'a' && b == 'z' && c2 == 'u' && d == 'r' && e == 'e' {
                    assert(azure_at(s@, i as int));
                    return false;
                }
            }
        }
        i = i + 1;
    }
    if n > 0 && s.get_char(0) == ' ' {
        return false;
    }
    let e = slash_run(s, n);
    if e > 0 && s.get_char(e - 1) == ' ' {
        return false;
    }
    let k = colon_index(s, n);
    if k == 3 && n > 4 {
        if lower(s.get_char(0)) == 's' && lower(s.get_char(1)) == 's' && lower(s.get_char(2)) == 'h'
            && s.get_char(4) != '/' {
            assert(opaque_ssh(s@));
            return false;
        }
    }
    true
}

fn slash_run(s: &str, n: usize) -> (r: usize)
    requires
        n == s@.len(),
    ensures
        r <= n,
        r as int == slash_run_start(s@),
{
    let mut e: usize = n;
    assert(s@.take(n as int) =~= s@);
    loop
        invariant
            n == s@.len(),
            e <= n,
            slash_run_start(s@) == slash_run_start(s@.take(e as int)),
        decreases e,
    {
        if e == 0 {
            return e;
        }
        if s.get_char(e - 1) != '/' {
            return e;
        }
        assert(s@.take(e as int).drop_last() =~= s@.take(e - 1));
        e = e - 1;
    }
}

fn lower(c: char) -> (r: char)
    ensures
        r == ascii_lower(c),
{
    if 'A' <= c && c <= 'Z' {
        ((c as u32) + 32) as u8 as char
    } else {
        c
    }
}

impl Url {
    /// Reads a git URL: trimmed, not empty, accepted by the URL parser, and
    /// over http or https.
    pub fn from_str(s: &str) -> (r: Result<Url, UrlError>)
        ensures
            ({
                let t = trimmed(s@);
                &&& (r matches Err(UrlError::Empty)) <==> t.len() == 0
                &&& (r matches Err(UrlError::Unreadable)) <==> t.len() != 0 && !parse_safe(t)
                &&& (r matches Err(UrlError::Parse(_))) <==> t.len() != 0 && parse_safe(t)
                    && git_url_parsed(t) is None
                &&& t.len() != 0 ==> match url_outcome(t) {
                    Ok(p) => r is Ok && r->Ok_0.scheme == p.0 && r->Ok_0.text@ == p.1,
                    Err(Some(scheme)) => r matches Err(UrlError::Unsupported(x)) && x == scheme,
                    Err(None) => r is Err,
                }
            }),
    {
        let t = trim_text(s);
        if t.as_str().unicode_len() == 0 {
            return Err(UrlError::Empty);
        }
        if !scan_parse_safe(t.as_str()) {
            return Err(UrlError::Unreadable);
        }
        Url::from_parsed(parse_git_url(t.as_str()))
    }

    /// Takes in what the URL parser made of a URL: a scheme other than http
    /// and https is refused.
    pub fn from_parsed(parsed: Result<(UrlScheme, String), GitUrlParseError>) -> (r: Result<
        Url,
        UrlError,
    >)
        ensures
            match parsed {
                Ok((scheme, text)) => if supported_scheme(scheme) {
                    r is Ok && r->Ok_0.scheme == scheme && r->Ok_0.text == text
                } else {
                    r matches Err(UrlError::Unsupported(x)) && x == scheme
                },
                Err(_) => r matches Err(UrlError::Parse(_)),
            },
    {
        match parsed {
            Ok((scheme, text)) => {
                let supported = match scheme {
                    UrlScheme::Http => true,
                    UrlScheme::Https => true,
                    _ => false,
                };
                if supported {
                    Ok(Url { scheme, text })
                } else {
                    Err(UrlError::Unsupported(scheme))
                }
            },
            Err(e) => Err(UrlError::Parse(e)),
        }
    }
}

/// A scheme that git may clone from: any but ftp, ftps, local files and
/// none at all.
pub open spec fn git_scheme(s: UrlScheme) -> bool {
    !(s == UrlScheme::Unspecified || s == UrlScheme::Ftp || s == UrlScheme::Ftps || s
        == UrlScheme::File)
}

/// Checks that `input`, trimmed, is a URL git may clone from.
pub fn parse_url(input: &str) -> (r: Result<(), UrlError>)
    ensures
        ({
            let t = trimmed(input@);
            &&& (r matches Err(UrlError::Empty)) <==> t.len() == 0
            &&& t.len() != 0 ==> ((r matches Err(UrlError::Unreadable)) <==> !parse_safe(t))
            &&& t.len() != 0 && parse_safe(t) ==> match git_url_parsed(t) {
                None => r matches Err(UrlError::Parse(_)),
                Some(p) => if git_scheme(p.0) {
                    r is Ok
                } else {
                    r matches Err(UrlError::Unsupported(x)) && x == p.0
                },
            }
        }),
{
    let t = trim_text(input);
    if t.as_str().unicode_len() == 0 {
        return Err(UrlError::Empty);
    }
    if !scan_parse_safe(t.as_str()) {
        return Err(UrlError::Unreadable);
    }
    accept_git_scheme(parse_git_url(t.as_str()))
}

/// Takes in what the URL parser made of a URL: refuses the schemes git may
/// not clone from.
pub fn accept_git_scheme(parsed: Result<(UrlScheme, String), GitUrlParseError>) -> (r: Result<
    (),
    UrlError,
>)
    ensures
        match parsed {
            Ok((scheme, _)) => if git_scheme(scheme) {
                r is Ok
            } else {
                r matches Err(UrlError::Unsupported(x)) && x == scheme
            },
            Err(_) => r matches Err(UrlError::Parse(_)),
        },
{
    match parsed {
        Ok((scheme, _)) => match scheme {
            UrlScheme::Unspecified | UrlScheme::Ftp | UrlScheme::Ftps | UrlScheme::File => Err(
                UrlError::Unsupported(scheme),
            ),
            _ => Ok(()),
        },
        Err(e) => Err(UrlError::Parse(e)),
    }
}

/// The options of a create request, as they arrive.
pub struct RawRepo {
    pub url: Option<String>,
    pub branch: Option<String>,
    pub tag: Option<String>,
    pub refetch: Option<String>,
}

/// Why the options of a create request are refused.
#[derive(Debug)]
pub enum RepoError {
    MissingUrl,
    SingleBranch,
    ParsingUrl(UrlError),
}

/// A repository to mount: its URL, the ref to check out, and whether later
/// mounts fetch it again.
#[derive(Debug, Hash)]
pub struct Repo {
    pub url: Url,
    pub branch: Option<String>,
    pub refetch: bool,
}

pub open spec fn true_text() -> Seq<char> {
    seq!['t', 'r', 'u', 'e']
}

impl Repo {
    /// Reads create options: a URL is required and must be readable; a
    /// branch and a tag exclude each other and either is the ref; only the
    /// text `true` asks for refetching.
    pub fn from_raw(value: RawRepo) -> (r: Result<Repo, RepoError>)
        ensures
            value.url is None ==> r matches Err(RepoError::MissingUrl),
            value.url is Some ==> match Url::from_str_outcome(value.url->Some_0@) {
                Err(()) => r matches Err(RepoError::ParsingUrl(_)),
                Ok(()) => if value.branch is Some && value.tag is Some {
                    r matches Err(RepoError::SingleBranch)
                } else {
                    &&& r is Ok
                    &&& Repo::built_from(value, r->Ok_0)
                },
            },
    {
        let url = match value.url {
            Some(u) => u,
            None => {
                return Err(RepoError::MissingUrl);
            },
        };
        let url = match Url::from_str(url.as_str()) {
            Ok(u) => u,
            Err(e) => {
                return Err(RepoError::ParsingUrl(e));
            },
        };
        if value.branch.is_some() && value.tag.is_some() {
            return Err(RepoError::SingleBranch);
        }
        let branch = match value.branch {
            Some(b) => Some(b),
            None => value.tag,
        };
        let refetch = match value.refetch {
            Some(t) => {
                let expected = "true".to_string();
                proof {
                    reveal_strlit("true");
                    assert(expected@ =~= true_text());
                }
                t == expected
            },
            None => false,
        };
        Ok(Repo { url, branch, refetch })
    }
}

impl Url {
    /// Whether reading `s` as a URL succeeds.
    pub open spec fn from_str_outcome(s: Seq<char>) -> Result<(), ()> {
        let t = trimmed(s);
        if t.len() != 0 && url_outcome(t) is Ok {
            Ok(())
        } else {
            Err(())
        }
    }
}

/// Why a volume request is refused.
#[derive(Debug)]
pub enum VolumeError {
    /// No options were given; a git URL is required.
    NoOptions,
    /// The volume's name is empty once trimmed.
    Empty,
    Repo(RepoError),
}

/// A named volume request with its repository.
pub struct Volume {
    pub name: String,
    pub path: Option<String>,
    pub repo: Repo,
    pub status: Status,
    pub containers: Vec<String>,
}

impl Volume {
    /// A new volume named `name` (trimmed, not empty) for the options `raw`.
    pub fn from_request(name: &str, raw: Option<RawRepo>) -> (r: Result<Volume, VolumeError>)
        ensures
            raw is None ==> r matches Err(VolumeError::NoOptions),
            raw is Some && trimmed(name@).len() == 0 ==> r matches Err(VolumeError::Empty),
            raw is Some && trimmed(name@).len() != 0 ==> match Repo::from_raw_ok(raw->Some_0) {
                true => r is Ok && r->Ok_0.name@ == trimmed(name@) && r->Ok_0.path is None
                    && r->Ok_0.status == Status::Created && r->Ok_0.containers@.len() == 0
                    && Repo::built_from(raw->Some_0, r->Ok_0.repo),
                false => r matches Err(VolumeError::Repo(_)),
            },
    {
        let raw = match raw {
            Some(raw) => raw,
            None => {
                return Err(VolumeError::NoOptions);
            },
        };
        let name = trim_text(name);
        if name.as_str().unicode_len() == 0 {
            return Err(VolumeError::Empty);
        }
        match Repo::from_raw(raw) {
            Ok(repo) => Ok(
                Volume { name, path: None, repo, status: Status::Created, containers: Vec::new() },
            ),
            Err(e) => Err(VolumeError::Repo(e)),
        }
    }
}

impl Repo {
    /// `r` is what `from_raw` makes of the accepted options `value`: the URL
    /// as the parser read the trimmed text, the branch or else the tag, and
    /// refetching exactly when asked with `true`.
    pub open spec fn built_from(value: RawRepo, r: Repo) -> bool {
        let p = url_outcome(trimmed(value.url->Some_0@))->Ok_0;
        &&& r.url.scheme == p.0
        &&& r.url.text@ == p.1
        &&& r.branch == if value.branch is Some {
            value.branch
        } else {
            value.tag
        }
        &&& r.refetch == (value.refetch is Some && value.refetch->Some_0@ == true_text())
    }

    /// Whether `from_raw` accepts `value`.
    pub open spec fn from_raw_ok(value: RawRepo) -> bool {
        value.url is Some && Url::from_str_outcome(value.url->Some_0@) is Ok && !(value.branch is Some
            && value.tag is Some)
    }
}

} // verus!
