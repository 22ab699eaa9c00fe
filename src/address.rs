//! The content address of a repository configuration: the directory in
//! which the configuration's working tree lives.
use sha2::Digest;
use vstd::prelude::*;

use crate::record::Opt;
use crate::volume::{join, join_path};

verus! {

/// The lower-case hex SHA-256 digest of the UTF-8 bytes of `s`.
pub uninterp spec fn sha256_hex(s: Seq<char>) -> Seq<char>;

/// A character with the Unicode White_Space property, the one that
/// `char::is_whitespace` tests.
pub open spec fn white_space(c: char) -> bool {
    ('\t' <= c && c <= '\r') || c == ' ' || c == '\u{85}' || c == '\u{a0}' || c == '\u{1680}' || (
    '\u{2000}' <= c && c <= '\u{200a}') || c == '\u{2028}' || c == '\u{2029}' || c == '\u{202f}'
        || c == '\u{205f}' || c == '\u{3000}'
}

/// The length of the run of white space that starts `s`.
pub open spec fn leading_space(s: Seq<char>) -> nat
    decreases s.len(),
{
    if s.len() > 0 && white_space(s[0]) {
        1 + leading_space(s.skip(1))
    } else {
        0
    }
}

/// The length of the run of white space that ends `s`.
pub open spec fn trailing_space(s: Seq<char>) -> nat
    decreases s.len(),
{
    if s.len() > 0 && white_space(s.last()) {
        1 + trailing_space(s.drop_last())
    } else {
        0
    }
}

/// `s` without its leading and trailing white space.
pub open spec fn trimmed(s: Seq<char>) -> Seq<char> {
    let t = s.skip(leading_space(s) as int);
    t.take(t.len() - trailing_space(t))
}

/// Relies on sha2's `Sha256::digest`, printed in lower-case hex: the digest
/// depends on the bytes alone.
#[verifier::external_body]
fn digest_hex(s: &str) -> (r: String)
    ensures
        r@ == sha256_hex(s@),
{
    format!("{:x}", sha2::Sha256::digest(s.as_bytes()))
}

/// Relies on `str::trim`: it strips the leading and trailing runs of
/// characters for which `char::is_whitespace` holds.
#[verifier::external_body]
pub(crate) fn trim_text(s: &str) -> (r: String)
    ensures
        r@ == trimmed(s@),
{
    s.trim().to_string()
}

/// Errors of building a mount configuration.
#[derive(Debug, PartialEq, Eq, Structural)]
pub enum ConfigError {
    /// A ref was given both in the URL's fragment and as a separate parameter.
    ConflictingRef,
    /// The plugin's name has fewer than two characters once trimmed.
    EmptyPluginName,
}

/// The partition of refreshable configurations.
pub open spec fn updatable_name() -> Seq<char> {
    seq!['u', 'p', 'd', 'a', 't', 'a', 'b', 'l', 'e']
}

/// The partition of configurations that are never fetched again.
pub open spec fn nonupdatable_name() -> Seq<char> {
    seq!['n', 'o', 'n', 'u', 'p', 'd', 'a', 't', 'a', 'b', 'l', 'e']
}

/// The segment that stands for "no branch", so that every address has the
/// same depth.
pub open spec fn placeholder() -> Seq<char> {
    seq!['_']
}

pub open spec fn partition_name(refresh: bool) -> Seq<char> {
    if refresh {
        updatable_name()
    } else {
        nonupdatable_name()
    }
}

/// `base/partition/digest`.
pub open spec fn digest_dir(base: Seq<char>, digest: Seq<char>, refresh: bool) -> Seq<char> {
    join_path(join_path(base, partition_name(refresh)), digest)
}

/// `base/partition/digest/branch-or-placeholder`.
pub open spec fn digest_path(
    base: Seq<char>,
    digest: Seq<char>,
    branch: Option<Seq<char>>,
    refresh: bool,
) -> Seq<char> {
    join_path(
        digest_dir(base, digest, refresh),
        match branch {
            Some(b) => b,
            None => placeholder(),
        },
    )
}

/// The directory shared by all refs of one URL in one partition.
pub open spec fn repo_base_path(base: Seq<char>, url: Seq<char>, refresh: bool) -> Seq<char> {
    digest_dir(base, sha256_hex(url), refresh)
}

/// The content address: `base/partition/digest/branch-or-placeholder`,
/// where the digest is that of the URL.
pub open spec fn content_address(
    base: Seq<char>,
    url: Seq<char>,
    branch: Option<Seq<char>>,
    refresh: bool,
) -> Seq<char> {
    digest_path(base, sha256_hex(url), branch, refresh)
}

pub open spec fn opt_string_view(o: Option<String>) -> Option<Seq<char>> {
    match o {
        Some(s) => Some(s@),
        None => None,
    }
}

/// A ref once trimmed; empty means none.
pub open spec fn normalized_ref(r: Option<Seq<char>>) -> Option<Seq<char>> {
    match r {
        Some(b) => if trimmed(b).len() == 0 {
            None
        } else {
            Some(trimmed(b))
        },
        None => None,
    }
}

/// What the `url` crate makes of `s` where it parses `s` as a URL: its
/// serialization with the fragment removed, and the fragment.
pub uninterp spec fn url_without_fragment(s: Seq<char>) -> Option<(Seq<char>, Option<Seq<char>>)>;

/// Relies on url's `Url::parse`, `Url::fragment`, `Url::set_fragment(None)`
/// and its serialization: the outcome depends on the text alone.
#[verifier::external_body]
fn parse_fragment(s: &str) -> (r: Option<(String, Option<String>)>)
    ensures
        r is Some <==> url_without_fragment(s@) is Some,
        r is Some ==> url_without_fragment(s@) == Some(
            (r->Some_0.0@, opt_string_view(r->Some_0.1)),
        ),
{
    let mut url = url::Url::parse(s).ok()?;
    let fragment = match url.fragment() {
        Some(f) => Some(f.to_string()),
        None => None,
    };
    url.set_fragment(None);
    Some((url.to_string(), fragment))
}

/// The URL to hash and the ref its fragment names: where `s` parses as a
/// URL, its serialization without the fragment and the fragment; else all
/// of `s` and no ref.
pub open spec fn split_url(s: Seq<char>) -> (Seq<char>, Option<Seq<char>>) {
    match url_without_fragment(s) {
        Some(p) => p,
        None => (s, None),
    }
}

/// The directory of a configuration under `base`.
pub fn address(base: &str, opt: &Opt) -> (r: String)
    ensures
        r@ == content_address(base@, opt@.url, opt@.branch, opt@.refresh),
{
    let digest = digest_hex(opt.url.as_str());
    address_of_digest(base, digest.as_str(), &opt.branch, opt.refresh)
}

/// The directory for a URL with digest `digest`, a ref and a partition.
pub fn address_of_digest(base: &str, digest: &str, branch: &Option<String>, refresh: bool) -> (r:
    String)
    ensures
        r@ == digest_path(base@, digest@, opt_string_view(*branch), refresh),
{
    let dir = dir_of_digest(base, digest, refresh);
    match branch {
        Some(b) => join(dir.as_str(), b.as_str()),
        None => {
            let r = join(dir.as_str(), "_");
            proof {
                reveal_strlit("_");
                assert("_"@ =~= placeholder());
            }
            r
        },
    }
}

/// The directory shared by the refs of a URL with digest `digest`.
pub fn dir_of_digest(base: &str, digest: &str, refresh: bool) -> (r: String)
    ensures
        r@ == digest_dir(base@, digest@, refresh),
{
    let partition = if refresh {
        let p = join(base, "updatable");
        proof {
            reveal_strlit("updatable");
            assert("updatable"@ =~= updatable_name());
        }
        p
    } else {
        let p = join(base, "nonupdatable");
        proof {
            reveal_strlit("nonupdatable");
            assert("nonupdatable"@ =~= nonupdatable_name());
        }
        p
    };
    join(partition.as_str(), digest)
}

/// The segment that names a ref in a path.
pub open spec fn ref_segment(branch: Option<Seq<char>>) -> Seq<char> {
    match branch {
        Some(b) => b,
        None => placeholder(),
    }
}

/// The key under which the store keeps a configuration's volume: the
/// partition, the digest of the URL and the digest of the ref segment,
/// joined by `-`. Unlike the content address it is a single path segment.
pub open spec fn key_of(url: Seq<char>, branch: Option<Seq<char>>, refresh: bool) -> Seq<char> {
    partition_name(refresh) + seq!['-'] + sha256_hex(url) + seq!['-'] + sha256_hex(
        ref_segment(branch),
    )
}

/// The store key of a configuration.
pub fn volume_key(opt: &Opt) -> (r: String)
    ensures
        r@ == key_of(opt@.url, opt@.branch, opt@.refresh),
{
    let mut r = if opt.refresh {
        let p = "updatable".to_string();
        proof {
            reveal_strlit("updatable");
            assert(p@ =~= updatable_name());
        }
        p
    } else {
        let p = "nonupdatable".to_string();
        proof {
            reveal_strlit("nonupdatable");
            assert(p@ =~= nonupdatable_name());
        }
        p
    };
    let url_digest = digest_hex(opt.url.as_str());
    let ref_digest = match &opt.branch {
        Some(b) => digest_hex(b.as_str()),
        None => {
            let d = digest_hex("_");
            proof {
                reveal_strlit("_");
                assert("_"@ =~= placeholder());
            }
            d
        },
    };
    r.append("-");
    r.append(url_digest.as_str());
    r.append("-");
    r.append(ref_digest.as_str());
    proof {
        reveal_strlit("-");
    }
    r
}

/// Changing only the ref, or only the partition, changes the address (one
/// input gives one address, as `content_address` is a function); the ref `_` is left out, as it is spelled
/// like the segment that stands for no ref. (That a changed URL changes the
/// address holds as far as SHA-256 has no collisions, which no proof here
/// can show.)
pub proof fn lemma_address_determinism(
    base: Seq<char>,
    url: Seq<char>,
    branch: Option<Seq<char>>,
    branch2: Option<Seq<char>>,
    refresh: bool,
)
    requires
        branch != Some(placeholder()),
        branch2 != Some(placeholder()),
    ensures
        branch != branch2 ==> content_address(base, url, branch, refresh) != content_address(
            base,
            url,
            branch2,
            refresh,
        ),
        content_address(base, url, branch, true) != content_address(base, url, branch, false),
{
    let d = digest_dir(base, sha256_hex(url), refresh);
    let seg = |b: Option<Seq<char>>|
        match b {
            Some(x) => x,
            None => placeholder(),
        };
    if branch != branch2 {
        assert(seg(branch) != seg(branch2));
        let p = d + seq!['/'];
        assert(content_address(base, url, branch, refresh) == p + seg(branch));
        assert(content_address(base, url, branch2, refresh) == p + seg(branch2));
        if p + seg(branch) == p + seg(branch2) {
            assert((p + seg(branch)).skip(p.len() as int) =~= seg(branch));
            assert((p + seg(branch2)).skip(p.len() as int) =~= seg(branch2));
        }
    }
    let k: int = base.len() as int + 1;
    assert(content_address(base, url, branch, true)[k] == 'u');
    assert(content_address(base, url, branch, false)[k] == 'n');
}

/// Where volumes live: a directory named after the plugin under a root.
pub struct GlobalConfig {
    pub root_dir: String,
    pub plugin_name: String,
    pub base_dir: String,
}

impl GlobalConfig {
    /// The configuration for plugin `plugin_name` under `root_dir`; the
    /// name is trimmed and must keep at least two characters. The caller checks
    /// that the root exists and creates `base_dir`.
    pub fn new(root_dir: &str, plugin_name: &str) -> (r: Result<GlobalConfig, ConfigError>)
        ensures
            r is Err <==> trimmed(plugin_name@).len() < 2,
            r is Err ==> r->Err_0 == ConfigError::EmptyPluginName,
            r is Ok ==> r->Ok_0.root_dir@ == root_dir@ && r->Ok_0.plugin_name@ == trimmed(
                plugin_name@,
            ) && r->Ok_0.base_dir@ == join_path(root_dir@, trimmed(plugin_name@)),
    {
        let name = trim_text(plugin_name);
        if name.as_str().unicode_len() < 2 {
            return Err(ConfigError::EmptyPluginName);
        }
        let base_dir = join(root_dir, name.as_str());
        Ok(GlobalConfig { root_dir: root_dir.to_string(), plugin_name: name, base_dir })
    }
}

/// A request to mount a repository for a container.
pub struct MountConfigRequest {
    pub id: String,
    pub repo: String,
    pub branch: Option<String>,
    pub updatable: Option<bool>,
}

/// A mount request resolved to its place on disk.
pub struct MountConfig {
    pub id: String,
    pub repo_base_dir: String,
    pub repo_dir: String,
    pub repo: String,
    pub branch: Option<String>,
    pub updatable: bool,
}

/// The outcome of resolving a URL `url`, the ref `url_branch` from its
/// fragment and the other inputs of a mount request.
pub open spec fn resolved(
    base: Seq<char>,
    url: Seq<char>,
    url_branch: Option<Seq<char>>,
    branch: Option<Seq<char>>,
    updatable: Option<bool>,
    c: MountConfig,
) -> bool {
    let b = normalized_ref(
        if branch is Some {
            branch
        } else {
            url_branch
        },
    );
    let refresh = match updatable {
        Some(u) => u,
        None => false,
    };
    &&& c.repo@ == url
    &&& opt_string_view(c.branch) == b
    &&& c.updatable == refresh
    &&& c.repo_base_dir@ == repo_base_path(base, url, refresh)
    &&& c.repo_dir@ == content_address(base, url, b, refresh)
}

impl MountConfig {
    /// Resolves a request: where the repository text parses as a URL, its
    /// fragment may name the ref, and the URL is hashed in its serialized
    /// form without the fragment; else the text is taken whole. A ref may
    /// come from the fragment or from `branch`, not both.
    pub fn new(global_config: &GlobalConfig, mount_request: MountConfigRequest) -> (r: Result<
        MountConfig,
        ConfigError,
    >)
        ensures
            r is Err <==> mount_request.branch is Some && split_url(mount_request.repo@).1 is Some,
            r is Err ==> r->Err_0 == ConfigError::ConflictingRef,
            r is Ok ==> r->Ok_0.id == mount_request.id && resolved(
                global_config.base_dir@,
                split_url(mount_request.repo@).0,
                split_url(mount_request.repo@).1,
                opt_string_view(mount_request.branch),
                mount_request.updatable,
                r->Ok_0,
            ),
    {
        let MountConfigRequest { id, repo, branch, updatable } = mount_request;
        let (url, url_branch) = match parse_fragment(repo.as_str()) {
            Some((u, f)) => (u, f),
            None => (repo, None),
        };
        MountConfig::resolve(global_config, id, url, url_branch, branch, updatable)
    }

    /// Resolves a request whose URL is `url` and whose fragment named
    /// `url_branch`: a ref given both ways is refused; the ref is trimmed
    /// and dropped when empty; the configuration lives at the content
    /// address of `url`, the ref and the partition.
    pub fn resolve(
        global_config: &GlobalConfig,
        id: String,
        url: String,
        url_branch: Option<String>,
        branch: Option<String>,
        updatable: Option<bool>,
    ) -> (r: Result<MountConfig, ConfigError>)
        ensures
            r is Err <==> branch is Some && url_branch is Some,
            r is Err ==> r->Err_0 == ConfigError::ConflictingRef,
            r is Ok ==> r->Ok_0.id == id && resolved(
                global_config.base_dir@,
                url@,
                opt_string_view(url_branch),
                opt_string_view(branch),
                updatable,
                r->Ok_0,
            ),
    {
        if branch.is_some() && url_branch.is_some() {
            return Err(ConfigError::ConflictingRef);
        }
        let chosen = match branch {
            Some(b) => Some(b),
            None => url_branch,
        };
        let branch = match chosen {
            Some(b) => {
                let t = trim_text(b.as_str());
                if t.as_str().is_empty() {
                    None
                } else {
                    Some(t)
                }
            },
            None => None,
        };
        let updatable = match updatable {
            Some(u) => u,
            None => false,
        };
        let digest = digest_hex(url.as_str());
        let repo_base_dir = dir_of_digest(global_config.base_dir.as_str(), digest.as_str(), updatable);
        let opt = Opt { url, branch, refresh: updatable };
        let repo_dir = address_of_digest(
            global_config.base_dir.as_str(),
            digest.as_str(),
            &opt.branch,
            updatable,
        );
        Ok(MountConfig { id, repo_base_dir, repo_dir, repo: opt.url, branch: opt.branch, updatable })
    }

    /// Points the configuration at another ref of the same repository.
    pub fn set_branch(&mut self, branch: &str)
        ensures
            opt_string_view(final(self).branch) == Some(branch@),
            final(self).repo_dir@ == join_path(old(self).repo_base_dir@, branch@),
            final(self).repo_base_dir == old(self).repo_base_dir,
            final(self).repo == old(self).repo,
            final(self).id == old(self).id,
            final(self).updatable == old(self).updatable,
    {
        self.branch = Some(branch.to_string());
        self.repo_dir = join(self.repo_base_dir.as_str(), branch);
    }
}

} // verus!
