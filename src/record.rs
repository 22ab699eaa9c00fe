//! The repository record: the persisted unit of content of one volume.
use vstd::prelude::*;

verus! {

/// One requested repository mount: a git remote, an optional ref, and
/// whether later attaches fetch upstream changes again.
pub struct Opt {
    pub url: String,
    pub branch: Option<String>,
    pub refresh: bool,
}

pub ghost struct OptView {
    pub url: Seq<char>,
    pub branch: Option<Seq<char>>,
    pub refresh: bool,
}

impl View for Opt {
    type V = OptView;

    open spec fn view(&self) -> OptView {
        OptView {
            url: self.url@,
            branch: match self.branch {
                Some(b) => Some(b@),
                None => None,
            },
            refresh: self.refresh,
        }
    }
}

/// The record of one stored repository.
///
/// `origin_name` is the volume name that first created the entry; it takes
/// no part in the entry's identity. `consumers` holds the ids of the
/// containers attached to it, and `locked` is set while a clone or a fetch
/// runs on its content.
pub struct Repo {
    pub origin_name: String,
    pub opt: Opt,
    pub consumers: Vec<String>,
    pub locked: bool,
}

pub ghost struct RepoView {
    pub origin_name: Seq<char>,
    pub opt: OptView,
    pub consumers: Set<Seq<char>>,
    pub locked: bool,
}

/// The set of strings that a vector holds.
pub open spec fn string_set(v: Seq<String>) -> Set<Seq<char>> {
    Set::new(|s: Seq<char>| exists|i: int| 0 <= i < v.len() && v[i]@ == s)
}

impl View for Repo {
    type V = RepoView;

    open spec fn view(&self) -> RepoView {
        RepoView {
            origin_name: self.origin_name@,
            opt: self.opt@,
            consumers: string_set(self.consumers@),
            locked: self.locked,
        }
    }
}

impl Opt {
    pub fn new(url: String, branch: Option<String>, refresh: bool) -> (r: Opt)
        ensures
            r.url == url,
            r.branch == branch,
            r.refresh == refresh,
    {
        Opt { url, branch, refresh }
    }
}

impl Repo {
    /// A record that is not locked.
    pub fn new(origin_name: String, opt: Opt, consumers: Vec<String>) -> (r: Repo)
        ensures
            r.origin_name == origin_name,
            r.opt == opt,
            r.consumers == consumers,
            !r.locked,
    {
        Repo { origin_name, opt, consumers, locked: false }
    }

    /// Whether container `id` is attached.
    pub fn has_consumer(&self, id: &String) -> (r: bool)
        ensures
            r == self@.consumers.contains(id@),
    {
        let mut i: usize = 0;
        while i < self.consumers.len()
            invariant
                i <= self.consumers.len(),
                forall|j: int| 0 <= j < i ==> self.consumers@[j]@ != id@,
            decreases self.consumers.len() - i,
        {
            if self.consumers[i] == *id {
                return true;
            }
            i = i + 1;
        }
        false
    }
}

} // verus!
