//! The registry of volumes: volumes by content address, and the reverse
//! index from `(volume name, container id)` to content address.
use vstd::prelude::*;

use crate::assoc::{
    drop_value, has_key, keys_unique, lemma_dom, lemma_drop_value, lemma_index, lemma_push,
    lemma_remove, lemma_update, pairs_to_map, without_value,
};
use crate::record::{string_set, Repo, RepoView};
use crate::volume::{join, join_path, LoadError, RecordProbe, Volume, VolumeView};

verus! {

/// A key of the reverse index: a volume name and a container id.
pub type LinkKey = (Seq<char>, Seq<char>);

/// `m` with `(name, id) -> hash` set for every id in `ids`.
pub open spec fn with_ids(
    m: Map<LinkKey, Seq<char>>,
    name: Seq<char>,
    ids: Set<Seq<char>>,
    hash: Seq<char>,
) -> Map<LinkKey, Seq<char>> {
    Map::new(
        |k: LinkKey| m.contains_key(k) || (k.0 == name && ids.contains(k.1)),
        |k: LinkKey|
            if k.0 == name && ids.contains(k.1) {
                hash
            } else {
                m[k]
            },
    )
}

/// The view of an optional record.
pub open spec fn record_view(repo: Option<Repo>) -> Option<RepoView> {
    match repo {
        Some(r) => Some(r@),
        None => None,
    }
}

/// The view of a list of volumes with their content addresses.
pub open spec fn pairs_of_volumes(v: Seq<(String, Volume)>) -> Seq<(Seq<char>, VolumeView)> {
    v.map_values(|e: (String, Volume)| (e.0@, e.1@))
}

/// The view of a list of reverse-index entries.
pub open spec fn pairs_of_links(v: Seq<((String, String), String)>) -> Seq<(LinkKey, Seq<char>)> {
    v.map_values(|e: ((String, String), String)| ((e.0.0@, e.0.1@), e.1@))
}

/// Distinct keys in both lists, every reverse-index entry names a stored
/// volume, and each volume lives in `base/hash`.
pub open spec fn store_wf(
    base: Seq<char>,
    vols: Seq<(String, Volume)>,
    links: Seq<((String, String), String)>,
) -> bool {
    let vm = pairs_to_map(pairs_of_volumes(vols));
    let lm = pairs_to_map(pairs_of_links(links));
    &&& keys_unique(pairs_of_volumes(vols))
    &&& keys_unique(pairs_of_links(links))
    &&& forall|k: LinkKey| #[trigger] lm.contains_key(k) ==> vm.contains_key(lm[k])
    &&& forall|h: Seq<char>| #[trigger] vm.contains_key(h) ==> vm[h].path == join_path(base, h)
}

/// What the startup scan found at one entry of the base directory.
pub enum EntryProbe {
    /// The entry is no directory.
    NotADirectory,
    /// A directory without the `repo` marker directory: its clone never
    /// finished.
    NoMarker,
    /// A directory with the marker, and what reading its record found.
    Marked(RecordProbe),
}

/// What the startup scan does with one entry on disk.
#[derive(Debug, PartialEq, Eq, Structural)]
pub enum EntryAction {
    /// Delete the file.
    RemoveFile,
    /// Delete the directory tree.
    RemoveDir,
    /// Keep the entry: it is now a stored volume.
    Keep,
}

/// The action that the scan takes on an entry.
pub open spec fn action_of(probe: EntryProbe) -> EntryAction {
    match probe {
        EntryProbe::NotADirectory => EntryAction::RemoveFile,
        EntryProbe::NoMarker => EntryAction::RemoveDir,
        EntryProbe::Marked(RecordProbe::Parsed(_)) => EntryAction::Keep,
        EntryProbe::Marked(_) => EntryAction::RemoveDir,
    }
}

/// The record that a probe found, if it found one.
pub open spec fn parsed_record(probe: RecordProbe) -> Option<Repo> {
    match probe {
        RecordProbe::Parsed(repo) => Some(repo),
        _ => None,
    }
}

/// The indexes after the scan has taken in entry `name` of directory `base`.
pub open spec fn entry_effect(
    state: (Map<Seq<char>, VolumeView>, Map<LinkKey, Seq<char>>),
    base: Seq<char>,
    name: Seq<char>,
    probe: EntryProbe,
) -> (Map<Seq<char>, VolumeView>, Map<LinkKey, Seq<char>>) {
    match probe {
        EntryProbe::Marked(RecordProbe::Parsed(repo)) => (
            state.0.insert(name, VolumeView { path: join_path(base, name), record: Some(repo@) }),
            with_ids(state.1, repo@.origin_name, repo@.consumers, name),
        ),
        EntryProbe::Marked(_) => (state.0.remove(name), without_value(state.1, name)),
        _ => state,
    }
}

/// The indexes after the scan has taken in `entries` in order, from empty.
pub open spec fn replay(base: Seq<char>, entries: Seq<(String, EntryProbe)>) -> (
    Map<Seq<char>, VolumeView>,
    Map<LinkKey, Seq<char>>,
)
    decreases entries.len(),
{
    if entries.len() == 0 {
        (Map::empty(), Map::empty())
    } else {
        entry_effect(
            replay(base, entries.drop_last()),
            base,
            entries.last().0@,
            entries.last().1,
        )
    }
}

/// The registry.
///
/// Each volume lives in the directory `base_path/hash`. Every entry of the
/// reverse index names a content address that the registry holds.
pub struct Store {
    base_path: String,
    volumes: Vec<(String, Volume)>,
    ids_relations: Vec<((String, String), String)>,
}

impl Store {
    /// The directory under which the volumes live.
    pub closed spec fn base_view(&self) -> Seq<char> {
        self.base_path@
    }

    closed spec fn volume_pairs(&self) -> Seq<(Seq<char>, VolumeView)> {
        pairs_of_volumes(self.volumes@)
    }

    closed spec fn link_pairs(&self) -> Seq<(LinkKey, Seq<char>)> {
        pairs_of_links(self.ids_relations@)
    }

    /// The volumes by content address.
    pub closed spec fn volumes_view(&self) -> Map<Seq<char>, VolumeView> {
        pairs_to_map(self.volume_pairs())
    }

    /// The reverse index: `(name, id)` to content address.
    pub closed spec fn links_view(&self) -> Map<LinkKey, Seq<char>> {
        pairs_to_map(self.link_pairs())
    }

    /// The registry's invariant.
    pub closed spec fn wf(&self) -> bool {
        store_wf(self.base_path@, self.volumes@, self.ids_relations@)
    }

    /// An empty registry for volumes under `base_path`.
    pub fn new(base_path: &str) -> (r: Store)
        ensures
            r.wf(),
            r.base_view() == base_path@,
            r.volumes_view() == Map::<Seq<char>, VolumeView>::empty(),
            r.links_view() == Map::<LinkKey, Seq<char>>::empty(),
    {
        let r = Store { base_path: base_path.to_string(), volumes: Vec::new(), ids_relations: Vec::new() };
        assert(r.volume_pairs() =~= Seq::empty());
        assert(r.link_pairs() =~= Seq::empty());
        r
    }

    /// The directory under which the volumes live.
    pub fn base_path(&self) -> (r: &String)
        ensures
            r@ == self.base_view(),
    {
        &self.base_path
    }

    /// The directory that the volume stored under `hash` has, or would
    /// have: `base_path/hash`.
    pub fn volume_path(&self, hash: &str) -> (r: String)
        ensures
            r@ == join_path(self.base_view(), hash@),
    {
        join(self.base_path.as_str(), hash)
    }

    fn find_volume(&self, hash: &String) -> (r: Option<usize>)
        ensures
            r is Some ==> r->Some_0 < self.volumes@.len() && self.volume_pairs()[r->Some_0 as int].0
                == hash@,
            r is None ==> !has_key(self.volume_pairs(), hash@),
    {
        let mut i: usize = 0;
        while i < self.volumes.len()
            invariant
                i <= self.volumes@.len(),
                forall|j: int| 0 <= j < i ==> self.volume_pairs()[j].0 != hash@,
            decreases self.volumes@.len() - i,
        {
            if self.volumes[i].0 == *hash {
                return Some(i);
            }
            i = i + 1;
        }
        None
    }

    fn find_link(&self, name: &String, id: &String) -> (r: Option<usize>)
        ensures
            r is Some ==> r->Some_0 < self.ids_relations@.len() && self.link_pairs()[r->Some_0 as int].0
                == (name@, id@),
            r is None ==> !has_key(self.link_pairs(), (name@, id@)),
    {
        let mut i: usize = 0;
        while i < self.ids_relations.len()
            invariant
                i <= self.ids_relations@.len(),
                forall|j: int| 0 <= j < i ==> self.link_pairs()[j].0 != (name@, id@),
            decreases self.ids_relations@.len() - i,
        {
            if self.ids_relations[i].0.0 == *name && self.ids_relations[i].0.1 == *id {
                return Some(i);
            }
            i = i + 1;
        }
        None
    }

    /// Whether a volume is stored under `hash`.
    pub fn has_volume(&self, hash: &str) -> (r: bool)
        ensures
            r == self.volumes_view().contains_key(hash@),
    {
        let h = hash.to_string();
        let found = self.find_volume(&h);
        proof {
            lemma_dom(self.volume_pairs(), hash@);
        }
        found.is_some()
    }

    /// The volume stored under `hash`.
    pub fn get_by_hash(&self, hash: &str) -> (r: Option<&Volume>)
        requires
            self.wf(),
        ensures
            r is Some <==> self.volumes_view().contains_key(hash@),
            r is Some ==> r->Some_0@ == self.volumes_view()[hash@],
    {
        let h = hash.to_string();
        proof {
            lemma_dom(self.volume_pairs(), hash@);
        }
        match self.find_volume(&h) {
            Some(i) => {
                proof {
                    lemma_index(self.volume_pairs(), i as int);
                }
                Some(&self.volumes[i].1)
            },
            None => None,
        }
    }

    /// The volume stored under `hash`, to be changed in place. The registry
    /// stays well-formed as long as the volume keeps its directory.
    pub fn get_by_hash_mut(&mut self, hash: &str) -> (r: Option<&mut Volume>)
        requires
            old(self).wf(),
        ensures
            r is Some <==> old(self).volumes_view().contains_key(hash@),
            r is Some ==> (*r->Some_0)@ == old(self).volumes_view()[hash@],
            r is Some ==> final(self).volumes_view() == old(self).volumes_view().insert(
                hash@,
                (*final(r->Some_0))@,
            ),
            r is None ==> final(self).volumes_view() == old(self).volumes_view(),
            final(self).links_view() == old(self).links_view(),
            final(self).base_view() == old(self).base_view(),
            r is Some ==> ((*final(r->Some_0))@.path == (*r->Some_0)@.path ==> final(self).wf()),
            r is None ==> final(self).wf(),
    {
        let h = hash.to_string();
        proof {
            lemma_dom(self.volume_pairs(), hash@);
        }
        match self.find_volume(&h) {
            Some(i) => {
                proof {
                    let vs = self.volumes@;
                    let p = self.volume_pairs();
                    lemma_index(p, i as int);
                    assert forall|x: (String, Volume)| x.0@ == hash@ implies #[trigger] pairs_of_volumes(
                        vs.update(i as int, x),
                    ) == p.update(i as int, (p[i as int].0, x.1@)) && keys_unique(
                        pairs_of_volumes(vs.update(i as int, x)),
                    ) && pairs_to_map(pairs_of_volumes(vs.update(i as int, x))) == pairs_to_map(
                        p,
                    ).insert(hash@, x.1@) by {
                        assert(pairs_of_volumes(vs.update(i as int, x)) =~= p.update(
                            i as int,
                            (p[i as int].0, x.1@),
                        ));
                        lemma_update(p, i as int, x.1@);
                    }
                    let m = pairs_to_map(p);
                    assert forall|x: (String, Volume)|
                        x.0@ == hash@ && x.1@.path == m[hash@].path implies #[trigger] store_wf(
                        self.base_path@,
                        vs.update(i as int, x),
                        self.ids_relations@,
                    ) by {
                        let m2 = pairs_to_map(pairs_of_volumes(vs.update(i as int, x)));
                        assert(m2 == m.insert(hash@, x.1@));
                        assert(m2.dom() =~= m.dom());
                        assert forall|h: Seq<char>| #[trigger] m2.contains_key(h) implies m2[h].path
                            == join_path(self.base_path@, h) by {
                            if h != hash@ {
                                assert(m.contains_key(h));
                            }
                        }
                    }
                }
                let entry = &mut self.volumes[i];
                Some(&mut entry.1)
            },
            None => None,
        }
    }

    /// The content address that `(name, id)` refers to, copied out.
    pub fn hash_of(&self, name: &str, id: &str) -> (r: Option<String>)
        requires
            self.wf(),
        ensures
            r is Some <==> self.links_view().contains_key((name@, id@)),
            r is Some ==> r->Some_0@ == self.links_view()[(name@, id@)],
    {
        let n = name.to_string();
        let i = id.to_string();
        proof {
            lemma_dom(self.link_pairs(), (name@, id@));
        }
        match self.find_link(&n, &i) {
            Some(j) => {
                proof {
                    lemma_index(self.link_pairs(), j as int);
                }
                Some(self.ids_relations[j].1.clone())
            },
            None => None,
        }
    }

    /// The volume that `(name, id)` refers to, through the reverse index.
    pub fn get_by_name(&self, name: &str, id: &str) -> (r: Option<&Volume>)
        requires
            self.wf(),
        ensures
            r is Some <==> self.links_view().contains_key((name@, id@)),
            r is Some ==> r->Some_0@ == self.volumes_view()[self.links_view()[(name@, id@)]],
    {
        match self.hash_of(name, id) {
            Some(hash) => self.get_by_hash(hash.as_str()),
            None => None,
        }
    }

    fn upsert_link(&mut self, name: &String, id: String, hash: &String)
        requires
            old(self).wf(),
            old(self).volumes_view().contains_key(hash@),
        ensures
            final(self).wf(),
            final(self).volumes@ == old(self).volumes@,
            final(self).base_path == old(self).base_path,
            final(self).links_view() == old(self).links_view().insert((name@, id@), hash@),
    {
        let ghost p = self.link_pairs();
        let ghost key = (name@, id@);
        match self.find_link(name, &id) {
            Some(j) => {
                proof {
                    lemma_update(p, j as int, hash@);
                }
                self.ids_relations.set(j, ((name.clone(), id), hash.clone()));
                assert(self.link_pairs() =~= p.update(j as int, (p[j as int].0, hash@)));
            },
            None => {
                proof {
                    lemma_push(p, key, hash@);
                }
                self.ids_relations.push(((name.clone(), id), hash.clone()));
                assert(self.link_pairs() =~= p.push((key, hash@)));
            },
        }
        assert forall|k: LinkKey| #[trigger] self.links_view().contains_key(k) implies self.volumes_view().contains_key(
            self.links_view()[k],
        ) by {
            if k != key {
                assert(old(self).links_view().contains_key(k));
            }
        }
    }

    /// Points `(name, id)` at `hash` for every id in `ids`, replacing what
    /// those keys pointed at before.
    pub fn remember_ids(&mut self, name: &str, hash: &str, ids: &Vec<String>)
        requires
            old(self).wf(),
            old(self).volumes_view().contains_key(hash@),
        ensures
            final(self).wf(),
            final(self).base_view() == old(self).base_view(),
            final(self).volumes_view() == old(self).volumes_view(),
            final(self).links_view() == with_ids(
                old(self).links_view(),
                name@,
                string_set(ids@),
                hash@,
            ),
    {
        let n = name.to_string();
        let h = hash.to_string();
        let mut i: usize = 0;
        assert(with_ids(old(self).links_view(), n@, string_set(ids@.take(0)), h@) =~= old(
            self,
        ).links_view());
        while i < ids.len()
            invariant
                i <= ids@.len(),
                self.wf(),
                n@ == name@,
                h@ == hash@,
                self.volumes@ == old(self).volumes@,
                self.base_path == old(self).base_path,
                self.volumes_view().contains_key(hash@),
                self.links_view() == with_ids(
                    old(self).links_view(),
                    name@,
                    string_set(ids@.take(i as int)),
                    hash@,
                ),
            decreases ids@.len() - i,
        {
            let ghost before = self.links_view();
            self.upsert_link(&n, ids[i].clone(), &h);
            proof {
                let s0 = string_set(ids@.take(i as int));
                let s1 = string_set(ids@.take(i + 1));
                assert forall|x: Seq<char>| s1.contains(x) <==> s0.insert(ids@[i as int]@).contains(x) by {
                    if s1.contains(x) {
                        let j = choose|j: int| 0 <= j < ids@.take(i + 1).len() && #[trigger] ids@.take(i + 1)[j]@ == x;
                        if j < i {
                            assert(ids@.take(i as int)[j]@ == x);
                        }
                    }
                    if s0.contains(x) {
                        let j = choose|j: int| 0 <= j < ids@.take(i as int).len() && #[trigger] ids@.take(i as int)[j]@ == x;
                        assert(ids@.take(i + 1)[j]@ == x);
                    }
                    if x == ids@[i as int]@ {
                        assert(ids@.take(i + 1)[i as int]@ == x);
                    }
                }
                assert(s1 =~= s0.insert(ids@[i as int]@));
                assert(self.links_view() =~= with_ids(old(self).links_view(), name@, s1, hash@));
            }
            i = i + 1;
        }
        assert(ids@.take(ids@.len() as int) =~= ids@);
    }

    /// Stores a volume under `hash` in `base_path/hash`, replacing any
    /// volume stored there before; returns that directory.
    fn create_volume_inner(&mut self, hash: &str, repo: Option<Repo>) -> (r: String)
        requires
            old(self).wf(),
        ensures
            final(self).wf(),
            final(self).base_view() == old(self).base_view(),
            final(self).links_view() == old(self).links_view(),
            final(self).volumes_view() == old(self).volumes_view().insert(
                hash@,
                VolumeView { path: join_path(old(self).base_view(), hash@), record: record_view(repo) },
            ),
            r@ == join_path(old(self).base_view(), hash@),
    {
        let h = hash.to_string();
        let path = join(self.base_path.as_str(), hash);
        let vol = match repo {
            Some(rp) => Volume::ready(path.clone(), rp),
            None => Volume::draft(path.clone()),
        };
        let ghost v = vol@;
        let ghost p = self.volume_pairs();
        match self.find_volume(&h) {
            Some(i) => {
                proof {
                    lemma_update(p, i as int, v);
                }
                self.volumes.set(i, (h, vol));
                assert(self.volume_pairs() =~= p.update(i as int, (p[i as int].0, v)));
            },
            None => {
                proof {
                    lemma_push(p, hash@, v);
                }
                self.volumes.push((h, vol));
                assert(self.volume_pairs() =~= p.push((hash@, v)));
            },
        }
        assert forall|k: LinkKey| #[trigger] self.links_view().contains_key(k) implies self.volumes_view().contains_key(
            self.links_view()[k],
        ) by {
            assert(old(self).links_view().contains_key(k));
        }
        assert forall|x: Seq<char>| #[trigger] self.volumes_view().contains_key(x) implies self.volumes_view()[x].path
            == join_path(self.base_view(), x) by {
            if x != hash@ {
                assert(old(self).volumes_view().contains_key(x));
            }
        }
        path
    }

    /// Stores a volume with `repo` under `hash` and points `(name, id)` at
    /// it for every consumer id of `repo`. Returns the volume's directory,
    /// which the caller creates if it is missing.
    pub fn create_volume(&mut self, hash: &str, name: &str, repo: Repo) -> (r: String)
        requires
            old(self).wf(),
        ensures
            final(self).wf(),
            final(self).base_view() == old(self).base_view(),
            final(self).volumes_view() == old(self).volumes_view().insert(
                hash@,
                VolumeView { path: join_path(old(self).base_view(), hash@), record: Some(repo@) },
            ),
            final(self).links_view() == with_ids(
                old(self).links_view(),
                name@,
                repo@.consumers,
                hash@,
            ),
            r@ == join_path(old(self).base_view(), hash@),
    {
        let ids = clone_strings(&repo.consumers);
        assert forall|x: Seq<char>| string_set(ids@).contains(x) <==> repo@.consumers.contains(x) by {
            if string_set(ids@).contains(x) {
                let j = choose|j: int| 0 <= j < ids@.len() && #[trigger] ids@[j]@ == x;
                assert(repo.consumers@[j]@ == x);
            }
            if repo@.consumers.contains(x) {
                let j = choose|j: int| 0 <= j < repo.consumers@.len() && #[trigger] repo.consumers@[j]@ == x;
                assert(ids@[j]@ == x);
            }
        }
        assert(string_set(ids@) =~= repo@.consumers);
        let path = self.create_volume_inner(hash, Some(repo));
        self.remember_ids(name, hash, &ids);
        path
    }

    /// Reserves `base_path/hash` for a volume whose record is not known yet.
    pub fn create_draft_volume(&mut self, hash: &str) -> (r: String)
        requires
            old(self).wf(),
        ensures
            final(self).wf(),
            final(self).base_view() == old(self).base_view(),
            final(self).volumes_view() == old(self).volumes_view().insert(
                hash@,
                VolumeView { path: join_path(old(self).base_view(), hash@), record: None },
            ),
            final(self).links_view() == old(self).links_view(),
            r@ == join_path(old(self).base_view(), hash@),
    {
        self.create_volume_inner(hash, None)
    }

    fn drop_links_to(&mut self, hash: &String)
        ensures
            final(self).volumes@ == old(self).volumes@,
            final(self).base_path == old(self).base_path,
            final(self).link_pairs() == drop_value(old(self).link_pairs(), hash@),
    {
        let ghost lp = self.link_pairs();
        let mut kept: Vec<((String, String), String)> = Vec::new();
        let mut i: usize = 0;
        assert(lp.take(0) =~= Seq::<(LinkKey, Seq<char>)>::empty());
        assert(pairs_of_links(kept@) =~= Seq::<(LinkKey, Seq<char>)>::empty());
        while i < self.ids_relations.len()
            invariant
                i <= self.ids_relations@.len(),
                self.link_pairs() == lp,
                pairs_of_links(kept@) == drop_value(lp.take(i as int), hash@),
            decreases self.ids_relations@.len() - i,
        {
            let e = &self.ids_relations[i];
            let ghost before = kept@;
            if !(e.1 == *hash) {
                kept.push(((e.0.0.clone(), e.0.1.clone()), e.1.clone()));
                assert(pairs_of_links(kept@) =~= pairs_of_links(before).push(lp[i as int]));
            }
            assert(lp.take(i + 1).drop_last() =~= lp.take(i as int));
            assert(lp.take(i + 1).last() == lp[i as int]);
            i = i + 1;
        }
        assert(lp.take(i as int) =~= lp);
        self.ids_relations = kept;
    }

    /// Removes the volume stored under `hash` and every reverse-index entry
    /// that points at it, and hands the volume back so that the caller can
    /// delete its directory.
    pub fn delete_volume_by_hash(&mut self, hash: &str) -> (r: Option<Volume>)
        requires
            old(self).wf(),
        ensures
            final(self).wf(),
            final(self).base_view() == old(self).base_view(),
            r is Some <==> old(self).volumes_view().contains_key(hash@),
            r is Some ==> r->Some_0@ == old(self).volumes_view()[hash@],
            final(self).volumes_view() == old(self).volumes_view().remove(hash@),
            final(self).links_view() == without_value(old(self).links_view(), hash@),
    {
        let h = hash.to_string();
        let ghost vp = self.volume_pairs();
        let ghost lp = self.link_pairs();
        proof {
            lemma_dom(vp, hash@);
        }
        match self.find_volume(&h) {
            None => {
                assert(self.volumes_view().remove(hash@) =~= self.volumes_view());
                assert forall|k: LinkKey| #[trigger] self.links_view().contains_key(k) implies self.links_view()[k]
                    != hash@ by {
                    assert(self.volumes_view().contains_key(self.links_view()[k]));
                }
                assert(without_value(self.links_view(), hash@) =~= self.links_view());
                None
            },
            Some(i) => {
                proof {
                    lemma_index(vp, i as int);
                    lemma_remove(vp, i as int);
                    lemma_drop_value(lp, hash@);
                }
                let (_, vol) = self.volumes.remove(i);
                assert(self.volume_pairs() =~= vp.remove(i as int));
                self.drop_links_to(&h);
                assert forall|k: LinkKey| #[trigger] self.links_view().contains_key(k) implies self.volumes_view().contains_key(
                    self.links_view()[k],
                ) by {
                    assert(old(self).links_view().contains_key(k));
                }
                assert forall|x: Seq<char>| #[trigger] self.volumes_view().contains_key(x) implies self.volumes_view()[x].path
                    == join_path(self.base_view(), x) by {
                    assert(old(self).volumes_view().contains_key(x));
                }
                Some(vol)
            },
        }
    }

    /// Removes the volume that `(name, id)` refers to, with every reverse-index
    /// entry that points at it; does nothing when `(name, id)` refers to none.
    /// The reverse index is read and its content address copied out before
    /// the removal starts.
    pub fn delete_volume_by_name(&mut self, name: &str, id: &str) -> (r: Option<Volume>)
        requires
            old(self).wf(),
        ensures
            final(self).wf(),
            final(self).base_view() == old(self).base_view(),
            !old(self).links_view().contains_key((name@, id@)) ==> r is None,
            !old(self).links_view().contains_key((name@, id@)) ==> final(self).volumes_view()
                == old(self).volumes_view(),
            !old(self).links_view().contains_key((name@, id@)) ==> final(self).links_view()
                == old(self).links_view(),
            old(self).links_view().contains_key((name@, id@)) ==> ({
                let h = old(self).links_view()[(name@, id@)];
                &&& r is Some
                &&& r->Some_0@ == old(self).volumes_view()[h]
                &&& final(self).volumes_view() == old(self).volumes_view().remove(h)
                &&& final(self).links_view() == without_value(old(self).links_view(), h)
            }),
    {
        let hash = self.hash_of(name, id);
        match hash {
            Some(h) => self.delete_volume_by_hash(h.as_str()),
            None => None,
        }
    }

    /// Takes in one entry of the base directory at startup. An entry that
    /// is no directory, or has no marker, is left out. A marked one is
    /// reserved as a draft and its record loaded; if that fails the draft is
    /// rolled back, else its consumers are remembered under its origin name.
    pub fn load_entry(&mut self, name: &str, probe: EntryProbe) -> (r: EntryAction)
        requires
            old(self).wf(),
        ensures
            final(self).wf(),
            final(self).base_view() == old(self).base_view(),
            r == action_of(probe),
            (final(self).volumes_view(), final(self).links_view()) == entry_effect(
                (old(self).volumes_view(), old(self).links_view()),
                old(self).base_view(),
                name@,
                probe,
            ),
    {
        match probe {
            EntryProbe::NotADirectory => EntryAction::RemoveFile,
            EntryProbe::NoMarker => EntryAction::RemoveDir,
            EntryProbe::Marked(record) => {
                self.create_draft_volume(name);
                let loaded = match self.get_by_hash_mut(name) {
                    Some(vol) => vol.load_repo(record),
                    None => Err(LoadError::Missing),
                };
                match loaded {
                    Err(_) => {
                        self.delete_volume_by_hash(name);
                        assert(self.volumes_view() =~= old(self).volumes_view().remove(name@));
                        EntryAction::RemoveDir
                    },
                    Ok(()) => {
                        let (origin, ids) = match self.get_by_hash(name) {
                            Some(vol) => match vol.get_repo() {
                                Ok(repo) => {
                                    let ids = clone_strings(&repo.consumers);
                                    proof {
                                        let cs = repo.consumers@;
                                        assert forall|x: Seq<char>|
                                            string_set(ids@).contains(x) <==> repo@.consumers.contains(
                                                x,
                                            ) by {
                                            if string_set(ids@).contains(x) {
                                                let j = choose|j: int|
                                                    0 <= j < ids@.len() && #[trigger] ids@[j]@ == x;
                                                assert(cs[j]@ == x);
                                            }
                                            if repo@.consumers.contains(x) {
                                                let j = choose|j: int|
                                                    0 <= j < cs.len() && #[trigger] cs[j]@ == x;
                                                assert(ids@[j]@ == x);
                                            }
                                        }
                                        assert(string_set(ids@) =~= repo@.consumers);
                                    }
                                    (repo.origin_name.clone(), ids)
                                },
                                Err(_) => {
                                    return EntryAction::RemoveDir;
                                },
                            },
                            None => {
                                return EntryAction::RemoveDir;
                            },
                        };
                        self.remember_ids(origin.as_str(), name, &ids);
                        EntryAction::Keep
                    },
                }
            },
        }
    }

    /// The startup recovery: a registry for `base_path` built from the
    /// entries found there, taken in order, with the action to take on disk
    /// for each of them.
    pub fn load(base_path: &str, entries: Vec<(String, EntryProbe)>) -> (r: (Store, Vec<EntryAction>))
        ensures
            r.0.wf(),
            r.0.base_view() == base_path@,
            (r.0.volumes_view(), r.0.links_view()) == replay(base_path@, entries@),
            r.1@.len() == entries@.len(),
            forall|j: int| 0 <= j < entries@.len() ==> r.1@[j] == action_of(#[trigger] entries@[j].1),
    {
        let mut store = Store::new(base_path);
        let mut actions: Vec<EntryAction> = Vec::new();
        let mut rest = entries;
        let n = rest.len();
        let ghost all = rest@;
        let mut i: usize = 0;
        assert(all.take(0) =~= Seq::<(String, EntryProbe)>::empty());
        assert(store.volumes_view() =~= replay(base_path@, all.take(0)).0);
        while rest.len() > 0
            invariant
                store.wf(),
                store.base_view() == base_path@,
                i + rest@.len() == n,
                n == all.len(),
                rest@ == all.skip(i as int),
                (store.volumes_view(), store.links_view()) == replay(base_path@, all.take(i as int)),
                actions@.len() == i,
                forall|j: int| 0 <= j < i ==> actions@[j] == action_of(#[trigger] all[j].1),
            decreases rest@.len(),
        {
            let (name, probe) = rest.remove(0);
            assert(all.take(i + 1).drop_last() =~= all.take(i as int));
            assert(all[i as int] == all.skip(i as int)[0]);
            let action = store.load_entry(name.as_str(), probe);
            actions.push(action);
            assert(rest@ =~= all.skip(i + 1));
            i = i + 1;
        }
        assert(all.take(i as int) =~= all);
        (store, actions)
    }
}

/// A copy of a list of strings.
fn clone_strings(v: &Vec<String>) -> (r: Vec<String>)
    ensures
        r@.len() == v@.len(),
        forall|j: int| 0 <= j < v@.len() ==> #[trigger] r@[j]@ == v@[j]@,
{
    let mut r: Vec<String> = Vec::new();
    let mut i: usize = 0;
    while i < v.len()
        invariant
            i <= v@.len(),
            r@.len() == i,
            forall|j: int| 0 <= j < i ==> #[trigger] r@[j]@ == v@[j]@,
        decreases v@.len() - i,
    {
        r.push(v[i].clone());
        i = i + 1;
    }
    r
}

/// In a well-formed registry every reverse-index entry names a stored
/// volume, and every volume lives in `base/hash`.
pub proof fn lemma_wf_links_and_paths(s: Store)
    requires
        s.wf(),
    ensures
        forall|k: LinkKey| #[trigger]
            s.links_view().contains_key(k) ==> s.volumes_view().contains_key(s.links_view()[k]),
        forall|h: Seq<char>| #[trigger]
            s.volumes_view().contains_key(h) ==> s.volumes_view()[h].path == join_path(
                s.base_view(),
                h,
            ),
{
}

/// After `create_volume(hash, name, repo)`, every consumer id of `repo`
/// resolves under `name` to the content address `hash`, so that the lookup
/// by name and the lookup by content address give the same volume.
pub proof fn lemma_create_then_lookup(
    before: Store,
    after: Store,
    hash: Seq<char>,
    name: Seq<char>,
    repo: RepoView,
    id: Seq<char>,
)
    requires
        before.wf(),
        after.volumes_view() == before.volumes_view().insert(
            hash,
            VolumeView { path: join_path(before.base_view(), hash), record: Some(repo) },
        ),
        after.links_view() == with_ids(before.links_view(), name, repo.consumers, hash),
        repo.consumers.contains(id),
    ensures
        after.links_view().contains_key((name, id)),
        after.links_view()[(name, id)] == hash,
        after.volumes_view().contains_key(hash),
        after.volumes_view()[after.links_view()[(name, id)]] == after.volumes_view()[hash],
        after.volumes_view()[hash].record == Some(repo),
{
}

/// After `remember_ids(name, hash, ids)`, each id of `ids` resolves under
/// `name` to `hash`, and the lookup by name gives the volume stored there.
pub proof fn lemma_remember_then_lookup(
    before: Store,
    after: Store,
    name: Seq<char>,
    hash: Seq<char>,
    ids: Set<Seq<char>>,
    id: Seq<char>,
)
    requires
        before.volumes_view().contains_key(hash),
        after.volumes_view() == before.volumes_view(),
        after.links_view() == with_ids(before.links_view(), name, ids, hash),
        ids.contains(id),
    ensures
        after.links_view().contains_key((name, id)),
        after.links_view()[(name, id)] == hash,
        after.volumes_view()[after.links_view()[(name, id)]] == before.volumes_view()[hash],
{
}

/// After `delete_volume_by_hash(hash)`, no volume is stored under `hash`,
/// no reverse-index entry points at it, every other entry is kept, and the
/// volume handed back for deletion on disk is the one in `base/hash`.
pub proof fn lemma_delete_cascade(before: Store, after: Store, hash: Seq<char>)
    requires
        before.wf(),
        after.volumes_view() == before.volumes_view().remove(hash),
        after.links_view() == without_value(before.links_view(), hash),
    ensures
        !after.volumes_view().contains_key(hash),
        forall|k: LinkKey| #[trigger] after.links_view().contains_key(k) ==> after.links_view()[k] != hash,
        forall|k: LinkKey|
            #[trigger] before.links_view().contains_key(k) && before.links_view()[k] != hash
                ==> after.links_view().contains_key(k) && after.links_view()[k] == before.links_view()[k],
        before.volumes_view().contains_key(hash) ==> before.volumes_view()[hash].path == join_path(
            before.base_view(),
            hash,
        ),
{
}

/// A record that was saved locked, and is read back by the startup scan,
/// is locked in the reloaded registry.
pub proof fn lemma_lock_survives_reload(
    state: (Map<Seq<char>, VolumeView>, Map<LinkKey, Seq<char>>),
    base: Seq<char>,
    name: Seq<char>,
    saved: Repo,
)
    requires
        saved@.locked,
    ensures
        entry_effect(state, base, name, EntryProbe::Marked(RecordProbe::Parsed(saved))).0.contains_key(
            name,
        ),
        entry_effect(state, base, name, EntryProbe::Marked(RecordProbe::Parsed(saved))).0[name].record
            == Some(saved@),
        entry_effect(
            state,
            base,
            name,
            EntryProbe::Marked(RecordProbe::Parsed(saved)),
        ).0[name].record->Some_0.locked,
{
}

/// The names of the entries that the scan keeps.
pub open spec fn kept_names(entries: Seq<(String, EntryProbe)>) -> Set<Seq<char>> {
    Set::new(
        |n: Seq<char>|
            exists|j: int|
                0 <= j < entries.len() && #[trigger] entries[j].0@ == n && action_of(entries[j].1)
                    == EntryAction::Keep,
    )
}

/// No two entries share a name, as in a directory listing.
pub open spec fn names_distinct(entries: Seq<(String, EntryProbe)>) -> bool {
    forall|i: int, j: int|
        0 <= i < entries.len() && 0 <= j < entries.len() && #[trigger] entries[i].0@
            == #[trigger] entries[j].0@ ==> i == j
}

/// After the startup scan of a directory listing, the registry holds
/// exactly the entries that were complete and readable, each in its own
/// directory with the record read from it.
pub proof fn lemma_load_mirrors_disk(base: Seq<char>, entries: Seq<(String, EntryProbe)>)
    requires
        names_distinct(entries),
    ensures
        replay(base, entries).0.dom() == kept_names(entries),
        forall|j: int|
            0 <= j < entries.len() && action_of(#[trigger] entries[j].1) == EntryAction::Keep
                ==> replay(base, entries).0[entries[j].0@] == (VolumeView {
                path: join_path(base, entries[j].0@),
                record: Some(parsed_record(entries[j].1->Marked_0)->Some_0@),
            }),
    decreases entries.len(),
{
    if entries.len() == 0 {
        assert(kept_names(entries) =~= Set::<Seq<char>>::empty());
        assert(replay(base, entries).0.dom() =~= Set::<Seq<char>>::empty());
    } else {
        let d = entries.drop_last();
        let e = entries.last();
        let last: int = entries.len() - 1;
        assert(names_distinct(d)) by {
            assert forall|i: int, j: int|
                0 <= i < d.len() && 0 <= j < d.len() && #[trigger] d[i].0@ == #[trigger] d[j].0@ implies i
                == j by {
                assert(entries[i] == d[i] && entries[j] == d[j]);
            }
        }
        lemma_load_mirrors_disk(base, d);
        assert(!kept_names(d).contains(e.0@)) by {
            if kept_names(d).contains(e.0@) {
                let j = choose|j: int|
                    0 <= j < d.len() && #[trigger] d[j].0@ == e.0@ && action_of(d[j].1)
                        == EntryAction::Keep;
                assert(entries[j].0@ == entries[last].0@);
            }
        }
        assert forall|n: Seq<char>| kept_names(entries).contains(n) <==> (kept_names(d).contains(n) || (
        n == e.0@ && action_of(e.1) == EntryAction::Keep)) by {
            if kept_names(entries).contains(n) {
                let j = choose|j: int|
                    0 <= j < entries.len() && #[trigger] entries[j].0@ == n && action_of(entries[j].1)
                        == EntryAction::Keep;
                if j < last {
                    assert(d[j] == entries[j]);
                }
            }
            if kept_names(d).contains(n) {
                let j = choose|j: int|
                    0 <= j < d.len() && #[trigger] d[j].0@ == n && action_of(d[j].1)
                        == EntryAction::Keep;
                assert(entries[j] == d[j]);
            }
            if n == e.0@ && action_of(e.1) == EntryAction::Keep {
                assert(entries[last].0@ == n);
            }
        }
        assert(replay(base, entries).0.dom() =~= kept_names(entries));
        assert forall|j: int|
            0 <= j < entries.len() && action_of(#[trigger] entries[j].1) == EntryAction::Keep
                implies replay(base, entries).0[entries[j].0@] == (VolumeView {
                path: join_path(base, entries[j].0@),
                record: Some(parsed_record(entries[j].1->Marked_0)->Some_0@),
            }) by {
            if j < last {
                assert(d[j] == entries[j]);
                assert(kept_names(d).contains(d[j].0@));
                if entries[j].0@ == e.0@ {
                    assert(entries[j].0@ == entries[last].0@);
                }
            }
        }
    }
}
} // verus!
