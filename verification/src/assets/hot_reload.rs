//! The bookkeeping of hot reloading: which files are watched for which
//! asset, which files each asset depends on, and which change events reach
//! the engine. Paths are compared as `Path`s are, by their components.
use crate::assets::handle::AssetId;
use crate::assoc::{assoc, keys_distinct, lemma_assoc_lookup, lemma_assoc_push, lemma_assoc_replace};
use crate::outside::{paths_equal, same_path};
use vstd::prelude::*;

verus! {

/// What happened to a watched file.
#[derive(Debug, Clone, Copy, PartialEq, Eq, Structural)]
pub enum HotReloadEventKind {
    Modified,
    Created,
    Deleted,
}

/// A change to the file of a watched asset.
#[derive(Debug, Clone)]
pub struct HotReloadEvent {
    pub path: String,
    pub asset_id: AssetId,
    pub event_kind: HotReloadEventKind,
}

/// The tables as plain values: the watched (path, asset) entries in the
/// order they were first watched, and the dependency paths of each asset in
/// the order they were first added.
pub struct WatchView {
    pub watched: Seq<(Seq<char>, u64)>,
    pub dependencies: Map<u64, Seq<Seq<char>>>,
}

/// The (path, asset) pairs, as plain values.
pub open spec fn watch_pairs(v: Seq<(String, AssetId)>) -> Seq<(Seq<char>, u64)> {
    v.map_values(|p: (String, AssetId)| (p.0@, p.1.0))
}

/// The texts of some strings.
pub open spec fn texts(v: Seq<String>) -> Seq<Seq<char>> {
    v.map_values(|s: String| s@)
}

/// The (asset, dependency paths) pairs, as plain values.
pub open spec fn dependency_pairs(v: Seq<(u64, Vec<String>)>) -> Seq<(u64, Seq<Seq<char>>)> {
    v.map_values(|p: (u64, Vec<String>)| (p.0, texts(p.1@)))
}

/// The dependency paths recorded for asset `id`: none where it has no entry.
pub open spec fn dependencies_of(d: Map<u64, Seq<Seq<char>>>, id: u64) -> Seq<Seq<char>> {
    if d.contains_key(id) {
        d[id]
    } else {
        Seq::empty()
    }
}

/// Whether entry `i` of `w` is the first whose path is the same path as `p`.
pub open spec fn first_at(w: Seq<(Seq<char>, u64)>, p: Seq<char>, i: int) -> bool {
    &&& 0 <= i < w.len()
    &&& same_path(w[i].0, p)
    &&& forall|j: int| 0 <= j < i ==> !same_path(#[trigger] w[j].0, p)
}

/// The entry that path `p` finds in `w`: the first whose path is the same
/// path as `p`, if any.
pub open spec fn entry_for(w: Seq<(Seq<char>, u64)>, p: Seq<char>) -> Option<int> {
    if exists|i: int| first_at(w, p, i) {
        Some(choose|i: int| first_at(w, p, i))
    } else {
        None
    }
}

/// Whether some path of `l` is the same path as `p`.
pub open spec fn lists_path(l: Seq<Seq<char>>, p: Seq<char>) -> bool {
    exists|i: int| 0 <= i < l.len() && same_path(#[trigger] l[i], p)
}

/// The (path, asset) pairs of the events that a change to `paths` raises:
/// one for each path that finds a watched entry, with that entry's asset, in
/// the order of `paths`.
pub open spec fn routed(w: Seq<(Seq<char>, u64)>, paths: Seq<Seq<char>>) -> Seq<(Seq<char>, u64)>
    decreases paths.len(),
{
    if paths.len() == 0 {
        Seq::empty()
    } else {
        let rest = routed(w, paths.drop_last());
        let p = paths.last();
        match entry_for(w, p) {
            Some(i) => rest.push((p, w[i].1)),
            None => rest,
        }
    }
}

/// The (path, asset) pairs of some events, as plain values.
pub open spec fn event_pairs(v: Seq<HotReloadEvent>) -> Seq<(Seq<char>, u64)> {
    v.map_values(|e: HotReloadEvent| (e.path@, e.asset_id.0))
}

/// The first entry of the same path is the one `entry_for` gives, and with
/// none, it gives none.
proof fn lemma_entry_for(w: Seq<(Seq<char>, u64)>, p: Seq<char>, i: int)
    ensures
        first_at(w, p, i) ==> entry_for(w, p) == Some(i),
        (forall|j: int| 0 <= j < w.len() ==> !same_path(#[trigger] w[j].0, p)) ==> entry_for(w, p) is None,
{
    if first_at(w, p, i) {
        let k = choose|k: int| first_at(w, p, k);
        if k < i {
            assert(!same_path(w[k].0, p));
        }
        if i < k {
            assert(!same_path(w[i].0, p));
        }
    }
    if forall|j: int| 0 <= j < w.len() ==> !same_path(#[trigger] w[j].0, p) {
        if exists|k: int| first_at(w, p, k) {
            let k = choose|k: int| first_at(w, p, k);
            assert(same_path(w[k].0, p));
        }
    }
}

/// The watched files and the dependencies of assets, as two lists.
struct WatchLists {
    watched: Vec<(String, AssetId)>,
    dependencies: Vec<(u64, Vec<String>)>,
}

impl View for WatchLists {
    type V = WatchView;

    closed spec fn view(&self) -> WatchView {
        WatchView { watched: watch_pairs(self.watched@), dependencies: assoc(dependency_pairs(self.dependencies@)) }
    }
}

/// The entry that `path` finds among the pairs, if any.
fn path_index(v: &Vec<(String, AssetId)>, path: &str) -> (r: Option<usize>)
    ensures
        match r {
            Some(i) => entry_for(watch_pairs(v@), path@) == Some(i as int) && i < v@.len(),
            None => entry_for(watch_pairs(v@), path@) is None,
        },
{
    let ghost w = watch_pairs(v@);
    let mut i: usize = 0;
    while i < v.len()
        invariant
            w == watch_pairs(v@),
            i <= v@.len(),
            forall|j: int| 0 <= j < i ==> !same_path(#[trigger] w[j].0, path@),
        decreases v@.len() - i,
    {
        if paths_equal(v[i].0.as_str(), path) {
            proof {
                assert(w[i as int].0 == v@[i as int].0@);
                assert(first_at(w, path@, i as int));
                lemma_entry_for(w, path@, i as int);
            }
            return Some(i);
        }
        proof {
            assert(w[i as int].0 == v@[i as int].0@);
        }
        i = i + 1;
    }
    proof {
        lemma_entry_for(w, path@, 0);
    }
    None
}

/// Whether some string of `v` is the same path as `s`.
fn has_path(v: &Vec<String>, s: &str) -> (r: bool)
    ensures
        r == lists_path(texts(v@), s@),
{
    let mut i: usize = 0;
    while i < v.len()
        invariant
            i <= v@.len(),
            forall|j: int| 0 <= j < i ==> !same_path(#[trigger] texts(v@)[j], s@),
        decreases v@.len() - i,
    {
        if paths_equal(v[i].as_str(), s) {
            assert(texts(v@)[i as int] == v@[i as int]@);
            return true;
        }
        assert(texts(v@)[i as int] == v@[i as int]@);
        i = i + 1;
    }
    false
}

impl WatchLists {
    /// Each asset has one entry of dependencies.
    spec fn wf(&self) -> bool {
        keys_distinct(dependency_pairs(self.dependencies@))
    }

    /// Nothing watched, no dependencies.
    fn new() -> (r: Self)
        ensures
            r.wf(),
            r@.watched == Seq::<(Seq<char>, u64)>::empty(),
            r@.dependencies == Map::<u64, Seq<Seq<char>>>::empty(),
    {
        let r = WatchLists { watched: Vec::new(), dependencies: Vec::new() };
        assert(watch_pairs(r.watched@) =~= Seq::<(Seq<char>, u64)>::empty());
        assert(dependency_pairs(r.dependencies@) =~= Seq::<(u64, Seq<Seq<char>>)>::empty());
        r
    }

    /// Facts about the dependency pairs that the operations use.
    proof fn lemma_dependencies(&self)
        requires
            self.wf(),
        ensures
            forall|i: int|
                0 <= i < self.dependencies@.len() ==> self@.dependencies.contains_key(
                    #[trigger] self.dependencies@[i].0,
                ) && self@.dependencies[self.dependencies@[i].0] == texts(self.dependencies@[i].1@),
            forall|id: u64|
                #[trigger] self@.dependencies.contains_key(id) ==> exists|i: int|
                    0 <= i < self.dependencies@.len() && self.dependencies@[i].0 == id,
    {
        let dp = dependency_pairs(self.dependencies@);
        lemma_assoc_lookup(dp);
        assert forall|i: int| 0 <= i < self.dependencies@.len() implies self@.dependencies.contains_key(
            #[trigger] self.dependencies@[i].0,
        ) && self@.dependencies[self.dependencies@[i].0] == texts(self.dependencies@[i].1@) by {
            assert(dp[i] == (self.dependencies@[i].0, texts(self.dependencies@[i].1@)));
        }
        assert forall|id: u64| #[trigger] self@.dependencies.contains_key(id) implies exists|i: int|
            0 <= i < self.dependencies@.len() && self.dependencies@[i].0 == id by {
            let i = choose|i: int| 0 <= i < dp.len() && dp[i].0 == id;
            assert(dp[i].0 == self.dependencies@[i].0);
        }
    }

    /// Watches `path` for asset `id`.
    fn watch(&mut self, path: String, id: AssetId)
        requires
            old(self).wf(),
        ensures
            final(self).wf(),
            final(self)@.watched == match entry_for(old(self)@.watched, path@) {
                Some(i) => old(self)@.watched.update(i, (old(self)@.watched[i].0, id.0)),
                None => old(self)@.watched.push((path@, id.0)),
            },
            final(self)@.dependencies == old(self)@.dependencies,
    {
        let ghost w = self@.watched;
        match path_index(&self.watched, path.as_str()) {
            Some(i) => {
                let key = self.watched[i].0.clone();
                self.watched.set(i, (key, id));
                proof {
                    assert(watch_pairs(self.watched@) =~= w.update(i as int, (w[i as int].0, id.0)));
                }
            },
            None => {
                self.watched.push((path, id));
                proof {
                    assert(watch_pairs(self.watched@) =~= w.push((path@, id.0)));
                }
            },
        }
    }

    /// Stops watching the entry `path` finds.
    fn unwatch(&mut self, path: &str)
        requires
            old(self).wf(),
        ensures
            final(self).wf(),
            final(self)@.watched == match entry_for(old(self)@.watched, path@) {
                Some(i) => old(self)@.watched.remove(i),
                None => old(self)@.watched,
            },
            final(self)@.dependencies == old(self)@.dependencies,
    {
        let ghost w = self@.watched;
        match path_index(&self.watched, path) {
            Some(i) => {
                self.watched.remove(i);
                proof {
                    assert(watch_pairs(self.watched@) =~= w.remove(i as int));
                }
            },
            None => {},
        }
    }

    /// Whether `path` finds a watched entry.
    fn is_watched(&self, path: &str) -> (r: bool)
        ensures
            r == entry_for(self@.watched, path@) is Some,
    {
        path_index(&self.watched, path).is_some()
    }

    /// The asset of the entry `path` finds, if any.
    fn watched_asset(&self, path: &str) -> (r: Option<AssetId>)
        ensures
            r == match entry_for(self@.watched, path@) {
                Some(i) => Some(AssetId(self@.watched[i].1)),
                None => None::<AssetId>,
            },
    {
        match path_index(&self.watched, path) {
            Some(i) => Some(self.watched[i].1),
            None => None,
        }
    }

    /// The events that a change of `kind` to `paths` raises.
    fn route_event(&self, kind: HotReloadEventKind, paths: Vec<String>) -> (r: Vec<HotReloadEvent>)
        ensures
            event_pairs(r@) == routed(self@.watched, texts(paths@)),
            forall|i: int| 0 <= i < r@.len() ==> (#[trigger] r@[i]).event_kind == kind,
    {
        let ghost ps = texts(paths@);
        let mut out: Vec<HotReloadEvent> = Vec::new();
        let mut k: usize = 0;
        while k < paths.len()
            invariant
                ps == texts(paths@),
                k <= paths@.len(),
                event_pairs(out@) == routed(self@.watched, ps.take(k as int)),
                forall|j: int| 0 <= j < out@.len() ==> (#[trigger] out@[j]).event_kind == kind,
            decreases paths@.len() - k,
        {
            proof {
                assert(ps.take(k + 1).drop_last() =~= ps.take(k as int));
                assert(ps.take(k + 1).last() == paths@[k as int]@);
            }
            match self.watched_asset(paths[k].as_str()) {
                Some(id) => {
                    let ghost before = out@;
                    out.push(HotReloadEvent { path: paths[k].clone(), asset_id: id, event_kind: kind });
                    proof {
                        assert(event_pairs(out@) =~= event_pairs(before).push((paths@[k as int]@, id.0)));
                    }
                },
                None => {},
            }
            k = k + 1;
        }
        proof {
            assert(ps.take(k as int) =~= ps);
        }
        out
    }

    /// Where the entry of asset `id` stands, if anywhere.
    fn dependency_index(&self, id: u64) -> (r: Option<usize>)
        ensures
            match r {
                Some(i) => i < self.dependencies@.len() && self.dependencies@[i as int].0 == id,
                None => forall|i: int| 0 <= i < self.dependencies@.len() ==> self.dependencies@[i].0 != id,
            },
    {
        let mut i: usize = 0;
        while i < self.dependencies.len()
            invariant
                i <= self.dependencies@.len(),
                forall|j: int| 0 <= j < i ==> self.dependencies@[j].0 != id,
            decreases self.dependencies@.len() - i,
        {
            if self.dependencies[i].0 == id {
                return Some(i);
            }
            i = i + 1;
        }
        None
    }

    /// Records that asset `id` depends on the file at `path`.
    fn add_dependency(&mut self, id: AssetId, path: String)
        requires
            old(self).wf(),
        ensures
            final(self).wf(),
            final(self)@.dependencies == old(self)@.dependencies.insert(
                id.0,
                if lists_path(dependencies_of(old(self)@.dependencies, id.0), path@) {
                    dependencies_of(old(self)@.dependencies, id.0)
                } else {
                    dependencies_of(old(self)@.dependencies, id.0).push(path@)
                },
            ),
            final(self)@.watched == old(self)@.watched,
    {
        proof {
            self.lemma_dependencies();
        }
        let ghost dp = dependency_pairs(self.dependencies@);
        let ghost pv = path@;
        match self.dependency_index(id.0) {
            Some(i) => {
                let ghost old_list = self.dependencies@[i as int].1@;
                if has_path(&self.dependencies[i].1, path.as_str()) {
                    proof {
                        assert(assoc(dp).insert(id.0, texts(old_list)) =~= assoc(dp));
                    }
                } else {
                    let mut entry = (0u64, Vec::new());
                    std::mem::swap(&mut entry, &mut self.dependencies[i]);
                    entry.1.push(path);
                    proof {
                        assert(texts(entry.1@) =~= texts(old_list).push(pv));
                        lemma_assoc_replace(dp, i as int, texts(entry.1@));
                    }
                    self.dependencies.set(i, entry);
                    proof {
                        assert(dependency_pairs(self.dependencies@) =~= dp.update(
                            i as int,
                            (id.0, texts(old_list).push(pv)),
                        ));
                    }
                }
            },
            None => {
                let mut list: Vec<String> = Vec::new();
                list.push(path);
                proof {
                    assert(texts(list@) =~= seq![pv]);
                    assert(Seq::<Seq<char>>::empty().push(pv) =~= seq![pv]);
                    if assoc(dp).contains_key(id.0) {
                        let j = choose|j: int| 0 <= j < self.dependencies@.len() && self.dependencies@[j].0 == id.0;
                    }
                    lemma_assoc_push(dp, id.0, seq![pv]);
                }
                self.dependencies.push((id.0, list));
                proof {
                    assert(dependency_pairs(self.dependencies@) =~= dp.push((id.0, seq![pv])));
                }
            },
        }
    }

    /// The files asset `id` depends on, in the order they were added.
    fn get_dependencies(&self, id: AssetId) -> (r: Vec<String>)
        requires
            self.wf(),
        ensures
            texts(r@) == dependencies_of(self@.dependencies, id.0),
    {
        proof {
            self.lemma_dependencies();
        }
        match self.dependency_index(id.0) {
            Some(i) => self.dependencies[i].1.clone(),
            None => {
                proof {
                    if self@.dependencies.contains_key(id.0) {
                        let j = choose|j: int| 0 <= j < self.dependencies@.len() && self.dependencies@[j].0 == id.0;
                    }
                    assert(texts(Seq::<String>::empty()) =~= Seq::<Seq<char>>::empty());
                }
                Vec::new()
            },
        }
    }
}

/// The watched files and the dependencies of hot-reloadable assets.
pub struct WatchTable {
    lists: WatchLists,
}

impl View for WatchTable {
    type V = WatchView;

    closed spec fn view(&self) -> WatchView {
        self.lists@
    }
}

impl WatchTable {
    /// Each asset has one entry of dependencies.
    #[verifier::type_invariant]
    spec fn lists_wf(self) -> bool {
        self.lists.wf()
    }

    /// Nothing watched, no dependencies.
    pub fn new() -> (r: Self)
        ensures
            r@.watched == Seq::<(Seq<char>, u64)>::empty(),
            r@.dependencies == Map::<u64, Seq<Seq<char>>>::empty(),
    {
        WatchTable { lists: WatchLists::new() }
    }

    /// Watches `path` for asset `id`: where `path` finds an entry (the first
    /// watched path that is the same path), that entry now names `id` and
    /// keeps its path; else a new entry is added.
    pub fn watch(&mut self, path: String, id: AssetId)
        ensures
            final(self)@.watched == match entry_for(old(self)@.watched, path@) {
                Some(i) => old(self)@.watched.update(i, (old(self)@.watched[i].0, id.0)),
                None => old(self)@.watched.push((path@, id.0)),
            },
            final(self)@.dependencies == old(self)@.dependencies,
    {
        proof {
            use_type_invariant(&*self);
        }
        let mut t = WatchLists::new();
        std::mem::swap(&mut t, &mut self.lists);
        t.watch(path, id);
        self.lists = t;
    }

    /// Stops watching the entry that `path` finds, if any.
    pub fn unwatch(&mut self, path: &str)
        ensures
            final(self)@.watched == match entry_for(old(self)@.watched, path@) {
                Some(i) => old(self)@.watched.remove(i),
                None => old(self)@.watched,
            },
            final(self)@.dependencies == old(self)@.dependencies,
    {
        proof {
            use_type_invariant(&*self);
        }
        let mut t = WatchLists::new();
        std::mem::swap(&mut t, &mut self.lists);
        t.unwatch(path);
        self.lists = t;
    }

    /// Whether `path` is watched: whether it finds an entry.
    pub fn is_watched(&self, path: &str) -> (r: bool)
        ensures
            r == entry_for(self@.watched, path@) is Some,
    {
        self.lists.is_watched(path)
    }

    /// The asset that `path` is watched for, if it is watched.
    pub fn watched_asset(&self, path: &str) -> (r: Option<AssetId>)
        ensures
            r == match entry_for(self@.watched, path@) {
                Some(i) => Some(AssetId(self@.watched[i].1)),
                None => None::<AssetId>,
            },
    {
        self.lists.watched_asset(path)
    }

    /// The events that a change of `kind` to `paths` raises: one for each
    /// watched path, with the asset it is watched for, in order.
    pub fn route_event(&self, kind: HotReloadEventKind, paths: Vec<String>) -> (r: Vec<HotReloadEvent>)
        ensures
            event_pairs(r@) == routed(self@.watched, texts(paths@)),
            forall|i: int| 0 <= i < r@.len() ==> (#[trigger] r@[i]).event_kind == kind,
    {
        self.lists.route_event(kind, paths)
    }

    /// Records that asset `id` depends on the file at `path`, unless a path
    /// it already depends on is the same path.
    pub fn add_dependency(&mut self, id: AssetId, path: String)
        ensures
            final(self)@.dependencies == old(self)@.dependencies.insert(
                id.0,
                if lists_path(dependencies_of(old(self)@.dependencies, id.0), path@) {
                    dependencies_of(old(self)@.dependencies, id.0)
                } else {
                    dependencies_of(old(self)@.dependencies, id.0).push(path@)
                },
            ),
            final(self)@.watched == old(self)@.watched,
    {
        proof {
            use_type_invariant(&*self);
        }
        let mut t = WatchLists::new();
        std::mem::swap(&mut t, &mut self.lists);
        t.add_dependency(id, path);
        self.lists = t;
    }

    /// The files asset `id` depends on, in the order they were added.
    pub fn get_dependencies(&self, id: AssetId) -> (r: Vec<String>)
        ensures
            texts(r@) == dependencies_of(self@.dependencies, id.0),
    {
        proof {
            use_type_invariant(self);
        }
        self.lists.get_dependencies(id)
    }
}

} // verus!
