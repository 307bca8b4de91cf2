//! Where each asset of one type stands in loading: still loading, loaded,
//! or failed with a message.
use crate::assets::handle::{AssetHandle, AssetId};
use crate::outside::share_arc;
use std::collections::HashMap;
use std::sync::Arc;
use vstd::prelude::*;

verus! {

broadcast use vstd::std_specs::hash::group_hash_axioms;

/// How loading an asset stands.
#[derive(Debug)]
pub enum LoadState<T> {
    Loading,
    Loaded(Arc<T>),
    Failed(String),
}

impl<T> Clone for LoadState<T> {
    fn clone(&self) -> (r: Self)
        ensures
            r == *self,
    {
        match self {
            LoadState::Loading => LoadState::Loading,
            LoadState::Loaded(a) => LoadState::Loaded(share_arc(a)),
            LoadState::Failed(s) => LoadState::Failed(s.clone()),
        }
    }
}

/// Whether `m` records asset `id` as loaded.
pub open spec fn loaded_in<T>(m: Map<u64, LoadState<T>>, id: u64) -> bool {
    m.contains_key(id) && m[id] is Loaded
}

/// Whether `m` records asset `id` as failed.
pub open spec fn failed_in<T>(m: Map<u64, LoadState<T>>, id: u64) -> bool {
    m.contains_key(id) && m[id] is Failed
}

/// The ids of the handles, in order.
pub open spec fn handle_ids<T>(hs: Seq<AssetHandle<T>>) -> Seq<u64> {
    hs.map_values(|h: AssetHandle<T>| h.id.0)
}

/// How many of `ids` `m` records as loaded, each occurrence counted.
pub open spec fn count_loaded<T>(m: Map<u64, LoadState<T>>, ids: Seq<u64>) -> nat
    decreases ids.len(),
{
    if ids.len() == 0 {
        0
    } else {
        count_loaded(m, ids.drop_last()) + if loaded_in(m, ids.last()) {
            1nat
        } else {
            0nat
        }
    }
}

/// Counting the loaded assets among `ids` counts exactly the ids whose
/// recorded state is `Loaded`: an id still loading, failed, or with no state
/// adds nothing, and an id listed twice counts twice. The count is at most
/// the number of ids.
pub proof fn lemma_count_loaded_counts_loaded<T>(m: Map<u64, LoadState<T>>, ids: Seq<u64>)
    ensures
        count_loaded(m, ids) == ids.filter(|id: u64| m.contains_key(id) && m[id] is Loaded).len(),
        count_loaded(m, ids) <= ids.len(),
    decreases ids.len(),
{
    reveal_with_fuel(Seq::filter, 1);
    if ids.len() > 0 {
        lemma_count_loaded_counts_loaded(m, ids.drop_last());
    }
}

/// The loaded assets of every one of `ids` are counted once each exactly
/// when all are loaded, and none is counted where none is loaded.
pub proof fn lemma_count_loaded_extremes<T>(m: Map<u64, LoadState<T>>, ids: Seq<u64>)
    ensures
        count_loaded(m, ids) == ids.len() <==> forall|i: int| 0 <= i < ids.len() ==> #[trigger] loaded_in(m, ids[i]),
        (forall|i: int| 0 <= i < ids.len() ==> !loaded_in(m, #[trigger] ids[i])) ==> count_loaded(m, ids) == 0,
    decreases ids.len(),
{
    if ids.len() > 0 {
        let init = ids.drop_last();
        lemma_count_loaded_extremes(m, init);
        lemma_count_loaded_counts_loaded(m, init);
        assert forall|i: int| 0 <= i < init.len() implies init[i] == ids[i] by {}
        if forall|i: int| 0 <= i < ids.len() ==> #[trigger] loaded_in(m, ids[i]) {
            assert forall|i: int| 0 <= i < init.len() implies #[trigger] loaded_in(m, init[i]) by {
                assert(loaded_in(m, ids[i]));
            }
            assert(loaded_in(m, ids[ids.len() - 1]));
        }
        if count_loaded(m, ids) == ids.len() {
            assert forall|i: int| 0 <= i < ids.len() implies #[trigger] loaded_in(m, ids[i]) by {
                if i < ids.len() - 1 {
                    assert(init[i] == ids[i]);
                }
            }
        }
        if forall|i: int| 0 <= i < ids.len() ==> !loaded_in(m, #[trigger] ids[i]) {
            assert forall|i: int| 0 <= i < init.len() implies !loaded_in(m, #[trigger] init[i]) by {
                assert(!loaded_in(m, ids[i]));
            }
            assert(!loaded_in(m, ids[ids.len() - 1]));
        }
    }
}

/// The loading state of each asset of type `T`, by asset id.
pub struct LoadStates<T> {
    states: HashMap<u64, LoadState<T>>,
}

impl<T> View for LoadStates<T> {
    type V = Map<u64, LoadState<T>>;

    closed spec fn view(&self) -> Map<u64, LoadState<T>> {
        self.states@
    }
}

impl<T> LoadStates<T> {
    /// No states recorded.
    pub fn new() -> (r: Self)
        ensures
            r@ == Map::<u64, LoadState<T>>::empty(),
    {
        LoadStates { states: HashMap::new() }
    }

    /// Records `state` for asset `id`, replacing what was recorded.
    pub fn set_state(&mut self, id: AssetId, state: LoadState<T>)
        ensures
            final(self)@ == old(self)@.insert(id.0, state),
    {
        self.states.insert(id.0, state);
    }

    /// The state recorded for asset `id`.
    pub fn get_state(&self, id: AssetId) -> (r: Option<LoadState<T>>)
        ensures
            r == (if self@.contains_key(id.0) {
                Some(self@[id.0])
            } else {
                None
            }),
    {
        match self.states.get(&id.0) {
            Some(s) => Some(s.clone()),
            None => None,
        }
    }

    /// Whether asset `id` is loaded.
    pub fn is_loaded(&self, id: AssetId) -> (r: bool)
        ensures
            r == loaded_in(self@, id.0),
    {
        match self.states.get(&id.0) {
            Some(LoadState::Loaded(_)) => true,
            _ => false,
        }
    }

    /// Whether asset `id` is still loading.
    pub fn is_loading(&self, id: AssetId) -> (r: bool)
        ensures
            r == (self@.contains_key(id.0) && self@[id.0] is Loading),
    {
        match self.states.get(&id.0) {
            Some(LoadState::Loading) => true,
            _ => false,
        }
    }

    /// Forgets the state of asset `id`.
    pub fn clear_state(&mut self, id: AssetId)
        ensures
            final(self)@ == old(self)@.remove(id.0),
    {
        self.states.remove(&id.0);
    }

    /// Whether every handle's asset is loaded (true of no handles).
    pub fn all_loaded(&self, handles: &[AssetHandle<T>]) -> (r: bool)
        ensures
            r == forall|i: int| 0 <= i < handles@.len() ==> loaded_in(self@, #[trigger] handles@[i].id.0),
    {
        let mut i: usize = 0;
        while i < handles.len()
            invariant
                i <= handles@.len(),
                forall|j: int| 0 <= j < i ==> loaded_in(self@, #[trigger] handles@[j].id.0),
            decreases handles@.len() - i,
        {
            if !self.is_loaded(handles[i].id) {
                assert(!loaded_in(self@, handles@[i as int].id.0));
                return false;
            }
            i = i + 1;
        }
        true
    }

    /// Whether some handle's asset failed.
    pub fn any_failed(&self, handles: &[AssetHandle<T>]) -> (r: bool)
        ensures
            r == exists|i: int| 0 <= i < handles@.len() && failed_in(self@, #[trigger] handles@[i].id.0),
    {
        let mut i: usize = 0;
        while i < handles.len()
            invariant
                i <= handles@.len(),
                forall|j: int| 0 <= j < i ==> !failed_in(self@, #[trigger] handles@[j].id.0),
            decreases handles@.len() - i,
        {
            let failed = match self.states.get(&handles[i].id.0) {
                Some(LoadState::Failed(_)) => true,
                _ => false,
            };
            if failed {
                assert(failed_in(self@, handles@[i as int].id.0));
                return true;
            }
            i = i + 1;
        }
        false
    }

    /// How many of the handles' assets are loaded, and how many handles
    /// there are.
    pub fn loading_progress(&self, handles: &[AssetHandle<T>]) -> (r: (usize, usize))
        ensures
            r.0 == count_loaded(self@, handle_ids(handles@)),
            r.0 == handle_ids(handles@).filter(|id: u64| self@.contains_key(id) && self@[id] is Loaded).len(),
            r.1 == handles@.len(),
    {
        proof {
            lemma_count_loaded_counts_loaded(self@, handle_ids(handles@));
        }
        let ghost ids = handle_ids(handles@);
        let mut loaded: usize = 0;
        let mut i: usize = 0;
        while i < handles.len()
            invariant
                i <= handles@.len(),
                ids == handle_ids(handles@),
                loaded == count_loaded(self@, ids.take(i as int)),
                loaded <= i,
            decreases handles@.len() - i,
        {
            proof {
                assert(ids.take(i + 1).drop_last() =~= ids.take(i as int));
                assert(ids.take(i + 1).last() == handles@[i as int].id.0);
            }
            if self.is_loaded(handles[i].id) {
                loaded = loaded + 1;
            }
            i = i + 1;
        }
        proof {
            assert(ids.take(i as int) =~= ids);
        }
        (loaded, handles.len())
    }

    /// The message of asset `id`'s failure, where it failed.
    pub fn get_error(&self, id: AssetId) -> (r: Option<String>)
        ensures
            match r {
                Some(e) => self@.contains_key(id.0) && self@[id.0] == LoadState::<T>::Failed(e),
                None => !failed_in(self@, id.0),
            },
    {
        match self.states.get(&id.0) {
            Some(LoadState::Failed(e)) => Some(e.clone()),
            _ => None,
        }
    }
}

impl<T> Default for LoadStates<T> {
    fn default() -> (r: Self)
        ensures
            r@ == Map::<u64, LoadState<T>>::empty(),
    {
        LoadStates::new()
    }
}

} // verus!
