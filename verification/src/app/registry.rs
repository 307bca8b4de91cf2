//! The engine's record of plugins: which were added, in what state, and the
//! decision taken when one more is added.
use crate::app::plugin::{PluginMetadata, PluginState};
use crate::outside::same_type_id;
use std::any::TypeId;
use vstd::prelude::*;

verus! {

/// Whether the engine runs as a client (with rendering) or a headless server.
#[derive(Debug, Clone, Copy, PartialEq, Eq, Structural)]
pub enum ResonanceMode {
    Client,
    Server,
}

/// What the engine records of a plugin, as plain values.
pub struct PluginRecord {
    pub name: Seq<char>,
    pub state: PluginState,
    pub dependencies: Seq<TypeId>,
}

/// What adding a plugin comes to.
#[derive(Debug, Clone, Copy, PartialEq, Eq, Structural)]
pub enum AddPluginOutcome {
    /// A plugin of this type was added before; nothing changes.
    AlreadyLoaded,
    /// The plugin does not run in this mode; nothing changes.
    IncompatibleMode,
    /// The dependency at this index is missing; the plugin is recorded as
    /// failed.
    MissingDependency(usize),
    /// The plugin is recorded as building, and is to be built now.
    Build,
}

/// A recorded plugin, as plain values.
pub open spec fn record_of(m: PluginMetadata) -> PluginRecord {
    PluginRecord { name: m.name@, state: m.state, dependencies: m.dependencies@ }
}

/// Records by type; a later record replaces an earlier one of the same type.
pub open spec fn records(v: Seq<PluginMetadata>) -> Map<TypeId, PluginRecord>
    decreases v.len(),
{
    if v.len() == 0 {
        Map::empty()
    } else {
        records(v.drop_last()).insert(v.last().type_id, record_of(v.last()))
    }
}

/// No two records share a type.
pub open spec fn distinct_types(v: Seq<PluginMetadata>) -> bool {
    forall|i: int, j: int| 0 <= i < j < v.len() ==> v[i].type_id != v[j].type_id
}

/// The index of the first of `deps` that has no record, if any.
pub open spec fn first_missing(reg: Map<TypeId, PluginRecord>, deps: Seq<TypeId>) -> Option<int>
    decreases deps.len(),
{
    if deps.len() == 0 {
        None
    } else {
        match first_missing(reg, deps.drop_last()) {
            Some(i) => Some(i),
            None => if reg.contains_key(deps.last()) {
                None
            } else {
                Some(deps.len() - 1)
            },
        }
    }
}

/// Whether a plugin with these flags runs in `mode`.
pub open spec fn runs_in(mode: ResonanceMode, is_client: bool, is_server: bool) -> bool {
    match mode {
        ResonanceMode::Client => is_client,
        ResonanceMode::Server => is_server,
    }
}

/// Adding plugin `t`: skipped if recorded already or not for this mode;
/// recorded as failed, with the first missing dependency, if a dependency has
/// no record; else recorded as building.
pub open spec fn add_plugin_spec(
    reg: Map<TypeId, PluginRecord>,
    t: TypeId,
    name: Seq<char>,
    mode: ResonanceMode,
    is_client: bool,
    is_server: bool,
    deps: Seq<TypeId>,
) -> (AddPluginOutcome, Map<TypeId, PluginRecord>) {
    if reg.contains_key(t) {
        (AddPluginOutcome::AlreadyLoaded, reg)
    } else if !runs_in(mode, is_client, is_server) {
        (AddPluginOutcome::IncompatibleMode, reg)
    } else {
        match first_missing(reg, deps) {
            Some(i) => (
                AddPluginOutcome::MissingDependency(i as usize),
                reg.insert(t, PluginRecord { name, state: PluginState::Failed, dependencies: deps }),
            ),
            None => (
                AddPluginOutcome::Build,
                reg.insert(t, PluginRecord { name, state: PluginState::Building, dependencies: deps }),
            ),
        }
    }
}

/// Whether plugin `t` is recorded as built.
pub open spec fn is_built(reg: Map<TypeId, PluginRecord>, t: TypeId) -> bool {
    reg.contains_key(t) && reg[t].state == PluginState::Built
}

/// With distinct types, `records` holds each record under its own type, and
/// nothing else.
pub proof fn lemma_records_lookup(v: Seq<PluginMetadata>)
    requires
        distinct_types(v),
    ensures
        forall|i: int|
            0 <= i < v.len() ==> records(v).contains_key(#[trigger] v[i].type_id) && records(v)[v[i].type_id]
                == record_of(v[i]),
        forall|t: TypeId|
            #[trigger] records(v).contains_key(t) ==> exists|i: int| 0 <= i < v.len() && v[i].type_id == t,
    decreases v.len(),
{
    if v.len() > 0 {
        let init = v.drop_last();
        lemma_records_lookup(init);
        assert forall|i: int| 0 <= i < v.len() implies records(v).contains_key(#[trigger] v[i].type_id)
            && records(v)[v[i].type_id] == record_of(v[i]) by {
            if i < v.len() - 1 {
                assert(init[i] == v[i]);
            }
        }
        assert forall|t: TypeId| #[trigger] records(v).contains_key(t) implies exists|i: int|
            0 <= i < v.len() && v[i].type_id == t by {
            if t != v.last().type_id {
                let i = choose|i: int| 0 <= i < init.len() && init[i].type_id == t;
                assert(v[i] == init[i]);
            } else {
                assert(v[v.len() - 1].type_id == t);
            }
        }
    }
}

/// Replacing a record by one of the same type replaces it in the map.
pub proof fn lemma_records_replace(v: Seq<PluginMetadata>, i: int, m: PluginMetadata)
    requires
        distinct_types(v),
        0 <= i < v.len(),
        v[i].type_id == m.type_id,
    ensures
        records(v.update(i, m)) == records(v).insert(m.type_id, record_of(m)),
        distinct_types(v.update(i, m)),
    decreases v.len(),
{
    let u = v.update(i, m);
    if i == v.len() - 1 {
        assert(u.drop_last() =~= v.drop_last());
        assert(records(u) =~= records(v).insert(m.type_id, record_of(m)));
    } else {
        let init = v.drop_last();
        assert(u.drop_last() =~= init.update(i, m));
        lemma_records_replace(init, i, m);
        assert(v.last().type_id != m.type_id) by {
            assert(v[v.len() - 1] == v.last());
        }
        assert(records(u) =~= records(v).insert(m.type_id, record_of(m)));
    }
}

/// The plugins the engine has been asked to add, one record per type.
pub struct PluginRegistry {
    plugins: Vec<PluginMetadata>,
}

impl View for PluginRegistry {
    type V = Map<TypeId, PluginRecord>;

    closed spec fn view(&self) -> Map<TypeId, PluginRecord> {
        records(self.plugins@)
    }
}

impl PluginRegistry {
    #[verifier::type_invariant]
    spec fn types_distinct(self) -> bool {
        distinct_types(self.plugins@)
    }

    /// A registry with no plugins.
    pub fn new() -> (r: Self)
        ensures
            r@ == Map::<TypeId, PluginRecord>::empty(),
    {
        PluginRegistry { plugins: Vec::new() }
    }

    /// Where the record of type `t` stands, if anywhere.
    fn find(&self, t: &TypeId) -> (r: Option<usize>)
        ensures
            match r {
                Some(i) => i < self.plugins@.len() && self.plugins@[i as int].type_id == *t,
                None => forall|i: int| 0 <= i < self.plugins@.len() ==> self.plugins@[i].type_id != *t,
            },
    {
        let mut j: usize = 0;
        while j < self.plugins.len()
            invariant
                j <= self.plugins@.len(),
                forall|i: int| 0 <= i < j ==> self.plugins@[i].type_id != *t,
            decreases self.plugins@.len() - j,
        {
            if same_type_id(&self.plugins[j].type_id, t) {
                return Some(j);
            }
            j = j + 1;
        }
        None
    }

    /// Whether the registry has a record of type `t`.
    fn has_record(&self, t: &TypeId) -> (r: bool)
        ensures
            r == self@.contains_key(*t),
    {
        proof {
            use_type_invariant(self);
            lemma_records_lookup(self.plugins@);
        }
        match self.find(t) {
            Some(_) => true,
            None => {
                proof {
                    if self@.contains_key(*t) {
                        let i = choose|i: int| 0 <= i < self.plugins@.len() && self.plugins@[i].type_id == *t;
                    }
                }
                false
            },
        }
    }

    /// Takes the decision for adding plugin `type_id`, and records it: see
    /// `add_plugin_spec`. Where the outcome is `Build`, the plugin is to be
    /// built, then `finish_build` called.
    pub fn begin_add(
        &mut self,
        type_id: TypeId,
        name: String,
        mode: ResonanceMode,
        is_client: bool,
        is_server: bool,
        dependencies: Vec<TypeId>,
    ) -> (r: AddPluginOutcome)
        ensures
            (r, final(self)@) == add_plugin_spec(
                old(self)@,
                type_id,
                name@,
                mode,
                is_client,
                is_server,
                dependencies@,
            ),
    {
        if self.has_record(&type_id) {
            return AddPluginOutcome::AlreadyLoaded;
        }
        let should_load = match mode {
            ResonanceMode::Client => is_client,
            ResonanceMode::Server => is_server,
        };
        if !should_load {
            return AddPluginOutcome::IncompatibleMode;
        }
        let mut k: usize = 0;
        let mut missing: Option<usize> = None;
        proof {
            assert(dependencies@.take(0) =~= Seq::<TypeId>::empty());
            if dependencies@.len() == 0 {
                assert(dependencies@ =~= Seq::<TypeId>::empty());
            }
        }
        while k < dependencies.len()
            invariant_except_break
                missing is None,
            invariant
                k <= dependencies@.len(),
                first_missing(self@, dependencies@.take(k as int)) is None,
                k == dependencies@.len() ==> first_missing(self@, dependencies@) is None,
            ensures
                match missing {
                    Some(i) => first_missing(self@, dependencies@) == Some(i as int),
                    None => first_missing(self@, dependencies@) is None,
                },
            decreases dependencies@.len() - k,
        {
            proof {
                assert(dependencies@.take(k + 1).drop_last() =~= dependencies@.take(k as int));
                assert(dependencies@.take(k + 1).last() == dependencies@[k as int]);
            }
            if !self.has_record(&dependencies[k]) {
                missing = Some(k);
                proof {
                    assert(first_missing(self@, dependencies@.take(k + 1)) == Some(k as int));
                    lemma_first_missing_prefix(self@, dependencies@, k + 1);
                }
                break;
            }
            k = k + 1;
            proof {
                if k == dependencies@.len() {
                    assert(dependencies@.take(k as int) =~= dependencies@);
                }
            }
        }
        let state = match missing {
            Some(_) => PluginState::Failed,
            None => PluginState::Building,
        };
        let ghost old_plugins = self.plugins@;
        proof {
            use_type_invariant(&*self);
            lemma_records_lookup(old_plugins);
        }
        let record = PluginMetadata { type_id, name, state, dependencies };
        let mut plugins: Vec<PluginMetadata> = Vec::new();
        std::mem::swap(&mut plugins, &mut self.plugins);
        plugins.push(record);
        proof {
            assert(plugins@.drop_last() =~= old_plugins);
            assert forall|i: int, j: int| 0 <= i < j < plugins@.len() implies plugins@[i].type_id
                != plugins@[j].type_id by {
                if j == plugins@.len() - 1 {
                    assert(old_plugins[i] == plugins@[i]);
                    assert(records(old_plugins).contains_key(old_plugins[i].type_id));
                } else {
                    assert(old_plugins[i] == plugins@[i]);
                    assert(old_plugins[j] == plugins@[j]);
                }
            }
        }
        self.plugins = plugins;
        match missing {
            Some(i) => AddPluginOutcome::MissingDependency(i),
            None => AddPluginOutcome::Build,
        }
    }

    /// Marks plugin `t` as built, where it is recorded.
    pub fn finish_build(&mut self, type_id: &TypeId)
        ensures
            final(self)@ == if old(self)@.contains_key(*type_id) {
                old(self)@.insert(
                    *type_id,
                    PluginRecord { state: PluginState::Built, ..old(self)@[*type_id] },
                )
            } else {
                old(self)@
            },
    {
        proof {
            use_type_invariant(&*self);
            lemma_records_lookup(self.plugins@);
        }
        match self.find(type_id) {
            Some(i) => {
                let ghost old_plugins = self.plugins@;
                let ghost m = old_plugins[i as int];
                let ghost nm = PluginMetadata { state: PluginState::Built, ..m };
                proof {
                    lemma_records_replace(old_plugins, i as int, nm);
                }
                let mut plugins: Vec<PluginMetadata> = Vec::new();
                std::mem::swap(&mut plugins, &mut self.plugins);
                plugins[i].state = PluginState::Built;
                proof {
                    assert(plugins@ =~= old_plugins.update(i as int, nm));
                    assert(record_of(nm) == PluginRecord { state: PluginState::Built, ..records(old_plugins)[*type_id] });
                }
                self.plugins = plugins;
            },
            None => {
                proof {
                    if old(self)@.contains_key(*type_id) {
                        let i = choose|i: int| 0 <= i < self.plugins@.len() && self.plugins@[i].type_id == *type_id;
                    }
                }
            },
        }
    }

    /// Whether plugin `t` has been built.
    pub fn has_plugin(&self, type_id: &TypeId) -> (r: bool)
        ensures
            r == is_built(self@, *type_id),
    {
        proof {
            use_type_invariant(self);
            lemma_records_lookup(self.plugins@);
        }
        match self.find(type_id) {
            Some(i) => {
                match self.plugins[i].state {
                    PluginState::Built => true,
                    _ => false,
                }
            },
            None => {
                proof {
                    if self@.contains_key(*type_id) {
                        let i = choose|i: int| 0 <= i < self.plugins@.len() && self.plugins@[i].type_id == *type_id;
                    }
                }
                false
            },
        }
    }

    /// The record of plugin `t`, where there is one.
    pub fn get_plugin_metadata(&self, type_id: &TypeId) -> (r: Option<&PluginMetadata>)
        ensures
            match r {
                Some(m) => self@.contains_key(*type_id) && m.type_id == *type_id && record_of(*m)
                    == self@[*type_id],
                None => !self@.contains_key(*type_id),
            },
    {
        proof {
            use_type_invariant(self);
            lemma_records_lookup(self.plugins@);
        }
        match self.find(type_id) {
            Some(i) => Some(&self.plugins[i]),
            None => {
                proof {
                    if self@.contains_key(*type_id) {
                        let i = choose|i: int| 0 <= i < self.plugins@.len() && self.plugins@[i].type_id == *type_id;
                    }
                }
                None
            },
        }
    }
}

/// Where a prefix of the dependencies has one missing, the first missing one
/// of the whole is the same.
pub proof fn lemma_first_missing_prefix(reg: Map<TypeId, PluginRecord>, deps: Seq<TypeId>, k: int)
    requires
        0 <= k <= deps.len(),
        first_missing(reg, deps.take(k)) is Some,
    ensures
        first_missing(reg, deps) == first_missing(reg, deps.take(k)),
    decreases deps.len(),
{
    if k < deps.len() {
        let init = deps.drop_last();
        assert(deps.take(k) =~= init.take(k));
        lemma_first_missing_prefix(reg, init, k);
    } else {
        assert(deps.take(k) =~= deps);
    }
}

/// The first missing dependency is found exactly: none is missing when every
/// dependency has a record; otherwise the index given is of a dependency
/// without a record, and every one before it has a record.
pub proof fn lemma_first_missing_exact(reg: Map<TypeId, PluginRecord>, deps: Seq<TypeId>)
    ensures
        first_missing(reg, deps) is None <==> forall|i: int| 0 <= i < deps.len() ==> reg.contains_key(#[trigger] deps[i]),
        first_missing(reg, deps) matches Some(k) ==> 0 <= k < deps.len() && !reg.contains_key(deps[k]) && forall|j: int|
            0 <= j < k ==> reg.contains_key(#[trigger] deps[j]),
    decreases deps.len(),
{
    if deps.len() > 0 {
        let init = deps.drop_last();
        lemma_first_missing_exact(reg, init);
        assert forall|i: int| 0 <= i < init.len() implies init[i] == deps[i] by {}
        if first_missing(reg, deps) is None {
            assert forall|i: int| 0 <= i < deps.len() implies reg.contains_key(#[trigger] deps[i]) by {
                if i < deps.len() - 1 {
                    assert(reg.contains_key(init[i]));
                }
            }
        }
        if forall|i: int| 0 <= i < deps.len() ==> reg.contains_key(#[trigger] deps[i]) {
            assert forall|i: int| 0 <= i < init.len() implies reg.contains_key(#[trigger] init[i]) by {
                assert(reg.contains_key(deps[i]));
            }
            assert(reg.contains_key(deps[deps.len() - 1]));
        }
        if first_missing(reg, deps) is Some {
            let k = first_missing(reg, deps)->Some_0;
            assert forall|j: int| 0 <= j < k implies reg.contains_key(#[trigger] deps[j]) by {
                assert(reg.contains_key(init[j]));
            }
        }
    }
}

/// Adding a new plugin that runs in the mode builds it only where every
/// dependency it names is already recorded; where one is not, the outcome
/// names the first such dependency and the plugin is recorded as failed.
pub proof fn lemma_add_needs_dependencies(
    reg: Map<TypeId, PluginRecord>,
    t: TypeId,
    name: Seq<char>,
    mode: ResonanceMode,
    is_client: bool,
    is_server: bool,
    deps: Seq<TypeId>,
)
    requires
        !reg.contains_key(t),
        runs_in(mode, is_client, is_server),
        deps.len() <= usize::MAX,
    ensures
        ({
            let (o, after) = add_plugin_spec(reg, t, name, mode, is_client, is_server, deps);
            &&& (o == AddPluginOutcome::Build) <==> forall|i: int| 0 <= i < deps.len() ==> reg.contains_key(#[trigger] deps[i])
            &&& o == AddPluginOutcome::Build ==> after.contains_key(t) && after[t].state == PluginState::Building
            &&& o matches AddPluginOutcome::MissingDependency(k) ==> {
                &&& k < deps.len()
                &&& !reg.contains_key(deps[k as int])
                &&& forall|j: int| 0 <= j < k ==> reg.contains_key(#[trigger] deps[j])
                &&& after.contains_key(t) && after[t].state == PluginState::Failed
            }
            &&& (o is Build || o is MissingDependency)
        }),
{
    lemma_first_missing_exact(reg, deps);
}

/// Adding a plugin that was added before changes nothing: a second add of
/// the same type, after any outcome of the first, is `AlreadyLoaded` unless
/// the first was skipped.
pub proof fn lemma_add_twice(
    reg: Map<TypeId, PluginRecord>,
    t: TypeId,
    name: Seq<char>,
    mode: ResonanceMode,
    is_client: bool,
    is_server: bool,
    deps: Seq<TypeId>,
    name2: Seq<char>,
    deps2: Seq<TypeId>,
)
    ensures
        ({
            let (o1, r1) = add_plugin_spec(reg, t, name, mode, is_client, is_server, deps);
            (o1 is Build || o1 is MissingDependency || o1 is AlreadyLoaded) ==> add_plugin_spec(
                r1,
                t,
                name2,
                mode,
                is_client,
                is_server,
                deps2,
            ) == (AddPluginOutcome::AlreadyLoaded, r1)
        }),
{
}

/// A plugin whose add came to `Build` counts as added once its build is
/// finished, and not before.
pub proof fn lemma_built_after_finish(
    reg: Map<TypeId, PluginRecord>,
    t: TypeId,
    name: Seq<char>,
    mode: ResonanceMode,
    is_client: bool,
    is_server: bool,
    deps: Seq<TypeId>,
)
    ensures
        ({
            let (o, r1) = add_plugin_spec(reg, t, name, mode, is_client, is_server, deps);
            o is Build ==> !is_built(r1, t) && is_built(
                r1.insert(t, PluginRecord { state: PluginState::Built, ..r1[t] }),
                t,
            )
        }),
{
}

} // verus!
