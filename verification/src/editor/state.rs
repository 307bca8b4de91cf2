//! The editor's record of entities: the name of each, and the children of
//! each parent. Entities are identified by their 64-bit ids.
use crate::assoc::{assoc, keys_distinct, lemma_assoc_lookup, lemma_assoc_push, lemma_assoc_remove, lemma_assoc_replace};
use crate::outside::str_equals;
use crate::text::{decimal, decimal_string};
use crate::text::{lemma_decimal_injective, lemma_decimal_len};
use vstd::prelude::*;
use vstd::string::StringExecFns;

verus! {

/// The editor's entities as plain values: names by entity, and children by
/// parent, in the order they were added.
#[verifier::ext_equal]
pub struct EditorView {
    pub names: Map<u64, Seq<char>>,
    pub hierarchy: Map<u64, Seq<u64>>,
}

/// The (entity, name) pairs, as plain values.
pub open spec fn name_pairs(v: Seq<(u64, String)>) -> Seq<(u64, Seq<char>)> {
    v.map_values(|p: (u64, String)| (p.0, p.1@))
}

/// The (parent, children) pairs, as plain values.
pub open spec fn child_pairs(v: Seq<(u64, Vec<u64>)>) -> Seq<(u64, Seq<u64>)> {
    v.map_values(|p: (u64, Vec<u64>)| (p.0, p.1@))
}

/// `s` without the occurrences of `x`, in order.
pub open spec fn without(s: Seq<u64>, x: u64) -> Seq<u64>
    decreases s.len(),
{
    if s.len() == 0 {
        s
    } else if s.last() == x {
        without(s.drop_last(), x)
    } else {
        without(s.drop_last(), x).push(s.last())
    }
}

/// Whether some entity is named `name`.
pub open spec fn name_taken(names: Map<u64, Seq<char>>, name: Seq<char>) -> bool {
    exists|e: u64| names.contains_key(e) && #[trigger] names[e] == name
}

/// Whether `e` is among some parent's children.
pub open spec fn is_child(hierarchy: Map<u64, Seq<u64>>, e: u64) -> bool {
    exists|p: u64| hierarchy.contains_key(p) && #[trigger] hierarchy[p].contains(e)
}

/// The children recorded for `e`: none where it has no entry.
pub open spec fn children_of(hierarchy: Map<u64, Seq<u64>>, e: u64) -> Seq<u64> {
    if hierarchy.contains_key(e) {
        hierarchy[e]
    } else {
        Seq::empty()
    }
}

/// The `k`-th name tried for a new entity: `base` itself, then `base_1`,
/// `base_2`, and so on.
pub open spec fn candidate(base: Seq<char>, k: nat) -> Seq<char> {
    if k == 0 {
        base
    } else {
        base + "_"@ + decimal(k)
    }
}

/// The hierarchy without entity `e`: its own entry gone, and it gone from
/// every list of children.
pub open spec fn prune(h: Map<u64, Seq<u64>>, e: u64) -> Map<u64, Seq<u64>> {
    Map::new(|p: u64| h.contains_key(p) && p != e, |p: u64| without(h[p], e))
}

/// The name the hierarchy shows for `e`: its own, or "Unnamed".
pub open spec fn shown_name(names: Map<u64, Seq<char>>, e: u64) -> Seq<char> {
    if names.contains_key(e) {
        names[e]
    } else {
        "Unnamed"@
    }
}

/// The entities of some hierarchy nodes, in order.
pub open spec fn node_ids(v: Seq<(u64, String, Vec<u64>)>) -> Seq<u64> {
    v.map_values(|n: (u64, String, Vec<u64>)| n.0)
}

/// One node of the hierarchy as plain values: entity, shown name, children.
pub open spec fn node_view(n: (u64, String, Vec<u64>)) -> (u64, Seq<char>, Seq<u64>) {
    (n.0, n.1@, n.2@)
}

/// The hierarchy with `e` appended to the children of `parent`, where one
/// is given.
pub open spec fn attach(h: Map<u64, Seq<u64>>, parent: Option<u64>, e: u64) -> Map<u64, Seq<u64>> {
    match parent {
        Some(np) => h.insert(np, children_of(h, np).push(e)),
        None => h,
    }
}

/// No two entities share a name.
pub open spec fn names_distinct(names: Map<u64, Seq<char>>) -> bool {
    forall|a: u64, b: u64|
        names.contains_key(a) && names.contains_key(b) && a != b ==> #[trigger] names[a] != #[trigger] names[b]
}

/// Deleting `e` and everything under it, depth first: each child (as
/// listed when `e` is reached) with its own subtree in turn, then `e`
/// itself. Gives the entities left and the order in which entities were
/// deleted. `fuel` bounds the depth of the walk.
pub open spec fn delete_spec(v: EditorView, e: u64, fuel: nat) -> (EditorView, Seq<u64>)
    decreases fuel, 0nat, 0nat,
{
    if fuel == 0 {
        (v, Seq::empty())
    } else {
        let (v1, order) = delete_list_spec(v, children_of(v.hierarchy, e), (fuel - 1) as nat);
        (EditorView { names: v1.names.remove(e), hierarchy: prune(v1.hierarchy, e) }, order.push(e))
    }
}

/// Deleting the subtrees of the entities of `list`, in order.
pub open spec fn delete_list_spec(v: EditorView, list: Seq<u64>, fuel: nat) -> (EditorView, Seq<u64>)
    decreases fuel, 1nat, list.len(),
{
    if list.len() == 0 {
        (v, Seq::empty())
    } else {
        let (v1, o1) = delete_list_spec(v, list.drop_last(), fuel);
        let (v2, o2) = delete_spec(v1, list.last(), fuel);
        (v2, o1 + o2)
    }
}

/// Whether `s` is a chain in the hierarchy: each entity's one child is the
/// next, and the last has no children.
pub open spec fn is_chain(h: Map<u64, Seq<u64>>, s: Seq<u64>) -> bool {
    &&& s.len() >= 1
    &&& forall|i: int| 0 <= i < s.len() - 1 ==> children_of(h, #[trigger] s[i]) == seq![s[i + 1]]
    &&& children_of(h, s[s.len() - 1]) == Seq::<u64>::empty()
}

/// Deleting the head of a chain deletes the whole chain, however long,
/// deepest first: the order is the chain reversed, and no entity of the
/// chain keeps a name. (The walk's bound only needs to reach the chain's
/// length; `remove_subtree` gives it `usize::MAX`.)
pub proof fn lemma_delete_chain(v: EditorView, s: Seq<u64>, fuel: nat)
    requires
        is_chain(v.hierarchy, s),
        s.len() <= fuel,
    ensures
        delete_spec(v, s[0], fuel).1 == s.reverse(),
        forall|i: int| 0 <= i < s.len() ==> !delete_spec(v, s[0], fuel).0.names.contains_key(#[trigger] s[i]),
    decreases s.len(),
{
    let f1 = (fuel - 1) as nat;
    if s.len() == 1 {
        assert(children_of(v.hierarchy, s[0]) == Seq::<u64>::empty());
        assert(delete_list_spec(v, Seq::<u64>::empty(), f1) == (v, Seq::<u64>::empty()));
        assert(s.reverse() =~= seq![s[0]]);
        assert(Seq::<u64>::empty().push(s[0]) =~= seq![s[0]]);
    } else {
        let t = s.drop_first();
        assert forall|i: int| 0 <= i < t.len() - 1 implies children_of(v.hierarchy, #[trigger] t[i]) == seq![t[i + 1]] by {
            assert(t[i] == s[i + 1]);
            assert(t[i + 1] == s[i + 2]);
        }
        assert(t[t.len() - 1] == s[s.len() - 1]);
        lemma_delete_chain(v, t, f1);
        let c = seq![s[1]];
        assert(children_of(v.hierarchy, s[0]) == c);
        assert(c.drop_last() =~= Seq::<u64>::empty());
        assert(c.last() == s[1]);
        assert(delete_list_spec(v, Seq::<u64>::empty(), f1) == (v, Seq::<u64>::empty()));
        let (v2, o2) = delete_spec(v, t[0], f1);
        assert(t[0] == s[1]);
        assert(delete_list_spec(v, c, f1) == (v2, Seq::<u64>::empty() + o2));
        assert(Seq::<u64>::empty() + o2 =~= o2);
        assert(o2 == t.reverse());
        assert(s.reverse() =~= t.reverse().push(s[0]));
        assert forall|i: int| 0 <= i < s.len() implies !delete_spec(v, s[0], fuel).0.names.contains_key(
            #[trigger] s[i],
        ) by {
            if i > 0 {
                assert(s[i] == t[i - 1]);
                assert(!v2.names.contains_key(t[i - 1]));
            }
        }
    }
}

/// The entities whose names a deletion takes away are exactly those it
/// reports: every reported entity loses its name, and every other keeps it.
pub proof fn lemma_delete_names(v: EditorView, e: u64, fuel: nat)
    ensures
        delete_spec(v, e, fuel).0.names == v.names.remove_keys(delete_spec(v, e, fuel).1.to_set()),
    decreases fuel, 0nat, 0nat,
{
    if fuel > 0 {
        let f1 = (fuel - 1) as nat;
        let l = children_of(v.hierarchy, e);
        lemma_delete_list_names(v, l, f1);
        let (v1, o) = delete_list_spec(v, l, f1);
        let ord = o.push(e);
        assert(ord.to_set() =~= o.to_set().insert(e)) by {
            assert forall|x: u64| ord.to_set().contains(x) <==> o.to_set().insert(e).contains(x) by {
                if o.contains(x) {
                    let i = choose|i: int| 0 <= i < o.len() && o[i] == x;
                    assert(ord[i] == x);
                }
                if x == e {
                    assert(ord[o.len() as int] == e);
                }
                if ord.contains(x) && x != e {
                    let i = choose|i: int| 0 <= i < ord.len() && ord[i] == x;
                    assert(o[i] == x);
                }
            }
        }
        assert(v1.names.remove(e) =~= v.names.remove_keys(ord.to_set()));
    } else {
        assert(v.names.remove_keys(Seq::<u64>::empty().to_set()) =~= v.names);
    }
}

/// The entities whose names deleting the subtrees of a list takes away are
/// exactly those it reports.
pub proof fn lemma_delete_list_names(v: EditorView, l: Seq<u64>, fuel: nat)
    ensures
        delete_list_spec(v, l, fuel).0.names == v.names.remove_keys(delete_list_spec(v, l, fuel).1.to_set()),
    decreases fuel, 1nat, l.len(),
{
    if l.len() == 0 {
        assert(v.names.remove_keys(Seq::<u64>::empty().to_set()) =~= v.names);
    } else {
        lemma_delete_list_names(v, l.drop_last(), fuel);
        let (v1, o1) = delete_list_spec(v, l.drop_last(), fuel);
        lemma_delete_names(v1, l.last(), fuel);
        let (v2, o2) = delete_spec(v1, l.last(), fuel);
        let both = o1 + o2;
        assert forall|x: u64| both.to_set().contains(x) <==> (o1.to_set().contains(x) || o2.to_set().contains(x)) by {
            if o1.contains(x) {
                let i = choose|i: int| 0 <= i < o1.len() && o1[i] == x;
                assert(both[i] == x);
            }
            if o2.contains(x) {
                let i = choose|i: int| 0 <= i < o2.len() && o2[i] == x;
                assert(both[o1.len() + i] == x);
            }
            if both.contains(x) {
                let i = choose|i: int| 0 <= i < both.len() && both[i] == x;
                if i < o1.len() {
                    assert(o1[i] == x);
                } else {
                    assert(o2[i - o1.len()] == x);
                }
            }
        }
        assert(v2.names =~= v.names.remove_keys(both.to_set()));
    }
}

/// The names and hierarchy of entities, as two lists.
struct EntityTables {
    names: Vec<(u64, String)>,
    hierarchy: Vec<(u64, Vec<u64>)>,
}

impl View for EntityTables {
    type V = EditorView;

    closed spec fn view(&self) -> EditorView {
        EditorView { names: assoc(name_pairs(self.names@)), hierarchy: assoc(child_pairs(self.hierarchy@)) }
    }
}

/// `v` without the occurrences of `x`.
fn without_value(v: &Vec<u64>, x: u64) -> (r: Vec<u64>)
    ensures
        r@ == without(v@, x),
{
    let mut r: Vec<u64> = Vec::new();
    let mut i: usize = 0;
    while i < v.len()
        invariant
            i <= v@.len(),
            r@ == without(v@.take(i as int), x),
        decreases v@.len() - i,
    {
        proof {
            assert(v@.take(i + 1).drop_last() =~= v@.take(i as int));
            assert(v@.take(i + 1).last() == v@[i as int]);
        }
        if v[i] != x {
            r.push(v[i]);
        }
        i = i + 1;
    }
    proof {
        assert(v@.take(i as int) =~= v@);
    }
    r
}

impl EntityTables {
    /// The entity lists hold one entry per entity and per parent.
    spec fn wf(&self) -> bool {
        keys_distinct(name_pairs(self.names@)) && keys_distinct(child_pairs(self.hierarchy@))
    }

    /// No entities.
    fn new() -> (r: Self)
        ensures
            r.wf(),
            r@.names == Map::<u64, Seq<char>>::empty(),
            r@.hierarchy == Map::<u64, Seq<u64>>::empty(),
    {
        let r = EntityTables { names: Vec::new(), hierarchy: Vec::new() };
        assert(name_pairs(r.names@) =~= Seq::<(u64, Seq<char>)>::empty());
        assert(child_pairs(r.hierarchy@) =~= Seq::<(u64, Seq<u64>)>::empty());
        r
    }

    /// Where the name of `e` stands, if anywhere.
    fn name_index(&self, e: u64) -> (r: Option<usize>)
        ensures
            match r {
                Some(i) => i < self.names@.len() && self.names@[i as int].0 == e,
                None => forall|i: int| 0 <= i < self.names@.len() ==> self.names@[i].0 != e,
            },
    {
        let mut i: usize = 0;
        while i < self.names.len()
            invariant
                i <= self.names@.len(),
                forall|j: int| 0 <= j < i ==> self.names@[j].0 != e,
            decreases self.names@.len() - i,
        {
            if self.names[i].0 == e {
                return Some(i);
            }
            i = i + 1;
        }
        None
    }

    /// Where the children of `p` stand, if anywhere.
    fn tree_index(&self, p: u64) -> (r: Option<usize>)
        ensures
            match r {
                Some(i) => i < self.hierarchy@.len() && self.hierarchy@[i as int].0 == p,
                None => forall|i: int| 0 <= i < self.hierarchy@.len() ==> self.hierarchy@[i].0 != p,
            },
    {
        let mut i: usize = 0;
        while i < self.hierarchy.len()
            invariant
                i <= self.hierarchy@.len(),
                forall|j: int| 0 <= j < i ==> self.hierarchy@[j].0 != p,
            decreases self.hierarchy@.len() - i,
        {
            if self.hierarchy[i].0 == p {
                return Some(i);
            }
            i = i + 1;
        }
        None
    }

    /// Facts about both lists that the operations use.
    proof fn lemma_lookup(&self)
        requires
            self.wf(),
        ensures
            forall|i: int|
                0 <= i < self.names@.len() ==> self@.names.contains_key(#[trigger] self.names@[i].0)
                    && self@.names[self.names@[i].0] == self.names@[i].1@,
            forall|e: u64|
                #[trigger] self@.names.contains_key(e) ==> exists|i: int|
                    0 <= i < self.names@.len() && self.names@[i].0 == e,
            forall|i: int|
                0 <= i < self.hierarchy@.len() ==> self@.hierarchy.contains_key(#[trigger] self.hierarchy@[i].0)
                    && self@.hierarchy[self.hierarchy@[i].0] == self.hierarchy@[i].1@,
            forall|p: u64|
                #[trigger] self@.hierarchy.contains_key(p) ==> exists|i: int|
                    0 <= i < self.hierarchy@.len() && self.hierarchy@[i].0 == p,
    {
        let np = name_pairs(self.names@);
        let cp = child_pairs(self.hierarchy@);
        lemma_assoc_lookup(np);
        lemma_assoc_lookup(cp);
        assert forall|i: int| 0 <= i < self.names@.len() implies self@.names.contains_key(
            #[trigger] self.names@[i].0,
        ) && self@.names[self.names@[i].0] == self.names@[i].1@ by {
            assert(np[i] == (self.names@[i].0, self.names@[i].1@));
        }
        assert forall|e: u64| #[trigger] self@.names.contains_key(e) implies exists|i: int|
            0 <= i < self.names@.len() && self.names@[i].0 == e by {
            let i = choose|i: int| 0 <= i < np.len() && np[i].0 == e;
            assert(np[i].0 == self.names@[i].0);
        }
        assert forall|i: int| 0 <= i < self.hierarchy@.len() implies self@.hierarchy.contains_key(
            #[trigger] self.hierarchy@[i].0,
        ) && self@.hierarchy[self.hierarchy@[i].0] == self.hierarchy@[i].1@ by {
            assert(cp[i] == (self.hierarchy@[i].0, self.hierarchy@[i].1@));
        }
        assert forall|p: u64| #[trigger] self@.hierarchy.contains_key(p) implies exists|i: int|
            0 <= i < self.hierarchy@.len() && self.hierarchy@[i].0 == p by {
            let i = choose|i: int| 0 <= i < cp.len() && cp[i].0 == p;
            assert(cp[i].0 == self.hierarchy@[i].0);
        }
    }

    /// Names `entity`, replacing any name it had.
    fn register_entity(&mut self, entity: u64, name: String)
        requires
            old(self).wf(),
        ensures
            final(self).wf(),
            final(self)@.names == old(self)@.names.insert(entity, name@),
            final(self)@.hierarchy == old(self)@.hierarchy,
    {
        proof {
            self.lemma_lookup();
        }
        let ghost np = name_pairs(self.names@);
        let ghost nv = name@;
        match self.name_index(entity) {
            Some(i) => {
                proof {
                    lemma_assoc_replace(np, i as int, nv);
                }
                self.names[i] = (entity, name);
                proof {
                    assert(name_pairs(self.names@) =~= np.update(i as int, (entity, nv)));
                }
            },
            None => {
                proof {
                    if assoc(np).contains_key(entity) {
                        let j = choose|j: int| 0 <= j < self.names@.len() && self.names@[j].0 == entity;
                    }
                    lemma_assoc_push(np, entity, nv);
                }
                self.names.push((entity, name));
                proof {
                    assert(name_pairs(self.names@) =~= np.push((entity, nv)));
                }
            },
        }
    }

    /// The name of `entity`, if it has one.
    fn get_entity_name(&self, entity: u64) -> (r: Option<String>)
        requires
            self.wf(),
        ensures
            match r {
                Some(s) => self@.names.contains_key(entity) && s@ == self@.names[entity],
                None => !self@.names.contains_key(entity),
            },
    {
        proof {
            self.lemma_lookup();
        }
        match self.name_index(entity) {
            Some(i) => Some(self.names[i].1.clone()),
            None => {
                proof {
                    if self@.names.contains_key(entity) {
                        let j = choose|j: int| 0 <= j < self.names@.len() && self.names@[j].0 == entity;
                    }
                }
                None
            },
        }
    }

    /// An entity named `name`, if there is one. Where several are, any of
    /// them.
    fn get_entity_by_name(&self, name: &str) -> (r: Option<u64>)
        requires
            self.wf(),
        ensures
            match r {
                Some(e) => self@.names.contains_key(e) && self@.names[e] == name@,
                None => !name_taken(self@.names, name@),
            },
    {
        proof {
            self.lemma_lookup();
        }
        let mut i: usize = 0;
        while i < self.names.len()
            invariant
                self.wf(),
                i <= self.names@.len(),
                forall|j: int| 0 <= j < i ==> self.names@[j].1@ != name@,
            decreases self.names@.len() - i,
        {
            if str_equals(self.names[i].1.as_str(), name) {
                proof {
                    self.lemma_lookup();
                    assert(self@.names.contains_key(self.names@[i as int].0));
                }
                return Some(self.names[i].0);
            }
            i = i + 1;
        }
        proof {
            if name_taken(self@.names, name@) {
                let e = choose|e: u64| self@.names.contains_key(e) && #[trigger] self@.names[e] == name@;
                let j = choose|j: int| 0 <= j < self.names@.len() && self.names@[j].0 == e;
            }
        }
        None
    }

    /// Renames `entity` to `new_name`, unless some entity already has that
    /// name.
    fn rename_entity(&mut self, entity: u64, new_name: String) -> (r: Result<(), String>)
        requires
            old(self).wf(),
        ensures
            final(self).wf(),
            name_taken(old(self)@.names, new_name@) ==> (r matches Err(m) && m@ == "Entity with name '"@
                + new_name@ + "' already exists"@ && final(self)@ == old(self)@),
            !name_taken(old(self)@.names, new_name@) ==> (r is Ok && final(self)@.names == old(
                self,
            )@.names.insert(entity, new_name@) && final(self)@.hierarchy == old(self)@.hierarchy),
    {
        if self.get_entity_by_name(new_name.as_str()).is_some() {
            return Err(String::from_str("Entity with name '").concat(new_name.as_str()).concat("' already exists"));
        }
        self.register_entity(entity, new_name);
        Ok(())
    }

    /// Adds `child` to the children of `parent`.
    fn add_child(&mut self, parent: u64, child: u64)
        requires
            old(self).wf(),
        ensures
            final(self).wf(),
            final(self)@.names == old(self)@.names,
            final(self)@.hierarchy == old(self)@.hierarchy.insert(
                parent,
                children_of(old(self)@.hierarchy, parent).push(child),
            ),
    {
        proof {
            self.lemma_lookup();
        }
        let ghost cp = child_pairs(self.hierarchy@);
        match self.tree_index(parent) {
            Some(i) => {
                let ghost old_list = self.hierarchy@[i as int].1@;
                let mut full: Vec<u64> = Vec::new();
                let mut j: usize = 0;
                while j < self.hierarchy[i].1.len()
                    invariant
                        i < self.hierarchy@.len(),
                        old_list == self.hierarchy@[i as int].1@,
                        j <= old_list.len(),
                        full@ == old_list.take(j as int),
                    decreases old_list.len() - j,
                {
                    full.push(self.hierarchy[i].1[j]);
                    proof {
                        assert(old_list.take(j + 1) =~= old_list.take(j as int).push(old_list[j as int]));
                    }
                    j = j + 1;
                }
                proof {
                    assert(old_list.take(j as int) =~= old_list);
                }
                full.push(child);
                let ghost nl = full@;
                proof {
                    lemma_assoc_replace(cp, i as int, nl);
                }
                self.hierarchy[i] = (parent, full);
                proof {
                    assert(child_pairs(self.hierarchy@) =~= cp.update(i as int, (parent, nl)));
                }
            },
            None => {
                let mut list: Vec<u64> = Vec::new();
                list.push(child);
                let ghost nl = list@;
                proof {
                    if assoc(cp).contains_key(parent) {
                        let j = choose|j: int| 0 <= j < self.hierarchy@.len() && self.hierarchy@[j].0 == parent;
                    }
                    lemma_assoc_push(cp, parent, nl);
                    assert(nl =~= Seq::<u64>::empty().push(child));
                }
                self.hierarchy.push((parent, list));
                proof {
                    assert(child_pairs(self.hierarchy@) =~= cp.push((parent, nl)));
                }
            },
        }
    }

    /// Removes every occurrence of `child` from the children of `parent`.
    fn remove_child(&mut self, parent: u64, child: u64)
        requires
            old(self).wf(),
        ensures
            final(self).wf(),
            final(self)@.names == old(self)@.names,
            final(self)@.hierarchy == if old(self)@.hierarchy.contains_key(parent) {
                old(self)@.hierarchy.insert(parent, without(old(self)@.hierarchy[parent], child))
            } else {
                old(self)@.hierarchy
            },
    {
        proof {
            self.lemma_lookup();
        }
        let ghost cp = child_pairs(self.hierarchy@);
        match self.tree_index(parent) {
            Some(i) => {
                let list = without_value(&self.hierarchy[i].1, child);
                let ghost nl = list@;
                proof {
                    lemma_assoc_replace(cp, i as int, nl);
                }
                self.hierarchy[i] = (parent, list);
                proof {
                    assert(child_pairs(self.hierarchy@) =~= cp.update(i as int, (parent, nl)));
                }
            },
            None => {
                proof {
                    if assoc(cp).contains_key(parent) {
                        let j = choose|j: int| 0 <= j < self.hierarchy@.len() && self.hierarchy@[j].0 == parent;
                    }
                }
            },
        }
    }

    /// Whether `x` is in `v`.
    fn list_contains(v: &Vec<u64>, x: u64) -> (r: bool)
        ensures
            r == v@.contains(x),
    {
        let mut i: usize = 0;
        while i < v.len()
            invariant
                i <= v@.len(),
                forall|j: int| 0 <= j < i ==> v@[j] != x,
            decreases v@.len() - i,
        {
            if v[i] == x {
                return true;
            }
            i = i + 1;
        }
        false
    }

    /// Where the first list of children holding `e` stands, if any.
    fn parent_index(&self, e: u64) -> (r: Option<usize>)
        ensures
            match r {
                Some(i) => i < self.hierarchy@.len() && self.hierarchy@[i as int].1@.contains(e),
                None => forall|i: int| 0 <= i < self.hierarchy@.len() ==> !self.hierarchy@[i].1@.contains(e),
            },
    {
        let mut i: usize = 0;
        while i < self.hierarchy.len()
            invariant
                i <= self.hierarchy@.len(),
                forall|j: int| 0 <= j < i ==> !self.hierarchy@[j].1@.contains(e),
            decreases self.hierarchy@.len() - i,
        {
            if Self::list_contains(&self.hierarchy[i].1, e) {
                return Some(i);
            }
            i = i + 1;
        }
        None
    }

    /// Forgets `entity`: its name, its children, and its place among others'
    /// children.
    fn unregister_entity(&mut self, entity: u64)
        requires
            old(self).wf(),
        ensures
            final(self).wf(),
            final(self)@.names == old(self)@.names.remove(entity),
            final(self)@.hierarchy == prune(old(self)@.hierarchy, entity),
    {
        proof {
            self.lemma_lookup();
        }
        let ghost np = name_pairs(self.names@);
        match self.name_index(entity) {
            Some(i) => {
                proof {
                    lemma_assoc_remove(np, i as int);
                }
                self.names.remove(i);
                proof {
                    assert(name_pairs(self.names@) =~= np.remove(i as int));
                }
            },
            None => {
                proof {
                    if assoc(np).contains_key(entity) {
                        let j = choose|j: int| 0 <= j < self.names@.len() && self.names@[j].0 == entity;
                    }
                    assert(assoc(np).remove(entity) =~= assoc(np));
                }
            },
        }
        let ghost h0 = self@.hierarchy;
        let ghost cp = child_pairs(self.hierarchy@);
        match self.tree_index(entity) {
            Some(i) => {
                proof {
                    lemma_assoc_remove(cp, i as int);
                }
                self.hierarchy.remove(i);
                proof {
                    assert(child_pairs(self.hierarchy@) =~= cp.remove(i as int));
                }
            },
            None => {
                proof {
                    if assoc(cp).contains_key(entity) {
                        let j = choose|j: int| 0 <= j < self.hierarchy@.len() && self.hierarchy@[j].0 == entity;
                    }
                    assert(assoc(cp).remove(entity) =~= assoc(cp));
                }
            },
        }
        let ghost base = self.hierarchy@;
        let ghost h1 = self@.hierarchy;
        let ghost names_after = self.names@;
        proof {
            assert(h1 == h0.remove(entity));
        }
        let n = self.hierarchy.len();
        let mut j: usize = 0;
        while j < n
            invariant
                n == self.hierarchy@.len(),
                n == base.len(),
                j <= n,
                keys_distinct(child_pairs(base)),
                keys_distinct(name_pairs(self.names@)),
                self.names@ == names_after,
                forall|k: int|
                    0 <= k < n ==> (#[trigger] self.hierarchy@[k]).0 == base[k].0 && self.hierarchy@[k].1@ == if k < j {
                        without(base[k].1@, entity)
                    } else {
                        base[k].1@
                    },
            decreases n - j,
        {
            let key = self.hierarchy[j].0;
            let list = without_value(&self.hierarchy[j].1, entity);
            self.hierarchy[j] = (key, list);
            j = j + 1;
        }
        proof {
            let cur = child_pairs(self.hierarchy@);
            let bp = child_pairs(base);
            assert forall|a: int, b: int| 0 <= a < b < cur.len() implies cur[a].0 != cur[b].0 by {
                assert(cur[a].0 == self.hierarchy@[a].0);
                assert(cur[b].0 == self.hierarchy@[b].0);
                assert(bp[a].0 == base[a].0);
                assert(bp[b].0 == base[b].0);
            }
            lemma_assoc_lookup(cur);
            lemma_assoc_lookup(bp);
            assert(assoc(bp) == h1);
            assert forall|p: u64| #[trigger] assoc(cur).contains_key(p) == prune(h0, entity).contains_key(p) by {
                if assoc(cur).contains_key(p) {
                    let k = choose|k: int| 0 <= k < cur.len() && cur[k].0 == p;
                    assert(bp[k].0 == p);
                }
                if prune(h0, entity).contains_key(p) {
                    assert(assoc(bp).contains_key(p));
                    let k = choose|k: int| 0 <= k < bp.len() && bp[k].0 == p;
                    assert(cur[k].0 == self.hierarchy@[k].0);
                }
            }
            assert forall|p: u64| #[trigger] assoc(cur).contains_key(p) implies assoc(cur)[p] == prune(
                h0,
                entity,
            )[p] by {
                let k = choose|k: int| 0 <= k < cur.len() && cur[k].0 == p;
                assert(cur[k] == (self.hierarchy@[k].0, self.hierarchy@[k].1@));
                assert(bp[k] == (base[k].0, base[k].1@));
            }
            assert(assoc(cur) =~= prune(h0, entity));
        }
    }

    /// The named entities that are nobody's children, each once.
    fn get_root_entities(&self) -> (r: Vec<u64>)
        requires
            self.wf(),
        ensures
            r@.no_duplicates(),
            forall|e: u64| r@.contains(e) <==> (self@.names.contains_key(e) && !is_child(self@.hierarchy, e)),
    {
        proof {
            self.lemma_lookup();
        }
        let mut out: Vec<u64> = Vec::new();
        let mut i: usize = 0;
        while i < self.names.len()
            invariant
                self.wf(),
                i <= self.names@.len(),
                out@.no_duplicates(),
                forall|e: u64|
                    out@.contains(e) <==> (exists|k: int| 0 <= k < i && #[trigger] self.names@[k].0 == e)
                        && !is_child(self@.hierarchy, e),
            decreases self.names@.len() - i,
        {
            proof {
                self.lemma_lookup();
            }
            let e = self.names[i].0;
            let parent = self.parent_index(e);
            proof {
                match parent {
                    Some(k) => {
                        assert(self@.hierarchy.contains_key(self.hierarchy@[k as int].0));
                        assert(is_child(self@.hierarchy, e));
                    },
                    None => {
                        if is_child(self@.hierarchy, e) {
                            let p = choose|p: u64| self@.hierarchy.contains_key(p) && #[trigger] self@.hierarchy[p].contains(e);
                            let k = choose|k: int| 0 <= k < self.hierarchy@.len() && self.hierarchy@[k].0 == p;
                        }
                    },
                }
            }
            let ghost before = out@;
            if parent.is_none() {
                proof {
                    assert(!out@.contains(e)) by {
                        if out@.contains(e) {
                            let k = choose|k: int| 0 <= k < i && #[trigger] self.names@[k].0 == e;
                            assert(name_pairs(self.names@)[k].0 == name_pairs(self.names@)[i as int].0);
                        }
                    }
                }
                out.push(e);
            }
            proof {
                assert forall|x: u64|
                    out@.contains(x) <==> (exists|k: int| 0 <= k < i + 1 && #[trigger] self.names@[k].0 == x)
                        && !is_child(self@.hierarchy, x) by {
                    if parent.is_none() {
                        lemma_push_contains(before, e, x);
                    }
                    if exists|k: int| 0 <= k < i + 1 && #[trigger] self.names@[k].0 == x {
                        let k = choose|k: int| 0 <= k < i + 1 && #[trigger] self.names@[k].0 == x;
                        if k < i {
                            assert(exists|k: int| 0 <= k < i && #[trigger] self.names@[k].0 == x);
                        }
                    }
                    if x != e && (exists|k: int| 0 <= k < i && #[trigger] self.names@[k].0 == x) {
                        let k = choose|k: int| 0 <= k < i && #[trigger] self.names@[k].0 == x;
                        assert(0 <= k < i + 1 && self.names@[k].0 == x);
                    }
                }
            }
            i = i + 1;
        }
        proof {
            assert forall|e: u64| out@.contains(e) <==> (self@.names.contains_key(e) && !is_child(self@.hierarchy, e)) by {
                if self@.names.contains_key(e) {
                    let k = choose|k: int| 0 <= k < self.names@.len() && self.names@[k].0 == e;
                }
            }
        }
        out
    }

    /// Moves `entity` under `parent`: off the first list of children it is
    /// on, if any, then onto the end of `parent`'s, where a parent is given.
    fn set_entity_parent(&mut self, entity: u64, parent: Option<u64>)
        requires
            old(self).wf(),
        ensures
            final(self).wf(),
            final(self)@.names == old(self)@.names,
            is_child(old(self)@.hierarchy, entity) ==> exists|p: u64|
                old(self)@.hierarchy.contains_key(p) && #[trigger] old(self)@.hierarchy[p].contains(entity)
                    && final(self)@.hierarchy == attach(
                    old(self)@.hierarchy.insert(p, without(old(self)@.hierarchy[p], entity)),
                    parent,
                    entity,
                ),
            !is_child(old(self)@.hierarchy, entity) ==> final(self)@.hierarchy == attach(
                old(self)@.hierarchy,
                parent,
                entity,
            ),
    {
        proof {
            self.lemma_lookup();
        }
        let ghost h = self@.hierarchy;
        match self.parent_index(entity) {
            Some(i) => {
                let old_parent = self.hierarchy[i].0;
                proof {
                    assert(h.contains_key(old_parent));
                }
                self.remove_child(old_parent, entity);
            },
            None => {
                proof {
                    if is_child(h, entity) {
                        let p = choose|p: u64| h.contains_key(p) && #[trigger] h[p].contains(entity);
                        let k = choose|k: int| 0 <= k < self.hierarchy@.len() && self.hierarchy@[k].0 == p;
                    }
                }
            },
        }
        let ghost h1 = self@.hierarchy;
        if let Some(np) = parent {
            self.add_child(np, entity);
        }
    }

    /// A name for a new entity that no entity has: `base` where it is free,
    /// else `base_1`, `base_2`, ..., the first that is free.
    fn generate_entity_name(&self, base: &str) -> (r: String)
        requires
            self.wf(),
        ensures
            exists|k: nat|
                r@ == candidate(base@, k) && forall|j: nat| j < k ==> name_taken(self@.names, #[trigger] candidate(base@, j)),
            !name_taken(self@.names, r@),
    {
        proof {
            self.lemma_lookup();
            lemma_assoc_lookup(name_pairs(self.names@));
        }
        let n = self.names.len();
        let mut name = base.to_owned();
        let mut k: usize = 0;
        loop
            invariant
                self.wf(),
                n == self.names@.len(),
                self@.names.len() == n,
                self@.names.dom().finite(),
                k <= n,
                name@ == candidate(base@, k as nat),
                forall|j: nat| j < k ==> name_taken(self@.names, #[trigger] candidate(base@, j)),
            decreases n - k,
        {
            if self.get_entity_by_name(name.as_str()).is_none() {
                return name;
            }
            proof {
                lemma_candidates_fit(self@.names, base@, (k + 1) as nat);
            }
            k = k + 1;
            name = base.to_owned().concat("_").concat(decimal_string(k as u64).as_str());
        }
    }

    /// The children of `entity`, in the order added.
    fn get_children(&self, entity: u64) -> (r: Vec<u64>)
        requires
            self.wf(),
        ensures
            r@ == children_of(self@.hierarchy, entity),
    {
        proof {
            self.lemma_lookup();
        }
        match self.tree_index(entity) {
            Some(i) => {
                let mut out: Vec<u64> = Vec::new();
                let mut j: usize = 0;
                while j < self.hierarchy[i].1.len()
                    invariant
                        i < self.hierarchy@.len(),
                        j <= self.hierarchy@[i as int].1@.len(),
                        out@ == self.hierarchy@[i as int].1@.take(j as int),
                    decreases self.hierarchy@[i as int].1@.len() - j,
                {
                    out.push(self.hierarchy[i].1[j]);
                    proof {
                        assert(self.hierarchy@[i as int].1@.take(j + 1) =~= self.hierarchy@[i as int].1@.take(
                            j as int,
                        ).push(self.hierarchy@[i as int].1@[j as int]));
                    }
                    j = j + 1;
                }
                proof {
                    assert(self.hierarchy@[i as int].1@.take(j as int) =~= self.hierarchy@[i as int].1@);
                }
                out
            },
            None => {
                proof {
                    if self@.hierarchy.contains_key(entity) {
                        let j = choose|j: int| 0 <= j < self.hierarchy@.len() && self.hierarchy@[j].0 == entity;
                    }
                }
                Vec::new()
            },
        }
    }

    /// The node of `entity` in the hierarchy: its shown name and its
    /// children.
    fn entity_node(&self, entity: u64) -> (r: (u64, String, Vec<u64>))
        requires
            self.wf(),
        ensures
            node_view(r) == (entity, shown_name(self@.names, entity), children_of(self@.hierarchy, entity)),
    {
        let name = match self.get_entity_name(entity) {
            Some(n) => n,
            None => String::from_str("Unnamed"),
        };
        (entity, name, self.get_children(entity))
    }

    /// The hierarchy: one node for each root entity.
    fn entity_hierarchy(&self) -> (r: Vec<(u64, String, Vec<u64>)>)
        requires
            self.wf(),
        ensures
            forall|i: int|
                0 <= i < r@.len() ==> node_view(#[trigger] r@[i]) == (
                    r@[i].0,
                    shown_name(self@.names, r@[i].0),
                    children_of(self@.hierarchy, r@[i].0),
                ),
            node_ids(r@).no_duplicates(),
            forall|e: u64| node_ids(r@).contains(e) <==> (self@.names.contains_key(e) && !is_child(self@.hierarchy, e)),
    {
        let roots = self.get_root_entities();
        let mut out: Vec<(u64, String, Vec<u64>)> = Vec::new();
        let mut i: usize = 0;
        while i < roots.len()
            invariant
                self.wf(),
                i <= roots@.len(),
                node_ids(out@) == roots@.take(i as int),
                forall|k: int|
                    0 <= k < out@.len() ==> node_view(#[trigger] out@[k]) == (
                        out@[k].0,
                        shown_name(self@.names, out@[k].0),
                        children_of(self@.hierarchy, out@[k].0),
                    ),
            decreases roots@.len() - i,
        {
            let node = self.entity_node(roots[i]);
            let ghost before = out@;
            out.push(node);
            proof {
                assert(node_ids(out@) =~= node_ids(before).push(roots@[i as int]));
                assert(roots@.take(i + 1) =~= roots@.take(i as int).push(roots@[i as int]));
            }
            i = i + 1;
        }
        proof {
            assert(roots@.take(i as int) =~= roots@);
        }
        out
    }
}



/// The names and hierarchy of the entities an editor works on.
pub struct EditorState {
    tables: EntityTables,
}

impl View for EditorState {
    type V = EditorView;

    closed spec fn view(&self) -> EditorView {
        self.tables@
    }
}

impl EditorState {
    /// The lists hold one entry per entity and per parent.
    #[verifier::type_invariant]
    spec fn tables_wf(self) -> bool {
        self.tables.wf()
    }

    /// No entities.
    pub fn new() -> (r: Self)
        ensures
            r@.names == Map::<u64, Seq<char>>::empty(),
            r@.hierarchy == Map::<u64, Seq<u64>>::empty(),
    {
        EditorState { tables: EntityTables::new() }
    }

    /// Names `entity`, replacing any name it had.
    pub fn register_entity(&mut self, entity: u64, name: String)
        ensures
            final(self)@.names == old(self)@.names.insert(entity, name@),
            final(self)@.hierarchy == old(self)@.hierarchy,
    {
        proof {
            use_type_invariant(&*self);
        }
        let mut t = EntityTables::new();
        std::mem::swap(&mut t, &mut self.tables);
        t.register_entity(entity, name);
        self.tables = t;
    }

    /// The name of `entity`, if it has one.
    pub fn get_entity_name(&self, entity: u64) -> (r: Option<String>)
        ensures
            match r {
                Some(s) => self@.names.contains_key(entity) && s@ == self@.names[entity],
                None => !self@.names.contains_key(entity),
            },
    {
        proof {
            use_type_invariant(self);
        }
        self.tables.get_entity_name(entity)
    }

    /// An entity named `name`, if there is one. Where several are, any of
    /// them.
    pub fn get_entity_by_name(&self, name: &str) -> (r: Option<u64>)
        ensures
            match r {
                Some(e) => self@.names.contains_key(e) && self@.names[e] == name@,
                None => !name_taken(self@.names, name@),
            },
    {
        proof {
            use_type_invariant(self);
        }
        self.tables.get_entity_by_name(name)
    }

    /// Renames `entity` to `new_name`, unless some entity already has that
    /// name.
    pub fn rename_entity(&mut self, entity: u64, new_name: String) -> (r: Result<(), String>)
        ensures
            name_taken(old(self)@.names, new_name@) ==> (r matches Err(m) && m@ == "Entity with name '"@
                + new_name@ + "' already exists"@ && final(self)@ == old(self)@),
            !name_taken(old(self)@.names, new_name@) ==> (r is Ok && final(self)@.names == old(
                self,
            )@.names.insert(entity, new_name@) && final(self)@.hierarchy == old(self)@.hierarchy),
    {
        proof {
            use_type_invariant(&*self);
        }
        let mut t = EntityTables::new();
        std::mem::swap(&mut t, &mut self.tables);
        let r = t.rename_entity(entity, new_name);
        self.tables = t;
        r
    }

    /// Adds `child` to the children of `parent`.
    pub fn add_child(&mut self, parent: u64, child: u64)
        ensures
            final(self)@.names == old(self)@.names,
            final(self)@.hierarchy == old(self)@.hierarchy.insert(
                parent,
                children_of(old(self)@.hierarchy, parent).push(child),
            ),
    {
        proof {
            use_type_invariant(&*self);
        }
        let mut t = EntityTables::new();
        std::mem::swap(&mut t, &mut self.tables);
        t.add_child(parent, child);
        self.tables = t;
    }

    /// Removes every occurrence of `child` from the children of `parent`.
    pub fn remove_child(&mut self, parent: u64, child: u64)
        ensures
            final(self)@.names == old(self)@.names,
            final(self)@.hierarchy == if old(self)@.hierarchy.contains_key(parent) {
                old(self)@.hierarchy.insert(parent, without(old(self)@.hierarchy[parent], child))
            } else {
                old(self)@.hierarchy
            },
    {
        proof {
            use_type_invariant(&*self);
        }
        let mut t = EntityTables::new();
        std::mem::swap(&mut t, &mut self.tables);
        t.remove_child(parent, child);
        self.tables = t;
    }

    /// Forgets `entity`: its name, its children, and its place among others'
    /// children.
    pub fn unregister_entity(&mut self, entity: u64)
        ensures
            final(self)@.names == old(self)@.names.remove(entity),
            final(self)@.hierarchy == prune(old(self)@.hierarchy, entity),
    {
        proof {
            use_type_invariant(&*self);
        }
        let mut t = EntityTables::new();
        std::mem::swap(&mut t, &mut self.tables);
        t.unregister_entity(entity);
        self.tables = t;
    }

    /// The named entities that are nobody's children, each once.
    pub fn get_root_entities(&self) -> (r: Vec<u64>)
        ensures
            r@.no_duplicates(),
            forall|e: u64| r@.contains(e) <==> (self@.names.contains_key(e) && !is_child(self@.hierarchy, e)),
    {
        proof {
            use_type_invariant(self);
        }
        self.tables.get_root_entities()
    }

    /// Moves `entity` under `parent`: off the first list of children it is
    /// on, if any, then onto the end of `parent`'s, where a parent is given.
    pub fn set_entity_parent(&mut self, entity: u64, parent: Option<u64>)
        ensures
            final(self)@.names == old(self)@.names,
            is_child(old(self)@.hierarchy, entity) ==> exists|p: u64|
                old(self)@.hierarchy.contains_key(p) && #[trigger] old(self)@.hierarchy[p].contains(entity)
                    && final(self)@.hierarchy == attach(
                    old(self)@.hierarchy.insert(p, without(old(self)@.hierarchy[p], entity)),
                    parent,
                    entity,
                ),
            !is_child(old(self)@.hierarchy, entity) ==> final(self)@.hierarchy == attach(
                old(self)@.hierarchy,
                parent,
                entity,
            ),
    {
        proof {
            use_type_invariant(&*self);
        }
        let mut t = EntityTables::new();
        std::mem::swap(&mut t, &mut self.tables);
        t.set_entity_parent(entity, parent);
        self.tables = t;
    }

    /// A name for a new entity that no entity has: `base` where it is free,
    /// else `base_1`, `base_2`, ..., the first that is free.
    pub fn generate_entity_name(&self, base: &str) -> (r: String)
        ensures
            exists|k: nat|
                r@ == candidate(base@, k) && forall|j: nat| j < k ==> name_taken(self@.names, #[trigger] candidate(base@, j)),
            !name_taken(self@.names, r@),
    {
        proof {
            use_type_invariant(self);
        }
        self.tables.generate_entity_name(base)
    }

    /// The children of `entity`, in the order added.
    pub fn get_children(&self, entity: u64) -> (r: Vec<u64>)
        ensures
            r@ == children_of(self@.hierarchy, entity),
    {
        proof {
            use_type_invariant(self);
        }
        self.tables.get_children(entity)
    }

    /// The node of `entity` in the hierarchy: its shown name and its
    /// children.
    pub fn entity_node(&self, entity: u64) -> (r: (u64, String, Vec<u64>))
        ensures
            node_view(r) == (entity, shown_name(self@.names, entity), children_of(self@.hierarchy, entity)),
    {
        proof {
            use_type_invariant(self);
        }
        self.tables.entity_node(entity)
    }

    /// The hierarchy: one node for each root entity.
    pub fn entity_hierarchy(&self) -> (r: Vec<(u64, String, Vec<u64>)>)
        ensures
            forall|i: int|
                0 <= i < r@.len() ==> node_view(#[trigger] r@[i]) == (
                    r@[i].0,
                    shown_name(self@.names, r@[i].0),
                    children_of(self@.hierarchy, r@[i].0),
                ),
            node_ids(r@).no_duplicates(),
            forall|e: u64| node_ids(r@).contains(e) <==> (self@.names.contains_key(e) && !is_child(self@.hierarchy, e)),
    {
        proof {
            use_type_invariant(self);
        }
        self.tables.entity_hierarchy()
    }

    /// Deletes `entity` and its subtree to a depth of `fuel`; gives the
    /// deleted entities in the order they went.
    fn delete_tree(&mut self, entity: u64, fuel: usize) -> (r: Vec<u64>)
        ensures
            final(self)@ == delete_spec(old(self)@, entity, fuel as nat).0,
            r@ == delete_spec(old(self)@, entity, fuel as nat).1,
        decreases fuel,
    {
        if fuel == 0 {
            return Vec::new();
        }
        let ghost v0 = self@;
        let children = self.get_children(entity);
        let mut order: Vec<u64> = Vec::new();
        let mut i: usize = 0;
        while i < children.len()
            invariant
                1 <= fuel,
                i <= children@.len(),
                children@ == children_of(v0.hierarchy, entity),
                self@ == delete_list_spec(v0, children@.take(i as int), (fuel - 1) as nat).0,
                order@ == delete_list_spec(v0, children@.take(i as int), (fuel - 1) as nat).1,
            decreases children@.len() - i,
        {
            proof {
                assert(children@.take(i + 1).drop_last() =~= children@.take(i as int));
                assert(children@.take(i + 1).last() == children@[i as int]);
            }
            let mut sub = self.delete_tree(children[i], fuel - 1);
            order.append(&mut sub);
            i = i + 1;
        }
        proof {
            assert(children@.take(i as int) =~= children@);
        }
        self.unregister_entity(entity);
        order.push(entity);
        order
    }

    /// Deletes `entity` and everything under it: each child's subtree in
    /// turn, in the order the children are listed, then `entity` itself.
    /// Gives the deleted entities in the order they went, for the caller to
    /// despawn.
    pub fn remove_subtree(&mut self, entity: u64) -> (r: Vec<u64>)
        ensures
            final(self)@ == delete_spec(old(self)@, entity, usize::MAX as nat).0,
            r@ == delete_spec(old(self)@, entity, usize::MAX as nat).1,
            final(self)@.names == old(self)@.names.remove_keys(r@.to_set()),
    {
        proof {
            lemma_delete_names(self@, entity, usize::MAX as nat);
        }
        self.delete_tree(entity, usize::MAX)
    }
}

/// Different indices give different names to try.
pub proof fn lemma_candidate_injective(base: Seq<char>, a: nat, b: nat)
    requires
        candidate(base, a) == candidate(base, b),
    ensures
        a == b,
{
    lemma_decimal_len(a);
    lemma_decimal_len(b);
    if a > 0 && b > 0 {
        let pre = base + "_"@;
        assert(candidate(base, a).subrange(pre.len() as int, candidate(base, a).len() as int) =~= decimal(a));
        assert(candidate(base, b).subrange(pre.len() as int, candidate(base, b).len() as int) =~= decimal(b));
        lemma_decimal_injective(a, b);
    } else if a > 0 || b > 0 {
        assert(candidate(base, a).len() != candidate(base, b).len());
    }
}

/// An entity named `candidate(base, j)`, where there is one.
pub open spec fn name_owner(names: Map<u64, Seq<char>>, base: Seq<char>, j: nat) -> u64 {
    choose|e: u64| names.contains_key(e) && #[trigger] names[e] == candidate(base, j)
}

/// Where the first `m` names to try are all taken, there are at least `m`
/// entities.
pub proof fn lemma_candidates_fit(names: Map<u64, Seq<char>>, base: Seq<char>, m: nat)
    requires
        names.dom().finite(),
        forall|j: nat| j < m ==> name_taken(names, #[trigger] candidate(base, j)),
    ensures
        m <= names.len(),
{
    let img = Set::new(|e: u64| exists|j: nat| j < m && #[trigger] name_owner(names, base, j) == e);
    lemma_image_len(names, base, m);
    assert(img.subset_of(names.dom())) by {
        assert forall|e: u64| img.contains(e) implies names.dom().contains(e) by {
            let j = choose|j: nat| j < m && #[trigger] name_owner(names, base, j) == e;
            assert(name_taken(names, candidate(base, j)));
        }
    }
    vstd::set_lib::lemma_len_subset(img, names.dom());
}

/// The entities that hold the first `m` names to try are `m` different ones.
proof fn lemma_image_len(names: Map<u64, Seq<char>>, base: Seq<char>, m: nat)
    requires
        forall|j: nat| j < m ==> name_taken(names, #[trigger] candidate(base, j)),
    ensures
        ({
                    let img = Set::new(|e: u64| exists|j: nat| j < m && #[trigger] name_owner(names, base, j) == e);
            img.finite() && img.len() == m
        }),
    decreases m,
{
    let img = Set::new(|e: u64| exists|j: nat| j < m && #[trigger] name_owner(names, base, j) == e);
    if m == 0 {
        assert(img =~= Set::<u64>::empty());
    } else {
        let m1 = (m - 1) as nat;
        lemma_image_len(names, base, m1);
        let prev = Set::new(|e: u64| exists|j: nat| j < m1 && #[trigger] name_owner(names, base, j) == e);
        assert(name_taken(names, candidate(base, m1)));
        let last = name_owner(names, base, m1);
        assert(names[last] == candidate(base, m1));
        assert(!prev.contains(last)) by {
            if prev.contains(last) {
                let j = choose|j: nat| j < m1 && #[trigger] name_owner(names, base, j) == last;
                assert(name_taken(names, candidate(base, j)));
                assert(names[name_owner(names, base, j)] == candidate(base, j));
                lemma_candidate_injective(base, j, m1);
            }
        }
        assert(img =~= prev.insert(last));
    }
}

/// Forgetting an entity leaves it nobody's child, with no children of its
/// own.
pub proof fn lemma_unregistered_detached(h: Map<u64, Seq<u64>>, e: u64)
    ensures
        !prune(h, e).contains_key(e),
        !is_child(prune(h, e), e),
{
    if is_child(prune(h, e), e) {
        let p = choose|p: u64| prune(h, e).contains_key(p) && #[trigger] prune(h, e)[p].contains(e);
        lemma_without_absent(h[p], e);
    }
}

/// What a sequence with one more element at its end contains.
pub proof fn lemma_push_contains(s: Seq<u64>, a: u64, y: u64)
    ensures
        s.push(a).contains(y) <==> (s.contains(y) || a == y),
{
    let t = s.push(a);
    if t.contains(y) {
        let i = choose|i: int| 0 <= i < t.len() && t[i] == y;
        if i < s.len() {
            assert(s[i] == y);
        }
    }
    if s.contains(y) {
        let i = choose|i: int| 0 <= i < s.len() && s[i] == y;
        assert(t[i] == y);
    }
    if a == y {
        assert(t[s.len() as int] == y);
    }
}

/// `without(s, x)` holds no `x`, and keeps every other element of `s`.
pub proof fn lemma_without_absent(s: Seq<u64>, x: u64)
    ensures
        !without(s, x).contains(x),
        forall|y: u64| y != x ==> (without(s, x).contains(y) <==> s.contains(y)),
    decreases s.len(),
{
    if s.len() > 0 {
        let init = s.drop_last();
        let l = s.last();
        lemma_without_absent(init, x);
        assert(s =~= init.push(l));
        let w = without(init, x);
        lemma_push_contains(w, l, x);
        assert forall|y: u64| y != x implies (without(s, x).contains(y) <==> s.contains(y)) by {
            lemma_push_contains(init, l, y);
            lemma_push_contains(w, l, y);
        }
    }
}

/// Naming an entity with a name nobody has keeps names distinct: the names
/// that `generate_entity_name` gives never clash.
pub proof fn lemma_fresh_name_keeps_distinct(names: Map<u64, Seq<char>>, e: u64, name: Seq<char>)
    requires
        names_distinct(names),
        !name_taken(names, name),
    ensures
        names_distinct(names.insert(e, name)),
{
    let m = names.insert(e, name);
    assert forall|a: u64, b: u64| m.contains_key(a) && m.contains_key(b) && a != b implies #[trigger] m[a]
        != #[trigger] m[b] by {
        if a != e && b != e {
            assert(names[a] != names[b]);
        } else if a == e {
            assert(names[b] == m[b]);
        } else {
            assert(names[a] == m[a]);
        }
    }
}

} // verus!
