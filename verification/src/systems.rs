//! Systems: the registry of objects, the writeback of proposed trait updates, and the
//! order in which systems run.

use vstd::prelude::*;
use std::collections::{HashMap, HashSet};
use crate::actions::result::{update_views, ActionResult, TraitUpdate, TraitUpdateView};
use crate::error::{error_text, OatsError};
use crate::text::views;
use crate::ids::{hyphenated, id_text, parse_id, uuid_parse, ObjectId};
use crate::objects::{lemma_apply_keeps_other_traits, object_after_apply, superseding_trait, Object, ObjectView};

verus! {

/// Priority levels for system operations, lowest first.
#[derive(Clone, Copy, Debug, PartialEq, Eq, Structural, PartialOrd, Ord, Hash)]
pub enum Priority {
    Low,
    Normal,
    High,
    Critical,
}

/// The level of a priority: 1 for `Low` up to 4 for `Critical`.
pub open spec fn priority_level(p: Priority) -> int {
    match p {
        Priority::Low => 1,
        Priority::Normal => 2,
        Priority::High => 3,
        Priority::Critical => 4,
    }
}

impl Priority {
    /// The level of this priority: 1 for `Low` up to 4 for `Critical`.
    pub fn level(&self) -> (r: u8)
        ensures
            r == priority_level(*self),
    {
        match self {
            Priority::Low => 1,
            Priority::Normal => 2,
            Priority::High => 3,
            Priority::Critical => 4,
        }
    }
}

impl Default for Priority {
    fn default() -> (p: Self)
        ensures
            p == Priority::Normal,
    {
        Priority::Normal
    }
}

/// Whether the system at index `a` runs before the system at index `b`: higher
/// priority first, and between equal priorities the one listed first.
pub open spec fn runs_before(priorities: Seq<Priority>, a: int, b: int) -> bool {
    ||| priority_level(priorities[a]) > priority_level(priorities[b])
    ||| (priority_level(priorities[a]) == priority_level(priorities[b]) && a < b)
}

/// The order in which to run systems with the given priorities: every index once,
/// highest priority first, and systems of equal priority in the order listed (a stable
/// sort by descending priority).
pub fn processing_order(priorities: &Vec<Priority>) -> (order: Vec<usize>)
    ensures
        order.len() == priorities.len(),
        order@.no_duplicates(),
        forall|i: int| 0 <= i < order.len() ==> #[trigger] order@[i] < priorities.len(),
        forall|i: int, j: int|
            0 <= i < j < order.len() ==> runs_before(priorities@, #[trigger] order@[i] as int, #[trigger] order@[j] as int),
{
    let n = priorities.len();
    let mut order: Vec<usize> = Vec::new();
    let mut k: usize = 0;
    while k < n
        invariant
            n == priorities.len(),
            k <= n,
            order.len() == k,
            order@.no_duplicates(),
            forall|i: int| 0 <= i < order.len() ==> #[trigger] order@[i] < k,
            forall|i: int, j: int|
                0 <= i < j < order.len() ==> runs_before(priorities@, #[trigger] order@[i] as int, #[trigger] order@[j] as int),
        decreases n - k,
    {
        let level = priorities[k].level();
        let mut pos: usize = 0;
        while pos < order.len() && priorities[order[pos]].level() >= level
            invariant
                n == priorities.len(),
                k < n,
                pos <= order.len(),
                level == priority_level(priorities@[k as int]),
                forall|i: int| 0 <= i < order.len() ==> #[trigger] order@[i] < k,
                forall|j: int| 0 <= j < pos ==> priority_level(priorities@[#[trigger] order@[j] as int]) >= level,
            decreases order.len() - pos,
        {
            pos = pos + 1;
        }
        let ghost before = order@;
        order.insert(pos, k);
        proof {
            assert(order@ == before.insert(pos as int, k));
            assert forall|i: int| 0 <= i < order.len() implies #[trigger] order@[i] < k + 1 by {
                if i < pos {
                    assert(order@[i] == before[i]);
                } else if i > pos {
                    assert(order@[i] == before[i - 1]);
                }
            }
            assert(order@.no_duplicates()) by {
                assert forall|a: int, b: int| 0 <= a < order.len() && 0 <= b < order.len() && a != b implies order@[a] != order@[b] by {
                    if a != pos && b != pos {
                        let a0 = if a < pos { a } else { a - 1 };
                        let b0 = if b < pos { b } else { b - 1 };
                        assert(order@[a] == before[a0] && order@[b] == before[b0]);
                    } else if a == pos {
                        let b0 = if b < pos { b } else { b - 1 };
                        assert(order@[b] == before[b0]);
                    } else {
                        let a0 = if a < pos { a } else { a - 1 };
                        assert(order@[a] == before[a0]);
                    }
                }
            }
            if pos < before.len() {
                assert(priority_level(priorities@[before[pos as int] as int]) < level);
            }
            assert forall|i: int, j: int| 0 <= i < j < order.len() implies runs_before(
                priorities@,
                #[trigger] order@[i] as int,
                #[trigger] order@[j] as int,
            ) by {
                if j < pos {
                    assert(order@[i] == before[i] && order@[j] == before[j]);
                } else if j == pos {
                    assert(order@[i] == before[i]);
                    assert(before[i] < k);
                } else if i == pos {
                    assert(order@[j] == before[j - 1]);
                    if j - 1 > pos {
                        assert(runs_before(priorities@, before[pos as int] as int, before[j - 1] as int));
                    }
                } else if i < pos {
                    assert(order@[i] == before[i] && order@[j] == before[j - 1]);
                } else {
                    assert(order@[i] == before[i - 1] && order@[j] == before[j - 1]);
                }
            }
        }
        k = k + 1;
    }
    order
}

/// Outcome of a writeback pass.
#[derive(Clone, Copy, Debug, PartialEq, Eq, Structural)]
pub struct ApplyReport {
    /// Number of trait values written to the registry
    pub traits_applied: usize,
    /// Number of distinct objects that received at least one trait
    pub objects_updated: usize,
    /// Number of failed results whose updates were deliberately not applied
    pub results_skipped: usize,
}

impl Default for ApplyReport {
    fn default() -> (r: Self)
        ensures
            r.traits_applied == 0,
            r.objects_updated == 0,
            r.results_skipped == 0,
    {
        ApplyReport { traits_applied: 0, objects_updated: 0, results_skipped: 0 }
    }
}

impl ApplyReport {
    /// True when the pass wrote nothing
    pub fn is_empty(&self) -> (r: bool)
        ensures
            r == (self.traits_applied == 0),
    {
        self.traits_applied == 0
    }
}

/// The registry after each update is written back in turn: the named object takes the
/// proposed trait, superseding the trait of the same name.
pub open spec fn registry_after(m: Map<ObjectId, ObjectView>, updates: Seq<TraitUpdateView>) -> Map<ObjectId, ObjectView>
    decreases updates.len(),
{
    if updates.len() == 0 {
        m
    } else {
        let before = registry_after(m, updates.drop_last());
        let u = updates.last();
        before.insert(u.target, object_after_apply(before[u.target], u.trait_value))
    }
}

/// The object registered under the identifier written `text`: the identifier that
/// `uuid::Uuid::try_parse` reads from `text`, provided `text` is its hyphenated
/// lowercase form (the form objects are registered under).
pub open spec fn lookup_text(m: Map<ObjectId, ObjectView>, text: Seq<char>) -> Option<ObjectView> {
    match uuid_parse(text) {
        Some(u) => if m.contains_key(u) && hyphenated(u) == text {
            Some(m[u])
        } else {
            None
        },
        None => None,
    }
}

/// Every update names an object the registry holds.
pub open spec fn all_targets_known(m: Map<ObjectId, ObjectView>, updates: Seq<TraitUpdateView>) -> bool {
    forall|i: int| 0 <= i < updates.len() ==> m.contains_key(#[trigger] updates[i].target)
}

/// The update at `i` is the first that names an object the registry does not hold.
pub open spec fn first_unknown(m: Map<ObjectId, ObjectView>, updates: Seq<TraitUpdateView>, i: int) -> bool {
    &&& 0 <= i < updates.len()
    &&& !m.contains_key(updates[i].target)
    &&& forall|j: int| 0 <= j < i ==> m.contains_key(#[trigger] updates[j].target)
}

/// The objects the updates name.
pub open spec fn targets(updates: Seq<TraitUpdateView>) -> Set<ObjectId> {
    updates.map_values(|u: TraitUpdateView| u.target).to_set()
}

/// The updates carried by the successful results, in order.
pub open spec fn pending_updates(results: Seq<ActionResult>) -> Seq<TraitUpdateView>
    decreases results.len(),
{
    if results.len() == 0 {
        Seq::empty()
    } else {
        let last = results.last();
        pending_updates(results.drop_last()) + if last.success {
            update_views(last.trait_updates@)
        } else {
            Seq::empty()
        }
    }
}

/// The number of failed results.
pub open spec fn failed_results(results: Seq<ActionResult>) -> nat
    decreases results.len(),
{
    if results.len() == 0 {
        0
    } else {
        failed_results(results.drop_last()) + if results.last().success { 0nat } else { 1nat }
    }
}

broadcast use vstd::std_specs::hash::group_hash_axioms;

/// The registry of objects a host keeps, and the writeback of proposed updates into it.
///
/// Actions read objects and propose `TraitUpdate`s; only `apply` and `apply_updates`
/// write to the registry.
pub struct SystemManager {
    registry: HashMap<ObjectId, Object>,
}

impl View for SystemManager {
    type V = Map<ObjectId, ObjectView>;

    closed spec fn view(&self) -> Map<ObjectId, ObjectView> {
        self.registry@.map_values(|o: Object| o@)
    }
}

impl SystemManager {
    #[verifier::type_invariant]
    spec fn inv(&self) -> bool {
        forall|k: ObjectId| #[trigger] self.registry@.contains_key(k) ==> self.registry@[k]@.id == k
    }

    /// Create a manager with an empty registry
    pub fn new() -> (m: Self)
        ensures
            m@ == Map::<ObjectId, ObjectView>::empty(),
    {
        let m = SystemManager { registry: HashMap::with_capacity(100) };
        proof {
            assert(m@ =~= Map::<ObjectId, ObjectView>::empty());
        }
        m
    }

    /// Create a manager with an empty registry that has room for `expected_objects`
    pub fn with_capacity(expected_objects: usize) -> (m: Self)
        ensures
            m@ == Map::<ObjectId, ObjectView>::empty(),
    {
        let m = SystemManager { registry: HashMap::with_capacity(expected_objects) };
        proof {
            assert(m@ =~= Map::<ObjectId, ObjectView>::empty());
        }
        m
    }

    /// Register an object under its identifier, replacing any object registered there
    pub fn register_object(&mut self, object: Object)
        ensures
            final(self)@ == old(self)@.insert(object@.id, object@),
            old(self)@.dom().finite(),
            final(self)@.dom().finite(),
    {
        proof {
            use_type_invariant(&*self);
        }
        let mut registry = HashMap::new();
        std::mem::swap(&mut registry, &mut self.registry);
        let ghost ov = object@;
        registry.insert(object.id(), object);
        std::mem::swap(&mut registry, &mut self.registry);
        proof {
            assert(self@ =~= old(self)@.insert(ov.id, ov));
            assert(old(self)@.dom() =~= old(self).registry@.dom());
            assert(self@.dom() =~= self.registry@.dom());
        }
    }

    /// A copy of the object registered under `id`
    pub fn get_registered(&self, id: ObjectId) -> (r: Option<Object>)
        ensures
            match r {
                Some(o) => self@.contains_key(id) && o@ == self@[id],
                None => !self@.contains_key(id),
            },
    {
        match self.registry.get(&id) {
            Some(o) => Some(o.clone()),
            None => None,
        }
    }

    /// A copy of the object registered under the identifier written `id`.
    ///
    /// Objects are registered under the hyphenated lowercase text of their identifier,
    /// so `id` finds an object exactly when it is that text.
    pub fn get_object(&self, id: &str) -> (r: Option<Object>)
        ensures
            match r {
                Some(o) => lookup_text(self@, id@) == Some(o@),
                None => lookup_text(self@, id@) is None,
            },
    {
        match parse_id(id) {
            Some(u) => {
                let text = id_text(u);
                let wanted = id.to_owned();
                if text == wanted {
                    self.get_registered(u)
                } else {
                    None
                }
            },
            None => None,
        }
    }

    /// Copies of all registered objects, each once, in no particular order
    pub fn get_all_objects(&self) -> (r: Vec<Object>)
        ensures
            r.len() == self@.len(),
            forall|i: int| 0 <= i < r.len() ==> self@.contains_key(#[trigger] r@[i]@.id) && r@[i]@ == self@[r@[i]@.id],
            forall|i: int, j: int| 0 <= i < j < r.len() ==> (#[trigger] r@[i])@.id != (#[trigger] r@[j])@.id,
    {
        proof {
            use_type_invariant(self);
        }
        let mut r: Vec<Object> = Vec::new();
        for k in it: self.registry.keys()
            invariant
                r.len() == it.index(),
                forall|i: int| 0 <= i < r.len() ==> #[trigger] r@[i]@.id == *it.seq()[i],
                forall|i: int| 0 <= i < r.len() ==> self@.contains_key(#[trigger] r@[i]@.id) && r@[i]@ == self@[r@[i]@.id],
                it.seq().no_duplicates(),
                it.seq().unref().to_set() == self.registry@.dom(),
                it.seq().len() == self.registry@.dom().len(),
        {
            proof {
                use_type_invariant(self);
                assert(*k == *it.seq()[it.index()]);
                assert(it.seq().unref()[it.index()] == *k);
                assert(it.seq().unref().contains(*k));
                assert(self.registry@.contains_key(*k));
            }
            match self.registry.get(k) {
                Some(o) => {
                    let c = o.clone();
                    proof {
                        assert(c@ == self.registry@[*k]@);
                        assert(self.registry@[*k]@.id == *k);
                        assert(self@[*k] == c@);
                    }
                    r.push(c);
                },
                None => {},
            }
        }
        proof {
            assert(self@.dom() =~= self.registry@.dom());
        }
        r
    }

    /// Get the number of registered objects
    pub fn object_count(&self) -> (n: usize)
        ensures
            n == self@.len(),
            self@.dom().finite(),
    {
        proof {
            assert(self@.dom() =~= self.registry@.dom());
        }
        self.registry.len()
    }

    /// Clear all objects
    pub fn clear_objects(&mut self)
        ensures
            final(self)@ == Map::<ObjectId, ObjectView>::empty(),
    {
        let mut registry = HashMap::new();
        std::mem::swap(&mut registry, &mut self.registry);
        registry.clear();
        std::mem::swap(&mut registry, &mut self.registry);
        proof {
            assert(self@ =~= Map::<ObjectId, ObjectView>::empty());
        }
    }

    /// Reserve capacity for objects; the registry stays as it is
    pub fn reserve_objects(&mut self, additional: usize)
        ensures
            final(self)@ == old(self)@,
    {
        proof {
            use_type_invariant(&*self);
        }
        let mut registry = HashMap::new();
        std::mem::swap(&mut registry, &mut self.registry);
        registry.reserve(additional);
        std::mem::swap(&mut registry, &mut self.registry);
    }
}

proof fn lemma_targets_push(updates: Seq<TraitUpdateView>, u: TraitUpdateView)
    ensures
        targets(updates.push(u)) == targets(updates).insert(u.target),
{
    let f = |v: TraitUpdateView| v.target;
    assert(updates.push(u).map_values(f) =~= updates.map_values(f).push(u.target));
    let a = updates.map_values(f);
    assert forall|t: ObjectId| a.push(u.target).to_set().contains(t) == a.to_set().insert(u.target).contains(t) by {
        if a.push(u.target).contains(t) {
            let j = choose|j: int| 0 <= j < a.push(u.target).len() && a.push(u.target)[j] == t;
            if j < a.len() {
                assert(a[j] == t);
            }
        }
        if a.contains(t) {
            let j = choose|j: int| 0 <= j < a.len() && a[j] == t;
            assert(a.push(u.target)[j] == t);
        }
        assert(a.push(u.target)[a.len() as int] == u.target);
    }
    assert(a.push(u.target).to_set() =~= a.to_set().insert(u.target));
}

proof fn lemma_registry_after_keeps_keys(m: Map<ObjectId, ObjectView>, updates: Seq<TraitUpdateView>)
    requires
        all_targets_known(m, updates),
    ensures
        registry_after(m, updates).dom() == m.dom(),
    decreases updates.len(),
{
    if updates.len() > 0 {
        let init = updates.drop_last();
        assert(all_targets_known(m, init)) by {
            assert forall|i: int| 0 <= i < init.len() implies m.contains_key(#[trigger] init[i].target) by {
                assert(init[i] == updates[i]);
            }
        }
        lemma_registry_after_keeps_keys(m, init);
        assert(m.contains_key(updates[updates.len() - 1].target));
        assert(registry_after(m, updates).dom() =~= m.dom());
    }
}

impl SystemManager {
    /// Apply trait updates directly, in order, without going through an `ActionResult`.
    ///
    /// All or nothing: if any update names an object the registry does not hold,
    /// nothing is written and the first such object is reported as not found.
    pub fn apply_updates(&mut self, updates: Vec<TraitUpdate>) -> (r: Result<ApplyReport, OatsError>)
        ensures
            all_targets_known(old(self)@, update_views(updates@)) ==> (r matches Ok(report)
                && report.traits_applied == updates.len()
                && report.objects_updated == targets(update_views(updates@)).len()
                && report.results_skipped == 0
                && final(self)@ == registry_after(old(self)@, update_views(updates@))),
            !all_targets_known(old(self)@, update_views(updates@)) ==> (final(self)@ == old(self)@
                && exists|i: int| first_unknown(old(self)@, update_views(updates@), i)
                    && (r matches Err(OatsError::ObjectNotFound { id }) && id@ == hyphenated(updates@[i].target))),
    {
        broadcast use vstd::std_specs::hash::group_hash_axioms;
        let ghost ups = update_views(updates@);
        let ghost start = self@;
        let n = updates.len();
        if n == 0 {
            proof {
                assert(targets(ups) =~= Set::<ObjectId>::empty());
            }
            return Ok(ApplyReport::default());
        }
        proof {
            use_type_invariant(&*self);
        }
        // Verify every target first so a bad update cannot half-write the batch.
        let mut i: usize = 0;
        while i < n
            invariant
                n == updates.len(),
                ups == update_views(updates@),
                start == self@,
                i <= n,
                forall|j: int| 0 <= j < i ==> start.contains_key(#[trigger] ups[j].target),
            decreases n - i,
        {
            let target = updates[i].target;
            if !self.registry.contains_key(&target) {
                proof {
                    assert(self@.dom() =~= self.registry@.dom());
                    assert(first_unknown(start, ups, i as int));
                }
                let text = id_text(target);
                return Err(OatsError::object_not_found(text.as_str()));
            }
            proof {
                assert(self@.dom() =~= self.registry@.dom());
            }
            i = i + 1;
        }
        proof {
            assert(all_targets_known(start, ups));
        }
        let mut registry = HashMap::new();
        std::mem::swap(&mut registry, &mut self.registry);
        let mut touched: HashSet<ObjectId> = HashSet::new();
        let mut rest = updates;
        let mut k: usize = 0;
        proof {
            assert(ups.take(0) =~= Seq::<TraitUpdateView>::empty());
            assert(targets(ups.take(0)) =~= Set::<ObjectId>::empty());
            assert(registry@.map_values(|o: Object| o@) == start);
        }
        while k < n
            invariant
                n == ups.len(),
                k <= n,
                rest.len() == n - k,
                forall|j: int| 0 <= j < rest.len() ==> (#[trigger] rest@[j])@ == ups[k + j],
                all_targets_known(start, ups),
                forall|t: ObjectId| #[trigger] registry@.contains_key(t) ==> registry@[t]@.id == t,
                registry@.dom() == start.dom(),
                registry@.map_values(|o: Object| o@) == registry_after(start, ups.take(k as int)),
                touched@ == targets(ups.take(k as int)),
            decreases n - k,
        {
            let update = rest.remove(0);
            let target = update.target;
            let ghost uv = update@;
            proof {
                assert(uv == ups[k as int]);
                assert(start.contains_key(ups[k as int].target));
                assert(ups.take(k + 1).drop_last() =~= ups.take(k as int));
                assert(ups.take(k + 1).last() == uv);
                assert(ups.take(k as int).push(uv) =~= ups.take(k + 1));
                lemma_targets_push(ups.take(k as int), uv);
            }
            let ghost before = registry@;
            let mut object = registry.remove(&target).unwrap();
            proof {
                assert(object@ == registry_after(start, ups.take(k as int))[target]);
            }
            object.apply_trait(update.into_trait());
            registry.insert(target, object);
            touched.insert(target);
            proof {
                assert(registry@.dom() =~= start.dom());
                assert(registry@.map_values(|o: Object| o@) =~= registry_after(start, ups.take(k + 1)));
            }
            k = k + 1;
        }
        std::mem::swap(&mut registry, &mut self.registry);
        proof {
            assert(ups.take(n as int) =~= ups);
        }
        let objects_updated = touched.len();
        Ok(ApplyReport { traits_applied: n, objects_updated, results_skipped: 0 })
    }
}

impl SystemManager {
    /// Apply the trait updates proposed by successful action results.
    ///
    /// Updates carried by failed results are never applied; they are counted in
    /// `results_skipped` instead. The updates of the successful results are written as
    /// by `apply_updates`, all or nothing.
    pub fn apply(&mut self, results: &[ActionResult]) -> (r: Result<ApplyReport, OatsError>)
        ensures
            ({
                let ups = pending_updates(results@);
                &&& all_targets_known(old(self)@, ups) ==> (r matches Ok(report)
                    && report.traits_applied == ups.len()
                    && report.objects_updated == targets(ups).len()
                    && report.results_skipped == failed_results(results@)
                    && final(self)@ == registry_after(old(self)@, ups))
                &&& !all_targets_known(old(self)@, ups) ==> (final(self)@ == old(self)@
                    && exists|i: int| first_unknown(old(self)@, ups, i)
                        && (r matches Err(OatsError::ObjectNotFound { id }) && id@ == hyphenated(ups[i].target)))
            }),
    {
        let mut skipped: usize = 0;
        let mut updates: Vec<TraitUpdate> = Vec::new();
        let n = results.len();
        let mut i: usize = 0;
        while i < n
            invariant
                n == results@.len(),
                i <= n,
                skipped <= i,
                skipped == failed_results(results@.take(i as int)),
                update_views(updates@) == pending_updates(results@.take(i as int)),
            decreases n - i,
        {
            let result = &results[i];
            proof {
                assert(results@.take(i + 1).drop_last() =~= results@.take(i as int));
                assert(results@.take(i + 1).last() == *result);
            }
            if result.is_success() {
                let m = result.trait_updates.len();
                let mut j: usize = 0;
                let ghost base = update_views(updates@);
                while j < m
                    invariant
                        m == result.trait_updates@.len(),
                        j <= m,
                        update_views(updates@) == base + update_views(result.trait_updates@).take(j as int),
                    decreases m - j,
                {
                    let c = result.trait_updates[j].clone();
                    let ghost prev = update_views(updates@);
                    updates.push(c);
                    proof {
                        assert(update_views(updates@) =~= prev.push(c@));
                        assert(update_views(result.trait_updates@).take(j + 1) =~= update_views(
                            result.trait_updates@,
                        ).take(j as int).push(result.trait_updates@[j as int]@));
                    }
                    j = j + 1;
                }
                proof {
                    assert(update_views(result.trait_updates@).take(m as int) =~= update_views(result.trait_updates@));
                }
            } else {
                skipped = skipped + 1;
                proof {
                    assert(update_views(updates@) =~= pending_updates(results@.take(i as int)) + Seq::<TraitUpdateView>::empty());
                }
            }
            i = i + 1;
        }
        proof {
            assert(results@.take(n as int) =~= results@);
        }
        match self.apply_updates(updates) {
            Ok(report) => {
                let mut report = report;
                report.results_skipped = skipped;
                Ok(report)
            },
            Err(e) => Err(e),
        }
    }
}

/// Identifier of a system (the 128-bit value of a UUID).
pub type SystemId = u128;

/// The message a failed result records for a system that returned `error`.
pub open spec fn system_error_text(error: OatsError) -> Seq<char> {
    "System error: "@ + error_text(error)
}

/// Records what one system's processing produced: its results on success, or else one
/// failed result whose message names the error, so that one failing system does not
/// stop the others.
pub fn record_outcome(all_results: &mut Vec<ActionResult>, outcome: Result<Vec<ActionResult>, OatsError>)
    ensures
        match outcome {
            Ok(results) => final(all_results)@ == old(all_results)@ + results@,
            Err(error) => {
                &&& final(all_results)@.len() == old(all_results)@.len() + 1
                &&& final(all_results)@.take(old(all_results)@.len() as int) == old(all_results)@
                &&& {
                    let f = final(all_results)@.last();
                    &&& !f.success
                    &&& f.trait_updates@.len() == 0
                    &&& views(f.messages@) == seq![system_error_text(error)]
                    &&& f.data@ == Map::<Seq<char>, serde_json::Value>::empty()
                }
            },
        },
{
    match outcome {
        Ok(results) => {
            let mut results = results;
            all_results.append(&mut results);
        },
        Err(error) => {
            let mut message = "System error: ".to_owned();
            let text = error.describe();
            message.append(text.as_str());
            let failed = ActionResult::failure(message.as_str());
            let ghost before = all_results@;
            all_results.push(failed);
            proof {
                assert(all_results@.take(before.len() as int) =~= before);
                assert(views(all_results@.last().messages@) =~= seq![system_error_text(error)]);
            }
        },
    }
}

/// The error that stops an initialization or shutdown pass at the system named
/// `system_name`, whose `stage` (`initialize` or `shutdown`) returned `error`.
pub fn lifecycle_failure(stage: &str, system_name: &str, error: &OatsError) -> (e: OatsError)
    ensures
        e matches OatsError::SystemError { message } && message@ == "Failed to "@ + stage@ + " system '"@
            + system_name@ + "': "@ + error_text(*error),
{
    let mut message = "Failed to ".to_owned();
    message.append(stage);
    message.append(" system '");
    message.append(system_name);
    message.append("': ");
    let text = error.describe();
    message.append(text.as_str());
    OatsError::SystemError { message }
}

/// One step of an initialization or shutdown pass: the pass goes on after a system whose
/// `stage` succeeded, and stops at the first that failed, with `lifecycle_failure`.
pub fn lifecycle_step(stage: &str, system_name: &str, outcome: Result<(), OatsError>) -> (r: Result<(), OatsError>)
    ensures
        outcome is Ok ==> r is Ok,
        outcome matches Err(error) ==> (r matches Err(OatsError::SystemError { message }) && message@
            == "Failed to "@ + stage@ + " system '"@ + system_name@ + "': "@ + error_text(error)),
{
    match outcome {
        Ok(()) => Ok(()),
        Err(error) => Err(lifecycle_failure(stage, system_name, &error)),
    }
}

/// Whether a system asked for by name may process: it must exist and be ready.
pub fn dispatch_check(system_name: &str, found: bool, ready: bool) -> (r: Result<(), OatsError>)
    ensures
        !found ==> (r matches Err(OatsError::SystemError { message }) && message@ == "System '"@ + system_name@
            + "' not found"@),
        found && !ready ==> (r matches Err(OatsError::SystemError { message }) && message@ == "System is not ready"@),
        found && ready ==> r is Ok,
{
    if !found {
        let mut message = "System '".to_owned();
        message.append(system_name);
        message.append("' not found");
        return Err(OatsError::SystemError { message });
    }
    if !ready {
        return Err(OatsError::system_error("System is not ready"));
    }
    Ok(())
}

impl Default for SystemManager {
    fn default() -> (m: Self)
        ensures
            m@ == Map::<ObjectId, ObjectView>::empty(),
    {
        SystemManager::new()
    }
}

/// Writing back one update gives the named object the proposed trait, with the
/// proposed data, under the proposed name, superseding the trait it replaces; every
/// other object stays as it was.
pub proof fn lemma_apply_writes_proposed_trait(m: Map<ObjectId, ObjectView>, u: TraitUpdateView)
    requires
        m.contains_key(u.target),
    ensures
        ({
            let after = registry_after(m, seq![u]);
            &&& after.dom() == m.dom()
            &&& after[u.target].traits.contains_key(u.trait_value.name)
            &&& after[u.target].traits[u.trait_value.name] == superseding_trait(m[u.target].traits, u.trait_value)
            &&& after[u.target].traits[u.trait_value.name].data == u.trait_value.data
            &&& after[u.target].id == m[u.target].id
            &&& after[u.target].traits.dom() == m[u.target].traits.dom().insert(u.trait_value.name)
            &&& forall|n: Seq<char>| n != u.trait_value.name && #[trigger] m[u.target].traits.contains_key(n)
                ==> after[u.target].traits[n] == m[u.target].traits[n]
            &&& forall|k: ObjectId| k != u.target && #[trigger] m.contains_key(k) ==> after[k] == m[k]
        }),
{
    lemma_apply_keeps_other_traits(m[u.target], u.trait_value);
    let s = seq![u];
    assert(s.drop_last() =~= Seq::<TraitUpdateView>::empty());
    assert(registry_after(m, s.drop_last()) == m);
    assert(s.last() == u);
    assert(registry_after(m, s) == m.insert(u.target, object_after_apply(m[u.target], u.trait_value)));
    assert(registry_after(m, s).dom() =~= m.dom());
}

/// Writing back a trait over one of the same name raises its version by one.
pub proof fn lemma_writeback_supersedes_version(m: Map<ObjectId, ObjectView>, u: TraitUpdateView)
    requires
        m.contains_key(u.target),
        m[u.target].traits.contains_key(u.trait_value.name),
        m[u.target].traits[u.trait_value.name].version < u32::MAX,
    ensures
        registry_after(m, seq![u])[u.target].traits[u.trait_value.name].version
            == m[u.target].traits[u.trait_value.name].version + 1,
{
    lemma_apply_writes_proposed_trait(m, u);
}

/// After a pass, the trait named by the last update holds that update's data: the
/// last proposal for a trait wins.
pub proof fn lemma_last_update_decides(m: Map<ObjectId, ObjectView>, updates: Seq<TraitUpdateView>)
    requires
        updates.len() > 0,
    ensures
        ({
            let u = updates.last();
            &&& registry_after(m, updates)[u.target].traits.contains_key(u.trait_value.name)
            &&& registry_after(m, updates)[u.target].traits[u.trait_value.name].data == u.trait_value.data
        }),
{
}

/// An object that no update names comes out of a pass as it went in.
pub proof fn lemma_untouched_objects_unchanged(m: Map<ObjectId, ObjectView>, updates: Seq<TraitUpdateView>, k: ObjectId)
    requires
        all_targets_known(m, updates),
        m.contains_key(k),
        !targets(updates).contains(k),
    ensures
        registry_after(m, updates).contains_key(k),
        registry_after(m, updates)[k] == m[k],
    decreases updates.len(),
{
    lemma_registry_after_keeps_keys(m, updates);
    if updates.len() > 0 {
        let init = updates.drop_last();
        assert(updates =~= init.push(updates.last()));
        lemma_targets_push(init, updates.last());
        assert(all_targets_known(m, init)) by {
            assert forall|i: int| 0 <= i < init.len() implies m.contains_key(#[trigger] init[i].target) by {
                assert(init[i] == updates[i]);
            }
        }
        lemma_untouched_objects_unchanged(m, init, k);
    }
}

/// Failed results carry nothing to write back.
pub proof fn lemma_failed_results_propose_nothing(results: Seq<ActionResult>)
    requires
        forall|i: int| 0 <= i < results.len() ==> !(#[trigger] results[i]).success,
    ensures
        pending_updates(results) == Seq::<TraitUpdateView>::empty(),
        failed_results(results) == results.len(),
    decreases results.len(),
{
    if results.len() > 0 {
        let init = results.drop_last();
        assert forall|i: int| 0 <= i < init.len() implies !(#[trigger] init[i]).success by {
            assert(init[i] == results[i]);
        }
        lemma_failed_results_propose_nothing(init);
        assert(!results[results.len() - 1].success);
        assert(pending_updates(results) =~= Seq::<TraitUpdateView>::empty());
    }
}

/// Registering an object adds one to the count for a new identifier and leaves it as
/// it was for a known one, where the earlier object is replaced; every other entry is
/// untouched.
pub proof fn lemma_register_count(m: Map<ObjectId, ObjectView>, o: ObjectView)
    requires
        m.dom().finite(),
    ensures
        m.insert(o.id, o).dom().finite(),
        m.insert(o.id, o).len() == m.len() + if m.contains_key(o.id) { 0int } else { 1int },
        m.insert(o.id, o)[o.id] == o,
        forall|k: ObjectId| k != o.id && #[trigger] m.contains_key(k) ==> m.insert(o.id, o)[k] == m[k],
{
    if m.contains_key(o.id) {
        assert(m.insert(o.id, o).dom() =~= m.dom());
    } else {
        assert(m.insert(o.id, o).dom() =~= m.dom().insert(o.id));
    }
}

/// The updates collected from results taken one part after another are those of the
/// first part followed by those of the second: no result, failed or not, takes away
/// updates collected before it.
pub proof fn lemma_pending_updates_concat(a: Seq<ActionResult>, b: Seq<ActionResult>)
    ensures
        pending_updates(a + b) == pending_updates(a) + pending_updates(b),
    decreases b.len(),
{
    if b.len() == 0 {
        assert(a + b =~= a);
        assert(pending_updates(a) + pending_updates(b) =~= pending_updates(a));
    } else {
        let b0 = b.drop_last();
        assert((a + b).drop_last() =~= a + b0);
        assert((a + b).last() == b.last());
        lemma_pending_updates_concat(a, b0);
        let tail = if b.last().success {
            update_views(b.last().trait_updates@)
        } else {
            Seq::<TraitUpdateView>::empty()
        };
        assert(pending_updates(a + b) == pending_updates(a + b0) + tail);
        assert(pending_updates(b) == pending_updates(b0) + tail);
        assert(pending_updates(a) + pending_updates(b0) + tail =~= pending_updates(a) + (pending_updates(b0) + tail));
    }
}

/// A single result contributes all of its updates, in order, when it succeeded, and
/// none when it failed.
pub proof fn lemma_pending_updates_single(r: ActionResult)
    ensures
        pending_updates(seq![r]) == if r.success {
            update_views(r.trait_updates@)
        } else {
            Seq::<TraitUpdateView>::empty()
        },
{
    let s = seq![r];
    assert(s.drop_last() =~= Seq::<ActionResult>::empty());
    assert(s.last() == r);
    assert(pending_updates(s.drop_last()) == Seq::<TraitUpdateView>::empty());
    assert(Seq::<TraitUpdateView>::empty() + update_views(r.trait_updates@) =~= update_views(r.trait_updates@));
    assert(Seq::<TraitUpdateView>::empty() + Seq::<TraitUpdateView>::empty() =~= Seq::<TraitUpdateView>::empty());
}

/// Appending a result to the slice keeps every update already collected and adds the
/// new result's updates after them exactly when it succeeded.
pub proof fn lemma_pending_updates_push(rs: Seq<ActionResult>, r: ActionResult)
    ensures
        pending_updates(rs.push(r)) == pending_updates(rs) + if r.success {
            update_views(r.trait_updates@)
        } else {
            Seq::<TraitUpdateView>::empty()
        },
        !r.success ==> pending_updates(rs.push(r)) == pending_updates(rs),
{
    assert(rs.push(r) =~= rs + seq![r]);
    lemma_pending_updates_concat(rs, seq![r]);
    lemma_pending_updates_single(r);
    assert(pending_updates(rs) + Seq::<TraitUpdateView>::empty() =~= pending_updates(rs));
}

/// Every update of every successful result is among those written back.
pub proof fn lemma_successful_updates_are_pending(rs: Seq<ActionResult>, i: int, j: int)
    requires
        0 <= i < rs.len(),
        rs[i].success,
        0 <= j < rs[i].trait_updates@.len(),
    ensures
        pending_updates(rs).contains(rs[i].trait_updates@[j]@),
{
    let a = rs.take(i);
    let b = rs.skip(i + 1);
    assert(rs =~= a + seq![rs[i]] + b);
    lemma_pending_updates_concat(a + seq![rs[i]], b);
    lemma_pending_updates_concat(a, seq![rs[i]]);
    lemma_pending_updates_single(rs[i]);
    let u = update_views(rs[i].trait_updates@);
    let all = pending_updates(a) + u + pending_updates(b);
    assert(all[pending_updates(a).len() + j] == u[j]);
}

/// An object registered under its identifier is found again by the text of that
/// identifier.
pub proof fn lemma_register_then_lookup(m: Map<ObjectId, ObjectView>, o: ObjectView, text: Seq<char>)
    requires
        text == hyphenated(o.id),
        uuid_parse(text) == Some(o.id),
    ensures
        lookup_text(m.insert(o.id, o), text) == Some(o),
{
}

} // verus!
