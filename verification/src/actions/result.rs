//! What an action returns: proposed trait updates, each naming the object it
//! applies to, plus messages and free-form data.

use vstd::prelude::*;
use crate::ids::ObjectId;
use crate::named_map::NamedMap;
use crate::text::views;
use crate::traits::{Trait, TraitView};

verus! {

/// A proposed update as the library reasons about it.
pub struct TraitUpdateView {
    pub target: ObjectId,
    pub trait_value: TraitView,
}

/// A proposed change to one trait on one object.
///
/// Actions never mutate. They return `TraitUpdate`s naming the object each new trait
/// value belongs to, and the host decides whether to apply them.
#[derive(Debug)]
pub struct TraitUpdate {
    /// Object this update is proposed against
    pub target: ObjectId,
    /// Trait value proposed for that object
    pub trait_value: Trait,
}

impl View for TraitUpdate {
    type V = TraitUpdateView;

    open spec fn view(&self) -> TraitUpdateView {
        TraitUpdateView { target: self.target, trait_value: self.trait_value@ }
    }
}

impl Clone for TraitUpdate {
    fn clone(&self) -> (r: Self)
        ensures
            r@ == self@,
    {
        TraitUpdate { target: self.target, trait_value: self.trait_value.clone() }
    }
}

impl TraitUpdate {
    /// Propose `trait_value` for the object identified by `target`
    pub fn new(target: ObjectId, trait_value: Trait) -> (u: Self)
        ensures
            u.target == target,
            u.trait_value == trait_value,
    {
        TraitUpdate { target, trait_value }
    }

    /// Get the object this update is proposed against
    pub fn target(&self) -> (r: ObjectId)
        ensures
            r == self.target,
    {
        self.target
    }

    /// Get the proposed trait value
    pub fn trait_value(&self) -> (r: &Trait)
        ensures
            *r == self.trait_value,
    {
        &self.trait_value
    }

    /// Get the name of the trait being updated
    pub fn trait_name(&self) -> (r: &str)
        ensures
            r@ == self.trait_value.name@,
    {
        self.trait_value.name()
    }

    /// Consume the update and yield the proposed trait value
    pub fn into_trait(self) -> (r: Trait)
        ensures
            r == self.trait_value,
    {
        self.trait_value
    }
}

/// The update proposing `t` for `target`.
pub open spec fn update_of(target: ObjectId, t: Trait) -> TraitUpdate {
    TraitUpdate { target, trait_value: t }
}

/// The updates of `updates` that are proposed against `target`, in order.
pub open spec fn updates_targeting(updates: Seq<TraitUpdateView>, target: ObjectId) -> Seq<TraitUpdateView>
    decreases updates.len(),
{
    if updates.len() == 0 {
        Seq::empty()
    } else {
        let rest = updates_targeting(updates.drop_last(), target);
        if updates.last().target == target {
            rest.push(updates.last())
        } else {
            rest
        }
    }
}

/// The updates proposed against `target` are exactly those of the list whose target it
/// is, every one of them, in the order they were added.
pub proof fn lemma_updates_targeting_is_filter(updates: Seq<TraitUpdateView>, target: ObjectId)
    ensures
        updates_targeting(updates, target) == updates.filter(|u: TraitUpdateView| u.target == target),
    decreases updates.len(),
{
    reveal(Seq::filter);
    if updates.len() > 0 {
        lemma_updates_targeting_is_filter(updates.drop_last(), target);
    }
}

/// Looking through a list taken in two parts finds the updates of the first part
/// followed by those of the second.
pub proof fn lemma_updates_targeting_concat(a: Seq<TraitUpdateView>, b: Seq<TraitUpdateView>, target: ObjectId)
    ensures
        updates_targeting(a + b, target) == updates_targeting(a, target) + updates_targeting(b, target),
    decreases b.len(),
{
    if b.len() == 0 {
        assert(a + b =~= a);
        assert(updates_targeting(a, target) + updates_targeting(b, target) =~= updates_targeting(a, target));
    } else {
        let b0 = b.drop_last();
        assert((a + b).drop_last() =~= a + b0);
        assert((a + b).last() == b.last());
        lemma_updates_targeting_concat(a, b0, target);
        if b.last().target == target {
            assert(updates_targeting(a, target) + updates_targeting(b0, target).push(b.last()) =~= (
            updates_targeting(a, target) + updates_targeting(b0, target)).push(b.last()));
        }
    }
}

/// One update is found exactly when it names the target.
pub proof fn lemma_updates_targeting_single(u: TraitUpdateView, target: ObjectId)
    ensures
        updates_targeting(seq![u], target) == if u.target == target {
            seq![u]
        } else {
            Seq::<TraitUpdateView>::empty()
        },
{
    let s = seq![u];
    assert(s.drop_last() =~= Seq::<TraitUpdateView>::empty());
    assert(s.last() == u);
    assert(updates_targeting(s.drop_last(), target) == Seq::<TraitUpdateView>::empty());
    assert(Seq::<TraitUpdateView>::empty().push(u) =~= seq![u]);
}

/// Every update that names the target is found.
pub proof fn lemma_updates_targeting_complete(updates: Seq<TraitUpdateView>, target: ObjectId, i: int)
    requires
        0 <= i < updates.len(),
        updates[i].target == target,
    ensures
        updates_targeting(updates, target).contains(updates[i]),
{
    let a = updates.take(i);
    let b = updates.skip(i + 1);
    assert(updates =~= a + seq![updates[i]] + b);
    lemma_updates_targeting_concat(a + seq![updates[i]], b, target);
    lemma_updates_targeting_concat(a, seq![updates[i]], target);
    lemma_updates_targeting_single(updates[i], target);
    let found = updates_targeting(updates, target);
    assert(found[updates_targeting(a, target).len() as int] == updates[i]);
}

/// The views of a sequence of updates.
pub open spec fn update_views(updates: Seq<TraitUpdate>) -> Seq<TraitUpdateView> {
    updates.map_values(|u: TraitUpdate| u@)
}

/// Result of an action execution.
#[derive(Debug)]
pub struct ActionResult {
    /// Whether the action was successful
    pub success: bool,
    /// Proposed trait updates, each naming the object it applies to
    pub trait_updates: Vec<TraitUpdate>,
    /// Messages or logs from the action
    pub messages: Vec<String>,
    /// Additional data returned by the action
    pub data: NamedMap<serde_json::Value>,
}

impl Clone for ActionResult {
    /// The same outcome, updates, messages and data.
    fn clone(&self) -> (r: Self)
        ensures
            r.success == self.success,
            update_views(r.trait_updates@) == update_views(self.trait_updates@),
            views(r.messages@) == views(self.messages@),
            r.data@ == self.data@,
            r.data.key_list() == self.data.key_list(),
    {
        let trait_updates = self.trait_updates.clone();
        let messages = self.messages.clone();
        let data = self.data.clone();
        proof {
            assert(update_views(trait_updates@) =~= update_views(self.trait_updates@)) by {
                assert forall|i: int| 0 <= i < self.trait_updates@.len() implies trait_updates@[i]@
                    == self.trait_updates@[i]@ by {
                    assert(cloned::<TraitUpdate>(self.trait_updates@[i], trait_updates@[i]));
                }
            }
            assert(views(messages@) =~= views(self.messages@)) by {
                assert forall|i: int| 0 <= i < self.messages@.len() implies messages@[i]@ == self.messages@[i]@ by {
                    assert(cloned::<String>(self.messages@[i], messages@[i]));
                }
            }
            assert(data.value_list() =~= self.data.value_list());
        }
        ActionResult { success: self.success, trait_updates, messages, data }
    }
}

impl ActionResult {
    /// Create a successful action result with nothing in it
    pub fn success() -> (r: Self)
        ensures
            r.success,
            r.trait_updates@.len() == 0,
            r.messages@.len() == 0,
            r.data@ == Map::<Seq<char>, serde_json::Value>::empty(),
    {
        ActionResult {
            success: true,
            trait_updates: Vec::new(),
            messages: Vec::new(),
            data: NamedMap::new(),
        }
    }

    /// Create a failed action result carrying one message
    pub fn failure(message: &str) -> (r: Self)
        ensures
            !r.success,
            r.trait_updates@.len() == 0,
            r.messages@.len() == 1,
            r.messages@[0]@ == message@,
            r.data@ == Map::<Seq<char>, serde_json::Value>::empty(),
    {
        let mut messages = Vec::new();
        messages.push(message.to_owned());
        ActionResult {
            success: false,
            trait_updates: Vec::new(),
            messages,
            data: NamedMap::new(),
        }
    }

    /// Create a successful action result with pre-allocated capacity
    pub fn success_with_capacity(trait_capacity: usize, message_capacity: usize, data_capacity: usize) -> (r: Self)
        ensures
            r.success,
            r.trait_updates@.len() == 0,
            r.messages@.len() == 0,
            r.data@ == Map::<Seq<char>, serde_json::Value>::empty(),
    {
        ActionResult {
            success: true,
            trait_updates: Vec::with_capacity(trait_capacity),
            messages: Vec::with_capacity(message_capacity),
            data: NamedMap::with_capacity(data_capacity),
        }
    }

    /// Propose a trait value for the given object
    pub fn add_trait_update(&mut self, target: ObjectId, trait_obj: Trait)
        ensures
            final(self).trait_updates@ == old(self).trait_updates@.push(update_of(target, trait_obj)),
            final(self).success == old(self).success,
            final(self).messages == old(self).messages,
            final(self).data == old(self).data,
    {
        self.trait_updates.push(TraitUpdate::new(target, trait_obj));
    }

    /// Add several trait updates, in order
    pub fn add_trait_updates(&mut self, trait_updates: Vec<TraitUpdate>)
        ensures
            final(self).trait_updates@ == old(self).trait_updates@ + trait_updates@,
            final(self).success == old(self).success,
            final(self).messages == old(self).messages,
            final(self).data == old(self).data,
    {
        let mut more = trait_updates;
        self.trait_updates.append(&mut more);
    }

    /// The updates proposed against a single object, in order
    pub fn updates_for(&self, target: ObjectId) -> (r: Vec<&TraitUpdate>)
        ensures
            r@.map_values(|u: &TraitUpdate| u@) == updates_targeting(update_views(self.trait_updates@), target),
    {
        let mut r: Vec<&TraitUpdate> = Vec::new();
        let n = self.trait_updates.len();
        let ghost all = update_views(self.trait_updates@);
        let mut i: usize = 0;
        while i < n
            invariant
                n == self.trait_updates.len(),
                all == update_views(self.trait_updates@),
                i <= n,
                r@.map_values(|u: &TraitUpdate| u@) == updates_targeting(all.take(i as int), target),
            decreases n - i,
        {
            proof {
                assert(all.take(i + 1).drop_last() =~= all.take(i as int));
                assert(all.take(i + 1).last() == self.trait_updates@[i as int]@);
            }
            let u = &self.trait_updates[i];
            if u.target == target {
                let ghost before = r@.map_values(|u: &TraitUpdate| u@);
                r.push(u);
                proof {
                    assert(r@.map_values(|u: &TraitUpdate| u@) =~= before.push(u@));
                }
            }
            i = i + 1;
        }
        proof {
            assert(all.take(n as int) =~= all);
        }
        r
    }

    /// Add a message to the result
    pub fn add_message(&mut self, message: &str)
        ensures
            views(final(self).messages@) == views(old(self).messages@).push(message@),
            final(self).success == old(self).success,
            final(self).trait_updates == old(self).trait_updates,
            final(self).data == old(self).data,
    {
        let m = message.to_owned();
        self.messages.push(m);
        proof {
            assert(views(self.messages@) =~= views(old(self).messages@).push(message@));
        }
    }

    /// Add several messages, in order
    pub fn add_messages(&mut self, messages: Vec<String>)
        ensures
            final(self).messages@ == old(self).messages@ + messages@,
            final(self).success == old(self).success,
            final(self).trait_updates == old(self).trait_updates,
            final(self).data == old(self).data,
    {
        let mut more = messages;
        self.messages.append(&mut more);
    }

    /// Add data to the result, replacing any data under the same key
    pub fn add_data(&mut self, key: &str, value: serde_json::Value)
        ensures
            final(self).data@ == old(self).data@.insert(key@, value),
            final(self).success == old(self).success,
            final(self).trait_updates == old(self).trait_updates,
            final(self).messages == old(self).messages,
    {
        self.data.insert(key.to_owned(), value);
    }

    /// Reserve capacity for expected updates and messages; the contents stay as they are
    pub fn reserve_capacity(&mut self, trait_updates: usize, messages: usize)
        ensures
            final(self).trait_updates@ == old(self).trait_updates@,
            final(self).messages@ == old(self).messages@,
            final(self).success == old(self).success,
            final(self).data == old(self).data,
    {
        self.trait_updates.reserve(trait_updates);
        self.messages.reserve(messages);
    }

    /// Check if the action was successful
    pub fn is_success(&self) -> (r: bool)
        ensures
            r == self.success,
    {
        self.success
    }

    /// Check if the action failed
    pub fn is_failure(&self) -> (r: bool)
        ensures
            r == !self.success,
    {
        !self.success
    }

    /// Get trait update count
    pub fn trait_update_count(&self) -> (n: usize)
        ensures
            n == self.trait_updates@.len(),
    {
        self.trait_updates.len()
    }

    /// Get message count
    pub fn message_count(&self) -> (n: usize)
        ensures
            n == self.messages@.len(),
    {
        self.messages.len()
    }

    /// Get data count
    pub fn data_count(&self) -> (n: usize)
        ensures
            n == self.data@.len(),
    {
        self.data.len()
    }

    /// Clear all trait updates
    pub fn clear_trait_updates(&mut self)
        ensures
            final(self).trait_updates@.len() == 0,
            final(self).success == old(self).success,
            final(self).messages == old(self).messages,
            final(self).data == old(self).data,
    {
        self.trait_updates.clear();
    }

    /// Clear all messages
    pub fn clear_messages(&mut self)
        ensures
            final(self).messages@.len() == 0,
            final(self).success == old(self).success,
            final(self).trait_updates == old(self).trait_updates,
            final(self).data == old(self).data,
    {
        self.messages.clear();
    }

    /// Clear all data
    pub fn clear_data(&mut self)
        ensures
            final(self).data@ == Map::<Seq<char>, serde_json::Value>::empty(),
            final(self).success == old(self).success,
            final(self).trait_updates == old(self).trait_updates,
            final(self).messages == old(self).messages,
    {
        self.data.clear();
    }
}

} // verus!
