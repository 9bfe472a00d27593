//! The read-only view an action is given: the objects it may inspect plus any
//! parameters the caller passes in.

use vstd::prelude::*;
use crate::named_map::NamedMap;
use crate::objects::{name_views, Object};
use crate::traits::text_map_view;

verus! {

/// Context passed to actions containing relevant objects and traits.
#[derive(Debug)]
pub struct ActionContext {
    /// Objects relevant to this action, by the role they play in it
    pub objects: NamedMap<Object>,
    /// Additional parameters for the action
    pub parameters: NamedMap<serde_json::Value>,
    /// Metadata about the action execution
    pub metadata: NamedMap<String>,
}

impl ActionContext {
    /// Create an empty action context
    pub fn new() -> (c: Self)
        ensures
            c.objects@ == Map::<Seq<char>, Object>::empty(),
            c.objects.key_list() == Seq::<Seq<char>>::empty(),
            c.parameters@ == Map::<Seq<char>, serde_json::Value>::empty(),
            c.metadata@ == Map::<Seq<char>, String>::empty(),
    {
        ActionContext { objects: NamedMap::new(), parameters: NamedMap::new(), metadata: NamedMap::new() }
    }

    /// Create an empty action context with expected capacity
    pub fn with_capacity(expected_objects: usize, expected_parameters: usize) -> (c: Self)
        ensures
            c.objects@ == Map::<Seq<char>, Object>::empty(),
            c.objects.key_list() == Seq::<Seq<char>>::empty(),
            c.parameters@ == Map::<Seq<char>, serde_json::Value>::empty(),
            c.metadata@ == Map::<Seq<char>, String>::empty(),
    {
        ActionContext {
            objects: NamedMap::with_capacity(expected_objects),
            parameters: NamedMap::with_capacity(expected_parameters),
            metadata: NamedMap::new(),
        }
    }

    /// Add an object under `name`, replacing any object of that name
    pub fn add_object(&mut self, name: &str, object: Object)
        ensures
            final(self).objects@ == old(self).objects@.insert(name@, object),
            final(self).parameters == old(self).parameters,
            final(self).metadata == old(self).metadata,
    {
        self.objects.insert(name.to_owned(), object);
    }

    /// Get the object added under `name`
    pub fn get_object(&self, name: &str) -> (r: Option<&Object>)
        ensures
            match r {
                Some(o) => self.objects@.contains_key(name@) && *o == self.objects@[name@],
                None => !self.objects@.contains_key(name@),
            },
    {
        self.objects.get(name)
    }

    /// Get the objects added under any of `names`, keyed by name
    pub fn get_objects(&self, names: &[&str]) -> (r: NamedMap<&Object>)
        ensures
            forall|k: Seq<char>| #[trigger] r@.contains_key(k) <==> (name_views(names@).contains(k)
                && self.objects@.contains_key(k)),
            forall|k: Seq<char>| #[trigger] r@.contains_key(k) ==> *r@[k] == self.objects@[k],
    {
        let mut r: NamedMap<&Object> = NamedMap::new();
        let n = names.len();
        let ghost all = name_views(names@);
        let mut i: usize = 0;
        while i < n
            invariant
                n == names@.len(),
                all == name_views(names@),
                i <= n,
                forall|k: Seq<char>| #[trigger] r@.contains_key(k) <==> (all.take(i as int).contains(k)
                    && self.objects@.contains_key(k)),
                forall|k: Seq<char>| #[trigger] r@.contains_key(k) ==> *r@[k] == self.objects@[k],
            decreases n - i,
        {
            let name: &str = names[i];
            proof {
                assert(all.take(i + 1) =~= all.take(i as int).push(name@));
            }
            match self.objects.get(name) {
                Some(o) => {
                    r.insert(name.to_owned(), o);
                },
                None => {},
            }
            proof {
                assert forall|k: Seq<char>| #[trigger] r@.contains_key(k) <==> (all.take(i + 1).contains(k)
                    && self.objects@.contains_key(k)) by {
                    let t1 = all.take(i as int);
                    let t2 = all.take(i + 1);
                    if t1.contains(k) {
                        let j = choose|j: int| 0 <= j < t1.len() && t1[j] == k;
                        assert(t2[j] == k);
                    }
                    if t2.contains(k) && k != name@ {
                        let j = choose|j: int| 0 <= j < t2.len() && t2[j] == k;
                        assert(t1[j] == k);
                    }
                    assert(t2[i as int] == name@);
                }
            }
            i = i + 1;
        }
        proof {
            assert(all.take(n as int) =~= all);
        }
        r
    }

    /// Add a parameter, replacing any parameter of the same name
    pub fn add_parameter(&mut self, name: &str, value: serde_json::Value)
        ensures
            final(self).parameters@ == old(self).parameters@.insert(name@, value),
            final(self).objects == old(self).objects,
            final(self).metadata == old(self).metadata,
    {
        self.parameters.insert(name.to_owned(), value);
    }

    /// Get a parameter
    pub fn get_parameter(&self, name: &str) -> (r: Option<&serde_json::Value>)
        ensures
            match r {
                Some(v) => self.parameters@.contains_key(name@) && *v == self.parameters@[name@],
                None => !self.parameters@.contains_key(name@),
            },
    {
        self.parameters.get(name)
    }

    /// Add metadata, replacing any metadata under the same key
    pub fn add_metadata(&mut self, key: &str, value: &str)
        ensures
            text_map_view(&final(self).metadata) == text_map_view(&old(self).metadata).insert(key@, value@),
            final(self).objects == old(self).objects,
            final(self).parameters == old(self).parameters,
    {
        let v = value.to_owned();
        let ghost vs = v;
        self.metadata.insert(key.to_owned(), v);
        proof {
            assert(text_map_view(&self.metadata) =~= text_map_view(&old(self).metadata).insert(key@, vs@));
        }
    }

    /// Get metadata
    pub fn get_metadata(&self, key: &str) -> (r: Option<&String>)
        ensures
            match r {
                Some(v) => self.metadata@.contains_key(key@) && *v == self.metadata@[key@],
                None => !self.metadata@.contains_key(key@),
            },
    {
        self.metadata.get(key)
    }

    /// Get object count
    pub fn object_count(&self) -> (n: usize)
        ensures
            n == self.objects@.len(),
    {
        self.objects.len()
    }

    /// Get parameter count
    pub fn parameter_count(&self) -> (n: usize)
        ensures
            n == self.parameters@.len(),
    {
        self.parameters.len()
    }

    /// Get metadata count
    pub fn metadata_count(&self) -> (n: usize)
        ensures
            n == self.metadata@.len(),
    {
        self.metadata.len()
    }

    /// Reserve capacity for objects; the contents stay as they are
    pub fn reserve_objects(&mut self, additional: usize)
        ensures
            final(self).objects@ == old(self).objects@,
            final(self).objects.key_list() == old(self).objects.key_list(),
            final(self).objects.value_list() == old(self).objects.value_list(),
            final(self).parameters == old(self).parameters,
            final(self).metadata == old(self).metadata,
    {
        self.objects.reserve(additional);
    }

    /// Reserve capacity for parameters; the contents stay as they are
    pub fn reserve_parameters(&mut self, additional: usize)
        ensures
            final(self).parameters@ == old(self).parameters@,
            final(self).parameters.key_list() == old(self).parameters.key_list(),
            final(self).parameters.value_list() == old(self).parameters.value_list(),
            final(self).objects == old(self).objects,
            final(self).metadata == old(self).metadata,
    {
        self.parameters.reserve(additional);
    }

    /// Clear all objects
    pub fn clear_objects(&mut self)
        ensures
            final(self).objects@ == Map::<Seq<char>, Object>::empty(),
            final(self).parameters == old(self).parameters,
            final(self).metadata == old(self).metadata,
    {
        self.objects.clear();
    }

    /// Clear all parameters
    pub fn clear_parameters(&mut self)
        ensures
            final(self).parameters@ == Map::<Seq<char>, serde_json::Value>::empty(),
            final(self).objects == old(self).objects,
            final(self).metadata == old(self).metadata,
    {
        self.parameters.clear();
    }

    /// Clear all metadata
    pub fn clear_metadata(&mut self)
        ensures
            final(self).metadata@ == Map::<Seq<char>, String>::empty(),
            final(self).objects == old(self).objects,
            final(self).parameters == old(self).parameters,
    {
        self.metadata.clear();
    }
}

impl Clone for ActionContext {
    /// The same roles, objects, parameters and metadata, in the same order.
    fn clone(&self) -> (c: Self)
        ensures
            c.objects.key_list() == self.objects.key_list(),
            c.objects.value_list().len() == self.objects.value_list().len(),
            forall|i: int| 0 <= i < self.objects.value_list().len() ==> (#[trigger] c.objects.value_list()[i])@
                == self.objects.value_list()[i]@,
            c.parameters@ == self.parameters@,
            c.parameters.key_list() == self.parameters.key_list(),
            text_map_view(&c.metadata) == text_map_view(&self.metadata),
            c.metadata.key_list() == self.metadata.key_list(),
    {
        let objects = self.objects.clone();
        let parameters = self.parameters.clone();
        let metadata = self.metadata.clone();
        proof {
            assert forall|i: int| 0 <= i < self.objects.value_list().len() implies (#[trigger] objects.value_list()[i])@
                == self.objects.value_list()[i]@ by {
                assert(cloned::<Object>(self.objects.value_list()[i], objects.value_list()[i]));
            }
            assert(parameters.value_list() =~= self.parameters.value_list());
            assert(metadata.value_list() =~= self.metadata.value_list());
        }
        ActionContext { objects, parameters, metadata }
    }
}

impl Default for ActionContext {
    fn default() -> (c: Self)
        ensures
            c.objects@ == Map::<Seq<char>, Object>::empty(),
            c.parameters@ == Map::<Seq<char>, serde_json::Value>::empty(),
            c.metadata@ == Map::<Seq<char>, String>::empty(),
    {
        ActionContext::new()
    }
}

} // verus!
