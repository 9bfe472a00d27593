//! Objects: named, typed holders of traits.

use vstd::prelude::*;
use crate::error::OatsError;
use crate::ids::{fresh_id, v4_bits, v4_mask, ObjectId};
use crate::named_map::NamedMap;
use crate::text::{join, join_texts, views};
use crate::traits::{Trait, TraitView};

verus! {

/// An object as the library reasons about it.
pub struct ObjectView {
    pub id: ObjectId,
    pub name: Seq<char>,
    pub object_type: Seq<char>,
    pub traits: Map<Seq<char>, TraitView>,
}

/// A domain object: an identity, a name, a type, and at most one trait per trait name.
#[derive(Debug)]
pub struct Object {
    id: ObjectId,
    name: String,
    object_type: String,
    traits: NamedMap<Trait>,
}

/// The version a trait takes when it is written over a trait of the same name: one
/// above the version it replaces (staying at the largest version once there). A trait
/// written under a new name keeps its own version.
pub open spec fn superseding_version(existing: Option<TraitView>, incoming: TraitView) -> u32 {
    match existing {
        Some(e) => if e.version < u32::MAX { (e.version + 1) as u32 } else { u32::MAX },
        None => incoming.version,
    }
}

/// The trait that writing `incoming` over `traits` stores under its name.
pub open spec fn superseding_trait(traits: Map<Seq<char>, TraitView>, incoming: TraitView) -> TraitView {
    let existing = if traits.contains_key(incoming.name) { Some(traits[incoming.name]) } else { None };
    TraitView { version: superseding_version(existing, incoming), ..incoming }
}

/// The object with `t` stored under its name, replacing any trait of that name.
pub open spec fn object_with_trait(o: ObjectView, t: TraitView) -> ObjectView {
    ObjectView { traits: o.traits.insert(t.name, t), ..o }
}

/// The object after `incoming` is written back to it.
pub open spec fn object_after_apply(o: ObjectView, incoming: TraitView) -> ObjectView {
    ObjectView {
        traits: o.traits.insert(incoming.name, superseding_trait(o.traits, incoming)),
        ..o
    }
}

/// The object after each of `traits` is added in turn.
pub open spec fn traits_added(m: Map<Seq<char>, TraitView>, traits: Seq<TraitView>) -> Map<Seq<char>, TraitView>
    decreases traits.len(),
{
    if traits.len() == 0 {
        m
    } else {
        traits_added(m, traits.drop_last()).insert(traits.last().name, traits.last())
    }
}

/// The required names, in the order given, that name no trait in `present`.
pub open spec fn missing_names(present: Map<Seq<char>, TraitView>, required: Seq<Seq<char>>) -> Seq<Seq<char>>
    decreases required.len(),
{
    if required.len() == 0 {
        Seq::empty()
    } else {
        let rest = missing_names(present, required.drop_last());
        if present.contains_key(required.last()) {
            rest
        } else {
            rest.push(required.last())
        }
    }
}

/// The text of the error an object gives when it lacks required traits.
pub open spec fn missing_traits_text(object_name: Seq<char>, missing: Seq<Seq<char>>) -> Seq<char> {
    "Object '"@ + object_name + "' is missing required traits: "@ + join(missing, ", "@)
}

/// The views of a slice of names.
pub open spec fn name_views(names: Seq<&str>) -> Seq<Seq<char>> {
    names.map_values(|s: &str| s@)
}

impl View for Object {
    type V = ObjectView;

    closed spec fn view(&self) -> ObjectView {
        ObjectView {
            id: self.id,
            name: self.name@,
            object_type: self.object_type@,
            traits: self.traits@.map_values(|t: Trait| t@),
        }
    }
}

impl Object {
    #[verifier::type_invariant]
    spec fn inv(&self) -> bool {
        forall|k: Seq<char>| #[trigger] self.traits@.contains_key(k) ==> self.traits@[k].name@ == k
    }

    /// Create an object with a fresh random identifier and no traits.
    pub fn new(name: &str, object_type: &str) -> (o: Self)
        ensures
            o@.name == name@,
            o@.object_type == object_type@,
            o@.traits == Map::<Seq<char>, TraitView>::empty(),
            o@.id & v4_mask() == v4_bits(),
    {
        let o = Object {
            id: fresh_id(),
            name: name.to_owned(),
            object_type: object_type.to_owned(),
            traits: NamedMap::new(),
        };
        proof {
            assert(o@.traits =~= Map::<Seq<char>, TraitView>::empty());
        }
        o
    }

    /// Create an object with a fresh random identifier holding `traits`; a later trait
    /// replaces an earlier one of the same name.
    pub fn with_traits(name: &str, object_type: &str, traits: Vec<Trait>) -> (o: Self)
        ensures
            o@.name == name@,
            o@.object_type == object_type@,
            o@.traits == traits_added(Map::empty(), traits@.map_values(|t: Trait| t@)),
            o@.id & v4_mask() == v4_bits(),
    {
        let mut o = Object::new(name, object_type);
        let ghost all = traits@.map_values(|t: Trait| t@);
        let ghost id = o@.id;
        let mut rest = traits;
        let mut added: Vec<Trait> = Vec::new();
        proof {
            assert(all.take(0) =~= Seq::<TraitView>::empty());
        }
        let n = rest.len();
        let mut i: usize = 0;
        while i < n
            invariant
                n == all.len(),
                i <= n,
                rest.len() == n - i,
                forall|j: int| 0 <= j < rest.len() ==> #[trigger] rest@[j]@ == all[i + j],
                o@.name == name@,
                o@.object_type == object_type@,
                o@.id == id,
                o@.traits == traits_added(Map::empty(), all.take(i as int)),
            decreases n - i,
        {
            let t = rest.remove(0);
            proof {
                assert(t@ == all[i as int]);
                assert(all.take(i + 1).drop_last() =~= all.take(i as int));
            }
            o.add_trait(t);
            i = i + 1;
        }
        proof {
            assert(all.take(n as int) =~= all);
        }
        o
    }

    /// Get the object's identifier
    pub fn id(&self) -> (r: ObjectId)
        ensures
            r == self@.id,
    {
        self.id
    }

    /// Get the object's name
    pub fn name(&self) -> (r: &str)
        ensures
            r@ == self@.name,
    {
        self.name.as_str()
    }

    /// Get the object's type
    pub fn object_type(&self) -> (r: &str)
        ensures
            r@ == self@.object_type,
    {
        self.object_type.as_str()
    }

    /// Get the trait of this name, if the object carries one
    pub fn get_trait(&self, name: &str) -> (r: Option<&Trait>)
        ensures
            match r {
                Some(t) => self@.traits.contains_key(name@) && t@ == self@.traits[name@],
                None => !self@.traits.contains_key(name@),
            },
    {
        self.traits.get(name)
    }

    /// Whether the object carries a trait of this name
    pub fn has_trait(&self, name: &str) -> (r: bool)
        ensures
            r == self@.traits.contains_key(name@),
    {
        self.traits.contains_key(name)
    }

    /// Get the number of traits
    pub fn trait_count(&self) -> (n: usize)
        ensures
            n == self@.traits.len(),
    {
        let n = self.traits.len();
        proof {
            lemma_map_values_len(self.traits@, |t: Trait| t@);
        }
        n
    }

    /// Add a trait, replacing any trait of the same name
    pub fn add_trait(&mut self, t: Trait)
        ensures
            final(self)@ == object_with_trait(old(self)@, t@),
    {
        proof {
            use_type_invariant(&*self);
        }
        let mut traits = NamedMap::new();
        std::mem::swap(&mut traits, &mut self.traits);
        let ghost before = traits@;
        let ghost tv = t@;
        let key = t.name.clone();
        traits.insert(key, t);
        std::mem::swap(&mut traits, &mut self.traits);
        proof {
            assert(self@.traits =~= old(self)@.traits.insert(tv.name, tv));
        }
    }
}

impl Object {
    /// Write `incoming` back to this object: it replaces the trait of the same name and
    /// supersedes its version (see `superseding_version`).
    pub fn apply_trait(&mut self, incoming: Trait)
        ensures
            final(self)@ == object_after_apply(old(self)@, incoming@),
    {
        proof {
            use_type_invariant(&*self);
        }
        let mut t = incoming;
        let ghost tv = t@;
        let existing_version: Option<u32> = match self.traits.get(t.name.as_str()) {
            Some(e) => Some(e.version),
            None => None,
        };
        match existing_version {
            Some(v) => {
                t.version = if v < u32::MAX { v + 1 } else { u32::MAX };
            },
            None => {},
        }
        proof {
            assert(t@ == superseding_trait(old(self)@.traits, tv));
        }
        self.add_trait(t);
    }

    /// Check that the object carries a trait under every name in `required`.
    ///
    /// On failure the error is a validation error naming the object and, in the order
    /// given, every required name it lacks.
    pub fn validate_required_traits(&self, required: &[&str]) -> (r: Result<(), OatsError>)
        ensures
            missing_names(self@.traits, name_views(required@)).len() == 0 ==> r is Ok,
            missing_names(self@.traits, name_views(required@)).len() > 0 ==> (r matches Err(
                OatsError::ValidationError { message },
            ) && message@ == missing_traits_text(
                self@.name,
                missing_names(self@.traits, name_views(required@)),
            )),
    {
        let ghost req = name_views(required@);
        let mut missing: Vec<String> = Vec::new();
        let n = required.len();
        let mut i: usize = 0;
        while i < n
            invariant
                n == required@.len(),
                req == name_views(required@),
                i <= n,
                views(missing@) == missing_names(self@.traits, req.take(i as int)),
            decreases n - i,
        {
            proof {
                assert(req.take(i + 1).drop_last() =~= req.take(i as int));
                assert(req.take(i + 1).last() == required@[i as int]@);
            }
            let name: &str = required[i];
            if !self.has_trait(name) {
                let ghost before = views(missing@);
                missing.push(name.to_owned());
                proof {
                    assert(views(missing@) =~= before.push(name@));
                }
            }
            i = i + 1;
        }
        proof {
            assert(req.take(n as int) =~= req);
        }
        if missing.len() == 0 {
            return Ok(());
        }
        let mut message = "Object '".to_owned();
        message.append(self.name.as_str());
        message.append("' is missing required traits: ");
        let list = join_texts(&missing, ", ");
        message.append(list.as_str());
        Err(OatsError::ValidationError { message })
    }
}

impl Clone for Object {
    fn clone(&self) -> (r: Self)
        ensures
            r@ == self@,
    {
        proof {
            use_type_invariant(self);
        }
        let traits = self.traits.clone();
        let ghost tl = traits.value_list();
        let ghost sl = self.traits.value_list();
        proof {
            assert forall|i: int| 0 <= i < sl.len() implies #[trigger] tl[i]@ == sl[i]@ by {
                assert(cloned::<Trait>(sl[i], tl[i]));
            }
            assert(traits@.dom() =~= self.traits@.dom());
            assert forall|k: Seq<char>| #[trigger] traits@.contains_key(k) implies traits@[k]@ == self.traits@[k]@ by {
                let j = self.traits.key_list().index_of(k);
                assert(self.traits.key_list().to_set().contains(k));
                assert(self.traits.key_list().contains(k));
                assert(0 <= j < sl.len());
            }
        }
        let r = Object {
            id: self.id,
            name: self.name.clone(),
            object_type: self.object_type.clone(),
            traits,
        };
        proof {
            assert(r@.traits =~= self@.traits);
        }
        r
    }
}

/// A trait added to an object is the one found under its name, and the object's other
/// traits, identity, name and type are untouched.
pub proof fn lemma_add_then_get(o: ObjectView, t: TraitView)
    ensures
        object_with_trait(o, t).traits.contains_key(t.name),
        object_with_trait(o, t).traits[t.name] == t,
        object_with_trait(o, t).id == o.id,
        object_with_trait(o, t).name == o.name,
        object_with_trait(o, t).object_type == o.object_type,
        forall|k: Seq<char>| k != t.name && #[trigger] o.traits.contains_key(k) ==> object_with_trait(o, t).traits[k] == o.traits[k],
{
}

/// Writing a trait back touches that trait alone: the object keeps its identity, name,
/// type and every trait of another name, gains at most the written name, and holds
/// the written data under it.
pub proof fn lemma_apply_keeps_other_traits(o: ObjectView, incoming: TraitView)
    ensures
        object_after_apply(o, incoming).id == o.id,
        object_after_apply(o, incoming).name == o.name,
        object_after_apply(o, incoming).object_type == o.object_type,
        object_after_apply(o, incoming).traits.dom() == o.traits.dom().insert(incoming.name),
        object_after_apply(o, incoming).traits[incoming.name].data == incoming.data,
        object_after_apply(o, incoming).traits[incoming.name].name == incoming.name,
        forall|k: Seq<char>| k != incoming.name && #[trigger] o.traits.contains_key(k) ==> object_after_apply(
            o,
            incoming,
        ).traits[k] == o.traits[k],
{
    assert(object_after_apply(o, incoming).traits.dom() =~= o.traits.dom().insert(incoming.name));
}

/// The names an object is reported to lack are exactly the required names it does not
/// carry, in the order required: the required list filtered by absence.
pub proof fn lemma_missing_names_exact(present: Map<Seq<char>, TraitView>, required: Seq<Seq<char>>)
    ensures
        missing_names(present, required) == required.filter(|k: Seq<char>| !present.contains_key(k)),
        forall|k: Seq<char>| #[trigger] missing_names(present, required).contains(k) <==> (required.contains(k)
            && !present.contains_key(k)),
        missing_names(present, required).len() == 0 <==> (forall|i: int|
            0 <= i < required.len() ==> present.contains_key(#[trigger] required[i])),
    decreases required.len(),
{
    reveal(Seq::filter);
    let m = missing_names(present, required);
    if required.len() > 0 {
        let r0 = required.drop_last();
        let x = required.last();
        lemma_missing_names_exact(present, r0);
        assert(required.filter(|k: Seq<char>| !present.contains_key(k)) == r0.filter(
            |k: Seq<char>| !present.contains_key(k),
        ).push(x) || present.contains_key(x));
        let m0 = missing_names(present, r0);
        assert forall|k: Seq<char>| #[trigger] m.contains(k) <==> (required.contains(k) && !present.contains_key(k)) by {
            if m.contains(k) {
                let j = choose|j: int| 0 <= j < m.len() && m[j] == k;
                if j < m0.len() {
                    assert(m0[j] == k);
                    assert(m0.contains(k));
                    let a = choose|a: int| 0 <= a < r0.len() && r0[a] == k;
                    assert(required[a] == k);
                } else {
                    assert(k == x);
                    assert(required[required.len() - 1] == k);
                }
            }
            if required.contains(k) && !present.contains_key(k) {
                let a = choose|a: int| 0 <= a < required.len() && required[a] == k;
                if a < required.len() - 1 {
                    assert(r0[a] == k);
                    assert(m0.contains(k));
                    let j = choose|j: int| 0 <= j < m0.len() && m0[j] == k;
                    assert(m[j] == k);
                } else {
                    assert(m[m.len() - 1] == k);
                }
            }
        }
    }
    if m.len() > 0 {
        assert(m.contains(m[0]));
        let a = choose|a: int| 0 <= a < required.len() && required[a] == m[0];
        assert(!present.contains_key(required[a]));
    }
    if exists|i: int| 0 <= i < required.len() && !present.contains_key(#[trigger] required[i]) {
        let i = choose|i: int| 0 <= i < required.len() && !present.contains_key(#[trigger] required[i]);
        assert(required.contains(required[i]));
        assert(m.contains(required[i]));
    }
}

proof fn lemma_map_values_len<K, V, W>(m: Map<K, V>, f: spec_fn(V) -> W)
    requires
        m.dom().finite(),
    ensures
        m.map_values(f).len() == m.len(),
{
    assert(m.map_values(f).dom() =~= m.dom());
}

} // verus!
