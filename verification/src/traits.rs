//! Traits: named, versioned, immutable pieces of domain state.

use vstd::prelude::*;
use crate::ids::{fresh_id, v4_bits, v4_mask, ObjectId, TraitId};
use crate::named_map::NamedMap;

verus! {

/// The data a trait carries, as the library reasons about it.
pub enum TraitDataView {
    String(Seq<char>),
    Number(u64),
    Integer(i64),
    Decimal(rust_decimal::Decimal),
    Timestamp(chrono::NaiveDateTime),
    Date(chrono::NaiveDate),
    Duration(chrono::TimeDelta),
    Boolean(bool),
    Object(Map<Seq<char>, serde_json::Value>),
    Array(Seq<serde_json::Value>),
    Binary(Seq<u8>),
    Ref(ObjectId),
}

/// The actual data contained in a trait.
#[derive(Debug)]
pub enum TraitData {
    /// Simple string value
    String(String),
    /// Approximate real value, held as the IEEE-754 bits of an `f64`
    /// (`f64::to_bits` / `f64::from_bits`). Use it for measurements and ratios, never
    /// for money or any quantity that must round-trip exactly.
    Number(u64),
    /// Signed whole number: counts, quantities, identifiers
    Integer(i64),
    /// Exact decimal: money, rates, anything that must not drift
    Decimal(rust_decimal::Decimal),
    /// Absolute point in time, held as the date and time it reads in UTC
    Timestamp(chrono::NaiveDateTime),
    /// Calendar date with no time and no zone
    Date(chrono::NaiveDate),
    /// Elapsed time: a signed quantity
    Duration(chrono::TimeDelta),
    /// Boolean value
    Boolean(bool),
    /// Complex structured data
    Object(NamedMap<serde_json::Value>),
    /// Array of values
    Array(Vec<serde_json::Value>),
    /// Binary data
    Binary(Vec<u8>),
    /// Reference to another object
    Ref(ObjectId),
}

impl View for TraitData {
    type V = TraitDataView;

    open spec fn view(&self) -> TraitDataView {
        match self {
            TraitData::String(s) => TraitDataView::String(s@),
            TraitData::Number(n) => TraitDataView::Number(*n),
            TraitData::Integer(i) => TraitDataView::Integer(*i),
            TraitData::Decimal(d) => TraitDataView::Decimal(*d),
            TraitData::Timestamp(t) => TraitDataView::Timestamp(*t),
            TraitData::Date(d) => TraitDataView::Date(*d),
            TraitData::Duration(d) => TraitDataView::Duration(*d),
            TraitData::Boolean(b) => TraitDataView::Boolean(*b),
            TraitData::Object(o) => TraitDataView::Object(o@),
            TraitData::Array(a) => TraitDataView::Array(a@),
            TraitData::Binary(b) => TraitDataView::Binary(b@),
            TraitData::Ref(id) => TraitDataView::Ref(*id),
        }
    }
}

impl Clone for TraitData {
    fn clone(&self) -> (r: Self)
        ensures
            r@ == self@,
    {
        match self {
            TraitData::String(s) => TraitData::String(s.clone()),
            TraitData::Number(n) => TraitData::Number(*n),
            TraitData::Integer(i) => TraitData::Integer(*i),
            TraitData::Decimal(d) => TraitData::Decimal(*d),
            TraitData::Timestamp(t) => TraitData::Timestamp(*t),
            TraitData::Date(d) => TraitData::Date(*d),
            TraitData::Duration(d) => TraitData::Duration(*d),
            TraitData::Boolean(b) => TraitData::Boolean(*b),
            TraitData::Object(o) => {
                let c = o.clone();
                proof {
                    assert(c.value_list() =~= o.value_list());
                }
                TraitData::Object(c)
            },
            TraitData::Array(a) => {
                let c = a.clone();
                proof {
                    assert(c@ =~= a@);
                }
                TraitData::Array(c)
            },
            TraitData::Binary(b) => {
                let c = b.clone();
                proof {
                    assert(c@ =~= b@);
                }
                TraitData::Binary(c)
            },
            TraitData::Ref(id) => TraitData::Ref(*id),
        }
    }
}

impl TraitData {
    /// Check if this trait data is a string
    pub fn is_string(&self) -> (r: bool)
        ensures
            r == (self is String),
    {
        matches!(self, TraitData::String(_))
    }

    /// Check if this trait data is an approximate real
    pub fn is_number(&self) -> (r: bool)
        ensures
            r == (self is Number),
    {
        matches!(self, TraitData::Number(_))
    }

    /// Check if this trait data is a whole number
    pub fn is_integer(&self) -> (r: bool)
        ensures
            r == (self is Integer),
    {
        matches!(self, TraitData::Integer(_))
    }

    /// Check if this trait data is an exact decimal
    pub fn is_decimal(&self) -> (r: bool)
        ensures
            r == (self is Decimal),
    {
        matches!(self, TraitData::Decimal(_))
    }

    /// Check if this trait data is a timestamp
    pub fn is_timestamp(&self) -> (r: bool)
        ensures
            r == (self is Timestamp),
    {
        matches!(self, TraitData::Timestamp(_))
    }

    /// Check if this trait data is a calendar date
    pub fn is_date(&self) -> (r: bool)
        ensures
            r == (self is Date),
    {
        matches!(self, TraitData::Date(_))
    }

    /// Check if this trait data is an elapsed time
    pub fn is_duration(&self) -> (r: bool)
        ensures
            r == (self is Duration),
    {
        matches!(self, TraitData::Duration(_))
    }

    /// Check if this trait data is a boolean
    pub fn is_boolean(&self) -> (r: bool)
        ensures
            r == (self is Boolean),
    {
        matches!(self, TraitData::Boolean(_))
    }

    /// Check if this trait data is an object
    pub fn is_object(&self) -> (r: bool)
        ensures
            r == (self is Object),
    {
        matches!(self, TraitData::Object(_))
    }

    /// Check if this trait data is an array
    pub fn is_array(&self) -> (r: bool)
        ensures
            r == (self is Array),
    {
        matches!(self, TraitData::Array(_))
    }

    /// Check if this trait data is binary
    pub fn is_binary(&self) -> (r: bool)
        ensures
            r == (self is Binary),
    {
        matches!(self, TraitData::Binary(_))
    }

    /// Check if this trait data is a reference to another object
    pub fn is_ref(&self) -> (r: bool)
        ensures
            r == (self is Ref),
    {
        matches!(self, TraitData::Ref(_))
    }

    /// Try to get the string value
    pub fn as_string(&self) -> (r: Option<&String>)
        ensures
            match self {
                TraitData::String(x) => r == Some(x),
                _ => r is None,
            },
    {
        match self {
            TraitData::String(x) => Some(x),
            _ => None,
        }
    }

    /// Try to get the bits of the approximate real value (strict: an `Integer` or a `Decimal` is never widened)
    pub fn as_number(&self) -> (r: Option<u64>)
        ensures
            match self {
                TraitData::Number(x) => r == Some(*x),
                _ => r is None,
            },
    {
        match self {
            TraitData::Number(x) => Some(*x),
            _ => None,
        }
    }

    /// Try to get the whole number value
    pub fn as_integer(&self) -> (r: Option<i64>)
        ensures
            match self {
                TraitData::Integer(x) => r == Some(*x),
                _ => r is None,
            },
    {
        match self {
            TraitData::Integer(x) => Some(*x),
            _ => None,
        }
    }

    /// Try to get the exact decimal value
    pub fn as_decimal(&self) -> (r: Option<rust_decimal::Decimal>)
        ensures
            match self {
                TraitData::Decimal(x) => r == Some(*x),
                _ => r is None,
            },
    {
        match self {
            TraitData::Decimal(x) => Some(*x),
            _ => None,
        }
    }

    /// Try to get the timestamp value
    pub fn as_timestamp(&self) -> (r: Option<chrono::NaiveDateTime>)
        ensures
            match self {
                TraitData::Timestamp(x) => r == Some(*x),
                _ => r is None,
            },
    {
        match self {
            TraitData::Timestamp(x) => Some(*x),
            _ => None,
        }
    }

    /// Try to get the calendar date value
    pub fn as_date(&self) -> (r: Option<chrono::NaiveDate>)
        ensures
            match self {
                TraitData::Date(x) => r == Some(*x),
                _ => r is None,
            },
    {
        match self {
            TraitData::Date(x) => Some(*x),
            _ => None,
        }
    }

    /// Try to get the elapsed time
    pub fn as_duration(&self) -> (r: Option<chrono::TimeDelta>)
        ensures
            match self {
                TraitData::Duration(x) => r == Some(*x),
                _ => r is None,
            },
    {
        match self {
            TraitData::Duration(x) => Some(*x),
            _ => None,
        }
    }

    /// Try to get the boolean value
    pub fn as_boolean(&self) -> (r: Option<bool>)
        ensures
            match self {
                TraitData::Boolean(x) => r == Some(*x),
                _ => r is None,
            },
    {
        match self {
            TraitData::Boolean(x) => Some(*x),
            _ => None,
        }
    }

    /// Try to get the object value
    pub fn as_object(&self) -> (r: Option<&NamedMap<serde_json::Value>>)
        ensures
            match self {
                TraitData::Object(x) => r == Some(x),
                _ => r is None,
            },
    {
        match self {
            TraitData::Object(x) => Some(x),
            _ => None,
        }
    }

    /// Try to get the array value
    pub fn as_array(&self) -> (r: Option<&Vec<serde_json::Value>>)
        ensures
            match self {
                TraitData::Array(x) => r == Some(x),
                _ => r is None,
            },
    {
        match self {
            TraitData::Array(x) => Some(x),
            _ => None,
        }
    }

    /// Try to get the binary value
    pub fn as_binary(&self) -> (r: Option<&Vec<u8>>)
        ensures
            match self {
                TraitData::Binary(x) => r == Some(x),
                _ => r is None,
            },
    {
        match self {
            TraitData::Binary(x) => Some(x),
            _ => None,
        }
    }

    /// Try to get the referenced object id
    pub fn as_ref_id(&self) -> (r: Option<ObjectId>)
        ensures
            match self {
                TraitData::Ref(x) => r == Some(*x),
                _ => r is None,
            },
    {
        match self {
            TraitData::Ref(x) => Some(*x),
            _ => None,
        }
    }
}

/// A trait as the library reasons about it.
pub struct TraitView {
    pub id: TraitId,
    pub name: Seq<char>,
    pub version: u32,
    pub data: TraitDataView,
    pub metadata: Map<Seq<char>, Seq<char>>,
}

/// The views of the values of a string-to-string map.
pub open spec fn text_map_view(m: &NamedMap<String>) -> Map<Seq<char>, Seq<char>> {
    m@.map_values(|s: String| s@)
}

/// A trait represents immutable domain state.
#[derive(Debug)]
pub struct Trait {
    /// Unique identifier for this trait
    pub id: TraitId,
    /// Name of the trait
    pub name: String,
    /// Version of the trait
    pub version: u32,
    /// The actual trait data
    pub data: TraitData,
    /// Metadata about the trait
    pub metadata: NamedMap<String>,
}

impl View for Trait {
    type V = TraitView;

    open spec fn view(&self) -> TraitView {
        TraitView {
            id: self.id,
            name: self.name@,
            version: self.version,
            data: self.data@,
            metadata: text_map_view(&self.metadata),
        }
    }
}

fn clone_text_map(m: &NamedMap<String>) -> (r: NamedMap<String>)
    ensures
        r@ == m@,
        r.key_list() == m.key_list(),
        r.value_list() == m.value_list(),
{
    let c = m.clone();
    proof {
        assert(c.value_list() =~= m.value_list());
    }
    c
}

impl Clone for Trait {
    fn clone(&self) -> (r: Self)
        ensures
            r@ == self@,
    {
        Trait {
            id: self.id,
            name: self.name.clone(),
            version: self.version,
            data: self.data.clone(),
            metadata: clone_text_map(&self.metadata),
        }
    }
}

impl Trait {
    /// Create a new trait with the given name and data: version 1, no metadata, and a
    /// fresh random identifier.
    pub fn new(name: &str, data: TraitData) -> (t: Self)
        ensures
            t.name@ == name@,
            t.version == 1,
            t.data == data,
            t.metadata@ == Map::<Seq<char>, String>::empty(),
            t.id & v4_mask() == v4_bits(),
    {
        Trait {
            id: fresh_id(),
            name: name.to_owned(),
            version: 1,
            data,
            metadata: NamedMap::new(),
        }
    }

    /// Create a new trait with metadata: version 1 and a fresh random identifier.
    pub fn with_metadata(name: &str, data: TraitData, metadata: NamedMap<String>) -> (t: Self)
        ensures
            t.name@ == name@,
            t.version == 1,
            t.data == data,
            t.metadata == metadata,
            t.id & v4_mask() == v4_bits(),
    {
        Trait {
            id: fresh_id(),
            name: name.to_owned(),
            version: 1,
            data,
            metadata,
        }
    }

    /// Create a new trait with room for `metadata_capacity` metadata entries: version 1,
    /// no metadata yet, and a fresh random identifier.
    pub fn with_capacity(name: &str, data: TraitData, metadata_capacity: usize) -> (t: Self)
        ensures
            t.name@ == name@,
            t.version == 1,
            t.data == data,
            t.metadata@ == Map::<Seq<char>, String>::empty(),
            t.id & v4_mask() == v4_bits(),
    {
        Trait {
            id: fresh_id(),
            name: name.to_owned(),
            version: 1,
            data,
            metadata: NamedMap::with_capacity(metadata_capacity),
        }
    }

    /// Get the trait name
    pub fn name(&self) -> (r: &str)
        ensures
            r@ == self.name@,
    {
        self.name.as_str()
    }

    /// Get the trait data
    pub fn data(&self) -> (r: &TraitData)
        ensures
            *r == self.data,
    {
        &self.data
    }

    /// Get mutable trait data
    pub fn data_mut(&mut self) -> (r: &mut TraitData)
        ensures
            *r == old(self).data,
            final(self).data == *final(r),
            final(self).id == old(self).id,
            final(self).name == old(self).name,
            final(self).version == old(self).version,
            final(self).metadata == old(self).metadata,
    {
        &mut self.data
    }

    /// Get the trait ID
    pub fn id(&self) -> (r: TraitId)
        ensures
            r == self.id,
    {
        self.id
    }

    /// Get the trait version
    pub fn version(&self) -> (r: u32)
        ensures
            r == self.version,
    {
        self.version
    }

    /// Get a metadata value
    pub fn get_metadata(&self, key: &str) -> (r: Option<&String>)
        ensures
            match r {
                Some(v) => self.metadata@.contains_key(key@) && *v == self.metadata@[key@],
                None => !self.metadata@.contains_key(key@),
            },
    {
        self.metadata.get(key)
    }

    /// Set a metadata value
    pub fn set_metadata(&mut self, key: &str, value: &str)
        ensures
            text_map_view(&final(self).metadata) == text_map_view(&old(self).metadata).insert(key@, value@),
            final(self).id == old(self).id,
            final(self).name == old(self).name,
            final(self).version == old(self).version,
            final(self).data == old(self).data,
    {
        let v = value.to_owned();
        let ghost vs = v;
        self.metadata.insert(key.to_owned(), v);
        proof {
            assert(text_map_view(&self.metadata) =~= text_map_view(&old(self).metadata).insert(key@, vs@));
        }
    }

    /// Create the next version of this trait: same name and metadata, the given data,
    /// the version one higher, and a fresh random identifier.
    pub fn new_version(&self, data: TraitData) -> (t: Self)
        requires
            self.version < u32::MAX,
        ensures
            t.name@ == self.name@,
            t.version == self.version + 1,
            t.data == data,
            t.metadata@ == self.metadata@,
            t@.metadata == self@.metadata,
            t.id & v4_mask() == v4_bits(),
    {
        Trait {
            id: fresh_id(),
            name: self.name.clone(),
            version: self.version + 1,
            data,
            metadata: clone_text_map(&self.metadata),
        }
    }

    /// Get metadata count
    pub fn metadata_count(&self) -> (n: usize)
        ensures
            n == self.metadata@.len(),
    {
        self.metadata.len()
    }

    /// Reserve capacity for metadata; the metadata stays as it is.
    pub fn reserve_metadata(&mut self, additional: usize)
        ensures
            final(self)@ == old(self)@,
            final(self).metadata@ == old(self).metadata@,
            final(self).metadata.key_list() == old(self).metadata.key_list(),
            final(self).metadata.value_list() == old(self).metadata.value_list(),
            final(self).id == old(self).id,
            final(self).name == old(self).name,
            final(self).version == old(self).version,
            final(self).data == old(self).data,
    {
        self.metadata.reserve(additional);
    }

    /// Clear all metadata
    pub fn clear_metadata(&mut self)
        ensures
            final(self).metadata@ == Map::<Seq<char>, String>::empty(),
            final(self).id == old(self).id,
            final(self).name == old(self).name,
            final(self).version == old(self).version,
            final(self).data == old(self).data,
    {
        self.metadata.clear();
    }
}

} // verus!
