//! Places: objects with an identifier and named attributes, which may form
//! a graph.

use vstd::prelude::*;
use crate::assoc::entries_map;
use crate::assoc::find_entry;
use crate::assoc::lemma_entries_alike;
use crate::assoc::lemma_entry_absent;
use crate::assoc::lemma_entry_found;
use crate::assoc::lemma_entry_pushed;
use crate::assoc::lemma_entry_update;
use crate::ids::is_random_id;
use crate::ids::random_id;

verus! {

/// The identifier of a place: the 128 bits of a UUID.
pub type PlaceId = u128;

/// What a piece of primitive data is, with text held as character sequences.
pub enum PrimitiveView {
    Bool(bool),
    Byte(u8),
    Int(i64),
    Unsigned(u64),
    Float(u64),
    String(Seq<char>),
    Name(Seq<char>),
}

/// Primitive data that stands alone. A `Float` holds the bit pattern of a
/// double.
#[derive(Debug, PartialEq)]
pub enum PrimitiveData {
    Bool(bool),
    Byte(u8),
    Int(i64),
    Unsigned(u64),
    Float(u64),
    String(String),
    Name(String),
}

impl View for PrimitiveData {
    type V = PrimitiveView;

    open spec fn view(&self) -> PrimitiveView {
        match *self {
            PrimitiveData::Bool(b) => PrimitiveView::Bool(b),
            PrimitiveData::Byte(b) => PrimitiveView::Byte(b),
            PrimitiveData::Int(i) => PrimitiveView::Int(i),
            PrimitiveData::Unsigned(u) => PrimitiveView::Unsigned(u),
            PrimitiveData::Float(bits) => PrimitiveView::Float(bits),
            PrimitiveData::String(s) => PrimitiveView::String(s@),
            PrimitiveData::Name(s) => PrimitiveView::Name(s@),
        }
    }
}

impl Clone for PrimitiveData {
    fn clone(&self) -> (r: Self)
        ensures
            r@ == self@,
    {
        match self {
            PrimitiveData::Bool(b) => PrimitiveData::Bool(*b),
            PrimitiveData::Byte(b) => PrimitiveData::Byte(*b),
            PrimitiveData::Int(i) => PrimitiveData::Int(*i),
            PrimitiveData::Unsigned(u) => PrimitiveData::Unsigned(*u),
            PrimitiveData::Float(bits) => PrimitiveData::Float(*bits),
            PrimitiveData::String(s) => PrimitiveData::String(s.clone()),
            PrimitiveData::Name(s) => PrimitiveData::Name(s.clone()),
        }
    }
}

/// What an attribute is.
pub enum AttributeView {
    Place(PlaceId),
    Data(PrimitiveView),
}

/// An attribute of a place: another place, or primitive data.
#[derive(Debug, PartialEq)]
pub enum AttributeData {
    Place(PlaceId),
    Data(PrimitiveData),
}

impl View for AttributeData {
    type V = AttributeView;

    open spec fn view(&self) -> AttributeView {
        match self {
            AttributeData::Place(id) => AttributeView::Place(*id),
            AttributeData::Data(data) => AttributeView::Data(data@),
        }
    }
}

impl Clone for AttributeData {
    fn clone(&self) -> (r: Self)
        ensures
            r@ == self@,
    {
        match self {
            AttributeData::Place(id) => AttributeData::Place(*id),
            AttributeData::Data(data) => AttributeData::Data(data.clone()),
        }
    }
}

/// What a place is: its identifier and its attributes by name.
pub struct PlaceView {
    pub id: PlaceId,
    pub attr: Map<Seq<char>, AttributeView>,
}

/// A place.
#[derive(Debug)]
pub struct Place {
    id: PlaceId,
    attr: Vec<(String, AttributeData)>,
}

impl View for Place {
    type V = PlaceView;

    closed spec fn view(&self) -> PlaceView {
        PlaceView { id: self.id, attr: entries_map(self.attr@) }
    }
}

impl Clone for Place {
    /// A place with the same identifier and the same attributes.
    fn clone(&self) -> (r: Self)
        ensures
            r@ == self@,
    {
        let mut attr: Vec<(String, AttributeData)> = Vec::new();
        let mut i: usize = 0;
        while i < self.attr.len()
            invariant
                i <= self.attr@.len(),
                attr@.len() == i,
                forall|j: int|
                    0 <= j < i ==> attr@[j].0@ == self.attr@[j].0@ && attr@[j].1@
                        == self.attr@[j].1@,
            decreases self.attr@.len() - i,
        {
            attr.push((self.attr[i].0.clone(), self.attr[i].1.clone()));
            i += 1;
        }
        proof {
            lemma_entries_alike(attr@, self.attr@);
        }
        Place { id: self.id, attr }
    }
}

/// To leave out every entry of a name is to remove the name from the map.
proof fn lemma_entries_without(
    entries: Seq<(String, AttributeData)>,
    kept: Seq<(String, AttributeData)>,
    name: Seq<char>,
    keep: spec_fn((String, AttributeData)) -> bool,
)
    requires
        forall|entry: (String, AttributeData)| keep(entry) == (entry.0@ != name),
        kept == entries.filter(keep),
    ensures
        entries_map(kept) == entries_map(entries).remove(name),
    decreases entries.len(),
{
    reveal(Seq::filter);
    if entries.len() == 0 {
        assert(entries_map(kept) =~= entries_map(entries).remove(name));
    } else {
        let before = entries.drop_last().filter(keep);
        lemma_entries_without(entries.drop_last(), before, name, keep);
        if keep(entries.last()) {
            assert(kept == before.push(entries.last()));
            assert(kept.drop_last() =~= before);
            assert(entries_map(kept) =~= entries_map(entries).remove(name));
        } else {
            assert(kept == before);
            assert(entries_map(kept) =~= entries_map(entries).remove(name));
        }
    }
}

impl Place {
    /// An identifier made from random bytes.
    pub fn generate_id() -> (r: PlaceId)
        ensures
            is_random_id(r),
    {
        random_id()
    }

    /// A place without attributes, with an identifier made from random
    /// bytes.
    pub fn generate_new() -> (r: Place)
        ensures
            is_random_id(r@.id),
            r@.attr == Map::<Seq<char>, AttributeView>::empty(),
    {
        Place { id: Place::generate_id(), attr: Vec::new() }
    }

    /// A place with this identifier and these attributes; where a name
    /// stands twice, its later attribute counts.
    pub fn new(id: PlaceId, attr: Vec<(String, AttributeData)>) -> (r: Place)
        ensures
            r@ == (PlaceView { id, attr: entries_map(attr@) }),
    {
        Place { id, attr }
    }

    /// Whether the place has an attribute of this name.
    pub fn contains_key(&self, key: &String) -> (r: bool)
        ensures
            r == self@.attr.contains_key(key@),
    {
        self.get_attr(key).is_some()
    }

    /// The attribute of this name.
    pub fn get_attr(&self, key: &String) -> (r: Option<&AttributeData>)
        ensures
            match r {
                Some(data) => self@.attr.contains_key(key@) && data@ == self@.attr[key@],
                None => !self@.attr.contains_key(key@),
            },
    {
        match find_entry(&self.attr, key) {
            Some(i) => {
                proof {
                    lemma_entry_found(self.attr@, i as int, key@);
                }
                Some(&self.attr[i].1)
            },
            None => {
                proof {
                    lemma_entry_absent(self.attr@, key@);
                }
                None
            },
        }
    }

    /// Gives the place this attribute, in place of the one that it had under
    /// the name.
    pub fn put_attr(&mut self, key: String, value: AttributeData)
        ensures
            final(self)@ == (PlaceView {
                attr: old(self)@.attr.insert(key@, value@),
                ..old(self)@
            }),
    {
        let entry = (key, value);
        match find_entry(&self.attr, &entry.0) {
            Some(i) => {
                proof {
                    lemma_entry_update(self.attr@, i as int, entry);
                }
                self.attr[i] = entry;
            },
            None => {
                proof {
                    lemma_entry_pushed(self.attr@, entry);
                }
                self.attr.push(entry);
            },
        }
    }

    /// A place with the identifier `id` whose one attribute, `value`, is
    /// the attribute that this place has under `key`; none where it has no
    /// such attribute. This place stays as it is.
    pub fn reify_attr(&mut self, key: &String, id: PlaceId) -> (r: Option<Place>)
        ensures
            final(self)@ == old(self)@,
            match r {
                Some(place) => old(self)@.attr.contains_key(key@) && place@ == (PlaceView {
                    id,
                    attr: Map::<Seq<char>, AttributeView>::empty().insert(
                        "value"@,
                        old(self)@.attr[key@],
                    ),
                }),
                None => !old(self)@.attr.contains_key(key@),
            },
    {
        match self.get_attr(key) {
            None => None,
            Some(data) => {
                let mut place = Place { id, attr: Vec::new() };
                place.put_attr("value".to_owned(), data.clone());
                Some(place)
            },
        }
    }

    /// Takes the attribute of this name away, where there is one.
    pub fn remove_attr(&mut self, key: &String)
        ensures
            final(self)@ == (PlaceView { attr: old(self)@.attr.remove(key@), ..old(self)@ }),
    {
        let ghost keep = |entry: (String, AttributeData)| entry.0@ != key@;
        let mut kept: Vec<(String, AttributeData)> = Vec::new();
        let mut i: usize = 0;
        proof {
            reveal(Seq::filter);
            assert(self.attr@.take(0) =~= Seq::empty());
        }
        while i < self.attr.len()
            invariant
                i <= self.attr@.len(),
                keep == |entry: (String, AttributeData)| entry.0@ != key@,
                entries_map(kept@) == entries_map(self.attr@.take(i as int).filter(keep)),
                self.attr@ == old(self).attr@,
            decreases self.attr@.len() - i,
        {
            proof {
                reveal(Seq::filter);
                assert(self.attr@.take(i + 1).drop_last() =~= self.attr@.take(i as int));
                assert(self.attr@.take(i + 1).last() == self.attr@[i as int]);
            }
            if self.attr[i].0 != *key {
                let entry = (self.attr[i].0.clone(), self.attr[i].1.clone());
                proof {
                    let before = self.attr@.take(i as int).filter(keep);
                    lemma_entry_pushed(kept@, entry);
                    lemma_entry_pushed(before, self.attr@[i as int]);
                }
                kept.push(entry);
            }
            i += 1;
        }
        proof {
            assert(self.attr@.take(i as int) =~= self.attr@);
            lemma_entries_without(self.attr@, self.attr@.filter(keep), key@, keep);
        }
        self.attr = kept;
    }

    /// The identifier.
    pub fn get_id(&self) -> (r: PlaceId)
        ensures
            r == self@.id,
    {
        self.id
    }
}

} // verus!
