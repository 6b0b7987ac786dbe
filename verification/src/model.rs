//! Primitive literals, and places that carry a name.

use vstd::prelude::*;
use vstd::string::StringExecFns;
use crate::assoc::entries_map;
use crate::assoc::find_entry;
use crate::assoc::lemma_entries_alike;
use crate::assoc::lemma_entry_absent;
use crate::assoc::lemma_entry_found;
use crate::assoc::lemma_entry_pushed;
use crate::assoc::lemma_entry_update;
use crate::ids::is_random_id;
use crate::ids::random_id;

verus! {

/// What a primitive literal is, with text held as character sequences.
pub enum PrimitiveView {
    Bool(bool),
    Byte(u8),
    Int(i64),
    Float(u64),
    String(Seq<char>),
    Name(Seq<char>),
}

/// Atomic data. A `Float` holds the bit pattern of a double, and a `Name` is
/// an identifier that has not been resolved.
#[derive(Debug, PartialEq)]
pub enum PrimitiveData {
    Bool(bool),
    Byte(u8),
    Int(i64),
    Float(u64),
    String(String),
    Name(String),
}

impl View for PrimitiveData {
    type V = PrimitiveView;

    open spec fn view(&self) -> PrimitiveView {
        match *self {
            PrimitiveData::Bool(b) => PrimitiveView::Bool(b),
            PrimitiveData::Byte(b) => PrimitiveView::Byte(b),
            PrimitiveData::Int(i) => PrimitiveView::Int(i),
            PrimitiveData::Float(bits) => PrimitiveView::Float(bits),
            PrimitiveData::String(s) => PrimitiveView::String(s@),
            PrimitiveData::Name(s) => PrimitiveView::Name(s@),
        }
    }
}

impl Clone for PrimitiveData {
    fn clone(&self) -> (r: Self)
        ensures
            r@ == self@,
    {
        match self {
            PrimitiveData::Bool(b) => PrimitiveData::Bool(*b),
            PrimitiveData::Byte(b) => PrimitiveData::Byte(*b),
            PrimitiveData::Int(i) => PrimitiveData::Int(*i),
            PrimitiveData::Float(bits) => PrimitiveData::Float(*bits),
            PrimitiveData::String(s) => PrimitiveData::String(s.clone()),
            PrimitiveData::Name(s) => PrimitiveData::Name(s.clone()),
        }
    }
}

/// The identifier of a place: the 128 bits of a UUID.
pub type PlaceId = u128;

/// What an attribute of a place is.
pub enum PlaceDataView {
    Place(PlaceId),
    Data(PrimitiveView),
}

/// An attribute of a place: another place, or primitive data.
#[derive(Debug, PartialEq)]
pub enum PlaceData {
    Place(PlaceId),
    Data(PrimitiveData),
}

impl View for PlaceData {
    type V = PlaceDataView;

    open spec fn view(&self) -> PlaceDataView {
        match self {
            PlaceData::Place(id) => PlaceDataView::Place(*id),
            PlaceData::Data(data) => PlaceDataView::Data(data@),
        }
    }
}

impl Clone for PlaceData {
    fn clone(&self) -> (r: Self)
        ensures
            r@ == self@,
    {
        match self {
            PlaceData::Place(id) => PlaceData::Place(*id),
            PlaceData::Data(data) => PlaceData::Data(data.clone()),
        }
    }
}

/// What a place is: its identifier, its name and its attributes by name.
pub struct PlaceView {
    pub id: PlaceId,
    pub name: Seq<char>,
    pub attr: Map<Seq<char>, PlaceDataView>,
}

/// A place with a name.
#[derive(Debug)]
pub struct Place {
    id: PlaceId,
    name: String,
    attr: Vec<(String, PlaceData)>,
}

impl View for Place {
    type V = PlaceView;

    closed spec fn view(&self) -> PlaceView {
        PlaceView { id: self.id, name: self.name@, attr: entries_map(self.attr@) }
    }
}

fn clone_attributes(attr: &Vec<(String, PlaceData)>) -> (r: Vec<(String, PlaceData)>)
    ensures
        entries_map(r@) == entries_map(attr@),
{
    let mut out: Vec<(String, PlaceData)> = Vec::new();
    let mut i: usize = 0;
    while i < attr.len()
        invariant
            i <= attr@.len(),
            out@.len() == i,
            forall|j: int| 0 <= j < i ==> out@[j].0@ == attr@[j].0@ && out@[j].1@ == attr@[j].1@,
        decreases attr@.len() - i,
    {
        out.push((attr[i].0.clone(), attr[i].1.clone()));
        i += 1;
    }
    proof {
        lemma_entries_alike(out@, attr@);
    }
    out
}

impl Clone for Place {
    /// A place with the same name and the same attributes, and an
    /// identifier of its own, made from random bytes.
    fn clone(&self) -> (r: Self)
        ensures
            is_random_id(r@.id),
            r@.name == self@.name,
            r@.attr == self@.attr,
    {
        Place {
            id: Place::generate_id(),
            name: self.name.clone(),
            attr: clone_attributes(&self.attr),
        }
    }
}

impl Place {
    /// An identifier made from random bytes.
    pub fn generate_id() -> (r: PlaceId)
        ensures
            is_random_id(r),
    {
        random_id()
    }

    /// A place with this name and these attributes, and an identifier made
    /// from random bytes; where a name stands twice among the attributes,
    /// its later attribute counts.
    pub fn new(name: String, attr: Vec<(String, PlaceData)>) -> (r: Place)
        ensures
            is_random_id(r@.id),
            r@.name == name@,
            r@.attr == entries_map(attr@),
    {
        Place { id: Place::generate_id(), name, attr }
    }

    /// The identifier.
    pub fn id(&self) -> (r: PlaceId)
        ensures
            r == self@.id,
    {
        self.id
    }

    /// The name.
    pub fn name(&self) -> (r: &String)
        ensures
            r@ == self@.name,
    {
        &self.name
    }

    /// The attributes, each under its name; where a name stands twice, its
    /// later attribute counts.
    pub fn attributes(&self) -> (r: &Vec<(String, PlaceData)>)
        ensures
            entries_map(r@) == self@.attr,
    {
        &self.attr
    }

    /// Whether the place has an attribute of this name.
    pub fn contains_key(&self, key: String) -> (r: bool)
        ensures
            r == self@.attr.contains_key(key@),
    {
        self.get_attr(key).is_some()
    }

    /// The attribute of this name.
    pub fn get_attr(&self, key: String) -> (r: Option<&PlaceData>)
        ensures
            match r {
                Some(data) => self@.attr.contains_key(key@) && data@ == self@.attr[key@],
                None => !self@.attr.contains_key(key@),
            },
    {
        match find_entry(&self.attr, &key) {
            Some(i) => {
                proof {
                    lemma_entry_found(self.attr@, i as int, key@);
                }
                Some(&self.attr[i].1)
            },
            None => {
                proof {
                    lemma_entry_absent(self.attr@, key@);
                }
                None
            },
        }
    }

    /// Gives the place this attribute, in place of the one that it had under
    /// the name.
    pub fn put_attr(&mut self, key: String, value: PlaceData)
        ensures
            final(self)@ == (PlaceView {
                attr: old(self)@.attr.insert(key@, value@),
                ..old(self)@
            }),
    {
        let entry = (key, value);
        match find_entry(&self.attr, &entry.0) {
            Some(i) => {
                proof {
                    lemma_entry_update(self.attr@, i as int, entry);
                }
                self.attr[i] = entry;
            },
            None => {
                proof {
                    lemma_entry_pushed(self.attr@, entry);
                }
                self.attr.push(entry);
            },
        }
    }

    /// A place with the name `name` and an identifier made from random
    /// bytes. Where this place has an attribute under `key`, it is the one
    /// attribute of the new place, under `value`; else the new place has no
    /// attribute. This place stays as it is.
    pub fn reify_attr(&mut self, name: String, key: String) -> (r: Place)
        ensures
            final(self)@ == old(self)@,
            is_random_id(r@.id),
            r@.name == name@,
            r@.attr == if old(self)@.attr.contains_key(key@) {
                Map::<Seq<char>, PlaceDataView>::empty().insert("value"@, old(self)@.attr[key@])
            } else {
                Map::<Seq<char>, PlaceDataView>::empty()
            },
    {
        let mut place = Place { id: Place::generate_id(), name, attr: Vec::new() };
        if let Some(data) = self.get_attr(key) {
            place.put_attr("value".to_owned(), data.clone());
        }
        place
    }
}

/// The names with a dot between each two of them.
pub open spec fn dotted(names: Seq<Seq<char>>) -> Seq<char>
    decreases names.len(),
{
    if names.len() == 0 {
        Seq::empty()
    } else if names.len() == 1 {
        names[0]
    } else {
        dotted(names.drop_last()) + "."@ + names.last()
    }
}

/// What a path is.
pub struct PathView {
    pub parent: PlaceId,
    pub current: PlaceId,
    pub name_list: Seq<Seq<char>>,
}

/// A way from a place to a place by names.
#[derive(Debug)]
pub struct Path {
    parent: PlaceId,
    current: PlaceId,
    name_list: Vec<String>,
}

impl View for Path {
    type V = PathView;

    closed spec fn view(&self) -> PathView {
        PathView {
            parent: self.parent,
            current: self.current,
            name_list: Seq::new(self.name_list@.len(), |i: int| self.name_list@[i]@),
        }
    }
}

impl Clone for Path {
    fn clone(&self) -> (r: Self)
        ensures
            r@ == self@,
    {
        let mut name_list: Vec<String> = Vec::new();
        let mut i: usize = 0;
        while i < self.name_list.len()
            invariant
                i <= self.name_list@.len(),
                name_list@.len() == i,
                forall|j: int| 0 <= j < i ==> name_list@[j]@ == self.name_list@[j]@,
            decreases self.name_list@.len() - i,
        {
            name_list.push(self.name_list[i].clone());
            i += 1;
        }
        let path = Path { parent: self.parent, current: self.current, name_list };
        assert(path@.name_list =~= self@.name_list);
        path
    }
}

impl Path {
    /// The path from `parent` to `current` by these names.
    pub fn new(parent: PlaceId, current: PlaceId, name_list: Vec<String>) -> (r: Path)
        ensures
            r@ == (PathView {
                parent,
                current,
                name_list: Seq::new(name_list@.len(), |i: int| name_list@[i]@),
            }),
    {
        Path { parent, current, name_list }
    }

    /// The path as text: its names with a dot between each two of them.
    pub fn to_text(&self) -> (r: String)
        ensures
            r@ == dotted(self@.name_list),
    {
        let ghost names = self@.name_list;
        let mut text = String::new();
        let mut i: usize = 0;
        assert(names.take(0) =~= Seq::empty());
        while i < self.name_list.len()
            invariant
                i <= self.name_list@.len(),
                names == self@.name_list,
                names.len() == self.name_list@.len(),
                text@ == dotted(names.take(i as int)),
            decreases self.name_list@.len() - i,
        {
            proof {
                assert(names.take(i + 1).drop_last() =~= names.take(i as int));
                assert(names.take(i + 1).last() == self.name_list@[i as int]@);
                if i == 0 {
                    assert(text@ + self.name_list@[0]@ =~= self.name_list@[0]@);
                }
            }
            if i > 0 {
                text.append(".");
            }
            text.append(self.name_list[i].as_str());
            i += 1;
        }
        assert(names.take(i as int) =~= names);
        text
    }
}

} // verus!
