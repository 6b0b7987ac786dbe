//! Stores of places, and the check of a path against a store.

use std::collections::HashMap;
use vstd::prelude::*;
use crate::placemodel::pathtypes::Link;
use crate::placemodel::pathtypes::LinkView;
use crate::placemodel::pathtypes::Path;
use crate::primitive::types::AttributeData;
use crate::primitive::types::AttributeView;
use crate::primitive::types::Place;
use crate::primitive::types::PlaceId;
use crate::primitive::types::PlaceView;

verus! {

/// Whether each of `steps` can be taken from the place `from`: the place
/// that was reached is in the store, and has under the name of the step an
/// attribute that is a place, which is then the place that is reached.
pub open spec fn chain_holds(
    places: Map<PlaceId, PlaceView>,
    from: PlaceId,
    steps: Seq<(PlaceId, Seq<char>)>,
) -> bool
    decreases steps.len(),
{
    if steps.len() == 0 {
        true
    } else {
        &&& places.contains_key(from)
        &&& places[from].attr.contains_key(steps[0].1)
        &&& places[from].attr[steps[0].1] matches AttributeView::Place(next)
        &&& chain_holds(places, next, steps.drop_first())
    }
}

/// Whether a path holds in a store: it starts at `root`, and each of its
/// steps behind the first can be taken.
pub open spec fn path_holds(
    places: Map<PlaceId, PlaceView>,
    root: PlaceId,
    steps: Seq<(PlaceId, Seq<char>)>,
) -> bool {
    steps.len() > 0 ==> steps[0].0 == root && chain_holds(places, root, steps.drop_first())
}

/// The place `from` with the place `to` as its attribute `attr`.
pub open spec fn linked_to(from: PlaceView, attr: Seq<char>, to: PlaceId) -> PlaceView {
    PlaceView { attr: from.attr.insert(attr, AttributeView::Place(to)), ..from }
}

/// A store of places by their identifiers.
pub trait PlaceStore {
    /// The places in the store.
    spec fn places(&self) -> Map<PlaceId, PlaceView>;

    /// Puts `place` into the store under its identifier, in place of what
    /// was there.
    fn put_place(&mut self, place: Place)
        ensures
            final(self).places() == old(self).places().insert(place@.id, place@),
    ;

    /// The place with this identifier.
    fn get_place(&self, id: &PlaceId) -> (r: Option<&Place>)
        ensures
            match r {
                Some(place) => self.places().contains_key(*id) && place@ == self.places()[*id],
                None => !self.places().contains_key(*id),
            },
    ;

    /// Takes the place with this identifier out of the store.
    fn delete_place(&mut self, id: &PlaceId)
        ensures
            final(self).places() == old(self).places().remove(*id),
    ;

    /// Puts `place` into the store, and gives the place `from` the
    /// attribute `attr` that leads to it; returns the link between the two.
    /// Where `from` is not in the store, nothing happens.
    fn put_linked_place(&mut self, from: &PlaceId, attr: String, place: Place) -> (r: Option<Link>)
        requires
            attr@.len() > 0,
        ensures
            match r {
                Some(link) => {
                    &&& old(self).places().contains_key(*from)
                    &&& link@ == (LinkView {
                        prev: old(self).places()[*from].id,
                        curr: place@.id,
                        attr_name: attr@,
                    })
                    &&& final(self).places() == old(self).places().insert(
                        old(self).places()[*from].id,
                        linked_to(old(self).places()[*from], attr@, place@.id),
                    ).insert(place@.id, place@)
                },
                None => {
                    &&& !old(self).places().contains_key(*from)
                    &&& final(self).places() == old(self).places()
                },
            },
    {
        let found = match self.get_place(from) {
            Some(from_place) => {
                let mut modified = from_place.clone();
                modified.put_attr(attr.clone(), AttributeData::Place(place.get_id()));
                Some((modified, Link::new(from_place.get_id(), place.get_id(), attr)))
            },
            None => None,
        };
        match found {
            Some((modified, link)) => {
                self.put_place(modified);
                self.put_place(place);
                link
            },
            None => None,
        }
    }

    /// Whether `path` holds in the store, from `root`.
    fn verify_path(&self, root: &PlaceId, path: &Path) -> (r: bool)
        ensures
            r == path_holds(self.places(), *root, path@),
    {
        let steps = path.get_traversal_list();
        if steps.len() == 0 {
            return true;
        }
        if steps[0].0 != *root {
            return false;
        }
        let mut expected: PlaceId = *root;
        let mut i: usize = 1;
        assert(path@.drop_first() =~= path@.skip(1));
        while i < steps.len()
            invariant
                1 <= i <= steps@.len(),
                path@.len() == steps@.len(),
                forall|j: int| 0 <= j < steps@.len() ==> path@[j] == (steps@[j].0, steps@[j].1@),
                chain_holds(self.places(), *root, path@.drop_first()) == chain_holds(
                    self.places(),
                    expected,
                    path@.skip(i as int),
                ),
            decreases steps@.len() - i,
        {
            proof {
                assert(path@.skip(i as int).drop_first() =~= path@.skip(i + 1));
                assert(path@.skip(i as int)[0] == path@[i as int]);
            }
            match self.get_place(&expected) {
                Some(place) => match place.get_attr(&steps[i].1) {
                    Some(AttributeData::Place(next)) => {
                        expected = *next;
                    },
                    _ => {
                        return false;
                    },
                },
                None => {
                    return false;
                },
            }
            i += 1;
        }
        true
    }
}

/// A store that keeps its places in a hash map.
#[derive(Debug)]
pub struct HashMapPlaceStore {
    store: HashMap<PlaceId, Place>,
}

impl HashMapPlaceStore {
    /// A store without places.
    pub fn new() -> (r: HashMapPlaceStore)
        ensures
            r.places() == Map::<PlaceId, PlaceView>::empty(),
    {
        let store = HashMapPlaceStore { store: HashMap::new() };
        assert(store.places() =~= Map::<PlaceId, PlaceView>::empty());
        store
    }
}

impl PlaceStore for HashMapPlaceStore {
    closed spec fn places(&self) -> Map<PlaceId, PlaceView> {
        self.store@.map_values(|place: Place| place@)
    }

    fn put_place(&mut self, place: Place) {
        broadcast use vstd::std_specs::hash::group_hash_axioms;

        let ghost id = place@.id;
        let ghost view = place@;
        self.store.insert(place.get_id(), place);
        assert(self.places() =~= old(self).places().insert(id, view));
    }

    fn get_place(&self, id: &PlaceId) -> (r: Option<&Place>) {
        broadcast use vstd::std_specs::hash::group_hash_axioms;

        self.store.get(id)
    }

    fn delete_place(&mut self, id: &PlaceId) {
        broadcast use vstd::std_specs::hash::group_hash_axioms;

        self.store.remove(id);
        assert(self.places() =~= old(self).places().remove(*id));
    }
}

} // verus!
