//! Links between places, and paths that are made of them.

use vstd::prelude::*;
use crate::primitive::types::PlaceId;

verus! {

/// What a link is.
pub struct LinkView {
    pub prev: PlaceId,
    pub curr: PlaceId,
    pub attr_name: Seq<char>,
}

/// A relationship between two places through an attribute: the place
/// `prev` has the place `curr` as its attribute `attr_name`.
#[derive(Debug)]
pub struct Link {
    prev: PlaceId,
    curr: PlaceId,
    attr_name: String,
}

impl View for Link {
    type V = LinkView;

    closed spec fn view(&self) -> LinkView {
        LinkView { prev: self.prev, curr: self.curr, attr_name: self.attr_name@ }
    }
}

impl Clone for Link {
    fn clone(&self) -> (r: Self)
        ensures
            r@ == self@,
    {
        Link { prev: self.prev, curr: self.curr, attr_name: self.attr_name.clone() }
    }
}

impl Link {
    /// A link, where the name of the attribute is not empty.
    pub fn new(prev: PlaceId, curr: PlaceId, attr_name: String) -> (r: Option<Link>)
        ensures
            match r {
                Some(link) => attr_name@.len() > 0 && link@ == (LinkView {
                    prev,
                    curr,
                    attr_name: attr_name@,
                }),
                None => attr_name@.len() == 0,
            },
    {
        if attr_name.as_str().is_empty() {
            return None;
        }
        Some(Link { prev, curr, attr_name })
    }

    pub fn get_prev(&self) -> (r: &PlaceId)
        ensures
            *r == self@.prev,
    {
        &self.prev
    }

    pub fn get_curr(&self) -> (r: &PlaceId)
        ensures
            *r == self@.curr,
    {
        &self.curr
    }

    pub fn get_attr_name(&self) -> (r: &String)
        ensures
            r@ == self@.attr_name,
    {
        &self.attr_name
    }
}

/// What steps are: each a place, and the name of the attribute that leads to
/// it.
pub open spec fn steps_view(steps: Seq<(PlaceId, String)>) -> Seq<(PlaceId, Seq<char>)> {
    Seq::new(steps.len(), |i: int| (steps[i].0, steps[i].1@))
}

/// A traversal from place to place: the place at which it starts, under the
/// empty name, and then each place that it reaches, under the name of the
/// attribute that leads to it.
#[derive(Debug)]
pub struct Path {
    traversal_list: Vec<(PlaceId, String)>,
}

impl View for Path {
    type V = Seq<(PlaceId, Seq<char>)>;

    closed spec fn view(&self) -> Seq<(PlaceId, Seq<char>)> {
        steps_view(self.traversal_list@)
    }
}

impl Path {
    /// The path that starts at `place` and goes nowhere.
    pub fn with_root(place: PlaceId) -> (r: Path)
        ensures
            r@ == seq![(place, Seq::<char>::empty())],
    {
        let mut traversal_list: Vec<(PlaceId, String)> = Vec::new();
        traversal_list.push((place, String::new()));
        let path = Path { traversal_list };
        assert(path@ =~= seq![(place, Seq::<char>::empty())]);
        path
    }

    /// The path that is this one link.
    pub fn from_single_link(link: Link) -> (r: Path)
        ensures
            r@ == seq![(link@.prev, Seq::<char>::empty()), (link@.curr, link@.attr_name)],
    {
        let mut traversal_list: Vec<(PlaceId, String)> = Vec::new();
        traversal_list.push((link.prev, String::new()));
        traversal_list.push((link.curr, link.attr_name));
        let path = Path { traversal_list };
        assert(path@ =~= seq![(link@.prev, Seq::<char>::empty()), (link@.curr, link@.attr_name)]);
        path
    }

    /// The steps of the path.
    pub fn get_traversal_list(&self) -> (r: &Vec<(PlaceId, String)>)
        ensures
            steps_view(r@) == self@,
    {
        &self.traversal_list
    }

    /// Adds `link` to the end of the path, where it starts at the place at
    /// which the path ends and names an attribute; says whether it did.
    pub fn push_link(&mut self, link: Link) -> (r: bool)
        ensures
            r == (old(self)@.len() > 0 && old(self)@.last().0 == link@.prev
                && link@.attr_name.len() > 0),
            final(self)@ == if r {
                old(self)@.push((link@.curr, link@.attr_name))
            } else {
                old(self)@
            },
    {
        let len = self.traversal_list.len();
        if len > 0 && link.prev == self.traversal_list[len - 1].0 {
            if link.attr_name.as_str().is_empty() {
                return false;
            }
            self.traversal_list.push((link.curr, link.attr_name));
            assert(self@ =~= old(self)@.push((link@.curr, link@.attr_name)));
            return true;
        }
        false
    }

    /// Takes the last step from the path, where it has one, whatever `link`
    /// is; says whether it did.
    pub fn pop_link(&mut self, link: Link) -> (r: bool)
        ensures
            r == (old(self)@.len() > 0),
            final(self)@ == if r {
                old(self)@.drop_last()
            } else {
                old(self)@
            },
    {
        if self.traversal_list.len() > 0 {
            let last = self.traversal_list.pop();
            assert(self@ =~= old(self)@.drop_last());
            return last.is_some();
        }
        false
    }
}

} // verus!
