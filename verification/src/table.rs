use vstd::prelude::*;

use crate::place::opt_place_view;
use crate::place::place_views;
use crate::place::LoadingPlace;
use crate::place::PlaceView;

verus! {

/// What the spatial index answered for a new place: the item (the table
/// index) of the nearest stored place, and whether that place lies within
/// the merge distance of the new one.
pub struct Neighbour {
    pub item: u64,
    pub within_merge_distance: bool,
}

/// What merging a place did to the table, so that the caller can mirror it
/// in the spatial index.
pub enum PlaceUpdate {
    /// The place at `index` was replaced; `previous` is the place it held.
    Replaced { index: u64, previous: LoadingPlace },
    /// The place was appended at `index`.
    Appended { index: u64 },
}

/// The places of a geocoder, indexed by the items of its spatial index.
pub struct PlaceTable {
    places: Vec<LoadingPlace>,
}

/// The place stored for `item`, if the item is in range.
pub open spec fn lookup(t: Seq<PlaceView>, item: int) -> Option<PlaceView> {
    if 0 <= item < t.len() {
        Some(t[item])
    } else {
        None
    }
}

/// The index of the place that a new place replaces: the nearest one, where
/// it lies within the merge distance.
pub open spec fn merge_target(t: Seq<PlaceView>, nearest: Option<Neighbour>) -> Option<int> {
    match nearest {
        Some(n) => if n.within_merge_distance && n.item < t.len() {
            Some(n.item as int)
        } else {
            None
        },
        None => None,
    }
}

/// Where a merged place ends up.
pub open spec fn merge_index(t: Seq<PlaceView>, nearest: Option<Neighbour>) -> int {
    match merge_target(t, nearest) {
        Some(i) => i,
        None => t.len() as int,
    }
}

/// The table after merging `p`: it replaces its near neighbour, or is
/// appended.
pub open spec fn merged(t: Seq<PlaceView>, p: PlaceView, nearest: Option<Neighbour>) -> Seq<PlaceView> {
    match merge_target(t, nearest) {
        Some(i) => t.update(i, p),
        None => t.push(p),
    }
}

/// What a caller of the merge may hand in: a neighbour only where it names a
/// stored place.
pub open spec fn valid_neighbour(t: Seq<PlaceView>, nearest: Option<Neighbour>) -> bool {
    nearest matches Some(n) ==> n.item < t.len()
}

/// Every stored place has a name.
pub open spec fn all_named(t: Seq<PlaceView>) -> bool {
    forall|i: int| 0 <= i < t.len() ==> #[trigger] t[i].name.len() > 0
}

impl View for PlaceTable {
    type V = Seq<PlaceView>;

    closed spec fn view(&self) -> Seq<PlaceView> {
        place_views(self.places@)
    }
}

impl PlaceTable {
    /// An empty table.
    pub fn new() -> (r: PlaceTable)
        ensures
            r@ == Seq::<PlaceView>::empty(),
    {
        let r = PlaceTable { places: Vec::new() };
        assert(r@ =~= Seq::<PlaceView>::empty());
        r
    }

    /// A table of the given places, in their order.
    pub fn from_places(places: Vec<LoadingPlace>) -> (r: PlaceTable)
        ensures
            r@ == place_views(places@),
    {
        PlaceTable { places }
    }

    /// The stored places, in item order.
    pub fn places(&self) -> (r: &Vec<LoadingPlace>)
        ensures
            place_views(r@) == self@,
    {
        &self.places
    }

    /// The number of stored places.
    pub fn len(&self) -> (n: usize)
        ensures
            n == self@.len(),
    {
        self.places.len()
    }

    /// Whether the table holds no place.
    pub fn is_empty(&self) -> (r: bool)
        ensures
            r == (self@.len() == 0),
    {
        self.places.len() == 0
    }

    /// A copy of the place stored for a spatial-index item, or `None` where
    /// the item is out of range.
    pub fn place_for_item(&self, item: u64) -> (r: Option<LoadingPlace>)
        ensures
            opt_place_view(r) == lookup(self@, item as int),
    {
        if item < self.places.len() as u64 {
            Some(self.places[item as usize].duplicate())
        } else {
            None
        }
    }

    /// Merges a new place into the table. Where the table is not empty the
    /// caller asks the spatial index for the nearest stored place and hands
    /// in its item and whether it is within the merge distance; such a place
    /// is replaced by the new one. Otherwise the new place is appended.
    pub fn create_or_update_place(&mut self, place: LoadingPlace, nearest: Option<Neighbour>) -> (r:
        PlaceUpdate)
        requires
            valid_neighbour(old(self)@, nearest),
        ensures
            final(self)@ == merged(old(self)@, place@, nearest),
            match r {
                PlaceUpdate::Replaced { index, previous } => {
                    &&& merge_target(old(self)@, nearest) == Some(index as int)
                    &&& previous@ == old(self)@[index as int]
                    &&& index < final(self)@.len()
                },
                PlaceUpdate::Appended { index } => {
                    &&& merge_target(old(self)@, nearest) is None
                    &&& index == old(self)@.len()
                    &&& index < final(self)@.len()
                },
            },
            nearest is Some && nearest.unwrap().within_merge_distance ==> {
                &&& r matches PlaceUpdate::Replaced { index, previous } && index == nearest.unwrap().item
                    && previous@ == old(self)@[nearest.unwrap().item as int]
                &&& final(self)@ == old(self)@.update(nearest.unwrap().item as int, place@)
            },
            !(nearest is Some && nearest.unwrap().within_merge_distance) ==> {
                &&& r matches PlaceUpdate::Appended { index } && index == old(self)@.len()
                &&& final(self)@ == old(self)@.push(place@)
            },
    {
        let ghost before = self.places@;
        match nearest {
            Some(n) => {
                if n.within_merge_distance {
                    let index = n.item as usize;
                    let previous = self.places[index].duplicate();
                    self.places.set(index, place);
                    assert(place_views(self.places@) =~= place_views(before).update(
                        index as int,
                        self.places@[index as int]@,
                    ));
                    return PlaceUpdate::Replaced { index: n.item, previous };
                }
            },
            None => {},
        }
        let index = self.places.len() as u64;
        self.places.push(place);
        assert(place_views(self.places@) =~= place_views(before).push(self.places@.last()@));
        PlaceUpdate::Appended { index }
    }
}


/// Reading back a merged place: the item at which a merge puts a place gives
/// that place back.
pub proof fn lemma_merged_place_is_found(t: Seq<PlaceView>, p: PlaceView, nearest: Option<Neighbour>)
    requires
        valid_neighbour(t, nearest),
    ensures
        lookup(merged(t, p, nearest), merge_index(t, nearest)) == Some(p),
{
}

/// A merge changes no stored place but the one at the merge index.
pub proof fn lemma_merge_keeps_other_places(
    t: Seq<PlaceView>,
    p: PlaceView,
    nearest: Option<Neighbour>,
    item: int,
)
    requires
        valid_neighbour(t, nearest),
        item != merge_index(t, nearest),
    ensures
        lookup(merged(t, p, nearest), item) == lookup(t, item),
{
}

/// A merge never loses a place: the table keeps its size where the new place
/// replaces a near neighbour, and grows by one otherwise.
pub proof fn lemma_merge_size(t: Seq<PlaceView>, p: PlaceView, nearest: Option<Neighbour>)
    requires
        valid_neighbour(t, nearest),
    ensures
        merge_target(t, nearest) is Some ==> merged(t, p, nearest).len() == t.len(),
        merge_target(t, nearest) is None ==> merged(t, p, nearest).len() == t.len() + 1,
{
}

/// Merging a named place into a table of named places leaves every place
/// named.
pub proof fn lemma_merge_keeps_names(t: Seq<PlaceView>, p: PlaceView, nearest: Option<Neighbour>)
    requires
        valid_neighbour(t, nearest),
        all_named(t),
        p.name.len() > 0,
    ensures
        all_named(merged(t, p, nearest)),
{
    let m = merged(t, p, nearest);
    assert forall|i: int| 0 <= i < m.len() implies #[trigger] m[i].name.len() > 0 by {
        if i == merge_index(t, nearest) {
        } else {
            assert(m[i] == t[i]);
        }
    }
}


/// A new place whose nearest stored place lies within the merge distance
/// replaces exactly that place, whatever its index, and the table keeps its
/// length.
pub proof fn lemma_near_neighbour_is_replaced(t: Seq<PlaceView>, p: PlaceView, n: Neighbour)
    requires
        n.item < t.len(),
        n.within_merge_distance,
    ensures
        merge_target(t, Some(n)) == Some(n.item as int),
        merged(t, p, Some(n)) == t.update(n.item as int, p),
        merged(t, p, Some(n)).len() == t.len(),
        merged(t, p, Some(n))[n.item as int] == p,
{
}

/// A new place with no neighbour, or whose nearest stored place lies beyond
/// the merge distance, is appended after every stored place, which all stay.
pub proof fn lemma_far_place_is_appended(t: Seq<PlaceView>, p: PlaceView, nearest: Option<Neighbour>)
    requires
        valid_neighbour(t, nearest),
        !(nearest matches Some(n) && n.within_merge_distance),
    ensures
        merge_target(t, nearest) is None,
        merged(t, p, nearest) == t.push(p),
        merged(t, p, nearest).len() == t.len() + 1,
        merged(t, p, nearest)[t.len() as int] == p,
{
}

} // verus!
