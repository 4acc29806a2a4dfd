use vstd::prelude::*;

verus! {

/// What the library knows of a populated place: the name that the division
/// hierarchy gives it and its coordinates.
///
/// Coordinates are carried as the IEEE-754 binary64 bit patterns of the
/// latitude and longitude in degrees. The library never computes with them;
/// it only moves them from the batch into the table and back out, so the
/// pattern is all it needs and nothing is lost on the way.
pub struct LoadingPlace {
    pub name: String,
    pub latitude_bits: u64,
    pub longitude_bits: u64,
}

/// The mathematical value of a [`LoadingPlace`].
#[verifier::ext_equal]
pub struct PlaceView {
    pub name: Seq<char>,
    pub latitude_bits: u64,
    pub longitude_bits: u64,
}

impl View for LoadingPlace {
    type V = PlaceView;

    open spec fn view(&self) -> PlaceView {
        PlaceView {
            name: self.name@,
            latitude_bits: self.latitude_bits,
            longitude_bits: self.longitude_bits,
        }
    }
}

/// The view of an optional place.
pub open spec fn opt_place_view(p: Option<LoadingPlace>) -> Option<PlaceView> {
    match p {
        Some(q) => Some(q@),
        None => None,
    }
}

/// The views of a sequence of places, element by element.
pub open spec fn place_views(s: Seq<LoadingPlace>) -> Seq<PlaceView> {
    s.map_values(|p: LoadingPlace| p@)
}

impl LoadingPlace {
    /// A copy of this place, equal to it field by field.
    pub fn duplicate(&self) -> (r: LoadingPlace)
        ensures
            r == *self,
            r@ == self@,
    {
        LoadingPlace {
            name: self.name.clone(),
            latitude_bits: self.latitude_bits,
            longitude_bits: self.longitude_bits,
        }
    }
}

impl Clone for LoadingPlace {
    fn clone(&self) -> (r: LoadingPlace)
        ensures
            r == *self,
    {
        self.duplicate()
    }
}

} // verus!
