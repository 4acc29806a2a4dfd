use vstd::prelude::*;

use crate::columns::PlaceBatch;
use crate::columns::PointColumn;
use crate::naming::build_name_from_hierarchy;
use crate::naming::extract_primary_name;
use crate::naming::hierarchy_row_name;
use crate::naming::primary_entry;
use crate::naming::should_skip_subtype;
use crate::naming::skip_row;
use crate::place::place_views;
use crate::place::LoadingPlace;
use crate::place::PlaceView;
use crate::table::all_named;

verus! {

/// The place that row `row` of a batch offers, if any: the batch must have
/// both a names and a geometry column; the row's names must be valid, its
/// subtype not a skipped one, the name built for it not empty, and its point
/// complete.
pub open spec fn row_place(b: PlaceBatch, row: int) -> Option<PlaceView> {
    match (b.names, b.geometry) {
        (Some(names), Some(geometry)) => if !names.validity@[row] {
            None
        } else if skip_row(b.subtype, row) {
            None
        } else {
            let name = hierarchy_row_name(b.hierarchies, row, primary_entry(names.primary, row));
            if name.len() == 0 {
                None
            } else {
                match geometry.point(row) {
                    Some((lat, lon)) => Some(
                        PlaceView { name: name, latitude_bits: lat, longitude_bits: lon },
                    ),
                    None => None,
                }
            }
        },
        _ => None,
    }
}

/// The places that the first `n` rows of a batch offer, in row order.
pub open spec fn batch_places(b: PlaceBatch, n: int) -> Seq<PlaceView>
    decreases n,
{
    if n <= 0 {
        Seq::empty()
    } else {
        batch_places(b, n - 1) + match row_place(b, n - 1) {
            Some(p) => seq![p],
            None => Seq::empty(),
        }
    }
}

/// A batch without a names or without a geometry column offers no place.
pub proof fn lemma_batch_without_columns_is_empty(b: PlaceBatch, n: int)
    requires
        b.names is None || b.geometry is None,
    ensures
        batch_places(b, n) == Seq::<PlaceView>::empty(),
    decreases n,
{
    if n > 0 {
        lemma_batch_without_columns_is_empty(b, n - 1);
        assert(batch_places(b, n) =~= Seq::<PlaceView>::empty());
    }
}

/// Latitude and longitude bits of row `row`, where its point is complete.
pub fn extract_coordinates(geometry: &PointColumn, row: usize) -> (r: Option<(u64, u64)>)
    requires
        geometry.wf(),
        row < geometry.rows(),
    ensures
        r == geometry.point(row as int),
        ({
            &&& geometry.validity@[row as int]
            &&& geometry.x matches Some(x) && x.validity@[row as int]
            &&& geometry.y matches Some(y) && y.validity@[row as int]
        }) ==> r == Some((geometry.y.unwrap().bits@[row as int], geometry.x.unwrap().bits@[row as int])),
        !geometry.validity@[row as int] ==> r is None,
{
    if !geometry.validity[row] {
        return None;
    }
    match (&geometry.x, &geometry.y) {
        (Some(x), Some(y)) => {
            if x.validity[row] && y.validity[row] {
                Some((y.bits[row], x.bits[row]))
            } else {
                None
            }
        },
        _ => None,
    }
}

/// The place that row `row` of a batch offers, if any.
fn row_candidate(batch: &PlaceBatch, row: usize) -> (r: Option<LoadingPlace>)
    requires
        batch.wf(),
        row < batch.num_rows,
    ensures
        match r {
            Some(p) => row_place(*batch, row as int) == Some(p@),
            None => row_place(*batch, row as int) is None,
        },
{
    match (&batch.names, &batch.geometry) {
        (Some(names), Some(geometry)) => {
            if !names.validity[row] {
                return None;
            }
            if should_skip_subtype(&batch.subtype, row) {
                return None;
            }
            let primary_name = extract_primary_name(&names.primary, row);
            let name = build_name_from_hierarchy(&batch.hierarchies, row, primary_name);
            if name.as_str().is_empty() {
                return None;
            }
            match extract_coordinates(geometry, row) {
                Some((latitude_bits, longitude_bits)) => Some(
                    LoadingPlace { name, latitude_bits, longitude_bits },
                ),
                None => None,
            }
        },
        _ => None,
    }
}

/// The places that a batch of divisions offers, one per row that yields a
/// named, located place, in row order.
pub fn batch_candidates(batch: &PlaceBatch) -> (r: Vec<LoadingPlace>)
    requires
        batch.wf(),
    ensures
        place_views(r@) == batch_places(*batch, batch.num_rows as int),
        r@.len() == rows_with_place(*batch, batch.num_rows as int),
        forall|row: int|
            0 <= row < batch.num_rows && #[trigger] row_place(*batch, row) is Some ==> r@[rows_with_place(
                *batch,
                row,
            )]@ == row_place(*batch, row)->0,
{
    let mut out: Vec<LoadingPlace> = Vec::new();
    let mut row: usize = 0;
    while row < batch.num_rows
        invariant
            batch.wf(),
            row <= batch.num_rows,
            place_views(out@) == batch_places(*batch, row as int),
        decreases batch.num_rows - row,
    {
        let ghost before = out@;
        match row_candidate(batch, row) {
            Some(p) => {
                out.push(p);
                assert(place_views(out@) =~= place_views(before) + seq![out@.last()@]);
            },
            None => {},
        }
        assert(place_views(out@) =~= batch_places(*batch, row as int + 1));
        row = row + 1;
    }
    proof {
        lemma_each_row_keeps_its_place(*batch, batch.num_rows as int);
        assert forall|row: int|
            0 <= row < batch.num_rows && #[trigger] row_place(*batch, row) is Some implies out@[rows_with_place(
                *batch,
                row,
            )]@ == row_place(*batch, row)->0 by {
            lemma_rows_with_place_monotone(*batch, row + 1, batch.num_rows as int);
            lemma_rows_with_place_nonneg(*batch, row);
            assert(rows_with_place(*batch, row + 1) == rows_with_place(*batch, row) + 1);
            assert(place_views(out@).len() == out@.len());
            assert(rows_with_place(*batch, row) < out@.len());
            assert(place_views(out@)[rows_with_place(*batch, row)] == out@[rows_with_place(*batch, row)]@);
        }
    }
    out
}


/// Every place that a batch offers has a name, and a batch offers at most one
/// place per row.
pub proof fn lemma_candidates_are_named(b: PlaceBatch, n: int)
    requires
        n >= 0,
    ensures
        all_named(batch_places(b, n)),
        batch_places(b, n).len() <= n,
    decreases n,
{
    if n > 0 {
        lemma_candidates_are_named(b, n - 1);
        let s = batch_places(b, n);
        let prev = batch_places(b, n - 1);
        assert forall|i: int| 0 <= i < s.len() implies #[trigger] s[i].name.len() > 0 by {
            if i < prev.len() {
                assert(s[i] == prev[i]);
            }
        }
    }
}


/// The number of rows among the first `n` of a batch that offer a place.
pub open spec fn rows_with_place(b: PlaceBatch, n: int) -> int
    decreases n,
{
    if n <= 0 {
        0
    } else {
        rows_with_place(b, n - 1) + if row_place(b, n - 1) is Some {
            1int
        } else {
            0int
        }
    }
}

/// Counting offering rows only grows.
pub proof fn lemma_rows_with_place_monotone(b: PlaceBatch, m: int, n: int)
    requires
        0 <= m <= n,
    ensures
        0 <= rows_with_place(b, m) <= rows_with_place(b, n),
    decreases n - m,
{
    if m < n {
        lemma_rows_with_place_monotone(b, m, n - 1);
    } else {
        lemma_rows_with_place_nonneg(b, n);
    }
}

proof fn lemma_rows_with_place_nonneg(b: PlaceBatch, n: int)
    ensures
        rows_with_place(b, n) >= 0,
    decreases n,
{
    if n > 0 {
        lemma_rows_with_place_nonneg(b, n - 1);
    }
}

/// Each row keeps its own place: the places of a batch are one per offering
/// row, whatever the other rows hold, and the place of row `r` stands at the
/// position given by the number of offering rows before it.
pub proof fn lemma_each_row_keeps_its_place(b: PlaceBatch, n: int)
    requires
        n >= 0,
    ensures
        batch_places(b, n).len() == rows_with_place(b, n),
        forall|r: int|
            0 <= r < n && #[trigger] row_place(b, r) is Some ==> batch_places(b, n)[rows_with_place(b, r)]
                == row_place(b, r)->0,
    decreases n,
{
    if n > 0 {
        lemma_each_row_keeps_its_place(b, n - 1);
        let prev = batch_places(b, n - 1);
        let cur = batch_places(b, n);
        assert forall|r: int| 0 <= r < n && #[trigger] row_place(b, r) is Some implies cur[rows_with_place(
            b,
            r,
        )] == row_place(b, r)->0 by {
            if r < n - 1 {
                lemma_rows_with_place_monotone(b, r + 1, n - 1);
                lemma_rows_with_place_nonneg(b, r);
                assert(rows_with_place(b, r + 1) == rows_with_place(b, r) + 1);
                assert(rows_with_place(b, r) < prev.len());
                assert(cur[rows_with_place(b, r)] == prev[rows_with_place(b, r)]);
            } else {
                assert(rows_with_place(b, r) == prev.len());
            }
        }
    }
}

/// A complete point is read as it stands: a valid point whose `x` and `y`
/// entries are valid gives its `y` bits as latitude and its `x` bits as
/// longitude, whatever the values.
pub proof fn lemma_complete_point_is_read(g: PointColumn, row: int)
    requires
        0 <= row < g.rows(),
        g.validity@[row],
        g.x matches Some(x) && x.wf() && x.rows() == g.rows() && x.validity@[row],
        g.y matches Some(y) && y.wf() && y.rows() == g.rows() && y.validity@[row],
    ensures
        g.point(row) == Some((g.y.unwrap().bits@[row], g.x.unwrap().bits@[row])),
{
}

} // verus!
