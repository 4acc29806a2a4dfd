use vstd::prelude::*;

verus! {

/// A column of text: one value and one validity flag per row, as an Arrow
/// string array holds them (a null row still has a value slot).
pub struct StringColumn {
    pub values: Vec<String>,
    pub validity: Vec<bool>,
}

/// A column of binary64 numbers, carried as their bit patterns, with one
/// validity flag per row.
pub struct FloatBitsColumn {
    pub bits: Vec<u64>,
    pub validity: Vec<bool>,
}

/// The geometry column of a batch of point divisions: a struct column whose
/// `x` (longitude) and `y` (latitude) children are present where they are
/// binary64 columns.
pub struct PointColumn {
    pub validity: Vec<bool>,
    pub x: Option<FloatBitsColumn>,
    pub y: Option<FloatBitsColumn>,
}

/// The `names` struct column, with its `primary` child where that is a
/// string column.
pub struct NamesColumn {
    pub validity: Vec<bool>,
    pub primary: Option<StringColumn>,
}

/// The entries of all hierarchies of a batch: a struct array of `len` rows
/// whose `subtype` and `name` children are present where they are string
/// columns.
pub struct HierarchyEntries {
    pub len: usize,
    pub subtype: Option<StringColumn>,
    pub name: Option<StringColumn>,
}

/// The inner lists of the `hierarchies` column: each is one hierarchy, given
/// by a range of `offsets` into the entries. `entries` is absent where the
/// child array is not a struct array.
pub struct HierarchyItemLists {
    pub offsets: Vec<i32>,
    pub entries_len: usize,
    pub entries: Option<HierarchyEntries>,
}

/// The `hierarchies` column: for each row a list of hierarchies, given by a
/// range of `offsets` into a child of `values_len` lists. `items` is absent
/// where that child is not a list array.
pub struct HierarchyLists {
    pub validity: Vec<bool>,
    pub offsets: Vec<i32>,
    pub values_len: usize,
    pub items: Option<HierarchyItemLists>,
}

/// What the loader reads of one record batch of divisions. A column is
/// absent where the batch has none of that name or it has another type.
pub struct PlaceBatch {
    pub num_rows: usize,
    pub subtype: Option<StringColumn>,
    pub names: Option<NamesColumn>,
    pub geometry: Option<PointColumn>,
    pub hierarchies: Option<HierarchyLists>,
}

/// Every offset lies in `[0, bound]`.
pub open spec fn offsets_within(offsets: Seq<i32>, bound: int) -> bool {
    forall|k: int| 0 <= k < offsets.len() ==> 0 <= #[trigger] offsets[k] <= bound
}

/// Checks `offsets_within` at run time.
pub fn check_offsets_within(offsets: &Vec<i32>, bound: usize) -> (r: bool)
    ensures
        r == offsets_within(offsets@, bound as int),
{
    let mut k: usize = 0;
    while k < offsets.len()
        invariant
            k <= offsets.len(),
            offsets_within(offsets@.take(k as int), bound as int),
        decreases offsets.len() - k,
    {
        let o = offsets[k];
        if o < 0 || (o as usize) > bound {
            assert(!(0 <= offsets@[k as int] <= bound));
            return false;
        }
        assert(offsets@.take(k as int + 1) =~= offsets@.take(k as int).push(o));
        k = k + 1;
    }
    assert(offsets@.take(k as int) =~= offsets@);
    true
}

impl StringColumn {
    pub open spec fn rows(&self) -> nat {
        self.validity@.len()
    }

    pub open spec fn wf(&self) -> bool {
        self.values@.len() == self.validity@.len()
    }

    /// The text of row `i`, where the row is in range and valid.
    pub open spec fn entry(&self, i: int) -> Option<Seq<char>> {
        if 0 <= i < self.rows() && self.validity@[i] {
            Some(self.values@[i]@)
        } else {
            None
        }
    }

    pub fn check_well_formed(&self) -> (r: bool)
        ensures
            r == self.wf(),
    {
        self.values.len() == self.validity.len()
    }
}

impl FloatBitsColumn {
    pub open spec fn rows(&self) -> nat {
        self.validity@.len()
    }

    pub open spec fn wf(&self) -> bool {
        self.bits@.len() == self.validity@.len()
    }

    /// The bit pattern of row `i`, where the row is in range and valid.
    pub open spec fn entry(&self, i: int) -> Option<u64> {
        if 0 <= i < self.rows() && self.validity@[i] {
            Some(self.bits@[i])
        } else {
            None
        }
    }

    pub fn check_well_formed(&self) -> (r: bool)
        ensures
            r == self.wf(),
    {
        self.bits.len() == self.validity.len()
    }
}

impl PointColumn {
    pub open spec fn rows(&self) -> nat {
        self.validity@.len()
    }

    pub open spec fn wf(&self) -> bool {
        &&& (self.x matches Some(x) ==> x.wf() && x.rows() == self.rows())
        &&& (self.y matches Some(y) ==> y.wf() && y.rows() == self.rows())
    }

    /// Latitude and longitude bits of row `i`: where the point, its `y` and
    /// its `x` are all valid there.
    pub open spec fn point(&self, i: int) -> Option<(u64, u64)> {
        if 0 <= i < self.rows() && self.validity@[i] {
            match (self.x, self.y) {
                (Some(x), Some(y)) => match (x.entry(i), y.entry(i)) {
                    (Some(lon), Some(lat)) => Some((lat, lon)),
                    _ => None,
                },
                _ => None,
            }
        } else {
            None
        }
    }

    pub fn check_well_formed(&self) -> (r: bool)
        ensures
            r == self.wf(),
    {
        let x_ok = match &self.x {
            Some(x) => x.check_well_formed() && x.validity.len() == self.validity.len(),
            None => true,
        };
        let y_ok = match &self.y {
            Some(y) => y.check_well_formed() && y.validity.len() == self.validity.len(),
            None => true,
        };
        x_ok && y_ok
    }
}

impl NamesColumn {
    pub open spec fn rows(&self) -> nat {
        self.validity@.len()
    }

    pub open spec fn wf(&self) -> bool {
        self.primary matches Some(p) ==> p.wf() && p.rows() == self.rows()
    }

    pub fn check_well_formed(&self) -> (r: bool)
        ensures
            r == self.wf(),
    {
        match &self.primary {
            Some(p) => p.check_well_formed() && p.validity.len() == self.validity.len(),
            None => true,
        }
    }
}

impl HierarchyEntries {
    pub open spec fn wf(&self) -> bool {
        &&& (self.subtype matches Some(s) ==> s.wf() && s.rows() == self.len)
        &&& (self.name matches Some(n) ==> n.wf() && n.rows() == self.len)
    }

    /// Subtype and name of entry `i`, where both children are present and
    /// valid there.
    pub open spec fn entry(&self, i: int) -> Option<(Seq<char>, Seq<char>)> {
        match (self.subtype, self.name) {
            (Some(s), Some(n)) => match (s.entry(i), n.entry(i)) {
                (Some(sub), Some(name)) => Some((sub, name)),
                _ => None,
            },
            _ => None,
        }
    }

    pub fn check_well_formed(&self) -> (r: bool)
        ensures
            r == self.wf(),
    {
        let s_ok = match &self.subtype {
            Some(s) => s.check_well_formed() && s.validity.len() == self.len,
            None => true,
        };
        let n_ok = match &self.name {
            Some(n) => n.check_well_formed() && n.validity.len() == self.len,
            None => true,
        };
        s_ok && n_ok
    }
}

impl HierarchyItemLists {
    pub open spec fn wf(&self) -> bool {
        &&& offsets_within(self.offsets@, self.entries_len as int)
        &&& (self.entries matches Some(e) ==> e.wf() && e.len == self.entries_len)
    }

    pub fn check_well_formed(&self) -> (r: bool)
        ensures
            r == self.wf(),
    {
        let e_ok = match &self.entries {
            Some(e) => e.check_well_formed() && e.len == self.entries_len,
            None => true,
        };
        e_ok && check_offsets_within(&self.offsets, self.entries_len)
    }
}

impl HierarchyLists {
    pub open spec fn rows(&self) -> nat {
        self.validity@.len()
    }

    pub open spec fn wf(&self) -> bool {
        &&& self.offsets@.len() == self.validity@.len() + 1
        &&& offsets_within(self.offsets@, self.values_len as int)
        &&& (self.items matches Some(it) ==> it.wf() && it.offsets@.len() == self.values_len + 1)
    }

    pub fn check_well_formed(&self) -> (r: bool)
        ensures
            r == self.wf(),
    {
        if self.offsets.len() == 0 || self.offsets.len() - 1 != self.validity.len() {
            return false;
        }
        let items_ok = match &self.items {
            Some(it) => {
                it.offsets.len() >= 1 && it.offsets.len() - 1 == self.values_len
                    && it.check_well_formed()
            },
            None => true,
        };
        items_ok && check_offsets_within(&self.offsets, self.values_len)
    }
}

impl PlaceBatch {
    /// Every column that is present has one entry per row and is itself
    /// well formed, as Arrow guarantees of a record batch.
    pub open spec fn wf(&self) -> bool {
        &&& (self.subtype matches Some(c) ==> c.wf() && c.rows() == self.num_rows)
        &&& (self.names matches Some(c) ==> c.wf() && c.rows() == self.num_rows)
        &&& (self.geometry matches Some(c) ==> c.wf() && c.rows() == self.num_rows)
        &&& (self.hierarchies matches Some(c) ==> c.wf() && c.rows() == self.num_rows)
    }

    pub fn check_well_formed(&self) -> (r: bool)
        ensures
            r == self.wf(),
    {
        let subtype_ok = match &self.subtype {
            Some(c) => c.check_well_formed() && c.validity.len() == self.num_rows,
            None => true,
        };
        let names_ok = match &self.names {
            Some(c) => c.check_well_formed() && c.validity.len() == self.num_rows,
            None => true,
        };
        let geometry_ok = match &self.geometry {
            Some(c) => c.check_well_formed() && c.validity.len() == self.num_rows,
            None => true,
        };
        let hierarchies_ok = match &self.hierarchies {
            Some(c) => c.check_well_formed() && c.validity.len() == self.num_rows,
            None => true,
        };
        subtype_ok && names_ok && geometry_ok && hierarchies_ok
    }
}

} // verus!
