use vstd::prelude::*;

use crate::columns::HierarchyEntries;
use crate::columns::HierarchyLists;
use crate::columns::StringColumn;

verus! {

/// Subtypes of divisions that are too coarse (or too fine) to stand for a
/// populated place: rows of these subtypes are left out.
pub open spec fn skipped_subtype(s: Seq<char>) -> bool {
    ||| s == "microhood"@
    ||| s == "region"@
    ||| s == "macroregion"@
    ||| s == "dependency"@
    ||| s == "country"@
}

/// Subtypes of divisions that lie inside a locality. A hierarchy name keeps
/// the innermost one of these and then stops at the first division of any
/// other subtype.
pub open spec fn local_subtype(s: Seq<char>) -> bool {
    ||| s == "microhood"@
    ||| s == "neighborhood"@
    ||| s == "macrohood"@
    ||| s == "borough"@
}

/// Whether row `row` of the subtype column names a skipped subtype.
pub open spec fn skip_row(subtype: Option<StringColumn>, row: int) -> bool {
    match subtype {
        Some(c) => match c.entry(row) {
            Some(s) => skipped_subtype(s),
            None => false,
        },
        None => false,
    }
}

/// The primary name of row `row`, where the column is present and the row
/// valid.
pub open spec fn primary_entry(primary: Option<StringColumn>, row: int) -> Option<Seq<char>> {
    match primary {
        Some(c) => c.entry(row),
        None => None,
    }
}

/// The text of an optional name, or the empty text.
pub open spec fn or_default(name: Option<Seq<char>>) -> Seq<char> {
    match name {
        Some(s) => s,
        None => Seq::empty(),
    }
}

/// `parts` joined with `sep` between each two of them.
pub open spec fn join(parts: Seq<Seq<char>>, sep: Seq<char>) -> Seq<char>
    decreases parts.len(),
{
    if parts.len() == 0 {
        Seq::empty()
    } else if parts.len() == 1 {
        parts[0]
    } else {
        join(parts.drop_last(), sep) + sep + parts.last()
    }
}

/// The names that a hierarchy contributes when its entries `[lo, hi)` are
/// read from the last to the first: the first local division met (unless
/// one was met already, `found_local`), then the first division that is not
/// local, where the reading stops. Entries without a valid subtype and name
/// are passed over.
pub open spec fn hierarchy_parts(e: HierarchyEntries, lo: int, hi: int, found_local: bool) -> Seq<Seq<char>>
    decreases hi - lo,
{
    if hi <= lo {
        Seq::empty()
    } else {
        match e.entry(hi - 1) {
            None => hierarchy_parts(e, lo, hi - 1, found_local),
            Some((sub, name)) => if local_subtype(sub) {
                if found_local {
                    hierarchy_parts(e, lo, hi - 1, true)
                } else {
                    seq![name] + hierarchy_parts(e, lo, hi - 1, true)
                }
            } else {
                seq![name]
            },
        }
    }
}

/// The name that entries `[lo, hi)` of a hierarchy give a place: its parts
/// joined with ", ", or the primary name (or nothing) where it has none.
pub open spec fn hierarchy_name(e: HierarchyEntries, lo: int, hi: int, primary: Option<Seq<char>>) -> Seq<char> {
    let parts = hierarchy_parts(e, lo, hi, false);
    if parts.len() > 0 {
        join(parts, ", "@)
    } else {
        or_default(primary)
    }
}

/// The name of row `row`: built from the first hierarchy of the row where the
/// row has one and the column's children have the expected types, else the
/// primary name (or nothing).
pub open spec fn hierarchy_row_name(h: Option<HierarchyLists>, row: int, primary: Option<Seq<char>>) -> Seq<char> {
    match h {
        Some(lists) => if lists.validity@[row] {
            let start = lists.offsets@[row] as int;
            let end = lists.offsets@[row + 1] as int;
            match lists.items {
                Some(items) => if start < end {
                    let h_start = items.offsets@[start] as int;
                    let h_end = items.offsets@[start + 1] as int;
                    match items.entries {
                        Some(e) => hierarchy_name(e, h_start, h_end, primary),
                        None => or_default(primary),
                    }
                } else {
                    or_default(primary)
                },
                None => or_default(primary),
            }
        } else {
            or_default(primary)
        },
        None => or_default(primary),
    }
}

/// Whether `s` holds exactly the text `lit`.
fn text_equals(s: &String, lit: &str) -> (r: bool)
    ensures
        r == (s@ == lit@),
{
    let l: String = lit.to_owned();
    *s == l
}

/// Whether a subtype is one that the loader leaves out.
pub fn is_skipped_subtype(s: &String) -> (r: bool)
    ensures
        r == skipped_subtype(s@),
{
    text_equals(s, "microhood") || text_equals(s, "region") || text_equals(s, "macroregion")
        || text_equals(s, "dependency") || text_equals(s, "country")
}

/// Whether a subtype is one of a division inside a locality.
pub fn is_local_subtype(s: &String) -> (r: bool)
    ensures
        r == local_subtype(s@),
{
    text_equals(s, "microhood") || text_equals(s, "neighborhood") || text_equals(s, "macrohood")
        || text_equals(s, "borough")
}

/// Whether row `row` is to be left out for its subtype.
pub fn should_skip_subtype(subtype: &Option<StringColumn>, row: usize) -> (r: bool)
    requires
        subtype matches Some(c) ==> c.wf() && row < c.rows(),
    ensures
        r == skip_row(*subtype, row as int),
{
    match subtype {
        Some(c) => c.validity[row] && is_skipped_subtype(&c.values[row]),
        None => false,
    }
}

/// The primary name of row `row`, where there is one.
pub fn extract_primary_name(primary: &Option<StringColumn>, row: usize) -> (r: Option<String>)
    requires
        primary matches Some(c) ==> c.wf() && row < c.rows(),
    ensures
        r.deep_view() == primary_entry(*primary, row as int),
{
    match primary {
        Some(c) => {
            if c.validity[row] {
                Some(c.values[row].clone())
            } else {
                None
            }
        },
        None => None,
    }
}

/// `parts` joined with `sep` between each two of them.
pub fn join_parts(parts: &Vec<String>, sep: &str) -> (r: String)
    ensures
        r@ == join(parts.deep_view(), sep@),
{
    let mut out = String::new();
    let ghost all = parts.deep_view();
    let mut i: usize = 0;
    while i < parts.len()
        invariant
            i <= parts.len(),
            all == parts.deep_view(),
            out@ == join(all.take(i as int), sep@),
        decreases parts.len() - i,
    {
        if i != 0 {
            out.append(sep);
        }
        out.append(parts[i].as_str());
        assert(all.take(i as int + 1).drop_last() =~= all.take(i as int));
        assert(all.take(i as int + 1).last() == parts[i as int]@);
        if i == 0 {
            assert(out@ =~= all.take(1)[0]);
        }
        i = i + 1;
    }
    assert(all.take(i as int) =~= all);
    out
}

/// The name that entries `[h_start, h_end)` of a hierarchy give a place, with
/// `primary_name` in reserve.
pub fn process_hierarchy(
    entries: &HierarchyEntries,
    h_start: usize,
    h_end: usize,
    primary_name: Option<String>,
) -> (r: String)
    requires
        entries.wf(),
        h_start < h_end ==> h_end <= entries.len,
    ensures
        r@ == hierarchy_name(*entries, h_start as int, h_end as int, primary_name.deep_view()),
{
    let ghost total = hierarchy_parts(*entries, h_start as int, h_end as int, false);
    let mut parts: Vec<String> = Vec::new();
    let mut found_local = false;
    let mut done = false;
    let mut k = h_end;
    while k > h_start && !done
        invariant
            entries.wf(),
            h_start < h_end ==> h_end <= entries.len,
            k <= h_end,
            total == hierarchy_parts(*entries, h_start as int, h_end as int, false),
            done ==> parts.deep_view() == total,
            !done ==> parts.deep_view() + hierarchy_parts(*entries, h_start as int, k as int, found_local)
                == total,
        decreases k,
    {
        let ghost before = parts.deep_view();
        let ghost found_before = found_local;
        k = k - 1;
        let i = k;
        match (&entries.subtype, &entries.name) {
            (Some(sub_col), Some(name_col)) => {
                if sub_col.validity[i] && name_col.validity[i] {
                    let subtype = &sub_col.values[i];
                    let item_name = &name_col.values[i];
                    if is_local_subtype(subtype) {
                        if !found_local {
                            parts.push(item_name.clone());
                            found_local = true;
                            assert(parts.deep_view() =~= before.push(item_name@));
                            assert(before + hierarchy_parts(*entries, h_start as int, k as int + 1, false)
                                =~= before.push(item_name@) + hierarchy_parts(*entries, h_start as int, k as int, true));
                        }
                    } else {
                        parts.push(item_name.clone());
                        done = true;
                        assert(parts.deep_view() =~= before.push(item_name@));
                        assert(before + hierarchy_parts(*entries, h_start as int, k as int + 1, found_before)
                            =~= before.push(item_name@));
                    }
                }
            },
            _ => {},
        }
    }
    proof {
        if !done {
            assert(hierarchy_parts(*entries, h_start as int, k as int, found_local) =~= Seq::<Seq<char>>::empty());
            assert(parts.deep_view() =~= total);
        }
    }
    if parts.len() > 0 {
        join_parts(&parts, ", ")
    } else {
        match primary_name {
            Some(s) => s,
            None => String::new(),
        }
    }
}

/// The name of row `row` of a batch, built from the row's first hierarchy,
/// with `primary_name` in reserve.
pub fn build_name_from_hierarchy(
    hierarchies: &Option<HierarchyLists>,
    row: usize,
    primary_name: Option<String>,
) -> (r: String)
    requires
        hierarchies matches Some(h) ==> h.wf() && row < h.rows(),
    ensures
        r@ == hierarchy_row_name(*hierarchies, row as int, primary_name.deep_view()),
{
    match hierarchies {
        Some(lists) => {
            if lists.validity[row] {
                let n_offsets = lists.offsets.len();
                assert(row + 1 < n_offsets);
                assert(0 <= lists.offsets@[row as int] && 0 <= lists.offsets@[row as int + 1]);
                let start_offset = lists.offsets[row] as usize;
                let end_offset = lists.offsets[row + 1] as usize;
                match &lists.items {
                    Some(items) => {
                        if start_offset < end_offset {
                            assert(0 <= items.offsets@[start_offset as int] <= items.entries_len);
                            assert(0 <= items.offsets@[start_offset as int + 1] <= items.entries_len);
                            let h_start = items.offsets[start_offset] as usize;
                            let h_end = items.offsets[start_offset + 1] as usize;
                            match &items.entries {
                                Some(e) => process_hierarchy(e, h_start, h_end, primary_name),
                                None => unwrap_name(primary_name),
                            }
                        } else {
                            unwrap_name(primary_name)
                        }
                    },
                    None => unwrap_name(primary_name),
                }
            } else {
                unwrap_name(primary_name)
            }
        },
        None => unwrap_name(primary_name),
    }
}

/// The text of an optional name, or the empty text.
fn unwrap_name(name: Option<String>) -> (r: String)
    ensures
        r@ == or_default(name.deep_view()),
{
    match name {
        Some(s) => s,
        None => String::new(),
    }
}


/// A hierarchy names a place by at most two divisions: the innermost local
/// one and the first one that is not local; once a local division has been
/// taken, at most one more.
pub proof fn lemma_hierarchy_parts_at_most_two(e: HierarchyEntries, lo: int, hi: int)
    ensures
        hierarchy_parts(e, lo, hi, true).len() <= 1,
        hierarchy_parts(e, lo, hi, false).len() <= 2,
    decreases hi - lo,
{
    if hi > lo {
        lemma_hierarchy_parts_at_most_two(e, lo, hi - 1);
    }
}


/// The skipped subtypes are exactly microhood, region, macroregion,
/// dependency and country: every other text is kept.
pub proof fn lemma_skipped_subtypes_are_exactly(s: Seq<char>)
    ensures
        skipped_subtype(s) <==> (s == "microhood"@ || s == "region"@ || s == "macroregion"@
            || s == "dependency"@ || s == "country"@),
{
}

/// The local subtypes are exactly microhood, neighborhood, macrohood and
/// borough: every other text is not local.
pub proof fn lemma_local_subtypes_are_exactly(s: Seq<char>)
    ensures
        local_subtype(s) <==> (s == "microhood"@ || s == "neighborhood"@ || s == "macrohood"@
            || s == "borough"@),
{
}

/// A row is skipped exactly where its subtype is valid and is one of the five
/// skipped texts; a row of any other subtype, or without a valid one, is kept.
pub proof fn lemma_skip_row_reads_the_subtype(c: StringColumn, row: int)
    requires
        c.wf(),
    ensures
        skip_row(Some(c), row) <==> (0 <= row < c.rows() && c.validity@[row] && {
            let s = c.values@[row]@;
            s == "microhood"@ || s == "region"@ || s == "macroregion"@ || s == "dependency"@
                || s == "country"@
        }),
        skip_row(None, row) == false,
{
}

/// A hierarchy whose last valid entry is of a subtype other than microhood,
/// neighborhood, macrohood and borough is named by that entry's name alone,
/// whatever comes before it and whatever the primary name.
pub proof fn lemma_non_local_last_entry_names_alone(
    e: HierarchyEntries,
    lo: int,
    hi: int,
    primary: Option<Seq<char>>,
    sub: Seq<char>,
    name: Seq<char>,
)
    requires
        lo < hi,
        e.entry(hi - 1) == Some((sub, name)),
        !(sub == "microhood"@ || sub == "neighborhood"@ || sub == "macrohood"@ || sub == "borough"@),
    ensures
        hierarchy_name(e, lo, hi, primary) == name,
{
    assert(hierarchy_parts(e, lo, hi, false) =~= seq![name]);
}

/// A hierarchy ending in a local division below a division of another
/// subtype is named by the two, innermost first, joined with ", ".
pub proof fn lemma_local_then_other_names_both(
    e: HierarchyEntries,
    lo: int,
    hi: int,
    primary: Option<Seq<char>>,
    local_sub: Seq<char>,
    local_name: Seq<char>,
    other_sub: Seq<char>,
    other_name: Seq<char>,
)
    requires
        lo + 1 < hi,
        e.entry(hi - 1) == Some((local_sub, local_name)),
        e.entry(hi - 2) == Some((other_sub, other_name)),
        local_sub == "microhood"@ || local_sub == "neighborhood"@ || local_sub == "macrohood"@
            || local_sub == "borough"@,
        !(other_sub == "microhood"@ || other_sub == "neighborhood"@ || other_sub == "macrohood"@
            || other_sub == "borough"@),
    ensures
        hierarchy_name(e, lo, hi, primary) == local_name + ", "@ + other_name,
{
    let parts = hierarchy_parts(e, lo, hi, false);
    assert(hierarchy_parts(e, lo, hi - 1, true) =~= seq![other_name]);
    assert(parts =~= seq![local_name, other_name]);
    assert(parts.drop_last() =~= seq![local_name]);
    assert(join(parts.drop_last(), ", "@) == local_name);
    assert(join(parts, ", "@) == join(parts.drop_last(), ", "@) + ", "@ + parts.last());
}

} // verus!
