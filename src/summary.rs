//! Summaries of a latency tensor that do not depend on floating point: where the
//! smallest and largest per-pair means lie, and the CSV line of a row of means.
//!
//! A per-pair mean enters as an order key (`Some(key)`, where a larger key is a
//! larger mean), or `None` where the cell is not applicable.

use vstd::prelude::*;
use vstd::string::*;

verus! {

/// `k` is the first cell, in row-major order, whose key is the smallest.
pub open spec fn is_first_min(keys: Seq<Option<u64>>, k: int) -> bool {
    &&& 0 <= k < keys.len()
    &&& keys[k] is Some
    &&& forall|m: int| 0 <= m < keys.len() && (#[trigger] keys[m]) is Some ==> keys[k]->Some_0 <= keys[m]->Some_0
    &&& forall|m: int| 0 <= m < k && (#[trigger] keys[m]) is Some ==> keys[k]->Some_0 < keys[m]->Some_0
}

/// `k` is the first cell, in row-major order, whose key is the largest.
pub open spec fn is_first_max(keys: Seq<Option<u64>>, k: int) -> bool {
    &&& 0 <= k < keys.len()
    &&& keys[k] is Some
    &&& forall|m: int| 0 <= m < keys.len() && (#[trigger] keys[m]) is Some ==> keys[k]->Some_0 >= keys[m]->Some_0
    &&& forall|m: int| 0 <= m < k && (#[trigger] keys[m]) is Some ==> keys[k]->Some_0 > keys[m]->Some_0
}

/// No cell has a key.
pub open spec fn all_absent(keys: Seq<Option<u64>>) -> bool {
    forall|m: int| 0 <= m < keys.len() ==> (#[trigger] keys[m]) is None
}

/// The cell with the smallest key, the first one on a tie; `None` when no cell has one.
pub fn min_cell(keys: &Vec<Option<u64>>) -> (r: Option<usize>)
    ensures
        r is None <==> all_absent(keys@),
        r matches Some(k) ==> is_first_min(keys@, k as int),
{
    let mut best: Option<usize> = None;
    let mut k: usize = 0;
    while k < keys.len()
        invariant
            k <= keys@.len(),
            best is None <==> all_absent(keys@.take(k as int)),
            best matches Some(b) ==> b < k && is_first_min(keys@.take(k as int), b as int),
        decreases keys@.len() - k,
    {
        let ghost prefix = keys@.take(k as int);
        assert(keys@.take(k as int + 1) =~= prefix.push(keys@[k as int]));
        if let Some(x) = keys[k] {
            match best {
                None => {
                    best = Some(k);
                },
                Some(b) => {
                    assert(prefix[b as int] == keys@[b as int]);
                    if x < keys[b].unwrap() {
                        best = Some(k);
                    }
                },
            }
        }
        k = k + 1;
    }
    assert(keys@.take(k as int) =~= keys@);
    best
}

/// The cell with the largest key, the first one on a tie; `None` when no cell has one.
pub fn max_cell(keys: &Vec<Option<u64>>) -> (r: Option<usize>)
    ensures
        r is None <==> all_absent(keys@),
        r matches Some(k) ==> is_first_max(keys@, k as int),
{
    let mut best: Option<usize> = None;
    let mut k: usize = 0;
    while k < keys.len()
        invariant
            k <= keys@.len(),
            best is None <==> all_absent(keys@.take(k as int)),
            best matches Some(b) ==> b < k && is_first_max(keys@.take(k as int), b as int),
        decreases keys@.len() - k,
    {
        let ghost prefix = keys@.take(k as int);
        assert(keys@.take(k as int + 1) =~= prefix.push(keys@[k as int]));
        if let Some(x) = keys[k] {
            match best {
                None => {
                    best = Some(k);
                },
                Some(b) => {
                    assert(prefix[b as int] == keys@[b as int]);
                    if x > keys[b].unwrap() {
                        best = Some(k);
                    }
                },
            }
        }
        k = k + 1;
    }
    assert(keys@.take(k as int) =~= keys@);
    best
}

/// The selection of the smallest and of the largest cell is a function of the keys
/// alone: two selections that meet the same description are the same cell, so
/// summarising one tensor twice picks the same pairs.
pub proof fn lemma_selection_unique(keys: Seq<Option<u64>>, a: int, b: int)
    ensures
        is_first_min(keys, a) && is_first_min(keys, b) ==> a == b,
        is_first_max(keys, a) && is_first_max(keys, b) ==> a == b,
{
    if is_first_min(keys, a) && is_first_min(keys, b) && a != b {
        assert(keys[a]->Some_0 <= keys[b]->Some_0);
        assert(keys[b]->Some_0 <= keys[a]->Some_0);
        if a < b {
            assert(keys[b]->Some_0 < keys[a]->Some_0);
        } else {
            assert(keys[a]->Some_0 < keys[b]->Some_0);
        }
    }
    if is_first_max(keys, a) && is_first_max(keys, b) && a != b {
        assert(keys[a]->Some_0 >= keys[b]->Some_0);
        assert(keys[b]->Some_0 >= keys[a]->Some_0);
        if a < b {
            assert(keys[b]->Some_0 > keys[a]->Some_0);
        } else {
            assert(keys[a]->Some_0 > keys[b]->Some_0);
        }
    }
}

/// Row and column of the row-major cell `k` in a grid of `n` columns.
pub fn cell_position(n: usize, k: usize) -> (r: (usize, usize))
    requires
        n > 0,
    ensures
        r.0 * n + r.1 == k,
        r.1 < n,
{
    let i = k / n;
    let j = k % n;
    assert(i * n + j == k) by (nonlinear_arith)
        requires i == k / n, j == k % n, n > 0;
    (i, j)
}

/// The text of one CSV field: a value as written, or nothing for a cell that is not applicable.
pub open spec fn csv_field(f: Option<Seq<char>>) -> Seq<char> {
    match f {
        Some(s) => s,
        None => Seq::empty(),
    }
}

/// The fields joined by commas.
pub open spec fn csv_text(fields: Seq<Option<Seq<char>>>) -> Seq<char>
    decreases fields.len(),
{
    if fields.len() == 0 {
        Seq::empty()
    } else if fields.len() == 1 {
        csv_field(fields[0])
    } else {
        csv_text(fields.drop_last()) + seq![','] + csv_field(fields.last())
    }
}

/// The fields of a CSV line as sequences of characters.
pub open spec fn field_views(fields: Seq<Option<String>>) -> Seq<Option<Seq<char>>> {
    fields.map_values(|f: Option<String>| match f {
        Some(s) => Some(s@),
        None => None,
    })
}

/// One CSV line (without its line break) of a row of per-pair means, each already
/// written out as text; a cell that is not applicable gives an empty field.
pub fn csv_line(fields: &Vec<Option<String>>) -> (r: String)
    ensures
        r@ == csv_text(field_views(fields@)),
{
    let mut r = String::new();
    let mut k: usize = 0;
    proof {
        reveal_strlit(",");
    }
    while k < fields.len()
        invariant
            k <= fields@.len(),
            r@ == csv_text(field_views(fields@).take(k as int)),
            ","@ == seq![','],
        decreases fields@.len() - k,
    {
        let ghost views = field_views(fields@);
        assert(views.take(k as int + 1).drop_last() =~= views.take(k as int));
        if k > 0 {
            r.append(",");
        }
        match &fields[k] {
            Some(s) => {
                r.append(s.as_str());
            },
            None => {},
        }
        proof {
            if k == 0 {
                assert(r@ =~= csv_text(views.take(1)));
            } else {
                assert(r@ =~= csv_text(views.take(k as int + 1)));
            }
        }
        k = k + 1;
    }
    assert(field_views(fields@).take(k as int) =~= field_views(fields@));
    r
}

} // verus!
