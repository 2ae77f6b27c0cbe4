//! Which top-level fields a column filter keeps, and when a preview stops.

use vstd::prelude::*;

verus! {

/// Whether `name` is among the requested column names.
pub open spec fn requested(columns: Seq<String>, name: Seq<char>) -> bool {
    exists|k: int| 0 <= k < columns.len() && (#[trigger] columns[k])@ == name
}

/// The positions, among the first `n` fields, of those whose name is requested,
/// in the fields' own order.
pub open spec fn selected(names: Seq<Seq<char>>, columns: Seq<String>, n: int) -> Seq<usize>
    decreases n,
{
    if n <= 0 {
        Seq::empty()
    } else if requested(columns, names[n - 1]) {
        selected(names, columns, n - 1).push((n - 1) as usize)
    } else {
        selected(names, columns, n - 1)
    }
}

/// The texts of a sequence of strings.
pub open spec fn texts(ss: Seq<String>) -> Seq<Seq<char>> {
    ss.map_values(|s: String| s@)
}

/// Whether some requested column name equals `name`.
pub fn is_requested(columns: &Vec<String>, name: &String) -> (r: bool)
    ensures
        r == requested(columns@, name@),
{
    let mut k: usize = 0;
    while k < columns.len()
        invariant
            k <= columns@.len(),
            forall|m: int| 0 <= m < k ==> (#[trigger] columns@[m])@ != name@,
        decreases columns@.len() - k,
    {
        if columns[k] == *name {
            return true;
        }
        k = k + 1;
    }
    false
}

/// The positions of the fields whose name is requested, in the fields' order.
/// A requested name that no field has selects nothing and is no error.
pub fn project_fields(names: &Vec<String>, columns: &Vec<String>) -> (r: Vec<usize>)
    ensures
        r@ == selected(texts(names@), columns@, names@.len() as int),
{
    let mut out: Vec<usize> = Vec::new();
    let mut i: usize = 0;
    while i < names.len()
        invariant
            i <= names@.len(),
            out@ == selected(texts(names@), columns@, i as int),
        decreases names@.len() - i,
    {
        if is_requested(columns, &names[i]) {
            out.push(i);
        }
        i = i + 1;
    }
    out
}

/// Whether a preview that has emitted `emitted` rows pulls one more:
/// a limit of zero never stops it, any other limit stops it once reached.
pub fn keep_pulling(limit: usize, emitted: usize) -> (r: bool)
    ensures
        r == (limit == 0 || emitted < limit),
{
    limit == 0 || emitted < limit
}

/// The number of rows a preview emits from a source of `total` rows, having
/// emitted `emitted` so far: it pulls while rows remain and `keep_pulling` allows.
pub open spec fn preview_run(limit: usize, total: nat, emitted: nat) -> nat
    decreases total - emitted,
{
    if emitted < total && (limit == 0 || emitted < limit) {
        preview_run(limit, total, emitted + 1)
    } else {
        emitted
    }
}

proof fn lemma_preview_run_from(limit: usize, total: nat, emitted: nat)
    requires
        emitted <= total,
        limit == 0 || emitted <= limit,
    ensures
        preview_run(limit, total, emitted) == if limit == 0 {
            total
        } else if limit < total {
            limit as nat
        } else {
            total
        },
    decreases total - emitted,
{
    if emitted < total && (limit == 0 || emitted < limit) {
        lemma_preview_run_from(limit, total, emitted + 1);
    }
}

/// A limit of zero emits every row; any other limit `n` emits exactly the
/// smaller of `n` and the number of rows.
pub proof fn lemma_preview_emits(limit: usize, total: nat)
    ensures
        preview_run(limit, total, 0) == if limit == 0 {
            total
        } else if limit < total {
            limit as nat
        } else {
            total
        },
{
    lemma_preview_run_from(limit, total, 0);
}

} // verus!
