//! Insertion-ordered tables of workspaces and outputs, kept in `indexmap`'s
//! `IndexMap`. Each table is seen through the sequence of its entries.
use vstd::prelude::*;

use indexmap::IndexMap;

use crate::state::Output;
use crate::workspace::Workspace;

verus! {

#[verifier::external_type_specification]
#[verifier::external_body]
#[verifier::reject_recursive_types(K)]
#[verifier::reject_recursive_types(V)]
#[verifier::reject_recursive_types(S)]
pub struct ExIndexMap<K, V, S>(IndexMap<K, V, S>);

/// The entries of a workspace table, in insertion order.
pub uninterp spec fn workspace_entries(m: IndexMap<u32, Workspace>) -> Seq<(u32, Workspace)>;

/// The entries of an output table, in insertion order.
pub uninterp spec fn output_entries(m: IndexMap<u64, Output>) -> Seq<(u64, Output)>;

/// No two entries share a key.
pub open spec fn keys_unique<K, V>(s: Seq<(K, V)>) -> bool {
    forall|i: int, j: int| 0 <= i < s.len() && 0 <= j < s.len() && i != j ==> s[i].0 != s[j].0
}

/// Position of the entry with key `k`.
pub open spec fn key_index<K, V>(s: Seq<(K, V)>, k: K) -> Option<int> {
    if exists|i: int| 0 <= i < s.len() && s[i].0 == k {
        Some(choose|i: int| 0 <= i < s.len() && s[i].0 == k)
    } else {
        None
    }
}

pub proof fn lemma_key_index_at<K, V>(s: Seq<(K, V)>, i: int)
    requires
        keys_unique(s),
        0 <= i < s.len(),
    ensures
        key_index(s, s[i].0) == Some(i),
{
    let c = choose|j: int| 0 <= j < s.len() && s[j].0 == s[i].0;
    assert(c == i);
}

/// Relies on `IndexMap::new`: a new map is empty.
#[verifier::external_body]
pub(crate) fn workspace_table_new() -> (r: IndexMap<u32, Workspace>)
    ensures
        workspace_entries(r) == Seq::<(u32, Workspace)>::empty(),
{
    IndexMap::new()
}

/// Relies on `IndexMap::insert`: a key not yet present is added last in order.
#[verifier::external_body]
pub(crate) fn workspace_table_push(m: &mut IndexMap<u32, Workspace>, k: u32, v: Workspace)
    requires
        key_index(workspace_entries(*old(m)), k) is None,
    ensures
        workspace_entries(*final(m)) == workspace_entries(*old(m)).push((k, v)),
{
    m.insert(k, v);
}

/// Relies on `IndexMap::len`: the number of entries.
#[verifier::external_body]
pub(crate) fn workspace_table_len(m: &IndexMap<u32, Workspace>) -> (r: usize)
    ensures
        r == workspace_entries(*m).len(),
{
    m.len()
}

/// Relies on `Index<usize>` of `IndexMap`: the value at a position.
#[verifier::external_body]
pub(crate) fn workspace_table_at(m: &IndexMap<u32, Workspace>, i: usize) -> (r: &Workspace)
    requires
        i < workspace_entries(*m).len(),
    ensures
        *r == workspace_entries(*m)[i as int].1,
{
    &m[i]
}

/// Relies on `IndexMut<usize>` of `IndexMap`: the value at a position, to be
/// changed in place; the key and every other entry stay.
#[verifier::external_body]
pub(crate) fn workspace_table_at_mut(m: &mut IndexMap<u32, Workspace>, i: usize) -> (r: &mut Workspace)
    requires
        i < workspace_entries(*old(m)).len(),
    ensures
        *r == workspace_entries(*old(m))[i as int].1,
        workspace_entries(*final(m)) == workspace_entries(*old(m)).update(
            i as int,
            (workspace_entries(*old(m))[i as int].0, *final(r)),
        ),
{
    &mut m[i]
}

/// Relies on `IndexMap::new`: a new map is empty.
#[verifier::external_body]
pub(crate) fn output_table_new() -> (r: IndexMap<u64, Output>)
    ensures
        output_entries(r) == Seq::<(u64, Output)>::empty(),
{
    IndexMap::new()
}

/// Relies on `IndexMap::insert`: an existing key keeps its place and takes
/// the new value; a new key is added last.
#[verifier::external_body]
pub(crate) fn output_table_insert(m: &mut IndexMap<u64, Output>, k: u64, v: Output)
    requires
        keys_unique(output_entries(*old(m))),
    ensures
        keys_unique(output_entries(*final(m))),
        match key_index(output_entries(*old(m)), k) {
            Some(i) => output_entries(*final(m)) == output_entries(*old(m)).update(i, (k, v)),
            None => output_entries(*final(m)) == output_entries(*old(m)).push((k, v)),
        },
{
    m.insert(k, v);
}

/// Relies on `IndexMap::shift_remove`: the entry with the key, if any, is
/// removed and the order of the others is kept.
#[verifier::external_body]
pub(crate) fn output_table_remove(m: &mut IndexMap<u64, Output>, k: u64)
    requires
        keys_unique(output_entries(*old(m))),
    ensures
        keys_unique(output_entries(*final(m))),
        match key_index(output_entries(*old(m)), k) {
            Some(i) => output_entries(*final(m)) == output_entries(*old(m)).remove(i),
            None => output_entries(*final(m)) == output_entries(*old(m)),
        },
{
    m.shift_remove(&k);
}

/// Relies on `IndexMap::first`: the first entry's value, if any.
#[verifier::external_body]
pub(crate) fn output_table_first(m: &IndexMap<u64, Output>) -> (r: Option<&Output>)
    ensures
        r == if output_entries(*m).len() > 0 { Some(&output_entries(*m)[0].1) } else { None },
{
    m.first().map(|(_, v)| v)
}

} // verus!
