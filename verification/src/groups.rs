//! Partitioning of expanded fields by origin group, in first-seen group
//! order, for the grouped table format.
//!
//! The order-preserving map itself is indexmap's `IndexMap`; the verified
//! logic speaks about it through two named sequences: its keys in insertion
//! order, and, aligned with them, the field indices collected per key.

use vstd::prelude::*;

use indexmap::IndexMap;

use crate::model::FieldModel;

verus! {

#[verifier::external_type_specification]
#[verifier::external_body]
#[verifier::reject_recursive_types(K)]
#[verifier::reject_recursive_types(V)]
#[verifier::reject_recursive_types(S)]
pub struct ExIndexMap<K, V, S>(IndexMap<K, V, S>);

/// The keys of a group map, in insertion order.
pub uninterp spec fn group_map_keys(m: IndexMap<String, Vec<usize>>) -> Seq<Seq<char>>;

/// The value lists of a group map, aligned with [`group_map_keys`].
pub uninterp spec fn group_map_vals(m: IndexMap<String, Vec<usize>>) -> Seq<Seq<usize>>;

/// First position of `k` in `keys`.
pub open spec fn spec_key_index(keys: Seq<Seq<char>>, k: Seq<char>) -> int
    decreases keys.len(),
{
    if keys.len() == 0 {
        0
    } else if keys.first() == k {
        0
    } else {
        1 + spec_key_index(keys.drop_first(), k)
    }
}

pub proof fn lemma_key_index(keys: Seq<Seq<char>>, k: Seq<char>)
    requires
        keys.contains(k),
    ensures
        0 <= spec_key_index(keys, k) < keys.len(),
        keys[spec_key_index(keys, k)] == k,
    decreases keys.len(),
{
    if keys.first() == k {
    } else {
        let j = choose|j: int| 0 <= j < keys.len() && keys[j] == k;
        assert(keys.drop_first()[j - 1] == k);
        lemma_key_index(keys.drop_first(), k);
    }
}

/// The keys after recording one more field index under `k`: unchanged when
/// `k` is already a key, else extended by `k` at the end.
pub open spec fn spec_pushed_keys(keys: Seq<Seq<char>>, k: Seq<char>) -> Seq<Seq<char>> {
    if keys.contains(k) {
        keys
    } else {
        keys.push(k)
    }
}

/// The value lists after recording field index `idx` under `k`.
pub open spec fn spec_pushed_vals(
    keys: Seq<Seq<char>>,
    vals: Seq<Seq<usize>>,
    k: Seq<char>,
    idx: usize,
) -> Seq<Seq<usize>> {
    if keys.contains(k) {
        vals.update(spec_key_index(keys, k), vals[spec_key_index(keys, k)].push(idx))
    } else {
        vals.push(seq![idx])
    }
}

/// Relies on `IndexMap::new`: the new map has no entries.
#[verifier::external_body]
pub fn group_map_new() -> (m: IndexMap<String, Vec<usize>>)
    ensures
        group_map_keys(m) == Seq::<Seq<char>>::empty(),
        group_map_vals(m) == Seq::<Seq<usize>>::empty(),
{
    IndexMap::new()
}

/// Relies on indexmap's `IndexMap::entry`, `Entry::or_default` and
/// `Vec::push`: an existing key keeps its position and its list gains `idx`
/// at the end; a new key is appended after all existing keys, with the
/// one-element list.
#[verifier::external_body]
pub fn group_map_push(m: &mut IndexMap<String, Vec<usize>>, key: &String, idx: usize)
    ensures
        group_map_keys(*final(m)) == spec_pushed_keys(group_map_keys(*old(m)), key@),
        group_map_vals(*final(m)) == spec_pushed_vals(
            group_map_keys(*old(m)),
            group_map_vals(*old(m)),
            key@,
            idx,
        ),
{
    m.entry(key.clone()).or_default().push(idx);
}

/// Relies on `IndexMap::len`: one entry per key, one value list per entry.
#[verifier::external_body]
pub fn group_map_len(m: &IndexMap<String, Vec<usize>>) -> (n: usize)
    ensures
        n == group_map_keys(*m).len(),
        n == group_map_vals(*m).len(),
{
    m.len()
}

/// Relies on `IndexMap::get_index`: the `j`-th entry, in insertion order.
#[verifier::external_body]
pub fn group_map_get(m: &IndexMap<String, Vec<usize>>, j: usize) -> (kv: (String, Vec<usize>))
    requires
        j < group_map_keys(*m).len(),
    ensures
        kv.0@ == group_map_keys(*m)[j as int],
        kv.1@ == group_map_vals(*m)[j as int],
{
    let (k, v) = m.get_index(j).unwrap();
    (k.clone(), v.clone())
}

/// The distinct groups among the first `n` fields, in first-seen order.
pub open spec fn spec_group_names(fields: Seq<FieldModel>, n: int) -> Seq<Seq<char>>
    decreases n,
{
    if n <= 0 {
        Seq::empty()
    } else {
        let prev = spec_group_names(fields, n - 1);
        if prev.contains(fields[n - 1].group) {
            prev
        } else {
            prev.push(fields[n - 1].group)
        }
    }
}

/// The indices, in order, of the fields among the first `n` whose group is `g`.
pub open spec fn spec_group_indices(fields: Seq<FieldModel>, g: Seq<char>, n: int) -> Seq<usize>
    decreases n,
{
    if n <= 0 {
        Seq::empty()
    } else {
        let prev = spec_group_indices(fields, g, n - 1);
        if fields[n - 1].group == g {
            prev.push((n - 1) as usize)
        } else {
            prev
        }
    }
}

/// The fields among the first `n` whose group is `g`, in order.
pub open spec fn spec_fields_of_group(
    fields: Seq<FieldModel>,
    g: Seq<char>,
    n: int,
) -> Seq<FieldModel>
    decreases n,
{
    if n <= 0 {
        Seq::empty()
    } else {
        let prev = spec_fields_of_group(fields, g, n - 1);
        if fields[n - 1].group == g {
            prev.push(fields[n - 1])
        } else {
            prev
        }
    }
}

/// The per-group field selection is exactly a filter of the field list.
pub proof fn lemma_fields_of_group_is_filter(fields: Seq<FieldModel>, g: Seq<char>, n: int)
    requires
        0 <= n <= fields.len(),
    ensures
        spec_fields_of_group(fields, g, n) == fields.take(n).filter(
            |f: FieldModel| f.group == g,
        ),
    decreases n,
{
    reveal(Seq::filter);
    if n == 0 {
        assert(fields.take(0).len() == 0);
    } else {
        lemma_fields_of_group_is_filter(fields, g, n - 1);
        assert(fields.take(n).drop_last() =~= fields.take(n - 1));
        assert(fields.take(n).last() == fields[n - 1]);
    }
}

/// First-seen group names never repeat.
pub proof fn lemma_group_names_distinct(fields: Seq<FieldModel>, n: int)
    ensures
        forall|a: int, b: int|
            0 <= a < b < spec_group_names(fields, n).len() ==> spec_group_names(fields, n)[a]
                != spec_group_names(fields, n)[b],
    decreases n,
{
    if n > 0 {
        lemma_group_names_distinct(fields, n - 1);
        let prev = spec_group_names(fields, n - 1);
        let cur = spec_group_names(fields, n);
        if !prev.contains(fields[n - 1].group) {
            assert forall|a: int, b: int| 0 <= a < b < cur.len() implies cur[a] != cur[b] by {
                if b == cur.len() - 1 {
                    assert(prev[a] == cur[a]);
                    assert(prev.contains(prev[a]));
                }
            }
        }
    }
}

/// A group not among the first-seen names has collected no field index.
pub proof fn lemma_unseen_group_empty(fields: Seq<FieldModel>, g: Seq<char>, n: int)
    requires
        !spec_group_names(fields, n).contains(g),
    ensures
        spec_group_indices(fields, g, n) == Seq::<usize>::empty(),
    decreases n,
{
    if n > 0 {
        let prev = spec_group_names(fields, n - 1);
        assert forall|j: int| 0 <= j < prev.len() implies spec_group_names(fields, n).contains(
            prev[j],
        ) by {
            if prev.contains(fields[n - 1].group) {
                assert(spec_group_names(fields, n) == prev);
            } else {
                assert(spec_group_names(fields, n)[j] == prev[j]);
            }
        }
        if prev.contains(g) {
            let j = choose|j: int| 0 <= j < prev.len() && prev[j] == g;
            assert(spec_group_names(fields, n).contains(prev[j]));
            assert(false);
        }
        lemma_unseen_group_empty(fields, g, n - 1);
        if fields[n - 1].group == g {
            let cur = spec_group_names(fields, n);
            if prev.contains(g) {
                assert(false);
            } else {
                assert(cur.last() == g);
                assert(cur.contains(g));
                assert(false);
            }
        }
    }
}

/// Each collected index is in range, and selecting fields by the collected
/// indices gives exactly the group's fields, in order.
pub proof fn lemma_group_indices_select(fields: Seq<FieldModel>, g: Seq<char>, n: int)
    requires
        0 <= n <= fields.len(),
        n <= usize::MAX,
    ensures
        spec_group_indices(fields, g, n).len() == spec_fields_of_group(fields, g, n).len(),
        forall|j: int|
            0 <= j < spec_group_indices(fields, g, n).len() ==> 0 <= #[trigger] spec_group_indices(
                fields,
                g,
                n,
            )[j] < n && fields[spec_group_indices(fields, g, n)[j] as int]
                == spec_fields_of_group(fields, g, n)[j],
    decreases n,
{
    if n > 0 {
        lemma_group_indices_select(fields, g, n - 1);
        let idxs = spec_group_indices(fields, g, n);
        let fog = spec_fields_of_group(fields, g, n);
        let pidxs = spec_group_indices(fields, g, n - 1);
        let pfog = spec_fields_of_group(fields, g, n - 1);
        assert forall|j: int| 0 <= j < idxs.len() implies 0 <= idxs[j] < n && fields[idxs[j] as int]
            == fog[j] by {
            if fields[n - 1].group == g {
                if j < pidxs.len() {
                    assert(idxs[j] == pidxs[j]);
                    assert(fog[j] == pfog[j]);
                } else {
                    assert(idxs[j] == (n - 1) as usize);
                    assert(fog[j] == fields[n - 1]);
                }
            } else {
                assert(idxs[j] == pidxs[j]);
                assert(fog[j] == pfog[j]);
            }
        }
    }
}

} // verus!
