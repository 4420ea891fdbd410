//! Tables keyed by a 16-bit id, and the cursor merge both peers share.
use std::collections::HashMap;
use vstd::prelude::*;
use vstd::std_specs::iter::IteratorSpec;

use crate::cursor::MouseCursor;

verus! {

broadcast use vstd::std_specs::hash::group_hash_axioms;

/// Whether `order` lists every entry of `m` exactly once, in some order.
pub open spec fn enumerates<V>(order: Seq<(u16, V)>, m: Map<u16, V>) -> bool {
    &&& order.len() == m.dom().len()
    &&& forall|i: int|
        0 <= i < order.len() ==> m.contains_key(#[trigger] order[i].0) && m[order[i].0]
            == order[i].1
    &&& forall|i: int, j: int| 0 <= i < j < order.len() ==> order[i].0 != order[j].0
    &&& forall|k: u16|
        m.contains_key(k) ==> exists|i: int| 0 <= i < order.len() && #[trigger] order[i].0 == k
}

/// The entries of a table, in the order the table is walked; that order
/// rests on the table's hashing and is otherwise unspecified.
pub fn entries<V: Copy>(m: &HashMap<u16, V>) -> (r: Vec<(u16, V)>)
    ensures
        enumerates(r@, m@),
{
    let mut r: Vec<(u16, V)> = Vec::new();
    let ghost s = vstd::std_specs::hash::spec_hash_map_iter(m).remaining();
    for (k, v) in it: m.iter()
        invariant
            r@.len() == it.index(),
            it.seq() == s,
            forall|i: int| 0 <= i < it.index() ==> #[trigger] r@[i] == (*it.seq()[i].0, *it.seq()[i].1),
    {
        r.push((*k, *v));
    }
    proof {
        assert forall|i: int, j: int| 0 <= i < j < r@.len() implies r@[i].0 != r@[j].0 by {
            if r@[i].0 == r@[j].0 {
                assert(*s[i].1 == m@[*s[i].0]);
                assert(*s[j].1 == m@[*s[j].0]);
                assert(s[i] == s[j]);
                assert(s.no_duplicates());
            }
        }
        assert forall|k: u16| m@.contains_key(k) implies exists|i: int|
            0 <= i < r@.len() && #[trigger] r@[i].0 == k by {
            assert(s.contains((&k, &m@[k])));
            let i = choose|i: int| 0 <= i < s.len() && s[i] == (&k, &m@[k]);
            assert(r@[i].0 == k);
        }
    }
    r
}

/// The table after a cursor report for `id`: a known cursor takes the
/// reported position and button state and keeps its colour; an unknown one
/// is added as reported.
pub open spec fn merge_cursor(mouses: Map<u16, MouseCursor>, id: u16, c: MouseCursor) -> Map<
    u16,
    MouseCursor,
> {
    if mouses.contains_key(id) {
        mouses.insert(
            id,
            MouseCursor { position: c.position, pressed: c.pressed, color: mouses[id].color },
        )
    } else {
        mouses.insert(id, c)
    }
}

/// Applies a cursor report for `id` to a table (see `merge_cursor`).
pub fn merge_cursor_into(mouses: &mut HashMap<u16, MouseCursor>, id: u16, cursor: MouseCursor)
    ensures
        final(mouses)@ == merge_cursor(old(mouses)@, id, cursor),
{
    let known = match mouses.get(&id) {
        Some(mouse) => Some(mouse.color),
        None => None,
    };
    match known {
        Some(color) => {
            mouses.insert(
                id,
                MouseCursor { position: cursor.position, pressed: cursor.pressed, color },
            );
        },
        None => {
            mouses.insert(id, cursor);
        },
    }
}

/// After a report for `id`, the table holds `id` with the reported position
/// and button state; a cursor it held keeps its colour, and every other
/// entry is untouched.
pub proof fn lemma_merge_cursor(mouses: Map<u16, MouseCursor>, id: u16, c: MouseCursor)
    ensures
        merge_cursor(mouses, id, c).contains_key(id),
        merge_cursor(mouses, id, c)[id].position == c.position,
        merge_cursor(mouses, id, c)[id].pressed == c.pressed,
        mouses.contains_key(id) ==> merge_cursor(mouses, id, c)[id].color == mouses[id].color,
        !mouses.contains_key(id) ==> merge_cursor(mouses, id, c)[id] == c,
        forall|k: u16|
            k != id ==> (#[trigger] merge_cursor(mouses, id, c).contains_key(k)
                == mouses.contains_key(k)) && (mouses.contains_key(k) ==> merge_cursor(
                mouses,
                id,
                c,
            )[k] == mouses[k]),
{
}

} // verus!
