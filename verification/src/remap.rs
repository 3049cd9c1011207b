//! Face-group remapping: converting a range of the shared triangle-index
//! buffer into a compact, locally indexed vertex and index list.

use std::collections::HashMap;

use vstd::prelude::*;

use crate::ddm::DdmVertex;
use crate::error::DdmError;

verus! {

broadcast use vstd::std_specs::hash::group_hash_axioms;

/// The distinct values of `s`, in first-occurrence order.
pub open spec fn first_occurrences(s: Seq<u32>) -> Seq<u32>
    decreases s.len(),
{
    if s.len() == 0 {
        Seq::empty()
    } else {
        let rest = first_occurrences(s.drop_last());
        if rest.contains(s.last()) {
            rest
        } else {
            rest.push(s.last())
        }
    }
}

/// Index of the first occurrence of `x` in `s`, or `s.len()` if `x` does not
/// occur.
pub open spec fn position_of(s: Seq<u32>, x: u32) -> int
    decreases s.len(),
{
    if s.len() == 0 {
        0
    } else if s[0] == x {
        0
    } else {
        1 + position_of(s.skip(1), x)
    }
}

pub proof fn lemma_position_of(s: Seq<u32>, x: u32)
    ensures
        0 <= position_of(s, x) <= s.len(),
        position_of(s, x) < s.len() ==> s[position_of(s, x)] == x,
        forall|j: int| 0 <= j < position_of(s, x) ==> s[j] != x,
        s.contains(x) ==> position_of(s, x) < s.len(),
    decreases s.len(),
{
    if s.len() != 0 && s[0] != x {
        lemma_position_of(s.skip(1), x);
        assert forall|j: int| 0 <= j < position_of(s, x) implies s[j] != x by {
            if j > 0 {
                assert(s.skip(1)[j - 1] != x);
            }
        }
        if s.contains(x) {
            let w = choose|w: int| 0 <= w < s.len() && s[w] == x;
            assert(s.skip(1)[w - 1] == x);
        }
    }
}

/// Appending new values on the right does not move the first occurrence of a
/// value already present.
pub proof fn lemma_position_of_push(s: Seq<u32>, x: u32, y: u32)
    requires
        s.contains(x),
    ensures
        position_of(s.push(y), x) == position_of(s, x),
    decreases s.len(),
{
    lemma_position_of(s, x);
    if s.len() != 0 && s[0] != x {
        assert(s.skip(1).contains(x)) by {
            let w = choose|w: int| 0 <= w < s.len() && s[w] == x;
            assert(s.skip(1)[w - 1] == x);
        }
        lemma_position_of_push(s.skip(1), x, y);
        assert(s.push(y).skip(1) =~= s.skip(1).push(y));
    }
}

/// How the first-occurrence list grows by one step of the scan.
pub proof fn lemma_first_occurrences_step(s: Seq<u32>, i: int)
    requires
        0 <= i < s.len(),
    ensures
        first_occurrences(s.take(i + 1)) == if first_occurrences(s.take(i)).contains(s[i]) {
            first_occurrences(s.take(i))
        } else {
            first_occurrences(s.take(i)).push(s[i])
        },
{
    assert(s.take(i + 1).drop_last() =~= s.take(i));
    assert(s.take(i + 1).last() == s[i]);
}

/// The first-occurrence list of a prefix is a prefix of the first-occurrence
/// list of the whole sequence.
pub proof fn lemma_first_occurrences_prefix(s: Seq<u32>, i: int)
    requires
        0 <= i <= s.len(),
    ensures
        first_occurrences(s.take(i)).is_prefix_of(first_occurrences(s)),
    decreases s.len() - i,
{
    if i == s.len() {
        assert(s.take(i) =~= s);
    } else {
        lemma_first_occurrences_step(s, i);
        lemma_first_occurrences_prefix(s, i + 1);
        assert(first_occurrences(s.take(i)).is_prefix_of(first_occurrences(s.take(i + 1))));
    }
}

/// The compact numbering covers exactly the referenced values: a value
/// occurs in the first-occurrence list of `s` exactly when it occurs in
/// `s`.
pub proof fn lemma_first_occurrences_contains(s: Seq<u32>, x: u32)
    ensures
        first_occurrences(s).contains(x) <==> s.contains(x),
    decreases s.len(),
{
    if s.len() != 0 {
        let d = s.drop_last();
        let rest = first_occurrences(d);
        lemma_first_occurrences_contains(d, x);
        if d.contains(x) {
            let w = choose|w: int| 0 <= w < d.len() && d[w] == x;
            assert(s[w] == x);
        }
        if x == s.last() {
            assert(s[s.len() - 1] == x);
            if !rest.contains(s.last()) {
                assert(rest.push(s.last())[rest.len() as int] == x);
            }
        } else {
            if s.contains(x) {
                let w = choose|w: int| 0 <= w < s.len() && s[w] == x;
                assert(d[w] == x);
            }
            if !rest.contains(s.last()) && rest.push(s.last()).contains(x) {
                let w = choose|w: int| 0 <= w < rest.len() + 1 && rest.push(s.last())[w] == x;
                assert(rest[w] == x);
            }
            if !rest.contains(s.last()) && rest.contains(x) {
                let w = choose|w: int| 0 <= w < rest.len() && rest[w] == x;
                assert(rest.push(s.last())[w] == x);
            }
        }
    }
}

/// The first-occurrence list numbers each referenced value once: it holds
/// no duplicates.
pub proof fn lemma_first_occurrences_no_duplicates(s: Seq<u32>)
    ensures
        first_occurrences(s).no_duplicates(),
    decreases s.len(),
{
    if s.len() != 0 {
        let rest = first_occurrences(s.drop_last());
        lemma_first_occurrences_no_duplicates(s.drop_last());
        if !rest.contains(s.last()) {
            let fo = rest.push(s.last());
            assert forall|i: int, j: int| 0 <= i < j < fo.len() implies fo[i] != fo[j] by {
                if j < rest.len() {
                    assert(rest[i] != rest[j]);
                } else {
                    if fo[i] == s.last() {
                        assert(rest[i] == s.last());
                    }
                }
            }
        }
    }
}

/// Remaps one face group's triangle indices. Scanning `indices` in order,
/// each original vertex-buffer position is assigned a compact index in
/// first-occurrence order; the compact vertex list holds the referenced
/// vertices in that same order, and the output index list replaces every
/// original index by its compact index. The compact index space is 16-bit: a
/// group referencing more than 65536 distinct vertices fails with
/// `IndexOverflow` instead of wrapping.
pub fn remap_face_group(vertices: &Vec<DdmVertex>, indices: &Vec<u32>) -> (r: Result<
    (Vec<DdmVertex>, Vec<u16>),
    DdmError,
>)
    requires
        forall|k: int| 0 <= k < indices@.len() ==> (indices@[k] as int) < vertices@.len(),
    ensures
        match r {
            Ok((vs, out)) => {
                let fo = first_occurrences(indices@);
                &&& fo.len() <= 65536
                &&& vs@.len() == fo.len()
                &&& forall|k: int| 0 <= k < fo.len() ==> vs@[k] == vertices@[fo[k] as int]
                &&& out@.len() == indices@.len()
                &&& forall|k: int|
                    0 <= k < out@.len() ==> out@[k] as int == position_of(fo, indices@[k])
                &&& forall|k: int| 0 <= k < out@.len() ==> (out@[k] as int) < fo.len()
            },
            Err(e) => {
                &&& e == DdmError::IndexOverflow
                &&& first_occurrences(indices@).len() > 65536
            },
        },
{
    let ghost s = indices@;
    let n = indices.len();
    let mut table: HashMap<u32, u16> = HashMap::new();
    let mut verts: Vec<DdmVertex> = Vec::new();
    let mut out: Vec<u16> = Vec::new();
    let mut i: usize = 0;
    while i < n
        invariant
            n == s.len(),
            s == indices@,
            i <= n,
            forall|k: int| 0 <= k < s.len() ==> (s[k] as int) < vertices@.len(),
            verts@.len() == first_occurrences(s.take(i as int)).len(),
            verts@.len() <= 65536,
            forall|k: int|
                0 <= k < verts@.len() ==> verts@[k] == vertices@[
                    first_occurrences(s.take(i as int))[k] as int
                ],
            forall|x: u32|
                table@.contains_key(x) <==> first_occurrences(s.take(i as int)).contains(x),
            forall|x: u32|
                table@.contains_key(x) ==> table@[x] as int == position_of(
                    first_occurrences(s.take(i as int)),
                    x,
                ),
            out@.len() == i,
            forall|k: int|
                0 <= k < i ==> first_occurrences(s.take(i as int)).contains(s[k]),
            forall|k: int|
                0 <= k < i ==> out@[k] as int == position_of(
                    first_occurrences(s.take(i as int)),
                    s[k],
                ),
        decreases n - i,
    {
        let ghost fo_i = first_occurrences(s.take(i as int));
        let x = indices[i];
        proof {
            lemma_first_occurrences_step(s, i as int);
        }
        match table.get(&x) {
            Some(cj) => {
                let cj = *cj;
                out.push(cj);
            },
            None => {
                if verts.len() == 65536 {
                    proof {
                        lemma_first_occurrences_prefix(s, i as int + 1);
                        assert(first_occurrences(s.take(i as int + 1)).len() == 65537);
                    }
                    return Err(DdmError::IndexOverflow);
                }
                let cj = verts.len() as u16;
                proof {
                    lemma_position_of(fo_i, x);
                    assert(fo_i.push(x)[fo_i.len() as int] == x);
                    assert forall|j: int| 0 <= j < fo_i.len() implies fo_i.push(x)[j] != x by {
                        assert(!fo_i.contains(x));
                        assert(fo_i.push(x)[j] == fo_i[j]);
                    }
                    assert(position_of(fo_i.push(x), x) == fo_i.len()) by {
                        lemma_position_of(fo_i.push(x), x);
                        assert(fo_i.push(x).contains(x)) by {
                            assert(fo_i.push(x)[fo_i.len() as int] == x);
                        }
                    }
                }
                table.insert(x, cj);
                verts.push(vertices[x as usize]);
                out.push(cj);
            },
        }
        proof {
            let fo_next = first_occurrences(s.take(i as int + 1));
            if !fo_i.contains(x) {
                assert forall|y: u32| fo_i.contains(y) implies position_of(fo_next, y)
                    == position_of(fo_i, y) by {
                    lemma_position_of_push(fo_i, y, x);
                }
                assert forall|y: u32| #[trigger] fo_next.contains(y) implies (y == x
                    || fo_i.contains(y)) by {
                    let w = choose|w: int| 0 <= w < fo_next.len() && fo_next[w] == y;
                    if w < fo_i.len() {
                        assert(fo_i[w] == y);
                    }
                }
                assert forall|y: u32| y == x || #[trigger] fo_i.contains(y) implies
                    fo_next.contains(y) by {
                    if y == x {
                        assert(fo_next[fo_i.len() as int] == y);
                    } else {
                        let w = choose|w: int| 0 <= w < fo_i.len() && fo_i[w] == y;
                        assert(fo_next[w] == y);
                    }
                }
            }
            assert forall|k: int| 0 <= k < i + 1 implies fo_next.contains(s[k]) by {
                if k < i {
                    assert(fo_i.contains(s[k]));
                    let w = choose|w: int| 0 <= w < fo_i.len() && fo_i[w] == s[k];
                    if !fo_i.contains(x) {
                        assert(fo_next[w] == s[k]);
                    }
                } else {
                    lemma_position_of(fo_next, x);
                    if !fo_i.contains(x) {
                        assert(fo_next[fo_i.len() as int] == x);
                    }
                }
            }
        }
        i += 1;
    }
    proof {
        assert(s.take(n as int) =~= s);
        let fo = first_occurrences(s);
        assert forall|k: int| 0 <= k < out@.len() implies (out@[k] as int) < fo.len() by {
            lemma_position_of(fo, s[k]);
        }
    }
    Ok((verts, out))
}

} // verus!
