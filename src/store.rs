//! The frozen store of compiled puzzles, addressed by id.
use crate::compiler::CompileError;
use crate::puzzle::{PuzzleData, PuzzleView};
use itertools::Itertools;
use vstd::prelude::*;

verus! {

/// Number of distinct puzzle ids: every `u16`.
pub const ID_COUNT: usize = 65536;

/// The ids of a sequence of puzzles, in order.
pub open spec fn ids_of(puzzles: Seq<PuzzleData>) -> Seq<u16> {
    puzzles.map_values(|p: PuzzleData| p@.id)
}

/// Whether two entries of `ids` are equal.
pub open spec fn has_duplicate_id(ids: Seq<u16>) -> bool {
    exists|i: int, j: int| 0 <= i < j < ids.len() && ids[i] == ids[j]
}

/// The compiled puzzles, each reachable in one step from its id.
pub struct PuzzleStore {
    puzzles: Vec<PuzzleData>,
    slots: Vec<Option<usize>>,
}

impl PuzzleStore {
    #[verifier::type_invariant]
    spec fn inv(&self) -> bool {
        &&& self.slots@.len() == ID_COUNT
        &&& forall|id: int|
            0 <= id < ID_COUNT ==> match #[trigger] self.slots@[id] {
                Some(k) => k < self.puzzles@.len() && self.puzzles@[k as int]@.id == id,
                None => true,
            }
        &&& forall|k: int|
            0 <= k < self.puzzles@.len() ==> self.slots@[(#[trigger] self.puzzles@[k])@.id as int]
                == Some(k as usize)
        &&& forall|k: int| 0 <= k < self.puzzles@.len() ==> (#[trigger] self.puzzles@[k])@.wf()
    }
}

impl View for PuzzleStore {
    type V = Map<u16, PuzzleView>;

    closed spec fn view(&self) -> Map<u16, PuzzleView> {
        Map::new(
            |id: u16| self.slots@[id as int] is Some,
            |id: u16| self.puzzles@[self.slots@[id as int]->Some_0 as int]@,
        )
    }
}

/// Builds the store from the compiled puzzles and the locations of their manifests.
/// Fails when two puzzles share an id, naming the id and both locations.
pub fn build_store(puzzles: Vec<PuzzleData>, locations: &Vec<String>) -> (r: Result<
    PuzzleStore,
    CompileError,
>)
    requires
        locations@.len() == puzzles@.len(),
        forall|k: int| 0 <= k < puzzles@.len() ==> (#[trigger] puzzles@[k])@.wf(),
    ensures
        match r {
            Ok(store) => {
                &&& !has_duplicate_id(ids_of(puzzles@))
                &&& forall|id: u16| store@.contains_key(id) <==> ids_of(puzzles@).contains(id)
                &&& forall|k: int|
                    0 <= k < puzzles@.len() ==> store@[(#[trigger] puzzles@[k])@.id]
                        == puzzles@[k]@
            },
            Err(e) => {
                &&& has_duplicate_id(ids_of(puzzles@))
                &&& e matches CompileError::DuplicateId(id, first, second) && exists|
                    i: int,
                    j: int,
                | 0 <= i < j < puzzles@.len() && puzzles@[i]@.id == id && puzzles@[j]@.id == id
                    && first@ == locations@[i]@ && second@ == locations@[j]@
            },
        },
{
    let mut slots: Vec<Option<usize>> = Vec::new();
    let mut n: usize = 0;
    while n < ID_COUNT
        invariant
            n <= ID_COUNT,
            slots@.len() == n,
            forall|id: int| 0 <= id < n ==> slots@[id] is None,
        decreases ID_COUNT - n,
    {
        slots.push(None);
        n = n + 1;
    }
    let mut k: usize = 0;
    while k < puzzles.len()
        invariant
            k <= puzzles@.len(),
            slots@.len() == ID_COUNT,
            locations@.len() == puzzles@.len(),
            forall|id: int|
                0 <= id < ID_COUNT ==> match #[trigger] slots@[id] {
                    Some(j) => j < k && puzzles@[j as int]@.id == id,
                    None => true,
                },
            forall|j: int| 0 <= j < k ==> slots@[(#[trigger] puzzles@[j])@.id as int] == Some(j as usize),
            !has_duplicate_id(ids_of(puzzles@).subrange(0, k as int)),
        decreases puzzles.len() - k,
    {
        let id = *puzzles[k].get_id();
        match slots[id as usize] {
            Some(j) => {
                assert(ids_of(puzzles@)[j as int] == ids_of(puzzles@)[k as int]);
                return Err(CompileError::DuplicateId(id, locations[j].clone(), locations[k].clone()));
            },
            None => {
                assert(!has_duplicate_id(ids_of(puzzles@).subrange(0, k + 1))) by {
                    let ids = ids_of(puzzles@).subrange(0, k + 1);
                    assert forall|a: int, b: int| 0 <= a < b < ids.len() implies ids[a] != ids[b] by {
                        if b == k {
                            assert(slots@[puzzles@[a]@.id as int] == Some(a as usize));
                        } else {
                            assert(ids_of(puzzles@).subrange(0, k as int)[a] == ids[a]);
                            assert(ids_of(puzzles@).subrange(0, k as int)[b] == ids[b]);
                        }
                    }
                }
                slots.set(id as usize, Some(k));
            },
        }
        k = k + 1;
    }
    assert(ids_of(puzzles@).subrange(0, puzzles@.len() as int) =~= ids_of(puzzles@));
    let store = PuzzleStore { puzzles, slots };
    assert forall|id: u16| store@.contains_key(id) <==> ids_of(store.puzzles@).contains(id) by {
        if store@.contains_key(id) {
            let j = store.slots@[id as int]->Some_0;
            assert(ids_of(store.puzzles@)[j as int] == id);
        }
        if ids_of(store.puzzles@).contains(id) {
            let j = choose|j: int| 0 <= j < ids_of(store.puzzles@).len() && ids_of(store.puzzles@)[j] == id;
            assert(store.slots@[store.puzzles@[j]@.id as int] == Some(j as usize));
        }
    }
    Ok(store)
}

/// The puzzle with the given id, if the store holds one.
pub fn get_file_data(store: &PuzzleStore, id: u16) -> (r: Option<&PuzzleData>)
    ensures
        r is Some <==> store@.contains_key(id),
        r matches Some(p) ==> p@ == store@[id] && p@.id == id && p@.wf(),
{
    proof {
        use_type_invariant(store);
    }
    match store.slots[id as usize] {
        Some(k) => Some(&store.puzzles[k]),
        None => None,
    }
}

/// Relies on itertools' `sorted`: the same ids, in ascending order.
#[verifier::external_body]
fn sorted_ids(ids: Vec<u16>) -> (r: Vec<u16>)
    ensures
        r@.to_multiset() == ids@.to_multiset(),
        forall|i: int, j: int| 0 <= i < j < r@.len() ==> r@[i] <= r@[j],
{
    ids.into_iter().sorted().collect()
}

/// Whether `ids` ascends strictly.
pub open spec fn strictly_ascending(ids: Seq<u16>) -> bool {
    forall|i: int, j: int| 0 <= i < j < ids.len() ==> ids[i] < ids[j]
}

/// Every id that the store holds, in strictly ascending order.
pub fn get_id_list(store: &PuzzleStore) -> (r: Vec<u16>)
    ensures
        strictly_ascending(r@),
        forall|id: u16| r@.contains(id) <==> store@.contains_key(id),
{
    proof {
        use_type_invariant(store);
    }
    let mut ids: Vec<u16> = Vec::new();
    let mut k: usize = 0;
    while k < store.puzzles.len()
        invariant
            k <= store.puzzles@.len(),
            ids@ == ids_of(store.puzzles@).subrange(0, k as int),
        decreases store.puzzles.len() - k,
    {
        ids.push(*store.puzzles[k].get_id());
        assert(ids@ =~= ids_of(store.puzzles@).subrange(0, k + 1));
        k = k + 1;
    }
    assert(ids@ =~= ids_of(store.puzzles@));
    assert(ids@.no_duplicates()) by {
        assert forall|i: int, j: int| 0 <= i < ids@.len() && 0 <= j < ids@.len() && i != j implies ids@[i] != ids@[j] by {
            assert(store.slots@[store.puzzles@[i]@.id as int] == Some(i as usize));
            assert(store.slots@[store.puzzles@[j]@.id as int] == Some(j as usize));
        }
    }
    let ghost unsorted = ids@;
    let sorted = sorted_ids(ids);
    proof {
        unsorted.lemma_multiset_has_no_duplicates();
        sorted@.lemma_multiset_has_no_duplicates_conv();
        assert forall|id: u16| sorted@.contains(id) <==> store@.contains_key(id) by {
            vstd::seq_lib::to_multiset_contains(sorted@, id);
            vstd::seq_lib::to_multiset_contains(unsorted, id);
            if store@.contains_key(id) {
                let j = store.slots@[id as int]->Some_0;
                assert(unsorted[j as int] == id);
            }
            if unsorted.contains(id) {
                let j = choose|j: int| 0 <= j < unsorted.len() && unsorted[j] == id;
                assert(store.slots@[store.puzzles@[j]@.id as int] == Some(j as usize));
            }
        }
    }
    sorted
}

/// Whether `perm` lists each index below `n` exactly once.
pub open spec fn is_permutation(perm: Seq<int>, n: int) -> bool {
    &&& perm.len() == n
    &&& forall|i: int| 0 <= i < n ==> 0 <= #[trigger] perm[i] < n
    &&& forall|i: int, j: int| 0 <= i < j < n ==> perm[i] != perm[j]
    &&& forall|x: int| 0 <= x < n ==> #[trigger] perm.contains(x)
}

/// Duplicate detection does not depend on the order in which the manifests are met: when
/// `b` lists the puzzles of `a` in another order, both have a repeated id or neither has,
/// so building the store from either fails alike.
pub proof fn lemma_duplicate_detection_order_free(
    a: Seq<PuzzleData>,
    b: Seq<PuzzleData>,
    perm: Seq<int>,
)
    requires
        is_permutation(perm, a.len() as int),
        b.len() == a.len(),
        forall|i: int| 0 <= i < b.len() ==> b[i] == a[#[trigger] perm[i]],
    ensures
        has_duplicate_id(ids_of(a)) == has_duplicate_id(ids_of(b)),
{
    if has_duplicate_id(ids_of(a)) {
        let (x, y) = choose|x: int, y: int|
            0 <= x < y < ids_of(a).len() && ids_of(a)[x] == ids_of(a)[y];
        assert(perm.contains(x));
        assert(perm.contains(y));
        let i = choose|i: int| 0 <= i < perm.len() && perm[i] == x;
        let j = choose|j: int| 0 <= j < perm.len() && perm[j] == y;
        assert(ids_of(b)[i] == ids_of(b)[j]);
        if i < j {
            assert(0 <= i < j < ids_of(b).len());
        } else {
            assert(0 <= j < i < ids_of(b).len());
        }
    }
    if has_duplicate_id(ids_of(b)) {
        let (i, j) = choose|i: int, j: int|
            0 <= i < j < ids_of(b).len() && ids_of(b)[i] == ids_of(b)[j];
        let x = perm[i];
        let y = perm[j];
        assert(ids_of(a)[x] == ids_of(a)[y]);
        if x < y {
            assert(0 <= x < y < ids_of(a).len());
        } else {
            assert(0 <= y < x < ids_of(a).len());
        }
    }
}

} // verus!
