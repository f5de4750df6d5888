//! Bookkeeping of qubit identifiers for a simulator with a fixed number of
//! qubits.

use vstd::prelude::*;

verus! {

/// The number of entries of `free` that are `false`: the qubits in use.
pub open spec fn count_allocated(free: Seq<bool>) -> nat
    decreases free.len(),
{
    if free.len() == 0 {
        0
    } else {
        count_allocated(free.drop_last()) + if free.last() {
            0nat
        } else {
            1nat
        }
    }
}

/// No more qubits are in use than there are.
pub proof fn lemma_count_bounded(free: Seq<bool>)
    ensures
        count_allocated(free) <= free.len(),
    decreases free.len(),
{
    if free.len() > 0 {
        lemma_count_bounded(free.drop_last());
    }
}

/// Changing one entry changes the count by at most one, in the direction
/// of the change.
pub proof fn lemma_count_update(free: Seq<bool>, i: int, value: bool)
    requires
        0 <= i < free.len(),
    ensures
        count_allocated(free.update(i, value)) + (if free[i] {
            0int
        } else {
            1int
        }) == count_allocated(free) + (if value {
            0int
        } else {
            1int
        }),
    decreases free.len(),
{
    let after = free.update(i, value);
    if i == free.len() - 1 {
        assert(after.drop_last() =~= free.drop_last());
    } else {
        assert(after.drop_last() =~= free.drop_last().update(i, value));
        lemma_count_update(free.drop_last(), i, value);
    }
}

/// Whether `ids` holds each of the numbers below its length once.
pub open spec fn is_permutation(ids: Seq<usize>) -> bool {
    &&& forall|i: int| 0 <= i < ids.len() ==> (#[trigger] ids[i]) < ids.len()
    &&& forall|i: int, j: int|
        0 <= i < ids.len() && 0 <= j < ids.len() && i != j ==> (#[trigger] ids[i]) != (
        #[trigger] ids[j])
}

/// Hands out the identifiers `0..n` of a simulator's qubits, lowest free
/// one first, and maps each to the simulator's own identifier.
pub struct QubitManager {
    pub user_id_to_sim_id: Vec<usize>,
    pub is_free: Vec<bool>,
    pub allocated_count: usize,
}

impl QubitManager {
    /// Both tables have one entry for each qubit, the qubits are mapped
    /// to the simulator's identifiers one to one, and the count is the
    /// number of qubits in use.
    pub open spec fn wf(self) -> bool {
        &&& self.user_id_to_sim_id@.len() == self.is_free@.len()
        &&& is_permutation(self.user_id_to_sim_id@)
        &&& self.allocated_count == count_allocated(self.is_free@)
    }

    /// Whether `id` is a qubit in use.
    pub open spec fn allocated(self, id: int) -> bool {
        0 <= id < self.is_free@.len() && !self.is_free@[id]
    }

    /// A manager of `max_allowed_number_of_qubits` qubits, all free, each
    /// mapped to itself.
    pub fn new(max_allowed_number_of_qubits: usize) -> (r: QubitManager)
        ensures
            r.wf(),
            r.is_free@.len() == max_allowed_number_of_qubits,
            forall|i: int| 0 <= i < max_allowed_number_of_qubits ==> r.is_free@[i],
            forall|i: int| 0 <= i < max_allowed_number_of_qubits ==> r.user_id_to_sim_id@[i] == i,
            r.allocated_count == 0,
    {
        let mut user_id_to_sim_id: Vec<usize> = Vec::new();
        let mut is_free: Vec<bool> = Vec::new();
        let mut i: usize = 0;
        while i < max_allowed_number_of_qubits
            invariant
                i <= max_allowed_number_of_qubits,
                user_id_to_sim_id@.len() == i,
                is_free@.len() == i,
                forall|j: int| 0 <= j < i ==> is_free@[j],
                forall|j: int| 0 <= j < i ==> user_id_to_sim_id@[j] == j,
                count_allocated(is_free@) == 0,
            decreases max_allowed_number_of_qubits - i,
        {
            user_id_to_sim_id.push(i);
            let ghost before = is_free@;
            is_free.push(true);
            proof {
                assert(is_free@.drop_last() =~= before);
            }
            i += 1;
        }
        QubitManager { user_id_to_sim_id, is_free, allocated_count: 0 }
    }

    /// Takes the lowest free identifier into use, if there is a free one.
    pub fn allocate(&mut self) -> (r: Option<usize>)
        requires
            old(self).wf(),
        ensures
            final(self).wf(),
            final(self).user_id_to_sim_id == old(self).user_id_to_sim_id,
            match r {
                Some(id) => {
                    &&& id < old(self).is_free@.len()
                    &&& old(self).is_free@[id as int]
                    &&& forall|j: int| 0 <= j < id ==> !old(self).is_free@[j]
                    &&& final(self).is_free@ == old(self).is_free@.update(id as int, false)
                    &&& final(self).allocated_count == old(self).allocated_count + 1
                },
                None => {
                    &&& forall|j: int| 0 <= j < old(self).is_free@.len() ==> !old(self).is_free@[j]
                    &&& final(self).is_free@ == old(self).is_free@
                    &&& final(self).allocated_count == old(self).allocated_count
                },
            },
    {
        let mut id: usize = 0;
        while id < self.is_free.len()
            invariant
                *self == *old(self),
                self.wf(),
                id <= self.is_free@.len(),
                forall|j: int| 0 <= j < id ==> !self.is_free@[j],
            decreases self.is_free@.len() - id,
        {
            if self.is_free[id] {
                proof {
                    lemma_count_update(self.is_free@, id as int, false);
                    lemma_count_bounded(self.is_free@.update(id as int, false));
                }
                self.is_free.set(id, false);
                self.allocated_count += 1;
                return Some(id);
            }
            id += 1;
        }
        None
    }

    /// Frees the qubit `id`, which is in use.
    pub fn release(&mut self, id: usize)
        requires
            old(self).wf(),
            old(self).allocated(id as int),
        ensures
            final(self).wf(),
            final(self).is_free@ == old(self).is_free@.update(id as int, true),
            final(self).allocated_count == old(self).allocated_count - 1,
            final(self).user_id_to_sim_id == old(self).user_id_to_sim_id,
    {
        proof {
            lemma_count_update(self.is_free@, id as int, true);
        }
        self.is_free.set(id, true);
        self.allocated_count -= 1;
    }

    /// Exchanges what the qubits `id1` and `id2`, both in use, are mapped
    /// to.
    pub fn swap(&mut self, id1: usize, id2: usize)
        requires
            old(self).wf(),
            old(self).allocated(id1 as int),
            old(self).allocated(id2 as int),
        ensures
            final(self).wf(),
            final(self).user_id_to_sim_id@ == old(self).user_id_to_sim_id@.update(
                id1 as int,
                old(self).user_id_to_sim_id@[id2 as int],
            ).update(id2 as int, old(self).user_id_to_sim_id@[id1 as int]),
            final(self).is_free == old(self).is_free,
            final(self).allocated_count == old(self).allocated_count,
    {
        let a = self.user_id_to_sim_id[id1];
        let b = self.user_id_to_sim_id[id2];
        self.user_id_to_sim_id.set(id1, b);
        self.user_id_to_sim_id.set(id2, a);
    }

    /// The simulator's identifier of the qubit `id`: one of the
    /// simulator's qubits, and another for each qubit.
    pub fn map(&self, id: usize) -> (r: usize)
        requires
            id < self.user_id_to_sim_id@.len(),
        ensures
            r == self.user_id_to_sim_id@[id as int],
            self.wf() ==> r < self.user_id_to_sim_id@.len(),
    {
        self.user_id_to_sim_id[id]
    }

    /// The number of qubits in use.
    pub fn qubit_count(&self) -> (r: usize)
        ensures
            r == self.allocated_count,
    {
        self.allocated_count
    }
}

/// Two backends of which the second is driven before the first, and
/// the answers of the first are the ones that count.
pub struct Chain<T1, T2> {
    pub main: T1,
    pub chained: T2,
}

impl<T1, T2> Chain<T1, T2> {
    /// The chain of `primary`, whose answers count, and `chained`.
    pub fn new(primary: T1, chained: T2) -> (r: Chain<T1, T2>)
        ensures
            r.main == primary,
            r.chained == chained,
    {
        Chain { main: primary, chained }
    }
}

} // verus!
