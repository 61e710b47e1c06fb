//! Counting what a series of measurements gave.

use vstd::prelude::*;

verus! {

/// How many of the first `k` measurements have a zero at position `i`.
pub open spec fn zeros_at(measurements: Seq<Seq<i32>>, i: int, k: nat) -> nat
    decreases k,
{
    if k == 0 {
        0
    } else {
        let last = measurements[k - 1];
        let hit: nat = if 0 <= i < last.len() && last[i] == 0 {
            1
        } else {
            0
        };
        zeros_at(measurements, i, (k - 1) as nat) + hit
    }
}

/// How many of the first `k` measurements have a value other than zero at
/// position `i`.
pub open spec fn ones_at(measurements: Seq<Seq<i32>>, i: int, k: nat) -> nat
    decreases k,
{
    if k == 0 {
        0
    } else {
        let last = measurements[k - 1];
        let hit: nat = if 0 <= i < last.len() && last[i] != 0 {
            1
        } else {
            0
        };
        ones_at(measurements, i, (k - 1) as nat) + hit
    }
}

/// The measurements as sequences.
pub open spec fn measurements_of(measurements: Seq<Vec<i32>>) -> Seq<Seq<i32>> {
    Seq::new(measurements.len(), |j: int| measurements[j]@)
}

/// No count can pass the number of measurements counted.
pub proof fn lemma_counts_bounded(measurements: Seq<Seq<i32>>, i: int, k: nat)
    ensures
        zeros_at(measurements, i, k) <= k,
        ones_at(measurements, i, k) <= k,
    decreases k,
{
    if k > 0 {
        lemma_counts_bounded(measurements, i, (k - 1) as nat);
    }
}

/// For each of `num_qubits` positions, how many measurements gave zero
/// there (in the first half of the result) and how many gave one (in the
/// second half).
pub fn count_qubit_states(measurements: &[Vec<i32>], num_qubits: usize) -> (counts: Vec<i32>)
    requires
        num_qubits * 2 <= usize::MAX,
        measurements@.len() <= i32::MAX,
        forall|j: int|
            0 <= j < measurements@.len() ==> (#[trigger] measurements@[j])@.len() <= num_qubits,
    ensures
        counts@.len() == num_qubits * 2,
        forall|i: int|
            0 <= i < num_qubits ==> (#[trigger] counts@[i]) == zeros_at(
                measurements_of(measurements@),
                i,
                measurements@.len(),
            ),
        forall|i: int|
            0 <= i < num_qubits ==> (#[trigger] counts@[num_qubits + i]) == ones_at(
                measurements_of(measurements@),
                i,
                measurements@.len(),
            ),
{
    let ghost all = measurements_of(measurements@);
    let slots = num_qubits * 2;
    let mut counts: Vec<i32> = Vec::with_capacity(slots);
    let mut s: usize = 0;
    while s < slots
        invariant
            s <= slots,
            counts@.len() == s,
            forall|p: int| 0 <= p < s ==> counts@[p] == 0,
        decreases slots - s,
    {
        counts.push(0);
        s += 1;
    }
    let total = measurements.len();
    let mut j: usize = 0;
    while j < total
        invariant
            all == measurements_of(measurements@),
            total == measurements@.len(),
            total <= i32::MAX,
            slots == num_qubits * 2,
            forall|j: int|
                0 <= j < measurements@.len() ==> (#[trigger] measurements@[j])@.len()
                    <= num_qubits,
            j <= total,
            counts@.len() == slots,
            forall|i: int| 0 <= i < num_qubits ==> (#[trigger] counts@[i]) == zeros_at(all, i, j as nat),
            forall|i: int|
                0 <= i < num_qubits ==> (#[trigger] counts@[num_qubits + i]) == ones_at(
                    all,
                    i,
                    j as nat,
                ),
        decreases total - j,
    {
        let measurement = &measurements[j];
        let length = measurement.len();
        let mut i: usize = 0;
        while i < length
            invariant
                all == measurements_of(measurements@),
                all[j as int] == measurement@,
                total == measurements@.len(),
                total <= i32::MAX,
                j < total,
                slots == num_qubits * 2,
                length == measurement@.len(),
                length <= num_qubits,
                i <= length,
                counts@.len() == slots,
                forall|p: int|
                    0 <= p < num_qubits ==> (#[trigger] counts@[p]) == zeros_at(
                        all,
                        p,
                        if p < i {
                            (j + 1) as nat
                        } else {
                            j as nat
                        },
                    ),
                forall|p: int|
                    0 <= p < num_qubits ==> (#[trigger] counts@[num_qubits + p]) == ones_at(
                        all,
                        p,
                        if p < i {
                            (j + 1) as nat
                        } else {
                            j as nat
                        },
                    ),
            decreases length - i,
        {
            proof {
                lemma_counts_bounded(all, i as int, j as nat);
            }
            let ghost before = counts@;
            if measurement[i] == 0 {
                let seen = counts[i];
                counts.set(i, seen + 1);
            } else {
                let seen = counts[num_qubits + i];
                counts.set(num_qubits + i, seen + 1);
            }
            proof {
                assert forall|p: int| 0 <= p < num_qubits implies (#[trigger] counts@[p])
                    == zeros_at(
                    all,
                    p,
                    if p < i + 1 {
                        (j + 1) as nat
                    } else {
                        j as nat
                    },
                ) by {
                    assert(before[p] == zeros_at(
                        all,
                        p,
                        if p < i {
                            (j + 1) as nat
                        } else {
                            j as nat
                        },
                    ));
                }
                assert forall|p: int| 0 <= p < num_qubits implies (#[trigger] counts@[num_qubits
                    + p]) == ones_at(
                    all,
                    p,
                    if p < i + 1 {
                        (j + 1) as nat
                    } else {
                        j as nat
                    },
                ) by {
                    assert(before[num_qubits + p] == ones_at(
                        all,
                        p,
                        if p < i {
                            (j + 1) as nat
                        } else {
                            j as nat
                        },
                    ));
                }
            }
            i += 1;
        }
        j += 1;
    }
    counts
}

} // verus!
