//! The laws of the accumulator, stated over the model and proved once and
//! for all: they hold for every sequence of writes.

use crate::model::{concat_all, held_bytes, init, lemma_run_no_seal, lemma_run_stream,
    lemma_seal_holds_everything, lemma_sum_len_is_concat_len, model_wf, run, seal, sum_len,
    AccModel};
use vstd::prelude::*;

verus! {

/// Before any write, the accumulator is well formed and holds nothing.
pub proof fn lemma_init_wf(threshold: nat)
    requires
        threshold >= 1,
    ensures
        model_wf(init(threshold)),
        held_bytes(init(threshold)) == Seq::<u8>::empty(),
{
    assert(held_bytes(init(threshold)) =~= Seq::<u8>::empty());
}

/// When the written total is positive but below the split threshold,
/// finalization seals exactly one part, whose content is the
/// concatenation of all written slices in order.
pub proof fn lemma_small_total_single_part(threshold: nat, writes: Seq<Seq<u8>>)
    requires
        threshold >= 1,
        0 < sum_len(writes) < threshold,
    ensures
        ({
            let fin = seal(run(init(threshold), writes));
            fin.len() == 1 && fin[0] == concat_all(writes)
        }),
{
    let m0 = init(threshold);
    lemma_run_no_seal(m0, writes);
    lemma_sum_len_is_concat_len(writes);
    let m = run(m0, writes);
    assert(m.buffer =~= concat_all(writes));
    assert(m.buffer.len() > 0);
    assert(seal(m)[0] == concat_all(writes));
}

/// Whatever was written — in particular when the total exceeds the split
/// threshold by more than one threshold's worth — every sealed part
/// except the last has reached the threshold, and concatenating the
/// sealed parts in order reproduces the exact input byte stream.
pub proof fn lemma_large_total_parts(threshold: nat, writes: Seq<Seq<u8>>)
    requires
        threshold >= 1,
        sum_len(writes) > 2 * threshold,
    ensures
        ({
            let fin = seal(run(init(threshold), writes));
            &&& forall|i: int| 0 <= i < fin.len() - 1 ==> #[trigger] fin[i].len() >= threshold
            &&& concat_all(fin) == concat_all(writes)
        }),
{
    let m0 = init(threshold);
    lemma_init_wf(threshold);
    lemma_run_stream(m0, writes);
    let m = run(m0, writes);
    let fin = seal(m);
    assert forall|i: int| 0 <= i < fin.len() - 1 implies #[trigger] fin[i].len() >= threshold by {
        if m.buffer.len() > 0 {
            assert(fin[i] == m.parts[i]);
        }
    }
    lemma_seal_holds_everything(m);
    assert(held_bytes(m0) + concat_all(writes) =~= concat_all(writes));
}

/// The byte counter equals the sum of the lengths of all slices ever
/// written, however the parts were split.
pub proof fn lemma_counter_is_sum(threshold: nat, writes: Seq<Seq<u8>>)
    requires
        threshold >= 1,
    ensures
        run(init(threshold), writes).total == sum_len(writes),
{
    lemma_init_wf(threshold);
    lemma_run_stream(init(threshold), writes);
}

} // verus!
