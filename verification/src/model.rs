//! Mathematical model of the buffering accumulator.
//!
//! A writer is modelled by the sequence of parts it has sealed, the bytes
//! still in its in-progress buffer, the running byte counter, and the
//! split threshold. `step` is one write, `run` a whole history of writes,
//! and `seal` the sealing of the residual buffer at finalization.

use vstd::prelude::*;

verus! {

/// Abstract state of the accumulator.
#[verifier::ext_equal]
pub struct AccModel {
    /// Buffer length at which a part is sealed.
    pub threshold: nat,
    /// Sealed parts, in write order.
    pub parts: Seq<Seq<u8>>,
    /// Bytes accepted but not yet sealed into a part.
    pub buffer: Seq<u8>,
    /// Bytes ever written.
    pub total: nat,
}

/// Concatenation of a sequence of byte blocks, in order.
pub open spec fn concat_all(ss: Seq<Seq<u8>>) -> Seq<u8>
    decreases ss.len(),
{
    if ss.len() == 0 {
        Seq::empty()
    } else {
        ss[0] + concat_all(ss.drop_first())
    }
}

/// Sum of the lengths of a sequence of byte blocks.
pub open spec fn sum_len(ss: Seq<Seq<u8>>) -> nat
    decreases ss.len(),
{
    if ss.len() == 0 {
        0
    } else {
        ss[0].len() + sum_len(ss.drop_first())
    }
}

/// The accumulator before any write.
pub open spec fn init(threshold: nat) -> AccModel {
    AccModel { threshold, parts: Seq::empty(), buffer: Seq::empty(), total: 0 }
}

/// One write: the slice is appended to the buffer and counted; if the
/// buffer has then reached the threshold it is sealed into a new part.
pub open spec fn step(m: AccModel, bs: Seq<u8>) -> AccModel {
    let combined = m.buffer + bs;
    if combined.len() >= m.threshold {
        AccModel {
            threshold: m.threshold,
            parts: m.parts.push(combined),
            buffer: Seq::empty(),
            total: m.total + bs.len(),
        }
    } else {
        AccModel { threshold: m.threshold, parts: m.parts, buffer: combined, total: m.total + bs.len() }
    }
}

/// The accumulator after a whole sequence of writes.
pub open spec fn run(m: AccModel, writes: Seq<Seq<u8>>) -> AccModel
    decreases writes.len(),
{
    if writes.len() == 0 {
        m
    } else {
        run(step(m, writes[0]), writes.drop_first())
    }
}

/// The parts sealed at finalization: a non-empty in-progress buffer
/// becomes the final part, which alone may be short.
pub open spec fn seal(m: AccModel) -> Seq<Seq<u8>> {
    if m.buffer.len() > 0 {
        m.parts.push(m.buffer)
    } else {
        m.parts
    }
}

/// Every byte the accumulator holds, in write order.
pub open spec fn held_bytes(m: AccModel) -> Seq<u8> {
    concat_all(m.parts) + m.buffer
}

/// Invariant of the accumulator: the buffer is strictly below the
/// threshold, every sealed part has reached it, and the counter equals
/// the number of bytes held.
pub open spec fn model_wf(m: AccModel) -> bool {
    &&& m.threshold >= 1
    &&& m.buffer.len() < m.threshold
    &&& (forall|i: int| 0 <= i < m.parts.len() ==> #[trigger] m.parts[i].len() >= m.threshold)
    &&& m.total == held_bytes(m).len()
}

pub proof fn lemma_concat_all_push(ss: Seq<Seq<u8>>, x: Seq<u8>)
    ensures
        concat_all(ss.push(x)) == concat_all(ss) + x,
    decreases ss.len(),
{
    let p = ss.push(x);
    if ss.len() == 0 {
        assert(p[0] == x);
        assert(p.drop_first() =~= Seq::<Seq<u8>>::empty());
        assert(concat_all(p.drop_first()) =~= Seq::<u8>::empty());
        assert(concat_all(p) == p[0] + concat_all(p.drop_first()));
        assert(concat_all(ss) =~= Seq::<u8>::empty());
        assert(concat_all(p) =~= concat_all(ss) + x);
    } else {
        assert(p[0] == ss[0]);
        assert(p.drop_first() =~= ss.drop_first().push(x));
        lemma_concat_all_push(ss.drop_first(), x);
        assert(concat_all(p) == p[0] + concat_all(p.drop_first()));
        assert(concat_all(ss) == ss[0] + concat_all(ss.drop_first()));
        assert(concat_all(p) =~= concat_all(ss) + x);
    }
}

pub proof fn lemma_sum_len_is_concat_len(ss: Seq<Seq<u8>>)
    ensures
        sum_len(ss) == concat_all(ss).len(),
    decreases ss.len(),
{
    if ss.len() > 0 {
        lemma_sum_len_is_concat_len(ss.drop_first());
    }
}

/// One write appends exactly the written bytes to what is held, and adds
/// their number to the counter.
pub proof fn lemma_step_stream(m: AccModel, bs: Seq<u8>)
    ensures
        held_bytes(step(m, bs)) == held_bytes(m) + bs,
        step(m, bs).total == m.total + bs.len(),
        step(m, bs).threshold == m.threshold,
{
    let combined = m.buffer + bs;
    if combined.len() >= m.threshold {
        lemma_concat_all_push(m.parts, combined);
        assert(held_bytes(step(m, bs)) =~= held_bytes(m) + bs);
    } else {
        assert(held_bytes(step(m, bs)) =~= held_bytes(m) + bs);
    }
}

/// One write preserves the accumulator invariant.
pub proof fn lemma_step_preserves_wf(m: AccModel, bs: Seq<u8>)
    requires
        model_wf(m),
    ensures
        model_wf(step(m, bs)),
{
    lemma_step_stream(m, bs);
    let combined = m.buffer + bs;
    if combined.len() >= m.threshold {
        let parts2 = m.parts.push(combined);
        assert forall|i: int| 0 <= i < parts2.len() implies #[trigger] parts2[i].len()
            >= m.threshold by {
            if i < m.parts.len() {
                assert(parts2[i] == m.parts[i]);
            }
        }
    }
}

/// A whole history of writes leaves the accumulator holding exactly the
/// concatenation of the written slices, counted exactly.
pub proof fn lemma_run_stream(m: AccModel, writes: Seq<Seq<u8>>)
    requires
        model_wf(m),
    ensures
        model_wf(run(m, writes)),
        held_bytes(run(m, writes)) == held_bytes(m) + concat_all(writes),
        run(m, writes).total == m.total + sum_len(writes),
        run(m, writes).threshold == m.threshold,
    decreases writes.len(),
{
    if writes.len() == 0 {
        assert(held_bytes(run(m, writes)) =~= held_bytes(m) + concat_all(writes));
    } else {
        let m1 = step(m, writes[0]);
        lemma_step_stream(m, writes[0]);
        lemma_step_preserves_wf(m, writes[0]);
        lemma_run_stream(m1, writes.drop_first());
        assert(held_bytes(m) + concat_all(writes) =~= (held_bytes(m) + writes[0]) + concat_all(
            writes.drop_first(),
        ));
    }
}

/// While the written total stays below the threshold, nothing is sealed:
/// the buffer simply grows by each slice.
pub proof fn lemma_run_no_seal(m: AccModel, writes: Seq<Seq<u8>>)
    requires
        m.buffer.len() + sum_len(writes) < m.threshold,
    ensures
        run(m, writes).parts == m.parts,
        run(m, writes).buffer == m.buffer + concat_all(writes),
        run(m, writes).threshold == m.threshold,
    decreases writes.len(),
{
    if writes.len() == 0 {
        assert(run(m, writes).buffer =~= m.buffer + concat_all(writes));
    } else {
        let m1 = step(m, writes[0]);
        assert((m.buffer + writes[0]).len() < m.threshold);
        lemma_run_no_seal(m1, writes.drop_first());
        assert(m1.buffer + concat_all(writes.drop_first()) =~= m.buffer + concat_all(writes));
    }
}

/// Concatenating a single block gives that block.
pub proof fn lemma_concat_all_singleton(ss: Seq<Seq<u8>>)
    requires
        ss.len() == 1,
    ensures
        concat_all(ss) == ss[0],
{
    assert(ss.drop_first() =~= Seq::<Seq<u8>>::empty());
    assert(concat_all(ss.drop_first()) =~= Seq::<u8>::empty());
    assert(concat_all(ss) =~= ss[0]);
}

/// Sealing moves the bytes held into the sealed parts, losing nothing.
pub proof fn lemma_seal_holds_everything(m: AccModel)
    ensures
        concat_all(seal(m)) == held_bytes(m),
        sum_len(seal(m)) == held_bytes(m).len(),
{
    if m.buffer.len() > 0 {
        lemma_concat_all_push(m.parts, m.buffer);
    } else {
        assert(concat_all(m.parts) =~= concat_all(m.parts) + m.buffer);
    }
    lemma_sum_len_is_concat_len(seal(m));
}

} // verus!
