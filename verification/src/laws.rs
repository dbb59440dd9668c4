//! What holds of the store on every directory.
//!
//! Each law is stated over [`Image`], the value that the contracts of
//! [`FileSeq`](crate::store::FileSeq) are written in, so it holds of every
//! run of the store's operations.

use crate::codec::{encoded, law_decode_inverts_encode, SLOT_LEN};
use crate::image::{slot_value, total, Image, Step};
use crate::store::{read_outcome, SeqError};
use vstd::prelude::*;

verus! {

/// A store opened on an empty directory reads its initial value and has
/// written exactly one slot file, the fresh one: its rotation found nothing
/// to move.
pub proof fn law_open_on_empty(initial: u64)
    ensures
        Image::empty().initialized(initial).reading() == Some(initial),
        Image::empty().initialized(initial).fresh == Some(encoded(initial)),
        Image::empty().initialized(initial).stable is None,
        Image::empty().initialize_steps(initial) == seq![Step::Rotate, Step::Write(initial)],
        Image::empty().applied(Step::Rotate) == Image::empty(),
{
    law_decode_inverts_encode(initial);
}

/// A store opened on a directory that has a slot file leaves it alone.
pub proof fn law_open_on_existing(image: Image, initial: u64)
    requires
        image.stable is Some || image.fresh is Some,
    ensures
        image.initialized(initial) == image,
        image.initialize_steps(initial) == Seq::<Step>::empty(),
{
}

/// After an increment the stable slot holds the value that was read and the
/// fresh slot that value plus the increment, so the next read returns the sum.
pub proof fn law_increment_then_read(image: Image, delta: u64)
    requires
        image.reading() matches Some(value) && value + delta <= u64::MAX,
    ensures
        image.incremented(delta).stable_value() == image.reading(),
        image.incremented(delta).fresh_value() == Some((image.reading().unwrap() + delta) as u64),
        image.incremented(delta).reading() == Some((image.reading().unwrap() + delta) as u64),
{
    law_decode_inverts_encode((image.reading().unwrap() + delta) as u64);
}

/// Increments add up: after any sequence of them a read returns the value
/// before the first plus their sum.
pub proof fn law_increments_add_up(image: Image, deltas: Seq<u64>)
    requires
        image.reading() matches Some(value) && value + total(deltas) <= u64::MAX,
    ensures
        image.incremented_by_all(deltas).reading() == Some(
            (image.reading().unwrap() + total(deltas)) as u64,
        ),
    decreases deltas.len(),
{
    if deltas.len() > 0 {
        law_increments_add_up(image, deltas.drop_last());
        law_increment_then_read(image.incremented_by_all(deltas.drop_last()), deltas.last());
    }
}

/// Rotation: after an increment above zero both slot files exist, the stable
/// one has byte for byte what the slot that was read from had, and the fresh
/// one, written last, holds the strictly larger value.
pub proof fn law_rotation(image: Image, delta: u64)
    requires
        image.reading() matches Some(value) && value + delta <= u64::MAX,
        delta > 0,
    ensures
        image.incremented(delta).stable is Some,
        image.incremented(delta).fresh is Some,
        image.incremented(delta).stable == image.trusted(),
        slot_value(image.trusted()) == image.reading(),
        image.incremented(delta).fresh_value().unwrap() > image.incremented(
            delta,
        ).stable_value().unwrap(),
{
    law_increment_then_read(image, delta);
}

/// Crash tolerance: where the fresh slot's file is cut short and the stable
/// slot holds a value, a read returns the stable slot's value and removes the
/// fresh slot's file, leaving the stable one as it was.
pub proof fn law_torn_fresh_is_recovered(image: Image)
    requires
        image.torn(),
        image.stable_value() is Some,
    ensures
        image.reading() == image.stable_value(),
        image.reconciled().fresh is None,
        image.reconciled().stable == image.stable,
        image.reconcile_steps() == seq![Step::Discard],
{
}

/// Self-healing: where both slots hold a value and the fresh one is not above
/// the stable one, a read returns the stable slot's value, warns, and removes
/// the fresh slot's file.
pub proof fn law_stale_fresh_is_discarded(image: Image)
    requires
        image.stale(),
    ensures
        image.reading() == image.stable_value(),
        image.reconciled().fresh is None,
        image.reconciled().stable == image.stable,
        image.reconcile_steps() == seq![Step::Warn, Step::Discard],
{
}

/// Where the fresh slot holds a value and the stable slot holds a smaller one
/// or none, a read returns the fresh slot's value and touches no file, not
/// even a stable slot that holds no value.
pub proof fn law_leading_fresh_is_trusted(image: Image)
    requires
        image.fresh_value() is Some,
        image.stable_value() matches Some(stable) ==> stable < image.fresh_value().unwrap(),
    ensures
        image.reading() == image.fresh_value(),
        image.reconciled() == image,
        image.reconcile_steps() == Seq::<Step>::empty(),
{
}

/// A read fails, and then as corrupted, exactly where neither slot holds a
/// value. It never makes a value up: what it returns is held by one of the
/// slots, and no slot holds a larger one.
pub proof fn law_reading_is_held(image: Image)
    ensures
        read_outcome(image) == Err::<u64, SeqError>(SeqError::Corrupted)
            <==> image.stable_value() is None && image.fresh_value() is None,
        read_outcome(image) is Err <==> image.reading() is None,
        image.reading() is Some ==> image.reading() == image.stable_value() || image.reading()
            == image.fresh_value(),
        image.stable_value() matches Some(stable) ==> stable <= image.reading().unwrap(),
        image.fresh_value() matches Some(fresh) ==> fresh <= image.reading().unwrap(),
{
}

/// A store opened on an empty directory is sound, every increment above zero
/// of a store that can be read leaves it sound, and a read of a sound store
/// returns the fresh slot's value and touches no file.
pub proof fn law_soundness_is_kept(image: Image, initial: u64, delta: u64)
    ensures
        Image::empty().initialized(initial).sound(),
        image.reading() is Some && image.reading().unwrap() + delta <= u64::MAX && delta > 0
            ==> image.incremented(delta).sound(),
        image.sound() ==> image.reading() == image.fresh_value() && image.reconciled() == image
            && image.reconcile_steps() == Seq::<Step>::empty(),
{
    law_open_on_empty(initial);
    if image.reading() is Some && image.reading().unwrap() + delta <= u64::MAX {
        law_increment_then_read(image, delta);
    }
}

/// Deleting a store with both slot files leaves the directory empty, and a
/// store opened on it afterwards starts again from its initial value.
pub proof fn law_delete_then_open(image: Image, initial: u64)
    requires
        image.deletable(),
    ensures
        image.deleted() == Image::empty(),
        image.deleted().initialized(initial).reading() == Some(initial),
{
    law_open_on_empty(initial);
}

/// A second read in a row returns what the first returned and touches no file.
pub proof fn law_read_settles(image: Image)
    ensures
        image.reconciled().reading() == image.reading(),
        image.reconciled().reconciled() == image.reconciled(),
        image.reconciled().reconcile_steps() == Seq::<Step>::empty(),
{
}

/// The counter never goes back: after a read it is what it was, and after an
/// increment it is no less.
pub proof fn law_never_decreases(image: Image, delta: u64)
    requires
        image.reading() matches Some(value) && value + delta <= u64::MAX,
    ensures
        image.reconciled().reading() == image.reading(),
        image.incremented(delta).reading().unwrap() >= image.reading().unwrap(),
{
    law_increment_then_read(image, delta);
}

/// Performing one list of file operations and then another is performing
/// the two lists joined.
pub proof fn lemma_replay_joined(image: Image, first: Seq<Step>, second: Seq<Step>)
    ensures
        image.replayed(first + second) == image.replayed(first).replayed(second),
    decreases second.len(),
{
    if second.len() == 0 {
        assert(first + second =~= first);
    } else {
        lemma_replay_joined(image, first, second.drop_last());
        assert((first + second).drop_last() =~= first + second.drop_last());
    }
}

/// Performing a list of one file operation is performing that operation.
pub proof fn lemma_replay_one(image: Image, step: Step)
    ensures
        image.replayed(seq![step]) == image.applied(step),
{
    reveal_with_fuel(Image::replayed, 2);
    assert(seq![step].drop_last() =~= Seq::<Step>::empty());
}

/// Performing a list of two file operations is performing the first and then
/// the second.
pub proof fn lemma_replay_two(image: Image, first: Step, second: Step)
    ensures
        image.replayed(seq![first, second]) == image.applied(first).applied(second),
{
    lemma_replay_one(image, first);
    lemma_replay_one(image.applied(first), second);
    lemma_replay_joined(image, seq![first], seq![second]);
    assert(seq![first] + seq![second] =~= seq![first, second]);
}

/// The journal is faithful: the file operations that an operation of the
/// store records, performed in order on the directory it started from, give
/// the directory it ended with. This holds of a read, a write of `number`, an
/// increment by `number`, an opening with `number`, and a deletion.
pub proof fn law_journal_is_faithful(image: Image, number: u64)
    ensures
        image.replayed(image.reconcile_steps()) == image.reconciled(),
        image.replayed(image.store_steps(number)) == image.stored(number),
        image.replayed(image.increment_steps(number)) == image.incremented(number),
        image.replayed(image.initialize_steps(number)) == image.initialized(number),
        image.replayed(image.delete_steps()) == image.deleted(),
{
    let value = number;
    lemma_replay_two(image, Step::Warn, Step::Discard);
    lemma_replay_one(image, Step::Discard);
    lemma_replay_two(image, Step::Rotate, Step::Write(value));
    lemma_replay_two(image, Step::RemoveStable, Step::RemoveFresh);
    lemma_replay_one(image, Step::RemoveStable);
    if image.reading() is Some {
        let raised = (image.reading().unwrap() + value) as u64;
        let healed = image.reconciled();
        lemma_replay_two(healed, Step::Rotate, Step::Write(raised));
        lemma_replay_joined(image, image.reconcile_steps(), healed.store_steps(raised));
    }
}

/// Performing the first `done + 1` operations of a list is performing the
/// first `done` and then the next one.
pub proof fn lemma_replay_next(image: Image, steps: Seq<Step>, done: int)
    requires
        0 <= done < steps.len(),
    ensures
        image.replayed(steps.take(done + 1)) == image.replayed(steps.take(done)).applied(
            steps[done],
        ),
{
    assert(steps.take(done + 1).drop_last() =~= steps.take(done));
}

/// Crash safety: where an increment stops before the last of its file
/// operations, a read of the directory as it then stands returns the value
/// from before the increment; after the last it returns the raised value.
/// Nothing else is ever read.
pub proof fn law_interrupted_increment_recovers(image: Image, delta: u64, done: int)
    requires
        image.reading() matches Some(value) && value + delta <= u64::MAX,
        0 <= done <= image.increment_steps(delta).len(),
    ensures
        done < image.increment_steps(delta).len() ==> image.interrupted(delta, done).reading()
            == image.reading(),
        done == image.increment_steps(delta).len() ==> image.interrupted(delta, done)
            == image.incremented(delta),
        image.interrupted(delta, done).reading() is Some,
{
    let steps = image.increment_steps(delta);
    law_increment_then_read(image, delta);
    law_journal_is_faithful(image, delta);
    assert(steps.take(0) =~= Seq::<Step>::empty());
    assert(steps.take(steps.len() as int) =~= steps);
    if done >= 1 {
        lemma_replay_next(image, steps, 0);
    }
    if done >= 2 {
        lemma_replay_next(image, steps, 1);
    }
    if done >= 3 {
        lemma_replay_next(image, steps, 2);
    }
    if done >= 4 {
        lemma_replay_next(image, steps, 3);
    }
}

/// Crash safety of a read: where a read stops after any number of its file
/// operations, the next read still returns the same value.
pub proof fn law_interrupted_read_recovers(image: Image, done: int)
    requires
        0 <= done <= image.reconcile_steps().len(),
    ensures
        image.replayed(image.reconcile_steps().take(done)).reading() == image.reading(),
{
    let steps = image.reconcile_steps();
    assert(steps.take(0) =~= Seq::<Step>::empty());
    if done >= 1 {
        lemma_replay_next(image, steps, 0);
    }
    if done >= 2 {
        lemma_replay_next(image, steps, 1);
    }
}

/// Crash safety of the write itself: where an increment stops with its write
/// half done, so that the fresh slot's file holds fewer bytes than a value
/// takes, a read returns the value from before the increment.
pub proof fn law_cut_write_recovers(image: Image, delta: u64, written: int)
    requires
        image.reading() matches Some(value) && value + delta <= u64::MAX,
        0 <= written < SLOT_LEN,
    ensures
        image.cut_short(delta, written).reading() == image.reading(),
        image.cut_short(delta, written).reconciled().fresh is None,
{
    law_increment_then_read(image, delta);
}

} // verus!
