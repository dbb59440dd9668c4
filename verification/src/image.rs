//! The store directory as a mathematical value, and what each operation of
//! the store does to it.
//!
//! A store keeps its counter in two files with fixed names. The *fresh* slot
//! is the file that every write goes to. The *stable* slot is only ever
//! replaced by renaming the fresh file onto it, so it never holds a
//! half-written value. After a write the fresh slot holds the current value
//! and the stable slot, where it exists, the one before it.

use crate::codec::{decoded, encoded};
use vstd::prelude::*;

verus! {

/// One thing to do on behalf of the store: a file operation on its directory,
/// or a warning to pass on. The store decides them; whoever owns the directory
/// carries them out, in the order given.
#[derive(Clone, Copy, Debug, PartialEq, Eq)]
pub enum Step {
    /// Report that the fresh slot held a value that was not above the stable
    /// slot's. Touches no file.
    Warn,
    /// Remove the fresh slot's file. A failure to do so is ignored.
    Discard,
    /// Where the fresh slot's file exists, rename it onto the stable slot's
    /// path, replacing what is there; where it does not, do nothing. A failure
    /// of the renaming ends the operation.
    Rotate,
    /// Write the encoding of the value as the whole content of the fresh
    /// slot's file. A failure ends the operation.
    Write(u64),
    /// Remove the stable slot's file. A failure ends the operation.
    RemoveStable,
    /// Remove the fresh slot's file. A failure ends the operation.
    RemoveFresh,
}

/// What the two slot files hold: for each, its content, or none where the file
/// does not exist.
#[verifier::ext_equal]
pub struct Image {
    pub stable: Option<Seq<u8>>,
    pub fresh: Option<Seq<u8>>,
}

/// The value that a slot holds: what its content decodes to, and none where
/// the file is missing or too short for a value.
pub open spec fn slot_value(slot: Option<Seq<u8>>) -> Option<u64> {
    match slot {
        Some(content) => decoded(content),
        None => None,
    }
}

impl Image {
    /// A directory with neither slot file.
    pub open spec fn empty() -> Image {
        Image { stable: None, fresh: None }
    }

    /// The value in the stable slot, none where the file is missing or too short.
    pub open spec fn stable_value(self) -> Option<u64> {
        slot_value(self.stable)
    }

    /// The value in the fresh slot, none where the file is missing or too short.
    pub open spec fn fresh_value(self) -> Option<u64> {
        slot_value(self.fresh)
    }

    /// The counter's value as a read recovers it: the larger of the values that
    /// the two slots hold, the only one where one slot holds none, and none
    /// where neither holds one.
    pub open spec fn reading(self) -> Option<u64> {
        match (self.fresh_value(), self.stable_value()) {
            (Some(fresh), Some(stable)) => Some(if fresh > stable { fresh } else { stable }),
            (Some(fresh), None) => Some(fresh),
            (None, stable) => stable,
        }
    }

    /// Both slots hold a value and the fresh one is not above the stable one:
    /// no write of a larger value leaves the directory so.
    pub open spec fn stale(self) -> bool {
        self.fresh_value() matches Some(fresh) && self.stable_value() matches Some(stable) && fresh
            <= stable
    }

    /// The fresh slot's file exists and holds no value.
    pub open spec fn torn(self) -> bool {
        self.fresh is Some && self.fresh_value() is None
    }

    /// The state that a write of a larger value leaves and that a read keeps:
    /// the fresh slot holds a value, and the stable slot is missing or holds a
    /// smaller one.
    pub open spec fn sound(self) -> bool {
        &&& self.fresh_value() is Some
        &&& self.stable is Some ==> self.stable_value() is Some && self.stable_value().unwrap()
            < self.fresh_value().unwrap()
    }

    /// The content of the slot that a read takes the counter's value from: the
    /// fresh slot where a read keeps it, the stable slot otherwise.
    pub open spec fn trusted(self) -> Option<Seq<u8>> {
        if self.reconciled().fresh is Some {
            self.fresh
        } else {
            self.stable
        }
    }

    /// The directory after a read: a stale or torn fresh slot is gone, all else
    /// is as before.
    pub open spec fn reconciled(self) -> Image {
        if self.stale() || self.torn() {
            Image { stable: self.stable, fresh: None }
        } else {
            self
        }
    }

    /// The file operations of a read.
    pub open spec fn reconcile_steps(self) -> Seq<Step> {
        if self.stale() {
            seq![Step::Warn, Step::Discard]
        } else if self.torn() {
            seq![Step::Discard]
        } else {
            Seq::empty()
        }
    }

    /// The directory after a write of `value`: what the fresh slot held, if it
    /// existed, is now in the stable slot, and the fresh slot holds `value`.
    pub open spec fn stored(self, value: u64) -> Image {
        Image {
            stable: if self.fresh is Some { self.fresh } else { self.stable },
            fresh: Some(encoded(value)),
        }
    }

    /// The file operations of a write of `value`. They are the same on every
    /// directory: whether the rotation finds a file to move is seen when it
    /// is performed.
    pub open spec fn store_steps(self, value: u64) -> Seq<Step> {
        seq![Step::Rotate, Step::Write(value)]
    }

    /// The directory after an increment by `delta`: a read, and where it
    /// recovers a value, a write of that value plus `delta`.
    pub open spec fn incremented(self, delta: u64) -> Image {
        match self.reading() {
            Some(value) => self.reconciled().stored((value + delta) as u64),
            None => self.reconciled(),
        }
    }

    /// The file operations of an increment by `delta`.
    pub open spec fn increment_steps(self, delta: u64) -> Seq<Step> {
        match self.reading() {
            Some(value) => self.reconcile_steps() + self.reconciled().store_steps(
                (value + delta) as u64,
            ),
            None => self.reconcile_steps(),
        }
    }

    /// The directory after a store is opened on it with `initial`: written to
    /// where neither slot file exists, left alone otherwise.
    pub open spec fn initialized(self, initial: u64) -> Image {
        if self.stable is None && self.fresh is None {
            self.stored(initial)
        } else {
            self
        }
    }

    /// The file operations of opening a store with `initial`.
    pub open spec fn initialize_steps(self, initial: u64) -> Seq<Step> {
        if self.stable is None && self.fresh is None {
            self.store_steps(initial)
        } else {
            Seq::empty()
        }
    }

    /// Whether deleting the store succeeds: both slot files must exist.
    pub open spec fn deletable(self) -> bool {
        self.stable is Some && self.fresh is Some
    }

    /// The directory after deleting the store. The stable slot goes first;
    /// where it is missing the fresh slot is not touched.
    pub open spec fn deleted(self) -> Image {
        if self.stable is Some {
            Image::empty()
        } else {
            self
        }
    }

    /// The file operations of deleting the store, up to and including the
    /// first that fails.
    pub open spec fn delete_steps(self) -> Seq<Step> {
        if self.stable is Some {
            seq![Step::RemoveStable, Step::RemoveFresh]
        } else {
            seq![Step::RemoveStable]
        }
    }

    /// The directory after one file operation that went well. A rotation or
    /// a removal that finds no file leaves the directory as it is.
    pub open spec fn applied(self, step: Step) -> Image {
        match step {
            Step::Warn => self,
            Step::Discard | Step::RemoveFresh => Image { stable: self.stable, fresh: None },
            Step::Rotate => if self.fresh is Some {
                Image { stable: self.fresh, fresh: None }
            } else {
                self
            },
            Step::Write(value) => Image { stable: self.stable, fresh: Some(encoded(value)) },
            Step::RemoveStable => Image { stable: None, fresh: self.fresh },
        }
    }

    /// The directory after the file operations `steps`, first to last.
    pub open spec fn replayed(self, steps: Seq<Step>) -> Image
        decreases steps.len(),
    {
        if steps.len() == 0 {
            self
        } else {
            self.replayed(steps.drop_last()).applied(steps.last())
        }
    }

    /// The directory where an increment by `delta` stopped after the first
    /// `done` of its file operations.
    pub open spec fn interrupted(self, delta: u64, done: int) -> Image {
        self.replayed(self.increment_steps(delta).take(done))
    }

    /// The directory where an increment by `delta` stopped in the middle of
    /// its write, with only the first `written` bytes in the fresh slot's file.
    pub open spec fn cut_short(self, delta: u64, written: int) -> Image {
        Image {
            stable: self.incremented(delta).stable,
            fresh: Some(self.incremented(delta).fresh.unwrap().take(written)),
        }
    }

    /// The directory after increments by each of `deltas`, first to last.
    pub open spec fn incremented_by_all(self, deltas: Seq<u64>) -> Image
        decreases deltas.len(),
    {
        if deltas.len() == 0 {
            self
        } else {
            self.incremented_by_all(deltas.drop_last()).incremented(deltas.last())
        }
    }
}

/// The sum of `deltas`.
pub open spec fn total(deltas: Seq<u64>) -> nat
    decreases deltas.len(),
{
    if deltas.len() == 0 {
        0
    } else {
        total(deltas.drop_last()) + deltas.last() as nat
    }
}

} // verus!
