//! The store: the counter's operations, carried out on a copy of the directory
//! in memory.
//!
//! A [`FileSeq`] is made from what the two slot files hold. Each operation
//! changes that copy and appends to a journal the file operations that do the
//! same to the directory on disk. The caller takes the journal and performs it
//! in order; between two operations of one store nothing else may write to
//! the directory.

use crate::codec::{decode, encode, encoded};
use crate::image::{slot_value, Image, Step};
use crate::laws::law_increment_then_read;
use vstd::prelude::*;

verus! {

/// Why an operation of the store failed.
#[derive(Clone, Copy, Debug, PartialEq, Eq)]
pub enum SeqError {
    /// Neither slot holds a value: the counter cannot be recovered.
    Corrupted,
    /// A slot file that was to be removed does not exist.
    NotFound,
}

impl SeqError {
    /// The text that describes this error.
    pub open spec fn text(self) -> Seq<char> {
        match self {
            SeqError::Corrupted => "Looks like both backup and latest sequence files are corrupted."@,
            SeqError::NotFound => "A sequence file to remove does not exist."@,
        }
    }

    /// Describes the error in words.
    pub fn message(&self) -> (message: &'static str)
        ensures
            message@ == self.text(),
    {
        match self {
            SeqError::Corrupted => "Looks like both backup and latest sequence files are corrupted.",
            SeqError::NotFound => "A sequence file to remove does not exist.",
        }
    }
}

/// The name of the stable slot's file in the store directory.
pub const STABLE_FILE_NAME: &'static str = "_1.seq";

/// The name of the fresh slot's file in the store directory.
pub const FRESH_FILE_NAME: &'static str = "_2.seq";

/// The content of a slot file as a mathematical value.
pub open spec fn slot_view(slot: Option<Vec<u8>>) -> Option<Seq<u8>> {
    match slot {
        Some(content) => Some(content@),
        None => None,
    }
}

/// The directory whose slot files hold `stable` and `fresh`.
pub open spec fn image_of(stable: Option<Vec<u8>>, fresh: Option<Vec<u8>>) -> Image {
    Image { stable: slot_view(stable), fresh: slot_view(fresh) }
}

/// What a read returns on a directory: the value it recovers, or
/// [`SeqError::Corrupted`] where there is none.
pub open spec fn read_outcome(image: Image) -> Result<u64, SeqError> {
    match image.reading() {
        Some(value) => Ok(value),
        None => Err(SeqError::Corrupted),
    }
}

/// What an increment by `delta` that hands out the new value returns on a
/// directory: the recovered value plus `delta`, or [`SeqError::Corrupted`].
pub open spec fn raised_outcome(image: Image, delta: u64) -> Result<u64, SeqError> {
    match image.reading() {
        Some(value) => Ok((value + delta) as u64),
        None => Err(SeqError::Corrupted),
    }
}

/// What deleting a store returns on a directory.
pub open spec fn delete_outcome(image: Image) -> Result<(), SeqError> {
    if image.deletable() {
        Ok(())
    } else {
        Err(SeqError::NotFound)
    }
}

/// A counter kept in two slot files.
#[derive(Debug)]
pub struct FileSeq {
    stable: Option<Vec<u8>>,
    fresh: Option<Vec<u8>>,
    journal: Vec<Step>,
}

impl View for FileSeq {
    type V = Image;

    closed spec fn view(&self) -> Image {
        image_of(self.stable, self.fresh)
    }
}

impl FileSeq {
    /// The file operations decided since the journal was last taken, oldest first.
    pub closed spec fn journal(&self) -> Seq<Step> {
        self.journal@
    }

    /// Opens the store on a directory whose slot files hold `stable` and
    /// `fresh`. Where neither file exists the counter starts at
    /// `initial_value`; otherwise `initial_value` is ignored.
    pub fn new(stable: Option<Vec<u8>>, fresh: Option<Vec<u8>>, initial_value: u64) -> (seq:
        FileSeq)
        ensures
            seq@ == image_of(stable, fresh).initialized(initial_value),
            seq.journal() == image_of(stable, fresh).initialize_steps(initial_value),
    {
        let mut seq = FileSeq::from_slots(stable, fresh);
        seq.initialize_if_necessary(initial_value);
        seq
    }

    /// Takes up the store on a directory whose slot files hold `stable` and
    /// `fresh`, as it stands: nothing is written, whatever the files hold.
    pub fn from_slots(stable: Option<Vec<u8>>, fresh: Option<Vec<u8>>) -> (seq: FileSeq)
        ensures
            seq@ == image_of(stable, fresh),
            seq.journal() == Seq::<Step>::empty(),
    {
        FileSeq { stable, fresh, journal: Vec::new() }
    }

    fn initialize_if_necessary(&mut self, initial_value: u64)
        ensures
            final(self)@ == old(self)@.initialized(initial_value),
            final(self).journal() == old(self).journal() + old(self)@.initialize_steps(
                initial_value,
            ),
    {
        if self.stable.is_none() && self.fresh.is_none() {
            self.write(initial_value);
        }
    }

    /// Removes both slot files, the stable one first. Fails at the first that
    /// does not exist.
    pub fn delete(&mut self) -> (result: Result<(), SeqError>)
        ensures
            result == delete_outcome(old(self)@),
            final(self)@ == old(self)@.deleted(),
            final(self).journal() == old(self).journal() + old(self)@.delete_steps(),
    {
        self.journal.push(Step::RemoveStable);
        if self.stable.is_none() {
            return Err(SeqError::NotFound);
        }
        self.stable = None;
        self.journal.push(Step::RemoveFresh);
        if self.fresh.is_none() {
            return Err(SeqError::NotFound);
        }
        self.fresh = None;
        Ok(())
    }

    /// Whether the counter can be raised by `increment` without passing the
    /// largest 64-bit number. True also where the counter cannot be read, as
    /// an increment then adds nothing.
    pub fn has_room(&self, increment: u64) -> (room: bool)
        ensures
            room == (self@.reading() matches Some(value) ==> value + increment <= u64::MAX),
    {
        let stable_value = Self::read_from_slot(&self.stable);
        let fresh_value = Self::read_from_slot(&self.fresh);
        match (fresh_value, stable_value) {
            (Some(fresh), Some(stable)) => increment <= u64::MAX - fresh && increment <= u64::MAX
                - stable,
            (Some(fresh), None) => increment <= u64::MAX - fresh,
            (None, Some(stable)) => increment <= u64::MAX - stable,
            (None, None) => true,
        }
    }

    /// Returns the counter's value and then raises it by `increment`. The
    /// raised value must fit in 64 bits, which [`FileSeq::has_room`] tells.
    /// Where the counter cannot be read nothing is written.
    pub fn get_and_increment(&mut self, increment: u64) -> (result: Result<u64, SeqError>)
        requires
            old(self)@.reading() matches Some(value) ==> value + increment <= u64::MAX,
        ensures
            result == read_outcome(old(self)@),
            read_outcome(final(self)@) == raised_outcome(old(self)@, increment),
            final(self)@ == old(self)@.incremented(increment),
            final(self).journal() == old(self).journal() + old(self)@.increment_steps(increment),
    {
        let value = self.read()?;
        self.write(value + increment);
        proof {
            law_increment_then_read(old(self)@, increment);
        }
        Ok(value)
    }

    /// Raises the counter by `increment` and returns its new value, which must
    /// fit in 64 bits. The directory is read once and written once, and the
    /// value returned is the one a read would find next.
    pub fn increment_and_get(&mut self, increment: u64) -> (result: Result<u64, SeqError>)
        requires
            old(self)@.reading() matches Some(value) ==> value + increment <= u64::MAX,
        ensures
            result == raised_outcome(old(self)@, increment),
            result == read_outcome(final(self)@),
            final(self)@ == old(self)@.incremented(increment),
            final(self).journal() == old(self).journal() + old(self)@.increment_steps(increment),
    {
        let value = self.get_and_increment(increment)?;
        Ok(value + increment)
    }

    /// Returns the counter's value. A fresh slot that holds no value, or one
    /// not above the stable slot's, is removed on the way.
    pub fn value(&mut self) -> (result: Result<u64, SeqError>)
        ensures
            result == read_outcome(old(self)@),
            final(self)@ == old(self)@.reconciled(),
            final(self).journal() == old(self).journal() + old(self)@.reconcile_steps(),
    {
        self.read()
    }

    /// What the stable slot's file holds, none where it does not exist.
    pub fn stable(&self) -> (slot: &Option<Vec<u8>>)
        ensures
            slot_view(*slot) == self@.stable,
    {
        &self.stable
    }

    /// What the fresh slot's file holds, none where it does not exist.
    pub fn fresh(&self) -> (slot: &Option<Vec<u8>>)
        ensures
            slot_view(*slot) == self@.fresh,
    {
        &self.fresh
    }

    /// Hands out the journal and starts an empty one. The file operations are
    /// to be performed first to last.
    pub fn take_journal(&mut self) -> (steps: Vec<Step>)
        ensures
            steps@ == old(self).journal(),
            final(self).journal() == Seq::<Step>::empty(),
            final(self)@ == old(self)@,
    {
        let mut steps = Vec::new();
        std::mem::swap(&mut self.journal, &mut steps);
        steps
    }

    fn read(&mut self) -> (result: Result<u64, SeqError>)
        ensures
            result == read_outcome(old(self)@),
            final(self)@ == old(self)@.reconciled(),
            final(self).journal() == old(self).journal() + old(self)@.reconcile_steps(),
    {
        let stable_value = Self::read_from_slot(&self.stable);
        let fresh_value = Self::read_from_slot(&self.fresh);
        match fresh_value {
            Some(fresh) => match stable_value {
                Some(stable) => {
                    if fresh > stable {
                        Ok(fresh)
                    } else {
                        self.journal.push(Step::Warn);
                        self.fresh = None;
                        self.journal.push(Step::Discard);
                        Ok(stable)
                    }
                },
                None => Ok(fresh),
            },
            None => {
                if self.fresh.is_some() {
                    self.fresh = None;
                    self.journal.push(Step::Discard);
                }
                match stable_value {
                    Some(stable) => Ok(stable),
                    None => Err(SeqError::Corrupted),
                }
            },
        }
    }

    fn read_from_slot(slot: &Option<Vec<u8>>) -> (value: Option<u64>)
        ensures
            value == slot_value(slot_view(*slot)),
    {
        match slot {
            Some(content) => decode(content.as_slice()),
            None => None,
        }
    }

    fn write(&mut self, value: u64)
        ensures
            final(self)@ == old(self)@.stored(value),
            final(self).journal() == old(self).journal() + old(self)@.store_steps(value),
    {
        self.journal.push(Step::Rotate);
        if self.fresh.is_some() {
            self.stable = self.fresh.take();
        }
        self.fresh = Some(Self::slot_content(value));
        self.journal.push(Step::Write(value));
    }

    fn slot_content(value: u64) -> (content: Vec<u8>)
        ensures
            content@ == encoded(value),
    {
        let bytes = encode(value);
        let mut content = Vec::new();
        let mut at: usize = 0;
        while at < 8
            invariant
                at <= 8,
                content@ == bytes@.take(at as int),
            decreases 8 - at,
        {
            content.push(bytes[at]);
            assert(bytes@.take(at + 1) =~= bytes@.take(at as int).push(bytes@[at as int]));
            at += 1;
        }
        assert(bytes@.take(8) =~= bytes@);
        content
    }
}

} // verus!
