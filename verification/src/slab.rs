//! Stores values handed to the foreign side and uses handles to manage them.
//!
//! A `Slab` stores values and hands out `Handle`s (plain 48-bit integers) that the foreign
//! side passes back to get a clone of the value or to remove it.
//!
//! Handles carry enough metadata to detect misuse:
//! * a generation counter, so that a handle used after its value was removed is detected
//!   (until the entry has been re-used 256 times);
//! * a slab id, so that a handle used with the wrong slab is usually detected;
//! * a bit that tells foreign-allocated handles from Rust-allocated ones.
//!
//! Each entry carries a small lock word.  The upper bits hold the entry's handle metadata and
//! the lower 32 bits hold a reader count and a write-lock bit; a reader that meets a writer, or a
//! writer that meets anyone, reports a use-after-free instead of touching the entry.
//!
//! The slab here takes `&mut self` for every operation, which makes every lock acquisition
//! uncontended: the lock word protocol is still checked and kept, and the free list is a plain
//! singly linked list through the vacant entries.

use vstd::prelude::*;
use crate::text::{decimal, push_decimal};

verus! {

// 4 billion entries seems like plenty.  Special values start at 4,000,000,000, which makes them
// easy to recognize when printed out.
pub const MAX_ENTRIES: u64 = 4_000_000_000;
pub const END_OF_LIST: u64 = 0xFFFF_FFFF;
// Bit masks that isolate one part of a handle.
pub const INDEX_MASK: u64 = 0x0000_FFFF_FFFF;
pub const HANDLE_MASK: u64 = 0xFFFF_FFFF_FFFF;
pub const HANDLE_METADATA_MASK: u64 = 0xFFFF_0000_0000;
pub const SLAB_ID_MASK: u64 = 0x00FF_0000_0000;
pub const SLAB_ID_UNIT: u64 = 0x0002_0000_0000;
pub const FOREIGN_BIT: u64 = 0x0001_0000_0000;
pub const GENERATION_MASK: u64 = 0xFF00_0000_0000;
pub const GENERATION_UNIT: u64 = 0x0100_0000_0000;
/// Write-lock bit of an entry's lock word.
pub const WRITE_LOCK_BIT: u64 = 0x8000_0000;
/// Everything of an entry's lock word but its write-lock bit.
pub const NOT_WRITE_LOCK_BIT: u64 = 0xFFFF_FFFF_7FFF_FFFF;
/// The slab id, the foreign bit and the index of a handle: everything but its generation.
pub const NON_GENERATION_MASK: u64 = 0x00FF_FFFF_FFFF;
// Masks of the free-list head word: the index of the first vacant entry, and a counter that
// changes with every update.
pub const NEXT_INDEX_MASK: u64 = 0x0000_FFFF_FFFF;
pub const NEXT_GENERATION_MASK: u64 = 0xFFFF_FFFF_0000_0000;
pub const NEXT_GENERATION_UNIT: u64 = 0x0000_0001_0000_0000;

/// Slab error type
#[derive(Debug, PartialEq, Eq)]
pub enum Error {
    SlabIdMismatch,
    ForeignHandle,
    UseAfterFree(&'static str),
    OverCapacity,
    Vacant,
    Occupied,
    Other(String),
}

pub type Result<T> = std::result::Result<T, Error>;

impl Error {
    /// The message that displaying the error shows.
    pub fn to_string(&self) -> (s: String)
        ensures
            s@ == error_message(*self),
    {
        proof {
            reveal_strlit("Use-after-free detected (");
            reveal_strlit(")");
            reveal_strlit("Slab id mismatch");
            reveal_strlit("Handle belongs to a foreign slab");
            reveal_strlit("Slab capacity exceeded");
            reveal_strlit("Entry unexpectedly vacant");
            reveal_strlit("Entry unexpectedly occupied");
            reveal_strlit("Slab internal error: ");
        }
        match self {
            Error::UseAfterFree(msg) => {
                let mut s = String::from_str("Use-after-free detected (");
                s.append(msg);
                s.append(")");
                s
            },
            Error::SlabIdMismatch => String::from_str("Slab id mismatch"),
            Error::ForeignHandle => String::from_str("Handle belongs to a foreign slab"),
            Error::OverCapacity => String::from_str("Slab capacity exceeded"),
            Error::Vacant => String::from_str("Entry unexpectedly vacant"),
            Error::Occupied => String::from_str("Entry unexpectedly occupied"),
            Error::Other(msg) => {
                let mut s = String::from_str("Slab internal error: ");
                s.append(msg.as_str());
                s
            },
        }
    }
}

/// What each error says when displayed.
pub open spec fn error_message(e: Error) -> Seq<char> {
    match e {
        Error::UseAfterFree(msg) => "Use-after-free detected ("@ + msg@ + ")"@,
        Error::SlabIdMismatch => "Slab id mismatch"@,
        Error::ForeignHandle => "Handle belongs to a foreign slab"@,
        Error::OverCapacity => "Slab capacity exceeded"@,
        Error::Vacant => "Entry unexpectedly vacant"@,
        Error::Occupied => "Entry unexpectedly occupied"@,
        Error::Other(msg) => "Slab internal error: "@ + msg@,
    }
}

/// Handle for a value stored in the slab
///
/// * The lowest 32 bits identify the value.
///   - The first 4,000,000,000 values are indexes in the entries table.
///   - The next values are reserved for special cases.
/// * The next 8 bits are the slab id:
///   - The first of them is 0 for handles that came from Rust (the foreign bit).
///   - The next 7 bits are the slab's id.
/// * The next 8 bits are a generation counter.
/// * The top 16 bits are always unset, so that languages without full 64-bit integers can hold
///   handles.
#[derive(Clone, Copy, Debug, Default, PartialEq, Eq, Hash)]
pub struct Handle(u64);

impl View for Handle {
    type V = u64;

    closed spec fn view(&self) -> u64 {
        self.0
    }
}

/// The entry index of a raw handle.
pub open spec fn index_of(raw: u64) -> u64 {
    raw & INDEX_MASK
}

/// Whether a raw handle came from a foreign slab.
pub open spec fn is_foreign_raw(raw: u64) -> bool {
    raw & FOREIGN_BIT != 0
}

impl Handle {
    /// Creates a handle from its metadata bits (slab id and generation) and an entry index.
    ///
    /// The metadata should only have bits 32..48 set, and the index should fit in 32 bits.
    pub fn new(metadata: u64, index: usize) -> (h: Handle)
        ensures
            h@ == metadata | (index as u64),
    {
        Handle(metadata | index as u64)
    }

    pub fn from_raw(val: u64) -> (h: Handle)
        ensures
            h@ == val,
    {
        Handle(val)
    }

    pub fn as_raw(&self) -> (r: u64)
        ensures
            r == self@,
    {
        self.0
    }

    pub fn index(&self) -> (i: usize)
        ensures
            i as u64 == index_of(self@),
    {
        let full: u64 = self.0;
        let raw: u64 = full & INDEX_MASK;
        assert(raw <= 0xFFFF_FFFF) by (bit_vector)
            requires
                raw == full & 0x0000_FFFF_FFFFu64,
        ;
        raw as usize
    }

    pub fn is_from_rust(&self) -> (b: bool)
        ensures
            b == !is_foreign_raw(self@),
    {
        (self.0 & FOREIGN_BIT) == 0
    }

    pub fn is_foreign(&self) -> (b: bool)
        ensures
            b == is_foreign_raw(self@),
    {
        (self.0 & FOREIGN_BIT) != 0
    }
}

/// Entry in the slab table.
///
/// Vacant entries form a linked list: each holds the index of the next vacant entry, or
/// `END_OF_LIST`.
pub enum Entry<T> {
    Vacant { next: u64 },
    Occupied { value: T },
}

/// What an entry and its lock word hold.
pub struct EntryView<T> {
    pub state: u64,
    pub entry: Entry<T>,
}

/// Slab entry with its lock word.
///
/// The upper 32 bits of the lock word match the upper 32 bits of the handle for this entry
/// (the generation counter and the slab id).  The lower 31 bits count readers and bit 31 is the
/// write lock.
pub struct LockedEntry<T: Clone> {
    state: u64,
    entry: Entry<T>,
}

impl<T: Clone> View for LockedEntry<T> {
    type V = EntryView<T>;

    closed spec fn view(&self) -> EntryView<T> {
        EntryView { state: self.state, entry: self.entry }
    }
}

/// The lock word after the entry's generation counter moved on by one: bits 40..48 count up
/// modulo 256, bits above 48 and the write-lock bit are cleared, the rest is kept.
pub open spec fn bumped_state(s: u64) -> u64 {
    (s & 0x00FF_7FFF_FFFFu64) | (((((s >> 40u64) & 0xFFu64) + 1) % 256) as u64) << 40u64
}

/// Whether a handle's metadata agrees with an entry's lock word.
pub open spec fn metadata_matches(raw: u64, state: u64) -> bool {
    raw & HANDLE_METADATA_MASK == state & HANDLE_METADATA_MASK
}

/// The message of the error that reports a mismatch that no other error explains.
pub open spec fn undetected_mismatch_message(state: u64, raw: u64) -> Seq<char> {
    "handle/state mismatch, but we failed to detect it: "@ + decimal(state as nat) + ", "@
        + decimal(raw as nat)
}

/// The error that reports a handle whose metadata does not agree with an entry's lock word.
pub open spec fn mismatch_error(raw: u64, state: u64, e: Error) -> bool {
    if raw & FOREIGN_BIT != 0 {
        e == Error::ForeignHandle
    } else if raw & SLAB_ID_MASK != state & SLAB_ID_MASK {
        e == Error::SlabIdMismatch
    } else if raw & GENERATION_MASK != state & GENERATION_MASK {
        e == Error::UseAfterFree("generation mismatch")
    } else {
        e matches Error::Other(msg) && msg@ == undetected_mismatch_message(state, raw)
    }
}

/// What checking a handle against an entry's lock word gives.
pub open spec fn handle_check(raw: u64, state: u64, r: Result<()>) -> bool {
    if metadata_matches(raw, state) {
        r is Ok
    } else {
        r matches Err(e) && mismatch_error(raw, state, e)
    }
}

/// The error that a writer meets on a locked entry.
pub open spec fn write_lock_error(state: u64) -> Error {
    if write_locked(state) {
        Error::UseAfterFree("entry write locked while trying to write")
    } else {
        Error::UseAfterFree("entry read locked while trying to write")
    }
}

/// The error that a reader meets on a write-locked entry.
pub open spec fn read_lock_error() -> Error {
    Error::UseAfterFree("entry write locked while trying to read")
}

/// Whether a lock word shows a writer.
pub open spec fn write_locked(state: u64) -> bool {
    state & WRITE_LOCK_BIT != 0
}

/// Whether a lock word shows a reader or a writer.
pub open spec fn locked(state: u64) -> bool {
    state & INDEX_MASK != 0
}

impl<T: Clone> LockedEntry<T> {
    /// Make a new, occupied entry
    pub fn new(slab_id: u64, value: T) -> (e: Self)
        ensures
            e@.state == slab_id,
            e@.entry == (Entry::Occupied { value }),
    {
        LockedEntry { state: slab_id, entry: Entry::Occupied { value } }
    }

    /// Take the read lock: count one more reader, unless a writer holds the entry.
    ///
    /// Returns the lock word from before the call.
    pub fn read_lock(&mut self) -> (r: Result<u64>)
        ensures
            final(self)@.entry == old(self)@.entry,
            write_locked(old(self)@.state) ==> r == Err::<u64, Error>(
                Error::UseAfterFree("entry write locked while trying to read"),
            ) && final(self)@.state == old(self)@.state,
            !write_locked(old(self)@.state) ==> r == Ok::<u64, Error>(old(self)@.state)
                && final(self)@.state == vstd::wrapping::u64_specs::wrapping_add(
                old(self)@.state,
                1,
            ),
    {
        let old_state = self.state;
        self.state = old_state.wrapping_add(1);
        if (old_state & WRITE_LOCK_BIT) != 0 {
            self.state = self.state.wrapping_sub(1);
            return Err(Error::UseAfterFree("entry write locked while trying to read"));
        }
        Ok(old_state)
    }

    /// Give back the read lock.
    pub fn read_unlock(&mut self)
        ensures
            final(self)@.entry == old(self)@.entry,
            final(self)@.state == vstd::wrapping::u64_specs::wrapping_sub(old(self)@.state, 1),
    {
        self.state = self.state.wrapping_sub(1);
    }

    /// Take the write lock, unless a reader or a writer holds the entry.
    ///
    /// Returns the lock word from before the call.
    pub fn write_lock(&mut self) -> (r: Result<u64>)
        ensures
            final(self)@.entry == old(self)@.entry,
            locked(old(self)@.state) && write_locked(old(self)@.state) ==> r == Err::<
                u64,
                Error,
            >(Error::UseAfterFree("entry write locked while trying to write")),
            locked(old(self)@.state) && !write_locked(old(self)@.state) ==> r == Err::<
                u64,
                Error,
            >(Error::UseAfterFree("entry read locked while trying to write")),
            locked(old(self)@.state) ==> final(self)@.state == old(self)@.state,
            !locked(old(self)@.state) ==> r == Ok::<u64, Error>(old(self)@.state)
                && final(self)@.state == old(self)@.state | WRITE_LOCK_BIT,
    {
        let old_state = self.state;
        self.state = old_state | WRITE_LOCK_BIT;
        if (old_state & INDEX_MASK) != 0 {
            if (old_state & WRITE_LOCK_BIT) != 0 {
                assert((old_state | 0x8000_0000u64) == old_state) by (bit_vector)
                    requires
                        old_state & 0x8000_0000u64 != 0,
                ;
                return Err(Error::UseAfterFree("entry write locked while trying to write"));
            } else {
                // We were the one that set the write lock bit, so we need to unset it
                self.state = self.state & NOT_WRITE_LOCK_BIT;
                assert(((old_state | 0x8000_0000u64) & 0xFFFF_FFFF_7FFF_FFFFu64) == old_state)
                    by (bit_vector)
                    requires
                        old_state & 0x8000_0000u64 == 0,
                ;
                return Err(Error::UseAfterFree("entry read locked while trying to write"));
            }
        }
        Ok(old_state)
    }

    /// Give back the write lock.
    pub fn write_unlock(&mut self)
        ensures
            final(self)@.entry == old(self)@.entry,
            final(self)@.state == old(self)@.state & NOT_WRITE_LOCK_BIT,
    {
        self.state = self.state & NOT_WRITE_LOCK_BIT;
    }

    /// Checks a handle's metadata against a lock word.
    pub fn check_handle_against_state(&self, handle: Handle, state: u64) -> (r: Result<()>)
        ensures
            handle_check(handle@, state, r),
    {
        let raw_handle = handle.as_raw();
        if raw_handle & HANDLE_METADATA_MASK != state & HANDLE_METADATA_MASK {
            if raw_handle & FOREIGN_BIT != 0 {
                Err(Error::ForeignHandle)
            } else if raw_handle & SLAB_ID_MASK != state & SLAB_ID_MASK {
                Err(Error::SlabIdMismatch)
            } else if raw_handle & GENERATION_MASK != state & GENERATION_MASK {
                Err(Error::UseAfterFree("generation mismatch"))
            } else {
                proof {
                    reveal_strlit("handle/state mismatch, but we failed to detect it: ");
                    reveal_strlit(", ");
                }
                let mut msg = String::from_str(
                    "handle/state mismatch, but we failed to detect it: ",
                );
                push_decimal(&mut msg, state);
                msg.append(", ");
                push_decimal(&mut msg, raw_handle);
                Err(Error::Other(msg))
            }
        } else {
            Ok(())
        }
    }
}

impl<T: Clone> LockedEntry<T> {
    /// Get the next value from a vacant entry
    pub fn get_next(&mut self) -> (r: Result<u64>)
        ensures
            final(self)@ == old(self)@,
            write_locked(old(self)@.state) ==> r == Err::<u64, Error>(read_lock_error()),
            !write_locked(old(self)@.state) ==> r == match old(self)@.entry {
                Entry::Vacant { next } => Ok::<u64, Error>(next),
                Entry::Occupied { .. } => Err(Error::Vacant),
            },
    {
        let _ = self.read_lock()?;
        let r = match &self.entry {
            Entry::Vacant { next } => Ok(*next),
            Entry::Occupied { .. } => Err(Error::Vacant),
        };
        self.read_unlock();
        r
    }

    /// Set the next value of a vacant entry
    pub fn set_next(&mut self, new_next: u64) -> (r: Result<()>)
        ensures
            final(self)@.state == old(self)@.state,
            locked(old(self)@.state) ==> r == Err::<(), Error>(write_lock_error(old(self)@.state))
                && final(self)@.entry == old(self)@.entry,
            !locked(old(self)@.state) ==> match old(self)@.entry {
                Entry::Vacant { .. } => r is Ok && final(self)@.entry == (Entry::<T>::Vacant {
                    next: new_next,
                }),
                Entry::Occupied { .. } => r == Err::<(), Error>(Error::Vacant) && final(self)@.entry
                    == old(self)@.entry,
            },
    {
        let s = self.write_lock()?;
        let r = match &mut self.entry {
            Entry::Vacant { next } => {
                *next = new_next;
                Ok(())
            },
            Entry::Occupied { .. } => Err(Error::Vacant),
        };
        self.write_unlock();
        assert((((s | 0x8000_0000u64) & 0xFFFF_FFFF_7FFF_FFFFu64) == s)) by (bit_vector)
            requires
                s & 0x0000_FFFF_FFFFu64 == 0,
        ;
        r
    }

    /// Get a cloned value from an occupied entry.
    pub fn get_clone(&mut self, handle: Handle) -> (r: Result<T>)
        ensures
            final(self)@ == old(self)@,
            write_locked(old(self)@.state) ==> r == Err::<T, Error>(read_lock_error()),
            !write_locked(old(self)@.state) && !metadata_matches(handle@, old(self)@.state) ==> (
            r matches Err(e) && mismatch_error(handle@, old(self)@.state, e)),
            !write_locked(old(self)@.state) && metadata_matches(handle@, old(self)@.state) ==> match old(
                self,
            )@.entry {
                Entry::Vacant { .. } => r == Err::<T, Error>(Error::UseAfterFree("vacant entry")),
                Entry::Occupied { value } => r matches Ok(v) && cloned(value, v),
            },
    {
        let state = self.read_lock()?;
        let r = match self.check_handle_against_state(handle, state) {
            Err(e) => Err(e),
            Ok(()) => match &self.entry {
                Entry::Vacant { .. } => Err(Error::UseAfterFree("vacant entry")),
                Entry::Occupied { value } => Ok(value.clone()),
            },
        };
        self.read_unlock();
        r
    }

    /// Insert a value into a vacant entry, transitioning it to occupied.
    ///
    /// Returns the handle metadata bits (the slab ID, and generation counter)
    pub fn insert(&mut self, value: T) -> (r: Result<u64>)
        ensures
            locked(old(self)@.state) ==> r == Err::<u64, Error>(write_lock_error(old(self)@.state))
                && final(self)@ == old(self)@,
            !locked(old(self)@.state) ==> match old(self)@.entry {
                Entry::Occupied { .. } => r == Err::<u64, Error>(Error::Occupied) && final(self)@
                    == old(self)@,
                Entry::Vacant { .. } => r == Ok::<u64, Error>(
                    bumped_state(old(self)@.state) & HANDLE_METADATA_MASK,
                ) && final(self)@.state == bumped_state(old(self)@.state) && final(self)@.entry == (
                Entry::Occupied { value }),
            },
    {
        let s = self.write_lock()?;
        assert((((s | 0x8000_0000u64) & 0xFFFF_FFFF_7FFF_FFFFu64) == s)) by (bit_vector)
            requires
                s & 0x0000_FFFF_FFFFu64 == 0,
        ;
        if let Entry::Occupied { .. } = self.entry {
            self.write_unlock();
            return Err(Error::Occupied);
        }
        self.entry = Entry::Occupied { value };
        // increment the generation counter portion of the lock word
        let x: u64 = self.state;
        let y: u64 = x.wrapping_add(GENERATION_UNIT);
        self.state = y;
        self.state = self.state & HANDLE_MASK;
        let meta: u64 = self.state & HANDLE_METADATA_MASK;
        self.write_unlock();
        proof {
            lemma_bump(s, x, y);
        }
        Ok(meta)
    }

    /// Take the value of an entry, transitioning it from occupied to vacant
    ///
    /// Sets the `next` value to `END_OF_LIST`.  Use `set_next` to update this.
    pub fn take(&mut self, handle: Handle) -> (r: Result<T>)
        ensures
            final(self)@.state == old(self)@.state,
            locked(old(self)@.state) ==> r == Err::<T, Error>(write_lock_error(old(self)@.state))
                && final(self)@ == old(self)@,
            !locked(old(self)@.state) && !metadata_matches(handle@, old(self)@.state) ==> (
            r matches Err(e) && mismatch_error(handle@, old(self)@.state, e)) && final(self)@
                == old(self)@,
            !locked(old(self)@.state) && metadata_matches(handle@, old(self)@.state) ==> match old(
                self,
            )@.entry {
                Entry::Vacant { .. } => r == Err::<T, Error>(Error::UseAfterFree("vacant entry"))
                    && final(self)@ == old(self)@,
                Entry::Occupied { value } => r == Ok::<T, Error>(value) && final(self)@.entry == (
                Entry::<T>::Vacant { next: END_OF_LIST }),
            },
    {
        let state = self.write_lock()?;
        assert((((state | 0x8000_0000u64) & 0xFFFF_FFFF_7FFF_FFFFu64) == state)) by (bit_vector)
            requires
                state & 0x0000_FFFF_FFFFu64 == 0,
        ;
        if let Err(e) = self.check_handle_against_state(handle, state) {
            self.write_unlock();
            return Err(e);
        }
        let mut entry = Entry::Vacant { next: END_OF_LIST };
        std::mem::swap(&mut self.entry, &mut entry);
        let r = match entry {
            Entry::Occupied { value } => Ok(value),
            Entry::Vacant { next } => {
                self.entry = Entry::Vacant { next };
                Err(Error::UseAfterFree("vacant entry"))
            },
        };
        self.write_unlock();
        r
    }
}

/// Adding one generation to a write-locked lock word, keeping 48 bits and releasing the write
/// lock moves the generation on by one.
proof fn lemma_bump(s: u64, x: u64, y: u64)
    requires
        s & INDEX_MASK == 0,
        x == s | WRITE_LOCK_BIT,
        y == vstd::wrapping::u64_specs::wrapping_add(x, GENERATION_UNIT),
    ensures
        (y & HANDLE_MASK) & NOT_WRITE_LOCK_BIT == bumped_state(s),
        (y & HANDLE_MASK) & HANDLE_METADATA_MASK == bumped_state(s) & HANDLE_METADATA_MASK,
{
    if x + GENERATION_UNIT > u64::MAX {
        assert(y == x + 0x0100_0000_0000u64 - 0x1_0000_0000_0000_0000);
        assert((y & 0xFFFF_FFFF_FFFFu64) & 0xFFFF_FFFF_7FFF_FFFFu64 == (s & 0x00FF_7FFF_FFFFu64) | (
        ((((s >> 40u64) & 0xFFu64) + 1) % 256) as u64) << 40u64
            && (y & 0xFFFF_FFFF_FFFFu64) & 0xFFFF_0000_0000u64 == ((s & 0x00FF_7FFF_FFFFu64) | (
        ((((s >> 40u64) & 0xFFu64) + 1) % 256) as u64) << 40u64) & 0xFFFF_0000_0000u64)
            by (bit_vector)
            requires
                x == s | 0x8000_0000u64,
                y == x + 0x0100_0000_0000u64 - 0x1_0000_0000_0000_0000,
        ;
    } else {
        assert(y == x + 0x0100_0000_0000u64);
        assert((y & 0xFFFF_FFFF_FFFFu64) & 0xFFFF_FFFF_7FFF_FFFFu64 == (s & 0x00FF_7FFF_FFFFu64) | (
        ((((s >> 40u64) & 0xFFu64) + 1) % 256) as u64) << 40u64
            && (y & 0xFFFF_FFFF_FFFFu64) & 0xFFFF_0000_0000u64 == ((s & 0x00FF_7FFF_FFFFu64) | (
        ((((s >> 40u64) & 0xFFu64) + 1) % 256) as u64) << 40u64) & 0xFFFF_0000_0000u64)
            by (bit_vector)
            requires
                x == s | 0x8000_0000u64,
                y == x + 0x0100_0000_0000u64,
        ;
    }
}

/// Index of the first vacant entry of a slab's free list, with a counter.
///
/// The bottom 32 bits are the index of the entry.  The top 32 bits are a counter that changes
/// with every update, so that a stale token from `get()` cannot update the list (the ABA
/// problem).
pub struct Next(u64);

impl View for Next {
    type V = u64;

    closed spec fn view(&self) -> u64 {
        self.0
    }
}

/// The word that `Next::try_update` stores: a counter one past the token's, and the new index.
pub open spec fn next_word(token: u64, index: u64) -> u64 {
    vstd::wrapping::u64_specs::wrapping_add(token & NEXT_GENERATION_MASK, NEXT_GENERATION_UNIT)
        | index
}

impl Next {
    pub fn new_eol() -> (n: Next)
        ensures
            n@ == END_OF_LIST,
    {
        Next(END_OF_LIST)
    }

    /// Get the current index and a token to pass to `try_update()`
    pub fn get(&self) -> (r: (usize, u64))
        ensures
            r.0 as u64 == self@ & NEXT_INDEX_MASK,
            r.1 == self@,
    {
        let value: u64 = self.0;
        let index: u64 = value & NEXT_INDEX_MASK;
        assert(index <= 0xFFFF_FFFF) by (bit_vector)
            requires
                index == value & 0x0000_FFFF_FFFFu64,
        ;
        (index as usize, value)
    }

    /// Try to update the index
    ///
    /// This only works if the value has not changed since the call to `get()` that returned
    /// `token_from_get`.  Returns true if the update was made.
    pub fn try_update(&mut self, index: usize, token_from_get: u64) -> (updated: bool)
        ensures
            updated == (old(self)@ == token_from_get),
            updated ==> final(self)@ == next_word(token_from_get, index as u64),
            !updated ==> final(self)@ == old(self)@,
    {
        let new_value = (token_from_get & NEXT_GENERATION_MASK).wrapping_add(NEXT_GENERATION_UNIT)
            | index as u64;
        if self.0 == token_from_get {
            self.0 = new_value;
            true
        } else {
            false
        }
    }
}

/// The index part of an updated free-list word is the index that was stored.
pub proof fn lemma_next_word_index(token: u64, index: u64)
    requires
        index <= NEXT_INDEX_MASK,
    ensures
        next_word(token, index) & NEXT_INDEX_MASK == index,
{
    let a: u64 = token & NEXT_GENERATION_MASK;
    let w: u64 = vstd::wrapping::u64_specs::wrapping_add(a, NEXT_GENERATION_UNIT);
    if a + NEXT_GENERATION_UNIT > u64::MAX {
        assert((w | index) & 0x0000_FFFF_FFFFu64 == index) by (bit_vector)
            requires
                a == token & 0xFFFF_FFFF_0000_0000u64,
                w == a + 0x0000_0001_0000_0000u64 - 0x1_0000_0000_0000_0000,
                index <= 0x0000_FFFF_FFFFu64,
        ;
    } else {
        assert((w | index) & 0x0000_FFFF_FFFFu64 == index) by (bit_vector)
            requires
                a == token & 0xFFFF_FFFF_0000_0000u64,
                w == a + 0x0000_0001_0000_0000u64,
                index <= 0x0000_FFFF_FFFFu64,
        ;
    }
}

/// What a slab holds: its id, its entries with their lock words, and its free list (the
/// indexes of the vacant entries, in the order in which `insert` re-uses them).
#[verifier::ext_equal]
pub struct SlabView<T> {
    pub id: u64,
    pub entries: Seq<EntryView<T>>,
    pub free: Seq<int>,
}

/// The first vacant entry, or `END_OF_LIST` where there is none.
pub open spec fn free_head<T>(v: SlabView<T>) -> u64 {
    if v.free.len() == 0 {
        END_OF_LIST
    } else {
        v.free[0] as u64
    }
}

/// What the vacant entry at position `k` of the free list points at.
pub open spec fn free_link(free: Seq<int>, k: int) -> u64 {
    if k + 1 < free.len() {
        free[k + 1] as u64
    } else {
        END_OF_LIST
    }
}

/// Whether a slab id is one that `new_with_id` makes: seven bits at bits 33..40.
pub open spec fn valid_slab_id(id: u64) -> bool {
    id & SLAB_ID_MASK == id && id & FOREIGN_BIT == 0
}

/// Whether an entry's lock word belongs to the slab `id` and holds no lock: the slab id, a
/// generation, and nothing else.
pub open spec fn settled_state(state: u64, id: u64) -> bool {
    state & NON_GENERATION_MASK == id && state >> 48u64 == 0
}

/// The invariant of a slab.
pub open spec fn slab_wf<T>(v: SlabView<T>) -> bool {
    &&& valid_slab_id(v.id)
    &&& v.entries.len() <= MAX_ENTRIES
    &&& forall|i: int| 0 <= i < v.entries.len() ==> settled_state(#[trigger] v.entries[i].state, v.id)
    &&& forall|k: int|
        0 <= k < v.free.len() ==> 0 <= #[trigger] v.free[k] < v.entries.len()
            && v.entries[v.free[k]].entry == (Entry::<T>::Vacant { next: free_link(v.free, k) })
    &&& forall|j: int, k: int| 0 <= j < k < v.free.len() ==> v.free[j] != v.free[k]
    &&& forall|i: int|
        0 <= i < v.entries.len() && (#[trigger] v.entries[i].entry is Vacant) ==> v.free.contains(i)
}

/// Allocates handles that represent stored values and can be shared with the foreign code
pub struct Slab<T: Clone> {
    slab_id: u64,
    entries: Vec<LockedEntry<T>>,
    // Next entry in the free list.
    next: Next,
    free: Ghost<Seq<int>>,
}

impl<T: Clone> View for Slab<T> {
    type V = SlabView<T>;

    closed spec fn view(&self) -> SlabView<T> {
        SlabView {
            id: self.slab_id,
            entries: self.entries@.map_values(|e: LockedEntry<T>| e@),
            free: self.free@,
        }
    }
}

/// What `get_entry` gives: the entry's index, or why there is none.
pub open spec fn entry_lookup<T>(v: SlabView<T>, raw: u64, r: Result<usize>) -> bool {
    if index_of(raw) < v.entries.len() {
        r == Ok::<usize, Error>(index_of(raw) as usize)
    } else if raw & SLAB_ID_MASK != v.id {
        r == Err::<usize, Error>(Error::SlabIdMismatch)
    } else {
        r matches Err(Error::Other(msg)) && msg@ == "Index out of bounds"@
    }
}

/// The outcome of `Slab::insert`.
pub open spec fn insert_post<T>(pre: SlabView<T>, value: T, r: Result<Handle>, post: SlabView<T>) -> bool {
    if pre.free.len() == 0 {
        if pre.entries.len() >= MAX_ENTRIES {
            r == Err::<Handle, Error>(Error::OverCapacity) && post == pre
        } else {
            &&& r matches Ok(h) && h@ == pre.id | (pre.entries.len() as u64)
            &&& post.id == pre.id
            &&& post.entries == pre.entries.push(
                EntryView { state: pre.id, entry: Entry::Occupied { value } },
            )
            &&& post.free == pre.free
        }
    } else {
        let i = pre.free[0];
        let state = bumped_state(pre.entries[i].state);
        &&& r matches Ok(h) && h@ == (state & HANDLE_METADATA_MASK) | (i as u64)
        &&& post.id == pre.id
        &&& post.entries == pre.entries.update(i, EntryView { state, entry: Entry::Occupied { value } })
        &&& post.free == pre.free.drop_first()
    }
}

/// The outcome of `Slab::get_clone`.
pub open spec fn get_clone_post<T: Clone>(pre: SlabView<T>, raw: u64, r: Result<T>, post: SlabView<T>) -> bool {
    &&& post == pre
    &&& if index_of(raw) >= pre.entries.len() {
        if raw & SLAB_ID_MASK != pre.id {
            r == Err::<T, Error>(Error::SlabIdMismatch)
        } else {
            r matches Err(Error::Other(msg)) && msg@ == "Index out of bounds"@
        }
    } else {
        let e = pre.entries[index_of(raw) as int];
        if !metadata_matches(raw, e.state) {
            r matches Err(x) && mismatch_error(raw, e.state, x)
        } else {
            match e.entry {
                Entry::Vacant { .. } => r == Err::<T, Error>(Error::UseAfterFree("vacant entry")),
                Entry::Occupied { value } => r matches Ok(c) && cloned(value, c),
            }
        }
    }
}

/// The outcome of `Slab::remove`.
pub open spec fn remove_post<T>(pre: SlabView<T>, raw: u64, r: Result<T>, post: SlabView<T>) -> bool {
    if index_of(raw) >= pre.entries.len() {
        &&& post == pre
        &&& if raw & SLAB_ID_MASK != pre.id {
            r == Err::<T, Error>(Error::SlabIdMismatch)
        } else {
            r matches Err(Error::Other(msg)) && msg@ == "Index out of bounds"@
        }
    } else {
        let i = index_of(raw) as int;
        let e = pre.entries[i];
        if !metadata_matches(raw, e.state) {
            &&& post == pre
            &&& r matches Err(x) && mismatch_error(raw, e.state, x)
        } else {
            match e.entry {
                Entry::Vacant { .. } => post == pre && r == Err::<T, Error>(
                    Error::UseAfterFree("vacant entry"),
                ),
                Entry::Occupied { value } => {
                    &&& r == Ok::<T, Error>(value)
                    &&& post.id == pre.id
                    &&& post.entries == pre.entries.update(
                        i,
                        EntryView { state: e.state, entry: Entry::Vacant { next: free_head(pre) } },
                    )
                    &&& post.free == seq![i] + pre.free
                },
            }
        }
    }
}

/// Handle bits: an index below 2^32 sits in the low bits, below metadata that has none there.
proof fn lemma_handle_bits(meta: u64, index: u64)
    requires
        meta & INDEX_MASK == 0,
        index <= INDEX_MASK,
    ensures
        (meta | index) & INDEX_MASK == index,
        (meta | index) & HANDLE_METADATA_MASK == meta & HANDLE_METADATA_MASK,
        (meta | index) & FOREIGN_BIT == meta & FOREIGN_BIT,
        (meta | index) >> 48u64 == meta >> 48u64,
{
    assert((meta | index) & 0x0000_FFFF_FFFFu64 == index && (meta | index) & 0xFFFF_0000_0000u64
        == meta & 0xFFFF_0000_0000u64 && (meta | index) & 0x0001_0000_0000u64 == meta
        & 0x0001_0000_0000u64 && (meta | index) >> 48u64 == meta >> 48u64) by (bit_vector)
        requires
            meta & 0x0000_FFFF_FFFFu64 == 0,
            index <= 0x0000_FFFF_FFFFu64,
    ;
}

/// Facts about a settled lock word of a valid slab.
proof fn lemma_settled(state: u64, id: u64)
    requires
        valid_slab_id(id),
        settled_state(state, id),
    ensures
        state & INDEX_MASK == 0,
        !locked(state),
        !write_locked(state),
        state & FOREIGN_BIT == 0,
        state & SLAB_ID_MASK == id,
        (state & HANDLE_METADATA_MASK) & INDEX_MASK == 0,
        (state & HANDLE_METADATA_MASK) == state,
        settled_state(bumped_state(state), id),
        bumped_state(state) & SLAB_ID_MASK == state & SLAB_ID_MASK,
        bumped_state(state) & GENERATION_MASK != state & GENERATION_MASK,
        bumped_state(state) & FOREIGN_BIT == 0,
{
    assert(state & 0x0000_FFFF_FFFFu64 == 0 && state & 0x8000_0000u64 == 0 && state
        & 0x0001_0000_0000u64 == 0 && state & 0x00FF_0000_0000u64 == id && (state
        & 0xFFFF_0000_0000u64) & 0x0000_FFFF_FFFFu64 == 0 && (state & 0xFFFF_0000_0000u64) == state)
        by (bit_vector)
        requires
            id & 0x00FF_0000_0000u64 == id,
            id & 0x0001_0000_0000u64 == 0,
            state & 0x00FF_FFFF_FFFFu64 == id,
            state >> 48u64 == 0,
    ;
    let b = bumped_state(state);
    assert(b & 0x00FF_FFFF_FFFFu64 == id && b >> 48u64 == 0 && b & 0x00FF_0000_0000u64 == state
        & 0x00FF_0000_0000u64 && b & 0xFF00_0000_0000u64 != state & 0xFF00_0000_0000u64 && b
        & 0x0001_0000_0000u64 == 0) by (bit_vector)
        requires
            id & 0x00FF_0000_0000u64 == id,
            id & 0x0001_0000_0000u64 == 0,
            state & 0x00FF_FFFF_FFFFu64 == id,
            state >> 48u64 == 0,
            b == (state & 0x00FF_7FFF_FFFFu64) | (((((state >> 40u64) & 0xFFu64) + 1) % 256) as u64)
                << 40u64,
    ;
}

impl<T: Clone> Slab<T> {
    pub closed spec fn wf(&self) -> bool {
        &&& slab_wf(self@)
        &&& self.next@ & NEXT_INDEX_MASK == free_head(self@)
    }

    /// A well-formed slab has a well-formed view, so the laws stated over views apply to every
    /// slab that `new_with_id`, `insert`, `get_clone` and `remove` leave.
    pub proof fn lemma_view_wf(&self)
        requires
            self.wf(),
        ensures
            slab_wf(self@),
    {
    }

    pub fn new_with_id(slab_id: u8) -> (s: Self)
        ensures
            s.wf(),
            s@.id == (slab_id as u64 % 128) * SLAB_ID_UNIT,
            s@.entries.len() == 0,
            s@.free.len() == 0,
    {
        let id: u64 = (slab_id as u64 * SLAB_ID_UNIT) & SLAB_ID_MASK;
        let raw: u64 = slab_id as u64;
        assert(id == ((raw % 128) * 0x0002_0000_0000u64) as u64 && id & 0x00FF_0000_0000u64 == id && id
            & 0x0001_0000_0000u64 == 0) by (bit_vector)
            requires
                raw < 256,
                id == ((raw * 0x0002_0000_0000u64) as u64) & 0x00FF_0000_0000u64,
        ;
        let s = Slab { slab_id: id, entries: Vec::new(), next: Next::new_eol(), free: Ghost(Seq::empty()) };
        assert(s@.entries =~= Seq::<EntryView<T>>::empty());
        assert(END_OF_LIST & NEXT_INDEX_MASK == END_OF_LIST) by (bit_vector);
        s
    }

    /// The number of entries, vacant or occupied.
    pub fn len(&self) -> (n: usize)
        ensures
            n == self@.entries.len(),
    {
        self.entries.len()
    }

    fn get_entry(&self, handle: &Handle) -> (r: Result<usize>)
        requires
            self.wf(),
        ensures
            entry_lookup(self@, handle@, r),
    {
        let index = handle.index();
        if index < self.entries.len() {
            Ok(index)
        } else if handle.as_raw() & SLAB_ID_MASK != self.slab_id {
            Err(Error::SlabIdMismatch)
        } else {
            proof {
                reveal_strlit("Index out of bounds");
            }
            Err(Error::Other(String::from_str("Index out of bounds")))
        }
    }

    /// Insert a new item into the Slab
    pub fn insert(&mut self, value: T) -> (r: Result<Handle>)
        requires
            old(self).wf(),
        ensures
            final(self).wf(),
            insert_post(old(self)@, value, r, final(self)@),
    {
        let ghost pre = self@;
        let (index, token) = self.next.get();
        if index as u64 == END_OF_LIST {
            // Next is pointing at END_OF_LIST, push a new entry
            if self.entries.len() as u64 >= MAX_ENTRIES {
                return Err(Error::OverCapacity);
            }
            let index = self.entries.len();
            self.entries.push(LockedEntry::new(self.slab_id, value));
            proof {
                assert(self@.entries =~= pre.entries.push(
                    EntryView { state: pre.id, entry: Entry::Occupied { value } },
                ));
                lemma_valid_id(pre.id);
                lemma_handle_bits(pre.id, index as u64);
                assert forall|i: int|
                    0 <= i < self@.entries.len() && (#[trigger] self@.entries[i].entry is Vacant) implies self@.free.contains(
                    i) by {
                    assert(i < pre.entries.len());
                    assert(pre.entries[i] == self@.entries[i]);
                }
            }
            // The generation counter of a new entry is 0, so the slab id is the whole metadata.
            Ok(Handle::new(self.slab_id, index))
        } else {
            // Next is pointing at some index, update `next` to point to the second item in the
            // free list.
            proof {
                assert(pre.entries[pre.free[0]].entry == (Entry::<T>::Vacant { next: free_link(pre.free, 0) }));
                lemma_settled(pre.entries[pre.free[0]].state, pre.id);
            }
            let next2 = self.entries[index].get_next()?;
            proof {
                if pre.free.len() > 1 {
                    assert(0 <= pre.free[1] < pre.entries.len());
                }
                lemma_next_word_index(token, next2);
            }
            let updated = self.next.try_update(next2 as usize, token);
            // With `&mut self` nothing can update the free list between `get()` and
            // `try_update()`, so the update is made.
            assert(updated);
            let metadata = self.entries[index].insert(value)?;
            proof {
                let i = pre.free[0];
                let st = bumped_state(pre.entries[i].state);
                self.free@ = pre.free.drop_first();
                assert(self@.entries =~= pre.entries.update(
                    i,
                    EntryView { state: st, entry: Entry::Occupied { value } },
                ));
                lemma_settled(st, pre.id);
                lemma_handle_bits(metadata, index as u64);
                assert forall|k: int|
                    0 <= k < self@.free.len() implies 0 <= #[trigger] self@.free[k] < self@.entries.len()
                    && self@.entries[self@.free[k]].entry == (Entry::<T>::Vacant {
                        next: free_link(self@.free, k),
                    }) by {
                    assert(self@.free[k] == pre.free[k + 1]);
                    assert(pre.free[0] != pre.free[k + 1]);
                }
                assert forall|j: int|
                    0 <= j < self@.entries.len() && (#[trigger] self@.entries[j].entry is Vacant) implies self@.free.contains(
                    j) by {
                    assert(j != i);
                    assert(pre.entries[j] == self@.entries[j]);
                    assert(pre.free.contains(j));
                    let k = choose|k: int| 0 <= k < pre.free.len() && pre.free[k] == j;
                    assert(k != 0);
                    assert(self@.free[k - 1] == j);
                }
            }
            Ok(Handle::new(metadata, index))
        }
    }
}

impl<T: Clone> Slab<T> {
    /// Get a cloned value from a handle
    pub fn get_clone(&mut self, handle: Handle) -> (r: Result<T>)
        requires
            old(self).wf(),
        ensures
            final(self).wf(),
            get_clone_post(old(self)@, handle@, r, final(self)@),
    {
        let ghost pre = self@;
        let index = self.get_entry(&handle)?;
        proof {
            lemma_settled(pre.entries[index as int].state, pre.id);
        }
        let r = self.entries[index].get_clone(handle);
        proof {
            assert(self@.entries =~= pre.entries);
        }
        r
    }

    /// Remove an item from the slab, returning the original value
    pub fn remove(&mut self, handle: Handle) -> (r: Result<T>)
        requires
            old(self).wf(),
        ensures
            final(self).wf(),
            remove_post(old(self)@, handle@, r, final(self)@),
    {
        let ghost pre = self@;
        let index = self.get_entry(&handle)?;
        proof {
            lemma_settled(pre.entries[index as int].state, pre.id);
        }
        // Take the occupied value, leaving a vacant entry that we put at the front of the free
        // list.
        let value = match self.entries[index].take(handle) {
            Ok(value) => value,
            Err(e) => {
                assert(self@.entries =~= pre.entries);
                return Err(e);
            },
        };
        let (current_next, token) = self.next.get();
        self.entries[index].set_next(current_next as u64)?;
        proof {
            lemma_next_word_index(token, index as u64);
        }
        let updated = self.next.try_update(index, token);
        // With `&mut self` nothing can update the free list between `get()` and
        // `try_update()`, so the update is made.
        assert(updated);
        proof {
            let i = index as int;
            self.free@ = seq![i] + pre.free;
            let e = pre.entries[i];
            assert(self@.entries =~= pre.entries.update(
                i,
                EntryView { state: e.state, entry: Entry::Vacant { next: free_head(pre) } },
            ));
            assert(!pre.free.contains(i)) by {
                if pre.free.contains(i) {
                    let k = choose|k: int| 0 <= k < pre.free.len() && pre.free[k] == i;
                    assert(pre.entries[pre.free[k]].entry is Vacant);
                }
            }
            assert forall|k: int|
                0 <= k < self@.free.len() implies 0 <= #[trigger] self@.free[k] < self@.entries.len()
                && self@.entries[self@.free[k]].entry == (Entry::<T>::Vacant {
                    next: free_link(self@.free, k),
                }) by {
                if k > 0 {
                    assert(self@.free[k] == pre.free[k - 1]);
                    assert(pre.free[k - 1] != i);
                }
            }
            assert forall|j: int, k: int| 0 <= j < k < self@.free.len() implies self@.free[j]
                != self@.free[k] by {
                if j > 0 {
                    assert(self@.free[j] == pre.free[j - 1]);
                }
                assert(self@.free[k] == pre.free[k - 1]);
                assert(pre.free.contains(pre.free[k - 1]));
            }
            assert forall|j: int|
                0 <= j < self@.entries.len() && (#[trigger] self@.entries[j].entry is Vacant) implies self@.free.contains(
                j) by {
                if j == i {
                    assert(self@.free[0] == i);
                } else {
                    assert(pre.entries[j] == self@.entries[j]);
                    let k = choose|k: int| 0 <= k < pre.free.len() && pre.free[k] == j;
                    assert(self@.free[k + 1] == j);
                }
            }
        }
        Ok(value)
    }

    /// Insert a new item, on a slab that has room for it.
    pub fn insert_or_panic(&mut self, value: T) -> (h: Handle)
        requires
            old(self).wf(),
            old(self)@.free.len() > 0 || old(self)@.entries.len() < MAX_ENTRIES,
        ensures
            final(self).wf(),
            insert_post(old(self)@, value, Ok(h), final(self)@),
    {
        let r = self.insert(value);
        r.unwrap()
    }

    /// Get a cloned value from a handle of an occupied entry.
    pub fn get_clone_or_panic(&mut self, handle: Handle) -> (v: T)
        requires
            old(self).wf(),
            handle_is_live(old(self)@, handle@),
        ensures
            final(self).wf(),
            get_clone_post(old(self)@, handle@, Ok(v), final(self)@),
    {
        let r = self.get_clone(handle);
        r.unwrap()
    }

    /// Remove an item from the slab, given a handle of an occupied entry.
    pub fn remove_or_panic(&mut self, handle: Handle) -> (v: T)
        requires
            old(self).wf(),
            handle_is_live(old(self)@, handle@),
        ensures
            final(self).wf(),
            remove_post(old(self)@, handle@, Ok(v), final(self)@),
    {
        let r = self.remove(handle);
        r.unwrap()
    }

    /// Create a special-cased handle
    ///
    /// This never equals a handle that the slab allocates: its index is at least
    /// `MAX_ENTRIES`.  The value must leave the handle within the index bits, so it is at most
    /// `u32::MAX - MAX_ENTRIES`.
    pub fn special_value(&self, val: u32) -> (h: Handle)
        requires
            MAX_ENTRIES + val <= INDEX_MASK,
        ensures
            h@ == MAX_ENTRIES + val,
            index_of(h@) == h@,
            !is_foreign_raw(h@),
            h@ >> 48u64 == 0,
    {
        let raw = MAX_ENTRIES + val as u64;
        assert(raw & 0x0000_FFFF_FFFFu64 == raw && raw & 0x0001_0000_0000u64 == 0 && raw >> 48u64 == 0)
            by (bit_vector)
            requires
                raw <= 0xFFFF_FFFFu64,
        ;
        Handle::from_raw(raw)
    }
}

/// Whether a handle names an occupied entry of the slab, with matching metadata.
pub open spec fn handle_is_live<T>(v: SlabView<T>, raw: u64) -> bool {
    &&& index_of(raw) < v.entries.len()
    &&& metadata_matches(raw, v.entries[index_of(raw) as int].state)
    &&& v.entries[index_of(raw) as int].entry is Occupied
}

/// A valid slab id is a settled lock word of its own slab, with no index bits.
proof fn lemma_valid_id(id: u64)
    requires
        valid_slab_id(id),
    ensures
        settled_state(id, id),
        id & INDEX_MASK == 0,
{
    assert(id & 0x00FF_FFFF_FFFFu64 == id && id >> 48u64 == 0 && id & 0x0000_FFFF_FFFFu64 == 0)
        by (bit_vector)
        requires
            id & 0x00FF_0000_0000u64 == id,
            id & 0x0001_0000_0000u64 == 0,
    ;
}

/// Agreeing metadata means agreeing foreign bit, slab id and generation.
proof fn lemma_metadata_parts(a: u64, b: u64)
    ensures
        metadata_matches(a, b) <==> (a & FOREIGN_BIT == b & FOREIGN_BIT && a & SLAB_ID_MASK == b
            & SLAB_ID_MASK && a & GENERATION_MASK == b & GENERATION_MASK),
{
    assert((a & 0xFFFF_0000_0000u64 == b & 0xFFFF_0000_0000u64) <==> (a & 0x0001_0000_0000u64 == b
        & 0x0001_0000_0000u64 && a & 0x00FF_0000_0000u64 == b & 0x00FF_0000_0000u64 && a
        & 0xFF00_0000_0000u64 == b & 0xFF00_0000_0000u64)) by (bit_vector);
}

/// The handle that `insert` gives back names the entry that now holds the value.
proof fn lemma_inserted_handle<T>(s0: SlabView<T>, value: T, h: Handle, s1: SlabView<T>)
    requires
        slab_wf(s0),
        insert_post(s0, value, Ok(h), s1),
    ensures
        index_of(h@) < s1.entries.len(),
        index_of(h@) < MAX_ENTRIES,
        metadata_matches(h@, s1.entries[index_of(h@) as int].state),
        s1.entries[index_of(h@) as int].entry == (Entry::Occupied { value }),
        s0.free.len() > 0 ==> index_of(h@) == s0.free[0],
        s0.free.len() == 0 ==> index_of(h@) == s0.entries.len(),
        h@ & FOREIGN_BIT == 0,
        h@ >> 48u64 == 0,
{
    if s0.free.len() == 0 {
        lemma_valid_id(s0.id);
        lemma_handle_bits(s0.id, s0.entries.len() as u64);
        assert(s1.entries[s0.entries.len() as int].state == s0.id);
    } else {
        let i = s0.free[0];
        let st = bumped_state(s0.entries[i].state);
        lemma_settled(s0.entries[i].state, s0.id);
        lemma_settled(st, s0.id);
        lemma_handle_bits(st & HANDLE_METADATA_MASK, i as u64);
    }
}

/// Reading back what was inserted: the handle that `insert` gives back gets a clone of the
/// value, and the slab is left as it was.
pub proof fn law_get_after_insert<T: Clone>(
    s0: SlabView<T>,
    value: T,
    h: Handle,
    s1: SlabView<T>,
    r: Result<T>,
    s2: SlabView<T>,
)
    requires
        slab_wf(s0),
        insert_post(s0, value, Ok(h), s1),
        get_clone_post(s1, h@, r, s2),
    ensures
        r matches Ok(c) && cloned(value, c),
        s2 == s1,
{
    lemma_inserted_handle(s0, value, h, s1);
}

/// Removing what was inserted gives the value back, puts its entry at the front of the free
/// list and leaves the handle dead.
pub proof fn law_remove_after_insert<T>(
    s0: SlabView<T>,
    value: T,
    h: Handle,
    s1: SlabView<T>,
    r: Result<T>,
    s2: SlabView<T>,
)
    requires
        slab_wf(s0),
        insert_post(s0, value, Ok(h), s1),
        remove_post(s1, h@, r, s2),
    ensures
        r == Ok::<T, Error>(value),
        s2.free[0] == index_of(h@),
        !handle_is_live(s2, h@),
{
    lemma_inserted_handle(s0, value, h, s1);
}

/// A handle whose value was removed is refused, both by `get_clone` and by another
/// `remove`, as a use after free.
pub proof fn law_use_after_remove<T: Clone>(
    s0: SlabView<T>,
    raw: u64,
    v: T,
    s1: SlabView<T>,
    r1: Result<T>,
    s2: SlabView<T>,
    r2: Result<T>,
    s3: SlabView<T>,
)
    requires
        slab_wf(s0),
        remove_post(s0, raw, Ok(v), s1),
        get_clone_post(s1, raw, r1, s2),
        remove_post(s1, raw, r2, s3),
    ensures
        r1 == Err::<T, Error>(Error::UseAfterFree("vacant entry")),
        r2 == Err::<T, Error>(Error::UseAfterFree("vacant entry")),
        s3 == s1,
{
}

/// Once the entry of a removed value is re-used, the old handle is told from the new one by
/// its generation: it is refused as a use after free, and the new handle differs from it.
pub proof fn law_stale_handle_after_reuse<T: Clone>(
    s0: SlabView<T>,
    raw: u64,
    v: T,
    s1: SlabView<T>,
    value: T,
    h: Handle,
    s2: SlabView<T>,
    r: Result<T>,
    s3: SlabView<T>,
)
    requires
        slab_wf(s0),
        remove_post(s0, raw, Ok(v), s1),
        insert_post(s1, value, Ok(h), s2),
        get_clone_post(s2, raw, r, s3),
    ensures
        index_of(h@) == index_of(raw),
        h@ != raw,
        r == Err::<T, Error>(Error::UseAfterFree("generation mismatch")),
{
    let i = index_of(raw) as int;
    let st = s0.entries[i].state;
    lemma_settled(st, s0.id);
    assert(s1.free[0] == i);
    let st2 = bumped_state(st);
    lemma_settled(st2, s0.id);
    lemma_metadata_parts(raw, st);
    lemma_metadata_parts(raw, st2);
    lemma_metadata_parts(h@, raw);
    lemma_handle_bits(st2 & HANDLE_METADATA_MASK, i as u64);
    assert(s2.entries[i].state == st2);
}

/// A handle of another slab (not foreign, with another slab id) is refused by `get_clone`
/// as a slab id mismatch.
pub proof fn law_get_with_other_slab_id<T: Clone>(
    s: SlabView<T>,
    raw: u64,
    r: Result<T>,
    s1: SlabView<T>,
)
    requires
        slab_wf(s),
        !is_foreign_raw(raw),
        raw & SLAB_ID_MASK != s.id,
        get_clone_post(s, raw, r, s1),
    ensures
        r == Err::<T, Error>(Error::SlabIdMismatch),
        s1 == s,
{
    if index_of(raw) < s.entries.len() {
        let st = s.entries[index_of(raw) as int].state;
        lemma_settled(st, s.id);
        lemma_metadata_parts(raw, st);
    }
}

/// A handle of another slab (not foreign, with another slab id) is refused by `remove` as a
/// slab id mismatch, and nothing is removed.
pub proof fn law_remove_with_other_slab_id<T>(
    s: SlabView<T>,
    raw: u64,
    r: Result<T>,
    s1: SlabView<T>,
)
    requires
        slab_wf(s),
        !is_foreign_raw(raw),
        raw & SLAB_ID_MASK != s.id,
        remove_post(s, raw, r, s1),
    ensures
        r == Err::<T, Error>(Error::SlabIdMismatch),
        s1 == s,
{
    if index_of(raw) < s.entries.len() {
        let st = s.entries[index_of(raw) as int].state;
        lemma_settled(st, s.id);
        lemma_metadata_parts(raw, st);
    }
}

/// A foreign handle whose index names an entry is refused as a foreign handle.
pub proof fn law_foreign_handle_refused<T: Clone>(
    s: SlabView<T>,
    raw: u64,
    r: Result<T>,
    s1: SlabView<T>,
)
    requires
        slab_wf(s),
        is_foreign_raw(raw),
        index_of(raw) < s.entries.len(),
        get_clone_post(s, raw, r, s1),
    ensures
        r == Err::<T, Error>(Error::ForeignHandle),
{
    let st = s.entries[index_of(raw) as int].state;
    lemma_settled(st, s.id);
    lemma_metadata_parts(raw, st);
}

/// Handles that `insert` gives back come from Rust, use only 48 bits, carry the slab's id, and
/// never equal a special value.
pub proof fn law_inserted_handles<T>(
    s0: SlabView<T>,
    value: T,
    h: Handle,
    s1: SlabView<T>,
    val: u32,
)
    requires
        slab_wf(s0),
        insert_post(s0, value, Ok(h), s1),
    ensures
        !is_foreign_raw(h@),
        h@ & HANDLE_MASK == h@,
        h@ & SLAB_ID_MASK == s0.id,
        h@ != MAX_ENTRIES + val,
{
    lemma_inserted_handle(s0, value, h, s1);
    let st = s1.entries[index_of(h@) as int].state;
    if s0.free.len() > 0 {
        lemma_settled(s0.entries[s0.free[0]].state, s0.id);
        lemma_settled(bumped_state(s0.entries[s0.free[0]].state), s0.id);
    } else {
        lemma_valid_id(s0.id);
        lemma_settled(s0.id, s0.id);
    }
    lemma_metadata_parts(h@, st);
    let raw = h@;
    assert(raw & 0xFFFF_FFFF_FFFFu64 == raw) by (bit_vector)
        requires
            raw >> 48u64 == 0,
    ;
    let sp: u64 = (MAX_ENTRIES + val) as u64;
    if sp <= 0x0000_FFFF_FFFFu64 {
        // The special value's index part is the value itself, at least `MAX_ENTRIES`.
        assert(sp & 0x0000_FFFF_FFFFu64 == sp) by (bit_vector)
            requires
                sp <= 0x0000_FFFF_FFFFu64,
        ;
    } else {
        // Past 32 bits, the special value has the foreign bit set.
        assert(sp & 0x0001_0000_0000u64 != 0) by (bit_vector)
            requires
                0x1_0000_0000u64 <= sp < 0x2_0000_0000u64,
        ;
    }
}

/// Inserting leaves every handle that was live live (naming the same value), and gives back a
/// handle that differs from all of them.
pub proof fn law_insert_keeps_live_handles<T>(
    s0: SlabView<T>,
    value: T,
    h: Handle,
    s1: SlabView<T>,
    raw: u64,
)
    requires
        slab_wf(s0),
        insert_post(s0, value, Ok(h), s1),
        handle_is_live(s0, raw),
    ensures
        raw != h@,
        handle_is_live(s1, raw),
        s1.entries[index_of(raw) as int] == s0.entries[index_of(raw) as int],
{
    lemma_inserted_handle(s0, value, h, s1);
    if s0.free.len() > 0 {
        assert(s0.entries[s0.free[0]].entry is Vacant);
    }
    assert(index_of(raw) != index_of(h@));
}

/// Removing a value leaves every other live handle (of another entry) live, naming the same
/// value.
pub proof fn law_remove_keeps_other_live_handles<T>(
    s0: SlabView<T>,
    raw: u64,
    v: T,
    s1: SlabView<T>,
    other: u64,
)
    requires
        slab_wf(s0),
        remove_post(s0, raw, Ok(v), s1),
        handle_is_live(s0, other),
        index_of(other) != index_of(raw),
    ensures
        handle_is_live(s1, other),
        s1.entries[index_of(other) as int] == s0.entries[index_of(other) as int],
{
}

/// The lock word protocol: a reader lets another reader in but keeps writers out; a writer
/// keeps readers and writers out; taking and giving back either lock leaves the word as it was.
pub proof fn law_lock_protocol(s: u64)
    requires
        !locked(s),
    ensures
        !write_locked(vstd::wrapping::u64_specs::wrapping_add(s, 1)),
        locked(vstd::wrapping::u64_specs::wrapping_add(s, 1)),
        write_lock_error(vstd::wrapping::u64_specs::wrapping_add(s, 1)) == Error::UseAfterFree(
            "entry read locked while trying to write",
        ),
        write_locked(s | WRITE_LOCK_BIT),
        locked(s | WRITE_LOCK_BIT),
        write_lock_error(s | WRITE_LOCK_BIT) == Error::UseAfterFree(
            "entry write locked while trying to write",
        ),
        vstd::wrapping::u64_specs::wrapping_sub(vstd::wrapping::u64_specs::wrapping_add(s, 1), 1)
            == s,
        (s | WRITE_LOCK_BIT) & NOT_WRITE_LOCK_BIT == s,
{
    assert(s + 1 <= u64::MAX) by (bit_vector)
        requires
            s & 0x0000_FFFF_FFFFu64 == 0,
    ;
    let t: u64 = (s + 1) as u64;
    assert(t & 0x8000_0000u64 == 0 && t & 0x0000_FFFF_FFFFu64 != 0 && (s | 0x8000_0000u64)
        & 0x8000_0000u64 != 0 && (s | 0x8000_0000u64) & 0x0000_FFFF_FFFFu64 != 0 && ((s
        | 0x8000_0000u64) & 0xFFFF_FFFF_7FFF_FFFFu64) == s) by (bit_vector)
        requires
            s & 0x0000_FFFF_FFFFu64 == 0,
            t == s + 1,
    ;
}

/// The lock word of an entry after `k` insertions into it.
pub open spec fn bumped_times(s: u64, k: nat) -> u64
    decreases k,
{
    if k == 0 {
        s
    } else {
        bumped_state(bumped_times(s, (k - 1) as nat))
    }
}

/// The generation counter of a lock word or a handle.
pub open spec fn generation(x: u64) -> u64 {
    (x >> 40u64) & 0xFFu64
}

proof fn lemma_bump_generation(s: u64)
    ensures
        generation(bumped_state(s)) == (generation(s) + 1) % 256,
        bumped_state(s) & 0x00FF_7FFF_FFFFu64 == s & 0x00FF_7FFF_FFFFu64,
{
    assert((((s & 0x00FF_7FFF_FFFFu64) | (((((s >> 40u64) & 0xFFu64) + 1) % 256) as u64) << 40u64)
        >> 40u64) & 0xFFu64 == (((s >> 40u64) & 0xFFu64) + 1) % 256 && ((s & 0x00FF_7FFF_FFFFu64)
        | (((((s >> 40u64) & 0xFFu64) + 1) % 256) as u64) << 40u64) & 0x00FF_7FFF_FFFFu64 == s
        & 0x00FF_7FFF_FFFFu64) by (bit_vector);
}

proof fn lemma_bumped_times(s: u64, k: nat)
    ensures
        generation(bumped_times(s, k)) == (generation(s) + k) % 256,
        bumped_times(s, k) & 0x00FF_7FFF_FFFFu64 == s & 0x00FF_7FFF_FFFFu64,
    decreases k,
{
    if k == 0 {
        assert(generation(s) < 256) by (bit_vector);
    } else {
        let prev = bumped_times(s, (k - 1) as nat);
        lemma_bumped_times(s, (k - 1) as nat);
        lemma_bump_generation(prev);
        vstd::arithmetic::div_mod::lemma_add_mod_noop(generation(s) + k - 1, 1, 256);
        assert(1int % 256 == 1);
    }
}

/// A handle's metadata parts, as the generation counter and the bits below it.
proof fn lemma_metadata_by_generation(a: u64, b: u64)
    ensures
        metadata_matches(a, b) <==> (generation(a) == generation(b) && a & 0x00FF_0000_0000u64 == b
            & 0x00FF_0000_0000u64),
        a & GENERATION_MASK == b & GENERATION_MASK <==> generation(a) == generation(b),
        a & 0x00FF_7FFF_FFFFu64 == b & 0x00FF_7FFF_FFFFu64 ==> a & 0x00FF_0000_0000u64 == b
            & 0x00FF_0000_0000u64,
{
    assert((a & 0xFFFF_0000_0000u64 == b & 0xFFFF_0000_0000u64) <==> (((a >> 40u64) & 0xFFu64) == ((b
        >> 40u64) & 0xFFu64) && a & 0x00FF_0000_0000u64 == b & 0x00FF_0000_0000u64)) by (bit_vector);
    assert((a & 0xFF00_0000_0000u64 == b & 0xFF00_0000_0000u64) <==> (((a >> 40u64) & 0xFFu64) == ((b
        >> 40u64) & 0xFFu64))) by (bit_vector);
    assert(a & 0x00FF_7FFF_FFFFu64 == b & 0x00FF_7FFF_FFFFu64 ==> a & 0x00FF_0000_0000u64 == b
        & 0x00FF_0000_0000u64) by (bit_vector);
}

/// Use-after-free is caught until the entry has been re-used 256 times: a handle from Rust
/// that matched an entry's lock word is refused with a generation mismatch after 1 to 255
/// insertions into the entry, and matches again after 256, when the 8-bit generation counter
/// has wrapped around.
pub proof fn law_generation_catches_reuse(raw: u64, s: u64, k: nat)
    requires
        metadata_matches(raw, s),
        raw & FOREIGN_BIT == 0,
    ensures
        0 < k < 256 ==> !metadata_matches(raw, bumped_times(s, k)) && mismatch_error(
            raw,
            bumped_times(s, k),
            Error::UseAfterFree("generation mismatch"),
        ),
        k == 256 ==> metadata_matches(raw, bumped_times(s, k)),
{
    let t = bumped_times(s, k);
    lemma_bumped_times(s, k);
    lemma_metadata_by_generation(raw, s);
    lemma_metadata_by_generation(t, s);
    lemma_metadata_by_generation(raw, t);
    lemma_metadata_parts(raw, t);
    assert(generation(s) < 256) by (bit_vector);
    if 0 < k < 256 {
        assert((generation(s) + k) % 256 != generation(s as u64)) by {
            if generation(s) + k < 256 {
                assert((generation(s) + k) % 256 == generation(s) + k);
            } else {
                assert((generation(s) + k) % 256 == generation(s) + k - 256);
            }
        }
    }
    if k == 256 {
        assert((generation(s) + 256) % 256 == generation(s));
    }
}

} // verus!
