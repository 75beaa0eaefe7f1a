use std::sync::Arc;
use uniffi_jni_core::slab::{
    Error, Handle, LockedEntry, Next, Slab, END_OF_LIST, FOREIGN_BIT, GENERATION_UNIT,
    HANDLE_MASK, MAX_ENTRIES, SLAB_ID_UNIT, WRITE_LOCK_BIT,
};

#[test]
fn test_entry_locking() {
    let mut entry = LockedEntry::<Arc<&str>>::new(0, Arc::new("Hello"));
    assert!(entry.read_lock().is_ok());
    // A second reader is allowed
    assert!(entry.read_lock().is_ok());
    entry.read_unlock();
    // But a writer is not
    assert!(entry.write_lock().is_err());
    entry.read_unlock();

    assert!(entry.write_lock().is_ok());
    // A reader is not allowed while the entry is being written
    assert!(entry.read_lock().is_err());
    // Neither is a writer
    assert!(entry.write_lock().is_err());
    entry.write_unlock();
    assert!(entry.write_lock().is_ok());
}

#[test]
fn test_simple_usage() {
    let mut slab = Slab::new_with_id(0);
    let handle1 = slab.insert(Arc::new("Hello")).unwrap();
    let handle2 = slab.insert(Arc::new("Goodbye")).unwrap();
    assert_eq!(slab.len(), 2);
    assert_eq!(*slab.get_clone(handle1).unwrap(), "Hello");
    slab.remove(handle1).unwrap();
    assert_eq!(*slab.get_clone(handle2).unwrap(), "Goodbye");
    slab.remove(handle2).unwrap();
}

#[test]
fn test_special_values() {
    let slab = Slab::<String>::new_with_id(0);
    assert_eq!(slab.special_value(0), Handle::from_raw(4_000_000_000));
    assert_eq!(slab.special_value(1), Handle::from_raw(4_000_000_001));
}

#[test]
fn test_slab_id_check() {
    let mut slab = Slab::<Arc<&str>>::new_with_id(1);
    let mut slab2 = Slab::<Arc<&str>>::new_with_id(2);
    let handle = slab.insert(Arc::new("Hello")).unwrap();
    assert_eq!(Err(Error::SlabIdMismatch), slab2.get_clone(handle));
    assert_eq!(Err(Error::SlabIdMismatch), slab2.remove(handle));
}

#[test]
fn test_foreign_handle() {
    let mut slab = Slab::<Arc<&str>>::new_with_id(1);
    let handle = slab.insert(Arc::new("Hello")).unwrap();
    let foreign_handle = Handle::from_raw(handle.as_raw() | FOREIGN_BIT);
    assert_eq!(Err(Error::ForeignHandle), slab.get_clone(foreign_handle));
}

#[test]
fn get_after_insert_gives_the_value_back() {
    let mut slab = Slab::new_with_id(5);
    let h = slab.insert(String::from("a")).unwrap();
    assert_eq!(slab.get_clone(h), Ok(String::from("a")));
    assert_eq!(slab.get_clone(h), Ok(String::from("a")));
    assert_eq!(slab.remove(h), Ok(String::from("a")));
}

#[test]
fn handles_carry_the_slab_id_and_stay_in_48_bits() {
    let mut slab = Slab::new_with_id(3);
    let h = slab.insert(7u32).unwrap();
    assert_eq!(h.as_raw(), 3 * SLAB_ID_UNIT);
    assert_eq!(h.index(), 0);
    assert!(h.is_from_rust());
    assert!(!h.is_foreign());
    assert_eq!(h.as_raw() & !HANDLE_MASK, 0);
    let h2 = slab.insert(8u32).unwrap();
    assert_eq!(h2.as_raw(), 3 * SLAB_ID_UNIT + 1);
    assert_eq!(h2.index(), 1);
}

#[test]
fn removed_handle_is_use_after_free() {
    let mut slab = Slab::new_with_id(0);
    let h = slab.insert(1u8).unwrap();
    assert_eq!(slab.remove(h), Ok(1));
    assert!(matches!(slab.get_clone(h), Err(Error::UseAfterFree(_))));
    assert!(matches!(slab.remove(h), Err(Error::UseAfterFree(_))));
}

#[test]
fn vacant_entry_is_reused_with_a_new_generation() {
    let mut slab = Slab::new_with_id(0);
    let h1 = slab.insert(1u8).unwrap();
    slab.remove(h1).unwrap();
    let h2 = slab.insert(2u8).unwrap();
    assert_eq!(slab.len(), 1);
    assert_eq!(h2.index(), h1.index());
    assert_eq!(h2.as_raw(), h1.as_raw() + GENERATION_UNIT);
    assert_eq!(
        slab.get_clone(h1),
        Err(Error::UseAfterFree("generation mismatch"))
    );
    assert_eq!(slab.get_clone(h2), Ok(2));
}

#[test]
fn freed_entries_are_reused_last_in_first_out() {
    let mut slab = Slab::new_with_id(0);
    let a = slab.insert(1u8).unwrap();
    let b = slab.insert(2u8).unwrap();
    slab.remove(a).unwrap();
    slab.remove(b).unwrap();
    let c = slab.insert(3u8).unwrap();
    let d = slab.insert(4u8).unwrap();
    assert_eq!(c.index(), b.index());
    assert_eq!(d.index(), a.index());
    assert_eq!(slab.len(), 2);
}

#[test]
fn out_of_range_index_is_an_internal_error() {
    let mut slab = Slab::<u8>::new_with_id(0);
    let h = Handle::from_raw(5);
    assert_eq!(
        slab.get_clone(h),
        Err(Error::Other(String::from("Index out of bounds")))
    );
}

#[test]
fn out_of_range_index_with_other_slab_id_is_a_mismatch() {
    let mut slab = Slab::<u8>::new_with_id(0);
    let h = Handle::from_raw(SLAB_ID_UNIT + 5);
    assert_eq!(slab.get_clone(h), Err(Error::SlabIdMismatch));
}

#[test]
fn or_panic_variants_agree_with_the_checked_ones() {
    let mut slab = Slab::new_with_id(9);
    let h = slab.insert_or_panic(String::from("x"));
    assert_eq!(slab.get_clone_or_panic(h), "x");
    assert_eq!(slab.remove_or_panic(h), "x");
    assert!(slab.get_clone(h).is_err());
}

#[test]
fn error_messages() {
    assert_eq!(Error::SlabIdMismatch.to_string(), "Slab id mismatch");
    assert_eq!(
        Error::ForeignHandle.to_string(),
        "Handle belongs to a foreign slab"
    );
    assert_eq!(
        Error::UseAfterFree("generation mismatch").to_string(),
        "Use-after-free detected (generation mismatch)"
    );
    assert_eq!(Error::OverCapacity.to_string(), "Slab capacity exceeded");
    assert_eq!(Error::Vacant.to_string(), "Entry unexpectedly vacant");
    assert_eq!(Error::Occupied.to_string(), "Entry unexpectedly occupied");
    assert_eq!(
        Error::Other(String::from("boom")).to_string(),
        "Slab internal error: boom"
    );
}

#[test]
fn check_handle_reports_each_mismatch() {
    let entry = LockedEntry::new(2 * SLAB_ID_UNIT, 0u8);
    assert_eq!(
        entry.check_handle_against_state(Handle::from_raw(2 * SLAB_ID_UNIT + 7), 2 * SLAB_ID_UNIT),
        Ok(())
    );
    assert_eq!(
        entry.check_handle_against_state(
            Handle::from_raw(2 * SLAB_ID_UNIT | FOREIGN_BIT),
            2 * SLAB_ID_UNIT
        ),
        Err(Error::ForeignHandle)
    );
    assert_eq!(
        entry.check_handle_against_state(Handle::from_raw(SLAB_ID_UNIT), 2 * SLAB_ID_UNIT),
        Err(Error::SlabIdMismatch)
    );
    assert_eq!(
        entry.check_handle_against_state(
            Handle::from_raw(2 * SLAB_ID_UNIT + GENERATION_UNIT),
            2 * SLAB_ID_UNIT
        ),
        Err(Error::UseAfterFree("generation mismatch"))
    );
}

#[test]
fn entry_next_links() {
    let mut entry = LockedEntry::new(0, 1u8);
    // An occupied entry has no link; the error names the state that was expected.
    assert_eq!(entry.get_next(), Err(Error::Vacant));
    assert_eq!(entry.set_next(3), Err(Error::Vacant));
    assert_eq!(entry.insert(2u8), Err(Error::Occupied));
    assert_eq!(entry.take(Handle::from_raw(0)), Ok(1));
    assert_eq!(
        entry.take(Handle::from_raw(0)),
        Err(Error::UseAfterFree("vacant entry"))
    );
    assert_eq!(entry.get_next(), Ok(END_OF_LIST));
    assert_eq!(entry.set_next(3), Ok(()));
    assert_eq!(entry.get_next(), Ok(3));
    // Filling the entry again moves its generation on.
    assert_eq!(entry.insert(9u8), Ok(GENERATION_UNIT));
    assert_eq!(entry.get_clone(Handle::from_raw(GENERATION_UNIT)), Ok(9));
    assert_eq!(
        entry.get_clone(Handle::from_raw(0)),
        Err(Error::UseAfterFree("generation mismatch"))
    );
}

#[test]
fn write_lock_errors_name_the_holder() {
    let mut entry = LockedEntry::new(0, 1u8);
    assert_eq!(entry.read_lock(), Ok(0));
    assert_eq!(
        entry.write_lock(),
        Err(Error::UseAfterFree("entry read locked while trying to write"))
    );
    entry.read_unlock();
    assert_eq!(entry.write_lock(), Ok(0));
    assert_eq!(
        entry.write_lock(),
        Err(Error::UseAfterFree("entry write locked while trying to write"))
    );
    assert_eq!(
        entry.read_lock(),
        Err(Error::UseAfterFree("entry write locked while trying to read"))
    );
    entry.write_unlock();
    assert_eq!(entry.read_lock(), Ok(0));
    let _ = WRITE_LOCK_BIT;
}

#[test]
fn next_word_counts_updates() {
    let mut next = Next::new_eol();
    let (index, token) = next.get();
    assert_eq!(index as u64, END_OF_LIST);
    assert!(next.try_update(4, token));
    let (index2, token2) = next.get();
    assert_eq!(index2, 4);
    assert_ne!(token2, token);
    assert!(!next.try_update(5, token));
    assert_eq!(next.get().0, 4);
    let _ = MAX_ENTRIES;
}

#[test]
fn stale_handles_are_caught_until_the_generation_wraps() {
    let mut slab = Slab::new_with_id(4);
    let stale = slab.insert(0u32).unwrap();
    slab.remove(stale).unwrap();
    for k in 1..256u32 {
        let h = slab.insert(k).unwrap();
        assert_eq!(h.index(), stale.index());
        assert_eq!(slab.get_clone(stale), Err(Error::UseAfterFree("generation mismatch")));
        slab.remove(h).unwrap();
    }
    // The 256th re-use brings the generation counter back to the stale handle's
    let h = slab.insert(256).unwrap();
    assert_eq!(h, stale);
    assert_eq!(slab.get_clone(stale), Ok(256));
}

/// A small linear congruential generator, to pick operations reproducibly.
struct Lcg(u64);

impl Lcg {
    fn next_u32(&mut self) -> u32 {
        self.0 = self.0.wrapping_mul(6364136223846793005).wrapping_add(1442695040888963407);
        (self.0 >> 33) as u32
    }
}

#[test]
fn sequential_stress_test() {
    for seed in 0..20u64 {
        let mut rng = Lcg(seed);
        let mut slab = Slab::new_with_id(seed as u8);
        let mut next_value: usize = 0;
        let mut allocated: Vec<(Handle, usize)> = vec![];
        let mut freed: Vec<Handle> = vec![];
        // At most 255 operations, the limit of insertions before use-after-free detection can
        // fail.
        for _ in 0..255 {
            if allocated.is_empty() || rng.next_u32() % 2 == 0 {
                let handle = slab.insert(Arc::new(next_value)).unwrap();
                allocated.push((handle, next_value));
                next_value += 1;
            } else {
                let index = (rng.next_u32() as usize) % allocated.len();
                let (handle, expected) = allocated.remove(index);
                assert_eq!(*slab.remove(handle).unwrap(), expected);
                freed.push(handle);
            }
            for (handle, expected) in allocated.iter() {
                assert_eq!(*slab.get_clone(*handle).unwrap(), *expected);
            }
            for handle in freed.iter() {
                assert!(matches!(slab.get_clone(*handle), Err(Error::UseAfterFree(_))));
            }
        }
    }
}

#[test]
fn handles_from_parts() {
    let h = Handle::new(2 * SLAB_ID_UNIT + GENERATION_UNIT, 17);
    assert_eq!(h.as_raw(), 2 * SLAB_ID_UNIT + GENERATION_UNIT + 17);
    assert_eq!(h.index(), 17);
    assert!(h.is_from_rust());
    assert!(Handle::from_raw(FOREIGN_BIT | 3).is_foreign());
}

#[test]
fn largest_special_value_fills_the_index_bits() {
    let slab = Slab::<u8>::new_with_id(0);
    let h = slab.special_value(294_967_295);
    assert_eq!(h.as_raw(), u32::MAX as u64);
    assert_eq!(h.as_raw(), MAX_ENTRIES + 294_967_295);
    assert_eq!(h.index(), u32::MAX as usize);
    assert!(h.is_from_rust());
}
