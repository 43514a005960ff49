//! Orderings of atomic operations.

use glyph::atomic::{validate_compare_exchange_orderings, AtomicOrdering};

#[test]
fn rejects_invalid_load_and_store_orderings() {
    assert!(!AtomicOrdering::Release.valid_for_load());
    assert!(!AtomicOrdering::AcqRel.valid_for_load());
    assert!(!AtomicOrdering::Acquire.valid_for_store());
    assert!(!AtomicOrdering::AcqRel.valid_for_store());
    assert!(AtomicOrdering::SeqCst.valid_for_load());
    assert!(AtomicOrdering::SeqCst.valid_for_store());
}

#[test]
fn validates_compare_exchange_ordering_pairs() {
    assert!(
        validate_compare_exchange_orderings(AtomicOrdering::SeqCst, AtomicOrdering::Acquire,)
            .is_ok()
    );
    assert!(
        validate_compare_exchange_orderings(AtomicOrdering::AcqRel, AtomicOrdering::Acquire,)
            .is_ok()
    );
    assert!(
        validate_compare_exchange_orderings(AtomicOrdering::Acquire, AtomicOrdering::SeqCst,)
            .is_err()
    );
    assert!(
        validate_compare_exchange_orderings(AtomicOrdering::SeqCst, AtomicOrdering::Release,)
            .is_err()
    );
}

#[test]
fn compare_exchange_ordering_matrix_matches_the_memory_model() {
    let valid = [
        (AtomicOrdering::Relaxed, AtomicOrdering::Relaxed),
        (AtomicOrdering::Acquire, AtomicOrdering::Relaxed),
        (AtomicOrdering::Acquire, AtomicOrdering::Acquire),
        (AtomicOrdering::Release, AtomicOrdering::Relaxed),
        (AtomicOrdering::AcqRel, AtomicOrdering::Relaxed),
        (AtomicOrdering::AcqRel, AtomicOrdering::Acquire),
        (AtomicOrdering::SeqCst, AtomicOrdering::Relaxed),
        (AtomicOrdering::SeqCst, AtomicOrdering::Acquire),
        (AtomicOrdering::SeqCst, AtomicOrdering::SeqCst),
    ];
    let invalid = [
        (AtomicOrdering::Relaxed, AtomicOrdering::Acquire),
        (AtomicOrdering::Relaxed, AtomicOrdering::SeqCst),
        (AtomicOrdering::Acquire, AtomicOrdering::SeqCst),
        (AtomicOrdering::Release, AtomicOrdering::Acquire),
        (AtomicOrdering::Release, AtomicOrdering::SeqCst),
        (AtomicOrdering::AcqRel, AtomicOrdering::SeqCst),
        (AtomicOrdering::SeqCst, AtomicOrdering::Release),
        (AtomicOrdering::SeqCst, AtomicOrdering::AcqRel),
    ];

    for (success, failure) in valid {
        assert!(
            validate_compare_exchange_orderings(success, failure).is_ok(),
            "expected {success:?}/{failure:?} to be valid"
        );
    }
    for (success, failure) in invalid {
        assert!(
            validate_compare_exchange_orderings(success, failure).is_err(),
            "expected {success:?}/{failure:?} to be invalid"
        );
    }
}
