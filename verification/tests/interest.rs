use mioecho::interest::recompute_interest;
use mioecho::interest::Interest;

#[test]
fn none_is_the_empty_set() {
    let none = Interest::none();
    assert_eq!(none, Interest { readable: false, writable: false, hup: false });
    assert!(none.is_none());
}

#[test]
fn hup_holds_hangup_alone() {
    let hup = Interest::hup();
    assert_eq!(hup, Interest { readable: false, writable: false, hup: true });
    assert!(!hup.is_none());
}

#[test]
fn is_none_sees_each_condition() {
    assert!(!Interest { readable: true, writable: false, hup: false }.is_none());
    assert!(!Interest { readable: false, writable: true, hup: false }.is_none());
    assert!(!Interest { readable: false, writable: false, hup: true }.is_none());
}

#[test]
fn rule_for_every_case() {
    let set = |readable, writable| Interest { readable, writable, hup: true };
    // empty buffer
    assert_eq!(recompute_interest(0, 16, false), set(true, false));
    assert_eq!(recompute_interest(0, 16, true), set(false, false));
    // partly filled
    assert_eq!(recompute_interest(5, 11, false), set(true, true));
    assert_eq!(recompute_interest(5, 11, true), set(false, true));
    // full
    assert_eq!(recompute_interest(16, 0, false), set(false, true));
    assert_eq!(recompute_interest(16, 0, true), set(false, true));
}

#[test]
fn rule_is_never_empty() {
    for buffered in [0usize, 1, 7] {
        for free in [0usize, 1, 9] {
            for peer in [false, true] {
                assert!(!recompute_interest(buffered, free, peer).is_none());
                assert!(recompute_interest(buffered, free, peer).hup);
            }
        }
    }
}
