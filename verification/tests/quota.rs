use agentbed::clock::current_day;
use agentbed::quota::{QuotaLedger, Window};

#[test]
fn admits_up_to_the_limit_and_counts_per_agent() {
    let mut ledger = QuotaLedger::default();
    assert!(ledger.try_admit("a", Some(2)));
    assert!(ledger.try_admit("a", Some(2)));
    assert!(!ledger.try_admit("a", Some(2)), "the third call exceeds a limit of two");

    // A different agent has its own budget.
    assert!(ledger.try_admit("b", Some(2)));
    assert_eq!(ledger.admitted_today("a"), 2);
    assert_eq!(ledger.admitted_today("b"), 1);
}

#[test]
fn a_zero_limit_admits_nothing() {
    let mut ledger = QuotaLedger::default();
    assert!(!ledger.try_admit("a", Some(0)));
    assert_eq!(ledger.admitted_today("a"), 0);
}

#[test]
fn an_absent_limit_admits_but_still_counts() {
    let mut ledger = QuotaLedger::default();
    assert!(ledger.try_admit("a", None));
    assert!(ledger.try_admit("a", None));
    assert_eq!(ledger.admitted_today("a"), 2);
}

#[test]
fn a_stale_window_rolls_over_but_a_backwards_clock_does_not() {
    let mut ledger = QuotaLedger::default();
    assert!(ledger.try_admit("a", Some(1)));
    assert!(!ledger.try_admit("a", Some(1)));

    // Yesterday's window rolls over: today's budget is fresh.
    ledger.set_window("a", Window { day: current_day().saturating_sub(1), used: 1 });
    assert!(ledger.try_admit("a", Some(1)), "a new day grants a new budget");

    // A window dated in the future (clock stepped back) must NOT reset.
    ledger.set_window("a", Window { day: current_day().saturating_add(1), used: 1 });
    assert!(!ledger.try_admit("a", Some(1)), "a backwards clock must not refill the budget");
}

#[test]
fn a_window_for_a_given_day_counts_exactly() {
    let mut ledger = QuotaLedger::new();
    assert!(ledger.try_admit_on("x", Some(3), 100));
    assert!(ledger.try_admit_on("x", Some(3), 100));
    assert_eq!(ledger.admitted_on("x", 100), 2);
    // The next day starts a fresh window.
    assert!(ledger.try_admit_on("x", Some(1), 101));
    assert_eq!(ledger.admitted_on("x", 101), 1);
    assert!(!ledger.try_admit_on("x", Some(1), 101));
    // An earlier day than the window's reads the window as current.
    assert!(!ledger.try_admit_on("x", Some(1), 50));
    assert_eq!(ledger.admitted_on("y", 101), 0);
}
