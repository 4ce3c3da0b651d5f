use polymarket_mm_bot::executor::{needs_new_market, next_persist_tick, starts_new_window, QuotePhase};

#[test]
fn kill_has_priority() {
    assert_eq!(QuotePhase::of(true, 200, 30), QuotePhase::Kill);
    assert_eq!(QuotePhase::of(true, 10, 30), QuotePhase::Kill);
    assert!(!QuotePhase::of(true, 200, 30).trades());
}

#[test]
fn panic_stop_in_last_seconds() {
    assert_eq!(QuotePhase::of(false, 30, 30), QuotePhase::Panic);
    assert_eq!(QuotePhase::of(false, -5, 30), QuotePhase::Panic);
    assert_eq!(QuotePhase::of(false, 31, 30), QuotePhase::Quote);
    assert!(QuotePhase::of(false, 31, 30).trades());
    assert!(!QuotePhase::of(false, 30, 30).trades());
}

#[test]
fn phase_labels() {
    assert_eq!(QuotePhase::Kill.label(), "KILL");
    assert_eq!(QuotePhase::Panic.label(), "PANIC");
    assert_eq!(QuotePhase::Quote.label(), "quote");
}

#[test]
fn market_rollover() {
    assert!(needs_new_market(None));
    assert!(needs_new_market(Some(0)));
    assert!(needs_new_market(Some(-3)));
    assert!(!needs_new_market(Some(1)));
}

#[test]
fn new_window_on_slug_change() {
    assert!(starts_new_window(None, "btc-updown-5m-1"));
    assert!(starts_new_window(Some("btc-updown-5m-1"), "btc-updown-5m-2"));
    assert!(!starts_new_window(Some("btc-updown-5m-1"), "btc-updown-5m-1"));
}

#[test]
fn persist_every_fifth_tick() {
    let mut count = 0u32;
    let mut saves = Vec::new();
    for _ in 0..12 {
        let (next, due) = next_persist_tick(count);
        count = next;
        if due {
            saves.push(count);
        }
    }
    assert_eq!(saves, vec![5, 10]);
    assert_eq!(count, 12);
}
