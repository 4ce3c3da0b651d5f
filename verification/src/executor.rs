use vstd::prelude::*;

use crate::text::text_eq;

verus! {

/// What the executor does on a tick of its quoting loop.
#[derive(Debug, Clone, Copy, PartialEq, Eq, Structural)]
pub enum QuotePhase {
    /// A kill signal from the radar is in force: quotes are pulled.
    Kill,
    /// The market is about to close: quotes are pulled.
    Panic,
    /// Maker fills are simulated and fresh quotes are posted.
    Quote,
}

/// The phase for a tick: a kill pause wins over everything, then the
/// panic stop when no more than `panic_stop_secs` seconds remain, else quoting.
pub open spec fn spec_phase(paused: bool, remaining_s: i64, panic_stop_secs: i64) -> QuotePhase {
    if paused {
        QuotePhase::Kill
    } else if remaining_s <= panic_stop_secs {
        QuotePhase::Panic
    } else {
        QuotePhase::Quote
    }
}

impl QuotePhase {
    /// The phase of a tick, from the kill pause and the seconds left in the market.
    pub fn of(paused: bool, remaining_s: i64, panic_stop_secs: i64) -> (p: QuotePhase)
        ensures
            p == spec_phase(paused, remaining_s, panic_stop_secs),
            (p == QuotePhase::Kill) == paused,
            (p == QuotePhase::Panic) == (!paused && remaining_s <= panic_stop_secs),
            (p == QuotePhase::Quote) == (!paused && remaining_s > panic_stop_secs),
    {
        if paused {
            QuotePhase::Kill
        } else if remaining_s <= panic_stop_secs {
            QuotePhase::Panic
        } else {
            QuotePhase::Quote
        }
    }

    /// Whether the tick simulates fills and posts quotes (otherwise the
    /// posted quotes are cleared).
    pub fn trades(self) -> (b: bool)
        ensures
            b == (self == QuotePhase::Quote),
    {
        match self {
            QuotePhase::Quote => true,
            _ => false,
        }
    }

    /// The state name written to the log for the tick.
    pub fn label(self) -> (t: &'static str)
        ensures
            t@ == (match self {
                QuotePhase::Kill => "KILL"@,
                QuotePhase::Panic => "PANIC"@,
                QuotePhase::Quote => "quote"@,
            }),
    {
        match self {
            QuotePhase::Kill => "KILL",
            QuotePhase::Panic => "PANIC",
            QuotePhase::Quote => "quote",
        }
    }
}

/// The gating law: a tick trades exactly when no kill pause is in force
/// and more than the panic-stop delay is left before the market closes.
pub proof fn lemma_trades_iff_open(paused: bool, remaining_s: i64, panic_stop_secs: i64)
    ensures
        (spec_phase(paused, remaining_s, panic_stop_secs) == QuotePhase::Quote) <==> (!paused
            && remaining_s > panic_stop_secs),
        paused ==> spec_phase(paused, remaining_s, panic_stop_secs) == QuotePhase::Kill,
{
}

/// The three phases of a tick, each by its cause: the kill phase exactly
/// when a kill pause is in force, the panic phase exactly when there is no
/// pause and no more than the panic-stop delay is left, and quoting
/// otherwise.
pub proof fn lemma_phase_causes(paused: bool, remaining_s: i64, panic_stop_secs: i64)
    ensures
        (spec_phase(paused, remaining_s, panic_stop_secs) == QuotePhase::Kill) <==> paused,
        (spec_phase(paused, remaining_s, panic_stop_secs) == QuotePhase::Panic) <==> (!paused
            && remaining_s <= panic_stop_secs),
        (spec_phase(paused, remaining_s, panic_stop_secs) == QuotePhase::Quote) <==> (!paused
            && remaining_s > panic_stop_secs),
{
}

/// How the phase moves with the time left: under a kill pause the time does
/// not matter, a panic stop stays a panic stop with less time left, and a
/// quoting tick stays quoting with more time left.
pub proof fn lemma_phase_monotone(paused: bool, r1: i64, r2: i64, panic_stop_secs: i64)
    requires
        r1 <= r2,
    ensures
        paused ==> spec_phase(paused, r1, panic_stop_secs) == spec_phase(paused, r2, panic_stop_secs),
        spec_phase(paused, r2, panic_stop_secs) == QuotePhase::Panic ==> spec_phase(paused, r1, panic_stop_secs) == QuotePhase::Panic,
        spec_phase(paused, r1, panic_stop_secs) == QuotePhase::Quote ==> spec_phase(paused, r2, panic_stop_secs) == QuotePhase::Quote,
{
}

/// Whether the loop must settle the current market and look for the next
/// one: when there is no market yet, or its time is up.
pub fn needs_new_market(remaining_s: Option<i64>) -> (b: bool)
    ensures
        b == (match remaining_s {
            None => true,
            Some(r) => r <= 0,
        }),
{
    match remaining_s {
        None => true,
        Some(r) => r <= 0,
    }
}

/// Whether a market's slug opens a new bankroll window: it does unless it
/// is the slug the last window was opened for.
pub fn starts_new_window(last_slug: Option<&str>, slug: &str) -> (b: bool)
    ensures
        b == (match last_slug {
            None => true,
            Some(l) => l@ != slug@,
        }),
{
    match last_slug {
        None => true,
        Some(l) => !text_eq(l, slug),
    }
}

/// How many ticks pass between two saves of the paper state.
pub const PERSIST_EVERY: u32 = 5;

/// Counts one more tick; the state is saved on every fifth tick.
pub fn next_persist_tick(count: u32) -> (r: (u32, bool))
    requires
        count < u32::MAX,
    ensures
        r.0 == count + 1,
        r.1 == (r.0 % PERSIST_EVERY == 0),
{
    let next = count + 1;
    (next, next % PERSIST_EVERY == 0)
}

} // verus!
