use vstd::prelude::*;

verus! {

/// Byte that carries a kill signal on the wire (`'K'`).
pub const KILL_BYTE: u8 = 0x4B;

/// Byte that carries a heartbeat on the wire (`'H'`).
pub const HEARTBEAT_BYTE: u8 = 0x48;

/// Signals sent from the radar node to the executor node; each one travels
/// as a single byte.
#[derive(Debug, Clone, Copy, PartialEq, Eq, Structural)]
pub enum Signal {
    Kill,
    Heartbeat,
}

/// The byte that stands for a signal on the wire.
pub open spec fn signal_byte(s: Signal) -> u8 {
    match s {
        Signal::Kill => KILL_BYTE,
        Signal::Heartbeat => HEARTBEAT_BYTE,
    }
}

/// The signal that a received byte stands for, if any.
pub open spec fn signal_of_byte(b: u8) -> Option<Signal> {
    if b == KILL_BYTE {
        Some(Signal::Kill)
    } else if b == HEARTBEAT_BYTE {
        Some(Signal::Heartbeat)
    } else {
        None
    }
}

impl Signal {
    /// Encodes the signal as its single wire byte.
    pub fn to_byte(self) -> (b: u8)
        ensures
            b == signal_byte(self),
    {
        match self {
            Signal::Kill => KILL_BYTE,
            Signal::Heartbeat => HEARTBEAT_BYTE,
        }
    }

    /// Decodes a wire byte; any byte other than the two signal bytes is
    /// rejected with `None`.
    pub fn from_byte(b: u8) -> (s: Option<Signal>)
        ensures
            s == signal_of_byte(b),
    {
        if b == KILL_BYTE {
            Some(Signal::Kill)
        } else if b == HEARTBEAT_BYTE {
            Some(Signal::Heartbeat)
        } else {
            None
        }
    }
}

/// Decoding the byte of a signal gives that signal back.
pub proof fn lemma_signal_roundtrip(s: Signal)
    ensures
        signal_of_byte(signal_byte(s)) == Some(s),
{
}

/// Two different signals never share a byte.
pub proof fn lemma_signal_bytes_distinct(s: Signal, t: Signal)
    requires
        s != t,
    ensures
        signal_byte(s) != signal_byte(t),
{
}

/// A byte that decodes to a signal is exactly that signal's byte.
pub proof fn lemma_decoded_byte_is_signal_byte(b: u8)
    ensures
        signal_of_byte(b) matches Some(s) ==> signal_byte(s) == b,
{
}

} // verus!
