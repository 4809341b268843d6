//! Telling a barcode scanner's keystrokes from typing: a scanner types a
//! code fast and ends it with Enter. Keys pressed within a short gap of each
//! other gather in a buffer; Enter hands the buffer out when it holds at
//! least two bytes typed within the allowed burst, and clears it otherwise.
use vstd::prelude::*;
use vstd::utf8::encode_utf8;

verus! {

/// Longest time, in milliseconds, from a burst's first key to Enter.
pub const MAX_SEQUENCE_MS: u64 = 800;

/// Longest pause, in milliseconds, between two keys of one burst.
pub const MAX_GAP_MS: u64 = 50;

/// Fewest bytes in a scanned code.
pub const MIN_BARCODE_LEN: usize = 2;

/// The key of a key event, as far as scanning tells keys apart.
#[derive(Debug, Clone, Copy, PartialEq, Eq, Structural)]
pub enum KeyKind {
    Return,
    KpReturn,
    Other,
}

/// What happened on the keyboard.
#[derive(Debug, Clone, Copy, PartialEq, Eq, Structural)]
pub enum EventKind {
    KeyPress(KeyKind),
    Other,
}

/// A keyboard event with the text its key typed, if any.
#[derive(Debug, Clone)]
pub struct ScanEvent {
    pub kind: EventKind,
    pub name: Option<String>,
}

/// The burst being gathered. Times are in milliseconds of a monotonic clock.
#[derive(Debug, Clone)]
pub struct ScannerState {
    pub buffer: String,
    pub first_ts: Option<u64>,
    pub last_ts: u64,
}

/// Time from `from` to `to`, none when `to` is earlier.
pub open spec fn elapsed(from: u64, to: u64) -> int {
    if to >= from {
        to - from
    } else {
        0
    }
}

/// Whether a key ends a code.
pub open spec fn is_enter_spec(k: KeyKind) -> bool {
    k == KeyKind::Return || k == KeyKind::KpReturn
}

/// The state and output after an event at `now`, over the buffer's text.
pub open spec fn scan_step(
    buffer: Seq<char>,
    first_ts: Option<u64>,
    last_ts: u64,
    kind: EventKind,
    name: Option<Seq<char>>,
    now: u64,
) -> (Seq<char>, Option<u64>, u64, Option<Seq<char>>) {
    match kind {
        EventKind::Other => (buffer, first_ts, last_ts, None),
        EventKind::KeyPress(k) => if is_enter_spec(k) {
            if encode_utf8(buffer).len() >= MIN_BARCODE_LEN && first_ts is Some && elapsed(first_ts->0, now)
                < MAX_SEQUENCE_MS {
                (Seq::empty(), None, last_ts, Some(buffer))
            } else {
                (Seq::empty(), None, last_ts, None)
            }
        } else {
            let (b, f) = if elapsed(last_ts, now) > MAX_GAP_MS {
                (Seq::<char>::empty(), None::<u64>)
            } else {
                (buffer, first_ts)
            };
            match name {
                Some(n) => if n.len() > 0 {
                    (b + n, if f is Some {
                        f
                    } else {
                        Some(now)
                    }, now, None)
                } else {
                    (b, f, last_ts, None)
                },
                None => (b, f, last_ts, None),
            }
        },
    }
}

impl ScannerState {
    /// An empty buffer, with the last key taken to be at `now`.
    pub fn new(now: u64) -> (r: ScannerState)
        ensures
            r.buffer@.len() == 0,
            r.first_ts is None,
            r.last_ts == now,
    {
        ScannerState { buffer: String::new(), first_ts: None, last_ts: now }
    }
}

/// Whether a key ends a code.
pub fn is_enter(key: KeyKind) -> (r: bool)
    ensures
        r == is_enter_spec(key),
{
    match key {
        KeyKind::Return | KeyKind::KpReturn => true,
        KeyKind::Other => false,
    }
}

fn since(from: u64, to: u64) -> (r: u64)
    ensures
        r == elapsed(from, to),
{
    if to >= from {
        to - from
    } else {
        0
    }
}

/// Feeds one event at `now`; a completed scan comes out.
pub fn process_event(event: ScanEvent, state: &mut ScannerState, now: u64) -> (r: Option<String>)
    ensures
        ({
            let (b, f, l, out) = scan_step(
                old(state).buffer@,
                old(state).first_ts,
                old(state).last_ts,
                event.kind,
                match event.name {
                    Some(n) => Some(n@),
                    None => None,
                },
                now,
            );
            &&& final(state).buffer@ == b
            &&& final(state).first_ts == f
            &&& final(state).last_ts == l
            &&& match r {
                Some(s) => out == Some(s@),
                None => out is None,
            }
        }),
{
    let key = match event.kind {
        EventKind::KeyPress(k) => k,
        EventKind::Other => return None,
    };
    if is_enter(key) {
        if state.buffer.as_str().as_bytes().len() >= MIN_BARCODE_LEN {
            if let Some(first) = state.first_ts {
                if since(first, now) < MAX_SEQUENCE_MS {
                    let code = state.buffer.clone();
                    state.buffer = String::new();
                    state.first_ts = None;
                    return Some(code);
                }
            }
        }
        state.buffer = String::new();
        state.first_ts = None;
        return None;
    }
    if since(state.last_ts, now) > MAX_GAP_MS {
        state.buffer = String::new();
        state.first_ts = None;
    }
    if let Some(name) = &event.name {
        if name.as_str().unicode_len() > 0 {
            state.buffer.append(name.as_str());
            if state.first_ts.is_none() {
                state.first_ts = Some(now);
            }
            state.last_ts = now;
        }
    }
    None
}

} // verus!
