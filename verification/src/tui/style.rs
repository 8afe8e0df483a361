//! How the dashboard shows text: the tone of a log line, and a text cut to
//! a width.

use vstd::prelude::*;
use vstd::string::*;
use vstd::utf8::{decode_utf8, encode_utf8, encode_utf8_decode_utf8, is_char_boundary};

verus! {

/// True iff `needle` occurs in `hay` at position `at`.
pub open spec fn occurs_at(needle: Seq<u8>, hay: Seq<u8>, at: int) -> bool {
    0 <= at && at + needle.len() <= hay.len() && hay.subrange(at, at + needle.len()) == needle
}

/// True iff `needle` occurs somewhere in `hay`.
pub open spec fn occurs(needle: Seq<u8>, hay: Seq<u8>) -> bool {
    exists|at: int| occurs_at(needle, hay, at)
}

/// True iff the text `hay` holds the text `needle`: the bytes of the one
/// occur among the bytes of the other.
pub open spec fn holds_text(hay: Seq<char>, needle: Seq<char>) -> bool {
    occurs(encode_utf8(needle), encode_utf8(hay))
}

/// True when `hay` holds `needle`.
pub fn contains_text(hay: &str, needle: &str) -> (found: bool)
    ensures
        found == holds_text(hay@, needle@),
{
    let h = hay.as_bytes();
    let n = needle.as_bytes();
    if n.len() > h.len() {
        assert forall|at: int| !occurs_at(n@, h@, at) by {}
        return false;
    }
    assert(h.len() <= usize::MAX);
    let last = h.len() - n.len();
    let mut at: usize = 0;
    while at <= last
        invariant
            at <= last + 1,
            last == h@.len() - n@.len(),
            h@.len() <= usize::MAX,
            h@ == encode_utf8(hay@),
            n@ == encode_utf8(needle@),
            forall|k: int| 0 <= k < at ==> !occurs_at(n@, h@, k),
        decreases last + 1 - at,
    {
        let mut j: usize = 0;
        while j < n.len() && h[at + j] == n[j]
            invariant
                j <= n@.len(),
                at + n@.len() <= h@.len(),
                h@.len() <= usize::MAX,
                forall|k: int| 0 <= k < j ==> h@[at + k] == n@[k],
            decreases n@.len() - j,
        {
            j += 1;
        }
        if j == n.len() {
            assert(h@.subrange(at as int, at + n@.len()) =~= n@);
            assert(occurs_at(n@, h@, at as int));
            return true;
        }
        assert(!occurs_at(n@, h@, at as int)) by {
            if occurs_at(n@, h@, at as int) {
                assert(h@.subrange(at as int, at + n@.len())[j as int] == n@[j as int]);
            }
        }
        at += 1;
    }
    assert forall|k: int| !occurs_at(n@, h@, k) by {}
    false
}

/// The tone in which a log line is shown.
#[derive(Debug, Clone, Copy, PartialEq, Eq, Structural)]
pub enum TrafficTone {
    /// Finalised blocks and adopted chains.
    Bright,
    /// Transactions, new connections and starts.
    Primary,
    /// Blocks.
    Block,
    /// Disconnections, stops and errors.
    Danger,
    /// Everything else.
    Muted,
}

/// The tone of the log line `msg`, by the words it holds; the first rule
/// that applies decides.
pub open spec fn tone_of(msg: Seq<char>) -> TrafficTone {
    if holds_text(msg, "finalised"@) || holds_text(msg, "synced"@) {
        TrafficTone::Bright
    } else if holds_text(msg, "Transaction"@) || holds_text(msg, "transaction"@) {
        TrafficTone::Primary
    } else if holds_text(msg, "Block"@) || holds_text(msg, "block"@) {
        TrafficTone::Block
    } else if (holds_text(msg, "connected"@) && !holds_text(msg, "dis"@)) || holds_text(
        msg,
        "started"@,
    ) {
        TrafficTone::Primary
    } else if holds_text(msg, "disconnected"@) || holds_text(msg, "stopped"@) || holds_text(
        msg,
        "error"@,
    ) {
        TrafficTone::Danger
    } else {
        TrafficTone::Muted
    }
}

/// The tone in which the log line `msg` is shown.
pub fn traffic_tone(msg: &str) -> (tone: TrafficTone)
    ensures
        tone == tone_of(msg@),
{
    if contains_text(msg, "finalised") || contains_text(msg, "synced") {
        TrafficTone::Bright
    } else if contains_text(msg, "Transaction") || contains_text(msg, "transaction") {
        TrafficTone::Primary
    } else if contains_text(msg, "Block") || contains_text(msg, "block") {
        TrafficTone::Block
    } else if (contains_text(msg, "connected") && !contains_text(msg, "dis")) || contains_text(
        msg,
        "started",
    ) {
        TrafficTone::Primary
    } else if contains_text(msg, "disconnected") || contains_text(msg, "stopped")
        || contains_text(msg, "error") {
        TrafficTone::Danger
    } else {
        TrafficTone::Muted
    }
}

/// The number of bytes kept of a text that is cut to `max` bytes: one less
/// than `max`, to leave room for the ellipsis.
pub open spec fn cut_length(max: usize) -> int {
    if max == 0 {
        0
    } else {
        max - 1
    }
}

/// True iff `s` can be cut to `max` bytes: it is short enough to stay as it
/// is, or the cut falls between two characters.
pub open spec fn can_truncate(s: Seq<char>, max: usize) -> bool {
    encode_utf8(s).len() > max ==> is_char_boundary(encode_utf8(s), cut_length(max))
}

/// `s` cut to `max` bytes: `s` itself if it has no more, else the
/// characters of its first `max - 1` bytes and an ellipsis.
pub open spec fn truncated(s: Seq<char>, max: usize) -> Seq<char> {
    if encode_utf8(s).len() <= max {
        s
    } else {
        decode_utf8(encode_utf8(s).subrange(0, cut_length(max))) + "…"@
    }
}

/// Cuts `s` to `max` bytes for display.
pub fn truncate(s: &str, max: usize) -> (r: String)
    requires
        can_truncate(s@, max),
    ensures
        r@ == truncated(s@, max),
{
    let bytes = s.as_bytes();
    if bytes.len() <= max {
        s.to_owned()
    } else {
        let cut = if max == 0 {
            0
        } else {
            max - 1
        };
        let (head, _) = s.split_at(cut);
        proof {
            encode_utf8_decode_utf8(head@);
        }
        head.to_owned().concat("…")
    }
}

} // verus!
