//! The inbound side of the wire codec, and the scanning primitives the
//! whole codec shares.
//!
//! Frames are single text frames held as bytes, expected in compact form
//! (no whitespace between tokens), which is what the endpoint emits.
//! Anything an inbound frame's grammar does not cover is absorbed by the
//! tolerance policy: the frame is classified `Ignored` and dropped.
//!
//! The grammar is defined by spec functions on `Seq<u8>`; every executable
//! scanner and parser is proved to return exactly what the grammar says.

use vstd::prelude::*;

use crate::model::Message;
use crate::model::MessageView;

verus! {

pub const QUOTE: u8 = 34;
pub const COMMA: u8 = 44;
pub const COLON: u8 = 58;
pub const BSLASH: u8 = 92;
pub const SLASH: u8 = 47;
pub const LBRACE: u8 = 123;
pub const RBRACE: u8 = 125;
pub const LBRACKET: u8 = 91;
pub const RBRACKET: u8 = 93;

// ---------------------------------------------------------------------------
// Fixed byte strings: heartbeat tokens and the envelope's member keys.
// ---------------------------------------------------------------------------

/// The liveness probe frame, `ping` as bytes.
pub open spec fn ping_seq() -> Seq<u8> {
    seq![112u8, 105u8, 110u8, 103u8]
}

/// The heartbeat-acknowledgement frame, `pong` as bytes.
pub open spec fn pong_seq() -> Seq<u8> {
    seq![112u8, 111u8, 110u8, 103u8]
}

/// The member key `topic` as bytes.
pub open spec fn topic_key() -> Seq<u8> {
    seq![116u8, 111u8, 112u8, 105u8, 99u8]
}

/// The member key `type` as bytes.
pub open spec fn type_key() -> Seq<u8> {
    seq![116u8, 121u8, 112u8, 101u8]
}

/// The member key `timestamp` as bytes.
pub open spec fn timestamp_key() -> Seq<u8> {
    seq![116u8, 105u8, 109u8, 101u8, 115u8, 116u8, 97u8, 109u8, 112u8]
}

/// The member key `payload` as bytes.
pub open spec fn payload_key() -> Seq<u8> {
    seq![112u8, 97u8, 121u8, 108u8, 111u8, 97u8, 100u8]
}

/// The member key `connection_id` as bytes.
pub open spec fn connection_id_key() -> Seq<u8> {
    seq![99u8, 111u8, 110u8, 110u8, 101u8, 99u8, 116u8, 105u8, 111u8, 110u8, 95u8, 105u8, 100u8]
}

/// Builds the liveness probe frame, `ping` as bytes.
pub fn ping_frame() -> (r: Vec<u8>)
    ensures
        r@ == ping_seq(),
{
    let r: Vec<u8> = vec![112u8, 105u8, 110u8, 103u8];
    proof {
        assert(r@ =~= ping_seq());
    }
    r
}

pub(crate) fn topic_key_vec() -> (r: Vec<u8>)
    ensures
        r@ == topic_key(),
{
    let r: Vec<u8> = vec![116u8, 111u8, 112u8, 105u8, 99u8];
    proof {
        assert(r@ =~= topic_key());
    }
    r
}

pub(crate) fn type_key_vec() -> (r: Vec<u8>)
    ensures
        r@ == type_key(),
{
    let r: Vec<u8> = vec![116u8, 121u8, 112u8, 101u8];
    proof {
        assert(r@ =~= type_key());
    }
    r
}

fn timestamp_key_vec() -> (r: Vec<u8>)
    ensures
        r@ == timestamp_key(),
{
    let r: Vec<u8> = vec![116u8, 105u8, 109u8, 101u8, 115u8, 116u8, 97u8, 109u8, 112u8];
    proof {
        assert(r@ =~= timestamp_key());
    }
    r
}

fn payload_key_vec() -> (r: Vec<u8>)
    ensures
        r@ == payload_key(),
{
    let r: Vec<u8> = vec![112u8, 97u8, 121u8, 108u8, 111u8, 97u8, 100u8];
    proof {
        assert(r@ =~= payload_key());
    }
    r
}

fn connection_id_key_vec() -> (r: Vec<u8>)
    ensures
        r@ == connection_id_key(),
{
    let r: Vec<u8> = vec![
        99u8, 111u8, 110u8, 110u8, 101u8, 99u8, 116u8, 105u8, 111u8, 110u8, 95u8, 105u8, 100u8,
    ];
    proof {
        assert(r@ =~= connection_id_key());
    }
    r
}

/// Byte-for-byte equality of two byte vectors.
pub fn bytes_eq(a: &Vec<u8>, b: &Vec<u8>) -> (r: bool)
    ensures
        r == (a@ == b@),
{
    if a.len() != b.len() {
        return false;
    }
    let mut i: usize = 0;
    while i < a.len()
        invariant
            i <= a.len(),
            a@.len() == b@.len(),
            forall|j: int| 0 <= j < i ==> a@[j] == b@[j],
        decreases a.len() - i,
    {
        if a[i] != b[i] {
            return false;
        }
        i = i + 1;
    }
    proof {
        assert(a@ =~= b@);
    }
    true
}

// ---------------------------------------------------------------------------
// The inbound frame grammar, as spec functions.
// ---------------------------------------------------------------------------

/// Whether `b` is a decimal digit.
pub open spec fn is_digit(b: u8) -> bool {
    48 <= b <= 57
}

/// Whether `b` is a hexadecimal digit.
pub open spec fn is_hex(b: u8) -> bool {
    is_digit(b) || (97 <= b <= 102) || (65 <= b <= 70)
}

/// The value of a hexadecimal digit.
pub open spec fn hex_val(b: u8) -> u8 {
    if is_digit(b) {
        (b - 48) as u8
    } else if 97 <= b <= 102 {
        (b - 87) as u8
    } else {
        (b - 55) as u8
    }
}

/// Scans the content of a string token. `i` points at the first byte after
/// the opening quote; the result is the unescaped content together with the
/// position just past the closing quote. Accepts the short escapes, and
/// `\u00XX` for a single byte; raw bytes below `0x20` and other escapes are
/// not part of the grammar.
pub open spec fn scan_string(s: Seq<u8>, i: int) -> Option<(Seq<u8>, int)>
    decreases s.len() - i,
{
    if !(0 <= i < s.len()) {
        None
    } else if s[i] == QUOTE {
        Some((Seq::empty(), i + 1))
    } else if s[i] == BSLASH {
        if i + 1 >= s.len() {
            None
        } else {
            let e = s[i + 1];
            if e == QUOTE || e == BSLASH || e == SLASH {
                match scan_string(s, i + 2) {
                    Some(cj) => Some((seq![e] + cj.0, cj.1)),
                    None => None,
                }
            } else if e == 110u8 || e == 116u8 || e == 114u8 || e == 98u8 || e == 102u8 {
                let decoded: u8 = if e == 110u8 {
                    10u8
                } else if e == 116u8 {
                    9u8
                } else if e == 114u8 {
                    13u8
                } else if e == 98u8 {
                    8u8
                } else {
                    12u8
                };
                match scan_string(s, i + 2) {
                    Some(cj) => Some((seq![decoded] + cj.0, cj.1)),
                    None => None,
                }
            } else if e == 117u8 {
                if i + 6 > s.len() {
                    None
                } else if s[i + 2] == 48u8 && s[i + 3] == 48u8 && is_hex(s[i + 4]) && is_hex(
                    s[i + 5],
                ) {
                    let decoded: u8 = (hex_val(s[i + 4]) * 16 + hex_val(s[i + 5])) as u8;
                    match scan_string(s, i + 6) {
                        Some(cj) => Some((seq![decoded] + cj.0, cj.1)),
                        None => None,
                    }
                } else {
                    None
                }
            } else {
                None
            }
        }
    } else if s[i] >= 32 {
        match scan_string(s, i + 1) {
            Some(cj) => Some((seq![s[i]] + cj.0, cj.1)),
            None => None,
        }
    } else {
        None
    }
}

/// The end of the run of decimal digits starting at `i`.
pub open spec fn digit_run_end(s: Seq<u8>, i: int) -> int
    decreases s.len() - i,
{
    if 0 <= i < s.len() && is_digit(s[i]) {
        digit_run_end(s, i + 1)
    } else {
        i
    }
}

/// The value of a sequence of decimal digits.
pub open spec fn dec_val(s: Seq<u8>) -> nat
    decreases s.len(),
{
    if s.len() == 0 {
        0
    } else {
        dec_val(s.drop_last()) * 10 + (s.last() - 48) as nat
    }
}

/// Scans an unsigned decimal number: a run of one to nineteen digits, so
/// that the value always fits in a `u64`.
pub open spec fn scan_u64(s: Seq<u8>, i: int) -> Option<(u64, int)> {
    let j = digit_run_end(s, i);
    if i < j && j - i <= 19 {
        Some((dec_val(s.subrange(i, j)) as u64, j))
    } else {
        None
    }
}

/// Whether `b` can appear in an unquoted primitive token (a number, `true`,
/// `false` or `null`).
pub open spec fn is_primitive_byte(b: u8) -> bool {
    b != QUOTE && b != COMMA && b != COLON && b != LBRACE && b != RBRACE && b != LBRACKET && b
        != RBRACKET && b > 32
}

/// The end of the run of primitive bytes starting at `i`.
pub open spec fn primitive_run_end(s: Seq<u8>, i: int) -> int
    decreases s.len() - i,
{
    if 0 <= i < s.len() && is_primitive_byte(s[i]) {
        primitive_run_end(s, i + 1)
    } else {
        i
    }
}

/// Scans to the close of a nested structured value: `depth` open brackets
/// are pending, and the scanner is inside a string when `in_str` (with a
/// pending escape when `esc`). Returns the position just past the byte that
/// closes the outermost bracket.
pub open spec fn scan_nest(s: Seq<u8>, i: int, depth: nat, in_str: bool, esc: bool) -> Option<int>
    decreases s.len() - i,
{
    if !(0 <= i < s.len()) {
        None
    } else {
        let b = s[i];
        if in_str {
            if esc {
                scan_nest(s, i + 1, depth, true, false)
            } else if b == BSLASH {
                scan_nest(s, i + 1, depth, true, true)
            } else if b == QUOTE {
                scan_nest(s, i + 1, depth, false, false)
            } else {
                scan_nest(s, i + 1, depth, true, false)
            }
        } else if b == QUOTE {
            scan_nest(s, i + 1, depth, true, false)
        } else if b == LBRACE || b == LBRACKET {
            scan_nest(s, i + 1, depth + 1, false, false)
        } else if b == RBRACE || b == RBRACKET {
            if depth == 1 {
                Some(i + 1)
            } else {
                scan_nest(s, i + 1, (depth - 1) as nat, false, false)
            }
        } else {
            scan_nest(s, i + 1, depth, false, false)
        }
    }
}

/// Skips one structured value starting at `i`: an object or array, a string,
/// or a primitive token. Returns the position just past it.
pub open spec fn skip_value(s: Seq<u8>, i: int) -> Option<int> {
    if !(0 <= i < s.len()) {
        None
    } else if s[i] == LBRACE || s[i] == LBRACKET {
        scan_nest(s, i + 1, 1, false, false)
    } else if s[i] == QUOTE {
        match scan_string(s, i + 1) {
            Some(cj) => Some(cj.1),
            None => None,
        }
    } else if is_primitive_byte(s[i]) {
        Some(primitive_run_end(s, i))
    } else {
        None
    }
}

/// The fields of the envelope collected so far while its members are parsed.
#[verifier::ext_equal]
pub ghost struct PartialView {
    pub topic: Option<Seq<u8>>,
    pub kind: Option<Seq<u8>>,
    pub timestamp: Option<u64>,
    pub payload: Option<Seq<u8>>,
    pub connection_id: Option<Seq<u8>>,
}

/// The empty partial envelope.
pub open spec fn empty_partial() -> PartialView {
    PartialView { topic: None, kind: None, timestamp: None, payload: None, connection_id: None }
}

/// The finished envelope, if every field was seen.
pub open spec fn finish_partial(p: PartialView) -> Option<MessageView> {
    if p.topic is Some && p.kind is Some && p.timestamp is Some && p.payload is Some
        && p.connection_id is Some {
        Some(
            MessageView {
                topic: p.topic->0,
                kind: p.kind->0,
                timestamp: p.timestamp->0,
                payload: p.payload->0,
                connection_id: p.connection_id->0,
            },
        )
    } else {
        None
    }
}

/// Parses the members of the envelope object from `i` (just past `{` or a
/// `,`). A member whose key is one of the envelope's fields contributes that
/// field, and seeing the same field twice is an error; any other member is
/// skipped. The `payload` field keeps the bytes of its value verbatim.
pub open spec fn parse_members(s: Seq<u8>, i: int, p: PartialView, fuel: nat) -> Option<
    (MessageView, int),
>
    decreases fuel,
{
    if fuel == 0 {
        None
    } else if !(0 <= i < s.len() && s[i] == QUOTE) {
        None
    } else {
        match scan_string(s, i + 1) {
            None => None,
            Some(kj) => {
                let key = kj.0;
                let j = kj.1;
                if !(0 <= j < s.len() && s[j] == COLON) {
                    None
                } else {
                    let v = j + 1;
                    let step: Option<(PartialView, int)> = if key == topic_key() {
                        if p.topic is Some {
                            None
                        } else if 0 <= v < s.len() && s[v] == QUOTE {
                            match scan_string(s, v + 1) {
                                Some(cw) => Some(
                                    (PartialView { topic: Some(cw.0), ..p }, cw.1),
                                ),
                                None => None,
                            }
                        } else {
                            None
                        }
                    } else if key == type_key() {
                        if p.kind is Some {
                            None
                        } else if 0 <= v < s.len() && s[v] == QUOTE {
                            match scan_string(s, v + 1) {
                                Some(cw) => Some((PartialView { kind: Some(cw.0), ..p }, cw.1)),
                                None => None,
                            }
                        } else {
                            None
                        }
                    } else if key == connection_id_key() {
                        if p.connection_id is Some {
                            None
                        } else if 0 <= v < s.len() && s[v] == QUOTE {
                            match scan_string(s, v + 1) {
                                Some(cw) => Some(
                                    (PartialView { connection_id: Some(cw.0), ..p }, cw.1),
                                ),
                                None => None,
                            }
                        } else {
                            None
                        }
                    } else if key == timestamp_key() {
                        if p.timestamp is Some {
                            None
                        } else {
                            match scan_u64(s, v) {
                                Some(tw) => Some(
                                    (PartialView { timestamp: Some(tw.0), ..p }, tw.1),
                                ),
                                None => None,
                            }
                        }
                    } else if key == payload_key() {
                        if p.payload is Some {
                            None
                        } else {
                            match skip_value(s, v) {
                                Some(w) => Some(
                                    (PartialView { payload: Some(s.subrange(v, w)), ..p }, w),
                                ),
                                None => None,
                            }
                        }
                    } else {
                        match skip_value(s, v) {
                            Some(w) => Some((p, w)),
                            None => None,
                        }
                    };
                    match step {
                        None => None,
                        Some(pw) => {
                            let p2 = pw.0;
                            let w = pw.1;
                            if !(0 <= w < s.len()) {
                                None
                            } else if s[w] == COMMA {
                                parse_members(s, w + 1, p2, (fuel - 1) as nat)
                            } else if s[w] == RBRACE {
                                match finish_partial(p2) {
                                    Some(m) => Some((m, w + 1)),
                                    None => None,
                                }
                            } else {
                                None
                            }
                        },
                    }
                }
            },
        }
    }
}

/// Decodes a whole frame as an envelope: a compact object whose members give
/// all five fields, with nothing after the closing brace.
pub open spec fn decode_envelope(s: Seq<u8>) -> Option<MessageView> {
    if s.len() >= 1 && s[0] == LBRACE {
        match parse_members(s, 1, empty_partial(), s.len() as nat) {
            Some(me) => if me.1 == s.len() {
                Some(me.0)
            } else {
                None
            },
            None => None,
        }
    } else {
        None
    }
}

/// Whether the payload marker (the key `payload`) occurs at position `k`.
pub open spec fn marker_at(s: Seq<u8>, k: int) -> bool {
    0 <= k && k + 7 <= s.len() && s.subrange(k, k + 7) == payload_key()
}

/// Whether the frame text contains the payload marker anywhere; only such
/// frames are candidates for envelope decoding.
pub open spec fn contains_payload_marker(s: Seq<u8>) -> bool {
    exists|k: int| marker_at(s, k)
}

/// How the connection loop treats one inbound text frame.
#[verifier::ext_equal]
pub ghost enum FrameClassView {
    /// The heartbeat acknowledgement: discarded silently.
    HeartbeatAck,
    /// A decoded envelope: delivered to the message callback.
    Data(MessageView),
    /// Anything else: dropped by the tolerance policy.
    Ignored,
}

/// The classification of one inbound text frame: the heartbeat
/// acknowledgement is recognized first; then any frame that carries the
/// payload marker and decodes as an envelope is data; everything else is
/// ignored.
pub open spec fn spec_classify(s: Seq<u8>) -> FrameClassView {
    if s == pong_seq() {
        FrameClassView::HeartbeatAck
    } else if contains_payload_marker(s) {
        match decode_envelope(s) {
            Some(m) => FrameClassView::Data(m),
            None => FrameClassView::Ignored,
        }
    } else {
        FrameClassView::Ignored
    }
}

} // verus!

verus! {

/// Ten to the power `n`.
pub open spec fn pow10(n: nat) -> nat
    decreases n,
{
    if n == 0 {
        1
    } else {
        10 * pow10((n - 1) as nat)
    }
}

proof fn lemma_pow10_mono(a: nat, b: nat)
    requires
        a <= b,
    ensures
        pow10(a) <= pow10(b),
    decreases b,
{
    if a < b {
        lemma_pow10_mono(a, (b - 1) as nat);
    }
}

/// Scans the content of a string token, appending the unescaped content to
/// `out`. Returns the position just past the closing quote.
pub(crate) fn scan_string_x(s: &Vec<u8>, i: usize, out: &mut Vec<u8>) -> (r: Option<usize>)
    requires
        i <= s@.len(),
    ensures
        match scan_string(s@, i as int) {
            Some(cj) => r matches Some(j) && j as int == cj.1 && i < j <= s@.len()
                && final(out)@ == old(out)@ + cj.0,
            None => r is None,
        },
    decreases s@.len() - i,
{
    if i >= s.len() {
        return None;
    }
    let b = s[i];
    if b == QUOTE {
        proof {
            assert(old(out)@ + Seq::<u8>::empty() =~= old(out)@);
        }
        Some(i + 1)
    } else if b == BSLASH {
        if i + 1 >= s.len() {
            return None;
        }
        let e = s[i + 1];
        if e == QUOTE || e == BSLASH || e == SLASH {
            out.push(e);
            let r = scan_string_x(s, i + 2, out);
            proof {
                if let Some(cj) = scan_string(s@, i + 2) {
                    assert(old(out)@ + (seq![e] + cj.0) =~= (old(out)@ + seq![e]) + cj.0);
                }
            }
            r
        } else if e == 110u8 || e == 116u8 || e == 114u8 || e == 98u8 || e == 102u8 {
            let decoded: u8 = if e == 110u8 {
                10u8
            } else if e == 116u8 {
                9u8
            } else if e == 114u8 {
                13u8
            } else if e == 98u8 {
                8u8
            } else {
                12u8
            };
            out.push(decoded);
            let r = scan_string_x(s, i + 2, out);
            proof {
                if let Some(cj) = scan_string(s@, i + 2) {
                    assert(old(out)@ + (seq![decoded] + cj.0) =~= (old(out)@ + seq![decoded])
                        + cj.0);
                }
            }
            r
        } else if e == 117u8 {
            if s.len() - i < 6 {
                return None;
            }
            let h2 = s[i + 2];
            let h3 = s[i + 3];
            let h4 = s[i + 4];
            let h5 = s[i + 5];
            let hex4 = 48 <= h4 && h4 <= 57 || 97 <= h4 && h4 <= 102 || 65 <= h4 && h4 <= 70;
            let hex5 = 48 <= h5 && h5 <= 57 || 97 <= h5 && h5 <= 102 || 65 <= h5 && h5 <= 70;
            if h2 == 48u8 && h3 == 48u8 && hex4 && hex5 {
                let v4: u8 = if 48 <= h4 && h4 <= 57 {
                    h4 - 48
                } else if 97 <= h4 && h4 <= 102 {
                    h4 - 87
                } else {
                    h4 - 55
                };
                let v5: u8 = if 48 <= h5 && h5 <= 57 {
                    h5 - 48
                } else if 97 <= h5 && h5 <= 102 {
                    h5 - 87
                } else {
                    h5 - 55
                };
                let decoded: u8 = v4 * 16 + v5;
                out.push(decoded);
                let r = scan_string_x(s, i + 6, out);
                proof {
                    if let Some(cj) = scan_string(s@, i + 6) {
                        assert(old(out)@ + (seq![decoded] + cj.0) =~= (old(out)@ + seq![decoded])
                            + cj.0);
                    }
                }
                r
            } else {
                None
            }
        } else {
            None
        }
    } else if b >= 32 {
        out.push(b);
        let r = scan_string_x(s, i + 1, out);
        proof {
            if let Some(cj) = scan_string(s@, i + 1) {
                assert(old(out)@ + (seq![b] + cj.0) =~= (old(out)@ + seq![b]) + cj.0);
            }
        }
        r
    } else {
        None
    }
}

/// Scans an unsigned decimal number at `i`.
fn scan_u64_x(s: &Vec<u8>, i: usize) -> (r: Option<(u64, usize)>)
    requires
        i <= s@.len(),
    ensures
        match scan_u64(s@, i as int) {
            Some(tj) => r matches Some(x) && x.0 == tj.0 && x.1 as int == tj.1 && i < x.1
                <= s@.len(),
            None => r is None,
        },
{
    let mut j: usize = i;
    while j < s.len() && 48 <= s[j] && s[j] <= 57
        invariant
            i <= j <= s@.len(),
            digit_run_end(s@, i as int) == digit_run_end(s@, j as int),
            forall|t: int| i <= t < j ==> is_digit(s@[t]),
        decreases s@.len() - j,
    {
        j = j + 1;
    }
    proof {
        assert(digit_run_end(s@, j as int) == j);
    }
    if j == i {
        return None;
    }
    if j - i > 19 {
        return None;
    }
    let mut acc: u64 = 0;
    let mut k: usize = i;
    proof {
        assert(s@.subrange(i as int, i as int) =~= Seq::<u8>::empty());
    }
    while k < j
        invariant
            i <= k <= j <= s@.len(),
            j - i <= 19,
            forall|t: int| i <= t < j ==> is_digit(s@[t]),
            acc == dec_val(s@.subrange(i as int, k as int)),
            acc < pow10((k - i) as nat),
        decreases j - k,
    {
        let d: u8 = s[k] - 48;
        proof {
            lemma_pow10_mono((k - i) as nat, 18);
            assert(pow10(19) == 10000000000000000000) by {
                reveal_with_fuel(pow10, 20);
            }
            assert(pow10(((k + 1) - i) as nat) == 10 * pow10((k - i) as nat));
            assert(s@.subrange(i as int, k + 1).drop_last() =~= s@.subrange(i as int, k as int));
        }
        acc = acc * 10 + (d as u64);
        k = k + 1;
    }
    proof {
        assert(s@.subrange(i as int, j as int) == s@.subrange(i as int, k as int));
    }
    Some((acc, j))
}

/// Scans to the close of a structured value whose opening bracket was just
/// consumed at `i - 1`.
fn scan_nest_x(s: &Vec<u8>, i: usize) -> (r: Option<usize>)
    requires
        1 <= i <= s@.len(),
    ensures
        match scan_nest(s@, i as int, 1, false, false) {
            Some(j) => r matches Some(x) && x as int == j && i < x <= s@.len(),
            None => r is None,
        },
{
    let mut k: usize = i;
    let mut depth: usize = 1;
    let mut in_str: bool = false;
    let mut esc: bool = false;
    while k < s.len()
        invariant
            1 <= i <= k <= s@.len(),
            1 <= depth <= k - i + 1,
            !in_str ==> !esc,
            scan_nest(s@, i as int, 1, false, false) == scan_nest(
                s@,
                k as int,
                depth as nat,
                in_str,
                esc,
            ),
        decreases s@.len() - k,
    {
        let ghost k0 = k as int;
        let ghost d0 = depth as nat;
        let ghost is0 = in_str;
        let ghost e0 = esc;
        let b = s[k];
        if in_str {
            if esc {
                esc = false;
            } else if b == BSLASH {
                esc = true;
            } else if b == QUOTE {
                in_str = false;
            }
        } else if b == QUOTE {
            in_str = true;
        } else if b == LBRACE || b == LBRACKET {
            proof {
                assert(depth < s@.len());
            }
            depth = depth + 1;
        } else if b == RBRACE || b == RBRACKET {
            if depth == 1 {
                proof {
                    assert(scan_nest(s@, k0, d0, is0, e0) == Some(k0 + 1));
                }
                return Some(k + 1);
            }
            depth = depth - 1;
        }
        k = k + 1;
        proof {
            assert(scan_nest(s@, k0, d0, is0, e0) == scan_nest(
                s@,
                k as int,
                depth as nat,
                in_str,
                esc,
            ));
        }
    }
    None
}

/// Skips one structured value starting at `i`.
fn skip_value_x(s: &Vec<u8>, i: usize) -> (r: Option<usize>)
    requires
        i <= s@.len(),
    ensures
        match skip_value(s@, i as int) {
            Some(j) => r matches Some(x) && x as int == j && i < x <= s@.len(),
            None => r is None,
        },
{
    if i >= s.len() {
        return None;
    }
    let b = s[i];
    if b == LBRACE || b == LBRACKET {
        scan_nest_x(s, i + 1)
    } else if b == QUOTE {
        let mut discard: Vec<u8> = Vec::new();
        scan_string_x(s, i + 1, &mut discard)
    } else if b != COMMA && b != COLON && b != RBRACE && b != RBRACKET && b > 32 {
        let mut j: usize = i;
        while j < s.len() && s[j] != QUOTE && s[j] != COMMA && s[j] != COLON && s[j] != LBRACE
            && s[j] != RBRACE && s[j] != LBRACKET && s[j] != RBRACKET && s[j] > 32
            invariant
                i <= j <= s@.len(),
                primitive_run_end(s@, i as int) == primitive_run_end(s@, j as int),
            decreases s@.len() - j,
        {
            j = j + 1;
        }
        proof {
            assert(primitive_run_end(s@, j as int) == j);
        }
        Some(j)
    } else {
        None
    }
}

/// Copies `s[a..b]` into a fresh vector.
fn copy_range(s: &Vec<u8>, a: usize, b: usize) -> (r: Vec<u8>)
    requires
        a <= b <= s@.len(),
    ensures
        r@ == s@.subrange(a as int, b as int),
{
    let mut r: Vec<u8> = Vec::new();
    let mut t: usize = a;
    while t < b
        invariant
            a <= t <= b <= s@.len(),
            r@ == s@.subrange(a as int, t as int),
        decreases b - t,
    {
        let x = s[t];
        r.push(x);
        proof {
            assert(s@.subrange(a as int, t as int).push(x) =~= s@.subrange(a as int, t + 1));
        }
        t = t + 1;
    }
    r
}

/// The envelope fields collected so far by the member parser.
struct PartialMessage {
    topic: Option<Vec<u8>>,
    kind: Option<Vec<u8>>,
    timestamp: Option<u64>,
    payload: Option<Vec<u8>>,
    connection_id: Option<Vec<u8>>,
}

spec fn partial_message_view(p: PartialMessage) -> PartialView {
    PartialView {
        topic: match p.topic {
            Some(v) => Some(v@),
            None => None,
        },
        kind: match p.kind {
            Some(v) => Some(v@),
            None => None,
        },
        timestamp: p.timestamp,
        payload: match p.payload {
            Some(v) => Some(v@),
            None => None,
        },
        connection_id: match p.connection_id {
            Some(v) => Some(v@),
            None => None,
        },
    }
}

/// Parses the members of the envelope object from `i`.
#[verifier::rlimit(50)]
fn parse_members_x(s: &Vec<u8>, i: usize, p: PartialMessage, fuel: usize) -> (r: Option<
    (Message, usize),
>)
    requires
        i <= s@.len(),
    ensures
        match parse_members(s@, i as int, partial_message_view(p), fuel as nat) {
            Some(me) => r matches Some(x) && x.0@ == me.0 && x.1 as int == me.1,
            None => r is None,
        },
    decreases fuel,
{
    if fuel == 0 {
        return None;
    }
    if i >= s.len() {
        return None;
    }
    if s[i] != QUOTE {
        return None;
    }
    let mut key: Vec<u8> = Vec::new();
    let j = match scan_string_x(s, i + 1, &mut key) {
        Some(j) => j,
        None => {
            return None;
        },
    };
    if j >= s.len() {
        return None;
    }
    if s[j] != COLON {
        return None;
    }
    let v = j + 1;
    let mut p = p;
    let tk = topic_key_vec();
    let yk = type_key_vec();
    let ck = connection_id_key_vec();
    let sk = timestamp_key_vec();
    let pk = payload_key_vec();
    let w: usize;
    if bytes_eq(&key, &tk) {
        if p.topic.is_some() {
            return None;
        }
        if v >= s.len() {
            return None;
        }
        if s[v] != QUOTE {
            return None;
        }
        let mut val: Vec<u8> = Vec::new();
        match scan_string_x(s, v + 1, &mut val) {
            Some(x) => {
                p.topic = Some(val);
                w = x;
            },
            None => {
                return None;
            },
        }
    } else if bytes_eq(&key, &yk) {
        if p.kind.is_some() {
            return None;
        }
        if v >= s.len() {
            return None;
        }
        if s[v] != QUOTE {
            return None;
        }
        let mut val: Vec<u8> = Vec::new();
        match scan_string_x(s, v + 1, &mut val) {
            Some(x) => {
                p.kind = Some(val);
                w = x;
            },
            None => {
                return None;
            },
        }
    } else if bytes_eq(&key, &ck) {
        if p.connection_id.is_some() {
            return None;
        }
        if v >= s.len() {
            return None;
        }
        if s[v] != QUOTE {
            return None;
        }
        let mut val: Vec<u8> = Vec::new();
        match scan_string_x(s, v + 1, &mut val) {
            Some(x) => {
                p.connection_id = Some(val);
                w = x;
            },
            None => {
                return None;
            },
        }
    } else if bytes_eq(&key, &sk) {
        if p.timestamp.is_some() {
            return None;
        }
        match scan_u64_x(s, v) {
            Some(x) => {
                p.timestamp = Some(x.0);
                w = x.1;
            },
            None => {
                return None;
            },
        }
    } else if bytes_eq(&key, &pk) {
        if p.payload.is_some() {
            return None;
        }
        match skip_value_x(s, v) {
            Some(x) => {
                p.payload = Some(copy_range(s, v, x));
                w = x;
            },
            None => {
                return None;
            },
        }
    } else {
        match skip_value_x(s, v) {
            Some(x) => {
                w = x;
            },
            None => {
                return None;
            },
        }
    }
    if w >= s.len() {
        return None;
    }
    if s[w] == COMMA {
        parse_members_x(s, w + 1, p, fuel - 1)
    } else if s[w] == RBRACE {
        match (p.topic, p.kind, p.timestamp, p.payload, p.connection_id) {
            (Some(topic), Some(kind), Some(timestamp), Some(payload), Some(connection_id)) => Some(
                (Message { topic, kind, timestamp, payload, connection_id }, w + 1),
            ),
            _ => None,
        }
    } else {
        None
    }
}

/// Decodes a whole frame as an envelope, if the frame's grammar allows it.
pub fn decode_frame(s: &Vec<u8>) -> (r: Option<Message>)
    ensures
        match decode_envelope(s@) {
            Some(m) => r matches Some(x) && x@ == m,
            None => r is None,
        },
{
    if s.len() < 1 {
        return None;
    }
    if s[0] != LBRACE {
        return None;
    }
    let p = PartialMessage {
        topic: None,
        kind: None,
        timestamp: None,
        payload: None,
        connection_id: None,
    };
    proof {
        assert(partial_message_view(p) =~= empty_partial());
    }
    match parse_members_x(s, 1, p, s.len()) {
        Some(me) => if me.1 == s.len() {
            Some(me.0)
        } else {
            None
        },
        None => None,
    }
}

/// Whether the frame text contains the payload marker.
fn find_marker(s: &Vec<u8>) -> (r: bool)
    ensures
        r == contains_payload_marker(s@),
{
    if s.len() < 7 {
        proof {
            assert(forall|k: int| !marker_at(s@, k));
        }
        return false;
    }
    let mut k: usize = 0;
    while k <= s.len() - 7
        invariant
            7 <= s@.len(),
            k <= s@.len(),
            forall|t: int| 0 <= t < k ==> !marker_at(s@, t),
        decreases s@.len() - k,
    {
        if s[k] == 112 && s[k + 1] == 97 && s[k + 2] == 121 && s[k + 3] == 108 && s[k + 4] == 111
            && s[k + 5] == 97 && s[k + 6] == 100 {
            proof {
                assert(s@.subrange(k as int, k as int + 7) =~= payload_key());
                assert(marker_at(s@, k as int));
            }
            return true;
        }
        proof {
            if marker_at(s@, k as int) {
                let sub = s@.subrange(k as int, k as int + 7);
                assert(sub[0] == payload_key()[0]);
                assert(sub[1] == payload_key()[1]);
                assert(sub[2] == payload_key()[2]);
                assert(sub[3] == payload_key()[3]);
                assert(sub[4] == payload_key()[4]);
                assert(sub[5] == payload_key()[5]);
                assert(sub[6] == payload_key()[6]);
                assert(false);
            }
        }
        k = k + 1;
    }
    proof {
        assert(forall|t: int| marker_at(s@, t) ==> 0 <= t < k);
    }
    false
}

/// How the connection loop treats one inbound text frame.
pub enum FrameClass {
    /// The heartbeat acknowledgement: discarded silently.
    HeartbeatAck,
    /// A decoded envelope: delivered to the message callback.
    Data(Message),
    /// Anything else: dropped by the tolerance policy.
    Ignored,
}

impl View for FrameClass {
    type V = FrameClassView;

    open spec fn view(&self) -> FrameClassView {
        match self {
            FrameClass::HeartbeatAck => FrameClassView::HeartbeatAck,
            FrameClass::Data(m) => FrameClassView::Data(m@),
            FrameClass::Ignored => FrameClassView::Ignored,
        }
    }
}

/// Classifies one inbound text frame exactly as the grammar says.
pub fn classify_frame(s: &Vec<u8>) -> (r: FrameClass)
    ensures
        r@ == spec_classify(s@),
{
    let pong: Vec<u8> = vec![112u8, 111u8, 110u8, 103u8];
    proof {
        assert(pong@ =~= pong_seq());
    }
    if bytes_eq(s, &pong) {
        return FrameClass::HeartbeatAck;
    }
    if !find_marker(s) {
        return FrameClass::Ignored;
    }
    match decode_frame(s) {
        Some(m) => FrameClass::Data(m),
        None => FrameClass::Ignored,
    }
}

} // verus!
