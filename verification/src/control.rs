//! Outbound control frames: the subscribe/unsubscribe wire form.
//!
//! A control frame renders a [`SubscriptionAction`] as one compact object:
//! the `action` tag, then `subscriptions` as an array of objects with the
//! fields `topic`, `type` and — when present — `filters`, `clob_auth` and
//! `gamma_auth`. The encoder is canonical (fixed field order, no
//! whitespace); the decoder reads that canonical form back, and decoding an
//! encoded frame is proved to return exactly the value that was encoded.

use vstd::prelude::*;

use crate::codec::BSLASH;
use crate::codec::COLON;
use crate::codec::COMMA;
use crate::codec::LBRACE;
use crate::codec::LBRACKET;
use crate::codec::QUOTE;
use crate::codec::RBRACE;
use crate::codec::RBRACKET;
use crate::codec::SLASH;
use crate::codec::hex_val;
use crate::codec::is_hex;
use crate::codec::topic_key;
use crate::codec::type_key;
use crate::model::ClobApiKeyCredsView;
use crate::model::GammaAuthView;
use crate::model::SubscriptionActionView;
use crate::model::SubscriptionView;

verus! {

/// The member key `action` as bytes.
pub open spec fn action_key() -> Seq<u8> {
    seq![97u8, 99u8, 116u8, 105u8, 111u8, 110u8]
}

/// The member key `subscriptions` as bytes.
pub open spec fn subscriptions_key() -> Seq<u8> {
    seq![
        115u8, 117u8, 98u8, 115u8, 99u8, 114u8, 105u8, 112u8, 116u8, 105u8, 111u8, 110u8, 115u8,
    ]
}

/// The member key `filters` as bytes.
pub open spec fn filters_key() -> Seq<u8> {
    seq![102u8, 105u8, 108u8, 116u8, 101u8, 114u8, 115u8]
}

/// The member key `clob_auth` as bytes.
pub open spec fn clob_auth_key() -> Seq<u8> {
    seq![99u8, 108u8, 111u8, 98u8, 95u8, 97u8, 117u8, 116u8, 104u8]
}

/// The member key `gamma_auth` as bytes.
pub open spec fn gamma_auth_key() -> Seq<u8> {
    seq![103u8, 97u8, 109u8, 109u8, 97u8, 95u8, 97u8, 117u8, 116u8, 104u8]
}

/// The member key `key` as bytes.
pub open spec fn key_key() -> Seq<u8> {
    seq![107u8, 101u8, 121u8]
}

/// The member key `secret` as bytes.
pub open spec fn secret_key() -> Seq<u8> {
    seq![115u8, 101u8, 99u8, 114u8, 101u8, 116u8]
}

/// The member key `passphrase` as bytes.
pub open spec fn passphrase_key() -> Seq<u8> {
    seq![112u8, 97u8, 115u8, 115u8, 112u8, 104u8, 114u8, 97u8, 115u8, 101u8]
}

/// The member key `address` as bytes.
pub open spec fn address_key() -> Seq<u8> {
    seq![97u8, 100u8, 100u8, 114u8, 101u8, 115u8, 115u8]
}

/// A rendered member key: the key quoted, followed by the colon.
pub open spec fn lit_key(k: Seq<u8>) -> Seq<u8> {
    seq![QUOTE] + k + seq![QUOTE, COLON]
}

/// The lower-case hexadecimal digit of a value below sixteen.
pub open spec fn hex_digit(v: u8) -> u8
    recommends
        v < 16,
{
    if v < 10 {
        (48 + v) as u8
    } else {
        (87 + v) as u8
    }
}

/// The escape of one byte inside a string token: quote and backslash get a
/// backslash, control bytes become `\u00XX`, everything else stands as is.
pub open spec fn esc_byte(b: u8) -> Seq<u8> {
    if b == QUOTE {
        seq![BSLASH, QUOTE]
    } else if b == BSLASH {
        seq![BSLASH, BSLASH]
    } else if b < 32 {
        seq![BSLASH, 117u8, 48u8, 48u8, hex_digit(b / 16), hex_digit(b % 16)]
    } else {
        seq![b]
    }
}

/// The escape of a whole string content.
pub open spec fn esc(s: Seq<u8>) -> Seq<u8>
    decreases s.len(),
{
    if s.len() == 0 {
        Seq::empty()
    } else {
        esc_byte(s[0]) + esc(s.skip(1))
    }
}

/// A string token: the escaped content between quotes.
pub open spec fn quoted(v: Seq<u8>) -> Seq<u8> {
    seq![QUOTE] + esc(v) + seq![QUOTE]
}

/// The encoding of a credentials block.
pub open spec fn enc_creds(c: ClobApiKeyCredsView) -> Seq<u8> {
    seq![LBRACE] + lit_key(key_key()) + quoted(c.key) + seq![COMMA] + lit_key(secret_key())
        + quoted(c.secret) + seq![COMMA] + lit_key(passphrase_key()) + quoted(c.passphrase)
        + seq![RBRACE]
}

/// The encoding of a wallet-address block.
pub open spec fn enc_gamma(g: GammaAuthView) -> Seq<u8> {
    seq![LBRACE] + lit_key(address_key()) + quoted(g.address) + seq![RBRACE]
}

/// The encoding of one subscription object; absent optional fields are
/// left out entirely.
pub open spec fn enc_sub(v: SubscriptionView) -> Seq<u8> {
    seq![LBRACE] + lit_key(topic_key()) + quoted(v.topic) + seq![COMMA] + lit_key(type_key())
        + quoted(v.kind) + (match v.filters {
        Some(f) => seq![COMMA] + lit_key(filters_key()) + quoted(f),
        None => Seq::empty(),
    }) + (match v.clob_auth {
        Some(c) => seq![COMMA] + lit_key(clob_auth_key()) + enc_creds(c),
        None => Seq::empty(),
    }) + (match v.gamma_auth {
        Some(g) => seq![COMMA] + lit_key(gamma_auth_key()) + enc_gamma(g),
        None => Seq::empty(),
    }) + seq![RBRACE]
}

/// The comma-separated encodings of a subscription list.
pub open spec fn enc_items(l: Seq<SubscriptionView>) -> Seq<u8>
    decreases l.len(),
{
    if l.len() == 0 {
        Seq::empty()
    } else if l.len() == 1 {
        enc_sub(l[0])
    } else {
        enc_sub(l[0]) + seq![COMMA] + enc_items(l.skip(1))
    }
}

/// The encoding of a whole control frame.
pub open spec fn enc_action(a: SubscriptionActionView) -> Seq<u8> {
    seq![LBRACE] + lit_key(action_key()) + quoted(a.action) + seq![COMMA] + lit_key(
        subscriptions_key(),
    ) + seq![LBRACKET] + enc_items(a.subscriptions) + seq![RBRACKET, RBRACE]
}

// ---------------------------------------------------------------------------
// The decoder's grammar, consuming from the front of a suffix.
// ---------------------------------------------------------------------------

/// Whether `p` is a prefix of `s`.
pub open spec fn starts_with(s: Seq<u8>, p: Seq<u8>) -> bool {
    p.len() <= s.len() && s.subrange(0, p.len() as int) == p
}

/// Scans a string token's content from the front of `s` (the opening quote
/// already consumed): the unescaped content and the remainder past the
/// closing quote.
pub open spec fn scan_str_s(s: Seq<u8>) -> Option<(Seq<u8>, Seq<u8>)>
    decreases s.len(),
{
    if s.len() == 0 {
        None
    } else if s[0] == QUOTE {
        Some((Seq::empty(), s.skip(1)))
    } else if s[0] == BSLASH {
        if s.len() < 2 {
            None
        } else {
            let e = s[1];
            if e == QUOTE || e == BSLASH || e == SLASH {
                match scan_str_s(s.skip(2)) {
                    Some(cr) => Some((seq![e] + cr.0, cr.1)),
                    None => None,
                }
            } else if e == 110u8 || e == 116u8 || e == 114u8 || e == 98u8 || e == 102u8 {
                let decoded: u8 = if e == 110u8 {
                    10u8
                } else if e == 116u8 {
                    9u8
                } else if e == 114u8 {
                    13u8
                } else if e == 98u8 {
                    8u8
                } else {
                    12u8
                };
                match scan_str_s(s.skip(2)) {
                    Some(cr) => Some((seq![decoded] + cr.0, cr.1)),
                    None => None,
                }
            } else if e == 117u8 {
                if s.len() < 6 {
                    None
                } else if s[2] == 48u8 && s[3] == 48u8 && is_hex(s[4]) && is_hex(s[5]) {
                    let decoded: u8 = (hex_val(s[4]) * 16 + hex_val(s[5])) as u8;
                    match scan_str_s(s.skip(6)) {
                        Some(cr) => Some((seq![decoded] + cr.0, cr.1)),
                        None => None,
                    }
                } else {
                    None
                }
            } else {
                None
            }
        }
    } else if s[0] >= 32 {
        match scan_str_s(s.skip(1)) {
            Some(cr) => Some((seq![s[0]] + cr.0, cr.1)),
            None => None,
        }
    } else {
        None
    }
}

/// Decodes a credentials block from the front of `s`.
pub open spec fn dec_creds_s(s: Seq<u8>) -> Option<(ClobApiKeyCredsView, Seq<u8>)> {
    let p1 = seq![LBRACE] + lit_key(key_key()) + seq![QUOTE];
    if !starts_with(s, p1) {
        None
    } else {
        match scan_str_s(s.skip(p1.len() as int)) {
            None => None,
            Some(kr) => {
                let p2 = seq![COMMA] + lit_key(secret_key()) + seq![QUOTE];
                if !starts_with(kr.1, p2) {
                    None
                } else {
                    match scan_str_s(kr.1.skip(p2.len() as int)) {
                        None => None,
                        Some(sr) => {
                            let p3 = seq![COMMA] + lit_key(passphrase_key()) + seq![QUOTE];
                            if !starts_with(sr.1, p3) {
                                None
                            } else {
                                match scan_str_s(sr.1.skip(p3.len() as int)) {
                                    None => None,
                                    Some(pr) => {
                                        if pr.1.len() >= 1 && pr.1[0] == RBRACE {
                                            Some(
                                                (
                                                    ClobApiKeyCredsView {
                                                        key: kr.0,
                                                        secret: sr.0,
                                                        passphrase: pr.0,
                                                    },
                                                    pr.1.skip(1),
                                                ),
                                            )
                                        } else {
                                            None
                                        }
                                    },
                                }
                            }
                        },
                    }
                }
            },
        }
    }
}

/// Decodes a wallet-address block from the front of `s`.
pub open spec fn dec_gamma_s(s: Seq<u8>) -> Option<(GammaAuthView, Seq<u8>)> {
    let p1 = seq![LBRACE] + lit_key(address_key()) + seq![QUOTE];
    if !starts_with(s, p1) {
        None
    } else {
        match scan_str_s(s.skip(p1.len() as int)) {
            None => None,
            Some(ar) => {
                if ar.1.len() >= 1 && ar.1[0] == RBRACE {
                    Some((GammaAuthView { address: ar.0 }, ar.1.skip(1)))
                } else {
                    None
                }
            },
        }
    }
}

/// Decodes one subscription object from the front of `s`.
pub open spec fn dec_sub_s(s: Seq<u8>) -> Option<(SubscriptionView, Seq<u8>)> {
    let p1 = seq![LBRACE] + lit_key(topic_key()) + seq![QUOTE];
    if !starts_with(s, p1) {
        None
    } else {
        match scan_str_s(s.skip(p1.len() as int)) {
            None => None,
            Some(tr) => {
                let p2 = seq![COMMA] + lit_key(type_key()) + seq![QUOTE];
                if !starts_with(tr.1, p2) {
                    None
                } else {
                    match scan_str_s(tr.1.skip(p2.len() as int)) {
                        None => None,
                        Some(yr) => dec_sub_tail(yr.1, yr.0, tr.0),
                    }
                }
            },
        }
    }
}

/// Finishes a subscription object: expects the closing brace.
pub open spec fn dec_tail_end(
    s: Seq<u8>,
    topic: Seq<u8>,
    kind: Seq<u8>,
    filters: Option<Seq<u8>>,
    clob_auth: Option<ClobApiKeyCredsView>,
    gamma_auth: Option<GammaAuthView>,
) -> Option<(SubscriptionView, Seq<u8>)> {
    if s.len() >= 1 && s[0] == RBRACE {
        Some(
            (
                SubscriptionView { topic, kind, filters, clob_auth, gamma_auth },
                s.skip(1),
            ),
        )
    } else {
        None
    }
}

/// Decodes the optional `gamma_auth` member, then the closing brace.
pub open spec fn dec_tail_gamma(
    s: Seq<u8>,
    topic: Seq<u8>,
    kind: Seq<u8>,
    filters: Option<Seq<u8>>,
    clob_auth: Option<ClobApiKeyCredsView>,
) -> Option<(SubscriptionView, Seq<u8>)> {
    let pg = seq![COMMA] + lit_key(gamma_auth_key());
    if starts_with(s, pg) {
        match dec_gamma_s(s.skip(pg.len() as int)) {
            Some(gr) => dec_tail_end(gr.1, topic, kind, filters, clob_auth, Some(gr.0)),
            None => None,
        }
    } else {
        dec_tail_end(s, topic, kind, filters, clob_auth, None)
    }
}

/// Decodes the optional `clob_auth` member, then what follows it.
pub open spec fn dec_tail_clob(
    s: Seq<u8>,
    topic: Seq<u8>,
    kind: Seq<u8>,
    filters: Option<Seq<u8>>,
) -> Option<(SubscriptionView, Seq<u8>)> {
    let pc = seq![COMMA] + lit_key(clob_auth_key());
    if starts_with(s, pc) {
        match dec_creds_s(s.skip(pc.len() as int)) {
            Some(cr) => dec_tail_gamma(cr.1, topic, kind, filters, Some(cr.0)),
            None => None,
        }
    } else {
        dec_tail_gamma(s, topic, kind, filters, None)
    }
}

/// Decodes the optional fields and the closing brace of a subscription
/// object, the topic and kind already in hand.
pub open spec fn dec_sub_tail(s: Seq<u8>, kind: Seq<u8>, topic: Seq<u8>) -> Option<
    (SubscriptionView, Seq<u8>),
> {
    let pf = seq![COMMA] + lit_key(filters_key()) + seq![QUOTE];
    if starts_with(s, pf) {
        match scan_str_s(s.skip(pf.len() as int)) {
            Some(fr) => dec_tail_clob(fr.1, topic, kind, Some(fr.0)),
            None => None,
        }
    } else {
        dec_tail_clob(s, topic, kind, None)
    }
}

/// Decodes the elements of the subscription array from the front of `s`
/// (the opening bracket already consumed).
pub open spec fn dec_items_s(s: Seq<u8>, fuel: nat) -> Option<(Seq<SubscriptionView>, Seq<u8>)>
    decreases fuel,
{
    if s.len() >= 1 && s[0] == RBRACKET {
        Some((Seq::empty(), s.skip(1)))
    } else if fuel == 0 {
        None
    } else {
        match dec_sub_s(s) {
            None => None,
            Some(vr) => {
                if vr.1.len() >= 1 && vr.1[0] == COMMA {
                    match dec_items_s(vr.1.skip(1), (fuel - 1) as nat) {
                        Some(lr) => Some((seq![vr.0] + lr.0, lr.1)),
                        None => None,
                    }
                } else if vr.1.len() >= 1 && vr.1[0] == RBRACKET {
                    Some((seq![vr.0], vr.1.skip(1)))
                } else {
                    None
                }
            },
        }
    }
}

/// Decodes a whole control frame: the canonical form produced by the
/// encoder, with nothing after the closing brace.
pub open spec fn dec_action(s: Seq<u8>) -> Option<SubscriptionActionView> {
    let p1 = seq![LBRACE] + lit_key(action_key()) + seq![QUOTE];
    if !starts_with(s, p1) {
        None
    } else {
        match scan_str_s(s.skip(p1.len() as int)) {
            None => None,
            Some(ar) => {
                let p2 = seq![COMMA] + lit_key(subscriptions_key()) + seq![LBRACKET];
                if !starts_with(ar.1, p2) {
                    None
                } else {
                    let rest = ar.1.skip(p2.len() as int);
                    match dec_items_s(rest, rest.len()) {
                        None => None,
                        Some(lr) => {
                            if lr.1.len() == 1 && lr.1[0] == RBRACE {
                                Some(
                                    SubscriptionActionView {
                                        action: ar.0,
                                        subscriptions: lr.0,
                                    },
                                )
                            } else {
                                None
                            }
                        },
                    }
                }
            },
        }
    }
}

} // verus!

verus! {

/// A concatenation starts with its first part, and what follows is the
/// second part.
proof fn lemma_prefix(p: Seq<u8>, x: Seq<u8>)
    ensures
        starts_with(p + x, p),
        (p + x).skip(p.len() as int) == x,
{
    assert((p + x).subrange(0, p.len() as int) =~= p);
    assert((p + x).skip(p.len() as int) =~= x);
}

/// A sequence that differs from `p` inside `p`'s length does not start
/// with `p`.
proof fn lemma_differ(s: Seq<u8>, p: Seq<u8>, idx: int)
    requires
        0 <= idx < p.len(),
        idx >= s.len() || s[idx] != p[idx],
    ensures
        !starts_with(s, p),
{
    if starts_with(s, p) {
        assert(s.subrange(0, p.len() as int)[idx] == p[idx]);
    }
}

/// Scanning an escaped content followed by the closing quote returns
/// exactly that content and what follows the quote.
proof fn lemma_scan_esc(c: Seq<u8>, rest: Seq<u8>)
    ensures
        scan_str_s(esc(c) + seq![QUOTE] + rest) == Some((c, rest)),
    decreases c.len(),
{
    let t = esc(c) + seq![QUOTE] + rest;
    if c.len() == 0 {
        assert(esc(c) =~= Seq::<u8>::empty());
        assert(t[0] == QUOTE);
        assert(t.skip(1) =~= rest);
    } else {
        let b = c[0];
        let c2 = c.skip(1);
        let t2 = esc(c2) + seq![QUOTE] + rest;
        assert(esc(c) == esc_byte(b) + esc(c2));
        lemma_scan_esc(c2, rest);
        assert(seq![b] + c2 =~= c);
        if b == QUOTE {
            assert(t =~= seq![BSLASH, QUOTE] + t2);
            assert(t[0] == BSLASH && t[1] == QUOTE);
            assert(t.skip(2) =~= t2);
        } else if b == BSLASH {
            assert(t =~= seq![BSLASH, BSLASH] + t2);
            assert(t[0] == BSLASH && t[1] == BSLASH);
            assert(t.skip(2) =~= t2);
        } else if b < 32 {
            let h1 = hex_digit(b / 16);
            let h2 = hex_digit(b % 16);
            assert(t =~= seq![BSLASH, 117u8, 48u8, 48u8, h1, h2] + t2);
            assert(t[0] == BSLASH && t[1] == 117u8 && t[2] == 48u8 && t[3] == 48u8);
            assert(t[4] == h1 && t[5] == h2);
            assert(b / 16 < 16 && b % 16 < 16);
            assert(is_hex(h1) && is_hex(h2));
            assert(hex_val(h1) == b / 16);
            assert(hex_val(h2) == b % 16);
            assert(b == (b / 16) * 16 + (b % 16));
            assert(t.skip(6) =~= t2);
            assert(t.len() >= 6);
        } else {
            assert(t =~= seq![b] + t2);
            assert(t[0] == b);
            assert(t.skip(1) =~= t2);
        }
    }
}

/// Decoding an encoded credentials block returns exactly that block and
/// what follows it.
proof fn lemma_creds_rt(c: ClobApiKeyCredsView, rest: Seq<u8>)
    ensures
        dec_creds_s(enc_creds(c) + rest) == Some((c, rest)),
{
    let t = enc_creds(c) + rest;
    let r3 = seq![RBRACE] + rest;
    let p3 = seq![COMMA] + lit_key(passphrase_key()) + seq![QUOTE];
    let x3 = esc(c.passphrase) + seq![QUOTE] + r3;
    let r2 = p3 + x3;
    let p2 = seq![COMMA] + lit_key(secret_key()) + seq![QUOTE];
    let x2 = esc(c.secret) + seq![QUOTE] + r2;
    let r1 = p2 + x2;
    let p1 = seq![LBRACE] + lit_key(key_key()) + seq![QUOTE];
    let x1 = esc(c.key) + seq![QUOTE] + r1;
    assert(t =~= p1 + x1);
    lemma_prefix(p1, x1);
    lemma_scan_esc(c.key, r1);
    lemma_prefix(p2, x2);
    lemma_scan_esc(c.secret, r2);
    lemma_prefix(p3, x3);
    lemma_scan_esc(c.passphrase, r3);
    assert(r3[0] == RBRACE);
    assert(r3.skip(1) =~= rest);
    assert(ClobApiKeyCredsView { key: c.key, secret: c.secret, passphrase: c.passphrase } =~= c);
}

/// Decoding an encoded wallet-address block returns exactly that block and
/// what follows it.
proof fn lemma_gamma_rt(g: GammaAuthView, rest: Seq<u8>)
    ensures
        dec_gamma_s(enc_gamma(g) + rest) == Some((g, rest)),
{
    let t = enc_gamma(g) + rest;
    let r1 = seq![RBRACE] + rest;
    let p1 = seq![LBRACE] + lit_key(address_key()) + seq![QUOTE];
    let x1 = esc(g.address) + seq![QUOTE] + r1;
    assert(t =~= p1 + x1);
    lemma_prefix(p1, x1);
    lemma_scan_esc(g.address, r1);
    assert(r1[0] == RBRACE);
    assert(r1.skip(1) =~= rest);
    assert(GammaAuthView { address: g.address } =~= g);
}

/// The encoding of a subscription object's optional fields and closing
/// brace.
pub open spec fn enc_sub_tail(v: SubscriptionView) -> Seq<u8> {
    (match v.filters {
        Some(f) => seq![COMMA] + lit_key(filters_key()) + quoted(f),
        None => Seq::empty(),
    }) + (match v.clob_auth {
        Some(c) => seq![COMMA] + lit_key(clob_auth_key()) + enc_creds(c),
        None => Seq::empty(),
    }) + (match v.gamma_auth {
        Some(g) => seq![COMMA] + lit_key(gamma_auth_key()) + enc_gamma(g),
        None => Seq::empty(),
    }) + seq![RBRACE]
}

/// The fragment an optional `gamma_auth` contributes to the encoding.
pub open spec fn frag_gamma(gamma_auth: Option<GammaAuthView>) -> Seq<u8> {
    match gamma_auth {
        Some(g) => seq![COMMA] + lit_key(gamma_auth_key()) + enc_gamma(g),
        None => Seq::empty(),
    }
}

/// The fragment an optional `clob_auth` contributes to the encoding.
pub open spec fn frag_clob(clob_auth: Option<ClobApiKeyCredsView>) -> Seq<u8> {
    match clob_auth {
        Some(c) => seq![COMMA] + lit_key(clob_auth_key()) + enc_creds(c),
        None => Seq::empty(),
    }
}

/// The fragment an optional `filters` contributes to the encoding.
pub open spec fn frag_filters(filters: Option<Seq<u8>>) -> Seq<u8> {
    match filters {
        Some(f) => seq![COMMA] + lit_key(filters_key()) + quoted(f),
        None => Seq::empty(),
    }
}

#[verifier::rlimit(100)]
#[verifier::spinoff_prover]
proof fn lemma_tail_gamma_rt(
    topic: Seq<u8>,
    kind: Seq<u8>,
    filters: Option<Seq<u8>>,
    clob_auth: Option<ClobApiKeyCredsView>,
    gamma_auth: Option<GammaAuthView>,
    rest: Seq<u8>,
)
    ensures
        dec_tail_gamma(
            frag_gamma(gamma_auth) + seq![RBRACE] + rest,
            topic,
            kind,
            filters,
            clob_auth,
        ) == Some(
            (
                SubscriptionView { topic, kind, filters, clob_auth, gamma_auth },
                rest,
            ),
        ),
{
    let t = frag_gamma(gamma_auth) + seq![RBRACE] + rest;
    let rend = seq![RBRACE] + rest;
    let pg = seq![COMMA] + lit_key(gamma_auth_key());
    if gamma_auth is Some {
        let g = gamma_auth->0;
        let xg = enc_gamma(g) + rend;
        assert(t =~= pg + xg);
        lemma_prefix(pg, xg);
        lemma_gamma_rt(g, rend);
    } else {
        assert(t =~= rend);
        assert(t[0] == RBRACE);
        assert(pg[0] == COMMA);
        lemma_differ(t, pg, 0);
    }
    assert(rend[0] == RBRACE);
    assert(rend.skip(1) =~= rest);
}

#[verifier::rlimit(100)]
#[verifier::spinoff_prover]
proof fn lemma_tail_clob_rt(
    topic: Seq<u8>,
    kind: Seq<u8>,
    filters: Option<Seq<u8>>,
    clob_auth: Option<ClobApiKeyCredsView>,
    gamma_auth: Option<GammaAuthView>,
    rest: Seq<u8>,
)
    ensures
        dec_tail_clob(
            frag_clob(clob_auth) + frag_gamma(gamma_auth) + seq![RBRACE] + rest,
            topic,
            kind,
            filters,
        ) == Some(
            (
                SubscriptionView { topic, kind, filters, clob_auth, gamma_auth },
                rest,
            ),
        ),
{
    let t = frag_clob(clob_auth) + frag_gamma(gamma_auth) + seq![RBRACE] + rest;
    let rg = frag_gamma(gamma_auth) + seq![RBRACE] + rest;
    let pc = seq![COMMA] + lit_key(clob_auth_key());
    lemma_tail_gamma_rt(topic, kind, filters, clob_auth, gamma_auth, rest);
    if clob_auth is Some {
        let c = clob_auth->0;
        let xc = enc_creds(c) + rg;
        assert(t =~= pc + xc);
        lemma_prefix(pc, xc);
        lemma_creds_rt(c, rg);
    } else {
        assert(t =~= rg);
        if gamma_auth is Some {
            assert(t[2] == gamma_auth_key()[0]);
            assert(pc[2] == clob_auth_key()[0]);
            lemma_differ(t, pc, 2);
        } else {
            assert(t =~= seq![RBRACE] + rest);
            assert(t[0] == RBRACE);
            assert(pc[0] == COMMA);
            lemma_differ(t, pc, 0);
        }
    }
}

/// Decoding the encoded tail of a subscription object recovers its
/// optional fields and what follows the object.
#[verifier::rlimit(100)]
#[verifier::spinoff_prover]
proof fn lemma_sub_tail_rt(v: SubscriptionView, rest: Seq<u8>)
    ensures
        dec_sub_tail(enc_sub_tail(v) + rest, v.kind, v.topic) == Some((v, rest)),
{
    let t = enc_sub_tail(v) + rest;
    let rc = frag_clob(v.clob_auth) + frag_gamma(v.gamma_auth) + seq![RBRACE] + rest;
    let pf = seq![COMMA] + lit_key(filters_key()) + seq![QUOTE];
    lemma_tail_clob_rt(v.topic, v.kind, v.filters, v.clob_auth, v.gamma_auth, rest);
    if v.filters is Some {
        let f = v.filters->0;
        let xf = esc(f) + seq![QUOTE] + rc;
        assert(t =~= pf + xf);
        lemma_prefix(pf, xf);
        lemma_scan_esc(f, rc);
    } else {
        assert(t =~= rc);
        if v.clob_auth is Some {
            assert(t[2] == clob_auth_key()[0]);
            assert(pf[2] == filters_key()[0]);
            lemma_differ(t, pf, 2);
        } else if v.gamma_auth is Some {
            assert(t =~= frag_gamma(v.gamma_auth) + seq![RBRACE] + rest);
            assert(t[2] == gamma_auth_key()[0]);
            assert(pf[2] == filters_key()[0]);
            lemma_differ(t, pf, 2);
        } else {
            assert(t =~= seq![RBRACE] + rest);
            assert(t[0] == RBRACE);
            assert(pf[0] == COMMA);
            lemma_differ(t, pf, 0);
        }
    }
    assert(SubscriptionView {
        topic: v.topic,
        kind: v.kind,
        filters: v.filters,
        clob_auth: v.clob_auth,
        gamma_auth: v.gamma_auth,
    } =~= v);
}

/// Decoding an encoded subscription object returns exactly that
/// subscription and what follows it.
#[verifier::rlimit(100)]
#[verifier::spinoff_prover]
proof fn lemma_sub_rt(v: SubscriptionView, rest: Seq<u8>)
    ensures
        dec_sub_s(enc_sub(v) + rest) == Some((v, rest)),
{
    let t = enc_sub(v) + rest;
    let rf = enc_sub_tail(v) + rest;
    let p2 = seq![COMMA] + lit_key(type_key()) + seq![QUOTE];
    let x2 = esc(v.kind) + seq![QUOTE] + rf;
    let r1 = p2 + x2;
    let p1 = seq![LBRACE] + lit_key(topic_key()) + seq![QUOTE];
    let x1 = esc(v.topic) + seq![QUOTE] + r1;
    assert(t =~= p1 + x1);
    lemma_prefix(p1, x1);
    lemma_scan_esc(v.topic, r1);
    lemma_prefix(p2, x2);
    lemma_scan_esc(v.kind, rf);
    lemma_sub_tail_rt(v, rest);
}

/// The encoding of a subscription list is at least as long as the list.
proof fn lemma_enc_items_len(l: Seq<SubscriptionView>)
    ensures
        enc_items(l).len() >= l.len(),
    decreases l.len(),
{
    if l.len() > 1 {
        lemma_enc_items_len(l.skip(1));
    }
}

/// Decoding the encoded elements of a subscription list, followed by the
/// closing bracket, returns exactly that list and what follows the
/// bracket, for any fuel that covers the list.
#[verifier::rlimit(100)]
#[verifier::spinoff_prover]
proof fn lemma_items_rt(l: Seq<SubscriptionView>, rest: Seq<u8>, fuel: nat)
    requires
        fuel >= l.len(),
    ensures
        dec_items_s(enc_items(l) + seq![RBRACKET] + rest, fuel) == Some((l, rest)),
    decreases l.len(),
{
    let t = enc_items(l) + seq![RBRACKET] + rest;
    if l.len() == 0 {
        assert(enc_items(l) =~= Seq::<u8>::empty());
        assert(t[0] == RBRACKET);
        assert(t.skip(1) =~= rest);
        assert(Seq::<SubscriptionView>::empty() =~= l);
    } else if l.len() == 1 {
        let tail = seq![RBRACKET] + rest;
        assert(t =~= enc_sub(l[0]) + tail);
        lemma_sub_rt(l[0], tail);
        assert(enc_sub(l[0])[0] == LBRACE);
        assert(t[0] == LBRACE);
        assert(tail[0] == RBRACKET);
        assert(tail.skip(1) =~= rest);
        assert(seq![l[0]] =~= l);
    } else {
        let tail = seq![COMMA] + (enc_items(l.skip(1)) + seq![RBRACKET] + rest);
        assert(t =~= enc_sub(l[0]) + tail);
        lemma_sub_rt(l[0], tail);
        assert(enc_sub(l[0])[0] == LBRACE);
        assert(t[0] == LBRACE);
        assert(tail[0] == COMMA);
        assert(tail.skip(1) =~= enc_items(l.skip(1)) + seq![RBRACKET] + rest);
        lemma_items_rt(l.skip(1), rest, (fuel - 1) as nat);
        assert(seq![l[0]] + l.skip(1) =~= l);
    }
}

/// Round trip of a control frame: decoding the encoding of any subscribe
/// or unsubscribe action returns exactly the same action tag and the same
/// ordered list of subscriptions.
#[verifier::rlimit(100)]
#[verifier::spinoff_prover]
pub proof fn lemma_control_frame_round_trip(a: SubscriptionActionView)
    ensures
        dec_action(enc_action(a)) == Some(a),
{
    let t = enc_action(a);
    let items = enc_items(a.subscriptions) + seq![RBRACKET] + seq![RBRACE];
    let p2 = seq![COMMA] + lit_key(subscriptions_key()) + seq![LBRACKET];
    let r1 = p2 + items;
    let p1 = seq![LBRACE] + lit_key(action_key()) + seq![QUOTE];
    let x1 = esc(a.action) + seq![QUOTE] + r1;
    assert(t =~= p1 + x1);
    lemma_prefix(p1, x1);
    lemma_scan_esc(a.action, r1);
    lemma_prefix(p2, items);
    lemma_enc_items_len(a.subscriptions);
    lemma_items_rt(a.subscriptions, seq![RBRACE], items.len());
    let fin = seq![RBRACE];
    assert(fin.len() == 1 && fin[0] == RBRACE);
    assert(SubscriptionActionView { action: a.action, subscriptions: a.subscriptions } =~= a);
}

} // verus!

verus! {

/// Escaping distributes over appending one byte at the end.
proof fn lemma_esc_snoc(t: Seq<u8>, b: u8)
    ensures
        esc(t.push(b)) == esc(t) + esc_byte(b),
    decreases t.len(),
{
    let p = t.push(b);
    if t.len() == 0 {
        assert(p[0] == b);
        assert(p.skip(1) =~= Seq::<u8>::empty());
        assert(esc(Seq::<u8>::empty()) =~= Seq::<u8>::empty());
        assert(esc(p) =~= esc_byte(b));
        assert(esc(t) + esc_byte(b) =~= esc_byte(b));
    } else {
        assert(p[0] == t[0]);
        assert(p.skip(1) =~= t.skip(1).push(b));
        lemma_esc_snoc(t.skip(1), b);
        assert(esc_byte(t[0]) + (esc(t.skip(1)) + esc_byte(b)) =~= (esc_byte(t[0]) + esc(
            t.skip(1),
        )) + esc_byte(b));
    }
}

/// The item encoding distributes over appending one subscription.
proof fn lemma_enc_items_snoc(l: Seq<SubscriptionView>, x: SubscriptionView)
    ensures
        enc_items(l.push(x)) == if l.len() == 0 {
            enc_sub(x)
        } else {
            enc_items(l) + seq![COMMA] + enc_sub(x)
        },
    decreases l.len(),
{
    let p = l.push(x);
    if l.len() == 0 {
        assert(p[0] == x);
    } else if l.len() == 1 {
        assert(p[0] == l[0]);
        assert(p.skip(1) =~= seq![x]);
        assert(enc_items(seq![x]) == enc_sub(x));
    } else {
        assert(p[0] == l[0]);
        assert(p.skip(1) =~= l.skip(1).push(x));
        lemma_enc_items_snoc(l.skip(1), x);
        assert(enc_sub(l[0]) + seq![COMMA] + (enc_items(l.skip(1)) + seq![COMMA] + enc_sub(x))
            =~= (enc_sub(l[0]) + seq![COMMA] + enc_items(l.skip(1))) + seq![COMMA] + enc_sub(x));
    }
}

/// Appends every byte of `s` to `out`.
fn push_all(out: &mut Vec<u8>, s: &Vec<u8>)
    ensures
        final(out)@ == old(out)@ + s@,
{
    let mut i: usize = 0;
    while i < s.len()
        invariant
            i <= s@.len(),
            out@ == old(out)@ + s@.take(i as int),
        decreases s@.len() - i,
    {
        let b = s[i];
        out.push(b);
        proof {
            assert(old(out)@ + s@.take(i as int).push(b) =~= old(out)@ + s@.take(i + 1));
        }
        i = i + 1;
    }
    proof {
        assert(s@.take(s@.len() as int) =~= s@);
    }
}

/// Appends the escaped content of `s` to `out`.
fn append_escaped(out: &mut Vec<u8>, s: &Vec<u8>)
    ensures
        final(out)@ == old(out)@ + esc(s@),
{
    let mut i: usize = 0;
    proof {
        assert(esc(s@.take(0)) =~= Seq::<u8>::empty());
        assert(out@ =~= old(out)@ + esc(s@.take(0)));
    }
    while i < s.len()
        invariant
            i <= s@.len(),
            out@ == old(out)@ + esc(s@.take(i as int)),
        decreases s@.len() - i,
    {
        let b = s[i];
        let ghost pre = out@;
        if b == QUOTE {
            out.push(BSLASH);
            out.push(QUOTE);
            proof {
                assert(out@ =~= pre + esc_byte(b));
            }
        } else if b == BSLASH {
            out.push(BSLASH);
            out.push(BSLASH);
            proof {
                assert(out@ =~= pre + esc_byte(b));
            }
        } else if b < 32 {
            let hi = b / 16;
            let lo = b % 16;
            let h1: u8 = if hi < 10 {
                48 + hi
            } else {
                87 + hi
            };
            let h2: u8 = if lo < 10 {
                48 + lo
            } else {
                87 + lo
            };
            out.push(BSLASH);
            out.push(117);
            out.push(48);
            out.push(48);
            out.push(h1);
            out.push(h2);
            proof {
                assert(h1 == hex_digit(b / 16));
                assert(h2 == hex_digit(b % 16));
                assert(out@ =~= pre + esc_byte(b));
            }
        } else {
            out.push(b);
            proof {
                assert(out@ =~= pre + esc_byte(b));
            }
        }
        proof {
            assert(s@.take(i + 1) =~= s@.take(i as int).push(b));
            lemma_esc_snoc(s@.take(i as int), b);
            assert(out@ =~= old(out)@ + esc(s@.take(i + 1)));
        }
        i = i + 1;
    }
    proof {
        assert(s@.take(s@.len() as int) =~= s@);
    }
}

/// Appends a whole string token (quotes and escaped content) to `out`.
fn append_quoted(out: &mut Vec<u8>, s: &Vec<u8>)
    ensures
        final(out)@ == old(out)@ + quoted(s@),
{
    out.push(QUOTE);
    append_escaped(out, s);
    out.push(QUOTE);
    proof {
        assert(out@ =~= old(out)@ + quoted(s@));
    }
}

/// Appends a rendered member key (quoted, with the colon) to `out`.
fn append_lit_key(out: &mut Vec<u8>, k: &Vec<u8>)
    ensures
        final(out)@ == old(out)@ + lit_key(k@),
{
    out.push(QUOTE);
    push_all(out, k);
    out.push(QUOTE);
    out.push(COLON);
    proof {
        assert(out@ =~= old(out)@ + lit_key(k@));
    }
}

fn action_key_vec() -> (r: Vec<u8>)
    ensures
        r@ == action_key(),
{
    let r: Vec<u8> = vec![97u8, 99u8, 116u8, 105u8, 111u8, 110u8];
    proof {
        assert(r@ =~= action_key());
    }
    r
}

fn subscriptions_key_vec() -> (r: Vec<u8>)
    ensures
        r@ == subscriptions_key(),
{
    let r: Vec<u8> = vec![
        115u8, 117u8, 98u8, 115u8, 99u8, 114u8, 105u8, 112u8, 116u8, 105u8, 111u8, 110u8, 115u8,
    ];
    proof {
        assert(r@ =~= subscriptions_key());
    }
    r
}

fn filters_key_vec() -> (r: Vec<u8>)
    ensures
        r@ == filters_key(),
{
    let r: Vec<u8> = vec![102u8, 105u8, 108u8, 116u8, 101u8, 114u8, 115u8];
    proof {
        assert(r@ =~= filters_key());
    }
    r
}

fn clob_auth_key_vec() -> (r: Vec<u8>)
    ensures
        r@ == clob_auth_key(),
{
    let r: Vec<u8> = vec![99u8, 108u8, 111u8, 98u8, 95u8, 97u8, 117u8, 116u8, 104u8];
    proof {
        assert(r@ =~= clob_auth_key());
    }
    r
}

fn gamma_auth_key_vec() -> (r: Vec<u8>)
    ensures
        r@ == gamma_auth_key(),
{
    let r: Vec<u8> = vec![103u8, 97u8, 109u8, 109u8, 97u8, 95u8, 97u8, 117u8, 116u8, 104u8];
    proof {
        assert(r@ =~= gamma_auth_key());
    }
    r
}

fn key_key_vec() -> (r: Vec<u8>)
    ensures
        r@ == key_key(),
{
    let r: Vec<u8> = vec![107u8, 101u8, 121u8];
    proof {
        assert(r@ =~= key_key());
    }
    r
}

fn secret_key_vec() -> (r: Vec<u8>)
    ensures
        r@ == secret_key(),
{
    let r: Vec<u8> = vec![115u8, 101u8, 99u8, 114u8, 101u8, 116u8];
    proof {
        assert(r@ =~= secret_key());
    }
    r
}

fn passphrase_key_vec() -> (r: Vec<u8>)
    ensures
        r@ == passphrase_key(),
{
    let r: Vec<u8> = vec![112u8, 97u8, 115u8, 115u8, 112u8, 104u8, 114u8, 97u8, 115u8, 101u8];
    proof {
        assert(r@ =~= passphrase_key());
    }
    r
}

fn address_key_vec() -> (r: Vec<u8>)
    ensures
        r@ == address_key(),
{
    let r: Vec<u8> = vec![97u8, 100u8, 100u8, 114u8, 101u8, 115u8, 115u8];
    proof {
        assert(r@ =~= address_key());
    }
    r
}

/// Appends the encoding of a credentials block to `out`.
#[verifier::rlimit(100)]
fn append_creds(out: &mut Vec<u8>, c: &crate::model::ClobApiKeyCreds)
    ensures
        final(out)@ == old(out)@ + enc_creds(c@),
{
    out.push(LBRACE);
    let kk = key_key_vec();
    append_lit_key(out, &kk);
    append_quoted(out, &c.key);
    out.push(COMMA);
    let sk = secret_key_vec();
    append_lit_key(out, &sk);
    append_quoted(out, &c.secret);
    out.push(COMMA);
    let pk = passphrase_key_vec();
    append_lit_key(out, &pk);
    append_quoted(out, &c.passphrase);
    out.push(RBRACE);
    proof {
        assert(out@ =~= old(out)@ + enc_creds(c@));
    }
}

/// Appends the encoding of a wallet-address block to `out`.
fn append_gamma(out: &mut Vec<u8>, g: &crate::model::GammaAuth)
    ensures
        final(out)@ == old(out)@ + enc_gamma(g@),
{
    out.push(LBRACE);
    let ak = address_key_vec();
    append_lit_key(out, &ak);
    append_quoted(out, &g.address);
    out.push(RBRACE);
    proof {
        assert(out@ =~= old(out)@ + enc_gamma(g@));
    }
}

/// Appends the encoding of one subscription object to `out`.
#[verifier::rlimit(100)]
#[verifier::spinoff_prover]
fn append_sub(out: &mut Vec<u8>, s: &crate::model::Subscription)
    ensures
        final(out)@ == old(out)@ + enc_sub(s@),
{
    out.push(LBRACE);
    let tk = crate::codec::topic_key_vec();
    append_lit_key(out, &tk);
    append_quoted(out, &s.topic);
    out.push(COMMA);
    let yk = crate::codec::type_key_vec();
    append_lit_key(out, &yk);
    append_quoted(out, &s.kind);
    match &s.filters {
        Some(f) => {
            out.push(COMMA);
            let fk = filters_key_vec();
            append_lit_key(out, &fk);
            append_quoted(out, f);
        },
        None => {},
    }
    match &s.clob_auth {
        Some(c) => {
            out.push(COMMA);
            let ck = clob_auth_key_vec();
            append_lit_key(out, &ck);
            append_creds(out, c);
        },
        None => {},
    }
    match &s.gamma_auth {
        Some(g) => {
            out.push(COMMA);
            let gk = gamma_auth_key_vec();
            append_lit_key(out, &gk);
            append_gamma(out, g);
        },
        None => {},
    }
    out.push(RBRACE);
    proof {
        assert(out@ =~= old(out)@ + enc_sub(s@));
    }
}

/// Encodes a whole control frame: the canonical byte form of the action.
#[verifier::rlimit(100)]
#[verifier::spinoff_prover]
pub fn encode_action(a: &crate::model::SubscriptionAction) -> (r: Vec<u8>)
    ensures
        r@ == enc_action(a@),
{
    let mut out: Vec<u8> = Vec::new();
    out.push(LBRACE);
    let ak = action_key_vec();
    append_lit_key(&mut out, &ak);
    append_quoted(&mut out, &a.action);
    out.push(COMMA);
    let sk = subscriptions_key_vec();
    append_lit_key(&mut out, &sk);
    out.push(LBRACKET);
    let ghost header = out@;
    let ghost subs_model = crate::model::subscriptions_view(a.subscriptions);
    let mut i: usize = 0;
    proof {
        assert(enc_items(subs_model.take(0)) =~= Seq::<u8>::empty());
        assert(out@ =~= header + enc_items(subs_model.take(0)));
    }
    while i < a.subscriptions.len()
        invariant
            i <= a.subscriptions@.len(),
            subs_model == crate::model::subscriptions_view(a.subscriptions),
            subs_model.len() == a.subscriptions@.len(),
            out@ == header + enc_items(subs_model.take(i as int)),
        decreases a.subscriptions@.len() - i,
    {
        let ghost pre = out@;
        if i > 0 {
            out.push(COMMA);
        }
        append_sub(&mut out, &a.subscriptions[i]);
        proof {
            assert(subs_model[i as int] == a.subscriptions@[i as int]@);
            assert(subs_model.take(i + 1) =~= subs_model.take(i as int).push(
                subs_model[i as int],
            ));
            lemma_enc_items_snoc(subs_model.take(i as int), subs_model[i as int]);
            if i > 0 {
                assert(out@ =~= header + enc_items(subs_model.take(i + 1)));
            } else {
                assert(subs_model.take(0) =~= Seq::<SubscriptionView>::empty());
                assert(out@ =~= header + enc_items(subs_model.take(i + 1)));
            }
        }
        i = i + 1;
    }
    out.push(RBRACKET);
    out.push(RBRACE);
    proof {
        assert(subs_model.take(subs_model.len() as int) =~= subs_model);
        assert(out@ =~= enc_action(a@));
    }
    out
}

} // verus!

verus! {

/// The index-based string scanner and the suffix-based one agree.
#[verifier::rlimit(100)]
#[verifier::spinoff_prover]
proof fn lemma_scan_bridge(s: Seq<u8>, i: int)
    requires
        0 <= i <= s.len(),
    ensures
        match crate::codec::scan_string(s, i) {
            Some(cj) => i < cj.1 <= s.len() && scan_str_s(s.skip(i)) == Some(
                (cj.0, s.skip(cj.1)),
            ),
            None => scan_str_s(s.skip(i)) is None,
        },
    decreases s.len() - i,
{
    let t = s.skip(i);
    assert(t.len() == s.len() - i);
    if i < s.len() {
        assert(t[0] == s[i]);
        if s[i] == QUOTE {
            assert(t.skip(1) =~= s.skip(i + 1));
        } else if s[i] == BSLASH {
            if i + 1 < s.len() {
                assert(t[1] == s[i + 1]);
                let e = s[i + 1];
                if e == QUOTE || e == BSLASH || e == SLASH || e == 110u8 || e == 116u8 || e
                    == 114u8 || e == 98u8 || e == 102u8 {
                    lemma_scan_bridge(s, i + 2);
                    assert(t.skip(2) =~= s.skip(i + 2));
                } else if e == 117u8 {
                    if i + 6 <= s.len() {
                        assert(t[2] == s[i + 2] && t[3] == s[i + 3] && t[4] == s[i + 4] && t[5]
                            == s[i + 5]);
                        if s[i + 2] == 48u8 && s[i + 3] == 48u8 && is_hex(s[i + 4]) && is_hex(
                            s[i + 5],
                        ) {
                            lemma_scan_bridge(s, i + 6);
                            assert(t.skip(6) =~= s.skip(i + 6));
                        }
                    } else {
                        assert(t.len() < 6);
                    }
                }
            } else {
                assert(t.len() < 2);
            }
        } else if s[i] >= 32 {
            lemma_scan_bridge(s, i + 1);
            assert(t.skip(1) =~= s.skip(i + 1));
        }
    } else {
        assert(t.len() == 0);
    }
}

/// Whether the bytes of `p` stand at position `i` of `s`.
fn starts_at(s: &Vec<u8>, i: usize, p: &Vec<u8>) -> (r: bool)
    requires
        i <= s@.len(),
    ensures
        r == starts_with(s@.skip(i as int), p@),
{
    if s.len() - i < p.len() {
        return false;
    }
    let n = s.len();
    let mut t: usize = 0;
    while t < p.len()
        invariant
            n == s@.len(),
            i <= s@.len(),
            i + p@.len() <= n,
            t <= p@.len(),
            forall|u: int| 0 <= u < t ==> s@[i + u] == p@[u],
        decreases p@.len() - t,
    {
        proof {
            assert(t < p@.len());
            assert(i + t < s@.len());
        }
        if s[i + t] != p[t] {
            proof {
                assert(s@.skip(i as int)[t as int] == s@[i + t]);
                lemma_differ(s@.skip(i as int), p@, t as int);
            }
            return false;
        }
        t = t + 1;
    }
    proof {
        assert(s@.skip(i as int).subrange(0, p@.len() as int) =~= p@);
    }
    true
}

/// Builds the prefix that opens a string-valued member: the opening byte,
/// the rendered key, and the value's opening quote.
fn str_prefix(first: u8, k: &Vec<u8>) -> (r: Vec<u8>)
    ensures
        r@ == seq![first] + lit_key(k@) + seq![QUOTE],
{
    let mut r: Vec<u8> = Vec::new();
    r.push(first);
    r.push(QUOTE);
    push_all(&mut r, k);
    r.push(QUOTE);
    r.push(COLON);
    r.push(QUOTE);
    proof {
        assert(r@ =~= seq![first] + lit_key(k@) + seq![QUOTE]);
    }
    r
}

/// Builds the prefix that opens an object-valued member: the opening byte
/// and the rendered key.
fn obj_prefix(first: u8, k: &Vec<u8>) -> (r: Vec<u8>)
    ensures
        r@ == seq![first] + lit_key(k@),
{
    let mut r: Vec<u8> = Vec::new();
    r.push(first);
    r.push(QUOTE);
    push_all(&mut r, k);
    r.push(QUOTE);
    r.push(COLON);
    proof {
        assert(r@ =~= seq![first] + lit_key(k@));
    }
    r
}

/// The view of optional string content.
pub open spec fn opt_bytes(o: Option<Vec<u8>>) -> Option<Seq<u8>> {
    match o {
        Some(v) => Some(v@),
        None => None,
    }
}

/// The view of an optional credentials block.
pub open spec fn opt_creds(o: Option<crate::model::ClobApiKeyCreds>) -> Option<
    ClobApiKeyCredsView,
> {
    match o {
        Some(c) => Some(c@),
        None => None,
    }
}

/// Decodes a credentials block at position `i`.
#[verifier::rlimit(100)]
#[verifier::spinoff_prover]
fn dec_creds_x(s: &Vec<u8>, i: usize) -> (r: Option<(crate::model::ClobApiKeyCreds, usize)>)
    requires
        i <= s@.len(),
    ensures
        match dec_creds_s(s@.skip(i as int)) {
            Some(cr) => r matches Some(x) && x.0@ == cr.0 && x.1 <= s@.len() && s@.skip(
                x.1 as int,
            ) == cr.1,
            None => r is None,
        },
{
    let kk = key_key_vec();
    let p1 = str_prefix(LBRACE, &kk);
    if !starts_at(s, i, &p1) {
        return None;
    }
    let n = s.len();
    proof {
        assert(i + p1@.len() <= n);
    }
    let j0 = i + p1.len();
    proof {
        assert(s@.skip(i as int).skip(p1@.len() as int) =~= s@.skip(j0 as int));
    }
    let mut key: Vec<u8> = Vec::new();
    let jr = crate::codec::scan_string_x(s, j0, &mut key);
    proof {
        lemma_scan_bridge(s@, j0 as int);
    }
    let j1 = match jr {
        Some(j) => j,
        None => {
            return None;
        },
    };
    let sk = secret_key_vec();
    let p2 = str_prefix(COMMA, &sk);
    if !starts_at(s, j1, &p2) {
        return None;
    }
    let n2 = s.len();
    proof {
        assert(j1 + p2@.len() <= n2);
    }
    let j2 = j1 + p2.len();
    proof {
        assert(s@.skip(j1 as int).skip(p2@.len() as int) =~= s@.skip(j2 as int));
    }
    let mut secret: Vec<u8> = Vec::new();
    let jr2 = crate::codec::scan_string_x(s, j2, &mut secret);
    proof {
        lemma_scan_bridge(s@, j2 as int);
    }
    let j3 = match jr2 {
        Some(j) => j,
        None => {
            return None;
        },
    };
    let pk = passphrase_key_vec();
    let p3 = str_prefix(COMMA, &pk);
    if !starts_at(s, j3, &p3) {
        return None;
    }
    let n3 = s.len();
    proof {
        assert(j3 + p3@.len() <= n3);
    }
    let j4 = j3 + p3.len();
    proof {
        assert(s@.skip(j3 as int).skip(p3@.len() as int) =~= s@.skip(j4 as int));
    }
    let mut passphrase: Vec<u8> = Vec::new();
    let jr3 = crate::codec::scan_string_x(s, j4, &mut passphrase);
    proof {
        lemma_scan_bridge(s@, j4 as int);
    }
    let j5 = match jr3 {
        Some(j) => j,
        None => {
            return None;
        },
    };
    if j5 >= s.len() {
        return None;
    }
    if s[j5] != RBRACE {
        proof {
            assert(s@.skip(j5 as int)[0] == s@[j5 as int]);
        }
        return None;
    }
    proof {
        assert(s@.skip(j5 as int)[0] == s@[j5 as int]);
        assert(s@.skip(j5 as int).skip(1) =~= s@.skip(j5 + 1));
    }
    Some((crate::model::ClobApiKeyCreds { key, secret, passphrase }, j5 + 1))
}

/// Decodes a wallet-address block at position `i`.
#[verifier::rlimit(100)]
fn dec_gamma_x(s: &Vec<u8>, i: usize) -> (r: Option<(crate::model::GammaAuth, usize)>)
    requires
        i <= s@.len(),
    ensures
        match dec_gamma_s(s@.skip(i as int)) {
            Some(gr) => r matches Some(x) && x.0@ == gr.0 && x.1 <= s@.len() && s@.skip(
                x.1 as int,
            ) == gr.1,
            None => r is None,
        },
{
    let ak = address_key_vec();
    let p1 = str_prefix(LBRACE, &ak);
    if !starts_at(s, i, &p1) {
        return None;
    }
    let n = s.len();
    proof {
        assert(i + p1@.len() <= n);
    }
    let j0 = i + p1.len();
    proof {
        assert(s@.skip(i as int).skip(p1@.len() as int) =~= s@.skip(j0 as int));
    }
    let mut address: Vec<u8> = Vec::new();
    let jr = crate::codec::scan_string_x(s, j0, &mut address);
    proof {
        lemma_scan_bridge(s@, j0 as int);
    }
    let j1 = match jr {
        Some(j) => j,
        None => {
            return None;
        },
    };
    if j1 >= s.len() {
        return None;
    }
    if s[j1] != RBRACE {
        proof {
            assert(s@.skip(j1 as int)[0] == s@[j1 as int]);
        }
        return None;
    }
    proof {
        assert(s@.skip(j1 as int)[0] == s@[j1 as int]);
        assert(s@.skip(j1 as int).skip(1) =~= s@.skip(j1 + 1));
    }
    Some((crate::model::GammaAuth { address }, j1 + 1))
}

} // verus!

verus! {

/// Decodes the optional `gamma_auth` member and the closing brace at
/// position `i`, assembling the subscription from the parts in hand.
#[verifier::rlimit(100)]
#[verifier::spinoff_prover]
fn dec_tail_gamma_x(
    s: &Vec<u8>,
    i: usize,
    topic: Vec<u8>,
    kind: Vec<u8>,
    filters: Option<Vec<u8>>,
    clob_auth: Option<crate::model::ClobApiKeyCreds>,
) -> (r: Option<(crate::model::Subscription, usize)>)
    requires
        i <= s@.len(),
    ensures
        match dec_tail_gamma(
            s@.skip(i as int),
            topic@,
            kind@,
            opt_bytes(filters),
            opt_creds(clob_auth),
        ) {
            Some(vr) => r matches Some(x) && x.0@ == vr.0 && x.1 <= s@.len() && s@.skip(
                x.1 as int,
            ) == vr.1,
            None => r is None,
        },
{
    let gk = gamma_auth_key_vec();
    let pg = obj_prefix(COMMA, &gk);
    let gamma_auth: Option<crate::model::GammaAuth>;
    let j: usize;
    if starts_at(s, i, &pg) {
        let n = s.len();
        proof {
            assert(i + pg@.len() <= n);
        }
        let j0 = i + pg.len();
        proof {
            assert(s@.skip(i as int).skip(pg@.len() as int) =~= s@.skip(j0 as int));
        }
        match dec_gamma_x(s, j0) {
            Some(x) => {
                gamma_auth = Some(x.0);
                j = x.1;
            },
            None => {
                return None;
            },
        }
    } else {
        gamma_auth = None;
        j = i;
    }
    if j >= s.len() {
        return None;
    }
    if s[j] != RBRACE {
        proof {
            assert(s@.skip(j as int)[0] == s@[j as int]);
        }
        return None;
    }
    proof {
        assert(s@.skip(j as int)[0] == s@[j as int]);
        assert(s@.skip(j as int).skip(1) =~= s@.skip(j + 1));
    }
    let sub = crate::model::Subscription { topic, kind, filters, clob_auth, gamma_auth };
    proof {
        let spec_r = dec_tail_gamma(
            s@.skip(i as int),
            topic@,
            kind@,
            opt_bytes(filters),
            opt_creds(clob_auth),
        );
        assert(spec_r matches Some(vr) && sub@ =~= vr.0);
    }
    Some((sub, j + 1))
}

/// Decodes the optional `clob_auth` member and what follows it at
/// position `i`.
#[verifier::rlimit(100)]
#[verifier::spinoff_prover]
fn dec_tail_clob_x(
    s: &Vec<u8>,
    i: usize,
    topic: Vec<u8>,
    kind: Vec<u8>,
    filters: Option<Vec<u8>>,
) -> (r: Option<(crate::model::Subscription, usize)>)
    requires
        i <= s@.len(),
    ensures
        match dec_tail_clob(s@.skip(i as int), topic@, kind@, opt_bytes(filters)) {
            Some(vr) => r matches Some(x) && x.0@ == vr.0 && x.1 <= s@.len() && s@.skip(
                x.1 as int,
            ) == vr.1,
            None => r is None,
        },
{
    let ck = clob_auth_key_vec();
    let pc = obj_prefix(COMMA, &ck);
    if starts_at(s, i, &pc) {
        let n = s.len();
        proof {
            assert(i + pc@.len() <= n);
        }
        let j0 = i + pc.len();
        proof {
            assert(s@.skip(i as int).skip(pc@.len() as int) =~= s@.skip(j0 as int));
        }
        match dec_creds_x(s, j0) {
            Some(x) => dec_tail_gamma_x(s, x.1, topic, kind, filters, Some(x.0)),
            None => None,
        }
    } else {
        dec_tail_gamma_x(s, i, topic, kind, filters, None)
    }
}

/// Decodes one subscription object at position `i`.
#[verifier::rlimit(100)]
#[verifier::spinoff_prover]
fn dec_sub_x(s: &Vec<u8>, i: usize) -> (r: Option<(crate::model::Subscription, usize)>)
    requires
        i <= s@.len(),
    ensures
        match dec_sub_s(s@.skip(i as int)) {
            Some(vr) => r matches Some(x) && x.0@ == vr.0 && x.1 <= s@.len() && s@.skip(
                x.1 as int,
            ) == vr.1,
            None => r is None,
        },
{
    let tk = crate::codec::topic_key_vec();
    let p1 = str_prefix(LBRACE, &tk);
    if !starts_at(s, i, &p1) {
        return None;
    }
    let n = s.len();
    proof {
        assert(i + p1@.len() <= n);
    }
    let j0 = i + p1.len();
    proof {
        assert(s@.skip(i as int).skip(p1@.len() as int) =~= s@.skip(j0 as int));
    }
    let mut topic: Vec<u8> = Vec::new();
    let jr = crate::codec::scan_string_x(s, j0, &mut topic);
    proof {
        lemma_scan_bridge(s@, j0 as int);
    }
    let j1 = match jr {
        Some(j) => j,
        None => {
            return None;
        },
    };
    let yk = crate::codec::type_key_vec();
    let p2 = str_prefix(COMMA, &yk);
    if !starts_at(s, j1, &p2) {
        return None;
    }
    proof {
        assert(j1 + p2@.len() <= n);
    }
    let j2 = j1 + p2.len();
    proof {
        assert(s@.skip(j1 as int).skip(p2@.len() as int) =~= s@.skip(j2 as int));
    }
    let mut kind: Vec<u8> = Vec::new();
    let jr2 = crate::codec::scan_string_x(s, j2, &mut kind);
    proof {
        lemma_scan_bridge(s@, j2 as int);
    }
    let j3 = match jr2 {
        Some(j) => j,
        None => {
            return None;
        },
    };
    let fk = filters_key_vec();
    let pf = str_prefix(COMMA, &fk);
    if starts_at(s, j3, &pf) {
        proof {
            assert(j3 + pf@.len() <= n);
        }
        let j4 = j3 + pf.len();
        proof {
            assert(s@.skip(j3 as int).skip(pf@.len() as int) =~= s@.skip(j4 as int));
        }
        let mut f: Vec<u8> = Vec::new();
        let jr3 = crate::codec::scan_string_x(s, j4, &mut f);
        proof {
            lemma_scan_bridge(s@, j4 as int);
        }
        match jr3 {
            Some(j5) => dec_tail_clob_x(s, j5, topic, kind, Some(f)),
            None => None,
        }
    } else {
        dec_tail_clob_x(s, j3, topic, kind, None)
    }
}

/// Decodes the elements of the subscription array at position `i`.
#[verifier::rlimit(100)]
#[verifier::spinoff_prover]
fn dec_items_x(s: &Vec<u8>, i: usize, fuel: usize) -> (r: Option<
    (Vec<crate::model::Subscription>, usize),
>)
    requires
        i <= s@.len(),
    ensures
        match dec_items_s(s@.skip(i as int), fuel as nat) {
            Some(lr) => r matches Some(x) && crate::model::subscriptions_view(x.0) == lr.0
                && x.1 <= s@.len() && s@.skip(x.1 as int) == lr.1,
            None => r is None,
        },
    decreases fuel,
{
    if i < s.len() && s[i] == RBRACKET {
        let items: Vec<crate::model::Subscription> = Vec::new();
        proof {
            assert(s@.skip(i as int)[0] == s@[i as int]);
            assert(s@.skip(i as int).skip(1) =~= s@.skip(i + 1));
            assert(crate::model::subscriptions_view(items) =~= Seq::<SubscriptionView>::empty());
        }
        return Some((items, i + 1));
    }
    proof {
        if i < s@.len() {
            assert(s@.skip(i as int)[0] == s@[i as int]);
        } else {
            assert(s@.skip(i as int).len() == 0);
        }
    }
    if fuel == 0 {
        return None;
    }
    match dec_sub_x(s, i) {
        None => None,
        Some(x) => {
            let sub = x.0;
            let j = x.1;
            if j < s.len() && s[j] == COMMA {
                proof {
                    assert(s@.skip(j as int)[0] == s@[j as int]);
                    assert(s@.skip(j as int).skip(1) =~= s@.skip(j + 1));
                }
                match dec_items_x(s, j + 1, fuel - 1) {
                    Some(y) => {
                        let mut items = y.0;
                        let ghost tail_view = crate::model::subscriptions_view(items);
                        items.insert(0, sub);
                        proof {
                            assert(crate::model::subscriptions_view(items) =~= seq![sub@]
                                + tail_view);
                        }
                        Some((items, y.1))
                    },
                    None => None,
                }
            } else if j < s.len() && s[j] == RBRACKET {
                proof {
                    assert(s@.skip(j as int)[0] == s@[j as int]);
                    assert(s@.skip(j as int).skip(1) =~= s@.skip(j + 1));
                }
                let items: Vec<crate::model::Subscription> = vec![sub];
                proof {
                    assert(crate::model::subscriptions_view(items) =~= seq![sub@]);
                }
                Some((items, j + 1))
            } else {
                proof {
                    if j < s@.len() {
                        assert(s@.skip(j as int)[0] == s@[j as int]);
                    } else {
                        assert(s@.skip(j as int).len() == 0);
                    }
                }
                None
            }
        },
    }
}

/// Decodes a whole control frame: the canonical byte form back into the
/// action it encodes. Returns nothing unless the whole frame is exactly
/// one canonical control frame.
#[verifier::rlimit(100)]
#[verifier::spinoff_prover]
pub fn decode_action(s: &Vec<u8>) -> (r: Option<crate::model::SubscriptionAction>)
    ensures
        match dec_action(s@) {
            Some(av) => r matches Some(a) && a@ == av,
            None => r is None,
        },
{
    let ak = action_key_vec();
    let p1 = str_prefix(LBRACE, &ak);
    proof {
        assert(s@.skip(0) =~= s@);
    }
    if !starts_at(s, 0, &p1) {
        return None;
    }
    let n = s.len();
    proof {
        assert(p1@.len() <= n);
    }
    let j0 = p1.len();
    let mut action: Vec<u8> = Vec::new();
    let jr = crate::codec::scan_string_x(s, j0, &mut action);
    proof {
        lemma_scan_bridge(s@, j0 as int);
    }
    let j1 = match jr {
        Some(j) => j,
        None => {
            return None;
        },
    };
    let sk = subscriptions_key_vec();
    let mut p2 = obj_prefix(COMMA, &sk);
    p2.push(LBRACKET);
    proof {
        assert(p2@ =~= seq![COMMA] + lit_key(subscriptions_key()) + seq![LBRACKET]);
    }
    if !starts_at(s, j1, &p2) {
        return None;
    }
    proof {
        assert(j1 + p2@.len() <= n);
    }
    let j2 = j1 + p2.len();
    proof {
        assert(s@.skip(j1 as int).skip(p2@.len() as int) =~= s@.skip(j2 as int));
        assert(s@.skip(j2 as int).len() == s@.len() - j2);
    }
    let fuel = s.len() - j2;
    match dec_items_x(s, j2, fuel) {
        None => None,
        Some(x) => {
            let subs = x.0;
            let j3 = x.1;
            proof {
                assert(s@.skip(j3 as int).len() == s@.len() - j3);
            }
            if j3 < s.len() && s.len() - j3 == 1 && s[j3] == RBRACE {
                proof {
                    assert(s@.skip(j3 as int)[0] == s@[j3 as int]);
                }
                let a = crate::model::SubscriptionAction { action, subscriptions: subs };
                proof {
                    let av = dec_action(s@)->0;
                    assert(a@ =~= av);
                }
                Some(a)
            } else {
                proof {
                    if j3 < s@.len() {
                        assert(s@.skip(j3 as int)[0] == s@[j3 as int]);
                    }
                }
                None
            }
        },
    }
}

} // verus!
