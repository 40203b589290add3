//! Walking the information elements of a beacon body: a flat run of
//! `(tag, length, value)` triples, read until the bytes run out or a declared
//! length overruns them.
use vstd::prelude::*;

use crate::security::{classify, security_of, Security, SecurityFlags};

verus! {

/// Tag of the Robust Security Network element.
pub const TAG_RSN: u8 = 48;

/// Tag of a vendor-specific element.
pub const TAG_VENDOR: u8 = 221;

/// The SAE key-management suite selector, `00:0F:AC:08`.
pub open spec fn sae_selector() -> Seq<u8> {
    seq![0x00u8, 0x0Fu8, 0xACu8, 0x08u8]
}

/// Some four consecutive bytes of `v` are the SAE suite selector.
pub open spec fn lists_sae(v: Seq<u8>) -> bool {
    exists|i: int| 0 <= i && i + 4 <= v.len() && #[trigger] v.subrange(i, i + 4) == sae_selector()
}

/// `v` opens with the WPA OUI `00:50:F2` followed by the WPA type `01`.
pub open spec fn is_wpa_vendor(v: Seq<u8>) -> bool {
    v.len() >= 4 && v[0] == 0x00u8 && v[1] == 0x50u8 && v[2] == 0xF2u8 && v[3] == 0x01u8
}

/// The elements of `body` as `(tag, value)` pairs, in order, up to the end of
/// the bytes or up to the first element whose declared length overruns them.
pub open spec fn elements_of(body: Seq<u8>) -> Seq<(u8, Seq<u8>)>
    decreases body.len(),
{
    if body.len() < 2 || body.len() < 2 + body[1] {
        seq![]
    } else {
        seq![(body[0], body.subrange(2, 2 + body[1]))] + elements_of(
            body.subrange(2 + body[1], body.len() as int),
        )
    }
}

/// What one element adds to the flags gathered so far.
pub open spec fn apply_element(f: SecurityFlags, e: (u8, Seq<u8>)) -> SecurityFlags {
    SecurityFlags {
        has_wpa: f.has_wpa || (e.0 == TAG_VENDOR && is_wpa_vendor(e.1)),
        has_rsn: f.has_rsn || e.0 == TAG_RSN,
        has_sae: f.has_sae || (e.0 == TAG_RSN && lists_sae(e.1)),
    }
}

/// The flags gathered from a run of elements, starting with none set.
pub open spec fn flags_of(es: Seq<(u8, Seq<u8>)>) -> SecurityFlags
    decreases es.len(),
{
    if es.len() == 0 {
        SecurityFlags { has_wpa: false, has_rsn: false, has_sae: false }
    } else {
        apply_element(flags_of(es.drop_last()), es.last())
    }
}

/// The bytes that encode a run of elements: for each, its tag, its length
/// and its value.
pub open spec fn encode_elements(es: Seq<(u8, Seq<u8>)>) -> Seq<u8>
    decreases es.len(),
{
    if es.len() == 0 {
        seq![]
    } else {
        seq![es[0].0, es[0].1.len() as u8] + es[0].1 + encode_elements(es.drop_first())
    }
}

/// Every value fits the one-byte length field.
pub open spec fn lengths_fit(es: Seq<(u8, Seq<u8>)>) -> bool {
    forall|i: int| 0 <= i < es.len() ==> #[trigger] es[i].1.len() <= 255
}

/// Tells whether `body[start..start + len]` lists the SAE suite.
fn lists_sae_at(body: &[u8], start: usize, len: usize) -> (r: bool)
    requires
        start + len <= body@.len(),
    ensures
        r == lists_sae(body@.subrange(start as int, start + len)),
{
    let ghost v = body@.subrange(start as int, start + len);
    let n = body.len();
    let mut i: usize = 0;
    while len - i >= 4
        invariant
            start + len <= n,
            n == body@.len(),
            v == body@.subrange(start as int, start + len),
            i <= len,
            forall|j: int| 0 <= j < i && j + 4 <= v.len() ==> #[trigger] v.subrange(j, j + 4) != sae_selector(),
        decreases len - i,
    {
        if body[start + i] == 0x00 && body[start + i + 1] == 0x0F && body[start + i + 2] == 0xAC
            && body[start + i + 3] == 0x08 {
            assert(v.subrange(i as int, i + 4) =~= sae_selector());
            return true;
        }
        assert(v.subrange(i as int, i + 4)[0] == body@[start + i]);
        assert(v.subrange(i as int, i + 4)[1] == body@[start + i + 1]);
        assert(v.subrange(i as int, i + 4)[2] == body@[start + i + 2]);
        assert(v.subrange(i as int, i + 4)[3] == body@[start + i + 3]);
        i = i + 1;
    }
    assert forall|j: int| 0 <= j && j + 4 <= v.len() implies #[trigger] v.subrange(j, j + 4)
        != sae_selector() by {
        assert(j < i);
    }
    false
}

/// Tells whether `body[start..start + len]` is a WPA vendor value.
fn is_wpa_vendor_at(body: &[u8], start: usize, len: usize) -> (r: bool)
    requires
        start + len <= body@.len(),
    ensures
        r == is_wpa_vendor(body@.subrange(start as int, start + len)),
{
    len >= 4 && body[start] == 0x00 && body[start + 1] == 0x50 && body[start + 2] == 0xF2
        && body[start + 3] == 0x01
}

/// Walks the elements of a beacon body and gathers the security flags.
///
/// Scanning stops for good at the first element whose declared length runs
/// past the end of `body`; what the elements before it set is kept.
pub fn scan_elements(body: &[u8]) -> (r: SecurityFlags)
    ensures
        r == flags_of(elements_of(body@)),
{
    let mut flags = SecurityFlags::new();
    let mut pos: usize = 0;
    let ghost mut seen: Seq<(u8, Seq<u8>)> = seq![];
    assert(body@.subrange(0, body@.len() as int) =~= body@);
    while body.len() - pos >= 2
        invariant
            pos <= body@.len(),
            elements_of(body@) == seen + elements_of(body@.subrange(pos as int, body@.len() as int)),
            flags == flags_of(seen),
        ensures
            elements_of(body@) == seen,
            flags == flags_of(seen),
        decreases body@.len() - pos,
    {
        let ghost rest = body@.subrange(pos as int, body@.len() as int);
        let tag = body[pos];
        let len = body[pos + 1] as usize;
        if len > body.len() - pos - 2 {
            assert(elements_of(rest) == Seq::<(u8, Seq<u8>)>::empty());
            assert(seen + elements_of(rest) =~= seen);
            break;
        }
        let start = pos + 2;
        let ghost e = (tag, body@.subrange(start as int, start + len));
        if tag == TAG_RSN {
            flags.has_rsn = true;
            if lists_sae_at(body, start, len) {
                flags.has_sae = true;
            }
        } else if tag == TAG_VENDOR {
            if is_wpa_vendor_at(body, start, len) {
                flags.has_wpa = true;
            }
        }
        proof {
            assert(rest.subrange(2, 2 + rest[1]) =~= e.1);
            assert(rest.subrange(2 + rest[1], rest.len() as int) =~= body@.subrange(
                start + len,
                body@.len() as int,
            ));
            assert(seen.push(e).drop_last() =~= seen);
            assert(seen + elements_of(rest) =~= seen.push(e) + elements_of(
                body@.subrange(start + len, body@.len() as int),
            ));
            seen = seen.push(e);
        }
        pos = start + len;
    }
    flags
}

/// The security label of a beacon whose elements are `body`.
pub open spec fn elements_security(body: Seq<u8>) -> Security {
    let f = flags_of(elements_of(body));
    security_of(f.has_wpa, f.has_rsn, f.has_sae)
}

/// The security label of the access point whose beacon carries `body`.
pub fn security_of_elements(body: &[u8]) -> (r: Security)
    ensures
        r == elements_security(body@),
{
    let f = scan_elements(body);
    classify(f.has_wpa, f.has_rsn, f.has_sae)
}

proof fn lemma_elements_of_encoded(es: Seq<(u8, Seq<u8>)>, tail: Seq<u8>)
    requires
        lengths_fit(es),
    ensures
        elements_of(encode_elements(es) + tail) == es + elements_of(tail),
    decreases es.len(),
{
    if es.len() == 0 {
        assert(encode_elements(es) + tail =~= tail);
        assert(es + elements_of(tail) =~= elements_of(tail));
    } else {
        let v = es[0].1;
        let rest = es.drop_first();
        assert(lengths_fit(rest)) by {
            assert forall|i: int| 0 <= i < rest.len() implies #[trigger] rest[i].1.len() <= 255 by {
                assert(rest[i] == es[i + 1]);
            }
        }
        lemma_elements_of_encoded(rest, tail);
        assert(v.len() <= 255);
        let b = encode_elements(es) + tail;
        let after = encode_elements(rest) + tail;
        assert(b =~= seq![es[0].0, v.len() as u8] + v + after);
        assert(b[1] == v.len());
        assert(b.subrange(2, 2 + b[1]) =~= v);
        assert(b.subrange(2 + b[1], b.len() as int) =~= after);
        assert(es =~= seq![(es[0].0, v)] + rest);
        assert(seq![(es[0].0, v)] + (rest + elements_of(tail)) =~= es + elements_of(tail));
    }
}

proof fn lemma_flags_of_witnessed(es: Seq<(u8, Seq<u8>)>)
    ensures
        flags_of(es).has_rsn <==> exists|i: int| 0 <= i < es.len() && (#[trigger] es[i]).0 == TAG_RSN,
        flags_of(es).has_sae <==> exists|i: int|
            0 <= i < es.len() && (#[trigger] es[i]).0 == TAG_RSN && lists_sae(es[i].1),
        flags_of(es).has_wpa <==> exists|i: int|
            0 <= i < es.len() && (#[trigger] es[i]).0 == TAG_VENDOR && is_wpa_vendor(es[i].1),
    decreases es.len(),
{
    if es.len() > 0 {
        let d = es.drop_last();
        lemma_flags_of_witnessed(d);
        let n = es.len() - 1;
        assert forall|i: int| 0 <= i < d.len() implies #[trigger] d[i] == es[i] by {}
        assert(es.last() == es[n]);
        if exists|i: int| 0 <= i < es.len() && (#[trigger] es[i]).0 == TAG_RSN {
            let i = choose|i: int| 0 <= i < es.len() && (#[trigger] es[i]).0 == TAG_RSN;
            if i < n {
                assert(d[i].0 == TAG_RSN);
            }
        }
        if flags_of(d).has_rsn {
            let i = choose|i: int| 0 <= i < d.len() && (#[trigger] d[i]).0 == TAG_RSN;
            assert(es[i].0 == TAG_RSN);
        }
        if exists|i: int| 0 <= i < es.len() && (#[trigger] es[i]).0 == TAG_RSN && lists_sae(es[i].1) {
            let i = choose|i: int|
                0 <= i < es.len() && (#[trigger] es[i]).0 == TAG_RSN && lists_sae(es[i].1);
            if i < n {
                assert(d[i].0 == TAG_RSN && lists_sae(d[i].1));
            }
        }
        if flags_of(d).has_sae {
            let i = choose|i: int| 0 <= i < d.len() && (#[trigger] d[i]).0 == TAG_RSN && lists_sae(d[i].1);
            assert(es[i].0 == TAG_RSN && lists_sae(es[i].1));
        }
        if exists|i: int|
            0 <= i < es.len() && (#[trigger] es[i]).0 == TAG_VENDOR && is_wpa_vendor(es[i].1) {
            let i = choose|i: int|
                0 <= i < es.len() && (#[trigger] es[i]).0 == TAG_VENDOR && is_wpa_vendor(es[i].1);
            if i < n {
                assert(d[i].0 == TAG_VENDOR && is_wpa_vendor(d[i].1));
            }
        }
        if flags_of(d).has_wpa {
            let i = choose|i: int|
                0 <= i < d.len() && (#[trigger] d[i]).0 == TAG_VENDOR && is_wpa_vendor(d[i].1);
            assert(es[i].0 == TAG_VENDOR && is_wpa_vendor(es[i].1));
        }
    }
}

/// For a body made only of elements whose declared lengths agree with the
/// bytes, the scan visits exactly those elements, in order, and sets a flag
/// only for an RSN element (`has_rsn`), an RSN element that lists the SAE
/// suite (`has_sae`), or a vendor element with the WPA OUI and type
/// (`has_wpa`).
pub proof fn law_consistent_body_scanned_in_full(es: Seq<(u8, Seq<u8>)>)
    requires
        lengths_fit(es),
    ensures
        elements_of(encode_elements(es)) == es,
        flags_of(elements_of(encode_elements(es))).has_rsn <==> exists|i: int|
            0 <= i < es.len() && (#[trigger] es[i]).0 == TAG_RSN,
        flags_of(elements_of(encode_elements(es))).has_sae <==> exists|i: int|
            0 <= i < es.len() && (#[trigger] es[i]).0 == TAG_RSN && lists_sae(es[i].1),
        flags_of(elements_of(encode_elements(es))).has_wpa <==> exists|i: int|
            0 <= i < es.len() && (#[trigger] es[i]).0 == TAG_VENDOR && is_wpa_vendor(es[i].1),
{
    lemma_elements_of_encoded(es, seq![]);
    assert(encode_elements(es) + seq![] =~= encode_elements(es));
    assert(es + elements_of(Seq::<u8>::empty()) =~= es);
    lemma_flags_of_witnessed(es);
}

/// When, after some well-formed elements, an element declares a length that
/// runs past the end of the bytes, the scan stops there: it visits only the
/// elements before it, and the flags are exactly those that they set.
pub proof fn law_overrun_stops_scan(es: Seq<(u8, Seq<u8>)>, bad: Seq<u8>)
    requires
        lengths_fit(es),
        bad.len() >= 2,
        bad.len() < 2 + bad[1],
    ensures
        elements_of(encode_elements(es) + bad) == es,
        flags_of(elements_of(encode_elements(es) + bad)) == flags_of(es),
{
    lemma_elements_of_encoded(es, bad);
    assert(es + elements_of(bad) =~= es);
}

} // verus!
