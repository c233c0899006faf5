//! Properties of the answers, over the spec functions that the contracts use.
use vstd::prelude::*;

use super::{Error, key_reply, reply_to, request_panics, token_reply};
use super::attest::requested_secret;
use super::serde::{
    self, le16, le16_bytes, le32_bytes, req_handle, req_out_len, req_type, reply_bytes,
    u32_of_i32, lead_count, payload, out_size, Request, de_fails, de_panics, in_offset,
};

verus! {

proof fn lemma_le16_round_trip(b0: u8, b1: u8)
    ensures
        le16_bytes(le16(b0, b1)) == seq![b0, b1],
{
    assert(le16_bytes(le16(b0, b1)) =~= seq![b0, b1]);
}

/// The fields of a reply, cut where they stand.
proof fn lemma_reply_layout(pv: u8, sn: u8, cid: int, rv: int, vs: Seq<Seq<u8>>)
    requires
        vs.len() == serde::PSA_MAX_IOVEC,
    ensures
        ({
            let out = reply_bytes(pv, sn, cid, rv, vs);
            &&& out.len() == serde::REPLY_FIXED_SIZE + payload(vs, lead_count(vs)).len()
            &&& out.subrange(0, 2) == seq![pv, sn]
            &&& out.subrange(2, 4) == le16_bytes(cid)
            &&& out.subrange(4, 8) == le32_bytes(u32_of_i32(rv))
            &&& out.subrange(8, 10) == le16_bytes(out_size(vs, 0))
            &&& out.subrange(10, 12) == le16_bytes(out_size(vs, 1))
            &&& out.subrange(12, 14) == le16_bytes(out_size(vs, 2))
            &&& out.subrange(14, 16) == le16_bytes(out_size(vs, 3))
            &&& out.subrange(16, out.len() as int) == payload(vs, lead_count(vs))
        }),
{
    let out = reply_bytes(pv, sn, cid, rv, vs);
    assert(out.subrange(0, 2) =~= seq![pv, sn]);
    assert(out.subrange(2, 4) =~= le16_bytes(cid));
    assert(out.subrange(4, 8) =~= le32_bytes(u32_of_i32(rv)));
    assert(out.subrange(8, 10) =~= le16_bytes(out_size(vs, 0)));
    assert(out.subrange(10, 12) =~= le16_bytes(out_size(vs, 1)));
    assert(out.subrange(12, 14) =~= le16_bytes(out_size(vs, 2)));
    assert(out.subrange(14, 16) =~= le16_bytes(out_size(vs, 3)));
    assert(out.subrange(16, out.len() as int) =~= payload(vs, lead_count(vs)));
}

proof fn lemma_one_vec(content: Seq<u8>)
    ensures
        payload(super::one_vec(content), lead_count(super::one_vec(content))) == content,
        out_size(super::one_vec(content), 0) == content.len(),
        out_size(super::one_vec(content), 1) == 0,
        out_size(super::one_vec(content), 2) == 0,
        out_size(super::one_vec(content), 3) == 0,
{
    let vs = super::one_vec(content);
    assert(payload(vs, 0) =~= Seq::<u8>::empty());
    assert(payload(vs, 1) =~= content);
}

proof fn lemma_no_vecs()
    ensures
        payload(super::no_vecs(), lead_count(super::no_vecs())) == Seq::<u8>::empty(),
        forall|k: int| 0 <= k < 4 ==> out_size(super::no_vecs(), k) == 0,
{
    assert(payload(super::no_vecs(), 0) =~= Seq::<u8>::empty());
}

/// A reply carries the header of the request it answers: the same protocol
/// version, sequence number and client id, byte for byte.
pub proof fn reply_echoes_header(s: Seq<u8>, key: Seq<u8>, token: Seq<u8>)
    ensures
        reply_to(s, key, token) matches Ok(out) ==> out.subrange(0, 4) == s.subrange(0, 4),
{
    if let Ok(out) = reply_to(s, key, token) {
        let vs = if req_handle(s) == serde::RSS_MEASURED_BOOT_HANDLE {
            super::no_vecs()
        } else {
            super::one_vec(
                requested_secret(req_type(s), key, token).unwrap(),
            )
        };
        lemma_reply_layout(s[0], s[1], le16(s[2], s[3]), 0, vs);
        lemma_le16_round_trip(s[2], s[3]);
        assert(out.subrange(0, 4) =~= out.subrange(0, 2) + out.subrange(2, 4));
        assert(s.subrange(0, 4) =~= seq![s[0], s[1], s[2], s[3]]);
    }
}

/// A reply always reports success; every failure is an error instead.
pub proof fn reply_reports_success(s: Seq<u8>, key: Seq<u8>, token: Seq<u8>)
    ensures
        reply_to(s, key, token) matches Ok(out) ==> out.subrange(4, 8) == seq![0u8, 0, 0, 0],
{
    if let Ok(out) = reply_to(s, key, token) {
        let vs = if req_handle(s) == serde::RSS_MEASURED_BOOT_HANDLE {
            super::no_vecs()
        } else {
            super::one_vec(
                requested_secret(req_type(s), key, token).unwrap(),
            )
        };
        lemma_reply_layout(s[0], s[1], le16(s[2], s[3]), 0, vs);
        assert(le32_bytes(0) =~= seq![0u8, 0, 0, 0]);
    }
}

/// A measured-boot reply sends nothing back: after the header and the return
/// value, four zero sizes and no vector.
pub proof fn measured_boot_reply_is_bare(s: Seq<u8>, key: Seq<u8>, token: Seq<u8>)
    ensures
        req_handle(s) == serde::RSS_MEASURED_BOOT_HANDLE ==> (reply_to(s, key, token) matches Ok(
            out,
        ) ==> out.len() == serde::REPLY_FIXED_SIZE && out.subrange(8, 16) == Seq::new(
            8,
            |i: int| 0u8,
        )),
{
    if req_handle(s) == serde::RSS_MEASURED_BOOT_HANDLE {
        if let Ok(out) = reply_to(s, key, token) {
            let vs = super::no_vecs();
            lemma_no_vecs();
            lemma_reply_layout(s[0], s[1], le16(s[2], s[3]), 0, vs);
            assert(le16_bytes(0) =~= seq![0u8, 0]);
            assert(out.subrange(8, 16) =~= out.subrange(8, 10) + out.subrange(10, 12)
                + out.subrange(12, 14) + out.subrange(14, 16));
            assert(out.subrange(8, 16) =~= Seq::new(8, |i: int| 0u8));
        }
    }
}

/// A delegated-attestation reply carries exactly the secret the request asks
/// for (the delegated key or the platform token) after the fixed fields, its
/// first size field holds the secret's length, the other three are zero, and
/// the secret is no longer than the output vector the request declared.
pub proof fn attestation_reply_carries_secret(s: Seq<u8>, key: Seq<u8>, token: Seq<u8>)
    ensures
        req_handle(s) == serde::RSS_DELEGATED_SERVICE_HANDLE ==> (reply_to(s, key, token) matches Ok(
            out,
        ) ==> {
            let content = out.subrange(serde::REPLY_FIXED_SIZE as int, out.len() as int);
            &&& requested_secret(req_type(s), key, token) == Some(content)
            &&& content.len() <= req_out_len(s, 0)
            &&& out.subrange(8, 10) == le16_bytes(content.len() as int)
            &&& out.subrange(10, 16) == Seq::new(6, |i: int| 0u8)
        }),
{
    if req_handle(s) == serde::RSS_DELEGATED_SERVICE_HANDLE {
        if let Ok(out) = reply_to(s, key, token) {
            let content = requested_secret(req_type(s), key, token).unwrap();
            let vs = super::one_vec(content);
            lemma_one_vec(content);
            lemma_reply_layout(s[0], s[1], le16(s[2], s[3]), 0, vs);
            assert(le16_bytes(0) =~= seq![0u8, 0]);
            assert(out.subrange(10, 16) =~= out.subrange(10, 12) + out.subrange(12, 14)
                + out.subrange(14, 16));
            assert(out.subrange(10, 16) =~= Seq::new(6, |i: int| 0u8));
        }
    }
}

/// Every reply that can be produced fits the embedded reply: at most the
/// fixed fields and a full trailer.
pub proof fn reply_fits_message(s: Seq<u8>, key: Seq<u8>, token: Seq<u8>)
    requires
        !request_panics(s, key, token),
    ensures
        reply_to(s, key, token) matches Ok(out) ==> out.len() <= serde::REPLY_FIXED_SIZE
            + serde::PLAT_RSS_COMMS_PAYLOAD_MAX_SIZE,
{
    if let Ok(out) = reply_to(s, key, token) {
        if req_handle(s) == serde::RSS_MEASURED_BOOT_HANDLE {
            lemma_no_vecs();
            lemma_reply_layout(s[0], s[1], le16(s[2], s[3]), 0, super::no_vecs());
        } else {
            let content = requested_secret(req_type(s), key, token).unwrap();
            lemma_one_vec(content);
            lemma_reply_layout(s[0], s[1], le16(s[2], s[3]), 0, super::one_vec(content));
        }
    }
}

/// Serving only the delegated key answers a key request as serving both
/// secrets does, whatever the platform token is.
pub proof fn key_reply_agrees(s: Seq<u8>, key: Seq<u8>, token: Seq<u8>)
    ensures
        key_reply(s, key) is Ok ==> reply_to(s, key, token) == key_reply(s, key),
{
}

/// Serving only the platform token answers a token request as serving both
/// secrets does, whatever the delegated key is.
pub proof fn token_reply_agrees(s: Seq<u8>, key: Seq<u8>, token: Seq<u8>)
    ensures
        token_reply(s, token) is Ok ==> reply_to(s, key, token) == token_reply(s, token),
{
}

// ---------------------------------------------------------------------------
// Laws over the raw wire bytes
// ---------------------------------------------------------------------------

/// The little-endian 16-bit field of the wire bytes `s` at `offset`.
pub open spec fn wire_u16(s: Seq<u8>, offset: int) -> int {
    s[offset] as int + 256 * (s[offset + 1] as int)
}

/// The `i`-th vector size field of a request: the `i`-th 16-bit field after
/// the control word.
pub open spec fn wire_size(s: Seq<u8>, i: int) -> int {
    wire_u16(s, 12 + 2 * i)
}

/// The request bytes name the delegated service: handle 0x40000111, little-endian.
pub open spec fn names_delegated_service(s: Seq<u8>) -> bool {
    &&& s.len() >= 12
    &&& s[4] == 0x11u8
    &&& s[5] == 0x01u8
    &&& s[6] == 0x00u8
    &&& s[7] == 0x40u8
}

proof fn lemma_delegated_handle(s: Seq<u8>)
    requires
        names_delegated_service(s),
    ensures
        req_handle(s) == serde::RSS_DELEGATED_SERVICE_HANDLE,
        req_type(s) == wire_u16(s, 10),
{
}

/// Decoding reads the output lengths from the size fields that follow those
/// of the input vectors, one per declared output vector (byte 8 of the
/// control word); the lengths of undeclared output vectors are 0, whatever
/// their size fields hold.
pub proof fn decoded_out_lens(r: Request, s: Seq<u8>)
    requires
        r.decoded_from(s),
        s.len() >= serde::REQUEST_TRAILER_OFFSET,
        s[8] + s[9] <= serde::PSA_MAX_IOVEC,
    ensures
        forall|k: int|
            0 <= k < serde::PSA_MAX_IOVEC ==> #[trigger] r.out_lens@[k] == (if k < s[8] {
                wire_size(s, s[9] + k)
            } else {
                0
            }),
{
    assert forall|k: int| 0 <= k < serde::PSA_MAX_IOVEC implies #[trigger] r.out_lens@[k] == (if k
        < s[8] {
        wire_size(s, s[9] + k)
    } else {
        0
    }) by {
        assert(r.out_lens@[k] == req_out_len(s, k));
    }
}

proof fn lemma_in_offsets(s: Seq<u8>)
    ensures
        in_offset(s, 0) == 0,
        in_offset(s, 1) == wire_size(s, 0),
        in_offset(s, 2) == wire_size(s, 0) + wire_size(s, 1),
        in_offset(s, 3) == wire_size(s, 0) + wire_size(s, 1) + wire_size(s, 2),
        in_offset(s, 4) == wire_size(s, 0) + wire_size(s, 1) + wire_size(s, 2) + wire_size(s, 3),
{
    assert(in_offset(s, 1) == in_offset(s, 0) + wire_size(s, 0));
    assert(in_offset(s, 2) == in_offset(s, 1) + wire_size(s, 1));
    assert(in_offset(s, 3) == in_offset(s, 2) + wire_size(s, 2));
    assert(in_offset(s, 4) == in_offset(s, 3) + wire_size(s, 3));
}

/// Sum of the first `n` (at most four) vector size fields.
pub open spec fn wire_in_total(s: Seq<u8>, n: int) -> int {
    (if 0 < n { wire_size(s, 0) } else { 0 }) + (if 1 < n { wire_size(s, 1) } else { 0 }) + (if 2
        < n {
        wire_size(s, 2)
    } else {
        0
    }) + (if 3 < n { wire_size(s, 3) } else { 0 })
}

/// Decoding refuses exactly the requests longer than the embedded message,
/// shorter than the fixed fields, or shorter than the fixed fields and the
/// full 16-bit sizes of all the input vectors they declare.
pub proof fn decoding_refuses_exactly(s: Seq<u8>)
    requires
        !de_panics(s),
    ensures
        de_fails(s) <==> (s.len() > serde::RSS_EMBED_MSG_SIZE || s.len()
            < serde::REQUEST_TRAILER_OFFSET || serde::REQUEST_TRAILER_OFFSET + wire_in_total(
            s,
            s[9] as int,
        ) > s.len()),
{
    lemma_in_offsets(s);
}

/// The input vectors of a decoded request lie back to back at the start of
/// the trailer, in order: each of the declared ones is as long as its full
/// 16-bit size field, each undeclared one is empty, and each starts where the
/// one before ends.
pub proof fn decoded_in_vecs(r: Request, s: Seq<u8>)
    requires
        r.decoded_from(s),
        !de_fails(s),
        s[9] <= serde::PSA_MAX_IOVEC,
    ensures
        forall|k: int|
            0 <= k < serde::PSA_MAX_IOVEC ==> (#[trigger] r.in_vecs@[k]@).len() == (if k < s[9] {
                wire_size(s, k)
            } else {
                0
            }),
        ({
            let l0 = r.in_vecs@[0]@.len() as int;
            let l1 = r.in_vecs@[1]@.len() as int;
            let l2 = r.in_vecs@[2]@.len() as int;
            let l3 = r.in_vecs@[3]@.len() as int;
            let t = serde::REQUEST_TRAILER_OFFSET as int;
            &&& r.in_vecs@[0]@ == s.subrange(t, t + l0)
            &&& r.in_vecs@[1]@ == s.subrange(t + l0, t + l0 + l1)
            &&& r.in_vecs@[2]@ == s.subrange(t + l0 + l1, t + l0 + l1 + l2)
            &&& r.in_vecs@[3]@ == s.subrange(t + l0 + l1 + l2, t + l0 + l1 + l2 + l3)
            &&& t + l0 + l1 + l2 + l3 <= s.len()
        }),
{
    lemma_in_offsets(s);
    let n = s[9] as int;
    assert(r.in_vecs@[0]@ == serde::req_in_vec(s, 0));
    assert(r.in_vecs@[1]@ == serde::req_in_vec(s, 1));
    assert(r.in_vecs@[2]@ == serde::req_in_vec(s, 2));
    assert(r.in_vecs@[3]@ == serde::req_in_vec(s, 3));
    let t = serde::REQUEST_TRAILER_OFFSET as int;
    let l0 = r.in_vecs@[0]@.len() as int;
    let l1 = r.in_vecs@[1]@.len() as int;
    let l2 = r.in_vecs@[2]@.len() as int;
    let l3 = r.in_vecs@[3]@.len() as int;
    if n == 0 {
        assert(s.subrange(t, t) =~= Seq::<u8>::empty());
    } else if n == 1 {
        assert(s.subrange(t + l0, t + l0) =~= Seq::<u8>::empty());
    } else if n == 2 {
        assert(s.subrange(t + l0 + l1, t + l0 + l1) =~= Seq::<u8>::empty());
    } else if n == 3 {
        assert(s.subrange(t + l0 + l1 + l2, t + l0 + l1 + l2) =~= Seq::<u8>::empty());
    }
}

/// A delegated-attestation request, for either secret, that declares a second
/// output vector of non-zero length is refused.
pub proof fn attestation_refuses_second_output_vector(s: Seq<u8>, key: Seq<u8>, token: Seq<u8>)
    ensures
        ({
            &&& names_delegated_service(s)
            &&& (wire_u16(s, 10) == 1001 || wire_u16(s, 10) == 1002)
            &&& s[8] + s[9] <= serde::PSA_MAX_IOVEC
            &&& s[8] >= 2
            &&& wire_size(s, s[9] + 1) != 0
        }) ==> (reply_to(s, key, token) == Err::<Seq<u8>, Error>(Error::InvalidVectors)
            || reply_to(s, key, token) == Err::<Seq<u8>, Error>(Error::WrongDataLength)),
{
    if names_delegated_service(s) {
        lemma_delegated_handle(s);
    }
}

/// A delegated-attestation request that decodes is answered exactly when it
/// declares one output vector, of non-zero length, that the secret it asks
/// for (the delegated key for type 1001, the platform token for type 1002)
/// fits in; the answer then carries that secret.
pub proof fn attestation_succeeds_exactly(s: Seq<u8>, key: Seq<u8>, token: Seq<u8>)
    requires
        names_delegated_service(s),
        wire_u16(s, 10) == 1001 || wire_u16(s, 10) == 1002,
        s[8] + s[9] <= serde::PSA_MAX_IOVEC,
        !de_fails(s),
    ensures
        ({
            let secret = if wire_u16(s, 10) == 1001 { key } else { token };
            let first = wire_size(s, s[9] as int);
            let second = wire_size(s, s[9] + 1);
            &&& reply_to(s, key, token) is Ok <==> (s[8] >= 1 && first != 0 && (s[8] >= 2 ==> second
                == 0) && secret.len() <= first)
            &&& reply_to(s, key, token) matches Ok(out) ==> out.subrange(
                serde::REPLY_FIXED_SIZE as int,
                out.len() as int,
            ) == secret
        }),
{
    lemma_delegated_handle(s);
    attestation_reply_carries_secret(s, key, token);
}

/// Serving only the delegated key gives, for every key request to the
/// delegated service, exactly the answer that serving both secrets gives,
/// whatever the platform token is.
pub proof fn key_reply_is_full_answer(s: Seq<u8>, key: Seq<u8>, token: Seq<u8>)
    ensures
        names_delegated_service(s) && wire_u16(s, 10) == 1001 ==> key_reply(s, key) == reply_to(
            s,
            key,
            token,
        ),
{
    if names_delegated_service(s) {
        lemma_delegated_handle(s);
    }
}

/// Serving only the platform token gives, for every token request to the
/// delegated service, exactly the answer that serving both secrets gives,
/// whatever the delegated key is.
pub proof fn token_reply_is_full_answer(s: Seq<u8>, key: Seq<u8>, token: Seq<u8>)
    ensures
        names_delegated_service(s) && wire_u16(s, 10) == 1002 ==> token_reply(s, token)
            == reply_to(s, key, token),
{
    if names_delegated_service(s) {
        lemma_delegated_handle(s);
    }
}

} // verus!
