//! The delegated-attestation service.
use vstd::prelude::*;
use super::Error;
use super::serde::{self, Request, Response};

verus! {

/// What a delegated-attestation request of type `psa_type` asks for: the
/// delegated key, the platform token, or nothing this service knows.
pub open spec fn requested_secret(psa_type: int, key: Seq<u8>, token: Seq<u8>) -> Option<Seq<u8>> {
    if psa_type == serde::RSS_DELEGATED_ATTEST_GET_DELEGATED_KEY {
        Some(key)
    } else if psa_type == serde::RSS_DELEGATED_ATTEST_GET_PLATFORM_TOKEN {
        Some(token)
    } else {
        None
    }
}

/// What the service answers: the secret asked for, if exactly one output
/// vector is declared and the secret fits its declared length.
pub open spec fn attestation_outcome(
    psa_type: int,
    out_len0: int,
    out_len1: int,
    key: Seq<u8>,
    token: Seq<u8>,
) -> Result<Seq<u8>, Error> {
    match requested_secret(psa_type, key, token) {
        None => Err(Error::InvalidType),
        Some(content) => {
            if out_len0 == 0 || out_len1 != 0 {
                Err(Error::InvalidVectors)
            } else if content.len() > out_len0 {
                Err(Error::InvalidVectors)
            } else {
                Ok(content)
            }
        },
    }
}

/// Handles a delegated-attestation request: sends back the delegated key or
/// the platform token in the first output vector.
pub fn perform(req: Request, key: &[u8], token: &[u8]) -> (res: Result<Response, Error>)
    ensures
        attestation_outcome(
            req.psa_type as int,
            req.out_lens@[0] as int,
            req.out_lens@[1] as int,
            key@,
            token@,
        ) matches Err(e) ==> res == Err::<Response, Error>(e),
        attestation_outcome(
            req.psa_type as int,
            req.out_lens@[0] as int,
            req.out_lens@[1] as int,
            key@,
            token@,
        ) matches Ok(content) ==> (res matches Ok(r) && {
            &&& r.protocol_ver == req.protocol_ver
            &&& r.seq_num == req.seq_num
            &&& r.client_id == req.client_id
            &&& r.return_val == serde::PSA_SUCCESS
            &&& r.out_views() == seq![content, Seq::empty(), Seq::empty(), Seq::empty()]
        }),
        (req.psa_type == serde::RSS_DELEGATED_ATTEST_GET_DELEGATED_KEY || req.psa_type
            == serde::RSS_DELEGATED_ATTEST_GET_PLATFORM_TOKEN) && req.out_lens@[1] != 0 ==> res
            == Err::<Response, Error>(Error::InvalidVectors),
        res matches Ok(r) ==> {
            &&& req.out_lens@[0] != 0
            &&& req.out_lens@[1] == 0
            &&& r.out_vecs@[0]@ == (if req.psa_type == serde::RSS_DELEGATED_ATTEST_GET_DELEGATED_KEY {
                key@
            } else {
                token@
            })
            &&& r.out_vecs@[0]@.len() <= req.out_lens@[0]
        },
{
    let content: &[u8] = if req.psa_type == serde::RSS_DELEGATED_ATTEST_GET_DELEGATED_KEY {
        key
    } else if req.psa_type == serde::RSS_DELEGATED_ATTEST_GET_PLATFORM_TOKEN {
        token
    } else {
        return Err(Error::InvalidType);
    };

    /* exactly one output vector */
    if req.out_lens[0] == 0 || req.out_lens[1] != 0 {
        return Err(Error::InvalidVectors);
    }

    /* ...that the content fits in */
    if content.len() > req.out_lens[0] {
        return Err(Error::InvalidVectors);
    }

    let out_vecs: [Vec<u8>; serde::PSA_MAX_IOVEC] = [
        serde::copy_range(content, 0, content.len()),
        Vec::new(),
        Vec::new(),
        Vec::new(),
    ];
    let r = Response {
        protocol_ver: req.protocol_ver,
        seq_num: req.seq_num,
        client_id: req.client_id,
        return_val: serde::PSA_SUCCESS,
        out_vecs,
    };
    assert(content@.subrange(0, content@.len() as int) =~= content@);
    assert(r.out_views() =~= seq![content@, Seq::empty(), Seq::empty(), Seq::empty()]);
    assert(r.out_vecs@[0]@ == content@);
    Ok(r)
}

} // verus!
