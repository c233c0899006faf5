//! Answering requests: decode, dispatch on the handle to a service, encode
//! the reply.
use vstd::prelude::*;

pub mod serde;
pub mod measur;
pub mod attest;
pub mod laws;

use self::serde::{
    Request, de_fails, de_panics, req_client_id, req_handle, req_out_len, req_type, reply_bytes,
};
use self::measur::measured_boot_outcome;
use self::attest::attestation_outcome;

verus! {

/// Errors that a request can be refused with.
#[derive(Debug, Clone, Copy, PartialEq, Eq)]
pub enum Error {
    WrongDataLength,
    InvalidHandle,
    InvalidType,
    InvalidVectors,
}

/// No output vector.
pub open spec fn no_vecs() -> Seq<Seq<u8>> {
    seq![Seq::<u8>::empty(), Seq::empty(), Seq::empty(), Seq::empty()]
}

/// One output vector holding `content`.
pub open spec fn one_vec(content: Seq<u8>) -> Seq<Seq<u8>> {
    seq![content, Seq::empty(), Seq::empty(), Seq::empty()]
}

/// The successful reply to the request `s` that carries the output vectors `vs`.
pub open spec fn success_reply(s: Seq<u8>, vs: Seq<Seq<u8>>) -> Seq<u8> {
    reply_bytes(s[0], s[1], req_client_id(s), serde::PSA_SUCCESS as int, vs)
}

/// The answer to the request bytes `s`, given the delegated key and the
/// platform token.
pub open spec fn reply_to(s: Seq<u8>, key: Seq<u8>, token: Seq<u8>) -> Result<Seq<u8>, Error> {
    if de_fails(s) {
        Err(Error::WrongDataLength)
    } else if req_handle(s) == serde::RSS_MEASURED_BOOT_HANDLE {
        match measured_boot_outcome(req_type(s), req_out_len(s, 0)) {
            Err(e) => Err(e),
            Ok(()) => Ok(success_reply(s, no_vecs())),
        }
    } else if req_handle(s) == serde::RSS_DELEGATED_SERVICE_HANDLE {
        match attestation_outcome(req_type(s), req_out_len(s, 0), req_out_len(s, 1), key, token) {
            Err(e) => Err(e),
            Ok(content) => Ok(success_reply(s, one_vec(content))),
        }
    } else {
        Err(Error::InvalidHandle)
    }
}

/// The inputs on which answering cannot go on: the request cannot be decoded
/// (see `de_panics`), or the secret to send does not fit the reply's trailer.
pub open spec fn request_panics(s: Seq<u8>, key: Seq<u8>, token: Seq<u8>) -> bool {
    ||| de_panics(s)
    ||| {
        &&& !de_fails(s)
        &&& req_handle(s) == serde::RSS_DELEGATED_SERVICE_HANDLE
        &&& attestation_outcome(req_type(s), req_out_len(s, 0), req_out_len(s, 1), key, token) matches Ok(c)
        &&& c.len() > serde::PLAT_RSS_COMMS_PAYLOAD_MAX_SIZE
    }
}

/// `res` is the vector form of the answer `spec`.
pub open spec fn answers(res: Result<Vec<u8>, Error>, spec: Result<Seq<u8>, Error>) -> bool {
    match res {
        Ok(v) => spec == Ok::<Seq<u8>, Error>(v@),
        Err(e) => spec == Err::<Seq<u8>, Error>(e),
    }
}

/// Whether answering `input` cannot go on (see `request_panics`).
pub fn request_would_panic(input: &[u8], key: &[u8], token: &[u8]) -> (r: bool)
    ensures
        r == request_panics(input@, key@, token@),
{
    if Request::de_would_panic(input) {
        return true;
    }
    match Request::de(input) {
        Err(_) => false,
        Ok(req) => {
            if req.handle != serde::RSS_DELEGATED_SERVICE_HANDLE {
                return false;
            }
            match attest::perform(req, key, token) {
                Err(_) => false,
                Ok(res) => {
                    assert(res.out_views()[0] == res.out_vecs@[0]@);
                    res.out_vecs[0].len() > serde::PLAT_RSS_COMMS_PAYLOAD_MAX_SIZE
                },
            }
        },
    }
}

/// Answers one request: decodes `input`, hands it to the service its handle
/// names, and encodes the reply.
pub fn do_request(input: &[u8], key: &[u8], token: &[u8]) -> (res: Result<Vec<u8>, Error>)
    requires
        !request_panics(input@, key@, token@),
    ensures
        answers(res, reply_to(input@, key@, token@)),
{
    let req = match Request::de(input) {
        Ok(req) => req,
        Err(e) => return Err(e),
    };

    let res = if req.handle == serde::RSS_PLATFORM_SERVICE_HANDLE {
        /* platform service: unsupported */
        return Err(Error::InvalidHandle);
    } else if req.handle == serde::RSS_MEASURED_BOOT_HANDLE {
        match measur::perform(req) {
            Ok(r) => r,
            Err(e) => return Err(e),
        }
    } else if req.handle == serde::RSS_DELEGATED_SERVICE_HANDLE {
        match attest::perform(req, key, token) {
            Ok(r) => r,
            Err(e) => return Err(e),
        }
    } else {
        return Err(Error::InvalidHandle);
    };
    proof {
        let vs = res.out_views();
        assert(serde::payload(vs, 0) =~= Seq::<u8>::empty());
        assert(serde::payload(vs, 1) =~= vs[0]);
    }
    res.ser()
}

/// The answer to the request bytes `s` when only the delegated key is served:
/// the request must be a delegated-attestation request for the key.
pub open spec fn key_reply(s: Seq<u8>, delegated_key: Seq<u8>) -> Result<Seq<u8>, Error> {
    if de_fails(s) {
        Err(Error::WrongDataLength)
    } else if req_handle(s) != serde::RSS_DELEGATED_SERVICE_HANDLE {
        Err(Error::InvalidHandle)
    } else if req_type(s) != serde::RSS_DELEGATED_ATTEST_GET_DELEGATED_KEY {
        Err(Error::InvalidType)
    } else {
        reply_to(s, delegated_key, Seq::empty())
    }
}

/// The answer to the request bytes `s` when only the platform token is
/// served: the request must be a delegated-attestation request for the token.
pub open spec fn token_reply(s: Seq<u8>, platform_token: Seq<u8>) -> Result<Seq<u8>, Error> {
    if de_fails(s) {
        Err(Error::WrongDataLength)
    } else if req_handle(s) != serde::RSS_DELEGATED_SERVICE_HANDLE {
        Err(Error::InvalidHandle)
    } else if req_type(s) != serde::RSS_DELEGATED_ATTEST_GET_PLATFORM_TOKEN {
        Err(Error::InvalidType)
    } else {
        reply_to(s, Seq::empty(), platform_token)
    }
}

/// Answers a request for the delegated key held in `delegated_key`.
pub fn key(input: &[u8], delegated_key: &[u8]) -> (res: Result<Vec<u8>, Error>)
    requires
        !request_panics(input@, delegated_key@, Seq::empty()),
    ensures
        answers(res, key_reply(input@, delegated_key@)),
        laws::names_delegated_service(input@) && laws::wire_u16(input@, 10) == 1001 ==> forall|
            t: Seq<u8>,
        | #[trigger] reply_to(input@, delegated_key@, t) == key_reply(input@, delegated_key@),
{
    proof {
        assert forall|t: Seq<u8>|
            laws::names_delegated_service(input@) && laws::wire_u16(input@, 10) == 1001 implies #[trigger] reply_to(
            input@,
            delegated_key@,
            t,
        ) == key_reply(input@, delegated_key@) by {
            laws::key_reply_is_full_answer(input@, delegated_key@, t);
        }
    }
    serve_one(input, delegated_key, serde::RSS_DELEGATED_ATTEST_GET_DELEGATED_KEY)
}

/// Answers a request for the platform token held in `platform_token`.
pub fn token(input: &[u8], platform_token: &[u8]) -> (res: Result<Vec<u8>, Error>)
    requires
        !request_panics(input@, Seq::empty(), platform_token@),
    ensures
        answers(res, token_reply(input@, platform_token@)),
        laws::names_delegated_service(input@) && laws::wire_u16(input@, 10) == 1002 ==> forall|
            k: Seq<u8>,
        | #[trigger] reply_to(input@, k, platform_token@) == token_reply(input@, platform_token@),
{
    proof {
        assert forall|k: Seq<u8>|
            laws::names_delegated_service(input@) && laws::wire_u16(input@, 10) == 1002 implies #[trigger] reply_to(
            input@,
            k,
            platform_token@,
        ) == token_reply(input@, platform_token@) by {
            laws::token_reply_is_full_answer(input@, k, platform_token@);
        }
    }
    serve_one(input, platform_token, serde::RSS_DELEGATED_ATTEST_GET_PLATFORM_TOKEN)
}

/// Answers a delegated-attestation request of type `psa_type` with `content`.
fn serve_one(input: &[u8], content: &[u8], psa_type: i16) -> (res: Result<Vec<u8>, Error>)
    requires
        psa_type == serde::RSS_DELEGATED_ATTEST_GET_DELEGATED_KEY
            || psa_type == serde::RSS_DELEGATED_ATTEST_GET_PLATFORM_TOKEN,
        psa_type == serde::RSS_DELEGATED_ATTEST_GET_DELEGATED_KEY ==> !request_panics(
            input@,
            content@,
            Seq::empty(),
        ),
        psa_type == serde::RSS_DELEGATED_ATTEST_GET_PLATFORM_TOKEN ==> !request_panics(
            input@,
            Seq::empty(),
            content@,
        ),
    ensures
        psa_type == serde::RSS_DELEGATED_ATTEST_GET_DELEGATED_KEY ==> answers(
            res,
            key_reply(input@, content@),
        ),
        psa_type == serde::RSS_DELEGATED_ATTEST_GET_PLATFORM_TOKEN ==> answers(
            res,
            token_reply(input@, content@),
        ),
{
    let req = match Request::de(input) {
        Ok(req) => req,
        Err(e) => return Err(e),
    };
    if req.handle != serde::RSS_DELEGATED_SERVICE_HANDLE {
        return Err(Error::InvalidHandle);
    }
    if req.psa_type != psa_type {
        return Err(Error::InvalidType);
    }
    let res = match attest::perform(req, content, content) {
        Ok(r) => r,
        Err(e) => return Err(e),
    };
    proof {
        let vs = res.out_views();
        assert(serde::payload(vs, 0) =~= Seq::<u8>::empty());
        assert(serde::payload(vs, 1) =~= vs[0]);
    }
    res.ser()
}

} // verus!
