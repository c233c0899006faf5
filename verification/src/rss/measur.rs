//! The measured-boot service.
use vstd::prelude::*;
use super::Error;
use super::serde::{self, Request, Response};

verus! {

/// What the measured-boot service answers to a request of type `psa_type`
/// whose first output vector has the declared length `out_len0`: an extend
/// with no output vector succeeds with nothing to send back; a read, or any
/// other type, is refused.
pub open spec fn measured_boot_outcome(psa_type: int, out_len0: int) -> Result<(), Error> {
    if psa_type != serde::RSS_MEASURED_BOOT_EXTEND {
        Err(Error::InvalidType)
    } else if out_len0 != 0 {
        Err(Error::InvalidVectors)
    } else {
        Ok(())
    }
}

/// Handles a measured-boot request. Only extending is supported; what is
/// extended is not kept.
pub fn perform(req: Request) -> (res: Result<Response, Error>)
    ensures
        measured_boot_outcome(req.psa_type as int, req.out_lens@[0] as int) matches Err(e)
            ==> res == Err::<Response, Error>(e),
        measured_boot_outcome(req.psa_type as int, req.out_lens@[0] as int) is Ok ==> (
        res matches Ok(r) && {
            &&& r.protocol_ver == req.protocol_ver
            &&& r.seq_num == req.seq_num
            &&& r.client_id == req.client_id
            &&& r.return_val == serde::PSA_SUCCESS
            &&& r.out_views() == seq![Seq::<u8>::empty(), Seq::empty(), Seq::empty(), Seq::empty()]
        }),
{
    if req.psa_type == serde::RSS_MEASURED_BOOT_READ {
        return Err(Error::InvalidType);
    } else if req.psa_type != serde::RSS_MEASURED_BOOT_EXTEND {
        return Err(Error::InvalidType);
    }
    /* nothing is sent back */
    if req.out_lens[0] != 0 {
        return Err(Error::InvalidVectors);
    }

    let out_vecs: [Vec<u8>; serde::PSA_MAX_IOVEC] = [Vec::new(), Vec::new(), Vec::new(), Vec::new()];
    let r = Response {
        protocol_ver: req.protocol_ver,
        seq_num: req.seq_num,
        client_id: req.client_id,
        return_val: serde::PSA_SUCCESS,
        out_vecs,
    };
    assert(r.out_views() =~= seq![Seq::<u8>::empty(), Seq::empty(), Seq::empty(), Seq::empty()]);
    Ok(r)
}

} // verus!
