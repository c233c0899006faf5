//! The packed wire format of the comms channel.
//!
//! A request is a 4-byte header (protocol version, sequence number, client
//! id), then the embedded message: handle (`i32`), control word (`u32`: type
//! in its upper 16 bits, number of input vectors in bits 8..16, number of
//! output vectors in bits 0..8), four `u16` vector sizes, and a trailer that
//! holds the input vectors back to back. A reply is the same header, the
//! return value (`i32`), four `u16` output sizes, and the output vectors back
//! to back. Multi-byte fields are little-endian.
#![allow(non_camel_case_types)]

use vstd::prelude::*;
use super::Error;

verus! {

pub type psa_handle_t = i32;

pub const RSS_PLATFORM_SERVICE_HANDLE: psa_handle_t = 0x40000105;
pub const RSS_MEASURED_BOOT_HANDLE: psa_handle_t = 0x40000110;
pub const RSS_DELEGATED_SERVICE_HANDLE: psa_handle_t = 0x40000111;

pub const RSS_MEASURED_BOOT_READ: i16 = 1001;
pub const RSS_MEASURED_BOOT_EXTEND: i16 = 1002;

pub const RSS_DELEGATED_ATTEST_GET_DELEGATED_KEY: i16 = 1001;
pub const RSS_DELEGATED_ATTEST_GET_PLATFORM_TOKEN: i16 = 1002;

pub const PSA_MAX_IOVEC: usize = 4;
/// Size of the trailer of a message or a reply.
pub const PLAT_RSS_COMMS_PAYLOAD_MAX_SIZE: usize = 0x1000;

/// Size of the embedded message: handle, control word, four sizes, trailer.
/// A request longer than this is refused.
pub const RSS_EMBED_MSG_SIZE: usize = 4112;
/// Offset of the first input vector in a request.
pub const REQUEST_TRAILER_OFFSET: usize = 20;
/// Size of a reply without its output vectors.
pub const REPLY_FIXED_SIZE: usize = 16;

pub const PSA_SUCCESS: i32 = 0;

// ---------------------------------------------------------------------------
// Reading a request
// ---------------------------------------------------------------------------

/// Little-endian value of two bytes.
pub open spec fn le16(b0: u8, b1: u8) -> int {
    b0 + 256 * b1
}

pub open spec fn le16_at(s: Seq<u8>, i: int) -> int {
    le16(s[i], s[i + 1])
}

pub open spec fn le32_at(s: Seq<u8>, i: int) -> int {
    le16_at(s, i) + 65536 * le16_at(s, i + 2)
}

/// The two's complement reading of a 32-bit unsigned value.
pub open spec fn i32_of_u32(u: int) -> int {
    if u < 0x8000_0000 {
        u
    } else {
        u - 0x1_0000_0000
    }
}

pub open spec fn req_protocol_ver(s: Seq<u8>) -> u8 {
    s[0]
}

pub open spec fn req_seq_num(s: Seq<u8>) -> u8 {
    s[1]
}

pub open spec fn req_client_id(s: Seq<u8>) -> int {
    le16_at(s, 2)
}

pub open spec fn req_handle(s: Seq<u8>) -> int {
    i32_of_u32(le32_at(s, 4))
}

/// Number of output vectors: bits 0..8 of the control word.
pub open spec fn req_out_count(s: Seq<u8>) -> int {
    s[8] as int
}

/// Number of input vectors: bits 8..16 of the control word.
pub open spec fn req_in_count(s: Seq<u8>) -> int {
    s[9] as int
}

/// The type: bits 16..32 of the control word.
pub open spec fn req_type(s: Seq<u8>) -> int {
    le16_at(s, 10)
}

/// The `k`-th of the four vector sizes.
pub open spec fn req_io_size(s: Seq<u8>, k: int) -> int {
    le16_at(s, 12 + 2 * k)
}

/// Sum of the first `k` vector sizes: where input vector `k` starts in the trailer.
pub open spec fn in_offset(s: Seq<u8>, k: int) -> int
    decreases k,
{
    if k <= 0 {
        0
    } else {
        in_offset(s, k - 1) + req_io_size(s, k - 1)
    }
}

/// Input vector `k` of a request, empty past the declared number.
pub open spec fn req_in_vec(s: Seq<u8>, k: int) -> Seq<u8> {
    if k < req_in_count(s) {
        s.subrange(
            REQUEST_TRAILER_OFFSET + in_offset(s, k),
            REQUEST_TRAILER_OFFSET + in_offset(s, k) + req_io_size(s, k),
        )
    } else {
        Seq::empty()
    }
}

/// Declared length of output vector `k`: its size follows those of the
/// input vectors; 0 past the declared number.
pub open spec fn req_out_len(s: Seq<u8>, k: int) -> int {
    if k < req_out_count(s) {
        req_io_size(s, req_in_count(s) + k)
    } else {
        0
    }
}

/// The inputs on which decoding a request cannot go on: a type that does not
/// fit an `i16`, or more vectors than there are size fields.
pub open spec fn de_panics(s: Seq<u8>) -> bool {
    &&& REQUEST_TRAILER_OFFSET <= s.len() <= RSS_EMBED_MSG_SIZE
    &&& (req_type(s) > 0x7fff || req_in_count(s) + req_out_count(s) > PSA_MAX_IOVEC)
}

/// The inputs that decoding refuses: longer than the embedded message, shorter
/// than the fixed fields, or too short for the input vectors they declare.
pub open spec fn de_fails(s: Seq<u8>) -> bool {
    ||| s.len() > RSS_EMBED_MSG_SIZE
    ||| s.len() < REQUEST_TRAILER_OFFSET
    ||| REQUEST_TRAILER_OFFSET + in_offset(s, req_in_count(s)) > s.len()
}

/// A decoded request.
pub struct Request {
    pub protocol_ver: u8,
    pub seq_num: u8,
    pub client_id: u16,
    pub handle: psa_handle_t,
    pub psa_type: i16,
    pub in_vecs: [Vec<u8>; PSA_MAX_IOVEC],
    pub out_lens: [usize; PSA_MAX_IOVEC],
}

impl Request {
    /// Every field of `self` is the one that the bytes `s` encode.
    pub open spec fn decoded_from(&self, s: Seq<u8>) -> bool {
        &&& self.protocol_ver == req_protocol_ver(s)
        &&& self.seq_num == req_seq_num(s)
        &&& self.client_id == req_client_id(s)
        &&& self.handle == req_handle(s)
        &&& self.psa_type == req_type(s)
        &&& forall|k: int|
            0 <= k < PSA_MAX_IOVEC ==> #[trigger] self.in_vecs@[k]@ == req_in_vec(s, k)
        &&& forall|k: int|
            0 <= k < PSA_MAX_IOVEC ==> #[trigger] self.out_lens@[k] == req_out_len(s, k)
    }

    /// Whether decoding `input` cannot go on (see `de_panics`).
    pub fn de_would_panic(input: &[u8]) -> (r: bool)
        ensures
            r == de_panics(input@),
    {
        let len: usize = input.len();
        if len < REQUEST_TRAILER_OFFSET || len > RSS_EMBED_MSG_SIZE {
            return false;
        }
        let psa_type: u16 = read_u16(input, 10);
        let num_out: usize = input[8] as usize;
        let num_in: usize = input[9] as usize;
        psa_type > 0x7fff || num_in + num_out > PSA_MAX_IOVEC
    }

    /// Decodes a request. A request longer than the embedded message is
    /// refused; so is one too short for its fixed fields or for the input
    /// vectors it declares, whose bytes it would otherwise not hold.
    pub fn de(input: &[u8]) -> (res: Result<Self, Error>)
        requires
            !de_panics(input@),
        ensures
            res is Err <==> de_fails(input@),
            res matches Err(e) ==> e == Error::WrongDataLength,
            res matches Ok(r) ==> r.decoded_from(input@),
            res matches Ok(r) ==> forall|k: int|
                0 <= k < PSA_MAX_IOVEC ==> #[trigger] r.out_lens@[k] == (if k < input@[8] {
                    super::laws::wire_size(input@, input@[9] + k)
                } else {
                    0
                }),
            res matches Ok(r) ==> forall|k: int|
                0 <= k < PSA_MAX_IOVEC ==> (#[trigger] r.in_vecs@[k]@).len() == (if k < input@[9] {
                    super::laws::wire_size(input@, k)
                } else {
                    0
                }),
    {
        let len: usize = input.len();
        if len > RSS_EMBED_MSG_SIZE || len < REQUEST_TRAILER_OFFSET {
            return Err(Error::WrongDataLength);
        }
        let ghost s = input@;
        let client_id: u16 = read_u16(input, 2);
        let handle: i32 = read_i32(input, 4);
        let num_out: usize = input[8] as usize;
        let num_in: usize = input[9] as usize;
        let type_field: u16 = read_u16(input, 10);
        let psa_type: i16 = type_field as i16;

        let total: usize = in_total(input, num_in);
        if total > len - REQUEST_TRAILER_OFFSET {
            return Err(Error::WrongDataLength);
        }
        let in_vecs = [
            in_vec_at(input, 0, num_in),
            in_vec_at(input, 1, num_in),
            in_vec_at(input, 2, num_in),
            in_vec_at(input, 3, num_in),
        ];
        let out_lens = [
            out_len_at(input, 0, num_in, num_out),
            out_len_at(input, 1, num_in, num_out),
            out_len_at(input, 2, num_in, num_out),
            out_len_at(input, 3, num_in, num_out),
        ];
        let r = Request {
            protocol_ver: input[0],
            seq_num: input[1],
            client_id,
            handle,
            psa_type,
            in_vecs,
            out_lens,
        };
        assert forall|k: int| 0 <= k < PSA_MAX_IOVEC implies #[trigger] r.in_vecs@[k]@
            == req_in_vec(s, k) by {
            if k == 0 {
            } else if k == 1 {
            } else if k == 2 {
            } else {
            }
        }
        assert forall|k: int| 0 <= k < PSA_MAX_IOVEC implies #[trigger] r.out_lens@[k]
            == req_out_len(s, k) by {
            if k == 0 {
            } else if k == 1 {
            } else if k == 2 {
            } else {
            }
        }
        proof {
            super::laws::decoded_out_lens(r, s);
            super::laws::decoded_in_vecs(r, s);
        }
        Ok(r)
    }
}

fn read_u16(input: &[u8], i: usize) -> (v: u16)
    requires
        i + 1 < input@.len(),
    ensures
        v == le16_at(input@, i as int),
{
    input[i] as u16 + (input[i + 1] as u16) * 256
}

fn read_i32(input: &[u8], i: usize) -> (v: i32)
    requires
        i + 3 < input@.len(),
    ensures
        v == i32_of_u32(le32_at(input@, i as int)),
{
    let u: u32 = input[i] as u32 + (input[i + 1] as u32) * 256 + (input[i + 2] as u32) * 65536
        + (input[i + 3] as u32) * 16777216;
    if u < 0x8000_0000 {
        u as i32
    } else {
        i32::MIN + ((u - 0x8000_0000) as i32)
    }
}

proof fn lemma_in_offset_monotone(s: Seq<u8>, j: int, k: int)
    requires
        0 <= j <= k,
    ensures
        in_offset(s, j) <= in_offset(s, k),
        in_offset(s, k) >= 0,
    decreases k,
{
    if k > 0 {
        lemma_in_offset_monotone(s, if j == k { j - 1 } else { j }, k - 1);
    }
}

/// Sum of the first `n` vector sizes.
fn in_total(input: &[u8], n: usize) -> (t: usize)
    requires
        REQUEST_TRAILER_OFFSET <= input@.len(),
        n <= PSA_MAX_IOVEC,
    ensures
        t == in_offset(input@, n as int),
{
    let mut t: usize = 0;
    let mut k: usize = 0;
    while k < n
        invariant
            REQUEST_TRAILER_OFFSET <= input@.len(),
            n <= PSA_MAX_IOVEC,
            k <= n,
            t == in_offset(input@, k as int),
            t <= k * 65535,
        decreases n - k,
    {
        let size: u16 = read_u16(input, 12 + 2 * k);
        t = t + size as usize;
        k = k + 1;
    }
    t
}

fn in_vec_at(input: &[u8], k: usize, num_in: usize) -> (v: Vec<u8>)
    requires
        REQUEST_TRAILER_OFFSET <= input@.len(),
        k < PSA_MAX_IOVEC,
        num_in <= PSA_MAX_IOVEC,
        num_in == req_in_count(input@),
        REQUEST_TRAILER_OFFSET + in_offset(input@, num_in as int) <= input@.len(),
    ensures
        v@ == req_in_vec(input@, k as int),
{
    if k >= num_in {
        return Vec::new();
    }
    let len: usize = input.len();
    proof {
        lemma_in_offset_monotone(input@, k as int + 1, num_in as int);
        lemma_in_offset_monotone(input@, k as int, k as int);
        assert(in_offset(input@, k as int + 1) == in_offset(input@, k as int) + req_io_size(
            input@,
            k as int,
        ));
    }
    let start: usize = REQUEST_TRAILER_OFFSET + in_total(input, k);
    let size: usize = read_u16(input, 12 + 2 * k) as usize;
    copy_range(input, start, start + size)
}

fn out_len_at(input: &[u8], k: usize, num_in: usize, num_out: usize) -> (l: usize)
    requires
        REQUEST_TRAILER_OFFSET <= input@.len(),
        k < PSA_MAX_IOVEC,
        num_in == req_in_count(input@),
        num_out == req_out_count(input@),
        num_in + num_out <= PSA_MAX_IOVEC,
    ensures
        l == req_out_len(input@, k as int),
{
    if k < num_out {
        read_u16(input, 12 + 2 * (num_in + k)) as usize
    } else {
        0
    }
}

/// The bytes `input[start..end]`, copied.
pub fn copy_range(input: &[u8], start: usize, end: usize) -> (v: Vec<u8>)
    requires
        start <= end <= input@.len(),
    ensures
        v@ == input@.subrange(start as int, end as int),
{
    let mut v: Vec<u8> = Vec::new();
    let mut i: usize = start;
    while i < end
        invariant
            start <= i <= end <= input@.len(),
            v@ == input@.subrange(start as int, i as int),
        decreases end - i,
    {
        v.push(input[i]);
        i = i + 1;
    }
    v
}

// ---------------------------------------------------------------------------
// Writing a reply
// ---------------------------------------------------------------------------

/// Two little-endian bytes of `v`.
pub open spec fn le16_bytes(v: int) -> Seq<u8> {
    seq![(v % 256) as u8, (v / 256 % 256) as u8]
}

/// Four little-endian bytes of `v`.
pub open spec fn le32_bytes(v: int) -> Seq<u8> {
    seq![(v % 256) as u8, (v / 256 % 256) as u8, (v / 65536 % 256) as u8, (v / 16777216 % 256) as u8]
}

/// The two's complement bit pattern of a 32-bit signed value, as unsigned.
pub open spec fn u32_of_i32(v: int) -> int {
    if v < 0 {
        v + 0x1_0000_0000
    } else {
        v
    }
}

/// How many of the four output vectors are sent: those before the first empty one.
pub open spec fn lead_count(vs: Seq<Seq<u8>>) -> int {
    if vs[0].len() == 0 {
        0
    } else if vs[1].len() == 0 {
        1
    } else if vs[2].len() == 0 {
        2
    } else if vs[3].len() == 0 {
        3
    } else {
        4
    }
}

/// The first `n` vectors of `vs`, back to back.
pub open spec fn payload(vs: Seq<Seq<u8>>, n: int) -> Seq<u8>
    decreases n,
{
    if n <= 0 {
        Seq::empty()
    } else {
        payload(vs, n - 1) + vs[n - 1]
    }
}

/// The size field of output vector `k`: its length if it is sent, else 0.
pub open spec fn out_size(vs: Seq<Seq<u8>>, k: int) -> int {
    if k < lead_count(vs) {
        vs[k].len() as int
    } else {
        0
    }
}

/// The bytes of a reply.
pub open spec fn reply_bytes(
    protocol_ver: u8,
    seq_num: u8,
    client_id: int,
    return_val: int,
    vs: Seq<Seq<u8>>,
) -> Seq<u8> {
    seq![protocol_ver, seq_num] + le16_bytes(client_id) + le32_bytes(u32_of_i32(return_val))
        + le16_bytes(out_size(vs, 0)) + le16_bytes(out_size(vs, 1)) + le16_bytes(out_size(vs, 2))
        + le16_bytes(out_size(vs, 3)) + payload(vs, lead_count(vs))
}

/// The output vectors that cannot be encoded: what is sent does not fit the
/// trailer.
pub open spec fn ser_panics(vs: Seq<Seq<u8>>) -> bool {
    payload(vs, lead_count(vs)).len() > PLAT_RSS_COMMS_PAYLOAD_MAX_SIZE
}

/// A reply to be encoded.
pub struct Response {
    pub protocol_ver: u8,
    pub seq_num: u8,
    pub client_id: u16,
    pub return_val: i32,
    pub out_vecs: [Vec<u8>; PSA_MAX_IOVEC],
}

impl Response {
    pub open spec fn out_views(&self) -> Seq<Seq<u8>> {
        self.out_vecs@.map_values(|v: Vec<u8>| v@)
    }

    /// The bytes that encode `self`.
    pub open spec fn serialized(&self) -> Seq<u8> {
        reply_bytes(
            self.protocol_ver,
            self.seq_num,
            self.client_id as int,
            self.return_val as int,
            self.out_views(),
        )
    }

    /// Encodes the reply. The output vectors are sent up to the first empty one.
    pub fn ser(&self) -> (res: Result<Vec<u8>, Error>)
        requires
            !ser_panics(self.out_views()),
        ensures
            res matches Ok(v) && v@ == self.serialized(),
    {
        let ghost vs = self.out_views();
        let mut out: Vec<u8> = Vec::new();
        out.push(self.protocol_ver);
        out.push(self.seq_num);
        push_le16(&mut out, self.client_id);
        push_le32(&mut out, u32_bits(self.return_val));

        let mut count: usize = 0;
        while count < PSA_MAX_IOVEC && self.out_vecs[count].len() != 0
            invariant
                count <= PSA_MAX_IOVEC,
                vs == self.out_views(),
                forall|j: int| 0 <= j < count ==> (#[trigger] vs[j]).len() != 0,
            decreases PSA_MAX_IOVEC - count,
        {
            count = count + 1;
        }
        assert(count == lead_count(vs)) by {
            if count < 4 {
                assert(vs[count as int].len() == 0);
            }
            if count > 0 {
                assert(vs[0].len() != 0);
            }
            if count > 1 {
                assert(vs[1].len() != 0);
            }
            if count > 2 {
                assert(vs[2].len() != 0);
            }
            if count > 3 {
                assert(vs[3].len() != 0);
            }
        }
        proof {
            lemma_payload_bounds(vs, count as int);
            assert forall|j: int| 0 <= j < count implies (#[trigger] self.out_vecs@[j])@.len()
                <= PLAT_RSS_COMMS_PAYLOAD_MAX_SIZE by {
                assert(vs[j] == self.out_vecs@[j]@);
            }
        }
        push_le16(&mut out, size_field(&self.out_vecs, 0, count));
        push_le16(&mut out, size_field(&self.out_vecs, 1, count));
        push_le16(&mut out, size_field(&self.out_vecs, 2, count));
        push_le16(&mut out, size_field(&self.out_vecs, 3, count));
        let ghost head = out@;

        let mut k: usize = 0;
        while k < count
            invariant
                k <= count <= PSA_MAX_IOVEC,
                vs == self.out_views(),
                out@ == head + payload(vs, k as int),
            decreases count - k,
        {
            append_bytes(&mut out, &self.out_vecs[k]);
            k = k + 1;
        }
        assert(out@ =~= self.serialized());
        Ok(out)
    }
}

proof fn lemma_payload_bounds(vs: Seq<Seq<u8>>, n: int)
    requires
        0 <= n <= vs.len(),
    ensures
        forall|k: int| 0 <= k < n ==> (#[trigger] vs[k]).len() <= payload(vs, n).len(),
        n <= 1 ==> payload(vs, n).len() == (if n == 1 { vs[0].len() as int } else { 0 }),
    decreases n,
{
    if n > 0 {
        lemma_payload_bounds(vs, n - 1);
    }
}

fn size_field(out_vecs: &[Vec<u8>; PSA_MAX_IOVEC], k: usize, count: usize) -> (v: u16)
    requires
        k < PSA_MAX_IOVEC,
        count <= PSA_MAX_IOVEC,
        forall|j: int|
            0 <= j < count ==> (#[trigger] out_vecs@[j])@.len() <= PLAT_RSS_COMMS_PAYLOAD_MAX_SIZE,
    ensures
        v == (if k < count { out_vecs@[k as int]@.len() as int } else { 0 }),
{
    if k < count {
        assert(out_vecs@[k as int]@.len() <= PLAT_RSS_COMMS_PAYLOAD_MAX_SIZE);
        out_vecs[k].len() as u16
    } else {
        0
    }
}

fn u32_bits(v: i32) -> (u: u32)
    ensures
        u == u32_of_i32(v as int),
{
    if v < 0 {
        ((v + i32::MAX + 1) as u32) + 0x8000_0000
    } else {
        v as u32
    }
}

fn push_le16(out: &mut Vec<u8>, v: u16)
    ensures
        final(out)@ == old(out)@ + le16_bytes(v as int),
{
    out.push((v % 256) as u8);
    out.push((v / 256 % 256) as u8);
    assert(final(out)@ =~= old(out)@ + le16_bytes(v as int));
}

fn push_le32(out: &mut Vec<u8>, v: u32)
    ensures
        final(out)@ == old(out)@ + le32_bytes(v as int),
{
    out.push((v % 256) as u8);
    out.push((v / 256 % 256) as u8);
    out.push((v / 65536 % 256) as u8);
    out.push((v / 16777216 % 256) as u8);
    assert(final(out)@ =~= old(out)@ + le32_bytes(v as int));
}

fn append_bytes(out: &mut Vec<u8>, src: &Vec<u8>)
    ensures
        final(out)@ == old(out)@ + src@,
{
    let mut i: usize = 0;
    while i < src.len()
        invariant
            i <= src@.len(),
            out@ == old(out)@ + src@.subrange(0, i as int),
        decreases src@.len() - i,
    {
        out.push(src[i]);
        i = i + 1;
    }
    assert(src@.subrange(0, src@.len() as int) =~= src@);
}

} // verus!
