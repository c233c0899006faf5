use rss_comms::rss::attest;
use rss_comms::rss::measur;
use rss_comms::rss::serde::{
    Request, Response, PSA_SUCCESS, RSS_DELEGATED_ATTEST_GET_DELEGATED_KEY,
    RSS_DELEGATED_ATTEST_GET_PLATFORM_TOKEN, RSS_DELEGATED_SERVICE_HANDLE,
    RSS_MEASURED_BOOT_EXTEND, RSS_MEASURED_BOOT_HANDLE, RSS_MEASURED_BOOT_READ,
    RSS_PLATFORM_SERVICE_HANDLE,
};
use rss_comms::rss::{do_request, key, request_would_panic, token, Error};

const HEADER: [u8; 4] = [1, 7, 0x34, 0x12];

/// Builds request bytes: header, handle, control word, four sizes, trailer.
fn request(handle: i32, psa_type: u16, n_in: u8, n_out: u8, sizes: [u16; 4], trailer: &[u8]) -> Vec<u8> {
    let mut v = HEADER.to_vec();
    v.extend_from_slice(&handle.to_le_bytes());
    v.push(n_out);
    v.push(n_in);
    v.extend_from_slice(&psa_type.to_le_bytes());
    for s in sizes {
        v.extend_from_slice(&s.to_le_bytes());
    }
    v.extend_from_slice(trailer);
    v
}

fn reply(sizes: [u16; 4], payload: &[u8]) -> Vec<u8> {
    let mut v = HEADER.to_vec();
    v.extend_from_slice(&0i32.to_le_bytes());
    for s in sizes {
        v.extend_from_slice(&s.to_le_bytes());
    }
    v.extend_from_slice(payload);
    v
}

const KEY: &[u8] = &[0xde, 0xad, 0xbe, 0xef, 0x01];
const TOKEN: &[u8] = &[0x10, 0x20, 0x30];

fn key_request(out_len: u16) -> Vec<u8> {
    request(
        RSS_DELEGATED_SERVICE_HANDLE,
        RSS_DELEGATED_ATTEST_GET_DELEGATED_KEY as u16,
        1,
        1,
        [2, out_len, 0, 0],
        &[0xaa, 0xbb],
    )
}

fn token_request(out_len: u16) -> Vec<u8> {
    request(
        RSS_DELEGATED_SERVICE_HANDLE,
        RSS_DELEGATED_ATTEST_GET_PLATFORM_TOKEN as u16,
        0,
        1,
        [out_len, 0, 0, 0],
        &[],
    )
}

fn extend_request() -> Vec<u8> {
    request(
        RSS_MEASURED_BOOT_HANDLE,
        RSS_MEASURED_BOOT_EXTEND as u16,
        2,
        0,
        [3, 1, 0, 0],
        &[1, 2, 3, 4],
    )
}

#[test]
fn delegated_key_is_sent_back() {
    let input = key_request(64);
    assert!(!request_would_panic(&input, KEY, TOKEN));
    let out = do_request(&input, KEY, TOKEN).unwrap();
    assert_eq!(out, reply([5, 0, 0, 0], KEY));
    assert_eq!(out.len(), 16 + KEY.len());
}

#[test]
fn platform_token_is_sent_back() {
    let input = token_request(3);
    let out = do_request(&input, KEY, TOKEN).unwrap();
    assert_eq!(out, reply([3, 0, 0, 0], TOKEN));
}

#[test]
fn empty_secret_gives_a_reply_without_vectors() {
    let input = token_request(3);
    let out = do_request(&input, KEY, &[]).unwrap();
    assert_eq!(out, reply([0, 0, 0, 0], &[]));
}

#[test]
fn measured_boot_extend_is_acknowledged() {
    let input = extend_request();
    let out = do_request(&input, KEY, TOKEN).unwrap();
    assert_eq!(out, reply([0, 0, 0, 0], &[]));
    assert_eq!(out.len(), 16);
    assert_eq!(&out[..4], &input[..4]);
}

#[test]
fn measured_boot_read_is_refused() {
    let input = request(RSS_MEASURED_BOOT_HANDLE, RSS_MEASURED_BOOT_READ as u16, 0, 1, [8, 0, 0, 0], &[]);
    assert_eq!(do_request(&input, KEY, TOKEN), Err(Error::InvalidType));
}

#[test]
fn measured_boot_unknown_type_is_refused() {
    let input = request(RSS_MEASURED_BOOT_HANDLE, 7, 0, 0, [0, 0, 0, 0], &[]);
    assert_eq!(do_request(&input, KEY, TOKEN), Err(Error::InvalidType));
}

#[test]
fn measured_boot_with_output_vector_is_refused() {
    let input = request(RSS_MEASURED_BOOT_HANDLE, RSS_MEASURED_BOOT_EXTEND as u16, 0, 1, [4, 0, 0, 0], &[]);
    assert_eq!(do_request(&input, KEY, TOKEN), Err(Error::InvalidVectors));
}

#[test]
fn platform_service_is_refused() {
    let input = request(RSS_PLATFORM_SERVICE_HANDLE, 1, 0, 0, [0, 0, 0, 0], &[]);
    assert_eq!(do_request(&input, KEY, TOKEN), Err(Error::InvalidHandle));
}

#[test]
fn unknown_handle_is_refused() {
    let input = request(-1, 1, 0, 0, [0, 0, 0, 0], &[]);
    assert_eq!(do_request(&input, KEY, TOKEN), Err(Error::InvalidHandle));
    let req = Request::de(&input).ok().unwrap();
    assert_eq!(req.handle, -1);
}

#[test]
fn oversized_request_is_refused() {
    let mut input = token_request(3);
    input.resize(4113, 0);
    assert_eq!(do_request(&input, KEY, TOKEN), Err(Error::WrongDataLength));
    input.truncate(4112);
    assert_eq!(do_request(&input, KEY, TOKEN).unwrap(), reply([3, 0, 0, 0], TOKEN));
}

#[test]
fn truncated_request_is_refused() {
    let input = token_request(3);
    assert_eq!(do_request(&input[..19], KEY, TOKEN), Err(Error::WrongDataLength));
    assert_eq!(do_request(&[], KEY, TOKEN), Err(Error::WrongDataLength));
}

#[test]
fn missing_input_vector_bytes_are_refused() {
    let input = request(RSS_MEASURED_BOOT_HANDLE, RSS_MEASURED_BOOT_EXTEND as u16, 1, 0, [5, 0, 0, 0], &[1, 2, 3, 4]);
    assert_eq!(do_request(&input, KEY, TOKEN), Err(Error::WrongDataLength));
}

#[test]
fn attestation_without_output_vector_is_refused() {
    let input = key_request(0);
    assert_eq!(do_request(&input, KEY, TOKEN), Err(Error::InvalidVectors));
}

#[test]
fn attestation_with_two_output_vectors_is_refused() {
    let input = request(
        RSS_DELEGATED_SERVICE_HANDLE,
        RSS_DELEGATED_ATTEST_GET_DELEGATED_KEY as u16,
        0,
        2,
        [16, 16, 0, 0],
        &[],
    );
    assert_eq!(do_request(&input, KEY, TOKEN), Err(Error::InvalidVectors));
}

#[test]
fn secret_larger_than_output_vector_is_refused() {
    let input = key_request(4);
    assert_eq!(do_request(&input, KEY, TOKEN), Err(Error::InvalidVectors));
    let input = key_request(5);
    assert!(do_request(&input, KEY, TOKEN).is_ok());
}

#[test]
fn unknown_attestation_type_is_refused() {
    let input = request(RSS_DELEGATED_SERVICE_HANDLE, 999, 0, 1, [16, 0, 0, 0], &[]);
    assert_eq!(do_request(&input, KEY, TOKEN), Err(Error::InvalidType));
}

#[test]
fn decoding_splits_the_trailer() {
    let input = request(
        RSS_MEASURED_BOOT_HANDLE,
        RSS_MEASURED_BOOT_EXTEND as u16,
        2,
        2,
        [2, 3, 40, 50],
        &[9, 8, 7, 6, 5, 0xff],
    );
    let req = Request::de(&input).ok().unwrap();
    assert_eq!(req.protocol_ver, 1);
    assert_eq!(req.seq_num, 7);
    assert_eq!(req.client_id, 0x1234);
    assert_eq!(req.handle, RSS_MEASURED_BOOT_HANDLE);
    assert_eq!(req.psa_type, RSS_MEASURED_BOOT_EXTEND);
    assert_eq!(req.in_vecs[0], vec![9, 8]);
    assert_eq!(req.in_vecs[1], vec![7, 6, 5]);
    assert!(req.in_vecs[2].is_empty());
    assert!(req.in_vecs[3].is_empty());
    assert_eq!(req.out_lens, [40, 50, 0, 0]);
}

#[test]
fn encoding_stops_at_the_first_empty_vector() {
    let res = Response {
        protocol_ver: 2,
        seq_num: 3,
        client_id: 0x0102,
        return_val: -2,
        out_vecs: [vec![1, 2], vec![3], vec![], vec![4, 5]],
    };
    let out = res.ser().ok().unwrap();
    assert_eq!(out, vec![2, 3, 0x02, 0x01, 0xfe, 0xff, 0xff, 0xff, 2, 0, 1, 0, 0, 0, 0, 0, 1, 2, 3]);
}

#[test]
fn encoding_sends_all_four_vectors() {
    let res = Response {
        protocol_ver: 0,
        seq_num: 0,
        client_id: 0,
        return_val: PSA_SUCCESS,
        out_vecs: [vec![1], vec![2], vec![3], vec![4; 300]],
    };
    let out = res.ser().ok().unwrap();
    assert_eq!(out.len(), 16 + 303);
    assert_eq!(&out[8..16], &[1, 0, 1, 0, 1, 0, 0x2c, 0x01]);
    assert_eq!(&out[16..19], &[1, 2, 3]);
}

#[test]
fn services_keep_the_header() {
    let req = Request::de(&key_request(16)).ok().unwrap();
    let res = attest::perform(req, KEY, TOKEN).ok().unwrap();
    assert_eq!((res.protocol_ver, res.seq_num, res.client_id, res.return_val), (1, 7, 0x1234, 0));
    assert_eq!(res.out_vecs[0], KEY.to_vec());
    let req = Request::de(&extend_request()).ok().unwrap();
    let res = measur::perform(req).ok().unwrap();
    assert_eq!((res.protocol_ver, res.seq_num, res.client_id, res.return_val), (1, 7, 0x1234, 0));
    assert!(res.out_vecs.iter().all(|v| v.is_empty()));
}

#[test]
fn type_beyond_i16_cannot_be_decoded() {
    let input = request(RSS_DELEGATED_SERVICE_HANDLE, 0x8000, 0, 1, [16, 0, 0, 0], &[]);
    assert!(Request::de_would_panic(&input));
    assert!(request_would_panic(&input, KEY, TOKEN));
}

#[test]
fn too_many_vectors_cannot_be_decoded() {
    let input = request(RSS_DELEGATED_SERVICE_HANDLE, 1001, 3, 2, [0, 0, 0, 0], &[]);
    assert!(Request::de_would_panic(&input));
    assert!(request_would_panic(&input, KEY, TOKEN));
    let ok = request(RSS_DELEGATED_SERVICE_HANDLE, 1001, 3, 1, [0, 0, 0, 16], &[]);
    assert!(!Request::de_would_panic(&ok));
}

#[test]
fn secret_beyond_the_trailer_cannot_be_encoded() {
    let big = vec![7u8; 5000];
    let input = key_request(6000);
    assert!(request_would_panic(&input, &big, TOKEN));
    assert!(!request_would_panic(&input, &big[..4096], TOKEN));
    let out = do_request(&input, &big[..4096], TOKEN).unwrap();
    assert_eq!(out.len(), 16 + 4096);
    assert!(!request_would_panic(&token_request(6000), &big, TOKEN));
}

#[test]
fn key_serves_only_key_requests() {
    let input = key_request(64);
    assert_eq!(key(&input, KEY).unwrap(), do_request(&input, KEY, TOKEN).unwrap());
    assert_eq!(key(&token_request(64), KEY), Err(Error::InvalidType));
    assert_eq!(key(&extend_request(), KEY), Err(Error::InvalidHandle));
    assert_eq!(key(&input[..10], KEY), Err(Error::WrongDataLength));
    assert_eq!(key(&key_request(2), KEY), Err(Error::InvalidVectors));
}

#[test]
fn token_serves_only_token_requests() {
    let input = token_request(64);
    assert_eq!(token(&input, TOKEN).unwrap(), do_request(&input, KEY, TOKEN).unwrap());
    assert_eq!(token(&key_request(64), TOKEN), Err(Error::InvalidType));
    assert_eq!(token(&extend_request(), TOKEN), Err(Error::InvalidHandle));
}

#[test]
fn reply_echoes_header_and_success() {
    for input in [key_request(64), token_request(64), extend_request()] {
        let out = do_request(&input, KEY, TOKEN).unwrap();
        assert_eq!(&out[0..4], &input[0..4]);
        assert_eq!(&out[4..8], &[0, 0, 0, 0]);
        assert!(out.len() <= 16 + 4096);
    }
}
