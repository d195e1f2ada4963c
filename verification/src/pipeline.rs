//! The orchestrator: one request's path through the stages
//! spec decoding, URL decoding, cache resolution, image decoding,
//! transformation and encoding, with precise error attribution. Every stage
//! is fail-fast; a failed fetch never populates the cache.
//!
//! Everything after the fetch is deterministic in the fetched bytes and the
//! operation list: `pipeline_verdict` names the error such a request fails
//! with, or nothing when success is owed.

use vstd::prelude::*;
use crate::cache::{
    cache_capacity, cache_entries, cache_wf, has_key, key_index, put_model, touch, Cache,
};
use crate::codec;
use crate::codec::decode_ops;
use crate::errors::{ErrorKind, FetchError};
use crate::fingerprint::{cache_key_of, fingerprint_of};
use crate::ops::Operation;
use crate::transform;
use crate::transform::{decoded_dims, fold_dims};

verus! {

/// What percent-decoding a path segment lossily yields: the segment's bytes
/// with percent-escapes replaced, read as UTF-8, invalid sequences becoming
/// replacement characters. A function of the segment alone.
pub uninterp spec fn lossy_decoded(s: Seq<char>) -> Seq<char>;

/// Relies on percent_encoding::percent_decode_str and its decode_utf8_lossy:
/// percent-decodes the segment, then interprets the bytes as UTF-8, replacing
/// invalid sequences with the replacement character rather than failing. The
/// result depends on the input string alone.
#[verifier::external_body]
fn percent_decode_lossy(s: &str) -> (r: String)
    ensures
        r@ == lossy_decoded(s@),
{
    percent_encoding::percent_decode_str(s).decode_utf8_lossy().into_owned()
}

/// The cache key a URL path segment resolves to: the fingerprint of the
/// lossily percent-decoded segment.
pub open spec fn key_of_segment(url_segment: Seq<char>) -> u64 {
    fingerprint_of(lossy_decoded(url_segment))
}

/// The outcome the stages after the fetch owe for these fetched bytes and
/// operations: the decode error when the bytes are not an image (or decode
/// to a degenerate zero-dimension image), the operation error when the
/// in-order fold of the operations fails on the decoded dimensions, and
/// nothing — success owed — otherwise.
pub open spec fn pipeline_verdict(bytes: Seq<u8>, ops: Seq<Operation>) -> Option<ErrorKind> {
    match decoded_dims(bytes) {
        None => Some(ErrorKind::Decode),
        Some(d) => if !(1 <= d.0 && 1 <= d.1) {
            Some(ErrorKind::Decode)
        } else if fold_dims(d, ops) is None {
            Some(ErrorKind::Operation)
        } else {
            None
        },
    }
}

/// The response owed once the source bytes are known: the verdict's error,
/// or a non-empty body on success.
pub open spec fn response_matches(
    r: Result<Vec<u8>, ErrorKind>,
    bytes: Seq<u8>,
    ops: Seq<Operation>,
) -> bool {
    match pipeline_verdict(bytes, ops) {
        Some(e) => r == Err::<Vec<u8>, ErrorKind>(e),
        None => (r matches Ok(body) && body@.len() > 0),
    }
}

/// How a request on a missing key ends: one outcome of `fetch` decides it.
/// A fetched value is stored under `key` (evicting by recency at capacity
/// `cap`) and the response follows the verdict on those bytes; a failed
/// fetch leaves the entries unchanged and surfaces as that fetch error.
pub open spec fn miss_outcome<F: FnOnce() -> Result<Vec<u8>, FetchError>>(
    fetch: F,
    pre: Seq<(u64, Seq<u8>)>,
    post: Seq<(u64, Seq<u8>)>,
    key: u64,
    cap: nat,
    r: Result<Vec<u8>, ErrorKind>,
    ops: Seq<Operation>,
) -> bool {
    exists|out: Result<Vec<u8>, FetchError>|
        #[trigger] call_ensures(fetch, (), out) && (match out {
            Ok(b) => post == put_model(pre, key, b@, cap) && response_matches(r, b@, ops),
            Err(e) => post == pre && r == Err::<Vec<u8>, ErrorKind>(ErrorKind::Fetch(e)),
        })
}

/// Serves one request: decodes the spec token, percent-decodes the URL
/// segment, resolves the source bytes through the cache (fetching on a
/// miss), decodes them as an image, applies the operations in order, and
/// encodes the result as PNG.
///
/// Errors attribute the first failing stage: `InvalidSpec` exactly when the
/// token is malformed (the cache is then untouched); after that the request
/// is decided by the source bytes — the cached ones on a hit, one fetch
/// outcome on a miss — through `pipeline_verdict`: `Fetch` exactly when a
/// miss's fetch failed (the cache is then unchanged), `Decode` exactly when
/// the bytes are not an image, `Operation` exactly when a transformation
/// step fails, and otherwise success, with a non-empty PNG body.
pub fn handle_request<F: FnOnce() -> Result<Vec<u8>, FetchError>>(
    cache: &mut Cache,
    spec_token: &str,
    url_segment: &str,
    fetch: F,
) -> (r: Result<Vec<u8>, ErrorKind>)
    requires
        call_requires(fetch, ()),
    ensures
        cache_capacity(*final(cache)) == cache_capacity(*old(cache)),
        cache_wf(&*old(cache)) ==> cache_wf(&*final(cache)),
        (r == Err::<Vec<u8>, ErrorKind>(ErrorKind::InvalidSpec)) <==> decode_ops(spec_token@)
            is None,
        decode_ops(spec_token@) is None ==> cache_entries(*final(cache)) == cache_entries(
            *old(cache),
        ),
        (decode_ops(spec_token@) matches Some(ops) ==> {
            let key = key_of_segment(url_segment@);
            let pre = cache_entries(*old(cache));
            &&& (has_key(pre, key) ==> {
                &&& cache_entries(*final(cache)) == touch(pre, key)
                &&& response_matches(r, pre[key_index(pre, key)].1, ops)
            })
            &&& (!has_key(pre, key) ==> miss_outcome(
                fetch,
                pre,
                cache_entries(*final(cache)),
                key,
                cache_capacity(*old(cache)),
                r,
                ops,
            ))
        }),
        (r matches Err(e) ==> (e matches ErrorKind::Fetch(fe) ==> {
            &&& !has_key(cache_entries(*old(cache)), key_of_segment(url_segment@))
            &&& call_ensures(fetch, (), Err::<Vec<u8>, FetchError>(fe))
            &&& cache_entries(*final(cache)) == cache_entries(*old(cache))
        })),
        r matches Ok(body) ==> body@.len() > 0,
{
    let image_spec = match codec::decode(spec_token) {
        Ok(s) => s,
        Err(_) => {
            return Err(ErrorKind::InvalidSpec);
        },
    };
    let ghost ops = decode_ops(spec_token@).unwrap();
    let url = percent_decode_lossy(url_segment);
    let key = cache_key_of(url.as_str());
    let fetched = cache.get_or_fetch(key, fetch);
    let data = match fetched {
        Ok(b) => b,
        Err(e) => {
            proof {
                assert(call_ensures(fetch, (), Result::<Vec<u8>, FetchError>::Err(e)));
            }
            return Err(ErrorKind::Fetch(e));
        },
    };
    proof {
        if !has_key(cache_entries(*old(cache)), key) {
            assert(call_ensures(fetch, (), Result::<Vec<u8>, FetchError>::Ok(data)));
        }
    }
    let img = match transform::decode_image(&data) {
        Ok(i) => i,
        Err(e) => {
            return Err(e);
        },
    };
    let out = match transform::apply_all(img, &image_spec.specs) {
        Ok(i) => i,
        Err(e) => {
            return Err(e);
        },
    };
    proof {
        let d = decoded_dims(data@).unwrap();
        transform::lemma_fold_dims_positive(d, ops);
    }
    Ok(transform::encode_png(&out))
}

} // verus!
