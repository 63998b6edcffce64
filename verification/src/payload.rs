//! Payloads: `Bytes` buffers, their contents, and byte ranges cut out of
//! them without copying.

use crate::errors::RangeError;
use bytes::Bytes;
use std::ops::Range;
use vstd::prelude::*;
use vstd::string::StringSliceAdditionalSpecFns;

verus! {

broadcast use vstd::slice::group_slice_axioms;

#[verifier::external_type_specification]
#[verifier::external_body]
pub struct ExBytes(Bytes);

/// The bytes that a `Bytes` buffer holds, first to last.
pub uninterp spec fn bytes_contents(b: Bytes) -> Seq<u8>;

/// `Bytes::len`: the number of bytes held.
#[verifier::external_body]
pub(crate) fn bytes_len(b: &Bytes) -> (n: usize)
    ensures
        n == bytes_contents(*b).len(),
{
    b.len()
}

/// `Bytes::slice` on `start..end`: a handle on that part of the same bytes.
/// The outside function panics unless `start <= end <= len`, hence the
/// `requires`.
#[verifier::external_body]
pub(crate) fn bytes_slice(b: &Bytes, start: usize, end: usize) -> (part: Bytes)
    requires
        start <= end <= bytes_contents(*b).len(),
    ensures
        bytes_contents(part) == bytes_contents(*b).subrange(start as int, end as int),
{
    b.slice(start..end)
}

/// `Bytes::from` on a `Vec<u8>`: the buffer takes over the vector's bytes.
#[verifier::external_body]
fn bytes_from_vec(v: Vec<u8>) -> (b: Bytes)
    ensures
        bytes_contents(b) == v@,
{
    Bytes::from(v)
}

/// A payload that holds the given bytes.
pub fn payload_from(bytes: Vec<u8>) -> (payload: Bytes)
    ensures
        bytes_contents(payload) == bytes@,
{
    bytes_from_vec(bytes)
}

/// The part `start..end` of `payload`, or the reason why there is none: a
/// range that ends behind the payload is out of range; one that ends within
/// it but starts behind its own end is bad.
pub open spec fn slice_of(payload: Seq<u8>, start: int, end: int) -> Result<Seq<u8>, RangeError> {
    if end > payload.len() {
        Err(RangeError::OutOfRange)
    } else if start > end {
        Err(RangeError::BadRange)
    } else {
        Ok(payload.subrange(start, end))
    }
}

/// What a buffer result holds, with each buffer taken by its contents.
pub open spec fn slice_contents(r: Result<Bytes, RangeError>) -> Result<Seq<u8>, RangeError> {
    match r {
        Ok(b) => Ok(bytes_contents(b)),
        Err(e) => Err(e),
    }
}

/// The two ends of an optional range, as numbers.
pub open spec fn range_bounds(range: Option<Range<usize>>) -> Option<(int, int)> {
    match range {
        Some(r) => Some((r.start as int, r.end as int)),
        None => None,
    }
}

/// What the answer to a lookup holds, with each buffer taken by its
/// contents.
pub open spec fn answer_contents(r: Result<Option<Bytes>, RangeError>) -> Result<
    Option<Seq<u8>>,
    RangeError,
> {
    match r {
        Ok(Some(b)) => Ok(Some(bytes_contents(b))),
        Ok(None) => Ok(None),
        Err(e) => Err(e),
    }
}

/// Cuts `range` out of `data` without copying, or says why it cannot.
pub fn slice_range(data: &Bytes, range: Range<usize>) -> (r: Result<Bytes, RangeError>)
    ensures
        slice_contents(r) == slice_of(bytes_contents(*data), range.start as int, range.end as int),
{
    if range.end > bytes_len(data) {
        Err(RangeError::OutOfRange)
    } else if range.start > range.end {
        Err(RangeError::BadRange)
    } else {
        Ok(bytes_slice(data, range.start, range.end))
    }
}

/// The parts of `payload` that `ranges` ask for, in their order, or the
/// reason why the first range that has no part has none.
pub open spec fn slices_of(payload: Seq<u8>, ranges: Seq<Range<usize>>) -> Result<
    Seq<Seq<u8>>,
    RangeError,
>
    decreases ranges.len(),
{
    if ranges.len() == 0 {
        Ok(Seq::empty())
    } else {
        match slices_of(payload, ranges.drop_last()) {
            Err(e) => Err(e),
            Ok(parts) => match slice_of(
                payload,
                ranges.last().start as int,
                ranges.last().end as int,
            ) {
                Ok(part) => Ok(parts.push(part)),
                Err(e) => Err(e),
            },
        }
    }
}

/// What a result of several buffers holds, with each buffer taken by its
/// contents.
pub open spec fn parts_contents(r: Result<Vec<Bytes>, RangeError>) -> Result<
    Seq<Seq<u8>>,
    RangeError,
> {
    match r {
        Ok(parts) => Ok(parts@.map_values(|b: Bytes| bytes_contents(b))),
        Err(e) => Err(e),
    }
}

/// Cuts each of `ranges` out of `data` without copying. Fails with the
/// reason of the first range that cannot be cut.
pub fn slice_ranges(data: &Bytes, ranges: &[Range<usize>]) -> (r: Result<Vec<Bytes>, RangeError>)
    ensures
        parts_contents(r) == slices_of(bytes_contents(*data), ranges@),
{
    let ghost payload = bytes_contents(*data);
    let mut parts: Vec<Bytes> = Vec::new();
    let mut at: usize = 0;
    proof {
        assert(parts@.map_values(|b: Bytes| bytes_contents(b)) =~= Seq::empty());
    }
    while at < ranges.len()
        invariant
            at <= ranges@.len(),
            payload == bytes_contents(*data),
            slices_of(payload, ranges@.take(at as int)) == Ok::<Seq<Seq<u8>>, RangeError>(
                parts@.map_values(|b: Bytes| bytes_contents(b)),
            ),
        decreases ranges@.len() - at,
    {
        let start = ranges[at].start;
        let end = ranges[at].end;
        proof {
            assert(ranges@.take(at as int + 1).drop_last() =~= ranges@.take(at as int));
        }
        match slice_range(data, start..end) {
            Ok(part) => {
                proof {
                    assert(parts@.push(part).map_values(|b: Bytes| bytes_contents(b))
                        =~= parts@.map_values(|b: Bytes| bytes_contents(b)).push(
                        bytes_contents(part),
                    ));
                }
                parts.push(part);
            },
            Err(e) => {
                proof {
                    lemma_slices_fail_on(payload, ranges@, at as int + 1);
                }
                return Err(e);
            },
        }
        at += 1;
    }
    proof {
        assert(ranges@.take(at as int) =~= ranges@);
    }
    Ok(parts)
}

/// Where the first `n` ranges have no parts, for the reason of one of them,
/// all the ranges have none, for the same reason.
proof fn lemma_slices_fail_on(payload: Seq<u8>, ranges: Seq<Range<usize>>, n: int)
    requires
        0 <= n <= ranges.len(),
        slices_of(payload, ranges.take(n)) is Err,
    ensures
        slices_of(payload, ranges) == slices_of(payload, ranges.take(n)),
    decreases ranges.len() - n,
{
    if n == ranges.len() {
        assert(ranges.take(n) =~= ranges);
    } else {
        assert(ranges.take(n + 1).drop_last() =~= ranges.take(n));
        lemma_slices_fail_on(payload, ranges, n + 1);
    }
}

/// The bytes of `pattern`, `times` times in a row.
pub open spec fn repeated(pattern: Seq<u8>, times: nat) -> Seq<u8>
    decreases times,
{
    if times == 0 {
        Seq::empty()
    } else {
        repeated(pattern, (times - 1) as nat) + pattern
    }
}

/// The payload that `download` caches: the text `DATA.DATA.` 10240 times.
pub open spec fn download_payload() -> Seq<u8> {
    repeated("DATA.DATA.".spec_bytes(), 10240)
}

/// Builds the payload that `download` caches.
pub(crate) fn sample_payload() -> (bytes: Vec<u8>)
    ensures
        bytes@ == download_payload(),
{
    let pattern = "DATA.DATA.".as_bytes();
    let mut bytes: Vec<u8> = Vec::new();
    let mut round: usize = 0;
    while round < 10240
        invariant
            round <= 10240,
            pattern@ == "DATA.DATA.".spec_bytes(),
            bytes@ == repeated(pattern@, round as nat),
        decreases 10240 - round,
    {
        bytes.extend_from_slice(pattern);
        round += 1;
    }
    bytes
}

} // verus!
