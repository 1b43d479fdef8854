use vstd::prelude::*;

verus! {

/// True when `needle` occurs in `hay` starting at index `i`.
pub open spec fn matches_at(hay: Seq<u8>, needle: Seq<u8>, i: int) -> bool {
    &&& 0 <= i
    &&& i + needle.len() <= hay.len()
    &&& hay.subrange(i, i + needle.len()) == needle
}

/// True when `needle` occurs somewhere in `hay`.
pub open spec fn contains_bytes(hay: Seq<u8>, needle: Seq<u8>) -> bool {
    exists|i: int| matches_at(hay, needle, i)
}

/// The marker with which the store names a throttling condition in a 400
/// response body.
pub open spec fn throttling_marker() -> Seq<u8> {
    seq![84u8, 104u8, 114u8, 111u8, 116u8, 116u8, 108u8, 105u8, 110u8, 103u8, 69u8, 120u8, 99u8, 101u8, 112u8, 116u8, 105u8, 111u8, 110u8]
}

/// The marker looked for in a 503 response body.
pub open spec fn slow_down_marker() -> Seq<u8> {
    seq![83u8, 108u8, 111u8, 119u8, 68u8, 111u8, 119u8, 110u8]
}

/// A response is a transient rate-limiting signal exactly when it is a 429,
/// or a 400 or 503 whose body names one of the store's throttling
/// conditions.
pub open spec fn throttle_spec(status: u16, body: Seq<u8>) -> bool {
    ||| (status == 400 && contains_bytes(body, throttling_marker()))
    ||| status == 429
    ||| (status == 503 && contains_bytes(body, slow_down_marker()))
}

fn eq_at(hay: &[u8], needle: &[u8], i: usize) -> (r: bool)
    requires
        i + needle@.len() <= hay@.len(),
    ensures
        r == matches_at(hay@, needle@, i as int),
{
    let n = needle.len();
    let h = hay.len();
    let mut j: usize = 0;
    while j < n
        invariant
            n == needle@.len(),
            h == hay@.len(),
            i + n <= h,
            j <= n,
            forall|k: int| 0 <= k < j ==> hay@[i + k] == needle@[k],
        decreases n - j,
    {
        if hay[i + j] != needle[j] {
            proof {
                if hay@.subrange(i as int, i + needle@.len()) == needle@ {
                    assert(needle@[j as int] == hay@.subrange(i as int, i + needle@.len())[
                        j as int
                    ]);
                }
            }
            return false;
        }
        j += 1;
    }
    proof {
        assert(hay@.subrange(i as int, i + needle@.len()) =~= needle@);
    }
    true
}

/// Verified search for `needle` as a contiguous run of bytes in `hay`.
pub fn slice_contains(hay: &[u8], needle: &[u8]) -> (r: bool)
    ensures
        r == contains_bytes(hay@, needle@),
{
    let n = needle.len();
    let h = hay.len();
    if n == 0 {
        proof {
            assert(hay@.subrange(0, 0) =~= needle@);
            assert(matches_at(hay@, needle@, 0));
        }
        return true;
    }
    if n > h {
        proof {
            assert(forall|i: int| !matches_at(hay@, needle@, i));
        }
        return false;
    }
    let mut i: usize = 0;
    while i <= h - n
        invariant
            n == needle@.len(),
            h == hay@.len(),
            1 <= n <= h,
            i <= h - n + 1,
            forall|k: int| 0 <= k < i ==> !matches_at(hay@, needle@, k),
        decreases h - n + 1 - i,
    {
        if eq_at(hay, needle, i) {
            return true;
        }
        i += 1;
    }
    proof {
        assert(forall|k: int| !matches_at(hay@, needle@, k));
    }
    false
}

fn throttling_needle() -> (r: Vec<u8>)
    ensures
        r@ == throttling_marker(),
{
    let r: Vec<u8> = vec![84u8, 104u8, 114u8, 111u8, 116u8, 116u8, 108u8, 105u8, 110u8, 103u8, 69u8, 120u8, 99u8, 101u8, 112u8, 116u8, 105u8, 111u8, 110u8];
    proof {
        assert(r@ =~= throttling_marker());
    }
    r
}

fn slow_down_needle() -> (r: Vec<u8>)
    ensures
        r@ == slow_down_marker(),
{
    let r: Vec<u8> = vec![83u8, 108u8, 111u8, 119u8, 68u8, 111u8, 119u8, 110u8];
    proof {
        assert(r@ =~= slow_down_marker());
    }
    r
}

/// Classifies one response of the store: true exactly for the transient
/// rate-limiting signals (HTTP 429, or a 400/503 whose body names a
/// throttling condition); every other response is final.
pub fn is_throttle_response(status: u16, body: &[u8]) -> (r: bool)
    ensures
        r == throttle_spec(status, body@),
{
    if status == 400 {
        let needle = throttling_needle();
        slice_contains(body, needle.as_slice())
    } else if status == 429 {
        true
    } else if status == 503 {
        let needle = slow_down_needle();
        slice_contains(body, needle.as_slice())
    } else {
        false
    }
}

/// The back-off interval, in milliseconds, slept before retrying a
/// throttled request, as a function of how many attempts were made.
pub open spec fn cooldown_spec(retries: u64) -> int {
    let f = (2 as u64) ^ retries;
    if f <= u64::MAX as int / 100 {
        f as int * 100
    } else {
        u64::MAX as int
    }
}

/// Computes the cooldown before the next attempt; saturates instead of
/// overflowing for absurdly large attempt counts.
pub fn cooldown_ms(retries: u64) -> (r: u64)
    ensures
        r as int == cooldown_spec(retries),
{
    let f: u64 = 2 ^ retries;
    if f <= u64::MAX / 100 {
        f * 100
    } else {
        u64::MAX
    }
}

/// Retry policy for one response of the store: `Some(cooldown)` exactly when
/// the response is a transient rate-limiting signal, in which case the same
/// request is retried after `cooldown` milliseconds; `None` when the
/// response is final and is returned to the caller.
pub fn retry_decision(status: u16, body: &[u8], retries: u64) -> (r: Option<u64>)
    ensures
        r is Some <==> throttle_spec(status, body@),
        r matches Some(c) ==> c as int == cooldown_spec(retries),
{
    if is_throttle_response(status, body) {
        Some(cooldown_ms(retries))
    } else {
        None
    }
}

} // verus!
