//! The names of the metrics, and that prometheus can tell them apart.
use vstd::prelude::*;

use crate::fnv;

verus! {

/// The name of the counter of requests.
pub const REQUESTS_NAME: &'static str = "rwrk_requests_total";

/// The name of the counters of status codes.
pub const STATUS_NAME: &'static str = "rwrk_status_codes_total";

/// The name of the latencies.
pub const LATENCY_NAME: &'static str = "rwrk_request_duration_seconds";

/// The name of the latencies by status.
pub const LATENCY_BY_STATUS_NAME: &'static str = "rwrk_request_duration_by_status_seconds";

/// The hash of `rwrk_`, with which every name begins.
const AFTER_RWRK: u64 = 0xe38bb97c193ee35e;

/// The hash of `rwrk_request`.
const AFTER_REQUEST: u64 = 0x97a65dfe679a1cd3;

/// The hash of `rwrk_request_duration_`.
const AFTER_DURATION: u64 = 0xb600402563993c29;

/// The hash of the characters of `REQUESTS_NAME`.
const REQUESTS_HASH: u64 = 0x77440f36e375b255;

/// The hash of the characters of `STATUS_NAME`.
const STATUS_HASH: u64 = 0x9f715483cfcf4298;

/// The hash of the characters of `LATENCY_NAME`.
const LATENCY_HASH: u64 = 0x6ea5286ec506acc6;

/// The hash of the characters of `LATENCY_BY_STATUS_NAME`.
const LATENCY_BY_STATUS_HASH: u64 = 0xd0ad0ef73edec12d;

/// The hash after five more bytes.
spec fn five(hash: u64, a: u8, b: u8, c: u8, d: u8, e: u8) -> u64 {
    fnv::hash_byte(
        fnv::hash_byte(fnv::hash_byte(fnv::hash_byte(fnv::hash_byte(hash, a), b), c), d),
        e,
    )
}

/// The hash after two more bytes.
spec fn two(hash: u64, a: u8, b: u8) -> u64 {
    fnv::hash_byte(fnv::hash_byte(hash, a), b)
}

/// The hash after three more bytes.
spec fn three(hash: u64, a: u8, b: u8, c: u8) -> u64 {
    fnv::hash_byte(two(hash, a, b), c)
}

/// The hash after `rwrk_`.
proof fn lemma_rwrk()
    ensures
        fnv::hash_ascii(fnv::BASIS, "rwrk_"@, 0) == AFTER_RWRK,
        fnv::is_ascii("rwrk_"@),
{
    reveal_strlit("rwrk_");
    reveal_with_fuel(fnv::hash_ascii, 6);
    assert(five(0xcbf29ce484222325u64, 114, 119, 114, 107, 95) == 0xe38bb97c193ee35eu64) by (bit_vector);
}

/// The hash after `request`.
proof fn lemma_request()
    ensures
        fnv::hash_ascii(AFTER_RWRK, "request"@, 0) == AFTER_REQUEST,
        fnv::is_ascii("request"@),
{
    reveal_strlit("request");
    let part = "request"@;
    reveal_with_fuel(fnv::hash_ascii, 6);
    assert(five(0xe38bb97c193ee35eu64, 114, 101, 113, 117, 101) == 0xdd9866dc1f6efb64u64) by (bit_vector);
    assert(fnv::hash_ascii(AFTER_RWRK, part, 0) == fnv::hash_ascii(0xdd9866dc1f6efb64u64, part, 5));
    assert(two(0xdd9866dc1f6efb64u64, 115, 116) == 0x97a65dfe679a1cd3u64) by (bit_vector);
}

/// The hash after `_duration_`.
proof fn lemma_duration()
    ensures
        fnv::hash_ascii(AFTER_REQUEST, "_duration_"@, 0) == AFTER_DURATION,
        fnv::is_ascii("_duration_"@),
{
    reveal_strlit("_duration_");
    let part = "_duration_"@;
    reveal_with_fuel(fnv::hash_ascii, 6);
    assert(five(0x97a65dfe679a1cd3u64, 95, 100, 117, 114, 97) == 0xd767b27f9c74f972u64) by (bit_vector);
    assert(fnv::hash_ascii(AFTER_REQUEST, part, 0) == fnv::hash_ascii(0xd767b27f9c74f972u64, part, 5));
    assert(five(0xd767b27f9c74f972u64, 116, 105, 111, 110, 95) == 0xb600402563993c29u64) by (bit_vector);
}

/// The hash after `s_total`.
proof fn lemma_s_total()
    ensures
        fnv::hash_ascii(AFTER_REQUEST, "s_total"@, 0) == REQUESTS_HASH,
        fnv::is_ascii("s_total"@),
{
    reveal_strlit("s_total");
    let part = "s_total"@;
    reveal_with_fuel(fnv::hash_ascii, 6);
    assert(five(0x97a65dfe679a1cd3u64, 115, 95, 116, 111, 116) == 0x6722f3ffcbc6edb8u64) by (bit_vector);
    assert(fnv::hash_ascii(AFTER_REQUEST, part, 0) == fnv::hash_ascii(0x6722f3ffcbc6edb8u64, part, 5));
    assert(two(0x6722f3ffcbc6edb8u64, 97, 108) == 0x77440f36e375b255u64) by (bit_vector);
}

/// The hash after `status_codes_total`.
proof fn lemma_status_codes_total()
    ensures
        fnv::hash_ascii(AFTER_RWRK, "status_codes_total"@, 0) == STATUS_HASH,
        fnv::is_ascii("status_codes_total"@),
{
    reveal_strlit("status_codes_total");
    let part = "status_codes_total"@;
    reveal_with_fuel(fnv::hash_ascii, 6);
    assert(five(0xe38bb97c193ee35eu64, 115, 116, 97, 116, 117) == 0xd41a7f63a2289ed3u64) by (bit_vector);
    assert(fnv::hash_ascii(AFTER_RWRK, part, 0) == fnv::hash_ascii(0xd41a7f63a2289ed3u64, part, 5));
    assert(five(0xd41a7f63a2289ed3u64, 115, 95, 99, 111, 100) == 0x8c8d16d858997ee1u64) by (bit_vector);
    assert(fnv::hash_ascii(AFTER_RWRK, part, 0) == fnv::hash_ascii(0x8c8d16d858997ee1u64, part, 10));
    assert(five(0x8c8d16d858997ee1u64, 101, 115, 95, 116, 111) == 0x7d6417bb41b1502bu64) by (bit_vector);
    assert(fnv::hash_ascii(AFTER_RWRK, part, 0) == fnv::hash_ascii(0x7d6417bb41b1502bu64, part, 15));
    assert(three(0x7d6417bb41b1502bu64, 116, 97, 108) == 0x9f715483cfcf4298u64) by (bit_vector);
}

/// The hash after `seconds`.
proof fn lemma_seconds()
    ensures
        fnv::hash_ascii(AFTER_DURATION, "seconds"@, 0) == LATENCY_HASH,
        fnv::is_ascii("seconds"@),
{
    reveal_strlit("seconds");
    let part = "seconds"@;
    reveal_with_fuel(fnv::hash_ascii, 6);
    assert(five(0xb600402563993c29u64, 115, 101, 99, 111, 110) == 0x3e2d2cffd3d1868fu64) by (bit_vector);
    assert(fnv::hash_ascii(AFTER_DURATION, part, 0) == fnv::hash_ascii(0x3e2d2cffd3d1868fu64, part, 5));
    assert(two(0x3e2d2cffd3d1868fu64, 100, 115) == 0x6ea5286ec506acc6u64) by (bit_vector);
}

/// The hash after `by_status_seconds`.
proof fn lemma_by_status_seconds()
    ensures
        fnv::hash_ascii(AFTER_DURATION, "by_status_seconds"@, 0) == LATENCY_BY_STATUS_HASH,
        fnv::is_ascii("by_status_seconds"@),
{
    reveal_strlit("by_status_seconds");
    let part = "by_status_seconds"@;
    reveal_with_fuel(fnv::hash_ascii, 6);
    assert(five(0xb600402563993c29u64, 98, 121, 95, 115, 116) == 0x3a5bfd50bc799c22u64) by (bit_vector);
    assert(fnv::hash_ascii(AFTER_DURATION, part, 0) == fnv::hash_ascii(0x3a5bfd50bc799c22u64, part, 5));
    assert(five(0x3a5bfd50bc799c22u64, 97, 116, 117, 115, 95) == 0xe5d72da41d3aed50u64) by (bit_vector);
    assert(fnv::hash_ascii(AFTER_DURATION, part, 0) == fnv::hash_ascii(0xe5d72da41d3aed50u64, part, 10));
    assert(five(0xe5d72da41d3aed50u64, 115, 101, 99, 111, 110) == 0x4cb9b8438d634800u64) by (bit_vector);
    assert(fnv::hash_ascii(AFTER_DURATION, part, 0) == fnv::hash_ascii(0x4cb9b8438d634800u64, part, 15));
    assert(two(0x4cb9b8438d634800u64, 100, 115) == 0xd0ad0ef73edec12du64) by (bit_vector);
}

/// The hash of a name that ends with `part`, if its beginning is known.
proof fn lemma_longer(name: Seq<char>, part: Seq<char>, hash: u64)
    requires
        fnv::is_ascii(name),
        fnv::is_ascii(part),
        fnv::hash_ascii(fnv::BASIS, name, 0) == hash,
    ensures
        fnv::is_ascii(name + part),
        fnv::hash_ascii(fnv::BASIS, name + part, 0) == fnv::hash_ascii(hash, part, 0),
{
    fnv::lemma_hash_append(fnv::BASIS, name, part, 0);
}

/// The hash of an ASCII name is that of its characters and of what ends it.
proof fn lemma_name(name: Seq<char>)
    requires
        fnv::is_ascii(name),
    ensures
        fnv::name_hash(name) == fnv::hash_byte(fnv::hash_ascii(fnv::BASIS, name, 0), 0xff),
{
    assert(name.skip(0) =~= name);
    fnv::lemma_hash_ascii(fnv::BASIS, name, 0);
}

/// No two of the names have the same hash.
pub proof fn names_hash_apart()
    ensures
        ({
            let requests = fnv::name_hash(REQUESTS_NAME@);
            let status = fnv::name_hash(STATUS_NAME@);
            let latency = fnv::name_hash(LATENCY_NAME@);
            let latency_by_status = fnv::name_hash(LATENCY_BY_STATUS_NAME@);
            &&& requests != status
            &&& requests != latency
            &&& requests != latency_by_status
            &&& status != latency
            &&& status != latency_by_status
            &&& latency != latency_by_status
        }),
{
    reveal_strlit("rwrk_requests_total");
    reveal_strlit("rwrk_status_codes_total");
    reveal_strlit("rwrk_request_duration_seconds");
    reveal_strlit("rwrk_request_duration_by_status_seconds");
    reveal_strlit("rwrk_");
    reveal_strlit("request");
    reveal_strlit("_duration_");
    reveal_strlit("s_total");
    reveal_strlit("status_codes_total");
    reveal_strlit("seconds");
    reveal_strlit("by_status_seconds");
    lemma_rwrk();
    lemma_request();
    lemma_duration();
    lemma_s_total();
    lemma_status_codes_total();
    lemma_seconds();
    lemma_by_status_seconds();
    let request = "rwrk_"@ + "request"@;
    let duration = request + "_duration_"@;
    assert(REQUESTS_NAME@ =~= request + "s_total"@);
    assert(STATUS_NAME@ =~= "rwrk_"@ + "status_codes_total"@);
    assert(LATENCY_NAME@ =~= duration + "seconds"@);
    assert(LATENCY_BY_STATUS_NAME@ =~= duration + "by_status_seconds"@);
    lemma_longer("rwrk_"@, "request"@, AFTER_RWRK);
    lemma_longer(request, "_duration_"@, AFTER_REQUEST);
    lemma_longer(request, "s_total"@, AFTER_REQUEST);
    lemma_longer("rwrk_"@, "status_codes_total"@, AFTER_RWRK);
    lemma_longer(duration, "seconds"@, AFTER_DURATION);
    lemma_longer(duration, "by_status_seconds"@, AFTER_DURATION);
    lemma_name(REQUESTS_NAME@);
    lemma_name(STATUS_NAME@);
    lemma_name(LATENCY_NAME@);
    lemma_name(LATENCY_BY_STATUS_NAME@);
    assert(fnv::hash_byte(0x77440f36e375b255u64, 0xff) == 0x1e58844480fe96deu64) by (bit_vector);
    assert(fnv::hash_byte(0x9f715483cfcf4298u64, 0xff) == 0xbcd502fa1d2dd505u64) by (bit_vector);
    assert(fnv::hash_byte(0x6ea5286ec506acc6u64, 0xff) == 0x094fed38ca56a4dbu64) by (bit_vector);
    assert(fnv::hash_byte(0xd0ad0ef73edec12du64, 0xff) == 0x74d2401fd48357d6u64) by (bit_vector);
}

} // verus!
