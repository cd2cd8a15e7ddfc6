//! Firmware-update bookkeeping: the update state machine's data, the
//! validity check on a downloaded image, and the small JSON field
//! extractors the update check uses.
//!
//! The transport side of an update — HTTP download, partition erase and
//! write, reboot — is outside this crate; what lives here is everything
//! that can be judged from plain bytes: whether an image is plausible,
//! and what an update-check response says.

use vstd::prelude::*;

verus! {

/// Why an update step failed.
#[derive(Debug, Clone, Copy, PartialEq, Eq, Structural)]
pub enum OtaError {
    /// The downloaded image is shorter than any valid image.
    TooSmall,
    /// The image does not begin with the boot magic byte; the payload is
    /// the byte found.
    BadMagic(u8),
    /// The image header's segment count is implausible; the payload is the
    /// count found.
    BadSegmentCount(u8),
}

/// The update state machine's observable state.
#[derive(Debug, Clone, Copy, PartialEq, Eq, Structural)]
pub enum OtaState {
    /// Nothing in progress.
    Idle,
    /// Asking the backend whether an update exists.
    Checking,
    /// Downloading the image; progress in percent.
    Downloading { progress: u8 },
    /// Validating the downloaded image.
    Validating,
    /// Writing the image to flash; progress in percent.
    Flashing { progress: u8 },
    /// The image is written; a reboot follows.
    Complete,
    /// A step failed.
    Error(OtaError),
}

/// What an update-check response said.
#[derive(Debug)]
pub struct UpdateInfo {
    /// Whether the backend offers a newer image.
    pub available: bool,
    /// The newest version the backend offers, as reported.
    pub version: Vec<u8>,
    /// Size of the offered image in bytes.
    pub size: u32,
    /// Checksum of the offered image, as reported.
    pub checksum: Vec<u8>,
}

/// Holder of the update state machine's state.
pub struct OtaManager {
    /// The current state.
    pub state: OtaState,
}

impl OtaManager {
    /// A fresh, idle manager.
    pub fn new() -> (m: OtaManager)
        ensures
            m.state == OtaState::Idle,
    {
        OtaManager { state: OtaState::Idle }
    }

    /// A copy of the current state.
    pub fn get_state(&self) -> (s: OtaState)
        ensures
            s == self.state,
    {
        self.state
    }

    /// Move the state machine.
    pub fn set_state(&mut self, state: OtaState)
        ensures
            final(self).state == state,
    {
        self.state = state;
    }
}

/// The firmware version this build carries.
pub fn get_version() -> (v: &'static str)
    ensures
        v@ == "0.1.0"@,
{
    "0.1.0"
}

/// The boot magic byte every valid image begins with.
pub const FIRMWARE_MAGIC: u8 = 0xE9;

/// The smallest plausible image size in bytes.
pub const FIRMWARE_MIN_LEN: usize = 256;

/// The largest plausible segment count in an image header.
pub const FIRMWARE_MAX_SEGMENTS: u8 = 16;

/// Judge a downloaded firmware image before anything is flashed: it must
/// be at least the minimum length, begin with the boot magic byte, and
/// carry a plausible segment count in its second byte.  Exactly the first
/// failed check is reported.
pub fn validate_firmware(data: &Vec<u8>) -> (r: Result<(), OtaError>)
    ensures
        data@.len() < FIRMWARE_MIN_LEN ==> r == Err::<(), OtaError>(OtaError::TooSmall),
        data@.len() >= FIRMWARE_MIN_LEN && data@[0] != FIRMWARE_MAGIC ==> r == Err::<(), OtaError>(
            OtaError::BadMagic(data@[0]),
        ),
        data@.len() >= FIRMWARE_MIN_LEN && data@[0] == FIRMWARE_MAGIC && (data@[1] == 0 || data@[1]
            > FIRMWARE_MAX_SEGMENTS) ==> r == Err::<(), OtaError>(
            OtaError::BadSegmentCount(data@[1]),
        ),
        data@.len() >= FIRMWARE_MIN_LEN && data@[0] == FIRMWARE_MAGIC && 0 < data@[1]
            <= FIRMWARE_MAX_SEGMENTS ==> r is Ok,
{
    if data.len() < FIRMWARE_MIN_LEN {
        return Err(OtaError::TooSmall);
    }
    if data[0] != FIRMWARE_MAGIC {
        return Err(OtaError::BadMagic(data[0]));
    }
    let segment_count = data[1];
    if segment_count == 0 || segment_count > FIRMWARE_MAX_SEGMENTS {
        return Err(OtaError::BadSegmentCount(segment_count));
    }
    Ok(())
}

/// Whether the pattern `p` stands in `s` at position `i`.
pub open spec fn spec_match_at(s: Seq<u8>, p: Seq<u8>, i: int) -> bool {
    0 <= i && i + p.len() <= s.len() && s.subrange(i, i + p.len()) == p
}

/// The first position at or after `i` where the pattern `p` stands in
/// `s`, if any.
pub open spec fn spec_find_from(s: Seq<u8>, p: Seq<u8>, i: int) -> Option<int>
    decreases s.len() - i + 1,
{
    if i < 0 || i + p.len() > s.len() {
        None
    } else if s.subrange(i, i + p.len()) == p {
        Some(i)
    } else {
        spec_find_from(s, p, i + 1)
    }
}

/// Find the first occurrence of `p` in `s` at or after `from`.
pub fn find_pattern(s: &Vec<u8>, p: &Vec<u8>, from: usize) -> (r: Option<usize>)
    ensures
        match r {
            Some(i) => spec_find_from(s@, p@, from as int) == Some(i as int),
            None => spec_find_from(s@, p@, from as int) is None,
        },
{
    if p.len() > s.len() {
        proof {
            lemma_find_none_when_short(s@, p@, from as int);
        }
        return None;
    }
    let limit: usize = s.len() - p.len();
    let mut i: usize = from;
    while i <= limit
        invariant
            from <= i,
            p@.len() <= s@.len(),
            s@.len() <= usize::MAX,
            limit == s@.len() - p@.len(),
            spec_find_from(s@, p@, from as int) == spec_find_from(s@, p@, i as int),
        decreases s.len() - i,
    {
        let mut j: usize = 0;
        let mut matches_here: bool = true;
        proof {
            assert(s@.subrange(i as int, i as int) =~= p@.subrange(0, 0));
        }
        while j < p.len()
            invariant
                j <= p@.len(),
                i + p@.len() <= s@.len(),
                s@.len() <= usize::MAX,
                matches_here == (s@.subrange(i as int, i + j) == p@.subrange(0, j as int)),
            decreases p.len() - j,
        {
            proof {
                assert(s@.subrange(i as int, i + j + 1).drop_last() =~= s@.subrange(
                    i as int,
                    i + j,
                ));
                assert(p@.subrange(0, j + 1).drop_last() =~= p@.subrange(0, j as int));
            }
            if s[i + j] != p[j] {
                matches_here = false;
                proof {
                    assert(s@.subrange(i as int, i + j + 1).last() == s@[i + j]);
                    assert(p@.subrange(0, j + 1).last() == p@[j as int]);
                }
            } else {
                proof {
                    if matches_here {
                        assert(s@.subrange(i as int, i + j + 1) =~= s@.subrange(
                            i as int,
                            i + j,
                        ).push(s@[i + j]));
                        assert(p@.subrange(0, j + 1) =~= p@.subrange(0, j as int).push(
                            p@[j as int],
                        ));
                    } else {
                        assert(s@.subrange(i as int, i + j).push(s@[i + j]).drop_last()
                            =~= s@.subrange(i as int, i + j));
                    }
                }
            }
            j = j + 1;
        }
        proof {
            assert(p@.subrange(0, p@.len() as int) =~= p@);
        }
        if matches_here {
            proof {
                assert(s@.subrange(i as int, i + p@.len()) == p@);
            }
            return Some(i);
        }
        i = i + 1;
    }
    None
}

/// A found position lies within the text, with the pattern standing there.
proof fn lemma_find_some_bounds(s: Seq<u8>, p: Seq<u8>, i0: int, i: int)
    requires
        spec_find_from(s, p, i0) == Some(i),
    ensures
        i0 <= i,
        0 <= i,
        i + p.len() <= s.len(),
        s.subrange(i, i + p.len()) == p,
    decreases s.len() - i0 + 1,
{
    if !(i0 < 0 || i0 + p.len() > s.len()) && s.subrange(i0, i0 + p.len()) != p {
        lemma_find_some_bounds(s, p, i0 + 1, i);
    }
}

/// Below the pattern's length nothing can match.
proof fn lemma_find_none_when_short(s: Seq<u8>, p: Seq<u8>, i: int)
    requires
        p.len() > s.len(),
    ensures
        spec_find_from(s, p, i) is None,
    decreases s.len() - i,
{
}

/// The pattern that precedes a quoted JSON string value of `key`:
/// `"key":"`.
pub open spec fn spec_quoted_key_pattern(key: Seq<u8>) -> Seq<u8> {
    seq![34u8] + key + seq![34u8, 58u8, 34u8]
}

/// The same pattern with one space after the colon: `"key": "`.
pub open spec fn spec_quoted_key_pattern_spaced(key: Seq<u8>) -> Seq<u8> {
    seq![34u8] + key + seq![34u8, 58u8, 32u8, 34u8]
}

/// The pattern that precedes a bare JSON value of `key`: `"key":`.
pub open spec fn spec_bare_key_pattern(key: Seq<u8>) -> Seq<u8> {
    seq![34u8] + key + seq![34u8, 58u8]
}

/// The string value that `extract_json_string` finds for `key` in `json`:
/// the bytes between the key's opening quote pattern — plain first, then
/// the one-space variant — and the next double quote.
pub open spec fn spec_extract_string(json: Seq<u8>, key: Seq<u8>) -> Option<Seq<u8>> {
    let start = match spec_find_from(json, spec_quoted_key_pattern(key), 0) {
        Some(i) => Some(i + spec_quoted_key_pattern(key).len()),
        None => match spec_find_from(json, spec_quoted_key_pattern_spaced(key), 0) {
            Some(i) => Some(i + spec_quoted_key_pattern_spaced(key).len()),
            None => None,
        },
    };
    match start {
        None => None,
        Some(st) => match spec_find_from(json, seq![34u8], st) {
            None => None,
            Some(end) => Some(json.subrange(st, end)),
        },
    }
}

/// Pull the quoted string value of `key` out of a JSON body, by pattern
/// matching as the update check does — no general JSON parser is implied.
pub fn extract_json_string(json: &Vec<u8>, key: &Vec<u8>) -> (r: Option<Vec<u8>>)
    ensures
        match r {
            Some(v) => spec_extract_string(json@, key@) == Some(v@),
            None => spec_extract_string(json@, key@) is None,
        },
{
    let json_len: usize = json.len();
    let mut p1: Vec<u8> = Vec::new();
    p1.push(34);
    let mut kc = copy_bytes(key);
    p1.append(&mut kc);
    p1.push(34);
    p1.push(58);
    let mut p2 = copy_bytes(&p1);
    p1.push(34);
    p2.push(32);
    p2.push(34);
    proof {
        assert(p1@ =~= spec_quoted_key_pattern(key@));
        assert(p2@ =~= spec_quoted_key_pattern_spaced(key@));
        assert(json@.len() == json_len);
    }
    let start: usize = match find_pattern(json, &p1, 0) {
        Some(i) => {
            proof {
                lemma_find_some_bounds(json@, p1@, 0, i as int);
            }
            i + p1.len()
        },
        None => match find_pattern(json, &p2, 0) {
            Some(i) => {
                proof {
                    lemma_find_some_bounds(json@, p2@, 0, i as int);
                }
                i + p2.len()
            },
            None => {
                return None;
            },
        },
    };
    let mut quote: Vec<u8> = Vec::new();
    quote.push(34);
    proof {
        assert(quote@ =~= seq![34u8]);
    }
    match find_pattern(json, &quote, start) {
        None => None,
        Some(end) => {
            proof {
                lemma_find_some_bounds(json@, quote@, start as int, end as int);
            }
            let v = copy_range(json, start, end);
            Some(v)
        },
    }
}

/// An ASCII decimal digit.
pub open spec fn spec_is_digit(b: u8) -> bool {
    48 <= b <= 57
}

/// The position of the first non-digit at or after `i`.
pub open spec fn spec_digits_end(s: Seq<u8>, i: int) -> int
    decreases s.len() - i,
{
    if i < 0 || i >= s.len() {
        i
    } else if spec_is_digit(s[i]) {
        spec_digits_end(s, i + 1)
    } else {
        i
    }
}

/// The value of a run of ASCII digits.
pub open spec fn spec_digits_value(s: Seq<u8>) -> int
    decreases s.len(),
{
    if s.len() == 0 {
        0
    } else {
        spec_digits_value(s.drop_last()) * 10 + (s.last() - 48)
    }
}

/// The numeric value that `extract_json_number` finds for `key` in
/// `json`: the run of digits after the key's colon, once ASCII whitespace
/// is skipped; absent, empty, or out of the 32-bit range means `None`.
pub open spec fn spec_extract_number(json: Seq<u8>, key: Seq<u8>) -> Option<u32> {
    match spec_find_from(json, spec_bare_key_pattern(key), 0) {
        None => None,
        Some(i) => {
            let st = spec_skip_spaces(json, i + spec_bare_key_pattern(key).len());
            let end = spec_digits_end(json, st);
            if end == st {
                None
            } else {
                let v = spec_digits_value(json.subrange(st, end));
                if v <= u32::MAX {
                    Some(v as u32)
                } else {
                    None
                }
            }
        },
    }
}

/// An ASCII whitespace byte.
pub open spec fn spec_is_space(b: u8) -> bool {
    b == 32 || b == 9 || b == 10 || b == 12 || b == 13
}

/// The position of the first non-whitespace byte at or after `i`.
pub open spec fn spec_skip_spaces(s: Seq<u8>, i: int) -> int
    decreases s.len() - i,
{
    if i < 0 || i >= s.len() {
        i
    } else if spec_is_space(s[i]) {
        spec_skip_spaces(s, i + 1)
    } else {
        i
    }
}

/// Pull the numeric value of `key` out of a JSON body.
pub fn extract_json_number(json: &Vec<u8>, key: &Vec<u8>) -> (r: Option<u32>)
    ensures
        r == spec_extract_number(json@, key@),
{
    let json_len: usize = json.len();
    let mut p: Vec<u8> = Vec::new();
    p.push(34);
    let mut kc = copy_bytes(key);
    p.append(&mut kc);
    p.push(34);
    p.push(58);
    proof {
        assert(p@ =~= spec_bare_key_pattern(key@));
        assert(json@.len() == json_len);
    }
    let found = match find_pattern(json, &p, 0) {
        None => {
            return None;
        },
        Some(i) => i,
    };
    proof {
        lemma_find_some_bounds(json@, p@, 0, found as int);
    }
    let mut st: usize = found + p.len();
    while st < json.len() && is_space(json[st])
        invariant
            st <= json@.len(),
            spec_skip_spaces(json@, found + p@.len()) == spec_skip_spaces(json@, st as int),
        decreases json.len() - st,
    {
        st = st + 1;
    }
    let mut end: usize = st;
    while end < json.len() && is_digit(json[end])
        invariant
            st <= end <= json@.len(),
            spec_digits_end(json@, st as int) == spec_digits_end(json@, end as int),
            forall|t: int| st <= t < end ==> spec_is_digit(#[trigger] json@[t]),
        decreases json.len() - end,
    {
        end = end + 1;
    }
    if end == st {
        return None;
    }
    let digits = copy_range(json, st, end);
    parse_digits(&digits)
}

/// Whether a byte is an ASCII whitespace byte.
fn is_space(b: u8) -> (r: bool)
    ensures
        r == spec_is_space(b),
{
    b == 32 || b == 9 || b == 10 || b == 12 || b == 13
}

/// Whether a byte is an ASCII decimal digit.
fn is_digit(b: u8) -> (r: bool)
    ensures
        r == spec_is_digit(b),
{
    48 <= b && b <= 57
}

/// Digit values never shrink when more digits are appended.
pub(crate) proof fn lemma_digits_value_grows(s: Seq<u8>, i: int)
    requires
        0 <= i <= s.len(),
        forall|t: int| 0 <= t < s.len() ==> spec_is_digit(#[trigger] s[t]),
    ensures
        spec_digits_value(s) >= spec_digits_value(s.take(i)),
        spec_digits_value(s) >= 0,
    decreases s.len(),
{
    if s.len() == 0 {
        assert(s.take(i) =~= s);
    } else {
        assert forall|t: int| 0 <= t < s.len() - 1 implies spec_is_digit(
            #[trigger] s.drop_last()[t],
        ) by {
            assert(s.drop_last()[t] == s[t]);
        }
        if i == s.len() {
            assert(s.take(i) =~= s);
            lemma_digits_value_grows(s.drop_last(), s.len() - 1);
        } else {
            lemma_digits_value_grows(s.drop_last(), i);
            assert(s.take(i) =~= s.drop_last().take(i));
            assert(spec_is_digit(s.last()));
            assert(spec_digits_value(s.drop_last()) * 10 >= spec_digits_value(s.drop_last()))
                by (nonlinear_arith)
                requires
                    spec_digits_value(s.drop_last()) >= 0,
            ;
        }
    }
}

/// Parse a run of ASCII digits into a 32-bit value; `None` when the value
/// does not fit.
fn parse_digits(s: &Vec<u8>) -> (r: Option<u32>)
    requires
        s@.len() > 0,
        forall|t: int| 0 <= t < s@.len() ==> spec_is_digit(#[trigger] s@[t]),
    ensures
        ({
            let v = spec_digits_value(s@);
            if v <= u32::MAX {
                r == Some(v as u32)
            } else {
                r is None
            }
        }),
{
    let mut acc: u64 = 0;
    let mut i: usize = 0;
    while i < s.len()
        invariant
            i <= s@.len(),
            forall|t: int| 0 <= t < s@.len() ==> spec_is_digit(#[trigger] s@[t]),
            acc == spec_digits_value(s@.take(i as int)),
            acc <= u32::MAX,
        decreases s.len() - i,
    {
        proof {
            assert(s@.take(i + 1).drop_last() =~= s@.take(i as int));
            assert(s@.take(i + 1).last() == s@[i as int]);
        }
        let d: u64 = (s[i] - 48) as u64;
        let next: u64 = acc * 10 + d;
        if next > 0xFFFF_FFFF {
            proof {
                lemma_digits_value_grows(s@, i + 1);
            }
            return None;
        }
        acc = next;
        i = i + 1;
    }
    proof {
        assert(s@.take(s@.len() as int) =~= s@);
    }
    Some(acc as u32)
}

/// Copy a byte vector.
pub(crate) fn copy_bytes(b: &Vec<u8>) -> (r: Vec<u8>)
    ensures
        r@ == b@,
{
    copy_range(b, 0, b.len())
}

/// Copy the bytes `[from, to)` of a vector.
pub(crate) fn copy_range(b: &Vec<u8>, from: usize, to: usize) -> (r: Vec<u8>)
    requires
        from <= to <= b@.len(),
    ensures
        r@ == b@.subrange(from as int, to as int),
{
    let mut r: Vec<u8> = Vec::new();
    let mut i: usize = from;
    while i < to
        invariant
            from <= i <= to <= b@.len(),
            r@ == b@.subrange(from as int, i as int),
        decreases to - i,
    {
        r.push(b[i]);
        proof {
            assert(r@ =~= b@.subrange(from as int, i + 1));
        }
        i = i + 1;
    }
    r
}

/// The bytes of `"update_available":true`.
pub open spec fn spec_update_available_pattern() -> Seq<u8> {
    seq![34u8, 117u8, 112u8, 100u8, 97u8, 116u8, 101u8, 95u8, 97u8, 118u8, 97u8, 105u8, 108u8, 97u8, 98u8, 108u8, 101u8, 34u8, 58u8, 116u8, 114u8, 117u8, 101u8]
}

/// The bytes of `"update_available": true`.
pub open spec fn spec_update_available_pattern_spaced() -> Seq<u8> {
    seq![34u8, 117u8, 112u8, 100u8, 97u8, 116u8, 101u8, 95u8, 97u8, 118u8, 97u8, 105u8, 108u8, 97u8, 98u8, 108u8, 101u8, 34u8, 58u8, 32u8, 116u8, 114u8, 117u8, 101u8]
}

/// The bytes of `latest_version`.
pub open spec fn spec_key_latest_version() -> Seq<u8> {
    seq![108u8, 97u8, 116u8, 101u8, 115u8, 116u8, 95u8, 118u8, 101u8, 114u8, 115u8, 105u8, 111u8, 110u8]
}

/// The bytes of `size`.
pub open spec fn spec_key_size() -> Seq<u8> {
    seq![115u8, 105u8, 122u8, 101u8]
}

/// The bytes of `checksum`.
pub open spec fn spec_key_checksum() -> Seq<u8> {
    seq![99u8, 104u8, 101u8, 99u8, 107u8, 115u8, 117u8, 109u8]
}

/// The bytes of `unknown`, the version reported when none is named.
pub open spec fn spec_unknown_version() -> Seq<u8> {
    seq![117u8, 110u8, 107u8, 110u8, 111u8, 119u8, 110u8]
}

/// Build the bytes of `"update_available":true`, spaced or not.
fn update_available_pattern(spaced: bool) -> (v: Vec<u8>)
    ensures
        spaced ==> v@ == spec_update_available_pattern_spaced(),
        !spaced ==> v@ == spec_update_available_pattern(),
{
    let mut v: Vec<u8> = Vec::new();
    v.push(34);  // `"`
    v.push(117);  // `u`
    v.push(112);  // `p`
    v.push(100);  // `d`
    v.push(97);  // `a`
    v.push(116);  // `t`
    v.push(101);  // `e`
    v.push(95);  // `_`
    v.push(97);  // `a`
    v.push(118);  // `v`
    v.push(97);  // `a`
    v.push(105);  // `i`
    v.push(108);  // `l`
    v.push(97);  // `a`
    v.push(98);  // `b`
    v.push(108);  // `l`
    v.push(101);  // `e`
    v.push(34);  // `"`
    v.push(58);  // `:`
    if spaced {
        v.push(32);  // ` `
    }
    v.push(116);  // `t`
    v.push(114);  // `r`
    v.push(117);  // `u`
    v.push(101);  // `e`
    proof {
        if spaced {
            assert(v@ =~= spec_update_available_pattern_spaced());
        } else {
            assert(v@ =~= spec_update_available_pattern());
        }
    }
    v
}

/// Build the bytes of `latest_version`.
fn key_latest_version() -> (v: Vec<u8>)
    ensures
        v@ == spec_key_latest_version(),
{
    let mut v: Vec<u8> = Vec::new();
    v.push(108);  // `l`
    v.push(97);  // `a`
    v.push(116);  // `t`
    v.push(101);  // `e`
    v.push(115);  // `s`
    v.push(116);  // `t`
    v.push(95);  // `_`
    v.push(118);  // `v`
    v.push(101);  // `e`
    v.push(114);  // `r`
    v.push(115);  // `s`
    v.push(105);  // `i`
    v.push(111);  // `o`
    v.push(110);  // `n`
    proof {
        assert(v@ =~= spec_key_latest_version());
    }
    v
}

/// Build the bytes of `size`.
fn key_size() -> (v: Vec<u8>)
    ensures
        v@ == spec_key_size(),
{
    let mut v: Vec<u8> = Vec::new();
    v.push(115);  // `s`
    v.push(105);  // `i`
    v.push(122);  // `z`
    v.push(101);  // `e`
    proof {
        assert(v@ =~= spec_key_size());
    }
    v
}

/// Build the bytes of `checksum`.
fn key_checksum() -> (v: Vec<u8>)
    ensures
        v@ == spec_key_checksum(),
{
    let mut v: Vec<u8> = Vec::new();
    v.push(99);  // `c`
    v.push(104);  // `h`
    v.push(101);  // `e`
    v.push(99);  // `c`
    v.push(107);  // `k`
    v.push(115);  // `s`
    v.push(117);  // `u`
    v.push(109);  // `m`
    proof {
        assert(v@ =~= spec_key_checksum());
    }
    v
}

/// Build the bytes of `unknown`.
fn unknown_version() -> (v: Vec<u8>)
    ensures
        v@ == spec_unknown_version(),
{
    let mut v: Vec<u8> = Vec::new();
    v.push(117);  // `u`
    v.push(110);  // `n`
    v.push(107);  // `k`
    v.push(110);  // `n`
    v.push(111);  // `o`
    v.push(119);  // `w`
    v.push(110);  // `n`
    proof {
        assert(v@ =~= spec_unknown_version());
    }
    v
}

/// Read an update-check response: whether an update is offered, and the
/// reported version, size, and checksum, with the same defaults the update
/// check applies when a field is missing — `unknown`, zero, and empty.
pub fn parse_update_info(body: &Vec<u8>) -> (u: UpdateInfo)
    ensures
        u.available == (spec_find_from(body@, spec_update_available_pattern(), 0) is Some
            || spec_find_from(body@, spec_update_available_pattern_spaced(), 0) is Some),
        u.version@ == (match spec_extract_string(body@, spec_key_latest_version()) {
            Some(v) => v,
            None => spec_unknown_version(),
        }),
        u.size == (match spec_extract_number(body@, spec_key_size()) {
            Some(n) => n,
            None => 0u32,
        }),
        u.checksum@ == (match spec_extract_string(body@, spec_key_checksum()) {
            Some(v) => v,
            None => Seq::<u8>::empty(),
        }),
{
    let ua_plain = update_available_pattern(false);
    let ua_spaced = update_available_pattern(true);
    let available = match find_pattern(body, &ua_plain, 0) {
        Some(_) => true,
        None => match find_pattern(body, &ua_spaced, 0) {
            Some(_) => true,
            None => false,
        },
    };
    let version = match extract_json_string(body, &key_latest_version()) {
        Some(v) => v,
        None => unknown_version(),
    };
    let size = match extract_json_number(body, &key_size()) {
        Some(n) => n,
        None => 0,
    };
    let checksum = match extract_json_string(body, &key_checksum()) {
        Some(v) => v,
        None => Vec::new(),
    };
    UpdateInfo { available, version, size, checksum }
}

} // verus!
