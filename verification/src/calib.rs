//! Scale calibration: the two numbers that turn raw load-cell codes into
//! weight, and the fixed eight-byte record in which they are persisted.
//!
//! The persisted layout is `[zero_offset: i32 LE][cal_factor_x1000: i32 LE]`.
//! The calibration factor is stored in thousandths (fixed point), and must
//! never be zero: a zero factor would mean dividing by zero when a weight is
//! derived, so a record that decodes to zero is rejected as absent.

use vstd::prelude::*;
use vstd::bytes::{
    lemma_auto_spec_u32_to_from_le_bytes, spec_u32_from_le_bytes, spec_u32_to_le_bytes,
    u32_from_le_bytes, u32_to_le_bytes,
};

verus! {

/// Length in bytes of the persisted calibration record.
pub const CALIBRATION_BLOB_LEN: usize = 8;

/// The two numbers that convert raw ADC codes to weight.
///
/// `cal_factor_x1000` is the raw-codes-per-gram factor scaled by 1000,
/// so a factor of `1000` means one raw count per gram.
#[derive(Clone, Copy, Debug, PartialEq, Eq, Structural)]
pub struct Calibration {
    /// Raw ADC code corresponding to zero weight.
    pub zero_offset: i32,
    /// Raw codes per gram, in thousandths.  Never zero in a valid record.
    pub cal_factor_x1000: i32,
}

impl Calibration {
    /// A calibration is usable only when its factor is non-zero.
    pub open spec fn well_formed(self) -> bool {
        self.cal_factor_x1000 != 0
    }

    /// The boot-time default: no offset, factor 1.0.
    pub fn default_calibration() -> (c: Calibration)
        ensures
            c.zero_offset == 0,
            c.cal_factor_x1000 == 1000,
            c.well_formed(),
    {
        Calibration { zero_offset: 0, cal_factor_x1000: 1000 }
    }
}

/// The byte sequence that `encode` produces for a calibration record.
pub open spec fn spec_encode_calibration(c: Calibration) -> Seq<u8> {
    spec_u32_to_le_bytes(c.zero_offset as u32) + spec_u32_to_le_bytes(c.cal_factor_x1000 as u32)
}

/// The calibration that a byte sequence decodes to: `None` unless the
/// sequence is exactly eight bytes long and carries a non-zero factor.
pub open spec fn spec_decode_calibration(b: Seq<u8>) -> Option<Calibration> {
    if b.len() != CALIBRATION_BLOB_LEN {
        None
    } else {
        let z = spec_u32_from_le_bytes(b.subrange(0, 4)) as i32;
        let f = spec_u32_from_le_bytes(b.subrange(4, 8)) as i32;
        if f == 0 {
            None
        } else {
            Some(Calibration { zero_offset: z, cal_factor_x1000: f })
        }
    }
}

impl Calibration {
    /// Pack the record into its eight-byte persisted form.
    pub fn encode(&self) -> (b: Vec<u8>)
        ensures
            b@ == spec_encode_calibration(*self),
            b@.len() == CALIBRATION_BLOB_LEN,
    {
        proof {
            lemma_auto_spec_u32_to_from_le_bytes();
        }
        let mut b = u32_to_le_bytes(self.zero_offset as u32);
        let mut tail = u32_to_le_bytes(self.cal_factor_x1000 as u32);
        b.append(&mut tail);
        b
    }

    /// Unpack a persisted record.  Absence (wrong length) and a zero factor
    /// both yield `None`: a zero factor must never be put to use.
    pub fn decode(b: &Vec<u8>) -> (c: Option<Calibration>)
        ensures
            c == spec_decode_calibration(b@),
            c matches Some(cal) ==> cal.well_formed(),
    {
        if b.len() != CALIBRATION_BLOB_LEN {
            return None;
        }
        let z = u32_from_le_bytes(vstd::slice::slice_subrange(b.as_slice(), 0, 4)) as i32;
        let f = u32_from_le_bytes(vstd::slice::slice_subrange(b.as_slice(), 4, 8)) as i32;
        if f == 0 {
            None
        } else {
            Some(Calibration { zero_offset: z, cal_factor_x1000: f })
        }
    }
}

/// The non-volatile slot that holds the persisted calibration record.
///
/// This models one key of a key/value blob store: either no record has ever
/// been written, or the slot holds the bytes of the last successful `save`.
/// A store may refuse writes (`accept_writes == false`), which models a
/// persistence failure: the caller's in-memory calibration stays authoritative
/// and the old slot contents, if any, survive.
pub struct CalStore {
    /// The stored blob, if a record was ever written.
    pub slot: Option<Vec<u8>>,
    /// Whether writes reach the medium.  A read-only or failing medium keeps
    /// its old contents.
    pub accept_writes: bool,
}

impl CalStore {
    /// An empty, writable store: the state of a device that has never been
    /// calibrated.
    pub fn new() -> (s: CalStore)
        ensures
            s.slot is None,
            s.accept_writes,
    {
        CalStore { slot: None, accept_writes: true }
    }

    /// Read the persisted calibration.  Absence of a stored record — or a
    /// record that fails to decode — is the normal "use defaults" condition,
    /// not an error.
    pub fn load(&self) -> (c: Option<Calibration>)
        ensures
            self.slot is None ==> c is None,
            self.slot matches Some(b) ==> c == spec_decode_calibration(b@),
            c matches Some(cal) ==> cal.well_formed(),
    {
        match &self.slot {
            None => None,
            Some(b) => Calibration::decode(b),
        }
    }

    /// Write the calibration record.  Returns whether the write reached the
    /// medium; on failure the previous contents are untouched.
    pub fn save(&mut self, c: &Calibration) -> (ok: bool)
        ensures
            ok == old(self).accept_writes,
            final(self).accept_writes == old(self).accept_writes,
            ok ==> (final(self).slot matches Some(b) && b@ == spec_encode_calibration(*c)),
            !ok ==> final(self).slot == old(self).slot,
    {
        if self.accept_writes {
            self.slot = Some(c.encode());
            true
        } else {
            false
        }
    }
}

/// Round trip: every well-formed calibration record survives persistence
/// exactly — the zero offset and the fixed-point factor both come back
/// unchanged from `decode(encode(c))`.
pub proof fn lemma_calibration_round_trip(c: Calibration)
    requires
        c.well_formed(),
    ensures
        spec_decode_calibration(spec_encode_calibration(c)) == Some(c),
{
    lemma_auto_spec_u32_to_from_le_bytes();
    let zi: i32 = c.zero_offset;
    let fi: i32 = c.cal_factor_x1000;
    let zu: u32 = zi as u32;
    let fu: u32 = fi as u32;
    let b = spec_encode_calibration(c);
    assert(b.len() == 8);
    assert(b.subrange(0, 4) =~= spec_u32_to_le_bytes(zu));
    assert(b.subrange(4, 8) =~= spec_u32_to_le_bytes(fu));
    assert(spec_u32_from_le_bytes(spec_u32_to_le_bytes(zu)) == zu);
    assert(spec_u32_from_le_bytes(spec_u32_to_le_bytes(fu)) == fu);
    assert(zu as i32 == zi) by (bit_vector)
        requires
            zu == zi as u32,
    ;
    assert(fu as i32 == fi) by (bit_vector)
        requires
            fu == fi as u32,
    ;
    assert(fu as i32 != 0);
}

} // verus!
