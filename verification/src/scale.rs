//! Load-cell scale driver: acquisition, tare, two-point calibration, and the
//! stability check over a rolling window of raw samples.
//!
//! Weight is kept in milligrams (thousandths of a gram) so the whole pipeline
//! — raw code, zero offset, fixed-point factor, derived weight — is exact
//! integer arithmetic: `weight_mg = (raw - zero_offset) * 1_000_000 /
//! cal_factor_x1000` with truncation towards zero, computed on magnitudes so
//! the sign is explicit.
//!
//! The driver tolerates transient bus glitches: a failed poll leaves the
//! state exactly as it was, and only one-time initialization treats a fault
//! as fatal.

use vstd::prelude::*;
use vstd::arithmetic::div_mod::{lemma_fundamental_div_mod, lemma_mod_bound};
use crate::calib::Calibration;
use crate::bus::{
    lemma_cmd_txn_at_preserved, lemma_read_txn_at_preserved, spec_cmd_txn_at, spec_next_cursor,
    spec_read_result, spec_read_txn_at, spec_writes_start_with, SimBus,
};

verus! {

/// Command byte that asks the ADC for its status byte and the latest
/// conversion (one illustrative register protocol; the pattern, not the
/// exact register map, is what matters).
pub const SCALE_CMD_SAMPLE: u8 = 0x10;

/// Command byte that configures gain and sample rate.
pub const SCALE_CMD_CONFIG: u8 = 0x01;

/// Gain setting written during configuration.
pub const SCALE_GAIN: u8 = 0x04;

/// Sample-rate setting written during configuration.
pub const SCALE_RATE: u8 = 0x03;

/// Identity byte the ADC answers its probe with.
pub const SCALE_DEVICE_ID: u8 = 0x2A;

/// Acknowledge byte the ADC answers a configuration write with.
pub const SCALE_ACK: u8 = 0x01;

/// Number of consecutive raw samples the stability check looks at.
pub const STABILITY_WINDOW: usize = 8;

/// Noise threshold in raw counts: the window is stable when every sample is
/// within this distance of the window mean.
pub const STABILITY_NOISE: i32 = 10;

/// The frame that asks the ADC for its status byte and latest conversion.
pub open spec fn spec_scale_sample_frame() -> Seq<u8> {
    seq![SCALE_CMD_SAMPLE]
}

/// The frame that configures the ADC's gain and sample rate.
pub open spec fn spec_scale_config_frame() -> Seq<u8> {
    seq![SCALE_CMD_CONFIG, SCALE_GAIN, SCALE_RATE]
}

/// Errors of the scale driver.
#[derive(Clone, Copy, Debug, PartialEq, Eq, Structural)]
pub enum ScaleError {
    /// The device did not answer its probe at the fixed bus address.
    DeviceNotFound,
    /// The device answered, but configuring it failed.
    ConfigFailed,
    /// An operation needed a raw sample and none has been read yet.
    NoSample,
    /// A calibration weight of zero or less was given.
    InvalidWeight,
    /// The calibration factor came out as zero or out of range and was not
    /// put to use.
    CalibrationFailed,
}

/// Live acquisition state of one load-cell channel.
#[derive(Debug)]
pub struct ScaleState {
    /// Set once the device probe and configuration succeed.
    pub initialized: bool,
    /// Whether `last_raw` holds a real sample.
    pub has_sample: bool,
    /// Most recent raw ADC code.
    pub last_raw: i32,
    /// Derived weight in milligrams.
    pub weight_mg: i64,
    /// True when the last window of raw samples varies below the noise
    /// threshold around its mean.
    pub stable: bool,
    /// The most recent raw samples, oldest first, at most
    /// `STABILITY_WINDOW` of them.
    pub window: Vec<i32>,
    /// The two numbers that convert raw codes to weight.
    pub calibration: Calibration,
}

/// Mathematical image of a [`ScaleState`].
pub struct ScaleView {
    /// See [`ScaleState::initialized`].
    pub initialized: bool,
    /// See [`ScaleState::has_sample`].
    pub has_sample: bool,
    /// See [`ScaleState::last_raw`].
    pub last_raw: i32,
    /// Derived weight in milligrams, as an unbounded integer.
    pub weight_mg: int,
    /// See [`ScaleState::stable`].
    pub stable: bool,
    /// See [`ScaleState::window`].
    pub window: Seq<i32>,
    /// See [`ScaleState::calibration`].
    pub calibration: Calibration,
}

impl View for ScaleState {
    type V = ScaleView;

    open spec fn view(&self) -> ScaleView {
        ScaleView {
            initialized: self.initialized,
            has_sample: self.has_sample,
            last_raw: self.last_raw,
            weight_mg: self.weight_mg as int,
            stable: self.stable,
            window: self.window@,
            calibration: self.calibration,
        }
    }
}

/// Absolute value.
pub open spec fn spec_abs(x: int) -> int {
    if x < 0 {
        -x
    } else {
        x
    }
}

/// Sum of a window of raw samples.
pub open spec fn spec_sum(s: Seq<i32>) -> int
    decreases s.len(),
{
    if s.len() == 0 {
        0
    } else {
        spec_sum(s.drop_last()) + s.last()
    }
}

/// A full window is stable when every sample lies within the noise threshold
/// of the window mean; stated without division as
/// `|N * sample - sum| < N * threshold`.
pub open spec fn spec_window_stable(w: Seq<i32>) -> bool {
    &&& w.len() == STABILITY_WINDOW
    &&& forall|i: int|
        0 <= i < w.len() ==> spec_abs(
            STABILITY_WINDOW * (#[trigger] w[i]) - spec_sum(w),
        ) < STABILITY_WINDOW * STABILITY_NOISE
}

/// The window after one more sample: append, dropping the oldest when full.
pub open spec fn spec_push_sample(w: Seq<i32>, raw: i32) -> Seq<i32> {
    if w.len() < STABILITY_WINDOW {
        w.push(raw)
    } else {
        w.subrange(1, w.len() as int).push(raw)
    }
}

/// The derived weight in milligrams: `(raw - zero) * 1_000_000 / factor`,
/// truncating towards zero (computed on magnitudes, sign applied last).
pub open spec fn spec_weight_mg(raw: int, zero: int, cal_factor_x1000: int) -> int
    recommends
        cal_factor_x1000 != 0,
{
    let d = raw - zero;
    let md = spec_abs(d);
    let mf = spec_abs(cal_factor_x1000);
    let w = (md * 1000000) / mf;
    if (d < 0) == (cal_factor_x1000 < 0) {
        w
    } else {
        -w
    }
}

impl ScaleView {
    /// Invariant of the scale state: a usable calibration and a window that
    /// never exceeds its size.
    pub open spec fn wf(self) -> bool {
        &&& self.calibration.well_formed()
        &&& self.window.len() <= STABILITY_WINDOW
    }
}

/// The state after one accepted raw sample: the sample enters the window,
/// the weight is re-derived, and stability is re-judged.
pub open spec fn spec_apply_sample(s: ScaleView, raw: i32) -> ScaleView {
    let w = spec_push_sample(s.window, raw);
    ScaleView {
        has_sample: true,
        last_raw: raw,
        weight_mg: spec_weight_mg(
            raw as int,
            s.calibration.zero_offset as int,
            s.calibration.cal_factor_x1000 as int,
        ),
        stable: spec_window_stable(w),
        window: w,
        ..s
    }
}

/// The state after a successful tare: the current raw sample becomes the
/// zero offset; the factor and everything else stay.
pub open spec fn spec_tare(s: ScaleView) -> ScaleView {
    ScaleView {
        calibration: Calibration {
            zero_offset: s.last_raw,
            cal_factor_x1000: s.calibration.cal_factor_x1000,
        },
        ..s
    }
}

/// The calibration factor derived from a raw excursion `d` and a known
/// weight of `kw` milligrams: `d * 1_000_000 / kw`, truncating towards zero,
/// carrying the sign of `d`.
pub open spec fn spec_cal_factor(d: int, kw: int) -> int
    recommends
        kw > 0,
{
    let q = (spec_abs(d) * 1000000) / kw;
    if d < 0 {
        -q
    } else {
        q
    }
}

/// Whether a calibration against `kw` milligrams can succeed from state `s`:
/// the weight is positive, a sample exists, and the factor comes out
/// non-zero and within range.
pub open spec fn spec_calibrate_ok(s: ScaleView, kw: int) -> bool {
    &&& kw > 0
    &&& s.has_sample
    &&& {
        let q = (spec_abs(s.last_raw - s.calibration.zero_offset) * 1000000) / kw;
        1 <= q <= i32::MAX
    }
}

/// The state after a successful calibration against `kw` milligrams.
pub open spec fn spec_calibrate(s: ScaleView, kw: int) -> ScaleView {
    ScaleView {
        calibration: Calibration {
            zero_offset: s.calibration.zero_offset,
            cal_factor_x1000: spec_cal_factor(
                s.last_raw - s.calibration.zero_offset,
                kw,
            ) as i32,
        },
        ..s
    }
}

/// Derive the weight in milligrams from a raw code.
pub fn compute_weight_mg(raw: i32, zero: i32, cal_factor_x1000: i32) -> (w: i64)
    requires
        cal_factor_x1000 != 0,
    ensures
        w == spec_weight_mg(raw as int, zero as int, cal_factor_x1000 as int),
{
    let d: i64 = raw as i64 - zero as i64;
    let md: i64 = if d < 0 {
        -d
    } else {
        d
    };
    let mf: i64 = if cal_factor_x1000 < 0 {
        -(cal_factor_x1000 as i64)
    } else {
        cal_factor_x1000 as i64
    };
    let w: i64 = (md * 1000000) / mf;
    if (d < 0) == (cal_factor_x1000 < 0) {
        w
    } else {
        -w
    }
}

impl ScaleState {
    /// A fresh, unconfigured channel with the given calibration.
    pub fn new(calibration: Calibration) -> (s: ScaleState)
        requires
            calibration.well_formed(),
        ensures
            s@.wf(),
            !s@.initialized,
            !s@.has_sample,
            s@.last_raw == 0,
            s@.weight_mg == 0,
            !s@.stable,
            s@.window.len() == 0,
            s@.calibration == calibration,
    {
        ScaleState {
            initialized: false,
            has_sample: false,
            last_raw: 0,
            weight_mg: 0,
            stable: false,
            window: Vec::new(),
            calibration,
        }
    }
}

/// Record one accepted raw sample: update the window, the derived weight,
/// and the stability judgement.
pub fn apply_sample(state: &mut ScaleState, raw: i32)
    requires
        old(state)@.wf(),
    ensures
        final(state)@.wf(),
        final(state)@ == spec_apply_sample(old(state)@, raw),
{
    let ghost old_w = state.window@;
    if state.window.len() >= STABILITY_WINDOW {
        state.window.remove(0);
        proof {
            assert(state.window@ =~= old_w.subrange(1, old_w.len() as int));
        }
    }
    state.window.push(raw);
    proof {
        assert(state.window@ =~= spec_push_sample(old_w, raw));
    }
    state.last_raw = raw;
    state.has_sample = true;
    state.weight_mg = compute_weight_mg(
        raw,
        state.calibration.zero_offset,
        state.calibration.cal_factor_x1000,
    );
    state.stable = check_stable(&state.window);
}

/// Take the current raw sample as the new zero offset.  The calibration
/// factor is untouched.  Fails with `NoSample` when nothing has been read
/// yet.
pub fn tare_state(state: &mut ScaleState) -> (r: Result<(), ScaleError>)
    requires
        old(state)@.wf(),
    ensures
        final(state)@.wf(),
        old(state)@.has_sample ==> r is Ok && final(state)@ == spec_tare(old(state)@),
        !old(state)@.has_sample ==> r == Err::<(), ScaleError>(ScaleError::NoSample)
            && final(state)@ == old(state)@,
{
    if !state.has_sample {
        return Err(ScaleError::NoSample);
    }
    state.calibration.zero_offset = state.last_raw;
    Ok(())
}

/// Derive the calibration factor from the current raw sample and a known
/// weight in milligrams.  Fails with `InvalidWeight` on a non-positive
/// weight, `NoSample` when nothing has been read yet, and
/// `CalibrationFailed` when the factor would be zero or out of range — a
/// zero factor is never stored.
pub fn calibrate_state(state: &mut ScaleState, known_weight_mg: i64) -> (r: Result<
    (),
    ScaleError,
>)
    requires
        old(state)@.wf(),
    ensures
        final(state)@.wf(),
        known_weight_mg <= 0 ==> r == Err::<(), ScaleError>(ScaleError::InvalidWeight)
            && final(state)@ == old(state)@,
        known_weight_mg > 0 && !old(state)@.has_sample ==> r == Err::<(), ScaleError>(
            ScaleError::NoSample,
        ) && final(state)@ == old(state)@,
        known_weight_mg > 0 && old(state)@.has_sample && !spec_calibrate_ok(
            old(state)@,
            known_weight_mg as int,
        ) ==> r == Err::<(), ScaleError>(ScaleError::CalibrationFailed) && final(state)@ == old(
            state,
        )@,
        spec_calibrate_ok(old(state)@, known_weight_mg as int) ==> r is Ok && final(state)@
            == spec_calibrate(old(state)@, known_weight_mg as int),
{
    if known_weight_mg <= 0 {
        return Err(ScaleError::InvalidWeight);
    }
    if !state.has_sample {
        return Err(ScaleError::NoSample);
    }
    let d: i64 = state.last_raw as i64 - state.calibration.zero_offset as i64;
    let md: i64 = if d < 0 {
        -d
    } else {
        d
    };
    let q: i64 = (md * 1000000) / known_weight_mg;
    if q == 0 || q > i32::MAX as i64 {
        return Err(ScaleError::CalibrationFailed);
    }
    let f: i32 = if d < 0 {
        -(q as i32)
    } else {
        q as i32
    };
    state.calibration.cal_factor_x1000 = f;
    Ok(())
}

/// Judge stability of a window of raw samples: the window must be full and
/// every sample within the noise threshold of the mean.
pub fn check_stable(w: &Vec<i32>) -> (r: bool)
    ensures
        r == spec_window_stable(w@),
{
    if w.len() != STABILITY_WINDOW {
        return false;
    }
    let mut sum: i64 = 0;
    let mut i: usize = 0;
    while i < w.len()
        invariant
            i <= w.len(),
            w@.len() == STABILITY_WINDOW,
            sum == spec_sum(w@.take(i as int)),
            -(2147483648i64 * i as i64) <= sum <= 2147483647i64 * i as i64,
        decreases w.len() - i,
    {
        proof {
            assert(w@.take(i + 1).drop_last() =~= w@.take(i as int));
            assert(w@.take(i + 1).last() == w@[i as int]);
        }
        sum = sum + w[i] as i64;
        i = i + 1;
    }
    proof {
        assert(w@.take(w@.len() as int) =~= w@);
    }
    let mut i: usize = 0;
    while i < w.len()
        invariant
            i <= w.len(),
            w@.len() == STABILITY_WINDOW,
            sum == spec_sum(w@),
            -(2147483648i64 * 8) <= sum <= 2147483647i64 * 8,
            forall|j: int|
                0 <= j < i ==> spec_abs(STABILITY_WINDOW * (#[trigger] w@[j]) - spec_sum(w@))
                    < STABILITY_WINDOW * STABILITY_NOISE,
        decreases w.len() - i,
    {
        let dev: i64 = 8 * (w[i] as i64) - sum;
        let mag: i64 = if dev < 0 {
            -dev
        } else {
            dev
        };
        if mag >= 8 * (STABILITY_NOISE as i64) {
            return false;
        }
        i = i + 1;
    }
    true
}

/// A sample reply carries a set data-ready flag in its status byte.
pub open spec fn spec_sample_ready(b: Seq<u8>) -> bool {
    b.len() == 4 && (b[0] & 0x01) == 1
}

/// The raw code carried by a sample reply: a sign-extended 24-bit
/// little-endian value in bytes 1..4.
pub open spec fn spec_sample_raw(b: Seq<u8>) -> int
    recommends
        b.len() == 4,
{
    let v = b[1] + 256 * b[2] + 65536 * b[3];
    if b[3] >= 128 {
        v - 16777216
    } else {
        v
    }
}

/// The scale state after one poll transaction whose read step answered
/// `rr`: a fault or a not-ready status leaves the state exactly as it was —
/// transient glitches are absorbed, never propagated.
pub open spec fn spec_poll_step(s: ScaleView, rr: Option<Seq<u8>>) -> ScaleView {
    match rr {
        None => s,
        Some(b) => if spec_sample_ready(b) {
            spec_apply_sample(s, spec_sample_raw(b) as i32)
        } else {
            s
        },
    }
}

/// A probe reply that identifies the ADC.
pub open spec fn spec_probe_ok(rr: Option<Seq<u8>>) -> bool {
    rr matches Some(b) && b.len() == 1 && b[0] == SCALE_DEVICE_ID
}

/// A configuration reply that acknowledges the settings.
pub open spec fn spec_config_ack(rr: Option<Seq<u8>>) -> bool {
    rr matches Some(b) && b.len() == 1 && b[0] == SCALE_ACK
}

/// Decode the raw code from a 4-byte sample reply.
fn decode_sample(b: &Vec<u8>) -> (raw: i32)
    requires
        b@.len() == 4,
    ensures
        raw as int == spec_sample_raw(b@),
{
    let v: i32 = (b[1] as i32) + 256 * (b[2] as i32) + 65536 * (b[3] as i32);
    if b[3] >= 0x80 {
        v - 16777216
    } else {
        v
    }
}

/// Probe and configure the ADC: one probe transaction that must answer the
/// device identity, then one configuration transaction that must be
/// acknowledged.  On success the channel is marked initialized; every other
/// field is untouched.
pub fn init(bus: &mut SimBus, state: &mut ScaleState) -> (r: Result<(), ScaleError>)
    requires
        old(bus).wf(),
        old(state)@.wf(),
    ensures
        final(bus).wf(),
        final(state)@.wf(),
        final(bus).replies == old(bus).replies,
        final(bus).busy == old(bus).busy,
        final(bus).busy_cursor == old(bus).busy_cursor,
        final(bus).log@.len() >= old(bus).log@.len(),
        final(bus).log@.take(old(bus).log@.len() as int) == old(bus).log@,
        spec_read_txn_at(final(bus).log@, old(bus).log@.len() as int, 1),
        ({
            let probe = spec_read_result(old(bus).replies@, old(bus).cursor as int, 1);
            let k1 = spec_next_cursor(old(bus).replies@, old(bus).cursor as int);
            let ack = spec_read_result(old(bus).replies@, k1, 1);
            let l0 = old(bus).log@.len() as int;
            &&& !spec_probe_ok(probe) ==> r == Err::<(), ScaleError>(ScaleError::DeviceNotFound)
                && final(state)@ == old(state)@ && final(bus).cursor == k1
                && final(bus).log@.len() == l0 + 3
            &&& spec_probe_ok(probe) ==> (final(bus).log@.len() == l0 + 9 && spec_cmd_txn_at(
                final(bus).log@,
                l0 + 3,
                spec_scale_config_frame(),
            ) && spec_read_txn_at(final(bus).log@, l0 + 6, 1))
            &&& spec_probe_ok(probe) && !spec_config_ack(ack) ==> r == Err::<(), ScaleError>(
                ScaleError::ConfigFailed,
            ) && final(state)@ == old(state)@ && final(bus).cursor == spec_next_cursor(
                old(bus).replies@,
                k1,
            )
            &&& spec_probe_ok(probe) && spec_config_ack(ack) ==> r is Ok && final(state)@
                == (ScaleView { initialized: true, ..old(state)@ }) && final(bus).cursor
                == spec_next_cursor(old(bus).replies@, k1)
        }),
{
    let ghost old_log = old(bus).log@;
    let probe = bus.txn_read(1);
    proof {
        assert(bus.log@.take(old_log.len() as int) =~= old_log);
    }
    let probe_ok: bool = match &probe {
        Some(b) => b.len() == 1 && b[0] == SCALE_DEVICE_ID,
        None => false,
    };
    if !probe_ok {
        return Err(ScaleError::DeviceNotFound);
    }
    let mut cmd: Vec<u8> = Vec::new();
    cmd.push(SCALE_CMD_CONFIG);
    cmd.push(SCALE_GAIN);
    cmd.push(SCALE_RATE);
    proof {
        assert(cmd@ =~= spec_scale_config_frame());
    }
    let ghost l_probe = bus.log@;
    bus.txn_write(&cmd);
    proof {
        assert(bus.log@.take(old_log.len() as int) =~= old_log);
        lemma_read_txn_at_preserved(l_probe, bus.log@, old_log.len() as int, 1);
    }
    let ghost l_cfg = bus.log@;
    let ack = bus.txn_read(1);
    proof {
        assert(bus.log@.take(old_log.len() as int) =~= old_log);
        lemma_read_txn_at_preserved(l_cfg, bus.log@, old_log.len() as int, 1);
        lemma_cmd_txn_at_preserved(
            l_cfg,
            bus.log@,
            old_log.len() as int + 3,
            spec_scale_config_frame(),
        );
    }
    let ack_ok: bool = match &ack {
        Some(b) => b.len() == 1 && b[0] == SCALE_ACK,
        None => false,
    };
    if !ack_ok {
        return Err(ScaleError::ConfigFailed);
    }
    state.initialized = true;
    Ok(())
}

/// One poll tick: ask for status and conversion in a single two-step bus
/// exchange, and take the sample only when the data-ready flag is set.  A
/// transport fault or a not-ready status changes nothing — the scale
/// tolerates glitches without re-initialization.
pub fn poll(bus: &mut SimBus, state: &mut ScaleState)
    requires
        old(bus).wf(),
        old(state)@.wf(),
    ensures
        final(bus).wf(),
        final(state)@.wf(),
        final(bus).replies == old(bus).replies,
        final(bus).busy == old(bus).busy,
        final(bus).busy_cursor == old(bus).busy_cursor,
        final(bus).log@.len() == old(bus).log@.len() + 6,
        final(bus).log@.take(old(bus).log@.len() as int) == old(bus).log@,
        spec_cmd_txn_at(final(bus).log@, old(bus).log@.len() as int, spec_scale_sample_frame()),
        spec_read_txn_at(final(bus).log@, old(bus).log@.len() as int + 3, 4),
        spec_writes_start_with(final(bus).log@, old(bus).log@.len() as int, SCALE_CMD_SAMPLE),
        final(bus).cursor == spec_next_cursor(old(bus).replies@, old(bus).cursor as int),
        final(state)@ == spec_poll_step(
            old(state)@,
            spec_read_result(old(bus).replies@, old(bus).cursor as int, 4),
        ),
{
    let ghost old_log = old(bus).log@;
    let mut cmd: Vec<u8> = Vec::new();
    cmd.push(SCALE_CMD_SAMPLE);
    proof {
        assert(cmd@ =~= spec_scale_sample_frame());
    }
    bus.txn_write(&cmd);
    let ghost mid_log = bus.log@;
    let r = bus.txn_read(4);
    proof {
        assert(bus.log@.take(old_log.len() as int) =~= old_log);
        lemma_cmd_txn_at_preserved(
            mid_log,
            bus.log@,
            old_log.len() as int,
            spec_scale_sample_frame(),
        );
        assert forall|i: int| old_log.len() <= i < bus.log@.len() implies ((#[trigger] bus.log@[i])
            matches crate::bus::BusEvent::Write(c) ==> c@.len() > 0 && c@[0]
            == SCALE_CMD_SAMPLE) by {
            if i < mid_log.len() {
                assert(bus.log@.take(mid_log.len() as int)[i] == bus.log@[i]);
            }
        }
    }
    match r {
        None => (),
        Some(b) => {
            if b[0] & 0x01 == 1 {
                let raw = decode_sample(&b);
                apply_sample(state, raw);
            }
        },
    }
}

/// Read a fresh sample and take it as the new zero offset.  Fails with
/// `NoSample` when neither this read nor any earlier one produced a sample.
pub fn tare(bus: &mut SimBus, state: &mut ScaleState) -> (r: Result<(), ScaleError>)
    requires
        old(bus).wf(),
        old(state)@.wf(),
    ensures
        final(bus).wf(),
        final(state)@.wf(),
        final(bus).replies == old(bus).replies,
        final(bus).busy == old(bus).busy,
        final(bus).busy_cursor == old(bus).busy_cursor,
        final(bus).log@.take(old(bus).log@.len() as int) == old(bus).log@,
        final(bus).cursor == spec_next_cursor(old(bus).replies@, old(bus).cursor as int),
        ({
            let polled = spec_poll_step(
                old(state)@,
                spec_read_result(old(bus).replies@, old(bus).cursor as int, 4),
            );
            &&& polled.has_sample ==> r is Ok && final(state)@ == spec_tare(polled)
            &&& !polled.has_sample ==> r == Err::<(), ScaleError>(ScaleError::NoSample)
                && final(state)@ == polled
        }),
{
    poll(bus, state);
    tare_state(state)
}

/// Read a fresh sample and derive the calibration factor against a known
/// weight in milligrams.  The error cases mirror `calibrate_state`, judged
/// on the freshly polled state.
pub fn calibrate(bus: &mut SimBus, state: &mut ScaleState, known_weight_mg: i64) -> (r: Result<
    (),
    ScaleError,
>)
    requires
        old(bus).wf(),
        old(state)@.wf(),
    ensures
        final(bus).wf(),
        final(state)@.wf(),
        final(bus).replies == old(bus).replies,
        final(bus).busy == old(bus).busy,
        final(bus).busy_cursor == old(bus).busy_cursor,
        final(bus).log@.take(old(bus).log@.len() as int) == old(bus).log@,
        final(bus).cursor == spec_next_cursor(old(bus).replies@, old(bus).cursor as int),
        ({
            let polled = spec_poll_step(
                old(state)@,
                spec_read_result(old(bus).replies@, old(bus).cursor as int, 4),
            );
            &&& known_weight_mg <= 0 ==> r == Err::<(), ScaleError>(ScaleError::InvalidWeight)
                && final(state)@ == polled
            &&& known_weight_mg > 0 && !polled.has_sample ==> r == Err::<(), ScaleError>(
                ScaleError::NoSample,
            ) && final(state)@ == polled
            &&& known_weight_mg > 0 && polled.has_sample && !spec_calibrate_ok(
                polled,
                known_weight_mg as int,
            ) ==> r == Err::<(), ScaleError>(ScaleError::CalibrationFailed) && final(state)@
                == polled
            &&& spec_calibrate_ok(polled, known_weight_mg as int) ==> r is Ok && final(state)@
                == spec_calibrate(polled, known_weight_mg as int)
        }),
{
    poll(bus, state);
    calibrate_state(state, known_weight_mg)
}

/// After a successful tare, a poll that reads the very same raw sample
/// derives a weight of exactly zero.
pub proof fn lemma_tare_then_poll_reads_zero(s: ScaleView)
    requires
        s.wf(),
        s.has_sample,
    ensures
        spec_apply_sample(spec_tare(s), s.last_raw).weight_mg == 0,
{
    let f = s.calibration.cal_factor_x1000 as int;
    let mf = spec_abs(f);
    assert(mf > 0);
    assert((0int * 1000000) / mf == 0) by {
        lemma_fundamental_div_mod(0, mf);
        lemma_mod_bound(0, mf);
        let q = 0int / mf;
        if q > 0 {
            assert(mf * q >= mf) by (nonlinear_arith)
                requires
                    mf > 0,
                    q >= 1,
            ;
        }
        if q < 0 {
            assert(mf * q <= -mf) by (nonlinear_arith)
                requires
                    mf > 0,
                    q <= -1,
            ;
        }
    }
}

/// After a successful calibration against a known weight of `kw`
/// milligrams, a poll that reads the very same raw sample derives a weight
/// within one part in `|factor|` above `kw`:
/// `kw <= weight` and `(weight - kw) * |factor| < kw`.
pub proof fn lemma_calibrate_then_poll_recovers_weight(s: ScaleView, kw: int)
    requires
        s.wf(),
        kw >= 1,
        spec_calibrate_ok(s, kw),
    ensures
        ({
            let t = spec_calibrate(s, kw);
            let p = spec_apply_sample(t, s.last_raw);
            kw <= p.weight_mg && (p.weight_mg - kw) * spec_abs(
                t.calibration.cal_factor_x1000 as int,
            ) < kw
        }),
{
    let d = s.last_raw - s.calibration.zero_offset;
    let bigd = spec_abs(d) * 1000000;
    let q = bigd / kw;
    let t = spec_calibrate(s, kw);
    let f = t.calibration.cal_factor_x1000 as int;
    assert(1 <= q <= i32::MAX);
    assert(f == spec_cal_factor(d, kw));
    assert(spec_abs(f) == q);
    // The polled weight is bigd / q, positive because the signs of the raw
    // excursion and the factor agree.
    let p = spec_apply_sample(t, s.last_raw);
    let w = p.weight_mg;
    assert(d != 0) by {
        if d == 0 {
            lemma_fundamental_div_mod(0, kw);
            lemma_mod_bound(0, kw);
            assert(kw * (0int / kw) == 0int - 0int % kw);
            let q0 = 0int / kw;
            if q0 >= 1 {
                assert(kw * q0 >= kw) by (nonlinear_arith)
                    requires
                        kw >= 1,
                        q0 >= 1,
                ;
            }
            if q0 <= -1 {
                assert(kw * q0 <= -kw) by (nonlinear_arith)
                    requires
                        kw >= 1,
                        q0 <= -1,
                ;
            }
        }
    }
    assert(w == bigd / q);
    // Division facts for q = bigd / kw and w = bigd / q.
    lemma_fundamental_div_mod(bigd, kw);
    lemma_mod_bound(bigd, kw);
    lemma_fundamental_div_mod(bigd, q);
    lemma_mod_bound(bigd, q);
    let r1 = bigd % kw;
    let r2 = bigd % q;
    assert(bigd == kw * q + r1);
    assert(bigd == q * w + r2);
    // Lower bound: kw <= w.
    if w < kw {
        assert(q * (w + 1) <= q * kw) by (nonlinear_arith)
            requires
                q >= 1,
                w + 1 <= kw,
        ;
        assert(q * kw == kw * q) by (nonlinear_arith);
        assert(q * (w + 1) == q * w + q) by (nonlinear_arith);
        assert(false);
    }
    // Upper bound: (w - kw) * q < kw.
    assert(kw * q + kw > bigd);
    assert((w - kw) * q == q * w - kw * q) by (nonlinear_arith);
    assert((w - kw) * q < kw);
}

} // verus!
