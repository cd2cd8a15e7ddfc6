//! Device manager: the one owner of the shared bus, the scale state, and
//! the NFC state, behind which every consumer (UI, main loop) sees only
//! copied, primitive data.
//!
//! The bus access layer ([`SharedBus`]) serializes the two devices: it owns
//! the bus and lends it out for exactly one scoped use at a time, and an
//! uninitialized bus is a valid "hardware not present" condition reported as
//! `None`, never an error.  The manager collapses driver errors to the
//! plain success/failure sentinels its callers expect, and status queries on
//! an absent device return initialized-false defaults rather than stale
//! data.

use vstd::prelude::*;
use crate::bus::{spec_next_cursor, spec_read_result, SimBus};
use crate::calib::{spec_decode_calibration, CalStore, Calibration};
use crate::nfc::{
    init_pn5180, spec_activation_end_cursor, spec_activation_outcome, spec_eeprom_end_cursor,
    spec_eeprom_outcome, spec_fw_version, spec_u32_at, ActivationOutcome, Iso14443aCard,
    Pn5180Driver, Pn5180State, ReadyStrategy, ResetStrategy, EEPROM_RETRIES,
};
use crate::scale::{
    spec_calibrate, spec_calibrate_ok, spec_poll_step, spec_tare, ScaleState, ScaleView,
};

verus! {

/// The bus access layer: owns the bus, if one was ever initialized, and
/// lends it out one scoped use at a time.
pub struct SharedBus {
    /// The bus, or `None` when no bus hardware was ever brought up.
    pub inner: Option<SimBus>,
}

impl SharedBus {
    /// A layer with no bus: every access will report "not present".
    pub fn new_uninitialized() -> (s: SharedBus)
        ensures
            s.inner is None,
    {
        SharedBus { inner: None }
    }

    /// A layer owning the given bus.
    pub fn new_with(bus: SimBus) -> (s: SharedBus)
        ensures
            s.inner == Some(bus),
    {
        SharedBus { inner: Some(bus) }
    }

    /// Run one scoped bus use.  Absence of the bus is not an error: it is a
    /// valid "not present" state, reported as `None` with nothing run.
    /// Otherwise the bus is lent to `f` for exactly one call, whose result
    /// comes back as `Some`.  The closure must not re-enter this layer — it
    /// owns the bus for the duration of the call.
    pub fn with_bus<R, F: FnOnce(SimBus) -> (SimBus, R)>(&mut self, f: F) -> (r: Option<R>)
        requires
            old(self).inner matches Some(b) ==> call_requires(f, (b,)),
        ensures
            old(self).inner is None ==> r is None && *final(self) == *old(self),
            old(self).inner matches Some(b) ==> (r matches Some(out) && final(self).inner
                matches Some(b2) && call_ensures(f, (b,), (b2, out))),
    {
        match self.inner.take() {
            None => None,
            Some(b) => {
                let (b2, out) = f(b);
                self.inner = Some(b2);
                Some(out)
            },
        }
    }
}

/// Status snapshot of the scale, all primitive fields, safe to copy out.
#[derive(Clone, Copy, Debug, PartialEq, Eq, Structural)]
pub struct ScaleStatus {
    /// Whether the scale hardware is initialized.
    pub initialized: bool,
    /// Derived weight in milligrams.
    pub weight_mg: i64,
    /// Most recent raw ADC code.
    pub raw_value: i32,
    /// Whether the recent samples are stable.
    pub stable: bool,
    /// Raw code taken as zero weight.
    pub tare_offset: i32,
    /// Raw codes per gram, in thousandths.
    pub cal_factor_x1000: i32,
}

/// The calibration a store decodes to, if any.
pub open spec fn spec_store_calibration(store: CalStore) -> Option<Calibration> {
    match store.slot {
        None => None,
        Some(b) => spec_decode_calibration(b@),
    }
}

/// The single owner of the two device states and the shared bus.
pub struct DeviceManager {
    /// The bus access layer.
    pub bus: SharedBus,
    /// The scale channel, once handed over.
    pub scale: Option<ScaleState>,
    /// The NFC chip state.
    pub nfc: Pn5180State,
    /// The NFC driver, once initialization succeeded.
    pub nfc_driver: Option<Pn5180Driver>,
    /// The persisted-calibration store.
    pub store: CalStore,
    /// The card reported by the last successful activation.
    pub last_card: Option<Iso14443aCard>,
}

impl DeviceManager {
    /// Manager invariant: a present bus is well-formed and a present scale
    /// state is well-formed.
    pub open spec fn wf(self) -> bool {
        &&& (self.bus.inner matches Some(b) ==> b.wf())
        &&& (self.scale matches Some(s) ==> s@.wf())
    }

    /// A manager with no devices and no bus, over the given store.
    pub fn new(store: CalStore) -> (m: DeviceManager)
        ensures
            m.wf(),
            m.bus.inner is None,
            m.scale is None,
            m.nfc_driver is None,
            m.last_card is None,
            m.store == store,
            !m.nfc.initialized,
    {
        DeviceManager {
            bus: SharedBus::new_uninitialized(),
            scale: None,
            nfc: Pn5180State::new(),
            nfc_driver: None,
            store,
            last_card: None,
        }
    }

    /// Hand the manager the bus.
    pub fn attach_bus(&mut self, bus: SimBus)
        requires
            bus.wf(),
        ensures
            final(self).bus.inner == Some(bus),
            final(self).scale == old(self).scale,
            final(self).nfc == old(self).nfc,
            final(self).nfc_driver == old(self).nfc_driver,
            final(self).store == old(self).store,
            final(self).last_card == old(self).last_card,
            old(self).wf() ==> final(self).wf(),
    {
        self.bus = SharedBus::new_with(bus);
    }

    /// Hand the manager the scale channel.  A calibration persisted in the
    /// store replaces the state's own; absence of a stored record means the
    /// state's defaults stay.
    pub fn init_scale_manager(&mut self, state: ScaleState)
        requires
            old(self).wf(),
            state@.wf(),
        ensures
            final(self).wf(),
            final(self).scale matches Some(s) && s@ == (match spec_store_calibration(
                old(self).store,
            ) {
                Some(c) => ScaleView { calibration: c, ..state@ },
                None => state@,
            }),
            final(self).bus == old(self).bus,
            final(self).nfc == old(self).nfc,
            final(self).nfc_driver == old(self).nfc_driver,
            final(self).store == old(self).store,
            final(self).last_card == old(self).last_card,
    {
        let mut state = state;
        match self.store.load() {
            Some(c) => {
                state.calibration = c;
            },
            None => {},
        }
        self.scale = Some(state);
    }

    /// One scale poll tick, called from the main loop.  Nothing happens
    /// unless the scale was handed over, is initialized, and the bus is
    /// present; a glitched read changes nothing either.
    pub fn poll_scale(&mut self)
        requires
            old(self).wf(),
        ensures
            final(self).wf(),
            final(self).nfc == old(self).nfc,
            final(self).nfc_driver == old(self).nfc_driver,
            final(self).store == old(self).store,
            final(self).last_card == old(self).last_card,
            ({
                match (old(self).scale, old(self).bus.inner) {
                    (Some(s), Some(b)) => if s@.initialized {
                        &&& final(self).scale matches Some(s2) && s2@ == spec_poll_step(
                            s@,
                            spec_read_result(b.replies@, b.cursor as int, 4),
                        )
                        &&& final(self).bus.inner matches Some(b2) && b2.cursor
                            == spec_next_cursor(b.replies@, b.cursor as int) && b2.replies
                            == b.replies
                    } else {
                        final(self).scale == old(self).scale && final(self).bus == old(self).bus
                    },
                    _ => final(self).scale == old(self).scale && final(self).bus == old(self).bus,
                }
            }),
    {
        let scale_ready: bool = match &self.scale {
            Some(s) => s.initialized,
            None => false,
        };
        if !scale_ready {
            return ;
        }
        let mut state = match self.scale.take() {
            Some(s) => s,
            None => {
                return ;
            },
        };
        match self.bus.inner.take() {
            None => {
                self.scale = Some(state);
            },
            Some(mut b) => {
                crate::scale::poll(&mut b, &mut state);
                self.bus.inner = Some(b);
                self.scale = Some(state);
            },
        }
    }

    /// Copy out the scale status.  With no scale handed over, every field
    /// is the initialized-false default — zeros, and the identity factor —
    /// rather than stale data.
    pub fn scale_get_status(&self) -> (st: ScaleStatus)
        ensures
            match self.scale {
                Some(s) => st == (ScaleStatus {
                    initialized: s@.initialized,
                    weight_mg: s.weight_mg,
                    raw_value: s@.last_raw,
                    stable: s@.stable,
                    tare_offset: s@.calibration.zero_offset,
                    cal_factor_x1000: s@.calibration.cal_factor_x1000,
                }),
                None => st == (ScaleStatus {
                    initialized: false,
                    weight_mg: 0i64,
                    raw_value: 0i32,
                    stable: false,
                    tare_offset: 0i32,
                    cal_factor_x1000: 1000i32,
                }),
            },
    {
        match &self.scale {
            Some(s) => ScaleStatus {
                initialized: s.initialized,
                weight_mg: s.weight_mg,
                raw_value: s.last_raw,
                stable: s.stable,
                tare_offset: s.calibration.zero_offset,
                cal_factor_x1000: s.calibration.cal_factor_x1000,
            },
            None => ScaleStatus {
                initialized: false,
                weight_mg: 0,
                raw_value: 0,
                stable: false,
                tare_offset: 0,
                cal_factor_x1000: 1000,
            },
        }
    }

    /// Current weight in milligrams; zero when no scale is present.
    pub fn scale_get_weight(&self) -> (w: i64)
        ensures
            w == (match self.scale {
                Some(s) => s.weight_mg,
                None => 0i64,
            }),
    {
        match &self.scale {
            Some(s) => s.weight_mg,
            None => 0,
        }
    }

    /// Most recent raw ADC code; zero when no scale is present.
    pub fn scale_get_raw(&self) -> (raw: i32)
        ensures
            raw == (match self.scale {
                Some(s) => s.last_raw,
                None => 0i32,
            }),
    {
        match &self.scale {
            Some(s) => s.last_raw,
            None => 0,
        }
    }

    /// Whether the scale hardware is initialized; false when absent.
    pub fn scale_is_initialized(&self) -> (r: bool)
        ensures
            r == (match self.scale {
                Some(s) => s.initialized,
                None => false,
            }),
    {
        match &self.scale {
            Some(s) => s.initialized,
            None => false,
        }
    }

    /// Whether the weight reading is stable; false when absent.
    pub fn scale_is_stable(&self) -> (r: bool)
        ensures
            r == (match self.scale {
                Some(s) => s.stable,
                None => false,
            }),
    {
        match &self.scale {
            Some(s) => s.stable,
            None => false,
        }
    }

    /// The raw code taken as zero weight; zero when no scale is present.
    pub fn scale_get_tare_offset(&self) -> (z: i32)
        ensures
            z == (match self.scale {
                Some(s) => s.calibration.zero_offset,
                None => 0i32,
            }),
    {
        match &self.scale {
            Some(s) => s.calibration.zero_offset,
            None => 0,
        }
    }

    /// Tare the scale: read a fresh sample, take it as the zero offset, and
    /// persist the calibration.  Returns 0 on success and -1 on failure —
    /// no scale, no bus, or no sample.  A persistence failure does not roll
    /// the tare back: the in-memory calibration stays authoritative.
    pub fn scale_tare(&mut self) -> (r: i32)
        requires
            old(self).wf(),
        ensures
            final(self).wf(),
            final(self).nfc == old(self).nfc,
            final(self).nfc_driver == old(self).nfc_driver,
            final(self).last_card == old(self).last_card,
            r == 0 || r == -1,
            ({
                match (old(self).scale, old(self).bus.inner) {
                    (Some(s), Some(b)) => {
                        let polled = spec_poll_step(
                            s@,
                            spec_read_result(b.replies@, b.cursor as int, 4),
                        );
                        &&& (final(self).bus.inner matches Some(b2) && b2.replies == b.replies
                            && b2.busy == b.busy && b2.cursor == spec_next_cursor(
                            b.replies@,
                            b.cursor as int,
                        ))
                        &&& if polled.has_sample {
                            &&& r == 0
                            &&& final(self).scale matches Some(s2) && s2@ == spec_tare(polled)
                            &&& old(self).store.accept_writes ==> (final(self).store.slot
                                matches Some(bl) && bl@ == crate::calib::spec_encode_calibration(
                                spec_tare(polled).calibration,
                            ))
                            &&& !old(self).store.accept_writes ==> final(self).store == old(self).store
                        } else {
                            &&& r == -1
                            &&& final(self).scale matches Some(s2) && s2@ == polled
                            &&& final(self).store == old(self).store
                        }
                    },
                    _ => r == -1 && final(self).scale == old(self).scale && final(self).store
                        == old(self).store && final(self).bus == old(self).bus,
                }
            }),
    {
        let mut state = match self.scale.take() {
            Some(s) => s,
            None => {
                return -1;
            },
        };
        match self.bus.inner.take() {
            None => {
                self.scale = Some(state);
                -1
            },
            Some(mut b) => {
                let outcome = crate::scale::tare(&mut b, &mut state);
                self.bus.inner = Some(b);
                let r: i32 = match outcome {
                    Ok(_) => {
                        let _ = self.store.save(&state.calibration);
                        0
                    },
                    Err(_) => -1,
                };
                self.scale = Some(state);
                r
            },
        }
    }

    /// Calibrate the scale against a known weight in milligrams, and
    /// persist the calibration.  Returns 0 on success and -1 on failure —
    /// no scale, no bus, bad weight, no sample, or an unusable factor.  A
    /// persistence failure does not roll the calibration back.
    pub fn scale_calibrate(&mut self, known_weight_mg: i64) -> (r: i32)
        requires
            old(self).wf(),
        ensures
            final(self).wf(),
            final(self).nfc == old(self).nfc,
            final(self).nfc_driver == old(self).nfc_driver,
            final(self).last_card == old(self).last_card,
            r == 0 || r == -1,
            ({
                match (old(self).scale, old(self).bus.inner) {
                    (Some(s), Some(b)) => {
                        let polled = spec_poll_step(
                            s@,
                            spec_read_result(b.replies@, b.cursor as int, 4),
                        );
                        &&& (final(self).bus.inner matches Some(b2) && b2.replies == b.replies
                            && b2.busy == b.busy && b2.cursor == spec_next_cursor(
                            b.replies@,
                            b.cursor as int,
                        ))
                        &&& if spec_calibrate_ok(polled, known_weight_mg as int) {
                            &&& r == 0
                            &&& final(self).scale matches Some(s2) && s2@ == spec_calibrate(
                                polled,
                                known_weight_mg as int,
                            )
                            &&& old(self).store.accept_writes ==> (final(self).store.slot
                                matches Some(bl) && bl@ == crate::calib::spec_encode_calibration(
                                spec_calibrate(polled, known_weight_mg as int).calibration,
                            ))
                            &&& !old(self).store.accept_writes ==> final(self).store == old(self).store
                        } else {
                            &&& r == -1
                            &&& final(self).scale matches Some(s2) && s2@ == polled
                            &&& final(self).store == old(self).store
                        }
                    },
                    _ => r == -1 && final(self).scale == old(self).scale && final(self).store
                        == old(self).store && final(self).bus == old(self).bus,
                }
            }),
    {
        let mut state = match self.scale.take() {
            Some(s) => s,
            None => {
                return -1;
            },
        };
        match self.bus.inner.take() {
            None => {
                self.scale = Some(state);
                -1
            },
            Some(mut b) => {
                let outcome = crate::scale::calibrate(&mut b, &mut state, known_weight_mg);
                self.bus.inner = Some(b);
                let r: i32 = match outcome {
                    Ok(_) => {
                        let _ = self.store.save(&state.calibration);
                        0
                    },
                    Err(_) => -1,
                };
                self.scale = Some(state);
                r
            },
        }
    }

    /// Bring the NFC chip up over the shared bus.  Returns false — with
    /// nothing changed but the chip state the init itself wrote — when the
    /// bus is absent or initialization failed.
    pub fn init_nfc(&mut self, ready: ReadyStrategy, reset_strategy: ResetStrategy) -> (ok: bool)
        requires
            old(self).wf(),
            !old(self).nfc.initialized,
        ensures
            final(self).wf(),
            final(self).scale == old(self).scale,
            final(self).store == old(self).store,
            final(self).last_card == old(self).last_card,
            old(self).bus.inner is None ==> !ok && final(self).nfc == old(self).nfc && final(self).nfc_driver == old(self).nfc_driver,
            ok ==> final(self).nfc.initialized && final(self).nfc_driver is Some,
            !ok ==> !final(self).nfc.initialized,
            ({
                match old(self).bus.inner {
                    Some(b) => {
                        let rs = b.replies@;
                        let fw = spec_eeprom_outcome(
                            rs,
                            b.cursor as int,
                            2,
                            EEPROM_RETRIES as nat,
                        );
                        let kf = spec_eeprom_end_cursor(
                            rs,
                            b.cursor as int,
                            2,
                            EEPROM_RETRIES as nat,
                        );
                        &&& (final(self).bus.inner matches Some(b2) && b2.replies == b.replies
                            && b2.busy == b.busy)
                        &&& match fw {
                            None => !ok && final(self).nfc == old(self).nfc
                                && (final(self).bus.inner matches Some(b2) && b2.cursor == kf),
                            Some(fwb) => {
                                let kp = spec_eeprom_end_cursor(rs, kf, 2, EEPROM_RETRIES as nat);
                                &&& final(self).nfc.firmware_version == spec_fw_version(fwb)
                                &&& (final(self).bus.inner matches Some(b2) && b2.cursor
                                    == spec_next_cursor(rs, kp))
                                &&& match spec_u32_at(rs, kp) {
                                    None => !ok,
                                    Some(_) => ok,
                                }
                            },
                        }
                    },
                    None => true,
                }
            }),
    {
        match self.bus.inner.take() {
            None => false,
            Some(mut b) => {
                let outcome = init_pn5180(&mut b, ready, reset_strategy, &mut self.nfc);
                self.bus.inner = Some(b);
                match outcome {
                    Ok(d) => {
                        self.nfc_driver = Some(d);
                        true
                    },
                    Err(_) => false,
                }
            },
        }
    }

    /// One NFC poll tick, called from the main loop much less often than
    /// the scale poll.  Nothing happens unless the chip is initialized and
    /// the bus is present.  The last card is replaced — never merged — on
    /// every successful activation; a failed or empty activation leaves it.
    pub fn nfc_poll(&mut self)
        requires
            old(self).wf(),
        ensures
            final(self).wf(),
            final(self).scale == old(self).scale,
            final(self).nfc == old(self).nfc,
            final(self).nfc_driver == old(self).nfc_driver,
            final(self).store == old(self).store,
            !old(self).nfc.initialized || old(self).bus.inner is None || old(self).nfc_driver
                is None ==> final(self).last_card == old(self).last_card && final(self).bus == old(self).bus,
            ({
                match (old(self).bus.inner, old(self).nfc_driver) {
                    (Some(b), Some(_)) => old(self).nfc.initialized ==> {
                        &&& (final(self).bus.inner matches Some(b2) && b2.replies == b.replies
                            && b2.cursor == spec_activation_end_cursor(
                            b.replies@,
                            b.cursor as int,
                        ))
                        &&& match spec_activation_outcome(b.replies@, b.cursor as int) {
                            ActivationOutcome::Card(a) => (final(self).last_card matches Some(c)
                                && c.atqa@ == a && c.uid_len == 0),
                            _ => final(self).last_card == old(self).last_card,
                        }
                    },
                    _ => true,
                }
            }),
    {
        if !self.nfc.initialized {
            return ;
        }
        let driver = match &self.nfc_driver {
            Some(d) => *d,
            None => {
                return ;
            },
        };
        match self.bus.inner.take() {
            None => {},
            Some(mut b) => {
                let outcome = driver.iso14443a_activate(&mut b);
                self.bus.inner = Some(b);
                match outcome {
                    Ok(Some(card)) => {
                        self.last_card = Some(card);
                    },
                    _ => {},
                }
            },
        }
    }

    /// Whether a card was seen by any successful activation so far.
    pub fn nfc_tag_present(&self) -> (r: bool)
        ensures
            r == (self.last_card is Some),
    {
        match &self.last_card {
            Some(_) => true,
            None => false,
        }
    }
}

/// Display settings the UI adjusts: the backlight level and the blanking
/// timeout.  The caller pushes an accepted brightness to the backlight
/// hardware; this type owns the values and the clamping rule.
pub struct DisplaySettings {
    /// Backlight brightness in percent, never above 100.
    pub brightness: u8,
    /// Seconds of inactivity before the display blanks.
    pub timeout_seconds: u16,
}

impl DisplaySettings {
    /// The boot defaults: 80 % brightness, five-minute timeout.
    pub fn new() -> (s: DisplaySettings)
        ensures
            s.brightness == 80,
            s.timeout_seconds == 300,
    {
        DisplaySettings { brightness: 80, timeout_seconds: 300 }
    }

    /// Set the brightness, clamped to 100 %.  Returns the accepted value,
    /// which the caller hands to the backlight hardware.
    pub fn display_set_brightness(&mut self, brightness: u8) -> (accepted: u8)
        ensures
            accepted == (if brightness > 100 {
                100u8
            } else {
                brightness
            }),
            final(self).brightness == accepted,
            final(self).timeout_seconds == old(self).timeout_seconds,
    {
        let b: u8 = if brightness > 100 {
            100
        } else {
            brightness
        };
        self.brightness = b;
        b
    }

    /// The current brightness in percent.
    pub fn display_get_brightness(&self) -> (b: u8)
        ensures
            b == self.brightness,
    {
        self.brightness
    }

    /// Set the blanking timeout.
    pub fn display_set_timeout(&mut self, timeout_seconds: u16)
        ensures
            final(self).timeout_seconds == timeout_seconds,
            final(self).brightness == old(self).brightness,
    {
        self.timeout_seconds = timeout_seconds;
    }

    /// The current blanking timeout in seconds.
    pub fn display_get_timeout(&self) -> (t: u16)
        ensures
            t == self.timeout_seconds,
    {
        self.timeout_seconds
    }
}

} // verus!