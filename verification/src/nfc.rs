//! NFC controller driver: command framing, busy/ready detection, register
//! and EEPROM access with retry, RF field control, and the card activation
//! sequence.
//!
//! The chip answers commands over the shared bus and signals readiness on a
//! busy line that may or may not be wired.  Two construction-time strategies
//! make the driver's control flow explicit: ready detection is either
//! signal-based or fixed-delay, and reset is either a hardware pin or a
//! power-on settle with a benign chip-select pulse as a wiring self-test.
//!
//! Marginal wiring produces garbage — all-`0x00` or all-`0xFF` responses —
//! which the EEPROM layer absorbs by retrying and, after the last retry,
//! degrading to a zero-filled answer that callers must treat as "unknown".
//! A transport fault during the one-time firmware-version read is the single
//! fatal initialization condition.

use vstd::prelude::*;
use crate::bus::{
    lemma_cmd_txn_at_preserved, lemma_prefix_chain, lemma_read_txn_at_preserved,
    lemma_writes_are_extend, lemma_writes_start_with_extend, spec_cmd_txn_at, spec_next_cursor,
    spec_no_writes, spec_read_result, spec_read_txn_at, spec_writes_are, spec_writes_start_with,
    BusReply, SimBus,
};

verus! {

// Command bytes of the controller's host interface.
/// Write a 32-bit register.
pub const CMD_WRITE_REGISTER: u8 = 0x00;

/// Read a 32-bit register.
pub const CMD_READ_REGISTER: u8 = 0x04;

/// Read the configuration EEPROM.
pub const CMD_READ_EEPROM: u8 = 0x07;

/// Transmit data over the RF field.
pub const CMD_SEND_DATA: u8 = 0x09;

/// Read received data from the RX buffer.
pub const CMD_READ_DATA: u8 = 0x0A;

/// Load an RF protocol configuration.
pub const CMD_LOAD_RF_CONFIG: u8 = 0x11;

/// Energize the RF field.
pub const CMD_RF_ON: u8 = 0x16;

/// De-energize the RF field.
pub const CMD_RF_OFF: u8 = 0x17;

// Register addresses.
/// Interrupt status register.
pub const REG_IRQ_STATUS: u8 = 0x02;

/// Interrupt clear register.
pub const REG_IRQ_CLEAR: u8 = 0x03;

/// Transmit length/bit-count register.
pub const REG_TX_DATA_NUM: u8 = 0x14;

/// Receive status register.
pub const REG_RX_STATUS: u8 = 0x15;

/// RF field status register.
pub const REG_RF_STATUS: u8 = 0x1D;

// RF configuration selectors.
/// Transmit configuration for the 106 kbps type-A protocol.
pub const RF_CFG_TYPE_A_106_TX: u8 = 0x00;

/// Receive configuration for the 106 kbps type-A protocol.
pub const RF_CFG_TYPE_A_106_RX: u8 = 0x80;

/// EEPROM address of the firmware version.
pub const EEPROM_FIRMWARE_VERSION: u8 = 0x10;

/// EEPROM address of the product version.
pub const EEPROM_PRODUCT_VERSION: u8 = 0x12;

/// How many times the busy signal is sampled before falling back to a fixed
/// settle delay.
pub const BUSY_POLL_TRIES: usize = 10;

/// How many times an EEPROM read is attempted before degrading to a
/// zero-filled answer.
pub const EEPROM_RETRIES: usize = 5;

/// The frame that writes a 32-bit register, little-endian.
pub open spec fn spec_register_write_frame(reg: u8, value: u32) -> Seq<u8> {
    seq![CMD_WRITE_REGISTER, reg] + vstd::bytes::spec_u32_to_le_bytes(value)
}

/// The frame that reads a 32-bit register.
pub open spec fn spec_register_read_frame(reg: u8) -> Seq<u8> {
    seq![CMD_READ_REGISTER, reg]
}

/// The frame that clears every pending interrupt: the all-ones mask into
/// the interrupt-clear register.
pub open spec fn spec_irq_clear_frame() -> Seq<u8> {
    spec_register_write_frame(REG_IRQ_CLEAR, 0xFFFFFFFF)
}

/// The frame that reads `len` bytes of EEPROM at `addr`.
pub open spec fn spec_eeprom_read_frame(addr: u8, len: u8) -> Seq<u8> {
    seq![CMD_READ_EEPROM, addr, len]
}

/// The frame that loads the 106 kbps type-A RF configuration.
pub open spec fn spec_rf_config_frame() -> Seq<u8> {
    seq![CMD_LOAD_RF_CONFIG, RF_CFG_TYPE_A_106_TX, RF_CFG_TYPE_A_106_RX]
}

/// The frame that energizes the RF field.
pub open spec fn spec_rf_on_frame() -> Seq<u8> {
    seq![CMD_RF_ON, 0x00u8]
}

/// The frame that de-energizes the RF field.
pub open spec fn spec_rf_off_frame() -> Seq<u8> {
    seq![CMD_RF_OFF, 0x00u8]
}

/// The transmit configuration for the card wake-up short frame: one byte,
/// seven valid bits, written to the transmit length register.
pub open spec fn spec_tx_short_frame_config() -> Seq<u8> {
    spec_register_write_frame(REG_TX_DATA_NUM, 0x0007_0001)
}

/// The wake-up command transmitted to the field.
pub open spec fn spec_reqa_frame() -> Seq<u8> {
    seq![CMD_SEND_DATA, 0x26u8]
}

/// Key type for MIFARE Crypto-1 authentication.
#[derive(Debug, Clone, Copy)]
pub enum MifareKeyType {
    /// Sector key A.
    KeyA,
    /// Sector key B.
    KeyB,
}

/// Errors of the NFC driver.
#[derive(Debug, Clone, Copy, PartialEq, Eq, Structural)]
pub enum Pn5180Error {
    /// A bus transfer failed.
    SpiError,
    /// A control pin could not be driven.
    GpioError,
    /// The device stayed busy past its deadline.
    Timeout,
    /// No card answered.
    NoCard,
    /// Authentication against a card failed.
    AuthFailed,
    /// A read from the card failed.
    ReadFailed,
    /// A write to the card failed.
    WriteFailed,
    /// A response failed its validity checks.
    InvalidResponse,
}

/// Live state of the NFC chip, kept apart from the bus handles.
#[derive(Debug, Clone, Copy)]
pub struct Pn5180State {
    /// True only after the firmware-version read and the RF configuration
    /// load have both succeeded.
    pub initialized: bool,
    /// Firmware version (major, minor, patch), read once at init.
    pub firmware_version: (u8, u8, u8),
    /// UID of the last detected card, when one was read.
    pub last_uid: Option<[u8; 10]>,
    /// Number of valid bytes in `last_uid`.
    pub last_uid_len: u8,
    /// Whether the RF field is energized.
    pub rf_on: bool,
}

impl Pn5180State {
    /// The state before reset: nothing read, nothing on.
    pub fn new() -> (s: Pn5180State)
        ensures
            !s.initialized,
            s.firmware_version == (0u8, 0u8, 0u8),
            s.last_uid is None,
            s.last_uid_len == 0,
            !s.rf_on,
    {
        Pn5180State {
            initialized: false,
            firmware_version: (0, 0, 0),
            last_uid: None,
            last_uid_len: 0,
            rf_on: false,
        }
    }
}

impl Default for Pn5180State {
    /// Same as [`Pn5180State::new`].
    fn default() -> (s: Pn5180State)
        ensures
            !s.initialized,
            s.firmware_version == (0u8, 0u8, 0u8),
            s.last_uid is None,
            s.last_uid_len == 0,
            !s.rf_on,
    {
        Pn5180State::new()
    }
}

/// An ISO 14443A card as reported by activation.
#[derive(Debug, Clone, PartialEq)]
pub struct Iso14443aCard {
    /// UID storage (4, 7, or 10 bytes are meaningful).
    pub uid: [u8; 10],
    /// Number of valid UID bytes.
    pub uid_len: u8,
    /// Answer-to-request, two bytes.
    pub atqa: [u8; 2],
    /// Select-acknowledge byte.
    pub sak: u8,
}

impl Iso14443aCard {
    /// Whether the select-acknowledge marks an NTAG.
    pub fn is_ntag(&self) -> (r: bool)
        ensures
            r == (self.sak == 0x00),
    {
        self.sak == 0x00
    }

    /// Whether the select-acknowledge marks a MIFARE Classic 1K.
    pub fn is_mifare_classic_1k(&self) -> (r: bool)
        ensures
            r == (self.sak == 0x08),
    {
        self.sak == 0x08
    }

    /// Whether the select-acknowledge marks a MIFARE Classic 4K.
    pub fn is_mifare_classic_4k(&self) -> (r: bool)
        ensures
            r == (self.sak == 0x18),
    {
        self.sak == 0x18
    }
}

/// Placeholder initialization used while no reader hardware is attached:
/// records a zero firmware version and leaves the device uninitialized.
pub fn init_stub(state: &mut Pn5180State) -> (r: Result<(), Pn5180Error>)
    ensures
        r is Ok,
        final(state).firmware_version == (0u8, 0u8, 0u8),
        !final(state).initialized,
        final(state).last_uid == old(state).last_uid,
        final(state).last_uid_len == old(state).last_uid_len,
        final(state).rf_on == old(state).rf_on,
{
    state.firmware_version = (0, 0, 0);
    state.initialized = false;
    Ok(())
}

/// Placeholder tag detection used while no reader hardware is attached:
/// never sees a tag.
pub fn detect_tag_stub(state: &Pn5180State) -> (r: Result<Option<Iso14443aCard>, Pn5180Error>)
    ensures
        r == Ok::<Option<Iso14443aCard>, Pn5180Error>(None),
{
    let _ = state;
    Ok(None)
}

/// Placeholder RF-on used while no reader hardware is attached.
pub fn rf_field_on_stub(state: &mut Pn5180State) -> (r: Result<(), Pn5180Error>)
    ensures
        r is Ok,
        *final(state) == (Pn5180State { rf_on: true, ..*old(state) }),
{
    state.rf_on = true;
    Ok(())
}

/// Placeholder RF-off used while no reader hardware is attached.
pub fn rf_field_off_stub(state: &mut Pn5180State) -> (r: Result<(), Pn5180Error>)
    ensures
        r is Ok,
        *final(state) == (Pn5180State { rf_on: false, ..*old(state) }),
{
    state.rf_on = false;
    Ok(())
}

/// How the driver learns that the chip is ready for the next command.
#[derive(Debug, Clone, Copy, PartialEq, Eq, Structural)]
pub enum ReadyStrategy {
    /// Poll the wired busy signal, with a fixed-delay fallback if it never
    /// clears in time.
    BusySignal,
    /// No busy wiring: always wait a fixed settle delay.
    FixedDelay,
}

/// How the chip is reset at initialization.
#[derive(Debug, Clone, Copy, PartialEq, Eq, Structural)]
pub enum ResetStrategy {
    /// Pulse the wired reset pin.
    HardwarePin,
    /// No reset wiring: rely on the power-on reset, with a chip-select
    /// pulse as a wiring self-test.
    PowerOnSettle,
}

/// The NFC driver: the two capability strategies chosen at construction.
/// All bus traffic goes through the shared bus passed to each operation.
#[derive(Debug, Clone, Copy)]
pub struct Pn5180Driver {
    /// Ready-detection strategy.
    pub ready: ReadyStrategy,
    /// Reset strategy.
    pub reset_strategy: ResetStrategy,
}

/// The busy cursor after up to `tries` polls of the busy signal starting
/// at position `k`: polling stops at the first ready (low) sample, which
/// is consumed, and an exhausted script — a stuck or unwired pin — is
/// never consumed at all.
pub open spec fn spec_busy_polled(busy: Seq<bool>, k: int, tries: nat) -> int
    decreases tries,
{
    if tries == 0 {
        k
    } else if k >= busy.len() {
        k
    } else if !busy[k] {
        k + 1
    } else {
        spec_busy_polled(busy, k + 1, (tries - 1) as nat)
    }
}

impl Pn5180Driver {
    /// Wait until the chip is ready for the next command.  With busy wiring
    /// the signal is sampled a bounded number of times; if it never clears —
    /// or no wiring exists — the driver degrades to a fixed settle delay
    /// rather than failing.  Touches nothing but the busy script.
    pub fn wait_ready(&self, bus: &mut SimBus)
        requires
            old(bus).wf(),
        ensures
            final(bus).wf(),
            final(bus).log == old(bus).log,
            final(bus).replies == old(bus).replies,
            final(bus).cursor == old(bus).cursor,
            final(bus).busy == old(bus).busy,
            self.ready is FixedDelay ==> final(bus).busy_cursor == old(bus).busy_cursor,
            self.ready is BusySignal ==> final(bus).busy_cursor == spec_busy_polled(
                old(bus).busy@,
                old(bus).busy_cursor as int,
                BUSY_POLL_TRIES as nat,
            ),
    {
        match self.ready {
            ReadyStrategy::FixedDelay => {},
            ReadyStrategy::BusySignal => {
                let mut tries: usize = 0;
                while tries < BUSY_POLL_TRIES
                    invariant
                        self.ready is BusySignal,
                        bus.wf(),
                        tries <= BUSY_POLL_TRIES,
                        bus.log == old(bus).log,
                        bus.replies == old(bus).replies,
                        bus.cursor == old(bus).cursor,
                        bus.busy == old(bus).busy,
                        spec_busy_polled(
                            old(bus).busy@,
                            old(bus).busy_cursor as int,
                            BUSY_POLL_TRIES as nat,
                        ) == spec_busy_polled(
                            bus.busy@,
                            bus.busy_cursor as int,
                            (BUSY_POLL_TRIES - tries) as nat,
                        ),
                    decreases BUSY_POLL_TRIES - tries,
                {
                    let busy_now = bus.sample_busy();
                    tries = tries + 1;
                    if !busy_now {
                        return ;
                    }
                }
            },
        }
    }

    /// Select the device, write one command frame, deselect.  The appended
    /// traffic is exactly one write transaction carrying `cmd`.
    pub fn send_command(&self, bus: &mut SimBus, cmd: &Vec<u8>)
        requires
            old(bus).wf(),
        ensures
            final(bus).wf(),
            final(bus).log@.len() == old(bus).log@.len() + 3,
            final(bus).log@.take(old(bus).log@.len() as int) == old(bus).log@,
            spec_cmd_txn_at(final(bus).log@, old(bus).log@.len() as int, cmd@),
            spec_writes_are(final(bus).log@, old(bus).log@.len() as int, cmd@),
            cmd@.len() > 0 ==> spec_writes_start_with(
                final(bus).log@,
                old(bus).log@.len() as int,
                cmd@[0],
            ),
            final(bus).replies == old(bus).replies,
            final(bus).cursor == old(bus).cursor,
            final(bus).busy == old(bus).busy,
    {
        self.wait_ready(bus);
        bus.txn_write(cmd);
    }

    /// Send one command frame, give the chip its processing time, then clock
    /// out `len` response bytes in a second select cycle.  Two independent
    /// transactions, as chips that need internal processing time between
    /// request and response demand.  Returns `None` on a transport fault.
    pub fn send_command_read(&self, bus: &mut SimBus, cmd: &Vec<u8>, len: usize) -> (r: Option<
        Vec<u8>,
    >)
        requires
            old(bus).wf(),
        ensures
            final(bus).wf(),
            final(bus).log@.len() == old(bus).log@.len() + 6,
            final(bus).log@.take(old(bus).log@.len() as int) == old(bus).log@,
            spec_cmd_txn_at(final(bus).log@, old(bus).log@.len() as int, cmd@),
            spec_read_txn_at(final(bus).log@, old(bus).log@.len() as int + 3, len as nat),
            spec_writes_are(final(bus).log@, old(bus).log@.len() as int, cmd@),
            cmd@.len() > 0 ==> spec_writes_start_with(
                final(bus).log@,
                old(bus).log@.len() as int,
                cmd@[0],
            ),
            match r {
                Some(v) => spec_read_result(old(bus).replies@, old(bus).cursor as int, len as nat)
                    == Some(v@) && v@.len() == len,
                None => spec_read_result(old(bus).replies@, old(bus).cursor as int, len as nat)
                    is None,
            },
            final(bus).cursor == spec_next_cursor(old(bus).replies@, old(bus).cursor as int),
            final(bus).replies == old(bus).replies,
            final(bus).busy == old(bus).busy,
    {
        self.wait_ready(bus);
        bus.txn_write(cmd);
        let ghost mid_log = bus.log@;
        let r = bus.txn_read(len);
        proof {
            assert(bus.log@.take(old(bus).log@.len() as int) =~= old(bus).log@);
            lemma_cmd_txn_at_preserved(mid_log, bus.log@, old(bus).log@.len() as int, cmd@);
        }
        r
    }

    /// Reset the chip.  With a wired reset pin the pulse happens off the
    /// bus; without one the driver waits out the power-on settle and pulses
    /// chip select three times as a wiring self-test.  Consumes no replies
    /// and writes nothing.
    pub fn reset(&self, bus: &mut SimBus)
        requires
            old(bus).wf(),
        ensures
            final(bus).wf(),
            final(bus).log@.len() >= old(bus).log@.len(),
            final(bus).log@.take(old(bus).log@.len() as int) == old(bus).log@,
            spec_no_writes(final(bus).log@, old(bus).log@.len() as int),
            self.reset_strategy is HardwarePin ==> final(bus).log == old(bus).log,
            self.reset_strategy is PowerOnSettle ==> final(bus).log@.len() == old(
                bus,
            ).log@.len() + 6,
            final(bus).replies == old(bus).replies,
            final(bus).cursor == old(bus).cursor,
            final(bus).busy == old(bus).busy,
    {
        match self.reset_strategy {
            ResetStrategy::HardwarePin => {
                self.wait_ready(bus);
            },
            ResetStrategy::PowerOnSettle => {
                let ghost l0 = bus.log@;
                bus.txn_pulse();
                bus.txn_pulse();
                bus.txn_pulse();
                proof {
                    assert(bus.log@.take(l0.len() as int) =~= l0);
                }
                self.wait_ready(bus);
            },
        }
    }
}

/// A response is plausible only when it is neither all-`0x00` nor
/// all-`0xFF` — both patterns arise from marginal wiring, not from the
/// chip.
pub open spec fn spec_response_valid(b: Seq<u8>) -> bool {
    &&& exists|i: int| 0 <= i < b.len() && b[i] != 0x00
    &&& exists|i: int| 0 <= i < b.len() && b[i] != 0xFF
}

/// The all-zero byte sequence an exhausted EEPROM retry degrades to.
pub open spec fn spec_fill_zero(len: nat) -> Seq<u8> {
    Seq::new(len, |i: int| 0x00u8)
}

/// What an EEPROM read returns when its first unconsumed reply stands at
/// position `k` and `tries` attempts remain: the first plausible response;
/// a zero-filled buffer once the attempts are exhausted; `None` on a
/// transport fault.
pub open spec fn spec_eeprom_outcome(replies: Seq<BusReply>, k: int, len: nat, tries: nat) -> Option<
    Seq<u8>,
>
    decreases tries,
{
    if tries == 0 {
        Some(spec_fill_zero(len))
    } else {
        match spec_read_result(replies, k, len) {
            None => None,
            Some(b) => if spec_response_valid(b) {
                Some(b)
            } else {
                spec_eeprom_outcome(replies, spec_next_cursor(replies, k), len, (tries - 1) as nat)
            },
        }
    }
}

/// Where the reply cursor stands after an EEPROM read that started at
/// position `k` with `tries` attempts remaining.
pub open spec fn spec_eeprom_end_cursor(replies: Seq<BusReply>, k: int, len: nat, tries: nat) -> int
    decreases tries,
{
    if tries == 0 {
        k
    } else {
        match spec_read_result(replies, k, len) {
            None => spec_next_cursor(replies, k),
            Some(b) => if spec_response_valid(b) {
                spec_next_cursor(replies, k)
            } else {
                spec_eeprom_end_cursor(
                    replies,
                    spec_next_cursor(replies, k),
                    len,
                    (tries - 1) as nat,
                )
            },
        }
    }
}

/// Judge a response's plausibility: neither all-`0x00` nor all-`0xFF`.
pub fn response_valid(b: &Vec<u8>) -> (r: bool)
    ensures
        r == spec_response_valid(b@),
{
    let mut any_nonzero: bool = false;
    let mut any_nonff: bool = false;
    let mut i: usize = 0;
    while i < b.len()
        invariant
            i <= b.len(),
            any_nonzero == exists|j: int| 0 <= j < i && b@[j] != 0x00,
            any_nonff == exists|j: int| 0 <= j < i && b@[j] != 0xFF,
        decreases b.len() - i,
    {
        if b[i] != 0x00 {
            any_nonzero = true;
        }
        if b[i] != 0xFF {
            any_nonff = true;
        }
        i = i + 1;
    }
    any_nonzero && any_nonff
}

/// An all-zero vector of the given length.
fn fill_zero(len: usize) -> (r: Vec<u8>)
    ensures
        r@ == spec_fill_zero(len as nat),
{
    let mut r: Vec<u8> = Vec::new();
    let mut i: usize = 0;
    while i < len
        invariant
            i <= len,
            r@ == spec_fill_zero(i as nat),
        decreases len - i,
    {
        r.push(0x00);
        proof {
            assert(r@ =~= spec_fill_zero((i + 1) as nat));
        }
        i = i + 1;
    }
    r
}

impl Pn5180Driver {
    /// Read `len` bytes of the chip's configuration EEPROM at `addr`.
    ///
    /// Marginal wiring returns all-`0x00` or all-`0xFF` garbage, so the read
    /// is retried a bounded number of times and the first plausible response
    /// is accepted.  When every attempt came back implausible the read
    /// degrades to a zero-filled buffer — callers must treat an all-zero
    /// answer as "unknown", never as ground truth.  Only a transport fault
    /// is an error.
    pub fn read_eeprom(&self, bus: &mut SimBus, addr: u8, len: u8) -> (r: Result<
        Vec<u8>,
        Pn5180Error,
    >)
        requires
            old(bus).wf(),
        ensures
            final(bus).wf(),
            final(bus).log@.len() >= old(bus).log@.len(),
            final(bus).log@.take(old(bus).log@.len() as int) == old(bus).log@,
            spec_writes_are(
                final(bus).log@,
                old(bus).log@.len() as int,
                spec_eeprom_read_frame(addr, len),
            ),
            spec_writes_start_with(final(bus).log@, old(bus).log@.len() as int, CMD_READ_EEPROM),
            final(bus).replies == old(bus).replies,
            final(bus).busy == old(bus).busy,
            final(bus).cursor == spec_eeprom_end_cursor(
                old(bus).replies@,
                old(bus).cursor as int,
                len as nat,
                EEPROM_RETRIES as nat,
            ),
            match r {
                Ok(v) => spec_eeprom_outcome(
                    old(bus).replies@,
                    old(bus).cursor as int,
                    len as nat,
                    EEPROM_RETRIES as nat,
                ) == Some(v@) && v@.len() == len,
                Err(e) => spec_eeprom_outcome(
                    old(bus).replies@,
                    old(bus).cursor as int,
                    len as nat,
                    EEPROM_RETRIES as nat,
                ) is None && e == Pn5180Error::SpiError,
            },
    {
        let mut cmd: Vec<u8> = Vec::new();
        cmd.push(CMD_READ_EEPROM);
        cmd.push(addr);
        cmd.push(len);
        proof {
            assert(cmd@ =~= spec_eeprom_read_frame(addr, len));
        }
        let mut attempt: usize = 0;
        while attempt < EEPROM_RETRIES
            invariant
                bus.wf(),
                attempt <= EEPROM_RETRIES,
                cmd@.len() == 3,
                cmd@[0] == CMD_READ_EEPROM,
                cmd@ == spec_eeprom_read_frame(addr, len),
                bus.log@.len() >= old(bus).log@.len(),
                bus.log@.take(old(bus).log@.len() as int) == old(bus).log@,
                spec_writes_are(
                    bus.log@,
                    old(bus).log@.len() as int,
                    spec_eeprom_read_frame(addr, len),
                ),
                spec_writes_start_with(bus.log@, old(bus).log@.len() as int, CMD_READ_EEPROM),
                bus.replies == old(bus).replies,
                bus.busy == old(bus).busy,
                spec_eeprom_outcome(
                    old(bus).replies@,
                    old(bus).cursor as int,
                    len as nat,
                    EEPROM_RETRIES as nat,
                ) == spec_eeprom_outcome(
                    old(bus).replies@,
                    bus.cursor as int,
                    len as nat,
                    (EEPROM_RETRIES - attempt) as nat,
                ),
                spec_eeprom_end_cursor(
                    old(bus).replies@,
                    old(bus).cursor as int,
                    len as nat,
                    EEPROM_RETRIES as nat,
                ) == spec_eeprom_end_cursor(
                    old(bus).replies@,
                    bus.cursor as int,
                    len as nat,
                    (EEPROM_RETRIES - attempt) as nat,
                ),
            decreases EEPROM_RETRIES - attempt,
        {
            let ghost pre = *bus;
            let resp = self.send_command_read(bus, &cmd, len as usize);
            proof {
                lemma_prefix_chain(old(bus).log@, pre.log@, bus.log@);
                lemma_writes_are_extend(
                    pre.log@,
                    bus.log@,
                    old(bus).log@.len() as int,
                    spec_eeprom_read_frame(addr, len),
                );
                lemma_writes_start_with_extend(
                    pre.log@,
                    bus.log@,
                    old(bus).log@.len() as int,
                    CMD_READ_EEPROM,
                );
            }
            match resp {
                None => {
                    return Err(Pn5180Error::SpiError);
                },
                Some(v) => {
                    if response_valid(&v) {
                        return Ok(v);
                    }
                },
            }
            attempt = attempt + 1;
        }
        Ok(fill_zero(len as usize))
    }
}

/// The 32-bit value a register read at reply position `k` yields, when it
/// does not fault.
pub open spec fn spec_u32_at(replies: Seq<BusReply>, k: int) -> Option<u32> {
    match spec_read_result(replies, k, 4) {
        None => None,
        Some(b) => Some(vstd::bytes::spec_u32_from_le_bytes(b)),
    }
}

/// The firmware version carried by the two-byte EEPROM record: major in the
/// high nibble of the second byte, minor in its low nibble, patch in the
/// first byte.
pub open spec fn spec_fw_version(b: Seq<u8>) -> (u8, u8, u8)
    recommends
        b.len() >= 2,
{
    ((b[1] >> 4) as u8, (b[1] & 0x0F) as u8, b[0])
}

/// The product version carried by the two-byte EEPROM record.
pub open spec fn spec_product_version(b: Seq<u8>) -> (u8, u8)
    recommends
        b.len() >= 2,
{
    (b[1], b[0])
}

/// A write event that loads an RF configuration.
pub open spec fn spec_is_rf_config_write(e: crate::bus::BusEvent) -> bool {
    e matches crate::bus::BusEvent::Write(c) && c@.len() > 0 && c@[0] == CMD_LOAD_RF_CONFIG
}

/// No RF-configuration load stands in the log from position `from` onward.
pub open spec fn spec_no_rf_config_write(log: Seq<crate::bus::BusEvent>, from: int) -> bool {
    forall|i: int| from <= i < log.len() ==> !spec_is_rf_config_write(#[trigger] log[i])
}

/// Some RF-configuration load stands in the log from position `from`
/// onward.
pub open spec fn spec_has_rf_config_write(log: Seq<crate::bus::BusEvent>, from: int) -> bool {
    exists|i: int| from <= i < log.len() && spec_is_rf_config_write(#[trigger] log[i])
}

impl Pn5180Driver {
    /// Read a 32-bit register, little-endian, in one command/response
    /// exchange — registers echo reliably, so there is no retry here.
    pub fn read_register(&self, bus: &mut SimBus, reg: u8) -> (r: Result<u32, Pn5180Error>)
        requires
            old(bus).wf(),
        ensures
            final(bus).wf(),
            final(bus).log@.len() == old(bus).log@.len() + 6,
            final(bus).log@.take(old(bus).log@.len() as int) == old(bus).log@,
            spec_cmd_txn_at(
                final(bus).log@,
                old(bus).log@.len() as int,
                spec_register_read_frame(reg),
            ),
            spec_read_txn_at(final(bus).log@, old(bus).log@.len() as int + 3, 4),
            spec_writes_start_with(final(bus).log@, old(bus).log@.len() as int, CMD_READ_REGISTER),
            final(bus).replies == old(bus).replies,
            final(bus).busy == old(bus).busy,
            final(bus).cursor == spec_next_cursor(old(bus).replies@, old(bus).cursor as int),
            match r {
                Ok(v) => spec_u32_at(old(bus).replies@, old(bus).cursor as int) == Some(v),
                Err(e) => spec_u32_at(old(bus).replies@, old(bus).cursor as int) is None && e
                    == Pn5180Error::SpiError,
            },
    {
        let mut cmd: Vec<u8> = Vec::new();
        cmd.push(CMD_READ_REGISTER);
        cmd.push(reg);
        proof {
            assert(cmd@ =~= spec_register_read_frame(reg));
        }
        match self.send_command_read(bus, &cmd, 4) {
            None => Err(Pn5180Error::SpiError),
            Some(v) => Ok(vstd::bytes::u32_from_le_bytes(v.as_slice())),
        }
    }

    /// Write a 32-bit register, little-endian.  The appended traffic is one
    /// write transaction carrying the register frame.
    pub fn write_register(&self, bus: &mut SimBus, reg: u8, value: u32) -> (r: Result<
        (),
        Pn5180Error,
    >)
        requires
            old(bus).wf(),
        ensures
            final(bus).wf(),
            r is Ok,
            final(bus).log@.len() == old(bus).log@.len() + 3,
            final(bus).log@.take(old(bus).log@.len() as int) == old(bus).log@,
            spec_cmd_txn_at(
                final(bus).log@,
                old(bus).log@.len() as int,
                spec_register_write_frame(reg, value),
            ),
            spec_writes_start_with(final(bus).log@, old(bus).log@.len() as int, CMD_WRITE_REGISTER),
            final(bus).replies == old(bus).replies,
            final(bus).cursor == old(bus).cursor,
            final(bus).busy == old(bus).busy,
    {
        let mut cmd: Vec<u8> = Vec::new();
        cmd.push(CMD_WRITE_REGISTER);
        cmd.push(reg);
        let mut tail = vstd::bytes::u32_to_le_bytes(value);
        cmd.append(&mut tail);
        proof {
            assert(cmd@ =~= spec_register_write_frame(reg, value));
            vstd::bytes::lemma_auto_spec_u32_to_from_le_bytes();
        }
        self.send_command(bus, &cmd);
        Ok(())
    }

    /// Clear every pending interrupt by writing the all-ones mask to the
    /// interrupt-clear register.
    pub fn clear_irq(&self, bus: &mut SimBus) -> (r: Result<(), Pn5180Error>)
        requires
            old(bus).wf(),
        ensures
            final(bus).wf(),
            r is Ok,
            final(bus).log@.len() == old(bus).log@.len() + 3,
            final(bus).log@.take(old(bus).log@.len() as int) == old(bus).log@,
            spec_cmd_txn_at(final(bus).log@, old(bus).log@.len() as int, spec_irq_clear_frame()),
            spec_writes_start_with(final(bus).log@, old(bus).log@.len() as int, CMD_WRITE_REGISTER),
            final(bus).replies == old(bus).replies,
            final(bus).cursor == old(bus).cursor,
            final(bus).busy == old(bus).busy,
    {
        self.write_register(bus, REG_IRQ_CLEAR, 0xFFFFFFFF)
    }

    /// Read the firmware version from its EEPROM record.  The answer goes
    /// through the retry-and-degrade EEPROM path; only a transport fault is
    /// an error, and that fault is what initialization treats as fatal.
    pub fn get_firmware_version(&self, bus: &mut SimBus) -> (r: Result<(u8, u8, u8), Pn5180Error>)
        requires
            old(bus).wf(),
        ensures
            final(bus).wf(),
            final(bus).log@.len() >= old(bus).log@.len(),
            final(bus).log@.take(old(bus).log@.len() as int) == old(bus).log@,
            spec_writes_are(
                final(bus).log@,
                old(bus).log@.len() as int,
                spec_eeprom_read_frame(EEPROM_FIRMWARE_VERSION, 2),
            ),
            spec_writes_start_with(final(bus).log@, old(bus).log@.len() as int, CMD_READ_EEPROM),
            final(bus).replies == old(bus).replies,
            final(bus).busy == old(bus).busy,
            final(bus).cursor == spec_eeprom_end_cursor(
                old(bus).replies@,
                old(bus).cursor as int,
                2,
                EEPROM_RETRIES as nat,
            ),
            match r {
                Ok(v) => (spec_eeprom_outcome(
                    old(bus).replies@,
                    old(bus).cursor as int,
                    2,
                    EEPROM_RETRIES as nat,
                ) matches Some(b) && v == spec_fw_version(b)),
                Err(e) => spec_eeprom_outcome(
                    old(bus).replies@,
                    old(bus).cursor as int,
                    2,
                    EEPROM_RETRIES as nat,
                ) is None && e == Pn5180Error::SpiError,
            },
    {
        match self.read_eeprom(bus, EEPROM_FIRMWARE_VERSION, 2) {
            Err(e) => Err(e),
            Ok(d) => {
                let major = d[1] >> 4;
                let minor = d[1] & 0x0F;
                let patch = d[0];
                Ok((major, minor, patch))
            },
        }
    }

    /// Read the product version from its EEPROM record.  Same path as the
    /// firmware version, but callers treat a fault as informational only.
    pub fn get_product_version(&self, bus: &mut SimBus) -> (r: Result<(u8, u8), Pn5180Error>)
        requires
            old(bus).wf(),
        ensures
            final(bus).wf(),
            final(bus).log@.len() >= old(bus).log@.len(),
            final(bus).log@.take(old(bus).log@.len() as int) == old(bus).log@,
            spec_writes_are(
                final(bus).log@,
                old(bus).log@.len() as int,
                spec_eeprom_read_frame(EEPROM_PRODUCT_VERSION, 2),
            ),
            spec_writes_start_with(final(bus).log@, old(bus).log@.len() as int, CMD_READ_EEPROM),
            final(bus).replies == old(bus).replies,
            final(bus).busy == old(bus).busy,
            final(bus).cursor == spec_eeprom_end_cursor(
                old(bus).replies@,
                old(bus).cursor as int,
                2,
                EEPROM_RETRIES as nat,
            ),
            match r {
                Ok(v) => (spec_eeprom_outcome(
                    old(bus).replies@,
                    old(bus).cursor as int,
                    2,
                    EEPROM_RETRIES as nat,
                ) matches Some(b) && v == spec_product_version(b)),
                Err(e) => spec_eeprom_outcome(
                    old(bus).replies@,
                    old(bus).cursor as int,
                    2,
                    EEPROM_RETRIES as nat,
                ) is None && e == Pn5180Error::SpiError,
            },
    {
        match self.read_eeprom(bus, EEPROM_PRODUCT_VERSION, 2) {
            Err(e) => Err(e),
            Ok(d) => Ok((d[1], d[0])),
        }
    }
}

/// A two-byte answer-to-request is plausible unless it is one of the two
/// wiring-garbage sentinels.
pub open spec fn spec_atqa_plausible(a: Seq<u8>) -> bool {
    &&& a.len() == 2
    &&& !(a[0] == 0x00 && a[1] == 0x00)
    &&& !(a[0] == 0xFF && a[1] == 0xFF)
}

impl Pn5180Driver {
    /// Load the 106 kbps type-A RF configuration, in order: clear pending
    /// interrupts, issue the load command for the 106 kbps transmit and
    /// receive settings, then read back the RF status register.  Only a
    /// transport fault on that read is an error.
    pub fn load_rf_config_14443a(&self, bus: &mut SimBus) -> (r: Result<(), Pn5180Error>)
        requires
            old(bus).wf(),
        ensures
            final(bus).wf(),
            final(bus).log@.len() == old(bus).log@.len() + 12,
            final(bus).log@.take(old(bus).log@.len() as int) == old(bus).log@,
            spec_cmd_txn_at(final(bus).log@, old(bus).log@.len() as int, spec_irq_clear_frame()),
            spec_cmd_txn_at(
                final(bus).log@,
                old(bus).log@.len() as int + 3,
                spec_rf_config_frame(),
            ),
            spec_cmd_txn_at(
                final(bus).log@,
                old(bus).log@.len() as int + 6,
                spec_register_read_frame(REG_RF_STATUS),
            ),
            spec_read_txn_at(final(bus).log@, old(bus).log@.len() as int + 9, 4),
            final(bus).replies == old(bus).replies,
            final(bus).busy == old(bus).busy,
            final(bus).cursor == spec_next_cursor(old(bus).replies@, old(bus).cursor as int),
            spec_has_rf_config_write(final(bus).log@, old(bus).log@.len() as int),
            match r {
                Ok(_) => spec_u32_at(old(bus).replies@, old(bus).cursor as int) is Some,
                Err(e) => spec_u32_at(old(bus).replies@, old(bus).cursor as int) is None && e
                    == Pn5180Error::SpiError,
            },
    {
        let ghost l0 = old(bus).log@;
        let _ = self.clear_irq(bus);
        let ghost l1 = bus.log@;
        let mut cmd: Vec<u8> = Vec::new();
        cmd.push(CMD_LOAD_RF_CONFIG);
        cmd.push(RF_CFG_TYPE_A_106_TX);
        cmd.push(RF_CFG_TYPE_A_106_RX);
        proof {
            assert(cmd@ =~= spec_rf_config_frame());
        }
        self.send_command(bus, &cmd);
        let ghost l2 = bus.log@;
        let ghost rf_idx = l1.len() as int + 1;
        proof {
            lemma_prefix_chain(l0, l1, l2);
            lemma_cmd_txn_at_preserved(l1, l2, l0.len() as int, spec_irq_clear_frame());
            assert(spec_is_rf_config_write(l2[rf_idx]));
        }
        let r = self.read_register(bus, REG_RF_STATUS);
        proof {
            lemma_prefix_chain(l0, l2, bus.log@);
            lemma_cmd_txn_at_preserved(l2, bus.log@, l0.len() as int, spec_irq_clear_frame());
            lemma_cmd_txn_at_preserved(l2, bus.log@, l0.len() as int + 3, spec_rf_config_frame());
            assert(bus.log@.take(l2.len() as int)[rf_idx] == bus.log@[rf_idx]);
            assert(spec_is_rf_config_write(bus.log@[rf_idx]));
        }
        match r {
            Err(e) => Err(e),
            Ok(_) => Ok(()),
        }
    }

    /// Energize the RF field, in order: clear interrupts, issue the
    /// field-on command, then read the RF and interrupt status registers.
    /// The command itself carries no acknowledgement — a caller that needs
    /// certainty must check the field-on bit of the RF status register
    /// afterwards, which stands in the first status reply this operation
    /// consumes.
    pub fn rf_on(&self, bus: &mut SimBus) -> (r: Result<(), Pn5180Error>)
        requires
            old(bus).wf(),
        ensures
            final(bus).wf(),
            final(bus).log@.len() >= old(bus).log@.len(),
            final(bus).log@.take(old(bus).log@.len() as int) == old(bus).log@,
            spec_cmd_txn_at(final(bus).log@, old(bus).log@.len() as int, spec_irq_clear_frame()),
            spec_cmd_txn_at(final(bus).log@, old(bus).log@.len() as int + 3, spec_rf_on_frame()),
            spec_cmd_txn_at(
                final(bus).log@,
                old(bus).log@.len() as int + 6,
                spec_register_read_frame(REG_RF_STATUS),
            ),
            spec_read_txn_at(final(bus).log@, old(bus).log@.len() as int + 9, 4),
            final(bus).replies == old(bus).replies,
            final(bus).busy == old(bus).busy,
            ({
                let rs = old(bus).replies@;
                let k0 = old(bus).cursor as int;
                let k1 = spec_next_cursor(rs, k0);
                let l0 = old(bus).log@.len() as int;
                match spec_u32_at(rs, k0) {
                    None => r == Err::<(), Pn5180Error>(Pn5180Error::SpiError) && final(bus).cursor
                        == k1 && final(bus).log@.len() == l0 + 12,
                    Some(_) => {
                        &&& spec_cmd_txn_at(
                            final(bus).log@,
                            l0 + 12,
                            spec_register_read_frame(REG_IRQ_STATUS),
                        )
                        &&& spec_read_txn_at(final(bus).log@, l0 + 15, 4)
                        &&& final(bus).log@.len() == l0 + 18
                        &&& match spec_u32_at(rs, k1) {
                            None => r == Err::<(), Pn5180Error>(Pn5180Error::SpiError)
                                && final(bus).cursor == spec_next_cursor(rs, k1),
                            Some(_) => r is Ok && final(bus).cursor == spec_next_cursor(rs, k1),
                        }
                    },
                }
            }),
    {
        let ghost l0 = old(bus).log@;
        let _ = self.clear_irq(bus);
        let ghost l1 = bus.log@;
        let mut cmd: Vec<u8> = Vec::new();
        cmd.push(CMD_RF_ON);
        cmd.push(0x00);
        proof {
            assert(cmd@ =~= spec_rf_on_frame());
        }
        self.send_command(bus, &cmd);
        proof {
            lemma_prefix_chain(l0, l1, bus.log@);
            lemma_cmd_txn_at_preserved(l1, bus.log@, l0.len() as int, spec_irq_clear_frame());
        }
        let ghost l2 = bus.log@;
        match self.read_register(bus, REG_RF_STATUS) {
            Err(e) => {
                proof {
                    lemma_prefix_chain(l0, l2, bus.log@);
                    lemma_cmd_txn_at_preserved(
                        l2,
                        bus.log@,
                        l0.len() as int,
                        spec_irq_clear_frame(),
                    );
                    lemma_cmd_txn_at_preserved(
                        l2,
                        bus.log@,
                        l0.len() as int + 3,
                        spec_rf_on_frame(),
                    );
                }
                return Err(e);
            },
            Ok(_) => {},
        }
        proof {
            lemma_prefix_chain(l0, l2, bus.log@);
            lemma_cmd_txn_at_preserved(l2, bus.log@, l0.len() as int, spec_irq_clear_frame());
            lemma_cmd_txn_at_preserved(l2, bus.log@, l0.len() as int + 3, spec_rf_on_frame());
        }
        let ghost l3 = bus.log@;
        match self.read_register(bus, REG_IRQ_STATUS) {
            Err(e) => {
                proof {
                    lemma_prefix_chain(l0, l3, bus.log@);
                    lemma_cmd_txn_at_preserved(
                        l3,
                        bus.log@,
                        l0.len() as int,
                        spec_irq_clear_frame(),
                    );
                    lemma_cmd_txn_at_preserved(
                        l3,
                        bus.log@,
                        l0.len() as int + 3,
                        spec_rf_on_frame(),
                    );
                    lemma_cmd_txn_at_preserved(
                        l3,
                        bus.log@,
                        l0.len() as int + 6,
                        spec_register_read_frame(REG_RF_STATUS),
                    );
                    lemma_read_txn_at_preserved(l3, bus.log@, l0.len() as int + 9, 4);
                }
                return Err(e);
            },
            Ok(_) => {},
        }
        proof {
            lemma_prefix_chain(l0, l3, bus.log@);
            lemma_cmd_txn_at_preserved(l3, bus.log@, l0.len() as int, spec_irq_clear_frame());
            lemma_cmd_txn_at_preserved(l3, bus.log@, l0.len() as int + 3, spec_rf_on_frame());
            lemma_cmd_txn_at_preserved(
                l3,
                bus.log@,
                l0.len() as int + 6,
                spec_register_read_frame(REG_RF_STATUS),
            );
            lemma_read_txn_at_preserved(l3, bus.log@, l0.len() as int + 9, 4);
        }
        Ok(())
    }

    /// De-energize the RF field: one command, no acknowledgement.
    pub fn rf_off(&self, bus: &mut SimBus) -> (r: Result<(), Pn5180Error>)
        requires
            old(bus).wf(),
        ensures
            final(bus).wf(),
            r is Ok,
            final(bus).log@.len() == old(bus).log@.len() + 3,
            final(bus).log@.take(old(bus).log@.len() as int) == old(bus).log@,
            spec_cmd_txn_at(final(bus).log@, old(bus).log@.len() as int, spec_rf_off_frame()),
            spec_writes_start_with(final(bus).log@, old(bus).log@.len() as int, CMD_RF_OFF),
            final(bus).replies == old(bus).replies,
            final(bus).cursor == old(bus).cursor,
            final(bus).busy == old(bus).busy,
    {
        let mut cmd: Vec<u8> = Vec::new();
        cmd.push(CMD_RF_OFF);
        cmd.push(0x00);
        proof {
            assert(cmd@ =~= spec_rf_off_frame());
        }
        self.send_command(bus, &cmd);
        Ok(())
    }
}

/// What one activation attempt yields, judged from the scripted replies
/// alone.
pub enum ActivationOutcome {
    /// A transport fault at some step of the sequence.
    Fault,
    /// No card to report: the receive status carried the bus-error
    /// sentinel, an implausible byte count, or fewer than two bytes, or
    /// the answer-to-request was a garbage sentinel.
    NoCard,
    /// A plausible two-byte answer-to-request.
    Card(Seq<u8>),
}

/// The outcome of an activation whose first unconsumed reply stands at
/// `k0`: the sequence reads the RF status, the interrupt status, and the
/// receive status, and — only when the receive status is plausible — the
/// two answer bytes.
pub open spec fn spec_activation_outcome(rs: Seq<BusReply>, k0: int) -> ActivationOutcome {
    let k1 = spec_next_cursor(rs, k0);
    let k2 = spec_next_cursor(rs, k1);
    let k3 = spec_next_cursor(rs, k2);
    match spec_u32_at(rs, k0) {
        None => ActivationOutcome::Fault,
        Some(_) => match spec_u32_at(rs, k1) {
            None => ActivationOutcome::Fault,
            Some(_) => match spec_u32_at(rs, k2) {
                None => ActivationOutcome::Fault,
                Some(rx) => if rx == 0xFFFFFFFF || (rx & 0x1FF) > 64 || (rx & 0x1FF) < 2 {
                    ActivationOutcome::NoCard
                } else {
                    match spec_read_result(rs, k3, 2) {
                        None => ActivationOutcome::Fault,
                        Some(a) => if !spec_atqa_plausible(a) {
                            ActivationOutcome::NoCard
                        } else {
                            ActivationOutcome::Card(a)
                        },
                    }
                },
            },
        },
    }
}

/// Where the reply cursor stands after an activation that started at `k0`.
pub open spec fn spec_activation_end_cursor(rs: Seq<BusReply>, k0: int) -> int {
    let k1 = spec_next_cursor(rs, k0);
    let k2 = spec_next_cursor(rs, k1);
    let k3 = spec_next_cursor(rs, k2);
    match spec_u32_at(rs, k0) {
        None => k1,
        Some(_) => match spec_u32_at(rs, k1) {
            None => k2,
            Some(_) => match spec_u32_at(rs, k2) {
                None => k3,
                Some(rx) => if rx == 0xFFFFFFFF || (rx & 0x1FF) > 64 || (rx & 0x1FF) < 2 {
                    k3
                } else {
                    spec_next_cursor(rs, k3)
                },
            },
        },
    }
}

impl Pn5180Driver {
    /// Wake and activate an ISO 14443A card: clear interrupts, configure a
    /// short-frame transmit (seven valid bits, one byte), send the wake
    /// command, then read the interrupt and receive status registers.
    ///
    /// The answer is validated before anything is reported: a receive
    /// status of the bus-error sentinel, an implausible byte count, fewer
    /// than two response bytes, or a sentinel answer-to-request all mean "no
    /// card", never garbage handed to the caller.  Anti-collision and UID
    /// retrieval are a separate, unimplemented extension: a reported card
    /// carries its answer-to-request and an empty UID.
    pub fn iso14443a_activate(&self, bus: &mut SimBus) -> (r: Result<
        Option<Iso14443aCard>,
        Pn5180Error,
    >)
        requires
            old(bus).wf(),
        ensures
            final(bus).wf(),
            final(bus).log@.len() >= old(bus).log@.len(),
            final(bus).log@.take(old(bus).log@.len() as int) == old(bus).log@,
            final(bus).replies == old(bus).replies,
            final(bus).busy == old(bus).busy,
            final(bus).cursor == spec_activation_end_cursor(
                old(bus).replies@,
                old(bus).cursor as int,
            ),
            match spec_activation_outcome(old(bus).replies@, old(bus).cursor as int) {
                ActivationOutcome::Fault => r == Err::<Option<Iso14443aCard>, Pn5180Error>(
                    Pn5180Error::SpiError,
                ),
                ActivationOutcome::NoCard => r == Ok::<Option<Iso14443aCard>, Pn5180Error>(None),
                ActivationOutcome::Card(a) => (r matches Ok(Some(card)) && card.atqa@ == a
                    && card.uid@ == spec_fill_zero(10) && card.uid_len == 0 && card.sak == 0),
            },
            spec_cmd_txn_at(
                final(bus).log@,
                old(bus).log@.len() as int,
                spec_register_read_frame(REG_RF_STATUS),
            ),
            spec_read_txn_at(final(bus).log@, old(bus).log@.len() as int + 3, 4),
            ({
                let rs = old(bus).replies@;
                let k0 = old(bus).cursor as int;
                let k1 = spec_next_cursor(rs, k0);
                let l0 = old(bus).log@.len() as int;
                let log = final(bus).log@;
                spec_u32_at(rs, k0) is Some ==> ({
                    &&& spec_cmd_txn_at(log, l0 + 6, spec_irq_clear_frame())
                    &&& spec_cmd_txn_at(log, l0 + 9, spec_tx_short_frame_config())
                    &&& spec_cmd_txn_at(log, l0 + 12, spec_reqa_frame())
                    &&& spec_cmd_txn_at(log, l0 + 15, spec_register_read_frame(REG_IRQ_STATUS))
                    &&& spec_read_txn_at(log, l0 + 18, 4)
                    &&& (spec_u32_at(rs, k1) is Some ==> spec_cmd_txn_at(
                        log,
                        l0 + 21,
                        spec_register_read_frame(REG_RX_STATUS),
                    ) && spec_read_txn_at(log, l0 + 24, 4))
                })
            }),
    {
        let ghost lg0 = old(bus).log@.len() as int;
        // The field status is read first, as the sequence requires; its
        // value is informational here.
        match self.read_register(bus, REG_RF_STATUS) {
            Err(e) => {
                return Err(e);
            },
            Ok(_) => {},
        }
        let ghost l1 = bus.log@;
        let _ = self.write_register(bus, REG_IRQ_CLEAR, 0xFFFFFFFF);
        proof {
            lemma_prefix_chain(old(bus).log@, l1, bus.log@);
            lemma_cmd_txn_at_preserved(l1, bus.log@, lg0, spec_register_read_frame(REG_RF_STATUS));
            lemma_read_txn_at_preserved(l1, bus.log@, lg0 + 3, 4);
        }
        // Short frame for the wake command: one byte, seven valid bits.
        let tx_cfg: u32 = (7u32 << 16) | 1u32;
        proof {
            assert(tx_cfg == 0x0007_0001u32) by (bit_vector)
                requires
                    tx_cfg == (7u32 << 16) | 1u32,
            ;
        }
        let ghost l2 = bus.log@;
        let _ = self.write_register(bus, REG_TX_DATA_NUM, tx_cfg);
        proof {
            lemma_prefix_chain(old(bus).log@, l2, bus.log@);
            lemma_cmd_txn_at_preserved(l2, bus.log@, lg0, spec_register_read_frame(REG_RF_STATUS));
            lemma_read_txn_at_preserved(l2, bus.log@, lg0 + 3, 4);
            lemma_cmd_txn_at_preserved(l2, bus.log@, lg0 + 6, spec_irq_clear_frame());
        }
        let mut wake: Vec<u8> = Vec::new();
        wake.push(CMD_SEND_DATA);
        wake.push(0x26);
        let ghost l3 = bus.log@;
        proof {
            assert(wake@ =~= spec_reqa_frame());
        }
        self.send_command(bus, &wake);
        proof {
            lemma_prefix_chain(old(bus).log@, l3, bus.log@);
            lemma_cmd_txn_at_preserved(l3, bus.log@, lg0, spec_register_read_frame(REG_RF_STATUS));
            lemma_read_txn_at_preserved(l3, bus.log@, lg0 + 3, 4);
            lemma_cmd_txn_at_preserved(l3, bus.log@, lg0 + 6, spec_irq_clear_frame());
            lemma_cmd_txn_at_preserved(l3, bus.log@, lg0 + 9, spec_tx_short_frame_config());
        }
        let ghost l4 = bus.log@;
        // The interrupt status is read before the receive status, as the
        // sequence requires; its value too is informational.
        let irq_outcome = self.read_register(bus, REG_IRQ_STATUS);
        proof {
            lemma_prefix_chain(old(bus).log@, l4, bus.log@);
            lemma_cmd_txn_at_preserved(l4, bus.log@, lg0, spec_register_read_frame(REG_RF_STATUS));
            lemma_read_txn_at_preserved(l4, bus.log@, lg0 + 3, 4);
            lemma_cmd_txn_at_preserved(l4, bus.log@, lg0 + 6, spec_irq_clear_frame());
            lemma_cmd_txn_at_preserved(l4, bus.log@, lg0 + 9, spec_tx_short_frame_config());
            lemma_cmd_txn_at_preserved(l4, bus.log@, lg0 + 12, spec_reqa_frame());
        }
        match irq_outcome {
            Err(e) => {
                return Err(e);
            },
            Ok(_) => {},
        }
        let ghost l5 = bus.log@;
        let rx_outcome = self.read_register(bus, REG_RX_STATUS);
        proof {
            lemma_prefix_chain(old(bus).log@, l5, bus.log@);
            lemma_cmd_txn_at_preserved(l5, bus.log@, lg0, spec_register_read_frame(REG_RF_STATUS));
            lemma_read_txn_at_preserved(l5, bus.log@, lg0 + 3, 4);
            lemma_cmd_txn_at_preserved(l5, bus.log@, lg0 + 6, spec_irq_clear_frame());
            lemma_cmd_txn_at_preserved(l5, bus.log@, lg0 + 9, spec_tx_short_frame_config());
            lemma_cmd_txn_at_preserved(l5, bus.log@, lg0 + 12, spec_reqa_frame());
            lemma_cmd_txn_at_preserved(
                l5,
                bus.log@,
                lg0 + 15,
                spec_register_read_frame(REG_IRQ_STATUS),
            );
            lemma_read_txn_at_preserved(l5, bus.log@, lg0 + 18, 4);
        }
        let rx_status = match rx_outcome {
            Err(e) => {
                return Err(e);
            },
            Ok(v) => v,
        };
        let rx_len: u32 = rx_status & 0x1FF;
        if rx_status == 0xFFFFFFFF || rx_len > 64 || rx_len < 2 {
            return Ok(None);
        }
        let mut rd: Vec<u8> = Vec::new();
        rd.push(CMD_READ_DATA);
        let ghost l6 = bus.log@;
        let answer = self.send_command_read(bus, &rd, 2);
        proof {
            lemma_prefix_chain(old(bus).log@, l6, bus.log@);
            lemma_cmd_txn_at_preserved(l6, bus.log@, lg0, spec_register_read_frame(REG_RF_STATUS));
            lemma_read_txn_at_preserved(l6, bus.log@, lg0 + 3, 4);
            lemma_cmd_txn_at_preserved(l6, bus.log@, lg0 + 6, spec_irq_clear_frame());
            lemma_cmd_txn_at_preserved(l6, bus.log@, lg0 + 9, spec_tx_short_frame_config());
            lemma_cmd_txn_at_preserved(l6, bus.log@, lg0 + 12, spec_reqa_frame());
            lemma_cmd_txn_at_preserved(
                l6,
                bus.log@,
                lg0 + 15,
                spec_register_read_frame(REG_IRQ_STATUS),
            );
            lemma_read_txn_at_preserved(l6, bus.log@, lg0 + 18, 4);
            lemma_cmd_txn_at_preserved(
                l6,
                bus.log@,
                lg0 + 21,
                spec_register_read_frame(REG_RX_STATUS),
            );
            lemma_read_txn_at_preserved(l6, bus.log@, lg0 + 24, 4);
        }
        let atqa = match answer {
            None => {
                return Err(Pn5180Error::SpiError);
            },
            Some(v) => v,
        };
        if (atqa[0] == 0x00 && atqa[1] == 0x00) || (atqa[0] == 0xFF && atqa[1] == 0xFF) {
            return Ok(None);
        }
        let card = Iso14443aCard {
            uid: [0; 10],
            uid_len: 0,
            atqa: [atqa[0], atqa[1]],
            sak: 0,
        };
        proof {
            assert(card.atqa@ =~= atqa@);
            assert(card.uid@ =~= spec_fill_zero(10));
        }
        Ok(Some(card))
    }
}

/// Bring the NFC chip up, in order: reset, firmware-version read (the one
/// fatal step — an unreadable version means the device is absent or dead),
/// product-version read (informational, a fault is tolerated), RF
/// configuration load.  Only after all of that is the state marked
/// initialized.  When the firmware-version read fails, nothing has been
/// loaded: the log holds no RF-configuration write at all.
pub fn init_pn5180(
    bus: &mut SimBus,
    ready: ReadyStrategy,
    reset_strategy: ResetStrategy,
    state: &mut Pn5180State,
) -> (r: Result<Pn5180Driver, Pn5180Error>)
    requires
        old(bus).wf(),
        !old(state).initialized,
    ensures
        final(bus).wf(),
        final(bus).log@.take(old(bus).log@.len() as int) == old(bus).log@,
        final(bus).replies == old(bus).replies,
        final(bus).busy == old(bus).busy,
        final(state).last_uid == old(state).last_uid,
        final(state).last_uid_len == old(state).last_uid_len,
        final(state).rf_on == old(state).rf_on,
        ({
            let rs = old(bus).replies@;
            let k0 = old(bus).cursor as int;
            let fw = spec_eeprom_outcome(rs, k0, 2, EEPROM_RETRIES as nat);
            let kf = spec_eeprom_end_cursor(rs, k0, 2, EEPROM_RETRIES as nat);
            match fw {
                None => {
                    &&& r == Err::<Pn5180Driver, Pn5180Error>(Pn5180Error::SpiError)
                    &&& *final(state) == *old(state)
                    &&& !final(state).initialized
                    &&& spec_no_rf_config_write(final(bus).log@, old(bus).log@.len() as int)
                    &&& final(bus).cursor == kf
                },
                Some(fwb) => {
                    let kp = spec_eeprom_end_cursor(rs, kf, 2, EEPROM_RETRIES as nat);
                    let rf = spec_u32_at(rs, kp);
                    &&& final(state).firmware_version == spec_fw_version(fwb)
                    &&& final(bus).cursor == spec_next_cursor(rs, kp)
                    &&& match rf {
                        None => r == Err::<Pn5180Driver, Pn5180Error>(Pn5180Error::SpiError)
                            && !final(state).initialized,
                        Some(_) => (r matches Ok(d) && d.ready == ready && d.reset_strategy
                            == reset_strategy) && final(state).initialized
                            && spec_has_rf_config_write(
                            final(bus).log@,
                            old(bus).log@.len() as int,
                        ),
                    }
                },
            }
        }),
{
    let driver = Pn5180Driver { ready, reset_strategy };
    driver.reset(bus);
    let ghost l_reset = bus.log@;
    let fw = driver.get_firmware_version(bus);
    proof {
        lemma_prefix_chain(old(bus).log@, l_reset, bus.log@);
    }
    match fw {
        Err(e) => {
            proof {
                assert forall|i: int| old(bus).log@.len() <= i < bus.log@.len()
                    implies !spec_is_rf_config_write(#[trigger] bus.log@[i]) by {
                    if i < l_reset.len() {
                        assert(bus.log@.take(l_reset.len() as int)[i] == bus.log@[i]);
                        assert(!(l_reset[i] is Write));
                    }
                }
            }
            return Err(e);
        },
        Ok(v) => {
            state.firmware_version = v;
        },
    }
    let ghost l_fw = bus.log@;
    let _ = driver.get_product_version(bus);
    proof {
        lemma_prefix_chain(old(bus).log@, l_fw, bus.log@);
    }
    let ghost l_prod = bus.log@;
    match driver.load_rf_config_14443a(bus) {
        Err(e) => {
            proof {
                lemma_prefix_chain(old(bus).log@, l_prod, bus.log@);
            }
            return Err(e);
        },
        Ok(_) => {},
    }
    proof {
        lemma_prefix_chain(old(bus).log@, l_prod, bus.log@);
        let i = choose|i: int|
            l_prod.len() <= i < bus.log@.len() && spec_is_rf_config_write(#[trigger] bus.log@[i]);
        assert(spec_is_rf_config_write(bus.log@[i]));
        assert(spec_has_rf_config_write(bus.log@, old(bus).log@.len() as int));
    }
    state.initialized = true;
    Ok(driver)
}

/// A read that answers with implausible garbage rather than a fault.
pub open spec fn spec_reply_garbage(replies: Seq<BusReply>, k: int, len: nat) -> bool {
    spec_read_result(replies, k, len) matches Some(b) && !spec_response_valid(b)
}

/// Retry convergence, first half: when the first `j` replies are garbage
/// and reply `j` is plausible, the EEPROM read returns exactly that
/// plausible payload.
pub proof fn lemma_eeprom_accepts_first_valid(
    replies: Seq<BusReply>,
    k: int,
    len: nat,
    tries: nat,
    j: int,
    v: Seq<u8>,
)
    requires
        0 <= j < tries,
        0 <= k,
        k + j < replies.len(),
        forall|t: int| 0 <= t < j ==> #[trigger] spec_reply_garbage(replies, k + t, len),
        spec_read_result(replies, k + j, len) == Some(v),
        spec_response_valid(v),
    ensures
        spec_eeprom_outcome(replies, k, len, tries) == Some(v),
    decreases j,
{
    if j == 0 {
    } else {
        assert(spec_reply_garbage(replies, k + 0, len));
        assert(spec_next_cursor(replies, k) == k + 1);
        assert forall|t: int| 0 <= t < j - 1 implies #[trigger] spec_reply_garbage(
            replies,
            k + 1 + t,
            len,
        ) by {
            assert(spec_reply_garbage(replies, k + (t + 1), len));
        }
        lemma_eeprom_accepts_first_valid(replies, k + 1, len, (tries - 1) as nat, j - 1, v);
    }
}

/// Retry convergence, second half: when every reply the attempts can reach
/// is garbage, the EEPROM read degrades to the all-zero buffer — not an
/// error, and not the garbage.
pub proof fn lemma_eeprom_degrades_to_zero(replies: Seq<BusReply>, k: int, len: nat, tries: nat)
    requires
        0 <= k,
        k + tries <= replies.len(),
        forall|t: int| 0 <= t < tries ==> #[trigger] spec_reply_garbage(replies, k + t, len),
    ensures
        spec_eeprom_outcome(replies, k, len, tries) == Some(spec_fill_zero(len)),
    decreases tries,
{
    if tries > 0 {
        assert(spec_reply_garbage(replies, k + 0, len));
        assert(spec_next_cursor(replies, k) == k + 1);
        assert forall|t: int| 0 <= t < tries - 1 implies #[trigger] spec_reply_garbage(
            replies,
            k + 1 + t,
            len,
        ) by {
            assert(spec_reply_garbage(replies, k + (t + 1), len));
        }
        lemma_eeprom_degrades_to_zero(replies, k + 1, len, (tries - 1) as nat);
    }
}

} // verus!