//! The decisions of the scale supervisor and reader: status bookkeeping,
//! what to do with a configuration, serial settings and weight stability.
//! Threads, locks, the serial port and the clock stay with the caller.

use vstd::prelude::*;
use crate::config::{ScaleConfig, clone_opt};
use crate::scale::protocols::{ScaleProtocol, protocol_for_id, protocol_id};
use crate::text::{ascii_lowercase, chars_eq_str, chars_of, push_str, string_of, to_lower};

verus! {

/// Connection state of the scale as reported to clients.
#[derive(Debug)]
pub struct ScaleStatus {
    pub enabled: bool,
    pub connected: bool,
    pub protocol: String,
    pub port: Option<String>,
    pub last_error: Option<String>,
}

/// A serial port that can be chosen for the scale.
#[derive(Debug)]
pub struct SerialPortInfo {
    pub name: String,
    pub description: Option<String>,
}

impl Clone for ScaleStatus {
    fn clone(&self) -> (res: Self)
        ensures
            res == *self,
    {
        ScaleStatus {
            enabled: self.enabled,
            connected: self.connected,
            protocol: self.protocol.clone(),
            port: clone_opt(&self.port),
            last_error: clone_opt(&self.last_error),
        }
    }
}

impl Clone for SerialPortInfo {
    fn clone(&self) -> (res: Self)
        ensures
            res == *self,
    {
        SerialPortInfo { name: self.name.clone(), description: clone_opt(&self.description) }
    }
}

impl ScaleStatus {
    /// The status before the scale was ever connected.
    pub fn initial(config: &ScaleConfig) -> (res: Self)
        ensures
            res.enabled == config.enabled,
            !res.connected,
            res.protocol == config.protocol,
            res.port == config.serial_port,
            res.last_error is None,
    {
        ScaleStatus {
            enabled: config.enabled,
            connected: false,
            protocol: config.protocol.clone(),
            port: clone_opt(&config.serial_port),
            last_error: None,
        }
    }

    /// Takes the enabled flag, protocol and port from the configuration;
    /// the connection state and last error are kept.
    pub fn sync_from_config(&mut self, config: &ScaleConfig)
        ensures
            final(self).enabled == config.enabled,
            final(self).protocol == config.protocol,
            final(self).port == config.serial_port,
            final(self).connected == old(self).connected,
            final(self).last_error == old(self).last_error,
    {
        self.enabled = config.enabled;
        self.protocol = config.protocol.clone();
        self.port = clone_opt(&config.serial_port);
    }

    /// The status to report: this one, with the enabled flag, protocol and
    /// port of the configuration now in use.
    pub fn current(&self, config: &ScaleConfig) -> (res: Self)
        ensures
            res.enabled == config.enabled,
            res.protocol == config.protocol,
            res.port == config.serial_port,
            res.connected == self.connected,
            res.last_error == self.last_error,
    {
        let mut status = self.clone();
        status.sync_from_config(config);
        status
    }

    /// Records a failure: the scale is not connected.
    pub fn set_error(&mut self, message: String)
        ensures
            !final(self).connected,
            final(self).last_error == Some(message),
            final(self).enabled == old(self).enabled,
            final(self).protocol == old(self).protocol,
            final(self).port == old(self).port,
    {
        self.connected = false;
        self.last_error = Some(message);
    }

    /// Records how a reader ended. A failure (`Some` of its message) is
    /// reported as the last error, with the scale disconnected; a stop the
    /// supervisor asked for (`None`) changes nothing.
    pub fn reader_finished(&mut self, failure: Option<String>)
        ensures
            failure matches Some(m) ==> !final(self).connected && final(self).last_error == Some(m)
                && final(self).enabled == old(self).enabled && final(self).protocol == old(
                self,
            ).protocol && final(self).port == old(self).port,
            failure is None ==> *final(self) == *old(self),
    {
        if let Some(message) = failure {
            self.set_error(message);
        }
    }

    /// Records that the port was opened: connected, with no error.
    pub fn mark_connected(&mut self)
        ensures
            final(self).connected,
            final(self).last_error is None,
            final(self).enabled == old(self).enabled,
            final(self).protocol == old(self).protocol,
            final(self).port == old(self).port,
    {
        self.connected = true;
        self.last_error = None;
    }
}

/// Why no weight can be reported.
#[derive(Debug, Clone, Copy, PartialEq, Eq, Structural)]
pub enum ReadingError {
    /// Scale integration is disabled in the configuration.
    Disabled,
    /// No weight reading is available yet.
    NoReading,
}

/// Whether a weight can be reported: not when the scale is disabled, and
/// not before a first reading (a reading time of 0 marks none).
pub open spec fn weight_check(enabled: bool, updated_at_ms: u64) -> Result<(), ReadingError> {
    if !enabled {
        Err(ReadingError::Disabled)
    } else if updated_at_ms == 0 {
        Err(ReadingError::NoReading)
    } else {
        Ok(())
    }
}

/// Whether a weight can be reported (see `weight_check`).
pub fn check_weight(enabled: bool, updated_at_ms: u64) -> (res: Result<(), ReadingError>)
    ensures
        res == weight_check(enabled, updated_at_ms),
        !enabled ==> res == Err::<(), ReadingError>(ReadingError::Disabled),
        enabled && updated_at_ms == 0 ==> res == Err::<(), ReadingError>(ReadingError::NoReading),
        enabled && updated_at_ms != 0 ==> res is Ok,
{
    if !enabled {
        return Err(ReadingError::Disabled);
    }
    if updated_at_ms == 0 {
        return Err(ReadingError::NoReading);
    }
    Ok(())
}

/// What the supervisor does with a scale configuration.
#[derive(Debug)]
pub enum SupervisorPlan {
    /// The scale is disabled: wait for a reload.
    Idle,
    /// The configuration cannot be used: report the message, wait for a reload.
    Misconfigured(String),
    /// Open `port` and read it with `protocol`.
    Run { port: String, protocol: ScaleProtocol },
}

/// The message reported when no serial port is configured.
pub open spec fn missing_port_message() -> Seq<char> {
    "scale.serial_port is not configured"@
}

/// The message reported for an unknown protocol id.
pub open spec fn unknown_protocol_message(id: Seq<char>) -> Seq<char> {
    "Unknown protocol: "@ + id
}

/// The supervisor's decision for a configuration: idle when disabled, a
/// configuration error when the port is missing or the protocol unknown,
/// otherwise read the port with the protocol.
pub fn plan_supervisor(config: &ScaleConfig) -> (res: SupervisorPlan)
    ensures
        !config.enabled ==> res is Idle,
        config.enabled && config.serial_port is None ==> (res matches SupervisorPlan::Misconfigured(
            m,
        ) && m@ == missing_port_message()),
        config.enabled && config.serial_port is Some && protocol_for_id(config.protocol@) is None
            ==> (res matches SupervisorPlan::Misconfigured(m) && m@ == unknown_protocol_message(
            config.protocol@,
        )),
        config.enabled && config.serial_port is Some && protocol_for_id(config.protocol@) is Some
            ==> (res matches SupervisorPlan::Run { port, protocol } && port == config.serial_port->0
            && Some(protocol) == protocol_for_id(config.protocol@)),
{
    if !config.enabled {
        return SupervisorPlan::Idle;
    }
    let port = match &config.serial_port {
        Some(p) => p.clone(),
        None => {
            let mut m: Vec<char> = Vec::new();
            push_str(&mut m, "scale.serial_port is not configured");
            return SupervisorPlan::Misconfigured(string_of(m.as_slice()));
        },
    };
    match ScaleProtocol::parse_id(config.protocol.as_str()) {
        Some(protocol) => SupervisorPlan::Run { port, protocol },
        None => {
            let mut m: Vec<char> = Vec::new();
            push_str(&mut m, "Unknown protocol: ");
            push_str(&mut m, config.protocol.as_str());
            SupervisorPlan::Misconfigured(string_of(m.as_slice()))
        },
    }
}

/// Parity of the serial line.
#[derive(Debug, Clone, Copy, PartialEq, Eq, Structural)]
pub enum SerialParity {
    /// No parity bit.
    Off,
    Odd,
    Even,
}

/// Data bits per character on the serial line.
#[derive(Debug, Clone, Copy, PartialEq, Eq, Structural)]
pub enum SerialDataBits {
    Five,
    Six,
    Seven,
    Eight,
}

/// Stop bits on the serial line.
#[derive(Debug, Clone, Copy, PartialEq, Eq, Structural)]
pub enum SerialStopBits {
    One,
    Two,
}

/// Flow control on the serial line.
#[derive(Debug, Clone, Copy, PartialEq, Eq, Structural)]
pub enum SerialFlowControl {
    /// No flow control.
    Off,
    /// XON/XOFF.
    Software,
    /// RTS/CTS.
    Hardware,
}

/// How the serial port is opened.
#[derive(Debug, Clone, Copy, PartialEq, Eq, Structural)]
pub struct SerialSettings {
    pub baud_rate: u32,
    pub data_bits: SerialDataBits,
    pub parity: SerialParity,
    pub stop_bits: SerialStopBits,
    pub flow_control: SerialFlowControl,
    /// How long a read waits for data, in milliseconds.
    pub timeout_ms: u64,
}

/// Parity named in the configuration (`even`, `odd`, any ASCII case);
/// anything else means none.
pub open spec fn parity_named(p: Seq<char>) -> SerialParity {
    if to_lower(p) == "even"@ {
        SerialParity::Even
    } else if to_lower(p) == "odd"@ {
        SerialParity::Odd
    } else {
        SerialParity::Off
    }
}

/// Data bits from the configuration: 5, 6 and 7 as given, anything else 8.
pub open spec fn data_bits_of(n: u8) -> SerialDataBits {
    if n == 5 {
        SerialDataBits::Five
    } else if n == 6 {
        SerialDataBits::Six
    } else if n == 7 {
        SerialDataBits::Seven
    } else {
        SerialDataBits::Eight
    }
}

/// Stop bits from the configuration: 2 as given, anything else 1.
pub open spec fn stop_bits_of(n: u8) -> SerialStopBits {
    if n == 2 {
        SerialStopBits::Two
    } else {
        SerialStopBits::One
    }
}

/// The serial settings a scale configuration asks for; the port is read
/// without flow control and with a 200 ms read timeout.
pub fn serial_settings(config: &ScaleConfig) -> (res: SerialSettings)
    ensures
        res == (SerialSettings {
            baud_rate: config.baud_rate,
            data_bits: data_bits_of(config.data_bits),
            parity: parity_named(config.parity@),
            stop_bits: stop_bits_of(config.stop_bits),
            flow_control: SerialFlowControl::Off,
            timeout_ms: 200,
        }),
{
    let chars = chars_of(config.parity.as_str());
    let lower = ascii_lowercase(chars.as_slice());
    let parity = if chars_eq_str(lower.as_slice(), "even") {
        SerialParity::Even
    } else if chars_eq_str(lower.as_slice(), "odd") {
        SerialParity::Odd
    } else {
        SerialParity::Off
    };
    let data_bits = match config.data_bits {
        5 => SerialDataBits::Five,
        6 => SerialDataBits::Six,
        7 => SerialDataBits::Seven,
        _ => SerialDataBits::Eight,
    };
    let stop_bits = match config.stop_bits {
        2 => SerialStopBits::Two,
        _ => SerialStopBits::One,
    };
    SerialSettings {
        baud_rate: config.baud_rate,
        data_bits,
        parity,
        stop_bits,
        flow_control: SerialFlowControl::Off,
        timeout_ms: 200,
    }
}

/// Counts identical consecutive readings to tell when a weight is stable.
///
/// Whether a reading matches the previous one (within a gram) and how long
/// ago the tracked weight changed are measured by the caller.
pub struct StabilityTracker {
    stable_count: u8,
    stable_reads_required: u8,
    stable_window_ms: u64,
}

impl StabilityTracker {
    pub closed spec fn count(&self) -> u8 {
        self.stable_count
    }

    pub closed spec fn required(&self) -> u8 {
        self.stable_reads_required
    }

    pub closed spec fn window_ms(&self) -> u64 {
        self.stable_window_ms
    }

    /// At least one identical reading is required, and readings count only
    /// when they are at least 50 ms apart from the last change. Every
    /// tracker keeps this.
    #[verifier::type_invariant]
    pub closed spec fn wf(&self) -> bool {
        self.stable_reads_required >= 1 && self.stable_window_ms >= 50
    }

    /// The count after a reading: one more (saturating) for a matching
    /// reading once the window has passed, unchanged for a matching reading
    /// inside the window, one for a different reading.
    pub open spec fn next_count(&self, same: bool, elapsed_ms: u128) -> u8 {
        if same && elapsed_ms >= self.window_ms() {
            if self.count() == u8::MAX {
                u8::MAX
            } else {
                (self.count() + 1) as u8
            }
        } else if !same {
            1
        } else {
            self.count()
        }
    }

    /// A tracker with no reading yet. The requirement is at least one
    /// reading and the window at least 50 ms.
    pub fn new(stable_reads_required: u8, stable_window_ms: u64) -> (res: Self)
        ensures
            res.wf(),
            res.count() == 0,
            res.required() == if stable_reads_required >= 1 {
                stable_reads_required
            } else {
                1
            },
            res.window_ms() == if stable_window_ms >= 50 {
                stable_window_ms
            } else {
                50
            },
    {
        StabilityTracker {
            stable_count: 0,
            stable_reads_required: if stable_reads_required >= 1 {
                stable_reads_required
            } else {
                1
            },
            stable_window_ms: if stable_window_ms >= 50 {
                stable_window_ms
            } else {
                50
            },
        }
    }

    /// Accounts for one reading. `same` tells whether it matches the
    /// tracked weight; `elapsed_ms` is the time since that weight was first
    /// seen. Returns whether the weight is now stable. A reading that does
    /// not match becomes the tracked weight, so the caller restarts its
    /// clock then.
    pub fn update(&mut self, same: bool, elapsed_ms: u128) -> (stable: bool)
        ensures
            final(self).wf(),
            final(self).required() == old(self).required(),
            final(self).window_ms() == old(self).window_ms(),
            final(self).count() == old(self).next_count(same, elapsed_ms),
            stable == (final(self).count() >= final(self).required()),
    {
        proof {
            use_type_invariant(&*self);
        }
        if same && elapsed_ms >= self.stable_window_ms as u128 {
            self.stable_count = self.stable_count.saturating_add(1);
        } else if !same {
            self.stable_count = 1;
        }
        proof {
            use_type_invariant(&*self);
        }
        self.stable_count >= self.stable_reads_required
    }
}

/// A reading that differs from the tracked weight makes it stable exactly
/// when a single reading is required.
pub proof fn lemma_change_restarts(t: StabilityTracker, elapsed_ms: u128)
    requires
        t.wf(),
    ensures
        t.next_count(false, elapsed_ms) == 1,
        (t.next_count(false, elapsed_ms) >= t.required()) <==> t.required() == 1,
{
}

/// Matching readings never lower the count, and once stable a weight stays
/// stable while the readings keep matching.
pub proof fn lemma_matching_keeps_stable(t: StabilityTracker, elapsed_ms: u128)
    requires
        t.wf(),
    ensures
        t.next_count(true, elapsed_ms) >= t.count(),
        t.count() >= t.required() ==> t.next_count(true, elapsed_ms) >= t.required(),
{
}

/// A weight is reported stable only after it was seen at least as many
/// times as required: every update leaves a count of at least one.
pub proof fn lemma_count_positive_after_update(t: StabilityTracker, same: bool, elapsed_ms: u128)
    requires
        t.wf(),
        t.count() >= 1 || !same || elapsed_ms >= t.window_ms(),
    ensures
        t.next_count(same, elapsed_ms) >= 1,
{
}


/// The bookkeeping of the latest weight reading, apart from the weight
/// itself: stability, connection, where it came from and when.
#[derive(Debug)]
pub struct ReadingInfo {
    pub stable: bool,
    pub connected: bool,
    pub protocol: String,
    pub port: Option<String>,
    pub raw: Option<String>,
    /// Unix time of the reading in milliseconds; 0 while there is none.
    pub updated_at_ms: u64,
}

impl Clone for ReadingInfo {
    fn clone(&self) -> (res: Self)
        ensures
            res == *self,
    {
        ReadingInfo {
            stable: self.stable,
            connected: self.connected,
            protocol: self.protocol.clone(),
            port: clone_opt(&self.port),
            raw: clone_opt(&self.raw),
            updated_at_ms: self.updated_at_ms,
        }
    }
}

impl ReadingInfo {
    /// Before any reading: not connected, not stable, reading time 0.
    pub fn initial(config: &ScaleConfig) -> (res: Self)
        ensures
            !res.stable,
            !res.connected,
            res.protocol == config.protocol,
            res.port == config.serial_port,
            res.raw is None,
            res.updated_at_ms == 0,
    {
        ReadingInfo {
            stable: false,
            connected: false,
            protocol: config.protocol.clone(),
            port: clone_opt(&config.serial_port),
            raw: None,
            updated_at_ms: 0,
        }
    }

    /// Forgets the reading when the scale is not being read: not connected,
    /// not stable, reading time 0, protocol and port from the configuration;
    /// the last raw text is kept.
    pub fn reset(&mut self, config: &ScaleConfig)
        ensures
            !final(self).stable,
            !final(self).connected,
            final(self).protocol == config.protocol,
            final(self).port == config.serial_port,
            final(self).raw == old(self).raw,
            final(self).updated_at_ms == 0,
    {
        self.connected = false;
        self.stable = false;
        self.protocol = config.protocol.clone();
        self.port = clone_opt(&config.serial_port);
        self.updated_at_ms = 0;
    }

    /// Records a reading taken at `now_ms` with `protocol` on `port_name`
    /// from the text `raw`.
    pub fn publish(
        &mut self,
        protocol: ScaleProtocol,
        port_name: &str,
        raw: String,
        stable: bool,
        now_ms: u64,
    )
        ensures
            final(self).stable == stable,
            final(self).connected,
            final(self).protocol@ == protocol_id(protocol),
            final(self).port matches Some(p) && p@ == port_name@,
            final(self).raw == Some(raw),
            final(self).updated_at_ms == now_ms,
    {
        self.stable = stable;
        self.connected = true;
        self.protocol = protocol.info().id.to_owned();
        self.port = Some(port_name.to_owned());
        self.raw = Some(raw);
        self.updated_at_ms = now_ms;
    }
}

/// No weight is reported while the reading time is 0, as it is from
/// `ReadingInfo::initial` and after `ReadingInfo::reset`: before the first
/// reading and whenever the scale is not being read.
pub proof fn lemma_no_weight_before_first_reading(r: ReadingInfo, enabled: bool)
    requires
        r.updated_at_ms == 0,
    ensures
        weight_check(enabled, r.updated_at_ms) is Err,
{
}

/// What the supervisor hears while a reader runs or while it waits.
#[derive(Debug, Clone, Copy, PartialEq, Eq, Structural)]
pub enum SupervisorEvent {
    /// The configuration was reloaded.
    Reload,
    /// Nobody can send commands any more.
    Disconnected,
    /// Nothing happened for a while.
    Timeout,
}

/// What the supervisor does next while a reader runs.
#[derive(Debug, Clone, Copy, PartialEq, Eq, Structural)]
pub enum SupervisorAction {
    /// Keep waiting for events.
    KeepWaiting,
    /// Stop the reader, then plan again from the configuration.
    StopAndReplan,
    /// Stop the reader, then end the supervisor.
    StopAndExit,
    /// The reader ended by itself: plan again from the configuration.
    Replan,
}

/// The supervisor's reaction to an event while a reader runs: a reload
/// restarts from the configuration, a lost command channel ends it, and a
/// quiet period only matters once the reader has ended.
pub fn supervisor_step(event: SupervisorEvent, reader_finished: bool) -> (res: SupervisorAction)
    ensures
        event == SupervisorEvent::Reload ==> res == SupervisorAction::StopAndReplan,
        event == SupervisorEvent::Disconnected ==> res == SupervisorAction::StopAndExit,
        event == SupervisorEvent::Timeout && reader_finished ==> res == SupervisorAction::Replan,
        event == SupervisorEvent::Timeout && !reader_finished ==> res
            == SupervisorAction::KeepWaiting,
{
    match event {
        SupervisorEvent::Reload => SupervisorAction::StopAndReplan,
        SupervisorEvent::Disconnected => SupervisorAction::StopAndExit,
        SupervisorEvent::Timeout => if reader_finished {
            SupervisorAction::Replan
        } else {
            SupervisorAction::KeepWaiting
        },
    }
}

/// Whether waiting for a reload is over: on a reload, and when nobody can
/// send one any more.
pub fn reload_wait_over(event: SupervisorEvent) -> (over: bool)
    ensures
        over == (event != SupervisorEvent::Timeout),
{
    match event {
        SupervisorEvent::Timeout => false,
        _ => true,
    }
}


/// The state the scale service starts from: the status and the reading
/// bookkeeping shared between the supervisor, the reader and clients.
#[derive(Debug)]
pub struct ScaleState {
    pub status: ScaleStatus,
    pub reading: ReadingInfo,
}

impl ScaleState {
    /// The starting state for a configuration: not connected, no error, no
    /// reading yet; so no weight is reported until a first reading.
    pub fn new(config: &ScaleConfig) -> (res: Self)
        ensures
            res.status.enabled == config.enabled,
            !res.status.connected,
            res.status.protocol == config.protocol,
            res.status.port == config.serial_port,
            res.status.last_error is None,
            !res.reading.stable,
            !res.reading.connected,
            res.reading.protocol == config.protocol,
            res.reading.port == config.serial_port,
            res.reading.raw is None,
            res.reading.updated_at_ms == 0,
            forall|enabled: bool| #[trigger] weight_check(enabled, res.reading.updated_at_ms) is Err,
    {
        ScaleState { status: ScaleStatus::initial(config), reading: ReadingInfo::initial(config) }
    }

    /// Whether a weight can be reported now (see `weight_check`).
    pub fn weight(&self, enabled: bool) -> (res: Result<(), ReadingError>)
        ensures
            res == weight_check(enabled, self.reading.updated_at_ms),
    {
        check_weight(enabled, self.reading.updated_at_ms)
    }
}

} // verus!
