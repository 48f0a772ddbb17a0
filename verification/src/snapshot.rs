//! Battery snapshots: what one reading of the mouse reports, how failures
//! are reported, and how implausible jumps while charging are smoothed.
use vstd::prelude::*;
use std::time::{Duration, SystemTime, SystemTimeError, UNIX_EPOCH};
use crate::device::{
    candidate_models, friendly_device_label, opt_view, sanitized_label, CandidateModel,
    DeviceCandidate,
};
use crate::text::{
    decimal, hex4, parse_u64, parse_u64_text, push_decimal, push_hex4, push_str,
    str_equal, string_from_chars, lemma_parse_decimal_roundtrip,
};

verus! {

/// The source name of readings made through the ATK protocol library.
pub open spec fn protocol_backend() -> Seq<char> {
    "libatk-rs"@
}

/// What was found while looking for the mouse.
#[derive(Clone, Debug, PartialEq, Eq)]
pub struct BatteryDiagnostics {
    pub selected_candidate: Option<String>,
    pub candidate_count: usize,
    pub candidates: Vec<DeviceCandidate>,
    pub last_error: Option<String>,
    pub backend: String,
}

/// One battery reading, or the report that none could be made.
///
/// The voltage is held in tenths of a volt, as the mouse reports it.
#[derive(Clone, Debug, PartialEq, Eq)]
pub struct BatterySnapshot {
    pub level: u8,
    pub charge: u8,
    pub voltage_decivolts: u8,
    pub is_charging: bool,
    pub connected: bool,
    pub status: String,
    pub device_label: String,
    pub updated_at: String,
    pub source: String,
    pub diagnostics: BatteryDiagnostics,
}

/// The model of the diagnostics.
pub struct DiagnosticsModel {
    pub selected_candidate: Option<Seq<char>>,
    pub candidate_count: usize,
    pub candidates: Seq<CandidateModel>,
    pub last_error: Option<Seq<char>>,
    pub backend: Seq<char>,
}

/// The model of a snapshot.
pub struct SnapshotModel {
    pub level: u8,
    pub charge: u8,
    pub voltage_decivolts: u8,
    pub is_charging: bool,
    pub connected: bool,
    pub status: Seq<char>,
    pub device_label: Seq<char>,
    pub updated_at: Seq<char>,
    pub source: Seq<char>,
    pub diagnostics: DiagnosticsModel,
}

impl View for BatteryDiagnostics {
    type V = DiagnosticsModel;

    open spec fn view(&self) -> DiagnosticsModel {
        DiagnosticsModel {
            selected_candidate: opt_view(self.selected_candidate),
            candidate_count: self.candidate_count,
            candidates: candidate_models(self.candidates@),
            last_error: opt_view(self.last_error),
            backend: self.backend@,
        }
    }
}

impl View for BatterySnapshot {
    type V = SnapshotModel;

    open spec fn view(&self) -> SnapshotModel {
        SnapshotModel {
            level: self.level,
            charge: self.charge,
            voltage_decivolts: self.voltage_decivolts,
            is_charging: self.is_charging,
            connected: self.connected,
            status: self.status@,
            device_label: self.device_label@,
            updated_at: self.updated_at@,
            source: self.source@,
            diagnostics: self.diagnostics@,
        }
    }
}

/// The diagnostics agree with themselves: the count is that of the
/// candidates listed.
pub open spec fn diagnostics_consistent(d: DiagnosticsModel) -> bool {
    d.candidate_count == d.candidates.len()
}

// ---------------------------------------------------------------------------
// Time stamps
// ---------------------------------------------------------------------------

#[verifier::external_type_specification]
#[verifier::external_body]
pub struct ExSystemTime(SystemTime);

#[verifier::external_type_specification]
#[verifier::external_body]
pub struct ExSystemTimeError(SystemTimeError);

/// `SystemTime::now`: the current time of the system clock.  Nothing is
/// known of the value.
#[verifier::external_body]
fn clock_now() -> SystemTime {
    SystemTime::now()
}

/// `SystemTime::duration_since(UNIX_EPOCH)`: the time elapsed since the Unix
/// epoch, or an error for a clock set before it.  Nothing is known of the
/// value.
#[verifier::external_body]
fn since_unix_epoch(time: &SystemTime) -> Result<Duration, SystemTimeError> {
    time.duration_since(UNIX_EPOCH)
}

/// `Duration::as_secs`: the whole seconds of a duration.  The duration is
/// opaque here, so nothing is stated of the value.
#[verifier::external_body]
fn whole_seconds(duration: &Duration) -> u64 {
    duration.as_secs()
}

/// A time stamp as the library writes it: seconds since the Unix epoch, in
/// decimal.
pub open spec fn is_timestamp(s: Seq<char>) -> bool {
    exists|n: u64| s == decimal(n as nat)
}

/// The time stamp for a clock reading: its seconds in decimal, or `"0"` when
/// the clock could not be read.
pub fn timestamp_text(seconds: Option<u64>) -> (r: String)
    ensures
        r@ == decimal(
            match seconds {
                Some(n) => n as nat,
                None => 0,
            },
        ),
{
    let mut out: Vec<char> = Vec::new();
    match seconds {
        Some(n) => push_decimal(&mut out, n),
        None => push_decimal(&mut out, 0),
    }
    string_from_chars(&out)
}

/// The current time as seconds since the Unix epoch, in decimal (`"0"` for
/// a clock set before the epoch).
pub fn iso_now() -> (r: String)
    ensures
        is_timestamp(r@),
{
    let now = clock_now();
    let seconds = match since_unix_epoch(&now) {
        Ok(duration) => Some(whole_seconds(&duration)),
        Err(_) => None,
    };
    let r = timestamp_text(seconds);
    proof {
        let n: u64 = match seconds {
            Some(n) => n,
            None => 0,
        };
        assert(r@ == decimal(n as nat));
    }
    r
}

// ---------------------------------------------------------------------------
// Building snapshots
// ---------------------------------------------------------------------------

/// Diagnostics with no candidates, no selection and no error.
pub fn empty_diagnostics(backend: &str) -> (r: BatteryDiagnostics)
    ensures
        r@.selected_candidate is None,
        r@.candidate_count == 0,
        r@.candidates.len() == 0,
        r@.last_error is None,
        r@.backend == backend@,
{
    BatteryDiagnostics {
        selected_candidate: None,
        candidate_count: 0,
        candidates: Vec::new(),
        last_error: None,
        backend: String::from_str(backend),
    }
}

/// A snapshot saying that no reading could be made, with `message` as
/// status and error, stamped with the current time.
pub fn disconnected_snapshot(
    message: &str,
    device_label: &str,
    source: &str,
    candidates: Vec<DeviceCandidate>,
) -> (r: BatterySnapshot)
    ensures
        r@.level == 0,
        r@.charge == 0,
        r@.voltage_decivolts == 0,
        !r@.is_charging,
        !r@.connected,
        r@.status == message@,
        r@.device_label == device_label@,
        is_timestamp(r@.updated_at),
        r@.source == source@,
        r@.diagnostics.selected_candidate is None,
        r@.diagnostics.candidate_count == candidates@.len(),
        r@.diagnostics.candidates == candidate_models(candidates@),
        r@.diagnostics.last_error == Some(message@),
        r@.diagnostics.backend == source@,
{
    let count = candidates.len();
    BatterySnapshot {
        level: 0,
        charge: 0,
        voltage_decivolts: 0,
        is_charging: false,
        connected: false,
        status: String::from_str(message),
        device_label: String::from_str(device_label),
        updated_at: iso_now(),
        source: String::from_str(source),
        diagnostics: BatteryDiagnostics {
            selected_candidate: None,
            candidate_count: count,
            candidates,
            last_error: Some(String::from_str(message)),
            backend: String::from_str(source),
        },
    }
}

/// Replaces the diagnostics of a reading by those of the scan that made it:
/// the reading's device as selection, the scanned candidates, and its source
/// as backend.
pub fn enrich_snapshot_with_diagnostics(
    snapshot: BatterySnapshot,
    candidates: Vec<DeviceCandidate>,
    last_error: Option<String>,
) -> (r: BatterySnapshot)
    ensures
        r@.level == snapshot@.level,
        r@.charge == snapshot@.charge,
        r@.voltage_decivolts == snapshot@.voltage_decivolts,
        r@.is_charging == snapshot@.is_charging,
        r@.connected == snapshot@.connected,
        r@.status == snapshot@.status,
        r@.device_label == snapshot@.device_label,
        r@.updated_at == snapshot@.updated_at,
        r@.source == snapshot@.source,
        r@.diagnostics.selected_candidate == Some(snapshot@.device_label),
        r@.diagnostics.candidate_count == candidates@.len(),
        r@.diagnostics.candidates == candidate_models(candidates@),
        r@.diagnostics.last_error == opt_view(last_error),
        r@.diagnostics.backend == snapshot@.source,
{
    let mut snapshot = snapshot;
    let count = candidates.len();
    snapshot.diagnostics = BatteryDiagnostics {
        selected_candidate: Some(snapshot.device_label.clone()),
        candidate_count: count,
        candidates,
        last_error,
        backend: snapshot.source.clone(),
    };
    snapshot
}

/// The snapshot held before the first scan has finished.
pub fn initial_snapshot() -> (r: BatterySnapshot)
    ensures
        r@.level == 0,
        r@.charge == 0,
        r@.voltage_decivolts == 0,
        !r@.is_charging,
        !r@.connected,
        r@.status == "Initialisation de la detection ATK..."@,
        r@.device_label == "ATK device"@,
        is_timestamp(r@.updated_at),
        r@.source == "bootstrap"@,
        r@.diagnostics.selected_candidate is None,
        r@.diagnostics.candidate_count == 0,
        r@.diagnostics.candidates.len() == 0,
        r@.diagnostics.last_error == Some("Initialisation de la detection ATK..."@),
        r@.diagnostics.backend == "bootstrap"@,
{
    disconnected_snapshot("Initialisation de la detection ATK...", "ATK device", "bootstrap", Vec::new())
}

/// The message of a scan that did not finish in time.
pub const SCAN_TIMEOUT_MESSAGE: &'static str = "Le scan HID a depasse le delai d'attente.";

/// The message of a refresh that could not read the stored snapshot.
pub const SCAN_BUSY_MESSAGE: &'static str = "Scan deja en cours.";

/// The message of a refresh that could not store its snapshot.
pub const STORE_LOCK_MESSAGE: &'static str =
    "Impossible de verrouiller l'etat de batterie pour la mise a jour.";

/// The byte at `index` of a response, 0 when the response is shorter.
pub open spec fn byte_or_zero(data: Seq<u8>, index: int) -> u8 {
    if 0 <= index < data.len() {
        data[index]
    } else {
        0
    }
}

/// Reads level, charge and voltage (in tenths of a volt) from the first
/// three data bytes of a battery response; missing bytes read as 0.
pub fn decode_battery_response(data: &[u8]) -> (r: (u8, u8, u8))
    ensures
        r == (byte_or_zero(data@, 0), byte_or_zero(data@, 1), byte_or_zero(data@, 2)),
{
    let level = if data.len() > 0 {
        data[0]
    } else {
        0
    };
    let charge = if data.len() > 1 {
        data[1]
    } else {
        0
    };
    let voltage = if data.len() > 2 {
        data[2]
    } else {
        0
    };
    (level, charge, voltage)
}

/// The status of a successful reading:
/// `"Lecture reussie via libatk-rs sur {vid}:{pid} (usage {page}:{usage})."`
/// with lower-case four-digit hexadecimal ids.
pub open spec fn reading_status(c: CandidateModel) -> Seq<char> {
    "Lecture reussie via libatk-rs sur "@ + hex4(c.vendor_id, false) + ":"@ + hex4(
        c.product_id,
        false,
    ) + " (usage "@ + hex4(c.usage_page, false) + ":"@ + hex4(c.usage, false) + ")."@
}

fn reading_status_of(c: &DeviceCandidate) -> (r: String)
    ensures
        r@ == reading_status(c@),
{
    let mut out: Vec<char> = Vec::new();
    push_str(&mut out, "Lecture reussie via libatk-rs sur ");
    push_hex4(&mut out, c.vendor_id, false);
    push_str(&mut out, ":");
    push_hex4(&mut out, c.product_id, false);
    push_str(&mut out, " (usage ");
    push_hex4(&mut out, c.usage_page, false);
    push_str(&mut out, ":");
    push_hex4(&mut out, c.usage, false);
    push_str(&mut out, ").");
    string_from_chars(&out)
}

/// The snapshot for a battery response of `candidate`: the level capped at
/// 100, charging when the charge byte is not 0, connected, stamped with the
/// current time.
pub fn snapshot_from_response(candidate: &DeviceCandidate, data: &[u8]) -> (r: BatterySnapshot)
    ensures
        r@.level == (if byte_or_zero(data@, 0) <= 100 {
            byte_or_zero(data@, 0)
        } else {
            100
        }),
        r@.charge == byte_or_zero(data@, 1),
        r@.voltage_decivolts == byte_or_zero(data@, 2),
        r@.is_charging == (byte_or_zero(data@, 1) > 0),
        r@.connected,
        r@.status == reading_status(candidate@),
        r@.device_label == sanitized_label(candidate@.label),
        is_timestamp(r@.updated_at),
        r@.source == protocol_backend(),
        r@.diagnostics.selected_candidate is None,
        r@.diagnostics.candidate_count == 0,
        r@.diagnostics.candidates.len() == 0,
        r@.diagnostics.last_error is None,
        r@.diagnostics.backend == protocol_backend(),
{
    let (level, charge, voltage) = decode_battery_response(data);
    BatterySnapshot {
        level: if level <= 100 {
            level
        } else {
            100
        },
        charge,
        voltage_decivolts: voltage,
        is_charging: charge > 0,
        connected: true,
        status: reading_status_of(candidate),
        device_label: friendly_device_label(candidate),
        updated_at: iso_now(),
        source: String::from_str("libatk-rs"),
        diagnostics: empty_diagnostics("libatk-rs"),
    }
}

/// The snapshot of a scan that found `candidates` and queried them: the
/// reading with the scan's diagnostics, or a report of the failure that
/// still lists the candidates.
pub fn scan_snapshot(candidates: Vec<DeviceCandidate>, query: Result<BatterySnapshot, String>) -> (r:
    BatterySnapshot)
    ensures
        match query {
            Ok(s) => {
                &&& r@.level == s@.level
                &&& r@.charge == s@.charge
                &&& r@.voltage_decivolts == s@.voltage_decivolts
                &&& r@.is_charging == s@.is_charging
                &&& r@.connected == s@.connected
                &&& r@.status == s@.status
                &&& r@.device_label == s@.device_label
                &&& r@.updated_at == s@.updated_at
                &&& r@.source == s@.source
                &&& r@.diagnostics.selected_candidate == Some(s@.device_label)
                &&& r@.diagnostics.candidates == candidate_models(candidates@)
                &&& r@.diagnostics.candidate_count == candidates@.len()
                &&& r@.diagnostics.last_error is None
                &&& r@.diagnostics.backend == s@.source
            },
            Err(e) => {
                &&& r@.level == 0
                &&& r@.charge == 0
                &&& r@.voltage_decivolts == 0
                &&& !r@.is_charging
                &&& !r@.connected
                &&& r@.status == e@
                &&& r@.device_label == "ATK device"@
                &&& is_timestamp(r@.updated_at)
                &&& r@.source == "hid-scan"@
                &&& r@.diagnostics.selected_candidate is None
                &&& r@.diagnostics.candidates == candidate_models(candidates@)
                &&& r@.diagnostics.candidate_count == candidates@.len()
                &&& r@.diagnostics.last_error == Some(e@)
                &&& r@.diagnostics.backend == "hid-scan"@
            },
        },
{
    match query {
        Ok(snapshot) => enrich_snapshot_with_diagnostics(snapshot, candidates, None),
        Err(error) => disconnected_snapshot(error.as_str(), "ATK device", "hid-scan", candidates),
    }
}

/// The snapshot of a scan that found no candidate.
pub fn scan_failure_snapshot(error: &str) -> (r: BatterySnapshot)
    ensures
        r@.level == 0,
        r@.charge == 0,
        r@.voltage_decivolts == 0,
        !r@.is_charging,
        !r@.connected,
        r@.status == error@,
        r@.device_label == "ATK device"@,
        is_timestamp(r@.updated_at),
        r@.source == "hid-scan"@,
        r@.diagnostics.selected_candidate is None,
        r@.diagnostics.candidate_count == 0,
        r@.diagnostics.candidates.len() == 0,
        r@.diagnostics.last_error == Some(error@),
        r@.diagnostics.backend == "hid-scan"@,
{
    disconnected_snapshot(error, "ATK device", "hid-scan", Vec::new())
}

// ---------------------------------------------------------------------------
// Smoothing readings taken while charging
// ---------------------------------------------------------------------------

/// Both time stamps read as numbers and the second is at most `max_gap`
/// seconds after the first (an earlier second one counts as no gap).
pub open spec fn timestamps_within(previous: Seq<char>, current: Seq<char>, max_gap: u64) -> bool {
    match (parse_u64(previous), parse_u64(current)) {
        (Some(p), Some(c)) => (if c >= p {
            c - p
        } else {
            0
        }) <= max_gap,
        _ => false,
    }
}

/// Whether two snapshots were taken at most `max_gap_seconds` apart.
pub fn snapshots_are_recent(
    previous_snapshot: &BatterySnapshot,
    snapshot: &BatterySnapshot,
    max_gap_seconds: u64,
) -> (r: bool)
    ensures
        r == timestamps_within(
            previous_snapshot@.updated_at,
            snapshot@.updated_at,
            max_gap_seconds,
        ),
{
    let previous_time = parse_u64_text(previous_snapshot.updated_at.as_str());
    let current_time = parse_u64_text(snapshot.updated_at.as_str());
    match (previous_time, current_time) {
        (Some(p), Some(c)) => c.saturating_sub(p) <= max_gap_seconds,
        _ => false,
    }
}

/// The longest gap, in seconds, over which two readings are compared.
pub open spec fn smoothing_window() -> u64 {
    900
}

/// The distance between two levels.
pub open spec fn level_distance(a: u8, b: u8) -> nat {
    if a >= b {
        (a - b) as nat
    } else {
        (b - a) as nat
    }
}

/// While charging, the mouse sometimes reports twice its level: a reading
/// that jumps by 30 or more above the previous one, from the same device
/// within the smoothing window, whose half is within 10 of the previous
/// level.
pub open spec fn is_doubled_reading(s: SnapshotModel, previous: SnapshotModel) -> bool {
    &&& s.connected
    &&& s.is_charging
    &&& previous.connected
    &&& s.device_label == previous.device_label
    &&& timestamps_within(previous.updated_at, s.updated_at, smoothing_window())
    &&& s.level >= previous.level + 30
    &&& level_distance(previous.level, s.level / 2) <= 10
}

/// The note appended to the status of a smoothed reading.
pub open spec fn smoothing_note() -> Seq<char> {
    " Niveau normalise pendant la charge."@
}

/// The snapshot after smoothing: a doubled reading (see
/// `is_doubled_reading`) gets half its level and a note in its status;
/// every other snapshot stays as it is.
pub open spec fn normalized_snapshot(s: SnapshotModel, previous: SnapshotModel) -> SnapshotModel {
    if is_doubled_reading(s, previous) {
        SnapshotModel { level: s.level / 2, status: s.status + smoothing_note(), ..s }
    } else {
        s
    }
}

/// Halves the level of a doubled reading taken while charging and notes it
/// in the status, comparing with the previous snapshot.
pub fn normalize_snapshot_level(snapshot: &mut BatterySnapshot, previous_snapshot: &BatterySnapshot)
    ensures
        final(snapshot)@ == normalized_snapshot(old(snapshot)@, previous_snapshot@),
{
    if !snapshot.connected || !snapshot.is_charging || !previous_snapshot.connected {
        return;
    }
    if !str_equal(snapshot.device_label.as_str(), previous_snapshot.device_label.as_str()) {
        return;
    }
    if !snapshots_are_recent(previous_snapshot, snapshot, 15 * 60) {
        return;
    }
    let halved_level = snapshot.level / 2;
    let jump = snapshot.level.saturating_sub(previous_snapshot.level);
    let distance = if previous_snapshot.level >= halved_level {
        previous_snapshot.level - halved_level
    } else {
        halved_level - previous_snapshot.level
    };
    if jump >= 30 && distance <= 10 {
        snapshot.level = halved_level;
        snapshot.status.append(" Niveau normalise pendant la charge.");
    }
}

/// The snapshot a refresh stores after a scan: the scan's snapshot (a
/// failure report when the scan failed), smoothed against `latest`.
pub fn refreshed_snapshot(scan: Result<BatterySnapshot, String>, latest: &BatterySnapshot) -> (r:
    BatterySnapshot)
    ensures
        match scan {
            Ok(s) => r@ == normalized_snapshot(s@, latest@),
            Err(e) => {
                &&& !r@.connected
                &&& !r@.is_charging
                &&& r@.level == 0
                &&& r@.charge == 0
                &&& r@.voltage_decivolts == 0
                &&& r@.diagnostics.selected_candidate is None
                &&& r@.diagnostics.backend == "hid-scan"@
                &&& r@.status == e@
                &&& r@.device_label == "ATK device"@
                &&& is_timestamp(r@.updated_at)
                &&& r@.source == "hid-scan"@
                &&& r@.diagnostics.candidate_count == 0
                &&& r@.diagnostics.candidates.len() == 0
                &&& r@.diagnostics.last_error == Some(e@)
            },
        },
{
    let mut snapshot = match scan {
        Ok(s) => s,
        Err(error) => scan_failure_snapshot(error.as_str()),
    };
    normalize_snapshot_level(&mut snapshot, latest);
    snapshot
}

/// Smoothing is stable: a smoothed snapshot compared with the same previous
/// snapshot is left as it is.
pub proof fn lemma_normalize_idempotent(s: SnapshotModel, previous: SnapshotModel)
    ensures
        normalized_snapshot(normalized_snapshot(s, previous), previous) == normalized_snapshot(
            s,
            previous,
        ),
{
}

/// Smoothing never raises the level, and changes nothing but the level and
/// the status.
pub proof fn lemma_normalize_never_raises(s: SnapshotModel, previous: SnapshotModel)
    ensures
        normalized_snapshot(s, previous).level <= s.level,
        normalized_snapshot(s, previous).connected == s.connected,
        normalized_snapshot(s, previous).is_charging == s.is_charging,
        normalized_snapshot(s, previous).device_label == s.device_label,
        normalized_snapshot(s, previous).updated_at == s.updated_at,
        normalized_snapshot(s, previous).diagnostics == s.diagnostics,
{
}

/// A reading taken while charging that jumps to about twice the previous
/// connected reading of the same device, at most 900 seconds later, is
/// halved and noted, whether or not the previous reading was charging
/// (the jump shows when the mouse is plugged in).
pub proof fn lemma_doubled_charging_reading_is_halved(
    s: SnapshotModel,
    previous: SnapshotModel,
    earlier: u64,
    later: u64,
)
    requires
        s.connected,
        s.is_charging,
        previous.connected,
        s.device_label == previous.device_label,
        previous.updated_at == decimal(earlier as nat),
        s.updated_at == decimal(later as nat),
        earlier <= later <= earlier + 900,
        s.level >= previous.level + 30,
        previous.level <= s.level / 2 + 10,
        s.level / 2 <= previous.level + 10,
    ensures
        normalized_snapshot(s, previous).level == s.level / 2,
        normalized_snapshot(s, previous).status == s.status
            + " Niveau normalise pendant la charge."@,
        normalized_snapshot(s, previous).connected,
        normalized_snapshot(s, previous).is_charging,
{
    lemma_timestamps_within(earlier, later, 900);
}

/// Only large jumps to about twice the previous level are smoothed: a rise
/// of less than 30, a half more than 10 away from the previous level, a
/// different device, or a previous reading that was not connected leaves
/// the snapshot as it is.
pub proof fn lemma_other_readings_kept(s: SnapshotModel, previous: SnapshotModel)
    requires
        s.level < previous.level + 30 || previous.level > s.level / 2 + 10 || s.level / 2
            > previous.level + 10 || s.device_label != previous.device_label
            || !previous.connected,
    ensures
        normalized_snapshot(s, previous) == s,
{
}

/// A snapshot that is not a connected charging reading is never smoothed.
pub proof fn lemma_normalize_only_charging(s: SnapshotModel, previous: SnapshotModel)
    requires
        !s.connected || !s.is_charging || !previous.connected,
    ensures
        normalized_snapshot(s, previous) == s,
{
}

/// Library time stamps always read back as numbers, so two of them are
/// within a gap exactly when the second is at most that many seconds
/// after the first.
pub proof fn lemma_timestamps_within(earlier: u64, later: u64, max_gap: u64)
    ensures
        timestamps_within(decimal(earlier as nat), decimal(later as nat), max_gap) == ((if later
            >= earlier {
            later - earlier
        } else {
            0
        }) <= max_gap),
{
    lemma_parse_decimal_roundtrip(earlier);
    lemma_parse_decimal_roundtrip(later);
}

} // verus!
