//! The telemetry normalizer: turns a status payload into a snapshot of
//! uniform device records. Every telemetry value is held in thousandths.
use vstd::prelude::*;
use crate::decimal::{number_milli, parse_milli};
use crate::health::{Health, spec_parse_health, worst_of, worst_of_seq};
use crate::json::{Json, json_text_ok, json_tree_of, parse_json, deref_opt, opt_at, opt_field, opt_first, opt_first_value, opt_get, opt_item, spec_elements, spec_field, spec_first_value, spec_text};
use crate::text::{contains, seq_contains, text_eq};

verus! {

/// Hardware generation of a device; decides which telemetry applies.
#[derive(Clone, Copy, Debug, PartialEq, Eq, Structural)]
pub enum Variant {
    /// Cards with a board temperature and two regulator phases.
    TypeA,
    /// Cards without a board temperature.
    TypeB,
}

/// Why a payload produced no snapshot.
#[derive(Debug)]
pub enum ParseError {
    /// The text is not JSON, or a required field is missing or not a number.
    Malformed,
    /// The backend reports a version that this viewer does not support.
    UnsupportedVersion(String),
}

/// One on-die sensor monitor.
#[derive(Clone, Copy, Debug, PartialEq, Eq, Structural)]
pub struct SysMon {
    pub health: Health,
    pub temperature: i128,
    pub vccaux: i128,
    pub vccbram: i128,
    pub vccint: i128,
}

/// The sensor monitors of a device.
#[derive(Debug)]
pub struct SysMons {
    pub sysmon: Vec<SysMon>,
}

/// Clock health of a compute core.
#[derive(Clone, Copy, Debug, PartialEq, Eq, Structural)]
pub struct Clock {
    pub bad_nonces: i128,
    pub health: Health,
    pub multiplier: i128,
    pub total_nonces: i128,
}

/// One counter set of work statistics; the timestamps are seconds since the
/// epoch and are only carried by lifetime totals.
#[derive(Clone, Copy, Debug, PartialEq, Eq, Structural)]
pub struct StatDetail {
    pub accepted: i128,
    pub calculated: i128,
    pub end_time: i128,
    pub found: i128,
    pub requested: i128,
    pub start_time: i128,
    pub submitted: i128,
    pub valid: i128,
}

/// Work statistics: a name, the last minute, and the lifetime totals.
#[derive(Debug)]
pub struct Stats {
    pub minute: StatDetail,
    pub name: String,
    pub total: StatDetail,
}

/// A compute core.
#[derive(Debug)]
pub struct Core {
    pub clock: Clock,
    pub stats: Stats,
}

/// The compute cores of a device.
#[derive(Debug)]
pub struct Cores {
    pub cores: Vec<Core>,
}

/// One device record.
#[derive(Debug)]
pub struct Worker {
    pub name: String,
    pub dna: String,
    pub hw_type: Variant,
    pub worse_health: Health,
    pub input_power: i128,
    pub input_power_health: Health,
    pub aux_current: i128,
    pub aux_current_health: Health,
    pub pex_current: i128,
    pub pex_current_health: Health,
    pub aux_12v: i128,
    pub aux_12v_health: Health,
    pub pex_12v: i128,
    pub pex_12v_health: Health,
    pub vccint: i128,
    pub vccint_current: i128,
    pub vccint_current_health: Health,
    pub vrctrl_temp: i128,
    pub vrctrl_temp_health: Option<Health>,
    pub phase0_status_global: u32,
    pub phase0_temperature: i128,
    pub phase0_temperature_health: Option<Health>,
    pub phase0_vout: i128,
    pub phase1_status_global: u32,
    pub phase1_temperature: i128,
    pub phase1_temperature_health: Option<Health>,
    pub phase1_vout: i128,
    pub sysmons: SysMons,
    pub cores: Cores,
    pub fee: Algo,
    pub worksource: Algo,
}

/// A snapshot: the backend's label and the device records, in payload order.
#[derive(Debug)]
pub struct WebData {
    pub minerator: String,
    pub workers: Vec<Worker>,
}

/// An accounting block (fee or work source).
#[derive(Debug)]
pub struct Algo {
    pub difficulty: i128,
    pub stats: Stats,
}

impl StatDetail {
    /// A counter set of zeros.
    pub fn new() -> (r: StatDetail)
        ensures
            r == spec_zero_detail(),
    {
        StatDetail {
            accepted: 0,
            calculated: 0,
            end_time: 0,
            found: 0,
            requested: 0,
            start_time: 0,
            submitted: 0,
            valid: 0,
        }
    }
}

pub open spec fn spec_zero_detail() -> StatDetail {
    StatDetail {
        accepted: 0,
        calculated: 0,
        end_time: 0,
        found: 0,
        requested: 0,
        start_time: 0,
        submitted: 0,
        valid: 0,
    }
}

/// `a` is the zeroed accounting block named "None".
pub open spec fn is_default_algo(a: Algo) -> bool {
    a.difficulty == 0 && a.stats.name@ == "None"@ && a.stats.minute == spec_zero_detail()
        && a.stats.total == spec_zero_detail()
}

impl Algo {
    /// The zeroed accounting block used when a payload has none.
    pub fn new() -> (r: Algo)
        ensures
            is_default_algo(r),
    {
        Algo {
            difficulty: 0,
            stats: Stats {
                minute: StatDetail::new(),
                name: String::from_str("None"),
                total: StatDetail::new(),
            },
        }
    }

    /// A copy equal to `self`.
    pub fn copied(&self) -> (r: Algo)
        ensures
            r == *self,
    {
        Algo {
            difficulty: self.difficulty,
            stats: Stats {
                minute: self.stats.minute,
                name: self.stats.name.clone(),
                total: self.stats.total,
            },
        }
    }
}

// ---- reading leaves ----

/// The value, in thousandths, of a number.
pub open spec fn json_num(j: Option<Json>) -> Option<int> {
    match j {
        Some(Json::Number(t)) => number_milli(t@),
        _ => None,
    }
}

/// `json_num`, or zero where there is none.
pub open spec fn num_val(j: Option<Json>) -> i128 {
    match json_num(j) {
        Some(v) => v as i128,
        None => 0,
    }
}

/// The health level a string field denotes; `RampUp` when it is absent or
/// not a string.
pub open spec fn health_at(j: Option<Json>) -> Health {
    match spec_text(j) {
        Some(s) => spec_parse_health(s),
        None => Health::RampUp,
    }
}

/// A number that is a whole value between 0 and `u32::MAX`.
pub open spec fn json_u32(j: Option<Json>) -> Option<u32> {
    match json_num(j) {
        Some(v) => if v >= 0 && v % 1000 == 0 && v / 1000 <= u32::MAX {
            Some((v / 1000) as u32)
        } else {
            None
        },
        None => None,
    }
}

fn read_num(j: Option<&Json>) -> (r: Option<i128>)
    ensures
        r is Some <==> json_num(deref_opt(j)) is Some,
        r is Some ==> r->0 == num_val(deref_opt(j)),
        r matches Some(v) ==> json_num(deref_opt(j)) == Some(v as int),
{
    match j {
        Some(Json::Number(t)) => parse_milli(t.as_str()),
        _ => None,
    }
}

fn read_u32(j: Option<&Json>) -> (r: Option<u32>)
    ensures
        r == json_u32(deref_opt(j)),
{
    match read_num(j) {
        Some(v) => if v >= 0 && v % 1000 == 0 && v / 1000 <= 0xffff_ffff {
            Some((v / 1000) as u32)
        } else {
            None
        },
        None => None,
    }
}

fn read_health(j: Option<&Json>) -> (r: Health)
    ensures
        r == health_at(deref_opt(j)),
{
    match j {
        Some(Json::Str(s)) => Health::parse(s.as_str()),
        _ => Health::RampUp,
    }
}

fn read_text(j: Option<&Json>) -> (r: Option<String>)
    ensures
        match r {
            Some(s) => spec_text(deref_opt(j)) == Some(s@),
            None => spec_text(deref_opt(j)) is None,
        },
{
    match j {
        Some(Json::Str(s)) => Some(s.clone()),
        _ => None,
    }
}

// ---- counter sets, clocks, sensors ----

/// The counter set at `j` has all six counters, and the two timestamps too
/// where `timed`.
pub open spec fn detail_ok(j: Option<Json>, timed: bool) -> bool {
    &&& json_num(opt_field(j, "accepted"@)) is Some
    &&& json_num(opt_field(j, "calculated"@)) is Some
    &&& json_num(opt_field(j, "found"@)) is Some
    &&& json_num(opt_field(j, "requested"@)) is Some
    &&& json_num(opt_field(j, "submitted"@)) is Some
    &&& json_num(opt_field(j, "valid"@)) is Some
    &&& timed ==> json_num(opt_field(j, "startTime"@)) is Some
    &&& timed ==> json_num(opt_field(j, "endTime"@)) is Some
}

/// The counter set at `j`; timestamps are zero unless `timed`.
pub open spec fn spec_detail(j: Option<Json>, timed: bool) -> StatDetail {
    StatDetail {
        accepted: num_val(opt_field(j, "accepted"@)),
        calculated: num_val(opt_field(j, "calculated"@)),
        end_time: if timed {
            num_val(opt_field(j, "endTime"@))
        } else {
            0
        },
        found: num_val(opt_field(j, "found"@)),
        requested: num_val(opt_field(j, "requested"@)),
        start_time: if timed {
            num_val(opt_field(j, "startTime"@))
        } else {
            0
        },
        submitted: num_val(opt_field(j, "submitted"@)),
        valid: num_val(opt_field(j, "valid"@)),
    }
}

fn read_detail(j: Option<&Json>, timed: bool) -> (r: Option<StatDetail>)
    ensures
        r is Some <==> detail_ok(deref_opt(j), timed),
        r is Some ==> r->0 == spec_detail(deref_opt(j), timed),
{
    let accepted = match read_num(opt_get(j, "accepted")) {
        Some(v) => v,
        None => return None,
    };
    let calculated = match read_num(opt_get(j, "calculated")) {
        Some(v) => v,
        None => return None,
    };
    let found = match read_num(opt_get(j, "found")) {
        Some(v) => v,
        None => return None,
    };
    let requested = match read_num(opt_get(j, "requested")) {
        Some(v) => v,
        None => return None,
    };
    let submitted = match read_num(opt_get(j, "submitted")) {
        Some(v) => v,
        None => return None,
    };
    let valid = match read_num(opt_get(j, "valid")) {
        Some(v) => v,
        None => return None,
    };
    let mut start_time: i128 = 0;
    let mut end_time: i128 = 0;
    if timed {
        start_time = match read_num(opt_get(j, "startTime")) {
            Some(v) => v,
            None => return None,
        };
        end_time = match read_num(opt_get(j, "endTime")) {
            Some(v) => v,
            None => return None,
        };
    }
    Some(StatDetail { accepted, calculated, end_time, found, requested, start_time, submitted, valid })
}

/// The clock block at `j` has its three counters.
pub open spec fn clock_ok(j: Option<Json>) -> bool {
    &&& json_num(opt_field(j, "badNonces"@)) is Some
    &&& json_num(opt_field(j, "multiplier"@)) is Some
    &&& json_num(opt_field(j, "totalNonces"@)) is Some
}

pub open spec fn spec_clock(j: Option<Json>) -> Clock {
    Clock {
        bad_nonces: num_val(opt_field(j, "badNonces"@)),
        health: health_at(opt_field(j, "health"@)),
        multiplier: num_val(opt_field(j, "multiplier"@)),
        total_nonces: num_val(opt_field(j, "totalNonces"@)),
    }
}

fn read_clock(j: Option<&Json>) -> (r: Option<Clock>)
    ensures
        r is Some <==> clock_ok(deref_opt(j)),
        r is Some ==> r->0 == spec_clock(deref_opt(j)),
{
    let bad_nonces = match read_num(opt_get(j, "badNonces")) {
        Some(v) => v,
        None => return None,
    };
    let multiplier = match read_num(opt_get(j, "multiplier")) {
        Some(v) => v,
        None => return None,
    };
    let total_nonces = match read_num(opt_get(j, "totalNonces")) {
        Some(v) => v,
        None => return None,
    };
    let health = read_health(opt_get(j, "health"));
    Some(Clock { bad_nonces, health, multiplier, total_nonces })
}

/// The sensor monitor at `j` has its temperature and three voltages.
pub open spec fn sysmon_ok(j: Option<Json>) -> bool {
    &&& json_num(opt_field(j, "temperature"@)) is Some
    &&& json_num(opt_field(j, "vccaux"@)) is Some
    &&& json_num(opt_field(j, "vccbram"@)) is Some
    &&& json_num(opt_field(j, "vccint"@)) is Some
}

pub open spec fn spec_sysmon(j: Option<Json>) -> SysMon {
    SysMon {
        health: health_at(opt_field(j, "health"@)),
        temperature: num_val(opt_field(j, "temperature"@)),
        vccaux: num_val(opt_field(j, "vccaux"@)),
        vccbram: num_val(opt_field(j, "vccbram"@)),
        vccint: num_val(opt_field(j, "vccint"@)),
    }
}

fn read_sysmon(j: Option<&Json>) -> (r: Option<SysMon>)
    ensures
        r is Some <==> sysmon_ok(deref_opt(j)),
        r is Some ==> r->0 == spec_sysmon(deref_opt(j)),
{
    let temperature = match read_num(opt_get(j, "temperature")) {
        Some(v) => v,
        None => return None,
    };
    let vccaux = match read_num(opt_get(j, "vccaux")) {
        Some(v) => v,
        None => return None,
    };
    let vccbram = match read_num(opt_get(j, "vccbram")) {
        Some(v) => v,
        None => return None,
    };
    let vccint = match read_num(opt_get(j, "vccint")) {
        Some(v) => v,
        None => return None,
    };
    let health = read_health(opt_get(j, "health"));
    Some(SysMon { health, temperature, vccaux, vccbram, vccint })
}

/// The statistics block at `j` has a name, a last-minute counter set and a
/// timed lifetime counter set.
pub open spec fn stats_ok(j: Option<Json>) -> bool {
    &&& spec_text(opt_field(j, "name"@)) is Some
    &&& detail_ok(opt_field(j, "minute"@), false)
    &&& detail_ok(opt_field(j, "total"@), true)
}

/// `s` holds what the statistics block at `j` says.
pub open spec fn stats_matches(s: Stats, j: Option<Json>) -> bool {
    &&& spec_text(opt_field(j, "name"@)) == Some(s.name@)
    &&& s.minute == spec_detail(opt_field(j, "minute"@), false)
    &&& s.total == spec_detail(opt_field(j, "total"@), true)
}

fn read_stats(j: Option<&Json>) -> (r: Option<Stats>)
    ensures
        r is Some <==> stats_ok(deref_opt(j)),
        r matches Some(s) ==> stats_matches(s, deref_opt(j)),
{
    let name = match read_text(opt_get(j, "name")) {
        Some(v) => v,
        None => return None,
    };
    let minute = match read_detail(opt_get(j, "minute"), false) {
        Some(v) => v,
        None => return None,
    };
    let total = match read_detail(opt_get(j, "total"), true) {
        Some(v) => v,
        None => return None,
    };
    Some(Stats { minute, name, total })
}

/// The accounting block at `j` has a difficulty and statistics.
pub open spec fn algo_ok(j: Option<Json>) -> bool {
    json_num(opt_field(j, "difficulty"@)) is Some && stats_ok(opt_field(j, "stats"@))
}

pub open spec fn algo_matches(a: Algo, j: Option<Json>) -> bool {
    a.difficulty == num_val(opt_field(j, "difficulty"@)) && stats_matches(
        a.stats,
        opt_field(j, "stats"@),
    )
}

fn read_algo(j: Option<&Json>) -> (r: Option<Algo>)
    ensures
        r is Some <==> algo_ok(deref_opt(j)),
        r matches Some(a) ==> algo_matches(a, deref_opt(j)),
{
    let difficulty = match read_num(opt_get(j, "difficulty")) {
        Some(v) => v,
        None => return None,
    };
    let stats = match read_stats(opt_get(j, "stats")) {
        Some(v) => v,
        None => return None,
    };
    Some(Algo { difficulty, stats })
}

/// The compute core at `j` has a clock block and statistics.
pub open spec fn core_ok(j: Option<Json>) -> bool {
    clock_ok(opt_field(j, "clock"@)) && stats_ok(opt_field(j, "stats"@))
}

pub open spec fn core_matches(c: Core, j: Option<Json>) -> bool {
    c.clock == spec_clock(opt_field(j, "clock"@)) && stats_matches(c.stats, opt_field(j, "stats"@))
}

fn read_core(j: Option<&Json>) -> (r: Option<Core>)
    ensures
        r is Some <==> core_ok(deref_opt(j)),
        r matches Some(c) ==> core_matches(c, deref_opt(j)),
{
    let clock = match read_clock(opt_get(j, "clock")) {
        Some(v) => v,
        None => return None,
    };
    let stats = match read_stats(opt_get(j, "stats")) {
        Some(v) => v,
        None => return None,
    };
    Some(Core { clock, stats })
}

// ---- lists ----

/// `j` is an array whose every element is a complete sensor monitor.
pub open spec fn sysmons_ok(j: Option<Json>) -> bool {
    match spec_elements(j) {
        Some(es) => forall|i: int| 0 <= i < es.len() ==> sysmon_ok(Some(#[trigger] es[i])),
        None => false,
    }
}

pub open spec fn sysmons_match(m: SysMons, j: Option<Json>) -> bool {
    match spec_elements(j) {
        Some(es) => m.sysmon@.len() == es.len() && forall|i: int|
            0 <= i < es.len() ==> m.sysmon@[i] == spec_sysmon(Some(#[trigger] es[i])),
        None => false,
    }
}

fn read_sysmons(j: Option<&Json>) -> (r: Option<SysMons>)
    ensures
        r is Some <==> sysmons_ok(deref_opt(j)),
        r matches Some(m) ==> sysmons_match(m, deref_opt(j)),
{
    match j {
        Some(Json::Array(es)) => {
            let mut out: Vec<SysMon> = Vec::new();
            let mut i: usize = 0;
            while i < es.len()
                invariant
                    i <= es@.len(),
                    spec_elements(deref_opt(j)) == Some(es@),
                    out@.len() == i,
                    forall|k: int| 0 <= k < i ==> sysmon_ok(Some(#[trigger] es@[k])),
                    forall|k: int| 0 <= k < i ==> out@[k] == spec_sysmon(Some(#[trigger] es@[k])),
                decreases es@.len() - i,
            {
                match read_sysmon(Some(&es[i])) {
                    Some(m) => out.push(m),
                    None => {
                        assert(!sysmons_ok(deref_opt(j))) by {
                            let e2 = spec_elements(deref_opt(j))->0;
                            assert(e2 == es@);
                            assert(!sysmon_ok(Some(e2[i as int])));
                        }
                        return None;
                    },
                }
                i = i + 1;
            }
            Some(SysMons { sysmon: out })
        },
        _ => None,
    }
}

/// `j` is a non-empty array whose every element is a complete core.
pub open spec fn cores_ok(j: Option<Json>) -> bool {
    match spec_elements(j) {
        Some(es) => es.len() > 0 && forall|i: int| 0 <= i < es.len() ==> core_ok(Some(#[trigger] es[i])),
        None => false,
    }
}

pub open spec fn cores_match(c: Cores, j: Option<Json>) -> bool {
    match spec_elements(j) {
        Some(es) => c.cores@.len() == es.len() && forall|i: int|
            0 <= i < es.len() ==> core_matches(#[trigger] c.cores@[i], Some(es[i])),
        None => false,
    }
}

fn read_cores(j: Option<&Json>) -> (r: Option<Cores>)
    ensures
        r is Some <==> cores_ok(deref_opt(j)),
        r matches Some(c) ==> cores_match(c, deref_opt(j)),
{
    match j {
        Some(Json::Array(es)) => {
            if es.len() == 0 {
                return None;
            }
            let mut out: Vec<Core> = Vec::new();
            let mut i: usize = 0;
            while i < es.len()
                invariant
                    i <= es@.len(),
                    spec_elements(deref_opt(j)) == Some(es@),
                    out@.len() == i,
                    forall|k: int| 0 <= k < i ==> core_ok(Some(#[trigger] es@[k])),
                    forall|k: int| 0 <= k < i ==> core_matches(#[trigger] out@[k], Some(es@[k])),
                decreases es@.len() - i,
            {
                match read_core(Some(&es[i])) {
                    Some(c) => out.push(c),
                    None => {
                        assert(!core_ok(Some(es@[i as int])));
                        return None;
                    },
                }
                i = i + 1;
            }
            Some(Cores { cores: out })
        },
        _ => None,
    }
}

// ---- devices ----

/// The hardware-type code of TypeB cards.
pub const HWTYPE_CODE_B: &'static str = "4277c013";

/// The hardware-type code of TypeA cards.
pub const HWTYPE_CODE_A: &'static str = "69581525";

pub open spec fn bmc(w: Json) -> Option<Json> {
    spec_field(w, "bmc"@)
}

/// An electrical reading of the board-management block.
pub open spec fn adc(w: Json, key: Seq<char>) -> Option<Json> {
    opt_field(opt_field(bmc(w), "adc"@), key)
}

/// A health string of the board-management block, as a level.
pub open spec fn health_of(w: Json, key: Seq<char>) -> Health {
    health_at(opt_field(opt_field(bmc(w), "health"@), key))
}

/// Field `key` of regulator phase `i`.
pub open spec fn phase(w: Json, i: int, key: Seq<char>) -> Option<Json> {
    opt_field(opt_item(opt_field(bmc(w), "phases"@), i), key)
}

/// The device reports no board temperature (absent or null).
pub open spec fn board_temp_absent(w: Json) -> bool {
    match opt_field(bmc(w), "temperature"@) {
        None => true,
        Some(Json::Null) => true,
        _ => false,
    }
}

/// The variant of a device: by its hardware-type code where that is known,
/// else TypeB exactly when the board temperature is absent.
pub open spec fn spec_variant(w: Json) -> Variant {
    let code = spec_text(spec_field(w, "hwType"@));
    if code == Some(HWTYPE_CODE_B@) {
        Variant::TypeB
    } else if code == Some(HWTYPE_CODE_A@) {
        Variant::TypeA
    } else if board_temp_absent(w) {
        Variant::TypeB
    } else {
        Variant::TypeA
    }
}

/// The identity of a device: its `dna` where that is a non-empty string,
/// else its `hwUID`.
pub open spec fn spec_id(w: Json) -> Option<Seq<char>> {
    match spec_text(spec_field(w, "dna"@)) {
        Some(d) => if d.len() > 0 {
            Some(d)
        } else {
            spec_text(spec_field(w, "hwUID"@))
        },
        None => spec_text(spec_field(w, "hwUID"@)),
    }
}

/// Regulator phase `i` has its status word, temperature and output voltage.
pub open spec fn phase_ok(w: Json, i: int) -> bool {
    &&& json_u32(phase(w, i, "statusGlobal"@)) is Some
    &&& json_num(phase(w, i, "temperature"@)) is Some
    &&& json_num(phase(w, i, "vout"@)) is Some
}

/// Every field that a device record requires is present and well-typed.
#[verifier::opaque]
pub open spec fn worker_ok(w: Json) -> bool {
    &&& spec_text(spec_field(w, "name"@)) is Some
    &&& spec_id(w) is Some
    &&& json_num(adc(w, "inputPower"@)) is Some
    &&& json_num(adc(w, "aux12VCurrent"@)) is Some
    &&& json_num(adc(w, "pex12VCurrent"@)) is Some
    &&& json_num(adc(w, "aux12V"@)) is Some
    &&& json_num(adc(w, "pex12V"@)) is Some
    &&& json_num(adc(w, "vccint"@)) is Some
    &&& json_num(adc(w, "vccintCurrent"@)) is Some
    &&& spec_variant(w) == Variant::TypeA ==> {
        &&& json_num(opt_field(bmc(w), "temperature"@)) is Some
        &&& phase_ok(w, 0)
        &&& phase_ok(w, 1)
    }
    &&& sysmons_ok(spec_field(w, "sysmon"@))
    &&& cores_ok(spec_field(w, "cores"@))
}

pub open spec fn opt_seq(h: Option<Health>) -> Seq<Health> {
    match h {
        Some(x) => seq![x],
        None => Seq::empty(),
    }
}

/// The health levels that make up a device's worst health: the six rail
/// levels, the first core's clock level, and the regulator levels that the
/// variant has.
pub open spec fn device_healths(d: Worker) -> Seq<Health> {
    seq![
        d.input_power_health,
        d.aux_current_health,
        d.pex_current_health,
        d.aux_12v_health,
        d.pex_12v_health,
        d.vccint_current_health,
        d.cores.cores@[0].clock.health,
    ] + opt_seq(d.vrctrl_temp_health) + opt_seq(d.phase0_temperature_health) + opt_seq(
        d.phase1_temperature_health,
    )
}

/// The record's regulator fields: read for TypeA, zero with no health for TypeB.
pub open spec fn regulators_match(d: Worker, w: Json) -> bool {
    if spec_variant(w) == Variant::TypeA {
        &&& d.vrctrl_temp == num_val(opt_field(bmc(w), "temperature"@))
        &&& d.vrctrl_temp_health == Some(health_of(w, "vrCtrl"@))
        &&& Some(d.phase0_status_global) == json_u32(phase(w, 0, "statusGlobal"@))
        &&& d.phase0_temperature == num_val(phase(w, 0, "temperature"@))
        &&& d.phase0_vout == num_val(phase(w, 0, "vout"@))
        &&& Some(d.phase1_status_global) == json_u32(phase(w, 1, "statusGlobal"@))
        &&& d.phase1_temperature == num_val(phase(w, 1, "temperature"@))
        &&& d.phase1_vout == num_val(phase(w, 1, "vout"@))
        &&& d.phase0_temperature_health == Some(health_of(w, "vrPower"@))
        &&& d.phase1_temperature_health == Some(health_of(w, "vrPower"@))
    } else {
        &&& d.vrctrl_temp == 0 && d.vrctrl_temp_health is None
        &&& d.phase0_status_global == 0 && d.phase0_temperature == 0 && d.phase0_vout == 0
        &&& d.phase1_status_global == 0 && d.phase1_temperature == 0 && d.phase1_vout == 0
        &&& d.phase0_temperature_health is None && d.phase1_temperature_health is None
    }
}

/// `d` is the record of the device entry `w`, carrying the shared
/// accounting blocks `fee` and `ws`.
#[verifier::opaque]
pub open spec fn worker_matches(d: Worker, w: Json, fee: Algo, ws: Algo) -> bool {
    &&& spec_text(spec_field(w, "name"@)) == Some(d.name@)
    &&& spec_id(w) == Some(d.dna@)
    &&& d.hw_type == spec_variant(w)
    &&& d.input_power == num_val(adc(w, "inputPower"@))
    &&& d.aux_current == num_val(adc(w, "aux12VCurrent"@))
    &&& d.pex_current == num_val(adc(w, "pex12VCurrent"@))
    &&& d.aux_12v == num_val(adc(w, "aux12V"@))
    &&& d.pex_12v == num_val(adc(w, "pex12V"@))
    &&& d.vccint == num_val(adc(w, "vccint"@))
    &&& d.vccint_current == num_val(adc(w, "vccintCurrent"@))
    &&& d.input_power_health == health_of(w, "inputPower"@)
    &&& d.aux_current_health == health_of(w, "inputCurrentAUX"@)
    &&& d.pex_current_health == health_of(w, "inputCurrentPEX"@)
    &&& d.aux_12v_health == health_of(w, "inputVoltageAUX"@)
    &&& d.pex_12v_health == health_of(w, "inputVoltagePEX"@)
    &&& d.vccint_current_health == health_of(w, "vccintCurrent"@)
    &&& regulators_match(d, w)
    &&& sysmons_match(d.sysmons, spec_field(w, "sysmon"@))
    &&& cores_match(d.cores, spec_field(w, "cores"@))
    &&& d.cores.cores@.len() > 0
    &&& d.fee == fee
    &&& d.worksource == ws
    &&& d.worse_health == worst_of_seq(device_healths(d))
}

/// Determines the variant of a device entry.
pub fn detect_variant(w: &Json) -> (r: Variant)
    ensures
        r == spec_variant(*w),
{
    match w.field("hwType") {
        Some(Json::Str(code)) => {
            if text_eq(code.as_str(), HWTYPE_CODE_B) {
                return Variant::TypeB;
            } else if text_eq(code.as_str(), HWTYPE_CODE_A) {
                return Variant::TypeA;
            }
        },
        _ => {},
    }
    match opt_get(w.field("bmc"), "temperature") {
        None => Variant::TypeB,
        Some(Json::Null) => Variant::TypeB,
        _ => Variant::TypeA,
    }
}

fn read_id(w: &Json) -> (r: Option<String>)
    ensures
        match r {
            Some(s) => spec_id(*w) == Some(s@),
            None => spec_id(*w) is None,
        },
{
    match read_text(w.field("dna")) {
        Some(d) => if d.as_str().unicode_len() > 0 {
            return Some(d);
        },
        None => {},
    }
    read_text(w.field("hwUID"))
}

fn read_phase(w: &Json, i: usize) -> (r: Option<(u32, i128, i128)>)
    ensures
        r is Some <==> phase_ok(*w, i as int),
        r matches Some((sg, t, v)) ==> {
            &&& Some(sg) == json_u32(phase(*w, i as int, "statusGlobal"@))
            &&& t == num_val(phase(*w, i as int, "temperature"@))
            &&& v == num_val(phase(*w, i as int, "vout"@))
        },
{
    let p = opt_at(opt_get(w.field("bmc"), "phases"), i);
    let sg = match read_u32(opt_get(p, "statusGlobal")) {
        Some(v) => v,
        None => return None,
    };
    let t = match read_num(opt_get(p, "temperature")) {
        Some(v) => v,
        None => return None,
    };
    let v = match read_num(opt_get(p, "vout")) {
        Some(v) => v,
        None => return None,
    };
    Some((sg, t, v))
}

/// The worst of the health levels that `device_healths` lists.
#[verifier::rlimit(80)]
fn worst_health_of(d: &Worker) -> (r: Health)
    requires
        d.cores.cores@.len() > 0,
    ensures
        r == worst_of_seq(device_healths(*d)),
{
    let mut hs: Vec<Health> = Vec::new();
    hs.push(d.input_power_health);
    hs.push(d.aux_current_health);
    hs.push(d.pex_current_health);
    hs.push(d.aux_12v_health);
    hs.push(d.pex_12v_health);
    hs.push(d.vccint_current_health);
    hs.push(d.cores.cores[0].clock.health);
    let ghost base = hs@;
    assert(base =~= seq![
        d.input_power_health,
        d.aux_current_health,
        d.pex_current_health,
        d.aux_12v_health,
        d.pex_12v_health,
        d.vccint_current_health,
        d.cores.cores@[0].clock.health,
    ]);
    match d.vrctrl_temp_health {
        Some(h) => hs.push(h),
        None => {},
    }
    let ghost b1 = hs@;
    assert(b1 =~= base + opt_seq(d.vrctrl_temp_health));
    match d.phase0_temperature_health {
        Some(h) => hs.push(h),
        None => {},
    }
    let ghost b2 = hs@;
    assert(b2 =~= b1 + opt_seq(d.phase0_temperature_health));
    match d.phase1_temperature_health {
        Some(h) => hs.push(h),
        None => {},
    }
    assert(hs@ =~= b2 + opt_seq(d.phase1_temperature_health));
    assert(hs@ =~= device_healths(*d));
    worst_of(&hs)
}

/// The seven electrical readings of a device, in the order of `Worker`'s
/// fields: input power, the two auxiliary currents, the two auxiliary
/// voltages, core voltage and core current.
fn read_rails(w: &Json) -> (r: Option<(i128, i128, i128, i128, i128, i128, i128)>)
    ensures
        r is Some <==> {
            &&& json_num(adc(*w, "inputPower"@)) is Some
            &&& json_num(adc(*w, "aux12VCurrent"@)) is Some
            &&& json_num(adc(*w, "pex12VCurrent"@)) is Some
            &&& json_num(adc(*w, "aux12V"@)) is Some
            &&& json_num(adc(*w, "pex12V"@)) is Some
            &&& json_num(adc(*w, "vccint"@)) is Some
            &&& json_num(adc(*w, "vccintCurrent"@)) is Some
        },
        r matches Some((a, b, c, d, e, f, g)) ==> {
            &&& a == num_val(adc(*w, "inputPower"@))
            &&& b == num_val(adc(*w, "aux12VCurrent"@))
            &&& c == num_val(adc(*w, "pex12VCurrent"@))
            &&& d == num_val(adc(*w, "aux12V"@))
            &&& e == num_val(adc(*w, "pex12V"@))
            &&& f == num_val(adc(*w, "vccint"@))
            &&& g == num_val(adc(*w, "vccintCurrent"@))
        },
{
    let adc = opt_get(w.field("bmc"), "adc");
    let a = match read_num(opt_get(adc, "inputPower")) {
        Some(v) => v,
        None => return None,
    };
    let b = match read_num(opt_get(adc, "aux12VCurrent")) {
        Some(v) => v,
        None => return None,
    };
    let c = match read_num(opt_get(adc, "pex12VCurrent")) {
        Some(v) => v,
        None => return None,
    };
    let d = match read_num(opt_get(adc, "aux12V")) {
        Some(v) => v,
        None => return None,
    };
    let e = match read_num(opt_get(adc, "pex12V")) {
        Some(v) => v,
        None => return None,
    };
    let f = match read_num(opt_get(adc, "vccint")) {
        Some(v) => v,
        None => return None,
    };
    let g = match read_num(opt_get(adc, "vccintCurrent")) {
        Some(v) => v,
        None => return None,
    };
    Some((a, b, c, d, e, f, g))
}

/// The regulator block of a TypeA device: board temperature, then status,
/// temperature and output voltage of each phase.
fn read_regulators(w: &Json) -> (r: Option<(i128, (u32, i128, i128), (u32, i128, i128))>)
    ensures
        r is Some <==> {
            &&& json_num(opt_field(bmc(*w), "temperature"@)) is Some
            &&& phase_ok(*w, 0)
            &&& phase_ok(*w, 1)
        },
        r matches Some((t, (sg0, t0, v0), (sg1, t1, v1))) ==> {
            &&& t == num_val(opt_field(bmc(*w), "temperature"@))
            &&& Some(sg0) == json_u32(phase(*w, 0, "statusGlobal"@))
            &&& t0 == num_val(phase(*w, 0, "temperature"@))
            &&& v0 == num_val(phase(*w, 0, "vout"@))
            &&& Some(sg1) == json_u32(phase(*w, 1, "statusGlobal"@))
            &&& t1 == num_val(phase(*w, 1, "temperature"@))
            &&& v1 == num_val(phase(*w, 1, "vout"@))
        },
{
    let t = match read_num(opt_get(w.field("bmc"), "temperature")) {
        Some(v) => v,
        None => return None,
    };
    let first_phase = match read_phase(w, 0) {
        Some(v) => v,
        None => return None,
    };
    let second_phase = match read_phase(w, 1) {
        Some(v) => v,
        None => return None,
    };
    Some((t, first_phase, second_phase))
}

/// Builds the record of one device entry, sharing the accounting blocks;
/// `None` when a required field is missing.
#[verifier::rlimit(100)]
fn read_worker(w: &Json, fee: &Algo, ws: &Algo) -> (r: Option<Worker>)
    ensures
        r is Some <==> worker_ok(*w),
        r matches Some(d) ==> worker_matches(d, *w, *fee, *ws),
        r matches Some(d) ==> d.fee == *fee && d.worksource == *ws,
{
    reveal(worker_ok);
    reveal(worker_matches);
    let name = match read_text(w.field("name")) {
        Some(v) => v,
        None => return None,
    };
    let dna = match read_id(w) {
        Some(v) => v,
        None => return None,
    };
    let (input_power, aux_current, pex_current, aux_12v, pex_12v, vccint, vccint_current) =
        match read_rails(w) {
        Some(v) => v,
        None => return None,
    };
    let hw_type = detect_variant(w);
    let health = opt_get(w.field("bmc"), "health");
    let mut vrctrl_temp: i128 = 0;
    let mut vrctrl_temp_health: Option<Health> = None;
    let mut first_phase: (u32, i128, i128) = (0, 0, 0);
    let mut second_phase: (u32, i128, i128) = (0, 0, 0);
    let mut phase_health: Option<Health> = None;
    if hw_type == Variant::TypeA {
        let (t, a, b) = match read_regulators(w) {
            Some(v) => v,
            None => return None,
        };
        vrctrl_temp = t;
        first_phase = a;
        second_phase = b;
        vrctrl_temp_health = Some(read_health(opt_get(health, "vrCtrl")));
        phase_health = Some(read_health(opt_get(health, "vrPower")));
    }
    let sysmons = match read_sysmons(w.field("sysmon")) {
        Some(v) => v,
        None => return None,
    };
    let cores = match read_cores(w.field("cores")) {
        Some(v) => v,
        None => return None,
    };
    let mut d = Worker {
        name,
        dna,
        hw_type,
        worse_health: Health::RampUp,
        input_power,
        input_power_health: read_health(opt_get(health, "inputPower")),
        aux_current,
        aux_current_health: read_health(opt_get(health, "inputCurrentAUX")),
        pex_current,
        pex_current_health: read_health(opt_get(health, "inputCurrentPEX")),
        aux_12v,
        aux_12v_health: read_health(opt_get(health, "inputVoltageAUX")),
        pex_12v,
        pex_12v_health: read_health(opt_get(health, "inputVoltagePEX")),
        vccint,
        vccint_current,
        vccint_current_health: read_health(opt_get(health, "vccintCurrent")),
        vrctrl_temp,
        vrctrl_temp_health,
        phase0_status_global: first_phase.0,
        phase0_temperature: first_phase.1,
        phase0_temperature_health: phase_health,
        phase0_vout: first_phase.2,
        phase1_status_global: second_phase.0,
        phase1_temperature: second_phase.1,
        phase1_temperature_health: phase_health,
        phase1_vout: second_phase.2,
        sysmons,
        cores,
        fee: fee.copied(),
        worksource: ws.copied(),
    };
    d.worse_health = worst_health_of(&d);
    Some(d)
}

// ---- snapshots ----

/// The backend label of a payload.
pub open spec fn spec_minerator(j: Json) -> Option<Seq<char>> {
    spec_text(spec_field(j, "minerator"@))
}

/// The fee accounting block: under `fee`, the first record of its fee list,
/// then the first entry of that record's algorithm object.
pub open spec fn fee_block(j: Json) -> Option<Json> {
    opt_first_value(
        opt_field(opt_item(opt_field(spec_field(j, "fee"@), "allmine-fee-v1"@), 0), "algo"@),
    )
}

/// The work-source accounting block: the first element of the first entry
/// of `worksources`.
pub open spec fn worksource_block(j: Json) -> Option<Json> {
    opt_item(opt_first_value(spec_field(j, "worksources"@)), 0)
}

/// The device entries: the `devices` array of the first entry of `workers`,
/// or none when that path is absent.
pub open spec fn device_entries(j: Json) -> Seq<Json> {
    match spec_elements(opt_field(opt_first_value(spec_field(j, "workers"@)), "devices"@)) {
        Some(es) => es,
        None => Seq::empty(),
    }
}

/// An accounting block is absent or complete.
pub open spec fn block_ok(b: Option<Json>) -> bool {
    b is None || algo_ok(b)
}

/// `a` is the block at `b`, or the zeroed block where there is none.
pub open spec fn block_matches(a: Algo, b: Option<Json>) -> bool {
    if b is None {
        is_default_algo(a)
    } else {
        algo_matches(a, b)
    }
}

/// Everything a snapshot needs, beyond the label, is present.
pub open spec fn payload_ok(j: Json) -> bool {
    &&& block_ok(fee_block(j))
    &&& block_ok(worksource_block(j))
    &&& forall|i: int| 0 <= i < device_entries(j).len() ==> worker_ok(#[trigger] device_entries(j)[i])
}

/// `wd` holds one record per device entry, in order, each carrying the
/// payload's accounting blocks.
pub open spec fn snapshot_matches(wd: WebData, j: Json) -> bool {
    &&& spec_minerator(j) == Some(wd.minerator@)
    &&& wd.workers@.len() == device_entries(j).len()
    &&& forall|i: int|
        0 <= i < wd.workers@.len() ==> {
            &&& worker_matches(
                #[trigger] wd.workers@[i],
                device_entries(j)[i],
                wd.workers@[i].fee,
                wd.workers@[i].worksource,
            )
            &&& block_matches(wd.workers@[i].fee, fee_block(j))
            &&& block_matches(wd.workers@[i].worksource, worksource_block(j))
        }
}

/// What `normalize_json` returns for a payload.
pub open spec fn normalize_outcome(j: Json, excluded: Seq<char>, r: Result<WebData, ParseError>) -> bool {
    match r {
        Err(ParseError::UnsupportedVersion(v)) => spec_minerator(j) == Some(v@) && seq_contains(
            v@,
            excluded,
        ),
        Err(ParseError::Malformed) => match spec_minerator(j) {
            None => true,
            Some(m) => !seq_contains(m, excluded) && !payload_ok(j),
        },
        Ok(wd) => !seq_contains(wd.minerator@, excluded) && payload_ok(j) && snapshot_matches(wd, j),
    }
}

fn read_block(b: Option<&Json>) -> (r: Option<Algo>)
    ensures
        r is Some <==> block_ok(deref_opt(b)),
        r matches Some(a) ==> block_matches(a, deref_opt(b)),
{
    match b {
        None => Some(Algo::new()),
        Some(_) => read_algo(b),
    }
}

/// Builds a snapshot from a parsed payload. A label holding `excluded` is an
/// unsupported version; a missing label, an incomplete accounting block or
/// an incomplete device entry makes the payload malformed.
#[verifier::rlimit(60)]
pub fn normalize_json(j: &Json, excluded: &str) -> (r: Result<WebData, ParseError>)
    ensures
        normalize_outcome(*j, excluded@, r),
{
    let minerator = match read_text(j.field("minerator")) {
        Some(m) => m,
        None => return Err(ParseError::Malformed),
    };
    if contains(minerator.as_str(), excluded) {
        return Err(ParseError::UnsupportedVersion(minerator));
    }
    let fee_path = opt_get(opt_at(opt_get(j.field("fee"), "allmine-fee-v1"), 0), "algo");
    let fee = match read_block(opt_first(fee_path)) {
        Some(a) => a,
        None => return Err(ParseError::Malformed),
    };
    let ws = match read_block(opt_at(opt_first(j.field("worksources")), 0)) {
        Some(a) => a,
        None => return Err(ParseError::Malformed),
    };
    let mut workers: Vec<Worker> = Vec::new();
    match opt_get(opt_first(j.field("workers")), "devices") {
        Some(Json::Array(es)) => {
            let mut i: usize = 0;
            while i < es.len()
                invariant
                    i <= es@.len(),
                    es@ == device_entries(*j),
                    spec_minerator(*j) == Some(minerator@),
                    !seq_contains(minerator@, excluded@),
                    workers@.len() == i,
                    block_matches(fee, fee_block(*j)),
                    block_matches(ws, worksource_block(*j)),
                    forall|k: int| 0 <= k < i ==> worker_ok(#[trigger] es@[k]),
                    forall|k: int|
                        0 <= k < i ==> {
                            &&& worker_matches(
                                #[trigger] workers@[k],
                                es@[k],
                                workers@[k].fee,
                                workers@[k].worksource,
                            )
                            &&& workers@[k].fee == fee
                            &&& workers@[k].worksource == ws
                        },
                decreases es@.len() - i,
            {
                match read_worker(&es[i], &fee, &ws) {
                    Some(d) => workers.push(d),
                    None => {
                        assert(!payload_ok(*j)) by {
                            assert(!worker_ok(device_entries(*j)[i as int]));
                        }
                        return Err(ParseError::Malformed);
                    },
                }
                i = i + 1;
            }
        },
        _ => {},
    }
    let wd = WebData { minerator, workers };
    assert(snapshot_matches(wd, *j));
    Ok(wd)
}

/// A payload yields a snapshot: it has a label free of `excluded` and is
/// complete.
pub open spec fn payload_accepted(j: Json, excluded: Seq<char>) -> bool {
    match spec_minerator(j) {
        Some(m) => !seq_contains(m, excluded) && payload_ok(j),
        None => false,
    }
}

/// Parses status-payload text and builds its snapshot: for JSON text, what
/// `normalize_json` gives for its tree; text that is not JSON is malformed.
pub fn normalize(raw: &str, excluded: &str) -> (r: Result<WebData, ParseError>)
    ensures
        !json_text_ok(raw@) ==> r is Err && r->Err_0 is Malformed,
        json_text_ok(raw@) ==> normalize_outcome(json_tree_of(raw@), excluded@, r),
{
    match parse_json(raw) {
        None => Err(ParseError::Malformed),
        Some(j) => normalize_json(&j, excluded),
    }
}

proof fn lemma_outcome_ok_iff(j: Json, excluded: Seq<char>, r: Result<WebData, ParseError>)
    requires
        normalize_outcome(j, excluded, r),
    ensures
        r is Ok <==> payload_accepted(j, excluded),
{
}

impl WebData {
    /// An empty snapshot labelled "None".
    pub fn new() -> (r: WebData)
        ensures
            r.minerator@ == "None"@,
            r.workers@.len() == 0,
    {
        WebData { minerator: String::from_str("None"), workers: Vec::new() }
    }

    /// Replaces the snapshot with the one built from `response`; on any
    /// error the current snapshot is kept and the error returned.
    pub fn process_response(&mut self, response: &str, excluded: &str) -> (r: Result<(), ParseError>)
        ensures
            !json_text_ok(response@) ==> r is Err && r->Err_0 is Malformed,
            json_text_ok(response@) ==> (r is Ok <==> payload_accepted(
                json_tree_of(response@),
                excluded@,
            )),
            r is Ok ==> json_text_ok(response@) && snapshot_matches(
                *final(self),
                json_tree_of(response@),
            ),
            r is Err ==> *final(self) == *old(self),
    {
        let res = normalize(response, excluded);
        proof {
            if json_text_ok(response@) {
                lemma_outcome_ok_iff(json_tree_of(response@), excluded@, res);
            }
        }
        match res {
            Ok(wd) => {
                *self = wd;
                Ok(())
            },
            Err(e) => Err(e),
        }
    }
}

/// The path of the status endpoint on a backend host.
pub const STATUS_PATH: &'static str = "/api/status";

/// The host used when none is configured.
pub const DEFAULT_HOST: &'static str = "http://localhost";

/// The label of a backend version family that this viewer refuses.
pub const EXCLUDED_VERSION: &'static str = "00.93.";

/// The status endpoint of `host`.
pub fn status_url(host: &str) -> (r: String)
    ensures
        r@ == host@ + STATUS_PATH@,
{
    let mut url = String::from_str(host);
    url.append(STATUS_PATH);
    url
}

// ---- laws ----

/// Without a hardware-type code, a device is TypeB exactly when it reports
/// no board temperature, and TypeA exactly when it reports one.
pub proof fn lemma_variant_without_code(w: Json)
    requires
        spec_field(w, "hwType"@) is None,
    ensures
        spec_variant(w) == Variant::TypeB <==> board_temp_absent(w),
        spec_variant(w) == Variant::TypeA <==> !board_temp_absent(w),
{
}

/// A device record whose health levels include `Critical` has `Critical`
/// as its worst health, whatever its other levels are.
pub proof fn lemma_worst_health_critical(d: Worker, w: Json, fee: Algo, ws: Algo)
    requires
        worker_matches(d, w, fee, ws),
        device_healths(d).contains(Health::Critical),
    ensures
        d.worse_health == Health::Critical,
{
    reveal(worker_matches);
    crate::health::lemma_critical_dominates(device_healths(d));
}

pub open spec fn same_stats(x: Stats, y: Stats) -> bool {
    x.name@ == y.name@ && x.minute == y.minute && x.total == y.total
}

pub open spec fn same_algo(x: Algo, y: Algo) -> bool {
    x.difficulty == y.difficulty && same_stats(x.stats, y.stats)
}

/// Two device records agree on every field (strings by their characters).
pub open spec fn same_worker(x: Worker, y: Worker) -> bool {
    &&& x.name@ == y.name@ && x.dna@ == y.dna@ && x.hw_type == y.hw_type
    &&& x.worse_health == y.worse_health
    &&& x.input_power == y.input_power && x.input_power_health == y.input_power_health
    &&& x.aux_current == y.aux_current && x.aux_current_health == y.aux_current_health
    &&& x.pex_current == y.pex_current && x.pex_current_health == y.pex_current_health
    &&& x.aux_12v == y.aux_12v && x.aux_12v_health == y.aux_12v_health
    &&& x.pex_12v == y.pex_12v && x.pex_12v_health == y.pex_12v_health
    &&& x.vccint == y.vccint && x.vccint_current == y.vccint_current
    &&& x.vccint_current_health == y.vccint_current_health
    &&& x.vrctrl_temp == y.vrctrl_temp && x.vrctrl_temp_health == y.vrctrl_temp_health
    &&& x.phase0_status_global == y.phase0_status_global
    &&& x.phase0_temperature == y.phase0_temperature
    &&& x.phase0_temperature_health == y.phase0_temperature_health
    &&& x.phase0_vout == y.phase0_vout
    &&& x.phase1_status_global == y.phase1_status_global
    &&& x.phase1_temperature == y.phase1_temperature
    &&& x.phase1_temperature_health == y.phase1_temperature_health
    &&& x.phase1_vout == y.phase1_vout
    &&& x.sysmons.sysmon@ == y.sysmons.sysmon@
    &&& x.cores.cores@.len() == y.cores.cores@.len()
    &&& forall|i: int|
        0 <= i < x.cores.cores@.len() ==> #[trigger] x.cores.cores@[i].clock == y.cores.cores@[i].clock
            && same_stats(x.cores.cores@[i].stats, y.cores.cores@[i].stats)
    &&& same_algo(x.fee, y.fee)
    &&& same_algo(x.worksource, y.worksource)
}

proof fn lemma_block_unique(a: Algo, b: Algo, j: Option<Json>)
    requires
        block_matches(a, j),
        block_matches(b, j),
    ensures
        same_algo(a, b),
{
}

proof fn lemma_worker_unique(x: Worker, y: Worker, w: Json, fx: Algo, wx: Algo, fy: Algo, wy: Algo)
    requires
        worker_matches(x, w, fx, wx),
        worker_matches(y, w, fy, wy),
        same_algo(fx, fy),
        same_algo(wx, wy),
    ensures
        same_worker(x, y),
{
    reveal(worker_matches);
    let ss = spec_elements(spec_field(w, "sysmon"@))->0;
    assert forall|i: int| 0 <= i < x.sysmons.sysmon@.len() implies x.sysmons.sysmon@[i]
        == y.sysmons.sysmon@[i] by {
        assert(x.sysmons.sysmon@[i] == spec_sysmon(Some(ss[i])));
        assert(y.sysmons.sysmon@[i] == spec_sysmon(Some(ss[i])));
    }
    assert(x.sysmons.sysmon@ =~= y.sysmons.sysmon@);
    let es = spec_elements(spec_field(w, "cores"@))->0;
    assert forall|i: int| 0 <= i < x.cores.cores@.len() implies #[trigger] x.cores.cores@[i].clock
        == y.cores.cores@[i].clock && same_stats(x.cores.cores@[i].stats, y.cores.cores@[i].stats) by {
        assert(core_matches(x.cores.cores@[i], Some(es[i])));
        assert(core_matches(y.cores.cores@[i], Some(es[i])));
    }
    assert(x.cores.cores@[0].clock == y.cores.cores@[0].clock);
    assert(device_healths(x) =~= device_healths(y));
}

/// Building a snapshot depends on the payload alone: two snapshots that
/// both match one payload agree in every field of every record.
pub proof fn lemma_snapshot_deterministic(a: WebData, b: WebData, j: Json)
    requires
        snapshot_matches(a, j),
        snapshot_matches(b, j),
    ensures
        a.minerator@ == b.minerator@,
        a.workers@.len() == b.workers@.len(),
        forall|i: int| 0 <= i < a.workers@.len() ==> same_worker(#[trigger] a.workers@[i], b.workers@[i]),
{
    assert forall|i: int| 0 <= i < a.workers@.len() implies same_worker(
        #[trigger] a.workers@[i],
        b.workers@[i],
    ) by {
        let x = a.workers@[i];
        let y = b.workers@[i];
        lemma_block_unique(x.fee, y.fee, fee_block(j));
        lemma_block_unique(x.worksource, y.worksource, worksource_block(j));
        lemma_worker_unique(x, y, device_entries(j)[i], x.fee, x.worksource, y.fee, y.worksource);
    }
}

/// `wd` is the snapshot built from payload text `raw`, as `normalize` and
/// `process_response` return it.
pub open spec fn text_snapshot(raw: Seq<char>, wd: WebData) -> bool {
    json_text_ok(raw) && snapshot_matches(wd, json_tree_of(raw))
}

/// From payload text, the snapshot has one record per entry of the devices
/// array, in its order, each with that entry's name, identity and variant.
pub proof fn lemma_text_devices_in_order(raw: Seq<char>, wd: WebData)
    requires
        text_snapshot(raw, wd),
    ensures
        wd.workers@.len() == device_entries(json_tree_of(raw)).len(),
        forall|i: int|
            0 <= i < wd.workers@.len() ==> {
                let e = device_entries(json_tree_of(raw))[i];
                &&& spec_text(spec_field(e, "name"@)) == Some((#[trigger] wd.workers@[i]).name@)
                &&& spec_id(e) == Some(wd.workers@[i].dna@)
                &&& wd.workers@[i].hw_type == spec_variant(e)
            },
{
    reveal(worker_matches);
}

/// Two snapshots built from the same payload text agree in every field of
/// every record, whatever was shown before.
pub proof fn lemma_text_deterministic(raw: Seq<char>, a: WebData, b: WebData)
    requires
        text_snapshot(raw, a),
        text_snapshot(raw, b),
    ensures
        a.minerator@ == b.minerator@,
        a.workers@.len() == b.workers@.len(),
        forall|i: int| 0 <= i < a.workers@.len() ==> same_worker(#[trigger] a.workers@[i], b.workers@[i]),
{
    lemma_snapshot_deterministic(a, b, json_tree_of(raw));
}

/// From payload text, a device entry without a hardware-type code is TypeB
/// exactly when it has no board temperature; a TypeB record has its
/// regulator fields zero and no regulator health.
pub proof fn lemma_text_variant_without_code(raw: Seq<char>, wd: WebData, i: int)
    requires
        text_snapshot(raw, wd),
        0 <= i < wd.workers@.len(),
        spec_field(device_entries(json_tree_of(raw))[i], "hwType"@) is None,
    ensures
        wd.workers@[i].hw_type == Variant::TypeB <==> board_temp_absent(
            device_entries(json_tree_of(raw))[i],
        ),
        wd.workers@[i].hw_type == Variant::TypeB ==> {
            &&& wd.workers@[i].vrctrl_temp == 0 && wd.workers@[i].vrctrl_temp_health is None
            &&& wd.workers@[i].phase0_status_global == 0 && wd.workers@[i].phase1_status_global == 0
            &&& wd.workers@[i].phase0_temperature == 0 && wd.workers@[i].phase1_temperature == 0
            &&& wd.workers@[i].phase0_vout == 0 && wd.workers@[i].phase1_vout == 0
        },
{
    reveal(worker_matches);
    let e = device_entries(json_tree_of(raw))[i];
    lemma_variant_without_code(e);
    assert(worker_matches(wd.workers@[i], e, wd.workers@[i].fee, wd.workers@[i].worksource));
}

/// From payload text, a record with a `Critical` level among those its
/// worst health is made of has `Critical` as its worst health.
pub proof fn lemma_text_critical_dominates(raw: Seq<char>, wd: WebData, i: int)
    requires
        text_snapshot(raw, wd),
        0 <= i < wd.workers@.len(),
        device_healths(wd.workers@[i]).contains(Health::Critical),
    ensures
        wd.workers@[i].worse_health == Health::Critical,
{
    let e = device_entries(json_tree_of(raw))[i];
    assert(worker_matches(wd.workers@[i], e, wd.workers@[i].fee, wd.workers@[i].worksource));
    lemma_worst_health_critical(wd.workers@[i], e, wd.workers@[i].fee, wd.workers@[i].worksource);
}

/// From payload text whose label holds the excluded text, the outcome is
/// the unsupported-version error carrying that label, never a snapshot.
pub proof fn lemma_text_unsupported_version(raw: Seq<char>, excluded: Seq<char>, r: Result<WebData, ParseError>)
    requires
        json_text_ok(raw),
        normalize_outcome(json_tree_of(raw), excluded, r),
        spec_minerator(json_tree_of(raw)) matches Some(m) && seq_contains(m, excluded),
    ensures
        r matches Err(ParseError::UnsupportedVersion(v)) && spec_minerator(json_tree_of(raw)) == Some(v@),
{
}

} // verus!
