use viewerator::health::Health;
use viewerator::webdata::{normalize, ParseError, Variant, WebData};

const EXCLUDED: &str = "00.93.";

fn detail(timed: bool) -> String {
    let mut s = String::from(
        "{\"accepted\": 6000, \"calculated\": 12000, \"found\": 7000, \"requested\": 18000, \"submitted\": 6500, \"valid\": 6800",
    );
    if timed {
        s.push_str(", \"startTime\": 1000, \"endTime\": 1060");
    }
    s.push('}');
    s
}

fn stats(name: &str) -> String {
    format!(
        "{{\"name\": \"{}\", \"minute\": {}, \"total\": {}}}",
        name,
        detail(false),
        detail(true)
    )
}

fn healths(input_power: &str) -> String {
    format!(
        "{{\"inputPower\": \"{}\", \"inputCurrentAUX\": \"rampUp\", \"inputCurrentPEX\": \"rampUp\", \"inputVoltageAUX\": \"rampUp\", \"inputVoltagePEX\": \"rampUp\", \"vccintCurrent\": \"rampUp\", \"vrCtrl\": \"rampUp\", \"vrPower\": \"rampUp\"}}",
        input_power
    )
}

struct Dev<'a> {
    name: &'a str,
    dna: &'a str,
    hw_type: Option<&'a str>,
    board_temp: bool,
    input_power_health: &'a str,
}

fn dev_a(name: &str) -> Dev<'_> {
    Dev { name, dna: "0123abcd", hw_type: Some("69581525"), board_temp: true, input_power_health: "rampUp" }
}

fn dev_b(name: &str) -> Dev<'_> {
    Dev { name, dna: "4567ef01", hw_type: Some("4277c013"), board_temp: false, input_power_health: "rampUp" }
}

fn device(d: &Dev) -> String {
    let mut bmc = format!(
        "\"adc\": {{\"inputPower\": 75.5, \"aux12VCurrent\": 1.25, \"pex12VCurrent\": 2.5, \"aux12V\": 12.1, \"pex12V\": 12.05, \"vccint\": 0.85, \"vccintCurrent\": 40}}, \"health\": {}",
        healths(d.input_power_health)
    );
    if d.board_temp {
        bmc.push_str(", \"temperature\": 45.5, \"phases\": [{\"statusGlobal\": 0, \"temperature\": 50, \"vout\": 0.85}, {\"statusGlobal\": 2048, \"temperature\": 51.25, \"vout\": 0.86}]");
    }
    let hw = match d.hw_type {
        Some(code) => format!("\"hwType\": \"{}\", ", code),
        None => String::new(),
    };
    format!(
        "{{\"name\": \"{}\", \"dna\": \"{}\", \"hwUID\": \"uid-{}\", {}\"bmc\": {{{}}}, \"sysmon\": [{{\"health\": \"hold\", \"temperature\": 60.5, \"vccaux\": 1.8, \"vccbram\": 0.85, \"vccint\": 0.851}}, {{\"health\": \"rampUp\", \"temperature\": 61, \"vccaux\": 1.8, \"vccbram\": 0.85, \"vccint\": 0.85}}], \"cores\": [{{\"clock\": {{\"badNonces\": 3, \"health\": \"rampUp\", \"multiplier\": 1.5, \"totalNonces\": 1000}}, \"stats\": {}}}]}}",
        d.name,
        d.dna,
        d.name,
        hw,
        bmc,
        stats(&format!("{}-core", d.name))
    )
}

fn payload(minerator: &str, devices: &[Dev]) -> String {
    let list: Vec<String> = devices.iter().map(device).collect();
    format!(
        "{{\"minerator\": \"{}\", \"fee\": {{\"allmine-fee-v1\": [{{\"algo\": {{\"sha\": {{\"difficulty\": 1024, \"stats\": {}}}}}}}]}}, \"worksources\": {{\"pool\": [{{\"difficulty\": 2048, \"stats\": {}}}]}}, \"workers\": {{\"group\": {{\"devices\": [{}]}}}}}}",
        minerator,
        stats("Fee"),
        stats("Pool"),
        list.join(", ")
    )
}

fn parse(text: &str) -> WebData {
    match normalize(text, EXCLUDED) {
        Ok(wd) => wd,
        Err(e) => panic!("payload refused: {:?}", e),
    }
}

#[test]
fn parse_4bcu() {
    let mut wd = WebData::new();
    let input = payload("allmine 01.02.03", &[dev_a("d0"), dev_a("d1"), dev_a("d2"), dev_a("d3")]);
    assert!(wd.process_response(&input, EXCLUDED).is_ok());
    assert_eq!(wd.workers.len(), 4);
}

#[test]
fn parse_4bcu1() {
    let mut devs = vec![dev_a("d0"), dev_a("d1"), dev_a("d2"), dev_a("d3")];
    for d in devs.iter_mut() {
        d.hw_type = Some("00000000");
    }
    let mut wd = WebData::new();
    let input = payload("allmine 01.03.00", &devs);
    assert!(wd.process_response(&input, EXCLUDED).is_ok());
    assert_eq!(wd.workers.len(), 4);
    assert!(wd.workers.iter().all(|w| w.hw_type == Variant::TypeA));
}

#[test]
fn parse_2bcu1cvp() {
    let mut wd = WebData::new();
    let input = payload("allmine 01.02.03", &[dev_a("a0"), dev_a("a1"), dev_b("b0")]);
    assert!(wd.process_response(&input, EXCLUDED).is_ok());
    assert_eq!(wd.workers.len(), 3);
    let kinds: Vec<Variant> = wd.workers.iter().map(|w| w.hw_type).collect();
    assert_eq!(kinds, vec![Variant::TypeA, Variant::TypeA, Variant::TypeB]);
    let b = &wd.workers[2];
    assert_eq!(b.vrctrl_temp, 0);
    assert_eq!(b.vrctrl_temp_health, None);
    assert_eq!(b.phase1_status_global, 0);
    assert_eq!(b.phase0_temperature_health, None);
}

#[test]
fn parse_1cvp_00() {
    let mut wd = WebData::new();
    let input = payload("allmine 00.00.00", &[dev_b("b0")]);
    assert!(wd.process_response(&input, EXCLUDED).is_ok());
    assert_eq!(wd.workers.len(), 1);
    assert_eq!(wd.minerator, "allmine 00.00.00");
}

#[test]
fn device_order_follows_payload() {
    let wd = parse(&payload("m 1.0", &[dev_a("x"), dev_b("y"), dev_a("z")]));
    let names: Vec<&str> = wd.workers.iter().map(|w| w.name.as_str()).collect();
    assert_eq!(names, vec!["x", "y", "z"]);
}

#[test]
fn empty_device_list_gives_no_records() {
    let wd = parse(&payload("m 1.0", &[]));
    assert_eq!(wd.workers.len(), 0);
    assert_eq!(wd.minerator, "m 1.0");
}

#[test]
fn values_are_read_in_thousandths() {
    let wd = parse(&payload("m 1.0", &[dev_a("x")]));
    let w = &wd.workers[0];
    assert_eq!(w.input_power, 75_500);
    assert_eq!(w.aux_current, 1_250);
    assert_eq!(w.pex_12v, 12_050);
    assert_eq!(w.vccint_current, 40_000);
    assert_eq!(w.vrctrl_temp, 45_500);
    assert_eq!(w.vrctrl_temp_health, Some(Health::RampUp));
    assert_eq!(w.phase1_status_global, 2048);
    assert_eq!(w.phase1_temperature, 51_250);
    assert_eq!(w.phase0_vout, 850);
    assert_eq!(w.sysmons.sysmon.len(), 2);
    assert_eq!(w.sysmons.sysmon[0].health, Health::Hold);
    assert_eq!(w.sysmons.sysmon[0].vccint, 851);
    assert_eq!(w.cores.cores[0].clock.bad_nonces, 3_000);
    assert_eq!(w.cores.cores[0].stats.name, "x-core");
    assert_eq!(w.cores.cores[0].stats.total.end_time, 1_060_000);
    assert_eq!(w.cores.cores[0].stats.minute.start_time, 0);
    assert_eq!(w.fee.difficulty, 1_024_000);
    assert_eq!(w.fee.stats.name, "Fee");
    assert_eq!(w.worksource.difficulty, 2_048_000);
    assert_eq!(w.worksource.stats.name, "Pool");
}

#[test]
fn unsupported_version_is_an_error() {
    let input = payload("allmine 00.93.1", &[dev_a("x")]);
    match normalize(&input, EXCLUDED) {
        Err(ParseError::UnsupportedVersion(v)) => assert_eq!(v, "allmine 00.93.1"),
        other => panic!("unexpected: {:?}", other.map(|w| w.workers.len())),
    }
}

#[test]
fn empty_dna_falls_back_to_hw_uid() {
    let mut d = dev_a("x");
    d.dna = "";
    let wd = parse(&payload("m 1.0", &[d]));
    assert_eq!(wd.workers[0].dna, "uid-x");
}

#[test]
fn text_that_is_not_json_is_malformed() {
    assert!(matches!(normalize("{\"minerator\": ", EXCLUDED), Err(ParseError::Malformed)));
}

#[test]
fn failed_refresh_keeps_previous_snapshot() {
    let mut wd = WebData::new();
    assert!(wd.process_response(&payload("m 1.0", &[dev_a("x"), dev_a("y")]), EXCLUDED).is_ok());
    assert!(matches!(wd.process_response("not json", EXCLUDED), Err(ParseError::Malformed)));
    assert_eq!(wd.workers.len(), 2);
    assert_eq!(wd.minerator, "m 1.0");
}

#[test]
fn missing_required_reading_is_malformed() {
    let input = payload("m 1.0", &[dev_a("x")]).replace("\"inputPower\": 75.5, ", "");
    assert!(matches!(normalize(&input, EXCLUDED), Err(ParseError::Malformed)));
}

#[test]
fn missing_label_is_malformed() {
    let input = payload("m 1.0", &[dev_a("x")]).replace("\"minerator\"", "\"label\"");
    assert!(matches!(normalize(&input, EXCLUDED), Err(ParseError::Malformed)));
}

#[test]
fn missing_code_without_board_temperature_is_type_b() {
    let mut d = dev_b("x");
    d.hw_type = None;
    let wd = parse(&payload("m 1.0", &[d]));
    assert_eq!(wd.workers[0].hw_type, Variant::TypeB);
}

#[test]
fn missing_code_with_board_temperature_is_type_a() {
    let mut d = dev_a("x");
    d.hw_type = None;
    let wd = parse(&payload("m 1.0", &[d]));
    assert_eq!(wd.workers[0].hw_type, Variant::TypeA);
}

#[test]
fn one_critical_level_makes_the_device_critical() {
    let mut d = dev_a("x");
    d.input_power_health = "critical";
    let wd = parse(&payload("m 1.0", &[d]));
    assert_eq!(wd.workers[0].input_power_health, Health::Critical);
    assert_eq!(wd.workers[0].worse_health, Health::Critical);
}

#[test]
fn healthy_device_is_ramp_up() {
    let wd = parse(&payload("m 1.0", &[dev_b("x")]));
    assert_eq!(wd.workers[0].worse_health, Health::RampUp);
}

#[test]
fn unknown_health_string_is_ramp_up() {
    let mut d = dev_a("x");
    d.input_power_health = "bogus";
    let wd = parse(&payload("m 1.0", &[d]));
    assert_eq!(wd.workers[0].input_power_health, Health::RampUp);
}

#[test]
fn normalizing_twice_gives_equal_snapshots() {
    let input = payload("m 1.0", &[dev_a("x"), dev_b("y")]);
    let a = parse(&input);
    let b = parse(&input);
    assert_eq!(format!("{:?}", a), format!("{:?}", b));
}

#[test]
fn absent_fee_block_is_zeroed() {
    let input = payload("m 1.0", &[dev_a("x")]).replace("\"fee\"", "\"nofee\"");
    let wd = parse(&input);
    assert_eq!(wd.workers[0].fee.difficulty, 0);
    assert_eq!(wd.workers[0].fee.stats.name, "None");
}

#[test]
fn status_url_appends_the_endpoint() {
    assert_eq!(viewerator::webdata::status_url("http://rig"), "http://rig/api/status");
}

#[test]
fn readings_round_to_the_nearest_thousandth() {
    let input = payload("m 1.0", &[dev_a("x")]).replace("\"vout\": 0.85}", "\"vout\": 0.8456}");
    let wd = parse(&input);
    assert_eq!(wd.workers[0].phase0_vout, 846);
    assert_eq!(viewerator::format::format_sensor(wd.workers[0].phase0_vout), "   0.846");
}

#[test]
fn replacing_a_snapshot_does_not_append() {
    let input = payload("m 1.0", &[dev_a("x"), dev_b("y")]);
    let mut wd = WebData::new();
    assert!(wd.process_response(&input, EXCLUDED).is_ok());
    assert!(wd.process_response(&input, EXCLUDED).is_ok());
    assert_eq!(wd.workers.len(), 2);
    assert_eq!(format!("{:?}", wd), format!("{:?}", parse(&input)));
}
