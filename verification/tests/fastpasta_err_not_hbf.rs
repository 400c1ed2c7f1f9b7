//! Whole-pipeline runs over a stream of 2 RDHs whose second page skips a
//! page number and whose CDP never closes: the running checks flag the
//! page sequence, and no heartbeat frame is counted.

use fastpasta::config::{Check, MockConfig, Target, ViewCommands};
use fastpasta::pipeline::{run, RunResult};
use fastpasta::rdh::{rdh_encode, Rdh};

fn rdh_err(pages: u16, stop: u8, trigger: u32, memory: u16, offset: u16, packet_counter: u8) -> Rdh {
    Rdh {
        header_id: 7,
        header_size: 64,
        fee_id: 524,
        priority_bit: 0,
        system_id: 32,
        reserved0: 0,
        offset_to_next: offset,
        memory_size: memory,
        link_id: 8,
        packet_counter,
        cruid_dw: 0,
        bc_reserved0: 0,
        orbit: 0x200,
        dataformat: 2,
        trigger_type: trigger,
        pages_counter: pages,
        stop_bit: stop,
        detector_field: 0,
        par_bit: 0,
    }
}

/// The 2-RDH stream: a page 0 opening a heartbeat frame, then a packet
/// whose pages counter jumps to 2 and which never carries a stop bit.
/// The second RDH sits at offset 0xA0.
fn fixture_err_not_hbf() -> Vec<u8> {
    let mut data: Vec<u8> = Vec::new();
    data.extend(rdh_encode(&rdh_err(0, 0, 0x6A03, 124, 160, 0)));
    // IHW
    data.extend_from_slice(&[0, 0, 0, 0, 0, 0, 0, 0, 0, 0xE0]);
    // TDH: bc 0x42, orbit 0x200, internal trigger set
    data.extend_from_slice(&[0x42, 0x00, 0x00, 0x02, 0x00, 0x00, 0x01, 0, 0, 0xE8]);
    // Lane data for three IB lanes
    data.extend_from_slice(&[0xE6, 0x42, 0, 0, 0, 0, 0, 0, 0, 0x26]);
    data.extend_from_slice(&[0xE7, 0x42, 0, 0, 0, 0, 0, 0, 0, 0x27]);
    data.extend_from_slice(&[0xE8, 0x42, 0, 0, 0, 0, 0, 0, 0, 0x28]);
    // TDT
    data.extend_from_slice(&[0, 0, 0, 0, 0, 0, 0, 0, 0, 0xF0]);
    // Padding up to the next packet at 0xA0
    let mut pad = 0;
    while pad < 36 {
        data.push(0);
        pad += 1;
    }
    // The second packet: pages counter jumps from 0 to 2
    data.extend(rdh_encode(&rdh_err(2, 0, 0x6A13, 94, 94, 1)));
    // IHW
    data.extend_from_slice(&[0, 0, 0, 0, 0, 0, 0, 0, 0, 0xE0]);
    // TDH (continuation would be legal here; internal trigger set)
    data.extend_from_slice(&[0x42, 0x00, 0x00, 0x02, 0x00, 0x00, 0x01, 0, 0, 0xE8]);
    // TDT
    data.extend_from_slice(&[0, 0, 0, 0, 0, 0, 0, 0, 0, 0xF0]);
    data
}

fn count_ci_err(text: &str, pattern: &str) -> usize {
    let re = regex::RegexBuilder::new(pattern).case_insensitive(true).build().unwrap();
    re.find_iter(text).count()
}

fn stderr_text_err(res: &RunResult) -> String {
    let mut s = String::new();
    for line in &res.errors {
        s.push_str(line);
        s.push('\n');
    }
    for line in &res.logs {
        s.push_str(line);
        s.push('\n');
    }
    s
}

fn match_patterns_err(report: &str) {
    let patterns = [
        "Trigger Type.*0x6A03",
        "Trigger Type.*SOC",
        "RDH.*Version.*7",
        "Total.*RDHs.*2",
        "Total.*hbfs.*0",
        "((layers)|(staves)).*((layers)|(staves)).*L0_12",
    ];
    for pattern in patterns {
        assert_eq!(count_ci_err(report, pattern), 1, "pattern {pattern} in:\n{report}");
    }
}

#[test]
fn err_not_hbf_detect_page_error() {
    let re = regex::RegexBuilder::new(r"ERrOR - 0xa0.*pages")
        .case_insensitive(true)
        .build()
        .unwrap();
    // Verifying the regex predicate
    assert_eq!(re.find_iter("test").count(), 0);
    assert_eq!(re.find_iter("error - 0xa0 something pages something").count(), 1);

    let mut cfg = MockConfig::default();
    cfg.check = Some(Check::All(Target { system: None }));
    cfg.verbosity = 1;
    let res = run(&cfg, &fixture_err_not_hbf());
    assert_eq!(res.exit_code, 0);
    let stderr = stderr_text_err(&res);
    assert_eq!(re.find_iter(&stderr).count(), 1, "{stderr}");
}

#[test]
fn view_hbf() {
    let mut cfg = MockConfig::default();
    cfg.view = Some(ViewCommands::Hbf);
    let res = run(&cfg, &fixture_err_not_hbf());
    assert_eq!(res.exit_code, 0);
    assert_eq!(res.report.matches("RDH").count(), 2, "{}", res.report);
    assert_eq!(res.report.matches("IHW").count(), 2, "{}", res.report);
    assert_eq!(res.report.matches("TDH").count(), 2, "{}", res.report);
    assert_eq!(res.report.matches("TDT").count(), 2, "{}", res.report);
    assert_eq!(res.report.matches("DDW").count(), 0, "{}", res.report);
}

#[test]
fn fastpasta_err_not_hbf_view_rdh() {
    let mut cfg = MockConfig::default();
    cfg.view = Some(ViewCommands::Rdh);
    cfg.verbosity = 1;
    let res = run(&cfg, &fixture_err_not_hbf());
    assert_eq!(res.exit_code, 0);
    assert_eq!(count_ci_err(&res.report, ": .* (7|6) .* 64 .* (0|2)"), 2, "{}", res.report);
}

#[test]
fn fastpasta_err_not_hbf_check_sanity() {
    let mut cfg = MockConfig::default();
    cfg.check = Some(Check::Sanity(Target { system: None }));
    cfg.verbosity = 1;
    let res = run(&cfg, &fixture_err_not_hbf());
    assert_eq!(res.exit_code, 0);
    match_patterns_err(&res.report);
}

#[test]
fn check_sanity_debug_verbosity() {
    let mut cfg = MockConfig::default();
    cfg.check = Some(Check::Sanity(Target { system: None }));
    cfg.verbosity = 3;
    let res = run(&cfg, &fixture_err_not_hbf());
    assert_eq!(res.exit_code, 0);
    let stderr = stderr_text_err(&res);
    assert_eq!(count_ci_err(&stderr, "loaded.*rdh"), 2, "{stderr}");
}
