use iperf_rust::parser::{Event, OutputParser};
use iperf_rust::rate::{parse_bandwidth_mbps, Rate, RateUnit};

/// The reading in Mbit/s, scaled the way the interface scales it.
fn mbps(r: &Rate) -> f64 {
    let val: f64 = r.number.parse().unwrap();
    match r.unit {
        RateUnit::Bits => val / 1.0e6,
        RateUnit::Kilobits => val / 1.0e3,
        RateUnit::Megabits => val,
        RateUnit::Gigabits => val * 1.0e3,
        RateUnit::Terabits => val * 1.0e6,
    }
}

fn parsed(line: &str) -> Option<f64> {
    parse_bandwidth_mbps(line).map(|r| mbps(&r))
}

#[test]
fn parses_mbits() {
    let l = "[  5]   0.00-1.00   sec   118 MBytes   985 Mbits/sec    0   241 KBytes";
    assert_eq!(parsed(l), Some(985.0));
}

#[test]
fn parses_gbits() {
    let l = "[  5]   0.00-1.00   sec  1.10 GBytes  9.45 Gbits/sec";
    assert_eq!(parsed(l), Some(9450.0));
}

#[test]
fn detects_server_connection() {
    let mut p = OutputParser::new(true);
    let evs = p.feed("Accepted connection from 192.168.1.50, port 40522");
    assert!(matches!(&evs[0], Event::ClientConnected { peer } if peer == "192.168.1.50"));
}

#[test]
fn servidor_un_solo_flujo_emite_intervalo() {
    let mut p = OutputParser::new(true);
    p.feed("Accepted connection from 127.0.0.1, port 50125");
    let evs = p.feed("[  5]   0.00-1.00   sec  14.3 GBytes   122 Gbits/sec");
    assert!(matches!(&evs[0], Event::Interval { mbps: r } if (mbps(r) - 122000.0).abs() < 1.0));
    let fin = p.feed("[  5]   0.00-2.00   sec  29.1 GBytes   125 Gbits/sec   receiver");
    assert!(fin.iter().any(|e| matches!(e, Event::Summary { .. })));
    assert!(fin.iter().any(|e| matches!(e, Event::ClientDisconnected)));
}

#[test]
fn multi_flujo_prefiere_sum() {
    let mut p = OutputParser::new(true);
    p.feed("Accepted connection from 10.0.0.2, port 1");
    let _ = p.feed("[  5]   0.00-1.00   sec  1.0 GBytes  8.0 Gbits/sec");
    let sum = p.feed("[SUM]   0.00-1.00   sec  2.0 GBytes  16.0 Gbits/sec");
    assert!(matches!(&sum[0], Event::Interval { mbps: r } if (mbps(r) - 16000.0).abs() < 1.0));
    let ind = p.feed("[  5]   1.00-2.00   sec  1.0 GBytes  8.0 Gbits/sec");
    assert!(ind.is_empty());
}

// ----- readings -----

#[test]
fn reading_keeps_number_and_unit() {
    let r = parse_bandwidth_mbps("[  5]   0.00-1.00   sec  1.10 GBytes  9.45 Gbits/sec").unwrap();
    assert_eq!(r.number, "9.45");
    assert_eq!(r.unit, RateUnit::Gigabits);
}

#[test]
fn reading_units_scale() {
    assert_eq!(parsed("x 2500000 bits/sec"), Some(2.5));
    assert_eq!(parsed("x 500 Kbits/sec"), Some(0.5));
    assert_eq!(parsed("x 500 kbits/sec"), Some(0.5));
    assert_eq!(parsed("x 3 Tbits/sec"), Some(3.0e6));
}

#[test]
fn reading_unknown_prefix_is_none() {
    assert_eq!(parsed("x 12 Pbits/sec 13 Mbits/sec"), None);
}

#[test]
fn reading_needs_a_word_before() {
    assert_eq!(parsed("Mbits/sec 12"), None);
    assert_eq!(parsed("   Gbits/sec"), None);
}

#[test]
fn reading_needs_a_number() {
    assert_eq!(parsed("[  5] sec Mbits/sec"), None);
    assert_eq!(parsed("x . Mbits/sec"), None);
    assert_eq!(parsed("x 1e Mbits/sec"), None);
    assert_eq!(parsed("x + Mbits/sec"), None);
    assert_eq!(parsed("x 1.2.3 Mbits/sec"), None);
}

#[test]
fn reading_accepts_what_float_parsing_accepts() {
    assert_eq!(parsed("x 1e3 Mbits/sec"), Some(1000.0));
    assert_eq!(parsed("x .5 Mbits/sec"), Some(0.5));
    assert_eq!(parsed("x 5. Mbits/sec"), Some(5.0));
    assert_eq!(parsed("x -2E-1 Mbits/sec"), Some(-0.2));
    assert_eq!(parsed("x +7 Mbits/sec"), Some(7.0));
    assert_eq!(parsed("x InF Mbits/sec"), Some(f64::INFINITY));
    assert!(parsed("x nan Mbits/sec").unwrap().is_nan());
}

#[test]
fn reading_without_rate_word_is_none() {
    assert_eq!(parsed("Connecting to host 127.0.0.1, port 5201"), None);
    assert_eq!(parsed(""), None);
}

#[test]
fn reading_splits_on_unicode_whitespace() {
    assert_eq!(parsed("x\u{3000}42\u{00A0}Mbits/sec"), Some(42.0));
    assert_eq!(parsed("x\t42\nMbits/sec"), Some(42.0));
}

// ----- the parser -----

#[test]
fn client_parser_ignores_connection_lines() {
    let mut p = OutputParser::new(false);
    assert!(p.feed("Accepted connection from 10.0.0.2, port 1").is_empty());
    assert!(p.feed("Server listening on 5201").is_empty());
}

#[test]
fn client_parser_emits_interval_and_summary() {
    let mut p = OutputParser::new(false);
    let a = p.feed("[  5]   0.00-1.00   sec   118 MBytes   985 Mbits/sec    0   241 KBytes");
    assert_eq!(a.len(), 1);
    assert!(matches!(&a[0], Event::Interval { mbps: r } if mbps(r) == 985.0));
    let s = p.feed("[  5]   0.00-10.00  sec  1.10 GBytes   940 Mbits/sec    0             sender");
    assert!(s.is_empty());
    let r = p.feed("[  5]   0.00-10.04  sec  1.09 GBytes   930 Mbits/sec                  receiver");
    assert_eq!(r.len(), 1);
    match &r[0] {
        Event::Summary { sender_mbps, receiver_mbps } => {
            assert_eq!(mbps(sender_mbps), 940.0);
            assert_eq!(mbps(receiver_mbps), 930.0);
        }
        _ => panic!("expected a summary"),
    }
}

#[test]
fn summary_without_sender_uses_receiver() {
    let mut p = OutputParser::new(false);
    let r = p.feed("[  5]   0.00-10.04  sec  1.09 GBytes   930 Mbits/sec                  receiver");
    match &r[0] {
        Event::Summary { sender_mbps, receiver_mbps } => {
            assert_eq!(mbps(sender_mbps), 930.0);
            assert_eq!(mbps(receiver_mbps), 930.0);
        }
        _ => panic!("expected a summary"),
    }
}

#[test]
fn header_line_is_ignored() {
    let mut p = OutputParser::new(false);
    assert!(p.feed("[ ID] Interval           Transfer     Bitrate         Retr  Cwnd").is_empty());
}

#[test]
fn lines_without_bracket_are_ignored() {
    let mut p = OutputParser::new(false);
    assert!(p.feed("  0.00-1.00   sec   118 MBytes   985 Mbits/sec").is_empty());
}

#[test]
fn server_listening_after_client_disconnects() {
    let mut p = OutputParser::new(true);
    let l = p.feed("Server listening on 5201 (test #1)");
    assert_eq!(l.len(), 1);
    assert!(matches!(l[0], Event::Listening));
    p.feed("Accepted connection from 10.0.0.2, port 1");
    let l2 = p.feed("Server listening on 5201 (test #2)");
    assert_eq!(l2.len(), 2);
    assert!(matches!(l2[0], Event::ClientDisconnected));
    assert!(matches!(l2[1], Event::Listening));
}

#[test]
fn disconnect_reported_once() {
    let mut p = OutputParser::new(true);
    p.feed("Accepted connection from 10.0.0.2, port 1");
    let a = p.feed("[  5]   0.00-2.00   sec  29.1 GBytes   125 Gbits/sec   receiver");
    assert_eq!(a.iter().filter(|e| matches!(e, Event::ClientDisconnected)).count(), 1);
    let b = p.feed("[  5]   0.00-2.00   sec  29.1 GBytes   125 Gbits/sec   receiver");
    assert_eq!(b.iter().filter(|e| matches!(e, Event::ClientDisconnected)).count(), 0);
    let c = p.feed("Server listening on 5201");
    assert_eq!(c.len(), 1);
}

#[test]
fn new_connection_resets_sum_preference() {
    let mut p = OutputParser::new(true);
    p.feed("Accepted connection from 10.0.0.2, port 1");
    p.feed("[SUM]   0.00-1.00   sec  2.0 GBytes  16.0 Gbits/sec");
    assert!(p.feed("[  5]   1.00-2.00   sec  1.0 GBytes  8.0 Gbits/sec").is_empty());
    p.feed("Accepted connection from 10.0.0.3, port 2");
    let e = p.feed("[  5]   0.00-1.00   sec  1.0 GBytes  8.0 Gbits/sec");
    assert!(matches!(&e[0], Event::Interval { mbps: r } if mbps(r) == 8000.0));
}

#[test]
fn peer_is_trimmed_up_to_comma() {
    let mut p = OutputParser::new(true);
    let e = p.feed("  Accepted connection from   fe80::1 ,port 9");
    assert!(matches!(&e[0], Event::ClientConnected { peer } if peer == "fe80::1"));
    let e2 = p.feed("Accepted connection from host-only");
    assert!(matches!(&e2[0], Event::ClientConnected { peer } if peer == "host-only"));
}

#[test]
fn measurement_without_reading_yields_nothing() {
    let mut p = OutputParser::new(false);
    assert!(p.feed("[  5] local 127.0.0.1 port 5201 connected").is_empty());
}
