use iperf_rust::config::{client_args, server_args, trimmed, ClientConfig, IpVersion, ServerConfig};
use iperf_rust::messages::{clean_error_line, launch_error_message};
use iperf_rust::monitor::{client_click, server_click, Click, EventMonitor, UiAction};
use iperf_rust::parser::Event;
use iperf_rust::rate::{Rate, RateUnit};
use iperf_rust::text::{decimal_string, signed_decimal_string};

fn base_client() -> ClientConfig {
    ClientConfig {
        host: "127.0.0.1".to_string(),
        port: 5201,
        duration: 10,
        parallel: 1,
        reverse: false,
        bidir: false,
        udp: false,
        bitrate: String::new(),
        omit: 0,
        ip_version: IpVersion::Auto,
        bind: String::new(),
        window: String::new(),
        length: String::new(),
        mss: 0,
        congestion: String::new(),
        no_delay: false,
        zerocopy: false,
    }
}

fn rate(n: &str, unit: RateUnit) -> Rate {
    Rate { number: n.to_string(), unit }
}

// ----- command lines -----

#[test]
fn client_args_default() {
    assert_eq!(
        client_args(&base_client()),
        vec!["-c", "127.0.0.1", "-p", "5201", "-t", "10", "-i", "1", "--forceflush"]
    );
}

#[test]
fn client_args_all_options() {
    let mut c = base_client();
    c.parallel = 4;
    c.reverse = true;
    c.udp = true;
    c.bitrate = "  100M ".to_string();
    c.omit = 2;
    c.ip_version = IpVersion::V6;
    c.bind = " 10.0.0.1".to_string();
    c.window = "256K".to_string();
    c.length = "128K".to_string();
    c.mss = 1400;
    c.congestion = "bbr ".to_string();
    c.no_delay = true;
    c.zerocopy = true;
    assert_eq!(
        client_args(&c),
        vec![
            "-c", "127.0.0.1", "-p", "5201", "-t", "10", "-i", "1", "--forceflush", "-P", "4",
            "-R", "-u", "-b", "100M", "-O", "2", "-6", "-B", "10.0.0.1", "-w", "256K", "-l",
            "128K", "-M", "1400", "-C", "bbr", "-N", "-Z"
        ]
    );
}

#[test]
fn bidir_overrides_reverse() {
    let mut c = base_client();
    c.bidir = true;
    c.reverse = true;
    let with_reverse = client_args(&c);
    c.reverse = false;
    assert_eq!(with_reverse, client_args(&c));
    assert!(with_reverse.iter().any(|a| a == "--bidir"));
    assert!(!with_reverse.iter().any(|a| a == "-R"));
}

#[test]
fn udp_without_bitrate_is_unlimited() {
    let mut c = base_client();
    c.udp = true;
    c.bitrate = "   ".to_string();
    let a = client_args(&c);
    assert_eq!(&a[9..], &["-u", "-b", "0"]);
}

#[test]
fn tcp_without_bitrate_adds_nothing() {
    let mut c = base_client();
    c.bitrate = " ".to_string();
    c.ip_version = IpVersion::V4;
    assert_eq!(&client_args(&c)[9..], &["-4"]);
}

#[test]
fn server_args_options() {
    let s = ServerConfig { port: 6000, bind: String::new(), one_off: false };
    assert_eq!(server_args(&s), vec!["-s", "-p", "6000", "-i", "1", "--forceflush"]);
    let s2 = ServerConfig { port: 1, bind: " ::1 ".to_string(), one_off: true };
    assert_eq!(server_args(&s2), vec!["-s", "-p", "1", "-i", "1", "--forceflush", "-B", "::1", "-1"]);
}

#[test]
fn decimal_rendering() {
    assert_eq!(decimal_string(0), "0");
    assert_eq!(decimal_string(65535), "65535");
    assert_eq!(decimal_string(u64::MAX), u64::MAX.to_string());
    assert_eq!(signed_decimal_string(-2), "-2");
    assert_eq!(signed_decimal_string(i32::MIN), i32::MIN.to_string());
    assert_eq!(signed_decimal_string(137), "137");
}

#[test]
fn trimming_uses_unicode_whitespace() {
    assert_eq!(trimmed(&"\u{2003} a b \n".to_string()), "a b");
    assert_eq!(trimmed(&"   ".to_string()), "");
}

// ----- process messages -----

#[test]
fn error_lines_are_cleaned() {
    assert_eq!(
        clean_error_line("iperf3: error - unable to connect to server: Connection refused").as_deref(),
        Some("unable to connect to server: Connection refused")
    );
    assert_eq!(clean_error_line("  iperf3: interrupt  ").as_deref(), Some("interrupt"));
    assert_eq!(clean_error_line("something else ").as_deref(), Some("something else"));
    assert_eq!(clean_error_line("iperf3: exiting"), None);
    assert_eq!(clean_error_line("   "), None);
}

#[test]
fn launch_messages() {
    assert_eq!(
        launch_error_message(true, "ignored"),
        "iperf3 not found in PATH. Install it (e.g. 'sudo apt install iperf3' or 'sudo dnf install iperf3')."
    );
    assert_eq!(launch_error_message(false, "Permission denied"), "Could not launch iperf3: Permission denied");
}

// ----- the interface's decisions -----

#[test]
fn interval_moves_needle_and_status_on_client() {
    let mut m = EventMonitor::new(false);
    let a = m.handle(&Event::Interval { mbps: rate("985", RateUnit::Megabits) });
    assert_eq!(a.len(), 2);
    assert!(matches!(&a[0], UiAction::SetTarget(r) if r.number == "985"));
    assert!(matches!(&a[1], UiAction::ShowMeasuring(_)));
    let mut s = EventMonitor::new(true);
    let b = s.handle(&Event::Interval { mbps: rate("1", RateUnit::Gigabits) });
    assert_eq!(b.len(), 1);
}

#[test]
fn connection_and_waiting_status() {
    let mut m = EventMonitor::new(true);
    let a = m.handle(&Event::ClientConnected { peer: "10.0.0.2".to_string() });
    assert!(matches!(&a[0], UiAction::SetStatus(s) if s == "Client connected: 10.0.0.2 — measuring…"));
    let b = m.handle(&Event::Listening);
    assert!(matches!(&b[0], UiAction::SetStatus(s) if s == "Waiting for client connections…"));
    let c = m.handle(&Event::ClientDisconnected);
    assert!(matches!(c[0], UiAction::ResetMeter));
    let mut client = EventMonitor::new(false);
    assert!(client.handle(&Event::Listening).is_empty());
    assert!(client.handle(&Event::Log("x".to_string())).is_empty());
}

#[test]
fn first_error_shown_on_abnormal_exit() {
    let mut m = EventMonitor::new(false);
    m.handle(&Event::Error("unable to connect".to_string()));
    let e2 = m.handle(&Event::Error("later".to_string()));
    assert!(matches!(&e2[0], UiAction::SetStatus(s) if s == "later"));
    let f = m.handle(&Event::Finished(1));
    assert_eq!(f.len(), 5);
    assert!(matches!(f[0], UiAction::ClearSession));
    assert!(matches!(f[1], UiAction::ResetMeter));
    assert!(matches!(&f[2], UiAction::RestoreButton(l) if l == "Start test"));
    assert!(matches!(&f[3], UiAction::SetStatus(s) if s == "iperf3 error: unable to connect"));
    assert!(matches!(f[4], UiAction::StopLoop));
}

#[test]
fn exit_code_shown_without_error() {
    let mut m = EventMonitor::new(true);
    let f = m.handle(&Event::Finished(-2));
    assert!(matches!(&f[2], UiAction::RestoreButton(l) if l == "Start server"));
    assert!(matches!(&f[3], UiAction::SetStatus(s) if s == "iperf3 terminated (code -2)."));
    let g = EventMonitor::new(false).handle(&Event::Finished(0));
    assert_eq!(g.len(), 4);
    assert!(matches!(g[3], UiAction::StopLoop));
    let h = EventMonitor::new(false).handle(&Event::Finished(-1));
    assert_eq!(h.len(), 4);
}

#[test]
fn summary_shows_result() {
    let mut m = EventMonitor::new(false);
    let a = m.handle(&Event::Summary {
        sender_mbps: rate("940", RateUnit::Megabits),
        receiver_mbps: rate("930", RateUnit::Megabits),
    });
    assert!(matches!(&a[0], UiAction::ShowResult { sender, receiver } if sender.number == "940" && receiver.number == "930"));
}

#[test]
fn button_clicks() {
    let mut c = base_client();
    assert!(matches!(client_click(true, &c), Click::Stop { status, label } if status == "Test stopped." && label == "Start test"));
    assert!(matches!(client_click(false, &c), Click::Start { status, label } if status == "Connecting…" && label == "Stop"));
    c.host = String::new();
    assert!(matches!(client_click(false, &c), Click::Refuse { status } if status == "Specify a server (host or IP)."));
    assert!(matches!(server_click(true, 5201), Click::Stop { status, label } if status == "Stopped." && label == "Start server"));
    assert!(matches!(server_click(false, 5201), Click::Start { status, label } if status == "Listening on port 5201…" && label == "Stop server"));
}
