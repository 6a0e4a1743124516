use device_scan::devices::{NetworkDevice, Printer};
use device_scan::scanner::{chunk_hosts, devices_report, gather, scan, ProbeReply, ScanWorker};
use device_scan::threads::{AppendMessage, ProgressBarMessage};
use device_scan::util::{hosts_from, subnet_generator, IpWrapper, ScanError};

const CISCO: &str =
    "<script>window.onload=function(){ url ='/webui';window.location.href=url;}</script>";

fn ip(s: &str) -> IpWrapper {
    IpWrapper(String::from(s))
}

fn failed(timed_out: bool, connect_failed: bool) -> ProbeReply {
    ProbeReply::Failed { timed_out, connect_failed, detail: String::from("detail") }
}

/// Mock network: one Cisco router, one printer, one host that times out,
/// the rest refuse connections.
fn mock_reply(addr: &str) -> ProbeReply {
    match addr {
        "10.0.5.1" => ProbeReply::Body(format!("<html>{CISCO}</html>")),
        "10.0.7.1" => ProbeReply::Body(String::from("HP LaserJet")),
        "10.0.9.1" => failed(true, false),
        _ => failed(false, true),
    }
}

fn run_scan(pattern: &str, threads: usize) -> Result<Vec<(IpWrapper, NetworkDevice)>, ScanError> {
    let hosts = hosts_from(subnet_generator(String::from(pattern)));
    let chunks = chunk_hosts(&hosts, threads)?;
    let mut per_task = vec![];
    for chunk in chunks.iter().rev() {
        let mut worker = ScanWorker::new(false, true, true);
        for server in chunk {
            let outcome = scan(server, mock_reply(&server.0));
            worker.record(server, outcome);
        }
        per_task.push(worker.found);
    }
    Ok(gather(per_task))
}

fn sorted_lines(found: &[(IpWrapper, NetworkDevice)]) -> Vec<String> {
    let mut v: Vec<String> = found.iter().map(|(i, d)| format!("{}:{}", i.0, d.to_string())).collect();
    v.sort();
    v
}

#[test]
fn answer_is_classified() {
    let r = scan(&ip("10.0.5.1"), ProbeReply::Body(String::from(CISCO)));
    assert!(matches!(r, Ok(NetworkDevice::CiscoRouter)));
    let r = scan(&ip("10.0.5.1"), ProbeReply::Body(String::new()));
    assert!(matches!(r, Ok(NetworkDevice::Unidentified)));
}

#[test]
fn failures_map_to_error_kinds() {
    assert!(matches!(scan(&ip("a"), failed(true, true)), Err(ScanError::Timeout)));
    assert!(matches!(scan(&ip("a"), failed(true, false)), Err(ScanError::Timeout)));
    assert!(matches!(scan(&ip("a"), failed(false, true)), Err(ScanError::Connection)));
    match scan(&ip("a"), failed(false, false)) {
        Err(ScanError::OtherError(d)) => assert_eq!(d, "detail"),
        _ => panic!("expected another error"),
    }
}

#[test]
fn worker_reports_found_device() {
    let mut w = ScanWorker::new(false, true, true);
    let ev = w.record(&ip("10.0.5.1"), Ok(NetworkDevice::CiscoRouter));
    assert_eq!(ev.progress.len(), 2);
    match &ev.progress[0] {
        ProgressBarMessage::Message(m) => {
            assert_eq!(m, "Valid device type of Cisco Router on https://10.0.5.1")
        }
        _ => panic!("expected a message"),
    }
    assert!(matches!(ev.progress[1], ProgressBarMessage::Increment));
    match ev.amendment {
        Some(AppendMessage::Amendment(a)) => assert_eq!(a, "10.0.5.1:Cisco Router\n"),
        _ => panic!("expected an amendment"),
    }
    assert_eq!(w.found.len(), 1);
    assert_eq!(w.found[0].0 .0, "10.0.5.1");
    assert_eq!(w.found[0].1, NetworkDevice::CiscoRouter);
}

#[test]
fn quiet_timeout_logs_nothing() {
    let mut w = ScanWorker::new(false, true, true);
    let outcome = scan(&ip("10.0.9.1"), failed(true, false));
    assert!(matches!(outcome, Err(ScanError::Timeout)));
    let ev = w.record(&ip("10.0.9.1"), outcome);
    assert_eq!(ev.progress.len(), 1);
    assert!(matches!(ev.progress[0], ProgressBarMessage::Increment));
    assert!(ev.amendment.is_none());
    assert!(w.found.is_empty());
}

#[test]
fn verbose_timeout_logs_address() {
    let mut w = ScanWorker::new(true, true, true);
    let ev = w.record(&ip("10.0.9.1"), Err(ScanError::Timeout));
    assert_eq!(ev.progress.len(), 2);
    match &ev.progress[0] {
        ProgressBarMessage::Message(m) => {
            assert_eq!(m, "10.0.9.1 timeout occurred after 10s");
            assert!(m.contains("10.0.9.1"));
        }
        _ => panic!("expected a message"),
    }
    assert!(w.found.is_empty());
}

#[test]
fn other_errors_are_always_logged() {
    let mut w = ScanWorker::new(false, true, false);
    let ev = w.record(&ip("h"), Err(ScanError::OtherError(String::from("tls"))));
    match &ev.progress[0] {
        ProgressBarMessage::Message(m) => assert_eq!(m, "h other weird web error tls"),
        _ => panic!("expected a message"),
    }
}

#[test]
fn worker_without_consumers_sends_nothing() {
    let mut w = ScanWorker::new(true, false, false);
    let ev = w.record(&ip("h"), Ok(NetworkDevice::Fortinet));
    assert!(ev.progress.is_empty());
    assert!(ev.amendment.is_none());
    assert_eq!(w.found.len(), 1);
}

#[test]
fn more_threads_than_hosts_is_rejected() {
    let hosts = hosts_from(vec![String::from("a"), String::from("b")]);
    assert!(matches!(chunk_hosts(&hosts, 3), Err(ScanError::Configuration)));
    assert!(matches!(chunk_hosts(&hosts, 0), Err(ScanError::Configuration)));
    assert!(matches!(run_scan("10.0.0.1", 2), Err(ScanError::Configuration)));
}

#[test]
fn chunks_cover_every_host_once() {
    let names: Vec<String> = (0..10).map(|i| format!("h{i}")).collect();
    let hosts = hosts_from(names.clone());
    let chunks = chunk_hosts(&hosts, 4).ok().unwrap();
    let sizes: Vec<usize> = chunks.iter().map(|c| c.len()).collect();
    assert_eq!(sizes, vec![3, 3, 2, 2]);
    let flat: Vec<String> = chunks.iter().flatten().map(|h| h.0.clone()).collect();
    assert_eq!(flat, names);
    let one = chunk_hosts(&hosts, 10).ok().unwrap();
    assert!(one.iter().all(|c| c.len() == 1));
    let all = chunk_hosts(&hosts, 1).ok().unwrap();
    assert_eq!(all.len(), 1);
    assert_eq!(all[0].len(), 10);
}

#[test]
fn gather_concatenates_in_given_order() {
    let a = vec![(ip("b"), NetworkDevice::MiVoice)];
    let b = vec![(ip("a"), NetworkDevice::Fortinet), (ip("c"), NetworkDevice::FileMaker)];
    let g = gather(vec![a, vec![], b]);
    let names: Vec<&str> = g.iter().map(|(i, _)| i.0.as_str()).collect();
    assert_eq!(names, vec!["b", "a", "c"]);
}

#[test]
fn report_lines() {
    let found = vec![
        (ip("10.0.5.1"), NetworkDevice::CiscoRouter),
        (ip("10.0.7.1"), NetworkDevice::HpPrinter(Printer::UnknownLaserJet)),
    ];
    assert_eq!(
        devices_report(&found),
        "10.0.5.1:Cisco Router\n10.0.7.1:HP Printer Unknown LaserJet"
    );
    assert_eq!(devices_report(&vec![]), "");
}

#[test]
fn end_to_end_single_worker() {
    let hosts = subnet_generator(String::from("10.0.x.1"));
    assert_eq!(hosts.len(), 255);
    let found = run_scan("10.0.x.1", 1).ok().unwrap();
    assert_eq!(found.len(), 2);
    assert_eq!(found[0].0 .0, "10.0.5.1");
    assert_eq!(found[0].1, NetworkDevice::CiscoRouter);
    assert_eq!(found[1].1, NetworkDevice::HpPrinter(Printer::UnknownLaserJet));
    assert!(found.iter().all(|(i, _)| i.0 != "10.0.9.1"));
    let report = devices_report(&found);
    assert!(report.lines().any(|l| l == "10.0.5.1:Cisco Router"));
}

#[test]
fn result_set_same_for_any_worker_count() {
    let base = sorted_lines(&run_scan("10.0.x.1", 1).ok().unwrap());
    for t in [2, 3, 7, 16, 20, 254, 255] {
        let r = sorted_lines(&run_scan("10.0.x.1", t).ok().unwrap());
        assert_eq!(r, base);
    }
    let again = sorted_lines(&run_scan("10.0.x.1", 1).ok().unwrap());
    assert_eq!(again, base);
}
