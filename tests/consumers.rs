use device_scan::args::{has_whitelisted_extension, PrintArgs, ScannerArgs};
use device_scan::threads::{AppendMessage, ProgressBarMessage, ProgressTracker, ResultAppender};

#[test]
fn progress_completes_on_last_increment() {
    let mut p = ProgressTracker::new(2);
    let s = p.handle(Some(ProgressBarMessage::Increment));
    assert!(s.advance && !s.stop && s.finish.is_none());
    let s = p.handle(Some(ProgressBarMessage::Message(String::from("line"))));
    assert_eq!(s.print, Some(String::from("line")));
    assert!(!s.advance && !s.stop);
    assert_eq!(p.position, 1);
    let s = p.handle(Some(ProgressBarMessage::Increment));
    assert!(s.advance && s.stop);
    assert_eq!(s.finish, Some(String::from("finished sending requests")));
    assert_eq!(p.position, 2);
    let s = p.handle(Some(ProgressBarMessage::Increment));
    assert!(s.stop && !s.advance && s.finish.is_none());
    assert_eq!(p.position, 2);
}

#[test]
fn progress_close_stops_early() {
    let mut p = ProgressTracker::new(5);
    p.handle(Some(ProgressBarMessage::Increment));
    let s = p.handle(Some(ProgressBarMessage::Close));
    assert!(s.stop && !s.advance);
    assert_eq!(s.finish, Some(String::from("prematurely done scanning")));
    assert_eq!(p.position, 1);
}

#[test]
fn progress_stops_when_channel_closes() {
    let mut p = ProgressTracker::new(5);
    let s = p.handle(None);
    assert!(s.stop && s.finish.is_none() && s.print.is_none());
    assert!(p.finished);
}

#[test]
fn progress_with_zero_total_finishes_on_first_event() {
    let mut p = ProgressTracker::new(0);
    let s = p.handle(Some(ProgressBarMessage::Message(String::from("m"))));
    assert!(s.stop);
    assert_eq!(s.finish, Some(String::from("finished sending requests")));
}

#[test]
fn appender_writes_until_closed() {
    let mut a = ResultAppender::new();
    assert_eq!(
        a.handle(Some(AppendMessage::Amendment(String::from("10.0.5.1:Cisco Router\n")))),
        Some(String::from("10.0.5.1:Cisco Router\n"))
    );
    assert_eq!(a.handle(Some(AppendMessage::Close)), None);
    assert!(!a.draining);
    assert_eq!(a.handle(Some(AppendMessage::Amendment(String::from("late")))), None);
}

#[test]
fn appender_stops_when_channel_closes() {
    let mut a = ResultAppender::new();
    assert_eq!(a.handle(None), None);
    assert!(!a.draining);
}

#[test]
fn scanner_defaults() {
    let a = ScannerArgs::default();
    assert_eq!(a.threads, 20);
    assert!(!a.verbose);
    assert_eq!(a.ip_subnet, "10.208.x.x");
    assert!(a.progress_bar);
    assert!(!a.append_file);
    assert_eq!(a.timeout, 2000);
}

#[test]
fn printer_address_drops_scheme() {
    let mut a = PrintArgs {
        ip: String::from("http://10.208.2.22"),
        file: String::from("Report.PDF"),
        copies: 1,
        bypass_ext: false,
        identify_formats: true,
        only_detect_formats: false,
    };
    assert_eq!(a.printer_address(), "10.208.2.22");
    a.ip = String::from("https://10.0.0.3/");
    assert_eq!(a.printer_address(), "10.0.0.3/");
    a.ip = String::from("10.0.0.4");
    assert_eq!(a.printer_address(), "10.0.0.4");
    a.ip = String::from("printer-http://x");
    assert_eq!(a.printer_address(), "printer-http://x");
}

#[test]
fn extension_whitelist_ignores_case() {
    let mut a = PrintArgs {
        ip: String::from("h"),
        file: String::from("Report.PDF"),
        copies: 1,
        bypass_ext: false,
        identify_formats: true,
        only_detect_formats: false,
    };
    assert!(a.file_whitelisted());
    a.file = String::from("notes.txt");
    assert!(a.file_whitelisted());
    a.file = String::from("memo.DocX");
    assert!(a.file_whitelisted());
    a.file = String::from("photo.png");
    assert!(!a.file_whitelisted());
    a.file = String::from("pdf");
    assert!(!a.file_whitelisted());
    assert!(has_whitelisted_extension(".txt"));
    assert!(!has_whitelisted_extension("a.TXT"));
}
