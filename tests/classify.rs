use device_scan::devices::{BuildingPageType, DellController, NetworkDevice, Printer};
use device_scan::elements::PageElement;
use device_scan::util::IpWrapper;

const CISCO: &str =
    "<script>window.onload=function(){ url ='/webui';window.location.href=url;}</script>";

fn ip(s: &str) -> IpWrapper {
    IpWrapper(String::from(s))
}

fn classify(addr: &str, body: &str) -> NetworkDevice {
    NetworkDevice::from_response(&ip(addr), String::from(body))
}

#[test]
fn empty_body_is_unidentified() {
    assert_eq!(classify("10.0.0.1", ""), NetworkDevice::Unidentified);
}

#[test]
fn unrelated_body_is_unidentified() {
    assert_eq!(classify("10.0.0.1", "<html>hello</html>"), NetworkDevice::Unidentified);
}

#[test]
fn cisco_fingerprint() {
    let body = format!("<html>{CISCO}</html>");
    assert_eq!(classify("10.0.5.1", &body), NetworkDevice::CiscoRouter);
}

#[test]
fn laserjet_banner_without_fingerprint_is_unknown_laserjet() {
    assert_eq!(
        classify("10.0.0.1", "<title>HP LaserJet</title>"),
        NetworkDevice::HpPrinter(Printer::UnknownLaserJet)
    );
}

#[test]
fn officejet_banner_is_unknown_officejet() {
    assert_eq!(
        classify("10.0.0.1", "HP OfficeJet ready"),
        NetworkDevice::HpPrinter(Printer::UnknownOfficeJet)
    );
}

#[test]
fn js_framework_is_unknown_javascript_printer() {
    assert_eq!(
        classify("10.0.0.1", "<link href=\"/framework/Unified.css\">"),
        NetworkDevice::HpPrinter(Printer::UnknownJavascriptPrinter)
    );
}

#[test]
fn laserjet_banner_before_officejet() {
    assert_eq!(
        classify("10.0.0.1", "HP OfficeJet HP LaserJet"),
        NetworkDevice::HpPrinter(Printer::UnknownLaserJet)
    );
}

#[test]
fn identity_controller_wins_over_banners() {
    let body = "HP LaserJet <a href=\"https://10.1.1.1/start.html\">here</a> FileMaker Database Server Website";
    assert_eq!(
        classify("10.1.1.1", body),
        NetworkDevice::IntegrateDellRemoveAccessController(DellController::Eight)
    );
}

#[test]
fn templated_fingerprint_needs_own_address() {
    let body = "<a href=\"https://10.1.1.2/restgui/start.html\">here</a>";
    assert_eq!(
        classify("10.1.1.2", body),
        NetworkDevice::IntegrateDellRemoveAccessController(DellController::Nine)
    );
    assert_eq!(classify("10.1.1.3", body), NetworkDevice::Unidentified);
}

#[test]
fn fortinet_fingerprint() {
    let body = "<p>Click <a href=\"https://172.16.0.9/ng\">here</a>.</p>";
    assert_eq!(classify("172.16.0.9", body), NetworkDevice::Fortinet);
}

#[test]
fn building_controller_before_vendor_banner() {
    let body = "MiVoice Office Communications Platform h5.02c.518 0 .918-.187 1.255-.56.12-.147.28";
    assert_eq!(
        classify("10.0.0.1", body),
        NetworkDevice::BuildingOperations(BuildingPageType::Controller)
    );
}

#[test]
fn building_login_page() {
    let body = "<button type=\"submit\" id=\"login\"></button></label>";
    assert_eq!(
        classify("10.0.0.1", body),
        NetworkDevice::BuildingOperations(BuildingPageType::Login)
    );
}

#[test]
fn printer_model_wins_over_legacy_banner() {
    assert_eq!(
        classify("10.0.0.1", "HP LaserJet MFP M528"),
        NetworkDevice::HpPrinter(Printer::LaserJetMfpM528)
    );
}

#[test]
fn longer_model_name_listed_first_wins() {
    assert_eq!(
        classify("10.0.0.1", "LaserJet M402dne"),
        NetworkDevice::HpPrinter(Printer::LaserJetM402dne)
    );
    assert_eq!(
        classify("10.0.0.1", "LaserJet M402dn"),
        NetworkDevice::HpPrinter(Printer::LaserJetM402dn)
    );
}

#[test]
fn vendor_banners() {
    assert_eq!(classify("h", "FileMaker Database Server Website"), NetworkDevice::FileMaker);
    assert_eq!(
        classify("h", "Access Denied. Your IP Address cannot access this device"),
        NetworkDevice::VirataEmWeb
    );
    assert_eq!(
        classify("h", "MITSUBISHI Air Conditioning Control System"),
        NetworkDevice::MitsubishiAC
    );
    assert_eq!(classify("h", "MiVoice Office Communications Platform"), NetworkDevice::MiVoice);
}

#[test]
fn table_order_and_size() {
    let all = NetworkDevice::all();
    assert_eq!(all.len(), 33);
    assert_eq!(all[0], NetworkDevice::IntegrateDellRemoveAccessController(DellController::Eight));
    assert_eq!(all[2], NetworkDevice::BuildingOperations(BuildingPageType::Controller));
    assert_eq!(all[4], NetworkDevice::CiscoRouter);
    assert_eq!(all[10], NetworkDevice::HpPrinter(Printer::LaserJetMfpM528));
    assert_eq!(all[32], NetworkDevice::HpPrinter(Printer::UnknownOfficeJet));
    let printers = Printer::all();
    assert_eq!(printers.len(), 23);
    assert_eq!(printers[19], Printer::OfficeJetPro8720);
}

#[test]
fn printer_generations() {
    assert!(Printer::LaserJetMfpM528.is_new());
    assert!(Printer::OfficeJetPro8720.is_new());
    assert!(!Printer::LaserJetM605.is_new());
    assert!(Printer::UnknownLaserJet.is_unknown());
    assert!(Printer::UnknownJavascriptPrinter.is_unknown());
    assert!(!Printer::LaserJetM605.is_unknown());
}

#[test]
fn display_names() {
    assert_eq!(NetworkDevice::CiscoRouter.to_string(), "Cisco Router");
    assert_eq!(
        NetworkDevice::HpPrinter(Printer::ColorLaserJetCp5520Series).to_string(),
        "HP Printer Color LaserJet CP5520 Series"
    );
    assert_eq!(
        NetworkDevice::IntegrateDellRemoveAccessController(DellController::Nine).to_string(),
        "Integrate Dell Remove Access Controller 9"
    );
    assert_eq!(
        NetworkDevice::BuildingOperations(BuildingPageType::Login).to_string(),
        "Building Operations Login"
    );
    assert_eq!(NetworkDevice::VirataEmWeb.to_string(), "Viarta EmWeb");
    assert_eq!(NetworkDevice::Unidentified.to_string(), "Unidentified");
    assert_eq!(Printer::ColorLaserJetFlowMfpM681.to_string(), "Color LaserJet FlowMFP M681");
}

#[test]
fn page_elements() {
    let a = ip("10.2.3.4");
    assert_eq!(
        NetworkDevice::Fortinet.page_element(&a),
        Some(String::from("<a href=\"https://10.2.3.4/ng\">here</a>.</p"))
    );
    assert_eq!(
        DellController::Eight.page_element(&a),
        Some(String::from("<a href=\"https://10.2.3.4/start.html\">here</a>"))
    );
    assert_eq!(Printer::UnknownLaserJet.page_element(&a), None);
    assert_eq!(
        Printer::LaserJetM605.page_element(&a),
        Some(String::from("LaserJet M605"))
    );
    assert_eq!(NetworkDevice::Unidentified.page_element(&a), None);
    assert_eq!(
        NetworkDevice::FileMaker.page_element(&a),
        Some(String::from("FileMaker Database Server Website"))
    );
}
