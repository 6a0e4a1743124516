//! Fingerprints of the device categories, the ordered fingerprint table, and
//! classification of a response body against it.
use vstd::prelude::*;
use crate::devices::{printer_order, BuildingPageType, DellController, NetworkDevice, Printer};
use crate::text::{contains_seq, str_contains};
use crate::util::IpWrapper;

verus! {

/// The character sequence inside an optional string.
pub open spec fn opt_view(o: Option<String>) -> Option<Seq<char>> {
    match o {
        Some(s) => Some(s@),
        None => None,
    }
}

/// Something that a response page can be recognised by.
pub trait PageElement {
    /// The text whose presence in a page served from address `ip` identifies
    /// `self`, if there is one.
    spec fn element(&self, ip: Seq<char>) -> Option<Seq<char>>;

    /// Writes the identifying text for a page served from `ip`.
    fn page_element(&self, ip: &IpWrapper) -> (r: Option<String>)
        ensures
            opt_view(r) == self.element(ip@),
    ;
}

impl PageElement for DellController {
    open spec fn element(&self, ip: Seq<char>) -> Option<Seq<char>> {
        match self {
            DellController::Eight => Some("<a href=\"https://"@ + ip + "/start.html\">here</a>"@),
            DellController::Nine => Some(
                "<a href=\"https://"@ + ip + "/restgui/start.html\">here</a>"@,
            ),
        }
    }

    fn page_element(&self, ip: &IpWrapper) -> (r: Option<String>) {
        let mut s = String::from_str("<a href=\"https://");
        s.append(ip.0.as_str());
        match self {
            DellController::Eight => s.append("/start.html\">here</a>"),
            DellController::Nine => s.append("/restgui/start.html\">here</a>"),
        }
        Some(s)
    }
}

impl PageElement for BuildingPageType {
    open spec fn element(&self, ip: Seq<char>) -> Option<Seq<char>> {
        match self {
            BuildingPageType::Login => Some(
                "<button type=\"submit\" id=\"login\"></button></label>"@,
            ),
            BuildingPageType::Controller => Some("h5.02c.518 0 .918-.187 1.255-.56.12-.147.28"@),
        }
    }

    fn page_element(&self, ip: &IpWrapper) -> (r: Option<String>) {
        let s = match self {
            BuildingPageType::Login => "<button type=\"submit\" id=\"login\"></button></label>",
            BuildingPageType::Controller => "h5.02c.518 0 .918-.187 1.255-.56.12-.147.28",
        };
        Some(String::from_str(s))
    }
}

impl PageElement for Printer {
    open spec fn element(&self, ip: Seq<char>) -> Option<Seq<char>> {
        if self.spec_is_unknown() {
            None
        } else {
            Some(self.name())
        }
    }

    fn page_element(&self, ip: &IpWrapper) -> (r: Option<String>) {
        if self.is_unknown() {
            None
        } else {
            Some(self.to_string())
        }
    }
}

impl PageElement for NetworkDevice {
    open spec fn element(&self, ip: Seq<char>) -> Option<Seq<char>> {
        match self {
            NetworkDevice::IntegrateDellRemoveAccessController(d) => d.element(ip),
            NetworkDevice::CiscoRouter => Some(
                "<script>window.onload=function(){ url ='/webui';window.location.href=url;}</script>"@,
            ),
            NetworkDevice::HpPrinter(p) => p.element(ip),
            NetworkDevice::FileMaker => Some("FileMaker Database Server Website"@),
            NetworkDevice::VirataEmWeb => Some(
                "Access Denied. Your IP Address cannot access this device"@,
            ),
            NetworkDevice::MitsubishiAC => Some("MITSUBISHI Air Conditioning Control System"@),
            NetworkDevice::BuildingOperations(b) => b.element(ip),
            NetworkDevice::MiVoice => Some("MiVoice Office Communications Platform"@),
            NetworkDevice::Fortinet => Some("<a href=\"https://"@ + ip + "/ng\">here</a>.</p"@),
            NetworkDevice::Unidentified => None,
        }
    }

    fn page_element(&self, ip: &IpWrapper) -> (r: Option<String>) {
        let s = match self {
            NetworkDevice::IntegrateDellRemoveAccessController(d) => {
                return d.page_element(ip);
            },
            NetworkDevice::HpPrinter(p) => {
                return p.page_element(ip);
            },
            NetworkDevice::BuildingOperations(b) => {
                return b.page_element(ip);
            },
            NetworkDevice::Fortinet => {
                let mut s = String::from_str("<a href=\"https://");
                s.append(ip.0.as_str());
                s.append("/ng\">here</a>.</p");
                return Some(s);
            },
            NetworkDevice::Unidentified => {
                return None;
            },
            NetworkDevice::CiscoRouter => "<script>window.onload=function(){ url ='/webui';window.location.href=url;}</script>",
            NetworkDevice::FileMaker => "FileMaker Database Server Website",
            NetworkDevice::VirataEmWeb => "Access Denied. Your IP Address cannot access this device",
            NetworkDevice::MitsubishiAC => "MITSUBISHI Air Conditioning Control System",
            NetworkDevice::MiVoice => "MiVoice Office Communications Platform",
        };
        Some(String::from_str(s))
    }
}

/// The fingerprint table in the order it is consulted: identity controllers
/// and building-operation pages first, then vendor banners, then printer models.
pub open spec fn fingerprint_order() -> Seq<NetworkDevice> {
    seq![
        NetworkDevice::IntegrateDellRemoveAccessController(DellController::Eight),
        NetworkDevice::IntegrateDellRemoveAccessController(DellController::Nine),
        NetworkDevice::BuildingOperations(BuildingPageType::Controller),
        NetworkDevice::BuildingOperations(BuildingPageType::Login),
        NetworkDevice::CiscoRouter,
        NetworkDevice::FileMaker,
        NetworkDevice::MitsubishiAC,
        NetworkDevice::VirataEmWeb,
        NetworkDevice::MiVoice,
        NetworkDevice::Fortinet,
    ] + printer_order().map_values(|p: Printer| NetworkDevice::HpPrinter(p))
}

/// The fingerprint of `d` for a page from `ip` occurs in `text`.
pub open spec fn entry_matches(d: NetworkDevice, ip: Seq<char>, text: Seq<char>) -> bool {
    match d.element(ip) {
        Some(e) => contains_seq(text, e),
        None => false,
    }
}

/// What a page is taken for when no table entry matches it.
pub open spec fn legacy_fallback(text: Seq<char>) -> NetworkDevice {
    if contains_seq(text, "HP LaserJet"@) {
        NetworkDevice::HpPrinter(Printer::UnknownLaserJet)
    } else if contains_seq(text, "HP OfficeJet"@) {
        NetworkDevice::HpPrinter(Printer::UnknownOfficeJet)
    } else if contains_seq(text, "/framework/Unified.css"@) {
        NetworkDevice::HpPrinter(Printer::UnknownJavascriptPrinter)
    } else {
        NetworkDevice::Unidentified
    }
}

/// The first table entry from position `i` on whose fingerprint occurs in
/// `text`, or the fallback when there is none.
pub open spec fn classify_from(ip: Seq<char>, text: Seq<char>, i: int) -> NetworkDevice
    decreases fingerprint_order().len() - i,
{
    if i < 0 || i >= fingerprint_order().len() {
        legacy_fallback(text)
    } else if entry_matches(fingerprint_order()[i], ip, text) {
        fingerprint_order()[i]
    } else {
        classify_from(ip, text, i + 1)
    }
}

/// The device that a page with body `text`, served from `ip`, is recognised as.
pub open spec fn classify(ip: Seq<char>, text: Seq<char>) -> NetworkDevice {
    classify_from(ip, text, 0)
}

impl NetworkDevice {
    /// The fingerprint table, in the order it is consulted.
    pub fn all() -> (r: Vec<NetworkDevice>)
        ensures
            r@ == fingerprint_order(),
    {
        let mut r: Vec<NetworkDevice> = Vec::new();
        r.push(NetworkDevice::IntegrateDellRemoveAccessController(DellController::Eight));
        r.push(NetworkDevice::IntegrateDellRemoveAccessController(DellController::Nine));
        r.push(NetworkDevice::BuildingOperations(BuildingPageType::Controller));
        r.push(NetworkDevice::BuildingOperations(BuildingPageType::Login));
        r.push(NetworkDevice::CiscoRouter);
        r.push(NetworkDevice::FileMaker);
        r.push(NetworkDevice::MitsubishiAC);
        r.push(NetworkDevice::VirataEmWeb);
        r.push(NetworkDevice::MiVoice);
        r.push(NetworkDevice::Fortinet);
        let ghost head = r@;
        let printers = Printer::all();
        let mut i: usize = 0;
        while i < printers.len()
            invariant
                printers@ == printer_order(),
                i <= printers@.len(),
                r@ == head + printers@.subrange(0, i as int).map_values(
                    |p: Printer| NetworkDevice::HpPrinter(p),
                ),
            decreases printers@.len() - i,
        {
            r.push(NetworkDevice::HpPrinter(printers[i]));
            i = i + 1;
            assert(printers@.subrange(0, i as int).map_values(
                |p: Printer| NetworkDevice::HpPrinter(p),
            ) =~= printers@.subrange(0, i - 1 as int).map_values(
                |p: Printer| NetworkDevice::HpPrinter(p),
            ).push(NetworkDevice::HpPrinter(printers@[i - 1 as int])));
        }
        assert(printers@.subrange(0, i as int) =~= printers@);
        assert(r@ =~= fingerprint_order());
        r
    }

    /// Recognises the device behind a response body from `ip`: the first entry
    /// of the fingerprint table whose fingerprint occurs in `text` wins; with
    /// none, "HP LaserJet", "HP OfficeJet" and the JS framework stylesheet are
    /// tried in that order, and otherwise the device is unidentified.
    pub fn from_response(ip: &IpWrapper, text: String) -> (r: Self)
        ensures
            r == classify(ip@, text@),
    {
        let table = NetworkDevice::all();
        let mut i: usize = 0;
        while i < table.len()
            invariant
                table@ == fingerprint_order(),
                i <= table@.len(),
                classify(ip@, text@) == classify_from(ip@, text@, i as int),
            decreases table@.len() - i,
        {
            let t = table[i];
            if let Some(e) = t.page_element(ip) {
                if str_contains(text.as_str(), e.as_str()) {
                    return t;
                }
            }
            i = i + 1;
        }
        if str_contains(text.as_str(), "HP LaserJet") {
            return NetworkDevice::HpPrinter(Printer::UnknownLaserJet);
        }
        if str_contains(text.as_str(), "HP OfficeJet") {
            return NetworkDevice::HpPrinter(Printer::UnknownOfficeJet);
        }
        if str_contains(text.as_str(), "/framework/Unified.css") {
            return NetworkDevice::HpPrinter(Printer::UnknownJavascriptPrinter);
        }
        NetworkDevice::Unidentified
    }
}

proof fn lemma_classify_from_first_match(ip: Seq<char>, text: Seq<char>, s: int, i: int)
    requires
        0 <= s <= i < fingerprint_order().len(),
        entry_matches(fingerprint_order()[i], ip, text),
    ensures
        exists|j: int|
            s <= j <= i && classify_from(ip, text, s) == fingerprint_order()[j] && entry_matches(
                #[trigger] fingerprint_order()[j],
                ip,
                text,
            ) && forall|k: int| s <= k < j ==> !entry_matches(
                #[trigger] fingerprint_order()[k],
                ip,
                text,
            ),
    decreases i - s,
{
    if entry_matches(fingerprint_order()[s], ip, text) {
        assert(classify_from(ip, text, s) == fingerprint_order()[s]);
    } else {
        lemma_classify_from_first_match(ip, text, s + 1, i);
        let j = choose|j: int|
            s + 1 <= j <= i && classify_from(ip, text, s + 1) == fingerprint_order()[j]
                && entry_matches(#[trigger] fingerprint_order()[j], ip, text) && forall|k: int|
                s + 1 <= k < j ==> !entry_matches(#[trigger] fingerprint_order()[k], ip, text);
        assert(forall|k: int| s <= k < j ==> !entry_matches(#[trigger] fingerprint_order()[k], ip, text));
    }
}

/// First match wins: when the fingerprint of entry `i` of the table occurs in
/// the body, the result is an entry at `i` or before it whose fingerprint
/// occurs too, and no earlier entry's does. The legacy fallbacks and
/// "unidentified" are then never the result.
pub proof fn lemma_first_match_wins(ip: Seq<char>, text: Seq<char>, i: int)
    requires
        0 <= i < fingerprint_order().len(),
        entry_matches(fingerprint_order()[i], ip, text),
    ensures
        exists|j: int|
            0 <= j <= i && classify(ip, text) == fingerprint_order()[j] && forall|k: int|
                0 <= k < j ==> !entry_matches(#[trigger] fingerprint_order()[k], ip, text),
        entry_matches(classify(ip, text), ip, text),
        !(classify(ip, text) is Unidentified),
        !(classify(ip, text) matches NetworkDevice::HpPrinter(p) && p.spec_is_unknown()),
{
    lemma_classify_from_first_match(ip, text, 0, i);
}

/// A page that carries a remote access controller's fingerprint is recognised
/// as that controller, whatever vendor banners or printer names it holds too.
pub proof fn lemma_identity_controller_wins(ip: Seq<char>, text: Seq<char>, v: DellController)
    requires
        entry_matches(NetworkDevice::IntegrateDellRemoveAccessController(v), ip, text),
    ensures
        classify(ip, text) is IntegrateDellRemoveAccessController,
{
    let i: int = match v {
        DellController::Eight => 0,
        DellController::Nine => 1,
    };
    assert(fingerprint_order()[i] == NetworkDevice::IntegrateDellRemoveAccessController(v));
    lemma_first_match_wins(ip, text, i);
}

} // verus!
