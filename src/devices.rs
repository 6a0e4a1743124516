//! The device categories that a scan can recognise, and their display names.
use vstd::prelude::*;

verus! {

/// What a probed host was recognised as.
#[derive(Clone, Copy, Debug, PartialEq, Eq, Structural)]
pub enum NetworkDevice {
    /// A remote access controller, by firmware generation.
    IntegrateDellRemoveAccessController(DellController),
    CiscoRouter,
    HpPrinter(Printer),
    FileMaker,
    VirataEmWeb,
    MitsubishiAC,
    /// A building-operations controller, by the page it serves.
    BuildingOperations(BuildingPageType),
    MiVoice,
    Fortinet,
    Unidentified,
}

/// The page that a building-operations controller answered with.
#[derive(Clone, Copy, Debug, PartialEq, Eq, Structural)]
pub enum BuildingPageType {
    Login,
    Controller,
}

/// Printer models, in their declared order; the last three are detected
/// printers whose model is not known.
#[derive(Clone, Copy, Debug, PartialEq, Eq, Structural)]
pub enum Printer {
    LaserJetMfpM528,
    LaserJet600M602,
    OfficeJetPro8702,
    ColorLaserJetMfpM577,
    ColorLaserJetM750,
    LaserJetM402dne,
    LaserJetM402dn,
    LaserJetM605,
    LaserJetProMfpM521dn,
    ColorLaserJetCp5520Series,
    LaserJetM506,
    LaserJetM402n,
    LaserJetMfpM527,
    LaserJetMfpM227fdw,
    LaserJet500MfpM525,
    ColorLaserJetFlowMfpM681,
    LaserJetM203dw,
    LaserJetMfpM426fdw,
    LaserJetMfpM635,
    OfficeJetPro8720,

    UnknownJavascriptPrinter,
    UnknownLaserJet,
    UnknownOfficeJet,
}

/// Firmware generation of a remote access controller.
#[derive(Clone, Copy, Debug, PartialEq, Eq, Structural)]
pub enum DellController {
    Eight,
    Nine,
}

/// Every printer, in declared order.
pub open spec fn printer_order() -> Seq<Printer> {
    seq![
        Printer::LaserJetMfpM528,
        Printer::LaserJet600M602,
        Printer::OfficeJetPro8702,
        Printer::ColorLaserJetMfpM577,
        Printer::ColorLaserJetM750,
        Printer::LaserJetM402dne,
        Printer::LaserJetM402dn,
        Printer::LaserJetM605,
        Printer::LaserJetProMfpM521dn,
        Printer::ColorLaserJetCp5520Series,
        Printer::LaserJetM506,
        Printer::LaserJetM402n,
        Printer::LaserJetMfpM527,
        Printer::LaserJetMfpM227fdw,
        Printer::LaserJet500MfpM525,
        Printer::ColorLaserJetFlowMfpM681,
        Printer::LaserJetM203dw,
        Printer::LaserJetMfpM426fdw,
        Printer::LaserJetMfpM635,
        Printer::OfficeJetPro8720,
        Printer::UnknownJavascriptPrinter,
        Printer::UnknownLaserJet,
        Printer::UnknownOfficeJet,
    ]
}

impl Printer {
    /// Models of the newer generation.
    pub open spec fn spec_is_new(self) -> bool {
        self is LaserJetMfpM528 || self is ColorLaserJetFlowMfpM681 || self is LaserJetMfpM635
            || self is OfficeJetPro8720
    }

    /// The fallbacks for a printer that was detected but whose model is not known.
    pub open spec fn spec_is_unknown(self) -> bool {
        self is UnknownOfficeJet || self is UnknownLaserJet || self is UnknownJavascriptPrinter
    }

    /// Whether this model is of the newer generation.
    pub fn is_new(&self) -> (r: bool)
        ensures
            r == self.spec_is_new(),
    {
        match self {
            Printer::LaserJetMfpM528 | Printer::ColorLaserJetFlowMfpM681 | Printer::LaserJetMfpM635
            | Printer::OfficeJetPro8720 => true,
            _ => false,
        }
    }

    /// Whether this is one of the unknown-model fallbacks.
    pub fn is_unknown(&self) -> (r: bool)
        ensures
            r == self.spec_is_unknown(),
    {
        match self {
            Printer::UnknownOfficeJet | Printer::UnknownLaserJet | Printer::UnknownJavascriptPrinter => true,
            _ => false,
        }
    }

    /// Every printer, in declared order.
    pub fn all() -> (r: Vec<Printer>)
        ensures
            r@ == printer_order(),
    {
        let mut r: Vec<Printer> = Vec::new();
        r.push(Printer::LaserJetMfpM528);
        r.push(Printer::LaserJet600M602);
        r.push(Printer::OfficeJetPro8702);
        r.push(Printer::ColorLaserJetMfpM577);
        r.push(Printer::ColorLaserJetM750);
        r.push(Printer::LaserJetM402dne);
        r.push(Printer::LaserJetM402dn);
        r.push(Printer::LaserJetM605);
        r.push(Printer::LaserJetProMfpM521dn);
        r.push(Printer::ColorLaserJetCp5520Series);
        r.push(Printer::LaserJetM506);
        r.push(Printer::LaserJetM402n);
        r.push(Printer::LaserJetMfpM527);
        r.push(Printer::LaserJetMfpM227fdw);
        r.push(Printer::LaserJet500MfpM525);
        r.push(Printer::ColorLaserJetFlowMfpM681);
        r.push(Printer::LaserJetM203dw);
        r.push(Printer::LaserJetMfpM426fdw);
        r.push(Printer::LaserJetMfpM635);
        r.push(Printer::OfficeJetPro8720);
        r.push(Printer::UnknownJavascriptPrinter);
        r.push(Printer::UnknownLaserJet);
        r.push(Printer::UnknownOfficeJet);
        assert(r@ =~= printer_order());
        r
    }

    /// The display name of this model.
    pub open spec fn name(self) -> Seq<char> {
        match self {
            Printer::LaserJetMfpM528 => "LaserJet MFP M528"@,
            Printer::LaserJet600M602 => "LaserJet 600 M602"@,
            Printer::OfficeJetPro8702 => "OfficeJet Pro 8702"@,
            Printer::ColorLaserJetMfpM577 => "Color LaserJet MFP M577"@,
            Printer::ColorLaserJetM750 => "Color LaserJet M750"@,
            Printer::LaserJetM402dne => "LaserJet M402dne"@,
            Printer::LaserJetM402dn => "LaserJet M402dn"@,
            Printer::LaserJetM605 => "LaserJet M605"@,
            Printer::LaserJetProMfpM521dn => "LaserJet Pro MFP M521dn"@,
            Printer::ColorLaserJetCp5520Series => "Color LaserJet CP5520 Series"@,
            Printer::LaserJetM506 => "LaserJet M506"@,
            Printer::LaserJetM402n => "LaserJet M402n"@,
            Printer::LaserJetMfpM527 => "LaserJet MFP M527"@,
            Printer::LaserJetMfpM227fdw => "LaserJet MFP M227fdw"@,
            Printer::LaserJet500MfpM525 => "LaserJet 500 MFP M525"@,
            Printer::ColorLaserJetFlowMfpM681 => "Color LaserJet FlowMFP M681"@,
            Printer::LaserJetM203dw => "LaserJet M203dw"@,
            Printer::LaserJetMfpM426fdw => "LaserJet MFP M426fdw"@,
            Printer::LaserJetMfpM635 => "LaserJet MFP M635"@,
            Printer::OfficeJetPro8720 => "OfficeJet Pro 8720"@,
            Printer::UnknownJavascriptPrinter => "Unknown Javascript Printer"@,
            Printer::UnknownLaserJet => "Unknown LaserJet"@,
            Printer::UnknownOfficeJet => "Unknown OfficeJet"@,
        }
    }

    /// Writes the display name of this model.
    pub fn to_string(&self) -> (r: String)
        ensures
            r@ == self.name(),
    {
        let s = match self {
            Printer::LaserJetMfpM528 => "LaserJet MFP M528",
            Printer::LaserJet600M602 => "LaserJet 600 M602",
            Printer::OfficeJetPro8702 => "OfficeJet Pro 8702",
            Printer::ColorLaserJetMfpM577 => "Color LaserJet MFP M577",
            Printer::ColorLaserJetM750 => "Color LaserJet M750",
            Printer::LaserJetM402dne => "LaserJet M402dne",
            Printer::LaserJetM402dn => "LaserJet M402dn",
            Printer::LaserJetM605 => "LaserJet M605",
            Printer::LaserJetProMfpM521dn => "LaserJet Pro MFP M521dn",
            Printer::ColorLaserJetCp5520Series => "Color LaserJet CP5520 Series",
            Printer::LaserJetM506 => "LaserJet M506",
            Printer::LaserJetM402n => "LaserJet M402n",
            Printer::LaserJetMfpM527 => "LaserJet MFP M527",
            Printer::LaserJetMfpM227fdw => "LaserJet MFP M227fdw",
            Printer::LaserJet500MfpM525 => "LaserJet 500 MFP M525",
            Printer::ColorLaserJetFlowMfpM681 => "Color LaserJet FlowMFP M681",
            Printer::LaserJetM203dw => "LaserJet M203dw",
            Printer::LaserJetMfpM426fdw => "LaserJet MFP M426fdw",
            Printer::LaserJetMfpM635 => "LaserJet MFP M635",
            Printer::OfficeJetPro8720 => "OfficeJet Pro 8720",
            Printer::UnknownJavascriptPrinter => "Unknown Javascript Printer",
            Printer::UnknownLaserJet => "Unknown LaserJet",
            Printer::UnknownOfficeJet => "Unknown OfficeJet",
        };
        String::from_str(s)
    }
}

impl DellController {
    /// The display name of this generation.
    pub open spec fn name(self) -> Seq<char> {
        match self {
            DellController::Eight => "8"@,
            DellController::Nine => "9"@,
        }
    }

    /// Writes the display name of this generation.
    pub fn to_string(&self) -> (r: String)
        ensures
            r@ == self.name(),
    {
        match self {
            DellController::Eight => String::from_str("8"),
            DellController::Nine => String::from_str("9"),
        }
    }
}

impl BuildingPageType {
    /// The display name of this page type.
    pub open spec fn name(self) -> Seq<char> {
        match self {
            BuildingPageType::Login => "Login"@,
            BuildingPageType::Controller => "Controller"@,
        }
    }

    /// Writes the display name of this page type.
    pub fn to_string(&self) -> (r: String)
        ensures
            r@ == self.name(),
    {
        match self {
            BuildingPageType::Login => String::from_str("Login"),
            BuildingPageType::Controller => String::from_str("Controller"),
        }
    }
}

impl NetworkDevice {
    /// The display name of this device.
    pub open spec fn name(self) -> Seq<char> {
        match self {
            NetworkDevice::IntegrateDellRemoveAccessController(v) => "Integrate Dell Remove Access Controller "@
                + v.name(),
            NetworkDevice::CiscoRouter => "Cisco Router"@,
            NetworkDevice::HpPrinter(p) => "HP Printer "@ + p.name(),
            NetworkDevice::FileMaker => "FileMaker Database Server Website"@,
            NetworkDevice::VirataEmWeb => "Viarta EmWeb"@,
            NetworkDevice::MitsubishiAC => "Mitsubishi Air Conditioning"@,
            NetworkDevice::BuildingOperations(d) => "Building Operations "@ + d.name(),
            NetworkDevice::MiVoice => "MiVoice"@,
            NetworkDevice::Fortinet => "Fortinet"@,
            NetworkDevice::Unidentified => "Unidentified"@,
        }
    }

    /// Writes the display name of this device.
    pub fn to_string(&self) -> (r: String)
        ensures
            r@ == self.name(),
    {
        match self {
            NetworkDevice::IntegrateDellRemoveAccessController(v) => {
                let mut r = String::from_str("Integrate Dell Remove Access Controller ");
                let n = v.to_string();
                r.append(n.as_str());
                r
            },
            NetworkDevice::CiscoRouter => String::from_str("Cisco Router"),
            NetworkDevice::HpPrinter(p) => {
                let mut r = String::from_str("HP Printer ");
                let n = p.to_string();
                r.append(n.as_str());
                r
            },
            NetworkDevice::FileMaker => String::from_str("FileMaker Database Server Website"),
            NetworkDevice::VirataEmWeb => String::from_str("Viarta EmWeb"),
            NetworkDevice::MitsubishiAC => String::from_str("Mitsubishi Air Conditioning"),
            NetworkDevice::BuildingOperations(d) => {
                let mut r = String::from_str("Building Operations ");
                let n = d.to_string();
                r.append(n.as_str());
                r
            },
            NetworkDevice::MiVoice => String::from_str("MiVoice"),
            NetworkDevice::Fortinet => String::from_str("Fortinet"),
            NetworkDevice::Unidentified => String::from_str("Unidentified"),
        }
    }
}

} // verus!
