//! The settings of a scan and of a print job.
use vstd::prelude::*;
use crate::text::{has_prefix_at, is_prefix_at, remove_all, str_eq};

verus! {

/// How a scan runs.
pub struct ScannerArgs {
    /// How many workers probe at the same time.
    pub threads: usize,
    /// Also log timeouts and refused connections.
    pub verbose: bool,
    /// The address pattern to expand; `x` marks a wildcard octet.
    pub ip_subnet: String,
    /// Show a progress indicator.
    pub progress_bar: bool,
    /// Append each found device to the results file at once instead of
    /// writing them all at the end.
    pub append_file: bool,
    /// Time allowed for each probe, in milliseconds.
    pub timeout: u64,
}

impl Default for ScannerArgs {
    fn default() -> (r: ScannerArgs)
        ensures
            r.threads == 20,
            !r.verbose,
            r.ip_subnet@ == "10.208.x.x"@,
            r.progress_bar,
            !r.append_file,
            r.timeout == 2000,
    {
        ScannerArgs {
            threads: 20,
            verbose: false,
            ip_subnet: String::from_str("10.208.x.x"),
            progress_bar: true,
            append_file: false,
            timeout: 2000,
        }
    }
}

/// What to print, and where.
pub struct PrintArgs {
    /// The printer's address, possibly with an `http://` or `https://` prefix.
    pub ip: String,
    /// Path of the file to print.
    pub file: String,
    /// Number of copies.
    pub copies: u32,
    /// Print even where the file's extension is not known to work.
    pub bypass_ext: bool,
    /// Ask the printer which formats it accepts first.
    pub identify_formats: bool,
    /// Only ask the printer for its formats.
    pub only_detect_formats: bool,
}

/// The lowercase form of `s`, as `str::to_lowercase` gives it.
pub uninterp spec fn lower_of(s: Seq<char>) -> Seq<char>;

/// Relies on `str::to_lowercase`: the result depends on the characters alone.
#[verifier::external_body]
fn lowercase(s: &str) -> (r: String)
    ensures
        r@ == lower_of(s@),
{
    s.to_lowercase()
}

/// `s` ends with `suffix`.
pub open spec fn ends_with(s: Seq<char>, suffix: Seq<char>) -> bool {
    suffix.len() <= s.len() && s.subrange(s.len() - suffix.len(), s.len() as int) == suffix
}

/// A file name, already lowercased, ends with an extension known to print well.
pub open spec fn extension_whitelisted(lowered: Seq<char>) -> bool {
    ends_with(lowered, ".docx"@) || ends_with(lowered, ".pdf"@) || ends_with(lowered, ".txt"@)
}

fn ends_with_str(s: &str, suffix: &str) -> (r: bool)
    ensures
        r == ends_with(s@, suffix@),
{
    let n = s.unicode_len();
    let m = suffix.unicode_len();
    if m > n {
        return false;
    }
    str_eq(s.substring_char(n - m, n), suffix)
}

/// Whether a lowercased file name ends with `.docx`, `.pdf` or `.txt`.
pub fn has_whitelisted_extension(lowered: &str) -> (r: bool)
    ensures
        r == extension_whitelisted(lowered@),
{
    ends_with_str(lowered, ".docx") || ends_with_str(lowered, ".pdf") || ends_with_str(
        lowered,
        ".txt",
    )
}

/// The printer address of a possibly scheme-prefixed `ip`: where it starts
/// with `http`, every `http://` and then every `https://` is removed.
pub open spec fn printer_address_of(ip: Seq<char>) -> Seq<char> {
    if is_prefix_at(ip, "http"@, 0) {
        remove_all(remove_all(ip, "http://"@), "https://"@)
    } else {
        ip
    }
}

impl PrintArgs {
    /// The address to send the job to.
    pub fn printer_address(&self) -> (r: String)
        ensures
            r@ == printer_address_of(self.ip@),
    {
        if has_prefix_at(self.ip.as_str(), "http", 0) {
            let a = crate::text::remove_all_str(self.ip.as_str(), "http://");
            crate::text::remove_all_str(a.as_str(), "https://")
        } else {
            String::from_str(self.ip.as_str())
        }
    }

    /// Whether the file's extension, in lowercase, is one known to print well.
    pub fn file_whitelisted(&self) -> (r: bool)
        ensures
            r == extension_whitelisted(lower_of(self.file@)),
    {
        let lowered = lowercase(self.file.as_str());
        has_whitelisted_extension(lowered.as_str())
    }
}

} // verus!
