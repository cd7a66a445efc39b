//! The records that the scan, the cache and the remediation workflow exchange.
//!
//! Durations are whole milliseconds: the rules of this crate are stated over
//! integers, and a caller that measures in fractional seconds rounds once at
//! the boundary.

use vstd::prelude::*;

verus! {

/// The characters of an optional text, for use in contracts.
pub open spec fn opt_text(o: Option<String>) -> Option<Seq<char>> {
    match o {
        Some(s) => Some(s@),
        None => None,
    }
}

/// A copy of an optional text.
pub fn clone_opt_text(o: &Option<String>) -> (r: Option<String>)
    ensures
        r == *o,
{
    match o {
        Some(s) => Some(s.clone()),
        None => None,
    }
}

/// Quality class of one scanned file.
#[derive(Clone, Copy, Debug, PartialEq, Eq, Structural)]
pub enum ScanStatus {
    /// At or above the threshold, or lossless.
    Good,
    /// Below the threshold.
    Bad,
    /// The analysis failed or said nothing usable.
    Failed,
    /// Below the threshold, but already replaced once.
    Replaced,
}

impl ScanStatus {
    /// The word under which the status is reported.
    pub open spec fn text(self) -> Seq<char> {
        match self {
            ScanStatus::Good => "ok"@,
            ScanStatus::Bad => "bad"@,
            ScanStatus::Failed => "error"@,
            ScanStatus::Replaced => "replaced"@,
        }
    }

    /// The word under which the status is reported.
    pub fn as_str(self) -> (s: &'static str)
        ensures
            s@ == self.text(),
    {
        match self {
            ScanStatus::Good => "ok",
            ScanStatus::Bad => "bad",
            ScanStatus::Failed => "error",
            ScanStatus::Replaced => "replaced",
        }
    }
}

/// What a verdict says, with texts as character sequences.
pub struct Verdict {
    pub bitrate: Option<u32>,
    pub is_lossless: Option<bool>,
    pub note: Option<Seq<char>>,
}

impl Verdict {
    /// A verdict is usable when it carries a bitrate or says "lossless".
    pub open spec fn usable(self) -> bool {
        self.bitrate is Some || self.is_lossless == Some(true)
    }
}

/// A verdict as it is kept in the cache, keyed by the content hash of the file.
#[derive(Debug, PartialEq, Eq)]
pub struct CacheEntry {
    pub bitrate: Option<u32>,
    pub is_lossless: Option<bool>,
    pub note: Option<String>,
}

impl View for CacheEntry {
    type V = Verdict;

    open spec fn view(&self) -> Verdict {
        Verdict { bitrate: self.bitrate, is_lossless: self.is_lossless, note: opt_text(self.note) }
    }
}

impl Clone for CacheEntry {
    fn clone(&self) -> (r: Self)
        ensures
            r == *self,
    {
        CacheEntry {
            bitrate: self.bitrate,
            is_lossless: self.is_lossless,
            note: clone_opt_text(&self.note),
        }
    }
}

impl CacheEntry {
    /// Whether the entry can stand in for a fresh analysis.
    pub fn is_usable(&self) -> (b: bool)
        ensures
            b == self@.usable(),
    {
        match self.bitrate {
            Some(_) => true,
            None => match self.is_lossless {
                Some(l) => l,
                None => false,
            },
        }
    }
}

/// What the analyzer reported for one file, after decoding.
#[derive(Debug, PartialEq, Eq)]
pub struct AnalyzerOutput {
    /// Estimated bitrate in kbps, rounded to a whole number.
    pub estimated_bitrate: Option<u32>,
    pub is_lossless: Option<bool>,
    /// The analyzer's error text; an empty text means "no error".
    pub error: Option<String>,
}

/// An analyzer report with its error text as a character sequence.
pub struct AnalyzerOutputView {
    pub estimated_bitrate: Option<u32>,
    pub is_lossless: Option<bool>,
    pub error: Option<Seq<char>>,
}

impl View for AnalyzerOutput {
    type V = AnalyzerOutputView;

    open spec fn view(&self) -> AnalyzerOutputView {
        AnalyzerOutputView {
            estimated_bitrate: self.estimated_bitrate,
            is_lossless: self.is_lossless,
            error: opt_text(self.error),
        }
    }
}

/// The outcome of analysing one file: the verdict and its class.
#[derive(Debug, PartialEq, Eq)]
pub struct Analysis {
    pub bitrate: Option<u32>,
    pub is_lossless: Option<bool>,
    pub note: Option<String>,
    pub status: ScanStatus,
}

/// An outcome with its note as a character sequence.
pub struct AnalysisView {
    pub bitrate: Option<u32>,
    pub is_lossless: Option<bool>,
    pub note: Option<Seq<char>>,
    pub status: ScanStatus,
}

impl AnalysisView {
    /// The verdict part of the outcome.
    pub open spec fn verdict(self) -> Verdict {
        Verdict { bitrate: self.bitrate, is_lossless: self.is_lossless, note: self.note }
    }
}

impl View for Analysis {
    type V = AnalysisView;

    open spec fn view(&self) -> AnalysisView {
        AnalysisView {
            bitrate: self.bitrate,
            is_lossless: self.is_lossless,
            note: opt_text(self.note),
            status: self.status,
        }
    }
}

/// A file found by the tree walk and kept for analysis.
#[derive(Debug, PartialEq, Eq)]
pub struct ScanEntry {
    pub path: String,
    pub name: String,
}

/// One line of the scan report.
#[derive(Debug, PartialEq, Eq)]
pub struct ScanResult {
    pub path: String,
    pub name: String,
    pub bitrate: Option<u32>,
    pub is_lossless: Option<bool>,
    pub note: Option<String>,
    pub status: ScanStatus,
    /// Whether the file carries the provenance marker.
    pub replaced: bool,
}

/// Quality of a single file, with a line of text to show.
#[derive(Debug, PartialEq, Eq)]
pub struct QualityAnalysisResult {
    pub bitrate: Option<u32>,
    pub is_lossless: Option<bool>,
    pub quality_string: String,
    pub error: Option<String>,
}

/// Load of the download queue.
#[derive(Clone, Copy, Debug, PartialEq, Eq, Structural)]
pub struct QueueStats {
    pub active: u32,
    pub pending: u32,
}

/// What a download produced.
#[derive(Debug, PartialEq, Eq)]
pub struct DownloadResult {
    pub title: String,
    pub artist: Option<String>,
    pub album: Option<String>,
    pub duration_ms: Option<u64>,
    pub bitrate: Option<u32>,
    pub source: Option<String>,
    pub cover_url: Option<String>,
    pub caption: String,
    pub quality: String,
    pub warning: String,
    pub saved_to: String,
}

/// What one redownload attempt produced.
#[derive(Debug, PartialEq, Eq)]
pub struct RedownloadResult {
    pub original_path: String,
    pub new_path: String,
    pub original_duration_ms: Option<u64>,
    pub new_duration_ms: Option<u64>,
    pub cover_url: Option<String>,
    pub new_bitrate: Option<u32>,
}

/// Metadata read from a file's own tags.
#[derive(Debug, PartialEq, Eq)]
pub struct ExtractedMetadata {
    pub artist: Option<String>,
    pub title: Option<String>,
    pub album: Option<String>,
    pub duration_ms: Option<u64>,
    pub isrc: Option<String>,
}

} // verus!
