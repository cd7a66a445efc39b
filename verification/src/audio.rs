//! Analysis of single files: which files are audio, how a file's content is
//! hashed, how an analyzer report becomes a verdict and a quality class, and
//! how the cache is consulted before and fed after the analyzer has run.
//!
//! Running the analyzer is the caller's business. One file is analysed in
//! two steps around that run: `cached_analysis` before it, and
//! `analyze_with_wmb_single` after it. A caller that shares one cache
//! between workers holds its lock for each step alone, never across the run.

use sha2::Digest;
use vstd::prelude::*;
use crate::cache::{
    enforce_cache_limit, inserted, lemma_index_of, lemma_inserted, lemma_limited, limited, Cache,
};
use crate::duration::{ms_in_range, parse_seconds_ms, seconds_to_ms};
use crate::json::{
    decode, double_to_u32, json_decoded, json_error, member, member_of, members_view,
    round_double_to_u32, JsonScalar, JsonScalarView,
};
use crate::paths::{extension, extension_chars};
use crate::text::{
    ascii_lower_seq, chars_of, decimal_text, joined, lower_chars, opt_str, push_decimal,
    same_chars, texts,
};
use crate::types::{
    clone_opt_text, opt_text, Analysis, AnalysisView, AnalyzerOutput, AnalyzerOutputView,
    CacheEntry, ExtractedMetadata, QualityAnalysisResult, ScanStatus, Verdict,
};

verus! {

/// The quality class of a verdict against the threshold `min`, in kbps.
/// An error outweighs everything; a bitrate is held against the threshold;
/// without a bitrate only "lossless" is good.
pub open spec fn status_of(
    error: bool,
    bitrate: Option<u32>,
    is_lossless: Option<bool>,
    min: u32,
) -> ScanStatus {
    if error {
        ScanStatus::Failed
    } else {
        match bitrate {
            Some(b) => if b < min {
                ScanStatus::Bad
            } else {
                ScanStatus::Good
            },
            None => if is_lossless == Some(true) {
                ScanStatus::Good
            } else {
                ScanStatus::Failed
            },
        }
    }
}

/// The quality class of a verdict against the threshold `min`.
pub fn classify(error: bool, bitrate: Option<u32>, is_lossless: Option<bool>, min: u32) -> (s:
    ScanStatus)
    ensures
        s == status_of(error, bitrate, is_lossless, min),
        !error && bitrate is Some && bitrate->0 >= min ==> s == ScanStatus::Good,
        !error && bitrate is Some && bitrate->0 < min ==> s == ScanStatus::Bad,
        !error && bitrate is None && is_lossless == Some(true) ==> s == ScanStatus::Good,
{
    if error {
        return ScanStatus::Failed;
    }
    match bitrate {
        Some(b) => if b < min {
            ScanStatus::Bad
        } else {
            ScanStatus::Good
        },
        None => match is_lossless {
            Some(true) => ScanStatus::Good,
            _ => ScanStatus::Failed,
        },
    }
}

/// Without an error, a bitrate at or above the threshold is good and one
/// below it is bad, whatever is said of losslessness.
pub proof fn lemma_status_by_threshold(bitrate: u32, is_lossless: Option<bool>, min: u32)
    ensures
        bitrate >= min ==> status_of(false, Some(bitrate), is_lossless, min) == ScanStatus::Good,
        bitrate < min ==> status_of(false, Some(bitrate), is_lossless, min) == ScanStatus::Bad,
{
}

/// Without an error and without a bitrate, a lossless file is good whatever
/// the threshold.
pub proof fn lemma_lossless_is_good(min: u32)
    ensures
        status_of(false, None, Some(true), min) == ScanStatus::Good,
{
}

/// The error that counts: an empty error text means "no error".
pub open spec fn effective_error(error: Option<Seq<char>>) -> Option<Seq<char>> {
    match error {
        Some(e) => if e.len() == 0 {
            None
        } else {
            Some(e)
        },
        None => None,
    }
}

/// The outcome that an analyzer report stands for.
pub open spec fn analysis_of(out: AnalyzerOutputView, min: u32) -> AnalysisView {
    let err = effective_error(out.error);
    AnalysisView {
        bitrate: out.estimated_bitrate,
        is_lossless: out.is_lossless,
        note: err,
        status: status_of(err is Some, out.estimated_bitrate, out.is_lossless, min),
    }
}

/// The outcome that an analyzer report stands for: its bitrate and
/// losslessness as they are, its error text as the note unless it is empty,
/// and the quality class of these.
pub fn analysis_from_output(out: AnalyzerOutput, min: u32) -> (a: Analysis)
    ensures
        a@ == analysis_of(out@, min),
{
    let note = match out.error {
        Some(e) => if e.as_str().is_empty() {
            None
        } else {
            Some(e)
        },
        None => None,
    };
    let status = classify(note.is_some(), out.estimated_bitrate, out.is_lossless, min);
    Analysis { bitrate: out.estimated_bitrate, is_lossless: out.is_lossless, note, status }
}

/// What the cache answers for `hash` before the analyzer is run: the outcome
/// that a usable entry stands for. An entry that is not usable counts as
/// absent.
pub open spec fn cached_hit(
    cache: Map<Seq<char>, Verdict>,
    hash: Option<Seq<char>>,
    min: u32,
    cache_enabled: bool,
) -> Option<AnalysisView> {
    if cache_enabled && hash is Some && cache.contains_key(hash->0) && cache[hash->0].usable() {
        let v = cache[hash->0];
        Some(
            AnalysisView {
                bitrate: v.bitrate,
                is_lossless: v.is_lossless,
                note: v.note,
                status: status_of(false, v.bitrate, v.is_lossless, min),
            },
        )
    } else {
        None
    }
}

/// First step for one file. `Some` means: the cache holds a usable verdict
/// for this content and the analyzer is not to be run; `None` means: run it.
/// `hash` is the content hash of the file, or `None` where the file could
/// not be read.
pub fn cached_analysis(cache: &Cache, hash: Option<&str>, min: u32, cache_enabled: bool) -> (r:
    Option<Analysis>)
    requires
        cache.wf(),
    ensures
        match r {
            Some(a) => cached_hit(
                cache@,
                match hash {
                    Some(h) => Some(h@),
                    None => None,
                },
                min,
                cache_enabled,
            ) == Some(a@),
            None => cached_hit(
                cache@,
                match hash {
                    Some(h) => Some(h@),
                    None => None,
                },
                min,
                cache_enabled,
            ) is None,
        },
{
    if !cache_enabled {
        return None;
    }
    match hash {
        None => None,
        Some(h) => match cache.lookup(h) {
            None => None,
            Some(entry) => {
                if entry.is_usable() {
                    let status = classify(false, entry.bitrate, entry.is_lossless, min);
                    Some(
                        Analysis {
                            bitrate: entry.bitrate,
                            is_lossless: entry.is_lossless,
                            note: clone_opt_text(&entry.note),
                            status,
                        },
                    )
                } else {
                    None
                }
            },
        },
    }
}

/// Whether an outcome is kept in the cache: caching is on, the content hash
/// is known, the verdict is usable and came without an error.
pub open spec fn is_cached(a: AnalysisView, hash: Option<Seq<char>>, cache_enabled: bool) -> bool {
    cache_enabled && hash is Some && a.verdict().usable() && a.note is None
}

/// The pairs of the cache after the second step.
pub open spec fn cache_after(
    before: Seq<(Seq<char>, Verdict)>,
    outcome: Result<AnalyzerOutputView, Seq<char>>,
    hash: Option<Seq<char>>,
    min: u32,
    cache_enabled: bool,
    cache_limit: nat,
) -> Seq<(Seq<char>, Verdict)> {
    match outcome {
        Ok(out) => if is_cached(analysis_of(out, min), hash, cache_enabled) {
            limited(inserted(before, hash->0, analysis_of(out, min).verdict()), cache_limit)
        } else {
            before
        },
        Err(_) => before,
    }
}

/// Second step for one file, after the analyzer has run. `outcome` is its
/// report, or the reason why there is none. A failure is handed on as it is
/// and leaves the cache alone. A report becomes an outcome; where the
/// verdict is usable and free of error it is put in the cache under `hash`,
/// and the cache is cut down to `cache_limit` entries (0: no limit).
pub fn analyze_with_wmb_single(
    outcome: Result<AnalyzerOutput, String>,
    hash: Option<String>,
    min: u32,
    cache_enabled: bool,
    cache: &mut Cache,
    cache_limit: usize,
) -> (r: Result<Analysis, String>)
    requires
        old(cache).wf(),
    ensures
        final(cache).wf(),
        match outcome {
            Ok(out) => r matches Ok(a) && a@ == analysis_of(out@, min),
            Err(e) => r == Err::<Analysis, String>(e),
        },
        final(cache).entries() == cache_after(
            old(cache).entries(),
            match outcome {
                Ok(out) => Ok(out@),
                Err(e) => Err(e@),
            },
            match hash {
                Some(h) => Some(h@),
                None => None,
            },
            min,
            cache_enabled,
            cache_limit as nat,
        ),
{
    match outcome {
        Err(e) => Err(e),
        Ok(out) => {
            let a = analysis_from_output(out, min);
            let usable = a.bitrate.is_some() || a.is_lossless == Some(true);
            if cache_enabled && usable && a.note.is_none() {
                if let Some(h) = hash {
                    let entry = CacheEntry {
                        bitrate: a.bitrate,
                        is_lossless: a.is_lossless,
                        note: None,
                    };
                    cache.insert(h, entry);
                    enforce_cache_limit(cache, cache_limit);
                }
            }
            Ok(a)
        },
    }
}

/// A report with an error is never put in the cache, and neither is one
/// that names neither a bitrate nor losslessness: the cache is then left as
/// it was, whatever the hash and the limit.
pub proof fn lemma_failures_are_not_cached(
    before: Seq<(Seq<char>, Verdict)>,
    out: AnalyzerOutputView,
    hash: Option<Seq<char>>,
    min: u32,
    cache_enabled: bool,
    cache_limit: nat,
)
    requires
        effective_error(out.error) is Some || !analysis_of(out, min).verdict().usable(),
    ensures
        cache_after(before, Ok(out), hash, min, cache_enabled, cache_limit) == before,
        effective_error(out.error) is Some ==> analysis_of(out, min).status == ScanStatus::Failed,
{
}

/// Analysing the same content twice: once a usable, error-free verdict has
/// gone through the second step with caching on, the first step of the next
/// analysis of that content answers from the cache, with the same verdict
/// and, under the same threshold, the same class. The analyzer is then not
/// run again.
pub proof fn lemma_second_analysis_is_cached(
    before: Cache,
    out: AnalyzerOutputView,
    hash: Seq<char>,
    min: u32,
    cache_limit: nat,
    after: Cache,
)
    requires
        before.wf(),
        analysis_of(out, min).verdict().usable(),
        effective_error(out.error) is None,
        after.entries() == cache_after(before.entries(), Ok(out), Some(hash), min, true, cache_limit),
    ensures
        after.wf(),
        cached_hit(after@, Some(hash), min, true) == Some(analysis_of(out, min)),
{
    let v = analysis_of(out, min).verdict();
    let s = inserted(before.entries(), hash, v);
    lemma_inserted(before.entries(), hash, v);
    lemma_limited(s, cache_limit);
    let t = limited(s, cache_limit);
    assert(t.last() == (hash, v));
    lemma_index_of(t, t.len() - 1);
}

/// The extensions, in lower case, by which a file counts as audio.
pub open spec fn audio_extensions() -> Seq<Seq<char>> {
    seq!["mp3"@, "m4a"@, "aac"@, "wav"@, "flac"@, "ogg"@, "opus"@, "webm"@]
}

/// Whether `ext` is one of the audio extensions, whatever the case of its
/// ASCII letters.
pub open spec fn is_audio_extension(ext: Seq<char>) -> bool {
    audio_extensions().contains(ascii_lower_seq(ext))
}

/// Whether the file that `path` leads to counts as audio: the path has a
/// final component, that component has an extension, and the extension is an
/// audio extension. The file system is not asked.
pub open spec fn is_audio_path(path: Seq<char>, windows: bool) -> bool {
    match extension(path, windows) {
        Some(e) => is_audio_extension(e),
        None => false,
    }
}

/// The extensions, in lower case, by which a file counts as audio.
pub fn known_audio_extensions() -> (v: Vec<&'static str>)
    ensures
        v@.len() == audio_extensions().len(),
        forall|i: int| 0 <= i < v@.len() ==> (#[trigger] v@[i])@ == audio_extensions()[i],
{
    let mut v: Vec<&'static str> = Vec::new();
    v.push("mp3");
    v.push("m4a");
    v.push("aac");
    v.push("wav");
    v.push("flac");
    v.push("ogg");
    v.push("opus");
    v.push("webm");
    v
}

/// Whether the characters `ext` are one of the audio extensions, whatever
/// the case of their ASCII letters.
pub fn is_audio_ext(ext: &Vec<char>) -> (b: bool)
    ensures
        b == is_audio_extension(ext@),
{
    let lowered = lower_chars(ext);
    let known = known_audio_extensions();
    let mut i: usize = 0;
    while i < known.len()
        invariant
            i <= known@.len(),
            known@.len() == audio_extensions().len(),
            forall|j: int| 0 <= j < known@.len() ==> (#[trigger] known@[j])@ == audio_extensions()[j],
            forall|j: int| 0 <= j < i ==> audio_extensions()[j] != lowered@,
            lowered@ == ascii_lower_seq(ext@),
        decreases known@.len() - i,
    {
        let candidate = chars_of(known[i]);
        if same_chars(&candidate, &lowered) {
            assert(audio_extensions()[i as int] == lowered@);
            return true;
        }
        i = i + 1;
    }
    false
}

/// Whether the file that `path` leads to counts as audio, by the extension
/// of its final component. `windows` says whether the path is one of a
/// Windows system, where `\` separates components as `/` does. A drive or a
/// network share at the start of a Windows path is read as a component.
pub fn is_audio(path: &str, windows: bool) -> (b: bool)
    ensures
        b == is_audio_path(path@, windows),
{
    let chars = chars_of(path);
    match extension_chars(&chars, windows) {
        None => false,
        Some(ext) => is_audio_ext(&ext),
    }
}

/// The SHA-256 digest of a sequence of bytes.
pub uninterp spec fn sha256_digest(data: Seq<u8>) -> Seq<u8>;

/// The SHA-256 digest of `data`.
///
/// Trusted: `Sha256::digest` of the crate sha2 computes this digest, which
/// depends on the bytes alone and is 32 bytes long.
#[verifier::external_body]
fn sha256(data: &[u8]) -> (d: Vec<u8>)
    ensures
        d@ == sha256_digest(data@),
        d@.len() == 32,
{
    sha2::Sha256::digest(data).to_vec()
}

/// The character of a hexadecimal digit, letters in lower case.
pub open spec fn hex_digit(n: int) -> char {
    if n < 10 {
        (('0' as u8) + n) as char
    } else {
        (('a' as u8) + (n - 10)) as char
    }
}

/// Bytes as hexadecimal text: two digits for each byte, the high one first,
/// letters in lower case.
pub open spec fn hex_text(data: Seq<u8>) -> Seq<char> {
    Seq::new(
        2 * data.len(),
        |i: int|
            hex_digit(
                if i % 2 == 0 {
                    (data[i / 2] as int) / 16
                } else {
                    (data[i / 2] as int) % 16
                },
            ),
    )
}

/// `data` as hexadecimal text.
///
/// Trusted: `hex::encode` writes each byte as two digits, the high half
/// first, with the letters a to f in lower case.
#[verifier::external_body]
fn hex_encode(data: &[u8]) -> (s: String)
    ensures
        s@ == hex_text(data@),
{
    hex::encode(data)
}

/// The content hash of a file with the bytes `content`: its SHA-256 digest
/// as 64 hexadecimal digits. It is the key of the file's verdict in the
/// cache, so a moved or renamed file keeps its verdict and an edited one
/// loses it.
pub fn file_hash(content: &[u8]) -> (h: String)
    ensures
        h@ == hex_text(sha256_digest(content@)),
        h@.len() == 64,
{
    let digest = sha256(content);
    hex_encode(digest.as_slice())
}

/// The line of text that describes a quality.
pub open spec fn quality_text(bitrate: Option<u32>, is_lossless: Option<bool>) -> Seq<char> {
    match bitrate {
        Some(br) => if is_lossless == Some(true) {
            decimal_text(br as nat) + " kbps (Lossless)"@
        } else {
            decimal_text(br as nat) + " kbps"@
        },
        None => "Unknown"@,
    }
}

/// The line of text that describes a quality: the bitrate in kbps, marked
/// where the file is lossless, or "Unknown" without a bitrate.
pub fn quality_string(bitrate: Option<u32>, is_lossless: Option<bool>) -> (s: String)
    ensures
        s@ == quality_text(bitrate, is_lossless),
{
    match bitrate {
        Some(br) => {
            let mut s = String::new();
            push_decimal(&mut s, br as u64);
            assert(s@ =~= decimal_text(br as nat));
            match is_lossless {
                Some(true) => s.append(" kbps (Lossless)"),
                _ => s.append(" kbps"),
            }
            s
        },
        None => "Unknown".to_owned(),
    }
}

/// The length, in seconds, of the window that the analyzer is given when a
/// single file is analysed for its quality.
pub const QUALITY_ANALYSIS_WINDOW: u32 = 30;

/// The quality of a single file from the analyzer's report, without the
/// cache and without a threshold. A failure of the analyzer is handed on.
pub fn analyze_file_quality(outcome: Result<AnalyzerOutput, String>) -> (r: Result<
    QualityAnalysisResult,
    String,
>)
    ensures
        match outcome {
            Ok(out) => r matches Ok(q) && q.bitrate == out.estimated_bitrate && q.is_lossless
                == out.is_lossless && q.quality_string@ == quality_text(
                out.estimated_bitrate,
                out.is_lossless,
            ) && opt_text(q.error) == effective_error(out@.error),
            Err(e) => r == Err::<QualityAnalysisResult, String>(e),
        },
{
    match outcome {
        Err(e) => Err(e),
        Ok(out) => {
            let a = analysis_from_output(out, 0);
            let quality_string = quality_string(a.bitrate, a.is_lossless);
            Ok(
                QualityAnalysisResult {
                    bitrate: a.bitrate,
                    is_lossless: a.is_lossless,
                    quality_string,
                    error: a.note,
                },
            )
        },
    }
}

/// The arguments of an analyzer run: the mode and the file, then the window
/// in seconds and the output path where they are given.
pub open spec fn analyzer_args_spec(
    mode: Seq<char>,
    file_path: Seq<char>,
    window: Option<u32>,
    output: Option<Seq<char>>,
) -> Seq<Seq<char>> {
    seq![mode, file_path] + (match window {
        Some(w) => seq!["--window"@, decimal_text(w as nat)],
        None => Seq::<Seq<char>>::empty(),
    }) + (match output {
        Some(o) => seq!["--output"@, o],
        None => Seq::<Seq<char>>::empty(),
    })
}

/// The arguments of an analyzer run.
pub fn analyzer_args(mode: &str, file_path: &str, window: Option<u32>, output: Option<&str>) -> (a:
    Vec<String>)
    ensures
        texts(a@) == analyzer_args_spec(mode@, file_path@, window, opt_str(output)),
{
    let mut a: Vec<String> = Vec::new();
    a.push(mode.to_owned());
    a.push(file_path.to_owned());
    if let Some(w) = window {
        let mut t = String::new();
        push_decimal(&mut t, w as u64);
        assert(t@ =~= decimal_text(w as nat));
        a.push("--window".to_owned());
        a.push(t);
    }
    if let Some(o) = output {
        a.push("--output".to_owned());
        a.push(o.to_owned());
    }
    assert(texts(a@) =~= analyzer_args_spec(mode@, file_path@, window, opt_str(output)));
    a
}

/// How the analyzer is started.
#[derive(Debug, PartialEq, Eq)]
pub struct AnalyzerCommand {
    /// The program to run.
    pub program: String,
    /// Its arguments.
    pub args: Vec<String>,
    /// Where the run is to be told, in its environment, that the probing
    /// tool lies.
    pub ffprobe_path: Option<String>,
}

/// The interpreter that runs the analyzer where only its script is there.
pub open spec fn script_interpreter() -> Seq<char> {
    "python3"@
}

/// What is said where the analyzer cannot be found in either form.
pub open spec fn analyzer_missing() -> Seq<char> {
    "Bundled whatsmybitrate not found and dev script missing"@
}

/// How the analyzer is started for one file. `bundled` is the analyzer's own
/// executable where it was found, `dev_script` its script where that was
/// found, `ffprobe` the probing tool where it was found. The executable goes
/// first and is told where the probing tool lies; failing it, the script is
/// run by the interpreter, with the script as its first argument; failing
/// both, the analyzer cannot be started.
pub fn invoke_whatsmybitrate(
    mode: &str,
    file_path: &str,
    window: Option<u32>,
    output: Option<&str>,
    bundled: Option<String>,
    dev_script: Option<String>,
    ffprobe: Option<String>,
) -> (r: Result<AnalyzerCommand, String>)
    ensures
        match bundled {
            Some(exe) => r matches Ok(c) && c.program == exe && texts(c.args@)
                == analyzer_args_spec(mode@, file_path@, window, opt_str(output))
                && c.ffprobe_path == ffprobe,
            None => match dev_script {
                Some(script) => r matches Ok(c) && c.program@ == script_interpreter() && texts(
                    c.args@,
                ) == seq![script@] + analyzer_args_spec(mode@, file_path@, window, opt_str(output))
                    && c.ffprobe_path is None,
                None => r matches Err(e) && e@ == analyzer_missing(),
            },
        },
{
    let args = analyzer_args(mode, file_path, window, output);
    match bundled {
        Some(exe) => Ok(AnalyzerCommand { program: exe, args, ffprobe_path: ffprobe }),
        None => match dev_script {
            Some(script) => {
                let mut all: Vec<String> = Vec::new();
                let ghost script_text = script@;
                all.push(script);
                let mut args = args;
                let ghost rest = texts(args@);
                all.append(&mut args);
                assert(texts(all@) =~= seq![script_text] + rest);
                Ok(AnalyzerCommand { program: "python3".to_owned(), args: all, ffprobe_path: None })
            },
            None => Err("Bundled whatsmybitrate not found and dev script missing".to_owned()),
        },
    }
}

/// How a run of an outside program ended.
#[derive(Debug, PartialEq, Eq)]
pub enum ProcessOutcome {
    /// The program could not be started; the text says why.
    NotStarted { error: String },
    /// The program ran and exited.
    Exited { success: bool, stdout: Vec<u8>, stderr: String },
}

/// The pointer that leads to a document itself.
pub open spec fn document() -> Seq<char> {
    ""@
}

/// The pointer that leads to the tags in the output of the probing tool.
pub open spec fn tags_pointer() -> Seq<char> {
    "/format/tags"@
}

/// The number that a member stands for, rounded to a `u32`.
pub open spec fn number_of(value: Option<JsonScalarView>) -> Option<u32> {
    match value {
        Some(JsonScalarView::Number { bits: Some(b) }) => Some(double_to_u32(b)),
        _ => None,
    }
}

/// The truth value that a member stands for.
pub open spec fn flag_of(value: Option<JsonScalarView>) -> Option<bool> {
    match value {
        Some(JsonScalarView::Bool(b)) => Some(b),
        _ => None,
    }
}

/// The text that a member stands for.
pub open spec fn text_of(value: Option<JsonScalarView>) -> Option<Seq<char>> {
    match value {
        Some(JsonScalarView::Text(t)) => Some(t),
        _ => None,
    }
}

/// The members of a document, none where it is no object.
pub open spec fn members_or_none(members: Option<Seq<(Seq<char>, JsonScalarView)>>) -> Seq<
    (Seq<char>, JsonScalarView),
> {
    match members {
        Some(m) => m,
        None => Seq::empty(),
    }
}

/// The report that the members of the analyzer's output stand for: the
/// estimated bitrate where it is a number, the losslessness where it is a
/// truth value, the error where it is a text. A member of another kind
/// counts as absent.
pub open spec fn analyzer_output_of(
    members: Option<Seq<(Seq<char>, JsonScalarView)>>,
) -> AnalyzerOutputView {
    let m = members_or_none(members);
    AnalyzerOutputView {
        estimated_bitrate: number_of(member_of(m, "estimated_bitrate_numeric"@)),
        is_lossless: flag_of(member_of(m, "is_lossless"@)),
        error: text_of(member_of(m, "error"@)),
    }
}

/// The number that the member `name` stands for, rounded to a `u32`.
fn number_member(members: &Vec<(String, JsonScalar)>, name: &str) -> (r: Option<u32>)
    ensures
        r == number_of(member_of(members_view(members@), name@)),
{
    match member(members, name) {
        Some(JsonScalar::Number { bits: Some(b) }) => Some(round_double_to_u32(*b)),
        _ => None,
    }
}

/// The report that the members of the analyzer's output stand for.
pub fn analyzer_output_from_members(members: &Option<Vec<(String, JsonScalar)>>) -> (out:
    AnalyzerOutput)
    ensures
        out@ == analyzer_output_of(
            match members {
                Some(m) => Some(members_view(m@)),
                None => None,
            },
        ),
{
    match members {
        None => AnalyzerOutput { estimated_bitrate: None, is_lossless: None, error: None },
        Some(m) => {
            let is_lossless = match member(m, "is_lossless") {
                Some(JsonScalar::Bool(b)) => Some(*b),
                _ => None,
            };
            let error = match member(m, "error") {
                Some(JsonScalar::Text(t)) => Some(t.clone()),
                _ => None,
            };
            AnalyzerOutput {
                estimated_bitrate: number_member(m, "estimated_bitrate_numeric"),
                is_lossless,
                error,
            }
        },
    }
}

/// What the analyzer's output, as it was decoded, comes to.
pub open spec fn decode_analysis_spec(
    decoded: Result<Option<Seq<(Seq<char>, JsonScalarView)>>, Seq<char>>,
) -> Result<AnalyzerOutputView, Seq<char>> {
    match decoded {
        Ok(members) => Ok(analyzer_output_of(members)),
        Err(e) => Err("Failed to parse output: "@ + e),
    }
}

/// The report that the analyzer wrote, from the bytes of its output.
pub fn decode_analysis(stdout: &[u8]) -> (r: Result<AnalyzerOutput, String>)
    ensures
        match decode_analysis_spec(json_decoded(stdout@, document())) {
            Ok(v) => r matches Ok(out) && out@ == v,
            Err(t) => r matches Err(e) && e@ == t,
        },
{
    match decode(stdout, "") {
        Ok(members) => Ok(analyzer_output_from_members(&members)),
        Err(e) => Err(joined("Failed to parse output: ", e.as_str())),
    }
}

/// The bitrate that the members of a probe's output stand for.
pub fn bitrate_from_members(members: &Option<Vec<(String, JsonScalar)>>) -> (r: Option<u32>)
    ensures
        r == number_of(
            member_of(
                members_or_none(
                    match members {
                        Some(m) => Some(members_view(m@)),
                        None => None,
                    },
                ),
                "bitrate"@,
            ),
        ),
{
    match members {
        None => None,
        Some(m) => number_member(m, "bitrate"),
    }
}

/// The bitrate that a probe reported, from the bytes of its output; `None`
/// where the output is no JSON or names no bitrate.
pub fn probe_bitrate(stdout: &[u8]) -> (r: Option<u32>)
    ensures
        r == match json_decoded(stdout@, document()) {
            Ok(members) => number_of(member_of(members_or_none(members), "bitrate"@)),
            Err(_) => None,
        },
{
    match decode(stdout, "") {
        Ok(members) => bitrate_from_members(&members),
        Err(_) => None,
    }
}

/// What an analyzer run comes to. `script_mode` says that the interpreter
/// ran the script.
pub open spec fn analyzer_report_spec(
    script_mode: bool,
    launch_error: Option<Seq<char>>,
    success: bool,
    stderr: Seq<char>,
    stdout: Seq<u8>,
) -> Result<AnalyzerOutputView, Seq<char>> {
    match launch_error {
        Some(e) => Err(
            (if script_mode {
                "python3 failed: "@
            } else {
                "whatsmybitrate execution failed: "@
            }) + e,
        ),
        None => if !success {
            Err(stderr)
        } else {
            decode_analysis_spec(json_decoded(stdout, document()))
        },
    }
}

/// What an analyzer run comes to: the report where the run started, ended
/// well and wrote a document; else the reason, in the order: could not
/// start, ended badly, wrote something else.
pub fn analyzer_report(script_mode: bool, outcome: ProcessOutcome) -> (r: Result<
    AnalyzerOutput,
    String,
>)
    ensures
        match (match outcome {
            ProcessOutcome::NotStarted { error } => analyzer_report_spec(
                script_mode,
                Some(error@),
                false,
                Seq::empty(),
                Seq::empty(),
            ),
            ProcessOutcome::Exited { success, stdout, stderr } => analyzer_report_spec(
                script_mode,
                None,
                success,
                stderr@,
                stdout@,
            ),
        }) {
            Ok(v) => r matches Ok(out) && out@ == v,
            Err(t) => r matches Err(e) && e@ == t,
        },
{
    match outcome {
        ProcessOutcome::NotStarted { error } => {
            if script_mode {
                Err(joined("python3 failed: ", error.as_str()))
            } else {
                Err(joined("whatsmybitrate execution failed: ", error.as_str()))
            }
        },
        ProcessOutcome::Exited { success, stdout, stderr } => {
            if !success {
                Err(stderr)
            } else {
                decode_analysis(stdout.as_slice())
            }
        },
    }
}

/// The text of the first of the members `names` that is a text.
pub open spec fn first_text(members: Seq<(Seq<char>, JsonScalarView)>, names: Seq<Seq<char>>) -> Option<
    Seq<char>,
>
    decreases names.len(),
{
    if names.len() == 0 {
        None
    } else {
        match text_of(member_of(members, names[0])) {
            Some(v) => Some(v),
            None => first_text(members, names.drop_first()),
        }
    }
}

/// The names under which the artist is looked for, in this order.
pub open spec fn artist_keys() -> Seq<Seq<char>> {
    seq!["artist"@, "ARTIST"@, "albumartist"@, "ALBUMARTIST"@]
}

/// The names under which the title is looked for.
pub open spec fn title_keys() -> Seq<Seq<char>> {
    seq!["title"@, "TITLE"@]
}

/// The names under which the album is looked for.
pub open spec fn album_keys() -> Seq<Seq<char>> {
    seq!["album"@, "ALBUM"@]
}

/// The names under which the recording code is looked for.
pub open spec fn isrc_keys() -> Seq<Seq<char>> {
    seq!["isrc"@, "ISRC"@, "TSRC"@]
}

/// The text of the first of the members `names` that is a text.
fn find_first_text(members: &Vec<(String, JsonScalar)>, names: &Vec<&'static str>) -> (r: Option<
    String,
>)
    ensures
        opt_text(r) == first_text(members_view(members@), names@.map_values(|k: &'static str| k@)),
{
    let ghost all = names@.map_values(|k: &'static str| k@);
    let mut i: usize = 0;
    assert(all.skip(0) =~= all);
    while i < names.len()
        invariant
            i <= names@.len(),
            all == names@.map_values(|k: &'static str| k@),
            first_text(members_view(members@), all) == first_text(
                members_view(members@),
                all.skip(i as int),
            ),
        decreases names@.len() - i,
    {
        assert(all.skip(i as int)[0] == names@[i as int]@);
        if let Some(JsonScalar::Text(t)) = member(members, names[i]) {
            return Some(t.clone());
        }
        assert(all.skip(i as int).drop_first() =~= all.skip(i + 1));
        i = i + 1;
    }
    None
}

/// What a file says of itself, from its tags: each field is the text of the
/// first of its names that the tags hold as a text.
pub fn metadata_from_tags(duration_ms: Option<u64>, tags: &Option<Vec<(String, JsonScalar)>>) -> (m:
    ExtractedMetadata)
    ensures
        m.duration_ms == duration_ms,
        opt_text(m.artist) == first_text(
            members_or_none(
                match tags {
                    Some(t) => Some(members_view(t@)),
                    None => None,
                },
            ),
            artist_keys(),
        ),
        opt_text(m.title) == first_text(
            members_or_none(
                match tags {
                    Some(t) => Some(members_view(t@)),
                    None => None,
                },
            ),
            title_keys(),
        ),
        opt_text(m.album) == first_text(
            members_or_none(
                match tags {
                    Some(t) => Some(members_view(t@)),
                    None => None,
                },
            ),
            album_keys(),
        ),
        opt_text(m.isrc) == first_text(
            members_or_none(
                match tags {
                    Some(t) => Some(members_view(t@)),
                    None => None,
                },
            ),
            isrc_keys(),
        ),
{
    let mut artist_names: Vec<&'static str> = Vec::new();
    artist_names.push("artist");
    artist_names.push("ARTIST");
    artist_names.push("albumartist");
    artist_names.push("ALBUMARTIST");
    assert(artist_names@.map_values(|k: &'static str| k@) =~= artist_keys());
    let mut title_names: Vec<&'static str> = Vec::new();
    title_names.push("title");
    title_names.push("TITLE");
    assert(title_names@.map_values(|k: &'static str| k@) =~= title_keys());
    let mut album_names: Vec<&'static str> = Vec::new();
    album_names.push("album");
    album_names.push("ALBUM");
    assert(album_names@.map_values(|k: &'static str| k@) =~= album_keys());
    let mut isrc_names: Vec<&'static str> = Vec::new();
    isrc_names.push("isrc");
    isrc_names.push("ISRC");
    isrc_names.push("TSRC");
    assert(isrc_names@.map_values(|k: &'static str| k@) =~= isrc_keys());
    let none: Vec<(String, JsonScalar)> = Vec::new();
    assert(members_view(none@) =~= Seq::<(Seq<char>, JsonScalarView)>::empty());
    let members = match tags {
        Some(t) => t,
        None => &none,
    };
    ExtractedMetadata {
        artist: find_first_text(members, &artist_names),
        title: find_first_text(members, &title_names),
        album: find_first_text(members, &album_names),
        duration_ms,
        isrc: find_first_text(members, &isrc_names),
    }
}

/// The pointer that leads to the part of the probing tool's output that
/// holds the length.
pub open spec fn format_pointer() -> Seq<char> {
    "/format"@
}

/// The members that `pointer` leads to in a probe's output, or none where
/// the output is no JSON or holds no such object.
pub open spec fn probed_members(stdout: Seq<u8>, pointer: Seq<char>) -> Seq<
    (Seq<char>, JsonScalarView),
> {
    match json_decoded(stdout, pointer) {
        Ok(members) => members_or_none(members),
        Err(_) => Seq::empty(),
    }
}

/// The length in a probe's output, in milliseconds: its member `duration`,
/// a text of seconds.
pub open spec fn probed_duration(stdout: Seq<u8>) -> Option<u64> {
    match text_of(member_of(probed_members(stdout, format_pointer()), "duration"@)) {
        Some(t) => ms_in_range(seconds_to_ms(t)),
        None => None,
    }
}

/// The length that the members of a probe's output name.
pub fn duration_from_members(format: &Option<Vec<(String, JsonScalar)>>) -> (r: Option<u64>)
    ensures
        r == match text_of(
            member_of(
                members_or_none(
                    match format {
                        Some(m) => Some(members_view(m@)),
                        None => None,
                    },
                ),
                "duration"@,
            ),
        ) {
            Some(t) => ms_in_range(seconds_to_ms(t)),
            None => None,
        },
{
    match format {
        None => None,
        Some(m) => match member(m, "duration") {
            Some(JsonScalar::Text(t)) => parse_seconds_ms(t.as_str()),
            _ => None,
        },
    }
}

/// What a file says of itself, from the output of the probing tool: its
/// length, and from its tags the artist, the title, the album and the
/// recording code. An output that is no JSON, or holds none of these,
/// leaves the fields empty.
pub fn extract_metadata_from_file(stdout: &[u8]) -> (m: ExtractedMetadata)
    ensures
        m.duration_ms == probed_duration(stdout@),
        opt_text(m.artist) == first_text(probed_members(stdout@, tags_pointer()), artist_keys()),
        opt_text(m.title) == first_text(probed_members(stdout@, tags_pointer()), title_keys()),
        opt_text(m.album) == first_text(probed_members(stdout@, tags_pointer()), album_keys()),
        opt_text(m.isrc) == first_text(probed_members(stdout@, tags_pointer()), isrc_keys()),
        json_error(stdout@) is Some ==> m.duration_ms is None && m.artist is None && m.title
            is None && m.album is None && m.isrc is None,
{
    let format = match decode(stdout, "/format") {
        Ok(members) => members,
        Err(_) => None,
    };
    let tags = match decode(stdout, "/format/tags") {
        Ok(members) => members,
        Err(_) => None,
    };
    proof {
        if json_error(stdout@) is Some {
            reveal_with_fuel(first_text, 5);
            let none = Seq::<(Seq<char>, JsonScalarView)>::empty();
            assert(probed_members(stdout@, tags_pointer()) == none);
            assert(forall|name: Seq<char>| member_of(none, name) is None);
            assert(first_text(none, artist_keys()) is None);
            assert(first_text(none, title_keys()) is None);
            assert(first_text(none, album_keys()) is None);
            assert(first_text(none, isrc_keys()) is None);
        }
    }
    metadata_from_tags(duration_from_members(&format), &tags)
}

} // verus!
