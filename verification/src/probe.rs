//! Reading the report of the display query tool: what a finished query
//! yields, and which mode and scale the report marks as active for a device.

use crate::block::{
    block_of, device_block, lemma_block_begins_with_name, lemma_piece_of_piece, occurs_in,
};
use crate::command::{run_succeeded, RunOutcome};
use crate::decimal::{hundredths_of, is_fraction, parse_hundredths};
use crate::options::{is_mode_text, DisplayMode, ScaleOption};
use regex::Regex;
use vstd::prelude::*;
use vstd::utf8::{decode_utf8, valid_utf8};

verus! {

/// The error of the `regex` crate, which is carried but never looked into.
#[verifier::external_type_specification]
#[verifier::external_body]
pub struct ExRegexError(regex::Error);

/// Why a query gave no report.
#[derive(Debug, Clone, PartialEq, Eq)]
pub enum ProbeError {
    /// The query tool could not be started.
    ExecutionFailed,
    /// The query tool ended with another exit code than zero; the text is
    /// what it wrote to standard error.
    NonZeroExit(String),
}

/// The text that `String::from_utf8_lossy` makes of `bytes`.
pub uninterp spec fn lossy_text(bytes: Seq<u8>) -> Seq<char>;

/// Calls `String::from_utf8_lossy`. The contract names the text it returns,
/// and claims that well-formed UTF-8 is decoded as it stands; what replaces
/// an ill-formed sequence is not stated.
#[verifier::external_body]
fn decode_lossy(bytes: &Vec<u8>) -> (text: String)
    ensures
        text@ == lossy_text(bytes@),
        valid_utf8(bytes@) ==> text@ == decode_utf8(bytes@),
{
    String::from_utf8_lossy(bytes).into_owned()
}

/// What a query yields, as a function of how it ended.
pub open spec fn probe_result_of(outcome: RunOutcome, result: Result<String, ProbeError>) -> bool {
    match outcome {
        RunOutcome::Failed => result == Err::<String, ProbeError>(ProbeError::ExecutionFailed),
        RunOutcome::Finished { exit_code, stdout, stderr } => if exit_code == Some(0i32) {
            &&& result matches Ok(text)
            &&& text@ == lossy_text(stdout@)
        } else {
            &&& result matches Err(ProbeError::NonZeroExit(reason))
            &&& reason@ == lossy_text(stderr@)
        },
    }
}

/// Turns the end of a query into its report: the standard output of a run
/// that ended with exit code zero, decoded leniently. A run that could not
/// start, or that ended otherwise, gives the matching error.
pub fn probe_result(outcome: &RunOutcome) -> (result: Result<String, ProbeError>)
    ensures
        probe_result_of(*outcome, result),
        result is Ok <==> run_succeeded(*outcome),
{
    match outcome {
        RunOutcome::Failed => Err(ProbeError::ExecutionFailed),
        RunOutcome::Finished { exit_code, stdout, stderr } => {
            if outcome.succeeded() {
                Ok(decode_lossy(stdout))
            } else {
                Err(ProbeError::NonZeroExit(decode_lossy(stderr)))
            }
        },
    }
}

/// Whether `Regex::new` accepts `pattern`.
pub uninterp spec fn pattern_compiles(pattern: Seq<char>) -> bool;

/// What the first capture group holds in the leftmost match of `pattern` in
/// `haystack`; `None` where nothing matches or the group took no part.
pub uninterp spec fn first_group_match(pattern: Seq<char>, haystack: Seq<char>) -> Option<
    Seq<char>,
>;

/// The text in an optional string.
pub open spec fn option_text(text: Option<String>) -> Option<Seq<char>> {
    match text {
        Some(t) => Some(t@),
        None => None,
    }
}

/// Compiles `pattern` with `Regex::new` and searches `haystack` with
/// `Regex::captures`. The contract names both results: an error stands for
/// a pattern that does not compile, and otherwise the value is the text of
/// group 1 of the leftmost match. Of that text it claims only what
/// `Match::as_str` shows: it is a piece of the haystack.
#[verifier::external_body]
fn search_first_group(pattern: &str, haystack: &str) -> (found: Result<
    Option<String>,
    regex::Error,
>)
    ensures
        found is Ok <==> pattern_compiles(pattern@),
        found matches Ok(group) ==> option_text(group) == first_group_match(pattern@, haystack@),
        found matches Ok(Some(text)) ==> occurs_in(text@, haystack@),
{
    let re = Regex::new(pattern)?;
    Ok(re.captures(haystack).and_then(|found| found.get(1)).map(|group| group.as_str().to_string()))
}

/// The pattern for the current mode: a resolution, `px`, and on the same
/// line the word `current`. Its group is the resolution.
pub const MODE_PATTERN: &'static str = r"(\d+x\d+)\s*px[^\n]*current";

/// The pattern for the scale: the scale field and its number. Its group is
/// the number.
pub const SCALE_PATTERN: &'static str = r"Scale:\s*([\d.]+)";

/// The first group that `pattern` captures in `text`; nothing when the
/// pattern does not compile.
pub open spec fn captured(pattern: Seq<char>, text: Seq<char>) -> Option<Seq<char>> {
    if pattern_compiles(pattern) {
        first_group_match(pattern, text)
    } else {
        None
    }
}

/// The first group that `pattern` captures in the block of `device`;
/// nothing when `text` holds no block of the device.
pub open spec fn captured_in_block(pattern: Seq<char>, text: Seq<char>, device: Seq<char>)
    -> Option<Seq<char>> {
    match block_of(text, device) {
        Some(block) => captured(pattern, block),
        None => None,
    }
}

/// Cuts the block of the device out of `text` and searches it for
/// `pattern`.
fn capture_in_block(text: &str, device_id: &str, pattern: &str) -> (capture: Option<String>)
    ensures
        option_text(capture) == captured_in_block(pattern@, text@, device_id@),
        capture matches Some(piece) ==> occurs_in(piece@, text@),
{
    match device_block(text, device_id) {
        Some(block) => match search_first_group(pattern, block) {
            Ok(capture) => {
                proof {
                    if capture is Some {
                        lemma_block_begins_with_name(text@, device_id@);
                        lemma_piece_of_piece(capture->0@, block@, text@);
                    }
                }
                capture
            },
            Err(_) => None,
        },
        None => None,
    }
}

/// The mode that a captured text stands for: the text itself, if it is a
/// well-formed mode.
pub open spec fn mode_of_capture(capture: Option<Seq<char>>) -> Option<Seq<char>> {
    match capture {
        Some(s) => if is_mode_text(s) {
            Some(s)
        } else {
            None
        },
        None => None,
    }
}

/// The scale that a captured number stands for: its value as a percentage,
/// rounded to the nearest integer, ties to even.
pub open spec fn scale_of_capture(capture: Option<Seq<char>>) -> Option<ScaleOption> {
    match capture {
        Some(s) => if is_fraction(s) && hundredths_of(s) <= u32::MAX {
            Some(ScaleOption { percent: hundredths_of(s) as u32 })
        } else {
            None
        },
        None => None,
    }
}

/// The text of an optional mode.
pub open spec fn mode_text(mode: Option<DisplayMode>) -> Option<Seq<char>> {
    match mode {
        Some(m) => Some(m@),
        None => None,
    }
}

/// Makes a mode of what the mode pattern captured. A capture that is not of
/// the form `{width}x{height}` gives no mode.
pub fn mode_from_capture(capture: Option<String>) -> (mode: Option<DisplayMode>)
    ensures
        mode_text(mode) == mode_of_capture(option_text(capture)),
{
    match capture {
        Some(text) => DisplayMode::new(text.as_str()),
        None => None,
    }
}

/// Makes a scale of what the scale pattern captured. A capture that is no
/// decimal fraction, or whose percentage does not fit in a `u32`, gives no
/// scale.
pub fn scale_from_capture(capture: Option<String>) -> (scale: Option<ScaleOption>)
    ensures
        scale == scale_of_capture(option_text(capture)),
{
    match capture {
        Some(text) => match parse_hundredths(text.as_str()) {
            Some(percent) => Some(ScaleOption { percent }),
            None => None,
        },
        None => None,
    }
}

/// The current mode of `device` according to the report `text`.
pub open spec fn current_mode(text: Seq<char>, device: Seq<char>) -> Option<Seq<char>> {
    mode_of_capture(captured_in_block(MODE_PATTERN@, text, device))
}

/// The scale of `device` according to the report `text`.
pub open spec fn current_scale(text: Seq<char>, device: Seq<char>) -> Option<ScaleOption> {
    scale_of_capture(captured_in_block(SCALE_PATTERN@, text, device))
}

/// Finds the mode that the report marks as current for the device: the
/// first resolution in the block of the device that is followed, on its
/// line, by `px` and the word `current`. `None` when the report holds no
/// block of the device, or the block marks no mode.
pub fn extract_mode(text: &str, device_id: &str) -> (mode: Option<DisplayMode>)
    ensures
        mode_text(mode) == current_mode(text@, device_id@),
        mode matches Some(m) ==> occurs_in(m@, text@),
{
    mode_from_capture(capture_in_block(text, device_id, MODE_PATTERN))
}

/// Finds the scale that the report gives for the device: the number of the
/// first scale field in the block of the device, as a percentage. `None`
/// when the report holds no block of the device, or the block gives no
/// scale.
pub fn extract_scale(text: &str, device_id: &str) -> (scale: Option<ScaleOption>)
    ensures
        scale == current_scale(text@, device_id@),
        scale matches Some(found) ==> exists|number: Seq<char>| #[trigger]
            occurs_in(number, text@) && is_fraction(number) && found.percent == hundredths_of(
                number,
            ),
{
    let capture = capture_in_block(text, device_id, SCALE_PATTERN);
    proof {
        if capture is Some {
            assert(occurs_in(capture->0@, text@));
        }
    }
    scale_from_capture(capture)
}

/// The active mode and scale of one device, as a report gave them.
#[derive(Debug)]
pub struct ProbedState {
    pub mode: Option<DisplayMode>,
    pub scale: Option<ScaleOption>,
}

/// Reads both the current mode and the scale of the device from a report.
pub fn probed_state(text: &str, device_id: &str) -> (state: ProbedState)
    ensures
        mode_text(state.mode) == current_mode(text@, device_id@),
        state.scale == current_scale(text@, device_id@),
{
    ProbedState { mode: extract_mode(text, device_id), scale: extract_scale(text, device_id) }
}

/// What is extracted for a device depends on the block of the device alone:
/// a report without such a block yields neither mode nor scale, and two
/// reports with the same block yield the same mode and the same scale,
/// whatever else they hold.
pub proof fn lemma_extraction_reads_the_block(
    text: Seq<char>,
    other: Seq<char>,
    device: Seq<char>,
)
    ensures
        block_of(text, device) is None ==> current_mode(text, device) is None && current_scale(
            text,
            device,
        ) is None,
        block_of(text, device) == block_of(other, device) ==> current_mode(text, device)
            == current_mode(other, device) && current_scale(text, device) == current_scale(
            other,
            device,
        ),
{
}

/// Two extractions of the mode from the same report and device agree.
pub proof fn lemma_extract_mode_repeatable(
    text: Seq<char>,
    device: Seq<char>,
    first: Option<DisplayMode>,
    second: Option<DisplayMode>,
)
    requires
        mode_text(first) == current_mode(text, device),
        mode_text(second) == current_mode(text, device),
    ensures
        mode_text(first) == mode_text(second),
{
}

/// Two extractions of the scale from the same report and device agree.
pub proof fn lemma_extract_scale_repeatable(
    text: Seq<char>,
    device: Seq<char>,
    first: Option<ScaleOption>,
    second: Option<ScaleOption>,
)
    requires
        first == current_scale(text, device),
        second == current_scale(text, device),
    ensures
        first == second,
{
}

} // verus!
