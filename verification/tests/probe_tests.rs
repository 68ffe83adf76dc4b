use display_settings::options::{index_of, populate_resolutions, populate_scales, ScaleOption};
use display_settings::block::device_block;
use display_settings::command::RunOutcome;
use display_settings::probe::{
    extract_mode, extract_scale, mode_from_capture, probe_result, probed_state, scale_from_capture,
    ProbeError,
};

fn report() -> String {
    [
        "HDMI-A-1 \"Dell Inc. DELL U2720Q (HDMI-A-1)\"",
        "  Physical size: 600x340 mm",
        "  Enabled: yes",
        "  Modes:",
        "    3840x2160 px, 60.000000 Hz (preferred, current)",
        "    1920x1080 px, 60.000000 Hz",
        "  Position: 1920,0",
        "  Scale: 2.000000",
        "eDP-1 \"Chimei Innolux Corporation 0x1507 (eDP-1)\"",
        "  Physical size: 300x190 mm",
        "  Enabled: yes",
        "  Modes:",
        "    1920x1080 px, 60.001999 Hz",
        "    1920x1200 px, 60.001999 Hz (preferred, current)",
        "  Position: 0,0",
        "  Transform: normal",
        "  Scale: 1.250000",
        "  Adaptive Sync: disabled",
        "",
    ]
    .join("\n")
}

fn finished(exit_code: Option<i32>, stdout: &[u8], stderr: &[u8]) -> RunOutcome {
    RunOutcome::Finished { exit_code, stdout: stdout.to_vec(), stderr: stderr.to_vec() }
}

#[test]
fn current_mode_of_the_device_is_extracted() {
    let mode = extract_mode(&report(), "eDP-1").unwrap();
    assert_eq!(mode.as_str(), "1920x1200");
}

#[test]
fn current_mode_is_extracted_from_a_single_block() {
    let text = "eDP-1 \"panel\"\n  Modes:\n    1920x1200 px, 60.000000 Hz (current)\n";
    assert_eq!(extract_mode(text, "eDP-1").unwrap().as_str(), "1920x1200");
}

#[test]
fn current_mode_of_another_device_is_extracted() {
    let mode = extract_mode(&report(), "HDMI-A-1").unwrap();
    assert_eq!(mode.as_str(), "3840x2160");
}

#[test]
fn no_mode_without_current_marker() {
    let text = "eDP-1 \"panel\"\n  Modes:\n    1920x1200 px, 60.000000 Hz (preferred)\n    1920x1080 px, 60.000000 Hz\n";
    assert!(extract_mode(text, "eDP-1").is_none());
}

#[test]
fn no_mode_without_the_device() {
    assert!(extract_mode(&report(), "DP-3").is_none());
    assert!(extract_mode("", "eDP-1").is_none());
}

#[test]
fn marker_must_stand_on_the_line_of_the_mode() {
    let text = "eDP-1\n    1920x1200 px, 60 Hz\n    (current)\n";
    assert!(extract_mode(text, "eDP-1").is_none());
}

#[test]
fn mode_that_is_no_positive_size_is_no_mode() {
    let text = "eDP-1\n    0x0 px (current)\n";
    assert!(extract_mode(text, "eDP-1").is_none());
    let text = "eDP-1\n    ١٩٢٠x١٢٠٠ px (current)\n";
    assert!(extract_mode(text, "eDP-1").is_none());
}

#[test]
fn device_name_is_taken_literally() {
    let text = "DPx1 \"panel\"\n    1920x1200 px, 60 Hz (current)\n  Scale: 1.500000\n";
    assert!(extract_mode(text, "DP.1").is_none());
    assert!(extract_scale(text, "DP.1").is_none());
    assert!(extract_mode(text, "DP[a-z]1").is_none());
    assert_eq!(extract_mode(text, "DPx1").unwrap().as_str(), "1920x1200");
    let text = "a.b(c)\n    1920x1200 px (current)\n  Scale: 1\n";
    assert_eq!(extract_mode(text, "a.b(c)").unwrap().as_str(), "1920x1200");
    assert_eq!(extract_scale(text, "a.b(c)"), Some(ScaleOption { percent: 100 }));
}

#[test]
fn mode_of_another_block_is_not_taken() {
    let text = "eDP-1\n  Enabled: no\nHDMI-A-1\n  Modes:\n    2104x1236 px, 60.000000 Hz (current)\n";
    assert!(extract_mode(text, "eDP-1").is_none());
    assert_eq!(extract_mode(text, "HDMI-A-1").unwrap().as_str(), "2104x1236");
}

#[test]
fn scale_of_another_block_is_not_taken() {
    let text = "eDP-1\n  Enabled: no\nHDMI-A-1\n  Scale: 2.000000\n";
    assert!(extract_scale(text, "eDP-1").is_none());
    assert_eq!(extract_scale(text, "HDMI-A-1"), Some(ScaleOption { percent: 200 }));
    let state = probed_state(text, "eDP-1");
    assert!(state.mode.is_none());
    assert!(state.scale.is_none());
}

#[test]
fn name_inside_a_longer_name_finds_no_block() {
    assert!(extract_mode(&report(), "DP-1").is_none());
    assert!(extract_scale(&report(), "DP-1").is_none());
    assert!(extract_mode(&report(), "eDP").is_none());
    assert!(extract_mode(&report(), "HDMI-A-10").is_none());
    assert!(extract_mode(&report(), "HDMI-A").is_none());
    let text = "DP-10 \"panel\"\n    1920x1200 px (current)\n  Scale: 1\n";
    assert!(extract_mode(text, "DP-1").is_none());
    assert!(extract_scale(text, "DP-1").is_none());
    assert_eq!(extract_mode(text, "DP-10").unwrap().as_str(), "1920x1200");
}

#[test]
fn name_in_a_description_finds_no_block() {
    let text = "HDMI-A-1 \"mirror of eDP-1\"\n  eDP-1 1920x1200 px (current)\n  Scale: 1.5\n";
    assert!(extract_mode(text, "eDP-1").is_none());
    assert!(extract_scale(text, "eDP-1").is_none());
}

#[test]
fn blocks_are_cut_out_of_the_report() {
    let text = "HDMI-A-1 \"x\"\n  Enabled: yes\neDP-1 \"panel\"\n  Modes:\n    1920x1200 px (current)\n  Scale: 1.0\nDP-3\n  Enabled: no\n";
    assert_eq!(device_block(text, "HDMI-A-1"), Some("HDMI-A-1 \"x\"\n  Enabled: yes\n"));
    assert_eq!(
        device_block(text, "eDP-1"),
        Some("eDP-1 \"panel\"\n  Modes:\n    1920x1200 px (current)\n  Scale: 1.0\n")
    );
    assert_eq!(device_block(text, "DP-3"), Some("DP-3\n  Enabled: no\n"));
    assert_eq!(device_block(text, "DP-4"), None);
}

#[test]
fn block_ends_with_the_text_or_before_a_line_that_is_not_indented() {
    assert_eq!(device_block("eDP-1", "eDP-1"), Some("eDP-1"));
    assert_eq!(device_block("eDP-1\n", "eDP-1"), Some("eDP-1\n"));
    assert_eq!(device_block("eDP-1\n\tScale: 2", "eDP-1"), Some("eDP-1\n\tScale: 2"));
    assert_eq!(device_block("eDP-1\n\n  Scale: 2\n", "eDP-1"), Some("eDP-1\n"));
    assert_eq!(device_block("eDP-1 a\n b\n  c\nd\n e\n", "eDP-1"), Some("eDP-1 a\n b\n  c\n"));
    assert_eq!(device_block("eDP-1\tpanel\n x", "eDP-1"), Some("eDP-1\tpanel\n x"));
}

#[test]
fn block_is_the_first_of_its_device() {
    assert_eq!(device_block("eDP-1\n a\neDP-1\n b\n", "eDP-1"), Some("eDP-1\n a\n"));
    assert_eq!(device_block("eDP-1x\neDP-1 a\n b\n", "eDP-1"), Some("eDP-1 a\n b\n"));
}

#[test]
fn block_begins_where_a_line_begins_with_the_name() {
    assert_eq!(device_block(" eDP-1\n", "eDP-1"), None);
    assert_eq!(device_block("x eDP-1\n", "eDP-1"), None);
    assert_eq!(device_block("eDP-10\n", "eDP-1"), None);
    assert_eq!(device_block("eDP-1\"\n", "eDP-1"), None);
    assert_eq!(device_block("eDP-", "eDP-1"), None);
    assert_eq!(device_block("", "eDP-1"), None);
    assert_eq!(device_block("edp-1\n", "eDP-1"), None);
}

#[test]
fn texts_that_name_no_device_find_no_block() {
    assert_eq!(device_block("\n  Scale: 2\n", ""), None);
    assert_eq!(device_block(" eDP-1\n", " eDP-1"), None);
    assert_eq!(device_block("a\nb\n", "a\nb"), None);
    assert_eq!(device_block("a b\n c\n", "a b"), Some("a b\n c\n"));
}

#[test]
fn blocks_are_cut_by_characters() {
    let text = "ünïcödé ✓\neDP-1 \"pänel\"\n  Scale: 1.5 ✓\nDP-3\n";
    assert_eq!(device_block(text, "eDP-1"), Some("eDP-1 \"pänel\"\n  Scale: 1.5 ✓\n"));
    assert_eq!(extract_scale(text, "eDP-1"), Some(ScaleOption { percent: 150 }));
    assert_eq!(device_block("ü\n  ü\nx", "ü"), Some("ü\n  ü\n"));
}

#[test]
fn scale_of_the_device_is_extracted() {
    assert_eq!(extract_scale(&report(), "eDP-1"), Some(ScaleOption { percent: 125 }));
    assert_eq!(extract_scale(&report(), "HDMI-A-1"), Some(ScaleOption { percent: 200 }));
}

#[test]
fn extracted_scale_is_found_among_the_offered_scales() {
    let text = "eDP-1 \"panel\"\n  Scale: 1.25\n";
    let scale = extract_scale(text, "eDP-1").unwrap();
    assert_eq!(scale.label(), "125%");
    assert_eq!(index_of(&populate_scales(), &scale.label()), Some(1));
}

#[test]
fn extracted_mode_is_found_among_the_offered_resolutions() {
    let mode = extract_mode(&report(), "eDP-1").unwrap();
    assert_eq!(index_of(&populate_resolutions(), mode.as_str()), Some(0));
}

#[test]
fn no_scale_without_scale_field() {
    let text = "eDP-1 \"panel\"\n  Modes:\n    1920x1200 px, 60.000000 Hz (current)\n";
    assert!(extract_scale(text, "eDP-1").is_none());
    assert!(extract_scale(&report(), "DP-3").is_none());
}

#[test]
fn scale_that_is_no_number_is_no_scale() {
    assert!(extract_scale("eDP-1\n  Scale: 1.2.3\n", "eDP-1").is_none());
    assert!(extract_scale("eDP-1\n  Scale: .\n", "eDP-1").is_none());
    assert!(extract_scale("eDP-1\n  Scale: ١\n", "eDP-1").is_none());
    assert!(extract_scale("eDP-1\n  Scale: 99999999999\n", "eDP-1").is_none());
}

#[test]
fn scale_number_ends_where_its_characters_end() {
    assert_eq!(extract_scale("eDP-1 Scale:1.5x", "eDP-1"), Some(ScaleOption { percent: 150 }));
    assert_eq!(extract_scale("eDP-1 Scale: \n 2 ", "eDP-1"), Some(ScaleOption { percent: 200 }));
}

#[test]
fn extraction_is_repeatable() {
    let text = report();
    for device in ["eDP-1", "HDMI-A-1", "DP-3"] {
        let first = extract_mode(&text, device).map(|m| m.as_str().to_string());
        let second = extract_mode(&text, device).map(|m| m.as_str().to_string());
        assert_eq!(first, second);
        assert_eq!(extract_scale(&text, device), extract_scale(&text, device));
    }
}

#[test]
fn probed_state_holds_mode_and_scale() {
    let state = probed_state(&report(), "eDP-1");
    assert_eq!(state.mode.unwrap().as_str(), "1920x1200");
    assert_eq!(state.scale, Some(ScaleOption { percent: 125 }));
    let state = probed_state("nothing", "eDP-1");
    assert!(state.mode.is_none());
    assert!(state.scale.is_none());
}

#[test]
fn captures_become_modes_and_scales() {
    assert_eq!(mode_from_capture(Some("1936x1203".to_string())).unwrap().as_str(), "1936x1203");
    assert!(mode_from_capture(Some("0x0".to_string())).is_none());
    assert!(mode_from_capture(None).is_none());
    assert_eq!(scale_from_capture(Some("1.5".to_string())), Some(ScaleOption { percent: 150 }));
    assert_eq!(scale_from_capture(Some("...".to_string())), None);
    assert_eq!(scale_from_capture(None), None);
}

#[test]
fn successful_query_yields_its_output() {
    let outcome = finished(Some(0), report().as_bytes(), b"warning");
    assert!(outcome.succeeded());
    assert_eq!(probe_result(&outcome), Ok(report()));
}

#[test]
fn output_is_decoded_leniently() {
    let outcome = finished(Some(0), &[0x66, 0xff, 0x6f, 0xc3, 0xa9], b"");
    assert_eq!(probe_result(&outcome), Ok("f\u{fffd}o\u{e9}".to_string()));
}

#[test]
fn query_that_did_not_start_is_an_execution_failure() {
    assert!(!RunOutcome::Failed.succeeded());
    assert_eq!(probe_result(&RunOutcome::Failed), Err(ProbeError::ExecutionFailed));
}

#[test]
fn query_with_nonzero_exit_yields_its_error_text() {
    let outcome = finished(Some(1), b"ignored", b"failed to connect to display\n");
    assert!(!outcome.succeeded());
    assert_eq!(
        probe_result(&outcome),
        Err(ProbeError::NonZeroExit("failed to connect to display\n".to_string()))
    );
    let outcome = finished(Some(-1), b"", &[0xff]);
    assert_eq!(probe_result(&outcome), Err(ProbeError::NonZeroExit("\u{fffd}".to_string())));
}

#[test]
fn query_without_exit_code_is_a_nonzero_exit() {
    let outcome = finished(None, b"eDP-1", b"killed");
    assert!(!outcome.succeeded());
    assert_eq!(probe_result(&outcome), Err(ProbeError::NonZeroExit("killed".to_string())));
}
