use printctl::framing::LineFramer;
use printctl::printer_state::PrinterState;

#[test]
fn framing_across_reads_matches_the_newline_split() {
    let mut framer = LineFramer::new();
    let first = framer.push_bytes(b"ok\r");
    assert!(first.is_empty());
    let second = framer.push_bytes(b"\nT:200.0 ");
    assert_eq!(second, vec![b"ok".to_vec()]);
    let third = framer.push_bytes(b"/210.0 B:60.0 /60.0\n");
    assert_eq!(third, vec![b"T:200.0 /210.0 B:60.0 /60.0".to_vec()]);
}

#[test]
fn framing_is_invariant_under_chunk_boundaries() {
    let stream = b"ok\r\nT:20.0 /21.0\nError: bad\nrest";
    let mut whole = LineFramer::new();
    let mut all = whole.push_bytes(stream);
    let mut pieces = LineFramer::new();
    let mut collected = Vec::new();
    for chunk in stream.chunks(3) {
        collected.extend(pieces.push_bytes(chunk));
    }
    all.sort();
    collected.sort();
    assert_eq!(all, collected);
    assert_eq!(whole.pending, pieces.pending);
}

#[test]
fn temperature_report_updates_every_named_slot() {
    let mut st = PrinterState::default();
    st.update_from_line(b"T0:200.0 /210.0 T1:205.0 /215.0 B:60.0 /60.0");
    let t0 = st.tool(0).expect("tool 0 reported");
    assert_eq!(t0.temp_mc, 200_000);
    assert_eq!(t0.target_mc, 210_000);
    let t1 = st.tool(1).expect("tool 1 reported");
    assert_eq!(t1.temp_mc, 205_000);
    assert_eq!(t1.target_mc, 215_000);
    assert_eq!(st.bed.temp_mc, 60_000);
    assert_eq!(st.bed.target_mc, 60_000);
    assert!(!st.ready);
}

#[test]
fn bare_t_token_reports_the_first_tool() {
    let mut st = PrinterState::default();
    st.update_from_line(b"T:198.5/200.0 B:59.1/60.0");
    let t0 = st.tool(0).expect("tool 0 reported");
    assert_eq!(t0.temp_mc, 198_500);
    assert_eq!(t0.target_mc, 200_000);
    assert_eq!(st.bed.temp_mc, 59_100);
}

#[test]
fn ok_line_marks_the_printer_ready_and_nothing_else() {
    let mut st = PrinterState::default();
    st.update_from_line(b"ok");
    assert!(st.ready);
    assert!(st.last_error.is_none());
    assert!(st.tool(0).is_none());
}

#[test]
fn error_line_is_recorded_verbatim() {
    let mut st = PrinterState::default();
    st.update_from_line(b"Error:Thermal Runaway");
    assert_eq!(st.last_error, Some(b"Error:Thermal Runaway".to_vec()));
    assert!(!st.ready);
}

#[test]
fn error_must_stand_at_a_word_start_with_colon_or_space() {
    let mut st = PrinterState::default();
    st.update_from_line(b"Errors: 0");
    assert!(st.last_error.is_none());
    st.update_from_line(b"MINTEMPError:1");
    assert!(st.last_error.is_none());
    st.update_from_line(b"halt Error: probe failed");
    assert_eq!(st.last_error, Some(b"halt Error: probe failed".to_vec()));
}

#[test]
fn a_temperature_token_without_a_target_changes_nothing() {
    let mut st = PrinterState::default();
    st.update_from_line(b"T:200.0");
    assert!(st.tool(0).is_none());
}

#[test]
fn position_report_updates_the_first_tool() {
    let mut st = PrinterState::default();
    st.update_from_line(b"X:10.00 Y:20.00 Z:0.50 E:1.23");
    let t0 = st.tool(0).expect("tool 0 reported");
    assert_eq!(t0.x_um, 10_000);
    assert_eq!(t0.y_um, 20_000);
    assert_eq!(t0.z_um, 500);
    assert_eq!(t0.e_um, 1_230);
}

#[test]
fn fan_report_sets_the_fan_speed() {
    let mut st = PrinterState::default();
    st.update_from_line(b"FAN speed:128");
    assert_eq!(st.fan_speed, 128);
    st.update_from_line(b"FAN speed:900");
    assert_eq!(st.fan_speed, 128);
}
