use rmr_core::files::analyzer::{
    comment_time, duration_value, scan_gcode_lines, split_whitespace, z_text,
};

#[test]
fn gcode_scan_counts_and_heights() {
    let mut lines = Vec::new();
    for i in 0..120 {
        lines.push(format!("G1 X10 Y10 Z{}", i));
        if i % 100 == 0 {
            lines.push(format!(";LAYER:{}", i / 100));
        }
    }
    let scan = scan_gcode_lines(&lines);
    assert_eq!(scan.layer_count, 2);
    assert_eq!(scan.estimated_time, 122 / 50);
    assert_eq!(scan.z_texts.len(), 120);
    assert_eq!(scan.z_texts[119], "119");
}

#[test]
fn gcode_height_texts() {
    assert_eq!(z_text("G1 X1 Z0.3 E2"), Some("0.3".to_string()));
    assert_eq!(z_text("G1 Z5"), Some("5".to_string()));
    assert_eq!(z_text("G0 X1 Z0.3"), None);
    assert_eq!(z_text("G1 X1 Y2"), None);
    assert_eq!(z_text("G1 XZ Zabc"), Some("abc".to_string()));
    assert_eq!(z_text("G1 X1 Z"), Some(String::new()));
    assert_eq!(split_whitespace("  a\tb  c "), vec!["a", "b", "c"]);
}

#[test]
fn gcode_print_time_from_hms_comment() {
    let lines = vec!["; estimated printing time (normal mode) = 1h 2m 3s".to_string()];
    let scan = scan_gcode_lines(&lines);
    assert_eq!(scan.estimated_time, 3723);
}

#[test]
fn gcode_print_time_from_seconds_comment() {
    let lines = vec![
        "G28".to_string(),
        ";TIME:3723".to_string(),
        "G1 X1 Z0.2".to_string(),
    ];
    let scan = scan_gcode_lines(&lines);
    assert_eq!(scan.estimated_time, 3723);
}

#[test]
fn gcode_print_time_last_comment_wins() {
    let lines = vec![
        ";TIME:10".to_string(),
        "; estimated printing time (normal mode) = 1d 0h 0m 5s".to_string(),
        ";TIME:not a time".to_string(),
    ];
    let scan = scan_gcode_lines(&lines);
    assert_eq!(scan.estimated_time, 86405);
}

#[test]
fn gcode_print_time_falls_back_to_line_count() {
    let mut lines = Vec::new();
    for _ in 0..149 {
        lines.push("G1 X1".to_string());
    }
    lines.push(";TIME:".to_string());
    let scan = scan_gcode_lines(&lines);
    assert_eq!(scan.estimated_time, 3);
}

#[test]
fn gcode_durations() {
    assert_eq!(duration_value("3723"), Some(3723));
    assert_eq!(duration_value(" 2m 3s"), Some(123));
    assert_eq!(duration_value("45s"), Some(45));
    assert_eq!(duration_value("1h 1h"), Some(7200));
    assert_eq!(duration_value(""), None);
    assert_eq!(duration_value("1x"), None);
    assert_eq!(duration_value("h"), None);
    assert_eq!(duration_value("3723 4"), None);
    assert_eq!(duration_value("+5s"), None);
    assert_eq!(duration_value("18446744073709551615"), Some(u64::MAX));
    assert_eq!(duration_value("18446744073709551616"), None);
    assert_eq!(duration_value("5124095576030432h"), None);
    assert_eq!(comment_time(";TIME:60"), Some(60));
    assert_eq!(comment_time("; estimated printing time (normal mode) = 3s"), Some(3));
    assert_eq!(comment_time("; estimated printing time (silent mode) = 3s"), None);
    assert_eq!(comment_time("G1 X1"), None);
}
