use netvr::log_parse::{float_text, parse_file, Span};

const DEVICE: &str = "(0.0, 1.5, -2.25) (0.0,0.0,0.0,1.0) (0., .5, +90.0)";

fn text(input: &str, span: Span) -> String {
    String::from_utf8(float_text(input.as_bytes(), span)).unwrap()
}

fn value(input: &str, span: Span) -> f32 {
    text(input, span).parse::<f32>().unwrap()
}

fn slice(input: &str, span: Span) -> &str {
    &input[span.start..span.end]
}

#[test]
fn one_full_line() {
    let input = format!(
        "1_2,5 local 7 {d} remote 201 /interaction_profiles/khr/simple_controller /user/hand/left {d}\n",
        d = DEVICE
    );
    let (lines, rest) = parse_file(input.as_bytes());
    assert_eq!(rest, input.len());
    assert_eq!(lines.len(), 1);
    let line = &lines[0];
    assert_eq!(text(&input, line.time), "12.5");
    assert_eq!(value(&input, line.time), 12.5);
    assert_eq!(line.local.len(), 1);
    assert_eq!(line.local[0].id, 7);
    let d = line.local[0].device;
    assert_eq!(value(&input, d.position.1), 1.5);
    assert_eq!(value(&input, d.position.2), -2.25);
    assert_eq!(value(&input, d.rotation.3), 1.0);
    assert_eq!(text(&input, d.rotation_euler.0), "0.");
    assert_eq!(value(&input, d.rotation_euler.1), 0.5);
    assert_eq!(value(&input, d.rotation_euler.2), 90.0);
    assert_eq!(line.remote.len(), 1);
    let r = line.remote[0];
    assert_eq!(r.id, 201);
    assert_eq!(slice(&input, r.interaction_profile), "/interaction_profiles/khr/simple_controller");
    assert_eq!(slice(&input, r.subaction_path), "/user/hand/left");
}

#[test]
fn several_lines_and_devices() {
    let input = format!(
        "0,1 local 1 {d} local 2 {d} remote 3 /a /b {d}\n0,2 local 1 {d} remote 3 /a /b {d} remote 4 /c /d {d}",
        d = DEVICE
    );
    let (lines, rest) = parse_file(input.as_bytes());
    assert_eq!(rest, input.len());
    assert_eq!(lines.len(), 2);
    assert_eq!(lines[0].local.iter().map(|l| l.id).collect::<Vec<_>>(), vec![1, 2]);
    assert_eq!(lines[0].remote.len(), 1);
    assert_eq!(lines[1].remote.iter().map(|r| r.id).collect::<Vec<_>>(), vec![3, 4]);
}

#[test]
fn parsing_stops_at_first_bad_line() {
    let good = format!("0,1 local 1 {d} remote 3 /a /b {d}\n", d = DEVICE);
    let input = format!("{good}garbage");
    let (lines, rest) = parse_file(input.as_bytes());
    assert_eq!(lines.len(), 1);
    assert_eq!(rest, good.len());
}

#[test]
fn line_without_local_devices_is_not_parsed() {
    let input = format!("0,1 remote 3 /a /b {d}", d = DEVICE);
    let (lines, rest) = parse_file(input.as_bytes());
    assert!(lines.is_empty());
    assert_eq!(rest, 0);
}

#[test]
fn line_without_remote_devices_keeps_trailing_space() {
    let input = format!("0,1 local 1 {d} ", d = DEVICE);
    let (lines, rest) = parse_file(input.as_bytes());
    assert_eq!(lines.len(), 1);
    assert!(lines[0].remote.is_empty());
    assert_eq!(rest, input.len());
}

#[test]
fn ids_must_be_plain_u32() {
    for bad in ["1_0", "4294967296", "99999999999999999999"] {
        let input = format!("0,1 local {bad} {d} remote 3 /a /b {d}", d = DEVICE);
        let (lines, _) = parse_file(input.as_bytes());
        assert!(lines.is_empty(), "{bad}");
    }
    let input = format!("0,1 local 4294967295 {d} remote 3 /a /b {d}", d = DEVICE);
    let (lines, _) = parse_file(input.as_bytes());
    assert_eq!(lines[0].local[0].id, u32::MAX);
    let input = format!("0,1 local 007 {d} remote 3 /a /b {d}", d = DEVICE);
    let (lines, _) = parse_file(input.as_bytes());
    assert_eq!(lines[0].local[0].id, 7);
}

#[test]
fn numbers_need_a_decimal_separator() {
    let input = "0,1 local 1 (0, 1.0, 2.0) (0.0,0.0,0.0,1.0) (0.0,0.0,0.0) remote 3 /a /b (0.0,0.0,0.0) (0.0,0.0,0.0,1.0) (0.0,0.0,0.0)";
    let (lines, rest) = parse_file(input.as_bytes());
    assert!(lines.is_empty());
    assert_eq!(rest, 0);
    let (lines, _) = parse_file(b"12 local");
    assert!(lines.is_empty());
}

#[test]
fn empty_log() {
    let (lines, rest) = parse_file(b"");
    assert!(lines.is_empty());
    assert_eq!(rest, 0);
}

#[test]
fn float_text_normalizes() {
    let input = "-1_000,2_5";
    assert_eq!(text(input, Span { start: 0, end: input.len() }), "-1000.25");
}
