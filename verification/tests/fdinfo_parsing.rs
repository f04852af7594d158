use cyan_skillfish_governor::gpu_info::{is_drm_target, parse_fdinfo_cycles};

#[test]
fn engine_and_cycle_lines_are_summed() {
    let text = b"pos:\t0\ndrm-driver:\tamdgpu\ndrm-engine-gfx:\t123 ns\ndrm-cycles-gfx:\t77\n";
    assert_eq!(parse_fdinfo_cycles(text), 200);
}

#[test]
fn other_lines_contribute_nothing() {
    let text = b"drm-memory-vram:\t1024 KiB\nclient-id:\t42\n";
    assert_eq!(parse_fdinfo_cycles(text), 0);
}

#[test]
fn a_counted_line_without_a_colon_counts_zero() {
    assert_eq!(parse_fdinfo_cycles(b"drm-engine-gfx 55\n"), 0);
}

#[test]
fn a_plus_sign_is_accepted_like_the_integer_parser_does() {
    assert_eq!(parse_fdinfo_cycles(b"drm-engine-gfx: +55 ns\n"), 55);
}

#[test]
fn a_non_numeric_token_counts_zero() {
    assert_eq!(parse_fdinfo_cycles(b"drm-engine-gfx: lots\ndrm-cycles-x: 7\n"), 7);
}

#[test]
fn an_oversized_value_counts_zero() {
    assert_eq!(
        parse_fdinfo_cycles(b"drm-engine-a: 99999999999999999999999\ndrm-engine-b: 3\n"),
        3
    );
}

#[test]
fn carriage_returns_and_missing_final_newline_are_tolerated() {
    assert_eq!(parse_fdinfo_cycles(b"drm-engine-gfx:\t9\r\ndrm-cycles-gfx:\t1"), 10);
}

#[test]
fn value_stops_at_a_second_colon() {
    assert_eq!(parse_fdinfo_cycles(b"drm-engine-gfx: 12:34\n"), 12);
}

#[test]
fn empty_input_sums_to_zero() {
    assert_eq!(parse_fdinfo_cycles(b""), 0);
}

#[test]
fn drm_device_links_are_recognized() {
    assert!(is_drm_target(b"/dev/dri/renderD128"));
    assert!(is_drm_target(b"socket:[12345] /dev/dri/card0"));
    assert!(!is_drm_target(b"/dev/null"));
    assert!(!is_drm_target(b"/dev/dri"));
    assert!(!is_drm_target(b""));
}
