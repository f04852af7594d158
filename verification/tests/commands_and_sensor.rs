use cyan_skillfish_governor::actuator::{commit_command, push_decimal, vc_command};
use cyan_skillfish_governor::sensor::{hwmon_file_value, sensor_file_value, value_file_body};

#[test]
fn voltage_curve_line_is_exact_ascii() {
    assert_eq!(vc_command(350, 700), b"vc 0 350 700\n".to_vec());
    assert_eq!(vc_command(2000, 1000), b"vc 0 2000 1000\n".to_vec());
    assert_eq!(vc_command(0, 65535), b"vc 0 0 65535\n".to_vec());
}

#[test]
fn commit_line_is_exact_ascii() {
    assert_eq!(commit_command(), b"c\n".to_vec());
}

#[test]
fn decimal_encoding_handles_zero_and_big_values() {
    let mut out: Vec<u8> = Vec::new();
    push_decimal(0, &mut out);
    assert_eq!(out, b"0".to_vec());
    let mut out2: Vec<u8> = Vec::new();
    push_decimal(18446744073709551615, &mut out2);
    assert_eq!(out2, b"18446744073709551615".to_vec());
}

#[test]
fn sensor_value_rounds_to_whole_percent() {
    assert_eq!(sensor_file_value(0), 0);
    assert_eq!(sensor_file_value(4949), 49);
    assert_eq!(sensor_file_value(4950), 50);
    assert_eq!(sensor_file_value(10000), 100);
}

#[test]
fn hwmon_value_is_thousandths() {
    assert_eq!(hwmon_file_value(0), 0);
    assert_eq!(hwmon_file_value(4532), 45320);
    assert_eq!(hwmon_file_value(10000), 100000);
}

#[test]
fn sensor_file_body_is_decimal_and_newline() {
    assert_eq!(value_file_body(45), b"45\n".to_vec());
    assert_eq!(value_file_body(0), b"0\n".to_vec());
}
