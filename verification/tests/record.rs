use clockprobe::record::{delay_between, time_differential, write_seconds, write_signed, LogRecord};

fn text(bytes: Vec<u8>) -> String {
    String::from_utf8(bytes).unwrap()
}

#[test]
fn differential_is_remote_minus_local() {
    assert_eq!(time_differential(1000, 1000), 0);
    assert_eq!(time_differential(1005, 1000), 5);
    assert_eq!(time_differential(1000, 1005), -5);
    assert_eq!(time_differential(0, 1_700_000_000), -1_700_000_000);
    assert_eq!(time_differential(i64::MAX as u64, 0), i64::MAX);
    assert_eq!(time_differential(0, 1u64 << 63), i64::MIN);
    assert_eq!(time_differential(u64::MAX, u64::MAX - 3), 3);
}

#[test]
fn differential_wraps_beyond_the_signed_range() {
    assert_eq!(time_differential(1u64 << 63, 0), i64::MIN);
    assert_eq!(time_differential(u64::MAX, 0), -1);
    assert_eq!(time_differential(0, u64::MAX), 1);
    assert_eq!(time_differential(0, (1u64 << 63) + 1), i64::MAX);
}

#[test]
fn delay_is_the_elapsed_monotonic_time() {
    assert_eq!(delay_between(0, 120_000_000), 120_000_000);
    assert_eq!(delay_between(5, 5), 0);
    assert_eq!(delay_between(10, 3), 0);
    assert_eq!(delay_between(0, u64::MAX), u64::MAX);
}

#[test]
fn measure_fills_the_record() {
    assert_eq!(
        LogRecord::measure(1000, 2_000_000_000, 1003, 2_250_000_000),
        LogRecord { last_send_time: 1000, time_differential: 3, delay_nanos: 250_000_000 }
    );
}

#[test]
fn line_of_a_prompt_reply() {
    let record = LogRecord { last_send_time: 1000, time_differential: 0, delay_nanos: 120_000_000 };
    assert_eq!(text(record.line()), "1000,0,0.12\n");
}

#[test]
fn line_with_negative_differential() {
    let record =
        LogRecord { last_send_time: 1_700_000_000, time_differential: -5, delay_nanos: 1_500_000_000 };
    assert_eq!(text(record.line()), "1700000000,-5,1.5\n");
}

#[test]
fn line_extremes() {
    let record = LogRecord { last_send_time: 0, time_differential: i64::MIN, delay_nanos: 0 };
    assert_eq!(text(record.line()), "0,-9223372036854775808,0\n");
    let record =
        LogRecord { last_send_time: u64::MAX, time_differential: i64::MAX, delay_nanos: u64::MAX };
    assert_eq!(
        text(record.line()),
        "18446744073709551615,9223372036854775807,18446744073.709551615\n"
    );
}

#[test]
fn seconds_text_drops_trailing_zeros() {
    let cases: [(u64, &str); 8] = [
        (0, "0"),
        (1, "0.000000001"),
        (10, "0.00000001"),
        (1_000_000, "0.001"),
        (999_999_999, "0.999999999"),
        (1_000_000_000, "1"),
        (2_050_000_000, "2.05"),
        (60_000_000_000, "60"),
    ];
    for (nanos, expected) in cases {
        let mut out = Vec::new();
        write_seconds(&mut out, nanos);
        assert_eq!(text(out), expected);
    }
}

#[test]
fn signed_numbers_append_to_what_is_there() {
    let mut out = b"x=".to_vec();
    write_signed(&mut out, -42);
    write_signed(&mut out, 7);
    assert_eq!(text(out), "x=-427");
}
