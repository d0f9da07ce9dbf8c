use aeromessage::apple_to_unix;

#[test]
fn test_apple_to_unix_seconds() {
    let apple_ts = 725846400_i64;
    let unix_ts = apple_to_unix(apple_ts);
    assert_eq!(unix_ts, 1704153600);
}

#[test]
fn test_apple_to_unix_nanoseconds() {
    let apple_ts = 725846400_000_000_000_i64;
    let unix_ts = apple_to_unix(apple_ts);
    assert_eq!(unix_ts, 1704153600);
}

#[test]
fn test_apple_to_unix_encodings_agree() {
    let seconds = 699840000_i64;
    let nanoseconds = seconds * 1_000_000_000;
    assert_eq!(apple_to_unix(seconds), apple_to_unix(nanoseconds));
}

#[test]
fn test_apple_to_unix_deterministic() {
    let t = 123456789_i64;
    assert_eq!(apple_to_unix(t), apple_to_unix(t));
}

#[test]
fn test_apple_to_unix_zero() {
    assert_eq!(apple_to_unix(0), 978307200);
}

#[test]
fn test_apple_to_unix_negative_nanoseconds() {
    // Magnitude above the threshold: nanoseconds, even below zero.
    assert_eq!(apple_to_unix(-2_000_000_000_000), -2000 + 978307200);
}

#[test]
fn test_apple_to_unix_negative_seconds() {
    // Magnitude below the threshold: seconds.
    assert_eq!(apple_to_unix(-1000), -1000 + 978307200);
}

#[test]
fn test_apple_to_unix_negative_truncates_toward_zero() {
    assert_eq!(apple_to_unix(-2_500_000_000_500), -2500 + 978307200);
}

#[test]
fn test_apple_to_unix_negative_encodings_agree() {
    let seconds = -5000_i64;
    let nanoseconds = seconds * 1_000_000_000;
    assert_eq!(apple_to_unix(seconds), apple_to_unix(nanoseconds));
}
