use aynur_deploy::web::constant_time_equal;

#[test]
fn token_comparison_requires_exact_bytes() {
    assert!(constant_time_equal(b"secret", b"secret"));
    assert!(!constant_time_equal(b"secret", b"Secret"));
    assert!(!constant_time_equal(b"secret", b"secret-longer"));
}

#[test]
fn token_comparison_tells_trailing_zero_bytes_apart() {
    assert!(constant_time_equal(b"", b""));
    assert!(!constant_time_equal(b"secret", b"secret\0"));
    assert!(!constant_time_equal(b"\0", b""));
    assert!(!constant_time_equal(b"secret-longer", b"secret"));
}
