use tftp_server::serial::{serial_add16, serial_distance16, serial_gt16, serial_lt16};

#[test]
fn addition_wraps() {
    assert_eq!(serial_add16(65535, 1), 0);
    assert_eq!(serial_add16(65534, 3), 1);
    assert_eq!(serial_add16(0, 0), 0);
}

#[test]
fn ordering_wraps() {
    assert!(serial_lt16(65535, 0));
    assert!(serial_gt16(0, 65535));
    assert!(serial_lt16(65000, 100));
    assert!(!serial_lt16(100, 65000));
}

#[test]
fn half_way_values_are_unordered() {
    // Two values exactly 2^15 apart precede each other in neither
    // direction.
    assert!(!serial_lt16(0, 32768));
    assert!(!serial_lt16(32768, 0));
    assert!(!serial_gt16(0, 32768));
    assert!(!serial_gt16(32768, 0));
}

#[test]
fn forward_distance() {
    assert_eq!(serial_distance16(5, 9), 4);
    assert_eq!(serial_distance16(9, 9), 0);
    assert_eq!(serial_distance16(65535, 1), 2);
}
