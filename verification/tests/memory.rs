use vcpu::memory::Addressable;
use vcpu::memory::LinearMemory;

#[test]
fn new_memory_is_zeroed() {
    let m = LinearMemory::new(8);
    for a in 0..8u16 {
        assert_eq!(m.read(a), Some(0));
    }
    assert_eq!(m.read(8), None);
}

#[test]
fn write_then_read_returns_value() {
    let mut m = LinearMemory::new(16);
    assert!(m.write(3, 0xab));
    assert_eq!(m.read(3), Some(0xab));
    assert!(m.write(0, 1));
    assert_eq!(m.read(0), Some(1));
    assert!(m.write(15, 255));
    assert_eq!(m.read(15), Some(255));
}

#[test]
fn out_of_bounds_access_fails_and_changes_nothing() {
    let mut m = LinearMemory::new(16);
    assert!(m.write(2, 7));
    assert_eq!(m.read(16), None);
    assert_eq!(m.read(60000), None);
    assert!(!m.write(16, 99));
    assert!(!m.write(60000, 99));
    for a in 0..16u16 {
        let expected = if a == 2 { 7 } else { 0 };
        assert_eq!(m.read(a), Some(expected));
    }
}

#[test]
fn write2_then_read2_round_trips_little_endian() {
    let mut m = LinearMemory::new(16);
    assert!(m.write2(4, 0xbeef));
    assert_eq!(m.read2(4), Some(0xbeef));
    assert_eq!(m.read(4), Some(0xef));
    assert_eq!(m.read(5), Some(0xbe));
}

#[test]
fn write2_at_capacity_boundary_leaves_low_byte() {
    let mut m = LinearMemory::new(16);
    assert!(!m.write2(15, 0x1234));
    assert_eq!(m.read(15), Some(0x34));
    assert!(!m.write2(16, 0x1234));
    assert_eq!(m.read(14), Some(0));
}

#[test]
fn read2_fails_when_second_byte_is_out_of_bounds() {
    let m = LinearMemory::new(16);
    assert_eq!(m.read2(15), None);
    assert_eq!(m.read2(16), None);
}

#[test]
fn read2_fails_at_top_of_address_space() {
    let mut m = LinearMemory::new(70000);
    assert!(m.write(0xffff, 5));
    assert!(m.write(0xfffe, 6));
    assert_eq!(m.read2(0xfffe), Some(0x0506));
    assert_eq!(m.read2(0xffff), None);
}

#[test]
fn copy_disjoint_reproduces_source() {
    let mut m = LinearMemory::new(32);
    assert!(m.write(0, 1));
    assert!(m.write(1, 2));
    assert!(m.write(2, 3));
    assert!(m.copy(0, 10, 3));
    assert_eq!(m.read(10), Some(1));
    assert_eq!(m.read(11), Some(2));
    assert_eq!(m.read(12), Some(3));
    assert_eq!(m.read(0), Some(1));
    assert_eq!(m.read(1), Some(2));
    assert_eq!(m.read(2), Some(3));
    assert_eq!(m.read(13), Some(0));
}

#[test]
fn copy_of_zero_bytes_always_succeeds() {
    let mut m = LinearMemory::new(8);
    assert!(m.copy(5, 60000, 0));
}

#[test]
fn copy_past_capacity_fails_but_keeps_earlier_bytes() {
    let mut m = LinearMemory::new(8);
    assert!(m.write(0, 9));
    assert!(m.write(1, 8));
    assert!(m.write(2, 7));
    assert!(!m.copy(0, 6, 3));
    assert_eq!(m.read(6), Some(9));
    assert_eq!(m.read(7), Some(8));
}

#[test]
fn copy_overlapping_forward_observes_overwritten_bytes() {
    let mut m = LinearMemory::new(16);
    assert!(m.write(0, 1));
    assert!(m.write(1, 2));
    assert!(m.write(2, 3));
    assert!(m.copy(0, 1, 3));
    assert_eq!(m.read(1), Some(1));
    assert_eq!(m.read(2), Some(1));
    assert_eq!(m.read(3), Some(1));
}
