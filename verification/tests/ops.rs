use noodle::ops::Operations;

#[test]
fn new_packs_bits() {
    let ops = Operations::new(true, false, true, false);
    assert!(ops.can_create());
    assert!(!ops.can_read());
    assert!(ops.can_update());
    assert!(!ops.can_delete());
    assert_eq!(ops.bits(), 0b0101);
}

#[test]
fn new_all_and_none() {
    let all = Operations::new(true, true, true, true);
    assert_eq!(all.bits(), 0b1111);
    assert!(all.can_create() && all.can_read() && all.can_update() && all.can_delete());
    let none = Operations::new(false, false, false, false);
    assert_eq!(none.bits(), 0);
    assert!(!none.can_create() && !none.can_read() && !none.can_update() && !none.can_delete());
}

#[test]
fn single_bit_constructors() {
    assert_eq!(Operations::create().bits(), 0b0001);
    assert_eq!(Operations::read().bits(), 0b0010);
    assert_eq!(Operations::update().bits(), 0b0100);
    assert_eq!(Operations::delete().bits(), 0b1000);
}

#[test]
fn intersects_shares_a_bit() {
    let cu = Operations::new(true, false, true, false);
    assert!(cu.intersects(&Operations::create()));
    assert!(!cu.intersects(&Operations::read()));
    assert!(cu.intersects(&Operations::update()));
    assert!(!cu.intersects(&Operations::delete()));
    let none = Operations::new(false, false, false, false);
    assert!(!none.intersects(&cu));
}

#[test]
fn from_raw_mask() {
    let ops = Operations::from(0b0110);
    assert!(!ops.can_create());
    assert!(ops.can_read());
    assert!(ops.can_update());
    assert!(!ops.can_delete());
}
