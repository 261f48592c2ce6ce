use neonos::timer::{after, T};

#[test]
fn after_adds_interval() {
    assert_eq!(after(5, T), 10_005);
}
