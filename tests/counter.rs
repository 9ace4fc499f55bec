use gilrs::{Gilrs, GilrsBuilder, MAX_COUNTER};

#[test]
fn counter_counts_increments() {
    let mut g = Gilrs::new().ok().unwrap();
    assert_eq!(g.counter(), 0);
    for _ in 0..10 {
        g.inc();
    }
    assert_eq!(g.counter(), 10);
    g.reset_counter();
    assert_eq!(g.counter(), 0);
}

#[test]
fn counter_counts_from_fresh_builder() {
    let mut g = GilrsBuilder::new().build().ok().unwrap();
    let mut n: u64 = 0;
    while n < 5 {
        g.inc();
        n += 1;
    }
    assert_eq!(g.counter(), 5);
    assert_eq!(MAX_COUNTER, 0x3FFF_FFFF_FFFF_FFFF);
}

#[test]
fn ff_ids_increase() {
    let mut g = Gilrs::new().ok().unwrap();
    assert_eq!(g.next_ff_id(), Some(0));
    assert_eq!(g.next_ff_id(), Some(1));
    assert_eq!(g.next_ff_id(), Some(2));
}
