use sosistab2_obfsws::meter::{Meter, Unit};

#[test]
fn units_are_powers_of_1024() {
    assert_eq!(Unit::KiB.bytes(), 1024);
    assert_eq!(Unit::MiB.bytes(), 1024 * 1024);
    assert_eq!(Unit::GiB.bytes(), 1024 * 1024 * 1024);
    assert_eq!(Unit::KiB.name(), "KiB");
    assert_eq!(Unit::MiB.name(), "MiB");
    assert_eq!(Unit::GiB.name(), "GiB");
}

#[test]
fn the_unit_follows_the_speed() {
    assert_eq!(Unit::KiB.adapt(true, false), Unit::MiB);
    assert_eq!(Unit::MiB.adapt(true, false), Unit::GiB);
    assert_eq!(Unit::GiB.adapt(true, false), Unit::GiB);
    assert_eq!(Unit::KiB.adapt(false, true), Unit::KiB);
    assert_eq!(Unit::MiB.adapt(false, true), Unit::KiB);
    assert_eq!(Unit::GiB.adapt(false, true), Unit::MiB);
    assert_eq!(Unit::MiB.adapt(false, false), Unit::MiB);
}

#[test]
fn bytes_are_counted_in_all_and_since_the_last_report() {
    let mut meter = Meter::new();
    meter.count(10);
    meter.count(5);
    assert_eq!(meter.total, 15);
    assert_eq!(meter.recent, 15);
    assert_eq!(meter.unit, Unit::KiB);
    meter.restart(true, false);
    meter.count(1);
    assert_eq!(meter.total, 16);
    assert_eq!(meter.recent, 1);
    assert_eq!(meter.unit, Unit::MiB);
}
