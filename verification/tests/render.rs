use size_display::Size;
use size_display::EXA;
use size_display::GIGA;
use size_display::KILO;
use size_display::MEGA;
use size_display::PETA;
use size_display::TERA;

#[test]
fn small_count_is_plain_decimal() {
    assert_eq!("24", Size(24).render());
}

#[test]
fn zero_is_plain_zero() {
    assert_eq!("0", Size(0).render());
}

#[test]
fn just_under_kilo_stays_in_bytes() {
    assert_eq!("1023", Size(1023).render());
}

#[test]
fn one_kilo_has_no_fraction() {
    assert_eq!("1K", Size(1024).render());
}

#[test]
fn inexact_giga_shows_one_fraction_digit() {
    assert_eq!("4.2G", Size(4509715660).render());
}

#[test]
fn one_exa_exactly() {
    assert_eq!("1E", Size(1152921504606846976).render());
}

#[test]
fn exact_multiples_of_each_unit() {
    assert_eq!("5K", Size(5 * KILO).render());
    assert_eq!("1023K", Size(1023 * KILO).render());
    assert_eq!("3M", Size(3 * MEGA).render());
    assert_eq!("7G", Size(7 * GIGA).render());
    assert_eq!("2T", Size(2 * TERA).render());
    assert_eq!("9P", Size(9 * PETA).render());
    assert_eq!("15E", Size(15 * EXA).render());
}

#[test]
fn fraction_rounds_to_nearest_tenth() {
    assert_eq!("1.0K", Size(1025).render());
    assert_eq!("1.5K", Size(1536).render());
    assert_eq!("2.0K", Size(2047).render());
}

#[test]
fn fraction_half_rounds_up() {
    assert_eq!("1.3K", Size(1280).render());
}

#[test]
fn just_under_a_threshold_carries_into_the_smaller_unit() {
    assert_eq!("1024.0K", Size(MEGA - 1).render());
}

#[test]
fn largest_count_renders_under_exa() {
    assert_eq!("16.0E", Size(u64::MAX).render());
}

#[test]
fn rendering_is_deterministic() {
    let a = Size(4509715660).render();
    let b = Size(4509715660).render();
    assert_eq!(a, b);
    assert_eq!(a.as_bytes(), b.as_bytes());
}
