use mandelbrot::escape::{EscapeOutcome, EscapeProbe, ITER_MAX};

#[test]
fn escape_at_iteration_zero() {
    // A point already outside the escape radius before the first step.
    let mut p = EscapeProbe::new();
    assert_eq!(p.outcome(), None);
    p.observe(true);
    assert_eq!(p.outcome(), Some(EscapeOutcome::Escaped(0)));
}

#[test]
fn interior_point_exhausts_the_cap() {
    // The orbit of the origin never escapes: after all 600 observations the
    // point is reported inside the set, and not one observation earlier.
    assert_eq!(ITER_MAX, 600);
    let mut p = EscapeProbe::new();
    for _ in 0..600 {
        assert_eq!(p.outcome(), None);
        p.observe(false);
    }
    assert_eq!(p.outcome(), Some(EscapeOutcome::Inside));
}

#[test]
fn reports_first_escaping_iteration() {
    let mut p = EscapeProbe::new();
    for _ in 0..5 {
        p.observe(false);
    }
    assert_eq!(p.outcome(), None);
    p.observe(true);
    assert_eq!(p.outcome(), Some(EscapeOutcome::Escaped(5)));
}

#[test]
fn last_iteration_can_still_escape() {
    let mut p = EscapeProbe::new();
    for _ in 0..599 {
        p.observe(false);
    }
    assert_eq!(p.outcome(), None);
    p.observe(true);
    assert_eq!(p.outcome(), Some(EscapeOutcome::Escaped(599)));
}
