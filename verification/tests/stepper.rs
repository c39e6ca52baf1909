use armv7m_emu::stepper::Step;

#[test]
fn once_spends_itself() {
    let mut step = Step::Once;
    assert!(step.should_step());
    assert!(!step.should_step());
    assert_eq!(step, Step::Never);
}

#[test]
fn forever_keeps_stepping() {
    let mut step = Step::Forever;
    assert!(step.should_step());
    assert!(step.should_step());
    assert_eq!(step, Step::Forever);
}

#[test]
fn toggle_flips_run_and_pause() {
    let mut step = Step::Never;
    step.toggle();
    assert_eq!(step, Step::Forever);
    step.toggle();
    assert_eq!(step, Step::Never);
    let mut once = Step::Once;
    once.toggle();
    assert_eq!(once, Step::Never);
}
