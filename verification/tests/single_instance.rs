use std::cell::RefCell;

use klipo::single_instance::{run_primary_setup, PickerActivation};

#[test]
fn pre_ready_activation_waits_for_primary_setup_to_flush_it() {
    let mut picker_activation = PickerActivation::default();
    let stages = RefCell::new(Vec::new());

    assert!(picker_activation
        .activate_existing_instance(|| {
            stages.borrow_mut().push("unexpected-picker");
            Ok::<_, ()>(())
        })
        .is_ok());
    assert!(stages.borrow().is_empty());

    let result = run_primary_setup(
        &mut picker_activation,
        || {
            stages.borrow_mut().push("resources");
            Ok::<_, ()>(())
        },
        || {
            stages.borrow_mut().push("picker");
            Ok::<_, ()>(())
        },
        |_| {},
    );

    assert!(result.is_ok());
    assert_eq!(stages.into_inner(), ["resources", "picker"]);
}

#[test]
fn a_failed_later_activation_stays_pending() {
    let mut picker_activation = PickerActivation::default();

    assert!(picker_activation
        .activate_existing_instance(|| -> Result<(), ()> {
            panic!("pre-ready activation must not show the picker")
        })
        .is_ok());
    assert!(picker_activation.flush(|| Ok::<_, ()>(())).is_ok());
    assert!(picker_activation
        .activate_existing_instance(|| Err::<(), _>(()))
        .is_err());

    assert_eq!(picker_activation.requested_generation(), 2);
    assert_eq!(picker_activation.delivered_generation(), 1);
}

#[test]
fn a_flush_with_nothing_pending_shows_nothing() {
    let mut picker_activation = PickerActivation::default();
    let mut shown = 0;

    assert!(picker_activation
        .flush(|| {
            shown += 1;
            Ok::<_, ()>(())
        })
        .is_ok());
    assert_eq!(shown, 0);

    assert!(picker_activation
        .activate_existing_instance(|| {
            shown += 1;
            Ok::<_, ()>(())
        })
        .is_ok());
    assert_eq!(shown, 1);
    assert_eq!(
        picker_activation.requested_generation(),
        picker_activation.delivered_generation()
    );
}

#[test]
fn a_failed_setup_shows_nothing_and_reports_the_error() {
    let mut picker_activation = PickerActivation::default();
    assert!(picker_activation
        .activate_existing_instance(|| Ok::<_, ()>(()))
        .is_ok());
    let mut shown = false;

    let result = run_primary_setup(
        &mut picker_activation,
        || Err::<(), _>("database unavailable"),
        || {
            shown = true;
            Ok::<_, ()>(())
        },
        |_| {},
    );

    assert_eq!(result, Err("database unavailable"));
    assert!(!shown);
    assert_eq!(picker_activation.delivered_generation(), 0);
}

#[test]
fn a_failed_flush_is_reported_without_failing_the_setup() {
    let mut picker_activation = PickerActivation::default();
    assert!(picker_activation
        .activate_existing_instance(|| Ok::<_, &str>(()))
        .is_ok());
    let reported = RefCell::new(Vec::new());

    let result = run_primary_setup(
        &mut picker_activation,
        || Ok::<_, ()>(5),
        || Err::<(), _>("window missing"),
        |error| reported.borrow_mut().push(*error),
    );

    assert_eq!(result, Ok(5));
    assert_eq!(reported.into_inner(), ["window missing"]);
    assert_eq!(picker_activation.delivered_generation(), 0);
    assert_eq!(picker_activation.requested_generation(), 1);
}
