//! Identities and phases of task registrations.

use droidloom::composer::task_control::{
    TaskControlError, TaskControlRegistry, TaskRegistrationPhase, MAX_EXTERNAL_ID,
};
use droidloom::composer::{DisplayId, TaskId, TaskWindowError};
use droidloom::protocol::TaskObjectId;

#[test]
fn separate_reservations_receive_monotonic_display_and_object_ids() {
    let mut registry = TaskControlRegistry::default();
    let mail = registry.reserve("org.example.mail".to_owned()).unwrap();
    let maps = registry.reserve("org.example.maps".to_owned()).unwrap();

    assert_eq!(mail.reservation.display, DisplayId(1));
    assert_eq!(mail.object, TaskObjectId(1));
    assert_eq!(maps.reservation.display, DisplayId(2));
    assert_eq!(maps.object, TaskObjectId(2));
    assert_eq!(mail.task, None);
}

#[test]
fn cancelled_ids_are_never_reused() {
    let mut registry = TaskControlRegistry::default();
    let first = registry.reserve("org.example.first".to_owned()).unwrap();
    registry.cancel_reservation(first.object).unwrap();
    let next = registry.reserve("org.example.second".to_owned()).unwrap();

    assert_eq!(next.reservation.display, DisplayId(2));
    assert_eq!(next.object, TaskObjectId(2));
}

#[test]
fn real_task_binds_only_after_display_connects() {
    let mut registry = TaskControlRegistry::default();
    let registration = registry.reserve("org.example.app".to_owned()).unwrap();
    assert!(matches!(
        registry.bind_task(registration.object, TaskId(10), 3),
        Err(TaskControlError::InvalidPhase { .. })
    ));
    registry.mark_staged(registration.object).unwrap();
    registry.mark_connected(registration.object).unwrap();
    let spec = registry
        .bind_task(registration.object, TaskId(10), 3)
        .unwrap();
    assert_eq!(spec.task, TaskId(10));
    assert_eq!(
        registry.get(registration.object).unwrap().android_display,
        Some(3)
    );
    assert_eq!(
        registry.for_task(TaskId(10)).unwrap().object,
        registration.object
    );
}

#[test]
fn lifecycle_removal_accepts_bound_and_unbound_windows() {
    let mut registry = TaskControlRegistry::default();
    let bound = registry.reserve("org.example.bound".to_owned()).unwrap();
    registry.mark_staged(bound.object).unwrap();
    registry.mark_connected(bound.object).unwrap();
    registry.bind_task(bound.object, TaskId(10), 3).unwrap();
    registry.begin_removal(bound.object).unwrap();
    let removed = registry.finish_removal(bound.object).unwrap();
    assert_eq!(removed.phase, TaskRegistrationPhase::Removing);
    assert!(matches!(
        registry.get(bound.object),
        Err(TaskControlError::UnknownObject(_))
    ));

    let unbound = registry.reserve("org.example.unbound".to_owned()).unwrap();
    registry.mark_staged(unbound.object).unwrap();
    registry.begin_removal(unbound.object).unwrap();
    registry.finish_removal(unbound.object).unwrap();
}

#[test]
fn malformed_and_exhausted_reservations_fail_before_insertion() {
    let mut registry = TaskControlRegistry::default();
    assert_eq!(
        registry.reserve("not/a/package".to_owned()),
        Err(TaskControlError::InvalidSpec(
            TaskWindowError::InvalidPackage
        ))
    );

    let mut last = TaskControlRegistry::with_first_ids(MAX_EXTERNAL_ID, MAX_EXTERNAL_ID)
        .expect("last signed IDs are valid");
    last.reserve("org.example.last".to_owned()).unwrap();
    assert_eq!(
        last.reserve("org.example.exhausted".to_owned()),
        Err(TaskControlError::IdentifierExhausted)
    );
}

#[test]
fn a_task_identity_has_one_owner() {
    let mut registry = TaskControlRegistry::default();
    for package in ["org.example.first", "org.example.second"] {
        let object = registry.reserve(package.to_owned()).unwrap().object;
        registry.mark_staged(object).unwrap();
        registry.mark_connected(object).unwrap();
    }
    registry.bind_task(TaskObjectId(1), TaskId(10), 3).unwrap();
    assert_eq!(
        registry.bind_task(TaskObjectId(2), TaskId(10), 4),
        Err(TaskControlError::DuplicateTask(TaskId(10)))
    );
    assert_eq!(registry.for_task(TaskId(11)), Err(TaskControlError::UnknownTask(TaskId(11))));
    assert_eq!(registry.for_display(DisplayId(2)).unwrap().object, TaskObjectId(2));
    assert!(registry.cancel_reservation(TaskObjectId(2)).is_err());
}
