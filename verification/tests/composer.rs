//! One task display: validation, presentation, power and the window table.

use droidloom::composer::display::Composer;
use droidloom::composer::windows::TaskWindowSet;
use droidloom::composer::{
    ClientTarget, ComposerError, Composition, CompositionChange, DisplayId, LayerId, LayerState,
    PowerMode, PresentResult, ReservedTaskWindowSpec, TaskId, TaskWindowError, TaskWindowSpec, VsyncSample,
    MAX_TASK_WINDOWS,
};
use droidloom::transport::{
    AcceptedFrame, BufferId, BufferMetadata, Configure, Damage, FormatModifier, FrameId,
    PlaneMetadata, ReleasedFrame, TransportError,
};

/// How a transport answers the submission that a present asks for.
fn submission(composer: &Composer, display: DisplayId, frame: u64) -> Result<AcceptedFrame, TransportError> {
    let Ok(target) = composer.present_request(display) else {
        return Err(TransportError::Rejected);
    };
    if !target.has_acquire_fence {
        return Err(TransportError::MissingFence);
    }
    Ok(AcceptedFrame {
        frame_id: FrameId(frame),
        buffer: target.buffer.clone(),
        damage: target.damage.clone(),
        requires_acquire_fence: true,
    })
}

/// How a transport answers the release of a frame.
fn released(frame: FrameId, buffer: u64, has_fence: bool) -> Result<ReleasedFrame, TransportError> {
    if has_fence {
        Ok(ReleasedFrame { frame_id: frame, buffer: BufferId(buffer) })
    } else {
        Err(TransportError::MissingFence)
    }
}

fn present(composer: &mut Composer, display: DisplayId) -> Result<PresentResult, ComposerError> {
    let outcome = submission(composer, display, 1);
    composer.present_display(display, outcome)
}

const DISPLAY: DisplayId = DisplayId(1);
const FORMAT: FormatModifier = FormatModifier {
    fourcc: 875_713_112,
    modifier: 0,
};

fn composer() -> Composer {
    let mut composer = Composer::new(DISPLAY);
    composer.replace_feedback(vec![FORMAT]);
    composer.configure(Configure {
        serial: 7,
        width: 1920,
        height: 1200,
        refresh_millihz: 60_000,
    });
    composer.acknowledge_configure(7, Ok(())).unwrap();
    composer.set_power_mode(DISPLAY, PowerMode::On).unwrap();
    composer
}

fn layer(id: u64, composition: Composition) -> LayerState {
    LayerState {
        id: LayerId(id),
        requested_composition: composition,
        z: i32::try_from(id).unwrap(),
        protected_content: false,
    }
}

fn target(id: u64, has_acquire_fence: bool) -> ClientTarget {
    ClientTarget {
        buffer: BufferMetadata {
            id: BufferId(id),
            width: 1920,
            height: 1200,
            format: FORMAT,
            planes: vec![PlaneMetadata {
                index: 0,
                offset: 0,
                stride: 7680,
            }],
        },
        damage: vec![Damage {
            x: 0,
            y: 0,
            width: 1920,
            height: 1200,
        }],
        has_acquire_fence,
    }
}

#[test]
fn layers_are_corrected_to_surfaceflinger_client_composition() {
    let mut composer = composer();
    composer
        .create_layer(DISPLAY, layer(1, Composition::Device))
        .unwrap();
    let validation = composer.validate_display(DISPLAY).unwrap();
    assert_eq!(
        validation.composition_changes,
        [CompositionChange {
            layer: LayerId(1),
            composition: Composition::Client
        }]
    );
    composer.accept_display_changes(DISPLAY).unwrap();
    composer
        .set_client_target(DISPLAY, target(10, true))
        .unwrap();
    let present = self::present(&mut composer, DISPLAY).unwrap();
    assert!(present.requires_present_fence);
    assert_eq!(composer.in_flight_count(), 1);
    composer
        .release_presented_target(present.frame.frame_id, released(present.frame.frame_id, 10, true))
        .unwrap();
    assert_eq!(composer.in_flight_count(), 0);
}

#[test]
fn present_requires_accepted_changes_and_fresh_validation() {
    let mut composer = composer();
    composer
        .create_layer(DISPLAY, layer(1, Composition::Cursor))
        .unwrap();
    composer.validate_display(DISPLAY).unwrap();
    composer
        .set_client_target(DISPLAY, target(10, true))
        .unwrap();
    assert_eq!(
        present(&mut composer, DISPLAY),
        Err(ComposerError::ChangesNotAccepted)
    );
    composer.accept_display_changes(DISPLAY).unwrap();
    let first = present(&mut composer, DISPLAY).unwrap();
    composer
        .release_presented_target(first.frame.frame_id, released(first.frame.frame_id, 10, true))
        .unwrap();
    composer
        .set_client_target(DISPLAY, target(11, true))
        .unwrap();
    assert_eq!(
        present(&mut composer, DISPLAY),
        Err(ComposerError::NotValidated)
    );
}

#[test]
fn protected_content_fails_closed() {
    let mut composer = composer();
    let mut protected = layer(42, Composition::Client);
    protected.protected_content = true;
    composer.create_layer(DISPLAY, protected).unwrap();
    assert_eq!(
        composer.validate_display(DISPLAY),
        Err(ComposerError::ProtectedContent(LayerId(42)))
    );
}

#[test]
fn missing_acquire_and_release_fences_are_rejected() {
    let mut composer = composer();
    composer
        .create_layer(DISPLAY, layer(1, Composition::Client))
        .unwrap();
    composer.validate_display(DISPLAY).unwrap();
    composer.accept_display_changes(DISPLAY).unwrap();
    composer
        .set_client_target(DISPLAY, target(10, false))
        .unwrap();
    assert_eq!(
        present(&mut composer, DISPLAY),
        Err(ComposerError::Transport(TransportError::MissingFence))
    );

    composer.validate_display(DISPLAY).unwrap();
    composer
        .set_client_target(DISPLAY, target(10, true))
        .unwrap();
    let present = self::present(&mut composer, DISPLAY).unwrap();
    assert_eq!(
        composer.release_presented_target(present.frame.frame_id, released(present.frame.frame_id, 10, false)),
        Err(ComposerError::Transport(TransportError::MissingFence))
    );
}

#[test]
fn layer_mutation_invalidates_an_earlier_validation() {
    let mut composer = composer();
    composer
        .create_layer(DISPLAY, layer(1, Composition::Client))
        .unwrap();
    composer.validate_display(DISPLAY).unwrap();
    composer
        .update_layer(DISPLAY, layer(1, Composition::SolidColor))
        .unwrap();
    composer
        .set_client_target(DISPLAY, target(10, true))
        .unwrap();
    assert_eq!(
        present(&mut composer, DISPLAY),
        Err(ComposerError::NotValidated)
    );
}

#[test]
fn power_and_vsync_follow_host_presentation_timing() {
    let mut composer = composer();
    composer.set_vsync_enabled(DISPLAY, true).unwrap();
    assert_eq!(
        composer.presentation_sample(1_000_000_000).unwrap(),
        Some(VsyncSample {
            display: DISPLAY,
            timestamp_nanos: 1_000_000_000,
            period_nanos: 16_666_666,
        })
    );
    assert_eq!(composer.presentation_sample(1_000_000_000).unwrap(), None);
    assert_eq!(
        composer.presentation_sample(999_999_999),
        Err(ComposerError::NonMonotonicPresentation {
            previous: 1_000_000_000,
            actual: 999_999_999,
        })
    );
    composer.set_power_mode(DISPLAY, PowerMode::Off).unwrap();
    assert_eq!(composer.presentation_sample(2_000_000_000).unwrap(), None);
    assert_eq!(
        composer.set_vsync_enabled(DISPLAY, true),
        Err(ComposerError::DisplayOff)
    );
}

#[test]
fn doze_fails_until_denial_owns_the_bridge() {
    let mut composer = composer();
    assert_eq!(
        composer.set_power_mode(DISPLAY, PowerMode::Doze),
        Err(ComposerError::UnsupportedPowerMode(PowerMode::Doze))
    );
}

#[test]
fn separate_tasks_own_separate_native_display_windows() {
    let mut windows = TaskWindowSet::default();
    windows
        .create(TaskWindowSpec {
            task: TaskId(10),
            display: DisplayId(100),
            package: "org.example.mail".into(),
        })
        .unwrap();
    windows
        .create(TaskWindowSpec {
            task: TaskId(11),
            display: DisplayId(101),
            package: "org.example.maps".into(),
        })
        .unwrap();
    assert_eq!(windows.len(), 2);
    assert_eq!(windows.get(TaskId(10)).unwrap().display, DisplayId(100));
    assert_eq!(windows.get(TaskId(11)).unwrap().display, DisplayId(101));
    assert_eq!(
        windows.task_for_display(DisplayId(100)).unwrap(),
        TaskId(10)
    );
    assert_eq!(
        windows
            .specs()
            .iter()
            .map(|spec| (spec.task, spec.display))
            .collect::<Vec<_>>(),
        [(TaskId(10), DisplayId(100)), (TaskId(11), DisplayId(101))]
    );
    assert_eq!(
        windows.create(TaskWindowSpec {
            task: TaskId(12),
            display: DisplayId(101),
            package: "org.example.music".into(),
        }),
        Err(TaskWindowError::DuplicateDisplay(DisplayId(101)))
    );
    assert!(matches!(
        windows.composer_for_display_mut(DisplayId(999)),
        Err(TaskWindowError::UnknownDisplay(DisplayId(999)))
    ));
}

#[test]
fn task_window_cannot_close_while_denial_owns_its_buffer() {
    let mut windows = TaskWindowSet::default();
    windows
        .create(TaskWindowSpec {
            task: TaskId(10),
            display: DISPLAY,
            package: "org.example.app".into(),
        })
        .unwrap();
    let composer = windows.composer_mut(TaskId(10)).unwrap();
    composer.replace_feedback(vec![FORMAT]);
    composer.configure(Configure {
        serial: 7,
        width: 1920,
        height: 1200,
        refresh_millihz: 60_000,
    });
    composer.acknowledge_configure(7, Ok(())).unwrap();
    composer.set_power_mode(DISPLAY, PowerMode::On).unwrap();
    composer
        .create_layer(DISPLAY, layer(1, Composition::Client))
        .unwrap();
    composer.validate_display(DISPLAY).unwrap();
    composer.accept_display_changes(DISPLAY).unwrap();
    composer
        .set_client_target(DISPLAY, target(10, true))
        .unwrap();
    let frame = present(composer, DISPLAY).unwrap().frame.frame_id;

    assert_eq!(
        windows.remove(TaskId(10)),
        Err(TaskWindowError::BuffersInFlight {
            task: TaskId(10),
            buffers: 1
        })
    );
    windows
        .composer_mut(TaskId(10))
        .unwrap()
        .release_presented_target(frame, released(frame, 10, true))
        .unwrap();
    assert_eq!(
        windows.remove(TaskId(10)).unwrap().package,
        "org.example.app"
    );
    assert!(windows.is_empty());
}

#[test]
fn malformed_task_identity_is_rejected() {
    let mut windows = TaskWindowSet::default();
    assert_eq!(
        windows.create(TaskWindowSpec {
            task: TaskId(0),
            display: DisplayId(1),
            package: "org.example.app".into(),
        }),
        Err(TaskWindowError::InvalidTask)
    );
    assert_eq!(
        windows.create(TaskWindowSpec {
            task: TaskId(1),
            display: DisplayId(0),
            package: "org.example.app".into(),
        }),
        Err(TaskWindowError::InvalidDisplay)
    );
    assert_eq!(
        windows.create(TaskWindowSpec {
            task: TaskId(1),
            display: DisplayId(1),
            package: "../host".into(),
        }),
        Err(TaskWindowError::InvalidPackage)
    );
}

#[test]
fn task_window_table_is_bounded() {
    let mut windows = TaskWindowSet::default();
    for id in 0..MAX_TASK_WINDOWS {
        let id = u64::try_from(id).unwrap() + 1;
        windows
            .create(TaskWindowSpec {
                task: TaskId(id),
                display: DisplayId(id),
                package: "org.example.app".into(),
            })
            .unwrap();
    }
    assert_eq!(
        windows.create(TaskWindowSpec {
            task: TaskId(u64::try_from(MAX_TASK_WINDOWS).unwrap()),
            display: DisplayId(u64::try_from(MAX_TASK_WINDOWS).unwrap()),
            package: "org.example.overflow".into(),
        }),
        Err(TaskWindowError::WindowLimit)
    );
}

#[test]
fn layers_are_identified_once() {
    let mut composer = composer();
    composer.create_layer(DISPLAY, layer(1, Composition::Client)).unwrap();
    assert_eq!(
        composer.create_layer(DISPLAY, layer(1, Composition::Client)),
        Err(ComposerError::DuplicateLayer(LayerId(1)))
    );
    assert_eq!(
        composer.update_layer(DISPLAY, layer(2, Composition::Client)),
        Err(ComposerError::UnknownLayer(LayerId(2)))
    );
    assert_eq!(
        composer.create_layer(DisplayId(2), layer(3, Composition::Client)),
        Err(ComposerError::UnknownDisplay { expected: DISPLAY, actual: DisplayId(2) })
    );
    composer.destroy_layer(DISPLAY, LayerId(1)).unwrap();
    assert_eq!(
        composer.destroy_layer(DISPLAY, LayerId(1)),
        Err(ComposerError::UnknownLayer(LayerId(1)))
    );
}

#[test]
fn accepted_changes_are_not_asked_for_again() {
    let mut composer = composer();
    composer.create_layer(DISPLAY, layer(1, Composition::Device)).unwrap();
    composer.create_layer(DISPLAY, layer(2, Composition::Client)).unwrap();
    assert_eq!(composer.validate_display(DISPLAY).unwrap().composition_changes.len(), 1);
    composer.accept_display_changes(DISPLAY).unwrap();
    assert!(composer.validate_display(DISPLAY).unwrap().composition_changes.is_empty());
    assert_eq!(
        present(&mut composer, DISPLAY),
        Err(ComposerError::MissingClientTarget)
    );
}

#[test]
fn cancelled_submissions_leave_nothing_in_flight() {
    let mut composer = composer();
    let frame = AcceptedFrame {
        frame_id: FrameId(3),
        buffer: target(10, true).buffer,
        damage: Vec::new(),
        requires_acquire_fence: true,
    };
    composer.submit_rendered_target(DISPLAY, Ok(frame)).unwrap();
    assert_eq!(composer.in_flight_buffer(FrameId(3)), Some(BufferId(10)));
    composer.cancel_unsubmitted_target(FrameId(3), Ok(BufferId(10))).unwrap();
    assert_eq!(composer.in_flight_buffer(FrameId(3)), None);
    composer.set_power_mode(DISPLAY, PowerMode::Off).unwrap();
    assert_eq!(composer.submit_request(DISPLAY), Err(ComposerError::DisplayOff));
}

#[test]
fn vsync_needs_a_refresh_rate() {
    let mut composer = Composer::new(DISPLAY);
    composer.set_power_mode(DISPLAY, PowerMode::On).unwrap();
    composer.set_vsync_enabled(DISPLAY, true).unwrap();
    assert_eq!(composer.presentation_sample(1), Err(ComposerError::MissingRefreshRate));
}

#[test]
fn staged_windows_are_bound_once_and_removed() {
    let mut windows = TaskWindowSet::default();
    let reservation = ReservedTaskWindowSpec {
        display: DisplayId(5),
        package: "org.example.app".into(),
    };
    windows.reserve(reservation.clone()).unwrap();
    assert_eq!(
        windows.task_for_display(DisplayId(5)),
        Err(TaskWindowError::UnboundDisplay(DisplayId(5)))
    );
    windows.bind_task(DisplayId(5), TaskId(8)).unwrap();
    assert_eq!(windows.task_for_display(DisplayId(5)), Ok(TaskId(8)));
    assert!(windows.bind_task(DisplayId(5), TaskId(9)).is_err());
    assert_eq!(windows.remove(TaskId(9)), Err(TaskWindowError::UnknownTask(TaskId(9))));
    assert_eq!(windows.reservation_for_display(DisplayId(5)), Ok(&reservation));
    assert_eq!(windows.remove_display(DisplayId(5)).unwrap().unwrap().task, TaskId(8));
    assert!(windows.get(TaskId(8)).is_err());
    assert!(windows.is_empty());
}
