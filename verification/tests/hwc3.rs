//! Display command batches.

use droidloom::composer::hwc3::{
    CommandResult, DisplayCommand, ErrorCode, LayerPatch, Session,
};
use droidloom::composer::{Composition, DisplayId, LayerId, PowerMode, TaskId, TaskWindowSpec};
use droidloom::transport::{Configure, FormatModifier, FrameId};

const FORMAT: FormatModifier = FormatModifier {
    fourcc: 875_713_112,
    modifier: 0,
};

fn session() -> Session {
    let mut session = Session::default();
    for (task, display, package) in [
        (TaskId(10), DisplayId(100), "org.example.mail"),
        (TaskId(11), DisplayId(101), "org.example.maps"),
    ] {
        session
            .create_task_window(TaskWindowSpec {
                task,
                display,
                package: package.into(),
            })
            .unwrap();
        let composer = session
            .windows_mut()
            .composer_for_display_mut(display)
            .unwrap();
        composer.replace_feedback(vec![FORMAT]);
        composer.configure(Configure {
            serial: 7,
            width: 800,
            height: 600,
            refresh_millihz: 60_000,
        });
        composer.acknowledge_configure(7, Ok(())).unwrap();
        composer.set_power_mode(display, PowerMode::On).unwrap();
    }
    session
}

fn empty_command(display: DisplayId) -> DisplayCommand {
    DisplayCommand {
        display,
        layers: Vec::new(),
        client_target: None,
        validate_display: false,
        accept_display_changes: false,
        present_display: false,
        present_or_validate_display: false,
    }
}

#[test]
fn command_batches_keep_task_displays_independent() {
    let mut session = session();
    let mail = session.create_layer(DisplayId(100), 3).unwrap();
    let maps = session.create_layer(DisplayId(101), 3).unwrap();
    let mut mail_command = empty_command(DisplayId(100));
    mail_command.layers.push(LayerPatch {
        layer: mail,
        composition: Some(Composition::Device),
        z: Some(4),
        protected_content: None,
        has_sideband_stream: false,
    });
    mail_command.validate_display = true;
    let mut maps_command = empty_command(DisplayId(101));
    maps_command.layers.push(LayerPatch {
        layer: maps,
        composition: Some(Composition::Cursor),
        z: Some(9),
        protected_content: None,
        has_sideband_stream: false,
    });
    maps_command.validate_display = true;

    let results = session.execute_commands(vec![mail_command, maps_command]);
    assert_eq!(results.len(), 2);
    assert!(matches!(
        &results[0],
        CommandResult::ChangedCompositionTypes {
            display: DisplayId(100),
            layers,
        } if layers[0].layer == mail && layers[0].composition == Composition::Client
    ));
    assert!(matches!(
        &results[1],
        CommandResult::ChangedCompositionTypes {
            display: DisplayId(101),
            layers,
        } if layers[0].layer == maps && layers[0].composition == Composition::Client
    ));
}

#[test]
fn direct_surfaceflinger_present_needs_no_composer_target() {
    let mut session = session();
    session.create_layer(DisplayId(100), 3).unwrap();
    let mut command = empty_command(DisplayId(100));
    command.validate_display = true;
    command.accept_display_changes = true;
    command.present_display = true;
    let results = session.execute_commands(vec![command]);
    let Some(CommandResult::PresentDirect { display }) = results
        .iter()
        .find(|result| matches!(result, CommandResult::PresentDirect { .. }))
    else {
        panic!("expected present result");
    };
    assert_eq!(*display, DisplayId(100));
    assert_eq!(
        session
            .windows()
            .composer_for_display(DisplayId(100))
            .unwrap()
            .in_flight_count(),
        0
    );
}

#[test]
fn bad_display_and_unsupported_sideband_are_indexed_errors() {
    let mut session = session();
    let layer = session.create_layer(DisplayId(100), 3).unwrap();
    let unknown = empty_command(DisplayId(999));
    let mut sideband = empty_command(DisplayId(100));
    sideband.layers.push(LayerPatch {
        layer,
        composition: Some(Composition::Sideband),
        z: None,
        protected_content: None,
        has_sideband_stream: true,
    });
    assert_eq!(
        session.execute_commands(vec![unknown, sideband]),
        [
            CommandResult::Error {
                command_index: 0,
                code: ErrorCode::BadDisplay,
            },
            CommandResult::Error {
                command_index: 1,
                code: ErrorCode::Unsupported,
            }
        ]
    );
}

#[test]
fn error_codes_are_those_of_the_interface() {
    assert_eq!(ErrorCode::BadConfig.code(), 1);
    assert_eq!(ErrorCode::BadDisplay.code(), 2);
    assert_eq!(ErrorCode::BadLayer.code(), 3);
    assert_eq!(ErrorCode::Unsupported.code(), 8);
}

#[test]
fn a_failed_command_leaves_its_display_for_the_next_one() {
    let mut session = session();
    let mut broken = empty_command(DisplayId(100));
    broken.present_display = true;
    let mut valid = empty_command(DisplayId(101));
    valid.validate_display = true;
    valid.accept_display_changes = true;
    valid.present_display = true;
    let results = session.execute_commands(vec![broken, valid]);
    assert!(matches!(results[0], CommandResult::Error { command_index: 0, .. }));
    assert!(results
        .iter()
        .any(|result| matches!(result, CommandResult::PresentDirect { display: DisplayId(101) })));
}

#[test]
fn layers_and_frames_of_unknown_displays_are_refused() {
    let mut session = session();
    assert_eq!(session.create_layer(DisplayId(9), 3), Err(ErrorCode::BadDisplay));
    assert_eq!(
        session.destroy_layer(DisplayId(100), LayerId(77)),
        Err(ErrorCode::BadLayer)
    );
    assert_eq!(
        session.set_power_mode(DisplayId(100), PowerMode::Doze),
        Err(ErrorCode::Unsupported)
    );
    assert_eq!(
        session.release_presented_target(
            DisplayId(9),
            FrameId(1),
            Err(droidloom::transport::TransportError::MissingFence)
        ),
        Err(ErrorCode::BadDisplay)
    );
}
