//! Bounded, Binder-independent execution of Composer3 command batches.
//!
//! The Android service converts its generated types into these owned values.
//! This module enforces command bounds, display isolation, ordering and stable
//! Composer3 service-specific error codes.

use vstd::prelude::*;

use super::display::{Composer, ComposerModel};
use super::windows::{law_displays_are_isolated, TaskWindowSet, WindowsModel};
use super::{
    ClientTarget, ComposerError, Composition, CompositionChange, DisplayId, LayerId, LayerState,
    PowerMode, TaskWindowError, TaskWindowSpec,
};
use crate::transport::{AcceptedFrame, FormatModifier, FrameId, ReleasedFrame, TransportError};

verus! {

/// Maximum display commands accepted in one Binder transaction.
pub const MAX_DISPLAY_COMMANDS: usize = 4096;

/// Maximum layer patches accepted for one display command.
pub const MAX_LAYER_COMMANDS: usize = 4096;

/// Maximum client-target damage rectangles accepted per display command.
pub const MAX_DAMAGE_RECTS: usize = 256;

/// Maximum buffer slots accepted when Surface Flinger creates a layer.
pub const MAX_BUFFER_SLOTS: u32 = 4096;

/// Format type used when a session is configured from DMA-BUF feedback.
pub type AdvertisedFormat = FormatModifier;

/// Composer3 service-specific exception values frozen by `IComposerClient` V5.
#[derive(Clone, Copy, Debug, PartialEq, Eq, Structural)]
pub enum ErrorCode {
    /// Display configuration is unknown.
    BadConfig,
    /// Display identity is unknown.
    BadDisplay,
    /// Layer identity is unknown or already used.
    BadLayer,
    /// Payload shape, fence, or command combination is invalid.
    BadParameter,
    /// Buffer or object resources are temporarily exhausted.
    NoResources,
    /// Present was requested without a current accepted validation.
    NotValidated,
    /// The requested operation has no correct initial implementation.
    Unsupported,
}

impl ErrorCode {
    /// Frozen number of this error.
    pub open spec fn number(self) -> i32 {
        match self {
            ErrorCode::BadConfig => 1,
            ErrorCode::BadDisplay => 2,
            ErrorCode::BadLayer => 3,
            ErrorCode::BadParameter => 4,
            ErrorCode::NoResources => 6,
            ErrorCode::NotValidated => 7,
            ErrorCode::Unsupported => 8,
        }
    }

    /// Frozen number that the Binder service returns for this error.
    pub fn code(self) -> (code: i32)
        ensures
            code == self.number(),
    {
        match self {
            ErrorCode::BadConfig => 1,
            ErrorCode::BadDisplay => 2,
            ErrorCode::BadLayer => 3,
            ErrorCode::BadParameter => 4,
            ErrorCode::NoResources => 6,
            ErrorCode::NotValidated => 7,
            ErrorCode::Unsupported => 8,
        }
    }
}

/// AIDL `LayerCommand` fields consumed by the all-client composition path.
#[derive(Clone, Debug, PartialEq, Eq)]
pub struct LayerPatch {
    /// Existing Surface Flinger layer.
    pub layer: LayerId,
    /// Optional requested composition type.
    pub composition: Option<Composition>,
    /// Optional Z order.
    pub z: Option<i32>,
    /// Whether the imported buffer is protected.
    pub protected_content: Option<bool>,
    /// True when AIDL carried a sideband native handle, which v1 rejects.
    pub has_sideband_stream: bool,
}

/// Owned, platform-neutral subset of one frozen AIDL `DisplayCommand`.
#[derive(Clone, Debug, PartialEq, Eq)]
pub struct DisplayCommand {
    /// Per-task display addressed by this command.
    pub display: DisplayId,
    /// Ordered layer state patches.
    pub layers: Vec<LayerPatch>,
    /// Optional Surface Flinger client target after native-handle import.
    pub client_target: Option<ClientTarget>,
    /// Request `validateDisplay` after applying state.
    pub validate_display: bool,
    /// Request `acceptDisplayChanges` after validation.
    pub accept_display_changes: bool,
    /// Request `presentDisplay` after preceding operations.
    pub present_display: bool,
    /// Request the combined HWC3 present-or-validate operation.
    pub present_or_validate_display: bool,
}

/// Contents of a [`DisplayCommand`].
#[verifier::ext_equal]
pub struct CommandView {
    pub display: DisplayId,
    pub layers: Seq<LayerPatch>,
    pub client_target: Option<ClientTarget>,
    pub validate_display: bool,
    pub accept_display_changes: bool,
    pub present_display: bool,
    pub present_or_validate_display: bool,
}

impl View for DisplayCommand {
    type V = CommandView;

    open spec fn view(&self) -> CommandView {
        CommandView {
            display: self.display,
            layers: self.layers@,
            client_target: self.client_target,
            validate_display: self.validate_display,
            accept_display_changes: self.accept_display_changes,
            present_display: self.present_display,
            present_or_validate_display: self.present_or_validate_display,
        }
    }
}

/// Result discriminator for HWC3 `presentOrValidateDisplay`.
#[derive(Clone, Copy, Debug, PartialEq, Eq, Structural)]
pub enum PresentOrValidateResult {
    /// The current frame was presented.
    Presented,
    /// The current state was validated and may require acceptance.
    Validated,
}

/// Platform-neutral payload converted to AIDL `CommandResultPayload`.
#[derive(Clone, Debug, PartialEq, Eq)]
pub enum CommandResult {
    /// Per-command error; later display commands remain independently usable.
    Error {
        /// Zero-based index in the input transaction.
        command_index: u32,
        /// Frozen service-specific error.
        code: ErrorCode,
    },
    /// Composition corrections returned by validation.
    ChangedCompositionTypes {
        /// Display whose layers changed.
        display: DisplayId,
        /// All required CLIENT corrections.
        layers: Vec<CompositionChange>,
    },
    /// Client target accepted by the Denial transport.
    Present {
        /// Presented task display.
        display: DisplayId,
        /// Frame forwarded to the Denial-native wire adapter.
        frame: AcceptedFrame,
        /// True when the Binder adapter must return a present fence.
        requires_present_fence: bool,
    },
    /// `SurfaceFlinger`'s direct host target was already submitted by the
    /// render-surface bridge, so HWC has no second present operation or fence.
    PresentDirect {
        /// Presented built-in display.
        display: DisplayId,
    },
    /// Outcome of the combined HWC3 operation.
    PresentOrValidate {
        /// Display receiving the operation.
        display: DisplayId,
        /// Whether the command presented or validated.
        result: PresentOrValidateResult,
    },
}

/// Contents of a [`CommandResult`].
#[verifier::ext_equal]
pub enum ResultView {
    Error { command_index: u32, code: ErrorCode },
    ChangedCompositionTypes { display: DisplayId, layers: Seq<CompositionChange> },
    Present { display: DisplayId, frame: AcceptedFrame, requires_present_fence: bool },
    PresentDirect { display: DisplayId },
    PresentOrValidate { display: DisplayId, result: PresentOrValidateResult },
}

impl View for CommandResult {
    type V = ResultView;

    open spec fn view(&self) -> ResultView {
        match *self {
            CommandResult::Error { command_index, code } => ResultView::Error {
                command_index,
                code,
            },
            CommandResult::ChangedCompositionTypes {
                display,
                layers,
            } => ResultView::ChangedCompositionTypes { display, layers: layers@ },
            CommandResult::Present {
                display,
                frame,
                requires_present_fence,
            } => ResultView::Present { display, frame, requires_present_fence },
            CommandResult::PresentDirect { display } => ResultView::PresentDirect { display },
            CommandResult::PresentOrValidate {
                display,
                result,
            } => ResultView::PresentOrValidate { display, result },
        }
    }
}

/// Contents of a list of results.
pub open spec fn views(results: Seq<CommandResult>) -> Seq<ResultView> {
    results.map_values(|result: CommandResult| result@)
}

/// Composer3 error for a task-window error.
pub open spec fn task_code(error: TaskWindowError) -> ErrorCode {
    match error {
        TaskWindowError::UnknownDisplay(_) => ErrorCode::BadDisplay,
        TaskWindowError::UnknownTask(_) => ErrorCode::BadDisplay,
        TaskWindowError::WindowLimit => ErrorCode::NoResources,
        TaskWindowError::BuffersInFlight { .. } => ErrorCode::NoResources,
        TaskWindowError::DisplayBuffersInFlight { .. } => ErrorCode::NoResources,
        _ => ErrorCode::BadParameter,
    }
}

/// Composer3 error for a Composer error.
pub open spec fn composer_code(error: ComposerError) -> ErrorCode {
    match error {
        ComposerError::UnknownDisplay { .. } => ErrorCode::BadDisplay,
        ComposerError::DuplicateLayer(_) => ErrorCode::BadLayer,
        ComposerError::UnknownLayer(_) => ErrorCode::BadLayer,
        ComposerError::NotValidated => ErrorCode::NotValidated,
        ComposerError::ChangesNotAccepted => ErrorCode::NotValidated,
        ComposerError::UnsupportedPowerMode(_) => ErrorCode::Unsupported,
        ComposerError::ProtectedContent(_) => ErrorCode::Unsupported,
        ComposerError::Transport(TransportError::BufferInFlight(_)) => ErrorCode::NoResources,
        ComposerError::Transport(TransportError::FrameIdExhausted) => ErrorCode::NoResources,
        _ => ErrorCode::BadParameter,
    }
}

/// Layer state after a patch: absent fields stay.
pub open spec fn patched(state: LayerState, patch: LayerPatch) -> LayerState {
    LayerState {
        id: state.id,
        requested_composition: match patch.composition {
            Some(composition) => composition,
            None => state.requested_composition,
        },
        z: match patch.z {
            Some(z) => z,
            None => state.z,
        },
        protected_content: match patch.protected_content {
            Some(protected) => protected,
            None => state.protected_content,
        },
    }
}

/// What a command, or the part of it that ran, has done to one display.
#[verifier::ext_equal]
pub struct CommandOutcome {
    /// State of the display.
    pub composer: ComposerModel,
    /// Results added to the transaction.
    pub results: Seq<ResultView>,
    /// Reason for which the command stopped.
    pub error: Option<ErrorCode>,
}

/// Corrections as results: none where there is nothing to correct.
pub open spec fn change_results(display: DisplayId, layers: Seq<CompositionChange>) -> Seq<
    ResultView,
> {
    if layers.len() == 0 {
        Seq::empty()
    } else {
        seq![ResultView::ChangedCompositionTypes { display, layers }]
    }
}

impl CommandOutcome {
    /// Nothing done yet.
    pub open spec fn start(composer: ComposerModel) -> CommandOutcome {
        CommandOutcome { composer, results: Seq::empty(), error: None }
    }

    /// The command stops here.
    pub open spec fn stopped(self, code: ErrorCode) -> CommandOutcome {
        CommandOutcome { error: Some(code), ..self }
    }

    /// Apply one layer patch.
    pub open spec fn patch(self, display: DisplayId, patch: LayerPatch) -> CommandOutcome {
        if self.error is Some {
            self
        } else if patch.has_sideband_stream {
            self.stopped(ErrorCode::Unsupported)
        } else {
            match self.composer.layer_error(display, patch.layer) {
                Some(error) => self.stopped(composer_code(error)),
                None => CommandOutcome {
                    composer: self.composer.updated(
                        patched(self.composer.layers[patch.layer.0], patch),
                    ),
                    ..self
                },
            }
        }
    }

    /// Apply layer patches in order.
    pub open spec fn patches(self, display: DisplayId, patches: Seq<LayerPatch>) -> CommandOutcome
        decreases patches.len(),
    {
        if patches.len() == 0 {
            self
        } else {
            self.patches(display, patches.drop_last()).patch(display, patches.last())
        }
    }

    /// Supply a client target.
    pub open spec fn target(self, target: Option<ClientTarget>) -> CommandOutcome {
        if self.error is Some || target is None {
            self
        } else {
            CommandOutcome {
                composer: ComposerModel { client_target: target, ..self.composer },
                ..self
            }
        }
    }

    /// Validate the display where it is wanted.
    pub open spec fn validate(self, display: DisplayId, wanted: bool) -> CommandOutcome {
        if self.error is Some || !wanted {
            self
        } else {
            match self.composer.validate_error(display) {
                Some(error) => self.stopped(composer_code(error)),
                None => CommandOutcome {
                    composer: self.composer.validated(),
                    results: self.results + change_results(display, self.composer.changes()),
                    error: None,
                },
            }
        }
    }

    /// Accept the changes where it is wanted.
    pub open spec fn accept(self, display: DisplayId, wanted: bool) -> CommandOutcome {
        if self.error is Some || !wanted {
            self
        } else {
            match self.composer.accept_error(display) {
                Some(error) => self.stopped(composer_code(error)),
                None => CommandOutcome { composer: self.composer.accepted(), ..self },
            }
        }
    }

    /// Complete a direct present where it is wanted.
    pub open spec fn present(self, display: DisplayId, wanted: bool) -> CommandOutcome {
        if self.error is Some || !wanted {
            self
        } else {
            match self.composer.direct_error(display) {
                Some(error) => self.stopped(composer_code(error)),
                None => CommandOutcome {
                    composer: self.composer.presented_direct(),
                    results: self.results.push(ResultView::PresentDirect { display }),
                    error: None,
                },
            }
        }
    }

    /// Present, or validate where there is no current validation.
    pub open spec fn present_or_validate(self, display: DisplayId) -> CommandOutcome {
        if self.error is Some {
            self
        } else {
            let (next, result) = if self.composer.direct_error(display) == Some(
                ComposerError::NotValidated,
            ) {
                (self.validate(display, true), PresentOrValidateResult::Validated)
            } else {
                (self.present(display, true), PresentOrValidateResult::Presented)
            };
            if next.error is Some {
                next
            } else {
                CommandOutcome {
                    results: next.results.push(ResultView::PresentOrValidate { display, result }),
                    ..next
                }
            }
        }
    }

    /// Run all parts of a well-shaped command in their fixed order.
    pub open spec fn run(self, command: CommandView) -> CommandOutcome {
        let display = command.display;
        let state = self.patches(display, command.layers).target(command.client_target);
        if command.present_or_validate_display {
            state.present_or_validate(display)
        } else {
            state.validate(display, command.validate_display).accept(
                display,
                command.accept_display_changes,
            ).present(display, command.present_display)
        }
    }
}

/// Whether the bounds of a command hold and its operations go together.
pub open spec fn well_shaped(command: CommandView) -> bool {
    &&& command.layers.len() <= MAX_LAYER_COMMANDS
    &&& command.client_target is Some ==> command.client_target->0.damage@.len()
        <= MAX_DAMAGE_RECTS
    &&& command.present_or_validate_display ==> !command.validate_display
        && !command.accept_display_changes && !command.present_display
}

/// Model of a [`Session`].
#[verifier::ext_equal]
pub struct SessionModel {
    pub windows: WindowsModel,
    pub next_layer: u64,
}

impl SessionModel {
    /// The invariant of every reachable session.
    pub open spec fn wf(self) -> bool {
        self.windows.wf()
    }

    /// State with the Composer of one display changed.
    pub open spec fn with_composer(self, display: DisplayId, composer: ComposerModel) -> SessionModel {
        SessionModel { windows: self.windows.with_composer(display, composer), ..self }
    }

    /// State, results and error after one command.
    pub open spec fn command(self, command: CommandView) -> (
        SessionModel,
        Seq<ResultView>,
        Option<ErrorCode>,
    ) {
        let display = command.display;
        if !well_shaped(command) {
            (self, Seq::empty(), Some(ErrorCode::BadParameter))
        } else if !self.windows.windows.contains_key(display.0) {
            (self, Seq::empty(), Some(ErrorCode::BadDisplay))
        } else {
            let outcome = CommandOutcome::start(self.windows.windows[display.0].composer).run(
                command,
            );
            (self.with_composer(display, outcome.composer), outcome.results, outcome.error)
        }
    }

    /// State and results after commands in order; the error of a command is a
    /// result that carries its index.
    pub open spec fn batch(self, commands: Seq<DisplayCommand>) -> (SessionModel, Seq<ResultView>)
        decreases commands.len(),
    {
        if commands.len() == 0 {
            (self, Seq::empty())
        } else {
            let (model, results) = self.batch(commands.drop_last());
            let (after, added, error) = model.command(commands.last()@);
            (
                after,
                results + added + (match error {
                    Some(code) => seq![
                        ResultView::Error { command_index: (commands.len() - 1) as u32, code },
                    ],
                    None => Seq::empty(),
                }),
            )
        }
    }

    /// First reason to refuse a new layer.
    pub open spec fn create_layer_error(self, display: DisplayId, buffer_slot_count: u32) -> Option<
        ErrorCode,
    > {
        if buffer_slot_count == 0 || buffer_slot_count > MAX_BUFFER_SLOTS {
            Some(ErrorCode::BadParameter)
        } else if self.next_layer == u64::MAX {
            Some(ErrorCode::NoResources)
        } else if !self.windows.windows.contains_key(display.0) {
            Some(ErrorCode::BadDisplay)
        } else if self.windows.windows[display.0].composer.layers.contains_key(
            (self.next_layer + 1) as u64,
        ) {
            Some(ErrorCode::BadLayer)
        } else {
            None
        }
    }

    /// State after a new layer.
    pub open spec fn with_new_layer(self, display: DisplayId) -> SessionModel {
        let next = (self.next_layer + 1) as u64;
        SessionModel {
            next_layer: next,
            ..self.with_composer(
                display,
                self.windows.windows[display.0].composer.with_layer(new_layer(next)),
            )
        }
    }
}

/// State of a layer that Surface Flinger has not described yet.
pub open spec fn new_layer(id: u64) -> LayerState {
    LayerState {
        id: LayerId(id),
        requested_composition: Composition::Client,
        z: 0,
        protected_content: false,
    }
}

/// Outcome of an operation on one display of a session.
pub open spec fn on_display(
    model: SessionModel,
    display: DisplayId,
    error: Option<ComposerError>,
) -> Option<ErrorCode> {
    if !model.windows.windows.contains_key(display.0) {
        Some(ErrorCode::BadDisplay)
    } else {
        match error {
            Some(error) => Some(composer_code(error)),
            None => None,
        }
    }
}

/// Outcome of an operation that fails with the first error found.
pub open spec fn code_outcome(error: Option<ErrorCode>) -> Result<(), ErrorCode> {
    match error {
        Some(code) => Err(code),
        None => Ok(()),
    }
}

/// One Composer Binder-client session over independent task displays.
#[derive(Debug)]
pub struct Session {
    windows: TaskWindowSet,
    next_layer: u64,
}

impl View for Session {
    type V = SessionModel;

    closed spec fn view(&self) -> SessionModel {
        SessionModel { windows: self.windows@, next_layer: self.next_layer }
    }
}

impl Default for Session {
    fn default() -> (session: Session)
        ensures
            session@.wf(),
            session@ == (SessionModel {
                windows: WindowsModel { windows: Map::empty(), tasks: Map::empty() },
                next_layer: 0,
            }),
    {
        Session { windows: TaskWindowSet::default(), next_layer: 0 }
    }
}

impl Session {
    /// Borrow the task-window collection for host lifecycle/configure events.
    pub fn windows(&self) -> (windows: &TaskWindowSet)
        ensures
            windows@ == self@.windows,
    {
        &self.windows
    }

    /// Mutably borrow task windows for DMA-BUF feedback and configure events.
    pub fn windows_mut(&mut self) -> (windows: &mut TaskWindowSet)
        ensures
            windows@ == old(self)@.windows,
            final(self)@ == (SessionModel { windows: final(windows)@, ..old(self)@ }),
    {
        &mut self.windows
    }

    /// Add one host-managed Android task display/native Denial window.
    pub fn create_task_window(&mut self, spec: TaskWindowSpec) -> (result: Result<
        (),
        TaskWindowError,
    >)
        requires
            old(self)@.wf(),
        ensures
            final(self)@.wf(),
            match old(self)@.windows.create_error(spec) {
                Some(error) => {
                    &&& result == Err::<(), TaskWindowError>(error)
                    &&& final(self)@ == old(self)@
                },
                None => {
                    &&& result == Ok::<(), TaskWindowError>(())
                    &&& final(self)@ == (SessionModel {
                        windows: old(self)@.windows.with_window(spec),
                        ..old(self)@
                    })
                },
            },
    {
        self.windows.create(spec)
    }

    /// Allocate a layer identity on exactly one task display.
    pub fn create_layer(&mut self, display: DisplayId, buffer_slot_count: u32) -> (result: Result<
        LayerId,
        ErrorCode,
    >)
        requires
            old(self)@.wf(),
        ensures
            final(self)@.wf(),
            match old(self)@.create_layer_error(display, buffer_slot_count) {
                Some(code) => {
                    &&& result == Err::<LayerId, ErrorCode>(code)
                    &&& final(self)@ == old(self)@
                },
                None => {
                    &&& result == Ok::<LayerId, ErrorCode>(
                        LayerId((old(self)@.next_layer + 1) as u64),
                    )
                    &&& final(self)@ == old(self)@.with_new_layer(display)
                },
            },
    {
        if buffer_slot_count == 0 || buffer_slot_count > MAX_BUFFER_SLOTS {
            return Err(ErrorCode::BadParameter);
        }
        if self.next_layer == u64::MAX {
            return Err(ErrorCode::NoResources);
        }
        let next: u64 = self.next_layer + 1;
        let layer = LayerId(next);
        proof {
            lemma_display(self@, display);
        }
        let composer = match self.windows.composer_for_display_mut(display) {
            Ok(composer) => composer,
            Err(error) => {
                return Err(map_task_error(&error));
            },
        };
        let created = composer.create_layer(
            display,
            LayerState {
                id: layer,
                requested_composition: Composition::Client,
                z: 0,
                protected_content: false,
            },
        );
        let ghost after = composer@;
        proof {
            law_displays_are_isolated(old(self)@.windows, display, after, 0);
        }
        match created {
            Ok(()) => {
                self.next_layer = next;
                Ok(layer)
            },
            Err(error) => {
                proof {
                    lemma_unchanged(old(self)@, display);
                }
                Err(map_composer_error(&error))
            },
        }
    }

    /// Destroy a layer on its owning task display.
    pub fn destroy_layer(&mut self, display: DisplayId, layer: LayerId) -> (result: Result<
        (),
        ErrorCode,
    >)
        requires
            old(self)@.wf(),
        ensures
            final(self)@.wf(),
            result == code_outcome(
                on_display(
                    old(self)@,
                    display,
                    old(self)@.windows.windows[display.0].composer.layer_error(display, layer),
                ),
            ),
            final(self)@ == (if result is Ok {
                old(self)@.with_composer(
                    display,
                    old(self)@.windows.windows[display.0].composer.without_layer(layer),
                )
            } else {
                old(self)@
            }),
    {
        proof {
            lemma_display(self@, display);
        }
        let composer = match self.windows.composer_for_display_mut(display) {
            Ok(composer) => composer,
            Err(error) => {
                return Err(map_task_error(&error));
            },
        };
        let result = composer.destroy_layer(display, layer);
        let ghost after = composer@;
        proof {
            law_displays_are_isolated(old(self)@.windows, display, after, 0);
            lemma_unchanged(old(self)@, display);
        }
        match result {
            Ok(()) => Ok(()),
            Err(error) => Err(map_composer_error(&error)),
        }
    }

    /// Apply Android display power to exactly one task window.
    pub fn set_power_mode(&mut self, display: DisplayId, mode: PowerMode) -> (result: Result<
        (),
        ErrorCode,
    >)
        requires
            old(self)@.wf(),
        ensures
            final(self)@.wf(),
            result == code_outcome(
                on_display(
                    old(self)@,
                    display,
                    old(self)@.windows.windows[display.0].composer.power_error(display, mode),
                ),
            ),
            final(self)@ == (if result is Ok {
                old(self)@.with_composer(
                    display,
                    old(self)@.windows.windows[display.0].composer.powered(mode),
                )
            } else {
                old(self)@
            }),
    {
        proof {
            lemma_display(self@, display);
        }
        let composer = match self.windows.composer_for_display_mut(display) {
            Ok(composer) => composer,
            Err(error) => {
                return Err(map_task_error(&error));
            },
        };
        let result = composer.set_power_mode(display, mode);
        let ghost after = composer@;
        proof {
            law_displays_are_isolated(old(self)@.windows, display, after, 0);
            lemma_unchanged(old(self)@, display);
        }
        match result {
            Ok(()) => Ok(()),
            Err(error) => Err(map_composer_error(&error)),
        }
    }

    /// Enable or disable callbacks for exactly one task display.
    pub fn set_vsync_enabled(&mut self, display: DisplayId, enabled: bool) -> (result: Result<
        (),
        ErrorCode,
    >)
        requires
            old(self)@.wf(),
        ensures
            final(self)@.wf(),
            result == code_outcome(
                on_display(
                    old(self)@,
                    display,
                    old(self)@.windows.windows[display.0].composer.vsync_error(display, enabled),
                ),
            ),
            final(self)@ == (if result is Ok {
                old(self)@.with_composer(
                    display,
                    ComposerModel {
                        vsync_enabled: enabled,
                        ..old(self)@.windows.windows[display.0].composer
                    },
                )
            } else {
                old(self)@
            }),
    {
        proof {
            lemma_display(self@, display);
        }
        let composer = match self.windows.composer_for_display_mut(display) {
            Ok(composer) => composer,
            Err(error) => {
                return Err(map_task_error(&error));
            },
        };
        let result = composer.set_vsync_enabled(display, enabled);
        let ghost after = composer@;
        proof {
            law_displays_are_isolated(old(self)@.windows, display, after, 0);
            lemma_unchanged(old(self)@, display);
        }
        match result {
            Ok(()) => Ok(()),
            Err(error) => Err(map_composer_error(&error)),
        }
    }

    /// Execute an ordered, bounded AIDL-normalized command transaction.
    ///
    /// Invalid commands produce indexed result payloads without mutating other
    /// task displays in the batch.
    pub fn execute_commands(&mut self, commands: Vec<DisplayCommand>) -> (results: Vec<
        CommandResult,
    >)
        requires
            old(self)@.wf(),
        ensures
            final(self)@.wf(),
            commands@.len() > MAX_DISPLAY_COMMANDS ==> {
                &&& views(results@) == seq![
                    ResultView::Error {
                        command_index: MAX_DISPLAY_COMMANDS as u32,
                        code: ErrorCode::BadParameter,
                    },
                ]
                &&& final(self)@ == old(self)@
            },
            commands@.len() <= MAX_DISPLAY_COMMANDS ==> (final(self)@, views(results@)) == old(
                self,
            )@.batch(commands@),
    {
        let mut results: Vec<CommandResult> = Vec::new();
        if commands.len() > MAX_DISPLAY_COMMANDS {
            results.push(
                CommandResult::Error {
                    command_index: MAX_DISPLAY_COMMANDS as u32,
                    code: ErrorCode::BadParameter,
                },
            );
            assert(views(results@) =~= seq![
                ResultView::Error {
                    command_index: MAX_DISPLAY_COMMANDS as u32,
                    code: ErrorCode::BadParameter,
                },
            ]);
            return results;
        }
        assert(views(results@) =~= Seq::empty());
        assert(commands@.take(0) =~= Seq::empty());
        let ghost all = commands@;
        let mut index: usize = 0;
        for command in iter: commands
            invariant
                iter.seq() == all,
                index == iter.index(),
                all.len() <= MAX_DISPLAY_COMMANDS,
                self@.wf(),
                (self@, views(results@)) == old(self)@.batch(all.take(index as int)),
        {
            let ghost before = (self@, views(results@));
            proof {
                assert(all.take(index + 1).drop_last() =~= all.take(index as int));
                assert(all.take(index + 1).last() == all[index as int]);
            }
            if let Err(code) = self.execute_one(command, &mut results) {
                let ghost partial = results@;
                results.push(CommandResult::Error { command_index: index as u32, code });
                assert(views(results@) =~= views(partial).push(
                    ResultView::Error { command_index: index as u32, code },
                ));
                assert(views(results@) =~= before.1 + before.0.command(all[index as int]@).1
                    + seq![ResultView::Error { command_index: index as u32, code }]);
            } else {
                assert(views(results@) =~= before.1 + before.0.command(all[index as int]@).1
                    + Seq::empty());
            }
            index = index + 1;
        }
        assert(all.take(index as int) =~= all);
        results
    }

    /// Release a presented client target after Denial supplied its fence and the
    /// transport answered the release.
    pub fn release_presented_target(
        &mut self,
        display: DisplayId,
        frame: FrameId,
        outcome: Result<ReleasedFrame, TransportError>,
    ) -> (result: Result<ReleasedFrame, ErrorCode>)
        requires
            old(self)@.wf(),
        ensures
            final(self)@.wf(),
            match (old(self)@.windows.windows.contains_key(display.0), outcome) {
                (false, _) => {
                    &&& result == Err::<ReleasedFrame, ErrorCode>(ErrorCode::BadDisplay)
                    &&& final(self)@ == old(self)@
                },
                (true, Err(error)) => {
                    &&& result == Err::<ReleasedFrame, ErrorCode>(
                        composer_code(ComposerError::Transport(error)),
                    )
                    &&& final(self)@ == old(self)@
                },
                (true, Ok(released)) => {
                    &&& result == Ok::<ReleasedFrame, ErrorCode>(released)
                    &&& final(self)@ == old(self)@.with_composer(
                        display,
                        old(self)@.windows.windows[display.0].composer.without_frame(frame),
                    )
                },
            },
    {
        proof {
            lemma_display(self@, display);
        }
        let composer = match self.windows.composer_for_display_mut(display) {
            Ok(composer) => composer,
            Err(error) => {
                return Err(map_task_error(&error));
            },
        };
        let result = composer.release_presented_target(frame, outcome);
        let ghost after = composer@;
        proof {
            law_displays_are_isolated(old(self)@.windows, display, after, 0);
            lemma_unchanged(old(self)@, display);
        }
        match result {
            Ok(released) => Ok(released),
            Err(error) => Err(map_composer_error(&error)),
        }
    }

    fn execute_one(&mut self, command: DisplayCommand, results: &mut Vec<CommandResult>) -> (result:
        Result<(), ErrorCode>)
        requires
            old(self)@.wf(),
        ensures
            final(self)@.wf(),
            final(self)@ == old(self)@.command(command@).0,
            views(final(results)@) == views(old(results)@) + old(self)@.command(command@).1,
            result == code_outcome(old(self)@.command(command@).2),
    {
        let damage: usize = match command.client_target.as_ref() {
            Some(target) => target.damage.len(),
            None => 0,
        };
        if command.layers.len() > MAX_LAYER_COMMANDS || damage > MAX_DAMAGE_RECTS {
            assert(views(results@) =~= views(old(results)@) + Seq::empty());
            return Err(ErrorCode::BadParameter);
        }
        if command.present_or_validate_display && (command.validate_display
            || command.accept_display_changes || command.present_display) {
            assert(views(results@) =~= views(old(results)@) + Seq::empty());
            return Err(ErrorCode::BadParameter);
        }
        proof {
            lemma_display(self@, command.display);
        }
        let composer = match self.windows.composer_for_display_mut(command.display) {
            Ok(composer) => composer,
            Err(error) => {
                assert(views(results@) =~= views(old(results)@) + Seq::empty());
                return Err(map_task_error(&error));
            },
        };
        let ghost display = command.display;
        let result = run_command(composer, command, results);
        let ghost after = composer@;
        proof {
            law_displays_are_isolated(old(self)@.windows, display, after, 0);
        }
        result
    }
}

/// Each window of a session holds a Composer of its own display.
proof fn lemma_display(model: SessionModel, display: DisplayId)
    requires
        model.wf(),
    ensures
        model.windows.windows.contains_key(display.0) ==> {
            &&& model.windows.windows[display.0].composer.wf()
            &&& model.windows.windows[display.0].composer.display == display
        },
{
    if model.windows.windows.contains_key(display.0) {
        assert(model.windows.window_wf(display.0));
    }
}

/// To put back the same Composer changes nothing.
proof fn lemma_unchanged(model: SessionModel, display: DisplayId)
    requires
        model.windows.windows.contains_key(display.0),
    ensures
        model.with_composer(display, model.windows.windows[display.0].composer) == model,
{
    let after = model.with_composer(display, model.windows.windows[display.0].composer);
    assert(after.windows.windows =~= model.windows.windows);
}

fn run_command(composer: &mut Composer, command: DisplayCommand, results: &mut Vec<
    CommandResult,
>) -> (result: Result<(), ErrorCode>)
    requires
        old(composer)@.wf(),
        old(composer)@.display == command.display,
        well_shaped(command@),
    ensures
        final(composer)@.wf(),
        final(composer)@.display == command.display,
        ({
            let outcome = CommandOutcome::start(old(composer)@).run(command@);
            &&& final(composer)@ == outcome.composer
            &&& views(final(results)@) == views(old(results)@) + outcome.results
            &&& result == code_outcome(outcome.error)
        }),
{
    let display = command.display;
    let ghost start = CommandOutcome::start(composer@);
    let ghost before = views(results@);
    apply_patches(composer, display, &command.layers)?;
    let ghost patched = start.patches(display, command.layers@);
    let ghost supplied = command.client_target;
    if let Some(target) = command.client_target {
        if let Err(error) = composer.set_client_target(display, target) {
            return Err(map_composer_error(&error));
        }
    }
    let ghost state = patched.target(supplied);
    assert(composer@ == state.composer);
    assert(views(results@) =~= before + state.results);
    if command.present_or_validate_display {
        return present_or_validate(composer, display, results, Ghost(before), Ghost(state));
    }
    if command.validate_display {
        validate(composer, display, results, Ghost(before), Ghost(state))?;
    }
    let ghost state = state.validate(display, command.validate_display);
    if command.accept_display_changes {
        if let Err(error) = composer.accept_display_changes(display) {
            return Err(map_composer_error(&error));
        }
    }
    let ghost state = state.accept(display, command.accept_display_changes);
    if command.present_display {
        present(composer, display, results, Ghost(before), Ghost(state))?;
    }
    Ok(())
}

fn apply_patches(composer: &mut Composer, display: DisplayId, patches: &Vec<LayerPatch>) -> (result:
    Result<(), ErrorCode>)
    requires
        old(composer)@.wf(),
        old(composer)@.display == display,
    ensures
        final(composer)@.wf(),
        final(composer)@.display == display,
        ({
            let start = CommandOutcome::start(old(composer)@);
            let outcome = start.patches(display, patches@);
            &&& final(composer)@ == outcome.composer
            &&& outcome.results == start.results
            &&& result == code_outcome(outcome.error)
        }),
{
    let ghost start = CommandOutcome::start(composer@);
    let mut index: usize = 0;
    assert(patches@.take(0) =~= Seq::empty());
    while index < patches.len()
        invariant
            index <= patches@.len(),
            composer@.wf(),
            composer@.display == display,
            start == CommandOutcome::start(old(composer)@),
            start.patches(display, patches@.take(index as int)) == (CommandOutcome {
                composer: composer@,
                ..start
            }),
        decreases patches@.len() - index,
    {
        let patch = &patches[index];
        proof {
            assert(patches@.take(index + 1).drop_last() =~= patches@.take(index as int));
            assert(patches@.take(index + 1).last() == patch);
        }
        let ghost outcome = start.patches(display, patches@.take(index + 1));
        let result = apply_patch(composer, display, patch);
        index = index + 1;
        if let Err(code) = result {
            proof {
                lemma_stopped_patches(start, display, patches@, index as int);
            }
            return Err(code);
        }
    }
    assert(patches@.take(index as int) =~= patches@);
    Ok(())
}

fn apply_patch(composer: &mut Composer, display: DisplayId, patch: &LayerPatch) -> (result: Result<
    (),
    ErrorCode,
>)
    requires
        old(composer)@.wf(),
        old(composer)@.display == display,
    ensures
        final(composer)@.wf(),
        final(composer)@.display == display,
        ({
            let outcome = CommandOutcome::start(old(composer)@).patch(display, *patch);
            &&& final(composer)@ == outcome.composer
            &&& result == code_outcome(outcome.error)
        }),
{
    if patch.has_sideband_stream {
        return Err(ErrorCode::Unsupported);
    }
    let mut state: LayerState = match composer.layer_state(display, patch.layer) {
        Ok(state) => state,
        Err(error) => {
            return Err(map_composer_error(&error));
        },
    };
    if let Some(composition) = patch.composition {
        state.requested_composition = composition;
    }
    if let Some(z) = patch.z {
        state.z = z;
    }
    if let Some(protected) = patch.protected_content {
        state.protected_content = protected;
    }
    assert(state == patched(composer@.layers[patch.layer.0], *patch));
    match composer.update_layer(display, state) {
        Ok(()) => Ok(()),
        Err(error) => Err(map_composer_error(&error)),
    }
}

/// Patches after one that stopped the command do nothing.
proof fn lemma_stopped_patches(
    start: CommandOutcome,
    display: DisplayId,
    patches: Seq<LayerPatch>,
    count: int,
)
    requires
        0 <= count <= patches.len(),
        start.patches(display, patches.take(count)).error is Some,
    ensures
        start.patches(display, patches) == start.patches(display, patches.take(count)),
    decreases patches.len(),
{
    if count < patches.len() {
        let rest = patches.drop_last();
        assert(rest.take(count) =~= patches.take(count));
        lemma_stopped_patches(start, display, rest, count);
    } else {
        assert(patches.take(count) =~= patches);
    }
}

proof fn lemma_views_push(results: Seq<CommandResult>, result: CommandResult)
    ensures
        views(results.push(result)) == views(results).push(result@),
{
    assert(views(results.push(result)) =~= views(results).push(result@));
}

fn validate(
    composer: &mut Composer,
    display: DisplayId,
    results: &mut Vec<CommandResult>,
    before: Ghost<Seq<ResultView>>,
    state: Ghost<CommandOutcome>,
) -> (result: Result<(), ErrorCode>)
    requires
        old(composer)@.wf(),
        state@.error is None,
        old(composer)@ == state@.composer,
        views(old(results)@) == before@ + state@.results,
    ensures
        final(composer)@.wf(),
        final(composer)@.display == old(composer)@.display,
        final(composer)@ == state@.validate(display, true).composer,
        views(final(results)@) == before@ + state@.validate(display, true).results,
        result == code_outcome(state@.validate(display, true).error),
{
    match composer.validate_display(display) {
        Ok(validation) => {
            push_changes(results, display, validation.composition_changes);
            assert(views(results@) =~= before@ + state@.validate(display, true).results);
            Ok(())
        },
        Err(error) => Err(map_composer_error(&error)),
    }
}

fn present(
    composer: &mut Composer,
    display: DisplayId,
    results: &mut Vec<CommandResult>,
    before: Ghost<Seq<ResultView>>,
    state: Ghost<CommandOutcome>,
) -> (result: Result<(), ErrorCode>)
    requires
        old(composer)@.wf(),
        state@.error is None,
        old(composer)@ == state@.composer,
        views(old(results)@) == before@ + state@.results,
    ensures
        final(composer)@.wf(),
        final(composer)@.display == old(composer)@.display,
        final(composer)@ == state@.present(display, true).composer,
        views(final(results)@) == before@ + state@.present(display, true).results,
        result == code_outcome(state@.present(display, true).error),
{
    match composer.present_display_direct(display) {
        Ok(()) => {
            proof {
                lemma_views_push(results@, CommandResult::PresentDirect { display });
            }
            results.push(CommandResult::PresentDirect { display });
            assert(views(results@) =~= before@ + state@.present(display, true).results);
            Ok(())
        },
        Err(error) => Err(map_composer_error(&error)),
    }
}

fn present_or_validate(
    composer: &mut Composer,
    display: DisplayId,
    results: &mut Vec<CommandResult>,
    before: Ghost<Seq<ResultView>>,
    state: Ghost<CommandOutcome>,
) -> (result: Result<(), ErrorCode>)
    requires
        old(composer)@.wf(),
        state@.error is None,
        old(composer)@ == state@.composer,
        views(old(results)@) == before@ + state@.results,
    ensures
        final(composer)@.wf(),
        final(composer)@.display == old(composer)@.display,
        final(composer)@ == state@.present_or_validate(display).composer,
        views(final(results)@) == before@ + state@.present_or_validate(display).results,
        result == code_outcome(state@.present_or_validate(display).error),
{
    match composer.present_display_direct(display) {
        Ok(()) => {
            proof {
                let direct = CommandResult::PresentDirect { display };
                lemma_views_push(results@, direct);
                lemma_views_push(
                    results@.push(direct),
                    CommandResult::PresentOrValidate {
                        display,
                        result: PresentOrValidateResult::Presented,
                    },
                );
            }
            results.push(CommandResult::PresentDirect { display });
            results.push(
                CommandResult::PresentOrValidate {
                    display,
                    result: PresentOrValidateResult::Presented,
                },
            );
            assert(views(results@) =~= before@ + state@.present_or_validate(display).results);
            Ok(())
        },
        Err(ComposerError::NotValidated) => {
            validate(composer, display, results, before, state)?;
            proof {
                lemma_views_push(
                    results@,
                    CommandResult::PresentOrValidate {
                        display,
                        result: PresentOrValidateResult::Validated,
                    },
                );
            }
            results.push(
                CommandResult::PresentOrValidate {
                    display,
                    result: PresentOrValidateResult::Validated,
                },
            );
            assert(views(results@) =~= before@ + state@.present_or_validate(display).results);
            Ok(())
        },
        Err(error) => Err(map_composer_error(&error)),
    }
}

fn push_changes(results: &mut Vec<CommandResult>, display: DisplayId, layers: Vec<
    CompositionChange,
>)
    ensures
        views(final(results)@) == views(old(results)@) + change_results(display, layers@),
{
    if layers.len() > 0 {
        results.push(CommandResult::ChangedCompositionTypes { display, layers });
    }
    assert(views(results@) =~= views(old(results)@) + change_results(display, layers@));
}

/// Composer3 error that the service returns for a task-window error.
pub fn map_task_error(error: &TaskWindowError) -> (code: ErrorCode)
    ensures
        code == task_code(*error),
{
    match error {
        TaskWindowError::UnknownDisplay(_) | TaskWindowError::UnknownTask(
            _,
        ) => ErrorCode::BadDisplay,
        TaskWindowError::WindowLimit
        | TaskWindowError::BuffersInFlight { .. }
        | TaskWindowError::DisplayBuffersInFlight { .. } => ErrorCode::NoResources,
        TaskWindowError::InvalidTask
        | TaskWindowError::InvalidDisplay
        | TaskWindowError::DuplicateTask(_)
        | TaskWindowError::DuplicateDisplay(_)
        | TaskWindowError::UnboundDisplay(_)
        | TaskWindowError::DisplayAlreadyBound(_)
        | TaskWindowError::InvalidPackage => ErrorCode::BadParameter,
    }
}

/// Composer3 error that the service returns for a Composer error.
pub fn map_composer_error(error: &ComposerError) -> (code: ErrorCode)
    ensures
        code == composer_code(*error),
{
    match error {
        ComposerError::UnknownDisplay { .. } => ErrorCode::BadDisplay,
        ComposerError::DuplicateLayer(_) | ComposerError::UnknownLayer(_) => ErrorCode::BadLayer,
        ComposerError::NotValidated
        | ComposerError::ChangesNotAccepted => ErrorCode::NotValidated,
        ComposerError::UnsupportedPowerMode(_)
        | ComposerError::ProtectedContent(_) => ErrorCode::Unsupported,
        ComposerError::Transport(TransportError::BufferInFlight(_))
        | ComposerError::Transport(TransportError::FrameIdExhausted) => ErrorCode::NoResources,
        ComposerError::MissingClientTarget
        | ComposerError::DisplayOff
        | ComposerError::NonMonotonicPresentation { .. }
        | ComposerError::MissingRefreshRate
        | ComposerError::Transport(_) => ErrorCode::BadParameter,
    }
}

/// A batch changes no display that none of its commands names, and neither
/// bindings nor layer identities.
pub proof fn law_batch_touches_only_named_displays(
    model: SessionModel,
    commands: Seq<DisplayCommand>,
    other: u64,
)
    requires
        forall|i: int| 0 <= i < commands.len() ==> (#[trigger] commands[i]).display.0 != other,
    ensures
        ({
            let after = model.batch(commands).0;
            &&& after.windows.windows.contains_key(other) == model.windows.windows.contains_key(
                other,
            )
            &&& after.windows.windows[other] == model.windows.windows[other]
            &&& after.windows.tasks == model.windows.tasks
            &&& after.next_layer == model.next_layer
        }),
    decreases commands.len(),
{
    if commands.len() > 0 {
        let rest = commands.drop_last();
        assert(forall|i: int| 0 <= i < rest.len() ==> rest[i] == commands[i]);
        law_batch_touches_only_named_displays(model, rest, other);
        assert(commands.last() == commands[commands.len() - 1]);
    }
}

/// A command that fails at its place in a batch gives a result with its own
/// index and its error code, whatever the other commands do.
pub proof fn law_failed_command_is_indexed(
    model: SessionModel,
    commands: Seq<DisplayCommand>,
    index: int,
    code: ErrorCode,
)
    requires
        0 <= index < commands.len() <= MAX_DISPLAY_COMMANDS,
        model.batch(commands.take(index)).0.command(commands[index]@).2 == Some(code),
    ensures
        model.batch(commands).1.contains(ResultView::Error { command_index: index as u32, code }),
    decreases commands.len(),
{
    let rest = commands.drop_last();
    let wanted = ResultView::Error { command_index: index as u32, code };
    let results = model.batch(commands).1;
    if index == commands.len() - 1 {
        assert(commands.take(index) =~= rest);
        assert(results[results.len() - 1] == wanted);
    } else {
        assert(rest.take(index) =~= commands.take(index));
        law_failed_command_is_indexed(model, rest, index, code);
        let earlier = model.batch(rest).1;
        let k = choose|k: int| 0 <= k < earlier.len() && earlier[k] == wanted;
        assert(results[k] == wanted);
    }
}

/// A display whose layers are all unprotected and that is on can be validated,
/// accepted and presented in one command.
pub proof fn law_one_command_presents(model: SessionModel, command: CommandView)
    requires
        model.wf(),
        well_shaped(command),
        model.windows.windows.contains_key(command.display.0),
        command.layers.len() == 0,
        command.validate_display,
        command.accept_display_changes,
        command.present_display,
        ({
            let composer = model.windows.windows[command.display.0].composer;
            &&& composer.power_mode == PowerMode::On
            &&& composer.validate_error(command.display) is None
        }),
    ensures
        model.command(command).2 is None,
        model.command(command).1.last() == (ResultView::PresentDirect { display: command.display }),
{
    lemma_display(model, command.display);
    let composer = model.windows.windows[command.display.0].composer;
    let state = CommandOutcome::start(composer).patches(command.display, command.layers).target(
        command.client_target,
    );
    assert(state.composer.layers == composer.layers);
    assert(state.validate(command.display, true).error is None);
    assert(state.validate(command.display, true).accept(command.display, true).error is None);
}

/// Patches give no results.
proof fn lemma_patches_are_silent(
    outcome: CommandOutcome,
    display: DisplayId,
    patches: Seq<LayerPatch>,
)
    ensures
        outcome.patches(display, patches).results == outcome.results,
    decreases patches.len(),
{
    if patches.len() > 0 {
        lemma_patches_are_silent(outcome, display, patches.drop_last());
    }
}

/// `SurfaceFlinger` renders into host targets itself: no command ever asks the
/// adapter to compose and submit a frame, so every present is a direct one.
pub proof fn law_commands_present_directly(model: SessionModel, command: CommandView, at: int)
    requires
        0 <= at < model.command(command).1.len(),
    ensures
        !(model.command(command).1[at] is Present),
{
    let display = command.display;
    let start = CommandOutcome::start(model.windows.windows[display.0].composer);
    lemma_patches_are_silent(start, display, command.layers);
}

/// Whether a result is about no display but this one.
pub open spec fn own_display(result: ResultView, display: DisplayId) -> bool {
    match result {
        ResultView::Error { .. } => true,
        ResultView::ChangedCompositionTypes { display: named, .. } => named == display,
        ResultView::Present { display: named, .. } => named == display,
        ResultView::PresentDirect { display: named } => named == display,
        ResultView::PresentOrValidate { display: named, .. } => named == display,
    }
}

/// The results of a command are about its own display.
pub proof fn law_results_name_their_display(model: SessionModel, command: CommandView, at: int)
    requires
        0 <= at < model.command(command).1.len(),
    ensures
        own_display(model.command(command).1[at], command.display),
{
    let display = command.display;
    let start = CommandOutcome::start(model.windows.windows[display.0].composer);
    lemma_patches_are_silent(start, display, command.layers);
}

/// Law: the numbers of Android's errors.
pub proof fn law_errors_have_fixed_numbers()
    ensures
        ErrorCode::BadConfig.number() == 1,
        ErrorCode::BadDisplay.number() == 2,
        ErrorCode::BadLayer.number() == 3,
        ErrorCode::BadParameter.number() == 4,
        ErrorCode::NoResources.number() == 6,
        ErrorCode::NotValidated.number() == 7,
        ErrorCode::Unsupported.number() == 8,
{
}

/// Law: how a failure of a window is reported to Android.
pub proof fn law_window_failures_have_fixed_codes(
    task: super::TaskId,
    display: DisplayId,
    buffers: usize,
)
    ensures
        task_code(TaskWindowError::UnknownDisplay(display)) is BadDisplay,
        task_code(TaskWindowError::UnknownTask(task)) is BadDisplay,
        task_code(TaskWindowError::WindowLimit) is NoResources,
        task_code((TaskWindowError::BuffersInFlight { task, buffers })) is NoResources,
        task_code((TaskWindowError::DisplayBuffersInFlight { display, buffers })) is NoResources,
        task_code(TaskWindowError::InvalidTask) is BadParameter,
        task_code(TaskWindowError::InvalidDisplay) is BadParameter,
        task_code(TaskWindowError::InvalidPackage) is BadParameter,
        task_code(TaskWindowError::DuplicateTask(task)) is BadParameter,
        task_code(TaskWindowError::DuplicateDisplay(display)) is BadParameter,
{
}

/// Law: how a failure of a display is reported to Android.
pub proof fn law_display_failures_have_fixed_codes(
    expected: DisplayId,
    actual: DisplayId,
    layer: LayerId,
    mode: crate::composer::PowerMode,
    buffer: crate::transport::BufferId,
)
    ensures
        composer_code((ComposerError::UnknownDisplay { expected, actual })) is BadDisplay,
        composer_code(ComposerError::DuplicateLayer(layer)) is BadLayer,
        composer_code(ComposerError::UnknownLayer(layer)) is BadLayer,
        composer_code(ComposerError::NotValidated) is NotValidated,
        composer_code(ComposerError::ChangesNotAccepted) is NotValidated,
        composer_code(ComposerError::UnsupportedPowerMode(mode)) is Unsupported,
        composer_code(ComposerError::ProtectedContent(layer)) is Unsupported,
        composer_code(ComposerError::Transport(TransportError::BufferInFlight(buffer)))
            is NoResources,
        composer_code(ComposerError::Transport(TransportError::FrameIdExhausted)) is NoResources,
        composer_code(ComposerError::DisplayOff) is BadParameter,
        composer_code(ComposerError::MissingClientTarget) is BadParameter,
{
}

/// Law: a patch changes what it names of its layer and keeps the rest.
pub proof fn law_patches_keep_what_they_do_not_name(state: LayerState, patch: LayerPatch)
    ensures
        ({
            let after = patched(state, patch);
            &&& after.id == state.id
            &&& patch.composition matches Some(value) ==> after.requested_composition == value
            &&& patch.composition is None ==> after.requested_composition
                == state.requested_composition
            &&& patch.z matches Some(value) ==> after.z == value
            &&& patch.z is None ==> after.z == state.z
            &&& patch.protected_content matches Some(value) ==> after.protected_content == value
            &&& patch.protected_content is None ==> after.protected_content
                == state.protected_content
        }),
{
}

/// Law: nothing of a command is done after its first failure, and a layer with a
/// sideband stream is one.
pub proof fn law_commands_stop_at_their_first_failure(
    outcome: CommandOutcome,
    display: DisplayId,
    patch: LayerPatch,
    target: Option<ClientTarget>,
)
    ensures
        outcome.error is Some ==> {
            &&& outcome.patch(display, patch) == outcome
            &&& outcome.target(target) == outcome
            &&& outcome.validate(display, true) == outcome
            &&& outcome.accept(display, true) == outcome
            &&& outcome.present(display, true) == outcome
            &&& outcome.present_or_validate(display) == outcome
        },
        outcome.validate(display, false) == outcome,
        outcome.accept(display, false) == outcome,
        outcome.present(display, false) == outcome,
        outcome.error is None && patch.has_sideband_stream ==> {
            &&& outcome.patch(display, patch).error == Some(ErrorCode::Unsupported)
            &&& outcome.patch(display, patch).composer == outcome.composer
        },
        outcome.error is None && !patch.has_sideband_stream && outcome.composer.layer_error(
            display,
            patch.layer,
        ) is None ==> {
            &&& outcome.patch(display, patch).error is None
            &&& outcome.patch(display, patch).results == outcome.results
            &&& outcome.patch(display, patch).composer == outcome.composer.updated(
                patched(outcome.composer.layers[patch.layer.0], patch),
            )
        },
{
}

/// Law: a validation reports the changed layers, if any; a presentation reports
/// itself; asked for either, a display that is validated presents and any other
/// validates, and says which.
pub proof fn law_results_say_what_was_done(outcome: CommandOutcome, display: DisplayId)
    requires
        outcome.error is None,
    ensures
        outcome.composer.validate_error(display) is None ==> {
            let after = outcome.validate(display, true);
            &&& after.composer == outcome.composer.validated()
            &&& outcome.composer.changes().len() == 0 ==> after.results == outcome.results
            &&& outcome.composer.changes().len() > 0 ==> after.results == outcome.results.push(
                ResultView::ChangedCompositionTypes { display, layers: outcome.composer.changes() },
            )
        },
        outcome.composer.direct_error(display) is None ==> {
            let after = outcome.present(display, true);
            let either = outcome.present_or_validate(display);
            &&& after.composer == outcome.composer.presented_direct()
            &&& after.results == outcome.results.push(ResultView::PresentDirect { display })
            &&& either.composer == after.composer
            &&& either.results == after.results.push(
                ResultView::PresentOrValidate {
                    display,
                    result: PresentOrValidateResult::Presented,
                },
            )
        },
        outcome.composer.direct_error(display) == Some(ComposerError::NotValidated)
            && outcome.composer.validate_error(display) is None ==> {
            let either = outcome.present_or_validate(display);
            &&& either.composer == outcome.composer.validated()
            &&& either.results == outcome.validate(display, true).results.push(
                ResultView::PresentOrValidate {
                    display,
                    result: PresentOrValidateResult::Validated,
                },
            )
        },
{
}

/// Law: a command has at most 4096 layers, a target of at most 256 damaged
/// rectangles, and asks either for one of the two or for the single steps.
pub proof fn law_commands_are_bounded(model: SessionModel, command: CommandView)
    ensures
        well_shaped(command) <==> {
            &&& command.layers.len() <= 4096
            &&& command.client_target matches Some(target) ==> target.damage@.len() <= 256
            &&& command.present_or_validate_display ==> !(command.validate_display
                || command.accept_display_changes || command.present_display)
        },
        !well_shaped(command) ==> model.command(command) == (
            model,
            Seq::<ResultView>::empty(),
            Some(ErrorCode::BadParameter),
        ),
        well_shaped(command) && !model.windows.windows.contains_key(command.display.0)
            ==> model.command(command) == (
            model,
            Seq::<ResultView>::empty(),
            Some(ErrorCode::BadDisplay),
        ),
{
}

/// Law: a new layer has the number after the last one, is left to the client, at
/// the bottom and unprotected, and has 1 to 4096 buffer slots.
pub proof fn law_new_layers_are_numbered_in_order(
    model: SessionModel,
    display: DisplayId,
    buffer_slot_count: u32,
)
    ensures
        model.create_layer_error(display, buffer_slot_count) is None <==> {
            &&& 1 <= buffer_slot_count <= 4096
            &&& model.next_layer < 0xffff_ffff_ffff_ffff
            &&& model.windows.windows.contains_key(display.0)
            &&& !model.windows.windows[display.0].composer.layers.contains_key(
                (model.next_layer + 1) as u64,
            )
        },
        model.create_layer_error(display, buffer_slot_count) is None ==> {
            let after = model.with_new_layer(display);
            let id = (model.next_layer + 1) as u64;
            &&& after.next_layer == model.next_layer + 1
            &&& after.windows.windows[display.0].composer.layers.contains_key(id)
            &&& after.windows.windows[display.0].composer.layers[id].id.0 == id
            &&& after.windows.windows[display.0].composer.layers[id].requested_composition is Client
            &&& after.windows.windows[display.0].composer.layers[id].z == 0
            &&& !after.windows.windows[display.0].composer.layers[id].protected_content
        },
        buffer_slot_count == 0 || buffer_slot_count > 4096 ==> model.create_layer_error(
            display,
            buffer_slot_count,
        ) == Some(ErrorCode::BadParameter),
{
}

/// Law: a command patches its layers in order, sets its target, and then
/// validates, accepts and presents, in that order; or does the one of the two.
pub proof fn law_commands_run_in_order(outcome: CommandOutcome, command: CommandView)
    ensures
        ({
            let display = command.display;
            let ready = outcome.patches(display, command.layers).target(command.client_target);
            &&& command.present_or_validate_display ==> outcome.run(command)
                == ready.present_or_validate(display)
            &&& !command.present_or_validate_display ==> outcome.run(command) == ready.validate(
                display,
                command.validate_display,
            ).accept(display, command.accept_display_changes).present(
                display,
                command.present_display,
            )
        }),
        outcome.error is None && command.client_target is Some ==> outcome.target(
            command.client_target,
        ).composer.client_target == command.client_target,
        outcome.target(None) == outcome,
{
}

/// Law: layers are patched one after another.
pub proof fn law_layers_are_patched_in_order(
    outcome: CommandOutcome,
    display: DisplayId,
    patches: Seq<LayerPatch>,
    patch: LayerPatch,
)
    ensures
        outcome.patches(display, Seq::empty()) == outcome,
        outcome.patches(display, patches.push(patch)) == outcome.patches(display, patches).patch(
            display,
            patch,
        ),
{
    assert(patches.push(patch).drop_last() =~= patches);
}

/// Law: the results of a batch are those of its commands, in order; a failed one
/// ends its own with the error at its place.
pub proof fn law_batches_list_results_in_order(
    model: SessionModel,
    commands: Seq<DisplayCommand>,
    command: DisplayCommand,
)
    requires
        commands.len() < 0xffff_ffff,
    ensures
        ({
            let (before, results) = model.batch(commands);
            let (after, added, error) = before.command(command@);
            let (last, all) = model.batch(commands.push(command));
            &&& last == after
            &&& error is None ==> all == results + added
            &&& error matches Some(code) ==> all == (results + added).push(
                ResultView::Error { command_index: commands.len() as u32, code },
            )
        }),
        model.batch(Seq::empty()) == (model, Seq::<ResultView>::empty()),
{
    assert(commands.push(command).drop_last() =~= commands);
    let (before, results) = model.batch(commands);
    let (after, added, error) = before.command(command@);
    if error is None {
        assert(results + added + Seq::<ResultView>::empty() =~= results + added);
    } else {
        let code = error->0;
        let failed = ResultView::Error { command_index: commands.len() as u32, code };
        assert(results + added + seq![failed] =~= (results + added).push(failed));
    }
}

} // verus!
