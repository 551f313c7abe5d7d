//! Composer3 command batches: from the plain values of AIDL commands to
//! operations of the session, and from its results to AIDL payloads.

use vstd::prelude::*;

use crate::composer::hwc3::{
    law_commands_present_directly, law_results_name_their_display, own_display, views,
    CommandResult, CommandView, DisplayCommand, ErrorCode, LayerPatch, PresentOrValidateResult,
    ResultView, Session, SessionModel, MAX_DISPLAY_COMMANDS,
};
use crate::composer::windows::law_displays_are_isolated;
use crate::composer::{Composition, CompositionChange, DisplayId, LayerId};
use crate::minigbm::{AdapterModel, LayerUpdate, MinigbmBufferAdapter, RequestedComposition};
use crate::sink::{DenialPresentationSink, PresentationFailure, SinkModel};
use crate::transport::{BufferId, FrameId, TransportError};

verus! {

/// Plain values of one AIDL layer command.
#[derive(Clone, Debug, PartialEq, Eq)]
pub struct LayerRequest {
    /// AIDL layer number.
    pub layer: i64,
    /// Whether the command carries a sideband stream.
    pub has_sideband_stream: bool,
    /// State changes of the layer.
    pub update: LayerUpdate,
}

/// Plain values of one AIDL display command.
#[derive(Clone, Debug, PartialEq, Eq)]
pub struct DisplayRequest {
    /// AIDL display number.
    pub display: i64,
    /// Whether the command carries a color transform other than the identity.
    pub has_color_transform: bool,
    /// Whether the command carries a brightness.
    pub has_brightness: bool,
    /// Whether the command carries an output buffer of a virtual display.
    pub has_output_buffer: bool,
    /// Whether the command selects a display configuration.
    pub has_active_config: bool,
    /// Picture profile, zero for none.
    pub picture_profile: i64,
    /// Layer commands in order.
    pub layers: Vec<LayerRequest>,
    /// Request `validateDisplay`.
    pub validate_display: bool,
    /// Request `acceptDisplayChanges`.
    pub accept_display_changes: bool,
    /// Request `presentDisplay`.
    pub present_display: bool,
    /// Request `presentOrValidateDisplay`.
    pub present_or_validate_display: bool,
}

/// One changed layer of a payload.
#[derive(Clone, Copy, Debug, PartialEq, Eq, Structural)]
pub struct ChangedLayer {
    /// AIDL layer number.
    pub layer: i64,
    /// Composition that the layer must take.
    pub composition: RequestedComposition,
}

/// AIDL payload of one result. The adapter attaches the present fence.
#[derive(Clone, Debug, PartialEq, Eq)]
#[allow(inconsistent_fields)]
pub enum CommandResultPayload {
    /// Failure of one command.
    Error {
        /// Index of the command in its batch.
        command_index: i32,
        /// Frozen service-specific error.
        error_code: i32,
    },
    /// Composition corrections.
    ChangedCompositionTypes {
        /// AIDL display number.
        display: i64,
        /// Corrections.
        layers: Vec<ChangedLayer>,
    },
    /// The display presented; its fence goes with the payload.
    PresentFence {
        /// AIDL display number.
        display: i64,
    },
    /// Outcome of the combined operation.
    PresentOrValidateResult {
        /// AIDL display number.
        display: i64,
        /// Whether the display presented or validated.
        result: PresentOrValidateResult,
    },
}

/// Contents of a [`CommandResultPayload`].
#[verifier::ext_equal]
#[allow(inconsistent_fields)]
pub enum PayloadView {
    Error { command_index: i32, error_code: i32 },
    ChangedCompositionTypes { display: i64, layers: Seq<ChangedLayer> },
    PresentFence { display: i64 },
    PresentOrValidateResult { display: i64, result: PresentOrValidateResult },
}

impl View for CommandResultPayload {
    type V = PayloadView;

    open spec fn view(&self) -> PayloadView {
        match *self {
            CommandResultPayload::Error { command_index, error_code } => PayloadView::Error {
                command_index,
                error_code,
            },
            CommandResultPayload::ChangedCompositionTypes {
                display,
                layers,
            } => PayloadView::ChangedCompositionTypes { display, layers: layers@ },
            CommandResultPayload::PresentFence { display } => PayloadView::PresentFence { display },
            CommandResultPayload::PresentOrValidateResult {
                display,
                result,
            } => PayloadView::PresentOrValidateResult { display, result },
        }
    }
}

/// Contents of a list of payloads.
pub open spec fn payload_views(payloads: Seq<CommandResultPayload>) -> Seq<PayloadView> {
    payloads.map_values(|payload: CommandResultPayload| payload@)
}

/// Payload of a failed command.
pub open spec fn error_payload(command_index: u32, code: ErrorCode) -> PayloadView {
    PayloadView::Error {
        command_index: if command_index > i32::MAX {
            i32::MAX
        } else {
            command_index as i32
        },
        error_code: code.number(),
    }
}

/// Convert one core service error into its frozen AIDL result payload.
pub fn command_error(command_index: u32, code: ErrorCode) -> (payload: CommandResultPayload)
    ensures
        payload@ == error_payload(command_index, code),
{
    let command_index: i32 = if command_index > i32::MAX as u32 {
        i32::MAX
    } else {
        command_index as i32
    };
    CommandResultPayload::Error { command_index, error_code: code.code() }
}

/// AIDL value of a composition.
pub open spec fn aidl_composition(value: Composition) -> RequestedComposition {
    match value {
        Composition::Client => RequestedComposition::Client,
        Composition::Device => RequestedComposition::Device,
        Composition::SolidColor => RequestedComposition::SolidColor,
        Composition::Cursor => RequestedComposition::Cursor,
        Composition::Sideband => RequestedComposition::Sideband,
    }
}

/// Convert the composition subset understood by the first client-target path.
pub fn composition(value: Composition) -> (composition: RequestedComposition)
    ensures
        composition == aidl_composition(value),
{
    match value {
        Composition::Client => RequestedComposition::Client,
        Composition::Device => RequestedComposition::Device,
        Composition::SolidColor => RequestedComposition::SolidColor,
        Composition::Cursor => RequestedComposition::Cursor,
        Composition::Sideband => RequestedComposition::Sideband,
    }
}

/// Core value of an AIDL composition.
pub open spec fn known_composition(value: RequestedComposition) -> Result<Composition, ErrorCode> {
    match value {
        RequestedComposition::Client => Ok(Composition::Client),
        RequestedComposition::Device => Ok(Composition::Device),
        RequestedComposition::SolidColor => Ok(Composition::SolidColor),
        RequestedComposition::Cursor => Ok(Composition::Cursor),
        RequestedComposition::Sideband => Ok(Composition::Sideband),
        RequestedComposition::Other => Err(ErrorCode::Unsupported),
    }
}

/// Core value of an AIDL composition.
pub fn core_composition(value: RequestedComposition) -> (result: Result<Composition, ErrorCode>)
    ensures
        result == known_composition(value),
{
    match value {
        RequestedComposition::Client => Ok(Composition::Client),
        RequestedComposition::Device => Ok(Composition::Device),
        RequestedComposition::SolidColor => Ok(Composition::SolidColor),
        RequestedComposition::Cursor => Ok(Composition::Cursor),
        RequestedComposition::Sideband => Ok(Composition::Sideband),
        RequestedComposition::Other => Err(ErrorCode::Unsupported),
    }
}

/// Every composition of the core survives its way through AIDL.
pub proof fn law_compositions_round_trip(value: Composition)
    ensures
        known_composition(aidl_composition(value)) == Ok::<Composition, ErrorCode>(value),
{
}

/// Convert the indexed error subset of a core command result.
pub fn error_result(result: &CommandResult) -> (payload: Option<CommandResultPayload>)
    ensures
        match result {
            CommandResult::Error { command_index, code } => payload is Some && payload->0@
                == error_payload(*command_index, *code),
            _ => payload is None,
        },
{
    match result {
        CommandResult::Error { command_index, code } => Some(command_error(*command_index, *code)),
        _ => None,
    }
}

/// Display of an AIDL number.
pub fn display_id(value: i64) -> (result: Result<DisplayId, ErrorCode>)
    ensures
        result == (if value >= 0 {
            Ok::<DisplayId, ErrorCode>(DisplayId(value as u64))
        } else {
            Err::<DisplayId, ErrorCode>(ErrorCode::BadDisplay)
        }),
{
    if value < 0 {
        return Err(ErrorCode::BadDisplay);
    }
    Ok(DisplayId(value as u64))
}

/// Layer of an AIDL number.
pub fn layer_id(value: i64) -> (result: Result<LayerId, ErrorCode>)
    ensures
        result == (if value >= 0 {
            Ok::<LayerId, ErrorCode>(LayerId(value as u64))
        } else {
            Err::<LayerId, ErrorCode>(ErrorCode::BadLayer)
        }),
{
    if value < 0 {
        return Err(ErrorCode::BadLayer);
    }
    Ok(LayerId(value as u64))
}

/// AIDL number of an identity.
pub open spec fn number_of(value: u64) -> Result<i64, ErrorCode> {
    if value <= i64::MAX {
        Ok(value as i64)
    } else {
        Err(ErrorCode::NoResources)
    }
}

fn aidl_id(value: u64) -> (result: Result<i64, ErrorCode>)
    ensures
        result == number_of(value),
{
    if value > i64::MAX as u64 {
        return Err(ErrorCode::NoResources);
    }
    Ok(value as i64)
}

/// Native-buffer state and outcome after one layer command was normalized.
pub open spec fn normalized_layer(
    adapter: AdapterModel,
    display: DisplayId,
    request: LayerRequest,
) -> (AdapterModel, Result<LayerPatch, ErrorCode>) {
    let layer = LayerId(request.layer as u64);
    if request.layer < 0 {
        (adapter, Err(ErrorCode::BadLayer))
    } else if request.update.composition is Some && known_composition(
        request.update.composition->0,
    ) is Err {
        (adapter, Err(ErrorCode::Unsupported))
    } else {
        let (after, outcome) = adapter.update(display, layer, request.update);
        (
            after,
            match outcome {
                Err(code) => Err(code),
                Ok(protected_content) => Ok(
                    LayerPatch {
                        layer,
                        composition: match request.update.composition {
                            Some(value) => Some(known_composition(value)->Ok_0),
                            None => None,
                        },
                        z: request.update.z,
                        protected_content,
                        has_sideband_stream: request.has_sideband_stream,
                    },
                ),
            },
        )
    }
}

/// Native-buffer state and outcome after layer commands were normalized in
/// order, up to the first failure.
pub open spec fn normalized_layers(
    adapter: AdapterModel,
    display: DisplayId,
    requests: Seq<LayerRequest>,
) -> (AdapterModel, Result<Seq<LayerPatch>, ErrorCode>)
    decreases requests.len(),
{
    if requests.len() == 0 {
        (adapter, Ok(Seq::empty()))
    } else {
        let (model, earlier) = normalized_layers(adapter, display, requests.drop_last());
        match earlier {
            Err(code) => (model, Err(code)),
            Ok(patches) => {
                let (after, outcome) = normalized_layer(model, display, requests.last());
                (
                    after,
                    match outcome {
                        Err(code) => Err(code),
                        Ok(patch) => Ok(patches.push(patch)),
                    },
                )
            },
        }
    }
}

/// Whether a command asks for what this service does not do.
pub open spec fn unsupported(request: DisplayRequest) -> bool {
    request.has_color_transform || request.has_brightness || request.has_output_buffer
        || request.has_active_config || request.picture_profile != 0
}

/// Native-buffer state and outcome after a display command was normalized.
pub open spec fn normalized(adapter: AdapterModel, display: DisplayId, request: DisplayRequest) -> (
    AdapterModel,
    Result<CommandView, ErrorCode>,
) {
    if unsupported(request) {
        (adapter, Err(ErrorCode::Unsupported))
    } else {
        let (after, outcome) = normalized_layers(adapter, display, request.layers@);
        (
            after,
            match outcome {
                Err(code) => Err(code),
                Ok(layers) => Ok(
                    CommandView {
                        display,
                        layers,
                        client_target: None,
                        validate_display: request.validate_display,
                        accept_display_changes: request.accept_display_changes,
                        present_display: request.present_display,
                        present_or_validate_display: request.present_or_validate_display,
                    },
                ),
            },
        )
    }
}

fn normalize_layer(display: DisplayId, request: &LayerRequest, buffers: &mut MinigbmBufferAdapter) -> (result:
    Result<LayerPatch, ErrorCode>)
    requires
        old(buffers)@.wf(),
    ensures
        final(buffers)@.wf(),
        (final(buffers)@, result) == normalized_layer(old(buffers)@, display, *request),
{
    let layer = layer_id(request.layer)?;
    let composition = match request.update.composition {
        Some(value) => Some(core_composition(value)?),
        None => None,
    };
    let protected_content = buffers.update_layer(display, layer, &request.update)?;
    Ok(
        LayerPatch {
            layer,
            composition,
            z: request.update.z,
            protected_content,
            has_sideband_stream: request.has_sideband_stream,
        },
    )
}

/// What follows a failed layer command changes nothing.
proof fn lemma_layers_stop(
    adapter: AdapterModel,
    display: DisplayId,
    requests: Seq<LayerRequest>,
    count: int,
)
    requires
        0 <= count <= requests.len(),
        normalized_layers(adapter, display, requests.take(count)).1 is Err,
    ensures
        normalized_layers(adapter, display, requests) == normalized_layers(
            adapter,
            display,
            requests.take(count),
        ),
    decreases requests.len() - count,
{
    if count < requests.len() {
        assert(requests.take(count + 1).drop_last() =~= requests.take(count));
        lemma_layers_stop(adapter, display, requests, count + 1);
    } else {
        assert(requests.take(count) =~= requests);
    }
}

/// Normalize one display command, applying its layer state on the way.
pub fn normalize_command(
    display: DisplayId,
    request: &DisplayRequest,
    buffers: &mut MinigbmBufferAdapter,
) -> (result: Result<DisplayCommand, ErrorCode>)
    requires
        old(buffers)@.wf(),
    ensures
        final(buffers)@.wf(),
        final(buffers)@ == normalized(old(buffers)@, display, *request).0,
        match normalized(old(buffers)@, display, *request).1 {
            Ok(command) => result is Ok && result->Ok_0@ == command,
            Err(code) => result == Err::<DisplayCommand, ErrorCode>(code),
        },
{
    if request.has_color_transform || request.has_brightness || request.has_output_buffer
        || request.has_active_config || request.picture_profile != 0 {
        return Err(ErrorCode::Unsupported);
    }
    let mut layers: Vec<LayerPatch> = Vec::new();
    let mut index: usize = 0;
    assert(request.layers@.take(0) =~= Seq::empty());
    assert(layers@ =~= Seq::empty());
    while index < request.layers.len()
        invariant
            index <= request.layers@.len(),
            !unsupported(*request),
            buffers@.wf(),
            normalized_layers(old(buffers)@, display, request.layers@.take(index as int)) == (
                buffers@,
                Ok::<Seq<LayerPatch>, ErrorCode>(layers@),
            ),
        decreases request.layers@.len() - index,
    {
        proof {
            assert(request.layers@.take(index + 1).drop_last() =~= request.layers@.take(
                index as int,
            ));
            assert(request.layers@.take(index + 1).last() == request.layers@[index as int]);
        }
        let patch = normalize_layer(display, &request.layers[index], buffers);
        match patch {
            Ok(patch) => {
                layers.push(patch);
            },
            Err(code) => {
                proof {
                    lemma_layers_stop(old(buffers)@, display, request.layers@, index + 1);
                }
                return Err(code);
            },
        }
        index = index + 1;
    }
    assert(request.layers@.take(index as int) =~= request.layers@);
    Ok(
        DisplayCommand {
            display,
            layers,
            client_target: None,
            validate_display: request.validate_display,
            accept_display_changes: request.accept_display_changes,
            present_display: request.present_display,
            present_or_validate_display: request.present_or_validate_display,
        },
    )
}

/// Changed layers of a payload, unless an identity does not fit.
pub open spec fn changed_layers(changes: Seq<CompositionChange>) -> Result<
    Seq<ChangedLayer>,
    ErrorCode,
> {
    if exists|i: int| 0 <= i < changes.len() && (#[trigger] changes[i]).layer.0 > i64::MAX {
        Err(ErrorCode::NoResources)
    } else {
        Ok(
            changes.map_values(
                |change: CompositionChange|
                    ChangedLayer {
                        layer: change.layer.0 as i64,
                        composition: aidl_composition(change.composition),
                    },
            ),
        )
    }
}

fn change_layers(changes: &Vec<CompositionChange>) -> (result: Result<Vec<ChangedLayer>, ErrorCode>)
    ensures
        match changed_layers(changes@) {
            Ok(layers) => result is Ok && result->Ok_0@ == layers,
            Err(code) => result == Err::<Vec<ChangedLayer>, ErrorCode>(code),
        },
{
    let mut layers: Vec<ChangedLayer> = Vec::new();
    let mut index: usize = 0;
    while index < changes.len()
        invariant
            index <= changes@.len(),
            layers@.len() == index,
            forall|i: int| 0 <= i < index ==> (#[trigger] changes@[i]).layer.0 <= i64::MAX,
            forall|i: int|
                0 <= i < index ==> #[trigger] layers@[i] == (ChangedLayer {
                    layer: changes@[i].layer.0 as i64,
                    composition: aidl_composition(changes@[i].composition),
                }),
        decreases changes@.len() - index,
    {
        let change = changes[index];
        let layer: i64 = match aidl_id(change.layer.0) {
            Ok(layer) => layer,
            Err(code) => {
                assert(changes@[index as int].layer.0 > i64::MAX);
                return Err(code);
            },
        };
        layers.push(ChangedLayer { layer, composition: composition(change.composition) });
        index = index + 1;
    }
    assert(layers@ =~= changed_layers(changes@)->Ok_0);
    Ok(layers)
}

/// Sink and payload of a result that asks for no composed submission.
pub open spec fn payload_of(sink: SinkModel, result: ResultView) -> (
    SinkModel,
    Result<PayloadView, ErrorCode>,
)
    recommends
        !(result is Present),
{
    match result {
        ResultView::Error { command_index, code } => (sink, Ok(error_payload(command_index, code))),
        ResultView::ChangedCompositionTypes { display, layers } => (
            sink,
            match (changed_layers(layers), number_of(display.0)) {
                (Err(code), _) => Err(code),
                (Ok(_), Err(code)) => Err(code),
                (Ok(layers), Ok(display)) => Ok(
                    PayloadView::ChangedCompositionTypes { display, layers },
                ),
            },
        ),
        ResultView::PresentOrValidate { display, result } => (
            sink,
            match number_of(display.0) {
                Err(code) => Err(code),
                Ok(display) => Ok(PayloadView::PresentOrValidateResult { display, result }),
            },
        ),
        ResultView::PresentDirect { display } => match sink.fence_error(display) {
            Some(code) => (sink, Err(code)),
            None => (
                sink.with_channel(
                    display.0,
                    crate::sink::ChannelModel {
                        present_fence: false,
                        ..sink.tasks[display.0]
                    },
                ),
                match number_of(display.0) {
                    Err(code) => Err(code),
                    Ok(display) => Ok(PayloadView::PresentFence { display }),
                },
            ),
        },
        ResultView::Present { .. } => (sink, Err(ErrorCode::BadParameter)),
    }
}

/// Convert one result of the session. An error is reported at the index of its
/// command in the batch. A direct present takes the completion fence that the
/// sink holds for it; a composed present goes to [`present_payload`] instead.
pub fn result_payload(
    result: &CommandResult,
    command_index: u32,
    sink: &mut DenialPresentationSink,
) -> (payload: Result<CommandResultPayload, ErrorCode>)
    requires
        old(sink)@.wf(),
        !(result@ is Present),
    ensures
        final(sink)@.wf(),
        ({
            let own = indexed(result@, command_index);
            &&& final(sink)@ == payload_of(old(sink)@, own).0
            &&& match payload_of(old(sink)@, own).1 {
                Ok(view) => payload is Ok && payload->Ok_0@ == view,
                Err(code) => payload == Err::<CommandResultPayload, ErrorCode>(code),
            }
        }),
{
    match result {
        CommandResult::Error { code, .. } => Ok(command_error(command_index, *code)),
        CommandResult::ChangedCompositionTypes { display, layers } => {
            let layers = change_layers(layers)?;
            let display: i64 = aidl_id(display.0)?;
            Ok(CommandResultPayload::ChangedCompositionTypes { display, layers })
        },
        CommandResult::PresentDirect { display } => {
            sink.take_direct_present_fence(*display)?;
            let display: i64 = aidl_id(display.0)?;
            Ok(CommandResultPayload::PresentFence { display })
        },
        CommandResult::PresentOrValidate { display, result } => {
            let display: i64 = aidl_id(display.0)?;
            Ok(CommandResultPayload::PresentOrValidateResult { display, result: *result })
        },
        CommandResult::Present { .. } => Err(ErrorCode::BadParameter),
    }
}

/// Session and payload of a composed present.
pub open spec fn present_outcome(
    session: SessionModel,
    display: DisplayId,
    frame: FrameId,
    requires_present_fence: bool,
    submission: Result<(), PresentationFailure>,
    rollback: Result<BufferId, TransportError>,
) -> (SessionModel, Result<PayloadView, ErrorCode>) {
    if !requires_present_fence {
        (session, Err(ErrorCode::BadParameter))
    } else {
        match submission {
            Ok(_) => (
                session,
                match number_of(display.0) {
                    Err(code) => Err(code),
                    Ok(display) => Ok(PayloadView::PresentFence { display }),
                },
            ),
            Err(failure) => if failure.accepted_by_denial {
                (session, Err(failure.code))
            } else if !session.windows.windows.contains_key(display.0) {
                (session, Err(ErrorCode::BadDisplay))
            } else if rollback is Err {
                (session, Err(ErrorCode::BadParameter))
            } else {
                (
                    session.with_composer(
                        display,
                        session.windows.windows[display.0].composer.without_frame(frame),
                    ),
                    Err(failure.code),
                )
            },
        }
    }
}

/// Convert a composed present after its submission. A frame that Denial never
/// saw is rolled back: `rollback` is how the transport answers that, and is not
/// read otherwise.
pub fn present_payload(
    session: &mut Session,
    display: DisplayId,
    frame: FrameId,
    requires_present_fence: bool,
    submission: Result<(), PresentationFailure>,
    rollback: Result<BufferId, TransportError>,
) -> (payload: Result<CommandResultPayload, ErrorCode>)
    requires
        old(session)@.wf(),
    ensures
        final(session)@.wf(),
        ({
            let outcome = present_outcome(
                old(session)@,
                display,
                frame,
                requires_present_fence,
                submission,
                rollback,
            );
            &&& final(session)@ == outcome.0
            &&& match outcome.1 {
                Ok(view) => payload is Ok && payload->Ok_0@ == view,
                Err(code) => payload == Err::<CommandResultPayload, ErrorCode>(code),
            }
        }),
{
    if !requires_present_fence {
        return Err(ErrorCode::BadParameter);
    }
    match submission {
        Ok(()) => {
            let display: i64 = aidl_id(display.0)?;
            Ok(CommandResultPayload::PresentFence { display })
        },
        Err(failure) => {
            if !failure.accepted_by_denial {
                let composer = match session.windows_mut().composer_for_display_mut(display) {
                    Ok(composer) => composer,
                    Err(_) => {
                        return Err(ErrorCode::BadDisplay);
                    },
                };
                let ghost before = composer@;
                proof {
                    assert(old(session)@.windows.window_wf(display.0));
                }
                let cancelled = composer.cancel_unsubmitted_target(frame, rollback);
                let ghost after = composer@;
                proof {
                    law_displays_are_isolated(old(session)@.windows, display, after, 0);
                    assert(old(session)@.with_composer(display, before).windows.windows
                        =~= old(session)@.windows.windows);
                }
                if cancelled.is_err() {
                    return Err(ErrorCode::BadParameter);
                }
            }
            Err(failure.code)
        },
    }
}

/// Model of the state behind one Composer client.
#[verifier::ext_equal]
pub struct ClientModel {
    pub session: SessionModel,
    pub sink: SinkModel,
    pub buffers: AdapterModel,
}

/// Result with the index of its command in the batch.
pub open spec fn indexed(result: ResultView, command_index: u32) -> ResultView {
    match result {
        ResultView::Error { code, .. } => ResultView::Error { command_index, code },
        other => other,
    }
}

/// Sink and payloads of results in order; a result that cannot be converted is
/// an error of its command.
pub open spec fn payloads_of(sink: SinkModel, results: Seq<ResultView>, command_index: u32) -> (
    SinkModel,
    Seq<PayloadView>,
)
    decreases results.len(),
{
    if results.len() == 0 {
        (sink, Seq::empty())
    } else {
        let (model, earlier) = payloads_of(sink, results.drop_last(), command_index);
        let (after, outcome) = payload_of(model, indexed(results.last(), command_index));
        (
            after,
            earlier.push(
                match outcome {
                    Ok(payload) => payload,
                    Err(code) => error_payload(command_index, code),
                },
            ),
        )
    }
}

impl ClientModel {
    /// The invariant of every reachable client.
    pub open spec fn wf(self) -> bool {
        self.session.wf() && self.sink.wf() && self.buffers.wf()
    }

    /// State and payloads of one command at its place in a batch.
    pub open spec fn request(self, request: DisplayRequest, command_index: u32) -> (
        ClientModel,
        Seq<PayloadView>,
    ) {
        let display = DisplayId(request.display as u64);
        if request.display < 0 || !self.session.windows.windows.contains_key(display.0) {
            (self, seq![error_payload(command_index, ErrorCode::BadDisplay)])
        } else {
            let (buffers, outcome) = normalized(self.buffers, display, request);
            match outcome {
                Err(code) => (
                    ClientModel { buffers, ..self },
                    seq![error_payload(command_index, code)],
                ),
                Ok(command) => {
                    let (session, results, error) = self.session.command(command);
                    let all = results + (match error {
                        Some(code) => seq![ResultView::Error { command_index: 0, code }],
                        None => Seq::empty(),
                    });
                    let (sink, payloads) = payloads_of(self.sink, all, command_index);
                    (ClientModel { session, sink, buffers }, payloads)
                },
            }
        }
    }

    /// State and payloads of commands in order.
    pub open spec fn requests(self, requests: Seq<DisplayRequest>) -> (ClientModel, Seq<PayloadView>)
        decreases requests.len(),
    {
        if requests.len() == 0 {
            (self, Seq::empty())
        } else {
            let (model, earlier) = self.requests(requests.drop_last());
            let (after, added) = model.request(requests.last(), (requests.len() - 1) as u32);
            (after, earlier + added)
        }
    }
}

proof fn lemma_payload_push(payloads: Seq<CommandResultPayload>, payload: CommandResultPayload)
    ensures
        payload_views(payloads.push(payload)) == payload_views(payloads).push(payload@),
{
    assert(payload_views(payloads.push(payload)) =~= payload_views(payloads).push(payload@));
}

fn convert_results(
    results: &Vec<CommandResult>,
    command_index: u32,
    sink: &mut DenialPresentationSink,
    payloads: &mut Vec<CommandResultPayload>,
)
    requires
        old(sink)@.wf(),
        forall|i: int| 0 <= i < results@.len() ==> !((#[trigger] views(results@)[i]) is Present),
    ensures
        final(sink)@.wf(),
        final(sink)@ == payloads_of(old(sink)@, views(results@), command_index).0,
        payload_views(final(payloads)@) == payload_views(old(payloads)@) + payloads_of(
            old(sink)@,
            views(results@),
            command_index,
        ).1,
{
    let mut index: usize = 0;
    let ghost all = views(results@);
    assert(all.take(0) =~= Seq::empty());
    assert(payload_views(payloads@) =~= payload_views(old(payloads)@) + Seq::empty());
    while index < results.len()
        invariant
            index <= results@.len(),
            all == views(results@),
            all.len() == results@.len(),
            sink@.wf(),
            forall|i: int| 0 <= i < results@.len() ==> !((#[trigger] all[i]) is Present),
            sink@ == payloads_of(old(sink)@, all.take(index as int), command_index).0,
            payload_views(payloads@) == payload_views(old(payloads)@) + payloads_of(
                old(sink)@,
                all.take(index as int),
                command_index,
            ).1,
        decreases results@.len() - index,
    {
        proof {
            assert(all.take(index + 1).drop_last() =~= all.take(index as int));
            assert(all.take(index + 1).last() == all[index as int]);
            assert(results@[index as int]@ == all[index as int]);
        }
        let ghost before = payloads@;
        let payload = match result_payload(&results[index], command_index, sink) {
            Ok(payload) => payload,
            Err(code) => command_error(command_index, code),
        };
        proof {
            lemma_payload_push(before, payload);
            assert(payload_views(before).push(payload@) =~= payload_views(old(payloads)@)
                + payloads_of(old(sink)@, all.take(index as int), command_index).1.push(payload@));
        }
        payloads.push(payload);
        index = index + 1;
    }
    assert(all.take(index as int) =~= all);
}

fn execute_one(
    session: &mut Session,
    sink: &mut DenialPresentationSink,
    buffers: &mut MinigbmBufferAdapter,
    request: &DisplayRequest,
    command_index: u32,
    payloads: &mut Vec<CommandResultPayload>,
)
    requires
        old(session)@.wf(),
        old(sink)@.wf(),
        old(buffers)@.wf(),
    ensures
        final(session)@.wf(),
        final(sink)@.wf(),
        final(buffers)@.wf(),
        ({
            let before = ClientModel {
                session: old(session)@,
                sink: old(sink)@,
                buffers: old(buffers)@,
            };
            let (after, added) = before.request(*request, command_index);
            &&& final(session)@ == after.session
            &&& final(sink)@ == after.sink
            &&& final(buffers)@ == after.buffers
            &&& payload_views(final(payloads)@) == payload_views(old(payloads)@) + added
        }),
{
    let display = match display_id(request.display) {
        Ok(display) => display,
        Err(code) => {
            let payload = command_error(command_index, code);
            proof {
                lemma_payload_push(payloads@, payload);
                assert(payload_views(payloads@).push(payload@) =~= payload_views(payloads@)
                    + seq![payload@]);
            }
            payloads.push(payload);
            return ;
        },
    };
    if session.windows().composer_for_display(display).is_err() {
        let payload = command_error(command_index, ErrorCode::BadDisplay);
        proof {
            lemma_payload_push(payloads@, payload);
            assert(payload_views(payloads@).push(payload@) =~= payload_views(payloads@)
                + seq![payload@]);
        }
        payloads.push(payload);
        return ;
    }
    let normalized = match normalize_command(display, request, buffers) {
        Ok(command) => command,
        Err(code) => {
            let payload = command_error(command_index, code);
            proof {
                lemma_payload_push(payloads@, payload);
                assert(payload_views(payloads@).push(payload@) =~= payload_views(payloads@)
                    + seq![payload@]);
            }
            payloads.push(payload);
            return ;
        },
    };
    let mut commands: Vec<DisplayCommand> = Vec::new();
    let ghost command = normalized@;
    commands.push(normalized);
    let ghost model = session@;
    proof {
        assert(commands@.drop_last() =~= Seq::empty());
        assert(commands@.last()@ == command);
        reveal_with_fuel(SessionModel::batch, 2);
        let (after, results, error) = model.command(command);
        assert(model.batch(commands@).1 =~= results + (match error {
            Some(code) => seq![ResultView::Error { command_index: 0, code }],
            None => Seq::empty(),
        }));
        assert forall|i: int| 0 <= i < results.len() implies !((#[trigger] results[i]) is Present) by {
            law_commands_present_directly(model, command, i);
        }
    }
    let results = session.execute_commands(commands);
    convert_results(&results, command_index, sink, payloads);
}

/// Execute one frozen Composer V5 command batch against the safe session.
///
/// Failures are reported at the index of their AIDL command. A bad task display
/// cannot corrupt another task window later in the batch.
pub fn execute_commands(
    session: &mut Session,
    sink: &mut DenialPresentationSink,
    buffers: &mut MinigbmBufferAdapter,
    requests: &Vec<DisplayRequest>,
) -> (payloads: Vec<CommandResultPayload>)
    requires
        old(session)@.wf(),
        old(sink)@.wf(),
        old(buffers)@.wf(),
    ensures
        final(session)@.wf(),
        final(sink)@.wf(),
        final(buffers)@.wf(),
        ({
            let before = ClientModel {
                session: old(session)@,
                sink: old(sink)@,
                buffers: old(buffers)@,
            };
            let (after, added) = if requests@.len() > MAX_DISPLAY_COMMANDS {
                (
                    before,
                    seq![error_payload(MAX_DISPLAY_COMMANDS as u32, ErrorCode::BadParameter)],
                )
            } else {
                before.requests(requests@)
            };
            &&& final(session)@ == after.session
            &&& final(sink)@ == after.sink
            &&& final(buffers)@ == after.buffers
            &&& payload_views(payloads@) == added
        }),
{
    let mut payloads: Vec<CommandResultPayload> = Vec::new();
    if requests.len() > MAX_DISPLAY_COMMANDS {
        payloads.push(command_error(MAX_DISPLAY_COMMANDS as u32, ErrorCode::BadParameter));
        assert(payload_views(payloads@) =~= seq![
            error_payload(MAX_DISPLAY_COMMANDS as u32, ErrorCode::BadParameter),
        ]);
        return payloads;
    }
    let ghost before = ClientModel {
        session: old(session)@,
        sink: old(sink)@,
        buffers: old(buffers)@,
    };
    let mut index: usize = 0;
    assert(requests@.take(0) =~= Seq::empty());
    assert(payload_views(payloads@) =~= Seq::empty());
    while index < requests.len()
        invariant
            index <= requests@.len() <= MAX_DISPLAY_COMMANDS,
            session@.wf(),
            sink@.wf(),
            buffers@.wf(),
            before.requests(requests@.take(index as int)) == (
                ClientModel { session: session@, sink: sink@, buffers: buffers@ },
                payload_views(payloads@),
            ),
        decreases requests@.len() - index,
    {
        proof {
            assert(requests@.take(index + 1).drop_last() =~= requests@.take(index as int));
            assert(requests@.take(index + 1).last() == requests@[index as int]);
        }
        execute_one(session, sink, buffers, &requests[index], index as u32, &mut payloads);
        index = index + 1;
    }
    assert(requests@.take(index as int) =~= requests@);
    payloads
}

/// A bad command cannot corrupt the window of another task: a display that no
/// command of the batch names keeps its Composer, its channel in the sink and
/// its layers.
pub proof fn law_batches_are_isolated(client: ClientModel, requests: Seq<DisplayRequest>, other: u64)
    requires
        client.wf(),
        forall|i: int| 0 <= i < requests.len() ==> (#[trigger] requests[i]).display != other,
    ensures
        ({
            let after = client.requests(requests).0;
            &&& after.session.windows.windows.contains_key(other)
                == client.session.windows.windows.contains_key(other)
            &&& after.session.windows.windows[other] == client.session.windows.windows[other]
            &&& after.sink.tasks.contains_key(other) == client.sink.tasks.contains_key(other)
            &&& after.sink.tasks[other] == client.sink.tasks[other]
            &&& after.buffers.on(other) == client.buffers.on(other)
        }),
    decreases requests.len(),
{
    if requests.len() > 0 {
        let rest = requests.drop_last();
        assert(forall|i: int| 0 <= i < rest.len() ==> rest[i] == requests[i]);
        assert(requests[requests.len() - 1] == requests.last());
        law_batches_are_isolated(client, rest, other);
        let model = client.requests(rest).0;
        let request = requests.last();
        let display = DisplayId(request.display as u64);
        if request.display >= 0 {
            assert(display.0 != other);
            lemma_layers_isolated(model.buffers, display, request.layers@, other);
            if let Ok(command) = normalized(model.buffers, display, request).1 {
                let (session, results, error) = model.session.command(command);
                let all = results + (match error {
                    Some(code) => seq![ResultView::Error { command_index: 0, code }],
                    None => Seq::empty(),
                });
                assert forall|i: int| 0 <= i < all.len() implies own_display(
                    #[trigger] all[i],
                    display,
                ) by {
                    if i < results.len() {
                        law_results_name_their_display(model.session, command, i);
                    }
                }
                lemma_payloads_isolated(
                    model.sink,
                    all,
                    (requests.len() - 1) as u32,
                    display,
                    other,
                );
            }
        }
    }
}

/// Layer commands to one display leave the layers of the others.
proof fn lemma_layers_isolated(
    adapter: AdapterModel,
    display: DisplayId,
    requests: Seq<LayerRequest>,
    other: u64,
)
    requires
        other != display.0,
    ensures
        normalized_layers(adapter, display, requests).0.on(other) == adapter.on(other),
    decreases requests.len(),
{
    if requests.len() > 0 {
        lemma_layers_isolated(adapter, display, requests.drop_last(), other);
    }
}

/// Payloads of one display leave the channels of the others.
proof fn lemma_payloads_isolated(
    sink: SinkModel,
    results: Seq<ResultView>,
    command_index: u32,
    display: DisplayId,
    other: u64,
)
    requires
        other != display.0,
        forall|i: int| 0 <= i < results.len() ==> own_display(#[trigger] results[i], display),
    ensures
        ({
            let after = payloads_of(sink, results, command_index).0;
            &&& after.tasks.contains_key(other) == sink.tasks.contains_key(other)
            &&& after.tasks[other] == sink.tasks[other]
        }),
    decreases results.len(),
{
    if results.len() > 0 {
        let rest = results.drop_last();
        assert(forall|i: int| 0 <= i < rest.len() ==> rest[i] == results[i]);
        assert(results[results.len() - 1] == results.last());
        lemma_payloads_isolated(sink, rest, command_index, display, other);
    }
}

/// Law: an error is reported with its number at the place of its command.
pub proof fn law_errors_name_their_command(command_index: u32, code: ErrorCode)
    ensures
        error_payload(command_index, code) is Error,
        error_payload(command_index, code)->error_code == code.number(),
        command_index <= 2_147_483_647 ==> error_payload(command_index, code)->command_index
            == command_index,
        command_index > 2_147_483_647 ==> error_payload(command_index, code)->command_index
            == 2_147_483_647,
{
}

/// Law: each way to compose a layer keeps its name on the way in and out, and
/// an unknown one is not supported.
pub proof fn law_compositions_keep_their_names()
    ensures
        aidl_composition(Composition::Client) == RequestedComposition::Client,
        aidl_composition(Composition::Device) == RequestedComposition::Device,
        aidl_composition(Composition::SolidColor) == RequestedComposition::SolidColor,
        aidl_composition(Composition::Cursor) == RequestedComposition::Cursor,
        aidl_composition(Composition::Sideband) == RequestedComposition::Sideband,
        known_composition(RequestedComposition::Other) == Err::<Composition, ErrorCode>(
            ErrorCode::Unsupported,
        ),
{
}

/// Law: an identity that Android's signed numbers cannot hold is out of
/// resources, any other is its own number.
pub proof fn law_identities_are_signed(value: u64)
    ensures
        value <= 9_223_372_036_854_775_807 ==> number_of(value) == Ok::<i64, ErrorCode>(
            value as i64,
        ),
        value > 9_223_372_036_854_775_807 ==> number_of(value) == Err::<i64, ErrorCode>(
            ErrorCode::NoResources,
        ),
{
}

/// Law: a layer command is handed to the session for its own layer, with the
/// order, the composition and the stream that it names and the protection that
/// the buffers report; a negative layer or an unknown composition is refused
/// before anything is changed.
pub proof fn law_layer_commands_are_handed_on(
    adapter: AdapterModel,
    display: DisplayId,
    request: LayerRequest,
)
    ensures
        ({
            let (after, outcome) = normalized_layer(adapter, display, request);
            let layer = LayerId(request.layer as u64);
            &&& request.layer < 0 ==> outcome == Err::<LayerPatch, ErrorCode>(ErrorCode::BadLayer)
                && after == adapter
            &&& request.layer >= 0 && request.update.composition == Some(
                RequestedComposition::Other,
            ) ==> outcome == Err::<LayerPatch, ErrorCode>(ErrorCode::Unsupported) && after
                == adapter
            &&& outcome is Ok ==> {
                &&& adapter.update(display, layer, request.update).1 == Ok::<
                    Option<bool>,
                    ErrorCode,
                >(outcome->Ok_0.protected_content)
                &&& after == adapter.update(display, layer, request.update).0
                &&& outcome->Ok_0.layer.0 == request.layer
                &&& outcome->Ok_0.z == request.update.z
                &&& outcome->Ok_0.has_sideband_stream == request.has_sideband_stream
                &&& request.update.composition is None ==> outcome->Ok_0.composition is None
                &&& request.update.composition is Some ==> {
                    &&& outcome->Ok_0.composition is Some
                    &&& aidl_composition(outcome->Ok_0.composition->0)
                        == request.update.composition->0
                }
            }
        }),
{
}

/// Law: a display command is refused as a whole when it asks for what no
/// display has, and otherwise becomes a command for its display with one patch
/// for each layer, in order, and the operations that it asks for.
pub proof fn law_display_commands_are_handed_on(
    adapter: AdapterModel,
    display: DisplayId,
    request: DisplayRequest,
)
    ensures
        ({
            let (after, outcome) = normalized(adapter, display, request);
            let refused = request.has_color_transform || request.has_brightness
                || request.has_output_buffer || request.has_active_config
                || request.picture_profile != 0;
            &&& refused ==> outcome == Err::<CommandView, ErrorCode>(ErrorCode::Unsupported)
                && after == adapter
            &&& outcome is Ok ==> {
                &&& !refused
                &&& outcome->Ok_0.display == display
                &&& outcome->Ok_0.layers.len() == request.layers@.len()
                &&& outcome->Ok_0.client_target is None
                &&& outcome->Ok_0.validate_display == request.validate_display
                &&& outcome->Ok_0.accept_display_changes == request.accept_display_changes
                &&& outcome->Ok_0.present_display == request.present_display
                &&& outcome->Ok_0.present_or_validate_display == request.present_or_validate_display
                &&& forall|i: int|
                    0 <= i < request.layers@.len() ==> (#[trigger] outcome->Ok_0.layers[i]).layer.0
                        == request.layers@[i].layer
            }
        }),
{
    lemma_patches_follow_requests(adapter, display, request.layers@);
}

proof fn lemma_patches_follow_requests(
    adapter: AdapterModel,
    display: DisplayId,
    requests: Seq<LayerRequest>,
)
    ensures
        normalized_layers(adapter, display, requests).1 is Ok ==> {
            let patches = normalized_layers(adapter, display, requests).1->Ok_0;
            &&& patches.len() == requests.len()
            &&& forall|i: int|
                0 <= i < requests.len() ==> (#[trigger] patches[i]).layer.0 == requests[i].layer
        },
    decreases requests.len(),
{
    if requests.len() > 0 {
        lemma_patches_follow_requests(adapter, display, requests.drop_last());
    }
}

/// Law: changed layers are reported in order, each with its own composition.
pub proof fn law_changes_are_reported_in_order(changes: Seq<CompositionChange>, i: int)
    requires
        0 <= i < changes.len(),
    ensures
        changes[i].layer.0 > 9_223_372_036_854_775_807 ==> changed_layers(changes) == Err::<
            Seq<ChangedLayer>,
            ErrorCode,
        >(ErrorCode::NoResources),
        changed_layers(changes) is Ok ==> {
            &&& changed_layers(changes)->Ok_0.len() == changes.len()
            &&& changed_layers(changes)->Ok_0[i].layer == changes[i].layer.0
            &&& known_composition(changed_layers(changes)->Ok_0[i].composition) == Ok::<
                Composition,
                ErrorCode,
            >(changes[i].composition)
        },
{
}

/// Law: a fence that a direct presentation left behind is reported once.
pub proof fn law_direct_fences_are_reported_once(sink: SinkModel, display: DisplayId)
    requires
        display.0 <= 9_223_372_036_854_775_807,
    ensures
        ({
            let (after, outcome) = payload_of(sink, (ResultView::PresentDirect { display }));
            let (_, again) = payload_of(after, (ResultView::PresentDirect { display }));
            &&& outcome is Ok <==> sink.tasks.contains_key(display.0)
                && sink.tasks[display.0].present_fence
            &&& outcome is Ok ==> {
                &&& outcome->Ok_0 == (PayloadView::PresentFence { display: display.0 as i64 })
                &&& again == Err::<PayloadView, ErrorCode>(ErrorCode::NoResources)
            }
        }),
{
}

/// Law: a frame that was submitted is answered with its fence; one that the
/// host never took is rolled back and answered with its failure; one that the
/// host did take is left in flight.
pub proof fn law_presents_are_answered(
    session: SessionModel,
    display: DisplayId,
    frame: FrameId,
    submission: Result<(), PresentationFailure>,
    rollback: Result<BufferId, TransportError>,
)
    requires
        display.0 <= 9_223_372_036_854_775_807,
    ensures
        ({
            let (after, outcome) = present_outcome(
                session,
                display,
                frame,
                true,
                submission,
                rollback,
            );
            &&& submission is Ok ==> after == session && outcome == Ok::<PayloadView, ErrorCode>(
                PayloadView::PresentFence { display: display.0 as i64 },
            )
            &&& submission is Err ==> outcome is Err
            &&& submission is Err && submission->Err_0.accepted_by_denial ==> after == session
                && outcome->Err_0 == submission->Err_0.code
            &&& submission is Err && !submission->Err_0.accepted_by_denial
                && session.windows.windows.contains_key(display.0) && rollback is Ok ==> {
                &&& outcome->Err_0 == submission->Err_0.code
                &&& after == session.with_composer(
                    display,
                    session.windows.windows[display.0].composer.without_frame(frame),
                )
            }
        }),
        present_outcome(session, display, frame, false, submission, rollback) == (
            session,
            Err::<PayloadView, ErrorCode>(ErrorCode::BadParameter),
        ),
{
}

/// Law: a command for a display without a window is answered with that error
/// alone and changes nothing.
pub proof fn law_unknown_displays_are_refused(
    client: ClientModel,
    request: DisplayRequest,
    command_index: u32,
)
    requires
        request.display < 0 || !client.session.windows.windows.contains_key(request.display as u64),
    ensures
        client.request(request, command_index).0 == client,
        client.request(request, command_index).1.len() == 1,
        client.request(request, command_index).1[0] == error_payload(
            command_index,
            ErrorCode::BadDisplay,
        ),
{
}

/// Law: each result of a command becomes one payload, in order; one that cannot
/// be told becomes the error, at the place of its command.
pub proof fn law_results_become_payloads_in_order(
    sink: SinkModel,
    results: Seq<ResultView>,
    result: ResultView,
    command_index: u32,
)
    ensures
        ({
            let (model, earlier) = payloads_of(sink, results, command_index);
            let (after, payloads) = payloads_of(sink, results.push(result), command_index);
            &&& payloads.len() == earlier.len() + 1
            &&& payloads.take(earlier.len() as int) == earlier
            &&& result matches ResultView::Error { code, .. } ==> {
                &&& after == model
                &&& payloads.last() == error_payload(command_index, code)
            }
            &&& result is ChangedCompositionTypes || result is PresentOrValidate || result
                is PresentDirect ==> {
                &&& after == payload_of(model, result).0
                &&& payload_of(model, result).1 is Ok ==> payloads.last() == payload_of(
                    model,
                    result,
                ).1->Ok_0
                &&& payload_of(model, result).1 is Err ==> payloads.last() == error_payload(
                    command_index,
                    payload_of(model, result).1->Err_0,
                )
            }
        }),
{
    assert(results.push(result).drop_last() =~= results);
    let (model, earlier) = payloads_of(sink, results, command_index);
    let (after, payloads) = payloads_of(sink, results.push(result), command_index);
    assert(payloads.take(earlier.len() as int) =~= earlier);
}

/// Law: a result is told for its own display, in its own words.
pub proof fn law_payloads_tell_their_display(
    sink: SinkModel,
    display: DisplayId,
    layers: Seq<CompositionChange>,
    result: PresentOrValidateResult,
)
    requires
        display.0 <= 9_223_372_036_854_775_807,
    ensures
        payload_of(sink, (ResultView::PresentOrValidate { display, result })) == (
            sink,
            Ok::<PayloadView, ErrorCode>(
                PayloadView::PresentOrValidateResult { display: display.0 as i64, result },
            ),
        ),
        changed_layers(layers) is Ok ==> payload_of(
            sink,
            (ResultView::ChangedCompositionTypes { display, layers }),
        ) == (
            sink,
            Ok::<PayloadView, ErrorCode>(
                PayloadView::ChangedCompositionTypes {
                    display: display.0 as i64,
                    layers: changed_layers(layers)->Ok_0,
                },
            ),
        ),
{
}

/// Law: the requests of a batch are answered one after another, each at its own
/// place.
pub proof fn law_batches_are_answered_in_order(
    client: ClientModel,
    requests: Seq<DisplayRequest>,
    request: DisplayRequest,
)
    requires
        requests.len() < 0xffff_ffff,
    ensures
        ({
            let (before, earlier) = client.requests(requests);
            let (after, added) = before.request(request, requests.len() as u32);
            client.requests(requests.push(request)) == (after, earlier + added)
        }),
        client.requests(Seq::empty()) == (client, Seq::<PayloadView>::empty()),
{
    assert(requests.push(request).drop_last() =~= requests);
}

/// Law: a request for a display with a window changes that display as its command
/// says, or is answered with the error that its command has.
pub proof fn law_requests_reach_their_display(
    client: ClientModel,
    request: DisplayRequest,
    command_index: u32,
)
    requires
        0 <= request.display,
        client.session.windows.windows.contains_key(request.display as u64),
    ensures
        ({
            let display = DisplayId(request.display as u64);
            let (buffers, outcome) = normalized(client.buffers, display, request);
            let (after, payloads) = client.request(request, command_index);
            &&& after.buffers == buffers
            &&& outcome matches Err(code) ==> {
                &&& payloads == seq![error_payload(command_index, code)]
                &&& after.session == client.session
                &&& after.sink == client.sink
            }
            &&& outcome matches Ok(command) ==> after.session == client.session.command(command).0
        }),
{
}

} // verus!
