//! Composer state of one display with one client target.
//!
//! The presentation transport outside decides whether a submission, a release
//! or an acknowledgement is accepted. Operations that depend on it take its
//! outcome as an argument and read it only where they would make the call.

use std::collections::BTreeMap;

use vstd::prelude::*;

use super::{
    ClientTarget, ComposerError, Composition, CompositionChange, DisplayId, LayerId, LayerState,
    PowerMode, PresentResult, ValidationResult, VsyncSample,
};
use crate::ordered::{in_order, lemma_in_order_lists, lists, ordered_keys};
use crate::transport::{
    AcceptedFrame, BufferId, Configure, FormatModifier, FrameId, ReleasedFrame, TransportError,
};

verus! {

broadcast use vstd::laws_cmp::group_laws_cmp;

/// Nanoseconds per period at one millihertz.
pub const NANOS_PER_MILLIHZ: u64 = 1_000_000_000_000;

/// Model of a [`Composer`].
#[verifier::ext_equal]
pub struct ComposerModel {
    pub display: DisplayId,
    pub layers: Map<u64, LayerState>,
    pub generation: u64,
    pub validated_generation: Option<u64>,
    pub changes_accepted: bool,
    pub client_target: Option<ClientTarget>,
    pub feedback: Seq<FormatModifier>,
    pub configure: Option<Configure>,
    pub in_flight: Map<u64, BufferId>,
    pub power_mode: PowerMode,
    pub vsync_enabled: bool,
    pub last_presentation_nanos: Option<u64>,
}

/// Corrections of the listed layers that do not ask for client composition.
pub open spec fn corrections(layers: Map<u64, LayerState>, keys: Seq<u64>) -> Seq<
    CompositionChange,
>
    decreases keys.len(),
{
    if keys.len() == 0 {
        Seq::empty()
    } else {
        let earlier = corrections(layers, keys.drop_last());
        let layer = layers[keys.last()];
        if layer.requested_composition == Composition::Client {
            earlier
        } else {
            earlier.push(CompositionChange { layer: layer.id, composition: Composition::Client })
        }
    }
}

/// First of the listed layers that is protected.
pub open spec fn first_protected(layers: Map<u64, LayerState>, keys: Seq<u64>) -> Option<LayerId>
    decreases keys.len(),
{
    if keys.len() == 0 {
        None
    } else {
        let earlier = first_protected(layers, keys.drop_last());
        let layer = layers[keys.last()];
        if earlier is Some {
            earlier
        } else if layer.protected_content {
            Some(layer.id)
        } else {
            None
        }
    }
}

/// The layer with client composition.
pub open spec fn as_client(layer: LayerState) -> LayerState {
    LayerState { requested_composition: Composition::Client, ..layer }
}

/// Next generation; the counter stays at its end.
pub open spec fn next_generation(generation: u64) -> u64 {
    if generation == u64::MAX {
        generation
    } else {
        (generation + 1) as u64
    }
}

impl ComposerModel {
    /// The invariant of every reachable state: layers stand under their own
    /// identity; a validation is one of the current generation; changes are
    /// accepted only on top of a validation; a display that is not on delivers
    /// no vertical sync.
    pub open spec fn wf(self) -> bool {
        &&& self.layers.dom().finite()
        &&& self.in_flight.dom().finite()
        &&& forall|key: u64| #[trigger]
            self.layers.contains_key(key) ==> self.layers[key].id.0 == key
        &&& self.validated_generation is Some ==> self.validated_generation->0 == self.generation
        &&& self.changes_accepted ==> self.validated_generation is Some
        &&& self.vsync_enabled ==> self.power_mode == PowerMode::On
        &&& self.power_mode == PowerMode::On || self.power_mode == PowerMode::Off
    }

    /// State of a new display.
    pub open spec fn fresh(display: DisplayId) -> ComposerModel {
        ComposerModel {
            display,
            layers: Map::empty(),
            generation: 0,
            validated_generation: None,
            changes_accepted: false,
            client_target: None,
            feedback: Seq::empty(),
            configure: None,
            in_flight: Map::empty(),
            power_mode: PowerMode::Off,
            vsync_enabled: false,
            last_presentation_nanos: None,
        }
    }

    /// Commands must name this display.
    pub open spec fn display_error(self, display: DisplayId) -> Option<ComposerError> {
        if display == self.display {
            None
        } else {
            Some(ComposerError::UnknownDisplay { expected: self.display, actual: display })
        }
    }

    /// Commands must follow a validation of the current generation.
    pub open spec fn validation_error(self, display: DisplayId) -> Option<ComposerError> {
        if self.display_error(display) is Some {
            self.display_error(display)
        } else if self.validated_generation is Some {
            None
        } else {
            Some(ComposerError::NotValidated)
        }
    }

    /// State after a layer change: the next generation is not validated.
    pub open spec fn invalidated(self) -> ComposerModel {
        ComposerModel {
            generation: next_generation(self.generation),
            validated_generation: None,
            changes_accepted: false,
            ..self
        }
    }

    /// State with one layer created or replaced.
    pub open spec fn with_layer(self, layer: LayerState) -> ComposerModel {
        ComposerModel { layers: self.layers.insert(layer.id.0, layer), ..self }.invalidated()
    }

    /// State without one layer.
    pub open spec fn without_layer(self, layer: LayerId) -> ComposerModel {
        ComposerModel { layers: self.layers.remove(layer.0), ..self }.invalidated()
    }

    /// First reason to refuse a new layer.
    pub open spec fn create_error(self, display: DisplayId, layer: LayerId) -> Option<
        ComposerError,
    > {
        if self.display_error(display) is Some {
            self.display_error(display)
        } else if self.layers.contains_key(layer.0) {
            Some(ComposerError::DuplicateLayer(layer))
        } else {
            None
        }
    }

    /// First reason to refuse an operation on a layer.
    pub open spec fn layer_error(self, display: DisplayId, layer: LayerId) -> Option<
        ComposerError,
    > {
        if self.display_error(display) is Some {
            self.display_error(display)
        } else if !self.layers.contains_key(layer.0) {
            Some(ComposerError::UnknownLayer(layer))
        } else {
            None
        }
    }

    /// State after an update of a known layer: the same state changes nothing.
    pub open spec fn updated(self, layer: LayerState) -> ComposerModel {
        if self.layers[layer.id.0] == layer {
            self
        } else {
            self.with_layer(layer)
        }
    }

    /// First reason to refuse a validation.
    pub open spec fn validate_error(self, display: DisplayId) -> Option<ComposerError> {
        if self.display_error(display) is Some {
            self.display_error(display)
        } else {
            match first_protected(self.layers, in_order(self.layers.dom())) {
                Some(layer) => Some(ComposerError::ProtectedContent(layer)),
                None => None,
            }
        }
    }

    /// Corrections that a validation returns.
    pub open spec fn changes(self) -> Seq<CompositionChange> {
        corrections(self.layers, in_order(self.layers.dom()))
    }

    /// State after a validation.
    pub open spec fn validated(self) -> ComposerModel {
        ComposerModel {
            validated_generation: Some(self.generation),
            changes_accepted: self.changes().len() == 0,
            ..self
        }
    }

    /// First reason to refuse to accept changes.
    pub open spec fn accept_error(self, display: DisplayId) -> Option<ComposerError> {
        if self.validation_error(display) is Some {
            self.validation_error(display)
        } else if self.power_mode != PowerMode::On {
            Some(ComposerError::DisplayOff)
        } else {
            None
        }
    }

    /// State after the changes were accepted.
    pub open spec fn accepted(self) -> ComposerModel {
        ComposerModel {
            layers: self.layers.map_values(|layer: LayerState| as_client(layer)),
            changes_accepted: true,
            ..self
        }
    }

    /// First reason not to submit the client target.
    pub open spec fn present_error(self, display: DisplayId) -> Option<ComposerError> {
        if self.validation_error(display) is Some {
            self.validation_error(display)
        } else if !self.changes_accepted {
            Some(ComposerError::ChangesNotAccepted)
        } else if self.client_target is None {
            Some(ComposerError::MissingClientTarget)
        } else {
            None
        }
    }

    /// State after the transport answered a submission of the client target.
    pub open spec fn presented(self, outcome: Result<AcceptedFrame, TransportError>) -> ComposerModel {
        let submitted = ComposerModel { client_target: None, ..self };
        match outcome {
            Ok(frame) => ComposerModel {
                validated_generation: None,
                changes_accepted: false,
                ..submitted.with_frame(frame)
            },
            Err(_) => submitted,
        }
    }

    /// State with one more frame in flight.
    pub open spec fn with_frame(self, frame: AcceptedFrame) -> ComposerModel {
        ComposerModel {
            in_flight: self.in_flight.insert(frame.frame_id.0, frame.buffer.id),
            ..self
        }
    }

    /// State with one frame less in flight.
    pub open spec fn without_frame(self, frame: FrameId) -> ComposerModel {
        ComposerModel { in_flight: self.in_flight.remove(frame.0), ..self }
    }

    /// First reason to refuse a direct present.
    pub open spec fn direct_error(self, display: DisplayId) -> Option<ComposerError> {
        if self.validation_error(display) is Some {
            self.validation_error(display)
        } else if !self.changes_accepted {
            Some(ComposerError::ChangesNotAccepted)
        } else if self.power_mode != PowerMode::On {
            Some(ComposerError::DisplayOff)
        } else {
            None
        }
    }

    /// State after a direct present: the validation is used up.
    pub open spec fn presented_direct(self) -> ComposerModel {
        ComposerModel { validated_generation: None, changes_accepted: false, ..self }
    }

    /// First reason not to submit a rendered target.
    pub open spec fn submit_error(self, display: DisplayId) -> Option<ComposerError> {
        if self.display_error(display) is Some {
            self.display_error(display)
        } else if self.power_mode != PowerMode::On {
            Some(ComposerError::DisplayOff)
        } else {
            None
        }
    }

    /// First reason to refuse a power mode.
    pub open spec fn power_error(self, display: DisplayId, mode: PowerMode) -> Option<
        ComposerError,
    > {
        if self.display_error(display) is Some {
            self.display_error(display)
        } else if mode == PowerMode::Doze || mode == PowerMode::DozeSuspend {
            Some(ComposerError::UnsupportedPowerMode(mode))
        } else {
            None
        }
    }

    /// State in a power mode: turning off stops vertical sync.
    pub open spec fn powered(self, mode: PowerMode) -> ComposerModel {
        ComposerModel {
            power_mode: mode,
            vsync_enabled: self.vsync_enabled && mode != PowerMode::Off,
            ..self
        }
    }

    /// First reason to refuse to switch vertical sync.
    pub open spec fn vsync_error(self, display: DisplayId, enabled: bool) -> Option<
        ComposerError,
    > {
        if self.display_error(display) is Some {
            self.display_error(display)
        } else if enabled && self.power_mode != PowerMode::On {
            Some(ComposerError::DisplayOff)
        } else {
            None
        }
    }

    /// Refresh rate of the latest configure, or zero before any.
    pub open spec fn refresh_millihz(self) -> u32 {
        match self.configure {
            Some(configure) => configure.refresh_millihz,
            None => 0,
        }
    }

    /// Callback for a presentation at `timestamp_nanos`.
    pub open spec fn sample(self, timestamp_nanos: u64) -> Result<
        Option<VsyncSample>,
        ComposerError,
    > {
        if self.last_presentation_nanos is Some && timestamp_nanos
            < self.last_presentation_nanos->0 {
            Err(
                ComposerError::NonMonotonicPresentation {
                    previous: self.last_presentation_nanos->0,
                    actual: timestamp_nanos,
                },
            )
        } else if self.last_presentation_nanos == Some(timestamp_nanos) {
            Ok(None)
        } else if self.power_mode != PowerMode::On || !self.vsync_enabled {
            Ok(None)
        } else if self.refresh_millihz() == 0 {
            Err(ComposerError::MissingRefreshRate)
        } else {
            Ok(
                Some(
                    VsyncSample {
                        display: self.display,
                        timestamp_nanos,
                        period_nanos: (NANOS_PER_MILLIHZ / self.refresh_millihz() as u64) as u64,
                    },
                ),
            )
        }
    }

    /// State after a presentation at `timestamp_nanos`.
    pub open spec fn sampled(self, timestamp_nanos: u64) -> ComposerModel {
        if self.last_presentation_nanos is Some && timestamp_nanos
            <= self.last_presentation_nanos->0 {
            self
        } else {
            ComposerModel { last_presentation_nanos: Some(timestamp_nanos), ..self }
        }
    }
}

/// Outcome of an operation that fails with the first error found.
pub open spec fn outcome_of(error: Option<ComposerError>) -> Result<(), ComposerError> {
    match error {
        Some(error) => Err(error),
        None => Ok(()),
    }
}

/// Single-display, single-client-target Composer state.
#[derive(Debug)]
pub struct Composer {
    display: DisplayId,
    layers: BTreeMap<u64, LayerState>,
    generation: u64,
    validated_generation: Option<u64>,
    changes_accepted: bool,
    client_target: Option<ClientTarget>,
    feedback: Vec<FormatModifier>,
    configure: Option<Configure>,
    in_flight: BTreeMap<u64, BufferId>,
    power_mode: PowerMode,
    vsync_enabled: bool,
    last_presentation_nanos: Option<u64>,
}

impl View for Composer {
    type V = ComposerModel;

    closed spec fn view(&self) -> ComposerModel {
        ComposerModel {
            display: self.display,
            layers: self.layers@,
            generation: self.generation,
            validated_generation: self.validated_generation,
            changes_accepted: self.changes_accepted,
            client_target: self.client_target,
            feedback: self.feedback@,
            configure: self.configure,
            in_flight: self.in_flight@,
            power_mode: self.power_mode,
            vsync_enabled: self.vsync_enabled,
            last_presentation_nanos: self.last_presentation_nanos,
        }
    }
}

impl Composer {
    /// Construct one physical display.
    pub fn new(display: DisplayId) -> (composer: Composer)
        ensures
            composer@ == ComposerModel::fresh(display),
            composer@.wf(),
    {
        Composer {
            display,
            layers: BTreeMap::new(),
            generation: 0,
            validated_generation: None,
            changes_accepted: false,
            client_target: None,
            feedback: Vec::new(),
            configure: None,
            in_flight: BTreeMap::new(),
            power_mode: PowerMode::Off,
            vsync_enabled: false,
            last_presentation_nanos: None,
        }
    }

    /// Display that this Composer owns.
    pub fn display(&self) -> (display: DisplayId)
        ensures
            display == self@.display,
    {
        self.display
    }

    /// Replace format/modifier feedback received from Denial.
    pub fn replace_feedback(&mut self, formats: Vec<FormatModifier>)
        requires
            old(self)@.wf(),
        ensures
            final(self)@.wf(),
            final(self)@ == (ComposerModel { feedback: formats@, ..old(self)@ }),
    {
        self.feedback = formats;
    }

    /// Latest format/modifier feedback.
    pub fn feedback(&self) -> (formats: &Vec<FormatModifier>)
        ensures
            formats@ == self@.feedback,
    {
        &self.feedback
    }

    /// Record the latest Denial configure.
    pub fn configure(&mut self, configure: Configure)
        requires
            old(self)@.wf(),
        ensures
            final(self)@.wf(),
            final(self)@ == (ComposerModel { configure: Some(configure), ..old(self)@ }),
    {
        self.configure = Some(configure);
    }

    /// Return the latest host-authoritative size and refresh configuration.
    pub fn latest_configure(&self) -> (configure: Option<Configure>)
        ensures
            configure == self@.configure,
    {
        self.configure
    }

    /// Apply Android display power without transferring host power authority.
    /// Doze modes are refused.
    pub fn set_power_mode(&mut self, display: DisplayId, mode: PowerMode) -> (result: Result<
        (),
        ComposerError,
    >)
        requires
            old(self)@.wf(),
        ensures
            final(self)@.wf(),
            result == outcome_of(old(self)@.power_error(display, mode)),
            final(self)@ == (if result is Ok {
                old(self)@.powered(mode)
            } else {
                old(self)@
            }),
    {
        self.require_display(display)?;
        match mode {
            PowerMode::Off => {
                self.power_mode = mode;
                self.vsync_enabled = false;
                Ok(())
            },
            PowerMode::On => {
                self.power_mode = mode;
                Ok(())
            },
            PowerMode::Doze | PowerMode::DozeSuspend => {
                Err(ComposerError::UnsupportedPowerMode(mode))
            },
        }
    }

    /// Enable or disable vertical-sync callback delivery. Enabling while
    /// powered off is rejected.
    pub fn set_vsync_enabled(&mut self, display: DisplayId, enabled: bool) -> (result: Result<
        (),
        ComposerError,
    >)
        requires
            old(self)@.wf(),
        ensures
            final(self)@.wf(),
            result == outcome_of(old(self)@.vsync_error(display, enabled)),
            final(self)@ == (if result is Ok {
                ComposerModel { vsync_enabled: enabled, ..old(self)@ }
            } else {
                old(self)@
            }),
    {
        self.require_display(display)?;
        if enabled && self.power_mode != PowerMode::On {
            return Err(ComposerError::DisplayOff);
        }
        self.vsync_enabled = enabled;
        Ok(())
    }

    /// Translate one Denial presentation timestamp into an optional callback.
    ///
    /// Multiple commits may be co-presented on one host refresh; an equal
    /// timestamp is a valid duplicate sample and produces no callback.
    pub fn presentation_sample(&mut self, timestamp_nanos: u64) -> (result: Result<
        Option<VsyncSample>,
        ComposerError,
    >)
        requires
            old(self)@.wf(),
        ensures
            final(self)@.wf(),
            result == old(self)@.sample(timestamp_nanos),
            final(self)@ == old(self)@.sampled(timestamp_nanos),
    {
        if let Some(previous) = self.last_presentation_nanos {
            if timestamp_nanos < previous {
                return Err(
                    ComposerError::NonMonotonicPresentation { previous, actual: timestamp_nanos },
                );
            }
            if timestamp_nanos == previous {
                return Ok(None);
            }
        }
        self.last_presentation_nanos = Some(timestamp_nanos);
        if self.power_mode != PowerMode::On || !self.vsync_enabled {
            return Ok(None);
        }
        let refresh_millihz: u32 = match self.configure {
            Some(configure) => configure.refresh_millihz,
            None => 0,
        };
        if refresh_millihz == 0 {
            return Err(ComposerError::MissingRefreshRate);
        }
        Ok(
            Some(
                VsyncSample {
                    display: self.display,
                    timestamp_nanos,
                    period_nanos: NANOS_PER_MILLIHZ / refresh_millihz as u64,
                },
            ),
        )
    }

    /// Report how the transport answered the acknowledgement of a configure
    /// serial.
    pub fn acknowledge_configure(
        &mut self,
        serial: u32,
        outcome: Result<(), TransportError>,
    ) -> (result: Result<(), ComposerError>)
        ensures
            result == (match outcome {
                Ok(_) => Ok(()),
                Err(error) => Err(ComposerError::Transport(error)),
            }),
            final(self)@ == old(self)@,
    {
        match outcome {
            Ok(_) => Ok(()),
            Err(error) => Err(ComposerError::Transport(error)),
        }
    }

    /// Create one Surface Flinger layer.
    pub fn create_layer(&mut self, display: DisplayId, layer: LayerState) -> (result: Result<
        (),
        ComposerError,
    >)
        requires
            old(self)@.wf(),
        ensures
            final(self)@.wf(),
            result == outcome_of(old(self)@.create_error(display, layer.id)),
            final(self)@ == (if result is Ok {
                old(self)@.with_layer(layer)
            } else {
                old(self)@
            }),
    {
        self.require_display(display)?;
        if self.layers.contains_key(&layer.id.0) {
            return Err(ComposerError::DuplicateLayer(layer.id));
        }
        self.layers.insert(layer.id.0, layer);
        self.invalidate();
        Ok(())
    }

    /// Update the bounded state of an existing layer.
    pub fn update_layer(&mut self, display: DisplayId, layer: LayerState) -> (result: Result<
        (),
        ComposerError,
    >)
        requires
            old(self)@.wf(),
        ensures
            final(self)@.wf(),
            result == outcome_of(old(self)@.layer_error(display, layer.id)),
            final(self)@ == (if result is Ok {
                old(self)@.updated(layer)
            } else {
                old(self)@
            }),
    {
        self.require_display(display)?;
        let existing: LayerState = match self.layers.get(&layer.id.0) {
            Some(existing) => *existing,
            None => {
                return Err(ComposerError::UnknownLayer(layer.id));
            },
        };
        if existing != layer {
            self.layers.insert(layer.id.0, layer);
            self.invalidate();
        }
        Ok(())
    }

    /// Read the current bounded state of one layer for an HWC3 patch command.
    pub fn layer_state(&self, display: DisplayId, layer: LayerId) -> (result: Result<
        LayerState,
        ComposerError,
    >)
        ensures
            result == (match self@.layer_error(display, layer) {
                Some(error) => Err(error),
                None => Ok(self@.layers[layer.0]),
            }),
    {
        self.require_display(display)?;
        match self.layers.get(&layer.0) {
            Some(state) => Ok(*state),
            None => Err(ComposerError::UnknownLayer(layer)),
        }
    }

    /// Destroy one layer.
    pub fn destroy_layer(&mut self, display: DisplayId, layer: LayerId) -> (result: Result<
        (),
        ComposerError,
    >)
        requires
            old(self)@.wf(),
        ensures
            final(self)@.wf(),
            result == outcome_of(old(self)@.layer_error(display, layer)),
            final(self)@ == (if result is Ok {
                old(self)@.without_layer(layer)
            } else {
                old(self)@
            }),
    {
        self.require_display(display)?;
        if !self.layers.contains_key(&layer.0) {
            return Err(ComposerError::UnknownLayer(layer));
        }
        self.layers.remove(&layer.0);
        self.invalidate();
        Ok(())
    }

    /// Validate the current layer generation.
    ///
    /// Supported unprotected layers are corrected to CLIENT composition so
    /// `SurfaceFlinger` produces the complete built-in-display image. Protected
    /// content fails closed.
    pub fn validate_display(&mut self, display: DisplayId) -> (result: Result<
        ValidationResult,
        ComposerError,
    >)
        requires
            old(self)@.wf(),
        ensures
            final(self)@.wf(),
            match result {
                Ok(validation) => {
                    &&& old(self)@.validate_error(display) is None
                    &&& validation.composition_changes@ == old(self)@.changes()
                    &&& final(self)@ == old(self)@.validated()
                },
                Err(error) => {
                    &&& old(self)@.validate_error(display) == Some(error)
                    &&& final(self)@ == old(self)@
                },
            },
    {
        self.require_display(display)?;
        let keys = ordered_keys(&self.layers);
        let mut protected: Option<LayerId> = None;
        let mut composition_changes: Vec<CompositionChange> = Vec::new();
        let mut index: usize = 0;
        while index < keys.len()
            invariant
                index <= keys@.len(),
                lists(keys@, self@.layers.dom()),
                self@.layers == self.layers@,
                protected == first_protected(self@.layers, keys@.take(index as int)),
                composition_changes@ == corrections(self@.layers, keys@.take(index as int)),
            decreases keys@.len() - index,
        {
            let key: u64 = keys[index];
            proof {
                assert(keys@.contains(key));
                assert(self@.layers.dom().contains(key));
                assert(keys@.take(index + 1).drop_last() =~= keys@.take(index as int));
            }
            if let Some(layer) = self.layers.get(&key) {
                if protected.is_none() && layer.protected_content {
                    protected = Some(layer.id);
                }
                if layer.requested_composition != Composition::Client {
                    composition_changes.push(
                        CompositionChange { layer: layer.id, composition: Composition::Client },
                    );
                }
            }
            index = index + 1;
        }
        assert(keys@.take(index as int) =~= keys@);
        if let Some(layer) = protected {
            return Err(ComposerError::ProtectedContent(layer));
        }
        self.validated_generation = Some(self.generation);
        self.changes_accepted = composition_changes.len() == 0;
        Ok(ValidationResult { composition_changes })
    }

    /// Accept the corrections from the latest validateDisplay call.
    pub fn accept_display_changes(&mut self, display: DisplayId) -> (result: Result<
        (),
        ComposerError,
    >)
        requires
            old(self)@.wf(),
        ensures
            final(self)@.wf(),
            result == outcome_of(old(self)@.accept_error(display)),
            final(self)@ == (if result is Ok {
                old(self)@.accepted()
            } else {
                old(self)@
            }),
    {
        self.require_current_validation(display)?;
        if self.power_mode != PowerMode::On {
            return Err(ComposerError::DisplayOff);
        }
        let keys = ordered_keys(&self.layers);
        let ghost before = self.layers@;
        let mut index: usize = 0;
        while index < keys.len()
            invariant
                index <= keys@.len(),
                lists(keys@, before.dom()),
                self.layers@.dom() == before.dom(),
                forall|i: int|
                    0 <= i < index ==> self.layers@[#[trigger] keys@[i]] == as_client(
                        before[keys@[i]],
                    ),
                forall|i: int|
                    index <= i < keys@.len() ==> self.layers@[#[trigger] keys@[i]]
                        == before[keys@[i]],
                *self == (Composer { layers: self.layers, ..*old(self) }),
            decreases keys@.len() - index,
        {
            let key: u64 = keys[index];
            proof {
                assert(keys@.contains(key));
                assert(before.dom().contains(key));
            }
            let known = match self.layers.get(&key) {
                Some(layer) => Some(*layer),
                None => None,
            };
            if let Some(layer) = known {
                let mut accepted = layer;
                accepted.requested_composition = Composition::Client;
                self.layers.insert(key, accepted);
            }
            assert(self.layers@.dom() =~= before.dom());
            index = index + 1;
        }
        self.changes_accepted = true;
        proof {
            let expected = before.map_values(|layer: LayerState| as_client(layer));
            assert forall|key: u64| #[trigger] self.layers@.contains_key(key) implies self.layers@[key]
                == expected[key] by {
                assert(before.dom().contains(key));
                assert(keys@.contains(key));
            }
            assert(self.layers@ =~= expected);
        }
        Ok(())
    }

    /// Supply the Denial-owned target selected for Droidloom composition.
    ///
    /// The platform adapter retains descriptor ownership until present.
    pub fn set_client_target(&mut self, display: DisplayId, target: ClientTarget) -> (result: Result<
        (),
        ComposerError,
    >)
        requires
            old(self)@.wf(),
        ensures
            final(self)@.wf(),
            result == outcome_of(old(self)@.display_error(display)),
            final(self)@ == (if result is Ok {
                ComposerModel { client_target: Some(target), ..old(self)@ }
            } else {
                old(self)@
            }),
    {
        self.require_display(display)?;
        self.client_target = Some(target);
        Ok(())
    }

    /// Target that [`Self::present_display`] submits to the transport, or the
    /// reason not to submit one.
    pub fn present_request(&self, display: DisplayId) -> (result: Result<
        &ClientTarget,
        ComposerError,
    >)
        requires
            self@.wf(),
        ensures
            match result {
                Ok(target) => {
                    &&& self@.present_error(display) is None
                    &&& self@.client_target == Some(*target)
                },
                Err(error) => self@.present_error(display) == Some(error),
            },
    {
        self.require_current_validation(display)?;
        if !self.changes_accepted {
            return Err(ComposerError::ChangesNotAccepted);
        }
        match self.client_target.as_ref() {
            Some(target) => Ok(target),
            None => Err(ComposerError::MissingClientTarget),
        }
    }

    /// Present the validated, Droidloom-composited target to Denial.
    ///
    /// `outcome` is how the transport answers the submission of the target of
    /// [`Self::present_request`]; without such a target it is not read.
    pub fn present_display(
        &mut self,
        display: DisplayId,
        outcome: Result<AcceptedFrame, TransportError>,
    ) -> (result: Result<PresentResult, ComposerError>)
        requires
            old(self)@.wf(),
        ensures
            final(self)@.wf(),
            match old(self)@.present_error(display) {
                Some(error) => {
                    &&& result == Err::<PresentResult, ComposerError>(error)
                    &&& final(self)@ == old(self)@
                },
                None => {
                    &&& final(self)@ == old(self)@.presented(outcome)
                    &&& result == (match outcome {
                        Ok(frame) => Ok(PresentResult { frame, requires_present_fence: true }),
                        Err(error) => Err(ComposerError::Transport(error)),
                    })
                },
            },
    {
        self.require_current_validation(display)?;
        if !self.changes_accepted {
            return Err(ComposerError::ChangesNotAccepted);
        }
        if self.client_target.is_none() {
            return Err(ComposerError::MissingClientTarget);
        }
        self.client_target = None;
        let frame = match outcome {
            Ok(frame) => frame,
            Err(error) => {
                return Err(ComposerError::Transport(error));
            },
        };
        self.in_flight.insert(frame.frame_id.0, frame.buffer.id);
        self.validated_generation = None;
        self.changes_accepted = false;
        Ok(PresentResult { frame, requires_present_fence: true })
    }

    /// Complete HWC presentation after `SurfaceFlinger`'s direct render-surface
    /// bridge already submitted the final display target to Denial.
    pub fn present_display_direct(&mut self, display: DisplayId) -> (result: Result<
        (),
        ComposerError,
    >)
        requires
            old(self)@.wf(),
        ensures
            final(self)@.wf(),
            result == outcome_of(old(self)@.direct_error(display)),
            final(self)@ == (if result is Ok {
                old(self)@.presented_direct()
            } else {
                old(self)@
            }),
    {
        self.require_current_validation(display)?;
        if !self.changes_accepted {
            return Err(ComposerError::ChangesNotAccepted);
        }
        if self.power_mode != PowerMode::On {
            return Err(ComposerError::DisplayOff);
        }
        self.validated_generation = None;
        self.changes_accepted = false;
        Ok(())
    }

    /// Whether a rendered target may be submitted to the transport.
    pub fn submit_request(&self, display: DisplayId) -> (result: Result<(), ComposerError>)
        ensures
            result == outcome_of(self@.submit_error(display)),
    {
        self.require_display(display)?;
        if self.power_mode != PowerMode::On {
            return Err(ComposerError::DisplayOff);
        }
        Ok(())
    }

    /// Submit a complete display image rendered by `SurfaceFlinger` directly
    /// into a Denial-owned target.
    ///
    /// `outcome` is how the transport answers the submission of the target; it
    /// is not read where [`Self::submit_request`] fails.
    pub fn submit_rendered_target(
        &mut self,
        display: DisplayId,
        outcome: Result<AcceptedFrame, TransportError>,
    ) -> (result: Result<AcceptedFrame, ComposerError>)
        requires
            old(self)@.wf(),
        ensures
            final(self)@.wf(),
            match (old(self)@.submit_error(display), outcome) {
                (Some(error), _) => {
                    &&& result == Err::<AcceptedFrame, ComposerError>(error)
                    &&& final(self)@ == old(self)@
                },
                (None, Ok(frame)) => {
                    &&& result == Ok::<AcceptedFrame, ComposerError>(frame)
                    &&& final(self)@ == old(self)@.with_frame(frame)
                },
                (None, Err(error)) => {
                    &&& result == Err::<AcceptedFrame, ComposerError>(
                        ComposerError::Transport(error),
                    )
                    &&& final(self)@ == old(self)@
                },
            },
    {
        self.submit_request(display)?;
        match outcome {
            Ok(frame) => {
                self.in_flight.insert(frame.frame_id.0, frame.buffer.id);
                Ok(frame)
            },
            Err(error) => Err(ComposerError::Transport(error)),
        }
    }

    /// Retire a presented target after the transport answered its release.
    pub fn release_presented_target(
        &mut self,
        frame: FrameId,
        outcome: Result<ReleasedFrame, TransportError>,
    ) -> (result: Result<ReleasedFrame, ComposerError>)
        requires
            old(self)@.wf(),
        ensures
            final(self)@.wf(),
            match outcome {
                Ok(released) => {
                    &&& result == Ok::<ReleasedFrame, ComposerError>(released)
                    &&& final(self)@ == old(self)@.without_frame(frame)
                },
                Err(error) => {
                    &&& result == Err::<ReleasedFrame, ComposerError>(
                        ComposerError::Transport(error),
                    )
                    &&& final(self)@ == old(self)@
                },
            },
    {
        match outcome {
            Ok(released) => {
                self.in_flight.remove(&frame.0);
                Ok(released)
            },
            Err(error) => Err(ComposerError::Transport(error)),
        }
    }

    /// Roll back a client target that failed before Denial accepted `Present`,
    /// after the transport answered the rollback.
    pub fn cancel_unsubmitted_target(
        &mut self,
        frame: FrameId,
        outcome: Result<BufferId, TransportError>,
    ) -> (result: Result<BufferId, ComposerError>)
        requires
            old(self)@.wf(),
        ensures
            final(self)@.wf(),
            match outcome {
                Ok(buffer) => {
                    &&& result == Ok::<BufferId, ComposerError>(buffer)
                    &&& final(self)@ == old(self)@.without_frame(frame)
                },
                Err(error) => {
                    &&& result == Err::<BufferId, ComposerError>(ComposerError::Transport(error))
                    &&& final(self)@ == old(self)@
                },
            },
    {
        match outcome {
            Ok(buffer) => {
                self.in_flight.remove(&frame.0);
                Ok(buffer)
            },
            Err(error) => Err(ComposerError::Transport(error)),
        }
    }

    /// Number of client targets still owned by Denial.
    pub fn in_flight_count(&self) -> (count: usize)
        ensures
            count == self@.in_flight.len(),
    {
        self.in_flight.len()
    }

    /// Return the buffer currently owned by an in-flight frame.
    pub fn in_flight_buffer(&self, frame: FrameId) -> (buffer: Option<BufferId>)
        ensures
            buffer == (if self@.in_flight.contains_key(frame.0) {
                Some(self@.in_flight[frame.0])
            } else {
                None
            }),
    {
        match self.in_flight.get(&frame.0) {
            Some(buffer) => Some(*buffer),
            None => None,
        }
    }

    fn require_display(&self, display: DisplayId) -> (result: Result<(), ComposerError>)
        ensures
            result == outcome_of(self@.display_error(display)),
    {
        if display == self.display {
            Ok(())
        } else {
            Err(ComposerError::UnknownDisplay { expected: self.display, actual: display })
        }
    }

    fn require_current_validation(&self, display: DisplayId) -> (result: Result<(), ComposerError>)
        requires
            self@.wf(),
        ensures
            result == outcome_of(self@.validation_error(display)),
    {
        self.require_display(display)?;
        let current: bool = match self.validated_generation {
            Some(generation) => generation == self.generation,
            None => false,
        };
        if current {
            Ok(())
        } else {
            Err(ComposerError::NotValidated)
        }
    }

    fn invalidate(&mut self)
        ensures
            final(self)@ == old(self)@.invalidated(),
    {
        if self.generation < u64::MAX {
            self.generation = self.generation + 1;
        }
        self.validated_generation = None;
        self.changes_accepted = false;
    }
}

proof fn lemma_first_protected(layers: Map<u64, LayerState>, keys: Seq<u64>)
    ensures
        first_protected(layers, keys) is None <==> forall|i: int|
            0 <= i < keys.len() ==> !layers[#[trigger] keys[i]].protected_content,
        first_protected(layers, keys) is Some ==> exists|i: int|
            0 <= i < keys.len() && layers[#[trigger] keys[i]].protected_content
                && first_protected(layers, keys) == Some(layers[keys[i]].id) && forall|j: int|
                0 <= j < i ==> !layers[#[trigger] keys[j]].protected_content,
    decreases keys.len(),
{
    if keys.len() > 0 {
        let rest = keys.drop_last();
        lemma_first_protected(layers, rest);
        assert(forall|i: int| 0 <= i < rest.len() ==> rest[i] == keys[i]);
        if first_protected(layers, rest) is Some {
            let i = choose|i: int|
                0 <= i < rest.len() && layers[#[trigger] rest[i]].protected_content
                    && first_protected(layers, rest) == Some(layers[rest[i]].id) && forall|j: int|
                    0 <= j < i ==> !layers[#[trigger] rest[j]].protected_content;
            assert(layers[keys[i]].protected_content);
        } else {
            let last = keys.len() - 1;
            assert forall|i: int| 0 <= i < last implies !layers[#[trigger] keys[i]].protected_content by {
                assert(!layers[rest[i]].protected_content);
            }
            if layers[keys.last()].protected_content {
                assert(layers[keys[last]].protected_content);
            }
        }
    }
}

proof fn lemma_corrections(layers: Map<u64, LayerState>, keys: Seq<u64>, change: CompositionChange)
    ensures
        corrections(layers, keys).contains(change) <==> (change.composition == Composition::Client
            && exists|i: int|
            0 <= i < keys.len() && layers[#[trigger] keys[i]].id == change.layer
                && layers[keys[i]].requested_composition != Composition::Client),
    decreases keys.len(),
{
    if keys.len() > 0 {
        let rest = keys.drop_last();
        let earlier = corrections(layers, rest);
        let all = corrections(layers, keys);
        lemma_corrections(layers, rest, change);
        if earlier.contains(change) {
            let k = choose|k: int| 0 <= k < earlier.len() && earlier[k] == change;
            assert(all[k] == change);
            let i = choose|i: int|
                0 <= i < rest.len() && layers[#[trigger] rest[i]].id == change.layer
                    && layers[rest[i]].requested_composition != Composition::Client;
            assert(layers[keys[i]].id == change.layer);
        }
        if all.contains(change) && !earlier.contains(change) {
            let k = choose|k: int| 0 <= k < all.len() && all[k] == change;
            if k < earlier.len() {
                assert(earlier[k] == change);
            }
            assert(layers[keys[keys.len() - 1]].id == change.layer);
        }
        if change.composition == Composition::Client && exists|i: int|
            0 <= i < keys.len() && layers[#[trigger] keys[i]].id == change.layer
                && layers[keys[i]].requested_composition != Composition::Client {
            let i = choose|i: int|
                0 <= i < keys.len() && layers[#[trigger] keys[i]].id == change.layer
                    && layers[keys[i]].requested_composition != Composition::Client;
            if i < rest.len() {
                assert(layers[rest[i]].id == change.layer);
            } else {
                assert(all[earlier.len() as int] == change);
            }
        }
    }
}

/// Protected content fails closed: a display validates if and only if none of
/// its layers is protected.
pub proof fn law_protected_content_fails_closed(model: ComposerModel)
    requires
        model.wf(),
    ensures
        model.validate_error(model.display) is None <==> forall|key: u64| #[trigger]
            model.layers.contains_key(key) ==> !model.layers[key].protected_content,
{
    let keys = in_order(model.layers.dom());
    lemma_in_order_lists(model.layers.dom());
    lemma_first_protected(model.layers, keys);
    if model.validate_error(model.display) is None {
        assert forall|key: u64| #[trigger]
            model.layers.contains_key(key) implies !model.layers[key].protected_content by {
            assert(model.layers.dom().contains(key));
            let i = choose|i: int| 0 <= i < keys.len() && keys[i] == key;
            assert(!model.layers[keys[i]].protected_content);
        }
    } else {
        let i = choose|i: int|
            0 <= i < keys.len() && model.layers[#[trigger] keys[i]].protected_content;
        assert(keys.contains(keys[i]));
        assert(model.layers.dom().contains(keys[i]));
        assert(model.layers.contains_key(keys[i]));
    }
}

/// A validation corrects exactly the layers that ask for anything but client
/// composition, and corrects them to client composition.
pub proof fn law_validation_corrects_every_other_layer(
    model: ComposerModel,
    change: CompositionChange,
)
    requires
        model.wf(),
    ensures
        model.changes().contains(change) <==> (change.composition == Composition::Client
            && model.layers.contains_key(change.layer.0)
            && model.layers[change.layer.0].requested_composition != Composition::Client),
{
    let keys = in_order(model.layers.dom());
    lemma_in_order_lists(model.layers.dom());
    lemma_corrections(model.layers, keys, change);
    if model.changes().contains(change) {
        let i = choose|i: int|
            0 <= i < keys.len() && model.layers[#[trigger] keys[i]].id == change.layer
                && model.layers[keys[i]].requested_composition != Composition::Client;
        assert(keys.contains(keys[i]));
        assert(model.layers.dom().contains(keys[i]));
        assert(model.layers.contains_key(keys[i]));
    }
    if model.layers.contains_key(change.layer.0)
        && model.layers[change.layer.0].requested_composition != Composition::Client {
        assert(model.layers.dom().contains(change.layer.0));
        let i = choose|i: int| 0 <= i < keys.len() && keys[i] == change.layer.0;
        assert(model.layers[keys[i]].id == change.layer);
    }
}

/// Once the changes of a validation are accepted, another validation of the
/// same layers asks for no change.
pub proof fn law_accepted_changes_are_stable(model: ComposerModel)
    requires
        model.wf(),
        model.accept_error(model.display) is None,
    ensures
        model.accepted().wf(),
        model.accepted().changes().len() == 0,
{
    let accepted = model.accepted();
    assert(accepted.layers.dom() =~= model.layers.dom());
    if accepted.changes().len() > 0 {
        law_validation_corrects_every_other_layer(accepted, accepted.changes()[0]);
        assert(accepted.changes().contains(accepted.changes()[0]));
    }
}

/// A display that is on, holds no protected layer and has a client target may
/// present it after a validation and an acceptance, and a present that the
/// transport accepts uses that validation up.
pub proof fn law_present_follows_fresh_validation(
    model: ComposerModel,
    target: ClientTarget,
    frame: AcceptedFrame,
)
    requires
        model.wf(),
        model.power_mode == PowerMode::On,
        model.validate_error(model.display) is None,
    ensures
        model.validated().accept_error(model.display) is None,
        ({
            let ready = ComposerModel {
                client_target: Some(target),
                ..model.validated().accepted()
            };
            let after = ready.presented(Ok(frame));
            &&& ready.present_error(model.display) is None
            &&& after.present_error(model.display) == Some(ComposerError::NotValidated)
            &&& after.client_target is None
            &&& after.in_flight == model.in_flight.insert(frame.frame_id.0, frame.buffer.id)
        }),
{
}

/// A change of any layer undoes an earlier validation.
pub proof fn law_layer_change_invalidates(model: ComposerModel, layer: LayerState)
    requires
        model.wf(),
    ensures
        model.layer_error(model.display, layer.id) is None && model.layers[layer.id.0] != layer
            ==> model.updated(layer).present_error(model.display) == Some(
            ComposerError::NotValidated,
        ),
        model.create_error(model.display, layer.id) is None ==> model.with_layer(
            layer,
        ).present_error(model.display) == Some(ComposerError::NotValidated),
        model.layer_error(model.display, layer.id) is None ==> model.without_layer(
            layer.id,
        ).present_error(model.display) == Some(ComposerError::NotValidated),
{
}

/// A frame that is released or rolled back leaves the targets in flight as
/// they were before it was accepted.
pub proof fn law_release_undoes_submission(model: ComposerModel, frame: AcceptedFrame)
    requires
        model.wf(),
        !model.in_flight.contains_key(frame.frame_id.0),
    ensures
        model.with_frame(frame).without_frame(frame.frame_id) == model,
{
    assert(model.with_frame(frame).without_frame(frame.frame_id).in_flight =~= model.in_flight);
}

/// Accepted presentation timestamps never move backwards, and a repeated one
/// brings no second callback.
pub proof fn law_presentation_time_is_monotonic(model: ComposerModel, first: u64, second: u64)
    requires
        model.wf(),
        model.last_presentation_nanos is None || model.last_presentation_nanos->0 <= first,
    ensures
        second < first ==> model.sampled(first).sample(second) == Err::<
            Option<VsyncSample>,
            ComposerError,
        >(ComposerError::NonMonotonicPresentation { previous: first, actual: second }),
        second == first ==> model.sampled(first).sample(second) == Ok::<
            Option<VsyncSample>,
            ComposerError,
        >(None),
        model.sampled(first).last_presentation_nanos == Some(first),
{
}

/// Law: a validation is refused for the protected layer with the lowest
/// identity, and only for one.
pub proof fn law_validation_names_the_lowest_protected_layer(
    model: ComposerModel,
    display: DisplayId,
    key: u64,
)
    requires
        model.wf(),
        model.layers.contains_key(key),
        model.layers[key].protected_content,
    ensures
        display == model.display ==> {
            &&& model.validate_error(display) is Some
            &&& model.validate_error(display)->0 is ProtectedContent
            &&& model.validate_error(display)->0->ProtectedContent_0.0 <= key
        },
{
    let keys = in_order(model.layers.dom());
    crate::ordered::lemma_in_order_lists(model.layers.dom());
    assert(model.layers.dom().contains(key));
    let i = choose|i: int| 0 <= i < keys.len() && keys[i] == key;
    lemma_first_protected_is_earliest(model.layers, keys, i);
    let j = choose|j: int|
        0 <= j <= i && first_protected(model.layers, keys) == Some(
            model.layers[#[trigger] keys[j]].id,
        );
    assert(keys.contains(keys[j]));
    assert(model.layers.dom().contains(keys[j]));
    assert(model.layers.contains_key(keys[j]));
}

proof fn lemma_first_protected_is_earliest(layers: Map<u64, LayerState>, keys: Seq<u64>, i: int)
    requires
        0 <= i < keys.len(),
        layers[keys[i]].protected_content,
    ensures
        exists|j: int|
            0 <= j <= i && first_protected(layers, keys) == Some(layers[#[trigger] keys[j]].id),
    decreases keys.len(),
{
    let rest = keys.drop_last();
    if i < rest.len() {
        assert(rest[i] == keys[i]);
        lemma_first_protected_is_earliest(layers, rest, i);
        let j = choose|j: int|
            0 <= j <= i && first_protected(layers, rest) == Some(layers[#[trigger] rest[j]].id);
        assert(first_protected(layers, keys) == Some(layers[keys[j]].id));
    } else if first_protected(layers, rest) is Some {
        lemma_first_protected_is_listed(layers, rest);
        let j = choose|j: int|
            0 <= j < rest.len() && first_protected(layers, rest) == Some(
                layers[#[trigger] rest[j]].id,
            );
        assert(first_protected(layers, keys) == Some(layers[keys[j]].id));
    } else {
        assert(first_protected(layers, keys) == Some(layers[keys[i]].id));
    }
}

proof fn lemma_first_protected_is_listed(layers: Map<u64, LayerState>, keys: Seq<u64>)
    requires
        first_protected(layers, keys) is Some,
    ensures
        exists|j: int|
            0 <= j < keys.len() && first_protected(layers, keys) == Some(
                layers[#[trigger] keys[j]].id,
            ),
    decreases keys.len(),
{
    let rest = keys.drop_last();
    if first_protected(layers, rest) is Some {
        lemma_first_protected_is_listed(layers, rest);
        let j = choose|j: int|
            0 <= j < rest.len() && first_protected(layers, rest) == Some(
                layers[#[trigger] rest[j]].id,
            );
        assert(first_protected(layers, keys) == Some(layers[keys[j]].id));
    } else {
        assert(first_protected(layers, keys) == Some(layers[keys[keys.len() - 1]].id));
    }
}

/// Law: operations on another display are refused with both names.
pub proof fn law_other_displays_are_refused(model: ComposerModel, display: DisplayId)
    requires
        display != model.display,
    ensures
        ({
            let refusal = Some(
                ComposerError::UnknownDisplay { expected: model.display, actual: display },
            );
            &&& model.validate_error(display) == refusal
            &&& model.accept_error(display) == refusal
            &&& model.present_error(display) == refusal
            &&& model.direct_error(display) == refusal
            &&& model.submit_error(display) == refusal
            &&& model.power_error(display, PowerMode::On) == refusal
            &&& model.vsync_error(display, true) == refusal
            &&& model.layer_error(display, LayerId(1)) == refusal
            &&& model.create_error(display, LayerId(1)) == refusal
        }),
{
}

/// Law: what each step of a frame needs.
pub proof fn law_frames_go_step_by_step(model: ComposerModel)
    ensures
        model.accept_error(model.display) is None <==> model.validated_generation is Some
            && model.power_mode is On,
        model.present_error(model.display) is None <==> {
            &&& model.validated_generation is Some
            &&& model.changes_accepted
            &&& model.client_target is Some
        },
        model.direct_error(model.display) is None <==> {
            &&& model.validated_generation is Some
            &&& model.changes_accepted
            &&& model.power_mode is On
        },
        model.submit_error(model.display) is None <==> model.power_mode is On,
        model.validated_generation is None ==> model.direct_error(model.display) == Some(
            ComposerError::NotValidated,
        ),
        model.validated_generation is Some && !model.changes_accepted ==> model.direct_error(
            model.display,
        ) == Some(ComposerError::ChangesNotAccepted),
{
}

/// Law: a layer is created once and is known until it is destroyed; either
/// makes the last validation out of date, and so does a change of it.
pub proof fn law_layers_are_known_until_destroyed(
    model: ComposerModel,
    layer: LayerState,
    other: u64,
)
    ensures
        model.create_error(model.display, layer.id) is None <==> !model.layers.contains_key(
            layer.id.0,
        ),
        model.layer_error(model.display, layer.id) is None <==> model.layers.contains_key(
            layer.id.0,
        ),
        model.with_layer(layer).layers.contains_key(layer.id.0),
        model.with_layer(layer).layers[layer.id.0] == layer,
        !model.without_layer(layer.id).layers.contains_key(layer.id.0),
        other != layer.id.0 ==> {
            &&& model.with_layer(layer).layers.contains_key(other) == model.layers.contains_key(
                other,
            )
            &&& model.without_layer(layer.id).layers.contains_key(other)
                == model.layers.contains_key(other)
            &&& model.with_layer(layer).layers[other] == model.layers[other]
        },
        model.with_layer(layer).validated_generation is None,
        model.without_layer(layer.id).validated_generation is None,
        !model.with_layer(layer).changes_accepted,
        model.layers[layer.id.0] == layer ==> model.updated(layer) == model,
        model.layers[layer.id.0] != layer ==> model.updated(layer).layers[layer.id.0] == layer
            && model.updated(layer).validated_generation is None,
        model.generation < 0xffff_ffff_ffff_ffff ==> model.with_layer(layer).generation
            == model.generation + 1,
{
}

/// Law: accepting the changes leaves every layer to the client, as it is
/// otherwise.
pub proof fn law_accepted_layers_are_left_to_the_client(model: ComposerModel, key: u64)
    requires
        model.layers.contains_key(key),
    ensures
        ({
            let after = model.accepted();
            &&& after.changes_accepted
            &&& after.layers.contains_key(key)
            &&& after.layers[key].requested_composition is Client
            &&& after.layers[key].id == model.layers[key].id
            &&& after.layers[key].z == model.layers[key].z
            &&& after.layers[key].protected_content == model.layers[key].protected_content
            &&& after.validated_generation == model.validated_generation
        }),
{
}

/// Law: a presented frame is in flight with its own buffer until it is released,
/// and uses up the client target; an accepted one needs a new validation.
pub proof fn law_presented_frames_are_in_flight(
    model: ComposerModel,
    outcome: Result<AcceptedFrame, TransportError>,
    frame: AcceptedFrame,
)
    ensures
        model.presented(outcome).client_target is None,
        outcome is Err ==> {
            &&& model.presented(outcome).in_flight == model.in_flight
            &&& model.presented(outcome).validated_generation == model.validated_generation
        },
        outcome == Ok::<AcceptedFrame, TransportError>(frame) ==> {
            &&& model.presented(outcome).in_flight.contains_key(frame.frame_id.0)
            &&& model.presented(outcome).in_flight[frame.frame_id.0] == frame.buffer.id
            &&& model.presented(outcome).validated_generation is None
            &&& !model.presented(outcome).changes_accepted
        },
        model.with_frame(frame).in_flight[frame.frame_id.0] == frame.buffer.id,
        !model.without_frame(frame.frame_id).in_flight.contains_key(frame.frame_id.0),
        model.presented_direct().validated_generation is None,
        !model.presented_direct().changes_accepted,
        model.presented_direct().in_flight == model.in_flight,
{
}

/// Law: a display is on or off; switching it off stops its ticks, and ticks are
/// switched on only while it is on.
pub proof fn law_ticks_need_power(model: ComposerModel, mode: PowerMode)
    ensures
        model.power_error(model.display, mode) is None <==> mode is On || mode is Off,
        mode is Doze || mode is DozeSuspend ==> model.power_error(model.display, mode) == Some(
            ComposerError::UnsupportedPowerMode(mode),
        ),
        model.powered(mode).power_mode == mode,
        !model.powered(PowerMode::Off).vsync_enabled,
        model.powered(PowerMode::On).vsync_enabled == model.vsync_enabled,
        model.vsync_error(model.display, false) is None,
        model.vsync_error(model.display, true) is None <==> model.power_mode is On,
{
}

/// Law: a report later than the last one is a sample, of its own time and of the
/// period of the display's rate, where the display is on and ticks; an equal one
/// is ignored and an earlier one is an error.
pub proof fn law_reports_are_samples(model: ComposerModel, timestamp_nanos: u64)
    ensures
        model.last_presentation_nanos matches Some(last) ==> {
            &&& timestamp_nanos < last ==> model.sample(timestamp_nanos) == Err::<
                Option<VsyncSample>,
                ComposerError,
            >(
                ComposerError::NonMonotonicPresentation { previous: last, actual: timestamp_nanos },
            ) && model.sampled(timestamp_nanos) == model
            &&& timestamp_nanos == last ==> model.sample(timestamp_nanos) == Ok::<
                Option<VsyncSample>,
                ComposerError,
            >(None)
        },
        model.last_presentation_nanos is None || timestamp_nanos > model.last_presentation_nanos->0
            ==> {
            &&& model.sampled(timestamp_nanos).last_presentation_nanos == Some(timestamp_nanos)
            &&& !(model.power_mode is On) || !model.vsync_enabled ==> model.sample(timestamp_nanos)
                == Ok::<Option<VsyncSample>, ComposerError>(None)
            &&& model.power_mode is On && model.vsync_enabled && model.configure is Some
                && model.configure->0.refresh_millihz > 0 ==> {
                let rate = model.configure->0.refresh_millihz;
                &&& model.sample(timestamp_nanos) is Ok
                &&& model.sample(timestamp_nanos)->Ok_0 is Some
                &&& model.sample(timestamp_nanos)->Ok_0->0.display == model.display
                &&& model.sample(timestamp_nanos)->Ok_0->0.timestamp_nanos == timestamp_nanos
                &&& model.sample(timestamp_nanos)->Ok_0->0.period_nanos * rate <= 1_000_000_000_000
                &&& 1_000_000_000_000 < (model.sample(timestamp_nanos)->Ok_0->0.period_nanos + 1)
                    * rate
            }
        },
{
    if model.configure is Some && model.configure->0.refresh_millihz > 0 {
        let rate = model.configure->0.refresh_millihz as int;
        let period = 1_000_000_000_000int / rate;
        assert(period * rate <= 1_000_000_000_000 && 1_000_000_000_000 < (period + 1) * rate)
            by (nonlinear_arith)
            requires
                rate > 0,
                period == 1_000_000_000_000int / rate,
        ;
    }
}

/// Law: a new display has nothing on it, is off and does not tick.
pub proof fn law_new_displays_are_off(display: DisplayId)
    ensures
        ({
            let model = ComposerModel::fresh(display);
            &&& model.display == display
            &&& model.layers.len() == 0
            &&& model.in_flight.len() == 0
            &&& model.power_mode is Off
            &&& !model.vsync_enabled
            &&& model.configure is None
            &&& model.client_target is None
            &&& model.validated_generation is None
            &&& !model.changes_accepted
            &&& model.last_presentation_nanos is None
            &&& model.generation == 0
        }),
{
}

} // verus!
