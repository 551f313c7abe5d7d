//! Native-buffer state of one Composer client: slot tables, layer snapshots and
//! reserved render targets.
//!
//! The platform adapter owns plane descriptors, fences and floating-point layer
//! values. It names each imported allocation by a handle number and each layer
//! command by an update number, and finds its values by those numbers again.

use std::collections::BTreeMap;

use vstd::prelude::*;

use crate::composer::hwc3::{ErrorCode, MAX_BUFFER_SLOTS};
use crate::composer::{ClientTarget, DisplayId, LayerId};
use crate::ordered::{in_order, lists, ordered_keys, value_mut};
use crate::sink::{rendered_target, PresentationFailure};
use crate::transport::{AcceptedFrame, BufferId, BufferMetadata, BufferView, Damage};

verus! {

broadcast use vstd::laws_cmp::group_laws_cmp;

/// Composition value of a Composer3 layer command.
#[derive(Clone, Copy, Debug, PartialEq, Eq, Structural)]
pub enum RequestedComposition {
    Client,
    Device,
    SolidColor,
    Cursor,
    Sideband,
    /// A value that this service does not know.
    Other,
}

/// Transform value of a Composer3 layer command.
#[derive(Clone, Copy, Debug, PartialEq, Eq, Structural)]
pub enum RequestedTransform {
    Identity,
    FlipH,
    FlipV,
    Rot90,
    Rot180,
    Rot270,
    /// A value that this service does not know.
    Other,
}

/// Blend mode of a Composer3 layer command.
#[derive(Clone, Copy, Debug, PartialEq, Eq, Structural)]
pub enum RequestedBlend {
    Opaque,
    Premultiplied,
    Coverage,
    /// A value that this service does not know.
    Other,
}

const COMPOSITION_CLIENT: i32 = 0;

const COMPOSITION_DEVICE: i32 = 1;

const COMPOSITION_CURSOR: i32 = 2;

const COMPOSITION_SOLID_COLOR: i32 = 3;

/// Code that the compositor knows for a composition.
pub open spec fn composition_number(composition: RequestedComposition) -> Result<i32, ErrorCode> {
    match composition {
        RequestedComposition::Client => Ok(0),
        RequestedComposition::Device => Ok(1),
        RequestedComposition::Cursor => Ok(2),
        RequestedComposition::SolidColor => Ok(3),
        _ => Err(ErrorCode::Unsupported),
    }
}

/// Code that the compositor knows for a composition.
pub fn composition_code(composition: RequestedComposition) -> (result: Result<i32, ErrorCode>)
    ensures
        result == composition_number(composition),
{
    match composition {
        RequestedComposition::Client => Ok(COMPOSITION_CLIENT),
        RequestedComposition::Device => Ok(COMPOSITION_DEVICE),
        RequestedComposition::Cursor => Ok(COMPOSITION_CURSOR),
        RequestedComposition::SolidColor => Ok(COMPOSITION_SOLID_COLOR),
        RequestedComposition::Sideband | RequestedComposition::Other => Err(ErrorCode::Unsupported),
    }
}

/// Bit field that the compositor knows for a transform: horizontal flip 1,
/// vertical flip 2, quarter turn 4.
pub open spec fn transform_number(transform: RequestedTransform) -> Result<i32, ErrorCode> {
    match transform {
        RequestedTransform::Identity => Ok(0),
        RequestedTransform::FlipH => Ok(1),
        RequestedTransform::FlipV => Ok(2),
        RequestedTransform::Rot90 => Ok(4),
        RequestedTransform::Rot180 => Ok(3),
        RequestedTransform::Rot270 => Ok(7),
        RequestedTransform::Other => Err(ErrorCode::Unsupported),
    }
}

/// Bit field that the compositor knows for a transform.
pub fn transform_code(transform: RequestedTransform) -> (result: Result<i32, ErrorCode>)
    ensures
        result == transform_number(transform),
{
    match transform {
        RequestedTransform::Identity => Ok(0),
        RequestedTransform::FlipH => Ok(1),
        RequestedTransform::FlipV => Ok(2),
        RequestedTransform::Rot90 => Ok(4),
        RequestedTransform::Rot180 => Ok(3),
        RequestedTransform::Rot270 => Ok(7),
        RequestedTransform::Other => Err(ErrorCode::Unsupported),
    }
}

/// Code that the compositor knows for a blend mode.
pub open spec fn blend_number(blend: RequestedBlend) -> Result<i32, ErrorCode> {
    match blend {
        RequestedBlend::Opaque => Ok(1),
        RequestedBlend::Premultiplied => Ok(2),
        RequestedBlend::Coverage => Ok(3),
        RequestedBlend::Other => Err(ErrorCode::Unsupported),
    }
}

/// Code that the compositor knows for a blend mode.
pub fn blend_code(blend: RequestedBlend) -> (result: Result<i32, ErrorCode>)
    ensures
        result == blend_number(blend),
{
    match blend {
        RequestedBlend::Opaque => Ok(1),
        RequestedBlend::Premultiplied => Ok(2),
        RequestedBlend::Coverage => Ok(3),
        RequestedBlend::Other => Err(ErrorCode::Unsupported),
    }
}

/// Integer display-frame rectangle in task-target coordinates.
#[derive(Clone, Copy, Debug, PartialEq, Eq, Structural)]
pub struct LayerRect {
    /// Left edge.
    pub left: i32,
    /// Top edge.
    pub top: i32,
    /// Right edge.
    pub right: i32,
    /// Bottom edge.
    pub bottom: i32,
}

impl LayerRect {
    /// Whether the rectangle holds a pixel and starts on the display.
    pub open spec fn valid(self) -> bool {
        0 <= self.left < self.right && 0 <= self.top < self.bottom
    }
}

/// One validated minigbm allocation.
#[derive(Clone, Copy, Debug, PartialEq, Eq, Structural)]
pub struct ImportedMinigbmBuffer {
    /// Number under which the adapter keeps the plane descriptors.
    pub handle: u64,
    /// Width in pixels.
    pub width: u32,
    /// Height in pixels.
    pub height: u32,
    /// Whether the allocation asks for protected presentation.
    pub protected_content: bool,
}

/// Buffer part of a layer command.
#[derive(Clone, Copy, Debug, PartialEq, Eq)]
pub struct BufferUpdate {
    /// Slot that the buffer goes to or comes from.
    pub slot: i32,
    /// How the import of the native handle went, where the command has one. A
    /// command without a handle names the buffer that its slot holds.
    pub import: Option<Result<ImportedMinigbmBuffer, ErrorCode>>,
    /// Whether the plane descriptors could be duplicated for the layer.
    pub duplicated: bool,
    /// Whether the acquire fence could be duplicated, where there is one.
    pub fence: Option<bool>,
}

/// Plain values of one layer command.
#[derive(Clone, Debug, PartialEq, Eq)]
pub struct LayerUpdate {
    /// Number under which the adapter keeps the floating-point values and the
    /// fence of this command.
    pub update: u64,
    /// Whether the command modifies an existing layer.
    pub modifies: bool,
    /// Slot count of a layer that the command would create.
    pub new_buffer_slot_count: i32,
    /// Slots to forget.
    pub slots_to_clear: Option<Vec<i32>>,
    /// New buffer.
    pub buffer: Option<BufferUpdate>,
    /// New composition type.
    pub composition: Option<RequestedComposition>,
    /// New destination.
    pub display_frame: Option<LayerRect>,
    /// Whether the new source crop is finite, starts in the buffer and is not
    /// empty.
    pub source_crop: Option<bool>,
    /// New transform.
    pub transform: Option<RequestedTransform>,
    /// New blend mode.
    pub blend_mode: Option<RequestedBlend>,
    /// Whether the new plane alpha lies between zero and one.
    pub plane_alpha: Option<bool>,
    /// Whether every component of the new color lies between zero and one.
    pub color: Option<bool>,
    /// New stacking order.
    pub z: Option<i32>,
}

/// Slot of a table with a number of slots.
pub open spec fn slot_of(slot: i32, count: nat) -> Result<int, ErrorCode> {
    if 0 <= slot < count {
        Ok(slot as int)
    } else {
        Err(ErrorCode::BadParameter)
    }
}

fn slot_index(slot: i32, count: usize) -> (result: Result<usize, ErrorCode>)
    ensures
        match result {
            Ok(index) => slot_of(slot, count as nat) == Ok::<int, ErrorCode>(index as int),
            Err(code) => slot_of(slot, count as nat) == Err::<int, ErrorCode>(code),
        },
{
    if slot < 0 || slot as usize >= count {
        return Err(ErrorCode::BadParameter);
    }
    Ok(slot as usize)
}

/// Whether a slot count may be asked for.
pub open spec fn valid_slot_count(count: u32) -> bool {
    0 < count <= MAX_BUFFER_SLOTS
}

fn empty_slots(count: u32) -> (result: Result<Vec<Option<ImportedMinigbmBuffer>>, ErrorCode>)
    ensures
        match result {
            Ok(slots) => valid_slot_count(count) && slots@ == Seq::new(
                count as nat,
                |i: int| None::<ImportedMinigbmBuffer>,
            ),
            Err(code) => !valid_slot_count(count) && code == ErrorCode::BadParameter,
        },
{
    if count == 0 || count > MAX_BUFFER_SLOTS {
        return Err(ErrorCode::BadParameter);
    }
    let mut slots: Vec<Option<ImportedMinigbmBuffer>> = Vec::new();
    let mut made: u32 = 0;
    while made < count
        invariant
            made <= count,
            slots@.len() == made,
            forall|i: int| 0 <= i < made ==> slots@[i] == None::<ImportedMinigbmBuffer>,
        decreases count - made,
    {
        slots.push(None);
        made = made + 1;
    }
    assert(slots@ =~= Seq::new(count as nat, |i: int| None::<ImportedMinigbmBuffer>));
    Ok(slots)
}

/// First reason not to clear slots.
pub open spec fn clear_error(slots: Seq<i32>, count: nat) -> Option<ErrorCode> {
    if slots.len() > MAX_BUFFER_SLOTS || exists|i: int|
        0 <= i < slots.len() && slot_of(#[trigger] slots[i], count) is Err {
        Some(ErrorCode::BadParameter)
    } else {
        None
    }
}

/// Slots after some were cleared.
pub open spec fn cleared(
    entries: Seq<Option<ImportedMinigbmBuffer>>,
    slots: Seq<i32>,
) -> Seq<Option<ImportedMinigbmBuffer>> {
    Seq::new(
        entries.len(),
        |i: int|
            if exists|k: int| 0 <= k < slots.len() && #[trigger] slots[k] == i {
                None
            } else {
                entries[i]
            },
    )
}

fn clear_slots(entries: &mut Vec<Option<ImportedMinigbmBuffer>>, slots: &Vec<i32>) -> (result: Result<
    (),
    ErrorCode,
>)
    ensures
        match clear_error(slots@, old(entries)@.len()) {
            Some(code) => result == Err::<(), ErrorCode>(code) && final(entries)@ == old(entries)@,
            None => result == Ok::<(), ErrorCode>(()) && final(entries)@ == cleared(
                old(entries)@,
                slots@,
            ),
        },
{
    if slots.len() > MAX_BUFFER_SLOTS as usize {
        return Err(ErrorCode::BadParameter);
    }
    let count: usize = entries.len();
    let mut checked: usize = 0;
    while checked < slots.len()
        invariant
            checked <= slots@.len() <= MAX_BUFFER_SLOTS,
            count == entries@.len(),
            entries@ == old(entries)@,
            forall|i: int| 0 <= i < checked ==> slot_of(#[trigger] slots@[i], count as nat) is Ok,
        decreases slots@.len() - checked,
    {
        if let Err(code) = slot_index(slots[checked], count) {
            assert(slot_of(slots@[checked as int], old(entries)@.len()) is Err);
            return Err(code);
        }
        checked = checked + 1;
    }
    let mut done: usize = 0;
    assert(entries@ =~= cleared(old(entries)@, slots@.take(0)));
    while done < slots.len()
        invariant
            done <= slots@.len() <= MAX_BUFFER_SLOTS,
            count == entries@.len() == old(entries)@.len(),
            forall|i: int|
                0 <= i < slots@.len() ==> slot_of(#[trigger] slots@[i], count as nat) is Ok,
            entries@ == cleared(old(entries)@, slots@.take(done as int)),
        decreases slots@.len() - done,
    {
        assert(slot_of(slots@[done as int], count as nat) is Ok);
        if let Ok(index) = slot_index(slots[done], count) {
            let ghost before = entries@;
            entries.set(index, None);
            proof {
                let shorter = slots@.take(done as int);
                let longer = slots@.take(done + 1);
                assert forall|i: int| 0 <= i < count implies entries@[i] == cleared(
                    old(entries)@,
                    longer,
                )[i] by {
                    if exists|k: int| 0 <= k < shorter.len() && #[trigger] shorter[k] == i {
                        let k = choose|k: int| 0 <= k < shorter.len() && #[trigger] shorter[k] == i;
                        assert(longer[k] == i);
                    }
                    if exists|k: int| 0 <= k < longer.len() && #[trigger] longer[k] == i {
                        let k = choose|k: int| 0 <= k < longer.len() && #[trigger] longer[k] == i;
                        if k < done {
                            assert(shorter[k] == i);
                        }
                    }
                    assert(longer[done as int] == slots@[done as int]);
                }
                assert(entries@ =~= cleared(old(entries)@, longer));
            }
        }
        done = done + 1;
    }
    assert(slots@.take(done as int) =~= slots@);
    Ok(())
}

#[derive(Debug)]
struct LayerRenderState {
    slots: Vec<Option<ImportedMinigbmBuffer>>,
    buffer: Option<ImportedMinigbmBuffer>,
    acquire_fence: Option<u64>,
    display_frame: Option<LayerRect>,
    source_crop: Option<u64>,
    transform: i32,
    blend_mode: i32,
    plane_alpha: Option<u64>,
    solid_color: Option<u64>,
    z: i32,
    composition: i32,
}

/// Model of the snapshot of one layer. A value that the adapter keeps is named
/// by the update that brought it.
#[verifier::ext_equal]
pub struct LayerModel {
    pub slots: Seq<Option<ImportedMinigbmBuffer>>,
    pub buffer: Option<ImportedMinigbmBuffer>,
    pub acquire_fence: Option<u64>,
    pub display_frame: Option<LayerRect>,
    pub source_crop: Option<u64>,
    pub transform: i32,
    pub blend_mode: i32,
    /// Without an update the layer is opaque.
    pub plane_alpha: Option<u64>,
    pub solid_color: Option<u64>,
    pub z: i32,
    pub composition: i32,
}

impl View for LayerRenderState {
    type V = LayerModel;

    closed spec fn view(&self) -> LayerModel {
        LayerModel {
            slots: self.slots@,
            buffer: self.buffer,
            acquire_fence: self.acquire_fence,
            display_frame: self.display_frame,
            source_crop: self.source_crop,
            transform: self.transform,
            blend_mode: self.blend_mode,
            plane_alpha: self.plane_alpha,
            solid_color: self.solid_color,
            z: self.z,
            composition: self.composition,
        }
    }
}

/// Layer state and first error of a sequence of changes.
#[verifier::ext_equal]
pub struct LayerOutcome {
    pub layer: LayerModel,
    pub error: Option<ErrorCode>,
}

impl LayerOutcome {
    /// Composition of a command; a solid color has no crop.
    pub open spec fn compose(self, composition: Option<RequestedComposition>) -> LayerOutcome {
        if self.error is Some || composition is None {
            self
        } else {
            match composition_number(composition->0) {
                Err(code) => LayerOutcome { error: Some(code), ..self },
                Ok(number) => LayerOutcome {
                    layer: LayerModel {
                        composition: number,
                        source_crop: if number == 3 {
                            None
                        } else {
                            self.layer.source_crop
                        },
                        ..self.layer
                    },
                    ..self
                },
            }
        }
    }

    /// Destination of a command.
    pub open spec fn place(self, frame: Option<LayerRect>) -> LayerOutcome {
        if self.error is Some || frame is None {
            self
        } else if !frame->0.valid() {
            LayerOutcome { error: Some(ErrorCode::BadParameter), ..self }
        } else {
            LayerOutcome { layer: LayerModel { display_frame: frame, ..self.layer }, ..self }
        }
    }

    /// Source crop of a command. A solid color has no source buffer, so
    /// whatever crop comes with it is dropped.
    pub open spec fn crop(self, crop: Option<bool>, update: u64) -> LayerOutcome {
        if self.error is Some || crop is None {
            self
        } else if self.layer.composition == 3 {
            LayerOutcome { layer: LayerModel { source_crop: None, ..self.layer }, ..self }
        } else if !crop->0 {
            LayerOutcome { error: Some(ErrorCode::BadParameter), ..self }
        } else {
            LayerOutcome { layer: LayerModel { source_crop: Some(update), ..self.layer }, ..self }
        }
    }

    /// Transform of a command.
    pub open spec fn turn(self, transform: Option<RequestedTransform>) -> LayerOutcome {
        if self.error is Some || transform is None {
            self
        } else {
            match transform_number(transform->0) {
                Err(code) => LayerOutcome { error: Some(code), ..self },
                Ok(number) => LayerOutcome {
                    layer: LayerModel { transform: number, ..self.layer },
                    ..self
                },
            }
        }
    }

    /// Blend mode of a command.
    pub open spec fn blend(self, blend: Option<RequestedBlend>) -> LayerOutcome {
        if self.error is Some || blend is None {
            self
        } else {
            match blend_number(blend->0) {
                Err(code) => LayerOutcome { error: Some(code), ..self },
                Ok(number) => LayerOutcome {
                    layer: LayerModel { blend_mode: number, ..self.layer },
                    ..self
                },
            }
        }
    }

    /// Plane alpha of a command.
    pub open spec fn fade(self, alpha: Option<bool>, update: u64) -> LayerOutcome {
        if self.error is Some || alpha is None {
            self
        } else if !alpha->0 {
            LayerOutcome { error: Some(ErrorCode::BadParameter), ..self }
        } else {
            LayerOutcome { layer: LayerModel { plane_alpha: Some(update), ..self.layer }, ..self }
        }
    }

    /// Solid color of a command.
    pub open spec fn paint(self, color: Option<bool>, update: u64) -> LayerOutcome {
        if self.error is Some || color is None {
            self
        } else if !color->0 {
            LayerOutcome { error: Some(ErrorCode::BadParameter), ..self }
        } else {
            LayerOutcome { layer: LayerModel { solid_color: Some(update), ..self.layer }, ..self }
        }
    }

    /// Stacking order of a command.
    pub open spec fn stack(self, z: Option<i32>) -> LayerOutcome {
        if self.error is Some || z is None {
            self
        } else {
            LayerOutcome { layer: LayerModel { z: z->0, ..self.layer }, ..self }
        }
    }

    /// Slots that a command clears.
    pub open spec fn forget(self, slots: Option<Vec<i32>>) -> LayerOutcome {
        if self.error is Some || slots is None {
            self
        } else {
            match clear_error(slots->0@, self.layer.slots.len()) {
                Some(code) => LayerOutcome { error: Some(code), ..self },
                None => LayerOutcome {
                    layer: LayerModel {
                        slots: cleared(self.layer.slots, slots->0@),
                        ..self.layer
                    },
                    ..self
                },
            }
        }
    }

    /// Buffer of a command: a new one fills its slot, and the layer holds a
    /// duplicate with the fence of the command.
    pub open spec fn attach(self, buffer: Option<BufferUpdate>, update: u64) -> LayerOutcome {
        if self.error is Some || buffer is None {
            self
        } else {
            match self.layer.resolve(buffer->0) {
                Err(code) => LayerOutcome { error: Some(code), ..self },
                Ok(imported) => {
                    let slots = match buffer->0.import {
                        Some(_) => self.layer.slots.update(buffer->0.slot as int, Some(imported)),
                        None => self.layer.slots,
                    };
                    let held = LayerModel { slots, buffer: Some(imported), ..self.layer };
                    if buffer->0.fence == Some(false) {
                        LayerOutcome { layer: held, error: Some(ErrorCode::NoResources) }
                    } else {
                        LayerOutcome {
                            layer: LayerModel {
                                acquire_fence: if buffer->0.fence is Some {
                                    Some(update)
                                } else {
                                    None
                                },
                                ..held
                            },
                            ..self
                        }
                    }
                },
            }
        }
    }
}

impl LayerModel {
    /// The invariant of every reachable layer.
    pub open spec fn wf(self) -> bool {
        &&& 0 < self.slots.len() <= MAX_BUFFER_SLOTS
        &&& self.display_frame is Some ==> self.display_frame->0.valid()
    }

    /// Layer that was just created.
    pub open spec fn fresh(count: u32) -> LayerModel {
        LayerModel {
            slots: Seq::new(count as nat, |i: int| None::<ImportedMinigbmBuffer>),
            buffer: None,
            acquire_fence: None,
            display_frame: None,
            source_crop: None,
            transform: 0,
            blend_mode: 1,
            plane_alpha: None,
            solid_color: None,
            z: 0,
            composition: 0,
        }
    }

    /// Outcome of a command that did nothing yet.
    pub open spec fn unchanged(self) -> LayerOutcome {
        LayerOutcome { layer: self, error: None }
    }

    /// Buffer that a command names.
    pub open spec fn resolve(self, buffer: BufferUpdate) -> Result<
        ImportedMinigbmBuffer,
        ErrorCode,
    > {
        match slot_of(buffer.slot, self.slots.len()) {
            Err(code) => Err(code),
            Ok(index) => match buffer.import {
                Some(Err(code)) => Err(code),
                Some(Ok(imported)) => if buffer.duplicated {
                    Ok(imported)
                } else {
                    Err(ErrorCode::NoResources)
                },
                None => match self.slots[index] {
                    None => Err(ErrorCode::BadParameter),
                    Some(imported) => if buffer.duplicated {
                        Ok(imported)
                    } else {
                        Err(ErrorCode::NoResources)
                    },
                },
            },
        }
    }

    /// Layer after a command, which stops at its first error and keeps what it
    /// changed before.
    pub open spec fn updated(self, command: LayerUpdate) -> LayerOutcome {
        self.unchanged().forget(command.slots_to_clear).attach(
            command.buffer,
            command.update,
        ).compose(command.composition).place(command.display_frame).crop(
            command.source_crop,
            command.update,
        ).turn(command.transform).blend(command.blend_mode).fade(
            command.plane_alpha,
            command.update,
        ).paint(command.color, command.update).stack(command.z)
    }

    /// Whether a command reached its buffer without an error.
    pub open spec fn attached(self, command: LayerUpdate) -> LayerOutcome {
        self.unchanged().forget(command.slots_to_clear).attach(
            command.buffer,
            command.update,
        )
    }
}

impl LayerRenderState {
    fn new(count: u32) -> (result: Result<LayerRenderState, ErrorCode>)
        ensures
            match result {
                Ok(layer) => {
                    &&& valid_slot_count(count)
                    &&& layer@ == LayerModel::fresh(count)
                    &&& layer@.wf()
                },
                Err(code) => !valid_slot_count(count) && code == ErrorCode::BadParameter,
            },
    {
        let slots = empty_slots(count)?;
        Ok(
            LayerRenderState {
                slots,
                buffer: None,
                acquire_fence: None,
                display_frame: None,
                source_crop: None,
                transform: 0,
                blend_mode: 1,
                plane_alpha: None,
                solid_color: None,
                z: 0,
                composition: COMPOSITION_CLIENT,
            },
        )
    }

    fn resolve(&mut self, buffer: &BufferUpdate) -> (result: Result<
        ImportedMinigbmBuffer,
        ErrorCode,
    >)
        requires
            old(self)@.wf(),
        ensures
            result == old(self)@.resolve(*buffer),
            final(self)@.wf(),
            final(self)@ == (if result is Ok && buffer.import is Some {
                LayerModel {
                    slots: old(self)@.slots.update(buffer.slot as int, Some(result->Ok_0)),
                    ..old(self)@
                }
            } else {
                old(self)@
            }),
    {
        let index: usize = slot_index(buffer.slot, self.slots.len())?;
        match buffer.import {
            Some(import) => {
                let imported = import?;
                if !buffer.duplicated {
                    return Err(ErrorCode::NoResources);
                }
                self.slots.set(index, Some(imported));
                Ok(imported)
            },
            None => match self.slots[index] {
                None => Err(ErrorCode::BadParameter),
                Some(imported) => if buffer.duplicated {
                    Ok(imported)
                } else {
                    Err(ErrorCode::NoResources)
                },
            },
        }
    }

    fn attach(&mut self, command: &LayerUpdate) -> (result: Result<Option<bool>, ErrorCode>)
        requires
            old(self)@.wf(),
        ensures
            final(self)@.wf(),
            final(self)@ == old(self)@.attached(*command).layer,
            match old(self)@.attached(*command).error {
                Some(code) => result == Err::<Option<bool>, ErrorCode>(code),
                None => result == Ok::<Option<bool>, ErrorCode>(
                    match command.buffer {
                        Some(_) => Some(final(self)@.buffer->0.protected_content),
                        None => None,
                    },
                ),
            },
    {
        if let Some(slots) = &command.slots_to_clear {
            clear_slots(&mut self.slots, slots)?;
        }
        match &command.buffer {
            Some(buffer) => {
                let imported = self.resolve(buffer)?;
                self.buffer = Some(imported);
                self.acquire_fence = match buffer.fence {
                    Some(false) => {
                        return Err(ErrorCode::NoResources);
                    },
                    Some(true) => Some(command.update),
                    None => None,
                };
                Ok(Some(imported.protected_content))
            },
            None => Ok(None),
        }
    }

    fn apply(&mut self, command: &LayerUpdate) -> (result: Result<(), ErrorCode>)
        requires
            old(self)@.wf(),
        ensures
            final(self)@.wf(),
            ({
                let after = old(self)@.unchanged().compose(
                    command.composition,
                ).place(command.display_frame).crop(command.source_crop, command.update).turn(
                    command.transform,
                ).blend(command.blend_mode).fade(command.plane_alpha, command.update).paint(
                    command.color,
                    command.update,
                ).stack(command.z);
                &&& final(self)@ == after.layer
                &&& result == (match after.error {
                    Some(code) => Err::<(), ErrorCode>(code),
                    None => Ok::<(), ErrorCode>(()),
                })
            }),
    {
        if let Some(composition) = command.composition {
            self.composition = composition_code(composition)?;
            if self.composition == COMPOSITION_SOLID_COLOR {
                // A solid-color layer has no source buffer. A crop retained from
                // an earlier composition type must not become texture
                // coordinates.
                self.source_crop = None;
            }
        }
        if let Some(frame) = command.display_frame {
            if frame.left < 0 || frame.top < 0 || frame.right <= frame.left || frame.bottom
                <= frame.top {
                return Err(ErrorCode::BadParameter);
            }
            self.display_frame = Some(frame);
        }
        if let Some(valid) = command.source_crop {
            if self.composition == COMPOSITION_SOLID_COLOR {
                self.source_crop = None;
            } else if valid {
                self.source_crop = Some(command.update);
            } else {
                return Err(ErrorCode::BadParameter);
            }
        }
        if let Some(transform) = command.transform {
            self.transform = transform_code(transform)?;
        }
        if let Some(blend) = command.blend_mode {
            self.blend_mode = blend_code(blend)?;
        }
        if let Some(valid) = command.plane_alpha {
            if !valid {
                return Err(ErrorCode::BadParameter);
            }
            self.plane_alpha = Some(command.update);
        }
        if let Some(valid) = command.color {
            if !valid {
                return Err(ErrorCode::BadParameter);
            }
            self.solid_color = Some(command.update);
        }
        if let Some(z) = command.z {
            self.z = z;
        }
        Ok(())
    }
}

/// Where the source crop of a prepared layer comes from.
#[derive(Clone, Copy, Debug, PartialEq, Eq, Structural)]
pub enum LayerCrop {
    /// The crop of an update.
    Update(u64),
    /// The whole buffer.
    Buffer {
        /// Width in pixels.
        width: u32,
        /// Height in pixels.
        height: u32,
    },
    /// An area of the size of the destination.
    Frame {
        /// Width in pixels.
        width: i32,
        /// Height in pixels.
        height: i32,
    },
}

/// One complete layer snapshot consumed by the compositor.
#[derive(Clone, Copy, Debug, PartialEq, Eq, Structural)]
pub struct PreparedLayer {
    /// `SurfaceFlinger` layer identity.
    pub layer: LayerId,
    /// Buffer of a layer that is not a solid color.
    pub buffer: Option<ImportedMinigbmBuffer>,
    /// Update with the latest acquire fence, consumed by this composition.
    pub acquire_fence: Option<u64>,
    /// Display destination.
    pub display_frame: LayerRect,
    /// Buffer source crop.
    pub source_crop: LayerCrop,
    /// Android transform bit field.
    pub transform: i32,
    /// Android blend-mode value.
    pub blend_mode: i32,
    /// Update with the whole-layer alpha; without one the layer is opaque.
    pub plane_alpha: Option<u64>,
    /// Update with the solid color of a layer without a buffer.
    pub solid_color: Option<u64>,
    /// Layer stacking order.
    pub z: i32,
}

impl LayerModel {
    /// Whether the layer is composed at all.
    pub open spec fn drawn(self) -> bool {
        self.composition == 3 || self.buffer is Some
    }

    /// Snapshot of a layer that is composed. `uncopied` is a layer whose plane
    /// descriptors could not be duplicated.
    pub open spec fn snapshot(self, layer: u64, uncopied: Option<LayerId>) -> Result<
        PreparedLayer,
        ErrorCode,
    > {
        let solid = self.composition == 3;
        if self.display_frame is None {
            Err(ErrorCode::BadParameter)
        } else if !solid && uncopied == Some(LayerId(layer)) {
            Err(ErrorCode::NoResources)
        } else {
            let frame = self.display_frame->0;
            let buffer = if solid {
                None
            } else {
                self.buffer
            };
            Ok(
                PreparedLayer {
                    layer: LayerId(layer),
                    buffer,
                    acquire_fence: self.acquire_fence,
                    display_frame: frame,
                    source_crop: match (self.source_crop, buffer) {
                        (Some(update), _) => LayerCrop::Update(update),
                        (None, Some(buffer)) => LayerCrop::Buffer {
                            width: buffer.width,
                            height: buffer.height,
                        },
                        (None, None) => LayerCrop::Frame {
                            width: (frame.right - frame.left) as i32,
                            height: (frame.bottom - frame.top) as i32,
                        },
                    },
                    transform: self.transform,
                    blend_mode: self.blend_mode,
                    plane_alpha: self.plane_alpha,
                    solid_color: if solid {
                        self.solid_color
                    } else {
                        None
                    },
                    z: self.z,
                },
            )
        }
    }
}

/// Layers after some were prepared in order, with the snapshots.
#[verifier::ext_equal]
pub struct Gathering {
    pub layers: Map<u64, LayerModel>,
    pub prepared: Seq<PreparedLayer>,
    pub error: Option<ErrorCode>,
}

/// Snapshots of the listed layers in order. A layer gives its fence away once,
/// and the first failure stops.
pub open spec fn gathered(layers: Map<u64, LayerModel>, keys: Seq<u64>, uncopied: Option<LayerId>) -> Gathering
    decreases keys.len(),
{
    if keys.len() == 0 {
        Gathering { layers, prepared: Seq::empty(), error: None }
    } else {
        let earlier = gathered(layers, keys.drop_last(), uncopied);
        let key = keys.last();
        let layer = layers[key];
        if earlier.error is Some || !layer.drawn() {
            earlier
        } else {
            match layer.snapshot(key, uncopied) {
                Err(code) => Gathering { error: Some(code), ..earlier },
                Ok(snapshot) => Gathering {
                    layers: earlier.layers.insert(key, LayerModel { acquire_fence: None, ..layer }),
                    prepared: earlier.prepared.push(snapshot),
                    ..earlier
                },
            }
        }
    }
}

/// Whether a layer lies below another: by stacking order, then by identity.
pub open spec fn below(lower: PreparedLayer, upper: PreparedLayer) -> bool {
    lower.z < upper.z || (lower.z == upper.z && lower.layer.0 < upper.layer.0)
}

/// Whether layers stand from the lowest to the highest.
pub open spec fn stacked(layers: Seq<PreparedLayer>) -> bool {
    forall|i: int, j: int| 0 <= i < j < layers.len() ==> below(layers[i], layers[j])
}

/// Whether no layer occurs twice.
pub open spec fn distinct(layers: Seq<PreparedLayer>) -> bool {
    forall|i: int, j: int| 0 <= i < j < layers.len() ==> layers[i].layer != layers[j].layer
}

fn insert_stacked(layers: &mut Vec<PreparedLayer>, layer: PreparedLayer)
    requires
        stacked(old(layers)@),
        forall|i: int| 0 <= i < old(layers)@.len() ==> (#[trigger] old(layers)@[i]).layer
            != layer.layer,
    ensures
        stacked(final(layers)@),
        forall|i: int, j: int|
            #![trigger final(layers)@[i], final(layers)@[j]]
            0 <= i < j < final(layers)@.len() ==> final(layers)@[i].z <= final(layers)@[j].z,
        final(layers)@.to_multiset() == old(layers)@.to_multiset().insert(layer),
{
    let mut at: usize = 0;
    while at < layers.len() && (layers[at].z < layer.z || (layers[at].z == layer.z
        && layers[at].layer.0 < layer.layer.0))
        invariant
            at <= layers@.len(),
            layers@ == old(layers)@,
            forall|i: int| 0 <= i < at ==> below(#[trigger] layers@[i], layer),
        ensures
            at <= layers@.len(),
            layers@ == old(layers)@,
            forall|i: int| 0 <= i < at ==> below(#[trigger] layers@[i], layer),
            at < layers@.len() ==> !below(layers@[at as int], layer),
        decreases layers@.len() - at,
    {
        at = at + 1;
    }
    layers.insert(at, layer);
    proof {
        let before = old(layers)@;
        broadcast use vstd::seq_lib::group_to_multiset_ensures;

        assert(layers@ =~= before.insert(at as int, layer));
        vstd::seq_lib::to_multiset_insert(before, at as int, layer);
        if at < before.len() {
            assert(before[at as int].layer != layer.layer);
            assert(below(layer, before[at as int]));
        }
        assert forall|i: int, j: int| 0 <= i < j < layers@.len() implies below(
            layers@[i],
            layers@[j],
        ) by {
            if j == at {
                assert(below(before[i], layer));
            } else if i == at && j > at + 1 {
                assert(below(before[at as int], before[j - 1]));
            }
        }
        assert forall|i: int, j: int|
            #![trigger layers@[i], layers@[j]]
            0 <= i < j < layers@.len() implies layers@[i].z <= layers@[j].z by {
            assert(below(layers@[i], layers@[j]));
        }
    }
}

#[derive(Debug)]
struct DisplayLayers {
    layers: BTreeMap<u64, LayerRenderState>,
}

impl View for DisplayLayers {
    type V = Map<u64, LayerModel>;

    closed spec fn view(&self) -> Map<u64, LayerModel> {
        self.layers@.map_values(|layer: LayerRenderState| layer@)
    }
}

/// Bounded per-client native-buffer state for the pinned minigbm allocator.
#[derive(Debug)]
pub struct MinigbmBufferAdapter {
    client_target_slot_counts: BTreeMap<u64, u32>,
    layers: BTreeMap<u64, DisplayLayers>,
    pending_targets: BTreeMap<u64, BufferMetadata>,
}

/// Model of a [`MinigbmBufferAdapter`].
#[verifier::ext_equal]
pub struct AdapterModel {
    /// Slot counts of client targets by display.
    pub client_target_slot_counts: Map<u64, u32>,
    /// Layers by display and layer identity.
    pub layers: Map<u64, Map<u64, LayerModel>>,
    /// Reserved render targets by display.
    pub pending_targets: Map<u64, BufferView>,
}

impl View for MinigbmBufferAdapter {
    type V = AdapterModel;

    closed spec fn view(&self) -> AdapterModel {
        AdapterModel {
            client_target_slot_counts: self.client_target_slot_counts@,
            layers: self.layers@.map_values(|layers: DisplayLayers| layers@),
            pending_targets: self.pending_targets@.map_values(|target: BufferMetadata| target@),
        }
    }
}

impl AdapterModel {
    /// The invariant of every reachable adapter.
    pub open spec fn wf(self) -> bool {
        forall|display: u64, layer: u64| #[trigger]
            self.has_layer(display, layer) ==> self.layers[display][layer].wf()
    }

    /// Layers of a display.
    pub open spec fn on(self, display: u64) -> Map<u64, LayerModel> {
        if self.layers.contains_key(display) {
            self.layers[display]
        } else {
            Map::empty()
        }
    }

    /// Whether a layer has a slot table.
    pub open spec fn has_layer(self, display: u64, layer: u64) -> bool {
        self.layers.contains_key(display) && self.layers[display].contains_key(layer)
    }

    /// State with the layers of a display replaced.
    pub open spec fn with_layers(self, display: u64, layers: Map<u64, LayerModel>) -> AdapterModel {
        AdapterModel { layers: self.layers.insert(display, layers), ..self }
    }

    /// State with one layer.
    pub open spec fn with_layer(self, display: u64, layer: u64, state: LayerModel) -> AdapterModel {
        self.with_layers(display, self.on(display).insert(layer, state))
    }

    /// First reason not to create a layer.
    pub open spec fn create_error(self, display: DisplayId, layer: LayerId, count: u32) -> Option<
        ErrorCode,
    > {
        if self.has_layer(display.0, layer.0) {
            Some(ErrorCode::BadLayer)
        } else if !valid_slot_count(count) {
            Some(ErrorCode::BadParameter)
        } else {
            None
        }
    }

    /// State and outcome of a layer command.
    pub open spec fn update(self, display: DisplayId, layer: LayerId, command: LayerUpdate) -> (
        AdapterModel,
        Result<Option<bool>, ErrorCode>,
    ) {
        if !command.modifies || command.new_buffer_slot_count != 0 {
            (self, Err(ErrorCode::Unsupported))
        } else if !self.has_layer(display.0, layer.0) {
            (self, Err(ErrorCode::BadLayer))
        } else {
            let outcome = self.layers[display.0][layer.0].updated(command);
            (
                self.with_layer(display.0, layer.0, outcome.layer),
                match outcome.error {
                    Some(code) => Err(code),
                    None => Ok(
                        match command.buffer {
                            Some(_) => Some(outcome.layer.buffer->0.protected_content),
                            None => None,
                        },
                    ),
                },
            )
        }
    }

    /// Snapshots of the layers of a display.
    pub open spec fn gather(self, display: DisplayId, uncopied: Option<LayerId>) -> Gathering {
        gathered(self.on(display.0), in_order(self.on(display.0).dom()), uncopied)
    }

    /// State without a reserved target.
    pub open spec fn without_target(self, display: DisplayId) -> AdapterModel {
        AdapterModel { pending_targets: self.pending_targets.remove(display.0), ..self }
    }
}

/// What to compose and submit, or why not.
#[derive(Clone, Debug)]
pub enum ComposedSubmission {
    /// Compose the layers into the target and submit it.
    Submit {
        /// Reserved target.
        target: BufferMetadata,
        /// Layers from the lowest to the highest.
        layers: Vec<PreparedLayer>,
    },
    /// Nothing can be submitted.
    Failed {
        /// Failure to report.
        failure: PresentationFailure,
        /// Reserved target to hand back to the sink.
        cancel: Option<BufferId>,
    },
}

/// A command keeps the layer's invariant.
proof fn lemma_updated(layer: LayerModel, command: LayerUpdate)
    requires
        layer.wf(),
    ensures
        layer.updated(command).layer.wf(),
        layer.attached(command).error is None && command.buffer is Some ==> layer.updated(
            command,
        ).layer.buffer == layer.attached(command).layer.buffer,
        layer.attached(command).error is Some ==> layer.updated(command) == layer.attached(command),
{
}

/// Snapshots in a list of distinct layers are of those layers, distinct, and
/// leave the invariant of the layers.
proof fn lemma_gathered(layers: Map<u64, LayerModel>, keys: Seq<u64>, uncopied: Option<LayerId>)
    requires
        keys.no_duplicates(),
        forall|i: int| 0 <= i < keys.len() ==> layers.contains_key(#[trigger] keys[i]),
        forall|key: u64| #[trigger] layers.contains_key(key) ==> layers[key].wf(),
    ensures
        ({
            let after = gathered(layers, keys, uncopied);
            &&& distinct(after.prepared)
            &&& after.layers.dom() == layers.dom()
            &&& forall|key: u64| #[trigger] after.layers.contains_key(key) ==> after.layers[key].wf()
            &&& forall|i: int|
                0 <= i < after.prepared.len() ==> keys.contains((#[trigger] after.prepared[i]).layer.0)
        }),
    decreases keys.len(),
{
    if keys.len() > 0 {
        let rest = keys.drop_last();
        lemma_gathered(layers, rest, uncopied);
        let before = gathered(layers, rest, uncopied);
        let after = gathered(layers, keys, uncopied);
        assert(layers.contains_key(keys.last()));
        assert(after.layers.dom() =~= layers.dom());
        assert forall|i: int| 0 <= i < after.prepared.len() implies keys.contains(
            (#[trigger] after.prepared[i]).layer.0,
        ) by {
            if i < before.prepared.len() {
                assert(after.prepared[i] == before.prepared[i]);
                let k = choose|k: int| 0 <= k < rest.len() && rest[k] == before.prepared[i].layer.0;
                assert(keys[k] == before.prepared[i].layer.0);
            } else {
                assert(keys[keys.len() - 1] == after.prepared[i].layer.0);
            }
        }
        assert forall|i: int, j: int|
            0 <= i < j < after.prepared.len() implies after.prepared[i].layer
            != after.prepared[j].layer by {
            assert(after.prepared[i] == before.prepared[i]);
            let k = choose|k: int| 0 <= k < rest.len() && rest[k] == before.prepared[i].layer.0;
            assert(keys[k] == rest[k]);
            if j == before.prepared.len() {
                assert(after.prepared[j].layer.0 == keys[keys.len() - 1]);
            } else {
                assert(after.prepared[j] == before.prepared[j]);
            }
        }
    }
}

impl DisplayLayers {
    fn empty() -> (layers: DisplayLayers)
        ensures
            layers@ == Map::<u64, LayerModel>::empty(),
    {
        let layers = DisplayLayers { layers: BTreeMap::new() };
        assert(layers@ =~= Map::<u64, LayerModel>::empty());
        layers
    }

    fn prepare(&mut self, uncopied: Option<LayerId>) -> (result: Result<Vec<PreparedLayer>, ErrorCode>)
        requires
            forall|key: u64| #[trigger] old(self)@.contains_key(key) ==> old(self)@[key].wf(),
        ensures
            ({
                let after = gathered(old(self)@, in_order(old(self)@.dom()), uncopied);
                &&& final(self)@ == after.layers
                &&& forall|key: u64| #[trigger]
                    after.layers.contains_key(key) ==> after.layers[key].wf()
                &&& match after.error {
                    Some(code) => result == Err::<Vec<PreparedLayer>, ErrorCode>(code),
                    None => {
                        &&& result is Ok
                        &&& stacked(result->Ok_0@)
                        &&& result->Ok_0@.to_multiset() == after.prepared.to_multiset()
                    },
                }
            }),
    {
        let keys = ordered_keys(&self.layers);
        let ghost layers = self@;
        assert(self.layers@.dom() =~= layers.dom());
        let mut prepared: Vec<PreparedLayer> = Vec::new();
        let mut index: usize = 0;
        proof {
            broadcast use vstd::seq_lib::group_to_multiset_ensures;

            assert(keys@.take(0) =~= Seq::empty());
            assert(prepared@ =~= Seq::empty());
            assert(keys@.take(keys@.len() as int) =~= keys@);
            lemma_prefix(keys@, layers, keys@.len() as int);
            lemma_gathered(layers, keys@, uncopied);
        }
        let ghost all = gathered(layers, keys@, uncopied);
        while index < keys.len()
            invariant
                index <= keys@.len(),
                layers == old(self)@,
                lists(keys@, layers.dom()),
                keys@ == in_order(layers.dom()),
                forall|key: u64| #[trigger] layers.contains_key(key) ==> layers[key].wf(),
                all == gathered(layers, keys@, uncopied),
                forall|key: u64| #[trigger] all.layers.contains_key(key) ==> all.layers[key].wf(),
                gathered(layers, keys@.take(index as int), uncopied).error is None,
                self@ == gathered(layers, keys@.take(index as int), uncopied).layers,
                stacked(prepared@),
                prepared@.to_multiset() == gathered(
                    layers,
                    keys@.take(index as int),
                    uncopied,
                ).prepared.to_multiset(),
            decreases keys@.len() - index,
        {
            let key: u64 = keys[index];
            let ghost before = gathered(layers, keys@.take(index as int), uncopied);
            let ghost listed = keys@.take(index as int);
            proof {
                assert(keys@.contains(key));
                assert(layers.dom().contains(key));
                assert(keys@.take(index + 1).drop_last() =~= listed);
                assert(keys@.take(index + 1).last() == key);
                lemma_prefix(keys@, layers, index as int);
                lemma_gathered(layers, listed, uncopied);
                lemma_untouched(layers, listed, uncopied, key);
            }
            let ghost earlier = self@;
            let layer = match value_mut(&mut self.layers, key) {
                Some(layer) => layer,
                None => {
                    assert(earlier.dom().contains(key));
                    return Err(ErrorCode::BadParameter);
                },
            };
            let ghost state = layer@;
            assert(state == layers[key]);
            let solid: bool = layer.composition == COMPOSITION_SOLID_COLOR;
            let mut taken: Option<PreparedLayer> = None;
            let mut failed: Option<ErrorCode> = None;
            if solid || layer.buffer.is_some() {
                match layer.display_frame {
                    None => {
                        failed = Some(ErrorCode::BadParameter);
                    },
                    Some(display_frame) => {
                        let skipped: bool = match uncopied {
                            Some(layer_id) => layer_id.0 == key,
                            None => false,
                        };
                        if !solid && skipped {
                            failed = Some(ErrorCode::NoResources);
                        } else {
                            let buffer: Option<ImportedMinigbmBuffer> = if solid {
                                None
                            } else {
                                layer.buffer
                            };
                            let source_crop = match (layer.source_crop, buffer) {
                                (Some(update), _) => LayerCrop::Update(update),
                                (None, Some(buffer)) => LayerCrop::Buffer {
                                    width: buffer.width,
                                    height: buffer.height,
                                },
                                (None, None) => LayerCrop::Frame {
                                    width: display_frame.right - display_frame.left,
                                    height: display_frame.bottom - display_frame.top,
                                },
                            };
                            taken = Some(
                                PreparedLayer {
                                    layer: LayerId(key),
                                    buffer,
                                    acquire_fence: layer.acquire_fence,
                                    display_frame,
                                    source_crop,
                                    transform: layer.transform,
                                    blend_mode: layer.blend_mode,
                                    plane_alpha: layer.plane_alpha,
                                    solid_color: if solid {
                                        layer.solid_color
                                    } else {
                                        None
                                    },
                                    z: layer.z,
                                },
                            );
                            layer.acquire_fence = None;
                        }
                    },
                }
            }
            let ghost after = layer@;
            proof {
                if taken is Some {
                    assert(after =~= (LayerModel { acquire_fence: None, ..state }));
                    assert(taken->0 == state.snapshot(key, uncopied)->Ok_0);
                } else {
                    assert(after == state);
                    assert(earlier.insert(key, state) =~= earlier);
                }
                assert(self@ =~= earlier.insert(key, after));
            }
            if let Some(code) = failed {
                proof {
                    lemma_stops(layers, keys@, index + 1, uncopied);
                    assert(keys@.take(keys@.len() as int) =~= keys@);
                }
                return Err(code);
            }
            if let Some(snapshot) = taken {
                proof {
                    broadcast use vstd::seq_lib::group_to_multiset_ensures;

                    assert forall|i: int| 0 <= i < prepared@.len() implies (#[trigger] prepared@[i]).layer
                        != snapshot.layer by {
                        assert(prepared@.to_multiset().count(prepared@[i]) > 0);
                        assert(before.prepared.to_multiset().count(prepared@[i]) > 0);
                        assert(before.prepared.contains(prepared@[i]));
                        let k = choose|k: int|
                            0 <= k < before.prepared.len() && before.prepared[k] == prepared@[i];
                        assert(listed.contains(before.prepared[k].layer.0));
                        let m = choose|m: int|
                            0 <= m < listed.len() && listed[m] == before.prepared[k].layer.0;
                        assert(keys@[m] == listed[m]);
                    }
                }
                insert_stacked(&mut prepared, snapshot);
                proof {
                    broadcast use vstd::seq_lib::group_to_multiset_ensures;

                    assert(before.prepared.push(snapshot).to_multiset()
                        =~= before.prepared.to_multiset().insert(snapshot));
                }
            }
            index = index + 1;
        }
        assert(keys@.take(index as int) =~= keys@);
        Ok(prepared)
    }
}

/// A prefix of the listed layers lists distinct layers.
proof fn lemma_prefix(keys: Seq<u64>, layers: Map<u64, LayerModel>, count: int)
    requires
        lists(keys, layers.dom()),
        0 <= count <= keys.len(),
    ensures
        keys.take(count).no_duplicates(),
        forall|i: int| 0 <= i < count ==> layers.contains_key(#[trigger] keys.take(count)[i]),
{
    assert forall|i: int| 0 <= i < count implies layers.contains_key(
        #[trigger] keys.take(count)[i],
    ) by {
        assert(keys.contains(keys[i]));
        assert(layers.dom().contains(keys[i]));
    }
}

/// A layer that is not listed keeps its state.
proof fn lemma_untouched(
    layers: Map<u64, LayerModel>,
    keys: Seq<u64>,
    uncopied: Option<LayerId>,
    key: u64,
)
    requires
        !keys.contains(key),
    ensures
        gathered(layers, keys, uncopied).layers[key] == layers[key],
    decreases keys.len(),
{
    if keys.len() > 0 {
        let rest = keys.drop_last();
        assert(keys[keys.len() - 1] == keys.last());
        if rest.contains(key) {
            let i = choose|i: int| 0 <= i < rest.len() && rest[i] == key;
            assert(keys[i] == key);
        }
        lemma_untouched(layers, rest, uncopied, key);
    }
}

/// What follows a failure changes nothing.
proof fn lemma_stops(
    layers: Map<u64, LayerModel>,
    keys: Seq<u64>,
    count: int,
    uncopied: Option<LayerId>,
)
    requires
        0 <= count <= keys.len(),
        gathered(layers, keys.take(count), uncopied).error is Some,
    ensures
        gathered(layers, keys.take(keys.len() as int), uncopied) == gathered(
            layers,
            keys.take(count),
            uncopied,
        ),
    decreases keys.len() - count,
{
    if count < keys.len() {
        assert(keys.take(count + 1).drop_last() =~= keys.take(count));
        lemma_stops(layers, keys, count + 1, uncopied);
    }
}

impl MinigbmBufferAdapter {
    /// Create the empty state of one Binder client.
    pub fn new() -> (adapter: MinigbmBufferAdapter)
        ensures
            adapter@.wf(),
            adapter@ == (AdapterModel {
                client_target_slot_counts: Map::empty(),
                layers: Map::empty(),
                pending_targets: Map::empty(),
            }),
    {
        let adapter = MinigbmBufferAdapter {
            client_target_slot_counts: BTreeMap::new(),
            layers: BTreeMap::new(),
            pending_targets: BTreeMap::new(),
        };
        assert(adapter@.layers =~= Map::empty());
        assert(adapter@.pending_targets =~= Map::empty());
        assert(adapter@.client_target_slot_counts =~= Map::empty());
        adapter
    }

    fn layers_mut(&mut self, display: u64) -> (result: Option<&mut DisplayLayers>)
        ensures
            match result {
                Some(layers) => {
                    &&& old(self)@.layers.contains_key(display)
                    &&& layers@ == old(self)@.layers[display]
                    &&& final(self)@ == old(self)@.with_layers(display, final(layers)@)
                },
                None => {
                    &&& !old(self)@.layers.contains_key(display)
                    &&& final(self)@ == old(self)@
                },
            },
    {
        match value_mut(&mut self.layers, display) {
            Some(layers) => {
                assert(old(self)@.layers.contains_key(display));
                Some(layers)
            },
            None => None,
        }
    }

    /// Create the bounded layer-buffer slot table paired with a new layer.
    pub fn create_layer_slots(&mut self, display: DisplayId, layer: LayerId, count: u32) -> (result:
        Result<(), ErrorCode>)
        requires
            old(self)@.wf(),
        ensures
            final(self)@.wf(),
            match old(self)@.create_error(display, layer, count) {
                Some(code) => {
                    &&& result == Err::<(), ErrorCode>(code)
                    &&& final(self)@ == old(self)@
                },
                None => {
                    &&& result == Ok::<(), ErrorCode>(())
                    &&& final(self)@ == old(self)@.with_layer(
                        display.0,
                        layer.0,
                        LayerModel::fresh(count),
                    )
                },
            },
    {
        let known: bool = match self.layers.get(&display.0) {
            Some(layers) => {
                assert(self@.layers[display.0] == layers@);
                assert(layers.layers@.dom() =~= layers@.dom());
                layers.layers.contains_key(&layer.0)
            },
            None => false,
        };
        assert(known == self@.has_layer(display.0, layer.0));
        if known {
            return Err(ErrorCode::BadLayer);
        }
        let state = LayerRenderState::new(count)?;
        if !self.layers.contains_key(&display.0) {
            self.layers.insert(display.0, DisplayLayers::empty());
            assert(self@.layers =~= old(self)@.layers.insert(display.0, Map::empty()));
        }
        let ghost started = self@;
        assert(started.layers.contains_key(display.0));
        assert(started.layers[display.0] =~= old(self)@.on(display.0));
        if let Some(layers) = self.layers_mut(display.0) {
            layers.layers.insert(layer.0, state);
            assert(layers@ =~= old(self)@.on(display.0).insert(layer.0, state@));
        }
        proof {
            let after = old(self)@.with_layer(display.0, layer.0, LayerModel::fresh(count));
            assert(self@.layers =~= after.layers);
            assert forall|d: u64, l: u64| #[trigger] after.has_layer(d, l) implies after.layers[d][l].wf() by {
                if d != display.0 || l != layer.0 {
                    assert(old(self)@.has_layer(d, l));
                }
            }
        }
        Ok(())
    }

    /// Remove the layer-buffer slot table after the core destroys its layer.
    pub fn destroy_layer_slots(&mut self, display: DisplayId, layer: LayerId)
        requires
            old(self)@.wf(),
        ensures
            final(self)@.wf(),
            final(self)@ == (if old(self)@.layers.contains_key(display.0) {
                old(self)@.with_layers(display.0, old(self)@.layers[display.0].remove(layer.0))
            } else {
                old(self)@
            }),
    {
        if let Some(layers) = self.layers_mut(display.0) {
            let ghost before = layers@;
            layers.layers.remove(&layer.0);
            assert(layers@ =~= before.remove(layer.0));
        }
        proof {
            assert forall|d: u64, l: u64| #[trigger] self@.has_layer(d, l) implies self@.layers[d][l].wf() by {
                assert(old(self)@.has_layer(d, l));
            }
        }
    }

    /// Resize the client-target slot table of one task display.
    pub fn set_client_target_slot_count(&mut self, display: DisplayId, count: u32) -> (result: Result<
        (),
        ErrorCode,
    >)
        requires
            old(self)@.wf(),
        ensures
            final(self)@.wf(),
            if old(self)@.pending_targets.contains_key(display.0) || !valid_slot_count(count) {
                &&& result == Err::<(), ErrorCode>(ErrorCode::BadParameter)
                &&& final(self)@ == old(self)@
            } else {
                &&& result == Ok::<(), ErrorCode>(())
                &&& final(self)@ == (AdapterModel {
                    client_target_slot_counts: old(self)@.client_target_slot_counts.insert(
                        display.0,
                        count,
                    ),
                    ..old(self)@
                })
            },
    {
        if self.has_pending_target(display) {
            return Err(ErrorCode::BadParameter);
        }
        if count == 0 || count > MAX_BUFFER_SLOTS {
            return Err(ErrorCode::BadParameter);
        }
        self.client_target_slot_counts.insert(display.0, count);
        proof {
            assert forall|d: u64, l: u64| #[trigger] self@.has_layer(d, l) implies self@.layers[d][l].wf() by {
                assert(old(self)@.has_layer(d, l));
            }
        }
        Ok(())
    }

    /// Whether a render target is reserved for a display. No second one is
    /// acquired then.
    pub fn has_pending_target(&self, display: DisplayId) -> (pending: bool)
        ensures
            pending == self@.pending_targets.contains_key(display.0),
    {
        self.pending_targets.contains_key(&display.0)
    }

    /// Reserve one Denial-owned target for a possible present command.
    /// `acquired` is what the sink answered; it is not read where a target is
    /// reserved already.
    pub fn prepare_render_target(
        &mut self,
        display: DisplayId,
        acquired: Result<BufferMetadata, ErrorCode>,
    ) -> (result: Result<ClientTarget, ErrorCode>)
        requires
            old(self)@.wf(),
        ensures
            final(self)@.wf(),
            match (old(self)@.pending_targets.contains_key(display.0), acquired) {
                (true, _) => {
                    &&& result == Err::<ClientTarget, ErrorCode>(ErrorCode::BadParameter)
                    &&& final(self)@ == old(self)@
                },
                (false, Err(code)) => {
                    &&& result == Err::<ClientTarget, ErrorCode>(code)
                    &&& final(self)@ == old(self)@
                },
                (false, Ok(target)) => {
                    &&& result is Ok
                    &&& result->Ok_0.buffer@ == target@
                    &&& result->Ok_0.damage@ == seq![
                        Damage { x: 0, y: 0, width: target.width, height: target.height },
                    ]
                    &&& result->Ok_0.has_acquire_fence
                    &&& final(self)@ == (AdapterModel {
                        pending_targets: old(self)@.pending_targets.insert(display.0, target@),
                        ..old(self)@
                    })
                },
            },
    {
        if self.has_pending_target(display) {
            return Err(ErrorCode::BadParameter);
        }
        let target = acquired?;
        let client = rendered_target(&target);
        let ghost metadata = target@;
        self.pending_targets.insert(display.0, target);
        proof {
            assert(self@.pending_targets =~= old(self)@.pending_targets.insert(display.0, metadata));
            assert forall|d: u64, l: u64| #[trigger] self@.has_layer(d, l) implies self@.layers[d][l].wf() by {
                assert(old(self)@.has_layer(d, l));
            }
        }
        Ok(client)
    }

    /// Cancel a reservation: the target to hand back to the sink, if there is
    /// one.
    pub fn cancel_render_target(&mut self, display: DisplayId) -> (target: Option<BufferMetadata>)
        requires
            old(self)@.wf(),
        ensures
            final(self)@.wf(),
            final(self)@ == old(self)@.without_target(display),
            match target {
                Some(target) => old(self)@.pending_targets.contains_key(display.0) && target@
                    == old(self)@.pending_targets[display.0],
                None => !old(self)@.pending_targets.contains_key(display.0),
            },
    {
        let target = self.pending_targets.remove(&display.0);
        proof {
            assert(self@.pending_targets =~= old(self)@.pending_targets.remove(display.0));
            assert forall|d: u64, l: u64| #[trigger] self@.has_layer(d, l) implies self@.layers[d][l].wf() by {
                assert(old(self)@.has_layer(d, l));
            }
        }
        target
    }

    /// Apply one layer command, returning whether its buffer requests protected
    /// presentation.
    pub fn update_layer(&mut self, display: DisplayId, layer: LayerId, command: &LayerUpdate) -> (result:
        Result<Option<bool>, ErrorCode>)
        requires
            old(self)@.wf(),
        ensures
            final(self)@.wf(),
            (final(self)@, result) == old(self)@.update(display, layer, *command),
    {
        if !command.modifies || command.new_buffer_slot_count != 0 {
            return Err(ErrorCode::Unsupported);
        }
        let ghost before = self@;
        let result = match self.layers_mut(display.0) {
            Some(layers) => {
                let ghost listed = layers@;
                assert(listed == before.layers[display.0]);
                let updated = match value_mut(&mut layers.layers, layer.0) {
                    Some(state) => {
                        assert(before.has_layer(display.0, layer.0));
                        let ghost old_state = state@;
                        let attached = state.attach(command);
                        proof {
                            lemma_updated(old_state, *command);
                        }
                        match attached {
                            Ok(protected) => match state.apply(command) {
                                Ok(()) => Ok(protected),
                                Err(code) => Err(code),
                            },
                            Err(code) => Err(code),
                        }
                    },
                    None => {
                        assert(!listed.contains_key(layer.0));
                        Err(ErrorCode::BadLayer)
                    },
                };
                proof {
                    if listed.contains_key(layer.0) {
                        assert(layers@ =~= listed.insert(
                            layer.0,
                            listed[layer.0].updated(*command).layer,
                        ));
                    } else {
                        assert(layers@ =~= listed);
                        assert(before.with_layers(display.0, listed).layers =~= before.layers);
                    }
                }
                updated
            },
            None => Err(ErrorCode::BadLayer),
        };
        proof {
            let after = before.update(display, layer, *command).0;
            assert(self@ =~= after);
            assert forall|d: u64, l: u64| #[trigger] after.has_layer(d, l) implies after.layers[d][l].wf() by {
                if d == display.0 && l == layer.0 && before.has_layer(d, l) {
                    lemma_updated(before.layers[d][l], *command);
                } else {
                    assert(before.has_layer(d, l));
                }
            }
        }
        result
    }

    /// Take the reserved target and snapshot the layers of an accepted frame.
    /// `uncopied` is a layer whose plane descriptors could not be duplicated.
    pub fn submit_composed_target(
        &mut self,
        display: DisplayId,
        frame: &AcceptedFrame,
        uncopied: Option<LayerId>,
    ) -> (result: ComposedSubmission)
        requires
            old(self)@.wf(),
        ensures
            final(self)@.wf(),
            ({
                let released = old(self)@.without_target(display);
                let target = old(self)@.pending_targets[display.0];
                let gathering = old(self)@.gather(display, uncopied);
                if !old(self)@.pending_targets.contains_key(display.0) {
                    &&& final(self)@ == old(self)@
                    &&& result == (ComposedSubmission::Failed {
                        failure: PresentationFailure {
                            code: ErrorCode::BadParameter,
                            accepted_by_denial: false,
                        },
                        cancel: None,
                    })
                } else if !frame.requires_acquire_fence || target != frame.buffer@ {
                    &&& final(self)@ == released
                    &&& result == (ComposedSubmission::Failed {
                        failure: PresentationFailure {
                            code: ErrorCode::BadParameter,
                            accepted_by_denial: false,
                        },
                        cancel: Some(target.id),
                    })
                } else {
                    &&& final(self)@ == (if old(self)@.layers.contains_key(display.0) {
                        released.with_layers(display.0, gathering.layers)
                    } else {
                        released
                    })
                    &&& match gathering.error {
                        Some(code) => result == (ComposedSubmission::Failed {
                            failure: PresentationFailure { code, accepted_by_denial: false },
                            cancel: Some(target.id),
                        }),
                        None => match result {
                            ComposedSubmission::Submit { target: chosen, layers } => {
                                &&& chosen@ == target
                                &&& stacked(layers@)
                                &&& forall|i: int, j: int|
                                    #![trigger layers@[i], layers@[j]]
                                    0 <= i < j < layers@.len() ==> layers@[i].z < layers@[j].z || (
                                    layers@[i].z == layers@[j].z && layers@[i].layer.0
                                        < layers@[j].layer.0)
                                &&& layers@.to_multiset() == gathering.prepared.to_multiset()
                            },
                            ComposedSubmission::Failed { .. } => false,
                        },
                    }
                }
            }),
    {
        let target = match self.cancel_render_target(display) {
            Some(target) => target,
            None => {
                assert(self@.pending_targets =~= old(self)@.pending_targets);
                return ComposedSubmission::Failed {
                    failure: PresentationFailure::unsubmitted(ErrorCode::BadParameter),
                    cancel: None,
                };
            },
        };
        if !frame.requires_acquire_fence || !target.matches(&frame.buffer) {
            return ComposedSubmission::Failed {
                failure: PresentationFailure::unsubmitted(ErrorCode::BadParameter),
                cancel: Some(target.id),
            };
        }
        let ghost released = self@;
        let prepared = match self.layers_mut(display.0) {
            Some(layers) => {
                let ghost listed = layers@;
                proof {
                    assert forall|key: u64| #[trigger] listed.contains_key(key) implies listed[key].wf() by {
                        assert(released.has_layer(display.0, key));
                    }
                }
                layers.prepare(uncopied)
            },
            None => {
                let none: Vec<PreparedLayer> = Vec::new();
                proof {
                    broadcast use vstd::seq_lib::group_to_multiset_ensures;

                    let empty = Map::<u64, LayerModel>::empty();
                    crate::ordered::lemma_in_order_lists(empty.dom());
                    let keys = in_order(empty.dom());
                    if keys.len() > 0 {
                        assert(keys.contains(keys[0]));
                        assert(empty.dom().contains(keys[0]));
                    }
                    assert(keys =~= Seq::empty());
                    assert(none@ =~= Seq::empty());
                }
                Ok(none)
            },
        };
        proof {
            let after = self@;
            assert forall|d: u64, l: u64| #[trigger] after.has_layer(d, l) implies after.layers[d][l].wf() by {
                if d != display.0 {
                    assert(released.has_layer(d, l));
                }
            }
        }
        match prepared {
            Ok(layers) => {
                proof {
                    assert forall|i: int, j: int|
                        #![trigger layers@[i], layers@[j]]
                        0 <= i < j < layers@.len() implies layers@[i].z < layers@[j].z || (
                    layers@[i].z == layers@[j].z && layers@[i].layer.0 < layers@[j].layer.0) by {
                        assert(below(layers@[i], layers@[j]));
                    }
                }
                ComposedSubmission::Submit { target, layers }
            },
            Err(code) => ComposedSubmission::Failed {
                failure: PresentationFailure::unsubmitted(code),
                cancel: Some(target.id),
            },
        }
    }
}

/// A command to one layer changes no other layer, of this display or another.
pub proof fn law_layers_are_independent(
    adapter: AdapterModel,
    display: DisplayId,
    layer: LayerId,
    command: LayerUpdate,
    other_display: u64,
    other: u64,
)
    requires
        adapter.wf(),
        other_display != display.0 || other != layer.0,
        adapter.has_layer(other_display, other),
    ensures
        adapter.update(display, layer, command).0.has_layer(other_display, other),
        adapter.update(display, layer, command).0.layers[other_display][other]
            == adapter.layers[other_display][other],
{
}

/// A buffer sent once with its handle is found again in its slot without one.
pub proof fn law_slots_remember(layer: LayerModel, first: BufferUpdate, second: BufferUpdate, update: u64)
    requires
        layer.wf(),
        first.import is Some,
        layer.resolve(first) is Ok,
        second.import is None,
        second.slot == first.slot,
        second.duplicated,
    ensures
        ({
            let after = layer.unchanged().attach(Some(first), update).layer;
            after.resolve(second) == layer.resolve(first)
        }),
{
}

/// A cleared slot holds nothing: naming it without a handle fails until it is
/// filled again.
pub proof fn law_cleared_slots_are_empty(
    layer: LayerModel,
    slots: Vec<i32>,
    buffer: BufferUpdate,
    at: int,
)
    requires
        layer.wf(),
        clear_error(slots@, layer.slots.len()) is None,
        0 <= at < slots@.len(),
        buffer.slot == slots@[at],
        buffer.import is None,
    ensures
        layer.unchanged().forget(Some(slots)).layer.resolve(buffer) == Err::<
            ImportedMinigbmBuffer,
            ErrorCode,
        >(ErrorCode::BadParameter),
{
    assert(slot_of(slots@[at], layer.slots.len()) is Ok);
}

/// A layer fence is handed out once: after a successful snapshot, no layer
/// that was drawn has a fence left.
pub proof fn law_fences_are_taken_once(
    layers: Map<u64, LayerModel>,
    keys: Seq<u64>,
    uncopied: Option<LayerId>,
    at: int,
)
    requires
        keys.no_duplicates(),
        gathered(layers, keys, uncopied).error is None,
        0 <= at < keys.len(),
        layers[keys[at]].drawn(),
    ensures
        gathered(layers, keys, uncopied).layers[keys[at]].acquire_fence is None,
    decreases keys.len(),
{
    let rest = keys.drop_last();
    if at < rest.len() {
        assert(rest[at] == keys[at]);
        law_fences_are_taken_once(layers, rest, uncopied, at);
        assert(keys[keys.len() - 1] != keys[at]);
    }
}

/// Layers are drawn from the bottom to the top: a layer that is drawn later has
/// a stacking order that is at least as high, and of two layers with the same
/// one the layer with the higher identity is drawn later. What is drawn later
/// covers what is below it.
pub proof fn law_layers_are_drawn_from_the_bottom(layers: Seq<PreparedLayer>, i: int, j: int)
    requires
        stacked(layers),
        0 <= i < layers.len(),
        0 <= j < layers.len(),
    ensures
        layers[i].z < layers[j].z ==> i < j,
        layers[i].z == layers[j].z && layers[i].layer.0 < layers[j].layer.0 ==> i < j,
        i < j ==> layers[i].z <= layers[j].z,
        i < j && layers[i].z == layers[j].z ==> layers[i].layer.0 < layers[j].layer.0,
{
    if j < i {
        assert(below(layers[j], layers[i]));
    }
    if i < j {
        assert(below(layers[i], layers[j]));
    }
}

/// A layer is composed as its last commands left it: with its destination,
/// transform, blend mode, alpha, fence and stacking order. A solid color has no
/// buffer and any other layer no color. Without a crop of its own a buffer is
/// drawn whole, and a color over an area of the size of its destination.
pub proof fn law_snapshots_show_their_layer(layer: LayerModel, id: u64, uncopied: Option<LayerId>)
    ensures
        layer.drawn() == (layer.composition == 3 || layer.buffer is Some),
        layer.snapshot(id, uncopied) is Ok <==> layer.display_frame is Some && (layer.composition
            == 3 || uncopied != Some(LayerId(id))),
        layer.snapshot(id, uncopied) matches Ok(shown) ==> {
            &&& shown.layer.0 == id
            &&& Some(shown.display_frame) == layer.display_frame
            &&& shown.transform == layer.transform
            &&& shown.blend_mode == layer.blend_mode
            &&& shown.plane_alpha == layer.plane_alpha
            &&& shown.acquire_fence == layer.acquire_fence
            &&& shown.z == layer.z
            &&& layer.composition == 3 ==> shown.buffer is None && shown.solid_color
                == layer.solid_color
            &&& layer.composition != 3 ==> shown.buffer == layer.buffer && shown.solid_color is None
            &&& layer.source_crop matches Some(update) ==> shown.source_crop == LayerCrop::Update(
                update,
            )
            &&& layer.source_crop is None && shown.buffer is Some ==> shown.source_crop
                == (LayerCrop::Buffer {
                width: shown.buffer->0.width,
                height: shown.buffer->0.height,
            })
            &&& layer.wf() && layer.source_crop is None && shown.buffer is None ==> {
                &&& shown.source_crop is Frame
                &&& shown.source_crop->Frame_width == shown.display_frame.right
                    - shown.display_frame.left
                &&& shown.source_crop->Frame_height == shown.display_frame.bottom
                    - shown.display_frame.top
            }
        },
{
}

/// Every layer with a color or a buffer is composed, once, and no other.
pub proof fn law_every_drawn_layer_is_composed(
    layers: Map<u64, LayerModel>,
    keys: Seq<u64>,
    uncopied: Option<LayerId>,
    at: int,
)
    requires
        keys.no_duplicates(),
        gathered(layers, keys, uncopied).error is None,
        0 <= at < keys.len(),
    ensures
        ({
            let layer = layers[keys[at]];
            let prepared = gathered(layers, keys, uncopied).prepared;
            if layer.composition == 3 || layer.buffer is Some {
                exists|i: int|
                    0 <= i < prepared.len() && (#[trigger] prepared[i]).layer.0 == keys[at]
                        && prepared[i].z == layer.z && Some(prepared[i].display_frame)
                        == layer.display_frame && prepared[i].acquire_fence == layer.acquire_fence
            } else {
                forall|i: int|
                    0 <= i < prepared.len() ==> (#[trigger] prepared[i]).layer.0 != keys[at]
            }
        }),
    decreases keys.len(),
{
    let rest = keys.drop_last();
    let before = gathered(layers, rest, uncopied);
    let after = gathered(layers, keys, uncopied);
    let key = keys[at];
    let layer = layers[key];
    assert(before.error is None);
    lemma_prepared_are_listed(layers, rest, uncopied);
    if at < rest.len() {
        assert(rest[at] == key);
        law_every_drawn_layer_is_composed(layers, rest, uncopied, at);
        if layer.composition == 3 || layer.buffer is Some {
            let i = choose|i: int|
                0 <= i < before.prepared.len() && (#[trigger] before.prepared[i]).layer.0 == key
                    && before.prepared[i].z == layer.z && Some(before.prepared[i].display_frame)
                    == layer.display_frame && before.prepared[i].acquire_fence
                    == layer.acquire_fence;
            assert(after.prepared[i] == before.prepared[i]);
        } else {
            assert forall|i: int| 0 <= i < after.prepared.len() implies (
            #[trigger] after.prepared[i]).layer.0 != key by {
                if i < before.prepared.len() {
                    assert(after.prepared[i] == before.prepared[i]);
                } else {
                    assert(after.prepared[i].layer.0 == keys[keys.len() - 1]);
                }
            }
        }
    } else {
        assert(keys.last() == key);
        if layer.composition == 3 || layer.buffer is Some {
            let i = before.prepared.len() as int;
            assert(after.prepared[i].layer.0 == key);
        } else {
            assert forall|i: int| 0 <= i < after.prepared.len() implies (
            #[trigger] after.prepared[i]).layer.0 != key by {
                let k = choose|k: int| 0 <= k < rest.len() && rest[k] == before.prepared[i].layer.0;
                assert(rest.contains(before.prepared[i].layer.0));
                assert(keys[k] == rest[k]);
            }
        }
    }
}

proof fn lemma_prepared_are_listed(
    layers: Map<u64, LayerModel>,
    keys: Seq<u64>,
    uncopied: Option<LayerId>,
)
    ensures
        forall|i: int|
            0 <= i < gathered(layers, keys, uncopied).prepared.len() ==> keys.contains(
                (#[trigger] gathered(layers, keys, uncopied).prepared[i]).layer.0,
            ),
    decreases keys.len(),
{
    if keys.len() > 0 {
        let rest = keys.drop_last();
        lemma_prepared_are_listed(layers, rest, uncopied);
        let before = gathered(layers, rest, uncopied);
        let after = gathered(layers, keys, uncopied);
        assert forall|i: int| 0 <= i < after.prepared.len() implies keys.contains(
            (#[trigger] after.prepared[i]).layer.0,
        ) by {
            if i < before.prepared.len() {
                assert(after.prepared[i] == before.prepared[i]);
                let k = choose|k: int| 0 <= k < rest.len() && rest[k] == before.prepared[i].layer.0;
                assert(rest.contains(before.prepared[i].layer.0));
                assert(keys[k] == before.prepared[i].layer.0);
            } else {
                assert(keys[keys.len() - 1] == after.prepared[i].layer.0);
            }
        }
    }
}

/// A command that succeeds leaves each value that it names on the layer, under
/// its own update, and every value that it does not name as it was.
pub proof fn law_layer_commands_take_effect(layer: LayerModel, command: LayerUpdate)
    requires
        layer.updated(command).error is None,
    ensures
        ({
            let after = layer.updated(command).layer;
            &&& command.z matches Some(z) ==> after.z == z
            &&& command.z is None ==> after.z == layer.z
            &&& command.display_frame is Some ==> after.display_frame == command.display_frame
            &&& command.display_frame is None ==> after.display_frame == layer.display_frame
            &&& command.plane_alpha is Some ==> after.plane_alpha == Some(command.update)
            &&& command.plane_alpha is None ==> after.plane_alpha == layer.plane_alpha
            &&& command.color is Some ==> after.solid_color == Some(command.update)
            &&& command.color is None ==> after.solid_color == layer.solid_color
            &&& command.composition is None ==> after.composition == layer.composition
            &&& command.transform is None ==> after.transform == layer.transform
            &&& command.blend_mode is None ==> after.blend_mode == layer.blend_mode
            &&& after.composition == 3 && (command.composition is Some || command.source_crop is Some)
                ==> after.source_crop is None
            &&& after.composition != 3 && command.source_crop is Some ==> after.source_crop == Some(
                command.update,
            )
            &&& after.composition != 3 && command.source_crop is None ==> after.source_crop
                == layer.source_crop
            &&& command.buffer is None ==> after.buffer == layer.buffer && after.acquire_fence
                == layer.acquire_fence
            &&& command.buffer matches Some(buffer) ==> {
                &&& after.acquire_fence == (if buffer.fence is Some {
                    Some(command.update)
                } else {
                    None
                })
                &&& 0 <= buffer.slot < layer.slots.len()
                &&& buffer.import matches Some(imported) ==> imported is Ok && after.buffer == Some(
                    imported->Ok_0,
                ) && after.slots[buffer.slot as int] == after.buffer
                &&& buffer.import is None && command.slots_to_clear is None ==> after.buffer
                    == layer.slots[buffer.slot as int] && after.slots == layer.slots
            }
        }),
{
}

/// The compositor's numbers: a composition, a blend mode, and a transform as the
/// sum of a horizontal flip, a vertical flip and a quarter turn. Half a turn is
/// both flips, and three quarters are those and a quarter turn.
pub proof fn law_layer_values_have_fixed_numbers(layer: LayerModel, command: LayerUpdate)
    ensures
        layer.updated(command).error is None ==> {
            let after = layer.updated(command).layer;
            &&& command.composition == Some(RequestedComposition::Client) ==> after.composition == 0
            &&& command.composition == Some(RequestedComposition::Device) ==> after.composition == 1
            &&& command.composition == Some(RequestedComposition::Cursor) ==> after.composition == 2
            &&& command.composition == Some(RequestedComposition::SolidColor) ==> after.composition
                == 3
            &&& command.blend_mode == Some(RequestedBlend::Opaque) ==> after.blend_mode == 1
            &&& command.blend_mode == Some(RequestedBlend::Premultiplied) ==> after.blend_mode == 2
            &&& command.blend_mode == Some(RequestedBlend::Coverage) ==> after.blend_mode == 3
            &&& command.transform == Some(RequestedTransform::Identity) ==> after.transform == 0
            &&& command.transform == Some(RequestedTransform::FlipH) ==> after.transform == 1
            &&& command.transform == Some(RequestedTransform::FlipV) ==> after.transform == 2
            &&& command.transform == Some(RequestedTransform::Rot90) ==> after.transform == 4
            &&& command.transform == Some(RequestedTransform::Rot180) ==> after.transform == 1 + 2
            &&& command.transform == Some(RequestedTransform::Rot270) ==> after.transform == 1 + 2 + 4
        },
        command.composition == Some(RequestedComposition::Sideband) || command.composition == Some(
            RequestedComposition::Other,
        ) || command.transform == Some(RequestedTransform::Other) || command.blend_mode == Some(
            RequestedBlend::Other,
        ) ==> layer.updated(command).error is Some,
{
}

/// A command with a destination that is empty or starts outside of the display,
/// with a value out of its range, with a slot that the layer does not have or
/// that holds nothing, or with a buffer or fence that could not be had, fails.
pub proof fn law_bad_layer_values_are_refused(layer: LayerModel, command: LayerUpdate)
    requires
        layer.wf(),
    ensures
        layer.updated(command).error is None ==> {
            &&& command.display_frame matches Some(frame) ==> 0 <= frame.left < frame.right && 0
                <= frame.top < frame.bottom
            &&& command.plane_alpha != Some(false)
            &&& command.color != Some(false)
            &&& command.source_crop == Some(false) ==> layer.updated(command).layer.composition == 3
            &&& command.slots_to_clear matches Some(slots) ==> slots@.len() <= 4096 && forall|i: int|
                0 <= i < slots@.len() ==> 0 <= #[trigger] slots@[i] < layer.slots.len()
            &&& command.buffer matches Some(buffer) ==> {
                &&& 0 <= buffer.slot < layer.slots.len()
                &&& buffer.duplicated
                &&& buffer.fence != Some(false)
                &&& buffer.import matches Some(imported) ==> imported is Ok
                &&& buffer.import is None ==> layer.slots[buffer.slot as int] is Some
            }
        },
        layer.updated(command).error == Some(ErrorCode::BadParameter) || layer.updated(command).error
            == Some(ErrorCode::NoResources) || layer.updated(command).error == Some(
            ErrorCode::Unsupported,
        ) || layer.updated(command).error is None || (command.buffer is Some
            && command.buffer->0.import is Some && command.buffer->0.import->0 is Err),
{
    if layer.updated(command).error is None {
        if let Some(slots) = command.slots_to_clear {
            assert(clear_error(slots@, layer.slots.len()) is None);
            assert forall|i: int| 0 <= i < slots@.len() implies 0 <= #[trigger] slots@[i]
                < layer.slots.len() by {
                assert(slot_of(slots@[i], layer.slots.len()) is Ok);
            }
        }
    }
}

/// A new layer is an opaque, untransformed client layer at the bottom with as
/// many empty slots as it asked for: at least one and at most 4096. It neither
/// replaces a layer nor touches one.
pub proof fn law_new_layers_are_empty(
    adapter: AdapterModel,
    display: DisplayId,
    layer: LayerId,
    count: u32,
    slot: int,
)
    ensures
        adapter.create_error(display, layer, count) is None <==> !adapter.has_layer(
            display.0,
            layer.0,
        ) && 1 <= count <= 4096,
        adapter.has_layer(display.0, layer.0) ==> adapter.create_error(display, layer, count)
            == Some(ErrorCode::BadLayer),
        ({
            let after = adapter.with_layer(display.0, layer.0, LayerModel::fresh(count));
            let state = after.layers[display.0][layer.0];
            &&& after.has_layer(display.0, layer.0)
            &&& state.slots.len() == count
            &&& 0 <= slot < count ==> state.slots[slot] is None
            &&& state.buffer is None && state.acquire_fence is None && state.display_frame is None
            &&& state.source_crop is None && state.plane_alpha is None && state.solid_color is None
            &&& state.transform == 0 && state.blend_mode == 1 && state.z == 0 && state.composition
                == 0
            &&& !state.drawn()
            &&& after.pending_targets == adapter.pending_targets
            &&& forall|d: u64, l: u64|
                (d != display.0 || l != layer.0) ==> #[trigger] after.has_layer(d, l)
                    == adapter.has_layer(d, l)
        }),
{
    let after = adapter.with_layer(display.0, layer.0, LayerModel::fresh(count));
    assert forall|d: u64, l: u64|
        (d != display.0 || l != layer.0) implies #[trigger] after.has_layer(d, l)
        == adapter.has_layer(d, l) by {}
}

/// A command reaches only an existing layer, only as a modification, and says
/// whether the buffer that it brought is protected.
pub proof fn law_layer_commands_reach_their_layer(
    adapter: AdapterModel,
    display: DisplayId,
    layer: LayerId,
    command: LayerUpdate,
)
    ensures
        ({
            let (after, outcome) = adapter.update(display, layer, command);
            &&& outcome is Ok ==> command.modifies && command.new_buffer_slot_count == 0
                && adapter.has_layer(display.0, layer.0)
            &&& (!command.modifies || command.new_buffer_slot_count != 0) ==> outcome == Err::<
                Option<bool>,
                ErrorCode,
            >(ErrorCode::Unsupported) && after == adapter
            &&& command.modifies && command.new_buffer_slot_count == 0 && !adapter.has_layer(
                display.0,
                layer.0,
            ) ==> outcome == Err::<Option<bool>, ErrorCode>(ErrorCode::BadLayer) && after == adapter
            &&& outcome is Ok ==> after.layers[display.0][layer.0]
                == adapter.layers[display.0][layer.0].updated(command).layer
            &&& outcome is Ok && command.buffer is None ==> outcome->Ok_0 is None
            &&& outcome is Ok && command.buffer is Some ==> outcome->Ok_0 == Some(
                after.layers[display.0][layer.0].buffer->0.protected_content,
            )
            &&& after.pending_targets == adapter.pending_targets
        }),
{
}

/// A command succeeds when every value that it brings is in its range, every
/// slot that it names is one of the layer's, and its buffer and fence could be
/// had; a buffer without an import comes from its slot.
pub proof fn law_good_layer_commands_succeed(layer: LayerModel, command: LayerUpdate)
    requires
        layer.wf(),
        command.slots_to_clear is None,
        command.display_frame matches Some(frame) ==> 0 <= frame.left < frame.right && 0 <= frame.top
            < frame.bottom,
        command.plane_alpha != Some(false),
        command.color != Some(false),
        command.source_crop != Some(false),
        command.composition != Some(RequestedComposition::Sideband),
        command.composition != Some(RequestedComposition::Other),
        command.transform != Some(RequestedTransform::Other),
        command.blend_mode != Some(RequestedBlend::Other),
        command.buffer matches Some(buffer) ==> {
            &&& 0 <= buffer.slot < layer.slots.len()
            &&& buffer.duplicated
            &&& buffer.fence != Some(false)
            &&& buffer.import matches Some(imported) ==> imported is Ok
            &&& buffer.import is None ==> layer.slots[buffer.slot as int] is Some
        },
    ensures
        layer.updated(command).error is None,
{
}

/// Slots are cleared when there are at most 4096 of them and each is one of the
/// layer's; those and no others are empty then.
pub proof fn law_slots_are_cleared_alone(
    entries: Seq<Option<ImportedMinigbmBuffer>>,
    slots: Seq<i32>,
    at: int,
)
    requires
        0 <= at < entries.len(),
    ensures
        clear_error(slots, entries.len()) is None <==> slots.len() <= 4096 && forall|i: int|
            0 <= i < slots.len() ==> 0 <= #[trigger] slots[i] < entries.len(),
        cleared(entries, slots).len() == entries.len(),
        (exists|k: int| 0 <= k < slots.len() && #[trigger] slots[k] == at) ==> cleared(
            entries,
            slots,
        )[at] is None,
        !(exists|k: int| 0 <= k < slots.len() && #[trigger] slots[k] == at) ==> cleared(
            entries,
            slots,
        )[at] == entries[at],
{
    assert(forall|i: int|
        0 <= i < slots.len() ==> (slot_of(#[trigger] slots[i], entries.len()) is Ok <==> 0
            <= slots[i] < entries.len()));
    if clear_error(slots, entries.len()) is None {
        assert forall|i: int| 0 <= i < slots.len() implies 0 <= #[trigger] slots[i]
            < entries.len() by {
            assert(slot_of(slots[i], entries.len()) is Ok);
        }
    }
}

} // verus!
