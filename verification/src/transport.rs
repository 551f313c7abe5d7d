//! Plain values shared by the Composer, the wire protocol and the presentation
//! transport. Descriptors and fences stay with the platform adapters.

use vstd::prelude::*;

verus! {

/// Stable identity of one DMA-BUF allocation.
#[derive(Clone, Copy, Debug, PartialEq, Eq, PartialOrd, Ord, Structural)]
pub struct BufferId(pub u64);

/// Identity of one submitted frame.
#[derive(Clone, Copy, Debug, PartialEq, Eq, PartialOrd, Ord, Structural)]
pub struct FrameId(pub u64);

/// Explicit DRM format and modifier pair.
#[derive(Clone, Copy, Debug, PartialEq, Eq, PartialOrd, Ord, Structural)]
pub struct FormatModifier {
    /// DRM fourcc code.
    pub fourcc: u32,
    /// Explicit DRM modifier.
    pub modifier: u64,
}

/// Layout of one image plane.
#[derive(Clone, Copy, Debug, PartialEq, Eq, Structural)]
pub struct PlaneMetadata {
    /// Dense plane index.
    pub index: u32,
    /// Byte offset of the plane in its DMA-BUF.
    pub offset: u32,
    /// Row stride in bytes.
    pub stride: u32,
}

/// Damage rectangle in buffer coordinates.
#[derive(Clone, Copy, Debug, PartialEq, Eq, Structural)]
pub struct Damage {
    /// Left edge.
    pub x: u32,
    /// Top edge.
    pub y: u32,
    /// Width in pixels.
    pub width: u32,
    /// Height in pixels.
    pub height: u32,
}

/// Immutable metadata of one DMA-BUF allocation.
#[derive(Clone, Debug, PartialEq, Eq)]
pub struct BufferMetadata {
    /// Allocation identity.
    pub id: BufferId,
    /// Width in pixels.
    pub width: u32,
    /// Height in pixels.
    pub height: u32,
    /// Explicit format and modifier.
    pub format: FormatModifier,
    /// Image planes in dense order.
    pub planes: Vec<PlaneMetadata>,
}

/// Contents of a [`BufferMetadata`].
#[verifier::ext_equal]
pub struct BufferView {
    pub id: BufferId,
    pub width: u32,
    pub height: u32,
    pub format: FormatModifier,
    pub planes: Seq<PlaneMetadata>,
}

impl View for BufferMetadata {
    type V = BufferView;

    open spec fn view(&self) -> BufferView {
        BufferView {
            id: self.id,
            width: self.width,
            height: self.height,
            format: self.format,
            planes: self.planes@,
        }
    }
}

/// Reason for which the presentation transport refused an operation.
#[derive(Clone, Copy, Debug, PartialEq, Eq, Structural)]
pub enum TransportError {
    /// A required acquire or release fence was not supplied.
    MissingFence,
    /// The allocation is still owned by the host.
    BufferInFlight(BufferId),
    /// No frame identity is left.
    FrameIdExhausted,
    /// Another transport invariant does not hold.
    Rejected,
}

/// Host configuration of one task window.
#[derive(Clone, Copy, Debug, PartialEq, Eq, Structural)]
pub struct Configure {
    /// Configure serial.
    pub serial: u32,
    /// Required width in pixels.
    pub width: u32,
    /// Required height in pixels.
    pub height: u32,
    /// Refresh rate in millihertz.
    pub refresh_millihz: u32,
}

/// Frame that the transport accepted.
#[derive(Clone, Debug, PartialEq, Eq)]
pub struct AcceptedFrame {
    /// Identity given to the frame.
    pub frame_id: FrameId,
    /// Submitted allocation.
    pub buffer: BufferMetadata,
    /// Submitted damage.
    pub damage: Vec<Damage>,
    /// Whether the adapter must attach an acquire fence.
    pub requires_acquire_fence: bool,
}

/// Frame that the transport retired.
#[derive(Clone, Copy, Debug, PartialEq, Eq, Structural)]
pub struct ReleasedFrame {
    /// Retired frame.
    pub frame_id: FrameId,
    /// Allocation that the frame owned.
    pub buffer: BufferId,
}

impl BufferMetadata {
    /// Whether both describe the same allocation in every field.
    pub fn matches(&self, other: &BufferMetadata) -> (same: bool)
        ensures
            same == (self@ == other@),
    {
        if self.id != other.id || self.width != other.width || self.height != other.height
            || self.format != other.format || self.planes.len() != other.planes.len() {
            return false;
        }
        let mut index: usize = 0;
        while index < self.planes.len()
            invariant
                index <= self.planes@.len() == other.planes@.len(),
                self.id == other.id,
                self.width == other.width,
                self.height == other.height,
                self.format == other.format,
                forall|i: int| 0 <= i < index ==> self.planes@[i] == other.planes@[i],
            decreases self.planes@.len() - index,
        {
            if self.planes[index] != other.planes[index] {
                assert(self@.planes[index as int] != other@.planes[index as int]);
                return false;
            }
            index = index + 1;
        }
        assert(self@.planes =~= other@.planes);
        true
    }

    /// Copy of this metadata.
    pub fn duplicate(&self) -> (copy: BufferMetadata)
        ensures
            copy@ == self@,
    {
        let planes = self.planes.clone();
        assert(planes@ =~= self.planes@);
        BufferMetadata {
            id: self.id,
            width: self.width,
            height: self.height,
            format: self.format,
            planes,
        }
    }
}

} // verus!
