//! Decisions of the EGL/GLES layer compositor. The adapter holds the context,
//! the images and the fences, and computes in floating point what stands here as
//! a choice of corners.

use vstd::prelude::*;

use crate::minigbm::PreparedLayer;
use crate::transport::{BufferMetadata, BufferView, PlaneMetadata};

verus! {

/// EGL/GLES setup, import, shader, or native-fence failure.
#[derive(Clone, Copy, Debug, PartialEq, Eq)]
pub struct GlesError(pub &'static str);

/// End of an attribute list.
pub const EGL_NONE: i32 = 0x3038;

/// Attribute of the image width.
pub const EGL_WIDTH: i32 = 0x3057;

/// Attribute of the image height.
pub const EGL_HEIGHT: i32 = 0x3056;

/// Attribute of the image format.
pub const EGL_LINUX_DRM_FOURCC_EXT: i32 = 0x3271;

/// Blend factor one.
pub const GL_ONE: u32 = 1;

/// Blend factor of the source alpha.
pub const GL_SRC_ALPHA: u32 = 0x0302;

/// Blend factor of what the source alpha leaves.
pub const GL_ONE_MINUS_SRC_ALPHA: u32 = 0x0303;

/// Status of a framebuffer that can be drawn to.
pub const GL_FRAMEBUFFER_COMPLETE: u32 = 0x8cd5;

/// Highest number of planes of one image.
pub const MAX_IMAGE_PLANES: usize = 4;

/// EGL names of the attributes of a plane: descriptor, offset, pitch, and the
/// low and high half of its modifier.
pub open spec fn plane_names(index: int) -> Seq<i32> {
    if index == 0 {
        seq![0x3272i32, 0x3273i32, 0x3274i32, 0x3443i32, 0x3444i32]
    } else if index == 1 {
        seq![0x3275i32, 0x3276i32, 0x3277i32, 0x3445i32, 0x3446i32]
    } else if index == 2 {
        seq![0x3278i32, 0x3279i32, 0x327ai32, 0x3447i32, 0x3448i32]
    } else {
        seq![0x3440i32, 0x3441i32, 0x3442i32, 0x3449i32, 0x344ai32]
    }
}

fn names_of_plane(index: usize) -> (names: [i32; 5])
    ensures
        names@ == plane_names(index as int),
{
    let names: [i32; 5] = if index == 0 {
        [0x3272, 0x3273, 0x3274, 0x3443, 0x3444]
    } else if index == 1 {
        [0x3275, 0x3276, 0x3277, 0x3445, 0x3446]
    } else if index == 2 {
        [0x3278, 0x3279, 0x327a, 0x3447, 0x3448]
    } else {
        [0x3440, 0x3441, 0x3442, 0x3449, 0x344a]
    };
    assert(names@ =~= plane_names(index as int));
    names
}

/// Attributes of one plane.
pub open spec fn plane_attributes(index: int, descriptor: i32, plane: PlaneMetadata, modifier: u64) -> Seq<
    i32,
> {
    let names = plane_names(index);
    seq![
        names[0],
        descriptor,
        names[1],
        plane.offset as i32,
        names[2],
        plane.stride as i32,
        names[3],
        low_half(modifier),
        names[4],
        high_half(modifier),
    ]
}

/// Low 32 bits of a modifier, as EGL carries them.
pub open spec fn low_half(modifier: u64) -> i32 {
    modifier as u32 as i32
}

/// High 32 bits of a modifier, as EGL carries them.
pub open spec fn high_half(modifier: u64) -> i32 {
    (modifier >> 32) as u32 as i32
}

/// Attributes of the first planes of an image, in order.
pub open spec fn planes_attributes(
    descriptors: Seq<i32>,
    planes: Seq<PlaneMetadata>,
    modifier: u64,
    count: int,
) -> Seq<i32>
    decreases count,
{
    if count <= 0 {
        Seq::empty()
    } else {
        planes_attributes(descriptors, planes, modifier, count - 1) + plane_attributes(
            count - 1,
            descriptors[count - 1],
            planes[count - 1],
            modifier,
        )
    }
}

/// First reason not to import an image, in the order of its attributes.
pub open spec fn import_error(metadata: BufferView, descriptors: Seq<i32>) -> Option<GlesError> {
    if descriptors.len() != metadata.planes.len() || descriptors.len() == 0 || descriptors.len()
        > MAX_IMAGE_PLANES {
        Some(GlesError("DMA-BUF plane table mismatch"))
    } else if metadata.width > i32::MAX {
        Some(GlesError("image width"))
    } else if metadata.height > i32::MAX {
        Some(GlesError("image height"))
    } else {
        planes_error(metadata.planes, metadata.planes.len() as int)
    }
}

/// First plane that EGL cannot name, among the first planes.
pub open spec fn planes_error(planes: Seq<PlaneMetadata>, count: int) -> Option<GlesError>
    decreases count,
{
    if count <= 0 {
        None
    } else if planes_error(planes, count - 1) is Some {
        planes_error(planes, count - 1)
    } else if planes[count - 1].offset > i32::MAX {
        Some(GlesError("plane offset"))
    } else if planes[count - 1].stride > i32::MAX {
        Some(GlesError("plane stride"))
    } else {
        None
    }
}

/// A failed plane decides, whatever follows it.
proof fn lemma_planes_stop(planes: Seq<PlaneMetadata>, count: int, all: int)
    requires
        count <= all,
        planes_error(planes, count) is Some,
    ensures
        planes_error(planes, all) == planes_error(planes, count),
    decreases all - count,
{
    if count < all {
        lemma_planes_stop(planes, count, all - 1);
    }
}

/// Attributes with which EGL imports a DMA-BUF image.
pub fn image_attributes(metadata: &BufferMetadata, descriptors: &Vec<i32>) -> (result: Result<
    Vec<i32>,
    GlesError,
>)
    ensures
        match import_error(metadata@, descriptors@) {
            Some(error) => result == Err::<Vec<i32>, GlesError>(error),
            None => {
                &&& result is Ok
                &&& result->Ok_0@ == seq![
                    EGL_WIDTH,
                    metadata.width as i32,
                    EGL_HEIGHT,
                    metadata.height as i32,
                    EGL_LINUX_DRM_FOURCC_EXT,
                    metadata.format.fourcc as i32,
                ] + planes_attributes(
                    descriptors@,
                    metadata.planes@,
                    metadata.format.modifier,
                    metadata.planes@.len() as int,
                ) + seq![EGL_NONE]
            },
        },
{
    let count: usize = descriptors.len();
    if count != metadata.planes.len() || count == 0 || count > MAX_IMAGE_PLANES {
        return Err(GlesError("DMA-BUF plane table mismatch"));
    }
    if metadata.width > i32::MAX as u32 {
        return Err(GlesError("image width"));
    }
    if metadata.height > i32::MAX as u32 {
        return Err(GlesError("image height"));
    }
    let mut attributes: Vec<i32> = Vec::new();
    attributes.push(EGL_WIDTH);
    attributes.push(metadata.width as i32);
    attributes.push(EGL_HEIGHT);
    attributes.push(metadata.height as i32);
    attributes.push(EGL_LINUX_DRM_FOURCC_EXT);
    attributes.push(metadata.format.fourcc as i32);
    let ghost head = seq![
        EGL_WIDTH,
        metadata.width as i32,
        EGL_HEIGHT,
        metadata.height as i32,
        EGL_LINUX_DRM_FOURCC_EXT,
        metadata.format.fourcc as i32,
    ];
    let modifier: u64 = metadata.format.modifier;
    assert(attributes@ =~= head + Seq::<i32>::empty());
    let mut index: usize = 0;
    while index < count
        invariant
            index <= count == descriptors@.len() == metadata.planes@.len(),
            count <= MAX_IMAGE_PLANES,
            modifier == metadata.format.modifier,
            metadata.width <= i32::MAX,
            metadata.height <= i32::MAX,
            count > 0,
            planes_error(metadata.planes@, index as int) is None,
            attributes@ == head + planes_attributes(
                descriptors@,
                metadata.planes@,
                modifier,
                index as int,
            ),
        decreases count - index,
    {
        let plane = metadata.planes[index];
        let names = names_of_plane(index);
        if plane.offset > i32::MAX as u32 {
            proof {
                lemma_planes_stop(metadata.planes@, index + 1, count as int);
            }
            return Err(GlesError("plane offset"));
        }
        if plane.stride > i32::MAX as u32 {
            proof {
                lemma_planes_stop(metadata.planes@, index + 1, count as int);
            }
            return Err(GlesError("plane stride"));
        }
        let ghost before = attributes@;
        attributes.push(names[0]);
        attributes.push(descriptors[index]);
        attributes.push(names[1]);
        attributes.push(plane.offset as i32);
        attributes.push(names[2]);
        attributes.push(plane.stride as i32);
        attributes.push(names[3]);
        attributes.push(modifier as u32 as i32);
        attributes.push(names[4]);
        attributes.push((modifier >> 32) as u32 as i32);
        proof {
            let added = plane_attributes(
                index as int,
                descriptors@[index as int],
                metadata.planes@[index as int],
                modifier,
            );
            assert(attributes@ =~= before + added);
            assert(before + added =~= head + (planes_attributes(
                descriptors@,
                metadata.planes@,
                modifier,
                index as int,
            ) + added));
        }
        index = index + 1;
    }
    attributes.push(EGL_NONE);
    assert(attributes@ =~= head + planes_attributes(
        descriptors@,
        metadata.planes@,
        modifier,
        count as int,
    ) + seq![EGL_NONE]);
    Ok(attributes)
}

/// Check a target before its layers are drawn: its size as GLES takes it.
/// `status` is that of the framebuffer with the target attached.
pub fn viewport(target: &BufferMetadata, status: u32, extent: (u32, u32)) -> (result: Result<
    (i32, i32),
    GlesError,
>)
    ensures
        if status != GL_FRAMEBUFFER_COMPLETE {
            result == Err::<(i32, i32), GlesError>(
                GlesError("Denial render target is not framebuffer complete"),
            )
        } else if target.width > i32::MAX {
            result == Err::<(i32, i32), GlesError>(GlesError("target width"))
        } else if target.height > i32::MAX {
            result == Err::<(i32, i32), GlesError>(GlesError("target height"))
        } else if extent.0 == 0 || extent.1 == 0 {
            result == Err::<(i32, i32), GlesError>(GlesError("invalid Android display extent"))
        } else {
            result == Ok::<(i32, i32), GlesError>((target.width as i32, target.height as i32))
        },
{
    if status != GL_FRAMEBUFFER_COMPLETE {
        return Err(GlesError("Denial render target is not framebuffer complete"));
    }
    if target.width > i32::MAX as u32 {
        return Err(GlesError("target width"));
    }
    if target.height > i32::MAX as u32 {
        return Err(GlesError("target height"));
    }
    if extent.0 == 0 || extent.1 == 0 {
        return Err(GlesError("invalid Android display extent"));
    }
    Ok((target.width as i32, target.height as i32))
}

/// How a layer is blended into the target.
#[derive(Clone, Copy, Debug, PartialEq, Eq, Structural)]
pub enum Blending {
    /// The layer replaces what is below it.
    Off,
    /// The layer is blended with these factors of source and destination.
    Factors {
        /// Factor of the layer.
        source: u32,
        /// Factor of what is below it.
        destination: u32,
    },
}

/// Blending of a blend mode.
pub fn blending(mode: i32) -> (result: Result<Blending, GlesError>)
    ensures
        if mode == 1 {
            result == Ok::<Blending, GlesError>(Blending::Off)
        } else if mode == 2 {
            result == Ok::<Blending, GlesError>(
                (Blending::Factors { source: GL_ONE, destination: GL_ONE_MINUS_SRC_ALPHA }),
            )
        } else if mode == 3 {
            result == Ok::<Blending, GlesError>(
                (Blending::Factors { source: GL_SRC_ALPHA, destination: GL_ONE_MINUS_SRC_ALPHA }),
            )
        } else {
            result == Err::<Blending, GlesError>(GlesError("unsupported Android blend mode"))
        },
{
    if mode == 1 {
        Ok(Blending::Off)
    } else if mode == 2 {
        Ok(Blending::Factors { source: GL_ONE, destination: GL_ONE_MINUS_SRC_ALPHA })
    } else if mode == 3 {
        Ok(Blending::Factors { source: GL_SRC_ALPHA, destination: GL_ONE_MINUS_SRC_ALPHA })
    } else {
        Err(GlesError("unsupported Android blend mode"))
    }
}

/// Texture coordinate of one vertex: an edge of the source crop on each axis,
/// mirrored or not.
#[derive(Clone, Copy, Debug, PartialEq, Eq, Structural)]
pub struct TextureCorner {
    /// Whether the right edge of the crop is taken.
    pub right: bool,
    /// Whether the bottom edge of the crop is taken.
    pub bottom: bool,
    /// Whether the horizontal coordinate is mirrored.
    pub mirror_horizontal: bool,
    /// Whether the vertical coordinate is mirrored.
    pub mirror_vertical: bool,
}

/// Texture coordinates of the top left, top right, bottom left and bottom right
/// vertex under a transform: mirrors first, then a quarter turn.
pub open spec fn corners(transform: i32) -> Seq<TextureCorner> {
    let corner = |right: bool, bottom: bool|
        TextureCorner {
            right,
            bottom,
            mirror_horizontal: transform & 1 != 0,
            mirror_vertical: transform & 2 != 0,
        };
    if transform & 4 != 0 {
        seq![
            corner(false, true),
            corner(false, false),
            corner(true, true),
            corner(true, false),
        ]
    } else {
        seq![
            corner(false, false),
            corner(true, false),
            corner(false, true),
            corner(true, true),
        ]
    }
}

/// Texture coordinates of the four vertices of a layer.
pub fn texture_corners(transform: i32) -> (result: [TextureCorner; 4])
    ensures
        result@ == corners(transform),
{
    let mirror_horizontal: bool = transform & 1 != 0;
    let mirror_vertical: bool = transform & 2 != 0;
    let top_left = TextureCorner {
        right: false,
        bottom: false,
        mirror_horizontal,
        mirror_vertical,
    };
    let top_right = TextureCorner { right: true, ..top_left };
    let bottom_left = TextureCorner { bottom: true, ..top_left };
    let bottom_right = TextureCorner { right: true, bottom: true, ..top_left };
    let result: [TextureCorner; 4] = if transform & 4 != 0 {
        [bottom_left, top_left, bottom_right, top_right]
    } else {
        [top_left, top_right, bottom_left, bottom_right]
    };
    assert(result@ =~= corners(transform));
    result
}

/// Whether a layer samples a texture or is painted with its solid color.
pub fn is_textured(layer: &PreparedLayer) -> (textured: bool)
    ensures
        textured == (layer.solid_color is None),
{
    layer.solid_color.is_none()
}

/// Under every transform each edge pair of the crop is used exactly once, so
/// that the whole crop is drawn.
pub proof fn law_every_corner_is_drawn(transform: i32, right: bool, bottom: bool)
    ensures
        exists|i: int|
            0 <= i < 4 && (#[trigger] corners(transform)[i]).right == right && corners(
                transform,
            )[i].bottom == bottom,
{
    let all = corners(transform);
    assert(all.len() == 4);
    let plain = transform & 4 == 0;
    let at: int = if plain {
        (if bottom {
            2int
        } else {
            0int
        }) + (if right {
            1int
        } else {
            0int
        })
    } else {
        (if right {
            2int
        } else {
            0int
        }) + (if bottom {
            0int
        } else {
            1int
        })
    };
    assert(all[at].right == right && all[at].bottom == bottom);
}

/// An accepted import names the size and format of the image and, for each
/// plane, its own descriptor, offset, pitch and the two halves of the modifier,
/// each behind the number that EGL gives to that attribute of that plane, and
/// ends there. Planes 0 to 2 have consecutive numbers from 0x3272 on, plane 3
/// those from 0x3440 on, and the modifier halves run from 0x3443 on.
pub proof fn law_imports_describe_every_plane(
    metadata: BufferView,
    descriptors: Seq<i32>,
    attributes: Seq<i32>,
    plane: int,
)
    requires
        import_error(metadata, descriptors) is None,
        0 <= plane < metadata.planes.len(),
        attributes == seq![
            EGL_WIDTH,
            metadata.width as i32,
            EGL_HEIGHT,
            metadata.height as i32,
            EGL_LINUX_DRM_FOURCC_EXT,
            metadata.format.fourcc as i32,
        ] + planes_attributes(
            descriptors,
            metadata.planes,
            metadata.format.modifier,
            metadata.planes.len() as int,
        ) + seq![EGL_NONE],
    ensures
        1 <= metadata.planes.len() <= 4,
        descriptors.len() == metadata.planes.len(),
        attributes.len() == 7 + 10 * metadata.planes.len(),
        attributes[0] == 0x3057 && attributes[1] == metadata.width,
        attributes[2] == 0x3056 && attributes[3] == metadata.height,
        attributes[4] == 0x3271 && attributes[5] == metadata.format.fourcc as i32,
        attributes.last() == 0x3038,
        ({
            let base = if plane < 3 {
                0x3272 + 3 * plane
            } else {
                0x3440int
            };
            let at = 6 + 10 * plane;
            &&& attributes[at] == base && attributes[at + 1] == descriptors[plane]
            &&& attributes[at + 2] == base + 1 && attributes[at + 3]
                == metadata.planes[plane].offset
            &&& attributes[at + 4] == base + 2 && attributes[at + 5]
                == metadata.planes[plane].stride
            &&& attributes[at + 6] == 0x3443 + 2 * plane && attributes[at + 7]
                == metadata.format.modifier as u32 as i32
            &&& attributes[at + 8] == 0x3444 + 2 * plane && attributes[at + 9] == (
            metadata.format.modifier >> 32) as u32 as i32
        }),
{
    let count = metadata.planes.len() as int;
    let modifier = metadata.format.modifier;
    lemma_plane_attributes(descriptors, metadata.planes, modifier, plane, count);
    lemma_planes_fit(metadata.planes, plane, count);
    let all = planes_attributes(descriptors, metadata.planes, modifier, count);
    let own = plane_attributes(plane, descriptors[plane], metadata.planes[plane], modifier);
    assert forall|k: int| 0 <= k < 10 implies attributes[6 + 10 * plane + k] == #[trigger] own[k] by {
        assert(all[10 * plane + k] == own[k]);
    }
    assert(own[0] == attributes[6 + 10 * plane]);
    assert(own[1] == attributes[6 + 10 * plane + 1]);
    assert(own[2] == attributes[6 + 10 * plane + 2]);
    assert(own[3] == attributes[6 + 10 * plane + 3]);
    assert(own[4] == attributes[6 + 10 * plane + 4]);
    assert(own[5] == attributes[6 + 10 * plane + 5]);
    assert(own[6] == attributes[6 + 10 * plane + 6]);
    assert(own[7] == attributes[6 + 10 * plane + 7]);
    assert(own[8] == attributes[6 + 10 * plane + 8]);
    assert(own[9] == attributes[6 + 10 * plane + 9]);
}

proof fn lemma_plane_attributes(
    descriptors: Seq<i32>,
    planes: Seq<PlaneMetadata>,
    modifier: u64,
    plane: int,
    count: int,
)
    requires
        0 <= count,
    ensures
        planes_attributes(descriptors, planes, modifier, count).len() == 10 * count,
        0 <= plane < count ==> forall|k: int|
            0 <= k < 10 ==> #[trigger] planes_attributes(descriptors, planes, modifier, count)[10
                * plane + k] == plane_attributes(plane, descriptors[plane], planes[plane], modifier)[k],
    decreases count,
{
    if count > 0 {
        lemma_plane_attributes(descriptors, planes, modifier, plane, count - 1);
        let before = planes_attributes(descriptors, planes, modifier, count - 1);
        let all = planes_attributes(descriptors, planes, modifier, count);
        if 0 <= plane < count {
            assert forall|k: int| 0 <= k < 10 implies #[trigger] all[10 * plane + k]
                == plane_attributes(plane, descriptors[plane], planes[plane], modifier)[k] by {
                if plane < count - 1 {
                    assert(all[10 * plane + k] == before[10 * plane + k]);
                }
            }
        }
    }
}

proof fn lemma_planes_fit(planes: Seq<PlaneMetadata>, plane: int, count: int)
    requires
        planes_error(planes, count) is None,
        0 <= plane < count,
    ensures
        planes[plane].offset <= i32::MAX,
        planes[plane].stride <= i32::MAX,
    decreases count,
{
    if plane < count - 1 {
        lemma_planes_fit(planes, plane, count - 1);
    }
}

/// An image is refused exactly where its planes and descriptors do not match
/// one to one, where there are none or more than four, or where a size, offset
/// or pitch does not fit a signed number.
pub proof fn law_images_are_refused_for_cause(metadata: BufferView, descriptors: Seq<i32>)
    ensures
        import_error(metadata, descriptors) is None <==> {
            &&& descriptors.len() == metadata.planes.len()
            &&& 1 <= descriptors.len() <= 4
            &&& metadata.width <= 0x7fff_ffff
            &&& metadata.height <= 0x7fff_ffff
            &&& forall|i: int|
                0 <= i < metadata.planes.len() ==> (#[trigger] metadata.planes[i]).offset
                    <= 0x7fff_ffff && metadata.planes[i].stride <= 0x7fff_ffff
        },
{
    let count = metadata.planes.len() as int;
    if import_error(metadata, descriptors) is None {
        assert forall|i: int| 0 <= i < metadata.planes.len() implies (
        #[trigger] metadata.planes[i]).offset <= 0x7fff_ffff && metadata.planes[i].stride
            <= 0x7fff_ffff by {
            lemma_planes_fit(metadata.planes, i, count);
        }
    } else if planes_error(metadata.planes, count) is Some {
        lemma_unfit_plane(metadata.planes, count);
    }
}

proof fn lemma_unfit_plane(planes: Seq<PlaneMetadata>, count: int)
    requires
        planes_error(planes, count) is Some,
    ensures
        exists|i: int|
            0 <= i < count && ((#[trigger] planes[i]).offset > i32::MAX || planes[i].stride
                > i32::MAX),
    decreases count,
{
    if planes_error(planes, count - 1) is Some {
        lemma_unfit_plane(planes, count - 1);
        let i = choose|i: int|
            0 <= i < count - 1 && ((#[trigger] planes[i]).offset > i32::MAX || planes[i].stride
                > i32::MAX);
        assert(planes[i].offset > i32::MAX || planes[i].stride > i32::MAX);
    } else {
        assert(planes[count - 1].offset > i32::MAX || planes[count - 1].stride > i32::MAX);
    }
}

/// The two halves of a modifier are its low and high 32 bits: together they are
/// the modifier.
pub proof fn law_modifier_halves_are_complete(modifier: u64)
    ensures
        (high_half(modifier) as u32 as u64) << 32 | (low_half(modifier) as u32 as u64) == modifier,
{
    assert(((modifier >> 32) as u32 as i32 as u32 as u64) << 32 | (modifier as u32 as i32 as u32 as u64)
        == modifier) by (bit_vector);
}

/// Without a quarter turn a vertex samples the corner of the crop on its own
/// side. With one, the top edge samples the left edge of the crop, from its
/// bottom to its top, and the bottom edge samples the right edge. The first bit
/// of a transform mirrors every vertex horizontally and the second vertically.
pub proof fn law_transforms_turn_and_mirror(transform: i32, i: int)
    requires
        0 <= i < 4,
    ensures
        corners(transform).len() == 4,
        corners(transform)[i].mirror_horizontal == (transform & 1 != 0),
        corners(transform)[i].mirror_vertical == (transform & 2 != 0),
        transform & 4 == 0 ==> {
            &&& corners(transform)[i].right == (i == 1 || i == 3)
            &&& corners(transform)[i].bottom == (i == 2 || i == 3)
        },
        transform & 4 != 0 ==> {
            &&& corners(transform)[i].right == (i == 2 || i == 3)
            &&& corners(transform)[i].bottom == (i == 0 || i == 2)
        },
{
}

} // verus!
