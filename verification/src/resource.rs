//! Resource creation decisions: usages, shadow memory, extents, view
//! aspects and dimensions, and sampler limits.

use vstd::prelude::*;
use crate::handles::{TexelAspects, TextureFormat};

verus! {

/// Where a buffer's memory lives.
#[derive(Clone, Copy, Debug, PartialEq, Eq, Hash, Structural)]
pub enum Memory {
    /// Device-local memory.
    Device,
    /// Memory the host writes and the device reads.
    Upload,
    /// Memory both sides read and write.
    Shared,
    /// Memory imported from outside; WebGPU cannot use it.
    External,
}

/// Usages a buffer is created with, besides copy source and destination,
/// which every buffer has, and whether it gets a CPU shadow copy.
#[derive(Clone, Copy, Debug, PartialEq, Eq, Hash, Structural)]
pub struct BufferPlan {
    pub storage: bool,
    pub uniform: bool,
    pub vertex: bool,
    pub index: bool,
    pub indirect: bool,
    /// Whether the buffer has CPU shadow memory, uploaded on sync.
    pub shadow: bool,
}

/// Device buffers serve as storage, uniform, vertex, index and indirect
/// buffers without shadow memory; upload and shared buffers serve as all
/// but indirect buffers and have shadow memory.
pub fn buffer_plan(memory: Memory) -> (p: BufferPlan)
    requires
        memory != Memory::External,
    ensures
        p.storage && p.uniform && p.vertex && p.index,
        p.indirect == (memory == Memory::Device),
        p.shadow == (memory != Memory::Device),
{
    match memory {
        Memory::Device => BufferPlan {
            storage: true,
            uniform: true,
            vertex: true,
            index: true,
            indirect: true,
            shadow: false,
        },
        _ => BufferPlan { storage: true, uniform: true, vertex: true, index: true, indirect: false, shadow: true },
    }
}

/// How a texture will be used, as bits: resource 0, storage 1, target 2.
#[derive(Clone, Copy, Debug, PartialEq, Eq, Hash, Structural)]
pub struct TextureUsage {
    pub bits: u32,
}

/// Usages a texture is created with, besides copy source and destination.
#[derive(Clone, Copy, Debug, PartialEq, Eq, Hash, Structural)]
pub struct TexturePlan {
    pub texture_binding: bool,
    pub storage_binding: bool,
    pub render_attachment: bool,
}

/// A sampled resource is a texture binding, a storage texture a storage
/// binding, and a target a render attachment.
pub fn texture_plan(usage: TextureUsage) -> (p: TexturePlan)
    ensures
        p.texture_binding == (usage.bits & 1 != 0),
        p.storage_binding == (usage.bits & 2 != 0),
        p.render_attachment == (usage.bits & 4 != 0),
{
    TexturePlan {
        texture_binding: usage.bits & 1 != 0,
        storage_binding: usage.bits & 2 != 0,
        render_attachment: usage.bits & 4 != 0,
    }
}

/// Dimensionality of a texture.
#[derive(Clone, Copy, Debug, PartialEq, Eq, Hash, Structural)]
pub enum TextureDimension {
    D1,
    D2,
    D3,
}

/// Depth or layer count of a texture: the depth of a 3D texture, the array
/// layer count otherwise.
pub fn depth_or_array_layers(dimension: TextureDimension, depth: u32, array_layer_count: u32) -> (n: u32)
    ensures
        n == (if dimension == TextureDimension::D3 { depth } else { array_layer_count }),
{
    if dimension == TextureDimension::D3 {
        depth
    } else {
        array_layer_count
    }
}

/// Render target size of a texture or frame: width and height clamped to `u16`.
pub fn target_size(width: u32, height: u32) -> (s: [u16; 2])
    ensures
        s[0] == (if width < 0xffff { width } else { 0xffff }),
        s[1] == (if height < 0xffff { height } else { 0xffff }),
{
    let w = if width < 0xffff { width as u16 } else { 0xffff };
    let h = if height < 0xffff { height as u16 } else { 0xffff };
    [w, h]
}

/// Aspect of a texture a view covers.
#[derive(Clone, Copy, Debug, PartialEq, Eq, Hash, Structural)]
pub enum TextureAspect {
    All,
    DepthOnly,
    StencilOnly,
}

/// A depth-only format is viewed through its depth aspect, a stencil-only
/// format through its stencil aspect, any other format whole.
pub fn get_aspect_from_format(format: TextureFormat) -> (a: TextureAspect)
    ensures
        a == (match format {
            TextureFormat::Depth32Float => TextureAspect::DepthOnly,
            TextureFormat::Stencil8Uint => TextureAspect::StencilOnly,
            _ => TextureAspect::All,
        }),
{
    match format {
        TextureFormat::Depth32Float => TextureAspect::DepthOnly,
        TextureFormat::Stencil8Uint => TextureAspect::StencilOnly,
        TextureFormat::Depth32FloatStencil8Uint => TextureAspect::All,
        _ => TextureAspect::All,
    }
}

/// Aspects a view of the format exposes, as bits (color 1, depth 2,
/// stencil 4): depth for the depth formats, stencil for the stencil ones,
/// color for every other format.
pub fn texel_aspects(format: TextureFormat) -> (a: TexelAspects)
    ensures
        a.bits == (match format {
            TextureFormat::Depth32Float => 2u8,
            TextureFormat::Stencil8Uint => 4u8,
            TextureFormat::Depth32FloatStencil8Uint => 6u8,
            _ => 1u8,
        }),
{
    match format {
        TextureFormat::Depth32Float => TexelAspects { bits: 2 },
        TextureFormat::Stencil8Uint => TexelAspects { bits: 4 },
        TextureFormat::Depth32FloatStencil8Uint => TexelAspects { bits: 6 },
        _ => TexelAspects::color(),
    }
}

/// Dimension of a texture view.
#[derive(Clone, Copy, Debug, PartialEq, Eq, Hash, Structural)]
pub enum ViewDimension {
    D1,
    D1Array,
    D2,
    D2Array,
    Cube,
    CubeArray,
    D3,
}

/// View dimension WebGPU is given: it has no 1D array views, so those are
/// viewed as 1D; every other dimension is kept.
pub fn map_texture_view_dimension(dim: ViewDimension) -> (d: ViewDimension)
    ensures
        d == (if dim == ViewDimension::D1Array { ViewDimension::D1 } else { dim }),
        d != ViewDimension::D1Array,
{
    match dim {
        ViewDimension::D1Array => ViewDimension::D1,
        _ => dim,
    }
}

/// Format a surface presents in: the four 8-bit BGRA/RGBA formats are kept,
/// every other format falls back to BGRA sRGB.
pub fn surface_format(format: TextureFormat) -> (f: TextureFormat)
    ensures
        f == (match format {
            TextureFormat::Bgra8Unorm => TextureFormat::Bgra8Unorm,
            TextureFormat::Bgra8UnormSrgb => TextureFormat::Bgra8UnormSrgb,
            TextureFormat::Rgba8Unorm => TextureFormat::Rgba8Unorm,
            TextureFormat::Rgba8UnormSrgb => TextureFormat::Rgba8UnormSrgb,
            _ => TextureFormat::Bgra8UnormSrgb,
        }),
{
    match format {
        TextureFormat::Bgra8Unorm => TextureFormat::Bgra8Unorm,
        TextureFormat::Bgra8UnormSrgb => TextureFormat::Bgra8UnormSrgb,
        TextureFormat::Rgba8Unorm => TextureFormat::Rgba8Unorm,
        TextureFormat::Rgba8UnormSrgb => TextureFormat::Rgba8UnormSrgb,
        _ => TextureFormat::Bgra8UnormSrgb,
    }
}

/// Anisotropy clamp WebGPU is given: at least 1, at most `u16::MAX`.
pub fn anisotropy_clamp(requested: u32) -> (a: u16)
    ensures
        a == (if requested < 1 { 1 } else if requested > 0xffff { 0xffff } else { requested }),
{
    if requested < 1 {
        1
    } else if requested > 0xffff {
        0xffff
    } else {
        requested as u16
    }
}

} // verus!
