//! Resource handles and the plain descriptions they carry.
//!
//! Every GPU object lives in a registry owned by the device; what callers hold
//! is a copyable handle whose key names the registry slot. A key is the 64-bit
//! form of a generational slot key (index in the low half, version in the high
//! half). The registries, generational slot maps held by the device layer
//! outside this library, are what keep a stale key from naming a newer
//! resource; this library only carries keys and compares them.

use vstd::prelude::*;

verus! {

/// Key value of the null slot: it names no resource.
pub const NULL_KEY: u64 = 0x1_ffff_ffff;

/// Key for buffer resources.
#[derive(Clone, Copy, Debug, PartialEq, Eq, Hash, Structural)]
pub struct BufferKey(pub u64);

/// Key for texture resources.
#[derive(Clone, Copy, Debug, PartialEq, Eq, Hash, Structural)]
pub struct TextureKey(pub u64);

/// Key for texture view resources.
#[derive(Clone, Copy, Debug, PartialEq, Eq, Hash, Structural)]
pub struct TextureViewKey(pub u64);

/// Key for sampler resources.
#[derive(Clone, Copy, Debug, PartialEq, Eq, Hash, Structural)]
pub struct SamplerKey(pub u64);

/// Key for render pipeline resources.
#[derive(Clone, Copy, Debug, PartialEq, Eq, Hash, Structural)]
pub struct RenderPipelineKey(pub u64);

/// Key for compute pipeline resources.
#[derive(Clone, Copy, Debug, PartialEq, Eq, Hash, Structural)]
pub struct ComputePipelineKey(pub u64);

impl Default for TextureKey {
    fn default() -> (k: Self)
        ensures
            k.0 == NULL_KEY,
    {
        TextureKey(NULL_KEY)
    }
}

impl Default for TextureViewKey {
    fn default() -> (k: Self)
        ensures
            k.0 == NULL_KEY,
    {
        TextureViewKey(NULL_KEY)
    }
}

/// Texel formats known to the backend.
#[derive(Clone, Copy, Debug, PartialEq, Eq, Hash, Structural)]
pub enum TextureFormat {
    R8Unorm,
    Rg8Unorm,
    Rg8Snorm,
    Rgba8Unorm,
    Rgba8UnormSrgb,
    Bgra8Unorm,
    Bgra8UnormSrgb,
    Rgba8Snorm,
    R16Float,
    Rg16Float,
    Rgba16Float,
    R32Float,
    Rg32Float,
    Rgba32Float,
    R32Uint,
    Rg32Uint,
    Rgba32Uint,
    Depth32Float,
    Depth32FloatStencil8Uint,
    Stencil8Uint,
    Bc1Unorm,
    Bc1UnormSrgb,
    Bc2Unorm,
    Bc2UnormSrgb,
    Bc3Unorm,
    Bc3UnormSrgb,
    Bc4Unorm,
    Bc4Snorm,
    Bc5Unorm,
    Bc5Snorm,
    Bc6hUfloat,
    Bc6hFloat,
    Bc7Unorm,
    Bc7UnormSrgb,
    Rgb10a2Unorm,
    Rg11b10Ufloat,
    Rgb9e5Ufloat,
}

/// Color space of a presentation surface.
#[derive(Clone, Copy, Debug, PartialEq, Eq, Hash, Structural)]
pub enum ColorSpace {
    Linear,
    Srgb,
}

/// Which aspects (color, depth, stencil) of a texel a view exposes, as bits.
#[derive(Clone, Copy, Debug, PartialEq, Eq, Hash, Structural)]
pub struct TexelAspects {
    pub bits: u8,
}

impl TexelAspects {
    /// The color aspect alone.
    pub fn color() -> (a: Self)
        ensures
            a.bits == 1,
    {
        TexelAspects { bits: 1 }
    }
}

/// Primitive assembly topology of a render pipeline.
#[derive(Clone, Copy, Debug, PartialEq, Eq, Hash, Structural)]
pub enum PrimitiveTopology {
    PointList,
    LineList,
    LineStrip,
    TriangleList,
    TriangleStrip,
}

/// Device limits the command recorder needs.
#[derive(Clone, Copy, Debug, PartialEq, Eq, Structural)]
pub struct Limits {
    pub uniform_buffer_alignment: u32,
    /// Whether GPU timing queries are supported.
    pub timing_supported: bool,
}

/// Handle to a GPU buffer.
#[derive(Clone, Copy, Debug, PartialEq, Eq, Hash, Structural)]
pub struct Buffer {
    pub raw: BufferKey,
    pub size: u64,
    /// Address of the CPU shadow memory of an upload or shared buffer; 0 for a
    /// device-only buffer.
    pub data: usize,
}

impl Buffer {
    /// Returns the address of the CPU shadow memory, or 0 for device-only buffers.
    pub fn data(&self) -> (d: usize)
        ensures
            d == self.data,
    {
        self.data
    }
}

/// Handle to a GPU texture.
#[derive(Clone, Copy, Debug, PartialEq, Eq, Hash)]
pub struct Texture {
    pub raw: TextureKey,
    pub format: TextureFormat,
    pub target_size: [u16; 2],
}

/// Handle to a texture view.
#[derive(Clone, Copy, Debug, PartialEq, Eq, Hash)]
pub struct TextureView {
    pub raw: TextureViewKey,
    pub target_size: [u16; 2],
    pub aspects: TexelAspects,
}

/// Handle to a sampler.
#[derive(Clone, Copy, Debug, PartialEq, Eq, Hash, Structural)]
pub struct Sampler {
    pub raw: SamplerKey,
}

/// Placeholder for acceleration structures, which WebGPU does not support.
#[derive(Clone, Copy, Debug, PartialEq, Eq, Hash, Structural)]
pub struct AccelerationStructure {}

/// Maps a logical binding index to a WebGPU binding slot.
#[derive(Clone, Copy, Debug, PartialEq, Eq, Structural)]
pub struct BindingSlot {
    pub group: u32,
    pub binding: u32,
}

/// For each binding of one shader data layout, the slots it is bound to.
#[derive(Clone, Debug)]
pub struct ShaderDataMapping {
    pub targets: Vec<Vec<BindingSlot>>,
}

/// Public handle to a compute pipeline.
pub struct ComputePipeline {
    pub raw: ComputePipelineKey,
    pub wg_size: [u32; 3],
    pub group_mappings: Vec<ShaderDataMapping>,
}

impl ComputePipeline {
    /// Workgroup size of the compute entry point.
    pub fn get_workgroup_size(&self) -> (s: [u32; 3])
        ensures
            s == self.wg_size,
    {
        self.wg_size
    }
}

/// Public handle to a render pipeline.
pub struct RenderPipeline {
    pub raw: RenderPipelineKey,
    pub topology: PrimitiveTopology,
    pub group_mappings: Vec<ShaderDataMapping>,
}

/// A presentable frame. `texture` is the surface texture, absent when
/// acquisition failed (for instance when the surface is out of date).
pub struct Frame<T> {
    pub texture: Option<T>,
    /// Key of the frame's texture view in the registry.
    pub view_key: Option<TextureViewKey>,
    pub target_size: [u16; 2],
    pub format: TextureFormat,
}

impl<T> Frame<T> {
    /// Whether this frame can be rendered to. When false, the caller should
    /// skip rendering and reconfigure the surface.
    pub fn is_valid(&self) -> (b: bool)
        ensures
            b == self.texture.is_some(),
    {
        self.texture.is_some()
    }

    /// Handle of the frame's texture: the null key, with the frame's format and size.
    pub fn texture(&self) -> (t: Texture)
        ensures
            t.raw.0 == NULL_KEY,
            t.format == self.format,
            t.target_size == self.target_size,
    {
        Texture { raw: TextureKey::default(), format: self.format, target_size: self.target_size }
    }

    /// Handle of the frame's color view: its registry key (the null key when
    /// it has none), its size, and the color aspect.
    pub fn texture_view(&self) -> (v: TextureView)
        ensures
            v.raw == (match self.view_key {
                Some(k) => k,
                None => TextureViewKey(NULL_KEY),
            }),
            v.target_size == self.target_size,
            v.aspects.bits == 1,
    {
        let raw = match self.view_key {
            Some(k) => k,
            None => TextureViewKey::default(),
        };
        TextureView { raw, target_size: self.target_size, aspects: TexelAspects::color() }
    }
}

/// Surface format for a color space: a linear color space presents through
/// an sRGB-encoding format, an sRGB color space through a plain one.
pub fn map_color_space_to_format(color_space: ColorSpace) -> (f: TextureFormat)
    ensures
        color_space == ColorSpace::Linear ==> f == TextureFormat::Bgra8UnormSrgb,
        color_space == ColorSpace::Srgb ==> f == TextureFormat::Bgra8Unorm,
{
    match color_space {
        ColorSpace::Linear => TextureFormat::Bgra8UnormSrgb,
        ColorSpace::Srgb => TextureFormat::Bgra8Unorm,
    }
}

/// Error raised while bringing up the platform device.
#[derive(Debug)]
pub struct PlatformError(pub String);

impl PlatformError {
    /// The error's message, as its `Display` form would print it.
    pub fn message(&self) -> (s: String)
        ensures
            s@ == self.0@,
    {
        self.0.clone()
    }
}

} // verus!
