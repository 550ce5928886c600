//! Pipeline layout decisions: binding slots of shader data, bind group
//! entry kinds, and vertex attribute layouts.

use vstd::prelude::*;
use crate::handles::{BindingSlot, ShaderDataMapping};

verus! {

/// The slot every binding of a group maps to: the group's own index and the
/// binding's position in the group.
pub open spec fn slot_of(group: int, binding: int) -> BindingSlot {
    BindingSlot { group: group as u32, binding: binding as u32 }
}

/// Binding slots of shader data groups with the given numbers of bindings:
/// binding `b` of group `g` maps to the single slot `(g, b)`.
pub fn group_mappings(binding_counts: &Vec<usize>) -> (r: Vec<ShaderDataMapping>)
    requires
        binding_counts@.len() <= u32::MAX + 1,
        forall|g: int| 0 <= g < binding_counts@.len() ==> #[trigger] binding_counts@[g] <= u32::MAX + 1,
    ensures
        r@.len() == binding_counts@.len(),
        forall|g: int| 0 <= g < r@.len() ==> (#[trigger] r@[g]).targets@.len() == binding_counts@[g],
        forall|g: int, b: int|
            0 <= g < r@.len() && 0 <= b < binding_counts@[g] ==> (#[trigger] r@[g].targets@[b])@ == seq![slot_of(g, b)],
{
    let mut r: Vec<ShaderDataMapping> = Vec::new();
    let mut g: usize = 0;
    while g < binding_counts.len()
        invariant
            0 <= g <= binding_counts@.len(),
            binding_counts@.len() <= u32::MAX + 1,
            forall|k: int| 0 <= k < binding_counts@.len() ==> #[trigger] binding_counts@[k] <= u32::MAX + 1,
            r@.len() == g,
            forall|k: int| 0 <= k < g ==> (#[trigger] r@[k]).targets@.len() == binding_counts@[k],
            forall|k: int, b: int|
                0 <= k < g && 0 <= b < binding_counts@[k] ==> (#[trigger] r@[k].targets@[b])@ == seq![slot_of(k, b)],
        decreases binding_counts@.len() - g,
    {
        let count = binding_counts[g];
        let mut targets: Vec<Vec<BindingSlot>> = Vec::new();
        let mut b: usize = 0;
        while b < count
            invariant
                0 <= b <= count,
                g < binding_counts@.len(),
                targets@.len() == b,
                forall|t: int| 0 <= t < b ==> (#[trigger] targets@[t])@ == seq![slot_of(g as int, t)],
            decreases count - b,
        {
            let mut slots: Vec<BindingSlot> = Vec::new();
            slots.push(BindingSlot { group: g as u32, binding: b as u32 });
            proof {
                assert(slots@ =~= seq![slot_of(g as int, b as int)]);
            }
            targets.push(slots);
            b = b + 1;
        }
        let ghost before = r@;
        r.push(ShaderDataMapping { targets });
        proof {
            assert forall|k: int, t: int|
                0 <= k < g + 1 && 0 <= t < binding_counts@[k] implies (#[trigger] r@[k].targets@[t])@ == seq![slot_of(k, t)] by {
                if k < g {
                    assert(r@[k] == before[k]);
                }
            }
        }
        g = g + 1;
    }
    r
}

/// Vertex attribute formats.
#[derive(Clone, Copy, Debug, PartialEq, Eq, Hash, Structural)]
pub enum VertexFormat {
    F32,
    F32Vec2,
    F32Vec3,
    F32Vec4,
    U32,
    U32Vec2,
    U32Vec3,
    U32Vec4,
    I32,
    I32Vec2,
    I32Vec3,
    I32Vec4,
}

/// An attribute of a vertex buffer layout: format and byte offset.
#[derive(Clone, Copy, Debug, PartialEq, Eq, Hash, Structural)]
pub struct VertexAttribute {
    pub format: VertexFormat,
    pub offset: u32,
}

/// Which attribute of which vertex buffer a shader input reads.
#[derive(Clone, Copy, Debug, PartialEq, Eq, Hash, Structural)]
pub struct VertexAttributeMapping {
    pub buffer_index: usize,
    pub attribute_index: usize,
}

/// A vertex attribute as the pipeline declares it.
#[derive(Clone, Copy, Debug, PartialEq, Eq, Hash, Structural)]
pub struct VertexAttributeDesc {
    pub format: VertexFormat,
    pub offset: u64,
    pub shader_location: u32,
}

/// Attributes declared for vertex buffer `b`: one per mapping that reads
/// from `b`, in mapping order, each at the next shader location.
pub open spec fn attributes_for(
    layout: Seq<VertexAttribute>,
    maps: Seq<VertexAttributeMapping>,
    b: int,
) -> Seq<VertexAttributeDesc>
    decreases maps.len(),
{
    if maps.len() == 0 {
        Seq::empty()
    } else {
        let prev = attributes_for(layout, maps.drop_last(), b);
        let m = maps.last();
        if m.buffer_index == b {
            let a = layout[m.attribute_index as int];
            prev.push(VertexAttributeDesc { format: a.format, offset: a.offset as u64, shader_location: prev.len() as u32 })
        } else {
            prev
        }
    }
}

proof fn lemma_attributes_len(layout: Seq<VertexAttribute>, maps: Seq<VertexAttributeMapping>, b: int)
    ensures
        attributes_for(layout, maps, b).len() <= maps.len(),
    decreases maps.len(),
{
    if maps.len() > 0 {
        lemma_attributes_len(layout, maps.drop_last(), b);
    }
}

/// Vertex attribute declarations for each vertex buffer, from the
/// buffers' attribute layouts and the mappings the vertex shader reads.
pub fn vertex_attributes(
    layouts: &Vec<Vec<VertexAttribute>>,
    mappings: &Vec<VertexAttributeMapping>,
) -> (r: Vec<Vec<VertexAttributeDesc>>)
    requires
        mappings@.len() <= u32::MAX,
        forall|i: int, b: int|
            0 <= i < mappings@.len() && 0 <= b < layouts@.len() && #[trigger] mappings@[i].buffer_index == b
                ==> mappings@[i].attribute_index < (#[trigger] layouts@[b])@.len(),
    ensures
        r@.len() == layouts@.len(),
        forall|b: int| 0 <= b < r@.len() ==> (#[trigger] r@[b])@ == attributes_for(layouts@[b]@, mappings@, b),
{
    let mut r: Vec<Vec<VertexAttributeDesc>> = Vec::new();
    let mut b: usize = 0;
    while b < layouts.len()
        invariant
            0 <= b <= layouts@.len(),
            r@.len() == b,
            mappings@.len() <= u32::MAX,
            forall|i: int, c: int|
                0 <= i < mappings@.len() && 0 <= c < layouts@.len() && #[trigger] mappings@[i].buffer_index == c
                    ==> mappings@[i].attribute_index < (#[trigger] layouts@[c])@.len(),
            forall|k: int| 0 <= k < b ==> (#[trigger] r@[k])@ == attributes_for(layouts@[k]@, mappings@, k),
        decreases layouts@.len() - b,
    {
        let layout = &layouts[b];
        let mut attributes: Vec<VertexAttributeDesc> = Vec::new();
        let mut i: usize = 0;
        while i < mappings.len()
            invariant
                0 <= i <= mappings@.len(),
                b < layouts@.len(),
                *layout == layouts@[b as int],
                mappings@.len() <= u32::MAX,
                forall|t: int, c: int|
                    0 <= t < mappings@.len() && 0 <= c < layouts@.len() && #[trigger] mappings@[t].buffer_index == c
                        ==> mappings@[t].attribute_index < (#[trigger] layouts@[c])@.len(),
                attributes@ == attributes_for(layout@, mappings@.subrange(0, i as int), b as int),
            decreases mappings@.len() - i,
        {
            let mapping = mappings[i];
            proof {
                assert(mappings@.subrange(0, i + 1).drop_last() =~= mappings@.subrange(0, i as int));
                lemma_attributes_len(layout@, mappings@.subrange(0, i as int), b as int);
            }
            if mapping.buffer_index == b {
                let attrib = layout[mapping.attribute_index];
                let location = attributes.len() as u32;
                attributes.push(
                    VertexAttributeDesc { format: attrib.format, offset: attrib.offset as u64, shader_location: location },
                );
            }
            i = i + 1;
        }
        proof {
            assert(mappings@.subrange(0, mappings@.len() as int) =~= mappings@);
        }
        r.push(attributes);
        b = b + 1;
    }
    r
}

/// Access a storage binding allows, as bits: load is bit 0, store bit 1.
#[derive(Clone, Copy, Debug, PartialEq, Eq, Hash, Structural)]
pub struct StorageAccess {
    pub bits: u32,
}

/// Access includes loads.
pub open spec fn can_load(a: StorageAccess) -> bool {
    a.bits & 1 != 0
}

/// Access includes stores.
pub open spec fn can_store(a: StorageAccess) -> bool {
    a.bits & 2 != 0
}

/// Kinds of shader resource binding.
#[derive(Clone, Copy, Debug, PartialEq, Eq, Hash, Structural)]
pub enum ShaderBinding {
    Texture,
    TextureArray { count: u32 },
    Sampler,
    Buffer,
    BufferArray { count: u32 },
    AccelerationStructure,
    Plain { size: u32 },
}

/// Access of a storage texture.
#[derive(Clone, Copy, Debug, PartialEq, Eq, Hash, Structural)]
pub enum StorageTextureAccess {
    ReadOnly,
    WriteOnly,
    ReadWrite,
}

/// Bind group layout entry type for a binding.
#[derive(Clone, Copy, Debug, PartialEq, Eq, Hash, Structural)]
pub enum BindingKind {
    /// A filterable float 2D texture, not multisampled.
    SampledTexture,
    /// A 2D storage texture (format chosen at bind time).
    StorageTexture(StorageTextureAccess),
    /// A filtering sampler.
    FilteringSampler,
    /// A uniform buffer without dynamic offset.
    UniformBuffer,
    /// A storage buffer without dynamic offset.
    StorageBuffer { read_only: bool },
}

/// Layout entry type of a binding with the given access. Textures and
/// buffers with no access are sampled textures and uniform buffers; with
/// access, storage ones (a texture is read-write with both loads and stores,
/// write-only with stores, read-only otherwise; a buffer is read-only unless
/// it stores). Arrays bind as a sampled texture and a read-only storage
/// buffer; plain data is a uniform buffer. Acceleration structures have no
/// layout type on WebGPU and lie outside this function's domain.
pub open spec fn binding_kind(binding: ShaderBinding, access: StorageAccess) -> BindingKind
    recommends
        binding != ShaderBinding::AccelerationStructure,
{
    match binding {
        ShaderBinding::Texture => if access.bits == 0 {
            BindingKind::SampledTexture
        } else if can_load(access) && can_store(access) {
            BindingKind::StorageTexture(StorageTextureAccess::ReadWrite)
        } else if can_store(access) {
            BindingKind::StorageTexture(StorageTextureAccess::WriteOnly)
        } else {
            BindingKind::StorageTexture(StorageTextureAccess::ReadOnly)
        },
        ShaderBinding::TextureArray { .. } => BindingKind::SampledTexture,
        ShaderBinding::Sampler => BindingKind::FilteringSampler,
        ShaderBinding::Buffer => if access.bits == 0 {
            BindingKind::UniformBuffer
        } else {
            BindingKind::StorageBuffer { read_only: !can_store(access) }
        },
        ShaderBinding::BufferArray { .. } => BindingKind::StorageBuffer { read_only: true },
        ShaderBinding::AccelerationStructure => BindingKind::UniformBuffer,
        ShaderBinding::Plain { .. } => BindingKind::UniformBuffer,
    }
}

/// A binding the shader stores to is declared writable, and one it only
/// loads from is not: a buffer with access is a storage buffer that is
/// read-only exactly when its access lacks stores (bit 1), and a texture with
/// stores is a write-only or read-write storage texture, while one that
/// loads without storing is read-only.
pub proof fn lemma_store_access_is_writable(access: StorageAccess)
    ensures
        access.bits != 0 ==> binding_kind(ShaderBinding::Buffer, access) == (BindingKind::StorageBuffer {
            read_only: access.bits & 2 == 0,
        }),
        access.bits & 2 != 0 ==> binding_kind(ShaderBinding::Buffer, access) == (BindingKind::StorageBuffer {
            read_only: false,
        }),
        access.bits & 2 != 0 ==> (binding_kind(ShaderBinding::Texture, access) == BindingKind::StorageTexture(
            StorageTextureAccess::WriteOnly,
        ) || binding_kind(ShaderBinding::Texture, access) == BindingKind::StorageTexture(
            StorageTextureAccess::ReadWrite,
        )),
        access.bits & 1 != 0 && access.bits & 2 == 0 ==> binding_kind(ShaderBinding::Texture, access)
            == BindingKind::StorageTexture(StorageTextureAccess::ReadOnly),
{
    let bits = access.bits;
    assert(bits & 2 != 0 ==> bits != 0) by (bit_vector);
    assert(bits & 1 != 0 ==> bits != 0) by (bit_vector);
}

/// Layout entry type of a binding, as `binding_kind` states it.
pub fn map_binding_type(binding: ShaderBinding, access: StorageAccess) -> (k: BindingKind)
    requires
        binding != ShaderBinding::AccelerationStructure,
    ensures
        k == binding_kind(binding, access),
{
    let bits = access.bits;
    match binding {
        ShaderBinding::Texture => {
            if access.bits == 0 {
                BindingKind::SampledTexture
            } else if access.bits & 3 == 3 {
                proof {
                    assert(bits & 3 == 3 ==> bits & 1 != 0 && bits & 2 != 0) by (bit_vector);
                }
                BindingKind::StorageTexture(StorageTextureAccess::ReadWrite)
            } else if access.bits & 2 != 0 {
                proof {
                    assert(bits & 3 != 3 && bits & 2 != 0 ==> bits & 1 == 0) by (bit_vector);
                }
                BindingKind::StorageTexture(StorageTextureAccess::WriteOnly)
            } else {
                BindingKind::StorageTexture(StorageTextureAccess::ReadOnly)
            }
        },
        ShaderBinding::TextureArray { .. } => BindingKind::SampledTexture,
        ShaderBinding::Sampler => BindingKind::FilteringSampler,
        ShaderBinding::Buffer => {
            if access.bits == 0 {
                BindingKind::UniformBuffer
            } else {
                BindingKind::StorageBuffer { read_only: access.bits & 2 == 0 }
            }
        },
        ShaderBinding::BufferArray { .. } => BindingKind::StorageBuffer { read_only: true },
        ShaderBinding::AccelerationStructure => vstd::pervasive::unreached(),
        ShaderBinding::Plain { .. } => BindingKind::UniformBuffer,
    }
}

/// Array length of a binding: the count of a texture or buffer array when
/// it is not zero; none otherwise.
pub open spec fn array_count(binding: ShaderBinding) -> Option<u32> {
    match binding {
        ShaderBinding::TextureArray { count } => if count != 0 { Some(count) } else { None },
        ShaderBinding::BufferArray { count } => if count != 0 { Some(count) } else { None },
        _ => None,
    }
}

/// Array length of a binding, as `array_count` states it.
pub fn binding_array_count(binding: ShaderBinding) -> (c: Option<u32>)
    ensures
        c == array_count(binding),
{
    match binding {
        ShaderBinding::TextureArray { count } | ShaderBinding::BufferArray { count } => {
            if count != 0 {
                Some(count)
            } else {
                None
            }
        },
        _ => None,
    }
}


/// One entry of a bind group layout: its slot, type and array length.
#[derive(Clone, Copy, Debug, PartialEq, Eq, Hash, Structural)]
pub struct LayoutEntry {
    pub binding: u32,
    pub kind: BindingKind,
    pub count: Option<u32>,
}

/// The entry a group's binding `i` gets in its bind group layout.
pub open spec fn layout_entry(i: int, b: (ShaderBinding, StorageAccess)) -> LayoutEntry {
    LayoutEntry { binding: i as u32, kind: binding_kind(b.0, b.1), count: array_count(b.0) }
}

/// Entries of the bind group layout of a group: none when no shader stage
/// sees the group; otherwise binding `i` at slot `i`, with its type and
/// array length.
pub fn bind_group_layout_entries(bindings: &Vec<(ShaderBinding, StorageAccess)>, visible: bool) -> (r: Vec<
    LayoutEntry,
>)
    requires
        bindings@.len() <= u32::MAX + 1,
        visible ==> forall|i: int|
            0 <= i < bindings@.len() ==> (#[trigger] bindings@[i]).0 != ShaderBinding::AccelerationStructure,
    ensures
        !visible ==> r@.len() == 0,
        visible ==> r@ == Seq::new(bindings@.len(), |i: int| layout_entry(i, bindings@[i])),
{
    let mut r: Vec<LayoutEntry> = Vec::new();
    if !visible {
        return r;
    }
    let n = bindings.len();
    let mut i: usize = 0;
    while i < n
        invariant
            0 <= i <= n,
            n == bindings@.len(),
            n <= u32::MAX + 1,
            forall|j: int| 0 <= j < n ==> (#[trigger] bindings@[j]).0 != ShaderBinding::AccelerationStructure,
            r@ == Seq::new(i as nat, |j: int| layout_entry(j, bindings@[j])),
        decreases n - i,
    {
        let (binding, access) = bindings[i];
        let entry = LayoutEntry {
            binding: i as u32,
            kind: map_binding_type(binding, access),
            count: binding_array_count(binding),
        };
        r.push(entry);
        i = i + 1;
        proof {
            assert(r@ =~= Seq::new(i as nat, |j: int| layout_entry(j, bindings@[j])));
        }
    }
    r
}

/// Blend factors a color target may name.
#[derive(Clone, Copy, Debug, PartialEq, Eq, Hash, Structural)]
pub enum BlendFactor {
    Zero,
    One,
    Src,
    OneMinusSrc,
    SrcAlpha,
    OneMinusSrcAlpha,
    Dst,
    OneMinusDst,
    DstAlpha,
    OneMinusDstAlpha,
    SrcAlphaSaturated,
    Constant,
    OneMinusConstant,
    Src1,
    OneMinusSrc1,
    Src1Alpha,
    OneMinusSrc1Alpha,
}

/// The blend factors WebGPU's base specification offers: all but the
/// dual-source ones.
#[derive(Clone, Copy, Debug, PartialEq, Eq, Hash, Structural)]
pub enum WebBlendFactor {
    Zero,
    One,
    Src,
    OneMinusSrc,
    SrcAlpha,
    OneMinusSrcAlpha,
    Dst,
    OneMinusDst,
    DstAlpha,
    OneMinusDstAlpha,
    SrcAlphaSaturated,
    Constant,
    OneMinusConstant,
}

/// Blend operations.
#[derive(Clone, Copy, Debug, PartialEq, Eq, Hash, Structural)]
pub enum BlendOperation {
    Add,
    Subtract,
    ReverseSubtract,
    Min,
    Max,
}

/// How one channel group of a color target blends.
#[derive(Clone, Copy, Debug, PartialEq, Eq, Hash, Structural)]
pub struct BlendComponent {
    pub src_factor: BlendFactor,
    pub dst_factor: BlendFactor,
    pub operation: BlendOperation,
}

/// A blend component in the factors WebGPU offers.
#[derive(Clone, Copy, Debug, PartialEq, Eq, Hash, Structural)]
pub struct WebBlendComponent {
    pub src_factor: WebBlendFactor,
    pub dst_factor: WebBlendFactor,
    pub operation: BlendOperation,
}

/// Blending of a color target: color channels and alpha.
#[derive(Clone, Copy, Debug, PartialEq, Eq, Hash, Structural)]
pub struct BlendState {
    pub color: BlendComponent,
    pub alpha: BlendComponent,
}

/// A factor that reads the second color output of the fragment shader.
pub open spec fn is_dual_source(f: BlendFactor) -> bool {
    ||| f == BlendFactor::Src1
    ||| f == BlendFactor::OneMinusSrc1
    ||| f == BlendFactor::Src1Alpha
    ||| f == BlendFactor::OneMinusSrc1Alpha
}

/// The WebGPU factor of the same name as a single-source factor.
pub open spec fn web_blend_factor(f: BlendFactor) -> WebBlendFactor {
    match f {
        BlendFactor::Zero => WebBlendFactor::Zero,
        BlendFactor::One => WebBlendFactor::One,
        BlendFactor::Src => WebBlendFactor::Src,
        BlendFactor::OneMinusSrc => WebBlendFactor::OneMinusSrc,
        BlendFactor::SrcAlpha => WebBlendFactor::SrcAlpha,
        BlendFactor::OneMinusSrcAlpha => WebBlendFactor::OneMinusSrcAlpha,
        BlendFactor::Dst => WebBlendFactor::Dst,
        BlendFactor::OneMinusDst => WebBlendFactor::OneMinusDst,
        BlendFactor::DstAlpha => WebBlendFactor::DstAlpha,
        BlendFactor::OneMinusDstAlpha => WebBlendFactor::OneMinusDstAlpha,
        BlendFactor::SrcAlphaSaturated => WebBlendFactor::SrcAlphaSaturated,
        BlendFactor::Constant => WebBlendFactor::Constant,
        _ => WebBlendFactor::OneMinusConstant,
    }
}

/// Blending needs dual-source factors, which WebGPU does not offer.
pub open spec fn uses_dual_source(b: BlendState) -> bool {
    ||| is_dual_source(b.color.src_factor)
    ||| is_dual_source(b.color.dst_factor)
    ||| is_dual_source(b.alpha.src_factor)
    ||| is_dual_source(b.alpha.dst_factor)
}

/// Whether a factor is dual-source.
pub fn is_dual_source_factor(f: BlendFactor) -> (b: bool)
    ensures
        b == is_dual_source(f),
{
    match f {
        BlendFactor::Src1 | BlendFactor::OneMinusSrc1 | BlendFactor::Src1Alpha | BlendFactor::OneMinusSrc1Alpha => true,
        _ => false,
    }
}

/// Whether blending needs dual-source factors.
pub fn blend_uses_dual_source(b: &BlendState) -> (r: bool)
    ensures
        r == uses_dual_source(*b),
{
    is_dual_source_factor(b.color.src_factor) || is_dual_source_factor(b.color.dst_factor)
        || is_dual_source_factor(b.alpha.src_factor) || is_dual_source_factor(b.alpha.dst_factor)
}

/// A single-source factor as WebGPU names it.
pub fn map_blend_factor(f: BlendFactor) -> (r: WebBlendFactor)
    requires
        !is_dual_source(f),
    ensures
        r == web_blend_factor(f),
{
    match f {
        BlendFactor::Zero => WebBlendFactor::Zero,
        BlendFactor::One => WebBlendFactor::One,
        BlendFactor::Src => WebBlendFactor::Src,
        BlendFactor::OneMinusSrc => WebBlendFactor::OneMinusSrc,
        BlendFactor::SrcAlpha => WebBlendFactor::SrcAlpha,
        BlendFactor::OneMinusSrcAlpha => WebBlendFactor::OneMinusSrcAlpha,
        BlendFactor::Dst => WebBlendFactor::Dst,
        BlendFactor::OneMinusDst => WebBlendFactor::OneMinusDst,
        BlendFactor::DstAlpha => WebBlendFactor::DstAlpha,
        BlendFactor::OneMinusDstAlpha => WebBlendFactor::OneMinusDstAlpha,
        BlendFactor::SrcAlphaSaturated => WebBlendFactor::SrcAlphaSaturated,
        BlendFactor::Constant => WebBlendFactor::Constant,
        BlendFactor::OneMinusConstant => WebBlendFactor::OneMinusConstant,
        _ => vstd::pervasive::unreached(),
    }
}

/// A blend component in WebGPU's factors: both factors mapped, the
/// operation kept.
pub fn map_blend_component(c: &BlendComponent) -> (r: WebBlendComponent)
    requires
        !is_dual_source(c.src_factor),
        !is_dual_source(c.dst_factor),
    ensures
        r == (WebBlendComponent {
            src_factor: web_blend_factor(c.src_factor),
            dst_factor: web_blend_factor(c.dst_factor),
            operation: c.operation,
        }),
{
    WebBlendComponent {
        src_factor: map_blend_factor(c.src_factor),
        dst_factor: map_blend_factor(c.dst_factor),
        operation: c.operation,
    }
}
} // verus!
