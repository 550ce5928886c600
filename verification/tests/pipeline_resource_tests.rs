use blade_graphics::pipeline::{
    blend_uses_dual_source, map_blend_component, map_blend_factor, BlendComponent, BlendFactor, BlendOperation,
    BlendState, WebBlendComponent, WebBlendFactor,
};
use blade_graphics::handles::{BindingSlot, TextureFormat};
use blade_graphics::pipeline::{
    bind_group_layout_entries, binding_array_count, group_mappings, LayoutEntry, map_binding_type, vertex_attributes, BindingKind, ShaderBinding,
    StorageAccess, StorageTextureAccess, VertexAttribute, VertexAttributeDesc, VertexAttributeMapping, VertexFormat,
};
use blade_graphics::resource::{
    anisotropy_clamp, buffer_plan, depth_or_array_layers, get_aspect_from_format, map_texture_view_dimension,
    surface_format, target_size, texel_aspects, texture_plan, Memory, TextureAspect, TextureDimension, TextureUsage, ViewDimension,
};

#[test]
fn group_mappings_target_own_group_and_binding() {
    let m = group_mappings(&vec![2, 0, 1]);
    assert_eq!(m.len(), 3);
    assert_eq!(
        m[0].targets,
        vec![vec![BindingSlot { group: 0, binding: 0 }], vec![BindingSlot { group: 0, binding: 1 }]]
    );
    assert!(m[1].targets.is_empty());
    assert_eq!(m[2].targets, vec![vec![BindingSlot { group: 2, binding: 0 }]]);
}

#[test]
fn vertex_attributes_follow_mappings() {
    let layouts = vec![
        vec![
            VertexAttribute { format: VertexFormat::F32Vec3, offset: 0 },
            VertexAttribute { format: VertexFormat::F32Vec2, offset: 12 },
        ],
        vec![VertexAttribute { format: VertexFormat::U32, offset: 4 }],
    ];
    let mappings = vec![
        VertexAttributeMapping { buffer_index: 0, attribute_index: 1 },
        VertexAttributeMapping { buffer_index: 1, attribute_index: 0 },
        VertexAttributeMapping { buffer_index: 0, attribute_index: 0 },
    ];
    let attrs = vertex_attributes(&layouts, &mappings);
    assert_eq!(
        attrs[0],
        vec![
            VertexAttributeDesc { format: VertexFormat::F32Vec2, offset: 12, shader_location: 0 },
            VertexAttributeDesc { format: VertexFormat::F32Vec3, offset: 0, shader_location: 1 },
        ]
    );
    assert_eq!(attrs[1], vec![VertexAttributeDesc { format: VertexFormat::U32, offset: 4, shader_location: 0 }]);
}

#[test]
fn binding_types_by_access() {
    let none = StorageAccess { bits: 0 };
    let load = StorageAccess { bits: 1 };
    let store = StorageAccess { bits: 2 };
    let both = StorageAccess { bits: 3 };
    assert_eq!(map_binding_type(ShaderBinding::Texture, none), BindingKind::SampledTexture);
    assert_eq!(
        map_binding_type(ShaderBinding::Texture, both),
        BindingKind::StorageTexture(StorageTextureAccess::ReadWrite)
    );
    assert_eq!(
        map_binding_type(ShaderBinding::Texture, store),
        BindingKind::StorageTexture(StorageTextureAccess::WriteOnly)
    );
    assert_eq!(
        map_binding_type(ShaderBinding::Texture, load),
        BindingKind::StorageTexture(StorageTextureAccess::ReadOnly)
    );
    assert_eq!(map_binding_type(ShaderBinding::Buffer, none), BindingKind::UniformBuffer);
    assert_eq!(map_binding_type(ShaderBinding::Buffer, load), BindingKind::StorageBuffer { read_only: true });
    assert_eq!(map_binding_type(ShaderBinding::Buffer, both), BindingKind::StorageBuffer { read_only: false });
    assert_eq!(map_binding_type(ShaderBinding::Sampler, none), BindingKind::FilteringSampler);
    assert_eq!(map_binding_type(ShaderBinding::TextureArray { count: 4 }, both), BindingKind::SampledTexture);
    assert_eq!(
        map_binding_type(ShaderBinding::BufferArray { count: 4 }, none),
        BindingKind::StorageBuffer { read_only: true }
    );
    assert_eq!(map_binding_type(ShaderBinding::Plain { size: 16 }, none), BindingKind::UniformBuffer);
}

#[test]
fn binding_array_counts() {
    assert_eq!(binding_array_count(ShaderBinding::TextureArray { count: 8 }), Some(8));
    assert_eq!(binding_array_count(ShaderBinding::BufferArray { count: 0 }), None);
    assert_eq!(binding_array_count(ShaderBinding::Texture), None);
}

#[test]
fn buffer_plans_by_memory() {
    let d = buffer_plan(Memory::Device);
    assert!(d.indirect && !d.shadow && d.storage && d.uniform && d.vertex && d.index);
    let u = buffer_plan(Memory::Upload);
    assert!(!u.indirect && u.shadow);
    let s = buffer_plan(Memory::Shared);
    assert!(!s.indirect && s.shadow);
}

#[test]
fn texture_plan_from_usage_bits() {
    let p = texture_plan(TextureUsage { bits: 1 | 4 });
    assert!(p.texture_binding && !p.storage_binding && p.render_attachment);
    let q = texture_plan(TextureUsage { bits: 2 });
    assert!(!q.texture_binding && q.storage_binding && !q.render_attachment);
}

#[test]
fn texture_sizes_and_layers() {
    assert_eq!(depth_or_array_layers(TextureDimension::D3, 8, 1), 8);
    assert_eq!(depth_or_array_layers(TextureDimension::D2, 1, 6), 6);
    assert_eq!(target_size(1920, 1080), [1920, 1080]);
    assert_eq!(target_size(70000, 65535), [65535, 65535]);
}

#[test]
fn aspects_and_view_dimensions() {
    assert_eq!(get_aspect_from_format(TextureFormat::Depth32Float), TextureAspect::DepthOnly);
    assert_eq!(get_aspect_from_format(TextureFormat::Stencil8Uint), TextureAspect::StencilOnly);
    assert_eq!(get_aspect_from_format(TextureFormat::Depth32FloatStencil8Uint), TextureAspect::All);
    assert_eq!(get_aspect_from_format(TextureFormat::Rgba8Unorm), TextureAspect::All);
    assert_eq!(map_texture_view_dimension(ViewDimension::D1Array), ViewDimension::D1);
    assert_eq!(map_texture_view_dimension(ViewDimension::CubeArray), ViewDimension::CubeArray);
}

#[test]
fn surface_formats_fall_back_to_bgra_srgb() {
    assert_eq!(surface_format(TextureFormat::Rgba8Unorm), TextureFormat::Rgba8Unorm);
    assert_eq!(surface_format(TextureFormat::Bgra8Unorm), TextureFormat::Bgra8Unorm);
    assert_eq!(surface_format(TextureFormat::Rgba16Float), TextureFormat::Bgra8UnormSrgb);
}

#[test]
fn anisotropy_is_clamped() {
    assert_eq!(anisotropy_clamp(0), 1);
    assert_eq!(anisotropy_clamp(16), 16);
    assert_eq!(anisotropy_clamp(100_000), 0xffff);
}

#[test]
fn view_aspects_follow_format() {
    assert_eq!(texel_aspects(TextureFormat::Depth32Float).bits, 2);
    assert_eq!(texel_aspects(TextureFormat::Stencil8Uint).bits, 4);
    assert_eq!(texel_aspects(TextureFormat::Depth32FloatStencil8Uint).bits, 6);
    assert_eq!(texel_aspects(TextureFormat::Bgra8Unorm).bits, 1);
}

#[test]
fn layout_entries_follow_bindings() {
    let bindings = vec![
        (ShaderBinding::Texture, StorageAccess { bits: 0 }),
        (ShaderBinding::BufferArray { count: 3 }, StorageAccess { bits: 1 }),
        (ShaderBinding::Sampler, StorageAccess { bits: 0 }),
    ];
    assert_eq!(
        bind_group_layout_entries(&bindings, true),
        vec![
            LayoutEntry { binding: 0, kind: BindingKind::SampledTexture, count: None },
            LayoutEntry { binding: 1, kind: BindingKind::StorageBuffer { read_only: true }, count: Some(3) },
            LayoutEntry { binding: 2, kind: BindingKind::FilteringSampler, count: None },
        ]
    );
}

#[test]
fn layout_entries_empty_when_no_stage_sees_the_group() {
    let bindings = vec![(ShaderBinding::AccelerationStructure, StorageAccess { bits: 0 })];
    assert!(bind_group_layout_entries(&bindings, false).is_empty());
}

#[test]
fn blend_factors_map_to_webgpu_names() {
    assert_eq!(map_blend_factor(BlendFactor::OneMinusSrcAlpha), WebBlendFactor::OneMinusSrcAlpha);
    assert_eq!(map_blend_factor(BlendFactor::OneMinusConstant), WebBlendFactor::OneMinusConstant);
    let c = BlendComponent {
        src_factor: BlendFactor::SrcAlpha,
        dst_factor: BlendFactor::OneMinusSrcAlpha,
        operation: BlendOperation::Add,
    };
    assert_eq!(
        map_blend_component(&c),
        WebBlendComponent {
            src_factor: WebBlendFactor::SrcAlpha,
            dst_factor: WebBlendFactor::OneMinusSrcAlpha,
            operation: BlendOperation::Add,
        }
    );
    assert!(!blend_uses_dual_source(&BlendState { color: c, alpha: c }));
    let dual = BlendComponent { src_factor: BlendFactor::One, dst_factor: BlendFactor::OneMinusSrc1, operation: BlendOperation::Add };
    assert!(blend_uses_dual_source(&BlendState { color: c, alpha: dual }));
}
