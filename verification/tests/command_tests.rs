use blade_graphics::command::{
    BindGroupEntry, BufferPart, BufferPiece, Command, CommandEncoder, Extent, FinishOp, IndexType, InitOp,
    PassKind, PipelineContext, RenderTarget, RenderTargetSet, ScissorRect, TextureColor, TexturePart, TexturePiece,
    Viewport,
};
use blade_graphics::handles::{
    BindingSlot, Buffer, BufferKey, ComputePipeline, ComputePipelineKey, Frame, Limits, RenderPipeline,
    RenderPipelineKey, PrimitiveTopology, Sampler, SamplerKey, ShaderDataMapping, TexelAspects, Texture,
    TextureFormat, TextureKey, TextureView, TextureViewKey,
};

fn limits() -> Limits {
    Limits { uniform_buffer_alignment: 256, timing_supported: false }
}

fn buffer(key: u64, size: u64) -> Buffer {
    Buffer { raw: BufferKey(key), size, data: 0 }
}

fn view(key: u64) -> TextureView {
    TextureView { raw: TextureViewKey(key), target_size: [64, 32], aspects: TexelAspects::color() }
}

fn mappings() -> Vec<ShaderDataMapping> {
    vec![ShaderDataMapping {
        targets: vec![
            vec![BindingSlot { group: 0, binding: 0 }],
            vec![BindingSlot { group: 0, binding: 1 }, BindingSlot { group: 2, binding: 5 }],
        ],
    }]
}

#[test]
fn compute_pass_is_bracketed() {
    let mut enc: CommandEncoder<()> = CommandEncoder::new("enc".to_string(), limits());
    let pipeline = ComputePipeline { raw: ComputePipelineKey(7), wg_size: [8, 8, 1], group_mappings: mappings() };
    {
        let mut pass = enc.compute("compute");
        assert!(pass.kind == PassKind::Compute);
        {
            let mut pe = pass.with(&pipeline);
            pe.dispatch([4, 2, 1]);
            pe.dispatch_indirect(BufferPiece { buffer: buffer(3, 64), offset: 16 });
        }
        pass.end();
    }
    assert_eq!(enc.commands.len(), 5);
    assert!(matches!(enc.commands[0], Command::BeginComputePass));
    assert!(matches!(enc.commands[1], Command::SetComputePipeline { key: ComputePipelineKey(7) }));
    assert!(matches!(enc.commands[2], Command::Dispatch { groups: [4, 2, 1] }));
    assert!(matches!(
        enc.commands[3],
        Command::DispatchIndirect { indirect_buffer: BufferPart { key: BufferKey(3), offset: 16 } }
    ));
    assert!(matches!(enc.commands[4], Command::EndComputePass));
    assert_eq!(pipeline.get_workgroup_size(), [8, 8, 1]);
}

#[test]
fn transfer_pass_records_copies_without_bracket() {
    let mut enc: CommandEncoder<()> = CommandEncoder::new("enc".to_string(), limits());
    let tex = Texture { raw: TextureKey(9), format: TextureFormat::Rgba8Unorm, target_size: [16, 16] };
    let piece = TexturePiece { texture: tex, mip_level: 1, array_layer: 2, origin: [1, 2, 3] };
    {
        let mut pass = enc.transfer("copy");
        pass.fill_buffer(BufferPiece { buffer: buffer(1, 128), offset: 0 }, 128, 0);
        pass.copy_buffer_to_buffer(
            BufferPiece { buffer: buffer(1, 128), offset: 8 },
            BufferPiece { buffer: buffer(2, 128), offset: 16 },
            32,
        );
        pass.copy_buffer_to_texture(
            BufferPiece { buffer: buffer(1, 128), offset: 0 },
            64,
            piece,
            Extent { width: 16, height: 16, depth: 1 },
        );
        pass.copy_texture_to_buffer(piece, BufferPiece { buffer: buffer(2, 128), offset: 4 }, 64, Extent {
            width: 4,
            height: 1,
            depth: 1,
        });
        pass.copy_texture_to_texture(piece, piece, Extent { width: 1, height: 1, depth: 1 });
        pass.end();
    }
    assert_eq!(enc.commands.len(), 5);
    assert!(matches!(enc.commands[0], Command::FillBuffer { size: 128, value: 0, .. }));
    match &enc.commands[1] {
        Command::CopyBufferToBuffer { src, dst, size } => {
            assert_eq!(*src, BufferPart { key: BufferKey(1), offset: 8 });
            assert_eq!(*dst, BufferPart { key: BufferKey(2), offset: 16 });
            assert_eq!(*size, 32);
        },
        other => panic!("unexpected {:?}", other),
    }
    match &enc.commands[2] {
        Command::CopyBufferToTexture { bytes_per_row, dst, .. } => {
            assert_eq!(*bytes_per_row, 64);
            let TexturePart { key, format, mip_level, array_layer, origin } = *dst;
            assert_eq!(key, TextureKey(9));
            assert_eq!(format, TextureFormat::Rgba8Unorm);
            assert_eq!((mip_level, array_layer, origin), (1, 2, [1, 2, 3]));
        },
        other => panic!("unexpected {:?}", other),
    }
    assert!(matches!(enc.commands[3], Command::CopyTextureToBuffer { bytes_per_row: 64, .. }));
    assert!(matches!(enc.commands[4], Command::CopyTextureToTexture { .. }));
}

#[test]
fn render_pass_attachments_and_draws() {
    let mut enc: CommandEncoder<()> = CommandEncoder::new("enc".to_string(), limits());
    let pipeline = RenderPipeline {
        raw: RenderPipelineKey(11),
        topology: PrimitiveTopology::TriangleList,
        group_mappings: mappings(),
    };
    let targets = RenderTargetSet {
        colors: vec![
            RenderTarget { view: view(1), init_op: InitOp::Clear(TextureColor::White), finish_op: FinishOp::Store },
            RenderTarget { view: view(2), init_op: InitOp::Load, finish_op: FinishOp::ResolveTo(view(3)) },
        ],
        depth_stencil: Some(RenderTarget { view: view(4), init_op: InitOp::DontCare, finish_op: FinishOp::Discard }),
    };
    {
        let mut pass = enc.render("main", targets);
        pass.set_viewport(&Viewport { x: 0, y: 0, w: 1, h: 1, depth_start: 0, depth_end: 1 });
        pass.set_scissor_rect(&ScissorRect { x: -3, y: 4, w: 10, h: 20 });
        {
            let mut pe = pass.with(&pipeline);
            pe.set_stencil_reference(7);
            pe.bind_vertex(0, BufferPiece { buffer: buffer(5, 256), offset: 0 });
            pe.draw(0, 3, 0, 1);
            pe.draw_indexed(BufferPiece { buffer: buffer(6, 64), offset: 0 }, IndexType::U16, 6, -2, 1, 2);
            pe.draw_indirect(BufferPiece { buffer: buffer(7, 64), offset: 0 });
            pe.draw_indexed_indirect(
                BufferPiece { buffer: buffer(6, 64), offset: 0 },
                IndexType::U32,
                BufferPiece { buffer: buffer(7, 64), offset: 16 },
            );
        }
        pass.end();
    }
    match &enc.commands[0] {
        Command::BeginRenderPass { color_attachments, depth_attachment } => {
            assert_eq!(color_attachments.len(), 2);
            assert_eq!(color_attachments[0].view_key, TextureViewKey(1));
            assert_eq!(color_attachments[0].resolve_target, None);
            assert_eq!(color_attachments[1].resolve_target, Some(TextureViewKey(3)));
            let d = depth_attachment.unwrap();
            assert_eq!(d.view_key, TextureViewKey(4));
            assert_eq!(d.depth_load_op, InitOp::DontCare);
            assert_eq!(d.stencil_load_op, InitOp::DontCare);
        },
        other => panic!("unexpected {:?}", other),
    }
    assert!(matches!(enc.commands[1], Command::SetViewport { .. }));
    assert!(matches!(enc.commands[2], Command::SetScissor { rect: ScissorRect { x: -3, y: 4, w: 10, h: 20 } }));
    assert!(matches!(enc.commands[3], Command::SetRenderPipeline { key: RenderPipelineKey(11) }));
    assert!(matches!(enc.commands[4], Command::SetStencilReference { reference: 7 }));
    assert!(matches!(enc.commands[5], Command::SetVertexBuffer { slot: 0, .. }));
    assert!(matches!(enc.commands[6], Command::Draw { first_vertex: 0, vertex_count: 3, first_instance: 0, instance_count: 1 }));
    assert!(matches!(
        enc.commands[7],
        Command::DrawIndexed { index_format: IndexType::U16, index_count: 6, base_vertex: -2, first_instance: 1, instance_count: 2, .. }
    ));
    assert!(matches!(enc.commands[8], Command::DrawIndirect { .. }));
    assert!(matches!(enc.commands[9], Command::DrawIndexedIndirect { index_format: IndexType::U32, .. }));
    assert!(matches!(enc.commands[10], Command::EndRenderPass));
    assert_eq!(enc.commands.len(), 11);
}

#[test]
fn plain_data_is_aligned_and_padded() {
    let mut enc: CommandEncoder<()> = CommandEncoder::new("enc".to_string(), Limits {
        uniform_buffer_alignment: 16,
        timing_supported: false,
    });
    let pipeline = ComputePipeline { raw: ComputePipelineKey(1), wg_size: [1, 1, 1], group_mappings: mappings() };
    {
        let mut pass = enc.compute("c");
        {
            let mut pe = pass.with(&pipeline);
            {
                let mut ctx: PipelineContext = pe.bind(0);
                ctx.bind_plain(0, &[1, 2, 3]);
                ctx.bind_plain(1, &[9; 17]);
            }
        }
        pass.end();
    }
    // First block: 3 bytes padded to 16; second starts at 16, 17 bytes padded to 32.
    assert_eq!(enc.plain_data.len(), 48);
    assert_eq!(&enc.plain_data[0..3], &[1, 2, 3]);
    assert!(enc.plain_data[3..16].iter().all(|b| *b == 0));
    assert!(enc.plain_data[16..33].iter().all(|b| *b == 9));
    assert!(enc.plain_data[33..48].iter().all(|b| *b == 0));
    // BeginComputePass, SetComputePipeline, one record for binding 0, two for binding 1, End.
    assert_eq!(enc.commands.len(), 6);
    match &enc.commands[2] {
        Command::RecordBindGroup { group_index, entries } => {
            assert_eq!(*group_index, 0);
            assert_eq!(entries, &vec![BindGroupEntry::PlainData { binding: 0, offset: 0, size: 16 }]);
        },
        other => panic!("unexpected {:?}", other),
    }
    match &enc.commands[3] {
        Command::RecordBindGroup { group_index, entries } => {
            assert_eq!(*group_index, 0);
            assert_eq!(entries, &vec![BindGroupEntry::PlainData { binding: 1, offset: 16, size: 32 }]);
        },
        other => panic!("unexpected {:?}", other),
    }
    match &enc.commands[4] {
        Command::RecordBindGroup { group_index, entries } => {
            assert_eq!(*group_index, 2);
            assert_eq!(entries, &vec![BindGroupEntry::PlainData { binding: 5, offset: 16, size: 32 }]);
        },
        other => panic!("unexpected {:?}", other),
    }
}

#[test]
fn resources_bind_to_every_slot() {
    let mut commands = Vec::new();
    let mut plain = Vec::new();
    let l = limits();
    let m = mappings();
    let mut ctx = PipelineContext { commands: &mut commands, plain_data: &mut plain, targets: &m[0].targets, limits: &l };
    view(4).bind_to(&mut ctx, 1);
    Sampler { raw: SamplerKey(8) }.bind_to(&mut ctx, 0);
    BufferPiece { buffer: buffer(2, 100), offset: 40 }.bind_to(&mut ctx, 0);
    assert!(plain.is_empty());
    assert_eq!(commands.len(), 4);
    match &commands[1] {
        Command::RecordBindGroup { group_index: 2, entries } => {
            assert_eq!(entries, &vec![BindGroupEntry::Texture { binding: 5, view_key: TextureViewKey(4) }]);
        },
        other => panic!("unexpected {:?}", other),
    }
    match &commands[2] {
        Command::RecordBindGroup { group_index: 0, entries } => {
            assert_eq!(entries, &vec![BindGroupEntry::Sampler { binding: 0, sampler_key: SamplerKey(8) }]);
        },
        other => panic!("unexpected {:?}", other),
    }
    match &commands[3] {
        Command::RecordBindGroup { group_index: 0, entries } => {
            assert_eq!(entries, &vec![BindGroupEntry::Buffer {
                binding: 0,
                buffer_key: BufferKey(2),
                offset: 40,
                size: 60,
            }]);
        },
        other => panic!("unexpected {:?}", other),
    }
}

#[test]
fn start_clears_and_present_queues_frames() {
    let mut enc: CommandEncoder<u8> = CommandEncoder::new("enc".to_string(), limits());
    enc.init_texture(Texture { raw: TextureKey(1), format: TextureFormat::R8Unorm, target_size: [1, 1] });
    enc.present(Frame { texture: Some(5u8), view_key: None, target_size: [1, 1], format: TextureFormat::Bgra8Unorm });
    assert!(matches!(enc.commands[0], Command::InitTexture { key: TextureKey(1) }));
    assert_eq!(enc.present_frames.len(), 1);
    enc.start();
    assert!(enc.commands.is_empty() && enc.plain_data.is_empty() && enc.present_frames.is_empty());
    assert_eq!(enc.name, "enc");
}

#[test]
fn binding_index_of_each_entry_kind() {
    assert_eq!(BindGroupEntry::Buffer { binding: 3, buffer_key: BufferKey(1), offset: 0, size: 1 }.binding_index(), 3);
    assert_eq!(BindGroupEntry::Texture { binding: 4, view_key: TextureViewKey(1) }.binding_index(), 4);
    assert_eq!(BindGroupEntry::Sampler { binding: 5, sampler_key: SamplerKey(1) }.binding_index(), 5);
    assert_eq!(BindGroupEntry::PlainData { binding: 6, offset: 0, size: 1 }.binding_index(), 6);
}

#[test]
fn buffer_part_from_piece() {
    let part: BufferPart = BufferPiece { buffer: buffer(4, 10), offset: 3 }.into();
    assert_eq!(part, BufferPart { key: BufferKey(4), offset: 3 });
    assert_eq!(buffer(4, 10).data(), 0);
    assert_eq!(Buffer { raw: BufferKey(1), size: 1, data: 4096 }.data(), 4096);
}
