use blade_graphics::cache::{PipelineKey, ResourceBinding};
use blade_graphics::command::{BindGroupEntry, BufferPart, Command, Extent, FinishOp, InitOp, ScissorRect, TextureColor};
use blade_graphics::execute::{
    copy_bytes_per_row, dedup_by_binding, fill_action, has_plain_data, map_depth_load_op, map_load_op,
    map_stencil_load_op, map_store_op, plan_commands, scissor_origin, AttachmentLoad, ComputeAction, ExecutionState,
    FillAction, LoadAction, RenderAction, Step, StoreAction,
};
use blade_graphics::handles::{
    BufferKey, ComputePipelineKey, RenderPipelineKey, SamplerKey, TexelAspects, TextureView, TextureViewKey,
};

fn part(key: u64) -> BufferPart {
    BufferPart { key: BufferKey(key), offset: 0 }
}

fn fill(key: u64) -> Command {
    Command::FillBuffer { dst: part(key), size: 16, value: 0 }
}

fn begin_render() -> Command {
    Command::BeginRenderPass { color_attachments: vec![], depth_attachment: None }
}

fn draw() -> Command {
    Command::Draw { first_vertex: 0, vertex_count: 3, first_instance: 0, instance_count: 1 }
}

fn buf_entry(binding: u32, key: u64) -> BindGroupEntry {
    BindGroupEntry::Buffer { binding, buffer_key: BufferKey(key), offset: 0, size: 64 }
}

#[test]
fn plan_splits_transfers_and_passes() {
    let cmds = vec![
        fill(1),
        begin_render(),
        Command::SetRenderPipeline { key: RenderPipelineKey(4) },
        draw(),
        Command::EndRenderPass,
        Command::BeginComputePass,
        Command::Dispatch { groups: [1, 1, 1] },
        Command::EndComputePass,
        Command::CopyBufferToBuffer { src: part(1), dst: part(2), size: 8 },
    ];
    let steps = plan_commands(&cmds);
    assert_eq!(
        steps,
        vec![
            Step::Transfer(0),
            Step::RenderPass { begin: 1, end: 4 },
            Step::ComputePass { begin: 5, end: 7 },
            Step::Transfer(8),
        ]
    );
}

#[test]
fn plan_pass_without_end_runs_to_list_end() {
    let cmds = vec![begin_render(), draw(), fill(1)];
    assert_eq!(plan_commands(&cmds), vec![Step::RenderPass { begin: 0, end: 3 }]);
}

#[test]
fn plan_skips_stray_commands_outside_passes() {
    let cmds = vec![
        draw(),
        Command::EndRenderPass,
        Command::InitTexture { key: blade_graphics::handles::TextureKey(1) },
        fill(3),
    ];
    assert_eq!(plan_commands(&cmds), vec![Step::Transfer(3)]);
}

#[test]
fn plan_render_pass_ignores_compute_end() {
    let cmds = vec![begin_render(), Command::EndComputePass, Command::EndRenderPass, fill(1)];
    assert_eq!(plan_commands(&cmds), vec![Step::RenderPass { begin: 0, end: 2 }, Step::Transfer(3)]);
}

#[test]
fn plan_empty_list() {
    assert!(plan_commands(&vec![]).is_empty());
}

#[test]
fn copy_pitch_is_none_for_single_row() {
    assert_eq!(copy_bytes_per_row(100, Extent { width: 25, height: 1, depth: 1 }), None);
    assert_eq!(copy_bytes_per_row(100, Extent { width: 25, height: 0, depth: 0 }), None);
}

#[test]
fn copy_pitch_rounds_up_to_256() {
    assert_eq!(copy_bytes_per_row(100, Extent { width: 25, height: 2, depth: 1 }), Some(256));
    assert_eq!(copy_bytes_per_row(256, Extent { width: 64, height: 4, depth: 1 }), Some(256));
    assert_eq!(copy_bytes_per_row(257, Extent { width: 64, height: 1, depth: 2 }), Some(512));
    assert_eq!(copy_bytes_per_row(0, Extent { width: 0, height: 2, depth: 1 }), Some(0));
}

#[test]
fn fill_zero_clears_and_other_values_write() {
    match fill_action(32, 0) {
        FillAction::Clear { size } => assert_eq!(size, 32),
        other => panic!("unexpected {:?}", other),
    }
    match fill_action(3, 0xab) {
        FillAction::Write(bytes) => assert_eq!(bytes, vec![0xab, 0xab, 0xab]),
        other => panic!("unexpected {:?}", other),
    }
    match fill_action(0, 7) {
        FillAction::Write(bytes) => assert!(bytes.is_empty()),
        other => panic!("unexpected {:?}", other),
    }
}

#[test]
fn scissor_clamps_negative_origin() {
    assert_eq!(scissor_origin(&ScissorRect { x: -5, y: 7, w: 10, h: 10 }), (0, 7));
    assert_eq!(scissor_origin(&ScissorRect { x: 3, y: -1, w: 1, h: 1 }), (3, 0));
}

#[test]
fn load_and_store_ops_map() {
    assert_eq!(map_load_op(&InitOp::Load), LoadAction::Load);
    assert_eq!(map_load_op(&InitOp::Clear(TextureColor::White)), LoadAction::Clear(TextureColor::White));
    assert_eq!(map_load_op(&InitOp::DontCare), LoadAction::Clear(TextureColor::OpaqueBlack));
    assert_eq!(map_depth_load_op(&InitOp::Load), AttachmentLoad::Load);
    assert_eq!(map_depth_load_op(&InitOp::DontCare), AttachmentLoad::Clear);
    assert_eq!(map_stencil_load_op(&InitOp::Clear(TextureColor::TransparentBlack)), AttachmentLoad::Clear);
    assert_eq!(map_store_op(&FinishOp::Store), StoreAction::Store);
    assert_eq!(map_store_op(&FinishOp::Discard), StoreAction::Discard);
    assert_eq!(map_store_op(&FinishOp::Ignore), StoreAction::Discard);
    let view = TextureView { raw: TextureViewKey(1), target_size: [4, 4], aspects: TexelAspects::color() };
    assert_eq!(map_store_op(&FinishOp::ResolveTo(view)), StoreAction::Store);
}

#[test]
fn dedup_keeps_last_entry_per_binding() {
    let entries = vec![buf_entry(0, 1), buf_entry(1, 2), buf_entry(0, 3)];
    assert_eq!(dedup_by_binding(&entries), vec![buf_entry(1, 2), buf_entry(0, 3)]);
    assert!(dedup_by_binding(&vec![]).is_empty());
}

#[test]
fn dedup_binds_each_slot_once() {
    let entries = vec![
        buf_entry(2, 1),
        BindGroupEntry::Sampler { binding: 2, sampler_key: SamplerKey(5) },
        buf_entry(2, 9),
        buf_entry(3, 4),
    ];
    let kept = dedup_by_binding(&entries);
    assert_eq!(kept, vec![buf_entry(2, 9), buf_entry(3, 4)]);
}

#[test]
fn plain_data_detection() {
    assert!(!has_plain_data(&vec![buf_entry(0, 1)]));
    assert!(has_plain_data(&vec![buf_entry(0, 1), BindGroupEntry::PlainData { binding: 1, offset: 0, size: 16 }]));
}

#[test]
fn record_and_flush_render_groups() {
    let mut state = ExecutionState::new();
    state.begin_render_pass();
    state.render_pipeline_key = Some(RenderPipelineKey(7));
    state.record_bind_group(1, &vec![buf_entry(0, 1)]);
    state.record_bind_group(0, &vec![BindGroupEntry::Texture { binding: 0, view_key: TextureViewKey(2) }]);
    state.record_bind_group(1, &vec![buf_entry(0, 5)]);
    let steps = state.flush_render_bind_groups(Some(2));
    assert_eq!(steps.len(), 2);
    assert_eq!(steps[0].group_index, 1);
    assert_eq!(steps[0].entries, vec![buf_entry(0, 5)]);
    let key = steps[0].cache_key.as_ref().expect("cached");
    assert_eq!(key.pipeline_key, PipelineKey::Render(RenderPipelineKey(7)));
    assert_eq!(key.group_index, 1);
    assert_eq!(key.bindings, vec![ResourceBinding::Buffer { binding: 0, key: BufferKey(5), offset: 0, size: 64 }]);
    assert_eq!(steps[1].group_index, 0);
    assert!(state.pending_bind_groups.is_empty());
    assert!(state.flush_render_bind_groups(Some(2)).is_empty());
}

#[test]
fn flush_skips_groups_beyond_layout_and_plain_data_is_uncached() {
    let mut state = ExecutionState::new();
    state.begin_compute_pass();
    state.compute_pipeline_key = Some(ComputePipelineKey(3));
    state.record_bind_group(0, &vec![BindGroupEntry::PlainData { binding: 0, offset: 256, size: 16 }]);
    state.record_bind_group(4, &vec![buf_entry(0, 1)]);
    let steps = state.flush_compute_bind_groups(Some(1));
    assert_eq!(steps.len(), 1);
    assert_eq!(steps[0].group_index, 0);
    assert!(steps[0].cache_key.is_none());
}

#[test]
fn flush_without_pipeline_or_layout_does_nothing() {
    let mut state = ExecutionState::new();
    state.record_bind_group(0, &vec![buf_entry(0, 1)]);
    assert!(state.flush_render_bind_groups(Some(4)).is_empty());
    assert!(state.pending_bind_groups.is_empty());
    state.render_pipeline_key = Some(RenderPipelineKey(1));
    state.record_bind_group(0, &vec![buf_entry(0, 1)]);
    assert!(state.flush_render_bind_groups(None).is_empty());
    assert!(state.pending_bind_groups.is_empty());
}

#[test]
fn begin_pass_clears_pending_and_pipeline() {
    let mut state = ExecutionState::new();
    state.render_pipeline_key = Some(RenderPipelineKey(1));
    state.compute_pipeline_key = Some(ComputePipelineKey(2));
    state.record_bind_group(0, &vec![buf_entry(0, 1)]);
    state.begin_render_pass();
    assert!(state.render_pipeline_key.is_none());
    assert_eq!(state.compute_pipeline_key, Some(ComputePipelineKey(2)));
    assert!(state.pending_bind_groups.is_empty());
    state.begin_compute_pass();
    assert!(state.compute_pipeline_key.is_none());
}

#[test]
fn entry_to_binding_maps_each_kind() {
    assert_eq!(
        ExecutionState::entry_to_binding(&BindGroupEntry::Sampler { binding: 3, sampler_key: SamplerKey(8) }),
        ResourceBinding::Sampler { binding: 3, key: SamplerKey(8) }
    );
    assert_eq!(
        ExecutionState::entry_to_binding(&BindGroupEntry::PlainData { binding: 1, offset: 4, size: 8 }),
        ResourceBinding::PlainData { binding: 1, offset: 4, size: 8 }
    );
}

#[test]
fn plan_steps_move_forward_without_overlap() {
    let cmds = vec![
        begin_render(),
        Command::BeginComputePass,
        Command::EndRenderPass,
        fill(1),
        Command::BeginComputePass,
        Command::Dispatch { groups: [1, 1, 1] },
        Command::EndComputePass,
        Command::EndComputePass,
        fill(2),
    ];
    let steps = plan_commands(&cmds);
    assert_eq!(
        steps,
        vec![Step::RenderPass { begin: 0, end: 2 }, Step::Transfer(3), Step::ComputePass { begin: 4, end: 6 }, Step::Transfer(8)]
    );
    let span = |s: &Step| match *s {
        Step::Transfer(t) => (t, t),
        Step::RenderPass { begin, end } | Step::ComputePass { begin, end } => (begin, end),
    };
    for pair in steps.windows(2) {
        assert!(span(&pair[0]).1 < span(&pair[1]).0);
    }
}

#[test]
fn render_step_records_flushes_and_draws() {
    let mut state = ExecutionState::new();
    state.begin_render_pass();
    match state.render_step(&Command::SetRenderPipeline { key: RenderPipelineKey(5) }, None) {
        RenderAction::SetPipeline(k) => assert_eq!(k, RenderPipelineKey(5)),
        other => panic!("unexpected {:?}", other),
    }
    assert_eq!(state.render_pipeline_key, Some(RenderPipelineKey(5)));
    let rec = Command::RecordBindGroup { group_index: 0, entries: vec![buf_entry(0, 1)] };
    assert!(matches!(state.render_step(&rec, Some(1)), RenderAction::Nothing));
    let draw = Command::Draw { first_vertex: 3, vertex_count: 6, first_instance: 1, instance_count: 2 };
    match state.render_step(&draw, Some(1)) {
        RenderAction::Draw { groups, vertices, instances } => {
            assert_eq!(groups.len(), 1);
            assert_eq!(groups[0].entries, vec![buf_entry(0, 1)]);
            assert_eq!(vertices, (3, 9));
            assert_eq!(instances, (1, 3));
        }
        other => panic!("unexpected {:?}", other),
    }
    assert!(state.pending_bind_groups.is_empty());
    let indexed = Command::DrawIndexed {
        index_buffer: part(4),
        index_format: blade_graphics::command::IndexType::U16,
        index_count: 12,
        base_vertex: -2,
        first_instance: 0,
        instance_count: 1,
    };
    match state.render_step(&indexed, Some(1)) {
        RenderAction::DrawIndexed { groups, indices, base_vertex, instances, .. } => {
            assert!(groups.is_empty());
            assert_eq!(indices, (0, 12));
            assert_eq!(base_vertex, -2);
            assert_eq!(instances, (0, 1));
        }
        other => panic!("unexpected {:?}", other),
    }
}

#[test]
fn render_step_passes_state_commands_through() {
    let mut state = ExecutionState::new();
    match state.render_step(&Command::SetScissor { rect: ScissorRect { x: -4, y: 9, w: 5, h: 6 } }, None) {
        RenderAction::SetScissor { x, y, w, h } => assert_eq!((x, y, w, h), (0, 9, 5, 6)),
        other => panic!("unexpected {:?}", other),
    }
    match state.render_step(&Command::SetStencilReference { reference: 7 }, None) {
        RenderAction::SetStencilReference(r) => assert_eq!(r, 7),
        other => panic!("unexpected {:?}", other),
    }
    // a compute command means nothing inside a render pass
    assert!(matches!(state.render_step(&Command::Dispatch { groups: [1, 1, 1] }, None), RenderAction::Nothing));
    // without a pipeline a draw binds nothing
    state.record_bind_group(0, &vec![buf_entry(0, 1)]);
    match state.render_step(&draw(), Some(3)) {
        RenderAction::Draw { groups, .. } => assert!(groups.is_empty()),
        other => panic!("unexpected {:?}", other),
    }
}

#[test]
fn compute_step_sets_pipeline_and_dispatches() {
    let mut state = ExecutionState::new();
    state.begin_compute_pass();
    assert!(matches!(
        state.compute_step(&Command::SetComputePipeline { key: ComputePipelineKey(2) }, None),
        ComputeAction::SetPipeline(ComputePipelineKey(2))
    ));
    state.compute_step(&Command::RecordBindGroup { group_index: 1, entries: vec![buf_entry(0, 8)] }, Some(2));
    match state.compute_step(&Command::Dispatch { groups: [4, 2, 1] }, Some(2)) {
        ComputeAction::Dispatch { groups, counts } => {
            assert_eq!(counts, [4, 2, 1]);
            assert_eq!(groups.len(), 1);
            assert_eq!(groups[0].group_index, 1);
        }
        other => panic!("unexpected {:?}", other),
    }
    assert!(matches!(state.compute_step(&draw(), Some(2)), ComputeAction::Nothing));
}
