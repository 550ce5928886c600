//! Command recording.
//!
//! Recording is deferred: every encoder call appends a `Command` to the
//! encoder's list (and plain uniform bytes to its `plain_data`), and the list
//! is replayed on the device at submit time.

use vstd::prelude::*;
use crate::align::{round_up_uniform_size, round_up_spec, is_pow2, lemma_pow2_bounds};
use crate::handles::{Frame, ComputePipeline, RenderPipeline, ShaderDataMapping, Buffer, BufferKey, BindingSlot, ComputePipelineKey, Limits, RenderPipelineKey, Sampler, SamplerKey, Texture, TextureFormat, TextureKey, TextureView, TextureViewKey};
use core::marker::PhantomData;

verus! {

/// Standard clear colors.
#[derive(Clone, Copy, Debug, PartialEq, Eq, Hash, Structural)]
pub enum TextureColor {
    TransparentBlack,
    OpaqueBlack,
    White,
}

/// How a render target's contents are initialised when a pass begins.
#[derive(Clone, Copy, Debug, PartialEq, Eq, Hash, Structural)]
pub enum InitOp {
    Load,
    Clear(TextureColor),
    DontCare,
}

/// What happens to a render target's contents when a pass ends.
#[derive(Clone, Copy, Debug)]
pub enum FinishOp {
    Store,
    Discard,
    ResolveTo(TextureView),
    Ignore,
}

/// Width of the indices of an index buffer.
#[derive(Clone, Copy, Debug, PartialEq, Eq, Hash, Structural)]
pub enum IndexType {
    U16,
    U32,
}

/// Size of a texture region.
#[derive(Clone, Copy, Debug, PartialEq, Eq, Hash, Structural)]
pub struct Extent {
    pub width: u32,
    pub height: u32,
    pub depth: u32,
}

/// A buffer and a byte offset into it.
#[derive(Clone, Copy, Debug, PartialEq, Eq, Hash, Structural)]
pub struct BufferPiece {
    pub buffer: Buffer,
    pub offset: u64,
}

/// A texture subresource and an origin inside it.
#[derive(Clone, Copy, Debug)]
pub struct TexturePiece {
    pub texture: Texture,
    pub mip_level: u32,
    pub array_layer: u32,
    pub origin: [u32; 3],
}

/// Scissor rectangle; the origin may be negative.
#[derive(Clone, Copy, Debug, PartialEq, Eq, Hash, Structural)]
pub struct ScissorRect {
    pub x: i32,
    pub y: i32,
    pub w: u32,
    pub h: u32,
}

/// Viewport. Each field is the IEEE-754 bit pattern of the `f32` value; the
/// recorder carries them through unchanged.
#[derive(Clone, Copy, Debug, PartialEq, Eq, Hash, Structural)]
pub struct Viewport {
    pub x: u32,
    pub y: u32,
    pub w: u32,
    pub h: u32,
    pub depth_start: u32,
    pub depth_end: u32,
}

/// One render target of a pass.
#[derive(Clone, Copy, Debug)]
pub struct RenderTarget {
    pub view: TextureView,
    pub init_op: InitOp,
    pub finish_op: FinishOp,
}

/// The color and depth-stencil targets of a render pass.
#[derive(Clone, Debug)]
pub struct RenderTargetSet {
    pub colors: Vec<RenderTarget>,
    pub depth_stencil: Option<RenderTarget>,
}

/// Buffer location recorded in a command.
#[derive(Clone, Copy, Debug, PartialEq, Eq, Hash, Structural)]
pub struct BufferPart {
    pub key: BufferKey,
    pub offset: u64,
}

impl From<BufferPiece> for BufferPart {
    fn from(piece: BufferPiece) -> (r: Self) {
        BufferPart { key: piece.buffer.raw, offset: piece.offset }
    }
}

impl vstd::std_specs::convert::FromSpecImpl<BufferPiece> for BufferPart {
    open spec fn obeys_from_spec() -> bool {
        true
    }

    open spec fn from_spec(piece: BufferPiece) -> Self {
        BufferPart { key: piece.buffer.raw, offset: piece.offset }
    }
}

/// Texture location recorded in a command.
#[derive(Clone, Copy, Debug)]
pub struct TexturePart {
    pub key: TextureKey,
    pub format: TextureFormat,
    pub mip_level: u32,
    pub array_layer: u32,
    pub origin: [u32; 3],
}

impl From<TexturePiece> for TexturePart {
    fn from(piece: TexturePiece) -> (r: Self) {
        TexturePart {
            key: piece.texture.raw,
            format: piece.texture.format,
            mip_level: piece.mip_level,
            array_layer: piece.array_layer,
            origin: piece.origin,
        }
    }
}

impl vstd::std_specs::convert::FromSpecImpl<TexturePiece> for TexturePart {
    open spec fn obeys_from_spec() -> bool {
        true
    }

    open spec fn from_spec(piece: TexturePiece) -> Self {
        TexturePart {
            key: piece.texture.raw,
            format: piece.texture.format,
            mip_level: piece.mip_level,
            array_layer: piece.array_layer,
            origin: piece.origin,
        }
    }
}

/// Render pass color attachment.
#[derive(Clone, Copy, Debug)]
pub struct RenderColorAttachment {
    pub view_key: TextureViewKey,
    pub load_op: InitOp,
    pub store_op: FinishOp,
    /// Multisample resolve target (from `FinishOp::ResolveTo`).
    pub resolve_target: Option<TextureViewKey>,
}

/// Render pass depth-stencil attachment.
#[derive(Clone, Copy, Debug)]
pub struct RenderDepthAttachment {
    pub view_key: TextureViewKey,
    pub depth_load_op: InitOp,
    pub depth_store_op: FinishOp,
    pub stencil_load_op: InitOp,
    pub stencil_store_op: FinishOp,
}

/// Bind group entry recorded for deferred binding.
#[allow(inconsistent_fields)]
#[derive(Clone, Copy, Debug, PartialEq, Eq, Hash, Structural)]
pub enum BindGroupEntry {
    Buffer { binding: u32, buffer_key: BufferKey, offset: u64, size: u64 },
    Texture { binding: u32, view_key: TextureViewKey },
    Sampler { binding: u32, sampler_key: SamplerKey },
    PlainData { binding: u32, offset: u32, size: u32 },
}

/// Binding slot an entry targets.
pub open spec fn binding_of(e: BindGroupEntry) -> u32 {
    match e {
        BindGroupEntry::Buffer { binding, .. } => binding,
        BindGroupEntry::Texture { binding, .. } => binding,
        BindGroupEntry::Sampler { binding, .. } => binding,
        BindGroupEntry::PlainData { binding, .. } => binding,
    }
}

/// The same entry retargeted at binding slot `b`.
pub open spec fn with_binding(e: BindGroupEntry, b: u32) -> BindGroupEntry {
    match e {
        BindGroupEntry::Buffer { buffer_key, offset, size, .. } =>
            BindGroupEntry::Buffer { binding: b, buffer_key, offset, size },
        BindGroupEntry::Texture { view_key, .. } => BindGroupEntry::Texture { binding: b, view_key },
        BindGroupEntry::Sampler { sampler_key, .. } =>
            BindGroupEntry::Sampler { binding: b, sampler_key },
        BindGroupEntry::PlainData { offset, size, .. } =>
            BindGroupEntry::PlainData { binding: b, offset, size },
    }
}

impl BindGroupEntry {
    /// The binding slot this entry targets.
    pub fn binding_index(&self) -> (b: u32)
        ensures
            b == binding_of(*self),
    {
        match self {
            BindGroupEntry::Buffer { binding, .. } => *binding,
            BindGroupEntry::Texture { binding, .. } => *binding,
            BindGroupEntry::Sampler { binding, .. } => *binding,
            BindGroupEntry::PlainData { binding, .. } => *binding,
        }
    }

    fn retarget(&self, b: u32) -> (r: BindGroupEntry)
        ensures
            r == with_binding(*self, b),
    {
        match *self {
            BindGroupEntry::Buffer { buffer_key, offset, size, .. } =>
                BindGroupEntry::Buffer { binding: b, buffer_key, offset, size },
            BindGroupEntry::Texture { view_key, .. } => BindGroupEntry::Texture { binding: b, view_key },
            BindGroupEntry::Sampler { sampler_key, .. } =>
                BindGroupEntry::Sampler { binding: b, sampler_key },
            BindGroupEntry::PlainData { offset, size, .. } =>
                BindGroupEntry::PlainData { binding: b, offset, size },
        }
    }
}

/// Recorded commands, executed at submit time.
#[allow(inconsistent_fields)]
#[derive(Debug)]
pub enum Command {
    FillBuffer { dst: BufferPart, size: u64, value: u8 },
    CopyBufferToBuffer { src: BufferPart, dst: BufferPart, size: u64 },
    CopyBufferToTexture { src: BufferPart, bytes_per_row: u32, dst: TexturePart, size: Extent },
    CopyTextureToBuffer { src: TexturePart, dst: BufferPart, bytes_per_row: u32, size: Extent },
    CopyTextureToTexture { src: TexturePart, dst: TexturePart, size: Extent },
    BeginRenderPass {
        color_attachments: Vec<RenderColorAttachment>,
        depth_attachment: Option<RenderDepthAttachment>,
    },
    EndRenderPass,
    SetRenderPipeline { key: RenderPipelineKey },
    SetViewport { viewport: Viewport },
    SetScissor { rect: ScissorRect },
    SetStencilReference { reference: u32 },
    SetVertexBuffer { slot: u32, buffer: BufferPart },
    SetBindGroup { index: u32, bind_group_id: u32 },
    Draw { first_vertex: u32, vertex_count: u32, first_instance: u32, instance_count: u32 },
    DrawIndexed {
        index_buffer: BufferPart,
        index_format: IndexType,
        index_count: u32,
        base_vertex: i32,
        first_instance: u32,
        instance_count: u32,
    },
    DrawIndirect { indirect_buffer: BufferPart },
    DrawIndexedIndirect {
        index_buffer: BufferPart,
        index_format: IndexType,
        indirect_buffer: BufferPart,
    },
    BeginComputePass,
    EndComputePass,
    SetComputePipeline { key: ComputePipelineKey },
    Dispatch { groups: [u32; 3] },
    DispatchIndirect { indirect_buffer: BufferPart },
    RecordBindGroup { group_index: u32, entries: Vec<BindGroupEntry> },
    InitTexture { key: TextureKey },
}

/// `cmd` records exactly `entry` for bind group `group`.
pub open spec fn is_record_of(cmd: Command, group: u32, entry: BindGroupEntry) -> bool {
    cmd matches Command::RecordBindGroup { group_index, entries }
        && group_index == group && entries@ == seq![entry]
}

/// `cmds` holds one record of `entry` per slot, retargeted at that slot.
pub open spec fn records_for_slots(cmds: Seq<Command>, slots: Seq<BindingSlot>, entry: BindGroupEntry) -> bool {
    &&& cmds.len() == slots.len()
    &&& forall|i: int|
        0 <= i < slots.len() ==> #[trigger] is_record_of(
            cmds[i],
            slots[i].group,
            with_binding(entry, slots[i].binding),
        )
}

/// Offset at which uniform bytes start: the current length rounded up to the alignment.
pub open spec fn aligned_start(len: int, alignment: int) -> int {
    if len % alignment == 0 { len } else { len - len % alignment + alignment }
}

/// The plain data after appending `bytes` at an aligned start, zero-padded to `size`.
pub open spec fn packed_plain_data(old: Seq<u8>, bytes: Seq<u8>, alignment: int, size: int) -> Seq<u8> {
    let start = aligned_start(old.len() as int, alignment);
    old + Seq::new((start - old.len()) as nat, |i: int| 0u8) + bytes + Seq::new(
        (size - bytes.len()) as nat,
        |i: int| 0u8,
    )
}

/// Buffer part named by a buffer piece.
pub open spec fn part_of(p: BufferPiece) -> BufferPart {
    BufferPart { key: p.buffer.raw, offset: p.offset }
}

/// Texture part named by a texture piece.
pub open spec fn tex_part_of(p: TexturePiece) -> TexturePart {
    TexturePart {
        key: p.texture.raw,
        format: p.texture.format,
        mip_level: p.mip_level,
        array_layer: p.array_layer,
        origin: p.origin,
    }
}

/// Context handed to shader data while it binds its fields: the slots each
/// binding of one group maps to, and the recorder's outputs.
pub struct PipelineContext<'a> {
    pub commands: &'a mut Vec<Command>,
    pub plain_data: &'a mut Vec<u8>,
    pub targets: &'a [Vec<BindingSlot>],
    pub limits: &'a Limits,
}

impl<'a> PipelineContext<'a> {
    /// Appends one record of `entry` per slot of binding `index`.
    fn record_for_slots(&mut self, index: u32, entry: BindGroupEntry)
        requires
            index < old(self).targets@.len(),
        ensures
            final(self).commands@.len() >= old(self).commands@.len(),
            final(self).commands@.subrange(0, old(self).commands@.len() as int)
                == old(self).commands@,
            records_for_slots(
                final(self).commands@.subrange(
                    old(self).commands@.len() as int,
                    final(self).commands@.len() as int,
                ),
                old(self).targets@[index as int]@,
                entry,
            ),
            *final(self).plain_data == *old(self).plain_data,
            final(self).targets == old(self).targets,
            final(self).limits == old(self).limits,
            *final(final(self).commands) == *final(old(self).commands),
            *final(final(self).plain_data) == *final(old(self).plain_data),
    {
        let slots = &self.targets[index as usize];
        let n = slots.len();
        let ghost start = self.commands@.len();
        let mut i: usize = 0;
        while i < n
            invariant
                0 <= i <= n,
                n == slots@.len(),
                slots == old(self).targets@[index as int],
                self.targets == old(self).targets,
                self.limits == old(self).limits,
                *self.plain_data == *old(self).plain_data,
                start == old(self).commands@.len(),
                self.commands@.len() == start + i,
                self.commands@.subrange(0, start as int) == old(self).commands@,
                forall|j: int|
                    0 <= j < i ==> #[trigger] is_record_of(
                        self.commands@[start + j],
                        slots@[j].group,
                        with_binding(entry, slots@[j].binding),
                    ),
                *final(self.commands) == *final(old(self).commands),
                *final(self.plain_data) == *final(old(self).plain_data),
            decreases n - i,
        {
            let slot = slots[i];
            let e = entry.retarget(slot.binding);
            let mut entries: Vec<BindGroupEntry> = Vec::new();
            entries.push(e);
            let ghost before = self.commands@;
            self.commands.push(Command::RecordBindGroup { group_index: slot.group, entries });
            proof {
                assert(entries@ =~= seq![e]);
                assert forall|j: int| 0 <= j < i + 1 implies #[trigger] is_record_of(
                    self.commands@[start + j],
                    slots@[j].group,
                    with_binding(entry, slots@[j].binding),
                ) by {
                    if j < i {
                        assert(self.commands@[start + j] == before[start + j]);
                    }
                }
                assert(self.commands@.subrange(0, start as int) =~= before.subrange(0, start as int));
            }
            i = i + 1;
        }
        proof {
            let new_part = self.commands@.subrange(start as int, self.commands@.len() as int);
            assert forall|j: int| 0 <= j < slots@.len() implies #[trigger] is_record_of(
                new_part[j],
                slots@[j].group,
                with_binding(entry, slots@[j].binding),
            ) by {
                assert(new_part[j] == self.commands@[start + j]);
            }
        }
    }

    /// Binds plain uniform bytes to binding `index`: the bytes are appended to
    /// the plain data at an offset aligned to the uniform alignment and padded
    /// with zeros to a whole number of alignment units; each slot of the binding
    /// records a plain-data entry with that offset and padded size.
    pub fn bind_plain(&mut self, index: u32, bytes: &[u8])
        requires
            index < old(self).targets@.len(),
            is_pow2(old(self).limits.uniform_buffer_alignment as int),
            bytes@.len() + old(self).limits.uniform_buffer_alignment - 1 <= u32::MAX,
            old(self).plain_data@.len() + old(self).limits.uniform_buffer_alignment
                + old(self).limits.uniform_buffer_alignment + bytes@.len() <= usize::MAX,
        ensures
            ({
                let a = old(self).limits.uniform_buffer_alignment as int;
                let start = aligned_start(old(self).plain_data@.len() as int, a);
                let size = round_up_spec(bytes@.len() as int, a);
                &&& final(self).plain_data@ == packed_plain_data(
                    old(self).plain_data@,
                    bytes@,
                    a,
                    size,
                )
                &&& start % a == 0
                &&& final(self).commands@.len() >= old(self).commands@.len()
                &&& final(self).commands@.subrange(0, old(self).commands@.len() as int)
                    == old(self).commands@
                &&& records_for_slots(
                    final(self).commands@.subrange(
                        old(self).commands@.len() as int,
                        final(self).commands@.len() as int,
                    ),
                    old(self).targets@[index as int]@,
                    BindGroupEntry::PlainData {
                        binding: 0,
                        offset: #[verifier::truncate] (start as u32),
                        size: size as u32,
                    },
                )
            }),
            final(self).targets == old(self).targets,
            final(self).limits == old(self).limits,
            *final(final(self).commands) == *final(old(self).commands),
            *final(final(self).plain_data) == *final(old(self).plain_data),
    {
        let alignment = self.limits.uniform_buffer_alignment;
        proof {
            lemma_pow2_bounds(alignment as int);
        }
        let a = alignment as usize;
        let ghost old_data = self.plain_data@;
        let len = self.plain_data.len();
        let rem = len % a;
        assert(rem <= len && rem < a) by (nonlinear_arith)
            requires rem == len % a, a > 0;
        let mut target = len;
        if rem != 0 {
            target = len - rem + a;
        }
        let mut k = len;
        while k < target
            invariant
                len <= k <= target,
                len == old_data.len(),
                self.plain_data@.len() == k,
                forall|j: int| 0 <= j < len ==> self.plain_data@[j] == old_data[j],
                forall|j: int| len <= j < k ==> self.plain_data@[j] == 0u8,
                *self.commands == *old(self).commands,
                self.targets == old(self).targets,
                self.limits == old(self).limits,
                *final(self.commands) == *final(old(self).commands),
                *final(self.plain_data) == *final(old(self).plain_data),
            decreases target - k,
        {
            self.plain_data.push(0u8);
            k = k + 1;
        }
        let offset = #[verifier::truncate] (target as u32);
        let size = round_up_uniform_size(bytes.len() as u32, alignment);
        let mut b: usize = 0;
        while b < bytes.len()
            invariant
                0 <= b <= bytes@.len(),
                len <= target,
                len == old_data.len(),
                self.plain_data@.len() == target + b,
                forall|j: int| 0 <= j < len ==> self.plain_data@[j] == old_data[j],
                forall|j: int| len <= j < target ==> self.plain_data@[j] == 0u8,
                forall|j: int| 0 <= j < b ==> self.plain_data@[target + j] == bytes@[j],
                *self.commands == *old(self).commands,
                self.targets == old(self).targets,
                self.limits == old(self).limits,
                *final(self.commands) == *final(old(self).commands),
                *final(self.plain_data) == *final(old(self).plain_data),
            decreases bytes@.len() - b,
        {
            self.plain_data.push(bytes[b]);
            b = b + 1;
        }
        let mut z: u32 = bytes.len() as u32;
        while z < size
            invariant
                bytes@.len() <= z <= size,
                len <= target,
                len == old_data.len(),
                self.plain_data@.len() == target + z,
                forall|j: int| 0 <= j < len ==> self.plain_data@[j] == old_data[j],
                forall|j: int| len <= j < target ==> self.plain_data@[j] == 0u8,
                forall|j: int| 0 <= j < bytes@.len() ==> self.plain_data@[target + j] == bytes@[j],
                forall|j: int| target + bytes@.len() <= j < target + z ==> self.plain_data@[j] == 0u8,
                *self.commands == *old(self).commands,
                self.targets == old(self).targets,
                self.limits == old(self).limits,
                *final(self.commands) == *final(old(self).commands),
                *final(self.plain_data) == *final(old(self).plain_data),
            decreases size - z,
        {
            self.plain_data.push(0u8);
            z = z + 1;
        }
        proof {
            let ai = alignment as int;
            let li = len as int;
            let ri = rem as int;
            let ti = target as int;
            let start = aligned_start(li, ai);
            assert(ri == li % ai);
            assert(start == ti);
            assert(start % ai == 0) by (nonlinear_arith)
                requires
                    ai > 0,
                    start == (if li % ai == 0 { li } else { li - li % ai + ai });
            let expect = packed_plain_data(old_data, bytes@, ai, size as int);
            assert forall|j: int| 0 <= j < self.plain_data@.len() implies self.plain_data@[j] == expect[j] by {
                if j >= ti && j < ti + bytes@.len() {
                    assert(self.plain_data@[ti + (j - ti)] == bytes@[j - ti]);
                }
            }
            assert(self.plain_data@ =~= expect);
        }
        self.record_for_slots(index, BindGroupEntry::PlainData { binding: 0, offset, size });
    }
}

impl TextureView {
    /// Binds this view to binding `index`: one texture entry per slot.
    pub fn bind_to(&self, ctx: &mut PipelineContext, index: u32)
        requires
            index < old(ctx).targets@.len(),
        ensures
            final(ctx).commands@.len() >= old(ctx).commands@.len(),
            final(ctx).commands@.subrange(0, old(ctx).commands@.len() as int) == old(ctx).commands@,
            records_for_slots(
                final(ctx).commands@.subrange(
                    old(ctx).commands@.len() as int,
                    final(ctx).commands@.len() as int,
                ),
                old(ctx).targets@[index as int]@,
                BindGroupEntry::Texture { binding: 0, view_key: self.raw },
            ),
            *final(ctx).plain_data == *old(ctx).plain_data,
            final(ctx).targets == old(ctx).targets,
            final(ctx).limits == old(ctx).limits,
            *final(final(ctx).commands) == *final(old(ctx).commands),
            *final(final(ctx).plain_data) == *final(old(ctx).plain_data),
    {
        ctx.record_for_slots(index, BindGroupEntry::Texture { binding: 0, view_key: self.raw });
    }
}

impl Sampler {
    /// Binds this sampler to binding `index`: one sampler entry per slot.
    pub fn bind_to(&self, ctx: &mut PipelineContext, index: u32)
        requires
            index < old(ctx).targets@.len(),
        ensures
            final(ctx).commands@.len() >= old(ctx).commands@.len(),
            final(ctx).commands@.subrange(0, old(ctx).commands@.len() as int) == old(ctx).commands@,
            records_for_slots(
                final(ctx).commands@.subrange(
                    old(ctx).commands@.len() as int,
                    final(ctx).commands@.len() as int,
                ),
                old(ctx).targets@[index as int]@,
                BindGroupEntry::Sampler { binding: 0, sampler_key: self.raw },
            ),
            *final(ctx).plain_data == *old(ctx).plain_data,
            final(ctx).targets == old(ctx).targets,
            final(ctx).limits == old(ctx).limits,
            *final(final(ctx).commands) == *final(old(ctx).commands),
            *final(final(ctx).plain_data) == *final(old(ctx).plain_data),
    {
        ctx.record_for_slots(index, BindGroupEntry::Sampler { binding: 0, sampler_key: self.raw });
    }
}

impl BufferPiece {
    /// Binds the rest of the buffer from this piece's offset to binding
    /// `index`: one buffer entry per slot.
    pub fn bind_to(&self, ctx: &mut PipelineContext, index: u32)
        requires
            index < old(ctx).targets@.len(),
            self.offset <= self.buffer.size,
        ensures
            final(ctx).commands@.len() >= old(ctx).commands@.len(),
            final(ctx).commands@.subrange(0, old(ctx).commands@.len() as int) == old(ctx).commands@,
            records_for_slots(
                final(ctx).commands@.subrange(
                    old(ctx).commands@.len() as int,
                    final(ctx).commands@.len() as int,
                ),
                old(ctx).targets@[index as int]@,
                BindGroupEntry::Buffer {
                    binding: 0,
                    buffer_key: self.buffer.raw,
                    offset: self.offset,
                    size: (self.buffer.size - self.offset) as u64,
                },
            ),
            *final(ctx).plain_data == *old(ctx).plain_data,
            final(ctx).targets == old(ctx).targets,
            final(ctx).limits == old(ctx).limits,
            *final(final(ctx).commands) == *final(old(ctx).commands),
            *final(final(ctx).plain_data) == *final(old(ctx).plain_data),
    {
        ctx.record_for_slots(
            index,
            BindGroupEntry::Buffer {
                binding: 0,
                buffer_key: self.buffer.raw,
                offset: self.offset,
                size: self.buffer.size - self.offset,
            },
        );
    }
}

/// A command list being recorded, with its plain uniform data and the frames
/// to present after it is submitted.
pub struct CommandEncoder<T> {
    pub name: String,
    pub commands: Vec<Command>,
    pub plain_data: Vec<u8>,
    pub present_frames: Vec<Frame<T>>,
    pub limits: Limits,
}

/// Kind of pass a pass encoder records, which decides how it ends.
#[derive(Clone, Copy, Debug, PartialEq, Eq, Structural)]
pub enum PassKind {
    Transfer,
    Compute,
    Render,
}

/// Encoder for one pass. Its `end` must be called when the pass is done: it
/// records the command that closes the pass.
pub struct PassEncoder<'a, P> {
    pub commands: &'a mut Vec<Command>,
    pub plain_data: &'a mut Vec<u8>,
    pub kind: PassKind,
    pub pipeline: PhantomData<P>,
    pub limits: &'a Limits,
}

/// Encoder of a transfer pass.
pub type TransferCommandEncoder<'a> = PassEncoder<'a, ()>;

/// Encoder of a compute pass.
pub type ComputeCommandEncoder<'a> = PassEncoder<'a, ComputePipeline>;

/// Encoder of a render pass.
pub type RenderCommandEncoder<'a> = PassEncoder<'a, RenderPipeline>;

/// Encoder of commands under a bound pipeline.
pub struct PipelineEncoder<'a> {
    pub commands: &'a mut Vec<Command>,
    pub plain_data: &'a mut Vec<u8>,
    pub group_mappings: &'a [ShaderDataMapping],
    pub limits: &'a Limits,
}

/// Color attachment a render target becomes.
pub open spec fn color_attachment_of(t: RenderTarget) -> RenderColorAttachment {
    RenderColorAttachment {
        view_key: t.view.raw,
        load_op: t.init_op,
        store_op: t.finish_op,
        resolve_target: match t.finish_op {
            FinishOp::ResolveTo(v) => Some(v.raw),
            _ => None,
        },
    }
}

/// Depth attachment a depth-stencil target becomes: its init and finish
/// operations apply to both depth and stencil.
pub open spec fn depth_attachment_of(t: RenderTarget) -> RenderDepthAttachment {
    RenderDepthAttachment {
        view_key: t.view.raw,
        depth_load_op: t.init_op,
        depth_store_op: t.finish_op,
        stencil_load_op: t.init_op,
        stencil_store_op: t.finish_op,
    }
}

/// A render target's attachments load, store and resolve as the target says:
/// the color attachment names the target's view, loads by its init
/// operation, stores by its finish operation, and has a resolve target
/// exactly when the finish operation resolves (the resolve view's key); the
/// depth-stencil attachment applies the init and finish operations to both
/// depth and stencil.
pub proof fn lemma_attachments_follow_target(t: RenderTarget)
    ensures
        color_attachment_of(t).view_key == t.view.raw,
        color_attachment_of(t).load_op == t.init_op,
        color_attachment_of(t).store_op == t.finish_op,
        (color_attachment_of(t).resolve_target is Some) == (t.finish_op is ResolveTo),
        t.finish_op matches FinishOp::ResolveTo(v) ==> color_attachment_of(t).resolve_target == Some(v.raw),
        depth_attachment_of(t).view_key == t.view.raw,
        depth_attachment_of(t).depth_load_op == t.init_op && depth_attachment_of(t).stencil_load_op == t.init_op,
        depth_attachment_of(t).depth_store_op == t.finish_op && depth_attachment_of(t).stencil_store_op
            == t.finish_op,
{
}

/// The encoder's recorded outputs are those of the pass encoder, wired through
/// the borrow: what the pass leaves in its lists is what the encoder holds.
pub open spec fn hands_over<T, P>(old_enc: CommandEncoder<T>, new_enc: CommandEncoder<T>, p: PassEncoder<'_, P>) -> bool {
    &&& new_enc.name == old_enc.name
    &&& new_enc.present_frames == old_enc.present_frames
    &&& new_enc.limits == old_enc.limits
    &&& *p.limits == old_enc.limits
}

impl<T> CommandEncoder<T> {
    /// Create a new, empty command encoder.
    pub fn new(name: String, limits: Limits) -> (e: Self)
        ensures
            e.name == name,
            e.commands@.len() == 0,
            e.plain_data@.len() == 0,
            e.present_frames@.len() == 0,
            e.limits == limits,
    {
        CommandEncoder {
            name,
            commands: Vec::new(),
            plain_data: Vec::new(),
            present_frames: Vec::new(),
            limits,
        }
    }

    /// Begins recording anew: drops recorded commands, plain data and frames.
    pub fn start(&mut self)
        ensures
            final(self).name == old(self).name,
            final(self).commands@.len() == 0,
            final(self).plain_data@.len() == 0,
            final(self).present_frames@.len() == 0,
            final(self).limits == old(self).limits,
    {
        self.commands.clear();
        self.plain_data.clear();
        self.present_frames.clear();
    }

    /// Records the initialisation of a texture.
    pub fn init_texture(&mut self, texture: Texture)
        ensures
            final(self).commands@ == old(self).commands@.push(Command::InitTexture { key: texture.raw }),
            final(self).plain_data == old(self).plain_data,
            final(self).present_frames == old(self).present_frames,
            final(self).name == old(self).name,
            final(self).limits == old(self).limits,
    {
        self.commands.push(Command::InitTexture { key: texture.raw });
    }

    /// Queues a frame for presentation after submission.
    pub fn present(&mut self, frame: Frame<T>)
        ensures
            final(self).present_frames@ == old(self).present_frames@.push(frame),
            final(self).commands == old(self).commands,
            final(self).plain_data == old(self).plain_data,
            final(self).name == old(self).name,
            final(self).limits == old(self).limits,
    {
        self.present_frames.push(frame);
    }

    fn pass<P>(&mut self, kind: PassKind) -> (p: PassEncoder<'_, P>)
        ensures
            p.commands@ == old(self).commands@,
            p.plain_data@ == old(self).plain_data@,
            p.kind == kind,
            hands_over(*old(self), *final(self), p),
            final(self).commands == *final(p.commands),
            final(self).plain_data == *final(p.plain_data),
    {
        PassEncoder {
            commands: &mut self.commands,
            plain_data: &mut self.plain_data,
            kind,
            pipeline: PhantomData,
            limits: &self.limits,
        }
    }

    /// Opens a transfer pass; nothing is recorded until transfers are.
    pub fn transfer(&mut self, _label: &str) -> (p: TransferCommandEncoder<'_>)
        ensures
            p.commands@ == old(self).commands@,
            p.plain_data@ == old(self).plain_data@,
            p.kind == PassKind::Transfer,
            hands_over(*old(self), *final(self), p),
            final(self).commands == *final(p.commands),
            final(self).plain_data == *final(p.plain_data),
    {
        self.pass(PassKind::Transfer)
    }

    /// Opens a compute pass: records its beginning.
    pub fn compute(&mut self, _label: &str) -> (p: ComputeCommandEncoder<'_>)
        ensures
            p.commands@ == old(self).commands@.push(Command::BeginComputePass),
            p.plain_data@ == old(self).plain_data@,
            p.kind == PassKind::Compute,
            hands_over(*old(self), *final(self), p),
            final(self).commands == *final(p.commands),
            final(self).plain_data == *final(p.plain_data),
    {
        self.commands.push(Command::BeginComputePass);
        self.pass(PassKind::Compute)
    }

    /// Opens a render pass: records its beginning with one color attachment
    /// per color target and, when there is one, the depth-stencil attachment.
    pub fn render(&mut self, _label: &str, targets: RenderTargetSet) -> (p: RenderCommandEncoder<'_>)
        ensures
            p.commands@.len() == old(self).commands@.len() + 1,
            p.commands@.subrange(0, old(self).commands@.len() as int) == old(self).commands@,
            ({
                let c = p.commands@[old(self).commands@.len() as int];
                &&& c matches Command::BeginRenderPass { color_attachments, depth_attachment }
                &&& color_attachments@ == targets.colors@.map_values(|t: RenderTarget| color_attachment_of(t))
                &&& depth_attachment == match targets.depth_stencil {
                    Some(ds) => Some(depth_attachment_of(ds)),
                    None => None,
                }
            }),
            p.plain_data@ == old(self).plain_data@,
            p.kind == PassKind::Render,
            hands_over(*old(self), *final(self), p),
            final(self).commands == *final(p.commands),
            final(self).plain_data == *final(p.plain_data),
    {
        let mut color_attachments: Vec<RenderColorAttachment> = Vec::new();
        let n = targets.colors.len();
        let mut i: usize = 0;
        while i < n
            invariant
                0 <= i <= n,
                n == targets.colors@.len(),
                color_attachments@ == targets.colors@.subrange(0, i as int).map_values(
                    |t: RenderTarget| color_attachment_of(t),
                ),
            decreases n - i,
        {
            let ct = targets.colors[i];
            let resolve_target = match ct.finish_op {
                FinishOp::ResolveTo(view) => Some(view.raw),
                _ => None,
            };
            color_attachments.push(
                RenderColorAttachment {
                    view_key: ct.view.raw,
                    load_op: ct.init_op,
                    store_op: ct.finish_op,
                    resolve_target,
                },
            );
            proof {
                assert(targets.colors@.subrange(0, i + 1) =~= targets.colors@.subrange(0, i as int).push(ct));
            }
            i = i + 1;
        }
        proof {
            assert(targets.colors@.subrange(0, n as int) =~= targets.colors@);
        }
        let depth_attachment = match targets.depth_stencil {
            Some(ds) => Some(
                RenderDepthAttachment {
                    view_key: ds.view.raw,
                    depth_load_op: ds.init_op,
                    depth_store_op: ds.finish_op,
                    stencil_load_op: ds.init_op,
                    stencil_store_op: ds.finish_op,
                },
            ),
            None => None,
        };
        self.commands.push(Command::BeginRenderPass { color_attachments, depth_attachment });
        self.pass(PassKind::Render)
    }
}

/// `new` differs from `old` by the recorded command `c`, with the borrows
/// still wired to the same places.
pub open spec fn pass_records<P>(old_p: PassEncoder<'_, P>, new_p: PassEncoder<'_, P>, c: Command) -> bool {
    &&& new_p.commands@ == old_p.commands@.push(c)
    &&& *new_p.plain_data == *old_p.plain_data
    &&& new_p.kind == old_p.kind
    &&& new_p.limits == old_p.limits
}

impl<'a, P> PassEncoder<'a, P> {
    /// Closes the pass: a compute pass records its end, a render pass records
    /// its end, a transfer pass records nothing.
    pub fn end(self)
        ensures
            self.kind == PassKind::Compute ==> (*final(self.commands))@ == (*old(self.commands))@.push(Command::EndComputePass),
            self.kind == PassKind::Render ==> (*final(self.commands))@ == (*old(self.commands))@.push(Command::EndRenderPass),
            self.kind == PassKind::Transfer ==> *final(self.commands) == *old(self.commands),
            *final(self.plain_data) == *old(self.plain_data),
    {
        let PassEncoder { commands, plain_data, kind, pipeline, limits } = self;
        match kind {
            PassKind::Transfer => {},
            PassKind::Compute => {
                commands.push(Command::EndComputePass);
            },
            PassKind::Render => {
                commands.push(Command::EndRenderPass);
            },
        }
    }
}

impl<'a> PassEncoder<'a, ()> {
    /// Records filling `size` bytes of a buffer with `value`.
    pub fn fill_buffer(&mut self, dst: BufferPiece, size: u64, value: u8)
        ensures
            pass_records(*old(self), *final(self), Command::FillBuffer { dst: part_of(dst), size, value }),
            *final(final(self).commands) == *final(old(self).commands),
            *final(final(self).plain_data) == *final(old(self).plain_data),
    {
        self.commands.push(Command::FillBuffer { dst: dst.into(), size, value });
    }

    /// Records a buffer-to-buffer copy of `size` bytes.
    pub fn copy_buffer_to_buffer(&mut self, src: BufferPiece, dst: BufferPiece, size: u64)
        ensures
            pass_records(
                *old(self),
                *final(self),
                Command::CopyBufferToBuffer { src: part_of(src), dst: part_of(dst), size },
            ),
            *final(final(self).commands) == *final(old(self).commands),
            *final(final(self).plain_data) == *final(old(self).plain_data),
    {
        self.commands.push(Command::CopyBufferToBuffer { src: src.into(), dst: dst.into(), size });
    }

    /// Records a texture-to-texture copy.
    pub fn copy_texture_to_texture(&mut self, src: TexturePiece, dst: TexturePiece, size: Extent)
        ensures
            pass_records(
                *old(self),
                *final(self),
                Command::CopyTextureToTexture { src: tex_part_of(src), dst: tex_part_of(dst), size },
            ),
            *final(final(self).commands) == *final(old(self).commands),
            *final(final(self).plain_data) == *final(old(self).plain_data),
    {
        self.commands.push(Command::CopyTextureToTexture { src: src.into(), dst: dst.into(), size });
    }

    /// Records a buffer-to-texture copy.
    pub fn copy_buffer_to_texture(&mut self, src: BufferPiece, bytes_per_row: u32, dst: TexturePiece, size: Extent)
        ensures
            pass_records(
                *old(self),
                *final(self),
                Command::CopyBufferToTexture { src: part_of(src), bytes_per_row, dst: tex_part_of(dst), size },
            ),
            *final(final(self).commands) == *final(old(self).commands),
            *final(final(self).plain_data) == *final(old(self).plain_data),
    {
        self.commands.push(
            Command::CopyBufferToTexture { src: src.into(), bytes_per_row, dst: dst.into(), size },
        );
    }

    /// Records a texture-to-buffer copy.
    pub fn copy_texture_to_buffer(&mut self, src: TexturePiece, dst: BufferPiece, bytes_per_row: u32, size: Extent)
        ensures
            pass_records(
                *old(self),
                *final(self),
                Command::CopyTextureToBuffer { src: tex_part_of(src), dst: part_of(dst), bytes_per_row, size },
            ),
            *final(final(self).commands) == *final(old(self).commands),
            *final(final(self).plain_data) == *final(old(self).plain_data),
    {
        self.commands.push(
            Command::CopyTextureToBuffer { src: src.into(), dst: dst.into(), bytes_per_row, size },
        );
    }
}

impl<'a> PassEncoder<'a, RenderPipeline> {
    /// Records a scissor rectangle.
    pub fn set_scissor_rect(&mut self, rect: &ScissorRect)
        ensures
            pass_records(*old(self), *final(self), Command::SetScissor { rect: *rect }),
            *final(final(self).commands) == *final(old(self).commands),
            *final(final(self).plain_data) == *final(old(self).plain_data),
    {
        self.commands.push(Command::SetScissor { rect: *rect });
    }

    /// Records a viewport.
    pub fn set_viewport(&mut self, viewport: &Viewport)
        ensures
            pass_records(*old(self), *final(self), Command::SetViewport { viewport: *viewport }),
            *final(final(self).commands) == *final(old(self).commands),
            *final(final(self).plain_data) == *final(old(self).plain_data),
    {
        self.commands.push(Command::SetViewport { viewport: *viewport });
    }

    /// Records a stencil reference value.
    pub fn set_stencil_reference(&mut self, reference: u32)
        ensures
            pass_records(*old(self), *final(self), Command::SetStencilReference { reference }),
            *final(final(self).commands) == *final(old(self).commands),
            *final(final(self).plain_data) == *final(old(self).plain_data),
    {
        self.commands.push(Command::SetStencilReference { reference });
    }

    /// Binds a render pipeline and returns an encoder for commands under it.
    pub fn with<'p>(&'p mut self, pipeline: &'p RenderPipeline) -> (pe: PipelineEncoder<'p>)
        ensures
            pe.commands@ == old(self).commands@.push(Command::SetRenderPipeline { key: pipeline.raw }),
            pe.plain_data@ == old(self).plain_data@,
            pe.group_mappings@ == pipeline.group_mappings@,
            *pe.limits == *old(self).limits,
            final(self).kind == old(self).kind,
            final(self).limits == old(self).limits,
            *final(self).commands == *final(pe.commands),
            *final(self).plain_data == *final(pe.plain_data),
            *final(final(self).commands) == *final(old(self).commands),
            *final(final(self).plain_data) == *final(old(self).plain_data),
    {
        self.commands.push(Command::SetRenderPipeline { key: pipeline.raw });
        PipelineEncoder {
            commands: self.commands,
            plain_data: self.plain_data,
            group_mappings: pipeline.group_mappings.as_slice(),
            limits: self.limits,
        }
    }
}

impl<'a> PassEncoder<'a, ComputePipeline> {
    /// Binds a compute pipeline and returns an encoder for commands under it.
    pub fn with<'p>(&'p mut self, pipeline: &'p ComputePipeline) -> (pe: PipelineEncoder<'p>)
        ensures
            pe.commands@ == old(self).commands@.push(Command::SetComputePipeline { key: pipeline.raw }),
            pe.plain_data@ == old(self).plain_data@,
            pe.group_mappings@ == pipeline.group_mappings@,
            *pe.limits == *old(self).limits,
            final(self).kind == old(self).kind,
            final(self).limits == old(self).limits,
            *final(self).commands == *final(pe.commands),
            *final(self).plain_data == *final(pe.plain_data),
            *final(final(self).commands) == *final(old(self).commands),
            *final(final(self).plain_data) == *final(old(self).plain_data),
    {
        self.commands.push(Command::SetComputePipeline { key: pipeline.raw });
        PipelineEncoder {
            commands: self.commands,
            plain_data: self.plain_data,
            group_mappings: pipeline.group_mappings.as_slice(),
            limits: self.limits,
        }
    }
}

/// `new` differs from `old` by the recorded command `c`.
pub open spec fn pipeline_records(old_p: PipelineEncoder<'_>, new_p: PipelineEncoder<'_>, c: Command) -> bool {
    &&& new_p.commands@ == old_p.commands@.push(c)
    &&& *new_p.plain_data == *old_p.plain_data
    &&& new_p.group_mappings == old_p.group_mappings
    &&& new_p.limits == old_p.limits
}

impl<'a> PipelineEncoder<'a> {
    /// Opens shader data group `group` for binding: the returned context maps
    /// each binding of the group to its slots and records into this encoder.
    pub fn bind(&mut self, group: u32) -> (ctx: PipelineContext<'_>)
        requires
            group < old(self).group_mappings@.len(),
        ensures
            ctx.commands@ == old(self).commands@,
            ctx.plain_data@ == old(self).plain_data@,
            ctx.targets@ == old(self).group_mappings@[group as int].targets@,
            *ctx.limits == *old(self).limits,
            final(self).group_mappings == old(self).group_mappings,
            final(self).limits == old(self).limits,
            *final(self).commands == *final(ctx.commands),
            *final(self).plain_data == *final(ctx.plain_data),
            *final(final(self).commands) == *final(old(self).commands),
            *final(final(self).plain_data) == *final(old(self).plain_data),
    {
        let targets = self.group_mappings[group as usize].targets.as_slice();
        PipelineContext {
            commands: self.commands,
            plain_data: self.plain_data,
            targets,
            limits: self.limits,
        }
    }

    /// Records a scissor rectangle.
    pub fn set_scissor_rect(&mut self, rect: &ScissorRect)
        ensures
            pipeline_records(*old(self), *final(self), Command::SetScissor { rect: *rect }),
            *final(final(self).commands) == *final(old(self).commands),
            *final(final(self).plain_data) == *final(old(self).plain_data),
    {
        self.commands.push(Command::SetScissor { rect: *rect });
    }

    /// Records a viewport.
    pub fn set_viewport(&mut self, viewport: &Viewport)
        ensures
            pipeline_records(*old(self), *final(self), Command::SetViewport { viewport: *viewport }),
            *final(final(self).commands) == *final(old(self).commands),
            *final(final(self).plain_data) == *final(old(self).plain_data),
    {
        self.commands.push(Command::SetViewport { viewport: *viewport });
    }

    /// Records a stencil reference value.
    pub fn set_stencil_reference(&mut self, reference: u32)
        ensures
            pipeline_records(*old(self), *final(self), Command::SetStencilReference { reference }),
            *final(final(self).commands) == *final(old(self).commands),
            *final(final(self).plain_data) == *final(old(self).plain_data),
    {
        self.commands.push(Command::SetStencilReference { reference });
    }

    /// Records a compute dispatch of `groups` workgroups.
    pub fn dispatch(&mut self, groups: [u32; 3])
        ensures
            pipeline_records(*old(self), *final(self), Command::Dispatch { groups }),
            *final(final(self).commands) == *final(old(self).commands),
            *final(final(self).plain_data) == *final(old(self).plain_data),
    {
        self.commands.push(Command::Dispatch { groups });
    }

    /// Records a dispatch whose workgroup counts are read from a buffer.
    pub fn dispatch_indirect(&mut self, indirect_buf: BufferPiece)
        ensures
            pipeline_records(
                *old(self),
                *final(self),
                Command::DispatchIndirect { indirect_buffer: part_of(indirect_buf) },
            ),
            *final(final(self).commands) == *final(old(self).commands),
            *final(final(self).plain_data) == *final(old(self).plain_data),
    {
        self.commands.push(Command::DispatchIndirect { indirect_buffer: indirect_buf.into() });
    }

    /// Records binding a vertex buffer to slot `index`.
    pub fn bind_vertex(&mut self, index: u32, vertex_buf: BufferPiece)
        ensures
            pipeline_records(
                *old(self),
                *final(self),
                Command::SetVertexBuffer { slot: index, buffer: part_of(vertex_buf) },
            ),
            *final(final(self).commands) == *final(old(self).commands),
            *final(final(self).plain_data) == *final(old(self).plain_data),
    {
        self.commands.push(Command::SetVertexBuffer { slot: index, buffer: vertex_buf.into() });
    }

    /// Records a non-indexed draw.
    pub fn draw(&mut self, first_vertex: u32, vertex_count: u32, first_instance: u32, instance_count: u32)
        ensures
            pipeline_records(
                *old(self),
                *final(self),
                Command::Draw { first_vertex, vertex_count, first_instance, instance_count },
            ),
            *final(final(self).commands) == *final(old(self).commands),
            *final(final(self).plain_data) == *final(old(self).plain_data),
    {
        self.commands.push(Command::Draw { first_vertex, vertex_count, first_instance, instance_count });
    }

    /// Records an indexed draw.
    pub fn draw_indexed(
        &mut self,
        index_buf: BufferPiece,
        index_type: IndexType,
        index_count: u32,
        base_vertex: i32,
        start_instance: u32,
        instance_count: u32,
    )
        ensures
            pipeline_records(
                *old(self),
                *final(self),
                Command::DrawIndexed {
                    index_buffer: part_of(index_buf),
                    index_format: index_type,
                    index_count,
                    base_vertex,
                    first_instance: start_instance,
                    instance_count,
                },
            ),
            *final(final(self).commands) == *final(old(self).commands),
            *final(final(self).plain_data) == *final(old(self).plain_data),
    {
        self.commands.push(
            Command::DrawIndexed {
                index_buffer: index_buf.into(),
                index_format: index_type,
                index_count,
                base_vertex,
                first_instance: start_instance,
                instance_count,
            },
        );
    }

    /// Records a draw whose arguments are read from a buffer.
    pub fn draw_indirect(&mut self, indirect_buf: BufferPiece)
        ensures
            pipeline_records(
                *old(self),
                *final(self),
                Command::DrawIndirect { indirect_buffer: part_of(indirect_buf) },
            ),
            *final(final(self).commands) == *final(old(self).commands),
            *final(final(self).plain_data) == *final(old(self).plain_data),
    {
        self.commands.push(Command::DrawIndirect { indirect_buffer: indirect_buf.into() });
    }

    /// Records an indexed draw whose arguments are read from a buffer.
    pub fn draw_indexed_indirect(&mut self, index_buf: BufferPiece, index_type: IndexType, indirect_buf: BufferPiece)
        ensures
            pipeline_records(
                *old(self),
                *final(self),
                Command::DrawIndexedIndirect {
                    index_buffer: part_of(index_buf),
                    index_format: index_type,
                    indirect_buffer: part_of(indirect_buf),
                },
            ),
            *final(final(self).commands) == *final(old(self).commands),
            *final(final(self).plain_data) == *final(old(self).plain_data),
    {
        self.commands.push(
            Command::DrawIndexedIndirect {
                index_buffer: index_buf.into(),
                index_format: index_type,
                indirect_buffer: indirect_buf.into(),
            },
        );
    }
}

} // verus!
