//! Replaying a recorded command list.
//!
//! The device replays commands in steps: top-level transfers one by one, and
//! each render or compute pass as a block that runs to its end command. Inside
//! a pass, bind group entries are accumulated per group and turned into bind
//! groups when a draw or dispatch needs them.

use vstd::prelude::*;
use crate::cache::{BindGroupCacheKey, PipelineKey, ResourceBinding};
use crate::command::{
    binding_of, BindGroupEntry, BufferPart, Command, Extent, FinishOp, IndexType, InitOp, ScissorRect, TextureColor,
    Viewport,
};
use crate::handles::{ComputePipelineKey, RenderPipelineKey};

verus! {

/// One unit of replay.
#[derive(Clone, Copy, Debug, PartialEq, Eq, Structural)]
pub enum Step {
    /// A top-level transfer command, by index.
    Transfer(usize),
    /// A render pass: `begin` indexes its begin command, `end` its end
    /// command (or the list length when it has none); the commands strictly
    /// between them are its body.
    RenderPass { begin: usize, end: usize },
    /// A compute pass, laid out as a render pass is.
    ComputePass { begin: usize, end: usize },
}

/// Top-level transfer commands, executed directly.
pub open spec fn is_transfer(c: Command) -> bool {
    ||| c is FillBuffer
    ||| c is CopyBufferToBuffer
    ||| c is CopyBufferToTexture
    ||| c is CopyTextureToBuffer
    ||| c is CopyTextureToTexture
}

/// The command that closes a pass of the given kind.
pub open spec fn is_end(c: Command, render: bool) -> bool {
    if render { c is EndRenderPass } else { c is EndComputePass }
}

/// Index of the first end command of the given kind at or after `j`, or the
/// length when there is none.
pub open spec fn first_end_from(cmds: Seq<Command>, j: int, render: bool) -> int
    decreases cmds.len() - j,
{
    if j >= cmds.len() || j < 0 {
        cmds.len() as int
    } else if is_end(cmds[j], render) {
        j
    } else {
        first_end_from(cmds, j + 1, render)
    }
}

/// The steps that replay `cmds` from index `i` on.
pub open spec fn plan_from(cmds: Seq<Command>, i: int) -> Seq<Step>
    decreases cmds.len() - i,
{
    if i >= cmds.len() || i < 0 {
        Seq::empty()
    } else if cmds[i] is BeginRenderPass {
        let e = first_end_from(cmds, i, true);
        let step = seq![Step::RenderPass { begin: i as usize, end: e as usize }];
        if i <= e < cmds.len() {
            step + plan_from(cmds, e + 1)
        } else {
            step
        }
    } else if cmds[i] is BeginComputePass {
        let e = first_end_from(cmds, i, false);
        let step = seq![Step::ComputePass { begin: i as usize, end: e as usize }];
        if i <= e < cmds.len() {
            step + plan_from(cmds, e + 1)
        } else {
            step
        }
    } else if is_transfer(cmds[i]) {
        seq![Step::Transfer(i as usize)] + plan_from(cmds, i + 1)
    } else {
        plan_from(cmds, i + 1)
    }
}

proof fn lemma_first_end_bounds(cmds: Seq<Command>, j: int, render: bool)
    requires
        0 <= j,
    ensures
        j <= first_end_from(cmds, j, render) <= cmds.len() || (j > cmds.len() && first_end_from(cmds, j, render) == cmds.len()),
        first_end_from(cmds, j, render) < cmds.len() ==> is_end(cmds[first_end_from(cmds, j, render)], render),
        forall|k: int| j <= k < first_end_from(cmds, j, render) ==> !is_end(#[trigger] cmds[k], render),
    decreases cmds.len() - j,
{
    if j < cmds.len() && !is_end(cmds[j], render) {
        lemma_first_end_bounds(cmds, j + 1, render);
    }
}

/// First command index a step replays.
pub open spec fn step_first(s: Step) -> int {
    match s {
        Step::Transfer(t) => t as int,
        Step::RenderPass { begin, .. } => begin as int,
        Step::ComputePass { begin, .. } => begin as int,
    }
}

/// Last command index a step covers: the transfer itself, or the pass's end
/// command (the list length when the pass has none).
pub open spec fn step_last(s: Step) -> int {
    match s {
        Step::Transfer(t) => t as int,
        Step::RenderPass { end, .. } => end as int,
        Step::ComputePass { end, .. } => end as int,
    }
}

/// What a step starts at: a transfer command, or the begin command of its
/// kind of pass.
pub open spec fn starts_right(cmds: Seq<Command>, s: Step) -> bool {
    match s {
        Step::Transfer(t) => is_transfer(cmds[t as int]),
        Step::RenderPass { begin, .. } => cmds[begin as int] is BeginRenderPass,
        Step::ComputePass { begin, .. } => cmds[begin as int] is BeginComputePass,
    }
}

/// Replay moves forward through the list and replays no command twice: each
/// step lies within the list and starts at a transfer or at the begin command
/// of its kind of pass, and each step starts after the previous one ends.
pub proof fn lemma_plan_moves_forward(cmds: Seq<Command>, i: int)
    requires
        0 <= i,
        cmds.len() <= usize::MAX,
    ensures
        forall|k: int| 0 <= k < plan_from(cmds, i).len() ==> {
            let s = #[trigger] plan_from(cmds, i)[k];
            &&& i <= step_first(s) <= step_last(s) <= cmds.len()
            &&& step_first(s) < cmds.len()
            &&& starts_right(cmds, s)
        },
        forall|k: int|
            0 <= k < plan_from(cmds, i).len() - 1 ==> step_last(#[trigger] plan_from(cmds, i)[k]) < step_first(
                plan_from(cmds, i)[k + 1],
            ),
    decreases cmds.len() - i,
{
    if i >= cmds.len() {
        return;
    }
    let p = plan_from(cmds, i);
    if cmds[i] is BeginRenderPass || cmds[i] is BeginComputePass {
        let render = cmds[i] is BeginRenderPass;
        lemma_first_end_bounds(cmds, i, render);
        let e = first_end_from(cmds, i, render);
        let step = if render {
            Step::RenderPass { begin: i as usize, end: e as usize }
        } else {
            Step::ComputePass { begin: i as usize, end: e as usize }
        };
        assert(step_first(step) == i && step_last(step) == e);
        if e < cmds.len() {
            lemma_plan_moves_forward(cmds, e + 1);
            let tail = plan_from(cmds, e + 1);
            assert(p == seq![step] + tail);
            assert forall|k: int| 0 < k < p.len() implies #[trigger] p[k] == tail[k - 1] by {}
            if tail.len() > 0 {
                assert(p[1] == tail[0]);
            }
        } else {
            assert(p == seq![step]);
        }
    } else if is_transfer(cmds[i]) {
        lemma_plan_moves_forward(cmds, i + 1);
        let tail = plan_from(cmds, i + 1);
        assert(p == seq![Step::Transfer(i as usize)] + tail);
        assert forall|k: int| 0 < k < p.len() implies #[trigger] p[k] == tail[k - 1] by {}
        if tail.len() > 0 {
            assert(p[1] == tail[0]);
        }
    } else {
        lemma_plan_moves_forward(cmds, i + 1);
    }
}

fn is_end_command(c: &Command, render: bool) -> (b: bool)
    ensures
        b == is_end(*c, render),
{
    if render {
        matches!(c, Command::EndRenderPass)
    } else {
        matches!(c, Command::EndComputePass)
    }
}

/// Index of the first end command of the given kind at or after `from`, or
/// the length of the list.
fn find_pass_end(commands: &Vec<Command>, from: usize, render: bool) -> (e: usize)
    requires
        from <= commands@.len(),
    ensures
        e == first_end_from(commands@, from as int, render),
        from <= e <= commands@.len(),
{
    let mut j = from;
    while j < commands.len()
        invariant
            from <= j <= commands@.len(),
            first_end_from(commands@, from as int, render) == first_end_from(commands@, j as int, render),
        decreases commands@.len() - j,
    {
        if is_end_command(&commands[j], render) {
            return j;
        }
        j = j + 1;
    }
    j
}

/// Splits a command list into replay steps: each transfer command is a step,
/// each render or compute pass runs from its begin command to the first end
/// command of its kind (or to the end of the list), and commands met outside
/// any pass that belong inside one are skipped.
pub fn plan_commands(commands: &Vec<Command>) -> (steps: Vec<Step>)
    ensures
        steps@ == plan_from(commands@, 0),
{
    let mut steps: Vec<Step> = Vec::new();
    let n = commands.len();
    let mut i: usize = 0;
    while i < n
        invariant
            0 <= i <= n,
            n == commands@.len(),
            steps@ + plan_from(commands@, i as int) == plan_from(commands@, 0),
        decreases n - i,
    {
        let ghost before = steps@;
        match &commands[i] {
            Command::BeginRenderPass { .. } => {
                let e = find_pass_end(commands, i, true);
                steps.push(Step::RenderPass { begin: i, end: e });
                proof {
                    assert(steps@ + plan_from(commands@, e + 1) =~= before + plan_from(commands@, i as int));
                }
                if e >= n {
                    proof {
                        assert(plan_from(commands@, e + 1) == Seq::<Step>::empty());
                        assert(steps@ =~= steps@ + plan_from(commands@, e + 1));
                    }
                    return steps;
                }
                i = e + 1;
            },
            Command::BeginComputePass => {
                let e = find_pass_end(commands, i, false);
                steps.push(Step::ComputePass { begin: i, end: e });
                proof {
                    assert(steps@ + plan_from(commands@, e + 1) =~= before + plan_from(commands@, i as int));
                }
                if e >= n {
                    proof {
                        assert(plan_from(commands@, e + 1) == Seq::<Step>::empty());
                        assert(steps@ =~= steps@ + plan_from(commands@, e + 1));
                    }
                    return steps;
                }
                i = e + 1;
            },
            Command::FillBuffer { .. } | Command::CopyBufferToBuffer { .. } | Command::CopyBufferToTexture {
                ..
            } | Command::CopyTextureToBuffer { .. } | Command::CopyTextureToTexture { .. } => {
                steps.push(Step::Transfer(i));
                proof {
                    assert(steps@ + plan_from(commands@, i + 1) =~= before + plan_from(commands@, i as int));
                }
                i = i + 1;
            },
            _ => {
                i = i + 1;
            },
        }
    }
    proof {
        assert(steps@ =~= steps@ + plan_from(commands@, i as int));
    }
    steps
}

/// Row pitch given to a buffer/texture copy: none for a copy of a single row
/// (one row, one layer); otherwise the pitch rounded up to the 256-byte
/// multiple that WebGPU requires.
pub fn copy_bytes_per_row(bytes_per_row: u32, size: Extent) -> (r: Option<u32>)
    requires
        bytes_per_row + 255 <= u32::MAX,
    ensures
        (size.height <= 1 && size.depth <= 1) ==> r is None,
        !(size.height <= 1 && size.depth <= 1) ==> r == Some(((bytes_per_row + 255) as u32 & !255u32)),
        r matches Some(v) ==> v % 256 == 0 && bytes_per_row <= v < bytes_per_row + 256,
{
    if size.height <= 1 && size.depth <= 1 {
        None
    } else {
        let v = (bytes_per_row + 255) & !255u32;
        assert(v % 256 == 0 && bytes_per_row <= v < bytes_per_row + 256) by (bit_vector)
            requires
                v == (bytes_per_row + 255) as u32 & !255u32,
                bytes_per_row + 255 <= u32::MAX;
        Some(v)
    }
}

/// How a buffer fill is carried out.
#[derive(Debug)]
pub enum FillAction {
    /// Zero-filling clears the range on the GPU.
    Clear { size: u64 },
    /// Any other value is uploaded as bytes.
    Write(Vec<u8>),
}

/// `n` copies of `value`.
pub open spec fn fill_bytes(n: nat, value: u8) -> Seq<u8> {
    Seq::new(n, |i: int| value)
}

/// Zero fills clear the range; other values upload `size` copies of the value.
pub fn fill_action(size: u64, value: u8) -> (a: FillAction)
    requires
        value != 0 ==> size <= usize::MAX,
    ensures
        value == 0 ==> (a == FillAction::Clear { size }),
        value != 0 ==> (a matches FillAction::Write(bytes) && bytes@ == fill_bytes(size as nat, value)),
{
    if value == 0 {
        FillAction::Clear { size }
    } else {
        let n = size as usize;
        let mut bytes: Vec<u8> = Vec::new();
        let mut i: usize = 0;
        while i < n
            invariant
                0 <= i <= n,
                n == size,
                bytes@ == Seq::new(i as nat, |k: int| value),
            decreases n - i,
        {
            bytes.push(value);
            i = i + 1;
            proof {
                assert(bytes@ =~= Seq::new(i as nat, |k: int| value));
            }
        }
        FillAction::Write(bytes)
    }
}

/// Scissor origin as the device takes it: negative coordinates clamp to 0.
pub fn scissor_origin(rect: &ScissorRect) -> (r: (u32, u32))
    ensures
        r.0 == (if rect.x < 0 { 0 } else { rect.x as int }),
        r.1 == (if rect.y < 0 { 0 } else { rect.y as int }),
{
    let x = if rect.x < 0 { 0u32 } else { rect.x as u32 };
    let y = if rect.y < 0 { 0u32 } else { rect.y as u32 };
    (x, y)
}

/// What a color attachment does when its pass begins.
#[derive(Clone, Copy, Debug, PartialEq, Eq, Structural)]
pub enum LoadAction {
    Load,
    Clear(TextureColor),
}

/// What a depth or stencil attachment does when its pass begins: keep its
/// contents, or clear them (depth to the far plane 1.0, stencil to 0).
#[derive(Clone, Copy, Debug, PartialEq, Eq, Structural)]
pub enum AttachmentLoad {
    Load,
    Clear,
}

/// What an attachment does with its contents when its pass ends.
#[derive(Clone, Copy, Debug, PartialEq, Eq, Structural)]
pub enum StoreAction {
    Store,
    Discard,
}

/// Color load operation: `DontCare` clears to opaque black.
pub fn map_load_op(op: &InitOp) -> (a: LoadAction)
    ensures
        *op == InitOp::Load ==> a == LoadAction::Load,
        *op matches InitOp::Clear(c) ==> a == LoadAction::Clear(c),
        *op == InitOp::DontCare ==> a == LoadAction::Clear(TextureColor::OpaqueBlack),
{
    match op {
        InitOp::Load => LoadAction::Load,
        InitOp::Clear(color) => LoadAction::Clear(*color),
        InitOp::DontCare => LoadAction::Clear(TextureColor::OpaqueBlack),
    }
}

/// Depth load operation: anything but `Load` clears.
pub fn map_depth_load_op(op: &InitOp) -> (a: AttachmentLoad)
    ensures
        (a == AttachmentLoad::Load) == (*op == InitOp::Load),
{
    match op {
        InitOp::Load => AttachmentLoad::Load,
        InitOp::Clear(_) => AttachmentLoad::Clear,
        InitOp::DontCare => AttachmentLoad::Clear,
    }
}

/// Stencil load operation: anything but `Load` clears.
pub fn map_stencil_load_op(op: &InitOp) -> (a: AttachmentLoad)
    ensures
        (a == AttachmentLoad::Load) == (*op == InitOp::Load),
{
    match op {
        InitOp::Load => AttachmentLoad::Load,
        InitOp::Clear(_) => AttachmentLoad::Clear,
        InitOp::DontCare => AttachmentLoad::Clear,
    }
}

/// Store operation: `Store` and `ResolveTo` keep the contents (the resolve
/// happens through the resolve target), `Discard` and `Ignore` drop them.
pub fn map_store_op(op: &FinishOp) -> (a: StoreAction)
    ensures
        (a == StoreAction::Store) == (op is Store || op is ResolveTo),
{
    match op {
        FinishOp::Store => StoreAction::Store,
        FinishOp::Discard => StoreAction::Discard,
        FinishOp::ResolveTo(_) => StoreAction::Store,
        FinishOp::Ignore => StoreAction::Discard,
    }
}

/// Cache-key binding for a recorded entry.
pub open spec fn binding_for(e: BindGroupEntry) -> ResourceBinding {
    match e {
        BindGroupEntry::Buffer { binding, buffer_key, offset, size } =>
            ResourceBinding::Buffer { binding, key: buffer_key, offset, size },
        BindGroupEntry::Texture { binding, view_key } => ResourceBinding::TextureView { binding, key: view_key },
        BindGroupEntry::Sampler { binding, sampler_key } => ResourceBinding::Sampler { binding, key: sampler_key },
        BindGroupEntry::PlainData { binding, offset, size } => ResourceBinding::PlainData { binding, offset, size },
    }
}

/// A later entry of `s` targets the same binding as `s[i]`.
pub open spec fn overridden(s: Seq<BindGroupEntry>, i: int) -> bool {
    exists|j: int| i < j < s.len() && binding_of(#[trigger] s[j]) == binding_of(s[i])
}

/// The entries of `s` that no later entry overrides, in order: for each
/// binding, the last entry recorded for it.
pub open spec fn keep_last(s: Seq<BindGroupEntry>) -> Seq<BindGroupEntry>
    decreases s.len(),
{
    if s.len() == 0 {
        Seq::empty()
    } else if overridden(s, 0) {
        keep_last(s.drop_first())
    } else {
        seq![s[0]] + keep_last(s.drop_first())
    }
}

proof fn lemma_overridden_shift(s: Seq<BindGroupEntry>, i: int)
    requires
        s.len() > 0,
        0 <= i < s.len() - 1,
    ensures
        overridden(s.drop_first(), i) == overridden(s, i + 1),
{
    let t = s.drop_first();
    if overridden(t, i) {
        let j = choose|j: int| i < j < t.len() && binding_of(#[trigger] t[j]) == binding_of(t[i]);
        assert(s[j + 1] == t[j]);
    }
    if overridden(s, i + 1) {
        let j = choose|j: int| i + 1 < j < s.len() && binding_of(#[trigger] s[j]) == binding_of(s[i + 1]);
        assert(t[j - 1] == s[j]);
    }
}

proof fn lemma_keep_last_kept(s: Seq<BindGroupEntry>, k: int)
    requires
        0 <= k < keep_last(s).len(),
    ensures
        exists|i: int| 0 <= i < s.len() && s[i] == keep_last(s)[k] && !overridden(s, i),
    decreases s.len(),
{
    let t = s.drop_first();
    let r = keep_last(s);
    if !overridden(s, 0) && k == 0 {
        assert(s[0] == r[0]);
    } else {
        let kt = if overridden(s, 0) { k } else { k - 1 };
        assert(r[kt + (if overridden(s, 0) { 0int } else { 1int })] == keep_last(t)[kt]);
        lemma_keep_last_kept(t, kt);
        let i = choose|i: int| 0 <= i < t.len() && t[i] == keep_last(t)[kt] && !overridden(t, i);
        lemma_overridden_shift(s, i);
        assert(s[i + 1] == t[i]);
    }
}

proof fn lemma_keep_last_covers(s: Seq<BindGroupEntry>, i: int)
    requires
        0 <= i < s.len(),
    ensures
        exists|k: int| 0 <= k < keep_last(s).len() && binding_of(keep_last(s)[k]) == binding_of(s[i]),
    decreases s.len(),
{
    let t = s.drop_first();
    let r = keep_last(s);
    let off: int = if overridden(s, 0) { 0 } else { 1 };
    if i == 0 && !overridden(s, 0) {
        assert(r[0] == s[0]);
    } else {
        let ti = if i == 0 {
            choose|j: int| 0 < j < s.len() && binding_of(#[trigger] s[j]) == binding_of(s[0])
        } else {
            i
        } - 1;
        assert(t[ti] == s[ti + 1]);
        lemma_keep_last_covers(t, ti);
        let k = choose|k: int| 0 <= k < keep_last(t).len() && binding_of(keep_last(t)[k]) == binding_of(t[ti]);
        assert(r[k + off] == keep_last(t)[k]);
    }
}

proof fn lemma_keep_last_distinct(s: Seq<BindGroupEntry>, a: int, b: int)
    requires
        0 <= a < b < keep_last(s).len(),
    ensures
        binding_of(keep_last(s)[a]) != binding_of(keep_last(s)[b]),
    decreases s.len(),
{
    let t = s.drop_first();
    let r = keep_last(s);
    let rt = keep_last(t);
    if overridden(s, 0) {
        assert(r[a] == rt[a] && r[b] == rt[b]);
        lemma_keep_last_distinct(t, a, b);
    } else if a == 0 {
        assert(r[b] == rt[b - 1]);
        lemma_keep_last_kept(t, b - 1);
        let i = choose|i: int| 0 <= i < t.len() && t[i] == rt[b - 1] && !overridden(t, i);
        assert(s[i + 1] == t[i]);
        if binding_of(r[0]) == binding_of(r[b]) {
            assert(r[0] == s[0]);
            assert(binding_of(s[i + 1]) == binding_of(s[0]));
            assert(overridden(s, 0));
        }
    } else {
        assert(r[a] == rt[a - 1] && r[b] == rt[b - 1]);
        lemma_keep_last_distinct(t, a - 1, b - 1);
    }
}

/// After de-duplication each binding slot is bound once, every slot that
/// was recorded is still bound, and each entry kept is the last one
/// recorded for its slot.
pub proof fn lemma_keep_last_binds_each_slot_once(s: Seq<BindGroupEntry>)
    ensures
        forall|a: int, b: int| 0 <= a < b < keep_last(s).len() ==> binding_of(#[trigger] keep_last(s)[a])
            != binding_of(#[trigger] keep_last(s)[b]),
        forall|i: int| #![trigger s[i]] 0 <= i < s.len() ==> exists|k: int|
            0 <= k < keep_last(s).len() && binding_of(#[trigger] keep_last(s)[k]) == binding_of(s[i]),
        forall|k: int| #![trigger keep_last(s)[k]] 0 <= k < keep_last(s).len() ==> exists|i: int|
            0 <= i < s.len() && s[i] == keep_last(s)[k] && !overridden(s, i),
{
    assert forall|i: int| #![trigger s[i]] 0 <= i < s.len() implies exists|k: int|
        0 <= k < keep_last(s).len() && binding_of(#[trigger] keep_last(s)[k]) == binding_of(s[i]) by {
        lemma_keep_last_covers(s, i);
    }
    assert forall|k: int| #![trigger keep_last(s)[k]] 0 <= k < keep_last(s).len() implies exists|i: int|
        0 <= i < s.len() && s[i] == keep_last(s)[k] && !overridden(s, i) by {
        lemma_keep_last_kept(s, k);
    }
    assert forall|a: int, b: int| 0 <= a < b < keep_last(s).len() implies binding_of(#[trigger] keep_last(s)[a])
        != binding_of(#[trigger] keep_last(s)[b]) by {
        lemma_keep_last_distinct(s, a, b);
    }
}

/// Some entry of `s` is plain uniform data.
pub open spec fn has_plain(s: Seq<BindGroupEntry>) -> bool {
    exists|i: int| 0 <= i < s.len() && (#[trigger] s[i]) is PlainData
}

/// Entries accumulated for one bind group.
#[derive(Debug)]
pub struct PendingGroup {
    pub group_index: u32,
    pub entries: Vec<BindGroupEntry>,
}

/// A bind group to create and set before a draw or dispatch.
#[derive(Debug)]
pub struct FlushStep {
    pub group_index: u32,
    /// The group's entries, one per binding (the last recorded).
    pub entries: Vec<BindGroupEntry>,
    /// Key under which the group is cached; none when the group holds plain
    /// uniform data, which lives in a per-submit buffer and is never cached.
    pub cache_key: Option<BindGroupCacheKey>,
}

/// The flush steps for pending groups `p` under a pipeline with `layouts`
/// bind group layouts: groups beyond the layouts are skipped.
pub open spec fn flush_spec(p: Seq<(u32, Seq<BindGroupEntry>)>, layouts: int) -> Seq<(u32, Seq<BindGroupEntry>)>
    decreases p.len(),
{
    if p.len() == 0 {
        Seq::empty()
    } else if p[0].0 < layouts {
        seq![(p[0].0, keep_last(p[0].1))] + flush_spec(p.drop_first(), layouts)
    } else {
        flush_spec(p.drop_first(), layouts)
    }
}

/// Views of flush steps: group index and entries.
pub open spec fn steps_view(steps: Seq<FlushStep>) -> Seq<(u32, Seq<BindGroupEntry>)> {
    steps.map_values(|s: FlushStep| (s.group_index, s.entries@))
}

/// Each step's cache key is present exactly when its entries hold no plain
/// data, and then names the pipeline, group and the entries' bindings.
pub open spec fn keys_fit(steps: Seq<FlushStep>, pipeline: PipelineKey) -> bool {
    forall|i: int| 0 <= i < steps.len() ==> {
        let s = #[trigger] steps[i];
        &&& (s.cache_key is Some) == !has_plain(s.entries@)
        &&& s.cache_key matches Some(k) ==> k@ == (
            pipeline,
            s.group_index,
            s.entries@.map_values(|e: BindGroupEntry| binding_for(e)),
        )
    }
}

/// Pending groups `p` after recording `e` for group `g`: appended to the
/// group's entries when it is pending, else a new group at the end.
pub open spec fn record_into(p: Seq<(u32, Seq<BindGroupEntry>)>, g: u32, e: Seq<BindGroupEntry>) -> Seq<
    (u32, Seq<BindGroupEntry>),
> {
    if exists|i: int| 0 <= i < p.len() && (#[trigger] p[i]).0 == g {
        let i = choose|i: int| 0 <= i < p.len() && (#[trigger] p[i]).0 == g;
        p.update(i, (g, p[i].1 + e))
    } else {
        p.push((g, e))
    }
}

/// Recording never loses what is pending. When group `g` is pending, its
/// entries become its earlier entries followed by the recorded ones, in
/// order, and every other group stays as it was; when it is not pending, it
/// is added last with the recorded entries.
pub proof fn lemma_record_keeps_pending(p: Seq<(u32, Seq<BindGroupEntry>)>, g: u32, e: Seq<BindGroupEntry>)
    requires
        forall|a: int, b: int| 0 <= a < b < p.len() ==> #[trigger] p[a].0 != #[trigger] p[b].0,
    ensures
        ({
            let r = record_into(p, g, e);
            &&& forall|i: int| 0 <= i < p.len() && (#[trigger] p[i]).0 != g ==> r[i] == p[i]
            &&& forall|i: int|
                0 <= i < p.len() && (#[trigger] p[i]).0 == g ==> {
                    &&& r.len() == p.len()
                    &&& r[i].0 == g
                    &&& r[i].1.len() == p[i].1.len() + e.len()
                    &&& forall|k: int| 0 <= k < p[i].1.len() ==> r[i].1[k] == p[i].1[k]
                    &&& forall|k: int| 0 <= k < e.len() ==> r[i].1[p[i].1.len() + k] == e[k]
                }
            &&& (forall|i: int| 0 <= i < p.len() ==> (#[trigger] p[i]).0 != g) ==> {
                &&& r.len() == p.len() + 1
                &&& r[p.len() as int] == (g, e)
                &&& forall|i: int| 0 <= i < p.len() ==> r[i] == p[i]
            }
        }),
{
    if exists|i: int| 0 <= i < p.len() && (#[trigger] p[i]).0 == g {
        let j = choose|i: int| 0 <= i < p.len() && (#[trigger] p[i]).0 == g;
        assert forall|i: int| 0 <= i < p.len() && (#[trigger] p[i]).0 == g implies i == j by {
            if i < j {
                assert(p[i].0 != p[j].0);
            } else if j < i {
                assert(p[j].0 != p[i].0);
            }
        }
    }
}

/// The cache-key binding of a recorded entry keeps all of the entry: two
/// entries get the same binding only when they are the same entry, and a
/// buffer entry's binding carries its slot, buffer, offset and size.
pub proof fn lemma_cache_binding_keeps_entry(e1: BindGroupEntry, e2: BindGroupEntry)
    ensures
        binding_for(e1) == binding_for(e2) ==> e1 == e2,
        e1 matches BindGroupEntry::Buffer { binding, buffer_key, offset, size } ==> (binding_for(e1)
            matches ResourceBinding::Buffer { binding: b, key, offset: o, size: s } && b == binding && key
            == buffer_key && o == offset && s == size),
{
}

/// The flush steps a draw or dispatch gets under `pipeline` (the current
/// pipeline, if any) whose layout has `layout_count` groups: those of
/// `flush_spec` with fitting cache keys, or none without both.
pub open spec fn flushed(
    pending: Seq<(u32, Seq<BindGroupEntry>)>,
    pipeline: Option<PipelineKey>,
    layout_count: Option<usize>,
    steps: Seq<FlushStep>,
) -> bool {
    match (pipeline, layout_count) {
        (Some(k), Some(lc)) => steps_view(steps) == flush_spec(pending, lc as int) && keys_fit(steps, k),
        _ => steps.len() == 0,
    }
}

/// What a render pass does on the device for one recorded command.
#[derive(Debug)]
pub enum RenderAction {
    /// Nothing on the device (the command only changes the replay state, or
    /// does not belong in a render pass).
    Nothing,
    SetPipeline(RenderPipelineKey),
    SetViewport(Viewport),
    SetScissor { x: u32, y: u32, w: u32, h: u32 },
    SetStencilReference(u32),
    SetVertexBuffer { slot: u32, buffer: BufferPart },
    /// Set the groups, then draw the vertex and instance ranges `[start, end)`.
    Draw { groups: Vec<FlushStep>, vertices: (u32, u32), instances: (u32, u32) },
    /// Set the groups, then, when the index buffer exists, bind it and draw
    /// the index range.
    DrawIndexed {
        groups: Vec<FlushStep>,
        index_buffer: BufferPart,
        index_format: IndexType,
        indices: (u32, u32),
        base_vertex: i32,
        instances: (u32, u32),
    },
    /// Set the groups, then draw with arguments from the buffer, when it exists.
    DrawIndirect { groups: Vec<FlushStep>, indirect_buffer: BufferPart },
    /// Set the groups, then, when both buffers exist, draw indexed with
    /// arguments from the indirect buffer.
    DrawIndexedIndirect {
        groups: Vec<FlushStep>,
        index_buffer: BufferPart,
        index_format: IndexType,
        indirect_buffer: BufferPart,
    },
}

/// What a compute pass does on the device for one recorded command.
#[derive(Debug)]
pub enum ComputeAction {
    /// Nothing on the device.
    Nothing,
    SetPipeline(ComputePipelineKey),
    /// Set the groups, then dispatch the workgroup counts.
    Dispatch { groups: Vec<FlushStep>, counts: [u32; 3] },
    /// Set the groups, then dispatch with counts from the buffer, when it exists.
    DispatchIndirect { groups: Vec<FlushStep>, indirect_buffer: BufferPart },
}

/// The draw ranges of a command fit in `u32`.
pub open spec fn render_ranges_fit(cmd: Command) -> bool {
    match cmd {
        Command::Draw { first_vertex, vertex_count, first_instance, instance_count } =>
            first_vertex + vertex_count <= u32::MAX && first_instance + instance_count <= u32::MAX,
        Command::DrawIndexed { first_instance, instance_count, .. } => first_instance + instance_count <= u32::MAX,
        _ => true,
    }
}

/// Replay state of one pass.
pub struct ExecutionState {
    /// Current render pipeline, for bind group creation.
    pub render_pipeline_key: Option<RenderPipelineKey>,
    /// Current compute pipeline.
    pub compute_pipeline_key: Option<ComputePipelineKey>,
    /// Pending bind group entries per group index, groups in first-recorded order.
    pub pending_bind_groups: Vec<PendingGroup>,
}

impl ExecutionState {
    /// Pending groups as (group index, entries), without repeated indices.
    pub open spec fn pending(&self) -> Seq<(u32, Seq<BindGroupEntry>)> {
        self.pending_bind_groups@.map_values(|g: PendingGroup| (g.group_index, g.entries@))
    }

    /// Each group index appears once among the pending groups.
    pub open spec fn wf(&self) -> bool {
        forall|a: int, b: int|
            0 <= a < b < self.pending_bind_groups@.len() ==> #[trigger] self.pending_bind_groups@[a].group_index
                != #[trigger] self.pending_bind_groups@[b].group_index
    }

    /// A state with no pipeline and no pending groups.
    pub fn new() -> (s: Self)
        ensures
            s.wf(),
            s.render_pipeline_key is None,
            s.compute_pipeline_key is None,
            s.pending().len() == 0,
    {
        ExecutionState {
            render_pipeline_key: None,
            compute_pipeline_key: None,
            pending_bind_groups: Vec::new(),
        }
    }

    /// Starts a render pass: no pipeline, nothing pending.
    pub fn begin_render_pass(&mut self)
        ensures
            final(self).wf(),
            final(self).render_pipeline_key is None,
            final(self).compute_pipeline_key == old(self).compute_pipeline_key,
            final(self).pending().len() == 0,
    {
        self.pending_bind_groups.clear();
        self.render_pipeline_key = None;
    }

    /// Starts a compute pass: no pipeline, nothing pending.
    pub fn begin_compute_pass(&mut self)
        ensures
            final(self).wf(),
            final(self).compute_pipeline_key is None,
            final(self).render_pipeline_key == old(self).render_pipeline_key,
            final(self).pending().len() == 0,
    {
        self.pending_bind_groups.clear();
        self.compute_pipeline_key = None;
    }

    /// Convert a recorded entry to its cache-key binding.
    pub fn entry_to_binding(entry: &BindGroupEntry) -> (r: ResourceBinding)
        ensures
            r == binding_for(*entry),
    {
        match *entry {
            BindGroupEntry::Buffer { binding, buffer_key, offset, size } =>
                ResourceBinding::Buffer { binding, key: buffer_key, offset, size },
            BindGroupEntry::Texture { binding, view_key } => ResourceBinding::TextureView { binding, key: view_key },
            BindGroupEntry::Sampler { binding, sampler_key } =>
                ResourceBinding::Sampler { binding, key: sampler_key },
            BindGroupEntry::PlainData { binding, offset, size } =>
                ResourceBinding::PlainData { binding, offset, size },
        }
    }

    /// Appends `entries` to the pending entries of group `group_index`,
    /// opening the group when it has none.
    pub fn record_bind_group(&mut self, group_index: u32, entries: &Vec<BindGroupEntry>)
        requires
            old(self).wf(),
        ensures
            final(self).wf(),
            final(self).render_pipeline_key == old(self).render_pipeline_key,
            final(self).compute_pipeline_key == old(self).compute_pipeline_key,
            final(self).pending() == record_into(old(self).pending(), group_index, entries@),
    {
        let n = self.pending_bind_groups.len();
        let mut i: usize = 0;
        while i < n
            invariant
                0 <= i <= n,
                n == self.pending_bind_groups@.len(),
                *self == *old(self),
                old(self).wf(),
                forall|j: int| 0 <= j < i ==> self.pending_bind_groups@[j].group_index != group_index,
            decreases n - i,
        {
            if self.pending_bind_groups[i].group_index == group_index {
                let list = concat_entries(&self.pending_bind_groups[i].entries, entries);
                let ghost p = self.pending();
                self.pending_bind_groups.set(i, PendingGroup { group_index, entries: list });
                proof {
                    assert(p[i as int].0 == group_index);
                    let q = choose|q: int| 0 <= q < p.len() && (#[trigger] p[q]).0 == group_index;
                    assert(q == i) by {
                        if q != i {
                            if q < i {
                                assert(old(self).pending_bind_groups@[q].group_index != group_index);
                            } else {
                                assert(old(self).pending_bind_groups@[i as int].group_index
                                    != old(self).pending_bind_groups@[q].group_index);
                            }
                        }
                    }
                    assert(self.pending() =~= p.update(i as int, (group_index, p[i as int].1 + entries@)));
                    assert forall|a: int, b: int|
                        0 <= a < b < self.pending_bind_groups@.len() implies #[trigger] self.pending_bind_groups@[a].group_index
                            != #[trigger] self.pending_bind_groups@[b].group_index by {
                        assert(self.pending_bind_groups@[a].group_index == old(self).pending_bind_groups@[a].group_index);
                        assert(self.pending_bind_groups@[b].group_index == old(self).pending_bind_groups@[b].group_index);
                    }
                }
                return;
            }
            i = i + 1;
        }
        let list = concat_entries(&Vec::new(), entries);
        proof {
            assert(Seq::<BindGroupEntry>::empty() + entries@ =~= entries@);
        }
        let ghost p = self.pending();
        self.pending_bind_groups.push(PendingGroup { group_index, entries: list });
        proof {
            assert(!exists|q: int| 0 <= q < p.len() && (#[trigger] p[q]).0 == group_index) by {
                if exists|q: int| 0 <= q < p.len() && (#[trigger] p[q]).0 == group_index {
                    let q = choose|q: int| 0 <= q < p.len() && (#[trigger] p[q]).0 == group_index;
                    assert(old(self).pending_bind_groups@[q].group_index == group_index);
                }
            }
            assert(self.pending() =~= p.push((group_index, entries@)));
        }
    }

    /// Turns the pending groups into flush steps under `pipeline`, whose
    /// layout has `layout_count` groups, and clears them.
    fn flush_for(&mut self, pipeline: Option<PipelineKey>, layout_count: Option<usize>) -> (steps: Vec<FlushStep>)
        requires
            old(self).wf(),
        ensures
            final(self).wf(),
            final(self).pending().len() == 0,
            final(self).render_pipeline_key == old(self).render_pipeline_key,
            final(self).compute_pipeline_key == old(self).compute_pipeline_key,
            match (pipeline, layout_count) {
                (Some(pk), Some(lc)) => steps_view(steps@) == flush_spec(old(self).pending(), lc as int)
                    && keys_fit(steps@, pk),
                _ => steps@.len() == 0,
            },
    {
        let mut steps: Vec<FlushStep> = Vec::new();
        let (pk, lc) = match (pipeline, layout_count) {
            (Some(pk), Some(lc)) => (pk, lc),
            _ => {
                self.pending_bind_groups.clear();
                return steps;
            },
        };
        let ghost p = self.pending();
        let n = self.pending_bind_groups.len();
        let mut i: usize = 0;
        proof {
            assert(p.skip(0) =~= p);
        }
        while i < n
            invariant
                0 <= i <= n,
                n == self.pending_bind_groups@.len(),
                p == self.pending(),
                steps_view(steps@) + flush_spec(p.skip(i as int), lc as int) == flush_spec(p, lc as int),
                keys_fit(steps@, pk),
            decreases n - i,
        {
            let group = &self.pending_bind_groups[i];
            proof {
                assert(p.skip(i as int).drop_first() =~= p.skip(i + 1));
                assert(p.skip(i as int)[0] == p[i as int]);
            }
            if (group.group_index as usize) < lc {
                let deduped = dedup_by_binding(&group.entries);
                let cache_key = if has_plain_data(&deduped) {
                    None
                } else {
                    Some(BindGroupCacheKey::new(pk, group.group_index, bindings_of(&deduped)))
                };
                let ghost before = steps@;
                steps.push(FlushStep { group_index: group.group_index, entries: deduped, cache_key });
                proof {
                    assert(steps_view(steps@) =~= steps_view(before).push((p[i as int].0, keep_last(p[i as int].1))));
                    assert(steps_view(steps@) + flush_spec(p.skip(i + 1), lc as int) =~= steps_view(before)
                        + flush_spec(p.skip(i as int), lc as int));
                    assert forall|k: int| 0 <= k < steps@.len() implies {
                        let s = #[trigger] steps@[k];
                        &&& (s.cache_key is Some) == !has_plain(s.entries@)
                        &&& s.cache_key matches Some(key) ==> key@ == (
                            pk,
                            s.group_index,
                            s.entries@.map_values(|e: BindGroupEntry| binding_for(e)),
                        )
                    } by {
                        if k < before.len() {
                            assert(steps@[k] == before[k]);
                        }
                    }
                }
            }
            i = i + 1;
        }
        self.pending_bind_groups.clear();
        proof {
            assert(p.skip(n as int) =~= Seq::<(u32, Seq<BindGroupEntry>)>::empty());
            assert(steps_view(steps@) =~= steps_view(steps@) + flush_spec(p.skip(n as int), lc as int));
        }
        steps
    }

    /// Flush steps for a draw: the pending groups become bind groups under
    /// the current render pipeline, whose layout has `layout_count` groups
    /// (none when the pipeline is not registered). Without a pipeline, or
    /// with an unregistered one, nothing is flushed. Pending groups are
    /// cleared either way.
    pub fn flush_render_bind_groups(&mut self, layout_count: Option<usize>) -> (steps: Vec<FlushStep>)
        requires
            old(self).wf(),
        ensures
            final(self).wf(),
            final(self).pending().len() == 0,
            final(self).render_pipeline_key == old(self).render_pipeline_key,
            final(self).compute_pipeline_key == old(self).compute_pipeline_key,
            match (old(self).render_pipeline_key, layout_count) {
                (Some(k), Some(lc)) => steps_view(steps@) == flush_spec(old(self).pending(), lc as int)
                    && keys_fit(steps@, PipelineKey::Render(k)),
                _ => steps@.len() == 0,
            },
    {
        let pipeline = match self.render_pipeline_key {
            Some(k) => Some(PipelineKey::Render(k)),
            None => None,
        };
        self.flush_for(pipeline, layout_count)
    }

    /// Flush steps for a dispatch, under the current compute pipeline, as
    /// `flush_render_bind_groups` does for draws.
    pub fn flush_compute_bind_groups(&mut self, layout_count: Option<usize>) -> (steps: Vec<FlushStep>)
        requires
            old(self).wf(),
        ensures
            final(self).wf(),
            final(self).pending().len() == 0,
            final(self).render_pipeline_key == old(self).render_pipeline_key,
            final(self).compute_pipeline_key == old(self).compute_pipeline_key,
            match (old(self).compute_pipeline_key, layout_count) {
                (Some(k), Some(lc)) => steps_view(steps@) == flush_spec(old(self).pending(), lc as int)
                    && keys_fit(steps@, PipelineKey::Compute(k)),
                _ => steps@.len() == 0,
            },
    {
        let pipeline = match self.compute_pipeline_key {
            Some(k) => Some(PipelineKey::Compute(k)),
            None => None,
        };
        self.flush_for(pipeline, layout_count)
    }

    /// Replays one command of a render pass: updates the replay state and
    /// says what the device does. `layout_count` is the number of bind group
    /// layouts of the current render pipeline (none when it has none or is
    /// not registered).
    pub fn render_step(&mut self, cmd: &Command, layout_count: Option<usize>) -> (a: RenderAction)
        requires
            old(self).wf(),
            render_ranges_fit(*cmd),
        ensures
            final(self).wf(),
            final(self).compute_pipeline_key == old(self).compute_pipeline_key,
            match *cmd {
                Command::SetRenderPipeline { key } => {
                    &&& a == RenderAction::SetPipeline(key)
                    &&& final(self).render_pipeline_key == Some(key)
                    &&& final(self).pending() == old(self).pending()
                },
                Command::RecordBindGroup { group_index, entries } => {
                    &&& a == RenderAction::Nothing
                    &&& final(self).render_pipeline_key == old(self).render_pipeline_key
                    &&& final(self).pending() == record_into(old(self).pending(), group_index, entries@)
                },
                Command::Draw { first_vertex, vertex_count, first_instance, instance_count } => {
                    &&& a matches RenderAction::Draw { groups, vertices, instances }
                    &&& flushed(old(self).pending(), render_pipeline_of(*old(self)), layout_count, groups@)
                    &&& vertices == (first_vertex, (first_vertex + vertex_count) as u32)
                    &&& instances == (first_instance, (first_instance + instance_count) as u32)
                    &&& final(self).render_pipeline_key == old(self).render_pipeline_key
                    &&& final(self).pending().len() == 0
                },
                Command::DrawIndexed {
                    index_buffer,
                    index_format,
                    index_count,
                    base_vertex,
                    first_instance,
                    instance_count,
                } => {
                    &&& a matches RenderAction::DrawIndexed {
                        groups,
                        index_buffer: ib,
                        index_format: f,
                        indices,
                        base_vertex: bv,
                        instances,
                    }
                    &&& flushed(old(self).pending(), render_pipeline_of(*old(self)), layout_count, groups@)
                    &&& ib == index_buffer && f == index_format && bv == base_vertex
                    &&& indices == (0u32, index_count)
                    &&& instances == (first_instance, (first_instance + instance_count) as u32)
                    &&& final(self).render_pipeline_key == old(self).render_pipeline_key
                    &&& final(self).pending().len() == 0
                },
                Command::DrawIndirect { indirect_buffer } => {
                    &&& a matches RenderAction::DrawIndirect { groups, indirect_buffer: ib }
                    &&& flushed(old(self).pending(), render_pipeline_of(*old(self)), layout_count, groups@)
                    &&& ib == indirect_buffer
                    &&& final(self).render_pipeline_key == old(self).render_pipeline_key
                    &&& final(self).pending().len() == 0
                },
                Command::DrawIndexedIndirect { index_buffer, index_format, indirect_buffer } => {
                    &&& a matches RenderAction::DrawIndexedIndirect {
                        groups,
                        index_buffer: ib,
                        index_format: f,
                        indirect_buffer: db,
                    }
                    &&& flushed(old(self).pending(), render_pipeline_of(*old(self)), layout_count, groups@)
                    &&& ib == index_buffer && f == index_format && db == indirect_buffer
                    &&& final(self).render_pipeline_key == old(self).render_pipeline_key
                    &&& final(self).pending().len() == 0
                },
                _ => {
                    &&& a == match *cmd {
                        Command::SetViewport { viewport } => RenderAction::SetViewport(viewport),
                        Command::SetScissor { rect } => RenderAction::SetScissor {
                            x: if rect.x < 0 { 0u32 } else { rect.x as u32 },
                            y: if rect.y < 0 { 0u32 } else { rect.y as u32 },
                            w: rect.w,
                            h: rect.h,
                        },
                        Command::SetStencilReference { reference } => RenderAction::SetStencilReference(reference),
                        Command::SetVertexBuffer { slot, buffer } => RenderAction::SetVertexBuffer { slot, buffer },
                        _ => RenderAction::Nothing,
                    }
                    &&& final(self).render_pipeline_key == old(self).render_pipeline_key
                    &&& final(self).pending() == old(self).pending()
                },
            },
    {
        match cmd {
            Command::SetRenderPipeline { key } => {
                self.render_pipeline_key = Some(*key);
                RenderAction::SetPipeline(*key)
            },
            Command::SetViewport { viewport } => RenderAction::SetViewport(*viewport),
            Command::SetScissor { rect } => {
                let (x, y) = scissor_origin(rect);
                RenderAction::SetScissor { x, y, w: rect.w, h: rect.h }
            },
            Command::SetStencilReference { reference } => RenderAction::SetStencilReference(*reference),
            Command::SetVertexBuffer { slot, buffer } => RenderAction::SetVertexBuffer { slot: *slot, buffer: *buffer },
            Command::RecordBindGroup { group_index, entries } => {
                self.record_bind_group(*group_index, entries);
                RenderAction::Nothing
            },
            Command::Draw { first_vertex, vertex_count, first_instance, instance_count } => {
                let groups = self.flush_render_bind_groups(layout_count);
                RenderAction::Draw {
                    groups,
                    vertices: (*first_vertex, *first_vertex + *vertex_count),
                    instances: (*first_instance, *first_instance + *instance_count),
                }
            },
            Command::DrawIndexed {
                index_buffer,
                index_format,
                index_count,
                base_vertex,
                first_instance,
                instance_count,
            } => {
                let groups = self.flush_render_bind_groups(layout_count);
                RenderAction::DrawIndexed {
                    groups,
                    index_buffer: *index_buffer,
                    index_format: *index_format,
                    indices: (0, *index_count),
                    base_vertex: *base_vertex,
                    instances: (*first_instance, *first_instance + *instance_count),
                }
            },
            Command::DrawIndirect { indirect_buffer } => {
                let groups = self.flush_render_bind_groups(layout_count);
                RenderAction::DrawIndirect { groups, indirect_buffer: *indirect_buffer }
            },
            Command::DrawIndexedIndirect { index_buffer, index_format, indirect_buffer } => {
                let groups = self.flush_render_bind_groups(layout_count);
                RenderAction::DrawIndexedIndirect {
                    groups,
                    index_buffer: *index_buffer,
                    index_format: *index_format,
                    indirect_buffer: *indirect_buffer,
                }
            },
            _ => RenderAction::Nothing,
        }
    }

    /// Replays one command of a compute pass: updates the replay state and
    /// says what the device does. `layout_count` is the number of bind group
    /// layouts of the current compute pipeline.
    pub fn compute_step(&mut self, cmd: &Command, layout_count: Option<usize>) -> (a: ComputeAction)
        requires
            old(self).wf(),
        ensures
            final(self).wf(),
            final(self).render_pipeline_key == old(self).render_pipeline_key,
            match *cmd {
                Command::SetComputePipeline { key } => {
                    &&& a == ComputeAction::SetPipeline(key)
                    &&& final(self).compute_pipeline_key == Some(key)
                    &&& final(self).pending() == old(self).pending()
                },
                Command::RecordBindGroup { group_index, entries } => {
                    &&& a == ComputeAction::Nothing
                    &&& final(self).compute_pipeline_key == old(self).compute_pipeline_key
                    &&& final(self).pending() == record_into(old(self).pending(), group_index, entries@)
                },
                Command::Dispatch { groups: counts } => {
                    &&& a matches ComputeAction::Dispatch { groups, counts: c }
                    &&& flushed(old(self).pending(), compute_pipeline_of(*old(self)), layout_count, groups@)
                    &&& c == counts
                    &&& final(self).compute_pipeline_key == old(self).compute_pipeline_key
                    &&& final(self).pending().len() == 0
                },
                Command::DispatchIndirect { indirect_buffer } => {
                    &&& a matches ComputeAction::DispatchIndirect { groups, indirect_buffer: ib }
                    &&& flushed(old(self).pending(), compute_pipeline_of(*old(self)), layout_count, groups@)
                    &&& ib == indirect_buffer
                    &&& final(self).compute_pipeline_key == old(self).compute_pipeline_key
                    &&& final(self).pending().len() == 0
                },
                _ => {
                    &&& a == ComputeAction::Nothing
                    &&& final(self).compute_pipeline_key == old(self).compute_pipeline_key
                    &&& final(self).pending() == old(self).pending()
                },
            },
    {
        match cmd {
            Command::SetComputePipeline { key } => {
                self.compute_pipeline_key = Some(*key);
                ComputeAction::SetPipeline(*key)
            },
            Command::RecordBindGroup { group_index, entries } => {
                self.record_bind_group(*group_index, entries);
                ComputeAction::Nothing
            },
            Command::Dispatch { groups: counts } => {
                let groups = self.flush_compute_bind_groups(layout_count);
                ComputeAction::Dispatch { groups, counts: *counts }
            },
            Command::DispatchIndirect { indirect_buffer } => {
                let groups = self.flush_compute_bind_groups(layout_count);
                ComputeAction::DispatchIndirect { groups, indirect_buffer: *indirect_buffer }
            },
            _ => ComputeAction::Nothing,
        }
    }
}

/// The current render pipeline of a replay state, as a pipeline key.
pub open spec fn render_pipeline_of(s: ExecutionState) -> Option<PipelineKey> {
    match s.render_pipeline_key {
        Some(k) => Some(PipelineKey::Render(k)),
        None => None,
    }
}

/// The current compute pipeline of a replay state, as a pipeline key.
pub open spec fn compute_pipeline_of(s: ExecutionState) -> Option<PipelineKey> {
    match s.compute_pipeline_key {
        Some(k) => Some(PipelineKey::Compute(k)),
        None => None,
    }
}

/// Cache-key bindings of `entries`, in order.
fn bindings_of(entries: &Vec<BindGroupEntry>) -> (r: Vec<ResourceBinding>)
    ensures
        r@ == entries@.map_values(|e: BindGroupEntry| binding_for(e)),
{
    let mut r: Vec<ResourceBinding> = Vec::new();
    let mut k: usize = 0;
    while k < entries.len()
        invariant
            0 <= k <= entries@.len(),
            r@ == entries@.subrange(0, k as int).map_values(|e: BindGroupEntry| binding_for(e)),
        decreases entries@.len() - k,
    {
        r.push(ExecutionState::entry_to_binding(&entries[k]));
        k = k + 1;
        proof {
            assert(r@ =~= entries@.subrange(0, k as int).map_values(|e: BindGroupEntry| binding_for(e)));
        }
    }
    proof {
        assert(entries@.subrange(0, entries@.len() as int) =~= entries@);
    }
    r
}

/// The entries of `a` followed by those of `b`.
fn concat_entries(a: &Vec<BindGroupEntry>, b: &Vec<BindGroupEntry>) -> (r: Vec<BindGroupEntry>)
    ensures
        r@ == a@ + b@,
{
    let mut r: Vec<BindGroupEntry> = Vec::new();
    let mut k: usize = 0;
    while k < a.len()
        invariant
            0 <= k <= a@.len(),
            r@ == a@.subrange(0, k as int),
        decreases a@.len() - k,
    {
        r.push(a[k]);
        k = k + 1;
        proof {
            assert(r@ =~= a@.subrange(0, k as int));
        }
    }
    let mut m: usize = 0;
    while m < b.len()
        invariant
            0 <= m <= b@.len(),
            r@ == a@ + b@.subrange(0, m as int),
        decreases b@.len() - m,
    {
        r.push(b[m]);
        m = m + 1;
        proof {
            assert(r@ =~= a@ + b@.subrange(0, m as int));
        }
    }
    proof {
        assert(r@ =~= a@ + b@);
    }
    r
}

/// Keeps, for each binding index, only the last entry recorded for it, in
/// the order of those last entries.
pub fn dedup_by_binding(entries: &Vec<BindGroupEntry>) -> (r: Vec<BindGroupEntry>)
    ensures
        r@ == keep_last(entries@),
{
    let n = entries.len();
    let mut r: Vec<BindGroupEntry> = Vec::new();
    let mut i: usize = 0;
    proof {
        assert(entries@.subrange(0, n as int) =~= entries@);
        assert(r@ + keep_last(entries@.subrange(0, n as int)) =~= keep_last(entries@));
    }
    while i < n
        invariant
            0 <= i <= n,
            n == entries@.len(),
            r@ + keep_last(entries@.subrange(i as int, n as int)) == keep_last(entries@),
        decreases n - i,
    {
        let b = entries[i].binding_index();
        let mut later = false;
        let mut j = i + 1;
        while j < n
            invariant
                i < j <= n,
                n == entries@.len(),
                b == binding_of(entries@[i as int]),
                later == exists|k: int| i < k < j && binding_of(#[trigger] entries@[k]) == b,
            decreases n - j,
        {
            if entries[j].binding_index() == b {
                later = true;
            }
            j = j + 1;
        }
        let ghost suffix = entries@.subrange(i as int, n as int);
        proof {
            assert(suffix.drop_first() =~= entries@.subrange(i + 1, n as int));
            assert(later == overridden(suffix, 0)) by {
                if later {
                    let k = choose|k: int| i < k < n && binding_of(#[trigger] entries@[k]) == b;
                    assert(suffix[k - i] == entries@[k]);
                }
                if overridden(suffix, 0) {
                    let k = choose|k: int| 0 < k < suffix.len() && binding_of(#[trigger] suffix[k]) == binding_of(suffix[0]);
                    assert(suffix[k] == entries@[i + k]);
                }
            }
        }
        if !later {
            r.push(entries[i]);
            proof {
                assert(r@ + keep_last(entries@.subrange(i + 1, n as int)) =~= r@.drop_last() + keep_last(suffix));
            }
        }
        i = i + 1;
    }
    proof {
        assert(entries@.subrange(n as int, n as int) =~= Seq::<BindGroupEntry>::empty());
        assert(r@ =~= r@ + keep_last(entries@.subrange(n as int, n as int)));
    }
    r
}

/// Whether any entry is plain uniform data.
pub fn has_plain_data(entries: &Vec<BindGroupEntry>) -> (b: bool)
    ensures
        b == has_plain(entries@),
{
    let mut i: usize = 0;
    while i < entries.len()
        invariant
            0 <= i <= entries@.len(),
            forall|k: int| 0 <= k < i ==> !(#[trigger] entries@[k] is PlainData),
        decreases entries@.len() - i,
    {
        if matches!(entries[i], BindGroupEntry::PlainData { .. }) {
            return true;
        }
        i = i + 1;
    }
    false
}

} // verus!
