//! GPU pass timing: a ring of three query frames.
//!
//! Each frame holds two timestamp queries per timed pass (begin and end).
//! Frames are used in turn; when the ring advances, the frame recorded two
//! submits ago is read back and reset, so results arrive with a two-frame
//! delay.

use vstd::prelude::*;

verus! {

/// Maximum number of passes that can be timed per frame.
pub const MAX_TIMING_PASSES: u32 = 64;

/// Number of frames in the ring.
pub const TIMING_RING_SIZE: usize = 3;

/// One frame of the ring; `G` holds its query set and buffers.
pub struct TimingFrame<G> {
    pub gpu: G,
    /// Names of the passes timed in this frame, one per query pair.
    pub pass_names: Vec<String>,
    /// Number of passes timed in this frame.
    pub pass_count: u32,
}

impl<G> TimingFrame<G> {
    /// A frame with no timed pass.
    pub fn new(gpu: G) -> (f: Self)
        ensures
            f.gpu == gpu,
            f.pass_names@.len() == 0,
            f.pass_count == 0,
    {
        TimingFrame { gpu, pass_names: Vec::new(), pass_count: 0 }
    }

    /// Forgets the passes timed in this frame.
    pub fn reset(&mut self)
        ensures
            final(self).gpu == old(self).gpu,
            final(self).pass_names@.len() == 0,
            final(self).pass_count == 0,
    {
        self.pass_names.clear();
        self.pass_count = 0;
    }
}

/// Views of pass names.
pub open spec fn names_view(names: Seq<String>) -> Seq<Seq<char>> {
    names.map_values(|s: String| s@)
}

/// GPU timing query pool.
pub struct TimingQueryPool<G> {
    /// Ring of frames, absent until timing is initialised.
    pub frames: Option<Vec<TimingFrame<G>>>,
    /// Current frame index in the ring.
    pub current_frame: usize,
    /// Durations in nanoseconds of the passes of the latest frame read back.
    pub results: Vec<(String, u64)>,
}

impl<G> TimingQueryPool<G> {
    /// Frames count their passes, at most the maximum, one name per pass.
    pub open spec fn wf(&self) -> bool {
        &&& self.current_frame < TIMING_RING_SIZE
        &&& self.frames matches Some(f) ==> {
            &&& f@.len() == TIMING_RING_SIZE
            &&& forall|i: int| 0 <= i < f@.len() ==> {
                &&& (#[trigger] f@[i]).pass_count <= MAX_TIMING_PASSES
                &&& f@[i].pass_names@.len() == f@[i].pass_count
            }
        }
    }

    /// An uninitialised pool.
    pub fn new() -> (p: Self)
        ensures
            p.wf(),
            p.frames is None,
            p.current_frame == 0,
            p.results@.len() == 0,
    {
        TimingQueryPool { frames: None, current_frame: 0, results: Vec::new() }
    }

    /// Initialises the ring with frames made by `create`; does nothing when
    /// it is already initialised.
    pub fn init<F: Fn() -> G>(&mut self, create: F)
        requires
            old(self).wf(),
            create.requires(()),
        ensures
            final(self).wf(),
            final(self).current_frame == old(self).current_frame,
            final(self).results == old(self).results,
            old(self).frames is Some ==> final(self).frames == old(self).frames,
            old(self).frames is None ==> (final(self).frames matches Some(f) && forall|i: int| 0 <= i < 3 ==> {
                &&& (#[trigger] f@[i]).pass_count == 0
                &&& create.ensures((), f@[i].gpu)
            }),
    {
        if self.frames.is_some() {
            return;
        }
        let mut frames: Vec<TimingFrame<G>> = Vec::new();
        frames.push(TimingFrame::new(create()));
        frames.push(TimingFrame::new(create()));
        frames.push(TimingFrame::new(create()));
        self.frames = Some(frames);
    }

    /// Allocates a pass slot in the current frame and records its name.
    /// Returns the index of the pass's first query (twice the number of
    /// passes already timed in the frame) and the frame's GPU objects; none
    /// when timing is not initialised or the frame is full.
    pub fn begin_pass(&mut self, name: &str) -> (r: Option<(u32, &G)>)
        requires
            old(self).wf(),
        ensures
            final(self).wf(),
            final(self).current_frame == old(self).current_frame,
            final(self).results == old(self).results,
            old(self).frames is None ==> (r is None && final(self).frames is None),
            old(self).frames matches Some(f) ==> {
                let c = old(self).current_frame as int;
                let fr = f@[c];
                &&& final(self).frames matches Some(g)
                &&& g@.len() == 3
                &&& forall|i: int| 0 <= i < 3 && i != c ==> #[trigger] g@[i] == f@[i]
                &&& g@[c].gpu == fr.gpu
                &&& fr.pass_count >= MAX_TIMING_PASSES ==> (r is None && g@[c] == fr)
                &&& fr.pass_count < MAX_TIMING_PASSES ==> {
                    &&& r matches Some(q) && q.0 == fr.pass_count * 2 && *q.1 == fr.gpu
                    &&& g@[c].pass_count == fr.pass_count + 1
                    &&& names_view(g@[c].pass_names@) == names_view(fr.pass_names@).push(name@)
                }
            },
    {
        let current = self.current_frame;
        match &mut self.frames {
            None => None,
            Some(frames) => {
                let ghost old_frames = frames@;
                let mut frame = frames.remove(current);
                if frame.pass_count >= MAX_TIMING_PASSES {
                    frames.insert(current, frame);
                    proof {
                        assert(frames@ =~= old_frames);
                    }
                    return None;
                }
                let query_index = frame.pass_count * 2;
                let ghost before = frame.pass_names@;
                frame.pass_names.push(name.to_owned());
                frame.pass_count = frame.pass_count + 1;
                proof {
                    assert(names_view(frame.pass_names@) =~= names_view(before).push(name@));
                }
                frames.insert(current, frame);
                proof {
                    assert forall|i: int| 0 <= i < 3 && i != current implies #[trigger] frames@[i] == old_frames[i] by {}
                }
                Some((query_index, &frames[current].gpu))
            },
        }
    }

    /// Queries to resolve after recording: the current frame's query count
    /// (two per timed pass) and GPU objects; none when timing is not
    /// initialised or no pass was timed.
    pub fn resolve(&self) -> (r: Option<(u32, &G)>)
        requires
            self.wf(),
        ensures
            self.frames is None ==> r is None,
            self.frames matches Some(f) ==> {
                let fr = f@[self.current_frame as int];
                &&& fr.pass_count == 0 ==> r is None
                &&& fr.pass_count > 0 ==> (r matches Some(q) && q.0 == fr.pass_count * 2 && *q.1 == fr.gpu)
            },
    {
        match &self.frames {
            None => None,
            Some(frames) => {
                let frame = &frames[self.current_frame];
                if frame.pass_count == 0 {
                    None
                } else {
                    Some((frame.pass_count * 2, &frame.gpu))
                }
            },
        }
    }

    /// Advances the ring to the next frame and picks the frame to read back:
    /// the one after the new current frame, recorded two advances ago. When
    /// that frame timed no pass it is reset at once and none is returned;
    /// otherwise its index is returned, and `finish_readback` must follow.
    /// Does nothing when timing is not initialised.
    pub fn advance_frame(&mut self) -> (r: Option<usize>)
        requires
            old(self).wf(),
        ensures
            final(self).wf(),
            final(self).results == old(self).results,
            old(self).frames is None ==> (r is None && *final(self) == *old(self)),
            old(self).frames matches Some(f) ==> {
                let c = (old(self).current_frame + 1) % 3;
                let rb = (c + 1) % 3;
                &&& final(self).current_frame == c
                &&& final(self).frames matches Some(g)
                &&& g@.len() == 3
                &&& forall|i: int| 0 <= i < 3 && i != rb ==> #[trigger] g@[i] == f@[i]
                &&& g@[rb].gpu == f@[rb].gpu
                &&& f@[rb].pass_count == 0 ==> (r is None && g@[rb].pass_count == 0)
                &&& f@[rb].pass_count > 0 ==> (r == Some(rb as usize) && g@[rb] == f@[rb])
            },
    {
        match &mut self.frames {
            None => None,
            Some(frames) => {
                self.current_frame = (self.current_frame + 1) % TIMING_RING_SIZE;
                let readback_index = (self.current_frame + 1) % TIMING_RING_SIZE;
                if frames[readback_index].pass_count == 0 {
                    let ghost old_frames = frames@;
                    let mut frame = frames.remove(readback_index);
                    frame.reset();
                    frames.insert(readback_index, frame);
                    proof {
                        assert forall|i: int| 0 <= i < 3 && i != readback_index implies #[trigger] frames@[i] == old_frames[i] by {}
                    }
                    None
                } else {
                    Some(readback_index)
                }
            },
        }
    }

    /// Completes a readback of frame `index`: when the timestamps could be
    /// read, `durations` (nanoseconds per pass) become the results; the frame
    /// is reset either way.
    pub fn finish_readback(&mut self, index: usize, durations: Option<Vec<(String, u64)>>)
        requires
            old(self).wf(),
            index < 3,
        ensures
            final(self).wf(),
            final(self).current_frame == old(self).current_frame,
            durations matches Some(d) ==> final(self).results == d,
            durations is None ==> final(self).results == old(self).results,
            old(self).frames is None ==> final(self).frames is None,
            old(self).frames matches Some(f) ==> {
                &&& final(self).frames matches Some(g)
                &&& g@.len() == 3
                &&& forall|i: int| 0 <= i < 3 && i != index ==> #[trigger] g@[i] == f@[i]
                &&& g@[index as int].gpu == f@[index as int].gpu
                &&& g@[index as int].pass_count == 0
            },
    {
        if let Some(d) = durations {
            self.results = d;
        }
        match &mut self.frames {
            None => {},
            Some(frames) => {
                let ghost old_frames = frames@;
                let mut frame = frames.remove(index);
                frame.reset();
                frames.insert(index, frame);
                proof {
                    assert forall|i: int| 0 <= i < 3 && i != index implies #[trigger] frames@[i] == old_frames[i] by {}
                }
            },
        }
    }

    /// Timing results from the most recently read-back frame.
    pub fn results(&self) -> (r: &Vec<(String, u64)>)
        ensures
            *r == self.results,
    {
        &self.results
    }
}

/// Ticks elapsed in each timed pass: for pass `i`, the difference of
/// timestamps `2i + 1` and `2i`, paired with the pass's name, for every pass
/// whose end timestamp is present. The difference wraps if the end tick is
/// below the begin tick.
pub fn pass_tick_spans(pass_names: &Vec<String>, timestamps: &[u64]) -> (r: Vec<(String, u64)>)
    ensures
        r@.len() == (if timestamps@.len() / 2 < pass_names@.len() { (timestamps@.len() / 2) as int } else { pass_names@.len() as int }),
        forall|i: int| 0 <= i < r@.len() ==> {
            &&& (#[trigger] r@[i]).0@ == pass_names@[i]@
            &&& r@[i].1 == (timestamps@[2 * i + 1] - timestamps@[2 * i]) % 0x1_0000_0000_0000_0000
        },
{
    let mut r: Vec<(String, u64)> = Vec::new();
    let mut i: usize = 0;
    while i < pass_names.len()
        invariant
            0 <= i <= pass_names@.len(),
            r@.len() == (if timestamps@.len() / 2 < i { (timestamps@.len() / 2) as int } else { i as int }),
            forall|k: int| 0 <= k < r@.len() ==> {
                &&& (#[trigger] r@[k]).0@ == pass_names@[k]@
                &&& r@[k].1 == (timestamps@[2 * k + 1] - timestamps@[2 * k]) % 0x1_0000_0000_0000_0000
            },
        decreases pass_names@.len() - i,
    {
        if i < timestamps.len() / 2 {
            let begin_tick = timestamps[2 * i];
            let end_tick = timestamps[2 * i + 1];
            let span = end_tick.wrapping_sub(begin_tick);
            r.push((pass_names[i].clone(), span));
        }
        i = i + 1;
    }
    r
}

/// Results arrive two frames late: the frame that is current when passes
/// are timed is the one read back on the second advance after it.
pub proof fn lemma_readback_two_frames_later(current: usize)
    requires
        current < TIMING_RING_SIZE,
    ensures
        ({
            let first = (current + 1) % 3;
            let second = (first + 1) % 3;
            &&& (first + 1) % 3 != current
            &&& (second + 1) % 3 == current
        }),
{
}

} // verus!
