//! The frame-time window: the timings of the most recent frames, kept in a fixed number of
//! slots that are overwritten round-robin.
use std::time::Duration;
use vstd::prelude::*;

verus! {

/// How long each pass of one frame took.
#[derive(Clone, Copy, Debug)]
pub struct FrameDurations {
    pub cpu: Duration,
    pub gpu: Duration,
    pub shadow_map: Duration,
    pub color_pass: Duration,
    pub meshlet_pass: Duration,
    pub ui: Duration,
}

/// Number of frames the window keeps.
pub const VALUES_COUNT: usize = 25;

/// One frame's value in each series the window plots.
#[derive(Clone, Copy, Debug)]
pub struct FrameSamples<T> {
    pub cpu: T,
    pub gpu: T,
    pub shadow_map: T,
    pub color_pass: T,
    pub meshlet_pass: T,
    pub ui: T,
}

/// The same value in every series.
pub open spec fn uniform<T>(v: T) -> FrameSamples<T> {
    FrameSamples { cpu: v, gpu: v, shadow_map: v, color_pass: v, meshlet_pass: v, ui: v }
}

/// `VALUES_COUNT` slots of samples and the slot the next frame is written to.
pub struct FpsWindow<T> {
    slots: Vec<FrameSamples<T>>,
    current_offset: usize,
}

impl<T> FpsWindow<T> {
    /// Every slot exists and the offset names one of them.
    pub closed spec fn wf(self) -> bool {
        &&& self.slots@.len() == VALUES_COUNT
        &&& self.current_offset < VALUES_COUNT
    }

    /// What each slot holds.
    pub closed spec fn slots(self) -> Seq<FrameSamples<T>> {
        self.slots@
    }

    /// The slot the next frame is written to.
    pub closed spec fn offset(self) -> int {
        self.current_offset as int
    }
}

impl<T: Copy> FpsWindow<T> {
    /// A window whose every slot holds `fill`, writing next to the first slot.
    pub fn new(fill: T) -> (w: Self)
        ensures
            w.slots() == Seq::new(VALUES_COUNT as nat, |i: int| uniform(fill)),
            w.offset() == 0,
            w.wf(),
    {
        let mut slots: Vec<FrameSamples<T>> = Vec::new();
        let mut i: usize = 0;
        while i < VALUES_COUNT
            invariant
                i <= VALUES_COUNT,
                slots@ == Seq::new(i as nat, |k: int| uniform(fill)),
            decreases VALUES_COUNT - i,
        {
            slots.push(
                FrameSamples {
                    cpu: fill,
                    gpu: fill,
                    shadow_map: fill,
                    color_pass: fill,
                    meshlet_pass: fill,
                    ui: fill,
                },
            );
            i = i + 1;
            assert(slots@ =~= Seq::new(i as nat, |k: int| uniform(fill)));
        }
        FpsWindow { slots, current_offset: 0 }
    }

    /// Writes one frame's samples to the current slot and moves on to the next slot,
    /// wrapping around after the last.
    pub fn record(&mut self, samples: FrameSamples<T>)
        requires
            old(self).wf(),
        ensures
            final(self).wf(),
            0 <= old(self).offset() < VALUES_COUNT,
            old(self).slots().len() == VALUES_COUNT,
            final(self).slots() == old(self).slots().update(old(self).offset(), samples),
            final(self).offset() == (old(self).offset() + 1) % (VALUES_COUNT as int),
            final(self).slots().len() == VALUES_COUNT,
    {
        let offset = self.current_offset;
        self.slots.set(offset, samples);
        self.current_offset = (offset + 1) % VALUES_COUNT;
    }

    /// The slots, for plotting.
    pub fn samples(&self) -> (s: &Vec<FrameSamples<T>>)
        requires
            self.wf(),
        ensures
            s@ == self.slots(),
            s@.len() == VALUES_COUNT,
    {
        &self.slots
    }

    /// The slot the next frame is written to; the plot starts there.
    pub fn current_offset(&self) -> (o: usize)
        requires
            self.wf(),
        ensures
            o == self.offset(),
            o < VALUES_COUNT,
    {
        self.current_offset
    }
}

} // verus!
