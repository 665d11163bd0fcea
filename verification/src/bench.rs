//! State machine of the slider preview benchmark.
//!
//! The benchmark drives a synthetic hover across the navigation slider.
//! Phase 1 (hover-and-pause) visits half of the image indices in a
//! scrambled order, holding the hover until the exact thumbnail is shown
//! and then dwelling a few frames. Phase 2 (hover-hop) does the same over
//! the other half but moves on one frame after the thumbnail appears.
//! Phase 3 (sweep) moves the hover across the whole slider, one index per
//! frame, for `SWEEP_PASSES` passes, counting the frames that showed the
//! exact thumbnail. Times are nanoseconds on a clock of the caller's
//! choosing; the caller measures CPU time and formats the report.
use vstd::prelude::*;

verus! {

/// A target counts as timed out after ten seconds without its thumbnail.
pub const TARGET_TIMEOUT_NS: u64 = 10_000_000_000;

/// Number of passes of the sweep phase.
pub const SWEEP_PASSES: usize = 2;

/// Frames a hover-and-pause target is held after its thumbnail appeared.
pub const HOVER_DWELL_FRAMES: u32 = 5;

/// Frames a hover-hop target is held after its thumbnail appeared.
pub const HOP_DWELL_FRAMES: u32 = 1;

/// Phase of the benchmark.
#[derive(PartialEq, Eq, Structural, Clone, Copy, Debug)]
pub enum BenchPhase {
    Hover,
    Hop,
    Sweep,
    Done,
}

/// The phase that has just finished.
#[derive(PartialEq, Eq, Structural, Clone, Copy, Debug)]
pub enum BenchPhaseEnd {
    Hover,
    Hop,
    Sweep,
}

/// The `i`-th of `n` targets: front, back, front + 1, back - 1, ... so that
/// consecutive targets jump across the file list.
pub open spec fn scrambled(n: nat, i: nat) -> nat {
    if i % 2 == 0 {
        i / 2
    } else {
        (n - 1 - i / 2) as nat
    }
}

/// The `n` targets in scrambled order (see `scrambled`).
pub fn scrambled_targets(n: usize) -> (v: Vec<usize>)
    ensures
        v@.len() == n,
        forall|i: int| 0 <= i < n ==> v@[i] == scrambled(n as nat, i as nat),
{
    let mut v: Vec<usize> = Vec::new();
    let mut i: usize = 0;
    while i < n
        invariant
            i <= n,
            v@.len() == i,
            forall|j: int| 0 <= j < i ==> v@[j] == scrambled(n as nat, j as nat),
        decreases n - i,
    {
        let t = if i % 2 == 0 {
            i / 2
        } else {
            n - 1 - i / 2
        };
        v.push(t);
        i = i + 1;
    }
    v
}

/// Every index below `n` is visited exactly once: the scrambled targets
/// are below `n` and pairwise distinct.
pub proof fn law_scrambled_permutation(n: nat)
    ensures
        forall|i: nat| i < n ==> #[trigger] scrambled(n, i) < n,
        forall|i: nat, j: nat| i < n && j < n && i != j ==> #[trigger] scrambled(n, i) != #[trigger] scrambled(n, j),
{
    assert forall|i: nat, j: nat| i < n && j < n && i != j implies #[trigger] scrambled(n, i) != #[trigger] scrambled(
        n,
        j,
    ) by {
        if i % 2 == 0 && j % 2 == 1 {
            assert(i / 2 + j / 2 != n - 1);
        } else if i % 2 == 1 && j % 2 == 0 {
            assert(i / 2 + j / 2 != n - 1);
        }
    }
}

/// The state of one hover phase.
pub struct HoverState {
    pub label: Seq<char>,
    pub targets: Seq<usize>,
    pub pos: nat,
    pub dwell_frames: nat,
    pub dwell_left: nat,
    pub wait_started: Option<u64>,
    pub latencies: Seq<u64>,
    pub timeouts: nat,
    pub frames: nat,
    pub duration: Option<u64>,
    pub started: Option<u64>,
}

/// One frame of a hover phase at time `now`, with the slider preview
/// showing `cursor` (`exact` when the thumbnail is the exact one). While
/// dwelling, the dwell counts down and the next target is taken when it
/// runs out; the phase finishes after the last target. Otherwise the
/// current target is hit when the exact thumbnail for it is shown, or
/// times out; either way the dwell starts. Returns the new state and
/// whether the phase just finished.
pub open spec fn hover_step(s: HoverState, now: u64, cursor: Option<usize>, exact: bool) -> (HoverState, bool) {
    let started = match s.started {
        Some(t) => t,
        None => now,
    };
    let s1 = HoverState { started: Some(started), frames: s.frames + 1, ..s };
    if s.dwell_left > 0 {
        let left = (s.dwell_left - 1) as nat;
        if left == 0 {
            let pos = s.pos + 1;
            if pos >= s.targets.len() {
                (
                    HoverState {
                        dwell_left: left,
                        pos: pos,
                        duration: Some(if now >= started { (now - started) as u64 } else { 0u64 }),
                        ..s1
                    },
                    true,
                )
            } else {
                (HoverState { dwell_left: left, pos: pos, ..s1 }, false)
            }
        } else {
            (HoverState { dwell_left: left, ..s1 }, false)
        }
    } else {
        let target = s.targets[s.pos as int];
        let waiting = match s.wait_started {
            Some(t) => t,
            None => now,
        };
        let waited: u64 = if now >= waiting { (now - waiting) as u64 } else { 0u64 };
        let hit = exact && cursor == Some(target);
        if hit {
            (
                HoverState {
                    latencies: s.latencies.push(waited),
                    wait_started: None,
                    dwell_left: s.dwell_frames,
                    ..s1
                },
                false,
            )
        } else if waited > TARGET_TIMEOUT_NS {
            (HoverState { timeouts: s.timeouts + 1, wait_started: None, dwell_left: s.dwell_frames, ..s1 }, false)
        } else {
            (HoverState { wait_started: Some(waiting), ..s1 }, false)
        }
    }
}

/// A run named `label` over `targets` that has not started: first target,
/// no dwell, no wait, nothing measured.
pub open spec fn fresh_run(label: Seq<char>, targets: Seq<usize>, dwell_frames: nat) -> HoverState {
    HoverState {
        label,
        targets,
        pos: 0,
        dwell_frames,
        dwell_left: 0,
        wait_started: None,
        latencies: Seq::empty(),
        timeouts: 0,
        frames: 0,
        duration: None,
        started: None,
    }
}

/// One hover phase of the benchmark: visit the targets, wait for the exact
/// thumbnail of each, dwell a number of frames, move on.
pub struct HoverRun {
    label: &'static str,
    targets: Vec<usize>,
    pos: usize,
    dwell_frames: u32,
    dwell_left: u32,
    wait_started: Option<u64>,
    latencies_ns: Vec<u64>,
    timeouts: usize,
    frames: usize,
    duration: Option<u64>,
    started: Option<u64>,
}

impl HoverRun {
    /// The name the run was made with.
    pub closed spec fn name(&self) -> &'static str {
        self.label
    }

    pub closed spec fn view(&self) -> HoverState {
        HoverState {
            label: self.label@,
            targets: self.targets@,
            pos: self.pos as nat,
            dwell_frames: self.dwell_frames as nat,
            dwell_left: self.dwell_left as nat,
            wait_started: self.wait_started,
            latencies: self.latencies_ns@,
            timeouts: self.timeouts as nat,
            frames: self.frames as nat,
            duration: self.duration,
            started: self.started,
        }
    }

    /// The run is not past its last target, and the dwell is within its
    /// length.
    pub open spec fn wf(&self) -> bool {
        &&& self.view().pos < self.view().targets.len()
        &&& self.view().dwell_left <= self.view().dwell_frames
    }

    /// A run over `targets` (at least one) that dwells `dwell_frames`
    /// frames after each hit.
    pub fn new(label: &'static str, targets: Vec<usize>, dwell_frames: u32) -> (r: Self)
        requires
            targets@.len() > 0,
        ensures
            r.wf(),
            r.name() == label,
            r.view() == (HoverState {
                label: label@,
                targets: targets@,
                pos: 0,
                dwell_frames: dwell_frames as nat,
                dwell_left: 0,
                wait_started: None,
                latencies: Seq::empty(),
                timeouts: 0,
                frames: 0,
                duration: None,
                started: None,
            }),
    {
        HoverRun {
            label,
            targets,
            pos: 0,
            dwell_frames,
            dwell_left: 0,
            wait_started: None,
            latencies_ns: Vec::new(),
            timeouts: 0,
            frames: 0,
            duration: None,
            started: None,
        }
    }

    /// Name of the phase, for the report.
    pub fn label(&self) -> (l: &'static str)
        ensures
            l == self.name(),
    {
        self.label
    }

    /// The index the hover is on.
    pub fn current_target(&self) -> (t: usize)
        requires
            self.wf(),
        ensures
            t == self.view().targets[self.view().pos as int],
    {
        self.targets[self.pos]
    }

    /// Advances one frame (see `hover_step`). Returns true when the run
    /// just finished.
    pub fn tick(&mut self, now: u64, cursor: Option<usize>, exact: bool) -> (finished: bool)
        requires
            old(self).wf(),
            old(self).view().frames < usize::MAX,
            old(self).view().timeouts < usize::MAX,
        ensures
            final(self).view() == hover_step(old(self).view(), now, cursor, exact).0,
            finished == hover_step(old(self).view(), now, cursor, exact).1,
            final(self).name() == old(self).name(),
            !finished ==> final(self).wf(),
    {
        let num_targets = self.targets.len();
        let started = match self.started {
            Some(t) => t,
            None => now,
        };
        self.started = Some(started);
        self.frames = self.frames + 1;

        if self.dwell_left > 0 {
            self.dwell_left = self.dwell_left - 1;
            if self.dwell_left == 0 {
                self.pos = self.pos + 1;
                if self.pos >= num_targets {
                    self.duration = Some(if now >= started { now - started } else { 0 });
                    return true;
                }
            }
            return false;
        }

        let target = self.targets[self.pos];
        let waiting = match self.wait_started {
            Some(t) => t,
            None => now,
        };
        let waited: u64 = if now >= waiting { now - waiting } else { 0 };
        let hit = exact && match cursor {
            Some(c) => c == target,
            None => false,
        };
        if hit {
            self.latencies_ns.push(waited);
            self.wait_started = None;
            self.dwell_left = self.dwell_frames;
        } else if waited > TARGET_TIMEOUT_NS {
            self.timeouts = self.timeouts + 1;
            self.wait_started = None;
            self.dwell_left = self.dwell_frames;
        } else {
            self.wait_started = Some(waiting);
        }
        false
    }

    /// Time from the first hover to the exact thumbnail of each hit target.
    pub fn latencies_ns(&self) -> (l: &Vec<u64>)
        ensures
            l@ == self.view().latencies,
    {
        &self.latencies_ns
    }

    /// Targets that timed out.
    pub fn timeouts(&self) -> (n: usize)
        ensures
            n == self.view().timeouts,
    {
        self.timeouts
    }

    /// Frames the run took.
    pub fn frames(&self) -> (n: usize)
        ensures
            n == self.view().frames,
    {
        self.frames
    }

    /// Duration of the run, once finished.
    pub fn duration(&self) -> (d: Option<u64>)
        ensures
            d == self.view().duration,
    {
        self.duration
    }

    /// Frames dwelled on each hit target.
    pub fn dwell_frames(&self) -> (n: u32)
        ensures
            n == self.view().dwell_frames,
    {
        self.dwell_frames
    }
}

/// Rank of a phase in the order the benchmark runs them.
pub open spec fn phase_rank(p: BenchPhase) -> int {
    match p {
        BenchPhase::Hover => 0,
        BenchPhase::Hop => 1,
        BenchPhase::Sweep => 2,
        BenchPhase::Done => 3,
    }
}

/// The slider preview benchmark.
pub struct PreviewBench {
    num_images: usize,
    hover: HoverRun,
    hop: HoverRun,
    sweep_frame: usize,
    sweep_exact_frames: usize,
    sweep_started: Option<u64>,
    sweep_duration: Option<u64>,
    phase: BenchPhase,
}

/// Where the synthetic hover is in a frame: on a target index, or at a
/// frame of the sweep.
#[derive(PartialEq, Eq, Structural, Clone, Copy, Debug)]
pub enum HoverPosition {
    Target(usize),
    Sweep { pass: usize, frame_in_pass: usize },
}

impl PreviewBench {
    pub closed spec fn phase_of(&self) -> BenchPhase {
        self.phase
    }

    pub closed spec fn images(&self) -> nat {
        self.num_images as nat
    }

    pub closed spec fn hover_run(&self) -> HoverState {
        self.hover.view()
    }

    pub closed spec fn hop_run(&self) -> HoverState {
        self.hop.view()
    }

    /// Names of the hover-and-pause and hover-hop runs.
    pub closed spec fn run_names(&self) -> (&'static str, &'static str) {
        (self.hover.name(), self.hop.name())
    }

    pub closed spec fn sweep_frames(&self) -> nat {
        self.sweep_frame as nat
    }

    pub closed spec fn sweep_exact(&self) -> nat {
        self.sweep_exact_frames as nat
    }

    pub closed spec fn sweep_start(&self) -> Option<u64> {
        self.sweep_started
    }

    pub closed spec fn sweep_time(&self) -> Option<u64> {
        self.sweep_duration
    }

    /// The runs of the current phase are well formed, and the sweep is not
    /// over before the benchmark is done.
    pub closed spec fn wf(&self) -> bool {
        &&& self.num_images >= 2
        &&& SWEEP_PASSES * self.num_images <= usize::MAX
        &&& self.phase == BenchPhase::Hover ==> self.hover.wf()
        &&& (self.phase == BenchPhase::Hover || self.phase == BenchPhase::Hop) ==> self.hop.wf()
        &&& self.sweep_exact_frames <= self.sweep_frame
        &&& self.phase != BenchPhase::Done ==> self.sweep_frame < SWEEP_PASSES * self.num_images
    }

    /// A benchmark over `num_images` images (at least two): the first half
    /// of the scrambled targets for hover-and-pause, the rest for
    /// hover-hop.
    pub fn new(num_images: usize) -> (b: Self)
        requires
            num_images >= 2,
            SWEEP_PASSES * num_images <= usize::MAX,
        ensures
            b.wf(),
            b.phase_of() == BenchPhase::Hover,
            b.images() == num_images,
            b.hover_run().targets == Seq::new((num_images / 2) as nat, |i: int| scrambled(num_images as nat, i as nat) as usize),
            b.hop_run().targets == Seq::new(
                (num_images - num_images / 2) as nat,
                |i: int| scrambled(num_images as nat, (i + num_images / 2) as nat) as usize,
            ),
            b.run_names() == ("hover-and-pause", "hover-hop"),
            b.hover_run() == fresh_run("hover-and-pause"@, b.hover_run().targets, HOVER_DWELL_FRAMES as nat),
            b.hop_run() == fresh_run("hover-hop"@, b.hop_run().targets, HOP_DWELL_FRAMES as nat),
            b.sweep_frames() == 0,
            b.sweep_exact() == 0,
            b.sweep_start() is None,
            b.sweep_time() is None,
    {
        let all = scrambled_targets(num_images);
        let half = num_images / 2;
        let mut hover_targets: Vec<usize> = Vec::new();
        let mut hop_targets: Vec<usize> = Vec::new();
        let mut i: usize = 0;
        while i < num_images
            invariant
                i <= num_images,
                half == num_images / 2,
                all@.len() == num_images,
                forall|j: int| 0 <= j < num_images ==> all@[j] == scrambled(num_images as nat, j as nat),
                i <= half ==> hover_targets@.len() == i && hop_targets@.len() == 0,
                i > half ==> hover_targets@.len() == half && hop_targets@.len() == i - half,
                forall|j: int| 0 <= j < hover_targets@.len() ==> hover_targets@[j] == all@[j],
                forall|j: int| 0 <= j < hop_targets@.len() ==> hop_targets@[j] == all@[j + half],
            decreases num_images - i,
        {
            if i < half {
                hover_targets.push(all[i]);
            } else {
                hop_targets.push(all[i]);
            }
            i = i + 1;
        }
        assert(hover_targets@ =~= Seq::new(half as nat, |i: int| scrambled(num_images as nat, i as nat) as usize));
        assert(hop_targets@ =~= Seq::new(
            (num_images - half) as nat,
            |i: int| scrambled(num_images as nat, (i + half) as nat) as usize,
        ));
        PreviewBench {
            num_images,
            hover: HoverRun::new("hover-and-pause", hover_targets, HOVER_DWELL_FRAMES),
            hop: HoverRun::new("hover-hop", hop_targets, HOP_DWELL_FRAMES),
            sweep_frame: 0,
            sweep_exact_frames: 0,
            sweep_started: None,
            sweep_duration: None,
            phase: BenchPhase::Hover,
        }
    }

    /// Where the synthetic hover is this frame, `None` once the benchmark
    /// is done. Sweep passes alternate direction; the caller maps the
    /// position to a slider fraction.
    pub fn hover_position(&self) -> (p: Option<HoverPosition>)
        requires
            self.wf(),
        ensures
            p == match self.phase_of() {
                BenchPhase::Hover => Some(
                    HoverPosition::Target(self.hover_run().targets[self.hover_run().pos as int]),
                ),
                BenchPhase::Hop => Some(HoverPosition::Target(self.hop_run().targets[self.hop_run().pos as int])),
                BenchPhase::Sweep => Some(
                    HoverPosition::Sweep {
                        pass: (self.sweep_frames() / self.images()) as usize,
                        frame_in_pass: (self.sweep_frames() % self.images()) as usize,
                    },
                ),
                BenchPhase::Done => None::<HoverPosition>,
            },
    {
        match self.phase {
            BenchPhase::Hover => Some(HoverPosition::Target(self.hover.current_target())),
            BenchPhase::Hop => Some(HoverPosition::Target(self.hop.current_target())),
            BenchPhase::Sweep => Some(
                HoverPosition::Sweep {
                    pass: self.sweep_frame / self.num_images,
                    frame_in_pass: self.sweep_frame % self.num_images,
                },
            ),
            BenchPhase::Done => None,
        }
    }

    /// Advances one frame at time `now` with the slider preview showing
    /// `cursor` (`exact` when it is the exact thumbnail). Returns which
    /// phase just finished on this frame, if any: a hover phase when its
    /// run finishes (then the next phase starts, the sweep's clock with
    /// it), the sweep after `SWEEP_PASSES * images` frames.
    pub fn tick(&mut self, now: u64, cursor: Option<usize>, exact: bool) -> (ended: Option<BenchPhaseEnd>)
        requires
            old(self).wf(),
            old(self).hover_run().frames < usize::MAX,
            old(self).hop_run().frames < usize::MAX,
            old(self).hover_run().timeouts < usize::MAX,
            old(self).hop_run().timeouts < usize::MAX,
        ensures
            final(self).wf(),
            final(self).images() == old(self).images(),
            final(self).run_names() == old(self).run_names(),
            phase_rank(old(self).phase_of()) <= phase_rank(final(self).phase_of()) <= phase_rank(
                old(self).phase_of(),
            ) + 1,
            match old(self).phase_of() {
                BenchPhase::Hover => {
                    let (h, fin) = hover_step(old(self).hover_run(), now, cursor, exact);
                    &&& final(self).hover_run() == h
                    &&& final(self).hop_run() == old(self).hop_run()
                    &&& final(self).phase_of() == if fin { BenchPhase::Hop } else { BenchPhase::Hover }
                    &&& final(self).sweep_frames() == old(self).sweep_frames()
                    &&& final(self).sweep_exact() == old(self).sweep_exact()
                    &&& final(self).sweep_start() == old(self).sweep_start()
                    &&& final(self).sweep_time() == old(self).sweep_time()
                    &&& ended == if fin { Some(BenchPhaseEnd::Hover) } else { None::<BenchPhaseEnd> }
                },
                BenchPhase::Hop => {
                    let (h, fin) = hover_step(old(self).hop_run(), now, cursor, exact);
                    &&& final(self).hop_run() == h
                    &&& final(self).hover_run() == old(self).hover_run()
                    &&& final(self).phase_of() == if fin { BenchPhase::Sweep } else { BenchPhase::Hop }
                    &&& final(self).sweep_start() == if fin { Some(now) } else { old(self).sweep_start() }
                    &&& final(self).sweep_frames() == old(self).sweep_frames()
                    &&& final(self).sweep_exact() == old(self).sweep_exact()
                    &&& final(self).sweep_time() == old(self).sweep_time()
                    &&& ended == if fin { Some(BenchPhaseEnd::Hop) } else { None::<BenchPhaseEnd> }
                },
                BenchPhase::Sweep => {
                    let frames = old(self).sweep_frames() + 1;
                    let fin = frames >= SWEEP_PASSES * old(self).images();
                    &&& final(self).sweep_frames() == frames
                    &&& final(self).sweep_exact() == old(self).sweep_exact() + if exact { 1nat } else { 0nat }
                    &&& final(self).phase_of() == if fin { BenchPhase::Done } else { BenchPhase::Sweep }
                    &&& final(self).hover_run() == old(self).hover_run()
                    &&& final(self).hop_run() == old(self).hop_run()
                    &&& final(self).sweep_start() == old(self).sweep_start()
                    &&& !fin ==> final(self).sweep_time() == old(self).sweep_time()
                    &&& fin ==> final(self).sweep_time() == Some(
                        match old(self).sweep_start() {
                            Some(t) => if now >= t { (now - t) as u64 } else { 0u64 },
                            None => 0u64,
                        },
                    )
                    &&& ended == if fin { Some(BenchPhaseEnd::Sweep) } else { None::<BenchPhaseEnd> }
                },
                BenchPhase::Done => *final(self) == *old(self) && ended is None,
            },
    {
        match self.phase {
            BenchPhase::Hover => {
                if self.hover.tick(now, cursor, exact) {
                    self.phase = BenchPhase::Hop;
                    return Some(BenchPhaseEnd::Hover);
                }
                None
            },
            BenchPhase::Hop => {
                if self.hop.tick(now, cursor, exact) {
                    self.sweep_started = Some(now);
                    self.phase = BenchPhase::Sweep;
                    return Some(BenchPhaseEnd::Hop);
                }
                None
            },
            BenchPhase::Sweep => {
                if exact {
                    self.sweep_exact_frames = self.sweep_exact_frames + 1;
                }
                self.sweep_frame = self.sweep_frame + 1;
                if self.sweep_frame >= SWEEP_PASSES * self.num_images {
                    let elapsed = match self.sweep_started {
                        Some(t) => if now >= t {
                            now - t
                        } else {
                            0
                        },
                        None => 0,
                    };
                    self.sweep_duration = Some(elapsed);
                    self.phase = BenchPhase::Done;
                    return Some(BenchPhaseEnd::Sweep);
                }
                None
            },
            BenchPhase::Done => None,
        }
    }

    /// Whether every phase has finished.
    pub fn is_done(&self) -> (b: bool)
        ensures
            b == (self.phase_of() == BenchPhase::Done),
    {
        self.phase == BenchPhase::Done
    }

    /// Number of images.
    pub fn num_images(&self) -> (n: usize)
        ensures
            n == self.images(),
    {
        self.num_images
    }

    /// The hover-and-pause run.
    pub fn hover(&self) -> (r: &HoverRun)
        ensures
            r.view() == self.hover_run(),
            r.name() == self.run_names().0,
    {
        &self.hover
    }

    /// The hover-hop run.
    pub fn hop(&self) -> (r: &HoverRun)
        ensures
            r.view() == self.hop_run(),
            r.name() == self.run_names().1,
    {
        &self.hop
    }

    /// Sweep frames so far, and how many of them showed the exact
    /// thumbnail.
    pub fn sweep_counts(&self) -> (r: (usize, usize))
        ensures
            r == (self.sweep_frames() as usize, self.sweep_exact() as usize),
    {
        (self.sweep_frame, self.sweep_exact_frames)
    }

    /// Duration of the sweep, once finished.
    pub fn sweep_duration(&self) -> (d: Option<u64>)
        ensures
            d == self.sweep_time(),
    {
        self.sweep_duration
    }
}

} // verus!
