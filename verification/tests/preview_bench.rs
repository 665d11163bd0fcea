use viewskater::bench::{
    scrambled_targets, BenchPhaseEnd, HoverPosition, HoverRun, PreviewBench, SWEEP_PASSES, TARGET_TIMEOUT_NS,
};

#[test]
fn bench_targets_are_scrambled() {
    assert_eq!(scrambled_targets(6), vec![0, 5, 1, 4, 2, 3]);
    assert_eq!(scrambled_targets(5), vec![0, 4, 1, 3, 2]);
    assert_eq!(scrambled_targets(0), Vec::<usize>::new());
    for n in 0..50usize {
        let mut t = scrambled_targets(n);
        t.sort();
        assert_eq!(t, (0..n).collect::<Vec<_>>());
    }
}

#[test]
fn bench_hover_run_hits_dwells_and_times_out() {
    let mut r = HoverRun::new("run", vec![3, 7], 2);
    assert_eq!(r.label(), "run");
    assert_eq!(r.current_target(), 3);
    // Wrong thumbnail, then the exact one 40 ns later.
    assert!(!r.tick(100, Some(3), false));
    assert!(!r.tick(140, Some(3), true));
    assert_eq!(r.latencies_ns(), &vec![40]);
    // Two dwell frames, then the next target.
    assert!(!r.tick(150, None, false));
    assert_eq!(r.current_target(), 3);
    assert!(!r.tick(160, None, false));
    assert_eq!(r.current_target(), 7);
    // Never shown: times out after ten seconds.
    assert!(!r.tick(200, None, false));
    assert!(!r.tick(200 + TARGET_TIMEOUT_NS, None, false));
    assert_eq!(r.timeouts(), 0);
    assert!(!r.tick(201 + TARGET_TIMEOUT_NS, None, false));
    assert_eq!(r.timeouts(), 1);
    assert!(!r.tick(300 + TARGET_TIMEOUT_NS, None, false));
    assert!(r.tick(400 + TARGET_TIMEOUT_NS, None, false));
    assert_eq!(r.frames(), 9);
    assert_eq!(r.duration(), Some(300 + TARGET_TIMEOUT_NS));
    assert_eq!(r.dwell_frames(), 2);
}

#[test]
fn bench_runs_all_phases() {
    let n = 4;
    let mut b = PreviewBench::new(n);
    assert_eq!(b.num_images(), 4);
    assert_eq!(b.hover().dwell_frames(), 5);
    assert_eq!(b.hop().dwell_frames(), 1);
    let mut now: u64 = 0;
    let mut ended = Vec::new();
    let mut frames = 0;
    while !b.is_done() {
        now += 16;
        frames += 1;
        let cursor = match b.hover_position() {
            Some(HoverPosition::Target(t)) => Some(t),
            Some(HoverPosition::Sweep { frame_in_pass, .. }) => Some(frame_in_pass),
            None => None,
        };
        if let Some(e) = b.tick(now, cursor, true) {
            ended.push(e);
        }
        assert!(frames < 1000);
    }
    assert_eq!(ended, vec![BenchPhaseEnd::Hover, BenchPhaseEnd::Hop, BenchPhaseEnd::Sweep]);
    assert_eq!(b.hover_position(), None);
    assert_eq!(b.sweep_counts(), (SWEEP_PASSES * n, SWEEP_PASSES * n));
    assert_eq!(b.hover().latencies_ns().len(), 2);
    assert_eq!(b.hop().latencies_ns().len(), 2);
    assert_eq!(b.sweep_duration(), Some(16 * (SWEEP_PASSES as u64 * n as u64)));
    assert_eq!(b.tick(now + 16, None, false), None);
}

#[test]
fn bench_sweep_positions() {
    let mut b = PreviewBench::new(2);
    let mut now = 0;
    while b.hover_position().map_or(false, |p| matches!(p, HoverPosition::Target(_))) {
        now += 1;
        let t = match b.hover_position() {
            Some(HoverPosition::Target(t)) => t,
            _ => unreachable!(),
        };
        b.tick(now, Some(t), true);
    }
    assert_eq!(b.hover_position(), Some(HoverPosition::Sweep { pass: 0, frame_in_pass: 0 }));
    b.tick(now + 1, Some(0), false);
    assert_eq!(b.hover_position(), Some(HoverPosition::Sweep { pass: 0, frame_in_pass: 1 }));
    b.tick(now + 2, Some(1), true);
    assert_eq!(b.hover_position(), Some(HoverPosition::Sweep { pass: 1, frame_in_pass: 0 }));
    assert_eq!(b.sweep_counts(), (2, 1));
}

#[test]
fn bench_tick_sequence_over_two_images() {
    let mut b = PreviewBench::new(2);
    let mut ended = Vec::new();
    ended.push(b.tick(1, Some(0), true));
    for now in 2..7 {
        ended.push(b.tick(now, None, false));
    }
    ended.push(b.tick(7, Some(1), true));
    ended.push(b.tick(8, None, false));
    for now in 9..13 {
        ended.push(b.tick(now, None, true));
    }
    for (k, e) in ended.iter().enumerate() {
        match k {
            5 => assert_eq!(*e, Some(BenchPhaseEnd::Hover)),
            7 => assert_eq!(*e, Some(BenchPhaseEnd::Hop)),
            11 => assert_eq!(*e, Some(BenchPhaseEnd::Sweep)),
            _ => assert_eq!(*e, None, "tick {}", k + 1),
        }
    }
    assert!(b.is_done());
    assert_eq!(b.hover_position(), None);
    assert_eq!(b.sweep_duration(), Some(4));
    assert_eq!(b.tick(13, Some(0), true), None);
}
