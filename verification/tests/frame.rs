use grass_rs::fps_window::{FpsWindow, FrameSamples, VALUES_COUNT};
use grass_rs::frame_times::FrameTimes;
use std::time::Duration;

fn samples(v: u32) -> FrameSamples<u32> {
    FrameSamples { cpu: v, gpu: v + 1, shadow_map: v + 2, color_pass: v + 3, meshlet_pass: v + 4, ui: v + 5 }
}

#[test]
fn frame_times_default_is_zero() {
    let t = FrameTimes::default();
    assert_eq!(t.cpu_total, 0);
    assert_eq!(t.gpu_total, 0);
    assert_eq!(t.compute_visible_meshlets, 0);
    assert_eq!(t.prep_draw_mesh_tasks_command, 0);
    assert_eq!(t.draw_mesh_tasks, 0);
    assert_eq!(t.msaa_resolve, 0);
    assert_eq!(t.cpu_total(), Duration::ZERO);
}

#[test]
fn frame_totals_are_nanoseconds() {
    let t = FrameTimes {
        cpu_total: 1_500_000_000,
        gpu_total: 16_600_000,
        compute_visible_meshlets: 1,
        prep_draw_mesh_tasks_command: 2,
        draw_mesh_tasks: 3,
        msaa_resolve: 4,
    };
    assert_eq!(t.cpu_total(), Duration::from_millis(1500));
    assert_eq!(t.cpu_total().as_secs(), 1);
    assert_eq!(t.cpu_total().subsec_nanos(), 500_000_000);
    assert_eq!(t.gpu_total().as_micros(), 16_600);
}

#[test]
fn window_starts_filled() {
    let w = FpsWindow::new(0u32);
    assert_eq!(w.samples().len(), VALUES_COUNT);
    assert_eq!(w.current_offset(), 0);
    assert!(w.samples().iter().all(|s| s.cpu == 0 && s.ui == 0));
}

#[test]
fn window_record_writes_current_slot() {
    let mut w = FpsWindow::new(0u32);
    w.record(samples(10));
    w.record(samples(20));
    assert_eq!(w.current_offset(), 2);
    assert_eq!(w.samples()[0].cpu, 10);
    assert_eq!(w.samples()[1].cpu, 20);
    assert_eq!(w.samples()[1].ui, 25);
    assert_eq!(w.samples()[2].cpu, 0);
}

#[test]
fn window_wraps_after_a_full_cycle() {
    let mut w = FpsWindow::new(0u32);
    for i in 0..VALUES_COUNT as u32 {
        w.record(samples(i + 1));
    }
    assert_eq!(w.current_offset(), 0);
    w.record(samples(100));
    assert_eq!(w.current_offset(), 1);
    assert_eq!(w.samples()[0].cpu, 100);
    assert_eq!(w.samples()[1].cpu, 2);
    assert_eq!(w.samples()[VALUES_COUNT - 1].cpu, VALUES_COUNT as u32);
}
