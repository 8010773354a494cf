use system_monitor::scheduler::{FrameScheduler, RefreshState};
use system_monitor::surface::{LoopAction, SurfaceConfig, SurfaceFault, Theme, WindowEventKind};

#[test]
fn first_redraw_pulls_then_once_a_second() {
    let mut s = FrameScheduler::new();
    assert_eq!(s.state, RefreshState::Idle);
    assert!(s.on_redraw(0));
    assert_eq!(s.state, RefreshState::Tracking(0));
    assert!(!s.on_redraw(500));
    assert_eq!(s.state, RefreshState::Tracking(0));
    assert!(s.on_redraw(1100));
    assert_eq!(s.state, RefreshState::Tracking(1100));
}

#[test]
fn first_redraw_pulls_whatever_the_time() {
    let mut s = FrameScheduler::new();
    assert!(s.on_redraw(123_456));
    assert_eq!(s.state, RefreshState::Tracking(123_456));
}

#[test]
fn pull_at_exactly_one_second() {
    let mut s = FrameScheduler::new();
    assert!(s.on_redraw(2000));
    assert!(!s.on_redraw(2999));
    assert!(s.on_redraw(3000));
}

#[test]
fn clock_reading_before_last_refresh_does_not_pull() {
    let mut s = FrameScheduler::new();
    assert!(s.on_redraw(5000));
    assert!(!s.on_redraw(1000));
    assert_eq!(s.state, RefreshState::Tracking(5000));
}

#[test]
fn idle_tick_requests_repaint_after_a_second() {
    let mut s = FrameScheduler::new();
    assert!(!s.wants_redraw(10_000));
    s.on_redraw(0);
    assert!(!s.wants_redraw(999));
    assert!(s.wants_redraw(1000));
}

#[test]
fn degenerate_resize_is_ignored() {
    let mut c = SurfaceConfig::new(800, 600);
    assert!(!c.resize(0, 300));
    assert_eq!(c, SurfaceConfig::new(800, 600));
    assert!(!c.resize(300, 0));
    assert_eq!(c, SurfaceConfig::new(800, 600));
    assert!(!c.resize(0, 0));
    assert_eq!(c, SurfaceConfig::new(800, 600));
    assert!(c.resize(1024, 768));
    assert_eq!(c, SurfaceConfig::new(1024, 768));
}

#[test]
fn window_events_map_to_actions() {
    let mut c = SurfaceConfig::new(800, 600);
    assert_eq!(c.on_window_event(WindowEventKind::CloseRequested), LoopAction::Exit);
    assert_eq!(c.on_window_event(WindowEventKind::EscapePressed), LoopAction::Exit);
    assert_eq!(
        c.on_window_event(WindowEventKind::Resized { width: 640, height: 480 }),
        LoopAction::Reconfigure
    );
    assert_eq!(c, SurfaceConfig::new(640, 480));
    assert_eq!(
        c.on_window_event(WindowEventKind::ScaleFactorChanged { width: 1280, height: 960 }),
        LoopAction::Reconfigure
    );
    assert_eq!(c, SurfaceConfig::new(1280, 960));
    assert_eq!(
        c.on_window_event(WindowEventKind::Resized { width: 0, height: 480 }),
        LoopAction::Continue
    );
    assert_eq!(c, SurfaceConfig::new(1280, 960));
    assert_eq!(
        c.on_window_event(WindowEventKind::ThemeChanged(Theme::Dark)),
        LoopAction::ApplyTheme(Theme::Dark)
    );
    assert_eq!(c.on_window_event(WindowEventKind::Other), LoopAction::RequestRedraw);
    assert_eq!(c, SurfaceConfig::new(1280, 960));
}

#[test]
fn surface_faults_map_to_actions() {
    let mut c = SurfaceConfig::new(800, 600);
    assert_eq!(c.on_surface_fault(SurfaceFault::Lost), LoopAction::Reconfigure);
    assert_eq!(c, SurfaceConfig::new(800, 600));
    assert_eq!(c.on_surface_fault(SurfaceFault::OutOfMemory), LoopAction::Exit);
    assert_eq!(c.on_surface_fault(SurfaceFault::Outdated), LoopAction::Continue);
    assert_eq!(c.on_surface_fault(SurfaceFault::Timeout), LoopAction::Continue);
    let mut empty = SurfaceConfig::new(0, 0);
    assert_eq!(empty.on_surface_fault(SurfaceFault::Lost), LoopAction::Continue);
}
