//! The drawable surface's size and the decisions taken on window events and
//! surface errors.
use vstd::prelude::*;

verus! {

/// Size of the drawable surface, in physical pixels.
#[derive(PartialEq, Eq, Structural, Clone, Copy, Debug)]
pub struct SurfaceConfig {
    pub width: u32,
    pub height: u32,
}

/// Light or dark window theme.
#[derive(PartialEq, Eq, Structural, Clone, Copy, Debug)]
pub enum Theme {
    Light,
    Dark,
}

/// The window events the loop tells apart.
#[derive(PartialEq, Eq, Structural, Clone, Copy, Debug)]
pub enum WindowEventKind {
    CloseRequested,
    EscapePressed,
    Resized { width: u32, height: u32 },
    ScaleFactorChanged { width: u32, height: u32 },
    ThemeChanged(Theme),
    Other,
}

/// Why the surface could not hand out a frame.
#[derive(PartialEq, Eq, Structural, Clone, Copy, Debug)]
pub enum SurfaceFault {
    Lost,
    OutOfMemory,
    Outdated,
    Timeout,
}

/// What the event loop does next.
#[derive(PartialEq, Eq, Structural, Clone, Copy, Debug)]
pub enum LoopAction {
    /// Shut down.
    Exit,
    /// Configure the backend surface with the current size.
    Reconfigure,
    /// Switch the visual style to the theme.
    ApplyTheme(Theme),
    /// Ask the window for a repaint.
    RequestRedraw,
    /// Nothing to do.
    Continue,
}

/// The size a resize to `width` x `height` leaves: degenerate sizes are
/// ignored.
pub open spec fn resized(c: SurfaceConfig, width: u32, height: u32) -> SurfaceConfig {
    if width > 0 && height > 0 {
        SurfaceConfig { width, height }
    } else {
        c
    }
}

/// The action and size after a window event.
pub open spec fn window_event_outcome(c: SurfaceConfig, ev: WindowEventKind) -> (SurfaceConfig, LoopAction) {
    match ev {
        WindowEventKind::CloseRequested => (c, LoopAction::Exit),
        WindowEventKind::EscapePressed => (c, LoopAction::Exit),
        WindowEventKind::Resized { width, height } => resize_outcome(c, width, height),
        WindowEventKind::ScaleFactorChanged { width, height } => resize_outcome(c, width, height),
        WindowEventKind::ThemeChanged(t) => (c, LoopAction::ApplyTheme(t)),
        WindowEventKind::Other => (c, LoopAction::RequestRedraw),
    }
}

/// The size and action after a resize request.
pub open spec fn resize_outcome(c: SurfaceConfig, width: u32, height: u32) -> (SurfaceConfig, LoopAction) {
    if width > 0 && height > 0 {
        (SurfaceConfig { width, height }, LoopAction::Reconfigure)
    } else {
        (c, LoopAction::Continue)
    }
}

/// The action and size after a surface error.
pub open spec fn surface_fault_outcome(c: SurfaceConfig, f: SurfaceFault) -> (SurfaceConfig, LoopAction) {
    match f {
        SurfaceFault::Lost => resize_outcome(c, c.width, c.height),
        SurfaceFault::OutOfMemory => (c, LoopAction::Exit),
        SurfaceFault::Outdated => (c, LoopAction::Continue),
        SurfaceFault::Timeout => (c, LoopAction::Continue),
    }
}

impl SurfaceConfig {
    /// A configuration of the given size.
    pub fn new(width: u32, height: u32) -> (r: Self)
        ensures
            r.width == width,
            r.height == height,
    {
        SurfaceConfig { width, height }
    }

    /// Takes the new size when both sides are positive; returns whether the
    /// backend surface must be configured again.
    pub fn resize(&mut self, width: u32, height: u32) -> (changed: bool)
        ensures
            *final(self) == resized(*old(self), width, height),
            changed == (width > 0 && height > 0),
    {
        if width > 0 && height > 0 {
            self.width = width;
            self.height = height;
            true
        } else {
            false
        }
    }

    fn resize_action(&mut self, width: u32, height: u32) -> (a: LoopAction)
        ensures
            (*final(self), a) == resize_outcome(*old(self), width, height),
    {
        if self.resize(width, height) {
            LoopAction::Reconfigure
        } else {
            LoopAction::Continue
        }
    }

    /// Reacts to a window event.
    pub fn on_window_event(&mut self, ev: WindowEventKind) -> (a: LoopAction)
        ensures
            (*final(self), a) == window_event_outcome(*old(self), ev),
    {
        match ev {
            WindowEventKind::CloseRequested => LoopAction::Exit,
            WindowEventKind::EscapePressed => LoopAction::Exit,
            WindowEventKind::Resized { width, height } => self.resize_action(width, height),
            WindowEventKind::ScaleFactorChanged { width, height } => self.resize_action(width, height),
            WindowEventKind::ThemeChanged(t) => LoopAction::ApplyTheme(t),
            WindowEventKind::Other => LoopAction::RequestRedraw,
        }
    }

    /// Reacts to a surface that could not hand out a frame.
    pub fn on_surface_fault(&mut self, f: SurfaceFault) -> (a: LoopAction)
        ensures
            (*final(self), a) == surface_fault_outcome(*old(self), f),
    {
        match f {
            SurfaceFault::Lost => {
                let w = self.width;
                let h = self.height;
                self.resize_action(w, h)
            },
            SurfaceFault::OutOfMemory => LoopAction::Exit,
            SurfaceFault::Outdated => LoopAction::Continue,
            SurfaceFault::Timeout => LoopAction::Continue,
        }
    }
}

/// A resize with a zero side leaves the configuration as it was; one with
/// both sides positive sets it to exactly that size.
pub proof fn lemma_resize_guard(c: SurfaceConfig, width: u32, height: u32)
    ensures
        resized(c, 0, height) == c,
        resized(c, width, 0) == c,
        width > 0 && height > 0 ==> resized(c, width, height) == (SurfaceConfig { width, height }),
{
}

} // verus!
