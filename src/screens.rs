use vstd::prelude::*;

verus! {

/// Scale factor of 1.0 in the protocol's 24.8 fixed-point encoding.
pub const SCALE_ONE: i32 = 256;

/// Position of an output in the global compositor space.
#[derive(Debug, Clone, Copy, PartialEq, Eq, Structural)]
pub struct Position {
    pub x: i32,
    pub y: i32,
}

/// Size of a mode in pixels.
#[derive(Debug, Clone, Copy, PartialEq, Eq, Structural)]
pub struct Resolution {
    pub width: i32,
    pub height: i32,
}

/// A display mode: a resolution, a refresh rate in mHz (0 when unknown) and
/// whether the output advertises it as its preferred mode.
#[derive(Debug, Clone, Copy, PartialEq, Eq, Structural)]
pub struct Mode {
    pub resolution: Resolution,
    pub refresh: i32,
    pub preferred: bool,
}

impl Mode {
    /// The mode that exists before any of its attributes has been reported.
    pub open spec fn spec_unset() -> Mode {
        Mode { resolution: Resolution { width: 0, height: 0 }, refresh: 0, preferred: false }
    }

    pub fn unset() -> (r: Mode)
        ensures
            r == Mode::spec_unset(),
    {
        Mode { resolution: Resolution { width: 0, height: 0 }, refresh: 0, preferred: false }
    }
}

/// A fully resolved snapshot of one output.
///
/// `scale` is kept in the 24.8 fixed-point encoding the protocol carries
/// (`SCALE_ONE` is 1.0).
#[derive(Debug, Clone)]
pub struct Output {
    pub name: String,
    pub enabled: bool,
    pub description: String,
    pub current_mode: Option<Mode>,
    pub preferred_mode: Option<Mode>,
    pub modes: Vec<Mode>,
    pub position: Option<Position>,
    pub scale: i32,
}

/// Mathematical view of an `Output`.
pub struct OutputView {
    pub name: Seq<char>,
    pub enabled: bool,
    pub description: Seq<char>,
    pub current_mode: Option<Mode>,
    pub preferred_mode: Option<Mode>,
    pub modes: Seq<Mode>,
    pub position: Option<Position>,
    pub scale: i32,
}

impl View for Output {
    type V = OutputView;

    open spec fn view(&self) -> OutputView {
        OutputView {
            name: self.name@,
            enabled: self.enabled,
            description: self.description@,
            current_mode: self.current_mode,
            preferred_mode: self.preferred_mode,
            modes: self.modes@,
            position: self.position,
            scale: self.scale,
        }
    }
}

} // verus!
