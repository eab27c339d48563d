//! Values the host surface reports: platform kinds, call status, graphics errors and
//! accessibility action codes.
use vstd::prelude::*;
use vstd::string::*;

verus! {

/// The windowing platform a surface belongs to.
#[derive(Clone, Copy, PartialEq, Eq, Debug, Structural)]
pub enum McorePlatform {
    MacOS,
    Windows,
    X11,
    Wayland,
}

/// Outcome of a host call.
#[derive(Clone, Copy, PartialEq, Eq, Debug, Structural)]
pub enum McoreStatus {
    Success,
    Failure,
}

/// Whether the engine can drive surfaces of `platform`; only macOS is implemented.
pub fn platform_supported(platform: McorePlatform) -> (r: bool)
    ensures
        r == (platform == McorePlatform::MacOS),
{
    match platform {
        McorePlatform::MacOS => true,
        _ => false,
    }
}

/// Why setting up or presenting on a surface failed.
#[derive(Clone, PartialEq, Eq, Debug)]
pub enum GfxError {
    /// The GPU layer failed; its description.
    Wgpu(String),
    /// The host handed over no usable view.
    InvalidSurface,
    /// The renderer failed; its description.
    Vello(String),
}

impl GfxError {
    /// The text reported for this error.
    pub fn message(&self) -> (r: String)
        ensures
            match self {
                GfxError::Wgpu(d) => r@ == "wgpu error: "@ + d@,
                GfxError::InvalidSurface => r@ == "invalid surface"@,
                GfxError::Vello(d) => r@ == "vello error: "@ + d@,
            },
    {
        match self {
            GfxError::Wgpu(d) => {
                let mut s = String::from_str("wgpu error: ");
                s.append(d.as_str());
                s
            },
            GfxError::InvalidSurface => String::from_str("invalid surface"),
            GfxError::Vello(d) => {
                let mut s = String::from_str("vello error: ");
                s.append(d.as_str());
                s
            },
        }
    }
}

/// An accessibility action requested by assistive technology, as far as the host cares.
#[derive(Clone, Copy, PartialEq, Eq, Debug, Structural)]
pub enum A11yAction {
    Focus,
    Click,
    /// Any other action.
    Other,
}

/// The code the host's action callback receives: 0 focus, 1 click, 255 anything else.
pub fn action_code(action: A11yAction) -> (r: u8)
    ensures
        r == match action {
            A11yAction::Focus => 0u8,
            A11yAction::Click => 1u8,
            A11yAction::Other => 255u8,
        },
{
    match action {
        A11yAction::Focus => 0,
        A11yAction::Click => 1,
        A11yAction::Other => 255,
    }
}

/// The focused node after `action` on `target`: a focus action moves focus there, any other
/// action leaves it at `current`.
pub fn focus_after_action(current: u64, action: A11yAction, target: u64) -> (r: u64)
    ensures
        r == (if action == A11yAction::Focus {
            target
        } else {
            current
        }),
{
    if action == A11yAction::Focus {
        target
    } else {
        current
    }
}

} // verus!
