//! The records that travel between a client and the control plane.

use vstd::prelude::*;

verus! {

/// Asks for a screen by name: the screen is made if it does not exist yet.
#[derive(Clone, Debug)]
pub struct CreateScreenRequest {
    pub name: String,
    pub width: i32,
    pub height: i32,
    pub dpi: i32,
    pub timeout_secs: u64,
    pub package: String,
}

/// What the control plane tells about a screen.
#[derive(Clone, Debug)]
pub struct ScreenInfo {
    pub name: String,
    pub display_id: i32,
    pub width: i32,
    pub height: i32,
    pub dpi: i32,
    pub assigned_package: String,
}

/// Text to type into a screen.
#[derive(Clone, Debug)]
pub struct TypeRequest {
    pub text: String,
}

/// A key to press on a screen.
#[derive(Clone, Copy, Debug)]
pub struct KeyRequest {
    pub keycode: i32,
}

/// An address to open in the package of a screen.
#[derive(Clone, Debug)]
pub struct OpenUrlRequest {
    pub url: String,
}

/// Asks to wait until a screen has been quiet for `idle_timeout_ms`, but no
/// longer than `global_timeout_ms`.
#[derive(Clone, Copy, Debug)]
pub struct WaitForIdleRequest {
    pub idle_timeout_ms: i64,
    pub global_timeout_ms: i64,
}

/// What a `CreateScreenRequest` holds, with its strings as character sequences.
pub struct CreateScreenRequestView {
    pub name: Seq<char>,
    pub width: i32,
    pub height: i32,
    pub dpi: i32,
    pub timeout_secs: u64,
    pub package: Seq<char>,
}

/// What a `ScreenInfo` holds, with its strings as character sequences.
pub struct ScreenInfoView {
    pub name: Seq<char>,
    pub display_id: i32,
    pub width: i32,
    pub height: i32,
    pub dpi: i32,
    pub assigned_package: Seq<char>,
}

impl View for CreateScreenRequest {
    type V = CreateScreenRequestView;

    open spec fn view(&self) -> CreateScreenRequestView {
        CreateScreenRequestView {
            name: self.name@,
            width: self.width,
            height: self.height,
            dpi: self.dpi,
            timeout_secs: self.timeout_secs,
            package: self.package@,
        }
    }
}

impl View for ScreenInfo {
    type V = ScreenInfoView;

    open spec fn view(&self) -> ScreenInfoView {
        ScreenInfoView {
            name: self.name@,
            display_id: self.display_id,
            width: self.width,
            height: self.height,
            dpi: self.dpi,
            assigned_package: self.assigned_package@,
        }
    }
}

} // verus!
