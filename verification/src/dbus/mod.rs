//! What is offered to other programs over the session bus.
use vstd::prelude::*;

pub mod display_config;
pub mod screen_cast;

verus! {

/// Output information for the session bus
#[derive(Debug)]
pub struct OutputInfo {
    pub name: String,
    pub x: i32,
    pub y: i32,
    pub width: i32,
    pub height: i32,
    /// Refresh rate in hertz.
    pub refresh: u32,
}

impl OutputInfo {
    /// The same information again.
    pub fn copied(&self) -> (r: Self)
        ensures
            r == *self,
    {
        OutputInfo {
            name: self.name.clone(),
            x: self.x,
            y: self.y,
            width: self.width,
            height: self.height,
            refresh: self.refresh,
        }
    }
}

/// Target for a screen cast stream.
#[derive(Debug)]
pub enum CastTarget {
    /// Cast an entire output/monitor.
    Output { name: String },
    /// Cast an individual window by its compositor ID.
    Window { id: u64 },
}

/// Messages from the Introspect interface to the compositor.
#[derive(Clone, Copy, Debug, PartialEq, Eq, Structural)]
pub enum IntrospectToCompositor {
    /// Request the current window list.
    GetWindows,
}

/// Properties of a window exposed on the session bus.
#[derive(Debug)]
pub struct WindowProperties {
    /// Window title.
    pub title: String,
    /// Window app ID (desktop file name).
    pub app_id: String,
}

/// Messages from the compositor back to the Introspect interface.
#[derive(Debug)]
pub enum CompositorToIntrospect {
    /// The current window list.
    Windows(Vec<(u64, WindowProperties)>),
}

/// Client type that may open a service connection.
pub const PORTAL_CLIENT: u32 = 1;

/// Whether a service connection of this client type is opened. Only the portal gets one.
pub fn accepts_service_client(service_client_type: u32) -> (r: bool)
    ensures
        r == (service_client_type == PORTAL_CLIENT),
{
    service_client_type == PORTAL_CLIENT
}

} // verus!
