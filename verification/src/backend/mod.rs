//! Backend-independent output properties: transforms, modes and refresh rates.
pub use crate::redraw::RenderResult;
use crate::ewm::Ewm;
use crate::outputs::queued_somewhere;
use drm_state::DrmBackendState;
use headless::HeadlessBackend;
use vstd::prelude::*;

pub mod connect;
pub mod drm;
pub mod drm_state;
pub mod headless;

verus! {

/// Backend abstraction enum
///
/// Allows the compositor to run with different backends while maintaining
/// a common interface for core operations like redraw processing.
pub enum Backend {
    /// DRM backend for hardware rendering on TTY
    Drm(DrmBackendState),
    /// Headless backend for testing without hardware
    Headless(HeadlessBackend),
}

impl Backend {
    /// Check if any output has a redraw queued
    pub fn has_queued_redraws(&self, ewm: &Ewm) -> (r: bool)
        ensures
            r == queued_somewhere(ewm.output_state.entries@),
    {
        match self {
            Backend::Drm(drm) => drm.has_queued_redraws(ewm),
            Backend::Headless(headless) => headless.has_queued_redraws(ewm),
        }
    }

    /// Get the DRM backend if this is a DRM backend
    pub fn as_drm(&self) -> (r: Option<&DrmBackendState>)
        ensures
            match *self {
                Backend::Drm(drm) => r == Some(&drm),
                Backend::Headless(_) => r is None,
            },
    {
        match self {
            Backend::Drm(drm) => Some(drm),
            Backend::Headless(_) => None,
        }
    }

    /// Get mutable access to the DRM backend
    pub fn as_drm_mut(&mut self) -> (r: Option<&mut DrmBackendState>)
        ensures
            match *old(self) {
                Backend::Drm(drm) => {
                    &&& r is Some
                    &&& *r->0 == drm
                    &&& *final(self) == Backend::Drm(*final(r->0))
                },
                Backend::Headless(_) => r is None && *final(self) == *old(self),
            },
    {
        match self {
            Backend::Drm(drm) => Some(drm),
            Backend::Headless(_) => None,
        }
    }

    /// Get the headless backend if this is a headless backend
    pub fn as_headless(&self) -> (r: Option<&HeadlessBackend>)
        ensures
            match *self {
                Backend::Drm(_) => r is None,
                Backend::Headless(headless) => r == Some(&headless),
            },
    {
        match self {
            Backend::Drm(_) => None,
            Backend::Headless(headless) => Some(headless),
        }
    }

    /// Get mutable access to the headless backend
    pub fn as_headless_mut(&mut self) -> (r: Option<&mut HeadlessBackend>)
        ensures
            match *old(self) {
                Backend::Drm(_) => r is None && *final(self) == *old(self),
                Backend::Headless(headless) => {
                    &&& r is Some
                    &&& *r->0 == headless
                    &&& *final(self) == Backend::Headless(*final(r->0))
                },
            },
    {
        match self {
            Backend::Drm(_) => None,
            Backend::Headless(headless) => Some(headless),
        }
    }

    /// Check if this is a DRM backend
    pub fn is_drm(&self) -> (r: bool)
        ensures
            r == (self is Drm),
    {
        match self {
            Backend::Drm(_) => true,
            Backend::Headless(_) => false,
        }
    }

    /// Check if this is a headless backend
    pub fn is_headless(&self) -> (r: bool)
        ensures
            r == (self is Headless),
    {
        match self {
            Backend::Drm(_) => false,
            Backend::Headless(_) => true,
        }
    }
}

/// How an output's content is turned before it is shown.
#[derive(Clone, Copy, Debug, PartialEq, Eq, Structural)]
pub enum Transform {
    Normal,
    Rotated90,
    Rotated180,
    Rotated270,
    Flipped,
    Flipped90,
    Flipped180,
    Flipped270,
}

impl Transform {
    /// The number that stands for the transform.
    pub open spec fn number(self) -> int {
        match self {
            Transform::Normal => 0,
            Transform::Rotated90 => 1,
            Transform::Rotated180 => 2,
            Transform::Rotated270 => 3,
            Transform::Flipped => 4,
            Transform::Flipped90 => 5,
            Transform::Flipped180 => 6,
            Transform::Flipped270 => 7,
        }
    }

    /// The transform that a number stands for; numbers out of range stand for none.
    pub open spec fn numbered(n: int) -> Transform {
        if n == 1 {
            Transform::Rotated90
        } else if n == 2 {
            Transform::Rotated180
        } else if n == 3 {
            Transform::Rotated270
        } else if n == 4 {
            Transform::Flipped
        } else if n == 5 {
            Transform::Flipped90
        } else if n == 6 {
            Transform::Flipped180
        } else if n == 7 {
            Transform::Flipped270
        } else {
            Transform::Normal
        }
    }
}

/// Convert integer to Transform.
/// 0=Normal, 1=90, 2=180, 3=270, 4=Flipped, 5=Flipped90, 6=Flipped180, 7=Flipped270.
pub fn int_to_transform(value: i32) -> (r: Transform)
    ensures
        r == Transform::numbered(value as int),
{
    if value == 1 {
        Transform::Rotated90
    } else if value == 2 {
        Transform::Rotated180
    } else if value == 3 {
        Transform::Rotated270
    } else if value == 4 {
        Transform::Flipped
    } else if value == 5 {
        Transform::Flipped90
    } else if value == 6 {
        Transform::Flipped180
    } else if value == 7 {
        Transform::Flipped270
    } else {
        Transform::Normal
    }
}

/// Convert Transform to integer.
pub fn transform_to_int(transform: Transform) -> (r: i32)
    ensures
        r == transform.number(),
{
    match transform {
        Transform::Normal => 0,
        Transform::Rotated90 => 1,
        Transform::Rotated180 => 2,
        Transform::Rotated270 => 3,
        Transform::Flipped => 4,
        Transform::Flipped90 => 5,
        Transform::Flipped180 => 6,
        Transform::Flipped270 => 7,
    }
}

/// A transform is read back from its own number, and every number from 0 to 7 from its
/// transform.
pub proof fn law_transform_round_trip(t: Transform, n: int)
    ensures
        Transform::numbered(t.number()) == t,
        0 <= n <= 7 ==> Transform::numbered(n).number() == n,
        !(0 <= n <= 7) ==> Transform::numbered(n) == Transform::Normal,
{
}

} // verus!
