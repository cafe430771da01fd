//! The camera registry and the mouse-look rule shared by the cameras.
use vstd::prelude::*;

use crate::names::NameMap;

verus! {

/// The largest pitch, in thousandths of a degree, either way from level.
pub const PITCH_LIMIT: i64 = 89_000;

/// Named cameras, of which at most one is active and driven by input.
pub struct CameraSystem<C> {
    cameras: NameMap<C>,
    active_camera: Option<String>,
    mouse_enabled: bool,
}

impl<C> CameraSystem<C> {
    /// The active camera's name is registered.
    pub closed spec fn wf(&self) -> bool {
        &&& self.cameras.wf()
        &&& self.active_camera is Some ==> self.cameras@.contains_key(self.active_camera->0@)
    }

    /// The registered cameras by name.
    pub closed spec fn cameras(&self) -> Map<Seq<char>, C> {
        self.cameras@
    }

    /// The name of the active camera, if any.
    pub closed spec fn active_name(&self) -> Option<Seq<char>> {
        match self.active_camera {
            Some(n) => Some(n@),
            None => None,
        }
    }

    /// Whether mouse movement reaches the cameras.
    pub closed spec fn mouse_on(&self) -> bool {
        self.mouse_enabled
    }

    /// An empty registry with no active camera and the mouse enabled.
    pub fn new() -> (r: Self)
        ensures
            r.wf(),
            r.cameras() == Map::<Seq<char>, C>::empty(),
            r.active_name() is None,
            r.mouse_on(),
    {
        CameraSystem { cameras: NameMap::new(), active_camera: None, mouse_enabled: true }
    }

    /// Registers `camera` as `name`; a taken name is refused and the registry kept.
    /// Says whether the camera was added.
    pub fn add_camera(&mut self, name: &str, camera: C) -> (r: bool)
        requires
            old(self).wf(),
        ensures
            final(self).wf(),
            r == !old(self).cameras().contains_key(name@),
            r ==> final(self).cameras() == old(self).cameras().insert(name@, camera),
            !r ==> final(self).cameras() == old(self).cameras(),
            final(self).active_name() == old(self).active_name(),
            final(self).mouse_on() == old(self).mouse_on(),
    {
        self.cameras.insert_new(name, camera)
    }

    /// Makes the camera called `name` the active one; an unknown name changes nothing.
    /// Says whether it was found.
    pub fn active_camera(&mut self, name: &str) -> (r: bool)
        requires
            old(self).wf(),
        ensures
            final(self).wf(),
            r == old(self).cameras().contains_key(name@),
            r ==> final(self).active_name() == Some(name@),
            !r ==> final(self).active_name() == old(self).active_name(),
            final(self).cameras() == old(self).cameras(),
            final(self).mouse_on() == old(self).mouse_on(),
    {
        if self.cameras.contains(name) {
            self.active_camera = Some(name.to_string());
            true
        } else {
            false
        }
    }

    /// Turns mouse handling on or off without touching the cameras.
    pub fn enable_mouse(&mut self, enabled: bool)
        requires
            old(self).wf(),
        ensures
            final(self).wf(),
            final(self).mouse_on() == enabled,
            final(self).cameras() == old(self).cameras(),
            final(self).active_name() == old(self).active_name(),
    {
        self.mouse_enabled = enabled;
    }

    /// Whether mouse handling is on.
    pub fn mouse_enabled(&self) -> (r: bool)
        ensures
            r == self.mouse_on(),
    {
        self.mouse_enabled
    }

    /// The active camera, if one is set.
    pub fn active(&self) -> (r: Option<&C>)
        requires
            self.wf(),
        ensures
            r is Some == self.active_name() is Some,
            r is Some ==> *r->0 == self.cameras()[self.active_name()->0],
    {
        match &self.active_camera {
            Some(name) => self.cameras.get(name.as_str()),
            None => None,
        }
    }

    /// Mutable access to the active camera, if one is set.
    pub fn active_mut(&mut self) -> (r: Option<&mut C>)
        requires
            old(self).wf(),
        ensures
            r is Some == old(self).active_name() is Some,
            r is Some ==> *r->0 == old(self).cameras()[old(self).active_name()->0],
            r is Some ==> final(self).wf() && final(self).cameras() == old(self).cameras().insert(
                old(self).active_name()->0,
                *final(r->0),
            ),
            r is None ==> final(self).wf() && final(self).cameras() == old(self).cameras(),
            final(self).active_name() == old(self).active_name(),
            final(self).mouse_on() == old(self).mouse_on(),
    {
        match &self.active_camera {
            Some(name) => self.cameras.get_mut(name.as_str()),
            None => None,
        }
    }
}


/// `x` limited to `[lo, hi]`.
pub open spec fn clamp(x: int, lo: int, hi: int) -> int {
    if x < lo {
        lo
    } else if x > hi {
        hi
    } else {
        x
    }
}

/// Yaw and pitch steered by cursor movement, in thousandths of a degree.
///
/// Cursor positions are whole pixels; `sensitivity` is the turn per pixel.
/// The pitch never leaves `[-PITCH_LIMIT, PITCH_LIMIT]`; the yaw saturates at the
/// bounds of `i64`.
pub struct MouseLook {
    pub yaw: i64,
    pub pitch: i64,
    pub sensitivity: i32,
    pub last: Option<(i32, i32)>,
}

impl MouseLook {
    /// The pitch is within its limits.
    pub open spec fn wf(&self) -> bool {
        -PITCH_LIMIT <= self.pitch <= PITCH_LIMIT
    }

    /// A level view facing `yaw`, waiting for its first cursor position.
    pub fn new(yaw: i64, sensitivity: i32) -> (r: Self)
        ensures
            r.wf(),
            r == (MouseLook { yaw, pitch: 0, sensitivity, last: None }),
    {
        MouseLook { yaw, pitch: 0, sensitivity, last: None }
    }

    /// Records the cursor position without turning.
    pub fn track(&mut self, x: i32, y: i32)
        ensures
            *final(self) == (MouseLook { last: Some((x, y)), ..*old(self) }),
    {
        self.last = Some((x, y));
    }

    /// Turns by the cursor's movement since the last position: right adds yaw, up adds
    /// pitch, and the pitch is clamped to its limits. The first position only sets the
    /// reference point.
    pub fn mouse_move(&mut self, x: i32, y: i32)
        requires
            old(self).wf(),
        ensures
            final(self).wf(),
            final(self).last == Some((x, y)),
            final(self).sensitivity == old(self).sensitivity,
            ({
                let (lx, ly) = match old(self).last {
                    Some(p) => p,
                    None => (x, y),
                };
                &&& final(self).yaw == clamp(
                    old(self).yaw + (x - lx) * old(self).sensitivity,
                    i64::MIN as int,
                    i64::MAX as int,
                )
                &&& final(self).pitch == clamp(
                    old(self).pitch + (ly - y) * old(self).sensitivity,
                    -PITCH_LIMIT as int,
                    PITCH_LIMIT as int,
                )
            }),
    {
        let (lx, ly) = match self.last {
            Some(p) => p,
            None => (x, y),
        };
        let sen = self.sensitivity as i128;
        let dx = x as i128 - lx as i128;
        let dy = ly as i128 - y as i128;
        proof {
            lemma_turn_bound(dx, sen);
            lemma_turn_bound(dy, sen);
        }
        let yaw = self.yaw as i128 + dx * sen;
        let pitch = self.pitch as i128 + dy * sen;
        self.yaw = if yaw < i64::MIN as i128 {
            i64::MIN
        } else if yaw > i64::MAX as i128 {
            i64::MAX
        } else {
            yaw as i64
        };
        self.pitch = if pitch < -PITCH_LIMIT as i128 {
            -PITCH_LIMIT
        } else if pitch > PITCH_LIMIT as i128 {
            PITCH_LIMIT
        } else {
            pitch as i64
        };
        self.last = Some((x, y));
    }
}

/// A pixel offset times a sensitivity stays far inside `i128`.
proof fn lemma_turn_bound(d: i128, s: i128)
    requires
        -0x1_0000_0000 <= d <= 0x1_0000_0000,
        i32::MIN <= s <= i32::MAX,
    ensures
        -0x1_0000_0000_0000_0000 <= d * s <= 0x1_0000_0000_0000_0000,
{
    assert(-0x1_0000_0000_0000_0000 <= d * s <= 0x1_0000_0000_0000_0000) by (nonlinear_arith)
        requires
            -0x1_0000_0000 <= d <= 0x1_0000_0000,
            -0x8000_0000 <= s <= 0x7fff_ffff,
    ;
}

} // verus!
