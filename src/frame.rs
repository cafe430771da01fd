//! The render and poll loops' protocol: startup order and one poll per frame.
//!
//! The render side owns the graphics context. It binds the context, runs the
//! initialisation callback, hands the window over to be shown, then renders frames
//! until the window is asked to close. Each frame offers the poll side one
//! permission; the offer is dropped when the previous one is still unused, so the
//! poll side never runs ahead of rendering.
use vstd::prelude::*;

verus! {

/// Where the render side is in its life.
#[derive(Clone, Copy, PartialEq, Eq, Debug, Structural)]
pub enum Phase {
    /// The render thread owns the window but has no context yet.
    Unbound,
    /// The context is bound; the initialisation callback runs.
    Initializing,
    /// Initialisation is done; the window is out on loan to be shown.
    Ready,
    /// Frames are being rendered.
    Running,
    /// The window was asked to close; no more frames.
    Terminated,
}

/// What happened on the render side.
#[derive(Clone, Copy, PartialEq, Eq, Debug, Structural)]
pub enum RenderEvent {
    /// The graphics context was made current on the render thread.
    ContextBound,
    /// The initialisation callback returned.
    InitDone,
    /// The window came back after being shown.
    WindowReturned,
    /// A new frame starts; `close` tells whether the window is asked to close.
    FrameStart { close: bool },
}

/// What the render side must do next.
#[derive(Clone, Copy, PartialEq, Eq, Debug, Structural)]
pub enum RenderAction {
    /// Run the initialisation callback.
    RunInit,
    /// Signal readiness and lend the window out to be shown.
    LendWindow,
    /// Render and present a frame.
    RenderFrame,
    /// Leave the render loop.
    Stop,
    /// The event does not apply in this phase; do nothing.
    Ignore,
}

/// What the poll side must do next.
#[derive(Clone, Copy, PartialEq, Eq, Debug, Structural)]
pub enum PollAction {
    /// Poll input events and run the per-frame event callbacks once.
    Poll,
    /// No permission yet; wait for the next frame.
    Wait,
    /// Rendering has ended; leave the poll loop.
    Stop,
}

/// The render side's transition: the next phase and the action to take.
pub open spec fn render_next(phase: Phase, event: RenderEvent) -> (Phase, RenderAction) {
    match (phase, event) {
        (Phase::Unbound, RenderEvent::ContextBound) => (Phase::Initializing, RenderAction::RunInit),
        (Phase::Initializing, RenderEvent::InitDone) => (Phase::Ready, RenderAction::LendWindow),
        (Phase::Ready, RenderEvent::WindowReturned) => (Phase::Running, RenderAction::RenderFrame),
        (Phase::Running, RenderEvent::FrameStart { close }) => if close {
            (Phase::Terminated, RenderAction::Stop)
        } else {
            (Phase::Running, RenderAction::RenderFrame)
        },
        (Phase::Terminated, _) => (Phase::Terminated, RenderAction::Stop),
        _ => (phase, RenderAction::Ignore),
    }
}

/// The shared state of the two loops.
pub struct FrameSync {
    phase: Phase,
    permit: bool,
    frames: Ghost<nat>,
    granted: Ghost<nat>,
    taken: Ghost<nat>,
}

impl FrameSync {
    /// Every permission granted was taken, except at most the one waiting; none is
    /// granted before the render loop runs.
    pub closed spec fn wf(&self) -> bool {
        &&& self.granted@ == self.taken@ + if self.permit {
            1nat
        } else {
            0nat
        }
        &&& self.granted@ <= self.frames@
        &&& (self.phase != Phase::Running && self.phase != Phase::Terminated) ==> self.frames@ == 0
    }

    pub closed spec fn phase(&self) -> Phase {
        self.phase
    }

    /// Whether a permission is waiting for the poll side.
    pub closed spec fn permit(&self) -> bool {
        self.permit
    }

    /// Frames rendered so far.
    pub closed spec fn frames(&self) -> nat {
        self.frames@
    }

    /// Permissions handed to the poll side so far.
    pub closed spec fn granted(&self) -> nat {
        self.granted@
    }

    /// Poll cycles run so far.
    pub closed spec fn polls(&self) -> nat {
        self.taken@
    }

    /// The state before the render thread starts.
    pub fn new() -> (r: Self)
        ensures
            r.wf(),
            r.phase() == Phase::Unbound,
            !r.permit(),
            r.frames() == 0,
            r.polls() == 0,
    {
        FrameSync {
            phase: Phase::Unbound,
            permit: false,
            frames: Ghost(0),
            granted: Ghost(0),
            taken: Ghost(0),
        }
    }

    /// The render side's step on `event`. A frame that renders also offers one
    /// permission to the poll side, unless one is already waiting.
    pub fn render_step(&mut self, event: RenderEvent) -> (r: RenderAction)
        requires
            old(self).wf(),
        ensures
            final(self).wf(),
            (final(self).phase(), r) == render_next(old(self).phase(), event),
            r == RenderAction::RenderFrame ==> final(self).permit() && final(self).frames()
                == old(self).frames() + 1,
            r != RenderAction::RenderFrame ==> final(self).permit() == old(self).permit()
                && final(self).frames() == old(self).frames(),
            final(self).polls() == old(self).polls(),
    {
        let (phase, action) = match (self.phase, event) {
            (Phase::Unbound, RenderEvent::ContextBound) => (Phase::Initializing, RenderAction::RunInit),
            (Phase::Initializing, RenderEvent::InitDone) => (Phase::Ready, RenderAction::LendWindow),
            (Phase::Ready, RenderEvent::WindowReturned) => (Phase::Running, RenderAction::RenderFrame),
            (Phase::Running, RenderEvent::FrameStart { close }) => if close {
                (Phase::Terminated, RenderAction::Stop)
            } else {
                (Phase::Running, RenderAction::RenderFrame)
            },
            (Phase::Terminated, _) => (Phase::Terminated, RenderAction::Stop),
            _ => (self.phase, RenderAction::Ignore),
        };
        self.phase = phase;
        if action == RenderAction::RenderFrame {
            self.frames = Ghost(self.frames@ + 1);
            if !self.permit {
                self.permit = true;
                self.granted = Ghost(self.granted@ + 1);
            }
        }
        action
    }

    /// The poll side's step: poll once per permission, wait for one, or stop when
    /// rendering has ended.
    pub fn poll_step(&mut self) -> (r: PollAction)
        requires
            old(self).wf(),
        ensures
            final(self).wf(),
            final(self).phase() == old(self).phase(),
            final(self).frames() == old(self).frames(),
            r == (if old(self).permit() {
                PollAction::Poll
            } else if old(self).phase() == Phase::Terminated {
                PollAction::Stop
            } else {
                PollAction::Wait
            }),
            r == PollAction::Poll ==> !final(self).permit() && final(self).polls() == old(self).polls() + 1,
            r != PollAction::Poll ==> final(self).permit() == old(self).permit() && final(self).polls()
                == old(self).polls(),
    {
        if self.permit {
            self.permit = false;
            self.taken = Ghost(self.taken@ + 1);
            PollAction::Poll
        } else if self.phase == Phase::Terminated {
            PollAction::Stop
        } else {
            PollAction::Wait
        }
    }
}

/// Claims the one application instance a process may build: succeeds only if
/// `built` was not yet set, and sets it.
pub fn claim_instance(built: &mut bool) -> (r: bool)
    ensures
        r == !*old(built),
        *final(built),
{
    if *built {
        false
    } else {
        *built = true;
        true
    }
}

/// In every reachable state the poll cycles trail the permissions by at most one,
/// and no more permissions than frames were given: granting and polling alternate,
/// so at most one poll cycle runs per rendered frame.
pub proof fn lemma_polls_alternate(s: FrameSync)
    requires
        s.wf(),
    ensures
        s.polls() <= s.granted() <= s.polls() + 1,
        s.polls() <= s.frames(),
        s.permit() <==> s.granted() == s.polls() + 1,
        s.phase() != Phase::Running && s.phase() != Phase::Terminated ==> s.polls() == 0,
{
}

} // verus!
