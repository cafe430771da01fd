use rustcraft::frame::{claim_instance, FrameSync, PollAction, RenderAction, RenderEvent};

#[test]
fn startup_runs_in_order() {
    let mut s = FrameSync::new();
    assert_eq!(s.poll_step(), PollAction::Wait);
    assert_eq!(s.render_step(RenderEvent::InitDone), RenderAction::Ignore);
    assert_eq!(s.render_step(RenderEvent::ContextBound), RenderAction::RunInit);
    assert_eq!(s.poll_step(), PollAction::Wait);
    assert_eq!(s.render_step(RenderEvent::InitDone), RenderAction::LendWindow);
    assert_eq!(s.poll_step(), PollAction::Wait);
    assert_eq!(s.render_step(RenderEvent::WindowReturned), RenderAction::RenderFrame);
    assert_eq!(s.poll_step(), PollAction::Poll);
    assert_eq!(s.poll_step(), PollAction::Wait);
}

#[test]
fn one_poll_per_frame() {
    let mut s = FrameSync::new();
    s.render_step(RenderEvent::ContextBound);
    s.render_step(RenderEvent::InitDone);
    s.render_step(RenderEvent::WindowReturned);
    let mut polls = 0;
    for frame in 0..10 {
        if frame > 0 {
            assert_eq!(s.render_step(RenderEvent::FrameStart { close: false }), RenderAction::RenderFrame);
        }
        if frame % 3 == 0 {
            continue;
        }
        while s.poll_step() == PollAction::Poll {
            polls += 1;
        }
    }
    assert!(polls <= 10);
    assert_eq!(s.render_step(RenderEvent::FrameStart { close: true }), RenderAction::Stop);
    assert_eq!(s.poll_step(), PollAction::Poll);
    assert_eq!(s.poll_step(), PollAction::Stop);
    assert_eq!(s.render_step(RenderEvent::FrameStart { close: false }), RenderAction::Stop);
}

#[test]
fn sends_and_receives_alternate() {
    let mut s = FrameSync::new();
    s.render_step(RenderEvent::ContextBound);
    s.render_step(RenderEvent::InitDone);
    s.render_step(RenderEvent::WindowReturned);
    s.render_step(RenderEvent::FrameStart { close: false });
    s.render_step(RenderEvent::FrameStart { close: false });
    assert_eq!(s.poll_step(), PollAction::Poll);
    assert_eq!(s.poll_step(), PollAction::Wait);
    s.render_step(RenderEvent::FrameStart { close: false });
    assert_eq!(s.poll_step(), PollAction::Poll);
}

#[test]
fn only_one_instance() {
    let mut built = false;
    assert!(claim_instance(&mut built));
    assert!(!claim_instance(&mut built));
    assert!(built);
}
