use renderer::fence::{
    complete_reset, complete_wait, record_wait_poll, reset_fences, wait_fences, Fence, FenceError,
    FenceState, FenceStatus, ResetStep,
};

fn fence(handle: u64, state: FenceState) -> Fence {
    let mut f = Fence::new(handle);
    match state {
        FenceState::Unsignalled => {}
        FenceState::Armed => f.arm().unwrap(),
        FenceState::Signalled => {
            f.arm().unwrap();
            f.set_signalled().unwrap();
        }
    }
    f
}

fn states(fences: &[Fence]) -> Vec<FenceState> {
    fences.iter().map(|f| f.state()).collect()
}

#[test]
fn fence_lifecycle() {
    let mut f = Fence::new(7);
    assert_eq!(f.handle(), 7);
    assert_eq!(f.state(), FenceState::Unsignalled);
    assert_eq!(f.set_signalled(), Err(FenceError::Unarmed));
    assert_eq!(f.arm(), Ok(()));
    assert_eq!(f.arm(), Err(FenceError::NotReset));
    assert_eq!(f.set_unsignalled(), Err(FenceError::StillPending));
    assert_eq!(f.update_armed_fence_state(FenceStatus::NotReady), Ok(false));
    assert_eq!(f.state(), FenceState::Armed);
    assert_eq!(f.update_armed_fence_state(FenceStatus::Ready), Ok(true));
    assert_eq!(f.state(), FenceState::Signalled);
    assert_eq!(f.set_unsignalled(), Ok(()));
    assert_eq!(f.update_armed_fence_state(FenceStatus::Ready), Err(FenceError::Unarmed));
}

#[test]
fn reset_of_signalled_batch_needs_no_poll() {
    let mut fences = vec![fence(1, FenceState::Signalled), fence(2, FenceState::Unsignalled)];
    match reset_fences(&mut fences, 0, None) {
        Ok(ResetStep::Reset(handles)) => assert_eq!(handles, vec![1, 2]),
        _ => panic!("expected a reset"),
    }
    assert_eq!(complete_reset(&mut fences), Ok(()));
    assert_eq!(states(&fences), vec![FenceState::Unsignalled, FenceState::Unsignalled]);
}

#[test]
fn reset_catches_up_completed_armed_fences() {
    let mut fences = vec![
        fence(1, FenceState::Armed),
        fence(2, FenceState::Signalled),
        fence(3, FenceState::Armed),
    ];
    let mut step = reset_fences(&mut fences, 0, None).unwrap();
    let mut polls = Vec::new();
    let handles = loop {
        match step {
            ResetStep::Poll(i) => {
                polls.push(i);
                step = reset_fences(&mut fences, i, Some(FenceStatus::Ready)).unwrap();
            }
            ResetStep::Reset(handles) => break handles,
        }
    };
    assert_eq!(polls, vec![0, 2]);
    assert_eq!(handles, vec![1, 2, 3]);
    assert_eq!(states(&fences), vec![FenceState::Signalled; 3]);
    assert_eq!(complete_reset(&mut fences), Ok(()));
    assert_eq!(states(&fences), vec![FenceState::Unsignalled; 3]);
}

#[test]
fn reset_of_pending_fence_fails() {
    let mut fences = vec![fence(1, FenceState::Armed)];
    assert!(matches!(reset_fences(&mut fences, 0, None), Ok(ResetStep::Poll(0))));
    assert!(matches!(
        reset_fences(&mut fences, 0, Some(FenceStatus::NotReady)),
        Err(FenceError::StillPending)
    ));
    assert_eq!(states(&fences), vec![FenceState::Armed]);
    assert_eq!(complete_reset(&mut fences), Err(FenceError::StillPending));
    assert!(matches!(
        reset_fences(&mut fences, 5, Some(FenceStatus::Ready)),
        Err(FenceError::NotArmed)
    ));
}

#[test]
fn wait_on_unsignalled_batch_fails() {
    let fences = vec![fence(1, FenceState::Unsignalled), fence(2, FenceState::Unsignalled)];
    assert_eq!(wait_fences(&fences), Err(FenceError::Unarmed));
    let mixed = vec![fence(1, FenceState::Armed), fence(2, FenceState::Unsignalled)];
    assert_eq!(wait_fences(&mixed), Err(FenceError::Unarmed));
}

#[test]
fn wait_skips_signalled_fences() {
    let fences = vec![fence(1, FenceState::Signalled), fence(2, FenceState::Armed), fence(3, FenceState::Armed)];
    assert_eq!(wait_fences(&fences), Ok(vec![2, 3]));
    let done = vec![fence(1, FenceState::Signalled)];
    assert_eq!(wait_fences(&done), Ok(vec![]));
}

#[test]
fn wait_all_signals_every_armed_fence() {
    let mut fences = vec![fence(1, FenceState::Signalled), fence(2, FenceState::Armed), fence(3, FenceState::Armed)];
    assert_eq!(complete_wait(&mut fences, true, 2), None);
    assert_eq!(states(&fences), vec![FenceState::Signalled; 3]);
    let mut single = vec![fence(4, FenceState::Armed)];
    assert_eq!(complete_wait(&mut single, false, 1), None);
    assert_eq!(states(&single), vec![FenceState::Signalled]);
}

#[test]
fn partial_wait_polls_each_armed_fence() {
    let mut fences = vec![fence(1, FenceState::Armed), fence(2, FenceState::Signalled), fence(3, FenceState::Armed)];
    assert_eq!(complete_wait(&mut fences, false, 2), Some(0));
    assert_eq!(states(&fences)[0], FenceState::Armed);
    assert_eq!(record_wait_poll(&mut fences, 0, FenceStatus::NotReady), Some(2));
    assert_eq!(record_wait_poll(&mut fences, 2, FenceStatus::Ready), None);
    assert_eq!(
        states(&fences),
        vec![FenceState::Armed, FenceState::Signalled, FenceState::Signalled]
    );
}
