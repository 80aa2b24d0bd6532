use vstd::prelude::*;
use crate::app::{App, AppModel, Step, StepSpec};
use crate::error::{AppError, Target};
use crate::handlers::{Handler, HandlerSpec};

verus! {

/// How far the default life-cycle has come. The host keeps it between two calls of
/// `runner`.
#[derive(Debug, Copy, Clone, PartialEq, Eq, Structural)]
pub enum RunnerPhase {
    /// Nothing has been asked of the app yet.
    Start,
    /// `Init` has been asked for; the first frame has not.
    Initialized,
    /// A frame has been asked for.
    InFrame,
    /// The app has been asked to close.
    Closing,
    /// The life-cycle is over.
    Done,
    /// The life-cycle ended on something that nothing provides.
    Failed(Target),
}

/// The mathematical content of what the runner tells the host.
pub ghost enum ActionSpec {
    Invoke(HandlerSpec),
    Continue,
    Finished,
    Failed(AppError),
}

/// What the runner tells the host.
#[derive(Debug)]
pub enum RunnerAction {
    /// Invoke this handler with the app's current event, then call the runner again.
    Invoke(Handler),
    /// Call the runner again.
    Continue,
    /// Stop: the life-cycle is over, or it failed.
    Exit(Result<(), AppError>),
}

impl View for RunnerAction {
    type V = ActionSpec;

    open spec fn view(&self) -> ActionSpec {
        match self {
            RunnerAction::Invoke(h) => ActionSpec::Invoke(h@),
            RunnerAction::Continue => ActionSpec::Continue,
            RunnerAction::Exit(Ok(())) => ActionSpec::Finished,
            RunnerAction::Exit(Err(e)) => ActionSpec::Failed(*e),
        }
    }
}

/// What the runner asks of an idle app. `Init` first; then a frame; after every
/// settled frame the platform plugin is looked for, and the app is closed if an exit
/// was requested and given another frame if not; once the close has settled the
/// life-cycle is over. A missing platform plugin ends it at once.
pub open spec fn when_idle<E>(
    app: AppModel<E>,
    phase: RunnerPhase,
    platform: u64,
    request_exit: bool,
) -> (AppModel<E>, RunnerPhase, ActionSpec) {
    match phase {
        RunnerPhase::Start => (app.init(), RunnerPhase::Initialized, ActionSpec::Continue),
        RunnerPhase::Initialized => (app.update(), RunnerPhase::InFrame, ActionSpec::Continue),
        RunnerPhase::InFrame => if !app.plugins.contains(platform) {
            (
                app,
                RunnerPhase::Failed(Target::Plugin(platform)),
                ActionSpec::Failed(AppError::MissingDependency(Target::Plugin(platform))),
            )
        } else if request_exit {
            (app.close(), RunnerPhase::Closing, ActionSpec::Continue)
        } else {
            (app.update(), RunnerPhase::InFrame, ActionSpec::Continue)
        },
        RunnerPhase::Closing => (app, RunnerPhase::Done, ActionSpec::Finished),
        RunnerPhase::Done => (app, RunnerPhase::Done, ActionSpec::Finished),
        RunnerPhase::Failed(t) => (
            app,
            RunnerPhase::Failed(t),
            ActionSpec::Failed(AppError::MissingDependency(t)),
        ),
    }
}

/// One decision of the runner: once the life-cycle is over nothing changes; otherwise
/// the app takes one step, and an idle app is asked for what comes next.
pub open spec fn runner_model<E>(
    app: AppModel<E>,
    phase: RunnerPhase,
    platform: u64,
    request_exit: bool,
) -> (AppModel<E>, RunnerPhase, ActionSpec) {
    match phase {
        RunnerPhase::Done => (app, phase, ActionSpec::Finished),
        RunnerPhase::Failed(t) => (app, phase, ActionSpec::Failed(AppError::MissingDependency(t))),
        _ => {
            let (next, step) = app.step();
            match step {
                StepSpec::Invoke(h) => (next, phase, ActionSpec::Invoke(h)),
                StepSpec::Dispatching(_) => (next, phase, ActionSpec::Continue),
                StepSpec::MissingDependency(t) => (
                    next,
                    RunnerPhase::Failed(t),
                    ActionSpec::Failed(AppError::MissingDependency(t)),
                ),
                StepSpec::Idle => when_idle(next, phase, platform, request_exit),
            }
        },
    }
}

/// Drives the default life-cycle by one decision. `platform` is the type key of the
/// platform plugin and `request_exit` what that plugin says at this moment; the flag
/// is read only after a settled frame, and only if the plugin is there. The storage's
/// state and plugins are left alone.
pub fn runner<S, P, E>(
    app: &mut App<S, P, E>,
    phase: RunnerPhase,
    platform: u64,
    request_exit: bool,
) -> (r: (RunnerPhase, RunnerAction))
    ensures
        final(app)@ == runner_model(old(app)@, phase, platform, request_exit).0,
        r.0 == runner_model(old(app)@, phase, platform, request_exit).1,
        r.1@ == runner_model(old(app)@, phase, platform, request_exit).2,
        final(app).store().state == old(app).store().state,
        final(app).store().plugins == old(app).store().plugins,
{
    match phase {
        RunnerPhase::Done => {
            return (phase, RunnerAction::Exit(Ok(())));
        },
        RunnerPhase::Failed(t) => {
            return (phase, RunnerAction::Exit(Err(AppError::MissingDependency(t))));
        },
        _ => {},
    }
    match app.step() {
        Step::Invoke(h) => (phase, RunnerAction::Invoke(h)),
        Step::Dispatching(_) => (phase, RunnerAction::Continue),
        Step::MissingDependency(t) => (
            RunnerPhase::Failed(t),
            RunnerAction::Exit(Err(AppError::MissingDependency(t))),
        ),
        Step::Idle => {
            proof {
                app.view_reads_store();
            }
            match phase {
                RunnerPhase::Start => {
                    app.init();
                    (RunnerPhase::Initialized, RunnerAction::Continue)
                },
                RunnerPhase::Initialized => {
                    app.update();
                    (RunnerPhase::InFrame, RunnerAction::Continue)
                },
                RunnerPhase::InFrame => {
                    if !app.storage().plugins.contains(platform) {
                        let missing = Target::Plugin(platform);
                        (
                            RunnerPhase::Failed(missing),
                            RunnerAction::Exit(Err(AppError::MissingDependency(missing))),
                        )
                    } else if request_exit {
                        app.close();
                        (RunnerPhase::Closing, RunnerAction::Continue)
                    } else {
                        app.update();
                        (RunnerPhase::InFrame, RunnerAction::Continue)
                    }
                },
                _ => (RunnerPhase::Done, RunnerAction::Exit(Ok(()))),
            }
        },
    }
}

} // verus!
