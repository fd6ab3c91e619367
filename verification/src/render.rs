//! Render-loop state machine: owns exactly one live effect, drains the
//! command queue, and paces frame production against a fixed budget.
//!
//! The loop has two levels. While idle, the engine polls the queue; when a
//! command is present it dequeues exactly one, applies it, and starts
//! producing. While producing, each step yields one frame; after the
//! frame is transmitted and the pacing sleep has passed, a preemption
//! probe checks the queue and, if a command is pending, breaks back to
//! the idle level — so configuration changes are never applied mid-frame,
//! and any effect is interrupted within one frame period of a command's
//! arrival. All waiting (the idle poll and the pacing sleep) belongs to
//! the caller that drives the machine; the engine itself never blocks.

use vstd::prelude::*;
use crate::effect::EffectInstance;
use crate::effect::Effect;
use crate::effect::LedEffectCommand;
use crate::effect::Params;
use crate::effect::Strip;
use crate::effect::STRIP_MAX;
use crate::effect::params_wf;
use crate::effect::command_wf;
use crate::effect::instance_wf;
use crate::effect::instance_fresh;
use crate::effect::instance_configure_rel;
use crate::effect::instance_next_rel;
use crate::effect::spec_kind_of;
use crate::effect::spec_instance_len;
use crate::effect::spec_default_params;
use crate::queue::CommandQueue;
use crate::fixed::spec_clamp;

verus! {

/// Frame budget in milliseconds: just below 24 frames per second, low
/// enough that the eye sees continuous motion, with headroom for
/// expensive effects.
pub const FRAME_BUDGET_MS: u64 = 42;

/// The smallest pacing sleep: an overrunning frame still yields for this
/// long.
pub const FRAME_SLEEP_MIN_MS: u64 = 1;

/// How long to sleep after a frame whose production and transmission took
/// `elapsed_ms`: the remainder of the frame budget, at least the minimum
/// sleep and at most the whole budget. `overrun` reports a frame that
/// went over budget, which the caller logs as a warning; the frame is
/// still transmitted, never cancelled.
pub struct SleepPlan {
    /// Milliseconds to sleep before the next frame.
    pub sleep_ms: u64,
    /// Whether the frame exceeded the budget.
    pub overrun: bool,
}

/// Compute the pacing sleep for a frame that took `elapsed_ms`.
pub fn plan_sleep(elapsed_ms: u64) -> (r: SleepPlan)
    ensures
        r.overrun <==> elapsed_ms > FRAME_BUDGET_MS,
        r.sleep_ms as int == spec_clamp(
            FRAME_BUDGET_MS as int - elapsed_ms as int,
            FRAME_SLEEP_MIN_MS as int,
            FRAME_BUDGET_MS as int,
        ),
{
    if elapsed_ms >= FRAME_BUDGET_MS - FRAME_SLEEP_MIN_MS {
        SleepPlan { sleep_ms: FRAME_SLEEP_MIN_MS, overrun: elapsed_ms > FRAME_BUDGET_MS }
    } else {
        SleepPlan { sleep_ms: FRAME_BUDGET_MS - elapsed_ms, overrun: false }
    }
}

/// What one render step did: the caller performs the matching outside
/// work.
#[derive(Debug)]
pub enum RenderAction {
    /// No command was pending and nothing is producing: poll again after
    /// a short idle wait.
    Idle,
    /// One command was dequeued and applied; frame production (re)starts
    /// on the next step.
    CommandApplied(LedEffectCommand),
    /// One frame was produced: transmit it atomically, sleep off the
    /// plan, then run the preemption probe.
    Frame(Strip),
    /// The live effect's sequence ended (the solid effect after its one
    /// frame): back to waiting for a command, the strip holds its last
    /// frame.
    Exhausted,
}

/// How one render step transforms the engine and the queue, and what it
/// asks the caller to do. In the producing level the queue is untouched
/// and the step yields one frame or falls back to waiting; in the
/// waiting level the step applies exactly the oldest pending command, or
/// reports an idle poll. A step never applies a command and produces a
/// frame at once.
pub open spec fn render_step_rel(
    pre: RenderEngine,
    post: RenderEngine,
    qpre: Seq<LedEffectCommand>,
    qpost: Seq<LedEffectCommand>,
    r: RenderAction,
) -> bool {
    if pre.producing {
        &&& qpost == qpre
        &&& post.params == pre.params
        &&& match r {
            RenderAction::Frame(strip) => {
                &&& post.producing
                &&& instance_next_rel(pre.effect, post.effect, Some(strip))
            },
            RenderAction::Exhausted => {
                &&& !post.producing
                &&& instance_next_rel(pre.effect, post.effect, None)
            },
            _ => false,
        }
    } else {
        match r {
            RenderAction::Idle => {
                &&& qpre.len() == 0
                &&& qpost == qpre
                &&& post == pre
            },
            RenderAction::CommandApplied(cmd) => {
                &&& qpre.len() > 0
                &&& cmd == qpre[0]
                &&& qpost == qpre.drop_first()
                &&& apply_rel(pre, post, cmd)
                &&& post.producing
            },
            _ => false,
        }
    }
}

/// The render engine: the live effect, the last-known parameters, and
/// whether the inner (frame-producing) level is active.
pub struct RenderEngine {
    /// The one live effect instance.
    pub effect: EffectInstance,
    /// The parameters most recently applied; a freshly selected effect is
    /// configured with these.
    pub params: Params,
    /// Whether the engine is in the frame-producing level.
    pub producing: bool,
    /// Number of pixels on the strip.
    pub n: usize,
}

/// A well-formed engine: a well-formed live effect over the engine's
/// strip length, and well-formed parameters.
pub open spec fn engine_wf(e: RenderEngine) -> bool {
    &&& 1 <= e.n <= STRIP_MAX
    &&& instance_wf(e.effect)
    &&& spec_instance_len(e.effect) == e.n
    &&& params_wf(e.params)
}

/// How applying one command transforms the engine. `ChangeEffect`
/// replaces the live effect with a fresh instance of the requested kind,
/// immediately configured with the last-known parameters; the old
/// instance is discarded. `ConfigureParams` stores the record as
/// last-known and reconfigures the live effect in place.
pub open spec fn apply_rel(pre: RenderEngine, post: RenderEngine, cmd: LedEffectCommand) -> bool {
    &&& post.n == pre.n
    &&& match cmd {
        LedEffectCommand::ChangeEffect(kind) => {
            &&& post.params == pre.params
            &&& spec_kind_of(post.effect) == kind
            &&& exists|mid: EffectInstance|
                instance_fresh(mid, kind, pre.n) && #[trigger] instance_configure_rel(
                    mid,
                    post.effect,
                    pre.params,
                )
        },
        LedEffectCommand::ConfigureParams(p) => {
            &&& post.params == p
            &&& spec_kind_of(post.effect) == spec_kind_of(pre.effect)
            &&& instance_configure_rel(pre.effect, post.effect, p)
        },
    }
}

impl RenderEngine {
    /// A fresh engine over `n` pixels: a default (per-pixel oscillator)
    /// effect, default parameters, waiting for its first command.
    pub fn new(n: usize) -> (r: RenderEngine)
        requires
            1 <= n <= STRIP_MAX,
        ensures
            engine_wf(r),
            !r.producing,
            r.n == n,
            r.params == spec_default_params(),
            instance_fresh(r.effect, Effect::Polyrhythm, n),
    {
        RenderEngine {
            effect: EffectInstance::new(Effect::Polyrhythm, n),
            params: Params::default(),
            producing: false,
            n,
        }
    }

    /// Apply one dequeued command to the engine.
    fn apply_command(&mut self, cmd: LedEffectCommand)
        requires
            engine_wf(*old(self)),
            command_wf(cmd),
        ensures
            engine_wf(*final(self)),
            apply_rel(*old(self), *final(self), cmd),
            final(self).producing == old(self).producing,
    {
        match cmd {
            LedEffectCommand::ChangeEffect(kind) => {
                self.effect = EffectInstance::new(kind, self.n);
                let params: Params = self.params;
                self.effect.configure(params);
            },
            LedEffectCommand::ConfigureParams(params) => {
                self.params = params;
                self.effect.configure(params);
            },
        }
    }

    /// One step of the render loop.
    ///
    /// Waiting level (`!producing`): dequeue at most one command; apply
    /// it and enter the producing level, or report `Idle` on an empty
    /// queue. Producing level: advance the live effect by one frame, or
    /// fall back to the waiting level when its sequence ends. A step
    /// never applies a command and produces a frame at once, so
    /// configuration changes never land mid-frame.
    pub fn render_step(&mut self, queue: &mut CommandQueue) -> (r: RenderAction)
        requires
            engine_wf(*old(self)),
            old(queue).wf(),
        ensures
            engine_wf(*final(self)),
            final(queue).wf(),
            final(queue).capacity() == old(queue).capacity(),
            final(self).n == old(self).n,
            render_step_rel(
                *old(self),
                *final(self),
                old(queue).contents(),
                final(queue).contents(),
                r,
            ),
    {
        if self.producing {
            let frame: Option<Strip> = self.effect.next();
            match frame {
                Some(strip) => RenderAction::Frame(strip),
                None => {
                    self.producing = false;
                    RenderAction::Exhausted
                },
            }
        } else {
            match queue.dequeue() {
                None => RenderAction::Idle,
                Some(cmd) => {
                    self.apply_command(cmd);
                    self.producing = true;
                    RenderAction::CommandApplied(cmd)
                },
            }
        }
    }

    /// The preemption probe, run after a frame's pacing sleep: if a
    /// command is pending, leave the producing level so the very next
    /// step applies it — no further frame of the old configuration is
    /// produced once a command is seen waiting.
    pub fn preempt_check(&mut self, command_pending: bool)
        requires
            engine_wf(*old(self)),
        ensures
            engine_wf(*final(self)),
            *final(self) == (RenderEngine {
                producing: old(self).producing && !command_pending,
                ..*old(self)
            }),
    {
        if command_pending {
            self.producing = false;
        }
    }
}

} // verus!
