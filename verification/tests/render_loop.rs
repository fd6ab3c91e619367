//! Render-loop tests: command application, preemption within one frame
//! period, the solid effect's exhaustion, and the frame-budget pacing.

use nuled::color::RGB;
use nuled::effect::{Effect, LedEffectCommand, Params};
use nuled::fixed::SCALE;
use nuled::queue::CommandQueue;
use nuled::render::{plan_sleep, RenderAction, RenderEngine};

#[test]
fn change_effect_then_preempt_with_solid() {
    let mut engine = RenderEngine::new(4);
    let mut queue = CommandQueue::new(8);
    assert!(queue.enqueue(LedEffectCommand::ChangeEffect(Effect::Rainbow)));

    // the waiting engine applies the pending command, producing nothing yet
    match engine.render_step(&mut queue) {
        RenderAction::CommandApplied(LedEffectCommand::ChangeEffect(e)) => {
            assert_eq!(e, Effect::Rainbow)
        }
        other => panic!("expected the command to be applied, got {other:?}"),
    }

    // rainbow frames flow while no command is pending
    for _ in 0..3 {
        match engine.render_step(&mut queue) {
            RenderAction::Frame(strip) => assert_eq!(strip.pixels.len(), 4),
            other => panic!("expected a frame, got {other:?}"),
        }
        engine.preempt_check(queue.has_pending());
    }

    // a solid command arrives; the probe after the running frame's sleep
    // sees it, so the very next step applies it — no further rainbow frame
    assert!(queue.enqueue(LedEffectCommand::ChangeEffect(Effect::Solid)));
    engine.preempt_check(queue.has_pending());
    match engine.render_step(&mut queue) {
        RenderAction::CommandApplied(LedEffectCommand::ChangeEffect(e)) => {
            assert_eq!(e, Effect::Solid)
        }
        other => panic!("expected the solid command, got {other:?}"),
    }

    // the one solid frame shows color1 of the last-known parameters
    match engine.render_step(&mut queue) {
        RenderAction::Frame(strip) => {
            assert_eq!(strip.pixels.len(), 4);
            for px in &strip.pixels {
                assert_eq!(*px, RGB { r: 0, g: 0, b: 0 });
            }
        }
        other => panic!("expected the solid frame, got {other:?}"),
    }
    engine.preempt_check(queue.has_pending());

    // then the sequence ends and the engine idles: the strip holds its
    // last transmitted frame until a new command arrives
    assert!(matches!(engine.render_step(&mut queue), RenderAction::Exhausted));
    assert!(matches!(engine.render_step(&mut queue), RenderAction::Idle));
}

#[test]
fn configure_params_updates_last_known() {
    let mut engine = RenderEngine::new(3);
    let mut queue = CommandQueue::new(8);
    let mut p = Params::default();
    p.color1 = RGB {
        r: 255 * SCALE,
        g: 0,
        b: 0,
    };
    assert!(queue.enqueue(LedEffectCommand::ConfigureParams(p)));
    assert!(queue.enqueue(LedEffectCommand::ChangeEffect(Effect::Solid)));

    assert!(matches!(
        engine.render_step(&mut queue),
        RenderAction::CommandApplied(LedEffectCommand::ConfigureParams(_))
    ));
    // one frame of the configured effect runs before the next command
    assert!(matches!(engine.render_step(&mut queue), RenderAction::Frame(_)));
    engine.preempt_check(queue.has_pending());
    assert!(matches!(
        engine.render_step(&mut queue),
        RenderAction::CommandApplied(LedEffectCommand::ChangeEffect(Effect::Solid))
    ));

    // the freshly selected solid effect was configured with the
    // last-known parameters: its one frame is red
    match engine.render_step(&mut queue) {
        RenderAction::Frame(strip) => {
            for px in &strip.pixels {
                assert_eq!(
                    *px,
                    RGB {
                        r: 255 * SCALE,
                        g: 0,
                        b: 0
                    }
                );
            }
        }
        other => panic!("expected the red solid frame, got {other:?}"),
    }
}

#[test]
fn sleep_clamps_and_reports_overrun() {
    // a frame that took 60 ms against the ~42 ms budget: the sleep
    // clamps to the minimum positive value and the overrun is reported
    let plan = plan_sleep(60);
    assert_eq!(plan.sleep_ms, 1);
    assert!(plan.overrun);

    // a fast frame sleeps off the remainder of the budget
    let plan = plan_sleep(10);
    assert_eq!(plan.sleep_ms, 32);
    assert!(!plan.overrun);

    // an instant frame sleeps the whole budget
    let plan = plan_sleep(0);
    assert_eq!(plan.sleep_ms, 42);
    assert!(!plan.overrun);

    // exactly on budget: no overrun, minimum sleep
    let plan = plan_sleep(42);
    assert_eq!(plan.sleep_ms, 1);
    assert!(!plan.overrun);
}

#[test]
fn idle_engine_polls_empty_queue() {
    let mut engine = RenderEngine::new(2);
    let mut queue = CommandQueue::new(4);
    for _ in 0..3 {
        assert!(matches!(engine.render_step(&mut queue), RenderAction::Idle));
    }
}
