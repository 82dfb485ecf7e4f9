use qwen_rust::train::{lr_phase, LrPhase, StepPlan, TrainSchedule};

fn schedule() -> TrainSchedule {
    TrainSchedule { max_steps: 2000, eval_every: 500, eval_steps: 100, gradient_accumulation_steps: 4 }
}

#[test]
fn lr_phase_warmup_then_decay() {
    assert_eq!(lr_phase(0, 100, 2000), LrPhase::Warmup { done: 0, total: 100 });
    assert_eq!(lr_phase(99, 100, 2000), LrPhase::Warmup { done: 99, total: 100 });
    assert_eq!(lr_phase(100, 100, 2000), LrPhase::Decay { done: 0, total: 1900 });
    assert_eq!(lr_phase(2000, 100, 2000), LrPhase::Decay { done: 1900, total: 1900 });
    // No warmup at all.
    assert_eq!(lr_phase(0, 0, 10), LrPhase::Decay { done: 0, total: 10 });
}

#[test]
fn warmup_is_a_twentieth_of_the_run() {
    assert_eq!(schedule().warmup_steps(), 100);
    let short = TrainSchedule { max_steps: 19, ..schedule() };
    assert_eq!(short.warmup_steps(), 0);
}

#[test]
fn plans_of_steps() {
    let s = schedule();
    assert_eq!(
        s.plan(0, 3),
        StepPlan { batch: 0, lr: LrPhase::Warmup { done: 0, total: 100 }, log: true, evaluate: false }
    );
    assert_eq!(
        s.plan(7, 3),
        StepPlan { batch: 1, lr: LrPhase::Warmup { done: 7, total: 100 }, log: false, evaluate: false }
    );
    assert_eq!(
        s.plan(500, 3),
        StepPlan { batch: 2, lr: LrPhase::Decay { done: 400, total: 1900 }, log: true, evaluate: true }
    );
    assert_eq!(s.plan(1000, 3).evaluate, true);
    assert_eq!(s.plan(1001, 3).evaluate, false);
}

#[test]
fn evaluation_uses_at_most_eval_steps_batches() {
    let s = schedule();
    assert_eq!(s.eval_batches(1000), 100);
    assert_eq!(s.eval_batches(30), 30);
    assert_eq!(s.eval_batches(0), 0);
}
