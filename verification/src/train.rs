//! The integer side of training: the phase of the learning-rate schedule,
//! which batch each step uses, and when to log and to evaluate.
use vstd::prelude::*;

verus! {

/// Where a step stands in the learning-rate schedule: in linear warmup, at
/// `done / total` of the way to the peak rate; or in cosine decay, at
/// `done / total` of the way through the decay.
#[derive(PartialEq, Eq, Structural, Clone, Copy, Debug)]
pub enum LrPhase {
    Warmup { done: usize, total: usize },
    Decay { done: usize, total: usize },
}

/// The phase of `step` in a schedule that warms up for `warmup_steps` steps
/// and then decays until `max_steps`.  A step at or after the warmup needs
/// `warmup_steps <= max_steps`.
pub fn lr_phase(step: usize, warmup_steps: usize, max_steps: usize) -> (p: LrPhase)
    requires
        step >= warmup_steps ==> warmup_steps <= max_steps,
    ensures
        step < warmup_steps ==> p == (LrPhase::Warmup { done: step, total: warmup_steps }),
        step >= warmup_steps ==> p == (LrPhase::Decay {
            done: (step - warmup_steps) as usize,
            total: (max_steps - warmup_steps) as usize,
        }),
{
    if step < warmup_steps {
        LrPhase::Warmup { done: step, total: warmup_steps }
    } else {
        LrPhase::Decay { done: step - warmup_steps, total: max_steps - warmup_steps }
    }
}

/// What the training loop does at one step.
#[derive(PartialEq, Eq, Structural, Clone, Copy, Debug)]
pub struct StepPlan {
    /// Index of the training batch to use.
    pub batch: usize,
    /// Phase of the learning-rate schedule.
    pub lr: LrPhase,
    /// Whether to report the training loss.
    pub log: bool,
    /// Whether to evaluate on the validation set.
    pub evaluate: bool,
}

/// The step counts of a training run.
#[derive(PartialEq, Eq, Structural, Clone, Copy, Debug)]
pub struct TrainSchedule {
    /// Number of optimiser steps.
    pub max_steps: usize,
    /// Evaluate every this many steps (never at step 0).
    pub eval_every: usize,
    /// Most validation batches per evaluation.
    pub eval_steps: usize,
    /// Number of steps over which gradients are accumulated.
    pub gradient_accumulation_steps: usize,
}

/// Report the training loss every this many steps.
pub const LOG_EVERY: usize = 10;

impl TrainSchedule {
    /// The number of warmup steps: one twentieth of the run, rounded down.
    pub open spec fn spec_warmup_steps(&self) -> int {
        self.max_steps as int / 20
    }

    /// The plan of step `step` of a run over `n_batches` training batches.
    pub open spec fn spec_plan(&self, step: int, n_batches: int) -> StepPlan {
        StepPlan {
            batch: (step % n_batches) as usize,
            lr: if step < self.spec_warmup_steps() {
                LrPhase::Warmup { done: step as usize, total: self.spec_warmup_steps() as usize }
            } else {
                LrPhase::Decay {
                    done: (step - self.spec_warmup_steps()) as usize,
                    total: (self.max_steps - self.spec_warmup_steps()) as usize,
                }
            },
            log: step % (LOG_EVERY as int) == 0,
            evaluate: step % (self.eval_every as int) == 0 && step > 0,
        }
    }

    /// The number of warmup steps.
    pub fn warmup_steps(&self) -> (w: usize)
        ensures
            w == self.spec_warmup_steps(),
            w == self.max_steps / 20,
            w <= self.max_steps,
    {
        self.max_steps / 20
    }

    /// The plan of step `step` of a run over `n_batches` training batches:
    /// the batches are used in turn, round and round.  There must be at
    /// least one batch and `eval_every` must not be 0.
    pub fn plan(&self, step: usize, n_batches: usize) -> (p: StepPlan)
        requires
            n_batches > 0,
            self.eval_every > 0,
        ensures
            p == self.spec_plan(step as int, n_batches as int),
            p.batch == step % n_batches,
            p.log == (step % 10 == 0),
            p.evaluate == (step > 0 && step % self.eval_every == 0),
            step < self.max_steps / 20 ==> p.lr == (LrPhase::Warmup {
                done: step,
                total: self.max_steps / 20,
            }),
            step >= self.max_steps / 20 ==> p.lr == (LrPhase::Decay {
                done: (step - self.max_steps / 20) as usize,
                total: (self.max_steps - self.max_steps / 20) as usize,
            }),
    {
        let warmup = self.warmup_steps();
        StepPlan {
            batch: step % n_batches,
            lr: lr_phase(step, warmup, self.max_steps),
            log: step % LOG_EVERY == 0,
            evaluate: step % self.eval_every == 0 && step > 0,
        }
    }

    /// The number of validation batches one evaluation uses: `eval_steps`,
    /// or all of them when there are fewer.
    pub fn eval_batches(&self, n_val: usize) -> (n: usize)
        ensures
            n == if self.eval_steps <= n_val {
                self.eval_steps
            } else {
                n_val
            },
    {
        if self.eval_steps <= n_val {
            self.eval_steps
        } else {
            n_val
        }
    }
}

/// The schedule spelled out: warmup lasts `max_steps / 20` steps (rounded
/// down), so step `s` is in warmup exactly when `s < max_steps / 20`; the
/// batch of step `s` is `s % n_batches`; the loss is reported exactly at
/// the multiples of 10; evaluation happens exactly at the positive
/// multiples of `eval_every`.
pub proof fn lemma_schedule_spelled_out(sched: TrainSchedule, step: usize, n_batches: usize)
    requires
        n_batches > 0,
        sched.eval_every > 0,
    ensures
        sched.spec_warmup_steps() == sched.max_steps / 20,
        ({
            let p = sched.spec_plan(step as int, n_batches as int);
            &&& p.batch == step % n_batches
            &&& p.log == (step % 10 == 0)
            &&& p.evaluate == (step > 0 && step % sched.eval_every == 0)
            &&& (p.lr is Warmup) == (step < sched.max_steps / 20)
            &&& step < sched.max_steps / 20 ==> p.lr == (LrPhase::Warmup {
                done: step,
                total: sched.max_steps / 20,
            })
            &&& step >= sched.max_steps / 20 ==> p.lr == (LrPhase::Decay {
                done: (step - sched.max_steps / 20) as usize,
                total: (sched.max_steps - sched.max_steps / 20) as usize,
            })
        }),
{
}

/// Every step uses an existing batch; steps `n_batches` apart use the same
/// batch; the first `n_batches` steps use the batches in order; no
/// evaluation happens at step 0.
pub proof fn lemma_plan_cycles_batches(sched: TrainSchedule, step: usize, n_batches: usize)
    requires
        n_batches > 0,
        sched.eval_every > 0,
    ensures
        sched.spec_plan(step as int, n_batches as int).batch < n_batches,
        sched.spec_plan((step + n_batches) as int, n_batches as int).batch == sched.spec_plan(
            step as int,
            n_batches as int,
        ).batch,
        step < n_batches ==> sched.spec_plan(step as int, n_batches as int).batch == step,
        !sched.spec_plan(0, n_batches as int).evaluate,
{
    let n = n_batches as int;
    let s = step as int;
    assert((s + n) % n == s % n) by (nonlinear_arith)
        requires
            n > 0,
            s >= 0,
    ;
    assert(0 <= s % n < n) by (nonlinear_arith)
        requires
            n > 0,
    ;
    assert(s < n ==> s % n == s) by (nonlinear_arith)
        requires
            n > 0,
            s >= 0,
    ;
}

/// The learning-rate schedule stays in its range for every step of the run:
/// during warmup the fraction `done / total` is below 1, and during decay
/// `done` never exceeds `total`.  Warmup takes the first twentieth of the
/// run.
pub proof fn lemma_lr_in_range(sched: TrainSchedule, step: usize, n_batches: usize)
    requires
        n_batches > 0,
        step <= sched.max_steps,
    ensures
        (step < sched.spec_warmup_steps()) <==> (sched.spec_plan(step as int, n_batches as int).lr is Warmup),
        match sched.spec_plan(step as int, n_batches as int).lr {
            LrPhase::Warmup { done, total } => done < total,
            LrPhase::Decay { done, total } => done <= total,
        },
{
}

} // verus!
