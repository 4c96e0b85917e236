use vstd::prelude::*;
use crate::bus::BUS_SPEED_HZ;
use crate::error::BringUpError;
use crate::pins::{Role, CLOCK_PIN, DATA_PIN};
use crate::sensor::{SampleRate, BRING_UP_RATE};

verus! {

/// Number of hardware steps in a bring-up run, before the bundle is delivered.
pub const STEP_COUNT: u8 = 11;

/// What the caller is to do next with the hardware.
#[derive(Clone, Copy, PartialEq, Eq, Structural, Debug)]
pub enum Action {
    /// Claim the core peripherals; report whether they were still free.
    TakeCorePeripherals,
    /// Claim the device peripherals; report whether they were still free.
    TakeDevicePeripherals,
    /// Freeze the clock tree from the flash and clock-control registers.
    FreezeClocks,
    /// Build the LED bank from its GPIO port.
    BuildLeds,
    /// Give a port-B pin its alternate-function role on the sensor bus.
    MuxPin { pin: u8, role: Role },
    /// Build the sensor bus from the two muxed pins, at this speed.
    BuildBus { speed_hz: u32 },
    /// Wrap the bus in the sensor driver and run its handshake; report
    /// whether it succeeded.
    InitializeSensor,
    /// Write the sensor's sample rate; report whether it was accepted.
    SetSampleRate { rate: SampleRate },
    /// Put the sensor in continuous mode; report whether it was accepted.
    EnterContinuousMode,
    /// Build the delay provider from the system timer.
    BuildDelay,
    /// Hand the finished bundle to the caller.
    Deliver,
    /// Stop: bring-up failed for good.
    Halt { error: BringUpError },
}

/// The hardware step at a position of a run, in the one legal order.
pub open spec fn plan(i: nat) -> Action {
    if i == 0 {
        Action::TakeCorePeripherals
    } else if i == 1 {
        Action::TakeDevicePeripherals
    } else if i == 2 {
        Action::FreezeClocks
    } else if i == 3 {
        Action::BuildLeds
    } else if i == 4 {
        Action::MuxPin { pin: CLOCK_PIN, role: Role::BusClock }
    } else if i == 5 {
        Action::MuxPin { pin: DATA_PIN, role: Role::BusData }
    } else if i == 6 {
        Action::BuildBus { speed_hz: BUS_SPEED_HZ }
    } else if i == 7 {
        Action::InitializeSensor
    } else if i == 8 {
        Action::SetSampleRate { rate: BRING_UP_RATE }
    } else if i == 9 {
        Action::EnterContinuousMode
    } else {
        Action::BuildDelay
    }
}

/// The error that ends a run when the step at a position fails, if that
/// step can fail at all.
pub open spec fn failure(i: nat) -> Option<BringUpError> {
    if i == 0 || i == 1 {
        Some(BringUpError::ResourceAlreadyClaimed)
    } else if i == 7 {
        Some(BringUpError::SensorHandshakeFailure)
    } else if i == 8 {
        Some(BringUpError::SensorConfigurationFailure)
    } else if i == 9 {
        Some(BringUpError::ModeTransitionFailure)
    } else {
        None
    }
}

/// Where a bring-up run stands.
#[derive(Clone, Copy, PartialEq, Eq, Structural, Debug)]
pub enum BringUp {
    /// The step at this position is the next one to perform.
    Running { step: u8 },
    /// Every step succeeded: the bundle is ready to hand over.
    Ready,
    /// A step failed: the run is over, with no bundle.
    Halted { error: BringUpError },
}

/// What is to be done in a stage.
pub open spec fn action_of(s: BringUp) -> Action {
    match s {
        BringUp::Running { step } => plan(step as nat),
        BringUp::Ready => Action::Deliver,
        BringUp::Halted { error } => Action::Halt { error },
    }
}

/// The stage after the current step was performed, with `ok` telling
/// whether it succeeded. A step that cannot fail moves on either way;
/// a failed step halts with its error; a finished run stays as it is.
pub open spec fn step(s: BringUp, ok: bool) -> BringUp {
    match s {
        BringUp::Running { step } => {
            if !ok && failure(step as nat) is Some {
                BringUp::Halted { error: failure(step as nat)->0 }
            } else if step + 1 >= STEP_COUNT {
                BringUp::Ready
            } else {
                BringUp::Running { step: (step + 1) as u8 }
            }
        },
        _ => s,
    }
}

/// The stage reached from `s` after performing one step per outcome.
pub open spec fn run(s: BringUp, outcomes: Seq<bool>) -> BringUp
    decreases outcomes.len(),
{
    if outcomes.len() == 0 {
        s
    } else {
        run(step(s, outcomes[0]), outcomes.drop_first())
    }
}

/// The stages passed through from `s`, one per outcome, before each step.
pub open spec fn stages(s: BringUp, outcomes: Seq<bool>) -> Seq<BringUp>
    decreases outcomes.len(),
{
    if outcomes.len() == 0 {
        Seq::empty()
    } else {
        seq![s] + stages(step(s, outcomes[0]), outcomes.drop_first())
    }
}

/// The actions requested from `s`, one per outcome.
pub open spec fn trace(s: BringUp, outcomes: Seq<bool>) -> Seq<Action> {
    stages(s, outcomes).map_values(|t: BringUp| action_of(t))
}

/// Progress through a run: it only ever grows.
pub open spec fn rank(s: BringUp) -> nat {
    match s {
        BringUp::Running { step } => step as nat,
        BringUp::Ready => STEP_COUNT as nat,
        BringUp::Halted { .. } => STEP_COUNT as nat + 1,
    }
}

impl BringUp {
    /// A stage that a run can reach.
    pub open spec fn wf(&self) -> bool {
        self matches BringUp::Running { step } ==> step < STEP_COUNT
    }

    /// The first stage of a run.
    pub fn start() -> (r: BringUp)
        ensures
            r == (BringUp::Running { step: 0 }),
            r.wf(),
    {
        BringUp::Running { step: 0 }
    }

    /// What the caller is to do next.
    pub fn next_action(&self) -> (r: Action)
        requires
            self.wf(),
        ensures
            r == action_of(*self),
    {
        match self {
            BringUp::Running { step } => plan_action(*step),
            BringUp::Ready => Action::Deliver,
            BringUp::Halted { error } => Action::Halt { error: *error },
        }
    }

    /// The stage after the current action was performed; `ok` tells whether
    /// it succeeded.
    pub fn advance(self, ok: bool) -> (r: BringUp)
        requires
            self.wf(),
        ensures
            r == step(self, ok),
            r.wf(),
    {
        match self {
            BringUp::Running { step } => {
                if !ok {
                    match step_failure(step) {
                        Some(error) => {
                            return BringUp::Halted { error };
                        },
                        None => {},
                    }
                }
                if step + 1 >= STEP_COUNT {
                    BringUp::Ready
                } else {
                    BringUp::Running { step: step + 1 }
                }
            },
            _ => self,
        }
    }

    /// Whether every step succeeded.
    pub fn is_ready(&self) -> (r: bool)
        ensures
            r == (*self is Ready),
    {
        match self {
            BringUp::Ready => true,
            _ => false,
        }
    }

    /// The error that halted the run, if it halted.
    pub fn error(&self) -> (r: Option<BringUpError>)
        ensures
            r is Some <==> *self is Halted,
            r is Some ==> r->0 == self->error,
    {
        match self {
            BringUp::Halted { error } => Some(*error),
            _ => None,
        }
    }
}

/// The hardware step at a position of a run.
pub fn plan_action(i: u8) -> (r: Action)
    ensures
        r == plan(i as nat),
{
    if i == 0 {
        Action::TakeCorePeripherals
    } else if i == 1 {
        Action::TakeDevicePeripherals
    } else if i == 2 {
        Action::FreezeClocks
    } else if i == 3 {
        Action::BuildLeds
    } else if i == 4 {
        Action::MuxPin { pin: CLOCK_PIN, role: Role::BusClock }
    } else if i == 5 {
        Action::MuxPin { pin: DATA_PIN, role: Role::BusData }
    } else if i == 6 {
        Action::BuildBus { speed_hz: BUS_SPEED_HZ }
    } else if i == 7 {
        Action::InitializeSensor
    } else if i == 8 {
        Action::SetSampleRate { rate: BRING_UP_RATE }
    } else if i == 9 {
        Action::EnterContinuousMode
    } else {
        Action::BuildDelay
    }
}

/// The error that ends a run when the step at a position fails, if any.
pub fn step_failure(i: u8) -> (r: Option<BringUpError>)
    ensures
        r == failure(i as nat),
{
    if i == 0 || i == 1 {
        Some(BringUpError::ResourceAlreadyClaimed)
    } else if i == 7 {
        Some(BringUpError::SensorHandshakeFailure)
    } else if i == 8 {
        Some(BringUpError::SensorConfigurationFailure)
    } else if i == 9 {
        Some(BringUpError::ModeTransitionFailure)
    } else {
        None
    }
}

proof fn lemma_stages_len(s: BringUp, outcomes: Seq<bool>)
    ensures
        stages(s, outcomes).len() == outcomes.len(),
    decreases outcomes.len(),
{
    if outcomes.len() > 0 {
        lemma_stages_len(step(s, outcomes[0]), outcomes.drop_first());
    }
}

/// Once a run is over, further outcomes change nothing.
proof fn lemma_finished_stays(s: BringUp, outcomes: Seq<bool>)
    requires
        !(s is Running),
    ensures
        run(s, outcomes) == s,
        forall|m: int| 0 <= m < outcomes.len() ==> #[trigger] stages(s, outcomes)[m] == s,
    decreases outcomes.len(),
{
    lemma_stages_len(s, outcomes);
    if outcomes.len() > 0 {
        lemma_finished_stays(s, outcomes.drop_first());
        assert forall|m: int| 0 <= m < outcomes.len() implies #[trigger] stages(s, outcomes)[m] == s by {
            if m > 0 {
                assert(stages(s, outcomes)[m] == stages(s, outcomes.drop_first())[m - 1]);
            }
        }
    }
}

proof fn lemma_rank_from_first(s: BringUp, outcomes: Seq<bool>, l: int)
    requires
        s.wf(),
        0 <= l < outcomes.len(),
    ensures
        rank(s) <= rank(stages(s, outcomes)[l]),
        l > 0 && s is Running ==> rank(s) < rank(stages(s, outcomes)[l]),
        stages(s, outcomes)[l].wf(),
    decreases outcomes.len(),
{
    lemma_stages_len(s, outcomes);
    if l > 0 {
        let t = step(s, outcomes[0]);
        assert(stages(s, outcomes)[l] == stages(t, outcomes.drop_first())[l - 1]);
        lemma_rank_from_first(t, outcomes.drop_first(), l - 1);
    }
}

proof fn lemma_rank_grows(s: BringUp, outcomes: Seq<bool>, k: int, l: int)
    requires
        s.wf(),
        0 <= k < l < outcomes.len(),
        stages(s, outcomes)[k] is Running,
    ensures
        rank(stages(s, outcomes)[k]) < rank(stages(s, outcomes)[l]),
    decreases k,
{
    lemma_stages_len(s, outcomes);
    if k == 0 {
        lemma_rank_from_first(s, outcomes, l);
    } else {
        let t = step(s, outcomes[0]);
        assert(stages(s, outcomes)[k] == stages(t, outcomes.drop_first())[k - 1]);
        assert(stages(s, outcomes)[l] == stages(t, outcomes.drop_first())[l - 1]);
        lemma_rank_grows(t, outcomes.drop_first(), k - 1, l - 1);
    }
}

/// No hardware step is ever requested twice in a run: the same request at
/// two points of a run can only be the final hand-over or the halt.
pub proof fn lemma_no_step_repeated(s: BringUp, outcomes: Seq<bool>, i: int, j: int)
    requires
        s.wf(),
        0 <= i < j < outcomes.len(),
        trace(s, outcomes)[i] == trace(s, outcomes)[j],
    ensures
        trace(s, outcomes)[i] is Deliver || trace(s, outcomes)[i] is Halt,
{
    lemma_stages_len(s, outcomes);
    let si = stages(s, outcomes)[i];
    let sj = stages(s, outcomes)[j];
    assert(trace(s, outcomes)[i] == action_of(si));
    assert(trace(s, outcomes)[j] == action_of(sj));
    if si is Running {
        lemma_rank_grows(s, outcomes, i, j);
        lemma_rank_from_first(s, outcomes, i);
        lemma_rank_from_first(s, outcomes, j);
    }
}

/// The peripherals are claimed at most once per run: each claim is requested
/// at one point of the run at most, so no handle is ever taken twice.
pub proof fn lemma_peripherals_claimed_once(outcomes: Seq<bool>, i: int, j: int)
    requires
        0 <= i < j < outcomes.len(),
    ensures
        !(trace(BringUp::Running { step: 0 }, outcomes)[i] is TakeCorePeripherals
            && trace(BringUp::Running { step: 0 }, outcomes)[j] is TakeCorePeripherals),
        !(trace(BringUp::Running { step: 0 }, outcomes)[i] is TakeDevicePeripherals
            && trace(BringUp::Running { step: 0 }, outcomes)[j] is TakeDevicePeripherals),
{
    let s = BringUp::Running { step: 0 };
    lemma_stages_len(s, outcomes);
    if trace(s, outcomes)[i] is TakeCorePeripherals && trace(s, outcomes)[j] is TakeCorePeripherals {
        lemma_no_step_repeated(s, outcomes, i, j);
    }
    if trace(s, outcomes)[i] is TakeDevicePeripherals && trace(s, outcomes)[j] is TakeDevicePeripherals {
        lemma_no_step_repeated(s, outcomes, i, j);
    }
}

/// A halted run stays halted with its error, and from then on only the halt
/// is requested: no bundle is ever handed over.
pub proof fn lemma_halt_is_final(error: BringUpError, outcomes: Seq<bool>)
    ensures
        run(BringUp::Halted { error }, outcomes) == (BringUp::Halted { error }),
        forall|m: int| 0 <= m < outcomes.len()
            ==> #[trigger] trace(BringUp::Halted { error }, outcomes)[m] == (Action::Halt { error }),
{
    let s = BringUp::Halted { error };
    lemma_finished_stays(s, outcomes);
    lemma_stages_len(s, outcomes);
    assert forall|m: int| 0 <= m < outcomes.len()
        implies #[trigger] trace(s, outcomes)[m] == (Action::Halt { error }) by {
        assert(stages(s, outcomes)[m] == s);
    }
}

/// Running the first `k` outcomes, then the rest, is running them all; the
/// stages passed are those of the first part followed by those of the rest.
proof fn lemma_run_split(s: BringUp, outcomes: Seq<bool>, k: int)
    requires
        0 <= k <= outcomes.len(),
    ensures
        run(s, outcomes) == run(run(s, outcomes.take(k)), outcomes.skip(k)),
        stages(s, outcomes) == stages(s, outcomes.take(k)) + stages(run(s, outcomes.take(k)), outcomes.skip(k)),
    decreases k,
{
    if k > 0 {
        let t = step(s, outcomes[0]);
        let rest = outcomes.drop_first();
        lemma_run_split(t, rest, k - 1);
        assert(outcomes.take(k).drop_first() =~= rest.take(k - 1));
        assert(outcomes.take(k)[0] == outcomes[0]);
        assert(outcomes.skip(k) =~= rest.skip(k - 1));
        assert(stages(s, outcomes) =~= stages(s, outcomes.take(k)) + stages(
            run(s, outcomes.take(k)),
            outcomes.skip(k),
        ));
    } else {
        assert(outcomes.skip(0) =~= outcomes);
        assert(stages(s, outcomes.take(0)) =~= Seq::<BringUp>::empty());
        assert(stages(s, outcomes) =~= stages(s, outcomes.take(0)) + stages(s, outcomes));
    }
}

/// From step `i`, a run of successes passes step after step in order.
proof fn lemma_successes(i: nat, outcomes: Seq<bool>)
    requires
        i < STEP_COUNT,
        i + outcomes.len() <= STEP_COUNT,
        forall|m: int| 0 <= m < outcomes.len() ==> #[trigger] outcomes[m],
    ensures
        run(BringUp::Running { step: i as u8 }, outcomes) == (if i + outcomes.len() == STEP_COUNT {
            BringUp::Ready
        } else {
            BringUp::Running { step: (i + outcomes.len()) as u8 }
        }),
        forall|m: int| 0 <= m < outcomes.len()
            ==> #[trigger] stages(BringUp::Running { step: i as u8 }, outcomes)[m] == (BringUp::Running {
                step: (i + m) as u8,
            }),
    decreases outcomes.len(),
{
    let s = BringUp::Running { step: i as u8 };
    lemma_stages_len(s, outcomes);
    if outcomes.len() > 0 {
        let rest = outcomes.drop_first();
        assert(outcomes[0]);
        assert forall|m: int| 0 <= m < rest.len() implies #[trigger] rest[m] by {
            assert(rest[m] == outcomes[m + 1]);
        }
        if i + 1 < STEP_COUNT {
            assert(step(s, outcomes[0]) == (BringUp::Running { step: (i + 1) as u8 }));
            lemma_successes(i + 1, rest);
            assert forall|m: int| 0 <= m < outcomes.len()
                implies #[trigger] stages(s, outcomes)[m] == (BringUp::Running { step: (i + m) as u8 }) by {
                if m > 0 {
                    assert(stages(s, outcomes)[m] == stages(step(s, outcomes[0]), rest)[m - 1]);
                }
            }
        } else {
            assert(rest.len() == 0);
            assert(step(s, outcomes[0]) == BringUp::Ready);
            assert(run(s, outcomes) == run(BringUp::Ready, rest));
            assert(stages(s, outcomes)[0] == s);
        }
    }
}

/// When every step succeeds, a run from the start requests the steps in the
/// one legal order, each once, and ends ready to hand the bundle over.
pub proof fn lemma_all_steps_succeed(outcomes: Seq<bool>)
    requires
        outcomes.len() == STEP_COUNT,
        forall|m: int| 0 <= m < outcomes.len() ==> #[trigger] outcomes[m],
    ensures
        run(BringUp::Running { step: 0 }, outcomes) == BringUp::Ready,
        action_of(run(BringUp::Running { step: 0 }, outcomes)) == Action::Deliver,
        trace(BringUp::Running { step: 0 }, outcomes) == Seq::new(STEP_COUNT as nat, |m: int| plan(m as nat)),
{
    let s = BringUp::Running { step: 0 };
    lemma_successes(0, outcomes);
    lemma_stages_len(s, outcomes);
    assert forall|m: int| 0 <= m < STEP_COUNT implies #[trigger] trace(s, outcomes)[m] == plan(m as nat) by {
        assert(stages(s, outcomes)[m] == (BringUp::Running { step: m as u8 }));
    }
    assert(trace(s, outcomes) =~= Seq::new(STEP_COUNT as nat, |m: int| plan(m as nat)));
}

/// When the steps before step `k` succeed and step `k`, one that can fail,
/// fails, the run halts with that step's error whatever comes after, and no
/// bundle is handed over at any point.
pub proof fn lemma_failed_step_halts(outcomes: Seq<bool>, k: int)
    requires
        0 <= k < outcomes.len(),
        k < STEP_COUNT,
        forall|m: int| 0 <= m < k ==> #[trigger] outcomes[m],
        !outcomes[k],
        failure(k as nat) is Some,
    ensures
        run(BringUp::Running { step: 0 }, outcomes) == (BringUp::Halted { error: failure(k as nat)->0 }),
        forall|m: int| 0 <= m < outcomes.len()
            ==> #[trigger] trace(BringUp::Running { step: 0 }, outcomes)[m] != Action::Deliver,
{
    let s = BringUp::Running { step: 0 };
    let e = failure(k as nat)->0;
    let h = BringUp::Halted { error: e };
    let front = outcomes.take(k);
    let back = outcomes.skip(k);
    assert forall|m: int| 0 <= m < front.len() implies #[trigger] front[m] by {
        assert(front[m] == outcomes[m]);
    }
    lemma_successes(0, front);
    lemma_run_split(s, outcomes, k);
    let sk = BringUp::Running { step: k as u8 };
    assert(run(s, front) == sk);
    assert(back[0] == outcomes[k]);
    assert(step(sk, back[0]) == h);
    lemma_finished_stays(h, back.drop_first());
    lemma_stages_len(s, outcomes);
    lemma_stages_len(s, front);
    lemma_stages_len(sk, back);
    lemma_stages_len(h, back.drop_first());
    assert forall|m: int| 0 <= m < outcomes.len()
        implies #[trigger] trace(s, outcomes)[m] != Action::Deliver by {
        if m < k {
            assert(stages(s, outcomes)[m] == stages(s, front)[m]);
            assert(stages(s, front)[m] == (BringUp::Running { step: m as u8 }));
        } else if m == k {
            assert(stages(s, outcomes)[m] == stages(sk, back)[0]);
        } else {
            assert(stages(s, outcomes)[m] == stages(sk, back)[m - k]);
            assert(stages(sk, back)[m - k] == stages(h, back.drop_first())[m - k - 1]);
        }
    }
}

} // verus!
