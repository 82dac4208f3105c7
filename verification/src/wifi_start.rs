//! Starting a WiFi configuration: everything is read from flash, and then the defaults of what was
//! missing are written, field by field.
use crate::flash::{Flash, FlashReply};
use crate::keys::MAX_SLOTS;
use crate::wifi_api::ConfigView;
use crate::wifi_boot::{
    default_task, fields_after, loaded_step, writes_default, DefaultField, LoadProgress,
    LoadStage, LoadTask, Missing,
};
use crate::wifi_config::{fresh_config, FlashBackedWifiConfig, WifiDefaults};
use crate::wifi_laws::{
    carried_out, fields_before, law_change_ends, law_default_task_effect, law_load_reads_flash,
    loading, started, with_defaults_from, writes_left,
};
use crate::wifi_task::{resumed, Progress, WifiTask};
use vstd::prelude::*;

verus! {

/// What a start waits for.
pub enum StartStep {
    /// The answer to a fetch.
    Fetch(LoadTask),
    /// The outcome of a write, for the default of `field`.
    Store { task: WifiTask, field: DefaultField, missing: Missing },
    /// Nothing: the configuration is ready.
    Ready,
}

/// What a start waited for.
pub enum StartOutcome {
    Fetched(FlashReply),
    /// Whether the write went through.
    Stored(bool),
}

impl StartStep {
    /// Whether the slot that is read or written is one of `n`.
    pub open spec fn in_range(self, n: int) -> bool {
        match self {
            StartStep::Fetch(task) => task.in_range(n),
            StartStep::Store { task, .. } => task.in_range(n),
            StartStep::Ready => true,
        }
    }

    /// Whether `outcome` is of the kind that the step waits for.
    pub open spec fn takes(self, outcome: StartOutcome) -> bool {
        match self {
            StartStep::Fetch(task) => outcome matches StartOutcome::Fetched(reply) && task.takes(
                reply,
            ),
            StartStep::Store { .. } => outcome is Stored,
            StartStep::Ready => true,
        }
    }
}

/// Whether `step` is the write of the first default that is called for, from that of `field` on,
/// or the end where none is.
pub open spec fn is_next_default(
    field: DefaultField,
    missing: Missing,
    defaults: WifiDefaults,
    step: StartStep,
) -> bool
    decreases fields_after(field),
{
    if !writes_default(field, missing, defaults, None) {
        step matches StartStep::Store { task, field: f, missing: m } && f == field && m == missing
            && writes_default(field, missing, defaults, Some(task))
    } else {
        match field.following() {
            Some(next) => is_next_default(next, missing, defaults, step),
            None => step is Ready,
        }
    }
}

/// Whether a start goes from `step` and the mirror `data` to `next` and the mirror `after`.
pub open spec fn starts_on(
    step: StartStep,
    data: ConfigView,
    outcome: StartOutcome,
    defaults: WifiDefaults,
    n: int,
    after: ConfigView,
    next: StartStep,
) -> bool {
    match (step, outcome) {
        (StartStep::Fetch(task), StartOutcome::Fetched(reply)) => {
            let (loaded, progress) = loaded_step(task, data, reply, n);
            after == loaded && match progress {
                LoadProgress::Fetch(task) => next == StartStep::Fetch(task),
                LoadProgress::Loaded(missing) => is_next_default(
                    DefaultField::ApEnabled,
                    missing,
                    defaults,
                    next,
                ),
            }
        },
        (StartStep::Store { task, field, missing }, StartOutcome::Stored(stored)) => {
            let (changed, progress) = resumed(task, data, stored, n);
            after == changed && match progress {
                Progress::Store(task) => next == (StartStep::Store { task, field, missing }),
                _ => match field.following() {
                    Some(f) => is_next_default(f, missing, defaults, next),
                    None => next is Ready,
                },
            }
        },
        _ => after == data && next == step,
    }
}

fn next_default(field: Option<DefaultField>, missing: Missing, defaults: &WifiDefaults) -> (step:
    StartStep)
    ensures
        match field {
            Some(f) => is_next_default(f, missing, *defaults, step),
            None => step is Ready,
        },
        step.in_range(0),
    decreases
            match field {
                Some(f) => fields_after(f) + 1,
                None => 0,
            },
{
    match field {
        Some(f) => match default_task(f, &missing, defaults) {
            Some(task) => StartStep::Store { task, field: f, missing },
            None => next_default(f.next(), missing, defaults),
        },
        None => StartStep::Ready,
    }
}

impl<const N: usize> FlashBackedWifiConfig<N> {
    /// Starts the configuration: the first thing to fetch.
    pub fn init(&self) -> (step: StartStep)
        ensures
            step == StartStep::Fetch(
                LoadTask {
                    stage: LoadStage::ApEnabled,
                    ap_enabled_missing: false,
                    sta_enabled_missing: false,
                    list_missing: false,
                },
            ),
            step.in_range(N as int),
            forall|flash: Flash, defaults: WifiDefaults| #[trigger]
                on_course(flash, defaults, N as int, step, flash, fresh_config(defaults)),
    {
        StartStep::Fetch(
            LoadTask {
                stage: LoadStage::ApEnabled,
                ap_enabled_missing: false,
                sta_enabled_missing: false,
                list_missing: false,
            },
        )
    }

    /// Goes on with a start after what `step` waited for.
    pub fn resume_init(
        &mut self,
        step: StartStep,
        outcome: StartOutcome,
        defaults: &WifiDefaults,
    ) -> (next: StartStep)
        requires
            old(self).wf(),
            step.in_range(N as int),
            step.takes(outcome),
        ensures
            starts_on(step, old(self)@, outcome, *defaults, N as int, final(self)@, next),
            final(self).wf(),
            next.in_range(N as int),
    {
        match (step, outcome) {
            (StartStep::Fetch(task), StartOutcome::Fetched(reply)) => {
                match self.resume_load(task, reply) {
                    LoadProgress::Fetch(task) => StartStep::Fetch(task),
                    LoadProgress::Loaded(missing) => next_default(
                        Some(DefaultField::first()),
                        missing,
                        defaults,
                    ),
                }
            },
            (StartStep::Store { task, field, missing }, StartOutcome::Stored(stored)) => {
                match self.resume(task, stored) {
                    Progress::Store(task) => StartStep::Store { task, field, missing },
                    _ => next_default(field.next(), missing, defaults),
                }
            },
            (step, _) => step,
        }
    }
}

/// Whether a start that began with `flash0`, and whose writes go through, may stand at `step` with
/// this flash and this mirror: what is left to do ends where [`started`] says.
pub open spec fn on_course(
    flash0: Flash,
    defaults: WifiDefaults,
    n: int,
    step: StartStep,
    flash: Flash,
    data: ConfigView,
) -> bool {
    match step {
        StartStep::Fetch(task) => flash == flash0 && loading(
            flash0,
            fresh_config(defaults),
            task,
            data,
            n,
        ),
        StartStep::Store { task, field, missing } => {
            let (flash, data, _) = carried_out(flash, data, Progress::Store(task), n);
            started(flash0, defaults, n) == match field.following() {
                Some(next) => with_defaults_from(next, missing, defaults, flash, data, n),
                None => (flash, data),
            }
        },
        StartStep::Ready => (flash, data) == started(flash0, defaults, n),
    }
}

proof fn lemma_next_default(
    flash0: Flash,
    defaults: WifiDefaults,
    n: int,
    field: DefaultField,
    missing: Missing,
    step: StartStep,
    flash: Flash,
    data: ConfigView,
)
    requires
        0 <= n <= MAX_SLOTS,
        is_next_default(field, missing, defaults, step),
        with_defaults_from(field, missing, defaults, flash, data, n) == started(
            flash0,
            defaults,
            n,
        ),
    ensures
        on_course(flash0, defaults, n, step, flash, data),
    decreases fields_after(field),
{
    if !writes_default(field, missing, defaults, None) {
        if let StartStep::Store { task, .. } = step {
            law_default_task_effect(field, missing, defaults, Some(task), flash, data, n);
        }
    } else {
        law_default_task_effect(field, missing, defaults, None, flash, data, n);
        if let Some(next) = field.following() {
            lemma_next_default(flash0, defaults, n, next, missing, step, flash, data);
        }
    }
}

/// A start whose writes go through ends with flash and mirror as [`started`] says: its first step
/// is on course for that, every step taken on what flash answers keeps to the course, and at the
/// end of the course they are there.
pub proof fn law_start_keeps_course(
    flash0: Flash,
    defaults: WifiDefaults,
    n: int,
    step: StartStep,
    flash: Flash,
    data: ConfigView,
    outcome: StartOutcome,
    next: StartStep,
    after: ConfigView,
)
    requires
        0 <= n <= MAX_SLOTS,
        on_course(flash0, defaults, n, step, flash, data),
        match step {
            StartStep::Fetch(task) => outcome matches StartOutcome::Fetched(reply)
                && task.answered(reply, flash),
            StartStep::Store { .. } => outcome == StartOutcome::Stored(true),
            StartStep::Ready => true,
        },
        starts_on(step, data, outcome, defaults, n, after, next),
    ensures
        ({
            let flash2 = match step {
                StartStep::Store { task, .. } => flash.insert(task.write_key(), task.write_item()),
                _ => flash,
            };
            on_course(flash0, defaults, n, next, flash2, after)
        }),
        step matches StartStep::Ready ==> (flash, data) == started(flash0, defaults, n),
{
    match (step, outcome) {
        (StartStep::Fetch(task), StartOutcome::Fetched(reply)) => {
            law_load_reads_flash(flash0, fresh_config(defaults), task, data, reply, n);
            if let LoadProgress::Loaded(missing) = loaded_step(task, data, reply, n).1 {
                lemma_next_default(
                    flash0,
                    defaults,
                    n,
                    DefaultField::ApEnabled,
                    missing,
                    next,
                    flash,
                    after,
                );
            }
        },
        (StartStep::Store { task, field, missing }, StartOutcome::Stored(_)) => {
            let flash2 = flash.insert(task.write_key(), task.write_item());
            let (changed, progress) = resumed(task, data, true, n);
            reveal_with_fuel(carried_out, 2);
            assert(carried_out(flash, data, Progress::Store(task), n) == carried_out(
                flash2,
                changed,
                progress,
                n,
            ));
            if !(progress is Store) {
                if let Some(f) = field.following() {
                    lemma_next_default(flash0, defaults, n, f, missing, next, flash2, after);
                }
            }
        },
        _ => {},
    }
}

/// A start begins on course.
pub proof fn law_start_begins_on_course(
    flash: Flash,
    defaults: WifiDefaults,
    n: int,
    task: LoadTask,
)
    requires
        task.stage is ApEnabled,
    ensures
        on_course(flash, defaults, n, StartStep::Fetch(task), flash, fresh_config(defaults)),
{
}

/// How many fetches a load calls for at most, from a stage on, with `n` slots.
pub open spec fn fetches_left(stage: LoadStage, n: int) -> int {
    match stage {
        LoadStage::SlotSsid { index } => 2 * (n - index),
        LoadStage::SlotPassword { index, .. } => 2 * (n - index) - 1,
        _ => 7 - fields_before(stage) + 2 * n,
    }
}

/// How many steps a start takes at most, from a step on: the default of a field takes three writes
/// at most, and there are eight fields.
pub open spec fn steps_left(step: StartStep, n: int) -> int {
    match step {
        StartStep::Fetch(task) => fetches_left(task.stage, n) + 24,
        StartStep::Store { task, field, .. } => writes_left(task, n) as int + 3 * fields_after(
            field,
        ),
        StartStep::Ready => 0,
    }
}

proof fn lemma_next_default_is_near(
    field: DefaultField,
    missing: Missing,
    defaults: WifiDefaults,
    step: StartStep,
    n: int,
)
    requires
        is_next_default(field, missing, defaults, step),
    ensures
        0 <= steps_left(step, n) <= 3 + 3 * fields_after(field),
    decreases fields_after(field),
{
    if writes_default(field, missing, defaults, None) {
        if let Some(next) = field.following() {
            lemma_next_default_is_near(next, missing, defaults, step, n);
        }
    }
}

/// A start ends: whatever flash answers and whether or not its writes go through, each step leaves
/// fewer to be taken, until the configuration is ready.
pub proof fn law_start_ends(
    step: StartStep,
    data: ConfigView,
    outcome: StartOutcome,
    defaults: WifiDefaults,
    n: int,
    after: ConfigView,
    next: StartStep,
)
    requires
        0 <= n <= MAX_SLOTS,
        !(step is Ready),
        step.in_range(n),
        step.takes(outcome),
        starts_on(step, data, outcome, defaults, n, after, next),
    ensures
        0 <= steps_left(next, n) < steps_left(step, n),
{
    match (step, outcome) {
        (StartStep::Fetch(task), StartOutcome::Fetched(reply)) => {
            if let LoadProgress::Loaded(missing) = loaded_step(task, data, reply, n).1 {
                lemma_next_default_is_near(DefaultField::ApEnabled, missing, defaults, next, n);
            }
        },
        (StartStep::Store { task, field, missing }, StartOutcome::Stored(stored)) => {
            law_change_ends(task, data, stored, n);
            if !(resumed(task, data, stored, n).1 is Store) {
                if let Some(f) = field.following() {
                    lemma_next_default_is_near(f, missing, defaults, next, n);
                }
            }
        },
        _ => {},
    }
}

/// The first step of a start leaves at most seven fetches, two for each slot, and three writes for
/// each of the eight fields.
pub proof fn law_start_is_bounded(task: LoadTask, n: int)
    requires
        task.stage is ApEnabled,
    ensures
        steps_left(StartStep::Fetch(task), n) == 7 + 2 * n + 24,
{
}

} // verus!
