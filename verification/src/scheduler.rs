use crate::config::{get_key_value_default, key_value, try_get_key_value_as, ConfigKeyValue};
use crate::modules::{tasks_of, ModuleRuntime, Task};
use crate::text::{append_chars, chars_of, opt_text, string_of};
use vstd::prelude::*;

verus! {

/// The scheduler's state as a plain value. Times are in milliseconds since the scheduler
/// started.
pub struct State {
    /// The tasks, in declared order.
    pub tasks: Seq<Task>,
    /// For each task, the time from which it is due.
    pub deadlines: Seq<u64>,
    /// For each task, whether its interrupt fired since it last ran.
    pub pending: Seq<bool>,
    /// For each task, what it showed when it last ran.
    pub texts: Seq<Option<Seq<char>>>,
    pub left_pad: Seq<char>,
    pub right_pad: Seq<char>,
    pub delim: Seq<char>,
    /// The longest sleep, where there is a limit.
    pub max_interval: Option<u64>,
    /// The line that was last handed out.
    pub last_output: Seq<char>,
    /// What identified the configuration when it was loaded; empty where nothing did.
    pub config_token: Seq<char>,
    pub autoreload: bool,
}

impl State {
    /// Whether there is a deadline, a flag and a text for each task.
    pub open spec fn wf(self) -> bool {
        &&& self.deadlines.len() == self.tasks.len()
        &&& self.pending.len() == self.tasks.len()
        &&& self.texts.len() == self.tasks.len()
    }
}

/// What the setting `key` of `general` says, or `default`.
pub open spec fn setting_or(general: Seq<ConfigKeyValue>, key: Seq<char>, default: Seq<char>) -> Seq<
    char,
> {
    match key_value(general, key) {
        Some(v) => v,
        None => default,
    }
}

/// The longest sleep that the settings `general` ask for: nothing where they do not say,
/// nothing inside where what they say is no number of milliseconds.
pub open spec fn max_interval_of(general: Seq<ConfigKeyValue>) -> Option<Option<u64>> {
    crate::config::key_value_as::<u64>(general, "maxinterval"@)
}

/// The state in which a scheduler starts: each task is due after its start delay, no interrupt
/// is pending, no task has shown anything, and no line was handed out.
pub open spec fn starting(tasks: Seq<Task>, general: Seq<ConfigKeyValue>, autoreload: bool) -> State {
    State {
        tasks,
        deadlines: Seq::new(tasks.len(), |i: int| tasks[i].startdelay),
        pending: Seq::new(tasks.len(), |i: int| false),
        texts: Seq::new(tasks.len(), |i: int| None),
        left_pad: setting_or(general, "leftpad"@, " "@),
        right_pad: setting_or(general, "rightpad"@, " "@),
        delim: setting_or(general, "delim"@, "  "@),
        max_interval: match max_interval_of(general) {
            Some(Some(ms)) => Some(ms),
            _ => None,
        },
        last_output: Seq::empty(),
        config_token: setting_or(general, "configmtime"@, Seq::empty()),
        autoreload,
    }
}

/// Whether the signal `signal` is the interrupt of `task`.
pub open spec fn bound_to(task: Task, signal: i32) -> bool {
    task.unixsignal matches Some(number) && number == signal
}

/// The state after the signal `signal` came in: the interrupt of every task bound to it is
/// pending.
pub open spec fn after_signal(s: State, signal: i32) -> State {
    State {
        pending: Seq::new(s.pending.len(), |i: int| s.pending[i] || bound_to(s.tasks[i], signal)),
        ..s
    }
}

/// The state after the signals `signals` came in.
pub open spec fn after_signals(s: State, signals: Seq<i32>) -> State
    decreases signals.len(),
{
    if signals.len() == 0 {
        s
    } else {
        after_signal(after_signals(s, signals.drop_last()), signals.last())
    }
}

/// Whether task `i` runs at the time `elapsed`: its deadline has come, or its interrupt is
/// pending.
pub open spec fn due(s: State, i: int, elapsed: u64) -> bool {
    elapsed >= s.deadlines[i] || s.pending[i]
}

/// The time since task `i` was last due, which its sampler is told: `elapsed` less the deadline
/// before the current one, held to what 64 bits can say.
pub open spec fn since_due(s: State, i: int, elapsed: u64) -> u64 {
    let exact = elapsed + s.tasks[i].interval - s.deadlines[i];
    if exact < 0 {
        0
    } else if exact > u64::MAX {
        u64::MAX
    } else {
        exact as u64
    }
}

/// The deadline that follows `deadline` for a task that runs every `interval` milliseconds; it
/// stops at the largest time there is.
pub open spec fn next_deadline(deadline: u64, interval: u64) -> u64 {
    if deadline + interval > u64::MAX {
        u64::MAX
    } else {
        (deadline + interval) as u64
    }
}

/// What a task shows for what its sampler returned: the text, nothing, or the message of the
/// failure.
pub open spec fn shown(result: Result<Option<String>, String>) -> Option<Seq<char>> {
    match result {
        Ok(Some(text)) => Some(text@),
        Ok(None) => None,
        Err(message) => Some(message@),
    }
}

/// The state after task `i` ran and showed `text`. A run that an interrupt asked for clears the
/// interrupt and leaves the deadline alone; any other run moves the deadline on by the task's
/// interval.
pub open spec fn after_run(s: State, i: int, text: Option<Seq<char>>) -> State {
    State {
        texts: s.texts.update(i, text),
        pending: s.pending.update(i, false),
        deadlines: if s.pending[i] {
            s.deadlines
        } else {
            s.deadlines.update(i, next_deadline(s.deadlines[i], s.tasks[i].interval))
        },
        ..s
    }
}

/// The state after every task that is due at `elapsed` ran once, in declared order, where
/// `texts` holds what the tasks show afterwards.
pub open spec fn after_runs(s: State, elapsed: u64, texts: Seq<Option<Seq<char>>>) -> State {
    State {
        texts,
        pending: Seq::new(
            s.pending.len(),
            |i: int|
                if due(s, i, elapsed) {
                    false
                } else {
                    s.pending[i]
                },
        ),
        deadlines: Seq::new(
            s.deadlines.len(),
            |i: int|
                if due(s, i, elapsed) && !s.pending[i] {
                    next_deadline(s.deadlines[i], s.tasks[i].interval)
                } else {
                    s.deadlines[i]
                },
        ),
        ..s
    }
}

/// Whether task `i` has something to show: a text that is not empty.
pub open spec fn shows(s: State, i: int) -> bool {
    s.texts[i] matches Some(text) && text.len() > 0
}

/// What task `i` adds to the line: its icon and a space, where it has an icon, then its text.
pub open spec fn entry(s: State, i: int) -> Seq<char> {
    match s.tasks[i].icon {
        Some(icon) => icon + seq![' '] + s.texts[i].unwrap(),
        None => s.texts[i].unwrap(),
    }
}

/// Whether one of the first `k` tasks has something to show.
pub open spec fn any_shows(s: State, k: int) -> bool
    decreases k,
{
    if k <= 0 {
        false
    } else {
        any_shows(s, k - 1) || shows(s, k - 1)
    }
}

/// The entries of the first `k` tasks that have something to show, with the delimiter between
/// them.
pub open spec fn joined(s: State, k: int) -> Seq<char>
    decreases k,
{
    if k <= 0 {
        Seq::empty()
    } else if !shows(s, k - 1) {
        joined(s, k - 1)
    } else if any_shows(s, k - 1) {
        joined(s, k - 1) + s.delim + entry(s, k - 1)
    } else {
        entry(s, k - 1)
    }
}

/// The line for the state `s`: the entries between the left and the right padding.
pub open spec fn assemble(s: State) -> Seq<char> {
    s.left_pad + joined(s, s.tasks.len() as int) + s.right_pad
}

/// The line to hand out in the state `s`: the assembled line, where it differs from the one
/// handed out last.
pub open spec fn emits(s: State) -> Option<Seq<char>> {
    if assemble(s) != s.last_output {
        Some(assemble(s))
    } else {
        None
    }
}

/// The state after the line of `s` was looked at: it is the line handed out last.
pub open spec fn after_emit(s: State) -> State {
    State { last_output: assemble(s), ..s }
}

/// Whether the configuration is to be probed for a change.
pub open spec fn probes(s: State) -> bool {
    s.autoreload && s.config_token.len() > 0
}

/// Whether the scheduler stops because the configuration changed: it probes, and the probe gave
/// a token other than the one the scheduler started with.
pub open spec fn reloads(s: State, token: Option<Seq<char>>) -> bool {
    probes(s) && (token matches Some(now) && now != s.config_token)
}

/// The earliest of the first `k` deadlines.
pub open spec fn earliest(s: State, k: int) -> Option<u64>
    decreases k,
{
    if k <= 0 {
        None
    } else {
        match earliest(s, k - 1) {
            Some(least) => Some(
                if s.deadlines[k - 1] < least {
                    s.deadlines[k - 1]
                } else {
                    least
                },
            ),
            None => Some(s.deadlines[k - 1]),
        }
    }
}

/// How long to sleep at the time `elapsed`: until the earliest deadline, but no longer than the
/// longest sleep allowed; not at all where a deadline has come. Without tasks, the longest
/// sleep there is.
pub open spec fn sleep_for(s: State, elapsed: u64) -> u64 {
    let wait = match earliest(s, s.tasks.len() as int) {
        Some(least) => if least > elapsed {
            (least - elapsed) as u64
        } else {
            0
        },
        None => u64::MAX,
    };
    match s.max_interval {
        Some(max) => if wait > max {
            max
        } else {
            wait
        },
        None => wait,
    }
}

/// What the scheduler does next.
#[derive(Clone, Copy, Debug, PartialEq, Eq, Structural)]
pub enum Next {
    /// Stop: the configuration changed.
    Exit,
    /// Sleep for so many milliseconds, then go on; go on at once where it is zero.
    Sleep(u64),
}

/// What the scheduler does next in the state `s`, at the time `elapsed`, where the probe of the
/// configuration gave `token`.
pub open spec fn next_of(s: State, token: Option<Seq<char>>, elapsed: u64) -> Next {
    if reloads(s, token) {
        Next::Exit
    } else {
        Next::Sleep(sleep_for(s, elapsed))
    }
}

/// What a task shows for what its sampler returned.
pub fn sampled_text(result: Result<Option<String>, String>) -> (text: Option<String>)
    ensures
        opt_text(text) == shown(result),
{
    match result {
        Ok(text) => text,
        Err(message) => Some(message),
    }
}

/// The scheduler: the tasks with their samplers, their deadlines, pending interrupts and last
/// texts, and the line that was handed out last.
pub struct Scheduler {
    modules: Vec<ModuleRuntime>,
    counters: Vec<u64>,
    interrupts: Vec<bool>,
    strings: Vec<Option<String>>,
    left_pad: String,
    right_pad: String,
    delim: String,
    max_delay: Option<u64>,
    last_output: String,
    old_config_mtime: String,
    autoreload: bool,
}

impl View for Scheduler {
    type V = State;

    closed spec fn view(&self) -> State {
        State {
            tasks: tasks_of(self.modules@),
            deadlines: self.counters@,
            pending: self.interrupts@,
            texts: Seq::new(self.strings@.len(), |i: int| opt_text(self.strings@[i])),
            left_pad: self.left_pad@,
            right_pad: self.right_pad@,
            delim: self.delim@,
            max_interval: self.max_delay,
            last_output: self.last_output@,
            config_token: self.old_config_mtime@,
            autoreload: self.autoreload,
        }
    }
}

impl Scheduler {
    /// Whether the scheduler holds a deadline, a flag and a text for each task.
    pub open spec fn wf(&self) -> bool {
        self@.wf()
    }

    /// A scheduler for the tasks `modules` under the settings `general`: the paddings `leftpad`
    /// and `rightpad` (a space each unless set), the delimiter `delim` (two spaces unless set),
    /// the longest sleep `maxinterval` in milliseconds (none unless set), and `configmtime`,
    /// what identified the configuration when it was loaded. It fails where `maxinterval` is
    /// set to something that is no number of milliseconds.
    pub fn new(modules: Vec<ModuleRuntime>, general: &Vec<ConfigKeyValue>, autoreload: bool) -> (r:
        Result<Scheduler, String>)
        ensures
            r is Err <==> max_interval_of(general@) == Some(None::<u64>),
            r matches Ok(scheduler) ==> scheduler.wf() && scheduler@ == starting(
                tasks_of(modules@),
                general@,
                autoreload,
            ),
    {
        let max_delay: Option<u64> = match try_get_key_value_as::<u64>(general, "maxinterval") {
            Some(Some(ms)) => Some(ms),
            Some(None) => {
                return Err("maxinterval is not a number of milliseconds".to_owned());
            },
            None => None,
        };
        let mut counters: Vec<u64> = Vec::new();
        let mut interrupts: Vec<bool> = Vec::new();
        let mut strings: Vec<Option<String>> = Vec::new();
        let mut i: usize = 0;
        while i < modules.len()
            invariant
                i <= modules.len(),
                counters.len() == i,
                interrupts.len() == i,
                strings.len() == i,
                forall|j: int| 0 <= j < i ==> counters@[j] == (#[trigger] modules@[j]).startdelay,
                forall|j: int| 0 <= j < i ==> !(#[trigger] interrupts@[j]),
                forall|j: int| 0 <= j < i ==> (#[trigger] strings@[j]) is None,
            decreases modules.len() - i,
        {
            counters.push(modules[i].startdelay);
            interrupts.push(false);
            strings.push(None);
            i += 1;
        }
        let scheduler = Scheduler {
            modules,
            counters,
            interrupts,
            strings,
            left_pad: get_key_value_default(general, "leftpad", " ").to_owned(),
            right_pad: get_key_value_default(general, "rightpad", " ").to_owned(),
            delim: get_key_value_default(general, "delim", "  ").to_owned(),
            max_delay,
            last_output: String::new(),
            old_config_mtime: get_key_value_default(general, "configmtime", "").to_owned(),
            autoreload,
        };
        proof {
            reveal_strlit("");
            let want = starting(tasks_of(modules@), general@, autoreload);
            assert(""@ == Seq::<char>::empty());
            assert(scheduler@.deadlines == want.deadlines);
            assert(scheduler@.pending == want.pending);
            assert(scheduler@.texts == want.texts);
        }
        Ok(scheduler)
    }

    /// How many tasks there are.
    pub fn len(&self) -> (n: usize)
        requires
            self.wf(),
        ensures
            n == self@.tasks.len(),
    {
        self.modules.len()
    }

    /// The time from which task `i` is due.
    pub fn deadline(&self, i: usize) -> (at: u64)
        requires
            self.wf(),
            i < self@.tasks.len(),
        ensures
            at == self@.deadlines[i as int],
    {
        self.counters[i]
    }

    /// Whether the interrupt of task `i` is pending.
    pub fn is_pending(&self, i: usize) -> (flag: bool)
        requires
            self.wf(),
            i < self@.tasks.len(),
        ensures
            flag == self@.pending[i as int],
    {
        self.interrupts[i]
    }

    /// The numbers of the signals that interrupt a task, in the order of the tasks.
    pub fn signal_ids(&self) -> (ids: Vec<i32>)
        requires
            self.wf(),
        ensures
            ids@ == signal_numbers(self@.tasks, self@.tasks.len() as int),
    {
        let mut ids: Vec<i32> = Vec::new();
        let mut i: usize = 0;
        while i < self.modules.len()
            invariant
                i <= self.modules.len(),
                self.wf(),
                ids@ == signal_numbers(self@.tasks, i as int),
            decreases self.modules.len() - i,
        {
            assert(self@.tasks[i as int] == self.modules@[i as int]@);
            if let Some(number) = self.modules[i].unixsignal {
                ids.push(number as i32);
            }
            i += 1;
        }
        ids
    }

    /// Takes note of the signals that came in since the last call: the interrupt of every task
    /// bound to one of them is pending from now on.
    pub fn note_signals(&mut self, signals: &Vec<i32>)
        requires
            old(self).wf(),
        ensures
            final(self).wf(),
            final(self)@ == after_signals(old(self)@, signals@),
    {
        let mut k: usize = 0;
        assert(signals@.take(0) == Seq::<i32>::empty());
        while k < signals.len()
            invariant
                k <= signals.len(),
                self.wf(),
                self@ == after_signals(old(self)@, signals@.take(k as int)),
            decreases signals.len() - k,
        {
            let signal = signals[k];
            let ghost before = self@;
            let mut i: usize = 0;
            while i < self.modules.len()
                invariant
                    i <= self.modules.len(),
                    self.wf(),
                    before.wf(),
                    self@ == (State { pending: self@.pending, ..before }),
                    forall|j: int|
                        #![trigger self@.pending[j]]
                        0 <= j < i ==> self@.pending[j] == after_signal(before, signal).pending[j],
                    forall|j: int|
                        #![trigger self@.pending[j]]
                        i <= j < before.tasks.len() ==> self@.pending[j] == before.pending[j],
                decreases self.modules.len() - i,
            {
                assert(self@.tasks[i as int] == self.modules@[i as int]@);
                let bound = match self.modules[i].unixsignal {
                    Some(number) => number as i32 == signal,
                    None => false,
                };
                if bound {
                    self.interrupts.set(i, true);
                }
                i += 1;
            }
            proof {
                assert(signals@.take(k + 1).drop_last() == signals@.take(k as int));
                let want = after_signal(before, signal).pending;
                assert(self@.tasks.len() == self.modules@.len());
                assert(self@.pending == want);
            }
            k += 1;
        }
        assert(signals@.take(signals.len() as int) == signals@);
    }

    /// Whether task `i` runs at the time `elapsed`, and if so, the time since it was last due,
    /// which its sampler is told.
    pub fn due_since(&self, i: usize, elapsed: u64) -> (r: Option<u64>)
        requires
            self.wf(),
            i < self@.tasks.len(),
        ensures
            r == if due(self@, i as int, elapsed) {
                Some(since_due(self@, i as int, elapsed))
            } else {
                None
            },
    {
        assert(self@.tasks[i as int] == self.modules@[i as int]@);
        let deadline = self.counters[i];
        if elapsed >= deadline || self.interrupts[i] {
            Some(time_since_due(elapsed, self.modules[i].interval, deadline))
        } else {
            None
        }
    }

    /// Keeps what the sampler of task `i` returned from a run: what the task shows is the text,
    /// nothing, or the message of the failure. A run that an interrupt asked for clears the
    /// interrupt and leaves the deadline alone; any other run moves the deadline on by the
    /// task's interval.
    pub fn record(&mut self, i: usize, result: Result<Option<String>, String>)
        requires
            old(self).wf(),
            i < old(self)@.tasks.len(),
        ensures
            final(self).wf(),
            final(self)@ == after_run(old(self)@, i as int, shown(result)),
    {
        let ghost before = self@;
        assert(self@.tasks[i as int] == self.modules@[i as int]@);
        let text = sampled_text(result);
        self.strings.set(i, text);
        assert(self@.texts =~= before.texts.update(i as int, shown(result)));
        if self.interrupts[i] {
            self.interrupts.set(i, false);
        } else {
            let next = deadline_after(self.counters[i], self.modules[i].interval);
            self.counters.set(i, next);
        }
        assert(self@.pending =~= before.pending.update(i as int, false));
    }

    /// Runs every task that is due at `elapsed`, once and in declared order, and keeps what
    /// each shows, as `record` says. What the samplers return is theirs to decide; the texts
    /// of the tasks that did not run stay.
    pub fn run_due(&mut self, elapsed: u64)
        requires
            old(self).wf(),
        ensures
            final(self).wf(),
            final(self)@ == after_runs(old(self)@, elapsed, final(self)@.texts),
            forall|i: int|
                0 <= i < old(self)@.tasks.len() && !due(old(self)@, i, elapsed) ==> #[trigger]
                final(self)@.texts[i] == old(self)@.texts[i],
    {
        let ghost start = self@;
        let mut i: usize = 0;
        while i < self.modules.len()
            invariant
                i <= self.modules.len(),
                self.wf(),
                start.wf(),
                self@ == (State {
                    texts: self@.texts,
                    pending: self@.pending,
                    deadlines: self@.deadlines,
                    ..start
                }),
                forall|j: int|
                    #![trigger self@.pending[j]]
                    0 <= j < i ==> self@.pending[j] == after_runs(
                        start,
                        elapsed,
                        start.texts,
                    ).pending[j],
                forall|j: int|
                    #![trigger self@.deadlines[j]]
                    0 <= j < i ==> self@.deadlines[j] == after_runs(
                        start,
                        elapsed,
                        start.texts,
                    ).deadlines[j],
                forall|j: int|
                    #![trigger self@.texts[j]]
                    0 <= j < start.tasks.len() && (j >= i || !due(start, j, elapsed))
                        ==> self@.texts[j] == start.texts[j],
                forall|j: int|
                    #![trigger self@.pending[j]]
                    i <= j < start.tasks.len() ==> self@.pending[j] == start.pending[j],
                forall|j: int|
                    #![trigger self@.deadlines[j]]
                    i <= j < start.tasks.len() ==> self@.deadlines[j] == start.deadlines[j],
            decreases self.modules.len() - i,
        {
            if let Some(ts) = self.due_since(i, elapsed) {
                let ghost before = self@;
                let result = self.modules[i].module.run(ts);
                assert(self@.tasks =~= before.tasks);
                assert(self@ == before);
                self.record(i, result);
            }
            i += 1;
        }
        proof {
            let want = after_runs(start, elapsed, self@.texts);
            assert(self@.tasks.len() == self.modules@.len());
            assert(self@.pending =~= want.pending);
            assert(self@.deadlines =~= want.deadlines);
        }
    }

    /// The line for what the tasks show now.
    pub fn line(&self) -> (out: String)
        requires
            self.wf(),
        ensures
            out@ == assemble(self@),
    {
        let mut out = chars_of(self.left_pad.as_str());
        let delim = chars_of(self.delim.as_str());
        let mut any = false;
        let mut k: usize = 0;
        assert(out@ + Seq::<char>::empty() == out@);
        while k < self.modules.len()
            invariant
                k <= self.modules.len(),
                self.wf(),
                delim@ == self@.delim,
                any == any_shows(self@, k as int),
                out@ == self@.left_pad + joined(self@, k as int),
            decreases self.modules.len() - k,
        {
            assert(self@.tasks[k as int] == self.modules@[k as int]@);
            assert(self@.texts[k as int] == opt_text(self.strings@[k as int]));
            let ghost before = out@;
            if let Some(text) = &self.strings[k] {
                let text = chars_of(text.as_str());
                if text.len() > 0 {
                    if any {
                        append_chars(&mut out, &delim);
                    }
                    if let Some(icon) = &self.modules[k].icon {
                        let icon = chars_of(icon.as_str());
                        append_chars(&mut out, &icon);
                        out.push(' ');
                    }
                    append_chars(&mut out, &text);
                    any = true;
                    assert(shows(self@, k as int));
                    assert(text@ == self@.texts[k as int].unwrap());
                    assert(out@ =~= before + (if any_shows(self@, k as int) {
                        self@.delim
                    } else {
                        Seq::<char>::empty()
                    }) + entry(self@, k as int));
                    proof {
                        if !any_shows(self@, k as int) {
                            lemma_joined_empty(self@, k as int);
                        }
                    }
                    assert(out@ =~= self@.left_pad + joined(self@, k + 1));
                }
            }
            k += 1;
        }
        assert(self@.tasks.len() == self.modules@.len());
        let right = chars_of(self.right_pad.as_str());
        append_chars(&mut out, &right);
        string_of(&out)
    }

    /// Hands out the line for what the tasks show now, unless it is the line that was handed
    /// out last.
    pub fn emit(&mut self) -> (out: Option<String>)
        requires
            old(self).wf(),
        ensures
            final(self).wf(),
            final(self)@ == after_emit(old(self)@),
            opt_text(out) == emits(old(self)@),
    {
        let line = self.line();
        if line == self.last_output {
            None
        } else {
            self.last_output = line.clone();
            Some(line)
        }
    }

    /// One turn of the scheduler at the time `elapsed`, where `signals` came in since the last
    /// turn: it takes note of the signals, runs the tasks that are due, and hands out the line,
    /// unless it is the line that was handed out last.
    pub fn wake(&mut self, signals: &Vec<i32>, elapsed: u64) -> (out: Option<String>)
        requires
            old(self).wf(),
        ensures
            final(self).wf(),
            final(self)@ == after_emit(
                after_runs(after_signals(old(self)@, signals@), elapsed, final(self)@.texts),
            ),
            opt_text(out) == emits(
                after_runs(after_signals(old(self)@, signals@), elapsed, final(self)@.texts),
            ),
            forall|i: int|
                0 <= i < old(self)@.tasks.len() && !due(
                    after_signals(old(self)@, signals@),
                    i,
                    elapsed,
                ) ==> #[trigger] final(self)@.texts[i] == old(self)@.texts[i],
    {
        self.note_signals(signals);
        proof {
            lemma_after_signals_keeps(old(self)@, signals@);
        }
        self.run_due(elapsed);
        self.emit()
    }

    /// Whether the configuration is to be probed for a change before the scheduler sleeps.
    pub fn probes(&self) -> (r: bool)
        ensures
            r == probes(self@),
    {
        self.autoreload && chars_of(self.old_config_mtime.as_str()).len() > 0
    }

    /// What to do after a turn, at the time `elapsed`: stop where the probe of the
    /// configuration gave a token other than the one the scheduler started with, else sleep.
    /// `token` is what the probe gave; nothing where it was not made or failed.
    pub fn rest(&self, token: Option<String>, elapsed: u64) -> (next: Next)
        requires
            self.wf(),
        ensures
            next == next_of(self@, opt_text(token), elapsed),
            next matches Next::Sleep(ms) ==> (self@.max_interval matches Some(max) ==> ms <= max),
    {
        if self.probes() {
            if let Some(now) = token {
                if !(now == self.old_config_mtime) {
                    return Next::Exit;
                }
            }
        }
        let mut least: Option<u64> = None;
        let mut k: usize = 0;
        while k < self.counters.len()
            invariant
                k <= self.counters.len(),
                self.wf(),
                least == earliest(self@, k as int),
            decreases self.counters.len() - k,
        {
            let at = self.counters[k];
            least = match least {
                Some(so_far) => Some(
                    if at < so_far {
                        at
                    } else {
                        so_far
                    },
                ),
                None => Some(at),
            };
            k += 1;
        }
        let wait: u64 = match least {
            Some(at) => if at > elapsed {
                at - elapsed
            } else {
                0
            },
            None => u64::MAX,
        };
        let sleep = match self.max_delay {
            Some(max) => if wait > max {
                max
            } else {
                wait
            },
            None => wait,
        };
        Next::Sleep(sleep)
    }
}

/// The numbers of the signals that interrupt one of the first `k` tasks, in the order of the
/// tasks.
pub open spec fn signal_numbers(tasks: Seq<Task>, k: int) -> Seq<i32>
    decreases k,
{
    if k <= 0 {
        Seq::empty()
    } else {
        match tasks[k - 1].unixsignal {
            Some(number) => signal_numbers(tasks, k - 1).push(number as i32),
            None => signal_numbers(tasks, k - 1),
        }
    }
}

/// The time since a task was last due.
pub fn time_since_due(elapsed: u64, interval: u64, deadline: u64) -> (ts: u64)
    ensures
        ts == if elapsed + interval - deadline < 0 {
            0
        } else if elapsed + interval - deadline > u64::MAX {
            u64::MAX as int
        } else {
            elapsed + interval - deadline
        },
{
    let sum: u128 = elapsed as u128 + interval as u128;
    if sum < deadline as u128 {
        0
    } else if sum - deadline as u128 > u64::MAX as u128 {
        u64::MAX
    } else {
        (sum - deadline as u128) as u64
    }
}

/// The deadline that follows `deadline` for a task that runs every `interval` milliseconds.
pub fn deadline_after(deadline: u64, interval: u64) -> (next: u64)
    ensures
        next == next_deadline(deadline, interval),
{
    if deadline > u64::MAX - interval {
        u64::MAX
    } else {
        deadline + interval
    }
}

/// Where none of the first `k` tasks shows anything, nothing is joined.
proof fn lemma_joined_empty(s: State, k: int)
    requires
        !any_shows(s, k),
    ensures
        joined(s, k) == Seq::<char>::empty(),
    decreases k,
{
    if k > 0 {
        lemma_joined_empty(s, k - 1);
    }
}

/// Signals touch nothing but the pending interrupts, and leave the state well formed.
proof fn lemma_after_signals_keeps(s: State, signals: Seq<i32>)
    requires
        s.wf(),
    ensures
        after_signals(s, signals).wf(),
        after_signals(s, signals) == (State {
            pending: after_signals(s, signals).pending,
            ..s
        }),
    decreases signals.len(),
{
    if signals.len() > 0 {
        lemma_after_signals_keeps(s, signals.drop_last());
    }
}

/// The line depends on nothing but the tasks, what they show, the paddings and the delimiter.
pub proof fn lemma_line_reads(s: State, t: State)
    requires
        s.tasks == t.tasks,
        s.texts == t.texts,
        s.left_pad == t.left_pad,
        s.right_pad == t.right_pad,
        s.delim == t.delim,
    ensures
        assemble(s) == assemble(t),
{
    lemma_joined_reads(s, t, s.tasks.len() as int);
}

/// What is joined depends on nothing but the tasks, what they show and the delimiter.
proof fn lemma_joined_reads(s: State, t: State, k: int)
    requires
        s.tasks == t.tasks,
        s.texts == t.texts,
        s.delim == t.delim,
    ensures
        joined(s, k) == joined(t, k),
        any_shows(s, k) == any_shows(t, k),
    decreases k,
{
    if k > 0 {
        lemma_joined_reads(s, t, k - 1);
    }
}

/// A line is handed out once. Of two turns in a row without signals after which the tasks show
/// the same, the second hands out nothing, whenever the two take place.
pub proof fn lemma_unchanged_line_stays_in(
    s: State,
    first: u64,
    second: u64,
    texts: Seq<Option<Seq<char>>>,
)
    requires
        s.wf(),
    ensures
        ({
            let one = after_emit(after_runs(after_signals(s, Seq::empty()), first, texts));
            emits(after_runs(after_signals(one, Seq::empty()), second, texts)) is None
        }),
{
    let ran = after_runs(after_signals(s, Seq::empty()), first, texts);
    let one = after_emit(ran);
    let again = after_runs(after_signals(one, Seq::empty()), second, texts);
    lemma_line_reads(ran, again);
}

/// An interrupt runs its task once and leaves the schedule alone. Where the signal of task `i`
/// comes in before the task's deadline, the task is due in that turn; after the turn its
/// deadline is what it was, and the task is due again from that deadline on and not before.
pub proof fn lemma_interrupt_keeps_deadline(
    s: State,
    i: int,
    signal: i32,
    elapsed: u64,
    texts: Seq<Option<Seq<char>>>,
    later: u64,
)
    requires
        s.wf(),
        0 <= i < s.tasks.len(),
        bound_to(s.tasks[i], signal),
        elapsed < s.deadlines[i],
    ensures
        ({
            let woken = after_signals(s, seq![signal]);
            let ran = after_runs(woken, elapsed, texts);
            &&& due(woken, i, elapsed)
            &&& ran.deadlines[i] == s.deadlines[i]
            &&& !ran.pending[i]
            &&& due(ran, i, later) <==> later >= s.deadlines[i]
        }),
{
    let signals = seq![signal];
    assert(signals.drop_last() == Seq::<i32>::empty());
    assert(after_signals(s, signals.drop_last()) == s);
    assert(after_signals(s, signals) == after_signal(s, signal));
}

/// A run never moves a deadline back: a task is not due earlier because it ran.
pub proof fn lemma_deadlines_never_go_back(
    s: State,
    elapsed: u64,
    texts: Seq<Option<Seq<char>>>,
    i: int,
)
    requires
        s.wf(),
        0 <= i < s.tasks.len(),
    ensures
        after_runs(s, elapsed, texts).deadlines[i] >= s.deadlines[i],
        after_runs(s, elapsed, texts).deadlines[i] == s.deadlines[i] <== s.pending[i],
{
}

/// The scheduler never sleeps longer than it is allowed to, however far the deadlines are.
pub proof fn lemma_sleep_bound(s: State, elapsed: u64)
    ensures
        s.max_interval matches Some(max) ==> sleep_for(s, elapsed) <= max,
{
}

} // verus!
