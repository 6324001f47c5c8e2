use corrodedbar::config::ConfigKeyValue;
use corrodedbar::modules::{ModuleImplementation, ModuleRuntime};
use corrodedbar::scheduler::{deadline_after, sampled_text, time_since_due, Next, Scheduler};
use std::cell::RefCell;
use std::rc::Rc;

struct Scripted {
    outputs: Vec<Result<Option<String>, String>>,
    calls: Rc<RefCell<Vec<u64>>>,
}

impl ModuleImplementation for Scripted {
    fn run(&mut self, ts: u64) -> Result<Option<String>, String> {
        self.calls.borrow_mut().push(ts);
        if self.outputs.len() > 1 {
            self.outputs.remove(0)
        } else {
            self.outputs[0].clone()
        }
    }
}

fn task(
    outputs: Vec<Result<Option<String>, String>>,
    icon: Option<&str>,
    unixsignal: Option<u8>,
    interval: u64,
    startdelay: u64,
) -> (ModuleRuntime, Rc<RefCell<Vec<u64>>>) {
    let calls = Rc::new(RefCell::new(Vec::new()));
    let runtime = ModuleRuntime {
        module: Box::new(Scripted { outputs, calls: calls.clone() }),
        name: "scripted".to_string(),
        icon: icon.map(|s| s.to_string()),
        unixsignal,
        interval,
        startdelay,
    };
    (runtime, calls)
}

fn says(s: &str) -> Vec<Result<Option<String>, String>> {
    vec![Ok(Some(s.to_string()))]
}

fn kv(key: &str, value: &str) -> ConfigKeyValue {
    ConfigKeyValue { key: key.to_string(), value: value.to_string() }
}

#[test]
fn starts_with_defaults() {
    let (a, _) = task(says("x"), None, Some(10), 1000, 250);
    let (b, _) = task(says("y"), None, None, 1000, 0);
    let s = Scheduler::new(vec![a, b], &vec![], true).ok().unwrap();
    assert_eq!(s.len(), 2);
    assert_eq!(s.deadline(0), 250);
    assert_eq!(s.deadline(1), 0);
    assert!(!s.is_pending(0));
    assert!(!s.is_pending(1));
    assert_eq!(s.signal_ids(), vec![10]);
    assert_eq!(s.line(), "  ");
    assert!(!s.probes());
}

#[test]
fn maxinterval_must_be_a_number() {
    let (a, _) = task(says("x"), None, None, 1000, 0);
    assert!(Scheduler::new(vec![a], &vec![kv("maxinterval", "soon")], true).is_err());
    let (a, _) = task(says("x"), None, None, 1000, 0);
    assert!(Scheduler::new(vec![a], &vec![kv("maxinterval", "50")], true).is_ok());
}

#[test]
fn line_is_assembled_from_icons_texts_and_paddings() {
    let (a, _) = task(says("one"), Some("A"), None, 1000, 0);
    let (b, _) = task(vec![Ok(None)], Some("B"), None, 1000, 0);
    let (c, _) = task(says(""), Some("C"), None, 1000, 0);
    let (d, _) = task(says("four"), None, None, 1000, 0);
    let general = vec![kv("leftpad", "<"), kv("rightpad", ">"), kv("delim", "|")];
    let mut s = Scheduler::new(vec![a, b, c, d], &general, true).ok().unwrap();
    assert_eq!(s.line(), "<>");
    assert_eq!(s.wake(&vec![], 0), Some("<A one|four>".to_string()));
    assert_eq!(s.line(), "<A one|four>");
}

#[test]
fn default_paddings_and_delimiter() {
    let (a, _) = task(says("one"), None, None, 1000, 0);
    let (b, _) = task(says("two"), None, None, 1000, 0);
    let mut s = Scheduler::new(vec![a, b], &vec![], true).ok().unwrap();
    assert_eq!(s.wake(&vec![], 0), Some(" one  two ".to_string()));
}

#[test]
fn unchanged_line_is_handed_out_once() {
    let (a, calls) = task(says("same"), None, None, 10, 0);
    let mut s = Scheduler::new(vec![a], &vec![], true).ok().unwrap();
    assert_eq!(s.wake(&vec![], 0), Some(" same ".to_string()));
    assert_eq!(s.wake(&vec![], 10), None);
    assert_eq!(s.wake(&vec![], 25), None);
    assert_eq!(calls.borrow().len(), 3);
}

#[test]
fn changed_line_is_handed_out_again() {
    let (a, _) = task(vec![Ok(Some("1".to_string())), Ok(Some("2".to_string()))], None, None, 10, 0);
    let mut s = Scheduler::new(vec![a], &vec![], true).ok().unwrap();
    assert_eq!(s.wake(&vec![], 0), Some(" 1 ".to_string()));
    assert_eq!(s.wake(&vec![], 10), Some(" 2 ".to_string()));
    assert_eq!(s.wake(&vec![], 20), None);
}

#[test]
fn tasks_run_when_due_and_deadlines_advance_by_the_interval() {
    let (a, calls) = task(says("x"), None, None, 1000, 300);
    let mut s = Scheduler::new(vec![a], &vec![], true).ok().unwrap();
    s.run_due(299);
    assert!(calls.borrow().is_empty());
    assert_eq!(s.deadline(0), 300);
    s.run_due(350);
    assert_eq!(*calls.borrow(), vec![1050]);
    assert_eq!(s.deadline(0), 1300);
    s.run_due(1299);
    assert_eq!(calls.borrow().len(), 1);
    s.run_due(5000);
    assert_eq!(*calls.borrow(), vec![1050, 4700]);
    assert_eq!(s.deadline(0), 2300);
}

#[test]
fn interrupt_runs_the_task_once_and_keeps_the_deadline() {
    let (a, a_calls) = task(says("a"), None, Some(34), 1000, 100_000);
    let (b, b_calls) = task(says("b"), None, Some(35), 1000, 100_000);
    let mut s = Scheduler::new(vec![a, b], &vec![], true).ok().unwrap();
    assert_eq!(s.wake(&vec![], 5), Some("  ".to_string()));
    assert!(a_calls.borrow().is_empty());
    s.note_signals(&vec![34, 99]);
    assert!(s.is_pending(0));
    assert!(!s.is_pending(1));
    assert_eq!(s.wake(&vec![], 10), Some(" a ".to_string()));
    assert_eq!(a_calls.borrow().len(), 1);
    assert!(b_calls.borrow().is_empty());
    assert_eq!(s.deadline(0), 100_000);
    assert!(!s.is_pending(0));
    assert_eq!(s.wake(&vec![], 20), None);
    assert_eq!(a_calls.borrow().len(), 1);
    s.wake(&vec![], 100_000);
    assert_eq!(a_calls.borrow().len(), 2);
    assert_eq!(s.deadline(0), 101_000);
}

#[test]
fn interrupt_of_a_due_task_does_not_advance_the_deadline() {
    let (a, calls) = task(says("a"), None, Some(34), 1000, 0);
    let mut s = Scheduler::new(vec![a], &vec![], true).ok().unwrap();
    s.wake(&vec![34], 10);
    assert_eq!(s.deadline(0), 0);
    s.wake(&vec![], 11);
    assert_eq!(s.deadline(0), 1000);
    assert_eq!(calls.borrow().len(), 2);
}

#[test]
fn sampler_failure_is_shown_as_text() {
    let (a, _) = task(vec![Err("no battery".to_string())], Some("B"), None, 1000, 0);
    let mut s = Scheduler::new(vec![a], &vec![], true).ok().unwrap();
    assert_eq!(s.wake(&vec![], 0), Some(" B no battery ".to_string()));
    assert_eq!(sampled_text(Err("e".to_string())), Some("e".to_string()));
    assert_eq!(sampled_text(Ok(Some("t".to_string()))), Some("t".to_string()));
    assert_eq!(sampled_text(Ok(None)), None);
}

#[test]
fn sleep_is_bounded_by_maxinterval() {
    let (a, _) = task(says("a"), None, None, 1000, 60_000);
    let (b, _) = task(says("b"), None, None, 1000, 90_000);
    let s = Scheduler::new(vec![a, b], &vec![kv("maxinterval", "500")], true).ok().unwrap();
    assert_eq!(s.rest(None, 0), Next::Sleep(500));
    assert_eq!(s.rest(None, 59_900), Next::Sleep(100));
    assert_eq!(s.rest(None, 60_000), Next::Sleep(0));
    assert_eq!(s.rest(None, 70_000), Next::Sleep(0));
}

#[test]
fn sleep_lasts_until_the_earliest_deadline() {
    let (a, _) = task(says("a"), None, None, 1000, 60_000);
    let (b, _) = task(says("b"), None, None, 1000, 20_000);
    let s = Scheduler::new(vec![a, b], &vec![], true).ok().unwrap();
    assert_eq!(s.rest(None, 5_000), Next::Sleep(15_000));
    let none = Scheduler::new(vec![], &vec![], true).ok().unwrap();
    assert_eq!(none.rest(None, 5_000), Next::Sleep(u64::MAX));
    let capped = Scheduler::new(vec![], &vec![kv("maxinterval", "7")], true).ok().unwrap();
    assert_eq!(capped.rest(None, 5_000), Next::Sleep(7));
}

#[test]
fn scheduler_stops_when_the_configuration_changed() {
    let general = vec![kv("configmtime", "100")];
    let s = Scheduler::new(vec![], &general, true).ok().unwrap();
    assert!(s.probes());
    assert_eq!(s.rest(Some("101".to_string()), 0), Next::Exit);
    assert_eq!(s.rest(Some("100".to_string()), 0), Next::Sleep(u64::MAX));
    assert_eq!(s.rest(None, 0), Next::Sleep(u64::MAX));
    let off = Scheduler::new(vec![], &general, false).ok().unwrap();
    assert!(!off.probes());
    assert_eq!(off.rest(Some("101".to_string()), 0), Next::Sleep(u64::MAX));
    let unknown = Scheduler::new(vec![], &vec![], true).ok().unwrap();
    assert!(!unknown.probes());
    assert_eq!(unknown.rest(Some("101".to_string()), 0), Next::Sleep(u64::MAX));
}

#[test]
fn time_since_due_and_next_deadline() {
    assert_eq!(time_since_due(1500, 1000, 1200), 1300);
    assert_eq!(time_since_due(10, 1000, 100_000), 0);
    assert_eq!(time_since_due(u64::MAX, u64::MAX, 0), u64::MAX);
    assert_eq!(deadline_after(1200, 1000), 2200);
    assert_eq!(deadline_after(u64::MAX - 5, 10), u64::MAX);
}

#[test]
fn signals_are_listed_in_task_order() {
    let (a, _) = task(says("a"), None, Some(40), 1, 0);
    let (b, _) = task(says("b"), None, None, 1, 0);
    let (c, _) = task(says("c"), None, Some(35), 1, 0);
    let s = Scheduler::new(vec![a, b, c], &vec![], true).ok().unwrap();
    assert_eq!(s.signal_ids(), vec![40, 35]);
}

#[test]
fn due_tasks_are_told_the_time_since_they_were_due() {
    let (a, _) = task(says("a"), None, Some(34), 1000, 300);
    let mut s = Scheduler::new(vec![a], &vec![], true).ok().unwrap();
    assert_eq!(s.due_since(0, 299), None);
    assert_eq!(s.due_since(0, 300), Some(1000));
    assert_eq!(s.due_since(0, 450), Some(1150));
    s.note_signals(&vec![34]);
    assert_eq!(s.due_since(0, 100), Some(800));
}

#[test]
fn results_are_recorded() {
    let (a, calls) = task(says("unused"), Some("I"), Some(34), 1000, 300);
    let mut s = Scheduler::new(vec![a], &vec![], true).ok().unwrap();
    s.record(0, Ok(Some("text".to_string())));
    assert_eq!(s.deadline(0), 1300);
    assert_eq!(s.line(), " I text ");
    s.note_signals(&vec![34]);
    s.record(0, Err("failed".to_string()));
    assert_eq!(s.deadline(0), 1300);
    assert!(!s.is_pending(0));
    assert_eq!(s.line(), " I failed ");
    s.record(0, Ok(None));
    assert_eq!(s.deadline(0), 2300);
    assert_eq!(s.line(), "  ");
    assert_eq!(s.emit(), Some("  ".to_string()));
    assert_eq!(s.emit(), None);
    assert!(calls.borrow().is_empty());
}
