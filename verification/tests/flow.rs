use nidrs_cli::context::{Context, Datum};
use nidrs_cli::event::{Event, Observer, Recorder};
use nidrs_cli::flow::{Action, Flow, Handler};
use std::cell::RefCell;
use std::rc::Rc;

/// Turns the text under "key" into capitals and appends "1"; the rollback undoes both.
struct Upper1;

impl Handler for Upper1 {
    fn execute(&self, payload: &mut Context) -> Result<(), anyhow::Error> {
        let key: &mut String = payload.get_text_mut("key").unwrap();
        *key = key.to_uppercase() + "1";
        Ok(())
    }

    fn rollback(&self, payload: &mut Context) -> Result<(), anyhow::Error> {
        let key: &mut String = payload.get_text_mut("key").unwrap();
        *key = key.to_lowercase().replace("1", "");
        Ok(())
    }
}

/// Appends "2" to the text under "key"; the rollback takes it away.
struct Append2;

impl Handler for Append2 {
    fn execute(&self, payload: &mut Context) -> Result<(), anyhow::Error> {
        let key: &mut String = payload.get_text_mut("key").unwrap();
        *key = key.to_string() + "2";
        Ok(())
    }

    fn rollback(&self, payload: &mut Context) -> Result<(), anyhow::Error> {
        let key: &mut String = payload.get_text_mut("key").unwrap();
        *key = key.to_lowercase().replace("2", "");
        Ok(())
    }
}

/// Appends its tag to the text under "trail" when it runs, and "~" and its tag when it is
/// rolled back; fails where it is told to.
struct Marker {
    tag: &'static str,
    fail_execute: bool,
    fail_rollback: bool,
}

impl Marker {
    fn new(tag: &'static str) -> Self {
        Marker { tag, fail_execute: false, fail_rollback: false }
    }

    fn failing(tag: &'static str) -> Self {
        Marker { tag, fail_execute: true, fail_rollback: false }
    }

    fn stuck(tag: &'static str) -> Self {
        Marker { tag, fail_execute: false, fail_rollback: true }
    }
}

impl Handler for Marker {
    fn execute(&self, ctx: &mut Context) -> Result<(), anyhow::Error> {
        if self.fail_execute {
            return Err(anyhow::Error::msg(format!("{} failed", self.tag)));
        }
        let trail = ctx.get_text_mut("trail").map_err(|e| e.into_error())?;
        trail.push_str(self.tag);
        Ok(())
    }

    fn rollback(&self, ctx: &mut Context) -> Result<(), anyhow::Error> {
        let trail = ctx.get_text_mut("trail").map_err(|e| e.into_error())?;
        trail.push('~');
        trail.push_str(self.tag);
        if self.fail_rollback {
            return Err(anyhow::Error::msg(format!("{} stuck", self.tag)));
        }
        Ok(())
    }
}

fn trail_context() -> Context {
    let mut ctx = Context::new();
    ctx.set("trail", Datum::Text(String::new()));
    ctx
}

fn trail(ctx: &Context) -> String {
    ctx.get_text("trail").unwrap().clone()
}

/// What a recorder was told, copied.
fn told(recorder: &Recorder) -> Vec<Event> {
    recorder.events().into_iter().map(copy).collect()
}

fn copy(event: &Event) -> Event {
    match event {
        Event::StepStarted { index, name } => started(*index, name),
        Event::StepSucceeded { index, name } => succeeded(*index, name),
        Event::StepFailed { index, name, error } => failed(*index, name, error),
        Event::RollbackStarted { index, name } => rollback_started(*index, name),
        Event::RollbackFailed { index, name, error } => rollback_failed(*index, name, error),
    }
}

fn started(index: usize, name: &str) -> Event {
    Event::StepStarted { index, name: name.to_string() }
}

fn succeeded(index: usize, name: &str) -> Event {
    Event::StepSucceeded { index, name: name.to_string() }
}

fn failed(index: usize, name: &str, error: &str) -> Event {
    Event::StepFailed { index, name: name.to_string(), error: error.to_string() }
}

fn rollback_started(index: usize, name: &str) -> Event {
    Event::RollbackStarted { index, name: name.to_string() }
}

fn rollback_failed(index: usize, name: &str, error: &str) -> Event {
    Event::RollbackFailed { index, name: name.to_string(), error: error.to_string() }
}

#[test]
fn test_flow() {
    struct TestHandler;

    impl Handler for TestHandler {
        fn execute(&self, payload: &mut Context) -> Result<(), anyhow::Error> {
            let key: &mut String = payload.get_text_mut("key").unwrap();
            *key = key.to_uppercase() + "1";
            Ok(())
        }

        fn rollback(&self, payload: &mut Context) -> Result<(), anyhow::Error> {
            let key: &mut String = payload.get_text_mut("key").unwrap();
            *key = key.to_lowercase().replace("1", "");
            Ok(())
        }
    }
    struct TestHandler2;

    impl Handler for TestHandler2 {
        fn execute(&self, payload: &mut Context) -> Result<(), anyhow::Error> {
            let key: &mut String = payload.get_text_mut("key").unwrap();
            *key = key.to_string() + "2";
            Ok(())
        }

        fn rollback(&self, payload: &mut Context) -> Result<(), anyhow::Error> {
            let key: &mut String = payload.get_text_mut("key").unwrap();
            *key = key.to_lowercase().replace("2", "");
            Ok(())
        }
    }

    let flow = Flow::new("test")
        .action(Action::new("test", Box::new(TestHandler)))
        .action(Action::new("test2", Box::new(TestHandler2)));

    let mut payload = Context::new();
    payload.set("key", Datum::Text("test".to_string()));
    flow.execute(&mut payload, &mut Recorder::new()).unwrap();
    let res: &String = payload.get_text("key").unwrap();
    assert_eq!(res, "TEST12");
}

#[test]
fn test_flow_rollback() {
    struct TestHandler;

    impl Handler for TestHandler {
        fn execute(&self, payload: &mut Context) -> Result<(), anyhow::Error> {
            let key: &mut String = payload.get_text_mut("key").unwrap();
            *key = key.to_uppercase() + "1";
            Ok(())
        }

        fn rollback(&self, payload: &mut Context) -> Result<(), anyhow::Error> {
            let key: &mut String = payload.get_text_mut("key").unwrap();
            *key = key.to_lowercase().replace("1", "");
            Ok(())
        }
    }
    struct TestHandler2;

    impl Handler for TestHandler2 {
        fn execute(&self, payload: &mut Context) -> Result<(), anyhow::Error> {
            let key: &mut String = payload.get_text_mut("key").unwrap();
            *key = key.to_string() + "2";
            Err(anyhow::Error::msg("Error"))
        }

        fn rollback(&self, payload: &mut Context) -> Result<(), anyhow::Error> {
            let key: &mut String = payload.get_text_mut("key").unwrap();
            *key = key.to_lowercase().replace("2", "");
            Ok(())
        }
    }

    let flow = Flow::new("test")
        .action(Action::new("test", Box::new(TestHandler)))
        .action(Action::new("test2", Box::new(TestHandler2)));

    let mut payload = Context::new();
    payload.set("key", Datum::Text("test".to_string()));
    let r = flow.execute(&mut payload, &mut Recorder::new());
    let res: &String = payload.get_text("key").unwrap();
    assert_eq!(res, "test");
    assert!(r.is_err());
}

#[test]
fn two_steps_uppercase_and_append() {
    let flow = Flow::new("scenario")
        .action(Action::new("first", Box::new(Upper1)))
        .action(Action::new("second", Box::new(Append2)));
    let mut ctx = Context::new();
    ctx.set("key", Datum::Text("test".to_string()));
    let mut recorder = Recorder::new();
    let result = flow.execute(&mut ctx, &mut recorder);
    assert!(result.is_ok());
    assert_eq!(ctx.get_text("key").unwrap(), "TEST12");
    assert_eq!(
        told(&recorder),
        vec![started(0, "first"), succeeded(0, "first"), started(1, "second"), succeeded(1, "second")]
    );
}

struct FailsUntouched;

impl Handler for FailsUntouched {
    fn execute(&self, _ctx: &mut Context) -> Result<(), anyhow::Error> {
        Err(anyhow::Error::msg("step two broke"))
    }

    fn rollback(&self, _ctx: &mut Context) -> Result<(), anyhow::Error> {
        Ok(())
    }
}

struct UpperOne;

impl Handler for UpperOne {
    fn execute(&self, ctx: &mut Context) -> Result<(), anyhow::Error> {
        let key = ctx.get_text_mut("key").map_err(|e| e.into_error())?;
        *key = key.to_uppercase() + "1";
        Ok(())
    }

    fn rollback(&self, ctx: &mut Context) -> Result<(), anyhow::Error> {
        let key = ctx.get_text_mut("key").map_err(|e| e.into_error())?;
        if *key == "TEST1" {
            *key = "test".to_string();
        }
        Ok(())
    }
}

#[test]
fn second_step_fails_and_first_is_restored() {
    let flow = Flow::new("scenario")
        .action(Action::new("one", Box::new(UpperOne)))
        .action(Action::new("two", Box::new(FailsUntouched)));
    let mut ctx = Context::new();
    ctx.set("key", Datum::Text("test".to_string()));
    let mut recorder = Recorder::new();
    let result = flow.execute(&mut ctx, &mut recorder);
    assert_eq!(result.unwrap_err().to_string(), "step two broke");
    assert_eq!(ctx.get_text("key").unwrap(), "test");
    assert_eq!(
        told(&recorder),
        vec![
            started(0, "one"),
            succeeded(0, "one"),
            started(1, "two"),
            failed(1, "two", "step two broke"),
            rollback_started(1, "two"),
            rollback_started(0, "one"),
        ]
    );
}

#[test]
fn a_failing_rollback_does_not_stop_the_sweep() {
    let flow = Flow::new("scenario")
        .action(Action::new("a", Box::new(Marker::new("a"))))
        .action(Action::new("b", Box::new(Marker::stuck("b"))))
        .action(Action::new("c", Box::new(Marker::failing("c"))));
    let mut ctx = trail_context();
    let mut recorder = Recorder::new();
    let result = flow.execute(&mut ctx, &mut recorder);
    assert_eq!(result.unwrap_err().to_string(), "c failed");
    assert_eq!(trail(&ctx), "ab~c~b~a");
    assert_eq!(
        told(&recorder),
        vec![
            started(0, "a"),
            succeeded(0, "a"),
            started(1, "b"),
            succeeded(1, "b"),
            started(2, "c"),
            failed(2, "c", "c failed"),
            rollback_started(2, "c"),
            rollback_started(1, "b"),
            rollback_failed(1, "b", "b stuck"),
            rollback_started(0, "a"),
        ]
    );
}

#[test]
fn every_step_succeeds_in_registration_order() {
    let flow = Flow::new("order")
        .action(Action::new("x", Box::new(Marker::new("x"))))
        .action(Action::new("y", Box::new(Marker::new("y"))))
        .action(Action::new("z", Box::new(Marker::new("z"))));
    let mut ctx = trail_context();
    let mut recorder = Recorder::new();
    assert!(flow.execute(&mut ctx, &mut recorder).is_ok());
    assert_eq!(trail(&ctx), "xyz");
    let events = recorder.events();
    assert_eq!(events.len(), 6);
    assert!(events
        .iter()
        .all(|e| !matches!(e, Event::RollbackStarted { .. } | Event::RollbackFailed { .. })));
}

#[test]
fn the_first_step_failing_rolls_back_itself_only() {
    let flow = Flow::new("early")
        .action(Action::new("a", Box::new(Marker::failing("a"))))
        .action(Action::new("b", Box::new(Marker::new("b"))));
    let mut ctx = trail_context();
    let mut recorder = Recorder::new();
    let result = flow.execute(&mut ctx, &mut recorder);
    assert_eq!(result.unwrap_err().to_string(), "a failed");
    assert_eq!(trail(&ctx), "~a");
    assert_eq!(
        told(&recorder),
        vec![started(0, "a"), failed(0, "a", "a failed"), rollback_started(0, "a")]
    );
}

#[test]
fn an_empty_flow_succeeds_and_says_nothing() {
    let flow = Flow::new("empty");
    let mut ctx = trail_context();
    let mut recorder = Recorder::new();
    assert!(flow.execute(&mut ctx, &mut recorder).is_ok());
    assert_eq!(trail(&ctx), "");
    assert!(recorder.events().is_empty());
}

#[test]
fn every_rollback_failing_still_returns_the_step_error() {
    let flow = Flow::new("stuck")
        .action(Action::new("a", Box::new(Marker::stuck("a"))))
        .action(Action::new("b", Box::new(Marker::stuck("b"))))
        .action(Action::new("c", Box::new(FailsUntouched)));
    let mut ctx = trail_context();
    let mut recorder = Recorder::new();
    let result = flow.execute(&mut ctx, &mut recorder);
    assert_eq!(result.unwrap_err().to_string(), "step two broke");
    assert_eq!(trail(&ctx), "ab~b~a");
    let starts: Vec<usize> = recorder
        .events()
        .iter()
        .filter_map(|e| match e {
            Event::RollbackStarted { index, .. } => Some(*index),
            _ => None,
        })
        .collect();
    assert_eq!(starts, vec![2, 1, 0]);
}

#[test]
fn rollback_sweeps_from_the_given_index_down() {
    let flow = Flow::new("sweep")
        .action(Action::new("a", Box::new(Marker::new("a"))))
        .action(Action::new("b", Box::new(Marker::stuck("b"))))
        .action(Action::new("c", Box::new(Marker::new("c"))));
    let mut ctx = trail_context();
    let mut recorder = Recorder::new();
    assert!(flow.rollback(1, &mut ctx, &mut recorder).is_ok());
    assert_eq!(trail(&ctx), "~b~a");
    assert_eq!(
        told(&recorder),
        vec![rollback_started(1, "b"), rollback_failed(1, "b", "b stuck"), rollback_started(0, "a")]
    );
}

#[test]
fn a_recorder_keeps_what_it_had_seen_before() {
    let flow = Flow::new("again").action(Action::new("a", Box::new(Marker::new("a"))));
    let mut recorder = Recorder::new();
    let mut first = trail_context();
    let mut second = trail_context();
    flow.execute(&mut first, &mut recorder).unwrap();
    flow.execute(&mut second, &mut recorder).unwrap();
    assert_eq!(
        told(&recorder),
        vec![started(0, "a"), succeeded(0, "a"), started(0, "a"), succeeded(0, "a")]
    );
}

fn run_on(flow: &Flow, start: &str) -> (Option<String>, String, Vec<Event>) {
    let mut ctx = Context::new();
    ctx.set("key", Datum::Text(start.to_string()));
    let mut recorder = Recorder::new();
    let result = flow.execute(&mut ctx, &mut recorder);
    let events = told(&recorder);
    (result.err().map(|e| e.to_string()), ctx.get_text("key").unwrap().clone(), events)
}

#[test]
fn two_runs_of_one_flow_do_not_depend_on_their_order() {
    let flow = Flow::new("twice")
        .action(Action::new("one", Box::new(Upper1)))
        .action(Action::new("two", Box::new(Append2)));
    let a_first = run_on(&flow, "alpha");
    let b_second = run_on(&flow, "beta");
    let b_first = run_on(&flow, "beta");
    let a_second = run_on(&flow, "alpha");
    assert_eq!(a_first, a_second);
    assert_eq!(b_first, b_second);
    assert_eq!(a_first.1, "ALPHA12");
    assert_eq!(b_first.1, "BETA12");
}

/// Writes into a log that the handlers below write into as well.
struct Live {
    log: Rc<RefCell<Vec<String>>>,
}

impl Observer for Live {
    fn notify(&mut self, event: Event, _ctx: &Context) {
        let line = match event {
            Event::StepStarted { index, .. } => format!("started {index}"),
            Event::StepSucceeded { index, .. } => format!("succeeded {index}"),
            Event::StepFailed { index, error, .. } => format!("failed {index}: {error}"),
            Event::RollbackStarted { index, .. } => format!("rollback started {index}"),
            Event::RollbackFailed { index, error, .. } => format!("rollback failed {index}: {error}"),
        };
        self.log.borrow_mut().push(line);
    }
}

struct Loud {
    tag: usize,
    fail: bool,
    log: Rc<RefCell<Vec<String>>>,
}

impl Handler for Loud {
    fn execute(&self, _ctx: &mut Context) -> Result<(), anyhow::Error> {
        self.log.borrow_mut().push(format!("execute {}", self.tag));
        if self.fail {
            Err(anyhow::Error::msg("no"))
        } else {
            Ok(())
        }
    }

    fn rollback(&self, _ctx: &mut Context) -> Result<(), anyhow::Error> {
        self.log.borrow_mut().push(format!("rollback {}", self.tag));
        Err(anyhow::Error::msg("stuck"))
    }
}

#[test]
fn events_are_told_as_they_happen() {
    let log = Rc::new(RefCell::new(Vec::new()));
    let flow = Flow::new("live")
        .action(Action::new("a", Box::new(Loud { tag: 0, fail: false, log: log.clone() })))
        .action(Action::new("b", Box::new(Loud { tag: 1, fail: true, log: log.clone() })));
    let mut ctx = Context::new();
    let mut live = Live { log: log.clone() };
    assert!(flow.execute(&mut ctx, &mut live).is_err());
    let lines: Vec<String> = log.borrow().clone();
    assert_eq!(
        lines,
        vec![
            "started 0",
            "execute 0",
            "succeeded 0",
            "started 1",
            "execute 1",
            "failed 1: no",
            "rollback started 1",
            "rollback 1",
            "rollback failed 1: stuck",
            "rollback started 0",
            "rollback 0",
            "rollback failed 0: stuck",
        ]
    );
}

#[test]
fn a_failed_lookup_is_a_failure_of_the_step() {
    let flow = Flow::new("lookup").action(Action::new("a", Box::new(Marker::new("a"))));
    let mut ctx = Context::new();
    let mut recorder = Recorder::new();
    let result = flow.execute(&mut ctx, &mut recorder);
    assert_eq!(result.unwrap_err().to_string(), "key not found in the context");
    assert_eq!(
        told(&recorder),
        vec![
            started(0, "a"),
            failed(0, "a", "key not found in the context"),
            rollback_started(0, "a"),
            rollback_failed(0, "a", "key not found in the context"),
        ]
    );
}

/// Keeps, for each event, the text that stood under "trail" when the event was told.
struct Watcher {
    seen: Vec<(String, String)>,
}

impl Observer for Watcher {
    fn notify(&mut self, event: Event, ctx: &Context) {
        let label = match event {
            Event::StepStarted { name, .. } => format!("start {name}"),
            Event::StepSucceeded { name, .. } => format!("done {name}"),
            Event::StepFailed { name, .. } => format!("failed {name}"),
            Event::RollbackStarted { name, .. } => format!("undo {name}"),
            Event::RollbackFailed { name, .. } => format!("stuck {name}"),
        };
        self.seen.push((label, ctx.get_text("trail").unwrap().clone()));
    }
}

#[test]
fn an_observer_sees_the_context_of_the_moment() {
    let flow = Flow::new("watched")
        .action(Action::new("a", Box::new(Marker::new("a"))))
        .action(Action::new("b", Box::new(Marker::stuck("b"))))
        .action(Action::new("c", Box::new(Marker::failing("c"))));
    let mut ctx = trail_context();
    let mut watcher = Watcher { seen: Vec::new() };
    assert!(flow.execute(&mut ctx, &mut watcher).is_err());
    let seen: Vec<(&str, &str)> = watcher.seen.iter().map(|(l, t)| (l.as_str(), t.as_str())).collect();
    assert_eq!(
        seen,
        vec![
            ("start a", ""),
            ("done a", "a"),
            ("start b", "a"),
            ("done b", "ab"),
            ("start c", "ab"),
            ("failed c", "ab"),
            ("undo c", "ab"),
            ("undo b", "ab~c"),
            ("stuck b", "ab~c~b"),
            ("undo a", "ab~c~b"),
        ]
    );
    assert_eq!(trail(&ctx), "ab~c~b~a");
}
