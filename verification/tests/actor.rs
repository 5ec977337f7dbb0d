use coco_search::local::{settle, CommitTask, EngineSlots, SourceKey, Task, TaskResult};

struct Append {
    backend: &'static str,
    text: &'static str,
    seen: Option<Vec<String>>,
}

impl Task<Vec<String>> for Append {
    fn source_key(&self) -> SourceKey {
        unreachable!("a statement about the task, never run")
    }

    fn search_source_id(&self) -> String {
        self.backend.to_string()
    }

    fn exec(&mut self, state: &mut Option<Vec<String>>) {
        self.seen = state.clone();
        let mut next = state.clone().unwrap_or_default();
        next.push(self.text.to_string());
        let _ = settle(state, TaskResult::Committed(next));
    }
}

struct Failing {
    backend: &'static str,
    reply: Option<Result<(), String>>,
}

impl Task<Vec<String>> for Failing {
    fn source_key(&self) -> SourceKey {
        unreachable!("a statement about the task, never run")
    }

    fn search_source_id(&self) -> String {
        self.backend.to_string()
    }

    fn exec(&mut self, state: &mut Option<Vec<String>>) {
        self.reply = Some(settle(state, TaskResult::Failed("disk full".to_string())));
    }
}

#[test]
fn a_slot_is_empty_until_a_task_sets_its_state() {
    let mut slots: EngineSlots<Vec<String>> = EngineSlots::new();
    assert!(!slots.is_ready("application"));
    let mut failing = Failing { backend: "application", reply: None };
    slots.run(&mut failing);
    assert!(!slots.is_ready("application"));
    let mut first = Append { backend: "application", text: "one", seen: None };
    slots.run(&mut first);
    assert!(slots.is_ready("application"));
    assert_eq!(first.seen, None);
}

#[test]
fn the_second_task_sees_what_the_first_committed() {
    let mut slots: EngineSlots<Vec<String>> = EngineSlots::new();
    let mut first = Append { backend: "application", text: "one", seen: None };
    let mut second = Append { backend: "application", text: "two", seen: None };
    slots.run(&mut first);
    slots.run(&mut second);
    assert_eq!(second.seen, Some(vec!["one".to_string()]));
    assert_eq!(
        slots.checkout("application"),
        Some(vec!["one".to_string(), "two".to_string()])
    );
}

#[test]
fn a_failed_task_leaves_the_state_as_it_was() {
    let mut slots: EngineSlots<Vec<String>> = EngineSlots::new();
    let mut first = Append { backend: "application", text: "one", seen: None };
    slots.run(&mut first);
    let mut failing = Failing { backend: "application", reply: None };
    slots.run(&mut failing);
    assert_eq!(failing.reply, Some(Err("disk full".to_string())));
    let mut third = Append { backend: "application", text: "three", seen: None };
    slots.run(&mut third);
    assert_eq!(third.seen, Some(vec!["one".to_string()]));
}

#[test]
fn tasks_of_one_backend_do_not_touch_the_state_of_another() {
    let mut slots: EngineSlots<Vec<String>> = EngineSlots::new();
    let mut a = Append { backend: "a", text: "for a", seen: None };
    let mut b = Append { backend: "b", text: "for b", seen: None };
    slots.run(&mut a);
    slots.run(&mut b);
    assert_eq!(b.seen, None);
    assert_eq!(slots.checkout("a"), Some(vec!["for a".to_string()]));
    assert_eq!(slots.checkout("b"), Some(vec!["for b".to_string()]));
    // a state that was taken out is gone until it is put back
    assert!(!slots.is_ready("a"));
    slots.restore("a", Some(vec!["back".to_string()]));
    assert!(slots.is_ready("a"));
    assert_eq!(slots.checkout("missing"), None);
}

#[test]
fn settling_commits_on_success_only() {
    let mut state = Some(1u32);
    assert_eq!(settle(&mut state, TaskResult::Failed("no".to_string())), Err("no".to_string()));
    assert_eq!(state, Some(1));
    assert_eq!(settle(&mut state, TaskResult::Committed(2)), Ok(()));
    assert_eq!(state, Some(2));
    let mut empty: Option<u32> = None;
    assert_eq!(settle(&mut empty, TaskResult::Failed("no".to_string())), Err("no".to_string()));
    assert_eq!(empty, None);
}

#[test]
fn a_commit_task_settles_its_result_once() {
    let mut slots: EngineSlots<u32> = EngineSlots::new();
    let mut first = CommitTask::new("application".to_string(), TaskResult::Committed(7));
    assert_eq!(first.search_source_id(), "application");
    slots.run(&mut first);
    assert_eq!(first.reply, Some(Ok(())));
    assert!(first.result.is_none());
    let mut failed = CommitTask::new(
        "application".to_string(),
        TaskResult::Failed("no index".to_string()),
    );
    slots.run(&mut failed);
    assert_eq!(failed.reply, Some(Err("no index".to_string())));
    // a task that ran has nothing left to settle
    slots.run(&mut first);
    assert_eq!(slots.checkout("application"), Some(7));
}
