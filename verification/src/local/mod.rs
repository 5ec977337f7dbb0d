use vstd::prelude::*;
use vstd::string::StringExecFns;
use crate::common::table::KeyedTable;

pub mod application;
pub mod calculator;

verus! {

/// The kind of every backend that searches this machine.
pub const LOCAL_QUERY_SOURCE_TYPE: &'static str = "local";

/// The id of a backend as text.
pub struct SourceKey {
    pub id: Seq<char>,
}

/// A unit of work on the engine state of one backend.
pub trait Task<St> {
    /// The backend whose engine state the task works on.
    spec fn source_key(&self) -> SourceKey;

    /// Tells the id of the backend whose engine state the task works on.
    fn search_source_id(&self) -> (id: String)
        ensures
            id@ == self.source_key().id,
    ;

    /// Does the work. `state` is absent until a task has set it.
    fn exec(&mut self, state: &mut Option<St>);
}

/// What a task has to report once its work is done.
pub enum TaskResult<St> {
    /// The work succeeded and left a new engine state.
    Committed(St),
    /// The work failed.
    Failed(String),
}

/// The engine state after a task reported: the new state where the task
/// succeeded, the old one where it failed.
pub open spec fn settled<St>(state: Option<St>, result: TaskResult<St>) -> Option<St> {
    match result {
        TaskResult::Committed(next) => Some(next),
        TaskResult::Failed(_) => state,
    }
}

/// What the one who sent a task is told: success, or the task's error.
pub open spec fn reply_to<St>(result: TaskResult<St>) -> Result<(), String> {
    match result {
        TaskResult::Committed(_) => Ok(()),
        TaskResult::Failed(error) => Err(error),
    }
}

/// Ends a task: stores the new engine state where the task succeeded, leaves
/// the state as it was where it failed, and gives the reply for the sender.
pub fn settle<St>(state: &mut Option<St>, result: TaskResult<St>) -> (reply: Result<(), String>)
    ensures
        *final(state) == settled(*old(state), result),
        reply == reply_to(result),
{
    match result {
        TaskResult::Committed(next) => {
            *state = Some(next);
            Ok(())
        },
        TaskResult::Failed(error) => Err(error),
    }
}

/// A task that failed leaves the engine state as it was; after one that
/// succeeded, the next one finds the state that it committed, whatever it
/// reports itself.
pub proof fn lemma_settled_in_turn<St>(
    state: Option<St>,
    first: TaskResult<St>,
    second: TaskResult<St>,
)
    ensures
        first is Failed ==> settled(state, first) == state,
        first is Committed ==> settled(state, first) == Some(first->Committed_0),
        first is Committed && second is Failed ==> settled(settled(state, first), second)
            == Some(first->Committed_0),
        second is Committed ==> settled(settled(state, first), second) == Some(
            second->Committed_0,
        ),
{
}

/// The engine states of all backends, each under the id of its backend and
/// touched only by the tasks for that backend, one task at a time.
pub struct EngineSlots<St> {
    states: KeyedTable<Option<St>>,
}

impl<St> View for EngineSlots<St> {
    type V = Map<Seq<char>, Option<St>>;

    /// The slots as a map from backend ids to engine states; a backend whose
    /// state no task has set yet has an empty slot.
    closed spec fn view(&self) -> Map<Seq<char>, Option<St>> {
        self.states@
    }
}

impl<St> EngineSlots<St> {
    /// The ids of the backends that have a slot, in the order in which their
    /// first tasks came.
    pub closed spec fn ids(&self) -> Seq<Seq<char>> {
        self.states.keys()
    }

    /// No backend has two slots.
    pub closed spec fn well_formed(&self) -> bool {
        self.states.well_formed()
    }

    /// The engine state of a backend: absent where the backend has no slot
    /// or no task has set its state.
    pub open spec fn state_of(&self, id: Seq<char>) -> Option<St> {
        if self@.contains_key(id) {
            self@[id]
        } else {
            None
        }
    }

    /// Slots for no backend.
    pub fn new() -> (slots: Self)
        ensures
            slots.well_formed(),
            slots@ == Map::<Seq<char>, Option<St>>::empty(),
            slots.ids() == Seq::<Seq<char>>::empty(),
    {
        EngineSlots { states: KeyedTable::new() }
    }

    /// Tells whether a task has set the engine state of a backend.
    pub fn is_ready(&self, id: &str) -> (ready: bool)
        requires
            self.well_formed(),
        ensures
            ready == self.state_of(id@).is_some(),
    {
        match self.states.get(id) {
            Some(state) => state.is_some(),
            None => false,
        }
    }

    /// Takes the engine state of a backend out of its slot, for the task
    /// that is about to run. A backend without a slot gets an empty one.
    pub fn checkout(&mut self, id: &str) -> (state: Option<St>)
        requires
            old(self).well_formed(),
        ensures
            final(self).well_formed(),
            state == old(self).state_of(id@),
            final(self)@ == old(self)@.insert(id@, None),
            final(self).ids() == if old(self).ids().contains(id@) {
                old(self).ids()
            } else {
                old(self).ids().push(id@)
            },
    {
        let key = String::from_str(id);
        match self.states.insert(key, None) {
            Some(state) => state,
            None => None,
        }
    }

    /// Puts the engine state of a backend back into its slot, as the task
    /// that ran left it.
    pub fn restore(&mut self, id: &str, state: Option<St>)
        requires
            old(self).well_formed(),
        ensures
            final(self).well_formed(),
            final(self)@ == old(self)@.insert(id@, state),
            final(self).state_of(id@) == state,
            final(self).ids() == if old(self).ids().contains(id@) {
                old(self).ids()
            } else {
                old(self).ids().push(id@)
            },
    {
        let key = String::from_str(id);
        let _ = self.states.insert(key, state);
    }

    /// Runs one task to its end on the engine state of its backend. The
    /// slots of all other backends stay as they are.
    pub fn run<T: Task<St>>(&mut self, task: &mut T)
        requires
            old(self).well_formed(),
        ensures
            final(self).well_formed(),
            final(self)@.dom() == old(self)@.dom().insert(old(task).source_key().id),
            forall|id: Seq<char>|
                id != old(task).source_key().id ==> final(self).state_of(id) == old(self).state_of(id),
            final(self).ids() == if old(self).ids().contains(old(task).source_key().id) {
                old(self).ids()
            } else {
                old(self).ids().push(old(task).source_key().id)
            },
    {
        let id = task.search_source_id();
        let ghost before = self@;
        let mut state = self.checkout(id.as_str());
        task.exec(&mut state);
        self.restore(id.as_str(), state);
        proof {
            assert(self@.dom() =~= before.dom().insert(id@));
        }
    }
}

/// A task whose work was done where it was made: on its turn it settles the
/// result that it carries, once, and keeps the reply for its sender.
pub struct CommitTask<St> {
    pub backend: String,
    pub result: Option<TaskResult<St>>,
    pub reply: Option<Result<(), String>>,
}

impl<St> CommitTask<St> {
    /// A task that settles `result` on the engine state of `backend`.
    pub fn new(backend: String, result: TaskResult<St>) -> (task: Self)
        ensures
            task.backend == backend,
            task.result == Some(result),
            task.reply is None,
    {
        CommitTask { backend, result: Some(result), reply: None }
    }

    /// Settles the result that the task carries, if it still carries one.
    pub fn settle_on(&mut self, state: &mut Option<St>)
        ensures
            final(self).backend == old(self).backend,
            final(self).result is None,
            match old(self).result {
                Some(result) => {
                    &&& *final(state) == settled(*old(state), result)
                    &&& final(self).reply == Some(reply_to(result))
                },
                None => {
                    &&& *final(state) == *old(state)
                    &&& final(self).reply == old(self).reply
                },
            },
    {
        match self.result.take() {
            Some(result) => {
                self.reply = Some(settle(state, result));
            },
            None => {},
        }
    }
}

impl<St> Task<St> for CommitTask<St> {
    open spec fn source_key(&self) -> SourceKey {
        SourceKey { id: self.backend@ }
    }

    fn search_source_id(&self) -> (id: String) {
        self.backend.clone()
    }

    fn exec(&mut self, state: &mut Option<St>)
        ensures
            final(self).backend == old(self).backend,
            final(self).result is None,
            match old(self).result {
                Some(result) => {
                    &&& *final(state) == settled(*old(state), result)
                    &&& final(self).reply == Some(reply_to(result))
                },
                None => {
                    &&& *final(state) == *old(state)
                    &&& final(self).reply == old(self).reply
                },
            },
    {
        self.settle_on(state);
    }
}

} // verus!
