//! The migration engine: every unit of an ordered list runs once, in order,
//! and a failing script stops the run.
//!
//! The engine decides which unit is next and keeps the bookkeeping. Running a
//! script against the store, together with its marker in one transaction, is
//! the caller's part; the caller reports back whether that transaction was
//! committed.

use crate::error::{ConfigurationError, MigrationError};
use vstd::prelude::*;

verus! {

/// One schema change: a name that identifies it and the script that makes it.
#[derive(Clone, Debug, PartialEq, Eq)]
pub struct MigrationUnit {
    /// Identifies the unit in the bookkeeping.
    pub name: String,
    /// What to run against the store.
    pub script: String,
}

/// What became of the script that the engine asked for.
#[derive(Clone, Copy, Debug, PartialEq, Eq, Structural)]
pub enum ScriptOutcome {
    /// The script and its marker were committed together.
    Committed,
    /// The script failed; neither its effects nor its marker were kept.
    Failed,
}

/// What the engine asks the caller to do next.
#[derive(Clone, Copy, Debug, PartialEq, Eq, Structural)]
pub enum MigrationAction {
    /// Run the script of the unit at `index` and report the outcome.
    Execute { index: usize },
    /// Every unit is applied; there is nothing left to do.
    Complete,
    /// A script failed; stop with `error` and run nothing more.
    Abort { error: MigrationError },
}

/// The names of a unit list, in list order.
pub open spec fn names_of(units: Seq<MigrationUnit>) -> Seq<Seq<char>> {
    Seq::new(units.len(), |i: int| units[i].name@)
}

/// The texts of a list of strings, in list order.
pub open spec fn texts_of(list: Seq<String>) -> Seq<Seq<char>> {
    Seq::new(list.len(), |i: int| list[i]@)
}

/// No name occurs twice.
pub open spec fn distinct(names: Seq<Seq<char>>) -> bool {
    forall|i: int, j: int| 0 <= i < j < names.len() ==> names[i] != names[j]
}

/// The name at `index` already occurs before it.
pub open spec fn repeats(names: Seq<Seq<char>>, index: int) -> bool {
    exists|i: int| 0 <= i < index && names[i] == names[index]
}

/// The first position at or after `from` whose name has no marker, or the
/// length of the list when there is none.
pub open spec fn next_pending(names: Seq<Seq<char>>, applied: Seq<Seq<char>>, from: int) -> int
    decreases names.len() - from,
{
    if from >= names.len() {
        names.len() as int
    } else if !applied.contains(names[from]) {
        from
    } else {
        next_pending(names, applied, from + 1)
    }
}

/// The positions that a list names.
pub open spec fn positions(list: Seq<usize>) -> Set<int> {
    Set::new(|at: int| exists|k: int| 0 <= k < list.len() && list[k] == at)
}

/// The engine as a value: the unit names, the bookkeeping and the failure,
/// if there was one.
pub struct MigrationState {
    /// The names of the units, in the order in which they must run.
    pub names: Seq<Seq<char>>,
    /// The markers: the names of the applied units, oldest first.
    pub applied: Seq<Seq<char>>,
    /// The position of the unit whose script failed.
    pub failed: Option<int>,
}

impl MigrationState {
    /// The names are distinct, and a failure is that of the first unit
    /// without a marker.
    pub open spec fn wf(self) -> bool {
        &&& distinct(self.names)
        &&& self.names.len() <= usize::MAX
        &&& self.failed matches Some(index) ==> index < self.names.len() && index
            == self.first_pending()
    }

    /// The first unit without a marker; the length of the list when every
    /// unit has one.
    pub open spec fn first_pending(self) -> int {
        next_pending(self.names, self.applied, 0)
    }

    /// A script is asked for: nothing has failed and a unit is without a
    /// marker.
    pub open spec fn pending(self) -> bool {
        self.failed is None && self.first_pending() < self.names.len()
    }

    /// What the engine asks for in this state.
    pub open spec fn next_action(self) -> MigrationAction {
        match self.failed {
            Some(index) => MigrationAction::Abort {
                error: MigrationError { index: index as usize },
            },
            None => if self.first_pending() < self.names.len() {
                MigrationAction::Execute { index: self.first_pending() as usize }
            } else {
                MigrationAction::Complete
            },
        }
    }

    /// The state after the caller reports `outcome` for the script that was
    /// asked for. Where none was asked for, the report changes nothing.
    pub open spec fn record(self, outcome: ScriptOutcome) -> MigrationState {
        if self.pending() {
            match outcome {
                ScriptOutcome::Committed => MigrationState {
                    applied: self.applied.push(self.names[self.first_pending()]),
                    ..self
                },
                ScriptOutcome::Failed => MigrationState {
                    failed: Some(self.first_pending()),
                    ..self
                },
            }
        } else {
            self
        }
    }

    /// The state in which a whole run ends: the engine is followed until it
    /// asks for no more script, and the script of the unit at `i` is committed
    /// exactly when `i` is not in `failing`.
    pub open spec fn run(self, failing: Set<int>) -> MigrationState
        decreases self.names.len() - self.first_pending(),
    {
        if !self.pending() {
            self
        } else if failing.contains(self.first_pending()) {
            self.record(ScriptOutcome::Failed)
        } else {
            proof {
                lemma_commit_advances(self);
            }
            self.record(ScriptOutcome::Committed).run(failing)
        }
    }

    /// The state of an engine that starts over on the same units with the
    /// bookkeeping as it stands.
    pub open spec fn restarted(self) -> MigrationState {
        MigrationState { failed: None, ..self }
    }
}

/// The migration engine over a unit list and the bookkeeping read from the
/// store.
pub struct Migrator {
    units: Vec<MigrationUnit>,
    applied: Vec<String>,
    failed: Option<usize>,
}

impl View for Migrator {
    type V = MigrationState;

    closed spec fn view(&self) -> MigrationState {
        MigrationState {
            names: names_of(self.units@),
            applied: texts_of(self.applied@),
            failed: match self.failed {
                Some(index) => Some(index as int),
                None => None,
            },
        }
    }
}

/// Whether `name` is among `list`.
fn holds(list: &Vec<String>, name: &String) -> (found: bool)
    ensures
        found == texts_of(list@).contains(name@),
{
    let mut k: usize = 0;
    while k < list.len()
        invariant
            k <= list.len(),
            forall|i: int| 0 <= i < k ==> texts_of(list@)[i] != name@,
        decreases list.len() - k,
    {
        if list[k] == *name {
            assert(texts_of(list@)[k as int] == name@);
            return true;
        }
        k = k + 1;
    }
    false
}

/// Whether `at` is among `list`.
fn names_position(list: &Vec<usize>, at: usize) -> (found: bool)
    ensures
        found == positions(list@).contains(at as int),
{
    let mut k: usize = 0;
    while k < list.len()
        invariant
            k <= list.len(),
            forall|i: int| 0 <= i < k ==> list[i] != at,
        decreases list.len() - k,
    {
        if list[k] == at {
            return true;
        }
        k = k + 1;
    }
    false
}

/// The first position whose name occurs before it, if any name occurs twice.
fn find_repeat(units: &Vec<MigrationUnit>) -> (found: Option<usize>)
    ensures
        match found {
            Some(index) => index < units.len() && repeats(names_of(units@), index as int)
                && forall|k: int| 0 <= k < index ==> !repeats(names_of(units@), k),
            None => distinct(names_of(units@)),
        },
{
    let ghost names = names_of(units@);
    let mut j: usize = 0;
    while j < units.len()
        invariant
            j <= units.len(),
            names == names_of(units@),
            forall|k: int| 0 <= k < j ==> !repeats(names, k),
        decreases units.len() - j,
    {
        let mut i: usize = 0;
        while i < j
            invariant
                i <= j < units.len(),
                names == names_of(units@),
                forall|k: int| 0 <= k < j ==> !repeats(names, k),
                forall|k: int| 0 <= k < i ==> names[k] != names[j as int],
            decreases j - i,
        {
            if units[i].name == units[j].name {
                assert(names[i as int] == names[j as int]);
                return Some(j);
            }
            i = i + 1;
        }
        j = j + 1;
    }
    assert forall|i: int, j: int| 0 <= i < j < names.len() implies names[i] != names[j] by {
        assert(!repeats(names, j));
    }
    None
}

impl Migrator {
    #[verifier::type_invariant]
    spec fn inv(self) -> bool {
        self@.wf()
    }

    /// The units that the engine works through, in order.
    pub closed spec fn units(&self) -> Seq<MigrationUnit> {
        self.units@
    }

    /// Starts an engine on `units`, with `applied` holding the names that the
    /// bookkeeping marks as applied. A name that occurs twice in the unit list
    /// is refused before any script is asked for; the error names the first
    /// position whose name occurred before it.
    pub fn new(units: Vec<MigrationUnit>, applied: Vec<String>) -> (engine: Result<
        Migrator,
        ConfigurationError,
    >)
        ensures
            match engine {
                Ok(migrator) => {
                    &&& distinct(names_of(units@))
                    &&& migrator.units() == units@
                    &&& migrator@ == (MigrationState {
                        names: names_of(units@),
                        applied: texts_of(applied@),
                        failed: None,
                    })
                    &&& migrator@.wf()
                },
                Err(error) => {
                    &&& !distinct(names_of(units@))
                    &&& error matches ConfigurationError::DuplicateMigrationName { index }
                    &&& index < units.len()
                    &&& repeats(names_of(units@), index as int)
                    &&& forall|k: int| 0 <= k < index ==> !repeats(names_of(units@), k)
                },
            },
    {
        match find_repeat(&units) {
            Some(index) => {
                proof {
                    let names = names_of(units@);
                    let i = choose|i: int| 0 <= i < index && names[i] == names[index as int];
                    assert(names[i] == names[index as int]);
                }
                Err(ConfigurationError::DuplicateMigrationName { index })
            },
            None => {
                assert(names_of(units@).len() == units.len());
                Ok(Migrator { units, applied, failed: None })
            },
        }
    }

    /// Number of units in the list.
    pub fn len(&self) -> (n: usize)
        ensures
            n == self@.names.len(),
    {
        self.units.len()
    }

    /// The unit at `index`, for the caller to run its script.
    pub fn unit(&self, index: usize) -> (unit: Option<&MigrationUnit>)
        ensures
            index < self@.names.len() ==> unit == Some(&self.units()[index as int])
                && self.units()[index as int].name@ == self@.names[index as int],
            index >= self@.names.len() ==> unit is None,
    {
        if index < self.units.len() {
            Some(&self.units[index])
        } else {
            None
        }
    }

    /// The names that the bookkeeping marks as applied, oldest first.
    pub fn applied(&self) -> (names: &Vec<String>)
        ensures
            texts_of(names@) == self@.applied,
    {
        &self.applied
    }

    /// The first unit without a marker, or the number of units.
    fn first_pending(&self) -> (at: usize)
        ensures
            at == self@.first_pending(),
            at <= self@.names.len(),
    {
        let ghost names = names_of(self.units@);
        let ghost applied = texts_of(self.applied@);
        let mut at: usize = 0;
        while at < self.units.len() && holds(&self.applied, &self.units[at].name)
            invariant
                at <= self.units.len(),
                names == names_of(self.units@),
                applied == texts_of(self.applied@),
                forall|i: int| 0 <= i < at ==> applied.contains(#[trigger] names[i]),
            decreases self.units.len() - at,
        {
            at = at + 1;
        }
        proof {
            lemma_first_pending_is(names, applied, at as int);
        }
        at
    }

    /// What the caller is to do next: run the script of the first unit
    /// without a marker, stop because every unit is applied, or stop on the
    /// failure that was reported.
    pub fn next_action(&self) -> (action: MigrationAction)
        ensures
            action == self@.next_action(),
            self@.wf(),
    {
        proof {
            use_type_invariant(self);
        }
        match self.failed {
            Some(index) => MigrationAction::Abort { error: MigrationError { index } },
            None => {
                let at = self.first_pending();
                if at < self.units.len() {
                    MigrationAction::Execute { index: at }
                } else {
                    MigrationAction::Complete
                }
            },
        }
    }

    /// Takes the outcome of the script that `next_action` asked for and
    /// returns what to do next. A commit adds the marker of that unit to the
    /// bookkeeping; a failure is kept, and from then on the engine asks for
    /// no script. Where no script was asked for, nothing changes.
    pub fn record(&mut self, outcome: ScriptOutcome) -> (action: MigrationAction)
        ensures
            final(self)@ == old(self)@.record(outcome),
            final(self).units() == old(self).units(),
            final(self)@.wf(),
            action == final(self)@.next_action(),
    {
        proof {
            use_type_invariant(&*self);
        }
        if self.failed.is_none() {
            let at = self.first_pending();
            if at < self.units.len() {
                match outcome {
                    ScriptOutcome::Committed => {
                        let name = self.units[at].name.clone();
                        let mut applied: Vec<String> = Vec::new();
                        core::mem::swap(&mut self.applied, &mut applied);
                        applied.push(name);
                        assert(texts_of(applied@) == old(self)@.applied.push(
                            old(self)@.names[at as int],
                        ));
                        self.applied = applied;
                    },
                    ScriptOutcome::Failed => {
                        self.failed = Some(at);
                    },
                }
            }
        }
        self.next_action()
    }

    /// Follows the engine to the end of a run in which the scripts at the
    /// positions in `failing` fail and every other script is committed.
    /// Returns the action that ends the run: `Complete`, or `Abort` on the
    /// first unit that was asked for and fails.
    pub fn run(&mut self, failing: &Vec<usize>) -> (action: MigrationAction)
        ensures
            final(self)@ == old(self)@.run(positions(failing@)),
            final(self).units() == old(self).units(),
            final(self)@.wf(),
            action == final(self)@.next_action(),
            !(action is Execute),
    {
        let ghost stops = positions(failing@);
        let mut action = self.next_action();
        loop
            invariant
                stops == positions(failing@),
                self@.wf(),
                self@.run(stops) == old(self)@.run(stops),
                self.units() == old(self).units(),
                action == self@.next_action(),
            ensures
                self@ == old(self)@.run(stops),
                self@.wf(),
                self.units() == old(self).units(),
                action == self@.next_action(),
                !(action is Execute),
            decreases self@.names.len() - self@.first_pending() + if self@.failed is None {
                1int
            } else {
                0int
            },
        {
            proof {
                lemma_next_pending(self@.names, self@.applied, 0);
            }
            match action {
                MigrationAction::Execute { index } => {
                    let ghost before = self@;
                    proof {
                        lemma_commit_advances(before);
                    }
                    let outcome = if names_position(failing, index) {
                        ScriptOutcome::Failed
                    } else {
                        ScriptOutcome::Committed
                    };
                    action = self.record(outcome);
                    proof {
                        lemma_next_pending(self@.names, self@.applied, 0);
                    }
                },
                _ => {
                    break ;
                },
            }
        }
        action
    }
}

/// The first pending position lies between `from` and the end of the list,
/// every unit between `from` and it has a marker, and it has none itself.
pub proof fn lemma_next_pending(names: Seq<Seq<char>>, applied: Seq<Seq<char>>, from: int)
    requires
        0 <= from <= names.len(),
    ensures
        from <= next_pending(names, applied, from) <= names.len(),
        forall|i: int|
            from <= i < next_pending(names, applied, from) ==> applied.contains(
                #[trigger] names[i],
            ),
        next_pending(names, applied, from) < names.len() ==> !applied.contains(
            names[next_pending(names, applied, from)],
        ),
    decreases names.len() - from,
{
    if from < names.len() && applied.contains(names[from]) {
        lemma_next_pending(names, applied, from + 1);
    }
}

/// Once the script of the first pending unit is committed, the first pending
/// unit is a later one.
pub proof fn lemma_commit_advances(state: MigrationState)
    requires
        state.pending(),
    ensures
        state.first_pending() < state.record(ScriptOutcome::Committed).first_pending()
            <= state.names.len(),
        state.record(ScriptOutcome::Committed).names == state.names,
{
    let at = state.first_pending();
    let next = state.record(ScriptOutcome::Committed);
    lemma_next_pending(state.names, state.applied, 0);
    lemma_next_pending(next.names, next.applied, 0);
    assert forall|i: int| 0 <= i <= at implies next.applied.contains(
        #[trigger] state.names[i],
    ) by {
        if i < at {
            let k = choose|k: int|
                0 <= k < state.applied.len() && state.applied[k] == state.names[i];
            assert(next.applied[k] == state.names[i]);
        } else {
            assert(next.applied[state.applied.len() as int] == state.names[at]);
        }
    }
    if next.first_pending() <= at {
        assert(next.applied.contains(state.names[next.first_pending()]));
    }
}

/// A position is the first pending one exactly when it has no marker and
/// every unit before it has one.
pub proof fn lemma_first_pending_is(names: Seq<Seq<char>>, applied: Seq<Seq<char>>, at: int)
    requires
        0 <= at <= names.len(),
        forall|i: int| 0 <= i < at ==> applied.contains(#[trigger] names[i]),
        at < names.len() ==> !applied.contains(names[at]),
    ensures
        next_pending(names, applied, 0) == at,
{
    lemma_next_pending(names, applied, 0);
    let found = next_pending(names, applied, 0);
    if found < at {
        assert(applied.contains(names[found]));
    } else if found > at {
        assert(applied.contains(names[at]));
    }
}

/// The first position from `from` on whose script fails, or `end`
/// when every script up to there passes.
pub open spec fn first_failure(failing: Set<int>, from: int, end: int) -> int
    decreases end - from,
{
    if from >= end {
        end
    } else if failing.contains(from) {
        from
    } else {
        first_failure(failing, from + 1, end)
    }
}

/// The first failure lies between `from` and `end`; every script before it
/// passes and its own does not.
pub proof fn lemma_first_failure(failing: Set<int>, from: int, end: int)
    requires
        from <= end,
    ensures
        from <= first_failure(failing, from, end) <= end,
        forall|i: int| from <= i < first_failure(failing, from, end) ==> !failing.contains(i),
        first_failure(failing, from, end) < end ==> failing.contains(
            first_failure(failing, from, end),
        ),
    decreases end - from,
{
    if from < end && !failing.contains(from) {
        lemma_first_failure(failing, from + 1, end);
    }
}

/// A report keeps the engine well formed and never touches the unit list;
/// a marker, once written, stays where it is.
pub proof fn lemma_record_keeps_markers(state: MigrationState, outcome: ScriptOutcome)
    requires
        state.wf(),
    ensures
        state.record(outcome).wf(),
        state.record(outcome).names == state.names,
        state.applied.len() <= state.record(outcome).applied.len(),
        state.record(outcome).applied.take(state.applied.len() as int) == state.applied,
{
    let next = state.record(outcome);
    if state.pending() {
        lemma_next_pending(state.names, state.applied, 0);
        match outcome {
            ScriptOutcome::Committed => {
                assert(next.applied.take(state.applied.len() as int) == state.applied);
            },
            ScriptOutcome::Failed => {},
        }
    }
}

/// A run that is over stays over: once every unit is applied, or once a
/// script has failed, running again asks for nothing and changes nothing.
pub proof fn lemma_finished_run_is_stable(state: MigrationState, failing: Set<int>)
    requires
        !state.pending(),
    ensures
        state.run(failing) == state,
        !(state.next_action() is Execute),
{
}

/// What holds at the end of every run, whatever the bookkeeping held at its
/// start and whichever scripts fail.
///
/// The run only adds markers behind those that were there. If it ends
/// without a failure, every unit has its marker. If it ends on a failure, the
/// failing unit is one whose script fails, it has no marker, the
/// engine asks to abort on it, and no unit behind it got a marker that it did
/// not have before; every unit before it has its marker.
pub proof fn lemma_run_outcome(state: MigrationState, failing: Set<int>)
    requires
        state.wf(),
        state.failed is None,
    ensures
        ({
            let end = state.run(failing);
            &&& end.wf()
            &&& end.names == state.names
            &&& !end.pending()
            &&& state.applied.len() <= end.applied.len()
            &&& end.applied.take(state.applied.len() as int) == state.applied
            &&& end.failed is None ==> end.next_action() == MigrationAction::Complete
                && forall|i: int|
                0 <= i < state.names.len() ==> end.applied.contains(#[trigger] state.names[i])
            &&& end.failed matches Some(at) ==> {
                &&& state.first_pending() <= at < state.names.len()
                &&& failing.contains(at)
                &&& !end.applied.contains(state.names[at])
                &&& end.next_action() == MigrationAction::Abort {
                    error: MigrationError { index: at as usize },
                }
                &&& forall|i: int|
                    0 <= i < at ==> end.applied.contains(#[trigger] state.names[i])
                &&& forall|i: int|
                    at < i < state.names.len() && end.applied.contains(#[trigger] state.names[i])
                        ==> state.applied.contains(state.names[i])
            }
        }),
    decreases state.names.len() - state.first_pending(),
{
    let end = state.run(failing);
    lemma_next_pending(state.names, state.applied, 0);
    if !state.pending() {
        assert(end == state);
    } else if failing.contains(state.first_pending()) {
        assert(end == state.record(ScriptOutcome::Failed));
    } else {
        let at = state.first_pending();
        let next = state.record(ScriptOutcome::Committed);
        lemma_commit_advances(state);
        lemma_record_keeps_markers(state, ScriptOutcome::Committed);
        lemma_run_outcome(next, failing);
        assert(end == next.run(failing));
        assert(end.applied.take(state.applied.len() as int) == state.applied) by {
            assert(end.applied.take(next.applied.len() as int).take(state.applied.len() as int)
                == end.applied.take(state.applied.len() as int));
        }
        if let Some(stop) = end.failed {
            assert forall|i: int|
                stop < i < state.names.len() && end.applied.contains(
                    #[trigger] state.names[i],
                ) implies state.applied.contains(state.names[i]) by {
                assert(next.applied.contains(state.names[i]));
                let k = choose|k: int|
                    0 <= k < next.applied.len() && next.applied[k] == state.names[i];
                if k == state.applied.len() {
                    assert(state.names[at] == state.names[i]);
                } else {
                    assert(state.applied[k] == state.names[i]);
                }
            }
        }
    }
}

/// Running again picks up where the bookkeeping stands.
///
/// When the markers are those of the first `done` units of the list, a run
/// asks for the scripts of the remaining units only, in list order, up to the
/// first one that fails. The markers that were there stay in front,
/// untouched; the new ones follow in list order. With no failing script the
/// run ends with every unit applied, and one more run changes nothing.
pub proof fn lemma_run_resumes_after_prefix(
    names: Seq<Seq<char>>,
    applied: Seq<Seq<char>>,
    done: int,
    failing: Set<int>,
)
    requires
        distinct(names),
        names.len() <= usize::MAX,
        0 <= done <= names.len(),
        forall|name: Seq<char>| applied.contains(name) <==> names.take(done).contains(name),
    ensures
        ({
            let start = MigrationState { names, applied, failed: None };
            let end = start.run(failing);
            let stop = first_failure(failing, done, names.len() as int);
            &&& start.first_pending() == done
            &&& end.names == names
            &&& end.applied == applied + names.subrange(done, stop)
            &&& end.failed == if stop < names.len() {
                Some(stop)
            } else {
                None
            }
            &&& stop == names.len() ==> end.restarted().run(failing) == end
        }),
    decreases names.len() - done,
{
    let start = MigrationState { names, applied, failed: None };
    let end = start.run(failing);
    let stop = first_failure(failing, done, names.len() as int);
    lemma_first_failure(failing, done, names.len() as int);
    assert(start.first_pending() == done) by {
        let head = names.take(done);
        assert forall|i: int| 0 <= i < done implies applied.contains(#[trigger] names[i]) by {
            assert(head[i] == names[i]);
            assert(head.contains(names[i]));
        }
        if done < names.len() && applied.contains(names[done]) {
            assert(head.contains(names[done]));
            let k = choose|k: int| 0 <= k < head.len() && head[k] == names[done];
            assert(names[k] == names[done]);
        }
        lemma_first_pending_is(names, applied, done);
    }
    if done == names.len() {
        assert(names.subrange(done, stop) == Seq::<Seq<char>>::empty());
        assert(applied + Seq::<Seq<char>>::empty() == applied);
    } else if failing.contains(done) {
        assert(names.subrange(done, stop) == Seq::<Seq<char>>::empty());
        assert(applied + Seq::<Seq<char>>::empty() == applied);
    } else {
        let next = start.record(ScriptOutcome::Committed);
        assert(next.applied == applied.push(names[done]));
        let head = names.take(done);
        let front = names.take(done + 1);
        assert forall|name: Seq<char>| next.applied.contains(name) <==> front.contains(name) by {
            if next.applied.contains(name) {
                let k = choose|k: int| 0 <= k < next.applied.len() && next.applied[k] == name;
                if k == applied.len() {
                    assert(front[done] == name);
                } else {
                    assert(applied[k] == name);
                    assert(applied.contains(name));
                    assert(head.contains(name));
                    let i = choose|i: int| 0 <= i < head.len() && head[i] == name;
                    assert(front[i] == name);
                }
            }
            if front.contains(name) {
                let i = choose|i: int| 0 <= i < front.len() && front[i] == name;
                if i == done {
                    assert(next.applied[applied.len() as int] == name);
                } else {
                    assert(head[i] == name);
                    assert(head.contains(name));
                    assert(applied.contains(name));
                    let k = choose|k: int| 0 <= k < applied.len() && applied[k] == name;
                    assert(next.applied[k] == name);
                }
            }
        }
        lemma_run_resumes_after_prefix(names, next.applied, done + 1, failing);
        assert(next == (MigrationState { names, applied: next.applied, failed: None }));
        assert(end == next.run(failing));
        assert(applied.push(names[done]) + names.subrange(done + 1, stop) == applied
            + names.subrange(done, stop));
    }
    if stop == names.len() {
        assert(end.failed is None);
        assert(end.restarted() == end);
        lemma_run_outcome(start, failing);
    }
}

/// The names between `from` and `to` that have no marker, in list order.
pub open spec fn unmarked(
    names: Seq<Seq<char>>,
    applied: Seq<Seq<char>>,
    from: int,
    to: int,
) -> Seq<Seq<char>>
    decreases to - from,
{
    if from >= to {
        Seq::empty()
    } else if applied.contains(names[from]) {
        unmarked(names, applied, from + 1, to)
    } else {
        seq![names[from]] + unmarked(names, applied, from + 1, to)
    }
}

/// The first position from `from` on that has no marker and whose script
/// fails, or the length of the list when there is none.
pub open spec fn halt(
    names: Seq<Seq<char>>,
    applied: Seq<Seq<char>>,
    failing: Set<int>,
    from: int,
) -> int
    decreases names.len() - from,
{
    if from >= names.len() {
        names.len() as int
    } else if !applied.contains(names[from]) && failing.contains(from) {
        from
    } else {
        halt(names, applied, failing, from + 1)
    }
}

/// Units that have their marker add nothing to the unmarked names and never
/// stop a run.
proof fn lemma_marked_are_skipped(
    names: Seq<Seq<char>>,
    applied: Seq<Seq<char>>,
    failing: Set<int>,
    from: int,
    mid: int,
    to: int,
)
    requires
        0 <= from <= mid <= to <= names.len(),
        forall|i: int| from <= i < mid ==> applied.contains(#[trigger] names[i]),
    ensures
        unmarked(names, applied, from, to) == unmarked(names, applied, mid, to),
        halt(names, applied, failing, from) == halt(names, applied, failing, mid),
    decreases mid - from,
{
    if from < mid {
        assert(applied.contains(names[from]));
        lemma_marked_are_skipped(names, applied, failing, from + 1, mid, to);
    }
}

/// Only the markers of the units between `from` and the end decide which of
/// them are unmarked and where a run stops.
proof fn lemma_same_markers_same_run(
    names: Seq<Seq<char>>,
    one: Seq<Seq<char>>,
    other: Seq<Seq<char>>,
    failing: Set<int>,
    from: int,
    to: int,
)
    requires
        0 <= from <= to <= names.len(),
        forall|i: int|
            from <= i < names.len() ==> one.contains(#[trigger] names[i]) == other.contains(
                names[i],
            ),
    ensures
        unmarked(names, one, from, to) == unmarked(names, other, from, to),
        halt(names, one, failing, from) == halt(names, other, failing, from),
    decreases names.len() - from,
{
    if from < names.len() {
        assert(one.contains(names[from]) == other.contains(names[from]));
        if from < to {
            lemma_same_markers_same_run(names, one, other, failing, from + 1, to);
        } else {
            lemma_same_markers_same_run(names, one, other, failing, from + 1, from + 1);
        }
    }
}

/// A run stops at or after `from`, and no unit without a marker fails
/// before the stop.
pub proof fn lemma_halt(
    names: Seq<Seq<char>>,
    applied: Seq<Seq<char>>,
    failing: Set<int>,
    from: int,
)
    requires
        0 <= from <= names.len(),
    ensures
        from <= halt(names, applied, failing, from) <= names.len(),
        forall|i: int|
            from <= i < halt(names, applied, failing, from) ==> applied.contains(
                #[trigger] names[i],
            ) || !failing.contains(i),
        halt(names, applied, failing, from) < names.len() ==> failing.contains(
            halt(names, applied, failing, from),
        ) && !applied.contains(names[halt(names, applied, failing, from)]),
    decreases names.len() - from,
{
    if from < names.len() && !(!applied.contains(names[from]) && failing.contains(from)) {
        lemma_halt(names, applied, failing, from + 1);
    }
}

/// Every unit runs at most once, in list order.
///
/// Whatever markers the bookkeeping holds at the start, a run adds, behind
/// them, the names of the units that had none, in list order, up to the first
/// such unit whose script fails. That unit is the failure that the run ends
/// on; where there is none, the run ends without a failure.
pub proof fn lemma_run_adds_unmarked_in_order(state: MigrationState, failing: Set<int>)
    requires
        state.wf(),
        state.failed is None,
    ensures
        ({
            let end = state.run(failing);
            let stop = halt(state.names, state.applied, failing, 0);
            &&& 0 <= stop <= state.names.len()
            &&& end.applied == state.applied + unmarked(state.names, state.applied, 0, stop)
            &&& end.failed == if stop < state.names.len() {
                Some(stop)
            } else {
                None
            }
        }),
    decreases state.names.len() - state.first_pending(),
{
    let names = state.names;
    let applied = state.applied;
    let at = state.first_pending();
    let stop = halt(names, applied, failing, 0);
    let size = names.len() as int;
    lemma_next_pending(names, applied, 0);
    lemma_halt(names, applied, failing, 0);
    lemma_marked_are_skipped(names, applied, failing, 0, at, size);
    if !state.pending() {
        lemma_marked_are_skipped(names, applied, failing, 0, at, at);
        assert(applied + Seq::<Seq<char>>::empty() == applied);
    } else if failing.contains(at) {
        lemma_marked_are_skipped(names, applied, failing, 0, at, at);
        assert(applied + Seq::<Seq<char>>::empty() == applied);
    } else {
        let next = state.record(ScriptOutcome::Committed);
        lemma_commit_advances(state);
        lemma_record_keeps_markers(state, ScriptOutcome::Committed);
        lemma_run_adds_unmarked_in_order(next, failing);
        lemma_next_pending(names, next.applied, 0);
        assert forall|i: int| at < i < size implies applied.contains(#[trigger] names[i])
            == next.applied.contains(names[i]) by {
            if applied.contains(names[i]) {
                let k = choose|k: int| 0 <= k < applied.len() && applied[k] == names[i];
                assert(next.applied[k] == names[i]);
            }
            if next.applied.contains(names[i]) {
                let k = choose|k: int| 0 <= k < next.applied.len() && next.applied[k] == names[i];
                if k == applied.len() {
                    assert(names[at] == names[i]);
                } else {
                    assert(applied[k] == names[i]);
                }
            }
        }
        assert forall|i: int| 0 <= i < at + 1 implies next.applied.contains(
            #[trigger] names[i],
        ) by {
            if i < at {
                let k = choose|k: int| 0 <= k < applied.len() && applied[k] == names[i];
                assert(next.applied[k] == names[i]);
            } else {
                assert(next.applied[applied.len() as int] == names[at]);
            }
        }
        lemma_marked_are_skipped(names, next.applied, failing, 0, at + 1, size);
        lemma_same_markers_same_run(names, applied, next.applied, failing, at + 1, size);
        assert(halt(names, next.applied, failing, 0) == stop);
        lemma_halt(names, applied, failing, at + 1);
        lemma_marked_are_skipped(names, applied, failing, 0, at, stop);
        lemma_marked_are_skipped(names, next.applied, failing, 0, at + 1, stop);
        lemma_same_markers_same_run(names, applied, next.applied, failing, at + 1, stop);
        assert(applied.push(names[at]) + unmarked(names, applied, at + 1, stop) == applied + (
        seq![names[at]] + unmarked(names, applied, at + 1, stop)));
    }
}

} // verus!
