use vstd::prelude::*;
use vstd::string::*;
use crate::sorted::{strictly_sorted, SortedTexts};
use crate::text::{chars_of, line_end, lines, lines_from, trim, trimmed};
use crate::validation::{Renaming, RenamingView};

verus! {

/// The result of applying one renaming: the renaming, and the description of
/// the failure if it failed.
pub type Applied = (Renaming, Result<(), String>);

/// An applied renaming as paths and, for a failure, the characters of its description.
pub type AppliedView = (RenamingView, Result<(), Seq<char>>);

/// What an operation on the file system came to: success, or the description
/// of the failure.
pub open spec fn outcome_view(outcome: Result<(), String>) -> Result<(), Seq<char>> {
    match outcome {
        Ok(_) => Ok(()),
        Err(description) => Err(description@),
    }
}

/// The view of an applied renaming.
pub open spec fn applied_view(applied: Applied) -> AppliedView {
    (applied.0@, outcome_view(applied.1))
}

/// The views of applied renamings, in order.
pub open spec fn applied_views(results: Seq<Applied>) -> Seq<AppliedView> {
    results.map_values(|applied: Applied| applied_view(applied))
}

/// What the engine asks of the file system, one operation at a time.
#[derive(Debug, PartialEq, Eq)]
pub enum FileOperation {
    /// Create the directory that is to hold this path, with every directory
    /// above it that is missing. Nothing is to be done, and that is a
    /// success, where the directory exists or the path has no parent.
    CreateParent(String),
    /// Rename the first path to the second.
    Rename(String, String),
}

/// An operation as the characters of its paths.
pub enum FileOperationView {
    CreateParent(Seq<char>),
    Rename(Seq<char>, Seq<char>),
}

impl View for FileOperation {
    type V = FileOperationView;

    open spec fn view(&self) -> FileOperationView {
        match self {
            FileOperation::CreateParent(path) => FileOperationView::CreateParent(path@),
            FileOperation::Rename(from, to) => FileOperationView::Rename(from@, to@),
        }
    }
}

/// The state of the engine: the batch, what came of the renamings that are
/// done, and whether the parent directory of the next target is ready.
pub struct EngineView {
    pub batch: Seq<RenamingView>,
    pub done: Seq<Result<(), Seq<char>>>,
    pub prepared: bool,
}

impl EngineView {
    /// No more renamings are done than the batch holds, and a directory is
    /// only ready for a renaming that is still to be done.
    pub open spec fn well_formed(self) -> bool {
        &&& self.done.len() <= self.batch.len()
        &&& self.prepared ==> self.done.len() < self.batch.len()
    }

    /// Every renaming of the batch is done.
    pub open spec fn finished(self) -> bool {
        self.done.len() >= self.batch.len()
    }

    /// The operation that is due: for each renaming first the parent
    /// directory of its target, then the renaming itself.
    pub open spec fn operation(self) -> FileOperationView {
        let renaming = self.batch[self.done.len() as int];
        if self.prepared {
            FileOperationView::Rename(renaming.0, renaming.1)
        } else {
            FileOperationView::CreateParent(renaming.1)
        }
    }

    /// The state after the operation that was due came to `outcome`.
    ///
    /// A directory that could not be made is the failure of its renaming,
    /// which is then not attempted. Otherwise the outcome of the renaming is
    /// its result. Either way the next renaming starts afresh.
    pub open spec fn recorded(self, outcome: Result<(), Seq<char>>) -> EngineView {
        if !self.prepared && outcome is Ok {
            EngineView { prepared: true, ..self }
        } else {
            EngineView { done: self.done.push(outcome), prepared: false, ..self }
        }
    }

    /// Each renaming of the batch with what came of it.
    pub open spec fn results(self) -> Seq<AppliedView> {
        Seq::new(self.batch.len(), |i: int| (self.batch[i], self.done[i]))
    }
}

/// The engine that applies a batch: it hands out one operation at a time and
/// is told what came of it. It attempts every renaming, in order, whatever
/// became of the others, and undoes nothing.
#[derive(Debug)]
pub struct ApplyEngine {
    renamings: Vec<Renaming>,
    results: Vec<Applied>,
    prepared: bool,
}

/// An engine that has handed out an operation and waits for its outcome.
#[derive(Debug)]
pub struct Pending {
    engine: ApplyEngine,
}

/// What the engine does next.
#[derive(Debug)]
pub enum Step {
    /// This operation is to be performed, and its outcome recorded.
    Perform(FileOperation, Pending),
    /// All is done: each renaming with its result, in the order of the batch.
    Finished(Vec<Applied>),
}

impl ApplyEngine {
    #[verifier::type_invariant]
    spec fn inv(self) -> bool {
        &&& self.results@.len() <= self.renamings@.len()
        &&& self.prepared ==> self.results@.len() < self.renamings@.len()
        &&& forall|i: int|
            0 <= i < self.results@.len() ==> (#[trigger] self.results@[i]).0@ == self.renamings@[i]@
    }
}

impl View for ApplyEngine {
    type V = EngineView;

    closed spec fn view(&self) -> EngineView {
        EngineView {
            batch: self.renamings.deep_view(),
            done: self.results@.map_values(|applied: Applied| outcome_view(applied.1)),
            prepared: self.prepared,
        }
    }
}

impl Pending {
    #[verifier::type_invariant]
    spec fn inv(self) -> bool {
        self.engine.results@.len() < self.engine.renamings@.len()
    }
}

impl View for Pending {
    type V = EngineView;

    closed spec fn view(&self) -> EngineView {
        self.engine@
    }
}

/// Starts applying the renamings: the engine that will ask for each of them
/// in turn, with nothing done yet.
pub fn apply_renamings(renamings: Vec<Renaming>) -> (engine: ApplyEngine)
    ensures
        engine@ == (EngineView {
            batch: renamings.deep_view(),
            done: Seq::<Result<(), Seq<char>>>::empty(),
            prepared: false,
        }),
        engine@.well_formed(),
{
    let engine = ApplyEngine { renamings, results: Vec::new(), prepared: false };
    assert(engine@.done =~= Seq::<Result<(), Seq<char>>>::empty());
    engine
}

impl ApplyEngine {
    /// Says what is to be done next: the operation that is due, or, when every
    /// renaming is done, the results.
    pub fn next(self) -> (step: Step)
        ensures
            self@.well_formed(),
            match step {
                Step::Perform(operation, pending) => !self@.finished() && pending@ == self@
                    && operation@ == self@.operation(),
                Step::Finished(results) => self@.finished() && applied_views(results@)
                    == self@.results(),
            },
    {
        proof {
            use_type_invariant(&self);
        }
        let index: usize = self.results.len();
        if index == self.renamings.len() {
            assert(applied_views(self.results@) =~= self@.results()) by {
                assert forall|i: int| 0 <= i < self.results@.len() implies applied_views(
                    self.results@,
                )[i] == self@.results()[i] by {
                    assert(self.results@[i].0@ == self.renamings@[i]@);
                }
            }
            Step::Finished(self.results)
        } else {
            let operation = if self.prepared {
                FileOperation::Rename(
                    self.renamings[index].0.clone(),
                    self.renamings[index].1.clone(),
                )
            } else {
                FileOperation::CreateParent(self.renamings[index].1.clone())
            };
            Step::Perform(operation, Pending { engine: self })
        }
    }
}

impl Pending {
    /// Takes note of what came of the operation that was handed out.
    pub fn record(self, outcome: Result<(), String>) -> (engine: ApplyEngine)
        ensures
            !self@.finished(),
            engine@ == self@.recorded(outcome_view(outcome)),
            engine@.well_formed(),
    {
        proof {
            use_type_invariant(&self);
            use_type_invariant(&self.engine);
        }
        let ghost before = self@;
        let ApplyEngine { renamings, mut results, prepared } = self.engine;
        if !prepared && outcome.is_ok() {
            let engine = ApplyEngine { renamings, results, prepared: true };
            assert(engine@.done =~= before.done);
            engine
        } else {
            let index: usize = results.len();
            let renaming: Renaming = (renamings[index].0.clone(), renamings[index].1.clone());
            results.push((renaming, outcome));
            let engine = ApplyEngine { renamings, results, prepared: false };
            assert(engine@.done =~= before.done.push(outcome_view(outcome)));
            engine
        }
    }
}

/// A failure stays with its renaming: it becomes the result of the renaming
/// that was being applied, whichever of its operations failed; the results of
/// the renamings before it stay as they were, and the next renaming starts
/// with its own first operation.
pub proof fn failure_stays_with_its_renaming(engine: EngineView, description: Seq<char>)
    requires
        engine.well_formed(),
        !engine.finished(),
    ensures
        ({
            let after = engine.recorded(Err(description));
            &&& after.well_formed()
            &&& after.batch == engine.batch
            &&& after.done == engine.done.push(Err(description))
            &&& after.done.take(engine.done.len() as int) == engine.done
            &&& !after.finished() ==> after.operation() == FileOperationView::CreateParent(
                after.batch[after.done.len() as int].1,
            )
        }),
{
    let after = engine.recorded(Err(description));
    assert(after.done.take(engine.done.len() as int) =~= engine.done);
}

/// The state that the engine reaches by recording the outcomes one after the
/// other, for as long as an operation is due.
pub open spec fn run(engine: EngineView, outcomes: Seq<Result<(), Seq<char>>>) -> EngineView
    decreases outcomes.len(),
{
    if outcomes.len() == 0 || engine.finished() {
        engine
    } else {
        run(engine.recorded(outcomes.first()), outcomes.drop_first())
    }
}

/// Nothing is undone and nothing is applied twice: whatever the outcomes
/// that follow, the batch stays the same and the results that were recorded
/// stay as they are, in their places.
pub proof fn recorded_results_stay(engine: EngineView, outcomes: Seq<Result<(), Seq<char>>>)
    requires
        engine.well_formed(),
    ensures
        run(engine, outcomes).well_formed(),
        run(engine, outcomes).batch == engine.batch,
        engine.done.is_prefix_of(run(engine, outcomes).done),
    decreases outcomes.len(),
{
    if outcomes.len() > 0 && !engine.finished() {
        let next = engine.recorded(outcomes.first());
        recorded_results_stay(next, outcomes.drop_first());
        assert(engine.done.is_prefix_of(next.done));
    }
}

/// What comes of a renaming: the failure to make the directory for its
/// target, after which the renaming is not attempted, or else the outcome of
/// the renaming itself. Two outcomes at most bring the engine to the next
/// renaming.
pub proof fn result_of_a_renaming(
    engine: EngineView,
    first: Result<(), Seq<char>>,
    second: Result<(), Seq<char>>,
)
    requires
        engine.well_formed(),
        !engine.finished(),
        !engine.prepared,
    ensures
        first is Err ==> engine.recorded(first).done == engine.done.push(first),
        first is Ok ==> engine.recorded(first).recorded(second).done == engine.done.push(second),
{
}

/// The paths that a list holds: one on each line, without the white space
/// around it.
pub open spec fn paths_in(content: Seq<char>) -> Seq<Seq<char>> {
    lines(content).map_values(|line: Seq<char>| trimmed(line))
}

/// Reads the paths from the content of a list file: one path on each line,
/// without the white space around it.
pub fn read_paths_from(content: &str) -> (paths: Vec<String>)
    ensures
        paths.deep_view() == paths_in(content@),
{
    let chars = chars_of(content);
    let ghost trim_line = |line: Seq<char>| trimmed(line);
    let mut paths: Vec<String> = Vec::new();
    let mut start: usize = 0;
    let mut i: usize = 0;
    assert(paths.deep_view() =~= Seq::<Seq<char>>::empty());
    while i < chars.len()
        invariant
            start <= i <= chars@.len(),
            chars@ == content@,
            trim_line == |line: Seq<char>| trimmed(line),
            line_end(chars@, start as int) == line_end(chars@, i as int),
            lines(chars@).map_values(trim_line) =~= paths.deep_view() + lines_from(
                chars@,
                start as int,
            ).map_values(trim_line),
        decreases chars.len() - i,
    {
        if chars[i] == '\n' {
            let path = trim(&chars, start, i);
            let ghost before = paths.deep_view();
            proof {
                assert(line_end(chars@, start as int) == i);
                assert(lines_from(chars@, start as int) =~= seq![
                    chars@.subrange(start as int, i as int),
                ] + lines_from(chars@, i + 1));
                assert(lines_from(chars@, start as int).map_values(trim_line) =~= seq![path@]
                    + lines_from(chars@, i + 1).map_values(trim_line));
            }
            paths.push(path);
            assert(paths.deep_view() =~= before.push(path@));
            start = i + 1;
        }
        i += 1;
    }
    if start < chars.len() {
        let path = trim(&chars, start, chars.len());
        let ghost before = paths.deep_view();
        proof {
            assert(line_end(chars@, start as int) == chars@.len());
            assert(lines_from(chars@, start as int) =~= seq![
                chars@.subrange(start as int, chars@.len() as int),
            ]);
            assert(lines_from(chars@, start as int).map_values(trim_line) =~= seq![path@]);
        }
        paths.push(path);
        assert(paths.deep_view() =~= before.push(path@));
    } else {
        assert(lines_from(chars@, start as int) =~= Seq::<Seq<char>>::empty());
    }
    paths
}

/// The content of a list file: the paths, each on a line of its own, with a
/// line feed between two lines and none at the end.
pub open spec fn listed(paths: Seq<Seq<char>>) -> Seq<char>
    decreases paths.len(),
{
    if paths.len() == 0 {
        Seq::empty()
    } else if paths.len() == 1 {
        paths[0]
    } else {
        listed(paths.drop_last()) + seq!['\n'] + paths.last()
    }
}

/// Writes the paths as the content of a list file.
pub fn list_paths(paths: &Vec<String>) -> (content: String)
    ensures
        content@ == listed(paths.deep_view()),
{
    let ghost all = paths.deep_view();
    let mut content = String::new();
    let mut i: usize = 0;
    assert(all.take(0) =~= Seq::<Seq<char>>::empty());
    while i < paths.len()
        invariant
            i <= paths.len(),
            all == paths.deep_view(),
            content@ == listed(all.take(i as int)),
        decreases paths.len() - i,
    {
        proof {
            assert(all.take(i + 1).drop_last() =~= all.take(i as int));
            assert(all.take(i + 1).last() == paths[i as int]@);
        }
        if i > 0 {
            content.push('\n');
        } else {
            assert(content@ + paths[i as int]@ =~= paths[i as int]@);
        }
        content.append(paths[i].as_str());
        i += 1;
    }
    assert(all.take(i as int) =~= all);
    content
}

/// The one pattern that finds every file of the current directory.
pub open spec fn everything() -> Seq<char> {
    "*"@
}

/// The paths to start from: those that were given or, where none was given,
/// the pattern that finds every file of the current directory.
pub fn paths_or_everything(paths: Vec<String>) -> (given: Vec<String>)
    ensures
        paths@.len() > 0 ==> given == paths,
        paths@.len() == 0 ==> given.deep_view() == seq![everything()],
{
    if paths.len() == 0 {
        let mut given: Vec<String> = Vec::new();
        given.push("*".to_string());
        assert(given.deep_view() =~= seq![everything()]);
        given
    } else {
        paths
    }
}

/// A path that holds a wildcard, `?` or `*`, is a pattern.
pub open spec fn holds_wildcard(path: Seq<char>) -> bool {
    exists|i: int| 0 <= i < path.len() && (#[trigger] path[i] == '?' || path[i] == '*')
}

/// Whether a path is a pattern, to be expanded, or names one file.
pub fn is_pattern(path: &str) -> (pattern: bool)
    ensures
        pattern == holds_wildcard(path@),
{
    let chars = chars_of(path);
    let mut i: usize = 0;
    while i < chars.len()
        invariant
            i <= chars@.len(),
            chars@ == path@,
            forall|j: int| 0 <= j < i ==> !(#[trigger] chars@[j] == '?' || chars@[j] == '*'),
        decreases chars@.len() - i,
    {
        if chars[i] == '?' || chars[i] == '*' {
            return true;
        }
        i += 1;
    }
    false
}

/// Puts the paths in order and drops those that are there twice: in the
/// result each path comes before the next, and it holds the paths that were
/// given, no other and each once.
pub fn sort_and_dedup(paths: Vec<String>) -> (sorted: Vec<String>)
    ensures
        strictly_sorted(sorted.deep_view()),
        sorted.deep_view().to_set() == paths.deep_view().to_set(),
{
    let ghost all = paths.deep_view();
    let mut sorted = SortedTexts::new();
    let mut i: usize = 0;
    assert(sorted@.to_set() =~= all.take(0).to_set());
    while i < paths.len()
        invariant
            i <= paths.len(),
            all == paths.deep_view(),
            sorted@.to_set() == all.take(i as int).to_set(),
        decreases paths.len() - i,
    {
        proof {
            assert(all.take(i + 1) =~= all.take(i as int).push(paths[i as int]@));
            all.take(i as int).lemma_push_to_set_commute(paths[i as int]@);
        }
        sorted = sorted.insert(paths[i].as_str());
        i += 1;
    }
    assert(all.take(i as int) =~= all);
    sorted.into_texts()
}

} // verus!
