use vstd::prelude::*;
use crate::existing::ExistingPaths;

verus! {

/// A proposed renaming: the current path of a file, then the path it should get.
pub type Renaming = (String, String);

/// The two paths of a renaming as sequences of characters.
pub type RenamingView = (Seq<char>, Seq<char>);

/// A renaming that can be applied, or the renaming with the reason why it cannot.
pub type Validation = Result<Renaming, ValidationError>;

/// Why a renaming cannot be applied. Each variant carries the renaming it is about.
#[derive(Debug, PartialEq, Eq)]
pub enum ValidationError {
    /// The current path does not exist.
    FileDoesntExist(Renaming),
    /// The target path exists already.
    TargetAlreadyExists(Renaming),
    /// The batch holds this target more than once; the number says how often.
    SeveralTargetsAreTheSame(Renaming, u32),
    /// The target path is empty.
    InvalidTargetPath(Renaming),
    /// The current path is empty.
    InvalidCurrentPath(Renaming),
    /// Current path and target are the same: nothing is asked for. This one
    /// blocks nothing and is not counted as an error.
    Unchanged(Renaming),
}

/// What pairing answers when the two lists differ in length.
pub open spec fn line_count_mismatch() -> Seq<char> {
    "The two files don't have the same number of lines."@
}

/// The renamings that two lists of equal length make, line by line.
pub open spec fn pairs(current: Seq<String>, target: Seq<String>) -> Seq<Renaming> {
    Seq::new(current.len(), |i: int| (current[i], target[i]))
}

/// The renamings that two lists of equal length make, line by line, as paths.
pub open spec fn paired(current: Seq<Seq<char>>, target: Seq<Seq<char>>) -> Seq<RenamingView> {
    Seq::new(current.len(), |i: int| (current[i], target[i]))
}

/// Pairs the current paths with the target paths, line by line. Lists of
/// different lengths are not paired at all: the answer is then the message
/// that says so.
pub fn combine_paths_vecs(current: Vec<String>, target: Vec<String>) -> (combined: Result<
    Vec<Renaming>,
    String,
>)
    ensures
        match combined {
            Ok(renamings) => {
                &&& current@.len() == target@.len()
                &&& renamings@ == pairs(current@, target@)
                &&& renamings.deep_view() == paired(current.deep_view(), target.deep_view())
            },
            Err(message) => current@.len() != target@.len() && message@ == line_count_mismatch(),
        },
{
    if current.len() != target.len() {
        return Err("The two files don't have the same number of lines.".to_string());
    }
    let mut renamings: Vec<Renaming> = Vec::new();
    let mut i: usize = 0;
    while i < current.len()
        invariant
            i <= current.len(),
            current@.len() == target@.len(),
            renamings@.len() == i,
            forall|j: int| 0 <= j < i ==> renamings@[j] == (current@[j], target@[j]),
        decreases current.len() - i,
    {
        renamings.push((current[i].clone(), target[i].clone()));
        i += 1;
    }
    assert(renamings@ =~= pairs(current@, target@));
    assert(renamings.deep_view() =~= paired(current.deep_view(), target.deep_view()));
    Ok(renamings)
}

/// The classification of one renaming, without the renaming itself.
pub enum Outcome {
    /// The renaming can be applied.
    Valid,
    /// The current path does not exist.
    FileDoesntExist,
    /// The target path exists already.
    TargetAlreadyExists,
    /// The batch holds the target this many times, which is more than once.
    SeveralTargetsAreTheSame(nat),
    /// The target path is empty.
    InvalidTargetPath,
    /// The current path is empty.
    InvalidCurrentPath,
    /// Current path and target are the same.
    Unchanged,
}

impl Outcome {
    /// An outcome that keeps the whole batch from being offered for confirmation.
    pub open spec fn is_blocking(self) -> bool {
        !(self is Valid) && !(self is Unchanged)
    }
}

/// The renamings whose target is `target`.
pub open spec fn has_target(target: Seq<char>) -> spec_fn(RenamingView) -> bool {
    |renaming: RenamingView| renaming.1 == target
}

/// How many renamings of `batch` have `target` as their target.
pub open spec fn occurrences(batch: Seq<RenamingView>, target: Seq<char>) -> nat {
    batch.filter(has_target(target)).len()
}

/// The outcome of `renaming` within `batch`, given the paths that exist. The
/// first condition that holds decides.
pub open spec fn classify(
    renaming: RenamingView,
    batch: Seq<RenamingView>,
    existing: Set<Seq<char>>,
) -> Outcome {
    if renaming.0 == renaming.1 {
        Outcome::Unchanged
    } else if !existing.contains(renaming.0) {
        Outcome::FileDoesntExist
    } else if renaming.0.len() == 0 {
        Outcome::InvalidCurrentPath
    } else if existing.contains(renaming.1) {
        Outcome::TargetAlreadyExists
    } else if renaming.1.len() == 0 {
        Outcome::InvalidTargetPath
    } else if occurrences(batch, renaming.1) > 1 {
        Outcome::SeveralTargetsAreTheSame(occurrences(batch, renaming.1))
    } else {
        Outcome::Valid
    }
}

/// The renaming that a validation is about.
pub open spec fn renaming_of(validation: Validation) -> Renaming {
    match validation {
        Ok(renaming) => renaming,
        Err(ValidationError::FileDoesntExist(renaming)) => renaming,
        Err(ValidationError::TargetAlreadyExists(renaming)) => renaming,
        Err(ValidationError::SeveralTargetsAreTheSame(renaming, _)) => renaming,
        Err(ValidationError::InvalidTargetPath(renaming)) => renaming,
        Err(ValidationError::InvalidCurrentPath(renaming)) => renaming,
        Err(ValidationError::Unchanged(renaming)) => renaming,
    }
}

/// The outcome that a validation states.
pub open spec fn outcome_of(validation: Validation) -> Outcome {
    match validation {
        Ok(_) => Outcome::Valid,
        Err(ValidationError::FileDoesntExist(_)) => Outcome::FileDoesntExist,
        Err(ValidationError::TargetAlreadyExists(_)) => Outcome::TargetAlreadyExists,
        Err(ValidationError::SeveralTargetsAreTheSame(_, count)) => Outcome::SeveralTargetsAreTheSame(
            count as nat,
        ),
        Err(ValidationError::InvalidTargetPath(_)) => Outcome::InvalidTargetPath,
        Err(ValidationError::InvalidCurrentPath(_)) => Outcome::InvalidCurrentPath,
        Err(ValidationError::Unchanged(_)) => Outcome::Unchanged,
    }
}

/// A validation as its renaming's two paths and its outcome.
pub open spec fn validation_view(validation: Validation) -> (RenamingView, Outcome) {
    (renaming_of(validation)@, outcome_of(validation))
}

/// Checks that `target` is the target of at most one renaming of the batch;
/// otherwise says how many renamings have it.
pub fn validate_target_uniqueness(target: &String, renamings: &Vec<Renaming>) -> (unique: Result<
    (),
    u32,
>)
    requires
        renamings@.len() <= u32::MAX,
    ensures
        match unique {
            Ok(_) => occurrences(renamings.deep_view(), target@) <= 1,
            Err(count) => count > 1 && count == occurrences(renamings.deep_view(), target@),
        },
{
    let ghost batch = renamings.deep_view();
    let mut count: u32 = 0;
    let mut i: usize = 0;
    while i < renamings.len()
        invariant
            i <= renamings.len(),
            renamings@.len() <= u32::MAX,
            batch == renamings.deep_view(),
            count == occurrences(batch.take(i as int), target@),
            count <= i,
        decreases renamings.len() - i,
    {
        proof {
            assert(batch.take(i + 1) =~= batch.take(i as int).push(batch[i as int]));
            batch.take(i as int).lemma_filter_len_push(has_target(target@), batch[i as int]);
            assert(batch[i as int].1 == renamings[i as int].1@);
        }
        if renamings[i].1 == *target {
            count += 1;
        }
        i += 1;
    }
    assert(batch.take(i as int) =~= batch);
    if count > 1 {
        Err(count)
    } else {
        Ok(())
    }
}

/// Decides whether `renaming` can be applied, as one renaming of the batch
/// `renamings` and given the paths that exist.
pub fn validate_renaming(
    renaming: Renaming,
    renamings: &Vec<Renaming>,
    existing: &ExistingPaths,
) -> (validation: Validation)
    requires
        renamings@.len() <= u32::MAX,
    ensures
        renaming_of(validation) == renaming,
        outcome_of(validation) == classify(renaming@, renamings.deep_view(), existing@),
{
    if renaming.0 == renaming.1 {
        Err(ValidationError::Unchanged(renaming))
    } else if !existing.contains(&renaming.0) {
        Err(ValidationError::FileDoesntExist(renaming))
    } else if renaming.0.as_str().is_empty() {
        Err(ValidationError::InvalidCurrentPath(renaming))
    } else if existing.contains(&renaming.1) {
        Err(ValidationError::TargetAlreadyExists(renaming))
    } else if renaming.1.as_str().is_empty() {
        Err(ValidationError::InvalidTargetPath(renaming))
    } else {
        match validate_target_uniqueness(&renaming.1, renamings) {
            Err(count) => Err(ValidationError::SeveralTargetsAreTheSame(renaming, count)),
            Ok(_) => Ok(renaming),
        }
    }
}

/// The outcomes that a sequence of validations states, in order.
pub open spec fn outcomes(validations: Seq<Validation>) -> Seq<Outcome> {
    validations.map_values(|validation: Validation| outcome_of(validation))
}

/// The outcomes that allow a renaming.
pub open spec fn is_change() -> spec_fn(Outcome) -> bool {
    |outcome: Outcome| outcome is Valid
}

/// The outcomes that block the batch: every error but `Unchanged`.
pub open spec fn is_error() -> spec_fn(Outcome) -> bool {
    |outcome: Outcome| outcome.is_blocking()
}

/// The number of renamings that can be applied.
pub open spec fn changes_count(outcomes: Seq<Outcome>) -> nat {
    outcomes.filter(is_change()).len()
}

/// The number of renamings that block the batch.
pub open spec fn error_count(outcomes: Seq<Outcome>) -> nat {
    outcomes.filter(is_error()).len()
}

/// Every renaming of the batch with its outcome, in order.
pub open spec fn classified(batch: Seq<RenamingView>, existing: Set<Seq<char>>) -> Seq<
    (RenamingView, Outcome),
> {
    Seq::new(batch.len(), |i: int| (batch[i], classify(batch[i], batch, existing)))
}

/// The validations with their renamings as paths, in order.
pub open spec fn validation_views(validations: Seq<Validation>) -> Seq<(RenamingView, Outcome)> {
    validations.map_values(|validation: Validation| validation_view(validation))
}

/// `validations` classifies the renamings of `batch`, one by one and in order,
/// each within the whole batch and given the paths that exist.
pub open spec fn validates(
    validations: Seq<Validation>,
    batch: Seq<RenamingView>,
    existing: Set<Seq<char>>,
) -> bool {
    validation_views(validations) == classified(batch, existing)
}

/// Classifies every renaming of the batch and counts, in the same pass, the
/// renamings that can be applied and those that block the batch.
///
/// Returns the validations, then the number of changes, then the number of
/// errors. A batch of more than `u32::MAX` renamings cannot be counted.
pub fn validate_renamings(renamings: Vec<Renaming>, existing: &ExistingPaths) -> (result: (
    Vec<Validation>,
    u32,
    u32,
))
    requires
        renamings@.len() <= u32::MAX,
    ensures
        result.0@.len() == renamings@.len(),
        validates(result.0@, renamings.deep_view(), existing@),
        forall|i: int| 0 <= i < renamings@.len() ==> renaming_of(#[trigger] result.0@[i]) == renamings@[i],
        result.1 == changes_count(outcomes(result.0@)),
        result.2 == error_count(outcomes(result.0@)),
{
    let ghost batch = renamings.deep_view();
    let mut errors: u32 = 0;
    let mut changes: u32 = 0;
    let mut validations: Vec<Validation> = Vec::new();
    let mut i: usize = 0;
    assert(outcomes(validations@) =~= Seq::<Outcome>::empty());
    proof {
        lemma_counts_of_nothing();
    }
    while i < renamings.len()
        invariant
            i <= renamings.len(),
            renamings@.len() <= u32::MAX,
            batch == renamings.deep_view(),
            validations@.len() == i,
            forall|j: int|
                0 <= j < i ==> #[trigger] validation_view(validations@[j]) == (
                    batch[j],
                    classify(batch[j], batch, existing@),
                ),
            forall|j: int| 0 <= j < i ==> renaming_of(#[trigger] validations@[j]) == renamings@[j],
            changes == changes_count(outcomes(validations@)),
            errors == error_count(outcomes(validations@)),
            changes + errors <= i,
        decreases renamings.len() - i,
    {
        let renaming: Renaming = (renamings[i].0.clone(), renamings[i].1.clone());
        assert(renaming == renamings@[i as int]);
        assert(batch[i as int] == renaming@);
        let validation = validate_renaming(renaming, &renamings, existing);
        proof {
            let before = outcomes(validations@);
            assert(outcomes(validations@.push(validation)) =~= before.push(outcome_of(validation)));
            before.lemma_filter_len_push(is_change(), outcome_of(validation));
            before.lemma_filter_len_push(is_error(), outcome_of(validation));
        }
        match validation {
            Ok(_) => {
                changes += 1;
            },
            Err(ValidationError::Unchanged(_)) => {},
            Err(_) => {
                errors += 1;
            },
        }
        validations.push(validation);
        i += 1;
    }
    assert(validation_views(validations@) =~= classified(batch, existing@)) by {
        assert forall|j: int| 0 <= j < batch.len() implies validation_views(validations@)[j]
            == classified(batch, existing@)[j] by {
            assert(validation_view(validations@[j]) == (
                batch[j],
                classify(batch[j], batch, existing@),
            ));
        }
    }
    (validations, changes, errors)
}

/// Of no outcome at all, none is a change and none an error.
proof fn lemma_counts_of_nothing()
    ensures
        changes_count(Seq::<Outcome>::empty()) == 0,
        error_count(Seq::<Outcome>::empty()) == 0,
{
    Seq::<Outcome>::empty().lemma_filter_len(is_change());
    Seq::<Outcome>::empty().lemma_filter_len(is_error());
}

/// The renaming of a validation that allows it, and nothing for the others.
pub open spec fn valid_renaming() -> spec_fn(Validation) -> Option<Renaming> {
    |validation: Validation|
        match validation {
            Ok(renaming) => Some(renaming),
            Err(_) => None,
        }
}

/// The paths of a classified renaming that can be applied, and nothing for the others.
pub open spec fn valid_paths() -> spec_fn((RenamingView, Outcome)) -> Option<RenamingView> {
    |classified: (RenamingView, Outcome)|
        if classified.1 is Valid {
            Some(classified.0)
        } else {
            None
        }
}

/// Keeps the renamings that can be applied, in order, and drops the others.
pub fn keep_valid_renamings(renamings: Vec<Validation>) -> (valid: Vec<Renaming>)
    ensures
        valid@ == renamings@.filter_map(valid_renaming()),
        valid.deep_view() == validation_views(renamings@).filter_map(valid_paths()),
{
    let ghost views = validation_views(renamings@);
    let mut valid: Vec<Renaming> = Vec::new();
    let mut i: usize = 0;
    assert(renamings@.take(0).filter_map(valid_renaming()) =~= Seq::<Renaming>::empty());
    assert(views.take(0).filter_map(valid_paths()) =~= Seq::<RenamingView>::empty());
    assert(valid.deep_view() =~= Seq::<RenamingView>::empty());
    while i < renamings.len()
        invariant
            i <= renamings.len(),
            views == validation_views(renamings@),
            valid@ == renamings@.take(i as int).filter_map(valid_renaming()),
            valid.deep_view() == views.take(i as int).filter_map(valid_paths()),
        decreases renamings.len() - i,
    {
        proof {
            renamings@.lemma_filter_map_take_succ(valid_renaming(), i as int);
            views.lemma_filter_map_take_succ(valid_paths(), i as int);
        }
        let ghost before = valid.deep_view();
        match &renamings[i] {
            Ok(renaming) => {
                let kept: Renaming = (renaming.0.clone(), renaming.1.clone());
                assert(kept == *renaming);
                valid.push(kept);
                assert(valid.deep_view() =~= before + seq![kept@]);
            },
            Err(_) => {},
        }
        i += 1;
    }
    assert(renamings@.take(i as int) =~= renamings@);
    assert(views.take(i as int) =~= views);
    valid
}

/// A renaming whose target is its current path is unchanged, whatever the
/// rest of the batch holds and whichever paths exist.
pub proof fn unchanged_whatever_exists(
    renaming: RenamingView,
    batch: Seq<RenamingView>,
    existing: Set<Seq<char>>,
)
    requires
        renaming.0 == renaming.1,
    ensures
        classify(renaming, batch, existing) == Outcome::Unchanged,
{
}

/// A target that occurs at some place of the batch occurs at least once.
proof fn lemma_occurs_once(batch: Seq<RenamingView>, i: int)
    requires
        0 <= i < batch.len(),
    ensures
        occurrences(batch, batch[i].1) >= 1,
    decreases batch.len(),
{
    let target = batch[i].1;
    let rest = batch.drop_last();
    assert(batch =~= rest.push(batch.last()));
    rest.lemma_filter_len_push(has_target(target), batch.last());
    if i < rest.len() {
        lemma_occurs_once(rest, i);
    }
}

/// A target that occurs at two places of the batch occurs at least twice.
proof fn lemma_occurs_twice(batch: Seq<RenamingView>, i: int, j: int)
    requires
        0 <= i < j < batch.len(),
        batch[i].1 == batch[j].1,
    ensures
        occurrences(batch, batch[i].1) >= 2,
    decreases batch.len(),
{
    let target = batch[i].1;
    let rest = batch.drop_last();
    assert(batch =~= rest.push(batch.last()));
    rest.lemma_filter_len_push(has_target(target), batch.last());
    if j < rest.len() {
        lemma_occurs_twice(rest, i, j);
    } else {
        lemma_occurs_once(rest, i);
    }
}

/// A renaming that shares its target with another renaming of the batch is
/// reported with the number of renamings of the whole batch that have this
/// target, unchanged ones included, and that number is at least two.
///
/// This is said of a renaming that no earlier check stops: it is not
/// unchanged, its current path exists and is not empty, and its target does
/// not exist and is not empty.
pub proof fn shared_target_is_counted(
    batch: Seq<RenamingView>,
    existing: Set<Seq<char>>,
    i: int,
    j: int,
)
    requires
        0 <= i < batch.len(),
        0 <= j < batch.len(),
        i != j,
        batch[i].1 == batch[j].1,
        batch[i].0 != batch[i].1,
        existing.contains(batch[i].0),
        batch[i].0.len() > 0,
        !existing.contains(batch[i].1),
        batch[i].1.len() > 0,
    ensures
        occurrences(batch, batch[i].1) >= 2,
        classify(batch[i], batch, existing) == Outcome::SeveralTargetsAreTheSame(
            occurrences(batch, batch[i].1),
        ),
{
    if i < j {
        lemma_occurs_twice(batch, i, j);
    } else {
        lemma_occurs_twice(batch, j, i);
    }
}

/// Validating the same batch against the same existing paths gives the same
/// outcomes and the same counts, however often it is done.
pub proof fn validation_is_repeatable(
    batch: Seq<RenamingView>,
    existing: Set<Seq<char>>,
    first: Seq<Validation>,
    second: Seq<Validation>,
)
    requires
        validates(first, batch, existing),
        validates(second, batch, existing),
    ensures
        validation_views(first) == validation_views(second),
        changes_count(outcomes(first)) == changes_count(outcomes(second)),
        error_count(outcomes(first)) == error_count(outcomes(second)),
{
    assert(validation_views(first).len() == first.len());
    assert(validation_views(second).len() == second.len());
    assert(outcomes(first) =~= outcomes(second)) by {
        assert forall|i: int| 0 <= i < first.len() implies outcomes(first)[i] == outcomes(
            second,
        )[i] by {
            assert(validation_views(first)[i] == validation_views(second)[i]);
        }
    }
}

/// Every outcome is a change, an error or unchanged, and the two counts
/// never count the same renaming twice: together they are the number of
/// outcomes other than `Unchanged`.
pub proof fn counts_partition_the_outcomes(outcomes: Seq<Outcome>)
    ensures
        changes_count(outcomes) + error_count(outcomes) + outcomes.filter(
            |outcome: Outcome| outcome is Unchanged,
        ).len() == outcomes.len(),
    decreases outcomes.len(),
{
    let unchanged = |outcome: Outcome| outcome is Unchanged;
    if outcomes.len() == 0 {
        outcomes.lemma_filter_len(is_change());
        outcomes.lemma_filter_len(is_error());
        outcomes.lemma_filter_len(unchanged);
    } else {
        let rest = outcomes.drop_last();
        assert(outcomes =~= rest.push(outcomes.last()));
        rest.lemma_filter_len_push(is_change(), outcomes.last());
        rest.lemma_filter_len_push(is_error(), outcomes.last());
        rest.lemma_filter_len_push(unchanged, outcomes.last());
        counts_partition_the_outcomes(rest);
    }
}

} // verus!
