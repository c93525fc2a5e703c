use vstd::prelude::*;
use vstd::string::*;
use crate::display::{
    arrow, display_validations, span, table_lines, validation_rows, Color, Line, Span, SpanView,
    Style,
};
use crate::existing::ExistingPaths;
use crate::text::{decimal, to_decimal};
use crate::validation::{
    changes_count, classified, classify, combine_paths_vecs, error_count, is_change, is_error,
    keep_valid_renamings, line_count_mismatch, outcomes, paired, valid_paths, validate_renamings,
    Outcome, Renaming, RenamingView,
};

verus! {

/// What follows a round of the review.
#[derive(Debug, PartialEq, Eq)]
pub enum NextAction {
    /// The user confirmed: these renamings are to be applied.
    Confirm(Vec<Renaming>),
    /// Back to the editor, for another round.
    Edit,
    /// The review ends and nothing is renamed.
    Exit,
}

/// What the user can pick at a prompt.
#[derive(Clone, Copy, Debug, PartialEq, Eq, Structural)]
pub enum Choice {
    Confirm,
    Edit,
    Quit,
}

/// The question that ends a round.
#[derive(Debug, PartialEq, Eq)]
pub enum Prompt {
    /// The batch cannot be applied as it is: edit again, or quit.
    Retry,
    /// The batch can be applied: these renamings, this many. Confirm, edit
    /// again, or quit.
    Continue(Vec<Renaming>, u32),
}

/// A prompt with its renamings as paths.
pub enum PromptView {
    Retry,
    Continue(Seq<RenamingView>, nat),
}

impl View for Prompt {
    type V = PromptView;

    open spec fn view(&self) -> PromptView {
        match self {
            Prompt::Retry => PromptView::Retry,
            Prompt::Continue(renamings, count) => PromptView::Continue(
                renamings.deep_view(),
                *count as nat,
            ),
        }
    }
}

/// What a round of the review ends in: the lines to show, then the prompt to ask.
#[derive(Debug, PartialEq, Eq)]
pub struct Round {
    pub lines: Vec<Line>,
    pub prompt: Prompt,
}

/// A round as the spans of its lines and the view of its prompt.
pub struct RoundView {
    pub lines: Seq<Seq<SpanView>>,
    pub prompt: PromptView,
}

impl View for Round {
    type V = RoundView;

    open spec fn view(&self) -> RoundView {
        RoundView { lines: self.lines.deep_view(), prompt: self.prompt@ }
    }
}

/// What is said when the batch holds errors.
pub open spec fn errors_present() -> Seq<char> {
    "There are errors in the paths renamings you requested."@
}

/// What is said when the batch asks for no renaming at all.
pub open spec fn nothing_requested() -> Seq<char> {
    "You requested no path renaming."@
}

/// The question of the retry prompt.
pub open spec fn retry_question() -> Seq<char> {
    "Do you want to retry editing?"@
}

/// The question of the continue prompt, for `count` renamings.
pub open spec fn confirm_question(count: nat) -> Seq<char> {
    "Do you confirm you want to rename "@ + decimal(count) + " path"@ + (if count > 1 {
        "s"@
    } else {
        Seq::<char>::empty()
    }) + "?"@
}

/// A line that holds one span.
pub open spec fn line_of(text: Seq<char>, style: Style) -> Seq<SpanView> {
    seq![span(text, style)]
}

/// The round that follows from the two lists as the editor left them, given
/// the paths that exist.
///
/// Lists of different lengths are not validated: the mismatch is reported and
/// the user is asked to retry. Otherwise the table of the validations is
/// shown. One error anywhere blocks the whole batch, and so does a batch that
/// asks for no renaming: the user is asked to retry. Only a batch without
/// errors and with at least one change is offered for confirmation, with the
/// renamings that can be applied and their number.
pub open spec fn round_of(
    current: Seq<Seq<char>>,
    target: Seq<Seq<char>>,
    existing: Set<Seq<char>>,
) -> RoundView {
    let red = Style::of(Color::Red);
    let ask_retry = line_of(retry_question(), red);
    if current.len() != target.len() {
        RoundView {
            lines: seq![line_of(line_count_mismatch(), red), Seq::<SpanView>::empty(), ask_retry],
            prompt: PromptView::Retry,
        }
    } else {
        let validations = classified(paired(current, target), existing);
        let results = validations.map_values(|validation: (RenamingView, Outcome)| validation.1);
        let table = table_lines(validation_rows(validations), arrow());
        if error_count(results) > 0 {
            RoundView {
                lines: table + seq![
                    Seq::<SpanView>::empty(),
                    line_of(errors_present(), Style::headline(Color::Red)),
                    ask_retry,
                ],
                prompt: PromptView::Retry,
            }
        } else if changes_count(results) == 0 {
            RoundView {
                lines: table + seq![
                    Seq::<SpanView>::empty(),
                    line_of(nothing_requested(), Style::headline(Color::Red)),
                    ask_retry,
                ],
                prompt: PromptView::Retry,
            }
        } else {
            RoundView {
                lines: table + seq![
                    Seq::<SpanView>::empty(),
                    line_of(
                        confirm_question(changes_count(results)),
                        Style::headline(Color::Green),
                    ),
                ],
                prompt: PromptView::Continue(
                    validations.filter_map(valid_paths()),
                    changes_count(results),
                ),
            }
        }
    }
}

/// As many renamings are kept as valid as there are changes.
proof fn lemma_kept_are_the_changes(validations: Seq<(RenamingView, Outcome)>)
    ensures
        validations.filter_map(valid_paths()).len() == changes_count(
            validations.map_values(|validation: (RenamingView, Outcome)| validation.1),
        ),
    decreases validations.len(),
{
    let second = |validation: (RenamingView, Outcome)| validation.1;
    if validations.len() == 0 {
        validations.map_values(second).lemma_filter_len(is_change());
    } else {
        let rest = validations.drop_last();
        lemma_kept_are_the_changes(rest);
        assert(validations.map_values(second) =~= rest.map_values(second).push(
            validations.last().1,
        ));
        rest.map_values(second).lemma_filter_len_push(is_change(), validations.last().1);
    }
}

/// A batch is offered for confirmation only where none of its renamings
/// blocks and at least one can be applied. What is offered then are the
/// renamings that can be applied, all of them and in order, with their
/// number.
pub proof fn only_a_clean_batch_is_offered(
    current: Seq<Seq<char>>,
    target: Seq<Seq<char>>,
    existing: Set<Seq<char>>,
)
    ensures
        match round_of(current, target, existing).prompt {
            PromptView::Retry => true,
            PromptView::Continue(renamings, count) => {
                let batch = paired(current, target);
                &&& current.len() == target.len()
                &&& forall|i: int|
                    0 <= i < batch.len() ==> !(#[trigger] classify(
                        batch[i],
                        batch,
                        existing,
                    )).is_blocking()
                &&& renamings == classified(batch, existing).filter_map(valid_paths())
                &&& count == renamings.len()
                &&& count >= 1
            },
        },
{
    if current.len() == target.len() {
        let batch = paired(current, target);
        let validations = classified(batch, existing);
        let results = validations.map_values(|validation: (RenamingView, Outcome)| validation.1);
        lemma_kept_are_the_changes(validations);
        if error_count(results) == 0 {
            assert forall|i: int| 0 <= i < batch.len() implies !(#[trigger] classify(
                batch[i],
                batch,
                existing,
            )).is_blocking() by {
                if results[i].is_blocking() {
                    results.lemma_filter_contains(is_error(), i);
                }
            }
        }
    }
}

fn one_span(text: String, style: Style) -> (line: Line)
    ensures
        line.deep_view() == line_of(text@, style),
{
    let mut line: Line = Vec::new();
    line.push(Span { text, style });
    assert(line.deep_view() =~= line_of(text@, style));
    line
}

fn blank() -> (line: Line)
    ensures
        line.deep_view() == Seq::<SpanView>::empty(),
{
    let line: Line = Vec::new();
    assert(line.deep_view() =~= Seq::<SpanView>::empty());
    line
}

fn push_line(lines: &mut Vec<Line>, line: Line)
    ensures
        final(lines).deep_view() == old(lines).deep_view().push(line.deep_view()),
{
    lines.push(line);
    assert(lines.deep_view() =~= old(lines).deep_view().push(line.deep_view()));
}

fn ask_retry() -> (line: Line)
    ensures
        line.deep_view() == line_of(retry_question(), Style::of(Color::Red)),
{
    one_span(
        "Do you want to retry editing?".to_string(),
        Style { color: Color::Red, bold: false, italic: false, strikethrough: false },
    )
}

fn confirm_question_text(count: u32) -> (text: String)
    ensures
        text@ == confirm_question(count as nat),
{
    let mut text = "Do you confirm you want to rename ".to_string();
    text.append(to_decimal(count).as_str());
    text.append(" path");
    if count > 1 {
        text.append("s");
    } else {
        assert(text@ =~= text@ + Seq::<char>::empty());
    }
    text.append("?");
    text
}

/// Validates what the editor left and decides how the round ends.
///
/// `current` and `target` are the lines of the two lists; `existing` says
/// which of their paths exist. Lists of more than `u32::MAX` lines cannot be
/// counted.
pub fn review_round(current: Vec<String>, target: Vec<String>, existing: &ExistingPaths) -> (round:
    Round)
    requires
        current@.len() <= u32::MAX,
    ensures
        round@ == round_of(current.deep_view(), target.deep_view(), existing@),
{
    let red = Style { color: Color::Red, bold: false, italic: false, strikethrough: false };
    let bold_red = Style { color: Color::Red, bold: true, italic: false, strikethrough: false };
    let bold_green = Style { color: Color::Green, bold: true, italic: false, strikethrough: false };
    match combine_paths_vecs(current, target) {
        Err(message) => {
            let mut lines: Vec<Line> = Vec::new();
            assert(lines.deep_view() =~= Seq::<Seq<SpanView>>::empty());
            push_line(&mut lines, one_span(message, red));
            push_line(&mut lines, blank());
            push_line(&mut lines, ask_retry());
            assert(lines.deep_view() =~= seq![
                line_of(line_count_mismatch(), Style::of(Color::Red)),
                Seq::<SpanView>::empty(),
                line_of(retry_question(), Style::of(Color::Red)),
            ]);
            Round { lines, prompt: Prompt::Retry }
        },
        Ok(renamings) => {
            let ghost batch = paired(current.deep_view(), target.deep_view());
            let (validations, changes, errors) = validate_renamings(renamings, existing);
            let ghost views = classified(batch, existing@);
            let ghost results = views.map_values(|validation: (RenamingView, Outcome)| validation.1);
            assert(outcomes(validations@) =~= results);
            let mut lines = display_validations(&validations);
            let ghost table = lines.deep_view();
            push_line(&mut lines, blank());
            if errors > 0 {
                push_line(
                    &mut lines,
                    one_span(
                        "There are errors in the paths renamings you requested.".to_string(),
                        bold_red,
                    ),
                );
                push_line(&mut lines, ask_retry());
                assert(lines.deep_view() =~= table + seq![
                    Seq::<SpanView>::empty(),
                    line_of(errors_present(), Style::headline(Color::Red)),
                    line_of(retry_question(), Style::of(Color::Red)),
                ]);
                Round { lines, prompt: Prompt::Retry }
            } else if changes == 0 {
                push_line(
                    &mut lines,
                    one_span("You requested no path renaming.".to_string(), bold_red),
                );
                push_line(&mut lines, ask_retry());
                assert(lines.deep_view() =~= table + seq![
                    Seq::<SpanView>::empty(),
                    line_of(nothing_requested(), Style::headline(Color::Red)),
                    line_of(retry_question(), Style::of(Color::Red)),
                ]);
                Round { lines, prompt: Prompt::Retry }
            } else {
                push_line(&mut lines, one_span(confirm_question_text(changes), bold_green));
                assert(lines.deep_view() =~= table + seq![
                    Seq::<SpanView>::empty(),
                    line_of(confirm_question(changes as nat), Style::headline(Color::Green)),
                ]);
                Round { lines, prompt: Prompt::Continue(keep_valid_renamings(validations), changes) }
            }
        },
    }
}

impl Choice {
    /// The word that the prompt shows for the choice.
    pub open spec fn label(self) -> Seq<char> {
        match self {
            Choice::Confirm => "Confirm"@,
            Choice::Edit => "Edit"@,
            Choice::Quit => "Quit"@,
        }
    }

    /// The word that the prompt shows for the choice.
    pub fn to_label(&self) -> (word: String)
        ensures
            word@ == self.label(),
    {
        match self {
            Choice::Confirm => "Confirm".to_string(),
            Choice::Edit => "Edit".to_string(),
            Choice::Quit => "Quit".to_string(),
        }
    }
}

impl PromptView {
    /// The choices that the prompt offers, in the order in which it lists them.
    pub open spec fn choices(self) -> Seq<Choice> {
        match self {
            PromptView::Retry => seq![Choice::Edit, Choice::Quit],
            PromptView::Continue(_, _) => seq![Choice::Confirm, Choice::Edit, Choice::Quit],
        }
    }

    /// The choice that a selection stands for. `None` says that the prompt could
    /// not be read: the first choice is taken then. A number that names no
    /// choice quits.
    pub open spec fn choice(self, selection: Option<usize>) -> Choice {
        match selection {
            None => self.choices()[0],
            Some(index) => if index < self.choices().len() {
                self.choices()[index as int]
            } else {
                Choice::Quit
            },
        }
    }
}

/// Only a batch that was offered can be confirmed: by the first choice of
/// the continue prompt, which is also taken where that prompt could not be
/// read. Nothing is confirmed at the retry prompt, whatever is selected.
pub proof fn only_an_offered_batch_is_confirmed(prompt: PromptView, selection: Option<usize>)
    ensures
        prompt.choice(selection) is Confirm <==> prompt is Continue && (selection is None
            || selection == Some(0usize)),
{
}

impl Prompt {
    /// The choices that the prompt offers, in the order in which it lists them.
    pub fn choices(&self) -> (offered: Vec<Choice>)
        ensures
            offered@ == self@.choices(),
    {
        let mut offered: Vec<Choice> = Vec::new();
        match self {
            Prompt::Retry => {
                offered.push(Choice::Edit);
                offered.push(Choice::Quit);
            },
            Prompt::Continue(_, _) => {
                offered.push(Choice::Confirm);
                offered.push(Choice::Edit);
                offered.push(Choice::Quit);
            },
        }
        assert(offered@ =~= self@.choices());
        offered
    }

    /// The choice that a selection stands for: the index of a listed choice,
    /// or `None` where the prompt could not be read, which takes the first.
    pub fn choice(&self, selection: Option<usize>) -> (chosen: Choice)
        ensures
            chosen == self@.choice(selection),
    {
        let offered = self.choices();
        match selection {
            None => offered[0],
            Some(index) => if index < offered.len() {
                offered[index]
            } else {
                Choice::Quit
            },
        }
    }

    /// Ends the round with the user's selection: confirming hands the
    /// renamings of the prompt on, editing starts another round, quitting
    /// ends the review.
    pub fn answer(self, selection: Option<usize>) -> (next: NextAction)
        ensures
            match self@.choice(selection) {
                Choice::Confirm => self matches Prompt::Continue(renamings, _) && next
                    == NextAction::Confirm(renamings),
                Choice::Edit => next == NextAction::Edit,
                Choice::Quit => next == NextAction::Exit,
            },
    {
        match (self.choice(selection), self) {
            (Choice::Confirm, Prompt::Continue(renamings, _)) => NextAction::Confirm(renamings),
            (Choice::Edit, _) => NextAction::Edit,
            _ => NextAction::Exit,
        }
    }
}

} // verus!
