use diffren::display::{Color, Line, Span, Style};
use diffren::existing::ExistingPaths;
use diffren::interaction::{review_round, Choice, NextAction, Prompt};
use diffren::validation::Renaming;

fn paths(names: &[&str]) -> Vec<String> {
    names.iter().map(|name| name.to_string()).collect()
}

fn renaming(current: &str, target: &str) -> Renaming {
    (current.to_string(), target.to_string())
}

fn existing(names: &[&str]) -> ExistingPaths {
    let mut existing = ExistingPaths::new();
    for name in names {
        existing.insert(name.to_string());
    }
    existing
}

fn text_of(line: &Line) -> String {
    line.iter().map(|span| span.text.as_str()).collect()
}

fn texts_of(lines: &Vec<Line>) -> Vec<String> {
    lines.iter().map(text_of).collect()
}

fn red() -> Style {
    Style { color: Color::Red, bold: false, italic: false, strikethrough: false }
}

fn bold(color: Color) -> Style {
    Style { color, bold: true, italic: false, strikethrough: false }
}

fn span(text: &str, style: Style) -> Span {
    Span { text: text.to_string(), style }
}

#[test]
fn unchanged_lists_ask_to_retry() {
    let round = review_round(
        paths(&["a.txt", "b.txt"]),
        paths(&["a.txt", "b.txt"]),
        &existing(&["a.txt", "b.txt"]),
    );
    assert_eq!(round.prompt, Prompt::Retry);
    assert_eq!(
        texts_of(&round.lines),
        vec!["", "", "", "You requested no path renaming.", "Do you want to retry editing?"]
    );
    assert_eq!(round.lines[3], vec![span("You requested no path renaming.", bold(Color::Red))]);
    assert_eq!(round.lines[4], vec![span("Do you want to retry editing?", red())]);
}

#[test]
fn a_shared_target_blocks_the_batch() {
    let round = review_round(
        paths(&["a.txt", "b.txt"]),
        paths(&["x.txt", "x.txt"]),
        &existing(&["a.txt", "b.txt"]),
    );
    assert_eq!(round.prompt, Prompt::Retry);
    assert_eq!(
        texts_of(&round.lines),
        vec![
            "",
            "a.txt → x.txt → several (2) outputs are the same",
            "b.txt → x.txt → several (2) outputs are the same",
            "",
            "",
            "There are errors in the paths renamings you requested.",
            "Do you want to retry editing?",
        ]
    );
    assert_eq!(
        round.lines[5],
        vec![span("There are errors in the paths renamings you requested.", bold(Color::Red))]
    );
}

#[test]
fn a_move_into_a_new_directory_is_offered() {
    let round = review_round(paths(&["a.txt"]), paths(&["sub/a.txt"]), &existing(&["a.txt"]));
    assert_eq!(round.prompt, Prompt::Continue(vec![renaming("a.txt", "sub/a.txt")], 1));
    assert_eq!(
        texts_of(&round.lines),
        vec![
            "",
            "a.txt → sub/a.txt → can be renamed",
            "",
            "",
            "Do you confirm you want to rename 1 path?",
        ]
    );
    assert_eq!(
        round.lines[4],
        vec![span("Do you confirm you want to rename 1 path?", bold(Color::Green))]
    );
    assert_eq!(
        round.prompt.answer(Some(0)),
        NextAction::Confirm(vec![renaming("a.txt", "sub/a.txt")])
    );
}

#[test]
fn three_lines_against_two_ask_to_retry() {
    let round = review_round(paths(&["a", "b", "c"]), paths(&["x", "y"]), &existing(&["a", "b", "c"]));
    assert_eq!(round.prompt, Prompt::Retry);
    assert_eq!(
        texts_of(&round.lines),
        vec![
            "The two files don't have the same number of lines.",
            "",
            "Do you want to retry editing?",
        ]
    );
    assert_eq!(
        round.lines[0],
        vec![span("The two files don't have the same number of lines.", red())]
    );
}

#[test]
fn several_changes_are_asked_for_in_the_plural() {
    let round = review_round(
        paths(&["a", "b", "c", "d"]),
        paths(&["x", "b", "y", "z"]),
        &existing(&["a", "b", "c", "d"]),
    );
    assert_eq!(
        round.prompt,
        Prompt::Continue(vec![renaming("a", "x"), renaming("c", "y"), renaming("d", "z")], 3)
    );
    assert_eq!(
        texts_of(&round.lines),
        vec![
            "",
            "a → x → can be renamed",
            "c → y → can be renamed",
            "d → z → can be renamed",
            "",
            "",
            "Do you confirm you want to rename 3 paths?",
        ]
    );
}

#[test]
fn one_error_blocks_the_valid_renamings_too() {
    let round = review_round(
        paths(&["a", "b", "c"]),
        paths(&["x", "y", "z"]),
        &existing(&["a", "c"]),
    );
    assert_eq!(round.prompt, Prompt::Retry);
    assert_eq!(
        texts_of(&round.lines),
        vec![
            "",
            "a → x → can be renamed",
            "b → y → this file doesn't exist",
            "c → z → can be renamed",
            "",
            "",
            "There are errors in the paths renamings you requested.",
            "Do you want to retry editing?",
        ]
    );
}

#[test]
fn two_empty_lists_ask_to_retry() {
    let round = review_round(Vec::new(), Vec::new(), &existing(&[]));
    assert_eq!(round.prompt, Prompt::Retry);
    assert_eq!(
        texts_of(&round.lines),
        vec!["", "", "", "You requested no path renaming.", "Do you want to retry editing?"]
    );
}

#[test]
fn the_retry_prompt_offers_edit_and_quit() {
    assert_eq!(Prompt::Retry.choices(), vec![Choice::Edit, Choice::Quit]);
}

#[test]
fn the_continue_prompt_offers_confirm_edit_and_quit() {
    let prompt = Prompt::Continue(vec![renaming("a", "b")], 1);
    assert_eq!(prompt.choices(), vec![Choice::Confirm, Choice::Edit, Choice::Quit]);
}

#[test]
fn choices_have_their_labels() {
    assert_eq!(Choice::Confirm.to_label(), "Confirm");
    assert_eq!(Choice::Edit.to_label(), "Edit");
    assert_eq!(Choice::Quit.to_label(), "Quit");
}

#[test]
fn answers_to_the_retry_prompt() {
    assert_eq!(Prompt::Retry.choice(Some(0)), Choice::Edit);
    assert_eq!(Prompt::Retry.choice(Some(1)), Choice::Quit);
    assert_eq!(Prompt::Retry.answer(Some(0)), NextAction::Edit);
    assert_eq!(Prompt::Retry.answer(Some(1)), NextAction::Exit);
}

#[test]
fn an_unread_retry_prompt_edits_again() {
    assert_eq!(Prompt::Retry.choice(None), Choice::Edit);
    assert_eq!(Prompt::Retry.answer(None), NextAction::Edit);
}

#[test]
fn answers_to_the_continue_prompt() {
    let prompt = || Prompt::Continue(vec![renaming("a", "b"), renaming("c", "d")], 2);
    assert_eq!(prompt().choice(Some(0)), Choice::Confirm);
    assert_eq!(prompt().choice(Some(1)), Choice::Edit);
    assert_eq!(prompt().choice(Some(2)), Choice::Quit);
    assert_eq!(
        prompt().answer(Some(0)),
        NextAction::Confirm(vec![renaming("a", "b"), renaming("c", "d")])
    );
    assert_eq!(prompt().answer(Some(1)), NextAction::Edit);
    assert_eq!(prompt().answer(Some(2)), NextAction::Exit);
}

#[test]
fn an_unread_continue_prompt_confirms() {
    let prompt = Prompt::Continue(vec![renaming("a", "b")], 1);
    assert_eq!(prompt.choice(None), Choice::Confirm);
    assert_eq!(prompt.answer(None), NextAction::Confirm(vec![renaming("a", "b")]));
}

#[test]
fn a_selection_that_names_no_choice_quits() {
    assert_eq!(Prompt::Retry.choice(Some(2)), Choice::Quit);
    assert_eq!(Prompt::Retry.answer(Some(2)), NextAction::Exit);
    assert_eq!(Prompt::Retry.answer(Some(usize::MAX)), NextAction::Exit);
    let prompt = Prompt::Continue(vec![renaming("a", "b")], 1);
    assert_eq!(prompt.answer(Some(3)), NextAction::Exit);
}
