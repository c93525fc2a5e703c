use vstd::prelude::*;
use vstd::string::*;
use crate::filesystem::{applied_view, applied_views, Applied, AppliedView};
use crate::text::{blanks, decimal, spaces, to_decimal};
use crate::validation::{
    outcome_of, renaming_of, validation_view, validation_views, Outcome, Renaming, RenamingView,
    Validation, ValidationError,
};

verus! {

/// The colours that the tables and messages use.
#[derive(Clone, Copy, Debug, PartialEq, Eq, Structural)]
pub enum Color {
    /// The terminal's own colour.
    Default,
    BrightBlack,
    Green,
    Red,
}

/// How a piece of text is to be shown.
#[derive(Clone, Copy, Debug, PartialEq, Eq, Structural)]
pub struct Style {
    pub color: Color,
    pub bold: bool,
    pub italic: bool,
    pub strikethrough: bool,
}

impl Style {
    /// Text in the given colour, with nothing else.
    pub open spec fn of(color: Color) -> Style {
        Style { color, bold: false, italic: false, strikethrough: false }
    }

    /// Text as the terminal shows it by default.
    pub open spec fn plain() -> Style {
        Style::of(Color::Default)
    }

    /// The look of a path that is to be replaced.
    pub open spec fn struck() -> Style {
        Style { color: Color::BrightBlack, bold: false, italic: false, strikethrough: true }
    }

    /// The look of the reason why a renaming is refused.
    pub open spec fn complaint() -> Style {
        Style { color: Color::Red, bold: false, italic: true, strikethrough: false }
    }

    /// The look of a message that stands above a prompt.
    pub open spec fn headline(color: Color) -> Style {
        Style { color, bold: true, italic: false, strikethrough: false }
    }
}

/// A piece of text with the style it is shown in.
#[derive(Debug, PartialEq, Eq)]
pub struct Span {
    pub text: String,
    pub style: Style,
}

/// A span as characters and style.
pub struct SpanView {
    pub text: Seq<char>,
    pub style: Style,
}

impl View for Span {
    type V = SpanView;

    open spec fn view(&self) -> SpanView {
        SpanView { text: self.text@, style: self.style }
    }
}

impl DeepView for Span {
    type V = SpanView;

    open spec fn deep_view(&self) -> SpanView {
        self@
    }
}

/// One row of a table: current path, target path and what is said of them.
#[derive(Debug, PartialEq, Eq)]
pub struct Row {
    pub current: Span,
    pub target: Span,
    pub status: Span,
}

/// A row as three span views.
pub struct RowView {
    pub current: SpanView,
    pub target: SpanView,
    pub status: SpanView,
}

impl View for Row {
    type V = RowView;

    open spec fn view(&self) -> RowView {
        RowView { current: self.current@, target: self.target@, status: self.status@ }
    }
}

impl DeepView for Row {
    type V = RowView;

    open spec fn deep_view(&self) -> RowView {
        self@
    }
}

impl RowView {
    /// The cell of the row in column 0, 1 or 2 (any other number: the last).
    pub open spec fn cell(self, column: int) -> SpanView {
        if column == 0 {
            self.current
        } else if column == 1 {
            self.target
        } else {
            self.status
        }
    }
}

/// The rows of a table, in order.
pub type Table = Vec<Row>;

/// A line to print, as the spans it is made of, from left to right.
pub type Line = Vec<Span>;

/// A span of `text` in `style`.
pub open spec fn span(text: Seq<char>, style: Style) -> SpanView {
    SpanView { text, style }
}

/// What the table says of a renaming with this outcome.
pub open spec fn status_text(outcome: Outcome) -> Seq<char> {
    match outcome {
        Outcome::Valid => "can be renamed"@,
        Outcome::FileDoesntExist => "this file doesn't exist"@,
        Outcome::InvalidCurrentPath => "invalid current path"@,
        Outcome::TargetAlreadyExists => "output already exists"@,
        Outcome::InvalidTargetPath => "invalid target path"@,
        Outcome::SeveralTargetsAreTheSame(count) => "several ("@ + decimal(count)
            + ") outputs are the same"@,
        Outcome::Unchanged => Seq::empty(),
    }
}

/// The row that shows a validation. An unchanged renaming has none. The path
/// at fault is red; a renaming that can be applied has its current path struck
/// through and its target green.
pub open spec fn validation_row() -> spec_fn((RenamingView, Outcome)) -> Option<RowView> {
    |validation: (RenamingView, Outcome)|
        {
            let (renaming, outcome) = validation;
            let faded = Style::of(Color::BrightBlack);
            let red = Style::of(Color::Red);
            match outcome {
                Outcome::Unchanged => None,
                Outcome::Valid => Some(
                    RowView {
                        current: span(renaming.0, Style::struck()),
                        target: span(renaming.1, Style::of(Color::Green)),
                        status: span(status_text(outcome), Style::of(Color::Green)),
                    },
                ),
                Outcome::FileDoesntExist | Outcome::InvalidCurrentPath => Some(
                    RowView {
                        current: span(renaming.0, red),
                        target: span(renaming.1, faded),
                        status: span(status_text(outcome), Style::complaint()),
                    },
                ),
                _ => Some(
                    RowView {
                        current: span(renaming.0, faded),
                        target: span(renaming.1, red),
                        status: span(status_text(outcome), Style::complaint()),
                    },
                ),
            }
        }
}

/// The rows that show the validations: one for each but the unchanged, in order.
pub open spec fn validation_rows(validations: Seq<(RenamingView, Outcome)>) -> Seq<RowView> {
    validations.filter_map(validation_row())
}

/// The larger of two lengths.
pub open spec fn longer(a: nat, b: nat) -> nat {
    if a >= b {
        a
    } else {
        b
    }
}

/// The number of characters of the longest cell in a column; 0 for no rows.
pub open spec fn column_width(rows: Seq<RowView>, column: int) -> nat
    decreases rows.len(),
{
    if rows.len() == 0 {
        0
    } else {
        longer(column_width(rows.drop_last(), column), rows.last().cell(column).text.len())
    }
}

/// No cell of a column is longer than the column is wide.
pub proof fn column_width_covers(rows: Seq<RowView>, column: int, i: int)
    requires
        0 <= i < rows.len(),
    ensures
        rows[i].cell(column).text.len() <= column_width(rows, column),
    decreases rows.len(),
{
    if i < rows.len() - 1 {
        column_width_covers(rows.drop_last(), column, i);
    }
}

/// What stands between two columns of a line: the blanks that fill the
/// column to the left up to its width, then the separator between two blanks.
pub open spec fn gap(padding: nat, separator: Seq<char>) -> SpanView {
    span(blanks(padding) + seq![' '] + separator + seq![' '], Style::plain())
}

/// The line that shows a row in a table whose first two columns have the given widths.
pub open spec fn table_line(row: RowView, first: nat, second: nat, separator: Seq<char>) -> Seq<
    SpanView,
> {
    seq![
        row.current,
        gap((first - row.current.text.len()) as nat, separator),
        row.target,
        gap((second - row.target.text.len()) as nat, separator),
        row.status,
    ]
}

/// The lines that show a table: an empty line, one line for each row with the
/// first two columns filled up to the width of their longest cell, and an
/// empty line.
pub open spec fn table_lines(rows: Seq<RowView>, separator: Seq<char>) -> Seq<Seq<SpanView>> {
    seq![Seq::<SpanView>::empty()] + rows.map_values(
        |row: RowView|
            table_line(row, column_width(rows, 0), column_width(rows, 1), separator),
    ) + seq![Seq::<SpanView>::empty()]
}

/// The number of characters of the longest cell in one of the three columns.
pub fn get_max_length_of_column(table: &Table, column_id: usize) -> (width: usize)
    requires
        column_id < 3,
    ensures
        width == column_width(table.deep_view(), column_id as int),
{
    let ghost rows = table.deep_view();
    let mut width: usize = 0;
    let mut i: usize = 0;
    while i < table.len()
        invariant
            i <= table.len(),
            column_id < 3,
            rows == table.deep_view(),
            width == column_width(rows.take(i as int), column_id as int),
        decreases table.len() - i,
    {
        let row = &table[i];
        let length: usize = if column_id == 0 {
            row.current.text.as_str().unicode_len()
        } else if column_id == 1 {
            row.target.text.as_str().unicode_len()
        } else {
            row.status.text.as_str().unicode_len()
        };
        proof {
            assert(rows.take(i + 1).drop_last() =~= rows.take(i as int));
            assert(rows.take(i + 1).last() == table[i as int]@);
        }
        if length > width {
            width = length;
        }
        i += 1;
    }
    assert(rows.take(i as int) =~= rows);
    width
}

fn make_gap(padding: usize, column_separator: &str) -> (between: Span)
    ensures
        between@ == gap(padding as nat, column_separator@),
{
    let mut text = spaces(padding);
    text.push(' ');
    text.append(column_separator);
    text.push(' ');
    assert(text@ =~= blanks(padding as nat) + seq![' '] + column_separator@ + seq![' ']);
    Span {
        text,
        style: Style { color: Color::Default, bold: false, italic: false, strikethrough: false },
    }
}

fn copy_span(source: &Span) -> (copy: Span)
    ensures
        copy@ == source@,
{
    Span { text: source.text.clone(), style: source.style }
}

/// Lays a table out in lines: an empty line, the rows with their first two
/// columns aligned and `column_separator` between the columns, an empty line.
pub fn display_table(table: Table, column_separator: &str) -> (lines: Vec<Line>)
    ensures
        lines.deep_view() == table_lines(table.deep_view(), column_separator@),
{
    let ghost rows = table.deep_view();
    let first: usize = get_max_length_of_column(&table, 0);
    let second: usize = get_max_length_of_column(&table, 1);
    let ghost line_of = |row: RowView|
        table_line(row, column_width(rows, 0), column_width(rows, 1), column_separator@);
    let mut lines: Vec<Line> = Vec::new();
    let blank: Line = Vec::new();
    assert(blank.deep_view() =~= Seq::<SpanView>::empty());
    lines.push(blank);
    assert(lines.deep_view() =~= seq![Seq::<SpanView>::empty()] + rows.take(0).map_values(line_of));
    let mut i: usize = 0;
    while i < table.len()
        invariant
            i <= table.len(),
            rows == table.deep_view(),
            first == column_width(rows, 0),
            second == column_width(rows, 1),
            line_of == |row: RowView|
                table_line(row, column_width(rows, 0), column_width(rows, 1), column_separator@),
            lines.deep_view() =~= seq![Seq::<SpanView>::empty()] + rows.take(i as int).map_values(
                line_of,
            ),
        decreases table.len() - i,
    {
        let row = &table[i];
        proof {
            column_width_covers(rows, 0, i as int);
            column_width_covers(rows, 1, i as int);
            assert(rows[i as int] == row@);
        }
        let mut line: Line = Vec::new();
        line.push(copy_span(&row.current));
        line.push(make_gap(first - row.current.text.as_str().unicode_len(), column_separator));
        line.push(copy_span(&row.target));
        line.push(make_gap(second - row.target.text.as_str().unicode_len(), column_separator));
        line.push(copy_span(&row.status));
        assert(line.deep_view() =~= line_of(row@));
        let ghost before = lines.deep_view();
        lines.push(line);
        assert(lines.deep_view() =~= before.push(line.deep_view()));
        assert(rows.take(i + 1).map_values(line_of) =~= rows.take(i as int).map_values(
            line_of,
        ).push(line_of(row@)));
        i += 1;
    }
    assert(rows.take(i as int) =~= rows);
    let ghost before = lines.deep_view();
    let blank: Line = Vec::new();
    assert(blank.deep_view() =~= Seq::<SpanView>::empty());
    lines.push(blank);
    assert(lines.deep_view() =~= before.push(Seq::<SpanView>::empty()));
    assert(lines.deep_view() =~= table_lines(rows, column_separator@));
    lines
}

fn status_of(validation: &Validation) -> (text: String)
    ensures
        text@ == status_text(outcome_of(*validation)),
{
    match validation {
        Ok(_) => "can be renamed".to_string(),
        Err(ValidationError::FileDoesntExist(_)) => "this file doesn't exist".to_string(),
        Err(ValidationError::InvalidCurrentPath(_)) => "invalid current path".to_string(),
        Err(ValidationError::TargetAlreadyExists(_)) => "output already exists".to_string(),
        Err(ValidationError::InvalidTargetPath(_)) => "invalid target path".to_string(),
        Err(ValidationError::SeveralTargetsAreTheSame(_, count)) => {
            let mut text = "several (".to_string();
            text.append(to_decimal(*count).as_str());
            text.append(") outputs are the same");
            text
        },
        Err(ValidationError::Unchanged(_)) => {
            let text = String::new();
            assert(text@ =~= Seq::<char>::empty());
            text
        },
    }
}

fn renaming_in(validation: &Validation) -> (renaming: &Renaming)
    ensures
        *renaming == renaming_of(*validation),
{
    match validation {
        Ok(renaming) => renaming,
        Err(ValidationError::FileDoesntExist(renaming)) => renaming,
        Err(ValidationError::TargetAlreadyExists(renaming)) => renaming,
        Err(ValidationError::SeveralTargetsAreTheSame(renaming, _)) => renaming,
        Err(ValidationError::InvalidTargetPath(renaming)) => renaming,
        Err(ValidationError::InvalidCurrentPath(renaming)) => renaming,
        Err(ValidationError::Unchanged(renaming)) => renaming,
    }
}

/// The row that shows one validation, if it is shown at all.
pub fn row_of_validation(validation: &Validation) -> (row: Option<Row>)
    ensures
        row.deep_view() == validation_row()(validation_view(*validation)),
{
    let renaming = renaming_in(validation);
    let faded = Style { color: Color::BrightBlack, bold: false, italic: false, strikethrough: false };
    let red = Style { color: Color::Red, bold: false, italic: false, strikethrough: false };
    let green = Style { color: Color::Green, bold: false, italic: false, strikethrough: false };
    let complaint = Style { color: Color::Red, bold: false, italic: true, strikethrough: false };
    let struck = Style {
        color: Color::BrightBlack,
        bold: false,
        italic: false,
        strikethrough: true,
    };
    let status = status_of(validation);
    match validation {
        Err(ValidationError::Unchanged(_)) => None,
        Ok(_) => Some(
            Row {
                current: Span { text: renaming.0.clone(), style: struck },
                target: Span { text: renaming.1.clone(), style: green },
                status: Span { text: status, style: green },
            },
        ),
        Err(ValidationError::FileDoesntExist(_)) | Err(ValidationError::InvalidCurrentPath(_)) => Some(
            Row {
                current: Span { text: renaming.0.clone(), style: red },
                target: Span { text: renaming.1.clone(), style: faded },
                status: Span { text: status, style: complaint },
            },
        ),
        Err(_) => Some(
            Row {
                current: Span { text: renaming.0.clone(), style: faded },
                target: Span { text: renaming.1.clone(), style: red },
                status: Span { text: status, style: complaint },
            },
        ),
    }
}

/// What stands between the columns of the tables.
pub open spec fn arrow() -> Seq<char> {
    "→"@
}

/// Lays out the table of the validations: a row for each renaming but the
/// unchanged ones, which are not shown.
pub fn display_validations(validations: &Vec<Validation>) -> (lines: Vec<Line>)
    ensures
        lines.deep_view() == table_lines(
            validation_rows(validation_views(validations@)),
            arrow(),
        ),
{
    let ghost views = validation_views(validations@);
    let mut table: Table = Vec::new();
    let mut i: usize = 0;
    assert(table.deep_view() =~= views.take(0).filter_map(validation_row()));
    while i < validations.len()
        invariant
            i <= validations.len(),
            views == validation_views(validations@),
            table.deep_view() =~= views.take(i as int).filter_map(validation_row()),
        decreases validations.len() - i,
    {
        proof {
            views.lemma_filter_map_take_succ(validation_row(), i as int);
        }
        let ghost before = table.deep_view();
        match row_of_validation(&validations[i]) {
            Some(row) => {
                table.push(row);
                assert(table.deep_view() =~= before + seq![row.deep_view()]);
            },
            None => {},
        }
        i += 1;
    }
    assert(views.take(i as int) =~= views);
    display_table(table, "→")
}

/// The row that shows the result of one renaming: both paths plain, then a
/// green confirmation or, in red, the description of the failure.
pub open spec fn result_row() -> spec_fn(AppliedView) -> RowView {
    |applied: AppliedView|
        RowView {
            current: span(applied.0.0, Style::plain()),
            target: span(applied.0.1, Style::plain()),
            status: match applied.1 {
                Ok(_) => span("✓ Renamed"@, Style::of(Color::Green)),
                Err(description) => span("✗ "@ + description, Style::of(Color::Red)),
            },
        }
}

/// Lays out the table of the results: a row for each renaming that was attempted.
pub fn display_results(results: &Vec<Applied>) -> (lines: Vec<Line>)
    ensures
        lines.deep_view() == table_lines(applied_views(results@).map_values(result_row()), arrow()),
{
    let ghost views = applied_views(results@);
    let plain = Style { color: Color::Default, bold: false, italic: false, strikethrough: false };
    let mut table: Table = Vec::new();
    let mut i: usize = 0;
    while i < results.len()
        invariant
            i <= results.len(),
            views == applied_views(results@),
            plain == Style::plain(),
            table.deep_view() =~= views.take(i as int).map_values(result_row()),
        decreases results.len() - i,
    {
        let applied = &results[i];
        let status = match &applied.1 {
            Ok(_) => Span {
                text: "✓ Renamed".to_string(),
                style: Style { color: Color::Green, bold: false, italic: false, strikethrough: false },
            },
            Err(description) => {
                let mut text = "✗ ".to_string();
                text.append(description.as_str());
                Span {
                    text,
                    style: Style { color: Color::Red, bold: false, italic: false, strikethrough: false },
                }
            },
        };
        let row = Row {
            current: Span { text: applied.0.0.clone(), style: plain },
            target: Span { text: applied.0.1.clone(), style: plain },
            status,
        };
        assert(views[i as int] == applied_view(*applied));
        assert(row@ == result_row()(views[i as int]));
        let ghost before = table.deep_view();
        table.push(row);
        assert(table.deep_view() =~= before.push(row@));
        assert(views.take(i + 1).map_values(result_row()) =~= views.take(i as int).map_values(
            result_row(),
        ).push(result_row()(views[i as int])));
        i += 1;
    }
    assert(views.take(i as int) =~= views);
    display_table(table, "→")
}

} // verus!
