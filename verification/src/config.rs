use vstd::prelude::*;
use crate::display::{span, Color, Line, Span, SpanView, Style};
use crate::text::{contains, occurs_in};

verus! {

/// The text editors that the review can be held in.
#[derive(Clone, Copy, Debug, PartialEq, Eq, PartialOrd, Ord, Structural)]
pub enum TextEditor {
    Vscode,
    Vscodium,
    /// An editor that is started by a command of the user's own.
    Custom,
}

/// The user's preferences.
#[derive(Debug, PartialEq, Eq)]
pub struct DiffrenConfig {
    /// The command that starts the custom editor; empty where none is set.
    pub custom_editor: String,
    /// The editor to hold the review in, once one is chosen.
    pub editor_to_use: Option<TextEditor>,
}

/// The preferences as the characters of the command and the chosen editor.
pub struct ConfigView {
    pub custom_editor: Seq<char>,
    pub editor_to_use: Option<TextEditor>,
}

impl View for DiffrenConfig {
    type V = ConfigView;

    open spec fn view(&self) -> ConfigView {
        ConfigView { custom_editor: self.custom_editor@, editor_to_use: self.editor_to_use }
    }
}

impl Default for DiffrenConfig {
    /// The preferences of a user who has set nothing yet.
    fn default() -> (config: DiffrenConfig)
        ensures
            config@ == (ConfigView { custom_editor: Seq::<char>::empty(), editor_to_use: None }),
    {
        DiffrenConfig { custom_editor: String::new(), editor_to_use: None }
    }
}

impl TextEditor {
    /// The name of the editor as it is printed: it ends in a line feed.
    pub open spec fn name(self) -> Seq<char> {
        match self {
            TextEditor::Vscode => "VSCode\n"@,
            TextEditor::Vscodium => "VSCodium\n"@,
            TextEditor::Custom => "custom editor\n"@,
        }
    }

    /// The name of the editor as it is printed: it ends in a line feed.
    pub fn to_name(&self) -> (name: String)
        ensures
            name@ == self.name(),
    {
        match self {
            TextEditor::Vscode => "VSCode\n".to_string(),
            TextEditor::Vscodium => "VSCodium\n".to_string(),
            TextEditor::Custom => "custom editor\n".to_string(),
        }
    }
}

/// What is answered while no editor is chosen.
pub open spec fn no_editor_chosen() -> Seq<char> {
    "You have to set which text editor to use!"@
}

/// What is answered when the custom editor is chosen and has no command.
pub open spec fn no_custom_command() -> Seq<char> {
    "No custom editor launch command defined"@
}

/// Checks that the preferences name an editor that can be started: one is
/// chosen, and where it is the custom editor, its command is set.
pub fn is_there_an_editor_to_use(config: &DiffrenConfig) -> (usable: Result<(), String>)
    ensures
        match config.editor_to_use {
            None => usable is Err && usable->Err_0@ == no_editor_chosen(),
            Some(TextEditor::Custom) => if config.custom_editor@.len() == 0 {
                usable is Err && usable->Err_0@ == no_custom_command()
            } else {
                usable is Ok
            },
            Some(_) => usable is Ok,
        },
{
    match config.editor_to_use {
        Some(TextEditor::Custom) => {
            if config.custom_editor.as_str().is_empty() {
                Err("No custom editor launch command defined".to_string())
            } else {
                Ok(())
            }
        },
        Some(_) => Ok(()),
        None => Err("You have to set which text editor to use!".to_string()),
    }
}

/// The place in a custom command where the path of the target list goes.
pub open spec fn target_placeholder() -> Seq<char> {
    "{target}"@
}

/// What is answered to a custom command without the placeholder.
pub open spec fn placeholder_missing() -> Seq<char> {
    "The command doesn't contain `{target}`."@
}

/// Sets the command that starts the custom editor. A command that does not
/// say where the target list goes is refused, and nothing is set.
pub fn set_custom_editor_command(config: DiffrenConfig, command: &String) -> (updated: Result<
    DiffrenConfig,
    String,
>)
    ensures
        match updated {
            Ok(set) => occurs_in(target_placeholder(), command@) && set@ == (ConfigView {
                custom_editor: command@,
                ..config@
            }),
            Err(message) => !occurs_in(target_placeholder(), command@) && message@
                == placeholder_missing(),
        },
{
    if !contains(command.as_str(), "{target}") {
        return Err("The command doesn't contain `{target}`.".to_string());
    }
    Ok(DiffrenConfig { custom_editor: command.clone(), editor_to_use: config.editor_to_use })
}

/// Chooses the editor to hold the review in.
pub fn set_editor_to_use(config: DiffrenConfig, editor: &TextEditor) -> (updated: DiffrenConfig)
    ensures
        updated@ == (ConfigView { editor_to_use: Some(*editor), ..config@ }),
{
    DiffrenConfig { custom_editor: config.custom_editor, editor_to_use: Some(*editor) }
}

/// A program to start, with its arguments.
#[derive(Debug, PartialEq, Eq)]
pub struct EditorCommand {
    pub program: String,
    pub arguments: Vec<String>,
}

/// The program that starts a built-in editor.
pub open spec fn program_of(editor: TextEditor) -> Seq<char> {
    match editor {
        TextEditor::Vscodium => "codium"@,
        _ => "code"@,
    }
}

/// The command that opens the two lists side by side in a built-in editor
/// and returns when the editor is closed. The custom editor has no such
/// command.
pub fn get_editor_command(editor: TextEditor, current: &String, target: &String) -> (command:
    EditorCommand)
    requires
        !(editor is Custom),
    ensures
        command.program@ == program_of(editor),
        command.arguments.deep_view() == seq!["--wait"@, "--diff"@, current@, target@],
{
    let program = match editor {
        TextEditor::Vscodium => "codium".to_string(),
        _ => "code".to_string(),
    };
    let mut arguments: Vec<String> = Vec::new();
    arguments.push("--wait".to_string());
    arguments.push("--diff".to_string());
    arguments.push(current.clone());
    arguments.push(target.clone());
    assert(arguments.deep_view() =~= seq!["--wait"@, "--diff"@, current@, target@]);
    EditorCommand { program, arguments }
}

/// The lines that show the preferences, which were read from `path`: a
/// heading, the custom command or that there is none, and the chosen editor
/// or, in red, that there is none.
pub open spec fn config_report(config: ConfigView, path: Seq<char>) -> Seq<Seq<SpanView>> {
    let muted = Style::of(Color::BrightBlack);
    let heading = seq![
        seq![
            span("Current configuration"@, Style::headline(Color::Default)),
            span(" from "@, Style::plain()),
            span(path, Style { italic: true, ..Style::plain() }),
        ],
    ];
    let command = if config.custom_editor.len() == 0 {
        seq![seq![span("• No custom editor launch command defined."@, Style::plain())]]
    } else {
        seq![
            seq![span("• Custom editor launch command:"@, Style::plain())],
            seq![span("  > "@, Style::plain()), span(config.custom_editor, muted)],
        ]
    };
    let editor = match config.editor_to_use {
        Some(editor) => seq![
            seq![span("• Editor to use: "@, Style::plain()), span(editor.name(), muted)],
        ],
        None => seq![
            seq![
                span("• Editor to use: "@, Style::plain()),
                span("undefined"@, Style::of(Color::Red)),
            ],
            seq![span(no_editor_chosen(), Style::headline(Color::Red))],
        ],
    };
    heading + command + editor
}

fn piece(text: String, color: Color, bold: bool, italic: bool) -> (made: Span)
    ensures
        made@ == span(text@, Style { color, bold, italic, strikethrough: false }),
{
    Span { text, style: Style { color, bold, italic, strikethrough: false } }
}

fn line_of_one(first: Span) -> (line: Line)
    ensures
        line.deep_view() == seq![first@],
{
    let mut line: Line = Vec::new();
    line.push(first);
    assert(line.deep_view() =~= seq![first@]);
    line
}

fn line_of_two(first: Span, second: Span) -> (line: Line)
    ensures
        line.deep_view() == seq![first@, second@],
{
    let mut line: Line = Vec::new();
    line.push(first);
    line.push(second);
    assert(line.deep_view() =~= seq![first@, second@]);
    line
}

fn add_line(lines: &mut Vec<Line>, line: Line)
    ensures
        final(lines).deep_view() == old(lines).deep_view().push(line.deep_view()),
{
    lines.push(line);
    assert(lines.deep_view() =~= old(lines).deep_view().push(line.deep_view()));
}

/// Lays out what is shown of the preferences, which were read from `path`.
pub fn print_config(config: &DiffrenConfig, path: &str) -> (lines: Vec<Line>)
    ensures
        lines.deep_view() == config_report(config@, path@),
{
    let mut heading: Line = Vec::new();
    heading.push(piece("Current configuration".to_string(), Color::Default, true, false));
    heading.push(piece(" from ".to_string(), Color::Default, false, false));
    heading.push(piece(path.to_string(), Color::Default, false, true));
    assert(heading.deep_view() =~= config_report(config@, path@)[0]);
    let mut lines: Vec<Line> = Vec::new();
    assert(lines.deep_view() =~= Seq::<Seq<SpanView>>::empty());
    add_line(&mut lines, heading);
    if config.custom_editor.as_str().is_empty() {
        add_line(
            &mut lines,
            line_of_one(
                piece(
                    "• No custom editor launch command defined.".to_string(),
                    Color::Default,
                    false,
                    false,
                ),
            ),
        );
    } else {
        add_line(
            &mut lines,
            line_of_one(
                piece("• Custom editor launch command:".to_string(), Color::Default, false, false),
            ),
        );
        add_line(
            &mut lines,
            line_of_two(
                piece("  > ".to_string(), Color::Default, false, false),
                piece(config.custom_editor.clone(), Color::BrightBlack, false, false),
            ),
        );
    }
    match config.editor_to_use {
        Some(editor) => {
            add_line(
                &mut lines,
                line_of_two(
                    piece("• Editor to use: ".to_string(), Color::Default, false, false),
                    piece(editor.to_name(), Color::BrightBlack, false, false),
                ),
            );
        },
        None => {
            add_line(
                &mut lines,
                line_of_two(
                    piece("• Editor to use: ".to_string(), Color::Default, false, false),
                    piece("undefined".to_string(), Color::Red, false, false),
                ),
            );
            add_line(
                &mut lines,
                line_of_one(
                    piece(
                        "You have to set which text editor to use!".to_string(),
                        Color::Red,
                        true,
                        false,
                    ),
                ),
            );
        },
    }
    assert(lines.deep_view() =~= config_report(config@, path@));
    lines
}

} // verus!
