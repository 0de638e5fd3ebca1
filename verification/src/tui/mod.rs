//! The decisions of the terminal UI: which action a key stands for, how the
//! selection, the shown week and month, and the fields of a form move, and
//! how text is cut to fit a column. Drawing and fetching are done elsewhere.

pub mod app;
pub mod input;
pub mod ui;

use input::{backspaced, cursor_in_range, deleted, typed, Input, InputState};
use crate::models::TimeEntry;
use crate::commands::submit::Period;
use crate::text::{chars_of, push_char, str_is, string_of, string_of_range, trim, trimmed};
use vstd::prelude::*;

verus! {

/// The names of the tabs, in order.
pub open spec fn tab_count() -> int {
    4
}

/// A key press, as far as the UI tells keys apart.
#[derive(Debug, Clone, Copy, PartialEq, Eq, Structural)]
pub enum Key {
    Char(char),
    Esc,
    Enter,
    Tab,
    BackTab,
    Up,
    Down,
    Left,
    Right,
    Backspace,
    Delete,
    Home,
    End,
    Other,
}

/// What a key does in the normal (browsing) mode.
#[derive(Debug, Clone, Copy, PartialEq, Eq, Structural)]
pub enum NormalAction {
    Quit,
    SelectTab(usize),
    MoveSelection(i64),
    ShiftPeriod(i64),
    Refresh,
    CycleTheme,
    OpenStart,
    OpenAdd,
    OpenEdit,
    ConfirmDelete,
    StopTimer,
    ConfirmDiscard,
    SetReportPeriod(Period),
    ConfirmSubmit(bool),
    SwitchWorkspace,
    Nothing,
}

pub open spec fn normal_action(tab: int, key: Key) -> NormalAction {
    match key {
        Key::Char('q') | Key::Esc => NormalAction::Quit,
        Key::Tab => NormalAction::SelectTab(((tab + 1) % tab_count()) as usize),
        Key::BackTab => NormalAction::SelectTab(((tab + tab_count() - 1) % tab_count()) as usize),
        Key::Char(c) if '1' <= c <= '4' => NormalAction::SelectTab((c as int - '1' as int) as usize),
        Key::Char('j') | Key::Down => NormalAction::MoveSelection(1i64),
        Key::Char('k') | Key::Up => NormalAction::MoveSelection(-1i64),
        Key::Char('h') | Key::Left => NormalAction::ShiftPeriod(-1i64),
        Key::Char('l') | Key::Right => NormalAction::ShiftPeriod(1i64),
        Key::Char('r') => NormalAction::Refresh,
        Key::Char('t') => NormalAction::CycleTheme,
        Key::Char('s') => NormalAction::OpenStart,
        Key::Char('a') => NormalAction::OpenAdd,
        Key::Char('e') => NormalAction::OpenEdit,
        Key::Char('d') => NormalAction::ConfirmDelete,
        Key::Char('x') => NormalAction::StopTimer,
        Key::Char('X') => NormalAction::ConfirmDiscard,
        Key::Char('m') if tab == 1 => NormalAction::SetReportPeriod(Period::Monthly),
        Key::Char('w') if tab == 1 => NormalAction::SetReportPeriod(Period::Weekly),
        Key::Char('S') if tab == 1 => NormalAction::ConfirmSubmit(false),
        Key::Char('R') if tab == 1 => NormalAction::ConfirmSubmit(true),
        Key::Enter if tab == 3 => NormalAction::SwitchWorkspace,
        _ => NormalAction::Nothing,
    }
}

/// The action of `key` on tab `tab` in the normal mode.
pub fn normal_key(tab: usize, key: Key) -> (r: NormalAction)
    requires
        tab < 4,
    ensures
        r == normal_action(tab as int, key),
{
    match key {
        Key::Char('q') | Key::Esc => NormalAction::Quit,
        Key::Tab => NormalAction::SelectTab((tab + 1) % 4),
        Key::BackTab => NormalAction::SelectTab((tab + 3) % 4),
        Key::Char(c) if '1' <= c && c <= '4' => NormalAction::SelectTab(
            (c as u32 - '1' as u32) as usize,
        ),
        Key::Char('j') | Key::Down => NormalAction::MoveSelection(1),
        Key::Char('k') | Key::Up => NormalAction::MoveSelection(-1),
        Key::Char('h') | Key::Left => NormalAction::ShiftPeriod(-1),
        Key::Char('l') | Key::Right => NormalAction::ShiftPeriod(1),
        Key::Char('r') => NormalAction::Refresh,
        Key::Char('t') => NormalAction::CycleTheme,
        Key::Char('s') => NormalAction::OpenStart,
        Key::Char('a') => NormalAction::OpenAdd,
        Key::Char('e') => NormalAction::OpenEdit,
        Key::Char('d') => NormalAction::ConfirmDelete,
        Key::Char('x') => NormalAction::StopTimer,
        Key::Char('X') => NormalAction::ConfirmDiscard,
        Key::Char('m') if tab == 1 => NormalAction::SetReportPeriod(Period::Monthly),
        Key::Char('w') if tab == 1 => NormalAction::SetReportPeriod(Period::Weekly),
        Key::Char('S') if tab == 1 => NormalAction::ConfirmSubmit(false),
        Key::Char('R') if tab == 1 => NormalAction::ConfirmSubmit(true),
        Key::Enter if tab == 3 => NormalAction::SwitchWorkspace,
        _ => NormalAction::Nothing,
    }
}

/// Cuts `s` to at most `max` characters, marking a cut with an ellipsis.
pub fn truncate(s: &str, max: usize) -> (r: String)
    ensures
        s@.len() <= max ==> r@ == s@,
        s@.len() > max ==> r@ == s@.take(if max > 0 { max - 1 } else { 0 }).push('…'),
{
    let cs = chars_of(s);
    if cs.len() <= max {
        string_of(cs.as_slice())
    } else {
        let keep = if max > 0 { max - 1 } else { 0 };
        let mut out = string_of_range(cs.as_slice(), 0, keep);
        push_char(&mut out, '…');
        out
    }
}

/// The three forms of the UI.
#[derive(Debug, Clone, Copy, PartialEq, Eq, Structural)]
pub enum FormKind {
    Start,
    Add,
    Edit,
}

/// One field of a form.
pub enum Field {
    Text { label: &'static str, input: Input },
    /// A project picked from the active projects, by position; `None` for no project.
    Project { label: &'static str, idx: Option<usize> },
    Toggle { label: &'static str, on: bool },
}

/// The label of a field.
pub fn field_label(field: &Field) -> (r: &'static str)
    ensures
        r == match field {
            Field::Text { label, .. } => *label,
            Field::Project { label, .. } => *label,
            Field::Toggle { label, .. } => *label,
        },
{
    match field {
        Field::Text { label, .. } => label,
        Field::Project { label, .. } => label,
        Field::Toggle { label, .. } => label,
    }
}


/// The state of a field that the form shows.
pub enum FieldState {
    Text(InputState),
    Project(Option<usize>),
    Toggle(bool),
}

impl Field {
    pub closed spec fn state(&self) -> FieldState {
        match self {
            Field::Text { input, .. } => FieldState::Text(input@),
            Field::Project { idx, .. } => FieldState::Project(*idx),
            Field::Toggle { on, .. } => FieldState::Toggle(*on),
        }
    }

    pub closed spec fn label_view(&self) -> &'static str {
        match self {
            Field::Text { label, .. } => *label,
            Field::Project { label, .. } => *label,
            Field::Toggle { label, .. } => *label,
        }
    }

    /// A text field's cursor lies within its text.
    pub open spec fn wf(&self) -> bool {
        self.state() matches FieldState::Text(s) ==> cursor_in_range(s)
    }
}

/// The project picked after pressing left in a picker of `n` projects:
/// "no project" sits before the first one and after the last one.
pub open spec fn project_left(idx: Option<usize>, n: int) -> Option<usize> {
    match idx {
        None => if n > 0 { Some((n - 1) as usize) } else { None },
        Some(i) => if i == 0 { None } else { Some((i - 1) as usize) },
    }
}

/// The project picked after pressing right in a picker of `n` projects.
pub open spec fn project_right(idx: Option<usize>, n: int) -> Option<usize> {
    match idx {
        None => if n > 0 { Some(0) } else { None },
        Some(i) => if i + 1 < n { Some((i + 1) as usize) } else { None },
    }
}

/// What a key does to the state of the focused field.
pub open spec fn field_after_key(f: FieldState, key: Key, n_projects: int) -> FieldState {
    match f {
        FieldState::Text(s) => FieldState::Text(
            match key {
                Key::Char(c) => typed(s, c),
                Key::Backspace => backspaced(s),
                Key::Delete => deleted(s),
                Key::Left => InputState { cursor: if s.cursor > 0 { s.cursor - 1 } else { 0 }, ..s },
                Key::Right => InputState {
                    cursor: if s.cursor < s.text.len() { s.cursor + 1 } else { s.text.len() as int },
                    ..s
                },
                Key::Home => InputState { cursor: 0, ..s },
                Key::End => InputState { cursor: s.text.len() as int, ..s },
                _ => s,
            },
        ),
        FieldState::Project(idx) => FieldState::Project(
            match key {
                Key::Left => project_left(idx, n_projects),
                Key::Right => project_right(idx, n_projects),
                _ => idx,
            },
        ),
        FieldState::Toggle(on) => FieldState::Toggle(
            match key {
                Key::Char(' ') | Key::Left | Key::Right => !on,
                _ => on,
            },
        ),
    }
}

fn field_key(field: &mut Field, key: Key, n_projects: usize)
    requires
        old(field).wf(),
    ensures
        final(field).wf(),
        final(field).state() == field_after_key(old(field).state(), key, n_projects as int),
        final(field).label_view() == old(field).label_view(),
{
    match field {
        Field::Text { input, .. } => match key {
            Key::Char(c) => input.insert(c),
            Key::Backspace => input.backspace(),
            Key::Delete => input.delete(),
            Key::Left => input.left(),
            Key::Right => input.right(),
            Key::Home => input.home(),
            Key::End => input.end(),
            _ => {},
        },
        Field::Project { idx, .. } => match key {
            Key::Left => {
                *idx = match *idx {
                    None => if n_projects > 0 { Some(n_projects - 1) } else { None },
                    Some(0) => None,
                    Some(i) => Some(i - 1),
                };
            },
            Key::Right => {
                *idx = match *idx {
                    None => if n_projects > 0 { Some(0) } else { None },
                    Some(i) => if i < n_projects && i + 1 < n_projects { Some(i + 1) } else { None },
                };
            },
            _ => {},
        },
        Field::Toggle { on, .. } => {
            if key == Key::Char(' ') || key == Key::Left || key == Key::Right {
                *on = !*on;
            }
        },
    }
}

/// In a picker of `n` projects, Right picks the next project and Left the
/// previous one, with "no project" sitting after the last and before the
/// first; so Right then Left, or Left then Right, comes back to the same
/// pick.
pub proof fn lemma_picker_steps(idx: Option<usize>, n: int)
    requires
        0 <= n <= usize::MAX,
        idx matches Some(i) ==> i < n,
    ensures
        idx matches Some(i) && i + 1 < n ==> field_after_key(FieldState::Project(idx), Key::Right, n)
            == FieldState::Project(Some((idx->0 + 1) as usize)),
        idx matches Some(i) && i + 1 == n ==> field_after_key(FieldState::Project(idx), Key::Right, n)
            == FieldState::Project(None),
        idx matches Some(i) && i > 0 ==> field_after_key(FieldState::Project(idx), Key::Left, n)
            == FieldState::Project(Some((idx->0 - 1) as usize)),
        idx is None && n > 0 ==> field_after_key(FieldState::Project(idx), Key::Right, n)
            == FieldState::Project(Some(0)) && field_after_key(FieldState::Project(idx), Key::Left, n)
            == FieldState::Project(Some((n - 1) as usize)),
        field_after_key(field_after_key(FieldState::Project(idx), Key::Right, n), Key::Left, n)
            == FieldState::Project(idx),
        field_after_key(field_after_key(FieldState::Project(idx), Key::Left, n), Key::Right, n)
            == FieldState::Project(idx),
{
}

/// On every tab, Down and `j` move the selection one row toward the end of
/// the list and Up and `k` one row toward its start, stopping at the ends.
pub proof fn lemma_arrow_keys_move_one_row(tab: int, sel: int, len: int)
    requires
        0 <= tab < 4,
        0 <= sel < len,
    ensures
        normal_action(tab, Key::Char('j')) == normal_action(tab, Key::Down),
        normal_action(tab, Key::Char('k')) == normal_action(tab, Key::Up),
        normal_action(tab, Key::Down) matches NormalAction::MoveSelection(d) && crate::tui::app::moved(
            sel,
            len,
            d as int,
        ) == (if sel + 1 < len { sel + 1 } else { sel }),
        normal_action(tab, Key::Up) matches NormalAction::MoveSelection(d) && crate::tui::app::moved(
            sel,
            len,
            d as int,
        ) == (if sel > 0 { sel - 1 } else { sel }),
{
}

/// A form of the UI.
pub struct Form {
    pub kind: FormKind,
    pub title: &'static str,
    pub fields: Vec<Field>,
    pub focus: usize,
    pub error: Option<String>,
    /// The entry being edited.
    pub entry: Option<TimeEntry>,
}

/// What the form asks of the UI after a key.
#[derive(Debug, Clone, Copy, PartialEq, Eq, Structural)]
pub enum FormAction {
    /// Close the form without saving.
    Cancel,
    /// Save the form.
    Submit,
    /// Keep editing.
    Edit,
}

impl Form {
    /// The form has fields, its focus is on one, and its text cursors are in range.
    pub open spec fn wf(&self) -> bool {
        &&& self.fields@.len() > 0
        &&& self.focus < self.fields@.len()
        &&& forall|i: int| 0 <= i < self.fields@.len() ==> (#[trigger] self.fields@[i]).wf()
    }

    /// Handles a key: Esc cancels, Enter submits, Tab/Down and BackTab/Up move
    /// the focus around the fields, and other keys edit the focused field
    /// (`n_projects` is the number of projects the picker offers).
    pub fn key(&mut self, key: Key, n_projects: usize) -> (r: FormAction)
        requires
            old(self).wf(),
        ensures
            final(self).wf(),
            final(self).kind == old(self).kind,
            final(self).title == old(self).title,
            final(self).entry == old(self).entry,
            final(self).error == old(self).error,
            final(self).fields@.len() == old(self).fields@.len(),
            key == Key::Esc ==> r == FormAction::Cancel && final(self).fields@ == old(self).fields@
                && final(self).focus == old(self).focus,
            key == Key::Enter ==> r == FormAction::Submit && final(self).fields@ == old(self).fields@
                && final(self).focus == old(self).focus,
            (key == Key::Tab || key == Key::Down) ==> r == FormAction::Edit && final(self).fields@
                == old(self).fields@ && final(self).focus as int == (old(self).focus + 1) % (old(
                self,
            ).fields@.len() as int),
            (key == Key::BackTab || key == Key::Up) ==> r == FormAction::Edit && final(self).fields@
                == old(self).fields@ && final(self).focus as int == (old(self).focus + old(
                self,
            ).fields@.len() - 1) % (old(self).fields@.len() as int),
            !(key == Key::Esc || key == Key::Enter || key == Key::Tab || key == Key::Down || key
                == Key::BackTab || key == Key::Up) ==> r == FormAction::Edit && final(self).focus
                == old(self).focus && (forall|i: int|
                0 <= i < old(self).fields@.len() && i != old(self).focus ==> final(self).fields@[i]
                    == old(self).fields@[i]) && final(self).fields@[old(
                self,
            ).focus as int].state() == field_after_key(
                old(self).fields@[old(self).focus as int].state(),
                key,
                n_projects as int,
            ) && final(self).fields@[old(self).focus as int].label_view() == old(
                self,
            ).fields@[old(self).focus as int].label_view(),
    {
        let n = self.fields.len();
        match key {
            Key::Esc => FormAction::Cancel,
            Key::Enter => FormAction::Submit,
            Key::Tab | Key::Down => {
                let f = self.focus;
                proof {
                    assert((f + 1) % (n as int) == (if f + 1 == n { 0 } else { f + 1 })) by (
                    nonlinear_arith)
                        requires
                            f < n,
                    {
                        if f + 1 == n {
                            assert((n as int) % (n as int) == 0);
                        }
                    }
                }
                self.focus = if f + 1 == n { 0 } else { f + 1 };
                FormAction::Edit
            },
            Key::BackTab | Key::Up => {
                let f = self.focus;
                proof {
                    assert((f + n - 1) % (n as int) == (if f == 0 { n - 1 } else { f - 1 })) by (
                    nonlinear_arith)
                        requires
                            f < n,
                    {
                        if f == 0 {
                            assert((n - 1) % (n as int) == n - 1);
                        } else {
                            assert((f + n - 1) == (f - 1) + n);
                        }
                    }
                }
                self.focus = if f == 0 { n - 1 } else { f - 1 };
                FormAction::Edit
            },
            _ => {
                let focus = self.focus;
                let mut f = self.fields.remove(focus);
                field_key(&mut f, key, n_projects);
                self.fields.insert(focus, f);
                proof {
                    assert forall|i: int| 0 <= i < self.fields@.len() implies (
                    #[trigger] self.fields@[i]).wf() by {
                        if i != focus {
                            assert(self.fields@[i] == old(self).fields@[i]);
                        }
                    }
                }
                FormAction::Edit
            },
        }
    }
}

/// The states of a form's fields, in order.
pub open spec fn field_states(fields: Seq<Field>) -> Seq<FieldState> {
    fields.map_values(|f: Field| f.state())
}

/// The texts of a form's text fields, in order, trimmed.
pub open spec fn form_texts(fs: Seq<FieldState>) -> Seq<Seq<char>>
    decreases fs.len(),
{
    if fs.len() == 0 {
        Seq::empty()
    } else {
        match fs.last() {
            FieldState::Text(t) => form_texts(fs.drop_last()).push(trimmed(t.text)),
            _ => form_texts(fs.drop_last()),
        }
    }
}

/// The project picked in a form's (last) project picker.
pub open spec fn form_project(fs: Seq<FieldState>) -> Option<usize>
    decreases fs.len(),
{
    if fs.len() == 0 {
        None
    } else {
        match fs.last() {
            FieldState::Project(idx) => idx,
            _ => form_project(fs.drop_last()),
        }
    }
}

/// Whether a form's (last) toggle is on.
pub open spec fn form_billable(fs: Seq<FieldState>) -> bool
    decreases fs.len(),
{
    if fs.len() == 0 {
        false
    } else {
        match fs.last() {
            FieldState::Toggle(on) => on,
            _ => form_billable(fs.drop_last()),
        }
    }
}

impl Form {
    /// What the form holds: its texts (trimmed), the picked project and
    /// whether it is billable.
    pub fn values(&self) -> (r: (Vec<String>, Option<usize>, bool))
        ensures
            r.0@.len() == form_texts(field_states(self.fields@)).len(),
            forall|i: int|
                0 <= i < r.0@.len() ==> (#[trigger] r.0@[i])@ == form_texts(
                    field_states(self.fields@),
                )[i],
            r.1 == form_project(field_states(self.fields@)),
            r.2 == form_billable(field_states(self.fields@)),
    {
        let mut texts: Vec<String> = Vec::new();
        let mut project: Option<usize> = None;
        let mut billable = false;
        let mut i: usize = 0;
        while i < self.fields.len()
            invariant
                i <= self.fields@.len(),
                texts@.len() == form_texts(field_states(self.fields@.take(i as int))).len(),
                forall|k: int|
                    0 <= k < texts@.len() ==> (#[trigger] texts@[k])@ == form_texts(
                        field_states(self.fields@.take(i as int)),
                    )[k],
                project == form_project(field_states(self.fields@.take(i as int))),
                billable == form_billable(field_states(self.fields@.take(i as int))),
            decreases self.fields@.len() - i,
        {
            proof {
                let fs = field_states(self.fields@.take(i + 1));
                assert(fs.drop_last() == field_states(self.fields@.take(i as int)));
                assert(fs.last() == self.fields@[i as int].state());
            }
            match &self.fields[i] {
                Field::Text { input, .. } => {
                    let v = input.value();
                    texts.push(trim(v.as_str()).to_string());
                },
                Field::Project { idx, .. } => {
                    project = *idx;
                },
                Field::Toggle { on, .. } => {
                    billable = *on;
                },
            }
            i = i + 1;
        }
        proof {
            assert(self.fields@.take(self.fields@.len() as int) == self.fields@);
        }
        (texts, project, billable)
    }

    /// The form that starts a timer, its project picker on `project`.
    pub fn start(project: Option<usize>) -> (r: Form)
        ensures
            r.wf(),
            r.kind == FormKind::Start,
            r.entry is None,
            r.error is None,
            r.focus == 0,
            field_states(r.fields@) == seq![
                FieldState::Text(InputState { text: Seq::empty(), cursor: 0 }),
                FieldState::Project(project),
                FieldState::Text(InputState { text: Seq::empty(), cursor: 0 }),
                FieldState::Toggle(false),
            ],
    {
        let fields = vec![
            Field::Text { label: "Description", input: Input::new("") },
            Field::Project { label: "Project", idx: project },
            Field::Text { label: "At (HH:MM)", input: Input::new("") },
            Field::Toggle { label: "Billable", on: false },
        ];
        proof {
            reveal_strlit("");
            assert(""@ =~= Seq::<char>::empty());
            assert(field_states(fields@) =~= seq![
                FieldState::Text(InputState { text: Seq::empty(), cursor: 0 }),
                FieldState::Project(project),
                FieldState::Text(InputState { text: Seq::empty(), cursor: 0 }),
                FieldState::Toggle(false),
            ]);
        }
        Form { kind: FormKind::Start, title: " Start timer ", fields, focus: 0, error: None, entry: None }
    }

    /// The form that adds a finished entry, its project picker on `project`.
    pub fn add(project: Option<usize>) -> (r: Form)
        ensures
            r.wf(),
            r.kind == FormKind::Add,
            r.entry is None,
            r.error is None,
            r.focus == 0,
            field_states(r.fields@) == seq![
                FieldState::Text(InputState { text: Seq::empty(), cursor: 0 }),
                FieldState::Project(project),
                FieldState::Text(InputState { text: Seq::empty(), cursor: 0 }),
                FieldState::Text(InputState { text: Seq::empty(), cursor: 0 }),
                FieldState::Toggle(false),
            ],
    {
        let fields = vec![
            Field::Text { label: "Description", input: Input::new("") },
            Field::Project { label: "Project", idx: project },
            Field::Text { label: "From", input: Input::new("") },
            Field::Text { label: "To", input: Input::new("") },
            Field::Toggle { label: "Billable", on: false },
        ];
        proof {
            reveal_strlit("");
            assert(""@ =~= Seq::<char>::empty());
            assert(field_states(fields@) =~= seq![
                FieldState::Text(InputState { text: Seq::empty(), cursor: 0 }),
                FieldState::Project(project),
                FieldState::Text(InputState { text: Seq::empty(), cursor: 0 }),
                FieldState::Text(InputState { text: Seq::empty(), cursor: 0 }),
                FieldState::Toggle(false),
            ]);
        }
        Form { kind: FormKind::Add, title: " Add entry ", fields, focus: 0, error: None, entry: None }
    }

    /// The form that edits `entry`: its description, its project (`project`
    /// in the picker), and its start and end as the texts `from` and `to`.
    pub fn edit(entry: TimeEntry, project: Option<usize>, from: &str, to: &str) -> (r: Form)
        ensures
            r.wf(),
            r.kind == FormKind::Edit,
            r.entry == Some(entry),
            r.error is None,
            r.focus == 0,
            field_states(r.fields@) == seq![
                FieldState::Text(
                    InputState { text: entry.description@, cursor: entry.description@.len() as int },
                ),
                FieldState::Project(project),
                FieldState::Text(InputState { text: from@, cursor: from@.len() as int }),
                FieldState::Text(InputState { text: to@, cursor: to@.len() as int }),
            ],
    {
        let fields = vec![
            Field::Text { label: "Description", input: Input::new(entry.description.as_str()) },
            Field::Project { label: "Project", idx: project },
            Field::Text { label: "From", input: Input::new(from) },
            Field::Text { label: "To", input: Input::new(to) },
        ];
        proof {
            assert(field_states(fields@) =~= seq![
                FieldState::Text(
                    InputState { text: entry.description@, cursor: entry.description@.len() as int },
                ),
                FieldState::Project(project),
                FieldState::Text(InputState { text: from@, cursor: from@.len() as int }),
                FieldState::Text(InputState { text: to@, cursor: to@.len() as int }),
            ]);
        }
        Form {
            kind: FormKind::Edit,
            title: " Edit entry ",
            fields,
            focus: 0,
            error: None,
            entry: Some(entry),
        }
    }
}

/// The names of the color themes, in the order `t` cycles through them.
pub open spec fn theme_names() -> Seq<Seq<char>> {
    seq!["nord"@, "dracula"@, "gruvbox"@, "terminal"@]
}

/// The theme named `name`; the first one where no theme has that name.
pub fn theme_index(name: &str) -> (r: usize)
    ensures
        r < 4,
        (exists|i: int| 0 <= i < 4 && theme_names()[i] == name@) ==> theme_names()[r as int] == name@
            && forall|j: int| 0 <= j < r ==> theme_names()[j] != name@,
        !(exists|i: int| 0 <= i < 4 && theme_names()[i] == name@) ==> r == 0,
{
    let names = ["nord", "dracula", "gruvbox", "terminal"];
    proof {
        reveal_strlit("nord");
        reveal_strlit("dracula");
        reveal_strlit("gruvbox");
        reveal_strlit("terminal");
    }
    let mut i: usize = 0;
    while i < 4
        invariant
            i <= 4,
            names@ == seq!["nord", "dracula", "gruvbox", "terminal"],
            forall|j: int| 0 <= j < i ==> theme_names()[j] != name@,
        decreases 4 - i,
    {
        if str_is(names[i], name) {
            proof {
                assert(0 <= i < 4 && theme_names()[i as int] == name@);
            }
            return i;
        }
        i = i + 1;
    }
    0
}

/// The theme after theme `i`, the first after the last.
pub fn next_theme(i: usize) -> (r: usize)
    requires
        i < 4,
    ensures
        r == (i + 1) % 4,
{
    if i == 3 { 0 } else { i + 1 }
}

/// Cycling through the themes comes back to where it started after all of them.
pub proof fn lemma_theme_cycle(i: int)
    requires
        0 <= i < 4,
    ensures
        (((((i + 1) % 4 + 1) % 4 + 1) % 4) + 1) % 4 == i,
{
}

} // verus!
