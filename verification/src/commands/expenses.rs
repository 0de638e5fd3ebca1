//! Expense commands: resolving categories and expense ids from what the user
//! typed, choosing the listed date range, and explaining API rejections.

use crate::calendar::{min_day_number, today_local, Date};
use crate::commands::submit::{Period, PeriodWindow};
use crate::commands::RangeError;
use crate::resolve::{is_id_like, looks_like_id, pick, pick_outcome, Named, PickError};
use crate::text::{
    all_hex_digits, chars_of, contains_chars, contains_seq, ends_with_chars, ends_with_seq,
    is_hex_digit, lowercase, to_lowercase, trim, trimmed,
};
use crate::time::{parse_date_gives, parse_date_on, parse_date_succeeds};
use crate::sort::{is_permutation, pair_le, stable_sort, Ordered, TextThenText};
use crate::text::str_is;
use vstd::prelude::*;

verus! {

/// An expense category of the workspace.
#[derive(Debug)]
pub struct ExpenseCategory {
    pub id: String,
    pub name: String,
    pub archived: bool,
    pub has_unit_price: bool,
    pub price_in_cents: Option<i64>,
    pub unit: Option<String>,
}

impl Clone for ExpenseCategory {
    fn clone(&self) -> (r: Self)
        ensures
            r == *self,
    {
        ExpenseCategory {
            id: self.id.clone(),
            name: self.name.clone(),
            archived: self.archived,
            has_unit_price: self.has_unit_price,
            price_in_cents: self.price_in_cents,
            unit: match &self.unit {
                Some(u) => Some(u.clone()),
                None => None,
            },
        }
    }
}

impl Named for ExpenseCategory {
    open spec fn id_view(&self) -> Seq<char> {
        self.id@
    }

    open spec fn name_view(&self) -> Seq<char> {
        self.name@
    }

    fn id_str(&self) -> (r: &str) {
        self.id.as_str()
    }

    fn name_str(&self) -> (r: &str) {
        self.name.as_str()
    }
}

/// The arguments of `expenses` (listing).
pub struct ListArgs {
    pub week: bool,
    pub month: bool,
    pub from: Option<String>,
    pub to: Option<String>,
    pub json: bool,
}

/// The arguments of `expenses submit`.
pub struct SubmitArgs {
    pub week: bool,
    pub month: bool,
    pub from: Option<String>,
    pub period: Option<Period>,
    pub resubmit: bool,
    pub yes: bool,
    pub json: bool,
}

/// Why no category was picked.
#[derive(Debug, Clone, PartialEq, Eq)]
pub enum CategoryError {
    /// Nothing but whitespace was given.
    Required,
    /// No category's name contains the reference.
    NoMatch,
    /// Several categories' names contain the reference; their names.
    Ambiguous(Vec<String>),
}

/// Picks the category named by `reference` (surrounding whitespace ignored),
/// as `pick` does; an empty reference names none.
pub fn pick_category(categories: &[ExpenseCategory], reference: &str) -> (r: Result<
    usize,
    CategoryError,
>)
    ensures
        trimmed(reference@).len() == 0 ==> r == Err::<usize, CategoryError>(
            CategoryError::Required,
        ),
        trimmed(reference@).len() > 0 ==> exists|o: Result<usize, PickError>|
            pick_outcome(categories@, trimmed(reference@), o) && match o {
                Ok(i) => r == Ok::<usize, CategoryError>(i),
                Err(PickError::NoMatch) => r == Err::<usize, CategoryError>(CategoryError::NoMatch),
                Err(PickError::Ambiguous(names)) => r == Err::<usize, CategoryError>(
                    CategoryError::Ambiguous(names),
                ),
            },
        r matches Ok(i) ==> i < categories@.len(),
{
    let needle = trim(reference);
    if needle.is_empty() {
        return Err(CategoryError::Required);
    }
    match pick(needle, categories) {
        Ok(i) => Ok(i),
        Err(PickError::NoMatch) => Err(CategoryError::NoMatch),
        Err(PickError::Ambiguous(names)) => Err(CategoryError::Ambiguous(names)),
    }
}

/// The category named by `reference`, resolved among `categories`.
pub fn resolve_category_from_slice(categories: &[ExpenseCategory], reference: &str) -> (r: Result<
    ExpenseCategory,
    CategoryError,
>)
    ensures
        trimmed(reference@).len() == 0 ==> r == Err::<ExpenseCategory, CategoryError>(
            CategoryError::Required,
        ),
        trimmed(reference@).len() > 0 ==> exists|o: Result<usize, PickError>|
            pick_outcome(categories@, trimmed(reference@), o) && match o {
                Ok(i) => 0 <= i < categories@.len() && r == Ok::<ExpenseCategory, CategoryError>(
                    categories@[i as int],
                ),
                Err(PickError::NoMatch) => r == Err::<ExpenseCategory, CategoryError>(
                    CategoryError::NoMatch,
                ),
                Err(PickError::Ambiguous(names)) => r == Err::<ExpenseCategory, CategoryError>(
                    CategoryError::Ambiguous(names),
                ),
            },
{
    match pick_category(categories, reference) {
        Ok(i) => Ok(categories[i].clone()),
        Err(e) => Err(e),
    }
}


/// A part of an expense that an edit changes, as Clockify is told of it.
#[derive(Debug, Clone, Copy, PartialEq, Eq, Structural)]
pub enum ExpenseChangeField {
    Amount,
    Category,
    Date,
    Project,
    Task,
    Notes,
    Billable,
    File,
}

impl ExpenseChangeField {
    /// The name Clockify gives this part of an expense.
    pub fn as_api_str(&self) -> (r: &'static str)
        ensures
            r@ == change_field_name(*self),
    {
        match self {
            ExpenseChangeField::Amount => "AMOUNT",
            ExpenseChangeField::Category => "CATEGORY",
            ExpenseChangeField::Date => "DATE",
            ExpenseChangeField::Project => "PROJECT",
            ExpenseChangeField::Task => "TASK",
            ExpenseChangeField::Notes => "NOTES",
            ExpenseChangeField::Billable => "BILLABLE",
            ExpenseChangeField::File => "FILE",
        }
    }
}

pub open spec fn change_field_name(f: ExpenseChangeField) -> Seq<char> {
    match f {
        ExpenseChangeField::Amount => "AMOUNT"@,
        ExpenseChangeField::Category => "CATEGORY"@,
        ExpenseChangeField::Date => "DATE"@,
        ExpenseChangeField::Project => "PROJECT"@,
        ExpenseChangeField::Task => "TASK"@,
        ExpenseChangeField::Notes => "NOTES"@,
        ExpenseChangeField::Billable => "BILLABLE"@,
        ExpenseChangeField::File => "FILE"@,
    }
}

/// Which parts of an expense an edit gives anew.
#[derive(Debug, Clone, Copy, PartialEq, Eq, Structural)]
pub struct ExpenseEdit {
    pub amount: bool,
    pub category: bool,
    pub date: bool,
    pub project: bool,
    pub task: bool,
    pub notes: bool,
    pub billable: bool,
    pub file: bool,
}

/// Why an expense edit is refused.
#[derive(Debug, Clone, Copy, PartialEq, Eq, Structural)]
pub enum ExpenseEditError {
    /// The edit gives nothing anew.
    NothingToUpdate,
    /// The expense is locked (approved) and cannot be edited.
    Locked,
    /// The new amount is below zero.
    NegativeAmount,
    /// Neither the edit nor the expense names a category.
    NoCategory,
    /// A task is given, but the edited expense has no project.
    TaskWithoutProject,
}

pub open spec fn field_if(given: bool, f: ExpenseChangeField) -> Seq<ExpenseChangeField> {
    if given {
        seq![f]
    } else {
        Seq::empty()
    }
}

/// The parts an edit changes, in the order amount, category, date, project,
/// task, notes, billability, receipt file.
pub open spec fn changed_fields(e: ExpenseEdit) -> Seq<ExpenseChangeField> {
    field_if(e.amount, ExpenseChangeField::Amount) + field_if(e.category, ExpenseChangeField::Category)
        + field_if(e.date, ExpenseChangeField::Date) + field_if(e.project, ExpenseChangeField::Project)
        + field_if(e.task, ExpenseChangeField::Task) + field_if(e.notes, ExpenseChangeField::Notes)
        + field_if(e.billable, ExpenseChangeField::Billable) + field_if(e.file, ExpenseChangeField::File)
}

fn push_if(v: &mut Vec<ExpenseChangeField>, given: bool, f: ExpenseChangeField)
    ensures
        final(v)@ == old(v)@ + field_if(given, f),
{
    if given {
        v.push(f);
    }
    proof {
        assert(v@ =~= old(v)@ + field_if(given, f));
    }
}

/// The parts of the expense that `edit` changes, to be listed with the
/// update; an edit that changes nothing is refused.
pub fn change_fields(edit: &ExpenseEdit) -> (r: Result<Vec<ExpenseChangeField>, ExpenseEditError>)
    ensures
        match r {
            Ok(v) => v@ == changed_fields(*edit) && v@.len() > 0,
            Err(e) => e == ExpenseEditError::NothingToUpdate && changed_fields(*edit).len() == 0,
        },
        r is Err <==> !(edit.amount || edit.category || edit.date || edit.project || edit.task
            || edit.notes || edit.billable || edit.file),
{
    let mut v: Vec<ExpenseChangeField> = Vec::new();
    push_if(&mut v, edit.amount, ExpenseChangeField::Amount);
    push_if(&mut v, edit.category, ExpenseChangeField::Category);
    push_if(&mut v, edit.date, ExpenseChangeField::Date);
    push_if(&mut v, edit.project, ExpenseChangeField::Project);
    push_if(&mut v, edit.task, ExpenseChangeField::Task);
    push_if(&mut v, edit.notes, ExpenseChangeField::Notes);
    push_if(&mut v, edit.billable, ExpenseChangeField::Billable);
    push_if(&mut v, edit.file, ExpenseChangeField::File);
    proof {
        assert(v@ =~= changed_fields(*edit));
    }
    if v.len() == 0 {
        Err(ExpenseEditError::NothingToUpdate)
    } else {
        Ok(v)
    }
}

/// The task of an edited expense: the new one where one is given, none
/// where only the project changes, else the one it had.
pub open spec fn edited_task_of(new_task: Option<String>, project_given: bool, existing: Option<String>) -> Option<String> {
    match new_task {
        Some(t) => Some(t),
        None => if project_given { None } else { existing },
    }
}

/// The task of an edited expense: see `edited_task_of`.
pub fn edited_task(new_task: Option<String>, project_given: bool, existing: Option<String>) -> (r:
    Option<String>)
    ensures
        r == edited_task_of(new_task, project_given, existing),
{
    match new_task {
        Some(t) => Some(t),
        None => if project_given { None } else { existing },
    }
}

/// An expense as far as an edit reads it; amounts in cents.
#[derive(Debug, Clone, PartialEq, Eq)]
pub struct ExpenseView {
    pub locked: bool,
    pub amount_cents: i64,
    pub category_id: Option<String>,
    pub date: Date,
    pub project_id: Option<String>,
    pub task_id: Option<String>,
    pub notes: Option<String>,
    pub billable: bool,
}

/// What an edit gives anew, each part `None` where it is left as it is. The
/// category, project and task come as ids. The task is resolved in the
/// edited expense's project; where that expense has no project it comes as
/// typed, and the edit is refused.
#[derive(Debug, Clone, PartialEq, Eq)]
pub struct ExpenseEditValues {
    pub amount_cents: Option<i64>,
    pub category_id: Option<String>,
    pub date: Option<Date>,
    pub project_id: Option<String>,
    pub task: Option<String>,
    pub notes: Option<String>,
    pub billable: Option<bool>,
    /// A new receipt file is attached.
    pub file: bool,
}

/// The expense after an edit, with the parts the edit changes.
#[derive(Debug, Clone, PartialEq, Eq)]
pub struct ExpenseUpdate {
    pub amount_cents: i64,
    pub category_id: String,
    pub date: Date,
    pub project_id: Option<String>,
    pub task_id: Option<String>,
    pub notes: Option<String>,
    pub billable: bool,
    pub change_fields: Vec<ExpenseChangeField>,
}

/// Which parts `e` gives anew.
pub open spec fn edit_flags(e: ExpenseEditValues) -> ExpenseEdit {
    ExpenseEdit {
        amount: e.amount_cents is Some,
        category: e.category_id is Some,
        date: e.date is Some,
        project: e.project_id is Some,
        task: e.task is Some,
        notes: e.notes is Some,
        billable: e.billable is Some,
        file: e.file,
    }
}

/// The project of the expense `x` after the edit `e`.
pub open spec fn edited_project_of(x: ExpenseView, e: ExpenseEditValues) -> Option<String> {
    match e.project_id {
        Some(p) => Some(p),
        None => x.project_id,
    }
}

/// The given value, else the existing one.
pub open spec fn given_or<T>(given: Option<T>, existing: T) -> T {
    match given {
        Some(v) => v,
        None => existing,
    }
}

/// What editing the expense `x` with `e` gives, checked in this order: a
/// locked expense, a negative amount, no category at all, a task without a
/// project, and an edit that changes nothing are refused; otherwise every
/// part is the given one or the expense's own, the task as `edited_task_of`
/// says, and the changed parts are listed.
pub open spec fn expense_update_result(
    x: ExpenseView,
    e: ExpenseEditValues,
    r: Result<ExpenseUpdate, ExpenseEditError>,
) -> bool {
    if x.locked {
        r == Err::<ExpenseUpdate, ExpenseEditError>(ExpenseEditError::Locked)
    } else if e.amount_cents matches Some(a) && a < 0 {
        r == Err::<ExpenseUpdate, ExpenseEditError>(ExpenseEditError::NegativeAmount)
    } else if e.category_id is None && x.category_id is None {
        r == Err::<ExpenseUpdate, ExpenseEditError>(ExpenseEditError::NoCategory)
    } else if e.task is Some && edited_project_of(x, e) is None {
        r == Err::<ExpenseUpdate, ExpenseEditError>(ExpenseEditError::TaskWithoutProject)
    } else if changed_fields(edit_flags(e)).len() == 0 {
        r == Err::<ExpenseUpdate, ExpenseEditError>(ExpenseEditError::NothingToUpdate)
    } else {
        r matches Ok(u) && {
            &&& u.amount_cents == given_or(e.amount_cents, x.amount_cents)
            &&& u.category_id == given_or(e.category_id, x.category_id->0)
            &&& u.date == given_or(e.date, x.date)
            &&& u.project_id == edited_project_of(x, e)
            &&& u.task_id == edited_task_of(e.task, e.project_id is Some, x.task_id)
            &&& u.notes == (match e.notes {
                Some(n) => Some(n),
                None => x.notes,
            })
            &&& u.billable == given_or(e.billable, x.billable)
            &&& u.change_fields@ == changed_fields(edit_flags(e))
        }
    }
}

fn clone_opt_string(s: &Option<String>) -> (r: Option<String>)
    ensures
        r == *s,
{
    match s {
        Some(t) => Some(t.clone()),
        None => None,
    }
}

/// The project of an edited expense: the new one where one is given, else
/// the one it had. A new task is looked up in this project.
pub fn edited_project(existing: &ExpenseView, new_project: &Option<String>) -> (r: Option<String>)
    ensures
        r == (match *new_project {
            Some(p) => Some(p),
            None => existing.project_id,
        }),
{
    match new_project {
        Some(p) => Some(p.clone()),
        None => clone_opt_string(&existing.project_id),
    }
}

/// The refusals that need nothing resolved: a locked expense, and a new
/// amount below zero.
pub fn expense_edit_check(existing: &ExpenseView, amount_cents: Option<i64>) -> (r: Result<
    (),
    ExpenseEditError,
>)
    ensures
        existing.locked ==> r == Err::<(), ExpenseEditError>(ExpenseEditError::Locked),
        !existing.locked && (amount_cents matches Some(a) && a < 0) ==> r == Err::<(), ExpenseEditError>(
            ExpenseEditError::NegativeAmount,
        ),
        !existing.locked && !(amount_cents matches Some(a) && a < 0) ==> r is Ok,
{
    if existing.locked {
        return Err(ExpenseEditError::Locked);
    }
    match amount_cents {
        Some(a) => if a < 0 {
            return Err(ExpenseEditError::NegativeAmount);
        },
        None => {},
    }
    Ok(())
}

/// Edits the expense `existing` with `edit`: see `expense_update_result`.
pub fn expense_update(existing: &ExpenseView, edit: &ExpenseEditValues) -> (r: Result<
    ExpenseUpdate,
    ExpenseEditError,
>)
    ensures
        expense_update_result(*existing, *edit, r),
{
    match expense_edit_check(existing, edit.amount_cents) {
        Ok(()) => {},
        Err(e) => return Err(e),
    }
    let category_id = match &edit.category_id {
        Some(c) => c.clone(),
        None => match &existing.category_id {
            Some(c) => c.clone(),
            None => return Err(ExpenseEditError::NoCategory),
        },
    };
    let project_id = match &edit.project_id {
        Some(p) => Some(p.clone()),
        None => clone_opt_string(&existing.project_id),
    };
    if edit.task.is_some() && project_id.is_none() {
        return Err(ExpenseEditError::TaskWithoutProject);
    }
    let flags = ExpenseEdit {
        amount: edit.amount_cents.is_some(),
        category: edit.category_id.is_some(),
        date: edit.date.is_some(),
        project: edit.project_id.is_some(),
        task: edit.task.is_some(),
        notes: edit.notes.is_some(),
        billable: edit.billable.is_some(),
        file: edit.file,
    };
    let change_fields = match change_fields(&flags) {
        Ok(v) => v,
        Err(e) => return Err(e),
    };
    let task_id = edited_task(
        clone_opt_string(&edit.task),
        edit.project_id.is_some(),
        clone_opt_string(&existing.task_id),
    );
    let amount_cents = match edit.amount_cents {
        Some(a) => a,
        None => existing.amount_cents,
    };
    let date = match edit.date {
        Some(d) => d,
        None => existing.date,
    };
    let notes = match &edit.notes {
        Some(n) => Some(n.clone()),
        None => clone_opt_string(&existing.notes),
    };
    let billable = match edit.billable {
        Some(b) => b,
        None => existing.billable,
    };
    Ok(ExpenseUpdate { amount_cents, category_id, date, project_id, task_id, notes, billable, change_fields })
}

/// `d` lies in `from..=to`.
pub open spec fn date_within(d: Date, from: Date, to: Date) -> bool {
    !d.lex_before(from) && !to.lex_before(d)
}

/// The positions among the first `k` dates that lie in `from..=to`, in order.
pub open spec fn positions_within(dates: Seq<Date>, from: Date, to: Date, k: int) -> Seq<usize>
    decreases k,
{
    if k <= 0 {
        Seq::empty()
    } else if date_within(dates[k - 1], from, to) {
        positions_within(dates, from, to, k - 1).push((k - 1) as usize)
    } else {
        positions_within(dates, from, to, k - 1)
    }
}

/// Which of the expenses, dated `dates`, fall in `from..=to` (both days
/// included): their positions, in order.
pub fn expenses_in_range(dates: &[Date], from: Date, to: Date) -> (r: Vec<usize>)
    ensures
        r@ == positions_within(dates@, from, to, dates@.len() as int),
{
    let mut r: Vec<usize> = Vec::new();
    let mut i: usize = 0;
    while i < dates.len()
        invariant
            i <= dates@.len(),
            r@ == positions_within(dates@, from, to, i as int),
        decreases dates@.len() - i,
    {
        if !dates[i].is_before(&from) && !to.is_before(&dates[i]) {
            r.push(i);
        }
        i = i + 1;
    }
    r
}

/// An expense approval request about to be sent: its window, how many
/// expenses it covers, and the instant its period starts.
#[derive(Debug, Clone, PartialEq, Eq)]
pub struct ExpenseSubmission {
    pub window: PeriodWindow,
    pub expense_count: usize,
    pub period_start: i64,
}

/// Why expenses cannot be submitted.
#[derive(Debug, Clone, Copy, PartialEq, Eq)]
pub enum ExpenseSubmitError {
    /// The window holds no expenses.
    NoExpenses,
}

/// Submitting the `expense_count` expenses of `window`: a window without
/// expenses is refused.
pub fn expense_submission(window: PeriodWindow, period_start: i64, expense_count: usize) -> (r:
    Result<ExpenseSubmission, ExpenseSubmitError>)
    ensures
        expense_count == 0 ==> r == Err::<ExpenseSubmission, ExpenseSubmitError>(
            ExpenseSubmitError::NoExpenses,
        ),
        expense_count > 0 ==> r == Ok::<ExpenseSubmission, ExpenseSubmitError>(
            ExpenseSubmission { window, expense_count, period_start },
        ),
{
    if expense_count == 0 {
        Err(ExpenseSubmitError::NoExpenses)
    } else {
        Ok(ExpenseSubmission { window, expense_count, period_start })
    }
}

/// What an expense reference (after trimming and lowercasing) stands for.
#[derive(Debug, Clone, PartialEq, Eq)]
pub enum ExpenseRef {
    /// A full 24-character expense id.
    FullId(String),
    /// A hexadecimal suffix of an expense id.
    Suffix(String),
    /// Neither: empty, or not hexadecimal.
    Invalid,
}

/// Reads an expense reference: a full id, or a non-empty hexadecimal id
/// suffix, compared in lowercase and without surrounding whitespace.
pub fn resolve_expense(reference: &str) -> (r: ExpenseRef)
    ensures
        ({
            let needle = lowercase(trimmed(reference@));
            if is_id_like(needle) {
                r matches ExpenseRef::FullId(id) && id@ == needle
            } else if needle.len() == 0 || !(forall|i: int|
                0 <= i < needle.len() ==> is_hex_digit(#[trigger] needle[i])) {
                r == ExpenseRef::Invalid
            } else {
                r matches ExpenseRef::Suffix(s) && s@ == needle
            }
        }),
{
    let needle = to_lowercase(trim(reference));
    if looks_like_id(needle.as_str()) {
        return ExpenseRef::FullId(needle);
    }
    let cs = chars_of(needle.as_str());
    if cs.len() == 0 || !all_hex_digits(cs.as_slice()) {
        return ExpenseRef::Invalid;
    }
    ExpenseRef::Suffix(needle)
}

/// Why an id suffix addresses no single expense.
#[derive(Debug, Clone, Copy, PartialEq, Eq)]
pub enum SuffixError {
    NoMatch,
    Several,
}

/// Indices among the first `k` ids that end with `suffix`.
pub open spec fn ending_with(ids: Seq<String>, suffix: Seq<char>, k: int) -> Seq<int>
    decreases k,
{
    if k <= 0 {
        Seq::empty()
    } else if ends_with_seq(ids[k - 1]@, suffix) {
        ending_with(ids, suffix, k - 1).push(k - 1)
    } else {
        ending_with(ids, suffix, k - 1)
    }
}

/// The one id among `ids` that ends with `suffix`.
pub fn match_expense_suffix(ids: &[String], suffix: &str) -> (r: Result<usize, SuffixError>)
    ensures
        ({
            let found = ending_with(ids@, suffix@, ids@.len() as int);
            &&& found.len() == 1 ==> r == Ok::<usize, SuffixError>(found[0] as usize)
            &&& found.len() == 0 ==> r == Err::<usize, SuffixError>(SuffixError::NoMatch)
            &&& found.len() > 1 ==> r == Err::<usize, SuffixError>(SuffixError::Several)
        }),
{
    let tail = chars_of(suffix);
    let mut found: Vec<usize> = Vec::new();
    let mut k: usize = 0;
    while k < ids.len()
        invariant
            k <= ids@.len(),
            tail@ == suffix@,
            found@.len() == ending_with(ids@, suffix@, k as int).len(),
            forall|j: int| 0 <= j < found@.len() ==> found@[j] as int == ending_with(ids@, suffix@, k as int)[j],
        decreases ids@.len() - k,
    {
        let id = chars_of(ids[k].as_str());
        if ends_with_chars(id.as_slice(), tail.as_slice()) {
            found.push(k);
        }
        k = k + 1;
    }
    if found.len() == 1 {
        Ok(found[0])
    } else if found.len() == 0 {
        Err(SuffixError::NoMatch)
    } else {
        Err(SuffixError::Several)
    }
}

/// How Clockify's rejection of an expense is explained to the user.
#[derive(Debug, Clone, Copy, PartialEq, Eq)]
pub enum ExpenseRejection {
    /// A receipt file is required.
    Receipt,
    /// The category was not accepted.
    Category,
    /// The project was not accepted.
    Project,
    /// Anything else: the message is shown as it is.
    Other,
}

/// Classifies the error message of a failed expense request by the words it
/// contains, ignoring case: a missing receipt first, then the category, then
/// the project.
pub fn friendly_expense_result(message: &str) -> (r: ExpenseRejection)
    ensures
        ({
            let lower = lowercase(message@);
            if contains_seq(lower, "file"@) || contains_seq(lower, "receipt"@) {
                r == ExpenseRejection::Receipt
            } else if contains_seq(lower, "category"@) {
                r == ExpenseRejection::Category
            } else if contains_seq(lower, "project"@) {
                r == ExpenseRejection::Project
            } else {
                r == ExpenseRejection::Other
            }
        }),
{
    let l = to_lowercase(message);
    let lower = chars_of(l.as_str());
    let file = chars_of("file");
    let receipt = chars_of("receipt");
    let category = chars_of("category");
    let project = chars_of("project");
    if contains_chars(lower.as_slice(), file.as_slice()) || contains_chars(
        lower.as_slice(),
        receipt.as_slice(),
    ) {
        ExpenseRejection::Receipt
    } else if contains_chars(lower.as_slice(), category.as_slice()) {
        ExpenseRejection::Category
    } else if contains_chars(lower.as_slice(), project.as_slice()) {
        ExpenseRejection::Project
    } else {
        ExpenseRejection::Other
    }
}

/// The dates `expenses` lists as of `today`, as `list_range_on` gives them.
pub open spec fn list_range_outcome(
    today: Date,
    week: bool,
    month: bool,
    from: Option<&str>,
    to: Option<&str>,
    r: Result<(Date, Date), RangeError>,
) -> bool {
    &&& week && !month && from is None && to is None ==> (r matches Ok((f, t)) && f.wf()
        && f.day_number() == today.day_number() - today.weekday() && t == today)
    &&& !week && month && from is None && to is None ==> r == Ok::<(Date, Date), RangeError>(
        (Date { day: 1, ..today }, today),
    )
    &&& !week && !month && from is None && to is None ==> r == Ok::<(Date, Date), RangeError>(
        (today, today),
    )
    &&& !week && !month && from is None && to is Some ==> (r matches Err(e) && e is ToRequiresFrom)
    &&& !week && !month && from is Some ==> ({
        let ok_from = parse_date_succeeds(from->0@, today);
        let ok_to = to is None || parse_date_succeeds(to->0@, today);
        &&& r is Ok ==> ok_from && ok_to
        &&& r matches Ok((f, t)) ==> f.wf() && t.wf() && parse_date_gives(from->0@, today, f) && (
        to matches Some(s) ==> parse_date_gives(s@, today, t)) && (to is None ==> t == today)
            && !t.lex_before(f)
        &&& r matches Err(e) ==> (e is FromAfterTo && ok_from && ok_to && forall|f: Date, t: Date|
            f.wf() && parse_date_gives(from->0@, today, f) && (to matches Some(s) ==> t.wf()
                && parse_date_gives(s@, today, t)) && (to is None ==> t == today) ==> t.lex_before(
                f,
            )) || (e is Date && !(ok_from && ok_to))
    })
    &&& (week && month) || ((week || month) && (from is Some || to is Some)) ==> (r matches Err(e)
        && e is ChooseOneRange)
}

/// The dates `expenses` lists, both ends included, as of `today`: this week
/// so far, this month so far, `--from` (to `--to` or today), or today.
#[verifier::spinoff_prover]
#[verifier::rlimit(40)]
pub fn list_range_on(
    today: Date,
    week: bool,
    month: bool,
    from: Option<&str>,
    to: Option<&str>,
) -> (r: Result<(Date, Date), RangeError>)
    requires
        today.wf(),
        week && !month && from is None && to is None ==> today.day_number() - today.weekday()
            >= min_day_number(),
    ensures
        list_range_outcome(today, week, month, from, to, r),
{
    let (f, t) = if week && !month && from.is_none() && to.is_none() {
        let back = today.num_days_from_monday();
        match today.checked_sub_days(back as u64) {
            Some(d) => (d, today),
            None => return Err(RangeError::DateOutOfRange),
        }
    } else if !week && month && from.is_none() && to.is_none() {
        match today.with_day(1) {
            Some(d) => (d, today),
            None => return Err(RangeError::DateOutOfRange),
        }
    } else if !week && !month && from.is_some() {
        let f = match parse_date_on(from.unwrap(), today) {
            Ok(d) => d,
            Err(e) => return Err(RangeError::Date(e)),
        };
        let t = match to {
            Some(s) => match parse_date_on(s, today) {
                Ok(d) => d,
                Err(e) => return Err(RangeError::Date(e)),
            },
            None => today,
        };
        (f, t)
    } else if !week && !month && from.is_none() && to.is_none() {
        (today, today)
    } else if !week && !month && from.is_none() {
        return Err(RangeError::ToRequiresFrom);
    } else {
        return Err(RangeError::ChooseOneRange);
    };
    if t.is_before(&f) {
        proof {
            if !week && !month && from is Some {
                assert forall|f2: Date, t2: Date|
                    f2.wf() && parse_date_gives(from->0@, today, f2) && (to matches Some(s)
                        ==> t2.wf() && parse_date_gives(s@, today, t2)) && (to is None ==> t2
                        == today) implies t2.lex_before(f2) by {
                    crate::calendar::lemma_day_number_injective(f2, f);
                    if to is Some {
                        crate::calendar::lemma_day_number_injective(t2, t);
                    }
                }
            }
        }
        return Err(RangeError::FromAfterTo);
    }
    Ok((f, t))
}

/// The dates `expenses` lists, as of today's local date.
pub fn list_range(week: bool, month: bool, from: Option<&str>, to: Option<&str>) -> (r: Result<
    (Date, Date),
    RangeError,
>)
    ensures
        exists|today: Date|
            today.wf() && if week && !month && from is None && to is None && today.day_number()
                - today.weekday() < min_day_number() {
                r == Err::<(Date, Date), RangeError>(RangeError::DateOutOfRange)
            } else {
                list_range_outcome(today, week, month, from, to, r)
            },
{
    let today = today_local();
    if week && !month && from.is_none() && to.is_none() && today.checked_sub_days(
        today.num_days_from_monday() as u64,
    ).is_none() {
        return Err(RangeError::DateOutOfRange);
    }
    list_range_on(today, week, month, from, to)
}

/// The categories of `cs`, the first one of each id, in the order in which
/// the ids first appear.
pub open spec fn first_occurrences(cs: Seq<ExpenseCategory>) -> Seq<ExpenseCategory>
    decreases cs.len(),
{
    if cs.len() == 0 {
        Seq::empty()
    } else {
        let d = first_occurrences(cs.drop_last());
        if exists|i: int| 0 <= i < d.len() && (#[trigger] d[i]).id@ == cs.last().id@ {
            d
        } else {
            d.push(cs.last())
        }
    }
}

/// `a` is listed no later than `b`: by name ignoring case, then by id.
pub open spec fn category_le(a: ExpenseCategory, b: ExpenseCategory) -> bool {
    pair_le(lowercase(a.name@), a.id@, lowercase(b.name@), b.id@)
}

/// `r` holds `items` in the order `order`.
pub open spec fn categories_reordered(
    items: Seq<ExpenseCategory>,
    order: Seq<usize>,
    r: Seq<ExpenseCategory>,
) -> bool {
    &&& is_permutation(order, items.len() as int)
    &&& r.len() == items.len()
    &&& forall|i: int| 0 <= i < r.len() ==> #[trigger] r[i] == items[order[i] as int]
}

proof fn lemma_first_occurrences_distinct(cs: Seq<ExpenseCategory>)
    ensures
        forall|i: int, j: int|
            0 <= i < j < first_occurrences(cs).len() ==> (#[trigger] first_occurrences(cs)[i]).id@
                != (#[trigger] first_occurrences(cs)[j]).id@,
    decreases cs.len(),
{
    if cs.len() > 0 {
        lemma_first_occurrences_distinct(cs.drop_last());
    }
}

/// Active and archived categories together: one per id (the first listed,
/// active ones first), by name ignoring case, equal names by id.
#[verifier::spinoff_prover]
pub fn merge_categories(active: &Vec<ExpenseCategory>, archived: &Vec<ExpenseCategory>) -> (r: Vec<
    ExpenseCategory,
>)
    requires
        active@.len() + archived@.len() <= usize::MAX,
    ensures
        exists|order: Seq<usize>|
            categories_reordered(first_occurrences(active@ + archived@), order, r@),
        forall|i: int, j: int|
            0 <= i < j < r@.len() ==> category_le(#[trigger] r@[i], #[trigger] r@[j]),
        forall|i: int, j: int|
            0 <= i < j < r@.len() ==> (#[trigger] r@[i]).id@ != (#[trigger] r@[j]).id@,
{
    let ghost all = active@ + archived@;
    let mut uniq: Vec<ExpenseCategory> = Vec::new();
    let mut k: usize = 0;
    let n = active.len() + archived.len();
    while k < n
        invariant
            n == all.len(),
            all == active@ + archived@,
            k <= n,
            uniq@ == first_occurrences(all.take(k as int)),
        decreases n - k,
    {
        let c = if k < active.len() {
            &active[k]
        } else {
            &archived[k - active.len()]
        };
        proof {
            assert(all.take(k + 1).drop_last() == all.take(k as int));
            assert(all.take(k + 1).last() == *c);
        }
        let mut j: usize = 0;
        while j < uniq.len() && !str_is(uniq[j].id.as_str(), c.id.as_str())
            invariant
                j <= uniq@.len(),
                forall|h: int| 0 <= h < j ==> (#[trigger] uniq@[h]).id@ != c.id@,
            decreases uniq@.len() - j,
        {
            j = j + 1;
        }
        if j == uniq.len() {
            uniq.push(c.clone());
        }
        k = k + 1;
    }
    proof {
        assert(all.take(n as int) == all);
        lemma_first_occurrences_distinct(all);
    }
    let mut keys: Vec<TextThenText> = Vec::new();
    let mut i: usize = 0;
    while i < uniq.len()
        invariant
            i <= uniq@.len(),
            keys@.len() == i,
            forall|h: int|
                0 <= h < i ==> (#[trigger] keys@[h]).first@ == lowercase(uniq@[h].name@)
                    && keys@[h].second@ == uniq@[h].id@,
        decreases uniq@.len() - i,
    {
        let l = to_lowercase(uniq[i].name.as_str());
        keys.push(TextThenText { first: chars_of(l.as_str()), second: chars_of(uniq[i].id.as_str()) });
        i = i + 1;
    }
    let order = stable_sort(keys.as_slice());
    let mut out: Vec<ExpenseCategory> = Vec::new();
    let mut m: usize = 0;
    while m < order.len()
        invariant
            m <= order@.len(),
            is_permutation(order@, uniq@.len() as int),
            out@.len() == m,
            forall|h: int| 0 <= h < m ==> #[trigger] out@[h] == uniq@[order@[h] as int],
        decreases order@.len() - m,
    {
        out.push(uniq[order[m]].clone());
        m = m + 1;
    }
    proof {
        let o = order@;
        assert(categories_reordered(uniq@, o, out@));
        assert forall|a: int, b: int| 0 <= a < b < out@.len() implies category_le(
            #[trigger] out@[a],
            #[trigger] out@[b],
        ) by {
            assert(keys@[o[a] as int].le(&keys@[o[b] as int]));
        }
        assert forall|a: int, b: int| 0 <= a < b < out@.len() implies (#[trigger] out@[a]).id@
            != (#[trigger] out@[b]).id@ by {
            assert(o[a] != o[b]);
            if o[a] < o[b] {
                assert(uniq@[o[a] as int].id@ != uniq@[o[b] as int].id@);
            } else {
                assert(uniq@[o[b] as int].id@ != uniq@[o[a] as int].id@);
            }
        }
    }
    out
}

} // verus!
