use clockify::calendar::Date;
use clockify::commands::expenses::{expense_submission, expenses_in_range, ExpenseSubmission, ExpenseSubmitError};
use clockify::commands::submit::{Period, PeriodWindow};
use clockify::commands::expenses::{
    edited_project, expense_edit_check, expense_update, ExpenseEditValues, ExpenseView,
    change_fields, edited_task, friendly_expense_result, match_expense_suffix,
    resolve_category_from_slice, CategoryError, ExpenseCategory, ExpenseChangeField, ExpenseEdit,
    ExpenseEditError, ExpenseRef, ExpenseRejection, SuffixError,
};

fn category(id: &str, name: &str) -> ExpenseCategory {
    ExpenseCategory {
        id: id.to_string(),
        name: name.to_string(),
        archived: false,
        has_unit_price: false,
        price_in_cents: None,
        unit: None,
    }
}

#[test]
fn resolves_category_by_exact_name() {
    let categories = vec![category("abc", "Meals"), category("def", "Taxi")];
    let picked = resolve_category_from_slice(&categories, "meals").unwrap();
    assert_eq!(picked.id, "abc");
}

#[test]
fn rejects_ambiguous_category_substrings() {
    let categories = vec![category("abc", "Meal"), category("def", "Meals client")];
    assert!(resolve_category_from_slice(&categories, "mea").is_err());
}

#[test]
fn category_exact_name_beats_substring() {
    let categories = vec![category("abc", "Meals client"), category("def", "Meals")];
    let picked = resolve_category_from_slice(&categories, "  MEALS ").unwrap();
    assert_eq!(picked.id, "def");
}

#[test]
fn category_errors() {
    let categories = vec![category("abc", "Meal"), category("def", "Meals client")];
    assert_eq!(
        resolve_category_from_slice(&categories, "   ").unwrap_err(),
        CategoryError::Required
    );
    assert_eq!(
        resolve_category_from_slice(&categories, "taxi").unwrap_err(),
        CategoryError::NoMatch
    );
    assert_eq!(
        resolve_category_from_slice(&categories, "mea").unwrap_err(),
        CategoryError::Ambiguous(vec!["Meal".to_string(), "Meals client".to_string()])
    );
    assert_eq!(
        resolve_category_from_slice(&categories, "client").unwrap().id,
        "def"
    );
}

#[test]
fn category_by_full_id() {
    let id = "68b3a1d2e4f5a6b7c8d9e0f1";
    let categories = vec![category("abc", id), category(id, "Taxi")];
    assert_eq!(resolve_category_from_slice(&categories, id).unwrap().name, "Taxi");
}

#[test]
fn expense_references() {
    assert_eq!(
        clockify::commands::expenses::resolve_expense(" 68B3A1D2E4F5A6B7C8D9E0F1 "),
        ExpenseRef::FullId("68b3a1d2e4f5a6b7c8d9e0f1".to_string())
    );
    assert_eq!(
        clockify::commands::expenses::resolve_expense("E0F1"),
        ExpenseRef::Suffix("e0f1".to_string())
    );
    assert_eq!(clockify::commands::expenses::resolve_expense(""), ExpenseRef::Invalid);
    assert_eq!(clockify::commands::expenses::resolve_expense("lunch"), ExpenseRef::Invalid);
}

#[test]
fn expense_suffix_matching() {
    let ids = vec![
        "68b3a1d2e4f5a6b7c8d9e0f1".to_string(),
        "68b3a1d2e4f5a6b7c8d9e0a1".to_string(),
    ];
    assert_eq!(match_expense_suffix(&ids, "f1"), Ok(0));
    assert_eq!(match_expense_suffix(&ids, "a1"), Ok(1));
    assert_eq!(match_expense_suffix(&ids, "1"), Err(SuffixError::Several));
    assert_eq!(match_expense_suffix(&ids, "ff"), Err(SuffixError::NoMatch));
}

#[test]
fn expense_rejections_are_explained() {
    assert_eq!(
        friendly_expense_result("Clockify API error (400): Receipt is required"),
        ExpenseRejection::Receipt
    );
    assert_eq!(
        friendly_expense_result("FILE missing; Category invalid"),
        ExpenseRejection::Receipt
    );
    assert_eq!(
        friendly_expense_result("Category not found"),
        ExpenseRejection::Category
    );
    assert_eq!(
        friendly_expense_result("project is archived"),
        ExpenseRejection::Project
    );
    assert_eq!(friendly_expense_result("timeout"), ExpenseRejection::Other);
}

#[test]
fn expense_edits_list_what_they_change() {
    let none = ExpenseEdit {
        amount: false,
        category: false,
        date: false,
        project: false,
        task: false,
        notes: false,
        billable: false,
        file: false,
    };
    assert_eq!(change_fields(&none), Err(ExpenseEditError::NothingToUpdate));
    let some = ExpenseEdit { file: true, amount: true, project: true, ..none };
    let fields = change_fields(&some).unwrap();
    assert_eq!(
        fields,
        vec![ExpenseChangeField::Amount, ExpenseChangeField::Project, ExpenseChangeField::File]
    );
    let names: Vec<&str> = fields.iter().map(|f| f.as_api_str()).collect();
    assert_eq!(names, vec!["AMOUNT", "PROJECT", "FILE"]);
}

#[test]
fn expense_task_follows_the_project() {
    let old = Some("t1".to_string());
    assert_eq!(edited_task(Some("t2".to_string()), true, old.clone()), Some("t2".to_string()));
    assert_eq!(edited_task(None, true, old.clone()), None);
    assert_eq!(edited_task(None, false, old.clone()), old);
}

fn view() -> ExpenseView {
    ExpenseView {
        locked: false,
        amount_cents: 1250,
        category_id: Some("cat".to_string()),
        date: Date::from_ymd(2026, 7, 1).unwrap(),
        project_id: Some("p1".to_string()),
        task_id: Some("t1".to_string()),
        notes: Some("lunch".to_string()),
        billable: true,
    }
}

fn no_edit() -> ExpenseEditValues {
    ExpenseEditValues {
        amount_cents: None,
        category_id: None,
        date: None,
        project_id: None,
        task: None,
        notes: None,
        billable: None,
        file: false,
    }
}

#[test]
fn expense_edits_merge_with_the_expense() {
    let x = view();
    let e = ExpenseEditValues { amount_cents: Some(900), project_id: Some("p2".to_string()), ..no_edit() };
    let u = expense_update(&x, &e).unwrap();
    assert_eq!(u.amount_cents, 900);
    assert_eq!(u.category_id, "cat");
    assert_eq!(u.project_id.as_deref(), Some("p2"));
    assert_eq!(u.task_id, None);
    assert_eq!(u.notes.as_deref(), Some("lunch"));
    assert!(u.billable);
    assert_eq!(u.change_fields, vec![ExpenseChangeField::Amount, ExpenseChangeField::Project]);
    let e = ExpenseEditValues { task: Some("t2".to_string()), ..no_edit() };
    assert_eq!(expense_update(&x, &e).unwrap().task_id.as_deref(), Some("t2"));
}

#[test]
fn expense_edits_refused() {
    let x = view();
    let locked = ExpenseView { locked: true, ..view() };
    let neg = ExpenseEditValues { amount_cents: Some(-1), ..no_edit() };
    assert_eq!(expense_update(&locked, &neg), Err(ExpenseEditError::Locked));
    assert_eq!(expense_edit_check(&locked, None), Err(ExpenseEditError::Locked));
    assert_eq!(expense_update(&x, &neg), Err(ExpenseEditError::NegativeAmount));
    assert_eq!(expense_edit_check(&x, Some(-1)), Err(ExpenseEditError::NegativeAmount));
    assert_eq!(expense_edit_check(&x, Some(0)), Ok(()));
    assert_eq!(expense_update(&x, &no_edit()), Err(ExpenseEditError::NothingToUpdate));
    let uncategorised = ExpenseView { category_id: None, ..view() };
    assert_eq!(expense_update(&uncategorised, &no_edit()), Err(ExpenseEditError::NoCategory));
    let projectless = ExpenseView { project_id: None, ..view() };
    let task = ExpenseEditValues { task: Some("design".to_string()), ..no_edit() };
    assert_eq!(edited_project(&projectless, &None), None);
    assert_eq!(expense_update(&projectless, &task), Err(ExpenseEditError::TaskWithoutProject));
}

#[test]
fn expenses_in_a_range_keep_both_ends() {
    let d = |m: u32, day: u32| Date::from_ymd(2026, m, day).unwrap();
    let dates = vec![d(6, 30), d(7, 1), d(7, 15), d(7, 31), d(8, 1)];
    assert_eq!(expenses_in_range(&dates, d(7, 1), d(7, 31)), vec![1, 2, 3]);
    assert_eq!(expenses_in_range(&dates, d(7, 2), d(7, 1)), Vec::<usize>::new());
}

#[test]
fn expense_submissions_need_expenses() {
    let w = PeriodWindow {
        period: Period::Monthly,
        from: Date::from_ymd(2026, 7, 1).unwrap(),
        to: Date::from_ymd(2026, 7, 31).unwrap(),
    };
    assert_eq!(expense_submission(w, 100, 0), Err(ExpenseSubmitError::NoExpenses));
    assert_eq!(
        expense_submission(w, 100, 3),
        Ok(ExpenseSubmission { window: w, expense_count: 3, period_start: 100 })
    );
}
