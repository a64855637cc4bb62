//! What is answered when a row of the store is asked for, changed or deleted.

use crate::error::{error_of, outcome, Error, ErrorKind, ErrorView};
use crate::json::{
    add_member, lemma_holds, no_members, object_of, text_value, Json, JsonView,
};
use crate::store::stored;
use crate::text::{contains_text, join3, join4, occurs_at};
use vstd::prelude::*;

verus! {

/// The refusal where there is no such row.
pub open spec fn not_found_error(title: Seq<char>, id: Seq<char>) -> ErrorView {
    error_of(ErrorKind::StateNotFound, title + " '"@ + id + "' not found"@)
}

/// The report of a store that failed to do something to a row.
pub open spec fn failure_error(
    action: Seq<char>,
    noun: Seq<char>,
    id: Seq<char>,
    detail: Seq<char>,
) -> ErrorView {
    error_of(ErrorKind::InternalError, action + noun + " '"@ + id + "': "@ + detail)
}

/// The refusal where there is no such row.
pub fn row_not_found(title: &str, id: &str) -> (r: Error)
    ensures
        r.deep_view() == not_found_error(title@, id@),
{
    Error { kind: ErrorKind::StateNotFound, message: join4(title, " '", id, "' not found") }
}

/// The report of a store that failed to do something to a row.
pub fn row_failure(action: &str, noun: &str, id: &str, detail: &str) -> (r: Error)
    ensures
        r.deep_view() == failure_error(action@, noun@, id@, detail@),
{
    let front = join4(action, noun, " '", id);
    Error {
        kind: ErrorKind::InternalError,
        message: join3(front.as_str(), "': ", detail),
    }
}

/// A row, where the store holds it.
pub open spec fn found_row<T>(
    title: Seq<char>,
    noun: Seq<char>,
    id: Seq<char>,
    row: Result<Option<T>, Seq<char>>,
) -> Result<T, ErrorView> {
    match row {
        Ok(Some(row)) => Ok(row),
        Ok(None) => Err(not_found_error(title, id)),
        Err(detail) => Err(failure_error("Failed to read "@, noun, id, detail)),
    }
}

/// A row, where the store holds it.
pub fn find_row<T: DeepView>(
    title: &str,
    noun: &str,
    id: &str,
    row: Result<Option<T>, String>,
) -> (r: Result<T, Error>)
    ensures
        outcome(r) == found_row(title@, noun@, id@, stored(row)),
{
    match row {
        Ok(Some(row)) => Ok(row),
        Ok(None) => Err(row_not_found(title, id)),
        Err(detail) => Err(row_failure("Failed to read ", noun, id, detail.as_str())),
    }
}

/// What became of a row.
pub open spec fn row_status(id: Seq<char>, status: Seq<char>) -> JsonView {
    JsonView::Object(seq![("id"@, JsonView::Text(id)), ("status"@, JsonView::Text(status))])
}

/// The answer to a deletion, given how many rows it took.
pub open spec fn deleted_row(
    title: Seq<char>,
    noun: Seq<char>,
    id: Seq<char>,
    rows: Result<u64, Seq<char>>,
) -> Result<JsonView, ErrorView> {
    match rows {
        Ok(count) => if count == 0 {
            Err(not_found_error(title, id))
        } else {
            Ok(row_status(id, "deleted"@))
        },
        Err(detail) => Err(failure_error("Failed to delete "@, noun, id, detail)),
    }
}

/// The answer to a deletion.
pub fn delete_answer(title: &str, noun: &str, id: &str, rows: &Result<u64, String>) -> (r: Result<
    Json,
    Error,
>)
    ensures
        match r {
            Ok(answer) => deleted_row(title@, noun@, id@, row_count(*rows)) == Ok::<
                JsonView,
                ErrorView,
            >(answer@),
            Err(error) => deleted_row(title@, noun@, id@, row_count(*rows)) == Err::<
                JsonView,
                ErrorView,
            >(error.deep_view()),
        },
{
    match rows {
        Ok(count) => {
            if *count == 0 {
                return Err(row_not_found(title, id));
            }
            let mut members = no_members();
            add_member(&mut members, "id", text_value(id));
            add_member(&mut members, "status", text_value("deleted"));
            assert(members.deep_view() =~= row_status(id@, "deleted"@)->Object_0);
            Ok(object_of(members))
        },
        Err(detail) => Err(row_failure("Failed to delete ", noun, id, detail.as_str())),
    }
}

/// How many rows a statement took.
pub open spec fn row_count(rows: Result<u64, String>) -> Result<u64, Seq<char>> {
    match rows {
        Ok(count) => Ok(count),
        Err(detail) => Err(detail@),
    }
}

/// What became of a row, with what it is now.
pub open spec fn row_answer(
    id: Seq<char>,
    noun: Seq<char>,
    shown: JsonView,
    status: Seq<char>,
) -> JsonView {
    JsonView::Object(
        seq![("id"@, JsonView::Text(id)), (noun, shown), ("status"@, JsonView::Text(status))],
    )
}

/// What became of a row, with what it is now.
pub fn answer_with_row(id: &str, noun: &str, shown: Json, status: &str) -> (r: Json)
    ensures
        r@ == row_answer(id@, noun@, shown@, status@),
{
    let ghost value = shown@;
    let mut members = no_members();
    add_member(&mut members, "id", text_value(id));
    add_member(&mut members, noun, shown);
    add_member(&mut members, "status", text_value(status));
    assert(members.deep_view() =~= row_answer(id@, noun@, value, status@)->Object_0);
    object_of(members)
}

/// A row is found just where the store holds it; where it does not, or fails, that is
/// told of the row by its own name and id.
pub proof fn rows_are_found_or_told_of<T>(
    title: Seq<char>,
    noun: Seq<char>,
    id: Seq<char>,
    row: Result<Option<T>, Seq<char>>,
)
    ensures
        row matches Ok(Some(found)) ==> found_row(title, noun, id, row) == Ok::<T, ErrorView>(found),
        row matches Ok(None) ==> (found_row(title, noun, id, row) matches Err(error) && error.kind
            == ErrorKind::StateNotFound && contains_text(error.message, id)),
        row matches Err(detail) ==> (found_row(title, noun, id, row) matches Err(error)
            && error.kind == ErrorKind::InternalError && contains_text(error.message, id)
            && contains_text(error.message, detail)),
{
    lemma_reports_name_the_row(title, noun, id, row->Err_0);
}

proof fn lemma_reports_name_the_row(
    title: Seq<char>,
    noun: Seq<char>,
    id: Seq<char>,
    detail: Seq<char>,
)
    ensures
        contains_text(not_found_error(title, id).message, id),
        contains_text(failure_error("Failed to read "@, noun, id, detail).message, id),
        contains_text(failure_error("Failed to read "@, noun, id, detail).message, detail),
        contains_text(failure_error("Failed to delete "@, noun, id, detail).message, id),
{
    let missing = not_found_error(title, id).message;
    let front = title + " '"@;
    assert(missing.subrange(front.len() as int, (front.len() + id.len()) as int) =~= id);
    assert(occurs_at(missing, id, front.len() as int));
    let failed = failure_error("Failed to read "@, noun, id, detail).message;
    let start = "Failed to read "@ + noun + " '"@;
    assert(failed.subrange(start.len() as int, (start.len() + id.len()) as int) =~= id);
    assert(occurs_at(failed, id, start.len() as int));
    let end = failed.len() - detail.len();
    assert(failed.subrange(end, end + detail.len()) =~= detail);
    assert(occurs_at(failed, detail, end));
    let undone = failure_error("Failed to delete "@, noun, id, detail).message;
    let begin = "Failed to delete "@ + noun + " '"@;
    assert(undone.subrange(begin.len() as int, (begin.len() + id.len()) as int) =~= id);
    assert(occurs_at(undone, id, begin.len() as int));
}

/// A deletion that took no row tells that there was none; one that took a row tells
/// what became of it, under its id.
pub proof fn deletion_tells_what_became_of_the_row(
    title: Seq<char>,
    noun: Seq<char>,
    id: Seq<char>,
    rows: Result<u64, Seq<char>>,
)
    ensures
        deleted_row(title, noun, id, rows) is Ok <==> (rows matches Ok(count) && count > 0),
        deleted_row(title, noun, id, rows) matches Ok(answer) ==> answer.holds(
            "id"@,
            JsonView::Text(id),
        ) && answer.holds("status"@, JsonView::Text("deleted"@)) && answer->Object_0.len() == 2,
        deleted_row(title, noun, id, rows) matches Err(error) ==> error.kind == if rows is Ok {
            ErrorKind::StateNotFound
        } else {
            ErrorKind::InternalError
        } && contains_text(error.message, id),
{
    lemma_reports_name_the_row(title, noun, id, rows->Err_0);
    let answer = row_status(id, "deleted"@);
    lemma_holds(answer, 0);
    lemma_holds(answer, 1);
}

/// An answer about a row carries its id, what it is now and what became of it.
pub proof fn answer_carries_the_row(
    id: Seq<char>,
    noun: Seq<char>,
    shown: JsonView,
    status: Seq<char>,
)
    ensures
        ({
            let answer = row_answer(id, noun, shown, status);
            &&& answer.holds("id"@, JsonView::Text(id)) && answer.holds(noun, shown)
            &&& answer.holds("status"@, JsonView::Text(status)) && answer->Object_0.len() == 3
        }),
{
    let answer = row_answer(id, noun, shown, status);
    lemma_holds(answer, 0);
    lemma_holds(answer, 1);
    lemma_holds(answer, 2);
}

} // verus!
