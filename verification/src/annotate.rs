//! Uploading annotations and listing what the catalogue holds.

use vstd::prelude::*;
use chrono::{TimeZone, Utc};
use crate::catalogue_database::{
    annotate_run, list_records as list_between, listing, update_record, Catalogue,
};
use crate::models::{Annotation, AnnotationRecord};

verus! {

/// The UTC time, in seconds since the epoch, that `chrono` reads from `text`
/// under the format `format`, or `None` where it reads none.
pub uninterp spec fn utc_timestamp(text: Seq<char>, format: Seq<char>) -> Option<i64>;

/// `chrono::TimeZone::datetime_from_str` on `Utc`, and the timestamp of the
/// time it returns: a function of the text and the format alone.
#[allow(deprecated)]
#[verifier::external_body]
fn parse_utc(text: &str, format: &str) -> (res: Option<i64>)
    ensures
        res == utc_timestamp(text@, format@),
{
    match Utc.datetime_from_str(text, format) {
        Ok(time) => Some(time.timestamp()),
        Err(_) => None,
    }
}

/// The format of both bounds of a listing: a date and a time of day.
pub open spec fn bound_format() -> Seq<char> {
    "%Y-%m-%d %H:%M:%S"@
}

/// Why a listing was not made.
#[derive(Debug, Clone, Copy, PartialEq, Eq, Structural)]
pub enum ListError {
    /// The lower bound is no date and time in the expected format.
    AfterDate,
    /// The upper bound is no date and time in the expected format.
    BeforeDate,
}

/// The timestamp of an optional bound: zero, which is no bound, where none
/// is given; `None` where one is given and cannot be read.
pub open spec fn bound_of(date: Option<Seq<char>>) -> Option<i64> {
    match date {
        Some(text) => utc_timestamp(text, bound_format()),
        None => Some(0i64),
    }
}

/// Reads an optional bound.
pub fn read_bound(date: &Option<String>) -> (res: Option<i64>)
    ensures
        res == bound_of(date.deep_view()),
{
    match date {
        Some(text) => parse_utc(text.as_str(), "%Y-%m-%d %H:%M:%S"),
        None => Some(0),
    }
}

/// Uploads the annotations one after the other; returns, for each, how many
/// entries it changed.
pub fn annotate(catalogue: &mut Catalogue, records: &Vec<Annotation>) -> (rows: Vec<usize>)
    ensures
        (final(catalogue)@, rows@) == annotate_run(old(catalogue)@, records.deep_view()),
{
    let mut rows: Vec<usize> = Vec::new();
    let mut i: usize = 0;
    assert(records.deep_view().take(0) =~= Seq::empty());
    while i < records.len()
        invariant
            i <= records.len(),
            (catalogue@, rows@) == annotate_run(old(catalogue)@, records.deep_view().take(i as int)),
        decreases records.len() - i,
    {
        proof {
            let prefix = records.deep_view().take(i + 1);
            assert(prefix.drop_last() =~= records.deep_view().take(i as int));
            assert(prefix.last() == records[i as int]@);
        }
        let changed = update_record(catalogue, &records[i]);
        rows.push(changed);
        i += 1;
    }
    assert(records.deep_view().take(i as int) =~= records.deep_view());
    rows
}

/// Lists the entries created between the two bounds that pass the search.
/// Each bound, where given, is a UTC date and time written as
/// `%Y-%m-%d %H:%M:%S` and is itself included; a bound at or before the
/// epoch is no bound. Without a search text every entry passes the search.
pub fn list_records(
    catalogue: &Catalogue,
    after_date: Option<String>,
    before_date: Option<String>,
    search_string: Option<String>,
    description: bool,
    title: bool,
) -> (res: Result<Vec<AnnotationRecord>, ListError>)
    ensures
        bound_of(after_date.deep_view()) is None ==> res == Err::<Vec<AnnotationRecord>, ListError>(
            ListError::AfterDate,
        ),
        bound_of(after_date.deep_view()) is Some && bound_of(before_date.deep_view()) is None ==> res
            == Err::<Vec<AnnotationRecord>, ListError>(ListError::BeforeDate),
        bound_of(after_date.deep_view()) is Some && bound_of(before_date.deep_view()) is Some ==> res
            is Ok && res->Ok_0.deep_view() == listing(
            catalogue@,
            bound_of(after_date.deep_view())->0,
            bound_of(before_date.deep_view())->0,
            match search_string {
                Some(text) => text@,
                None => Seq::empty(),
            },
            description,
            title,
        ),
{
    let a_date = match read_bound(&after_date) {
        Some(seconds) => seconds,
        None => {
            return Err(ListError::AfterDate);
        },
    };
    let b_date = match read_bound(&before_date) {
        Some(seconds) => seconds,
        None => {
            return Err(ListError::BeforeDate);
        },
    };
    let search = match search_string {
        Some(text) => text,
        None => String::new(),
    };
    Ok(list_between(catalogue, a_date, b_date, search.as_str(), description, title))
}

} // verus!
