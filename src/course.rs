//! Course records, loaded from a CSV text whose `id` column names each course.

use vstd::prelude::*;
use vstd::string::StringExecFns;
use crate::digits::{id_of_field, parse_id};
use crate::table::{csv_table_of, parse_table, CsvTable};

verus! {

/// One crawlable course.
#[derive(Clone, Copy, Debug, PartialEq, Eq, Structural)]
pub struct Course {
    pub id: u32,
}

/// Why a CSV text yields no course list.
#[derive(Clone, Copy, Debug, PartialEq, Eq, Structural)]
pub enum LoadError {
    /// The CSV reader rejected the text (bad quoting, rows of unequal length,
    /// invalid UTF-8).
    Malformed,
    /// There are rows, and no header field is `id`.
    MissingIdColumn,
    /// There are rows, and two header fields are `id`.
    DuplicateIdColumn,
    /// The row (counted from 0 after the header) has no field under `id`.
    MissingIdField { row: usize },
    /// The row's `id` field is not an unsigned 32-bit numeral.
    InvalidId { row: usize },
}

pub open spec fn is_id_header(c: Seq<char>) -> bool {
    c == "id"@
}

/// The position of the header's `id` field.
pub open spec fn id_column(h: Seq<Seq<char>>) -> Result<int, LoadError> {
    if exists|i: int, j: int|
        0 <= i < j < h.len() && #[trigger] is_id_header(h[i]) && #[trigger] is_id_header(h[j]) {
        Err(LoadError::DuplicateIdColumn)
    } else if exists|k: int| 0 <= k < h.len() && #[trigger] is_id_header(h[k]) {
        Ok(choose|k: int| 0 <= k < h.len() && #[trigger] is_id_header(h[k]))
    } else {
        Err(LoadError::MissingIdColumn)
    }
}

/// The course of data row number `r`, whose id stands in field `k`.
pub open spec fn course_of_row(row: Seq<Seq<char>>, k: int, r: int) -> Result<Course, LoadError> {
    if 0 <= k < row.len() {
        match id_of_field(row[k]) {
            Some(v) => Ok(Course { id: v }),
            None => Err(LoadError::InvalidId { row: r as usize }),
        }
    } else {
        Err(LoadError::MissingIdField { row: r as usize })
    }
}

/// The courses of `rows` in order, or the error of the first row that has none.
pub open spec fn courses_of_rows(rows: Seq<Seq<Seq<char>>>, k: int) -> Result<Seq<Course>, LoadError>
    decreases rows.len(),
{
    if rows.len() == 0 {
        Ok(Seq::empty())
    } else {
        match courses_of_rows(rows.drop_last(), k) {
            Ok(cs) => match course_of_row(rows.last(), k, rows.len() - 1) {
                Ok(c) => Ok(cs.push(c)),
                Err(e) => Err(e),
            },
            Err(e) => Err(e),
        }
    }
}

/// The courses that a header and its rows list. Without rows there are none,
/// whatever the header holds.
pub open spec fn courses_of_table(h: Seq<Seq<char>>, rows: Seq<Seq<Seq<char>>>) -> Result<Seq<Course>, LoadError> {
    if rows.len() == 0 {
        Ok(Seq::empty())
    } else {
        match id_column(h) {
            Ok(k) => courses_of_rows(rows, k),
            Err(e) => Err(e),
        }
    }
}

/// The courses that a CSV text lists.
pub open spec fn courses_of_text(text: Seq<u8>) -> Result<Seq<Course>, LoadError> {
    match csv_table_of(text) {
        Some((h, rows)) => courses_of_table(h, rows),
        None => Err(LoadError::Malformed),
    }
}

proof fn lemma_first_error_kept(rows: Seq<Seq<Seq<char>>>, k: int, n: int)
    requires
        0 <= n <= rows.len(),
        courses_of_rows(rows.take(n), k) is Err,
    ensures
        courses_of_rows(rows, k) == courses_of_rows(rows.take(n), k),
    decreases rows.len(),
{
    if n < rows.len() {
        assert(rows.drop_last().take(n) =~= rows.take(n));
        lemma_first_error_kept(rows.drop_last(), k, n);
    } else {
        assert(rows.take(n) =~= rows);
    }
}

/// Finds the header field `id`.
pub fn find_id_column(header: &Vec<String>) -> (r: Result<usize, LoadError>)
    ensures
        match id_column(header.deep_view()) {
            Ok(k) => r == Ok::<usize, LoadError>(k as usize),
            Err(e) => r == Err::<usize, LoadError>(e),
        },
        r matches Ok(k) ==> id_column(header.deep_view()) == Ok::<int, LoadError>(k as int),
{
    let ghost h = header.deep_view();
    let key = String::from_str("id");
    let mut found: Option<usize> = None;
    let mut i: usize = 0;
    while i < header.len()
        invariant
            h == header.deep_view(),
            key@ == "id"@,
            i <= header.len(),
            match found {
                Some(k) => k < i && is_id_header(h[k as int])
                    && forall|j: int| 0 <= j < i && j != k ==> !#[trigger] is_id_header(h[j]),
                None => forall|j: int| 0 <= j < i ==> !#[trigger] is_id_header(h[j]),
            },
        decreases header.len() - i,
    {
        assert(h[i as int] == header[i as int]@);
        if header[i] == key {
            if let Some(k) = found {
                assert(is_id_header(h[k as int]) && is_id_header(h[i as int]));
                return Err(LoadError::DuplicateIdColumn);
            }
            found = Some(i);
        }
        i = i + 1;
    }
    match found {
        Some(k) => {
            assert(is_id_header(h[k as int]));
            let ghost c = choose|c: int| 0 <= c < h.len() && #[trigger] is_id_header(h[c]);
            assert(c == k);
            Ok(k)
        },
        None => Err(LoadError::MissingIdColumn),
    }
}

impl Course {
    /// The courses of a table read from CSV, one per data row, in row order.
    pub fn from_table(table: &CsvTable) -> (r: Result<Vec<Course>, LoadError>)
        ensures
            match courses_of_table(table.view().0, table.view().1) {
                Ok(cs) => r matches Ok(v) && v@ == cs,
                Err(e) => r == Err::<Vec<Course>, LoadError>(e),
            },
    {
        let ghost rows = table.rows.deep_view();
        let mut courses: Vec<Course> = Vec::new();
        if table.rows.len() == 0 {
            assert(courses@ =~= Seq::<Course>::empty());
            return Ok(courses);
        }
        let k = match find_id_column(&table.header) {
            Ok(k) => k,
            Err(e) => return Err(e),
        };
        let mut i: usize = 0;
        while i < table.rows.len()
            invariant
                rows == table.rows.deep_view(),
                rows.len() > 0,
                id_column(table.header.deep_view()) == Ok::<int, LoadError>(k as int),
                i <= rows.len(),
                courses_of_rows(rows.take(i as int), k as int) == Ok::<Seq<Course>, LoadError>(courses@),
            decreases rows.len() - i,
        {
            let row = &table.rows[i];
            let ghost row_v = rows[i as int];
            assert(row_v == row.deep_view());
            assert(rows.take(i + 1).drop_last() =~= rows.take(i as int));
            assert(rows.take(i + 1).last() == row_v);
            if k >= row.len() {
                proof { lemma_first_error_kept(rows, k as int, i + 1); }
                return Err(LoadError::MissingIdField { row: i });
            }
            assert(row_v[k as int] == row[k as int]@);
            match parse_id(row[k].as_str()) {
                Some(id) => {
                    courses.push(Course { id });
                },
                None => {
                    proof { lemma_first_error_kept(rows, k as int, i + 1); }
                    return Err(LoadError::InvalidId { row: i });
                },
            }
            i = i + 1;
        }
        assert(rows.take(i as int) =~= rows);
        Ok(courses)
    }

    /// The courses that a CSV text lists, one per data row, in row order.
    pub fn from_csv(text: &[u8]) -> (r: Result<Vec<Course>, LoadError>)
        ensures
            match courses_of_text(text@) {
                Ok(cs) => r matches Ok(v) && v@ == cs,
                Err(e) => r == Err::<Vec<Course>, LoadError>(e),
            },
    {
        match parse_table(text) {
            Some(table) => Course::from_table(&table),
            None => Err(LoadError::Malformed),
        }
    }
}

} // verus!
