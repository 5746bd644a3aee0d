//! What holds of every run: the shape of the overlay document, the replica
//! guard, and the rejection of bad input before anything is written.

use vstd::prelude::*;
use crate::course::{course_of_row, courses_of_rows, courses_of_table, courses_of_text, id_column, Course, LoadError};
use crate::digits::{decimal, digit_char};
use crate::overlay::{blocks_of, overlay_of, overlay_text, service_name, ServiceBlock};
use crate::plan::{plan_of, InitError};

verus! {

/// A successful plan declares exactly one block per course: the `i`-th block
/// is numbered `i + 1` and carries the `i`-th course's id, in the order of the
/// rows, and there are as many blocks as replicas requested.
pub proof fn lemma_one_block_per_course(text: Seq<u8>, replicas: u32)
    requires
        plan_of(text, replicas) is Ok,
    ensures
        courses_of_text(text) is Ok,
        ({
            let cs = courses_of_text(text)->Ok_0;
            let bs = blocks_of(cs);
            &&& plan_of(text, replicas) == Ok::<Seq<char>, InitError>(overlay_text(bs))
            &&& bs.len() == cs.len()
            &&& cs.len() == replicas as nat
            &&& forall|i: int| 0 <= i < bs.len() ==>
                (#[trigger] bs[i]).index == i + 1 && bs[i].course_id == cs[i].id
        }),
{
}

proof fn lemma_decimal_nonempty(n: nat)
    ensures
        decimal(n).len() >= 1,
    decreases n,
{
    if n >= 10 {
        lemma_decimal_nonempty(n / 10);
    }
}

proof fn lemma_digit_char_injective(x: nat, y: nat)
    requires
        x < 10,
        y < 10,
        digit_char(x) == digit_char(y),
    ensures
        x == y,
{
}

/// Different numbers have different decimal numerals.
pub proof fn lemma_decimal_injective(a: nat, b: nat)
    requires
        decimal(a) == decimal(b),
    ensures
        a == b,
    decreases a,
{
    if a < 10 && b < 10 {
        assert(decimal(a)[0] == digit_char(a));
        assert(decimal(b)[0] == digit_char(b));
        lemma_digit_char_injective(a, b);
    } else if a < 10 {
        lemma_decimal_nonempty(b / 10);
        assert(decimal(a).len() == 1);
        assert(decimal(b).len() == decimal(b / 10).len() + 1);
    } else if b < 10 {
        lemma_decimal_nonempty(a / 10);
        assert(decimal(b).len() == 1);
        assert(decimal(a).len() == decimal(a / 10).len() + 1);
    } else {
        assert(decimal(a).drop_last() =~= decimal(a / 10));
        assert(decimal(b).drop_last() =~= decimal(b / 10));
        assert(decimal(a).last() == digit_char(a % 10));
        assert(decimal(b).last() == digit_char(b % 10));
        lemma_decimal_injective(a / 10, b / 10);
        lemma_digit_char_injective(a % 10, b % 10);
        assert(a == 10 * (a / 10) + a % 10);
        assert(b == 10 * (b / 10) + b % 10);
    }
}

/// Blocks at different positions have different service names: naming by
/// position leaves no gaps and no duplicates.
pub proof fn lemma_block_names_distinct(courses: Seq<Course>, i: int, j: int)
    requires
        courses.len() <= usize::MAX,
        0 <= i < courses.len(),
        0 <= j < courses.len(),
        i != j,
    ensures
        service_name(blocks_of(courses)[i].index as nat) != service_name(blocks_of(courses)[j].index as nat),
{
    let bs = blocks_of(courses);
    let p = "video-recorder"@;
    if service_name(bs[i].index as nat) == service_name(bs[j].index as nat) {
        assert(service_name(bs[i].index as nat).skip(p.len() as int) =~= decimal(bs[i].index as nat));
        assert(service_name(bs[j].index as nat).skip(p.len() as int) =~= decimal(bs[j].index as nat));
        lemma_decimal_injective(bs[i].index as nat, bs[j].index as nat);
    }
}

/// When the requested replica count differs from the number of courses, the
/// plan fails with the mismatch and yields no document.
pub proof fn lemma_mismatch_yields_no_overlay(text: Seq<u8>, replicas: u32)
    requires
        courses_of_text(text) is Ok,
        courses_of_text(text)->Ok_0.len() != replicas as nat,
    ensures
        plan_of(text, replicas) == Err::<Seq<char>, InitError>(InitError::ReplicaMismatch {
            requested: replicas,
            found: courses_of_text(text)->Ok_0.len() as usize,
        }),
{
}

/// The same input gives the same document, character for character.
pub proof fn lemma_plan_deterministic(t1: Seq<u8>, r1: u32, t2: Seq<u8>, r2: u32)
    requires
        t1 == t2,
        r1 == r2,
    ensures
        plan_of(t1, r1) == plan_of(t2, r2),
{
}

/// A table with a header and no rows lists no courses, and the overlay for no
/// courses holds the `services` key alone.
pub proof fn lemma_no_rows_no_blocks(header: Seq<Seq<char>>)
    ensures
        courses_of_table(header, Seq::empty()) == Ok::<Seq<Course>, LoadError>(Seq::empty()),
        overlay_of(Seq::empty()) == "services:\n"@,
{
    assert(overlay_of(Seq::empty()) =~= "services:\n"@);
}

proof fn lemma_rows_ok_each_ok(rows: Seq<Seq<Seq<char>>>, k: int, r: int)
    requires
        courses_of_rows(rows, k) is Ok,
        0 <= r < rows.len(),
    ensures
        course_of_row(rows[r], k, r) is Ok,
    decreases rows.len(),
{
    if r < rows.len() - 1 {
        assert(rows.drop_last()[r] == rows[r]);
        lemma_rows_ok_each_ok(rows.drop_last(), k, r);
    }
}

/// A row whose `id` field is missing or not a numeral makes the whole table
/// fail to load, so no document is built from it.
pub proof fn lemma_bad_id_rejected(header: Seq<Seq<char>>, rows: Seq<Seq<Seq<char>>>, r: int)
    requires
        0 <= r < rows.len(),
        id_column(header) is Ok ==> course_of_row(rows[r], id_column(header)->Ok_0, r) is Err,
    ensures
        courses_of_table(header, rows) is Err,
{
    if let Ok(k) = id_column(header) {
        if courses_of_rows(rows, k) is Ok {
            lemma_rows_ok_each_ok(rows, k, r);
        }
    }
}

} // verus!
