//! The overlay document: one service block per course, numbered from 1 in
//! course order, each extending the shared recorder service.

use vstd::prelude::*;
use vstd::string::StringExecFns;
use crate::course::Course;
use crate::digits::{decimal, push_decimal};

verus! {

/// The value of an environment entry in a service block.
#[derive(Clone, Copy, Debug, PartialEq, Eq, Structural)]
pub enum EnvValue {
    /// Written out now, in decimal.
    Resolved(u32),
    /// Left as `${NAME}`, for the orchestration tool to fill from its own
    /// environment.
    Deferred,
}

/// One generated worker service: its position among the courses (from 1)
/// and the course it records.
#[derive(Clone, Copy, Debug, PartialEq, Eq, Structural)]
pub struct ServiceBlock {
    pub index: usize,
    pub course_id: u32,
}

/// The service and container name of the block at `index`.
pub open spec fn service_name(index: nat) -> Seq<char> {
    "video-recorder"@ + decimal(index)
}

/// One line of a block's `environment` list.
pub open spec fn env_entry(name: Seq<char>, value: EnvValue) -> Seq<char> {
    "      - "@ + name + "="@ + match value {
        EnvValue::Deferred => "${"@ + name + "}"@,
        EnvValue::Resolved(v) => decimal(v as nat),
    } + "\n"@
}

/// The text of one service block.
pub open spec fn block_text(b: ServiceBlock) -> Seq<char> {
    "  "@ + service_name(b.index as nat) + ":\n"@
        + "    container_name: "@ + service_name(b.index as nat) + "\n"@
        + "    environment:\n"@
        + env_entry("EMAIL"@, EnvValue::Deferred)
        + env_entry("PASSWORD"@, EnvValue::Deferred)
        + env_entry("VIDEO_TO_RECORD_ID"@, EnvValue::Resolved(b.course_id))
        + "    extends:\n"@
        + "      service: video-recorder\n"@
        + "      file: common-services.yaml\n"@
}

/// The blocks' texts, one after the other.
pub open spec fn blocks_text(bs: Seq<ServiceBlock>) -> Seq<char>
    decreases bs.len(),
{
    if bs.len() == 0 {
        Seq::empty()
    } else {
        blocks_text(bs.drop_last()) + block_text(bs.last())
    }
}

/// The whole overlay document for `bs`.
pub open spec fn overlay_text(bs: Seq<ServiceBlock>) -> Seq<char> {
    "services:\n"@ + blocks_text(bs)
}

/// The blocks for `courses`: the block at position `i` is numbered `i + 1`
/// and records course `i`.
pub open spec fn blocks_of(courses: Seq<Course>) -> Seq<ServiceBlock> {
    Seq::new(courses.len(), |i: int| ServiceBlock { index: (i + 1) as usize, course_id: courses[i].id })
}

/// The overlay document for `courses`.
pub open spec fn overlay_of(courses: Seq<Course>) -> Seq<char> {
    overlay_text(blocks_of(courses))
}

fn push_name(out: &mut String, index: usize)
    ensures
        final(out)@ == old(out)@ + service_name(index as nat),
{
    out.append("video-recorder");
    push_decimal(out, index as u64);
    assert(out@ =~= old(out)@ + service_name(index as nat));
}

fn push_env(out: &mut String, name: &str, value: EnvValue)
    ensures
        final(out)@ == old(out)@ + env_entry(name@, value),
{
    out.append("      - ");
    out.append(name);
    out.append("=");
    match value {
        EnvValue::Deferred => {
            out.append("${");
            out.append(name);
            out.append("}");
        },
        EnvValue::Resolved(v) => {
            push_decimal(out, v as u64);
        },
    }
    out.append("\n");
    assert(out@ =~= old(out)@ + env_entry(name@, value));
}

/// Appends the text of block `b` to `out`.
pub fn push_block(out: &mut String, b: ServiceBlock)
    ensures
        final(out)@ == old(out)@ + block_text(b),
{
    let ghost start = out@;
    out.append("  ");
    push_name(out, b.index);
    out.append(":\n");
    out.append("    container_name: ");
    push_name(out, b.index);
    out.append("\n");
    out.append("    environment:\n");
    let ghost names = out@;
    assert(names =~= start + ("  "@ + service_name(b.index as nat) + ":\n"@
        + "    container_name: "@ + service_name(b.index as nat) + "\n"@
        + "    environment:\n"@));
    push_env(out, "EMAIL", EnvValue::Deferred);
    push_env(out, "PASSWORD", EnvValue::Deferred);
    push_env(out, "VIDEO_TO_RECORD_ID", EnvValue::Resolved(b.course_id));
    out.append("    extends:\n");
    out.append("      service: video-recorder\n");
    out.append("      file: common-services.yaml\n");
    assert(out@ =~= start + block_text(b));
}

/// The blocks for `courses`, numbered from 1 in course order.
pub fn service_blocks(courses: &Vec<Course>) -> (r: Vec<ServiceBlock>)
    ensures
        r@ == blocks_of(courses@),
{
    let mut r: Vec<ServiceBlock> = Vec::new();
    let mut i: usize = 0;
    while i < courses.len()
        invariant
            i <= courses.len(),
            r@ =~= blocks_of(courses@.take(i as int)),
        decreases courses.len() - i,
    {
        r.push(ServiceBlock { index: i + 1, course_id: courses[i].id });
        i = i + 1;
        assert(r@ =~= blocks_of(courses@.take(i as int)));
    }
    assert(courses@.take(i as int) =~= courses@);
    r
}

/// The overlay document that declares the blocks `bs`, in order.
pub fn render_overlay(bs: &Vec<ServiceBlock>) -> (r: String)
    ensures
        r@ == overlay_text(bs@),
{
    let mut out = String::new();
    out.append("services:\n");
    let mut i: usize = 0;
    while i < bs.len()
        invariant
            i <= bs.len(),
            out@ == "services:\n"@ + blocks_text(bs@.take(i as int)),
        decreases bs.len() - i,
    {
        push_block(&mut out, bs[i]);
        assert(bs@.take(i + 1).drop_last() =~= bs@.take(i as int));
        i = i + 1;
        assert(out@ =~= "services:\n"@ + blocks_text(bs@.take(i as int)));
    }
    assert(bs@.take(i as int) =~= bs@);
    out
}

/// The overlay document for `courses`: block `i` (from 1) is named
/// `video-recorder<i>` and records the id of the `i`-th course.
pub fn overlay_for(courses: &Vec<Course>) -> (r: String)
    ensures
        r@ == overlay_of(courses@),
{
    let bs = service_blocks(courses);
    render_overlay(&bs)
}

} // verus!
