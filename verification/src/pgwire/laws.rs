//! What the tags of commands promise.

use vstd::prelude::*;

use super::plan;
use super::plan::StagedTagKind;
use super::transaction;
use crate::error::{Error, ErrorKind};
use crate::plan::physical::{DocumentOp, PhysicalPlan};
use crate::plan::types;
use crate::plan::types::KindView;

verus! {

/// The tag that is made up for a document plan before it has run is the tag that it would get after
/// it: the same command, with one row.
pub proof fn law_folded_tags_are_the_real_ones(plan: PhysicalPlan)
    requires
        plan is Document,
        plan::folded_command(plan) is Some,
    ensures
        types::plan_kind(plan) == KindView::DmlResult(plan::folded_command(plan)->0),
        plan::affected_rows(Seq::empty(), None) == 1,
{
}

/// A statement that asks for the rows that it changes never gets a tag made up for it.
pub proof fn law_returning_is_never_folded(plan: PhysicalPlan)
    requires
        types::has_returning(plan),
    ensures
        plan::folded_command(plan) is None,
        types::plan_kind(plan) == KindView::ReturningRows,
{
}

/// Whatever gives rows or a document never gets a tag made up for it.
pub proof fn law_reads_are_never_folded(plan: PhysicalPlan)
    requires
        types::plan_kind(plan) is MultiRow || types::plan_kind(plan) is SingleDocument
            || types::plan_kind(plan) is ArraySlice,
    ensures
        plan::folded_command(plan) is None,
{
}

/// A plan whose rows are still to be exchanged gives what the plan inside gives.
pub proof fn law_exchanges_are_transparent(child: PhysicalPlan)
    ensures
        types::plan_kind(
            PhysicalPlan::Query(crate::plan::physical::QueryOp::Exchange(Box::new(child))),
        ) == types::plan_kind(child),
{
    let plan = PhysicalPlan::Query(crate::plan::physical::QueryOp::Exchange(Box::new(child)));
    assert(types::unwrapped(plan) == types::unwrapped(child));
}

/// The tag of an insert, and of nothing else, carries an object id, and it is zero.
pub proof fn law_only_inserts_carry_an_object_id(kind: StagedTagKind, rows: usize)
    ensures
        plan::counted(plan::staged_command(kind), rows).oid == (match kind {
            StagedTagKind::Insert => Some(0u32),
            StagedTagKind::KvUpsert { updated: false } => Some(0u32),
            _ => None,
        }),
        plan::counted(plan::staged_command(kind), rows).rows == Some(rows),
{
    reveal_strlit("INSERT");
    reveal_strlit("UPDATE");
    reveal_strlit("DELETE");
    reveal_strlit("UPSERT");
    reveal_strlit("MERGE");
    reveal_strlit("SELECT");
    assert("INSERT"@[0] == 'I');
    assert("UPDATE"@[0] == 'U');
    assert("DELETE"@[0] == 'D');
    assert("UPSERT"@[0] == 'U');
    assert("MERGE"@[0] == 'M');
    assert("SELECT"@[0] == 'S');
}

/// The command of each staged write.
pub proof fn law_staged_writes_are_called_what_they_are(updated: bool)
    ensures
        plan::staged_command(StagedTagKind::Insert) == "INSERT"@,
        plan::staged_command(StagedTagKind::Update) == "UPDATE"@,
        plan::staged_command(StagedTagKind::Delete) == "DELETE"@,
        plan::staged_command(StagedTagKind::KvUpsert { updated }) == (if updated {
            "UPDATE"@
        } else {
            "INSERT"@
        }),
        plan::staged_command(StagedTagKind::DocUpsert) == "UPSERT"@,
        plan::staged_command(StagedTagKind::Merge) == "MERGE"@,
        plan::staged_command(StagedTagKind::UpdateFromJoin) == "UPDATE"@,
        plan::staged_command(StagedTagKind::RawPayload) == "SELECT"@,
{
}

/// The tag of a command that changed rows names the command and counts the rows; an object id, which
/// is zero, is in that of an insert alone.
pub proof fn law_tags_count_rows(command: Seq<char>, rows: usize)
    ensures
        plan::counted(command, rows).command == command,
        plan::counted(command, rows).rows == Some(rows),
        plan::counted(command, rows).oid == (if command == "INSERT"@ {
            Some(0u32)
        } else {
            None
        }),
{
}

/// A tag is made up for exactly the plans that write one row at a known place and give none back,
/// under the command that they are.
pub proof fn law_which_tags_are_made_up(p: PhysicalPlan)
    ensures
        plan::folded_command(p) == (match p {
            PhysicalPlan::Document(op) => if op is PointPut || op is PointInsert {
                Some("INSERT"@)
            } else if op == (DocumentOp::PointUpdate { returning: false }) {
                Some("UPDATE"@)
            } else if op == (DocumentOp::PointDelete { returning: false }) {
                Some("DELETE"@)
            } else {
                None
            },
            PhysicalPlan::Kv(op) => if op is Put || op is Insert || op is InsertIfAbsent {
                Some("INSERT"@)
            } else if op is Delete {
                Some("DELETE"@)
            } else {
                None
            },
            _ => None,
        }),
{
}

/// A command changed one row where it says nothing, or nothing that can be read, and otherwise as
/// many as it says.
pub proof fn law_how_many_rows_are_counted(payload: Seq<u8>, affected: Option<u64>)
    ensures
        payload.len() == 0 ==> plan::affected_rows(payload, affected) == 1,
        affected is None ==> plan::affected_rows(payload, affected) == 1,
        payload.len() > 0 && affected is Some && affected->0 <= usize::MAX ==> plan::affected_rows(
            payload,
            affected,
        ) == affected->0,
{
}

/// A row of text begins with four bytes that spell the length of the text, the highest first, and the
/// text follows.
pub proof fn law_rows_spell_their_length(s: Seq<char>)
    requires
        vstd::utf8::encode_utf8(s).len() < 0x1_0000_0000,
    ensures
        ({
            let bytes = vstd::utf8::encode_utf8(s);
            let row = plan::text_row(s);
            &&& row.len() == 4 + bytes.len()
            &&& row[0] * 0x1000000 + row[1] * 0x10000 + row[2] * 0x100 + row[3] == bytes.len()
            &&& row.skip(4) == bytes
        }),
{
    let bytes = vstd::utf8::encode_utf8(s);
    let n = bytes.len();
    let head = plan::big_endian(n);
    let row = plan::text_row(s);
    assert(head.len() == 4);
    assert(row.skip(4) =~= bytes);
    assert(row[0] == head[0] && row[1] == head[1] && row[2] == head[2] && row[3] == head[3]);
    assert(n / 0x1000000 % 0x100 * 0x1000000 + n / 0x10000 % 0x100 * 0x10000 + n / 0x100 % 0x100
        * 0x100 + n % 0x100 == n);
}

/// A bad request is told of by its detail, and any other error by its text.
pub proof fn law_what_errors_tell(error: Error)
    ensures
        error.kind matches ErrorKind::BadRequest { detail } ==> transaction::told(error) == detail@,
        !(error.kind is BadRequest) ==> transaction::told(error) == error.text@,
{
}

/// A bare tag is the command alone.
pub proof fn law_bare_tags_are_bare(tag: plan::CommandTag, command: Seq<char>)
    ensures
        transaction::is_bare(tag, command) <==> tag.command@ == command && tag.oid == None::<u32>
            && tag.rows == None::<usize>,
{
}

/// The elements of an array come as rows in their order, one for each; of one that the protocol can
/// hold, the row is its text.
pub proof fn law_elements_come_as_rows_in_order(rows: Seq<Vec<u8>>, items: Seq<String>, i: int)
    requires
        plan::rows_of(rows, plan::text_views(items)),
        0 <= i < items.len(),
    ensures
        rows.len() == items.len(),
        vstd::utf8::encode_utf8(items[i]@).len() <= i32::MAX ==> rows[i]@ == plan::text_row(
            items[i]@,
        ),
{
    assert(plan::text_views(items)[i] == items[i]@);
}

/// What a tag says is what its fields hold.
pub proof fn law_a_tag_is_what_it_holds(tag: plan::CommandTag)
    ensures
        tag@.command == tag.command@,
        tag@.oid == tag.oid,
        tag@.rows == tag.rows,
{
}

} // verus!
