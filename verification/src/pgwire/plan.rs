//! The response to a plan: the tag of a command, or rows of text.

use vstd::prelude::*;

use crate::plan::physical::{DocumentOp, KvOp, PhysicalPlan};
use crate::plan::types::{KindView, PlanKind};
use crate::text;

verus! {

/// The tag that ends the response to a command: the command, for an insert an object id, and the
/// number of rows.
#[derive(Debug)]
pub struct CommandTag {
    pub command: String,
    pub oid: Option<u32>,
    pub rows: Option<usize>,
}

/// What a tag says.
pub struct TagView {
    pub command: Seq<char>,
    pub oid: Option<u32>,
    pub rows: Option<usize>,
}

impl View for CommandTag {
    type V = TagView;

    open spec fn view(&self) -> TagView {
        TagView { command: self.command@, oid: self.oid, rows: self.rows }
    }
}

/// The tag of a command that changed `rows` rows. That of an insert carries an object id, which is
/// always zero.
pub open spec fn counted(command: Seq<char>, rows: usize) -> TagView {
    TagView {
        command,
        oid: if command == "INSERT"@ {
            Some(0)
        } else {
            None
        },
        rows: Some(rows),
    }
}

impl CommandTag {
    pub fn new(command: &str) -> (r: Self)
        ensures
            r@ == (TagView { command: command@, oid: None, rows: None }),
    {
        CommandTag { command: command.to_owned(), oid: None, rows: None }
    }

    /// The tag of a command that changed `rows` rows.
    fn counting(command: &str, rows: usize) -> (r: Self)
        ensures
            r@ == counted(command@, rows),
    {
        let insert = text::same_text(command, "INSERT");
        CommandTag {
            command: command.to_owned(),
            oid: if insert {
                Some(0)
            } else {
                None
            },
            rows: Some(rows),
        }
    }
}

/// A response. Rows have one text column, called `result`; each is held as the protocol encodes it.
pub enum Response {
    Rows(Vec<Vec<u8>>),
    Execution(CommandTag),
    TransactionStart(CommandTag),
    TransactionEnd(CommandTag),
}

/// A response, with what the client should be told besides.
pub struct ShapedResponse {
    pub response: Response,
    pub notice: Option<String>,
}

impl From<Response> for ShapedResponse {
    fn from(response: Response) -> (r: Self) {
        ShapedResponse { response, notice: None }
    }
}

impl vstd::std_specs::convert::FromSpecImpl<Response> for ShapedResponse {
    open spec fn obeys_from_spec() -> bool {
        true
    }

    open spec fn from_spec(response: Response) -> ShapedResponse {
        ShapedResponse { response, notice: None }
    }
}

/// The command of a plan whose tag is known before it has run: it writes one row at a known place
/// and gives none back.
pub open spec fn folded_command(plan: PhysicalPlan) -> Option<Seq<char>> {
    match plan {
        PhysicalPlan::Document(DocumentOp::PointPut) => Some("INSERT"@),
        PhysicalPlan::Document(DocumentOp::PointInsert) => Some("INSERT"@),
        PhysicalPlan::Document(DocumentOp::PointUpdate { returning: false }) => Some("UPDATE"@),
        PhysicalPlan::Document(DocumentOp::PointDelete { returning: false }) => Some("DELETE"@),
        PhysicalPlan::Kv(KvOp::Put) => Some("INSERT"@),
        PhysicalPlan::Kv(KvOp::Insert) => Some("INSERT"@),
        PhysicalPlan::Kv(KvOp::InsertIfAbsent) => Some("INSERT"@),
        PhysicalPlan::Kv(KvOp::Delete) => Some("DELETE"@),
        _ => None,
    }
}

/// Whether the tag of a plan is known before it has run.
pub fn is_calvin_foldable(plan: &PhysicalPlan) -> (r: bool)
    ensures
        r == (folded_command(*plan) is Some),
{
    match plan {
        PhysicalPlan::Document(DocumentOp::PointPut)
        | PhysicalPlan::Document(DocumentOp::PointInsert) => true,
        PhysicalPlan::Document(DocumentOp::PointUpdate { returning }) => !*returning,
        PhysicalPlan::Document(DocumentOp::PointDelete { returning }) => !*returning,
        PhysicalPlan::Kv(KvOp::Put)
        | PhysicalPlan::Kv(KvOp::Insert)
        | PhysicalPlan::Kv(KvOp::InsertIfAbsent)
        | PhysicalPlan::Kv(KvOp::Delete) => true,
        _ => false,
    }
}

/// The tag of a plan whose tag is known before it has run.
pub fn calvin_tag_for_plan(plan: &PhysicalPlan) -> (r: CommandTag)
    requires
        folded_command(*plan) is Some,
    ensures
        r@ == counted(folded_command(*plan)->0, 1),
{
    proof {
        reveal_strlit("INSERT");
        reveal_strlit("UPDATE");
        reveal_strlit("DELETE");
    }
    match plan {
        PhysicalPlan::Document(DocumentOp::PointUpdate { returning: _ }) => CommandTag::counting(
            "UPDATE",
            1,
        ),
        PhysicalPlan::Document(DocumentOp::PointDelete { returning: _ })
        | PhysicalPlan::Kv(KvOp::Delete) => CommandTag::counting("DELETE", 1),
        _ => CommandTag::counting("INSERT", 1),
    }
}

/// What a write that was staged in a transaction turned out to be.
#[derive(Debug, Clone, Copy, PartialEq, Eq, Structural)]
pub enum StagedTagKind {
    Insert,
    Update,
    Delete,
    KvUpsert { updated: bool },
    DocUpsert,
    Merge,
    UpdateFromJoin,
    RawPayload,
}

/// The command of a staged write. An upsert of a key is what it came to; an upsert of a document is
/// always called one.
pub open spec fn staged_command(kind: StagedTagKind) -> Seq<char> {
    match kind {
        StagedTagKind::Insert => "INSERT"@,
        StagedTagKind::Update => "UPDATE"@,
        StagedTagKind::Delete => "DELETE"@,
        StagedTagKind::KvUpsert { updated } => if updated {
            "UPDATE"@
        } else {
            "INSERT"@
        },
        StagedTagKind::DocUpsert => "UPSERT"@,
        StagedTagKind::Merge => "MERGE"@,
        StagedTagKind::UpdateFromJoin => "UPDATE"@,
        StagedTagKind::RawPayload => "SELECT"@,
    }
}

/// The tag of a staged write that changed `affected` rows.
pub fn tag_from_staged(kind: StagedTagKind, affected: usize) -> (r: CommandTag)
    ensures
        r@ == counted(staged_command(kind), affected),
{
    let command = match kind {
        StagedTagKind::Insert => "INSERT",
        StagedTagKind::Update => "UPDATE",
        StagedTagKind::Delete => "DELETE",
        StagedTagKind::KvUpsert { updated } => if updated {
            "UPDATE"
        } else {
            "INSERT"
        },
        StagedTagKind::DocUpsert => "UPSERT",
        StagedTagKind::Merge => "MERGE",
        StagedTagKind::UpdateFromJoin => "UPDATE",
        StagedTagKind::RawPayload => "SELECT",
    };
    CommandTag::counting(command, affected)
}

/// The texts of the elements of the JSON array that a text spells; nothing where it spells no array.
pub uninterp spec fn json_array_items(s: Seq<char>) -> Option<Seq<Seq<char>>>;

/// The views of a list of strings.
pub open spec fn text_views(list: Seq<String>) -> Seq<Seq<char>> {
    list.map_values(|s: String| s@)
}

/// Calls `sonic_rs::from_str` for a `serde_json::Value`, and turns the elements of an array into
/// their compact JSON texts. Claims that the result depends on the text alone; which texts spell an
/// array, and what its elements look like, is not stated.
#[verifier::external_body]
fn parse_json_array(s: &str) -> (r: Option<Vec<String>>)
    ensures
        match r {
            Some(items) => json_array_items(s@) == Some(text_views(items@)),
            None => json_array_items(s@) is None,
        },
{
    match sonic_rs::from_str::<serde_json::Value>(s) {
        Ok(serde_json::Value::Array(items)) => {
            Some(items.iter().map(|item| item.to_string()).collect())
        },
        _ => None,
    }
}

/// The four bytes of `n`, highest first.
pub open spec fn big_endian(n: nat) -> Seq<u8> {
    seq![
        (n / 0x1000000 % 0x100) as u8,
        (n / 0x10000 % 0x100) as u8,
        (n / 0x100 % 0x100) as u8,
        (n % 0x100) as u8,
    ]
}

/// A row with one text column: the length of the text in bytes, and the bytes.
pub open spec fn text_row(s: Seq<char>) -> Seq<u8> {
    let bytes = vstd::utf8::encode_utf8(s);
    big_endian(bytes.len()) + bytes
}

/// Encodes a row with one column of type `TEXT` in text format, through the `encode_field` of
/// `pgwire::api::results::DataRowEncoder`. Claims that it succeeds, and that the row is the length
/// of the text and the text; of a text of two gigabytes or more, whose length the protocol cannot
/// hold, nothing is claimed but success.
#[verifier::external_body]
fn encode_text_row(s: &str) -> (r: Result<Vec<u8>, String>)
    ensures
        r is Ok,
        vstd::utf8::encode_utf8(s@).len() <= i32::MAX ==> r->Ok_0@ == text_row(s@),
{
    let field = pgwire::api::results::FieldInfo::new(
        "result".to_owned(),
        None,
        None,
        pgwire::api::Type::TEXT,
        pgwire::api::results::FieldFormat::Text,
    );
    let mut encoder = pgwire::api::results::DataRowEncoder::new(std::sync::Arc::new(vec![field]));
    match encoder.encode_field(&s) {
        Ok(()) => Ok(encoder.take_row().data.to_vec()),
        Err(e) => Err(e.to_string()),
    }
}

/// Whether `rows` are the rows of `texts`, each with one text column. A text too long for the
/// protocol stands for any row.
pub open spec fn rows_of(rows: Seq<Vec<u8>>, texts: Seq<Seq<char>>) -> bool {
    &&& rows.len() == texts.len()
    &&& forall|i: int|
        0 <= i < rows.len() && vstd::utf8::encode_utf8(texts[i]).len() <= i32::MAX ==> (
        #[trigger] rows[i])@ == text_row(texts[i])
}

/// The response that holds one encoded row, or tells that it could not be encoded.
pub fn row_or_error(encoded: Result<Vec<u8>, String>) -> (r: Response)
    ensures
        match encoded {
            Ok(row) => r matches Response::Rows(rows) && rows@ == seq![row],
            Err(_) => r matches Response::Execution(tag) && tag@ == (TagView {
                command: "ERROR"@,
                oid: None,
                rows: None,
            }),
        },
{
    match encoded {
        Ok(row) => {
            let mut rows: Vec<Vec<u8>> = Vec::new();
            rows.push(row);
            assert(rows@ =~= seq![row]);
            Response::Rows(rows)
        },
        Err(_) => Response::Execution(CommandTag::new("ERROR")),
    }
}

/// The response that holds each element of an array as a row, or, where there is no array, the
/// whole text as one row.
pub fn rows_response(text: &str, items: Option<Vec<String>>) -> (r: Response)
    ensures
        r matches Response::Rows(rows) && rows_of(
            rows@,
            match items {
                Some(items) => text_views(items@),
                None => seq![text@],
            },
        ),
{
    match items {
        Some(items) => {
            let ghost texts = text_views(items@);
            let mut rows: Vec<Vec<u8>> = Vec::new();
            let mut i: usize = 0;
            while i < items.len()
                invariant
                    texts == text_views(items@),
                    i <= items@.len(),
                    rows@.len() == i,
                    forall|j: int|
                        0 <= j < i && vstd::utf8::encode_utf8(texts[j]).len() <= i32::MAX ==> (
                        #[trigger] rows@[j])@ == text_row(texts[j]),
                decreases items@.len() - i,
            {
                assert(texts[i as int] == items@[i as int]@);
                match encode_text_row(items[i].as_str()) {
                    Ok(row) => {
                        rows.push(row);
                    },
                    Err(_) => {
                        rows.push(Vec::new());
                    },
                }
                i += 1;
            }
            Response::Rows(rows)
        },
        None => row_or_error(encode_text_row(text)),
    }
}

/// How many rows a command changed: one where it says nothing, or nothing that can be read.
pub open spec fn affected_rows(payload: Seq<u8>, affected: Option<u64>) -> usize {
    if payload.len() == 0 || affected is None {
        1
    } else {
        affected->0 as usize
    }
}

/// The response to a plan, given the payload that it came to, the number of changed rows that could
/// be read from the payload, and the payload as JSON text.
pub fn payload_to_response(
    payload: &[u8],
    affected: Option<u64>,
    text: &str,
    kind: PlanKind,
) -> (r: ShapedResponse)
    requires
        kind is Execution || kind is DmlResult || kind is MultiRow,
    ensures
        r.notice is None,
        match kind@ {
            KindView::DmlResult(command) => r.response matches Response::Execution(tag) && tag@
                == counted(command, affected_rows(payload@, affected)),
            KindView::MultiRow => r.response matches Response::Rows(rows) && rows_of(
                rows@,
                if payload@.len() == 0 {
                    Seq::empty()
                } else {
                    match json_array_items(text@) {
                        Some(items) => items,
                        None => seq![text@],
                    }
                },
            ),
            _ => r.response matches Response::Execution(tag) && tag@ == (TagView {
                command: "OK"@,
                oid: None,
                rows: None,
            }),
        },
{
    match kind {
        PlanKind::DmlResult(command) => {
            let rows: usize = if payload.len() == 0 {
                1
            } else {
                match affected {
                    Some(n) => n as usize,
                    None => 1,
                }
            };
            ShapedResponse::from(Response::Execution(CommandTag::counting(command, rows)))
        },
        PlanKind::MultiRow => {
            if payload.len() == 0 {
                return ShapedResponse::from(Response::Rows(Vec::new()));
            }
            let items = parse_json_array(text);
            ShapedResponse::from(rows_response(text, items))
        },
        _ => ShapedResponse::from(Response::Execution(CommandTag::new("OK"))),
    }
}

} // verus!
