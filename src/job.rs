//! The mint-and-reconcile workflow: which items may be submitted, what is
//! sent for them, how each outcome is settled, and which rows stay pending.

use vstd::prelude::*;
use vstd::string::*;
use crate::principal::{is_principal_text, principal_text_valid};
use crate::text::{
    as_u64, decimal_text, json_string_body, parse_u64, push_decimal, push_json_string_body,
    unsigned_text,
};
use crate::types::{
    api_error_text, ApiError, MetadataKeyVal, MetadataPart, MetadataPurpose, MetadataVal,
    MintReceiptPart,
};

verus! {

/// One NFT pending mint: the recipient's principal and the token's label,
/// a decimal number.
pub struct Nft {
    pub principal_id: String,
    pub id: String,
}

pub struct NftView {
    pub principal_id: Seq<char>,
    pub id: Seq<char>,
}

impl View for Nft {
    type V = NftView;

    open spec fn view(&self) -> NftView {
        NftView { principal_id: self.principal_id@, id: self.id@ }
    }
}

/// The result line written for one processed item.
pub struct Response {
    pub result: String,
    pub message: String,
    pub token_id: Option<u128>,
}

pub struct ResponseView {
    pub result: Seq<char>,
    pub message: Seq<char>,
    pub token_id: Option<u128>,
}

impl View for Response {
    type V = ResponseView;

    open spec fn view(&self) -> ResponseView {
        ResponseView { result: self.result@, message: self.message@, token_id: self.token_id }
    }
}

pub open spec fn token_id_text(token_id: Option<u128>) -> Seq<char> {
    match token_id {
        Some(t) => ",\"token_id\":"@ + decimal_text(t as nat),
        None => Seq::empty(),
    }
}

/// A result line as one JSON object: `result` and `message` as JSON strings,
/// and `token_id` as a JSON integer when one was assigned.
pub open spec fn response_text(r: ResponseView) -> Seq<char> {
    "{\"result\":\""@ + json_string_body(r.result) + "\",\"message\":\""@ + json_string_body(
        r.message,
    ) + "\""@ + token_id_text(r.token_id) + "}"@
}

impl Response {
    /// The line as it is written out.
    pub fn render(&self) -> (r: String)
        ensures
            r@ == response_text(self@),
    {
        let mut out = String::from_str("{\"result\":\"");
        push_json_string_body(&mut out, self.result.as_str());
        out.append("\",\"message\":\"");
        push_json_string_body(&mut out, self.message.as_str());
        out.append("\"");
        match self.token_id {
            Some(t) => {
                out.append(",\"token_id\":");
                push_decimal(&mut out, t);
            },
            None => {},
        }
        out.append("}");
        assert(out@ =~= response_text(self@));
        out
    }
}

/// Why an item is refused before any call is made.
#[derive(Clone, Copy, Debug, PartialEq, Eq, Structural)]
pub enum ItemFault {
    InvalidPrincipal,
    InvalidId,
}

pub open spec fn item_fault_text(f: ItemFault) -> Seq<char> {
    match f {
        ItemFault::InvalidPrincipal => "InvalidPrincipal"@,
        ItemFault::InvalidId => "InvalidId"@,
    }
}

/// What is sent to the contract for one item.
pub struct MintRequest {
    pub recipient: String,
    pub metadata: Vec<MetadataPart>,
}

/// The metadata description of a token: one rendered part holding the
/// token's number under `id` and the item's text under `nft_content`.
pub open spec fn is_metadata_for(metadata: Seq<MetadataPart>, id: u64, content: Seq<char>) -> bool {
    &&& metadata.len() == 1
    &&& metadata[0].purpose == MetadataPurpose::Rendered
    &&& metadata[0].data@.len() == 0
    &&& metadata[0].key_val_data@.len() == 2
    &&& metadata[0].key_val_data@[0].key@ == "id"@
    &&& metadata[0].key_val_data@[0].val == MetadataVal::Nat64Content(id)
    &&& metadata[0].key_val_data@[1].key@ == "nft_content"@
    &&& match metadata[0].key_val_data@[1].val {
        MetadataVal::TextContent(t) => t@ == content,
        _ => false,
    }
}

/// The token number that an item's label denotes, if it is one.
pub open spec fn label_number(label: Seq<char>) -> Option<u64> {
    as_u64(unsigned_text(label))
}

/// The outcome of checking an item, given whether its recipient is a
/// principal: the recipient is checked first, then the label.
pub open spec fn plan_ok(r: Result<MintRequest, ItemFault>, nft: NftView, content: Seq<char>, recipient_valid: bool) -> bool {
    if !recipient_valid {
        r == Err::<MintRequest, ItemFault>(ItemFault::InvalidPrincipal)
    } else {
        match label_number(nft.id) {
            None => r == Err::<MintRequest, ItemFault>(ItemFault::InvalidId),
            Some(id) => match r {
                Ok(req) => req.recipient@ == nft.principal_id && is_metadata_for(
                    req.metadata@,
                    id,
                    content,
                ),
                Err(_) => false,
            },
        }
    }
}

/// Builds the request for `nft`, whose recipient has been checked with the
/// result `recipient_valid`; `content` is the item's text.
pub fn plan_mint(nft: &Nft, content: &str, recipient_valid: bool) -> (r: Result<MintRequest, ItemFault>)
    ensures
        plan_ok(r, nft@, content@, recipient_valid),
{
    if !recipient_valid {
        return Err(ItemFault::InvalidPrincipal);
    }
    let id = match parse_u64(nft.id.as_str()) {
        Some(v) => v,
        None => return Err(ItemFault::InvalidId),
    };
    let mut key_val_data: Vec<MetadataKeyVal> = Vec::new();
    key_val_data.push(MetadataKeyVal { key: String::from_str("id"), val: MetadataVal::Nat64Content(id) });
    key_val_data.push(
        MetadataKeyVal {
            key: String::from_str("nft_content"),
            val: MetadataVal::TextContent(String::from_str(content)),
        },
    );
    let mut metadata: Vec<MetadataPart> = Vec::new();
    metadata.push(MetadataPart { purpose: MetadataPurpose::Rendered, key_val_data, data: Vec::new() });
    Ok(MintRequest { recipient: nft.principal_id.clone(), metadata })
}

/// Checks `nft` and builds its request; refused items cost no call.
pub fn prepare_mint(nft: &Nft, content: &str) -> (r: Result<MintRequest, ItemFault>)
    ensures
        plan_ok(r, nft@, content@, principal_text_valid(nft.principal_id@)),
{
    let valid = is_principal_text(nft.principal_id.as_str());
    plan_mint(nft, content, valid)
}

/// The contract's decision on one submitted item.
pub enum MintOutcome {
    Success(MintReceiptPart),
    Rejected(ApiError),
    TransportFailure(String),
}

/// What became of one item: refused before any call, or submitted.
pub enum Attempt {
    Refused(ItemFault),
    Submitted(MintOutcome),
}

/// The result line of one item and the label to mark complete, if any.
pub struct Settlement {
    pub line: Response,
    pub mark_complete: Option<String>,
}

pub struct SettlementView {
    pub line: ResponseView,
    pub mark_complete: Option<Seq<char>>,
}

impl View for Settlement {
    type V = SettlementView;

    open spec fn view(&self) -> SettlementView {
        SettlementView {
            line: self.line@,
            mark_complete: match self.mark_complete {
                Some(l) => Some(l@),
                None => None,
            },
        }
    }
}

pub open spec fn fault_line(label: Seq<char>, detail: Seq<char>) -> SettlementView {
    SettlementView {
        line: ResponseView { result: "fault"@, message: "mint :"@ + label + detail, token_id: None },
        mark_complete: None,
    }
}

/// How the item labelled `label` is settled: a success line and a mark for
/// an accepted mint, a fault line and no mark otherwise.
pub open spec fn settle_spec(label: Seq<char>, attempt: Attempt) -> SettlementView {
    match attempt {
        Attempt::Submitted(MintOutcome::Success(receipt)) => SettlementView {
            line: ResponseView {
                result: "success"@,
                message: "mint :"@ + label,
                token_id: Some(receipt.id),
            },
            mark_complete: Some(label),
        },
        Attempt::Submitted(MintOutcome::Rejected(e)) => fault_line(
            label,
            "---Error:"@ + api_error_text(e),
        ),
        Attempt::Submitted(MintOutcome::TransportFailure(cause)) => fault_line(
            label,
            "---TransportFailure:"@ + cause@,
        ),
        Attempt::Refused(f) => fault_line(label, "---Invalid:"@ + item_fault_text(f)),
    }
}

fn fault_settlement(label: &str, head: &str, detail: &str) -> (r: Settlement)
    ensures
        r@ == fault_line(label@, head@ + detail@),
{
    let mut message = String::from_str("mint :");
    message.append(label);
    message.append(head);
    message.append(detail);
    let r = Settlement {
        line: Response { result: String::from_str("fault"), message, token_id: None },
        mark_complete: None,
    };
    assert(r@.line.message =~= "mint :"@ + label@ + (head@ + detail@));
    r
}

/// Settles one item.
pub fn settle(nft: &Nft, attempt: &Attempt) -> (r: Settlement)
    ensures
        r@ == settle_spec(nft.id@, *attempt),
{
    let label = nft.id.as_str();
    match attempt {
        Attempt::Submitted(MintOutcome::Success(receipt)) => {
            let mut message = String::from_str("mint :");
            message.append(label);
            Settlement {
                line: Response {
                    result: String::from_str("success"),
                    message,
                    token_id: Some(receipt.id),
                },
                mark_complete: Some(nft.id.clone()),
            }
        },
        Attempt::Submitted(MintOutcome::Rejected(e)) => {
            let d = e.describe();
            fault_settlement(label, "---Error:", d.as_str())
        },
        Attempt::Submitted(MintOutcome::TransportFailure(cause)) => {
            fault_settlement(label, "---TransportFailure:", cause.as_str())
        },
        Attempt::Refused(f) => {
            let d = match f {
                ItemFault::InvalidPrincipal => "InvalidPrincipal",
                ItemFault::InvalidId => "InvalidId",
            };
            fault_settlement(label, "---Invalid:", d)
        },
    }
}

/// A batch in progress: its items in order, and how many have been settled.
pub struct JobRun {
    pub items: Vec<Nft>,
    pub done: usize,
    pub attempts: Ghost<Seq<Attempt>>,
    pub settled: Ghost<Seq<SettlementView>>,
}

impl JobRun {
    /// The first `done` items each have exactly one settlement, the one that
    /// their attempt calls for, and nothing else has been settled.
    pub open spec fn wf(&self) -> bool {
        &&& self.done <= self.items@.len()
        &&& self.attempts@.len() == self.done
        &&& self.settled@.len() == self.done
        &&& forall|i: int|
            0 <= i < self.done ==> #[trigger] self.settled@[i] == settle_spec(
                self.items@[i].id@,
                self.attempts@[i],
            )
    }

    /// A run of `items` with nothing settled yet.
    pub fn new(items: Vec<Nft>) -> (r: JobRun)
        ensures
            r.wf(),
            r.items@ == items@,
            r.done == 0,
    {
        JobRun { items, done: 0, attempts: Ghost(Seq::empty()), settled: Ghost(Seq::empty()) }
    }

    /// The next item to process, once all before it are settled.
    pub fn next_item(&self) -> (r: Option<&Nft>)
        requires
            self.wf(),
        ensures
            match r {
                Some(n) => self.done < self.items@.len() && *n == self.items@[self.done as int],
                None => self.done == self.items@.len(),
            },
    {
        if self.done < self.items.len() {
            Some(&self.items[self.done])
        } else {
            None
        }
    }

    /// Settles the next item with what became of it.
    pub fn record(&mut self, attempt: Attempt) -> (r: Settlement)
        requires
            old(self).wf(),
            old(self).done < old(self).items@.len(),
        ensures
            final(self).wf(),
            final(self).items@ == old(self).items@,
            final(self).done == old(self).done + 1,
            final(self).attempts@ == old(self).attempts@.push(attempt),
            final(self).settled@ == old(self).settled@.push(r@),
            r@ == settle_spec(old(self).items@[old(self).done as int].id@, attempt),
    {
        let count = self.items.len();
        let r = settle(&self.items[self.done], &attempt);
        proof {
            self.attempts@ = self.attempts@.push(attempt);
            self.settled@ = self.settled@.push(r@);
        }
        assert(self.done < count);
        self.done = self.done + 1;
        r
    }
}

/// Every item of a finished run has written exactly one result line: one
/// line in all for a single item, one per row for a batch of rows.
pub proof fn lemma_one_line_per_item(run: JobRun)
    requires
        run.wf(),
        run.done == run.items@.len(),
    ensures
        run.settled@.len() == run.items@.len(),
        forall|i: int| 0 <= i < run.done ==> (#[trigger] run.settled@[i]).line == settle_spec(
            run.items@[i].id@,
            run.attempts@[i],
        ).line,
{
}

/// An accepted mint marks its own label complete, and its settlement holds
/// no other mark.
pub proof fn lemma_success_marks_once(run: JobRun, i: int)
    requires
        run.wf(),
        0 <= i < run.done,
        run.attempts@[i] matches Attempt::Submitted(MintOutcome::Success(_)),
    ensures
        run.settled@[i].mark_complete == Some(run.items@[i].id@),
{
    assert(run.settled@[i] == settle_spec(run.items@[i].id@, run.attempts@[i]));
}

/// A rejected, failed or refused item marks nothing complete.
pub proof fn lemma_failure_never_marks(run: JobRun, i: int)
    requires
        run.wf(),
        0 <= i < run.done,
        !(run.attempts@[i] matches Attempt::Submitted(MintOutcome::Success(_))),
    ensures
        run.settled@[i].mark_complete is None,
{
    assert(run.settled@[i] == settle_spec(run.items@[i].id@, run.attempts@[i]));
}

/// A stored work-queue row: 0 is pending, 1 is completed.
pub struct RepositoryRow {
    pub label: String,
    pub principal_id: String,
    pub status: i32,
}

pub struct RowView {
    pub label: Seq<char>,
    pub principal_id: Seq<char>,
    pub status: int,
}

impl View for RepositoryRow {
    type V = RowView;

    open spec fn view(&self) -> RowView {
        RowView { label: self.label@, principal_id: self.principal_id@, status: self.status as int }
    }
}

pub open spec fn rows_view(rows: Seq<RepositoryRow>) -> Seq<RowView> {
    rows.map_values(|r: RepositoryRow| r@)
}

pub open spec fn item_of(row: RowView) -> NftView {
    NftView { principal_id: row.principal_id, id: row.label }
}

/// The items of the pending rows, in storage order.
pub open spec fn pending_of(rows: Seq<RowView>) -> Seq<NftView>
    decreases rows.len(),
{
    if rows.len() == 0 {
        Seq::empty()
    } else if rows.last().status == 0 {
        pending_of(rows.drop_last()).push(item_of(rows.last()))
    } else {
        pending_of(rows.drop_last())
    }
}

/// The rows after each label of `marks` has been marked complete.
pub open spec fn apply_marks(rows: Seq<RowView>, marks: Seq<Seq<char>>) -> Seq<RowView> {
    rows.map_values(
        |r: RowView|
            if marks.contains(r.label) {
                RowView { label: r.label, principal_id: r.principal_id, status: 1 }
            } else {
                r
            },
    )
}

/// The work set of a batch: the pending rows, in storage order.
pub fn select_pending(rows: &Vec<RepositoryRow>) -> (r: Vec<Nft>)
    ensures
        r@.map_values(|n: Nft| n@) == pending_of(rows_view(rows@)),
{
    let mut out: Vec<Nft> = Vec::new();
    let mut i: usize = 0;
    while i < rows.len()
        invariant
            i <= rows@.len(),
            out@.map_values(|n: Nft| n@) == pending_of(rows_view(rows@.subrange(0, i as int))),
        decreases rows@.len() - i,
    {
        let row = &rows[i];
        let ghost before = rows_view(rows@.subrange(0, i as int));
        let ghost after = rows_view(rows@.subrange(0, i + 1));
        assert(after.drop_last() =~= before);
        assert(after.last() == row@);
        if row.status == 0 {
            out.push(Nft { principal_id: row.principal_id.clone(), id: row.label.clone() });
            assert(out@.map_values(|n: Nft| n@) =~= pending_of(before).push(item_of(row@)));
        }
        i = i + 1;
    }
    assert(rows@.subrange(0, rows@.len() as int) =~= rows@);
    out
}

proof fn lemma_pending_contains(rows: Seq<RowView>, x: NftView)
    ensures
        pending_of(rows).contains(x) <==> exists|i: int|
            0 <= i < rows.len() && rows[i].status == 0 && #[trigger] item_of(rows[i]) == x,
    decreases rows.len(),
{
    if rows.len() > 0 {
        let rest = rows.drop_last();
        lemma_pending_contains(rest, x);
        if pending_of(rows).contains(x) {
            if pending_of(rest).contains(x) {
                let i = choose|i: int|
                    0 <= i < rest.len() && rest[i].status == 0 && #[trigger] item_of(rest[i]) == x;
                assert(rows[i] == rest[i]);
            } else {
                assert(rows.last().status == 0);
                let p = pending_of(rest).push(item_of(rows.last()));
                assert(pending_of(rows) == p);
                let k = choose|k: int| 0 <= k < p.len() && p[k] == x;
                if k < pending_of(rest).len() {
                    assert(pending_of(rest)[k] == x);
                }
                assert(item_of(rows[rows.len() - 1]) == x);
            }
        }
        if exists|i: int| 0 <= i < rows.len() && rows[i].status == 0 && #[trigger] item_of(rows[i]) == x {
            let i = choose|i: int|
                0 <= i < rows.len() && rows[i].status == 0 && #[trigger] item_of(rows[i]) == x;
            if i < rows.len() - 1 {
                assert(rest[i] == rows[i]);
                let j = choose|j: int| 0 <= j < pending_of(rest).len() && pending_of(rest)[j] == x;
                if rows.last().status == 0 {
                    assert(pending_of(rows)[j] == x);
                }
            } else {
                assert(pending_of(rows).last() == x);
            }
        }
    }
}

/// After a run that marked the labels `marks` complete (all of them, or the
/// ones reached before it was stopped), the next run's work set holds exactly
/// the items that were pending and are not marked: completed rows are never
/// processed again, and no pending row is lost.
pub proof fn lemma_rerun_skips_completed(rows: Seq<RowView>, marks: Seq<Seq<char>>, x: NftView)
    ensures
        pending_of(apply_marks(rows, marks)).contains(x) <==> (pending_of(rows).contains(x)
            && !marks.contains(x.id)),
{
    let after = apply_marks(rows, marks);
    lemma_pending_contains(rows, x);
    lemma_pending_contains(after, x);
    if pending_of(after).contains(x) {
        let i = choose|i: int|
            0 <= i < after.len() && after[i].status == 0 && #[trigger] item_of(after[i]) == x;
        assert(after[i] == rows[i]);
        assert(item_of(rows[i]) == x);
    }
    if pending_of(rows).contains(x) && !marks.contains(x.id) {
        let i = choose|i: int|
            0 <= i < rows.len() && rows[i].status == 0 && #[trigger] item_of(rows[i]) == x;
        assert(after[i] == rows[i]);
        assert(item_of(after[i]) == x);
    }
}

} // verus!
