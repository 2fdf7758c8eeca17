use vstd::prelude::*;
use crate::text::str_chars;
use crate::words::chars_equal_str;
use crate::json::{
    get_member, json_bytes, json_document, member, member_text, members_value, parse_json, push_field, text_of, text_or,
    tree_value, uint_tree, uint_value, write_json, JsonTree, JsonValue,
};
use crate::json_value::parse_u64_text;
use crate::start_params::param_of;
use crate::plugin_abi::{header_text, header_text_spec, STREAM_HEADER_LEN};

verus! {

/// A manual request to the paper exchange, by its "action" field.
#[derive(Debug, Clone, Copy, PartialEq, Eq, Structural)]
pub enum PaperAction {
    SubmitOrder,
    ClosePosition,
    CancelOrder,
    CancelAllOrders,
    Deposit,
    SetBalance,
    CloseAllPositions,
    GetOrders,
    GetHistory,
    /// Any other action: ignored.
    Unknown,
}

/// The request an action name stands for.
pub open spec fn paper_action_spec(action: Seq<char>) -> PaperAction {
    if action == "submit_order"@ {
        PaperAction::SubmitOrder
    } else if action == "close_position"@ {
        PaperAction::ClosePosition
    } else if action == "cancel_order"@ {
        PaperAction::CancelOrder
    } else if action == "cancel_all_orders"@ {
        PaperAction::CancelAllOrders
    } else if action == "deposit"@ {
        PaperAction::Deposit
    } else if action == "set_balance"@ {
        PaperAction::SetBalance
    } else if action == "close_all_positions"@ {
        PaperAction::CloseAllPositions
    } else if action == "get_orders"@ {
        PaperAction::GetOrders
    } else if action == "get_history"@ {
        PaperAction::GetHistory
    } else {
        PaperAction::Unknown
    }
}

/// Reads the request of a manual message from its action name.
pub fn classify_paper_action(action: &str) -> (a: PaperAction)
    ensures
        a == paper_action_spec(action@),
{
    let c = str_chars(action);
    if chars_equal_str(&c, "submit_order") {
        PaperAction::SubmitOrder
    } else if chars_equal_str(&c, "close_position") {
        PaperAction::ClosePosition
    } else if chars_equal_str(&c, "cancel_order") {
        PaperAction::CancelOrder
    } else if chars_equal_str(&c, "cancel_all_orders") {
        PaperAction::CancelAllOrders
    } else if chars_equal_str(&c, "deposit") {
        PaperAction::Deposit
    } else if chars_equal_str(&c, "set_balance") {
        PaperAction::SetBalance
    } else if chars_equal_str(&c, "close_all_positions") {
        PaperAction::CloseAllPositions
    } else if chars_equal_str(&c, "get_orders") {
        PaperAction::GetOrders
    } else if chars_equal_str(&c, "get_history") {
        PaperAction::GetHistory
    } else {
        PaperAction::Unknown
    }
}

/// The market feed a routed message of the paper exchange carries.
#[derive(Debug, Clone, Copy, PartialEq, Eq, Structural)]
pub enum PaperFeed {
    /// Best prices: each symbol's best ask becomes its last price.
    BestPrice,
    /// Mark prices.
    MarkPrice,
    /// Anything else: ignored.
    Other,
}

/// The feed of a routed stream id.
pub open spec fn paper_feed_spec(stream_id: Seq<char>) -> PaperFeed {
    if stream_id == "stream_bestprice"@ {
        PaperFeed::BestPrice
    } else if stream_id == "stream_markprice"@ {
        PaperFeed::MarkPrice
    } else {
        PaperFeed::Other
    }
}

/// Reads the feed of a routed stream id.
pub fn classify_paper_feed(stream_id: &str) -> (f: PaperFeed)
    ensures
        f == paper_feed_spec(stream_id@),
{
    let c = str_chars(stream_id);
    if chars_equal_str(&c, "stream_bestprice") {
        PaperFeed::BestPrice
    } else if chars_equal_str(&c, "stream_markprice") {
        PaperFeed::MarkPrice
    } else {
        PaperFeed::Other
    }
}

/// The account a manual request acts for when it names none.
pub const DEFAULT_USER: &'static str = "admin";

/// How many closed positions a history request lists when it gives no
/// limit.
pub const DEFAULT_HISTORY_LIMIT: u64 = 20;

/// An order of `symbol` is listed under the symbol filter: no filter, or
/// the filter names that symbol.
pub fn order_listed(filter: Option<&str>, symbol: &str) -> (r: bool)
    ensures
        r == (match filter {
            None => true,
            Some(f) => f@ == symbol@,
        }),
{
    match filter {
        None => true,
        Some(f) => chars_equal_str(&str_chars(f), symbol),
    }
}

/// A message reaching the paper exchange's inbox.
#[derive(Debug)]
pub enum PaperInbox {
    /// The whole payload is a document: a manual request.
    Manual(JsonTree),
    /// A stream's data: the stream named in the 32-byte header, and the
    /// document after it.
    Routed { stream_id: String, message: JsonTree },
    /// Neither reading gives a document.
    Unreadable,
}

/// The meaning of an inbox message.
pub enum InboxMessage {
    Manual(JsonValue),
    Routed(Seq<char>, JsonValue),
    Unreadable,
}

/// The meaning of an inbox message value.
pub open spec fn inbox_view(m: PaperInbox) -> InboxMessage {
    match m {
        PaperInbox::Manual(t) => InboxMessage::Manual(tree_value(t)),
        PaperInbox::Routed { stream_id, message } => InboxMessage::Routed(stream_id@, tree_value(message)),
        PaperInbox::Unreadable => InboxMessage::Unreadable,
    }
}

/// How an inbox payload is read: as a whole document first; failing that,
/// when it is longer than the header, as a header naming the stream
/// followed by a document.
pub open spec fn inbox_spec(p: Seq<u8>) -> InboxMessage {
    if p.len() == 0 {
        InboxMessage::Unreadable
    } else {
        match json_document(p) {
            Some(v) => InboxMessage::Manual(v),
            None => if p.len() > STREAM_HEADER_LEN {
                match json_document(p.skip(STREAM_HEADER_LEN as int)) {
                    Some(v) => InboxMessage::Routed(header_text_spec(p.take(STREAM_HEADER_LEN as int)), v),
                    None => InboxMessage::Unreadable,
                }
            } else {
                InboxMessage::Unreadable
            },
        }
    }
}

/// The bytes of `payload` from position `start` on.
fn bytes_from(payload: &[u8], start: usize) -> (v: Vec<u8>)
    requires
        start <= payload.len(),
    ensures
        v@ == payload@.skip(start as int),
{
    let mut v: Vec<u8> = Vec::new();
    let mut i: usize = start;
    while i < payload.len()
        invariant
            start <= i <= payload.len(),
            v@ == payload@.subrange(start as int, i as int),
        decreases payload.len() - i,
    {
        v.push(payload[i]);
        i = i + 1;
        assert(v@ =~= payload@.subrange(start as int, i as int));
    }
    assert(payload@.subrange(start as int, payload.len() as int) =~= payload@.skip(start as int));
    v
}

/// Reads a payload reaching the paper exchange's inbox.
pub fn read_paper_inbox(payload: &[u8]) -> (r: PaperInbox)
    ensures
        inbox_view(r) == inbox_spec(payload@),
{
    if payload.len() == 0 {
        return PaperInbox::Unreadable;
    }
    match parse_json(payload) {
        Some(t) => PaperInbox::Manual(t),
        None => {
            if payload.len() > STREAM_HEADER_LEN {
                let body = bytes_from(payload, STREAM_HEADER_LEN);
                match parse_json(body.as_slice()) {
                    Some(t) => PaperInbox::Routed { stream_id: header_text(payload), message: t },
                    None => PaperInbox::Unreadable,
                }
            } else {
                PaperInbox::Unreadable
            }
        },
    }
}

/// The action a manual request names: its "action" string, if it has one.
pub open spec fn manual_action_spec(request: JsonValue) -> Option<PaperAction> {
    match text_of(member(request, "action"@)) {
        Some(a) => Some(paper_action_spec(a)),
        None => None,
    }
}

/// The action of a manual request.
pub fn manual_action(request: &JsonTree) -> (r: Option<PaperAction>)
    ensures
        r == manual_action_spec(tree_value(*request)),
{
    match member_text(request, "action") {
        Some(a) => Some(classify_paper_action(a.as_str())),
        None => None,
    }
}

/// The account a manual request acts for: its "user_id", or the default
/// account.
pub open spec fn request_user_spec(request: JsonValue) -> Seq<char> {
    text_or(request, "user_id"@, "admin"@)
}

/// Reads the account a manual request acts for.
pub fn request_user(request: &JsonTree) -> (r: String)
    ensures
        r@ == request_user_spec(tree_value(*request)),
{
    match member_text(request, "user_id") {
        Some(u) => u.clone(),
        None => DEFAULT_USER.to_string(),
    }
}

/// How many closed positions a history request asks for: its "limit" as
/// an unsigned integer, or the default.
pub open spec fn history_limit_spec(request: JsonValue) -> u64 {
    match param_of(request, "limit"@) {
        Some(l) => l,
        None => DEFAULT_HISTORY_LIMIT,
    }
}

/// Reads how many closed positions a history request asks for.
pub fn history_limit(request: &JsonTree) -> (r: u64)
    ensures
        r == history_limit_spec(tree_value(*request)),
{
    match get_member(request, "limit") {
        Some(JsonTree::Number(s)) => match parse_u64_text(s.as_str()) {
            Some(l) => l,
            None => DEFAULT_HISTORY_LIMIT,
        },
        _ => DEFAULT_HISTORY_LIMIT,
    }
}

/// The reply to a cancel request.
pub open spec fn cancel_reply_spec(order_id: Seq<char>, success: bool) -> JsonValue {
    JsonValue::Object(
        Seq::empty().push(("action"@, JsonValue::Text("cancel_order_response"@))).push(
            ("order_id"@, JsonValue::Text(order_id)),
        ).push(("success"@, JsonValue::Bool(success))),
    )
}

/// Builds the reply to a cancel request.
pub fn cancel_reply(order_id: &str, success: bool) -> (r: JsonTree)
    ensures
        tree_value(r) == cancel_reply_spec(order_id@, success),
{
    let mut f: Vec<(String, JsonTree)> = Vec::new();
    assert(members_value(f@) =~= Seq::empty());
    push_field(&mut f, "action", JsonTree::Text("cancel_order_response".to_string()));
    push_field(&mut f, "order_id", JsonTree::Text(order_id.to_string()));
    push_field(&mut f, "success", JsonTree::Bool(success));
    JsonTree::Object(f)
}

/// The reply naming how many orders or positions a request affected.
pub open spec fn count_reply_spec(action: Seq<char>, count: u64) -> JsonValue {
    JsonValue::Object(
        Seq::empty().push(("action"@, JsonValue::Text(action))).push(("count"@, uint_value(count))),
    )
}

/// Builds the reply naming how many orders or positions a request affected
/// ("cancel_all_orders_response", "close_all_positions_response").
pub fn count_reply(action: &str, count: u64) -> (r: JsonTree)
    ensures
        tree_value(r) == count_reply_spec(action@, count),
{
    let mut f: Vec<(String, JsonTree)> = Vec::new();
    assert(members_value(f@) =~= Seq::empty());
    push_field(&mut f, "action", JsonTree::Text(action.to_string()));
    push_field(&mut f, "count", uint_tree(count));
    JsonTree::Object(f)
}

/// The paper exchange's endpoint state: whether it runs, and the replies
/// waiting in its outbox, oldest first.
pub struct PaperDesk {
    pub running: bool,
    pub outbox: Vec<Vec<u8>>,
}

/// The contents of a list of byte strings.
pub open spec fn byte_views(v: Seq<Vec<u8>>) -> Seq<Seq<u8>> {
    v.map_values(|b: Vec<u8>| b@)
}

/// What the paper exchange answers an endpoint call.
pub enum PaperReply {
    /// Return this length and write nothing.
    Length(usize),
    /// Write the status report.
    Report,
    /// Read the payload as an inbox message, then return 0.
    ReadInbox,
    /// Copy this reply into the output buffer and return how much was copied.
    Message(Vec<u8>),
}

/// The meaning of a reply.
pub enum ReplyView {
    Length(nat),
    Report,
    ReadInbox,
    Message(Seq<u8>),
}

/// The meaning of a reply value.
pub open spec fn reply_view(r: PaperReply) -> ReplyView {
    match r {
        PaperReply::Length(n) => ReplyView::Length(n as nat),
        PaperReply::Report => ReplyView::Report,
        PaperReply::ReadInbox => ReplyView::ReadInbox,
        PaperReply::Message(m) => ReplyView::Message(m@),
    }
}

/// The answer to endpoint `id`: Is Working answers 1 while running and 0
/// otherwise, Data Monitor the report, Inbox reads the payload, Outbox the
/// oldest waiting reply (or 0 when none waits); every other endpoint 0.
pub open spec fn paper_reply_spec(running: bool, outbox: Seq<Seq<u8>>, id: u32) -> ReplyView {
    if id == 2 {
        ReplyView::Length(if running {
            1
        } else {
            0
        })
    } else if id == 4 {
        ReplyView::Report
    } else if id == 6 {
        ReplyView::ReadInbox
    } else if id == 7 && outbox.len() > 0 {
        ReplyView::Message(outbox[0])
    } else {
        ReplyView::Length(0)
    }
}

/// The running flag after endpoint `id`: Start sets it, Stop clears it.
pub open spec fn running_after_call(running: bool, id: u32) -> bool {
    if id == 0 {
        true
    } else if id == 1 {
        false
    } else {
        running
    }
}

/// The outbox after endpoint `id`: Outbox takes the oldest reply.
pub open spec fn outbox_after_call(outbox: Seq<Seq<u8>>, id: u32) -> Seq<Seq<u8>> {
    if id == 7 && outbox.len() > 0 {
        outbox.drop_first()
    } else {
        outbox
    }
}

impl PaperDesk {
    /// A stopped exchange with an empty outbox.
    pub fn new() -> (d: Self)
        ensures
            !d.running,
            d.outbox@.len() == 0,
    {
        PaperDesk { running: false, outbox: Vec::new() }
    }

    /// Answers one endpoint call and updates the state.
    pub fn endpoint(&mut self, id: u32) -> (r: PaperReply)
        ensures
            reply_view(r) == paper_reply_spec(old(self).running, byte_views(old(self).outbox@), id),
            final(self).running == running_after_call(old(self).running, id),
            byte_views(final(self).outbox@) == outbox_after_call(byte_views(old(self).outbox@), id),
    {
        let ghost before = self.outbox@;
        if id == 0 {
            self.running = true;
            PaperReply::Length(0)
        } else if id == 1 {
            self.running = false;
            PaperReply::Length(0)
        } else if id == 2 {
            PaperReply::Length(if self.running {
                1
            } else {
                0
            })
        } else if id == 4 {
            PaperReply::Report
        } else if id == 6 {
            PaperReply::ReadInbox
        } else if id == 7 && self.outbox.len() > 0 {
            let m = self.outbox.remove(0);
            proof {
                assert(byte_views(self.outbox@) =~= byte_views(before).drop_first());
            }
            PaperReply::Message(m)
        } else {
            PaperReply::Length(0)
        }
    }

    /// Queues a reply document, written as JSON, behind the waiting ones.
    pub fn post(&mut self, reply: &JsonTree)
        ensures
            final(self).running == old(self).running,
            byte_views(final(self).outbox@) == byte_views(old(self).outbox@).push(json_bytes(tree_value(*reply))),
    {
        let ghost before = self.outbox@;
        let bytes = write_json(reply);
        self.outbox.push(bytes);
        proof {
            assert(byte_views(self.outbox@) =~= byte_views(before).push(json_bytes(tree_value(*reply))));
        }
    }
}

/// The running flag after a sequence of endpoint calls.
pub open spec fn running_after_calls(running: bool, ids: Seq<u32>) -> bool
    decreases ids.len(),
{
    if ids.len() == 0 {
        running
    } else {
        running_after_calls(running_after_call(running, ids[0]), ids.drop_first())
    }
}

/// The flag the latest Start or Stop among the calls left, or the flag
/// before them when there was none.
pub open spec fn latest_start_stop(running: bool, ids: Seq<u32>) -> bool
    decreases ids.len(),
{
    if ids.len() == 0 {
        running
    } else if ids.last() == 0 {
        true
    } else if ids.last() == 1 {
        false
    } else {
        latest_start_stop(running, ids.drop_last())
    }
}

/// One more call after a sequence of calls.
proof fn lemma_running_after_push(running: bool, ids: Seq<u32>, id: u32)
    ensures
        running_after_calls(running, ids.push(id)) == running_after_call(running_after_calls(running, ids), id),
    decreases ids.len(),
{
    if ids.len() > 0 {
        assert(ids.push(id)[0] == ids[0]);
        assert(ids.push(id).drop_first() =~= ids.drop_first().push(id));
        lemma_running_after_push(running_after_call(running, ids[0]), ids.drop_first(), id);
        assert(running_after_calls(running, ids) == running_after_calls(running_after_call(running, ids[0]), ids.drop_first()));
        assert(running_after_calls(running, ids.push(id)) == running_after_calls(
            running_after_call(running, ids[0]),
            ids.drop_first().push(id),
        ));
    } else {
        assert(ids.push(id)[0] == id);
        assert(ids.push(id).drop_first() =~= Seq::<u32>::empty());
        assert(running_after_calls(running_after_call(running, id), Seq::<u32>::empty()) == running_after_call(running, id));
        assert(running_after_calls(running, ids) == running);
    }
}

/// Is Working answers what the latest Start or Stop left: 1 after a Start,
/// 0 after a Stop, whatever other calls came in between.
pub proof fn lemma_is_working_reports_latest(running: bool, outbox: Seq<Seq<u8>>, ids: Seq<u32>)
    ensures
        running_after_calls(running, ids) == latest_start_stop(running, ids),
        paper_reply_spec(running_after_calls(running, ids), outbox, 2) == ReplyView::Length(
            if latest_start_stop(running, ids) {
                1
            } else {
                0
            },
        ),
    decreases ids.len(),
{
    if ids.len() > 0 {
        let init = ids.drop_last();
        assert(init.push(ids.last()) =~= ids);
        lemma_running_after_push(running, init, ids.last());
        lemma_is_working_reports_latest(running, outbox, init);
    }
}

/// Each action name of a manual request stands for its own request.
pub proof fn lemma_paper_action_names(action: Seq<char>)
    ensures
        action == "submit_order"@ ==> paper_action_spec(action) == PaperAction::SubmitOrder,
        action == "close_position"@ ==> paper_action_spec(action) == PaperAction::ClosePosition,
        action == "cancel_order"@ ==> paper_action_spec(action) == PaperAction::CancelOrder,
        action == "cancel_all_orders"@ ==> paper_action_spec(action) == PaperAction::CancelAllOrders,
        action == "deposit"@ ==> paper_action_spec(action) == PaperAction::Deposit,
        action == "set_balance"@ ==> paper_action_spec(action) == PaperAction::SetBalance,
        action == "close_all_positions"@ ==> paper_action_spec(action) == PaperAction::CloseAllPositions,
        action == "get_orders"@ ==> paper_action_spec(action) == PaperAction::GetOrders,
        action == "get_history"@ ==> paper_action_spec(action) == PaperAction::GetHistory,
{
    reveal_strlit("submit_order");
    reveal_strlit("close_position");
    reveal_strlit("cancel_order");
    reveal_strlit("cancel_all_orders");
    reveal_strlit("deposit");
    reveal_strlit("set_balance");
    reveal_strlit("close_all_positions");
    reveal_strlit("get_orders");
    reveal_strlit("get_history");
    if action == "submit_order"@ {
        assert(action.len() == 12);
        assert(action[0] == 's');
        assert(action[1] == 'u');
        assert(action[2] == 'b');
        assert(action[3] == 'm');
        assert(action[4] == 'i');
        assert(action[5] == 't');
        assert(action[6] == '_');
        assert(action[7] == 'o');
        assert(action[8] == 'r');
        assert(action[9] == 'd');
        assert(action[10] == 'e');
        assert(action[11] == 'r');
    }
    if action == "close_position"@ {
        assert(action.len() == 14);
        assert(action[0] == 'c');
        assert(action[1] == 'l');
        assert(action[2] == 'o');
        assert(action[3] == 's');
        assert(action[4] == 'e');
        assert(action[5] == '_');
        assert(action[6] == 'p');
        assert(action[7] == 'o');
        assert(action[8] == 's');
        assert(action[9] == 'i');
        assert(action[10] == 't');
        assert(action[11] == 'i');
        assert(action[12] == 'o');
        assert(action[13] == 'n');
    }
    if action == "cancel_order"@ {
        assert(action.len() == 12);
        assert(action[0] == 'c');
        assert(action[1] == 'a');
        assert(action[2] == 'n');
        assert(action[3] == 'c');
        assert(action[4] == 'e');
        assert(action[5] == 'l');
        assert(action[6] == '_');
        assert(action[7] == 'o');
        assert(action[8] == 'r');
        assert(action[9] == 'd');
        assert(action[10] == 'e');
        assert(action[11] == 'r');
    }
    if action == "cancel_all_orders"@ {
        assert(action.len() == 17);
        assert(action[0] == 'c');
        assert(action[1] == 'a');
        assert(action[2] == 'n');
        assert(action[3] == 'c');
        assert(action[4] == 'e');
        assert(action[5] == 'l');
        assert(action[6] == '_');
        assert(action[7] == 'a');
        assert(action[8] == 'l');
        assert(action[9] == 'l');
        assert(action[10] == '_');
        assert(action[11] == 'o');
        assert(action[12] == 'r');
        assert(action[13] == 'd');
        assert(action[14] == 'e');
        assert(action[15] == 'r');
        assert(action[16] == 's');
    }
    if action == "deposit"@ {
        assert(action.len() == 7);
        assert(action[0] == 'd');
        assert(action[1] == 'e');
        assert(action[2] == 'p');
        assert(action[3] == 'o');
        assert(action[4] == 's');
        assert(action[5] == 'i');
        assert(action[6] == 't');
    }
    if action == "set_balance"@ {
        assert(action.len() == 11);
        assert(action[0] == 's');
        assert(action[1] == 'e');
        assert(action[2] == 't');
        assert(action[3] == '_');
        assert(action[4] == 'b');
        assert(action[5] == 'a');
        assert(action[6] == 'l');
        assert(action[7] == 'a');
        assert(action[8] == 'n');
        assert(action[9] == 'c');
        assert(action[10] == 'e');
    }
    if action == "close_all_positions"@ {
        assert(action.len() == 19);
        assert(action[0] == 'c');
        assert(action[1] == 'l');
        assert(action[2] == 'o');
        assert(action[3] == 's');
        assert(action[4] == 'e');
        assert(action[5] == '_');
        assert(action[6] == 'a');
        assert(action[7] == 'l');
        assert(action[8] == 'l');
        assert(action[9] == '_');
        assert(action[10] == 'p');
        assert(action[11] == 'o');
        assert(action[12] == 's');
        assert(action[13] == 'i');
        assert(action[14] == 't');
        assert(action[15] == 'i');
        assert(action[16] == 'o');
        assert(action[17] == 'n');
        assert(action[18] == 's');
    }
    if action == "get_orders"@ {
        assert(action.len() == 10);
        assert(action[0] == 'g');
        assert(action[1] == 'e');
        assert(action[2] == 't');
        assert(action[3] == '_');
        assert(action[4] == 'o');
        assert(action[5] == 'r');
        assert(action[6] == 'd');
        assert(action[7] == 'e');
        assert(action[8] == 'r');
        assert(action[9] == 's');
    }
    if action == "get_history"@ {
        assert(action.len() == 11);
        assert(action[0] == 'g');
        assert(action[1] == 'e');
        assert(action[2] == 't');
        assert(action[3] == '_');
        assert(action[4] == 'h');
        assert(action[5] == 'i');
        assert(action[6] == 's');
        assert(action[7] == 't');
        assert(action[8] == 'o');
        assert(action[9] == 'r');
        assert(action[10] == 'y');
    }
}

/// The best-price stream feeds best prices and the mark-price stream mark
/// prices.
pub proof fn lemma_paper_feed_names(stream_id: Seq<char>)
    ensures
        stream_id == "stream_bestprice"@ ==> paper_feed_spec(stream_id) == PaperFeed::BestPrice,
        stream_id == "stream_markprice"@ ==> paper_feed_spec(stream_id) == PaperFeed::MarkPrice,
{
    reveal_strlit("stream_bestprice");
    reveal_strlit("stream_markprice");
    if stream_id == "stream_bestprice"@ {
        assert(stream_id.len() == 16);
        assert(stream_id[0] == 's');
        assert(stream_id[1] == 't');
        assert(stream_id[2] == 'r');
        assert(stream_id[3] == 'e');
        assert(stream_id[4] == 'a');
        assert(stream_id[5] == 'm');
        assert(stream_id[6] == '_');
        assert(stream_id[7] == 'b');
        assert(stream_id[8] == 'e');
        assert(stream_id[9] == 's');
        assert(stream_id[10] == 't');
        assert(stream_id[11] == 'p');
        assert(stream_id[12] == 'r');
        assert(stream_id[13] == 'i');
        assert(stream_id[14] == 'c');
        assert(stream_id[15] == 'e');
    }
    if stream_id == "stream_markprice"@ {
        assert(stream_id.len() == 16);
        assert(stream_id[0] == 's');
        assert(stream_id[1] == 't');
        assert(stream_id[2] == 'r');
        assert(stream_id[3] == 'e');
        assert(stream_id[4] == 'a');
        assert(stream_id[5] == 'm');
        assert(stream_id[6] == '_');
        assert(stream_id[7] == 'm');
        assert(stream_id[8] == 'a');
        assert(stream_id[9] == 'r');
        assert(stream_id[10] == 'k');
        assert(stream_id[11] == 'p');
        assert(stream_id[12] == 'r');
        assert(stream_id[13] == 'i');
        assert(stream_id[14] == 'c');
        assert(stream_id[15] == 'e');
    }
}

} // verus!
