//! The reward detail collector: what is sent to the reward service, and
//! what its reply means for the store.

use vstd::prelude::*;
use vstd::string::StringExecFns;
use crate::json::Json;
use crate::json::json_of;
use crate::store::Data;
use crate::store::DataView;
use crate::store::NodeDetail;
use crate::store::NodeDetailView;
use crate::text::decimal;
use crate::text::decimal_spec;
use crate::text::digit;
use crate::text::digit_char;

verus! {

/// The text of the member `key`, and the empty text where the member is
/// missing or no string.
pub open spec fn text_member(data: Json, key: Seq<char>) -> Seq<char> {
    match data.field(key) {
        Some(v) => match v.text() {
            Some(t) => t,
            None => Seq::empty(),
        },
        None => Seq::empty(),
    }
}

/// The number of the member `key`, and 0 where the member is missing or no
/// integer from 0 to the largest `u64`.
pub open spec fn count_member(data: Json, key: Seq<char>) -> u64 {
    match data.field(key) {
        Some(v) => match v.unsigned() {
            Some(n) => n,
            None => 0,
        },
        None => 0,
    }
}

/// `part` of `whole` in hundredths of a percent, rounded to the nearest and
/// from the middle to the even one.
pub open spec fn rounded_share(part: nat, whole: nat) -> nat {
    let n = part * 10000;
    let floor = n / whole;
    let rest = n % whole;
    if 2 * rest > whole || (2 * rest == whole && floor % 2 == 1) {
        floor + 1
    } else {
        floor
    }
}

/// Hundredths of a percent as a percentage with two decimals, such as
/// "80.00%".
pub open spec fn percent_text(hundredths: nat) -> Seq<char> {
    decimal_spec(hundredths / 100) + seq![
        '.',
        digit_char((hundredths % 100 / 10) as int),
        digit_char((hundredths % 10) as int),
        '%',
    ]
}

/// The share of the expected blocks that were produced, as text; empty
/// unless both numbers are above 0.
pub open spec fn block_rate_text(block_qty: u64, expect_block_qty: u64) -> Seq<char> {
    if block_qty > 0 && expect_block_qty > 0 {
        percent_text(rounded_share(block_qty as nat, expect_block_qty as nat))
    } else {
        Seq::empty()
    }
}

/// The reward detail that the payload of a reply holds.
pub open spec fn detail_of(data: Json) -> NodeDetailView {
    NodeDetailView {
        node_name: text_member(data, "nodeName"@),
        block_qty: count_member(data, "blockQty"@),
        block_rate: block_rate_text(
            count_member(data, "blockQty"@),
            count_member(data, "expectBlockQty"@),
        ),
        daily_block_rate: text_member(data, "genBlocksRate"@),
        reward_per: text_member(data, "rewardPer"@),
        reward_value: text_member(data, "rewardValue"@),
        reward_address: text_member(data, "denefitAddr"@),
        verifier_time: count_member(data, "verifierTime"@),
    }
}

/// The reward detail that a reply's JSON envelope holds: the one of its
/// member "data", where its member "code" is the integer 0 and "data" is a
/// JSON object. Nothing where the payload is missing or is no object.
pub open spec fn detail_of_envelope(json: Json) -> Option<NodeDetailView> {
    match json.field("code"@) {
        Some(code) => if code.signed() == Some(0i64) {
            match json.field("data"@) {
                Some(Json::Object(members)) => Some(detail_of(Json::Object(members))),
                _ => None,
            }
        } else {
            None
        },
        None => None,
    }
}

/// How one exchange with the reward service ended.
#[derive(Debug)]
pub enum Reply {
    /// No response came.
    TransportError,
    /// A response came with this status; its body is missing where it
    /// could not be read.
    Response { status: u16, body: Option<Vec<u8>> },
}

/// Whether an HTTP status reports success: 200 to 299.
pub open spec fn success_status(status: u16) -> bool {
    200 <= status < 300
}

/// The reward detail that an exchange gives: the one in the envelope of a
/// response that reports success and whose body is a JSON document.
pub open spec fn detail_of_reply(reply: Reply) -> Option<NodeDetailView> {
    match reply {
        Reply::Response { status, body: Some(bytes) } => if success_status(status) {
            match json_of(bytes@) {
                Some(json) => detail_of_envelope(json),
                None => None,
            }
        } else {
            None
        },
        _ => None,
    }
}

/// The text of the member `key`.
pub fn text_of(data: &Json, key: &str) -> (r: String)
    ensures
        r@ == text_member(*data, key@),
{
    match data.get(key) {
        Some(v) => match v.as_str() {
            Some(s) => s.to_owned(),
            None => String::new(),
        },
        None => String::new(),
    }
}

/// The number of the member `key`.
pub fn count_of(data: &Json, key: &str) -> (r: u64)
    ensures
        r == count_member(*data, key@),
{
    match data.get(key) {
        Some(v) => match v.as_u64() {
            Some(n) => n,
            None => 0,
        },
        None => 0,
    }
}

/// `part` of `whole` in hundredths of a percent, rounded to the nearest and
/// from the middle to the even one.
pub fn rounded(part: u64, whole: u64) -> (r: u128)
    requires
        whole > 0,
    ensures
        r == rounded_share(part as nat, whole as nat),
{
    let n: u128 = part as u128 * 10000;
    let w: u128 = whole as u128;
    let floor: u128 = n / w;
    let rest: u128 = n % w;
    if 2 * rest > w || (2 * rest == w && floor % 2 == 1) {
        floor + 1
    } else {
        floor
    }
}

/// Hundredths of a percent as a percentage with two decimals.
pub fn format_percent(hundredths: u128) -> (r: String)
    ensures
        r@ == percent_text(hundredths as nat),
{
    proof {
        reveal_strlit(".");
        reveal_strlit("%");
    }
    let mut r = decimal(hundredths / 100);
    r.append(".");
    r.append(digit(hundredths % 100 / 10));
    r.append(digit(hundredths % 10));
    r.append("%");
    assert(r@ =~= percent_text(hundredths as nat));
    r
}

/// The share of the expected blocks that were produced, as text.
pub fn block_rate(block_qty: u64, expect_block_qty: u64) -> (r: String)
    ensures
        r@ == block_rate_text(block_qty, expect_block_qty),
{
    if block_qty > 0 && expect_block_qty > 0 {
        format_percent(rounded(block_qty, expect_block_qty))
    } else {
        String::new()
    }
}

/// Reads a reward detail out of the payload of a reply. A member that is
/// missing or of another type counts as empty or 0.
pub fn parse_node_detail(data: &Json) -> (r: NodeDetail)
    ensures
        r@ == detail_of(*data),
{
    let node_name = text_of(data, "nodeName");
    let block_qty = count_of(data, "blockQty");
    let expect_block_qty = count_of(data, "expectBlockQty");
    let block_rate = block_rate(block_qty, expect_block_qty);
    let daily_block_rate = text_of(data, "genBlocksRate");
    let reward_per = text_of(data, "rewardPer");
    let reward_value = text_of(data, "rewardValue");
    let reward_address = text_of(data, "denefitAddr");
    let verifier_time = count_of(data, "verifierTime");
    NodeDetail {
        node_name,
        block_qty,
        block_rate,
        daily_block_rate,
        reward_per,
        reward_value,
        reward_address,
        verifier_time,
    }
}

/// The reward detail in the JSON envelope of a reply, if the envelope
/// reports success and holds one.
pub fn node_detail_of_json(json: &Json) -> (r: Option<NodeDetail>)
    ensures
        match r {
            Some(d) => detail_of_envelope(*json) == Some(d@),
            None => detail_of_envelope(*json) is None,
        },
{
    match json.get("code") {
        Some(code) => match code.as_i64() {
            Some(c) => if c == 0 {
                match json.get("data") {
                    Some(data) => match data {
                        Json::Object(_) => Some(parse_node_detail(data)),
                        _ => None,
                    },
                    None => None,
                }
            } else {
                None
            },
            None => None,
        },
        None => None,
    }
}

/// Whether an HTTP status reports success.
pub fn is_success(status: u16) -> (r: bool)
    ensures
        r == success_status(status),
{
    200 <= status && status < 300
}

/// The reward detail that an exchange with the reward service gives, and
/// nothing where it failed in any way.
pub fn node_detail_of_reply(reply: &Reply) -> (r: Option<NodeDetail>)
    ensures
        match r {
            Some(d) => detail_of_reply(*reply) == Some(d@),
            None => detail_of_reply(*reply) is None,
        },
{
    match reply {
        Reply::Response { status, body: Some(bytes) } => {
            if is_success(*status) {
                match Json::parse(bytes.as_slice()) {
                    Some(json) => node_detail_of_json(&json),
                    None => None,
                }
            } else {
                None
            }
        },
        _ => None,
    }
}

/// Puts the outcome of one exchange with the reward service into the
/// store: the detail that came, or nothing where the exchange failed.
pub fn record_reply(data: &mut Data, reply: &Reply)
    ensures
        match final(data)@.node_detail {
            Some(d) => detail_of_reply(*reply) == Some(d@),
            None => detail_of_reply(*reply) is None,
        },
        final(data)@ == (DataView { node_detail: final(data)@.node_detail, ..old(data)@ }),
        final(data).wf() == old(data).wf(),
{
    let detail = node_detail_of_reply(reply);
    data.update_node_detail(detail);
}

/// The address of the reward service.
pub const REWARD_SERVICE_URL: &'static str =
    "https://scan.platon.network/browser-server/staking/stakingDetails";

/// The seconds between two fetches of the reward detail.
pub const REWARD_REFRESH_SECONDS: u64 = 60;

/// The text of the JSON object with the one member `key`, a string, as
/// `serde_json` writes it.
pub uninterp spec fn object_text_of(key: Seq<char>, value: Seq<char>) -> Seq<char>;

/// `serde_json::Value`'s `Display` on an object with one member that
/// holds a string: the compact JSON text of that object. The contract
/// gives the result its name and claims nothing else of it.
#[verifier::external_body]
fn object_text(key: &str, value: &str) -> (r: String)
    ensures
        r@ == object_text_of(key@, value@),
{
    let mut members = serde_json::Map::new();
    members.insert(key.to_string(), serde_json::Value::String(value.to_string()));
    serde_json::Value::Object(members).to_string()
}

/// One request to the reward service: a POST of `body` to `url`, with the
/// content type `content_type`.
#[derive(Debug)]
pub struct Request {
    pub url: String,
    pub content_type: String,
    pub body: String,
}

/// The request for the detail of the node `node_id`.
pub fn node_detail_request(node_id: &str) -> (r: Request)
    ensures
        r.url@ == REWARD_SERVICE_URL@,
        r.content_type@ == "application/json"@,
        r.body@ == object_text_of("nodeId"@, node_id@),
{
    Request {
        url: String::from_str(REWARD_SERVICE_URL),
        content_type: String::from_str("application/json"),
        body: object_text("nodeId", node_id),
    }
}

} // verus!
