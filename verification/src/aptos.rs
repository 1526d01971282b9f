//! The health report of an Aptos node: what a synced node answers on
//! `/v1`, and whether a body is such an answer.

use vstd::prelude::*;
use vstd::string::StringExecFns;

verus! {

/// A value of a JSON object, as far as the health schema tells values
/// apart.
#[derive(Debug, Clone, Copy)]
pub enum JsonValue {
    /// A string.
    Text,
    /// A whole number that is not negative and fits 64 bits.
    Unsigned(u64),
    /// Anything else.
    Other,
}

/// One member of a JSON object.
#[derive(Debug)]
pub struct JsonMember {
    pub key: String,
    pub value: JsonValue,
}

pub struct JsonMemberView {
    pub key: Seq<char>,
    pub value: JsonValue,
}

impl View for JsonMember {
    type V = JsonMemberView;

    open spec fn view(&self) -> JsonMemberView {
        JsonMemberView { key: self.key@, value: self.value }
    }
}

/// The views of the members of an object, in order.
pub open spec fn members_view(members: Seq<JsonMember>) -> Seq<JsonMemberView> {
    members.map_values(|m: JsonMember| m@)
}

/// The members of `text` read as a JSON object; `None` where `text` is not
/// JSON or is another kind of value.
pub uninterp spec fn json_object(text: Seq<char>) -> Option<Seq<JsonMemberView>>;

/// Parses `text` with `serde_json::from_str` into a `serde_json::Value`
/// and copies out the members of the object. Trusted: the result is a
/// function of the text alone, named `json_object`; the grammar is not
/// modelled.
#[verifier::external_body]
pub(crate) fn parse_json_object(text: &str) -> (object: Option<Vec<JsonMember>>)
    ensures
        match object {
            Some(members) => json_object(text@) == Some(members_view(members@)),
            None => json_object(text@) is None,
        },
{
    let value = serde_json::from_str::<serde_json::Value>(text).ok()?;
    Some(value.as_object()?.iter().map(|(key, member)| JsonMember {
        key: key.clone(),
        value: match member {
            serde_json::Value::String(_) => JsonValue::Text,
            serde_json::Value::Number(n) => match n.as_u64() {
                Some(whole) => JsonValue::Unsigned(whole),
                None => JsonValue::Other,
            },
            _ => JsonValue::Other,
        },
    }).collect())
}

/// The value that `members` holds under `key`.
pub open spec fn member_at(members: Seq<JsonMemberView>, key: Seq<char>) -> Option<JsonValue>
    decreases members.len(),
{
    if members.len() == 0 {
        None
    } else if members[0].key == key {
        Some(members[0].value)
    } else {
        member_at(members.skip(1), key)
    }
}

/// Whether `members` holds a string under `key`.
pub open spec fn has_text(members: Seq<JsonMemberView>, key: Seq<char>) -> bool {
    member_at(members, key) is Some && member_at(members, key)->0 is Text
}

/// Whether `members` holds a number under `key` that fits 32 bits unsigned.
pub open spec fn has_u32(members: Seq<JsonMemberView>, key: Seq<char>) -> bool {
    member_at(members, key) matches Some(JsonValue::Unsigned(n)) && n <= u32::MAX
}

/// Whether an object is a health report: the chain's id as a number, and
/// the ledger's figures, the node's role and the build as strings.
pub open spec fn is_health_report(members: Seq<JsonMemberView>) -> bool {
    &&& has_u32(members, "chain_id"@)
    &&& has_text(members, "epoch"@)
    &&& has_text(members, "ledger_version"@)
    &&& has_text(members, "oldest_ledger_version"@)
    &&& has_text(members, "ledger_timestamp"@)
    &&& has_text(members, "node_role"@)
    &&& has_text(members, "oldest_block_height"@)
    &&& has_text(members, "block_height"@)
    &&& has_text(members, "git_hash"@)
}

/// Whether `text` is the health report of a synced node.
pub open spec fn valid_api_response(text: Seq<char>) -> bool {
    match json_object(text) {
        Some(members) => is_health_report(members),
        None => false,
    }
}

/// Looks up `key` among `members`.
pub fn find_member(members: &Vec<JsonMember>, key: &str) -> (found: Option<JsonValue>)
    ensures
        found == member_at(members_view(members@), key@),
{
    let wanted = String::from_str(key);
    let ghost all = members_view(members@);
    let mut i: usize = 0;
    assert(all.skip(0) =~= all);
    while i < members.len()
        invariant
            i <= members.len(),
            all == members_view(members@),
            wanted@ == key@,
            member_at(all, key@) == member_at(all.skip(i as int), key@),
        decreases members.len() - i,
    {
        assert(all.skip(i as int)[0] == all[i as int]);
        assert(all.skip(i as int).skip(1) =~= all.skip(i + 1));
        if members[i].key == wanted {
            return Some(members[i].value);
        }
        i = i + 1;
    }
    None
}

fn text_member(members: &Vec<JsonMember>, key: &str) -> (yes: bool)
    ensures
        yes == has_text(members_view(members@), key@),
{
    match find_member(members, key) {
        Some(JsonValue::Text) => true,
        _ => false,
    }
}

/// Whether the members of an object make up a health report.
pub fn matches_health_schema(members: &Vec<JsonMember>) -> (valid: bool)
    ensures
        valid == is_health_report(members_view(members@)),
{
    let chain = match find_member(members, "chain_id") {
        Some(JsonValue::Unsigned(n)) => n <= u32::MAX as u64,
        _ => false,
    };
    chain && text_member(members, "epoch") && text_member(members, "ledger_version")
        && text_member(members, "oldest_ledger_version") && text_member(
        members,
        "ledger_timestamp",
    ) && text_member(members, "node_role") && text_member(members, "oldest_block_height")
        && text_member(members, "block_height") && text_member(members, "git_hash")
}

/// Whether a response body is the health report of a synced node.
pub fn is_valid_api_response(json_response: &str) -> (valid: bool)
    ensures
        valid == valid_api_response(json_response@),
{
    match parse_json_object(json_response) {
        Some(members) => matches_health_schema(&members),
        None => false,
    }
}

} // verus!
