use vstd::prelude::*;
use vstd::string::{StrSliceExecFns, StringExecFns};
use crate::text::{concat, is_blank, is_white, trim, trimmed};

verus! {

/// The decimal digits, in order.
pub open spec fn digits() -> Seq<char> {
    "0123456789"@
}

/// `n` written in decimal.
pub open spec fn decimal(n: nat) -> Seq<char>
    decreases n,
{
    if n < 10 {
        digits().subrange(n as int, n as int + 1)
    } else {
        decimal(n / 10) + digits().subrange((n % 10) as int, (n % 10) as int + 1)
    }
}

/// `n` written in decimal, with a minus sign when negative.
pub open spec fn signed_decimal(n: int) -> Seq<char> {
    if n < 0 {
        "-"@ + decimal((-n) as nat)
    } else {
        decimal(n as nat)
    }
}

/// `n` in decimal.
pub fn decimal_text(n: u128) -> (r: String)
    ensures
        r@ == decimal(n as nat),
    decreases n,
{
    let all = "0123456789";
    proof {
        reveal_strlit("0123456789");
    }
    let d = (n % 10) as usize;
    let last = all.substring_char(d, d + 1);
    if n < 10 {
        String::from_str(last)
    } else {
        let head = decimal_text(n / 10);
        concat(head.as_str(), last)
    }
}

/// `n` in decimal, with a minus sign when negative.
pub fn signed_text(n: i128) -> (r: String)
    ensures
        r@ == signed_decimal(n as int),
{
    if n < 0 {
        let magnitude = ((-(n + 1)) as u128) + 1;
        let text = decimal_text(magnitude);
        concat("-", text.as_str())
    } else {
        decimal_text(n as u128)
    }
}

/// The pretty-printed JSON object that serde_json writes for `members`.
/// Each member is a name, a text, and whether the text is read as JSON (a
/// text that is no JSON is kept as a string) or kept as a string.
pub uninterp spec fn pretty_object(members: Seq<(Seq<char>, Seq<char>, bool)>) -> Seq<char>;

/// Puts each member into a `serde_json::Map`: its text read with
/// `serde_json::from_str::<serde_json::Value>` when flagged (a
/// `serde_json::Value::String` of it when that fails, or when not
/// flagged), then writes the object with `serde_json::to_string_pretty`,
/// which cannot fail on a `Value`.
#[verifier::external_body]
pub(crate) fn pretty_object_text(members: &Vec<(String, String, bool)>) -> (r: String)
    ensures
        r@ == pretty_object(members.deep_view()),
{
    let mut object = serde_json::Map::new();
    for (name, text, as_json) in members.iter() {
        let value = match (*as_json, serde_json::from_str::<serde_json::Value>(text)) {
            (true, Ok(v)) => v,
            _ => serde_json::Value::String(text.clone()),
        };
        object.insert(name.clone(), value);
    }
    serde_json::to_string_pretty(&serde_json::Value::Object(object)).unwrap_or_default()
}

/// A member holding a text as a string.
pub open spec fn text_member(name: Seq<char>, text: Seq<char>) -> (Seq<char>, Seq<char>, bool) {
    (name, text, false)
}

/// A member holding a text read as JSON.
pub open spec fn json_member(name: Seq<char>, text: Seq<char>) -> (Seq<char>, Seq<char>, bool) {
    (name, text, true)
}

pub(crate) fn push_member(members: &mut Vec<(String, String, bool)>, name: &str, text: &str, as_json: bool)
    ensures
        final(members).deep_view() == old(members).deep_view().push((name@, text@, as_json)),
{
    members.push((String::from_str(name), String::from_str(text), as_json));
    assert(final(members).deep_view() =~= old(members).deep_view().push((name@, text@, as_json)));
}

/// The members of an export document.
pub open spec fn export_members(
    contract_id: Seq<char>,
    network: Seq<char>,
    rpc_url: Seq<char>,
    escrow_text: Seq<char>,
) -> Seq<(Seq<char>, Seq<char>, bool)> {
    seq![
        text_member("contract_id"@, contract_id),
        text_member("network"@, network),
        text_member("rpc_url"@, rpc_url),
        json_member("escrow"@, escrow_text),
    ]
}

/// The export document of an escrow, given the raw output of its query:
/// `None` when the output is blank, otherwise an object with the contract
/// id, network and RPC URL as strings and the trimmed output read as JSON
/// under `escrow`.
pub fn export_document(contract_id: &str, network: &str, rpc_url: &str, raw: &str) -> (r: Option<
    String,
>)
    ensures
        r is None <==> forall|i: int| 0 <= i < raw@.len() ==> is_white(#[trigger] raw@[i]),
        r matches Some(doc) ==> doc@ == pretty_object(
            export_members(contract_id@, network@, rpc_url@, trimmed(raw@)),
        ),
{
    if is_blank(raw) {
        return None;
    }
    let mut members: Vec<(String, String, bool)> = Vec::new();
    proof {
        reveal_strlit("contract_id");
        reveal_strlit("network");
        reveal_strlit("rpc_url");
        reveal_strlit("escrow");
    }
    push_member(&mut members, "contract_id", contract_id, false);
    push_member(&mut members, "network", network, false);
    push_member(&mut members, "rpc_url", rpc_url, false);
    push_member(&mut members, "escrow", trim(raw), true);
    assert(members.deep_view() =~= export_members(contract_id@, network@, rpc_url@, trimmed(raw@)));
    Some(pretty_object_text(&members))
}

/// The members of a status report.
pub open spec fn status_members(escrow_text: Seq<char>) -> Seq<(Seq<char>, Seq<char>, bool)> {
    seq![text_member("status"@, "ok"@), json_member("escrow"@, escrow_text)]
}

/// The JSON status report of an escrow: `status` "ok" and the trimmed raw
/// output of its query read as JSON under `escrow`.
pub fn status_document(raw: &str) -> (r: String)
    ensures
        r@ == pretty_object(status_members(trimmed(raw@))),
{
    let mut members: Vec<(String, String, bool)> = Vec::new();
    push_member(&mut members, "status", "ok", false);
    push_member(&mut members, "escrow", trim(raw), true);
    assert(members.deep_view() =~= status_members(trimmed(raw@)));
    pretty_object_text(&members)
}

/// The reply to an accepted command: `status` "ok" and the action, then
/// the command's own members.
pub open spec fn reply_members(
    action: Seq<char>,
    details: Seq<(Seq<char>, Seq<char>, bool)>,
) -> Seq<(Seq<char>, Seq<char>, bool)> {
    seq![text_member("status"@, "ok"@), text_member("action"@, action)] + details
}

/// The JSON reply to an accepted command that reports nothing more.
pub fn action_reply(action: &str) -> (r: String)
    ensures
        r@ == pretty_object(reply_members(action@, seq![])),
{
    let mut members: Vec<(String, String, bool)> = Vec::new();
    push_member(&mut members, "status", "ok", false);
    push_member(&mut members, "action", action, false);
    assert(members.deep_view() =~= reply_members(action@, seq![]));
    pretty_object_text(&members)
}

/// The JSON reply to a transfer of the freelancer role.
pub fn transfer_reply(new_freelancer: &str) -> (r: String)
    ensures
        r@ == pretty_object(
            reply_members(
                "transfer_freelancer"@,
                seq![text_member("new_freelancer"@, new_freelancer@)],
            ),
        ),
{
    let mut members: Vec<(String, String, bool)> = Vec::new();
    push_member(&mut members, "status", "ok", false);
    push_member(&mut members, "action", "transfer_freelancer", false);
    push_member(&mut members, "new_freelancer", new_freelancer, false);
    assert(members.deep_view() =~= reply_members(
        "transfer_freelancer"@,
        seq![text_member("new_freelancer"@, new_freelancer@)],
    ));
    pretty_object_text(&members)
}

/// A deadline as JSON: its number, or `null` when there is none.
pub open spec fn deadline_json(deadline: Option<u64>) -> Seq<char> {
    match deadline {
        Some(d) => decimal(d as nat),
        None => "null"@,
    }
}

/// A deadline as JSON text.
pub fn deadline_text(deadline: Option<u64>) -> (r: String)
    ensures
        r@ == deadline_json(deadline),
{
    match deadline {
        Some(d) => decimal_text(d as u128),
        None => String::from_str("null"),
    }
}

/// The members that the reply to `create` reports after the action.
pub open spec fn create_details(
    contract_id: Seq<char>,
    payer: Seq<char>,
    freelancer: Seq<char>,
    amount: i128,
    milestone: Seq<char>,
    deadline: Option<u64>,
) -> Seq<(Seq<char>, Seq<char>, bool)> {
    seq![
        text_member("contract_id"@, contract_id),
        text_member("payer"@, payer),
        text_member("freelancer"@, freelancer),
        json_member("amount"@, signed_decimal(amount as int)),
        text_member("milestone"@, milestone),
        json_member("deadline"@, deadline_json(deadline)),
    ]
}

/// The JSON reply to `create`.
pub fn create_reply(
    contract_id: &str,
    payer: &str,
    freelancer: &str,
    amount: i128,
    milestone: &str,
    deadline: Option<u64>,
) -> (r: String)
    ensures
        r@ == pretty_object(
            reply_members(
                "create"@,
                create_details(contract_id@, payer@, freelancer@, amount, milestone@, deadline),
            ),
        ),
{
    let amount_text = signed_text(amount);
    let deadline_json_text = deadline_text(deadline);
    let mut members: Vec<(String, String, bool)> = Vec::new();
    push_member(&mut members, "status", "ok", false);
    push_member(&mut members, "action", "create", false);
    push_member(&mut members, "contract_id", contract_id, false);
    push_member(&mut members, "payer", payer, false);
    push_member(&mut members, "freelancer", freelancer, false);
    push_member(&mut members, "amount", amount_text.as_str(), true);
    push_member(&mut members, "milestone", milestone, false);
    push_member(&mut members, "deadline", deadline_json_text.as_str(), true);
    assert(members.deep_view() =~= reply_members(
        "create"@,
        create_details(contract_id@, payer@, freelancer@, amount, milestone@, deadline),
    ));
    pretty_object_text(&members)
}

} // verus!
