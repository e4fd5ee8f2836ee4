use vstd::prelude::*;
use vstd::string::StringExecFns;
use sha2::Digest;
use crate::text::{concat, fee_in_lines, fee_in_text, trim, trimmed};
use crate::documents::{
    decimal, deadline_json, deadline_text, decimal_text, json_member, pretty_object,
    pretty_object_text, push_member, signed_decimal, signed_text, text_member,
};

verus! {

/// Whether `a` and `b` hold the same text.
pub fn str_eq(a: &str, b: &str) -> (r: bool)
    ensures
        r == (a@ == b@),
{
    String::from_str(a) == String::from_str(b)
}

/// The contract function that estimating the fee of `op` simulates, for
/// the operations the client knows.
pub open spec fn simulated_function(op: Seq<char>) -> Option<Seq<char>> {
    if op == "create"@ {
        Some("create"@)
    } else if op == "submit-work"@ {
        Some("submit_work"@)
    } else if op == "approve"@ {
        Some("approve"@)
    } else if op == "cancel"@ {
        Some("cancel"@)
    } else if op == "expire"@ {
        Some("expire"@)
    } else {
        None
    }
}

/// The contract function to simulate for `operation`; none for an
/// operation the client does not know.
pub fn estimate_fee_function(operation: &str) -> (r: Option<String>)
    ensures
        r is None <==> simulated_function(operation@) is None,
        r matches Some(f) ==> simulated_function(operation@) == Some(f@),
{
    if str_eq(operation, "create") {
        Some(String::from_str("create"))
    } else if str_eq(operation, "submit-work") {
        Some(String::from_str("submit_work"))
    } else if str_eq(operation, "approve") {
        Some(String::from_str("approve"))
    } else if str_eq(operation, "cancel") {
        Some(String::from_str("cancel"))
    } else if str_eq(operation, "expire") {
        Some(String::from_str("expire"))
    } else {
        None
    }
}

/// The arguments of a `stellar contract invoke` call.
pub open spec fn invoke_arguments(
    rpc_url: Seq<char>,
    network_passphrase: Seq<char>,
    contract_id: Seq<char>,
    secret: Seq<char>,
    sim_only: bool,
    function: Seq<char>,
    extra: Seq<Seq<char>>,
) -> Seq<Seq<char>> {
    seq![
        "contract"@,
        "invoke"@,
        "--id"@,
        contract_id,
        "--rpc-url"@,
        rpc_url,
        "--network-passphrase"@,
        network_passphrase,
        "--source"@,
        secret,
    ] + (if sim_only {
        seq!["--sim-only"@]
    } else {
        seq![]
    }) + seq!["--"@, function] + extra
}

/// The texts of a list of strings.
pub open spec fn texts(v: Seq<String>) -> Seq<Seq<char>> {
    v.map_values(|s: String| s@)
}

fn push_str(v: &mut Vec<String>, s: &str)
    ensures
        texts(final(v)@) == texts(old(v)@).push(s@),
{
    v.push(String::from_str(s));
    assert(texts(final(v)@) =~= texts(old(v)@).push(s@));
}

/// The arguments for `stellar` that invoke `function` on a contract,
/// signed with `secret`; with `sim_only` the call is only simulated.
pub fn invoke_args(
    rpc_url: &str,
    network_passphrase: &str,
    contract_id: &str,
    secret: &str,
    sim_only: bool,
    function: &str,
    extra_args: &Vec<String>,
) -> (r: Vec<String>)
    ensures
        texts(r@) == invoke_arguments(
            rpc_url@,
            network_passphrase@,
            contract_id@,
            secret@,
            sim_only,
            function@,
            texts(extra_args@),
        ),
{
    let mut args: Vec<String> = Vec::new();
    push_str(&mut args, "contract");
    push_str(&mut args, "invoke");
    push_str(&mut args, "--id");
    push_str(&mut args, contract_id);
    push_str(&mut args, "--rpc-url");
    push_str(&mut args, rpc_url);
    push_str(&mut args, "--network-passphrase");
    push_str(&mut args, network_passphrase);
    push_str(&mut args, "--source");
    push_str(&mut args, secret);
    let ghost head = texts(args@);
    if sim_only {
        push_str(&mut args, "--sim-only");
    }
    push_str(&mut args, "--");
    push_str(&mut args, function);
    let ghost base = texts(args@);
    let mut i: usize = 0;
    while i < extra_args.len()
        invariant
            i <= extra_args@.len(),
            texts(args@) == base + texts(extra_args@).take(i as int),
        decreases extra_args@.len() - i,
    {
        push_str(&mut args, extra_args[i].as_str());
        assert(texts(extra_args@).take(i + 1) =~= texts(extra_args@).take(i as int).push(
            extra_args@[i as int]@,
        ));
        i = i + 1;
    }
    assert(texts(extra_args@).take(extra_args@.len() as int) =~= texts(extra_args@));
    assert(texts(args@) =~= invoke_arguments(
        rpc_url@,
        network_passphrase@,
        contract_id@,
        secret@,
        sim_only,
        function@,
        texts(extra_args@),
    ));
    args
}

/// The contract arguments of `init`.
pub open spec fn init_arguments(admin: Seq<char>, fee_bps: u32, fee_collector: Seq<char>) -> Seq<
    Seq<char>,
> {
    seq!["--admin"@, admin, "--fee-bps"@, decimal(fee_bps as nat), "--fee-collector"@, fee_collector]
}

/// The contract arguments of `init`, the fee in decimal.
pub fn init_args(admin: &str, fee_bps: u32, fee_collector: &str) -> (r: Vec<String>)
    ensures
        texts(r@) == init_arguments(admin@, fee_bps, fee_collector@),
{
    let fee = decimal_text(fee_bps as u128);
    let mut args: Vec<String> = Vec::new();
    push_str(&mut args, "--admin");
    push_str(&mut args, admin);
    push_str(&mut args, "--fee-bps");
    push_str(&mut args, fee.as_str());
    push_str(&mut args, "--fee-collector");
    push_str(&mut args, fee_collector);
    assert(texts(args@) =~= init_arguments(admin@, fee_bps, fee_collector@));
    args
}

/// The contract arguments of `create`; a missing deadline is `null`.
pub open spec fn create_arguments(
    payer: Seq<char>,
    freelancer: Seq<char>,
    token: Seq<char>,
    amount: i128,
    milestone: Seq<char>,
    deadline: Option<u64>,
) -> Seq<Seq<char>> {
    seq![
        "--payer"@,
        payer,
        "--freelancer"@,
        freelancer,
        "--token"@,
        token,
        "--amount"@,
        signed_decimal(amount as int),
        "--milestone"@,
        milestone,
        "--deadline"@,
        deadline_json(deadline),
    ]
}

/// The contract arguments of `create`, numbers in decimal.
pub fn create_args(
    payer: &str,
    freelancer: &str,
    token: &str,
    amount: i128,
    milestone: &str,
    deadline: Option<u64>,
) -> (r: Vec<String>)
    ensures
        texts(r@) == create_arguments(payer@, freelancer@, token@, amount, milestone@, deadline),
{
    let amount_text = signed_text(amount);
    let deadline_arg = deadline_text(deadline);
    let mut args: Vec<String> = Vec::new();
    push_str(&mut args, "--payer");
    push_str(&mut args, payer);
    push_str(&mut args, "--freelancer");
    push_str(&mut args, freelancer);
    push_str(&mut args, "--token");
    push_str(&mut args, token);
    push_str(&mut args, "--amount");
    push_str(&mut args, amount_text.as_str());
    push_str(&mut args, "--milestone");
    push_str(&mut args, milestone);
    push_str(&mut args, "--deadline");
    push_str(&mut args, deadline_arg.as_str());
    assert(texts(args@) =~= create_arguments(
        payer@,
        freelancer@,
        token@,
        amount,
        milestone@,
        deadline,
    ));
    args
}

/// The contract arguments of `transfer_freelancer`.
pub fn transfer_args(new_freelancer: &str) -> (r: Vec<String>)
    ensures
        texts(r@) == seq!["--new-freelancer"@, new_freelancer@],
{
    let mut args: Vec<String> = Vec::new();
    push_str(&mut args, "--new-freelancer");
    push_str(&mut args, new_freelancer);
    assert(texts(args@) =~= seq!["--new-freelancer"@, new_freelancer@]);
    args
}

/// The RPC endpoint and network passphrase of the networks the setup
/// wizard offers: testnet first, then mainnet; anything else is custom.
pub open spec fn preset_network(index: usize) -> Option<(Seq<char>, Seq<char>)> {
    if index == 0 {
        Some(("https://soroban-testnet.stellar.org"@, "Test SDF Network ; September 2015"@))
    } else if index == 1 {
        Some(
            (
                "https://soroban-mainnet.stellar.org"@,
                "Public Global Stellar Network ; September 2015"@,
            ),
        )
    } else {
        None
    }
}

/// The RPC endpoint and passphrase of preset network `index`, if it is one.
pub fn network_preset(index: usize) -> (r: Option<(String, String)>)
    ensures
        r is None <==> preset_network(index) is None,
        r matches Some((u, p)) ==> preset_network(index) == Some((u@, p@)),
{
    if index == 0 {
        Some(
            (
                String::from_str("https://soroban-testnet.stellar.org"),
                String::from_str("Test SDF Network ; September 2015"),
            ),
        )
    } else if index == 1 {
        Some(
            (
                String::from_str("https://soroban-mainnet.stellar.org"),
                String::from_str("Public Global Stellar Network ; September 2015"),
            ),
        )
    } else {
        None
    }
}

/// The `.env` file that the setup wizard writes.
pub open spec fn env_file(
    contract_id: Seq<char>,
    secret: Seq<char>,
    rpc_url: Seq<char>,
    network_passphrase: Seq<char>,
) -> Seq<char> {
    "ESCROW_CONTRACT_ID="@ + contract_id + "\nADMIN_SECRET="@ + secret + "\nPAYER_SECRET="@
        + secret + "\nFREELANCER_SECRET=\nRPC_URL="@ + rpc_url + "\nNETWORK_PASSPHRASE="@
        + network_passphrase + "\n"@
}

/// The contents of the `.env` file for a deployed contract.
pub fn env_file_contents(
    contract_id: &str,
    secret: &str,
    rpc_url: &str,
    network_passphrase: &str,
) -> (r: String)
    ensures
        r@ == env_file(contract_id@, secret@, rpc_url@, network_passphrase@),
{
    let mut s = String::from_str("ESCROW_CONTRACT_ID=");
    s.append(contract_id);
    s.append("\nADMIN_SECRET=");
    s.append(secret);
    s.append("\nPAYER_SECRET=");
    s.append(secret);
    s.append("\nFREELANCER_SECRET=\nRPC_URL=");
    s.append(rpc_url);
    s.append("\nNETWORK_PASSPHRASE=");
    s.append(network_passphrase);
    s.append("\n");
    s
}

/// The friendbot request that funds `address` on testnet.
pub fn friendbot_url(address: &str) -> (r: String)
    ensures
        r@ == "https://friendbot.stellar.org?addr="@ + address@,
{
    concat("https://friendbot.stellar.org?addr=", address)
}

/// The setup wizard funds the new account through Friendbot only on
/// testnet, the first network it offers.
pub fn funds_with_friendbot(network_index: usize) -> (r: bool)
    ensures
        r == (network_index == 0),
{
    network_index == 0
}

/// The id of the contract that a deployment printed on `stdout`: the
/// trimmed output; none when that is empty, which means the deployment
/// failed.
pub fn deployed_contract_id(stdout: &str) -> (r: Option<&str>)
    ensures
        r is None <==> trimmed(stdout@).len() == 0,
        r matches Some(id) ==> id@ == trimmed(stdout@),
{
    let id = trim(stdout);
    if id.is_empty() {
        None
    } else {
        Some(id)
    }
}

/// The indices of the events, given as (first topic, first value), that
/// announce an escrow created by `payer`, in order.
pub open spec fn created_by(events: Seq<(Seq<char>, Seq<char>)>, payer: Seq<char>) -> Seq<usize>
    decreases events.len(),
{
    if events.len() == 0 {
        seq![]
    } else {
        let rest = created_by(events.drop_last(), payer);
        let e = events.last();
        if e.0 == "escrow_created"@ && e.1 == payer {
            rest.push((events.len() - 1) as usize)
        } else {
            rest
        }
    }
}

/// Picks the `escrow_created` events whose payer is `payer`.
pub fn select_created_events(events: &Vec<(String, String)>, payer: &str) -> (r: Vec<usize>)
    ensures
        r@ == created_by(events.deep_view(), payer@),
{
    let ghost all = events.deep_view();
    let mut r: Vec<usize> = Vec::new();
    let mut i: usize = 0;
    while i < events.len()
        invariant
            i <= events@.len(),
            all == events.deep_view(),
            all.len() == events@.len(),
            r@ == created_by(all.take(i as int), payer@),
        decreases events@.len() - i,
    {
        assert(all.take(i + 1).drop_last() =~= all.take(i as int));
        assert(all[i as int] == (events@[i as int].0@, events@[i as int].1@));
        if str_eq(events[i].0.as_str(), "escrow_created") && str_eq(events[i].1.as_str(), payer) {
            r.push(i);
        }
        i = i + 1;
    }
    assert(all.take(all.len() as int) =~= all);
    r
}

/// What serde_json reads from `raw` as an array of JSON values: `None` when
/// `raw` is no such array; otherwise, for each element and each
/// `(name, index)` in `fields`, the value at `[name][index]` of the
/// element, as a string when it is one, and written as JSON (`null` when
/// there is no such value).
pub uninterp spec fn json_array_fields(raw: Seq<char>, fields: Seq<(Seq<char>, usize)>) -> Option<
    Seq<Seq<(Option<Seq<char>>, Seq<char>)>>,
>;

/// Calls `serde_json::from_str::<Vec<serde_json::Value>>` on `raw`; for
/// each element and each field indexes the element by the field's name,
/// then by its index (read-only indexing, `Null` when absent), and calls
/// `as_str` and `to_string` on what it finds.
#[verifier::external_body]
fn read_json_array_fields(raw: &str, fields: &Vec<(String, usize)>) -> (r: Option<
    Vec<Vec<(Option<String>, String)>>,
>)
    ensures
        r.deep_view() == json_array_fields(raw@, fields.deep_view()),
{
    match serde_json::from_str::<Vec<serde_json::Value>>(raw) {
        Ok(items) => Some(
            items.iter().map(
                |item| fields.iter().map(
                    |(name, index)| {
                        let v = &item[name.as_str()][*index];
                        (v.as_str().map(String::from), v.to_string())
                    },
                ).collect(),
            ).collect(),
        ),
        Err(_) => None,
    }
}

/// The fields of an escrow event that the client reads: the first topic,
/// then the first four values (payer, freelancer, amount, milestone).
pub open spec fn event_fields() -> Seq<(Seq<char>, usize)> {
    seq![("topic"@, 0), ("value"@, 0), ("value"@, 1), ("value"@, 2), ("value"@, 3)]
}

fn event_fields_list() -> (r: Vec<(String, usize)>)
    ensures
        r.deep_view() == event_fields(),
{
    let mut r: Vec<(String, usize)> = Vec::new();
    r.push((String::from_str("topic"), 0));
    r.push((String::from_str("value"), 0));
    r.push((String::from_str("value"), 1));
    r.push((String::from_str("value"), 2));
    r.push((String::from_str("value"), 3));
    assert(r.deep_view() =~= event_fields());
    r
}

/// The text of a field read as a string; empty when it is no string.
pub open spec fn head_text(h: Option<Seq<char>>) -> Seq<char> {
    match h {
        Some(t) => t,
        None => Seq::empty(),
    }
}

/// Field `k` of a row, as a string (empty when it is none or missing).
pub open spec fn field_str(row: Seq<(Option<Seq<char>>, Seq<char>)>, k: int) -> Seq<char> {
    if 0 <= k < row.len() {
        head_text(row[k].0)
    } else {
        Seq::empty()
    }
}

/// Field `k` of a row, written as JSON (`null` when missing).
pub open spec fn field_json(row: Seq<(Option<Seq<char>>, Seq<char>)>, k: int) -> Seq<char> {
    if 0 <= k < row.len() {
        row[k].1
    } else {
        "null"@
    }
}

/// Field `k` of a row for display: the string, or "-" when it is none.
pub open spec fn field_shown(row: Seq<(Option<Seq<char>>, Seq<char>)>, k: int) -> Seq<char> {
    if 0 <= k < row.len() && row[k].0 is Some {
        row[k].0.unwrap()
    } else {
        "-"@
    }
}

/// The events that were read, none when the output was no JSON array;
/// each as its first topic and its payer, as text.
pub open spec fn head_texts(rows: Option<Seq<Seq<(Option<Seq<char>>, Seq<char>)>>>) -> Seq<
    (Seq<char>, Seq<char>),
> {
    match rows {
        Some(r) => r.map_values(
            |row: Seq<(Option<Seq<char>>, Seq<char>)>| (field_str(row, 0), field_str(row, 1)),
        ),
        None => seq![],
    }
}

/// The rows that were read; none when the output was no JSON array.
pub open spec fn rows_read(rows: Option<Seq<Seq<(Option<Seq<char>>, Seq<char>)>>>) -> Seq<
    Seq<(Option<Seq<char>>, Seq<char>)>,
> {
    match rows {
        Some(r) => r,
        None => seq![],
    }
}

fn row_str(row: &Vec<(Option<String>, String)>, k: usize) -> (r: String)
    ensures
        r@ == field_str(row.deep_view(), k as int),
{
    if k < row.len() {
        match &row[k].0 {
            Some(t) => t.clone(),
            None => String::new(),
        }
    } else {
        String::new()
    }
}

fn row_json(row: &Vec<(Option<String>, String)>, k: usize) -> (r: String)
    ensures
        r@ == field_json(row.deep_view(), k as int),
{
    if k < row.len() {
        row[k].1.clone()
    } else {
        String::from_str("null")
    }
}

fn row_shown(row: &Vec<(Option<String>, String)>, k: usize) -> (r: String)
    ensures
        r@ == field_shown(row.deep_view(), k as int),
{
    if k < row.len() {
        match &row[k].0 {
            Some(t) => t.clone(),
            None => String::from_str("-"),
        }
    } else {
        String::from_str("-")
    }
}

/// The `escrow_created` events of payer `payer` among the events read as
/// `rows` (first topic, then payer, in each row).
pub fn created_among(rows: &Option<Vec<Vec<(Option<String>, String)>>>, payer: &str) -> (r: Vec<
    usize,
>)
    ensures
        r@ == created_by(head_texts(rows.deep_view()), payer@),
{
    let mut texts: Vec<(String, String)> = Vec::new();
    match rows {
        Some(v) => {
            let ghost h = v.deep_view();
            let mut i: usize = 0;
            while i < v.len()
                invariant
                    i <= v@.len(),
                    h == v.deep_view(),
                    h.len() == v@.len(),
                    texts@.len() == i,
                    forall|j: int|
                        0 <= j < i ==> (#[trigger] texts@[j]).0@ == field_str(h[j], 0)
                            && texts@[j].1@ == field_str(h[j], 1),
                decreases v@.len() - i,
            {
                let topic = row_str(&v[i], 0);
                let payer_text = row_str(&v[i], 1);
                texts.push((topic, payer_text));
                i = i + 1;
            }
            assert(texts.deep_view() =~= head_texts(Some(h)));
        },
        None => {
            assert(head_texts(rows.deep_view()) =~= texts.deep_view());
        },
    }
    select_created_events(&texts, payer)
}

/// The indices of the `escrow_created` events of payer `payer` among the
/// events that `raw`, the JSON output of an event query, lists.
pub fn created_escrows_in(raw: &str, payer: &str) -> (r: Vec<usize>)
    ensures
        r@ == created_by(head_texts(json_array_fields(raw@, event_fields())), payer@),
{
    let fields = event_fields_list();
    let rows = read_json_array_fields(raw, &fields);
    created_among(&rows, payer)
}

/// Every index that `created_by` lists is the index of an event.
pub proof fn lemma_created_by_in_range(events: Seq<(Seq<char>, Seq<char>)>, payer: Seq<char>)
    ensures
        forall|i: int|
            0 <= i < created_by(events, payer).len() ==> #[trigger] created_by(events, payer)[i]
                < events.len(),
    decreases events.len(),
{
    if events.len() > 0 {
        let rest = created_by(events.drop_last(), payer);
        lemma_created_by_in_range(events.drop_last(), payer);
        assert forall|i: int| 0 <= i < created_by(events, payer).len() implies #[trigger] created_by(
            events,
            payer,
        )[i] < events.len() by {
            if i < rest.len() {
                assert(created_by(events, payer)[i] == rest[i]);
            }
        }
    }
}

/// The members of one listed escrow: the contract, then the event's payer,
/// freelancer, amount and milestone as the event holds them.
pub open spec fn summary_members(contract_id: Seq<char>, row: Seq<(Option<Seq<char>>, Seq<char>)>) -> Seq<
    (Seq<char>, Seq<char>, bool),
> {
    seq![
        text_member("contract_id"@, contract_id),
        json_member("payer"@, field_json(row, 1)),
        json_member("freelancer"@, field_json(row, 2)),
        json_member("amount"@, field_json(row, 3)),
        json_member("milestone"@, field_json(row, 4)),
    ]
}

/// `items` separated by commas.
pub open spec fn joined(items: Seq<Seq<char>>) -> Seq<char>
    decreases items.len(),
{
    if items.len() == 0 {
        seq![]
    } else if items.len() == 1 {
        items[0]
    } else {
        joined(items.drop_last()) + ","@ + items.last()
    }
}

/// The JSON array of the JSON texts `items`.
pub open spec fn json_array(items: Seq<Seq<char>>) -> Seq<char> {
    "["@ + joined(items) + "]"@
}

/// The summaries of the escrows of payer `payer` among the events read as
/// `rows`, each a JSON object.
pub open spec fn summaries(
    contract_id: Seq<char>,
    rows: Option<Seq<Seq<(Option<Seq<char>>, Seq<char>)>>>,
    payer: Seq<char>,
) -> Seq<Seq<char>> {
    created_by(head_texts(rows), payer).map_values(
        |i: usize| pretty_object(summary_members(contract_id, rows_read(rows)[i as int])),
    )
}

/// The JSON listing of the escrows of payer `payer`.
pub open spec fn listing_json(
    contract_id: Seq<char>,
    rows: Option<Seq<Seq<(Option<Seq<char>>, Seq<char>)>>>,
    payer: Seq<char>,
) -> Seq<char> {
    pretty_object(seq![json_member("escrows"@, json_array(summaries(contract_id, rows, payer)))])
}

/// One listed escrow, as the client shows it.
#[derive(Debug)]
pub struct ListedEscrow {
    pub contract_id: String,
    pub milestone: String,
    pub amount: String,
    pub freelancer: String,
}

/// The escrow is shown as the contract, the event's milestone and
/// freelancer (as strings, "-" when none) and its amount written as JSON.
pub open spec fn shown_as(
    e: ListedEscrow,
    contract_id: Seq<char>,
    row: Seq<(Option<Seq<char>>, Seq<char>)>,
) -> bool {
    &&& e.contract_id@ == contract_id
    &&& e.milestone@ == field_shown(row, 4)
    &&& e.amount@ == field_json(row, 3)
    &&& e.freelancer@ == field_shown(row, 2)
}

/// The escrows of a payer: as a JSON document and as display entries.
pub struct EscrowListing {
    pub document: String,
    pub entries: Vec<ListedEscrow>,
}

fn summary_text(contract_id: &str, row: &Vec<(Option<String>, String)>) -> (r: String)
    ensures
        r@ == pretty_object(summary_members(contract_id@, row.deep_view())),
{
    let payer = row_json(row, 1);
    let freelancer = row_json(row, 2);
    let amount = row_json(row, 3);
    let milestone = row_json(row, 4);
    let mut members: Vec<(String, String, bool)> = Vec::new();
    push_member(&mut members, "contract_id", contract_id, false);
    push_member(&mut members, "payer", payer.as_str(), true);
    push_member(&mut members, "freelancer", freelancer.as_str(), true);
    push_member(&mut members, "amount", amount.as_str(), true);
    push_member(&mut members, "milestone", milestone.as_str(), true);
    assert(members.deep_view() =~= summary_members(contract_id@, row.deep_view()));
    pretty_object_text(&members)
}

/// The listing of the escrows of payer `payer` among the events read as
/// `rows`: the JSON document, and one display entry per escrow, in order.
pub fn listing_of(
    contract_id: &str,
    rows: &Option<Vec<Vec<(Option<String>, String)>>>,
    payer: &str,
) -> (r: EscrowListing)
    ensures
        r.document@ == listing_json(contract_id@, rows.deep_view(), payer@),
        ({
            let picked = created_by(head_texts(rows.deep_view()), payer@);
            &&& r.entries@.len() == picked.len()
            &&& forall|i: int|
                0 <= i < picked.len() ==> shown_as(
                    #[trigger] r.entries@[i],
                    contract_id@,
                    rows_read(rows.deep_view())[picked[i] as int],
                )
        }),
{
    let picked = created_among(rows, payer);
    let ghost items = summaries(contract_id@, rows.deep_view(), payer@);
    let ghost all = rows_read(rows.deep_view());
    proof {
        lemma_created_by_in_range(head_texts(rows.deep_view()), payer@);
    }
    let mut array = String::from_str("[");
    let mut entries: Vec<ListedEscrow> = Vec::new();
    match rows {
        Some(v) => {
            assert(all == v.deep_view());
            let mut k: usize = 0;
            while k < picked.len()
                invariant
                    k <= picked@.len(),
                    picked@ == created_by(head_texts(rows.deep_view()), payer@),
                    *rows == Some(*v),
                    all == v.deep_view(),
                    all.len() == v@.len(),
                    head_texts(rows.deep_view()).len() == v@.len(),
                    forall|i: int| 0 <= i < picked@.len() ==> #[trigger] picked@[i] < v@.len(),
                    items == summaries(contract_id@, rows.deep_view(), payer@),
                    items.len() == picked@.len(),
                    array@ == "["@ + joined(items.take(k as int)),
                    entries@.len() == k,
                    forall|i: int|
                        0 <= i < k ==> shown_as(
                            #[trigger] entries@[i],
                            contract_id@,
                            all[picked@[i] as int],
                        ),
                decreases picked@.len() - k,
            {
                let row = &v[picked[k]];
                assert(row.deep_view() == all[picked@[k as int] as int]);
                let text = summary_text(contract_id, row);
                assert(text@ == items[k as int]);
                assert(items.take(k + 1).drop_last() =~= items.take(k as int));
                if k > 0 {
                    array = concat(array.as_str(), ",");
                }
                array = concat(array.as_str(), text.as_str());
                entries.push(
                    ListedEscrow {
                        contract_id: String::from_str(contract_id),
                        milestone: row_shown(row, 4),
                        amount: row_json(row, 3),
                        freelancer: row_shown(row, 2),
                    },
                );
                k = k + 1;
            }
            assert(items.take(items.len() as int) =~= items);
        },
        None => {
            assert(head_texts(rows.deep_view()) =~= seq![]);
            assert(items =~= seq![]);
        },
    }
    array = concat(array.as_str(), "]");
    let mut members: Vec<(String, String, bool)> = Vec::new();
    push_member(&mut members, "escrows", array.as_str(), true);
    assert(members.deep_view() =~= seq![json_member("escrows"@, json_array(items))]);
    EscrowListing { document: pretty_object_text(&members), entries }
}

/// The listing of the escrows of payer `payer` among the events that
/// `raw`, the JSON output of an event query, lists.
pub fn escrow_listing(contract_id: &str, raw: &str, payer: &str) -> (r: EscrowListing)
    ensures
        r.document@ == listing_json(contract_id@, json_array_fields(raw@, event_fields()), payer@),
        ({
            let rows = json_array_fields(raw@, event_fields());
            let picked = created_by(head_texts(rows), payer@);
            &&& r.entries@.len() == picked.len()
            &&& forall|i: int|
                0 <= i < picked.len() ==> shown_as(
                    #[trigger] r.entries@[i],
                    contract_id@,
                    rows_read(rows)[picked[i] as int],
                )
        }),
{
    let fields = event_fields_list();
    let rows = read_json_array_fields(raw, &fields);
    listing_of(contract_id, &rows, payer)
}

/// The lowercase hexadecimal digit of `n` (below 16).
pub open spec fn hex_digit(n: int) -> char {
    if n < 10 {
        ('0' as int + n) as char
    } else {
        ('a' as int + n - 10) as char
    }
}

/// Each byte as two lowercase hexadecimal digits, high half first.
pub open spec fn hex_text(bytes: Seq<u8>) -> Seq<char>
    decreases bytes.len(),
{
    if bytes.len() == 0 {
        seq![]
    } else {
        hex_text(bytes.drop_last()) + seq![
            hex_digit((bytes.last() / 16) as int),
            hex_digit((bytes.last() % 16) as int),
        ]
    }
}

/// Calls `hex::encode`, which writes each byte as two lowercase hexadecimal
/// digits, high half first.
#[verifier::external_body]
fn hex_encode(bytes: &[u8]) -> (r: String)
    ensures
        r@ == hex_text(bytes@),
{
    hex::encode(bytes)
}

/// The SHA-256 digest of `data`, as `sha2` computes it.
pub uninterp spec fn sha256(data: Seq<u8>) -> Seq<u8>;

/// Calls `sha2::Sha256::digest`: the 32-byte SHA-256 digest of `data`.
#[verifier::external_body]
fn sha256_digest(data: &[u8]) -> (r: Vec<u8>)
    ensures
        r@ == sha256(data@),
        r@.len() == 32,
{
    sha2::Sha256::digest(data).to_vec()
}

/// The SHA-256 digest of a contract's Wasm code, in lowercase hex.
pub fn wasm_hash_hex(wasm: &[u8]) -> (r: String)
    ensures
        r@ == hex_text(sha256(wasm@)),
        r@.len() == 64,
{
    let digest = sha256_digest(wasm);
    proof {
        lemma_hex_text_len(digest@);
    }
    hex_encode(digest.as_slice())
}

proof fn lemma_hex_text_len(bytes: Seq<u8>)
    ensures
        hex_text(bytes).len() == 2 * bytes.len(),
    decreases bytes.len(),
{
    if bytes.len() > 0 {
        lemma_hex_text_len(bytes.drop_last());
    }
}

/// What serde_json reads out of `text` for member `key`: `None` when
/// `text` is not JSON, otherwise the member as an unsigned 64-bit number
/// (`Some(None)` when it is missing or no such number).
pub uninterp spec fn json_u64_member(text: Seq<char>, key: Seq<char>) -> Option<Option<u64>>;

/// Calls `serde_json::from_str::<serde_json::Value>` on `text`, then indexes
/// the value by `key` and calls `as_u64` on what it finds.
#[verifier::external_body]
fn json_u64_lookup(text: &str, key: &str) -> (r: Option<Option<u64>>)
    ensures
        r == json_u64_member(text@, key@),
{
    match serde_json::from_str::<serde_json::Value>(text) {
        Ok(v) => Some(v[key].as_u64()),
        Err(_) => None,
    }
}

/// The fee, in stroops, that a simulation reported: the `fee` member of
/// its JSON output, else its `min_resource_fee` member, else 0; when the
/// output is no JSON, the first number on the first line that mentions
/// "fee", else 0.
pub open spec fn reported_fee(
    fee: Option<Option<u64>>,
    min_resource_fee: Option<Option<u64>>,
    combined: Seq<char>,
) -> u64 {
    match fee {
        Some(Some(v)) => v,
        Some(None) => match min_resource_fee {
            Some(Some(v)) => v,
            _ => 0,
        },
        None => match fee_in_text(combined) {
            Some(v) => v,
            None => 0,
        },
    }
}

/// The fee a simulation reported, given what its JSON output holds under
/// `fee` and `min_resource_fee` and its whole output text.
pub fn fee_from_simulation(
    fee: Option<Option<u64>>,
    min_resource_fee: Option<Option<u64>>,
    combined: &str,
) -> (r: u64)
    ensures
        r == reported_fee(fee, min_resource_fee, combined@),
{
    match fee {
        Some(Some(v)) => v,
        Some(None) => match min_resource_fee {
            Some(Some(v)) => v,
            _ => 0,
        },
        None => match fee_in_lines(combined) {
            Some(v) => v,
            None => 0,
        },
    }
}

/// The fee, in stroops, that a simulation printed on `stdout` and `stderr`.
pub fn parse_fee_stroops(stdout: &str, stderr: &str) -> (r: u64)
    ensures
        ({
            let text = trimmed(stdout@);
            let fee = json_u64_member(text, "fee"@);
            r == reported_fee(
                fee,
                if fee == Some(None::<u64>) {
                    json_u64_member(text, "min_resource_fee"@)
                } else {
                    None
                },
                stdout@ + stderr@,
            )
        }),
{
    let text = trim(stdout);
    let fee = json_u64_lookup(text, "fee");
    let min_resource_fee = match fee {
        Some(None) => json_u64_lookup(text, "min_resource_fee"),
        _ => None,
    };
    let combined = concat(stdout, stderr);
    fee_from_simulation(fee, min_resource_fee, combined.as_str())
}

} // verus!
