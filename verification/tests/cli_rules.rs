use star_escrow::cli::{
    create_args, created_among, created_escrows_in, deployed_contract_id, env_file_contents,
    escrow_listing, estimate_fee_function, fee_from_simulation, friendbot_url, funds_with_friendbot,
    init_args, invoke_args, network_preset, parse_fee_stroops, select_created_events,
    transfer_args, wasm_hash_hex,
};
use star_escrow::documents::{
    action_reply, create_reply, decimal_text, export_document, signed_text, status_document,
    transfer_reply,
};
use serde_json::Value;
use star_escrow::text::{is_blank, trim};

#[test]
fn operations_map_to_contract_functions() {
    assert_eq!(estimate_fee_function("create"), Some("create".to_string()));
    assert_eq!(estimate_fee_function("submit-work"), Some("submit_work".to_string()));
    assert_eq!(estimate_fee_function("approve"), Some("approve".to_string()));
    assert_eq!(estimate_fee_function("cancel"), Some("cancel".to_string()));
    assert_eq!(estimate_fee_function("expire"), Some("expire".to_string()));
    assert_eq!(estimate_fee_function("submit_work"), None);
    assert_eq!(estimate_fee_function(""), None);
}

#[test]
fn fee_read_from_json_output() {
    assert_eq!(parse_fee_stroops("  {\"fee\": 1234}\n", ""), 1234);
    assert_eq!(parse_fee_stroops("{\"min_resource_fee\": 55}", "fee 99"), 55);
    assert_eq!(parse_fee_stroops("{\"fee\": \"12\", \"min_resource_fee\": 7}", ""), 7);
    assert_eq!(parse_fee_stroops("{\"other\": 1}", "fee: 5"), 0);
    assert_eq!(parse_fee_stroops("[1, 2]", ""), 0);
}

#[test]
fn fee_read_from_text_output() {
    assert_eq!(parse_fee_stroops("simulated\nResource FEE: 4321 stroops\n", ""), 4321);
    assert_eq!(parse_fee_stroops("no json here", "warning\nfee=(77)"), 77);
    assert_eq!(parse_fee_stroops("Fee: abc x7y8 42", ""), 42);
    assert_eq!(parse_fee_stroops("fee none\nfee 3\n", ""), 3);
    assert_eq!(parse_fee_stroops("fee 99999999999999999999", ""), 0);
    assert_eq!(parse_fee_stroops("cost 12\nnothing", ""), 0);
    assert_eq!(parse_fee_stroops("FeE\t\u{00a0}0008", ""), 8);
}

#[test]
fn fee_from_lookups_prefers_fee_member() {
    assert_eq!(fee_from_simulation(Some(Some(3)), Some(Some(4)), "fee 5"), 3);
    assert_eq!(fee_from_simulation(Some(None), Some(Some(4)), "fee 5"), 4);
    assert_eq!(fee_from_simulation(Some(None), None, "fee 5"), 0);
    assert_eq!(fee_from_simulation(None, None, "fee 5"), 5);
    assert_eq!(fee_from_simulation(None, None, "nothing"), 0);
}

#[test]
fn invoke_arguments_in_order() {
    let extra = vec!["--new-freelancer".to_string(), "GABC".to_string()];
    let args = invoke_args("https://rpc", "pass", "CID", "SECRET", false, "transfer_freelancer", &extra);
    assert_eq!(
        args,
        vec![
            "contract", "invoke", "--id", "CID", "--rpc-url", "https://rpc", "--network-passphrase",
            "pass", "--source", "SECRET", "--", "transfer_freelancer", "--new-freelancer", "GABC",
        ]
    );
    let args = invoke_args("r", "p", "c", "s", true, "approve", &Vec::new());
    assert_eq!(
        args,
        vec!["contract", "invoke", "--id", "c", "--rpc-url", "r", "--network-passphrase", "p", "--source", "s", "--sim-only", "--", "approve"]
    );
}

#[test]
fn setup_wizard_texts() {
    let (rpc, pass) = network_preset(0).unwrap();
    assert_eq!(rpc, "https://soroban-testnet.stellar.org");
    assert_eq!(pass, "Test SDF Network ; September 2015");
    let (rpc, pass) = network_preset(1).unwrap();
    assert_eq!(rpc, "https://soroban-mainnet.stellar.org");
    assert_eq!(pass, "Public Global Stellar Network ; September 2015");
    assert!(network_preset(2).is_none());
    assert_eq!(
        env_file_contents("CID", "SK", "https://rpc", "pass"),
        "ESCROW_CONTRACT_ID=CID\nADMIN_SECRET=SK\nPAYER_SECRET=SK\nFREELANCER_SECRET=\nRPC_URL=https://rpc\nNETWORK_PASSPHRASE=pass\n"
    );
    assert_eq!(friendbot_url("GXYZ"), "https://friendbot.stellar.org?addr=GXYZ");
}

#[test]
fn created_events_of_a_payer() {
    let events = vec![
        ("escrow_created".to_string(), "GA".to_string()),
        ("work_submitted".to_string(), "GA".to_string()),
        ("escrow_created".to_string(), "GB".to_string()),
        ("escrow_created".to_string(), "GA".to_string()),
    ];
    assert_eq!(select_created_events(&events, "GA"), vec![0, 3]);
    assert_eq!(select_created_events(&events, "GC"), Vec::<usize>::new());
}

#[test]
fn wasm_hash_is_sha256_hex() {
    assert_eq!(
        wasm_hash_hex(b"abc"),
        "ba7816bf8f01cfea414140de5dae2223b00361a396177a9cb410ff61f20015ad"
    );
    assert_eq!(
        wasm_hash_hex(b""),
        "e3b0c44298fc1c149afbf4c8996fb92427ae41e4649b934ca495991b7852b855"
    );
}

#[test]
fn blank_and_trim() {
    assert!(is_blank(" \t\n\u{3000}"));
    assert!(is_blank(""));
    assert!(!is_blank(" x "));
    assert_eq!(trim("\u{2009} a b \n"), "a b");
    assert_eq!(trim("   "), "");
}

#[test]
fn created_escrows_read_from_event_json() {
    let raw = r#"[
        {"topic": ["escrow_created"], "value": ["GA", "GF", 100, "m1"]},
        {"topic": ["work_submitted"], "value": ["GA"]},
        {"topic": ["escrow_created"], "value": ["GB", "GF", 5, "m2"]},
        {"topic": ["escrow_created"], "value": [7]},
        {"topic": ["escrow_created"], "value": ["GA", "GF", 9, "m3"]}
    ]"#;
    assert_eq!(created_escrows_in(raw, "GA"), vec![0, 4]);
    assert_eq!(created_escrows_in(raw, "GB"), vec![2]);
    // A value that is no string reads as empty text.
    assert_eq!(created_escrows_in(raw, ""), vec![3]);
    assert_eq!(created_escrows_in(raw, "GC"), Vec::<usize>::new());
}

#[test]
fn event_output_that_is_no_json_array_lists_nothing() {
    assert_eq!(created_escrows_in("not json", ""), Vec::<usize>::new());
    assert_eq!(created_escrows_in(r#"{"topic": ["escrow_created"]}"#, ""), Vec::<usize>::new());
    assert_eq!(created_among(&None, ""), Vec::<usize>::new());
}

#[test]
fn missing_event_fields_read_as_empty_text() {
    let field = |t: Option<&str>| (t.map(|x| x.to_string()), String::new());
    let rows = vec![
        vec![field(Some("escrow_created")), field(None)],
        vec![field(None), field(Some("GA"))],
        vec![field(Some("escrow_created")), field(Some("GA"))],
        vec![field(Some("escrow_created"))],
    ];
    assert_eq!(created_among(&Some(rows.clone()), ""), vec![0, 3]);
    assert_eq!(created_among(&Some(rows), "GA"), vec![2]);
}

#[test]
fn listing_summarises_the_payers_escrows() {
    let raw = r#"[
        {"topic": ["escrow_created"], "value": ["GA", "GF", 100, "logo"]},
        {"topic": ["escrow_created"], "value": ["GB", "GG", 5, "site"]},
        {"topic": ["escrow_created"], "value": ["GA", 7]}
    ]"#;
    let listing = escrow_listing("C1", raw, "GA");
    assert_eq!(listing.entries.len(), 2);
    let e = &listing.entries[0];
    assert_eq!((e.contract_id.as_str(), e.milestone.as_str(), e.amount.as_str(), e.freelancer.as_str()),
        ("C1", "logo", "100", "GF"));
    let e = &listing.entries[1];
    assert_eq!((e.contract_id.as_str(), e.milestone.as_str(), e.amount.as_str(), e.freelancer.as_str()),
        ("C1", "-", "null", "-"));
    let v: Value = serde_json::from_str(&listing.document).unwrap();
    let expected: Value = serde_json::from_str(r#"{"escrows": [
        {"contract_id": "C1", "payer": "GA", "freelancer": "GF", "amount": 100, "milestone": "logo"},
        {"contract_id": "C1", "payer": "GA", "freelancer": 7, "amount": null, "milestone": null}
    ]}"#).unwrap();
    assert_eq!(v, expected);
}

#[test]
fn empty_listing() {
    let listing = escrow_listing("C1", "no events", "GA");
    assert!(listing.entries.is_empty());
    let v: Value = serde_json::from_str(&listing.document).unwrap();
    assert_eq!(v, serde_json::from_str::<Value>(r#"{"escrows": []}"#).unwrap());
}

#[test]
fn numbers_in_decimal() {
    assert_eq!(decimal_text(0), "0");
    assert_eq!(decimal_text(1207), "1207");
    assert_eq!(decimal_text(u128::MAX), u128::MAX.to_string());
    assert_eq!(signed_text(-45), "-45");
    assert_eq!(signed_text(i128::MIN), i128::MIN.to_string());
    assert_eq!(signed_text(i128::MAX), i128::MAX.to_string());
}

#[test]
fn command_arguments() {
    assert_eq!(init_args("GADM", 250, "GCOL"), vec!["--admin", "GADM", "--fee-bps", "250", "--fee-collector", "GCOL"]);
    assert_eq!(
        create_args("GP", "GF", "GT", 5000, "logo", None),
        vec!["--payer", "GP", "--freelancer", "GF", "--token", "GT", "--amount", "5000", "--milestone", "logo", "--deadline", "null"]
    );
    assert_eq!(create_args("GP", "GF", "GT", -1, "m", Some(86400))[11], "86400");
    assert_eq!(transfer_args("GN"), vec!["--new-freelancer", "GN"]);
}

#[test]
fn command_replies() {
    let v: Value = serde_json::from_str(&action_reply("approve")).unwrap();
    assert_eq!(v, serde_json::from_str::<Value>(r#"{"status": "ok", "action": "approve"}"#).unwrap());
    let v: Value = serde_json::from_str(&transfer_reply("GN")).unwrap();
    assert_eq!(v, serde_json::from_str::<Value>(
        r#"{"status": "ok", "action": "transfer_freelancer", "new_freelancer": "GN"}"#).unwrap());
    let v: Value = serde_json::from_str(&create_reply("C1", "GP", "GF", 5000, "logo", None)).unwrap();
    assert_eq!(v, serde_json::from_str::<Value>(r#"{"status": "ok", "action": "create", "contract_id": "C1",
        "payer": "GP", "freelancer": "GF", "amount": 5000, "milestone": "logo", "deadline": null}"#).unwrap());
    let v: Value = serde_json::from_str(&create_reply("C1", "GP", "GF", 5, "m", Some(9))).unwrap();
    assert_eq!(v["deadline"], Value::from(9u64));
}

#[test]
fn setup_decisions() {
    assert!(funds_with_friendbot(0));
    assert!(!funds_with_friendbot(1));
    assert!(!funds_with_friendbot(2));
    assert_eq!(deployed_contract_id("  CABC123\n"), Some("CABC123"));
    assert_eq!(deployed_contract_id(" \n"), None);
    assert_eq!(deployed_contract_id(""), None);
}

#[test]
fn export_of_blank_output_is_refused() {
    assert_eq!(export_document("C1", "net", "https://rpc", ""), None);
    assert_eq!(export_document("C1", "net", "https://rpc", " \n\t"), None);
}

#[test]
fn export_document_holds_the_escrow_json() {
    let doc = export_document("C1", "net", "https://rpc", "  {\"amount\": 5}\n").unwrap();
    let v: Value = serde_json::from_str(&doc).unwrap();
    let expected: Value = serde_json::from_str(
        r#"{"contract_id": "C1", "network": "net", "rpc_url": "https://rpc", "escrow": {"amount": 5}}"#,
    )
    .unwrap();
    assert_eq!(v, expected);
    assert!(doc.contains("\n  \"contract_id\": \"C1\""));
}

#[test]
fn export_document_keeps_non_json_output_as_text() {
    let doc = export_document("C1", "net", "u", "  Error: no escrow \n").unwrap();
    let v: Value = serde_json::from_str(&doc).unwrap();
    assert_eq!(v["escrow"], Value::String("Error: no escrow".to_string()));
    assert_eq!(v["contract_id"], Value::String("C1".to_string()));
}

#[test]
fn status_document_wraps_the_escrow() {
    let doc = status_document(" {\"status\": \"Active\"} ");
    let v: Value = serde_json::from_str(&doc).unwrap();
    let expected: Value =
        serde_json::from_str(r#"{"status": "ok", "escrow": {"status": "Active"}}"#).unwrap();
    assert_eq!(v, expected);
    let doc = status_document("plain text");
    let v: Value = serde_json::from_str(&doc).unwrap();
    assert_eq!(v["escrow"], Value::String("plain text".to_string()));
}
