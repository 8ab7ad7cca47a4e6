use bot::components::gui_bridge::BotState;
use bot::components::multi_agent_rl::{
    available_actions, execution_plan, scout_proceeds, validator_approves, AgentAction, AgentType,
    ExecutionPlan,
};
use bot::components::provenance_graph::DID;
use bot::components::quantum_pruner::{
    classify_path_type, generate_suggested_code, suggestion_for, PathType, SuggestionType,
};
use bot::Pubkey;

#[test]
fn test_bot_state_default() {
    let state: BotState = Default::default();
    assert_eq!(state, BotState::Stopped);
}

#[test]
fn test_did_parsing() {
    let did_str = "did:solana:ABC123";
    let did = DID::from_string(did_str).unwrap();
    assert_eq!(did.method, "solana");
    assert_eq!(did.identifier, "ABC123");
}

#[test]
fn test_did_creation() {
    let mut b = [0u8; 32];
    b[3] = 1;
    for (k, x) in b.iter_mut().enumerate().skip(4) {
        *x = k as u8 * 7 + 1;
    }
    let pubkey = Pubkey::new_from_array(b);
    let did = DID::from_pubkey(&pubkey);
    assert_eq!(did.method, "solana");
    assert_eq!(did.to_string(), format!("did:solana:{}", bs58::encode(b).into_string()));
}

#[test]
fn did_of_the_system_program_is_all_ones() {
    let did = DID::from_pubkey(&Pubkey::new_from_array([0u8; 32]));
    assert_eq!(did.identifier, "11111111111111111111111111111111");
}

#[test]
fn did_of_a_hash_uses_base58() {
    let did = DID::from_hash(&[0, 0, 1, 2, 3]);
    assert_eq!(did.method, "key");
    assert_eq!(did.identifier, "11Ldp");
    assert_eq!(did.to_string(), "did:key:11Ldp");
}

#[test]
fn did_parsing_refuses_malformed_text() {
    assert_eq!(DID::from_string("did:solana").unwrap_err(), "Invalid DID format: did:solana");
    assert_eq!(DID::from_string("dad:solana:x").unwrap_err(), "Invalid DID format: dad:solana:x");
    assert!(DID::from_string("did:a:b:c").is_err());
    let empty = DID::from_string("did::").unwrap();
    assert_eq!(empty.method, "");
    assert_eq!(empty.identifier, "");
}

#[test]
fn did_text_parses_back_to_the_same_did() {
    let did = DID::from_hash(b"some source");
    let parsed = DID::from_string(&did.to_string()).unwrap();
    assert_eq!(parsed, did);
}

#[test]
fn did_verifies_the_proof_whose_digest_it_names() {
    // SHA-256("abc") in base58
    let digest_b58 = bs58::encode([
        0xba, 0x78, 0x16, 0xbf, 0x8f, 0x01, 0xcf, 0xea, 0x41, 0x41, 0x40, 0xde, 0x5d, 0xae, 0x22, 0x23,
        0xb0, 0x03, 0x61, 0xa3, 0x96, 0x17, 0x7a, 0x9c, 0xb4, 0x10, 0xff, 0x61, 0xf2, 0x00, 0x15, 0xad,
    ])
    .into_string();
    let did = DID::from_string(&format!("did:key:{}", digest_b58)).unwrap();
    assert!(did.verify(b"abc"));
    assert!(!did.verify(b"abd"));
}

#[test]
fn test_path_classification() {
    assert_eq!(classify_path_type("panic!"), PathType::Panic);
    assert_eq!(classify_path_type("unwrap_err"), PathType::Error);
    assert_eq!(classify_path_type("todo!"), PathType::EdgeCase);
    assert_eq!(classify_path_type("something else"), PathType::Happy);
}

#[test]
fn suggestions_follow_the_path_kind() {
    assert_eq!(suggestion_for(PathType::Panic), SuggestionType::ReplaceWithResult);
    assert_eq!(suggestion_for(PathType::EdgeCase), SuggestionType::ImplementOrRemove);
    assert_eq!(suggestion_for(PathType::Error), SuggestionType::AddColdAttribute);
    assert_eq!(generate_suggested_code(PathType::Error, "x.unwrap_err()"), "#[cold]\nx.unwrap_err()");
    assert_eq!(
        generate_suggested_code(PathType::Panic, "panic!()"),
        "return Err(anyhow::anyhow!(\"Error condition\"))"
    );
}

#[test]
fn agents_have_their_own_actions() {
    assert_eq!(available_actions(AgentType::Validator), vec![AgentAction::ApproveHigh, AgentAction::ApproveLow, AgentAction::Reject]);
    assert_eq!(available_actions(AgentType::Scout).len(), 4);
    assert_eq!(available_actions(AgentType::Executor)[3], AgentAction::Skip);
    assert!(scout_proceeds(AgentAction::ScanBalanced));
    assert!(!scout_proceeds(AgentAction::Wait));
    assert!(validator_approves(AgentAction::ApproveLow));
    assert!(!validator_approves(AgentAction::Reject));
    assert_eq!(execution_plan(AgentAction::ExecuteDelayed), ExecutionPlan::Delayed { delay_ms: 500 });
    assert_eq!(execution_plan(AgentAction::Wait), ExecutionPlan::InvalidAction);
}
