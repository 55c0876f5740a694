use iapyx::data::{Category, DataFormatError, Proposal, Proposer, VitVersion, VoteOptions, Voteplan};
use iapyx::instruction::{ConversionError, Payload};

const PLAN_ID: &str = "0a1b2c3d4e5f60718293a4b5c6d7e8f90a1b2c3d4e5f60718293a4b5c6d7e8f9";

fn plan_bytes() -> Vec<u8> {
    vec![
        0x0a, 0x1b, 0x2c, 0x3d, 0x4e, 0x5f, 0x60, 0x71, 0x82, 0x93, 0xa4, 0xb5, 0xc6, 0xd7, 0xe8,
        0xf9, 0x0a, 0x1b, 0x2c, 0x3d, 0x4e, 0x5f, 0x60, 0x71, 0x82, 0x93, 0xa4, 0xb5, 0xc6, 0xd7,
        0xe8, 0xf9,
    ]
}

fn options(labels: &[(&str, u8)]) -> VoteOptions {
    VoteOptions(labels.iter().map(|(l, c)| (l.to_string(), *c)).collect())
}

fn proposal(plan_id: &str, payload: &str, opts: VoteOptions) -> Proposal {
    Proposal {
        internal_id: 1,
        proposal_id: "1".to_string(),
        proposal_category: Category {
            category_id: "c".to_string(),
            category_name: "name".to_string(),
            category_description: "desc".to_string(),
        },
        proposal_title: "title".to_string(),
        proposal_summary: "summary".to_string(),
        proposal_problem: None,
        proposal_solution: Some("solution".to_string()),
        proposal_public_key: "key".to_string(),
        proposal_funds: 10_000,
        proposal_url: "http://example.com".to_string(),
        proposal_files_url: "http://example.com/files".to_string(),
        proposer: Proposer {
            proposer_name: "david".to_string(),
            proposer_email: "david@example.com".to_string(),
            proposer_url: "http://example.com/david".to_string(),
        },
        chain_proposal_id: b"proposal-0001".to_vec(),
        chain_proposal_index: 0,
        chain_vote_options: opts,
        chain_voteplan_id: plan_id.to_string(),
        chain_voteplan_payload: payload.to_string(),
        chain_vote_encryption_key: "p256k1_votepk1qwerty".to_string(),
    }
}

fn three_options() -> VoteOptions {
    options(&[("blank", 0), ("yes", 1), ("no", 2)])
}

#[test]
fn public_proposal_keeps_plan_id_and_ignores_key() {
    let p = proposal(PLAN_ID, "public", three_options());
    let a = p.to_voting_instruction(None).unwrap();
    let b = p.to_voting_instruction(Some(vec![1, 2, 3])).unwrap();
    assert_eq!(a, b);
    assert_eq!(a.vote_plan_id, plan_bytes());
    assert_eq!(a.proposal_index, 0);
    assert_eq!(a.num_options, 3);
    assert_eq!(a.payload, Payload::Public);
}

#[test]
fn upper_case_plan_id_decodes_alike() {
    let p = proposal(&PLAN_ID.to_uppercase(), "public", three_options());
    assert_eq!(p.to_voting_instruction(None).unwrap().vote_plan_id, plan_bytes());
}

#[test]
fn longer_plan_id_is_cut_to_its_first_bytes() {
    let long = format!("{}ffee", PLAN_ID);
    let p = proposal(&long, "public", three_options());
    assert_eq!(p.to_voting_instruction(None).unwrap().vote_plan_id, plan_bytes());
}

#[test]
fn short_plan_id_is_refused() {
    let p = proposal(&PLAN_ID[..62], "public", three_options());
    assert_eq!(p.to_voting_instruction(None), Err(ConversionError::InvalidVotePlanId));
}

#[test]
fn bad_hex_plan_id_is_refused() {
    let bad = format!("zz{}", &PLAN_ID[2..]);
    let p = proposal(&bad, "public", three_options());
    assert_eq!(p.to_voting_instruction(None), Err(ConversionError::InvalidVotePlanId));
    let odd = format!("{}a", PLAN_ID);
    let p = proposal(&odd, "public", three_options());
    assert_eq!(p.to_voting_instruction(None), Err(ConversionError::InvalidVotePlanId));
}

#[test]
fn option_count_bounds() {
    let p = proposal(PLAN_ID, "public", options(&[]));
    assert_eq!(p.to_voting_instruction(None), Err(ConversionError::InvalidOptionCount));
    let many: Vec<(String, u8)> = (0..17u8).map(|i| (format!("o{}", i), i)).collect();
    let p = proposal(PLAN_ID, "public", VoteOptions(many.clone()));
    assert_eq!(p.to_voting_instruction(None), Err(ConversionError::InvalidOptionCount));
    let p = proposal(PLAN_ID, "public", VoteOptions(many[..16].to_vec()));
    assert_eq!(p.to_voting_instruction(None).unwrap().num_options, 16);
}

#[test]
fn proposal_index_is_truncated_to_a_byte() {
    let mut p = proposal(PLAN_ID, "public", three_options());
    p.chain_proposal_index = 300;
    assert_eq!(p.to_voting_instruction(None).unwrap().proposal_index, 44);
}

#[test]
fn private_proposal_needs_a_decoded_key() {
    let p = proposal(PLAN_ID, "private", three_options());
    assert_eq!(p.to_voting_instruction(None), Err(ConversionError::InvalidEncryptionKey));
    let ins = p.to_voting_instruction(Some(vec![7, 8, 9])).unwrap();
    assert_eq!(ins.payload, Payload::Private { encryption_key: vec![7, 8, 9] });
    assert_eq!(ins.vote_plan_id, plan_bytes());
}

#[test]
fn payload_tag_is_case_sensitive() {
    let p = proposal(PLAN_ID, "Public", three_options());
    assert_eq!(p.to_voting_instruction(None), Err(ConversionError::InvalidEncryptionKey));
}

#[test]
fn option_text_of_each_choice() {
    let p = proposal(PLAN_ID, "public", three_options());
    assert_eq!(p.get_option_text(0), "blank");
    assert_eq!(p.get_option_text(1), "yes");
    assert_eq!(p.get_option_text(2), "no");
}

#[test]
fn option_text_with_duplicate_codes_is_the_first() {
    let p = proposal(PLAN_ID, "public", options(&[("yes", 1), ("aye", 1), ("no", 2)]));
    assert_eq!(p.get_option_text(1), "yes");
    assert_eq!(p.get_option_text(1), "yes");
    assert_eq!(p.chain_vote_options.label_of(5), None);
}

#[test]
fn proposal_id_as_text() {
    let mut p = proposal(PLAN_ID, "public", three_options());
    assert_eq!(p.chain_proposal_id_as_str(), Ok("proposal-0001".to_string()));
    p.chain_proposal_id = vec![0xff, 0xfe];
    assert_eq!(p.chain_proposal_id_as_str(), Err(DataFormatError::NotUtf8));
}

#[test]
fn vit_version_values() {
    assert_eq!(VitVersion::default().version(), "2.0");
    assert_eq!(VitVersion::new("3.1".to_string()).version(), "3.1");
}

#[test]
fn resolved_proposal_takes_the_plan_fields() {
    let p = proposal("stale", "public", three_options());
    let plan = Voteplan {
        id: 3,
        chain_voteplan_id: PLAN_ID.to_string(),
        chain_vote_start_time: 0,
        chain_vote_end_time: 1,
        chain_committee_end_time: 2,
        chain_voteplan_payload: "private".to_string(),
        chain_vote_encryption_key: "fresh-key".to_string(),
        fund_id: 1,
    };
    let r = p.clone().resolved(&plan);
    assert_eq!(r.chain_voteplan_id, PLAN_ID);
    assert_eq!(r.chain_voteplan_payload, "private");
    assert_eq!(r.chain_vote_encryption_key, "fresh-key");
    assert_eq!(r.proposal_title, p.proposal_title);
    assert_eq!(p.to_voting_instruction(None), Err(ConversionError::InvalidVotePlanId));
    assert_eq!(r.to_voting_instruction(None), Err(ConversionError::InvalidEncryptionKey));
}

#[test]
fn option_labels_uniqueness() {
    assert!(three_options().has_unique_labels());
    assert!(!options(&[("yes", 1), ("no", 2), ("yes", 3)]).has_unique_labels());
    assert!(options(&[]).has_unique_labels());
}
