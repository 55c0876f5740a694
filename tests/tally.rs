use iapyx::data::DataFormatError;
use iapyx::snapshot::{read_initials, Initial, InitialFund};
use iapyx::tally::{
    tally_proposal, CastVote, PlanTally, TallyAction, TallyCoordinator, TallyProtocolError,
    TallyState,
};
use iapyx::vote::{VoteError, Wallet};

const BLANK: u8 = 0;
const YES: u8 = 1;
const NO: u8 = 2;

fn cast(wallet: &mut Wallet, plan: &Vec<u8>, index: u8, choice: u8) -> CastVote {
    let d = wallet.vote_for(plan, index, choice).unwrap();
    CastVote { vote_plan_id: d.vote_plan_id, proposal_index: d.proposal_index, choice: d.choice }
}

#[test]
fn three_wallets_yes_yes_no() {
    let plan = vec![1u8; 32];
    let mut david = Wallet { counter: Some(0) };
    let mut edgar = Wallet { counter: Some(0) };
    let mut filip = Wallet { counter: Some(0) };
    let votes = vec![
        cast(&mut david, &plan, 0, YES),
        cast(&mut edgar, &plan, 0, YES),
        cast(&mut filip, &plan, 0, NO),
    ];
    assert_eq!(tally_proposal(&votes, &plan, 0, 3), vec![0, 2, 1]);
    assert_eq!(tally_proposal(&votes, &plan, 1, 3), vec![0, 0, 0]);
}

#[test]
fn public_votes_over_two_plans() {
    let plan1 = vec![1u8; 32];
    let plan2 = vec![2u8; 32];
    let mut david = Wallet { counter: Some(0) };
    let mut edgar = Wallet { counter: Some(4) };
    let mut filip = Wallet { counter: Some(9) };
    let votes = vec![
        cast(&mut david, &plan1, 0, YES),
        cast(&mut edgar, &plan2, 0, YES),
        cast(&mut filip, &plan1, 0, NO),
    ];
    assert_eq!(tally_proposal(&votes, &plan1, 0, 3), vec![0, 1, 1]);
    assert_eq!(tally_proposal(&votes, &plan2, 0, 3), vec![0, 1, 0]);
    assert_eq!(tally_proposal(&votes, &plan2, 0, 0), Vec::<u64>::new());
    assert_eq!(BLANK, 0);
}

#[test]
fn wallet_counter_advances_per_vote() {
    let plan = vec![3u8; 32];
    let mut w = Wallet { counter: Some(7) };
    assert_eq!(w.vote_for(&plan, 2, YES).unwrap().counter, 7);
    assert_eq!(w.vote_for(&plan, 2, YES).unwrap().counter, 8);
    assert_eq!(w.counter, Some(9));
}

#[test]
fn wallet_without_counter_cannot_vote() {
    let plan = vec![3u8; 32];
    let mut w = Wallet { counter: None };
    assert_eq!(w.vote_for(&plan, 0, YES), Err(VoteError::WalletStateError));
    let mut full = Wallet { counter: Some(u32::MAX) };
    assert_eq!(full.vote_for(&plan, 0, YES), Err(VoteError::WalletStateError));
}

#[test]
fn refused_vote_drops_the_counter() {
    let mut w = Wallet { counter: Some(3) };
    assert_eq!(w.settle(Some(42)), Ok(42));
    assert_eq!(w.counter, Some(3));
    assert_eq!(w.settle(None), Err(VoteError::SubmissionRejected));
    assert_eq!(w.counter, None);
}

#[test]
fn run_before_tally_start_submits_nothing() {
    let mut p = PlanTally::new(vec![1u8; 32], 100, 1, 3);
    assert_eq!(p.run(10), TallyAction::Wait);
    assert_eq!(p.run(99), TallyAction::Wait);
    assert_eq!(p.submissions, 0);
    assert_eq!(p.state, TallyState::Open);
}

#[test]
fn full_private_tally_cycle() {
    let id = vec![1u8; 32];
    let mut p = PlanTally::new(id.clone(), 100, 2, 3);
    assert_eq!(p.run(100), TallyAction::SubmitEncryptedTally);
    assert_eq!(p.run(101), TallyAction::Wait);
    assert_eq!(p.submissions, 1);
    assert_eq!(p.add_share(&id, vec![9]), Err(TallyProtocolError::OutOfOrder));
    assert_eq!(p.confirm(), Ok(TallyAction::Wait));
    assert_eq!(p.state, TallyState::AwaitingShares);
    assert_eq!(p.add_share(&id, vec![9]), Ok(TallyAction::Wait));
    assert_eq!(p.add_share(&id, vec![8]), Ok(TallyAction::SubmitDecryptedTally));
    assert_eq!(p.shares, vec![vec![9], vec![8]]);
    assert_eq!(p.submissions, 2);
    assert_eq!(p.confirm(), Ok(TallyAction::Finished));
    assert_eq!(p.state, TallyState::Closed);
    assert_eq!(p.run(500), TallyAction::Finished);
    assert_eq!(p.confirm(), Err(TallyProtocolError::OutOfOrder));
}

#[test]
fn share_for_another_plan_is_refused() {
    let a = vec![1u8; 32];
    let b = vec![2u8; 32];
    let mut plan_b = PlanTally::new(b.clone(), 0, 1, 0);
    plan_b.run(0);
    plan_b.confirm().unwrap();
    assert_eq!(plan_b.add_share(&a, vec![5]), Err(TallyProtocolError::WrongVotePlan));
    assert_eq!(plan_b.state, TallyState::AwaitingShares);
    assert!(plan_b.shares.is_empty());
    assert_eq!(plan_b.add_share(&b, vec![5]), Ok(TallyAction::SubmitDecryptedTally));
}

#[test]
fn refused_submission_is_retried_then_fails() {
    let id = vec![1u8; 32];
    let mut p = PlanTally::new(id, 0, 1, 2);
    p.run(0);
    assert_eq!(p.reject(), Ok(TallyAction::SubmitEncryptedTally));
    assert_eq!(p.reject(), Ok(TallyAction::SubmitEncryptedTally));
    assert_eq!(p.reject(), Err(TallyProtocolError::RetriesExhausted));
    assert_eq!(p.state, TallyState::Failed);
    assert_eq!(p.submissions, 3);
    assert_eq!(p.run(10), TallyAction::GaveUp);
    assert_eq!(p.reject(), Err(TallyProtocolError::OutOfOrder));
}

#[test]
fn coordinator_keeps_plans_apart() {
    let a = vec![1u8; 32];
    let b = vec![2u8; 32];
    let mut c = TallyCoordinator::new();
    c.add_plan(PlanTally::new(a.clone(), 10, 1, 0)).unwrap();
    c.add_plan(PlanTally::new(b.clone(), 50, 1, 0)).unwrap();
    assert_eq!(
        c.add_plan(PlanTally::new(a.clone(), 0, 1, 0)),
        Err(TallyProtocolError::WrongVotePlan)
    );
    assert_eq!(c.run_all(20), vec![TallyAction::SubmitEncryptedTally, TallyAction::Wait]);
    assert_eq!(c.plans[1].submissions, 0);
    assert_eq!(c.plans[0].confirm(), Ok(TallyAction::Wait));
    assert_eq!(c.add_share(&b, vec![1]), Err(TallyProtocolError::OutOfOrder));
    assert_eq!(c.add_share(&vec![3u8; 32], vec![1]), Err(TallyProtocolError::WrongVotePlan));
    assert_eq!(c.add_share(&a, vec![1]), Ok(TallyAction::SubmitDecryptedTally));
    assert_eq!(c.run(&b, 60), Ok(TallyAction::SubmitEncryptedTally));
    assert_eq!(c.run(&vec![3u8; 32], 60), Err(TallyProtocolError::WrongVotePlan));
}

#[test]
fn initials_without_section_is_an_error() {
    assert_eq!(read_initials(r#"{"blockchain_configuration": {}}"#), Err(DataFormatError::MissingInitial));
    assert_eq!(read_initials("not json"), Err(DataFormatError::BadDocument));
    assert_eq!(read_initials(r#"{"initial": 5}"#), Err(DataFormatError::BadDocument));
}

#[test]
fn initials_are_read() {
    let doc = r#"{"initial": [
        {"fund": [{"address": "ca1abc", "value": 10000}, {"address": "ca1def", "value": 5}]},
        {"cert": "cert1xyz"}
    ]}"#;
    assert_eq!(
        read_initials(doc),
        Ok(vec![
            Initial::Fund(vec![
                InitialFund { address: "ca1abc".to_string(), value: 10000 },
                InitialFund { address: "ca1def".to_string(), value: 5 },
            ]),
            Initial::Cert("cert1xyz".to_string()),
        ])
    );
    assert_eq!(read_initials(r#"{"initial": []}"#), Ok(vec![]));
    assert_eq!(
        read_initials(r#"{"initial": [{"fund": [{"address": "a"}]}]}"#),
        Err(DataFormatError::BadDocument)
    );
}

#[test]
fn coordinator_failure_of_one_plan_leaves_the_other() {
    let a = vec![1u8; 32];
    let b = vec![2u8; 32];
    let mut c = TallyCoordinator::new();
    c.add_plan(PlanTally::new(a.clone(), 0, 1, 0)).unwrap();
    c.add_plan(PlanTally::new(b.clone(), 0, 1, 1)).unwrap();
    c.run_all(0);
    assert_eq!(c.reject(&a), Err(TallyProtocolError::RetriesExhausted));
    assert_eq!(c.plans[0].state, TallyState::Failed);
    assert_eq!(c.reject(&b), Ok(TallyAction::SubmitEncryptedTally));
    assert_eq!(c.confirm(&b), Ok(TallyAction::Wait));
    assert_eq!(c.plans[1].state, TallyState::AwaitingShares);
    assert_eq!(c.confirm(&vec![9u8; 32]), Err(TallyProtocolError::WrongVotePlan));
    assert_eq!(c.run_all(5), vec![TallyAction::GaveUp, TallyAction::Wait]);
}

#[test]
fn initials_need_the_section_itself() {
    assert_eq!(read_initials("{}"), Err(DataFormatError::MissingInitial));
    assert_eq!(read_initials(r#"{"other": []}"#), Err(DataFormatError::MissingInitial));
    assert_eq!(read_initials("[1, 2]"), Err(DataFormatError::MissingInitial));
    assert_eq!(read_initials(""), Err(DataFormatError::BadDocument));
    assert_eq!(read_initials(r#"{"initial": null}"#), Err(DataFormatError::BadDocument));
    assert_eq!(read_initials(r#"{"initial": {"fund": []}}"#), Err(DataFormatError::BadDocument));
}

#[test]
fn initials_malformed_entries() {
    assert_eq!(read_initials(r#"{"initial": [{"fund": 3}]}"#), Err(DataFormatError::BadDocument));
    assert_eq!(read_initials(r#"{"initial": [{"cert": 3}]}"#), Err(DataFormatError::BadDocument));
    assert_eq!(read_initials(r#"{"initial": [{"other": "x"}]}"#), Err(DataFormatError::BadDocument));
    assert_eq!(
        read_initials(r#"{"initial": [{"fund": [{"address": "a", "value": -1}]}]}"#),
        Err(DataFormatError::BadDocument)
    );
    assert_eq!(
        read_initials(r#"{"initial": [{"cert": "c"}, 7]}"#),
        Err(DataFormatError::BadDocument)
    );
}

#[test]
fn initials_depend_on_the_section_alone() {
    let a = read_initials(r#"{"initial": [{"legacy_fund": [{"address": "x", "value": 1}]}]}"#);
    let b = read_initials(
        r#"{"blockchain_configuration": {"block0_date": 0}, "initial": [{"legacy_fund": [{"value": 1, "address": "x"}]}]}"#,
    );
    assert_eq!(a, b);
    assert_eq!(
        a,
        Ok(vec![Initial::LegacyFund(vec![InitialFund { address: "x".to_string(), value: 1 }])])
    );
}
