//! Records of a funding round: funds, vote plans, proposals and challenges.

use vstd::prelude::*;
use vstd::string::StringExecFns;
use vstd::utf8::{decode_utf8, encode_utf8, valid_utf8};

verus! {

/// A funding round.
#[derive(Clone, Debug, PartialEq, Eq)]
pub struct Fund {
    pub id: i32,
    pub fund_name: String,
    pub fund_goal: String,
    pub voting_power_threshold: u32,
    pub rewards_info: String,
    pub fund_start_time: i64,
    pub fund_end_time: i64,
    pub next_fund_start_time: i64,
    pub registration_snapshot_time: String,
    pub chain_vote_plans: Vec<Voteplan>,
    pub challenges: Vec<Challenge>,
    pub voting_power_info: String,
}

/// A vote plan of a fund, bound to the ledger by `chain_voteplan_id`.
#[derive(Clone, Debug, PartialEq, Eq)]
pub struct Voteplan {
    pub id: i32,
    pub chain_voteplan_id: String,
    pub chain_vote_start_time: i64,
    pub chain_vote_end_time: i64,
    pub chain_committee_end_time: i64,
    pub chain_voteplan_payload: String,
    pub chain_vote_encryption_key: String,
    pub fund_id: i32,
}

#[derive(Clone, Debug, PartialEq, Eq)]
pub struct Category {
    pub category_id: String,
    pub category_name: String,
    pub category_description: String,
}

#[derive(Clone, Debug, PartialEq, Eq)]
pub struct Proposer {
    pub proposer_name: String,
    pub proposer_email: String,
    pub proposer_url: String,
}

/// A proposal, with denormalised copies of its vote plan's ledger id,
/// payload kind and encryption key.
#[derive(Clone, Debug, PartialEq, Eq)]
pub struct Proposal {
    pub internal_id: i64,
    pub proposal_id: String,
    pub proposal_category: Category,
    pub proposal_title: String,
    pub proposal_summary: String,
    pub proposal_problem: Option<String>,
    pub proposal_solution: Option<String>,
    pub proposal_public_key: String,
    pub proposal_funds: i64,
    pub proposal_url: String,
    pub proposal_files_url: String,
    pub proposer: Proposer,
    pub chain_proposal_id: Vec<u8>,
    pub chain_proposal_index: i64,
    pub chain_vote_options: VoteOptions,
    pub chain_voteplan_id: String,
    pub chain_voteplan_payload: String,
    pub chain_vote_encryption_key: String,
}

#[derive(Clone, Debug, PartialEq, Eq)]
pub struct Challenge {
    pub id: i32,
    pub challenge_type: ChallengeType,
    pub title: String,
    pub description: String,
    pub rewards_total: i64,
    pub proposers_rewards: i64,
    pub fund_id: i32,
    pub challenge_url: String,
}

#[derive(Clone, Copy, Debug, PartialEq, Eq)]
pub enum ChallengeType {
    Simple,
    CommunityChoice,
}

#[derive(Clone, Debug, PartialEq, Eq)]
pub struct ServiceVersion {
    pub service_version: String,
}

/// A vote as shown to a voter: the proposal, its title and the chosen label.
#[derive(Clone, Debug, PartialEq, Eq)]
pub struct SimpleVoteStatus {
    pub chain_proposal_id: String,
    pub proposal_title: String,
    pub choice: String,
}

/// The labels of a proposal's options, each with its choice code, in the
/// order in which they were given.
#[derive(Clone, Debug, PartialEq, Eq)]
pub struct VoteOptions(pub Vec<(String, u8)>);

/// A record's bytes were not what its format demands.
#[derive(Clone, Copy, Debug, PartialEq, Eq)]
pub enum DataFormatError {
    NotUtf8,
    BadTimestamp,
    BadHex,
    UnknownChallengeType,
    MissingInitial,
    BadDocument,
}

#[derive(Clone, Debug, PartialEq, Eq)]
pub struct VitVersion {
    service_version: String,
}

/// Whether some option of `opts` carries the code `choice`.
pub open spec fn has_choice(opts: Seq<(String, u8)>, choice: u8) -> bool {
    exists|i: int| 0 <= i < opts.len() && #[trigger] opts[i].1 == choice
}

/// `i` is the first position of `opts` whose code is `choice`.
pub open spec fn is_first_choice(opts: Seq<(String, u8)>, choice: u8, i: int) -> bool {
    &&& 0 <= i < opts.len()
    &&& opts[i].1 == choice
    &&& forall|j: int| 0 <= j < i ==> #[trigger] opts[j].1 != choice
}

/// Only one position is the first to carry a code, so the label found for
/// a code is the same on every lookup, duplicates or not.
pub proof fn lemma_first_choice_unique(opts: Seq<(String, u8)>, choice: u8, i: int, j: int)
    requires
        is_first_choice(opts, choice, i),
        is_first_choice(opts, choice, j),
    ensures
        i == j,
{
}

impl VoteOptions {
    /// The option labels are pairwise distinct.
    pub open spec fn wf(&self) -> bool {
        forall|i: int, j: int|
            0 <= i < j < self.0@.len() ==> #[trigger] self.0@[i].0@ != #[trigger] self.0@[j].0@
    }

    /// Whether no two options share a label.
    pub fn has_unique_labels(&self) -> (r: bool)
        ensures
            r == self.wf(),
    {
        let n = self.0.len();
        let mut i: usize = 0;
        while i < n
            invariant
                n == self.0@.len(),
                0 <= i <= n,
                forall|a: int, b: int|
                    0 <= a < i && a < b < n ==> #[trigger] self.0@[a].0@ != #[trigger] self.0@[b].0@,
            decreases n - i,
        {
            let mut j: usize = i + 1;
            while j < n
                invariant
                    n == self.0@.len(),
                    0 <= i < n,
                    i + 1 <= j <= n,
                    forall|a: int, b: int|
                        0 <= a < i && a < b < n ==> #[trigger] self.0@[a].0@ != #[trigger] self.0@[b].0@,
                    forall|b: int| i < b < j ==> self.0@[i as int].0@ != #[trigger] self.0@[b].0@,
                decreases n - j,
            {
                if self.0[i].0 == self.0[j].0 {
                    return false;
                }
                j = j + 1;
            }
            i = i + 1;
        }
        true
    }

    /// Number of options.
    pub fn len(&self) -> (r: usize)
        ensures
            r == self.0@.len(),
    {
        self.0.len()
    }

    /// The label of the first option whose code is `choice`.
    pub fn label_of(&self, choice: u8) -> (r: Option<String>)
        ensures
            r is None <==> !has_choice(self.0@, choice),
            r matches Some(s) ==> exists|i: int|
                is_first_choice(self.0@, choice, i) && s@ == self.0@[i].0@,
    {
        let mut k: usize = 0;
        while k < self.0.len()
            invariant
                0 <= k <= self.0@.len(),
                forall|j: int| 0 <= j < k ==> #[trigger] self.0@[j].1 != choice,
            decreases self.0@.len() - k,
        {
            if self.0[k].1 == choice {
                let label = self.0[k].0.clone();
                assert(is_first_choice(self.0@, choice, k as int));
                return Some(label);
            }
            k = k + 1;
        }
        None
    }
}

impl Proposal {
    /// The ledger proposal id read as UTF-8 text.
    pub fn chain_proposal_id_as_str(&self) -> (r: Result<String, DataFormatError>)
        ensures
            r is Ok <==> valid_utf8(self.chain_proposal_id@),
            r matches Ok(s) ==> s@ == decode_utf8(self.chain_proposal_id@),
            r matches Err(e) ==> e == DataFormatError::NotUtf8,
    {
        proposal_id_text(&self.chain_proposal_id)
    }

    /// The label of the option with code `choice`: the first such, should
    /// two options share a code.
    pub fn get_option_text(&self, choice: u8) -> (r: String)
        requires
            has_choice(self.chain_vote_options.0@, choice),
        ensures
            exists|i: int|
                is_first_choice(self.chain_vote_options.0@, choice, i)
                    && r@ == self.chain_vote_options.0@[i].0@,
    {
        match self.chain_vote_options.label_of(choice) {
            Some(s) => s,
            None => String::new(),
        }
    }
}

/// A ledger proposal id's bytes read as UTF-8 text.
pub fn proposal_id_text(b: &Vec<u8>) -> (r: Result<String, DataFormatError>)
    ensures
        r is Ok <==> valid_utf8(b@),
        r matches Ok(s) ==> s@ == decode_utf8(b@),
        r matches Err(e) ==> e == DataFormatError::NotUtf8,
{
    match utf8_text(b) {
        Some(s) => Ok(s),
        None => Err(DataFormatError::NotUtf8),
    }
}

/// The bytes of a ledger proposal id given as text: its UTF-8 encoding.
pub fn chain_proposal_id_from_str(s: &str) -> (r: Vec<u8>)
    ensures
        r@ == encode_utf8(s@),
{
    vstd::slice::slice_to_vec(s.as_bytes())
}

/// A proposal id survives the trip from text to bytes and back, and valid
/// UTF-8 bytes survive the trip to text and back.
pub proof fn lemma_proposal_id_round_trip(text: Seq<char>, bytes: Seq<u8>)
    ensures
        valid_utf8(encode_utf8(text)),
        decode_utf8(encode_utf8(text)) == text,
        valid_utf8(bytes) ==> encode_utf8(decode_utf8(bytes)) == bytes,
{
    vstd::utf8::encode_utf8_valid_utf8(text);
    vstd::utf8::encode_utf8_decode_utf8(text);
    if valid_utf8(bytes) {
        vstd::utf8::decode_utf8_encode_utf8(bytes);
    }
}

impl ChallengeType {
    /// The tag that names the type in records.
    pub open spec fn tag_spec(self) -> Seq<char> {
        match self {
            ChallengeType::Simple => "simple"@,
            ChallengeType::CommunityChoice => "community-choice"@,
        }
    }

    pub fn tag(&self) -> (r: String)
        ensures
            r@ == self.tag_spec(),
    {
        match self {
            ChallengeType::Simple => "simple".to_owned(),
            ChallengeType::CommunityChoice => "community-choice".to_owned(),
        }
    }

    /// The type that a tag names; any other tag is refused.
    pub fn from_tag(s: &str) -> (r: Result<ChallengeType, DataFormatError>)
        ensures
            r matches Ok(t) ==> t.tag_spec() == s@,
            r is Err <==> (s@ != ChallengeType::Simple.tag_spec() && s@
                != ChallengeType::CommunityChoice.tag_spec()),
            r matches Err(e) ==> e == DataFormatError::UnknownChallengeType,
    {
        let t = s.to_owned();
        if t == "simple".to_owned() {
            Ok(ChallengeType::Simple)
        } else if t == "community-choice".to_owned() {
            Ok(ChallengeType::CommunityChoice)
        } else {
            Err(DataFormatError::UnknownChallengeType)
        }
    }
}

/// Reading back the tag of a challenge type gives that type.
pub proof fn lemma_challenge_tag_round_trip(t: ChallengeType)
    ensures
        forall|u: ChallengeType| u.tag_spec() == t.tag_spec() ==> u == t,
{
    reveal_strlit("simple");
    reveal_strlit("community-choice");
    assert(ChallengeType::Simple.tag_spec().len() != ChallengeType::CommunityChoice.tag_spec().len());
}

/// Relies on `String::from_utf8`: `Ok` exactly on valid UTF-8, holding the
/// decoded characters.
#[verifier::external_body]
fn utf8_text(b: &Vec<u8>) -> (r: Option<String>)
    ensures
        r is Some <==> valid_utf8(b@),
        r matches Some(s) ==> s@ == decode_utf8(b@),
{
    String::from_utf8(b.clone()).ok()
}

impl Fund {
    /// The fund starts before it ends.
    pub open spec fn wf(&self) -> bool {
        self.fund_start_time < self.fund_end_time
    }

    pub fn is_well_formed(&self) -> (r: bool)
        ensures
            r == self.wf(),
    {
        self.fund_start_time < self.fund_end_time
    }
}

impl Voteplan {
    /// Voting starts no later than it ends, and ends no later than the
    /// committee's window.
    pub open spec fn wf(&self) -> bool {
        self.chain_vote_start_time <= self.chain_vote_end_time <= self.chain_committee_end_time
    }

    pub fn is_well_formed(&self) -> (r: bool)
        ensures
            r == self.wf(),
    {
        self.chain_vote_start_time <= self.chain_vote_end_time && self.chain_vote_end_time
            <= self.chain_committee_end_time
    }
}

impl Proposal {
    /// This proposal with its vote plan's ledger id, payload kind and
    /// encryption key taken from `plan`, in place of the copies it carried.
    pub fn resolved(self, plan: &Voteplan) -> (r: Proposal)
        ensures
            r == (Proposal {
                chain_voteplan_id: plan.chain_voteplan_id,
                chain_voteplan_payload: plan.chain_voteplan_payload,
                chain_vote_encryption_key: plan.chain_vote_encryption_key,
                ..self
            }),
    {
        Proposal {
            chain_voteplan_id: plan.chain_voteplan_id.clone(),
            chain_voteplan_payload: plan.chain_voteplan_payload.clone(),
            chain_vote_encryption_key: plan.chain_vote_encryption_key.clone(),
            ..self
        }
    }
}

impl SimpleVoteStatus {
    /// The line shown for this vote.
    pub open spec fn line(&self) -> Seq<char> {
        "# "@ + self.chain_proposal_id@ + ", '"@ + self.proposal_title@ + "' -> Choice:  "@
            + self.choice@
    }

    /// The line shown for this vote: proposal id, quoted title and choice.
    pub fn to_line(&self) -> (r: String)
        ensures
            r@ == self.line(),
    {
        let mut r = String::from_str("# ");
        r.append(self.chain_proposal_id.as_str());
        r.append(", '");
        r.append(self.proposal_title.as_str());
        r.append("' -> Choice:  ");
        r.append(self.choice.as_str());
        r
    }
}

impl VitVersion {
    pub fn new(service_version: String) -> (r: Self)
        ensures
            r.view_version() == service_version@,
    {
        Self { service_version }
    }

    pub fn version(&self) -> (r: String)
        ensures
            r@ == self.view_version(),
    {
        self.service_version.clone()
    }

    /// The version text held.
    pub closed spec fn view_version(&self) -> Seq<char> {
        self.service_version@
    }
}

impl Default for VitVersion {
    fn default() -> (r: Self)
        ensures
            r.view_version() == "2.0"@,
    {
        Self { service_version: "2.0".to_owned() }
    }
}

} // verus!
