//! Turning a proposal into an instruction that the ledger accepts as a vote
//! target.

use vstd::prelude::*;
use crate::data::Proposal;

verus! {

/// Bytes in a ledger vote-plan id.
pub const VOTE_PLAN_ID_LEN: usize = 32;

/// Most options that a ledger proposal can carry.
pub const MAX_OPTIONS: usize = 16;

/// What the ledger stores of each vote on a plan.
#[derive(Clone, Debug, PartialEq, Eq)]
pub enum Payload {
    /// Votes in clear text.
    Public,
    /// Votes encrypted under the committee's key.
    Private { encryption_key: Vec<u8> },
}

/// A ledger-ready vote target.
#[derive(Clone, Debug, PartialEq, Eq)]
pub struct VotingInstruction {
    pub vote_plan_id: Vec<u8>,
    pub proposal_index: u8,
    pub num_options: u8,
    pub payload: Payload,
}

/// Why a proposal cannot become a voting instruction.
#[derive(Clone, Copy, Debug, PartialEq, Eq)]
pub enum ConversionError {
    InvalidVotePlanId,
    InvalidOptionCount,
    InvalidEncryptionKey,
}

/// The value of a hexadecimal digit, either case.
pub open spec fn hex_digit(c: char) -> Option<u8> {
    if '0' <= c && c <= '9' {
        Some((c as u32 - '0' as u32) as u8)
    } else if 'a' <= c && c <= 'f' {
        Some((c as u32 - 'a' as u32 + 10) as u8)
    } else if 'A' <= c && c <= 'F' {
        Some((c as u32 - 'A' as u32 + 10) as u8)
    } else {
        None
    }
}

/// The bytes that a hexadecimal text stands for, two digits each, high
/// digit first; `None` for an odd length or a character that is no digit.
pub open spec fn hex_decoded(s: Seq<char>) -> Option<Seq<u8>>
    decreases s.len(),
{
    if s.len() == 0 {
        Some(Seq::empty())
    } else if s.len() == 1 {
        None
    } else {
        match (hex_digit(s[0]), hex_digit(s[1]), hex_decoded(s.subrange(2, s.len() as int))) {
            (Some(h), Some(l), Some(rest)) => Some(seq![(h * 16 + l) as u8] + rest),
            _ => None,
        }
    }
}

#[verifier::external_type_specification]
#[verifier::external_body]
pub struct ExFromHexError(hex::FromHexError);

/// Relies on `hex::decode`: it accepts exactly an even number of digits of
/// either case and returns the bytes they spell.
#[verifier::external_body]
fn decode_hex(s: &str) -> (r: Result<Vec<u8>, hex::FromHexError>)
    ensures
        r matches Ok(v) ==> hex_decoded(s@) == Some(v@),
        r is Err ==> hex_decoded(s@) is None,
{
    hex::decode(s)
}

/// The ledger vote-plan id that a hex text gives: the first
/// `VOTE_PLAN_ID_LEN` decoded bytes, when there are that many.
pub open spec fn vote_plan_id_of(s: Seq<char>) -> Option<Seq<u8>> {
    match hex_decoded(s) {
        Some(b) => if b.len() >= VOTE_PLAN_ID_LEN {
            Some(b.subrange(0, VOTE_PLAN_ID_LEN as int))
        } else {
            None
        },
        None => None,
    }
}

/// The bytes of a decoded key, if there is one.
pub open spec fn key_view(k: Option<Vec<u8>>) -> Option<Seq<u8>> {
    match k {
        Some(v) => Some(v@),
        None => None,
    }
}

/// Whether a payload tag names the public kind; every other tag is private.
pub open spec fn is_public_tag(s: Seq<char>) -> bool {
    s == "public"@
}

/// The error, if any, that converting `p` gives, `key` being the decoded
/// encryption key (`None` where it does not decode).
pub open spec fn conversion_error(p: Proposal, key: Option<Seq<u8>>) -> Option<ConversionError> {
    let n = p.chain_vote_options.0@.len();
    if vote_plan_id_of(p.chain_voteplan_id@) is None {
        Some(ConversionError::InvalidVotePlanId)
    } else if n == 0 || n > MAX_OPTIONS {
        Some(ConversionError::InvalidOptionCount)
    } else if !is_public_tag(p.chain_voteplan_payload@) && key is None {
        Some(ConversionError::InvalidEncryptionKey)
    } else {
        None
    }
}

/// The payload of a converted instruction matches the tag and the key.
pub open spec fn payload_matches(payload: Payload, tag: Seq<char>, key: Option<Seq<u8>>) -> bool {
    if is_public_tag(tag) {
        payload is Public
    } else {
        payload matches Payload::Private { encryption_key } && key == Some(encryption_key@)
    }
}

/// The tag of the public payload kind.
fn public_tag() -> (r: String)
    ensures
        r@ == "public"@,
{
    "public".to_owned()
}

impl Proposal {
    /// The ledger instruction for a vote on this proposal. `decoded_key` is
    /// `chain_vote_encryption_key` decoded, or `None` where it does not
    /// decode; it is read only for a private plan.
    pub fn to_voting_instruction(&self, decoded_key: Option<Vec<u8>>) -> (r: Result<
        VotingInstruction,
        ConversionError,
    >)
        ensures
            r is Err <==> conversion_error(*self, key_view(decoded_key)) is Some,
            r matches Err(e) ==> conversion_error(*self, key_view(decoded_key)) == Some(e),
            r matches Ok(ins) ==> {
                &&& vote_plan_id_of(self.chain_voteplan_id@) == Some(ins.vote_plan_id@)
                &&& ins.proposal_index == self.chain_proposal_index as u8
                &&& ins.num_options == self.chain_vote_options.0@.len()
                &&& payload_matches(
                    ins.payload,
                    self.chain_voteplan_payload@,
                    key_view(decoded_key),
                )
            },
    {
        let mut id = match decode_hex(self.chain_voteplan_id.as_str()) {
            Ok(b) => b,
            Err(_) => return Err(ConversionError::InvalidVotePlanId),
        };
        if id.len() < VOTE_PLAN_ID_LEN {
            return Err(ConversionError::InvalidVotePlanId);
        }
        id.truncate(VOTE_PLAN_ID_LEN);
        let n = self.chain_vote_options.len();
        if n == 0 || n > MAX_OPTIONS {
            return Err(ConversionError::InvalidOptionCount);
        }
        let index = self.chain_proposal_index as u8;
        let payload = if self.chain_voteplan_payload == public_tag() {
            Payload::Public
        } else {
            match decoded_key {
                Some(k) => Payload::Private { encryption_key: k },
                None => return Err(ConversionError::InvalidEncryptionKey),
            }
        };
        Ok(VotingInstruction { vote_plan_id: id, proposal_index: index, num_options: n as u8, payload })
    }
}


/// A public proposal whose vote-plan id decodes to exactly
/// `VOTE_PLAN_ID_LEN` bytes converts the same whatever key is handed, never
/// fails for want of a key, and carries the decoded id bytes unchanged.
pub proof fn lemma_public_needs_no_key(p: Proposal, key: Option<Seq<u8>>, other: Option<Seq<u8>>)
    requires
        is_public_tag(p.chain_voteplan_payload@),
        hex_decoded(p.chain_voteplan_id@) matches Some(b) && b.len() == VOTE_PLAN_ID_LEN,
    ensures
        conversion_error(p, key) == conversion_error(p, other),
        conversion_error(p, key) != Some(ConversionError::InvalidEncryptionKey),
        payload_matches(Payload::Public, p.chain_voteplan_payload@, key),
        vote_plan_id_of(p.chain_voteplan_id@) == hex_decoded(p.chain_voteplan_id@),
{
    let b = hex_decoded(p.chain_voteplan_id@)->0;
    assert(b.subrange(0, VOTE_PLAN_ID_LEN as int) =~= b);
}

/// A private proposal whose vote-plan id and option count are valid fails
/// with `InvalidEncryptionKey` exactly when its key does not decode.
pub proof fn lemma_private_key_decides(p: Proposal, key: Option<Seq<u8>>)
    requires
        !is_public_tag(p.chain_voteplan_payload@),
        vote_plan_id_of(p.chain_voteplan_id@) is Some,
        1 <= p.chain_vote_options.0@.len() <= MAX_OPTIONS,
    ensures
        (conversion_error(p, key) == Some(ConversionError::InvalidEncryptionKey)) <==> key is None,
        key is Some ==> conversion_error(p, key) is None,
{
}

} // verus!
