//! Building a vote transaction from a wallet's signing state.

use vstd::prelude::*;

verus! {

/// What a wallet signs with: its confirmed signing counter, if it has one.
#[derive(Clone, Copy, Debug, PartialEq, Eq)]
pub struct Wallet {
    pub counter: Option<u32>,
}

/// An unsigned vote transaction, ready for signing and sending.
#[derive(Clone, Debug, PartialEq, Eq)]
pub struct VoteDraft {
    pub vote_plan_id: Vec<u8>,
    pub proposal_index: u8,
    pub choice: u8,
    pub counter: u32,
}

/// Why a vote could not be cast.
#[derive(Clone, Copy, Debug, PartialEq, Eq)]
pub enum VoteError {
    /// The wallet has no usable signing counter.
    WalletStateError,
    /// The ledger refused the transaction.
    SubmissionRejected,
}

impl Wallet {
    /// A vote on proposal `proposal_index` of plan `vote_plan_id` for
    /// `choice`, signed at the wallet's counter, which it then advances so
    /// that the next transaction of this wallet gets a fresh one.
    pub fn vote_for(&mut self, vote_plan_id: &Vec<u8>, proposal_index: u8, choice: u8) -> (r: Result<
        VoteDraft,
        VoteError,
    >)
        ensures
            match old(self).counter {
                Some(c) => if c < u32::MAX {
                    &&& r matches Ok(d) && d.vote_plan_id@ == vote_plan_id@ && d.proposal_index
                        == proposal_index && d.choice == choice && d.counter == c
                    &&& final(self).counter == Some((c + 1) as u32)
                } else {
                    r == Err::<VoteDraft, VoteError>(VoteError::WalletStateError) && *final(self)
                        == *old(self)
                },
                None => r == Err::<VoteDraft, VoteError>(VoteError::WalletStateError) && *final(self)
                    == *old(self),
            },
    {
        match self.counter {
            Some(c) => {
                if c < u32::MAX {
                    self.counter = Some(c + 1);
                    Ok(VoteDraft { vote_plan_id: vote_plan_id.clone(), proposal_index, choice, counter: c })
                } else {
                    Err(VoteError::WalletStateError)
                }
            },
            None => Err(VoteError::WalletStateError),
        }
    }

    /// What the ledger said of a sent vote: its submission id, or `None`
    /// where it refused the transaction. A refusal leaves the wallet without
    /// a counter until the ledger's is read again.
    pub fn settle(&mut self, outcome: Option<u64>) -> (r: Result<u64, VoteError>)
        ensures
            outcome matches Some(id) ==> r == Ok::<u64, VoteError>(id) && *final(self) == *old(self),
            outcome is None ==> r == Err::<u64, VoteError>(VoteError::SubmissionRejected)
                && final(self).counter is None,
    {
        match outcome {
            Some(id) => Ok(id),
            None => {
                self.counter = None;
                Err(VoteError::SubmissionRejected)
            },
        }
    }
}

} // verus!
