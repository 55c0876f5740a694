//! Counting public votes, and the per-vote-plan protocol that closes a tally:
//! encrypted tally, committee shares, decrypted tally.

use vstd::prelude::*;

verus! {

/// A vote as the ledger records it on a public plan.
#[derive(Clone, Debug, PartialEq, Eq)]
pub struct CastVote {
    pub vote_plan_id: Vec<u8>,
    pub proposal_index: u8,
    pub choice: u8,
}

/// How many of `votes` go to `choice` on proposal `index` of plan `plan`.
pub open spec fn count_votes(votes: Seq<CastVote>, plan: Seq<u8>, index: u8, choice: u8) -> nat
    decreases votes.len(),
{
    if votes.len() == 0 {
        0
    } else {
        let v = votes.last();
        count_votes(votes.drop_last(), plan, index, choice) + if v.vote_plan_id@ == plan
            && v.proposal_index == index && v.choice == choice {
            1nat
        } else {
            0nat
        }
    }
}

proof fn lemma_count_bounded(votes: Seq<CastVote>, plan: Seq<u8>, index: u8, choice: u8)
    ensures
        count_votes(votes, plan, index, choice) <= votes.len(),
    decreases votes.len(),
{
    if votes.len() > 0 {
        lemma_count_bounded(votes.drop_last(), plan, index, choice);
    }
}

fn same_bytes(a: &Vec<u8>, b: &Vec<u8>) -> (r: bool)
    ensures
        r == (a@ == b@),
{
    if a.len() != b.len() {
        return false;
    }
    let mut i: usize = 0;
    while i < a.len()
        invariant
            a@.len() == b@.len(),
            0 <= i <= a@.len(),
            forall|j: int| 0 <= j < i ==> a@[j] == b@[j],
        decreases a@.len() - i,
    {
        if a[i] != b[i] {
            return false;
        }
        i = i + 1;
    }
    assert(a@ =~= b@);
    true
}

/// The tally of one proposal: for each option code below `num_options`, in
/// code order, the number of votes cast for it.
pub fn tally_proposal(votes: &Vec<CastVote>, plan: &Vec<u8>, index: u8, num_options: u8) -> (r: Vec<u64>)
    ensures
        r@.len() == num_options,
        forall|c: int| 0 <= c < num_options ==> #[trigger] r@[c] == count_votes(votes@, plan@, index, c as u8),
{
    let mut r: Vec<u64> = Vec::new();
    let mut c: u8 = 0;
    while c < num_options
        invariant
            c <= num_options,
            r@.len() == c,
            forall|k: int| 0 <= k < c ==> #[trigger] r@[k] == count_votes(votes@, plan@, index, k as u8),
        decreases num_options - c,
    {
        let mut n: u64 = 0;
        let mut i: usize = 0;
        while i < votes.len()
            invariant
                0 <= i <= votes@.len(),
                n == count_votes(votes@.subrange(0, i as int), plan@, index, c),
            decreases votes@.len() - i,
        {
            proof {
                let pre = votes@.subrange(0, i as int + 1);
                assert(pre.drop_last() =~= votes@.subrange(0, i as int));
                lemma_count_bounded(pre, plan@, index, c);
            }
            let v = &votes[i];
            if same_bytes(&v.vote_plan_id, plan) && v.proposal_index == index && v.choice == c {
                n = n + 1;
            }
            i = i + 1;
        }
        assert(votes@.subrange(0, votes@.len() as int) =~= votes@);
        r.push(n);
        c = c + 1;
    }
    r
}


/// Where a vote plan stands in closing its tally.
#[derive(Clone, Copy, Debug, PartialEq, Eq, Structural)]
pub enum TallyState {
    Open,
    EncryptedTallySubmitted,
    AwaitingShares,
    DecryptedTallySubmitted,
    Closed,
    Failed,
}

/// What the caller is to do next for a vote plan.
#[derive(Clone, Copy, Debug, PartialEq, Eq, Structural)]
pub enum TallyAction {
    /// Nothing now: poll again later.
    Wait,
    /// Build (with a fresh counter) and send the encrypted-tally transaction.
    SubmitEncryptedTally,
    /// Build (with a fresh counter) and send the decrypted-tally transaction
    /// with the collected shares.
    SubmitDecryptedTally,
    /// The tally is closed.
    Finished,
    /// The plan failed for good.
    GaveUp,
}

/// A step that the tally protocol does not allow.
#[derive(Clone, Copy, Debug, PartialEq, Eq, Structural)]
pub enum TallyProtocolError {
    /// A share for another vote plan.
    WrongVotePlan,
    /// An event that the plan's state does not expect.
    OutOfOrder,
    /// A submission was refused more often than allowed.
    RetriesExhausted,
}

/// The tally protocol state of one vote plan.
#[derive(Clone, Debug)]
pub struct PlanTally {
    pub vote_plan_id: Vec<u8>,
    /// Ledger time from which the encrypted tally may be sent.
    pub tally_start: u64,
    /// Committee shares needed to decrypt.
    pub required_shares: usize,
    /// Refused submissions that are sent again before the plan fails.
    pub max_retries: u32,
    pub state: TallyState,
    pub shares: Vec<Vec<u8>>,
    /// Refused submissions sent again so far.
    pub retries: u32,
    /// Transactions handed out for sending so far.
    pub submissions: u64,
}

impl PlanTally {
    /// Each submission is the first of a phase or a retry, and shares
    /// gather only while the plan awaits them.
    pub open spec fn wf(&self) -> bool {
        let sent = self.submissions as int;
        let again = self.retries as int;
        &&& self.required_shares >= 1
        &&& self.retries <= self.max_retries
        &&& match self.state {
            TallyState::Open => sent == 0 && again == 0 && self.shares@.len() == 0,
            TallyState::EncryptedTallySubmitted => sent == again + 1 && self.shares@.len() == 0,
            TallyState::AwaitingShares => sent == again + 1 && self.shares@.len()
                < self.required_shares,
            TallyState::DecryptedTallySubmitted => sent == again + 2,
            TallyState::Closed => sent == again + 2,
            TallyState::Failed => again + 1 <= sent <= again + 2,
        }
    }

    /// The plan after `run` at ledger time `now`.
    pub open spec fn run_step(self, now: u64) -> PlanTally {
        if self.state is Open && now >= self.tally_start {
            PlanTally {
                state: TallyState::EncryptedTallySubmitted,
                submissions: (self.submissions + 1) as u64,
                ..self
            }
        } else {
            self
        }
    }

    /// What `run` at ledger time `now` asks the caller to do.
    pub open spec fn run_action(self, now: u64) -> TallyAction {
        match self.state {
            TallyState::Open => if now >= self.tally_start {
                TallyAction::SubmitEncryptedTally
            } else {
                TallyAction::Wait
            },
            TallyState::Closed => TallyAction::Finished,
            TallyState::Failed => TallyAction::GaveUp,
            _ => TallyAction::Wait,
        }
    }


    /// The plan after the ledger confirms its transaction in flight.
    pub open spec fn confirm_step(self) -> PlanTally {
        match self.state {
            TallyState::EncryptedTallySubmitted => PlanTally { state: TallyState::AwaitingShares, ..self },
            TallyState::DecryptedTallySubmitted => PlanTally { state: TallyState::Closed, ..self },
            _ => self,
        }
    }

    /// What `confirm` answers.
    pub open spec fn confirm_result(self) -> Result<TallyAction, TallyProtocolError> {
        match self.state {
            TallyState::EncryptedTallySubmitted => Ok(TallyAction::Wait),
            TallyState::DecryptedTallySubmitted => Ok(TallyAction::Finished),
            _ => Err(TallyProtocolError::OutOfOrder),
        }
    }

    pub open spec fn in_flight(self) -> bool {
        self.state is EncryptedTallySubmitted || self.state is DecryptedTallySubmitted
    }

    /// The plan after the ledger refuses its transaction in flight.
    pub open spec fn reject_step(self) -> PlanTally {
        if !self.in_flight() {
            self
        } else if self.retries < self.max_retries {
            PlanTally {
                retries: (self.retries + 1) as u32,
                submissions: (self.submissions + 1) as u64,
                ..self
            }
        } else {
            PlanTally { state: TallyState::Failed, ..self }
        }
    }

    /// What `reject` answers.
    pub open spec fn reject_result(self) -> Result<TallyAction, TallyProtocolError> {
        if !self.in_flight() {
            Err(TallyProtocolError::OutOfOrder)
        } else if self.retries < self.max_retries {
            if self.state is EncryptedTallySubmitted {
                Ok(TallyAction::SubmitEncryptedTally)
            } else {
                Ok(TallyAction::SubmitDecryptedTally)
            }
        } else {
            Err(TallyProtocolError::RetriesExhausted)
        }
    }

    /// `new` is `old` after a share `share` for the plan `plan_id`, and `r`
    /// is the answer: a share for another plan, or one that comes while the
    /// plan does not await shares, changes nothing; otherwise it is kept,
    /// and the last one needed sends the decrypted tally.
    pub open spec fn share_added(
        old: PlanTally,
        new: PlanTally,
        plan_id: Seq<u8>,
        share: Vec<u8>,
        r: Result<TallyAction, TallyProtocolError>,
    ) -> bool {
        if plan_id != old.vote_plan_id@ {
            r == Err::<TallyAction, TallyProtocolError>(TallyProtocolError::WrongVotePlan) && new == old
        } else if !(old.state is AwaitingShares) {
            r == Err::<TallyAction, TallyProtocolError>(TallyProtocolError::OutOfOrder) && new == old
        } else {
            &&& new.shares@ == old.shares@.push(share)
            &&& new.vote_plan_id == old.vote_plan_id
            &&& new.tally_start == old.tally_start
            &&& new.required_shares == old.required_shares
            &&& new.max_retries == old.max_retries
            &&& new.retries == old.retries
            &&& if old.shares@.len() + 1 == old.required_shares {
                &&& new.state is DecryptedTallySubmitted
                &&& new.submissions == old.submissions + 1
                &&& r == Ok::<TallyAction, TallyProtocolError>(TallyAction::SubmitDecryptedTally)
            } else {
                &&& new.state is AwaitingShares
                &&& new.submissions == old.submissions
                &&& r == Ok::<TallyAction, TallyProtocolError>(TallyAction::Wait)
            }
        }
    }

    /// A plan that is open, has no shares and has sent nothing.
    pub fn new(vote_plan_id: Vec<u8>, tally_start: u64, required_shares: usize, max_retries: u32) -> (r: Self)
        requires
            required_shares >= 1,
        ensures
            r.wf(),
            r.vote_plan_id == vote_plan_id,
            r.tally_start == tally_start,
            r.required_shares == required_shares,
            r.max_retries == max_retries,
            r.state is Open,
            r.shares@.len() == 0,
            r.retries == 0,
            r.submissions == 0,
    {
        PlanTally {
            vote_plan_id,
            tally_start,
            required_shares,
            max_retries,
            state: TallyState::Open,
            shares: Vec::new(),
            retries: 0,
            submissions: 0,
        }
    }

    /// Advance on the ledger time `now`: an open plan sends its encrypted
    /// tally once `now` reaches `tally_start`, and never before; a plan with
    /// a transaction in flight sends nothing more.
    pub fn run(&mut self, now: u64) -> (r: TallyAction)
        requires
            old(self).wf(),
        ensures
            final(self).wf(),
            *final(self) == old(self).run_step(now),
            r == old(self).run_action(now),
            now < old(self).tally_start ==> final(self).submissions == old(self).submissions,
            now < old(self).tally_start ==> !(r is SubmitEncryptedTally),
    {
        match self.state {
            TallyState::Open => {
                if now >= self.tally_start {
                    self.state = TallyState::EncryptedTallySubmitted;
                    self.submissions = self.submissions + 1;
                    TallyAction::SubmitEncryptedTally
                } else {
                    TallyAction::Wait
                }
            },
            TallyState::Closed => TallyAction::Finished,
            TallyState::Failed => TallyAction::GaveUp,
            _ => TallyAction::Wait,
        }
    }

    /// The ledger confirmed the transaction in flight: the encrypted tally
    /// opens the wait for shares, the decrypted tally closes the plan.
    pub fn confirm(&mut self) -> (r: Result<TallyAction, TallyProtocolError>)
        requires
            old(self).wf(),
        ensures
            final(self).wf(),
            *final(self) == old(self).confirm_step(),
            r == old(self).confirm_result(),
    {
        match self.state {
            TallyState::EncryptedTallySubmitted => {
                self.state = TallyState::AwaitingShares;
                Ok(TallyAction::Wait)
            },
            TallyState::DecryptedTallySubmitted => {
                self.state = TallyState::Closed;
                Ok(TallyAction::Finished)
            },
            _ => Err(TallyProtocolError::OutOfOrder),
        }
    }

    /// The ledger refused the transaction in flight: it is built and sent
    /// again while retries are left, else the plan fails.
    pub fn reject(&mut self) -> (r: Result<TallyAction, TallyProtocolError>)
        requires
            old(self).wf(),
        ensures
            final(self).wf(),
            *final(self) == old(self).reject_step(),
            r == old(self).reject_result(),
    {
        match self.state {
            TallyState::EncryptedTallySubmitted | TallyState::DecryptedTallySubmitted => {
                if self.retries < self.max_retries {
                    self.retries = self.retries + 1;
                    self.submissions = self.submissions + 1;
                    if self.state == TallyState::EncryptedTallySubmitted {
                        Ok(TallyAction::SubmitEncryptedTally)
                    } else {
                        Ok(TallyAction::SubmitDecryptedTally)
                    }
                } else {
                    self.state = TallyState::Failed;
                    Err(TallyProtocolError::RetriesExhausted)
                }
            },
            _ => Err(TallyProtocolError::OutOfOrder),
        }
    }

    /// A committee share for the plan `plan_id`. Only a share for this very
    /// plan, while it awaits shares, is taken; the last one needed sends the
    /// decrypted tally.
    pub fn add_share(&mut self, plan_id: &Vec<u8>, share: Vec<u8>) -> (r: Result<TallyAction, TallyProtocolError>)
        requires
            old(self).wf(),
        ensures
            final(self).wf(),
            PlanTally::share_added(*old(self), *final(self), plan_id@, share, r),
    {
        if !same_bytes(plan_id, &self.vote_plan_id) {
            return Err(TallyProtocolError::WrongVotePlan);
        }
        if self.state != TallyState::AwaitingShares {
            return Err(TallyProtocolError::OutOfOrder);
        }
        self.shares.push(share);
        if self.shares.len() == self.required_shares {
            self.state = TallyState::DecryptedTallySubmitted;
            self.submissions = self.submissions + 1;
            Ok(TallyAction::SubmitDecryptedTally)
        } else {
            Ok(TallyAction::Wait)
        }
    }
}


/// The tally protocol of every vote plan of a round, each run on its own.
#[derive(Clone, Debug)]
pub struct TallyCoordinator {
    pub plans: Vec<PlanTally>,
}

/// The position of the plan with ledger id `id` in `plans`, if any.
pub open spec fn plan_position(plans: Seq<PlanTally>, id: Seq<u8>, i: int) -> bool {
    0 <= i < plans.len() && plans[i].vote_plan_id@ == id
}

impl TallyCoordinator {
    /// Every plan is well formed and no two share a ledger id.
    pub open spec fn wf(&self) -> bool {
        &&& forall|i: int| 0 <= i < self.plans@.len() ==> #[trigger] self.plans@[i].wf()
        &&& forall|i: int, j: int|
            0 <= i < j < self.plans@.len() ==> #[trigger] self.plans@[i].vote_plan_id@
                != #[trigger] self.plans@[j].vote_plan_id@
    }

    pub fn new() -> (r: Self)
        ensures
            r.wf(),
            r.plans@.len() == 0,
    {
        TallyCoordinator { plans: Vec::new() }
    }

    /// Where the plan with ledger id `id` stands in `plans`.
    pub fn find(&self, id: &Vec<u8>) -> (r: Option<usize>)
        requires
            self.wf(),
        ensures
            r matches Some(i) ==> plan_position(self.plans@, id@, i as int),
            r is None ==> forall|i: int| !plan_position(self.plans@, id@, i),
    {
        let mut i: usize = 0;
        while i < self.plans.len()
            invariant
                0 <= i <= self.plans@.len(),
                forall|j: int| 0 <= j < i ==> !plan_position(self.plans@, id@, j),
            decreases self.plans@.len() - i,
        {
            if same_bytes(&self.plans[i].vote_plan_id, id) {
                return Some(i);
            }
            i = i + 1;
        }
        None
    }

    /// Adds a plan; a plan whose ledger id is already there is refused.
    pub fn add_plan(&mut self, plan: PlanTally) -> (r: Result<(), TallyProtocolError>)
        requires
            old(self).wf(),
            plan.wf(),
        ensures
            final(self).wf(),
            (exists|i: int| plan_position(old(self).plans@, plan.vote_plan_id@, i)) ==> r
                == Err::<(), TallyProtocolError>(TallyProtocolError::WrongVotePlan) && *final(self)
                == *old(self),
            (forall|i: int| !plan_position(old(self).plans@, plan.vote_plan_id@, i)) ==> r is Ok
                && final(self).plans@ == old(self).plans@.push(plan),
    {
        match self.find(&plan.vote_plan_id) {
            Some(i) => {
                assert(plan_position(self.plans@, plan.vote_plan_id@, i as int));
                Err(TallyProtocolError::WrongVotePlan)
            },
            None => {
                self.plans.push(plan);
                proof {
                    let ps = self.plans@;
                    assert forall|i: int, j: int| 0 <= i < j < ps.len() implies #[trigger] ps[i].vote_plan_id@
                        != #[trigger] ps[j].vote_plan_id@ by {
                        if j == ps.len() - 1 {
                            assert(!plan_position(old(self).plans@, plan.vote_plan_id@, i));
                        }
                    }
                }
                Ok(())
            },
        }
    }

    /// Advances every plan on the ledger time `now`, each as
    /// `PlanTally::run` would; the actions come in the plans' order.
    pub fn run_all(&mut self, now: u64) -> (r: Vec<TallyAction>)
        requires
            old(self).wf(),
        ensures
            final(self).wf(),
            final(self).plans@.len() == old(self).plans@.len(),
            r@.len() == old(self).plans@.len(),
            forall|i: int| 0 <= i < r@.len() ==> {
                &&& #[trigger] final(self).plans@[i] == old(self).plans@[i].run_step(now)
                &&& r@[i] == old(self).plans@[i].run_action(now)
            },
    {
        let mut r: Vec<TallyAction> = Vec::new();
        let mut i: usize = 0;
        while i < self.plans.len()
            invariant
                self.wf(),
                self.plans@.len() == old(self).plans@.len(),
                0 <= i <= self.plans@.len(),
                r@.len() == i,
                forall|j: int| 0 <= j < i ==> {
                    &&& #[trigger] self.plans@[j] == old(self).plans@[j].run_step(now)
                    &&& r@[j] == old(self).plans@[j].run_action(now)
                },
                forall|j: int| i <= j < self.plans@.len() ==> #[trigger] self.plans@[j] == old(self).plans@[j],
            decreases self.plans@.len() - i,
        {
            let ghost before = self.plans@;
            let mut p = self.plans.remove(i);
            assert(p == before[i as int]);
            assert(p.wf());
            let a = p.run(now);
            self.plans.insert(i, p);
            assert(self.plans@ =~= before.update(i as int, p));
            r.push(a);
            i = i + 1;
        }
        r
    }

    /// Advances the plan with ledger id `id` on the ledger time `now`; the
    /// other plans stay as they were.
    pub fn run(&mut self, id: &Vec<u8>, now: u64) -> (r: Result<TallyAction, TallyProtocolError>)
        requires
            old(self).wf(),
        ensures
            final(self).wf(),
            final(self).plans@.len() == old(self).plans@.len(),
            (forall|i: int| !plan_position(old(self).plans@, id@, i)) ==> r
                == Err::<TallyAction, TallyProtocolError>(TallyProtocolError::WrongVotePlan) && *final(self)
                == *old(self),
            forall|i: int| plan_position(old(self).plans@, id@, i) ==> {
                &&& r == Ok::<TallyAction, TallyProtocolError>(old(self).plans@[i].run_action(now))
                &&& final(self).plans@ == old(self).plans@.update(i, old(self).plans@[i].run_step(now))
            },
    {
        match self.find(id) {
            None => Err(TallyProtocolError::WrongVotePlan),
            Some(i) => {
                let ghost before = self.plans@;
                let mut p = self.plans.remove(i);
                assert(p == before[i as int]);
                let a = p.run(now);
                self.plans.insert(i, p);
                assert(self.plans@ =~= before.update(i as int, p));
                Ok(a)
            },
        }
    }

    /// The ledger confirmed the transaction in flight for the plan with
    /// ledger id `id`, as `PlanTally::confirm` takes it; no other plan moves.
    pub fn confirm(&mut self, id: &Vec<u8>) -> (r: Result<TallyAction, TallyProtocolError>)
        requires
            old(self).wf(),
        ensures
            final(self).wf(),
            final(self).plans@.len() == old(self).plans@.len(),
            (forall|i: int| !plan_position(old(self).plans@, id@, i)) ==> r
                == Err::<TallyAction, TallyProtocolError>(TallyProtocolError::WrongVotePlan) && *final(self)
                == *old(self),
            forall|j: int| 0 <= j < old(self).plans@.len() && old(self).plans@[j].vote_plan_id@ != id@
                ==> #[trigger] final(self).plans@[j] == old(self).plans@[j],
            forall|i: int| plan_position(old(self).plans@, id@, i) ==> {
                &&& r == old(self).plans@[i].confirm_result()
                &&& final(self).plans@ == old(self).plans@.update(i, old(self).plans@[i].confirm_step())
            },
    {
        match self.find(id) {
            None => Err(TallyProtocolError::WrongVotePlan),
            Some(i) => {
                let ghost before = self.plans@;
                let mut p = self.plans.remove(i);
                assert(p == before[i as int]);
                let a = p.confirm();
                self.plans.insert(i, p);
                assert(self.plans@ =~= before.update(i as int, p));
                a
            },
        }
    }

    /// The ledger refused the transaction in flight for the plan with
    /// ledger id `id`, as `PlanTally::reject` takes it; the other plans go
    /// on whatever becomes of this one.
    pub fn reject(&mut self, id: &Vec<u8>) -> (r: Result<TallyAction, TallyProtocolError>)
        requires
            old(self).wf(),
        ensures
            final(self).wf(),
            final(self).plans@.len() == old(self).plans@.len(),
            (forall|i: int| !plan_position(old(self).plans@, id@, i)) ==> r
                == Err::<TallyAction, TallyProtocolError>(TallyProtocolError::WrongVotePlan) && *final(self)
                == *old(self),
            forall|j: int| 0 <= j < old(self).plans@.len() && old(self).plans@[j].vote_plan_id@ != id@
                ==> #[trigger] final(self).plans@[j] == old(self).plans@[j],
            forall|i: int| plan_position(old(self).plans@, id@, i) ==> {
                &&& r == old(self).plans@[i].reject_result()
                &&& final(self).plans@ == old(self).plans@.update(i, old(self).plans@[i].reject_step())
            },
    {
        match self.find(id) {
            None => Err(TallyProtocolError::WrongVotePlan),
            Some(i) => {
                let ghost before = self.plans@;
                let mut p = self.plans.remove(i);
                assert(p == before[i as int]);
                let a = p.reject();
                self.plans.insert(i, p);
                assert(self.plans@ =~= before.update(i as int, p));
                a
            },
        }
    }

    /// Hands a committee share to the plan with ledger id `id`, as
    /// `PlanTally::add_share` does; no other plan sees it.
    pub fn add_share(&mut self, id: &Vec<u8>, share: Vec<u8>) -> (r: Result<TallyAction, TallyProtocolError>)
        requires
            old(self).wf(),
        ensures
            final(self).wf(),
            final(self).plans@.len() == old(self).plans@.len(),
            (forall|i: int| !plan_position(old(self).plans@, id@, i)) ==> r
                == Err::<TallyAction, TallyProtocolError>(TallyProtocolError::WrongVotePlan) && *final(self)
                == *old(self),
            forall|j: int| 0 <= j < old(self).plans@.len() && old(self).plans@[j].vote_plan_id@ != id@
                ==> #[trigger] final(self).plans@[j] == old(self).plans@[j],
            forall|i: int| plan_position(old(self).plans@, id@, i) ==> PlanTally::share_added(
                old(self).plans@[i],
                #[trigger] final(self).plans@[i],
                id@,
                share,
                r,
            ),
    {
        match self.find(id) {
            None => Err(TallyProtocolError::WrongVotePlan),
            Some(i) => {
                let ghost before = self.plans@;
                let mut p = self.plans.remove(i);
                assert(p == before[i as int]);
                let a = p.add_share(id, share);
                self.plans.insert(i, p);
                assert(self.plans@ =~= before.update(i as int, p));
                a
            },
        }
    }
}

} // verus!
