use vstd::prelude::*;
use crate::validation::RequestModel;
use crate::validation::TransactionRequest;

verus! {

// ---------------------------------------------------------------------------
// What the chain reports back
// ---------------------------------------------------------------------------

/// One balance entry as the chain reports it, used only for diagnostic
/// logging: a token symbol and an amount, both in the chain's own string
/// form.
#[derive(Debug, Clone, PartialEq, Eq)]
pub struct Balance {
    pub denom: String,
    pub amount: String,
}

/// The chain's acknowledgment of a submitted transaction: a response code
/// (zero means the chain accepted it), the block height at which it was
/// included, and the transaction hash.
#[derive(Debug, Clone, PartialEq, Eq)]
pub struct Receipt {
    pub code: u32,
    pub height: i64,
    pub txhash: String,
}

/// Overall classification of a broadcast transaction.
#[derive(Debug, PartialEq, Eq)]
pub enum Outcome {
    /// Transport and chain both succeeded: the receipt's code is zero.
    Success(Receipt),
    /// The broadcast itself went through, but the chain reported a
    /// nonzero code: a logical failure, distinct from a transport error.
    ChainFailure(Receipt),
}

/// What classification must say: code zero is success, anything else is a
/// chain-level failure carrying the same receipt.
pub open spec fn spec_classify(receipt: Receipt) -> Outcome {
    if receipt.code == 0 {
        Outcome::Success(receipt)
    } else {
        Outcome::ChainFailure(receipt)
    }
}

/// Classifies a receipt. A code of zero is overall success; any nonzero
/// code is an overall failure even though the broadcast itself succeeded.
pub fn classify(receipt: Receipt) -> (o: Outcome)
    ensures
        o == spec_classify(receipt),
        o is Success <==> receipt.code == 0,
{
    if receipt.code == 0 {
        Outcome::Success(receipt)
    } else {
        Outcome::ChainFailure(receipt)
    }
}

// ---------------------------------------------------------------------------
// The orchestration state machine
// ---------------------------------------------------------------------------

/// A failed orchestration step, with the step's diagnostic context, so an
/// operator can tell "never reached the chain" from "reached the chain
/// and failed".
#[derive(Debug, PartialEq, Eq)]
pub enum OrchestrationError {
    /// The wallet credential is missing or unreadable, or the signing
    /// wallet could not be derived from it.
    Credential(String),
    /// No connection to the network could be established.
    Connectivity(String),
    /// The diagnostic balance lookup failed.
    Query(String),
    /// Submission failed at the network level (not a chain-reported
    /// logical failure).
    Broadcast(String),
}

/// How far the single transfer of this invocation has progressed. Each
/// phase is reached only through the success of the step before it.
#[derive(Debug, PartialEq, Eq)]
pub enum Phase {
    /// Nothing has happened yet; the credential must be resolved before
    /// any network call.
    Start,
    /// The secret recovery phrase is in the caller's hand (the library
    /// never holds it).
    CredentialHeld,
    /// A connection to the target network exists.
    Connected,
    /// The diagnostic balance query finished.
    BalancesFetched,
    /// The signing wallet is derived; the transfer may be broadcast.
    WalletReady,
    /// The transfer was broadcast and the receipt classified.
    Completed(Outcome),
    /// A step failed; every later step is skipped.
    Failed(OrchestrationError),
}

/// What the surrounding program reports back after carrying out one
/// action.
#[derive(Debug)]
pub enum Event {
    /// The secret recovery phrase was read from its configured source.
    CredentialResolved,
    /// The credential source is absent or unreadable.
    CredentialMissing(String),
    /// A connection to the network was established.
    ConnectSucceeded,
    /// The connection attempt failed.
    ConnectFailed(String),
    /// The diagnostic balance query returned these balances.
    BalancesRetrieved(Vec<Balance>),
    /// The diagnostic balance query failed.
    BalanceQueryFailed(String),
    /// The signing wallet was derived from the credential.
    WalletDerived,
    /// The credential could not be turned into a signing wallet.
    WalletDerivationFailed(String),
    /// The transfer was broadcast and the chain acknowledged it.
    BroadcastAccepted(Receipt),
    /// The broadcast failed at the network level.
    BroadcastFailed(String),
}

/// A coin as handed to the chain client: a token symbol and an amount.
#[derive(Debug, Clone, PartialEq, Eq)]
pub struct Coin {
    pub denom: String,
    pub amount: u64,
}

/// The next piece of outside work the surrounding program must perform.
#[derive(Debug, PartialEq, Eq)]
pub enum Action {
    /// Read the secret recovery phrase from the configured source (a file
    /// or an environment variable).
    ResolveCredential,
    /// Connect to the target network.
    Connect,
    /// Fetch all balances of this address, for diagnostic logging only.
    QueryBalances(String),
    /// Derive the signing wallet from the credential and the fixed
    /// address prefix.
    DeriveWallet,
    /// Broadcast the single transfer of this coin to this address.
    SendCoins(String, Coin),
    /// Nothing remains to do; report the final phase.
    Halt,
}

/// Whether an event belongs to a phase: it reports the success or the
/// failure of exactly the step that the phase demands.
pub open spec fn event_fits(phase: Phase, event: Event) -> bool {
    match (phase, event) {
        (Phase::Start, Event::CredentialResolved) => true,
        (Phase::Start, Event::CredentialMissing(_)) => true,
        (Phase::CredentialHeld, Event::ConnectSucceeded) => true,
        (Phase::CredentialHeld, Event::ConnectFailed(_)) => true,
        (Phase::Connected, Event::BalancesRetrieved(_)) => true,
        (Phase::Connected, Event::BalanceQueryFailed(_)) => true,
        (Phase::BalancesFetched, Event::WalletDerived) => true,
        (Phase::BalancesFetched, Event::WalletDerivationFailed(_)) => true,
        (Phase::WalletReady, Event::BroadcastAccepted(_)) => true,
        (Phase::WalletReady, Event::BroadcastFailed(_)) => true,
        _ => false,
    }
}

/// The transition function: a fitting success event moves the transfer to
/// the next phase, a fitting failure event moves it to `Failed` with that
/// step's error, and an event that does not belong to the current phase
/// changes nothing.
pub open spec fn spec_step(phase: Phase, event: Event) -> Phase {
    match (phase, event) {
        (Phase::Start, Event::CredentialResolved) => Phase::CredentialHeld,
        (Phase::Start, Event::CredentialMissing(m)) => Phase::Failed(
            OrchestrationError::Credential(m),
        ),
        (Phase::CredentialHeld, Event::ConnectSucceeded) => Phase::Connected,
        (Phase::CredentialHeld, Event::ConnectFailed(m)) => Phase::Failed(
            OrchestrationError::Connectivity(m),
        ),
        (Phase::Connected, Event::BalancesRetrieved(_)) => Phase::BalancesFetched,
        (Phase::Connected, Event::BalanceQueryFailed(m)) => Phase::Failed(
            OrchestrationError::Query(m),
        ),
        (Phase::BalancesFetched, Event::WalletDerived) => Phase::WalletReady,
        (Phase::BalancesFetched, Event::WalletDerivationFailed(m)) => Phase::Failed(
            OrchestrationError::Credential(m),
        ),
        (Phase::WalletReady, Event::BroadcastAccepted(r)) => Phase::Completed(spec_classify(r)),
        (Phase::WalletReady, Event::BroadcastFailed(m)) => Phase::Failed(
            OrchestrationError::Broadcast(m),
        ),
        (p, _) => p,
    }
}

/// Drives one validated transfer to completion. The orchestrator owns the
/// request for the duration of the invocation; the surrounding program
/// performs each demanded action and reports its outcome back.
pub struct Orchestrator {
    request: TransactionRequest,
    phase: Phase,
}

impl Orchestrator {
    /// The current phase.
    pub closed spec fn phase(self) -> Phase {
        self.phase
    }

    /// The request being carried out.
    pub closed spec fn request(self) -> RequestModel {
        self.request@
    }

    /// The orchestrator only ever holds a well-formed request.
    pub open spec fn wf(self) -> bool {
        self.request().wf()
    }

    /// Starts the orchestration of one validated transfer. Nothing has
    /// been attempted yet: the first demanded action is credential
    /// resolution, before any network call.
    pub fn new(request: TransactionRequest) -> (o: Orchestrator)
        requires
            request@.wf(),
        ensures
            o.phase() == Phase::Start,
            o.request() == request@,
            o.wf(),
    {
        Orchestrator { request, phase: Phase::Start }
    }

    /// The outside work the current phase demands. The broadcast is
    /// demanded exactly in `WalletReady`, and what it sends is exactly
    /// the validated request: its token, its amount, its destination.
    pub fn next_action(&self) -> (a: Action)
        ensures
            (a matches Action::SendCoins(dest, coin) && dest@ == self.request().destination
                && coin.denom@ == self.request().denomination && coin.amount
                == self.request().amount) <==> self.phase() is WalletReady,
            a is ResolveCredential <==> self.phase() is Start,
            a is Connect <==> self.phase() is CredentialHeld,
            (a matches Action::QueryBalances(dest) && dest@ == self.request().destination) <==> self.phase() is Connected,
            a is DeriveWallet <==> self.phase() is BalancesFetched,
            a is Halt <==> (self.phase() is Completed || self.phase() is Failed),
    {
        match &self.phase {
            Phase::Start => Action::ResolveCredential,
            Phase::CredentialHeld => Action::Connect,
            Phase::Connected => Action::QueryBalances(self.request.destination().clone()),
            Phase::BalancesFetched => Action::DeriveWallet,
            Phase::WalletReady => Action::SendCoins(
                self.request.destination().clone(),
                Coin {
                    denom: self.request.denomination().clone(),
                    amount: self.request.amount(),
                },
            ),
            Phase::Completed(_) => Action::Halt,
            Phase::Failed(_) => Action::Halt,
        }
    }

    /// The current phase, for the surrounding program and for tests to
    /// inspect and report.
    pub fn current_phase(&self) -> (p: &Phase)
        ensures
            *p == self.phase(),
    {
        &self.phase
    }

    /// Consumes the report of the last action and advances the phase as
    /// `spec_step` says; the request is kept unchanged.
    pub fn step(self, event: Event) -> (o: Orchestrator)
        ensures
            o.phase() == spec_step(self.phase(), event),
            o.request() == self.request(),
            o.wf() == self.wf(),
    {
        let Orchestrator { request, phase } = self;
        let next = match (phase, event) {
            (Phase::Start, Event::CredentialResolved) => Phase::CredentialHeld,
            (Phase::Start, Event::CredentialMissing(m)) => Phase::Failed(
                OrchestrationError::Credential(m),
            ),
            (Phase::CredentialHeld, Event::ConnectSucceeded) => Phase::Connected,
            (Phase::CredentialHeld, Event::ConnectFailed(m)) => Phase::Failed(
                OrchestrationError::Connectivity(m),
            ),
            (Phase::Connected, Event::BalancesRetrieved(_)) => Phase::BalancesFetched,
            (Phase::Connected, Event::BalanceQueryFailed(m)) => Phase::Failed(
                OrchestrationError::Query(m),
            ),
            (Phase::BalancesFetched, Event::WalletDerived) => Phase::WalletReady,
            (Phase::BalancesFetched, Event::WalletDerivationFailed(m)) => Phase::Failed(
                OrchestrationError::Credential(m),
            ),
            (Phase::WalletReady, Event::BroadcastAccepted(r)) => Phase::Completed(classify(r)),
            (Phase::WalletReady, Event::BroadcastFailed(m)) => Phase::Failed(
                OrchestrationError::Broadcast(m),
            ),
            (p, _) => p,
        };
        Orchestrator { request, phase: next }
    }
}

// ---------------------------------------------------------------------------
// Laws of the state machine
// ---------------------------------------------------------------------------

/// Whether an event reports the failure of a step.
pub open spec fn is_failure_event(event: Event) -> bool {
    match event {
        Event::CredentialMissing(_) => true,
        Event::ConnectFailed(_) => true,
        Event::BalanceQueryFailed(_) => true,
        Event::WalletDerivationFailed(_) => true,
        Event::BroadcastFailed(_) => true,
        _ => false,
    }
}

/// The phase reached from `Start` after a sequence of events.
pub open spec fn phase_after(events: Seq<Event>) -> Phase
    decreases events.len(),
{
    if events.len() == 0 {
        Phase::Start
    } else {
        spec_step(phase_after(events.drop_last()), events.last())
    }
}

/// A failure event that belongs to the current phase always moves the
/// machine into `Failed`.
pub proof fn lemma_failure_event_fails(phase: Phase, event: Event)
    requires
        event_fits(phase, event),
        is_failure_event(event),
    ensures
        spec_step(phase, event) is Failed,
{
}

/// `Failed` and `Completed` are final: no later event changes the phase.
pub proof fn lemma_final_phase_absorbs(events: Seq<Event>, i: int)
    requires
        0 <= i <= events.len(),
        phase_after(events.take(i)) is Failed || phase_after(events.take(i)) is Completed,
    ensures
        phase_after(events) == phase_after(events.take(i)),
    decreases events.len() - i,
{
    if i < events.len() {
        assert(events.take(i + 1).drop_last() =~= events.take(i));
        lemma_final_phase_absorbs(events, i + 1);
        assert(events.take(events.len() as int) =~= events);
    } else {
        assert(events.take(i) =~= events);
    }
}

/// Once any step has failed — its failure event was delivered in the
/// phase that step belongs to — the machine is in `Failed` ever after and
/// never reaches `WalletReady`, the only phase whose action is the
/// broadcast: `send_coins` is never invoked after a failed step.
pub proof fn lemma_no_send_after_failure(events: Seq<Event>, i: int)
    requires
        0 <= i < events.len(),
        is_failure_event(events[i]),
        event_fits(phase_after(events.take(i)), events[i]),
    ensures
        phase_after(events) is Failed,
        !(phase_after(events) is WalletReady),
{
    assert(events.take(i + 1).drop_last() =~= events.take(i));
    assert(events.take(i + 1).last() == events[i]);
    lemma_failure_event_fails(phase_after(events.take(i)), events[i]);
    lemma_final_phase_absorbs(events, i + 1);
}

/// The machine completes only along the full success path: five events,
/// the first four the success reports of credential resolution,
/// connection, balance query and wallet derivation, in that order, and
/// the fifth the accepted broadcast whose receipt the outcome classifies.
pub proof fn lemma_completion_needs_every_step(events: Seq<Event>)
    requires
        forall|j: int| 0 <= j < events.len() ==> event_fits(phase_after(events.take(j)), #[trigger] events[j]),
        phase_after(events) is Completed,
    ensures
        events.len() == 5,
        events[0] is CredentialResolved,
        events[1] is ConnectSucceeded,
        events[2] is BalancesRetrieved,
        events[3] is WalletDerived,
        events[4] is BroadcastAccepted,
        phase_after(events) == Phase::Completed(
            spec_classify(events[4]->BroadcastAccepted_0),
        ),
{
    let n = events.len() as int;
    assert(n > 0);
    let prefix = events.drop_last();
    assert(prefix =~= events.take(n - 1));
    assert(event_fits(phase_after(prefix), events.last()));
    assert(phase_after(prefix) is WalletReady && events.last() is BroadcastAccepted);
    assert forall|j: int| 0 <= j < prefix.len() implies event_fits(
        phase_after(prefix.take(j)),
        #[trigger] prefix[j],
    ) by {
        assert(prefix.take(j) =~= events.take(j));
        assert(prefix[j] == events[j]);
    }
    lemma_wallet_ready_needs_every_step(prefix);
    assert(events[4] == events.last());
    assert(forall|j: int| 0 <= j < 4 ==> events[j] == prefix[j]);
}

/// The machine is ready to broadcast only after the four earlier steps
/// all succeeded, in order.
pub proof fn lemma_wallet_ready_needs_every_step(events: Seq<Event>)
    requires
        forall|j: int| 0 <= j < events.len() ==> event_fits(phase_after(events.take(j)), #[trigger] events[j]),
        phase_after(events) is WalletReady,
    ensures
        events.len() == 4,
        events[0] is CredentialResolved,
        events[1] is ConnectSucceeded,
        events[2] is BalancesRetrieved,
        events[3] is WalletDerived,
{
    let n = events.len() as int;
    assert(n > 0);
    let prefix = events.drop_last();
    assert(prefix =~= events.take(n - 1));
    assert(event_fits(phase_after(prefix), events.last()));
    assert(phase_after(prefix) is BalancesFetched && events.last() is WalletDerived);
    assert forall|j: int| 0 <= j < prefix.len() implies event_fits(
        phase_after(prefix.take(j)),
        #[trigger] prefix[j],
    ) by {
        assert(prefix.take(j) =~= events.take(j));
        assert(prefix[j] == events[j]);
    }
    lemma_balances_fetched_needs_every_step(prefix);
}

/// The balance query finishes only after credential resolution and
/// connection both succeeded, in order.
pub proof fn lemma_balances_fetched_needs_every_step(events: Seq<Event>)
    requires
        forall|j: int| 0 <= j < events.len() ==> event_fits(phase_after(events.take(j)), #[trigger] events[j]),
        phase_after(events) is BalancesFetched,
    ensures
        events.len() == 3,
        events[0] is CredentialResolved,
        events[1] is ConnectSucceeded,
        events[2] is BalancesRetrieved,
{
    let n = events.len() as int;
    assert(n > 0);
    let prefix = events.drop_last();
    assert(prefix =~= events.take(n - 1));
    assert(event_fits(phase_after(prefix), events.last()));
    assert(phase_after(prefix) is Connected && events.last() is BalancesRetrieved);
    let prefix2 = prefix.drop_last();
    assert(prefix2 =~= events.take(n - 2));
    assert(event_fits(phase_after(prefix2), prefix.last()));
    assert(phase_after(prefix2) is CredentialHeld && prefix.last() is ConnectSucceeded);
    let prefix3 = prefix2.drop_last();
    assert(prefix3 =~= events.take(n - 3));
    assert(event_fits(phase_after(prefix3), prefix2.last()));
    assert(phase_after(prefix3) is Start && prefix2.last() is CredentialResolved);
    assert(prefix3.len() == 0) by {
        if prefix3.len() > 0 {
            let j = n - 4;
            assert(prefix3.drop_last() =~= events.take(j));
            assert(prefix3.last() == events[j]);
            assert(event_fits(phase_after(events.take(j)), events[j]));
            assert(spec_step(phase_after(events.take(j)), events[j]) is Start);
            assert(false);
        }
    }
}

} // verus!
