use coin_transfer::orchestrator::Action;
use coin_transfer::orchestrator::Balance;
use coin_transfer::orchestrator::Coin;
use coin_transfer::orchestrator::Event;
use coin_transfer::orchestrator::Orchestrator;
use coin_transfer::orchestrator::OrchestrationError;
use coin_transfer::orchestrator::Outcome;
use coin_transfer::orchestrator::Phase;
use coin_transfer::orchestrator::Receipt;
use coin_transfer::orchestrator::classify;
use coin_transfer::validation::validate;

fn start(amount_token: &str, destination: &str) -> Orchestrator {
    let req = validate(amount_token, destination).unwrap();
    Orchestrator::new(req)
}

fn receipt(code: u32) -> Receipt {
    Receipt {
        code,
        height: 7_654_321,
        txhash: "CAFEBABE00".to_owned(),
    }
}

#[test]
fn zero_code_receipt_is_success() {
    let o = classify(receipt(0));
    assert_eq!(o, Outcome::Success(receipt(0)));
}

#[test]
fn nonzero_code_receipt_is_failure() {
    let o = classify(receipt(5));
    assert_eq!(o, Outcome::ChainFailure(receipt(5)));
    let o = classify(receipt(13));
    assert_eq!(o, Outcome::ChainFailure(receipt(13)));
}

#[test]
fn happy_path_reaches_completed_success() {
    let mut orch = start("110uosmo", "osmo1dest");
    assert_eq!(orch.next_action(), Action::ResolveCredential);
    orch = orch.step(Event::CredentialResolved);
    assert_eq!(orch.next_action(), Action::Connect);
    orch = orch.step(Event::ConnectSucceeded);
    assert_eq!(
        orch.next_action(),
        Action::QueryBalances("osmo1dest".to_owned())
    );
    orch = orch.step(Event::BalancesRetrieved(vec![Balance {
        denom: "uosmo".to_owned(),
        amount: "999".to_owned(),
    }]));
    assert_eq!(orch.next_action(), Action::DeriveWallet);
    orch = orch.step(Event::WalletDerived);
    assert_eq!(
        orch.next_action(),
        Action::SendCoins(
            "osmo1dest".to_owned(),
            Coin {
                denom: "uosmo".to_owned(),
                amount: 110,
            }
        )
    );
    orch = orch.step(Event::BroadcastAccepted(receipt(0)));
    assert_eq!(orch.next_action(), Action::Halt);
    assert_eq!(
        orch.current_phase(),
        &Phase::Completed(Outcome::Success(receipt(0)))
    );
}

#[test]
fn chain_rejection_reaches_completed_failure() {
    let mut orch = start("110uosmo", "osmo1dest");
    orch = orch.step(Event::CredentialResolved);
    orch = orch.step(Event::ConnectSucceeded);
    orch = orch.step(Event::BalancesRetrieved(vec![]));
    orch = orch.step(Event::WalletDerived);
    orch = orch.step(Event::BroadcastAccepted(receipt(11)));
    assert_eq!(orch.next_action(), Action::Halt);
    assert_eq!(
        orch.current_phase(),
        &Phase::Completed(Outcome::ChainFailure(receipt(11)))
    );
}

#[test]
fn missing_credential_halts_before_any_network_call() {
    let mut orch = start("110uosmo", "osmo1dest");
    assert_eq!(orch.next_action(), Action::ResolveCredential);
    orch = orch.step(Event::CredentialMissing("no credential configured".to_owned()));
    assert_eq!(orch.next_action(), Action::Halt);
    assert_eq!(
        orch.current_phase(),
        &Phase::Failed(OrchestrationError::Credential(
            "no credential configured".to_owned()
        ))
    );
}

#[test]
fn connect_failure_stops_the_transfer() {
    let mut orch = start("110uosmo", "osmo1dest");
    orch = orch.step(Event::CredentialResolved);
    orch = orch.step(Event::ConnectFailed("node unreachable".to_owned()));
    assert_eq!(orch.next_action(), Action::Halt);
    assert_eq!(
        orch.current_phase(),
        &Phase::Failed(OrchestrationError::Connectivity(
            "node unreachable".to_owned()
        ))
    );
}

#[test]
fn balance_query_failure_stops_the_transfer() {
    let mut orch = start("110uosmo", "osmo1dest");
    orch = orch.step(Event::CredentialResolved);
    orch = orch.step(Event::ConnectSucceeded);
    orch = orch.step(Event::BalanceQueryFailed("query timed out".to_owned()));
    assert_eq!(orch.next_action(), Action::Halt);
    assert_eq!(
        orch.current_phase(),
        &Phase::Failed(OrchestrationError::Query("query timed out".to_owned()))
    );
}

#[test]
fn wallet_derivation_failure_is_a_credential_error() {
    let mut orch = start("110uosmo", "osmo1dest");
    orch = orch.step(Event::CredentialResolved);
    orch = orch.step(Event::ConnectSucceeded);
    orch = orch.step(Event::BalancesRetrieved(vec![]));
    orch = orch.step(Event::WalletDerivationFailed("bad phrase".to_owned()));
    assert_eq!(orch.next_action(), Action::Halt);
    assert_eq!(
        orch.current_phase(),
        &Phase::Failed(OrchestrationError::Credential("bad phrase".to_owned()))
    );
}

#[test]
fn broadcast_transport_failure_is_not_a_chain_failure() {
    let mut orch = start("110uosmo", "osmo1dest");
    orch = orch.step(Event::CredentialResolved);
    orch = orch.step(Event::ConnectSucceeded);
    orch = orch.step(Event::BalancesRetrieved(vec![]));
    orch = orch.step(Event::WalletDerived);
    orch = orch.step(Event::BroadcastFailed("connection reset".to_owned()));
    assert_eq!(orch.next_action(), Action::Halt);
    assert_eq!(
        orch.current_phase(),
        &Phase::Failed(OrchestrationError::Broadcast("connection reset".to_owned()))
    );
}

#[test]
fn event_for_a_later_step_changes_nothing() {
    let mut orch = start("110uosmo", "osmo1dest");
    orch = orch.step(Event::ConnectSucceeded);
    assert_eq!(orch.current_phase(), &Phase::Start);
    assert_eq!(orch.next_action(), Action::ResolveCredential);
    orch = orch.step(Event::BroadcastFailed("out of order".to_owned()));
    assert_eq!(orch.current_phase(), &Phase::Start);
}

#[test]
fn failure_is_final_whatever_comes_later() {
    let mut orch = start("110uosmo", "osmo1dest");
    orch = orch.step(Event::CredentialResolved);
    orch = orch.step(Event::ConnectFailed("node unreachable".to_owned()));
    orch = orch.step(Event::ConnectSucceeded);
    orch = orch.step(Event::WalletDerived);
    orch = orch.step(Event::BroadcastAccepted(receipt(0)));
    assert_eq!(
        orch.current_phase(),
        &Phase::Failed(OrchestrationError::Connectivity(
            "node unreachable".to_owned()
        ))
    );
    assert_eq!(orch.next_action(), Action::Halt);
}

#[test]
fn send_carries_exactly_the_validated_request() {
    let mut orch = start("18446744073709551615tok-9", "addr_A-B");
    orch = orch.step(Event::CredentialResolved);
    orch = orch.step(Event::ConnectSucceeded);
    orch = orch.step(Event::BalancesRetrieved(vec![]));
    orch = orch.step(Event::WalletDerived);
    match orch.next_action() {
        Action::SendCoins(destination, coin) => {
            assert_eq!(destination, "addr_A-B");
            assert_eq!(coin.denom, "tok-9");
            assert_eq!(coin.amount, u64::MAX);
        }
        other => panic!("expected the broadcast action, got {:?}", other),
    }
}

#[test]
fn request_well_formedness_is_checkable_at_runtime() {
    let req = validate("110uosmo", "osmo1dest").unwrap();
    assert!(req.well_formed());
}
