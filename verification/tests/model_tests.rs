use jury_trial::error::ContractError;
use jury_trial::models::{
    Background, Choice, Font, ProgrammingLanguage, Status, Style, Token, Trial, Verdict, Vote,
};
use jury_trial::msg::{
    ExecuteMsg, GetSomethingResponse, InstantiateMsg, JurorIntiatiationParams, QueryMsg,
};
use jury_trial::query::{get_ballot, get_trial};
use jury_trial::response::{Coin, TransferMsg};
use jury_trial::state::{initialize, Something};
use jury_trial::util::{
    build_cw20_transfer_msg, build_native_send_msg, validate_cw20_funds, validate_native_funds,
};

fn sample_msg() -> InstantiateMsg {
    InstantiateMsg {
        prompt: "prompt".to_string(),
        choices: vec!["yes".to_string(), "no".to_string()],
        verdict: Verdict {
            script: "script".to_string(),
            language: ProgrammingLanguage::Rust,
            start: 42,
            minutes: 5,
        },
        token: Token::Native { denom: "uatom".to_string() },
        price: 3,
        style: Style {
            background: Background::Video {
                provider: "tube".to_string(),
                id: "xyz".to_string(),
            },
            font: Font { family: "serif".to_string(), color: "red".to_string() },
        },
        jury: vec![
            JurorIntiatiationParams {
                address: "j1".to_string(),
                name: "Juror One".to_string(),
                url: Some("https://example.test/j1".to_string()),
                pct: 60,
            },
            JurorIntiatiationParams {
                address: "j2".to_string(),
                name: "Juror Two".to_string(),
                url: None,
                pct: 40,
            },
        ],
    }
}

#[test]
fn initialize_builds_an_active_zeroed_trial() {
    let s = initialize(&"owner".to_string(), &sample_msg());
    assert_eq!(s.trial.owner, "owner");
    assert_eq!(s.trial.prompt, "prompt");
    assert_eq!(s.trial.status, Status::Active);
    assert_eq!(s.trial.weight, 0);
    assert_eq!(s.trial.winner, None);
    assert_eq!(s.trial.price, 3);
    assert_eq!(
        s.trial.choices,
        vec![
            Choice { text: "yes".to_string(), tally: 0, weight: 0 },
            Choice { text: "no".to_string(), tally: 0, weight: 0 },
        ]
    );
    assert_eq!(s.jurors.len(), 2);
    assert_eq!(s.jurors[0].address, "j1");
    assert_eq!(s.jurors[0].choice, None);
    assert_eq!(s.jurors[0].logs, None);
    assert_eq!(s.jurors[0].pct, 60);
    assert_eq!(s.jurors[1].url, None);
    assert!(s.votes.is_empty());
    assert!(s.has_claimed.is_empty());
    assert_eq!(s.voters_claim_amount, None);
    assert_eq!(s.cancel_reason, None);
}

#[test]
fn initialize_sorts_the_jury_by_identity() {
    let mut msg = sample_msg();
    msg.jury = vec![
        JurorIntiatiationParams {
            address: "zoe".to_string(),
            name: "Z".to_string(),
            url: None,
            pct: 10,
        },
        JurorIntiatiationParams {
            address: "ann".to_string(),
            name: "A".to_string(),
            url: None,
            pct: 20,
        },
        JurorIntiatiationParams {
            address: "bob".to_string(),
            name: "B".to_string(),
            url: None,
            pct: 30,
        },
    ];
    let s = initialize(&"owner".to_string(), &msg);
    let addresses: Vec<&str> = s.jurors.iter().map(|j| j.address.as_str()).collect();
    assert_eq!(addresses, vec!["ann", "bob", "zoe"]);
}

#[test]
fn initialize_registers_a_repeated_juror_once() {
    let mut msg = sample_msg();
    msg.jury.push(JurorIntiatiationParams {
        address: "j1".to_string(),
        name: "Juror One Again".to_string(),
        url: None,
        pct: 10,
    });
    let s = initialize(&"owner".to_string(), &msg);
    assert_eq!(s.jurors.len(), 2);
    // the later registration overwrites the earlier record in place
    assert_eq!(s.jurors[0].address, "j1");
    assert_eq!(s.jurors[0].name, "Juror One Again");
    assert_eq!(s.jurors[0].pct, 10);
}

#[test]
fn status_predicates_follow_the_status() {
    let s = initialize(&"owner".to_string(), &sample_msg());
    let mut t = s.trial;
    assert!(t.is_active());
    assert!(t.can_be_canceled());
    assert!(!t.has_verdict());
    t.status = Status::Deliberating;
    assert!(t.is_in_deliberations());
    assert!(t.can_be_canceled());
    t.status = Status::HasVerdict;
    assert!(t.has_verdict());
    assert!(!t.can_be_canceled());
    t.status = Status::HungJury;
    assert!(t.has_hung_jury());
    t.status = Status::Dismissed;
    assert!(t.has_been_canceled());
    assert!(!t.can_be_canceled());
}

#[test]
fn queries_snapshot_the_trial() {
    let s = initialize(&"owner".to_string(), &sample_msg());
    let snapshot = get_trial(&s);
    assert_eq!(snapshot.trial, s.trial);
    let ballot = get_ballot(&s);
    assert_eq!(ballot.ballot, s.trial);
}

#[test]
fn native_funds_validation_uses_the_first_matching_coin() {
    let denom = "uatom".to_string();
    let exact = vec![Coin { denom: "uatom".to_string(), amount: 30 }];
    assert_eq!(validate_native_funds(&exact, 30, &denom), Ok(()));

    let low = vec![Coin { denom: "uatom".to_string(), amount: 29 }];
    assert_eq!(
        validate_native_funds(&low, 30, &denom),
        Err(ContractError::InsufficientFunds)
    );

    let high = vec![Coin { denom: "uatom".to_string(), amount: 31 }];
    assert_eq!(
        validate_native_funds(&high, 30, &denom),
        Err(ContractError::ExcessiveFunds)
    );

    let none = vec![Coin { denom: "uosmo".to_string(), amount: 30 }];
    assert_eq!(
        validate_native_funds(&none, 30, &denom),
        Err(ContractError::InsufficientFunds)
    );

    // only the first coin of the denomination counts
    let split = vec![
        Coin { denom: "uatom".to_string(), amount: 10 },
        Coin { denom: "uatom".to_string(), amount: 20 },
    ];
    assert_eq!(
        validate_native_funds(&split, 30, &denom),
        Err(ContractError::InsufficientFunds)
    );
}

#[test]
fn cw20_funds_validation_compares_the_balance() {
    assert_eq!(validate_cw20_funds(30, 30), Ok(()));
    assert_eq!(validate_cw20_funds(31, 30), Ok(()));
    assert_eq!(validate_cw20_funds(29, 30), Err(ContractError::InsufficientFunds));
}

#[test]
fn transfer_builders_carry_their_arguments() {
    let native = build_native_send_msg(&"to".to_string(), &"uatom".to_string(), 7);
    assert_eq!(
        native,
        TransferMsg::Native {
            to_address: "to".to_string(),
            denom: "uatom".to_string(),
            amount: 7,
        }
    );
    let cw20 = build_cw20_transfer_msg(
        &"from".to_string(),
        &"to".to_string(),
        &"token".to_string(),
        9,
    );
    assert_eq!(
        cw20,
        TransferMsg::Cw20 {
            owner: "from".to_string(),
            recipient: "to".to_string(),
            contract_addr: "token".to_string(),
            amount: 9,
        }
    );
}

#[test]
fn error_descriptions_name_the_variant() {
    assert_eq!(ContractError::NotAuthorized.describe(), "NotAuthorized");
    assert_eq!(ContractError::HasClaimed.describe(), "HasClaimed");
    assert_eq!(ContractError::DeliberationsExpired.describe(), "DeliberationsExpired");
}

#[test]
fn trial_clone_is_deep_and_equal() {
    let s = initialize(&"owner".to_string(), &sample_msg());
    let copy: Trial = s.trial.clone();
    assert_eq!(copy, s.trial);
}

#[test]
fn plain_records_construct_and_compare() {
    let v = Vote { choice: 1, weight: 4 };
    assert_eq!(v, Vote { choice: 1, weight: 4 });
    let m = ExecuteMsg::Vote { choice: 1, weight: 4 };
    assert_eq!(m, ExecuteMsg::Vote { choice: 1, weight: 4 });
    let q = QueryMsg::GetTrial {};
    assert!(matches!(q, QueryMsg::GetTrial {}));
    let something = Something { value: Some("x".to_string()) };
    let resp = GetSomethingResponse { something };
    assert_eq!(resp.something.value, Some("x".to_string()));
}
