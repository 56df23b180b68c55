use num_bigint::{BigInt, Sign};
use simple_bank::action::{next_arg, no_more_args, Action, ParseError};
use simple_bank::bank::BankState;
use simple_bank::model::BankError;
use simple_bank::num::BigNum;
use simple_bank::oracle::{replay, replay_step, NondetPicks, OracleError, TraceStep, Violation};

fn n(v: i64) -> BigNum {
    BigNum::from_i64(v)
}

fn big(b: &BigNum) -> BigInt {
    let sign = if b.negative { Sign::Minus } else { Sign::Plus };
    BigInt::from_slice(sign, &b.digits)
}

fn s(v: &str) -> String {
    v.to_string()
}

fn balance(state: &BankState, account: &str) -> Option<BigInt> {
    state.balance_of(&s(account)).map(|b| big(&b))
}

fn funded(account: &str, amount: i64) -> BankState {
    let mut state = BankState::new();
    state.deposit(s(account), n(amount)).unwrap();
    state
}

fn same(a: &BankState, b: &BankState) -> bool {
    let pairs_a: Vec<(String, BigInt)> = a.balances.iter().map(|(k, v)| (k.clone(), big(v))).collect();
    let pairs_b: Vec<(String, BigInt)> = b.balances.iter().map(|(k, v)| (k.clone(), big(v))).collect();
    let inv_a: Vec<(BigInt, String, BigInt)> =
        a.investments.iter().map(|(k, i)| (big(k), i.owner.clone(), big(&i.amount))).collect();
    let inv_b: Vec<(BigInt, String, BigInt)> =
        b.investments.iter().map(|(k, i)| (big(k), i.owner.clone(), big(&i.amount))).collect();
    pairs_a == pairs_b && inv_a == inv_b && big(&a.next_id) == big(&b.next_id)
}

#[test]
fn deposit_into_empty_ledger() {
    let mut state = BankState::new();
    assert_eq!(state.deposit(s("alice"), n(100)), Ok(()));
    assert_eq!(balance(&state, "alice"), Some(BigInt::from(100)));
}

#[test]
fn withdraw_more_than_balance_fails() {
    let mut state = funded("alice", 100);
    assert_eq!(state.withdraw(s("alice"), n(150)), Err(BankError::InsufficientFunds));
    assert_eq!(balance(&state, "alice"), Some(BigInt::from(100)));
}

#[test]
fn buy_and_sell_scenario() {
    let mut state = funded("alice", 100);
    assert_eq!(state.buy_investment(s("alice"), n(40)), Ok(()));
    let inv = state.investment(&n(0)).unwrap();
    assert_eq!(inv.owner, "alice");
    assert_eq!(big(&inv.amount), BigInt::from(40));
    assert_eq!(balance(&state, "alice"), Some(BigInt::from(60)));
    assert_eq!(state.sell_investment(s("bob"), n(0)), Err(BankError::NotOwner));
    assert_eq!(state.sell_investment(s("alice"), n(0)), Ok(()));
    assert_eq!(balance(&state, "alice"), Some(BigInt::from(100)));
    assert!(state.investment(&n(0)).is_none());
    assert_eq!(big(&state.next_id), BigInt::from(1));
}

#[test]
fn failed_calls_leave_state_unchanged() {
    let mut state = funded("alice", 100);
    state.buy_investment(s("alice"), n(10)).unwrap();
    let before = state.clone();
    assert_eq!(state.deposit(s("alice"), n(0)), Err(BankError::InvalidAmount));
    assert_eq!(state.deposit(s("alice"), n(-5)), Err(BankError::InvalidAmount));
    assert_eq!(state.withdraw(s("carol"), n(5)), Err(BankError::UnknownAccount));
    assert_eq!(state.transfer(s("alice"), s("bob"), n(91)), Err(BankError::InsufficientFunds));
    assert_eq!(state.transfer(s("carol"), s("bob"), n(1)), Err(BankError::UnknownAccount));
    assert_eq!(state.buy_investment(s("alice"), n(0)), Err(BankError::InvalidAmount));
    assert_eq!(state.sell_investment(s("alice"), n(7)), Err(BankError::UnknownInvestment));
    assert_eq!(state.sell_investment(s("bob"), n(0)), Err(BankError::NotOwner));
    assert!(same(&state, &before));
}

#[test]
fn guard_order_amount_first() {
    let mut state = BankState::new();
    assert_eq!(state.withdraw(s("nobody"), n(0)), Err(BankError::InvalidAmount));
    assert_eq!(state.buy_investment(s("nobody"), n(-1)), Err(BankError::InvalidAmount));
    assert_eq!(state.buy_investment(s("nobody"), n(1)), Err(BankError::UnknownAccount));
}

#[test]
fn withdraw_whole_balance_keeps_entry() {
    let mut state = funded("alice", 100);
    assert_eq!(state.withdraw(s("alice"), n(100)), Ok(()));
    assert_eq!(balance(&state, "alice"), Some(BigInt::from(0)));
    assert_eq!(state.withdraw(s("alice"), n(1)), Err(BankError::InsufficientFunds));
}

#[test]
fn transfer_opens_receiver_and_self_transfer_is_neutral() {
    let mut state = funded("alice", 100);
    assert_eq!(state.transfer(s("alice"), s("bob"), n(30)), Ok(()));
    assert_eq!(balance(&state, "alice"), Some(BigInt::from(70)));
    assert_eq!(balance(&state, "bob"), Some(BigInt::from(30)));
    assert_eq!(state.transfer(s("alice"), s("alice"), n(70)), Ok(()));
    assert_eq!(balance(&state, "alice"), Some(BigInt::from(70)));
}

#[test]
fn sell_opens_entry_of_seller_without_balance() {
    let mut state = funded("alice", 50);
    state.buy_investment(s("alice"), n(50)).unwrap();
    let mut other = BankState::new();
    other.investments = state.investments.clone();
    other.next_id = n(1);
    assert_eq!(balance(&other, "alice"), None);
    assert_eq!(other.sell_investment(s("alice"), n(0)), Ok(()));
    assert_eq!(balance(&other, "alice"), Some(BigInt::from(50)));
}

#[test]
fn ids_increase_by_one_and_are_not_reused() {
    let mut state = funded("alice", 100);
    state.buy_investment(s("alice"), n(10)).unwrap();
    state.buy_investment(s("alice"), n(20)).unwrap();
    assert_eq!(big(&state.next_id), BigInt::from(2));
    state.sell_investment(s("alice"), n(1)).unwrap();
    state.buy_investment(s("alice"), n(5)).unwrap();
    assert_eq!(big(&state.next_id), BigInt::from(3));
    assert!(state.investment(&n(1)).is_none());
    assert_eq!(big(&state.investment(&n(2)).unwrap().amount), BigInt::from(5));
    state.deposit(s("alice"), n(1)).unwrap();
    assert_eq!(big(&state.next_id), BigInt::from(3));
}

#[test]
fn holdings_equal_deposits_minus_withdrawals() {
    let mut state = BankState::new();
    state.deposit(s("alice"), n(100)).unwrap();
    state.deposit(s("bob"), n(50)).unwrap();
    state.transfer(s("alice"), s("bob"), n(25)).unwrap();
    state.buy_investment(s("bob"), n(60)).unwrap();
    state.withdraw(s("alice"), n(15)).unwrap();
    state.buy_investment(s("alice"), n(10)).unwrap();
    state.sell_investment(s("bob"), n(0)).unwrap();
    let mut total = BigInt::from(0);
    for (_, b) in &state.balances {
        total += big(b);
    }
    for (_, i) in &state.investments {
        total += big(&i.amount);
    }
    assert_eq!(total, BigInt::from(135));
}

#[test]
fn sell_right_after_buy_restores_balance() {
    let mut state = funded("carol", 77);
    state.buy_investment(s("carol"), n(77)).unwrap();
    assert_eq!(balance(&state, "carol"), Some(BigInt::from(0)));
    state.sell_investment(s("carol"), n(0)).unwrap();
    assert_eq!(balance(&state, "carol"), Some(BigInt::from(77)));
    assert!(state.investments.is_empty());
}

#[test]
fn amounts_beyond_machine_words() {
    let huge: BigInt = "340282366920938463463374607431768211457".parse().unwrap();
    let action = Action::parse("deposit alice 340282366920938463463374607431768211457").unwrap();
    let mut state = BankState::new();
    state.apply(action).unwrap();
    state.apply(Action::parse("deposit alice 18446744073709551615").unwrap()).unwrap();
    let expected = &huge + BigInt::from(u64::MAX);
    assert_eq!(balance(&state, "alice"), Some(expected.clone()));
    state.apply(Action::parse("withdraw alice 340282366920938463463374607431768211457").unwrap()).unwrap();
    assert_eq!(balance(&state, "alice"), Some(BigInt::from(u64::MAX)));
}

#[test]
fn big_num_arithmetic_and_order() {
    let a = n(4_294_967_296);
    let b = n(1);
    assert_eq!(big(&a.add_natural(&b)), BigInt::from(4_294_967_297i64));
    assert_eq!(big(&a.sub_natural(&b)), BigInt::from(4_294_967_295i64));
    assert!(b.less_than(&a));
    assert!(!a.less_than(&b));
    assert!(n(-3).less_than(&n(2)));
    assert!(n(-3).less_than(&n(-2)));
    assert!(n(0).equals(&BigNum { negative: true, digits: vec![0, 0] }));
    assert!(!n(5).equals(&n(-5)));
    assert!(n(1).is_positive());
    assert!(!n(0).is_positive());
    assert!(!n(-1).is_positive());
    assert_eq!(big(&n(i64::MIN)), BigInt::from(i64::MIN));
    assert_eq!(big(&BigNum::from_u64(u64::MAX)), BigInt::from(u64::MAX));
}

#[test]
fn parse_each_action() {
    match Action::parse("deposit alice 100").unwrap() {
        Action::Deposit { depositor, amount } => {
            assert_eq!(depositor, "alice");
            assert_eq!(big(&amount), BigInt::from(100));
        }
        other => panic!("unexpected {:?}", other),
    }
    match Action::parse("  transfer   a  b   -7 ").unwrap() {
        Action::Transfer { sender, receiver, amount } => {
            assert_eq!((sender.as_str(), receiver.as_str()), ("a", "b"));
            assert_eq!(big(&amount), BigInt::from(-7));
        }
        other => panic!("unexpected {:?}", other),
    }
    match "sell_investment bob 1_000".parse::<Action>().unwrap() {
        Action::SellInvestment { seller, investment_id } => {
            assert_eq!(seller, "bob");
            assert_eq!(big(&investment_id), BigInt::from(1000));
        }
        other => panic!("unexpected {:?}", other),
    }
    assert!(matches!(Action::parse("withdraw x +3"), Ok(Action::Withdraw { .. })));
    assert!(matches!(Action::parse("buy_investment x 3"), Ok(Action::BuyInvestment { .. })));
}

#[test]
fn parse_errors() {
    assert_eq!(Action::parse("").unwrap_err(), ParseError::MissingInput);
    assert_eq!(Action::parse("   ").unwrap_err(), ParseError::MissingInput);
    assert_eq!(Action::parse("steal alice 5").unwrap_err(), ParseError::UnknownCommand);
    assert_eq!(Action::parse("deposit alice").unwrap_err(), ParseError::TooFewArguments);
    assert_eq!(Action::parse("transfer a b").unwrap_err(), ParseError::TooFewArguments);
    assert_eq!(Action::parse("deposit alice 5 6").unwrap_err(), ParseError::TooManyArguments);
    assert_eq!(Action::parse("deposit alice five 6").unwrap_err(), ParseError::InvalidAmount);
    assert_eq!(Action::parse("withdraw alice _5").unwrap_err(), ParseError::InvalidAmount);
    assert_eq!(Action::parse("withdraw alice -+5").unwrap_err(), ParseError::InvalidAmount);
    assert_eq!(Action::parse("sell_investment alice x").unwrap_err(), ParseError::InvalidId);
}

#[test]
fn argument_cursor() {
    let tokens = vec![s("a"), s("b")];
    let mut pos: usize = 0;
    assert_eq!(next_arg(&tokens, &mut pos), Ok(s("a")));
    assert_eq!(pos, 1);
    assert_eq!(no_more_args(&tokens, pos), Err(ParseError::TooManyArguments));
    assert_eq!(next_arg(&tokens, &mut pos), Ok(s("b")));
    assert_eq!(next_arg(&tokens, &mut pos), Err(ParseError::TooFewArguments));
    assert_eq!(pos, 2);
    assert_eq!(no_more_args(&tokens, pos), Ok(()));
}

fn picks() -> NondetPicks {
    NondetPicks {
        depositor: None,
        withdrawer: None,
        sender: None,
        receiver: None,
        amount: None,
        buyer: None,
        seller: None,
        id: None,
    }
}

fn step(label: &str, error: bool, p: NondetPicks) -> TraceStep {
    TraceStep {
        action_taken: s(label),
        error: if error { Some(s("declared")) } else { None },
        nondet_picks: p,
    }
}

fn deposit_step(who: &str, amount: i64, error: bool) -> TraceStep {
    let mut p = picks();
    p.depositor = Some(s(who));
    p.amount = Some(n(amount));
    step("deposit_action", error, p)
}

fn transfer_step(from: &str, to: &str, amount: i64, error: bool) -> TraceStep {
    let mut p = picks();
    p.sender = Some(s(from));
    p.receiver = Some(s(to));
    p.amount = Some(n(amount));
    step("transfer_action", error, p)
}

#[test]
fn check_trace() {
    let mut withdraw = picks();
    withdraw.withdrawer = Some(s("alice"));
    withdraw.amount = Some(n(500));
    let mut buy = picks();
    buy.buyer = Some(s("bob"));
    buy.amount = Some(n(20));
    let mut sell_wrong = picks();
    sell_wrong.seller = Some(s("alice"));
    sell_wrong.id = Some(n(0));
    let mut sell = picks();
    sell.seller = Some(s("bob"));
    sell.id = Some(n(0));
    let steps = vec![
        step("init", false, picks()),
        deposit_step("alice", 100, false),
        deposit_step("alice", 0, true),
        transfer_step("alice", "bob", 40, false),
        step("withdraw_action", true, withdraw),
        step("buy_investment_action", false, buy),
        step("sell_investment_action", true, sell_wrong),
        step("sell_investment_action", false, sell),
    ];
    let state = replay(BankState::new(), &steps).unwrap();
    assert_eq!(balance(&state, "alice"), Some(BigInt::from(60)));
    assert_eq!(balance(&state, "bob"), Some(BigInt::from(40)));
    assert!(state.investments.is_empty());
    assert_eq!(big(&state.next_id), BigInt::from(1));
}

#[test]
fn declared_failure_that_succeeds_is_reported_at_its_step() {
    let steps = vec![
        step("init", false, picks()),
        deposit_step("alice", 100, false),
        deposit_step("bob", 5, false),
        transfer_step("alice", "bob", 10, true),
        deposit_step("alice", 1, false),
    ];
    let r = replay(BankState::new(), &steps);
    assert_eq!(
        r.unwrap_err(),
        Violation { step: 3, kind: OracleError::Mismatch { declared_failure: true } }
    );
}

#[test]
fn declared_success_that_fails_is_reported() {
    let steps = vec![step("init", false, picks()), transfer_step("alice", "bob", 10, false)];
    assert_eq!(
        replay(BankState::new(), &steps).unwrap_err(),
        Violation { step: 1, kind: OracleError::Mismatch { declared_failure: false } }
    );
}

#[test]
fn malformed_and_unknown_steps() {
    let mut state = funded("alice", 10);
    let mut p = picks();
    p.depositor = Some(s("alice"));
    assert_eq!(
        replay_step(&mut state, &step("deposit_action", false, p)),
        Err(OracleError::MalformedTrace)
    );
    assert_eq!(
        replay_step(&mut state, &step("rob_action", false, picks())),
        Err(OracleError::InvalidActionLabel)
    );
    let steps = vec![step("init", false, picks()), step("init_action", false, picks())];
    assert_eq!(
        replay(state, &steps).unwrap_err(),
        Violation { step: 1, kind: OracleError::InvalidActionLabel }
    );
}

#[test]
fn invariant_check_on_outside_snapshots() {
    let mut state = funded("alice", 10);
    state.buy_investment(s("alice"), n(5)).unwrap();
    assert!(state.check_wf());
    assert!(BankState::new().check_wf());

    let mut dup = state.clone();
    dup.balances.push((s("alice"), n(1)));
    assert!(!dup.check_wf());

    let mut negative = state.clone();
    negative.balances.push((s("bob"), n(-1)));
    assert!(!negative.check_wf());

    let mut stale_id = state.clone();
    stale_id.next_id = n(0);
    assert!(!stale_id.check_wf());

    let mut zero_investment = state.clone();
    zero_investment.investments[0].1.amount = n(0);
    assert!(!zero_investment.check_wf());

    let mut twice = state.clone();
    twice.next_id = n(5);
    let copy = twice.investments[0].clone();
    twice.investments.push((BigNum { negative: false, digits: vec![0, 0] }, copy.1));
    assert!(!twice.check_wf());
}

#[test]
fn words_split_on_unicode_white_space() {
    match Action::parse("\tdeposit\u{3000}alice\u{a0}\u{2003}5\n").unwrap() {
        Action::Deposit { depositor, amount } => {
            assert_eq!(depositor, "alice");
            assert_eq!(big(&amount), BigInt::from(5));
        }
        other => panic!("unexpected {:?}", other),
    }
}
