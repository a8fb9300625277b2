use stellars_perps::error::Error;
use stellars_perps::principal::Principal;
use stellars_perps::token::FaucetToken;

fn token() -> FaucetToken {
    let mut t = FaucetToken::new();
    t.initialize(String::from("Test USDC"), String::from("USDC"), 7).unwrap();
    t
}

#[test]
fn initialize_names_the_token_once() {
    let mut t = FaucetToken::new();
    assert_eq!(t.name(), Err(Error::NotInitialized));
    assert_eq!(t.symbol(), Err(Error::NotInitialized));
    assert_eq!(t.decimals(), Err(Error::NotInitialized));

    t.initialize(String::from("Test USDC"), String::from("USDC"), 7).unwrap();
    assert_eq!(t.name(), Ok(String::from("Test USDC")));
    assert_eq!(t.symbol(), Ok(String::from("USDC")));
    assert_eq!(t.decimals(), Ok(7));
    assert_eq!(t.total_supply(), 0);

    assert_eq!(
        t.initialize(String::from("Other"), String::from("OTH"), 2),
        Err(Error::AlreadyInitialized)
    );
    assert_eq!(t.name(), Ok(String::from("Test USDC")));
}

#[test]
fn mint_adds_to_balance_and_supply() {
    let mut t = token();
    let a = Principal::new(1);
    let b = Principal::new(2);
    t.mint(a, 1000).unwrap();
    t.mint(b, 250).unwrap();
    t.mint(a, 5).unwrap();
    assert_eq!(t.balance(a), 1005);
    assert_eq!(t.balance(b), 250);
    assert_eq!(t.balance(Principal::new(3)), 0);
    assert_eq!(t.total_supply(), 1255);
}

#[test]
fn mint_refuses_nothing_and_too_much() {
    let mut t = token();
    let a = Principal::new(1);
    assert_eq!(t.mint(a, 0), Err(Error::AmountNotPositive));
    assert_eq!(t.mint(a, -5), Err(Error::AmountNotPositive));
    t.mint(a, i128::MAX).unwrap();
    assert_eq!(t.mint(Principal::new(2), 1), Err(Error::Overflow));
    assert_eq!(t.total_supply(), i128::MAX);
    assert_eq!(t.balance(Principal::new(2)), 0);
}

#[test]
fn transfer_moves_and_keeps_the_supply() {
    let mut t = token();
    let a = Principal::new(1);
    let b = Principal::new(2);
    t.mint(a, 1000).unwrap();
    t.transfer(a, b, 300).unwrap();
    assert_eq!(t.balance(a), 700);
    assert_eq!(t.balance(b), 300);
    assert_eq!(t.total_supply(), 1000);
    t.transfer(b, a, 300).unwrap();
    assert_eq!(t.balance(a), 1000);
    assert_eq!(t.balance(b), 0);
}

#[test]
fn transfer_refuses_nothing_and_more_than_is_held() {
    let mut t = token();
    let a = Principal::new(1);
    let b = Principal::new(2);
    t.mint(a, 100).unwrap();
    assert_eq!(t.transfer(a, b, 0), Err(Error::AmountNotPositive));
    assert_eq!(t.transfer(a, b, -1), Err(Error::AmountNotPositive));
    assert_eq!(t.transfer(a, b, 101), Err(Error::InsufficientBalance));
    assert_eq!(t.transfer(b, a, 1), Err(Error::InsufficientBalance));
    assert_eq!(t.balance(a), 100);
    assert_eq!(t.balance(b), 0);
}

#[test]
fn a_transfer_to_oneself_changes_nothing() {
    let mut t = token();
    let a = Principal::new(1);
    t.mint(a, 100).unwrap();
    t.transfer(a, a, 60).unwrap();
    assert_eq!(t.balance(a), 100);
    assert_eq!(t.total_supply(), 100);
    assert_eq!(t.transfer(a, a, 101), Err(Error::InsufficientBalance));
}

#[test]
fn approve_sets_an_allowance_that_expires() {
    let mut t = token();
    let owner = Principal::new(1);
    let spender = Principal::new(2);
    assert_eq!(t.allowance(owner, spender, 10), 0);

    t.approve(owner, spender, 500, 20, 10).unwrap();
    assert_eq!(t.allowance(owner, spender, 10), 500);
    assert_eq!(t.allowance(owner, spender, 20), 500);
    assert_eq!(t.allowance(owner, spender, 21), 0);
    assert_eq!(t.allowance(spender, owner, 10), 0);

    // An amount of zero withdraws it.
    t.approve(owner, spender, 0, 30, 10).unwrap();
    assert_eq!(t.allowance(owner, spender, 10), 0);
}

#[test]
fn approve_refuses_negative_amounts_and_past_ledgers() {
    let mut t = token();
    let owner = Principal::new(1);
    let spender = Principal::new(2);
    assert_eq!(t.approve(owner, spender, -1, 20, 10), Err(Error::NegativeAmount));
    assert_eq!(t.approve(owner, spender, 5, 10, 10), Err(Error::ExpirationInPast));
    assert_eq!(t.approve(owner, spender, 5, 9, 10), Err(Error::ExpirationInPast));
    assert_eq!(t.allowance(owner, spender, 10), 0);
}

#[test]
fn transfer_from_spends_the_allowance() {
    let mut t = token();
    let owner = Principal::new(1);
    let spender = Principal::new(2);
    let to = Principal::new(3);
    t.mint(owner, 1000).unwrap();
    t.approve(owner, spender, 500, 20, 10).unwrap();

    t.transfer_from(spender, owner, to, 200, 11).unwrap();
    assert_eq!(t.balance(owner), 800);
    assert_eq!(t.balance(to), 200);
    assert_eq!(t.balance(spender), 0);
    assert_eq!(t.allowance(owner, spender, 11), 300);
    assert_eq!(t.total_supply(), 1000);

    t.transfer_from(spender, owner, to, 300, 12).unwrap();
    assert_eq!(t.allowance(owner, spender, 12), 0);
    assert_eq!(t.balance(to), 500);
}

#[test]
fn transfer_from_checks_amount_allowance_and_balance_in_turn() {
    let mut t = token();
    let owner = Principal::new(1);
    let spender = Principal::new(2);
    let to = Principal::new(3);
    t.mint(owner, 100).unwrap();

    assert_eq!(t.transfer_from(spender, owner, to, 0, 5), Err(Error::AmountNotPositive));
    // Without an allowance its last ledger, zero, has passed.
    assert_eq!(t.transfer_from(spender, owner, to, 10, 5), Err(Error::AllowanceExpired));
    assert_eq!(t.transfer_from(spender, owner, to, 10, 0), Err(Error::InsufficientAllowance));

    t.approve(owner, spender, 500, 20, 10).unwrap();
    assert_eq!(t.transfer_from(spender, owner, to, 501, 11), Err(Error::InsufficientAllowance));
    assert_eq!(t.transfer_from(spender, owner, to, 101, 11), Err(Error::InsufficientBalance));
    assert_eq!(t.transfer_from(spender, owner, to, 10, 21), Err(Error::AllowanceExpired));
    assert_eq!(t.balance(owner), 100);
    assert_eq!(t.balance(to), 0);
    assert_eq!(t.allowance(owner, spender, 11), 500);
}

#[test]
fn burn_takes_from_balance_and_supply() {
    let mut t = token();
    let a = Principal::new(1);
    t.mint(a, 100).unwrap();
    t.mint(Principal::new(2), 50).unwrap();
    t.burn(a, 40).unwrap();
    assert_eq!(t.balance(a), 60);
    assert_eq!(t.total_supply(), 110);
    assert_eq!(t.burn(a, 61), Err(Error::InsufficientBalance));
    assert_eq!(t.burn(a, 0), Err(Error::AmountNotPositive));
    assert_eq!(t.balance(a), 60);
    assert_eq!(t.total_supply(), 110);
}

#[test]
fn burn_from_spends_the_allowance() {
    let mut t = token();
    let owner = Principal::new(1);
    let spender = Principal::new(2);
    t.mint(owner, 100).unwrap();
    t.approve(owner, spender, 70, 20, 10).unwrap();
    t.burn_from(spender, owner, 30, 11).unwrap();
    assert_eq!(t.balance(owner), 70);
    assert_eq!(t.total_supply(), 70);
    assert_eq!(t.allowance(owner, spender, 11), 40);
    assert_eq!(t.burn_from(spender, owner, 41, 11), Err(Error::InsufficientAllowance));
    assert_eq!(t.burn_from(spender, owner, 10, 21), Err(Error::AllowanceExpired));
    assert_eq!(t.burn_from(spender, owner, -1, 11), Err(Error::AmountNotPositive));
    assert_eq!(t.balance(owner), 70);
}

#[test]
fn the_supply_is_the_sum_of_the_balances() {
    let mut t = token();
    let people: Vec<Principal> = (1..=5).map(Principal::new).collect();
    for (i, p) in people.iter().enumerate() {
        t.mint(*p, 100 * (i as i128 + 1)).unwrap();
    }
    t.transfer(people[4], people[0], 123).unwrap();
    t.transfer(people[2], people[3], 300).unwrap();
    t.burn(people[1], 50).unwrap();
    let sum: i128 = people.iter().map(|p| t.balance(*p)).sum();
    assert_eq!(sum, t.total_supply());
    assert_eq!(sum, 1450);
}

#[test]
fn refusals_of_the_token_have_their_words() {
    assert_eq!(Error::AlreadyInitialized.message(), "already initialized");
    assert_eq!(Error::AmountNotPositive.message(), "amount must be positive");
    assert_eq!(Error::InsufficientBalance.message(), "insufficient balance");
    assert_eq!(Error::AllowanceExpired.message(), "allowance expired");
    assert_eq!(Error::InsufficientAllowance.message(), "insufficient allowance");
    assert_eq!(Error::NegativeAmount.message(), "amount cannot be negative");
    assert_eq!(Error::ExpirationInPast.message(), "expiration must be in the future");
}
