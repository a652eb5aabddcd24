use psp_coin::{AccountId, Amount, Approval, Event, PSP22Error, PspCoin, Transfer};

struct Accounts {
    alice: AccountId,
    bob: AccountId,
    charlie: AccountId,
}

fn default_accounts() -> Accounts {
    Accounts {
        alice: AccountId::new([0x01; 20]),
        bob: AccountId::new([0x02; 20]),
        charlie: AccountId::new([0x03; 20]),
    }
}

fn amount(n: u128) -> Amount {
    Amount::from_u128(n)
}

#[test]
fn new_works() {
    let token = PspCoin::new();
    assert_eq!(token.total_supply(), amount(0));
    assert_eq!(token.name(), Some(String::from("MemeCoin")));
    assert_eq!(token.symbol(), Some(String::from("MEME")));
    assert_eq!(token.decimals(), 18);
}

#[test]
fn new_with_supply_works() {
    let accounts = default_accounts();

    let initial_supply = amount(1000000);
    let token = PspCoin::new_with_supply(accounts.alice, initial_supply);

    assert_eq!(token.total_supply(), initial_supply);
    assert_eq!(token.balance_of(accounts.alice), initial_supply);
    assert_eq!(token.balance_of(accounts.bob), amount(0));
}

#[test]
fn transfer_works() {
    let accounts = default_accounts();

    let initial_supply = amount(1000);
    let mut token = PspCoin::new_with_supply(accounts.alice, initial_supply);

    let transfer_amount = amount(100);
    assert!(token
        .transfer(accounts.alice, accounts.bob, transfer_amount, Vec::new())
        .is_ok());

    assert_eq!(token.balance_of(accounts.alice), amount(900));
    assert_eq!(token.balance_of(accounts.bob), amount(100));
}

#[test]
fn transfer_insufficient_balance_fails() {
    let accounts = default_accounts();

    let initial_supply = amount(100);
    let mut token = PspCoin::new_with_supply(accounts.alice, initial_supply);

    let transfer_amount = amount(200);
    assert_eq!(
        token.transfer(accounts.alice, accounts.bob, transfer_amount, Vec::new()),
        Err(PSP22Error::InsufficientBalance)
    );
}

#[test]
fn transfer_to_self_works() {
    let accounts = default_accounts();

    let initial_supply = amount(1000);
    let mut token = PspCoin::new_with_supply(accounts.alice, initial_supply);

    assert!(token
        .transfer(accounts.alice, accounts.alice, amount(100), Vec::new())
        .is_ok());
    assert_eq!(token.balance_of(accounts.alice), initial_supply);
}

#[test]
fn approve_works() {
    let accounts = default_accounts();

    let mut token = PspCoin::new_with_supply(accounts.alice, amount(1000));

    let allowance_amount = amount(200);
    assert!(token
        .approve(accounts.alice, accounts.bob, allowance_amount)
        .is_ok());

    assert_eq!(
        token.allowance(accounts.alice, accounts.bob),
        allowance_amount
    );
}

#[test]
fn approve_self_works() {
    let accounts = default_accounts();

    let mut token = PspCoin::new_with_supply(accounts.alice, amount(1000));

    assert!(token
        .approve(accounts.alice, accounts.alice, amount(100))
        .is_ok());
    assert_eq!(token.allowance(accounts.alice, accounts.alice), amount(0));
}

#[test]
fn transfer_from_works() {
    let accounts = default_accounts();

    let mut token = PspCoin::new_with_supply(accounts.alice, amount(1000));

    // Alice approves Bob to spend 200 tokens
    assert!(token
        .approve(accounts.alice, accounts.bob, amount(200))
        .is_ok());

    // Bob transfers 100 tokens from Alice to Charlie
    assert!(token
        .transfer_from(
            accounts.bob,
            accounts.alice,
            accounts.charlie,
            amount(100),
            Vec::new()
        )
        .is_ok());

    assert_eq!(token.balance_of(accounts.alice), amount(900));
    assert_eq!(token.balance_of(accounts.charlie), amount(100));
    assert_eq!(token.allowance(accounts.alice, accounts.bob), amount(100));
}

#[test]
fn transfer_from_insufficient_allowance_fails() {
    let accounts = default_accounts();

    let mut token = PspCoin::new_with_supply(accounts.alice, amount(1000));

    // Alice approves Bob to spend 50 tokens
    assert!(token
        .approve(accounts.alice, accounts.bob, amount(50))
        .is_ok());

    // Bob tries to transfer 100 tokens from Alice
    assert_eq!(
        token.transfer_from(
            accounts.bob,
            accounts.alice,
            accounts.charlie,
            amount(100),
            Vec::new()
        ),
        Err(PSP22Error::InsufficientAllowance)
    );
}

#[test]
fn transfer_from_by_owner_works() {
    let accounts = default_accounts();

    let mut token = PspCoin::new_with_supply(accounts.alice, amount(1000));

    // Alice transfers her own tokens without approval
    assert!(token
        .transfer_from(
            accounts.alice,
            accounts.alice,
            accounts.bob,
            amount(100),
            Vec::new()
        )
        .is_ok());

    assert_eq!(token.balance_of(accounts.alice), amount(900));
    assert_eq!(token.balance_of(accounts.bob), amount(100));
}

#[test]
fn increase_allowance_works() {
    let accounts = default_accounts();

    let mut token = PspCoin::new_with_supply(accounts.alice, amount(1000));

    assert!(token
        .approve(accounts.alice, accounts.bob, amount(100))
        .is_ok());
    assert!(token
        .increase_allowance(accounts.alice, accounts.bob, amount(50))
        .is_ok());

    assert_eq!(token.allowance(accounts.alice, accounts.bob), amount(150));
}

#[test]
fn decrease_allowance_works() {
    let accounts = default_accounts();

    let mut token = PspCoin::new_with_supply(accounts.alice, amount(1000));

    assert!(token
        .approve(accounts.alice, accounts.bob, amount(100))
        .is_ok());
    assert!(token
        .decrease_allowance(accounts.alice, accounts.bob, amount(50))
        .is_ok());

    assert_eq!(token.allowance(accounts.alice, accounts.bob), amount(50));
}

#[test]
fn decrease_allowance_below_zero_fails() {
    let accounts = default_accounts();

    let mut token = PspCoin::new_with_supply(accounts.alice, amount(1000));

    assert!(token
        .approve(accounts.alice, accounts.bob, amount(50))
        .is_ok());
    assert_eq!(
        token.decrease_allowance(accounts.alice, accounts.bob, amount(100)),
        Err(PSP22Error::InsufficientAllowance)
    );
}

#[test]
fn mint_works() {
    let accounts = default_accounts();

    let mut token = PspCoin::new();

    assert!(token.mint(accounts.alice, amount(1000)).is_ok());
    assert_eq!(token.total_supply(), amount(1000));
    assert_eq!(token.balance_of(accounts.alice), amount(1000));

    assert!(token.mint(accounts.alice, amount(500)).is_ok());
    assert_eq!(token.total_supply(), amount(1500));
    assert_eq!(token.balance_of(accounts.alice), amount(1500));
}

#[test]
fn mint_zero_is_noop() {
    let accounts = default_accounts();

    let mut token = PspCoin::new();

    assert!(token.mint(accounts.alice, amount(0)).is_ok());
    assert_eq!(token.total_supply(), amount(0));
    assert_eq!(token.balance_of(accounts.alice), amount(0));
}

#[test]
fn burn_works() {
    let accounts = default_accounts();

    let mut token = PspCoin::new_with_supply(accounts.alice, amount(1000));

    assert!(token.burn(accounts.alice, amount(300)).is_ok());
    assert_eq!(token.total_supply(), amount(700));
    assert_eq!(token.balance_of(accounts.alice), amount(700));
}

#[test]
fn burn_insufficient_balance_fails() {
    let accounts = default_accounts();

    let mut token = PspCoin::new_with_supply(accounts.alice, amount(100));

    assert_eq!(
        token.burn(accounts.alice, amount(200)),
        Err(PSP22Error::InsufficientBalance)
    );
}

#[test]
fn burn_zero_is_noop() {
    let accounts = default_accounts();

    let mut token = PspCoin::new_with_supply(accounts.alice, amount(1000));

    assert!(token.burn(accounts.alice, amount(0)).is_ok());
    assert_eq!(token.total_supply(), amount(1000));
}

#[test]
fn metadata_works() {
    let token = PspCoin::new();

    assert_eq!(token.name(), Some(String::from("MemeCoin")));
    assert_eq!(token.symbol(), Some(String::from("MEME")));
    assert_eq!(token.decimals(), 18);
}

#[test]
fn mint_into_empty_ledger() {
    let accounts = default_accounts();
    let mut token = PspCoin::new();

    assert_eq!(
        token.mint(accounts.alice, amount(100)),
        Ok(vec![Event::Transfer(Transfer {
            from: None,
            to: Some(accounts.alice),
            value: amount(100),
        })])
    );
    assert_eq!(token.total_supply(), amount(100));
    assert_eq!(token.balance_of(accounts.alice), amount(100));
}

#[test]
fn transfer_publishes_one_transfer() {
    let accounts = default_accounts();
    let mut token = PspCoin::new_with_supply(accounts.alice, amount(1000));

    assert_eq!(
        token.transfer(accounts.alice, accounts.bob, amount(100), Vec::new()),
        Ok(vec![Event::Transfer(Transfer {
            from: Some(accounts.alice),
            to: Some(accounts.bob),
            value: amount(100),
        })])
    );
}

#[test]
fn transfer_keeps_the_sum_of_balances() {
    let accounts = default_accounts();
    let mut token = PspCoin::new_with_supply(accounts.alice, amount(1000));

    assert!(token
        .transfer(accounts.alice, accounts.bob, amount(250), Vec::new())
        .is_ok());
    assert!(token
        .transfer(accounts.bob, accounts.charlie, amount(50), Vec::new())
        .is_ok());

    assert_eq!(token.balance_of(accounts.alice), amount(750));
    assert_eq!(token.balance_of(accounts.bob), amount(200));
    assert_eq!(token.balance_of(accounts.charlie), amount(50));
    assert_eq!(token.total_supply(), amount(1000));
}

#[test]
fn mint_and_burn_move_the_supply_with_the_balances() {
    let accounts = default_accounts();
    let mut token = PspCoin::new_with_supply(accounts.alice, amount(1000));

    assert!(token.mint(accounts.bob, amount(40)).is_ok());
    assert_eq!(token.total_supply(), amount(1040));
    assert_eq!(token.balance_of(accounts.alice), amount(1000));
    assert_eq!(token.balance_of(accounts.bob), amount(40));

    assert_eq!(
        token.burn(accounts.bob, amount(15)),
        Ok(vec![Event::Transfer(Transfer {
            from: Some(accounts.bob),
            to: None,
            value: amount(15),
        })])
    );
    assert_eq!(token.total_supply(), amount(1025));
    assert_eq!(token.balance_of(accounts.bob), amount(25));
}

#[test]
fn transfer_of_zero_changes_nothing() {
    let accounts = default_accounts();
    let mut token = PspCoin::new_with_supply(accounts.alice, amount(1000));
    assert!(token
        .approve(accounts.alice, accounts.bob, amount(7))
        .is_ok());

    assert_eq!(
        token.transfer(accounts.alice, accounts.bob, amount(0), Vec::new()),
        Ok(Vec::new())
    );
    assert_eq!(token.balance_of(accounts.alice), amount(1000));
    assert_eq!(token.balance_of(accounts.bob), amount(0));
    assert_eq!(token.allowance(accounts.alice, accounts.bob), amount(7));
    assert_eq!(token.total_supply(), amount(1000));
}

#[test]
fn transfer_to_self_publishes_nothing_even_beyond_the_balance() {
    let accounts = default_accounts();
    let mut token = PspCoin::new_with_supply(accounts.alice, amount(1000));

    assert_eq!(
        token.transfer(accounts.alice, accounts.alice, amount(5000), Vec::new()),
        Ok(Vec::new())
    );
    assert_eq!(token.balance_of(accounts.alice), amount(1000));
    assert_eq!(token.total_supply(), amount(1000));
}

#[test]
fn allowance_to_oneself_never_changes() {
    let accounts = default_accounts();
    let mut token = PspCoin::new_with_supply(accounts.alice, amount(1000));

    assert_eq!(
        token.approve(accounts.alice, accounts.alice, amount(100)),
        Ok(Vec::new())
    );
    assert_eq!(
        token.increase_allowance(accounts.alice, accounts.alice, amount(100)),
        Ok(Vec::new())
    );
    assert_eq!(
        token.decrease_allowance(accounts.alice, accounts.alice, amount(100)),
        Ok(Vec::new())
    );
    assert_eq!(token.allowance(accounts.alice, accounts.alice), amount(0));
}

#[test]
fn lacking_allowance_is_reported_before_lacking_balance() {
    let accounts = default_accounts();
    let mut token = PspCoin::new_with_supply(accounts.alice, amount(10));
    assert!(token
        .approve(accounts.alice, accounts.bob, amount(5))
        .is_ok());

    assert_eq!(
        token.transfer_from(
            accounts.bob,
            accounts.alice,
            accounts.charlie,
            amount(100),
            Vec::new()
        ),
        Err(PSP22Error::InsufficientAllowance)
    );
}

#[test]
fn approve_overwrites_the_earlier_allowance() {
    let accounts = default_accounts();
    let mut token = PspCoin::new();

    assert!(token
        .approve(accounts.alice, accounts.bob, amount(300))
        .is_ok());
    assert_eq!(
        token.approve(accounts.alice, accounts.bob, amount(40)),
        Ok(vec![Event::Approval(Approval {
            owner: accounts.alice,
            spender: accounts.bob,
            value: amount(40),
        })])
    );
    assert_eq!(token.allowance(accounts.alice, accounts.bob), amount(40));
    assert_eq!(token.allowance(accounts.bob, accounts.alice), amount(0));
}

#[test]
fn delegated_transfer_publishes_approval_then_transfer() {
    let accounts = default_accounts();
    let mut token = PspCoin::new_with_supply(accounts.alice, amount(1000));
    assert!(token
        .approve(accounts.alice, accounts.bob, amount(200))
        .is_ok());

    assert_eq!(
        token.transfer_from(
            accounts.bob,
            accounts.alice,
            accounts.charlie,
            amount(100),
            Vec::new()
        ),
        Ok(vec![
            Event::Approval(Approval {
                owner: accounts.alice,
                spender: accounts.bob,
                value: amount(100),
            }),
            Event::Transfer(Transfer {
                from: Some(accounts.alice),
                to: Some(accounts.charlie),
                value: amount(100),
            }),
        ])
    );
}

#[test]
fn rejected_delegated_transfer_changes_nothing() {
    let accounts = default_accounts();
    let mut token = PspCoin::new_with_supply(accounts.alice, amount(1000));
    assert!(token
        .approve(accounts.alice, accounts.bob, amount(50))
        .is_ok());

    assert_eq!(
        token.transfer_from(
            accounts.bob,
            accounts.alice,
            accounts.charlie,
            amount(100),
            Vec::new()
        ),
        Err(PSP22Error::InsufficientAllowance)
    );
    assert_eq!(token.balance_of(accounts.alice), amount(1000));
    assert_eq!(token.balance_of(accounts.charlie), amount(0));
    assert_eq!(token.allowance(accounts.alice, accounts.bob), amount(50));
    assert_eq!(token.total_supply(), amount(1000));
}

#[test]
fn delegated_transfer_beyond_the_balance_keeps_the_allowance() {
    let accounts = default_accounts();
    let mut token = PspCoin::new_with_supply(accounts.alice, amount(10));
    assert!(token
        .approve(accounts.alice, accounts.bob, amount(500))
        .is_ok());

    assert_eq!(
        token.transfer_from(
            accounts.bob,
            accounts.alice,
            accounts.charlie,
            amount(100),
            Vec::new()
        ),
        Err(PSP22Error::InsufficientBalance)
    );
    assert_eq!(token.allowance(accounts.alice, accounts.bob), amount(500));
    assert_eq!(token.balance_of(accounts.alice), amount(10));
}

#[test]
fn burn_beyond_the_balance_keeps_the_supply() {
    let accounts = default_accounts();
    let mut token = PspCoin::new_with_supply(accounts.alice, amount(100));

    assert_eq!(
        token.burn(accounts.alice, amount(200)),
        Err(PSP22Error::InsufficientBalance)
    );
    assert_eq!(token.total_supply(), amount(100));
    assert_eq!(token.balance_of(accounts.alice), amount(100));
}

#[test]
fn increase_then_decrease_beyond_the_allowance() {
    let accounts = default_accounts();
    let mut token = PspCoin::new_with_supply(accounts.alice, amount(1000));

    assert!(token
        .approve(accounts.alice, accounts.bob, amount(100))
        .is_ok());
    assert_eq!(
        token.increase_allowance(accounts.alice, accounts.bob, amount(50)),
        Ok(vec![Event::Approval(Approval {
            owner: accounts.alice,
            spender: accounts.bob,
            value: amount(150),
        })])
    );
    assert_eq!(token.allowance(accounts.alice, accounts.bob), amount(150));

    assert_eq!(
        token.decrease_allowance(accounts.alice, accounts.bob, amount(200)),
        Err(PSP22Error::InsufficientAllowance)
    );
    assert_eq!(token.allowance(accounts.alice, accounts.bob), amount(150));
}

#[test]
fn decrease_allowance_publishes_the_new_allowance() {
    let accounts = default_accounts();
    let mut token = PspCoin::new();
    assert!(token
        .approve(accounts.alice, accounts.bob, amount(100))
        .is_ok());

    assert_eq!(
        token.decrease_allowance(accounts.alice, accounts.bob, amount(100)),
        Ok(vec![Event::Approval(Approval {
            owner: accounts.alice,
            spender: accounts.bob,
            value: amount(0),
        })])
    );
    assert_eq!(
        token.decrease_allowance(accounts.alice, accounts.bob, amount(0)),
        Ok(Vec::new())
    );
    assert_eq!(
        token.increase_allowance(accounts.alice, accounts.bob, amount(0)),
        Ok(Vec::new())
    );
}

#[test]
fn increase_allowance_overflows() {
    let accounts = default_accounts();
    let mut token = PspCoin::new();
    assert!(token
        .approve(accounts.alice, accounts.bob, Amount::max())
        .is_ok());

    assert_eq!(
        token.increase_allowance(accounts.alice, accounts.bob, amount(1)),
        Err(PSP22Error::Overflow)
    );
    assert_eq!(
        token.allowance(accounts.alice, accounts.bob),
        Amount::max()
    );
}

#[test]
fn mint_overflows_the_supply() {
    let accounts = default_accounts();
    let mut token = PspCoin::new_with_supply(accounts.alice, Amount::max());

    assert_eq!(
        token.mint(accounts.bob, amount(1)),
        Err(PSP22Error::Overflow)
    );
    assert_eq!(
        token.mint(accounts.alice, amount(1)),
        Err(PSP22Error::Overflow)
    );
    assert_eq!(token.total_supply(), Amount::max());
    assert_eq!(token.balance_of(accounts.bob), amount(0));
    assert_eq!(token.balance_of(accounts.alice), Amount::max());
}

#[test]
fn custom_error_carries_its_message() {
    let error = PSP22Error::Custom(String::from("paused"));
    assert_eq!(error, PSP22Error::Custom(String::from("paused")));
    assert_ne!(error, PSP22Error::Overflow);
}
