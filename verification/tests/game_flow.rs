use game::GameCreated;
use game::GameSettled;
use game::error::GameError;
use game::error::TxError;
use game::ledger::Ledger;
use game::state::Pubkey;

fn key(n: u64) -> Pubkey {
    Pubkey {
        w0: n,
        w1: n.wrapping_mul(7),
        w2: n.wrapping_add(13),
        w3: n ^ 0x5a5a_5a5a,
    }
}

#[test]
fn short_timeframe_is_rejected_with_no_effects() {
    let vault = key(1);
    let player = key(2);
    let mut led = Ledger::new(vault);
    led.deposit(player, 1_000).unwrap();

    let r = led.new_game(player, 9, 59, 400, true, 100, 255);
    assert_eq!(r, Err(TxError::Game(GameError::InvalidTimeframe)));
    assert_eq!(led.balance_of(player), 1_000);
    assert_eq!(led.balance_of(vault), 0);
    assert!(led.find_game(player, 9).is_none());
}

#[test]
fn timeframe_of_exactly_sixty_is_accepted() {
    let vault = key(1);
    let player = key(2);
    let mut led = Ledger::new(vault);
    led.deposit(player, 500).unwrap();

    let r = led.new_game(player, 3, 60, 500, false, 1_000, 254);
    assert_eq!(r, Ok(GameCreated { id: 3, player }));
    let g = led.find_game(player, 3).unwrap();
    assert_eq!(g.start_time, 1_000);
    assert_eq!(g.end_time, 1_060);
}

#[test]
fn successful_open_records_times_and_debits_the_bet() {
    let vault = key(1);
    let player = key(2);
    let mut led = Ledger::new(vault);
    led.deposit(player, 1_000).unwrap();

    let r = led.new_game(player, 7, 120, 400, true, 5_000, 253);
    assert_eq!(r, Ok(GameCreated { id: 7, player }));

    let g = led.find_game(player, 7).unwrap();
    assert_eq!(g.id, 7);
    assert_eq!(g.player, player);
    assert_eq!(g.start_time, 5_000);
    assert_eq!(g.end_time, 5_000 + 120);
    assert_eq!(g.bet_amount, 400);
    assert!(g.prediction);
    assert_eq!(g.bump, 253);

    assert_eq!(led.balance_of(player), 600);
    assert_eq!(led.balance_of(vault), 400);
    assert_eq!(g.bet_amount, 1_000 - led.balance_of(player));
}

#[test]
fn open_with_insufficient_funds_fails_with_no_record() {
    let vault = key(1);
    let player = key(2);
    let mut led = Ledger::new(vault);
    led.deposit(player, 300).unwrap();

    let r = led.new_game(player, 4, 90, 301, true, 10, 252);
    assert_eq!(r, Err(TxError::InsufficientFunds));
    assert_eq!(led.balance_of(player), 300);
    assert!(led.find_game(player, 4).is_none());
}

#[test]
fn zero_bet_amount_is_accepted() {
    let vault = key(1);
    let player = key(2);
    let mut led = Ledger::new(vault);

    let r = led.new_game(player, 5, 60, 0, false, 0, 251);
    assert_eq!(r, Ok(GameCreated { id: 5, player }));
    assert_eq!(led.find_game(player, 5).unwrap().bet_amount, 0);
}

#[test]
fn second_open_with_same_player_and_id_fails_and_keeps_the_first() {
    let vault = key(1);
    let player = key(2);
    let mut led = Ledger::new(vault);
    led.deposit(player, 1_000).unwrap();

    led.new_game(player, 1, 100, 250, true, 70, 250).unwrap();
    let second = led.new_game(player, 1, 600, 100, false, 99, 249);
    assert_eq!(second, Err(TxError::RecordExists));

    assert_eq!(led.games.len(), 1);
    let g = led.find_game(player, 1).unwrap();
    assert_eq!(g.start_time, 70);
    assert_eq!(g.end_time, 170);
    assert_eq!(g.bet_amount, 250);
    assert!(g.prediction);
    assert_eq!(led.balance_of(player), 750);
}

#[test]
fn same_id_under_another_player_is_a_different_game() {
    let vault = key(1);
    let alice = key(2);
    let bob = key(3);
    let mut led = Ledger::new(vault);
    led.deposit(alice, 100).unwrap();
    led.deposit(bob, 100).unwrap();

    led.new_game(alice, 1, 60, 40, true, 0, 248).unwrap();
    led.new_game(bob, 1, 60, 60, false, 0, 247).unwrap();
    assert_eq!(led.games.len(), 2);
    assert_eq!(led.balance_of(vault), 100);
}

#[test]
fn settle_by_anyone_but_the_vault_is_rejected() {
    let vault = key(1);
    let player = key(2);
    let outsider = key(3);
    let mut led = Ledger::new(vault);
    led.deposit(vault, 5_000).unwrap();

    let r = led.settle_game(outsider, player, 1, true, 10, 246);
    assert_eq!(r, Err(TxError::Game(GameError::SettlerNotGameVault)));
    // Even the winning player cannot settle their own game.
    let r = led.settle_game(player, player, 1, true, 0, 246);
    assert_eq!(r, Err(TxError::Game(GameError::SettlerNotGameVault)));
    assert!(led.find_result(1).is_none());
    assert_eq!(led.balance_of(vault), 5_000);
}

#[test]
fn settle_pays_out_and_records_the_result() {
    let vault = key(1);
    let player = key(2);
    let mut led = Ledger::new(vault);
    led.deposit(vault, 2_000).unwrap();

    let r = led.settle_game(vault, player, 11, true, 800, 245);
    assert_eq!(
        r,
        Ok(GameSettled { id: 11, result: true, amount_won: 800 })
    );
    let rec = led.find_result(11).unwrap();
    assert_eq!(rec.game_id, 11);
    assert_eq!(rec.player, player);
    assert!(rec.result);
    assert_eq!(rec.amount_won, 800);
    assert_eq!(rec.bump, 245);
    assert_eq!(led.balance_of(player), 800);
    assert_eq!(led.balance_of(vault), 1_200);
}

#[test]
fn second_settle_with_same_id_fails_and_pays_nothing_more() {
    let vault = key(1);
    let player = key(2);
    let mut led = Ledger::new(vault);
    led.deposit(vault, 2_000).unwrap();

    led.settle_game(vault, player, 6, true, 500, 244).unwrap();
    let again = led.settle_game(vault, player, 6, false, 500, 244);
    assert_eq!(again, Err(TxError::RecordExists));

    assert_eq!(led.results.len(), 1);
    assert!(led.results[0].result);
    assert_eq!(led.balance_of(player), 500);
    assert_eq!(led.balance_of(vault), 1_500);
}

#[test]
fn settle_with_zero_winnings_moves_no_funds() {
    let vault = key(1);
    let player = key(2);
    let mut led = Ledger::new(vault);

    // The vault holds nothing at all, yet a zero payout still settles.
    let r = led.settle_game(vault, player, 2, false, 0, 243);
    assert_eq!(
        r,
        Ok(GameSettled { id: 2, result: false, amount_won: 0 })
    );
    assert_eq!(led.balance_of(player), 0);
    assert_eq!(led.balance_of(vault), 0);
    assert_eq!(led.find_result(2).unwrap().amount_won, 0);
}

#[test]
fn underfunded_vault_fails_the_settlement_entirely() {
    let vault = key(1);
    let player = key(2);
    let mut led = Ledger::new(vault);
    led.deposit(vault, 999).unwrap();

    let r = led.settle_game(vault, player, 8, true, 1_000, 242);
    assert_eq!(r, Err(TxError::InsufficientFunds));
    assert!(led.find_result(8).is_none());
    assert_eq!(led.balance_of(player), 0);
    assert_eq!(led.balance_of(vault), 999);
}

#[test]
fn full_round_from_open_to_single_settlement() {
    let vault = key(1);
    let player = key(2);
    let mut led = Ledger::new(vault);
    led.deposit(player, 1_000).unwrap();
    led.deposit(vault, 800).unwrap();
    let t = 1_700_000_000;

    let opened = led.new_game(player, 1, 120, 1_000, true, t, 241);
    assert_eq!(opened, Ok(GameCreated { id: 1, player }));
    let g = led.find_game(player, 1).unwrap();
    assert_eq!(g.start_time, t);
    assert_eq!(g.end_time, t + 120);
    assert_eq!(g.bet_amount, 1_000);
    assert_eq!(led.balance_of(vault), 1_800);
    assert_eq!(led.balance_of(player), 0);

    let settled = led.settle_game(vault, player, 1, true, 1_800, 240);
    assert_eq!(
        settled,
        Ok(GameSettled { id: 1, result: true, amount_won: 1_800 })
    );
    assert_eq!(led.balance_of(player), 1_800);
    assert_eq!(led.balance_of(vault), 0);
    let rec = led.find_result(1).unwrap();
    assert_eq!(rec.game_id, 1);
    assert!(rec.result);
    assert_eq!(rec.amount_won, 1_800);

    let again = led.settle_game(vault, player, 1, true, 0, 240);
    assert_eq!(again, Err(TxError::RecordExists));
}

#[test]
fn deposits_cannot_push_the_pool_past_a_balance() {
    let vault = key(1);
    let player = key(2);
    let mut led = Ledger::new(vault);
    led.deposit(player, u64::MAX).unwrap();

    let r = led.deposit(vault, 1);
    assert_eq!(r, Err(TxError::SupplyOverflow));
    assert_eq!(led.balance_of(player), u64::MAX);
    assert_eq!(led.balance_of(vault), 0);
    assert_eq!(led.total, u64::MAX);
}
