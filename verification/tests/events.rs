use mm2_rtui::app::{App, WalletModalState, WithdrawModalState};
use mm2_rtui::coins::{Coin, CoinEntry, CoinType};
use mm2_rtui::events::{key_code_to_display, Key, KeyAction, TaskOutcome};
use mm2_rtui::json::JsonValue;
use mm2_rtui::kdf_client::WithdrawResponse;
use mm2_rtui::logger::create_logger;

fn s(x: &str) -> String {
    x.to_string()
}

fn coin(t: &str) -> Coin {
    Coin {
        ticker: s(t),
        name: s(t),
        coin_type: CoinType::UTXO,
        activated: false,
        spendable_satoshis: None,
        unspendable_satoshis: None,
        current_block: None,
        wallet_type: None,
        address: None,
    }
}

fn app() -> App {
    App::new(create_logger(10))
}

#[test]
fn key_names_for_the_status_bar() {
    assert_eq!(key_code_to_display(Key::Char('q')), "q");
    assert_eq!(key_code_to_display(Key::PageUp), "PgUp");
    assert_eq!(key_code_to_display(Key::PageDown), "PgDn");
    assert_eq!(key_code_to_display(Key::F(12)), "F12");
    assert_eq!(key_code_to_display(Key::F(0)), "F0");
    assert_eq!(key_code_to_display(Key::Esc), "Esc");
    assert_eq!(key_code_to_display(Key::KeypadBegin), "KeypadBegin");
    assert_eq!(key_code_to_display(Key::Media), "Media");
}

#[test]
fn main_screen_quit_keys() {
    let mut a = app();
    assert!(matches!(a.handle_key(Key::Char('q'), false, 0), KeyAction::Quit));
    assert_eq!(a.last_key_pressed(), "q");
    assert!(matches!(a.handle_key(Key::Esc, false, 0), KeyAction::QuickQuit));
    a.open_info_modal();
    assert!(matches!(a.handle_key(Key::Esc, false, 0), KeyAction::Nothing));
    assert!(!a.is_info_modal_open());
}

#[test]
fn main_screen_coin_keys() {
    let mut a = app();
    assert!(matches!(a.handle_key(Key::Char('r'), false, 0), KeyAction::Nothing));
    a.add_coin(coin("KMD"));
    a.add_coin(coin("BTC"));
    a.handle_key(Key::Down, false, 0);
    a.handle_key(Key::Down, false, 0);
    assert_eq!(a.coins_selected_index(), Some(1));
    match a.handle_key(Key::Char('R'), false, 0) {
        KeyAction::RefreshCoin { ticker } => assert_eq!(ticker, "BTC"),
        other => panic!("unexpected {:?}", other),
    }
    a.update_tx_history(vec![], 1, 4, 0);
    match a.handle_key(Key::Char('n'), false, 0) {
        KeyAction::FetchTxHistory { ticker, page } => assert_eq!((ticker.as_str(), page), ("BTC", 2)),
        other => panic!("unexpected {:?}", other),
    }
    match a.handle_key(Key::Char('P'), false, 0) {
        KeyAction::FetchTxHistory { page, .. } => assert_eq!(page, 1),
        other => panic!("unexpected {:?}", other),
    }
    a.handle_key(Key::Char('i'), false, 0);
    assert!(a.is_info_modal_open());
    a.handle_key(Key::Up, false, 0);
    assert_eq!(a.coins_selected_index(), Some(0));
    assert!(matches!(a.handle_key(Key::Char('+'), false, 0), KeyAction::LoadCoinList));
    assert!(matches!(a.handle_key(Key::Char('='), false, 0), KeyAction::LoadCoinList));
    a.handle_key(Key::Char('w'), false, 0);
    assert!(matches!(a.withdraw_modal(), Some(WithdrawModalState::EnteringAddress { ticker, .. }) if ticker == "KMD"));
}

#[test]
fn wallet_modal_takes_the_keys() {
    let mut a = app();
    a.open_wallet_modal(vec![s("main"), s("hot")]);
    assert!(matches!(a.handle_key(Key::Char('q'), false, 0), KeyAction::Nothing));
    a.handle_key(Key::Down, false, 0);
    a.handle_key(Key::Char('h'), false, 0);
    a.handle_key(Key::Enter, false, 0);
    // in the password phase 'h' is typed
    for c in ['s', 'h', 'x'] {
        a.handle_key(Key::Char(c), false, 0);
    }
    a.handle_key(Key::Backspace, false, 0);
    match a.handle_key(Key::Enter, false, 0) {
        KeyAction::ApplyWallet { name, password, enable_hd, names } => {
            assert_eq!(name, "hot");
            assert_eq!(password, "sh");
            assert!(enable_hd);
            assert_eq!(names, vec![s("main"), s("hot")]);
        }
        other => panic!("unexpected {:?}", other),
    }
    assert!(a.wallet_modal().is_none());
}

#[test]
fn escape_closes_the_wallet_modal() {
    let mut a = app();
    a.open_wallet_modal(vec![s("main")]);
    assert!(matches!(a.handle_key(Key::Esc, false, 0), KeyAction::Nothing));
    assert!(a.wallet_modal().is_none());
}

#[test]
fn coin_selection_keys() {
    let mut a = app();
    a.open_coin_select_modal(vec![
        CoinEntry { ticker: s("KMD"), fname: s("Komodo") },
        CoinEntry { ticker: s("BTC"), fname: s("Bitcoin") },
    ]);
    a.handle_key(Key::Char('b'), false, 0);
    assert_eq!(a.coin_select_modal().unwrap().filter, "b");
    a.handle_key(Key::Char('c'), true, 0);
    assert_eq!(a.coin_select_modal().unwrap().filter, "b");
    a.handle_key(Key::Char(' '), false, 0);
    a.handle_key(Key::Backspace, false, 0);
    a.handle_key(Key::Down, false, 0);
    a.handle_key(Key::Up, false, 0);
    match a.handle_key(Key::Enter, false, 0) {
        KeyAction::ActivateCoins { tickers } => assert_eq!(tickers, vec![s("BTC")]),
        other => panic!("unexpected {:?}", other),
    }
    assert!(a.coin_select_modal().is_none());
    a.open_coin_select_modal(vec![]);
    assert!(matches!(a.handle_key(Key::Enter, false, 0), KeyAction::Nothing));
}

#[test]
fn withdraw_keys_prepare_and_send() {
    let mut a = app();
    a.open_withdraw_modal(s("KMD"));
    for c in "RAddr".chars() {
        a.handle_key(Key::Char(c), false, 0);
    }
    a.handle_key(Key::Enter, false, 0);
    for c in "2.5".chars() {
        a.handle_key(Key::Char(c), false, 0);
    }
    match a.handle_key(Key::Enter, false, 0) {
        KeyAction::Withdraw { ticker, address, amount } => {
            assert_eq!((ticker.as_str(), address.as_str(), amount.as_str()), ("KMD", "RAddr", "2.5"))
        }
        other => panic!("unexpected {:?}", other),
    }
    assert!(matches!(a.withdraw_modal(), Some(WithdrawModalState::Sending)));
    assert!(matches!(a.handle_key(Key::Char('y'), false, 0), KeyAction::Nothing));
    assert!(matches!(a.withdraw_modal(), Some(WithdrawModalState::Sending)));
}

#[test]
fn y_is_typed_into_the_address_and_confirms_only_a_prepared_send() {
    let mut a = app();
    a.open_withdraw_modal(s("KMD"));
    for c in "RyY".chars() {
        assert!(matches!(a.handle_key(Key::Char(c), false, 0), KeyAction::Nothing));
    }
    assert!(matches!(a.withdraw_modal(), Some(WithdrawModalState::EnteringAddress { address, .. }) if address == "RyY"));
    a.handle_key(Key::Enter, false, 0);
    assert!(matches!(a.handle_key(Key::Char('y'), false, 0), KeyAction::Nothing));
    assert!(matches!(a.withdraw_modal(), Some(WithdrawModalState::EnteringAmount { amount, .. }) if amount.is_empty()));
    a.withdraw_modal_set_confirmation(s("KMD"), withdraw_result());
    assert!(matches!(a.handle_key(Key::Char('x'), false, 0), KeyAction::Nothing));
    assert!(matches!(a.withdraw_modal(), Some(WithdrawModalState::Confirming { .. })));
    match a.handle_key(Key::Char('Y'), false, 0) {
        KeyAction::SendTransaction { ticker, coin, tx_hex } => {
            assert_eq!((ticker.as_str(), coin.as_str(), tx_hex.as_str()), ("KMD", "KMD", "00ff"))
        }
        other => panic!("unexpected {:?}", other),
    }
    assert!(matches!(a.withdraw_modal(), Some(WithdrawModalState::Sending)));
}

fn withdraw_result() -> WithdrawResponse {
    WithdrawResponse {
        tx_hex: s("00ff"),
        tx_hash: s("abcd"),
        from: vec![s("RFrom")],
        to: vec![s("RTo")],
        total_amount: s("1.5"),
        spent_by_me: s("1.6"),
        received_by_me: s("0.1"),
        my_balance_change: s("-1.5"),
        block_height: 0,
        timestamp: 0,
        fee_details: JsonValue::Null,
        coin: s("KMD"),
        internal_id: s(""),
    }
}

#[test]
fn pasting_types_into_the_open_field() {
    let mut a = app();
    a.open_withdraw_modal(s("KMD"));
    a.handle_paste("RA\nddr\t");
    assert!(matches!(a.withdraw_modal(), Some(WithdrawModalState::EnteringAddress { address, .. }) if address == "RAddr"));
    a.close_withdraw_modal();
    a.open_wallet_modal(vec![s("w")]);
    a.handle_paste("ignored");
    assert!(matches!(a.wallet_modal(), Some(WalletModalState::Selecting { .. })));
    a.wallet_modal_confirm_selection();
    a.handle_paste("secret");
    assert!(matches!(a.wallet_modal(), Some(WalletModalState::EnteringPassword { password, .. }) if password == "secret"));
}

fn ok_details() -> JsonValue {
    JsonValue::Object(vec![(
        s("wallet_balance"),
        JsonValue::Object(vec![(
            s("balance"),
            JsonValue::Object(vec![(
                s("KMD"),
                JsonValue::Object(vec![(s("spendable"), JsonValue::Str(s("1.25")))]),
            )]),
        )]),
    )])
}

#[test]
fn finished_activation_updates_the_coin() {
    let mut a = app();
    a.add_coin(coin("KMD"));
    a.add_pending_task(5, s("KMD"));
    match a.apply_task_status(5, "KMD", "Ok", &ok_details()) {
        TaskOutcome::Activated { details } => assert_eq!(details.unwrap().spendable_satoshis, 125_000_000),
        _ => panic!("expected activation"),
    }
    assert!(a.pending_tasks().is_empty());
    assert!(a.coins()[0].activated);
    assert_eq!(a.coins()[0].spendable_satoshis, Some(125_000_000));
}

#[test]
fn running_activation_is_polled_again() {
    let mut a = app();
    a.add_pending_task(5, s("KMD"));
    a.add_pending_task(6, s("BTC"));
    assert!(matches!(a.apply_task_status(5, "KMD", "InProgress", &JsonValue::Null), TaskOutcome::InProgress));
    assert_eq!(a.pending_tasks(), &[(6, s("BTC")), (5, s("KMD"))]);
    assert!(matches!(a.apply_task_status(6, "BTC", "Error", &JsonValue::Null), TaskOutcome::Failed));
    assert_eq!(a.pending_tasks(), &[(5, s("KMD"))]);
}

#[test]
fn keys_leave_coins_and_tasks_alone() {
    let mut a = app();
    a.add_coin(coin("KMD"));
    a.add_pending_task(3, s("KMD"));
    for k in [Key::Down, Key::Char('i'), Key::Esc, Key::Char('w'), Key::Char('9'), Key::Enter, Key::PageUp, Key::Tab] {
        a.handle_key(k, false, 4);
    }
    assert_eq!(a.coins().len(), 1);
    assert_eq!(a.coins()[0].ticker, "KMD");
    assert_eq!(a.pending_tasks(), &[(3, s("KMD"))]);
}

#[test]
fn pasted_amount_stays_numeric() {
    let mut a = app();
    a.open_withdraw_modal(s("KMD"));
    a.handle_paste("R1");
    a.handle_key(Key::Enter, false, 0);
    a.handle_paste("1.2.3abc4");
    assert!(matches!(a.withdraw_modal(), Some(WithdrawModalState::EnteringAmount { amount, .. }) if amount == "1.234"));
}
