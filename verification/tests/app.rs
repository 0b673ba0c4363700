use mm2_rtui::app::{
    matches_filter, ActiveScreen, App, CoinSelectModal, SwapsCoinFocus, WalletModalState, WithdrawModalState,
};
use mm2_rtui::coins::{Coin, CoinEntry, CoinStatusDetails, CoinType};
use mm2_rtui::json::JsonValue;
use mm2_rtui::kdf_client::WithdrawResponse;
use mm2_rtui::logger::create_logger;

fn s(x: &str) -> String {
    x.to_string()
}

fn entry(t: &str, name: &str) -> CoinEntry {
    CoinEntry { ticker: s(t), fname: s(name) }
}

fn coin(t: &str, activated: bool) -> Coin {
    Coin {
        ticker: s(t),
        name: s(t),
        coin_type: CoinType::UTXO,
        activated,
        spendable_satoshis: None,
        unspendable_satoshis: None,
        current_block: None,
        wallet_type: None,
        address: None,
    }
}

fn app() -> App {
    App::new(create_logger(100))
}

#[test]
fn new_app_starts_on_main_screen() {
    let a = app();
    assert_eq!(a.kdf_version(), "Unknown");
    assert_eq!(a.last_key_pressed(), "—");
    assert_eq!(a.active_screen(), ActiveScreen::Main);
    assert_eq!(a.swaps_focus(), SwapsCoinFocus::Base);
    assert!(a.coins().is_empty());
    assert!(a.pending_tasks().is_empty());
    assert_eq!(a.tx_history_page(), 1);
    assert_eq!(a.tx_history_total_pages(), 0);
    assert!(a.wallet_modal().is_none());
    assert!(!a.is_info_modal_open());
    assert!(a.log_follow());
}

#[test]
fn coin_select_modal_filters_by_ticker_prefix() {
    let mut m = CoinSelectModal::new(vec![entry("KMD", "Komodo"), entry("BTC", "Bitcoin"), entry("KMDCL", "Komodo Classic")]);
    assert_eq!(m.filtered().len(), 3);
    m.push_filter_char('k');
    let tickers: Vec<&str> = m.filtered().iter().map(|e| e.ticker.as_str()).collect();
    assert_eq!(tickers, vec!["KMD", "KMDCL"]);
    m.push_filter_char('x');
    assert!(m.filtered().is_empty());
    m.filter_backspace();
    assert_eq!(m.filter, "k");
    assert_eq!(m.selected_index, 0);
}

#[test]
fn coin_select_modal_moves_within_the_list() {
    let mut m = CoinSelectModal::new(vec![entry("KMD", "Komodo"), entry("BTC", "Bitcoin")]);
    m.move_up();
    assert_eq!(m.selected_index, 0);
    m.move_down();
    assert_eq!(m.selected_index, 1);
    m.move_down();
    assert_eq!(m.selected_index, 1);
    m.move_up();
    assert_eq!(m.selected_index, 0);
}

#[test]
fn toggling_twice_deselects() {
    let mut m = CoinSelectModal::new(vec![entry("KMD", "Komodo"), entry("BTC", "Bitcoin")]);
    m.toggle_selected();
    assert!(m.is_selected("KMD"));
    m.move_down();
    m.toggle_selected();
    let mut t = m.get_selected_tickers();
    t.sort();
    assert_eq!(t, vec![s("BTC"), s("KMD")]);
    m.toggle_selected();
    assert_eq!(m.get_selected_tickers(), vec![s("KMD")]);
    assert!(!m.is_selected("BTC"));
    // toggling past the end of the list changes nothing
    m.push_filter_char('Z');
    m.toggle_selected();
    assert_eq!(m.get_selected_tickers(), vec![s("KMD")]);
}

#[test]
fn add_coin_keeps_tickers_unique() {
    let mut a = app();
    a.add_coin(coin("KMD", false));
    a.add_coin(coin("BTC", false));
    a.add_coin(coin("KMD", true));
    let t: Vec<&str> = a.coins().iter().map(|c| c.ticker.as_str()).collect();
    assert_eq!(t, vec!["KMD", "BTC"]);
    assert!(!a.coins()[0].activated);
}

#[test]
fn pending_tasks_are_removed_by_id() {
    let mut a = app();
    a.add_pending_task(1, s("KMD"));
    a.add_pending_task(2, s("BTC"));
    assert_eq!(a.remove_pending_task(2), Some(s("BTC")));
    assert_eq!(a.remove_pending_task(2), None);
    assert_eq!(a.pending_tasks(), &[(1, s("KMD"))]);
}

#[test]
fn coin_updates_reach_the_named_coin() {
    let mut a = app();
    a.add_coin(coin("KMD", false));
    a.add_coin(coin("BTC", false));
    a.update_coin_activated("BTC");
    assert!(a.coins()[1].activated && !a.coins()[0].activated);
    let d = CoinStatusDetails {
        current_block: Some(9),
        spendable_satoshis: 5,
        unspendable_satoshis: 6,
        wallet_type: Some(s("Iguana")),
        address: Some(s("R1")),
    };
    a.update_coin_from_status_details("KMD", &d);
    assert_eq!(a.coins()[0].spendable_satoshis, Some(5));
    assert_eq!(a.coins()[0].current_block, Some(9));
    a.update_coin_from_my_balance("KMD", 7, 8, s("R2"));
    assert_eq!(a.coins()[0].unspendable_satoshis, Some(8));
    assert_eq!(a.coins()[0].address.as_deref(), Some("R2"));
    a.update_coin_activated("DOGE");
    assert_eq!(a.coins().len(), 2);
}

#[test]
fn coin_selection_stays_on_the_list() {
    let mut a = app();
    a.coins_select_down();
    assert_eq!(a.coins_selected_index(), None);
    a.add_coin(coin("KMD", false));
    a.add_coin(coin("BTC", false));
    a.coins_select_up();
    assert_eq!(a.coins_selected_index(), Some(0));
    a.coins_select_down();
    a.coins_select_down();
    assert_eq!(a.coins_selected_index(), Some(1));
    assert_eq!(a.selected_coin_ticker(), Some(s("BTC")));
    a.coins_select_up();
    assert_eq!(a.selected_coin_ticker(), Some(s("KMD")));
}

#[test]
fn wallet_modal_flow() {
    let mut a = app();
    a.open_wallet_modal(vec![s("main"), s("savings")]);
    a.wallet_modal_select_down();
    a.wallet_modal_select_down();
    a.wallet_modal_toggle_hd();
    match a.wallet_modal() {
        Some(WalletModalState::Selecting { selected_index, enable_hd, .. }) => {
            assert_eq!(*selected_index, 1);
            assert!(*enable_hd);
        }
        _ => panic!("expected selection"),
    }
    assert!(a.wallet_modal_confirm_selection());
    a.wallet_modal_password_push('p');
    a.wallet_modal_password_push('w');
    a.wallet_modal_password_push('x');
    a.wallet_modal_password_backspace();
    let (name, pass, hd, names) = a.wallet_modal_submit_password().unwrap();
    assert_eq!((name.as_str(), pass.as_str(), hd), ("savings", "pw", true));
    assert_eq!(names, vec![s("main"), s("savings")]);
    assert!(a.wallet_modal().is_none());
}

#[test]
fn wallet_modal_closes_on_empty_list() {
    let mut a = app();
    a.open_wallet_modal(vec![]);
    a.wallet_modal_select_up();
    assert!(!a.wallet_modal_confirm_selection());
    assert!(a.wallet_modal().is_none());
    assert!(a.wallet_modal_submit_password().is_none());
}

fn withdraw_result() -> WithdrawResponse {
    WithdrawResponse {
        tx_hex: s("00ff"),
        tx_hash: s("abcd"),
        from: vec![s("RFrom")],
        to: vec![s("RTo")],
        total_amount: s("1.5"),
        spent_by_me: s("1.6"),
        received_by_me: s("0.1"),
        my_balance_change: s("-1.5"),
        block_height: 0,
        timestamp: 0,
        fee_details: JsonValue::Null,
        coin: s("KMD"),
        internal_id: s(""),
    }
}

#[test]
fn withdraw_modal_flow() {
    let mut a = app();
    a.open_withdraw_modal(s("KMD"));
    assert!(!a.withdraw_modal_confirm_address());
    for c in "RTo".chars() {
        a.withdraw_modal_push_char(c);
    }
    assert!(a.withdraw_modal_confirm_address());
    for c in "1a.5.0".chars() {
        a.withdraw_modal_push_char(c);
    }
    match a.withdraw_modal() {
        Some(WithdrawModalState::EnteringAmount { amount, address, .. }) => {
            assert_eq!(amount, "1.50");
            assert_eq!(address, "RTo");
        }
        _ => panic!("expected amount entry"),
    }
    a.withdraw_modal_backspace();
    assert_eq!(a.withdraw_modal_confirm_amount(), Some((s("KMD"), s("RTo"), s("1.5"))));
    assert!(matches!(a.withdraw_modal(), Some(WithdrawModalState::Sending)));
    a.withdraw_modal_set_confirmation(s("KMD"), withdraw_result());
    assert_eq!(a.withdraw_modal_confirm_send(), Some((s("KMD"), s("KMD"), s("00ff"))));
    a.withdraw_modal_set_result(true, s("sent"));
    assert!(matches!(a.withdraw_modal(), Some(WithdrawModalState::Result { success: true, .. })));
    a.withdraw_modal_set_error(s("boom"));
    assert!(matches!(a.withdraw_modal(), Some(WithdrawModalState::Result { success: false, .. })));
    a.close_withdraw_modal();
    assert!(a.withdraw_modal().is_none());
}

#[test]
fn confirm_send_outside_confirmation_keeps_the_modal() {
    let mut a = app();
    a.open_withdraw_modal(s("KMD"));
    a.withdraw_modal_push_char('R');
    assert!(a.withdraw_modal_confirm_send().is_none());
    assert!(matches!(a.withdraw_modal(), Some(WithdrawModalState::EnteringAddress { address, .. }) if address == "R"));
    a.withdraw_modal_set_result(true, s("sent"));
    assert!(a.withdraw_modal_confirm_send().is_none());
    assert!(matches!(a.withdraw_modal(), Some(WithdrawModalState::Result { success: true, .. })));
}

#[test]
fn tx_history_paging() {
    let mut a = app();
    a.set_tx_history_loading(true);
    assert!(a.tx_history_loading());
    a.update_tx_history(vec![], 1, 3, 100);
    assert!(!a.tx_history_loading());
    assert_eq!(a.tx_history_total_pages(), 3);
    a.tx_history_next_page();
    a.tx_history_next_page();
    a.tx_history_next_page();
    assert_eq!(a.tx_history_page(), 3);
    a.tx_history_prev_page();
    assert_eq!(a.tx_history_page(), 2);
    a.set_tx_history_error(s("down"));
    assert_eq!(a.tx_history_error(), Some("down"));
    a.clear_tx_history();
    assert_eq!(a.tx_history_page(), 1);
    assert_eq!(a.tx_history_error(), None);
}

#[test]
fn log_scrolling_pages_through_entries() {
    let mut a = app();
    a.scroll_log_up(20);
    assert!(!a.log_follow());
    assert_eq!(a.log_selection_for(20), Some(11));
    a.scroll_log_down(20);
    assert_eq!(a.log_selection_for(20), Some(19));
    assert!(a.log_follow());
    a.scroll_log_up(20);
    a.scroll_log_up(20);
    assert_eq!(a.log_selection_for(20), Some(3));
    assert_eq!(a.log_offset(), 0);
}

#[test]
fn version_and_datetime_are_recorded() {
    let mut a = app();
    a.update_version(s("2.4.0-beta"));
    assert_eq!(a.kdf_version(), "2.4.0-beta");
    a.update_datetime(s("2024-05-01T10:00:00+02:00"));
    let dt = a.kdf_datetime().unwrap();
    assert_eq!(dt.timestamp, 1714550400);
    assert_eq!(dt.offset_seconds, 7200);
    a.update_datetime(s("not a date"));
    assert_eq!(a.kdf_datetime().unwrap().timestamp, 1714550400);
}

#[test]
fn coin_select_modal_in_app_hides_listed_coins() {
    let mut a = app();
    a.add_coin(coin("KMD", true));
    a.open_coin_select_modal(vec![entry("KMD", "Komodo"), entry("BTC", "Bitcoin")]);
    let m = a.coin_select_modal().unwrap();
    assert_eq!(m.all_coins.len(), 1);
    assert_eq!(m.all_coins[0].ticker, "BTC");
    a.coin_select_modal_mut().unwrap().toggle_selected();
    assert_eq!(a.coin_select_modal_confirm(), vec![s("BTC")]);
    assert!(a.coin_select_modal().is_none());
    assert!(a.coin_select_modal_confirm().is_empty());
}

#[test]
fn swaps_selectors_cycle_over_activated_coins() {
    let mut a = app();
    a.add_coin(coin("KMD", true));
    a.add_coin(coin("DOGE", false));
    a.add_coin(coin("BTC", true));
    a.add_coin(coin("LTC", true));
    assert_eq!(a.activated_coin_tickers(), vec![s("KMD"), s("BTC"), s("LTC")]);
    assert_eq!(a.swaps_selected_pair(), Some((s("KMD"), s("BTC"))));
    a.swaps_select_up();
    assert_eq!(a.swaps_base_ticker(), Some(s("LTC")));
    a.swaps_select_down();
    assert_eq!(a.swaps_base_ticker(), Some(s("KMD")));
    a.swaps_toggle_focus();
    a.swaps_select_up();
    assert_eq!(a.swaps_rel_ticker(), Some(s("KMD")));
    assert_eq!(a.swaps_selected_pair(), None);
    a.swaps_select_down();
    a.swaps_select_down();
    assert_eq!(a.swaps_rel_ticker(), Some(s("LTC")));
}

#[test]
fn swaps_need_two_activated_coins() {
    let mut a = app();
    assert_eq!(a.swaps_base_ticker(), None);
    a.swaps_select_down();
    a.add_coin(coin("KMD", true));
    assert_eq!(a.swaps_selected_pair(), None);
    // the rel index starts at 1, which wraps onto the only coin
    assert_eq!(a.swaps_rel_ticker(), Some(s("KMD")));
}

#[test]
fn screen_toggles_back_and_forth() {
    let mut a = app();
    a.toggle_screen();
    assert_eq!(a.active_screen(), ActiveScreen::Swaps);
    a.toggle_screen();
    assert_eq!(a.active_screen(), ActiveScreen::Main);
}

#[test]
fn orderbook_state() {
    let mut a = app();
    a.set_orderbook_loading(true);
    assert!(a.orderbook_loading());
    a.set_orderbook_error(s("no peers"));
    assert!(!a.orderbook_loading());
    assert_eq!(a.orderbook_error(), Some("no peers"));
    a.set_orderbook_loading(true);
    assert_eq!(a.orderbook_error(), None);
    assert!(a.orderbook().is_none());
}

#[test]
fn fmt_decimal_trims_fraction() {
    assert_eq!(App::fmt_decimal("1.23456789123", 8), "1.23456789");
    assert_eq!(App::fmt_decimal("1.50000000", 8), "1.5");
    assert_eq!(App::fmt_decimal("2.000", 8), "2");
    assert_eq!(App::fmt_decimal("42", 8), "42");
    assert_eq!(App::fmt_decimal("0.1200", 2), "0.12");
    assert_eq!(App::fmt_decimal("7.", 8), "7");
    assert_eq!(App::fmt_decimal("3.14", 0), "3");
}

#[test]
fn info_modal_opens_and_closes() {
    let mut a = app();
    a.open_info_modal();
    assert!(a.is_info_modal_open());
    a.close_info_modal();
    assert!(!a.is_info_modal_open());
}

#[test]
fn details_panel_shows_selected_coin() {
    let mut a = app();
    assert_eq!(a.selected_coin_details(), "Select a coin (↑/↓ Enter)");
    a.add_coin(coin("KMD", true));
    a.coins_select_down();
    assert_eq!(
        a.selected_coin_details(),
        "ticker: KMD\ncurrent_block: —\nspendable: 0.00000000\nunspendable: 0.00000000"
    );
}

#[test]
fn empty_filter_lists_every_coin() {
    let m = CoinSelectModal::new(vec![entry("kmd", "Komodo"), entry("BTC", "Bitcoin")]);
    let shown: Vec<&str> = m.filtered().iter().map(|c| c.ticker.as_str()).collect();
    assert_eq!(shown, vec!["kmd", "BTC"]);
}

#[test]
fn lowercase_filter_matches_uppercased_tickers() {
    let mut m = CoinSelectModal::new(vec![entry("kmd", "Komodo"), entry("BTC", "Bitcoin"), entry("Kmdcl", "Classic")]);
    m.push_filter_char('k');
    m.push_filter_char('M');
    let shown: Vec<&str> = m.filtered().iter().map(|c| c.ticker.as_str()).collect();
    assert_eq!(shown, vec!["kmd", "Kmdcl"]);
}

#[test]
fn filter_matching_on_uppercased_texts() {
    assert!(matches_filter("KMD", ""));
    assert!(matches_filter("KMD", "KM"));
    assert!(matches_filter("KMD", "KMD"));
    assert!(!matches_filter("KMD", "KMDX"));
    assert!(!matches_filter("KMD", "MD"));
    assert!(!matches_filter("", "K"));
}

#[test]
fn wallet_selection_sequence_hands_back_the_chosen_wallet() {
    let names = vec![s("a"), s("b"), s("c")];
    for k in 0..names.len() {
        let mut a = app();
        a.open_wallet_modal(names.clone());
        for _ in 0..k {
            a.wallet_modal_select_down();
        }
        a.wallet_modal_toggle_hd();
        assert!(a.wallet_modal_confirm_selection());
        for c in "s3cr3t".chars() {
            a.wallet_modal_password_push(c);
        }
        assert_eq!(a.wallet_modal_submit_password(), Some((names[k].clone(), s("s3cr3t"), true, names.clone())));
        assert!(a.wallet_modal().is_none());
    }
}

#[test]
fn failed_restart_reopens_the_wallet_list() {
    let mut a = app();
    assert!(!a.wallet_restart_outcome(false, vec![s("main")]));
    assert!(a.wallet_modal().is_none());
    assert!(a.wallet_restart_outcome(true, vec![s("main"), s("alt")]));
    match a.wallet_modal() {
        Some(WalletModalState::Selecting { names, selected_index, enable_hd }) => {
            assert_eq!(names, &vec![s("main"), s("alt")]);
            assert_eq!(*selected_index, 0);
            assert!(!*enable_hd);
        }
        _ => panic!("expected the wallet list"),
    }
}

#[test]
fn fmt_decimal_cuts_the_fraction_by_bytes() {
    // each 'é' takes two bytes, so eight fraction bytes hold four of them
    assert_eq!(App::fmt_decimal("1.éééééééé", 8), "1.éééé");
    assert_eq!(App::fmt_decimal("1.éé", 8), "1.éé");
    assert_eq!(App::fmt_decimal("é.5", 8), "é.5");
}
