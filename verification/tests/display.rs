use mm2_rtui::app::ActiveScreen;
use mm2_rtui::coins::{Coin, CoinType};
use mm2_rtui::display::{
    abbreviate_first_address, abbreviate_hash, centered_modal, coin_details_text, coin_line_padding,
    coin_select_line, fee_display_parts, hd_label, last_key_text, log_line_prefix, masked_password,
    message_lines, orderbook_entry_row, orderbook_header, orderbook_row, screen_label, selected_count_text,
    spread_text, status_version_text, ticker_or_dash, tx_confirmations_text, tx_is_unconfirmed,
    tx_kind_label, tx_status_label, tx_time_text, wallet_list_offset,
};
use mm2_rtui::json::JsonValue;
use mm2_rtui::kdf_client::Transaction;
use mm2_rtui::logger::{LogEntry, LogLevel};

fn s(x: &str) -> String {
    x.to_string()
}

fn tx(change: &str, timestamp: i64, height: u64, confirmations: u32) -> Transaction {
    Transaction {
        tx_hex: s(""),
        tx_hash: s("0123456789abcdef0123456789abcdef"),
        from: vec![s("RFromAddressThatIsQuiteLong1234")],
        to: vec![],
        total_amount: s("1"),
        spent_by_me: s("0"),
        received_by_me: s("1"),
        my_balance_change: s(change),
        block_height: height,
        timestamp,
        fee_details: JsonValue::Null,
        coin: s("KMD"),
        internal_id: s(""),
        transaction_type: s("StandardTransfer"),
        memo: None,
        confirmations,
    }
}

#[test]
fn modals_are_centred_with_margins() {
    assert_eq!(centered_modal(100, 40, 50, 18), (25, 11, 50, 18));
    assert_eq!(centered_modal(30, 10, 50, 18), (2, 2, 26, 6));
    assert_eq!(centered_modal(3, 2, 50, 18), (1, 1, 0, 0));
}

#[test]
fn wallet_modal_texts() {
    assert_eq!(masked_password("pässword"), "████████");
    assert_eq!(hd_label(true), "[x] HD Wallet");
    assert_eq!(hd_label(false), "[ ] HD Wallet");
    assert_eq!(wallet_list_offset(10, 4, 20), Some(7));
    assert_eq!(wallet_list_offset(2, 4, 20), Some(0));
    assert_eq!(wallet_list_offset(30, 4, 20), Some(19));
    assert_eq!(wallet_list_offset(3, 0, 20), None);
    assert_eq!(wallet_list_offset(3, 4, 0), None);
}

#[test]
fn coin_selection_lines() {
    assert_eq!(coin_select_line(true, "KMD", "Komodo"), "[x] KMD        Komodo");
    assert_eq!(coin_select_line(false, "VERYLONGTICKER", "x"), "[ ] VERYLONGTICKER x");
    assert_eq!(selected_count_text(3), " 3 coin(s) selected");
    assert_eq!(coin_line_padding(26, 3, 13), 8);
    assert_eq!(coin_line_padding(10, 8, 13), 0);
}

#[test]
fn messages_split_at_newlines() {
    assert_eq!(message_lines("Transaction sent successfully!\n\nabcd"), vec![s("Transaction sent successfully!"), s(""), s("abcd")]);
    assert_eq!(message_lines(""), vec![s("")]);
    assert_eq!(message_lines("a\n"), vec![s("a"), s("")]);
}

#[test]
fn transaction_texts() {
    let send = tx("-1.5", 1_700_000_000, 10, 3);
    assert_eq!(tx_kind_label(&send), "SEND");
    assert!(!tx_is_unconfirmed(&send));
    assert_eq!(tx_time_text(&send), "2023-11-14 22:13:20");
    assert_eq!(tx_confirmations_text(&send), "3 conf");
    assert_eq!(tx_status_label(&send), "Confirmed");
    let pending = tx("0.5", 1_700_000_000, 10, 0);
    assert_eq!(tx_kind_label(&pending), "RECV");
    assert_eq!(tx_status_label(&pending), "Pending");
    let fresh = tx("0.5", 0, 0, 0);
    assert!(tx_is_unconfirmed(&fresh));
    assert_eq!(tx_time_text(&fresh), "NOW");
    assert_eq!(tx_confirmations_text(&fresh), "Unconfirmed");
    assert_eq!(tx_status_label(&fresh), "Unconfirmed");
    assert_eq!(tx_time_text(&tx("1", i64::MAX, 5, 1)), "Unknown");
}

#[test]
fn hashes_and_addresses_are_shortened() {
    assert_eq!(abbreviate_hash("0123456789abcdef0123456789abcdef"), "0123456789abcdef...89abcdef");
    assert_eq!(abbreviate_hash("short"), "short");
    assert_eq!(abbreviate_first_address(&vec![s("RFromAddressThatIsQuiteLong1234")]), "RFromAddressThatI...");
    assert_eq!(abbreviate_first_address(&vec![s("RShort"), s("RNext")]), "RShort");
    assert_eq!(abbreviate_first_address(&vec![]), "Unknown");
}

#[test]
fn coin_details_panel() {
    let c = Coin {
        ticker: s("KMD"),
        name: s("Komodo"),
        coin_type: CoinType::UTXO,
        activated: true,
        spendable_satoshis: Some(426937384458),
        unspendable_satoshis: None,
        current_block: Some(4000000),
        wallet_type: Some(s("Iguana")),
        address: Some(s("RAddr")),
    };
    assert_eq!(
        coin_details_text(&c),
        "ticker: KMD\ncurrent_block: 4000000\nspendable: 4269.37384458\nunspendable: 0.00000000\nwallet_type: Iguana\naddress: RAddr"
    );
}

#[test]
fn status_bar_texts() {
    assert_eq!(screen_label(ActiveScreen::Main), "[Tab] Main | Swaps");
    assert_eq!(status_version_text(ActiveScreen::Swaps, "2.4.0"), "Main | [Tab] Swaps | KDF: 2.4.0");
    assert_eq!(last_key_text(""), "—");
    assert_eq!(last_key_text("Enter"), "Enter");
    assert_eq!(ticker_or_dash(None), "—");
    assert_eq!(ticker_or_dash(Some(s("KMD"))), "KMD");
}

#[test]
fn log_line_columns() {
    let e = LogEntry { timestamp: s("2024-01-01 00:00:00"), level: LogLevel::Warn, message: s("m") };
    assert_eq!(log_line_prefix(&e), (s("[2024-01-01 00:00:00] "), s("[WARN] ")));
}

#[test]
fn orderbook_rows_are_right_aligned() {
    assert_eq!(orderbook_row("1", "2", "3"), format!(" {:>12}  {:>14}  {:>14} ", "1", "2", "3"));
    assert_eq!(
        orderbook_header("KMD", "BTC"),
        format!(" {:>12}  {:>14}  {:>14} ", "Price(BTC)", "Amount(KMD)", "Total(BTC)")
    );
    assert_eq!(
        orderbook_entry_row("0.000012340000", "10.5", "0.00012957"),
        format!(" {:>12}  {:>14}  {:>14} ", "0.00001234", "10.5", "0.00012957")
    );
    assert_eq!(spread_text(Some("0.00000100")), " ── Spread: 0.000001 ──");
    assert_eq!(spread_text(None), " ── Spread: — ──");
}

#[test]
fn fee_line_parts() {
    let fee = JsonValue::Object(vec![
        (s("type"), JsonValue::Str(s("Utxo"))),
        (s("coin"), JsonValue::Str(s("KMD"))),
        (s("amount"), JsonValue::Str(s("0.00001"))),
    ]);
    let (v, coin) = fee_display_parts(&fee, "DOGE").unwrap();
    assert_eq!((v.as_str(), coin.as_str()), (Some("0.00001"), "KMD"));
    let eth = JsonValue::Object(vec![(s("total_fee"), JsonValue::Str(s("0.002")))]);
    let (v, coin) = fee_display_parts(&eth, "ETH").unwrap();
    assert_eq!((v.as_str(), coin.as_str()), (Some("0.002"), "ETH"));
    assert!(fee_display_parts(&JsonValue::Object(vec![]), "KMD").is_none());
    assert!(fee_display_parts(&JsonValue::Null, "KMD").is_none());
}

#[test]
fn hashes_and_addresses_are_cut_by_bytes() {
    // 16 bytes of 'é', ten digits, then 8 bytes of 'é': 34 bytes in all
    let h = format!("{}0123456789{}", "é".repeat(8), "é".repeat(4));
    assert_eq!(abbreviate_hash(&h), format!("{}...{}", "é".repeat(8), "é".repeat(4)));
    // 12 characters but 24 bytes: not longer than 24 bytes, kept whole
    assert_eq!(abbreviate_hash(&"é".repeat(12)), "é".repeat(12));
    // 'a' and ten 'é' take 21 bytes; the first 17 bytes are 'a' and eight 'é'
    let a = format!("a{}", "é".repeat(10));
    assert_eq!(abbreviate_first_address(&vec![a]), format!("a{}...", "é".repeat(8)));
    assert_eq!(abbreviate_first_address(&vec!["é".repeat(10)]), "é".repeat(10));
}
