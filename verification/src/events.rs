//! Keyboard handling of the wallet screen: which key changes which part of
//! the screen state, and which outside work (an RPC, a restart) it asks for.

use crate::app::{
    amount_of, law_amount_stays_numeric, numeric_amount, activated_coin, coin_with_status, coins_updated, task_position, activated_tickers, min, other_focus, other_screen, password_erased, password_typed, sat_sub,
    hd_toggled, wallet_confirmed, wallet_down, wallet_up, withdraw_erased, withdraw_typed, App, AppModel, CoinSelectModal,
    WalletModalState, WalletModalView, WithdrawModalState, WithdrawModalView,
};
use crate::coins::{amount_satoshis, opt_nat, opt_text, parse_status_details, status_balance_of, Coin, CoinStatusDetails};
use crate::json::JsonValue;
use crate::text::{decimal, push_char, push_decimal, str_eq, texts};
use vstd::prelude::*;

verus! {

/// A key of the keyboard, as the terminal reports it.
#[derive(Debug, Clone, Copy, PartialEq, Eq, Structural)]
pub enum Key {
    Char(char),
    Backspace,
    Enter,
    Left,
    Right,
    Up,
    Down,
    Home,
    End,
    PageUp,
    PageDown,
    Tab,
    BackTab,
    Delete,
    Insert,
    F(u8),
    Null,
    Esc,
    CapsLock,
    ScrollLock,
    NumLock,
    PrintScreen,
    Pause,
    Menu,
    KeypadBegin,
    Modifier,
    Media,
}

/// The name of a key shown in the status bar.
pub open spec fn key_label(k: Key) -> Seq<char> {
    match k {
        Key::Char(c) => seq![c],
        Key::Backspace => "Backspace"@,
        Key::Enter => "Enter"@,
        Key::Left => "Left"@,
        Key::Right => "Right"@,
        Key::Up => "Up"@,
        Key::Down => "Down"@,
        Key::Home => "Home"@,
        Key::End => "End"@,
        Key::PageUp => "PgUp"@,
        Key::PageDown => "PgDn"@,
        Key::Tab => "Tab"@,
        Key::BackTab => "BackTab"@,
        Key::Delete => "Delete"@,
        Key::Insert => "Insert"@,
        Key::F(n) => "F"@ + decimal(n as nat),
        Key::Null => "Null"@,
        Key::Esc => "Esc"@,
        Key::CapsLock => "CapsLock"@,
        Key::ScrollLock => "ScrollLock"@,
        Key::NumLock => "NumLock"@,
        Key::PrintScreen => "PrintScreen"@,
        Key::Pause => "Pause"@,
        Key::Menu => "Menu"@,
        Key::KeypadBegin => "KeypadBegin"@,
        Key::Modifier => "Modifier"@,
        Key::Media => "Media"@,
    }
}

/// The name of `code` shown in the status bar.
pub fn key_code_to_display(code: Key) -> (s: String)
    ensures
        s@ == key_label(code),
{
    match code {
        Key::Char(c) => {
            let mut s = String::new();
            push_char(&mut s, c);
            assert(s@ =~= seq![c]);
            s
        },
        Key::Backspace => String::from_str("Backspace"),
        Key::Enter => String::from_str("Enter"),
        Key::Left => String::from_str("Left"),
        Key::Right => String::from_str("Right"),
        Key::Up => String::from_str("Up"),
        Key::Down => String::from_str("Down"),
        Key::Home => String::from_str("Home"),
        Key::End => String::from_str("End"),
        Key::PageUp => String::from_str("PgUp"),
        Key::PageDown => String::from_str("PgDn"),
        Key::Tab => String::from_str("Tab"),
        Key::BackTab => String::from_str("BackTab"),
        Key::Delete => String::from_str("Delete"),
        Key::Insert => String::from_str("Insert"),
        Key::F(n) => {
            let mut s = String::from_str("F");
            push_decimal(&mut s, n as u64);
            s
        },
        Key::Null => String::from_str("Null"),
        Key::Esc => String::from_str("Esc"),
        Key::CapsLock => String::from_str("CapsLock"),
        Key::ScrollLock => String::from_str("ScrollLock"),
        Key::NumLock => String::from_str("NumLock"),
        Key::PrintScreen => String::from_str("PrintScreen"),
        Key::Pause => String::from_str("Pause"),
        Key::Menu => String::from_str("Menu"),
        Key::KeypadBegin => String::from_str("KeypadBegin"),
        Key::Modifier => String::from_str("Modifier"),
        Key::Media => String::from_str("Media"),
    }
}

} // verus!

verus! {

/// Outside work that a key asks for; the event loop performs it.
#[derive(Debug)]
pub enum KeyAction {
    /// Nothing beyond the change of the screen state.
    Nothing,
    /// Stop the node, write the chosen wallet into the configuration, restart
    /// it and activate the default coins.
    ApplyWallet { name: String, password: String, enable_hd: bool, names: Vec<String> },
    /// Activate the coins with these tickers.
    ActivateCoins { tickers: Vec<String> },
    /// Prepare a withdrawal.
    Withdraw { ticker: String, address: String, amount: String },
    /// Broadcast the prepared transaction.
    SendTransaction { ticker: String, coin: String, tx_hex: String },
    /// Stop the node, wait until it no longer answers, and leave.
    Quit,
    /// Stop the node and leave without waiting.
    QuickQuit,
    /// Refresh balance and first history page of the coin; the remaining
    /// queued events are left for the next frame.
    RefreshCoin { ticker: String },
    /// Read the list of coins that can be activated and open the selection.
    LoadCoinList,
    /// Fetch this page of the coin's transaction history.
    FetchTxHistory { ticker: String, page: u32 },
}

/// The coin list selection moved up (see `App::coins_select_up`).
pub open spec fn coins_up(o: AppModel) -> AppModel {
    if o.coins.len() == 0 {
        o
    } else {
        AppModel {
            coins_selected: Some(
                min(
                    sat_sub(
                        match o.coins_selected {
                            Some(s) => s as int,
                            None => 0,
                        },
                        1,
                    ),
                    o.coins.len() - 1,
                ) as usize,
            ),
            ..o
        }
    }
}

/// The coin list selection moved down (see `App::coins_select_down`).
pub open spec fn coins_down(o: AppModel) -> AppModel {
    if o.coins.len() == 0 {
        o
    } else {
        AppModel {
            coins_selected: Some(
                min(
                    match o.coins_selected {
                        Some(s) => s as int,
                        None => 0,
                    } + 1,
                    o.coins.len() - 1,
                ) as usize,
            ),
            ..o
        }
    }
}

/// The transaction history emptied (see `App::clear_tx_history`).
pub open spec fn history_cleared(o: AppModel) -> AppModel {
    AppModel {
        tx_history: Seq::empty(),
        tx_history_page: 1,
        tx_history_total_pages: 0,
        tx_history_loading: false,
        tx_history_error: None,
        ..o
    }
}

/// The log scrolled one page up over `count` entries (see `App::scroll_log_up`).
pub open spec fn log_up(o: AppModel, count: usize) -> AppModel {
    if count == 0 {
        o
    } else {
        let current = match o.log_selected {
            Some(s) => s as int,
            None => count - 1,
        };
        let new_idx = min(sat_sub(current, 8), count - 1);
        AppModel {
            log_follow: false,
            log_selected: Some(new_idx as usize),
            log_offset: sat_sub(new_idx, 5) as usize,
            ..o
        }
    }
}

/// The log scrolled one page down over `count` entries (see `App::scroll_log_down`).
pub open spec fn log_down(o: AppModel, count: usize) -> AppModel {
    if count == 0 {
        o
    } else {
        let current = match o.log_selected {
            Some(s) => s as int,
            None => 0,
        };
        let new_idx = min(current + 8, count - 1);
        AppModel {
            log_selected: Some(new_idx as usize),
            log_offset: sat_sub(new_idx, 5) as usize,
            log_follow: new_idx == count - 1,
            ..o
        }
    }
}

/// The withdraw modal after Enter: a non-empty address moves on to the amount,
/// a non-empty amount to sending; empty fields stay, and so do the other phases.
pub open spec fn withdraw_entered(m: Option<WithdrawModalView>) -> Option<WithdrawModalView> {
    match m {
        Some(WithdrawModalView::EnteringAddress { ticker, address }) => if address.len() > 0 {
            Some(WithdrawModalView::EnteringAmount { ticker, address, amount: Seq::empty() })
        } else {
            m
        },
        Some(WithdrawModalView::EnteringAmount { ticker, address, amount }) => if amount.len() > 0 {
            Some(WithdrawModalView::Sending)
        } else {
            m
        },
        _ => m,
    }
}

/// The effect of a key while the wallet modal is open.
pub open spec fn wallet_key(o: AppModel, n: AppModel, key: Key, a: KeyAction) -> bool {
    match key {
        Key::Up => a is Nothing && n == (AppModel { wallet_modal: wallet_up(o.wallet_modal), ..o }),
        Key::Down => a is Nothing && n == (AppModel { wallet_modal: wallet_down(o.wallet_modal), ..o }),
        Key::Enter => match o.wallet_modal {
            Some(WalletModalView::EnteringPassword { wallet_name, password, enable_hd, names }) => {
                &&& n == (AppModel { wallet_modal: None, ..o })
                &&& a matches KeyAction::ApplyWallet { name, password: p, enable_hd: h, names: ns }
                    && name@ == wallet_name && p@ == password && h == enable_hd && texts(ns@) == names
            },
            _ => a is Nothing && n == (AppModel { wallet_modal: wallet_confirmed(o.wallet_modal), ..o }),
        },
        Key::Esc => a is Nothing && n == (AppModel { wallet_modal: None, ..o }),
        Key::Char(c) => a is Nothing && n == (AppModel {
            wallet_modal: if (c == 'h' || c == 'H') && o.wallet_modal matches Some(
                WalletModalView::Selecting { .. },
            ) {
                hd_toggled(o.wallet_modal)
            } else {
                password_typed(o.wallet_modal, c)
            },
            ..o
        }),
        Key::Backspace => a is Nothing && n == (AppModel { wallet_modal: password_erased(o.wallet_modal), ..o }),
        _ => a is Nothing && n == o,
    }
}

/// `m2` is `m` with the filter `f` and the highlight on top.
pub open spec fn refiltered(m: CoinSelectModal, m2: CoinSelectModal, f: Seq<char>) -> bool {
    &&& m2.filter@ == f
    &&& m2.selected_index == 0
    &&& m2.all_coins == m.all_coins
    &&& m2.selected_tickers == m.selected_tickers
}

/// The effect of a key while the coin selection modal `m` is open.
pub open spec fn coin_select_key(o: AppModel, n: AppModel, m: CoinSelectModal, key: Key, ctrl: bool, a: KeyAction) -> bool {
    match key {
        Key::Esc => a is Nothing && n == (AppModel { coin_select_modal: None, ..o }),
        Key::Enter => {
            &&& n == (AppModel { coin_select_modal: None, ..o })
            &&& m.selected_tickers@.len() == 0 ==> a is Nothing
            &&& m.selected_tickers@.len() > 0 ==> (a matches KeyAction::ActivateCoins { tickers } && texts(
                tickers@,
            ) == texts(m.selected_tickers@))
        },
        _ => {
            &&& a is Nothing
            &&& n == (AppModel { coin_select_modal: n.coin_select_modal, ..o })
            &&& n.coin_select_modal matches Some(m2) && match key {
                Key::Up => m2 == (CoinSelectModal {
                    selected_index: sat_sub(m.selected_index as int, 1) as usize,
                    ..m
                }),
                Key::Down => if m.selected_index < usize::MAX {
                    m2 == (CoinSelectModal {
                        selected_index: min(
                            m.selected_index + 1,
                            sat_sub(m.shown().len() as int, 1),
                        ) as usize,
                        ..m
                    })
                } else {
                    m2 == m
                },
                Key::Char(c) => if c == ' ' {
                    &&& m2.all_coins == m.all_coins
                    &&& m2.filter == m.filter
                    &&& m2.selected_index == m.selected_index
                    &&& (m.wf() ==> m2.wf())
                    &&& m.selected_index < m.shown().len() ==> m2.selection() == crate::app::toggled(
                        m.selection(),
                        m.shown()[m.selected_index as int].ticker@,
                    )
                    &&& m.selected_index >= m.shown().len() ==> m2.selected_tickers == m.selected_tickers
                } else if !ctrl {
                    refiltered(m, m2, m.filter@.push(c))
                } else {
                    m2 == m
                },
                Key::Backspace => refiltered(
                    m,
                    m2,
                    if m.filter@.len() > 0 { m.filter@.drop_last() } else { m.filter@ },
                ),
                _ => m2 == m,
            }
        },
    }
}

/// The effect of a key while the withdraw modal is open.
pub open spec fn withdraw_key(o: AppModel, n: AppModel, key: Key, ctrl: bool, a: KeyAction) -> bool {
    match key {
        Key::Esc => a is Nothing && n == (AppModel { withdraw_modal: None, ..o }),
        Key::Enter => {
            &&& n == (AppModel { withdraw_modal: withdraw_entered(o.withdraw_modal), ..o })
            &&& match o.withdraw_modal {
                Some(WithdrawModalView::EnteringAmount { ticker, address, amount }) => if amount.len() > 0 {
                    a matches KeyAction::Withdraw { ticker: t, address: ad, amount: am } && t@ == ticker
                        && ad@ == address && am@ == amount
                } else {
                    a is Nothing
                },
                _ => a is Nothing,
            }
        },
        Key::Char(c) => if (c == 'y' || c == 'Y') && o.withdraw_modal is Some && o.withdraw_modal->0 is Confirming {
            match o.withdraw_modal {
                Some(WithdrawModalView::Confirming { ticker, withdraw_result }) => {
                    &&& n == (AppModel { withdraw_modal: Some(WithdrawModalView::Sending), ..o })
                    &&& a matches KeyAction::SendTransaction { ticker: t, coin, tx_hex } && t@ == ticker
                        && coin == withdraw_result.coin && tx_hex == withdraw_result.tx_hex
                },
                _ => false,
            }
        } else if !ctrl {
            a is Nothing && n == (AppModel { withdraw_modal: withdraw_typed(o.withdraw_modal, c), ..o })
        } else {
            a is Nothing && n == o
        },
        Key::Backspace => a is Nothing && n == (AppModel { withdraw_modal: withdraw_erased(o.withdraw_modal), ..o }),
        _ => a is Nothing && n == o,
    }
}

/// The ticker of the selected coin, if a listed coin is selected.
pub open spec fn selected_ticker(o: AppModel) -> Option<Seq<char>> {
    match o.coins_selected {
        Some(i) => if i < o.coins.len() {
            Some(o.coins[i as int].ticker@)
        } else {
            None
        },
        None => None,
    }
}

/// The effect of a key on the main screens, with no modal open but perhaps
/// the information modal.
pub open spec fn main_key(o: AppModel, n: AppModel, key: Key, count: usize, a: KeyAction) -> bool {
    match key {
        Key::Char(c) => if c == 'q' || c == 'Q' {
            a is Quit && n == o
        } else if c == 'r' || c == 'R' {
            n == o && match selected_ticker(o) {
                Some(t) => (a matches KeyAction::RefreshCoin { ticker } && ticker@ == t),
                None => a is Nothing,
            }
        } else if c == 'i' || c == 'I' {
            a is Nothing && n == (if o.coins_selected is Some {
                AppModel { info_modal_open: true, ..o }
            } else {
                o
            })
        } else if c == 'w' || c == 'W' {
            a is Nothing && n == match selected_ticker(o) {
                Some(t) => AppModel {
                    withdraw_modal: Some(WithdrawModalView::EnteringAddress { ticker: t, address: Seq::empty() }),
                    ..o
                },
                None => o,
            }
        } else if c == '+' || c == '=' {
            a is LoadCoinList && n == o
        } else if c == 'n' || c == 'N' || c == 'p' || c == 'P' {
            match selected_ticker(o) {
                Some(t) => {
                    let page = if c == 'n' || c == 'N' {
                        crate::app::next_page(o.tx_history_page, o.tx_history_total_pages)
                    } else {
                        crate::app::prev_page(o.tx_history_page)
                    };
                    &&& n == (AppModel { tx_history_page: page, ..o })
                    &&& a matches KeyAction::FetchTxHistory { ticker, page: p } && ticker@ == t && p == page
                },
                None => a is Nothing && n == o,
            }
        } else {
            a is Nothing && n == o
        },
        Key::Esc => if o.info_modal_open {
            a is Nothing && n == (AppModel { info_modal_open: false, ..o })
        } else {
            a is QuickQuit && n == o
        },
        Key::Up => a is Nothing && n == history_cleared(coins_up(o)),
        Key::Down => a is Nothing && n == history_cleared(coins_down(o)),
        Key::PageUp => a is Nothing && n == log_up(o, count),
        Key::PageDown => a is Nothing && n == log_down(o, count),
        _ => a is Nothing && n == o,
    }
}

/// What a key press does to the screen state `o`, giving `n`, and which
/// outside work `a` it asks for: the key name goes to the status bar, then an
/// open wallet modal takes the key, else an open coin selection, else an open
/// withdraw modal, else the main screen; `count` is the number of log entries.
pub open spec fn key_effect(o: AppModel, n: AppModel, key: Key, ctrl: bool, count: usize, a: KeyAction) -> bool {
    let o1 = AppModel { last_key_pressed: key_label(key), ..o };
    if o1.wallet_modal is Some {
        wallet_key(o1, n, key, a)
    } else if o1.coin_select_modal is Some {
        coin_select_key(o1, n, o1.coin_select_modal->0, key, ctrl, a)
    } else if o1.withdraw_modal is Some {
        withdraw_key(o1, n, key, ctrl, a)
    } else {
        main_key(o1, n, key, count, a)
    }
}

} // verus!

verus! {

fn wallet_modal_key(app: &mut App, key: Key) -> (a: KeyAction)
    requires
        old(app)@.wallet_modal is Some,
    ensures
        wallet_key(old(app)@, final(app)@, key, a),
{
    match key {
        Key::Up => {
            app.wallet_modal_select_up();
            KeyAction::Nothing
        },
        Key::Down => {
            app.wallet_modal_select_down();
            KeyAction::Nothing
        },
        Key::Enter => {
            let selecting = match app.wallet_modal() {
                Some(WalletModalState::Selecting { .. }) => true,
                _ => false,
            };
            if selecting {
                app.wallet_modal_confirm_selection();
                KeyAction::Nothing
            } else {
                match app.wallet_modal_submit_password() {
                    Some((name, password, enable_hd, names)) => KeyAction::ApplyWallet {
                        name,
                        password,
                        enable_hd,
                        names,
                    },
                    None => KeyAction::Nothing,
                }
            }
        },
        Key::Esc => {
            app.wallet_modal_close();
            KeyAction::Nothing
        },
        Key::Char(c) => {
            let selecting = match app.wallet_modal() {
                Some(WalletModalState::Selecting { .. }) => true,
                _ => false,
            };
            if (c == 'h' || c == 'H') && selecting {
                app.wallet_modal_toggle_hd();
            } else {
                app.wallet_modal_password_push(c);
            }
            KeyAction::Nothing
        },
        Key::Backspace => {
            app.wallet_modal_password_backspace();
            KeyAction::Nothing
        },
        _ => KeyAction::Nothing,
    }
}

fn coin_select_modal_key(app: &mut App, key: Key, ctrl: bool) -> (a: KeyAction)
    requires
        old(app)@.coin_select_modal is Some,
    ensures
        coin_select_key(old(app)@, final(app)@, old(app)@.coin_select_modal->0, key, ctrl, a),
{
    match key {
        Key::Esc => {
            app.close_coin_select_modal();
            KeyAction::Nothing
        },
        Key::Enter => {
            let ghost m = old(app)@.coin_select_modal->0;
            let tickers = app.coin_select_modal_confirm();
            assert(texts(tickers@).len() == tickers@.len());
            assert(texts(m.selected_tickers@).len() == m.selected_tickers@.len());
            if tickers.len() > 0 {
                KeyAction::ActivateCoins { tickers }
            } else {
                KeyAction::Nothing
            }
        },
        _ => {
            match app.coin_select_modal_mut() {
                Some(m) => {
                    match key {
                        Key::Up => m.move_up(),
                        Key::Down => {
                            if m.selected_index < usize::MAX {
                                m.move_down();
                            }
                        },
                        Key::Char(c) => {
                            if c == ' ' {
                                m.toggle_selected();
                            } else if !ctrl {
                                m.push_filter_char(c);
                            }
                        },
                        Key::Backspace => m.filter_backspace(),
                        _ => {},
                    }
                },
                None => {},
            }
            KeyAction::Nothing
        },
    }
}

fn withdraw_modal_key(app: &mut App, key: Key, ctrl: bool) -> (a: KeyAction)
    requires
        old(app)@.withdraw_modal is Some,
    ensures
        withdraw_key(old(app)@, final(app)@, key, ctrl, a),
{
    match key {
        Key::Esc => {
            app.close_withdraw_modal();
            KeyAction::Nothing
        },
        Key::Enter => {
            let phase: u8 = match app.withdraw_modal() {
                Some(WithdrawModalState::EnteringAddress { .. }) => 1,
                Some(WithdrawModalState::EnteringAmount { .. }) => 2,
                _ => 0,
            };
            if phase == 1 {
                app.withdraw_modal_confirm_address();
                KeyAction::Nothing
            } else if phase == 2 {
                match app.withdraw_modal_confirm_amount() {
                    Some((ticker, address, amount)) => KeyAction::Withdraw { ticker, address, amount },
                    None => KeyAction::Nothing,
                }
            } else {
                KeyAction::Nothing
            }
        },
        Key::Char(c) => {
            let confirming = match app.withdraw_modal() {
                Some(WithdrawModalState::Confirming { .. }) => true,
                _ => false,
            };
            if (c == 'y' || c == 'Y') && confirming {
                match app.withdraw_modal_confirm_send() {
                    Some((ticker, coin, tx_hex)) => KeyAction::SendTransaction { ticker, coin, tx_hex },
                    None => KeyAction::Nothing,
                }
            } else {
                if !ctrl {
                    app.withdraw_modal_push_char(c);
                }
                KeyAction::Nothing
            }
        },
        Key::Backspace => {
            app.withdraw_modal_backspace();
            KeyAction::Nothing
        },
        _ => KeyAction::Nothing,
    }
}

fn main_screen_key(app: &mut App, key: Key, count: usize) -> (a: KeyAction)
    ensures
        main_key(old(app)@, final(app)@, key, count, a),
{
    match key {
        Key::Char(c) => {
            if c == 'q' || c == 'Q' {
                KeyAction::Quit
            } else if c == 'r' || c == 'R' {
                match app.selected_coin_ticker() {
                    Some(ticker) => KeyAction::RefreshCoin { ticker },
                    None => KeyAction::Nothing,
                }
            } else if c == 'i' || c == 'I' {
                if app.coins_selected_index().is_some() {
                    app.open_info_modal();
                }
                KeyAction::Nothing
            } else if c == 'w' || c == 'W' {
                match app.selected_coin_ticker() {
                    Some(ticker) => app.open_withdraw_modal(ticker),
                    None => {},
                }
                KeyAction::Nothing
            } else if c == '+' || c == '=' {
                KeyAction::LoadCoinList
            } else if c == 'n' || c == 'N' || c == 'p' || c == 'P' {
                match app.selected_coin_ticker() {
                    Some(ticker) => {
                        if c == 'n' || c == 'N' {
                            app.tx_history_next_page();
                        } else {
                            app.tx_history_prev_page();
                        }
                        let page = app.tx_history_page();
                        KeyAction::FetchTxHistory { ticker, page }
                    },
                    None => KeyAction::Nothing,
                }
            } else {
                KeyAction::Nothing
            }
        },
        Key::Esc => {
            if app.is_info_modal_open() {
                app.close_info_modal();
                KeyAction::Nothing
            } else {
                KeyAction::QuickQuit
            }
        },
        Key::Up => {
            app.coins_select_up();
            app.clear_tx_history();
            KeyAction::Nothing
        },
        Key::Down => {
            app.coins_select_down();
            app.clear_tx_history();
            KeyAction::Nothing
        },
        Key::PageUp => {
            app.scroll_log_up(count);
            KeyAction::Nothing
        },
        Key::PageDown => {
            app.scroll_log_down(count);
            KeyAction::Nothing
        },
        _ => KeyAction::Nothing,
    }
}

impl App {
    /// Handles one key press: records its name for the status bar and lets
    /// the open modal, or else the main screen, act on it. `ctrl` tells
    /// whether Control was held; `log_entry_count` is the number of log
    /// entries, for scrolling. Returns the outside work the key asks for.
    pub fn handle_key(&mut self, key: Key, ctrl: bool, log_entry_count: usize) -> (a: KeyAction)
        ensures
            key_effect(old(self)@, final(self)@, key, ctrl, log_entry_count, a),
    {
        self.set_last_key(key_code_to_display(key));
        if self.wallet_modal().is_some() {
            wallet_modal_key(self, key)
        } else if self.coin_select_modal().is_some() {
            coin_select_modal_key(self, key, ctrl)
        } else if self.withdraw_modal().is_some() {
            withdraw_modal_key(self, key, ctrl)
        } else {
            main_screen_key(self, key, log_entry_count)
        }
    }
}

} // verus!

verus! {

/// A control character, as `char::is_control` tells (general category Cc).
pub open spec fn is_control(c: char) -> bool {
    c <= '\u{1f}' || ('\u{7f}' <= c && c <= '\u{9f}')
}

/// The withdraw modal after the non-control characters of `t` were typed.
pub open spec fn withdraw_pasted(m: Option<WithdrawModalView>, t: Seq<char>) -> Option<WithdrawModalView>
    decreases t.len(),
{
    if t.len() == 0 {
        m
    } else {
        let m1 = withdraw_pasted(m, t.drop_last());
        if is_control(t.last()) {
            m1
        } else {
            withdraw_typed(m1, t.last())
        }
    }
}

/// The wallet modal after the non-control characters of `t` were typed into
/// the password.
pub open spec fn password_pasted(m: Option<WalletModalView>, t: Seq<char>) -> Option<WalletModalView>
    decreases t.len(),
{
    if t.len() == 0 {
        m
    } else {
        let m1 = password_pasted(m, t.drop_last());
        if is_control(t.last()) {
            m1
        } else {
            password_typed(m1, t.last())
        }
    }
}

/// The screen state after pasting `t`: its non-control characters go to an
/// open withdraw modal, else to the wallet password when it is asked for.
pub open spec fn pasted(o: AppModel, t: Seq<char>) -> AppModel {
    if o.withdraw_modal is Some {
        AppModel { withdraw_modal: withdraw_pasted(o.withdraw_modal, t), ..o }
    } else if o.wallet_modal matches Some(WalletModalView::EnteringPassword { .. }) {
        AppModel { wallet_modal: password_pasted(o.wallet_modal, t), ..o }
    } else {
        o
    }
}

fn is_control_char(c: char) -> (r: bool)
    ensures
        r == is_control(c),
{
    c <= '\u{1f}' || ('\u{7f}' <= c && c <= '\u{9f}')
}

/// What a finished status poll of an activation task did.
pub enum TaskOutcome {
    /// The coin is active; `details` is what its status reported, if readable.
    Activated { details: Option<CoinStatusDetails> },
    /// Still running: the task is polled again later.
    InProgress,
    /// Any other status: the task is dropped.
    Failed,
}

/// The screen state with the first pending task `id` removed.
pub open spec fn without_task(o: AppModel, id: u64) -> AppModel {
    match task_position(o.pending_tasks, id) {
        Some(i) => AppModel { pending_tasks: o.pending_tasks.remove(i), ..o },
        None => o,
    }
}

/// `d` is what the status `details` reports for `ticker`.
pub open spec fn details_read(d: CoinStatusDetails, details: crate::json::Json, ticker: Seq<char>) -> bool {
    let (block, spendable, unspendable, wallet_type, address) = status_balance_of(details, ticker)->0;
    &&& status_balance_of(details, ticker) is Some
    &&& opt_nat(d.current_block) == block
    &&& d.spendable_satoshis == amount_satoshis(spendable)
    &&& d.unspendable_satoshis == amount_satoshis(unspendable)
    &&& opt_text(d.wallet_type) == wallet_type
    &&& opt_text(d.address) == address
}

impl App {
    /// Types the non-control characters of pasted text into the withdraw
    /// modal if it is open, else into the wallet password when it is asked for.
    pub fn handle_paste(&mut self, text: &str)
        ensures
            final(self)@ == pasted(old(self)@, text@),
    {
        let n = text.unicode_len();
        let to_withdraw = self.withdraw_modal().is_some();
        let to_password = match self.wallet_modal() {
            Some(WalletModalState::EnteringPassword { .. }) => true,
            _ => false,
        };
        if !to_withdraw && !to_password {
            return;
        }
        let mut i: usize = 0;
        while i < n
            invariant
                n == text@.len(),
                i <= n,
                to_withdraw == old(self)@.withdraw_modal is Some,
                to_withdraw ==> self@ == (AppModel {
                    withdraw_modal: withdraw_pasted(old(self)@.withdraw_modal, text@.take(i as int)),
                    ..old(self)@
                }),
                !to_withdraw ==> to_password,
                !to_withdraw ==> (old(self)@.wallet_modal matches Some(
                    WalletModalView::EnteringPassword { .. },
                )),
                !to_withdraw ==> (self@ == (AppModel {
                    wallet_modal: password_pasted(old(self)@.wallet_modal, text@.take(i as int)),
                    ..old(self)@
                })),
            decreases n - i,
        {
            let c = text.get_char(i);
            assert(text@.take(i + 1).drop_last() =~= text@.take(i as int));
            if !is_control_char(c) {
                if to_withdraw {
                    self.withdraw_modal_push_char(c);
                } else {
                    self.wallet_modal_password_push(c);
                }
            }
            i = i + 1;
        }
        assert(text@.take(n as int) =~= text@);
    }

    /// Applies the reply to a status poll of activation task `task_id` for
    /// `ticker`: the task leaves the pending list; on `"Ok"` the coin takes
    /// the balances of `details` and is marked activated; on `"InProgress"`
    /// the task is queued again.
    pub fn apply_task_status(&mut self, task_id: u64, ticker: &str, status: &str, details: &JsonValue) -> (r: TaskOutcome)
        ensures
            ({
                let o1 = without_task(old(self)@, task_id);
                if status@ == "Ok"@ {
                    r matches TaskOutcome::Activated { details: d } && (d is Some <==> status_balance_of(
                        details@,
                        ticker@,
                    ) is Some) && match d {
                        Some(dd) => details_read(dd, details@, ticker@) && final(self)@ == (AppModel {
                            coins: coins_updated(
                                coins_updated(o1.coins, ticker@, |c: Coin| coin_with_status(c, dd)),
                                ticker@,
                                |c: Coin| activated_coin(c),
                            ),
                            ..o1
                        }),
                        None => final(self)@ == (AppModel {
                            coins: coins_updated(o1.coins, ticker@, |c: Coin| activated_coin(c)),
                            ..o1
                        }),
                    }
                } else if status@ == "InProgress"@ {
                    r is InProgress && final(self)@ == (AppModel {
                        pending_tasks: o1.pending_tasks.push((task_id, ticker@)),
                        ..o1
                    })
                } else {
                    r is Failed && final(self)@ == o1
                }
            }),
    {
        self.remove_pending_task(task_id);
        proof {
            reveal_strlit("Ok");
            reveal_strlit("InProgress");
        }
        if str_eq(status, "Ok") {
            let d = parse_status_details(details, ticker);
            match &d {
                Some(dd) => self.update_coin_from_status_details(ticker, dd),
                None => {},
            }
            self.update_coin_activated(ticker);
            TaskOutcome::Activated { details: d }
        } else if str_eq(status, "InProgress") {
            self.add_pending_task(task_id, String::from_str(ticker));
            TaskOutcome::InProgress
        } else {
            TaskOutcome::Failed
        }
    }
}

} // verus!

verus! {

/// Law: every key press shows its name in the status bar, and while any modal
/// is open no key quits the application.
pub proof fn law_key_press_effects(o: AppModel, n: AppModel, key: Key, ctrl: bool, count: usize, a: KeyAction)
    requires
        key_effect(o, n, key, ctrl, count, a),
    ensures
        n.last_key_pressed == key_label(key),
        o.wallet_modal is Some || o.coin_select_modal is Some || o.withdraw_modal is Some ==> !(a is Quit)
            && !(a is QuickQuit),
{
}

/// Law: Esc closes the modal that takes the keys, and asks for no outside work.
pub proof fn law_escape_closes_modal(o: AppModel, n: AppModel, ctrl: bool, count: usize, a: KeyAction)
    requires
        key_effect(o, n, Key::Esc, ctrl, count, a),
        o.wallet_modal is Some || o.coin_select_modal is Some || o.withdraw_modal is Some,
    ensures
        a is Nothing,
        o.wallet_modal is Some ==> n.wallet_modal is None,
        o.wallet_modal is None && o.coin_select_modal is Some ==> n.coin_select_modal is None,
        o.wallet_modal is None && o.coin_select_modal is None ==> n.withdraw_modal is None,
{
}

} // verus!

verus! {

/// The withdraw amount, when the modal asks for one, is made of digits with
/// at most one dot.
pub open spec fn amount_is_numeric(o: AppModel) -> bool {
    amount_of(o.withdraw_modal) matches Some(a) ==> numeric_amount(a)
}

/// Law: no key press changes the coin list or the pending activations (only
/// replies of the node do), and none breaks the withdraw amount's form.
pub proof fn law_keys_keep_coins_and_amount(o: AppModel, n: AppModel, key: Key, ctrl: bool, count: usize, a: KeyAction)
    requires
        key_effect(o, n, key, ctrl, count, a),
        amount_is_numeric(o),
    ensures
        n.coins == o.coins,
        n.pending_tasks == o.pending_tasks,
        amount_is_numeric(n),
{
    let o1 = AppModel { last_key_pressed: key_label(key), ..o };
    if o1.wallet_modal is None && o1.coin_select_modal is None && o1.withdraw_modal is Some {
        match key {
            Key::Char(c) => {
                law_amount_stays_numeric(o1.withdraw_modal, c);
            },
            Key::Backspace => {
                law_amount_stays_numeric(o1.withdraw_modal, ' ');
            },
            _ => {},
        }
    }
}

/// Law: pasting keeps the withdraw amount's form, and leaves the coin list
/// and pending activations alone.
pub proof fn law_paste_keeps_amount(o: AppModel, t: Seq<char>)
    requires
        amount_is_numeric(o),
    ensures
        amount_is_numeric(pasted(o, t)),
        pasted(o, t).coins == o.coins,
        pasted(o, t).pending_tasks == o.pending_tasks,
{
    lemma_withdraw_pasted_numeric(o.withdraw_modal, t);
}

proof fn lemma_withdraw_pasted_numeric(m: Option<WithdrawModalView>, t: Seq<char>)
    requires
        amount_of(m) matches Some(a) ==> numeric_amount(a),
    ensures
        amount_of(withdraw_pasted(m, t)) matches Some(a) ==> numeric_amount(a),
    decreases t.len(),
{
    if t.len() > 0 {
        lemma_withdraw_pasted_numeric(m, t.drop_last());
        law_amount_stays_numeric(withdraw_pasted(m, t.drop_last()), t.last());
    }
}

} // verus!
