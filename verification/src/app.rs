//! The state of the interactive wallet screen and every transition that a
//! key press or an RPC reply makes on it.

use crate::coins::{Coin, CoinEntry, CoinStatusDetails};
use crate::kdf_client::{OrderbookEntry, Transaction, WithdrawResponse};
use crate::logger::SharedLogger;
use crate::text::{byte_len, bytes_exceed, head_bytes, head_char_count, head_on_boundary, contains_char, has_prefix, is_digit, owned, pop_char, push_char, str_eq, starts_with, texts, to_uppercase, uppercase_of};
use vstd::arithmetic::div_mod::{lemma_add_mod_noop, lemma_mod_self_0, lemma_small_mod};
use vstd::prelude::*;

verus! {

/// Which screen is currently displayed.
#[derive(Debug, Clone, Copy, PartialEq, Eq, Structural)]
pub enum ActiveScreen {
    Main,
    Swaps,
}

/// Which selector of the swaps screen is focused.
#[derive(Debug, Clone, Copy, PartialEq, Eq, Structural)]
pub enum SwapsCoinFocus {
    Base,
    Rel,
}

/// Cached orderbook data.
#[derive(Debug, Clone)]
pub struct OrderbookData {
    pub asks: Vec<OrderbookEntry>,
    pub bids: Vec<OrderbookEntry>,
    pub base: String,
    pub rel: String,
    pub num_asks: u32,
    pub num_bids: u32,
    pub total_asks_base_vol: String,
    pub total_bids_base_vol: String,
}

/// State of the wallet modal: choosing a wallet or entering its password.
#[derive(Debug, Clone)]
pub enum WalletModalState {
    Selecting { names: Vec<String>, selected_index: usize, enable_hd: bool },
    EnteringPassword {
        wallet_name: String,
        password: String,
        enable_hd: bool,
        /// All wallet names, to reopen the selection if the restart fails.
        names: Vec<String>,
    },
}

/// The mathematical form of [`WalletModalState`].
pub enum WalletModalView {
    Selecting { names: Seq<Seq<char>>, selected_index: usize, enable_hd: bool },
    EnteringPassword {
        wallet_name: Seq<char>,
        password: Seq<char>,
        enable_hd: bool,
        names: Seq<Seq<char>>,
    },
}

impl View for WalletModalState {
    type V = WalletModalView;

    open spec fn view(&self) -> WalletModalView {
        match self {
            WalletModalState::Selecting { names, selected_index, enable_hd } => WalletModalView::Selecting {
                names: texts(names@),
                selected_index: *selected_index,
                enable_hd: *enable_hd,
            },
            WalletModalState::EnteringPassword { wallet_name, password, enable_hd, names } =>
                WalletModalView::EnteringPassword {
                wallet_name: wallet_name@,
                password: password@,
                enable_hd: *enable_hd,
                names: texts(names@),
            },
        }
    }
}

/// State of the withdraw modal.
#[derive(Debug)]
pub enum WithdrawModalState {
    EnteringAddress { ticker: String, address: String },
    EnteringAmount { ticker: String, address: String, amount: String },
    Confirming { ticker: String, withdraw_result: WithdrawResponse },
    Sending,
    Result { success: bool, message: String },
}

/// The mathematical form of [`WithdrawModalState`].
pub enum WithdrawModalView {
    EnteringAddress { ticker: Seq<char>, address: Seq<char> },
    EnteringAmount { ticker: Seq<char>, address: Seq<char>, amount: Seq<char> },
    Confirming { ticker: Seq<char>, withdraw_result: WithdrawResponse },
    Sending,
    Result { success: bool, message: Seq<char> },
}

impl View for WithdrawModalState {
    type V = WithdrawModalView;

    open spec fn view(&self) -> WithdrawModalView {
        match self {
            WithdrawModalState::EnteringAddress { ticker, address } => WithdrawModalView::EnteringAddress {
                ticker: ticker@,
                address: address@,
            },
            WithdrawModalState::EnteringAmount { ticker, address, amount } =>
                WithdrawModalView::EnteringAmount { ticker: ticker@, address: address@, amount: amount@ },
            WithdrawModalState::Confirming { ticker, withdraw_result } => WithdrawModalView::Confirming {
                ticker: ticker@,
                withdraw_result: *withdraw_result,
            },
            WithdrawModalState::Sending => WithdrawModalView::Sending,
            WithdrawModalState::Result { success, message } => WithdrawModalView::Result {
                success: *success,
                message: message@,
            },
        }
    }
}

/// State of the coin activation modal.
#[derive(Debug, Clone)]
pub struct CoinSelectModal {
    /// All UTXO coins available for activation.
    pub all_coins: Vec<CoinEntry>,
    /// Filter text (starts-with match on the ticker, case-insensitive).
    pub filter: String,
    /// Highlighted index in the filtered list.
    pub selected_index: usize,
    /// Tickers selected for activation, each at most once.
    pub selected_tickers: Vec<String>,
}

/// An uppercased ticker matches the uppercased filter `f` when `f` is empty
/// or the ticker starts with it.
pub open spec fn ticker_matches(upper_ticker: Seq<char>, f: Seq<char>) -> bool {
    f.len() == 0 || has_prefix(upper_ticker, f)
}

/// An entry passes the filter `f` (already uppercased) when its uppercased
/// ticker matches it.
pub open spec fn passes_filter(c: CoinEntry, f: Seq<char>) -> bool {
    ticker_matches(uppercase_of(c.ticker@), f)
}

/// Whether the uppercased ticker `upper_ticker` matches the uppercased filter
/// `upper_filter`.
pub fn matches_filter(upper_ticker: &str, upper_filter: &str) -> (r: bool)
    ensures
        r == ticker_matches(upper_ticker@, upper_filter@),
{
    upper_filter.unicode_len() == 0 || starts_with(upper_ticker, upper_filter)
}

proof fn lemma_empty_filter_keeps_all(coins: Seq<CoinEntry>, f: Seq<char>)
    requires
        f.len() == 0,
    ensures
        matching_coins(coins, f) == coins,
    decreases coins.len(),
{
    if coins.len() > 0 {
        lemma_empty_filter_keeps_all(coins.drop_last(), f);
        assert(coins.drop_last().push(coins.last()) =~= coins);
    }
}

/// The entries of `coins` passing the filter `f`, in order.
pub open spec fn matching_coins(coins: Seq<CoinEntry>, f: Seq<char>) -> Seq<CoinEntry>
    decreases coins.len(),
{
    if coins.len() == 0 {
        Seq::empty()
    } else if passes_filter(coins.last(), f) {
        matching_coins(coins.drop_last(), f).push(coins.last())
    } else {
        matching_coins(coins.drop_last(), f)
    }
}

/// `s` with `t` added when absent and removed when present.
pub open spec fn toggled(s: Set<Seq<char>>, t: Seq<char>) -> Set<Seq<char>> {
    if s.contains(t) {
        s.remove(t)
    } else {
        s.insert(t)
    }
}

/// `a - b` on naturals, floored at zero.
pub open spec fn sat_sub(a: int, b: int) -> int {
    if a >= b { a - b } else { 0 }
}

/// The smaller of two integers.
pub open spec fn min(a: int, b: int) -> int {
    if a <= b { a } else { b }
}

impl CoinSelectModal {
    /// The entries shown with the current filter.
    pub open spec fn shown(&self) -> Seq<CoinEntry> {
        matching_coins(self.all_coins@, uppercase_of(self.filter@))
    }

    /// The set of selected tickers.
    pub open spec fn selection(&self) -> Set<Seq<char>> {
        texts(self.selected_tickers@).to_set()
    }

    /// No ticker is selected twice.
    pub open spec fn wf(&self) -> bool {
        texts(self.selected_tickers@).no_duplicates()
    }

    /// A modal over `all_coins` with an empty filter and nothing selected.
    pub fn new(all_coins: Vec<CoinEntry>) -> (m: Self)
        ensures
            m.wf(),
            m.all_coins == all_coins,
            m.filter@ == Seq::<char>::empty(),
            m.selected_index == 0,
            m.selected_tickers@ == Seq::<String>::empty(),
    {
        let m = CoinSelectModal {
            all_coins,
            filter: String::new(),
            selected_index: 0,
            selected_tickers: Vec::new(),
        };
        assert(texts(m.selected_tickers@) =~= Seq::<Seq<char>>::empty());
        m
    }

    /// The coins passing the current filter, in order.
    pub fn filtered(&self) -> (r: Vec<&CoinEntry>)
        ensures
            r@.map_values(|c: &CoinEntry| *c) == self.shown(),
            self.filter@.len() == 0 ==> r@.map_values(|c: &CoinEntry| *c) == self.all_coins@,
    {
        let f = to_uppercase(self.filter.as_str());
        let mut out: Vec<&CoinEntry> = Vec::new();
        let mut i: usize = 0;
        while i < self.all_coins.len()
            invariant
                i <= self.all_coins@.len(),
                f@ == uppercase_of(self.filter@),
                out@.map_values(|c: &CoinEntry| *c) == matching_coins(self.all_coins@.take(i as int), f@),
            decreases self.all_coins@.len() - i,
        {
            let c = &self.all_coins[i];
            assert(self.all_coins@.take(i + 1).drop_last() =~= self.all_coins@.take(i as int));
            let keep = if f.unicode_len() == 0 {
                true
            } else {
                let up = to_uppercase(c.ticker.as_str());
                matches_filter(up.as_str(), f.as_str())
            };
            if keep {
                let ghost before = out@;
                out.push(c);
                assert(out@.map_values(|c: &CoinEntry| *c) =~= before.map_values(|c: &CoinEntry| *c).push(*c));
            }
            i = i + 1;
        }
        assert(self.all_coins@.take(self.all_coins@.len() as int) =~= self.all_coins@);
        proof {
            if self.filter@.len() == 0 {
                lemma_empty_filter_keeps_all(self.all_coins@, f@);
            }
        }
        out
    }

    /// Moves the highlight up one line, stopping at the top.
    pub fn move_up(&mut self)
        ensures
            final(self).selected_index == sat_sub(old(self).selected_index as int, 1),
            final(self).all_coins == old(self).all_coins,
            final(self).filter == old(self).filter,
            final(self).selected_tickers == old(self).selected_tickers,
    {
        self.selected_index = if self.selected_index > 0 {
            self.selected_index - 1
        } else {
            0
        };
    }

    /// Moves the highlight down one line, stopping at the last shown entry.
    pub fn move_down(&mut self)
        requires
            old(self).selected_index < usize::MAX,
        ensures
            final(self).selected_index == min(
                old(self).selected_index + 1,
                sat_sub(old(self).shown().len() as int, 1),
            ),
            final(self).all_coins == old(self).all_coins,
            final(self).filter == old(self).filter,
            final(self).selected_tickers == old(self).selected_tickers,
    {
        let n = self.filtered().len();
        let max = if n > 0 {
            n - 1
        } else {
            0
        };
        self.selected_index = if self.selected_index >= max {
            max
        } else {
            self.selected_index + 1
        };
    }

    /// Selects the highlighted coin if it is not selected, deselects it otherwise.
    pub fn toggle_selected(&mut self)
        ensures
            old(self).wf() ==> final(self).wf(),
            final(self).all_coins == old(self).all_coins,
            final(self).filter == old(self).filter,
            final(self).selected_index == old(self).selected_index,
            old(self).selected_index < old(self).shown().len() ==> final(self).selection() == toggled(
                old(self).selection(),
                old(self).shown()[old(self).selected_index as int].ticker@,
            ),
            old(self).selected_index >= old(self).shown().len() ==> final(self).selected_tickers
                == old(self).selected_tickers,
    {
        let filtered = self.filtered();
        if self.selected_index < filtered.len() {
            let ticker = filtered[self.selected_index].ticker.clone();
            assert(filtered@.map_values(|c: &CoinEntry| *c)[self.selected_index as int] == *filtered@[self.selected_index as int]);
            let ghost old_sel = texts(self.selected_tickers@);
            let found = position_of(&self.selected_tickers, ticker.as_str());
            if found.is_some() {
                remove_every(&mut self.selected_tickers, ticker.as_str());
                proof {
                    let i = found->0;
                    assert(old_sel[i as int] == ticker@);
                    assert(old_sel.to_set().contains(ticker@));
                    assert(texts(self.selected_tickers@).to_set() =~= old_sel.to_set().remove(ticker@));
                }
            } else {
                self.selected_tickers.push(ticker);
                proof {
                    let new_sel = texts(self.selected_tickers@);
                    assert(new_sel =~= old_sel.push(ticker@));
                    assert(!old_sel.contains(ticker@));
                    assert forall|t: Seq<char>| new_sel.to_set().contains(t) == old_sel.to_set().insert(ticker@).contains(t) by {
                        if new_sel.contains(t) {
                            let k = choose|k: int| 0 <= k < new_sel.len() && new_sel[k] == t;
                            if k < old_sel.len() {
                                assert(old_sel[k] == t);
                            }
                        }
                        if old_sel.contains(t) {
                            let k = choose|k: int| 0 <= k < old_sel.len() && old_sel[k] == t;
                            assert(new_sel[k] == t);
                        }
                        if t == ticker@ {
                            assert(new_sel[old_sel.len() as int] == t);
                        }
                    }
                    assert(new_sel.to_set() =~= old_sel.to_set().insert(ticker@));
                }
            }
        }
    }

    /// Appends `c` to the filter and moves the highlight to the top.
    pub fn push_filter_char(&mut self, c: char)
        ensures
            final(self).filter@ == old(self).filter@.push(c),
            final(self).selected_index == 0,
            final(self).all_coins == old(self).all_coins,
            final(self).selected_tickers == old(self).selected_tickers,
    {
        push_char(&mut self.filter, c);
        self.selected_index = 0;
    }

    /// Removes the last filter character (if any) and moves the highlight to the top.
    pub fn filter_backspace(&mut self)
        ensures
            final(self).filter@ == erased(old(self).filter@),
            final(self).selected_index == 0,
            final(self).all_coins == old(self).all_coins,
            final(self).selected_tickers == old(self).selected_tickers,
    {
        pop_char(&mut self.filter);
        self.selected_index = 0;
    }

    /// The selected tickers, each once.
    pub fn get_selected_tickers(&self) -> (r: Vec<String>)
        ensures
            texts(r@) == texts(self.selected_tickers@),
    {
        let mut out: Vec<String> = Vec::new();
        let mut i: usize = 0;
        while i < self.selected_tickers.len()
            invariant
                i <= self.selected_tickers@.len(),
                texts(out@) == texts(self.selected_tickers@.take(i as int)),
            decreases self.selected_tickers@.len() - i,
        {
            let ghost before = out@;
            out.push(self.selected_tickers[i].clone());
            assert(texts(out@) =~= texts(before).push(self.selected_tickers@[i as int]@));
            assert(texts(self.selected_tickers@.take(i + 1)) =~= texts(self.selected_tickers@.take(i as int)).push(self.selected_tickers@[i as int]@));
            i = i + 1;
        }
        assert(self.selected_tickers@.take(self.selected_tickers@.len() as int) =~= self.selected_tickers@);
        out
    }
}

impl CoinSelectModal {
    /// Whether `ticker` is selected.
    pub fn is_selected(&self, ticker: &str) -> (r: bool)
        ensures
            r == self.selection().contains(ticker@),
    {
        match position_of(&self.selected_tickers, ticker) {
            Some(i) => {
                assert(texts(self.selected_tickers@)[i as int] == ticker@);
                true
            },
            None => {
                assert(!texts(self.selected_tickers@).contains(ticker@)) by {
                    if texts(self.selected_tickers@).contains(ticker@) {
                        let k = choose|k: int| 0 <= k < texts(self.selected_tickers@).len() && texts(self.selected_tickers@)[k] == ticker@;
                        assert(self.selected_tickers@[k]@ == ticker@);
                    }
                }
                false
            },
        }
    }
}

/// The index of the first string equal to `t`.
pub fn position_of(v: &Vec<String>, t: &str) -> (r: Option<usize>)
    ensures
        match r {
            Some(i) => i < v@.len() && v@[i as int]@ == t@ && forall|j: int|
                0 <= j < i ==> v@[j]@ != t@,
            None => forall|j: int| 0 <= j < v@.len() ==> v@[j]@ != t@,
        },
{
    let mut i: usize = 0;
    while i < v.len()
        invariant
            i <= v@.len(),
            forall|j: int| 0 <= j < i ==> v@[j]@ != t@,
        decreases v@.len() - i,
    {
        if str_eq(v[i].as_str(), t) {
            return Some(i);
        }
        i = i + 1;
    }
    None
}

/// Removing the element at `i`, which is `t`, loses nothing but (maybe) `t`,
/// and keeps a sequence free of duplicates.
proof fn lemma_remove_at(s: Seq<Seq<char>>, i: int, t: Seq<char>)
    requires
        0 <= i < s.len(),
        s[i] == t,
    ensures
        s.remove(i).to_set().insert(t) == s.to_set(),
        s.no_duplicates() ==> s.remove(i).no_duplicates(),
{
    let r = s.remove(i);
    assert forall|x: Seq<char>| r.to_set().insert(t).contains(x) == s.to_set().contains(x) by {
        if r.contains(x) {
            let k = choose|k: int| 0 <= k < r.len() && r[k] == x;
            if k < i {
                assert(s[k] == x);
            } else {
                assert(s[k + 1] == x);
            }
        }
        if s.contains(x) && x != t {
            let k = choose|k: int| 0 <= k < s.len() && s[k] == x;
            if k < i {
                assert(r[k] == x);
            } else {
                assert(k != i);
                assert(r[k - 1] == x);
            }
        }
    }
    assert(r.to_set().insert(t) =~= s.to_set());
    if s.no_duplicates() {
        assert forall|a: int, b: int| 0 <= a < r.len() && 0 <= b < r.len() && a != b implies r[a] != r[b] by {
            let a2 = if a < i { a } else { a + 1 };
            let b2 = if b < i { b } else { b + 1 };
            assert(r[a] == s[a2] && r[b] == s[b2]);
        }
    }
}

/// Removes every string equal to `t`.
fn remove_every(v: &mut Vec<String>, t: &str)
    ensures
        texts(final(v)@).to_set() == texts(old(v)@).to_set().remove(t@),
        texts(old(v)@).no_duplicates() ==> texts(final(v)@).no_duplicates(),
{
    let ghost orig = texts(v@);
    loop
        invariant
            texts(v@).to_set().insert(t@) == orig.to_set().insert(t@),
            orig.no_duplicates() ==> texts(v@).no_duplicates(),
        ensures
            texts(v@).to_set().insert(t@) == orig.to_set().insert(t@),
            orig.no_duplicates() ==> texts(v@).no_duplicates(),
            !texts(v@).contains(t@),
        decreases v@.len(),
    {
        match position_of(v, t) {
            Some(i) => {
                let ghost before = texts(v@);
                v.remove(i);
                proof {
                    assert(texts(v@) =~= before.remove(i as int));
                    lemma_remove_at(before, i as int, t@);
                }
            },
            None => {
                proof {
                    if texts(v@).contains(t@) {
                        let k = choose|k: int| 0 <= k < texts(v@).len() && texts(v@)[k] == t@;
                        assert(v@[k]@ == t@);
                    }
                }
                break;
            },
        }
    }
    proof {
        assert(texts(v@).to_set() =~= texts(v@).to_set().insert(t@).remove(t@));
        assert(orig.to_set().remove(t@) =~= orig.to_set().insert(t@).remove(t@));
    }
}

/// Law: toggling the same ticker twice gives back the selection.
pub proof fn law_toggle_involution(s: Set<Seq<char>>, t: Seq<char>)
    ensures
        toggled(toggled(s, t), t) == s,
{
    if s.contains(t) {
        assert(s.remove(t).insert(t) =~= s);
    } else {
        assert(s.insert(t).remove(t) =~= s);
    }
}

} // verus!

verus! {

/// Lines scrolled per PgUp/PgDn in the log.
pub const LOG_PAGE_SIZE: usize = 8;

/// Visible log lines (log area height minus block borders).
pub const LOG_VISIBLE_LINES: usize = 6;

/// KDF's build time as reported by `version`.
#[derive(Debug, Clone, Copy, PartialEq, Eq, Structural)]
pub struct KdfDateTime {
    /// Seconds since the Unix epoch.
    pub timestamp: i64,
    /// Nanoseconds past `timestamp`.
    pub nanos: u32,
    /// Offset from UTC in seconds.
    pub offset_seconds: i32,
}

/// What `DateTime::parse_from_rfc3339` makes of a text: the instant, its
/// sub-second nanoseconds and its UTC offset, or nothing when it does not parse.
pub uninterp spec fn rfc3339_instant(text: Seq<char>) -> Option<(i64, u32, i32)>;

/// `chrono::DateTime::parse_from_rfc3339`, read back as seconds, nanoseconds and offset.
#[verifier::external_body]
fn parse_rfc3339(text: &str) -> (r: Option<(i64, u32, i32)>)
    ensures
        r == rfc3339_instant(text@),
{
    match chrono::DateTime::parse_from_rfc3339(text) {
        Ok(dt) => Some((dt.timestamp(), dt.timestamp_subsec_nanos(), dt.offset().local_minus_utc())),
        Err(_) => None,
    }
}

/// `chrono::Local::now()` as seconds since the Unix epoch. Nothing is stated
/// of the value: it is whatever the system clock reads.
#[verifier::external_body]
fn now_timestamp() -> i64 {
    chrono::Local::now().timestamp()
}

/// The mathematical form of the screen state.
pub struct AppModel {
    pub kdf_version: Seq<char>,
    pub kdf_datetime: Option<KdfDateTime>,
    pub current_time: i64,
    pub logger: SharedLogger,
    pub log_selected: Option<usize>,
    pub log_offset: usize,
    pub log_follow: bool,
    pub last_key_pressed: Seq<char>,
    pub wallet_modal: Option<WalletModalView>,
    pub coins: Seq<Coin>,
    pub pending_tasks: Seq<(u64, Seq<char>)>,
    pub coins_selected: Option<usize>,
    pub info_modal_open: bool,
    pub tx_history: Seq<Transaction>,
    pub tx_history_page: u32,
    pub tx_history_total_pages: u32,
    pub tx_history_loading: bool,
    pub tx_history_error: Option<Seq<char>>,
    pub withdraw_modal: Option<WithdrawModalView>,
    pub coin_select_modal: Option<CoinSelectModal>,
    pub active_screen: ActiveScreen,
    pub swaps_focus: SwapsCoinFocus,
    pub swaps_base_index: usize,
    pub swaps_rel_index: usize,
    pub orderbook: Option<OrderbookData>,
    pub orderbook_loading: bool,
    pub orderbook_error: Option<Seq<char>>,
}

/// The state of the wallet screen.
pub struct App {
    kdf_version: String,
    kdf_datetime: Option<KdfDateTime>,
    current_time: i64,
    logger: SharedLogger,
    /// Selected line and scroll offset of the log list.
    log_selected: Option<usize>,
    log_offset: usize,
    /// When true, the log list follows the newest entry.
    log_follow: bool,
    /// Last key pressed (for status bar feedback).
    last_key_pressed: String,
    wallet_modal: Option<WalletModalState>,
    /// Coins and their balances (left panel).
    coins: Vec<Coin>,
    /// Pending UTXO activation tasks and their tickers.
    pending_tasks: Vec<(u64, String)>,
    /// Selected line of the coin list.
    coins_selected: Option<usize>,
    info_modal_open: bool,
    tx_history: Vec<Transaction>,
    /// Current page of the transaction history (1-indexed).
    tx_history_page: u32,
    tx_history_total_pages: u32,
    tx_history_loading: bool,
    tx_history_error: Option<String>,
    withdraw_modal: Option<WithdrawModalState>,
    coin_select_modal: Option<CoinSelectModal>,
    active_screen: ActiveScreen,
    swaps_focus: SwapsCoinFocus,
    swaps_base_index: usize,
    swaps_rel_index: usize,
    orderbook: Option<OrderbookData>,
    orderbook_loading: bool,
    orderbook_error: Option<String>,
}

/// The view of an optional string.
pub open spec fn opt_view(s: Option<String>) -> Option<Seq<char>> {
    match s {
        Some(x) => Some(x@),
        None => None,
    }
}

/// The view of an optional wallet modal.
pub open spec fn wallet_view(m: Option<WalletModalState>) -> Option<WalletModalView> {
    match m {
        Some(x) => Some(x@),
        None => None,
    }
}

/// The view of an optional withdraw modal.
pub open spec fn withdraw_view(m: Option<WithdrawModalState>) -> Option<WithdrawModalView> {
    match m {
        Some(x) => Some(x@),
        None => None,
    }
}

/// The view of the pending task list.
pub open spec fn tasks_view(v: Seq<(u64, String)>) -> Seq<(u64, Seq<char>)> {
    v.map_values(|p: (u64, String)| (p.0, p.1@))
}

impl View for App {
    type V = AppModel;

    closed spec fn view(&self) -> AppModel {
        AppModel {
            kdf_version: self.kdf_version@,
            kdf_datetime: self.kdf_datetime,
            current_time: self.current_time,
            logger: self.logger,
            log_selected: self.log_selected,
            log_offset: self.log_offset,
            log_follow: self.log_follow,
            last_key_pressed: self.last_key_pressed@,
            wallet_modal: wallet_view(self.wallet_modal),
            coins: self.coins@,
            pending_tasks: tasks_view(self.pending_tasks@),
            coins_selected: self.coins_selected,
            info_modal_open: self.info_modal_open,
            tx_history: self.tx_history@,
            tx_history_page: self.tx_history_page,
            tx_history_total_pages: self.tx_history_total_pages,
            tx_history_loading: self.tx_history_loading,
            tx_history_error: opt_view(self.tx_history_error),
            withdraw_modal: withdraw_view(self.withdraw_modal),
            coin_select_modal: self.coin_select_modal,
            active_screen: self.active_screen,
            swaps_focus: self.swaps_focus,
            swaps_base_index: self.swaps_base_index,
            swaps_rel_index: self.swaps_rel_index,
            orderbook: self.orderbook,
            orderbook_loading: self.orderbook_loading,
            orderbook_error: opt_view(self.orderbook_error),
        }
    }
}

/// The state of a freshly started screen (the current time aside).
pub open spec fn initial_model(logger: SharedLogger, now: i64) -> AppModel {
    AppModel {
        kdf_version: "Unknown"@,
        kdf_datetime: None,
        current_time: now,
        logger,
        log_selected: None,
        log_offset: 0,
        log_follow: true,
        last_key_pressed: "—"@,
        wallet_modal: None,
        coins: Seq::empty(),
        pending_tasks: Seq::empty(),
        coins_selected: None,
        info_modal_open: false,
        tx_history: Seq::empty(),
        tx_history_page: 1,
        tx_history_total_pages: 0,
        tx_history_loading: false,
        tx_history_error: None,
        withdraw_modal: None,
        coin_select_modal: None,
        active_screen: ActiveScreen::Main,
        swaps_focus: SwapsCoinFocus::Base,
        swaps_base_index: 0,
        swaps_rel_index: 1,
        orderbook: None,
        orderbook_loading: false,
        orderbook_error: None,
    }
}

impl App {
    /// A new screen state writing to `logger`.
    pub fn new(logger: SharedLogger) -> (a: Self)
        ensures
            a@ == initial_model(logger, a@.current_time),
    {
        let a = App {
            kdf_version: owned("Unknown"),
            kdf_datetime: None,
            current_time: now_timestamp(),
            logger,
            log_selected: None,
            log_offset: 0,
            log_follow: true,
            last_key_pressed: owned("—"),
            wallet_modal: None,
            coins: Vec::new(),
            pending_tasks: Vec::new(),
            coins_selected: None,
            info_modal_open: false,
            tx_history: Vec::new(),
            tx_history_page: 1,
            tx_history_total_pages: 0,
            tx_history_loading: false,
            tx_history_error: None,
            withdraw_modal: None,
            coin_select_modal: None,
            active_screen: ActiveScreen::Main,
            swaps_focus: SwapsCoinFocus::Base,
            swaps_base_index: 0,
            swaps_rel_index: 1,
            orderbook: None,
            orderbook_loading: false,
            orderbook_error: None,
        };
        assert(tasks_view(a.pending_tasks@) =~= Seq::<(u64, Seq<char>)>::empty());
        assert(a.coins@ =~= Seq::<Coin>::empty());
        assert(a.tx_history@ =~= Seq::<Transaction>::empty());
        assert(a@ == initial_model(a.logger, a@.current_time));
        a
    }
}

} // verus!

verus! {

/// The index of the first element of `s` satisfying `p`.
pub open spec fn first_index<A>(s: Seq<A>, p: spec_fn(A) -> bool) -> Option<int>
    decreases s.len(),
{
    if s.len() == 0 {
        None
    } else if p(s[0]) {
        Some(0)
    } else {
        match first_index(s.drop_first(), p) {
            Some(k) => Some(k + 1),
            None => None,
        }
    }
}

pub proof fn lemma_first_index<A>(s: Seq<A>, p: spec_fn(A) -> bool, i: int)
    requires
        0 <= i < s.len(),
        p(s[i]),
        forall|j: int| 0 <= j < i ==> !p(s[j]),
    ensures
        first_index(s, p) == Some(i),
    decreases i,
{
    if i > 0 {
        assert(!p(s[0]));
        lemma_first_index(s.drop_first(), p, i - 1);
    }
}

pub proof fn lemma_first_index_none<A>(s: Seq<A>, p: spec_fn(A) -> bool)
    requires
        forall|j: int| 0 <= j < s.len() ==> !p(s[j]),
    ensures
        first_index(s, p) is None,
    decreases s.len(),
{
    if s.len() > 0 {
        assert(!p(s[0]));
        lemma_first_index_none(s.drop_first(), p);
    }
}

/// The predicate "has ticker `t`" on coins.
pub open spec fn ticker_is(t: Seq<char>) -> spec_fn(Coin) -> bool {
    |c: Coin| c.ticker@ == t
}

/// The predicate "has identifier `id`" on pending tasks.
pub open spec fn task_id_is(id: u64) -> spec_fn((u64, Seq<char>)) -> bool {
    |q: (u64, Seq<char>)| q.0 == id
}

/// The position of the coin with ticker `t`.
pub open spec fn coin_position(coins: Seq<Coin>, t: Seq<char>) -> Option<int> {
    first_index(coins, ticker_is(t))
}

/// Whether some coin has ticker `t`.
pub open spec fn has_ticker(coins: Seq<Coin>, t: Seq<char>) -> bool {
    exists|i: int| 0 <= i < coins.len() && #[trigger] coins[i].ticker@ == t
}

/// No two coins share a ticker.
pub open spec fn distinct_tickers(coins: Seq<Coin>) -> bool {
    forall|i: int, j: int| 0 <= i < j < coins.len() ==> coins[i].ticker@ != coins[j].ticker@
}

/// The position of the first pending task with identifier `id`.
pub open spec fn task_position(tasks: Seq<(u64, Seq<char>)>, id: u64) -> Option<int> {
    first_index(tasks, task_id_is(id))
}

/// The coin list after a coin is added: unchanged when its ticker is already listed.
pub open spec fn coins_after_add(coins: Seq<Coin>, coin: Coin) -> Seq<Coin> {
    if has_ticker(coins, coin.ticker@) {
        coins
    } else {
        coins.push(coin)
    }
}

fn find_coin(coins: &Vec<Coin>, ticker: &str) -> (r: Option<usize>)
    ensures
        match r {
            Some(i) => coin_position(coins@, ticker@) == Some(i as int) && i < coins@.len(),
            None => coin_position(coins@, ticker@) is None,
        },
{
    let ghost p = ticker_is(ticker@);
    let mut i: usize = 0;
    while i < coins.len()
        invariant
            i <= coins@.len(),
            p == ticker_is(ticker@),
            forall|j: int| 0 <= j < i ==> !p(coins@[j]),
        decreases coins@.len() - i,
    {
        if str_eq(coins[i].ticker.as_str(), ticker) {
            proof {
                lemma_first_index(coins@, p, i as int);
            }
            return Some(i);
        }
        i = i + 1;
    }
    proof {
        lemma_first_index_none(coins@, p);
    }
    None
}

impl App {
    /// Adds `coin` to the coin list unless a coin with its ticker is listed.
    pub fn add_coin(&mut self, coin: Coin)
        ensures
            final(self)@ == (AppModel { coins: coins_after_add(old(self)@.coins, coin), ..old(self)@ }),
    {
        match find_coin(&self.coins, coin.ticker.as_str()) {
            Some(i) => {
                assert(has_ticker(self.coins@, coin.ticker@)) by {
                    lemma_first_index_some_holds(self.coins@, ticker_is(coin.ticker@));
                }
            },
            None => {
                assert(!has_ticker(self.coins@, coin.ticker@)) by {
                    let ghost p = ticker_is(coin.ticker@);
                    if has_ticker(self.coins@, coin.ticker@) {
                        let k = choose|k: int| 0 <= k < self.coins@.len() && #[trigger] self.coins@[k].ticker@ == coin.ticker@;
                        lemma_first_index_none_means_none(self.coins@, p, k);
                    }
                }
                self.coins.push(coin);
            },
        }
    }

    /// Records a pending activation task.
    pub fn add_pending_task(&mut self, task_id: u64, ticker: String)
        ensures
            final(self)@ == (AppModel {
                pending_tasks: old(self)@.pending_tasks.push((task_id, ticker@)),
                ..old(self)@
            }),
    {
        let ghost t = ticker;
        self.pending_tasks.push((task_id, ticker));
        assert(tasks_view(self.pending_tasks@) =~= tasks_view(old(self).pending_tasks@).push((task_id, t@)));
    }

    /// Removes the first pending task with identifier `task_id` and returns its ticker.
    pub fn remove_pending_task(&mut self, task_id: u64) -> (r: Option<String>)
        ensures
            match task_position(old(self)@.pending_tasks, task_id) {
                None => r is None && final(self)@ == old(self)@,
                Some(i) => r matches Some(t) && t@ == old(self)@.pending_tasks[i].1 && final(self)@
                    == (AppModel { pending_tasks: old(self)@.pending_tasks.remove(i), ..old(self)@ }),
            },
    {
        let ghost p = task_id_is(task_id);
        let ghost tv = tasks_view(self.pending_tasks@);
        let mut i: usize = 0;
        while i < self.pending_tasks.len()
            invariant
                i <= self.pending_tasks@.len(),
                p == task_id_is(task_id),
                tv == tasks_view(old(self).pending_tasks@),
                *self == *old(self),
                tv == tasks_view(self.pending_tasks@),
                forall|j: int| 0 <= j < i ==> !p(tv[j]),
            decreases self.pending_tasks@.len() - i,
        {
            if self.pending_tasks[i].0 == task_id {
                proof {
                    lemma_first_index(tv, p, i as int);
                }
                let (_, ticker) = self.pending_tasks.remove(i);
                assert(tasks_view(self.pending_tasks@) =~= tv.remove(i as int));
                return Some(ticker);
            }
            i = i + 1;
        }
        proof {
            lemma_first_index_none(tv, p);
        }
        None
    }

    /// The pending activation tasks, oldest first.
    pub fn pending_tasks(&self) -> (r: &[(u64, String)])
        ensures
            tasks_view(r@) == self@.pending_tasks,
    {
        self.pending_tasks.as_slice()
    }
}

/// A match found by `first_index` satisfies the predicate.
pub proof fn lemma_first_index_some_holds<A>(s: Seq<A>, p: spec_fn(A) -> bool)
    requires
        first_index(s, p) is Some,
    ensures
        0 <= first_index(s, p)->0 < s.len(),
        p(s[first_index(s, p)->0]),
    decreases s.len(),
{
    if s.len() > 0 && !p(s[0]) {
        lemma_first_index_some_holds(s.drop_first(), p);
    }
}

/// When `first_index` finds nothing, no element satisfies the predicate.
pub proof fn lemma_first_index_none_means_none<A>(s: Seq<A>, p: spec_fn(A) -> bool, k: int)
    requires
        first_index(s, p) is None,
        0 <= k < s.len(),
    ensures
        !p(s[k]),
    decreases s.len(),
{
    if k > 0 {
        lemma_first_index_none_means_none(s.drop_first(), p, k - 1);
    }
}

/// Law: adding coins never lists a ticker twice.
pub proof fn law_add_coin_keeps_tickers_distinct(coins: Seq<Coin>, coin: Coin)
    requires
        distinct_tickers(coins),
    ensures
        distinct_tickers(coins_after_add(coins, coin)),
        has_ticker(coins_after_add(coins, coin), coin.ticker@),
{
    if !has_ticker(coins, coin.ticker@) {
        let c2 = coins.push(coin);
        assert forall|i: int, j: int| 0 <= i < j < c2.len() implies c2[i].ticker@ != c2[j].ticker@ by {
            if j == coins.len() {
                if c2[i].ticker@ == coin.ticker@ {
                    assert(coins[i].ticker@ == coin.ticker@);
                }
            }
        }
        assert(c2[coins.len() as int].ticker@ == coin.ticker@);
    }
}

/// Law: a task added under a fresh identifier is the one that its removal finds.
pub proof fn law_remove_finds_added_task(tasks: Seq<(u64, Seq<char>)>, id: u64, ticker: Seq<char>)
    requires
        forall|j: int| 0 <= j < tasks.len() ==> tasks[j].0 != id,
    ensures
        task_position(tasks.push((id, ticker)), id) == Some(tasks.len() as int),
        tasks.push((id, ticker)).remove(tasks.len() as int) == tasks,
{
    let p = task_id_is(id);
    let s = tasks.push((id, ticker));
    assert forall|j: int| 0 <= j < tasks.len() implies !p(s[j]) by {
        assert(s[j] == tasks[j]);
    }
    lemma_first_index(s, p, tasks.len() as int);
    assert(s.remove(tasks.len() as int) =~= tasks);
}

} // verus!

verus! {

/// The coin at the position of `t`, marked activated.
pub open spec fn activated_coin(c: Coin) -> Coin {
    Coin { activated: true, ..c }
}

/// The coin updated from activation status details.
pub open spec fn coin_with_status(c: Coin, d: CoinStatusDetails) -> Coin {
    Coin {
        spendable_satoshis: Some(d.spendable_satoshis),
        unspendable_satoshis: Some(d.unspendable_satoshis),
        current_block: d.current_block,
        wallet_type: d.wallet_type,
        address: d.address,
        ..c
    }
}

/// The coin updated from a `my_balance` reply.
pub open spec fn coin_with_balance(c: Coin, spendable: i64, unspendable: i64, address: String) -> Coin {
    Coin {
        spendable_satoshis: Some(spendable),
        unspendable_satoshis: Some(unspendable),
        address: Some(address),
        ..c
    }
}

/// The coin list after updating the coin with ticker `t` by `f`.
pub open spec fn coins_updated(coins: Seq<Coin>, t: Seq<char>, f: spec_fn(Coin) -> Coin) -> Seq<Coin> {
    match coin_position(coins, t) {
        Some(i) => coins.update(i, f(coins[i])),
        None => coins,
    }
}

fn clone_opt_string(s: &Option<String>) -> (r: Option<String>)
    ensures
        r == *s,
{
    match s {
        Some(x) => Some(x.clone()),
        None => None,
    }
}

/// Updating a coin with `f`, which keeps tickers, keeps every ticker in place.
proof fn lemma_update_keeps_tickers(coins: Seq<Coin>, t: Seq<char>, f: spec_fn(Coin) -> Coin)
    requires
        forall|c: Coin| #[trigger] f(c).ticker == c.ticker,
    ensures
        coins_updated(coins, t, f).len() == coins.len(),
        forall|i: int| 0 <= i < coins.len() ==> #[trigger] coins_updated(coins, t, f)[i].ticker == coins[i].ticker,
{
    match coin_position(coins, t) {
        Some(i) => {
            lemma_first_index_some_holds(coins, ticker_is(t));
            assert(f(coins[i]).ticker == coins[i].ticker);
        },
        None => {},
    }
}

/// Law: recording activation, status details or a balance changes no
/// ticker, so the tickers stay distinct.
pub proof fn law_coin_updates_keep_tickers(
    coins: Seq<Coin>,
    t: Seq<char>,
    d: CoinStatusDetails,
    spendable: i64,
    unspendable: i64,
    address: String,
)
    requires
        distinct_tickers(coins),
    ensures
        distinct_tickers(coins_updated(coins, t, |c: Coin| activated_coin(c))),
        distinct_tickers(coins_updated(coins, t, |c: Coin| coin_with_status(c, d))),
        distinct_tickers(coins_updated(coins, t, |c: Coin| coin_with_balance(c, spendable, unspendable, address))),
{
    lemma_update_keeps_tickers(coins, t, |c: Coin| activated_coin(c));
    lemma_update_keeps_tickers(coins, t, |c: Coin| coin_with_status(c, d));
    lemma_update_keeps_tickers(coins, t, |c: Coin| coin_with_balance(c, spendable, unspendable, address));
}

impl App {
    /// Marks the coin with ticker `ticker` activated.
    pub fn update_coin_activated(&mut self, ticker: &str)
        ensures
            final(self)@ == (AppModel {
                coins: coins_updated(old(self)@.coins, ticker@, |c: Coin| activated_coin(c)),
                ..old(self)@
            }),
    {
        match find_coin(&self.coins, ticker) {
            Some(i) => {
                let mut c = self.coins.remove(i);
                c.activated = true;
                self.coins.insert(i, c);
                assert(self.coins@ =~= old(self).coins@.update(i as int, activated_coin(old(self).coins@[i as int])));
            },
            None => {},
        }
    }

    /// Records balances, block, wallet type and address from activation status details.
    pub fn update_coin_from_status_details(&mut self, ticker: &str, details: &CoinStatusDetails)
        ensures
            final(self)@ == (AppModel {
                coins: coins_updated(old(self)@.coins, ticker@, |c: Coin| coin_with_status(c, *details)),
                ..old(self)@
            }),
    {
        match find_coin(&self.coins, ticker) {
            Some(i) => {
                let mut c = self.coins.remove(i);
                c.spendable_satoshis = Some(details.spendable_satoshis);
                c.unspendable_satoshis = Some(details.unspendable_satoshis);
                c.current_block = details.current_block;
                c.wallet_type = clone_opt_string(&details.wallet_type);
                c.address = clone_opt_string(&details.address);
                self.coins.insert(i, c);
                assert(self.coins@ =~= old(self).coins@.update(i as int, coin_with_status(old(self).coins@[i as int], *details)));
            },
            None => {},
        }
    }

    /// Records the balances and address of a `my_balance` reply (amounts in satoshis).
    pub fn update_coin_from_my_balance(
        &mut self,
        ticker: &str,
        spendable_satoshis: i64,
        unspendable_satoshis: i64,
        address: String,
    )
        ensures
            final(self)@ == (AppModel {
                coins: coins_updated(
                    old(self)@.coins,
                    ticker@,
                    |c: Coin| coin_with_balance(c, spendable_satoshis, unspendable_satoshis, address),
                ),
                ..old(self)@
            }),
    {
        match find_coin(&self.coins, ticker) {
            Some(i) => {
                let mut c = self.coins.remove(i);
                let ghost a = address;
                c.spendable_satoshis = Some(spendable_satoshis);
                c.unspendable_satoshis = Some(unspendable_satoshis);
                c.address = Some(address);
                self.coins.insert(i, c);
                assert(self.coins@ =~= old(self).coins@.update(i as int, coin_with_balance(old(self).coins@[i as int], spendable_satoshis, unspendable_satoshis, a)));
            },
            None => {},
        }
    }

    /// Moves the coin selection up one line (selecting the top line when nothing is selected).
    pub fn coins_select_up(&mut self)
        ensures
            old(self)@.coins.len() == 0 ==> final(self)@ == old(self)@,
            old(self)@.coins.len() > 0 ==> final(self)@ == (AppModel {
                coins_selected: Some(
                    min(
                        sat_sub(
                            match old(self)@.coins_selected {
                                Some(s) => s as int,
                                None => 0,
                            },
                            1,
                        ),
                        old(self)@.coins.len() - 1,
                    ) as usize,
                ),
                ..old(self)@
            }),
    {
        let len = self.coins.len();
        if len == 0 {
            return;
        }
        let current = match self.coins_selected {
            Some(s) => s,
            None => 0,
        };
        let up = if current > 0 { current - 1 } else { 0 };
        let next = if up < len - 1 { up } else { len - 1 };
        self.coins_selected = Some(next);
    }

    /// Moves the coin selection down one line, stopping at the last coin.
    pub fn coins_select_down(&mut self)
        ensures
            old(self)@.coins.len() == 0 ==> final(self)@ == old(self)@,
            old(self)@.coins.len() > 0 ==> final(self)@ == (AppModel {
                coins_selected: Some(
                    min(
                        match old(self)@.coins_selected {
                            Some(s) => s as int,
                            None => 0,
                        } + 1,
                        old(self)@.coins.len() - 1,
                    ) as usize,
                ),
                ..old(self)@
            }),
    {
        let len = self.coins.len();
        if len == 0 {
            return;
        }
        let current = match self.coins_selected {
            Some(s) => s,
            None => 0,
        };
        let next = if current >= len - 1 { len - 1 } else { current + 1 };
        self.coins_selected = Some(next);
    }

    /// The selected line of the coin list.
    pub fn coins_selected_index(&self) -> (r: Option<usize>)
        ensures
            r == self@.coins_selected,
    {
        self.coins_selected
    }

    /// The ticker of the selected coin, if a coin is selected.
    pub fn selected_coin_ticker(&self) -> (r: Option<String>)
        ensures
            match self@.coins_selected {
                Some(i) => if i < self@.coins.len() {
                    r == Some(self@.coins[i as int].ticker)
                } else {
                    r is None
                },
                None => r is None,
            },
    {
        match self.coins_selected {
            Some(i) => if i < self.coins.len() {
                Some(self.coins[i].ticker.clone())
            } else {
                None
            },
            None => None,
        }
    }

    /// Keeps the coin selection on a listed coin, as drawing the list does:
    /// a selection past the end moves to the last coin, and with coins listed
    /// but nothing selected the first coin is selected.
    pub fn clamp_coin_selection(&mut self)
        ensures
            final(self)@ == (AppModel {
                coins_selected: if old(self)@.coins.len() == 0 {
                    old(self)@.coins_selected
                } else {
                    match old(self)@.coins_selected {
                        Some(s) => if s >= old(self)@.coins.len() {
                            Some((old(self)@.coins.len() - 1) as usize)
                        } else {
                            Some(s)
                        },
                        None => Some(0),
                    }
                },
                ..old(self)@
            }),
    {
        let n = self.coins.len();
        if n > 0 {
            match self.coins_selected {
                Some(s) => {
                    if s >= n {
                        self.coins_selected = Some(n - 1);
                    }
                },
                None => {
                    self.coins_selected = Some(0);
                },
            }
        }
    }
}

} // verus!

verus! {

/// The wallet modal after moving its selection up: one line up, kept on the list.
pub open spec fn wallet_up(m: Option<WalletModalView>) -> Option<WalletModalView> {
    match m {
        Some(WalletModalView::Selecting { names, selected_index, enable_hd }) => {
            let i = sat_sub(selected_index as int, 1);
            let i2 = if names.len() > 0 && i >= names.len() { names.len() - 1 } else { i };
            Some(WalletModalView::Selecting { names, selected_index: i2 as usize, enable_hd })
        },
        other => other,
    }
}

/// The wallet modal after moving its selection down, stopping at the last name.
pub open spec fn wallet_down(m: Option<WalletModalView>) -> Option<WalletModalView> {
    match m {
        Some(WalletModalView::Selecting { names, selected_index, enable_hd }) => Some(
            WalletModalView::Selecting {
                names,
                selected_index: min(selected_index + 1, sat_sub(names.len() as int, 1)) as usize,
                enable_hd,
            },
        ),
        other => other,
    }
}

/// The HD checkbox flipped (selection phase only).
pub open spec fn hd_toggled(m: Option<WalletModalView>) -> Option<WalletModalView> {
    match m {
        Some(WalletModalView::Selecting { names, selected_index, enable_hd }) => Some(
            WalletModalView::Selecting { names, selected_index, enable_hd: !enable_hd },
        ),
        other => other,
    }
}

/// The wallet modal after Enter in the selection phase: the password is asked
/// for the highlighted name, or the modal closes when none is highlighted.
pub open spec fn wallet_confirmed(m: Option<WalletModalView>) -> Option<WalletModalView> {
    match m {
        Some(WalletModalView::Selecting { names, selected_index, enable_hd }) => if selected_index
            < names.len() {
            Some(
                WalletModalView::EnteringPassword {
                    wallet_name: names[selected_index as int],
                    password: Seq::empty(),
                    enable_hd,
                    names,
                },
            )
        } else {
            None
        },
        _ => None,
    }
}

/// The wallet modal after `k` moves down.
pub open spec fn wallet_down_times(m: Option<WalletModalView>, k: nat) -> Option<WalletModalView>
    decreases k,
{
    if k == 0 {
        m
    } else {
        wallet_down(wallet_down_times(m, (k - 1) as nat))
    }
}

/// The wallet modal after the characters of `p` were typed into the password, one by one.
pub open spec fn password_typed_all(m: Option<WalletModalView>, p: Seq<char>) -> Option<WalletModalView>
    decreases p.len(),
{
    if p.len() == 0 {
        m
    } else {
        password_typed(password_typed_all(m, p.drop_last()), p.last())
    }
}

/// The wallet modal after typing `c` into the password (password phase only).
pub open spec fn password_typed(m: Option<WalletModalView>, c: char) -> Option<WalletModalView> {
    match m {
        Some(WalletModalView::EnteringPassword { wallet_name, password, enable_hd, names }) => Some(
            WalletModalView::EnteringPassword { wallet_name, password: password.push(c), enable_hd, names },
        ),
        other => other,
    }
}

/// The wallet modal after erasing the last password character (password phase only).
pub open spec fn password_erased(m: Option<WalletModalView>) -> Option<WalletModalView> {
    match m {
        Some(WalletModalView::EnteringPassword { wallet_name, password, enable_hd, names }) => Some(
            WalletModalView::EnteringPassword {
                wallet_name,
                password: if password.len() > 0 { password.drop_last() } else { password },
                enable_hd,
                names,
            },
        ),
        other => other,
    }
}

impl App {
    /// Opens the wallet selection with `names`, the first one highlighted and HD off.
    pub fn open_wallet_modal(&mut self, names: Vec<String>)
        ensures
            final(self)@ == (AppModel {
                wallet_modal: Some(
                    WalletModalView::Selecting { names: texts(names@), selected_index: 0, enable_hd: false },
                ),
                ..old(self)@
            }),
    {
        self.wallet_modal = Some(WalletModalState::Selecting { names, selected_index: 0, enable_hd: false });
    }

    /// Takes in how the node restarted with a chosen wallet went: when it
    /// exited with a failure (a wrong password, say) the wallet list over
    /// `names` opens again for another choice; otherwise nothing changes.
    /// Returns whether the list was reopened.
    pub fn wallet_restart_outcome(&mut self, exited_with_failure: bool, names: Vec<String>) -> (reopened: bool)
        ensures
            reopened == exited_with_failure,
            exited_with_failure ==> final(self)@ == (AppModel {
                wallet_modal: Some(
                    WalletModalView::Selecting { names: texts(names@), selected_index: 0, enable_hd: false },
                ),
                ..old(self)@
            }),
            !exited_with_failure ==> final(self)@ == old(self)@,
    {
        if exited_with_failure {
            self.open_wallet_modal(names);
        }
        exited_with_failure
    }

    /// The wallet modal, if open.
    pub fn wallet_modal(&self) -> (r: Option<&WalletModalState>)
        ensures
            match r {
                Some(m) => self@.wallet_modal == Some(m@),
                None => self@.wallet_modal is None,
            },
    {
        self.wallet_modal.as_ref()
    }

    /// Moves the wallet highlight up (selection phase only).
    pub fn wallet_modal_select_up(&mut self)
        ensures
            final(self)@ == (AppModel { wallet_modal: wallet_up(old(self)@.wallet_modal), ..old(self)@ }),
    {
        match &mut self.wallet_modal {
            Some(WalletModalState::Selecting { names, selected_index, .. }) => {
                let i = if *selected_index > 0 { *selected_index - 1 } else { 0 };
                *selected_index = if names.len() > 0 && i >= names.len() { names.len() - 1 } else { i };
            },
            _ => {},
        }
    }

    /// Moves the wallet highlight down (selection phase only), stopping at the last name.
    pub fn wallet_modal_select_down(&mut self)
        ensures
            final(self)@ == (AppModel { wallet_modal: wallet_down(old(self)@.wallet_modal), ..old(self)@ }),
    {
        match &mut self.wallet_modal {
            Some(WalletModalState::Selecting { names, selected_index, .. }) => {
                let max = if names.len() > 0 { names.len() - 1 } else { 0 };
                *selected_index = if *selected_index >= max { max } else { *selected_index + 1 };
            },
            _ => {},
        }
    }

    /// Toggles the HD-wallet checkbox (selection phase only).
    pub fn wallet_modal_toggle_hd(&mut self)
        ensures
            final(self)@ == (AppModel { wallet_modal: hd_toggled(old(self)@.wallet_modal), ..old(self)@ }),
    {
        match &mut self.wallet_modal {
            Some(WalletModalState::Selecting { enable_hd, .. }) => {
                *enable_hd = !*enable_hd;
            },
            _ => {},
        }
    }

    /// Confirms the highlighted wallet and asks for its password. The modal is
    /// taken first: it closes unless a listed name was highlighted.
    pub fn wallet_modal_confirm_selection(&mut self) -> (r: bool)
        ensures
            final(self)@ == (AppModel { wallet_modal: wallet_confirmed(old(self)@.wallet_modal), ..old(self)@ }),
            r == wallet_confirmed(old(self)@.wallet_modal) is Some,
    {
        match self.wallet_modal.take() {
            Some(WalletModalState::Selecting { names, selected_index, enable_hd }) => {
                if selected_index < names.len() {
                    let name = names[selected_index].clone();
                    assert(texts(names@)[selected_index as int] == name@);
                    self.wallet_modal = Some(
                        WalletModalState::EnteringPassword {
                            wallet_name: name,
                            password: String::new(),
                            enable_hd,
                            names,
                        },
                    );
                    true
                } else {
                    false
                }
            },
            _ => false,
        }
    }

    /// Types `c` into the password (password phase only).
    pub fn wallet_modal_password_push(&mut self, c: char)
        ensures
            final(self)@ == (AppModel {
                wallet_modal: password_typed(old(self)@.wallet_modal, c),
                ..old(self)@
            }),
    {
        match &mut self.wallet_modal {
            Some(WalletModalState::EnteringPassword { password, .. }) => {
                push_char(password, c);
            },
            _ => {},
        }
    }

    /// Erases the last password character (password phase only).
    pub fn wallet_modal_password_backspace(&mut self)
        ensures
            final(self)@ == (AppModel {
                wallet_modal: password_erased(old(self)@.wallet_modal),
                ..old(self)@
            }),
    {
        match &mut self.wallet_modal {
            Some(WalletModalState::EnteringPassword { password, .. }) => {
                pop_char(password);
            },
            _ => {},
        }
    }

    /// Submits the password: closes the modal and, in the password phase,
    /// returns `(wallet_name, password, enable_hd, names)`.
    pub fn wallet_modal_submit_password(&mut self) -> (r: Option<(String, String, bool, Vec<String>)>)
        ensures
            final(self)@ == (AppModel { wallet_modal: None, ..old(self)@ }),
            match old(self)@.wallet_modal {
                Some(WalletModalView::EnteringPassword { wallet_name, password, enable_hd, names }) => r matches Some(
                    x,
                ) && x.0@ == wallet_name && x.1@ == password && x.2 == enable_hd && texts(x.3@) == names,
                _ => r is None,
            },
    {
        match self.wallet_modal.take() {
            Some(WalletModalState::EnteringPassword { wallet_name, password, enable_hd, names }) => {
                Some((wallet_name, password, enable_hd, names))
            },
            _ => None,
        }
    }

    /// Closes the wallet modal.
    pub fn wallet_modal_close(&mut self)
        ensures
            final(self)@ == (AppModel { wallet_modal: None, ..old(self)@ }),
    {
        self.wallet_modal = None;
    }

    /// Records the name of the last key pressed.
    pub fn set_last_key(&mut self, key: String)
        ensures
            final(self)@ == (AppModel { last_key_pressed: key@, ..old(self)@ }),
    {
        self.last_key_pressed = key;
    }
}

proof fn lemma_wallet_down_times(names: Seq<Seq<char>>, j: nat)
    requires
        j < names.len() <= usize::MAX,
    ensures
        wallet_down_times(
            Some(WalletModalView::Selecting { names, selected_index: 0, enable_hd: false }),
            j,
        ) == Some(WalletModalView::Selecting { names, selected_index: j as usize, enable_hd: false }),
    decreases j,
{
    if j > 0 {
        lemma_wallet_down_times(names, (j - 1) as nat);
    }
}

proof fn lemma_password_typed_all(w: Seq<char>, hd: bool, names: Seq<Seq<char>>, p: Seq<char>)
    ensures
        password_typed_all(
            Some(WalletModalView::EnteringPassword { wallet_name: w, password: Seq::empty(), enable_hd: hd, names }),
            p,
        ) == Some(WalletModalView::EnteringPassword { wallet_name: w, password: p, enable_hd: hd, names }),
    decreases p.len(),
{
    if p.len() > 0 {
        lemma_password_typed_all(w, hd, names, p.drop_last());
        assert(p.drop_last().push(p.last()) =~= p);
    } else {
        assert(p =~= Seq::<char>::empty());
    }
}

/// Law: opening the wallet list over `names`, moving down `k` times onto a
/// listed name, switching HD on, confirming and typing the password `p` asks
/// the password of `names[k]` holding exactly `p`, with HD on and every name
/// kept, which is what submitting the password then hands back.
pub proof fn law_wallet_selection_sequence(names: Seq<Seq<char>>, k: nat, p: Seq<char>)
    requires
        k < names.len() <= usize::MAX,
    ensures
        wallet_confirmed(
            hd_toggled(
                wallet_down_times(
                    Some(WalletModalView::Selecting { names, selected_index: 0, enable_hd: false }),
                    k,
                ),
            ),
        ) is Some,
        password_typed_all(
            wallet_confirmed(
                hd_toggled(
                    wallet_down_times(
                        Some(WalletModalView::Selecting { names, selected_index: 0, enable_hd: false }),
                        k,
                    ),
                ),
            ),
            p,
        ) == Some(
            WalletModalView::EnteringPassword { wallet_name: names[k as int], password: p, enable_hd: true, names },
        ),
{
    lemma_wallet_down_times(names, k);
    lemma_password_typed_all(names[k as int], true, names, p);
}

/// Law: in the password phase, typing a character and erasing it gives back the modal.
pub proof fn law_password_type_then_erase(m: Option<WalletModalView>, c: char)
    ensures
        password_erased(password_typed(m, c)) == m,
{
    match m {
        Some(WalletModalView::EnteringPassword { wallet_name, password, enable_hd, names }) => {
            assert(password.push(c).drop_last() =~= password);
        },
        _ => {},
    }
}

} // verus!

verus! {

/// The next history page: one further while pages remain.
pub open spec fn next_page(page: u32, total: u32) -> u32 {
    if page < total { (page + 1) as u32 } else { page }
}

/// The previous history page: one back, never below the first.
pub open spec fn prev_page(page: u32) -> u32 {
    if page > 1 { (page - 1) as u32 } else { page }
}

impl App {
    /// Scrolls the log up one page (PgUp) and stops following new entries.
    pub fn scroll_log_up(&mut self, entry_count: usize)
        ensures
            entry_count == 0 ==> final(self)@ == old(self)@,
            entry_count > 0 ==> {
                let current = match old(self)@.log_selected {
                    Some(s) => s as int,
                    None => entry_count - 1,
                };
                let new_idx = min(sat_sub(current, LOG_PAGE_SIZE as int), entry_count - 1);
                final(self)@ == (AppModel {
                    log_follow: false,
                    log_selected: Some(new_idx as usize),
                    log_offset: sat_sub(new_idx, LOG_VISIBLE_LINES - 1) as usize,
                    ..old(self)@
                })
            },
    {
        if entry_count == 0 {
            return;
        }
        self.log_follow = false;
        let current = match self.log_selected {
            Some(s) => s,
            None => entry_count - 1,
        };
        let up = if current >= LOG_PAGE_SIZE { current - LOG_PAGE_SIZE } else { 0 };
        let new_idx = if up < entry_count - 1 { up } else { entry_count - 1 };
        self.log_selected = Some(new_idx);
        self.log_offset = if new_idx >= LOG_VISIBLE_LINES - 1 { new_idx - (LOG_VISIBLE_LINES - 1) } else { 0 };
    }

    /// Scrolls the log down one page (PgDn); following resumes at the newest entry.
    pub fn scroll_log_down(&mut self, entry_count: usize)
        ensures
            entry_count == 0 ==> final(self)@ == old(self)@,
            entry_count > 0 ==> {
                let current = match old(self)@.log_selected {
                    Some(s) => s as int,
                    None => 0,
                };
                let new_idx = min(current + LOG_PAGE_SIZE, entry_count - 1);
                final(self)@ == (AppModel {
                    log_selected: Some(new_idx as usize),
                    log_offset: sat_sub(new_idx, LOG_VISIBLE_LINES - 1) as usize,
                    log_follow: new_idx == entry_count - 1,
                    ..old(self)@
                })
            },
    {
        if entry_count == 0 {
            return;
        }
        let current = match self.log_selected {
            Some(s) => s,
            None => 0,
        };
        let last = entry_count - 1;
        let new_idx = if current >= last || last - current <= LOG_PAGE_SIZE {
            last
        } else {
            current + LOG_PAGE_SIZE
        };
        self.log_selected = Some(new_idx);
        self.log_offset = if new_idx >= LOG_VISIBLE_LINES - 1 { new_idx - (LOG_VISIBLE_LINES - 1) } else { 0 };
        self.log_follow = new_idx == entry_count - 1;
    }

    /// The line the log list shows selected for `entry_count` entries: the
    /// newest when following, otherwise the stored selection kept in range.
    pub fn log_selection_for(&self, entry_count: usize) -> (r: Option<usize>)
        ensures
            entry_count == 0 ==> r == self@.log_selected,
            entry_count > 0 && self@.log_follow ==> r == Some((entry_count - 1) as usize),
            entry_count > 0 && !self@.log_follow ==> r == Some(
                min(
                    match self@.log_selected {
                        Some(s) => s as int,
                        None => 0,
                    },
                    entry_count - 1,
                ) as usize,
            ),
    {
        if entry_count == 0 {
            return self.log_selected;
        }
        if self.log_follow {
            Some(entry_count - 1)
        } else {
            let s = match self.log_selected {
                Some(s) => s,
                None => 0,
            };
            Some(if s < entry_count - 1 { s } else { entry_count - 1 })
        }
    }

    /// Stores the log list position reached by drawing.
    pub fn store_log_list_state(&mut self, selected: Option<usize>, offset: usize)
        ensures
            final(self)@ == (AppModel { log_selected: selected, log_offset: offset, ..old(self)@ }),
    {
        self.log_selected = selected;
        self.log_offset = offset;
    }

    /// Records KDF's version text.
    pub fn update_version(&mut self, version: String)
        ensures
            final(self)@ == (AppModel { kdf_version: version@, ..old(self)@ }),
    {
        self.kdf_version = version;
    }

    /// Records KDF's build time when `datetime` parses as RFC 3339.
    pub fn update_datetime(&mut self, datetime: String)
        ensures
            final(self)@ == (AppModel {
                kdf_datetime: match rfc3339_instant(datetime@) {
                    Some(t) => Some(KdfDateTime { timestamp: t.0, nanos: t.1, offset_seconds: t.2 }),
                    None => old(self)@.kdf_datetime,
                },
                ..old(self)@
            }),
    {
        match parse_rfc3339(datetime.as_str()) {
            Some((timestamp, nanos, offset_seconds)) => {
                self.kdf_datetime = Some(KdfDateTime { timestamp, nanos, offset_seconds });
            },
            None => {},
        }
    }

    /// Refreshes the clock shown in the status bar with the system clock's
    /// reading; every other part of the state stays.
    pub fn update_current_time(&mut self)
        ensures
            final(self)@ == (AppModel { current_time: final(self)@.current_time, ..old(self)@ }),
    {
        self.current_time = now_timestamp();
    }

    /// Opens the coin information modal.
    pub fn open_info_modal(&mut self)
        ensures
            final(self)@ == (AppModel { info_modal_open: true, ..old(self)@ }),
    {
        self.info_modal_open = true;
    }

    /// Closes the coin information modal.
    pub fn close_info_modal(&mut self)
        ensures
            final(self)@ == (AppModel { info_modal_open: false, ..old(self)@ }),
    {
        self.info_modal_open = false;
    }

    /// Whether the coin information modal is open.
    pub fn is_info_modal_open(&self) -> (r: bool)
        ensures
            r == self@.info_modal_open,
    {
        self.info_modal_open
    }

    /// Sets the history loading flag; starting to load clears the error.
    pub fn set_tx_history_loading(&mut self, loading: bool)
        ensures
            final(self)@ == (AppModel {
                tx_history_loading: loading,
                tx_history_error: if loading { None } else { old(self)@.tx_history_error },
                ..old(self)@
            }),
    {
        self.tx_history_loading = loading;
        if loading {
            self.tx_history_error = None;
        }
    }

    /// Stores a page of history; the selected coin takes `current_block`.
    pub fn update_tx_history(
        &mut self,
        transactions: Vec<Transaction>,
        page: u32,
        total_pages: u32,
        current_block: u64,
    )
        ensures
            final(self)@ == (AppModel {
                tx_history: transactions@,
                tx_history_page: page,
                tx_history_total_pages: total_pages,
                tx_history_loading: false,
                tx_history_error: None,
                coins: match old(self)@.coins_selected {
                    Some(i) => if i < old(self)@.coins.len() {
                        old(self)@.coins.update(
                            i as int,
                            Coin { current_block: Some(current_block), ..old(self)@.coins[i as int] },
                        )
                    } else {
                        old(self)@.coins
                    },
                    None => old(self)@.coins,
                },
                ..old(self)@
            }),
    {
        self.tx_history = transactions;
        self.tx_history_page = page;
        self.tx_history_total_pages = total_pages;
        self.tx_history_loading = false;
        self.tx_history_error = None;
        match self.coins_selected {
            Some(idx) => {
                if idx < self.coins.len() {
                    let mut c = self.coins.remove(idx);
                    c.current_block = Some(current_block);
                    self.coins.insert(idx, c);
                    assert(self.coins@ =~= old(self).coins@.update(
                        idx as int,
                        Coin { current_block: Some(current_block), ..old(self).coins@[idx as int] },
                    ));
                }
            },
            None => {},
        }
    }

    /// Records a history error, which also empties the history.
    pub fn set_tx_history_error(&mut self, error: String)
        ensures
            final(self)@ == (AppModel {
                tx_history_error: Some(error@),
                tx_history_loading: false,
                tx_history: Seq::empty(),
                ..old(self)@
            }),
    {
        self.tx_history_error = Some(error);
        self.tx_history_loading = false;
        self.tx_history = Vec::new();
    }

    /// Forgets the history (when the coin selection changes).
    pub fn clear_tx_history(&mut self)
        ensures
            final(self)@ == (AppModel {
                tx_history: Seq::empty(),
                tx_history_page: 1,
                tx_history_total_pages: 0,
                tx_history_loading: false,
                tx_history_error: None,
                ..old(self)@
            }),
    {
        self.tx_history = Vec::new();
        self.tx_history_page = 1;
        self.tx_history_total_pages = 0;
        self.tx_history_loading = false;
        self.tx_history_error = None;
    }

    /// The current history page.
    pub fn tx_history_page(&self) -> (r: u32)
        ensures
            r == self@.tx_history_page,
    {
        self.tx_history_page
    }

    /// The number of history pages.
    pub fn tx_history_total_pages(&self) -> (r: u32)
        ensures
            r == self@.tx_history_total_pages,
    {
        self.tx_history_total_pages
    }

    /// Goes to the next history page while pages remain.
    pub fn tx_history_next_page(&mut self)
        ensures
            final(self)@ == (AppModel {
                tx_history_page: next_page(old(self)@.tx_history_page, old(self)@.tx_history_total_pages),
                ..old(self)@
            }),
    {
        if self.tx_history_page < self.tx_history_total_pages {
            self.tx_history_page = self.tx_history_page + 1;
        }
    }

    /// Goes to the previous history page, not below the first.
    pub fn tx_history_prev_page(&mut self)
        ensures
            final(self)@ == (AppModel { tx_history_page: prev_page(old(self)@.tx_history_page), ..old(self)@ }),
    {
        if self.tx_history_page > 1 {
            self.tx_history_page = self.tx_history_page - 1;
        }
    }
}

/// Law: paging keeps the page between the first and the last (or the first
/// when there are no pages), and going forward then back returns to the page.
pub proof fn law_paging_stays_in_range(page: u32, total: u32)
    requires
        1 <= page,
        page <= total || page == 1,
    ensures
        1 <= next_page(page, total) && (next_page(page, total) <= total || next_page(page, total) == 1),
        1 <= prev_page(page) && (prev_page(page) <= total || prev_page(page) == 1),
        page < total ==> prev_page(next_page(page, total)) == page,
        page > 1 ==> next_page(prev_page(page), total) == page,
{
}

} // verus!

verus! {

/// The amount field accepts digits, and a dot only when it has none yet.
pub open spec fn amount_accepts(amount: Seq<char>, c: char) -> bool {
    is_digit(c) || (c == '.' && !amount.contains('.'))
}

/// The withdraw modal after typing `c`: any character goes into the
/// address; the amount takes only what it accepts; other phases ignore it.
pub open spec fn withdraw_typed(m: Option<WithdrawModalView>, c: char) -> Option<WithdrawModalView> {
    match m {
        Some(WithdrawModalView::EnteringAddress { ticker, address }) => Some(
            WithdrawModalView::EnteringAddress { ticker, address: address.push(c) },
        ),
        Some(WithdrawModalView::EnteringAmount { ticker, address, amount }) => Some(
            WithdrawModalView::EnteringAmount {
                ticker,
                address,
                amount: if amount_accepts(amount, c) { amount.push(c) } else { amount },
            },
        ),
        other => other,
    }
}

/// The text with its last character removed, if any.
pub open spec fn erased(s: Seq<char>) -> Seq<char> {
    if s.len() > 0 { s.drop_last() } else { s }
}

/// The withdraw modal after a backspace in the address or amount phase.
pub open spec fn withdraw_erased(m: Option<WithdrawModalView>) -> Option<WithdrawModalView> {
    match m {
        Some(WithdrawModalView::EnteringAddress { ticker, address }) => Some(
            WithdrawModalView::EnteringAddress { ticker, address: erased(address) },
        ),
        Some(WithdrawModalView::EnteringAmount { ticker, address, amount }) => Some(
            WithdrawModalView::EnteringAmount { ticker, address, amount: erased(amount) },
        ),
        other => other,
    }
}

/// An amount made of digits with at most one dot.
pub open spec fn numeric_amount(a: Seq<char>) -> bool {
    &&& forall|i: int| 0 <= i < a.len() ==> is_digit(#[trigger] a[i]) || a[i] == '.'
    &&& forall|i: int, j: int| 0 <= i < j < a.len() && a[i] == '.' ==> a[j] != '.'
}

/// The amount of a withdraw modal in the amount phase.
pub open spec fn amount_of(m: Option<WithdrawModalView>) -> Option<Seq<char>> {
    match m {
        Some(WithdrawModalView::EnteringAmount { amount, .. }) => Some(amount),
        _ => None,
    }
}

impl App {
    /// Opens the withdraw modal for `ticker`, asking for the address.
    pub fn open_withdraw_modal(&mut self, ticker: String)
        ensures
            final(self)@ == (AppModel {
                withdraw_modal: Some(
                    WithdrawModalView::EnteringAddress { ticker: ticker@, address: Seq::empty() },
                ),
                ..old(self)@
            }),
    {
        self.withdraw_modal = Some(WithdrawModalState::EnteringAddress { ticker, address: String::new() });
    }

    /// The withdraw modal, if open.
    pub fn withdraw_modal(&self) -> (r: Option<&WithdrawModalState>)
        ensures
            match r {
                Some(m) => self@.withdraw_modal == Some(m@),
                None => self@.withdraw_modal is None,
            },
    {
        self.withdraw_modal.as_ref()
    }

    /// Types `c` into the address or amount field.
    pub fn withdraw_modal_push_char(&mut self, c: char)
        ensures
            final(self)@ == (AppModel { withdraw_modal: withdraw_typed(old(self)@.withdraw_modal, c), ..old(self)@ }),
    {
        match &mut self.withdraw_modal {
            Some(WithdrawModalState::EnteringAddress { address, .. }) => {
                push_char(address, c);
            },
            Some(WithdrawModalState::EnteringAmount { amount, .. }) => {
                if (c >= '0' && c <= '9') || (c == '.' && !contains_char(amount.as_str(), '.')) {
                    push_char(amount, c);
                }
            },
            _ => {},
        }
    }

    /// Erases the last character of the address or amount field.
    pub fn withdraw_modal_backspace(&mut self)
        ensures
            final(self)@ == (AppModel { withdraw_modal: withdraw_erased(old(self)@.withdraw_modal), ..old(self)@ }),
    {
        match &mut self.withdraw_modal {
            Some(WithdrawModalState::EnteringAddress { address, .. }) => {
                pop_char(address);
            },
            Some(WithdrawModalState::EnteringAmount { amount, .. }) => {
                pop_char(amount);
            },
            _ => {},
        }
    }

    /// Confirms the address and asks for the amount; an empty address stays.
    /// The modal is taken first, so in any other phase it closes.
    pub fn withdraw_modal_confirm_address(&mut self) -> (r: bool)
        ensures
            match old(self)@.withdraw_modal {
                Some(WithdrawModalView::EnteringAddress { ticker, address }) => if address.len() > 0 {
                    r && final(self)@ == (AppModel {
                        withdraw_modal: Some(
                            WithdrawModalView::EnteringAmount { ticker, address, amount: Seq::empty() },
                        ),
                        ..old(self)@
                    })
                } else {
                    !r && final(self)@ == old(self)@
                },
                _ => !r && final(self)@ == (AppModel { withdraw_modal: None, ..old(self)@ }),
            },
    {
        match self.withdraw_modal.take() {
            Some(WithdrawModalState::EnteringAddress { ticker, address }) => {
                if !address.as_str().is_empty() {
                    self.withdraw_modal = Some(
                        WithdrawModalState::EnteringAmount { ticker, address, amount: String::new() },
                    );
                    true
                } else {
                    self.withdraw_modal = Some(WithdrawModalState::EnteringAddress { ticker, address });
                    false
                }
            },
            _ => false,
        }
    }

    /// Confirms the amount: the modal shows that the transaction is being
    /// prepared, and `(ticker, address, amount)` is returned for `withdraw`.
    /// An empty amount stays; in any other phase the modal closes.
    pub fn withdraw_modal_confirm_amount(&mut self) -> (r: Option<(String, String, String)>)
        ensures
            match old(self)@.withdraw_modal {
                Some(WithdrawModalView::EnteringAmount { ticker, address, amount }) => if amount.len() > 0 {
                    r matches Some(x) && x.0@ == ticker && x.1@ == address && x.2@ == amount
                        && final(self)@ == (AppModel {
                        withdraw_modal: Some(WithdrawModalView::Sending),
                        ..old(self)@
                    })
                } else {
                    r is None && final(self)@ == old(self)@
                },
                _ => r is None && final(self)@ == (AppModel { withdraw_modal: None, ..old(self)@ }),
            },
    {
        match self.withdraw_modal.take() {
            Some(WithdrawModalState::EnteringAmount { ticker, address, amount }) => {
                if !amount.as_str().is_empty() {
                    self.withdraw_modal = Some(WithdrawModalState::Sending);
                    Some((ticker, address, amount))
                } else {
                    self.withdraw_modal = Some(WithdrawModalState::EnteringAmount { ticker, address, amount });
                    None
                }
            },
            _ => None,
        }
    }

    /// Shows the prepared transaction for confirmation.
    pub fn withdraw_modal_set_confirmation(&mut self, ticker: String, result: WithdrawResponse)
        ensures
            final(self)@ == (AppModel {
                withdraw_modal: Some(WithdrawModalView::Confirming { ticker: ticker@, withdraw_result: result }),
                ..old(self)@
            }),
    {
        self.withdraw_modal = Some(WithdrawModalState::Confirming { ticker, withdraw_result: result });
    }

    /// The user confirmed sending: returns `(ticker, coin, tx_hex)` for
    /// `send_raw_transaction` and shows that it is being sent. In any other
    /// phase there is nothing to confirm and the modal stays as it is.
    pub fn withdraw_modal_confirm_send(&mut self) -> (r: Option<(String, String, String)>)
        ensures
            match old(self)@.withdraw_modal {
                Some(WithdrawModalView::Confirming { ticker, withdraw_result }) => r matches Some(x) && x.0@
                    == ticker && x.1 == withdraw_result.coin && x.2 == withdraw_result.tx_hex && final(self)@
                    == (AppModel { withdraw_modal: Some(WithdrawModalView::Sending), ..old(self)@ }),
                _ => r is None && final(self)@ == old(self)@,
            },
    {
        let confirming = match &self.withdraw_modal {
            Some(WithdrawModalState::Confirming { .. }) => true,
            _ => false,
        };
        if !confirming {
            return None;
        }
        match self.withdraw_modal.take() {
            Some(WithdrawModalState::Confirming { ticker, withdraw_result }) => {
                self.withdraw_modal = Some(WithdrawModalState::Sending);
                Some((ticker, withdraw_result.coin, withdraw_result.tx_hex))
            },
            _ => None,
        }
    }

    /// Shows the outcome of the withdrawal.
    pub fn withdraw_modal_set_result(&mut self, success: bool, message: String)
        ensures
            final(self)@ == (AppModel {
                withdraw_modal: Some(WithdrawModalView::Result { success, message: message@ }),
                ..old(self)@
            }),
    {
        self.withdraw_modal = Some(WithdrawModalState::Result { success, message });
    }

    /// Shows an error met while preparing the withdrawal.
    pub fn withdraw_modal_set_error(&mut self, message: String)
        ensures
            final(self)@ == (AppModel {
                withdraw_modal: Some(WithdrawModalView::Result { success: false, message: message@ }),
                ..old(self)@
            }),
    {
        self.withdraw_modal = Some(WithdrawModalState::Result { success: false, message });
    }

    /// Closes the withdraw modal.
    pub fn close_withdraw_modal(&mut self)
        ensures
            final(self)@ == (AppModel { withdraw_modal: None, ..old(self)@ }),
    {
        self.withdraw_modal = None;
    }
}

/// Law: the amount field only ever holds digits with at most one dot.
pub proof fn law_amount_stays_numeric(m: Option<WithdrawModalView>, c: char)
    requires
        amount_of(m) matches Some(a) ==> numeric_amount(a),
    ensures
        amount_of(withdraw_typed(m, c)) matches Some(a) ==> numeric_amount(a),
        amount_of(withdraw_erased(m)) matches Some(a) ==> numeric_amount(a),
{
    match m {
        Some(WithdrawModalView::EnteringAmount { ticker, address, amount }) => {
            if amount_accepts(amount, c) {
                let a = amount.push(c);
                assert forall|i: int| 0 <= i < a.len() implies is_digit(#[trigger] a[i]) || a[i] == '.' by {
                    if i < amount.len() {
                        assert(a[i] == amount[i]);
                    }
                }
                assert forall|i: int, j: int| 0 <= i < j < a.len() && a[i] == '.' implies a[j] != '.' by {
                    if j == amount.len() && c == '.' {
                        assert(amount[i] == '.');
                        assert(amount.contains('.'));
                    }
                }
            }
            let e = erased(amount);
            assert forall|i: int| 0 <= i < e.len() implies is_digit(#[trigger] e[i]) || e[i] == '.' by {
                assert(e[i] == amount[i]);
            }
        },
        _ => {},
    }
}

/// Law: typing an accepted character and erasing it gives back the withdraw modal.
pub proof fn law_withdraw_type_then_erase(m: Option<WithdrawModalView>, c: char)
    requires
        amount_of(m) matches Some(a) ==> amount_accepts(a, c),
    ensures
        withdraw_erased(withdraw_typed(m, c)) == m,
{
    match m {
        Some(WithdrawModalView::EnteringAddress { ticker, address }) => {
            assert(address.push(c).drop_last() =~= address);
        },
        Some(WithdrawModalView::EnteringAmount { ticker, address, amount }) => {
            assert(amount.push(c).drop_last() =~= amount);
        },
        _ => {},
    }
}

} // verus!

verus! {

/// The entries whose ticker no coin of `coins` has, in order.
pub open spec fn inactive_entries(entries: Seq<CoinEntry>, coins: Seq<Coin>) -> Seq<CoinEntry>
    decreases entries.len(),
{
    if entries.len() == 0 {
        Seq::empty()
    } else if has_ticker(coins, entries.last().ticker@) {
        inactive_entries(entries.drop_last(), coins)
    } else {
        inactive_entries(entries.drop_last(), coins).push(entries.last())
    }
}

/// Law: the coin selection offers only entries it was given, and none whose
/// coin is already listed.
pub proof fn law_selection_offers_unlisted(entries: Seq<CoinEntry>, coins: Seq<Coin>)
    ensures
        forall|i: int| 0 <= i < inactive_entries(entries, coins).len() ==> {
            let e = #[trigger] inactive_entries(entries, coins)[i];
            &&& !has_ticker(coins, e.ticker@)
            &&& entries.contains(e)
        },
    decreases entries.len(),
{
    if entries.len() > 0 {
        let rest = entries.drop_last();
        law_selection_offers_unlisted(rest, coins);
        let r = inactive_entries(entries, coins);
        assert forall|i: int| 0 <= i < r.len() implies {
            let e = #[trigger] r[i];
            &&& !has_ticker(coins, e.ticker@)
            &&& entries.contains(e)
        } by {
            let pr = inactive_entries(rest, coins);
            if i < pr.len() {
                assert(r[i] == pr[i]);
                let e = pr[i];
                let k = choose|k: int| 0 <= k < rest.len() && rest[k] == e;
                assert(entries[k] == e);
            } else {
                assert(r[i] == entries.last());
                assert(entries[entries.len() - 1] == entries.last());
            }
        }
    }
}

/// Law: the coin selection offers every given entry whose coin is not listed
/// yet, and, with no coin listed, all the given entries in their order.
pub proof fn law_selection_offers_every_unlisted(entries: Seq<CoinEntry>, coins: Seq<Coin>)
    ensures
        forall|i: int|
            0 <= i < entries.len() && !has_ticker(coins, #[trigger] entries[i].ticker@) ==> inactive_entries(
                entries,
                coins,
            ).contains(entries[i]),
        coins.len() == 0 ==> inactive_entries(entries, coins) == entries,
        (forall|i: int| 0 <= i < entries.len() ==> !has_ticker(coins, #[trigger] entries[i].ticker@))
            ==> inactive_entries(entries, coins) == entries,
        (forall|i: int| 0 <= i < entries.len() ==> has_ticker(coins, #[trigger] entries[i].ticker@))
            ==> inactive_entries(entries, coins).len() == 0,
    decreases entries.len(),
{
    if entries.len() > 0 {
        let rest = entries.drop_last();
        law_selection_offers_every_unlisted(rest, coins);
        let r = inactive_entries(entries, coins);
        let pr = inactive_entries(rest, coins);
        assert forall|i: int|
            0 <= i < entries.len() && !has_ticker(coins, #[trigger] entries[i].ticker@) implies r.contains(
                entries[i],
            ) by {
            if i < entries.len() - 1 {
                assert(rest[i] == entries[i]);
                let k = choose|k: int| 0 <= k < pr.len() && pr[k] == entries[i];
                assert(r[k] == entries[i]);
            } else {
                assert(entries[i] == entries.last());
                assert(r[r.len() - 1] == entries[i]);
            }
        }
        if coins.len() == 0 {
            assert(!has_ticker(coins, entries.last().ticker@));
            assert(rest.push(entries.last()) =~= entries);
        }
        if forall|i: int| 0 <= i < entries.len() ==> !has_ticker(coins, #[trigger] entries[i].ticker@) {
            assert forall|i: int| 0 <= i < rest.len() implies !has_ticker(coins, #[trigger] rest[i].ticker@) by {
                assert(rest[i] == entries[i]);
            }
            assert(entries[entries.len() - 1] == entries.last());
            assert(rest.push(entries.last()) =~= entries);
        }
        if forall|i: int| 0 <= i < entries.len() ==> has_ticker(coins, #[trigger] entries[i].ticker@) {
            assert forall|i: int| 0 <= i < rest.len() implies has_ticker(coins, #[trigger] rest[i].ticker@) by {
                assert(rest[i] == entries[i]);
            }
            assert(entries[entries.len() - 1] == entries.last());
        }
    } else {
        if coins.len() == 0 {
            assert(entries =~= Seq::<CoinEntry>::empty());
        }
    }
}

/// Law: in the address phase of the withdraw modal every character is
/// appended to the address; in the amount phase every ASCII digit is appended
/// to the amount, a dot only while the amount has none, and any other
/// character leaves the modal as it is.
pub proof fn law_amount_typing(ticker: Seq<char>, address: Seq<char>, amount: Seq<char>, c: char)
    ensures
        '0' <= c <= '9' ==> withdraw_typed(
            Some(WithdrawModalView::EnteringAmount { ticker, address, amount }),
            c,
        ) == Some(WithdrawModalView::EnteringAmount { ticker, address, amount: amount.push(c) }),
        c == '.' && !amount.contains('.') ==> withdraw_typed(
            Some(WithdrawModalView::EnteringAmount { ticker, address, amount }),
            c,
        ) == Some(WithdrawModalView::EnteringAmount { ticker, address, amount: amount.push(c) }),
        withdraw_typed(Some(WithdrawModalView::EnteringAddress { ticker, address }), c) == Some(
            WithdrawModalView::EnteringAddress { ticker, address: address.push(c) },
        ),
        !('0' <= c <= '9') && (c != '.' || amount.contains('.')) ==> withdraw_typed(
            Some(WithdrawModalView::EnteringAmount { ticker, address, amount }),
            c,
        ) == Some(WithdrawModalView::EnteringAmount { ticker, address, amount }),
{
}

/// Law: a `my_balance` update of ticker `t` gives the first coin with that
/// ticker exactly the reported balances and address, keeps its other fields,
/// and leaves every other coin as it was.
pub proof fn law_my_balance_update(
    coins: Seq<Coin>,
    t: Seq<char>,
    spendable: i64,
    unspendable: i64,
    address: String,
    i: int,
)
    requires
        0 <= i < coins.len(),
        coins[i].ticker@ == t,
        forall|j: int| 0 <= j < i ==> coins[j].ticker@ != t,
    ensures
        ({
            let n = coins_updated(coins, t, |c: Coin| coin_with_balance(c, spendable, unspendable, address));
            &&& n.len() == coins.len()
            &&& n[i].spendable_satoshis == Some(spendable)
            &&& n[i].unspendable_satoshis == Some(unspendable)
            &&& n[i].address == Some(address)
            &&& n[i].ticker == coins[i].ticker
            &&& n[i].name == coins[i].name
            &&& n[i].coin_type == coins[i].coin_type
            &&& n[i].activated == coins[i].activated
            &&& n[i].current_block == coins[i].current_block
            &&& n[i].wallet_type == coins[i].wallet_type
            &&& forall|k: int| 0 <= k < coins.len() && k != i ==> n[k] == coins[k]
        }),
{
    lemma_first_index(coins, ticker_is(t), i);
}

/// Law: a `my_balance` update of a ticker no coin has changes nothing.
pub proof fn law_my_balance_update_unlisted(
    coins: Seq<Coin>,
    t: Seq<char>,
    spendable: i64,
    unspendable: i64,
    address: String,
)
    requires
        !has_ticker(coins, t),
    ensures
        coins_updated(coins, t, |c: Coin| coin_with_balance(c, spendable, unspendable, address)) == coins,
{
    assert forall|j: int| 0 <= j < coins.len() implies !ticker_is(t)(coins[j]) by {
        if coins[j].ticker@ == t {
            assert(has_ticker(coins, t));
        }
    }
    lemma_first_index_none(coins, ticker_is(t));
}

/// Law: in the wallet selection, Up moves the highlight one line up and stays
/// on the first line, and Up after Down comes back to where it was when Down
/// could move.
pub proof fn law_wallet_up_down(names: Seq<Seq<char>>, i: usize, hd: bool)
    requires
        i < names.len() <= usize::MAX,
    ensures
        i > 0 ==> wallet_up(Some(WalletModalView::Selecting { names, selected_index: i, enable_hd: hd }))
            == Some(WalletModalView::Selecting { names, selected_index: (i - 1) as usize, enable_hd: hd }),
        i == 0 ==> wallet_up(Some(WalletModalView::Selecting { names, selected_index: i, enable_hd: hd }))
            == Some(WalletModalView::Selecting { names, selected_index: 0, enable_hd: hd }),
        i + 1 < names.len() ==> wallet_down(
            Some(WalletModalView::Selecting { names, selected_index: i, enable_hd: hd }),
        ) == Some(WalletModalView::Selecting { names, selected_index: (i + 1) as usize, enable_hd: hd }),
        i + 1 < names.len() ==> wallet_up(
            wallet_down(Some(WalletModalView::Selecting { names, selected_index: i, enable_hd: hd })),
        ) == Some(WalletModalView::Selecting { names, selected_index: i, enable_hd: hd }),
{
}

/// Law: typing a filter character (`push_filter_char`) and erasing it
/// (`filter_backspace`) gives back the filter.
pub proof fn law_filter_type_then_erase(filter: Seq<char>, c: char)
    ensures
        erased(filter.push(c)) == filter,
{
    assert(filter.push(c).drop_last() =~= filter);
}

/// The tickers of the activated coins, in order.
pub open spec fn activated_tickers(coins: Seq<Coin>) -> Seq<Seq<char>>
    decreases coins.len(),
{
    if coins.len() == 0 {
        Seq::empty()
    } else if coins.last().activated {
        activated_tickers(coins.drop_last()).push(coins.last().ticker@)
    } else {
        activated_tickers(coins.drop_last())
    }
}

/// The other screen.
pub open spec fn other_screen(s: ActiveScreen) -> ActiveScreen {
    match s {
        ActiveScreen::Main => ActiveScreen::Swaps,
        ActiveScreen::Swaps => ActiveScreen::Main,
    }
}

/// The other selector of the swaps screen.
pub open spec fn other_focus(f: SwapsCoinFocus) -> SwapsCoinFocus {
    match f {
        SwapsCoinFocus::Base => SwapsCoinFocus::Rel,
        SwapsCoinFocus::Rel => SwapsCoinFocus::Base,
    }
}

/// One step up in a cyclic list of `n` entries.
pub open spec fn cycle_up(i: int, n: int) -> int {
    if i > 0 { i - 1 } else { n - 1 }
}

/// One step down in a cyclic list of `n` entries.
pub open spec fn cycle_down(i: int, n: int) -> int {
    (i + 1) % n
}

/// The ticker that a swaps selector index points at, if any coin is activated.
pub open spec fn ticker_at(tickers: Seq<Seq<char>>, i: int) -> Option<Seq<char>> {
    if tickers.len() == 0 {
        None
    } else {
        Some(tickers[i % (tickers.len() as int)])
    }
}

/// The base and rel tickers of the swaps screen, when at least two coins are
/// activated and the two selectors point at different tickers.
pub open spec fn selected_pair(tickers: Seq<Seq<char>>, base: int, rel: int) -> Option<
    (Seq<char>, Seq<char>),
> {
    if tickers.len() < 2 {
        None
    } else {
        let b = tickers[base % (tickers.len() as int)];
        let r = tickers[rel % (tickers.len() as int)];
        if b == r {
            None
        } else {
            Some((b, r))
        }
    }
}

impl App {
    /// Opens the coin selection modal over the entries whose coin is not
    /// listed yet.
    pub fn open_coin_select_modal(&mut self, coins: Vec<CoinEntry>)
        ensures
            final(self)@.coin_select_modal matches Some(m) && m.wf() && m.all_coins@
                == inactive_entries(coins@, old(self)@.coins) && m.filter@ == Seq::<char>::empty()
                && m.selected_index == 0 && m.selected_tickers@ == Seq::<String>::empty(),
            final(self)@ == (AppModel {
                coin_select_modal: final(self)@.coin_select_modal,
                ..old(self)@
            }),
    {
        let mut rest = coins;
        let ghost all = rest@;
        let total = rest.len();
        let mut available: Vec<CoinEntry> = Vec::new();
        let mut i: usize = 0;
        while rest.len() > 0
            invariant
                i <= all.len(),
                all.len() == total,
                rest@ == all.skip(i as int),
                available@ == inactive_entries(all.take(i as int), self.coins@),
            decreases rest@.len(),
        {
            let e = rest.remove(0);
            assert(all.take(i + 1).drop_last() =~= all.take(i as int));
            assert(all.skip(i as int).drop_first() =~= all.skip(i + 1));
            let listed = match find_coin(&self.coins, e.ticker.as_str()) {
                Some(_) => true,
                None => false,
            };
            proof {
                if listed {
                    lemma_first_index_some_holds(self.coins@, ticker_is(e.ticker@));
                } else {
                    assert forall|k: int| 0 <= k < self.coins@.len() implies #[trigger] self.coins@[k].ticker@
                        != e.ticker@ by {
                        lemma_first_index_none_means_none(self.coins@, ticker_is(e.ticker@), k);
                    }
                }
            }
            if !listed {
                available.push(e);
            }
            i = i + 1;
        }
        assert(all.take(i as int) =~= all);
        self.coin_select_modal = Some(CoinSelectModal::new(available));
    }

    /// The coin selection modal, if open.
    pub fn coin_select_modal(&self) -> (r: Option<&CoinSelectModal>)
        ensures
            match r {
                Some(m) => self@.coin_select_modal == Some(*m),
                None => self@.coin_select_modal is None,
            },
    {
        match &self.coin_select_modal {
            Some(m) => Some(m),
            None => None,
        }
    }

    /// The coin selection modal, if open, for changing it in place.
    pub fn coin_select_modal_mut(&mut self) -> (r: Option<&mut CoinSelectModal>)
        ensures
            match r {
                Some(m) => old(self)@.coin_select_modal == Some(*m),
                None => old(self)@.coin_select_modal is None,
            },
            r is Some ==> final(self)@ == (AppModel {
                coin_select_modal: Some(*final(r->0)),
                ..old(self)@
            }),
            r is None ==> final(self)@ == old(self)@,
    {
        self.coin_select_modal.as_mut()
    }
}


impl App {
    /// Closes the coin selection modal and returns its selected tickers
    /// (none when it was not open).
    pub fn coin_select_modal_confirm(&mut self) -> (r: Vec<String>)
        ensures
            texts(r@) == match old(self)@.coin_select_modal {
                Some(m) => texts(m.selected_tickers@),
                None => Seq::empty(),
            },
            final(self)@ == (AppModel { coin_select_modal: None, ..old(self)@ }),
    {
        match self.coin_select_modal.take() {
            Some(modal) => modal.get_selected_tickers(),
            None => {
                let v: Vec<String> = Vec::new();
                assert(texts(v@) =~= Seq::<Seq<char>>::empty());
                v
            },
        }
    }

    /// Closes the coin selection modal.
    pub fn close_coin_select_modal(&mut self)
        ensures
            final(self)@ == (AppModel { coin_select_modal: None, ..old(self)@ }),
    {
        self.coin_select_modal = None;
    }

    /// The screen shown.
    pub fn active_screen(&self) -> (r: ActiveScreen)
        ensures
            r == self@.active_screen,
    {
        self.active_screen
    }

    /// Switches between the main and the swaps screen.
    pub fn toggle_screen(&mut self)
        ensures
            final(self)@ == (AppModel {
                active_screen: other_screen(old(self)@.active_screen),
                ..old(self)@
            }),
    {
        self.active_screen = match self.active_screen {
            ActiveScreen::Main => ActiveScreen::Swaps,
            ActiveScreen::Swaps => ActiveScreen::Main,
        };
    }

    /// The focused selector of the swaps screen.
    pub fn swaps_focus(&self) -> (r: SwapsCoinFocus)
        ensures
            r == self@.swaps_focus,
    {
        self.swaps_focus
    }

    /// Moves the focus to the other selector of the swaps screen.
    pub fn swaps_toggle_focus(&mut self)
        ensures
            final(self)@ == (AppModel { swaps_focus: other_focus(old(self)@.swaps_focus), ..old(self)@ }),
    {
        self.swaps_focus = match self.swaps_focus {
            SwapsCoinFocus::Base => SwapsCoinFocus::Rel,
            SwapsCoinFocus::Rel => SwapsCoinFocus::Base,
        };
    }

    /// The tickers of the activated coins, in list order.
    pub fn activated_coin_tickers(&self) -> (r: Vec<String>)
        ensures
            texts(r@) == activated_tickers(self@.coins),
    {
        let mut out: Vec<String> = Vec::new();
        let mut i: usize = 0;
        while i < self.coins.len()
            invariant
                i <= self.coins@.len(),
                texts(out@) == activated_tickers(self.coins@.take(i as int)),
            decreases self.coins@.len() - i,
        {
            assert(self.coins@.take(i + 1).drop_last() =~= self.coins@.take(i as int));
            if self.coins[i].activated {
                let ghost before = out@;
                out.push(self.coins[i].ticker.clone());
                assert(texts(out@) =~= texts(before).push(self.coins@[i as int].ticker@));
            }
            i = i + 1;
        }
        assert(self.coins@.take(self.coins@.len() as int) =~= self.coins@);
        out
    }

    /// Moves the focused swaps selector up one activated coin, wrapping to
    /// the last; nothing happens when no coin is activated.
    pub fn swaps_select_up(&mut self)
        ensures
            ({
                let n = activated_tickers(old(self)@.coins).len() as int;
                if n == 0 {
                    final(self)@ == old(self)@
                } else {
                    match old(self)@.swaps_focus {
                        SwapsCoinFocus::Base => final(self)@ == (AppModel {
                            swaps_base_index: cycle_up(old(self)@.swaps_base_index as int, n) as usize,
                            ..old(self)@
                        }),
                        SwapsCoinFocus::Rel => final(self)@ == (AppModel {
                            swaps_rel_index: cycle_up(old(self)@.swaps_rel_index as int, n) as usize,
                            ..old(self)@
                        }),
                    }
                }
            }),
    {
        let activated = self.activated_coin_tickers();
        let n = activated.len();
        if n == 0 {
            return;
        }
        match self.swaps_focus {
            SwapsCoinFocus::Base => {
                self.swaps_base_index = if self.swaps_base_index > 0 {
                    self.swaps_base_index - 1
                } else {
                    n - 1
                };
            },
            SwapsCoinFocus::Rel => {
                self.swaps_rel_index = if self.swaps_rel_index > 0 {
                    self.swaps_rel_index - 1
                } else {
                    n - 1
                };
            },
        }
    }

    /// Moves the focused swaps selector down one activated coin, wrapping to
    /// the first; nothing happens when no coin is activated.
    pub fn swaps_select_down(&mut self)
        ensures
            ({
                let n = activated_tickers(old(self)@.coins).len() as int;
                if n == 0 {
                    final(self)@ == old(self)@
                } else {
                    match old(self)@.swaps_focus {
                        SwapsCoinFocus::Base => final(self)@ == (AppModel {
                            swaps_base_index: cycle_down(old(self)@.swaps_base_index as int, n) as usize,
                            ..old(self)@
                        }),
                        SwapsCoinFocus::Rel => final(self)@ == (AppModel {
                            swaps_rel_index: cycle_down(old(self)@.swaps_rel_index as int, n) as usize,
                            ..old(self)@
                        }),
                    }
                }
            }),
    {
        let activated = self.activated_coin_tickers();
        let n = activated.len();
        if n == 0 {
            return;
        }
        proof {
            assert(texts(activated@).len() == n);
        }
        match self.swaps_focus {
            SwapsCoinFocus::Base => {
                let i = self.swaps_base_index;
                proof {
                    lemma_add_mod_noop(i as int, 1, n as int);
                    if n > 1 {
                        lemma_small_mod(1, n as nat);
                    }
                }
                self.swaps_base_index = (i % n + 1) % n;
            },
            SwapsCoinFocus::Rel => {
                let i = self.swaps_rel_index;
                proof {
                    lemma_add_mod_noop(i as int, 1, n as int);
                    if n > 1 {
                        lemma_small_mod(1, n as nat);
                    }
                }
                self.swaps_rel_index = (i % n + 1) % n;
            },
        }
    }
}


impl App {
    /// The base and rel tickers of the swaps screen, when at least two coins
    /// are activated and the selectors point at different tickers.
    pub fn swaps_selected_pair(&self) -> (r: Option<(String, String)>)
        ensures
            match r {
                Some((b, q)) => selected_pair(
                    activated_tickers(self@.coins),
                    self@.swaps_base_index as int,
                    self@.swaps_rel_index as int,
                ) == Some((b@, q@)),
                None => selected_pair(
                    activated_tickers(self@.coins),
                    self@.swaps_base_index as int,
                    self@.swaps_rel_index as int,
                ) is None,
            },
    {
        let activated = self.activated_coin_tickers();
        let n = activated.len();
        proof {
            assert(texts(activated@).len() == n);
        }
        if n < 2 {
            return None;
        }
        let base = &activated[self.swaps_base_index % n];
        let rel = &activated[self.swaps_rel_index % n];
        proof {
            assert(texts(activated@)[(self.swaps_base_index % n) as int] == base@);
            assert(texts(activated@)[(self.swaps_rel_index % n) as int] == rel@);
        }
        if str_eq(base.as_str(), rel.as_str()) {
            return None;
        }
        Some((base.clone(), rel.clone()))
    }

    /// The ticker the base selector points at, if any coin is activated.
    pub fn swaps_base_ticker(&self) -> (r: Option<String>)
        ensures
            opt_view(r) == ticker_at(activated_tickers(self@.coins), self@.swaps_base_index as int),
    {
        let activated = self.activated_coin_tickers();
        let n = activated.len();
        proof {
            assert(texts(activated@).len() == n);
        }
        if n == 0 {
            return None;
        }
        let t = activated[self.swaps_base_index % n].clone();
        proof {
            assert(texts(activated@)[(self.swaps_base_index % n) as int] == t@);
        }
        Some(t)
    }

    /// The ticker the rel selector points at, if any coin is activated.
    pub fn swaps_rel_ticker(&self) -> (r: Option<String>)
        ensures
            opt_view(r) == ticker_at(activated_tickers(self@.coins), self@.swaps_rel_index as int),
    {
        let activated = self.activated_coin_tickers();
        let n = activated.len();
        proof {
            assert(texts(activated@).len() == n);
        }
        if n == 0 {
            return None;
        }
        let t = activated[self.swaps_rel_index % n].clone();
        proof {
            assert(texts(activated@)[(self.swaps_rel_index % n) as int] == t@);
        }
        Some(t)
    }

    /// Stores a fetched orderbook; loading and error are cleared.
    pub fn set_orderbook(&mut self, data: OrderbookData)
        ensures
            final(self)@ == (AppModel {
                orderbook: Some(data),
                orderbook_loading: false,
                orderbook_error: None,
                ..old(self)@
            }),
    {
        self.orderbook = Some(data);
        self.orderbook_loading = false;
        self.orderbook_error = None;
    }

    /// Marks the orderbook as loading or not; starting to load clears the error.
    pub fn set_orderbook_loading(&mut self, loading: bool)
        ensures
            final(self)@ == (AppModel {
                orderbook_loading: loading,
                orderbook_error: if loading { None } else { old(self)@.orderbook_error },
                ..old(self)@
            }),
    {
        self.orderbook_loading = loading;
        if loading {
            self.orderbook_error = None;
        }
    }

    /// Records an orderbook error; loading stops.
    pub fn set_orderbook_error(&mut self, error: String)
        ensures
            final(self)@ == (AppModel {
                orderbook_error: Some(error@),
                orderbook_loading: false,
                ..old(self)@
            }),
    {
        self.orderbook_error = Some(error);
        self.orderbook_loading = false;
    }

    /// The cached orderbook, if any.
    pub fn orderbook(&self) -> (r: Option<&OrderbookData>)
        ensures
            match r {
                Some(d) => self@.orderbook == Some(*d),
                None => self@.orderbook is None,
            },
    {
        match &self.orderbook {
            Some(d) => Some(d),
            None => None,
        }
    }
}

/// Law: on a list of `n` entries, a step down then a step up (and a step up
/// then a step down) comes back to the same entry.
pub proof fn law_swaps_up_down_inverse(i: int, n: int)
    requires
        0 <= i < n,
    ensures
        cycle_up(cycle_down(i, n), n) == i,
        cycle_down(cycle_up(i, n), n) == i,
        0 <= cycle_down(i, n) < n,
        0 <= cycle_up(i, n) < n,
{
    if i + 1 < n {
        lemma_small_mod((i + 1) as nat, n as nat);
    } else {
        assert(i + 1 == n);
        lemma_mod_self_0(n);
    }
    if i > 0 {
        lemma_small_mod(i as nat, n as nat);
    } else {
        lemma_small_mod(0, n as nat);
        if n > 1 {
            lemma_small_mod((n - 1) as nat, n as nat);
        }
        lemma_mod_self_0(n);
    }
}

/// Law: a selected swap pair names two different activated tickers.
pub proof fn law_selected_pair_distinct(tickers: Seq<Seq<char>>, base: int, rel: int)
    requires
        selected_pair(tickers, base, rel) is Some,
    ensures
        ({
            let (b, r) = selected_pair(tickers, base, rel)->0;
            &&& b != r
            &&& tickers.contains(b)
            &&& tickers.contains(r)
        }),
{
    let n = tickers.len() as int;
    let bi = base % n;
    let ri = rel % n;
    assert(tickers[bi] == tickers[base % n]);
    assert(tickers[ri] == tickers[rel % n]);
}

/// Law: switching screens (or swaps focus) twice changes nothing.
pub proof fn law_toggle_twice(s: ActiveScreen, f: SwapsCoinFocus)
    ensures
        other_screen(other_screen(s)) == s,
        other_focus(other_focus(f)) == f,
{
}


/// The predicate "is a dot".
pub open spec fn is_dot() -> spec_fn(char) -> bool {
    |c: char| c == '.'
}

/// `s` without its trailing `'0'` characters.
pub open spec fn trim_trailing_zeros(s: Seq<char>) -> Seq<char>
    decreases s.len(),
{
    if s.len() > 0 && s.last() == '0' {
        trim_trailing_zeros(s.drop_last())
    } else {
        s
    }
}

/// A decimal text whose fraction is cut to its first `max` bytes, without
/// trailing zeros and without the dot when nothing is left after it; text
/// without a dot is kept as it is.
pub open spec fn decimal_shortened(s: Seq<char>, max: nat) -> Seq<char> {
    match first_index(s, is_dot()) {
        None => s,
        Some(d) => {
            let frac = s.skip(d + 1);
            let cut = if byte_len(frac) > max { head_bytes(frac, max) } else { frac };
            let t = trim_trailing_zeros(cut);
            if t.len() == 0 {
                s.take(d)
            } else {
                s.take(d) + seq!['.'] + t
            }
        },
    }
}

/// The cut `decimal_shortened` makes falls between characters.
pub open spec fn decimal_cut_on_boundary(s: Seq<char>, max: nat) -> bool {
    match first_index(s, is_dot()) {
        None => true,
        Some(d) => byte_len(s.skip(d + 1)) > max ==> head_on_boundary(s.skip(d + 1), max),
    }
}

impl App {
    /// Formats a decimal text to at most `max_decimals` fraction bytes,
    /// dropping trailing zeros (and the dot when nothing is left after it).
    pub fn fmt_decimal(s: &str, max_decimals: usize) -> (r: String)
        requires
            decimal_cut_on_boundary(s@, max_decimals as nat),
        ensures
            r@ == decimal_shortened(s@, max_decimals as nat),
    {
        let n = s.unicode_len();
        let ghost p = is_dot();
        let mut d: usize = 0;
        while d < n && s.get_char(d) != '.'
            invariant
                n == s@.len(),
                d <= n,
                p == is_dot(),
                forall|j: int| 0 <= j < d ==> !p(s@[j]),
            decreases n - d,
        {
            d = d + 1;
        }
        if d == n {
            proof {
                lemma_first_index_none(s@, p);
            }
            return String::from_str(s);
        }
        proof {
            lemma_first_index(s@, p, d as int);
        }
        let frac_text = s.substring_char(d + 1, n);
        let ghost frac = s@.skip(d + 1);
        assert(frac_text@ =~= frac);
        let end = if bytes_exceed(frac_text, max_decimals) {
            d + 1 + head_char_count(frac_text, max_decimals)
        } else {
            n
        };
        let ghost cut = if byte_len(frac) > max_decimals { head_bytes(frac, max_decimals as nat) } else { frac };
        assert(cut =~= s@.subrange(d + 1, end as int));
        let mut e: usize = end;
        while e > d + 1 && s.get_char(e - 1) == '0'
            invariant
                n == s@.len(),
                d < n,
                d + 1 <= e <= end <= n,
                trim_trailing_zeros(cut) == trim_trailing_zeros(s@.subrange(d + 1, e as int)),
            decreases e,
        {
            assert(s@.subrange(d + 1, e as int).drop_last() =~= s@.subrange(d + 1, e - 1));
            e = e - 1;
        }
        assert(trim_trailing_zeros(cut) == s@.subrange(d + 1, e as int));
        if e == d + 1 {
            owned(s.substring_char(0, d))
        } else {
            assert(s@.take(d as int) + seq!['.'] + s@.subrange(d + 1, e as int) =~= s@.subrange(0, e as int));
            owned(s.substring_char(0, e))
        }
    }
}


impl App {
    /// The KDF version shown in the status bar.
    pub fn kdf_version(&self) -> (r: &str)
        ensures
            r@ == self@.kdf_version,
    {
        self.kdf_version.as_str()
    }

    /// The build time KDF reported, if it could be read.
    pub fn kdf_datetime(&self) -> (r: Option<KdfDateTime>)
        ensures
            r == self@.kdf_datetime,
    {
        self.kdf_datetime
    }

    /// The current time, as a Unix timestamp.
    pub fn current_time(&self) -> (r: i64)
        ensures
            r == self@.current_time,
    {
        self.current_time
    }

    /// The name of the last key pressed.
    pub fn last_key_pressed(&self) -> (r: &str)
        ensures
            r@ == self@.last_key_pressed,
    {
        self.last_key_pressed.as_str()
    }

    /// The log this screen writes to.
    pub fn logger(&self) -> (r: &SharedLogger)
        ensures
            *r == self@.logger,
    {
        &self.logger
    }

    /// Whether the log list follows its newest entry.
    pub fn log_follow(&self) -> (r: bool)
        ensures
            r == self@.log_follow,
    {
        self.log_follow
    }

    /// The scroll offset of the log list.
    pub fn log_offset(&self) -> (r: usize)
        ensures
            r == self@.log_offset,
    {
        self.log_offset
    }

    /// The coins of the coin list.
    pub fn coins(&self) -> (r: &[Coin])
        ensures
            r@ == self@.coins,
    {
        self.coins.as_slice()
    }

    /// The transactions of the shown history page.
    pub fn tx_history(&self) -> (r: &[Transaction])
        ensures
            r@ == self@.tx_history,
    {
        self.tx_history.as_slice()
    }

    /// Whether a history page is being fetched.
    pub fn tx_history_loading(&self) -> (r: bool)
        ensures
            r == self@.tx_history_loading,
    {
        self.tx_history_loading
    }

    /// The error of the last history fetch, if it failed.
    pub fn tx_history_error(&self) -> (r: Option<&str>)
        ensures
            match r {
                Some(e) => self@.tx_history_error == Some(e@),
                None => self@.tx_history_error is None,
            },
    {
        match &self.tx_history_error {
            Some(e) => Some(e.as_str()),
            None => None,
        }
    }

    /// Whether the orderbook is being fetched.
    pub fn orderbook_loading(&self) -> (r: bool)
        ensures
            r == self@.orderbook_loading,
    {
        self.orderbook_loading
    }

    /// The error of the last orderbook fetch, if it failed.
    pub fn orderbook_error(&self) -> (r: Option<&str>)
        ensures
            match r {
                Some(e) => self@.orderbook_error == Some(e@),
                None => self@.orderbook_error is None,
            },
    {
        match &self.orderbook_error {
            Some(e) => Some(e.as_str()),
            None => None,
        }
    }

    /// The details panel text: the selected coin's details, or a hint when
    /// no listed coin is selected.
    pub fn selected_coin_details(&self) -> (r: String)
        ensures
            r@ == match self@.coins_selected {
                Some(i) => if i < self@.coins.len() {
                    crate::display::coin_details(self@.coins[i as int])
                } else {
                    "Select a coin (↑/↓ Enter)"@
                },
                None => "Select a coin (↑/↓ Enter)"@,
            },
    {
        match self.coins_selected {
            Some(i) => if i < self.coins.len() {
                crate::display::coin_details_text(&self.coins[i])
            } else {
                String::from_str("Select a coin (↑/↓ Enter)")
            },
            None => String::from_str("Select a coin (↑/↓ Enter)"),
        }
    }
}

} // verus!
