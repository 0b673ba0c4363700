//! The text the wallet screen shows: modal placement, coin and transaction
//! details, list lines and status texts. Drawing them is left to the caller.

use crate::app::{min, sat_sub};
use crate::coins::{or_zero, satoshi_text, Coin};
use crate::kdf_client::Transaction;
use crate::text::{
    byte_len, bytes_exceed, decimal, head_bytes, head_char_count, head_on_boundary, is_datetime_text, owned,
    push_char, push_decimal, tail_bytes, tail_char_count, tail_on_boundary, texts,
};
use vstd::prelude::*;

verus! {

/// The side of a modal: at most `max`, leaving a margin of 2 on each side.
pub open spec fn modal_side(area: u16, max: u16) -> int {
    min(max as int, sat_sub(area as int, 4))
}

/// The offset that centres a modal side `side` in `area`.
pub open spec fn centred_offset(area: u16, side: int) -> int {
    sat_sub(area as int, side) / 2
}

/// The place of a modal of at most `max_width` x `max_height` centred in an
/// area of `area_width` x `area_height`: `(x, y, width, height)`.
pub fn centered_modal(area_width: u16, area_height: u16, max_width: u16, max_height: u16) -> (r: (u16, u16, u16, u16))
    ensures
        r.2 == modal_side(area_width, max_width),
        r.3 == modal_side(area_height, max_height),
        r.0 == centred_offset(area_width, r.2 as int),
        r.1 == centred_offset(area_height, r.3 as int),
{
    let aw = if area_width >= 4 { area_width - 4 } else { 0 };
    let ah = if area_height >= 4 { area_height - 4 } else { 0 };
    let w = if max_width <= aw { max_width } else { aw };
    let h = if max_height <= ah { max_height } else { ah };
    let x = (if area_width >= w { area_width - w } else { 0 }) / 2;
    let y = (if area_height >= h { area_height - h } else { 0 }) / 2;
    (x, y, w, h)
}

/// `n` copies of `c`.
pub open spec fn repeated(c: char, n: nat) -> Seq<char> {
    Seq::new(n, |i: int| c)
}

fn push_repeated(s: &mut String, c: char, n: usize)
    ensures
        final(s)@ == old(s)@ + repeated(c, n as nat),
{
    let mut i: usize = 0;
    while i < n
        invariant
            i <= n,
            s@ == old(s)@ + repeated(c, i as nat),
        decreases n - i,
    {
        push_char(s, c);
        i = i + 1;
        assert(s@ =~= old(s)@ + repeated(c, i as nat));
    }
}

/// `s` padded with spaces on the right to `width` characters, as `{:width}` does.
pub open spec fn pad_right(s: Seq<char>, width: nat) -> Seq<char> {
    if s.len() < width {
        s + repeated(' ', (width - s.len()) as nat)
    } else {
        s
    }
}

/// `s` padded with spaces on the left to `width` characters, as `{:>width}` does.
pub open spec fn pad_left(s: Seq<char>, width: nat) -> Seq<char> {
    if s.len() < width {
        repeated(' ', (width - s.len()) as nat) + s
    } else {
        s
    }
}

fn push_padded_right(out: &mut String, s: &str, width: usize)
    ensures
        final(out)@ == old(out)@ + pad_right(s@, width as nat),
{
    let n = s.unicode_len();
    out.append(s);
    if n < width {
        push_repeated(out, ' ', width - n);
    }
    assert(out@ =~= old(out)@ + pad_right(s@, width as nat));
}

fn push_padded_left(out: &mut String, s: &str, width: usize)
    ensures
        final(out)@ == old(out)@ + pad_left(s@, width as nat),
{
    let n = s.unicode_len();
    if n < width {
        push_repeated(out, ' ', width - n);
    }
    out.append(s);
    assert(out@ =~= old(out)@ + pad_left(s@, width as nat));
}

/// A password shown as one block per character.
pub fn masked_password(password: &str) -> (r: String)
    ensures
        r@ == repeated('█', password@.len()),
{
    let mut r = String::new();
    push_repeated(&mut r, '█', password.unicode_len());
    assert(r@ =~= repeated('█', password@.len()));
    r
}

/// The HD-wallet checkbox of the wallet modal.
pub fn hd_label(enable_hd: bool) -> (r: &'static str)
    ensures
        r@ == if enable_hd { "[x] HD Wallet"@ } else { "[ ] HD Wallet"@ },
{
    if enable_hd { "[x] HD Wallet" } else { "[ ] HD Wallet" }
}

/// The scroll offset of the wallet list with `visible_rows` rows and `count`
/// names, keeping `selected` on the last visible row; none when the list has
/// no room or no names.
pub fn wallet_list_offset(selected: usize, visible_rows: usize, count: usize) -> (r: Option<usize>)
    ensures
        visible_rows == 0 || count == 0 ==> r is None,
        visible_rows > 0 && count > 0 ==> r == Some(
            min(sat_sub(selected as int, visible_rows - 1), count - 1) as usize,
        ),
{
    if visible_rows == 0 || count == 0 {
        return None;
    }
    let lead = visible_rows - 1;
    let off = if selected >= lead { selected - lead } else { 0 };
    Some(if off <= count - 1 { off } else { count - 1 })
}

/// The line of an entry of the coin selection: a check box, the ticker in
/// ten columns and the full name.
pub open spec fn coin_select_line_text(selected: bool, ticker: Seq<char>, fname: Seq<char>) -> Seq<char> {
    (if selected { "[x]"@ } else { "[ ]"@ }) + seq![' '] + pad_right(ticker, 10) + seq![' '] + fname
}

/// The line of an entry of the coin selection.
pub fn coin_select_line(selected: bool, ticker: &str, fname: &str) -> (r: String)
    ensures
        r@ == coin_select_line_text(selected, ticker@, fname@),
{
    let mut r = String::from_str(if selected { "[x]" } else { "[ ]" });
    push_char(&mut r, ' ');
    push_padded_right(&mut r, ticker, 10);
    push_char(&mut r, ' ');
    r.append(fname);
    r
}

/// How many coins are selected in the coin selection.
pub fn selected_count_text(count: usize) -> (r: String)
    ensures
        r@ == seq![' '] + decimal(count as nat) + " coin(s) selected"@,
{
    proof {
        reveal_strlit(" ");
    }
    let mut r = String::from_str(" ");
    push_decimal(&mut r, count as u64);
    r.append(" coin(s) selected");
    r
}

/// The blank space between a ticker and its balance on a coin list line of
/// `width` columns (text lengths counted in bytes of ASCII text).
pub fn coin_line_padding(width: usize, ticker_len: usize, balance_len: usize) -> (r: usize)
    ensures
        r == sat_sub(sat_sub(sat_sub(width as int, ticker_len as int), balance_len as int), 2),
{
    let a = if width >= ticker_len { width - ticker_len } else { 0 };
    let b = if a >= balance_len { a - balance_len } else { 0 };
    if b >= 2 { b - 2 } else { 0 }
}

/// The text of `lines` joined with newlines.
pub open spec fn joined_lines(lines: Seq<Seq<char>>) -> Seq<char>
    decreases lines.len(),
{
    if lines.len() == 0 {
        Seq::empty()
    } else if lines.len() == 1 {
        lines[0]
    } else {
        joined_lines(lines.drop_last()) + seq!['\n'] + lines.last()
    }
}

/// `text` cut at every newline, as `str::split('\n')` does: the pieces
/// between newlines, an empty piece where two newlines meet or the text
/// starts or ends with one.
pub open spec fn split_lines(text: Seq<char>) -> Seq<Seq<char>>
    decreases text.len(),
{
    if text.len() == 0 {
        seq![Seq::empty()]
    } else {
        let rest = split_lines(text.drop_last());
        if text.last() == '\n' {
            rest.push(Seq::empty())
        } else {
            rest.update(rest.len() - 1, rest.last().push(text.last()))
        }
    }
}

proof fn lemma_split_lines_nonempty(text: Seq<char>)
    ensures
        split_lines(text).len() >= 1,
    decreases text.len(),
{
    if text.len() > 0 {
        lemma_split_lines_nonempty(text.drop_last());
    }
}

/// The lines of a message, cut at its newlines.
pub fn message_lines(message: &str) -> (r: Vec<String>)
    ensures
        texts(r@) == split_lines(message@),
{
    let n = message.unicode_len();
    let mut lines: Vec<String> = Vec::new();
    let mut current = String::new();
    let mut i: usize = 0;
    while i < n
        invariant
            n == message@.len(),
            i <= n,
            texts(lines@).push(current@) == split_lines(message@.take(i as int)),
        decreases n - i,
    {
        let c = message.get_char(i);
        assert(message@.take(i + 1).drop_last() =~= message@.take(i as int));
        proof {
            lemma_split_lines_nonempty(message@.take(i as int));
        }
        let ghost before = texts(lines@);
        let ghost cur = current@;
        if c == '\n' {
            let done = current;
            lines.push(done);
            current = String::new();
            assert(texts(lines@) =~= before.push(cur));
            assert(texts(lines@).push(current@) =~= before.push(cur).push(Seq::empty()));
        } else {
            push_char(&mut current, c);
            assert(texts(lines@).push(current@) =~= before.push(cur).update(
                before.len() as int,
                cur.push(c),
            ));
        }
        i = i + 1;
    }
    let ghost before = texts(lines@);
    lines.push(current);
    assert(message@.take(n as int) =~= message@);
    assert(texts(lines@) =~= before.push(lines@.last()@));
    lines
}

} // verus!

verus! {

/// The date and time, in UTC, that `chrono` shows for a Unix timestamp with
/// the pattern `%Y-%m-%d %H:%M:%S`; none for a timestamp out of its range.
pub uninterp spec fn utc_datetime_text(timestamp: i64) -> Option<Seq<char>>;

/// `chrono::DateTime::from_timestamp(timestamp, 0)` formatted with
/// `%Y-%m-%d %H:%M:%S`: the UTC date and time of a Unix timestamp, or none
/// when chrono has no date for it. Which date is named by `utc_datetime_text`;
/// what is stated beside it is the shape chrono's numeric fields give the text.
#[verifier::external_body]
fn format_utc_timestamp(timestamp: i64) -> (r: Option<String>)
    ensures
        match r {
            Some(s) => utc_datetime_text(timestamp) == Some(s@) && is_datetime_text(s@),
            None => utc_datetime_text(timestamp) is None,
        },
{
    match chrono::DateTime::from_timestamp(timestamp, 0) {
        Some(dt) => Some(dt.format("%Y-%m-%d %H:%M:%S").to_string()),
        None => None,
    }
}

/// A transaction that lowered the balance.
pub open spec fn is_send(t: Transaction) -> bool {
    t.my_balance_change@.len() > 0 && t.my_balance_change@[0] == '-'
}

/// A transaction not yet in a block (no time or no height).
pub open spec fn is_unconfirmed(t: Transaction) -> bool {
    t.timestamp == 0 || t.block_height == 0
}

/// `SEND` for a transaction that lowered the balance, `RECV` otherwise.
pub fn tx_kind_label(t: &Transaction) -> (r: &'static str)
    ensures
        r@ == if is_send(*t) { "SEND"@ } else { "RECV"@ },
{
    let s = t.my_balance_change.as_str();
    if s.unicode_len() > 0 && s.get_char(0) == '-' {
        "SEND"
    } else {
        "RECV"
    }
}

/// Whether the transaction is not yet in a block.
pub fn tx_is_unconfirmed(t: &Transaction) -> (r: bool)
    ensures
        r == is_unconfirmed(*t),
{
    t.timestamp == 0 || t.block_height == 0
}

/// When the transaction happened: `NOW` while unconfirmed, else its UTC date
/// and time, or `Unknown` when the timestamp has no date.
pub fn tx_time_text(t: &Transaction) -> (r: String)
    ensures
        r@ == if is_unconfirmed(*t) {
            "NOW"@
        } else {
            match utc_datetime_text(t.timestamp) {
                Some(s) => s,
                None => "Unknown"@,
            }
        },
        !is_unconfirmed(*t) && utc_datetime_text(t.timestamp) is Some ==> is_datetime_text(r@),
{
    if tx_is_unconfirmed(t) {
        String::from_str("NOW")
    } else {
        match format_utc_timestamp(t.timestamp) {
            Some(s) => s,
            None => String::from_str("Unknown"),
        }
    }
}

/// `Unconfirmed`, or the number of confirmations followed by ` conf`.
pub fn tx_confirmations_text(t: &Transaction) -> (r: String)
    ensures
        r@ == if is_unconfirmed(*t) {
            "Unconfirmed"@
        } else {
            decimal(t.confirmations as nat) + " conf"@
        },
{
    if tx_is_unconfirmed(t) {
        String::from_str("Unconfirmed")
    } else {
        let mut r = String::new();
        push_decimal(&mut r, t.confirmations as u64);
        r.append(" conf");
        r
    }
}

/// `Unconfirmed`, `Confirmed` once confirmations are counted, else `Pending`.
pub fn tx_status_label(t: &Transaction) -> (r: &'static str)
    ensures
        r@ == if is_unconfirmed(*t) {
            "Unconfirmed"@
        } else if t.confirmations > 0 {
            "Confirmed"@
        } else {
            "Pending"@
        },
{
    if tx_is_unconfirmed(t) {
        "Unconfirmed"
    } else if t.confirmations > 0 {
        "Confirmed"
    } else {
        "Pending"
    }
}

/// A hash longer than 24 bytes shortened to its first 16 and last 8 bytes
/// around `...`.
pub open spec fn short_hash(h: Seq<char>) -> Seq<char> {
    if byte_len(h) > 24 {
        head_bytes(h, 16) + "..."@ + tail_bytes(h, 8)
    } else {
        h
    }
}

/// The cuts `short_hash` makes fall between characters.
pub open spec fn hash_cuts_on_boundaries(h: Seq<char>) -> bool {
    byte_len(h) > 24 ==> head_on_boundary(h, 16) && tail_on_boundary(h, 8)
}

/// The first address of a list, cut to its first 17 bytes and `...` when
/// longer than 20 bytes; `Unknown` for an empty list.
pub open spec fn short_first_address(addresses: Seq<Seq<char>>) -> Seq<char> {
    if addresses.len() == 0 {
        "Unknown"@
    } else if byte_len(addresses[0]) > 20 {
        head_bytes(addresses[0], 17) + "..."@
    } else {
        addresses[0]
    }
}

/// The cut `short_first_address` makes falls between characters.
pub open spec fn address_cut_on_boundary(addresses: Seq<Seq<char>>) -> bool {
    addresses.len() > 0 && byte_len(addresses[0]) > 20 ==> head_on_boundary(addresses[0], 17)
}

/// A transaction hash shortened for display (see `short_hash`).
pub fn abbreviate_hash(h: &str) -> (r: String)
    requires
        hash_cuts_on_boundaries(h@),
    ensures
        r@ == short_hash(h@),
{
    if bytes_exceed(h, 24) {
        let n = h.unicode_len();
        let k1 = head_char_count(h, 16);
        let k2 = tail_char_count(h, 8);
        let mut r = owned(h.substring_char(0, k1));
        r.append("...");
        r.append(h.substring_char(n - k2, n));
        assert(h@.subrange(n - k2, n as int) =~= h@.skip(n - k2));
        assert(h@.subrange(0, k1 as int) =~= h@.take(k1 as int));
        r
    } else {
        owned(h)
    }
}

/// The first address of a list shortened for display (see `short_first_address`).
pub fn abbreviate_first_address(addresses: &Vec<String>) -> (r: String)
    requires
        address_cut_on_boundary(texts(addresses@)),
    ensures
        r@ == short_first_address(texts(addresses@)),
{
    if addresses.len() == 0 {
        return String::from_str("Unknown");
    }
    let a = addresses[0].as_str();
    assert(texts(addresses@)[0] == a@);
    if bytes_exceed(a, 20) {
        let k = head_char_count(a, 17);
        let mut r = owned(a.substring_char(0, k));
        r.append("...");
        assert(a@.subrange(0, k as int) =~= a@.take(k as int));
        r
    } else {
        owned(a)
    }
}

/// The details panel of a coin: ticker, block, balances, then wallet type
/// and address when known, one per line.
pub open spec fn coin_details(c: Coin) -> Seq<char> {
    "ticker: "@ + c.ticker@ + "\ncurrent_block: "@ + match c.current_block {
        Some(b) => decimal(b as nat),
        None => "—"@,
    } + "\nspendable: "@ + satoshi_text(or_zero(c.spendable_satoshis)) + "\nunspendable: "@
        + satoshi_text(or_zero(c.unspendable_satoshis)) + match c.wallet_type {
        Some(w) => "\nwallet_type: "@ + w@,
        None => Seq::empty(),
    } + match c.address {
        Some(a) => "\naddress: "@ + a@,
        None => Seq::empty(),
    }
}

/// The details panel text of a coin (see `coin_details`).
pub fn coin_details_text(c: &Coin) -> (r: String)
    ensures
        r@ == coin_details(*c),
{
    let mut r = String::from_str("ticker: ");
    r.append(c.ticker.as_str());
    r.append("\ncurrent_block: ");
    match c.current_block {
        Some(b) => push_decimal(&mut r, b),
        None => r.append("—"),
    }
    r.append("\nspendable: ");
    r.append(c.spendable_display().as_str());
    r.append("\nunspendable: ");
    r.append(c.unspendable_display().as_str());
    match &c.wallet_type {
        Some(w) => {
            r.append("\nwallet_type: ");
            r.append(w.as_str());
        },
        None => {},
    }
    match &c.address {
        Some(a) => {
            r.append("\naddress: ");
            r.append(a.as_str());
        },
        None => {},
    }
    r
}

} // verus!

verus! {

/// The screen tabs of the status bar, the shown screen in brackets.
pub open spec fn screen_tabs(screen: crate::app::ActiveScreen) -> Seq<char> {
    match screen {
        crate::app::ActiveScreen::Main => "[Tab] Main | Swaps"@,
        crate::app::ActiveScreen::Swaps => "Main | [Tab] Swaps"@,
    }
}

/// The screen tabs of the status bar (see `screen_tabs`).
pub fn screen_label(screen: crate::app::ActiveScreen) -> (r: &'static str)
    ensures
        r@ == screen_tabs(screen),
{
    match screen {
        crate::app::ActiveScreen::Main => "[Tab] Main | Swaps",
        crate::app::ActiveScreen::Swaps => "Main | [Tab] Swaps",
    }
}

/// The left part of the status bar: screen tabs and KDF version.
pub fn status_version_text(screen: crate::app::ActiveScreen, version: &str) -> (r: String)
    ensures
        r@ == screen_tabs(screen) + " | KDF: "@ + version@,
{
    let mut r = String::from_str(screen_label(screen));
    r.append(" | KDF: ");
    r.append(version);
    r
}

/// The last key shown in the status bar, a dash when none was pressed.
pub fn last_key_text(last_key: &str) -> (r: String)
    ensures
        r@ == if last_key@.len() == 0 { "—"@ } else { last_key@ },
{
    if last_key.unicode_len() == 0 {
        String::from_str("—")
    } else {
        owned(last_key)
    }
}

/// A ticker, or a dash when there is none.
pub fn ticker_or_dash(t: Option<String>) -> (r: String)
    ensures
        r@ == match t {
            Some(s) => s@,
            None => "—"@,
        },
{
    match t {
        Some(s) => s,
        None => String::from_str("—"),
    }
}

/// The time and level columns of a log line: `[timestamp] ` and `[LEVEL] `.
pub fn log_line_prefix(entry: &crate::logger::LogEntry) -> (r: (String, String))
    ensures
        r.0@ == seq!['['] + entry.timestamp@ + "] "@,
        r.1@ == seq!['['] + crate::logger::level_label(entry.level) + "] "@,
{
    proof {
        reveal_strlit("[");
    }
    let mut t = String::from_str("[");
    t.append(entry.timestamp.as_str());
    t.append("] ");
    let mut l = String::from_str("[");
    l.append(entry.level.as_str());
    l.append("] ");
    (t, l)
}

/// A row of the orderbook: price, amount and total right-aligned in 12, 14
/// and 14 columns.
pub open spec fn orderbook_row_text(price: Seq<char>, amount: Seq<char>, total: Seq<char>) -> Seq<char> {
    seq![' '] + pad_left(price, 12) + "  "@ + pad_left(amount, 14) + "  "@ + pad_left(total, 14) + seq![' ']
}

/// A row of the orderbook (see `orderbook_row_text`).
pub fn orderbook_row(price: &str, amount: &str, total: &str) -> (r: String)
    ensures
        r@ == orderbook_row_text(price@, amount@, total@),
{
    proof {
        reveal_strlit(" ");
    }
    let mut r = String::from_str(" ");
    push_padded_left(&mut r, price, 12);
    r.append("  ");
    push_padded_left(&mut r, amount, 14);
    r.append("  ");
    push_padded_left(&mut r, total, 14);
    push_char(&mut r, ' ');
    r
}

/// The header row of the orderbook for the pair `base`/`rel`.
pub fn orderbook_header(base: &str, rel: &str) -> (r: String)
    ensures
        r@ == orderbook_row_text(
            "Price("@ + rel@ + ")"@,
            "Amount("@ + base@ + ")"@,
            "Total("@ + rel@ + ")"@,
        ),
{
    let mut price = String::from_str("Price(");
    price.append(rel);
    price.append(")");
    let mut amount = String::from_str("Amount(");
    amount.append(base);
    amount.append(")");
    let mut total = String::from_str("Total(");
    total.append(rel);
    total.append(")");
    orderbook_row(price.as_str(), amount.as_str(), total.as_str())
}

/// A row of orderbook amounts, each shortened to eight decimals.
pub fn orderbook_entry_row(price: &str, amount: &str, total: &str) -> (r: String)
    requires
        crate::app::decimal_cut_on_boundary(price@, 8),
        crate::app::decimal_cut_on_boundary(amount@, 8),
        crate::app::decimal_cut_on_boundary(total@, 8),
    ensures
        r@ == orderbook_row_text(
            crate::app::decimal_shortened(price@, 8),
            crate::app::decimal_shortened(amount@, 8),
            crate::app::decimal_shortened(total@, 8),
        ),
{
    let p = crate::app::App::fmt_decimal(price, 8);
    let a = crate::app::App::fmt_decimal(amount, 8);
    let t = crate::app::App::fmt_decimal(total, 8);
    orderbook_row(p.as_str(), a.as_str(), t.as_str())
}

/// The spread line between asks and bids; a dash when either side is empty.
pub fn spread_text(spread: Option<&str>) -> (r: String)
    requires
        spread matches Some(s) ==> crate::app::decimal_cut_on_boundary(s@, 8),
    ensures
        r@ == match spread {
            Some(s) => " ── Spread: "@ + crate::app::decimal_shortened(s@, 8) + " ──"@,
            None => " ── Spread: — ──"@,
        },
{
    match spread {
        Some(s) => {
            let mut r = String::from_str(" ── Spread: ");
            r.append(crate::app::App::fmt_decimal(s, 8).as_str());
            r.append(" ──");
            r
        },
        None => String::from_str(" ── Spread: — ──"),
    }
}

} // verus!

verus! {

/// What the fee line of a withdrawal shows, from its `fee_details`: the
/// `amount` member, else the `total_fee` member, with the `coin` member (or
/// `ticker` when it is no string); `None` when the details are no object or
/// have neither member, and are then shown whole.
pub open spec fn fee_parts(fee: crate::json::Json, ticker: Seq<char>) -> Option<(crate::json::Json, Seq<char>)> {
    let coin = match crate::json::json_as_str(crate::json::json_get(fee, "coin"@)) {
        Some(c) => c,
        None => ticker,
    };
    match fee {
        crate::json::Json::Object(_) => match crate::json::json_get(fee, "amount"@) {
            Some(a) => Some((a, coin)),
            None => match crate::json::json_get(fee, "total_fee"@) {
                Some(t) => Some((t, coin)),
                None => None,
            },
        },
        _ => None,
    }
}

/// The parts of the fee line of a withdrawal (see `fee_parts`): the amount
/// value and the coin.
pub fn fee_display_parts<'a>(fee: &'a crate::json::JsonValue, ticker: &str) -> (r: Option<(&'a crate::json::JsonValue, String)>)
    ensures
        match r {
            Some((v, c)) => fee_parts(fee@, ticker@) == Some((v@, c@)),
            None => fee_parts(fee@, ticker@) is None,
        },
{
    match fee {
        crate::json::JsonValue::Object(_) => {
            let coin = match crate::json::member_str(fee, "coin") {
                Some(c) => owned(c),
                None => owned(ticker),
            };
            match fee.get("amount") {
                Some(a) => Some((a, coin)),
                None => match fee.get("total_fee") {
                    Some(t) => Some((t, coin)),
                    None => None,
                },
            }
        },
        _ => None,
    }
}

} // verus!
