//! Watching the current deal: the countdown text, the deal's two display
//! lines, and when to ask the API again.
use vstd::prelude::*;

use crate::deal::{Deal, Item};
use crate::schedule::{countdown_pause, countdown_step, countdown_text};
use crate::text::{append_decimal, append_digit, decimal, digit_char, join, join_strings, texts};

verus! {

/// How many whole hours `format_duration` shows for `secs` seconds: an hour
/// is taken off as long as more than an hour remains.
pub open spec fn shown_hours(secs: nat) -> nat {
    if secs == 0 {
        0
    } else {
        ((secs - 1) / 3600) as nat
    }
}

/// What remains of `secs` once the shown hours are taken off (at most an hour).
pub open spec fn after_hours(secs: nat) -> nat {
    (secs - 3600 * shown_hours(secs)) as nat
}

/// The minutes shown: one when more than a minute remains after the hours,
/// none otherwise (the remaining seconds are then dropped).
pub open spec fn shown_minutes(secs: nat) -> nat {
    if after_hours(secs) > 60 {
        1
    } else {
        0
    }
}

/// The seconds shown: what remains after the hours when that is a minute or less.
pub open spec fn shown_seconds(secs: nat) -> nat {
    if after_hours(secs) > 60 {
        0
    } else {
        after_hours(secs)
    }
}

/// `n` followed by `unit`, when `n` is not zero.
pub open spec fn nonzero_piece(n: nat, unit: char) -> Seq<Seq<char>> {
    if n > 0 {
        seq![decimal(n).push(unit)]
    } else {
        Seq::empty()
    }
}

/// The words of a countdown: hours, minutes, seconds, leaving out those that are zero.
pub open spec fn duration_pieces(secs: nat) -> Seq<Seq<char>> {
    nonzero_piece(shown_hours(secs), 'h') + nonzero_piece(shown_minutes(secs), 'm')
        + nonzero_piece(shown_seconds(secs), 's')
}

/// The countdown text for `secs` seconds, such as `1h 1m` or `42s`.
pub open spec fn duration_text(secs: nat) -> Seq<char> {
    join(duration_pieces(secs), seq![' '])
}

/// Appends `n` and the one-character unit `unit` to `pieces`, when `n` is not zero.
fn push_nonzero_piece(pieces: &mut Vec<String>, n: u64, unit: &str)
    requires
        unit@.len() == 1,
    ensures
        texts(final(pieces)@) == texts(old(pieces)@) + nonzero_piece(n as nat, unit@[0]),
{
    if n > 0 {
        let mut piece = String::new();
        append_decimal(&mut piece, n);
        piece.append(unit);
        assert(piece@ =~= decimal(n as nat).push(unit@[0]));
        pieces.push(piece);
        assert(texts(pieces@) =~= texts(old(pieces)@) + nonzero_piece(n as nat, unit@[0]));
    } else {
        assert(texts(pieces@) =~= texts(old(pieces)@) + nonzero_piece(n as nat, unit@[0]));
    }
}

/// A short countdown text for `secs` seconds, such as `1h 1m` or `42s`.
pub fn format_duration(secs: u64) -> (text: String)
    ensures
        text@ == duration_text(secs as nat),
{
    let hours: u64 = if secs == 0 {
        0
    } else {
        (secs - 1) / 3600
    };
    let rest: u64 = secs - 3600 * hours;
    let (mins, rest): (u64, u64) = if rest > 60 {
        (1, 0)
    } else {
        (0, rest)
    };
    let mut pieces: Vec<String> = Vec::new();
    proof {
        reveal_strlit("h");
        reveal_strlit("m");
        reveal_strlit("s");
    }
    push_nonzero_piece(&mut pieces, hours, "h");
    push_nonzero_piece(&mut pieces, mins, "m");
    push_nonzero_piece(&mut pieces, rest, "s");
    assert(texts(pieces@) =~= duration_pieces(secs as nat));
    proof {
        reveal_strlit(" ");
    }
    assert(" "@ =~= seq![' ']);
    join_strings(&pieces, " ")
}

/// The countdown text is empty only for zero seconds, and starts and ends
/// with no space.
pub proof fn law_countdown_text_trimmed(secs: nat)
    ensures
        duration_text(secs).len() == 0 <==> secs == 0,
        duration_text(secs).len() > 0 ==> duration_text(secs)[0] != ' '
            && duration_text(secs).last() != ' ',
{
    let pieces = duration_pieces(secs);
    lemma_pieces_shape(secs);
    if pieces.len() > 0 {
        assert(pieces[0].len() >= 2);
        assert(pieces[pieces.len() - 1].len() >= 2);
        lemma_join_ends(pieces, seq![' ']);
    }
}

/// Each word of a countdown is a number and a unit letter; there is one
/// exactly when the number of seconds is not zero.
proof fn lemma_pieces_shape(secs: nat)
    ensures
        duration_pieces(secs).len() == 0 <==> secs == 0,
        forall|k: int| 0 <= k < duration_pieces(secs).len() ==> #[trigger] duration_pieces(secs)[k].len() >= 2
            && duration_pieces(secs)[k][0] != ' ' && duration_pieces(secs)[k].last() != ' ',
{
    lemma_decimal_starts_with_digit(shown_hours(secs));
    lemma_decimal_starts_with_digit(shown_minutes(secs));
    lemma_decimal_starts_with_digit(shown_seconds(secs));
    let h = nonzero_piece(shown_hours(secs), 'h');
    let m = nonzero_piece(shown_minutes(secs), 'm');
    let s = nonzero_piece(shown_seconds(secs), 's');
    let p = duration_pieces(secs);
    assert(p == h + m + s);
    if secs > 0 {
        if shown_hours(secs) == 0 {
            assert(after_hours(secs) == secs);
        }
    }
    assert forall|k: int| 0 <= k < p.len() implies #[trigger] p[k].len() >= 2 && p[k][0] != ' ' && p[k].last() != ' ' by {
        if k < h.len() {
            assert(p[k] == h[k]);
        } else if k < h.len() + m.len() {
            assert(p[k] == m[k - h.len()]);
        } else {
            assert(p[k] == s[k - h.len() - m.len()]);
        }
    }
}

/// A decimal notation is not empty and starts with a digit.
proof fn lemma_decimal_starts_with_digit(n: nat)
    ensures
        decimal(n).len() >= 1,
        '0' <= decimal(n)[0] <= '9',
    decreases n,
{
    if n >= 10 {
        lemma_decimal_starts_with_digit(n / 10);
        assert(decimal(n)[0] == decimal(n / 10)[0]);
    }
}

/// Joining non-empty words starts with the first word's first character and
/// ends with the last word's last character.
proof fn lemma_join_ends(parts: Seq<Seq<char>>, sep: Seq<char>)
    requires
        parts.len() > 0,
        forall|k: int| 0 <= k < parts.len() ==> #[trigger] parts[k].len() > 0,
    ensures
        join(parts, sep).len() > 0,
        join(parts, sep)[0] == parts[0][0],
        join(parts, sep).last() == parts.last().last(),
    decreases parts.len(),
{
    if parts.len() > 1 {
        let rest = parts.drop_last();
        assert forall|k: int| 0 <= k < rest.len() implies #[trigger] rest[k].len() > 0 by {
            assert(rest[k] == parts[k]);
        }
        lemma_join_ends(rest, sep);
        assert(rest[0] == parts[0]);
        assert(parts.last().len() > 0);
    }
}

/// The text of a non-negative price of `cents` hundredths of a dollar, with
/// two decimals, such as `12.05`.
pub open spec fn unsigned_price_text(cents: nat) -> Seq<char> {
    decimal(cents / 100) + seq!['.', digit_char(((cents % 100) / 10) as int), digit_char((cents % 10) as int)]
}

/// The text of a price of `cents` hundredths of a dollar, with two decimals
/// and a leading `-` when negative, such as `12.05` or `-5.00`.
pub open spec fn price_text(cents: int) -> Seq<char> {
    if cents < 0 {
        seq!['-'] + unsigned_price_text((-cents) as nat)
    } else {
        unsigned_price_text(cents as nat)
    }
}

/// A non-negative price of `100 * w + 10 * t + u` cents (with digits `t` and
/// `u`) is written as the dollars `w`, a point, and the two digits `t` and `u`;
/// a negative price is the same text after a minus sign.
pub proof fn law_price_text_dollars_and_cents(w: int, t: int, u: int)
    requires
        0 <= w,
        0 <= t < 10,
        0 <= u < 10,
    ensures
        price_text(100 * w + 10 * t + u) == decimal(w as nat) + seq!['.', digit_char(t), digit_char(u)],
        100 * w + 10 * t + u > 0 ==> price_text(-(100 * w + 10 * t + u)) == seq!['-'] + decimal(w as nat)
            + seq!['.', digit_char(t), digit_char(u)],
{
    let c: int = 100 * w + 10 * t + u;
    vstd::arithmetic::div_mod::lemma_fundamental_div_mod_converse(c, 100, w, 10 * t + u);
    vstd::arithmetic::div_mod::lemma_fundamental_div_mod_converse(10 * t + u, 10, t, u);
    vstd::arithmetic::div_mod::lemma_fundamental_div_mod_converse(c, 10, 10 * w + t, u);
    assert(seq!['-'] + decimal(w as nat) + seq!['.', digit_char(t), digit_char(u)] =~= seq!['-'] + (
    decimal(w as nat) + seq!['.', digit_char(t), digit_char(u)]));
}

/// The price texts of `items`, in order.
pub open spec fn item_prices(items: Seq<Item>) -> Seq<Seq<char>> {
    items.map_values(|item: Item| price_text(item.price_cents as int))
}

/// `words` with every word after its first occurrence left out.
pub open spec fn first_occurrences(words: Seq<Seq<char>>) -> Seq<Seq<char>>
    decreases words.len(),
{
    if words.len() == 0 {
        Seq::empty()
    } else {
        let kept = first_occurrences(words.drop_last());
        if kept.contains(words.last()) {
            kept
        } else {
            kept.push(words.last())
        }
    }
}

/// The prices listed for a deal: each distinct item price once.
pub open spec fn listed_prices(deal: Deal) -> Seq<Seq<char>> {
    first_occurrences(item_prices(deal.items@))
}

/// The first display line of a deal: its title and, in brackets, its prices
/// separated by commas.
pub open spec fn deal_headline(deal: Deal) -> Seq<char> {
    deal.title@ + seq![' ', '('] + join(listed_prices(deal), seq![',', ' ']) + seq![')']
}

/// Appends the price of `cents` hundredths of a dollar to `s`.
pub fn append_price(s: &mut String, cents: i64)
    ensures
        final(s)@ == old(s)@ + price_text(cents as int),
{
    let magnitude: u64 = if cents < 0 {
        proof {
            reveal_strlit("-");
        }
        s.append("-");
        (-(cents as i128)) as u64
    } else {
        cents as u64
    };
    let ghost signed = s@;
    append_decimal(s, magnitude / 100);
    proof {
        reveal_strlit(".");
    }
    s.append(".");
    append_digit(s, (magnitude % 100) / 10);
    append_digit(s, magnitude % 10);
    assert(s@ =~= signed + unsigned_price_text(magnitude as nat));
    assert(s@ =~= old(s)@ + price_text(cents as int));
}

/// Whether `word` is one of `words`.
fn contains_text(words: &Vec<String>, word: &String) -> (found: bool)
    ensures
        found == texts(words@).contains(word@),
{
    let n = words.len();
    for i in 0..n
        invariant
            n == words@.len(),
            forall|j: int| 0 <= j < i ==> texts(words@)[j] != word@,
    {
        if words[i] == *word {
            assert(texts(words@)[i as int] == word@);
            return true;
        }
    }
    false
}

/// The two display lines of a deal: the title with its distinct prices, and
/// the deal's url.
pub fn format_deal(d: &Deal) -> (lines: (String, String))
    ensures
        lines.0@ == deal_headline(*d),
        lines.0@ == d.title@ + seq![' ', '('] + join(listed_prices(*d), seq![',', ' ']) + seq![')'],
        lines.0@.subrange(0, d.title@.len() + 2int) == d.title@ + seq![' ', '('],
        lines.1@ == d.url@,
{
    let mut costs: Vec<String> = Vec::new();
    let n = d.items.len();
    for i in 0..n
        invariant
            n == d.items@.len(),
            texts(costs@) == first_occurrences(item_prices(d.items@).take(i as int)),
    {
        let mut cost = String::new();
        append_price(&mut cost, d.items[i].price_cents);
        assert(cost@ =~= price_text(d.items@[i as int].price_cents as int));
        let ghost seen = item_prices(d.items@).take(i as int);
        let ghost upto = item_prices(d.items@).take(i + 1);
        assert(upto.drop_last() =~= seen);
        assert(upto.last() == cost@);
        if !contains_text(&costs, &cost) {
            costs.push(cost);
            assert(texts(costs@) =~= first_occurrences(upto));
        }
    }
    assert(item_prices(d.items@).take(n as int) =~= item_prices(d.items@));
    let mut headline = d.title.clone();
    proof {
        reveal_strlit(" (");
        reveal_strlit(", ");
        reveal_strlit(")");
    }
    headline.append(" (");
    let joined = join_strings(&costs, ", ");
    assert(", "@ =~= seq![',', ' ']);
    headline.append(joined.as_str());
    headline.append(")");
    assert(headline@ =~= deal_headline(*d));
    proof {
        law_headline_starts_with_whole_title(*d);
    }
    (headline, d.url.clone())
}

/// Keeping first occurrences keeps every word and repeats none.
proof fn lemma_first_occurrences(words: Seq<Seq<char>>)
    ensures
        forall|w: Seq<char>| first_occurrences(words).contains(w) <==> words.contains(w),
        forall|i: int, j: int|
            0 <= i < j < first_occurrences(words).len() ==> first_occurrences(words)[i]
                != first_occurrences(words)[j],
    decreases words.len(),
{
    if words.len() > 0 {
        let rest = words.drop_last();
        lemma_first_occurrences(rest);
        assert forall|w: Seq<char>| rest.contains(w) || w == words.last() implies words.contains(w) by {
            if rest.contains(w) {
                let k = choose|k: int| 0 <= k < rest.len() && rest[k] == w;
                assert(words[k] == w);
            }
            if w == words.last() {
                assert(words[words.len() - 1] == w);
            }
        }
        assert forall|w: Seq<char>| words.contains(w) implies rest.contains(w) || w == words.last() by {
            let k = choose|k: int| 0 <= k < words.len() && words[k] == w;
            if k < words.len() - 1 {
                assert(rest[k] == w);
            }
        }
        let kept = first_occurrences(rest);
        if !kept.contains(words.last()) {
            let pushed = kept.push(words.last());
            assert forall|w: Seq<char>| pushed.contains(w) <==> kept.contains(w) || w == words.last() by {
                if kept.contains(w) {
                    let k = choose|k: int| 0 <= k < kept.len() && kept[k] == w;
                    assert(pushed[k] == w);
                }
                if pushed.contains(w) {
                    let k = choose|k: int| 0 <= k < pushed.len() && pushed[k] == w;
                    if k < kept.len() {
                        assert(kept[k] == w);
                    }
                }
                if w == words.last() {
                    assert(pushed[kept.len() as int] == w);
                }
            }
            assert forall|i: int, j: int| 0 <= i < j < pushed.len() implies pushed[i] != pushed[j] by {
                if j == kept.len() {
                    assert(kept[i] == pushed[i]);
                }
            }
        }
    }
}

/// Every price of a deal's items is listed, only those are, and none is
/// listed twice.
pub proof fn law_listed_prices_distinct_and_complete(deal: Deal)
    ensures
        forall|p: Seq<char>|
            listed_prices(deal).contains(p) <==> (exists|i: int|
                0 <= i < deal.items@.len() && price_text(deal.items@[i].price_cents as int) == p),
        forall|i: int, j: int|
            0 <= i < j < listed_prices(deal).len() ==> listed_prices(deal)[i] != listed_prices(deal)[j],
{
    let prices = item_prices(deal.items@);
    lemma_first_occurrences(prices);
    assert forall|p: Seq<char>|
        prices.contains(p) <==> (exists|i: int|
            0 <= i < deal.items@.len() && price_text(deal.items@[i].price_cents as int) == p) by {
        if prices.contains(p) {
            let k = choose|k: int| 0 <= k < prices.len() && prices[k] == p;
            assert(price_text(deal.items@[k].price_cents as int) == p);
        }
        if exists|i: int|
            0 <= i < deal.items@.len() && price_text(deal.items@[i].price_cents as int) == p {
            let k = choose|k: int|
                0 <= k < deal.items@.len() && price_text(deal.items@[k].price_cents as int) == p;
            assert(prices[k] == p);
        }
    }
    assert forall|p: Seq<char>|
        listed_prices(deal).contains(p) <==> (exists|i: int|
            0 <= i < deal.items@.len() && price_text(deal.items@[i].price_cents as int) == p) by {
        assert(listed_prices(deal).contains(p) <==> prices.contains(p));
    }
}

/// The headline is the whole title, then in brackets the listed prices
/// separated by commas.
pub proof fn law_headline_starts_with_whole_title(d: Deal)
    ensures
        deal_headline(d) == d.title@ + seq![' ', '('] + join(listed_prices(d), seq![',', ' ']) + seq![')'],
        deal_headline(d).subrange(0, d.title@.len() + 2int) == d.title@ + seq![' ', '('],
        deal_headline(d).last() == ')',
{
    let h = deal_headline(d);
    assert(h.subrange(0, d.title@.len() + 2int) =~= d.title@ + seq![' ', '(']);
}

/// Whether `t` nanoseconds after the Unix epoch is a time the system clock can hold
/// (whole seconds in the range of an `i64`).
pub open spec fn is_clock_time(t: int) -> bool {
    i64::MIN * 1_000_000_000 <= t <= i64::MAX * 1_000_000_000 + 999_999_999
}

/// The state of a watch, as numbers and text.
pub struct WatcherView {
    /// The id of the last deal shown (empty before the first).
    pub last_id: Seq<char>,
    /// When the next request is due, in nanoseconds since the Unix epoch.
    pub next_request_nanos: int,
    /// The time between two requests, in seconds.
    pub interval_secs: nat,
}

/// Whether a request is due at time `now`.
pub open spec fn is_due(v: WatcherView, now: int) -> bool {
    now >= v.next_request_nanos
}

/// Whether a deal with id `id` is shown when it arrives in state `v`.
pub open spec fn shows_deal(v: WatcherView, id: Seq<char>) -> bool {
    id != v.last_id
}

/// The state after a deal with id `id` arrived at time `now`.
pub open spec fn after_deal(v: WatcherView, id: Seq<char>, now: int) -> WatcherView {
    WatcherView {
        last_id: id,
        next_request_nanos: now + v.interval_secs * 1_000_000_000,
        interval_secs: v.interval_secs,
    }
}

/// The time left at `now` until the next request of state `v`.
pub open spec fn time_left(v: WatcherView, now: int) -> int {
    v.next_request_nanos - now
}

/// What the watch loop does next.
pub enum WatchAction {
    /// Show `message` and sleep `pause_nanos` nanoseconds.
    Wait { message: String, pause_nanos: i128 },
    /// Show `message` and ask the API for the current deal.
    Fetch { message: String },
}

/// The decisions of a watch: which deal was shown last and when to ask again.
/// The loop around it reads the clock, sleeps and requests.
pub struct Watcher {
    last_id: String,
    next_request_nanos: i128,
    interval_secs: u64,
}

impl View for Watcher {
    type V = WatcherView;

    closed spec fn view(&self) -> WatcherView {
        WatcherView {
            last_id: self.last_id@,
            next_request_nanos: self.next_request_nanos as int,
            interval_secs: self.interval_secs as nat,
        }
    }
}

impl Watcher {
    #[verifier::type_invariant]
    spec fn next_request_on_clock(self) -> bool {
        is_clock_time(self.next_request_nanos as int)
    }

    /// Starts a watch at time `now_nanos` that asks every `interval_secs`
    /// seconds; the first request is due at once.
    pub fn new(now_nanos: i128, interval_secs: u64) -> (w: Watcher)
        requires
            is_clock_time(now_nanos as int),
            is_clock_time(now_nanos - interval_secs * 1_000_000_000),
        ensures
            w@ == (WatcherView {
                last_id: Seq::empty(),
                next_request_nanos: now_nanos - interval_secs * 1_000_000_000,
                interval_secs: interval_secs as nat,
            }),
            is_due(w@, now_nanos as int),
    {
        let interval_nanos: i128 = interval_secs as i128 * 1_000_000_000;
        Watcher {
            last_id: String::new(),
            next_request_nanos: now_nanos - interval_nanos,
            interval_secs,
        }
    }

    /// When the next request is due, in nanoseconds since the Unix epoch.
    pub fn next_request_nanos(&self) -> (t: i128)
        ensures
            t == self@.next_request_nanos,
    {
        self.next_request_nanos
    }

    /// What to do at time `now_nanos`: while the next request is not yet
    /// due, show when it comes (`at` is that time, written for the reader) and
    /// sleep until the countdown is next updated: each hour while more than an
    /// hour is left, each minute in the last hour; else request the deal.
    pub fn poll(&self, now_nanos: i128, at: &str) -> (action: WatchAction)
        requires
            is_clock_time(now_nanos as int),
        ensures
            !is_due(self@, now_nanos as int) ==> (action matches WatchAction::Wait { message, pause_nanos }
                && message@ == countdown_text(time_left(self@, now_nanos as int), at@)
                && pause_nanos == countdown_pause(time_left(self@, now_nanos as int))
                && 0 < pause_nanos <= time_left(self@, now_nanos as int)),
            is_due(self@, now_nanos as int) ==> (action matches WatchAction::Fetch { message }
                && message@ == "Requesting info from Meh.com"@),
            self@.next_request_nanos - now_nanos > 3_600_000_000_000 ==> (action matches WatchAction::Wait {
                message,
                pause_nanos,
            } && message@ == "checking again in "@ + decimal(
                ((self@.next_request_nanos - now_nanos) / 3_600_000_000_000) as nat,
            ) + " hours at "@ + at@ && pause_nanos == 3_600_000_000_000),
            60_000_000_000 < self@.next_request_nanos - now_nanos <= 3_600_000_000_000 ==> (
            action matches WatchAction::Wait { message, pause_nanos } && message@
                == "checking again in "@ + decimal(
                ((self@.next_request_nanos - now_nanos) / 60_000_000_000) as nat,
            ) + " minutes at "@ + at@ && pause_nanos == 60_000_000_000),
            0 < self@.next_request_nanos - now_nanos <= 60_000_000_000 ==> (action matches WatchAction::Wait {
                message,
                pause_nanos,
            } && message@ == "checking again in "@ + decimal(
                ((self@.next_request_nanos - now_nanos) / 1_000_000_000) as nat,
            ) + " s at "@ + at@ && pause_nanos == self@.next_request_nanos - now_nanos),
            self@.next_request_nanos <= now_nanos ==> action is Fetch,
    {
        proof {
            use_type_invariant(self);
        }
        if now_nanos < self.next_request_nanos {
            let step = countdown_step(self.next_request_nanos - now_nanos, at);
            WatchAction::Wait { message: step.message, pause_nanos: step.pause_nanos }
        } else {
            WatchAction::Fetch { message: String::from_str("Requesting info from Meh.com") }
        }
    }

    /// Takes in the deal fetched at time `now_nanos`: returns its two display
    /// lines when its id differs from the last deal shown, and schedules the
    /// next request one interval later.
    pub fn on_deal(&mut self, deal: &Deal, now_nanos: i128) -> (shown: Option<(String, String)>)
        requires
            is_clock_time(now_nanos as int),
            is_clock_time(now_nanos + old(self)@.interval_secs * 1_000_000_000),
        ensures
            shown is Some <==> shows_deal(old(self)@, deal.id@),
            shown matches Some(lines) ==> lines.0@ == deal_headline(*deal) && lines.1@ == deal.url@,
            final(self)@ == after_deal(old(self)@, deal.id@, now_nanos as int),
            shown is Some <==> deal.id@ != old(self)@.last_id,
            shown matches Some(lines) ==> lines.0@ == deal.title@ + seq![' ', '('] + join(
                listed_prices(*deal),
                seq![',', ' '],
            ) + seq![')'] && lines.1@ == deal.url@,
            final(self)@.last_id == deal.id@,
            final(self)@.next_request_nanos == now_nanos + old(self)@.interval_secs * 1_000_000_000,
            final(self)@.interval_secs == old(self)@.interval_secs,
    {
        proof {
            use_type_invariant(&*self);
        }
        let shown = if deal.id == self.last_id {
            None
        } else {
            let lines = format_deal(deal);
            self.last_id = deal.id.clone();
            Some(lines)
        };
        let interval_nanos: i128 = self.interval_secs as i128 * 1_000_000_000;
        self.next_request_nanos = now_nanos + interval_nanos;
        shown
    }
}

/// A deal is shown exactly when its id differs from the last one shown, and
/// afterwards it is the last one shown.
pub proof fn law_deal_shown_iff_new_id(v: WatcherView, id: Seq<char>, now: int)
    ensures
        shows_deal(v, id) <==> id != v.last_id,
        after_deal(v, id, now).last_id == id,
        after_deal(v, id, now).interval_secs == v.interval_secs,
        after_deal(v, id, now).next_request_nanos == now + v.interval_secs * 1_000_000_000,
{
}

/// A deal that arrives twice in a row is shown only the first time.
pub proof fn law_same_deal_shown_once(v: WatcherView, id: Seq<char>, now: int)
    ensures
        !shows_deal(after_deal(v, id, now), id),
{
}

/// After a deal arrives at `now`, no request is due before a full interval has
/// passed, and one is due when it has.
pub proof fn law_requests_an_interval_apart(v: WatcherView, id: Seq<char>, now: int, later: int)
    requires
        now <= later,
    ensures
        is_due(after_deal(v, id, now), later) <==> later >= now + v.interval_secs * 1_000_000_000,
{
}

} // verus!
