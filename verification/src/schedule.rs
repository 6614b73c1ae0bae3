//! The decisions of the deal monitor with alerts: how long to wait after each
//! request, the countdown it shows while waiting, and the alert text.
use vstd::prelude::*;

use crate::deal::Deal;
use crate::text::{append_decimal, decimal, join, join_strings, parse_i64, parsed_i64, texts};
use crate::timestamp::Timestamp;
use crate::watch::{append_price, item_prices, is_clock_time, price_text};

verus! {

/// One second, in nanoseconds.
pub open spec fn second_nanos() -> int {
    1_000_000_000
}

/// One minute, in nanoseconds.
pub open spec fn minute_nanos() -> int {
    60_000_000_000
}

/// One hour, in nanoseconds.
pub open spec fn hour_nanos() -> int {
    3_600_000_000_000
}

/// One day, in nanoseconds.
pub open spec fn day_nanos() -> int {
    86_400_000_000_000
}

/// Whether `d` nanoseconds is a span the time library can hold (at most
/// `i64::MAX` milliseconds either way).
pub open spec fn is_time_span(d: int) -> bool {
    -(i64::MAX * 1_000_000) <= d <= i64::MAX * 1_000_000
}

/// The countdown shown while `remaining` nanoseconds are left before the time
/// written `at`: in hours above an hour, in minutes above a minute, else in seconds.
pub open spec fn countdown_text(remaining: int, at: Seq<char>) -> Seq<char> {
    "checking again in "@ + if remaining > hour_nanos() {
        decimal((remaining / hour_nanos()) as nat) + " hours at "@ + at
    } else if remaining > minute_nanos() {
        decimal((remaining / minute_nanos()) as nat) + " minutes at "@ + at
    } else {
        decimal((remaining / second_nanos()) as nat) + " s at "@ + at
    }
}

/// How long to sleep before the countdown is shown again: it is updated each
/// hour while more than an hour remains, each minute in the last hour, and once
/// more at the end of the last minute.
pub open spec fn countdown_pause(remaining: int) -> int {
    if remaining > hour_nanos() {
        hour_nanos()
    } else if remaining > minute_nanos() {
        minute_nanos()
    } else {
        remaining
    }
}

/// Above an hour, the countdown names the whole hours left, `h` with
/// `h` hours <= remaining < `h + 1` hours, and is shown again an hour later.
pub proof fn law_countdown_counts_whole_hours(remaining: int, h: nat, at: Seq<char>)
    requires
        remaining > hour_nanos(),
        h * hour_nanos() <= remaining < (h + 1) * hour_nanos(),
    ensures
        countdown_text(remaining, at) == "checking again in "@ + decimal(h) + " hours at "@ + at,
        countdown_pause(remaining) == hour_nanos(),
{
    vstd::arithmetic::div_mod::lemma_fundamental_div_mod_converse(
        remaining,
        hour_nanos(),
        h as int,
        remaining - h * hour_nanos(),
    );
}

/// Within the last hour but above a minute, the countdown names the whole
/// minutes left and is shown again a minute later.
pub proof fn law_countdown_counts_whole_minutes(remaining: int, m: nat, at: Seq<char>)
    requires
        minute_nanos() < remaining <= hour_nanos(),
        m * minute_nanos() <= remaining < (m + 1) * minute_nanos(),
    ensures
        countdown_text(remaining, at) == "checking again in "@ + decimal(m) + " minutes at "@ + at,
        countdown_pause(remaining) == minute_nanos(),
{
    vstd::arithmetic::div_mod::lemma_fundamental_div_mod_converse(
        remaining,
        minute_nanos(),
        m as int,
        remaining - m * minute_nanos(),
    );
}

/// Within the last minute, the countdown names the whole seconds left and the
/// wait runs to the end.
pub proof fn law_countdown_counts_whole_seconds(remaining: int, sec: nat, at: Seq<char>)
    requires
        0 < remaining <= minute_nanos(),
        sec * second_nanos() <= remaining < (sec + 1) * second_nanos(),
    ensures
        countdown_text(remaining, at) == "checking again in "@ + decimal(sec) + " s at "@ + at,
        countdown_pause(remaining) == remaining,
{
    vstd::arithmetic::div_mod::lemma_fundamental_div_mod_converse(
        remaining,
        second_nanos(),
        sec as int,
        remaining - sec * second_nanos(),
    );
}

/// One step of waiting: the countdown message and how long to sleep.
pub struct SleepStep {
    pub message: String,
    pub pause_nanos: i128,
}

/// The next step of waiting while `remaining_nanos` are left until the time
/// written `at`; `None` once nothing is left.
pub fn sleep_step(remaining_nanos: i128, at: &str) -> (step: Option<SleepStep>)
    requires
        is_time_span(remaining_nanos as int),
    ensures
        step is None <==> remaining_nanos <= 0,
        step matches Some(s) ==> s.message@ == countdown_text(remaining_nanos as int, at@)
            && s.pause_nanos == countdown_pause(remaining_nanos as int),
        step matches Some(s) ==> 0 < s.pause_nanos <= remaining_nanos,
        remaining_nanos > 3_600_000_000_000 ==> (step matches Some(s)
            && s.message@ == "checking again in "@ + decimal((remaining_nanos / 3_600_000_000_000) as nat)
                + " hours at "@ + at@
            && s.pause_nanos == 3_600_000_000_000),
        60_000_000_000 < remaining_nanos <= 3_600_000_000_000 ==> (step matches Some(s)
            && s.message@ == "checking again in "@ + decimal((remaining_nanos / 60_000_000_000) as nat)
                + " minutes at "@ + at@
            && s.pause_nanos == 60_000_000_000),
        0 < remaining_nanos <= 60_000_000_000 ==> (step matches Some(s)
            && s.message@ == "checking again in "@ + decimal((remaining_nanos / 1_000_000_000) as nat)
                + " s at "@ + at@
            && s.pause_nanos == remaining_nanos),
{
    if remaining_nanos <= 0 {
        return None;
    }
    Some(countdown_step(remaining_nanos, at))
}

/// The countdown message and pause while `remaining_nanos` (more than none,
/// and at most `u64::MAX` hours) are left until the time written `at`.
pub(crate) fn countdown_step(remaining_nanos: i128, at: &str) -> (step: SleepStep)
    requires
        0 < remaining_nanos <= u64::MAX * hour_nanos(),
    ensures
        step.message@ == countdown_text(remaining_nanos as int, at@),
        step.pause_nanos == countdown_pause(remaining_nanos as int),
        0 < step.pause_nanos <= remaining_nanos,
        remaining_nanos > 3_600_000_000_000 ==> step.message@ == "checking again in "@ + decimal(
            (remaining_nanos / 3_600_000_000_000) as nat,
        ) + " hours at "@ + at@ && step.pause_nanos == 3_600_000_000_000,
        60_000_000_000 < remaining_nanos <= 3_600_000_000_000 ==> step.message@ == "checking again in "@
            + decimal((remaining_nanos / 60_000_000_000) as nat) + " minutes at "@ + at@
            && step.pause_nanos == 60_000_000_000,
        remaining_nanos <= 60_000_000_000 ==> step.message@ == "checking again in "@ + decimal(
            (remaining_nanos / 1_000_000_000) as nat,
        ) + " s at "@ + at@ && step.pause_nanos == remaining_nanos,
{
    let hour: i128 = 3_600_000_000_000;
    let minute: i128 = 60_000_000_000;
    let mut message = String::from_str("checking again in ");
    proof {
        reveal_strlit("checking again in ");
    }
    let pause: i128;
    if remaining_nanos > hour {
        append_decimal(&mut message, (remaining_nanos / hour) as u64);
        message.append(" hours at ");
        pause = hour;
    } else if remaining_nanos > minute {
        append_decimal(&mut message, (remaining_nanos / minute) as u64);
        message.append(" minutes at ");
        pause = minute;
    } else {
        append_decimal(&mut message, (remaining_nanos / 1_000_000_000) as u64);
        message.append(" s at ");
        pause = remaining_nanos;
    }
    message.append(at);
    proof {
        reveal_strlit(" hours at ");
        reveal_strlit(" minutes at ");
        reveal_strlit(" s at ");
    }
    assert(message@ =~= countdown_text(remaining_nanos as int, at@));
    SleepStep { message, pause_nanos: pause }
}

/// The time from `now` to the next midnight at UTC-5 (US Eastern Standard
/// Time), a full day when `now` is that midnight.
pub open spec fn until_midnight_eastern(now: int) -> int {
    day_nanos() - (now - 5 * hour_nanos()) % day_nanos()
}

/// Nanoseconds from `now_nanos` (since the Unix epoch) to the next midnight at UTC-5.
pub fn nanos_until_midnight_eastern(now_nanos: i128) -> (wait: i128)
    requires
        is_clock_time(now_nanos as int),
    ensures
        wait == until_midnight_eastern(now_nanos as int),
        0 < wait <= day_nanos(),
        (now_nanos + wait - 5 * hour_nanos()) % day_nanos() == 0,
{
    let day: i128 = 86_400_000_000_000;
    let local: i128 = now_nanos - 18_000_000_000_000;
    let into_day: i128 = if local >= 0 {
        ((local as u128) % (day as u128)) as i128
    } else {
        let back: u128 = ((-local) as u128) % (day as u128);
        if back == 0 {
            0
        } else {
            day - back as i128
        }
    };
    let ghost l: int = local as int;
    let ghost d: int = day_nanos();
    assert(into_day == l % d) by {
        if l < 0 {
            let q = (-l) / d;
            let b = (-l) % d;
            vstd::arithmetic::div_mod::lemma_fundamental_div_mod(-l, d);
            assert(0 <= b < d);
            if b == 0 {
                assert(l == (-q) * d + 0) by(nonlinear_arith)
                    requires -l == d * q + b, b == 0;
                vstd::arithmetic::div_mod::lemma_fundamental_div_mod_converse(l, d, -q, 0);
            } else {
                assert(l == (-q - 1) * d + (d - b)) by(nonlinear_arith)
                    requires -l == d * q + b;
                vstd::arithmetic::div_mod::lemma_fundamental_div_mod_converse(l, d, -q - 1, d - b);
            }
        } else {
            assert(into_day == l % d);
        }
    }
    let wait = day - into_day;
    assert((now_nanos + wait - 5 * hour_nanos()) % day_nanos() == 0) by {
        vstd::arithmetic::div_mod::lemma_fundamental_div_mod(l, d);
        let q = l / d;
        assert(now_nanos + wait - 5 * hour_nanos() == (q + 1) * d + 0) by(nonlinear_arith)
            requires l == d * q + l % d, into_day == l % d, wait == d - into_day,
                l == now_nanos - 5 * hour_nanos(), d == day_nanos();
        vstd::arithmetic::div_mod::lemma_fundamental_div_mod_converse(now_nanos + wait - 5 * hour_nanos(), d, q + 1, 0);
    }
    wait
}

/// The first display line of a deal in an alert or on the progress bar: its
/// title and, in brackets, the price of every item in order, separated by commas.
pub open spec fn deal_listing(deal: Deal) -> Seq<char> {
    deal.title@ + seq![' ', '('] + join(item_prices(deal.items@), seq![',', ' ']) + seq![')']
}

/// The two display lines of a deal: the title with the price of every item,
/// and the deal's url.
pub fn format_deal(d: &Deal) -> (lines: (String, String))
    ensures
        lines.0@ == deal_listing(*d),
        lines.0@ == d.title@ + seq![' ', '('] + join(
            Seq::new(d.items@.len(), |k: int| price_text(d.items@[k].price_cents as int)),
            seq![',', ' '],
        ) + seq![')'],
        lines.1@ == d.url@,
{
    let mut costs: Vec<String> = Vec::new();
    let n = d.items.len();
    for i in 0..n
        invariant
            n == d.items@.len(),
            texts(costs@) == item_prices(d.items@).take(i as int),
    {
        let mut cost = String::new();
        append_price(&mut cost, d.items[i].price_cents);
        assert(cost@ =~= price_text(d.items@[i as int].price_cents as int));
        let ghost before = texts(costs@);
        costs.push(cost);
        assert(texts(costs@) =~= before.push(price_text(d.items@[i as int].price_cents as int)));
        assert(item_prices(d.items@).take(i + 1) =~= item_prices(d.items@).take(i as int).push(
            price_text(d.items@[i as int].price_cents as int),
        ));
    }
    assert(item_prices(d.items@).take(n as int) =~= item_prices(d.items@));
    let mut listing = d.title.clone();
    proof {
        reveal_strlit(" (");
        reveal_strlit(", ");
        reveal_strlit(")");
    }
    listing.append(" (");
    let joined = join_strings(&costs, ", ");
    assert(", "@ =~= seq![',', ' ']);
    listing.append(joined.as_str());
    listing.append(")");
    assert(listing@ =~= deal_listing(*d));
    proof {
        law_listing_has_every_price_in_order(*d);
    }
    (listing, d.url.clone())
}

/// The listing is the whole title, then in brackets one price per item, in the
/// order of the items, separated by commas.
pub proof fn law_listing_has_every_price_in_order(d: Deal)
    ensures
        deal_listing(d) == d.title@ + seq![' ', '('] + join(
            Seq::new(d.items@.len(), |k: int| price_text(d.items@[k].price_cents as int)),
            seq![',', ' '],
        ) + seq![')'],
        deal_listing(d).subrange(0, d.title@.len() + 2int) == d.title@ + seq![' ', '('],
        deal_listing(d).last() == ')',
{
    assert(item_prices(d.items@) =~= Seq::new(
        d.items@.len(),
        |k: int| price_text(d.items@[k].price_cents as int),
    ));
    let l = deal_listing(d);
    assert(l.subrange(0, d.title@.len() + 2int) =~= d.title@ + seq![' ', '(']);
}

/// What an alert tells about a new deal.
#[derive(Debug, Clone, Copy, PartialEq, Eq)]
pub enum AlertKind {
    /// The whole response as JSON.
    Json,
    /// The title and the prices.
    TitlePrice,
    /// The title alone.
    Title,
}

impl AlertKind {
    /// The kind of alert named `name`: `json`, `title-price`, and the title
    /// alone for any other name.
    pub fn from_name(name: &str) -> (kind: AlertKind)
        ensures
            name@ == "json"@ ==> kind == AlertKind::Json,
            name@ == "title-price"@ ==> kind == AlertKind::TitlePrice,
            name@ != "json"@ && name@ != "title-price"@ ==> kind == AlertKind::Title,
    {
        proof {
            reveal_strlit("json");
            reveal_strlit("title-price");
        }
        assert("json"@.len() != "title-price"@.len());
        let name = String::from_str(name);
        if name == String::from_str("json") {
            AlertKind::Json
        } else if name == String::from_str("title-price") {
            AlertKind::TitlePrice
        } else {
            AlertKind::Title
        }
    }
}

/// The text an alert of kind `kind` carries for `deal`; `None` for a JSON
/// alert, which carries the whole response.
pub fn alert_text(kind: AlertKind, deal: &Deal) -> (text: Option<String>)
    ensures
        kind == AlertKind::Json <==> text is None,
        kind == AlertKind::TitlePrice ==> (text matches Some(t) && t@ == deal_listing(*deal)),
        kind == AlertKind::Title ==> (text matches Some(t) && t@ == deal.title@),
{
    match kind {
        AlertKind::Json => None,
        AlertKind::TitlePrice => Some(format_deal(deal).0),
        AlertKind::Title => Some(deal.title.clone()),
    }
}

/// `t` as nanoseconds since the Unix epoch.
pub open spec fn timestamp_nanos(t: Timestamp) -> int {
    t.unix_seconds * 1_000_000_000 + t.nanosecond
}

/// How long to wait after a new deal arrived at `now`: the interval when one
/// was given, else until the deal ends when it says when, else until midnight
/// at UTC-5.
pub open spec fn wait_after_new_deal(deal: Deal, now: int, interval: Option<i128>) -> int {
    match interval {
        Some(i) => i as int,
        None => match deal.end_date {
            Some(end) => timestamp_nanos(end) - now,
            None => until_midnight_eastern(now),
        },
    }
}

/// Whether a deal with id `id` is new to a monitor that showed `last_id` last.
pub open spec fn is_new_deal(last_id: Seq<char>, id: Seq<char>) -> bool {
    id != last_id
}

/// What to do after a request: the display lines of a new deal, if any, and
/// how long to wait before the next request.
pub struct FetchPlan {
    pub shown: Option<(String, String)>,
    pub wait_nanos: i128,
}

/// The decisions of the deal monitor: it remembers the last deal shown.
pub struct Monitor {
    /// The id of the last deal shown (empty before the first).
    pub last_id: String,
}

impl Monitor {
    /// A monitor that has shown no deal yet.
    pub fn new() -> (m: Monitor)
        ensures
            m.last_id@ == Seq::<char>::empty(),
    {
        Monitor { last_id: String::new() }
    }

    /// Takes in the result of a request made at `now_nanos` (`None` when the
    /// request or its parsing failed). A deal whose id differs from the last one
    /// shown is shown, and the wait is `wait_after_new_deal`; otherwise the next
    /// request comes a minute later.
    pub fn after_fetch(&mut self, fetched: Option<&Deal>, now_nanos: i128, interval_nanos: Option<i128>) -> (plan: FetchPlan)
        requires
            is_clock_time(now_nanos as int),
            interval_nanos matches Some(i) ==> is_time_span(i as int),
        ensures
            match fetched {
                Some(deal) => if is_new_deal(old(self).last_id@, deal.id@) {
                    &&& plan.shown matches Some(lines)
                    &&& lines.0@ == deal_listing(*deal)
                    &&& lines.1@ == deal.url@
                    &&& plan.wait_nanos == wait_after_new_deal(*deal, now_nanos as int, interval_nanos)
                    &&& final(self).last_id@ == deal.id@
                } else {
                    &&& plan.shown is None
                    &&& plan.wait_nanos == minute_nanos()
                    &&& final(self).last_id@ == old(self).last_id@
                },
                None => {
                    &&& plan.shown is None
                    &&& plan.wait_nanos == minute_nanos()
                    &&& final(self).last_id@ == old(self).last_id@
                },
            },
            match fetched {
                Some(deal) => {
                    &&& (plan.shown is Some <==> deal.id@ != old(self).last_id@)
                    &&& (deal.id@ != old(self).last_id@ ==> final(self).last_id@ == deal.id@)
                    &&& (deal.id@ != old(self).last_id@ ==> (interval_nanos matches Some(i)
                        ==> plan.wait_nanos == i))
                    &&& (deal.id@ != old(self).last_id@ && interval_nanos is None ==> (
                    deal.end_date matches Some(end) ==> plan.wait_nanos == end.unix_seconds
                        * 1_000_000_000 + end.nanosecond - now_nanos))
                    &&& (deal.id@ != old(self).last_id@ && interval_nanos is None
                        && deal.end_date is None ==> 0 < plan.wait_nanos <= 86_400_000_000_000
                        && (now_nanos + plan.wait_nanos - 18_000_000_000_000) % 86_400_000_000_000 == 0)
                    &&& (deal.id@ == old(self).last_id@ ==> plan.wait_nanos == 60_000_000_000
                        && final(self).last_id@ == old(self).last_id@)
                },
                None => plan.shown is None && plan.wait_nanos == 60_000_000_000,
            },
    {
        let minute: i128 = 60_000_000_000;
        match fetched {
            Some(deal) => {
                if deal.id == self.last_id {
                    FetchPlan { shown: None, wait_nanos: minute }
                } else {
                    let lines = format_deal(deal);
                    self.last_id = deal.id.clone();
                    let wait = match interval_nanos {
                        Some(i) => i,
                        None => match deal.end_date {
                            Some(end) => end.unix_seconds as i128 * 1_000_000_000 + end.nanosecond as i128
                                - now_nanos,
                            None => nanos_until_midnight_eastern(now_nanos),
                        },
                    };
                    FetchPlan { shown: Some(lines), wait_nanos: wait }
                }
            },
            None => FetchPlan { shown: None, wait_nanos: minute },
        }
    }
}

/// A deal is new exactly when its id differs from the last one shown.
pub proof fn law_new_deal_iff_new_id(last_id: Seq<char>, id: Seq<char>)
    ensures
        is_new_deal(last_id, id) <==> id != last_id,
{
}

/// When an interval is given, it is the wait after a new deal, whatever the
/// deal's end date.
pub proof fn law_interval_decides_wait(deal: Deal, now: int, i: i128)
    ensures
        wait_after_new_deal(deal, now, Some(i)) == i,
{
}

/// Without an interval, the wait after a new deal that says when it ends runs
/// to its end; one that does not runs to the next midnight at UTC-5, at most a day.
pub proof fn law_wait_without_interval(deal: Deal, now: int)
    ensures
        deal.end_date matches Some(end) ==> wait_after_new_deal(deal, now, None) == end.unix_seconds
            * 1_000_000_000 + end.nanosecond - now,
        deal.end_date is None ==> 0 < wait_after_new_deal(deal, now, None) <= day_nanos() && (now
            + wait_after_new_deal(deal, now, None) - 5 * hour_nanos()) % day_nanos() == 0,
{
    if deal.end_date is None {
        let q = (now - 5 * hour_nanos()) / day_nanos();
        vstd::arithmetic::div_mod::lemma_fundamental_div_mod(now - 5 * hour_nanos(), day_nanos());
        vstd::arithmetic::div_mod::lemma_fundamental_div_mod_converse(
            now + wait_after_new_deal(deal, now, None) - 5 * hour_nanos(),
            day_nanos(),
            q + 1,
            0,
        );
    }
}

/// Once a deal was shown, the same deal arriving again is not new.
pub proof fn law_monitor_shows_deal_once(id: Seq<char>)
    ensures
        !is_new_deal(id, id),
{
}

/// The interval between requests given on the command line, in milliseconds,
/// as nanoseconds; `None` when the text is not a decimal `i64`.
pub fn parse_interval(text: &str) -> (interval_nanos: Option<i128>)
    requires
        parsed_i64(text@) != Some(i64::MIN as int),
    ensures
        match parsed_i64(text@) {
            Some(ms) => interval_nanos == Some((ms * 1_000_000) as i128),
            None => interval_nanos is None,
        },
        interval_nanos matches Some(i) ==> is_time_span(i as int),
{
    match parse_i64(text) {
        Some(ms) => Some(ms as i128 * 1_000_000),
        None => None,
    }
}

} // verus!
