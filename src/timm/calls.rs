//! Phone calls read from the router's call log.

use vstd::prelude::*;
use vstd::string::*;

verus! {

use crate::timm::clock::{format_time, now_stamp, parse_time, time_in, time_text, whole_units};
use crate::timm::html::{cell_texts, cell_texts_in, texts_of};

/// A call, as its caller and the second at which it came (see `clock`).
pub type CallView = (Seq<char>, i64);

/// A call that came in, as the router's call log lists it.
#[derive(Eq, Debug, Clone)]
pub struct PhoneCall {
    pub who: String,
    /// Seconds from 1970-01-01 00:00:00 to the router's local time of the call.
    pub when: i64,
}

impl View for PhoneCall {
    type V = CallView;

    open spec fn view(&self) -> CallView {
        (self.who@, self.when)
    }
}

impl PartialEq for PhoneCall {
    fn eq(&self, other: &PhoneCall) -> (r: bool) {
        self.when == other.when && self.who == other.who
    }
}

impl vstd::std_specs::cmp::PartialEqSpecImpl for PhoneCall {
    open spec fn obeys_eq_spec() -> bool {
        true
    }

    open spec fn eq_spec(&self, other: &PhoneCall) -> bool {
        self@ == other@
    }
}

/// The views of a list of calls, in order.
pub open spec fn calls_view(v: Seq<PhoneCall>) -> Seq<CallView> {
    v.map_values(|c: PhoneCall| c@)
}

/// How many minutes at most a call may lie back for a first poll to report it.
pub const RECENT_MINUTES: i64 = 20;

/// Whether a call at `when` lies at most `RECENT_MINUTES` whole minutes back
/// at `now` (a call in the future counts as recent).
pub open spec fn call_is_recent(when: int, now: int) -> bool {
    whole_units(now - when, 60) <= RECENT_MINUTES
}

/// Whether a call at `when` lies less than a whole day away from `now`.
pub open spec fn call_is_today(when: int, now: int) -> bool {
    whole_units(now - when, 86_400) == 0
}

/// Whether a call at `when` lies more than an hour back at `now`.
pub open spec fn call_is_aged(when: int, now: int) -> bool {
    now - when > 3600
}

/// The format of the times in the call log.
pub open spec fn call_time_format() -> Seq<char> {
    "%H:%M:%S - %d:%m:%Y"@
}

/// The format of the time in the message on an aged call.
pub open spec fn phrase_format() -> Seq<char> {
    "around %l%P on %-d %b"@
}

/// The call that a row of the log gives: its first cell names the caller and
/// its fourth holds the time. None where the row is shorter or the time does
/// not parse.
pub open spec fn call_from_row(row: Seq<Seq<char>>) -> Option<CallView> {
    if row.len() < 4 {
        None
    } else {
        match time_in(row[3], call_time_format()) {
            Some(when) => Some((row[0], when)),
            None => None,
        }
    }
}

/// The first line of the message on a call.
pub open spec fn call_line(who: Seq<char>) -> Seq<char> {
    "\u{260e}\u{fe0f} "@ + who
}

/// The message on a call at `now`: the caller, and for a call more than an
/// hour back a second line that tells roughly when it came.
pub open spec fn call_text(c: CallView, now: int) -> Seq<char> {
    if call_is_aged(c.1 as int, now) && time_text(c.1, phrase_format()) is Some {
        call_line(c.0) + "\n\u{1f449} "@ + time_text(c.1, phrase_format())->0
    } else {
        call_line(c.0)
    }
}

impl PhoneCall {
    /// Whether the call lies at most `RECENT_MINUTES` whole minutes before
    /// `now`.
    pub fn is_recent_at(&self, now: i64) -> (r: bool)
        ensures
            r == call_is_recent(self.when as int, now as int),
    {
        let d: i128 = now as i128 - self.when as i128;
        if d >= 0 {
            d / 60 <= RECENT_MINUTES as i128
        } else {
            true
        }
    }

    /// Whether the call lies at most `RECENT_MINUTES` whole minutes back, by
    /// the clock of this machine.
    pub fn is_recent(&self) -> (r: bool)
        ensures
            exists|now: i64| r == call_is_recent(self.when as int, now as int),
    {
        let now = now_stamp();
        self.is_recent_at(now)
    }

    /// Whether the call lies less than a whole day away from `now`.
    pub fn is_today_at(&self, now: i64) -> (r: bool)
        ensures
            r == call_is_today(self.when as int, now as int),
    {
        let d: i128 = now as i128 - self.when as i128;
        if d >= 0 {
            d / 86_400 == 0
        } else {
            (-d) / 86_400 == 0
        }
    }

    /// Whether the call lies less than a whole day away, by the clock of this
    /// machine.
    pub fn is_today(&self) -> (r: bool)
        ensures
            exists|now: i64| r == call_is_today(self.when as int, now as int),
    {
        let now = now_stamp();
        self.is_today_at(now)
    }

    /// The message on this call at `now`.
    pub fn message_at(&self, now: i64) -> (r: String)
        ensures
            r@ == call_text(self@, now as int),
    {
        let mut r = String::from_str("\u{260e}\u{fe0f} ");
        r.append(self.who.as_str());
        let d: i128 = now as i128 - self.when as i128;
        if d > 3600 {
            match format_time(self.when, "around %l%P on %-d %b") {
                Some(phrase) => {
                    r.append("\n\u{1f449} ");
                    r.append(phrase.as_str());
                },
                None => {},
            }
        }
        r
    }

    /// The message on this call, by the clock of this machine.
    pub fn to_string(&self) -> (r: String)
        ensures
            exists|now: i64| r@ == call_text(self@, now as int),
    {
        let now = now_stamp();
        self.message_at(now)
    }
}

/// Reads a call out of the texts of a row of the call log (see
/// `call_from_row`); `Err` where the row is too short or its time does not
/// parse.
impl<'a> TryFrom<&'a [String]> for PhoneCall {
    type Error = ();

    fn try_from(value: &'a [String]) -> Result<Self, Self::Error> {
        if value.len() < 4 {
            return Err(());
        }
        match parse_time(value[3].as_str(), "%H:%M:%S - %d:%m:%Y") {
            Some(when) => Ok(PhoneCall { who: value[0].clone(), when }),
            None => Err(()),
        }
    }
}

impl<'a> vstd::std_specs::convert::TryFromSpecImpl<&'a [String]> for PhoneCall {
    open spec fn obeys_try_from_spec() -> bool {
        true
    }

    open spec fn try_from_spec(v: &'a [String]) -> Result<Self, ()> {
        match call_from_row(texts_of(v@)) {
            Some((_, when)) => Ok(PhoneCall { who: v@[0], when }),
            None => Err(()),
        }
    }
}

/// The marker of an incoming call, in the third cell of a row.
pub open spec fn incoming_marker() -> Seq<char> {
    "Ingresso"@
}

/// The incoming calls that the cells of the call log give, in their order.
/// The cells make rows of five; cells left over after the last full row are
/// dropped, as are rows that are not marked incoming and rows whose time does
/// not parse.
pub open spec fn incoming_calls(cells: Seq<Seq<char>>) -> Seq<CallView>
    decreases cells.len(),
{
    if cells.len() < 5 {
        seq![]
    } else {
        let row = cells.take(5);
        let rest = incoming_calls(cells.skip(5));
        if row[2] == incoming_marker() && call_from_row(row) is Some {
            seq![call_from_row(row)->0] + rest
        } else {
            rest
        }
    }
}

/// Parsing rows one after another: the calls of cells that start with whole
/// rows are the calls of those rows followed by the calls of the rest.
pub proof fn lemma_incoming_calls_split(front: Seq<Seq<char>>, back: Seq<Seq<char>>)
    requires
        front.len() % 5 == 0,
    ensures
        incoming_calls(front + back) == incoming_calls(front) + incoming_calls(back),
    decreases front.len(),
{
    if front.len() == 0 {
        assert(front + back =~= back);
        assert(incoming_calls(front) =~= seq![]);
    } else {
        let all = front + back;
        assert(all.take(5) =~= front.take(5));
        assert(all.skip(5) =~= front.skip(5) + back);
        lemma_incoming_calls_split(front.skip(5), back);
    }
}

/// A row whose time does not parse takes nothing away from the rows around
/// it: the calls of the cells are those of the rows before it followed by
/// those of the rows after it.
pub proof fn lemma_bad_row_skipped(
    before: Seq<Seq<char>>,
    row: Seq<Seq<char>>,
    after: Seq<Seq<char>>,
)
    requires
        before.len() % 5 == 0,
        row.len() == 5,
        time_in(row[3], call_time_format()) is None,
    ensures
        incoming_calls(before + row + after) == incoming_calls(before) + incoming_calls(after),
{
    lemma_incoming_calls_split(before, row + after);
    assert(before + row + after =~= before + (row + after));
    let cells = row + after;
    assert(cells.take(5) =~= row);
    assert(cells.skip(5) =~= after);
}

/// Whether row `j` of the cells (cells `5j` to `5j + 4`) is marked incoming
/// and gives the call `c`: its caller is the row's first cell and its time is
/// read out of the row's fourth.
pub open spec fn row_gives(cells: Seq<Seq<char>>, j: int, c: CallView) -> bool {
    &&& 0 <= j
    &&& 5 * j + 5 <= cells.len()
    &&& cells[5 * j + 2] == incoming_marker()
    &&& cells[5 * j] == c.0
    &&& time_in(cells[5 * j + 3], call_time_format()) == Some(c.1)
}

proof fn lemma_call_from_row(cells: Seq<Seq<char>>, k: int)
    requires
        0 <= k < incoming_calls(cells).len(),
    ensures
        exists|j: int| #[trigger] row_gives(cells, j, incoming_calls(cells)[k]),
    decreases cells.len(),
{
    let tail = cells.skip(5);
    let row = cells.take(5);
    let calls = incoming_calls(cells);
    let rest = incoming_calls(tail);
    if row[2] == incoming_marker() && call_from_row(row) is Some && k == 0 {
        assert(row_gives(cells, 0, calls[k]));
    } else {
        let i = if row[2] == incoming_marker() && call_from_row(row) is Some {
            k - 1
        } else {
            k
        };
        assert(calls[k] == rest[i]);
        lemma_call_from_row(tail, i);
        let j = choose|j: int| #[trigger] row_gives(tail, j, rest[i]);
        assert(5 * (j + 1) == 5 * j + 5);
        assert(row_gives(cells, j + 1, calls[k]));
    }
}

/// A call read from the log comes from an incoming row, and its message at a
/// fixed `now` is decided by that `now` alone: where the call lies more than an
/// hour back (and chrono can write its time) the message is the caller's line
/// followed by the line that tells when it came, and otherwise the caller's
/// line alone.
pub proof fn lemma_parsed_call_message(cells: Seq<Seq<char>>, k: int, now: int)
    requires
        0 <= k < incoming_calls(cells).len(),
    ensures
        exists|j: int| #[trigger] row_gives(cells, j, incoming_calls(cells)[k]),
        ({
            let c = incoming_calls(cells)[k];
            &&& call_is_aged(c.1 as int, now) ==> match time_text(c.1, phrase_format()) {
                Some(p) => call_text(c, now) == call_line(c.0) + "\n\u{1f449} "@ + p,
                None => call_text(c, now) == call_line(c.0),
            }
            &&& !call_is_aged(c.1 as int, now) ==> call_text(c, now) == call_line(c.0)
        }),
{
    lemma_call_from_row(cells, k);
}

/// The incoming calls that the texts of the call log's cells give (see
/// `incoming_calls`).
pub fn calls_from_cells(cells: &Vec<String>) -> (r: Vec<PhoneCall>)
    ensures
        calls_view(r@) == incoming_calls(texts_of(cells@)),
{
    let ghost texts = texts_of(cells@);
    let marker = String::from_str("Ingresso");
    let n = cells.len();
    let mut out: Vec<PhoneCall> = Vec::new();
    let mut i: usize = 0;
    assert(texts.skip(0) =~= texts);
    assert(calls_view(out@) + incoming_calls(texts) =~= incoming_calls(texts));
    while n - i >= 5
        invariant
            n == cells@.len(),
            texts == texts_of(cells@),
            marker@ == incoming_marker(),
            i <= n,
            calls_view(out@) + incoming_calls(texts.skip(i as int)) == incoming_calls(texts),
        decreases n - i,
    {
        let ghost rest = texts.skip(i as int);
        let ghost row = rest.take(5);
        assert(rest.skip(5) =~= texts.skip(i + 5));
        let slice = &cells.as_slice()[i..i + 5];
        assert(texts_of(slice@) =~= row);
        if cells[i + 2] == marker {
            match PhoneCall::try_from(slice) {
                Ok(call) => {
                    out.push(call);
                    assert(calls_view(out@) =~= calls_view(out@.drop_last()) + seq![call@]);
                    assert(calls_view(out@) + incoming_calls(texts.skip(i + 5)) =~= calls_view(
                        out@.drop_last(),
                    ) + incoming_calls(rest));
                },
                Err(_) => {},
            }
        }
        i = i + 5;
    }
    assert(incoming_calls(texts.skip(i as int)) =~= seq![]);
    assert(calls_view(out@) + seq![] =~= calls_view(out@));
    out
}

/// The cells of the call log's table.
pub open spec fn calls_selector() -> Seq<char> {
    "table.edittable > tr > td.fontSize"@
}

/// Reads the incoming calls out of the router's call log page, newest first
/// as the page lists them. `None` where the page cannot be loaded.
pub fn calls_from_html(html: &str) -> (r: Option<Vec<PhoneCall>>)
    ensures
        r is None <==> cell_texts_in(html@, calls_selector()) is None,
        r matches Some(v) ==> cell_texts_in(html@, calls_selector()) matches Some(texts)
            && calls_view(v@) == incoming_calls(texts),
{
    match cell_texts(html, "table.edittable > tr > td.fontSize") {
        Some(cells) => Some(calls_from_cells(&cells)),
        None => None,
    }
}

/// The view of a remembered call, if any.
pub open spec fn cursor_view(last: Option<PhoneCall>) -> Option<CallView> {
    match last {
        Some(c) => Some(c@),
        None => None,
    }
}

/// The view of a list of calls, if any.
pub open spec fn calls_view_opt(calls: Option<Vec<PhoneCall>>) -> Option<Seq<CallView>> {
    match calls {
        Some(v) => Some(calls_view(v@)),
        None => None,
    }
}

/// Where the first call equal to `x` stands in `calls`; `calls.len()` where
/// there is none.
pub open spec fn first_at(calls: Seq<CallView>, x: CallView) -> nat
    decreases calls.len(),
{
    if calls.len() == 0 || calls[0] == x {
        0
    } else {
        1 + first_at(calls.drop_first(), x)
    }
}

/// The calls of `calls` that are recent at `now`, in their order.
pub open spec fn recent_calls(calls: Seq<CallView>, now: int) -> Seq<CallView>
    decreases calls.len(),
{
    if calls.len() == 0 {
        seq![]
    } else {
        let rest = recent_calls(calls.drop_first(), now);
        if call_is_recent(calls[0].1 as int, now) {
            seq![calls[0]] + rest
        } else {
            rest
        }
    }
}

/// The calls of a fresh list, newest first, that were not reported yet, given
/// the newest call reported so far. Nothing when the list is empty or its
/// newest call is the one reported last. Without a call reported so far, the
/// recent calls of the list. Otherwise the calls that stand before the
/// reported one, or the whole list where the reported call no longer occurs.
pub open spec fn new_calls(last: Option<CallView>, calls: Seq<CallView>, now: int) -> Option<
    Seq<CallView>,
> {
    if calls.len() == 0 {
        None
    } else {
        match last {
            None => Some(recent_calls(calls, now)),
            Some(x) => if calls[0] == x {
                None
            } else {
                Some(calls.take(first_at(calls, x) as int))
            },
        }
    }
}

proof fn lemma_first_at(calls: Seq<CallView>, x: CallView, i: int)
    requires
        0 <= i <= calls.len(),
        forall|k: int| 0 <= k < i ==> #[trigger] calls[k] != x,
        i == calls.len() || calls[i] == x,
    ensures
        first_at(calls, x) == i,
    decreases i,
{
    if i > 0 {
        assert(calls[0] != x);
        lemma_first_at(calls.drop_first(), x, i - 1);
    }
}

/// With a call reported before that is not the newest of the list, the new
/// calls are exactly those before its first occurrence, and all of the list
/// where it no longer occurs.
pub proof fn lemma_new_calls_since(x: CallView, calls: Seq<CallView>, now: int)
    requires
        calls.len() > 0,
        calls[0] != x,
    ensures
        forall|i: int|
            0 <= i < calls.len() && #[trigger] calls[i] == x && (forall|k: int|
                0 <= k < i ==> calls[k] != x) ==> new_calls(Some(x), calls, now) == Some(
                calls.take(i),
            ),
        (forall|k: int| 0 <= k < calls.len() ==> calls[k] != x) ==> new_calls(Some(x), calls, now)
            == Some(calls),
{
    assert forall|i: int|
        0 <= i < calls.len() && #[trigger] calls[i] == x && (forall|k: int|
            0 <= k < i ==> calls[k] != x) implies new_calls(Some(x), calls, now) == Some(
        calls.take(i),
    ) by {
        lemma_first_at(calls, x, i);
    }
    if forall|k: int| 0 <= k < calls.len() ==> calls[k] != x {
        lemma_first_at(calls, x, calls.len() as int);
        assert(calls.take(calls.len() as int) =~= calls);
    }
}

/// The calls of `phone_calls` (newest first) that were not reported yet at
/// `now`, given the newest call reported so far (see `new_calls`); `None`
/// when there is nothing to report.
pub fn new_calls_at(last_call: &Option<PhoneCall>, phone_calls: Vec<PhoneCall>, now: i64) -> (r:
    Option<Vec<PhoneCall>>)
    ensures
        calls_view_opt(r) == new_calls(cursor_view(*last_call), calls_view(phone_calls@), now as int),
{
    let ghost all = calls_view(phone_calls@);
    if phone_calls.len() == 0 {
        return None;
    }
    match last_call {
        None => {
            let mut rest = phone_calls;
            let mut out: Vec<PhoneCall> = Vec::new();
            assert(calls_view(out@) + recent_calls(calls_view(rest@), now as int) =~= recent_calls(
                all,
                now as int,
            ));
            while rest.len() > 0
                invariant
                    calls_view(out@) + recent_calls(calls_view(rest@), now as int) == recent_calls(
                        all,
                        now as int,
                    ),
                decreases rest.len(),
            {
                let ghost before = calls_view(rest@);
                let call = rest.remove(0);
                assert(before.drop_first() =~= calls_view(rest@));
                if call.is_recent_at(now) {
                    out.push(call);
                    assert(calls_view(out@) =~= calls_view(out@.drop_last()) + seq![call@]);
                }
            }
            assert(recent_calls(calls_view(rest@), now as int) =~= seq![]);
            assert(calls_view(out@) + seq![] =~= calls_view(out@));
            Some(out)
        },
        Some(last) => {
            if phone_calls[0] == *last {
                return None;
            }
            let n = phone_calls.len();
            let mut i: usize = 0;
            while i < n && !(phone_calls[i] == *last)
                invariant
                    n == phone_calls@.len(),
                    all == calls_view(phone_calls@),
                    i <= n,
                    forall|k: int| 0 <= k < i ==> #[trigger] all[k] != last@,
                decreases n - i,
            {
                i = i + 1;
            }
            proof {
                lemma_first_at(all, last@, i as int);
            }
            let mut found = phone_calls;
            found.truncate(i);
            assert(calls_view(found@) =~= all.take(i as int));
            Some(found)
        },
    }
}

/// The calls of `phone_calls` (newest first) that were not reported yet, by
/// the clock of this machine (see `new_calls`). Only a first poll, without a
/// call reported so far, depends on the clock.
pub fn get_new_calls(last_call: &Option<PhoneCall>, phone_calls: Vec<PhoneCall>) -> (r: Option<
    Vec<PhoneCall>,
>)
    ensures
        exists|now: i64|
            calls_view_opt(r) == new_calls(
                cursor_view(*last_call),
                calls_view(phone_calls@),
                now as int,
            ),
{
    let now = now_stamp();
    new_calls_at(last_call, phone_calls, now)
}

} // verus!
