//! What each poll and each request decides: the messages to send, oldest
//! first, and what to remember for the next poll. Fetching the pages and
//! sending the messages are left to the caller.

use vstd::prelude::*;
use vstd::string::*;

verus! {

use crate::timm::calls::{
    call_is_today,
    call_text,
    calls_view,
    cursor_view,
    new_calls,
    new_calls_at,
    CallView,
    PhoneCall,
};
use crate::timm::html::texts_of;
use crate::timm::stats::{speed_text, stats_text, LineSpeed, LineStats};

/// The messages on `calls` (newest first) at `now`, oldest first.
pub open spec fn messages_oldest_first(calls: Seq<CallView>, now: int) -> Seq<Seq<char>> {
    Seq::new(calls.len(), |k: int| call_text(calls[calls.len() - 1 - k], now))
}

fn call_messages(calls: &Vec<PhoneCall>, now: i64) -> (r: Vec<String>)
    ensures
        texts_of(r@) == messages_oldest_first(calls_view(calls@), now as int),
{
    let ghost all = messages_oldest_first(calls_view(calls@), now as int);
    let n = calls.len();
    let mut out: Vec<String> = Vec::new();
    let mut i: usize = n;
    while i > 0
        invariant
            n == calls@.len(),
            i <= n,
            all == messages_oldest_first(calls_view(calls@), now as int),
            texts_of(out@) == all.take(n - i),
        decreases i,
    {
        i = i - 1;
        let m = calls[i].message_at(now);
        let ghost prev = texts_of(out@);
        out.push(m);
        assert(calls_view(calls@)[i as int] == calls@[i as int]@);
        assert(texts_of(out@) =~= prev + seq![m@]);
        assert(all.take(n - i) =~= all.take(n - i - 1) + seq![all[n - 1 - i]]);
    }
    assert(all.take(n as int) =~= all);
    out
}

/// The calls that a poll finds new: none where the fetch or the parse
/// failed.
pub open spec fn poll_new(last: Option<CallView>, fetched: Option<Seq<CallView>>, now: int) -> Option<
    Seq<CallView>,
> {
    match fetched {
        Some(calls) => new_calls(last, calls, now),
        None => None,
    }
}

/// The call to remember after a poll that found `found`: the newest call
/// found, or the one remembered before where none was found.
pub open spec fn next_cursor(last: Option<CallView>, found: Option<Seq<CallView>>) -> Option<
    CallView,
> {
    match found {
        Some(v) => if v.len() > 0 {
            Some(v[0])
        } else {
            last
        },
        None => last,
    }
}

/// The messages that a poll that found `found` sends, oldest call first.
pub open spec fn poll_messages(found: Option<Seq<CallView>>, now: int) -> Seq<Seq<char>> {
    match found {
        Some(v) => messages_oldest_first(v, now),
        None => seq![],
    }
}

/// The view of what a fetch of the call log gave.
pub open spec fn fetched_view(fetched: Option<Vec<PhoneCall>>) -> Option<Seq<CallView>> {
    match fetched {
        Some(v) => Some(calls_view(v@)),
        None => None,
    }
}

/// Watches the call log for new calls.
pub struct CallMonitor {
    /// The newest call reported so far.
    pub last_call: Option<PhoneCall>,
}

impl CallMonitor {
    /// A monitor that has reported nothing yet.
    pub fn new() -> (r: CallMonitor)
        ensures
            r.last_call is None,
    {
        CallMonitor { last_call: None }
    }

    /// One poll of the call log at `now`. `fetched` is the list of calls the
    /// page gave, newest first, or `None` where it could not be fetched or
    /// parsed. Gives the messages on the new calls, oldest first, and
    /// remembers the newest call found; a failed poll changes nothing.
    pub fn step(&mut self, fetched: Option<Vec<PhoneCall>>, now: i64) -> (r: Vec<String>)
        ensures
            texts_of(r@) == poll_messages(
                poll_new(cursor_view(old(self).last_call), fetched_view(fetched), now as int),
                now as int,
            ),
            cursor_view(final(self).last_call) == next_cursor(
                cursor_view(old(self).last_call),
                poll_new(cursor_view(old(self).last_call), fetched_view(fetched), now as int),
            ),
    {
        match fetched {
            None => {
                let r: Vec<String> = Vec::new();
                assert(texts_of(r@) =~= seq![]);
                r
            },
            Some(calls) => match new_calls_at(&self.last_call, calls, now) {
                None => {
                    let r: Vec<String> = Vec::new();
                    assert(texts_of(r@) =~= seq![]);
                    r
                },
                Some(found) => {
                    let mut found = found;
                    let messages = call_messages(&found, now);
                    if found.len() > 0 {
                        let newest = found.swap_remove(0);
                        self.last_call = Some(newest);
                    }
                    messages
                },
            },
        }
    }
}

/// The message on a change of the external address.
pub open spec fn ip_text(ip: Seq<char>) -> Seq<char> {
    "IP is "@ + ip
}

/// Watches the line's statistics for changes of category or address.
pub struct SpeedMonitor {
    pub last_speed: LineSpeed,
    pub last_ip: String,
}

impl SpeedMonitor {
    /// A monitor that takes the line as normal and knows no address yet.
    pub fn new() -> (r: SpeedMonitor)
        ensures
            r.last_speed == LineSpeed::Normal,
            r.last_ip@ == Seq::<char>::empty(),
    {
        SpeedMonitor { last_speed: LineSpeed::Normal, last_ip: String::new() }
    }

    /// One poll of the home page. `fetched` is what the page gave, or `None`
    /// where it could not be fetched or parsed, which changes nothing. Gives
    /// a message where the category changed and one where the address
    /// changed, in that order, and remembers both.
    pub fn step(&mut self, fetched: Option<LineStats>) -> (r: Vec<String>)
        ensures
            fetched is None ==> texts_of(r@) == Seq::<Seq<char>>::empty() && final(self).last_speed
                == old(self).last_speed && final(self).last_ip@ == old(self).last_ip@,
            fetched matches Some(s) ==> texts_of(r@) == (if s.speed != old(self).last_speed {
                seq![speed_text(s.speed)]
            } else {
                Seq::<Seq<char>>::empty()
            }) + (if s.ip@ != old(self).last_ip@ {
                seq![ip_text(s.ip@)]
            } else {
                Seq::<Seq<char>>::empty()
            }) && final(self).last_speed == s.speed && final(self).last_ip@ == s.ip@,
    {
        let mut r: Vec<String> = Vec::new();
        match fetched {
            None => {
                assert(texts_of(r@) =~= Seq::<Seq<char>>::empty());
            },
            Some(stats) => {
                let ghost speed_part = if stats.speed != self.last_speed {
                    seq![speed_text(stats.speed)]
                } else {
                    Seq::<Seq<char>>::empty()
                };
                if stats.speed != self.last_speed {
                    r.push(stats.speed.to_string());
                    self.last_speed = stats.speed;
                }
                assert(texts_of(r@) =~= speed_part);
                if stats.ip != self.last_ip {
                    let mut m = String::from_str("IP is ");
                    m.append(stats.ip.as_str());
                    r.push(m);
                    self.last_ip = stats.ip;
                    assert(texts_of(r@) =~= speed_part + seq![ip_text(self.last_ip@)]);
                } else {
                    assert(texts_of(r@) =~= speed_part + Seq::<Seq<char>>::empty());
                }
            },
        }
        r
    }
}

/// The reply where the call log holds no call.
pub open spec fn no_calls_text() -> Seq<char> {
    "There are no recent calls in memory -- was the modem recently rebooted?"@
}

/// The reply where the call log could not be fetched.
pub open spec fn fetch_problem_text() -> Seq<char> {
    "Problem getting latest calls!"@
}

/// The replies to a request for every call in the log: the messages on the
/// calls, oldest first, or a note where there are none or the fetch failed.
pub fn all_calls_replies(fetched: Option<Vec<PhoneCall>>, now: i64) -> (r: Vec<String>)
    ensures
        texts_of(r@) == match fetched {
            None => seq![fetch_problem_text()],
            Some(v) => if v@.len() == 0 {
                seq![no_calls_text()]
            } else {
                messages_oldest_first(calls_view(v@), now as int)
            },
        },
{
    match fetched {
        None => {
            let r = vec![String::from_str("Problem getting latest calls!")];
            assert(texts_of(r@) =~= seq![fetch_problem_text()]);
            r
        },
        Some(calls) => {
            if calls.len() == 0 {
                let r = vec![
                    String::from_str(
                        "There are no recent calls in memory -- was the modem recently rebooted?",
                    ),
                ];
                assert(texts_of(r@) =~= seq![no_calls_text()]);
                r
            } else {
                call_messages(&calls, now)
            }
        },
    }
}

/// The calls of `calls` that lie less than a whole day away from `now`, in
/// their order.
pub open spec fn todays_calls(calls: Seq<CallView>, now: int) -> Seq<CallView>
    decreases calls.len(),
{
    if calls.len() == 0 {
        seq![]
    } else {
        let rest = todays_calls(calls.drop_first(), now);
        if call_is_today(calls[0].1 as int, now) {
            seq![calls[0]] + rest
        } else {
            rest
        }
    }
}

/// The replies to a request for today's calls: the messages on the calls of
/// the last day, oldest first, or a note where there are none (a failed fetch
/// counts as an empty log).
pub fn todays_calls_replies(fetched: Option<Vec<PhoneCall>>, now: i64) -> (r: Vec<String>)
    ensures
        ({
            let today = match fetched {
                Some(v) => todays_calls(calls_view(v@), now as int),
                None => seq![],
            };
            texts_of(r@) == if today.len() == 0 {
                seq![no_calls_text()]
            } else {
                messages_oldest_first(today, now as int)
            }
        }),
{
    let mut rest = match fetched {
        Some(v) => v,
        None => Vec::new(),
    };
    let ghost all = todays_calls(calls_view(rest@), now as int);
    let mut today: Vec<PhoneCall> = Vec::new();
    assert(calls_view(today@) + todays_calls(calls_view(rest@), now as int) =~= all);
    while rest.len() > 0
        invariant
            calls_view(today@) + todays_calls(calls_view(rest@), now as int) == all,
        decreases rest.len(),
    {
        let ghost before = calls_view(rest@);
        let call = rest.remove(0);
        assert(before.drop_first() =~= calls_view(rest@));
        if call.is_today_at(now) {
            today.push(call);
            assert(calls_view(today@) =~= calls_view(today@.drop_last()) + seq![call@]);
        }
    }
    assert(todays_calls(calls_view(rest@), now as int) =~= seq![]);
    assert(calls_view(today@) + seq![] =~= calls_view(today@));
    if today.len() == 0 {
        let r = vec![
            String::from_str("There are no recent calls in memory -- was the modem recently rebooted?"),
        ];
        assert(texts_of(r@) =~= seq![no_calls_text()]);
        r
    } else {
        call_messages(&today, now)
    }
}

/// The replies to a request for the line's statistics: the report, or none
/// where the page could not be fetched or parsed.
pub fn speed_replies(fetched: Option<LineStats>) -> (r: Vec<String>)
    ensures
        texts_of(r@) == match fetched {
            Some(s) => seq![stats_text(s@)],
            None => Seq::<Seq<char>>::empty(),
        },
{
    match fetched {
        Some(stats) => {
            let r = vec![stats.to_string()];
            assert(texts_of(r@) =~= seq![stats_text(stats@)]);
            r
        },
        None => {
            let r: Vec<String> = Vec::new();
            assert(texts_of(r@) =~= Seq::<Seq<char>>::empty());
            r
        },
    }
}

/// The reply to a request to reboot the modem, by whether the router took the
/// request.
pub fn reboot_reply(rebooted: bool) -> (r: String)
    ensures
        r@ == if rebooted {
            "The modem should be rebooting."@
        } else {
            "The modem might be rebooting."@
        },
{
    if rebooted {
        String::from_str("The modem should be rebooting.")
    } else {
        String::from_str("The modem might be rebooting.")
    }
}

} // verus!
