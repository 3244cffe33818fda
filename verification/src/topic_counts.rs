//! What the topic list and the kept messages say of each other: a topic is
//! listed once, every kept message's topic is listed, and a topic's message
//! count is the number of kept messages on it. Adding a message, deleting a
//! topic and the tick keep this so.

use vstd::prelude::*;

use crate::feed::{countable, first_topic_with, flushed, has_topic, message_added, tick_effect};
use crate::monitor_keys::topic_deleted;
use crate::state::{AppState, Message, MqttMessage, count_topic, topic_bumped, without_topic};

verus! {

/// The topic list agrees with the kept messages.
pub open spec fn counts_match(s: AppState) -> bool {
    &&& forall|i: int, j: int| 0 <= i < j < s.topics@.len() ==> #[trigger] s.topics@[i].name@ != #[trigger] s.topics@[j].name@
    &&& forall|k: int| 0 <= k < s.messages@.len() ==> has_topic(s.topics@, #[trigger] s.messages@[k].topic@)
    &&& forall|i: int| 0 <= i < s.topics@.len() ==> #[trigger] s.topics@[i].msg_count as nat == count_topic(s.messages@, s.topics@[i].name@)
}

/// The state before anything is received is in agreement.
pub proof fn lemma_initial_counts(s: AppState)
    requires
        s.is_initial(),
    ensures
        counts_match(s),
{
}

proof fn lemma_count_push(msgs: Seq<Message>, m: Message, name: Seq<char>)
    ensures
        count_topic(msgs.push(m), name) == count_topic(msgs, name) + if m.topic@ == name { 1nat } else { 0nat },
{
    assert(msgs.push(m).drop_last() =~= msgs);
}

proof fn lemma_count_absent(msgs: Seq<Message>, name: Seq<char>)
    requires
        forall|k: int| 0 <= k < msgs.len() ==> (#[trigger] msgs[k]).topic@ != name,
    ensures
        count_topic(msgs, name) == 0,
    decreases msgs.len(),
{
    if msgs.len() > 0 {
        let d = msgs.drop_last();
        assert forall|k: int| 0 <= k < d.len() implies (#[trigger] d[k]).topic@ != name by {
            assert(d[k] == msgs[k]);
        }
        lemma_count_absent(d, name);
    }
}

proof fn lemma_count_without(msgs: Seq<Message>, t: Seq<char>, name: Seq<char>)
    ensures
        count_topic(without_topic(msgs, t), name) == if name == t { 0 } else { count_topic(msgs, name) },
    decreases msgs.len(),
{
    if msgs.len() > 0 {
        let d = msgs.drop_last();
        lemma_count_without(d, t, name);
        if msgs.last().topic@ != t {
            lemma_count_push(without_topic(d, t), msgs.last(), name);
        }
    }
}

proof fn lemma_without_members(msgs: Seq<Message>, t: Seq<char>)
    ensures
        forall|k: int| 0 <= k < without_topic(msgs, t).len() ==> {
            &&& (#[trigger] without_topic(msgs, t)[k]).topic@ != t
            &&& exists|j: int| 0 <= j < msgs.len() && msgs[j] == without_topic(msgs, t)[k]
        },
    decreases msgs.len(),
{
    if msgs.len() > 0 {
        let d = msgs.drop_last();
        lemma_without_members(d, t);
        let w = without_topic(msgs, t);
        let wd = without_topic(d, t);
        assert forall|k: int| 0 <= k < w.len() implies {
            &&& (#[trigger] w[k]).topic@ != t
            &&& exists|j: int| 0 <= j < msgs.len() && msgs[j] == w[k]
        } by {
            if k < wd.len() {
                assert(w[k] == wd[k]);
                let j = choose|j: int| 0 <= j < d.len() && d[j] == wd[k];
                assert(msgs[j] == d[j]);
            } else {
                assert(w[k] == msgs.last());
                assert(msgs[msgs.len() - 1] == msgs.last());
            }
        }
    }
}

/// A received message keeps the topic list in agreement with the kept
/// messages (when the topic's counters can go up, as the monitor checks).
pub proof fn lemma_message_keeps_counts(old: AppState, new: AppState, msg: MqttMessage, timestamp: String)
    requires
        counts_match(old),
        countable(old.topics@, msg.topic@),
        message_added(old, new, msg, timestamp),
    ensures
        counts_match(new),
{
    if !(old.paused || (old.selected_topic() matches Some(t) && t.name@ != msg.topic@)) {
        let m = new.messages@.last();
        assert(m.topic@ == msg.topic@) by {
            assert(new.messages@[new.messages@.len() - 1] == m);
        }
        assert forall|i: int| 0 <= i < old.topics@.len() implies #[trigger] count_topic(new.messages@, old.topics@[i].name@)
            == count_topic(old.messages@, old.topics@[i].name@) + if old.topics@[i].name@ == msg.topic@ { 1nat } else { 0nat } by {
            assert(new.messages@ =~= old.messages@.push(m));
            lemma_count_push(old.messages@, m, old.topics@[i].name@);
        }
        if has_topic(old.topics@, msg.topic@) {
            let p = choose|p: int| {
                &&& first_topic_with(old.topics@, msg.topic@, p)
                &&& new.topics@ == old.topics@.update(p, topic_bumped(old.topics@[p]))
                &&& new.selected_topic_idx == old.selected_topic_idx
                &&& new.auto_select_first == old.auto_select_first
            };
            assert forall|i: int| 0 <= i < new.topics@.len() implies #[trigger] new.topics@[i].name@ == old.topics@[i].name@ by {
                if i == p {
                    assert(new.topics@[i] == topic_bumped(old.topics@[p]));
                }
            }
            assert forall|k: int| 0 <= k < new.messages@.len() implies has_topic(new.topics@, #[trigger] new.messages@[k].topic@) by {
                if k < old.messages@.len() {
                    assert(new.messages@[k] == old.messages@[k]);
                    let i = choose|i: int| 0 <= i < old.topics@.len() && old.topics@[i].name@ == old.messages@[k].topic@;
                    assert(new.topics@[i].name@ == old.topics@[i].name@);
                } else {
                    assert(new.topics@[p].name@ == msg.topic@);
                }
            }
            assert forall|i: int| 0 <= i < new.topics@.len() implies #[trigger] new.topics@[i].msg_count as nat == count_topic(
                new.messages@,
                new.topics@[i].name@,
            ) by {
                assert(new.topics@[i].name@ == old.topics@[i].name@);
                assert(old.topics@[i].msg_count as nat == count_topic(old.messages@, old.topics@[i].name@));
                if i == p {
                    assert(new.topics@[i] == topic_bumped(old.topics@[p]));
                    assert(old.topics@[p].msg_count < u64::MAX);
                } else {
                    assert(new.topics@[i] == old.topics@[i]);
                    if old.topics@[i].name@ == msg.topic@ {
                        if i < p {
                            assert(false);
                        } else {
                            assert(old.topics@[p].name@ != old.topics@[i].name@);
                        }
                    }
                }
            }
            assert forall|i: int, j: int| 0 <= i < j < new.topics@.len() implies #[trigger] new.topics@[i].name@
                != #[trigger] new.topics@[j].name@ by {
                assert(new.topics@[i].name@ == old.topics@[i].name@);
                assert(new.topics@[j].name@ == old.topics@[j].name@);
                assert(old.topics@[i].name@ != old.topics@[j].name@);
            }
        } else {
            let n = old.topics@.len();
            let t = new.topics@.last();
            assert(new.topics@ == old.topics@.push(t));
            assert forall|k: int| 0 <= k < old.messages@.len() implies (#[trigger] old.messages@[k]).topic@ != msg.topic@ by {
                assert(has_topic(old.topics@, old.messages@[k].topic@));
            }
            lemma_count_absent(old.messages@, msg.topic@);
            assert forall|i: int| 0 <= i < n implies #[trigger] new.topics@[i] == old.topics@[i] by {}
            assert(new.topics@[n as int] == t);
            assert forall|k: int| 0 <= k < new.messages@.len() implies has_topic(new.topics@, #[trigger] new.messages@[k].topic@) by {
                if k < old.messages@.len() {
                    assert(new.messages@[k] == old.messages@[k]);
                    let i = choose|i: int| 0 <= i < old.topics@.len() && old.topics@[i].name@ == old.messages@[k].topic@;
                    assert(new.topics@[i] == old.topics@[i]);
                } else {
                    assert(new.topics@[n as int].name@ == msg.topic@);
                }
            }
            assert forall|i: int| 0 <= i < new.topics@.len() implies #[trigger] new.topics@[i].msg_count as nat == count_topic(
                new.messages@,
                new.topics@[i].name@,
            ) by {
                if i < n {
                    assert(new.topics@[i] == old.topics@[i]);
                    assert(old.topics@[i].msg_count as nat == count_topic(old.messages@, old.topics@[i].name@));
                    assert(old.topics@[i].name@ != msg.topic@);
                } else {
                    assert(count_topic(new.messages@, msg.topic@) == count_topic(old.messages@, msg.topic@) + 1) by {
                        assert(new.messages@ =~= old.messages@.push(m));
                        lemma_count_push(old.messages@, m, msg.topic@);
                    }
                }
            }
            assert forall|i: int, j: int| 0 <= i < j < new.topics@.len() implies #[trigger] new.topics@[i].name@
                != #[trigger] new.topics@[j].name@ by {
                if j < n {
                    assert(new.topics@[i] == old.topics@[i]);
                    assert(new.topics@[j] == old.topics@[j]);
                    assert(old.topics@[i].name@ != old.topics@[j].name@);
                } else {
                    assert(new.topics@[i] == old.topics@[i]);
                    assert(old.topics@[i].name@ != msg.topic@);
                }
            }
        }
    }
}

/// Deleting the focused topic keeps the topic list in agreement with the
/// kept messages.
pub proof fn lemma_delete_keeps_counts(old: AppState, new: AppState, r: Option<String>)
    requires
        counts_match(old),
        topic_deleted(old, new, r),
    ensures
        counts_match(new),
{
    match old.selected_topic() {
        None => {},
        Some(t) => {
            let idx = old.selected_topic_idx->0 as int;
            let name = t.name@;
            assert(old.topics@[idx] == t);
            lemma_without_members(old.messages@, name);
            assert forall|i: int| 0 <= i < new.topics@.len() implies #[trigger] new.topics@[i] == (if i < idx {
                old.topics@[i]
            } else {
                old.topics@[i + 1]
            }) by {}
            assert forall|i: int, j: int| 0 <= i < j < new.topics@.len() implies #[trigger] new.topics@[i].name@
                != #[trigger] new.topics@[j].name@ by {
                let a = if i < idx { i } else { i + 1 };
                let b = if j < idx { j } else { j + 1 };
                assert(new.topics@[i] == old.topics@[a]);
                assert(new.topics@[j] == old.topics@[b]);
                assert(old.topics@[a].name@ != old.topics@[b].name@);
            }
            assert forall|k: int| 0 <= k < new.messages@.len() implies has_topic(new.topics@, #[trigger] new.messages@[k].topic@) by {
                let w = without_topic(old.messages@, name);
                assert(new.messages@[k] == w[k]);
                let j = choose|j: int| 0 <= j < old.messages@.len() && old.messages@[j] == w[k];
                assert(has_topic(old.topics@, old.messages@[j].topic@));
                let i = choose|i: int| 0 <= i < old.topics@.len() && old.topics@[i].name@ == old.messages@[j].topic@;
                assert(i != idx);
                let ni = if i < idx { i } else { i - 1 };
                assert(new.topics@[ni] == old.topics@[i]);
            }
            assert forall|i: int| 0 <= i < new.topics@.len() implies #[trigger] new.topics@[i].msg_count as nat == count_topic(
                new.messages@,
                new.topics@[i].name@,
            ) by {
                let a = if i < idx { i } else { i + 1 };
                assert(new.topics@[i] == old.topics@[a]);
                assert(old.topics@[a].msg_count as nat == count_topic(old.messages@, old.topics@[a].name@));
                assert(old.topics@[a].name@ != name);
                lemma_count_without(old.messages@, name, old.topics@[a].name@);
            }
        },
    }
}

/// The tick keeps the topic list in agreement with the kept messages.
pub proof fn lemma_tick_keeps_counts(old: AppState, new: AppState)
    requires
        counts_match(old),
        tick_effect(old, new),
    ensures
        counts_match(new),
{
    if old.tick_count + 1 >= 10 {
        assert forall|i: int| 0 <= i < new.topics@.len() implies #[trigger] new.topics@[i].name@ == old.topics@[i].name@
            && new.topics@[i].msg_count == old.topics@[i].msg_count by {
            assert(new.topics@[i] == flushed(old.topics@[i], new.topics@[i].tps_history));
        }
        assert forall|k: int| 0 <= k < new.messages@.len() implies has_topic(new.topics@, #[trigger] new.messages@[k].topic@) by {
            assert(has_topic(old.topics@, old.messages@[k].topic@));
            let i = choose|i: int| 0 <= i < old.topics@.len() && old.topics@[i].name@ == old.messages@[k].topic@;
            assert(new.topics@[i].name@ == old.topics@[i].name@);
        }
        assert forall|i: int, j: int| 0 <= i < j < new.topics@.len() implies #[trigger] new.topics@[i].name@
            != #[trigger] new.topics@[j].name@ by {
            assert(new.topics@[i].name@ == old.topics@[i].name@);
            assert(new.topics@[j].name@ == old.topics@[j].name@);
        }
        assert forall|i: int| 0 <= i < new.topics@.len() implies #[trigger] new.topics@[i].msg_count as nat == count_topic(
            new.messages@,
            new.topics@[i].name@,
        ) by {
            assert(new.topics@[i].name@ == old.topics@[i].name@);
            assert(old.topics@[i].msg_count as nat == count_topic(old.messages@, old.topics@[i].name@));
        }
    }
}

/// Each second the rate of a topic is the number of messages it received in
/// that second: the tick that ends a second takes the counted messages as the
/// rate, appends it to the history, and starts the count of the next second
/// at zero; the total count is untouched.
pub proof fn lemma_second_rate_restarts(old: AppState, new: AppState)
    requires
        tick_effect(old, new),
        old.tick_count + 1 >= 10,
    ensures
        new.topics@.len() == old.topics@.len(),
        forall|i: int| 0 <= i < new.topics@.len() ==> {
            &&& (#[trigger] new.topics@[i]).tps_counter == 0
            &&& new.topics@[i].tps == old.topics@[i].tps_counter
            &&& new.topics@[i].tps_history@.last() == old.topics@[i].tps_counter
            &&& new.topics@[i].msg_count == old.topics@[i].msg_count
            &&& new.topics@[i].name == old.topics@[i].name
        },
{
    assert forall|i: int| 0 <= i < new.topics@.len() implies {
        &&& (#[trigger] new.topics@[i]).tps_counter == 0
        &&& new.topics@[i].tps == old.topics@[i].tps_counter
        &&& new.topics@[i].tps_history@.last() == old.topics@[i].tps_counter
        &&& new.topics@[i].msg_count == old.topics@[i].msg_count
        &&& new.topics@[i].name == old.topics@[i].name
    } by {
        assert(new.topics@[i] == flushed(old.topics@[i], new.topics@[i].tps_history));
        let h = old.topics@[i].tps_history@;
        let c = old.topics@[i].tps_counter;
        assert(h.push(c).last() == c);
        if h.push(c).len() > 60 {
            assert(h.push(c).drop_first().last() == c);
        }
    }
}

/// A second without a message has no rate, whatever the second before
/// counted: after the tick `a` to `b` that ends one second, the topics stay
/// as they are until `c` (no message arrives), and the tick `c` to `d` that
/// ends the next second gives every topic the rate 0.
pub proof fn lemma_quiet_second_has_no_rate(a: AppState, b: AppState, c: AppState, d: AppState)
    requires
        tick_effect(a, b),
        a.tick_count + 1 >= 10,
        c.topics == b.topics,
        tick_effect(c, d),
        c.tick_count + 1 >= 10,
    ensures
        forall|i: int| 0 <= i < d.topics@.len() ==> (#[trigger] d.topics@[i]).tps == 0,
{
    lemma_second_rate_restarts(a, b);
    lemma_second_rate_restarts(c, d);
    assert forall|i: int| 0 <= i < d.topics@.len() implies (#[trigger] d.topics@[i]).tps == 0 by {
        assert(d.topics@[i].tps == c.topics@[i].tps_counter);
        assert(c.topics@[i] == b.topics@[i]);
    }
}

} // verus!
