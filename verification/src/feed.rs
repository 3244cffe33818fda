//! How arriving data changes the monitor state: MQTT messages counted per
//! topic, the once-a-second rate flush, deleting a topic, and the Modbus
//! trend samples.

use vstd::prelude::*;

use crate::state::{
    AppState, Message, MqttMessage, TopicItem, ModbusTrendPoint, ModbusTrendSample, TrendValue,
    clone_message, history_after, topic_bumped, selection_after_delete, without_topic,
    without_string, utf8_lossy, lossy_string, value_for_address,
    numeric_display_for_address, SerialEntry,
};

verus! {


/// `p` is the first topic named `name`.
pub open spec fn first_topic_with(topics: Seq<TopicItem>, name: Seq<char>, p: int) -> bool {
    &&& 0 <= p < topics.len()
    &&& topics[p].name@ == name
    &&& forall|j: int| 0 <= j < p ==> topics[j].name@ != name
}

pub open spec fn has_topic(topics: Seq<TopicItem>, name: Seq<char>) -> bool {
    exists|i: int| 0 <= i < topics.len() && topics[i].name@ == name
}

/// The sample list after one more sample: appended, at most 120 kept.
pub open spec fn samples_after(v: Seq<ModbusTrendSample>, s: ModbusTrendSample) -> Seq<ModbusTrendSample> {
    if v.push(s).len() > 120 {
        v.push(s).drop_first()
    } else {
        v.push(s)
    }
}

/// A topic at the end of a second, with the history `h` it then holds.
pub open spec fn flushed(t: TopicItem, h: Vec<u64>) -> TopicItem {
    TopicItem { tps: t.tps_counter, tps_counter: 0, tps_history: h, ..t }
}

fn flush_topic(t: TopicItem) -> (u: TopicItem)
    ensures
        u == flushed(t, u.tps_history),
        u.tps_history@ == history_after(t.tps_history@, t.tps_counter),
{
    let mut item = t;
    item.tps = item.tps_counter;
    item.tps_counter = 0;
    item.tps_history.push(item.tps);
    if item.tps_history.len() > 60 {
        item.tps_history.remove(0);
    }
    item
}

/// The first topic named `name`, if any.
fn find_topic(topics: &Vec<TopicItem>, name: &str) -> (r: Option<usize>)
    ensures
        r matches Some(p) ==> first_topic_with(topics@, name@, p as int),
        r is None ==> !has_topic(topics@, name@),
{
    let mut i: usize = 0;
    while i < topics.len()
        invariant
            i <= topics@.len(),
            forall|j: int| 0 <= j < i ==> topics@[j].name@ != name@,
        decreases topics@.len() - i,
    {
        if crate::text::str_equal(topics[i].name.as_str(), name) {
            return Some(i);
        }
        i = i + 1;
    }
    None
}

fn bump_topic(t: TopicItem) -> (u: TopicItem)
    requires
        t.msg_count < u64::MAX,
        t.tps_counter < u64::MAX,
    ensures
        u == topic_bumped(t),
{
    let mut item = t;
    item.msg_count = item.msg_count + 1;
    item.tps_counter = item.tps_counter + 1;
    item
}

/// A point with one more sample of value `v` at `time`.
fn append_sample(p: ModbusTrendPoint, time: &str, v: TrendValue) -> (q: ModbusTrendPoint)
    ensures
        q.address == p.address,
        q.values@.len() > 0,
        q.values@.last().time_mmss@ == time@,
        q.values@.last().value == v,
        q.values@ == samples_after(p.values@, q.values@.last()),
{
    let mut point = p;
    let sample = ModbusTrendSample { time_mmss: time.to_owned(), value: v };
    let ghost s = sample;
    point.values.push(sample);
    if point.values.len() > 120 {
        point.values.remove(0);
    }
    point
}

/// Counts one message of topic `name`: bumps the first topic of that name,
/// or lists a new one (focusing it when the first topic is to be focused
/// automatically and nothing is focused).
fn record_topic(topics: &mut Vec<TopicItem>, selected: &mut Option<usize>, auto: &mut bool, name: &str)
    requires
        forall|i: int| 0 <= i < old(topics)@.len() && #[trigger] old(topics)@[i].name@ == name@
            ==> old(topics)@[i].msg_count < u64::MAX && old(topics)@[i].tps_counter < u64::MAX,
    ensures
        has_topic(old(topics)@, name@) ==> exists|p: int| {
            &&& first_topic_with(old(topics)@, name@, p)
            &&& final(topics)@ == old(topics)@.update(p, topic_bumped(old(topics)@[p]))
        },
        has_topic(old(topics)@, name@) ==> *final(selected) == *old(selected) && *final(auto) == *old(auto),
        !has_topic(old(topics)@, name@) ==> {
            &&& final(topics)@ == old(topics)@.push(final(topics)@.last())
            &&& final(topics)@.last().name@ == name@
            &&& final(topics)@.last().msg_count == 1
            &&& final(topics)@.last().tps == 0
            &&& final(topics)@.last().tps_counter == 1
            &&& final(topics)@.last().tps_history@.len() == 0
            &&& if *old(auto) && *old(selected) is None {
                *final(selected) == Some(0usize) && !*final(auto)
            } else {
                *final(selected) == *old(selected) && *final(auto) == *old(auto)
            }
        },
{
    match find_topic(topics, name) {
        Some(i) => {
            let mut item = TopicItem::new("");
            topics.set_and_swap(i, &mut item);
            let bumped = bump_topic(item);
            topics.set(i, bumped);
        },
        None => {
            let mut item = TopicItem::new(name);
            item.msg_count = 1;
            item.tps_counter = 1;
            topics.push(item);
            if *auto && selected.is_none() {
                *selected = Some(0);
                *auto = false;
            }
        },
    }
}

/// What a 100 ms tick does to the state (see `AppState::on_tick`).
pub open spec fn tick_effect(old: AppState, new: AppState) -> bool {
    &&& old.tick_count + 1 < 10 ==> new == (AppState { tick_count: (old.tick_count + 1) as u8, ..old })
    &&& old.tick_count + 1 >= 10 ==> {
        &&& new == (AppState { tick_count: 0, topics: new.topics, ..old })
        &&& new.topics@.len() == old.topics@.len()
        &&& forall|i: int| 0 <= i < old.topics@.len() ==> #[trigger] new.topics@[i] == flushed(old.topics@[i], new.topics@[i].tps_history)
        &&& forall|i: int| 0 <= i < old.topics@.len() ==> (#[trigger] new.topics@[i]).tps_history@ == history_after(
            old.topics@[i].tps_history@,
            old.topics@[i].tps_counter,
        )
    }
}

/// Whether a message on `topic` can be counted: the counters of a topic of
/// that name are below their maximum.
pub open spec fn countable(topics: Seq<TopicItem>, topic: Seq<char>) -> bool {
    forall|i: int| 0 <= i < topics.len() && #[trigger] topics[i].name@ == topic
        ==> topics[i].msg_count < u64::MAX && topics[i].tps_counter < u64::MAX
}

/// What `AppState::add_message` does with a message stamped `timestamp`.
pub open spec fn message_added(old: AppState, new: AppState, msg: MqttMessage, timestamp: String) -> bool {
    &&& (old.paused || (old.selected_topic() matches Some(t) && t.name@ != msg.topic@)) ==> new == old
    &&& !(old.paused || (old.selected_topic() matches Some(t) && t.name@ != msg.topic@)) ==> {
            &&& new == (AppState {
                topics: new.topics,
                messages: new.messages,
                selected_topic_idx: new.selected_topic_idx,
                auto_select_first: new.auto_select_first,
                ..old
            })
            &&& new.messages@ == old.messages@.push(Message {
                topic: msg.topic,
                payload: new.messages@.last().payload,
                timestamp: timestamp,
                qos: msg.qos,
                retained: msg.retained,
            })
            &&& new.messages@.last().payload@ == utf8_lossy(msg.payload@)
            &&& has_topic(old.topics@, msg.topic@) ==> exists|p: int| {
                &&& first_topic_with(old.topics@, msg.topic@, p)
                &&& new.topics@ == old.topics@.update(p, topic_bumped(old.topics@[p]))
                &&& new.selected_topic_idx == old.selected_topic_idx
                &&& new.auto_select_first == old.auto_select_first
            }
            &&& !has_topic(old.topics@, msg.topic@) ==> {
                &&& new.topics@ == old.topics@.push(new.topics@.last())
                &&& new.topics@.last().name@ == msg.topic@
                &&& new.topics@.last().msg_count == 1
                &&& new.topics@.last().tps == 0
                &&& new.topics@.last().tps_counter == 1
                &&& new.topics@.last().tps_history@.len() == 0
                &&& if old.auto_select_first && old.selected_topic_idx is None {
                    new.selected_topic_idx == Some(0usize) && !new.auto_select_first
                } else {
                    new.selected_topic_idx == old.selected_topic_idx
                        && new.auto_select_first == old.auto_select_first
                }
            }
        }
}

/// The trend points of `new` are those of `old` with, for each point whose
/// register shows a value now (in the query's format), that value appended,
/// stamped `time`; the selection is kept inside the list; nothing else changes.
pub open spec fn trend_updated(old: AppState, new: AppState, time: Seq<char>) -> bool {
    &&& new == (AppState {
        modbus_trend_points: new.modbus_trend_points,
        modbus_trend_selected: new.modbus_trend_selected,
        ..old
    })
    &&& new.modbus_trend_points@.len() == old.modbus_trend_points@.len()
    &&& forall|i: int| 0 <= i < old.modbus_trend_points@.len() ==> {
        let p = old.modbus_trend_points@[i];
        let q = #[trigger] new.modbus_trend_points@[i];
        &&& q.address == p.address
        &&& match value_for_address(
            old.modbus_rows@,
            p.address,
            crate::mode::display_formats()[crate::mode::min_nat(old.modbus_query.format_idx as nat, 9) as int],
            crate::mode::function_codes()[crate::mode::min_nat(old.modbus_query.fc_idx as nat, 3) as int],
        ) {
            None => q.values == p.values,
            Some(v) => q.values@.len() > 0 && q.values@.last().time_mmss@ == time && q.values@.last().value == v
                && q.values@ == samples_after(p.values@, q.values@.last()),
        }
    }
    &&& new.modbus_trend_selected == if old.modbus_trend_selected < old.modbus_trend_points@.len() {
        old.modbus_trend_selected as int
    } else if old.modbus_trend_points@.len() == 0 {
        0
    } else {
        old.modbus_trend_points@.len() - 1
    }
}

impl AppState {
    /// A 100 ms tick: every tenth one turns each topic's count for the past
    /// second into its rate and appends that to its (60-long) history.
    #[verifier::rlimit(80)]
    pub fn on_tick(&mut self)
        requires
            old(self).tick_count < 255,
        ensures
            tick_effect(*old(self), *final(self)),
    {
        if self.tick_count + 1 < 10 {
            self.tick_count = self.tick_count + 1;
            return;
        }
        let mut topics: Vec<TopicItem> = Vec::new();
        std::mem::swap(&mut topics, &mut self.topics);
        let ghost old_topics = topics@;
        let n = topics.len();
        let mut i: usize = 0;
        while i < n
            invariant
                n == old_topics.len(),
                n == topics@.len(),
                i <= n,
                forall|k: int| i <= k < n ==> #[trigger] topics@[k] == old_topics[k],
                forall|k: int| 0 <= k < i ==> #[trigger] topics@[k] == flushed(old_topics[k], topics@[k].tps_history),
                forall|k: int| 0 <= k < i ==> (#[trigger] topics@[k]).tps_history@ == history_after(old_topics[k].tps_history@, old_topics[k].tps_counter),
            decreases n - i,
        {
            let mut item = TopicItem::new("");
            topics.set_and_swap(i, &mut item);
            let flushed_item = flush_topic(item);
            topics.set(i, flushed_item);
            i = i + 1;
        }
        self.topics = topics;
        self.tick_count = 0;
    }

    /// Adds a received message, stamped with `timestamp`: nothing while
    /// paused or when another topic is focused; otherwise the topic's
    /// counters go up (a new topic is listed, and focused when the first
    /// topic is to be focused automatically) and the message is kept.
    #[verifier::rlimit(80)]
    pub fn add_message(&mut self, msg: MqttMessage, timestamp: String)
        requires
            countable(old(self).topics@, msg.topic@),
        ensures
            message_added(*old(self), *final(self), msg, timestamp),

    {
        if self.paused {
            return;
        }
        if let Some(idx) = self.selected_topic_idx {
            if idx < self.topics.len() {
                if !crate::text::str_equal(self.topics[idx].name.as_str(), msg.topic.as_str()) {
                    return;
                }
            }
        }
        let payload = lossy_string(msg.payload.as_slice());
        let mut topics: Vec<TopicItem> = Vec::new();
        std::mem::swap(&mut topics, &mut self.topics);
        let mut selected = self.selected_topic_idx;
        let mut auto = self.auto_select_first;
        record_topic(&mut topics, &mut selected, &mut auto, msg.topic.as_str());
        self.topics = topics;
        self.selected_topic_idx = selected;
        self.auto_select_first = auto;
        self.messages.push(Message { topic: msg.topic, payload, timestamp, qos: msg.qos, retained: msg.retained });
    }

    /// Deletes the focused topic: from the topic list, the subscriptions and
    /// the kept messages. Returns its name so the caller can unsubscribe.
    #[verifier::rlimit(60)]
    pub fn delete_selected_topic(&mut self) -> (r: Option<String>)
        ensures
            match old(self).selected_topic() {
                None => r is None && *final(self) == *old(self),
                Some(t) => {
                    let idx = old(self).selected_topic_idx->0;
                    &&& r matches Some(name) && name@ == t.name@
                    &&& *final(self) == (AppState {
                        topics: final(self).topics,
                        messages: final(self).messages,
                        subscribed_topics: final(self).subscribed_topics,
                        selected_topic_idx: final(self).selected_topic_idx,
                        msg_cursor: None,
                        ..*old(self)
                    })
                    &&& final(self).topics@ == old(self).topics@.remove(idx as int)
                    &&& final(self).messages@ == without_topic(old(self).messages@, t.name@)
                    &&& final(self).subscribed_topics@ == without_string(old(self).subscribed_topics@, t.name@)
                    &&& final(self).selected_topic_idx == selection_after_delete(idx as nat, final(self).topics@.len())
                },
            },
    {
        let idx = match self.selected_topic_idx {
            Some(i) => i,
            None => return None,
        };
        if idx >= self.topics.len() {
            return None;
        }
        let topic = self.topics[idx].name.clone();
        self.topics.remove(idx);
        let mut kept: Vec<Message> = Vec::new();
        let mut i: usize = 0;
        while i < self.messages.len()
            invariant
                i <= self.messages@.len(),
                self.messages == old(self).messages,
                kept@ == without_topic(self.messages@.take(i as int), topic@),
            decreases self.messages@.len() - i,
        {
            assert(self.messages@.take(i + 1).drop_last() =~= self.messages@.take(i as int));
            if !crate::text::str_equal(self.messages[i].topic.as_str(), topic.as_str()) {
                kept.push(clone_message(&self.messages[i]));
            }
            i = i + 1;
        }
        assert(self.messages@.take(self.messages@.len() as int) =~= self.messages@);
        self.messages = kept;
        let mut subs: Vec<String> = Vec::new();
        let mut j: usize = 0;
        while j < self.subscribed_topics.len()
            invariant
                j <= self.subscribed_topics@.len(),
                self.subscribed_topics == old(self).subscribed_topics,
                subs@ == without_string(self.subscribed_topics@.take(j as int), topic@),
            decreases self.subscribed_topics@.len() - j,
        {
            assert(self.subscribed_topics@.take(j + 1).drop_last() =~= self.subscribed_topics@.take(j as int));
            if !crate::text::str_equal(self.subscribed_topics[j].as_str(), topic.as_str()) {
                subs.push(self.subscribed_topics[j].clone());
            }
            j = j + 1;
        }
        assert(self.subscribed_topics@.take(self.subscribed_topics@.len() as int) =~= self.subscribed_topics@);
        self.subscribed_topics = subs;
        let len = self.topics.len();
        self.selected_topic_idx = if len == 0 {
            None
        } else if idx < len {
            Some(idx)
        } else {
            Some(len - 1)
        };
        self.msg_cursor = None;
        Some(topic)
    }

    // ── Modbus trend ────────────────────────────────────────────────────────

    /// Tracks `address` in the trend chart and selects it (selecting the
    /// existing point when it is already tracked).
    pub fn add_modbus_trend_point(&mut self, address: u16)
        ensures
            (exists|i: int| 0 <= i < old(self).modbus_trend_points@.len() && old(self).modbus_trend_points@[i].address == address) ==> {
                &&& *final(self) == (AppState { modbus_trend_selected: final(self).modbus_trend_selected, ..*old(self) })
                &&& final(self).modbus_trend_selected < old(self).modbus_trend_points@.len()
                &&& old(self).modbus_trend_points@[final(self).modbus_trend_selected as int].address == address
                &&& forall|j: int| 0 <= j < final(self).modbus_trend_selected ==> old(self).modbus_trend_points@[j].address != address
            },
            !(exists|i: int| 0 <= i < old(self).modbus_trend_points@.len() && old(self).modbus_trend_points@[i].address == address) ==> {
                &&& *final(self) == (AppState {
                    modbus_trend_points: final(self).modbus_trend_points,
                    modbus_trend_selected: old(self).modbus_trend_points@.len() as usize,
                    ..*old(self)
                })
                &&& final(self).modbus_trend_points@ == old(self).modbus_trend_points@.push(final(self).modbus_trend_points@.last())
                &&& final(self).modbus_trend_points@.last().address == address
                &&& final(self).modbus_trend_points@.last().values@.len() == 0
            },
    {
        let n = self.modbus_trend_points.len();
        let mut i: usize = 0;
        while i < n
            invariant
                n == self.modbus_trend_points@.len(),
                *self == *old(self),
                i <= n,
                forall|j: int| 0 <= j < i ==> self.modbus_trend_points@[j].address != address,
            decreases n - i,
        {
            if self.modbus_trend_points[i].address == address {
                self.modbus_trend_selected = i;
                return;
            }
            i = i + 1;
        }
        self.modbus_trend_points.push(ModbusTrendPoint::new(address));
        self.modbus_trend_selected = self.modbus_trend_points.len() - 1;
    }

    pub fn selected_modbus_trend_point(&self) -> (r: Option<&ModbusTrendPoint>)
        ensures
            self.modbus_trend_selected < self.modbus_trend_points@.len() ==> (r matches Some(p) && *p
                == self.modbus_trend_points@[self.modbus_trend_selected as int]),
            self.modbus_trend_selected >= self.modbus_trend_points@.len() ==> r is None,
    {
        if self.modbus_trend_selected < self.modbus_trend_points.len() {
            Some(&self.modbus_trend_points[self.modbus_trend_selected])
        } else {
            None
        }
    }

    /// Appends to each tracked point the value its register shows now (in
    /// the query's format), stamped `time_mmss`; keeps the selection inside
    /// the list.
    #[verifier::rlimit(60)]
    pub fn update_modbus_trend_points(&mut self, time_mmss: &str)
        ensures
            trend_updated(*old(self), *final(self), time_mmss@),
    {
        let fmt = self.modbus_query.format();
        let fc = self.modbus_query.fc();
        let mut points: Vec<ModbusTrendPoint> = Vec::new();
        std::mem::swap(&mut points, &mut self.modbus_trend_points);
        let ghost old_points = points@;
        let n = points.len();
        let mut i: usize = 0;
        while i < n
            invariant
                n == old_points.len(),
                n == points@.len(),
                i <= n,
                forall|k: int| i <= k < n ==> #[trigger] points@[k] == old_points[k],
                forall|k: int| 0 <= k < i ==> {
                    let p = old_points[k];
                    let q = #[trigger] points@[k];
                    &&& q.address == p.address
                    &&& match value_for_address(self.modbus_rows@, p.address, fmt, fc) {
                        None => q.values == p.values,
                        Some(v) => q.values@.len() > 0 && q.values@.last().time_mmss@ == time_mmss@ && q.values@.last().value == v
                            && q.values@ == samples_after(p.values@, q.values@.last()),
                    }
                },
            decreases n - i,
        {
            let address = points[i].address;
            let value = numeric_display_for_address(self.modbus_rows.as_slice(), address, fmt, fc);
            match value {
                Some(v) => {
                    let mut point = ModbusTrendPoint::new(0);
                    points.set_and_swap(i, &mut point);
                    let updated = append_sample(point, time_mmss, v);
                    points.set(i, updated);
                },
                None => {},
            }
            i = i + 1;
        }
        self.modbus_trend_points = points;
        let len = self.modbus_trend_points.len();
        if self.modbus_trend_selected >= len {
            self.modbus_trend_selected = if len == 0 { 0 } else { len - 1 };
        }
    }
}

// ── Serial log ──────────────────────────────────────────────────────────────

/// How many entries the serial log keeps.
pub const SERIAL_LOG_CAP: usize = 2000;

/// `v` with its oldest entries dropped so that at most `SERIAL_LOG_CAP` stay.
pub open spec fn newest_entries(v: Seq<SerialEntry>) -> Seq<SerialEntry> {
    if v.len() > SERIAL_LOG_CAP { v.skip(v.len() - SERIAL_LOG_CAP) } else { v }
}

/// The bytes of all the entries of `v`.
pub open spec fn serial_bytes_total(v: Seq<SerialEntry>) -> nat
    decreases v.len(),
{
    if v.len() == 0 { 0 } else { serial_bytes_total(v.drop_last()) + v.last().raw@.len() }
}

impl AppState {
    /// Appends a serial entry to the log, which keeps its newest
    /// `SERIAL_LOG_CAP` entries.
    pub fn push_serial_entry(&mut self, entry: SerialEntry)
        ensures
            *final(self) == (AppState { serial_lines: final(self).serial_lines, ..*old(self) }),
            final(self).serial_lines@ == newest_entries(old(self).serial_lines@.push(entry)),
    {
        let ghost all = self.serial_lines@.push(entry);
        let mut lines: Vec<SerialEntry> = Vec::new();
        std::mem::swap(&mut lines, &mut self.serial_lines);
        lines.push(entry);
        let ghost mut dropped: int = 0;
        while lines.len() > SERIAL_LOG_CAP
            invariant
                0 <= dropped <= all.len(),
                lines@ == all.skip(dropped),
                all.len() > SERIAL_LOG_CAP ==> lines@.len() >= SERIAL_LOG_CAP,
                all.len() <= SERIAL_LOG_CAP ==> dropped == 0,
            decreases lines@.len(),
        {
            lines.remove(0);
            proof {
                dropped = dropped + 1;
            }
            assert(lines@ =~= all.skip(dropped));
        }
        assert(lines@ =~= newest_entries(all));
        self.serial_lines = lines;
    }

    /// The bytes of the whole serial log (at most `u64::MAX`) and of its
    /// newest entry (0 when the log is empty), as the status bar shows them.
    pub fn serial_byte_counts(&self) -> (r: (u64, u64))
        ensures
            r.0 == (if serial_bytes_total(self.serial_lines@) <= u64::MAX { serial_bytes_total(self.serial_lines@) } else { u64::MAX as nat }),
            r.1 == (if self.serial_lines@.len() == 0 { 0 } else { self.serial_lines@.last().raw@.len() }),
    {
        let mut total: u64 = 0;
        let mut i: usize = 0;
        while i < self.serial_lines.len()
            invariant
                i <= self.serial_lines@.len(),
                total == (if serial_bytes_total(self.serial_lines@.take(i as int)) <= u64::MAX {
                    serial_bytes_total(self.serial_lines@.take(i as int))
                } else {
                    u64::MAX as nat
                }),
            decreases self.serial_lines@.len() - i,
        {
            assert(self.serial_lines@.take(i + 1).drop_last() =~= self.serial_lines@.take(i as int));
            let len = self.serial_lines[i].raw.len() as u64;
            total = total.saturating_add(len);
            i = i + 1;
        }
        assert(self.serial_lines@.take(self.serial_lines@.len() as int) =~= self.serial_lines@);
        let last: u64 = if self.serial_lines.len() == 0 {
            0
        } else {
            self.serial_lines[self.serial_lines.len() - 1].raw.len() as u64
        };
        (total, last)
    }
}

} // verus!
