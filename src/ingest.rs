use vstd::prelude::*;
use crate::registry::{Entry, Metrics, has_name, with_value};
use crate::topic::{metric_name_of_topic, name_of_topic};

verus! {

/// What became of one message from the bus.
#[derive(Debug, Clone, Copy, PartialEq, Eq)]
pub enum EventOutcome {
    /// A registered gauge took the reading.
    Updated,
    /// The topic names no registered gauge; nothing changed.
    UnknownMetric,
    /// No metric name could be taken from the topic; the message is dropped.
    MalformedTopic,
    /// The payload is not a number; the message is dropped.
    MalformedPayload,
}

/// The outcome of a message on `topic` whose payload read as `reading` (the
/// bit pattern of the parsed `f64`, or `None` when it did not parse).
pub open spec fn event_outcome(s: Seq<Entry>, topic: Seq<char>, reading: Option<u64>) -> EventOutcome {
    match name_of_topic(topic) {
        None => EventOutcome::MalformedTopic,
        Some(name) => match reading {
            None => EventOutcome::MalformedPayload,
            Some(_) => if has_name(s, name) {
                EventOutcome::Updated
            } else {
                EventOutcome::UnknownMetric
            },
        },
    }
}

/// The gauges after such a message: the named gauge takes the reading, and
/// nothing else changes.
pub open spec fn after_event(s: Seq<Entry>, topic: Seq<char>, reading: Option<u64>) -> Seq<Entry> {
    match (name_of_topic(topic), reading) {
        (Some(name), Some(v)) => with_value(s, name, v),
        _ => s,
    }
}

impl Metrics {
    /// Applies one message from the bus: a reading on `metrics/<name>` sets
    /// the gauge `name`; any other message leaves the gauges as they are.
    pub fn handle_message(&mut self, topic: &str, reading: Option<u64>) -> (r: EventOutcome)
        ensures
            r == event_outcome(old(self)@, topic@, reading),
            final(self)@ == after_event(old(self)@, topic@, reading),
    {
        match metric_name_of_topic(topic) {
            None => EventOutcome::MalformedTopic,
            Some(name) => match reading {
                None => EventOutcome::MalformedPayload,
                Some(v) => {
                    let known = self.is_registered(name.as_str());
                    self.set_metric(name.as_str(), v);
                    if known {
                        EventOutcome::Updated
                    } else {
                        EventOutcome::UnknownMetric
                    }
                },
            },
        }
    }
}

} // verus!
