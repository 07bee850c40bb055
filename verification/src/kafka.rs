//! Kafka client settings, topic names and message keys.
use vstd::prelude::*;

use crate::config::KafkaConfig;
use crate::event::{source_name, EventSource, NetworkEvent};
use crate::indexer::pair_views;
use crate::threat::string_views;

verus! {

broadcast use vstd::string::group_string_axioms;

/// The settings of the event producer, in the order they are applied.
pub open spec fn producer_settings_spec(config: KafkaConfig) -> Seq<(Seq<char>, Seq<char>)> {
    seq![
        ("bootstrap.servers"@, config.brokers@),
        ("client.id"@, config.client_id@),
        ("message.timeout.ms"@, "30000"@),
        ("queue.buffering.max.ms"@, "100"@),
    ]
}

/// The settings of an event consumer, in the order they are applied.
pub open spec fn consumer_settings_spec(config: KafkaConfig) -> Seq<(Seq<char>, Seq<char>)> {
    seq![
        ("bootstrap.servers"@, config.brokers@),
        ("group.id"@, config.group_id@),
        ("enable.auto.commit"@, "true"@),
        ("auto.offset.reset"@, "earliest"@),
        ("session.timeout.ms"@, "6000"@),
    ]
}

fn setting(key: &str, value: &str) -> (r: (String, String))
    ensures
        r.0@ == key@,
        r.1@ == value@,
{
    (key.to_owned(), value.to_owned())
}

/// Producer settings (key, value) for a Kafka configuration.
pub fn producer_settings(config: &KafkaConfig) -> (r: Vec<(String, String)>)
    ensures
        pair_views(r@) == producer_settings_spec(*config),
{
    let mut r: Vec<(String, String)> = Vec::new();
    r.push(setting("bootstrap.servers", config.brokers.as_str()));
    r.push(setting("client.id", config.client_id.as_str()));
    r.push(setting("message.timeout.ms", "30000"));
    r.push(setting("queue.buffering.max.ms", "100"));
    proof {
        assert(pair_views(r@) =~= producer_settings_spec(*config));
    }
    r
}

/// Consumer settings (key, value) for a Kafka configuration: its brokers and
/// group, auto-commit, reading from the earliest offset.
pub fn consumer_config(config: &KafkaConfig) -> (r: Vec<(String, String)>)
    ensures
        pair_views(r@) == consumer_settings_spec(*config),
{
    let mut r: Vec<(String, String)> = Vec::new();
    r.push(setting("bootstrap.servers", config.brokers.as_str()));
    r.push(setting("group.id", config.group_id.as_str()));
    r.push(setting("enable.auto.commit", "true"));
    r.push(setting("auto.offset.reset", "earliest"));
    r.push(setting("session.timeout.ms", "6000"));
    proof {
        assert(pair_views(r@) =~= consumer_settings_spec(*config));
    }
    r
}

/// The topics of `sources` under `prefix`, in order.
pub fn topic_names(sources: &[EventSource], prefix: &str) -> (r: Vec<String>)
    ensures
        r.len() == sources.len(),
        forall|k: int|
            0 <= k < r.len() ==> #[trigger] r@[k]@ == prefix@ + "."@ + source_name(sources@[k]),
{
    let mut r: Vec<String> = Vec::new();
    let mut i: usize = 0;
    while i < sources.len()
        invariant
            i <= sources.len(),
            r.len() == i,
            forall|k: int| 0 <= k < i ==> #[trigger] r@[k]@ == prefix@ + "."@ + source_name(sources@[k]),
        decreases sources.len() - i,
    {
        r.push(sources[i].kafka_topic(prefix));
        i += 1;
    }
    r
}

/// The key an event is published under: `{agent_id}:{id}`.
pub fn message_key(event: &NetworkEvent) -> (r: String)
    ensures
        r@ == event.agent_id@ + ":"@ + event.id@,
{
    let mut r = event.agent_id.clone();
    crate::text::append_str(&mut r, ":");
    crate::text::append_str(&mut r, event.id.as_str());
    r
}

/// How many of `outcomes` are successes.
pub open spec fn successes(outcomes: Seq<bool>) -> nat
    decreases outcomes.len(),
{
    if outcomes.len() == 0 {
        0
    } else {
        successes(outcomes.drop_last()) + if outcomes.last() {
            1nat
        } else {
            0nat
        }
    }
}

/// The count that a batch publish reports as accepted, from the outcome of
/// each send in the batch: the successes, never more than the batch.
pub fn accepted_count(outcomes: &[bool]) -> (r: usize)
    ensures
        r == successes(outcomes@),
        r <= outcomes.len(),
{
    let mut count: usize = 0;
    let mut i: usize = 0;
    proof {
        assert(outcomes@.take(0) =~= Seq::<bool>::empty());
    }
    while i < outcomes.len()
        invariant
            i <= outcomes.len(),
            count <= i,
            count == successes(outcomes@.take(i as int)),
        decreases outcomes.len() - i,
    {
        proof {
            assert(outcomes@.take(i + 1).drop_last() =~= outcomes@.take(i as int));
        }
        if outcomes[i] {
            count += 1;
        }
        i += 1;
    }
    proof {
        assert(outcomes@.take(outcomes.len() as int) =~= outcomes@);
    }
    count
}

} // verus!
