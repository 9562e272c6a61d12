use vstd::prelude::*;
use crate::registry::{DEFAULT_VALUE, Entry, Metrics, can_register, has_name, is_name_char};
use crate::topic::{topic_for, topic_prefix};

verus! {

/// The gauges of the home sensors, in the order they are registered.
pub open spec fn sensor_entries() -> Seq<Entry> {
    seq![
        ("temperature"@, "Temperature in room"@, DEFAULT_VALUE),
        ("pressure"@, "Atmosphere pressure"@, DEFAULT_VALUE),
        ("humidity"@, "Humidity in room"@, DEFAULT_VALUE),
        ("smoke"@, "Smoke level in the air"@, DEFAULT_VALUE),
        ("propane"@, "Propane level in the air"@, DEFAULT_VALUE),
        ("methane"@, "Methane level in the air"@, DEFAULT_VALUE),
    ]
}

/// A registry holding the home sensors' gauges, each at `0.0`.
pub fn sensor_metrics() -> (r: Metrics)
    ensures
        r@ == sensor_entries(),
{
    proof {
        reveal_strlit("temperature");
        reveal_strlit("pressure");
        reveal_strlit("humidity");
        reveal_strlit("smoke");
        reveal_strlit("propane");
        reveal_strlit("methane");
        assert("temperature"@[0] == 't' && "temperature"@.len() == 11);
        assert("pressure"@[0] == 'p' && "pressure"@.len() == 8);
        assert("humidity"@[0] == 'h' && "humidity"@.len() == 8);
        assert("smoke"@[0] == 's' && "smoke"@.len() == 5);
        assert("propane"@[0] == 'p' && "propane"@[1] == 'r' && "propane"@.len() == 7);
        assert("methane"@[0] == 'm' && "methane"@.len() == 7);
        reveal_strlit("Temperature in room");
        assert(can_register("temperature"@, "Temperature in room"@)) by {
            assert forall|k: int| 0 <= k < 11 implies is_name_char(#[trigger] "temperature"@[k]) by {
                assert(k == 0 || k == 1 || k == 2 || k == 3 || k == 4 || k == 5 || k == 6 || k == 7 || k == 8 || k == 9 || k == 10);
            }
        }
        reveal_strlit("Atmosphere pressure");
        assert(can_register("pressure"@, "Atmosphere pressure"@)) by {
            assert forall|k: int| 0 <= k < 8 implies is_name_char(#[trigger] "pressure"@[k]) by {
                assert(k == 0 || k == 1 || k == 2 || k == 3 || k == 4 || k == 5 || k == 6 || k == 7);
            }
        }
        reveal_strlit("Humidity in room");
        assert(can_register("humidity"@, "Humidity in room"@)) by {
            assert forall|k: int| 0 <= k < 8 implies is_name_char(#[trigger] "humidity"@[k]) by {
                assert(k == 0 || k == 1 || k == 2 || k == 3 || k == 4 || k == 5 || k == 6 || k == 7);
            }
        }
        reveal_strlit("Smoke level in the air");
        assert(can_register("smoke"@, "Smoke level in the air"@)) by {
            assert forall|k: int| 0 <= k < 5 implies is_name_char(#[trigger] "smoke"@[k]) by {
                assert(k == 0 || k == 1 || k == 2 || k == 3 || k == 4);
            }
        }
        reveal_strlit("Propane level in the air");
        assert(can_register("propane"@, "Propane level in the air"@)) by {
            assert forall|k: int| 0 <= k < 7 implies is_name_char(#[trigger] "propane"@[k]) by {
                assert(k == 0 || k == 1 || k == 2 || k == 3 || k == 4 || k == 5 || k == 6);
            }
        }
        reveal_strlit("Methane level in the air");
        assert(can_register("methane"@, "Methane level in the air"@)) by {
            assert forall|k: int| 0 <= k < 7 implies is_name_char(#[trigger] "methane"@[k]) by {
                assert(k == 0 || k == 1 || k == 2 || k == 3 || k == 4 || k == 5 || k == 6);
            }
        }
    }
    let ghost e = sensor_entries();
    let mut m = Metrics::new();
    m.register_metric("temperature", "Temperature in room");
    assert(m@ =~= e.subrange(0, 1));
    add_fresh(&mut m, "pressure", "Atmosphere pressure");
    assert(m@ =~= e.subrange(0, 2));
    add_fresh(&mut m, "humidity", "Humidity in room");
    assert(m@ =~= e.subrange(0, 3));
    add_fresh(&mut m, "smoke", "Smoke level in the air");
    assert(m@ =~= e.subrange(0, 4));
    add_fresh(&mut m, "propane", "Propane level in the air");
    assert(m@ =~= e.subrange(0, 5));
    add_fresh(&mut m, "methane", "Methane level in the air");
    assert(m@ =~= e);
    m
}

/// Registers a name that differs from every name already present.
fn add_fresh(m: &mut Metrics, name: &str, desc: &str)
    requires
        can_register(name@, desc@),
        forall|i: int| 0 <= i < old(m)@.len() ==> old(m)@[i].0 != name@,
    ensures
        final(m)@ == old(m)@.push((name@, desc@, DEFAULT_VALUE)),
{
    assert(!has_name(old(m)@, name@));
    m.register_metric(name, desc);
}

/// The names in the topics the sensors publish on, in the order they are
/// subscribed to.
pub open spec fn sensor_topic_names() -> Seq<Seq<char>> {
    seq!["temperature"@, "humidity"@, "pressure"@, "smoke"@, "propane"@, "methane"@]
}

/// The topics to subscribe to, one per sensor gauge.
pub fn sensor_topics() -> (r: Vec<String>)
    ensures
        r@.len() == sensor_topic_names().len(),
        forall|i: int|
            0 <= i < r@.len() ==> #[trigger] r@[i]@ == topic_prefix() + sensor_topic_names()[i],
{
    let mut r: Vec<String> = Vec::new();
    r.push(topic_for("temperature"));
    r.push(topic_for("humidity"));
    r.push(topic_for("pressure"));
    r.push(topic_for("smoke"));
    r.push(topic_for("propane"));
    r.push(topic_for("methane"));
    r
}

/// The subscribed topics carry exactly the names of the sensor gauges: the
/// gauges' names with the second and third swapped.
pub proof fn lemma_topics_match_gauges()
    ensures
        sensor_topic_names().len() == sensor_entries().len(),
        sensor_topic_names() == seq![
            sensor_entries()[0].0,
            sensor_entries()[2].0,
            sensor_entries()[1].0,
            sensor_entries()[3].0,
            sensor_entries()[4].0,
            sensor_entries()[5].0,
        ],
{
}

} // verus!
