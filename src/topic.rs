use vstd::prelude::*;

verus! {

/// The part of a topic in front of the metric name: `metrics/`.
pub open spec fn topic_prefix() -> Seq<char> {
    seq!['m', 'e', 't', 'r', 'i', 'c', 's', '/']
}

/// The metric name that `topic` carries: what follows the prefix, when that
/// is one non-empty segment.
pub open spec fn name_of_topic(topic: Seq<char>) -> Option<Seq<char>> {
    let p = topic_prefix();
    if topic.len() > p.len() && topic.subrange(0, p.len() as int) == p && (forall|k: int|
        p.len() <= k < topic.len() ==> topic[k] != '/') {
        Some(topic.subrange(p.len() as int, topic.len() as int))
    } else {
        None
    }
}

/// A name that can stand as the last segment of a topic.
pub open spec fn is_segment(name: Seq<char>) -> bool {
    name.len() > 0 && forall|k: int| 0 <= k < name.len() ==> name[k] != '/'
}

/// The metric name carried by `topic`, or `None` when the topic is not
/// `metrics/<name>` with a non-empty name free of `/`.
pub fn metric_name_of_topic(topic: &str) -> (r: Option<String>)
    ensures
        match r {
            Some(n) => name_of_topic(topic@) == Some(n@),
            None => name_of_topic(topic@) is None,
        },
{
    let prefix = "metrics/";
    proof {
        reveal_strlit("metrics/");
        assert(prefix@ == topic_prefix());
    }
    let len = topic.unicode_len();
    if len <= 8 {
        return None;
    }
    let mut i: usize = 0;
    while i < 8
        invariant
            0 <= i <= 8 < len,
            len == topic@.len(),
            prefix@ == topic_prefix(),
            forall|k: int| 0 <= k < i ==> topic@[k] == topic_prefix()[k],
        decreases 8 - i,
    {
        if topic.get_char(i) != prefix.get_char(i) {
            assert(topic@.subrange(0, 8)[i as int] != topic_prefix()[i as int]);
            return None;
        }
        i = i + 1;
    }
    assert(topic@.subrange(0, 8) =~= topic_prefix());
    let mut j: usize = 8;
    while j < len
        invariant
            8 <= j <= len,
            len == topic@.len(),
            forall|k: int| 8 <= k < j ==> topic@[k] != '/',
        decreases len - j,
    {
        if topic.get_char(j) == '/' {
            return None;
        }
        j = j + 1;
    }
    Some(topic.substring_char(8, len).to_owned())
}

/// The topic that carries readings of the metric `name`.
pub fn topic_for(name: &str) -> (r: String)
    ensures
        r@ == topic_prefix() + name@,
{
    let mut t = "metrics/".to_owned();
    proof {
        reveal_strlit("metrics/");
    }
    t.append(name);
    assert(t@ =~= topic_prefix() + name@);
    t
}

/// A topic built for a name that is one non-empty segment carries that name
/// back.
pub proof fn lemma_topic_round_trip(name: Seq<char>)
    requires
        is_segment(name),
    ensures
        name_of_topic(topic_prefix() + name) == Some(name),
{
    let t = topic_prefix() + name;
    assert(t.subrange(0, 8) =~= topic_prefix());
    assert(t.subrange(8, t.len() as int) =~= name);
    assert forall|k: int| 8 <= k < t.len() implies t[k] != '/' by {
        assert(t[k] == name[k - 8]);
    }
}

} // verus!
