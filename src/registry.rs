use vstd::prelude::*;

verus! {

/// Bit pattern of the value a gauge holds before its first update: `0.0`.
pub const DEFAULT_VALUE: u64 = 0;

/// A gauge as the contracts see it: name, description, and the bit pattern
/// of its `f64` value.
pub type Entry = (Seq<char>, Seq<char>, u64);

/// One gauge as it stands in a snapshot.
pub struct Sample {
    pub name: String,
    pub description: String,
    /// Bit pattern of the `f64` value (`f64::to_bits`).
    pub value: u64,
}

impl View for Sample {
    type V = Entry;

    open spec fn view(&self) -> Entry {
        (self.name@, self.description@, self.value)
    }
}

/// The entries of a list of samples, in order.
pub open spec fn samples_view(s: Seq<Sample>) -> Seq<Entry> {
    s.map_values(|x: Sample| x@)
}

/// No two entries share a name.
pub open spec fn names_unique(s: Seq<Entry>) -> bool {
    forall|i: int, j: int| 0 <= i < j < s.len() ==> s[i].0 != s[j].0
}

pub open spec fn has_name(s: Seq<Entry>, name: Seq<char>) -> bool {
    exists|i: int| 0 <= i < s.len() && s[i].0 == name
}

/// The entries after the gauge called `name` is set to `value`; unchanged
/// when no gauge has that name.
pub open spec fn with_value(s: Seq<Entry>, name: Seq<char>, value: u64) -> Seq<Entry> {
    s.map_values(|e: Entry| if e.0 == name { (e.0, e.1, value) } else { e })
}

/// The entries after `name` is registered with `description`: a new gauge at
/// the end, or, for a name already present, the same place with the new
/// description and the default value.
pub open spec fn with_registration(s: Seq<Entry>, name: Seq<char>, description: Seq<char>) -> Seq<
    Entry,
> {
    if has_name(s, name) {
        s.map_values(|e: Entry| if e.0 == name { (name, description, DEFAULT_VALUE) } else { e })
    } else {
        s.push((name, description, DEFAULT_VALUE))
    }
}

/// A character that may stand in a metric name: an ASCII letter or digit,
/// `_` or `:`.
pub open spec fn is_name_char(c: char) -> bool {
    ('a' <= c <= 'z') || ('A' <= c <= 'Z') || ('0' <= c <= '9') || c == '_' || c == ':'
}

/// A metric name: non-empty, of name characters, not starting with a digit.
pub open spec fn is_metric_name(s: Seq<char>) -> bool {
    &&& s.len() > 0
    &&& !('0' <= s[0] <= '9')
    &&& forall|k: int| 0 <= k < s.len() ==> is_name_char(#[trigger] s[k])
}

/// What a gauge can be registered with: a metric name and a non-empty
/// description.
pub open spec fn can_register(name: Seq<char>, description: Seq<char>) -> bool {
    is_metric_name(name) && description.len() > 0
}

/// Whether `name` and `desc` can be registered.
pub fn is_valid_metric(name: &str, desc: &str) -> (r: bool)
    ensures
        r == can_register(name@, desc@),
{
    let len = name.unicode_len();
    if len == 0 || desc.unicode_len() == 0 {
        return false;
    }
    let first = name.get_char(0);
    if '0' <= first && first <= '9' {
        return false;
    }
    let mut i: usize = 0;
    while i < len
        invariant
            0 <= i <= len == name@.len(),
            forall|k: int| 0 <= k < i ==> is_name_char(#[trigger] name@[k]),
        decreases len - i,
    {
        let c = name.get_char(i);
        if !(('a' <= c && c <= 'z') || ('A' <= c && c <= 'Z') || ('0' <= c && c <= '9') || c == '_'
            || c == ':') {
            return false;
        }
        i = i + 1;
    }
    true
}

/// The set of named gauges, in registration order.
///
/// Registering a name that is already present replaces its description and
/// resets its value to the default; it keeps its place in the order.
pub struct Metrics {
    names: Vec<String>,
    descriptions: Vec<String>,
    values: Vec<u64>,
}

impl View for Metrics {
    type V = Seq<Entry>;

    closed spec fn view(&self) -> Seq<Entry> {
        Seq::new(
            self.names@.len(),
            |i: int| (self.names@[i]@, self.descriptions@[i]@, self.values@[i]),
        )
    }
}

impl Metrics {
    #[verifier::type_invariant]
    closed spec fn inv(&self) -> bool {
        &&& self.descriptions@.len() == self.names@.len()
        &&& self.values@.len() == self.names@.len()
        &&& forall|i: int, j: int|
            0 <= i < j < self.names@.len() ==> self.names@[i]@ != self.names@[j]@
    }

    pub fn new() -> (r: Metrics)
        ensures
            r@ == Seq::<Entry>::empty(),
            names_unique(r@),
    {
        let r = Metrics { names: Vec::new(), descriptions: Vec::new(), values: Vec::new() };
        assert(r@ =~= Seq::<Entry>::empty());
        r
    }

    /// Number of registered gauges.
    pub fn len(&self) -> (r: usize)
        ensures
            r == self@.len(),
    {
        proof {
            use_type_invariant(self);
        }
        self.names.len()
    }

    /// Place of the gauge called `name`, if there is one.
    fn position(&self, name: &String) -> (r: Option<usize>)
        ensures
            match r {
                Some(i) => i < self@.len() && self@[i as int].0 == name@,
                None => !has_name(self@, name@),
            },
    {
        proof {
            use_type_invariant(self);
        }
        let mut i: usize = 0;
        while i < self.names.len()
            invariant
                0 <= i <= self.names@.len(),
                self@.len() == self.names@.len(),
                forall|k: int| 0 <= k < i ==> self@[k].0 != name@,
            decreases self.names@.len() - i,
        {
            if self.names[i] == *name {
                return Some(i);
            }
            i = i + 1;
        }
        None
    }

    /// Whether a gauge called `name` is registered.
    pub fn is_registered(&self, name: &str) -> (r: bool)
        ensures
            r == has_name(self@, name@),
    {
        let key = name.to_owned();
        self.position(&key).is_some()
    }

    /// Adds the gauge `name` with value `0.0`, or, where `name` is already
    /// present, gives it `desc` and resets it to `0.0` in its place.
    pub fn register_metric(&mut self, name: &str, desc: &str)
        requires
            can_register(name@, desc@),
        ensures
            final(self)@ == with_registration(old(self)@, name@, desc@),
            names_unique(final(self)@),
    {
        proof {
            use_type_invariant(&*self);
        }
        let key = name.to_owned();
        match self.position(&key) {
            Some(i) => {
                let ghost s = self@;
                self.descriptions[i] = desc.to_owned();
                self.values[i] = DEFAULT_VALUE;
                proof {
                    let t = with_registration(s, name@, desc@);
                    assert(has_name(s, name@));
                    assert forall|k: int| 0 <= k < s.len() implies #[trigger] self@[k] == t[k] by {
                        if k != i {
                            assert(s[k].0 != s[i as int].0);
                        }
                    }
                    assert(self@ =~= t);
                }
            },
            None => {
                let ghost s = self@;
                let mut taken = Metrics::new();
                std::mem::swap(self, &mut taken);
                proof {
                    use_type_invariant(&taken);
                }
                let Metrics { mut names, mut descriptions, mut values } = taken;
                names.push(key);
                descriptions.push(desc.to_owned());
                values.push(DEFAULT_VALUE);
                assert forall|k: int| 0 <= k < s.len() implies names@[k]@ != name@ by {
                    assert(s[k].0 == names@[k]@);
                }
                let grown = Metrics { names, descriptions, values };
                assert(grown@ =~= s.push((name@, desc@, DEFAULT_VALUE)));
                *self = grown;
            },
        }
    }

    /// Sets the gauge called `name` to the value with bit pattern `val`; does
    /// nothing when no gauge has that name.
    pub fn set_metric(&mut self, name: &str, val: u64)
        ensures
            final(self)@ == with_value(old(self)@, name@, val),
            names_unique(final(self)@),
    {
        proof {
            use_type_invariant(&*self);
        }
        let key = name.to_owned();
        let ghost s = self@;
        match self.position(&key) {
            Some(i) => {
                self.values[i] = val;
                proof {
                    let t = with_value(s, name@, val);
                    assert forall|k: int| 0 <= k < s.len() implies #[trigger] self@[k] == t[k] by {
                        if k != i {
                            assert(s[k].0 != s[i as int].0);
                        }
                    }
                    assert(self@ =~= t);
                }
            },
            None => {
                assert(self@ =~= with_value(s, name@, val));
            },
        }
    }

    /// A copy of every gauge, in registration order.
    pub fn get_metrics(&self) -> (r: Vec<Sample>)
        ensures
            samples_view(r@) == self@,
            names_unique(self@),
    {
        proof {
            use_type_invariant(self);
        }
        let mut r: Vec<Sample> = Vec::new();
        let mut i: usize = 0;
        while i < self.names.len()
            invariant
                0 <= i <= self.names@.len(),
                self.descriptions@.len() == self.names@.len(),
                self.values@.len() == self.names@.len(),
                r@.len() == i,
                forall|k: int| 0 <= k < i ==> #[trigger] r@[k]@ == self@[k],
            decreases self.names@.len() - i,
        {
            let sample = Sample {
                name: self.names[i].clone(),
                description: self.descriptions[i].clone(),
                value: self.values[i],
            };
            r.push(sample);
            i = i + 1;
        }
        assert(samples_view(r@) =~= self@);
        r
    }
}

/// Right after `name` is registered with `description`, the gauges list
/// `name`, and every gauge of that name holds the description and the default
/// value.
pub proof fn lemma_registered_reads_default(s: Seq<Entry>, name: Seq<char>, description: Seq<char>)
    ensures
        has_name(with_registration(s, name, description), name),
        forall|i: int|
            0 <= i < with_registration(s, name, description).len() && (#[trigger] with_registration(
                s,
                name,
                description,
            )[i]).0 == name ==> with_registration(s, name, description)[i] == (
                name,
                description,
                DEFAULT_VALUE,
            ),
{
    let r = with_registration(s, name, description);
    if has_name(s, name) {
        let i = choose|i: int| 0 <= i < s.len() && s[i].0 == name;
        assert(r[i].0 == name);
    } else {
        assert(r[s.len() as int].0 == name);
    }
}

/// Registration removes no gauge: every gauge present before is present
/// after, in the same place, and only the one of the registered name changes.
pub proof fn lemma_registration_keeps_gauges(s: Seq<Entry>, name: Seq<char>, description: Seq<char>)
    ensures
        with_registration(s, name, description).len() >= s.len(),
        forall|i: int|
            0 <= i < s.len() && (#[trigger] s[i]).0 != name ==> with_registration(
                s,
                name,
                description,
            )[i] == s[i],
        forall|m: Seq<char>| #[trigger]
            has_name(s, m) ==> has_name(with_registration(s, name, description), m),
{
    let r = with_registration(s, name, description);
    assert forall|m: Seq<char>| #[trigger] has_name(s, m) implies has_name(r, m) by {
        let i = choose|i: int| 0 <= i < s.len() && s[i].0 == m;
        assert(r[i].0 == m);
    }
}

/// After the registered gauge `name` is set to `value`, the gauges list
/// `name` with that value.
pub proof fn lemma_set_reads_back(s: Seq<Entry>, name: Seq<char>, value: u64)
    requires
        has_name(s, name),
    ensures
        has_name(with_value(s, name, value), name),
        forall|i: int|
            0 <= i < s.len() && (#[trigger] with_value(s, name, value)[i]).0 == name
                ==> with_value(s, name, value)[i].2 == value,
{
    let i = choose|i: int| 0 <= i < s.len() && s[i].0 == name;
    assert(with_value(s, name, value)[i].0 == name);
}

/// Setting a name that no gauge has changes nothing, and adds no gauge.
pub proof fn lemma_set_unknown_changes_nothing(s: Seq<Entry>, name: Seq<char>, value: u64)
    requires
        !has_name(s, name),
    ensures
        with_value(s, name, value) == s,
{
    assert(with_value(s, name, value) =~= s);
}

/// Two updates of different gauges give the same gauges in either order, and
/// each gauge then holds a whole value: one of the two written, or its own
/// from before.
pub proof fn lemma_updates_of_different_gauges_commute(
    s: Seq<Entry>,
    n1: Seq<char>,
    v1: u64,
    n2: Seq<char>,
    v2: u64,
)
    requires
        n1 != n2,
    ensures
        with_value(with_value(s, n1, v1), n2, v2) == with_value(with_value(s, n2, v2), n1, v1),
        forall|i: int|
            0 <= i < s.len() ==> {
                let r = #[trigger] with_value(with_value(s, n1, v1), n2, v2)[i];
                &&& r.0 == s[i].0
                &&& r.1 == s[i].1
                &&& (r.2 == v1 || r.2 == v2 || r.2 == s[i].2)
            },
{
    assert(with_value(with_value(s, n1, v1), n2, v2) =~= with_value(with_value(s, n2, v2), n1, v1));
}

} // verus!
