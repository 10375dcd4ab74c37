//! State behind the HTTP endpoints: a status word, a health value and named sensors.

use crate::text::{decimal, push_decimal};
use vstd::prelude::*;

verus! {

/// A sensor reading with its limit.
pub struct SensorData<T> {
    pub name: String,
    pub description: String,
    pub value: T,
    pub limit: T,
    pub warning: bool,
}

/// A sensor, by the kind of value it reads.
pub enum Sensor {
    Int(SensorData<i32>),
    /// A floating-point sensor; its value and limit are held as IEEE 754 bit
    /// patterns (`f64::to_bits`).
    Float(SensorData<u64>),
    Bool(SensorData<bool>),
}

/// The answer to a request that sets a value.
pub struct SetResponse<T> {
    pub message: String,
    pub value: T,
}

/// No two entries have the same name.
pub open spec fn names_distinct(s: Seq<(String, Sensor)>) -> bool {
    forall|i: int, j: int|
        0 <= i < j < s.len() ==> #[trigger] s[i].0@ != #[trigger] s[j].0@
}

/// Some entry has this name.
pub open spec fn has_name(s: Seq<(String, Sensor)>, k: Seq<char>) -> bool {
    exists|i: int| 0 <= i < s.len() && #[trigger] s[i].0@ == k
}

/// The entries as a map from name to sensor.
pub open spec fn entries_map(s: Seq<(String, Sensor)>) -> Map<Seq<char>, Sensor> {
    Map::new(
        |k: Seq<char>| has_name(s, k),
        |k: Seq<char>| s[choose|i: int| 0 <= i < s.len() && #[trigger] s[i].0@ == k].1,
    )
}

/// With distinct names, the map holds each entry's sensor under its name,
/// and holds no other name.
pub proof fn lemma_entries_map_at(s: Seq<(String, Sensor)>, i: int)
    requires
        names_distinct(s),
        0 <= i < s.len(),
    ensures
        entries_map(s).dom().contains(s[i].0@),
        entries_map(s)[s[i].0@] == s[i].1,
        forall|k: Seq<char>|
            #[trigger] entries_map(s).dom().contains(k) <==> exists|j: int|
                0 <= j < s.len() && #[trigger] s[j].0@ == k,
{
    let k = s[i].0@;
    assert(has_name(s, k));
    let j = choose|j: int| 0 <= j < s.len() && #[trigger] s[j].0@ == k;
    if j != i {
        if j < i {
            assert(s[j].0@ != s[i].0@);
        } else {
            assert(s[i].0@ != s[j].0@);
        }
    }
}

/// The status, health and sensors that the HTTP endpoints show.
pub struct AppState {
    pub status: String,
    pub health: u64,
    /// The sensors by name; no name occurs twice.
    pub sensors: Vec<(String, Sensor)>,
}

impl AppState {
    /// The sensor names are distinct.
    pub open spec fn wf(&self) -> bool {
        names_distinct(self.sensors@)
    }

    /// The sensors, by name.
    pub open spec fn sensor_map(&self) -> Map<Seq<char>, Sensor> {
        entries_map(self.sensors@)
    }

    /// A state with this status, health 0 and no sensors.
    pub fn new(status: String) -> (r: AppState)
        ensures
            r.wf(),
            r.status == status,
            r.health == 0,
            r.sensor_map() == Map::<Seq<char>, Sensor>::empty(),
    {
        let r = AppState { status, health: 0, sensors: Vec::new() };
        assert(r.sensor_map() =~= Map::<Seq<char>, Sensor>::empty());
        r
    }

    /// Puts a sensor under a name, replacing any sensor of that name.
    pub fn add_sensor(&mut self, name: String, sensor: Sensor)
        requires
            old(self).wf(),
        ensures
            final(self).wf(),
            final(self).sensor_map() == old(self).sensor_map().insert(name@, sensor),
            final(self).status == old(self).status,
            final(self).health == old(self).health,
    {
        let ghost old_s = self.sensors@;
        let ghost k = name@;
        let mut i: usize = 0;
        while i < self.sensors.len()
            invariant
                0 <= i <= self.sensors@.len(),
                self.sensors@ == old_s,
                k == name@,
                forall|j: int| 0 <= j < i ==> #[trigger] old_s[j].0@ != k,
            ensures
                0 <= i <= self.sensors@.len(),
                self.sensors@ == old_s,
                forall|j: int| 0 <= j < i ==> #[trigger] old_s[j].0@ != k,
                i < self.sensors@.len() ==> old_s[i as int].0@ == k,
            decreases self.sensors@.len() - i,
        {
            if self.sensors[i].0 == name {
                break;
            }
            i = i + 1;
        }
        if i < self.sensors.len() {
            assert(old_s[i as int].0@ == k);
            self.sensors.set(i, (name, sensor));
            let ghost new_s = self.sensors@;
            assert(new_s == old_s.update(i as int, (new_s[i as int].0, sensor)));
            assert(names_distinct(new_s)) by {
                assert forall|a: int, b: int| 0 <= a < b < new_s.len() implies #[trigger] new_s[a].0@
                    != #[trigger] new_s[b].0@ by {
                    assert(old_s[a].0@ != old_s[b].0@);
                }
            }
            assert(entries_map(new_s) =~= entries_map(old_s).insert(k, sensor)) by {
                lemma_entries_map_at(new_s, i as int);
                assert forall|key: Seq<char>|
                    #[trigger] entries_map(new_s).dom().contains(key) <==> entries_map(
                        old_s,
                    ).insert(k, sensor).dom().contains(key) by {
                    if has_name(new_s, key) {
                        let j = choose|j: int| 0 <= j < new_s.len() && #[trigger] new_s[j].0@ == key;
                        assert(old_s[j].0@ == key);
                    }
                    if has_name(old_s, key) {
                        let j = choose|j: int| 0 <= j < old_s.len() && #[trigger] old_s[j].0@ == key;
                        assert(new_s[j].0@ == key);
                    }
                }
                assert forall|key: Seq<char>| #[trigger]
                    entries_map(new_s).dom().contains(key) && key != k implies entries_map(new_s)[key]
                    == entries_map(old_s)[key] by {
                    let j = choose|j: int| 0 <= j < new_s.len() && #[trigger] new_s[j].0@ == key;
                    lemma_entries_map_at(new_s, j);
                    lemma_entries_map_at(old_s, j);
                }
            }
        } else {
            self.sensors.push((name, sensor));
            let ghost new_s = self.sensors@;
            assert(new_s == old_s.push(new_s[old_s.len() as int]));
            assert(names_distinct(new_s)) by {
                assert forall|a: int, b: int| 0 <= a < b < new_s.len() implies #[trigger] new_s[a].0@
                    != #[trigger] new_s[b].0@ by {
                    if b < old_s.len() {
                        assert(old_s[a].0@ != old_s[b].0@);
                    } else {
                        assert(old_s[a].0@ != k);
                    }
                }
            }
            assert(entries_map(new_s) =~= entries_map(old_s).insert(k, sensor)) by {
                lemma_entries_map_at(new_s, old_s.len() as int);
                assert forall|key: Seq<char>|
                    #[trigger] entries_map(new_s).dom().contains(key) <==> entries_map(
                        old_s,
                    ).insert(k, sensor).dom().contains(key) by {
                    if has_name(old_s, key) {
                        let j = choose|j: int| 0 <= j < old_s.len() && #[trigger] old_s[j].0@ == key;
                        assert(new_s[j].0@ == key);
                    }
                    if has_name(new_s, key) && key != k {
                        let j = choose|j: int| 0 <= j < new_s.len() && #[trigger] new_s[j].0@ == key;
                        assert(old_s[j].0@ == key);
                    }
                }
                assert forall|key: Seq<char>| #[trigger]
                    entries_map(new_s).dom().contains(key) && key != k implies entries_map(new_s)[key]
                    == entries_map(old_s)[key] by {
                    let j = choose|j: int| 0 <= j < new_s.len() && #[trigger] new_s[j].0@ == key;
                    lemma_entries_map_at(new_s, j);
                    lemma_entries_map_at(old_s, j);
                }
            }
        }
    }

    /// Sets the health value, and answers with the value and a line that tells it.
    pub fn set_health(&mut self, value: u64) -> (r: SetResponse<u64>)
        ensures
            final(self).health == value,
            final(self).status == old(self).status,
            final(self).sensors == old(self).sensors,
            r.value == value,
            r.message@ == "Health value successfully set to: "@ + decimal(value as nat),
    {
        self.health = value;
        let mut message = String::from_str("Health value successfully set to: ");
        push_decimal(&mut message, self.health);
        SetResponse { message, value: self.health }
    }
}

} // verus!
