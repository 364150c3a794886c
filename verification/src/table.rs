//! The stations table and its operations.
//!
//! `StationsTable` models the persisted table as the sequence of its rows,
//! together with the sensor summaries that the association fetches return.
//! Every operation's contract is stated over the mathematical contents of
//! the table: the sequence of row views, with the id column as primary key.

use vstd::prelude::*;
use std::collections::HashMap;
use crate::station::{
    Station, StationView, StationsModel, ModelView, SensorSummary, SensorView, StationsError,
    sensor_views, is_station_key,
};
use crate::rng::{sample_alphanumeric, generate_uuid};

verus! {

broadcast use vstd::std_specs::hash::group_hash_axioms;

/// No two rows share an id: the id column is a primary key.
pub open spec fn unique_ids(rows: Seq<ModelView>) -> bool {
    forall|i: int, j: int| 0 <= i < j < rows.len() ==> rows[i].id != rows[j].id
}

/// Whether some row carries the given id.
pub open spec fn has_id(rows: Seq<ModelView>, id: u128) -> bool {
    exists|i: int| 0 <= i < rows.len() && rows[i].id == id
}

/// The position of the first row carrying the given id, or -1 if none does.
pub open spec fn find_index(rows: Seq<ModelView>, id: u128) -> int
    decreases rows.len(),
{
    if rows.len() == 0 {
        -1
    } else if rows[0].id == id {
        0
    } else {
        let rest = find_index(rows.drop_first(), id);
        if rest == -1 {
            -1
        } else {
            rest + 1
        }
    }
}

/// What `find_index` returns: a miss means no row carries the id; a hit is
/// in range, carries the id, and is the first position that does.
pub proof fn lemma_find_index(rows: Seq<ModelView>, id: u128)
    ensures
        has_id(rows, id) <==> find_index(rows, id) != -1,
        find_index(rows, id) == -1 ==> forall|j: int| 0 <= j < rows.len() ==> rows[j].id != id,
        find_index(rows, id) != -1 ==> {
            &&& 0 <= find_index(rows, id) < rows.len()
            &&& rows[find_index(rows, id)].id == id
            &&& forall|j: int| 0 <= j < find_index(rows, id) ==> rows[j].id != id
        },
    decreases rows.len(),
{
    if rows.len() == 0 {
    } else if rows[0].id == id {
    } else {
        lemma_find_index(rows.drop_first(), id);
        let rest = find_index(rows.drop_first(), id);
        if rest == -1 {
            assert forall|j: int| 0 <= j < rows.len() implies rows[j].id != id by {
                if j > 0 {
                    assert(rows.drop_first()[j - 1] == rows[j]);
                }
            }
            assert(!has_id(rows, id));
        } else {
            assert(rows.drop_first()[rest] == rows[rest + 1]);
            assert forall|j: int| 0 <= j < rest + 1 implies rows[j].id != id by {
                if j > 0 {
                    assert(rows.drop_first()[j - 1] == rows[j]);
                }
            }
        }
    }
}

/// Under unique ids, the position found for a row's id is that row's own.
pub proof fn lemma_find_index_hit(rows: Seq<ModelView>, i: int)
    requires
        unique_ids(rows),
        0 <= i < rows.len(),
    ensures
        find_index(rows, rows[i].id) == i,
{
    lemma_find_index(rows, rows[i].id);
    let f = find_index(rows, rows[i].id);
    assert(f != -1);
    if f < i {
        assert(rows[f].id != rows[i].id);
    } else if f > i {
        assert(rows[i].id != id_at(rows, f));
    }
}

/// The id stored at a position; a helper for trigger-friendly statements.
pub open spec fn id_at(rows: Seq<ModelView>, i: int) -> u128 {
    rows[i].id
}

/// A position that carries the id, with none before it, is the one that
/// `find_index` returns.
pub proof fn lemma_find_index_first(rows: Seq<ModelView>, id: u128, i: int)
    requires
        0 <= i < rows.len(),
        rows[i].id == id,
        forall|j: int| 0 <= j < i ==> rows[j].id != id,
    ensures
        find_index(rows, id) == i,
{
    lemma_find_index(rows, id);
    let f = find_index(rows, id);
    assert(has_id(rows, id));
    assert(f != -1);
    if f < i {
        assert(rows[f].id != id);
    }
}

/// The sensors that belong to the station with the given id.
pub open spec fn belongs_to(id: u128) -> spec_fn(SensorView) -> bool {
    |v: SensorView| v.station_id == id
}

/// Law: a station just created is found again under its id, with the label
/// it was created under and a non-empty key.
///
/// A successful `create` leaves the new row, carrying a 24-character
/// alphanumeric key, at the end of the table; this lemma says that `find`
/// on the new id then reads back exactly that row, through `find`'s
/// contract over `find_index`.
pub proof fn lemma_create_then_find(t: StationsTable, st: StationView, label: Seq<char>)
    requires
        t.wf(),
        t.rows_v().len() > 0,
        t.rows_v().last() == (ModelView { id: st.id, label: label, key: st.key }),
        is_station_key(st.key),
    ensures
        has_id(t.rows_v(), st.id),
        t.rows_v()[find_index(t.rows_v(), st.id)].label == label,
        t.rows_v()[find_index(t.rows_v(), st.id)].key == st.key,
        t.rows_v()[find_index(t.rows_v(), st.id)].key.len() > 0,
{
    let rows = t.rows_v();
    let i = rows.len() - 1;
    assert(rows[i].id == st.id);
    lemma_find_index_hit(rows, i as int);
}

/// The stations table: the stored rows, and the sensor summaries that the
/// sensors collaborator holds for them.
pub struct StationsTable {
    pub rows: Vec<StationsModel>,
    pub sensors: Vec<SensorSummary>,
}

impl StationsTable {
    /// The mathematical contents of the table: one view per stored row.
    pub open spec fn rows_v(&self) -> Seq<ModelView> {
        self.rows@.map_values(|m: StationsModel| m@)
    }

    /// The contents of the sensors association.
    pub open spec fn sensors_v(&self) -> Seq<SensorView> {
        sensor_views(self.sensors@)
    }

    /// The table's invariant: the id column is a primary key.
    pub open spec fn wf(&self) -> bool {
        unique_ids(self.rows_v())
    }

    /// Creates an empty table.
    pub fn new() -> (t: StationsTable)
        ensures
            t.wf(),
            t.rows_v() == Seq::<ModelView>::empty(),
            t.sensors_v() == Seq::<SensorView>::empty(),
    {
        let t = StationsTable { rows: Vec::new(), sensors: Vec::new() };
        proof {
            assert(t.rows_v() =~= Seq::<ModelView>::empty());
            assert(t.sensors_v() =~= Seq::<SensorView>::empty());
        }
        t
    }

    /// Records one sensor summary under its station; the sensors themselves
    /// are owned by the external sensors collaborator.
    pub fn record_sensor(&mut self, sensor: SensorSummary)
        requires
            old(self).wf(),
        ensures
            final(self).wf(),
            final(self).rows_v() == old(self).rows_v(),
            final(self).sensors_v() == old(self).sensors_v().push(sensor@),
    {
        let ghost sv = sensor@;
        self.sensors.push(sensor);
        proof {
            assert(self.sensors_v() =~= old(self).sensors_v().push(sv));
        }
    }

    /// All sensor summaries belonging to the station with the given id, in
    /// the order they were recorded.
    pub fn belonging_to(&self, id: u128) -> (r: Vec<SensorSummary>)
        ensures
            sensor_views(r@) == self.sensors_v().filter(belongs_to(id)),
    {
        let mut out: Vec<SensorSummary> = Vec::new();
        let mut i: usize = 0;
        proof {
            reveal(Seq::filter);
            assert(sensor_views(out@) =~= Seq::<SensorView>::empty());
            assert(self.sensors_v().subrange(0, 0).filter(belongs_to(id)) =~= Seq::<SensorView>::empty());
        }
        while i < self.sensors.len()
            invariant
                i <= self.sensors.len(),
                sensor_views(out@) == self.sensors_v().subrange(0, i as int).filter(belongs_to(id)),
            decreases self.sensors.len() - i,
        {
            let ghost pre = sensor_views(out@);
            let s = &self.sensors[i];
            if s.station_id == id {
                out.push(SensorSummary { id: s.id, station_id: s.station_id, label: s.label.clone() });
            }
            proof {
                reveal(Seq::filter);
                let svs = self.sensors_v();
                let step = svs.subrange(0, i as int + 1);
                assert(step.drop_last() =~= svs.subrange(0, i as int));
                assert(step.last() == svs[i as int]);
                assert(svs[i as int] == self.sensors@[i as int]@);
                if s.station_id == id {
                    assert(sensor_views(out@) =~= pre.push(svs[i as int]));
                } else {
                    assert(sensor_views(out@) =~= pre);
                }
                assert(sensor_views(out@) == step.filter(belongs_to(id)));
            }
            i += 1;
        }
        proof {
            assert(self.sensors_v().subrange(0, self.sensors@.len() as int) =~= self.sensors_v());
        }
        out
    }

    /// Loads the station with the given id, its sensors eagerly fetched;
    /// fails with `NotFound` exactly when no row matches.
    pub fn find(&self, id: u128) -> (r: Result<Station, StationsError>)
        requires
            self.wf(),
        ensures
            r is Ok <==> has_id(self.rows_v(), id),
            (match r {
                Ok(st) => {
                    &&& st@.id == id
                    &&& st@.label == self.rows_v()[find_index(self.rows_v(), id)].label
                    &&& st@.key == self.rows_v()[find_index(self.rows_v(), id)].key
                    &&& st@.sensors == Some(self.sensors_v().filter(belongs_to(id)))
                }
                Err(e) => e == StationsError::NotFound,
            }),
    {
        let mut i: usize = 0;
        while i < self.rows.len()
            invariant
                self.wf(),
                i <= self.rows.len(),
                forall|j: int| 0 <= j < i ==> self.rows_v()[j].id != id,
            decreases self.rows.len() - i,
        {
            if self.rows[i].id == id {
                proof {
                    assert(self.rows_v()[i as int].id == id);
                    lemma_find_index_hit(self.rows_v(), i as int);
                    assert(has_id(self.rows_v(), id));
                }
                let sensors = self.belonging_to(id);
                let st = Station {
                    id: self.rows[i].id,
                    label: self.rows[i].label.clone(),
                    key: self.rows[i].key.clone(),
                    sensors: Some(sensors),
                };
                return Ok(st);
            }
            i += 1;
        }
        proof {
            lemma_find_index(self.rows_v(), id);
            assert(!has_id(self.rows_v(), id));
        }
        Err(StationsError::NotFound)
    }

    /// Whether some row carries the given id.
    pub fn contains_id(&self, id: u128) -> (r: bool)
        ensures
            r == has_id(self.rows_v(), id),
    {
        let mut i: usize = 0;
        while i < self.rows.len()
            invariant
                i <= self.rows.len(),
                forall|j: int| 0 <= j < i ==> self.rows_v()[j].id != id,
            decreases self.rows.len() - i,
        {
            if self.rows[i].id == id {
                proof {
                    assert(self.rows_v()[i as int].id == id);
                }
                return true;
            }
            i += 1;
        }
        proof {
            lemma_find_index(self.rows_v(), id);
            assert(!has_id(self.rows_v(), id));
        }
        false
    }

    /// Inserts a new row under the given id, label and key; succeeds
    /// exactly when the id is not yet taken, and then returns the view of
    /// the new station with no sensors loaded. On a conflict the table is
    /// left unchanged.
    pub fn insert_with_key(&mut self, id: u128, label: String, key: String) -> (r: Result<
        Station,
        StationsError,
    >)
        requires
            old(self).wf(),
        ensures
            final(self).wf(),
            final(self).sensors_v() == old(self).sensors_v(),
            r is Ok <==> !has_id(old(self).rows_v(), id),
            (match r {
                Ok(st) => {
                    &&& st@ == (StationView {
                        id: id,
                        label: label@,
                        key: key@,
                        sensors: Option::None,
                    })
                    &&& final(self).rows_v() == old(self).rows_v().push(
                        ModelView { id: id, label: label@, key: key@ },
                    )
                    &&& has_id(final(self).rows_v(), id)
                },
                Err(e) => {
                    &&& e == StationsError::Conflict
                    &&& *final(self) == *old(self)
                },
            }),
    {
        if self.contains_id(id) {
            return Err(StationsError::Conflict);
        }
        let ghost pre = self.rows_v();
        let ghost lv = label@;
        let ghost kv = key@;
        let st = Station { id: id, label: label.clone(), key: key.clone(), sensors: None };
        self.rows.push(StationsModel { id: id, label: label, key: key });
        proof {
            assert(self.rows_v() =~= pre.push(ModelView { id: id, label: lv, key: kv }));
            assert(self.rows_v()[pre.len() as int].id == id);
            assert(st@ =~= (StationView { id: id, label: lv, key: kv, sensors: Option::None }));
            assert forall|i: int, j: int|
                0 <= i < j < self.rows_v().len() implies self.rows_v()[i].id
                != self.rows_v()[j].id by {
                if j == pre.len() {
                    assert(pre[i].id != id);
                }
            }
        }
        Ok(st)
    }

    /// Creates a station under the given label: draws a fresh
    /// 24-character alphanumeric secret key and a random id, and inserts
    /// the row. Fails with `Conflict` only where the drawn id is already
    /// taken, and then leaves the table unchanged; on an empty table it
    /// always succeeds.
    pub fn create(&mut self, label: String) -> (r: Result<Station, StationsError>)
        requires
            old(self).wf(),
        ensures
            final(self).wf(),
            final(self).sensors_v() == old(self).sensors_v(),
            old(self).rows_v().len() == 0 ==> r is Ok,
            (match r {
                Ok(st) => {
                    &&& st@.label == label@
                    &&& st@.sensors is None
                    &&& is_station_key(st@.key)
                    &&& !has_id(old(self).rows_v(), st@.id)
                    &&& final(self).rows_v() == old(self).rows_v().push(
                        ModelView { id: st@.id, label: label@, key: st@.key },
                    )
                    &&& has_id(final(self).rows_v(), st@.id)
                },
                Err(e) => {
                    &&& e == StationsError::Conflict
                    &&& *final(self) == *old(self)
                },
            }),
    {
        let key = sample_alphanumeric(24);
        let id = generate_uuid();
        self.insert_with_key(id, label, key)
    }

    /// Replaces the label and the key of the row matching the id (the key
    /// may be rotated here), and returns the updated stored row. Fails
    /// with `NotFound` exactly when no row matches, and then leaves the
    /// table unchanged.
    pub fn update(&mut self, id: u128, label: String, key: String) -> (r: Result<
        StationsModel,
        StationsError,
    >)
        requires
            old(self).wf(),
        ensures
            final(self).wf(),
            final(self).sensors_v() == old(self).sensors_v(),
            r is Ok <==> has_id(old(self).rows_v(), id),
            (match r {
                Ok(m) => {
                    &&& m@ == (ModelView { id: id, label: label@, key: key@ })
                    &&& final(self).rows_v() == old(self).rows_v().update(
                        find_index(old(self).rows_v(), id),
                        m@,
                    )
                },
                Err(e) => {
                    &&& e == StationsError::NotFound
                    &&& *final(self) == *old(self)
                },
            }),
    {
        let mut i: usize = 0;
        while i < self.rows.len()
            invariant
                self == old(self),
                self.wf(),
                i <= self.rows.len(),
                forall|j: int| 0 <= j < i ==> self.rows_v()[j].id != id,
            decreases self.rows.len() - i,
        {
            if self.rows[i].id == id {
                proof {
                    assert(self.rows_v()[i as int].id == id);
                    lemma_find_index_first(self.rows_v(), id, i as int);
                }
                let ghost pre = self.rows_v();
                let ghost lv = label@;
                let ghost kv = key@;
                let row = StationsModel { id: id, label: label.clone(), key: key.clone() };
                self.rows.remove(i);
                self.rows.insert(i, row);
                proof {
                    let mv = ModelView { id: id, label: lv, key: kv };
                    assert(self.rows_v() =~= pre.update(i as int, mv));
                    assert forall|p: int, q: int|
                        0 <= p < q < self.rows_v().len() implies self.rows_v()[p].id
                        != self.rows_v()[q].id by {
                        assert(pre[p].id != pre[q].id);
                    }
                }
                let out = StationsModel { id: id, label: label, key: key };
                proof {
                    assert(out@ =~= (ModelView { id: id, label: lv, key: kv }));
                }
                return Ok(out);
            }
            i += 1;
        }
        proof {
            lemma_find_index(self.rows_v(), id);
            assert(!has_id(self.rows_v(), id));
        }
        Err(StationsError::NotFound)
    }

    /// Deletes the row matching the id and reports how many rows went: 1
    /// where the id was present, 0 where it was not. A missing id is not
    /// an error.
    pub fn delete(&mut self, id: u128) -> (r: Result<usize, StationsError>)
        requires
            old(self).wf(),
        ensures
            final(self).wf(),
            final(self).sensors_v() == old(self).sensors_v(),
            r is Ok,
            (match r {
                Ok(n) => {
                    &&& (n == 1 <==> has_id(old(self).rows_v(), id))
                    &&& (n == 0 <==> !has_id(old(self).rows_v(), id))
                    &&& (n == 0 ==> *final(self) == *old(self))
                    &&& !has_id(final(self).rows_v(), id)
                    &&& final(self).rows_v() == (if has_id(old(self).rows_v(), id) {
                        old(self).rows_v().remove(find_index(old(self).rows_v(), id))
                    } else {
                        old(self).rows_v()
                    })
                },
                Err(e) => false,
            }),
    {
        let mut i: usize = 0;
        while i < self.rows.len()
            invariant
                self == old(self),
                self.wf(),
                i <= self.rows.len(),
                forall|j: int| 0 <= j < i ==> self.rows_v()[j].id != id,
            decreases self.rows.len() - i,
        {
            if self.rows[i].id == id {
                proof {
                    assert(self.rows_v()[i as int].id == id);
                    lemma_find_index_first(self.rows_v(), id, i as int);
                }
                let ghost pre = self.rows_v();
                self.rows.remove(i);
                proof {
                    assert(self.rows_v() =~= pre.remove(i as int));
                    assert forall|p: int, q: int|
                        0 <= p < q < self.rows_v().len() implies self.rows_v()[p].id
                        != self.rows_v()[q].id by {
                        let p0: int = if p < i { p } else { p + 1 };
                        let q0: int = if q < i { q } else { q + 1 };
                        assert(self.rows_v()[p] == pre[p0]);
                        assert(self.rows_v()[q] == pre[q0]);
                        assert(pre[p0].id != pre[q0].id);
                    }
                    assert forall|j: int|
                        0 <= j < self.rows_v().len() implies self.rows_v()[j].id != id by {
                        let j0: int = if j < i { j } else { j + 1 };
                        assert(self.rows_v()[j] == pre[j0]);
                        assert(pre[j0].id != pre[i as int].id);
                    }
                    assert(!has_id(self.rows_v(), id));
                }
                return Ok(1);
            }
            i += 1;
        }
        proof {
            lemma_find_index(self.rows_v(), id);
            assert(!has_id(self.rows_v(), id));
        }
        Ok(0)
    }

    /// Loads the whole table as a map keyed by station id, for fast
    /// lookup without the association cost: every view in the map has no
    /// sensors loaded.
    pub fn as_hash(&self) -> (r: HashMap<u128, Station>)
        requires
            self.wf(),
        ensures
            forall|k: u128| #[trigger] r@.contains_key(k) <==> has_id(self.rows_v(), k),
            forall|k: u128| #[trigger] r@.contains_key(k) ==> r@[k]@ == (StationView {
                id: k,
                label: self.rows_v()[find_index(self.rows_v(), k)].label,
                key: self.rows_v()[find_index(self.rows_v(), k)].key,
                sensors: Option::None,
            }),
    {
        let mut hash: HashMap<u128, Station> = HashMap::new();
        let mut i: usize = 0;
        while i < self.rows.len()
            invariant
                self.wf(),
                i <= self.rows.len(),
                forall|k: u128| #[trigger] hash@.contains_key(k) <==> exists|j: int|
                    0 <= j < i && self.rows_v()[j].id == k,
                forall|k: u128| #[trigger] hash@.contains_key(k) ==> hash@[k]@ == (StationView {
                    id: k,
                    label: self.rows_v()[find_index(self.rows_v(), k)].label,
                    key: self.rows_v()[find_index(self.rows_v(), k)].key,
                    sensors: Option::None,
                }),
            decreases self.rows.len() - i,
        {
            let row = &self.rows[i];
            let st = Station {
                id: row.id,
                label: row.label.clone(),
                key: row.key.clone(),
                sensors: None,
            };
            proof {
                assert(self.rows_v()[i as int].id == row.id);
                lemma_find_index_hit(self.rows_v(), i as int);
                assert(st@ =~= (StationView {
                    id: row.id,
                    label: self.rows_v()[i as int].label,
                    key: self.rows_v()[i as int].key,
                    sensors: Option::None,
                }));
            }
            hash.insert(row.id, st);
            i += 1;
        }
        proof {
            assert forall|k: u128| #[trigger] hash@.contains_key(k) implies has_id(
                self.rows_v(),
                k,
            ) by {
            }
            assert forall|k: u128| has_id(self.rows_v(), k) implies hash@.contains_key(k) by {
                let w = choose|j: int| 0 <= j < self.rows_v().len() && self.rows_v()[j].id == k;
                assert(0 <= w < self.rows@.len() && self.rows_v()[w].id == k);
            }
        }
        hash
    }

    /// Loads all stations in table order, each with its sensors eagerly
    /// fetched: every view in the result has its sensors loaded, possibly
    /// as an empty list.
    pub fn find_all(&self) -> (r: Vec<Station>)
        ensures
            r@.len() == self.rows_v().len(),
            forall|i: int| 0 <= i < r@.len() ==> (#[trigger] r@[i])@ == (StationView {
                id: self.rows_v()[i].id,
                label: self.rows_v()[i].label,
                key: self.rows_v()[i].key,
                sensors: Option::Some(self.sensors_v().filter(belongs_to(self.rows_v()[i].id))),
            }),
    {
        let mut out: Vec<Station> = Vec::new();
        let mut i: usize = 0;
        while i < self.rows.len()
            invariant
                i <= self.rows.len(),
                out@.len() == i,
                forall|j: int| 0 <= j < i ==> (#[trigger] out@[j])@ == (StationView {
                    id: self.rows_v()[j].id,
                    label: self.rows_v()[j].label,
                    key: self.rows_v()[j].key,
                    sensors: Option::Some(
                        self.sensors_v().filter(belongs_to(self.rows_v()[j].id)),
                    ),
                }),
            decreases self.rows.len() - i,
        {
            let row = &self.rows[i];
            let sensors = self.belonging_to(row.id);
            let st = Station {
                id: row.id,
                label: row.label.clone(),
                key: row.key.clone(),
                sensors: Some(sensors),
            };
            proof {
                assert(self.rows_v()[i as int].id == row.id);
                assert(st@ =~= (StationView {
                    id: self.rows_v()[i as int].id,
                    label: self.rows_v()[i as int].label,
                    key: self.rows_v()[i as int].key,
                    sensors: Option::Some(
                        self.sensors_v().filter(belongs_to(self.rows_v()[i as int].id)),
                    ),
                }));
            }
            out.push(st);
            i += 1;
        }
        out
    }
}

} // verus!
