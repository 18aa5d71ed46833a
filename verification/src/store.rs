use vstd::prelude::*;
use vstd::pervasive::VecAdditionalExecFns;
use crate::assoc::{
    has_key, key_index, keys_unique, lemma_key_absent, lemma_key_at, lemma_map_of_empty,
    lemma_map_of_push, lemma_map_of_remove, lemma_map_of_update, map_of,
};
use crate::codec::{decode_entries, encode_entries, msgpack_entries, msgpack_of, msgpack_within_limits};
use crate::errors::{AppError, Error};
use crate::session_data::SessionData;
use crate::timestamp::Timestamp;

verus! {

/// How many fresh ids a create is willing to draw before giving up. The draw
/// space is huge, so the bound only guards against a livelock if the id
/// source degenerates.
pub const CREATE_RETRY_LIMIT: u64 = 16;

/// A row of the backing table: the session id, the payload encoded in the
/// fixed scheme, and the expiry.
#[derive(Debug)]
pub struct Session {
    pub id: String,
    pub data: Vec<u8>,
    pub expiry_date: Timestamp,
}

/// A session record as callers hold it: the id, the decoded payload, and the
/// expiry.
#[derive(Debug, PartialEq)]
pub struct Record {
    pub id: String,
    pub data: SessionData,
    pub expiry_date: Timestamp,
}

impl Record {
    /// Well-formed: the payload map has no repeated key.
    pub open spec fn wf(self) -> bool {
        self.data.wf()
    }
}

/// What a store operation fails with. Both classes collapse into an internal
/// error at the outward boundary.
#[derive(Debug, PartialEq)]
pub enum StoreError {
    /// The backend refused the operation; the text says why.
    Backend(String),
    /// The payload could not be written or read back in the fixed scheme.
    Serialization(String),
}

impl Error for StoreError {
    open spec fn app_error_spec(&self) -> AppError {
        AppError::InternalServerError
    }

    fn as_app_error(&self) -> (r: AppError) {
        AppError::InternalServerError
    }
}

/// The rows read as key/value pairs: id to (encoded payload, expiry).
pub open spec fn rows_kv(rows: Seq<Session>) -> Seq<(Seq<char>, (Seq<u8>, Timestamp))> {
    Seq::new(rows.len(), |i: int| (rows[i].id@, (rows[i].data@, rows[i].expiry_date)))
}

/// Relies on tower_sessions_core::session::Id::default, which draws a fresh
/// random 128-bit identifier; its text form is what the table stores. Nothing
/// can be promised of a random draw.
#[verifier::external_body]
fn generate_session_id() -> (r: String) {
    tower_sessions_core::session::Id::default().to_string()
}

/// A field-for-field copy of a byte vector.
fn clone_bytes(v: &Vec<u8>) -> (r: Vec<u8>)
    ensures
        r@ == v@,
{
    let n = v.len();
    let mut r: Vec<u8> = Vec::new();
    let mut i: usize = 0;
    while i < n
        invariant
            n == v@.len(),
            i <= n,
            r@ == v@.subrange(0, i as int),
        decreases n - i,
    {
        r.push(v[i]);
        proof {
            assert(r@ =~= v@.subrange(0, i + 1 as int));
        }
        i += 1;
    }
    proof {
        assert(r@ =~= v@);
    }
    r
}

impl Clone for Session {
    /// A clone denotes the same row.
    fn clone(&self) -> (r: Self)
        ensures
            r.id == self.id,
            r.data@ == self.data@,
            r.expiry_date == self.expiry_date,
    {
        Session { id: self.id.clone(), data: clone_bytes(&self.data), expiry_date: self.expiry_date }
    }
}

impl Clone for Record {
    /// A clone denotes the same record.
    fn clone(&self) -> (r: Self)
        ensures
            r.id == self.id,
            r.data.kvs() == self.data.kvs(),
            r.expiry_date == self.expiry_date,
    {
        Record { id: self.id.clone(), data: self.data.clone(), expiry_date: self.expiry_date }
    }
}

/// What a load of `id` against the table `m` yields: the absent result when
/// no row matches; the decoded pairs and the stored expiry when the blob
/// decodes to pairs with unrepeated keys; a serialization failure otherwise.
pub open spec fn spec_load(m: Map<Seq<char>, (Seq<u8>, Timestamp)>, id: Seq<char>) -> Result<
    Option<(Seq<(Seq<char>, Seq<char>)>, Timestamp)>,
    (),
> {
    if !m.contains_key(id) {
        Result::Ok(Option::None)
    } else {
        match msgpack_entries(m[id].0) {
            Option::Some(e) => if keys_unique(e) {
                Result::Ok(Option::Some((e, m[id].1)))
            } else {
                Result::Err(())
            },
            Option::None => Result::Err(()),
        }
    }
}

/// The server-backed session store, modeled as the table it maintains: a map
/// from session id to the stored row.
pub struct SessionStore {
    rows: Vec<Session>,
}

impl View for SessionStore {
    type V = Map<Seq<char>, (Seq<u8>, Timestamp)>;

    closed spec fn view(&self) -> Map<Seq<char>, (Seq<u8>, Timestamp)> {
        map_of(rows_kv(self.rows@))
    }
}

impl SessionStore {
    /// Well-formed: ids are unique across the table.
    pub closed spec fn wf(self) -> bool {
        keys_unique(rows_kv(self.rows@))
    }

    /// An empty table.
    pub fn new() -> (r: SessionStore)
        ensures
            r.wf(),
            r@ == Map::<Seq<char>, (Seq<u8>, Timestamp)>::empty(),
    {
        let rows: Vec<Session> = Vec::new();
        let r = SessionStore { rows };
        proof {
            lemma_map_of_empty(rows_kv(r.rows@));
        }
        r
    }

    /// The position of the row carrying `session_id`, if any.
    fn index_of_id(&self, session_id: &String) -> (r: Option<usize>)
        ensures
            match r {
                Some(i) => i < self.rows@.len() && self.rows@[i as int].id@ == session_id@,
                None => !has_key(rows_kv(self.rows@), session_id@),
            },
    {
        let n = self.rows.len();
        let mut i: usize = 0;
        while i < n
            invariant
                n == self.rows@.len(),
                i <= n,
                forall|j: int| 0 <= j < i ==> self.rows@[j].id@ != session_id@,
            decreases n - i,
        {
            if self.rows[i].id == *session_id {
                return Some(i);
            }
            i += 1;
        }
        proof {
            assert forall|j: int| 0 <= j < rows_kv(self.rows@).len() implies rows_kv(self.rows@)[j].0
                != session_id@ by {
                assert(rows_kv(self.rows@)[j].0 == self.rows@[j].id@);
            }
            lemma_key_absent(rows_kv(self.rows@), session_id@);
        }
        None
    }

    /// Whether a row with this id is present.
    pub fn id_exists(&self, session_id: &String) -> (r: bool)
        requires
            self.wf(),
        ensures
            r == self@.contains_key(session_id@),
    {
        match self.index_of_id(session_id) {
            Some(i) => {
                proof {
                    assert(rows_kv(self.rows@)[i as int].0 == session_id@);
                    lemma_key_at(rows_kv(self.rows@), i as int);
                }
                true
            },
            None => false,
        }
    }

    /// Upsert one row: replace the row with its id in place, or append it.
    fn upsert_row(&mut self, row: Session)
        requires
            old(self).wf(),
        ensures
            final(self).wf(),
            final(self)@ == old(self)@.insert(row.id@, (row.data@, row.expiry_date)),
    {
        let ghost kv0 = rows_kv(self.rows@);
        let ghost p = (row.id@, (row.data@, row.expiry_date));
        match self.index_of_id(&row.id) {
            Some(i) => {
                proof {
                    assert(kv0[i as int].0 == row.id@);
                }
                self.rows.set(i, row);
                proof {
                    assert(rows_kv(self.rows@) =~= kv0.update(i as int, p));
                    lemma_map_of_update(kv0, i as int, p.0, p.1);
                }
            },
            None => {
                self.rows.push(row);
                proof {
                    assert(rows_kv(self.rows@) =~= kv0.push(p));
                    lemma_map_of_push(kv0, p.0, p.1);
                }
            },
        }
    }

    /// Persist a new record. The caller's tentative id is kept when it is
    /// free; on a collision fresh ids are drawn until an unused one is found
    /// (bounded defensively), and the id actually used is written back into
    /// the record. The expiry is brought to the store's precision before the
    /// row is written, and the adjusted value is written back too. A payload
    /// within the scheme's limits under a free id always persists; the call
    /// can fail only on an unencodable payload or on a collision whose
    /// retries ran out.
    pub fn create(&mut self, record: &mut Record) -> (r: Result<(), StoreError>)
        requires
            old(self).wf(),
            old(record).wf(),
        ensures
            final(self).wf(),
            msgpack_within_limits(old(record).data.kvs()) && !old(self)@.contains_key(
                old(record).id@,
            ) ==> r is Ok,
            match r {
                Ok(_) => {
                    &&& !old(self)@.contains_key(final(record).id@)
                    &&& !old(self)@.contains_key(old(record).id@) ==> final(record).id@ == old(
                        record,
                    ).id@
                    &&& final(record).data == old(record).data
                    &&& final(record).expiry_date == old(record).expiry_date.norm()
                    &&& final(record).wf()
                    &&& final(self)@ == old(self)@.insert(
                        final(record).id@,
                        (msgpack_of(old(record).data.kvs()), old(record).expiry_date.norm()),
                    )
                    &&& msgpack_within_limits(old(record).data.kvs()) ==> msgpack_entries(
                        final(self)@[final(record).id@].0,
                    ) == Some(old(record).data.kvs())
                },
                Err(e) => {
                    &&& final(self)@ == old(self)@
                    &&& *final(record) == *old(record)
                    &&& e matches StoreError::Serialization(_) ==> !msgpack_within_limits(
                        old(record).data.kvs(),
                    )
                },
            },
    {
        let bytes = match encode_entries(record.data.raw_entries()) {
            Some(b) => b,
            None => {
                return Err(
                    StoreError::Serialization(String::from_str("payload encoding failed")),
                );
            },
        };
        let mut candidate = record.id.clone();
        let mut tries: u64 = 0;
        while self.id_exists(&candidate)
            invariant
                *self == *old(self),
                self.wf(),
                tries <= CREATE_RETRY_LIMIT,
                !old(self)@.contains_key(old(record).id@) ==> candidate@ == old(record).id@,
            decreases CREATE_RETRY_LIMIT - tries,
        {
            if tries == CREATE_RETRY_LIMIT {
                return Err(
                    StoreError::Backend(String::from_str("session id space exhausted")),
                );
            }
            candidate = generate_session_id();
            tries = tries + 1;
        }
        let norm = record.expiry_date.normalized();
        let row = Session { id: candidate.clone(), data: bytes, expiry_date: norm };
        self.upsert_row(row);
        record.id = candidate;
        record.expiry_date = norm;
        Ok(())
    }

    /// Re-save an already-issued record: upsert by its id, with no collision
    /// handling and no precision adjustment. A payload within the scheme's
    /// limits always persists; only an unencodable one fails.
    pub fn save(&mut self, record: &Record) -> (r: Result<(), StoreError>)
        requires
            old(self).wf(),
            record.wf(),
        ensures
            final(self).wf(),
            msgpack_within_limits(record.data.kvs()) ==> r is Ok,
            match r {
                Ok(_) => final(self)@ == old(self)@.insert(
                    record.id@,
                    (msgpack_of(record.data.kvs()), record.expiry_date),
                ),
                Err(e) => {
                    &&& final(self)@ == old(self)@
                    &&& e matches StoreError::Serialization(_)
                    &&& !msgpack_within_limits(record.data.kvs())
                },
            },
    {
        let bytes = match encode_entries(record.data.raw_entries()) {
            Some(b) => b,
            None => {
                return Err(
                    StoreError::Serialization(String::from_str("payload encoding failed")),
                );
            },
        };
        let row = Session { id: record.id.clone(), data: bytes, expiry_date: record.expiry_date };
        self.upsert_row(row);
        Ok(())
    }

    /// Fetch the record for an id. Absence is the empty result, not an error;
    /// a stored blob that does not decode in the fixed scheme is a
    /// serialization failure, kept distinct from absence.
    pub fn load(&self, session_id: &String) -> (r: Result<Option<Record>, StoreError>)
        requires
            self.wf(),
        ensures
            match spec_load(self@, session_id@) {
                Ok(o) => r matches Ok(ro) && (match o {
                    Some(p) => ro matches Some(rec) && rec.id@ == session_id@ && rec.wf()
                        && rec.data.kvs() == p.0 && rec.expiry_date == p.1,
                    None => ro is None,
                }),
                Err(_) => r matches Err(e) && e matches StoreError::Serialization(_),
            },
    {
        match self.index_of_id(session_id) {
            None => Ok(None),
            Some(i) => {
                proof {
                    assert(rows_kv(self.rows@)[i as int].0 == session_id@);
                    lemma_key_at(rows_kv(self.rows@), i as int);
                }
                let row = &self.rows[i];
                match decode_entries(&row.data) {
                    None => Err(
                        StoreError::Serialization(String::from_str("payload decoding failed")),
                    ),
                    Some(v) => match SessionData::from_entries(v) {
                        None => Err(
                            StoreError::Serialization(
                                String::from_str("payload keys are not unique"),
                            ),
                        ),
                        Some(d) => Ok(
                            Some(
                                Record {
                                    id: row.id.clone(),
                                    data: d,
                                    expiry_date: row.expiry_date,
                                },
                            ),
                        ),
                    },
                }
            },
        }
    }

    /// Remove the row for an id; succeeds as a no-op when none exists.
    pub fn delete(&mut self, session_id: &String) -> (r: Result<(), StoreError>)
        requires
            old(self).wf(),
        ensures
            final(self).wf(),
            r is Ok,
            final(self)@ == old(self)@.remove(session_id@),
    {
        let ghost kv0 = rows_kv(self.rows@);
        match self.index_of_id(session_id) {
            Some(i) => {
                proof {
                    assert(kv0[i as int].0 == session_id@);
                }
                self.rows.remove(i);
                proof {
                    assert(rows_kv(self.rows@) =~= kv0.remove(i as int));
                    lemma_map_of_remove(kv0, i as int);
                }
            },
            None => {
                proof {
                    assert(final(self)@ =~= old(self)@.remove(session_id@));
                }
            },
        }
        Ok(())
    }

    /// Delete exactly the rows whose expiry lies strictly before `now` — the
    /// backend-observed time, which the caller passes in — and leave every
    /// other row untouched.
    pub fn delete_expired(&mut self, now: &Timestamp) -> (r: Result<(), StoreError>)
        requires
            old(self).wf(),
        ensures
            final(self).wf(),
            r is Ok,
            forall|k: Seq<char>| #[trigger]
                final(self)@.contains_key(k) <==> old(self)@.contains_key(k) && !old(
                    self,
                )@[k].1.spec_before(*now),
            forall|k: Seq<char>| #[trigger]
                final(self)@.contains_key(k) ==> final(self)@[k] == old(self)@[k],
    {
        let ghost kv0 = rows_kv(self.rows@);
        let n = self.rows.len();
        let mut kept: Vec<Session> = Vec::new();
        let mut i: usize = 0;
        let ghost mut src: Seq<int> = Seq::empty();
        proof {
            assert(sweep_inv(rows_kv(kept@), kv0, src, 0, *now));
        }
        while i < n
            invariant
                *self == *old(self),
                self.wf(),
                kv0 == rows_kv(self.rows@),
                n == self.rows@.len(),
                i <= n,
                keys_unique(rows_kv(kept@)),
                sweep_inv(rows_kv(kept@), kv0, src, i as int, *now),
            decreases n - i,
        {
            let row = &self.rows[i];
            proof {
                assert(kv0[i as int] == (self.rows@[i as int].id@, (self.rows@[i as int].data@,
                    self.rows@[i as int].expiry_date)));
            }
            if !row.expiry_date.before(now) {
                let ghost kvk = rows_kv(kept@);
                let row2 = row.clone();
                kept.push(row2);
                proof {
                    assert(rows_kv(kept@) =~= kvk.push(kv0[i as int]));
                    lemma_sweep_keep(kvk, kv0, src, i as int, *now);
                    src = src.push(i as int);
                }
            } else {
                proof {
                    lemma_sweep_skip(rows_kv(kept@), kv0, src, i as int, *now);
                }
            }
            i += 1;
        }
        let ghost kvk = rows_kv(kept@);
        self.rows = kept;
        proof {
            lemma_sweep_complete(kvk, kv0, src, *now);
        }
        Ok(())
    }
}

/// While the sweep has read the first `upto` rows of `all`, `kept` holds
/// copies of exactly those among them that have not yet expired at `now`;
/// `src` records, for each kept row, the position it was read from.
spec fn sweep_inv(
    kept: Seq<(Seq<char>, (Seq<u8>, Timestamp))>,
    all: Seq<(Seq<char>, (Seq<u8>, Timestamp))>,
    src: Seq<int>,
    upto: int,
    now: Timestamp,
) -> bool {
    &&& src.len() == kept.len()
    &&& forall|p: int| #![trigger src[p]]
        0 <= p < kept.len() ==> 0 <= src[p] < upto && kept[p] == all[src[p]] && !all[
            src[p]
        ].1.1.spec_before(now)
    &&& forall|j: int| #![trigger all[j]]
        0 <= j < upto && !all[j].1.1.spec_before(now) ==> has_key(kept, all[j].0)
}

/// Taking an unexpired row over into the kept rows preserves the sweep's
/// invariant and the uniqueness of the kept ids.
proof fn lemma_sweep_keep(
    kept: Seq<(Seq<char>, (Seq<u8>, Timestamp))>,
    all: Seq<(Seq<char>, (Seq<u8>, Timestamp))>,
    src: Seq<int>,
    i: int,
    now: Timestamp,
)
    requires
        sweep_inv(kept, all, src, i, now),
        keys_unique(kept),
        keys_unique(all),
        0 <= i < all.len(),
        !all[i].1.1.spec_before(now),
    ensures
        sweep_inv(kept.push(all[i]), all, src.push(i), i + 1, now),
        keys_unique(kept.push(all[i])),
{
    let k2 = kept.push(all[i]);
    let s2 = src.push(i);
    let m = kept.len() as int;
    if has_key(kept, all[i].0) {
        let p = key_index(kept, all[i].0);
        assert(0 <= p < kept.len() && kept[p].0 == all[i].0);
        assert(0 <= src[p] < i && kept[p] == all[src[p]]);
        assert(all[src[p]].0 == all[i].0);
        assert(src[p] != i);
        assert(false);
    }
    lemma_map_of_push(kept, all[i].0, all[i].1);
    assert(kept.push((all[i].0, all[i].1)) =~= k2);
    assert forall|p: int| #![trigger s2[p]]
        0 <= p < k2.len() implies 0 <= s2[p] < i + 1 && k2[p] == all[s2[p]] && !all[
        s2[p]
    ].1.1.spec_before(now) by {
        if p < m {
            assert(k2[p] == kept[p] && s2[p] == src[p]);
            assert(0 <= src[p] < i && kept[p] == all[src[p]] && !all[src[p]].1.1.spec_before(
                now,
            ));
        } else {
            assert(k2[p] == all[i] && s2[p] == i);
        }
    }
    assert forall|j: int| #![trigger all[j]]
        0 <= j < i + 1 && !all[j].1.1.spec_before(now) implies has_key(k2, all[j].0) by {
        if j < i {
            assert(has_key(kept, all[j].0));
            let q = key_index(kept, all[j].0);
            assert(0 <= q < kept.len() && kept[q].0 == all[j].0);
            assert(k2[q] == kept[q]);
            assert(0 <= q < k2.len() && k2[q].0 == all[j].0);
        } else {
            assert(k2[m] == all[i]);
            assert(0 <= m < k2.len() && k2[m].0 == all[j].0);
        }
    }
}

/// Passing an expired row by preserves the sweep's invariant.
proof fn lemma_sweep_skip(
    kept: Seq<(Seq<char>, (Seq<u8>, Timestamp))>,
    all: Seq<(Seq<char>, (Seq<u8>, Timestamp))>,
    src: Seq<int>,
    i: int,
    now: Timestamp,
)
    requires
        sweep_inv(kept, all, src, i, now),
        0 <= i < all.len(),
        all[i].1.1.spec_before(now),
    ensures
        sweep_inv(kept, all, src, i + 1, now),
{
    assert forall|p: int| #![trigger src[p]]
        0 <= p < kept.len() implies 0 <= src[p] < i + 1 && kept[p] == all[src[p]] && !all[
        src[p]
    ].1.1.spec_before(now) by {
        assert(0 <= src[p] < i && kept[p] == all[src[p]] && !all[src[p]].1.1.spec_before(now));
    }
    assert forall|j: int| #![trigger all[j]]
        0 <= j < i + 1 && !all[j].1.1.spec_before(now) implies has_key(kept, all[j].0) by {
        assert(j != i);
    }
}

/// When the sweep has read every row, the kept rows denote exactly the
/// unexpired part of the table, with every surviving row unchanged.
proof fn lemma_sweep_complete(
    kept: Seq<(Seq<char>, (Seq<u8>, Timestamp))>,
    all: Seq<(Seq<char>, (Seq<u8>, Timestamp))>,
    src: Seq<int>,
    now: Timestamp,
)
    requires
        sweep_inv(kept, all, src, all.len() as int, now),
        keys_unique(kept),
        keys_unique(all),
    ensures
        forall|k: Seq<char>| #[trigger]
            map_of(kept).contains_key(k) <==> map_of(all).contains_key(k) && !map_of(
                all,
            )[k].1.spec_before(now),
        forall|k: Seq<char>| #[trigger]
            map_of(kept).contains_key(k) ==> map_of(kept)[k] == map_of(all)[k],
{
    assert forall|k: Seq<char>| #[trigger]
        map_of(kept).contains_key(k) implies map_of(all).contains_key(k) && !map_of(
        all,
    )[k].1.spec_before(now) && map_of(kept)[k] == map_of(all)[k] by {
        let p = key_index(kept, k);
        assert(0 <= p < kept.len() && kept[p].0 == k);
        let sp = src[p];
        assert(0 <= sp < all.len() && kept[p] == all[sp]);
        lemma_key_at(all, sp);
        lemma_key_at(kept, p);
    }
    assert forall|k: Seq<char>|
        map_of(all).contains_key(k) && !map_of(all)[k].1.spec_before(now) implies #[trigger]
        map_of(kept).contains_key(k) by {
        let j = key_index(all, k);
        assert(0 <= j < all.len() && all[j].0 == k);
        lemma_key_at(all, j);
        assert(!all[j].1.1.spec_before(now));
        assert(has_key(kept, k));
    }
}

/// Round trip: when a create has stored the payload pairs `kvs` (keys
/// unrepeated) under `id` as the blob `bytes` with the normalized expiry, a
/// load of `id` must take the present branch and yield exactly those pairs
/// and that expiry — bit-equal, the normalization being idempotent.
pub proof fn lemma_create_then_load(
    pre: Map<Seq<char>, (Seq<u8>, Timestamp)>,
    id: Seq<char>,
    bytes: Seq<u8>,
    kvs: Seq<(Seq<char>, Seq<char>)>,
    e: Timestamp,
)
    requires
        msgpack_entries(bytes) == Some(kvs),
        keys_unique(kvs),
    ensures
        spec_load(pre.insert(id, (bytes, e.norm())), id) matches Ok(o) && o == Some(
            (kvs, e.norm()),
        ),
{
}

/// A delete leaves nothing for a load of the same id: the empty result.
pub proof fn lemma_delete_then_load(m: Map<Seq<char>, (Seq<u8>, Timestamp)>, id: Seq<char>)
    ensures
        spec_load(m.remove(id), id) matches Ok(o) && o is None,
{
}

/// Collision safety: a successful create only ever draws an id that is not in
/// the table, so an id already persisted — by a concurrent create that won it
/// first, or anyone else — can never equal the id a later create settles on.
pub proof fn lemma_created_ids_differ(
    m: Map<Seq<char>, (Seq<u8>, Timestamp)>,
    persisted: Seq<char>,
    fresh: Seq<char>,
)
    requires
        m.contains_key(persisted),
        !m.contains_key(fresh),
    ensures
        persisted != fresh,
{
}

} // verus!
