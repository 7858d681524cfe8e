use vstd::prelude::*;
use crate::codec::{conn_of_json, conn_from_json, json_from_conn};
use crate::connection::{Connection, clone_connection};
use crate::ident::ConnectionId;
use crate::json::Json;

verus! {

// The persistent store of connection records. The store owns the
// record set in memory; reading the backing file's bytes into parsed
// JSON values and writing them back is the caller's part, so every
// rule below is checked: which elements a load keeps, which it
// quarantines, and how each mutation changes the set.

/// Failures of the storage layer. `Io` and `NoConfigDir` arise where
/// the backing file is read and written; `Json` when its content
/// cannot be parsed as JSON at all.
#[derive(Debug, Clone, PartialEq, Eq)]
pub enum StorageError {
    NoConfigDir,
    Io(String),
    Json(String),
}

impl StorageError {
    /// A short description of the failure.
    pub fn message(&self) -> (r: String)
        ensures
            self is NoConfigDir ==> r@ == "Failed to get config directory"@,
            self matches StorageError::Io(d) ==> r@ == "IO error: "@ + d@,
            self matches StorageError::Json(d) ==> r@ == "JSON error: "@ + d@,
    {
        match self {
            StorageError::NoConfigDir => String::from_str("Failed to get config directory"),
            StorageError::Io(d) => String::from_str("IO error: ").concat(d.as_str()),
            StorageError::Json(d) => String::from_str("JSON error: ").concat(d.as_str()),
        }
    }
}

/// Index of the first record with the given identifier, scanning
/// from `i`.
pub open spec fn find_by_id_from(s: Seq<Connection>, id: ConnectionId, i: int) -> Option<int>
    decreases s.len() - i,
{
    if i < 0 || i >= s.len() {
        None
    } else if s[i].id == id {
        Some(i)
    } else {
        find_by_id_from(s, id, i + 1)
    }
}

/// Index of the first record with the given identifier.
pub open spec fn find_by_id(s: Seq<Connection>, id: ConnectionId) -> Option<int> {
    find_by_id_from(s, id, 0)
}

pub proof fn lemma_find_by_id_from(s: Seq<Connection>, id: ConnectionId, i: int)
    requires
        0 <= i <= s.len(),
    ensures
        match find_by_id_from(s, id, i) {
            Some(j) => i <= j < s.len() && s[j].id == id && (forall|k: int|
                i <= k < j ==> s[k].id != id),
            None => forall|k: int| i <= k < s.len() ==> s[k].id != id,
        },
    decreases s.len() - i,
{
    if i < s.len() && s[i].id != id {
        lemma_find_by_id_from(s, id, i + 1);
    }
}

/// What `find_by_id` finds: the first record with the identifier,
/// or a guarantee that none carries it.
pub proof fn lemma_find_by_id(s: Seq<Connection>, id: ConnectionId)
    ensures
        match find_by_id(s, id) {
            Some(j) => 0 <= j < s.len() && s[j].id == id && (forall|k: int|
                0 <= k < j ==> s[k].id != id),
            None => forall|k: int| 0 <= k < s.len() ==> s[k].id != id,
        },
{
    lemma_find_by_id_from(s, id, 0);
}

/// The records among `vs` that validate, in their original order.
pub open spec fn kept_of(vs: Seq<Json>) -> Seq<Connection>
    decreases vs.len(),
{
    if vs.len() == 0 {
        Seq::empty()
    } else {
        let rest = kept_of(vs.drop_last());
        match conn_of_json(vs.last()) {
            Some(c) => rest.push(c),
            None => rest,
        }
    }
}

/// The values among `vs` that do not validate, in their original
/// order: what a load diverts to the quarantine file.
pub open spec fn rejected_of(vs: Seq<Json>) -> Seq<Json>
    decreases vs.len(),
{
    if vs.len() == 0 {
        Seq::empty()
    } else {
        let rest = rejected_of(vs.drop_last());
        match conn_of_json(vs.last()) {
            Some(c) => rest,
            None => rest.push(vs.last()),
        }
    }
}

/// The stored record set.
pub struct ConfigStorage {
    pub connections: Vec<Connection>,
}

/// Finds the position of the first record with the identifier.
fn find_index(connections: &Vec<Connection>, id: ConnectionId) -> (r: Option<usize>)
    ensures
        match r {
            Some(i) => find_by_id(connections@, id) == Some(i as int) && i < connections@.len()
                && connections@[i as int].id == id,
            None => find_by_id(connections@, id) is None,
        },
{
    let mut i: usize = 0;
    while i < connections.len()
        invariant
            i <= connections@.len(),
            find_by_id(connections@, id) == find_by_id_from(connections@, id, i as int),
        decreases connections@.len() - i,
    {
        if connections[i].id == id {
            return Some(i);
        }
        i = i + 1;
        proof {
            assert(find_by_id_from(connections@, id, i as int - 1) == find_by_id_from(
                connections@,
                id,
                i as int,
            ));
        }
    }
    None
}

impl ConfigStorage {
    /// An empty store.
    pub fn new() -> (r: ConfigStorage)
        ensures
            r.connections@ == Seq::<Connection>::empty(),
    {
        ConfigStorage { connections: Vec::new() }
    }

    /// Validates a parsed record array: valid elements are kept in
    /// their original order, invalid ones are handed back for
    /// quarantine. Partial corruption never loses a valid record and
    /// never fails the load.
    pub fn load_connections(values: Vec<Json>) -> (r: (ConfigStorage, Vec<Json>))
        ensures
            r.0.connections@ == kept_of(values@),
            r.1@ == rejected_of(values@),
    {
        let ghost orig = values@;
        let mut values = values;
        let mut kept: Vec<Connection> = Vec::new();
        let mut rejected: Vec<Json> = Vec::new();
        while values.len() > 0
            invariant
                values@.len() <= orig.len(),
                values@ == orig.subrange(orig.len() - values@.len(), orig.len() as int),
                kept@ == kept_of(orig.take(orig.len() - values@.len())),
                rejected@ == rejected_of(orig.take(orig.len() - values@.len())),
            decreases values@.len(),
        {
            let ghost p = orig.len() - values@.len();
            let v = values.remove(0);
            proof {
                assert(v == orig[p]);
                assert(values@ =~= orig.subrange(p + 1, orig.len() as int));
                assert(orig.take(p + 1).drop_last() == orig.take(p));
                assert(orig.take(p + 1).last() == orig[p]);
            }
            match conn_from_json(&v) {
                Some(c) => {
                    kept.push(c);
                },
                None => {
                    rejected.push(v);
                },
            }
        }
        proof {
            assert(orig.take(orig.len() as int) == orig);
        }
        (ConfigStorage { connections: kept }, rejected)
    }

    /// Renders the whole set, in order; each rendered value
    /// validates back to exactly the record it came from.
    pub fn save_connections(&self) -> (r: Vec<Json>)
        ensures
            r@.len() == self.connections@.len(),
            forall|i: int|
                0 <= i < r@.len() ==> conn_of_json(#[trigger] r@[i]) == Some(self.connections@[i]),
    {
        let mut out: Vec<Json> = Vec::new();
        let mut i: usize = 0;
        while i < self.connections.len()
            invariant
                i <= self.connections@.len(),
                out@.len() == i,
                forall|j: int|
                    0 <= j < i ==> conn_of_json(#[trigger] out@[j]) == Some(self.connections@[j]),
            decreases self.connections@.len() - i,
        {
            out.push(json_from_conn(&self.connections[i]));
            i = i + 1;
        }
        out
    }

    /// The first record with the identifier, if any.
    pub fn get_connection(&self, id: ConnectionId) -> (r: Option<Connection>)
        ensures
            match r {
                Some(c) => find_by_id(self.connections@, id) matches Some(i) && c
                    == self.connections@[i],
                None => find_by_id(self.connections@, id) is None,
            },
    {
        match find_index(&self.connections, id) {
            Some(i) => Some(clone_connection(&self.connections[i])),
            None => None,
        }
    }

    /// Upsert: replaces the record with a matching identifier in
    /// place, or appends the record when none matches. The set size
    /// is unchanged in the first case and grows by one in the
    /// second.
    pub fn save_connection(&mut self, connection: Connection)
        ensures
            match find_by_id(old(self).connections@, connection.id) {
                Some(i) => final(self).connections@ == old(self).connections@.update(
                    i,
                    connection,
                ),
                None => final(self).connections@ == old(self).connections@.push(connection),
            },
    {
        match find_index(&self.connections, connection.id) {
            Some(i) => {
                let ghost before = self.connections@;
                let _replaced = self.connections.remove(i);
                self.connections.insert(i, connection);
                proof {
                    assert(self.connections@ =~= before.update(i as int, connection));
                }
            },
            None => {
                self.connections.push(connection);
            },
        }
    }

    /// Removes every record with the identifier; reports whether
    /// any was present.
    pub fn delete_connection(&mut self, id: ConnectionId) -> (r: bool)
        ensures
            final(self).connections@ == remove_id(old(self).connections@, id),
            r == (find_by_id(old(self).connections@, id) is Some),
    {
        let ghost orig = self.connections@;
        let mut out: Vec<Connection> = Vec::new();
        let mut found = false;
        while self.connections.len() > 0
            invariant
                self.connections@.len() <= orig.len(),
                self.connections@ == orig.subrange(
                    orig.len() - self.connections@.len(),
                    orig.len() as int,
                ),
                out@ == remove_id(orig.take(orig.len() - self.connections@.len()), id),
                found == exists|j: int|
                    0 <= j < orig.len() - self.connections@.len() && orig[j].id == id,
            decreases self.connections@.len(),
        {
            let ghost p = orig.len() - self.connections@.len();
            let c = self.connections.remove(0);
            proof {
                assert(c == orig[p]);
                assert(self.connections@ =~= orig.subrange(p + 1, orig.len() as int));
                assert(orig.take(p + 1).drop_last() == orig.take(p));
                assert(orig.take(p + 1).last() == orig[p]);
            }
            if c.id == id {
                found = true;
                proof {
                    assert(orig[p].id == id);
                }
            } else {
                out.push(c);
            }
        }
        proof {
            assert(orig.take(orig.len() as int) == orig);
            lemma_find_by_id(orig, id);
        }
        self.connections = out;
        found
    }

    /// Sets each listed record's `order` to the identifier's
    /// position in `ids`; records whose identifier is not listed
    /// keep their previous order.
    pub fn reorder_connections(&mut self, ids: &Vec<ConnectionId>)
        requires
            ids@.len() <= 0x7fff_ffff,
        ensures
            final(self).connections@ == apply_reorder(old(self).connections@, ids@),
    {
        let mut k: usize = 0;
        while k < ids.len()
            invariant
                k <= ids@.len() <= 0x7fff_ffff,
                self.connections@ == apply_reorder(old(self).connections@, ids@.take(k as int)),
            decreases ids@.len() - k,
        {
            proof {
                assert(ids@.take(k as int + 1).drop_last() == ids@.take(k as int));
                assert(ids@.take(k as int + 1).last() == ids@[k as int]);
            }
            match find_index(&self.connections, ids[k]) {
                Some(p) => {
                    let ghost before = self.connections@;
                    let mut c = self.connections.remove(p);
                    c.order = k as i32;
                    proof {
                        assert(c == with_order(before[p as int], k as i32));
                    }
                    self.connections.insert(p, c);
                    proof {
                        assert(self.connections@ =~= before.update(
                            p as int,
                            with_order(before[p as int], k as i32),
                        ));
                    }
                },
                None => {},
            }
            k = k + 1;
        }
        proof {
            assert(ids@.take(ids@.len() as int) == ids@);
        }
    }
}

/// `s` with every record carrying the identifier removed.
pub open spec fn remove_id(s: Seq<Connection>, id: ConnectionId) -> Seq<Connection>
    decreases s.len(),
{
    if s.len() == 0 {
        Seq::empty()
    } else {
        let rest = remove_id(s.drop_last(), id);
        if s.last().id == id {
            rest
        } else {
            rest.push(s.last())
        }
    }
}

/// A record with only its sort key changed.
pub open spec fn with_order(c: Connection, o: i32) -> Connection {
    Connection {
        id: c.id,
        name: c.name,
        icon: c.icon,
        icon_color: c.icon_color,
        order: o,
        config: c.config,
        created_at: c.created_at,
        updated_at: c.updated_at,
    }
}

/// The record set after a reorder request: the requests are applied
/// left to right, each setting the order of the first record with
/// that identifier to the request's position.
pub open spec fn apply_reorder(s: Seq<Connection>, ids: Seq<ConnectionId>) -> Seq<Connection>
    decreases ids.len(),
{
    if ids.len() == 0 {
        s
    } else {
        let prev = apply_reorder(s, ids.drop_last());
        match find_by_id(prev, ids.last()) {
            Some(i) => prev.update(i, with_order(prev[i], (ids.len() - 1) as i32)),
            None => prev,
        }
    }
}

/// No two records share an identifier.
pub open spec fn unique_ids(s: Seq<Connection>) -> bool {
    forall|i: int, j: int| 0 <= i < j < s.len() ==> s[i].id != s[j].id
}

/// Saving a record set and validating the result gives the set
/// back, with nothing quarantined: the save/load round trip loses
/// no record and invents none.
pub proof fn lemma_save_load_round_trip(stored: Seq<Json>, cs: Seq<Connection>)
    requires
        stored.len() == cs.len(),
        forall|i: int| 0 <= i < stored.len() ==> conn_of_json(#[trigger] stored[i]) == Some(cs[i]),
    ensures
        kept_of(stored) == cs,
        rejected_of(stored) == Seq::<Json>::empty(),
    decreases stored.len(),
{
    if stored.len() == 0 {
        assert(cs =~= Seq::<Connection>::empty());
    } else {
        assert(forall|i: int|
            0 <= i < stored.len() - 1 ==> conn_of_json(#[trigger] stored.drop_last()[i])
                == Some(cs.drop_last()[i])) by {
            assert(forall|i: int|
                0 <= i < stored.len() - 1 ==> #[trigger] stored.drop_last()[i] == stored[i]
                    && cs.drop_last()[i] == cs[i]);
        }
        lemma_save_load_round_trip(stored.drop_last(), cs.drop_last());
        assert(conn_of_json(stored.last()) == Some(cs.last()));
        assert(kept_of(stored) == kept_of(stored.drop_last()).push(cs.last()));
        assert(cs.drop_last().push(cs.last()) =~= cs);
    }
}

/// An upsert keeps the set size when the identifier was present and
/// grows it by one when it was not.
pub proof fn lemma_upsert_semantics(s: Seq<Connection>, c: Connection)
    ensures
        match find_by_id(s, c.id) {
            Some(i) => s.update(i, c).len() == s.len() && s.update(i, c)[i] == c,
            None => s.push(c).len() == s.len() + 1 && s.push(c)[s.len() as int] == c,
        },
{
    lemma_find_by_id(s, c.id);
}

proof fn lemma_remove_id_absent(s: Seq<Connection>, id: ConnectionId)
    requires
        forall|j: int| 0 <= j < s.len() ==> s[j].id != id,
    ensures
        remove_id(s, id) == s,
    decreases s.len(),
{
    if s.len() > 0 {
        lemma_remove_id_absent(s.drop_last(), id);
        assert(remove_id(s, id) == s.drop_last().push(s.last()));
        assert(s.drop_last().push(s.last()) =~= s);
    }
}

/// A delete shrinks a set of unique identifiers by exactly one when
/// the identifier was present, and leaves it unchanged otherwise.
pub proof fn lemma_delete_semantics(s: Seq<Connection>, id: ConnectionId)
    requires
        unique_ids(s),
    ensures
        find_by_id(s, id) is Some ==> remove_id(s, id).len() == s.len() - 1,
        find_by_id(s, id) is None ==> remove_id(s, id) == s,
    decreases s.len(),
{
    lemma_find_by_id(s, id);
    match find_by_id(s, id) {
        Some(i) => {
            let front = s.drop_last();
            if s.last().id == id {
                assert(forall|j: int| 0 <= j < front.len() ==> front[j].id != id) by {
                    assert(forall|j: int|
                        0 <= j < front.len() ==> #[trigger] front[j] == s[j] && (s[j].id == id
                            ==> false));
                }
                lemma_remove_id_absent(front, id);
            } else {
                assert(i < s.len() - 1);
                assert(front[i] == s[i]);
                assert(unique_ids(front)) by {
                    assert(forall|x: int, y: int|
                        0 <= x < y < front.len() ==> #[trigger] front[x] == s[x]
                            && #[trigger] front[y] == s[y]);
                }
                lemma_find_by_id(front, id);
                assert(find_by_id(front, id) is Some) by {
                    if find_by_id(front, id) is None {
                        assert(front[i].id != id);
                    }
                }
                lemma_delete_semantics(front, id);
            }
        },
        None => {
            lemma_remove_id_absent(s, id);
        },
    }
}

/// Last position of an identifier in a reorder request.
pub open spec fn last_index_in(ids: Seq<ConnectionId>, id: ConnectionId) -> Option<int>
    decreases ids.len(),
{
    if ids.len() == 0 {
        None
    } else if ids.last() == id {
        Some(ids.len() - 1)
    } else {
        last_index_in(ids.drop_last(), id)
    }
}

/// What a reorder does to a set of unique identifiers: a record
/// whose identifier appears in `ids` ends with `order` equal to that
/// identifier's (last) position in `ids`; every other record keeps
/// its order; nothing else about any record changes. When each
/// identifier appears at most once in `ids`, the last position is
/// its only position.
pub proof fn lemma_reorder_semantics(s: Seq<Connection>, ids: Seq<ConnectionId>)
    requires
        unique_ids(s),
        ids.len() <= 0x7fff_ffff,
    ensures
        apply_reorder(s, ids).len() == s.len(),
        forall|k: int|
            0 <= k < s.len() ==> (#[trigger] apply_reorder(s, ids)[k]) == with_order(
                s[k],
                match last_index_in(ids, s[k].id) {
                    Some(i) => i as i32,
                    None => s[k].order,
                },
            ),
    decreases ids.len(),
{
    if ids.len() == 0 {
        assert(forall|k: int|
            0 <= k < s.len() ==> (#[trigger] apply_reorder(s, ids)[k]) == with_order(
                s[k],
                s[k].order,
            ));
    } else {
        lemma_reorder_semantics(s, ids.drop_last());
        let prev = apply_reorder(s, ids.drop_last());
        let idl = ids.last();
        lemma_find_by_id(prev, idl);
        assert forall|k: int|
            0 <= k < s.len() implies (#[trigger] apply_reorder(s, ids)[k]) == with_order(
            s[k],
            match last_index_in(ids, s[k].id) {
                Some(i) => i as i32,
                None => s[k].order,
            },
        ) by {
            assert(prev[k].id == s[k].id);
            match find_by_id(prev, idl) {
                Some(i) => {
                    assert(prev[i].id == idl);
                    if k == i {
                        assert(s[k].id == idl);
                        assert(last_index_in(ids, s[k].id) == Some(ids.len() - 1));
                    } else {
                        assert(prev[k].id == s[k].id && prev[i].id == s[i].id);
                        assert(s[k].id != idl) by {
                            if s[k].id == idl {
                                assert(s[k].id == s[i].id);
                            }
                        }
                        assert(last_index_in(ids, s[k].id) == last_index_in(
                            ids.drop_last(),
                            s[k].id,
                        ));
                    }
                },
                None => {
                    assert(prev[k].id != idl);
                    assert(s[k].id != idl);
                    assert(last_index_in(ids, s[k].id) == last_index_in(
                        ids.drop_last(),
                        s[k].id,
                    ));
                },
            }
        }
    }
}

/// The quarantine file's name for a given failure timestamp.
pub fn quarantine_file_name(stamp: &str) -> (r: String)
    ensures
        r@ == "connections.invalid-"@ + stamp@ + ".json"@,
{
    String::from_str("connections.invalid-").concat(stamp).concat(".json")
}

} // verus!
