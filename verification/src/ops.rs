//! The write and read paths around the converters: classification of
//! entities into insert or upsert mutations, validation of deletes,
//! the transaction's pending mutation list, and the lookup batching
//! that preserves the caller's key order while omitting what the
//! store did not return.
use vstd::prelude::*;

use crate::Error;
use crate::convert::convert_entity;
use crate::convert::spec_convert_entity;
use crate::exclude::IndexExcluded;
use crate::keys::Key;
use crate::keys::SpecKey;
use crate::keys::SpecWireKey;
use crate::keys::WireKey;
use crate::keys::convert_key;
use crate::keys::key_eq;
use crate::keys::key_matches;
use crate::keys::spec_key_to_wire;
use crate::query::WireReadOptions;
use crate::values::Entity;
use crate::values::SpecEntity;
use crate::values::SpecValue;
use crate::values::SpecWireEntity;
use crate::values::Value;
use crate::values::WireEntity;

verus! {

// ---------------------------------------------------------------------
// Views of lists
// ---------------------------------------------------------------------

/// The views of a key list.
pub open spec fn keys_view(s: Seq<Key>) -> Seq<SpecKey> {
    s.map_values(|k: Key| k@)
}

/// The views of an entity list.
pub open spec fn entities_view(s: Seq<Entity>) -> Seq<SpecEntity> {
    s.map_values(|e: Entity| e@)
}

/// The views of a list of found (key, properties) pairs.
pub open spec fn pairs_view(s: Seq<(Key, Value)>) -> Seq<(SpecKey, SpecValue)> {
    s.map_values(|p: (Key, Value)| (p.0@, p.1@))
}

/// The views of a wire key list.
pub open spec fn wire_keys_view(s: Seq<WireKey>) -> Seq<SpecWireKey> {
    s.map_values(|k: WireKey| k@)
}

/// A byte-for-byte copy of a byte string.
pub fn clone_bytes(v: &Vec<u8>) -> (r: Vec<u8>)
    ensures
        r@ == v@,
{
    let r = v.clone();
    proof {
        assert(r@ =~= v@);
    }
    r
}

// ---------------------------------------------------------------------
// Mutations
// ---------------------------------------------------------------------

/// One write operation of a commit request.
pub enum WireMutationOperation {
    Insert(WireEntity),
    Upsert(WireEntity),
    Delete(WireKey),
}

/// One mutation slot of a commit request.
pub struct WireMutation {
    pub operation: Option<WireMutationOperation>,
}

pub enum SpecWireMutationOperation {
    Insert(SpecWireEntity),
    Upsert(SpecWireEntity),
    Delete(SpecWireKey),
}

pub struct SpecWireMutation {
    pub operation: Option<SpecWireMutationOperation>,
}

impl View for WireMutation {
    type V = SpecWireMutation;

    open spec fn view(&self) -> SpecWireMutation {
        SpecWireMutation {
            operation: match self.operation {
                Option::Some(WireMutationOperation::Insert(e)) => Option::Some(
                    SpecWireMutationOperation::Insert(e@),
                ),
                Option::Some(WireMutationOperation::Upsert(e)) => Option::Some(
                    SpecWireMutationOperation::Upsert(e@),
                ),
                Option::Some(WireMutationOperation::Delete(k)) => Option::Some(
                    SpecWireMutationOperation::Delete(k@),
                ),
                Option::None => Option::None,
            },
        }
    }
}

/// The views of a mutation list.
pub open spec fn mutations_view(s: Seq<WireMutation>) -> Seq<SpecWireMutation> {
    s.map_values(|m: WireMutation| m@)
}

/// A key is bound for insertion when it is flagged new or its terminal
/// path element has no id yet; any other key is written as an upsert.
pub open spec fn spec_is_insert(k: SpecKey) -> bool {
    k.is_new || k.path.last().id is Incomplete
}

/// The write classification of one key.
pub fn is_insert(key: &Key) -> (r: bool)
    ensures
        r == spec_is_insert(key@),
{
    key.is_new || key.is_incomplete()
}

/// The mutation one entity becomes: an insert when its key is new or
/// incomplete, else an upsert, either way carrying the converted
/// entity.
pub open spec fn spec_put_mutation(
    e: SpecEntity,
    ix: IndexExcluded,
    project: Seq<char>,
) -> SpecWireMutation {
    SpecWireMutation {
        operation: Option::Some(
            if spec_is_insert(e.key) {
                SpecWireMutationOperation::Insert(spec_convert_entity(e, ix, project))
            } else {
                SpecWireMutationOperation::Upsert(spec_convert_entity(e, ix, project))
            },
        ),
    }
}

/// The mutation deleting one key.
pub open spec fn spec_delete_mutation(k: SpecKey, project: Seq<char>) -> SpecWireMutation {
    SpecWireMutation {
        operation: Option::Some(SpecWireMutationOperation::Delete(spec_key_to_wire(k, project))),
    }
}

/// Builds the mutations of a put: each entity classified insert or
/// upsert by its key and converted under the policy, in the caller's
/// order.
#[verifier::loop_isolation(false)]
pub fn build_put_mutations(
    project_name: &str,
    entities: Vec<Entity>,
    index_excluded: &IndexExcluded,
) -> (r: Vec<WireMutation>)
    requires
        forall|i: int|
            0 <= i < entities@.len() ==> (#[trigger] entities@[i]@).properties is EntityValue,
    ensures
        mutations_view(r@) == entities_view(entities@).map_values(
            |e: SpecEntity| spec_put_mutation(e, *index_excluded, project_name@),
        ),
{
    let ghost s0 = entities_view(entities@);
    let ghost target = s0.map_values(
        |e: SpecEntity| spec_put_mutation(e, *index_excluded, project_name@),
    );
    let mut entities = entities;
    let mut out: Vec<WireMutation> = Vec::new();
    proof {
        assert(mutations_view(out@) =~= target.take(0));
    }
    while entities.len() > 0
        invariant
            out@.len() + entities@.len() == s0.len(),
            entities_view(entities@) =~= s0.skip(out@.len() as int),
            mutations_view(out@) == target.take(out@.len() as int),
        decreases entities@.len(),
    {
        let ghost j = out@.len() as int;
        let ghost before = entities@;
        let entity = entities.remove(0);
        proof {
            assert(entities_view(before)[0] == entity@);
            assert(entity@ == s0[j]);
            assert(entities_view(entities@) =~= s0.skip(j + 1)) by {
                assert forall|i: int|
                    0 <= i < entities@.len() implies entities_view(entities@)[i] == s0.skip(
                    j + 1,
                )[i] by {
                    assert(entities@[i] == before[i + 1]);
                    assert(entities_view(before)[i + 1] == before[i + 1]@);
                    assert(entities_view(before)[i + 1] == s0.skip(j)[i + 1]);
                }
            };
        }
        let insert = is_insert(&entity.key);
        let wire = convert_entity(project_name, entity, index_excluded);
        out.push(WireMutation {
            operation: Option::Some(
                if insert {
                    WireMutationOperation::Insert(wire)
                } else {
                    WireMutationOperation::Upsert(wire)
                },
            ),
        });
        proof {
            assert(target[j] == spec_put_mutation(s0[j], *index_excluded, project_name@));
            assert(target.take(j + 1) =~= target.take(j).push(target[j]));
            assert(mutations_view(out@) =~= target.take(j + 1));
        }
    }
    proof {
        assert(target.take(s0.len() as int) =~= target);
    }
    out
}

/// Builds the mutations of a delete.  A key whose terminal id is
/// incomplete cannot be deleted: the whole batch fails validation and
/// no mutation is produced.
#[verifier::loop_isolation(false)]
pub fn build_delete_mutations(project_name: &str, keys: Vec<Key>) -> (r: Result<
    Vec<WireMutation>,
    Error,
>)
    ensures
        (r is Ok) == (forall|i: int|
            0 <= i < keys@.len() ==> !((#[trigger] keys@[i]@).path.last().id is Incomplete)),
        r is Ok ==> mutations_view(r->Ok_0@) == keys_view(keys@).map_values(
            |k: SpecKey| spec_delete_mutation(k, project_name@),
        ),
        r is Err ==> r->Err_0 is IncompleteKey,
{
    let ghost k0 = keys@;
    let ghost s0 = keys_view(keys@);
    let ghost target = s0.map_values(|k: SpecKey| spec_delete_mutation(k, project_name@));
    let mut keys = keys;
    let mut out: Vec<WireMutation> = Vec::new();
    proof {
        assert(mutations_view(out@) =~= target.take(0));
    }
    while keys.len() > 0
        invariant
            out@.len() + keys@.len() == s0.len(),
            keys_view(keys@) =~= s0.skip(out@.len() as int),
            mutations_view(out@) == target.take(out@.len() as int),
            forall|i: int|
                0 <= i < out@.len() ==> !((#[trigger] s0[i]).path.last().id is Incomplete),
        decreases keys@.len(),
    {
        let ghost j = out@.len() as int;
        let ghost before = keys@;
        let key = keys.remove(0);
        proof {
            assert(keys_view(before)[0] == key@);
            assert(key@ == s0[j]);
            assert(keys_view(keys@) =~= s0.skip(j + 1)) by {
                assert forall|i: int|
                    0 <= i < keys@.len() implies keys_view(keys@)[i] == s0.skip(j + 1)[i] by {
                    assert(keys@[i] == before[i + 1]);
                    assert(keys_view(before)[i + 1] == before[i + 1]@);
                    assert(keys_view(before)[i + 1] == s0.skip(j)[i + 1]);
                }
            };
        }
        if key.is_incomplete() {
            return Result::Err(Error::IncompleteKey);
        }
        let wire = convert_key(project_name, &key);
        out.push(WireMutation {
            operation: Option::Some(WireMutationOperation::Delete(wire)),
        });
        proof {
            assert(target[j] == spec_delete_mutation(s0[j], project_name@));
            assert(target.take(j + 1) =~= target.take(j).push(target[j]));
            assert(mutations_view(out@) =~= target.take(j + 1));
        }
    }
    proof {
        assert(target.take(s0.len() as int) =~= target);
        assert forall|i: int|
            0 <= i < k0.len() implies !((#[trigger] k0[i]@).path.last().id is Incomplete) by {
            assert(s0[i] == k0[i]@);
        }
    }
    Result::Ok(out)
}

// ---------------------------------------------------------------------
// The transaction's pending mutations
// ---------------------------------------------------------------------

#[derive(Clone, Copy, Debug, PartialEq, Eq, Structural)]
pub enum WireCommitMode {
    Unspecified,
    Transactional,
    NonTransactional,
}

/// One commit request: the pending mutations, the commit mode, and the
/// transaction the commit belongs to, if any.
pub struct WireCommitRequest {
    pub mutations: Vec<WireMutation>,
    pub mode: WireCommitMode,
    pub transaction_selector: Option<Vec<u8>>,
    pub project_id: String,
    pub database_id: String,
}

/// Builds a one-shot commit request: the given mutations, committed
/// immediately outside any transaction.
pub fn build_commit_request(project_name: &str, mutations: Vec<WireMutation>) -> (r:
    WireCommitRequest)
    ensures
        r.mutations@ == mutations@,
        r.mode == WireCommitMode::NonTransactional,
        r.transaction_selector is None,
        r.project_id@ == project_name@,
        r.database_id@ == Seq::<char>::empty(),
{
    WireCommitRequest {
        mutations,
        mode: WireCommitMode::NonTransactional,
        transaction_selector: Option::None,
        project_id: project_name.to_owned(),
        database_id: String::new(),
    }
}

/// One rollback request, naming the transaction to abandon.
pub struct WireRollbackRequest {
    pub transaction: Vec<u8>,
    pub project_id: String,
    pub database_id: String,
}

/// A transaction: the key the store assigned to it and the commit
/// request in which its mutations accumulate until the explicit
/// commit.  One transaction belongs to one caller; it is not shared.
pub struct Transaction {
    pub tx_key: Vec<u8>,
    pub commit_request: WireCommitRequest,
}

impl Transaction {
    /// A fresh transaction: no pending mutations, transactional mode,
    /// selected by its key.
    pub fn new(project_name: String, tx_key: Vec<u8>) -> (r: Transaction)
        ensures
            r.tx_key@ == tx_key@,
            r.commit_request.mutations@.len() == 0,
            r.commit_request.mode == WireCommitMode::Transactional,
            (match r.commit_request.transaction_selector {
                Option::Some(t) => t@ == tx_key@,
                Option::None => false,
            }),
            r.commit_request.project_id@ == project_name@,
            r.commit_request.database_id@ == Seq::<char>::empty(),
    {
        let selector = clone_bytes(&tx_key);
        Transaction {
            tx_key,
            commit_request: WireCommitRequest {
                mutations: Vec::new(),
                mode: WireCommitMode::Transactional,
                transaction_selector: Option::Some(selector),
                project_id: project_name,
                database_id: String::new(),
            },
        }
    }

    /// The rollback request abandoning this transaction.
    pub fn rollback_request(&self) -> (r: WireRollbackRequest)
        ensures
            r.transaction@ == self.tx_key@,
            r.project_id@ == self.commit_request.project_id@,
            r.database_id@ == Seq::<char>::empty(),
    {
        WireRollbackRequest {
            transaction: clone_bytes(&self.tx_key),
            project_id: self.commit_request.project_id.clone(),
            database_id: String::new(),
        }
    }

    /// The key the store assigned to this transaction.
    pub fn get_tx_key(self) -> (r: Vec<u8>)
        ensures
            r@ == self.tx_key@,
    {
        self.tx_key
    }

    /// Appends the put mutations of these entities to the pending
    /// list; nothing is sent until the commit.
    pub fn put_all(&mut self, entities: Vec<Entity>, index_excluded: &IndexExcluded)
        requires
            forall|i: int|
                0 <= i < entities@.len() ==> (#[trigger] entities@[i]@).properties is EntityValue,
        ensures
            mutations_view(final(self).commit_request.mutations@) == mutations_view(
                old(self).commit_request.mutations@,
            ) + entities_view(entities@).map_values(
                |e: SpecEntity| spec_put_mutation(
                    e,
                    *index_excluded,
                    old(self).commit_request.project_id@,
                ),
            ),
            final(self).tx_key@ == old(self).tx_key@,
            final(self).commit_request.mode == old(self).commit_request.mode,
            final(self).commit_request.transaction_selector == old(
                self,
            ).commit_request.transaction_selector,
            final(self).commit_request.project_id == old(self).commit_request.project_id,
            final(self).commit_request.database_id == old(self).commit_request.database_id,
    {
        let mut fresh = build_put_mutations(
            self.commit_request.project_id.as_str(),
            entities,
            index_excluded,
        );
        let ghost before = self.commit_request.mutations@;
        let ghost added = fresh@;
        self.commit_request.mutations.append(&mut fresh);
        proof {
            assert(mutations_view(self.commit_request.mutations@) =~= mutations_view(before)
                + mutations_view(added));
        }
    }

    /// Appends the delete mutations of these keys to the pending list,
    /// after validating that every key is fully identified; on a
    /// validation failure nothing is appended.
    pub fn delete_all(&mut self, keys: Vec<Key>) -> (r: Result<(), Error>)
        ensures
            (r is Ok) == (forall|i: int|
                0 <= i < keys@.len() ==> !((#[trigger] keys@[i]@).path.last().id is Incomplete)),
            r is Ok ==> mutations_view(final(self).commit_request.mutations@) == mutations_view(
                old(self).commit_request.mutations@,
            ) + keys_view(keys@).map_values(
                |k: SpecKey| spec_delete_mutation(k, old(self).commit_request.project_id@),
            ),
            r is Err ==> r->Err_0 is IncompleteKey && *final(self) == *old(self),
            final(self).tx_key@ == old(self).tx_key@,
            final(self).commit_request.mode == old(self).commit_request.mode,
            final(self).commit_request.transaction_selector == old(
                self,
            ).commit_request.transaction_selector,
            final(self).commit_request.project_id == old(self).commit_request.project_id,
            final(self).commit_request.database_id == old(self).commit_request.database_id,
    {
        match build_delete_mutations(self.commit_request.project_id.as_str(), keys) {
            Result::Ok(mut fresh) => {
                let ghost before = self.commit_request.mutations@;
                let ghost added = fresh@;
                self.commit_request.mutations.append(&mut fresh);
                proof {
                    assert(mutations_view(self.commit_request.mutations@) =~= mutations_view(
                        before,
                    ) + mutations_view(added));
                }
                Result::Ok(())
            },
            Result::Err(e) => Result::Err(e),
        }
    }
}

// ---------------------------------------------------------------------
// Id allocation and commit results
// ---------------------------------------------------------------------

/// One id-allocation request: keys with incomplete terminal ids whose
/// ids the store is asked to reserve.
pub struct WireAllocateIdsRequest {
    pub keys: Vec<WireKey>,
    pub project_id: String,
    pub database_id: String,
}

/// Builds an id-allocation request from the keys to reserve.
#[verifier::loop_isolation(false)]
pub fn build_allocate_ids_request(project_name: &str, keys: &Vec<Key>) -> (r:
    WireAllocateIdsRequest)
    ensures
        wire_keys_view(r.keys@) == keys_view(keys@).map_values(
            |k: SpecKey| spec_key_to_wire(k, project_name@),
        ),
        r.project_id@ == project_name@,
        r.database_id@ == Seq::<char>::empty(),
{
    let ghost s0 = keys_view(keys@);
    let ghost target = s0.map_values(|k: SpecKey| spec_key_to_wire(k, project_name@));
    let mut out: Vec<WireKey> = Vec::new();
    let mut i: usize = 0;
    proof {
        assert(wire_keys_view(out@) =~= target.take(0));
    }
    while i < keys.len()
        invariant
            0 <= i <= keys.len(),
            out@.len() == i,
            wire_keys_view(out@) == target.take(i as int),
        decreases keys.len() - i,
    {
        let wire = convert_key(project_name, &keys[i]);
        out.push(wire);
        proof {
            assert(target.take(i + 1 as int) =~= target.take(i as int).push(target[i as int]));
            assert(wire_keys_view(out@) =~= target.take(i + 1 as int));
        }
        i = i + 1;
    }
    proof {
        assert(target.take(s0.len() as int) =~= target);
    }
    WireAllocateIdsRequest {
        keys: out,
        project_id: project_name.to_owned(),
        database_id: String::new(),
    }
}

/// The keys an id-allocation response carries, mapped back to in-memory
/// keys.  Every returned key names at least one path element, as the
/// store returns them.
#[verifier::loop_isolation(false)]
pub fn keys_from_wire(keys: Vec<WireKey>) -> (r: Vec<Key>)
    requires
        forall|i: int| 0 <= i < keys@.len() ==> (#[trigger] keys@[i])@.path.len() > 0,
    ensures
        keys_view(r@).len() == keys@.len(),
        forall|i: int|
            0 <= i < keys@.len() ==> keys_view(r@)[i] == crate::keys::spec_key_from_wire(
                keys@[i]@,
            ),
{
    let ghost s0 = keys@;
    let mut keys = keys;
    let mut out: Vec<Key> = Vec::new();
    while keys.len() > 0
        invariant
            out@.len() + keys@.len() == s0.len(),
            keys@ =~= s0.skip(out@.len() as int),
            forall|i: int| 0 <= i < s0.len() ==> (#[trigger] s0[i])@.path.len() > 0,
            forall|i: int|
                0 <= i < out@.len() ==> keys_view(out@)[i] == crate::keys::spec_key_from_wire(
                    s0[i]@,
                ),
        decreases keys@.len(),
    {
        let ghost j = out@.len() as int;
        let ghost outb = out@;
        let wk = keys.remove(0);
        proof {
            assert(wk == s0[j]);
        }
        match crate::keys::key_from_wire(&wk) {
            Option::Some(k) => {
                out.push(k);
            },
            Option::None => {
                proof {
                    assert(false);
                }
            },
        }
        proof {
            assert forall|i: int|
                0 <= i < out@.len() implies keys_view(out@)[i] == crate::keys::spec_key_from_wire(
                s0[i]@,
            ) by {
                if i < j {
                    assert(out@[i] == outb[i]);
                    assert(keys_view(outb)[i] == outb[i]@);
                }
                assert(keys_view(out@)[i] == out@[i]@);
            }
        }
    }
    out
}

/// The result slot of one mutation in a commit response: the generated
/// key for an insert with an incomplete key, or nothing.
pub struct WireMutationResult {
    pub key: Option<WireKey>,
}

/// The keys a commit response carries, one slot per mutation in the
/// caller's order: the generated key where the store assigned one with
/// a usable path, nothing otherwise.
#[verifier::loop_isolation(false)]
pub fn mutation_result_keys(results: Vec<WireMutationResult>) -> (r: Vec<Option<Key>>)
    ensures
        r@.len() == results@.len(),
        forall|i: int|
            0 <= i < results@.len() ==> (match #[trigger] r@[i] {
                Option::Some(k) => (match (#[trigger] results@[i]).key {
                    Option::Some(wk) => wk@.path.len() > 0 && k@
                        == crate::keys::spec_key_from_wire(wk@),
                    Option::None => false,
                }),
                Option::None => (match results@[i].key {
                    Option::Some(wk) => wk@.path.len() == 0,
                    Option::None => true,
                }),
            }),
{
    let ghost s0 = results@;
    let mut results = results;
    let mut out: Vec<Option<Key>> = Vec::new();
    while results.len() > 0
        invariant
            out@.len() + results@.len() == s0.len(),
            results@ =~= s0.skip(out@.len() as int),
            forall|i: int|
                0 <= i < out@.len() ==> (match #[trigger] out@[i] {
                    Option::Some(k) => (match (#[trigger] s0[i]).key {
                        Option::Some(wk) => wk@.path.len() > 0 && k@
                            == crate::keys::spec_key_from_wire(wk@),
                        Option::None => false,
                    }),
                    Option::None => (match s0[i].key {
                        Option::Some(wk) => wk@.path.len() == 0,
                        Option::None => true,
                    }),
                }),
        decreases results@.len(),
    {
        let ghost j = out@.len() as int;
        let one = results.remove(0);
        proof {
            assert(one == s0[j]);
        }
        let mapped = match &one.key {
            Option::Some(wk) => crate::keys::key_from_wire(wk),
            Option::None => Option::None,
        };
        out.push(mapped);

    }
    out
}

// ---------------------------------------------------------------------
// Lookup batching
// ---------------------------------------------------------------------

/// One lookup request: the outstanding wire keys and the read options.
pub struct WireLookupRequest {
    pub keys: Vec<WireKey>,
    pub read_options: Option<WireReadOptions>,
    pub project_id: String,
    pub database_id: String,
}

/// One lookup response: the entities found, the keys the server
/// deferred to a later round, and the keys it knows nothing of.
pub struct WireLookupResponse {
    pub found: Vec<crate::query::WireEntityResult>,
    pub missing: Vec<crate::query::WireEntityResult>,
    pub deferred: Vec<WireKey>,
}

/// Builds one round's lookup request: the outstanding keys under the
/// project, read inside the transaction when one is given.
#[verifier::loop_isolation(false)]
pub fn build_lookup_request(project_name: &str, keys: &Vec<Key>, tx_id: Option<Vec<u8>>) -> (r:
    WireLookupRequest)
    ensures
        wire_keys_view(r.keys@) == keys_view(keys@).map_values(
            |k: SpecKey| spec_key_to_wire(k, project_name@),
        ),
        tx_id is Some ==> (match r.read_options {
            Option::Some(ro) => ro@ == Option::Some(
                crate::query::SpecWireConsistencyType::Transaction(tx_id->0@),
            ),
            Option::None => false,
        }),
        tx_id is None ==> r.read_options is None,
        r.project_id@ == project_name@,
        r.database_id@ == Seq::<char>::empty(),
{
    let ghost s0 = keys_view(keys@);
    let ghost target = s0.map_values(|k: SpecKey| spec_key_to_wire(k, project_name@));
    let mut out: Vec<WireKey> = Vec::new();
    let mut i: usize = 0;
    proof {
        assert(wire_keys_view(out@) =~= target.take(0));
    }
    while i < keys.len()
        invariant
            0 <= i <= keys.len(),
            out@.len() == i,
            wire_keys_view(out@) == target.take(i as int),
        decreases keys.len() - i,
    {
        let wire = convert_key(project_name, &keys[i]);
        out.push(wire);
        proof {
            assert(target[i as int] == spec_key_to_wire(s0[i as int], project_name@));
            assert(target.take(i + 1 as int) =~= target.take(i as int).push(target[i as int]));
            assert(wire_keys_view(out@) =~= target.take(i + 1 as int));
        }
        i = i + 1;
    }
    proof {
        assert(target.take(s0.len() as int) =~= target);
    }
    let read_options = match tx_id {
        Option::Some(tx) => Option::Some(crate::query::WireReadOptions {
            consistency_type: Option::Some(crate::query::WireConsistencyType::Transaction(tx)),
        }),
        Option::None => Option::None,
    };
    WireLookupRequest {
        keys: out,
        read_options,
        project_id: project_name.to_owned(),
        database_id: String::new(),
    }
}

/// The (key, properties) pairs of the entities one response found.
/// Every found slot must carry an entity with a keyed, non-empty path,
/// as the store returns them.
#[verifier::loop_isolation(false)]
pub fn found_entities(found: Vec<crate::query::WireEntityResult>) -> (r: Vec<(Key, Value)>)
    requires
        forall|i: int|
            0 <= i < found@.len() ==> {
                let er = (#[trigger] found@[i])@;
                &&& er.entity is Some
                &&& (er.entity->0).key is Some
                &&& ((er.entity->0).key->0).path.len() > 0
                &&& crate::convert::wire_props_wf((er.entity->0).properties)
            },
    ensures
        pairs_view(r@).len() == found@.len(),
        forall|i: int|
            0 <= i < found@.len() ==> {
                let er = (#[trigger] found@[i])@;
                pairs_view(r@)[i] == (
                    crate::keys::spec_key_from_wire((er.entity->0).key->0),
                    SpecValue::EntityValue(
                        crate::convert::spec_props_from_wire((er.entity->0).properties),
                    ),
                )
            },
{
    let ghost s0 = found@;
    let mut found = found;
    let mut out: Vec<(Key, Value)> = Vec::new();
    while found.len() > 0
        invariant
            out@.len() + found@.len() == s0.len(),
            found@ =~= s0.skip(out@.len() as int),
            pairs_view(out@).len() == out@.len(),
            forall|i: int|
                0 <= i < out@.len() ==> {
                    let er = (#[trigger] s0[i])@;
                    pairs_view(out@)[i] == (
                        crate::keys::spec_key_from_wire((er.entity->0).key->0),
                        SpecValue::EntityValue(
                            crate::convert::spec_props_from_wire((er.entity->0).properties),
                        ),
                    )
                },
        decreases found@.len(),
    {
        let ghost j = out@.len() as int;
        let ghost outb = out@;
        let er = found.remove(0);
        proof {
            assert(er == s0[j]);
        }
        match er.entity {
            Option::Some(we) => {
                match crate::convert::entity_from_wire(we) {
                    Option::Some(entity) => {
                        let Entity { key, properties } = entity;
                        out.push((key, properties));
                    },
                    Option::None => {
                        proof {
                            assert(false);
                        }
                    },
                }
            },
            Option::None => {
                proof {
                    assert(false);
                }
            },
        }
        proof {
            assert forall|i: int|
                0 <= i < out@.len() implies {
                let er2 = (#[trigger] s0[i])@;
                pairs_view(out@)[i] == (
                    crate::keys::spec_key_from_wire((er2.entity->0).key->0),
                    SpecValue::EntityValue(
                        crate::convert::spec_props_from_wire((er2.entity->0).properties),
                    ),
                )
            } by {
                if i < j {
                    assert(out@[i] == outb[i]);
                    assert(pairs_view(outb)[i] == (outb[i].0@, outb[i].1@));
                }
                assert(pairs_view(out@)[i] == (out@[i].0@, out@[i].1@));
            }
        }
    }
    out
}

/// The index of the first found pair whose key matches, or the pair
/// count when none does.
pub open spec fn spec_find_key(found: Seq<(SpecKey, SpecValue)>, k: SpecKey) -> int
    decreases found.len(),
{
    if found.len() == 0 {
        0
    } else if key_matches(found[0].0, k) {
        0
    } else {
        1 + spec_find_key(found.drop_first(), k)
    }
}

/// What `spec_find_key` finds.
pub proof fn lemma_find_key(found: Seq<(SpecKey, SpecValue)>, k: SpecKey)
    ensures
        0 <= spec_find_key(found, k) <= found.len(),
        spec_find_key(found, k) < found.len() ==> key_matches(found[spec_find_key(found, k)].0, k),
        forall|i: int| 0 <= i < spec_find_key(found, k) ==> !key_matches(found[i].0, k),
    decreases found.len(),
{
    if found.len() > 0 && !key_matches(found[0].0, k) {
        lemma_find_key(found.drop_first(), k);
        assert forall|i: int|
            0 <= i < spec_find_key(found, k) implies !key_matches(found[i].0, k) by {
            if i > 0 {
                assert(found.drop_first()[i - 1] == found[i]);
            }
        }
    }
}

/// The index of the first found pair whose key matches this key.
#[verifier::loop_isolation(false)]
fn find_key(found: &Vec<(Key, Value)>, key: &Key) -> (r: usize)
    ensures
        r == spec_find_key(pairs_view(found@), key@),
{
    let ghost fv = pairs_view(found@);
    proof {
        lemma_find_key(fv, key@);
    }
    let mut i: usize = 0;
    while i < found.len()
        invariant
            0 <= i <= found.len(),
            fv.len() == found@.len(),
            forall|m: int| 0 <= m < i ==> !key_matches(fv[m].0, key@),
            spec_find_key(fv, key@) >= i,
        decreases found.len() - i,
    {
        proof {
            assert(fv[i as int] == (found@[i as int].0@, found@[i as int].1@));
        }
        if key_eq(&found[i].0, key) {
            proof {
                assert(spec_find_key(fv, key@) <= i) by {
                    if spec_find_key(fv, key@) > i {
                        assert(!key_matches(fv[i as int].0, key@));
                    }
                }
            }
            return i;
        }
        proof {
            assert(spec_find_key(fv, key@) != i);
        }
        i = i + 1;
    }
    found.len()
}

/// The entities of a lookup, in the caller's request order.  For each
/// requested key, the first found pair whose key matches becomes the
/// next entity and is consumed; a key with no match is omitted — it
/// is not an error and leaves no placeholder.
pub open spec fn spec_lookup_results(
    keys: Seq<SpecKey>,
    found: Seq<(SpecKey, SpecValue)>,
) -> Seq<SpecEntity>
    decreases keys.len(),
{
    if keys.len() == 0 {
        Seq::empty()
    } else {
        let i = spec_find_key(found, keys[0]);
        if i < found.len() {
            seq![SpecEntity { key: found[i].0, properties: found[i].1 }] + spec_lookup_results(
                keys.drop_first(),
                found.remove(i),
            )
        } else {
            spec_lookup_results(keys.drop_first(), found)
        }
    }
}

/// Assembles the final entity list of a lookup from the caller's keys
/// and the accumulated found pairs: request order is preserved, each
/// found pair serves at most one requested key, and keys the store
/// never returned are silently omitted.
#[verifier::loop_isolation(false)]
pub fn lookup_results(keys: Vec<Key>, found: Vec<(Key, Value)>) -> (r: Vec<Entity>)
    ensures
        entities_view(r@) == spec_lookup_results(keys_view(keys@), pairs_view(found@)),
    decreases keys@.len(),
{
    let ghost kv = keys_view(keys@);
    let ghost fv = pairs_view(found@);
    let mut keys = keys;
    let mut found = found;
    if keys.len() == 0 {
        proof {
            assert(entities_view(Seq::<Entity>::empty()) =~= Seq::<SpecEntity>::empty());
        }
        return Vec::new();
    }
    let ghost kb = keys@;
    let key = keys.remove(0);
    proof {
        assert(keys_view(kb)[0] == kb[0]@);
        assert(key@ == kv[0]);
        assert(keys_view(keys@) =~= kv.drop_first()) by {
            assert forall|m: int|
                0 <= m < keys@.len() implies keys_view(keys@)[m] == kv.drop_first()[m] by {
                assert(keys@[m] == kb[m + 1]);
                assert(keys_view(kb)[m + 1] == kb[m + 1]@);
            }
        };
    }
    let i = find_key(&found, &key);
    proof {
        lemma_find_key(fv, key@);
    }
    if i < found.len() {
        let ghost fb = found@;
        let (k, v) = found.remove(i);
        proof {
            assert(pairs_view(fb)[i as int] == (fb[i as int].0@, fb[i as int].1@));
            assert((k@, v@) == fv[i as int]);
            assert(pairs_view(found@) =~= fv.remove(i as int)) by {
                assert forall|m: int|
                    0 <= m < found@.len() implies pairs_view(found@)[m] == fv.remove(i as int)[m]
                by {
                    if m < i {
                        assert(found@[m] == fb[m]);
                        assert(pairs_view(fb)[m] == (fb[m].0@, fb[m].1@));
                    } else {
                        assert(found@[m] == fb[m + 1]);
                        assert(pairs_view(fb)[m + 1] == (fb[m + 1].0@, fb[m + 1].1@));
                    }
                }
            };
        }
        let mut rest = lookup_results(keys, found);
        let ghost rest0 = rest@;
        let mut out: Vec<Entity> = Vec::new();
        out.push(Entity { key: k, properties: v });
        out.append(&mut rest);
        proof {
            assert(out@.subrange(1, out@.len() as int) =~= rest0);
            assert(entities_view(out@) =~= seq![
                SpecEntity { key: fv[i as int].0, properties: fv[i as int].1 },
            ] + entities_view(rest0));
            assert(entities_view(out@) =~= spec_lookup_results(kv, fv));
        }
        out
    } else {
        let r = lookup_results(keys, found);
        proof {
            assert(pairs_view(found@) == fv);
        }
        r
    }
}

} // verus!
