//! Hierarchical key identity: a path of (kind, id) elements from root to
//! leaf, with optional namespace scoping, and its conversion to and from
//! the wire key message.  The in-memory key is project-agnostic; the wire
//! key is project-scoped, so the project is supplied on conversion.
use vstd::prelude::*;

verus! {

// ---------------------------------------------------------------------
// In-memory key
// ---------------------------------------------------------------------

/// The identity of one path element: not yet assigned, a numeric id, or
/// a string name.
#[derive(Clone, Debug)]
pub enum KeyID {
    Incomplete,
    IntID(i64),
    StringID(String),
}

/// A key: this element's kind and id, the chain of parents above it, and
/// namespace scoping for the whole key.  A key flagged `is_new` is bound
/// for insertion even when its id looks complete.
pub struct Key {
    pub kind: String,
    pub id: KeyID,
    pub parent: Option<Box<Key>>,
    pub namespace: Option<String>,
    pub is_new: bool,
}

/// Mathematical model of a path element's identity.
pub enum SpecKeyID {
    Incomplete,
    IntID(i64),
    StringID(Seq<char>),
}

/// Mathematical model of one path element.
pub struct SpecPathEl {
    pub kind: Seq<char>,
    pub id: SpecKeyID,
}

/// Mathematical model of a key: the path in root-to-leaf order.
pub struct SpecKey {
    pub path: Seq<SpecPathEl>,
    pub namespace: Option<Seq<char>>,
    pub is_new: bool,
}

pub open spec fn spec_id_view(id: KeyID) -> SpecKeyID {
    match id {
        KeyID::Incomplete => SpecKeyID::Incomplete,
        KeyID::IntID(n) => SpecKeyID::IntID(n),
        KeyID::StringID(s) => SpecKeyID::StringID(s@),
    }
}

/// The path of a key, root first, leaf last.
pub open spec fn spec_key_path(k: Key) -> Seq<SpecPathEl>
    decreases k,
{
    let el = SpecPathEl { kind: k.kind@, id: spec_id_view(k.id) };
    match k.parent {
        Option::Some(p) => spec_key_path(*p).push(el),
        Option::None => seq![el],
    }
}

impl View for Key {
    type V = SpecKey;

    open spec fn view(&self) -> SpecKey {
        SpecKey {
            path: spec_key_path(*self),
            namespace: match self.namespace {
                Option::Some(n) => Option::Some(n@),
                Option::None => Option::None,
            },
            is_new: self.is_new,
        }
    }
}

/// Only the terminal path element may be incomplete.
pub open spec fn key_path_wf(path: Seq<SpecPathEl>) -> bool {
    forall|i: int| 0 <= i < path.len() - 1 ==> !(#[trigger] path[i].id is Incomplete)
}

/// Two keys identify the same entity: same path and same namespace.
/// The `is_new` flag is a write-classification mark, not identity.
pub open spec fn key_matches(a: SpecKey, b: SpecKey) -> bool {
    a.path == b.path && a.namespace == b.namespace
}

pub proof fn lemma_key_path_nonempty(k: Key)
    ensures
        spec_key_path(k).len() >= 1,
        spec_key_path(k).last() == (SpecPathEl { kind: k.kind@, id: spec_id_view(k.id) }),
    decreases k,
{
    match k.parent {
        Option::Some(p) => lemma_key_path_nonempty(*p),
        Option::None => {},
    }
}

impl Key {
    /// A root key of the given kind and id, without parent or namespace.
    pub fn new(kind: String, id: KeyID) -> (r: Key)
        ensures
            r@.path == seq![SpecPathEl { kind: kind@, id: spec_id_view(id) }],
            key_path_wf(r@.path),
            r@.namespace is None,
            r@.is_new == false,
    {
        Key { kind, id, parent: Option::None, namespace: Option::None, is_new: false }
    }

    /// The same key one level deeper: `self` becomes a child of `parent`.
    pub fn with_parent(self, parent: Key) -> (r: Key)
        ensures
            r@.path == parent@.path + seq![
                SpecPathEl { kind: self.kind@, id: spec_id_view(self.id) },
            ],
            key_path_wf(parent@.path) && !(parent@.path.last().id is Incomplete) ==> key_path_wf(
                r@.path,
            ),
            r@.namespace == self@.namespace,
            r@.is_new == self@.is_new,
    {
        let r = Key {
            kind: self.kind,
            id: self.id,
            parent: Option::Some(Box::new(parent)),
            namespace: self.namespace,
            is_new: self.is_new,
        };
        proof {
            assert(r@.path =~= spec_key_path(parent) + seq![
                SpecPathEl { kind: r.kind@, id: spec_id_view(r.id) },
            ]);
        }
        r
    }

    /// The same key scoped to a namespace.
    pub fn with_namespace(self, namespace: String) -> (r: Key)
        ensures
            r@.path == self@.path,
            r@.namespace == Option::Some(namespace@),
            r@.is_new == self@.is_new,
    {
        Key { namespace: Option::Some(namespace), ..self }
    }

    /// The same key marked as bound for insertion.
    pub fn mark_new(self) -> (r: Key)
        ensures
            r@.path == self@.path,
            r@.namespace == self@.namespace,
            r@.is_new == true,
    {
        Key { is_new: true, ..self }
    }

    /// Whether the terminal path element has no id yet.
    pub fn is_incomplete(&self) -> (r: bool)
        ensures
            r == (self@.path.last().id is Incomplete),
    {
        proof {
            lemma_key_path_nonempty(*self);
        }
        match &self.id {
            KeyID::Incomplete => true,
            _ => false,
        }
    }
}

impl Key {
    /// A deep copy of this key, parents included.
    pub fn duplicate(&self) -> (r: Key)
        ensures
            r@ == self@,
        decreases self,
    {
        let parent = match &self.parent {
            Option::Some(p) => Option::Some(Box::new(p.duplicate())),
            Option::None => Option::None,
        };
        let r = Key {
            kind: self.kind.clone(),
            id: match &self.id {
                KeyID::Incomplete => KeyID::Incomplete,
                KeyID::IntID(n) => KeyID::IntID(*n),
                KeyID::StringID(s) => KeyID::StringID(s.clone()),
            },
            parent,
            namespace: match &self.namespace {
                Option::Some(n) => Option::Some(n.clone()),
                Option::None => Option::None,
            },
            is_new: self.is_new,
        };
        proof {
            match &r.parent {
                Option::Some(p) => {
                    assert(spec_key_path(r) == spec_key_path(**p).push(
                        SpecPathEl { kind: r.kind@, id: spec_id_view(r.id) },
                    ));
                },
                Option::None => {},
            }
            assert(r@.path =~= self@.path);
        }
        r
    }
}

/// Deep comparison of the identity of two keys.
pub fn key_eq(a: &Key, b: &Key) -> (r: bool)
    ensures
        r == key_matches(a@, b@),
    decreases a,
{
    proof {
        lemma_key_path_nonempty(*a);
        lemma_key_path_nonempty(*b);
    }
    let id_same = match (&a.id, &b.id) {
        (KeyID::Incomplete, KeyID::Incomplete) => true,
        (KeyID::IntID(x), KeyID::IntID(y)) => *x == *y,
        (KeyID::StringID(x), KeyID::StringID(y)) => x.eq(y),
        _ => false,
    };
    let ns_same = match (&a.namespace, &b.namespace) {
        (Option::None, Option::None) => true,
        (Option::Some(x), Option::Some(y)) => x.eq(y),
        _ => false,
    };
    let here_same = id_same && a.kind == b.kind;
    match (&a.parent, &b.parent) {
        (Option::None, Option::None) => here_same && ns_same,
        (Option::Some(pa), Option::Some(pb)) => {
            let parents_same = keys_same_path(pa, pb);
            proof {
                lemma_push_eq(
                    spec_key_path(**pa),
                    spec_key_path(**pb),
                    SpecPathEl { kind: a.kind@, id: spec_id_view(a.id) },
                    SpecPathEl { kind: b.kind@, id: spec_id_view(b.id) },
                );
            }
            here_same && parents_same && ns_same
        },
        (Option::Some(pa), Option::None) => {
            proof {
                lemma_key_path_nonempty(**pa);
            }
            false
        },
        (Option::None, Option::Some(pb)) => {
            proof {
                lemma_key_path_nonempty(**pb);
            }
            false
        },
    }
}

/// Deep comparison of the path chains alone.
fn keys_same_path(a: &Key, b: &Key) -> (r: bool)
    ensures
        r == (a@.path == b@.path),
    decreases a,
{
    proof {
        lemma_key_path_nonempty(*a);
        lemma_key_path_nonempty(*b);
    }
    let id_same = match (&a.id, &b.id) {
        (KeyID::Incomplete, KeyID::Incomplete) => true,
        (KeyID::IntID(x), KeyID::IntID(y)) => *x == *y,
        (KeyID::StringID(x), KeyID::StringID(y)) => x.eq(y),
        _ => false,
    };
    let here_same = id_same && a.kind == b.kind;
    match (&a.parent, &b.parent) {
        (Option::None, Option::None) => {
            proof {
                if a@.path == b@.path {
                    assert(a@.path.last() == b@.path.last());
                }
                if here_same {
                    assert(a@.path =~= b@.path);
                }
            }
            here_same
        },
        (Option::Some(pa), Option::Some(pb)) => {
            let parents_same = keys_same_path(pa, pb);
            proof {
                lemma_push_eq(
                    spec_key_path(**pa),
                    spec_key_path(**pb),
                    SpecPathEl { kind: a.kind@, id: spec_id_view(a.id) },
                    SpecPathEl { kind: b.kind@, id: spec_id_view(b.id) },
                );
            }
            here_same && parents_same
        },
        (Option::Some(pa), Option::None) => {
            proof {
                lemma_key_path_nonempty(**pa);
            }
            false
        },
        (Option::None, Option::Some(pb)) => {
            proof {
                lemma_key_path_nonempty(**pb);
            }
            false
        },
    }
}

/// Appending one element to each of two sequences gives equal sequences
/// exactly when the sequences and the elements are equal.
proof fn lemma_push_eq(s1: Seq<SpecPathEl>, s2: Seq<SpecPathEl>, e1: SpecPathEl, e2: SpecPathEl)
    ensures
        (s1.push(e1) == s2.push(e2)) <==> (s1 == s2 && e1 == e2),
{
    if s1 == s2 && e1 == e2 {
        assert(s1.push(e1) =~= s2.push(e2));
    }
    if s1.push(e1) == s2.push(e2) {
        assert(s1.push(e1).len() == s2.push(e2).len());
        assert(s1.push(e1)[s1.len() as int] == e1);
        assert(s2.push(e2)[s2.len() as int] == e2);
        assert(s1 =~= s2) by {
            assert forall|i: int| 0 <= i < s1.len() implies s1[i] == s2[i] by {
                assert(s1.push(e1)[i] == s1[i]);
                assert(s2.push(e2)[i] == s2[i]);
            }
        }
    }
}

// ---------------------------------------------------------------------
// Wire key
// ---------------------------------------------------------------------

/// Partition scoping of a wire key: project, database and namespace.
#[derive(Clone, Debug, PartialEq)]
pub struct WirePartitionId {
    pub project_id: String,
    pub database_id: String,
    pub namespace_id: String,
}

/// The id of a wire path element; absent while the id is not assigned.
#[derive(Clone, Debug, PartialEq)]
pub enum WireIdType {
    Id(i64),
    Name(String),
}

/// One element of a wire key path.
#[derive(Clone, Debug, PartialEq)]
pub struct WirePathElement {
    pub kind: String,
    pub id_type: Option<WireIdType>,
}

/// The wire key message: partition scope plus the path in root-to-leaf
/// order.
#[derive(Clone, Debug, PartialEq)]
pub struct WireKey {
    pub partition_id: Option<WirePartitionId>,
    pub path: Vec<WirePathElement>,
}

pub struct SpecWirePartitionId {
    pub project_id: Seq<char>,
    pub database_id: Seq<char>,
    pub namespace_id: Seq<char>,
}

pub enum SpecWireIdType {
    Id(i64),
    Name(Seq<char>),
}

pub struct SpecWirePathElement {
    pub kind: Seq<char>,
    pub id_type: Option<SpecWireIdType>,
}

pub struct SpecWireKey {
    pub partition_id: Option<SpecWirePartitionId>,
    pub path: Seq<SpecWirePathElement>,
}

impl View for WirePartitionId {
    type V = SpecWirePartitionId;

    open spec fn view(&self) -> SpecWirePartitionId {
        SpecWirePartitionId {
            project_id: self.project_id@,
            database_id: self.database_id@,
            namespace_id: self.namespace_id@,
        }
    }
}

impl View for WirePathElement {
    type V = SpecWirePathElement;

    open spec fn view(&self) -> SpecWirePathElement {
        SpecWirePathElement {
            kind: self.kind@,
            id_type: match self.id_type {
                Option::Some(WireIdType::Id(n)) => Option::Some(SpecWireIdType::Id(n)),
                Option::Some(WireIdType::Name(s)) => Option::Some(SpecWireIdType::Name(s@)),
                Option::None => Option::None,
            },
        }
    }
}

/// The views of a sequence of wire path elements.
pub open spec fn wire_els_view(s: Seq<WirePathElement>) -> Seq<SpecWirePathElement> {
    s.map_values(|e: WirePathElement| e@)
}

impl View for WireKey {
    type V = SpecWireKey;

    open spec fn view(&self) -> SpecWireKey {
        SpecWireKey {
            partition_id: match self.partition_id {
                Option::Some(p) => Option::Some(p@),
                Option::None => Option::None,
            },
            path: wire_els_view(self.path@),
        }
    }
}

// ---------------------------------------------------------------------
// Conversion, both directions
// ---------------------------------------------------------------------

pub open spec fn spec_id_to_wire(id: SpecKeyID) -> Option<SpecWireIdType> {
    match id {
        SpecKeyID::Incomplete => Option::None,
        SpecKeyID::IntID(n) => Option::Some(SpecWireIdType::Id(n)),
        SpecKeyID::StringID(s) => Option::Some(SpecWireIdType::Name(s)),
    }
}

pub open spec fn spec_el_to_wire(el: SpecPathEl) -> SpecWirePathElement {
    SpecWirePathElement { kind: el.kind, id_type: spec_id_to_wire(el.id) }
}

/// A whole path mapped to its wire form, element by element.
pub open spec fn spec_path_to_wire(p: Seq<SpecPathEl>) -> Seq<SpecWirePathElement> {
    p.map_values(|el: SpecPathEl| spec_el_to_wire(el))
}

/// What the namespace field of a key becomes on the wire: the name, or
/// the empty string when the key is unscoped.
pub open spec fn spec_namespace_to_wire(ns: Option<Seq<char>>) -> Seq<char> {
    match ns {
        Option::Some(n) => n,
        Option::None => Seq::empty(),
    }
}

/// The wire form of a key under the given project: partition scope from
/// project and namespace, path elements mapped one to one, root first.
pub open spec fn spec_key_to_wire(k: SpecKey, project: Seq<char>) -> SpecWireKey {
    SpecWireKey {
        partition_id: Option::Some(SpecWirePartitionId {
            project_id: project,
            database_id: Seq::empty(),
            namespace_id: spec_namespace_to_wire(k.namespace),
        }),
        path: spec_path_to_wire(k.path),
    }
}

pub open spec fn spec_id_from_wire(id: Option<SpecWireIdType>) -> SpecKeyID {
    match id {
        Option::None => SpecKeyID::Incomplete,
        Option::Some(SpecWireIdType::Id(n)) => SpecKeyID::IntID(n),
        Option::Some(SpecWireIdType::Name(s)) => SpecKeyID::StringID(s),
    }
}

pub open spec fn spec_el_from_wire(el: SpecWirePathElement) -> SpecPathEl {
    SpecPathEl { kind: el.kind, id: spec_id_from_wire(el.id_type) }
}

/// A whole wire path mapped back, element by element.
pub open spec fn spec_path_from_wire(p: Seq<SpecWirePathElement>) -> Seq<SpecPathEl> {
    p.map_values(|el: SpecWirePathElement| spec_el_from_wire(el))
}

/// The in-memory key a wire key denotes: the path mapped back element by
/// element; an empty wire namespace means an unscoped key; a key read
/// from the wire is never new.
pub open spec fn spec_key_from_wire(w: SpecWireKey) -> SpecKey {
    SpecKey {
        path: spec_path_from_wire(w.path),
        namespace: match w.partition_id {
            Option::Some(p) => if p.namespace_id.len() == 0 {
                Option::None
            } else {
                Option::Some(p.namespace_id)
            },
            Option::None => Option::None,
        },
        is_new: false,
    }
}

/// Converting a key to the wire and back reconstructs the key's whole
/// path: every kind and every identity along the parent chain.  Project
/// and namespace are scoping, not identity, and are not part of the
/// claim; a namespace survives whenever it is not the empty string.
pub proof fn lemma_key_wire_round_trip(k: SpecKey, project: Seq<char>)
    ensures
        spec_key_from_wire(spec_key_to_wire(k, project)).path == k.path,
        spec_key_from_wire(spec_key_to_wire(k, project)).is_new == false,
        (match k.namespace {
            Option::Some(n) => n.len() > 0,
            Option::None => true,
        }) ==> spec_key_from_wire(spec_key_to_wire(k, project)).namespace == k.namespace,
{
    let there = spec_key_to_wire(k, project);
    let back = spec_key_from_wire(there);
    assert(back.path =~= k.path) by {
        assert forall|i: int| 0 <= i < k.path.len() implies back.path[i] == k.path[i] by {
            assert(there.path[i] == spec_el_to_wire(k.path[i]));
            assert(back.path[i] == spec_el_from_wire(there.path[i]));
        }
    }
}

/// The wire form of a key.  The partition carries the supplied project
/// and the key's namespace; the path lists the parent chain root first.
pub fn convert_key(project_name: &str, key: &Key) -> (r: WireKey)
    ensures
        r@ == spec_key_to_wire(key@, project_name@),
{
    let mut path: Vec<WirePathElement> = Vec::new();
    push_path_elements(key, &mut path);
    let r = WireKey {
        partition_id: Option::Some(WirePartitionId {
            project_id: project_name.to_owned(),
            database_id: String::new(),
            namespace_id: match &key.namespace {
                Option::Some(n) => n.clone(),
                Option::None => String::new(),
            },
        }),
        path,
    };
    proof {
        assert(r@.path =~= spec_key_to_wire(key@, project_name@).path);
        assert(r@.partition_id == spec_key_to_wire(key@, project_name@).partition_id);
    }
    r
}

/// Appends the wire path of `key` (root first) to `out`.
fn push_path_elements(key: &Key, out: &mut Vec<WirePathElement>)
    ensures
        wire_els_view(final(out)@) == wire_els_view(old(out)@) + spec_path_to_wire(
            spec_key_path(*key),
        ),
    decreases key,
{
    let ghost own = SpecPathEl { kind: key.kind@, id: spec_id_view(key.id) };
    match &key.parent {
        Option::Some(p) => {
            push_path_elements(p, out);
            proof {
                assert(spec_key_path(*key) == spec_key_path(**p).push(own));
            }
        },
        Option::None => {
            proof {
                assert(spec_key_path(*key) == seq![own]);
            }
        },
    }
    let ghost mid = out@;
    let el = WirePathElement {
        kind: key.kind.clone(),
        id_type: match &key.id {
            KeyID::Incomplete => Option::None,
            KeyID::IntID(n) => Option::Some(WireIdType::Id(*n)),
            KeyID::StringID(s) => Option::Some(WireIdType::Name(s.clone())),
        },
    };
    out.push(el);
    proof {
        assert(el@ == spec_el_to_wire(own));
        assert(wire_els_view(out@) =~= wire_els_view(mid).push(el@));
        assert(wire_els_view(out@) =~= wire_els_view(old(out)@) + spec_path_to_wire(
            spec_key_path(*key),
        ));
    }
}

/// The in-memory key a wire key message denotes.  The path is folded
/// left to right, each element becoming the parent of the next; the
/// namespace is taken from the partition, with the empty string meaning
/// unscoped.  A wire key with an empty path denotes no key.
pub fn key_from_wire(w: &WireKey) -> (r: Option<Key>)
    ensures
        w@.path.len() == 0 ==> r is None,
        w@.path.len() > 0 ==> r is Some && r->0@ == spec_key_from_wire(w@),
{
    if w.path.len() == 0 {
        return Option::None;
    }
    let ghost goal = spec_key_from_wire(w@);
    let namespace: Option<String> = match &w.partition_id {
        Option::Some(p) => {
            if p.namespace_id.as_str().is_empty() {
                Option::None
            } else {
                Option::Some(p.namespace_id.clone())
            }
        },
        Option::None => Option::None,
    };
    let mut k = key_of_element(&w.path[0]);
    let mut i: usize = 1;
    proof {
        assert(k@.path =~= goal.path.take(1));
    }
    while i < w.path.len()
        invariant
            1 <= i <= w.path.len(),
            goal == spec_key_from_wire(w@),
            k@.path == goal.path.take(i as int),
            k@.namespace is None,
            k@.is_new == false,
        decreases w.path.len() - i,
    {
        let next = key_of_element(&w.path[i]);
        proof {
            lemma_key_path_nonempty(next);
            assert(next@.path.last() == spec_el_from_wire(w@.path[i as int]));
        }
        k = next.with_parent(k);
        proof {
            assert(k@.path =~= goal.path.take(i + 1 as int));
        }
        i = i + 1;
    }
    let r = match namespace {
        Option::Some(n) => k.with_namespace(n),
        Option::None => k,
    };
    proof {
        assert(goal.path.take(w.path.len() as int) =~= goal.path);
        assert(r@.namespace == goal.namespace);
    }
    Option::Some(r)
}

/// A root key carrying one wire path element.
fn key_of_element(el: &WirePathElement) -> (r: Key)
    ensures
        r@.path == seq![spec_el_from_wire(el@)],
        r@.namespace is None,
        r@.is_new == false,
{
    let id = match &el.id_type {
        Option::None => KeyID::Incomplete,
        Option::Some(WireIdType::Id(n)) => KeyID::IntID(*n),
        Option::Some(WireIdType::Name(s)) => KeyID::StringID(s.clone()),
    };
    Key::new(el.kind.clone(), id)
}

} // verus!
