//! The index-exclusion policy: a mapping from entity kind to a set of
//! dot-separated property paths that must be excluded from indexing,
//! and the per-level narrowing of such a path set as conversion descends
//! one property.  Narrowing is a pure function of the current path set
//! and the current step; each path is narrowed by itself, so the result
//! does not depend on how the set is ordered or split.
use vstd::prelude::*;
use vstd::string::StrSliceExecFns;

verus! {

// ---------------------------------------------------------------------
// Dot-path splitting
// ---------------------------------------------------------------------

/// The index of the first `.` of a path, or the path's length when it
/// has none.
pub open spec fn spec_first_dot(p: Seq<char>) -> int
    decreases p.len(),
{
    if p.len() == 0 {
        0
    } else if p[0] == '.' {
        0
    } else {
        1 + spec_first_dot(p.drop_first())
    }
}

/// What `spec_first_dot` finds: the first dot, or the length.
pub proof fn lemma_first_dot(p: Seq<char>)
    ensures
        0 <= spec_first_dot(p) <= p.len(),
        spec_first_dot(p) < p.len() ==> p[spec_first_dot(p)] == '.',
        forall|i: int| 0 <= i < spec_first_dot(p) ==> p[i] != '.',
    decreases p.len(),
{
    if p.len() > 0 && p[0] != '.' {
        lemma_first_dot(p.drop_first());
        assert forall|i: int| 0 <= i < spec_first_dot(p) implies p[i] != '.' by {
            if i > 0 {
                assert(p.drop_first()[i - 1] == p[i]);
            }
        }
    }
}

/// One path narrowed by one step: split at the first dot (a path with
/// no dot is all first segment, with an empty remainder); the remainder
/// survives exactly when the first segment equals the step.
pub open spec fn spec_narrow_one(p: Seq<char>, step: Seq<char>) -> Option<Seq<char>> {
    let d = spec_first_dot(p);
    let first = p.take(d);
    let rest = if d < p.len() {
        p.skip(d + 1)
    } else {
        Seq::empty()
    };
    if first == step {
        Option::Some(rest)
    } else {
        Option::None
    }
}

/// A path set narrowed by one step, each path by itself, order kept.
pub open spec fn spec_narrow(paths: Seq<Seq<char>>, step: Seq<char>) -> Seq<Seq<char>>
    decreases paths.len(),
{
    if paths.len() == 0 {
        Seq::empty()
    } else {
        (match spec_narrow_one(paths[0], step) {
            Option::Some(r) => seq![r],
            Option::None => Seq::empty(),
        }) + spec_narrow(paths.drop_first(), step)
    }
}

/// The terminal signal: the narrowed set holds exactly one entry and
/// that entry is empty, so the current node itself is excluded.
pub open spec fn spec_exact(paths: Seq<Seq<char>>) -> bool {
    paths.len() == 1 && paths[0].len() == 0
}

// ---------------------------------------------------------------------
// Laws of narrowing
// ---------------------------------------------------------------------

/// Narrowing a single path.
pub proof fn lemma_narrow_singleton(p: Seq<char>, step: Seq<char>)
    ensures
        spec_narrow(seq![p], step) == match spec_narrow_one(p, step) {
            Option::Some(r) => seq![r],
            Option::None => Seq::<Seq<char>>::empty(),
        },
{
    let tail = seq![p].drop_first();
    assert(tail =~= Seq::<Seq<char>>::empty());
    assert(spec_narrow(tail, step) == Seq::<Seq<char>>::empty());
    assert(seq![p][0] == p);
    assert(spec_narrow(seq![p], step) =~= match spec_narrow_one(p, step) {
        Option::Some(r) => seq![r],
        Option::None => Seq::<Seq<char>>::empty(),
    });
}

/// Narrowing distributes over concatenation: every path is narrowed by
/// itself, independently of the rest of the set.  Together with
/// `lemma_narrow_singleton` this is the order-independence of
/// narrowing: the narrowed set is determined path by path.
pub proof fn lemma_narrow_distributes(s1: Seq<Seq<char>>, s2: Seq<Seq<char>>, step: Seq<char>)
    ensures
        spec_narrow(s1 + s2, step) == spec_narrow(s1, step) + spec_narrow(s2, step),
    decreases s1.len(),
{
    if s1.len() == 0 {
        assert(s1 + s2 =~= s2);
        assert(spec_narrow(s1, step) + spec_narrow(s2, step) =~= spec_narrow(s2, step));
    } else {
        lemma_narrow_distributes(s1.drop_first(), s2, step);
        assert((s1 + s2).drop_first() =~= s1.drop_first() + s2);
        assert((s1 + s2)[0] == s1[0]);
        assert(spec_narrow(s1, step) + spec_narrow(s2, step) =~= (match spec_narrow_one(
            s1[0],
            step,
        ) {
            Option::Some(r) => seq![r],
            Option::None => Seq::<Seq<char>>::empty(),
        }) + (spec_narrow(s1.drop_first(), step) + spec_narrow(s2, step)));
    }
}

/// Narrowing is order-independent: two path sets holding the same
/// paths, in any order, narrow to the same paths up to order.
pub proof fn lemma_narrow_order_independent(
    s1: Seq<Seq<char>>,
    s2: Seq<Seq<char>>,
    step: Seq<char>,
)
    requires
        s1.to_multiset() == s2.to_multiset(),
    ensures
        spec_narrow(s1, step).to_multiset() == spec_narrow(s2, step).to_multiset(),
    decreases s1.len(),
{
    broadcast use vstd::seq_lib::group_to_multiset_ensures;
    broadcast use vstd::multiset::group_multiset_axioms;

    if s1.len() == 0 {
        assert(s2.to_multiset().len() == 0);
        assert(s2.len() == 0);
        assert(spec_narrow(s1, step) == spec_narrow(s2, step));
    } else {
        let h = s1[0];
        assert(s1.contains(h));
        assert(s2.to_multiset().count(h) > 0);
        assert(s2.contains(h));
        let i = choose|i: int| 0 <= i < s2.len() && s2[i] == h;
        let t1 = s1.drop_first();
        let t2 = s2.remove(i);
        assert(s1.remove(0) =~= t1);
        assert(t1.to_multiset() =~= s1.to_multiset().remove(h));
        assert(t2.to_multiset() =~= s2.to_multiset().remove(h));
        lemma_narrow_order_independent(t1, t2, step);

        let head = match spec_narrow_one(h, step) {
            Option::Some(r) => seq![r],
            Option::None => Seq::<Seq<char>>::empty(),
        };
        lemma_narrow_singleton(h, step);
        assert(spec_narrow(s1, step) == head + spec_narrow(t1, step));
        vstd::seq_lib::lemma_multiset_commutative(head, spec_narrow(t1, step));

        let a = s2.take(i);
        let b = s2.skip(i + 1);
        assert(s2 =~= (a + seq![h]) + b);
        assert(t2 =~= a + b);
        lemma_narrow_distributes(a + seq![h], b, step);
        lemma_narrow_distributes(a, seq![h], step);
        lemma_narrow_distributes(a, b, step);
        assert(spec_narrow(s2, step) == (spec_narrow(a, step) + head) + spec_narrow(b, step));
        assert(spec_narrow(t2, step) == spec_narrow(a, step) + spec_narrow(b, step));
        vstd::seq_lib::lemma_multiset_commutative(
            spec_narrow(a, step) + head,
            spec_narrow(b, step),
        );
        vstd::seq_lib::lemma_multiset_commutative(spec_narrow(a, step), head);
        vstd::seq_lib::lemma_multiset_commutative(spec_narrow(a, step), spec_narrow(b, step));
        assert(spec_narrow(s1, step).to_multiset() =~= spec_narrow(s2, step).to_multiset());
    }
}

// ---------------------------------------------------------------------
// Executable narrowing
// ---------------------------------------------------------------------

/// The views of a list of strings.
pub open spec fn strings_view(s: Seq<String>) -> Seq<Seq<char>> {
    s.map_values(|x: String| x@)
}

/// The index of the first `.` of a string, or its length.
fn first_dot(s: &String) -> (r: usize)
    ensures
        r == spec_first_dot(s@),
{
    proof {
        lemma_first_dot(s@);
    }
    let n = s.as_str().unicode_len();
    let mut i: usize = 0;
    while i < n
        invariant
            0 <= i <= n,
            n == s@.len(),
            forall|j: int| 0 <= j < i ==> s@[j] != '.',
            spec_first_dot(s@) >= i,
        decreases n - i,
    {
        if s.as_str().get_char(i) == '.' {
            proof {
                lemma_first_dot(s@);
                assert(spec_first_dot(s@) <= i) by {
                    if spec_first_dot(s@) > i {
                        assert(s@[i as int] != '.');
                    }
                }
            }
            return i;
        }
        proof {
            lemma_first_dot(s@);
            assert(spec_first_dot(s@) != i);
        }
        i = i + 1;
    }
    n
}

/// One path narrowed by one step, on strings.
fn narrow_one(element: &String, property: &String) -> (r: Option<String>)
    ensures
        (match r {
            Option::Some(rest) => spec_narrow_one(element@, property@) == Option::Some(rest@),
            Option::None => spec_narrow_one(element@, property@) is None,
        }),
{
    let n = element.as_str().unicode_len();
    let d = first_dot(element);
    proof {
        lemma_first_dot(element@);
    }
    let plen = property.as_str().unicode_len();
    let matched = if d != plen {
        proof {
            assert(element@.take(d as int).len() != property@.len());
        }
        false
    } else {
        let mut j: usize = 0;
        let mut same = true;
        while j < d && same
            invariant
                0 <= j <= d,
                d <= n,
                d == plen,
                n == element@.len(),
                plen == property@.len(),
                same ==> forall|m: int| 0 <= m < j ==> element@[m] == property@[m],
                !same ==> element@.take(d as int) != property@,
            decreases d - j,
        {
            if element.as_str().get_char(j) != property.as_str().get_char(j) {
                proof {
                    assert(element@.take(d as int)[j as int] != property@[j as int]);
                }
                same = false;
            }
            j = j + 1;
        }
        proof {
            if same {
                assert(element@.take(d as int) =~= property@);
            }
        }
        same
    };
    if matched {
        if d < n {
            let rest = element.as_str().substring_char(d + 1, n).to_owned();
            proof {
                assert(rest@ =~= element@.skip(d + 1 as int));
            }
            Option::Some(rest)
        } else {
            Option::Some(String::new())
        }
    } else {
        Option::None
    }
}

/// Narrows a dot-path set one level: keeps the paths whose first
/// segment equals `property`, each replaced by its remainder.  An empty
/// remainder means the match is exact at this level.
pub fn get_exclude_from_indexes(list_excluded: Vec<String>, property: String) -> (r: Vec<String>)
    ensures
        strings_view(r@) == spec_narrow(strings_view(list_excluded@), property@),
{
    let mut out: Vec<String> = Vec::new();
    let mut i: usize = 0;
    let ghost all = strings_view(list_excluded@);
    while i < list_excluded.len()
        invariant
            0 <= i <= list_excluded.len(),
            all == strings_view(list_excluded@),
            strings_view(out@) == spec_narrow(all.take(i as int), property@),
        decreases list_excluded.len() - i,
    {
        let ghost before = out@;
        match narrow_one(&list_excluded[i], &property) {
            Option::Some(rest) => out.push(rest),
            Option::None => {},
        }
        proof {
            assert(all.take(i + 1 as int) =~= all.take(i as int) + seq![all[i as int]]);
            lemma_narrow_distributes(all.take(i as int), seq![all[i as int]], property@);
            lemma_narrow_singleton(all[i as int], property@);
            assert(all[i as int] == list_excluded@[i as int]@);
            assert(strings_view(out@) =~= spec_narrow(all.take(i + 1 as int), property@));
        }
        i = i + 1;
    }
    proof {
        assert(all.take(list_excluded@.len() as int) =~= all);
    }
    out
}

/// The terminal check: the narrowed set is exactly one empty entry, so
/// the current node is marked excluded from indexes.
pub fn check_exclude_from_indexes(list_excluded: Vec<String>) -> (r: bool)
    ensures
        r == spec_exact(strings_view(list_excluded@)),
{
    if list_excluded.len() == 1 {
        list_excluded[0].as_str().is_empty()
    } else {
        false
    }
}

// ---------------------------------------------------------------------
// The policy table
// ---------------------------------------------------------------------

/// The dot-paths excluded for one entity kind.
#[derive(Clone, Debug, PartialEq)]
pub struct PropertyExcluded {
    pub property: Vec<String>,
}

/// The whole policy: for each entity kind, the paths excluded from
/// indexing.  Kinds are unique; a kind that is absent has nothing
/// excluded.  The table is loaded once at client construction and never
/// mutated.
#[derive(Clone, Debug, PartialEq)]
pub struct IndexExcluded {
    pub kind: Vec<(String, PropertyExcluded)>,
}

/// The first entry of `entries` whose kind matches, or nothing.
pub open spec fn spec_policy_lookup(
    entries: Seq<(String, PropertyExcluded)>,
    kind: Seq<char>,
) -> Seq<Seq<char>>
    decreases entries.len(),
{
    if entries.len() == 0 {
        Seq::empty()
    } else if entries[0].0@ == kind {
        strings_view(entries[0].1.property@)
    } else {
        spec_policy_lookup(entries.drop_first(), kind)
    }
}

/// The paths the policy excludes for a kind: those of the kind's entry,
/// or none when the kind has no entry.
pub open spec fn spec_policy_paths(ix: IndexExcluded, kind: Seq<char>) -> Seq<Seq<char>> {
    spec_policy_lookup(ix.kind@, kind)
}

/// A clone of a list of strings keeps every string's characters.
pub(crate) fn clone_string_vec(v: &Vec<String>) -> (r: Vec<String>)
    ensures
        strings_view(r@) == strings_view(v@),
{
    let r = v.clone();
    proof {
        assert(strings_view(r@) =~= strings_view(v@));
    }
    r
}

impl IndexExcluded {
    /// A policy with nothing excluded.
    pub fn empty() -> (r: IndexExcluded)
        ensures
            r.kind@.len() == 0,
    {
        IndexExcluded { kind: Vec::new() }
    }

    /// The path set to hand a property's conversion: the kind's excluded
    /// paths narrowed by the property's name.
    pub fn ckeck_value(self, kind: String, property: String) -> (r: Vec<String>)
        ensures
            strings_view(r@) == spec_narrow(spec_policy_paths(self, kind@), property@),
    {
        self.lookup_paths(&kind, &property)
    }

    /// As `ckeck_value`, borrowing the policy instead of consuming it.
    pub fn lookup_paths(&self, kind: &String, property: &String) -> (r: Vec<String>)
        ensures
            strings_view(r@) == spec_narrow(spec_policy_paths(*self, kind@), property@),
    {
        get_exclude_from_indexes(self.kind_paths(kind), property.clone())
    }

    /// The raw path set the policy holds for a kind, before any
    /// narrowing; empty when the kind has no entry.
    pub fn kind_paths(&self, kind: &String) -> (r: Vec<String>)
        ensures
            strings_view(r@) == spec_policy_paths(*self, kind@),
    {
        let ghost entries = self.kind@;
        proof {
            assert(entries.skip(0) =~= entries);
        }
        let mut i: usize = 0;
        while i < self.kind.len()
            invariant
                0 <= i <= self.kind.len(),
                entries == self.kind@,
                spec_policy_lookup(entries.skip(i as int), kind@) == spec_policy_lookup(
                    entries,
                    kind@,
                ),
            decreases self.kind.len() - i,
        {
            proof {
                assert(entries.skip(i as int)[0] == entries[i as int]);
            }
            if self.kind[i].0.eq(kind) {
                return clone_string_vec(&self.kind[i].1.property);
            }
            proof {
                assert(entries.skip(i as int).drop_first() =~= entries.skip(i + 1 as int));
            }
            i = i + 1;
        }
        proof {
            assert(entries.skip(entries.len() as int).len() == 0);
            assert(spec_policy_lookup(entries.skip(entries.len() as int), kind@) == Seq::<
                Seq<char>,
            >::empty());
            assert(strings_view(Seq::<String>::empty()) =~= Seq::<Seq<char>>::empty());
        }
        Vec::new()
    }
}

} // verus!
