//! Values by name: the map the code generator keeps its variables in, as a
//! sequence of entries with distinct names.

use vstd::prelude::*;

use crate::text::{string_of, text_is};

verus! {

/// The value `name` is bound to in `es`: that of its last entry.
pub open spec fn lookup<V>(es: Seq<(Seq<char>, V)>, name: Seq<char>) -> Option<V>
    decreases es.len(),
{
    if es.len() == 0 {
        None
    } else if es.last().0 == name {
        Some(es.last().1)
    } else {
        lookup(es.drop_last(), name)
    }
}

/// The map from names to variables that the entries `es` describe.
pub open spec fn bindings<V>(es: Seq<(Seq<char>, V)>) -> Map<Seq<char>, V> {
    Map::new(|name: Seq<char>| lookup(es, name) is Some, |name: Seq<char>| lookup(es, name)->0)
}

/// No name has two entries in `es`.
pub open spec fn distinct_names<V>(es: Seq<(Seq<char>, V)>) -> bool {
    forall|i: int, j: int| 0 <= i < j < es.len() ==> es[i].0 != es[j].0
}

/// Whether `name` has an entry in `es`.
pub open spec fn has_name<V>(es: Seq<(Seq<char>, V)>, name: Seq<char>) -> bool {
    exists|i: int| 0 <= i < es.len() && es[i].0 == name
}

/// The index of the entry of `name` in `es`, where it has one.
pub open spec fn index_of<V>(es: Seq<(Seq<char>, V)>, name: Seq<char>) -> int {
    choose|i: int| 0 <= i < es.len() && es[i].0 == name
}

/// The entries `es` with `name` bound to `v`: its entry updated in place, or a
/// new entry at the end.
pub open spec fn rebound<V>(es: Seq<(Seq<char>, V)>, name: Seq<char>, v: V) -> Seq<
    (Seq<char>, V),
> {
    if has_name(es, name) {
        es.update(index_of(es, name), (name, v))
    } else {
        es.push((name, v))
    }
}

/// The entries `es` without the entry of `name`.
pub open spec fn unbound<V>(es: Seq<(Seq<char>, V)>, name: Seq<char>) -> Seq<(Seq<char>, V)> {
    if has_name(es, name) {
        es.remove(index_of(es, name))
    } else {
        es
    }
}

proof fn lemma_lookup_absent<V>(es: Seq<(Seq<char>, V)>, name: Seq<char>)
    requires
        !has_name(es, name),
    ensures
        lookup(es, name) is None,
    decreases es.len(),
{
    if es.len() > 0 {
        assert(es.last() == es[es.len() - 1]);
        assert forall|i: int| 0 <= i < es.drop_last().len() implies es.drop_last()[i].0 != name by {
            assert(es.drop_last()[i] == es[i]);
        }
        lemma_lookup_absent(es.drop_last(), name);
    }
}

proof fn lemma_lookup_present<V>(es: Seq<(Seq<char>, V)>, i: int)
    requires
        distinct_names(es),
        0 <= i < es.len(),
    ensures
        lookup(es, es[i].0) == Some(es[i].1),
    decreases es.len(),
{
    if i < es.len() - 1 {
        assert(es.drop_last()[i] == es[i]);
        lemma_lookup_present(es.drop_last(), i);
    }
}

/// The map the entries describe: each name with an entry is bound to that
/// entry's variable, and no other name is bound.
pub proof fn lemma_bindings<V>(es: Seq<(Seq<char>, V)>)
    requires
        distinct_names(es),
    ensures
        forall|name: Seq<char>| #[trigger]
            bindings(es).contains_key(name) <==> has_name(es, name),
        forall|i: int| 0 <= i < es.len() ==> bindings(es)[#[trigger] es[i].0] == es[i].1,
{
    assert forall|name: Seq<char>| #[trigger]
        bindings(es).contains_key(name) <==> has_name(es, name) by {
        if has_name(es, name) {
            let i = choose|i: int| 0 <= i < es.len() && es[i].0 == name;
            lemma_lookup_present(es, i);
        } else {
            lemma_lookup_absent(es, name);
        }
    }
    assert forall|i: int| 0 <= i < es.len() implies bindings(es)[#[trigger] es[i].0]
        == es[i].1 by {
        lemma_lookup_present(es, i);
    }
}

proof fn lemma_index_of<V>(es: Seq<(Seq<char>, V)>, i: int)
    requires
        distinct_names(es),
        0 <= i < es.len(),
    ensures
        has_name(es, es[i].0),
        index_of(es, es[i].0) == i,
{
    assert(has_name(es, es[i].0));
    let j = index_of(es, es[i].0);
    if j < i {
        assert(es[j].0 != es[i].0);
    } else if j > i {
        assert(es[i].0 != es[j].0);
    }
}

/// Binding a name in entries with distinct names keeps them distinct and binds
/// the name in the map they describe.
proof fn lemma_rebound<V>(es: Seq<(Seq<char>, V)>, name: Seq<char>, v: V)
    requires
        distinct_names(es),
    ensures
        distinct_names(rebound(es, name, v)),
        bindings(rebound(es, name, v)) == bindings(es).insert(name, v),
{
    let after = rebound(es, name, v);
    if has_name(es, name) {
        let k = index_of(es, name);
        assert(distinct_names(after)) by {
            assert forall|i: int, j: int| 0 <= i < j < after.len() implies after[i].0
                != after[j].0 by {
                if i != k && j != k {
                    assert(es[i].0 != es[j].0);
                }
            }
        }
    } else {
        assert(distinct_names(after)) by {
            assert forall|i: int, j: int| 0 <= i < j < after.len() implies after[i].0
                != after[j].0 by {
                if j < es.len() {
                    assert(es[i].0 != es[j].0);
                }
            }
        }
    }
    lemma_bindings(es);
    lemma_bindings(after);
    assert forall|n: Seq<char>| #[trigger]
        bindings(after).contains_key(n) == bindings(es).insert(name, v).contains_key(n) by {
        if has_name(after, n) && n != name {
            let i = choose|i: int| 0 <= i < after.len() && after[i].0 == n;
            assert(es[i].0 == n);
        }
        if has_name(es, n) {
            let i = choose|i: int| 0 <= i < es.len() && es[i].0 == n;
            assert(after[i].0 == n);
        }
        if n == name {
            if has_name(es, name) {
                assert(after[index_of(es, name)].0 == name);
            } else {
                assert(after[es.len() as int].0 == name);
            }
        }
    }
    assert forall|n: Seq<char>| #[trigger] bindings(after).contains_key(n) implies bindings(
        after,
    )[n] == bindings(es).insert(name, v)[n] by {
        let i = choose|i: int| 0 <= i < after.len() && after[i].0 == n;
        assert(bindings(after)[after[i].0] == after[i].1);
        if n != name {
            assert(es[i] == after[i]);
        }
    }
    assert(bindings(after) =~= bindings(es).insert(name, v));
}

/// Unbinding a name in entries with distinct names keeps them distinct and
/// removes the name from the map they describe.
proof fn lemma_unbound<V>(es: Seq<(Seq<char>, V)>, name: Seq<char>)
    requires
        distinct_names(es),
    ensures
        distinct_names(unbound(es, name)),
        bindings(unbound(es, name)) == bindings(es).remove(name),
{
    let after = unbound(es, name);
    lemma_bindings(es);
    if has_name(es, name) {
        let k = index_of(es, name);
        assert forall|i: int| 0 <= i < after.len() implies #[trigger] after[i] == (if i < k {
            es[i]
        } else {
            es[i + 1]
        }) by {}
        assert(distinct_names(after)) by {
            assert forall|i: int, j: int| 0 <= i < j < after.len() implies after[i].0
                != after[j].0 by {
                let i2 = if i < k { i } else { i + 1 };
                let j2 = if j < k { j } else { j + 1 };
                assert(es[i2].0 != es[j2].0);
            }
        }
        lemma_bindings(after);
        assert forall|n: Seq<char>| #[trigger]
            bindings(after).contains_key(n) == bindings(es).remove(name).contains_key(n) by {
            if has_name(after, n) {
                let i = choose|i: int| 0 <= i < after.len() && after[i].0 == n;
                let i2 = if i < k { i } else { i + 1 };
                assert(es[i2].0 == n);
                assert(i2 != k);
            }
            if has_name(es, n) && n != name {
                let i = choose|i: int| 0 <= i < es.len() && es[i].0 == n;
                assert(i != k);
                let i3 = if i < k { i } else { i - 1 };
                assert(after[i3].0 == n);
            }
        }
        assert forall|n: Seq<char>| #[trigger] bindings(after).contains_key(n) implies bindings(
            after,
        )[n] == bindings(es).remove(name)[n] by {
            let i = choose|i: int| 0 <= i < after.len() && after[i].0 == n;
            let i2 = if i < k { i } else { i + 1 };
            assert(bindings(after)[after[i].0] == after[i].1);
            assert(bindings(es)[es[i2].0] == es[i2].1);
        }
        assert(bindings(after) =~= bindings(es).remove(name));
    } else {
        assert(bindings(es).remove(name) =~= bindings(es));
    }
}

/// Values by name, kept in the order their names were first bound.
pub struct Bindings<V> {
    entries: Vec<(String, V)>,
}

impl<V> View for Bindings<V> {
    type V = Map<Seq<char>, V>;

    /// The values by name.
    open spec fn view(&self) -> Map<Seq<char>, V> {
        bindings(self.entries())
    }
}

impl<V> Bindings<V> {
    /// The entries, in the order their names were first bound.
    pub closed spec fn entries(&self) -> Seq<(Seq<char>, V)> {
        self.entries@.map_values(|e: (String, V)| (e.0@, e.1))
    }

    /// No name is bound twice.
    pub open spec fn wf(&self) -> bool {
        distinct_names(self.entries())
    }
}

impl<V: Copy> Bindings<V> {
    /// No bindings.
    pub fn new() -> (b: Self)
        ensures
            b.wf(),
            b@ == Map::<Seq<char>, V>::empty(),
            b.entries() == Seq::<(Seq<char>, V)>::empty(),
    {
        let b = Bindings { entries: Vec::new() };
        assert(b.entries() =~= Seq::<(Seq<char>, V)>::empty());
        assert(b@ =~= Map::<Seq<char>, V>::empty());
        b
    }

    /// The index of the entry of `name`, if it has one.
    fn find(&self, name: &str) -> (r: Option<usize>)
        ensures
            match r {
                Some(i) => i < self.entries.len() && self.entries()[i as int].0 == name@,
                None => !has_name(self.entries(), name@),
            },
    {
        let mut i: usize = 0;
        while i < self.entries.len()
            invariant
                i <= self.entries.len(),
                forall|j: int| 0 <= j < i ==> self.entries()[j].0 != name@,
            decreases self.entries.len() - i,
        {
            if text_is(self.entries[i].0.as_str(), name) {
                return Some(i);
            }
            i = i + 1;
        }
        None
    }

    /// The value `name` is bound to.
    pub fn get(&self, name: &str) -> (r: Option<&V>)
        requires
            self.wf(),
        ensures
            match r {
                Some(v) => self@.contains_key(name@) && *v == self@[name@],
                None => !self@.contains_key(name@),
            },
    {
        proof {
            lemma_bindings(self.entries());
        }
        match self.find(name) {
            Some(i) => Some(&self.entries[i].1),
            None => None,
        }
    }

    /// Whether `name` is bound.
    pub fn contains(&self, name: &str) -> (r: bool)
        requires
            self.wf(),
        ensures
            r == self@.contains_key(name@),
    {
        proof {
            lemma_bindings(self.entries());
        }
        self.find(name).is_some()
    }

    /// Binds `name` to `v`: in place where it is bound, as a new last entry
    /// where it is not.
    pub fn set(&mut self, name: &str, v: V)
        requires
            old(self).wf(),
        ensures
            final(self).wf(),
            final(self)@ == old(self)@.insert(name@, v),
            final(self).entries() == rebound(old(self).entries(), name@, v),
    {
        let ghost es = self.entries();
        proof {
            lemma_rebound(es, name@, v);
        }
        match self.find(name) {
            Some(i) => {
                proof {
                    lemma_index_of(es, i as int);
                }
                self.entries.set(i, (string_of(name), v));
            },
            None => {
                self.entries.push((string_of(name), v));
            },
        }
        assert(self.entries() =~= rebound(es, name@, v));
    }

    /// Unbinds `name`.
    pub fn remove(&mut self, name: &str)
        requires
            old(self).wf(),
        ensures
            final(self).wf(),
            final(self)@ == old(self)@.remove(name@),
            final(self).entries() == unbound(old(self).entries(), name@),
    {
        let ghost es = self.entries();
        proof {
            lemma_unbound(es, name@);
        }
        match self.find(name) {
            Some(i) => {
                proof {
                    lemma_index_of(es, i as int);
                }
                self.entries.remove(i);
            },
            None => {},
        }
        assert(self.entries() =~= unbound(es, name@));
    }

    /// The number of entries.
    pub fn len(&self) -> (n: usize)
        ensures
            n == self.entries().len(),
    {
        self.entries.len()
    }

    /// The value of the entry at `i`.
    pub fn value_at(&self, i: usize) -> (v: V)
        requires
            i < self.entries().len(),
        ensures
            v == self.entries()[i as int].1,
    {
        self.entries[i].1
    }
}

/// After binding a name, reading it gives the value bound, and every other name
/// reads as before; after unbinding it, it reads as unbound.
pub proof fn lemma_read_after_write<V>(b: Bindings<V>, name: Seq<char>, v: V, other: Seq<char>)
    requires
        b.wf(),
    ensures
        b@.insert(name, v).contains_key(name),
        b@.insert(name, v)[name] == v,
        !b@.remove(name).contains_key(name),
        other != name ==> b@.insert(name, v).contains_key(other) == b@.contains_key(other)
            && b@.remove(name).contains_key(other) == b@.contains_key(other),
        other != name && b@.contains_key(other) ==> b@.insert(name, v)[other] == b@[other]
            && b@.remove(name)[other] == b@[other],
{
}

/// The map that binding and unbinding names in the order of `ops` makes from no
/// bindings: `(name, Some(v))` binds `name` to `v`, `(name, None)` unbinds it.
pub open spec fn replayed<V>(ops: Seq<(Seq<char>, Option<V>)>) -> Map<Seq<char>, V>
    decreases ops.len(),
{
    if ops.len() == 0 {
        Map::empty()
    } else {
        let before = replayed(ops.drop_last());
        match ops.last().1 {
            Some(v) => before.insert(ops.last().0, v),
            None => before.remove(ops.last().0),
        }
    }
}

/// The last of `ops` on `name`, if any.
pub open spec fn last_op<V>(ops: Seq<(Seq<char>, Option<V>)>, name: Seq<char>) -> Option<Option<V>>
    decreases ops.len(),
{
    if ops.len() == 0 {
        None
    } else if ops.last().0 == name {
        Some(ops.last().1)
    } else {
        last_op(ops.drop_last(), name)
    }
}

/// Each binding or unbinding extends the history by one step.
pub proof fn lemma_replayed_step<V>(ops: Seq<(Seq<char>, Option<V>)>, name: Seq<char>, v: V)
    ensures
        replayed(ops.push((name, Some(v)))) == replayed(ops).insert(name, v),
        replayed(ops.push((name, None::<V>))) == replayed(ops).remove(name),
{
    assert(ops.push((name, Some(v))).drop_last() =~= ops);
    assert(ops.push((name, None::<V>)).drop_last() =~= ops);
}

/// After any history of bindings and unbindings, a name reads as the value of
/// its last binding where that came after its last unbinding, and as unbound
/// where it was never bound or was unbound last.
pub proof fn lemma_read_after_history<V>(ops: Seq<(Seq<char>, Option<V>)>, name: Seq<char>)
    ensures
        match last_op(ops, name) {
            Some(Some(v)) => replayed(ops).contains_key(name) && replayed(ops)[name] == v,
            _ => !replayed(ops).contains_key(name),
        },
    decreases ops.len(),
{
    if ops.len() > 0 {
        lemma_read_after_history(ops.drop_last(), name);
    }
}

} // verus!
