//! A frame: the variables of one function being generated, by name.

use vstd::prelude::*;

use crate::compiler::bindings::{
    has_name, last_op, lemma_bindings, lemma_read_after_history, lemma_replayed_step, replayed, Bindings,
};
use crate::compiler::var::{released, Var};
use crate::llvm;

verus! {

/// The vectors whose storage is released, in order, when the variables of `es`
/// are dropped.
pub open spec fn released_all(es: Seq<(Seq<char>, Var)>) -> Seq<llvm::Value>
    decreases es.len(),
{
    if es.len() == 0 {
        Seq::empty()
    } else {
        match released(es.last().1) {
            Some(v) => released_all(es.drop_last()).push(v),
            None => released_all(es.drop_last()),
        }
    }
}

/// The variables of one function being generated, by name, and the function.
pub struct Frame {
    /// The variables by name.
    pub env: Bindings<Var>,
    pub fun: llvm::Value,
}

impl View for Frame {
    type V = Map<Seq<char>, Var>;

    /// The variables by name.
    open spec fn view(&self) -> Map<Seq<char>, Var> {
        self.env@
    }
}

impl Frame {
    /// The frame's bindings, in the order their names were first bound.
    pub open spec fn entries(&self) -> Seq<(Seq<char>, Var)> {
        self.env.entries()
    }

    /// No name is bound twice.
    pub open spec fn wf(&self) -> bool {
        self.env.wf()
    }

    /// An empty frame for the function `fun`.
    pub fn new(fun: llvm::Value) -> (f: Self)
        ensures
            f.wf(),
            f@ == Map::<Seq<char>, Var>::empty(),
            f.entries() == Seq::<(Seq<char>, Var)>::empty(),
            f.fun == fun,
    {
        Frame { env: Bindings::new(), fun }
    }

    /// The variable `literal` is bound to.
    pub fn get(&self, literal: &str) -> (r: Option<&Var>)
        requires
            self.wf(),
        ensures
            match r {
                Some(v) => self@.contains_key(literal@) && *v == self@[literal@],
                None => !self@.contains_key(literal@),
            },
    {
        self.env.get(literal)
    }

    /// Binds `literal` to `val`. Gives the vector whose storage the generated
    /// code releases for `val` as it is bound (see [`Var::dealloc`]).
    pub fn set(&mut self, literal: &str, val: Var) -> (freed: Option<llvm::Value>)
        requires
            old(self).wf(),
        ensures
            final(self).wf(),
            final(self)@ == old(self)@.insert(literal@, val),
            final(self).entries() == crate::compiler::bindings::rebound(
                old(self).entries(),
                literal@,
                val,
            ),
            final(self).fun == old(self).fun,
            freed == released(val),
    {
        let freed = val.dealloc();
        self.env.set(literal, val);
        freed
    }

    /// Unbinds `literal`.
    pub fn remove(&mut self, literal: &str)
        requires
            old(self).wf(),
        ensures
            final(self).wf(),
            final(self)@ == old(self)@.remove(literal@),
            final(self).entries() == crate::compiler::bindings::unbound(
                old(self).entries(),
                literal@,
            ),
            final(self).fun == old(self).fun,
    {
        self.env.remove(literal);
    }

    /// The vectors whose storage the generated code releases when the frame is
    /// dropped: one per vector variable, in the order of [`Frame::entries`].
    pub fn dealloc(&self) -> (r: Vec<llvm::Value>)
        ensures
            r@ == released_all(self.entries()),
    {
        let mut r: Vec<llvm::Value> = Vec::new();
        let mut i: usize = 0;
        let n = self.env.len();
        while i < n
            invariant
                n == self.entries().len(),
                i <= n,
                r@ == released_all(self.entries().take(i as int)),
            decreases n - i,
        {
            let ghost es = self.entries();
            assert(es.take(i + 1).drop_last() =~= es.take(i as int));
            if let Some(v) = self.env.value_at(i).dealloc() {
                r.push(v);
            }
            i = i + 1;
        }
        assert(self.entries().take(n as int) =~= self.entries());
        r
    }
}

/// `released_all(es)` holds a vector exactly where an entry of `es` holds it.
proof fn lemma_released_all_contains(es: Seq<(Seq<char>, Var)>, p: llvm::Value)
    ensures
        released_all(es).contains(p) <==> exists|i: int|
            0 <= i < es.len() && #[trigger] es[i].1 == Var::Vec(p),
    decreases es.len(),
{
    if es.len() > 0 {
        let init = es.drop_last();
        let last = es.len() - 1;
        lemma_released_all_contains(init, p);
        let before = released_all(init);
        if released_all(es).contains(p) {
            if before.contains(p) {
                let i = choose|i: int| 0 <= i < init.len() && #[trigger] init[i].1 == Var::Vec(p);
                assert(es[i] == init[i]);
            } else {
                let k = choose|k: int| 0 <= k < released_all(es).len() && released_all(es)[k] == p;
                if es[last].1 != Var::Vec(p) {
                    match released(es.last().1) {
                        Some(v) => {
                            assert(released_all(es) == before.push(v));
                            assert(k < before.len() || v == p);
                            assert(before[k] == p || v == p);
                        },
                        None => {
                            assert(released_all(es) == before);
                        },
                    }
                }
            }
        }
        if exists|i: int| 0 <= i < es.len() && #[trigger] es[i].1 == Var::Vec(p) {
            let i = choose|i: int| 0 <= i < es.len() && #[trigger] es[i].1 == Var::Vec(p);
            if i < last {
                assert(init[i] == es[i]);
                let k = choose|k: int| 0 <= k < before.len() && before[k] == p;
                match released(es.last().1) {
                    Some(v) => {
                        assert(released_all(es)[k] == p);
                    },
                    None => {},
                }
            } else {
                assert(es.last().1 == Var::Vec(p));
                assert(released_all(es) == before.push(p));
                assert(released_all(es)[before.len() as int] == p);
            }
        }
    }
}

/// A well-formed frame's map is the one its entries describe: a name is bound
/// exactly where it has an entry, and to that entry's variable.
pub proof fn lemma_frame_entries(f: Frame)
    requires
        f.wf(),
    ensures
        forall|name: Seq<char>| #[trigger] f@.contains_key(name) <==> has_name(f.entries(), name),
        forall|i: int|
            0 <= i < f.entries().len() ==> f@[#[trigger] f.entries()[i].0] == f.entries()[i].1,
{
    lemma_bindings(f.entries());
}

/// What dropping a well-formed frame releases is the storage of exactly the
/// vectors that its names are bound to, as [`Frame::get`] reads them.
pub proof fn lemma_dealloc_releases_bound_vectors(f: Frame, p: llvm::Value)
    requires
        f.wf(),
    ensures
        released_all(f.entries()).contains(p) <==> exists|name: Seq<char>|
            f@.contains_key(name) && #[trigger] f@[name] == Var::Vec(p),
{
    let es = f.entries();
    lemma_frame_entries(f);
    lemma_released_all_contains(es, p);
    if released_all(es).contains(p) {
        let i = choose|i: int| 0 <= i < es.len() && #[trigger] es[i].1 == Var::Vec(p);
        assert(has_name(es, es[i].0));
        assert(f@[es[i].0] == Var::Vec(p));
    }
    if exists|name: Seq<char>| f@.contains_key(name) && #[trigger] f@[name] == Var::Vec(p) {
        let name = choose|name: Seq<char>| f@.contains_key(name) && #[trigger] f@[name] == Var::Vec(p);
        assert(has_name(es, name));
        let i = choose|i: int| 0 <= i < es.len() && es[i].0 == name;
        assert(f@[es[i].0] == es[i].1);
        assert(es[i].1 == Var::Vec(p));
    }
}

/// A frame follows its history: [`Frame::new`] starts from the map of no steps,
/// and where a frame's map is that of the steps `ops`, [`Frame::set`] and
/// [`Frame::remove`] leave the map of `ops` with one more step.
pub proof fn lemma_frame_follows_history(
    f: Frame,
    ops: Seq<(Seq<char>, Option<Var>)>,
    name: Seq<char>,
    v: Var,
)
    requires
        f@ == replayed(ops),
    ensures
        replayed(Seq::<(Seq<char>, Option<Var>)>::empty()) == Map::<Seq<char>, Var>::empty(),
        f@.insert(name, v) == replayed(ops.push((name, Some(v)))),
        f@.remove(name) == replayed(ops.push((name, None::<Var>))),
{
    lemma_replayed_step(ops, name, v);
}

/// What [`Frame::get`] reads after any history of sets and removes: for a frame
/// whose map is that of the steps `ops`, the variable of the last set of `name`
/// where no remove of it came after, and nothing where `name` was never set or
/// was removed last.
pub proof fn lemma_frame_get_after_history(f: Frame, ops: Seq<(Seq<char>, Option<Var>)>, name: Seq<char>)
    requires
        f@ == replayed(ops),
    ensures
        match last_op(ops, name) {
            Some(Some(v)) => f@.contains_key(name) && f@[name] == v,
            _ => !f@.contains_key(name),
        },
{
    lemma_read_after_history(ops, name);
}

} // verus!
