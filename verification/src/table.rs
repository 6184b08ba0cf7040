//! The symbol/local table: one flat, insertion-ordered table per translation
//! run, with no nested scoping.
//!
//! A binding is created on first declaration or first assignment, is never
//! removed, and is never rebound to a different kind: a control-flow
//! declaration records a flag only, while the arithmetic companion records a
//! computed 32-bit value. Re-declaring the same name silently succeeds.

use vstd::prelude::*;
use crate::diag::CompileError;
use crate::diag::ErrSpec;

verus! {

/// What a name is bound to.
#[derive(Clone, Copy, PartialEq, Eq, Structural, Debug)]
pub enum Binding {
    /// Declared by a control-flow statement: a declaration flag, no value.
    Flag,
    /// Declared by an assignment: the value it computed.
    IntVal(i32),
}

/// Mathematical image of a table: the bindings in insertion order.
pub type TblSpec = Seq<(Seq<u8>, Binding)>;

/// No name occurs twice.
pub open spec fn tbl_wf(t: TblSpec) -> bool {
    forall|i: int, j: int| 0 <= i < j < t.len() ==> (#[trigger] t[i]).0 != (#[trigger] t[j]).0
}

/// Whether `n` is bound.
pub open spec fn tbl_has(t: TblSpec, n: Seq<u8>) -> bool {
    exists|i: int| 0 <= i < t.len() && (#[trigger] t[i]).0 == n
}

/// The index of `n`'s binding; meaningful only when `tbl_has` holds and the
/// table is well formed.
pub open spec fn tbl_idx(t: TblSpec, n: Seq<u8>) -> int {
    choose|i: int| 0 <= i < t.len() && (#[trigger] t[i]).0 == n
}

/// What `n` is bound to; meaningful only when `tbl_has` holds.
pub open spec fn tbl_at(t: TblSpec, n: Seq<u8>) -> Binding {
    t[tbl_idx(t, n)].1
}

/// Declaration: a new flag binding, or silently the unchanged table when the
/// name is already bound (of either kind).
pub open spec fn tbl_declare(t: TblSpec, n: Seq<u8>) -> TblSpec {
    if tbl_has(t, n) {
        t
    } else {
        t.push((n, Binding::Flag))
    }
}

/// Assignment: a new value binding, or the bound value replaced in place.
/// Meaningful only when `n` is not bound as a flag.
pub open spec fn tbl_assign(t: TblSpec, n: Seq<u8>, v: i32) -> TblSpec {
    if tbl_has(t, n) {
        t.update(tbl_idx(t, n), (n, Binding::IntVal(v)))
    } else {
        t.push((n, Binding::IntVal(v)))
    }
}

/// The symbol/local table of one translation run.
pub struct Table {
    entries: Vec<(Vec<u8>, Binding)>,
}

impl View for Table {
    type V = TblSpec;

    closed spec fn view(&self) -> TblSpec {
        Seq::new(self.entries@.len(), |i: int| (self.entries@[i].0@, self.entries@[i].1))
    }
}

/// Byte-wise equality of two identifiers.
fn bytes_eq(a: &Vec<u8>, b: &Vec<u8>) -> (r: bool)
    ensures
        r == (a@ == b@),
{
    if a.len() != b.len() {
        return false;
    }
    let mut i: usize = 0;
    while i < a.len()
        invariant
            i <= a.len(),
            a@.len() == b@.len(),
            forall|k: int| 0 <= k < i ==> a@[k] == b@[k],
        decreases a.len() - i,
    {
        if a[i] != b[i] {
            return false;
        }
        i = i + 1;
    }
    proof {
        assert(a@ =~= b@);
    }
    true
}

impl Table {
    /// Every name is bound at most once.
    pub open spec fn wf(&self) -> bool {
        tbl_wf(self@)
    }

    /// The empty table of a fresh translation run.
    pub fn new() -> (t: Table)
        ensures
            t@ == Seq::<(Seq<u8>, Binding)>::empty(),
            t.wf(),
    {
        let t = Table { entries: Vec::new() };
        proof {
            assert(t@ =~= Seq::<(Seq<u8>, Binding)>::empty());
        }
        t
    }

    /// The index of `name`'s entry, if any.
    fn find(&self, name: &Vec<u8>) -> (r: Option<usize>)
        ensures
            match r {
                Some(i) => i < self@.len() && self@[i as int].0 == name@ && tbl_has(self@, name@),
                None => !tbl_has(self@, name@),
            },
    {
        let mut i: usize = 0;
        while i < self.entries.len()
            invariant
                i <= self.entries.len(),
                forall|k: int| 0 <= k < i ==> (#[trigger] self@[k]).0 != name@,
            decreases self.entries.len() - i,
        {
            if bytes_eq(&self.entries[i].0, name) {
                assert(self@[i as int].0 == name@);
                return Some(i);
            }
            i = i + 1;
        }
        None
    }

    /// Whether `name` is bound at all: the existence check of the
    /// control-flow variant.
    pub fn contains(&self, name: &Vec<u8>) -> (r: bool)
        ensures
            r == tbl_has(self@, name@),
    {
        self.find(name).is_some()
    }

    /// What `name` is bound to, if anything.
    pub fn lookup(&self, name: &Vec<u8>) -> (r: Option<Binding>)
        requires
            self.wf(),
        ensures
            r == if tbl_has(self@, name@) {
                Some(tbl_at(self@, name@))
            } else {
                None::<Binding>
            },
    {
        match self.find(name) {
            Some(i) => {
                proof {
                    let j = tbl_idx(self@, name@);
                    assert(0 <= j < self@.len() && self@[j].0 == name@);
                    assert(j == i as int);
                }
                Some(self.entries[i].1)
            }
            None => None,
        }
    }

    /// Declares `name` as a control-flow local. Re-declaration of a bound
    /// name, of either kind, silently succeeds and changes nothing.
    pub fn declare(&mut self, name: Vec<u8>)
        requires
            old(self).wf(),
        ensures
            final(self).wf(),
            final(self)@ == tbl_declare(old(self)@, name@),
    {
        let ghost pre = self@;
        match self.find(&name) {
            Some(_) => {}
            None => {
                self.entries.push((name, Binding::Flag));
                proof {
                    assert(self@ =~= pre.push((name@, Binding::Flag)));
                    assert forall|i: int, j: int| 0 <= i < j < self@.len() implies (
                    #[trigger] self@[i]).0 != (#[trigger] self@[j]).0 by {
                        if j == self@.len() - 1 {
                            assert(!tbl_has(pre, name@));
                            assert(pre[i].0 != name@);
                        }
                    }
                }
            }
        }
    }

    /// Binds `name` to the value `v`, creating the binding or replacing the
    /// value in place. A name already bound as a control-flow flag is never
    /// rebound: that is reported as a kind conflict and nothing changes.
    pub fn assign(&mut self, name: Vec<u8>, v: i32) -> (r: Result<(), CompileError>)
        requires
            old(self).wf(),
        ensures
            final(self).wf(),
            match r {
                Ok(_) => {
                    &&& !(tbl_has(old(self)@, name@) && tbl_at(old(self)@, name@) is Flag)
                    &&& final(self)@ == tbl_assign(old(self)@, name@, v)
                },
                Err(e) => {
                    &&& tbl_has(old(self)@, name@) && tbl_at(old(self)@, name@) is Flag
                    &&& e@ == (ErrSpec::KindConflict { name: name@ })
                    &&& final(self)@ == old(self)@
                },
            },
    {
        let ghost pre = self@;
        match self.find(&name) {
            Some(i) => {
                proof {
                    let j = tbl_idx(pre, name@);
                    assert(0 <= j < pre.len() && pre[j].0 == name@);
                    assert(j == i as int);
                }
                match self.entries[i].1 {
                    Binding::Flag => Err(CompileError::KindConflict { name }),
                    Binding::IntVal(_) => {
                        let ghost nseq = name@;
                        self.entries.set(i, (name, Binding::IntVal(v)));
                        proof {
                            assert(self@ =~= pre.update(i as int, (nseq, Binding::IntVal(v))));
                            assert forall|a: int, b: int| 0 <= a < b < self@.len() implies (
                            #[trigger] self@[a]).0 != (#[trigger] self@[b]).0 by {
                                assert(self@[a].0 == pre[a].0);
                                assert(self@[b].0 == pre[b].0);
                            }
                        }
                        Ok(())
                    }
                }
            }
            None => {
                let ghost nseq = name@;
                self.entries.push((name, Binding::IntVal(v)));
                proof {
                    assert(self@ =~= pre.push((nseq, Binding::IntVal(v))));
                    assert forall|a: int, b: int| 0 <= a < b < self@.len() implies (
                    #[trigger] self@[a]).0 != (#[trigger] self@[b]).0 by {
                        if b == self@.len() - 1 {
                            assert(!tbl_has(pre, nseq));
                            assert(pre[a].0 != nseq);
                        }
                    }
                }
                Ok(())
            }
        }
    }
}

} // verus!
