use vstd::prelude::*;
use vstd::slice::slice_to_vec;
use crate::errors::EmulError;
use crate::machine::Machine;
use crate::mem::AllocKind;
use crate::value::Pointer;
use crate::util::bytes_eq;

verus! {

/// A variable name is acceptable when it is non-empty and free of the
/// separator byte `=`.
pub open spec fn valid_env_name(n: Seq<u8>) -> bool {
    &&& n.len() > 0
    &&& forall|i: int| 0 <= i < n.len() ==> n[i] != ('=' as u8)
}

/// Decides whether a name may enter the environment store.
pub fn check_env_name(name: &[u8]) -> (r: bool)
    ensures
        r == valid_env_name(name@),
{
    if name.len() == 0 {
        return false;
    }
    let n = name.len();
    let mut i: usize = 0;
    while i < n
        invariant
            0 <= i <= n,
            n == name@.len(),
            forall|j: int| 0 <= j < i ==> name@[j] != ('=' as u8),
        decreases n - i,
    {
        if name[i] == '=' as u8 {
            return false;
        }
        i = i + 1;
    }
    true
}

/// One binding of the environment store: a variable name and the
/// pointer to its current null-terminated value buffer.
pub struct EnvEntry {
    pub name: Vec<u8>,
    pub buf: Pointer,
}

/// The process-wide environment variable store: a mapping from name to
/// value buffer, with exactly one live buffer per name.
pub struct EnvVars {
    pub entries: Vec<EnvEntry>,
}

impl EnvVars {
    /// The store binds `n`.
    pub open spec fn has(self, n: Seq<u8>) -> bool {
        exists|i: int| 0 <= i < self.entries@.len() && self.entries@[i].name@ == n
    }

    /// The position at which `n` is bound (meaningful only when unique).
    pub open spec fn index_of(self, n: Seq<u8>) -> int {
        choose|i: int| 0 <= i < self.entries@.len() && self.entries@[i].name@ == n
    }

    /// The buffer currently bound to `n`.
    pub open spec fn value_of(self, n: Seq<u8>) -> Pointer {
        self.entries@[self.index_of(n)].buf
    }

    /// No name is bound twice.
    pub open spec fn names_unique(self) -> bool {
        forall|i: int, j: int|
            0 <= i < j < self.entries@.len() ==> self.entries@[i].name@ != self.entries@[j].name@
    }

    /// With unique names, the binding at position `i` is what the
    /// store-level lookup finds.
    pub proof fn lemma_lookup(self, i: int)
        requires
            self.names_unique(),
            0 <= i < self.entries@.len(),
        ensures
            self.has(self.entries@[i].name@),
            self.index_of(self.entries@[i].name@) == i,
            self.value_of(self.entries@[i].name@) == self.entries@[i].buf,
    {
        let n = self.entries@[i].name@;
        assert(0 <= i < self.entries@.len() && self.entries@[i].name@ == n);
        let j = self.index_of(n);
        assert(0 <= j < self.entries@.len() && self.entries@[j].name@ == n);
        if i != j {
            assert(self.entries@[i].name@ != self.entries@[j].name@);
            assert(false);
        }
    }

    pub fn new() -> (r: EnvVars)
        ensures
            r.entries@.len() == 0,
            r.names_unique(),
    {
        EnvVars { entries: Vec::new() }
    }

    /// Looks a name up and returns its buffer, or `None` when unbound.
    pub fn get(&self, name: &[u8]) -> (r: Option<Pointer>)
        requires
            self.names_unique(),
        ensures
            r is Some <==> self.has(name@),
            r is Some ==> r.unwrap() == self.value_of(name@),
    {
        let n = self.entries.len();
        let mut i: usize = 0;
        while i < n
            invariant
                0 <= i <= n,
                n == self.entries@.len(),
                self.names_unique(),
                forall|j: int| 0 <= j < i ==> self.entries@[j].name@ != name@,
            decreases n - i,
        {
            let e = &self.entries[i];
            if bytes_eq(e.name.as_slice(), name) {
                proof {
                    self.lemma_lookup(i as int);
                }
                return Some(e.buf);
            }
            i = i + 1;
        }
        assert(!self.has(name@));
        None
    }

    /// Binds `name` to `buf`, replacing any previous binding in place,
    /// and returns the buffer it replaced, if any.
    pub fn insert(&mut self, name: Vec<u8>, buf: Pointer) -> (r: Option<Pointer>)
        requires
            old(self).names_unique(),
        ensures
            r is Some <==> old(self).has(name@),
            r is Some ==> r.unwrap() == old(self).value_of(name@),
            old(self).has(name@) ==> final(self).entries@ == old(self).entries@.update(
                old(self).index_of(name@),
                (EnvEntry { name, buf }),
            ),
            !old(self).has(name@) ==> final(self).entries@ == old(self).entries@.push(
                (EnvEntry { name, buf }),
            ),
            final(self).names_unique(),
            final(self).has(name@),
            final(self).value_of(name@) == buf,
            forall|m: Seq<u8>|
                m != name@ ==> (final(self).has(m) <==> old(self).has(m)),
            forall|m: Seq<u8>|
                m != name@ && old(self).has(m) ==> final(self).value_of(m) == old(self).value_of(m),
    {
        let ghost pre = *self;
        let n = self.entries.len();
        let mut i: usize = 0;
        let mut found: Option<usize> = None;
        while i < n
            invariant_except_break
                found is None,
            invariant
                0 <= i <= n,
                *self == pre,
                n == pre.entries@.len(),
                pre.names_unique(),
                forall|j: int| 0 <= j < i ==> pre.entries@[j].name@ != name@,
            ensures
                *self == pre,
                found matches Some(f) ==> 0 <= f < n && pre.entries@[f as int].name@ == name@,
                found is None ==> forall|j: int| 0 <= j < n ==> pre.entries@[j].name@ != name@,
            decreases n - i,
        {
            let e = &self.entries[i];
            if bytes_eq(e.name.as_slice(), name.as_slice()) {
                found = Some(i);
                break;
            }
            i = i + 1;
        }
        match found {
            Some(f) => {
                proof {
                    pre.lemma_lookup(f as int);
                }
                let old_buf = self.entries[f].buf;
                self.entries[f] = EnvEntry { name, buf };
                proof {
                    Self::lemma_update_effect(pre, *self, f as int);
                }
                Some(old_buf)
            },
            None => {
                assert(!pre.has(name@));
                self.entries.push(EnvEntry { name, buf });
                proof {
                    Self::lemma_push_effect(pre, *self);
                }
                None
            },
        }
    }

    /// Removes the binding of `name` and returns its buffer, or `None`
    /// when it was not bound.
    pub fn remove(&mut self, name: &[u8]) -> (r: Option<Pointer>)
        requires
            old(self).names_unique(),
        ensures
            r is Some <==> old(self).has(name@),
            r is Some ==> r.unwrap() == old(self).value_of(name@),
            old(self).has(name@) ==> final(self).entries@ == old(self).entries@.remove(
                old(self).index_of(name@),
            ),
            !old(self).has(name@) ==> *final(self) == *old(self),
            final(self).names_unique(),
            !final(self).has(name@),
            forall|m: Seq<u8>|
                m != name@ ==> (final(self).has(m) <==> old(self).has(m)),
            forall|m: Seq<u8>|
                m != name@ && old(self).has(m) ==> final(self).value_of(m) == old(self).value_of(m),
    {
        let ghost pre = *self;
        let n = self.entries.len();
        let mut i: usize = 0;
        let mut found: Option<usize> = None;
        while i < n
            invariant_except_break
                found is None,
            invariant
                0 <= i <= n,
                *self == pre,
                n == pre.entries@.len(),
                pre.names_unique(),
                forall|j: int| 0 <= j < i ==> pre.entries@[j].name@ != name@,
            ensures
                *self == pre,
                found matches Some(f) ==> 0 <= f < n && pre.entries@[f as int].name@ == name@,
                found is None ==> forall|j: int| 0 <= j < n ==> pre.entries@[j].name@ != name@,
            decreases n - i,
        {
            let e = &self.entries[i];
            if bytes_eq(e.name.as_slice(), name) {
                found = Some(i);
                break;
            }
            i = i + 1;
        }
        match found {
            Some(f) => {
                proof {
                    pre.lemma_lookup(f as int);
                }
                let old_buf = self.entries[f].buf;
                self.entries.remove(f);
                proof {
                    Self::lemma_remove_effect(pre, *self, f as int, name@);
                }
                Some(old_buf)
            },
            None => {
                assert(!pre.has(name@));
                None
            },
        }
    }

    /// After replacing the entry at `f` by one with the same name,
    /// lookups behave as the `insert` contract states.
    proof fn lemma_update_effect(pre: EnvVars, post: EnvVars, f: int)
        requires
            pre.names_unique(),
            0 <= f < pre.entries@.len(),
            post.entries@ == pre.entries@.update(f, post.entries@[f]),
            post.entries@.len() == pre.entries@.len(),
            post.entries@[f].name@ == pre.entries@[f].name@,
        ensures
            post.names_unique(),
            post.has(post.entries@[f].name@),
            post.value_of(post.entries@[f].name@) == post.entries@[f].buf,
            forall|m: Seq<u8>|
                m != post.entries@[f].name@ ==> (post.has(m) <==> pre.has(m)),
            forall|m: Seq<u8>|
                m != post.entries@[f].name@ && pre.has(m) ==> post.value_of(m) == pre.value_of(
                    m,
                ),
    {
        let name = post.entries@[f].name@;
        assert(forall|i: int|
            0 <= i < post.entries@.len() ==> post.entries@[i].name@ == pre.entries@[i].name@);
        assert forall|i: int, j: int|
            0 <= i < j < post.entries@.len() implies post.entries@[i].name@
            != post.entries@[j].name@ by {
            assert(pre.entries@[i].name@ != pre.entries@[j].name@);
        }
        assert(post.has(name)) by {
            assert(0 <= f < post.entries@.len() && post.entries@[f].name@ == name);
        }
        post.lemma_lookup(f);
        assert forall|m: Seq<u8>| m != name implies (post.has(m) <==> pre.has(m)) by {
            if post.has(m) {
                let w = post.index_of(m);
                assert(0 <= w < post.entries@.len() && post.entries@[w].name@ == m);
                assert(pre.entries@[w].name@ == m);
            }
            if pre.has(m) {
                let w = pre.index_of(m);
                assert(0 <= w < pre.entries@.len() && pre.entries@[w].name@ == m);
                assert(post.entries@[w].name@ == m);
            }
        }
        assert forall|m: Seq<u8>|
            m != name && pre.has(m) implies post.value_of(m) == pre.value_of(m) by {
            let w = pre.index_of(m);
            assert(0 <= w < pre.entries@.len() && pre.entries@[w].name@ == m);
            assert(w != f);
            pre.lemma_lookup(w);
            post.lemma_lookup(w);
        }
    }

    /// After appending a new entry, lookups behave as the `insert`
    /// contract states.
    proof fn lemma_push_effect(pre: EnvVars, post: EnvVars)
        requires
            pre.names_unique(),
            post.entries@.len() == pre.entries@.len() + 1,
            post.entries@ == pre.entries@.push(post.entries@[pre.entries@.len() as int]),
            !pre.has(post.entries@[pre.entries@.len() as int].name@),
        ensures
            post.names_unique(),
            post.has(post.entries@[pre.entries@.len() as int].name@),
            post.value_of(post.entries@[pre.entries@.len() as int].name@)
                == post.entries@[pre.entries@.len() as int].buf,
            forall|m: Seq<u8>|
                m != post.entries@[pre.entries@.len() as int].name@ ==> (post.has(m) <==> pre.has(
                    m,
                )),
            forall|m: Seq<u8>|
                m != post.entries@[pre.entries@.len() as int].name@ && pre.has(m)
                    ==> post.value_of(m) == pre.value_of(m),
    {
        let l = pre.entries@.len() as int;
        let newname = post.entries@[l].name@;
        assert forall|i: int, j: int|
            0 <= i < j < post.entries@.len() implies post.entries@[i].name@
            != post.entries@[j].name@ by {
            if j < l {
            } else {
                assert(j == l);
                if post.entries@[i].name@ == newname {
                    assert(pre.entries@[i].name@ == newname);
                    assert(pre.has(newname)) by {
                        assert(0 <= i < pre.entries@.len() && pre.entries@[i].name@ == newname);
                    }
                    assert(false);
                }
            }
        }
        assert(post.has(newname)) by {
            assert(0 <= l < post.entries@.len() && post.entries@[l].name@ == newname);
        }
        post.lemma_lookup(l);
        assert forall|m: Seq<u8>| m != newname implies (post.has(m) <==> pre.has(m)) by {
            if post.has(m) {
                let w = post.index_of(m);
                assert(0 <= w < post.entries@.len() && post.entries@[w].name@ == m);
                assert(w != l);
                assert(pre.entries@[w].name@ == m);
            }
            if pre.has(m) {
                let w = pre.index_of(m);
                assert(post.entries@[w].name@ == m);
            }
        }
        assert forall|m: Seq<u8>|
            m != newname && pre.has(m) implies post.value_of(m) == pre.value_of(m) by {
            let w = pre.index_of(m);
            assert(0 <= w < pre.entries@.len() && pre.entries@[w].name@ == m);
            pre.lemma_lookup(w);
            post.lemma_lookup(w);
        }
    }

    /// After removing the entry at `f`, lookups behave as the `remove`
    /// contract states.
    proof fn lemma_remove_effect(pre: EnvVars, post: EnvVars, f: int, name: Seq<u8>)
        requires
            pre.names_unique(),
            0 <= f < pre.entries@.len(),
            pre.entries@[f].name@ == name,
            post.entries@ == pre.entries@.remove(f),
        ensures
            post.names_unique(),
            !post.has(name),
            forall|m: Seq<u8>| m != name ==> (post.has(m) <==> pre.has(m)),
            forall|m: Seq<u8>|
                m != name && pre.has(m) ==> post.value_of(m) == pre.value_of(m),
    {
        assert forall|i: int, j: int|
            0 <= i < j < post.entries@.len() implies post.entries@[i].name@
            != post.entries@[j].name@ by {
            let pi = if i < f { i } else { i + 1 };
            let pj = if j < f { j } else { j + 1 };
            assert(post.entries@[i] == pre.entries@[pi]);
            assert(post.entries@[j] == pre.entries@[pj]);
        }
        assert forall|w: int|
            0 <= w < post.entries@.len() implies post.entries@[w].name@ != name by {
            let pw = if w < f { w } else { w + 1 };
            assert(post.entries@[w] == pre.entries@[pw]);
            if post.entries@[w].name@ == name {
                pre.lemma_lookup(pw);
                pre.lemma_lookup(f);
                assert(false);
            }
        }
        assert(!post.has(name));
        assert forall|m: Seq<u8>| m != name implies (post.has(m) <==> pre.has(m)) by {
            if post.has(m) {
                let w = post.index_of(m);
                assert(0 <= w < post.entries@.len() && post.entries@[w].name@ == m);
                let pw = if w < f { w } else { w + 1 };
                assert(pre.entries@[pw].name@ == m);
                assert(pre.has(m)) by {
                    assert(0 <= pw < pre.entries@.len() && pre.entries@[pw].name@ == m);
                }
            }
            if pre.has(m) {
                let w = pre.index_of(m);
                assert(0 <= w < pre.entries@.len() && pre.entries@[w].name@ == m);
                assert(w != f);
                let pw = if w < f { w } else { w - 1 };
                assert(post.entries@[pw] == pre.entries@[w]);
                assert(post.has(m)) by {
                    assert(0 <= pw < post.entries@.len() && post.entries@[pw].name@ == m);
                }
            }
        }
        assert forall|m: Seq<u8>|
            m != name && pre.has(m) implies post.value_of(m) == pre.value_of(m) by {
            let w = pre.index_of(m);
            assert(0 <= w < pre.entries@.len() && pre.entries@[w].name@ == m);
            assert(w != f);
            let pw = if w < f { w } else { w - 1 };
            assert(post.entries@[pw] == pre.entries@[w]);
            pre.lemma_lookup(w);
            post.lemma_lookup(pw);
        }
    }
}

/// The observable effect of a successful `setenv`: one fresh
/// environment buffer holding the value and its terminator, the store
/// re-bound, the replaced buffer (if any) destroyed, and nothing else
/// changed.
pub open spec fn setenv_effect(pre: Machine, post: Machine, name: Seq<u8>, value: Seq<u8>) -> bool {
    let fresh = pre.memory.allocs@.len() as int;
    &&& Machine::same_except_memory_env(pre, post)
    &&& post.memory.allocs@.len() == fresh + 1
    &&& post.memory.live(fresh)
    &&& post.memory.bytes_of(fresh) == value + seq![0u8]
    &&& post.memory.alloc_of(fresh).kind == AllocKind::Env
    &&& (pre.env_vars.has(name) ==> !post.memory.live(pre.env_vars.value_of(name).alloc as int)
        && forall|i: int|
        0 <= i < fresh && i != pre.env_vars.value_of(name).alloc ==> post.memory.allocs@[i]
            == pre.memory.allocs@[i])
    &&& (!pre.env_vars.has(name) ==> forall|i: int|
        0 <= i < fresh ==> post.memory.allocs@[i] == pre.memory.allocs@[i])
    &&& post.env_vars.has(name)
    &&& post.env_vars.value_of(name) == (Pointer { alloc: fresh as usize, offset: 0 })
    &&& forall|m: Seq<u8>|
        m != name ==> (#[trigger] post.env_vars.has(m) <==> pre.env_vars.has(m))
    &&& forall|m: Seq<u8>|
        m != name && pre.env_vars.has(m) ==> #[trigger] post.env_vars.value_of(m)
            == pre.env_vars.value_of(m)
}

/// The observable effect of a successful `unsetenv`: the binding gone,
/// its buffer destroyed, and nothing else changed.
pub open spec fn unsetenv_effect(pre: Machine, post: Machine, name: Seq<u8>) -> bool {
    let freed = pre.env_vars.value_of(name).alloc as int;
    &&& Machine::same_except_memory_env(pre, post)
    &&& post.memory.allocs@.len() == pre.memory.allocs@.len()
    &&& !post.memory.live(freed)
    &&& forall|i: int|
        0 <= i < pre.memory.allocs@.len() && i != freed ==> post.memory.allocs@[i]
            == pre.memory.allocs@[i]
    &&& !post.env_vars.has(name)
    &&& forall|m: Seq<u8>|
        m != name ==> (#[trigger] post.env_vars.has(m) <==> pre.env_vars.has(m))
    &&& forall|m: Seq<u8>|
        m != name && pre.env_vars.has(m) ==> #[trigger] post.env_vars.value_of(m)
            == pre.env_vars.value_of(m)
}

impl Machine {
    /// Looks a variable up and returns the pointer to its current
    /// buffer, or `None` when it is not set.
    pub fn getenv(&self, name: &[u8]) -> (r: Option<Pointer>)
        requires
            self.wf(),
        ensures
            r is Some <==> self.env_vars.has(name@),
            r is Some ==> r.unwrap() == self.env_vars.value_of(name@),
    {
        self.env_vars.get(name)
    }

    /// Sets a variable: an empty name or one containing `=` leaves the
    /// store unchanged and reports failure; otherwise a fresh
    /// null-terminated buffer holding `value` is installed and any
    /// buffer it replaces is destroyed.
    pub fn setenv(&mut self, name: &[u8], value: &[u8]) -> (r: i32)
        requires
            old(self).wf(),
            value@.len() < usize::MAX,
        ensures
            final(self).wf(),
            !valid_env_name(name@) ==> r == -1 && *final(self) == *old(self),
            valid_env_name(name@) ==> r == 0 && setenv_effect(
                *old(self),
                *final(self),
                name@,
                value@,
            ),
    {
        if !check_env_name(name) {
            return -1;
        }
        let ghost pre = *self;
        let buf = self.memory.allocate(value.len() + 1, 1, AllocKind::Env);
        let w1 = self.memory.write_bytes_at(buf, value);
        assert(w1 is Ok);
        let ghost mid1 = self.memory;
        let terminator: [u8; 1] = [0u8];
        let w2 = self.memory.write_bytes_at(
            Pointer { alloc: buf.alloc, offset: value.len() },
            terminator.as_slice(),
        );
        assert(w2 is Ok);
        proof {
            let a = buf.alloc as int;
            assert(mid1.bytes_of(a) =~= value@ + mid1.bytes_of(a).skip(value@.len() as int));
            assert(self.memory.bytes_of(a) =~= value@ + seq![0u8]);
        }
        let old_buf = self.env_vars.insert(slice_to_vec(name), buf);
        match old_buf {
            Some(ob) => {
                proof {
                    assert(pre.env_entry_ok(pre.env_vars.index_of(name@)));
                }
                let d = self.memory.deallocate(ob, None, AllocKind::Env);
                assert(d is Ok);
            },
            None => {},
        }
        proof {
            Self::lemma_setenv_wf(pre, *self, name@, value@, buf);
        }
        0
    }

    /// Removes a variable and destroys its buffer; reports a
    /// distinguishable failure when the name is unacceptable or was
    /// never set.
    pub fn unsetenv(&mut self, name: &[u8]) -> (r: i32)
        requires
            old(self).wf(),
        ensures
            final(self).wf(),
            !valid_env_name(name@) ==> r == -1 && *final(self) == *old(self),
            valid_env_name(name@) && !old(self).env_vars.has(name@) ==> r == -1 && *final(self)
                == *old(self),
            valid_env_name(name@) && old(self).env_vars.has(name@) ==> r == 0
                && unsetenv_effect(*old(self), *final(self), name@),
    {
        if !check_env_name(name) {
            return -1;
        }
        let ghost pre = *self;
        let old_buf = self.env_vars.remove(name);
        match old_buf {
            Some(ob) => {
                proof {
                    assert(pre.env_entry_ok(pre.env_vars.index_of(name@)));
                }
                let d = self.memory.deallocate(ob, None, AllocKind::Env);
                assert(d is Ok);
                proof {
                    Self::lemma_unsetenv_wf(pre, *self, name@);
                }
                0
            },
            None => {
                assert(*self == pre);
                -1
            },
        }
    }

    /// A successful `setenv` preserves the machine invariant.
    proof fn lemma_setenv_wf(pre: Machine, post: Machine, name: Seq<u8>, value: Seq<u8>, buf: Pointer)
        requires
            pre.wf(),
            valid_env_name(name),
            setenv_effect(pre, post, name, value),
            buf.alloc == pre.memory.allocs@.len(),
            buf.offset == 0,
            post.env_vars.names_unique(),
            pre.env_vars.has(name) ==> {
                let f = pre.env_vars.index_of(name);
                &&& post.env_vars.entries@.len() == pre.env_vars.entries@.len()
                &&& forall|i: int|
                    0 <= i < pre.env_vars.entries@.len() && i != f
                        ==> post.env_vars.entries@[i] == pre.env_vars.entries@[i]
                &&& post.env_vars.entries@[f].name@ == name
                &&& post.env_vars.entries@[f].buf == buf
            },
            !pre.env_vars.has(name) ==> {
                let l = pre.env_vars.entries@.len() as int;
                &&& post.env_vars.entries@.len() == l + 1
                &&& forall|i: int|
                    0 <= i < l ==> post.env_vars.entries@[i] == pre.env_vars.entries@[i]
                &&& post.env_vars.entries@[l].name@ == name
                &&& post.env_vars.entries@[l].buf == buf
            },
        ensures
            post.wf(),
    {
        let fresh = pre.memory.allocs@.len() as int;
        let f: int = if pre.env_vars.has(name) {
            pre.env_vars.index_of(name)
        } else {
            pre.env_vars.entries@.len() as int
        };
        if pre.env_vars.has(name) {
            pre.env_vars.lemma_lookup(f);
        }
        assert forall|i: int|
            0 <= i < post.env_vars.entries@.len() implies #[trigger] post.env_entry_ok(i) by {
            if i == f {
                assert(post.env_vars.entries@[i].buf == buf);
                assert(post.memory.live(fresh));
            } else {
                assert(post.env_vars.entries@[i] == pre.env_vars.entries@[i]);
                assert(pre.env_entry_ok(i));
                let a = pre.env_vars.entries@[i].buf.alloc as int;
                assert(0 <= a < fresh);
                if pre.env_vars.has(name) {
                    assert(pre.env_vars.entries@[i].buf.alloc
                        != pre.env_vars.entries@[f].buf.alloc);
                    assert(a != pre.env_vars.value_of(name).alloc);
                }
                assert(post.memory.allocs@[a] == pre.memory.allocs@[a]);
            }
        }
        assert forall|i: int, j: int|
            0 <= i < j < post.env_vars.entries@.len() implies post.env_vars.entries@[i].buf.alloc
            != post.env_vars.entries@[j].buf.alloc by {
            if i != f && j != f {
                assert(post.env_vars.entries@[i] == pre.env_vars.entries@[i]);
                assert(post.env_vars.entries@[j] == pre.env_vars.entries@[j]);
            } else {
                let k = if i == f {
                    j
                } else {
                    i
                };
                assert(post.env_vars.entries@[k] == pre.env_vars.entries@[k]);
                assert(pre.env_entry_ok(k));
                assert(pre.env_vars.entries@[k].buf.alloc < fresh);
            }
        }
    }

    /// A successful `unsetenv` preserves the machine invariant.
    proof fn lemma_unsetenv_wf(pre: Machine, post: Machine, name: Seq<u8>)
        requires
            pre.wf(),
            post.consts == pre.consts,
            valid_env_name(name),
            pre.env_vars.has(name),
            post.env_vars.entries@ == pre.env_vars.entries@.remove(pre.env_vars.index_of(name)),
            post.env_vars.names_unique(),
            post.memory.allocs@.len() == pre.memory.allocs@.len(),
            forall|i: int|
                0 <= i < pre.memory.allocs@.len() && i != pre.env_vars.value_of(name).alloc
                    ==> post.memory.allocs@[i] == pre.memory.allocs@[i],
        ensures
            post.wf(),
    {
        let f = pre.env_vars.index_of(name);
        let freed = pre.env_vars.value_of(name).alloc as int;
        assert forall|i: int|
            0 <= i < post.env_vars.entries@.len() implies #[trigger] post.env_entry_ok(i) by {
            let pi = if i < f { i } else { i + 1 };
            assert(post.env_vars.entries@[i] == pre.env_vars.entries@[pi]);
            assert(pre.env_entry_ok(pi));
            assert(pre.env_vars.entries@[pi].buf.alloc != freed);
        }
        assert forall|i: int, j: int|
            0 <= i < j < post.env_vars.entries@.len() implies post.env_vars.entries@[i].buf.alloc
            != post.env_vars.entries@[j].buf.alloc by {
            let pi = if i < f { i } else { i + 1 };
            let pj = if j < f { j } else { j + 1 };
            assert(post.env_vars.entries@[i] == pre.env_vars.entries@[pi]);
            assert(post.env_vars.entries@[j] == pre.env_vars.entries@[pj]);
        }
    }
}

} // verus!
