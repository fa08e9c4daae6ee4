use vstd::prelude::*;
use crate::errors::EmulError;
use crate::value::{Pointer, Scalar};

verus! {

/// One thread-local-storage key: its optional destructor reference and
/// the single current slot value (the interpreter steps one logical
/// thread at a time, so slots are not replicated per thread).
pub struct TlsEntry {
    pub dtor: Option<Pointer>,
    pub value: Scalar,
}

/// The thread-local-storage key table. A key id is an index into the
/// table; a deleted key leaves a `None` slot whose id may be reused by
/// a later creation.
pub struct TlsData {
    pub slots: Vec<Option<TlsEntry>>,
}

impl TlsData {
    /// The key `k` is currently allocated.
    pub open spec fn key_live(self, k: int) -> bool {
        &&& 0 <= k < self.slots@.len()
        &&& self.slots@[k] is Some
    }

    pub open spec fn entry_of(self, k: int) -> TlsEntry {
        self.slots@[k].unwrap()
    }

    /// The key table changed exactly as a creation of key `k` with the
    /// given destructor says: `k` was the lowest id not associated, and
    /// now carries a fresh null slot.
    pub open spec fn key_created(pre: TlsData, post: TlsData, k: int, dtor: Option<Pointer>) -> bool {
        &&& 0 <= k <= pre.slots@.len()
        &&& !pre.key_live(k)
        &&& forall|j: int| 0 <= j < k ==> pre.key_live(j)
        &&& (k < pre.slots@.len() ==> post.slots@ == pre.slots@.update(
            k,
            Some((TlsEntry { dtor, value: Scalar::Int(0) })),
        ))
        &&& (k == pre.slots@.len() ==> post.slots@ == pre.slots@.push(
            Some((TlsEntry { dtor, value: Scalar::Int(0) })),
        ))
    }

    pub fn new() -> (r: TlsData)
        ensures
            r.slots@.len() == 0,
    {
        TlsData { slots: Vec::new() }
    }

    /// Allocates the lowest key id that is not currently associated,
    /// with a fresh null slot value. No id still associated is ever
    /// handed out.
    pub fn create_key(&mut self, dtor: Option<Pointer>) -> (k: usize)
        requires
            old(self).slots@.len() < usize::MAX,
        ensures
            !old(self).key_live(k as int),
            forall|j: int| 0 <= j < k ==> old(self).key_live(j),
            k <= old(self).slots@.len(),
            k < old(self).slots@.len() ==> final(self).slots@ == old(self).slots@.update(
                k as int,
                Some((TlsEntry { dtor, value: Scalar::Int(0) })),
            ),
            k == old(self).slots@.len() ==> final(self).slots@ == old(self).slots@.push(
                Some((TlsEntry { dtor, value: Scalar::Int(0) })),
            ),
            final(self).key_live(k as int),
            final(self).entry_of(k as int) == (TlsEntry { dtor, value: Scalar::Int(0) }),
            forall|j: int|
                0 <= j < old(self).slots@.len() && j != k ==> final(self).slots@[j] == old(self).slots@[j],
    {
        let n = self.slots.len();
        let mut i: usize = 0;
        while i < n
            invariant
                0 <= i <= n,
                *self == *old(self),
                n == self.slots@.len(),
                forall|j: int| 0 <= j < i ==> self.key_live(j),
            decreases n - i,
        {
            let free = match &self.slots[i] {
                None => true,
                Some(_) => false,
            };
            if free {
                self.slots[i] = Some(TlsEntry { dtor, value: Scalar::Int(0) });
                return i;
            }
            i = i + 1;
        }
        self.slots.push(Some(TlsEntry { dtor, value: Scalar::Int(0) }));
        n
    }

    /// Removes the association for `k` and frees the id for reuse; the
    /// destructor is not invoked (that is the business of program
    /// teardown, not of this table). An unknown key is refused.
    pub fn delete_key(&mut self, k: usize) -> (r: Result<(), EmulError>)
        ensures
            r is Ok <==> old(self).key_live(k as int),
            r is Ok ==> final(self).slots@ == old(self).slots@.update(
                k as int,
                None::<TlsEntry>,
            ),
            r is Err ==> *final(self) == *old(self) && r->Err_0 is ContractViolation,
    {
        if k >= self.slots.len() {
            return Err(EmulError::ContractViolation(
                "thread-local-storage key is not allocated".to_owned(),
            ));
        }
        let live = match &self.slots[k] {
            Some(_) => true,
            None => false,
        };
        if !live {
            return Err(EmulError::ContractViolation(
                "thread-local-storage key is not allocated".to_owned(),
            ));
        }
        self.slots[k] = None;
        Ok(())
    }

    /// Reads the current slot value for `k`. An unknown key is refused.
    pub fn load(&self, k: usize) -> (r: Result<Scalar, EmulError>)
        ensures
            r is Ok <==> self.key_live(k as int),
            r is Ok ==> r->Ok_0 == self.entry_of(k as int).value,
            r is Err ==> r->Err_0 is ContractViolation,
    {
        if k >= self.slots.len() {
            return Err(EmulError::ContractViolation(
                "thread-local-storage key is not allocated".to_owned(),
            ));
        }
        match &self.slots[k] {
            Some(e) => Ok(e.value),
            None => Err(EmulError::ContractViolation(
                "thread-local-storage key is not allocated".to_owned(),
            )),
        }
    }

    /// Replaces the current slot value for `k`, keeping its destructor.
    /// An unknown key is refused.
    pub fn store(&mut self, k: usize, value: Scalar) -> (r: Result<(), EmulError>)
        ensures
            r is Ok <==> old(self).key_live(k as int),
            r is Ok ==> final(self).slots@ == old(self).slots@.update(
                k as int,
                Some(
                    (TlsEntry { dtor: old(self).entry_of(k as int).dtor, value }),
                ),
            ),
            r is Err ==> *final(self) == *old(self) && r->Err_0 is ContractViolation,
    {
        if k >= self.slots.len() {
            return Err(EmulError::ContractViolation(
                "thread-local-storage key is not allocated".to_owned(),
            ));
        }
        let dtor = match &self.slots[k] {
            Some(e) => e.dtor,
            None => {
                return Err(EmulError::ContractViolation(
                    "thread-local-storage key is not allocated".to_owned(),
                ));
            },
        };
        self.slots[k] = Some(TlsEntry { dtor, value });
        Ok(())
    }
}

/// Key creation never hands out an id that is still associated, so two
/// consecutive creations yield two distinct ids.
pub proof fn lemma_created_keys_distinct(
    t0: TlsData,
    t1: TlsData,
    t2: TlsData,
    k1: int,
    k2: int,
    d1: Option<Pointer>,
    d2: Option<Pointer>,
)
    requires
        TlsData::key_created(t0, t1, k1, d1),
        TlsData::key_created(t1, t2, k2, d2),
    ensures
        k1 != k2,
{
    assert(t1.key_live(k1));
    assert(!t1.key_live(k2));
}

} // verus!
