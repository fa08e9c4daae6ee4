use vstd::prelude::*;
use crate::errors::EmulError;

verus! {

/// A provenance-bearing pointer into the emulated memory: the allocation
/// id is the provenance tag, the offset is the address within it. The
/// emulation layer never invents ids itself; they are minted by the
/// memory subsystem.
#[derive(Clone, Copy, Debug, PartialEq, Eq, Structural)]
pub struct Pointer {
    pub alloc: usize,
    pub offset: usize,
}

/// A guest value as the dispatcher sees it: either an integer or a
/// pointer with provenance. The null pointer is the integer zero.
#[derive(Clone, Copy, Debug, PartialEq, Eq, Structural)]
pub enum Scalar {
    Int(i128),
    Ptr(Pointer),
}

impl Scalar {
    /// The null pointer value.
    pub open spec fn spec_is_null(self) -> bool {
        self == Scalar::Int(0)
    }

    pub fn is_null(&self) -> (r: bool)
        ensures
            r == self.spec_is_null(),
    {
        match self {
            Scalar::Int(v) => *v == 0,
            Scalar::Ptr(_) => false,
        }
    }

    /// Reads this value as a pointer; an integer cannot be read back as
    /// a pointer, not even zero.
    pub fn to_ptr(&self) -> (r: Result<Pointer, EmulError>)
        ensures
            r is Ok <==> self is Ptr,
            r is Ok ==> self == Scalar::Ptr(r->Ok_0),
            r is Err ==> r->Err_0 is ContractViolation,
    {
        match self {
            Scalar::Ptr(p) => Ok(*p),
            Scalar::Int(_) => Err(EmulError::ContractViolation(
                "an integer value cannot be used as a pointer".to_owned(),
            )),
        }
    }

    /// Reads this value as an unsigned size.
    pub fn to_size(&self) -> (r: Result<usize, EmulError>)
        ensures
            r is Ok <==> (self is Int && 0 <= self->Int_0 <= usize::MAX),
            r is Ok ==> self == Scalar::Int(r->Ok_0 as i128),
            r is Err ==> r->Err_0 is ContractViolation,
    {
        match self {
            Scalar::Int(v) => {
                if 0 <= *v && *v <= usize::MAX as i128 {
                    Ok(*v as usize)
                } else {
                    Err(EmulError::ContractViolation(
                        "value out of range for a size".to_owned(),
                    ))
                }
            },
            Scalar::Ptr(_) => Err(EmulError::ContractViolation(
                "a pointer cannot be used as a size".to_owned(),
            )),
        }
    }

    /// Reads this value as a signed 32-bit integer.
    pub fn to_i32(&self) -> (r: Result<i32, EmulError>)
        ensures
            r is Ok <==> (self is Int && i32::MIN <= self->Int_0 <= i32::MAX),
            r is Ok ==> self == Scalar::Int(r->Ok_0 as i128),
            r is Err ==> r->Err_0 is ContractViolation,
    {
        match self {
            Scalar::Int(v) => {
                if i32::MIN as i128 <= *v && *v <= i32::MAX as i128 {
                    Ok(*v as i32)
                } else {
                    Err(EmulError::ContractViolation(
                        "value out of range for a 32-bit integer".to_owned(),
                    ))
                }
            },
            Scalar::Ptr(_) => Err(EmulError::ContractViolation(
                "a pointer cannot be used as a 32-bit integer".to_owned(),
            )),
        }
    }

    /// Reads this value as an unsigned 32-bit integer.
    pub fn to_u32(&self) -> (r: Result<u32, EmulError>)
        ensures
            r is Ok <==> (self is Int && 0 <= self->Int_0 <= u32::MAX),
            r is Ok ==> self == Scalar::Int(r->Ok_0 as i128),
            r is Err ==> r->Err_0 is ContractViolation,
    {
        match self {
            Scalar::Int(v) => {
                if 0 <= *v && *v <= u32::MAX as i128 {
                    Ok(*v as u32)
                } else {
                    Err(EmulError::ContractViolation(
                        "value out of range for a 32-bit unsigned integer".to_owned(),
                    ))
                }
            },
            Scalar::Ptr(_) => Err(EmulError::ContractViolation(
                "a pointer cannot be used as a 32-bit unsigned integer".to_owned(),
            )),
        }
    }

    /// Reads this value as an unsigned 64-bit integer.
    pub fn to_u64(&self) -> (r: Result<u64, EmulError>)
        ensures
            r is Ok <==> (self is Int && 0 <= self->Int_0 <= u64::MAX),
            r is Ok ==> self == Scalar::Int(r->Ok_0 as i128),
            r is Err ==> r->Err_0 is ContractViolation,
    {
        match self {
            Scalar::Int(v) => {
                if 0 <= *v && *v <= u64::MAX as i128 {
                    Ok(*v as u64)
                } else {
                    Err(EmulError::ContractViolation(
                        "value out of range for a 64-bit unsigned integer".to_owned(),
                    ))
                }
            },
            Scalar::Ptr(_) => Err(EmulError::ContractViolation(
                "a pointer cannot be used as a 64-bit unsigned integer".to_owned(),
            )),
        }
    }
}

} // verus!
