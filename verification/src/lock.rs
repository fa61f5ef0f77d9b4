//! The resource lock manager: exclusive claims over process-wide session
//! resources.
//!
//! Each guarded resource offers three operations: `lock` claims it
//! exclusively and fails when it is already claimed; `acquire` checks the
//! existing claim before access and fails when the resource is unclaimed;
//! `release` relinquishes the claim without clearing the contents. The
//! claimed state *is* the session-liveness state — there is no parallel
//! boolean anywhere else.
use vstd::prelude::*;
use crate::error::ApduError;

verus! {

/// Capacity of the reassembly buffer resource, in bytes.
pub const BUFFER_CAPACITY: usize = 8192;

/// A guarded resource: a value behind an exclusive claim.
pub struct Lock<T> {
    claimed: bool,
    value: T,
}

impl<T> Lock<T> {
    /// Whether the resource is currently claimed.
    pub closed spec fn is_claimed(&self) -> bool {
        self.claimed
    }

    /// The guarded contents.
    pub closed spec fn val(&self) -> T {
        self.value
    }

    /// A fresh, unclaimed resource holding `value`.
    pub fn new(value: T) -> (s: Self)
        ensures
            !s.is_claimed(),
            s.val() == value,
    {
        Lock { claimed: false, value }
    }

    /// Claims the resource exclusively. Fails, changing nothing, when it is
    /// already claimed by another holder.
    pub fn lock(&mut self) -> (r: Result<(), ApduError>)
        ensures
            old(self).is_claimed() ==> r == Err::<(), ApduError>(ApduError::ConditionsNotSatisfied)
                && *final(self) == *old(self),
            !old(self).is_claimed() ==> r == Ok::<(), ApduError>(()) && final(self).is_claimed()
                && final(self).val() == old(self).val(),
    {
        if self.claimed {
            Err(ApduError::ConditionsNotSatisfied)
        } else {
            self.claimed = true;
            Ok(())
        }
    }

    /// Checks that the caller is entitled to the existing claim before
    /// access. Fails when the resource is unclaimed.
    pub fn acquire(&self) -> (r: Result<(), ApduError>)
        ensures
            r is Ok <==> self.is_claimed(),
            r is Err ==> r == Err::<(), ApduError>(ApduError::ConditionsNotSatisfied),
    {
        if self.claimed {
            Ok(())
        } else {
            Err(ApduError::ConditionsNotSatisfied)
        }
    }

    /// Relinquishes the claim without clearing the contents.
    pub fn release(&mut self) -> (r: Result<(), ApduError>)
        ensures
            old(self).is_claimed() ==> r == Ok::<(), ApduError>(()) && !final(self).is_claimed()
                && final(self).val() == old(self).val(),
            !old(self).is_claimed() ==> r == Err::<(), ApduError>(
                ApduError::ConditionsNotSatisfied,
            ) && *final(self) == *old(self),
    {
        if self.claimed {
            self.claimed = false;
            Ok(())
        } else {
            Err(ApduError::ConditionsNotSatisfied)
        }
    }

    /// Read access to the claimed contents.
    pub fn borrow_value(&self) -> (r: &T)
        requires
            self.is_claimed(),
        ensures
            *r == self.val(),
    {
        &self.value
    }

    /// Swaps the claimed contents for `t`, handing the old value out.
    pub fn replace_value(&mut self, t: T) -> (r: T)
        requires
            old(self).is_claimed(),
        ensures
            final(self).is_claimed(),
            final(self).val() == t,
            r == old(self).val(),
    {
        let mut held = t;
        core::mem::swap(&mut self.value, &mut held);
        held
    }

    /// Replaces the claimed contents.
    pub fn set(&mut self, t: T)
        requires
            old(self).is_claimed(),
        ensures
            final(self).is_claimed(),
            final(self).val() == t,
    {
        self.value = t;
    }
}

impl Lock<Vec<u8>> {
    /// Empties the claimed reassembly buffer.
    pub fn reset(&mut self)
        requires
            old(self).is_claimed(),
        ensures
            final(self).is_claimed(),
            final(self).val()@ == Seq::<u8>::empty(),
    {
        self.value.clear();
        proof {
            assert(self.value@ =~= Seq::<u8>::empty());
        }
    }

    /// Appends `src[from .. to]` to the claimed buffer; fails, changing
    /// nothing, when the fixed capacity would be exceeded.
    pub fn write(&mut self, src: &[u8], from: usize, to: usize) -> (r: Result<(), ApduError>)
        requires
            old(self).is_claimed(),
            from <= to <= src@.len(),
        ensures
            final(self).is_claimed(),
            old(self).val()@.len() + (to - from) <= BUFFER_CAPACITY ==> r == Ok::<(), ApduError>(
                (),
            ) && final(self).val()@ == old(self).val()@ + src@.subrange(from as int, to as int),
            old(self).val()@.len() + (to - from) > BUFFER_CAPACITY ==> r == Err::<(), ApduError>(
                ApduError::ExecutionError,
            ) && *final(self) == *old(self),
    {
        let cur = self.value.len();
        if cur > BUFFER_CAPACITY || to - from > BUFFER_CAPACITY - cur {
            return Err(ApduError::ExecutionError);
        }
        crate::bytes::append_slice(&mut self.value, src, from, to);
        Ok(())
    }

    /// Length of the claimed buffer's contents.
    pub fn len(&self) -> (r: usize)
        requires
            self.is_claimed(),
        ensures
            r == self.val()@.len(),
    {
        self.value.len()
    }
}

} // verus!
