use vstd::prelude::*;
use vstd::string::StringExecFns;

use crate::error::DbError;

verus! {

/// The slot after `begin` with connection `conn`: an open transaction keeps
/// its connection, an empty slot takes the new one.
pub open spec fn slot_after_begin<C>(reserved: Option<C>, conn: C) -> Option<C> {
    if reserved is Some {
        reserved
    } else {
        Some(conn)
    }
}

/// Whether `begin` succeeds on the slot: only when no transaction is open.
pub open spec fn begin_succeeds<C>(reserved: Option<C>) -> bool {
    reserved is None
}

/// The one connection that a database handle reserves for an open transaction.
///
/// While a connection is reserved every statement on the handle runs on it;
/// commit and rollback take it out of the slot whatever their outcome.
pub struct TransactionSlot<C> {
    pub reserved: Option<C>,
}

impl<C> TransactionSlot<C> {
    /// An empty slot: no transaction is open.
    pub fn new() -> (r: TransactionSlot<C>)
        ensures
            r.reserved is None,
    {
        TransactionSlot { reserved: None }
    }

    pub fn is_open(&self) -> (r: bool)
        ensures
            r == self.reserved is Some,
    {
        self.reserved.is_some()
    }

    /// Reserves `conn`, on which the transaction has been started. Fails with a
    /// transaction error, keeping the reservation it has, when a transaction is
    /// already open.
    pub fn begin(&mut self, conn: C) -> (r: Result<(), DbError>)
        ensures
            final(self).reserved == slot_after_begin(old(self).reserved, conn),
            r is Ok <==> begin_succeeds(old(self).reserved),
            r is Err ==> r->Err_0 is TransactionError,
    {
        if self.reserved.is_some() {
            Err(DbError::TransactionError(String::from_str("a transaction is already open")))
        } else {
            self.reserved = Some(conn);
            Ok(())
        }
    }

    /// The reserved connection, for a statement issued while the transaction is open.
    pub fn connection(&mut self) -> (r: Option<&mut C>)
        ensures
            r is Some <==> old(self).reserved is Some,
            r is Some ==> *r->Some_0 == old(self).reserved->Some_0,
            r is Some ==> final(self).reserved == Some(*final(r->Some_0)),
            r is None ==> final(self).reserved == old(self).reserved,
    {
        self.reserved.as_mut()
    }

    /// Takes the reserved connection out; the slot is empty afterwards.
    pub fn take(&mut self) -> (r: Option<C>)
        ensures
            r == old(self).reserved,
            final(self).reserved is None,
    {
        self.reserved.take()
    }
}

/// The result of a commit or rollback: `None` when no transaction was open,
/// else the outcome of the statement on the reserved connection, whose failure
/// is reported as a transaction error with the driver's message.
pub fn completion(ran: Option<Result<(), String>>) -> (r: Result<(), DbError>)
    ensures
        r is Ok <==> (ran is None || ran->Some_0 is Ok),
        r is Err ==> r->Err_0 == DbError::TransactionError(ran->Some_0->Err_0),
{
    match ran {
        None => Ok(()),
        Some(Ok(())) => Ok(()),
        Some(Err(m)) => Err(DbError::TransactionError(m)),
    }
}

/// Slot exclusivity: a second `begin` without a commit or rollback in between
/// fails and leaves the first reservation in place.
pub proof fn lemma_slot_exclusive<C>(first: C, second: C)
    ensures
        begin_succeeds(None::<C>),
        !begin_succeeds(slot_after_begin(None::<C>, first)),
        slot_after_begin(slot_after_begin(None::<C>, first), second) == Some(first),
{
}

} // verus!
