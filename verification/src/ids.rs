//! The generator of identifiers: one durable counter shared by every kind of
//! record.

use crate::stable::{id_cell_value, IdCell};
use vstd::prelude::*;

verus! {

/// Hands out identifiers, each greater than all it handed out before.
pub struct IdGenerator {
    cell: IdCell,
}

impl IdGenerator {
    /// The identifier handed out last; 0 before the first.
    pub closed spec fn last(&self) -> u64 {
        id_cell_value(self.cell)
    }

    /// Takes over a durable cell as the counter.
    pub fn adopt(cell: IdCell) -> (ids: IdGenerator)
        ensures
            ids.last() == id_cell_value(cell),
    {
        IdGenerator { cell }
    }

    /// The identifier handed out last.
    pub fn last_id(&self) -> (id: u64)
        ensures
            id == self.last(),
    {
        self.cell.get()
    }

    /// Whether another identifier can be handed out.
    pub fn has_next(&self) -> (more: bool)
        ensures
            more == (self.last() < u64::MAX),
    {
        self.cell.get() < u64::MAX
    }

    /// Hands out the next identifier: one more than the last.
    pub fn next_id(&mut self) -> (id: u64)
        requires
            old(self).last() < u64::MAX,
        ensures
            id == old(self).last() + 1,
            final(self).last() == id,
    {
        let id = self.cell.get() + 1;
        self.cell.set(id);
        id
    }
}

} // verus!
