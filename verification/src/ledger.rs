//! What the contract's audit log holds, as its range query returns it page
//! by page.

use vstd::prelude::*;
use crate::audit::AuditEntry;

verus! {

/// The audit records on page `page` (of `page_size` records) of the
/// contract's audit log.
pub closed spec fn page_contents(page: u64, page_size: u64) -> Seq<AuditEntry> {
    seq![]
}

/// The range query is not wired to the contract yet: every page is empty.
pub proof fn lemma_pages_empty(page: u64, page_size: u64)
    ensures
        page_contents(page, page_size) == Seq::<AuditEntry>::empty(),
{
}

} // verus!
