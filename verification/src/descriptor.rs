//! Data descriptor assembly.
//!
//! A data descriptor is a non-owning reference to one buffer — the cached
//! metadata blob or one serialized value — and a descriptor list is the
//! ordered sequence handed to one write call: the blob first, then one
//! entry per field value in declared order. Assembly captures references
//! only and copies no bytes; the borrows tie every entry's lifetime to the
//! buffers, so a list can never outlive what it points into.

use vstd::prelude::*;

verus! {

/// A non-owning reference to one buffer of a submission.
pub struct EventDataDescriptor<'a> {
    pub data: &'a [u8],
}

impl<'a> EventDataDescriptor<'a> {
    /// The number of bytes this descriptor covers.
    pub fn size(&self) -> (r: usize)
        ensures
            r == self.data@.len(),
    {
        self.data.len()
    }
}

/// Assembles the descriptor list for one write call: the metadata blob
/// first, then one entry per value buffer, in order. Pure bookkeeping —
/// no byte is copied.
pub fn assemble_descriptors<'a>(metadata: &'a Vec<u8>, values: &'a Vec<Vec<u8>>) -> (r: Vec<
    EventDataDescriptor<'a>,
>)
    ensures
        r@.len() == 1 + values@.len(),
        r@[0].data@ == metadata@,
        forall|i: int| 0 <= i < values@.len() ==> #[trigger] r@[i + 1].data@ == values@[i]@,
{
    let mut r: Vec<EventDataDescriptor<'a>> = Vec::new();
    r.push(EventDataDescriptor { data: metadata.as_slice() });
    let mut i: usize = 0;
    while i < values.len()
        invariant
            i <= values@.len(),
            r@.len() == 1 + i,
            r@[0].data@ == metadata@,
            forall|j: int| 0 <= j < i ==> #[trigger] r@[j + 1].data@ == values@[j]@,
        decreases values@.len() - i,
    {
        let buf: &'a Vec<u8> = &values[i];
        r.push(EventDataDescriptor { data: buf.as_slice() });
        i += 1;
    }
    r
}

} // verus!
