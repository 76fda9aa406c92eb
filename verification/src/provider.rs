//! Provider registration and event submission.
//!
//! A provider is the owned handle for one registration with the tracing
//! subsystem: a two-state machine (unregistered / registered) with cached
//! enablement state, counters observable by tests, and the write path that
//! ties enablement check, value serialization, descriptor assembly and
//! submission into one non-escaping scope. On this platform the subsystem
//! itself is absent, so enablement state changes arrive through the
//! notification entry `set_enabled` and a submission is recorded on the
//! handle instead of crossing into an external sink.

use vstd::prelude::*;
use crate::Error;
use crate::descriptor::assemble_descriptors;
use crate::guid::Guid;
use crate::metadata::EventDescriptor;
use crate::metadata::FieldDescriptor;
use crate::metadata::build_provider_metadata;
use crate::metadata::check_name;
use crate::metadata::name_ok;
use crate::metadata::provider_blob_bytes;
use crate::metadata::provider_blob_fits;
use crate::types::FieldValue;
use crate::types::encode_err_of;
use crate::types::encode_value;
use crate::types::encoded_value;
use crate::types::in_type_of;
use crate::types::value_encodable;

verus! {

/// The code submission reports when a value list does not match the
/// declared signature.
pub const ERROR_INVALID_PARAMETER: u32 = 87;

/// Saturating 64-bit addition, for the handle's counters.
pub open spec fn sat_add64(a: u64, b: u64) -> u64 {
    if a + b > u64::MAX {
        u64::MAX
    } else {
        (a + b) as u64
    }
}

fn sat_add(a: u64, b: u64) -> (r: u64)
    ensures
        r == sat_add64(a, b),
{
    if b > u64::MAX - a {
        u64::MAX
    } else {
        a + b
    }
}

/// Whether a value list matches a declared field list: one value per field,
/// each serializing under the field's declared in-type.
pub open spec fn values_match(values: Seq<FieldValue>, fields: Seq<FieldDescriptor>) -> bool {
    &&& values.len() == fields.len()
    &&& forall|i: int|
        0 <= i < values.len() ==> in_type_of(#[trigger] values[i]) == fields[i].in_type
}

/// Whether every value in the list fits the format.
pub open spec fn all_encodable(values: Seq<FieldValue>) -> bool {
    forall|i: int| 0 <= i < values.len() ==> value_encodable(#[trigger] values[i])
}

/// The error reported for the first value that does not fit.
pub open spec fn first_encode_err(values: Seq<FieldValue>) -> Error
    decreases values.len(),
{
    if values.len() == 0 {
        Error::UnsupportedSize
    } else if !value_encodable(values[0]) {
        encode_err_of(values[0])
    } else {
        first_encode_err(values.skip(1))
    }
}

proof fn lemma_first_encode_err(values: Seq<FieldValue>, i: int)
    requires
        0 <= i < values.len(),
        !value_encodable(values[i]),
        forall|j: int| 0 <= j < i ==> value_encodable(#[trigger] values[j]),
    ensures
        first_encode_err(values) == encode_err_of(values[i]),
    decreases i,
{
    if i > 0 {
        lemma_first_encode_err(values.skip(1), i - 1);
    }
}

/// The registration handle: one provider's name, identifier, cached
/// provider blob, state-machine flags, cached enablement state, and the
/// counters that make emission work observable.
pub struct EventProvider {
    pub name: String,
    pub id: Guid,
    pub metadata: Vec<u8>,
    pub registered: bool,
    pub enabled: bool,
    pub max_level: u8,
    pub keyword_mask: u64,
    pub work_counter: u64,
    pub events_written: u64,
    pub last_descriptor_count: usize,
    /// The value buffers of the most recent submission, as mathematics:
    /// what the descriptor list pointed at, in declared field order.
    pub last_submission: Ghost<Seq<Seq<u8>>>,
}

impl EventProvider {
    /// Well-formedness: the cached provider blob is exactly the encoding of
    /// the provider name and identifier.
    pub open spec fn wf(self) -> bool {
        &&& name_ok(self.name@)
        &&& provider_blob_fits(self.name@)
        &&& self.metadata@ == provider_blob_bytes(self.name@, self.id)
    }

    /// Whether the provider's configuration (everything but the counters)
    /// is unchanged between two states.
    pub open spec fn same_config(self, other: EventProvider) -> bool {
        &&& self.name@ == other.name@
        &&& self.id == other.id
        &&& self.metadata@ == other.metadata@
        &&& self.registered == other.registered
        &&& self.enabled == other.enabled
        &&& self.max_level == other.max_level
        &&& self.keyword_mask == other.keyword_mask
    }

    /// Registers a provider: unregistered to registered, with no session
    /// listening yet. Fails only on a name the blob grammar cannot carry.
    pub fn register(name: &str, id: &Guid) -> (r: Result<EventProvider, Error>)
        ensures
            r is Ok <==> name_ok(name@) && provider_blob_fits(name@),
            r is Ok ==> {
                let p = r->Ok_0;
                &&& p.wf()
                &&& p.name@ == name@
                &&& p.id == *id
                &&& p.registered
                &&& !p.enabled
                &&& p.work_counter == 0
                &&& p.events_written == 0
                &&& p.last_descriptor_count == 0
                &&& p.last_submission@ == Seq::<Seq<u8>>::empty()
            },
            r is Err ==> (r->Err_0 == Error::FormatError || r->Err_0 == Error::FieldTooLarge),
            r is Err && name_ok(name@) ==> r->Err_0 == Error::FieldTooLarge,
    {
        if !check_name(name) {
            return Err(Error::FormatError);
        }
        let metadata = match build_provider_metadata(name, id) {
            Ok(m) => m,
            Err(e) => {
                return Err(e);
            },
        };
        Ok(
            EventProvider {
                name: name.to_owned(),
                id: *id,
                metadata,
                registered: true,
                enabled: false,
                max_level: 0,
                keyword_mask: 0,
                work_counter: 0,
                events_written: 0,
                last_descriptor_count: 0,
                last_submission: Ghost(Seq::empty()),
            },
        )
    }

    /// Unregisters: registered to unregistered. Idempotent — a second call
    /// changes nothing and reports nothing.
    pub fn unregister(&mut self)
        ensures
            !final(self).registered,
            !final(self).enabled,
            final(self).name@ == old(self).name@,
            final(self).id == old(self).id,
            final(self).metadata@ == old(self).metadata@,
            final(self).max_level == old(self).max_level,
            final(self).keyword_mask == old(self).keyword_mask,
            final(self).work_counter == old(self).work_counter,
            final(self).events_written == old(self).events_written,
            final(self).last_descriptor_count == old(self).last_descriptor_count,
            final(self).last_submission == old(self).last_submission,
            old(self).wf() ==> final(self).wf(),
    {
        self.registered = false;
        self.enabled = false;
    }

    /// The enablement-change notification entry: the controller reports
    /// whether any session listens, at what level, with what keyword mask.
    pub fn set_enabled(&mut self, active: bool, max_level: u8, keyword_mask: u64)
        ensures
            final(self).enabled == (active && old(self).registered),
            final(self).max_level == max_level,
            final(self).keyword_mask == keyword_mask,
            final(self).registered == old(self).registered,
            final(self).name@ == old(self).name@,
            final(self).id == old(self).id,
            final(self).metadata@ == old(self).metadata@,
            final(self).work_counter == old(self).work_counter,
            final(self).events_written == old(self).events_written,
            final(self).last_descriptor_count == old(self).last_descriptor_count,
            final(self).last_submission == old(self).last_submission,
            old(self).wf() ==> final(self).wf(),
    {
        self.enabled = active && self.registered;
        self.max_level = max_level;
        self.keyword_mask = keyword_mask;
    }

    /// Whether an event at this level and keyword would be collected.
    pub open spec fn is_enabled_spec(self, level: u8, keyword: u64) -> bool {
        &&& self.registered
        &&& self.enabled
        &&& level <= self.max_level
        &&& (keyword == 0 || keyword & self.keyword_mask != 0)
    }

    /// The cheap pre-emission predicate: consults only cached enablement
    /// state.
    pub fn is_enabled(&self, level: u8, keyword: u64) -> (r: bool)
        ensures
            r == self.is_enabled_spec(level, keyword),
    {
        self.registered && self.enabled && level <= self.max_level && (keyword == 0 || keyword
            & self.keyword_mask != 0)
    }

    /// Emits one event: enablement check first — a disabled provider does
    /// no serialization or assembly work and leaves the handle untouched —
    /// then value serialization, descriptor assembly and submission in one
    /// scope, so no descriptor outlives the buffers of this call.
    #[verifier::loop_isolation(false)]
    pub fn write_event(
        &mut self,
        event: &EventDescriptor,
        _activity: Option<&Guid>,
        values: &Vec<FieldValue>,
    ) -> (r: Result<(), Error>)
        requires
            event.wf(),
        ensures
            final(self).same_config(*old(self)),
            old(self).wf() ==> final(self).wf(),
            !old(self).is_enabled_spec(event.level, event.keyword) ==> r is Ok && *final(self)
                == *old(self),
            old(self).is_enabled_spec(event.level, event.keyword) && !values_match(
                values@,
                event.fields@,
            ) ==> r == Err::<(), Error>(Error::SubmitError(ERROR_INVALID_PARAMETER)) && *final(self)
                == *old(self),
            old(self).is_enabled_spec(event.level, event.keyword) && values_match(
                values@,
                event.fields@,
            ) && !all_encodable(values@) ==> r == Err::<(), Error>(first_encode_err(values@))
                && *final(self) == *old(self),
            old(self).is_enabled_spec(event.level, event.keyword) && values_match(
                values@,
                event.fields@,
            ) && all_encodable(values@) ==> r is Ok && final(self).work_counter == sat_add64(
                old(self).work_counter,
                values@.len() as u64,
            ) && final(self).events_written == sat_add64(old(self).events_written, 1)
                && final(self).last_descriptor_count == 1 + values@.len()
                && final(self).last_submission@ == Seq::new(
                values@.len(),
                |i: int| encoded_value(values@[i]),
            ),
    {
        if !self.is_enabled(event.level, event.keyword) {
            return Ok(());
        }
        if values.len() != event.fields.len() {
            return Err(Error::SubmitError(ERROR_INVALID_PARAMETER));
        }
        let mut i: usize = 0;
        while i < values.len()
            invariant
                i <= values@.len(),
                values@.len() == event.fields@.len(),
                forall|j: int|
                    0 <= j < i ==> in_type_of(#[trigger] values@[j]) == event.fields@[j].in_type,
            decreases values@.len() - i,
        {
            let expect = event.fields[i].in_type;
            let actual = value_in_type(&values[i]);
            if actual != expect {
                return Err(Error::SubmitError(ERROR_INVALID_PARAMETER));
            }
            i += 1;
        }
        let mut i: usize = 0;
        while i < values.len()
            invariant
                i <= values@.len(),
                forall|j: int| 0 <= j < i ==> value_encodable(#[trigger] values@[j]),
            decreases values@.len() - i,
        {
            if !check_encodable(&values[i]) {
                proof {
                    lemma_first_encode_err(values@, i as int);
                }
                return Err(encode_error(&values[i]));
            }
            i += 1;
        }
        let mut bufs: Vec<Vec<u8>> = Vec::new();
        let mut i: usize = 0;
        while i < values.len()
            invariant
                i <= values@.len(),
                all_encodable(values@),
                bufs@.len() == i,
                forall|j: int|
                    0 <= j < i ==> #[trigger] bufs@[j]@ == encoded_value(values@[j]),
            decreases values@.len() - i,
        {
            match encode_value(&values[i]) {
                Ok(b) => {
                    bufs.push(b);
                },
                Err(e) => {
                    return Err(e);
                },
            }
            i += 1;
        }
        let descriptors = assemble_descriptors(&event.metadata, &bufs);
        let n = descriptors.len();
        self.work_counter = sat_add(self.work_counter, bufs.len() as u64);
        self.events_written = sat_add(self.events_written, 1);
        self.last_descriptor_count = n;
        proof {
            assert(bufs@.map(|i: int, b: Vec<u8>| b@) =~= Seq::new(
                values@.len(),
                |i: int| encoded_value(values@[i]),
            ));
        }
        self.last_submission = Ghost(bufs@.map(|i: int, b: Vec<u8>| b@));
        Ok(())
    }
}

/// The in-type code a value serializes under.
pub fn value_in_type(v: &FieldValue) -> (r: u8)
    ensures
        r == in_type_of(*v),
{
    match v {
        FieldValue::U8(_) => crate::types::IN_UINT8,
        FieldValue::I8(_) => crate::types::IN_INT8,
        FieldValue::U16(_) => crate::types::IN_UINT16,
        FieldValue::I16(_) => crate::types::IN_INT16,
        FieldValue::U32(_) => crate::types::IN_UINT32,
        FieldValue::I32(_) => crate::types::IN_INT32,
        FieldValue::U64(_) => crate::types::IN_UINT64,
        FieldValue::I64(_) => crate::types::IN_INT64,
        FieldValue::Bool(_) => crate::types::IN_BOOL32,
        FieldValue::Str(_) => crate::types::IN_UNICODE_STRING,
        FieldValue::Guid(_) => crate::types::IN_GUID,
        FieldValue::FileTime(_) => crate::types::IN_FILETIME,
        FieldValue::Binary(_) => crate::types::IN_BINARY,
        FieldValue::ArrayU32(_) => crate::types::IN_UINT32_VCOUNT,
    }
}

/// Whether a value fits the format's length fields.
pub fn check_encodable(v: &FieldValue) -> (r: bool)
    ensures
        r == value_encodable(*v),
{
    match v {
        FieldValue::Binary(b) => b.len() <= 0xFFFF,
        FieldValue::ArrayU32(a) => a.len() <= 0xFFFF,
        _ => true,
    }
}

fn encode_error(v: &FieldValue) -> (r: Error)
    ensures
        r == encode_err_of(*v),
{
    match v {
        FieldValue::ArrayU32(_) => Error::FieldTooLarge,
        _ => Error::UnsupportedSize,
    }
}

} // verus!
