//! Metadata encoder: the self-describing blobs.
//!
//! A provider blob is `[total length][provider name][identifier]`; an event
//! blob is `[total length][event name][field entries...]`. Names travel
//! null-terminated in little-endian UTF-16; every length is a 16-bit
//! little-endian prefix that counts the whole blob, prefix included.
//! Construction is purely structural: it reads only the declared signature,
//! never live values, so a blob is built once per declared event and cached
//! in its descriptor.

use vstd::prelude::*;
use vstd::string::StrSliceExecFns;
use crate::Error;
use crate::guid::Guid;
use crate::guid::guid_bytes;
use crate::text::put_utf16z;
use crate::text::utf16z_bytes;
use crate::wire::le_bytes;
use crate::wire::put_le;
use crate::types::OUT_DEFAULT;

verus! {

/// Whether a name may stand in a blob: free of embedded nulls, since names
/// are null-terminated on the wire.
pub open spec fn name_ok(s: Seq<char>) -> bool {
    forall|i: int| 0 <= i < s.len() ==> #[trigger] s[i] != '\0'
}

/// Checks a name for embedded nulls.
pub fn check_name(s: &str) -> (r: bool)
    ensures
        r == name_ok(s@),
{
    let n = s.unicode_len();
    let mut i: usize = 0;
    while i < n
        invariant
            i <= n,
            n == s@.len(),
            forall|j: int| 0 <= j < i ==> #[trigger] s@[j] != '\0',
        decreases n - i,
    {
        if s.get_char(i) == '\0' {
            return false;
        }
        i += 1;
    }
    true
}

/// One declared event field: a name, the external (in-type, out-type) code
/// pair, and an optional fixed array count. Created once per declared event
/// signature and immutable afterwards.
pub struct FieldDescriptor {
    pub name: String,
    pub in_type: u8,
    pub out_type: u8,
    pub count: Option<u16>,
}

/// Well-formedness of a field: non-empty null-free name, and an in-type
/// without the chain or fixed-count flags, which the encoder derives from
/// `out_type` and `count` itself.
pub open spec fn field_wf(f: FieldDescriptor) -> bool {
    &&& f.name@.len() > 0
    &&& name_ok(f.name@)
    &&& f.in_type & 0xA0u8 == 0u8
}

/// The in-type byte a field entry carries: the chain flag marks a trailing
/// out-type byte, the fixed-count flag a trailing 16-bit count.
pub open spec fn field_tag(f: FieldDescriptor) -> u8 {
    if f.out_type != OUT_DEFAULT && f.count is Some {
        (f.in_type | 0x80u8) | 0x20u8
    } else if f.out_type != OUT_DEFAULT {
        f.in_type | 0x80u8
    } else if f.count is Some {
        f.in_type | 0x20u8
    } else {
        f.in_type
    }
}

/// The bytes of one field entry: name, tagged in-type, then the optional
/// out-type byte and the optional fixed count.
pub open spec fn field_entry_bytes(f: FieldDescriptor) -> Seq<u8> {
    utf16z_bytes(f.name@) + seq![field_tag(f)] + (if f.out_type != OUT_DEFAULT {
        seq![f.out_type]
    } else {
        Seq::<u8>::empty()
    }) + (match f.count {
        Some(c) => le_bytes(c as nat, 2),
        None => Seq::<u8>::empty(),
    })
}

/// The concatenated entries of a field list, in declared order.
pub open spec fn entries_bytes(fs: Seq<FieldDescriptor>) -> Seq<u8>
    decreases fs.len(),
{
    if fs.len() == 0 {
        Seq::empty()
    } else {
        field_entry_bytes(fs[0]) + entries_bytes(fs.skip(1))
    }
}

proof fn lemma_entries_bytes_snoc(fs: Seq<FieldDescriptor>, f: FieldDescriptor)
    ensures
        entries_bytes(fs.push(f)) == entries_bytes(fs) + field_entry_bytes(f),
    decreases fs.len(),
{
    if fs.len() == 0 {
        assert(fs.push(f).skip(1) =~= Seq::<FieldDescriptor>::empty());
        assert(fs.push(f)[0] == f);
        assert(entries_bytes(fs.push(f)) == field_entry_bytes(f) + entries_bytes(
            fs.push(f).skip(1),
        ));
        assert(entries_bytes(fs.push(f)) =~= field_entry_bytes(f));
        assert(entries_bytes(fs) + field_entry_bytes(f) =~= field_entry_bytes(f));
    } else {
        assert(fs.push(f).skip(1) =~= fs.skip(1).push(f));
        lemma_entries_bytes_snoc(fs.skip(1), f);
        assert(entries_bytes(fs.push(f)) =~= entries_bytes(fs) + field_entry_bytes(f));
    }
}

impl FieldDescriptor {
    /// Declares a scalar or string field. The name must be non-empty and
    /// null-free; the in-type must leave the chain and fixed-count flags to
    /// the encoder.
    pub fn new(name: &str, in_type: u8, out_type: u8) -> (r: Result<FieldDescriptor, Error>)
        ensures
            r is Ok <==> name@.len() > 0 && name_ok(name@) && in_type & 0xA0u8 == 0u8,
            r is Ok ==> r->Ok_0 == (FieldDescriptor {
                name: r->Ok_0.name,
                in_type,
                out_type,
                count: None,
            }) && r->Ok_0.name@ == name@ && field_wf(r->Ok_0),
            r is Err ==> r->Err_0 == Error::FormatError,
    {
        if name.unicode_len() == 0 || !check_name(name) || !(in_type & 0xA0 == 0) {
            return Err(Error::FormatError);
        }
        Ok(FieldDescriptor { name: name.to_owned(), in_type, out_type, count: None })
    }

    /// Declares a fixed-count array field: the count is carried in the
    /// field metadata, tagged by the fixed-count flag.
    pub fn with_count(name: &str, in_type: u8, out_type: u8, count: u16) -> (r: Result<
        FieldDescriptor,
        Error,
    >)
        ensures
            r is Ok <==> name@.len() > 0 && name_ok(name@) && in_type & 0xA0u8 == 0u8,
            r is Ok ==> r->Ok_0 == (FieldDescriptor {
                name: r->Ok_0.name,
                in_type,
                out_type,
                count: Some(count),
            }) && r->Ok_0.name@ == name@ && field_wf(r->Ok_0),
            r is Err ==> r->Err_0 == Error::FormatError,
    {
        if name.unicode_len() == 0 || !check_name(name) || !(in_type & 0xA0 == 0) {
            return Err(Error::FormatError);
        }
        Ok(FieldDescriptor { name: name.to_owned(), in_type, out_type, count: Some(count) })
    }
}

/// With every field name at most `m` characters, each entry takes at most
/// `4 m + 6` bytes, so the whole entry list is linearly bounded.
pub proof fn lemma_entries_bytes_len_bound(fs: Seq<FieldDescriptor>, m: nat)
    requires
        forall|i: int| 0 <= i < fs.len() ==> (#[trigger] fs[i]).name@.len() <= m,
    ensures
        entries_bytes(fs).len() <= fs.len() * (4 * m + 6),
    decreases fs.len(),
{
    if fs.len() > 0 {
        assert(fs[0].name@.len() <= m);
        crate::text::lemma_utf16z_bytes_len(fs[0].name@);
        if fs[0].count is Some {
            crate::wire::lemma_le_bytes_len(fs[0].count->Some_0 as nat, 2);
        }
        assert(field_entry_bytes(fs[0]).len() <= 4 * m + 6);
        assert(forall|i: int| 0 <= i < fs.skip(1).len() ==> (#[trigger] fs.skip(1)[i]).name@.len()
            <= m);
        lemma_entries_bytes_len_bound(fs.skip(1), m);
        assert((fs.len() - 1) * (4 * m + 6) + (4 * m + 6) == fs.len() * (4 * m + 6))
            by (nonlinear_arith);
    }
}

/// The body of an event blob: the event name, then the field entries.
pub open spec fn event_body_bytes(name: Seq<char>, fs: Seq<FieldDescriptor>) -> Seq<u8> {
    utf16z_bytes(name) + entries_bytes(fs)
}

/// Whether an event blob fits its 16-bit total-length prefix.
pub open spec fn event_blob_fits(name: Seq<char>, fs: Seq<FieldDescriptor>) -> bool {
    2 + event_body_bytes(name, fs).len() <= 0xFFFF
}

/// The complete event blob: total length (prefix included), then the body.
pub open spec fn event_blob_bytes(name: Seq<char>, fs: Seq<FieldDescriptor>) -> Seq<u8> {
    le_bytes((2 + event_body_bytes(name, fs).len()) as nat, 2) + event_body_bytes(name, fs)
}

/// Builds the self-describing blob for one event signature.
pub fn build_event_metadata(name: &str, fields: &Vec<FieldDescriptor>) -> (r: Result<
    Vec<u8>,
    Error,
>)
    ensures
        r is Ok <==> event_blob_fits(name@, fields@),
        r is Ok ==> r->Ok_0@ == event_blob_bytes(name@, fields@),
        r is Err ==> r->Err_0 == Error::FieldTooLarge,
{
    let mut body: Vec<u8> = Vec::new();
    put_utf16z(&mut body, name);
    let mut i: usize = 0;
    while i < fields.len()
        invariant
            i <= fields@.len(),
            body@ == utf16z_bytes(name@) + entries_bytes(fields@.take(i as int)),
        decreases fields@.len() - i,
    {
        let f = &fields[i];
        put_utf16z(&mut body, f.name.as_str());
        let has_out = f.out_type != OUT_DEFAULT;
        let has_count = f.count.is_some();
        let tag: u8 = if has_out && has_count {
            (f.in_type | 0x80) | 0x20
        } else if has_out {
            f.in_type | 0x80
        } else if has_count {
            f.in_type | 0x20
        } else {
            f.in_type
        };
        body.push(tag);
        if has_out {
            body.push(f.out_type);
        }
        match f.count {
            Some(c) => put_le(&mut body, c as u64, 2),
            None => (),
        }
        proof {
            assert(fields@.take(i as int + 1) =~= fields@.take(i as int).push(fields@[i as int]));
            lemma_entries_bytes_snoc(fields@.take(i as int), fields@[i as int]);
            assert(body@ =~= utf16z_bytes(name@) + entries_bytes(fields@.take(i as int + 1)));
        }
        i += 1;
    }
    proof {
        assert(fields@.take(fields@.len() as int) =~= fields@);
    }
    if body.len() > 0xFFFF - 2 {
        return Err(Error::FieldTooLarge);
    }
    let total: usize = body.len() + 2;
    let mut out: Vec<u8> = Vec::new();
    put_le(&mut out, total as u64, 2);
    out.append(&mut body);
    Ok(out)
}

/// Whether a provider blob fits its 16-bit total-length prefix.
pub open spec fn provider_blob_fits(name: Seq<char>) -> bool {
    2 + utf16z_bytes(name).len() + 16 <= 0xFFFF
}

/// The complete provider blob: total length, provider name, identifier.
pub open spec fn provider_blob_bytes(name: Seq<char>, id: Guid) -> Seq<u8> {
    le_bytes((2 + utf16z_bytes(name).len() + 16) as nat, 2) + utf16z_bytes(name) + guid_bytes(id)
}

/// Builds the provider-level blob, once at registration.
pub fn build_provider_metadata(name: &str, id: &Guid) -> (r: Result<Vec<u8>, Error>)
    ensures
        r is Ok <==> provider_blob_fits(name@),
        r is Ok ==> r->Ok_0@ == provider_blob_bytes(name@, *id),
        r is Err ==> r->Err_0 == Error::FieldTooLarge,
{
    let mut body: Vec<u8> = Vec::new();
    put_utf16z(&mut body, name);
    id.put_bytes(&mut body);
    proof {
        crate::wire::lemma_le_bytes_len(id.data1 as nat, 4);
        crate::wire::lemma_le_bytes_len(id.data2 as nat, 2);
        crate::wire::lemma_le_bytes_len(id.data3 as nat, 2);
        assert(guid_bytes(*id).len() == 16);
    }
    if body.len() > 0xFFFF - 2 {
        return Err(Error::FieldTooLarge);
    }
    let total: usize = body.len() + 2;
    let mut out: Vec<u8> = Vec::new();
    put_le(&mut out, total as u64, 2);
    out.append(&mut body);
    proof {
        assert(out@ =~= provider_blob_bytes(name@, *id));
    }
    Ok(out)
}

/// One declared event: a name, level, keyword mask, opcode, the ordered
/// field list, and the cached metadata blob. The blob is computed exactly
/// once, here, and reused byte-identically by every emission.
pub struct EventDescriptor {
    pub name: String,
    pub level: u8,
    pub keyword: u64,
    pub opcode: u8,
    pub fields: Vec<FieldDescriptor>,
    pub metadata: Vec<u8>,
}

impl EventDescriptor {
    /// Well-formedness: valid names, a blob that fits, and a cached blob
    /// that is exactly the encoding of the declared signature.
    pub open spec fn wf(self) -> bool {
        &&& name_ok(self.name@)
        &&& forall|i: int| 0 <= i < self.fields@.len() ==> field_wf(#[trigger] self.fields@[i])
        &&& event_blob_fits(self.name@, self.fields@)
        &&& self.metadata@ == event_blob_bytes(self.name@, self.fields@)
    }

    /// Declares an event and builds its metadata blob once.
    pub fn new(name: &str, level: u8, keyword: u64, opcode: u8, fields: Vec<FieldDescriptor>) -> (r:
        Result<EventDescriptor, Error>)
        ensures
            r is Ok <==> name_ok(name@) && (forall|i: int|
                0 <= i < fields@.len() ==> field_wf(#[trigger] fields@[i])) && event_blob_fits(
                name@,
                fields@,
            ),
            r is Ok ==> r->Ok_0.wf() && r->Ok_0.name@ == name@ && r->Ok_0.level == level
                && r->Ok_0.keyword == keyword && r->Ok_0.opcode == opcode && r->Ok_0.fields@
                == fields@,
            r is Err ==> r->Err_0 == Error::FormatError || r->Err_0 == Error::FieldTooLarge,
            r is Err && name_ok(name@) && (forall|i: int|
                0 <= i < fields@.len() ==> field_wf(#[trigger] fields@[i])) ==> r->Err_0
                == Error::FieldTooLarge,
    {
        if !check_name(name) {
            return Err(Error::FormatError);
        }
        let mut i: usize = 0;
        while i < fields.len()
            invariant
                i <= fields@.len(),
                forall|j: int| 0 <= j < i ==> field_wf(#[trigger] fields@[j]),
            decreases fields@.len() - i,
        {
            let f = &fields[i];
            if f.name.as_str().unicode_len() == 0 || !check_name(f.name.as_str()) || !(f.in_type
                & 0xA0 == 0) {
                return Err(Error::FormatError);
            }
            i += 1;
        }
        let metadata = match build_event_metadata(name, &fields) {
            Ok(m) => m,
            Err(e) => {
                return Err(e);
            },
        };
        Ok(EventDescriptor { name: name.to_owned(), level, keyword, opcode, fields, metadata })
    }
}

/// Law: the metadata blob is a function of the declared signature alone —
/// two well-formed descriptors with equal names and equal field lists carry
/// byte-identical blobs, so repeated emissions of one event reuse one
/// identical blob and never rebuild it from live values.
pub proof fn lemma_metadata_blob_deterministic(a: EventDescriptor, b: EventDescriptor)
    requires
        a.wf(),
        b.wf(),
        a.name@ == b.name@,
        a.fields@ == b.fields@,
    ensures
        a.metadata@ == b.metadata@,
{
}

} // verus!
