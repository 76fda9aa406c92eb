//! Provider lifecycle and emission tests: registration, enablement,
//! idempotent unregistration, descriptor-list shape, the disabled fast
//! path, and oversized-field rejection before any submission.

use win_etw::descriptor::assemble_descriptors;
use win_etw::guid::Guid;
use win_etw::metadata::EventDescriptor;
use win_etw::metadata::FieldDescriptor;
use win_etw::provider::EventProvider;
use win_etw::types::FieldValue;
use win_etw::types::IN_UINT32;
use win_etw::types::IN_UINT32_VCOUNT;
use win_etw::types::IN_UNICODE_STRING;
use win_etw::types::OUT_DEFAULT;
use win_etw::Error;

fn test_guid() -> Guid {
    Guid::parse("{00000000-0000-0000-0000-000000000001}").unwrap()
}

fn log_fields() -> Vec<FieldDescriptor> {
    vec![
        FieldDescriptor::new("module_path", IN_UNICODE_STRING, OUT_DEFAULT).unwrap(),
        FieldDescriptor::new("file", IN_UNICODE_STRING, OUT_DEFAULT).unwrap(),
        FieldDescriptor::new("line", IN_UINT32, OUT_DEFAULT).unwrap(),
        FieldDescriptor::new("message", IN_UNICODE_STRING, OUT_DEFAULT).unwrap(),
    ]
}

fn log_values() -> Vec<FieldValue> {
    vec![
        FieldValue::Str("crate::mod".to_string()),
        FieldValue::Str("lib.rs".to_string()),
        FieldValue::U32(42),
        FieldValue::Str("hello".to_string()),
    ]
}

fn utf16z(s: &str) -> Vec<u8> {
    let mut out = Vec::new();
    for u in s.encode_utf16() {
        out.extend_from_slice(&u.to_le_bytes());
    }
    out.extend_from_slice(&[0, 0]);
    out
}

#[test]
fn register_reports_identity() {
    let p = EventProvider::register("TestProvider", &test_guid()).unwrap();
    assert!(p.registered);
    assert!(!p.enabled);
    assert_eq!(p.events_written, 0);
    assert_eq!(p.work_counter, 0);
}

#[test]
fn provider_blob_layout() {
    let p = EventProvider::register("TestProvider", &test_guid()).unwrap();
    let mut expected = Vec::new();
    let body = {
        let mut b = utf16z("TestProvider");
        let mut gb = Vec::new();
        test_guid().put_bytes(&mut gb);
        b.extend_from_slice(&gb);
        b
    };
    expected.extend_from_slice(&((body.len() + 2) as u16).to_le_bytes());
    expected.extend_from_slice(&body);
    assert_eq!(p.metadata, expected);
}

#[test]
fn register_rejects_embedded_nul() {
    assert!(matches!(
        EventProvider::register("bad\0name", &test_guid()),
        Err(Error::FormatError)
    ));
}

#[test]
fn unregister_twice_is_harmless() {
    let mut p = EventProvider::register("TestProvider", &test_guid()).unwrap();
    p.unregister();
    assert!(!p.registered);
    p.unregister();
    assert!(!p.registered);
}

#[test]
fn disabled_provider_does_no_work() {
    let mut p = EventProvider::register("TestProvider", &test_guid()).unwrap();
    let ev = EventDescriptor::new("log", 4, 0, 0, log_fields()).unwrap();
    let r = p.write_event(&ev, None, &log_values());
    assert!(r.is_ok());
    assert_eq!(p.work_counter, 0);
    assert_eq!(p.events_written, 0);
    assert_eq!(p.last_descriptor_count, 0);
}

#[test]
fn level_gates_emission() {
    let mut p = EventProvider::register("TestProvider", &test_guid()).unwrap();
    p.set_enabled(true, 3, 0);
    let ev = EventDescriptor::new("log", 4, 0, 0, log_fields()).unwrap();
    assert!(!p.is_enabled(4, 0));
    assert!(p.is_enabled(3, 0));
    let r = p.write_event(&ev, None, &log_values());
    assert!(r.is_ok());
    assert_eq!(p.events_written, 0);
}

#[test]
fn keyword_mask_gates_emission() {
    let mut p = EventProvider::register("TestProvider", &test_guid()).unwrap();
    p.set_enabled(true, 5, 0x0F);
    assert!(p.is_enabled(4, 0x01));
    assert!(!p.is_enabled(4, 0x10));
    assert!(p.is_enabled(4, 0));
}

#[test]
fn emission_scenario_descriptor_count() {
    let mut p = EventProvider::register("TestProvider", &test_guid()).unwrap();
    p.set_enabled(true, 5, 0);
    let ev = EventDescriptor::new("log", 4, 0, 0, log_fields()).unwrap();
    let r = p.write_event(&ev, None, &log_values());
    assert!(r.is_ok());
    assert_eq!(p.events_written, 1);
    assert_eq!(p.work_counter, 4);
    assert_eq!(p.last_descriptor_count, 5);
}

#[test]
fn emission_scenario_metadata_decodes() {
    let ev = EventDescriptor::new("log", 4, 0, 0, log_fields()).unwrap();
    let blob = &ev.metadata;
    // total length prefix covers the whole blob
    let total = u16::from_le_bytes([blob[0], blob[1]]) as usize;
    assert_eq!(total, blob.len());
    // event name, null-terminated UTF-16
    let mut pos = 2;
    let (name, next) = read_utf16z(blob, pos);
    assert_eq!(name, "log");
    pos = next;
    // field entries: (name, in-type) pairs, out-types all default
    let mut fields = Vec::new();
    while pos < blob.len() {
        let (fname, next) = read_utf16z(blob, pos);
        pos = next;
        let tag = blob[pos];
        pos += 1;
        if tag & 0x80 != 0 {
            pos += 1;
        }
        if tag & 0x20 != 0 {
            pos += 2;
        }
        fields.push((fname, tag & 0x5F));
    }
    assert_eq!(
        fields,
        vec![
            ("module_path".to_string(), IN_UNICODE_STRING),
            ("file".to_string(), IN_UNICODE_STRING),
            ("line".to_string(), IN_UINT32),
            ("message".to_string(), IN_UNICODE_STRING),
        ]
    );
}

fn read_utf16z(b: &[u8], mut pos: usize) -> (String, usize) {
    let mut units = Vec::new();
    loop {
        let u = u16::from_le_bytes([b[pos], b[pos + 1]]);
        pos += 2;
        if u == 0 {
            break;
        }
        units.push(u);
    }
    (String::from_utf16(&units).unwrap(), pos)
}

#[test]
fn mismatched_values_report_submit_error() {
    let mut p = EventProvider::register("TestProvider", &test_guid()).unwrap();
    p.set_enabled(true, 5, 0);
    let ev = EventDescriptor::new("log", 4, 0, 0, log_fields()).unwrap();
    let wrong = vec![FieldValue::U32(1)];
    assert_eq!(
        p.write_event(&ev, None, &wrong).unwrap_err(),
        Error::SubmitError(87)
    );
    assert_eq!(p.events_written, 0);
}

#[test]
fn oversized_array_rejected_before_submission() {
    let mut p = EventProvider::register("TestProvider", &test_guid()).unwrap();
    p.set_enabled(true, 5, 0);
    let fields = vec![FieldDescriptor::new("data", IN_UINT32_VCOUNT, OUT_DEFAULT).unwrap()];
    let ev = EventDescriptor::new("big", 4, 0, 0, fields).unwrap();
    let values = vec![FieldValue::ArrayU32(vec![0u32; 65536])];
    assert_eq!(p.write_event(&ev, None, &values).unwrap_err(), Error::FieldTooLarge);
    assert_eq!(p.events_written, 0);
    assert_eq!(p.last_descriptor_count, 0);
}

#[test]
fn descriptor_list_shape() {
    let meta = vec![1u8, 2, 3];
    let bufs = vec![vec![4u8], vec![5u8, 6], vec![]];
    let descs = assemble_descriptors(&meta, &bufs);
    assert_eq!(descs.len(), 4);
    assert_eq!(descs[0].data, &meta[..]);
    assert_eq!(descs[0].size(), 3);
    assert_eq!(descs[1].data, &[4u8][..]);
    assert_eq!(descs[2].size(), 2);
    assert_eq!(descs[3].size(), 0);
}

#[test]
fn event_blob_too_large_rejected() {
    let long_name: String = std::iter::repeat('a').take(33000).collect();
    let r = EventDescriptor::new(&long_name, 4, 0, 0, Vec::new());
    assert!(matches!(r, Err(Error::FieldTooLarge)));
}

#[test]
fn field_descriptor_rejects_bad_names() {
    assert!(matches!(
        FieldDescriptor::new("", IN_UINT32, OUT_DEFAULT),
        Err(Error::FormatError)
    ));
    assert!(matches!(
        FieldDescriptor::new("a\0b", IN_UINT32, OUT_DEFAULT),
        Err(Error::FormatError)
    ));
}

#[test]
fn fixed_count_field_entry_layout() {
    let f = FieldDescriptor::with_count("pair", IN_UINT32, OUT_DEFAULT, 2).unwrap();
    let ev = EventDescriptor::new("e", 4, 0, 0, vec![f]).unwrap();
    let blob = &ev.metadata;
    let mut pos = 2;
    let (_, next) = read_utf16z(blob, pos);
    pos = next;
    let (fname, next) = read_utf16z(blob, pos);
    assert_eq!(fname, "pair");
    pos = next;
    let tag = blob[pos];
    assert_eq!(tag, IN_UINT32 | 0x20);
    assert_eq!(&blob[pos + 1..pos + 3], &[2, 0]);
    assert_eq!(pos + 3, blob.len());
}

#[test]
fn event_without_fields_submits_schema_only() {
    let mut p = EventProvider::register("TestProvider", &test_guid()).unwrap();
    p.set_enabled(true, 5, 0);
    let ev = EventDescriptor::new("tick", 4, 0, 0, Vec::new()).unwrap();
    let r = p.write_event(&ev, None, &Vec::new());
    assert!(r.is_ok());
    assert_eq!(p.last_descriptor_count, 1);
    assert_eq!(p.work_counter, 0);
    assert_eq!(p.events_written, 1);
}

#[test]
fn enable_before_register_has_no_effect() {
    let mut p = EventProvider::register("TestProvider", &test_guid()).unwrap();
    p.unregister();
    p.set_enabled(true, 5, 0);
    assert!(!p.enabled);
    assert!(!p.is_enabled(4, 0));
}

#[test]
fn array_field_emits() {
    let mut p = EventProvider::register("TestProvider", &test_guid()).unwrap();
    p.set_enabled(true, 5, 0);
    let fields = vec![FieldDescriptor::new("data", IN_UINT32_VCOUNT, OUT_DEFAULT).unwrap()];
    let ev = EventDescriptor::new("arr", 4, 0, 0, fields).unwrap();
    let values = vec![FieldValue::ArrayU32(vec![7, 8, 9])];
    assert!(p.write_event(&ev, None, &values).is_ok());
    assert_eq!(p.last_descriptor_count, 2);
    assert_eq!(p.events_written, 1);
}

#[test]
fn keyword_event_respects_mask() {
    let mut p = EventProvider::register("TestProvider", &test_guid()).unwrap();
    p.set_enabled(true, 5, 0x2);
    let ev = EventDescriptor::new("kw", 4, 0x4, 0, log_fields()).unwrap();
    assert!(p.write_event(&ev, None, &log_values()).is_ok());
    assert_eq!(p.events_written, 0);
    p.set_enabled(true, 5, 0x4);
    assert!(p.write_event(&ev, None, &log_values()).is_ok());
    assert_eq!(p.events_written, 1);
}
