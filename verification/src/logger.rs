//! The logging facade: routes generic log records onto five declared
//! severity events of one provider.
//!
//! Each severity's event carries the signature
//! `(module_path, file, line, message)`. Two independent flags gate whether
//! the module path and the file/line are populated; both default to
//! included.

use vstd::prelude::*;
use crate::Error;
use crate::guid::Guid;
use crate::metadata::EventDescriptor;
use crate::metadata::FieldDescriptor;
use crate::provider::EventProvider;
use crate::provider::sat_add64;
use crate::text::utf16z_bytes;
use crate::types::FieldValue;
use crate::types::IN_UINT32;
use crate::types::IN_UNICODE_STRING;
use crate::types::OUT_DEFAULT;
use crate::wire::le_bytes;

verus! {

/// The five severities the facade routes.
#[derive(Clone, Copy, Debug, PartialEq, Eq, Structural)]
pub enum LogLevel {
    Error,
    Warn,
    Info,
    Debug,
    Trace,
}

/// The wire level of each severity; the two most verbose severities share
/// the verbose level.
pub open spec fn level_value(l: LogLevel) -> u8 {
    match l {
        LogLevel::Error => 2,
        LogLevel::Warn => 3,
        LogLevel::Info => 4,
        LogLevel::Debug => 5,
        LogLevel::Trace => 5,
    }
}

/// The shape of one routed event: well-formed, at its severity's level,
/// keyword-free, with the `(module_path, file, line, message)` signature.
pub open spec fn log_event_wf(e: EventDescriptor, level: u8) -> bool {
    &&& e.wf()
    &&& e.level == level
    &&& e.keyword == 0
    &&& e.fields@.len() == 4
    &&& e.fields@[0].in_type == IN_UNICODE_STRING
    &&& e.fields@[1].in_type == IN_UNICODE_STRING
    &&& e.fields@[2].in_type == IN_UINT32
    &&& e.fields@[3].in_type == IN_UNICODE_STRING
}

/// The facade: one registered provider, five declared events, two privacy
/// flags.
pub struct TraceLogger {
    pub provider: EventProvider,
    pub event_error: EventDescriptor,
    pub event_warn: EventDescriptor,
    pub event_info: EventDescriptor,
    pub event_debug: EventDescriptor,
    pub event_trace: EventDescriptor,
    pub log_module_path: bool,
    pub log_file_path: bool,
}

fn make_event(name: &str, level: u8) -> (r: Result<EventDescriptor, Error>)
    requires
        0 < name@.len() <= 100,
        crate::metadata::name_ok(name@),
    ensures
        r is Ok,
        r is Ok ==> log_event_wf(r->Ok_0, level),
{
    proof {
        reveal_strlit("module_path");
        reveal_strlit("file");
        reveal_strlit("line");
        reveal_strlit("message");
        assert(1u8 & 0xA0u8 == 0u8) by (bit_vector);
        assert(8u8 & 0xA0u8 == 0u8) by (bit_vector);
        assert("module_path"@.len() == 11 && crate::metadata::name_ok("module_path"@));
        assert("file"@.len() == 4 && crate::metadata::name_ok("file"@));
        assert("line"@.len() == 4 && crate::metadata::name_ok("line"@));
        assert("message"@.len() == 7 && crate::metadata::name_ok("message"@));
    }
    let mut fields: Vec<FieldDescriptor> = Vec::new();
    let f = match FieldDescriptor::new("module_path", IN_UNICODE_STRING, OUT_DEFAULT) {
        Ok(f) => f,
        Err(e) => {
            return Err(e);
        },
    };
    fields.push(f);
    let f = match FieldDescriptor::new("file", IN_UNICODE_STRING, OUT_DEFAULT) {
        Ok(f) => f,
        Err(e) => {
            return Err(e);
        },
    };
    fields.push(f);
    let f = match FieldDescriptor::new("line", IN_UINT32, OUT_DEFAULT) {
        Ok(f) => f,
        Err(e) => {
            return Err(e);
        },
    };
    fields.push(f);
    let f = match FieldDescriptor::new("message", IN_UNICODE_STRING, OUT_DEFAULT) {
        Ok(f) => f,
        Err(e) => {
            return Err(e);
        },
    };
    fields.push(f);
    proof {
        assert(fields@.len() == 4);
        assert(forall|i: int|
            0 <= i < fields@.len() ==> crate::metadata::field_wf(#[trigger] fields@[i]));
        assert(forall|i: int|
            0 <= i < fields@.len() ==> (#[trigger] fields@[i]).name@.len() <= 16);
        crate::metadata::lemma_entries_bytes_len_bound(fields@, 16);
        crate::text::lemma_utf16z_bytes_len(name@);
        assert(crate::metadata::event_blob_fits(name@, fields@));
    }
    match EventDescriptor::new(name, level, 0, 0, fields) {
        Ok(e) => Ok(e),
        Err(e) => Err(e),
    }
}

impl TraceLogger {
    /// Well-formedness: a well-formed provider and the five events in their
    /// declared shapes.
    pub open spec fn wf(self) -> bool {
        &&& self.provider.wf()
        &&& log_event_wf(self.event_error, 2)
        &&& log_event_wf(self.event_warn, 3)
        &&& log_event_wf(self.event_info, 4)
        &&& log_event_wf(self.event_debug, 5)
        &&& log_event_wf(self.event_trace, 5)
    }

    /// The event a severity routes to.
    pub open spec fn event_for(self, l: LogLevel) -> EventDescriptor {
        match l {
            LogLevel::Error => self.event_error,
            LogLevel::Warn => self.event_warn,
            LogLevel::Info => self.event_info,
            LogLevel::Debug => self.event_debug,
            LogLevel::Trace => self.event_trace,
        }
    }

    /// Registers the logging provider and declares its five events.
    /// Module paths and file/line default to included.
    pub fn new() -> (r: Result<TraceLogger, Error>)
        ensures
            r is Ok,
            r is Ok ==> {
                let t = r->Ok_0;
                &&& t.wf()
                &&& t.log_module_path
                &&& t.log_file_path
                &&& t.provider.registered
                &&& !t.provider.enabled
            },
    {
        let id = Guid::from_fields(
            0x7f006a22,
            0x73fb,
            0x4c17,
            [0xb1, 0xeb, 0x0a, 0x30, 0x70, 0xf9, 0xf1, 0x87],
        );
        proof {
            reveal_strlit("RustLogProvider");
            assert("RustLogProvider"@.len() == 15);
            assert(crate::metadata::name_ok("RustLogProvider"@));
            crate::text::lemma_utf16z_bytes_len("RustLogProvider"@);
            assert(crate::metadata::provider_blob_fits("RustLogProvider"@));
        }
        let provider = match EventProvider::register("RustLogProvider", &id) {
            Ok(p) => p,
            Err(e) => {
                return Err(e);
            },
        };
        proof {
            reveal_strlit("error");
            reveal_strlit("warn");
            reveal_strlit("info");
            reveal_strlit("debug");
            reveal_strlit("trace");
            assert("error"@.len() == 5 && crate::metadata::name_ok("error"@));
            assert("warn"@.len() == 4 && crate::metadata::name_ok("warn"@));
            assert("info"@.len() == 4 && crate::metadata::name_ok("info"@));
            assert("debug"@.len() == 5 && crate::metadata::name_ok("debug"@));
            assert("trace"@.len() == 5 && crate::metadata::name_ok("trace"@));
        }
        let event_error = match make_event("error", 2) {
            Ok(e) => e,
            Err(e) => {
                return Err(e);
            },
        };
        let event_warn = match make_event("warn", 3) {
            Ok(e) => e,
            Err(e) => {
                return Err(e);
            },
        };
        let event_info = match make_event("info", 4) {
            Ok(e) => e,
            Err(e) => {
                return Err(e);
            },
        };
        let event_debug = match make_event("debug", 5) {
            Ok(e) => e,
            Err(e) => {
                return Err(e);
            },
        };
        let event_trace = match make_event("trace", 5) {
            Ok(e) => e,
            Err(e) => {
                return Err(e);
            },
        };
        Ok(
            TraceLogger {
                provider,
                event_error,
                event_warn,
                event_info,
                event_debug,
                event_trace,
                log_module_path: true,
                log_file_path: true,
            },
        )
    }

    /// Controls whether module paths are included in event records; the
    /// default is `true`. Provided for privacy and record-size control.
    pub fn set_log_module_path(&mut self, value: bool)
        ensures
            final(self).log_module_path == value,
            final(self).log_file_path == old(self).log_file_path,
            final(self).provider == old(self).provider,
            final(self).event_error == old(self).event_error,
            final(self).event_warn == old(self).event_warn,
            final(self).event_info == old(self).event_info,
            final(self).event_debug == old(self).event_debug,
            final(self).event_trace == old(self).event_trace,
            old(self).wf() ==> final(self).wf(),
    {
        self.log_module_path = value;
    }

    /// Controls whether source file names and line numbers are included in
    /// event records; the default is `true`.
    pub fn set_log_file_path(&mut self, value: bool)
        ensures
            final(self).log_file_path == value,
            final(self).log_module_path == old(self).log_module_path,
            final(self).provider == old(self).provider,
            final(self).event_error == old(self).event_error,
            final(self).event_warn == old(self).event_warn,
            final(self).event_info == old(self).event_info,
            final(self).event_debug == old(self).event_debug,
            final(self).event_trace == old(self).event_trace,
            old(self).wf() ==> final(self).wf(),
    {
        self.log_file_path = value;
    }

    /// Whether module paths are included in event records.
    pub fn log_module_path(&self) -> (r: bool)
        ensures
            r == self.log_module_path,
    {
        self.log_module_path
    }

    /// Whether file names and line numbers are included in event records.
    pub fn log_file_path(&self) -> (r: bool)
        ensures
            r == self.log_file_path,
    {
        self.log_file_path
    }

    /// Routes one record: gates the module path and the file/line by the
    /// two privacy flags, then emits on the severity's event. A disabled
    /// provider costs the enablement branch alone and performs no encoding
    /// or assembly work; an enabled one submits exactly the schema blob
    /// plus the four gated field buffers.
    pub fn log(
        &mut self,
        level: LogLevel,
        module: &str,
        file: &str,
        line: u32,
        message: &str,
    ) -> (r: Result<(), Error>)
        requires
            old(self).wf(),
        ensures
            final(self).wf(),
            r is Ok,
            final(self).log_module_path == old(self).log_module_path,
            final(self).log_file_path == old(self).log_file_path,
            final(self).event_error == old(self).event_error,
            final(self).event_warn == old(self).event_warn,
            final(self).event_info == old(self).event_info,
            final(self).event_debug == old(self).event_debug,
            final(self).event_trace == old(self).event_trace,
            final(self).provider.same_config(old(self).provider),
            !old(self).provider.is_enabled_spec(level_value(level), 0) ==> final(self).provider
                == old(self).provider,
            old(self).provider.is_enabled_spec(level_value(level), 0) ==> {
                let p = final(self).provider;
                let q = old(self).provider;
                &&& p.events_written == sat_add64(q.events_written, 1)
                &&& p.work_counter == sat_add64(q.work_counter, 4)
                &&& p.last_descriptor_count == 5
                &&& p.last_submission@ == seq![
                    utf16z_bytes(if q.enabled && old(self).log_module_path {
                        module@
                    } else {
                        Seq::<char>::empty()
                    }),
                    utf16z_bytes(if q.enabled && old(self).log_file_path {
                        file@
                    } else {
                        Seq::<char>::empty()
                    }),
                    le_bytes(
                        if q.enabled && old(self).log_file_path {
                            line as nat
                        } else {
                            0
                        },
                        4,
                    ),
                    utf16z_bytes(message@),
                ]
            },
    {
        let enabled = self.provider.is_enabled(self.level_of(level), 0);
        let mp: &str = if enabled && self.log_module_path {
            module
        } else {
            ""
        };
        let fp: &str;
        let ln: u32;
        if enabled && self.log_file_path {
            fp = file;
            ln = line;
        } else {
            fp = "";
            ln = 0;
        }
        let mut values: Vec<FieldValue> = Vec::new();
        values.push(FieldValue::Str(mp.to_owned()));
        values.push(FieldValue::Str(fp.to_owned()));
        values.push(FieldValue::U32(ln));
        values.push(FieldValue::Str(message.to_owned()));
        proof {
            reveal_strlit("");
            assert(""@.len() == 0);
            assert(""@ =~= Seq::<char>::empty());
            assert(values@.len() == 4);
            assert(in_type_of_4(values@));
        }
        let r = match level {
            LogLevel::Error => self.provider.write_event(&self.event_error, None, &values),
            LogLevel::Warn => self.provider.write_event(&self.event_warn, None, &values),
            LogLevel::Info => self.provider.write_event(&self.event_info, None, &values),
            LogLevel::Debug => self.provider.write_event(&self.event_debug, None, &values),
            LogLevel::Trace => self.provider.write_event(&self.event_trace, None, &values),
        };
        proof {
            if old(self).provider.is_enabled_spec(level_value(level), 0) {
                assert(self.provider.last_submission@ =~= seq![
                    utf16z_bytes(if old(self).provider.enabled && old(self).log_module_path {
                        module@
                    } else {
                        Seq::<char>::empty()
                    }),
                    utf16z_bytes(if old(self).provider.enabled && old(self).log_file_path {
                        file@
                    } else {
                        Seq::<char>::empty()
                    }),
                    le_bytes(
                        if old(self).provider.enabled && old(self).log_file_path {
                            line as nat
                        } else {
                            0
                        },
                        4,
                    ),
                    utf16z_bytes(message@),
                ]);
            }
        }
        r
    }

    /// The wire level of a severity.
    pub fn level_of(&self, l: LogLevel) -> (r: u8)
        ensures
            r == level_value(l),
    {
        match l {
            LogLevel::Error => 2,
            LogLevel::Warn => 3,
            LogLevel::Info => 4,
            LogLevel::Debug => 5,
            LogLevel::Trace => 5,
        }
    }

    /// Unregisters the provider; safe to call repeatedly.
    pub fn unregister(&mut self)
        ensures
            !final(self).provider.registered,
            !final(self).provider.enabled,
            old(self).wf() ==> final(self).wf(),
            final(self).log_module_path == old(self).log_module_path,
            final(self).log_file_path == old(self).log_file_path,
    {
        self.provider.unregister();
    }
}

/// The value list a log record builds: string, string, 32-bit line,
/// string.
pub open spec fn in_type_of_4(values: Seq<FieldValue>) -> bool {
    &&& values.len() == 4
    &&& values[0] is Str
    &&& values[1] is Str
    &&& values[2] is U32
    &&& values[3] is Str
}

} // verus!
