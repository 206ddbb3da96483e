use vstd::prelude::*;

use crate::num::{parse_i32_or, parse_i64_or, spec_parse_i32_or, spec_parse_i64_or};
use crate::split::{split_comma, split_comma_exec};

verus! {

/// One parsed row of the listing output: a snapshot of a managed emulator
/// instance.  Unparsable numeric fields fall back to field-specific
/// defaults; the name is carried over verbatim.
#[derive(Debug, PartialEq)]
pub struct LdMnq {
    pub index: i32,
    pub name: String,
    pub top_handle: i64,
    pub bind_handle: i64,
    pub is_enter_system: i32,
    pub pid: i64,
    pub vbox_pid: i64,
}

/// Mathematical image of an [`LdMnq`] record.
pub ghost struct LdMnqV {
    pub index: int,
    pub name: Seq<char>,
    pub top_handle: int,
    pub bind_handle: int,
    pub is_enter_system: int,
    pub pid: int,
    pub vbox_pid: int,
}

impl View for LdMnq {
    type V = LdMnqV;

    open spec fn view(&self) -> LdMnqV {
        LdMnqV {
            index: self.index as int,
            name: self.name@,
            top_handle: self.top_handle as int,
            bind_handle: self.bind_handle as int,
            is_enter_system: self.is_enter_system as int,
            pid: self.pid as int,
            vbox_pid: self.vbox_pid as int,
        }
    }
}

impl DeepView for LdMnq {
    type V = LdMnqV;

    open spec fn deep_view(&self) -> LdMnqV {
        self.view()
    }
}

/// The `i`-th comma-separated field of a split line, or empty text where
/// the line has fewer fields.
pub open spec fn spec_field(fields: Seq<Seq<char>>, i: int) -> Seq<char> {
    if 0 <= i < fields.len() {
        fields[i]
    } else {
        Seq::empty()
    }
}

/// The record a single listing line denotes.  Fields map positionally:
/// index, name, top handle, bind handle, running flag, process id,
/// sub-process id.  A missing numeric field parses as empty text and so
/// takes its default; a missing name is empty.
pub open spec fn spec_record(l: Seq<char>) -> LdMnqV {
    let f = split_comma(l);
    LdMnqV {
        index: spec_parse_i32_or(spec_field(f, 0), -1),
        name: spec_field(f, 1),
        top_handle: spec_parse_i64_or(spec_field(f, 2), 0),
        bind_handle: spec_parse_i64_or(spec_field(f, 3), 0),
        is_enter_system: spec_parse_i32_or(spec_field(f, 4), 0),
        pid: spec_parse_i64_or(spec_field(f, 5), -1),
        vbox_pid: spec_parse_i64_or(spec_field(f, 6), -1),
    }
}

/// Relies on `String`'s `FromIterator` implementation: collecting
/// characters builds the string holding exactly those characters.
#[verifier::external_body]
fn chars_to_string(v: &Vec<char>) -> (r: String)
    ensures
        r@ == v@,
{
    v.iter().collect()
}

fn field_i32(fields: &Vec<Vec<char>>, i: usize, d: i32) -> (r: i32)
    ensures
        r as int == spec_parse_i32_or(spec_field(fields.deep_view(), i as int), d as int),
{
    if i < fields.len() {
        proof {
            assert(fields.deep_view()[i as int] =~= fields@[i as int]@);
        }
        parse_i32_or(&fields[i], d)
    } else {
        proof {
            assert(spec_field(fields.deep_view(), i as int) =~= Seq::<char>::empty());
        }
        d
    }
}

fn field_i64(fields: &Vec<Vec<char>>, i: usize, d: i64) -> (r: i64)
    ensures
        r as int == spec_parse_i64_or(spec_field(fields.deep_view(), i as int), d as int),
{
    if i < fields.len() {
        proof {
            assert(fields.deep_view()[i as int] =~= fields@[i as int]@);
        }
        parse_i64_or(&fields[i], d)
    } else {
        proof {
            assert(spec_field(fields.deep_view(), i as int) =~= Seq::<char>::empty());
        }
        d
    }
}

/// Maps one non-empty listing line into a record, field by field.
pub fn record_of_line(line: &Vec<char>) -> (r: LdMnq)
    ensures
        r@ == spec_record(line@),
{
    let fields = split_comma_exec(line);
    let name = if 1 < fields.len() {
        proof {
            assert(fields.deep_view()[1] =~= fields@[1]@);
        }
        chars_to_string(&fields[1])
    } else {
        proof {
            assert(spec_field(fields.deep_view(), 1) =~= Seq::<char>::empty());
        }
        String::new()
    };
    LdMnq {
        index: field_i32(&fields, 0, -1),
        name,
        top_handle: field_i64(&fields, 2, 0),
        bind_handle: field_i64(&fields, 3, 0),
        is_enter_system: field_i32(&fields, 4, 0),
        pid: field_i64(&fields, 5, -1),
        vbox_pid: field_i64(&fields, 6, -1),
    }
}

} // verus!
