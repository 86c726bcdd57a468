//! Attribute handles, and the grammar by which an object path names one.
//!
//! The daemon publishes every GATT attribute under a path whose last segment
//! is a tag followed by four hexadecimal digits, such as `service000a`,
//! `char000c` or `desc000e`. The digits are the attribute's handle; the tag
//! says what kind of attribute it is.

use vstd::prelude::*;
use crate::text::{chars_of, spells};
use crate::types::Error;

verus! {

/// The kind of attribute a handle belongs to.
#[derive(Clone, Copy, Debug, PartialEq, Eq, Structural, Hash)]
pub enum AttributeType {
    Service,
    Characteristic,
    Descriptor,
    Unknown,
}

/// A numeric attribute handle with the kind of its attribute.
#[derive(Clone, Copy, Debug, PartialEq, Eq, Structural, Hash)]
pub struct Handle {
    pub typ: AttributeType,
    pub handle: u16,
}

/// The position at which the last segment of `path` begins: just behind its
/// last `/`, or 0 where it has none.
pub open spec fn segment_start(path: Seq<char>) -> int
    decreases path.len(),
{
    if path.len() == 0 {
        0
    } else if path.last() == '/' {
        path.len() as int
    } else {
        segment_start(path.drop_last())
    }
}

/// The value of one hexadecimal digit, in either case.
pub open spec fn hex_value(c: char) -> Option<int> {
    if '0' <= c <= '9' {
        Some(c as int - '0' as int)
    } else if 'a' <= c <= 'f' {
        Some(c as int - 'a' as int + 10)
    } else if 'A' <= c <= 'F' {
        Some(c as int - 'A' as int + 10)
    } else {
        None
    }
}

/// The kind that a segment's tag names.
pub open spec fn kind_of_tag(tag: Seq<char>) -> AttributeType {
    if tag == "service"@ {
        AttributeType::Service
    } else if tag == "char"@ {
        AttributeType::Characteristic
    } else if tag == "desc"@ {
        AttributeType::Descriptor
    } else {
        AttributeType::Unknown
    }
}

/// The handle that `path` names, if it names one: its last segment ends in
/// four hexadecimal digits, which are the handle's value with the most
/// significant digit first, and what stands before them in that segment is
/// the tag.
pub open spec fn parse_path(path: Seq<char>) -> Option<Handle> {
    let start = segment_start(path);
    let n = path.len() as int;
    if n - start < 4 {
        None
    } else {
        match (
            hex_value(path[n - 4]),
            hex_value(path[n - 3]),
            hex_value(path[n - 2]),
            hex_value(path[n - 1]),
        ) {
            (Some(d3), Some(d2), Some(d1), Some(d0)) => Some(
                Handle {
                    typ: kind_of_tag(path.subrange(start, n - 4)),
                    handle: (d3 * 4096 + d2 * 256 + d1 * 16 + d0) as u16,
                },
            ),
            _ => None,
        }
    }
}

/// A position just behind a `/`, or the start of the path, with no `/` from
/// there on is where the last segment begins.
proof fn lemma_segment_start_is(path: Seq<char>, start: int)
    requires
        0 <= start <= path.len(),
        start > 0 ==> path[start - 1] == '/',
        forall|i: int| start <= i < path.len() ==> #[trigger] path[i] != '/',
    ensures
        segment_start(path) == start,
    decreases path.len(),
{
    if path.len() > 0 && path.last() != '/' {
        let front = path.drop_last();
        assert forall|i: int| start <= i < front.len() implies #[trigger] front[i] != '/' by {
            assert(front[i] == path[i]);
        }
        lemma_segment_start_is(front, start);
    }
}

/// The value of the hexadecimal digit `c`.
fn hex_digit(c: char) -> (d: Option<u16>)
    ensures
        match d {
            Some(v) => hex_value(c) == Some(v as int) && v < 16,
            None => hex_value(c) is None,
        },
{
    let n: u32 = c as u32;
    if 0x30 <= n && n <= 0x39 {
        Some((n - 0x30) as u16)
    } else if 0x61 <= n && n <= 0x66 {
        Some((n - 0x61 + 10) as u16)
    } else if 0x41 <= n && n <= 0x46 {
        Some((n - 0x41 + 10) as u16)
    } else {
        None
    }
}

/// The kind that the tag from `from` up to `to` names.
fn tag_kind(chars: &Vec<char>, from: usize, to: usize) -> (kind: AttributeType)
    requires
        from <= to <= chars.len(),
    ensures
        kind == kind_of_tag(chars@.subrange(from as int, to as int)),
{
    if spells(chars, from, to, "service") {
        AttributeType::Service
    } else if spells(chars, from, to, "char") {
        AttributeType::Characteristic
    } else if spells(chars, from, to, "desc") {
        AttributeType::Descriptor
    } else {
        AttributeType::Unknown
    }
}

/// Where the last segment of `chars` begins.
fn last_segment_start(chars: &Vec<char>) -> (start: usize)
    ensures
        start == segment_start(chars@),
        start <= chars.len(),
{
    let mut start: usize = chars.len();
    while start > 0 && chars[start - 1] != '/'
        invariant
            start <= chars.len(),
            forall|i: int| start <= i < chars.len() ==> chars@[i] != '/',
        decreases start,
    {
        start -= 1;
    }
    proof {
        lemma_segment_start_is(chars@, start as int);
    }
    start
}

impl Handle {
    /// Reads the handle that `path` names.
    pub fn parse(path: &str) -> (r: Result<Handle, Error>)
        ensures
            match r {
                Ok(h) => parse_path(path@) == Some(h),
                Err(e) => parse_path(path@) is None && e@ == crate::types::ErrorView::InvalidPath,
            },
    {
        let chars = chars_of(path);
        let n: usize = chars.len();
        let start: usize = last_segment_start(&chars);
        if n - start < 4 {
            return Err(Error::InvalidPath);
        }
        let d3 = hex_digit(chars[n - 4]);
        let d2 = hex_digit(chars[n - 3]);
        let d1 = hex_digit(chars[n - 2]);
        let d0 = hex_digit(chars[n - 1]);
        match (d3, d2, d1, d0) {
            (Some(a), Some(b), Some(c), Some(d)) => {
                let typ = tag_kind(&chars, start, n - 4);
                let handle: u16 = a * 4096 + b * 256 + c * 16 + d;
                Ok(Handle { typ, handle })
            },
            _ => Err(Error::InvalidPath),
        }
    }
}

} // verus!
