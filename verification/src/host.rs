//! Finding the destination: the first `Host` field and the host it names.

use vstd::prelude::*;
use vstd::slice::slice_subrange;
use vstd::string::StringExecFns;
use vstd::utf8::{decode_utf8, valid_utf8};
use crate::bytes::{find_byte, lemma_position, position, COLON};
use crate::error::Error;
use crate::scanner::{
    lemma_delimiters, lemma_scan_extends, scan_at, slice_of, HeaderScanner, Scan, ScanModel,
};
use crate::text::{as_text, lemma_text_prefix};

verus! {

/// An ASCII capital as its small letter; any other byte as itself.
pub open spec fn lower(b: u8) -> u8 {
    if 0x41 <= b <= 0x5a {
        (b + 0x20) as u8
    } else {
        b
    }
}

/// The name is `host`, in small or capital letters or any mix of them.
pub open spec fn is_host_name(name: Seq<u8>) -> bool {
    &&& name.len() == 4
    &&& lower(name[0]) == 0x68
    &&& lower(name[1]) == 0x6f
    &&& lower(name[2]) == 0x73
    &&& lower(name[3]) == 0x74
}

/// The value of a `Host` field without its port: all that stands in front
/// of the first colon, or the whole value where it holds no colon.
pub open spec fn strip_port(value: Seq<u8>) -> Seq<u8> {
    match position(value, 0, COLON) {
        Some(i) => value.take(i),
        None => value,
    }
}

/// The mathematical result of a search for the `Host` field.
pub enum HostModel {
    /// The field was found: the bytes of the host, and where the field ends.
    Found { host: Seq<u8>, end: int },
    /// The buffer ends before a `Host` field does; `cursor` is where the
    /// fields in front of it end.
    NeedMoreData { cursor: int },
    /// The field at `cursor` is malformed.
    Error { error: Error, cursor: int },
}

/// What a search of `s` from `cursor` gives: the first field from there on
/// whose name is `host` decides, unless the buffer ends or a field is
/// malformed before it.
pub open spec fn host_from(s: Seq<u8>, cursor: int) -> HostModel
    decreases s.len() - cursor,
    when 0 <= cursor <= s.len()
{
    match scan_at(s, cursor) {
        ScanModel::NeedMoreData => HostModel::NeedMoreData { cursor },
        ScanModel::Error(error) => HostModel::Error { error, cursor },
        ScanModel::Field { name, value, end } => {
            if is_host_name(slice_of(s, name)) {
                HostModel::Found { host: strip_port(slice_of(s, value)), end }
            } else {
                proof {
                    lemma_delimiters(s, cursor);
                }
                host_from(s, end)
            }
        },
    }
}

/// A search fails on fields that are not text, and on nothing else; the
/// host it finds is text; and where it stops lies inside the buffer, at or
/// behind where it began.
pub proof fn lemma_host_from(s: Seq<u8>, cursor: int)
    requires
        0 <= cursor <= s.len(),
    ensures
        host_from(s, cursor) matches HostModel::Error { error, .. } ==> error == Error::NonText,
        match host_from(s, cursor) {
            HostModel::Found { host, end } => cursor < end <= s.len() && valid_utf8(host),
            HostModel::NeedMoreData { cursor: reached } => cursor <= reached <= s.len(),
            HostModel::Error { cursor: reached, .. } => cursor <= reached <= s.len(),
        },
    decreases s.len() - cursor,
{
    lemma_delimiters(s, cursor);
    if let ScanModel::Field { name, value, end } = scan_at(s, cursor) {
        if is_host_name(slice_of(s, name)) {
            lemma_host_part_is_text(slice_of(s, value));
        } else {
            lemma_host_from(s, end);
        }
    }
}

/// The host of a value that is text is text.
pub proof fn lemma_host_part_is_text(value: Seq<u8>)
    requires
        valid_utf8(value),
    ensures
        valid_utf8(strip_port(value)),
{
    lemma_position(value, 0, COLON);
    match position(value, 0, COLON) {
        Some(i) => lemma_text_prefix(value, i),
        None => {},
    }
}

/// The search does not depend on how the stream was cut into reads: what
/// was decided on the bytes read so far stands when more are read, and a
/// search that needed more data goes on from where it stopped as if it
/// had begun anew.
pub proof fn lemma_search_resumes(s: Seq<u8>, t: Seq<u8>, cursor: int)
    requires
        0 <= cursor <= s.len(),
    ensures
        match host_from(s, cursor) {
            HostModel::NeedMoreData { cursor: reached } => host_from(s + t, cursor) == host_from(
                s + t,
                reached,
            ),
            decided => host_from(s + t, cursor) == decided,
        },
    decreases s.len() - cursor,
{
    lemma_delimiters(s, cursor);
    match scan_at(s, cursor) {
        ScanModel::NeedMoreData => {},
        ScanModel::Error(_) => {
            lemma_scan_extends(s, t, cursor);
        },
        ScanModel::Field { name, value, end } => {
            lemma_scan_extends(s, t, cursor);
            assert(slice_of(s + t, name) =~= slice_of(s, name));
            assert(slice_of(s + t, value) =~= slice_of(s, value));
            if !is_host_name(slice_of(s, name)) {
                lemma_search_resumes(s, t, end);
            }
        },
    }
}

/// What a search for the `Host` field gave.
#[derive(Clone, Debug, PartialEq, Eq)]
pub enum HostScan {
    /// The host that the client asks for, without a port. The cursor stands
    /// behind the `Host` field.
    Found(String),
    /// No `Host` field yet. The cursor stands behind the last whole field.
    NeedMoreData,
    /// A field is malformed. The cursor stands in front of it.
    Error(Error),
}

/// Whether a field name is `host`, whatever the case of its letters.
pub fn is_host(name: &[u8]) -> (r: bool)
    ensures
        r == is_host_name(name@),
{
    name.len() == 4 && to_lower(name[0]) == 0x68 && to_lower(name[1]) == 0x6f && to_lower(name[2])
        == 0x73 && to_lower(name[3]) == 0x74
}

/// An ASCII capital as its small letter; any other byte as itself.
pub fn to_lower(b: u8) -> (r: u8)
    ensures
        r == lower(b),
{
    if 0x41 <= b && b <= 0x5a {
        b + 0x20
    } else {
        b
    }
}

/// The host in the value of a `Host` field: the value up to its first colon.
pub fn host_part(value: &[u8]) -> (r: &[u8])
    ensures
        r@ == strip_port(value@),
{
    match find_byte(value, 0, COLON) {
        Some(i) => slice_subrange(value, 0, i),
        None => value,
    }
}

/// Scans field by field until a `Host` field is found, and stops there.
///
/// The fields that were passed stay in the buffer, in front of the cursor.
pub fn find_host(scanner: &mut HeaderScanner) -> (r: HostScan)
    requires
        old(scanner).wf(),
    ensures
        final(scanner).wf(),
        final(scanner).buffer() == old(scanner).buffer(),
        old(scanner).cursor() <= final(scanner).cursor(),
        match r {
            HostScan::Found(host) => {
                &&& host_from(old(scanner).buffer(), old(scanner).cursor()) matches HostModel::Found {
                    host: bytes,
                    end,
                }
                &&& valid_utf8(bytes)
                &&& host@ == decode_utf8(bytes)
                &&& final(scanner).cursor() == end
            },
            HostScan::NeedMoreData => host_from(old(scanner).buffer(), old(scanner).cursor())
                == (HostModel::NeedMoreData { cursor: final(scanner).cursor() }),
            HostScan::Error(error) => host_from(old(scanner).buffer(), old(scanner).cursor())
                == (HostModel::Error { error, cursor: final(scanner).cursor() }),
        },
{
    loop
        invariant
            scanner.wf(),
            scanner.buffer() == old(scanner).buffer(),
            old(scanner).cursor() <= scanner.cursor(),
            host_from(old(scanner).buffer(), old(scanner).cursor()) == host_from(
                scanner.buffer(),
                scanner.cursor(),
            ),
        decreases scanner.buffer().len() - scanner.cursor(),
    {
        let ghost before = scanner.cursor();
        match scanner.next_field() {
            Scan::NeedMoreData => {
                return HostScan::NeedMoreData;
            },
            Scan::Error(error) => {
                return HostScan::Error(error);
            },
            Scan::Field(field) => {
                if is_host(scanner.bytes(field.name)) {
                    let value = scanner.bytes(field.value);
                    let bytes = host_part(value);
                    proof {
                        lemma_host_part_is_text(value@);
                    }
                    return HostScan::Found(String::from_str(as_text(bytes).unwrap()));
                }
                assert(before < scanner.cursor());
            },
        }
    }
}

} // verus!
