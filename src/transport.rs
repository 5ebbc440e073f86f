use vstd::prelude::*;
use vstd::utf8::{decode_utf8, valid_utf8};

use crate::error::VaultError;
use crate::text::chars_of;

verus! {

/// What one read of the serial port gave.
#[derive(Debug, Clone, Copy, PartialEq, Eq, Structural)]
pub enum ReadEvent {
    /// This many bytes arrived.
    Data(usize),
    /// The read returned no bytes.
    Empty,
    /// The read timed out.
    TimedOut,
    /// Any other I/O error.
    Failed,
}

/// What the reader does next.
#[derive(Debug, Clone, Copy, PartialEq, Eq, Structural)]
pub enum ReadStep {
    /// Read again.
    Again,
    /// The line or the run of bytes is complete.
    Done,
    /// Give up with a transport error.
    Fail,
}

/// One step of reading a line a byte at a time: `byte` is the byte that a
/// `Data(1)` read delivered. A newline ends the line and is not kept; empty
/// reads and timeouts are retried; other errors end the read.
pub fn line_step(line: &mut Vec<u8>, event: ReadEvent, byte: u8) -> (r: ReadStep)
    ensures
        event == ReadEvent::Data(1) && byte != 10 ==> r == ReadStep::Again && final(line)@ == old(line)@.push(byte),
        event == ReadEvent::Data(1) && byte == 10 ==> r == ReadStep::Done && final(line)@ == old(line)@,
        (event == ReadEvent::Empty || event == ReadEvent::TimedOut || (event matches ReadEvent::Data(n) && n == 0))
            ==> r == ReadStep::Again && final(line)@ == old(line)@,
        (event == ReadEvent::Failed || (event matches ReadEvent::Data(n) && n > 1)) ==> r == ReadStep::Fail
            && final(line)@ == old(line)@,
{
    match event {
        ReadEvent::Data(n) => {
            if n == 0 {
                ReadStep::Again
            } else if n > 1 {
                ReadStep::Fail
            } else if byte == 10 {
                ReadStep::Done
            } else {
                line.push(byte);
                ReadStep::Again
            }
        },
        ReadEvent::Empty => ReadStep::Again,
        ReadEvent::TimedOut => ReadStep::Again,
        ReadEvent::Failed => ReadStep::Fail,
    }
}

/// One step of reading exactly `want` bytes, `filled` of which have arrived:
/// short reads accumulate, empty reads and timeouts are retried, other
/// errors end the read.
pub fn exact_step(filled: &mut usize, want: usize, event: ReadEvent) -> (r: ReadStep)
    requires
        *old(filled) <= want,
    ensures
        *final(filled) <= want,
        match event {
            ReadEvent::Data(n) => if n <= want - *old(filled) {
                &&& *final(filled) == *old(filled) + n
                &&& r != ReadStep::Fail
                &&& (r == ReadStep::Done <==> *final(filled) == want)
            } else {
                r == ReadStep::Fail && *final(filled) == *old(filled)
            },
            ReadEvent::Failed => r == ReadStep::Fail && *final(filled) == *old(filled),
            _ => {
                &&& *final(filled) == *old(filled)
                &&& r != ReadStep::Fail
                &&& (r == ReadStep::Done <==> *old(filled) == want)
            },
        },
{
    match event {
        ReadEvent::Data(n) => {
            if n > want - *filled {
                return ReadStep::Fail;
            }
            *filled = *filled + n;
        },
        ReadEvent::Empty => {},
        ReadEvent::TimedOut => {},
        ReadEvent::Failed => {
            return ReadStep::Fail;
        },
    }
    if *filled == want {
        ReadStep::Done
    } else {
        ReadStep::Again
    }
}

/// Relies on `String::from_utf8`: the text that the bytes encode, or an error
/// when they are not UTF-8.
#[verifier::external_body]
fn utf8_string(bytes: Vec<u8>) -> (r: Option<String>)
    ensures
        r is Some <==> valid_utf8(bytes@),
        r matches Some(s) ==> s@ == decode_utf8(bytes@),
{
    String::from_utf8(bytes).ok()
}

/// The text of a line read from the device; bytes that are not UTF-8 are a
/// protocol error.
pub fn line_text(bytes: Vec<u8>) -> (r: Result<String, VaultError>)
    ensures
        r is Ok <==> valid_utf8(bytes@),
        r matches Ok(s) ==> s@ == decode_utf8(bytes@),
        r matches Err(e) ==> e == VaultError::Protocol,
{
    match utf8_string(bytes) {
        Some(s) => Ok(s),
        None => Err(VaultError::Protocol),
    }
}

pub open spec fn contains_at(s: Seq<char>, p: Seq<char>, i: int) -> bool {
    0 <= i && i + p.len() <= s.len() && s.subrange(i, i + p.len()) == p
}

pub open spec fn contains(s: Seq<char>, p: Seq<char>) -> bool {
    exists|i: int| contains_at(s, p, i)
}

/// A port that the device may sit behind: a USB CDC-ACM or USB serial adapter.
pub open spec fn is_device_port(name: Seq<char>) -> bool {
    contains(name, "ttyACM"@) || contains(name, "ttyUSB"@)
}

fn has_substring(s: &Vec<char>, p: &Vec<char>) -> (r: bool)
    ensures
        r == contains(s@, p@),
{
    if p.len() > s.len() {
        assert forall|i: int| !contains_at(s@, p@, i) by {}
        return false;
    }
    let n = s.len();
    let m = p.len();
    let mut i: usize = 0;
    while i <= n - m
        invariant
            n == s@.len(),
            m == p@.len(),
            p@.len() <= s@.len(),
            i <= s@.len() - p@.len() + 1,
            forall|k: int| 0 <= k < i ==> !contains_at(s@, p@, k),
        decreases s@.len() - i,
    {
        let mut j: usize = 0;
        let mut same = true;
        while j < m
            invariant
                n == s@.len(),
                m == p@.len(),
                i + p@.len() <= s@.len(),
                j <= p@.len(),
                same == (forall|k: int| 0 <= k < j ==> s@[i + k] == p@[k]),
            decreases p@.len() - j,
        {
            if s[i + j] != p[j] {
                same = false;
            }
            j += 1;
        }
        if same {
            assert(s@.subrange(i as int, i + p@.len()) =~= p@);
            assert(contains_at(s@, p@, i as int));
            return true;
        }
        assert(!contains_at(s@, p@, i as int)) by {
            if contains_at(s@, p@, i as int) {
                assert forall|k: int| 0 <= k < p@.len() implies s@[i + k] == p@[k] by {
                    assert(s@.subrange(i as int, i + p@.len())[k] == s@[i + k]);
                }
            }
        }
        i += 1;
    }
    assert forall|k: int| !contains_at(s@, p@, k) by {
        if k >= i {
            assert(k + p@.len() > s@.len());
        }
    }
    false
}

/// The first port whose name marks a USB serial device.
pub fn select_port(names: &Vec<String>) -> (r: Option<usize>)
    ensures
        r matches Some(i) ==> i < names@.len() && is_device_port(names@[i as int]@) && forall|k: int|
            0 <= k < i ==> !is_device_port(#[trigger] names@[k]@),
        r is None ==> forall|k: int| 0 <= k < names@.len() ==> !is_device_port(#[trigger] names@[k]@),
{
    let acm = chars_of("ttyACM");
    let usb = chars_of("ttyUSB");
    let mut i: usize = 0;
    while i < names.len()
        invariant
            acm@ == "ttyACM"@,
            usb@ == "ttyUSB"@,
            i <= names@.len(),
            forall|k: int| 0 <= k < i ==> !is_device_port(#[trigger] names@[k]@),
        decreases names@.len() - i,
    {
        let cs = chars_of(names[i].as_str());
        if has_substring(&cs, &acm) || has_substring(&cs, &usb) {
            return Some(i);
        }
        i += 1;
    }
    None
}

} // verus!
