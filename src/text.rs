use vstd::prelude::*;
use vstd::string::*;
use vstd::utf8::*;
use crate::bytes::{append_bytes, copy_range};
use crate::error::ProtoError;
use crate::varint::{varint_bytes, varint_decode, varint_prefix, varint_read, varint_write};

verus! {

/// The text that lossy UTF-8 decoding gives for `b`.
pub uninterp spec fn lossy_text(b: Seq<u8>) -> Seq<char>;

/// Relies on `String::from_utf8_lossy`: decodes `b` as UTF-8, replacing each
/// invalid sequence with U+FFFD; valid UTF-8 comes back decoded unchanged.
#[verifier::external_body]
fn utf8_lossy(b: &[u8]) -> (r: String)
    ensures
        r@ == lossy_text(b@),
        valid_utf8(b@) ==> r@ == decode_utf8(b@),
{
    String::from_utf8_lossy(b).into_owned()
}

/// Relies on `String::push`: appends one character.
#[verifier::external_body]
pub(crate) fn push_char(s: &mut String, c: char)
    ensures
        final(s)@ == old(s)@.push(c),
{
    s.push(c)
}

/// The text of `b` as this codec reads it: decoded when it is valid UTF-8,
/// decoded lossily otherwise.
pub open spec fn text_of(b: Seq<u8>) -> Seq<char> {
    if valid_utf8(b) {
        decode_utf8(b)
    } else {
        lossy_text(b)
    }
}

/// `s` without its NUL characters.
pub open spec fn strip_nul(s: Seq<char>) -> Seq<char>
    decreases s.len(),
{
    if s.len() == 0 {
        s
    } else if s.last() == '\0' {
        strip_nul(s.drop_last())
    } else {
        strip_nul(s.drop_last()).push(s.last())
    }
}

/// The wire form of a string: its UTF-8 byte length as a VarInt, then the
/// bytes.
pub open spec fn string_bytes(s: Seq<char>) -> Seq<u8> {
    varint_bytes(encode_utf8(s).len() as i32) + encode_utf8(s)
}

/// The bytes of the length-prefixed string field at the start of `s`, and
/// the number of bytes the field takes.
pub open spec fn string_field(s: Seq<u8>) -> Result<(Seq<u8>, i32), ProtoError> {
    match varint_decode(s) {
        None => Err(ProtoError::FramingError),
        Some((size, n)) => if size < 0 {
            Err(ProtoError::ProtocolViolation)
        } else if n + size > s.len() || n + size > i32::MAX {
            Err(ProtoError::ProtocolViolation)
        } else {
            Ok((s.subrange(n as int, n + size), (n + size) as i32))
        },
    }
}

/// What reading a string field at the start of `s` gives: its text without
/// NUL characters, and the number of bytes the field takes.
pub open spec fn read_string_view(s: Seq<u8>) -> Result<(Seq<char>, i32), ProtoError> {
    match string_field(s) {
        Ok((b, n)) => Ok((strip_nul(text_of(b)), n)),
        Err(e) => Err(e),
    }
}

/// Removes every NUL character from `s`.
pub fn strip_nulls(s: &String) -> (r: String)
    ensures
        r@ == strip_nul(s@),
{
    let t = s.as_str();
    let len = t.unicode_len();
    let mut out = String::new();
    let mut i: usize = 0;
    while i < len
        invariant
            len == t@.len(),
            t@ == s@,
            i <= len,
            out@ == strip_nul(s@.subrange(0, i as int)),
        decreases len - i,
    {
        let c = t.get_char(i);
        proof {
            let p = s@.subrange(0, i + 1);
            assert(p.drop_last() =~= s@.subrange(0, i as int));
            assert(p.last() == c);
        }
        if c != '\0' {
            push_char(&mut out, c);
        }
        i = i + 1;
    }
    proof {
        assert(s@.subrange(0, len as int) =~= s@);
    }
    out
}

/// Reads the string field at the start of `data`: a VarInt byte length,
/// then that many bytes decoded as UTF-8 (invalid sequences replaced), with
/// NUL characters removed. Gives the text and the number of bytes read.
pub fn read_string(data: &Vec<u8>) -> (r: Result<(String, i32), ProtoError>)
    ensures
        match read_string_view(data@) {
            Ok((text, n)) => r matches Ok((v, m)) && v@ == text && m == n,
            Err(e) => r == Err::<(String, i32), ProtoError>(e),
        },
{
    let (size, n) = match varint_read(data) {
        Ok(p) => p,
        Err(e) => return Err(e),
    };
    if size < 0 {
        return Err(ProtoError::ProtocolViolation);
    }
    if size as usize > data.len() - n || size as usize > (i32::MAX as usize) - n {
        return Err(ProtoError::ProtocolViolation);
    }
    let end: usize = n + size as usize;
    let field = copy_range(data, n, end);
    let decoded = utf8_lossy(field.as_slice());
    let text = strip_nulls(&decoded);
    Ok((text, end as i32))
}

/// Writes `data` as a string field: its UTF-8 byte length as a VarInt,
/// then its bytes.
pub fn write_string(data: String) -> (r: Vec<u8>)
    requires
        encode_utf8(data@).len() <= i32::MAX,
    ensures
        r@ == string_bytes(data@),
{
    let b = data.as_str().as_bytes();
    let mut buff = varint_write(b.len() as i32);
    append_bytes(&mut buff, b);
    buff
}

/// String round trip: reading back a written string without NUL
/// characters gives the string and the full length of the field. This
/// holds for every string of up to 32767 characters, which takes at most
/// four times as many bytes.
pub proof fn string_round_trip(s: Seq<char>)
    requires
        encode_utf8(s).len() <= 0x7fff_0000,
        !s.contains('\0'),
    ensures
        read_string_view(string_bytes(s)) == Ok::<(Seq<char>, i32), ProtoError>(
            (s, string_bytes(s).len() as i32),
        ),
{
    let b = encode_utf8(s);
    let len = b.len() as i32;
    varint_prefix(len, b);
    crate::varint::varint_length_bounds(len);
    let w = string_bytes(s);
    let n = varint_bytes(len).len();
    assert(w.subrange(n as int, n + len) =~= b);
    encode_utf8_valid_utf8(s);
    encode_utf8_decode_utf8(s);
    lemma_strip_nul_absent(s);
}

proof fn lemma_strip_nul_absent(s: Seq<char>)
    requires
        !s.contains('\0'),
    ensures
        strip_nul(s) == s,
    decreases s.len(),
{
    if s.len() > 0 {
        let t = s.drop_last();
        assert(!t.contains('\0')) by {
            if t.contains('\0') {
                let j = choose|j: int| 0 <= j < t.len() && t[j] == '\0';
                assert(s[j] == '\0');
            }
        }
        lemma_strip_nul_absent(t);
        assert(s[s.len() - 1] != '\0');
        assert(t.push(s.last()) =~= s);
    }
}

/// A text of `n` characters takes at most `4 * n` bytes of UTF-8.
pub proof fn lemma_utf8_len(s: Seq<char>)
    ensures
        encode_utf8(s).len() <= 4 * s.len(),
    decreases s.len(),
{
    if s.len() > 0 {
        lemma_utf8_len(s.drop_first());
    }
}

} // verus!
