//! The text form in which stored values are kept: the value's bytes are
//! zlib-compressed and written out as two lowercase hex digits per byte.
use vstd::prelude::*;

verus! {

/// What yazi's `compress` gives for `data` in the zlib format at the
/// best-size level, or nothing when it reports an error.
pub uninterp spec fn zlib_compressed(data: Seq<u8>) -> Option<Seq<u8>>;

/// What yazi's `decompress` gives for `data` in the zlib format, or nothing
/// when it reports an error.
pub uninterp spec fn zlib_decompressed(data: Seq<u8>) -> Option<Seq<u8>>;

/// Optional byte vectors as sequences.
pub open spec fn opt_bytes(o: Option<Vec<u8>>) -> Option<Seq<u8>> {
    match o {
        Some(v) => Some(v@),
        None => None,
    }
}

/// Calls `yazi::compress(data, Format::Zlib, CompressionLevel::BestSize)`.
/// The contract claims only that the outcome is the one named by
/// `zlib_compressed` for these bytes; it does not claim that compression
/// succeeds.
#[verifier::external_body]
fn compress_zlib(data: &[u8]) -> (res: Option<Vec<u8>>)
    ensures
        opt_bytes(res) == zlib_compressed(data@),
{
    match yazi::compress(data, yazi::Format::Zlib, yazi::CompressionLevel::BestSize) {
        Ok(v) => Some(v),
        Err(_) => None,
    }
}

/// Calls `yazi::decompress(data, Format::Zlib)` and keeps the bytes. The
/// contract claims that the outcome is the one named by `zlib_decompressed`,
/// and that bytes which `compress` produced decompress to the bytes it was
/// given, as the crate's documentation shows.
#[verifier::external_body]
fn decompress_zlib(data: &[u8]) -> (res: Option<Vec<u8>>)
    ensures
        opt_bytes(res) == zlib_decompressed(data@),
        forall|orig: Seq<u8>|
            #[trigger] zlib_compressed(orig) == Some(data@) ==> opt_bytes(res) == Some(orig),
{
    match yazi::decompress(data, yazi::Format::Zlib) {
        Ok((v, _)) => Some(v),
        Err(_) => None,
    }
}

/// The lowercase hex digit for `d` (below 16).
pub open spec fn hex_digit(d: u8) -> char {
    if d < 10 {
        (d + 48) as char
    } else {
        (d + 87) as char
    }
}

/// The value of a hex digit, in either case.
pub open spec fn hex_value(c: char) -> Option<u8> {
    if '0' <= c <= '9' {
        Some((c as u32 - 48) as u8)
    } else if 'a' <= c <= 'f' {
        Some((c as u32 - 87) as u8)
    } else if 'A' <= c <= 'F' {
        Some((c as u32 - 55) as u8)
    } else {
        None
    }
}

/// Two hex digits per byte, high half first.
pub open spec fn hex_encode(bytes: Seq<u8>) -> Seq<char>
    decreases bytes.len(),
{
    if bytes.len() == 0 {
        Seq::empty()
    } else {
        seq![hex_digit(bytes[0] / 16), hex_digit(bytes[0] % 16)] + hex_encode(bytes.drop_first())
    }
}

/// The bytes that pairs of hex digits stand for; nothing when the length is
/// odd or a character is not a hex digit.
pub open spec fn hex_decode(s: Seq<char>) -> Option<Seq<u8>>
    decreases s.len(),
{
    if s.len() == 0 {
        Some(Seq::empty())
    } else if s.len() == 1 {
        None
    } else {
        match (hex_value(s[0]), hex_value(s[1]), hex_decode(s.skip(2))) {
            (Some(a), Some(b), Some(r)) => Some(seq![(a * 16 + b) as u8] + r),
            _ => None,
        }
    }
}

/// Encoding a concatenation encodes the parts one after the other.
pub proof fn lemma_hex_encode_append(a: Seq<u8>, b: Seq<u8>)
    ensures
        hex_encode(a + b) == hex_encode(a) + hex_encode(b),
    decreases a.len(),
{
    if a.len() > 0 {
        assert((a + b).drop_first() =~= a.drop_first() + b);
        lemma_hex_encode_append(a.drop_first(), b);
        assert(hex_encode(a + b) =~= hex_encode(a) + hex_encode(b));
    } else {
        assert(a + b =~= b);
        assert(hex_encode(a) + hex_encode(b) =~= hex_encode(b));
    }
}

/// A digit's value is the number it was made from.
pub proof fn lemma_hex_digit_value(d: u8)
    requires
        d < 16,
    ensures
        hex_value(hex_digit(d)) == Some(d),
{
}

/// Decoding the hex text of some bytes gives the bytes back.
pub proof fn lemma_hex_round_trip(bytes: Seq<u8>)
    ensures
        hex_decode(hex_encode(bytes)) == Some(bytes),
    decreases bytes.len(),
{
    if bytes.len() > 0 {
        let b = bytes[0];
        let s = hex_encode(bytes);
        lemma_hex_digit_value(b / 16);
        lemma_hex_digit_value(b % 16);
        assert(s.skip(2) =~= hex_encode(bytes.drop_first()));
        lemma_hex_round_trip(bytes.drop_first());
        assert(((b / 16) * 16 + b % 16) as u8 == b);
        assert(seq![b] + bytes.drop_first() =~= bytes);
    } else {
        assert(hex_encode(bytes) =~= Seq::<char>::empty());
    }
}

/// The hex digit for `d`.
fn hex_digit_of(d: u8) -> (res: char)
    requires
        d < 16,
    ensures
        res == hex_digit(d),
{
    if d < 10 {
        (d + 48) as char
    } else {
        (d + 87) as char
    }
}

/// The value of the hex digit `c`.
fn hex_value_of(c: char) -> (res: Option<u8>)
    ensures
        res == hex_value(c),
{
    let v = c as u32;
    if 48 <= v && v <= 57 {
        Some((v - 48) as u8)
    } else if 97 <= v && v <= 102 {
        Some((v - 87) as u8)
    } else if 65 <= v && v <= 70 {
        Some((v - 55) as u8)
    } else {
        None
    }
}

/// Writes each byte as two lowercase hex digits.
pub fn to_hex(bytes: &[u8]) -> (res: String)
    ensures
        res@ == hex_encode(bytes@),
{
    let mut res = String::new();
    let n = bytes.len();
    let mut i: usize = 0;
    assert(bytes@.take(0) =~= Seq::<u8>::empty());
    while i < n
        invariant
            n == bytes@.len(),
            i <= n,
            res@ == hex_encode(bytes@.take(i as int)),
        decreases n - i,
    {
        let b = bytes[i];
        crate::chars::push_char(&mut res, hex_digit_of(b / 16));
        crate::chars::push_char(&mut res, hex_digit_of(b % 16));
        proof {
            assert(bytes@.take(i + 1) =~= bytes@.take(i as int) + seq![b]);
            lemma_hex_encode_append(bytes@.take(i as int), seq![b]);
            assert(seq![b].drop_first() =~= Seq::<u8>::empty());
            assert(hex_encode(Seq::<u8>::empty()) =~= Seq::<char>::empty());
            assert(hex_encode(seq![b]) =~= seq![hex_digit(b / 16), hex_digit(b % 16)]);
        }
        i = i + 1;
    }
    assert(bytes@.take(n as int) =~= bytes@);
    res
}

/// Reads pairs of hex digits back into bytes.
pub fn from_hex(s: &str) -> (res: Option<Vec<u8>>)
    ensures
        opt_bytes(res) == hex_decode(s@),
{
    let cs = crate::chars::chars_of(s);
    let n = cs.len();
    let mut out: Vec<u8> = Vec::new();
    let mut i: usize = 0;
    assert(cs@.skip(0) =~= cs@);
    while i < n
        invariant
            n == cs@.len(),
            cs@ == s@,
            i <= n,
            hex_decode(s@) == match hex_decode(cs@.skip(i as int)) {
                Some(r) => Some(out@ + r),
                None => None,
            },
        decreases n - i,
    {
        let ghost t = cs@.skip(i as int);
        if i + 1 == n {
            assert(t.len() == 1);
            return None;
        }
        assert(t[0] == cs@[i as int] && t[1] == cs@[i + 1]);
        assert(t.skip(2) =~= cs@.skip(i + 2));
        let a = match hex_value_of(cs[i]) {
            Some(a) => a,
            None => return None,
        };
        let b = match hex_value_of(cs[i + 1]) {
            Some(b) => b,
            None => return None,
        };
        let byte = (a * 16 + b) as u8;
        let ghost before = out@;
        out.push(byte);
        proof {
            match hex_decode(cs@.skip(i + 2)) {
                Some(r) => {
                    assert(out@ + r =~= before + (seq![byte] + r));
                },
                None => {},
            }
        }
        i = i + 2;
    }
    assert(cs@.skip(n as int) =~= Seq::<char>::empty());
    assert(out@ + Seq::<u8>::empty() =~= out@);
    Some(out)
}

/// The stored text of bytes: their zlib compression in hex.
pub open spec fn stored_text(bytes: Seq<u8>) -> Option<Seq<char>> {
    match zlib_compressed(bytes) {
        Some(c) => Some(hex_encode(c)),
        None => None,
    }
}

/// The bytes that stored text stands for: its hex decoded, then
/// decompressed.
pub open spec fn stored_bytes(text: Seq<char>) -> Option<Seq<u8>> {
    match hex_decode(text) {
        Some(c) => zlib_decompressed(c),
        None => None,
    }
}

/// Turns a value's serialized bytes into the text it is stored as. The
/// bytes must compress.
pub fn serde_to_string(serialized: &[u8]) -> (res: String)
    requires
        zlib_compressed(serialized@) is Some,
    ensures
        Some(res@) == stored_text(serialized@),
{
    let compressed = compress_zlib(serialized);
    match compressed {
        Some(c) => to_hex(c.as_slice()),
        None => String::new(),
    }
}

/// The stored text of a value's serialized bytes, or nothing when they do
/// not compress.
pub fn try_serde_to_string(serialized: &[u8]) -> (res: Option<String>)
    ensures
        match res {
            Some(s) => stored_text(serialized@) == Some(s@),
            None => stored_text(serialized@) is None,
        },
{
    match compress_zlib(serialized) {
        Some(_) => Some(serde_to_string(serialized)),
        None => None,
    }
}

/// Reads stored text back into the serialized bytes of a value; nothing
/// when the text is not hex or does not decompress. Text written from some
/// bytes reads back as those bytes.
pub fn try_serde_from_string(value: &str) -> (res: Option<Vec<u8>>)
    ensures
        opt_bytes(res) == stored_bytes(value@),
        forall|orig: Seq<u8>|
            #[trigger] stored_text(orig) == Some(value@) ==> opt_bytes(res) == Some(orig),
{
    proof {
        assert forall|orig: Seq<u8>| #[trigger]
            stored_text(orig) == Some(value@) implies hex_decode(value@) == zlib_compressed(
            orig,
        ) by {
            lemma_hex_round_trip(zlib_compressed(orig)->0);
        }
    }
    let bytes = match from_hex(value) {
        Some(b) => b,
        None => return None,
    };
    decompress_zlib(bytes.as_slice())
}

/// Reads stored text back into serialized bytes; the text must read back.
pub fn serde_from_string(value: &str) -> (res: Vec<u8>)
    requires
        stored_bytes(value@) is Some,
    ensures
        Some(res@) == stored_bytes(value@),
{
    match try_serde_from_string(value) {
        Some(v) => v,
        None => Vec::new(),
    }
}

} // verus!
