//! The byte format in which the engine frames the values it has to put on
//! the wire itself: echo packs and evidence. Every encoder has a spec-level
//! mirror, every decoder is proved to invert it.

use vstd::prelude::*;

verus! {

/// The byte at position `i` of the little-endian encoding of `x`.
pub open spec fn u64_byte(x: u64, i: int) -> u8 {
    (x >> (8 * i) as u64) as u8
}

/// The 8-byte little-endian encoding of `x`.
pub open spec fn enc_u64(x: u64) -> Seq<u8> {
    Seq::new(8, |i: int| u64_byte(x, i))
}

/// The number encoded by 8 little-endian bytes.
pub open spec fn u64_of_bytes(b: Seq<u8>) -> u64 {
    (b[0] as u64) | ((b[1] as u64) << 8) | ((b[2] as u64) << 16) | ((b[3] as u64) << 24) | ((
    b[4] as u64) << 32) | ((b[5] as u64) << 40) | ((b[6] as u64) << 48) | ((b[7] as u64) << 56)
}

/// Decoding 8 little-endian bytes undoes the encoding.
pub proof fn lemma_u64_round_trip(x: u64)
    ensures
        u64_of_bytes(enc_u64(x)) == x,
{
    let b = enc_u64(x);
    assert(((x >> 0) as u8 as u64) | (((x >> 8) as u8 as u64) << 8) | (((x >> 16) as u8 as u64)
        << 16) | (((x >> 24) as u8 as u64) << 24) | (((x >> 32) as u8 as u64) << 32) | (((x >> 40)
        as u8 as u64) << 40) | (((x >> 48) as u8 as u64) << 48) | (((x >> 56) as u8 as u64) << 56)
        == x) by (bit_vector);
    assert(b[0] == (x >> 0) as u8 && b[1] == (x >> 8) as u8 && b[2] == (x >> 16) as u8 && b[3] == (
    x >> 24) as u8 && b[4] == (x >> 32) as u8 && b[5] == (x >> 40) as u8 && b[6] == (x >> 48) as u8
        && b[7] == (x >> 56) as u8);
}

/// Appends the 8-byte little-endian encoding of `x`.
pub fn write_u64(out: &mut Vec<u8>, x: u64)
    ensures
        final(out)@ == old(out)@ + enc_u64(x),
{
    assert((x >> 0) as u8 == u64_byte(x, 0) && (x >> 8) as u8 == u64_byte(x, 1) && (x >> 16) as u8
        == u64_byte(x, 2) && (x >> 24) as u8 == u64_byte(x, 3) && (x >> 32) as u8 == u64_byte(x, 4)
        && (x >> 40) as u8 == u64_byte(x, 5) && (x >> 48) as u8 == u64_byte(x, 6) && (x >> 56)
        as u8 == u64_byte(x, 7));
    out.push((x >> 0) as u8);
    out.push((x >> 8) as u8);
    out.push((x >> 16) as u8);
    out.push((x >> 24) as u8);
    out.push((x >> 32) as u8);
    out.push((x >> 40) as u8);
    out.push((x >> 48) as u8);
    out.push((x >> 56) as u8);
    assert(out@ =~= old(out)@ + enc_u64(x));
}

/// Reads the 8-byte little-endian number at `pos`.
pub fn read_u64(bytes: &Vec<u8>, pos: usize) -> (r: Option<(u64, usize)>)
    ensures
        match r {
            Some((x, next)) => pos + 8 <= bytes@.len() && next == pos + 8 && x == u64_of_bytes(
                bytes@.subrange(pos as int, pos as int + 8),
            ),
            None => pos + 8 > bytes@.len(),
        },
{
    if bytes.len() < 8 || pos > bytes.len() - 8 {
        return None;
    }
    let x = (bytes[pos] as u64) | ((bytes[pos + 1] as u64) << 8) | ((bytes[pos + 2] as u64) << 16)
        | ((bytes[pos + 3] as u64) << 24) | ((bytes[pos + 4] as u64) << 32) | ((bytes[pos
        + 5] as u64) << 40) | ((bytes[pos + 6] as u64) << 48) | ((bytes[pos + 7] as u64) << 56);
    proof {
        let s = bytes@.subrange(pos as int, pos as int + 8);
        assert(s[0] == bytes@[pos as int] && s[1] == bytes@[pos as int + 1] && s[2]
            == bytes@[pos as int + 2] && s[3] == bytes@[pos as int + 3] && s[4]
            == bytes@[pos as int + 4] && s[5] == bytes@[pos as int + 5] && s[6]
            == bytes@[pos as int + 6] && s[7] == bytes@[pos as int + 7]);
    }
    Some((x, pos + 8))
}

/// The encoding of a byte string: an 8-byte length followed by the bytes.
pub open spec fn enc_bytes(b: Seq<u8>) -> Seq<u8> {
    enc_u64(b.len() as u64) + b
}

/// Appends the length-prefixed encoding of `b`.
pub fn write_bytes(out: &mut Vec<u8>, b: &Vec<u8>)
    ensures
        final(out)@ == old(out)@ + enc_bytes(b@),
{
    write_u64(out, b.len() as u64);
    let n = b.len();
    let mut i: usize = 0;
    while i < n
        invariant
            i <= n,
            n == b@.len(),
            out@ == old(out)@ + enc_u64(b@.len() as u64) + b@.subrange(0, i as int),
        decreases n - i,
    {
        out.push(b[i]);
        proof {
            assert(b@.subrange(0, i + 1) =~= b@.subrange(0, i as int).push(b@[i as int]));
            assert(out@ =~= old(out)@ + enc_u64(b@.len() as u64) + b@.subrange(0, i + 1));
        }
        i += 1;
    }
    proof {
        assert(b@.subrange(0, n as int) =~= b@);
        assert(out@ =~= old(out)@ + enc_bytes(b@));
    }
}

/// The byte string starting at `pos`, by the spec of the format: the length
/// prefix followed by that many bytes.
pub open spec fn dec_bytes(s: Seq<u8>, pos: int) -> Option<(Seq<u8>, int)> {
    if pos + 8 <= s.len() {
        let n = u64_of_bytes(s.subrange(pos, pos + 8)) as int;
        if pos + 8 + n <= s.len() {
            Some((s.subrange(pos + 8, pos + 8 + n), pos + 8 + n))
        } else {
            None
        }
    } else {
        None
    }
}

/// Reads the length-prefixed byte string at `pos`.
pub fn read_bytes(bytes: &Vec<u8>, pos: usize) -> (r: Option<(Vec<u8>, usize)>)
    ensures
        match r {
            Some((b, next)) => dec_bytes(bytes@, pos as int) == Some((b@, next as int)),
            None => dec_bytes(bytes@, pos as int) is None,
        },
{
    let (n64, p) = match read_u64(bytes, pos) {
        Some(v) => v,
        None => {
            return None;
        },
    };
    let blen = bytes.len();
    if n64 > usize::MAX as u64 {
        return None;
    }
    let n = n64 as usize;
    if n > blen || p > blen - n {
        return None;
    }
    let mut b: Vec<u8> = Vec::new();
    let mut i: usize = 0;
    while i < n
        invariant
            i <= n,
            p + n <= bytes@.len(),
            b@ == bytes@.subrange(p as int, p as int + i as int),
        decreases n - i,
    {
        b.push(bytes[p + i]);
        proof {
            assert(b@ =~= bytes@.subrange(p as int, p + i + 1));
        }
        i += 1;
    }
    Some((b, p + n))
}

/// Decoding a length-prefixed byte string undoes the encoding, leaving the
/// cursor right after it.
pub proof fn lemma_bytes_round_trip(s: Seq<u8>, pos: int, b: Seq<u8>)
    requires
        0 <= pos,
        pos + 8 + b.len() <= s.len(),
        b.len() < 0x1_0000_0000_0000_0000,
        s.subrange(pos, pos + 8 + b.len()) == enc_bytes(b),
    ensures
        dec_bytes(s, pos) == Some((b, pos + 8 + b.len())),
{
    lemma_u64_round_trip(b.len() as u64);
    assert(s.subrange(pos, pos + 8) =~= enc_bytes(b).subrange(0, 8));
    assert(enc_bytes(b).subrange(0, 8) =~= enc_u64(b.len() as u64));
    assert(s.subrange(pos + 8, pos + 8 + b.len()) =~= enc_bytes(b).subrange(8, 8 + b.len() as int));
    assert(enc_bytes(b).subrange(8, 8 + b.len() as int) =~= b);
}

/// The encoding of an optional byte string: a tag byte, then the string.
pub open spec fn enc_opt_bytes(o: Option<Seq<u8>>) -> Seq<u8> {
    match o {
        None => seq![0u8],
        Some(b) => seq![1u8] + enc_bytes(b),
    }
}

/// Appends the encoding of an optional byte string.
pub fn write_opt_bytes(out: &mut Vec<u8>, o: &Option<Vec<u8>>)
    ensures
        final(out)@ == old(out)@ + enc_opt_bytes(match *o {
            Some(ref b) => Some(b@),
            None => None,
        }),
{
    match o {
        None => {
            out.push(0u8);
            assert(out@ =~= old(out)@ + enc_opt_bytes(None));
        },
        Some(b) => {
            out.push(1u8);
            write_bytes(out, b);
            assert(out@ =~= old(out)@ + enc_opt_bytes(Some(b@)));
        },
    }
}

/// The optional byte string starting at `pos`, by the spec of the format.
pub open spec fn dec_opt_bytes(s: Seq<u8>, pos: int) -> Option<(Option<Seq<u8>>, int)> {
    if 0 <= pos < s.len() {
        if s[pos] == 0u8 {
            Some((None, pos + 1))
        } else if s[pos] == 1u8 {
            match dec_bytes(s, pos + 1) {
                Some((b, next)) => Some((Some(b), next)),
                None => None,
            }
        } else {
            None
        }
    } else {
        None
    }
}

/// Reads the optional byte string at `pos`.
pub fn read_opt_bytes(bytes: &Vec<u8>, pos: usize) -> (r: Option<(Option<Vec<u8>>, usize)>)
    ensures
        match r {
            Some((o, next)) => dec_opt_bytes(bytes@, pos as int) == Some(
                (
                    match o {
                        Some(ref b) => Some(b@),
                        None => None::<Seq<u8>>,
                    },
                    next as int,
                ),
            ),
            None => dec_opt_bytes(bytes@, pos as int) is None,
        },
{
    if pos >= bytes.len() {
        return None;
    }
    let tag = bytes[pos];
    if tag == 0 {
        Some((None, pos + 1))
    } else if tag == 1 {
        match read_bytes(bytes, pos + 1) {
            Some((b, next)) => Some((Some(b), next)),
            None => None,
        }
    } else {
        None
    }
}

/// Decoding an optional byte string undoes the encoding.
pub proof fn lemma_opt_bytes_round_trip(s: Seq<u8>, pos: int, o: Option<Seq<u8>>)
    requires
        0 <= pos,
        pos + enc_opt_bytes(o).len() <= s.len(),
        (match o {
            Some(b) => b.len() < 0x1_0000_0000_0000_0000,
            None => true,
        }),
        s.subrange(pos, pos + enc_opt_bytes(o).len()) == enc_opt_bytes(o),
    ensures
        dec_opt_bytes(s, pos) == Some((o, pos + enc_opt_bytes(o).len())),
{
    let e = enc_opt_bytes(o);
    assert(s[pos] == e[0]);
    match o {
        None => {},
        Some(b) => {
            assert(e[0] == 1u8);
            assert(s.subrange(pos + 1, pos + 1 + 8 + b.len()) =~= e.subrange(1, e.len() as int));
            assert(e.subrange(1, e.len() as int) =~= enc_bytes(b));
            lemma_bytes_round_trip(s, pos + 1, b);
        },
    }
}


/// The encoding of a character string: its UTF-8 bytes, length-prefixed.
pub open spec fn enc_string(s: Seq<char>) -> Seq<u8> {
    enc_bytes(vstd::utf8::encode_utf8(s))
}

/// Appends the encoding of a character string.
pub fn write_string(out: &mut Vec<u8>, s: &String)
    ensures
        final(out)@ == old(out)@ + enc_string(s@),
{
    let b = s.as_str().as_bytes_vec();
    write_bytes(out, &b);
}

/// The character string starting at `pos`, by the spec of the format.
pub open spec fn dec_string(s: Seq<u8>, pos: int) -> Option<(Seq<char>, int)> {
    match dec_bytes(s, pos) {
        None => None,
        Some((b, next)) => if vstd::utf8::valid_utf8(b) {
            Some((vstd::utf8::decode_utf8(b), next))
        } else {
            None
        },
    }
}

/// Relies on `String::from_utf8`: it returns the string with exactly the
/// given bytes when they are valid UTF-8, and an error otherwise.
pub assume_specification[ String::from_utf8 ](v: Vec<u8>) -> (r: Result<String, std::string::FromUtf8Error>)
    ensures
        vstd::utf8::valid_utf8(v@) <==> r is Ok,
        r matches Ok(s) ==> vstd::utf8::encode_utf8(s@) == v@,
;

#[verifier::external_type_specification]
#[verifier::external_body]
pub struct ExFromUtf8Error(std::string::FromUtf8Error);

/// Reads the character string at `pos`.
pub fn read_string(bytes: &Vec<u8>, pos: usize) -> (r: Option<(String, usize)>)
    ensures
        match r {
            Some((s, next)) => dec_string(bytes@, pos as int) == Some((s@, next as int)),
            None => dec_string(bytes@, pos as int) is None,
        },
{
    let (b, next) = match read_bytes(bytes, pos) {
        Some(v) => v,
        None => {
            return None;
        },
    };
    let ghost bv = b@;
    match String::from_utf8(b) {
        Ok(s) => {
            proof {
                broadcast use vstd::utf8::encode_utf8_decode_utf8;

                assert(vstd::utf8::decode_utf8(vstd::utf8::encode_utf8(s@)) == s@);
            }
            Some((s, next))
        },
        Err(_) => None,
    }
}

/// Decoding a character string undoes the encoding: where the embedded
/// bytes are the valid UTF-8 encoding of a string, that string is decoded.
pub proof fn lemma_string_round_trip(utf: Seq<u8>, s: Seq<u8>, pos: int)
    requires
        0 <= pos,
        vstd::utf8::valid_utf8(utf),
        pos + 8 + utf.len() <= s.len(),
        (utf.len() < 0x1_0000_0000_0000_0000),
        s.subrange(pos, pos + 8 + utf.len()) == enc_bytes(utf),
    ensures
        dec_string(s, pos) == Some((vstd::utf8::decode_utf8(utf), pos + 8 + utf.len())),
{
    lemma_bytes_round_trip(s, pos, utf);
}


/// Splits an embedded concatenation: where a stretch of `s` is `a + b`, its
/// two halves are `a` and `b`.
pub proof fn lemma_subrange_of_concat(s: Seq<u8>, pos: int, a: Seq<u8>, b: Seq<u8>)
    requires
        0 <= pos,
        pos + a.len() + b.len() <= s.len(),
        s.subrange(pos, pos + a.len() + b.len()) == a + b,
    ensures
        s.subrange(pos, pos + a.len()) == a,
        s.subrange(pos + a.len(), pos + a.len() + b.len()) == b,
{
    let whole = s.subrange(pos, pos + a.len() + b.len());
    assert(s.subrange(pos, pos + a.len()) =~= whole.subrange(0, a.len() as int));
    assert(whole.subrange(0, a.len() as int) =~= a);
    assert(s.subrange(pos + a.len(), pos + a.len() + b.len()) =~= whole.subrange(
        a.len() as int,
        whole.len() as int,
    ));
    assert(whole.subrange(a.len() as int, whole.len() as int) =~= b);
}

} // verus!
