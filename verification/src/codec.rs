use vstd::prelude::*;

use vstd::arithmetic::div_mod::{lemma_fundamental_div_mod, lemma_multiply_divide_lt};
use vstd::slice::{slice_subrange, slice_to_vec};
use vstd::string::StrSliceExecFns;
use vstd::utf8::{decode_utf8, encode_utf8, encode_utf8_decode_utf8, encode_utf8_valid_utf8,
    valid_utf8};

use crate::model::{Announcement, AnnouncementModel, Envelope, EnvelopeKind, EnvelopeModel,
    Message, MessageModel};

verus! {

// ---------------------------------------------------------------------------
// The wire format.
//
// Both wire records (the discovery announcement and the message envelope) are
// laid out as a fixed field sequence with no self-description:
//   - an unsigned integer takes a fixed number of little-endian bytes,
//   - a string is its UTF-8 bytes preceded by their count as 8 bytes,
//   - a boolean or an optional field starts with a 0/1 tag byte,
//   - the record ends exactly at the end of the datagram or stream.
// The spec functions below are the definition of the format; the executable
// encoder and decoder are proved against them, and the decoder of an encoding
// is proved to give back the encoded record.
// ---------------------------------------------------------------------------
/// 256 to the power `n`: the number of values of `n` bytes.
pub open spec fn pow256(n: nat) -> nat
    decreases n,
{
    if n == 0 {
        1
    } else {
        256 * pow256((n - 1) as nat)
    }
}

/// The `n` little-endian bytes of `v`.
pub open spec fn le_bytes(v: nat, n: nat) -> Seq<u8>
    decreases n,
{
    if n == 0 {
        Seq::empty()
    } else {
        seq![(v % 256) as u8] + le_bytes(v / 256, (n - 1) as nat)
    }
}

/// The value read back from little-endian bytes.
pub open spec fn le_val(b: Seq<u8>) -> nat
    decreases b.len(),
{
    if b.len() == 0 {
        0nat
    } else {
        (b[0] as nat) + 256 * le_val(b.drop_first())
    }
}

pub proof fn lemma_le_bytes_len(v: nat, n: nat)
    ensures
        le_bytes(v, n).len() == n,
    decreases n,
{
    if n > 0 {
        lemma_le_bytes_len(v / 256, (n - 1) as nat);
    }
}

pub proof fn lemma_le_val_le_bytes(v: nat, n: nat)
    requires
        v < pow256(n),
    ensures
        le_val(le_bytes(v, n)) == v,
    decreases n,
{
    if n == 0 {
        assert(v == 0);
    } else {
        let tail = le_bytes(v / 256, (n - 1) as nat);
        lemma_le_bytes_len(v / 256, (n - 1) as nat);
        assert(le_bytes(v, n) == seq![(v % 256) as u8] + tail);
        assert(le_bytes(v, n).drop_first() =~= tail);
        assert(v < 256 * pow256((n - 1) as nat));
        lemma_multiply_divide_lt(v as int, 256, pow256((n - 1) as nat) as int);
        lemma_le_val_le_bytes(v / 256, (n - 1) as nat);
        assert((le_bytes(v, n)[0] as nat) == v % 256);
        lemma_fundamental_div_mod(v as int, 256);
    }
}

pub proof fn lemma_pow256_values()
    ensures
        pow256(2) == 0x10000,
        pow256(8) == 0x10000000000000000,
{
    assert(pow256(0) == 1);
    assert(pow256(1) == 256);
    assert(pow256(2) == 0x10000);
    assert(pow256(3) == 0x1000000);
    assert(pow256(4) == 0x100000000);
    assert(pow256(5) == 0x10000000000);
    assert(pow256(6) == 0x1000000000000);
    assert(pow256(7) == 0x100000000000000);
    assert(pow256(8) == 0x10000000000000000);
}

// ---------------------------------------------------------------------------
// Field codecs, as functions from a byte sequence to the decoded value and
// the bytes that follow it.
// ---------------------------------------------------------------------------
pub open spec fn dec_u64(b: Seq<u8>) -> Option<(u64, Seq<u8>)> {
    if b.len() >= 8 {
        Some(((le_val(b.take(8)) as u64), b.skip(8)))
    } else {
        None
    }
}

pub open spec fn dec_u16(b: Seq<u8>) -> Option<(u16, Seq<u8>)> {
    if b.len() >= 2 {
        Some(((le_val(b.take(2)) as u16), b.skip(2)))
    } else {
        None
    }
}

pub open spec fn enc_i64(t: i64) -> Seq<u8> {
    le_bytes((t as u64) as nat, 8)
}

pub open spec fn dec_i64(b: Seq<u8>) -> Option<(i64, Seq<u8>)> {
    match dec_u64(b) {
        Option::Some(t) => Option::Some(((t.0 as i64), t.1)),
        Option::None => Option::None,
    }
}

pub open spec fn dec_byte(b: Seq<u8>) -> Option<(u8, Seq<u8>)> {
    if b.len() >= 1 {
        Some((b[0], b.skip(1)))
    } else {
        None
    }
}

pub open spec fn enc_bool(x: bool) -> Seq<u8> {
    seq![if x { 1u8 } else { 0u8 }]
}

pub open spec fn dec_bool(b: Seq<u8>) -> Option<(bool, Seq<u8>)> {
    match dec_byte(b) {
        Option::Some(t) => {
            if t.0 == 1 {
                Option::Some((true, t.1))
            } else if t.0 == 0 {
                Option::Some((false, t.1))
            } else {
                Option::None
            }
        },
        Option::None => Option::None,
    }
}

pub open spec fn enc_bytes(d: Seq<u8>) -> Seq<u8> {
    le_bytes(d.len(), 8) + d
}

pub open spec fn dec_bytes(b: Seq<u8>) -> Option<(Seq<u8>, Seq<u8>)> {
    match dec_u64(b) {
        Option::Some(t) => {
            if t.1.len() >= t.0 {
                Option::Some((t.1.take(t.0 as int), t.1.skip(t.0 as int)))
            } else {
                Option::None
            }
        },
        Option::None => Option::None,
    }
}

pub open spec fn enc_str(s: Seq<char>) -> Seq<u8> {
    enc_bytes(encode_utf8(s))
}

pub open spec fn dec_str(b: Seq<u8>) -> Option<(Seq<char>, Seq<u8>)> {
    match dec_bytes(b) {
        Option::Some(t) => {
            if valid_utf8(t.0) {
                Option::Some((decode_utf8(t.0), t.1))
            } else {
                Option::None
            }
        },
        Option::None => Option::None,
    }
}

pub open spec fn enc_opt_str(o: Option<Seq<char>>) -> Seq<u8> {
    match o {
        Option::None => seq![0u8],
        Option::Some(s) => seq![1u8] + enc_str(s),
    }
}

pub open spec fn dec_opt_str(b: Seq<u8>) -> Option<(Option<Seq<char>>, Seq<u8>)> {
    match dec_byte(b) {
        Option::Some(t) => {
            if t.0 == 0 {
                Option::Some((Option::None, t.1))
            } else if t.0 == 1 {
                match dec_str(t.1) {
                    Option::Some(u) => Option::Some((Option::Some(u.0), u.1)),
                    Option::None => Option::None,
                }
            } else {
                Option::None
            }
        },
        Option::None => Option::None,
    }
}

/// Whether the UTF-8 form of `s` fits under the 8-byte length prefix; every
/// string held in memory does.
pub open spec fn str_len_ok(s: Seq<char>) -> bool {
    encode_utf8(s).len() < pow256(8)
}

// ---------------------------------------------------------------------------
// Round trips of the field codecs: decoding an encoding followed by anything
// gives back the value and the trailing bytes.
// ---------------------------------------------------------------------------
pub proof fn lemma_dec_u64_prefix(v: u64, rest: Seq<u8>)
    ensures
        dec_u64(le_bytes(v as nat, 8) + rest) == Some((v, rest)),
{
    let e = le_bytes(v as nat, 8);
    lemma_le_bytes_len(v as nat, 8);
    lemma_pow256_values();
    lemma_le_val_le_bytes(v as nat, 8);
    let b = e + rest;
    assert(b.take(8) =~= e);
    assert(b.skip(8) =~= rest);
}

pub proof fn lemma_dec_u16_prefix(v: u16, rest: Seq<u8>)
    ensures
        dec_u16(le_bytes(v as nat, 2) + rest) == Some((v, rest)),
{
    let e = le_bytes(v as nat, 2);
    lemma_le_bytes_len(v as nat, 2);
    lemma_pow256_values();
    lemma_le_val_le_bytes(v as nat, 2);
    let b = e + rest;
    assert(b.take(2) =~= e);
    assert(b.skip(2) =~= rest);
}

pub proof fn lemma_dec_i64_prefix(t: i64, rest: Seq<u8>)
    ensures
        dec_i64(enc_i64(t) + rest) == Some((t, rest)),
{
    lemma_dec_u64_prefix(t as u64, rest);
    assert(((t as u64) as i64) == t) by (bit_vector);
}

pub proof fn lemma_dec_bool_prefix(x: bool, rest: Seq<u8>)
    ensures
        dec_bool(enc_bool(x) + rest) == Some((x, rest)),
{
    let b = enc_bool(x) + rest;
    assert(b[0] == if x { 1u8 } else { 0u8 });
    assert(b.skip(1) =~= rest);
}

pub proof fn lemma_dec_bytes_prefix(d: Seq<u8>, rest: Seq<u8>)
    requires
        d.len() < pow256(8),
    ensures
        dec_bytes(enc_bytes(d) + rest) == Some((d, rest)),
{
    let b = enc_bytes(d) + rest;
    assert(b =~= le_bytes(d.len(), 8) + (d + rest));
    lemma_pow256_values();
    lemma_dec_u64_prefix(d.len() as u64, d + rest);
    let t = dec_u64(b).unwrap();
    assert(t.0 == d.len() as u64);
    assert(t.1 == d + rest);
    assert((d + rest).take(d.len() as int) =~= d);
    assert((d + rest).skip(d.len() as int) =~= rest);
}

pub proof fn lemma_dec_str_prefix(s: Seq<char>, rest: Seq<u8>)
    requires
        str_len_ok(s),
    ensures
        dec_str(enc_str(s) + rest) == Some((s, rest)),
{
    lemma_dec_bytes_prefix(encode_utf8(s), rest);
    encode_utf8_valid_utf8(s);
    encode_utf8_decode_utf8(s);
}

pub proof fn lemma_dec_opt_str_prefix(o: Option<Seq<char>>, rest: Seq<u8>)
    requires
        o matches Some(s) ==> str_len_ok(s),
    ensures
        dec_opt_str(enc_opt_str(o) + rest) == Some((o, rest)),
{
    match o {
        Option::None => {
            let b = enc_opt_str(o) + rest;
            assert(b[0] == 0u8);
            assert(b.skip(1) =~= rest);
        },
        Option::Some(s) => {
            let b = enc_opt_str(o) + rest;
            assert(b =~= seq![1u8] + (enc_str(s) + rest));
            assert(b[0] == 1u8);
            assert(b.skip(1) =~= enc_str(s) + rest);
            lemma_dec_str_prefix(s, rest);
        },
    }
}

// ---------------------------------------------------------------------------
// Executable encoders.
// ---------------------------------------------------------------------------
fn push_u64_le(out: &mut Vec<u8>, v: u64)
    ensures
        final(out)@ == old(out)@ + le_bytes(v as nat, 8),
{
    let b0: u8 = (v % 256) as u8;
    let r1: u64 = v / 256;
    let b1: u8 = (r1 % 256) as u8;
    let r2: u64 = r1 / 256;
    let b2: u8 = (r2 % 256) as u8;
    let r3: u64 = r2 / 256;
    let b3: u8 = (r3 % 256) as u8;
    let r4: u64 = r3 / 256;
    let b4: u8 = (r4 % 256) as u8;
    let r5: u64 = r4 / 256;
    let b5: u8 = (r5 % 256) as u8;
    let r6: u64 = r5 / 256;
    let b6: u8 = (r6 % 256) as u8;
    let r7: u64 = r6 / 256;
    let b7: u8 = (r7 % 256) as u8;
    out.push(b0);
    out.push(b1);
    out.push(b2);
    out.push(b3);
    out.push(b4);
    out.push(b5);
    out.push(b6);
    out.push(b7);
    proof {
        let n0 = v as nat;
        let n1 = n0 / 256;
        let n2 = n1 / 256;
        let n3 = n2 / 256;
        let n4 = n3 / 256;
        let n5 = n4 / 256;
        let n6 = n5 / 256;
        let n7 = n6 / 256;
        assert(le_bytes(n0, 8) == seq![(n0 % 256) as u8] + le_bytes(n1, 7));
        assert(le_bytes(n1, 7) == seq![(n1 % 256) as u8] + le_bytes(n2, 6));
        assert(le_bytes(n2, 6) == seq![(n2 % 256) as u8] + le_bytes(n3, 5));
        assert(le_bytes(n3, 5) == seq![(n3 % 256) as u8] + le_bytes(n4, 4));
        assert(le_bytes(n4, 4) == seq![(n4 % 256) as u8] + le_bytes(n5, 3));
        assert(le_bytes(n5, 3) == seq![(n5 % 256) as u8] + le_bytes(n6, 2));
        assert(le_bytes(n6, 2) == seq![(n6 % 256) as u8] + le_bytes(n7, 1));
        assert(le_bytes(n7, 1) == seq![(n7 % 256) as u8] + le_bytes(n7 / 256, 0));
        assert(le_bytes(n7 / 256, 0) == Seq::<u8>::empty());
        assert(out@ =~= old(out)@ + le_bytes(v as nat, 8));
    }
}

fn push_u16_le(out: &mut Vec<u8>, v: u16)
    ensures
        final(out)@ == old(out)@ + le_bytes(v as nat, 2),
{
    let b0: u8 = (v % 256) as u8;
    let b1: u8 = ((v / 256) % 256) as u8;
    out.push(b0);
    out.push(b1);
    proof {
        let n0 = v as nat;
        let n1 = n0 / 256;
        assert(le_bytes(n0, 2) == seq![(n0 % 256) as u8] + le_bytes(n1, 1));
        assert(le_bytes(n1, 1) == seq![(n1 % 256) as u8] + le_bytes(n1 / 256, 0));
        assert(le_bytes(n1 / 256, 0) == Seq::<u8>::empty());
        assert(out@ =~= old(out)@ + le_bytes(v as nat, 2));
    }
}

fn push_string(out: &mut Vec<u8>, s: &String)
    ensures
        final(out)@ == old(out)@ + enc_str(s@),
{
    let bv = s.as_str().as_bytes_vec();
    push_u64_le(out, bv.len() as u64);
    out.extend_from_slice(bv.as_slice());
    proof {
        assert(out@ =~= old(out)@ + enc_str(s@));
    }
}

fn push_bool(out: &mut Vec<u8>, x: bool)
    ensures
        final(out)@ == old(out)@ + enc_bool(x),
{
    if x {
        out.push(1u8);
    } else {
        out.push(0u8);
    }
    proof {
        assert(out@ =~= old(out)@ + enc_bool(x));
    }
}

fn push_opt_string(out: &mut Vec<u8>, o: &Option<String>)
    ensures
        final(out)@ == old(out)@ + enc_opt_str(crate::model::opt_string_view(*o)),
{
    match o {
        Option::None => {
            out.push(0u8);
            proof {
                assert(out@ =~= old(out)@ + enc_opt_str(crate::model::opt_string_view(*o)));
            }
        },
        Option::Some(s) => {
            out.push(1u8);
            push_string(out, s);
            proof {
                assert(out@ =~= old(out)@ + enc_opt_str(crate::model::opt_string_view(*o)));
            }
        },
    }
}

fn push_i64_le(out: &mut Vec<u8>, t: i64)
    ensures
        final(out)@ == old(out)@ + enc_i64(t),
{
    push_u64_le(out, t as u64);
}

// ---------------------------------------------------------------------------
// Executable decoders: each reads one field of `b` at `pos` and reports the
// position after it, mirroring the field codec applied to `b` from `pos` on.
// ---------------------------------------------------------------------------
fn read_u64_le(b: &Vec<u8>, pos: usize) -> (r: Option<(u64, usize)>)
    requires
        pos <= b@.len(),
    ensures
        match r {
            Option::Some(t) => {
                &&& dec_u64(b@.skip(pos as int)) == Some((t.0, b@.skip(t.1 as int)))
                &&& pos <= t.1 <= b@.len()
            },
            Option::None => dec_u64(b@.skip(pos as int)) is None,
        },
{
    if b.len() - pos < 8 {
        return Option::None;
    }
    let x0: u64 = b[pos] as u64;
    let x1: u64 = b[pos + 1] as u64;
    let x2: u64 = b[pos + 2] as u64;
    let x3: u64 = b[pos + 3] as u64;
    let x4: u64 = b[pos + 4] as u64;
    let x5: u64 = b[pos + 5] as u64;
    let x6: u64 = b[pos + 6] as u64;
    let x7: u64 = b[pos + 7] as u64;
    let v: u64 = x0 + 256 * (x1 + 256 * (x2 + 256 * (x3 + 256 * (x4 + 256 * (x5 + 256 * (x6 + 256
        * x7))))));
    proof {
        let s = b@.skip(pos as int).take(8);
        let s1 = s.drop_first();
        let s2 = s1.drop_first();
        let s3 = s2.drop_first();
        let s4 = s3.drop_first();
        let s5 = s4.drop_first();
        let s6 = s5.drop_first();
        let s7 = s6.drop_first();
        assert(s.len() == 8);
        assert(s7.drop_first().len() == 0);
        assert(le_val(s7.drop_first()) == 0);
        assert(s[0] == x0 && s1[0] == x1 && s2[0] == x2 && s3[0] == x3 && s4[0] == x4 && s5[0]
            == x5 && s6[0] == x6 && s7[0] == x7);
        assert(le_val(s7) == (s7[0] as nat) + 256 * le_val(s7.drop_first()));
        assert(le_val(s6) == (s6[0] as nat) + 256 * le_val(s7));
        assert(le_val(s5) == (s5[0] as nat) + 256 * le_val(s6));
        assert(le_val(s4) == (s4[0] as nat) + 256 * le_val(s5));
        assert(le_val(s3) == (s3[0] as nat) + 256 * le_val(s4));
        assert(le_val(s2) == (s2[0] as nat) + 256 * le_val(s3));
        assert(le_val(s1) == (s1[0] as nat) + 256 * le_val(s2));
        assert(le_val(s) == (s[0] as nat) + 256 * le_val(s1));
        assert(le_val(s) == v as nat);
        assert(b@.skip(pos as int).skip(8) =~= b@.skip(pos as int + 8));
    }
    Option::Some((v, pos + 8))
}

fn read_u16_le(b: &Vec<u8>, pos: usize) -> (r: Option<(u16, usize)>)
    requires
        pos <= b@.len(),
    ensures
        match r {
            Option::Some(t) => {
                &&& dec_u16(b@.skip(pos as int)) == Some((t.0, b@.skip(t.1 as int)))
                &&& pos <= t.1 <= b@.len()
            },
            Option::None => dec_u16(b@.skip(pos as int)) is None,
        },
{
    if b.len() - pos < 2 {
        return Option::None;
    }
    let x0: u16 = b[pos] as u16;
    let x1: u16 = b[pos + 1] as u16;
    let v: u16 = x0 + 256 * x1;
    proof {
        let s = b@.skip(pos as int).take(2);
        let s1 = s.drop_first();
        assert(s.len() == 2);
        assert(s[0] == x0 && s1[0] == x1);
        assert(le_val(s1.drop_first()) == 0);
        assert(le_val(s1) == (s1[0] as nat) + 256 * le_val(s1.drop_first()));
        assert(le_val(s) == (s[0] as nat) + 256 * le_val(s1));
        assert(le_val(s) == v as nat);
        assert(b@.skip(pos as int).skip(2) =~= b@.skip(pos as int + 2));
    }
    Option::Some((v, pos + 2))
}

fn read_i64_le(b: &Vec<u8>, pos: usize) -> (r: Option<(i64, usize)>)
    requires
        pos <= b@.len(),
    ensures
        match r {
            Option::Some(t) => {
                &&& dec_i64(b@.skip(pos as int)) == Some((t.0, b@.skip(t.1 as int)))
                &&& pos <= t.1 <= b@.len()
            },
            Option::None => dec_i64(b@.skip(pos as int)) is None,
        },
{
    match read_u64_le(b, pos) {
        Option::Some(t) => Option::Some((t.0 as i64, t.1)),
        Option::None => Option::None,
    }
}

fn read_byte(b: &Vec<u8>, pos: usize) -> (r: Option<(u8, usize)>)
    requires
        pos <= b@.len(),
    ensures
        match r {
            Option::Some(t) => {
                &&& dec_byte(b@.skip(pos as int)) == Some((t.0, b@.skip(t.1 as int)))
                &&& pos <= t.1 <= b@.len()
            },
            Option::None => dec_byte(b@.skip(pos as int)) is None,
        },
{
    if b.len() - pos < 1 {
        return Option::None;
    }
    let x = b[pos];
    proof {
        assert(b@.skip(pos as int)[0] == x);
        assert(b@.skip(pos as int).skip(1) =~= b@.skip(pos as int + 1));
    }
    Option::Some((x, pos + 1))
}

fn read_bool(b: &Vec<u8>, pos: usize) -> (r: Option<(bool, usize)>)
    requires
        pos <= b@.len(),
    ensures
        match r {
            Option::Some(t) => {
                &&& dec_bool(b@.skip(pos as int)) == Some((t.0, b@.skip(t.1 as int)))
                &&& pos <= t.1 <= b@.len()
            },
            Option::None => dec_bool(b@.skip(pos as int)) is None,
        },
{
    match read_byte(b, pos) {
        Option::Some(t) => {
            if t.0 == 1 {
                Option::Some((true, t.1))
            } else if t.0 == 0 {
                Option::Some((false, t.1))
            } else {
                Option::None
            }
        },
        Option::None => Option::None,
    }
}

/// Relies on `String::from_utf8`: it returns the string decoded from the
/// bytes exactly when they are valid UTF-8, and rejects them otherwise.
#[verifier::external_body]
fn string_from_utf8(bytes: Vec<u8>) -> (r: Option<String>)
    ensures
        r is Some <==> valid_utf8(bytes@),
        r matches Some(s) ==> s@ == decode_utf8(bytes@),
{
    match String::from_utf8(bytes) {
        Ok(s) => Some(s),
        Err(_) => None,
    }
}

fn read_string(b: &Vec<u8>, pos: usize) -> (r: Option<(String, usize)>)
    requires
        pos <= b@.len(),
    ensures
        match r {
            Option::Some(t) => {
                &&& dec_str(b@.skip(pos as int)) == Some((t.0@, b@.skip(t.1 as int)))
                &&& pos <= t.1 <= b@.len()
            },
            Option::None => dec_str(b@.skip(pos as int)) is None,
        },
{
    match read_u64_le(b, pos) {
        Option::None => Option::None,
        Option::Some((n, p)) => {
            if n > (b.len() - p) as u64 {
                return Option::None;
            }
            let n_us: usize = n as usize;
            let end: usize = p + n_us;
            let sl = slice_subrange(b.as_slice(), p, end);
            let bv = slice_to_vec(sl);
            proof {
                assert(bv@ =~= b@.skip(p as int).take(n as int));
                assert(b@.skip(p as int).skip(n as int) =~= b@.skip(end as int));
            }
            match string_from_utf8(bv) {
                Option::Some(s) => Option::Some((s, end)),
                Option::None => Option::None,
            }
        },
    }
}

fn read_opt_string(b: &Vec<u8>, pos: usize) -> (r: Option<(Option<String>, usize)>)
    requires
        pos <= b@.len(),
    ensures
        match r {
            Option::Some(t) => {
                &&& dec_opt_str(b@.skip(pos as int)) == Some(
                    (crate::model::opt_string_view(t.0), b@.skip(t.1 as int)),
                )
                &&& pos <= t.1 <= b@.len()
            },
            Option::None => dec_opt_str(b@.skip(pos as int)) is None,
        },
{
    match read_byte(b, pos) {
        Option::None => Option::None,
        Option::Some((tag, p)) => {
            if tag == 0 {
                Option::Some((Option::None, p))
            } else if tag == 1 {
                match read_string(b, p) {
                    Option::Some((s, p2)) => Option::Some((Option::Some(s), p2)),
                    Option::None => Option::None,
                }
            } else {
                Option::None
            }
        },
    }
}

// ---------------------------------------------------------------------------
// Records: the announcement and the message envelope.
// ---------------------------------------------------------------------------
pub open spec fn enc_message(m: MessageModel) -> Seq<u8> {
    enc_str(m.id) + enc_str(m.from_id) + enc_str(m.from_name) + enc_str(m.to_id) + enc_str(
        m.content,
    ) + enc_i64(m.timestamp) + enc_bool(m.is_file) + enc_opt_str(m.file_name) + enc_opt_str(
        m.file_data,
    )
}

pub open spec fn dec_message(b: Seq<u8>) -> Option<(MessageModel, Seq<u8>)> {
    match dec_str(b) {
        Option::Some((id, b1)) => match dec_str(b1) {
            Option::Some((from_id, b2)) => match dec_str(b2) {
                Option::Some((from_name, b3)) => match dec_str(b3) {
                    Option::Some((to_id, b4)) => match dec_str(b4) {
                        Option::Some((content, b5)) => match dec_i64(b5) {
                            Option::Some((timestamp, b6)) => match dec_bool(b6) {
                                Option::Some((is_file, b7)) => match dec_opt_str(b7) {
                                    Option::Some((file_name, b8)) => match dec_opt_str(b8) {
                                        Option::Some((file_data, b9)) => Option::Some(
                                            (
                                                MessageModel {
                                                    id,
                                                    from_id,
                                                    from_name,
                                                    to_id,
                                                    content,
                                                    timestamp,
                                                    is_file,
                                                    file_name,
                                                    file_data,
                                                },
                                                b9,
                                            ),
                                        ),
                                        Option::None => Option::None,
                                    },
                                    Option::None => Option::None,
                                },
                                Option::None => Option::None,
                            },
                            Option::None => Option::None,
                        },
                        Option::None => Option::None,
                    },
                    Option::None => Option::None,
                },
                Option::None => Option::None,
            },
            Option::None => Option::None,
        },
        Option::None => Option::None,
    }
}

/// Whether every string of `m` fits under the 8-byte length prefix; every
/// message held in memory does.
pub open spec fn message_len_ok(m: MessageModel) -> bool {
    &&& str_len_ok(m.id)
    &&& str_len_ok(m.from_id)
    &&& str_len_ok(m.from_name)
    &&& str_len_ok(m.to_id)
    &&& str_len_ok(m.content)
    &&& (m.file_name matches Some(s) ==> str_len_ok(s))
    &&& (m.file_data matches Some(s) ==> str_len_ok(s))
}

pub open spec fn enc_kind(k: EnvelopeKind) -> Seq<u8> {
    match k {
        EnvelopeKind::Text => seq![0u8],
        EnvelopeKind::File => seq![1u8],
    }
}

pub open spec fn dec_kind(b: Seq<u8>) -> Option<(EnvelopeKind, Seq<u8>)> {
    match dec_byte(b) {
        Option::Some(t) => {
            if t.0 == 0 {
                Option::Some((EnvelopeKind::Text, t.1))
            } else if t.0 == 1 {
                Option::Some((EnvelopeKind::File, t.1))
            } else {
                Option::None
            }
        },
        Option::None => Option::None,
    }
}

/// The byte stream an envelope is written as.
pub open spec fn spec_encode_envelope(e: EnvelopeModel) -> Seq<u8> {
    enc_kind(e.kind) + enc_message(e.payload)
}

/// The envelope a byte stream decodes to, if the whole stream is exactly one
/// well-formed envelope; anything else is rejected.
pub open spec fn spec_decode_envelope(b: Seq<u8>) -> Option<EnvelopeModel> {
    match dec_kind(b) {
        Option::Some((kind, b1)) => match dec_message(b1) {
            Option::Some((payload, b2)) => {
                if b2.len() == 0 {
                    Option::Some(EnvelopeModel { kind, payload })
                } else {
                    Option::None
                }
            },
            Option::None => Option::None,
        },
        Option::None => Option::None,
    }
}

/// The byte stream an announcement datagram is written as.
pub open spec fn spec_encode_announcement(a: AnnouncementModel) -> Seq<u8> {
    enc_str(a.id) + enc_str(a.name) + le_bytes(a.port as nat, 2)
}

/// The announcement a datagram decodes to, if the whole datagram is exactly
/// one well-formed announcement; anything else is rejected.
pub open spec fn spec_decode_announcement(b: Seq<u8>) -> Option<AnnouncementModel> {
    match dec_str(b) {
        Option::Some((id, b1)) => match dec_str(b1) {
            Option::Some((name, b2)) => match dec_u16(b2) {
                Option::Some((port, b3)) => {
                    if b3.len() == 0 {
                        Option::Some(AnnouncementModel { id, name, port })
                    } else {
                        Option::None
                    }
                },
                Option::None => Option::None,
            },
            Option::None => Option::None,
        },
        Option::None => Option::None,
    }
}

#[verifier::rlimit(50)]
pub proof fn lemma_dec_message_prefix(m: MessageModel, rest: Seq<u8>)
    requires
        message_len_ok(m),
    ensures
        dec_message(enc_message(m) + rest) == Some((m, rest)),
{
    let a1 = enc_str(m.id);
    let a2 = enc_str(m.from_id);
    let a3 = enc_str(m.from_name);
    let a4 = enc_str(m.to_id);
    let a5 = enc_str(m.content);
    let a6 = enc_i64(m.timestamp);
    let a7 = enc_bool(m.is_file);
    let a8 = enc_opt_str(m.file_name);
    let a9 = enc_opt_str(m.file_data);
    let b = enc_message(m) + rest;
    assert(b =~= a1 + (a2 + (a3 + (a4 + (a5 + (a6 + (a7 + (a8 + (a9 + rest)))))))));
    lemma_dec_str_prefix(m.id, a2 + (a3 + (a4 + (a5 + (a6 + (a7 + (a8 + (a9 + rest))))))));
    lemma_dec_str_prefix(m.from_id, a3 + (a4 + (a5 + (a6 + (a7 + (a8 + (a9 + rest)))))));
    lemma_dec_str_prefix(m.from_name, a4 + (a5 + (a6 + (a7 + (a8 + (a9 + rest))))));
    lemma_dec_str_prefix(m.to_id, a5 + (a6 + (a7 + (a8 + (a9 + rest)))));
    lemma_dec_str_prefix(m.content, a6 + (a7 + (a8 + (a9 + rest))));
    lemma_dec_i64_prefix(m.timestamp, a7 + (a8 + (a9 + rest)));
    lemma_dec_bool_prefix(m.is_file, a8 + (a9 + rest));
    lemma_dec_opt_str_prefix(m.file_name, a9 + rest);
    lemma_dec_opt_str_prefix(m.file_data, rest);
}

/// Decoding an encoded envelope gives back an identical envelope: nothing of
/// the message, including the presence of the file fields, is lost on the
/// wire.
pub proof fn lemma_envelope_round_trip(e: EnvelopeModel)
    requires
        message_len_ok(e.payload),
    ensures
        spec_decode_envelope(spec_encode_envelope(e)) == Some(e),
{
    let b = spec_encode_envelope(e);
    assert(b =~= enc_kind(e.kind) + (enc_message(e.payload) + Seq::<u8>::empty()));
    match e.kind {
        EnvelopeKind::Text => {
            assert(b[0] == 0u8);
        },
        EnvelopeKind::File => {
            assert(b[0] == 1u8);
        },
    }
    assert(b.skip(1) =~= enc_message(e.payload) + Seq::<u8>::empty());
    lemma_dec_message_prefix(e.payload, Seq::<u8>::empty());
}

/// Decoding an encoded announcement gives back an identical announcement.
pub proof fn lemma_announcement_round_trip(a: AnnouncementModel)
    requires
        str_len_ok(a.id),
        str_len_ok(a.name),
    ensures
        spec_decode_announcement(spec_encode_announcement(a)) == Some(a),
{
    let b = spec_encode_announcement(a);
    let a2 = enc_str(a.name);
    let a3 = le_bytes(a.port as nat, 2);
    assert(b =~= enc_str(a.id) + (a2 + (a3 + Seq::<u8>::empty())));
    lemma_dec_str_prefix(a.id, a2 + (a3 + Seq::<u8>::empty()));
    lemma_dec_str_prefix(a.name, a3 + Seq::<u8>::empty());
    lemma_dec_u16_prefix(a.port, Seq::<u8>::empty());
    assert(a3 + Seq::<u8>::empty() =~= le_bytes(a.port as nat, 2) + Seq::<u8>::empty());
}

// ---------------------------------------------------------------------------
// Executable record encoders and decoders.
// ---------------------------------------------------------------------------
fn push_message(out: &mut Vec<u8>, m: &Message)
    ensures
        final(out)@ == old(out)@ + enc_message(m@),
{
    push_string(out, &m.id);
    push_string(out, &m.from_id);
    push_string(out, &m.from_name);
    push_string(out, &m.to_id);
    push_string(out, &m.content);
    push_i64_le(out, m.timestamp);
    push_bool(out, m.is_file);
    push_opt_string(out, &m.file_name);
    push_opt_string(out, &m.file_data);
    proof {
        assert(out@ =~= old(out)@ + enc_message(m@));
    }
}

/// Encode `e` as the byte stream written over a message connection.
pub fn encode_envelope(e: &Envelope) -> (r: Vec<u8>)
    ensures
        r@ == spec_encode_envelope(e@),
{
    let mut out: Vec<u8> = Vec::new();
    match e.kind {
        EnvelopeKind::Text => out.push(0u8),
        EnvelopeKind::File => out.push(1u8),
    }
    push_message(&mut out, &e.payload);
    proof {
        assert(out@ =~= spec_encode_envelope(e@));
    }
    out
}

fn read_message(b: &Vec<u8>, pos: usize) -> (r: Option<(Message, usize)>)
    requires
        pos <= b@.len(),
    ensures
        match r {
            Option::Some(t) => {
                &&& dec_message(b@.skip(pos as int)) == Some((t.0@, b@.skip(t.1 as int)))
                &&& pos <= t.1 <= b@.len()
            },
            Option::None => dec_message(b@.skip(pos as int)) is None,
        },
{
    let (id, p1) = match read_string(b, pos) {
        Option::Some(t) => t,
        Option::None => { return Option::None },
    };
    let (from_id, p2) = match read_string(b, p1) {
        Option::Some(t) => t,
        Option::None => { return Option::None },
    };
    let (from_name, p3) = match read_string(b, p2) {
        Option::Some(t) => t,
        Option::None => { return Option::None },
    };
    let (to_id, p4) = match read_string(b, p3) {
        Option::Some(t) => t,
        Option::None => { return Option::None },
    };
    let (content, p5) = match read_string(b, p4) {
        Option::Some(t) => t,
        Option::None => { return Option::None },
    };
    let (timestamp, p6) = match read_i64_le(b, p5) {
        Option::Some(t) => t,
        Option::None => { return Option::None },
    };
    let (is_file, p7) = match read_bool(b, p6) {
        Option::Some(t) => t,
        Option::None => { return Option::None },
    };
    let (file_name, p8) = match read_opt_string(b, p7) {
        Option::Some(t) => t,
        Option::None => { return Option::None },
    };
    let (file_data, p9) = match read_opt_string(b, p8) {
        Option::Some(t) => t,
        Option::None => { return Option::None },
    };
    let m = Message { id, from_id, from_name, to_id, content, timestamp, is_file, file_name,
        file_data };
    Option::Some((m, p9))
}

/// Decode the byte stream read from a message connection; anything that is
/// not exactly one well-formed envelope gives `None`.
pub fn decode_envelope(b: &Vec<u8>) -> (r: Option<Envelope>)
    ensures
        match r {
            Option::Some(e) => spec_decode_envelope(b@) == Some(e@),
            Option::None => spec_decode_envelope(b@) is None,
        },
{
    proof {
        assert(b@.skip(0) =~= b@);
    }
    let (tag, p1) = match read_byte(b, 0) {
        Option::Some(t) => t,
        Option::None => { return Option::None },
    };
    let kind = if tag == 0 {
        EnvelopeKind::Text
    } else if tag == 1 {
        EnvelopeKind::File
    } else {
        return Option::None;
    };
    let (payload, p2) = match read_message(b, p1) {
        Option::Some(t) => t,
        Option::None => { return Option::None },
    };
    if p2 != b.len() {
        return Option::None;
    }
    Option::Some(Envelope { kind, payload })
}

/// Encode `a` as the bytes of an announcement datagram.
pub fn encode_announcement(a: &Announcement) -> (r: Vec<u8>)
    ensures
        r@ == spec_encode_announcement(a@),
{
    let mut out: Vec<u8> = Vec::new();
    push_string(&mut out, &a.id);
    push_string(&mut out, &a.name);
    push_u16_le(&mut out, a.port);
    proof {
        assert(out@ =~= spec_encode_announcement(a@));
    }
    out
}

/// Decode the bytes of a received datagram; anything that is not exactly one
/// well-formed announcement gives `None`.
pub fn decode_announcement(b: &Vec<u8>) -> (r: Option<Announcement>)
    ensures
        match r {
            Option::Some(a) => spec_decode_announcement(b@) == Some(a@),
            Option::None => spec_decode_announcement(b@) is None,
        },
{
    proof {
        assert(b@.skip(0) =~= b@);
    }
    let (id, p1) = match read_string(b, 0) {
        Option::Some(t) => t,
        Option::None => { return Option::None },
    };
    let (name, p2) = match read_string(b, p1) {
        Option::Some(t) => t,
        Option::None => { return Option::None },
    };
    let (port, p3) = match read_u16_le(b, p2) {
        Option::Some(t) => t,
        Option::None => { return Option::None },
    };
    if p3 != b.len() {
        return Option::None;
    }
    Option::Some(Announcement { id, name, port })
}

} // verus!
