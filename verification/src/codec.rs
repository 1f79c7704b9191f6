use vstd::prelude::*;
use vstd::string::StringExecFns;

use std::rc::Rc;
use crate::chunk::{Chunk, ChunkM, SourceSpan, cmodel, opt_str_view};
use crate::instruction::{Capture, Instruction, InstrM, imodel};
use crate::value::{AsyncValue, Closure, TaskId, Value, ValueM, vmodel, models_of, fmodels_of};

verus! {

broadcast use vstd::std_specs::vec::group_vec_axioms;

/// A failure while reading a serialized chunk.
#[derive(Debug, Clone, PartialEq)]
pub enum CodecError {
    /// The input does not begin with the format's magic bytes.
    InvalidMagic,
    /// The input's version byte is not one this reader understands.
    UnsupportedVersion(u8),
    /// The input ended before the structure it promises.
    Truncated,
    /// The input is long enough but structurally wrong.
    Malformed,
}

/// The serialized form's five-byte prefix: the magic bytes `F`, `Z`,
/// `B`, `0x01`, then the version byte.
pub open spec fn header_ok(bytes: Seq<u8>) -> bool {
    bytes.len() >= 5 && bytes[0] == 70 && bytes[1] == 90 && bytes[2] == 66
        && bytes[3] == 1 && bytes[4] == 1
}

/// Whether the first four bytes are the format's magic bytes.
pub open spec fn magic_ok(bytes: Seq<u8>) -> bool {
    bytes.len() >= 4 && bytes[0] == 70 && bytes[1] == 90 && bytes[2] == 66
        && bytes[3] == 1
}


/// The k-th power of 256.
pub open spec fn pow256(k: int) -> int
    decreases k,
{
    if k <= 0 {
        1
    } else {
        256 * pow256(k - 1)
    }
}

pub proof fn lemma_pow256_pos(k: int)
    ensures
        pow256(k) >= 1,
    decreases k,
{
    if k > 0 {
        lemma_pow256_pos(k - 1);
    }
}

pub proof fn lemma_pow256_mono(a: int, b: int)
    requires
        a <= b,
    ensures
        pow256(a) <= pow256(b),
    decreases b,
{
    if b > a && b > 0 {
        lemma_pow256_mono(a, b - 1);
        lemma_pow256_pos(b - 1);
    }
}

/// The eight little-endian bytes of a `u64`.
pub open spec fn enc_u64(n: u64) -> Seq<u8> {
    Seq::new(8, |i: int| ((n as int / pow256(i)) % 256) as u8)
}

/// The `u64` bit pattern of an `i64`, as two's complement.
pub open spec fn i64_bits(n: i64) -> u64 {
    ((n as int) % 0x1_0000_0000_0000_0000) as u64
}

/// A length-prefixed UTF-8 string: eight length bytes, then the
/// string's UTF-8 encoding.
pub open spec fn enc_string(s: Seq<char>) -> Seq<u8> {
    enc_u64(vstd::utf8::encode_utf8(s).len() as u64) + vstd::utf8::encode_utf8(s)
}

/// An optional string: a presence byte, then the string if present.
pub open spec fn enc_opt_string(o: Option<Seq<char>>) -> Seq<u8> {
    match o {
        Some(s) => seq![1u8] + enc_string(s),
        None => seq![0u8],
    }
}

/// One closure capture: its kind byte and its slot.
pub open spec fn enc_capture(c: Capture) -> Seq<u8> {
    match c {
        Capture::Local(s) => seq![0u8, s],
        Capture::FromEnclosing(s) => seq![1u8, s],
    }
}

/// Each capture of a list, in order.
pub open spec fn enc_captures(s: Seq<Capture>) -> Seq<u8>
    decreases s.len(),
{
    if s.len() == 0 {
        Seq::<u8>::empty()
    } else {
        enc_captures(s.drop_last()) + enc_capture(s.last())
    }
}

/// One instruction: its tag byte and its operands.
pub open spec fn enc_instr(i: InstrM) -> Seq<u8> {
    match i {
        InstrM::LoadConst(k) => seq![0u8] + enc_u64(k as u64),
        InstrM::LoadLocal(k) => seq![1u8, k],
        InstrM::StoreLocal(k) => seq![2u8, k],
        InstrM::Pop => seq![3u8],
        InstrM::Dup => seq![4u8],
        InstrM::Nil => seq![5u8],
        InstrM::Cons => seq![6u8],
        InstrM::MakeTuple(n) => seq![7u8, n],
        InstrM::MakeVariant { tag, ctor, arity } => seq![8u8] + enc_string(tag)
            + enc_string(ctor) + seq![arity],
        InstrM::MakeClosure { chunk_const, captures } => seq![9u8]
            + enc_u64(chunk_const as u64) + enc_u64(captures.len() as u64)
            + enc_captures(captures),
        InstrM::LoadUpvalue(k) => seq![10u8, k],
        InstrM::Add => seq![11u8],
        InstrM::Sub => seq![12u8],
        InstrM::Mul => seq![13u8],
        InstrM::Div => seq![14u8],
        InstrM::Mod => seq![15u8],
        InstrM::Neg => seq![16u8],
        InstrM::Eq => seq![17u8],
        InstrM::Neq => seq![18u8],
        InstrM::Lt => seq![19u8],
        InstrM::Lte => seq![20u8],
        InstrM::Gt => seq![21u8],
        InstrM::Gte => seq![22u8],
        InstrM::And => seq![23u8],
        InstrM::Or => seq![24u8],
        InstrM::Not => seq![25u8],
        InstrM::Jump(o) => seq![26u8] + enc_u64(o as u16 as u64),
        InstrM::JumpIfFalse(o) => seq![27u8] + enc_u64(o as u16 as u64),
        InstrM::JumpIfTrue(o) => seq![28u8] + enc_u64(o as u16 as u64),
        InstrM::Call(n) => seq![29u8, n],
        InstrM::TestVariant { ctor } => seq![30u8] + enc_string(ctor),
        InstrM::GetVariantField(k) => seq![31u8, k],
        InstrM::MatchFail => seq![32u8],
        InstrM::Return => seq![33u8],
    }
}

/// Each instruction of a list, in order.
pub open spec fn enc_instrs(s: Seq<InstrM>) -> Seq<u8>
    decreases s.len(),
{
    if s.len() == 0 {
        Seq::<u8>::empty()
    } else {
        enc_instrs(s.drop_last()) + enc_instr(s.last())
    }
}

/// One value: its tag byte and its payload, recursively.
pub open spec fn enc_value(m: ValueM) -> Seq<u8>
    decreases m, 0int,
{
    match m {
        ValueM::Int(n) => seq![0u8] + enc_u64(i64_bits(n)),
        ValueM::Float(b) => seq![1u8] + enc_u64(b),
        ValueM::Bool(b) => seq![2u8, if b { 1u8 } else { 0u8 }],
        ValueM::Str(s) => seq![3u8] + enc_string(s),
        ValueM::Unit => seq![4u8],
        ValueM::Nil => seq![5u8],
        ValueM::Cons(h, t) => seq![6u8] + enc_value(*h) + enc_value(*t),
        ValueM::Tuple(xs) => seq![7u8] + enc_u64(xs.len() as u64) + enc_values(xs),
        ValueM::Record(xs) => seq![8u8] + enc_fields(xs),
        ValueM::Variant { tag, ctor, fields } => seq![9u8] + enc_string(tag)
            + enc_string(ctor) + enc_u64(fields.len() as u64) + enc_values(fields),
        ValueM::Table(xs) => seq![10u8] + enc_fields(xs),
        ValueM::Closure(c) => seq![11u8] + enc_chunk_body(c.chunk)
            + enc_u64(c.arity as u64) + enc_u64(c.upvalues.len() as u64)
            + enc_usizes(c.upvalues),
        ValueM::NativeFn { name, arity, args } => seq![12u8] + enc_string(name)
            + enc_u64(arity as u64) + enc_u64(args.len() as u64) + enc_values(args),
        ValueM::AsyncTask(id) => seq![13u8] + enc_u64(id),
        ValueM::AsyncValue(v) => seq![14u8] + enc_value(*v),
    }
}

/// Each value of a list, in order.
pub open spec fn enc_values(s: Seq<ValueM>) -> Seq<u8>
    decreases s, 0int,
{
    if s.len() == 0 {
        Seq::<u8>::empty()
    } else {
        enc_values(s.drop_last()) + enc_value(s.last())
    }
}

/// A name/value pair list: its count, then each name and value.
pub open spec fn enc_fields(s: Seq<(Seq<char>, ValueM)>) -> Seq<u8>
    decreases s, 1int,
{
    enc_u64(s.len() as u64) + enc_pairs(s)
}

/// Each name/value pair of a list, in order.
pub open spec fn enc_pairs(s: Seq<(Seq<char>, ValueM)>) -> Seq<u8>
    decreases s, 0int,
{
    if s.len() == 0 {
        Seq::<u8>::empty()
    } else {
        enc_pairs(s.drop_last()) + enc_string(s.last().0) + enc_value(s.last().1)
    }
}

/// Each index of a list, as eight bytes, in order.
pub open spec fn enc_usizes(s: Seq<usize>) -> Seq<u8>
    decreases s.len(),
{
    if s.len() == 0 {
        Seq::<u8>::empty()
    } else {
        enc_usizes(s.drop_last()) + enc_u64(s.last() as u64)
    }
}

/// One source span: its four fields as eight bytes each.
pub open spec fn enc_span(sp: SourceSpan) -> Seq<u8> {
    enc_u64(sp.line as u64) + enc_u64(sp.column as u64) + enc_u64(sp.offset as u64)
        + enc_u64(sp.length as u64)
}

/// Each span of a list, in order.
pub open spec fn enc_spans(s: Seq<SourceSpan>) -> Seq<u8>
    decreases s.len(),
{
    if s.len() == 0 {
        Seq::<u8>::empty()
    } else {
        enc_spans(s.drop_last()) + enc_span(s.last())
    }
}

/// A chunk body: counted instructions, constants and spans, then the
/// three optional metadata strings.
pub open spec fn enc_chunk_body(c: ChunkM) -> Seq<u8>
    decreases c, 0int,
{
    enc_u64(c.instructions.len() as u64) + enc_instrs(c.instructions)
        + enc_u64(c.constants.len() as u64) + enc_values(c.constants)
        + enc_u64(c.spans.len() as u64) + enc_spans(c.spans)
        + enc_opt_string(c.name) + enc_opt_string(c.source)
        + enc_opt_string(c.source_file)
}


pub proof fn lemma_enc_captures_take(s: Seq<Capture>, k: int)
    requires
        0 <= k < s.len(),
    ensures
        enc_captures(s.take(k + 1)) == enc_captures(s.take(k)) + enc_capture(s[k]),
{
    assert(s.take(k + 1).drop_last() =~= s.take(k));
    assert(s.take(k + 1).last() == s[k]);
}

pub proof fn lemma_enc_instrs_take(s: Seq<InstrM>, k: int)
    requires
        0 <= k < s.len(),
    ensures
        enc_instrs(s.take(k + 1)) == enc_instrs(s.take(k)) + enc_instr(s[k]),
{
    assert(s.take(k + 1).drop_last() =~= s.take(k));
    assert(s.take(k + 1).last() == s[k]);
}

pub proof fn lemma_enc_values_take(s: Seq<ValueM>, k: int)
    requires
        0 <= k < s.len(),
    ensures
        enc_values(s.take(k + 1)) == enc_values(s.take(k)) + enc_value(s[k]),
{
    assert(s.take(k + 1).drop_last() =~= s.take(k));
    assert(s.take(k + 1).last() == s[k]);
}

pub proof fn lemma_enc_pairs_take(s: Seq<(Seq<char>, ValueM)>, k: int)
    requires
        0 <= k < s.len(),
    ensures
        enc_pairs(s.take(k + 1)) == enc_pairs(s.take(k)) + enc_string(s[k].0)
            + enc_value(s[k].1),
{
    assert(s.take(k + 1).drop_last() =~= s.take(k));
    assert(s.take(k + 1).last() == s[k]);
}

pub proof fn lemma_enc_usizes_take(s: Seq<usize>, k: int)
    requires
        0 <= k < s.len(),
    ensures
        enc_usizes(s.take(k + 1)) == enc_usizes(s.take(k)) + enc_u64(s[k] as u64),
{
    assert(s.take(k + 1).drop_last() =~= s.take(k));
    assert(s.take(k + 1).last() == s[k]);
}

pub proof fn lemma_enc_spans_take(s: Seq<SourceSpan>, k: int)
    requires
        0 <= k < s.len(),
    ensures
        enc_spans(s.take(k + 1)) == enc_spans(s.take(k)) + enc_span(s[k]),
{
    assert(s.take(k + 1).drop_last() =~= s.take(k));
    assert(s.take(k + 1).last() == s[k]);
}

pub proof fn lemma_enc_values_push(s: Seq<ValueM>, v: ValueM)
    ensures
        enc_values(s.push(v)) == enc_values(s) + enc_value(v),
{
    assert(s.push(v).drop_last() =~= s);
    assert(s.push(v).last() == v);
}

pub proof fn lemma_enc_pairs_push(s: Seq<(Seq<char>, ValueM)>, p: (Seq<char>, ValueM))
    ensures
        enc_pairs(s.push(p)) == enc_pairs(s) + enc_string(p.0) + enc_value(p.1),
{
    assert(s.push(p).drop_last() =~= s);
    assert(s.push(p).last() == p);
}

pub proof fn lemma_enc_usizes_push(s: Seq<usize>, v: usize)
    ensures
        enc_usizes(s.push(v)) == enc_usizes(s) + enc_u64(v as u64),
{
    assert(s.push(v).drop_last() =~= s);
    assert(s.push(v).last() == v);
}

pub proof fn lemma_enc_spans_push(s: Seq<SourceSpan>, v: SourceSpan)
    ensures
        enc_spans(s.push(v)) == enc_spans(s) + enc_span(v),
{
    assert(s.push(v).drop_last() =~= s);
    assert(s.push(v).last() == v);
}

pub proof fn lemma_enc_instrs_push(s: Seq<InstrM>, v: InstrM)
    ensures
        enc_instrs(s.push(v)) == enc_instrs(s) + enc_instr(v),
{
    assert(s.push(v).drop_last() =~= s);
    assert(s.push(v).last() == v);
}

/// Append a `u64` as eight little-endian bytes.
fn put_u64(out: &mut Vec<u8>, n: u64)
    ensures
        final(out)@.len() == old(out)@.len() + 8,
        final(out)@ == old(out)@ + enc_u64(n),
{
    let mut k: usize = 0;
    let mut rest = n;
    while k < 8
        invariant
            k <= 8,
            out@ == old(out)@ + enc_u64(n).take(k as int),
            rest as int == n as int / pow256(k as int),
        decreases 8 - k,
    {
        proof {
            lemma_pow256_pos(k as int);
            assert(enc_u64(n).take(k as int + 1) =~= enc_u64(n).take(
                k as int,
            ).push(enc_u64(n)[k as int]));
        }
        let b = (rest % 256) as u8;
        proof {
            assert(b == enc_u64(n)[k as int]);
        }
        let ghost pre = out@;
        out.push(b);
        proof {
            assert(out@ =~= pre.push(b));
            assert(pre.push(b) =~= old(out)@ + enc_u64(n).take(k as int + 1));
            vstd::arithmetic::div_mod::lemma_div_denominator(
                n as int,
                pow256(k as int),
                256,
            );
            assert(pow256(k as int) * 256 == pow256(k as int + 1));
        }
        rest = rest / 256;
        k = k + 1;
    }
    proof {
        assert(enc_u64(n).take(8) =~= enc_u64(n));
    }
}

/// Read eight little-endian bytes as a `u64`; the bytes read are
/// exactly the value's encoding.
fn get_u64(bytes: &[u8], pos: usize) -> (r: Result<(u64, usize), CodecError>)
    ensures
        r matches Ok(p) ==> p.1 == pos + 8 && pos + 8 <= bytes@.len()
            && bytes@.subrange(pos as int, pos as int + 8) == enc_u64(p.0),
        r is Err ==> pos + 8 > bytes@.len(),
{
    let blen = bytes.len();
    if blen < 8 || pos > blen - 8 {
        return Err(CodecError::Truncated);
    }
    let mut n: u64 = 0;
    let mut k: usize = 8;
    while k > 0
        invariant
            k <= 8,
            blen == bytes@.len(),
            pos + 8 <= blen,
            (n as int) < pow256(8 - k),
            forall|j: int| k <= j < 8 ==> (n as int / pow256(j - k)) % 256
                == (#[trigger] bytes@[pos + j]) as int,
        decreases k,
    {
        proof {
            lemma_pow256_pos(8 - k);
        }
        k = k - 1;
        let b = bytes[pos + k];
        let ghost n0 = n as int;
        proof {
            assert(n0 * 256 + b < 256 * pow256(7 - k)) by {
                assert(n0 <= pow256(7 - k) - 1);
                assert(n0 * 256 <= (pow256(7 - k) - 1) * 256) by (nonlinear_arith)
                    requires n0 <= pow256(7 - k) - 1, pow256(7 - k) >= 1;
            }
        }
        proof {
            lemma_pow256_mono(8 - k, 8);
            reveal_with_fuel(pow256, 9);
            assert(pow256(8) == 0x1_0000_0000_0000_0000);
        }
        n = n * 256 + (b as u64);
        proof {
            vstd::arithmetic::div_mod::lemma_fundamental_div_mod_converse(
                n as int,
                256,
                n0,
                b as int,
            );
            assert forall|j: int| k <= j < 8 implies (n as int / pow256(j - k)) % 256
                == (#[trigger] bytes@[pos + j]) as int by {
                if j > k {
                    lemma_pow256_pos(j - k - 1);
                    vstd::arithmetic::div_mod::lemma_div_denominator(
                        n as int,
                        256,
                        pow256(j - k - 1),
                    );
                    assert(256 * pow256(j - k - 1) == pow256(j - k));
                    assert(n as int / pow256(j - k) == n0 / pow256(j - k - 1));
                } else {
                    assert(pow256(0) == 1);
                    assert(n as int % 256 == b as int);
                }
            }
        }
    }
    proof {
        assert forall|j: int| 0 <= j < 8 implies bytes@.subrange(
            pos as int,
            pos as int + 8,
        )[j] == enc_u64(n)[j] by {
            assert(bytes@.subrange(pos as int, pos as int + 8)[j]
                == bytes@[pos + j]);
            assert((n as int / pow256(j)) % 256 == bytes@[pos + j] as int);
        }
        assert(bytes@.subrange(pos as int, pos as int + 8) =~= enc_u64(n));
    }
    Ok((n, pos + 8))
}

/// Append a string: its byte length, then its UTF-8 bytes.
fn put_string(out: &mut Vec<u8>, s: &str)
    ensures
        final(out)@.len() >= old(out)@.len() + 8,
        final(out)@ == old(out)@ + enc_string(s@),
{
    let bytes = s.as_bytes_vec();
    put_u64(out, bytes.len() as u64);
    let mut k: usize = 0;
    while k < bytes.len()
        invariant
            k <= bytes@.len(),
            bytes@ == vstd::utf8::encode_utf8(s@),
            out@ == old(out)@ + enc_u64(bytes@.len() as u64) + bytes@.take(k as int),
        decreases bytes@.len() - k,
    {
        proof {
            assert(bytes@.take(k as int + 1) =~= bytes@.take(k as int).push(
                bytes@[k as int],
            ));
        }
        out.push(bytes[k]);
        k = k + 1;
    }
    proof {
        assert(bytes@.take(bytes@.len() as int) =~= bytes@);
        assert(old(out)@ + enc_u64(bytes@.len() as u64) + bytes@ =~= old(out)@
            + enc_string(s@));
    }
}

/// Relies on `String::from_utf8`: it succeeds exactly on valid UTF-8
/// and returns the string those bytes encode.
#[verifier::external_body]
fn string_from_utf8(v: Vec<u8>) -> (r: Option<String>)
    ensures
        r matches Some(s) ==> vstd::utf8::encode_utf8(s@) == v@,
        r is None ==> !vstd::utf8::valid_utf8(v@),
{
    match String::from_utf8(v) {
        Ok(s) => Some(s),
        Err(_) => None,
    }
}

/// Read a length-prefixed string.
fn get_string(bytes: &[u8], pos: usize) -> (r: Result<(String, usize), CodecError>)
    ensures
        r matches Ok(p) ==> p.1 > pos && p.1 <= bytes@.len()
            && bytes@.subrange(pos as int, p.1 as int) == enc_string(p.0@),
    decreases bytes@.len() - pos, 0int,
{
    let blen = bytes.len();
    let (len, p) = get_u64(bytes, pos)?;
    if len > blen as u64 || p as u64 > blen as u64 - len {
        return Err(CodecError::Truncated);
    }
    let len = len as usize;
    let ghost len64 = len as u64;
    let mut buf: Vec<u8> = Vec::new();
    let mut k: usize = 0;
    while k < len
        invariant
            k <= len,
            blen == bytes@.len(),
            p + len <= blen,
            buf@ == bytes@.subrange(p as int, p as int + k),
        decreases len - k,
    {
        proof {
            assert(bytes@.subrange(p as int, p as int + k + 1)
                =~= bytes@.subrange(p as int, p as int + k).push(bytes@[p + k]));
        }
        buf.push(bytes[p + k]);
        k = k + 1;
    }
    let ghost bufv = buf@;
    match string_from_utf8(buf) {
        Some(s) => {
            proof {
                assert(vstd::utf8::encode_utf8(s@) == bufv);
                assert(bufv.len() == len);
                assert(bytes@.subrange(pos as int, (p + len) as int)
                    =~= bytes@.subrange(pos as int, p as int)
                        + bytes@.subrange(p as int, (p + len) as int));
                assert(bytes@.subrange(pos as int, (p + len) as int)
                    =~= enc_string(s@));
            }
            Ok((s, p + len))
        },
        None => Err(CodecError::Malformed),
    }
}

/// Append an optional string: a presence byte, then the string.
fn put_opt_string(out: &mut Vec<u8>, s: &Option<String>)
    ensures
        final(out)@ == old(out)@ + enc_opt_string(opt_str_view(*s)),
{
    match s {
        Some(s) => {
            out.push(1);
            put_string(out, s.as_str());
            proof {
                assert(old(out)@.push(1u8) + enc_string(s@) =~= old(out)@
                    + (seq![1u8] + enc_string(s@)));
            }
        },
        None => {
            out.push(0);
            proof {
                assert(old(out)@.push(0u8) =~= old(out)@ + seq![0u8]);
            }
        },
    }
}

/// Read an optional string.
fn get_opt_string(bytes: &[u8], pos: usize) -> (r: Result<
    (Option<String>, usize),
    CodecError,
>)
    ensures
        r matches Ok(p) ==> p.1 > pos && p.1 <= bytes@.len()
            && bytes@.subrange(pos as int, p.1 as int)
                == enc_opt_string(opt_str_view(p.0)),
    decreases bytes@.len() - pos, 1int,
{
    if pos >= bytes.len() {
        return Err(CodecError::Truncated);
    }
    let tag = bytes[pos];
    if tag == 0 {
        proof {
            assert(bytes@.subrange(pos as int, pos as int + 1) =~= seq![0u8]);
        }
        return Ok((None, pos + 1));
    }
    if tag != 1 {
        return Err(CodecError::Malformed);
    }
    let (s, p) = get_string(bytes, pos + 1)?;
    proof {
        assert(bytes@.subrange(pos as int, p as int) =~= seq![1u8]
            + bytes@.subrange(pos as int + 1, p as int));
    }
    Ok((Some(s), p))
}

/// Append one instruction: a tag byte and its operands.
fn put_instruction(out: &mut Vec<u8>, i: &Instruction)
    ensures
        final(out)@ == old(out)@ + enc_instr(imodel(*i)),
{
    match i {
        Instruction::LoadConst(k) => {
            out.push(0);
            put_u64(out, *k as u64);
        },
        Instruction::LoadLocal(k) => {
            out.push(1);
            out.push(*k);
        },
        Instruction::StoreLocal(k) => {
            out.push(2);
            out.push(*k);
        },
        Instruction::Pop => out.push(3),
        Instruction::Dup => out.push(4),
        Instruction::Nil => out.push(5),
        Instruction::Cons => out.push(6),
        Instruction::MakeTuple(n) => {
            out.push(7);
            out.push(*n);
        },
        Instruction::MakeVariant { tag, ctor, arity } => {
            out.push(8);
            put_string(out, tag.as_str());
            put_string(out, ctor.as_str());
            out.push(*arity);
        },
        Instruction::MakeClosure { chunk_const, captures } => {
            out.push(9);
            put_u64(out, *chunk_const as u64);
            put_u64(out, captures.len() as u64);
            let mut k: usize = 0;
            while k < captures.len()
                invariant
                    k <= captures@.len(),
                    out@ == old(out)@ + seq![9u8] + enc_u64(*chunk_const as u64)
                        + enc_u64(captures@.len() as u64)
                        + enc_captures(captures@.take(k as int)),
                decreases captures@.len() - k,
            {
                proof {
                    lemma_enc_captures_take(captures@, k as int);
                }
                match &captures[k] {
                    Capture::Local(s) => {
                        out.push(0);
                        out.push(*s);
                    },
                    Capture::FromEnclosing(s) => {
                        out.push(1);
                        out.push(*s);
                    },
                }
                k = k + 1;
            }
            proof {
                assert(captures@.take(captures@.len() as int) =~= captures@);
            }
        },
        Instruction::LoadUpvalue(k) => {
            out.push(10);
            out.push(*k);
        },
        Instruction::Add => out.push(11),
        Instruction::Sub => out.push(12),
        Instruction::Mul => out.push(13),
        Instruction::Div => out.push(14),
        Instruction::Mod => out.push(15),
        Instruction::Neg => out.push(16),
        Instruction::Eq => out.push(17),
        Instruction::Neq => out.push(18),
        Instruction::Lt => out.push(19),
        Instruction::Lte => out.push(20),
        Instruction::Gt => out.push(21),
        Instruction::Gte => out.push(22),
        Instruction::And => out.push(23),
        Instruction::Or => out.push(24),
        Instruction::Not => out.push(25),
        Instruction::Jump(o) => {
            out.push(26);
            put_u64(out, *o as u16 as u64);
        },
        Instruction::JumpIfFalse(o) => {
            out.push(27);
            put_u64(out, *o as u16 as u64);
        },
        Instruction::JumpIfTrue(o) => {
            out.push(28);
            put_u64(out, *o as u16 as u64);
        },
        Instruction::Call(n) => {
            out.push(29);
            out.push(*n);
        },
        Instruction::TestVariant { ctor } => {
            out.push(30);
            put_string(out, ctor.as_str());
        },
        Instruction::GetVariantField(k) => {
            out.push(31);
            out.push(*k);
        },
        Instruction::MatchFail => out.push(32),
        Instruction::Return => out.push(33),
    }
}

/// Read one byte.
fn get_u8(bytes: &[u8], pos: usize) -> (r: Result<(u8, usize), CodecError>)
    ensures
        r matches Ok(p) ==> p.1 == pos + 1 && pos < bytes@.len()
            && bytes@.subrange(pos as int, pos as int + 1) == seq![p.0],
{
    proof {
        if pos < bytes@.len() {
            assert(bytes@.subrange(pos as int, pos as int + 1)
                =~= seq![bytes@[pos as int]]);
        }
    }
    if pos >= bytes.len() {
        return Err(CodecError::Truncated);
    }
    Ok((bytes[pos], pos + 1))
}

/// Read a `u64` that must fit the given bound.
fn get_bounded(bytes: &[u8], pos: usize, bound: u64) -> (r: Result<
    (u64, usize),
    CodecError,
>)
    ensures
        r matches Ok(p) ==> p.1 == pos + 8 && p.1 <= bytes@.len() && p.0 <= bound
            && bytes@.subrange(pos as int, pos as int + 8) == enc_u64(p.0),
{
    let (n, p) = get_u64(bytes, pos)?;
    if n > bound {
        return Err(CodecError::Malformed);
    }
    Ok((n, p))
}

/// Read one instruction.
fn get_instruction(bytes: &[u8], pos: usize) -> (r: Result<
    (Instruction, usize),
    CodecError,
>)
    ensures
        r matches Ok(p) ==> p.1 > pos && p.1 <= bytes@.len()
            && bytes@.subrange(pos as int, p.1 as int) =~= enc_instr(imodel(p.0)),
    decreases bytes@.len() - pos, 2int,
{
    let (tag, p) = get_u8(bytes, pos)?;
    let ghost p0 = p as int;
    match tag {
        0 => {
            let (k, p) = get_bounded(bytes, p, 0xffff)?;
            proof {
                assert((k as u16) as u64 == k);
                assert(bytes@.subrange(pos as int, p as int)
                    =~= bytes@.subrange(pos as int, p0)
                        + bytes@.subrange(p0, p as int));
            }
            Ok((Instruction::LoadConst(k as u16), p))
        },
        1 => {
            let (k, p) = get_u8(bytes, p)?;
            proof {
                assert(bytes@.subrange(pos as int, pos as int + 1)[0] == tag);
                assert(bytes@.subrange(pos as int + 1, pos as int + 2)[0] == k);
                assert(bytes@.subrange(pos as int, p as int)
                    =~= seq![1u8, k]);
            }
            Ok((Instruction::LoadLocal(k), p))
        },
        2 => {
            let (k, p) = get_u8(bytes, p)?;
            proof {
                assert(bytes@.subrange(pos as int, pos as int + 1)[0] == tag);
                assert(bytes@.subrange(pos as int + 1, pos as int + 2)[0] == k);
                assert(bytes@.subrange(pos as int, p as int)
                    =~= seq![2u8, k]);
            }
            Ok((Instruction::StoreLocal(k), p))
        },
        3 => {
            proof {
                assert(bytes@.subrange(pos as int, p as int) =~= seq![3u8]);
            }
            Ok((Instruction::Pop, p))
        },
        4 => Ok((Instruction::Dup, p)),
        5 => Ok((Instruction::Nil, p)),
        6 => Ok((Instruction::Cons, p)),
        7 => {
            let (k, p) = get_u8(bytes, p)?;
            proof {
                assert(bytes@.subrange(pos as int, pos as int + 1)[0] == tag);
                assert(bytes@.subrange(pos as int + 1, pos as int + 2)[0] == k);
                assert(bytes@.subrange(pos as int, p as int)
                    =~= seq![7u8, k]);
            }
            Ok((Instruction::MakeTuple(k), p))
        },
        8 => {
            let (tag_name, p) = get_string(bytes, p)?;
            let ghost p1 = p as int;
            let (ctor, p) = get_string(bytes, p)?;
            let ghost p2 = p as int;
            let (arity, p) = get_u8(bytes, p)?;
            proof {
                assert(bytes@.subrange(pos as int, p as int)
                    =~= bytes@.subrange(pos as int, p0) + bytes@.subrange(p0, p1)
                        + bytes@.subrange(p1, p2) + bytes@.subrange(p2, p as int));
                assert(bytes@.subrange(pos as int, p as int) =~= seq![8u8]
                    + enc_string(tag_name@) + enc_string(ctor@) + seq![arity]);
            }
            Ok((Instruction::MakeVariant { tag: tag_name, ctor, arity }, p))
        },
        9 => {
            let (chunk_const, p) = get_bounded(bytes, p, 0xffff)?;
            let (count, mut p) = get_bounded(bytes, p, bytes.len() as u64)?;
            let ghost c0 = p as int;
            let mut captures: Vec<Capture> = Vec::new();
            let mut k: u64 = 0;
            proof {
                assert(bytes@.subrange(c0, c0) =~= Seq::<u8>::empty());
            }
            while k < count
                invariant
                    pos < p,
                    0 <= c0 <= p as int,
                    p <= bytes@.len(),
                    k <= count,
                    captures@.len() == k,
                    bytes@.subrange(c0, p as int) == enc_captures(captures@),
                decreases count - k,
            {
                let ghost pk = p as int;
                let (ct, q) = get_u8(bytes, p)?;
                if ct > 1 {
                    return Err(CodecError::Malformed);
                }
                let (slot, q) = get_u8(bytes, q)?;
                let cap = if ct == 0 {
                    Capture::Local(slot)
                } else {
                    Capture::FromEnclosing(slot)
                };
                proof {
                    assert(bytes@.subrange(pk, pk + 1)[0] == ct);
                    assert(bytes@.subrange(pk + 1, pk + 2)[0] == slot);
                    assert(bytes@.subrange(pk, pk + 2) =~= seq![ct, slot]);
                    assert(seq![ct, slot] == enc_capture(cap));
                    assert(captures@.push(cap).drop_last() =~= captures@);
                    assert(bytes@.subrange(c0, pk + 2) =~= bytes@.subrange(c0, pk)
                        + bytes@.subrange(pk, pk + 2));
                }
                captures.push(cap);
                p = q;
                k = k + 1;
            }
            proof {
                assert(bytes@.subrange(pos as int, p as int) =~= bytes@.subrange(
                    pos as int,
                    p0,
                ) + bytes@.subrange(p0, p0 + 8) + bytes@.subrange(p0 + 8, p0 + 16)
                    + bytes@.subrange(c0, p as int));
                assert((chunk_const as u16) as u64 == chunk_const);
                assert(bytes@.subrange(pos as int, p as int) =~= seq![9u8]
                    + enc_u64(chunk_const) + enc_u64(count)
                    + enc_captures(captures@));
                assert(count == captures@.len() as u64);
            }
            Ok((Instruction::MakeClosure { chunk_const: chunk_const as u16, captures }, p))
        },
        10 => {
            let (k, p) = get_u8(bytes, p)?;
            proof {
                assert(bytes@.subrange(pos as int, pos as int + 1)[0] == tag);
                assert(bytes@.subrange(pos as int + 1, pos as int + 2)[0] == k);
                assert(bytes@.subrange(pos as int, p as int)
                    =~= seq![10u8, k]);
            }
            Ok((Instruction::LoadUpvalue(k), p))
        },
        11 => Ok((Instruction::Add, p)),
        12 => Ok((Instruction::Sub, p)),
        13 => Ok((Instruction::Mul, p)),
        14 => Ok((Instruction::Div, p)),
        15 => Ok((Instruction::Mod, p)),
        16 => Ok((Instruction::Neg, p)),
        17 => Ok((Instruction::Eq, p)),
        18 => Ok((Instruction::Neq, p)),
        19 => Ok((Instruction::Lt, p)),
        20 => Ok((Instruction::Lte, p)),
        21 => Ok((Instruction::Gt, p)),
        22 => Ok((Instruction::Gte, p)),
        23 => Ok((Instruction::And, p)),
        24 => Ok((Instruction::Or, p)),
        25 => Ok((Instruction::Not, p)),
        26 => {
            let (o, p) = get_bounded(bytes, p, 0xffff)?;
            #[verifier::truncate]
            let o16 = o as u16 as i16;
            proof {
                assert((o16 as u16) as u64 == o) by (bit_vector)
                    requires o16 == (o as u16) as i16, o <= 0xffff;
                assert(bytes@.subrange(pos as int, p as int)
                    =~= bytes@.subrange(pos as int, p0)
                        + bytes@.subrange(p0, p as int));
                assert(bytes@.subrange(pos as int, p as int)
                    =~= seq![26u8] + enc_u64((o16 as u16) as u64));
            }
            Ok((Instruction::Jump(o16), p))
        },
        27 => {
            let (o, p) = get_bounded(bytes, p, 0xffff)?;
            #[verifier::truncate]
            let o16 = o as u16 as i16;
            proof {
                assert((o16 as u16) as u64 == o) by (bit_vector)
                    requires o16 == (o as u16) as i16, o <= 0xffff;
                assert(bytes@.subrange(pos as int, p as int)
                    =~= bytes@.subrange(pos as int, p0)
                        + bytes@.subrange(p0, p as int));
                assert(bytes@.subrange(pos as int, p as int)
                    =~= seq![27u8] + enc_u64((o16 as u16) as u64));
            }
            Ok((Instruction::JumpIfFalse(o16), p))
        },
        28 => {
            let (o, p) = get_bounded(bytes, p, 0xffff)?;
            #[verifier::truncate]
            let o16 = o as u16 as i16;
            proof {
                assert((o16 as u16) as u64 == o) by (bit_vector)
                    requires o16 == (o as u16) as i16, o <= 0xffff;
                assert(bytes@.subrange(pos as int, p as int)
                    =~= bytes@.subrange(pos as int, p0)
                        + bytes@.subrange(p0, p as int));
                assert(bytes@.subrange(pos as int, p as int)
                    =~= seq![28u8] + enc_u64((o16 as u16) as u64));
            }
            Ok((Instruction::JumpIfTrue(o16), p))
        },
        29 => {
            let (k, p) = get_u8(bytes, p)?;
            proof {
                assert(bytes@.subrange(pos as int, pos as int + 1)[0] == tag);
                assert(bytes@.subrange(pos as int + 1, pos as int + 2)[0] == k);
                assert(bytes@.subrange(pos as int, p as int)
                    =~= seq![29u8, k]);
            }
            Ok((Instruction::Call(k), p))
        },
        30 => {
            let (ctor, p) = get_string(bytes, p)?;
            proof {
                assert(bytes@.subrange(pos as int, p as int)
                    =~= bytes@.subrange(pos as int, p0)
                        + bytes@.subrange(p0, p as int));
            }
            Ok((Instruction::TestVariant { ctor }, p))
        },
        31 => {
            let (k, p) = get_u8(bytes, p)?;
            proof {
                assert(bytes@.subrange(pos as int, pos as int + 1)[0] == tag);
                assert(bytes@.subrange(pos as int + 1, pos as int + 2)[0] == k);
                assert(bytes@.subrange(pos as int, p as int)
                    =~= seq![31u8, k]);
            }
            Ok((Instruction::GetVariantField(k), p))
        },
        32 => Ok((Instruction::MatchFail, p)),
        33 => Ok((Instruction::Return, p)),
        _ => Err(CodecError::Malformed),
    }
}

/// Append one value: a tag byte and its payload, recursively.
#[verifier::rlimit(100)]
fn put_value(out: &mut Vec<u8>, v: &Value)
    ensures
        final(out)@ == old(out)@ + enc_value(vmodel(*v)),
    decreases *v,
{
    match v {
        Value::Int(n) => {
            out.push(0);
            let bits = if *n >= 0 {
                *n as u64
            } else {
                // Two's complement: the bit pattern of a negative value.
                u64::MAX - ((-(*n + 1)) as u64)
            };
            proof {
                assert(bits == i64_bits(*n));
            }
            put_u64(out, bits);
            proof {
                assert(out@ == old(out)@ + enc_value(vmodel(*v)));
            }
        },
        Value::Float(b) => {
            out.push(1);
            put_u64(out, *b);
            proof {
                assert(out@ == old(out)@ + enc_value(vmodel(*v)));
            }
        },
        Value::Bool(b) => {
            out.push(2);
            out.push(if *b { 1 } else { 0 });
        },
        Value::Str(s) => {
            out.push(3);
            put_string(out, s.as_str());
            proof {
                assert(out@ == old(out)@ + enc_value(vmodel(*v)));
            }
        },
        Value::Unit => out.push(4),
        Value::Nil => out.push(5),
        Value::Cons { head, tail } => {
            out.push(6);
            put_value(out, head);
            put_value(out, tail);
            proof {
                assert(out@ == old(out)@ + enc_value(vmodel(*v)));
            }
        },
        Value::Tuple(xs) => {
            out.push(7);
            proof {
                crate::value::lemma_models_of(xs@);
            }
            put_u64(out, xs.len() as u64);
            put_values(out, xs);
            proof {
                assert(out@ == old(out)@ + enc_value(vmodel(*v)));
            }
        },
        Value::Record(xs) => {
            out.push(8);
            put_fields(out, xs);
            proof {
                assert(out@ == old(out)@ + enc_value(vmodel(*v)));
            }
        },
        Value::Variant { tag, ctor, fields } => {
            out.push(9);
            proof {
                crate::value::lemma_models_of(fields@);
            }
            put_string(out, tag.as_str());
            put_string(out, ctor.as_str());
            put_u64(out, fields.len() as u64);
            put_values(out, fields);
            proof {
                assert(out@ == old(out)@ + enc_value(vmodel(*v)));
            }
        },
        Value::Table(xs) => {
            out.push(10);
            put_fields(out, xs);
            proof {
                assert(out@ == old(out)@ + enc_value(vmodel(*v)));
            }
        },
        Value::Closure(c) => {
            out.push(11);
            put_chunk_body(out, &c.chunk);
            proof {
                assert(vmodel(*v) == ValueM::Closure(crate::value::clmodel(**c)));
                assert(crate::value::clmodel(**c).chunk == cmodel(*c.chunk));
                assert(out@ == old(out)@ + seq![11u8] + enc_chunk_body(
                    crate::value::clmodel(**c).chunk,
                ));
            }
            put_u64(out, c.arity as u64);
            put_u64(out, c.upvalues.len() as u64);
            let ghost mid = out@;
            proof {
                assert(mid == old(out)@ + seq![11u8] + enc_chunk_body(
                    crate::value::clmodel(**c).chunk,
                ) + enc_u64(crate::value::clmodel(**c).arity as u64)
                    + enc_u64(crate::value::clmodel(**c).upvalues.len() as u64));
            }
            let mut k: usize = 0;
            while k < c.upvalues.len()
                invariant
                    k <= c.upvalues@.len(),
                    out@ == mid + enc_usizes(c.upvalues@.take(k as int)),
                decreases c.upvalues@.len() - k,
            {
                proof {
                    lemma_enc_usizes_take(c.upvalues@, k as int);
                }
                put_u64(out, c.upvalues[k] as u64);
                k = k + 1;
            }
            proof {
                assert(c.upvalues@.take(c.upvalues@.len() as int) =~= c.upvalues@);
            }
            proof {
                assert(out@ == old(out)@ + enc_value(vmodel(*v)));
            }
        },
        Value::NativeFn { name, arity, args } => {
            out.push(12);
            proof {
                crate::value::lemma_models_of(args@);
            }
            put_string(out, name.as_str());
            put_u64(out, *arity as u64);
            put_u64(out, args.len() as u64);
            put_values(out, args);
            proof {
                assert(out@ == old(out)@ + enc_value(vmodel(*v)));
            }
        },
        Value::Async(a) => match a {
            AsyncValue::Task(id) => {
                out.push(13);
                put_u64(out, id.0);
            proof {
                assert(out@ == old(out)@ + enc_value(vmodel(*v)));
            }
            },
            AsyncValue::Value(v) => {
                out.push(14);
                put_value(out, v);
            },
        },
    }
}

/// Append each value of a list.
fn put_values(out: &mut Vec<u8>, xs: &Vec<Value>)
    ensures
        final(out)@ == old(out)@ + enc_values(models_of(xs@)),
    decreases *xs,
{
    proof {
        crate::value::lemma_models_of(xs@);
    }
    let mut k: usize = 0;
    while k < xs.len()
        invariant
            k <= xs@.len(),
            out@ == old(out)@ + enc_values(models_of(xs@).take(k as int)),
        decreases xs@.len() - k,
    {
        proof {
            crate::value::lemma_models_of(xs@);
            lemma_enc_values_take(models_of(xs@), k as int);
        }
        put_value(out, &xs[k]);
        k = k + 1;
    }
    proof {
        crate::value::lemma_models_of(xs@);
        assert(models_of(xs@).take(models_of(xs@).len() as int) =~= models_of(xs@));
    }
}

/// Append a name/value pair list.
fn put_fields(out: &mut Vec<u8>, xs: &Vec<(String, Value)>)
    ensures
        final(out)@ == old(out)@ + enc_fields(fmodels_of(xs@)),
    decreases *xs,
{
    proof {
        crate::value::lemma_fmodels_of(xs@);
    }
    put_u64(out, xs.len() as u64);
    let mut k: usize = 0;
    while k < xs.len()
        invariant
            k <= xs@.len(),
            out@ == old(out)@ + enc_u64(fmodels_of(xs@).len() as u64)
                + enc_pairs(fmodels_of(xs@).take(k as int)),
        decreases xs@.len() - k,
    {
        proof {
            crate::value::lemma_fmodels_of(xs@);
            lemma_enc_pairs_take(fmodels_of(xs@), k as int);
        }
        put_string(out, xs[k].0.as_str());
        put_value(out, &xs[k].1);
        k = k + 1;
    }
    proof {
        crate::value::lemma_fmodels_of(xs@);
        assert(fmodels_of(xs@).take(fmodels_of(xs@).len() as int)
            =~= fmodels_of(xs@));
    }
}

/// Read one value; the bytes read are exactly the value's encoding.
/// A boolean byte beyond one, a capture kind beyond one, or an arity,
/// count or index beyond thirty-two bits is `Malformed`.
#[verifier::rlimit(100)]
fn get_value(bytes: &[u8], pos: usize) -> (r: Result<(Value, usize), CodecError>)
    ensures
        r matches Ok(p) ==> p.1 > pos && p.1 <= bytes@.len()
            && bytes@.subrange(pos as int, p.1 as int) =~= enc_value(vmodel(p.0)),
    decreases bytes@.len() - pos, 3int,
{
    let (tag, p) = get_u8(bytes, pos)?;
    let ghost p0 = p as int;
    match tag {
        0 => {
            let (bits, p) = get_u64(bytes, p)?;
            let n = if bits < 0x8000_0000_0000_0000 {
                bits as i64
            } else {
                -((u64::MAX - bits) as i64) - 1
            };
            proof {
                vstd::arithmetic::div_mod::lemma_fundamental_div_mod_converse(
                    n as int,
                    0x1_0000_0000_0000_0000,
                    if bits < 0x8000_0000_0000_0000 { 0int } else { -1int },
                    bits as int,
                );
                assert(i64_bits(n) == bits);
                assert(bytes@.subrange(pos as int, p as int)
                    =~= bytes@.subrange(pos as int, p0)
                        + bytes@.subrange(p0, p as int));
            }
            proof {
                assert(bytes@.subrange(pos as int, p as int)
                    =~= seq![0u8] + enc_u64(i64_bits(n)));
                assert(bytes@.subrange(pos as int, p as int)
                    =~= enc_value(vmodel(Value::Int(n))));
            }
            Ok((Value::Int(n), p))
        },
        1 => {
            let (bits, p) = get_u64(bytes, p)?;
            proof {
                assert(bytes@.subrange(pos as int, p as int)
                    =~= bytes@.subrange(pos as int, p0)
                        + bytes@.subrange(p0, p as int));
            }
            proof {
                assert(bytes@.subrange(pos as int, p as int)
                    =~= seq![1u8] + enc_u64(bits));
                assert(bytes@.subrange(pos as int, p as int)
                    =~= enc_value(vmodel(Value::Float(bits))));
            }
            Ok((Value::Float(bits), p))
        },
        2 => {
            let (b, p) = get_u8(bytes, p)?;
            if b > 1 {
                return Err(CodecError::Malformed);
            }
            proof {
                assert(bytes@.subrange(pos as int, pos as int + 1)[0] == tag);
                assert(bytes@.subrange(pos as int + 1, pos as int + 2)[0] == b);
                assert(bytes@.subrange(pos as int, p as int) =~= seq![2u8, b]);
            }
            proof {
                assert(bytes@.subrange(pos as int, p as int)
                    =~= enc_value(vmodel(Value::Bool(b != 0))));
            }
            Ok((Value::Bool(b != 0), p))
        },
        3 => {
            let (s, p) = get_string(bytes, p)?;
            proof {
                assert(bytes@.subrange(pos as int, p as int)
                    =~= bytes@.subrange(pos as int, p0)
                        + bytes@.subrange(p0, p as int));
            }
            proof {
                assert(bytes@.subrange(pos as int, p as int)
                    =~= enc_value(vmodel(Value::Str(s))));
            }
            Ok((Value::Str(s), p))
        },
        4 => {
            proof {
                assert(bytes@.subrange(pos as int, p as int)
                    =~= enc_value(vmodel(Value::Unit)));
            }
            Ok((Value::Unit, p))
        },
        5 => {
            proof {
                assert(bytes@.subrange(pos as int, p as int)
                    =~= enc_value(vmodel(Value::Nil)));
            }
            Ok((Value::Nil, p))
        },
        6 => {
            let (head, p) = get_value(bytes, p)?;
            let ghost p1 = p as int;
            let (tail, p) = get_value(bytes, p)?;
            proof {
                assert(bytes@.subrange(pos as int, p as int)
                    =~= bytes@.subrange(pos as int, p0)
                        + bytes@.subrange(p0, p1) + bytes@.subrange(p1, p as int));
            }
            proof {
                assert(bytes@.subrange(pos as int, p as int) =~= seq![6u8]
                    + enc_value(vmodel(head)) + enc_value(vmodel(tail)));
            }
            let rh = Rc::new(head);
            let rt = Rc::new(tail);
            proof {
                assert(vmodel(Value::Cons { head: rh, tail: rt })
                    == ValueM::Cons(
                        Box::new(vmodel(*rh)),
                        Box::new(vmodel(*rt)),
                    ));
                assert(bytes@.subrange(pos as int, p as int)
                    =~= enc_value(vmodel(Value::Cons { head: rh, tail: rt })));
            }
            Ok((Value::Cons { head: rh, tail: rt }, p))
        },
        7 => {
            let (count, mut p) = get_bounded(bytes, p, bytes.len() as u64)?;
            let ghost c0 = p as int;
            let mut xs: Vec<Value> = Vec::new();
            let mut k: u64 = 0;
            proof {
                assert(bytes@.subrange(c0, c0) =~= Seq::<u8>::empty());
                crate::value::lemma_models_of(xs@);
            }
            while k < count
                invariant
                    pos < p,
                    0 <= c0 <= p as int,
                    p <= bytes@.len(),
                    k <= count,
                    xs@.len() == k,
                    bytes@.subrange(c0, p as int)
                        == enc_values(models_of(xs@)),
                decreases count - k,
            {
                let ghost pk = p as int;
                let (v, q) = get_value(bytes, p)?;
                proof {
                    crate::value::lemma_models_of_push(xs@, v);
                    lemma_enc_values_push(models_of(xs@), vmodel(v));
                    assert(bytes@.subrange(c0, q as int) =~= bytes@.subrange(c0, pk)
                        + bytes@.subrange(pk, q as int));
                }
                xs.push(v);
                p = q;
                k = k + 1;
            }
            proof {
                crate::value::lemma_models_of(xs@);
                assert(bytes@.subrange(pos as int, p as int)
                    =~= bytes@.subrange(pos as int, p0)
                        + bytes@.subrange(p0, c0) + bytes@.subrange(c0, p as int));
            }
            proof {
                assert(count == xs@.len() as u64);
                assert(bytes@.subrange(pos as int, p as int) =~= seq![7u8]
                    + enc_u64(models_of(xs@).len() as u64)
                    + enc_values(models_of(xs@)));
                assert(bytes@.subrange(pos as int, p as int)
                    =~= enc_value(vmodel(Value::Tuple(xs))));
            }
            Ok((Value::Tuple(xs), p))
        },
        8 => {
            let (xs, p) = get_fields(bytes, p)?;
            proof {
                assert(bytes@.subrange(pos as int, p as int)
                    =~= bytes@.subrange(pos as int, p0)
                        + bytes@.subrange(p0, p as int));
            }
            proof {
                assert(bytes@.subrange(pos as int, p as int)
                    =~= enc_value(vmodel(Value::Record(xs))));
            }
            Ok((Value::Record(xs), p))
        },
        9 => {
            let (vtag, p) = get_string(bytes, p)?;
            let ghost p1 = p as int;
            let (ctor, p) = get_string(bytes, p)?;
            let ghost p2 = p as int;
            let (count, mut p) = get_bounded(bytes, p, bytes.len() as u64)?;
            let ghost c0 = p as int;
            let mut fields: Vec<Value> = Vec::new();
            let mut k: u64 = 0;
            proof {
                assert(bytes@.subrange(c0, c0) =~= Seq::<u8>::empty());
                crate::value::lemma_models_of(fields@);
            }
            while k < count
                invariant
                    pos < p,
                    0 <= c0 <= p as int,
                    p <= bytes@.len(),
                    k <= count,
                    fields@.len() == k,
                    bytes@.subrange(c0, p as int)
                        == enc_values(models_of(fields@)),
                decreases count - k,
            {
                let ghost pk = p as int;
                let (v, q) = get_value(bytes, p)?;
                proof {
                    crate::value::lemma_models_of_push(fields@, v);
                    lemma_enc_values_push(models_of(fields@), vmodel(v));
                    assert(bytes@.subrange(c0, q as int) =~= bytes@.subrange(c0, pk)
                        + bytes@.subrange(pk, q as int));
                }
                fields.push(v);
                p = q;
                k = k + 1;
            }
            proof {
                crate::value::lemma_models_of(fields@);
                assert(bytes@.subrange(pos as int, p as int)
                    =~= bytes@.subrange(pos as int, p0) + bytes@.subrange(p0, p1)
                        + bytes@.subrange(p1, p2) + bytes@.subrange(p2, c0)
                        + bytes@.subrange(c0, p as int));
            }
            proof {
                assert(count == fields@.len() as u64);
                assert(bytes@.subrange(pos as int, p as int) =~= seq![9u8]
                    + enc_string(vtag@) + enc_string(ctor@)
                    + enc_u64(models_of(fields@).len() as u64)
                    + enc_values(models_of(fields@)));
                assert(bytes@.subrange(pos as int, p as int)
                    =~= enc_value(vmodel(Value::Variant { tag: vtag, ctor, fields })));
            }
            Ok((Value::Variant { tag: vtag, ctor, fields }, p))
        },
        10 => {
            let (xs, p) = get_fields(bytes, p)?;
            proof {
                assert(bytes@.subrange(pos as int, p as int)
                    =~= bytes@.subrange(pos as int, p0)
                        + bytes@.subrange(p0, p as int));
            }
            proof {
                assert(bytes@.subrange(pos as int, p as int)
                    =~= enc_value(vmodel(Value::Table(xs))));
            }
            Ok((Value::Table(xs), p))
        },
        11 => {
            let (chunk, p) = get_chunk_body(bytes, p)?;
            let ghost p1 = p as int;
            let (arity64, p) = get_bounded(bytes, p, 0xffff_ffff)?;
            let ghost p2 = p as int;
            let (count, mut p) = get_bounded(bytes, p, bytes.len() as u64)?;
            let ghost c0 = p as int;
            let mut upvalues: Vec<usize> = Vec::new();
            let mut k: u64 = 0;
            proof {
                assert(bytes@.subrange(c0, c0) =~= Seq::<u8>::empty());
            }
            while k < count
                invariant
                    pos < p,
                    0 <= c0 <= p as int,
                    p <= bytes@.len(),
                    k <= count,
                    upvalues@.len() == k,
                    bytes@.subrange(c0, p as int) == enc_usizes(upvalues@),
                decreases count - k,
            {
                let ghost pk = p as int;
                let (idx64, q) = get_bounded(bytes, p, 0xffff_ffff)?;
                let idx = idx64 as usize;
                proof {
                    lemma_enc_usizes_push(upvalues@, idx);
                    assert(idx as u64 == idx64);
                    assert(bytes@.subrange(c0, q as int) =~= bytes@.subrange(c0, pk)
                        + bytes@.subrange(pk, q as int));
                }
                upvalues.push(idx);
                p = q;
                k = k + 1;
            }
            let arity = arity64 as usize;
            proof {
                assert(arity as u64 == arity64);
                assert(bytes@.subrange(pos as int, p as int)
                    =~= bytes@.subrange(pos as int, p0) + bytes@.subrange(p0, p1)
                        + bytes@.subrange(p1, p2) + bytes@.subrange(p2, c0)
                        + bytes@.subrange(c0, p as int));
            }
            proof {
                assert(count == upvalues@.len() as u64);
                assert(bytes@.subrange(pos as int, p as int) =~= seq![11u8]
                    + enc_chunk_body(cmodel(chunk)) + enc_u64(arity as u64)
                    + enc_u64(upvalues@.len() as u64) + enc_usizes(upvalues@));
            }
            let ghost gch = chunk;
            let ghost gup = upvalues@;
            let rcl = Rc::new(Closure { chunk: Rc::new(chunk), arity, upvalues });
            proof {
                assert(crate::value::clmodel(*rcl).chunk == cmodel(gch));
                assert(crate::value::clmodel(*rcl).arity == arity);
                assert(crate::value::clmodel(*rcl).upvalues == gup);
                assert(bytes@.subrange(pos as int, p as int)
                    =~= enc_value(vmodel(Value::Closure(rcl))));
            }
            Ok((Value::Closure(rcl), p))
        },
        12 => {
            let (name, p) = get_string(bytes, p)?;
            let ghost p1 = p as int;
            let (arity64, p) = get_bounded(bytes, p, 0xffff_ffff)?;
            let ghost p2 = p as int;
            let (count, mut p) = get_bounded(bytes, p, bytes.len() as u64)?;
            let ghost c0 = p as int;
            let mut args: Vec<Value> = Vec::new();
            let mut k: u64 = 0;
            proof {
                assert(bytes@.subrange(c0, c0) =~= Seq::<u8>::empty());
                crate::value::lemma_models_of(args@);
            }
            while k < count
                invariant
                    pos < p,
                    0 <= c0 <= p as int,
                    p <= bytes@.len(),
                    k <= count,
                    args@.len() == k,
                    bytes@.subrange(c0, p as int) == enc_values(models_of(args@)),
                decreases count - k,
            {
                let ghost pk = p as int;
                let (v, q) = get_value(bytes, p)?;
                proof {
                    crate::value::lemma_models_of_push(args@, v);
                    lemma_enc_values_push(models_of(args@), vmodel(v));
                    assert(bytes@.subrange(c0, q as int) =~= bytes@.subrange(c0, pk)
                        + bytes@.subrange(pk, q as int));
                }
                args.push(v);
                p = q;
                k = k + 1;
            }
            let arity = arity64 as usize;
            proof {
                crate::value::lemma_models_of(args@);
                assert(arity as u64 == arity64);
                assert(bytes@.subrange(pos as int, p as int)
                    =~= bytes@.subrange(pos as int, p0) + bytes@.subrange(p0, p1)
                        + bytes@.subrange(p1, p2) + bytes@.subrange(p2, c0)
                        + bytes@.subrange(c0, p as int));
            }
            proof {
                assert(count == args@.len() as u64);
                assert(bytes@.subrange(pos as int, p as int) =~= seq![12u8]
                    + enc_string(name@) + enc_u64(arity as u64)
                    + enc_u64(models_of(args@).len() as u64)
                    + enc_values(models_of(args@)));
                assert(bytes@.subrange(pos as int, p as int)
                    =~= enc_value(vmodel(Value::NativeFn { name, arity, args })));
            }
            Ok((Value::NativeFn { name, arity, args }, p))
        },
        13 => {
            let (id, p) = get_u64(bytes, p)?;
            proof {
                assert(bytes@.subrange(pos as int, p as int)
                    =~= bytes@.subrange(pos as int, p0)
                        + bytes@.subrange(p0, p as int));
            }
            proof {
                assert(bytes@.subrange(pos as int, p as int)
                    =~= enc_value(vmodel(Value::Async(AsyncValue::Task(TaskId(id))))));
            }
            Ok((Value::Async(AsyncValue::Task(TaskId(id))), p))
        },
        14 => {
            let (v, p) = get_value(bytes, p)?;
            proof {
                assert(bytes@.subrange(pos as int, p as int)
                    =~= bytes@.subrange(pos as int, p0)
                        + bytes@.subrange(p0, p as int));
            }
            proof {
                assert(bytes@.subrange(pos as int, p as int)
                    =~= enc_value(vmodel(Value::Async(AsyncValue::Value(Box::new(v))))));
            }
            Ok((Value::Async(AsyncValue::Value(Box::new(v))), p))
        },
        _ => Err(CodecError::Malformed),
    }
}

/// Read a name/value pair list; the bytes read are exactly the list's
/// encoding.
fn get_fields(bytes: &[u8], pos: usize) -> (r: Result<
    (Vec<(String, Value)>, usize),
    CodecError,
>)
    ensures
        r matches Ok(p) ==> p.1 > pos && p.1 <= bytes@.len()
            && bytes@.subrange(pos as int, p.1 as int)
                =~= enc_fields(fmodels_of(p.0@)),
    decreases bytes@.len() - pos, 4int,
{
    let (count, mut p) = get_bounded(bytes, pos, bytes.len() as u64)?;
    let ghost c0 = p as int;
    let mut xs: Vec<(String, Value)> = Vec::new();
    let mut k: u64 = 0;
    proof {
        assert(bytes@.subrange(c0, c0) =~= Seq::<u8>::empty());
        crate::value::lemma_fmodels_of(xs@);
        assert(fmodels_of(xs@) =~= Seq::<(Seq<char>, ValueM)>::empty());
    }
    while k < count
        invariant
            pos < p,
            0 <= c0 <= p as int,
            c0 == pos + 8,
            p <= bytes@.len(),
            k <= count,
            xs@.len() == k,
            bytes@.subrange(pos as int, pos as int + 8) == enc_u64(count),
            bytes@.subrange(c0, p as int) == enc_pairs(fmodels_of(xs@)),
        decreases count - k,
    {
        let ghost pk = p as int;
        let (name, q) = get_string(bytes, p)?;
        let ghost q1 = q as int;
        let (v, q) = get_value(bytes, q)?;
        proof {
            crate::value::lemma_fmodels_of_push(xs@, (name, v));
            lemma_enc_pairs_push(fmodels_of(xs@), (name@, vmodel(v)));
            assert(bytes@.subrange(c0, q as int) =~= bytes@.subrange(c0, pk)
                + bytes@.subrange(pk, q1) + bytes@.subrange(q1, q as int));
        }
        xs.push((name, v));
        p = q;
        k = k + 1;
    }
    proof {
        crate::value::lemma_fmodels_of(xs@);
        assert(bytes@.subrange(pos as int, p as int)
            =~= bytes@.subrange(pos as int, c0) + bytes@.subrange(c0, p as int));
    }
    Ok((xs, p))
}

/// Append a chunk's body: instructions, constants, spans, metadata.
#[verifier::rlimit(100)]
fn put_chunk_body(out: &mut Vec<u8>, chunk: &Chunk)
    ensures
        final(out)@ == old(out)@ + enc_chunk_body(cmodel(*chunk)),
    decreases *chunk,
{
    let ghost cm = cmodel(*chunk);
    put_u64(out, chunk.instructions.len() as u64);
    let mut k: usize = 0;
    while k < chunk.instructions.len()
        invariant
            k <= chunk.instructions@.len(),
            cm == cmodel(*chunk),
            out@ == old(out)@ + enc_u64(cm.instructions.len() as u64)
                + enc_instrs(cm.instructions.take(k as int)),
        decreases chunk.instructions@.len() - k,
    {
        proof {
            lemma_enc_instrs_take(cm.instructions, k as int);
            assert(cm.instructions[k as int] == imodel(chunk.instructions@[k as int]));
        }
        put_instruction(out, &chunk.instructions[k]);
        k = k + 1;
    }
    proof {
        assert(cm.instructions.take(cm.instructions.len() as int)
            =~= cm.instructions);
    }
    let ghost part1 = out@;
    proof {
        crate::value::lemma_models_of(chunk.constants@);
    }
    put_u64(out, chunk.constants.len() as u64);
    let mut k: usize = 0;
    while k < chunk.constants.len()
        invariant
            k <= chunk.constants@.len(),
            cm == cmodel(*chunk),
            out@ == part1 + enc_u64(cm.constants.len() as u64)
                + enc_values(cm.constants.take(k as int)),
            part1 == old(out)@ + enc_u64(cm.instructions.len() as u64)
                + enc_instrs(cm.instructions),
        decreases chunk.constants@.len() - k,
    {
        proof {
            crate::value::lemma_models_of(chunk.constants@);
            lemma_enc_values_take(cm.constants, k as int);
        }
        put_value(out, &chunk.constants[k]);
        k = k + 1;
    }
    proof {
        crate::value::lemma_models_of(chunk.constants@);
        assert(cm.constants.take(cm.constants.len() as int) =~= cm.constants);
    }
    let ghost part2 = out@;
    put_u64(out, chunk.spans.len() as u64);
    let mut k: usize = 0;
    while k < chunk.spans.len()
        invariant
            k <= chunk.spans@.len(),
            cm == cmodel(*chunk),
            out@ == part2 + enc_u64(cm.spans.len() as u64)
                + enc_spans(cm.spans.take(k as int)),
            part2 == part1 + enc_u64(cm.constants.len() as u64)
                + enc_values(cm.constants),
            part1 == old(out)@ + enc_u64(cm.instructions.len() as u64)
                + enc_instrs(cm.instructions),
        decreases chunk.spans@.len() - k,
    {
        proof {
            lemma_enc_spans_take(cm.spans, k as int);
        }
        let s = chunk.spans[k];
        put_u64(out, s.line as u64);
        put_u64(out, s.column as u64);
        put_u64(out, s.offset as u64);
        put_u64(out, s.length as u64);
        k = k + 1;
    }
    proof {
        assert(cm.spans.take(cm.spans.len() as int) =~= cm.spans);
    }
    put_opt_string(out, &chunk.name);
    put_opt_string(out, &chunk.source);
    put_opt_string(out, &chunk.source_file);
}

/// Read a chunk's body; the bytes read are exactly the body's
/// encoding.
#[verifier::rlimit(100)]
fn get_chunk_body(bytes: &[u8], pos: usize) -> (r: Result<(Chunk, usize), CodecError>)
    ensures
        r matches Ok(p) ==> p.1 > pos && p.1 <= bytes@.len()
            && bytes@.subrange(pos as int, p.1 as int)
                =~= enc_chunk_body(cmodel(p.0)),
    decreases bytes@.len() - pos, 5int,
{
    let (icount, mut p) = get_bounded(bytes, pos, bytes.len() as u64)?;
    let ghost i0 = p as int;
    let mut instructions: Vec<Instruction> = Vec::new();
    let mut k: u64 = 0;
    proof {
        assert(bytes@.subrange(i0, i0) =~= Seq::<u8>::empty());
        assert(crate::instruction::imodels_of(instructions@)
            =~= Seq::<InstrM>::empty());
    }
    while k < icount
        invariant
            pos < p,
            0 <= i0 <= p as int,
            p <= bytes@.len(),
            k <= icount,
            instructions@.len() == k,
            bytes@.subrange(i0, p as int)
                == enc_instrs(crate::instruction::imodels_of(instructions@)),
        decreases icount - k,
    {
        let ghost pk = p as int;
        let (i, q) = get_instruction(bytes, p)?;
        proof {
            lemma_enc_instrs_push(
                crate::instruction::imodels_of(instructions@),
                imodel(i),
            );
            assert(crate::instruction::imodels_of(instructions@.push(i))
                =~= crate::instruction::imodels_of(instructions@).push(imodel(i)));
            assert(bytes@.subrange(i0, q as int) =~= bytes@.subrange(i0, pk)
                + bytes@.subrange(pk, q as int));
        }
        instructions.push(i);
        p = q;
        k = k + 1;
    }
    let ghost iend = p as int;
    let (ccount, mut p) = get_bounded(bytes, p, bytes.len() as u64)?;
    let ghost c0 = p as int;
    let mut constants: Vec<Value> = Vec::new();
    let mut k: u64 = 0;
    proof {
        assert(bytes@.subrange(c0, c0) =~= Seq::<u8>::empty());
        crate::value::lemma_models_of(constants@);
    }
    while k < ccount
        invariant
            pos < p,
            0 <= c0 <= p as int,
            c0 == iend + 8,
            p <= bytes@.len(),
            k <= ccount,
            constants@.len() == k,
            bytes@.subrange(iend, iend + 8) == enc_u64(ccount),
            bytes@.subrange(c0, p as int) == enc_values(models_of(constants@)),
        decreases ccount - k,
    {
        let ghost pk = p as int;
        let (v, q) = get_value(bytes, p)?;
        proof {
            crate::value::lemma_models_of_push(constants@, v);
            lemma_enc_values_push(models_of(constants@), vmodel(v));
            assert(bytes@.subrange(c0, q as int) =~= bytes@.subrange(c0, pk)
                + bytes@.subrange(pk, q as int));
        }
        constants.push(v);
        p = q;
        k = k + 1;
    }
    let ghost cend = p as int;
    let (scount, mut p) = get_bounded(bytes, p, bytes.len() as u64)?;
    let ghost s0 = p as int;
    let mut spans: Vec<SourceSpan> = Vec::new();
    let mut k: u64 = 0;
    proof {
        crate::value::lemma_models_of(constants@);
        assert(bytes@.subrange(s0, s0) =~= Seq::<u8>::empty());
    }
    while k < scount
        invariant
            pos < p,
            0 <= s0 <= p as int,
            s0 == cend + 8,
            p <= bytes@.len(),
            k <= scount,
            spans@.len() == k,
            bytes@.subrange(cend, cend + 8) == enc_u64(scount),
            bytes@.subrange(s0, p as int) == enc_spans(spans@),
        decreases scount - k,
    {
        let ghost pk = p as int;
        let (line, q) = get_bounded(bytes, p, 0xffff_ffff)?;
        let ghost q1 = q as int;
        let (column, q) = get_bounded(bytes, q, 0xffff_ffff)?;
        let ghost q2 = q as int;
        let (offset, q) = get_bounded(bytes, q, 0xffff_ffff)?;
        let ghost q3 = q as int;
        let (length, q) = get_bounded(bytes, q, 0xffff_ffff)?;
        let sp = SourceSpan {
            line: line as u32,
            column: column as u32,
            offset: offset as u32,
            length: length as u32,
        };
        proof {
            lemma_enc_spans_push(spans@, sp);
            assert(sp.line as u64 == line && sp.column as u64 == column
                && sp.offset as u64 == offset && sp.length as u64 == length);
            assert(bytes@.subrange(pk, q as int) =~= bytes@.subrange(pk, q1)
                + bytes@.subrange(q1, q2) + bytes@.subrange(q2, q3)
                + bytes@.subrange(q3, q as int));
            assert(bytes@.subrange(pk, q as int) =~= enc_span(sp));
            assert(bytes@.subrange(s0, q as int) =~= bytes@.subrange(s0, pk)
                + bytes@.subrange(pk, q as int));
        }
        spans.push(sp);
        p = q;
        k = k + 1;
    }
    let ghost send = p as int;
    let (name, p) = get_opt_string(bytes, p)?;
    let ghost n1 = p as int;
    let (source, p) = get_opt_string(bytes, p)?;
    let ghost n2 = p as int;
    let (source_file, p) = get_opt_string(bytes, p)?;
    let c = Chunk { instructions, constants, name, spans, source, source_file };
    proof {
        assert(bytes@.subrange(pos as int, p as int)
            =~= bytes@.subrange(pos as int, i0) + bytes@.subrange(i0, iend)
                + bytes@.subrange(iend, c0) + bytes@.subrange(c0, cend)
                + bytes@.subrange(cend, s0) + bytes@.subrange(s0, send)
                + bytes@.subrange(send, n1) + bytes@.subrange(n1, n2)
                + bytes@.subrange(n2, p as int));
    }
    Ok((c, p))
}

/// Serialize a chunk: the four magic bytes and the version byte,
/// followed by the chunk's body.
pub fn serialize_chunk(chunk: &Chunk) -> (r: Vec<u8>)
    ensures
        header_ok(r@),
        r@ == seq![70u8, 90u8, 66u8, 1u8, 1u8] + enc_chunk_body(cmodel(*chunk)),
{
    let mut body: Vec<u8> = Vec::new();
    put_chunk_body(&mut body, chunk);
    let mut out: Vec<u8> = Vec::new();
    out.push(70);
    out.push(90);
    out.push(66);
    out.push(1);
    out.push(1);
    let ghost header = out@;
    out.append(&mut body);
    proof {
        assert(out@.take(5) =~= header);
        assert(out@[0] == 70 && out@[1] == 90 && out@[2] == 66 && out@[3] == 1
            && out@[4] == 1);
    }
    out
}

/// Deserialize a chunk. Too short an input is `Truncated`, a wrong
/// prefix `InvalidMagic`, an unknown version byte
/// `UnsupportedVersion`, exactly as the prefix dictates; only then is
/// the body read. A chunk is returned only when some prefix of the
/// input after the header is exactly that chunk's encoding, so reading
/// back what `serialize_chunk` wrote restores a chunk with the same
/// model.
pub fn deserialize_chunk(bytes: &[u8]) -> (r: Result<Chunk, CodecError>)
    ensures
        bytes@.len() < 5 ==> r == Err::<Chunk, CodecError>(CodecError::Truncated),
        bytes@.len() >= 5 && !magic_ok(bytes@) ==> r == Err::<Chunk, CodecError>(
            CodecError::InvalidMagic,
        ),
        bytes@.len() >= 5 && magic_ok(bytes@) && bytes@[4] != 1 ==> (r matches Err(e)
            && e == CodecError::UnsupportedVersion(bytes@[4])),
        header_ok(bytes@) ==> !(r matches Err(e) && (e matches CodecError::InvalidMagic
            || e matches CodecError::UnsupportedVersion(_))),
        r matches Ok(c) ==> exists|end: int| 5 <= end <= bytes@.len()
            && #[trigger] bytes@.subrange(5, end) == enc_chunk_body(cmodel(c)),
{
    if bytes.len() < 5 {
        return Err(CodecError::Truncated);
    }
    if !(bytes[0] == 70 && bytes[1] == 90 && bytes[2] == 66 && bytes[3] == 1) {
        return Err(CodecError::InvalidMagic);
    }
    if bytes[4] != 1 {
        return Err(CodecError::UnsupportedVersion(bytes[4]));
    }
    let (chunk, end) = match get_chunk_body(bytes, 5) {
        Ok(p) => p,
        Err(e) => {
            return Err(match e {
                CodecError::Truncated => CodecError::Truncated,
                _ => CodecError::Malformed,
            });
        },
    };
    proof {
        assert(bytes@.subrange(5, end as int) == enc_chunk_body(cmodel(chunk)));
    }
    Ok(chunk)
}

} // verus!
