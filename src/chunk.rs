//! Decoder for the HTTP/1.1 chunked transfer coding.
//!
//! Each chunk is a line holding its size in hexadecimal (optionally followed
//! by extensions, which are ignored) and ending in CRLF, then that many bytes
//! of data and a CRLF. A chunk of size zero ends the stream; what follows it
//! (trailer lines) is ignored. On malformed input the decoder keeps whatever
//! it has decoded before the fault.
use vstd::prelude::*;

verus! {

pub const CR: u8 = 13;

pub const LF: u8 = 10;

pub open spec fn is_hex_digit(b: u8) -> bool {
    (48 <= b && b <= 57) || (97 <= b && b <= 102) || (65 <= b && b <= 70)
}

pub open spec fn hex_digit_value(b: u8) -> nat {
    if 48 <= b && b <= 57 {
        (b - 48) as nat
    } else if 97 <= b && b <= 102 {
        (b - 87) as nat
    } else {
        (b - 55) as nat
    }
}

/// The value of a run of hexadecimal digits, most significant first.
pub open spec fn hex_value(d: Seq<u8>) -> nat
    decreases d.len(),
{
    if d.len() == 0 {
        0
    } else {
        hex_value(d.drop_last()) * 16 + hex_digit_value(d.last())
    }
}

/// The index of the first byte at or after `i` that is not a hexadecimal digit.
pub open spec fn hex_end(s: Seq<u8>, i: int) -> int
    decreases s.len() - i,
{
    if 0 <= i < s.len() && is_hex_digit(s[i]) {
        hex_end(s, i + 1)
    } else {
        i
    }
}

pub open spec fn crlf_at(s: Seq<u8>, i: int) -> bool {
    0 <= i && i + 1 < s.len() && s[i] == CR && s[i + 1] == LF
}

/// The index of the first CRLF at or after `i`, if there is one.
pub open spec fn line_end(s: Seq<u8>, i: int) -> Option<int>
    decreases s.len() - i,
{
    if i < 0 || i + 1 >= s.len() {
        None
    } else if crlf_at(s, i) {
        Some(i)
    } else {
        line_end(s, i + 1)
    }
}

/// What decoding yields from the chunk that starts at `pos` onwards.
pub open spec fn decode_at(s: Seq<u8>, pos: int) -> Seq<u8>
    decreases s.len() - pos via decode_at_decreases
{
    let digits_end = hex_end(s, pos);
    if pos < 0 || digits_end == pos {
        Seq::empty()
    } else {
        match line_end(s, digits_end) {
            None => Seq::empty(),
            Some(e) => {
                let n = hex_value(s.subrange(pos, digits_end));
                let start = e + 2;
                if n == 0 {
                    Seq::empty()
                } else if start + n > s.len() {
                    s.subrange(start, s.len() as int)
                } else if crlf_at(s, start + n) {
                    s.subrange(start, start + n) + decode_at(s, start + n + 2)
                } else {
                    s.subrange(start, start + n)
                }
            },
        }
    }
}

proof fn lemma_hex_end_ge(s: Seq<u8>, i: int)
    ensures
        hex_end(s, i) >= i,
    decreases s.len() - i,
{
    if 0 <= i < s.len() && is_hex_digit(s[i]) {
        lemma_hex_end_ge(s, i + 1);
    }
}

proof fn lemma_line_end_found(s: Seq<u8>, i: int)
    ensures
        line_end(s, i) matches Some(e) ==> i <= e && crlf_at(s, e),
    decreases s.len() - i,
{
    if !(i < 0 || i + 1 >= s.len()) && !crlf_at(s, i) {
        lemma_line_end_found(s, i + 1);
    }
}

#[via_fn]
proof fn decode_at_decreases(s: Seq<u8>, pos: int) {
    lemma_hex_end_ge(s, pos);
    lemma_line_end_found(s, hex_end(s, pos));
}

/// What decoding a whole chunked stream yields.
pub open spec fn decode_spec(s: Seq<u8>) -> Seq<u8> {
    decode_at(s, 0)
}

fn is_hex_byte(b: u8) -> (r: bool)
    ensures
        r == is_hex_digit(b),
{
    (48 <= b && b <= 57) || (97 <= b && b <= 102) || (65 <= b && b <= 70)
}

fn hex_byte_value(b: u8) -> (r: u8)
    requires
        is_hex_digit(b),
    ensures
        r as nat == hex_digit_value(b),
        r < 16,
{
    if 48 <= b && b <= 57 {
        b - 48
    } else if 97 <= b && b <= 102 {
        b - 87
    } else {
        b - 55
    }
}

fn append_range(out: &mut Vec<u8>, s: &[u8], from: usize, to: usize)
    requires
        from <= to <= s@.len(),
    ensures
        final(out)@ == old(out)@ + s@.subrange(from as int, to as int),
{
    let mut k = from;
    while k < to
        invariant
            from <= k <= to <= s@.len(),
            out@ == old(out)@ + s@.subrange(from as int, k as int),
        decreases to - k,
    {
        out.push(s[k]);
        assert(s@.subrange(from as int, k + 1) =~= s@.subrange(from as int, k as int).push(s@[k as int]));
        k = k + 1;
    }
}

/// Decodes a chunked byte stream. Malformed input ends the decoding: the
/// result then holds the bytes decoded before the fault.
pub fn decode(s: &[u8]) -> (r: Vec<u8>)
    ensures
        r@ == decode_spec(s@),
{
    let len = s.len();
    let mut out: Vec<u8> = Vec::new();
    let mut pos: usize = 0;
    loop
        invariant
            len == s@.len(),
            pos <= len,
            out@ + decode_at(s@, pos as int) == decode_spec(s@),
        decreases len - pos,
    {
        // Size line: a run of hexadecimal digits.
        let mut i: usize = pos;
        let mut value: usize = 0;
        let mut over: bool = false;
        while i < len && is_hex_byte(s[i])
            invariant
                len == s@.len(),
                pos <= i <= len,
                hex_end(s@, pos as int) == hex_end(s@, i as int),
                !over ==> value as nat == hex_value(s@.subrange(pos as int, i as int)) && value <= len,
                over ==> hex_value(s@.subrange(pos as int, i as int)) > len,
            decreases len - i,
        {
            let d = hex_byte_value(s[i]);
            let ghost prev = hex_value(s@.subrange(pos as int, i as int));
            assert(s@.subrange(pos as int, i + 1).drop_last() =~= s@.subrange(pos as int, i as int));
            assert(hex_value(s@.subrange(pos as int, i + 1)) == prev * 16 + d);
            if !over {
                if (d as usize) > len || value > (len - d as usize) / 16 {
                    proof {
                        let v = value as int;
                        let l = len as int;
                        let dd = d as int;
                        if dd <= l {
                            let q = (l - dd) / 16;
                            assert(v >= q + 1);
                            assert((l - dd) < (q + 1) * 16);
                            assert(v * 16 >= (q + 1) * 16) by (nonlinear_arith)
                                requires
                                    v >= q + 1,
                            ;
                        }
                    }
                    over = true;
                } else {
                    proof {
                        let v = value as int;
                        let l = len as int;
                        let dd = d as int;
                        let q = (l - dd) / 16;
                        assert(q * 16 <= l - dd);
                        assert(v * 16 <= q * 16) by (nonlinear_arith)
                            requires
                                v <= q,
                        ;
                    }
                    value = value * 16 + d as usize;
                }
            } else {
                assert(prev * 16 + d > len) by (nonlinear_arith)
                    requires
                        prev > len,
                ;
            }
            i = i + 1;
        }
        if i == pos {
            assert(decode_at(s@, pos as int) == Seq::<u8>::empty());
            assert(out@ + Seq::<u8>::empty() =~= out@);
            return out;
        }
        let digits_end = i;
        // End of the size line, past any extensions.
        let mut j: usize = digits_end;
        while j < len && len - j > 1 && !(s[j] == CR && s[j + 1] == LF)
            invariant
                len == s@.len(),
                digits_end <= j <= len,
                line_end(s@, digits_end as int) == line_end(s@, j as int),
            decreases len - j,
        {
            j = j + 1;
        }
        if j >= len || len - j <= 1 {
            assert(line_end(s@, j as int) is None);
            assert(out@ + Seq::<u8>::empty() =~= out@);
            return out;
        }
        assert(line_end(s@, j as int) == Some(j as int));
        let start = j + 2;
        if !over && value == 0 {
            assert(out@ + Seq::<u8>::empty() =~= out@);
            return out;
        }
        if over || value > len - start {
            append_range(&mut out, s, start, len);
            assert(out@ + Seq::<u8>::empty() =~= out@);
            return out;
        }
        let end = start + value;
        append_range(&mut out, s, start, end);
        if len - end >= 2 && s[end] == CR && s[end + 1] == LF {
            pos = end + 2;
        } else {
            assert(out@ + Seq::<u8>::empty() =~= out@);
            return out;
        }
    }
}

/// The lowercase hexadecimal digit for `d`.
pub open spec fn hex_digit_byte(d: nat) -> u8 {
    if d < 10 {
        (48 + d) as u8
    } else {
        (87 + d) as u8
    }
}

/// `n` written in lowercase hexadecimal, without leading zeros.
pub open spec fn hex_of(n: nat) -> Seq<u8>
    decreases n,
{
    if n < 16 {
        seq![hex_digit_byte(n)]
    } else {
        hex_of(n / 16).push(hex_digit_byte(n % 16))
    }
}

/// One chunk in the chunked coding: its size line and its data.
pub open spec fn encode_chunk(c: Seq<u8>) -> Seq<u8> {
    hex_of(c.len()) + seq![CR, LF] + c + seq![CR, LF]
}

/// The chunks of a stream in the chunked coding, without the last chunk.
pub open spec fn encode_chunks(cs: Seq<Seq<u8>>) -> Seq<u8>
    decreases cs.len(),
{
    if cs.len() == 0 {
        Seq::empty()
    } else {
        encode_chunk(cs[0]) + encode_chunks(cs.drop_first())
    }
}

/// The last chunk, of size zero, followed by the empty trailer.
pub open spec fn last_chunk() -> Seq<u8> {
    seq![48u8, CR, LF, CR, LF]
}

/// A complete stream in the chunked coding that carries the chunks `cs`.
pub open spec fn encode_stream(cs: Seq<Seq<u8>>) -> Seq<u8> {
    encode_chunks(cs) + last_chunk()
}

proof fn lemma_hex_of(n: nat)
    ensures
        hex_of(n).len() > 0,
        forall|k: int| 0 <= k < hex_of(n).len() ==> #[trigger] is_hex_digit(hex_of(n)[k]),
        hex_value(hex_of(n)) == n,
    decreases n,
{
    if n < 16 {
        assert(hex_of(n).drop_last() =~= Seq::<u8>::empty());
        assert(hex_digit_value(hex_digit_byte(n)) == n);
        assert(hex_value(Seq::<u8>::empty()) == 0);
        assert(hex_value(hex_of(n)) == hex_value(hex_of(n).drop_last()) * 16 + hex_digit_value(hex_of(n).last()));
    } else {
        lemma_hex_of(n / 16);
        assert(hex_of(n).drop_last() =~= hex_of(n / 16));
        assert(hex_digit_value(hex_digit_byte(n % 16)) == n % 16);
        assert(n == (n / 16) * 16 + n % 16);
        assert(hex_value(hex_of(n)) == hex_value(hex_of(n).drop_last()) * 16 + hex_digit_value(hex_of(n).last()));
    }
}

proof fn lemma_hex_end_run(s: Seq<u8>, i: int, k: int)
    requires
        0 <= i <= k < s.len(),
        forall|j: int| i <= j < k ==> #[trigger] is_hex_digit(s[j]),
        !is_hex_digit(s[k]),
    ensures
        hex_end(s, i) == k,
    decreases k - i,
{
    if i < k {
        lemma_hex_end_run(s, i + 1, k);
    }
}

proof fn lemma_decode_chunks_at(s: Seq<u8>, p: int, cs: Seq<Seq<u8>>)
    requires
        0 <= p,
        p + encode_chunks(cs).len() <= s.len(),
        s.subrange(p, p + encode_chunks(cs).len()) == encode_chunks(cs),
        forall|k: int| 0 <= k < cs.len() ==> #[trigger] cs[k].len() > 0,
    ensures
        decode_at(s, p) == cs.flatten() + decode_at(s, p + encode_chunks(cs).len()),
    decreases cs.len(),
{
    if cs.len() == 0 {
        assert(cs.flatten() + decode_at(s, p) =~= decode_at(s, p));
    } else {
        let c = cs[0];
        let rest = cs.drop_first();
        let h = hex_of(c.len());
        let e = encode_chunk(c);
        let hl = h.len() as int;
        let n = c.len() as int;
        assert(cs[0].len() > 0);
        lemma_hex_of(c.len());
        assert(encode_chunks(cs) == e + encode_chunks(rest));
        assert forall|j: int| 0 <= j < e.len() implies s[p + j] == e[j] by {
            assert(s.subrange(p, p + encode_chunks(cs).len())[j] == encode_chunks(cs)[j]);
        }
        assert forall|j: int| p <= j < p + hl implies #[trigger] is_hex_digit(s[j]) by {
            assert(s[p + (j - p)] == e[j - p]);
            assert(e[j - p] == h[j - p]);
        }
        assert(s[p + hl] == e[hl]);
        assert(s[p + hl + 1] == e[hl + 1]);
        lemma_hex_end_run(s, p, p + hl);
        assert(line_end(s, p + hl) == Some(p + hl));
        assert(s.subrange(p, p + hl) =~= h) by {
            assert forall|j: int| 0 <= j < hl implies s.subrange(p, p + hl)[j] == h[j] by {
                assert(s[p + j] == e[j]);
            }
        }
        let start = p + hl + 2;
        assert(s.subrange(start, start + n) =~= c) by {
            assert forall|j: int| 0 <= j < n implies s.subrange(start, start + n)[j] == c[j] by {
                assert(s[p + (hl + 2 + j)] == e[hl + 2 + j]);
            }
        }
        assert(s[start + n] == e[hl + 2 + n]);
        assert(s[start + n + 1] == e[hl + 3 + n]);
        assert(crlf_at(s, start + n));
        assert(decode_at(s, p) == c + decode_at(s, start + n + 2));
        let q = start + n + 2;
        assert(q == p + e.len());
        assert(s.subrange(q, q + encode_chunks(rest).len()) =~= encode_chunks(rest)) by {
            assert forall|j: int| 0 <= j < encode_chunks(rest).len()
                implies s.subrange(q, q + encode_chunks(rest).len())[j] == encode_chunks(rest)[j] by {
                assert(s[p + (e.len() + j)] == encode_chunks(cs)[e.len() + j]);
            }
        }
        assert forall|k: int| 0 <= k < rest.len() implies #[trigger] rest[k].len() > 0 by {
            assert(rest[k] == cs[k + 1]);
        }
        lemma_decode_chunks_at(s, q, rest);
        assert(cs.flatten() == c + rest.flatten());
        assert(decode_at(s, p) =~= cs.flatten() + decode_at(s, p + encode_chunks(cs).len()));
    }
}

/// Decoding a complete chunked stream gives back the data of its chunks, in
/// order; a stream cut off after any chunk gives back the data of the chunks
/// before the cut. Both hold for any split of the data into non-empty chunks.
pub proof fn lemma_decode_round_trip(cs: Seq<Seq<u8>>)
    requires
        forall|k: int| 0 <= k < cs.len() ==> #[trigger] cs[k].len() > 0,
    ensures
        decode_spec(encode_stream(cs)) == cs.flatten(),
        decode_spec(encode_chunks(cs)) == cs.flatten(),
{
    let s = encode_stream(cs);
    let body = encode_chunks(cs);
    let bl = body.len() as int;
    assert(s.subrange(0, bl) =~= body);
    lemma_decode_chunks_at(s, 0, cs);
    assert(s[bl] == 48u8);
    assert(s[bl + 1] == CR);
    assert(hex_end(s, bl + 1) == bl + 1);
    assert(hex_end(s, bl) == bl + 1);
    assert(line_end(s, bl + 1) == Some(bl + 1));
    assert(s.subrange(bl, bl + 1) =~= seq![48u8]);
    assert(seq![48u8].drop_last() =~= Seq::<u8>::empty());
    assert(hex_value(seq![48u8]) == hex_value(seq![48u8].drop_last()) * 16 + hex_digit_value(48u8));
    assert(hex_value(s.subrange(bl, bl + 1)) == 0);
    assert(decode_at(s, bl) == Seq::<u8>::empty());
    assert(cs.flatten() + Seq::<u8>::empty() =~= cs.flatten());
    assert(body.subrange(0, bl) =~= body);
    lemma_decode_chunks_at(body, 0, cs);
    assert(decode_at(body, bl) == Seq::<u8>::empty());
}

/// A stream that holds only the last chunk decodes to nothing.
pub proof fn lemma_decode_empty_stream()
    ensures
        decode_spec(last_chunk()) == Seq::<u8>::empty(),
{
    lemma_decode_round_trip(Seq::empty());
    assert(encode_stream(Seq::empty()) =~= last_chunk());
    assert(Seq::<Seq<u8>>::empty().flatten() == Seq::<u8>::empty());
}

} // verus!
