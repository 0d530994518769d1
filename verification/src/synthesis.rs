//! Construction of the request body sent to the remote speech-synthesis
//! service: a JSON object naming the synthesis model and voice and carrying
//! the translated text as a correctly escaped JSON string.

use vstd::prelude::*;

verus! {

/// One lower-case hexadecimal digit for a value below 16.
pub open spec fn hex_digit(n: u8) -> u8 {
    if n < 10 {
        (48 + n) as u8
    } else {
        (87 + n) as u8
    }
}

/// JSON string escaping of one byte of UTF-8 text: the quote and the
/// backslash are escaped, control bytes become a `\u00XX` escape, and every
/// other byte stands unchanged.
pub open spec fn escape_byte(b: u8) -> Seq<u8> {
    if b == 34 {
        seq![92u8, 34u8]
    } else if b == 92 {
        seq![92u8, 92u8]
    } else if b < 32 {
        seq![92u8, 117u8, 48u8, 48u8, hex_digit(b / 16), hex_digit(b % 16)]
    } else {
        seq![b]
    }
}

/// JSON string escaping of a whole byte sequence, byte by byte.
pub open spec fn json_escape(s: Seq<u8>) -> Seq<u8>
    decreases s.len(),
{
    if s.len() == 0 {
        Seq::empty()
    } else {
        json_escape(s.drop_last()) + escape_byte(s.last())
    }
}

/// The bytes of `{"model":"tts-1","input":"`, which precede the escaped
/// text in the synthesis request body.
pub open spec fn body_prefix() -> Seq<u8> {
    seq![
        123u8, 34u8, 109u8, 111u8, 100u8, 101u8, 108u8, 34u8, 58u8, 34u8, 116u8, 116u8, 115u8,
        45u8, 49u8, 34u8, 44u8, 34u8, 105u8, 110u8, 112u8, 117u8, 116u8, 34u8, 58u8, 34u8,
    ]
}

/// The bytes of `","voice":"alloy"}`, which follow the escaped text in the
/// synthesis request body.
pub open spec fn body_suffix() -> Seq<u8> {
    seq![
        34u8, 44u8, 34u8, 118u8, 111u8, 105u8, 99u8, 101u8, 34u8, 58u8, 34u8, 97u8, 108u8, 108u8,
        111u8, 121u8, 34u8, 125u8,
    ]
}

/// The whole synthesis request body for a piece of translated text.
pub open spec fn synthesis_body(text: Seq<u8>) -> Seq<u8> {
    body_prefix() + json_escape(text) + body_suffix()
}

fn hex_digit_byte(n: u8) -> (r: u8)
    requires
        n < 16,
    ensures
        r == hex_digit(n),
{
    if n < 10 {
        48 + n
    } else {
        87 + n
    }
}

/// Appends the escape of one byte to `out`.
fn push_escaped(out: &mut Vec<u8>, b: u8)
    ensures
        final(out)@ === old(out)@ + escape_byte(b),
{
    if b == 34 {
        out.push(92);
        out.push(34);
    } else if b == 92 {
        out.push(92);
        out.push(92);
    } else if b < 32 {
        out.push(92);
        out.push(117);
        out.push(48);
        out.push(48);
        out.push(hex_digit_byte(b / 16));
        out.push(hex_digit_byte(b % 16));
    } else {
        out.push(b);
    }
    proof {
        assert(out@ =~= old(out)@ + escape_byte(b));
    }
}

fn body_prefix_bytes() -> (r: Vec<u8>)
    ensures
        r@ === body_prefix(),
{
    let mut v: Vec<u8> = Vec::new();
    v.push(123);
    v.push(34);
    v.push(109);
    v.push(111);
    v.push(100);
    v.push(101);
    v.push(108);
    v.push(34);
    v.push(58);
    v.push(34);
    v.push(116);
    v.push(116);
    v.push(115);
    v.push(45);
    v.push(49);
    v.push(34);
    v.push(44);
    v.push(34);
    v.push(105);
    v.push(110);
    v.push(112);
    v.push(117);
    v.push(116);
    v.push(34);
    v.push(58);
    v.push(34);
    proof {
        assert(v@ =~= body_prefix());
    }
    v
}

fn body_suffix_bytes() -> (r: Vec<u8>)
    ensures
        r@ === body_suffix(),
{
    let mut v: Vec<u8> = Vec::new();
    v.push(34);
    v.push(44);
    v.push(34);
    v.push(118);
    v.push(111);
    v.push(105);
    v.push(99);
    v.push(101);
    v.push(34);
    v.push(58);
    v.push(34);
    v.push(97);
    v.push(108);
    v.push(108);
    v.push(111);
    v.push(121);
    v.push(34);
    v.push(125);
    proof {
        assert(v@ =~= body_suffix());
    }
    v
}

/// Escaping one more byte extends the escape of the prefix taken so far.
proof fn lemma_json_escape_step(s: Seq<u8>, i: int)
    requires
        0 <= i < s.len(),
    ensures
        json_escape(s.take(i + 1)) === json_escape(s.take(i)) + escape_byte(s[i]),
{
    assert(s.take(i + 1).drop_last() =~= s.take(i));
    assert(s.take(i + 1).last() == s[i]);
}

/// Builds the synthesis request body for the given translated text (UTF-8
/// bytes): the fixed JSON frame around the JSON-escaped text.
pub fn synthesis_request_body(text: &[u8]) -> (r: Vec<u8>)
    ensures
        r@ === synthesis_body(text@),
{
    let mut out = body_prefix_bytes();
    proof {
        assert(text@.take(0) =~= Seq::<u8>::empty());
        assert(out@ =~= body_prefix() + json_escape(text@.take(0)));
    }
    let n = text.len();
    let mut i: usize = 0;
    while i < n
        invariant
            n == text@.len(),
            i <= n,
            out@ === body_prefix() + json_escape(text@.take(i as int)),
        decreases n - i,
    {
        let b = text[i];
        push_escaped(&mut out, b);
        proof {
            lemma_json_escape_step(text@, i as int);
            assert(out@ =~= body_prefix() + json_escape(text@.take(i as int + 1)));
        }
        i = i + 1;
    }
    proof {
        assert(text@.take(n as int) =~= text@);
    }
    let mut suffix = body_suffix_bytes();
    out.append(&mut suffix);
    proof {
        assert(out@ =~= synthesis_body(text@));
    }
    out
}

} // verus!
