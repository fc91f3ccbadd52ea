//! Byte encodings: integers as bytes, hexadecimal text and base64 text.
use base64::Engine;
use vstd::arithmetic::power::{lemma_pow0, lemma_pow1, lemma_pow_adds, lemma_pow_increases, pow};
use vstd::prelude::*;

verus! {

/// The integer that a big-endian byte string stands for.
pub open spec fn be_value(bytes: Seq<u8>) -> nat
    decreases bytes.len(),
{
    if bytes.len() == 0 {
        0
    } else {
        be_value(bytes.drop_last()) * 256 + bytes.last() as nat
    }
}

/// The integer that a little-endian byte string stands for.
pub open spec fn le_value(bytes: Seq<u8>) -> nat {
    be_value(bytes.reverse())
}

/// The `len` lowest bytes of `n`, most significant first.
pub open spec fn be_bytes(n: nat, len: nat) -> Seq<u8>
    decreases len,
{
    if len == 0 {
        Seq::empty()
    } else {
        be_bytes(n / 256, (len - 1) as nat).push((n % 256) as u8)
    }
}

/// A byte string is the big-endian encoding, at its own length, of the integer it stands for.
/// So two byte strings of one length that stand for one integer are equal.
pub proof fn be_bytes_of_value(bytes: Seq<u8>)
    ensures
        be_bytes(be_value(bytes), bytes.len()) == bytes,
    decreases bytes.len(),
{
    if bytes.len() > 0 {
        let head = bytes.drop_last();
        let last = bytes.last();
        be_bytes_of_value(head);
        let n = be_value(bytes);
        assert(n == be_value(head) * 256 + last as nat);
        assert(n / 256 == be_value(head));
        assert(n % 256 == last as nat);
        assert(be_bytes(n, bytes.len()) =~= bytes);
    } else {
        assert(be_bytes(be_value(bytes), bytes.len()) =~= bytes);
    }
}

/// `be_bytes` yields the number of bytes asked for.
pub proof fn be_bytes_len(n: nat, len: nat)
    ensures
        be_bytes(n, len).len() == len,
    decreases len,
{
    if len > 0 {
        be_bytes_len(n / 256, (len - 1) as nat);
    }
}

/// The bytes of an integer stand for it, if they are enough of them.
pub proof fn be_value_of_bytes(n: nat, len: nat)
    requires
        n < pow(256, len),
    ensures
        be_value(be_bytes(n, len)) == n,
    decreases len,
{
    if len > 0 {
        lemma_pow1(256);
        lemma_pow_adds(256, (len - 1) as nat, 1);
        assert(n / 256 < pow(256, (len - 1) as nat)) by (nonlinear_arith)
            requires
                n < pow(256, (len - 1) as nat) * 256,
        ;
        be_value_of_bytes(n / 256, (len - 1) as nat);
        let head = be_bytes(n / 256, (len - 1) as nat);
        assert(head.push((n % 256) as u8).drop_last() =~= head);
    } else {
        lemma_pow0(256);
    }
}

/// A 64-bit integer in 32 bytes stands for itself.
pub proof fn integer_in_32_bytes(n: u64, res: [u8; 32])
    requires
        call_ensures(u64_to_be_bytes32, (n,), res),
    ensures
        be_value(res@) == n,
{
    sixty_four_bits_fit(n);
}

/// The 32 bytes of a 64-bit integer stand for it.
pub proof fn sixty_four_bits_fit(n: u64)
    ensures
        be_value(be_bytes(n as nat, 32)) == n,
{
    lemma_pow_increases(256, 8, 32);
    assert(pow(256, 8) == 0x1_0000_0000_0000_0000) by {
        reveal_with_fuel(pow, 9);
    }
    be_value_of_bytes(n as nat, 32);
}

/// The digit of a value below sixteen, in lower case.
pub open spec fn hex_digit(d: int) -> char {
    if d < 10 {
        (48 + d) as char
    } else {
        (87 + d) as char
    }
}

/// The value of a hexadecimal digit of either case.
pub open spec fn hex_digit_value(c: char) -> Option<int> {
    let v = c as int;
    if 48 <= v <= 57 {
        Some(v - 48)
    } else if 65 <= v <= 70 {
        Some(v - 55)
    } else if 97 <= v <= 102 {
        Some(v - 87)
    } else {
        None
    }
}

/// The lower-case hexadecimal text of a byte string, two digits a byte.
pub open spec fn hex_text(bytes: Seq<u8>) -> Seq<char> {
    Seq::new(
        2 * bytes.len(),
        |i: int|
            if i % 2 == 0 {
                hex_digit(bytes[i / 2] as int / 16)
            } else {
                hex_digit(bytes[i / 2] as int % 16)
            },
    )
}

/// Whether a text is made of hexadecimal digits alone, an even number of them.
pub open spec fn hex_decodes(text: Seq<char>) -> bool {
    &&& text.len() % 2 == 0
    &&& forall|i: int| 0 <= i < text.len() ==> hex_digit_value(#[trigger] text[i]) is Some
}

/// The bytes that a text of hexadecimal digits stands for.
pub open spec fn hex_bytes(text: Seq<char>) -> Seq<u8> {
    Seq::new(
        text.len() / 2,
        |i: int|
            (16 * hex_digit_value(text[2 * i]).unwrap() + hex_digit_value(
                text[2 * i + 1],
            ).unwrap()) as u8,
    )
}

/// Hexadecimal text decodes to the bytes that it was made from.
pub proof fn hex_round_trip(bytes: Seq<u8>)
    ensures
        hex_decodes(hex_text(bytes)),
        hex_bytes(hex_text(bytes)) == bytes,
{
    let text = hex_text(bytes);
    assert forall|i: int| 0 <= i < text.len() implies hex_digit_value(
        #[trigger] text[i],
    ) is Some by {
        let b = bytes[i / 2] as int;
        assert(0 <= b / 16 < 16 && 0 <= b % 16 < 16);
    }
    assert forall|i: int| 0 <= i < bytes.len() implies hex_bytes(text)[i] == bytes[i] by {
        let b = bytes[i] as int;
        assert(2 * i / 2 == i && (2 * i + 1) / 2 == i && (2 * i + 1) % 2 == 1);
        assert(0 <= b / 16 < 16 && 0 <= b % 16 < 16);
        assert(hex_digit_value(text[2 * i]) == Some(b / 16));
        assert(hex_digit_value(text[2 * i + 1]) == Some(b % 16));
    }
    assert(hex_bytes(text) =~= bytes);
}

/// What the hex crate says of a text that it cannot decode.
pub uninterp spec fn hex_error(text: Seq<char>) -> Seq<char>;

/// Calls `hex::encode`: the text is the lower-case hexadecimal text of the bytes.
#[verifier::external_body]
pub(crate) fn hex_encode(data: &[u8]) -> (text: String)
    ensures
        text@ == hex_text(data@),
{
    hex::encode(data)
}

/// Calls `hex::decode`: it succeeds on an even number of hexadecimal digits of either case,
/// with the bytes they stand for. The message of a failure is a function of the text; it is
/// spelled out here for a text of an odd number of bytes only.
#[verifier::external_body]
pub(crate) fn hex_decode(text: &str) -> (res: Result<Vec<u8>, String>)
    ensures
        match res {
            Ok(bytes) => hex_decodes(text@) && bytes@ == hex_bytes(text@),
            Err(e) => {
                &&& !hex_decodes(text@)
                &&& e@ == hex_error(text@)
                &&& vstd::utf8::encode_utf8(text@).len() % 2 == 1 ==> e@ == "Odd number of digits"@
            },
        },
{
    hex::decode(text).map_err(|e| e.to_string())
}

/// The base64 symbol of a value below sixty-four.
pub open spec fn base64_symbol(v: int) -> char {
    if v < 26 {
        (65 + v) as char
    } else if v < 52 {
        (71 + v) as char
    } else if v < 62 {
        (v - 4) as char
    } else if v == 62 {
        '+'
    } else {
        '/'
    }
}

/// The base64 text of a byte string in the standard alphabet, with padding.
pub open spec fn base64_text(bytes: Seq<u8>) -> Seq<char>
    decreases bytes.len(),
{
    let b0 = bytes[0] as int;
    let b1 = bytes[1] as int;
    let b2 = bytes[2] as int;
    if bytes.len() == 0 {
        Seq::empty()
    } else if bytes.len() == 1 {
        seq![base64_symbol(b0 / 4), base64_symbol(b0 % 4 * 16), '=', '=']
    } else if bytes.len() == 2 {
        seq![
            base64_symbol(b0 / 4),
            base64_symbol(b0 % 4 * 16 + b1 / 16),
            base64_symbol(b1 % 16 * 4),
            '=',
        ]
    } else {
        seq![
            base64_symbol(b0 / 4),
            base64_symbol(b0 % 4 * 16 + b1 / 16),
            base64_symbol(b1 % 16 * 4 + b2 / 64),
            base64_symbol(b2 % 64),
        ] + base64_text(bytes.skip(3))
    }
}

/// The bytes whose base64 text is `text`, if there are any.
pub open spec fn base64_bytes(text: Seq<char>) -> Option<Seq<u8>> {
    if exists|bytes: Seq<u8>| #[trigger] base64_text(bytes) == text {
        Some(choose|bytes: Seq<u8>| #[trigger] base64_text(bytes) == text)
    } else {
        None
    }
}

/// Different values below sixty-four have different symbols, and none of them is the padding.
proof fn base64_symbol_injective(v: int, w: int)
    requires
        0 <= v < 64,
        0 <= w < 64,
    ensures
        base64_symbol(v) == base64_symbol(w) ==> v == w,
        base64_symbol(v) != '=',
{
}

/// Byte strings with equal base64 texts are equal.
pub proof fn base64_text_injective(x: Seq<u8>, y: Seq<u8>)
    requires
        base64_text(x) == base64_text(y),
    ensures
        x == y,
    decreases x.len(),
{
    let s = base64_text(x);
    let t = base64_text(y);
    let (x0, x1, x2) = (x[0] as int, x[1] as int, x[2] as int);
    let (y0, y1, y2) = (y[0] as int, y[1] as int, y[2] as int);
    if x.len() == 0 || y.len() == 0 {
        assert(x.len() > 0 ==> s.len() >= 4);
        assert(y.len() > 0 ==> t.len() >= 4);
        assert(x =~= y);
    } else {
        base64_symbol_injective(x0 / 4, y0 / 4);
        base64_symbol_injective(x1 % 16 * 4, y1 % 16 * 4);
        base64_symbol_injective(x1 % 16 * 4 + x2 / 64, x1 % 16 * 4);
        base64_symbol_injective(y1 % 16 * 4 + y2 / 64, y1 % 16 * 4);
        base64_symbol_injective(x2 % 64, y2 % 64);
        base64_symbol_injective(y2 % 64, x2 % 64);
        assert(s[0] == t[0] && s[1] == t[1] && s[2] == t[2] && s[3] == t[3]);
        if x.len() == 1 {
            assert(y.len() == 1);
            base64_symbol_injective(x0 % 4 * 16, y0 % 4 * 16);
            assert(x0 == y0);
            assert(x =~= y);
        } else {
            assert(y.len() != 1);
            base64_symbol_injective(x0 % 4 * 16 + x1 / 16, y0 % 4 * 16 + y1 / 16);
            assert(0 <= x1 / 16 < 16 && 0 <= y1 / 16 < 16);
            assert(s[0] == base64_symbol(x0 / 4) && t[0] == base64_symbol(y0 / 4));
            assert(s[1] == base64_symbol(x0 % 4 * 16 + x1 / 16));
            assert(t[1] == base64_symbol(y0 % 4 * 16 + y1 / 16));
            assert(x0 / 4 == y0 / 4 && x0 % 4 == y0 % 4 && x1 / 16 == y1 / 16);
            if x.len() == 2 {
                assert(y.len() == 2);
                assert(x1 == y1);
                assert(x =~= y);
            } else {
                assert(y.len() > 2);
                base64_symbol_injective(x1 % 16 * 4 + x2 / 64, y1 % 16 * 4 + y2 / 64);
                assert(0 <= x2 / 64 < 4 && 0 <= y2 / 64 < 4);
                assert(s[2] == base64_symbol(x1 % 16 * 4 + x2 / 64));
                assert(t[2] == base64_symbol(y1 % 16 * 4 + y2 / 64));
                assert(s[3] == base64_symbol(x2 % 64) && t[3] == base64_symbol(y2 % 64));
                assert(x1 % 16 == y1 % 16 && x2 / 64 == y2 / 64 && x2 % 64 == y2 % 64);
                assert(s.skip(4) =~= base64_text(x.skip(3)));
                assert(t.skip(4) =~= base64_text(y.skip(3)));
                base64_text_injective(x.skip(3), y.skip(3));
                assert forall|i: int| 0 <= i < x.len() implies x.len() == y.len() && x[i]
                    == y[i] by {
                    if i >= 3 {
                        assert(x[i] == x.skip(3)[i - 3]);
                        assert(y[i] == y.skip(3)[i - 3]);
                    }
                }
                assert(x =~= y);
            }
        }
    }
}

/// Base64 text decodes to the bytes that it was made from.
pub proof fn base64_round_trip(bytes: Seq<u8>)
    ensures
        base64_bytes(base64_text(bytes)) == Some(bytes),
{
    let back = choose|other: Seq<u8>| #[trigger] base64_text(other) == base64_text(bytes);
    base64_text_injective(back, bytes);
}

/// Calls `encode` of `base64::engine::general_purpose::STANDARD`: the text is the padded base64
/// text of the bytes in the standard alphabet.
#[verifier::external_body]
pub(crate) fn base64_encode(data: &[u8]) -> (text: String)
    ensures
        text@ == base64_text(data@),
{
    base64::engine::general_purpose::STANDARD.encode(data)
}

/// Calls `decode` of `base64::engine::general_purpose::STANDARD`, which asks for canonical padding
/// and no stray bits: it succeeds on the base64 texts of byte strings alone, with those bytes.
#[verifier::external_body]
fn base64_engine_decode(text: &str) -> (res: Option<Vec<u8>>)
    ensures
        match res {
            Some(bytes) => base64_text(bytes@) == text@,
            None => forall|bytes: Seq<u8>| #[trigger] base64_text(bytes) != text@,
        },
{
    base64::engine::general_purpose::STANDARD.decode(text).ok()
}

/// Decodes base64 text; `None` where it is not the base64 text of any bytes.
pub fn base64_decode(text: &str) -> (res: Option<Vec<u8>>)
    ensures
        match res {
            Some(bytes) => base64_bytes(text@) == Some(bytes@),
            None => base64_bytes(text@) is None,
        },
{
    let res = base64_engine_decode(text);
    proof {
        if res is Some {
            base64_round_trip(res.unwrap()@);
        }
    }
    res
}

/// A 64-bit integer as 32 bytes, most significant first.
pub fn u64_to_be_bytes32(n: u64) -> (res: [u8; 32])
    ensures
        res@ == be_bytes(n as nat, 32),
{
    let mut res: [u8; 32] = [0; 32];
    let mut rest: u64 = n;
    let mut i: usize = 32;
    assert(res@.subrange(32, 32) =~= Seq::<u8>::empty());
    while i > 0
        invariant
            i <= 32,
            be_bytes(n as nat, 32) == be_bytes(rest as nat, i as nat) + res@.subrange(
                i as int,
                32,
            ),
        decreases i,
    {
        let ghost before = res@;
        i -= 1;
        res[i] = (rest % 256) as u8;
        proof {
            let head = be_bytes((rest / 256) as nat, i as nat);
            assert(be_bytes(rest as nat, (i + 1) as nat) == head.push((rest % 256) as u8));
            assert(res@.subrange(i as int, 32) =~= seq![(rest % 256) as u8] + before.subrange(
                i + 1,
                32,
            ));
            assert(head.push((rest % 256) as u8) + before.subrange(i + 1, 32) =~= head
                + res@.subrange(i as int, 32));
        }
        rest = rest / 256;
    }
    assert(be_bytes(rest as nat, 0) + res@.subrange(0, 32) =~= res@);
    res
}

/// Appends `tail` to `bytes`.
pub fn append_bytes(bytes: &mut Vec<u8>, tail: &[u8])
    ensures
        final(bytes)@ == old(bytes)@ + tail@,
{
    bytes.extend_from_slice(tail);
    assert(bytes@ =~= old(bytes)@ + tail@);
}

/// Whether two byte strings are equal.
pub fn bytes_equal(a: &[u8], b: &[u8]) -> (res: bool)
    ensures
        res == (a@ == b@),
{
    if a.len() != b.len() {
        return false;
    }
    let mut i: usize = 0;
    while i < a.len()
        invariant
            i <= a.len(),
            a.len() == b.len(),
            forall|j: int| 0 <= j < i ==> a@[j] == b@[j],
        decreases a.len() - i,
    {
        if a[i] != b[i] {
            return false;
        }
        i += 1;
    }
    assert(a@ =~= b@);
    true
}

} // verus!
