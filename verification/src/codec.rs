//! The spec codec: encodes an ordered operation list to a compact, URL-safe
//! token and decodes it back.
//!
//! Each operation serializes to a self-delimited sub-token: a type tag
//! character, then its fields in a fixed order, numbers as fixed-width
//! (eight-digit) lowercase hexadecimal and fields separated by `_`, a
//! character that appears in no field's representation. The tag determines
//! the sub-token's length, so sub-tokens concatenate without further
//! delimiters, and new tags can be added without changing the encoding of
//! existing tokens. The alphabet (alphanumerics, `_`) is safe for direct
//! embedding as an HTTP path segment.
//!
//! Decoding is strict: an unknown tag, a missing field, a non-hex digit
//! where a number is expected or an unknown filter code fails; there is no
//! partial parse.

use vstd::prelude::*;
use crate::ops::{FilterKind, ImageSpec, Operation};
use crate::errors::ErrorKind;

verus! {

pub open spec fn pow16(w: nat) -> nat
    decreases w,
{
    if w == 0 {
        1
    } else {
        16 * pow16((w - 1) as nat)
    }
}

/// The lowercase hexadecimal digit for a value below 16.
pub open spec fn hex_char(d: nat) -> char {
    if d == 0 {
        '0'
    } else if d == 1 {
        '1'
    } else if d == 2 {
        '2'
    } else if d == 3 {
        '3'
    } else if d == 4 {
        '4'
    } else if d == 5 {
        '5'
    } else if d == 6 {
        '6'
    } else if d == 7 {
        '7'
    } else if d == 8 {
        '8'
    } else if d == 9 {
        '9'
    } else if d == 10 {
        'a'
    } else if d == 11 {
        'b'
    } else if d == 12 {
        'c'
    } else if d == 13 {
        'd'
    } else if d == 14 {
        'e'
    } else {
        'f'
    }
}

pub open spec fn is_hex_char(c: char) -> bool {
    (48 <= c as u32 && c as u32 <= 57) || (97 <= c as u32 && c as u32 <= 102)
}

pub open spec fn hex_val(c: char) -> nat {
    if c as u32 <= 57 {
        (c as u32 - 48) as nat
    } else {
        (c as u32 - 87) as nat
    }
}

pub open spec fn all_hex(s: Seq<char>) -> bool {
    forall|i: int| 0 <= i < s.len() ==> is_hex_char(#[trigger] s[i])
}

/// `n` written in `w` hexadecimal digits, least significant last.
pub open spec fn hex_of(n: nat, w: nat) -> Seq<char>
    decreases w,
{
    if w == 0 {
        Seq::empty()
    } else {
        hex_of(n / 16, (w - 1) as nat).push(hex_char(n % 16))
    }
}

/// The value of a sequence of hexadecimal digits.
pub open spec fn hex_parse(s: Seq<char>) -> nat
    decreases s.len(),
{
    if s.len() == 0 {
        0
    } else {
        hex_parse(s.drop_last()) * 16 + hex_val(s.last())
    }
}

/// The single-character code of a filter kind in the token alphabet.
pub open spec fn filter_char(f: FilterKind) -> char {
    match f {
        FilterKind::Nearest => 'n',
        FilterKind::Triangle => 't',
        FilterKind::CatmullRom => 'c',
        FilterKind::Gaussian => 'g',
        FilterKind::Lanczos3 => 'l',
        FilterKind::Marine => 'm',
        FilterKind::Oceanic => 'o',
        FilterKind::Islands => 'i',
    }
}

pub open spec fn is_filter_char(c: char) -> bool {
    c == 'n' || c == 't' || c == 'c' || c == 'g' || c == 'l' || c == 'm' || c == 'o' || c == 'i'
}

pub open spec fn filter_of_char(c: char) -> FilterKind {
    if c == 'n' {
        FilterKind::Nearest
    } else if c == 't' {
        FilterKind::Triangle
    } else if c == 'c' {
        FilterKind::CatmullRom
    } else if c == 'g' {
        FilterKind::Gaussian
    } else if c == 'l' {
        FilterKind::Lanczos3
    } else if c == 'm' {
        FilterKind::Marine
    } else if c == 'o' {
        FilterKind::Oceanic
    } else {
        FilterKind::Islands
    }
}

/// The sub-token of one operation: a tag, then fixed-width fields
/// separated by `_`.
pub open spec fn encode_op(op: Operation) -> Seq<char> {
    match op {
        Operation::Resize { width, height, filter } => seq!['r'] + hex_of(width as nat, 8) + seq![
            '_',
        ] + hex_of(height as nat, 8) + seq!['_'] + seq![filter_char(filter)],
        Operation::Watermark { x, y } => seq!['w'] + hex_of(x as nat, 8) + seq!['_'] + hex_of(
            y as nat,
            8,
        ),
        Operation::ColorFilter { kind } => seq!['c', filter_char(kind)],
    }
}

/// The token of an operation list: the concatenated sub-tokens, in order.
pub open spec fn encode_ops(ops: Seq<Operation>) -> Seq<char>
    decreases ops.len(),
{
    if ops.len() == 0 {
        Seq::empty()
    } else {
        encode_op(ops[0]) + encode_ops(ops.skip(1))
    }
}

/// The resize operation read from the head of `s` (the first 20 characters).
pub open spec fn resize_head(s: Seq<char>) -> Operation {
    Operation::Resize {
        width: hex_parse(s.subrange(1, 9)) as u32,
        height: hex_parse(s.subrange(10, 18)) as u32,
        filter: filter_of_char(s[19]),
    }
}

pub open spec fn resize_head_ok(s: Seq<char>) -> bool {
    s.len() >= 20 && all_hex(s.subrange(1, 9)) && s[9] == '_' && all_hex(s.subrange(10, 18))
        && s[18] == '_' && is_filter_char(s[19])
}

/// The watermark operation read from the head of `s` (the first 18
/// characters).
pub open spec fn watermark_head(s: Seq<char>) -> Operation {
    Operation::Watermark {
        x: hex_parse(s.subrange(1, 9)) as u32,
        y: hex_parse(s.subrange(10, 18)) as u32,
    }
}

pub open spec fn watermark_head_ok(s: Seq<char>) -> bool {
    s.len() >= 18 && all_hex(s.subrange(1, 9)) && s[9] == '_' && all_hex(s.subrange(10, 18))
}

/// The color filter operation read from the head of `s` (the first 2
/// characters).
pub open spec fn color_filter_head(s: Seq<char>) -> Operation {
    Operation::ColorFilter { kind: filter_of_char(s[1]) }
}

pub open spec fn color_filter_head_ok(s: Seq<char>) -> bool {
    s.len() >= 2 && is_filter_char(s[1])
}

/// The mathematical decoder: a total function from character sequences to
/// either the operation list a token denotes or nothing, for a malformed
/// token. Strict: there is no partial or best-effort parse.
pub open spec fn decode_ops(s: Seq<char>) -> Option<Seq<Operation>>
    decreases s.len(),
{
    if s.len() == 0 {
        Some(Seq::empty())
    } else if s[0] == 'r' {
        if resize_head_ok(s) {
            match decode_ops(s.skip(20)) {
                Some(rest) => Some(seq![resize_head(s)] + rest),
                None => None,
            }
        } else {
            None
        }
    } else if s[0] == 'w' {
        if watermark_head_ok(s) {
            match decode_ops(s.skip(18)) {
                Some(rest) => Some(seq![watermark_head(s)] + rest),
                None => None,
            }
        } else {
            None
        }
    } else if s[0] == 'c' {
        if color_filter_head_ok(s) {
            match decode_ops(s.skip(2)) {
                Some(rest) => Some(seq![color_filter_head(s)] + rest),
                None => None,
            }
        } else {
            None
        }
    } else {
        None
    }
}

proof fn lemma_pow16_pos(w: nat)
    ensures
        pow16(w) >= 1,
    decreases w,
{
    if w > 0 {
        lemma_pow16_pos((w - 1) as nat);
    }
}

proof fn lemma_pow16_mono(a: nat, b: nat)
    requires
        a <= b,
    ensures
        pow16(a) <= pow16(b),
    decreases b,
{
    if a < b {
        lemma_pow16_mono(a, (b - 1) as nat);
        lemma_pow16_pos((b - 1) as nat);
    }
}

proof fn lemma_pow16_8()
    ensures
        pow16(8) == 0x1_0000_0000,
{
    reveal_with_fuel(pow16, 9);
}

/// Any sequence of hexadecimal digits parses below 16 to its length.
proof fn lemma_hex_parse_bound(s: Seq<char>)
    requires
        all_hex(s),
    ensures
        hex_parse(s) < pow16(s.len()),
    decreases s.len(),
{
    if s.len() > 0 {
        assert(all_hex(s.drop_last())) by {
            assert(forall|i: int|
                0 <= i < s.len() - 1 ==> s.drop_last()[i] == #[trigger] s[i]);
        }
        lemma_hex_parse_bound(s.drop_last());
    }
}

/// Fixed-width hexadecimal round trip: writing a value below `16^w` in `w`
/// digits yields `w` hexadecimal characters that parse back to the value.
proof fn lemma_hex_of(n: nat, w: nat)
    requires
        n < pow16(w),
    ensures
        hex_of(n, w).len() == w,
        all_hex(hex_of(n, w)),
        hex_parse(hex_of(n, w)) == n,
    decreases w,
{
    if w == 0 {
    } else {
        let t = hex_of(n / 16, (w - 1) as nat);
        vstd::arithmetic::div_mod::lemma_multiply_divide_lt(n as int, 16, pow16((w - 1) as nat) as int);
        lemma_hex_of(n / 16, (w - 1) as nat);
        let c = hex_char(n % 16);
        assert(is_hex_char(c));
        assert(hex_val(c) == n % 16);
        assert(t.push(c).drop_last() =~= t);
        assert(t.push(c).last() == c);
        assert(all_hex(t.push(c))) by {
            assert(forall|i: int| 0 <= i < t.len() ==> t.push(c)[i] == #[trigger] t[i]);
        }
        assert(hex_parse(t.push(c)) == (n / 16) * 16 + n % 16);
        vstd::arithmetic::div_mod::lemma_fundamental_div_mod(n as int, 16);
    }
}

proof fn lemma_encode_ops_append(s1: Seq<Operation>, s2: Seq<Operation>)
    ensures
        encode_ops(s1 + s2) == encode_ops(s1) + encode_ops(s2),
    decreases s1.len(),
{
    if s1.len() == 0 {
        assert(s1 + s2 =~= s2);
        assert(encode_ops(s1) + encode_ops(s2) =~= encode_ops(s2));
    } else {
        assert((s1 + s2).skip(1) =~= s1.skip(1) + s2);
        lemma_encode_ops_append(s1.skip(1), s2);
        assert((s1 + s2)[0] == s1[0]);
        assert(encode_op(s1[0]) + (encode_ops(s1.skip(1)) + encode_ops(s2)) =~= (encode_op(s1[0])
            + encode_ops(s1.skip(1))) + encode_ops(s2));
    }
}

/// Round trip: decoding the token of any operation list yields exactly that
/// list, for every syntactically valid list (that is, every list at all:
/// every combination of field values is encodable).
pub proof fn lemma_round_trip(ops: Seq<Operation>)
    ensures
        decode_ops(encode_ops(ops)) == Some(ops),
    decreases ops.len(),
{
    lemma_pow16_8();
    if ops.len() == 0 {
    } else {
        lemma_round_trip(ops.skip(1));
        let rest = encode_ops(ops.skip(1));
        let s = encode_ops(ops);
        assert(s == encode_op(ops[0]) + rest);
        match ops[0] {
            Operation::Resize { width, height, filter } => {
                lemma_hex_of(width as nat, 8);
                lemma_hex_of(height as nat, 8);
                let e = encode_op(ops[0]);
                assert(e.len() == 20);
                assert(s[0] == 'r');
                assert(s.subrange(1, 9) =~= hex_of(width as nat, 8));
                assert(s[9] == '_');
                assert(s.subrange(10, 18) =~= hex_of(height as nat, 8));
                assert(s[18] == '_');
                assert(s[19] == filter_char(filter));
                assert(resize_head_ok(s));
                assert(s.skip(20) =~= rest);
                assert(resize_head(s) == ops[0]);
                assert(seq![ops[0]] + ops.skip(1) =~= ops);
            },
            Operation::Watermark { x, y } => {
                lemma_hex_of(x as nat, 8);
                lemma_hex_of(y as nat, 8);
                let e = encode_op(ops[0]);
                assert(e.len() == 18);
                assert(s[0] == 'w');
                assert(s.subrange(1, 9) =~= hex_of(x as nat, 8));
                assert(s[9] == '_');
                assert(s.subrange(10, 18) =~= hex_of(y as nat, 8));
                assert(watermark_head_ok(s));
                assert(s.skip(18) =~= rest);
                assert(watermark_head(s) == ops[0]);
                assert(seq![ops[0]] + ops.skip(1) =~= ops);
            },
            Operation::ColorFilter { kind } => {
                assert(s[0] == 'c');
                assert(s[1] == filter_char(kind));
                assert(color_filter_head_ok(s));
                assert(s.skip(2) =~= rest);
                assert(color_filter_head(s) == ops[0]);
                assert(seq![ops[0]] + ops.skip(1) =~= ops);
            },
        }
    }
}

/// Appends the lowercase hexadecimal digit of a value below 16.
fn append_hex_char(out: &mut String, d: u32)
    requires
        d < 16,
    ensures
        final(out)@ == old(out)@ + seq![hex_char(d as nat)],
{
    proof {
        reveal_strlit("0");
        reveal_strlit("1");
        reveal_strlit("2");
        reveal_strlit("3");
        reveal_strlit("4");
        reveal_strlit("5");
        reveal_strlit("6");
        reveal_strlit("7");
        reveal_strlit("8");
        reveal_strlit("9");
        reveal_strlit("a");
        reveal_strlit("b");
        reveal_strlit("c");
        reveal_strlit("d");
        reveal_strlit("e");
        reveal_strlit("f");
    }
    if d == 0 {
        out.append("0");
    } else if d == 1 {
        out.append("1");
    } else if d == 2 {
        out.append("2");
    } else if d == 3 {
        out.append("3");
    } else if d == 4 {
        out.append("4");
    } else if d == 5 {
        out.append("5");
    } else if d == 6 {
        out.append("6");
    } else if d == 7 {
        out.append("7");
    } else if d == 8 {
        out.append("8");
    } else if d == 9 {
        out.append("9");
    } else if d == 10 {
        out.append("a");
    } else if d == 11 {
        out.append("b");
    } else if d == 12 {
        out.append("c");
    } else if d == 13 {
        out.append("d");
    } else if d == 14 {
        out.append("e");
    } else {
        out.append("f");
    }
    proof {
        assert(final(out)@ =~= old(out)@ + seq![hex_char(d as nat)]);
    }
}

/// Appends `n` as `w` hexadecimal digits, most significant first.
fn append_hex(out: &mut String, n: u32, w: u8)
    requires
        n < pow16(w as nat),
    ensures
        final(out)@ == old(out)@ + hex_of(n as nat, w as nat),
    decreases w,
{
    if w > 0 {
        proof {
            vstd::arithmetic::div_mod::lemma_multiply_divide_lt(
                n as int,
                16,
                pow16((w - 1) as nat) as int,
            );
        }
        append_hex(out, n / 16, w - 1);
        append_hex_char(out, n % 16);
        proof {
            assert(final(out)@ =~= old(out)@ + hex_of(n as nat, w as nat));
        }
    }
}

/// Appends the single-character code of a filter kind.
fn append_filter_char(out: &mut String, f: FilterKind)
    ensures
        final(out)@ == old(out)@ + seq![filter_char(f)],
{
    proof {
        reveal_strlit("n");
        reveal_strlit("t");
        reveal_strlit("c");
        reveal_strlit("g");
        reveal_strlit("l");
        reveal_strlit("m");
        reveal_strlit("o");
        reveal_strlit("i");
    }
    match f {
        FilterKind::Nearest => out.append("n"),
        FilterKind::Triangle => out.append("t"),
        FilterKind::CatmullRom => out.append("c"),
        FilterKind::Gaussian => out.append("g"),
        FilterKind::Lanczos3 => out.append("l"),
        FilterKind::Marine => out.append("m"),
        FilterKind::Oceanic => out.append("o"),
        FilterKind::Islands => out.append("i"),
    }
    proof {
        assert(final(out)@ =~= old(out)@ + seq![filter_char(f)]);
    }
}

/// Appends the sub-token of one operation.
fn append_op(out: &mut String, op: &Operation)
    ensures
        final(out)@ == old(out)@ + encode_op(*op),
{
    proof {
        reveal_strlit("r");
        reveal_strlit("w");
        reveal_strlit("c");
        reveal_strlit("_");
        lemma_pow16_8();
    }
    match op {
        Operation::Resize { width, height, filter } => {
            out.append("r");
            append_hex(out, *width, 8);
            out.append("_");
            append_hex(out, *height, 8);
            out.append("_");
            append_filter_char(out, *filter);
            proof {
                assert(final(out)@ =~= old(out)@ + encode_op(*op));
            }
        },
        Operation::Watermark { x, y } => {
            out.append("w");
            append_hex(out, *x, 8);
            out.append("_");
            append_hex(out, *y, 8);
            proof {
                assert(final(out)@ =~= old(out)@ + encode_op(*op));
            }
        },
        Operation::ColorFilter { kind } => {
            out.append("c");
            append_filter_char(out, *kind);
            proof {
                assert(final(out)@ =~= old(out)@ + encode_op(*op));
            }
        },
    }
}

/// Encodes an operation list as a compact, URL-safe token.
pub fn encode(image_spec: &ImageSpec) -> (token: String)
    ensures
        token@ == encode_ops(image_spec@),
{
    let mut out = String::new();
    let n = image_spec.specs.len();
    let mut i: usize = 0;
    while i < n
        invariant
            n == image_spec@.len(),
            0 <= i <= n,
            out@ == encode_ops(image_spec@.take(i as int)),
        decreases n - i,
    {
        let op = image_spec.specs[i];
        append_op(&mut out, &op);
        proof {
            let pre = image_spec@.take(i as int);
            let one = seq![image_spec@[i as int]];
            reveal_with_fuel(encode_ops, 2);
            assert(pre + one =~= image_spec@.take(i as int + 1));
            lemma_encode_ops_append(pre, one);
            assert(one.skip(1) =~= Seq::<Operation>::empty());
            assert(encode_ops(one) =~= encode_op(image_spec@[i as int]));
        }
        i = i + 1;
    }
    proof {
        assert(image_spec@.take(n as int) =~= image_spec@);
    }
    out
}

spec fn hex_ok(v: Seq<char>, p: int) -> bool {
    all_hex(v.subrange(p, p + 8))
}

/// Reads the eight hexadecimal digits starting at `p`, or reports that some
/// character there is not a hexadecimal digit.
fn parse_hex8(v: &Vec<char>, p: usize) -> (r: Option<u32>)
    requires
        p + 8 <= v@.len(),
    ensures
        hex_ok(v@, p as int) ==> (r matches Some(n) && n as nat == hex_parse(
            v@.subrange(p as int, p as int + 8),
        )),
        !hex_ok(v@, p as int) ==> r is None,
{
    let ghost field = v@.subrange(p as int, p as int + 8);
    let vlen = v.len();
    let mut acc: u64 = 0;
    let mut j: usize = 0;
    while j < 8
        invariant
            vlen == v@.len(),
            p + 8 <= vlen,
            0 <= j <= 8,
            field == v@.subrange(p as int, p as int + 8),
            all_hex(field.take(j as int)),
            acc as nat == hex_parse(field.take(j as int)),
            acc < pow16(j as nat),
        decreases 8 - j,
    {
        proof {
            lemma_pow16_mono(j as nat, 7);
            lemma_pow16_8();
        }
        let c = v[p + j];
        let u = c as u32;
        if !((48 <= u && u <= 57) || (97 <= u && u <= 102)) {
            proof {
                assert(field[j as int] == c);
                assert(!is_hex_char(c));
                assert(!all_hex(field));
            }
            return None;
        }
        let d: u32 = if u <= 57 {
            u - 48
        } else {
            u - 87
        };
        acc = acc * 16 + (d as u64);
        proof {
            let t = field.take(j as int + 1);
            assert(t.drop_last() =~= field.take(j as int));
            assert(t.last() == field[j as int]);
            assert(field[j as int] == c);
            assert(is_hex_char(c) && hex_val(c) == d as nat);
            assert(all_hex(t)) by {
                assert(forall|k: int|
                    0 <= k < j as int ==> t[k] == #[trigger] field.take(j as int)[k]);
            }
        }
        j = j + 1;
    }
    proof {
        assert(field.take(8) =~= field);
        lemma_pow16_8();
    }
    Some(acc as u32)
}

/// How `decode_ops` steps over a well-formed resize sub-token.
proof fn lemma_decode_resize(s: Seq<char>)
    requires
        s.len() > 0,
        s[0] == 'r',
        resize_head_ok(s),
    ensures
        decode_ops(s) == (match decode_ops(s.skip(20)) {
            Some(rest) => Some(seq![resize_head(s)] + rest),
            None => None::<Seq<Operation>>,
        }),
{
}

/// How `decode_ops` steps over a well-formed watermark sub-token.
proof fn lemma_decode_watermark(s: Seq<char>)
    requires
        s.len() > 0,
        s[0] == 'w',
        watermark_head_ok(s),
    ensures
        decode_ops(s) == (match decode_ops(s.skip(18)) {
            Some(rest) => Some(seq![watermark_head(s)] + rest),
            None => None::<Seq<Operation>>,
        }),
{
}

/// How `decode_ops` steps over a well-formed color filter sub-token.
proof fn lemma_decode_color_filter(s: Seq<char>)
    requires
        s.len() > 0,
        s[0] == 'c',
        color_filter_head_ok(s),
    ensures
        decode_ops(s) == (match decode_ops(s.skip(2)) {
            Some(rest) => Some(seq![color_filter_head(s)] + rest),
            None => None::<Seq<Operation>>,
        }),
{
}

/// The still-to-do part of decoding: if the suffix of `whole` from `i` on
/// decodes to `rest`, the whole token decodes to the operations read so far
/// followed by `rest`; if the suffix is malformed the whole token is.
spec fn tail_complete(whole: Seq<char>, i: int, acc: Seq<Operation>) -> bool {
    match decode_ops(whole.skip(i)) {
        Some(rest) => decode_ops(whole) == Some(acc + rest),
        None => decode_ops(whole) is None,
    }
}

/// Copies the characters of a string into a vector.
fn str_to_chars(s: &str) -> (v: Vec<char>)
    ensures
        v@ == s@,
{
    let n = s.unicode_len();
    let mut v: Vec<char> = Vec::new();
    let mut i: usize = 0;
    while i < n
        invariant
            n == s@.len(),
            0 <= i <= n,
            v@ == s@.take(i as int),
        decreases n - i,
    {
        v.push(s.get_char(i));
        proof {
            assert(s@.take(i as int).push(s@[i as int]) =~= s@.take(i as int + 1));
        }
        i = i + 1;
    }
    proof {
        assert(s@.take(n as int) =~= s@);
    }
    v
}

/// Decodes a token. Total: for every input string it terminates and either
/// returns the operation list the token denotes or fails with
/// `ErrorKind::InvalidSpec`; it never returns a partially-populated list.
pub fn decode(token: &str) -> (r: Result<ImageSpec, ErrorKind>)
    ensures
        (match decode_ops(token@) {
            Some(ops) => r matches Ok(s) && s@ == ops,
            None => r == Err::<ImageSpec, ErrorKind>(ErrorKind::InvalidSpec),
        }),
{
    let v = str_to_chars(token);
    let n = v.len();
    let mut acc: Vec<Operation> = Vec::new();
    let mut i: usize = 0;
    proof {
        assert(v@.skip(0) =~= v@);
    }
    while i < n
        invariant
            n == v@.len(),
            v@ == token@,
            0 <= i <= n,
            tail_complete(v@, i as int, acc@),
        decreases n - i,
    {
        let ghost s = v@.skip(i as int);
        proof {
            assert(s.len() == n - i);
            assert(forall|k: int| 0 <= k < s.len() ==> s[k] == #[trigger] v@[i as int + k]);
        }
        let c = v[i];
        if c == 'r' {
            if n - i < 20 {
                proof {
                    assert(decode_ops(s) is None);
                }
                return Err(ErrorKind::InvalidSpec);
            }
            let w = parse_hex8(&v, i + 1);
            let h = parse_hex8(&v, i + 10);
            let sep1 = v[i + 9];
            let sep2 = v[i + 18];
            let fc = v[i + 19];
            let fc_ok = is_filter_char_x(fc);
            proof {
                assert(s.subrange(1, 9) =~= v@.subrange(i as int + 1, i as int + 9));
                assert(s.subrange(10, 18) =~= v@.subrange(i as int + 10, i as int + 18));
                assert(s[9] == v@[i as int + 9] && s[18] == v@[i as int + 18] && s[19] == v@[
                    i as int + 19
                ]);
            }
            match (w, h) {
                (Some(w), Some(h)) => {
                    if sep1 == '_' && sep2 == '_' && fc_ok {
                        let kind = filter_of_char_x(fc);
                        let op = Operation::Resize { width: w, height: h, filter: kind };
                        proof {
                            lemma_decode_resize(s);
                            lemma_hex_parse_bound(s.subrange(1, 9));
                            lemma_hex_parse_bound(s.subrange(10, 18));
                            lemma_pow16_8();
                            assert(op == resize_head(s));
                            assert(s.skip(20) =~= v@.skip(i as int + 20));
                            lemma_tail_step(v@, i as int, acc@, op, 20);
                        }
                        acc.push(op);
                        i = i + 20;
                    } else {
                        proof {
                            assert(!resize_head_ok(s));
                            assert(decode_ops(s) is None);
                        }
                        return Err(ErrorKind::InvalidSpec);
                    }
                },
                _ => {
                    proof {
                        assert(!resize_head_ok(s));
                        assert(decode_ops(s) is None);
                    }
                    return Err(ErrorKind::InvalidSpec);
                },
            }
        } else if c == 'w' {
            if n - i < 18 {
                proof {
                    assert(decode_ops(s) is None);
                }
                return Err(ErrorKind::InvalidSpec);
            }
            let x = parse_hex8(&v, i + 1);
            let y = parse_hex8(&v, i + 10);
            let sep1 = v[i + 9];
            proof {
                assert(s.subrange(1, 9) =~= v@.subrange(i as int + 1, i as int + 9));
                assert(s.subrange(10, 18) =~= v@.subrange(i as int + 10, i as int + 18));
                assert(s[9] == v@[i as int + 9]);
            }
            match (x, y) {
                (Some(x), Some(y)) => {
                    if sep1 == '_' {
                        let op = Operation::Watermark { x, y };
                        proof {
                            lemma_decode_watermark(s);
                            lemma_hex_parse_bound(s.subrange(1, 9));
                            lemma_hex_parse_bound(s.subrange(10, 18));
                            lemma_pow16_8();
                            assert(op == watermark_head(s));
                            assert(s.skip(18) =~= v@.skip(i as int + 18));
                            lemma_tail_step(v@, i as int, acc@, op, 18);
                        }
                        acc.push(op);
                        i = i + 18;
                    } else {
                        proof {
                            assert(!watermark_head_ok(s));
                            assert(decode_ops(s) is None);
                        }
                        return Err(ErrorKind::InvalidSpec);
                    }
                },
                _ => {
                    proof {
                        assert(!watermark_head_ok(s));
                        assert(decode_ops(s) is None);
                    }
                    return Err(ErrorKind::InvalidSpec);
                },
            }
        } else if c == 'c' {
            if n - i < 2 {
                proof {
                    assert(decode_ops(s) is None);
                }
                return Err(ErrorKind::InvalidSpec);
            }
            let fc = v[i + 1];
            proof {
                assert(s[1] == v@[i as int + 1]);
            }
            if is_filter_char_x(fc) {
                let kind = filter_of_char_x(fc);
                let op = Operation::ColorFilter { kind };
                proof {
                    lemma_decode_color_filter(s);
                    assert(op == color_filter_head(s));
                    assert(s.skip(2) =~= v@.skip(i as int + 2));
                    lemma_tail_step(v@, i as int, acc@, op, 2);
                }
                acc.push(op);
                i = i + 2;
            } else {
                proof {
                    assert(!color_filter_head_ok(s));
                    assert(decode_ops(s) is None);
                }
                return Err(ErrorKind::InvalidSpec);
            }
        } else {
            proof {
                assert(decode_ops(s) is None);
            }
            return Err(ErrorKind::InvalidSpec);
        }
    }
    proof {
        assert(v@.skip(n as int) =~= Seq::<char>::empty());
        assert(decode_ops(v@.skip(n as int)) == Some(Seq::<Operation>::empty()));
        assert(acc@ + Seq::<Operation>::empty() =~= acc@);
    }
    Ok(ImageSpec::new(acc))
}

/// Carries `tail_complete` one sub-token forward: reading `op` (whose
/// sub-token spans `step` characters at `i`) extends the operations read so
/// far.
proof fn lemma_tail_step(whole: Seq<char>, i: int, acc: Seq<Operation>, op: Operation, step: int)
    requires
        0 <= i,
        i + step <= whole.len(),
        0 < step,
        tail_complete(whole, i, acc),
        decode_ops(whole.skip(i)) == (match decode_ops(whole.skip(i + step)) {
            Some(rest) => Some(seq![op] + rest),
            None => None::<Seq<Operation>>,
        }),
    ensures
        tail_complete(whole, i + step, acc.push(op)),
{
    match decode_ops(whole.skip(i + step)) {
        Some(rest) => {
            assert(decode_ops(whole.skip(i)) == Some(seq![op] + rest));
            assert(acc + (seq![op] + rest) =~= acc.push(op) + rest);
        },
        None => {
        },
    }
}

fn is_filter_char_x(c: char) -> (r: bool)
    ensures
        r == is_filter_char(c),
{
    c == 'n' || c == 't' || c == 'c' || c == 'g' || c == 'l' || c == 'm' || c == 'o' || c == 'i'
}

fn filter_of_char_x(c: char) -> (r: FilterKind)
    ensures
        r == filter_of_char(c),
{
    if c == 'n' {
        FilterKind::Nearest
    } else if c == 't' {
        FilterKind::Triangle
    } else if c == 'c' {
        FilterKind::CatmullRom
    } else if c == 'g' {
        FilterKind::Gaussian
    } else if c == 'l' {
        FilterKind::Lanczos3
    } else if c == 'm' {
        FilterKind::Marine
    } else if c == 'o' {
        FilterKind::Oceanic
    } else {
        FilterKind::Islands
    }
}

} // verus!
