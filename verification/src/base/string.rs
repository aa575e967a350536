use vstd::string::StringSliceAdditionalSpecFns;
use vstd::prelude::*;

verus! {

/// The uppercase hex digit for a value in 0..16.
pub open spec fn upper_hex_digit(d: int) -> char {
    if d == 0 {
        '0'
    } else if d == 1 {
        '1'
    } else if d == 2 {
        '2'
    } else if d == 3 {
        '3'
    } else if d == 4 {
        '4'
    } else if d == 5 {
        '5'
    } else if d == 6 {
        '6'
    } else if d == 7 {
        '7'
    } else if d == 8 {
        '8'
    } else if d == 9 {
        '9'
    } else if d == 10 {
        'A'
    } else if d == 11 {
        'B'
    } else if d == 12 {
        'C'
    } else if d == 13 {
        'D'
    } else if d == 14 {
        'E'
    } else {
        'F'
    }
}

/// A 32-bit value written as exactly eight uppercase hex digits.
pub open spec fn spec_upper_hex8(n: u32) -> Seq<char> {
    seq![
        upper_hex_digit((n as int / 0x10000000) % 16),
        upper_hex_digit((n as int / 0x1000000) % 16),
        upper_hex_digit((n as int / 0x100000) % 16),
        upper_hex_digit((n as int / 0x10000) % 16),
        upper_hex_digit((n as int / 0x1000) % 16),
        upper_hex_digit((n as int / 0x100) % 16),
        upper_hex_digit((n as int / 0x10) % 16),
        upper_hex_digit(n as int % 16),
    ]
}

/// One uppercase hex digit as a one-character string slice.
pub fn upper_hex_nibble(d: u32) -> (r: &'static str)
    requires
        d < 16,
    ensures
        r@.len() == 1,
        r@[0] == upper_hex_digit(d as int),
{
    proof {
        reveal_strlit("0");
        reveal_strlit("1");
        reveal_strlit("2");
        reveal_strlit("3");
        reveal_strlit("4");
        reveal_strlit("5");
        reveal_strlit("6");
        reveal_strlit("7");
        reveal_strlit("8");
        reveal_strlit("9");
        reveal_strlit("A");
        reveal_strlit("B");
        reveal_strlit("C");
        reveal_strlit("D");
        reveal_strlit("E");
        reveal_strlit("F");
    }
    match d {
        0 => "0",
        1 => "1",
        2 => "2",
        3 => "3",
        4 => "4",
        5 => "5",
        6 => "6",
        7 => "7",
        8 => "8",
        9 => "9",
        10 => "A",
        11 => "B",
        12 => "C",
        13 => "D",
        14 => "E",
        _ => "F",
    }
}

/// The lowercase hex digit for a value in 0..16.
pub open spec fn lower_hex_char(d: int) -> char {
    if d == 0 {
        '0'
    } else if d == 1 {
        '1'
    } else if d == 2 {
        '2'
    } else if d == 3 {
        '3'
    } else if d == 4 {
        '4'
    } else if d == 5 {
        '5'
    } else if d == 6 {
        '6'
    } else if d == 7 {
        '7'
    } else if d == 8 {
        '8'
    } else if d == 9 {
        '9'
    } else if d == 10 {
        'a'
    } else if d == 11 {
        'b'
    } else if d == 12 {
        'c'
    } else if d == 13 {
        'd'
    } else if d == 14 {
        'e'
    } else {
        'f'
    }
}

/// A 32-bit value written as exactly eight lowercase hex digits.
pub open spec fn spec_lower_hex8(n: u32) -> Seq<char> {
    seq![
        lower_hex_char((n as int / 0x10000000) % 16),
        lower_hex_char((n as int / 0x1000000) % 16),
        lower_hex_char((n as int / 0x100000) % 16),
        lower_hex_char((n as int / 0x10000) % 16),
        lower_hex_char((n as int / 0x1000) % 16),
        lower_hex_char((n as int / 0x100) % 16),
        lower_hex_char((n as int / 0x10) % 16),
        lower_hex_char(n as int % 16),
    ]
}

/// One lowercase hex digit as a one-character string slice.
pub fn lower_hex_nibble(d: u32) -> (r: &'static str)
    requires
        d < 16,
    ensures
        r@.len() == 1,
        r@[0] == lower_hex_char(d as int),
{
    proof {
        reveal_strlit("0");
        reveal_strlit("1");
        reveal_strlit("2");
        reveal_strlit("3");
        reveal_strlit("4");
        reveal_strlit("5");
        reveal_strlit("6");
        reveal_strlit("7");
        reveal_strlit("8");
        reveal_strlit("9");
        reveal_strlit("a");
        reveal_strlit("b");
        reveal_strlit("c");
        reveal_strlit("d");
        reveal_strlit("e");
        reveal_strlit("f");
    }
    match d {
        0 => "0",
        1 => "1",
        2 => "2",
        3 => "3",
        4 => "4",
        5 => "5",
        6 => "6",
        7 => "7",
        8 => "8",
        9 => "9",
        10 => "a",
        11 => "b",
        12 => "c",
        13 => "d",
        14 => "e",
        _ => "f",
    }
}

/// Write `num` as exactly eight lowercase hex digits with leading zeros:
/// the digit form of every shadow WAL, snapshot and segment name, chosen
/// so the name parsers read back exactly what the formatters write.
pub fn format_hex8_lower(num: u32) -> (s: String)
    ensures
        s@ == spec_lower_hex8(num),
        s@.len() == 8,
{
    let mut s = String::new();
    s.append(lower_hex_nibble(num / 0x10000000 % 16));
    s.append(lower_hex_nibble(num / 0x1000000 % 16));
    s.append(lower_hex_nibble(num / 0x100000 % 16));
    s.append(lower_hex_nibble(num / 0x10000 % 16));
    s.append(lower_hex_nibble(num / 0x1000 % 16));
    s.append(lower_hex_nibble(num / 0x100 % 16));
    s.append(lower_hex_nibble(num / 0x10 % 16));
    s.append(lower_hex_nibble(num % 16));
    proof {
        assert(s@ =~= spec_lower_hex8(num));
    }
    s
}

/// Write `num` as exactly eight uppercase hex digits with leading zeros.
pub fn format_integer_with_leading_zeros(num: u32) -> (s: String)
    ensures
        s@ == spec_upper_hex8(num),
        s@.len() == 8,
{
    let mut s = String::new();
    s.append(upper_hex_nibble(num / 0x10000000 % 16));
    s.append(upper_hex_nibble(num / 0x1000000 % 16));
    s.append(upper_hex_nibble(num / 0x100000 % 16));
    s.append(upper_hex_nibble(num / 0x10000 % 16));
    s.append(upper_hex_nibble(num / 0x1000 % 16));
    s.append(upper_hex_nibble(num / 0x100 % 16));
    s.append(upper_hex_nibble(num / 0x10 % 16));
    s.append(upper_hex_nibble(num % 16));
    proof {
        assert(s@ =~= spec_upper_hex8(num));
    }
    s
}

/// UTF-8 encoding distributes over concatenation.
proof fn lemma_encode_utf8_concat(a: Seq<char>, b: Seq<char>)
    ensures
        vstd::utf8::encode_utf8(a + b) == vstd::utf8::encode_utf8(a) + vstd::utf8::encode_utf8(b),
    decreases a.len(),
{
    if a.len() == 0 {
        assert(a + b =~= b);
        assert(vstd::utf8::encode_utf8(a) =~= Seq::<u8>::empty());
        assert(vstd::utf8::encode_utf8(a + b) =~= vstd::utf8::encode_utf8(a)
            + vstd::utf8::encode_utf8(b));
    } else {
        assert((a + b).drop_first() =~= a.drop_first() + b);
        lemma_encode_utf8_concat(a.drop_first(), b);
        assert(vstd::utf8::encode_utf8(a + b) =~= vstd::utf8::encode_utf8(a)
            + vstd::utf8::encode_utf8(b));
    }
}

/// Masked rendering of a secret, by byte count: everything but the last
/// `unmask_len` bytes is replaced by `"******"`; a short secret is kept
/// whole.
pub open spec fn spec_mask_string(s: Seq<u8>, unmask_len: int) -> Seq<u8> {
    if s.len() <= unmask_len {
        s
    } else {
        "******".spec_bytes() + s.subrange(s.len() - unmask_len, s.len() as int)
    }
}

/// Mask a string by `"******"`, keeping `unmask_len` bytes of suffix. The
/// kept suffix must lie on a character boundary; any other cut would split
/// a code point.
pub fn mask_string(s: &str, unmask_len: usize) -> (r: String)
    requires
        s.spec_bytes().len() <= usize::MAX,
        unmask_len < s.spec_bytes().len() ==> vstd::utf8::is_char_boundary(
            s.spec_bytes(),
            s.spec_bytes().len() - unmask_len,
        ),
    ensures
        vstd::utf8::encode_utf8(r@) == spec_mask_string(s.spec_bytes(), unmask_len as int),
{
    let n = s.len();
    if n <= unmask_len {
        let r = String::from_str(s);
        proof {
            assert(vstd::utf8::encode_utf8(r@) == s.spec_bytes());
        }
        r
    } else {
        let (_, tail) = s.split_at(n - unmask_len);
        let mut ret = String::from_str("******");
        ret.append(tail);
        proof {
            lemma_encode_utf8_concat("******"@, tail@);
            assert(vstd::utf8::encode_utf8(ret@) == "******".spec_bytes() + s.spec_bytes()
                .subrange(s.spec_bytes().len() - unmask_len, s.spec_bytes().len() as int));
        }
        ret
    }
}

/// The rendering `0xHH` of one byte, two uppercase hex digits.
pub open spec fn spec_byte_hex(b: u8) -> Seq<char> {
    seq!['0', 'x', upper_hex_digit(b as int / 16), upper_hex_digit(b as int % 16)]
}

/// All bytes rendered as `0xHH`, joined by single spaces.
pub open spec fn spec_u8_array_as_hex(s: Seq<u8>) -> Seq<char>
    decreases s.len(),
{
    if s.len() == 0 {
        Seq::empty()
    } else if s.len() == 1 {
        spec_byte_hex(s[0])
    } else {
        spec_u8_array_as_hex(s.drop_last()) + seq![' '] + spec_byte_hex(s.last())
    }
}

/// Render a byte array as space-separated `0xHH` pairs.
pub fn u8_array_as_hex(arr: &[u8]) -> (s: String)
    ensures
        s@ == spec_u8_array_as_hex(arr@),
{
    let mut s = String::new();
    let mut i: usize = 0;
    proof {
        assert(arr@.take(0) =~= Seq::<u8>::empty());
    }
    while i < arr.len()
        invariant
            i <= arr@.len(),
            s@ == spec_u8_array_as_hex(arr@.take(i as int)),
        decreases arr@.len() - i,
    {
        if i > 0 {
            s.append(" ");
            proof {
                reveal_strlit(" ");
            }
        }
        let b = arr[i];
        s.append("0x");
        s.append(upper_hex_nibble((b / 16) as u32));
        s.append(upper_hex_nibble((b % 16) as u32));
        proof {
            reveal_strlit("0x");
            assert(arr@.take(i + 1).drop_last() =~= arr@.take(i as int));
            assert(arr@.take(i + 1).last() == arr@[i as int]);
            assert(s@ =~= spec_u8_array_as_hex(arr@.take(i + 1)));
        }
        i = i + 1;
    }
    proof {
        assert(arr@.take(arr@.len() as int) =~= arr@);
    }
    s
}


/// The decimal rendering of `n`, most significant digit first. A decimal
/// digit is the matching hex digit below ten.
pub open spec fn spec_u64_dec(n: u64) -> Seq<char>
    decreases n,
{
    if n < 10 {
        seq![lower_hex_char(n as int)]
    } else {
        spec_u64_dec((n / 10) as u64) + seq![lower_hex_char((n % 10) as int)]
    }
}

/// Write `n` in decimal.
pub fn u64_to_dec_string(n: u64) -> (s: String)
    ensures
        s@ == spec_u64_dec(n),
    decreases n,
{
    if n < 10 {
        String::from_str(lower_hex_nibble(n as u32))
    } else {
        let mut s = u64_to_dec_string(n / 10);
        s.append(lower_hex_nibble((n % 10) as u32));
        proof {
            assert(s@ =~= spec_u64_dec(n));
        }
        s
    }
}

/// Whether two strings have the same characters.
pub fn str_equal(a: &str, b: &str) -> (r: bool)
    ensures
        r == (a@ == b@),
{
    let na = a.unicode_len();
    let nb = b.unicode_len();
    if na != nb {
        return false;
    }
    let mut i: usize = 0;
    while i < na
        invariant
            i <= na,
            na == a@.len(),
            na == b@.len(),
            forall|j: int| 0 <= j < i ==> a@[j] == b@[j],
        decreases na - i,
    {
        if a.get_char(i) != b.get_char(i) {
            return false;
        }
        i = i + 1;
    }
    proof {
        assert(a@ =~= b@);
    }
    true
}

} // verus!
