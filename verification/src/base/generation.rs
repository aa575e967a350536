use vstd::prelude::*;

use crate::base::file::is_lower_hex_digit;
use crate::base::file::all_lower_hex;
use crate::error::Error;

verus! {

/// Whether `c` is a hex digit in either case.
pub open spec fn is_hex_digit(c: char) -> bool {
    is_lower_hex_digit(c) || (65 <= c as int && c as int <= 70)  // 'A' ..= 'F'

}

/// `c` folded to lowercase when it is an uppercase hex digit.
pub open spec fn spec_hex_lower(c: char) -> char {
    if 65 <= c as int && c as int <= 70 {
        ((c as u8) + 32) as char
    } else {
        c
    }
}

/// A generation identifier string: exactly 32 hex digits.
pub open spec fn spec_generation_str_ok(s: Seq<char>) -> bool {
    s.len() == 32 && (forall|i: int| 0 <= i < 32 ==> is_hex_digit(#[trigger] s[i]))
}

/// The identifier of one lineage of WAL frames: a 128-bit time-ordered id
/// rendered as 32 lowercase hex characters. The default value is the empty
/// string, which names no generation.
#[derive(Debug)]
pub struct Generation {
    generation: String,
}

impl View for Generation {
    type V = Seq<char>;

    closed spec fn view(&self) -> Seq<char> {
        self.generation@
    }
}

impl Generation {
    /// Either no generation (empty) or 32 lowercase hex digits.
    pub open spec fn wf(&self) -> bool {
        self@.len() == 0 || (self@.len() == 32 && all_lower_hex(self@, 0, 32))
    }

    /// An empty or all-zero identifier names no generation.
    pub open spec fn spec_is_empty(&self) -> bool {
        self@.len() == 0 || (forall|i: int| 0 <= i < self@.len() ==> #[trigger] self@[i] == '0')
    }

    /// Allocate a fresh time-ordered generation identifier.
    ///
    /// Relies on `uuid::Uuid::new_v7` with the current timestamp and its
    /// `simple` formatter: the result is 32 lowercase hex characters whose
    /// thirteenth character is the version nibble `7`, so it never names
    /// the empty generation.
    #[verifier::external_body]
    pub fn new() -> (r: Generation)
        ensures
            r@.len() == 32,
            all_lower_hex(r@, 0, 32),
            r@[12] == '7',
    {
        let ts = uuid::timestamp::Timestamp::now(uuid::NoContext);
        let u = uuid::Uuid::new_v7(ts);
        Generation { generation: u.as_simple().to_string() }
    }

    /// Build a generation from its 32-hex-digit rendering, folding uppercase
    /// digits to lowercase. Any other string is rejected as a `Uuid` error.
    pub fn try_create(generation: &str) -> (r: Result<Generation, Error>)
        ensures
            (r is Ok) == spec_generation_str_ok(generation@),
            r matches Ok(g) ==> g@ == Seq::new(32, |i: int| spec_hex_lower(generation@[i]))
                && g.wf() && g@.len() == 32,
            r matches Err(e) ==> e is Uuid,
    {
        let n = generation.unicode_len();
        if n != 32 {
            return Err(Error::Uuid(String::from_str("invalid generation id")));
        }
        let mut out = String::new();
        let mut i: usize = 0;
        while i < 32
            invariant
                i <= 32,
                generation@.len() == 32,
                out@.len() == i,
                forall|j: int| 0 <= j < i ==> is_hex_digit(#[trigger] generation@[j]),
                forall|j: int|
                    0 <= j < i ==> #[trigger] out@[j] == spec_hex_lower(generation@[j]),
            decreases 32 - i,
        {
            let c = generation.get_char(i);
            let u = c as u32;
            let lower: u32 = if 65 <= u && u <= 70 {
                u + 32
            } else if (48 <= u && u <= 57) || (97 <= u && u <= 102) {
                u
            } else {
                return Err(Error::Uuid(String::from_str("invalid generation id")));
            };
            let piece: &str = match lower {
                48 => "0",
                49 => "1",
                50 => "2",
                51 => "3",
                52 => "4",
                53 => "5",
                54 => "6",
                55 => "7",
                56 => "8",
                57 => "9",
                97 => "a",
                98 => "b",
                99 => "c",
                100 => "d",
                101 => "e",
                _ => "f",
            };
            proof {
                reveal_strlit("0");
                reveal_strlit("1");
                reveal_strlit("2");
                reveal_strlit("3");
                reveal_strlit("4");
                reveal_strlit("5");
                reveal_strlit("6");
                reveal_strlit("7");
                reveal_strlit("8");
                reveal_strlit("9");
                reveal_strlit("a");
                reveal_strlit("b");
                reveal_strlit("c");
                reveal_strlit("d");
                reveal_strlit("e");
                reveal_strlit("f");
                assert(piece@.len() == 1 && piece@[0] == spec_hex_lower(c));
            }
            out.append(piece);
            i = i + 1;
        }
        let g = Generation { generation: out };
        proof {
            assert(g@ =~= Seq::new(32, |i: int| spec_hex_lower(generation@[i])));
        }
        Ok(g)
    }

    /// The identifier as a string.
    pub fn as_str(&self) -> (r: &str)
        ensures
            r@ == self@,
    {
        self.generation.as_str()
    }

    /// Whether this value names no generation: it is empty or all zeros.
    pub fn is_empty(&self) -> (r: bool)
        ensures
            r == self.spec_is_empty(),
    {
        let n = self.generation.as_str().unicode_len();
        if n == 0 {
            return true;
        }
        let mut i: usize = 0;
        while i < n
            invariant
                i <= n,
                n == self@.len(),
                forall|j: int| 0 <= j < i ==> #[trigger] self@[j] == '0',
            decreases n - i,
        {
            if self.generation.as_str().get_char(i) != '0' {
                return false;
            }
            i = i + 1;
        }
        true
    }

    /// Whether this generation's identifier orders strictly after
    /// `other`'s: identifiers are time-ordered, so the lexicographically
    /// larger of two hex strings is the newer generation.
    pub fn newer_than(&self, other: &Generation) -> (r: bool)
        requires
            self@.len() == other@.len(),
        ensures
            r == spec_lex_gt(self@, other@),
    {
        let n = self.generation.as_str().unicode_len();
        let mut i: usize = 0;
        proof {
            assert(self@.skip(0) =~= self@);
            assert(other@.skip(0) =~= other@);
        }
        while i < n
            invariant
                i <= n,
                n == self@.len(),
                self@.len() == other@.len(),
                forall|j: int| 0 <= j < i ==> #[trigger] self@[j] == other@[j],
                spec_lex_gt(self@, other@) == spec_lex_gt(self@.skip(i as int), other@.skip(
                    i as int,
                )),
            decreases n - i,
        {
            let a = self.generation.as_str().get_char(i);
            let b = other.generation.as_str().get_char(i);
            proof {
                assert(self@.skip(i as int)[0] == self@[i as int]);
                assert(other@.skip(i as int)[0] == other@[i as int]);
                assert(self@.skip(i as int).skip(1) =~= self@.skip(i as int + 1));
                assert(other@.skip(i as int).skip(1) =~= other@.skip(i as int + 1));
            }
            if (a as u32) > (b as u32) {
                return true;
            }
            if (a as u32) < (b as u32) {
                return false;
            }
            i = i + 1;
        }
        proof {
            assert(self@.skip(n as int).len() == 0);
        }
        false
    }
}

/// Strict lexicographic order on equal-length character sequences, compared
/// by code point.
pub open spec fn spec_lex_gt(a: Seq<char>, b: Seq<char>) -> bool
    decreases a.len(),
{
    if a.len() == 0 || b.len() == 0 {
        false
    } else if (a[0] as int) > (b[0] as int) {
        true
    } else if (a[0] as int) < (b[0] as int) {
        false
    } else {
        spec_lex_gt(a.skip(1), b.skip(1))
    }
}

impl Default for Generation {
    /// The empty generation.
    fn default() -> (r: Self)
        ensures
            r@.len() == 0,
            r.spec_is_empty(),
            r.wf(),
    {
        Generation { generation: String::new() }
    }
}

impl Clone for Generation {
    /// An exact copy.
    fn clone(&self) -> (r: Self)
        ensures
            r@ == self@,
    {
        Generation { generation: self.generation.clone() }
    }
}

impl PartialEq for Generation {
    /// Generations are equal when their identifier strings are.
    fn eq(&self, other: &Self) -> (r: bool) {
        self.generation == other.generation
    }
}

impl vstd::std_specs::cmp::PartialEqSpecImpl for Generation {
    open spec fn obeys_eq_spec() -> bool {
        true
    }

    open spec fn eq_spec(&self, other: &Self) -> bool {
        self@ == other@
    }
}

} // verus!
