//! Decoding of raw attribute file contents.
//!
//! Every attribute file is a short line of text.  Hexadecimal attributes
//! carry an optional `0x` prefix and a trailing newline around a run of
//! hexadecimal digits; the NUMA attribute is a signed decimal integer; the
//! flag attributes are a single digit.  Decoding never fails hard: a
//! missing or malformed content leaves the previous (default) value.

use vstd::prelude::*;

verus! {

/// ASCII code of `'0'`.
pub const ASCII_ZERO: u8 = 48;

/// ASCII code of `'9'`.
pub const ASCII_NINE: u8 = 57;

/// ASCII code of `'A'`.
pub const ASCII_UC_A: u8 = 65;

/// ASCII code of `'F'`.
pub const ASCII_UC_F: u8 = 70;

/// ASCII code of `'a'`.
pub const ASCII_LC_A: u8 = 97;

/// ASCII code of `'f'`.
pub const ASCII_LC_F: u8 = 102;

/// ASCII code of `'x'`.
pub const ASCII_LC_X: u8 = 120;

/// ASCII code of the newline.
pub const ASCII_LF: u8 = 10;

/// ASCII code of `'+'`.
pub const ASCII_PLUS: u8 = 43;

/// ASCII code of `'-'`.
pub const ASCII_MINUS: u8 = 45;

/// The content with every leading `"0x"` removed.
pub open spec fn spec_strip_hex_prefixes(s: Seq<u8>) -> Seq<u8>
    decreases s.len(),
{
    if s.len() >= 2 && s[0] == ASCII_ZERO && s[1] == ASCII_LC_X {
        spec_strip_hex_prefixes(s.skip(2))
    } else {
        s
    }
}

/// The content with every trailing newline removed.
pub open spec fn spec_strip_newlines(s: Seq<u8>) -> Seq<u8>
    decreases s.len(),
{
    if s.len() >= 1 && s[s.len() - 1] == ASCII_LF {
        spec_strip_newlines(s.take(s.len() - 1))
    } else {
        s
    }
}

/// The content with the leading `"0x"` runs and the trailing newlines
/// removed.
pub open spec fn spec_trimmed(s: Seq<u8>) -> Seq<u8> {
    spec_strip_newlines(spec_strip_hex_prefixes(s))
}

/// Trims an attribute content: removes every leading `"0x"` and every
/// trailing newline.
pub fn trimmed(content: &Vec<u8>) -> (r: Vec<u8>)
    ensures
        r@ == spec_trimmed(content@),
{
    let n = content.len();
    let mut start: usize = 0;
    proof {
        assert(content@.skip(0) =~= content@);
    }
    while n - start >= 2 && content[start] == ASCII_ZERO && content[start + 1] == ASCII_LC_X
        invariant
            n == content@.len(),
            start <= n,
            spec_strip_hex_prefixes(content@) == spec_strip_hex_prefixes(
                content@.skip(start as int),
            ),
        decreases n - start,
    {
        proof {
            assert(content@.skip(start as int)[0] == ASCII_ZERO);
            assert(content@.skip(start as int)[1] == ASCII_LC_X);
            assert(content@.skip(start as int).skip(2) =~= content@.skip(start + 2));
        }
        start = start + 2;
    }
    proof {
        assert(spec_strip_hex_prefixes(content@.skip(start as int)) == content@.skip(
            start as int,
        ));
    }
    let mut end: usize = n;
    proof {
        assert(content@.skip(start as int) =~= content@.subrange(start as int, end as int));
    }
    while end > start && content[end - 1] == ASCII_LF
        invariant
            n == content@.len(),
            start <= end <= n,
            spec_strip_newlines(content@.skip(start as int)) == spec_strip_newlines(
                content@.subrange(start as int, end as int),
            ),
        decreases end,
    {
        proof {
            let cur = content@.subrange(start as int, end as int);
            assert(cur[cur.len() - 1] == ASCII_LF);
            assert(cur.take(cur.len() - 1) =~= content@.subrange(start as int, end - 1));
        }
        end = end - 1;
    }
    proof {
        let cur = content@.subrange(start as int, end as int);
        assert(spec_strip_newlines(cur) == cur);
    }
    let mut out: Vec<u8> = Vec::new();
    let mut i: usize = start;
    while i < end
        invariant
            start <= i <= end <= n,
            n == content@.len(),
            out@ == content@.subrange(start as int, i as int),
        decreases end - i,
    {
        out.push(content[i]);
        proof {
            assert(out@ =~= content@.subrange(start as int, i + 1));
        }
        i = i + 1;
    }
    proof {
        assert(out@ == spec_trimmed(content@));
    }
    out
}

/// Whether the byte is an ASCII hexadecimal digit.
pub open spec fn is_hex_digit(b: u8) -> bool {
    (ASCII_ZERO <= b && b <= ASCII_NINE) || (ASCII_UC_A <= b && b <= ASCII_UC_F) || (ASCII_LC_A
        <= b && b <= ASCII_LC_F)
}

/// The value of an ASCII hexadecimal digit.
pub open spec fn hex_val(b: u8) -> u8 {
    if ASCII_ZERO <= b && b <= ASCII_NINE {
        (b - ASCII_ZERO) as u8
    } else if ASCII_UC_A <= b && b <= ASCII_UC_F {
        (b - ASCII_UC_A + 10) as u8
    } else {
        (b - ASCII_LC_A + 10) as u8
    }
}

/// Hexadecimal decoding: defined exactly on even-length runs of
/// hexadecimal digits, one byte per digit pair, high digit first.
pub open spec fn spec_hex_decode(s: Seq<u8>) -> Option<Seq<u8>> {
    if s.len() % 2 == 0 && (forall|i: int| 0 <= i < s.len() ==> is_hex_digit(#[trigger] s[i])) {
        Some(
            Seq::new(
                (s.len() / 2) as nat,
                |i: int| (hex_val(s[2 * i]) * 16 + hex_val(s[2 * i + 1])) as u8,
            ),
        )
    } else {
        None
    }
}

/// Relies on `hex::decode`: it succeeds exactly on even-length input made
/// of ASCII hexadecimal digits (either case), and then returns one byte
/// per digit pair, high digit first.
#[verifier::external_body]
pub fn hex_decode(data: &Vec<u8>) -> (r: Option<Vec<u8>>)
    ensures
        match r {
            Some(v) => spec_hex_decode(data@) == Some(v@),
            None => spec_hex_decode(data@) is None,
        },
{
    hex::decode(data.as_slice()).ok()
}

/// The decode of a hexadecimal attribute content: the decoded trimmed
/// content, or nothing if the content is absent or does not decode.
pub open spec fn spec_hex_value(content: Option<Vec<u8>>) -> Option<Seq<u8>> {
    match content {
        None => None,
        Some(c) => spec_hex_decode(spec_trimmed(c@)),
    }
}

/// The new value of a hexadecimal attribute: the decoded trimmed content,
/// or the previous value if the content is absent or does not decode.
pub open spec fn spec_hex_attribute(content: Option<Vec<u8>>, prev: Seq<u8>) -> Seq<u8> {
    match spec_hex_value(content) {
        Some(b) => b,
        None => prev,
    }
}

/// Decodes a hexadecimal attribute content; `None` means the previous
/// value is to be kept.
pub fn hex_value(content: &Option<Vec<u8>>) -> (r: Option<Vec<u8>>)
    ensures
        match r {
            Some(v) => spec_hex_value(*content) == Some(v@),
            None => spec_hex_value(*content) is None,
        },
{
    match content {
        None => None,
        Some(c) => {
            let t = trimmed(c);
            hex_decode(&t)
        },
    }
}

/// The decode of the class attribute content: the decode of the first
/// four trimmed characters (class byte and subclass byte), or nothing if
/// the content is absent, shorter than four characters, or does not
/// decode.
pub open spec fn spec_class_value(content: Option<Vec<u8>>) -> Option<Seq<u8>> {
    match content {
        None => None,
        Some(c) => {
            let t = spec_trimmed(c@);
            if t.len() >= 4 {
                spec_hex_decode(t.take(4))
            } else {
                None
            }
        },
    }
}

/// The new value of the class attribute: the decode of the first four
/// trimmed characters, or the previous value if the content is absent,
/// shorter than four characters, or does not decode.
pub open spec fn spec_class_attribute(content: Option<Vec<u8>>, prev: Seq<u8>) -> Seq<u8> {
    match spec_class_value(content) {
        Some(b) => b,
        None => prev,
    }
}

/// Decodes the class attribute content: exactly the first four trimmed
/// characters count, whatever the file length.  `None` means the previous
/// value is to be kept.
pub fn class_value(content: &Option<Vec<u8>>) -> (r: Option<Vec<u8>>)
    ensures
        match r {
            Some(v) => spec_class_value(*content) == Some(v@),
            None => spec_class_value(*content) is None,
        },
{
    match content {
        None => None,
        Some(c) => {
            let t = trimmed(c);
            if t.len() >= 4 {
                let mut four: Vec<u8> = Vec::new();
                four.push(t[0]);
                four.push(t[1]);
                four.push(t[2]);
                four.push(t[3]);
                proof {
                    assert(four@ =~= spec_trimmed(c@).take(4));
                }
                hex_decode(&four)
            } else {
                None
            }
        },
    }
}

/// The decode of a flag attribute content: the exact content `"0\n"` is
/// `false`, any other present content is `true`, and an absent content
/// decodes to nothing.
pub open spec fn spec_flag_value(content: Option<Vec<u8>>) -> Option<bool> {
    match content {
        None => None,
        Some(c) => Some(!(c@ == seq![ASCII_ZERO, ASCII_LF])),
    }
}

/// The new value of a flag attribute: absent content keeps the previous
/// value, the exact content `"0\n"` is `false`, and any other content is
/// `true`.
pub open spec fn spec_flag_attribute(content: Option<Vec<u8>>, prev: bool) -> bool {
    match spec_flag_value(content) {
        Some(v) => v,
        None => prev,
    }
}

/// Decodes a flag attribute content; `None` means the previous value is
/// to be kept.
pub fn flag_value(content: &Option<Vec<u8>>) -> (r: Option<bool>)
    ensures
        match r {
            Some(v) => spec_flag_value(*content) == Some(v),
            None => spec_flag_value(*content) is None,
        },
{
    match content {
        None => None,
        Some(c) => {
            let is_zero = c.len() == 2 && c[0] == ASCII_ZERO && c[1] == ASCII_LF;
            proof {
                if is_zero {
                    assert(c@ =~= seq![ASCII_ZERO, ASCII_LF]);
                } else {
                    if c@ == seq![ASCII_ZERO, ASCII_LF] {
                        assert(c@.len() == 2);
                        assert(c@[0] == ASCII_ZERO);
                        assert(c@[1] == ASCII_LF);
                    }
                }
            }
            Some(!is_zero)
        },
    }
}

/// The value of a run of ASCII decimal digits, most significant first.
pub open spec fn spec_digits_val(d: Seq<u8>) -> int
    decreases d.len(),
{
    if d.len() == 0 {
        0
    } else {
        spec_digits_val(d.take(d.len() - 1)) * 10 + (d[d.len() - 1] - ASCII_ZERO)
    }
}

/// Whether every byte is an ASCII decimal digit.
pub open spec fn all_digits(d: Seq<u8>) -> bool {
    forall|i: int| 0 <= i < d.len() ==> ASCII_ZERO <= #[trigger] d[i] <= ASCII_NINE
}

/// Signed decimal parsing, as the standard integer parser accepts it: an
/// optional sign, then at least one digit and nothing else, with the value
/// in the range of `isize`.
pub open spec fn spec_parse_isize(s: Seq<u8>) -> Option<int> {
    let negative = s.len() > 0 && s[0] == ASCII_MINUS;
    let signed = s.len() > 0 && (s[0] == ASCII_MINUS || s[0] == ASCII_PLUS);
    let d = if signed {
        s.skip(1)
    } else {
        s
    };
    if d.len() > 0 && all_digits(d) {
        let v = if negative {
            -spec_digits_val(d)
        } else {
            spec_digits_val(d)
        };
        if isize::MIN <= v <= isize::MAX {
            Some(v)
        } else {
            None
        }
    } else {
        None
    }
}

/// A digit run is at least as large as any of its prefixes, as long as no
/// byte is below the code of `'0'`.
proof fn lemma_digits_val_prefix(d: Seq<u8>, k: int)
    requires
        0 <= k <= d.len(),
        forall|i: int| 0 <= i < d.len() ==> ASCII_ZERO <= #[trigger] d[i],
    ensures
        0 <= spec_digits_val(d.take(k)) <= spec_digits_val(d),
    decreases d.len() - k,
{
    if k == d.len() {
        assert(d.take(k) =~= d);
        lemma_digits_val_nonneg(d);
    } else {
        lemma_digits_val_prefix(d, k + 1);
        let p = d.take(k + 1);
        assert(p.take(p.len() - 1) =~= d.take(k));
        lemma_digits_val_nonneg(d.take(k));
        assert(spec_digits_val(p) == spec_digits_val(d.take(k)) * 10 + (p[p.len() - 1]
            - ASCII_ZERO));
    }
}

/// The extreme values of `isize` are symmetric around zero but for one.
proof fn lemma_isize_min_max()
    ensures
        isize::MIN as int == -(isize::MAX as int) - 1,
{
    vstd::layout::signed_int_min_max_values();
    vstd::arithmetic::power2::lemma_pow2_pos((isize::BITS - 1) as nat);
    if isize::MIN as int >= 0 {
        assert(vstd::math::abs(isize::MIN as int) == isize::MIN as int);
        assert(isize::MIN as int == isize::MAX as int + 1);
        assert(isize::MIN <= isize::MAX);
    }
    assert(vstd::math::abs(isize::MIN as int) == -(isize::MIN as int));
}

/// A digit run's value is never negative, as long as no byte is below the
/// code of `'0'`.
proof fn lemma_digits_val_nonneg(d: Seq<u8>)
    requires
        forall|i: int| 0 <= i < d.len() ==> ASCII_ZERO <= #[trigger] d[i],
    ensures
        spec_digits_val(d) >= 0,
    decreases d.len(),
{
    if d.len() > 0 {
        lemma_digits_val_nonneg(d.take(d.len() - 1));
    }
}

/// Parses a signed decimal integer, returning `None` exactly where the
/// content is not an optionally signed digit run whose value fits `isize`.
pub fn parse_isize(s: &Vec<u8>) -> (r: Option<isize>)
    ensures
        match r {
            Some(v) => spec_parse_isize(s@) == Some(v as int),
            None => spec_parse_isize(s@) is None,
        },
{
    let n = s.len();
    if n == 0 {
        return None;
    }
    let negative = s[0] == ASCII_MINUS;
    let signed = negative || s[0] == ASCII_PLUS;
    let start: usize = if signed {
        1
    } else {
        0
    };
    let ghost d = if signed {
        s@.skip(1)
    } else {
        s@
    };
    if start == n {
        return None;
    }
    let mut acc: i128 = 0;
    let mut i: usize = start;
    proof {
        assert(d.take(0) =~= Seq::<u8>::empty());
    }
    while i < n
        invariant
            start <= i <= n,
            n == s@.len(),
            n > 0,
            negative == (s@[0] == ASCII_MINUS),
            signed == (negative || s@[0] == ASCII_PLUS),
            start == if signed { 1int } else { 0int },
            d == if signed { s@.skip(1) } else { s@ },
            d.len() == n - start,
            forall|j: int| 0 <= j < i - start ==> ASCII_ZERO <= #[trigger] d[j] <= ASCII_NINE,
            acc == spec_digits_val(d.take(i - start)),
            0 <= acc <= isize::MAX as i128 + 1,
        decreases n - i,
    {
        let b = s[i];
        proof {
            assert(d[i - start] == s@[i as int]);
        }
        if b < ASCII_ZERO || b > ASCII_NINE {
            proof {
                assert(!all_digits(d)) by {
                    if all_digits(d) {
                        assert(ASCII_ZERO <= d[i - start] <= ASCII_NINE);
                    }
                }
            }
            return None;
        }
        let next = acc * 10 + (b - ASCII_ZERO) as i128;
        proof {
            assert(d.take(i - start + 1).take(i - start + 1 - 1) =~= d.take(i - start));
            assert(d.take(i - start + 1)[i - start] == d[i - start]);
            assert(next == spec_digits_val(d.take(i - start + 1)));
        }
        if next > isize::MAX as i128 + 1 {
            // The value can only grow with further digits, so it is out of
            // range whatever follows.
            proof {
                lemma_isize_min_max();
                if all_digits(d) {
                    lemma_digits_val_prefix(d, i - start + 1);
                    assert(spec_digits_val(d) >= next);
                }
            }
            return None;
        }
        acc = next;
        i = i + 1;
    }
    proof {
        assert(d.take(n - start) =~= d);
        assert(acc == spec_digits_val(d));
        assert(all_digits(d));
    }
    if negative {
        let v: i128 = -acc;
        proof {
            lemma_isize_min_max();
            assert(isize::MIN as i128 <= v <= 0);
        }
        Some(v as isize)
    } else {
        if acc > isize::MAX as i128 {
            return None;
        }
        Some(acc as isize)
    }
}

/// The parse of the NUMA attribute content: the parsed trimmed content,
/// or nothing if the content is absent or does not parse.
pub open spec fn spec_numa_value(content: Option<Vec<u8>>) -> Option<int> {
    match content {
        None => None,
        Some(c) => spec_parse_isize(spec_trimmed(c@)),
    }
}

/// The new value of the NUMA attribute: the parsed trimmed content, or
/// the previous value if the content is absent or does not parse.
pub open spec fn spec_numa_attribute(content: Option<Vec<u8>>, prev: int) -> int {
    match spec_numa_value(content) {
        Some(v) => v,
        None => prev,
    }
}

/// Parses the NUMA attribute content; `None` means the previous value is
/// to be kept.
pub fn numa_value(content: &Option<Vec<u8>>) -> (r: Option<isize>)
    ensures
        match r {
            Some(v) => spec_numa_value(*content) == Some(v as int),
            None => spec_numa_value(*content) is None,
        },
{
    match content {
        None => None,
        Some(c) => {
            let t = trimmed(c);
            parse_isize(&t)
        },
    }
}

} // verus!
