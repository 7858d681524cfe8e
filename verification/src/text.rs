use vstd::prelude::*;

verus! {

// Character-level helpers shared by the identifier, MAC and record codecs:
// decimal and hexadecimal digits, string building, and ASCII upper-casing.

pub open spec fn is_digit_char(c: char) -> bool {
    '0' <= c && c <= '9'
}

pub open spec fn digit_val(c: char) -> int {
    c as int - '0' as int
}

pub open spec fn digit_char(d: int) -> char {
    ((48 + d) as u8) as char
}

pub open spec fn all_digits(s: Seq<char>) -> bool {
    forall|i: int| 0 <= i < s.len() ==> is_digit_char(#[trigger] s[i])
}

/// Numeric value of a sequence of decimal digit characters, most
/// significant first.
pub open spec fn dec_val(s: Seq<char>) -> int
    decreases s.len(),
{
    if s.len() == 0 {
        0
    } else {
        dec_val(s.drop_last()) * 10 + digit_val(s.last())
    }
}

/// Decimal rendering of a natural number, without leading zeros.
pub open spec fn dec_str(n: nat) -> Seq<char>
    decreases n,
{
    if n < 10 {
        seq![digit_char(n as int)]
    } else {
        dec_str(n / 10).push(digit_char((n % 10) as int))
    }
}

pub proof fn lemma_dec_str_digits(n: nat)
    ensures
        all_digits(dec_str(n)),
        dec_str(n).len() >= 1,
        dec_val(dec_str(n)) == n,
    decreases n,
{
    if n < 10 {
        assert(dec_str(n) == seq![digit_char(n as int)]);
        assert(dec_val(dec_str(n)) == dec_val(seq![digit_char(n as int)].drop_last()) * 10
            + digit_val(digit_char(n as int)));
    } else {
        lemma_dec_str_digits(n / 10);
        let s = dec_str(n);
        assert(s.drop_last() == dec_str(n / 10));
        assert(dec_val(s) == dec_val(dec_str(n / 10)) * 10 + digit_val(digit_char((n % 10) as int)));
        assert(digit_val(digit_char((n % 10) as int)) == n % 10);
        assert(forall|i: int|
            0 <= i < s.len() ==> is_digit_char(#[trigger] s[i])) by {
            assert(forall|i: int|
                0 <= i < s.len() - 1 ==> s[i] == #[trigger] dec_str(n / 10)[i]);
        }
    }
}

pub proof fn lemma_dec_val_nonneg(s: Seq<char>)
    requires
        all_digits(s),
    ensures
        dec_val(s) >= 0,
    decreases s.len(),
{
    if s.len() > 0 {
        assert(all_digits(s.drop_last()));
        lemma_dec_val_nonneg(s.drop_last());
    }
}

/// Extending a digit string on the right never decreases its value.
pub proof fn lemma_dec_val_prefix_le(s: Seq<char>, i: int)
    requires
        all_digits(s),
        0 <= i <= s.len(),
    ensures
        dec_val(s.subrange(0, i)) <= dec_val(s),
    decreases s.len() - i,
{
    if i < s.len() {
        let t = s.subrange(0, i + 1);
        assert(t.drop_last() == s.subrange(0, i));
        assert(all_digits(s.subrange(0, i)));
        lemma_dec_val_nonneg(s.subrange(0, i));
        assert(is_digit_char(s[i]));
        assert(dec_val(t) == dec_val(s.subrange(0, i)) * 10 + digit_val(s[i]));
        lemma_dec_val_prefix_le(s, i + 1);
        assert(s.subrange(0, s.len() as int) == s);
    } else {
        assert(s.subrange(0, i) == s);
    }
}

/// A digit string together with an upper bound on the value it may denote.
pub open spec fn spec_parse_dec(s: Seq<char>, bound: int) -> Option<int> {
    if s.len() > 0 && all_digits(s) && dec_val(s) <= bound {
        Some(dec_val(s))
    } else {
        None
    }
}

/// Parses the suffix of `s` starting at `from` as an unsigned decimal
/// number of value at most `bound`.
pub fn parse_dec_bounded(s: &str, from: usize, bound: u64) -> (r: Option<u64>)
    requires
        from as int <= s@.len(),
        bound <= 0x1_0000_0000u64,
    ensures
        match r {
            Some(v) => spec_parse_dec(s@.subrange(from as int, s@.len() as int), bound as int)
                == Some(v as int),
            None => spec_parse_dec(s@.subrange(from as int, s@.len() as int), bound as int)
                is None,
        },
{
    let ghost whole = s@.subrange(from as int, s@.len() as int);
    let len: usize = s.unicode_len();
    if from >= len {
        return None;
    }
    let mut acc: u64 = 0;
    let mut k: usize = from;
    while k < len
        invariant
            from <= k <= len,
            len as int == s@.len(),
            from < len,
            whole == s@.subrange(from as int, s@.len() as int),
            acc <= bound,
            bound <= 0x1_0000_0000u64,
            all_digits(s@.subrange(from as int, k as int)),
            acc as int == dec_val(s@.subrange(from as int, k as int)),
        decreases len - k,
    {
        let c = s.get_char(k);
        if c < '0' || c > '9' {
            proof {
                assert(whole[k - from] == s@[k as int]);
                assert(!is_digit_char(whole[k - from]));
            }
            return None;
        }
        let d: u32 = (c as u32) - 48;
        proof {
            let pre = s@.subrange(from as int, k as int);
            let ext = s@.subrange(from as int, k as int + 1);
            assert(ext.drop_last() == pre);
            assert(is_digit_char(ext.last()));
            assert(forall|i: int| 0 <= i < ext.len() - 1 ==> ext[i] == #[trigger] pre[i]);
            assert(dec_val(ext) == acc * 10 + d);
        }
        acc = acc * 10 + (d as u64);
        k = k + 1;
        if acc > bound {
            proof {
                let done = s@.subrange(from as int, k as int);
                if all_digits(whole) {
                    assert(forall|i: int|
                        0 <= i < done.len() ==> #[trigger] done[i] == whole[i]);
                    assert(whole.subrange(0, k - from) == done);
                    lemma_dec_val_prefix_le(whole, k - from);
                }
            }
            return None;
        }
    }
    proof {
        assert(s@.subrange(from as int, len as int) == whole);
    }
    Some(acc)
}

/// Builds a `String` from a vector of characters.
pub fn chars_to_string(v: &Vec<char>) -> (r: String)
    ensures
        r@ == v@,
{
    let mut r = String::new();
    let mut k: usize = 0;
    while k < v.len()
        invariant
            k <= v.len(),
            r@ == v@.subrange(0, k as int),
        decreases v.len() - k,
    {
        push_char(&mut r, v[k]);
        k = k + 1;
        proof {
            assert(v@.subrange(0, k as int) == v@.subrange(0, k as int - 1).push(v@[k - 1]));
        }
    }
    proof {
        assert(v@.subrange(0, v@.len() as int) == v@);
    }
    r
}

/// Relies on `String::push` from std: appends exactly one character.
#[verifier::external_body]
pub fn push_char(s: &mut String, c: char)
    ensures
        final(s)@ == old(s)@.push(c),
{
    s.push(c);
}

/// Decimal rendering of a 64-bit unsigned number.
pub fn u64_to_string(n: u64) -> (r: String)
    ensures
        r@ == dec_str(n as nat),
{
    let mut digits: Vec<char> = Vec::new();
    let mut m: u64 = n;
    loop
        invariant_except_break
            digits@.len() == 0 ==> m == n,
            digits@.len() > 0 ==> m > 0 && dec_str(n as nat) == dec_str(m as nat) + digits@,
        ensures
            dec_str(n as nat) == digits@,
        decreases m,
    {
        let d: u64 = m % 10;
        let c: char = ((48 + d) as u8) as char;
        let ghost before = digits@;
        digits.insert(0, c);
        proof {
            assert(digits@ == seq![c] + before);
            assert(c == digit_char((m as nat % 10) as int));
            if m >= 10 {
                assert(dec_str(m as nat) == dec_str(m as nat / 10).push(c));
                assert(dec_str(m as nat / 10).push(c) == dec_str(m as nat / 10) + seq![c]);
                if before.len() > 0 {
                    assert(dec_str(n as nat) == dec_str(m as nat) + before);
                    assert(dec_str(m as nat / 10) + (seq![c] + before) == (dec_str(m as nat / 10)
                        + seq![c]) + before);
                }
            } else {
                assert(dec_str(m as nat) == seq![c]);
                if before.len() > 0 {
                    assert(dec_str(n as nat) == dec_str(m as nat) + before);
                    assert(seq![c] + before == dec_str(m as nat) + before);
                } else {
                    assert(dec_str(n as nat) == seq![c]);
                }
            }
        }
        m = m / 10;
        if m == 0 {
            break;
        }
    }
    chars_to_string(&digits)
}

pub proof fn lemma_parse_dec_str(n: nat, bound: int)
    requires
        n <= bound,
    ensures
        spec_parse_dec(dec_str(n), bound) == Some(n as int),
{
    lemma_dec_str_digits(n);
}

/// Signed decimal text: an optional leading minus sign before the digits.
pub open spec fn spec_i32_text(v: int) -> Seq<char> {
    if v < 0 {
        seq!['-'] + dec_str((-v) as nat)
    } else {
        dec_str(v as nat)
    }
}

pub open spec fn spec_parse_i32(s: Seq<char>) -> Option<int> {
    if s.len() > 0 && s[0] == '-' {
        match spec_parse_dec(s.subrange(1, s.len() as int), 0x8000_0000) {
            Some(v) => Some(-v),
            None => None,
        }
    } else {
        spec_parse_dec(s, 0x7fff_ffff)
    }
}

pub fn parse_i32_text(s: &str) -> (r: Option<i32>)
    ensures
        match r {
            Some(v) => spec_parse_i32(s@) == Some(v as int),
            None => spec_parse_i32(s@) is None,
        },
{
    let len: usize = s.unicode_len();
    if len == 0 {
        return None;
    }
    if s.get_char(0) == '-' {
        match parse_dec_bounded(s, 1, 0x8000_0000) {
            Some(v) => Some((0i64 - (v as i64)) as i32),
            None => None,
        }
    } else {
        match parse_dec_bounded(s, 0, 0x7fff_ffff) {
            Some(v) => {
                proof {
                    assert(s@.subrange(0, s@.len() as int) == s@);
                }
                Some(v as i32)
            },
            None => {
                proof {
                    assert(s@.subrange(0, s@.len() as int) == s@);
                }
                None
            },
        }
    }
}

pub fn i32_to_string(n: i32) -> (r: String)
    ensures
        r@ == spec_i32_text(n as int),
{
    if n < 0 {
        let mag: u64 = (0i64 - (n as i64)) as u64;
        let tail = u64_to_string(mag);
        let mut head = String::new();
        push_char(&mut head, '-');
        proof {
            assert(head@ == seq!['-']);
        }
        head.concat(tail.as_str())
    } else {
        u64_to_string(n as u64)
    }
}

pub proof fn lemma_parse_i32_text(v: int)
    requires
        -0x8000_0000 <= v <= 0x7fff_ffff,
    ensures
        spec_parse_i32(spec_i32_text(v)) == Some(v),
{
    if v < 0 {
        let s = spec_i32_text(v);
        lemma_dec_str_digits((-v) as nat);
        assert(s[0] == '-');
        assert(s.subrange(1, s.len() as int) == dec_str((-v) as nat));
        lemma_parse_dec_str((-v) as nat, 0x8000_0000);
    } else {
        lemma_dec_str_digits(v as nat);
        assert(is_digit_char(spec_i32_text(v)[0]));
        lemma_parse_dec_str(v as nat, 0x7fff_ffff);
    }
}

pub fn parse_u16_text(s: &str) -> (r: Option<u16>)
    ensures
        match r {
            Some(v) => spec_parse_dec(s@, 0xffff) == Some(v as int),
            None => spec_parse_dec(s@, 0xffff) is None,
        },
{
    proof {
        assert(s@.subrange(0, s@.len() as int) == s@);
    }
    match parse_dec_bounded(s, 0, 0xffff) {
        Some(v) => Some(v as u16),
        None => None,
    }
}

pub fn u16_to_string(n: u16) -> (r: String)
    ensures
        r@ == dec_str(n as nat),
{
    u64_to_string(n as u64)
}

// ---- hexadecimal ----

pub open spec fn is_hex_char(c: char) -> bool {
    is_digit_char(c) || ('a' <= c && c <= 'f') || ('A' <= c && c <= 'F')
}

/// Value of one hexadecimal digit character, either case.
pub open spec fn hex_val(c: char) -> int {
    if is_digit_char(c) {
        c as int - '0' as int
    } else if 'a' <= c && c <= 'f' {
        c as int - 'a' as int + 10
    } else {
        c as int - 'A' as int + 10
    }
}

/// Lower-case hexadecimal digit character for a value below 16.
pub open spec fn hex_digit_char(d: int) -> char {
    if d < 10 {
        ((48 + d) as u8) as char
    } else {
        ((87 + d) as u8) as char
    }
}

pub proof fn lemma_hex_digit_roundtrip(d: int)
    requires
        0 <= d < 16,
    ensures
        is_hex_char(hex_digit_char(d)),
        hex_val(hex_digit_char(d)) == d,
{
}

/// Value of a sequence of hexadecimal digit characters, most
/// significant first.
pub open spec fn hex_val_seq(s: Seq<char>) -> int
    decreases s.len(),
{
    if s.len() == 0 {
        0
    } else {
        hex_val_seq(s.drop_last()) * 16 + hex_val(s.last())
    }
}

pub open spec fn all_hex(s: Seq<char>) -> bool {
    forall|i: int| 0 <= i < s.len() ==> is_hex_char(#[trigger] s[i])
}

pub open spec fn pow16(k: nat) -> nat
    decreases k,
{
    if k == 0 {
        1
    } else {
        16 * pow16((k - 1) as nat)
    }
}

/// Fixed-width lower-case hexadecimal rendering of `v`, `k` digits,
/// most significant first.
pub open spec fn nibbles(v: nat, k: nat) -> Seq<char>
    decreases k,
{
    if k == 0 {
        Seq::empty()
    } else {
        nibbles(v / 16, (k - 1) as nat).push(hex_digit_char((v % 16) as int))
    }
}

pub proof fn lemma_nibbles_roundtrip(v: nat, k: nat)
    requires
        v < pow16(k),
    ensures
        nibbles(v, k).len() == k,
        all_hex(nibbles(v, k)),
        hex_val_seq(nibbles(v, k)) == v,
    decreases k,
{
    if k == 0 {
        assert(v == 0);
    } else {
        assert(pow16(k) == 16 * pow16((k - 1) as nat));
        assert(v / 16 < pow16((k - 1) as nat)) by (nonlinear_arith)
            requires
                v < 16 * pow16((k - 1) as nat),
        ;
        lemma_nibbles_roundtrip(v / 16, (k - 1) as nat);
        let s = nibbles(v, k);
        assert(s.drop_last() == nibbles(v / 16, (k - 1) as nat));
        lemma_hex_digit_roundtrip((v % 16) as int);
        assert(forall|i: int|
            0 <= i < s.len() - 1 ==> s[i] == #[trigger] nibbles(v / 16, (k - 1) as nat)[i]);
        assert(hex_val_seq(s) == (v / 16) * 16 + (v % 16));
    }
}

// ---- ASCII upper-casing ----

pub open spec fn upper_char(c: char) -> char {
    if 'a' <= c && c <= 'z' {
        (((c as u32) - 32) as u8) as char
    } else {
        c
    }
}

pub open spec fn upper_chars(s: Seq<char>) -> Seq<char> {
    Seq::new(s.len(), |i: int| upper_char(s[i]))
}

/// Upper-cases the ASCII letters of a string, leaving every other
/// character unchanged.
pub fn to_ascii_uppercase(s: &str) -> (r: String)
    ensures
        r@ == upper_chars(s@),
{
    let len: usize = s.unicode_len();
    let mut out: Vec<char> = Vec::new();
    let mut k: usize = 0;
    while k < len
        invariant
            k <= len,
            len as int == s@.len(),
            out@ == upper_chars(s@).subrange(0, k as int),
        decreases len - k,
    {
        let c = s.get_char(k);
        let u: char = if c >= 'a' && c <= 'z' {
            (((c as u32) - 32) as u8) as char
        } else {
            c
        };
        out.push(u);
        k = k + 1;
        proof {
            assert(out@ == upper_chars(s@).subrange(0, k as int));
        }
    }
    proof {
        assert(upper_chars(s@).subrange(0, len as int) == upper_chars(s@));
    }
    chars_to_string(&out)
}

} // verus!
