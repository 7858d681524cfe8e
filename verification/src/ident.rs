use vstd::prelude::*;
use crate::text::{
    all_hex, hex_val, hex_val_seq, hex_digit_char, is_hex_char, nibbles, pow16,
    lemma_nibbles_roundtrip, chars_to_string,
};

verus! {

// Connection identifiers are 128-bit values. On disk and at the
// operation boundary they travel as text: the canonical form is 32
// lower-case hexadecimal digits in five hyphen-separated groups of
// 8, 4, 4, 4 and 12 digits; the plain 32-digit form is also accepted.

/// A connection's unique identifier.
#[derive(Clone, Copy, PartialEq, Eq, Structural, Debug, Hash)]
pub struct ConnectionId {
    pub value: u128,
}

/// Canonical hyphenated rendering of an identifier value.
pub open spec fn canonical_id_chars(v: nat) -> Seq<char> {
    let n = nibbles(v, 32);
    n.subrange(0, 8) + seq!['-'] + n.subrange(8, 12) + seq!['-'] + n.subrange(12, 16)
        + seq!['-'] + n.subrange(16, 20) + seq!['-'] + n.subrange(20, 32)
}

/// The 32 digit characters of a 36-character hyphenated identifier.
pub open spec fn strip_hyphens36(s: Seq<char>) -> Seq<char> {
    s.subrange(0, 8) + s.subrange(9, 13) + s.subrange(14, 18) + s.subrange(19, 23)
        + s.subrange(24, 36)
}

/// Which identifier texts are well-formed, and the value they denote.
pub open spec fn parse_id_chars(s: Seq<char>) -> Option<int> {
    if s.len() == 36 {
        if s[8] == '-' && s[13] == '-' && s[18] == '-' && s[23] == '-'
            && all_hex(strip_hyphens36(s)) {
            Some(hex_val_seq(strip_hyphens36(s)))
        } else {
            None
        }
    } else if s.len() == 32 {
        if all_hex(s) {
            Some(hex_val_seq(s))
        } else {
            None
        }
    } else {
        None
    }
}

pub proof fn lemma_hex_val_seq_bound(s: Seq<char>)
    requires
        all_hex(s),
    ensures
        0 <= hex_val_seq(s) < pow16(s.len()),
    decreases s.len(),
{
    if s.len() == 0 {
    } else {
        let front = s.drop_last();
        assert(all_hex(front));
        lemma_hex_val_seq_bound(front);
        let fv = hex_val_seq(front);
        let d = hex_val(s.last());
        assert(is_hex_char(s.last()));
        assert(0 <= d < 16);
        assert(fv * 16 + d < pow16(front.len()) * 16) by (nonlinear_arith)
            requires
                fv < pow16(front.len()),
                d < 16,
        ;
        assert(pow16(s.len()) == 16 * pow16(front.len()));
    }
}

/// Formatting an identifier and parsing the result gives the
/// identifier back.
pub proof fn lemma_id_roundtrip(v: nat)
    requires
        v < pow16(32),
    ensures
        parse_id_chars(canonical_id_chars(v)) == Some(v as int),
{
    lemma_nibbles_roundtrip(v, 32);
    let n = nibbles(v, 32);
    let s = canonical_id_chars(v);
    assert(s.len() == 36);
    assert(s[8] == '-');
    assert(s[13] == '-');
    assert(s[18] == '-');
    assert(s[23] == '-');
    assert(strip_hyphens36(s) =~= n);
    assert(all_hex(strip_hyphens36(s)));
}

/// Exactly the hexadecimal digit characters, either case.
pub fn is_hex_digit(c: char) -> (r: bool)
    ensures
        r == is_hex_char(c),
{
    ('0' <= c && c <= '9') || ('a' <= c && c <= 'f') || ('A' <= c && c <= 'F')
}

/// Value of one hexadecimal digit character.
pub fn hex_digit_value(c: char) -> (r: u8)
    requires
        is_hex_char(c),
    ensures
        r as int == hex_val(c),
        r < 16,
{
    let n = c as u32;
    if c >= '0' && c <= '9' {
        (n - 48) as u8
    } else if c >= 'a' && c <= 'f' {
        (n - 87) as u8
    } else {
        (n - 55) as u8
    }
}

/// Folds a sequence of hexadecimal digit characters into a value.
fn hex_chars_to_u128(t: &Vec<char>) -> (r: u128)
    requires
        all_hex(t@),
        t@.len() <= 32,
    ensures
        r as int == hex_val_seq(t@),
{
    let mut acc: u128 = 0;
    let mut j: usize = 0;
    proof {
        lemma_pow16_32();
    }
    while j < t.len()
        invariant
            j <= t@.len() <= 32,
            all_hex(t@),
            acc as int == hex_val_seq(t@.subrange(0, j as int)),
            pow16(32) == 0x100000000000000000000000000000000,
        decreases t@.len() - j,
    {
        proof {
            assert(all_hex(t@.subrange(0, j as int)));
            lemma_hex_val_seq_bound(t@.subrange(0, j as int));
            lemma_pow16_le(j as nat, 31);
        }
        let d = hex_digit_value(t[j]);
        proof {
            let pre = t@.subrange(0, j as int);
            let ext = t@.subrange(0, j as int + 1);
            assert(ext.drop_last() == pre);
            assert(hex_val_seq(ext) == hex_val_seq(pre) * 16 + hex_val(t@[j as int]));
        }
        acc = acc * 16 + (d as u128);
        j = j + 1;
    }
    proof {
        assert(t@.subrange(0, t@.len() as int) == t@);
    }
    acc
}

pub proof fn lemma_pow16_32()
    ensures
        pow16(32) == 0x100000000000000000000000000000000,
{
    reveal_with_fuel(pow16, 33);
}

pub proof fn lemma_pow16_le(j: nat, k: nat)
    requires
        j <= k,
    ensures
        pow16(j) <= pow16(k),
    decreases k,
{
    if j < k {
        lemma_pow16_le(j, (k - 1) as nat);
        assert(pow16(k) == 16 * pow16((k - 1) as nat));
    }
}

impl ConnectionId {
    pub fn new(value: u128) -> (r: ConnectionId)
        ensures
            r.value == value,
    {
        ConnectionId { value }
    }

    /// Parses identifier text in either accepted form.
    pub fn parse(s: &str) -> (r: Option<ConnectionId>)
        ensures
            match r {
                Some(id) => parse_id_chars(s@) == Some(id.value as int),
                None => parse_id_chars(s@) is None,
            },
    {
        let len: usize = s.unicode_len();
        let mut t: Vec<char> = Vec::new();
        if len == 36 {
            let mut k: usize = 0;
            while k < 36
                invariant
                    k <= 36,
                    s@.len() == 36,
                    k > 8 ==> s@[8] == '-',
                    k > 13 ==> s@[13] == '-',
                    k > 18 ==> s@[18] == '-',
                    k > 23 ==> s@[23] == '-',
                    all_hex(t@),
                    if k <= 8 {
                        t@ == s@.subrange(0, k as int)
                    } else if k <= 13 {
                        t@ == s@.subrange(0, 8) + s@.subrange(9, if 9 <= k { k as int } else { 9 })
                    } else if k <= 18 {
                        t@ == s@.subrange(0, 8) + s@.subrange(9, 13) + s@.subrange(
                            14,
                            if 14 <= k {
                                k as int
                            } else {
                                14
                            },
                        )
                    } else if k <= 23 {
                        t@ == s@.subrange(0, 8) + s@.subrange(9, 13) + s@.subrange(14, 18)
                            + s@.subrange(19, if 19 <= k { k as int } else { 19 })
                    } else {
                        t@ == s@.subrange(0, 8) + s@.subrange(9, 13) + s@.subrange(14, 18)
                            + s@.subrange(19, 23) + s@.subrange(
                            24,
                            if 24 <= k {
                                k as int
                            } else {
                                24
                            },
                        )
                    },
                decreases 36 - k,
            {
                let c = s.get_char(k);
                if k == 8 || k == 13 || k == 18 || k == 23 {
                    if c != '-' {
                        return None;
                    }
                } else {
                    if !is_hex_digit(c) {
                        proof {
                            if parse_id_chars(s@) is Some {
                                assert(all_hex(strip_hyphens36(s@)));
                                let st = strip_hyphens36(s@);
                                if k < 8 {
                                    assert(st[k as int] == s@[k as int]);
                                } else if k < 13 {
                                    assert(st[k - 1] == s@[k as int]);
                                } else if k < 18 {
                                    assert(st[k - 2] == s@[k as int]);
                                } else if k < 23 {
                                    assert(st[k - 3] == s@[k as int]);
                                } else {
                                    assert(st[k - 4] == s@[k as int]);
                                }
                            }
                        }
                        return None;
                    }
                    let ghost before = t@;
                    t.push(c);
                    proof {
                        assert(t@ == before.push(s@[k as int]));
                    }
                }
                k = k + 1;
                proof {
                    if k <= 8 {
                        assert(t@ =~= s@.subrange(0, k as int));
                    } else if k <= 13 {
                        assert(t@ =~= s@.subrange(0, 8) + s@.subrange(
                            9,
                            if 9 <= k {
                                k as int
                            } else {
                                9
                            },
                        ));
                    } else if k <= 18 {
                        assert(t@ =~= s@.subrange(0, 8) + s@.subrange(9, 13) + s@.subrange(
                            14,
                            if 14 <= k {
                                k as int
                            } else {
                                14
                            },
                        ));
                    } else if k <= 23 {
                        assert(t@ =~= s@.subrange(0, 8) + s@.subrange(9, 13) + s@.subrange(14, 18)
                            + s@.subrange(19, if 19 <= k { k as int } else { 19 }));
                    } else {
                        assert(t@ =~= s@.subrange(0, 8) + s@.subrange(9, 13) + s@.subrange(14, 18)
                            + s@.subrange(19, 23) + s@.subrange(
                            24,
                            if 24 <= k {
                                k as int
                            } else {
                                24
                            },
                        ));
                    }
                }
            }
            proof {
                assert(t@ == strip_hyphens36(s@));
                assert(t@.len() == 32);
            }
            let v = hex_chars_to_u128(&t);
            Some(ConnectionId { value: v })
        } else if len == 32 {
            let mut k: usize = 0;
            while k < 32
                invariant
                    k <= 32,
                    s@.len() == 32,
                    all_hex(t@),
                    t@ == s@.subrange(0, k as int),
                decreases 32 - k,
            {
                let c = s.get_char(k);
                if !is_hex_digit(c) {
                    return None;
                }
                t.push(c);
                k = k + 1;
                proof {
                    assert(t@ =~= s@.subrange(0, k as int));
                }
            }
            proof {
                assert(t@ == s@);
            }
            let v = hex_chars_to_u128(&t);
            Some(ConnectionId { value: v })
        } else {
            None
        }
    }

    /// Canonical hyphenated lower-case rendering.
    pub fn to_canonical_string(&self) -> (r: String)
        ensures
            r@ == canonical_id_chars(self.value as nat),
    {
        let mut hx: Vec<char> = Vec::new();
        let mut m: u128 = self.value;
        let mut j: usize = 0;
        while j < 32
            invariant
                j <= 32,
                nibbles(self.value as nat, 32) == nibbles(m as nat, (32 - j) as nat) + hx@,
                hx@.len() == j,
            decreases 32 - j,
        {
            let d: u8 = (m % 16) as u8;
            let c: char = if d < 10 {
                (48 + d) as char
            } else {
                (87 + d) as char
            };
            let ghost before = hx@;
            hx.insert(0, c);
            proof {
                assert(hx@ == seq![c] + before);
                assert(c == hex_digit_char((m as nat % 16) as int));
                let rem = (32 - j) as nat;
                assert(nibbles(m as nat, rem) == nibbles(m as nat / 16, (rem - 1) as nat).push(c));
                assert(nibbles(m as nat / 16, (rem - 1) as nat).push(c) == nibbles(
                    m as nat / 16,
                    (rem - 1) as nat,
                ) + seq![c]);
                assert(nibbles(m as nat / 16, (rem - 1) as nat) + (seq![c] + before) == (nibbles(
                    m as nat / 16,
                    (rem - 1) as nat,
                ) + seq![c]) + before);
            }
            m = m / 16;
            j = j + 1;
        }
        proof {
            assert(nibbles(m as nat, 0) == Seq::<char>::empty());
            assert(Seq::<char>::empty() + hx@ == hx@);
            assert(hx@ == nibbles(self.value as nat, 32));
        }
        let mut out: Vec<char> = Vec::new();
        push_char_range(&mut out, &hx, 0, 8);
        out.push('-');
        push_char_range(&mut out, &hx, 8, 12);
        out.push('-');
        push_char_range(&mut out, &hx, 12, 16);
        out.push('-');
        push_char_range(&mut out, &hx, 16, 20);
        out.push('-');
        push_char_range(&mut out, &hx, 20, 32);
        proof {
            let n = nibbles(self.value as nat, 32);
            assert(out@ =~= canonical_id_chars(self.value as nat));
        }
        chars_to_string(&out)
    }
}

/// Appends the characters of `src[a..b]` to `out`.
fn push_char_range(out: &mut Vec<char>, src: &Vec<char>, a: usize, b: usize)
    requires
        a <= b <= old(out)@.len() + src@.len(),
        b <= src@.len(),
    ensures
        final(out)@ == old(out)@ + src@.subrange(a as int, b as int),
{
    let mut k: usize = a;
    while k < b
        invariant
            a <= k <= b <= src@.len(),
            out@ == old(out)@ + src@.subrange(a as int, k as int),
        decreases b - k,
    {
        out.push(src[k]);
        k = k + 1;
        proof {
            assert(out@ =~= old(out)@ + src@.subrange(a as int, k as int));
        }
    }
}

} // verus!
