use vstd::prelude::*;
use crate::text::{chars_to_string, to_ascii_uppercase, upper_chars};
use crate::wol::WolError;

verus! {

// Resolving a host's MAC address consults the operating system's
// ARP cache. One platform family exposes the cache as a
// whitespace-separated table in a pseudo-file; the other answers an
// ARP query command with free-form text. Reading the file or
// running the command is the caller's part; picking the MAC out of
// the text is verified here. The cache only knows hosts the machine
// has talked to recently, so a miss is common and is reported as
// `MacNotFound`.

pub open spec fn is_space_char(c: char) -> bool {
    c == ' ' || c == '\t' || c == '\r'
}

/// Whitespace tokenization as a left fold: the finished tokens and
/// the token still being read.
pub open spec fn ws_fold(s: Seq<char>) -> (Seq<Seq<char>>, Seq<char>)
    decreases s.len(),
{
    if s.len() == 0 {
        (Seq::empty(), Seq::empty())
    } else {
        let (done, cur) = ws_fold(s.drop_last());
        if is_space_char(s.last()) {
            if cur.len() > 0 {
                (done.push(cur), Seq::empty())
            } else {
                (done, cur)
            }
        } else {
            (done, cur.push(s.last()))
        }
    }
}

/// The whitespace-separated tokens of a line.
pub open spec fn spec_tokens(s: Seq<char>) -> Seq<Seq<char>> {
    let (done, cur) = ws_fold(s);
    if cur.len() > 0 {
        done.push(cur)
    } else {
        done
    }
}

/// Splitting into lines as a left fold: the finished lines and the
/// line still being read.
pub open spec fn lines_fold(s: Seq<char>) -> (Seq<Seq<char>>, Seq<char>)
    decreases s.len(),
{
    if s.len() == 0 {
        (Seq::empty(), Seq::empty())
    } else {
        let (done, cur) = lines_fold(s.drop_last());
        if s.last() == '\n' {
            (done.push(cur), Seq::empty())
        } else {
            (done, cur.push(s.last()))
        }
    }
}

/// The lines of a text, the part after the last newline included.
pub open spec fn spec_lines(s: Seq<char>) -> Seq<Seq<char>> {
    let (done, cur) = lines_fold(s);
    done.push(cur)
}

/// Splits a text into its lines.
pub fn split_lines(s: &str) -> (r: Vec<String>)
    ensures
        r@.len() == spec_lines(s@).len(),
        forall|i: int| 0 <= i < r@.len() ==> (#[trigger] r@[i])@ == spec_lines(s@)[i],
{
    let len: usize = s.unicode_len();
    let mut done: Vec<String> = Vec::new();
    let mut cur: Vec<char> = Vec::new();
    let mut k: usize = 0;
    while k < len
        invariant
            k <= len,
            len as int == s@.len(),
            done@.len() == lines_fold(s@.subrange(0, k as int)).0.len(),
            forall|i: int|
                0 <= i < done@.len() ==> (#[trigger] done@[i])@ == lines_fold(
                    s@.subrange(0, k as int),
                ).0[i],
            cur@ == lines_fold(s@.subrange(0, k as int)).1,
        decreases len - k,
    {
        let c = s.get_char(k);
        if c == '\n' {
            done.push(chars_to_string(&cur));
            cur = Vec::new();
        } else {
            cur.push(c);
        }
        k = k + 1;
        proof {
            assert(s@.subrange(0, k as int).drop_last() == s@.subrange(0, k as int - 1));
        }
    }
    proof {
        assert(s@.subrange(0, len as int) == s@);
    }
    done.push(chars_to_string(&cur));
    done
}

/// Splits a line into its whitespace-separated tokens.
pub fn split_tokens(s: &str) -> (r: Vec<String>)
    ensures
        r@.len() == spec_tokens(s@).len(),
        forall|i: int| 0 <= i < r@.len() ==> (#[trigger] r@[i])@ == spec_tokens(s@)[i],
{
    let len: usize = s.unicode_len();
    let mut done: Vec<String> = Vec::new();
    let mut cur: Vec<char> = Vec::new();
    let mut k: usize = 0;
    while k < len
        invariant
            k <= len,
            len as int == s@.len(),
            done@.len() == ws_fold(s@.subrange(0, k as int)).0.len(),
            forall|i: int|
                0 <= i < done@.len() ==> (#[trigger] done@[i])@ == ws_fold(
                    s@.subrange(0, k as int),
                ).0[i],
            cur@ == ws_fold(s@.subrange(0, k as int)).1,
        decreases len - k,
    {
        let c = s.get_char(k);
        if c == ' ' || c == '\t' || c == '\r' {
            if cur.len() > 0 {
                done.push(chars_to_string(&cur));
                cur = Vec::new();
            }
        } else {
            cur.push(c);
        }
        k = k + 1;
        proof {
            assert(s@.subrange(0, k as int).drop_last() == s@.subrange(0, k as int - 1));
        }
    }
    proof {
        assert(s@.subrange(0, len as int) == s@);
    }
    if cur.len() > 0 {
        done.push(chars_to_string(&cur));
    }
    done
}

/// Whether a table line names the IP in its first column and a
/// usable MAC in its fourth: the all-zero MAC means "not yet
/// resolved" and is rejected.
pub open spec fn line_matches_arp(line: Seq<char>, ip: Seq<char>) -> bool {
    let t = spec_tokens(line);
    t.len() >= 4 && t[0] == ip && t[3] != "00:00:00:00:00:00"@
}

/// The fourth column of the first matching table line at or after
/// line `i`.
pub open spec fn arp_scan_from(lines: Seq<Seq<char>>, ip: Seq<char>, i: int) -> Option<Seq<char>>
    decreases lines.len() - i,
{
    if i < 0 || i >= lines.len() {
        None
    } else if line_matches_arp(lines[i], ip) {
        Some(spec_tokens(lines[i])[3])
    } else {
        arp_scan_from(lines, ip, i + 1)
    }
}

/// What an ARP-table lookup returns: the first match below the
/// header line.
pub open spec fn spec_arp_lookup(table: Seq<char>, ip: Seq<char>) -> Option<Seq<char>> {
    arp_scan_from(spec_lines(table), ip, 1)
}

/// Looks an IP address up in ARP-table text as the pseudo-file
/// exposes it: a header line, then one entry per line with the IP
/// in the first column and the MAC in the fourth. The first usable
/// match is returned upper-cased.
pub fn lookup_mac_address(ip: &str, arp_table: &str) -> (r: Result<String, WolError>)
    ensures
        match r {
            Ok(m) => spec_arp_lookup(arp_table@, ip@) matches Some(raw) && m@ == upper_chars(raw),
            Err(e) => spec_arp_lookup(arp_table@, ip@) is None && e == WolError::MacNotFound,
        },
{
    let lines = split_lines(arp_table);
    let ghost sl = spec_lines(arp_table@);
    let ip_text = String::from_str(ip);
    let zero = String::from_str("00:00:00:00:00:00");
    let mut j: usize = 1;
    while j < lines.len()
        invariant
            1 <= j,
            lines@.len() == sl.len(),
            forall|i: int| 0 <= i < sl.len() ==> (#[trigger] lines@[i])@ == sl[i],
            ip_text@ == ip@,
            zero@ == "00:00:00:00:00:00"@,
            sl == spec_lines(arp_table@),
            arp_scan_from(sl, ip@, 1) == arp_scan_from(sl, ip@, j as int),
        decreases lines@.len() - j,
    {
        let tokens = split_tokens(lines[j].as_str());
        if tokens.len() >= 4 && tokens[0] == ip_text && !(tokens[3] == zero) {
            proof {
                assert(line_matches_arp(sl[j as int], ip@));
                assert(arp_scan_from(sl, ip@, j as int) == Some(spec_tokens(sl[j as int])[3]));
            }
            return Ok(to_ascii_uppercase(tokens[3].as_str()));
        }
        j = j + 1;
        proof {
            assert(!line_matches_arp(sl[j - 1], ip@));
            assert(arp_scan_from(sl, ip@, j as int - 1) == arp_scan_from(sl, ip@, j as int));
        }
    }
    Err(WolError::MacNotFound)
}

/// Whether `needle` occurs in `hay` as a contiguous run.
pub open spec fn contains_seq(hay: Seq<char>, needle: Seq<char>) -> bool {
    exists|o: int|
        0 <= o <= hay.len() - needle.len() && #[trigger] hay.subrange(o, o + needle.len())
            == needle
}

/// Substring search.
pub fn contains_text(hay: &str, needle: &str) -> (r: bool)
    ensures
        r == contains_seq(hay@, needle@),
{
    let hlen: usize = hay.unicode_len();
    let nlen: usize = needle.unicode_len();
    if nlen > hlen {
        return false;
    }
    let mut o: usize = 0;
    while o <= hlen - nlen
        invariant
            nlen <= hlen,
            hlen as int == hay@.len(),
            nlen as int == needle@.len(),
            o <= hlen - nlen + 1,
            forall|p: int|
                0 <= p < o ==> #[trigger] hay@.subrange(p, p + needle@.len()) != needle@,
        decreases hlen - nlen - o + 1,
    {
        let mut m: usize = 0;
        while m < nlen && hay.get_char(o + m) == needle.get_char(m)
            invariant
                o + nlen <= hlen,
                hlen as int == hay@.len(),
                nlen as int == needle@.len(),
                m <= nlen,
                forall|q: int| 0 <= q < m ==> hay@[o + q] == needle@[q],
            decreases nlen - m,
        {
            m = m + 1;
        }
        if m == nlen {
            proof {
                assert(hay@.subrange(o as int, o as int + needle@.len()) =~= needle@);
            }
            return true;
        }
        o = o + 1;
        proof {
            assert(hay@.subrange(o as int - 1, o as int - 1 + needle@.len()) != needle@) by {
                assert(hay@.subrange(o as int - 1, o as int - 1 + needle@.len())[m as int]
                    != needle@[m as int]);
            }
        }
    }
    proof {
        assert(forall|p: int|
            0 <= p <= hay@.len() - needle@.len() ==> #[trigger] hay@.subrange(
                p,
                p + needle@.len(),
            ) != needle@);
    }
    false
}

/// Whether a token looks like a MAC address in query output: at
/// least eleven characters with a colon somewhere.
pub open spec fn token_is_mac_like(t: Seq<char>) -> bool {
    t.len() >= 11 && (exists|i: int| 0 <= i < t.len() && t[i] == ':')
}

/// The first MAC-like token at or after `j`.
pub open spec fn first_mac_token(ts: Seq<Seq<char>>, j: int) -> Option<Seq<char>>
    decreases ts.len() - j,
{
    if j < 0 || j >= ts.len() {
        None
    } else if token_is_mac_like(ts[j]) {
        Some(ts[j])
    } else {
        first_mac_token(ts, j + 1)
    }
}

/// The first MAC-like token on a line containing the IP, at or
/// after line `i`.
pub open spec fn query_scan_from(lines: Seq<Seq<char>>, ip: Seq<char>, i: int) -> Option<Seq<char>>
    decreases lines.len() - i,
{
    if i < 0 || i >= lines.len() {
        None
    } else {
        let here = if contains_seq(lines[i], ip) {
            first_mac_token(spec_tokens(lines[i]), 0)
        } else {
            None
        };
        match here {
            Some(t) => Some(t),
            None => query_scan_from(lines, ip, i + 1),
        }
    }
}

/// What a query-output lookup returns.
pub open spec fn spec_query_lookup(output: Seq<char>, ip: Seq<char>) -> Option<Seq<char>> {
    query_scan_from(spec_lines(output), ip, 0)
}

/// Picks the MAC address out of an ARP query command's text output:
/// on the first line mentioning the IP, the first token of length at
/// least eleven containing a colon, upper-cased.
pub fn lookup_mac_in_query_output(ip: &str, output: &str) -> (r: Result<String, WolError>)
    ensures
        match r {
            Ok(m) => spec_query_lookup(output@, ip@) matches Some(raw) && m@ == upper_chars(raw),
            Err(e) => spec_query_lookup(output@, ip@) is None && e == WolError::MacNotFound,
        },
{
    let lines = split_lines(output);
    let ghost sl = spec_lines(output@);
    let mut i: usize = 0;
    while i < lines.len()
        invariant
            lines@.len() == sl.len(),
            forall|k: int| 0 <= k < sl.len() ==> (#[trigger] lines@[k])@ == sl[k],
            sl == spec_lines(output@),
            query_scan_from(sl, ip@, 0) == query_scan_from(sl, ip@, i as int),
        decreases lines@.len() - i,
    {
        let line_has_ip = contains_text(lines[i].as_str(), ip);
        if line_has_ip {
            let tokens = split_tokens(lines[i].as_str());
            let ghost ts = spec_tokens(sl[i as int]);
            let mut j: usize = 0;
            while j < tokens.len()
                invariant
                    tokens@.len() == ts.len(),
                    forall|k: int| 0 <= k < ts.len() ==> (#[trigger] tokens@[k])@ == ts[k],
                    first_mac_token(ts, 0) == first_mac_token(ts, j as int),
                    sl == spec_lines(output@),
                    0 <= i < sl.len(),
                    ts == spec_tokens(sl[i as int]),
                    contains_seq(sl[i as int], ip@),
                    query_scan_from(sl, ip@, 0) == query_scan_from(sl, ip@, i as int),
                decreases tokens@.len() - j,
            {
                let t = &tokens[j];
                if t.as_str().unicode_len() >= 11 && has_colon(t.as_str()) {
                    proof {
                        assert(token_is_mac_like(ts[j as int]));
                        assert(first_mac_token(ts, j as int) == Some(ts[j as int]));
                        assert(query_scan_from(sl, ip@, i as int) == Some(ts[j as int]));
                    }
                    return Ok(to_ascii_uppercase(t.as_str()));
                }
                j = j + 1;
                proof {
                    assert(!token_is_mac_like(ts[j - 1]));
                    assert(first_mac_token(ts, j as int - 1) == first_mac_token(ts, j as int));
                }
            }
            proof {
                assert(first_mac_token(ts, ts.len() as int) is None);
                assert(query_scan_from(sl, ip@, i as int) == query_scan_from(
                    sl,
                    ip@,
                    i as int + 1,
                ));
            }
        } else {
            proof {
                assert(query_scan_from(sl, ip@, i as int) == query_scan_from(
                    sl,
                    ip@,
                    i as int + 1,
                ));
            }
        }
        i = i + 1;
    }
    Err(WolError::MacNotFound)
}

/// Whether any character of the text is a colon.
fn has_colon(s: &str) -> (r: bool)
    ensures
        r == exists|i: int| 0 <= i < s@.len() && s@[i] == ':',
{
    let len: usize = s.unicode_len();
    let mut k: usize = 0;
    while k < len
        invariant
            k <= len,
            len as int == s@.len(),
            forall|i: int| 0 <= i < k ==> s@[i] != ':',
        decreases len - k,
    {
        if s.get_char(k) == ':' {
            return true;
        }
        k = k + 1;
    }
    false
}

} // verus!
