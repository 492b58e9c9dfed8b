//! Verified text utilities: decimal rendering, padding, splitting, trimming,
//! case folding and hex decoding over `Seq<char>` models of strings.

use vstd::prelude::*;

verus! {

/// The decimal digit character for `d` (0 through 9).
pub open spec fn digit_char(d: int) -> char {
    ((0x30 + d) as u8) as char
}

/// The decimal representation of `n`, most significant digit first,
/// with no leading zeros (a single `'0'` for zero).
pub open spec fn dec_digits(n: nat) -> Seq<char>
    decreases n,
{
    if n < 10 {
        seq![digit_char(n as int)]
    } else {
        dec_digits(n / 10) + seq![digit_char((n % 10) as int)]
    }
}

/// The decimal representation is never empty.
pub proof fn lemma_dec_digits_len(n: nat)
    ensures
        dec_digits(n).len() >= 1,
    decreases n,
{
    if n >= 10 {
        lemma_dec_digits_len(n / 10);
    }
}

/// Relies on `String::from_utf8`: bytes below 0x80 decode one-for-one
/// into the chars with the same code points.
#[verifier::external_body]
pub(crate) fn ascii_string(bytes: Vec<u8>) -> (r: String)
    requires
        forall|i: int| 0 <= i < bytes@.len() ==> bytes@[i] < 0x80,
    ensures
        r@ == bytes@.map_values(|b: u8| b as char),
{
    String::from_utf8(bytes).unwrap_or_default()
}

/// Whether two string slices hold the same characters.
pub fn str_eq(a: &str, b: &str) -> (r: bool)
    ensures
        r == (a@ == b@),
{
    let la = a.unicode_len();
    let lb = b.unicode_len();
    if la != lb {
        return false;
    }
    let mut i: usize = 0;
    while i < la
        invariant
            la == a@.len(),
            la == b@.len(),
            i <= la,
            forall|j: int| 0 <= j < i ==> a@[j] == b@[j],
        decreases la - i,
    {
        if a.get_char(i) != b.get_char(i) {
            return false;
        }
        i += 1;
    }
    proof {
        assert(a@ =~= b@);
    }
    true
}

proof fn lemma_reverse_push<A>(s: Seq<A>, x: A)
    ensures
        s.push(x).reverse() =~= seq![x] + s.reverse(),
{
}

proof fn lemma_map_values_add<A, B>(a: Seq<A>, b: Seq<A>, f: spec_fn(A) -> B)
    ensures
        (a + b).map_values(f) =~= a.map_values(f) + b.map_values(f),
{
}

/// Renders `n` in decimal.
pub fn u64_string(n: u64) -> (r: String)
    ensures
        r@ == dec_digits(n as nat),
{
    let ghost gn: nat = n as nat;
    let mut rev: Vec<u8> = Vec::new();
    let mut m: u64 = n;

    let d0: u8 = (m % 10) as u8 + 0x30;
    rev.push(d0);
    proof {
        assert(rev@.reverse() =~= rev@);
        if n >= 10 {
            assert(dec_digits(gn) == dec_digits(gn / 10) + seq![digit_char((gn % 10) as int)]);
        }
    }
    m = m / 10;

    while m > 0
        invariant
            forall|i: int| 0 <= i < rev@.len() ==> 0x30 <= #[trigger] rev@[i] < 0x3a,
            m > 0 ==> dec_digits(gn) =~= dec_digits(m as nat) + rev@.reverse().map_values(
                |b: u8| b as char,
            ),
            m == 0 ==> dec_digits(gn) =~= rev@.reverse().map_values(|b: u8| b as char),
            rev@.len() >= 1,
        decreases m,
    {
        let ghost old_rev = rev@;
        let ghost gm: nat = m as nat;
        let d: u8 = (m % 10) as u8 + 0x30;
        rev.push(d);
        m = m / 10;
        proof {
            lemma_reverse_push(old_rev, d);
            lemma_map_values_add(
                seq![d],
                old_rev.reverse(),
                |b: u8| b as char,
            );
            assert(seq![d].map_values(|b: u8| b as char) =~= seq![digit_char((gm % 10) as int)]);
            if m > 0 {
                assert(dec_digits(gm) == dec_digits(gm / 10) + seq![
                    digit_char((gm % 10) as int),
                ]);
                assert(dec_digits(gn) =~= dec_digits(m as nat) + rev@.reverse().map_values(
                    |b: u8| b as char,
                ));
            } else {
                assert(gm < 10);
                assert(dec_digits(gm) =~= seq![digit_char((gm % 10) as int)]);
                assert(dec_digits(gn) =~= rev@.reverse().map_values(|b: u8| b as char));
            }
        }
    }

    let mut out: Vec<u8> = Vec::new();
    let mut i: usize = rev.len();
    while i > 0
        invariant
            i <= rev@.len(),
            out@.len() == rev@.len() - i,
            forall|j: int| 0 <= j < out@.len() ==> out@[j] == rev@[rev@.len() - 1 - j],
            forall|j: int| 0 <= j < rev@.len() ==> 0x30 <= #[trigger] rev@[j] < 0x3a,
        decreases i,
    {
        i = i - 1;
        let b = rev[i];
        out.push(b);
    }
    proof {
        assert(out@ =~= rev@.reverse());
    }
    ascii_string(out)
}

/// `s` left-padded with `fill` up to `width` characters; `s` unchanged if
/// it is already that long.
pub open spec fn spec_pad_left(s: Seq<char>, width: nat, fill: char) -> Seq<char> {
    if s.len() >= width {
        s
    } else {
        Seq::new((width - s.len()) as nat, |i: int| fill) + s
    }
}

/// Left-pads `s` with the ASCII character `fill` to `width` characters.
pub fn pad_left(s: &str, width: usize, fill: u8) -> (r: String)
    requires
        fill < 0x80,
    ensures
        r@ == spec_pad_left(s@, width as nat, fill as char),
{
    let n = s.unicode_len();
    if n >= width {
        return s.to_owned();
    }
    let mut pad: Vec<u8> = Vec::new();
    let mut i: usize = 0;
    while i < width - n
        invariant
            n < width,
            i <= width - n,
            pad@.len() == i,
            forall|j: int| 0 <= j < i ==> pad@[j] == fill,
        decreases width - n - i,
    {
        pad.push(fill);
        i += 1;
    }
    let mut r = ascii_string(pad);
    r.append(s);
    proof {
        assert(r@ =~= spec_pad_left(s@, width as nat, fill as char));
    }
    r
}

/// Renders `n` in decimal, zero-padded to at least `width` characters.
pub fn u64_string_pad(n: u64, width: usize) -> (r: String)
    ensures
        r@ == spec_pad_left(dec_digits(n as nat), width as nat, '0'),
{
    let d = u64_string(n);
    pad_left(d.as_str(), width, 0x30)
}

/// `s` split at every occurrence of `sep`: the pieces between separators,
/// in order, empty pieces included.
pub open spec fn spec_split(s: Seq<char>, sep: char) -> Seq<Seq<char>>
    decreases s.len(),
{
    match s.index_of_first(sep) {
        None => seq![s],
        Some(i) => if 0 <= i < s.len() {
            seq![s.subrange(0, i)] + spec_split(s.subrange(i + 1, s.len() as int), sep)
        } else {
            seq![s]
        },
    }
}

proof fn lemma_split_at_first(s: Seq<char>, sep: char, i: int)
    requires
        0 <= i < s.len(),
        s[i] == sep,
        forall|j: int| 0 <= j < i ==> s[j] != sep,
    ensures
        spec_split(s, sep) == seq![s.subrange(0, i)] + spec_split(
            s.subrange(i + 1, s.len() as int),
            sep,
        ),
{
    s.index_of_first_ensures(sep);
    match s.index_of_first(sep) {
        None => {
            assert(!s.contains(sep));
            assert(s[i] == sep);
        },
        Some(k) => {
            if k < i {
                assert(s[k] != sep);
            }
            if k > i {
                assert(false);
            }
            assert(k == i);
        },
    }
}

proof fn lemma_split_no_sep(s: Seq<char>, sep: char)
    requires
        forall|j: int| 0 <= j < s.len() ==> s[j] != sep,
    ensures
        spec_split(s, sep) == seq![s],
{
    s.index_of_first_ensures(sep);
    match s.index_of_first(sep) {
        None => {},
        Some(k) => {
            assert(s[k] != sep);
        },
    }
}

/// Splits `s` at every occurrence of `sep`.
pub fn split_char(s: &str, sep: char) -> (r: Vec<String>)
    ensures
        r@.map_values(|t: String| t@) == spec_split(s@, sep),
{
    let len = s.unicode_len();
    let mut r: Vec<String> = Vec::new();
    let mut start: usize = 0;
    let mut i: usize = 0;
    proof {
        assert(s@.subrange(0, len as int) =~= s@);
        assert(r@.map_values(|t: String| t@) =~= Seq::<Seq<char>>::empty());
        assert(Seq::<Seq<char>>::empty() + spec_split(s@, sep) =~= spec_split(s@, sep));
    }
    while i < len
        invariant
            len == s@.len(),
            start <= i <= len,
            forall|j: int| start <= j < i ==> s@[j] != sep,
            spec_split(s@, sep) == r@.map_values(|t: String| t@) + spec_split(
                s@.subrange(start as int, len as int),
                sep,
            ),
        decreases len - i,
    {
        if s.get_char(i) == sep {
            let ghost old_r = r@;
            let piece = s.substring_char(start, i);
            r.push(piece.to_owned());
            proof {
                let tail = s@.subrange(start as int, len as int);
                lemma_split_at_first(tail, sep, i - start);
                assert(tail.subrange(0, i - start) =~= s@.subrange(start as int, i as int));
                assert(tail.subrange(i - start + 1, tail.len() as int) =~= s@.subrange(
                    i + 1,
                    len as int,
                ));
                assert(r@.map_values(|t: String| t@) =~= old_r.map_values(|t: String| t@)
                    + seq![s@.subrange(start as int, i as int)]);
            }
            start = i + 1;
        }
        i += 1;
    }
    let ghost old_r = r@;
    let piece = s.substring_char(start, len);
    r.push(piece.to_owned());
    proof {
        let tail = s@.subrange(start as int, len as int);
        lemma_split_no_sep(tail, sep);
        assert(r@.map_values(|t: String| t@) =~= old_r.map_values(|t: String| t@) + seq![tail]);
    }
    r
}

/// ASCII whitespace, as trimmed from the ends of probe output.
pub open spec fn is_ascii_ws(c: char) -> bool {
    c == ' ' || c == '\t' || c == '\n' || c == '\r' || c == '\u{c}'
}

/// The longest prefix of leading and suffix of trailing ASCII whitespace
/// removed from `s`.
pub open spec fn spec_trim(s: Seq<char>) -> Seq<char>
    decreases s.len(),
{
    if s.len() == 0 {
        s
    } else if is_ascii_ws(s[0]) {
        spec_trim(s.subrange(1, s.len() as int))
    } else if is_ascii_ws(s[s.len() - 1]) {
        spec_trim(s.subrange(0, s.len() - 1))
    } else {
        s
    }
}

fn is_ws(c: char) -> (r: bool)
    ensures
        r == is_ascii_ws(c),
{
    c == ' ' || c == '\t' || c == '\n' || c == '\r' || c == '\u{c}'
}

proof fn lemma_trim_range(s: Seq<char>, lo: int, hi: int)
    requires
        0 <= lo <= hi <= s.len(),
        forall|j: int| 0 <= j < lo ==> is_ascii_ws(s[j]),
        forall|j: int| hi <= j < s.len() ==> is_ascii_ws(s[j]),
        lo < hi ==> !is_ascii_ws(s[lo]),
        lo < hi ==> !is_ascii_ws(s[hi - 1]),
    ensures
        spec_trim(s) == s.subrange(lo, hi),
    decreases s.len(),
{
    if s.len() == 0 {
        assert(s.subrange(lo, hi) =~= s);
    } else if is_ascii_ws(s[0]) {
        let t = s.subrange(1, s.len() as int);
        if lo == 0 {
            assert(hi == 0);
            lemma_trim_range(t, 0, 0);
            assert(t.subrange(0, 0) =~= s.subrange(lo, hi));
        } else {
            lemma_trim_range(t, lo - 1, hi - 1);
            assert(t.subrange(lo - 1, hi - 1) =~= s.subrange(lo, hi));
        }
    } else if is_ascii_ws(s[s.len() - 1]) {
        let t = s.subrange(0, s.len() - 1);
        if lo == hi {
            assert(lo == 0);
            assert(is_ascii_ws(s[0]));
            assert(false);
        }
        assert(!is_ascii_ws(s[hi - 1]));
        assert(hi <= s.len() - 1);
        lemma_trim_range(t, lo, hi);
        assert(t.subrange(lo, hi) =~= s.subrange(lo, hi));
    } else {
        assert(lo == 0 && hi == s.len());
        assert(s.subrange(0, s.len() as int) =~= s);
    }
}

/// Removes leading and trailing ASCII whitespace.
pub fn trim_ascii(s: &str) -> (r: String)
    ensures
        r@ == spec_trim(s@),
{
    let len = s.unicode_len();
    let mut lo: usize = 0;
    while lo < len && is_ws(s.get_char(lo))
        invariant
            len == s@.len(),
            lo <= len,
            forall|j: int| 0 <= j < lo ==> is_ascii_ws(s@[j]),
        decreases len - lo,
    {
        lo += 1;
    }
    let mut hi: usize = len;
    while hi > lo && is_ws(s.get_char(hi - 1))
        invariant
            len == s@.len(),
            lo <= hi <= len,
            forall|j: int| 0 <= j < lo ==> is_ascii_ws(s@[j]),
            forall|j: int| hi <= j < len ==> is_ascii_ws(s@[j]),
        decreases hi,
    {
        hi -= 1;
    }
    proof {
        if lo < hi {
        } else {
            assert(lo == hi);
        }
        lemma_trim_range(s@, lo as int, hi as int);
    }
    let piece = s.substring_char(lo, hi);
    piece.to_owned()
}

/// ASCII-only lower-casing: `A` through `Z` mapped down, all else kept.
pub open spec fn spec_lower_char(c: char) -> char {
    if 'A' <= c && c <= 'Z' {
        ((c as u8) + 0x20) as char
    } else {
        c
    }
}

/// Lower-cases the ASCII letters of `s`, leaving other characters as they are.
pub fn ascii_lower(s: &str) -> (r: String)
    ensures
        r@ == s@.map_values(|c: char| spec_lower_char(c)),
{
    let len = s.unicode_len();
    let mut r = String::new();
    let mut i: usize = 0;
    while i < len
        invariant
            len == s@.len(),
            i <= len,
            r@ == s@.subrange(0, i as int).map_values(|c: char| spec_lower_char(c)),
        decreases len - i,
    {
        let ghost old_r = r@;
        let c = s.get_char(i);
        let u = c as u32;
        if 0x41 <= u && u <= 0x5a {
            let mut one: Vec<u8> = Vec::new();
            one.push((u as u8) + 0x20);
            let lowered = ascii_string(one);
            r.append(lowered.as_str());
        } else {
            let piece = s.substring_char(i, i + 1);
            r.append(piece);
            proof {
                assert(piece@ =~= seq![s@[i as int]]);
            }
        }
        proof {
            assert(r@ =~= s@.subrange(0, i + 1).map_values(|c: char| spec_lower_char(c)));
        }
        i += 1;
    }
    proof {
        assert(s@.subrange(0, len as int) =~= s@);
    }
    r
}

/// All leading occurrences of `p` removed from the front of `s`.
pub open spec fn spec_trim_start_matches(s: Seq<char>, p: Seq<char>) -> Seq<char>
    decreases s.len(),
{
    if p.len() > 0 && p.len() <= s.len() && s.subrange(0, p.len() as int) == p {
        spec_trim_start_matches(s.subrange(p.len() as int, s.len() as int), p)
    } else {
        s
    }
}

/// Whether `p` occurs in `s` at position `start`.
fn prefix_at(s: &str, start: usize, p: &str) -> (r: bool)
    requires
        start <= s@.len(),
    ensures
        r == (start + p@.len() <= s@.len() && s@.subrange(
            start as int,
            start + p@.len(),
        ) == p@),
{
    let len = s.unicode_len();
    let plen = p.unicode_len();
    if plen > len || start > len - plen {
        return false;
    }
    let mut k: usize = 0;
    while k < plen
        invariant
            len == s@.len(),
            plen == p@.len(),
            start + plen <= len,
            k <= plen,
            forall|j: int| 0 <= j < k ==> s@[start + j] == p@[j],
        decreases plen - k,
    {
        if s.get_char(start + k) != p.get_char(k) {
            proof {
                assert(s@.subrange(start as int, start + plen) != p@) by {
                    if s@.subrange(start as int, start + plen) == p@ {
                        assert(s@.subrange(start as int, start + plen)[k as int] == p@[k as int]);
                    }
                }
            }
            return false;
        }
        k += 1;
    }
    proof {
        assert(s@.subrange(start as int, start + plen) =~= p@);
    }
    true
}

/// Removes every repetition of the prefix `p` from the front of `s`.
pub fn trim_start_matches(s: &str, p: &str) -> (r: String)
    ensures
        r@ == spec_trim_start_matches(s@, p@),
{
    let len = s.unicode_len();
    let plen = p.unicode_len();
    let mut start: usize = 0;
    if plen > 0 {
        proof {
            assert(s@.subrange(0, len as int) =~= s@);
        }
        while prefix_at(s, start, p)
            invariant
                len == s@.len(),
                plen == p@.len(),
                plen > 0,
                start <= len,
                spec_trim_start_matches(s@, p@) == spec_trim_start_matches(
                    s@.subrange(start as int, len as int),
                    p@,
                ),
            decreases len - start,
        {
            proof {
                let tail = s@.subrange(start as int, len as int);
                assert(tail.subrange(0, plen as int) =~= s@.subrange(
                    start as int,
                    start + plen,
                ));
                assert(tail.subrange(plen as int, tail.len() as int) =~= s@.subrange(
                    start + plen,
                    len as int,
                ));
            }
            start += plen;
        }
        proof {
            let tail = s@.subrange(start as int, len as int);
            if plen <= tail.len() {
                assert(tail.subrange(0, plen as int) =~= s@.subrange(start as int, start + plen));
            }
        }
    }
    proof {
        if plen == 0 {
            assert(s@.subrange(0, len as int) =~= s@);
        }
    }
    let piece = s.substring_char(start, len);
    piece.to_owned()
}

/// The value of an ASCII hex digit, lower or upper case.
pub open spec fn hex_val(c: char) -> Option<u8> {
    let u = c as int;
    if 0x30 <= u && u <= 0x39 {
        Some((u - 0x30) as u8)
    } else if 0x61 <= u && u <= 0x66 {
        Some((u - 0x61 + 10) as u8)
    } else if 0x41 <= u && u <= 0x46 {
        Some((u - 0x41 + 10) as u8)
    } else {
        None
    }
}

/// The bytes encoded by an even-length string of hex digits, or `None`
/// if the length is odd or any character is no hex digit.
pub open spec fn spec_hex_decode(s: Seq<char>) -> Option<Seq<u8>> {
    if s.len() % 2 == 0 && (forall|i: int| 0 <= i < s.len() ==> hex_val(s[i]).is_some()) {
        Some(
            Seq::new(
                s.len() / 2,
                |i: int| (hex_val(s[2 * i]).unwrap() * 16 + hex_val(s[2 * i + 1]).unwrap()) as u8,
            ),
        )
    } else {
        None
    }
}

fn hex_digit(c: char) -> (r: Option<u8>)
    ensures
        r == hex_val(c),
{
    let u = c as u32;
    if 0x30 <= u && u <= 0x39 {
        Some((u - 0x30) as u8)
    } else if 0x61 <= u && u <= 0x66 {
        Some((u - 0x61 + 10) as u8)
    } else if 0x41 <= u && u <= 0x46 {
        Some((u - 0x41 + 10) as u8)
    } else {
        None
    }
}

/// Decodes a string of hex digit pairs into bytes.
pub fn hex_decode(s: &str) -> (r: Option<Vec<u8>>)
    ensures
        match r {
            Some(v) => spec_hex_decode(s@) == Some(v@),
            None => spec_hex_decode(s@) is None,
        },
{
    let len = s.unicode_len();
    if len % 2 != 0 {
        return None;
    }
    let mut out: Vec<u8> = Vec::new();
    let mut i: usize = 0;
    while i < len
        invariant
            len == s@.len(),
            len % 2 == 0,
            i % 2 == 0,
            i <= len,
            out@.len() == i / 2,
            forall|j: int| 0 <= j < i ==> hex_val(s@[j]).is_some(),
            forall|j: int|
                0 <= j < i / 2 ==> out@[j] == (hex_val(s@[2 * j]).unwrap() * 16 + hex_val(
                    s@[2 * j + 1],
                ).unwrap()) as u8,
        decreases len - i,
    {
        let hi = match hex_digit(s.get_char(i)) {
            Some(v) => v,
            None => {
                return None;
            },
        };
        let lo = match hex_digit(s.get_char(i + 1)) {
            Some(v) => v,
            None => {
                return None;
            },
        };
        out.push(hi * 16 + lo);
        i += 2;
    }
    proof {
        let expect = Seq::new(
            s@.len() / 2,
            |j: int| (hex_val(s@[2 * j]).unwrap() * 16 + hex_val(s@[2 * j + 1]).unwrap()) as u8,
        );
        assert(out@ =~= expect);
    }
    Some(out)
}

} // verus!
