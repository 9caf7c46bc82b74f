//! Verified character-level string helpers: prefix tests, searching,
//! whitespace trimming, and decimal / hexadecimal rendering. The streaming
//! parser and the request-key derivation are built on these.

use vstd::prelude::*;
use vstd::string::StrSliceExecFns;
use vstd::string::StringExecFns;

verus! {

/// Character-wise equality of two string slices.
pub fn str_eq(a: &str, b: &str) -> (r: bool)
    ensures
        r == (a@ == b@),
{
    let sa: String = a.to_owned();
    let sb: String = b.to_owned();
    sa == sb
}

/// Whether `p` is a prefix of `s`.
pub open spec fn spec_starts_with(s: Seq<char>, p: Seq<char>) -> bool {
    s.len() >= p.len() && s.subrange(0, p.len() as int) == p
}

pub fn starts_with(s: &str, p: &str) -> (r: bool)
    ensures
        r == spec_starts_with(s@, p@),
{
    let n: usize = p.unicode_len();
    if s.unicode_len() < n {
        assert(!spec_starts_with(s@, p@));
        return false;
    }
    let mut i: usize = 0;
    while i < n
        invariant
            i <= n,
            n == p@.len(),
            s@.len() >= n,
            forall|j: int| 0 <= j < i ==> s@[j] == p@[j],
        decreases n - i,
    {
        if s.get_char(i) != p.get_char(i) {
            assert(s@.subrange(0, p@.len() as int) != p@);
            return false;
        }
        i = i + 1;
    }
    assert(s@.subrange(0, p@.len() as int) =~= p@);
    true
}

/// The index of the first occurrence of `c` in `s`, if any.
pub fn find_char(s: &str, c: char) -> (r: Option<usize>)
    ensures
        match r {
            Some(i) => i < s@.len() && s@[i as int] == c && forall|j: int|
                0 <= j < i ==> s@[j] != c,
            None => forall|j: int| 0 <= j < s@.len() ==> s@[j] != c,
        },
{
    let n: usize = s.unicode_len();
    let mut i: usize = 0;
    while i < n
        invariant
            i <= n,
            n == s@.len(),
            forall|j: int| 0 <= j < i ==> s@[j] != c,
        decreases n - i,
    {
        if s.get_char(i) == c {
            return Some(i);
        }
        i = i + 1;
    }
    None
}

/// The whitespace characters the trimmer removes at either end of a line.
pub open spec fn spec_is_ws(c: char) -> bool {
    c == ' ' || c == '\t' || c == '\r' || c == '\n'
}

fn is_ws(c: char) -> (r: bool)
    ensures
        r == spec_is_ws(c),
{
    c == ' ' || c == '\t' || c == '\r' || c == '\n'
}

/// The number of leading whitespace characters of `s`.
pub open spec fn spec_ws_prefix_len(s: Seq<char>) -> nat
    decreases s.len(),
{
    if s.len() == 0 || !spec_is_ws(s[0]) {
        0
    } else {
        1 + spec_ws_prefix_len(s.drop_first())
    }
}

/// The number of trailing whitespace characters of `s`.
pub open spec fn spec_ws_suffix_len(s: Seq<char>) -> nat
    decreases s.len(),
{
    if s.len() == 0 || !spec_is_ws(s.last()) {
        0
    } else {
        1 + spec_ws_suffix_len(s.drop_last())
    }
}

/// `s` with leading and trailing whitespace removed.
pub open spec fn spec_trim(s: Seq<char>) -> Seq<char> {
    if spec_ws_prefix_len(s) == s.len() {
        Seq::empty()
    } else {
        s.subrange(
            spec_ws_prefix_len(s) as int,
            s.len() - spec_ws_suffix_len(s),
        )
    }
}

proof fn lemma_ws_prefix(s: Seq<char>)
    ensures
        spec_ws_prefix_len(s) <= s.len(),
        forall|k: int| 0 <= k < spec_ws_prefix_len(s) ==> spec_is_ws(#[trigger] s[k]),
        spec_ws_prefix_len(s) < s.len() ==> !spec_is_ws(s[spec_ws_prefix_len(s) as int]),
    decreases s.len(),
{
    if s.len() == 0 || !spec_is_ws(s[0]) {
    } else {
        lemma_ws_prefix(s.drop_first());
        assert forall|k: int| 0 <= k < spec_ws_prefix_len(s) implies spec_is_ws(
            #[trigger] s[k],
        ) by {
            if k > 0 {
                assert(s[k] == s.drop_first()[k - 1]);
            }
        }
    }
}

proof fn lemma_ws_suffix(s: Seq<char>)
    ensures
        spec_ws_suffix_len(s) <= s.len(),
        forall|k: int|
            s.len() - spec_ws_suffix_len(s) <= k < s.len() ==> spec_is_ws(#[trigger] s[k]),
        spec_ws_suffix_len(s) < s.len() ==> !spec_is_ws(
            s[s.len() - spec_ws_suffix_len(s) - 1],
        ),
    decreases s.len(),
{
    if s.len() == 0 || !spec_is_ws(s.last()) {
    } else {
        lemma_ws_suffix(s.drop_last());
        assert forall|k: int|
            s.len() - spec_ws_suffix_len(s) <= k < s.len() implies spec_is_ws(
            #[trigger] s[k],
        ) by {
            if k < s.len() - 1 {
                assert(s[k] == s.drop_last()[k]);
            }
        }
    }
}

/// When `s` holds a non-whitespace character, the trimmed range is
/// well-formed: the first non-whitespace index lies before the last.
proof fn lemma_trim_range(s: Seq<char>)
    requires
        spec_ws_prefix_len(s) < s.len(),
    ensures
        spec_ws_prefix_len(s) + spec_ws_suffix_len(s) < s.len(),
{
    lemma_ws_prefix(s);
    lemma_ws_suffix(s);
    let p = spec_ws_prefix_len(s) as int;
    if spec_ws_suffix_len(s) + p >= s.len() {
        assert(s.len() - spec_ws_suffix_len(s) <= p < s.len());
        assert(spec_is_ws(s[p]));
    }
}

/// Trim ASCII whitespace from both ends of `s`.
pub fn trim(s: &str) -> (r: String)
    ensures
        r@ == spec_trim(s@),
{
    let n: usize = s.unicode_len();
    let mut start: usize = 0;
    while start < n && is_ws(s.get_char(start))
        invariant
            start <= n,
            n == s@.len(),
            forall|k: int| 0 <= k < start ==> spec_is_ws(#[trigger] s@[k]),
        decreases n - start,
    {
        start = start + 1;
    }
    proof {
        lemma_ws_prefix(s@);
        if start < n {
            assert(start == spec_ws_prefix_len(s@)) by {
                if start < spec_ws_prefix_len(s@) {
                    assert(spec_is_ws(s@[start as int]));
                }
            }
        }
    }
    if start == n {
        assert(spec_ws_prefix_len(s@) == n) by {
            if spec_ws_prefix_len(s@) < n {
                assert(spec_is_ws(s@[spec_ws_prefix_len(s@) as int]));
            }
        }
        return String::new();
    }
    let mut end: usize = n;
    while end > start && is_ws(s.get_char(end - 1))
        invariant
            start <= end <= n,
            n == s@.len(),
            start < n,
            !spec_is_ws(s@[start as int]),
            forall|k: int| end <= k < n ==> spec_is_ws(#[trigger] s@[k]),
        decreases end,
    {
        end = end - 1;
    }
    proof {
        lemma_ws_suffix(s@);
        assert(n - end == spec_ws_suffix_len(s@)) by {
            if n - end < spec_ws_suffix_len(s@) {
                assert(s@.len() - spec_ws_suffix_len(s@) <= end - 1 < s@.len());
                assert(spec_is_ws(s@[end - 1]));
            }
            if n - end > spec_ws_suffix_len(s@) {
                assert(!spec_is_ws(s@[s@.len() - spec_ws_suffix_len(s@) - 1]));
            }
        }
        lemma_trim_range(s@);
    }
    s.substring_char(start, end).to_owned()
}

/// The number of leading occurrences of `c` in `s`.
pub open spec fn spec_prefix_count(s: Seq<char>, c: char) -> nat
    decreases s.len(),
{
    if s.len() == 0 || s[0] != c {
        0
    } else {
        1 + spec_prefix_count(s.drop_first(), c)
    }
}

/// The number of trailing occurrences of `c` in `s`.
pub open spec fn spec_suffix_count(s: Seq<char>, c: char) -> nat
    decreases s.len(),
{
    if s.len() == 0 || s.last() != c {
        0
    } else {
        1 + spec_suffix_count(s.drop_last(), c)
    }
}

/// `s` with every leading occurrence of `c` removed.
pub open spec fn spec_trim_start_char(s: Seq<char>, c: char) -> Seq<char> {
    s.subrange(spec_prefix_count(s, c) as int, s.len() as int)
}

/// `s` with every trailing occurrence of `c` removed.
pub open spec fn spec_trim_end_char(s: Seq<char>, c: char) -> Seq<char> {
    s.subrange(0, s.len() - spec_suffix_count(s, c))
}

proof fn lemma_prefix_count(s: Seq<char>, c: char)
    ensures
        spec_prefix_count(s, c) <= s.len(),
        forall|k: int| 0 <= k < spec_prefix_count(s, c) ==> s[k] == c,
        spec_prefix_count(s, c) < s.len() ==> s[spec_prefix_count(s, c) as int] != c,
    decreases s.len(),
{
    if s.len() == 0 || s[0] != c {
    } else {
        lemma_prefix_count(s.drop_first(), c);
        assert forall|k: int| 0 <= k < spec_prefix_count(s, c) implies s[k] == c by {
            if k > 0 {
                assert(s[k] == s.drop_first()[k - 1]);
            }
        }
    }
}

proof fn lemma_suffix_count(s: Seq<char>, c: char)
    ensures
        spec_suffix_count(s, c) <= s.len(),
        forall|k: int| s.len() - spec_suffix_count(s, c) <= k < s.len() ==> s[k] == c,
        spec_suffix_count(s, c) < s.len() ==> s[s.len() - spec_suffix_count(s, c) - 1] != c,
    decreases s.len(),
{
    if s.len() == 0 || s.last() != c {
    } else {
        lemma_suffix_count(s.drop_last(), c);
        assert forall|k: int| s.len() - spec_suffix_count(s, c) <= k < s.len() implies s[k]
            == c by {
            if k < s.len() - 1 {
                assert(s[k] == s.drop_last()[k]);
            }
        }
    }
}

/// Remove every leading occurrence of `c`.
pub fn trim_start_char(s: &str, c: char) -> (r: String)
    ensures
        r@ == spec_trim_start_char(s@, c),
{
    let n: usize = s.unicode_len();
    let mut start: usize = 0;
    while start < n && s.get_char(start) == c
        invariant
            start <= n,
            n == s@.len(),
            forall|k: int| 0 <= k < start ==> s@[k] == c,
        decreases n - start,
    {
        start = start + 1;
    }
    proof {
        lemma_prefix_count(s@, c);
        assert(start == spec_prefix_count(s@, c)) by {
            if start < spec_prefix_count(s@, c) {
                assert(s@[start as int] == c);
            }
            if start > spec_prefix_count(s@, c) {
                assert(s@[spec_prefix_count(s@, c) as int] == c);
            }
        }
    }
    s.substring_char(start, n).to_owned()
}

/// Remove every trailing occurrence of `c`.
pub fn trim_end_char(s: &str, c: char) -> (r: String)
    ensures
        r@ == spec_trim_end_char(s@, c),
{
    let n: usize = s.unicode_len();
    let mut end: usize = n;
    while end > 0 && s.get_char(end - 1) == c
        invariant
            end <= n,
            n == s@.len(),
            forall|k: int| end <= k < n ==> s@[k] == c,
        decreases end,
    {
        end = end - 1;
    }
    proof {
        lemma_suffix_count(s@, c);
        assert(n - end == spec_suffix_count(s@, c)) by {
            if n - end < spec_suffix_count(s@, c) {
                assert(s@[end - 1] == c);
            }
            if n - end > spec_suffix_count(s@, c) {
                assert(s@[s@.len() - spec_suffix_count(s@, c) - 1] == c);
            }
        }
    }
    s.substring_char(0, end).to_owned()
}

/// The decimal digit character for a value below ten.
pub open spec fn spec_dec_digit(d: nat) -> char {
    if d == 0 {
        '0'
    } else if d == 1 {
        '1'
    } else if d == 2 {
        '2'
    } else if d == 3 {
        '3'
    } else if d == 4 {
        '4'
    } else if d == 5 {
        '5'
    } else if d == 6 {
        '6'
    } else if d == 7 {
        '7'
    } else if d == 8 {
        '8'
    } else {
        '9'
    }
}

/// The usual decimal rendering of `n`, without sign or padding.
pub open spec fn spec_dec(n: nat) -> Seq<char>
    decreases n,
{
    if n < 10 {
        seq![spec_dec_digit(n)]
    } else {
        spec_dec(n / 10) + seq![spec_dec_digit(n % 10)]
    }
}

fn dec_digit_str(d: u64) -> (r: &'static str)
    requires
        d < 10,
    ensures
        r@ == seq![spec_dec_digit(d as nat)],
{
    let r: &'static str = if d == 0 {
        "0"
    } else if d == 1 {
        "1"
    } else if d == 2 {
        "2"
    } else if d == 3 {
        "3"
    } else if d == 4 {
        "4"
    } else if d == 5 {
        "5"
    } else if d == 6 {
        "6"
    } else if d == 7 {
        "7"
    } else if d == 8 {
        "8"
    } else {
        "9"
    };
    proof {
        reveal_strlit("0");
        reveal_strlit("1");
        reveal_strlit("2");
        reveal_strlit("3");
        reveal_strlit("4");
        reveal_strlit("5");
        reveal_strlit("6");
        reveal_strlit("7");
        reveal_strlit("8");
        reveal_strlit("9");
        assert(r@ =~= seq![spec_dec_digit(d as nat)]);
    }
    r
}

/// Render `n` in decimal.
pub fn u64_to_string(n: u64) -> (r: String)
    ensures
        r@ == spec_dec(n as nat),
    decreases n,
{
    if n < 10 {
        dec_digit_str(n).to_owned()
    } else {
        u64_to_string(n / 10).concat(dec_digit_str(n % 10))
    }
}

/// The lowercase hexadecimal digit character for a value below sixteen.
pub open spec fn spec_hex_digit(d: nat) -> char {
    if d < 10 {
        spec_dec_digit(d)
    } else if d == 10 {
        'a'
    } else if d == 11 {
        'b'
    } else if d == 12 {
        'c'
    } else if d == 13 {
        'd'
    } else if d == 14 {
        'e'
    } else {
        'f'
    }
}

/// The lowercase hexadecimal rendering of a byte string, two digits per
/// byte, high nibble first.
pub open spec fn spec_hex(bytes: Seq<u8>) -> Seq<char>
    decreases bytes.len(),
{
    if bytes.len() == 0 {
        Seq::empty()
    } else {
        seq![
            spec_hex_digit(bytes[0] as nat / 16),
            spec_hex_digit(bytes[0] as nat % 16),
        ] + spec_hex(bytes.drop_first())
    }
}

fn hex_digit_str(d: u8) -> (r: &'static str)
    requires
        d < 16,
    ensures
        r@ == seq![spec_hex_digit(d as nat)],
{
    if d < 10 {
        dec_digit_str(d as u64)
    } else {
        let r: &'static str = if d == 10 {
            "a"
        } else if d == 11 {
            "b"
        } else if d == 12 {
            "c"
        } else if d == 13 {
            "d"
        } else if d == 14 {
            "e"
        } else {
            "f"
        };
        proof {
            reveal_strlit("a");
            reveal_strlit("b");
            reveal_strlit("c");
            reveal_strlit("d");
            reveal_strlit("e");
            reveal_strlit("f");
            assert(r@ =~= seq![spec_hex_digit(d as nat)]);
        }
        r
    }
}

/// Lemma: rendering a byte string in hex appends two digits per byte.
proof fn lemma_hex_push(bytes: Seq<u8>, i: int)
    requires
        0 <= i < bytes.len(),
    ensures
        spec_hex(bytes.subrange(0, i + 1)) == spec_hex(bytes.subrange(0, i)) + seq![
            spec_hex_digit(bytes[i] as nat / 16),
            spec_hex_digit(bytes[i] as nat % 16),
        ],
    decreases i,
{
    let pre = bytes.subrange(0, i + 1);
    if i == 0 {
        assert(pre.drop_first() =~= Seq::empty());
        assert(spec_hex(bytes.subrange(0, 0)) =~= Seq::empty());
        assert(spec_hex(pre) =~= seq![
            spec_hex_digit(bytes[0] as nat / 16),
            spec_hex_digit(bytes[0] as nat % 16),
        ]);
    } else {
        lemma_hex_push(bytes.drop_first(), i - 1);
        assert(pre.drop_first() =~= bytes.drop_first().subrange(0, i));
        assert(bytes.subrange(0, i).drop_first() =~= bytes.drop_first().subrange(0, i - 1));
        assert(spec_hex(pre) == seq![
            spec_hex_digit(bytes[0] as nat / 16),
            spec_hex_digit(bytes[0] as nat % 16),
        ] + spec_hex(pre.drop_first()));
    }
}

/// Render a byte string in lowercase hexadecimal.
pub fn bytes_to_hex(bytes: &Vec<u8>) -> (r: String)
    ensures
        r@ == spec_hex(bytes@),
{
    let mut out: String = String::new();
    let mut i: usize = 0;
    while i < bytes.len()
        invariant
            i <= bytes@.len(),
            out@ == spec_hex(bytes@.subrange(0, i as int)),
        decreases bytes@.len() - i,
    {
        let b: u8 = bytes[i];
        out.append(hex_digit_str(b / 16));
        out.append(hex_digit_str(b % 16));
        proof {
            lemma_hex_push(bytes@, i as int);
        }
        i = i + 1;
    }
    assert(bytes@.subrange(0, bytes@.len() as int) =~= bytes@);
    out
}

} // verus!
