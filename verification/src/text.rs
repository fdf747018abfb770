//! Verified text helpers the protocol codec is built on: trimming,
//! splitting on spaces, string comparison, and decimal / hexadecimal
//! numerals.

use vstd::prelude::*;

verus! {

/// The whitespace characters a protocol line may be padded with.
pub open spec fn is_space_char(c: char) -> bool {
    c == ' ' || c == '\t' || c == '\r' || c == '\n'
}

fn is_space(c: char) -> (r: bool)
    ensures
        r == is_space_char(c),
{
    c == ' ' || c == '\t' || c == '\r' || c == '\n'
}

/// `s` with its leading whitespace dropped.
pub open spec fn trim_start_rec(s: Seq<char>) -> Seq<char>
    decreases s.len(),
{
    if s.len() > 0 && is_space_char(s[0]) {
        trim_start_rec(s.drop_first())
    } else {
        s
    }
}

/// `s` with its trailing whitespace dropped.
pub open spec fn trim_end_rec(s: Seq<char>) -> Seq<char>
    decreases s.len(),
{
    if s.len() > 0 && is_space_char(s.last()) {
        trim_end_rec(s.drop_last())
    } else {
        s
    }
}

/// `s` with leading and trailing whitespace dropped.
pub open spec fn spec_trim(s: Seq<char>) -> Seq<char> {
    trim_end_rec(trim_start_rec(s))
}

proof fn lemma_trim_start_at(s: Seq<char>, i: int)
    requires
        0 <= i <= s.len(),
        forall|k: int| 0 <= k < i ==> is_space_char(s[k]),
        i == s.len() || !is_space_char(s[i]),
    ensures
        trim_start_rec(s) == s.subrange(i, s.len() as int),
    decreases i,
{
    if i == 0 {
        assert(s.subrange(0, s.len() as int) =~= s);
    } else {
        let t = s.drop_first();
        assert(forall|k: int| 0 <= k < i - 1 ==> is_space_char(#[trigger] t[k]));
        lemma_trim_start_at(t, i - 1);
        assert(t.subrange(i - 1, t.len() as int) =~= s.subrange(i, s.len() as int));
    }
}

proof fn lemma_trim_end_at(s: Seq<char>, j: int)
    requires
        0 <= j <= s.len(),
        forall|k: int| j <= k < s.len() ==> is_space_char(s[k]),
        j == 0 || !is_space_char(s[j - 1]),
    ensures
        trim_end_rec(s) == s.subrange(0, j),
    decreases s.len() - j,
{
    if j == s.len() {
        assert(s.subrange(0, j) =~= s);
    } else {
        let t = s.drop_last();
        assert(forall|k: int| j <= k < t.len() ==> is_space_char(#[trigger] t[k]));
        lemma_trim_end_at(t, j);
        assert(t.subrange(0, j) =~= s.subrange(0, j));
    }
}

/// Drops leading and trailing whitespace, as `spec_trim` describes.
pub fn trim(s: &str) -> (r: &str)
    ensures
        r@ == spec_trim(s@),
{
    let len = s.unicode_len();
    let mut i: usize = 0;
    while i < len && is_space(s.get_char(i))
        invariant
            i <= len,
            len == s@.len(),
            forall|k: int| 0 <= k < i ==> is_space_char(s@[k]),
        decreases len - i,
    {
        i = i + 1;
    }
    let mut j: usize = len;
    while j > i && is_space(s.get_char(j - 1))
        invariant
            i <= j <= len,
            len == s@.len(),
            forall|k: int| j <= k < len ==> is_space_char(s@[k]),
        decreases j,
    {
        j = j - 1;
    }
    proof {
        lemma_trim_start_at(s@, i as int);
        let t = s@.subrange(i as int, s@.len() as int);
        assert(forall|k: int|
            j - i <= k < t.len() ==> is_space_char(#[trigger] t[k]));
        lemma_trim_end_at(t, j - i);
        assert(t.subrange(0, j - i) =~= s@.subrange(i as int, j as int));
    }
    s.substring_char(i, j)
}

/// Character-for-character string equality.
pub fn str_eq(a: &str, b: &str) -> (r: bool)
    ensures
        r == (a@ == b@),
{
    let n = a.unicode_len();
    if n != b.unicode_len() {
        proof {
            assert(a@.len() != b@.len());
        }
        return false;
    }
    let mut i: usize = 0;
    while i < n
        invariant
            i <= n,
            n == a@.len(),
            n == b@.len(),
            forall|k: int| 0 <= k < i ==> a@[k] == b@[k],
        decreases n - i,
    {
        if a.get_char(i) != b.get_char(i) {
            proof {
                assert(a@[i as int] != b@[i as int]);
            }
            return false;
        }
        i = i + 1;
    }
    proof {
        assert(a@ =~= b@);
    }
    true
}

/// The index of the first `' '` in `s`, or `-1` if there is none.
pub open spec fn first_space(s: Seq<char>) -> int
    decreases s.len(),
{
    if s.len() == 0 {
        -1
    } else if s[0] == ' ' {
        0
    } else if first_space(s.drop_first()) < 0 {
        -1
    } else {
        first_space(s.drop_first()) + 1
    }
}

proof fn lemma_first_space_at(s: Seq<char>, k: int)
    requires
        0 <= k < s.len(),
        s[k] == ' ',
        forall|j: int| 0 <= j < k ==> s[j] != ' ',
    ensures
        first_space(s) == k,
    decreases k,
{
    if k > 0 {
        let t = s.drop_first();
        assert(forall|j: int| 0 <= j < k - 1 ==> #[trigger] t[j] != ' ');
        lemma_first_space_at(t, k - 1);
    }
}

proof fn lemma_no_space(s: Seq<char>)
    requires
        forall|j: int| 0 <= j < s.len() ==> s[j] != ' ',
    ensures
        first_space(s) == -1,
    decreases s.len(),
{
    if s.len() > 0 {
        let t = s.drop_first();
        assert(forall|j: int| 0 <= j < t.len() ==> #[trigger] t[j] != ' ');
        lemma_no_space(t);
    }
}

/// `s` cut at every single `' '`: two neighbouring spaces yield an empty
/// token between them, as does a leading or trailing space.
pub open spec fn split_spaces(s: Seq<char>) -> Seq<Seq<char>>
    decreases s.len(),
{
    let k = first_space(s);
    if 0 <= k < s.len() {
        seq![s.subrange(0, k)] + split_spaces(s.subrange(k + 1, s.len() as int))
    } else {
        seq![s]
    }
}

/// Cuts `s` at every single space, as `split_spaces` describes.
pub fn split_at_spaces(s: &str) -> (r: Vec<String>)
    ensures
        r.deep_view() == split_spaces(s@),
{
    let len = s.unicode_len();
    let mut parts: Vec<String> = Vec::new();
    let mut start: usize = 0;
    let mut i: usize = 0;
    proof {
        assert(s@.subrange(0, len as int) =~= s@);
        assert(parts.deep_view() =~~= Seq::<Seq<char>>::empty());
        assert(parts.deep_view() + split_spaces(s@) =~= split_spaces(s@));
    }
    while i < len
        invariant
            start <= i <= len,
            len == s@.len(),
            forall|k: int| start <= k < i ==> s@[k] != ' ',
            split_spaces(s@) == parts.deep_view() + split_spaces(
                s@.subrange(start as int, len as int),
            ),
        decreases len - i,
    {
        if s.get_char(i) == ' ' {
            let ghost before = parts.deep_view();
            let token = s.substring_char(start, i);
            parts.push(token.to_owned());
            proof {
                let rest = s@.subrange(start as int, len as int);
                assert(forall|j: int| 0 <= j < i - start ==> #[trigger] rest[j] != ' ');
                assert(rest[i - start] == ' ');
                lemma_first_space_at(rest, i - start);
                assert(rest.subrange(0, i - start) =~= s@.subrange(start as int, i as int));
                assert(rest.subrange(i - start + 1, rest.len() as int) =~= s@.subrange(
                    i + 1,
                    len as int,
                ));
                assert(parts.deep_view() =~~= before.push(token@));
                assert((before + split_spaces(rest)) =~= (before.push(token@) + split_spaces(
                    s@.subrange(i + 1, len as int),
                )));
            }
            start = i + 1;
        }
        i = i + 1;
    }
    let ghost before = parts.deep_view();
    let token = s.substring_char(start, len);
    parts.push(token.to_owned());
    proof {
        let rest = s@.subrange(start as int, len as int);
        assert(forall|j: int| 0 <= j < rest.len() ==> #[trigger] rest[j] != ' ');
        lemma_no_space(rest);
        assert(parts.deep_view() =~~= before.push(token@));
        assert(before + split_spaces(rest) =~= before.push(rest));
    }
    parts
}

/// `c` is a decimal digit.
pub open spec fn is_dec_digit(c: char) -> bool {
    48 <= c as u32 <= 57
}

/// The value of a decimal digit.
pub open spec fn dec_digit_val(c: char) -> int {
    c as u32 - 48
}

/// Every character of `s` is a decimal digit.
pub open spec fn all_dec_digits(s: Seq<char>) -> bool {
    forall|i: int| 0 <= i < s.len() ==> is_dec_digit(s[i])
}

/// The number an all-digit string denotes, most significant digit first.
pub open spec fn dec_val(s: Seq<char>) -> int
    decreases s.len(),
{
    if s.len() == 0 {
        0
    } else {
        dec_val(s.drop_last()) * 10 + dec_digit_val(s.last())
    }
}

/// What parsing an unsigned decimal token yields: the denoted number, or
/// nothing when the token is empty, has a non-digit, or does not fit.
pub open spec fn spec_parse_usize(s: Seq<char>) -> Option<usize> {
    if s.len() > 0 && all_dec_digits(s) && dec_val(s) <= usize::MAX {
        Some(dec_val(s) as usize)
    } else {
        None
    }
}

proof fn lemma_dec_val_nonneg(s: Seq<char>)
    requires
        all_dec_digits(s),
    ensures
        dec_val(s) >= 0,
    decreases s.len(),
{
    if s.len() > 0 {
        assert(forall|i: int| 0 <= i < s.len() - 1 ==> is_dec_digit(#[trigger] s.drop_last()[i]));
        lemma_dec_val_nonneg(s.drop_last());
    }
}

proof fn lemma_dec_val_prefix(s: Seq<char>, i: int)
    requires
        all_dec_digits(s),
        0 <= i <= s.len(),
    ensures
        dec_val(s.subrange(0, i)) <= dec_val(s),
    decreases s.len() - i,
{
    if i == s.len() {
        assert(s.subrange(0, i) =~= s);
    } else {
        let p = s.subrange(0, i + 1);
        assert(p.drop_last() =~= s.subrange(0, i));
        assert(forall|k: int| 0 <= k < i ==> is_dec_digit(#[trigger] s.subrange(0, i)[k]));
        lemma_dec_val_nonneg(s.subrange(0, i));
        assert(dec_val(s.subrange(0, i)) <= dec_val(p));
        lemma_dec_val_prefix(s, i + 1);
    }
}

/// Parses an unsigned decimal token, as `spec_parse_usize` describes.
pub fn parse_usize(t: &str) -> (r: Option<usize>)
    ensures
        r == spec_parse_usize(t@),
{
    let len = t.unicode_len();
    if len == 0 {
        return None;
    }
    let mut acc: usize = 0;
    let mut i: usize = 0;
    proof {
        assert(t@.subrange(0, 0) =~= Seq::<char>::empty());
    }
    while i < len
        invariant
            i <= len,
            len == t@.len(),
            forall|k: int| 0 <= k < i ==> is_dec_digit(t@[k]),
            acc == dec_val(t@.subrange(0, i as int)),
        decreases len - i,
    {
        let c = t.get_char(i);
        let d = c as u32;
        if d < 48 || d > 57 {
            return None;
        }
        proof {
            let p = t@.subrange(0, i + 1);
            assert(p.drop_last() =~= t@.subrange(0, i as int));
        }
        let step = acc.checked_mul(10);
        let next = match step {
            Some(m) => m.checked_add((d - 48) as usize),
            None => None,
        };
        match next {
            Some(v) => {
                acc = v;
            },
            None => {
                proof {
                    if all_dec_digits(t@) {
                        lemma_dec_val_prefix(t@, i + 1);
                    }
                }
                return None;
            },
        }
        i = i + 1;
    }
    proof {
        assert(t@.subrange(0, len as int) =~= t@);
    }
    Some(acc)
}

/// `c` is a hexadecimal digit, either case.
pub open spec fn is_hex_digit(c: char) -> bool {
    (48 <= c as u32 <= 57) || (97 <= c as u32 <= 102) || (65 <= c as u32 <= 70)
}

/// The value of a hexadecimal digit.
pub open spec fn hex_digit_val(c: char) -> int {
    if 48 <= c as u32 <= 57 {
        c as u32 - 48
    } else if 65 <= c as u32 <= 70 {
        c as u32 - 55
    } else {
        c as u32 - 87
    }
}

/// Every character of `s` is a hexadecimal digit.
pub open spec fn all_hex_digits(s: Seq<char>) -> bool {
    forall|i: int| 0 <= i < s.len() ==> is_hex_digit(s[i])
}

/// The number an all-hex string denotes, most significant digit first.
pub open spec fn hex_val(s: Seq<char>) -> int
    decreases s.len(),
{
    if s.len() == 0 {
        0
    } else {
        hex_val(s.drop_last()) * 16 + hex_digit_val(s.last())
    }
}

/// `16^n`.
pub open spec fn pow16(n: nat) -> int
    decreases n,
{
    if n == 0 {
        1
    } else {
        16 * pow16((n - 1) as nat)
    }
}

proof fn lemma_pow16_pos(n: nat)
    ensures
        pow16(n) >= 1,
    decreases n,
{
    if n > 0 {
        lemma_pow16_pos((n - 1) as nat);
    }
}

proof fn lemma_pow16_mono(i: nat, j: nat)
    requires
        i <= j,
    ensures
        pow16(i) <= pow16(j),
    decreases j - i,
{
    if i < j {
        lemma_pow16_mono(i, (j - 1) as nat);
        lemma_pow16_pos((j - 1) as nat);
    }
}

proof fn lemma_hex_val_bound(s: Seq<char>)
    requires
        all_hex_digits(s),
    ensures
        0 <= hex_val(s) < pow16(s.len()),
    decreases s.len(),
{
    if s.len() > 0 {
        assert(forall|i: int| 0 <= i < s.len() - 1 ==> is_hex_digit(#[trigger] s.drop_last()[i]));
        lemma_hex_val_bound(s.drop_last());
        assert(0 <= hex_digit_val(s.last()) <= 15);
    }
}

/// What parsing a hexadecimal token yields: the denoted number, or nothing
/// when a character is not a hex digit or the value does not fit 32 bits.
pub open spec fn spec_hex_value(s: Seq<char>) -> Option<u32> {
    if all_hex_digits(s) && hex_val(s) <= u32::MAX {
        Some(hex_val(s) as u32)
    } else {
        None
    }
}

/// Parses a hexadecimal token of at most eight digits, as `spec_hex_value`
/// describes.
pub fn hex_value(t: &str) -> (r: Option<u32>)
    requires
        t@.len() <= 8,
    ensures
        r == spec_hex_value(t@),
{
    let len = t.unicode_len();
    let mut acc: u32 = 0;
    let mut i: usize = 0;
    proof {
        assert(t@.subrange(0, 0) =~= Seq::<char>::empty());
    }
    while i < len
        invariant
            i <= len <= 8,
            len == t@.len(),
            forall|k: int| 0 <= k < i ==> is_hex_digit(t@[k]),
            acc == hex_val(t@.subrange(0, i as int)),
        decreases len - i,
    {
        let c = t.get_char(i);
        let d = c as u32;
        let dv: u32 = if 48 <= d && d <= 57 {
            d - 48
        } else if 97 <= d && d <= 102 {
            d - 87
        } else if 65 <= d && d <= 70 {
            d - 55
        } else {
            return None;
        };
        proof {
            let p = t@.subrange(0, i + 1);
            assert(p.drop_last() =~= t@.subrange(0, i as int));
            assert(forall|k: int| 0 <= k < i ==> is_hex_digit(#[trigger] t@.subrange(0, i as int)[k]));
            lemma_hex_val_bound(t@.subrange(0, i as int));
            lemma_pow16_mono(i as nat, 7);
            assert(pow16(7) == 0x10000000) by {
                reveal_with_fuel(pow16, 8);
            }
        }
        acc = acc * 16 + dv;
        i = i + 1;
    }
    proof {
        assert(t@.subrange(0, len as int) =~= t@);
        lemma_hex_val_bound(t@);
    }
    Some(acc)
}

/// The lowercase character for one hexadecimal (or decimal) digit.
pub open spec fn digit_char(d: int) -> char {
    if d == 0 {
        '0'
    } else if d == 1 {
        '1'
    } else if d == 2 {
        '2'
    } else if d == 3 {
        '3'
    } else if d == 4 {
        '4'
    } else if d == 5 {
        '5'
    } else if d == 6 {
        '6'
    } else if d == 7 {
        '7'
    } else if d == 8 {
        '8'
    } else if d == 9 {
        '9'
    } else if d == 10 {
        'a'
    } else if d == 11 {
        'b'
    } else if d == 12 {
        'c'
    } else if d == 13 {
        'd'
    } else if d == 14 {
        'e'
    } else {
        'f'
    }
}

fn digit_str(d: u32) -> (r: &'static str)
    requires
        d < 16,
    ensures
        r@ =~= seq![digit_char(d as int)],
{
    proof {
        reveal_strlit("0");
        reveal_strlit("1");
        reveal_strlit("2");
        reveal_strlit("3");
        reveal_strlit("4");
        reveal_strlit("5");
        reveal_strlit("6");
        reveal_strlit("7");
        reveal_strlit("8");
        reveal_strlit("9");
        reveal_strlit("a");
        reveal_strlit("b");
        reveal_strlit("c");
        reveal_strlit("d");
        reveal_strlit("e");
        reveal_strlit("f");
    }
    if d == 0 {
        "0"
    } else if d == 1 {
        "1"
    } else if d == 2 {
        "2"
    } else if d == 3 {
        "3"
    } else if d == 4 {
        "4"
    } else if d == 5 {
        "5"
    } else if d == 6 {
        "6"
    } else if d == 7 {
        "7"
    } else if d == 8 {
        "8"
    } else if d == 9 {
        "9"
    } else if d == 10 {
        "a"
    } else if d == 11 {
        "b"
    } else if d == 12 {
        "c"
    } else if d == 13 {
        "d"
    } else if d == 14 {
        "e"
    } else {
        "f"
    }
}

/// The shortest decimal rendering of `n`, most significant digit first.
pub open spec fn spec_dec_str(n: nat) -> Seq<char>
    decreases n,
{
    if n < 10 {
        seq![digit_char(n as int)]
    } else {
        spec_dec_str(n / 10).push(digit_char((n % 10) as int))
    }
}

/// Renders `n` in decimal, as `spec_dec_str` describes.
pub fn usize_to_dec(n: usize) -> (r: String)
    ensures
        r@ == spec_dec_str(n as nat),
    decreases n,
{
    if n < 10 {
        digit_str(n as u32).to_owned()
    } else {
        let mut s = usize_to_dec(n / 10);
        s.append(digit_str((n % 10) as u32));
        proof {
            assert(s@ =~= spec_dec_str(n as nat));
        }
        s
    }
}

/// The low `k` hexadecimal digits of `n`, most significant first, lowercase.
pub open spec fn hex_str_fixed(n: int, k: nat) -> Seq<char>
    decreases k,
{
    if k == 0 {
        Seq::<char>::empty()
    } else {
        hex_str_fixed(n / 16, (k - 1) as nat).push(digit_char(n % 16))
    }
}

/// Renders the low `4 * k` bits of `n` as exactly `k` lowercase hex digits.
pub fn to_hex_fixed(n: u32, k: usize) -> (r: String)
    requires
        k <= 8,
    ensures
        r@ == hex_str_fixed(n as int, k as nat),
    decreases k,
{
    if k == 0 {
        String::new()
    } else {
        let mut s = to_hex_fixed(n / 16, k - 1);
        s.append(digit_str(n % 16));
        proof {
            assert(s@ =~= hex_str_fixed(n as int, k as nat));
        }
        s
    }
}

/// Rendering `k` hex digits and reading them back yields the value again:
/// the hexadecimal form of a number below `16^k` is faithful.
pub proof fn lemma_hex_round_trip(n: int, k: nat)
    requires
        0 <= n < pow16(k),
    ensures
        hex_str_fixed(n, k).len() == k,
        all_hex_digits(hex_str_fixed(n, k)),
        hex_val(hex_str_fixed(n, k)) == n,
    decreases k,
{
    if k == 0 {
    } else {
        let q = n / 16;
        let d = n % 16;
        assert(0 <= d < 16);
        assert(0 <= q < pow16((k - 1) as nat)) by (nonlinear_arith)
            requires
                q == n / 16,
                0 <= n < 16 * pow16((k - 1) as nat);
        lemma_hex_round_trip(q, (k - 1) as nat);
        let s = hex_str_fixed(n, k);
        assert(s.drop_last() =~= hex_str_fixed(q, (k - 1) as nat));
        assert(is_hex_digit(digit_char(d)) && hex_digit_val(digit_char(d)) == d);
        assert(hex_val(s) == q * 16 + d);
        assert(q * 16 + d == n) by (nonlinear_arith)
            requires
                q == n / 16,
                d == n % 16,
                0 <= n;
    }
}

} // verus!
