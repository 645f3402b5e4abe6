//! Character-level string helpers shared by the key builders, the parsers
//! and the message formatters.
use vstd::prelude::*;

verus! {

/// The ASCII digit for a value below ten.
pub open spec fn digit_char(d: nat) -> char {
    if d == 0 {
        '0'
    } else if d == 1 {
        '1'
    } else if d == 2 {
        '2'
    } else if d == 3 {
        '3'
    } else if d == 4 {
        '4'
    } else if d == 5 {
        '5'
    } else if d == 6 {
        '6'
    } else if d == 7 {
        '7'
    } else if d == 8 {
        '8'
    } else {
        '9'
    }
}

/// Decimal rendering of a natural number, as `Display` writes it (no sign,
/// no leading zeros, "0" for zero).
pub open spec fn decimal(n: nat) -> Seq<char>
    decreases n,
{
    if n < 10 {
        seq![digit_char(n)]
    } else {
        decimal(n / 10).push(digit_char(n % 10))
    }
}

pub open spec fn is_digit(c: char) -> bool {
    '0' <= c && c <= '9'
}

pub open spec fn digit_value(c: char) -> nat {
    ((c as int) - ('0' as int)) as nat
}

pub open spec fn all_digits(s: Seq<char>) -> bool {
    forall|i: int| 0 <= i < s.len() ==> is_digit(#[trigger] s[i])
}

/// Value of a string of decimal digits (most significant first).
pub open spec fn digits_value(s: Seq<char>) -> nat
    decreases s.len(),
{
    if s.len() == 0 {
        0
    } else {
        digits_value(s.drop_last()) * 10 + digit_value(s.last())
    }
}

/// The digits that a number parse reads: the string without one leading `+`.
pub open spec fn unsigned_digits(s: Seq<char>) -> Seq<char> {
    if s.len() > 0 && s[0] == '+' {
        s.drop_first()
    } else {
        s
    }
}

/// What `str::parse` accepts for an unsigned integer type whose largest
/// value is `max`: an optional leading `+`, then at least one decimal digit,
/// with a value of at most `max`.
pub open spec fn parse_bounded_spec(s: Seq<char>, max: nat) -> Option<nat> {
    let digits = unsigned_digits(s);
    if digits.len() == 0 || !all_digits(digits) {
        None
    } else if digits_value(digits) <= max {
        Some(digits_value(digits))
    } else {
        None
    }
}

/// What `str::parse::<u32>` gives.
pub open spec fn parse_u32_spec(s: Seq<char>) -> Option<u32> {
    match parse_bounded_spec(s, u32::MAX as nat) {
        Some(n) => Some(n as u32),
        None => None,
    }
}

/// What `str::parse::<u64>` gives.
pub open spec fn parse_u64_spec(s: Seq<char>) -> Option<u64> {
    match parse_bounded_spec(s, u64::MAX as nat) {
        Some(n) => Some(n as u64),
        None => None,
    }
}

/// Whether `needle` occurs as a contiguous run inside `hay`.
pub open spec fn seq_contains(hay: Seq<char>, needle: Seq<char>) -> bool {
    exists|i: int|
        0 <= i && i + needle.len() <= hay.len() && #[trigger] hay.subrange(i, i + needle.len())
            == needle
}

/// Whether `s` contains the character `c`.
pub open spec fn has_char(s: Seq<char>, c: char) -> bool {
    exists|i: int| 0 <= i < s.len() && s[i] == c
}

pub open spec fn is_prefix(p: Seq<char>, s: Seq<char>) -> bool {
    p.len() <= s.len() && s.subrange(0, p.len() as int) == p
}

pub open spec fn is_suffix(p: Seq<char>, s: Seq<char>) -> bool {
    p.len() <= s.len() && s.subrange(s.len() - p.len(), s.len() as int) == p
}

/// Index of the last occurrence of `c` in `s`, or -1.
pub open spec fn last_index_of(s: Seq<char>, c: char) -> int
    decreases s.len(),
{
    if s.len() == 0 {
        -1
    } else if s.last() == c {
        s.len() - 1
    } else {
        last_index_of(s.drop_last(), c)
    }
}

/// The part of `s` after its last `c` (all of `s` when there is none): the
/// first item that `rsplit(c)` yields.
pub open spec fn after_last(s: Seq<char>, c: char) -> Seq<char> {
    s.subrange(last_index_of(s, c) + 1, s.len() as int)
}

/// Appends one character to a string.
///
/// Trusted: calls `String::push`, whose documentation says that it appends
/// the given char to the end of the string; the contract states exactly that.
#[verifier::external_body]
pub(crate) fn push_char(s: &mut String, c: char)
    ensures
        final(s)@ == old(s)@.push(c),
{
    s.push(c);
}

/// The digit character for a value below ten.
pub fn digit_to_char(d: u128) -> (c: char)
    requires
        d < 10,
    ensures
        c == digit_char(d as nat),
{
    if d == 0 {
        '0'
    } else if d == 1 {
        '1'
    } else if d == 2 {
        '2'
    } else if d == 3 {
        '3'
    } else if d == 4 {
        '4'
    } else if d == 5 {
        '5'
    } else if d == 6 {
        '6'
    } else if d == 7 {
        '7'
    } else if d == 8 {
        '8'
    } else {
        '9'
    }
}

proof fn lemma_decimal_nonempty(n: nat)
    ensures
        decimal(n).len() >= 1,
    decreases n,
{
    if n >= 10 {
        lemma_decimal_nonempty(n / 10);
    }
}

/// Appends the decimal rendering of `n` to `s`.
pub fn append_decimal(s: &mut String, n: u128)
    ensures
        final(s)@ == old(s)@ + decimal(n as nat),
    decreases n,
{
    if n < 10 {
        push_char(s, digit_to_char(n));
        assert(decimal(n as nat) == seq![digit_char(n as nat)]);
        assert(old(s)@.push(digit_char(n as nat)) =~= old(s)@ + seq![digit_char(n as nat)]);
    } else {
        append_decimal(s, n / 10);
        let ghost mid = s@;
        push_char(s, digit_to_char(n % 10));
        assert(decimal(n as nat) == decimal((n / 10) as nat).push(digit_char((n % 10) as nat)));
        assert(s@ =~= old(s)@ + decimal(n as nat));
    }
}

/// Decimal rendering of `n` as a new string (what `n.to_string()` gives).
pub fn u128_to_decimal(n: u128) -> (s: String)
    ensures
        s@ == decimal(n as nat),
{
    let mut s = String::new();
    append_decimal(&mut s, n);
    assert(s@ =~= decimal(n as nat));
    s
}

/// String equality by characters.
pub fn str_eq(a: &str, b: &str) -> (r: bool)
    ensures
        r == (a@ == b@),
{
    let la = a.unicode_len();
    let lb = b.unicode_len();
    if la != lb {
        return false;
    }
    let mut i: usize = 0;
    while i < la
        invariant
            la == a@.len(),
            lb == b@.len(),
            la == lb,
            i <= la,
            forall|j: int| 0 <= j < i ==> a@[j] == b@[j],
        decreases la - i,
    {
        if a.get_char(i) != b.get_char(i) {
            return false;
        }
        i = i + 1;
    }
    assert(a@ =~= b@);
    true
}

/// Whether `s` contains the character `c`.
pub fn str_has_char(s: &str, c: char) -> (r: bool)
    ensures
        r == has_char(s@, c),
{
    let n = s.unicode_len();
    let mut i: usize = 0;
    while i < n
        invariant
            n == s@.len(),
            i <= n,
            forall|j: int| 0 <= j < i ==> s@[j] != c,
        decreases n - i,
    {
        if s.get_char(i) == c {
            return true;
        }
        i = i + 1;
    }
    false
}

/// Whether `needle` occurs inside `hay` (what `str::contains` answers for a
/// string pattern).
pub fn str_contains(hay: &str, needle: &str) -> (r: bool)
    ensures
        r == seq_contains(hay@, needle@),
{
    let n = hay.unicode_len();
    let m = needle.unicode_len();
    if m > n {
        assert(!seq_contains(hay@, needle@));
        return false;
    }
    let mut i: usize = 0;
    while i <= n - m
        invariant
            n == hay@.len(),
            m == needle@.len(),
            m <= n,
            i <= n - m + 1,
            forall|k: int| 0 <= k < i ==> #[trigger] hay@.subrange(k, k + m) != needle@,
        decreases n - m + 1 - i,
    {
        let mut j: usize = 0;
        let mut ok = true;
        while j < m
            invariant
                n == hay@.len(),
                m == needle@.len(),
                i + m <= n,
                j <= m,
                ok == (forall|t: int| 0 <= t < j ==> hay@[i + t] == needle@[t]),
            decreases m - j,
        {
            if hay.get_char(i + j) != needle.get_char(j) {
                ok = false;
            }
            j = j + 1;
        }
        if ok {
            assert(hay@.subrange(i as int, i + m) =~= needle@);
            return true;
        }
        assert(hay@.subrange(i as int, i + m) != needle@) by {
            let t = choose|t: int| 0 <= t < m && hay@[i + t] != needle@[t];
            assert(hay@.subrange(i as int, i + m)[t] == hay@[i + t]);
        }
        i = i + 1;
    }
    assert forall|k: int| 0 <= k && k + needle@.len() <= hay@.len() implies #[trigger] hay@.subrange(
        k,
        k + needle@.len(),
    ) != needle@ by {
        assert(k < i);
    }
    false
}

/// Whether `s` ends with `suffix`.
pub fn str_ends_with(s: &str, suffix: &str) -> (r: bool)
    ensures
        r == is_suffix(suffix@, s@),
{
    let n = s.unicode_len();
    let m = suffix.unicode_len();
    if m > n {
        return false;
    }
    let mut j: usize = 0;
    while j < m
        invariant
            n == s@.len(),
            m == suffix@.len(),
            m <= n,
            j <= m,
            forall|t: int| 0 <= t < j ==> s@[n - m + t] == suffix@[t],
        decreases m - j,
    {
        if s.get_char(n - m + j) != suffix.get_char(j) {
            assert(s@.subrange(n - m, n as int)[j as int] != suffix@[j as int]);
            return false;
        }
        j = j + 1;
    }
    assert(s@.subrange(n - m, n as int) =~= suffix@);
    true
}

/// Whether `s` starts with `prefix`.
pub fn str_starts_with(s: &str, prefix: &str) -> (r: bool)
    ensures
        r == is_prefix(prefix@, s@),
{
    let n = s.unicode_len();
    let m = prefix.unicode_len();
    if m > n {
        return false;
    }
    let mut j: usize = 0;
    while j < m
        invariant
            n == s@.len(),
            m == prefix@.len(),
            m <= n,
            j <= m,
            forall|t: int| 0 <= t < j ==> s@[t] == prefix@[t],
        decreases m - j,
    {
        if s.get_char(j) != prefix.get_char(j) {
            assert(s@.subrange(0, m as int)[j as int] != prefix@[j as int]);
            return false;
        }
        j = j + 1;
    }
    assert(s@.subrange(0, m as int) =~= prefix@);
    true
}

proof fn lemma_last_index_bounds(s: Seq<char>, c: char)
    ensures
        -1 <= last_index_of(s, c) < s.len(),
        last_index_of(s, c) >= 0 ==> s[last_index_of(s, c)] == c,
        forall|j: int| last_index_of(s, c) < j < s.len() ==> s[j] != c,
    decreases s.len(),
{
    if s.len() > 0 && s.last() != c {
        lemma_last_index_bounds(s.drop_last(), c);
        assert forall|j: int| last_index_of(s, c) < j < s.len() implies s[j] != c by {
            if j < s.len() - 1 {
                assert(s[j] == s.drop_last()[j]);
            }
        }
    }
}

proof fn lemma_last_index_unique(s: Seq<char>, c: char, k: int)
    requires
        -1 <= k < s.len(),
        k >= 0 ==> s[k] == c,
        forall|j: int| k < j < s.len() ==> s[j] != c,
    ensures
        last_index_of(s, c) == k,
    decreases s.len(),
{
    if s.len() > 0 && s.last() != c {
        assert(k < s.len() - 1);
        assert forall|j: int| k < j < s.drop_last().len() implies s.drop_last()[j] != c by {
            assert(s.drop_last()[j] == s[j]);
        }
        lemma_last_index_unique(s.drop_last(), c, k);
    }
}

/// The part of `s` after its last `c` (all of `s` when `c` does not occur).
pub fn after_last_char(s: &str, c: char) -> (r: &str)
    ensures
        r@ == after_last(s@, c),
{
    let n = s.unicode_len();
    let mut i: usize = n;
    while i > 0
        invariant
            n == s@.len(),
            i <= n,
            forall|j: int| i <= j < n ==> s@[j] != c,
        decreases i,
    {
        if s.get_char(i - 1) == c {
            proof {
                lemma_last_index_unique(s@, c, i - 1);
            }
            return s.substring_char(i, n);
        }
        i = i - 1;
    }
    proof {
        lemma_last_index_unique(s@, c, -1);
    }
    s.substring_char(0, n)
}

proof fn lemma_digits_value_push(s: Seq<char>, c: char)
    ensures
        digits_value(s.push(c)) == digits_value(s) * 10 + digit_value(c),
{
    assert(s.push(c).drop_last() =~= s);
}

/// Parses an unsigned decimal number of at most `max`, the way
/// `str::parse` does for an unsigned integer type whose largest value is
/// `max`.
pub fn parse_bounded(s: &str, max: u64) -> (r: Option<u64>)
    ensures
        match parse_bounded_spec(s@, max as nat) {
            Some(n) => r == Some(n as u64),
            None => r is None,
        },
{
    let n = s.unicode_len();
    let mut start: usize = 0;
    if n > 0 && s.get_char(0) == '+' {
        start = 1;
    }
    let ghost digits = unsigned_digits(s@);
    assert(digits =~= s@.subrange(start as int, n as int));
    if start == n {
        return None;
    }
    let mut acc: u64 = 0;
    let mut i: usize = start;
    while i < n
        invariant
            n == s@.len(),
            start <= i <= n,
            start < n,
            digits == s@.subrange(start as int, n as int),
            digits == unsigned_digits(s@),
            acc <= max,
            all_digits(s@.subrange(start as int, i as int)),
            acc == digits_value(s@.subrange(start as int, i as int)),
        decreases n - i,
    {
        let c = s.get_char(i);
        if !('0' <= c && c <= '9') {
            assert(digits[i - start] == c);
            assert(!is_digit(digits[i - start]));
            assert(!all_digits(digits));
            return None;
        }
        let d = (c as u32 - '0' as u32) as u128;
        proof {
            let pre = s@.subrange(start as int, i as int);
            assert(s@.subrange(start as int, i + 1) =~= pre.push(c));
            lemma_digits_value_push(pre, c);
        }
        let next: u128 = acc as u128 * 10 + d;
        if next > max as u128 {
            proof {
                assert(digits.subrange(0, i + 1 - start) =~= s@.subrange(start as int, i + 1));
                lemma_digits_prefix_bound(digits, (i + 1 - start) as int);
                if all_digits(digits) {
                    assert(digits_value(digits) > max);
                }
            }
            return None;
        }
        acc = next as u64;
        i = i + 1;
    }
    assert(s@.subrange(start as int, n as int) == digits);
    Some(acc)
}

/// Parses a decimal `u32` the way `str::parse::<u32>` does.
pub fn parse_u32(s: &str) -> (r: Option<u32>)
    ensures
        r == parse_u32_spec(s@),
{
    match parse_bounded(s, u32::MAX as u64) {
        Some(n) => Some(n as u32),
        None => None,
    }
}

/// Parses a decimal `u64` the way `str::parse::<u64>` does.
pub fn parse_u64(s: &str) -> (r: Option<u64>)
    ensures
        r == parse_u64_spec(s@),
{
    parse_bounded(s, u64::MAX)
}

/// The value of a digit string is at least that of any of its prefixes.
proof fn lemma_digits_prefix_bound(s: Seq<char>, k: int)
    requires
        0 <= k <= s.len(),
    ensures
        digits_value(s.subrange(0, k)) <= digits_value(s),
    decreases s.len() - k,
{
    if k < s.len() {
        lemma_digits_prefix_bound(s.drop_last(), k);
        assert(s.drop_last().subrange(0, k) =~= s.subrange(0, k));
    } else {
        assert(s.subrange(0, k) =~= s);
    }
}

/// The lower-case form of a string, as `str::to_lowercase` gives it.
pub uninterp spec fn lowercase(s: Seq<char>) -> Seq<char>;

/// The lower-case form of a string.
///
/// Trusted: calls `str::to_lowercase`, which maps each character to its
/// Unicode lower-case form; the result depends on the string alone and is
/// named, not stated.
#[verifier::external_body]
pub(crate) fn to_lowercase(s: &str) -> (r: String)
    ensures
        r@ == lowercase(s@),
{
    s.to_lowercase()
}

/// Whether a character has the Unicode `White_Space` property: tab to
/// carriage return, space, U+0085, U+00A0, U+1680, U+2000 to U+200A,
/// U+2028, U+2029, U+202F, U+205F and U+3000.
pub open spec fn is_white_space(c: char) -> bool {
    let v = c as u32;
    ||| 0x09 <= v <= 0x0d
    ||| v == 0x20
    ||| v == 0x85
    ||| v == 0xa0
    ||| v == 0x1680
    ||| 0x2000 <= v <= 0x200a
    ||| v == 0x2028
    ||| v == 0x2029
    ||| v == 0x202f
    ||| v == 0x205f
    ||| v == 0x3000
}

/// A string without its leading white space.
pub open spec fn trimmed_start(s: Seq<char>) -> Seq<char>
    decreases s.len(),
{
    if s.len() > 0 && is_white_space(s[0]) {
        trimmed_start(s.subrange(1, s.len() as int))
    } else {
        s
    }
}

/// A string without its trailing white space.
pub open spec fn trimmed_end(s: Seq<char>) -> Seq<char>
    decreases s.len(),
{
    if s.len() > 0 && is_white_space(s.last()) {
        trimmed_end(s.drop_last())
    } else {
        s
    }
}

/// A string without its leading and trailing white space, as `str::trim`
/// gives it.
pub open spec fn trimmed(s: Seq<char>) -> Seq<char> {
    trimmed_end(trimmed_start(s))
}

/// A string without its leading and trailing white space.
///
/// Trusted: calls `str::trim`, whose documentation says that it removes
/// the leading and trailing characters with the Unicode `White_Space`
/// property; the contract states exactly that.
#[verifier::external_body]
pub(crate) fn trim(s: &str) -> (r: String)
    ensures
        r@ == trimmed(s@),
{
    s.trim().to_string()
}

/// The pieces `str::split(c)` gives: the text between consecutive
/// occurrences of `c`, from the start to the end (so one more piece than
/// there are occurrences).
pub open spec fn split_spec(s: Seq<char>, c: char) -> Seq<Seq<char>>
    decreases s.len(),
{
    if s.len() == 0 {
        seq![Seq::<char>::empty()]
    } else {
        let init = split_spec(s.drop_last(), c);
        if s.last() == c {
            init.push(Seq::<char>::empty())
        } else {
            init.update(init.len() - 1, init.last().push(s.last()))
        }
    }
}

proof fn lemma_split_nonempty(s: Seq<char>, c: char)
    ensures
        split_spec(s, c).len() >= 1,
    decreases s.len(),
{
    if s.len() > 0 {
        lemma_split_nonempty(s.drop_last(), c);
    }
}

/// The pieces of `s` between occurrences of `c`.
pub fn split_char(s: &str, c: char) -> (r: Vec<String>)
    ensures
        r@.map_values(|p: String| p@) == split_spec(s@, c),
{
    let n = s.unicode_len();
    let mut done: Vec<String> = Vec::new();
    let mut cur = String::new();
    let mut i: usize = 0;
    proof {
        assert(s@.subrange(0, 0) =~= Seq::<char>::empty());
        assert(done@.map_values(|p: String| p@).push(cur@) =~= seq![Seq::<char>::empty()]);
    }
    while i < n
        invariant
            n == s@.len(),
            i <= n,
            split_spec(s@.subrange(0, i as int), c) == done@.map_values(|p: String| p@).push(cur@),
        decreases n - i,
    {
        let ch = s.get_char(i);
        proof {
            let t = s@.subrange(0, i + 1);
            assert(t.drop_last() =~= s@.subrange(0, i as int));
            assert(t.last() == ch);
            lemma_split_nonempty(s@.subrange(0, i as int), c);
        }
        if ch == c {
            let ghost before = done@.map_values(|p: String| p@);
            let piece = cur;
            done.push(piece);
            cur = String::new();
            proof {
                assert(done@.map_values(|p: String| p@) =~= before.push(piece@));
            }
        } else {
            let ghost before = done@.map_values(|p: String| p@).push(cur@);
            push_char(&mut cur, ch);
            proof {
                assert(done@.map_values(|p: String| p@).push(cur@) =~= before.update(
                    before.len() - 1,
                    before.last().push(ch),
                ));
            }
        }
        i = i + 1;
    }
    proof {
        assert(s@.subrange(0, n as int) =~= s@);
    }
    let ghost before = done@.map_values(|p: String| p@);
    done.push(cur);
    proof {
        assert(done@.map_values(|p: String| p@) =~= before.push(done@.last()@));
    }
    done
}


/// `s` with every occurrence of `pat` replaced by `rep`, scanning from the
/// left without overlaps: what `str::replace` gives for a non-empty `pat`.
pub open spec fn replace_spec(s: Seq<char>, pat: Seq<char>, rep: Seq<char>) -> Seq<char>
    recommends
        pat.len() > 0,
    decreases s.len(),
{
    if s.len() == 0 || pat.len() == 0 {
        s
    } else if is_prefix(pat, s) {
        rep + replace_spec(s.subrange(pat.len() as int, s.len() as int), pat, rep)
    } else {
        seq![s[0]] + replace_spec(s.subrange(1, s.len() as int), pat, rep)
    }
}

/// Whether `pat` occurs in `s` at character position `i`.
fn occurs_at(s: &str, i: usize, pat: &str) -> (r: bool)
    requires
        i <= s@.len(),
    ensures
        r == is_prefix(pat@, s@.subrange(i as int, s@.len() as int)),
{
    let n = s.unicode_len();
    let m = pat.unicode_len();
    let ghost t = s@.subrange(i as int, n as int);
    if m > n - i {
        return false;
    }
    let mut j: usize = 0;
    while j < m
        invariant
            n == s@.len(),
            m == pat@.len(),
            i + m <= n,
            j <= m,
            t == s@.subrange(i as int, n as int),
            forall|k: int| 0 <= k < j ==> t[k] == pat@[k],
        decreases m - j,
    {
        if s.get_char(i + j) != pat.get_char(j) {
            assert(t.subrange(0, m as int)[j as int] != pat@[j as int]);
            return false;
        }
        j = j + 1;
    }
    assert(t.subrange(0, m as int) =~= pat@);
    true
}

/// `s` with every occurrence of the non-empty `pat` replaced by `rep`.
pub fn replace_all(s: &str, pat: &str, rep: &str) -> (r: String)
    requires
        pat@.len() > 0,
    ensures
        r@ == replace_spec(s@, pat@, rep@),
{
    let n = s.unicode_len();
    let m = pat.unicode_len();
    let mut out = String::new();
    let mut i: usize = 0;
    proof {
        assert(s@.subrange(0, n as int) =~= s@);
    }
    while i < n
        invariant
            n == s@.len(),
            m == pat@.len(),
            m > 0,
            i <= n,
            out@ + replace_spec(s@.subrange(i as int, n as int), pat@, rep@) == replace_spec(s@, pat@, rep@),
        decreases n - i,
    {
        let ghost t = s@.subrange(i as int, n as int);
        if occurs_at(s, i, pat) {
            proof {
                assert(t.subrange(m as int, t.len() as int) =~= s@.subrange(i + m, n as int));
                assert(out@ + rep@ + replace_spec(s@.subrange(i + m, n as int), pat@, rep@) =~= out@ + (rep@
                    + replace_spec(s@.subrange(i + m, n as int), pat@, rep@)));
            }
            out.append(rep);
            i = i + m;
        } else {
            let c = s.get_char(i);
            proof {
                assert(t[0] == c);
                assert(t.subrange(1, t.len() as int) =~= s@.subrange(i + 1, n as int));
                assert(out@.push(c) + replace_spec(s@.subrange(i + 1, n as int), pat@, rep@) =~= out@ + (seq![c]
                    + replace_spec(s@.subrange(i + 1, n as int), pat@, rep@)));
            }
            push_char(&mut out, c);
            i = i + 1;
        }
    }
    proof {
        assert(out@ + replace_spec(s@.subrange(n as int, n as int), pat@, rep@) =~= out@);
    }
    out
}

/// The words of `s`: its pieces between spaces, the empty ones left out.
pub open spec fn words_spec(s: Seq<char>) -> Seq<Seq<char>> {
    split_spec(s, ' ').filter(|w: Seq<char>| w.len() > 0)
}

/// The words of `s`, in order.
pub fn split_words(s: &str) -> (r: Vec<String>)
    ensures
        r@.map_values(|w: String| w@) == words_spec(s@),
{
    let pieces = split_char(s, ' ');
    let ghost ps = pieces@.map_values(|p: String| p@);
    let ghost pred = |w: Seq<char>| w.len() > 0;
    let mut out: Vec<String> = Vec::new();
    let mut i: usize = 0;
    proof {
        assert(ps.subrange(0, 0).filter(pred) =~= Seq::<Seq<char>>::empty()) by {
            reveal(Seq::filter);
        }
        assert(out@.map_values(|w: String| w@) =~= Seq::<Seq<char>>::empty());
    }
    while i < pieces.len()
        invariant
            ps == pieces@.map_values(|p: String| p@),
            ps == split_spec(s@, ' '),
            pred == (|w: Seq<char>| w.len() > 0),
            i <= pieces@.len(),
            out@.map_values(|w: String| w@) == ps.subrange(0, i as int).filter(pred),
        decreases pieces.len() - i,
    {
        proof {
            crate::kademlia_shard_discovery::lemma_filter_step(ps, i as int, pred);
        }
        let w = pieces[i].clone();
        if w.as_str().unicode_len() > 0 {
            let ghost before = out@.map_values(|x: String| x@);
            out.push(w);
            proof {
                assert(out@.map_values(|x: String| x@) =~= before.push(ps[i as int]));
            }
        }
        i = i + 1;
    }
    proof {
        assert(ps.subrange(0, ps.len() as int) =~= ps);
    }
    out
}

} // verus!
