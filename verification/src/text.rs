//! Character-level string helpers, each stated over `Seq<char>`.
use vstd::prelude::*;

verus! {

/// `String::push` (std): the string afterwards is the string before with
/// `c` appended. Trusted, as std's documentation states it.
pub assume_specification[ String::push ](s: &mut String, c: char)
    ensures
        final(s)@ == old(s)@.push(c),
;

/// ASCII upper-case letters map to lower case; every other character is kept.
pub open spec fn lower_char(c: char) -> char {
    if 'A' <= c && c <= 'Z' {
        ((c as u32) + 32) as char
    } else {
        c
    }
}

pub open spec fn ascii_lower(s: Seq<char>) -> Seq<char> {
    s.map_values(|c: char| lower_char(c))
}

/// Equality after ASCII case folding, the relation `str::eq_ignore_ascii_case` decides.
pub open spec fn same_ignoring_ascii_case(a: Seq<char>, b: Seq<char>) -> bool {
    ascii_lower(a) == ascii_lower(b)
}

/// Unicode `White_Space`, the property `char::is_whitespace` tests.
pub open spec fn is_white_space(c: char) -> bool {
    let x = c as u32;
    (0x9 <= x && x <= 0xd) || x == 0x20 || x == 0x85 || x == 0xa0 || x == 0x1680 || (0x2000 <= x
        && x <= 0x200a) || x == 0x2028 || x == 0x2029 || x == 0x202f || x == 0x205f || x == 0x3000
}

/// `s` without leading white space.
pub open spec fn trim_start(s: Seq<char>) -> Seq<char>
    decreases s.len(),
{
    if s.len() > 0 && is_white_space(s[0]) {
        trim_start(s.drop_first())
    } else {
        s
    }
}

/// `s` without trailing white space.
pub open spec fn trim_end(s: Seq<char>) -> Seq<char>
    decreases s.len(),
{
    if s.len() > 0 && is_white_space(s.last()) {
        trim_end(s.drop_last())
    } else {
        s
    }
}

/// `s` without leading or trailing white space, as `str::trim` gives it.
pub open spec fn trim(s: Seq<char>) -> Seq<char> {
    trim_end(trim_start(s))
}

/// `s` without any trailing occurrence of `c`, as `str::trim_end_matches(c)` gives it.
pub open spec fn trim_end_char(s: Seq<char>, c: char) -> Seq<char>
    decreases s.len(),
{
    if s.len() > 0 && s.last() == c {
        trim_end_char(s.drop_last(), c)
    } else {
        s
    }
}

/// The first index at or after `i` at which `pat` occurs in `s`, if any.
pub open spec fn find_from(s: Seq<char>, pat: Seq<char>, i: int) -> Option<int>
    decreases s.len() + 1 - i,
{
    if i < 0 || i + pat.len() > s.len() {
        None
    } else if occurs_at(s, pat, i) {
        Some(i)
    } else {
        find_from(s, pat, i + 1)
    }
}

/// The first index at which `pat` occurs in `s`, as `str::find` reports it (in characters).
pub open spec fn find(s: Seq<char>, pat: Seq<char>) -> Option<int> {
    find_from(s, pat, 0)
}

pub open spec fn occurs_at(s: Seq<char>, pat: Seq<char>, i: int) -> bool {
    0 <= i && i + pat.len() <= s.len() && s.subrange(i, i + pat.len()) == pat
}

pub open spec fn contains(s: Seq<char>, pat: Seq<char>) -> bool {
    exists|i: int| occurs_at(s, pat, i)
}

pub open spec fn digit(d: nat) -> char {
    (('0' as u32) + d) as char
}

/// The decimal digits of `n`, most significant first, without leading zeros.
pub open spec fn decimal(n: nat) -> Seq<char>
    decreases n,
{
    if n < 10 {
        seq![digit(n)]
    } else {
        decimal(n / 10).push(digit(n % 10))
    }
}

/// `n` in decimal with a leading `-` when negative, as `Display` writes integers.
pub open spec fn signed_decimal(n: int) -> Seq<char> {
    if n < 0 {
        seq!['-'] + decimal((-n) as nat)
    } else {
        decimal(n as nat)
    }
}

/// `n` in decimal, zero-padded to at least two digits, as `{:02}` writes it.
pub open spec fn two_digit_decimal(n: int) -> Seq<char> {
    if 0 <= n < 10 {
        seq!['0', digit(n as nat)]
    } else if -10 < n < 0 {
        seq!['-', digit((-n) as nat)]
    } else {
        signed_decimal(n)
    }
}

pub open spec fn bool_text(b: bool) -> Seq<char> {
    if b {
        seq!['t', 'r', 'u', 'e']
    } else {
        seq!['f', 'a', 'l', 's', 'e']
    }
}

/// The characters of `s`, in order.
pub fn chars_of(s: &str) -> (out: Vec<char>)
    ensures
        out@ == s@,
{
    let mut out: Vec<char> = Vec::new();
    for c in it: s.chars()
        invariant
            out@ == it.seq().take(it.index() as int),
    {
        out.push(c);
    }
    out
}

/// The string made of `cs[lo..hi]`.
pub fn string_of(cs: &Vec<char>, lo: usize, hi: usize) -> (s: String)
    requires
        lo <= hi <= cs.len(),
    ensures
        s@ == cs@.subrange(lo as int, hi as int),
{
    let mut s = String::new();
    let mut i: usize = lo;
    while i < hi
        invariant
            lo <= i <= hi <= cs.len(),
            s@ == cs@.subrange(lo as int, i as int),
        decreases hi - i,
    {
        s.push(cs[i]);
        assert(cs@.subrange(lo as int, i + 1) == cs@.subrange(lo as int, i as int).push(cs@[i as int]));
        i = i + 1;
    }
    s
}

/// Appends `t` to `s`.
pub fn push_str(s: &mut String, t: &str)
    ensures
        final(s)@ == old(s)@ + t@,
{
    s.append(t);
}

/// An owned copy of `s`.
pub fn owned(s: &str) -> (r: String)
    ensures
        r@ == s@,
{
    s.to_owned()
}

/// Whether `a` and `b` hold the same characters.
pub fn str_eq(a: &str, b: &str) -> (r: bool)
    ensures
        r == (a@ == b@),
{
    let x = a.to_owned();
    let y = b.to_owned();
    x == y
}

/// Whether `pre` is a prefix of `s`.
pub fn starts_with(s: &str, pre: &str) -> (r: bool)
    ensures
        r == pre@.is_prefix_of(s@),
{
    let a = chars_of(s);
    let b = chars_of(pre);
    if b.len() > a.len() {
        return false;
    }
    let mut i: usize = 0;
    while i < b.len()
        invariant
            b.len() <= a.len(),
            a@ == s@,
            b@ == pre@,
            i <= b.len(),
            forall|j: int| 0 <= j < i ==> a@[j] == b@[j],
        decreases b.len() - i,
    {
        if a[i] != b[i] {
            return false;
        }
        i = i + 1;
    }
    true
}

/// Whether `c` occurs in `s`.
pub fn has_char(s: &str, c: char) -> (r: bool)
    ensures
        r == s@.contains(c),
{
    let a = chars_of(s);
    let mut i: usize = 0;
    while i < a.len()
        invariant
            a@ == s@,
            i <= a.len(),
            forall|j: int| 0 <= j < i ==> a@[j] != c,
        decreases a.len() - i,
    {
        if a[i] == c {
            assert(s@[i as int] == c);
            return true;
        }
        i = i + 1;
    }
    false
}

pub fn lower_char_exec(c: char) -> (r: char)
    ensures
        r == lower_char(c),
{
    if 'A' <= c && c <= 'Z' {
        let b: u8 = (c as u32) as u8;
        (b + 32) as char
    } else {
        c
    }
}

pub fn is_white_space_exec(c: char) -> (r: bool)
    ensures
        r == is_white_space(c),
{
    let x: u32 = c as u32;
    (0x9 <= x && x <= 0xd) || x == 0x20 || x == 0x85 || x == 0xa0 || x == 0x1680 || (0x2000 <= x
        && x <= 0x200a) || x == 0x2028 || x == 0x2029 || x == 0x202f || x == 0x205f || x == 0x3000
}


proof fn lemma_trim_start_skip(s: Seq<char>, k: int)
    requires
        0 <= k <= s.len(),
        forall|j: int| 0 <= j < k ==> is_white_space(#[trigger] s[j]),
        k == s.len() || !is_white_space(s[k]),
    ensures
        trim_start(s) == s.skip(k),
    decreases k,
{
    if k == 0 {
        assert(s.skip(0) == s);
    } else {
        let t = s.drop_first();
        assert forall|j: int| 0 <= j < k - 1 implies is_white_space(#[trigger] t[j]) by {
            assert(t[j] == s[j + 1]);
        }
        lemma_trim_start_skip(t, k - 1);
        assert(t.skip(k - 1) == s.skip(k));
    }
}

proof fn lemma_trim_end_take(s: Seq<char>, m: int)
    requires
        0 <= m <= s.len(),
        forall|j: int| m <= j < s.len() ==> is_white_space(#[trigger] s[j]),
        m == 0 || !is_white_space(s[m - 1]),
    ensures
        trim_end(s) == s.take(m),
    decreases s.len() - m,
{
    if m == s.len() {
        assert(s.take(m) == s);
    } else {
        let t = s.drop_last();
        assert forall|j: int| m <= j < t.len() implies is_white_space(#[trigger] t[j]) by {
            assert(t[j] == s[j]);
        }
        assert(is_white_space(s[s.len() - 1]));
        lemma_trim_end_take(t, m);
        assert(t.take(m) == s.take(m));
    }
}

/// `s` without leading or trailing white space.
pub fn trim_str(s: &str) -> (r: String)
    ensures
        r@ == trim(s@),
{
    let cs = chars_of(s);
    let mut lo: usize = 0;
    while lo < cs.len() && is_white_space_exec(cs[lo])
        invariant
            lo <= cs.len(),
            cs@ == s@,
            forall|j: int| 0 <= j < lo ==> is_white_space(#[trigger] cs@[j]),
        decreases cs.len() - lo,
    {
        lo = lo + 1;
    }
    proof {
        lemma_trim_start_skip(s@, lo as int);
    }
    let mut hi: usize = cs.len();
    while hi > lo && is_white_space_exec(cs[hi - 1])
        invariant
            lo <= hi <= cs.len(),
            cs@ == s@,
            forall|j: int| hi <= j < cs.len() ==> is_white_space(#[trigger] cs@[j]),
        decreases hi,
    {
        hi = hi - 1;
    }
    proof {
        let t = s@.skip(lo as int);
        assert forall|j: int| hi - lo <= j < t.len() implies is_white_space(#[trigger] t[j]) by {
            assert(t[j] == cs@[lo + j]);
        }
        if hi > lo {
            assert(t[hi - lo - 1] == cs@[hi - 1]);
        }
        lemma_trim_end_take(t, hi - lo);
        assert(t.take(hi - lo) == cs@.subrange(lo as int, hi as int));
    }
    string_of(&cs, lo, hi)
}

/// `s` with ASCII letters in lower case.
pub fn ascii_lowercase(s: &str) -> (r: String)
    ensures
        r@ == ascii_lower(s@),
{
    let cs = chars_of(s);
    let mut r = String::new();
    let mut i: usize = 0;
    while i < cs.len()
        invariant
            i <= cs.len(),
            cs@ == s@,
            r@ == ascii_lower(s@.take(i as int)),
        decreases cs.len() - i,
    {
        r.push(lower_char_exec(cs[i]));
        assert(ascii_lower(s@.take(i + 1)) == ascii_lower(s@.take(i as int)).push(lower_char(s@[i as int])));
        i = i + 1;
    }
    assert(s@.take(cs.len() as int) == s@);
    r
}

/// Whether `a` and `b` are equal ignoring ASCII case.
pub fn eq_ignore_ascii_case(a: &str, b: &str) -> (r: bool)
    ensures
        r == same_ignoring_ascii_case(a@, b@),
{
    let x = ascii_lowercase(a);
    let y = ascii_lowercase(b);
    x == y
}

/// Where `pat` first occurs in `s`, in characters.
pub fn find_str(s: &str, pat: &str) -> (r: Option<usize>)
    ensures
        match r {
            Some(i) => find(s@, pat@) == Some(i as int),
            None => find(s@, pat@) is None,
        },
{
    let a = chars_of(s);
    let p = chars_of(pat);
    if p.len() > a.len() {
        assert(find_from(s@, pat@, 0) is None);
        return None;
    }
    let mut i: usize = 0;
    while i <= a.len() - p.len()
        invariant
            a@ == s@,
            p@ == pat@,
            p.len() <= a.len(),
            i <= a.len() - p.len() + 1,
            find(s@, pat@) == find_from(s@, pat@, i as int),
        decreases a.len() - i,
    {
        let mut j: usize = 0;
        while j < p.len()
            invariant
                a@ == s@,
                p@ == pat@,
                i + p.len() <= a.len(),
                j <= p.len(),
                forall|k: int| 0 <= k < j ==> a@[i + k] == p@[k],
            ensures
                j <= p.len(),
                forall|k: int| 0 <= k < j ==> a@[i + k] == p@[k],
                j == p.len() || a@[i + j] != p@[j as int],
            decreases p.len() - j,
        {
            if a[i + j] != p[j] {
                break;
            }
            j = j + 1;
        }
        if j == p.len() {
            assert(s@.subrange(i as int, i + pat@.len()) =~= pat@);
            return Some(i);
        }
        assert(s@.subrange(i as int, i + pat@.len())[j as int] != pat@[j as int]);
        i = i + 1;
    }
    None
}


fn digit_exec(d: u64) -> (c: char)
    requires
        d < 10,
    ensures
        c == digit(d as nat),
{
    let b: u8 = d as u8;
    (b + 48) as char
}

/// `n` in decimal.
pub fn u64_decimal(n: u64) -> (r: String)
    ensures
        r@ == decimal(n as nat),
    decreases n,
{
    if n < 10 {
        let mut s = String::new();
        s.push(digit_exec(n));
        assert(s@ == seq![digit(n as nat)]);
        s
    } else {
        let mut s = u64_decimal(n / 10);
        s.push(digit_exec(n % 10));
        s
    }
}

/// `n` in decimal, with a leading `-` when negative.
pub fn i64_decimal(n: i64) -> (r: String)
    ensures
        r@ == signed_decimal(n as int),
{
    if n < 0 {
        let m: u64 = (0i128 - (n as i128)) as u64;
        let mut s = String::new();
        s.push('-');
        let d = u64_decimal(m);
        s.append(d.as_str());
        s
    } else {
        u64_decimal(n as u64)
    }
}

/// `n` in decimal, zero-padded to two digits.
pub fn two_digit(n: i64) -> (r: String)
    ensures
        r@ == two_digit_decimal(n as int),
{
    if 0 <= n && n < 10 {
        let mut s = String::new();
        s.push('0');
        s.push(digit_exec(n as u64));
        s
    } else if -10 < n && n < 0 {
        let mut s = String::new();
        s.push('-');
        s.push(digit_exec((0 - n) as u64));
        s
    } else {
        i64_decimal(n)
    }
}

/// `true` or `false`.
pub fn bool_string(b: bool) -> (r: String)
    ensures
        r@ == bool_text(b),
{
    let mut s = String::new();
    if b {
        s.push('t');
        s.push('r');
        s.push('u');
        s.push('e');
    } else {
        s.push('f');
        s.push('a');
        s.push('l');
        s.push('s');
        s.push('e');
    }
    s
}


/// The pieces of `s` between occurrences of `c`, as `str::split` with a
/// `char` yields them (an empty `s` is one empty piece).
pub open spec fn split_char(s: Seq<char>, c: char) -> Seq<Seq<char>>
    decreases s.len(),
{
    if s.len() == 0 {
        seq![Seq::<char>::empty()]
    } else {
        let l = split_char(s.drop_last(), c);
        if s.last() == c {
            l.push(Seq::empty())
        } else {
            l.update(l.len() - 1, l.last().push(s.last()))
        }
    }
}

pub open spec fn is_digit(c: char) -> bool {
    '0' <= c && c <= '9'
}

pub open spec fn digit_value(c: char) -> int {
    (c as u32) - ('0' as u32)
}

/// The number the decimal digits `s` spell.
pub open spec fn digits_value(s: Seq<char>) -> int
    decreases s.len(),
{
    if s.len() == 0 {
        0
    } else {
        digits_value(s.drop_last()) * 10 + digit_value(s.last())
    }
}

pub open spec fn all_digits(s: Seq<char>) -> bool {
    forall|i: int| 0 <= i < s.len() ==> is_digit(#[trigger] s[i])
}

/// An optional `+` or `-` followed by one or more decimal digits, the form
/// `str::parse` accepts for an integer.
pub open spec fn parse_int(s: Seq<char>) -> Option<int> {
    if s.len() > 0 && s[0] == '-' {
        if s.len() > 1 && all_digits(s.drop_first()) {
            Some(-digits_value(s.drop_first()))
        } else {
            None
        }
    } else {
        let body = if s.len() > 0 && s[0] == '+' {
            s.drop_first()
        } else {
            s
        };
        if body.len() > 0 && all_digits(body) {
            Some(digits_value(body))
        } else {
            None
        }
    }
}

/// `s.parse::<i64>()`, as an option.
pub open spec fn parse_i64(s: Seq<char>) -> Option<i64> {
    match parse_int(s) {
        Some(v) => if i64::MIN <= v <= i64::MAX {
            Some(v as i64)
        } else {
            None
        },
        None => None,
    }
}

proof fn lemma_digits_value_nonneg(s: Seq<char>)
    requires
        all_digits(s),
    ensures
        digits_value(s) >= 0,
    decreases s.len(),
{
    if s.len() > 0 {
        assert(all_digits(s.drop_last())) by {
            assert forall|i: int| 0 <= i < s.drop_last().len() implies is_digit(
                #[trigger] s.drop_last()[i],
            ) by {
                assert(s.drop_last()[i] == s[i]);
            }
        }
        lemma_digits_value_nonneg(s.drop_last());
        assert(is_digit(s[s.len() - 1]));
    }
}

/// Value of the digits `s[lo..hi]`, saturated: `None` once it exceeds `2^63`.
fn digits_prefix_value(cs: &Vec<char>, lo: usize) -> (r: Option<i128>)
    requires
        lo <= cs@.len(),
        all_digits(cs@.skip(lo as int)),
    ensures
        match r {
            Some(v) => v == digits_value(cs@.skip(lo as int)) && v <= 9223372036854775808,
            None => digits_value(cs@.skip(lo as int)) > 9223372036854775808,
        },
{
    let mut acc: i128 = 0;
    let mut i: usize = lo;
    let ghost body = cs@.skip(lo as int);
    assert(body.take(0) =~= Seq::<char>::empty());
    while i < cs.len()
        invariant
            lo <= i <= cs@.len(),
            body == cs@.skip(lo as int),
            all_digits(body),
            0 <= acc <= 9223372036854775808,
            acc == digits_value(body.take(i - lo)),
        decreases cs.len() - i,
    {
        proof {
            assert(body[i - lo] == cs@[i as int]);
            assert(is_digit(body[i - lo]));
            assert(body.take(i - lo + 1).drop_last() =~= body.take(i - lo));
        }
        let d: i128 = ((cs[i] as u32) - 48) as i128;
        let next = acc * 10 + d;
        if next > 9223372036854775808 {
            proof {
                let k = i - lo + 1;
                // every further digit only multiplies the value up
                lemma_digits_grow(body, k);
            }
            return None;
        }
        acc = next;
        i = i + 1;
    }
    assert(body.take(i - lo) =~= body);
    Some(acc)
}

proof fn lemma_digits_grow(s: Seq<char>, k: int)
    requires
        all_digits(s),
        0 < k <= s.len(),
    ensures
        digits_value(s) >= digits_value(s.take(k)),
    decreases s.len() - k,
{
    if k < s.len() {
        lemma_digits_grow(s, k + 1);
        assert(s.take(k + 1).drop_last() =~= s.take(k));
        assert(is_digit(s[k]));
        assert(all_digits(s.take(k))) by {
            assert forall|i: int| 0 <= i < s.take(k).len() implies is_digit(#[trigger] s.take(k)[i]) by {
                assert(s.take(k)[i] == s[i]);
            }
        }
        lemma_digits_value_nonneg(s.take(k));
    } else {
        assert(s.take(k) =~= s);
    }
}

/// `s.parse::<i64>().ok()`.
pub fn parse_i64_exec(s: &str) -> (r: Option<i64>)
    ensures
        r == parse_i64(s@),
{
    let cs = chars_of(s);
    let n = cs.len();
    let neg = n > 0 && cs[0] == '-';
    let lo: usize = if n > 0 && (cs[0] == '-' || cs[0] == '+') {
        1
    } else {
        0
    };
    if lo >= n {
        proof {
            if n > 0 && cs@[0] == '+' {
                assert(s@.drop_first().len() == 0);
            }
        }
        return None;
    }
    let mut i: usize = lo;
    while i < n
        invariant
            lo <= i <= n,
            n == cs@.len(),
            cs@ == s@,
            lo == 0 || lo == 1,
            lo == 1 ==> (cs@[0] == '-' || cs@[0] == '+'),
            lo == 0 ==> !(n > 0 && (cs@[0] == '-' || cs@[0] == '+')),
            forall|j: int| lo <= j < i ==> is_digit(#[trigger] cs@[j]),
        decreases n - i,
    {
        if !('0' <= cs[i] && cs[i] <= '9') {
            proof {
                let body = s@.skip(lo as int);
                assert(body[i - lo] == cs@[i as int]);
                if lo == 1 {
                    assert(body =~= s@.drop_first());
                } else {
                    assert(body =~= s@);
                }
            }
            return None;
        }
        i = i + 1;
    }
    let ghost body = s@.skip(lo as int);
    proof {
        assert forall|j: int| 0 <= j < body.len() implies is_digit(#[trigger] body[j]) by {
            assert(body[j] == cs@[lo + j]);
        }
        if lo == 1 {
            assert(body =~= s@.drop_first());
        } else {
            assert(body =~= s@);
        }
    }
    match digits_prefix_value(&cs, lo) {
        Some(v) => {
            proof {
                lemma_digits_value_nonneg(body);
            }
            if neg {
                Some((0 - v) as i64)
            } else if v <= 9223372036854775807 {
                Some(v as i64)
            } else {
                None
            }
        },
        None => None,
    }
}


proof fn lemma_find_from_bounds(s: Seq<char>, pat: Seq<char>, i: int)
    ensures
        match find_from(s, pat, i) {
            Some(k) => i <= k && occurs_at(s, pat, k),
            None => true,
        },
    decreases s.len() + 1 - i,
{
    if i < 0 || i + pat.len() > s.len() {
    } else if occurs_at(s, pat, i) {
    } else {
        lemma_find_from_bounds(s, pat, i + 1);
    }
}

/// A found position is a real occurrence inside `s`.
pub proof fn lemma_find_bounds(s: Seq<char>, pat: Seq<char>)
    ensures
        match find(s, pat) {
            Some(k) => 0 <= k && k + pat.len() <= s.len() && s.subrange(k, k + pat.len()) == pat,
            None => true,
        },
{
    lemma_find_from_bounds(s, pat, 0);
}

/// What `format!("{:?}", s)` writes for a string `s`: `s` in double quotes,
/// with the escapes of `char::escape_debug`.
pub uninterp spec fn debug_str(s: Seq<char>) -> Seq<char>;

/// `s` as `{:?}` renders a `str`.
///
/// Trusted: the result is the text the name `debug_str` stands for, a
/// function of `s` alone (std's `Debug for str`).
#[verifier::external_body]
pub(crate) fn debug_quoted(s: &str) -> (r: String)
    ensures
        r@ == debug_str(s@),
{
    format!("{s:?}")
}

/// Trimming a word followed by a newline leaves the word, when the word has
/// no white space at its ends.
pub proof fn lemma_trim_drops_a_final_newline(s: Seq<char>)
    requires
        s.len() >= 2,
        s.last() == '\n',
        !is_white_space(s[0]),
        !is_white_space(s[s.len() - 2]),
    ensures
        trim(s) == s.drop_last(),
{
    assert(trim_start(s) == s);
    assert(trim_end(s) == trim_end(s.drop_last()));
    assert(s.drop_last().last() == s[s.len() - 2]);
    assert(trim_end(s.drop_last()) == s.drop_last());
}

} // verus!
