//! Character-level string operations used by the rest of the library,
//! each stated over the `Seq<char>` view of the strings involved.

use vstd::prelude::*;

verus! {

/// Whether `c` carries the Unicode `White_Space` property (PropList.txt):
/// U+0009..U+000D, U+0020, U+0085, U+00A0, U+1680, U+2000..U+200A, U+2028,
/// U+2029, U+202F, U+205F and U+3000.
pub open spec fn is_white_space(c: char) -> bool {
    let v = c as u32;
    ||| 0x09 <= v <= 0x0D
    ||| v == 0x20
    ||| v == 0x85
    ||| v == 0xA0
    ||| v == 0x1680
    ||| 0x2000 <= v <= 0x200A
    ||| v == 0x2028
    ||| v == 0x2029
    ||| v == 0x202F
    ||| v == 0x205F
    ||| v == 0x3000
}

/// The lower-case form of a string, as `str::to_lowercase` computes it.
pub uninterp spec fn lowercase(s: Seq<char>) -> Seq<char>;

/// Whether `c` has the Unicode `White_Space` property, which is what
/// `char::is_whitespace` answers.
pub(crate) fn char_is_whitespace(c: char) -> (r: bool)
    ensures
        r == is_white_space(c),
{
    let v = c as u32;
    (0x09 <= v && v <= 0x0D) || v == 0x20 || v == 0x85 || v == 0xA0 || v == 0x1680
        || (0x2000 <= v && v <= 0x200A) || v == 0x2028 || v == 0x2029 || v == 0x202F
        || v == 0x205F || v == 0x3000
}

/// Calls `str::to_lowercase`; the contract says that the result is the
/// lower-case form of `s`, which `lowercase` names (the Unicode tables are not written out).
#[verifier::external_body]
pub(crate) fn to_lowercase(s: &str) -> (r: String)
    ensures
        r@ == lowercase(s@),
{
    s.to_lowercase()
}

/// Calls `String::push`: the string afterwards is the old one with `c` appended.
#[verifier::external_body]
pub(crate) fn push_char(s: &mut String, c: char)
    ensures
        final(s)@ == old(s)@.push(c),
{
    s.push(c)
}

// ---------------------------------------------------------------------------
// Specifications
// ---------------------------------------------------------------------------

/// `p` is a prefix of `s`.
pub open spec fn seq_starts_with(s: Seq<char>, p: Seq<char>) -> bool {
    p.len() <= s.len() && s.subrange(0, p.len() as int) == p
}

/// The last character of `s` is `c`.
pub open spec fn seq_ends_with_char(s: Seq<char>, c: char) -> bool {
    s.len() > 0 && s.last() == c
}

/// The position of the last occurrence of `c` in `s`, or -1.
pub open spec fn last_index_of(s: Seq<char>, c: char) -> int
    decreases s.len(),
{
    if s.len() == 0 {
        -1
    } else if s.last() == c {
        s.len() - 1
    } else {
        last_index_of(s.drop_last(), c)
    }
}

/// What follows the last `c` in `s`; the whole of `s` when `c` does not occur.
pub open spec fn after_last(s: Seq<char>, c: char) -> Seq<char> {
    s.skip(last_index_of(s, c) + 1)
}

/// What precedes the first `c` in `s`; the whole of `s` when `c` does not occur.
pub open spec fn before_first(s: Seq<char>, c: char) -> Seq<char>
    decreases s.len(),
{
    if s.len() == 0 {
        s
    } else if s[0] == c {
        Seq::empty()
    } else {
        seq![s[0]] + before_first(s.drop_first(), c)
    }
}

/// `s` without its leading white space.
pub open spec fn trim_start(s: Seq<char>) -> Seq<char>
    decreases s.len(),
{
    if s.len() > 0 && is_white_space(s[0]) {
        trim_start(s.drop_first())
    } else {
        s
    }
}

/// `s` without its trailing white space.
pub open spec fn trim_end(s: Seq<char>) -> Seq<char>
    decreases s.len(),
{
    if s.len() > 0 && is_white_space(s.last()) {
        trim_end(s.drop_last())
    } else {
        s
    }
}

/// `s` without leading and trailing white space, as `str::trim` gives it.
pub open spec fn trimmed(s: Seq<char>) -> Seq<char> {
    trim_end(trim_start(s))
}

/// The decimal digit for `d` (below ten).
pub open spec fn digit_char(d: nat) -> char {
    if d == 0 {
        '0'
    } else if d == 1 {
        '1'
    } else if d == 2 {
        '2'
    } else if d == 3 {
        '3'
    } else if d == 4 {
        '4'
    } else if d == 5 {
        '5'
    } else if d == 6 {
        '6'
    } else if d == 7 {
        '7'
    } else if d == 8 {
        '8'
    } else {
        '9'
    }
}

/// The decimal representation of `n`, without leading zeros.
pub open spec fn decimal(n: nat) -> Seq<char>
    decreases n,
{
    if n < 10 {
        seq![digit_char(n)]
    } else {
        decimal(n / 10).push(digit_char(n % 10))
    }
}

// ---------------------------------------------------------------------------
// Lemmas
// ---------------------------------------------------------------------------

/// `c` is one of the ten decimal digits.
pub open spec fn is_digit(c: char) -> bool {
    '0' <= c <= '9'
}

/// The decimal representation of a number is a non-empty run of digits.
pub proof fn lemma_decimal_digits(n: nat)
    ensures
        decimal(n).len() >= 1,
        forall|i: int| 0 <= i < decimal(n).len() ==> is_digit(#[trigger] decimal(n)[i]),
    decreases n,
{
    if n >= 10 {
        lemma_decimal_digits(n / 10);
        let d = decimal(n / 10);
        assert forall|i: int| 0 <= i < decimal(n).len() implies is_digit(#[trigger] decimal(n)[i]) by {
            if i < d.len() {
                assert(decimal(n)[i] == d[i]);
            }
        }
    }
}

/// Different numbers have different decimal representations.
pub proof fn lemma_decimal_injective(a: nat, b: nat)
    requires
        decimal(a) == decimal(b),
    ensures
        a == b,
    decreases a,
{
    if a >= 10 {
        lemma_decimal_digits(a / 10);
    }
    if b >= 10 {
        lemma_decimal_digits(b / 10);
    }
    if a >= 10 && b >= 10 {
        assert(decimal(a).last() == digit_char(a % 10));
        assert(decimal(b).last() == digit_char(b % 10));
        assert(decimal(a).drop_last() =~= decimal(a / 10));
        assert(decimal(b).drop_last() =~= decimal(b / 10));
        lemma_decimal_injective(a / 10, b / 10);
        assert(a % 10 == b % 10);
        assert(a == 10 * (a / 10) + a % 10) by (nonlinear_arith);
        assert(b == 10 * (b / 10) + b % 10) by (nonlinear_arith);
    } else if a < 10 && b < 10 {
        assert(decimal(a)[0] == digit_char(a));
        assert(decimal(b)[0] == digit_char(b));
        assert(digit_char(a) == digit_char(b));
    } else if a < 10 {
        assert(decimal(a).len() == 1);
        assert(decimal(b).len() == decimal(b / 10).len() + 1);
    } else {
        assert(decimal(b).len() == 1);
        assert(decimal(a).len() == decimal(a / 10).len() + 1);
    }
}

/// Extending a prefix by one character moves the last occurrence accordingly.
pub proof fn lemma_last_index_of_step(s: Seq<char>, c: char, i: int)
    requires
        0 <= i < s.len(),
    ensures
        last_index_of(s.take(i + 1), c) == if s[i] == c {
            i
        } else {
            last_index_of(s.take(i), c)
        },
{
    assert(s.take(i + 1).drop_last() =~= s.take(i));
}

/// The last occurrence lies inside `s`, and holds `c` when there is one.
pub proof fn lemma_last_index_of_bounds(s: Seq<char>, c: char)
    ensures
        -1 <= last_index_of(s, c) < s.len(),
        last_index_of(s, c) >= 0 ==> s[last_index_of(s, c)] == c,
        forall|j: int| last_index_of(s, c) < j < s.len() ==> s[j] != c,
    decreases s.len(),
{
    if s.len() > 0 && s.last() != c {
        let d = s.drop_last();
        lemma_last_index_of_bounds(d, c);
        assert forall|j: int| last_index_of(s, c) < j < s.len() implies s[j] != c by {
            if j < d.len() {
                assert(s[j] == d[j]);
            }
        }
    }
}

/// `before_first` is the prefix that ends at the first `c`.
pub proof fn lemma_before_first_prefix(s: Seq<char>, c: char, k: int)
    requires
        0 <= k <= s.len(),
        forall|j: int| 0 <= j < k ==> s[j] != c,
        k < s.len() ==> s[k] == c,
    ensures
        before_first(s, c) == s.take(k),
    decreases s.len(),
{
    if s.len() == 0 {
        assert(s.take(k) =~= s);
    } else if s[0] == c {
        assert(s.take(k) =~= Seq::<char>::empty());
    } else {
        lemma_before_first_prefix(s.drop_first(), c, k - 1);
        assert(s.take(k) =~= seq![s[0]] + s.drop_first().take(k - 1));
    }
}

/// A string of white space only trims to nothing from the front.
proof fn lemma_trim_start_all_white(s: Seq<char>)
    requires
        forall|i: int| 0 <= i < s.len() ==> is_white_space(s[i]),
    ensures
        trim_start(s).len() == 0,
    decreases s.len(),
{
    if s.len() > 0 {
        lemma_trim_start_all_white(s.drop_first());
    }
}

/// A character that is not white space survives trimming from the front.
proof fn lemma_trim_start_keeps_visible(s: Seq<char>, i: int) -> (j: int)
    requires
        0 <= i < s.len(),
        !is_white_space(s[i]),
    ensures
        0 <= j < trim_start(s).len(),
        !is_white_space(trim_start(s)[j]),
    decreases s.len(),
{
    if is_white_space(s[0]) {
        lemma_trim_start_keeps_visible(s.drop_first(), i - 1)
    } else {
        i
    }
}

/// A string with a character that is not white space does not trim to
/// nothing from the back.
proof fn lemma_trim_end_keeps_visible(s: Seq<char>, i: int)
    requires
        0 <= i < s.len(),
        !is_white_space(s[i]),
    ensures
        trim_end(s).len() > 0,
    decreases s.len(),
{
    if is_white_space(s.last()) {
        lemma_trim_end_keeps_visible(s.drop_last(), i);
    }
}

/// Law: trimming leaves nothing exactly when the string is white space only.
pub proof fn law_trimmed_empty_iff_white(s: Seq<char>)
    ensures
        trimmed(s).len() == 0 <==> forall|i: int| 0 <= i < s.len() ==> is_white_space(#[trigger] s[i]),
{
    if forall|i: int| 0 <= i < s.len() ==> is_white_space(#[trigger] s[i]) {
        lemma_trim_start_all_white(s);
    } else {
        let i = choose|i: int| 0 <= i < s.len() && !is_white_space(#[trigger] s[i]);
        let j = lemma_trim_start_keeps_visible(s, i);
        lemma_trim_end_keeps_visible(trim_start(s), j);
    }
}

/// Dropping leading white space, one character at a time.
pub proof fn lemma_trim_start_skip(s: Seq<char>, i: int)
    requires
        0 <= i <= s.len(),
        forall|j: int| 0 <= j < i ==> is_white_space(s[j]),
    ensures
        trim_start(s) == trim_start(s.skip(i)),
    decreases i,
{
    if i > 0 {
        assert(s.drop_first().skip(i - 1) =~= s.skip(i));
        lemma_trim_start_skip(s.drop_first(), i - 1);
    } else {
        assert(s.skip(0) =~= s);
    }
}

/// Dropping trailing white space, one character at a time.
pub proof fn lemma_trim_end_take(s: Seq<char>, i: int)
    requires
        0 <= i <= s.len(),
        forall|j: int| i <= j < s.len() ==> is_white_space(s[j]),
    ensures
        trim_end(s) == trim_end(s.take(i)),
    decreases s.len() - i,
{
    if i < s.len() {
        assert(s.drop_last().take(i) =~= s.take(i));
        lemma_trim_end_take(s.drop_last(), i);
    } else {
        assert(s.take(i) =~= s);
    }
}

// ---------------------------------------------------------------------------
// Executable operations
// ---------------------------------------------------------------------------

/// A fresh `String` holding the characters of `s`.
pub fn owned(s: &str) -> (r: String)
    ensures
        r@ == s@,
{
    String::from_str(s)
}

/// A copy of `s`.
pub fn copy_string(s: &String) -> (r: String)
    ensures
        r@ == s@,
{
    String::from_str(s.as_str())
}

/// The concatenation of `a` and `b`.
pub fn concat(a: &str, b: &str) -> (r: String)
    ensures
        r@ == a@ + b@,
{
    let mut r = String::from_str(a);
    r.append(b);
    r
}

/// Whether `a` and `b` hold the same characters.
pub fn str_eq(a: &str, b: &str) -> (r: bool)
    ensures
        r == (a@ == b@),
{
    let n = a.unicode_len();
    let m = b.unicode_len();
    if n != m {
        return false;
    }
    let mut i: usize = 0;
    while i < n
        invariant
            n == a@.len(),
            m == b@.len(),
            n == m,
            i <= n,
            forall|k: int| 0 <= k < i ==> a@[k] == b@[k],
        decreases n - i,
    {
        if a.get_char(i) != b.get_char(i) {
            return false;
        }
        i += 1;
    }
    assert(a@ =~= b@);
    true
}

/// Whether `s` begins with `p`.
pub fn starts_with(s: &str, p: &str) -> (r: bool)
    ensures
        r == seq_starts_with(s@, p@),
{
    let n = s.unicode_len();
    let m = p.unicode_len();
    if m > n {
        return false;
    }
    let mut i: usize = 0;
    while i < m
        invariant
            n == s@.len(),
            m == p@.len(),
            m <= n,
            i <= m,
            forall|k: int| 0 <= k < i ==> s@[k] == p@[k],
        decreases m - i,
    {
        if s.get_char(i) != p.get_char(i) {
            assert(s@.subrange(0, m as int)[i as int] != p@[i as int]);
            return false;
        }
        i += 1;
    }
    assert(s@.subrange(0, m as int) =~= p@);
    true
}

/// Whether the last character of `s` is `c`.
pub fn ends_with_char(s: &str, c: char) -> (r: bool)
    ensures
        r == seq_ends_with_char(s@, c),
{
    let n = s.unicode_len();
    if n == 0 {
        false
    } else {
        s.get_char(n - 1) == c
    }
}

/// The characters of `s` from position `from` up to (not including) `to`.
pub fn slice(s: &str, from: usize, to: usize) -> (r: String)
    requires
        from <= to <= s@.len(),
    ensures
        r@ == s@.subrange(from as int, to as int),
{
    String::from_str(s.substring_char(from, to))
}

/// What follows the last `c` in `s` (all of `s` when `c` does not occur),
/// as `s.rsplit(c).next()` gives it.
pub fn after_last_char(s: &str, c: char) -> (r: String)
    ensures
        r@ == after_last(s@, c),
{
    let n = s.unicode_len();
    let mut start: usize = 0;
    let mut i: usize = 0;
    assert(s@.take(0) =~= Seq::<char>::empty());
    while i < n
        invariant
            n == s@.len(),
            i <= n,
            start as int == last_index_of(s@.take(i as int), c) + 1,
        decreases n - i,
    {
        proof {
            lemma_last_index_of_step(s@, c, i as int);
        }
        if s.get_char(i) == c {
            start = i + 1;
        }
        i += 1;
    }
    assert(s@.take(n as int) =~= s@);
    proof {
        lemma_last_index_of_bounds(s@, c);
    }
    let r = slice(s, start, n);
    assert(r@ =~= after_last(s@, c));
    r
}

/// What precedes the first `c` in `s` (all of `s` when `c` does not occur).
pub fn before_first_char(s: &str, c: char) -> (r: String)
    ensures
        r@ == before_first(s@, c),
{
    let n = s.unicode_len();
    let mut i: usize = 0;
    while i < n && s.get_char(i) != c
        invariant
            n == s@.len(),
            i <= n,
            forall|j: int| 0 <= j < i ==> s@[j] != c,
        decreases n - i,
    {
        i += 1;
    }
    proof {
        lemma_before_first_prefix(s@, c, i as int);
    }
    let r = slice(s, 0, i);
    assert(r@ =~= s@.take(i as int));
    r
}

/// `s` without leading and trailing white space, as `str::trim` gives it.
pub fn trim(s: &str) -> (r: String)
    ensures
        r@ == trimmed(s@),
{
    let n = s.unicode_len();
    let mut i: usize = 0;
    while i < n && char_is_whitespace(s.get_char(i))
        invariant
            n == s@.len(),
            i <= n,
            forall|j: int| 0 <= j < i ==> is_white_space(s@[j]),
        decreases n - i,
    {
        i += 1;
    }
    proof {
        lemma_trim_start_skip(s@, i as int);
    }
    let ghost rest = s@.skip(i as int);
    assert(i < n ==> !is_white_space(rest[0]));
    assert(trim_start(rest) == rest);
    let mut j: usize = n;
    while j > i && char_is_whitespace(s.get_char(j - 1))
        invariant
            n == s@.len(),
            i <= j <= n,
            rest == s@.skip(i as int),
            forall|k: int| j <= k < n ==> is_white_space(s@[k]),
        decreases j,
    {
        j -= 1;
    }
    proof {
        let t = (j - i) as int;
        assert forall|k: int| t <= k < rest.len() implies is_white_space(rest[k]) by {
            assert(rest[k] == s@[k + i]);
        }
        lemma_trim_end_take(rest, t);
        let pre = rest.take(t);
        assert(pre =~= s@.subrange(i as int, j as int));
        if t > 0 {
            assert(pre.last() == s@[j - 1]);
        }
        assert(trim_end(pre) == pre);
    }
    slice(s, i, j)
}

/// The decimal digit for `d`.
fn digit(d: u64) -> (c: char)
    requires
        d < 10,
    ensures
        c == digit_char(d as nat),
{
    match d {
        0 => '0',
        1 => '1',
        2 => '2',
        3 => '3',
        4 => '4',
        5 => '5',
        6 => '6',
        7 => '7',
        8 => '8',
        _ => '9',
    }
}

/// The decimal representation of `n`, as `format!("{n}")` writes it.
pub fn u64_to_decimal(n: u64) -> (r: String)
    ensures
        r@ == decimal(n as nat),
    decreases n,
{
    if n < 10 {
        let mut r = String::new();
        push_char(&mut r, digit(n));
        assert(r@ =~= seq![digit_char(n as nat)]);
        r
    } else {
        let mut r = u64_to_decimal(n / 10);
        push_char(&mut r, digit(n % 10));
        r
    }
}

/// The decimal representation of `n`, as `format!("{n}")` writes it.
pub fn u32_to_decimal(n: u32) -> (r: String)
    ensures
        r@ == decimal(n as nat),
{
    u64_to_decimal(n as u64)
}

/// The decimal representation of `n`, as `format!("{n}")` writes it.
pub fn usize_to_decimal(n: usize) -> (r: String)
    ensures
        r@ == decimal(n as nat),
{
    u64_to_decimal(n as u64)
}

/// The views of a sequence of strings.
pub open spec fn views(v: Seq<String>) -> Seq<Seq<char>> {
    v.map_values(|s: String| s@)
}

} // verus!
