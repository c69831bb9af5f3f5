//! Character-level helpers shared by the tools: whitespace trimming,
//! searching, decimal formatting and parsing, all over `Seq<char>`.
use vstd::prelude::*;
use vstd::string::StringExecFns;

verus! {

/// `String::push`: appends one character.
#[verifier::external_body]
pub(crate) fn push_char(s: &mut String, c: char)
    ensures
        final(s)@ == old(s)@.push(c),
{
    s.push(c);
}

/// The characters of a string slice, in order.
pub fn chars_of(s: &str) -> (r: Vec<char>)
    ensures
        r@ == s@,
{
    broadcast use vstd::string::group_string_axioms;
    let mut r: Vec<char> = Vec::new();
    for c in it: s.chars()
        invariant
            r@ == it.seq().take(it.index() as int),
    {
        r.push(c);
    }
    assert(r@ =~= s@);
    r
}

/// The string made of the given characters.
pub fn string_of(v: &Vec<char>) -> (r: String)
    ensures
        r@ == v@,
{
    let mut r = String::new();
    let n = v.len();
    for i in 0..n
        invariant
            n == v.len(),
            r@ == v@.take(i as int),
    {
        push_char(&mut r, v[i]);
        assert(v@.take(i + 1) =~= v@.take(i as int).push(v@[i as int]));
    }
    assert(v@.take(n as int) =~= v@);
    r
}


/// `char::is_whitespace`: the Unicode `White_Space` property.
pub open spec fn is_ws(c: char) -> bool {
    ||| ('\u{9}' <= c && c <= '\u{d}')
    ||| c == ' '
    ||| c == '\u{85}'
    ||| c == '\u{a0}'
    ||| c == '\u{1680}'
    ||| ('\u{2000}' <= c && c <= '\u{200a}')
    ||| c == '\u{2028}'
    ||| c == '\u{2029}'
    ||| c == '\u{202f}'
    ||| c == '\u{205f}'
    ||| c == '\u{3000}'
}

/// Whether `c` is whitespace (`char::is_whitespace`).
pub fn is_whitespace(c: char) -> (r: bool)
    ensures
        r == is_ws(c),
{
    ('\u{9}' <= c && c <= '\u{d}') || c == ' ' || c == '\u{85}' || c == '\u{a0}' || c == '\u{1680}'
        || ('\u{2000}' <= c && c <= '\u{200a}') || c == '\u{2028}' || c == '\u{2029}' || c
        == '\u{202f}' || c == '\u{205f}' || c == '\u{3000}'
}

/// `s` without its leading whitespace.
pub open spec fn trim_start(s: Seq<char>) -> Seq<char>
    decreases s.len(),
{
    if s.len() > 0 && is_ws(s[0]) {
        trim_start(s.drop_first())
    } else {
        s
    }
}

/// `s` without its trailing whitespace.
pub open spec fn trim_end(s: Seq<char>) -> Seq<char>
    decreases s.len(),
{
    if s.len() > 0 && is_ws(s.last()) {
        trim_end(s.drop_last())
    } else {
        s
    }
}

/// `str::trim`: `s` without leading and trailing whitespace.
pub open spec fn trim(s: Seq<char>) -> Seq<char> {
    trim_end(trim_start(s))
}

proof fn lemma_trim_start_skip(s: Seq<char>, i: int)
    requires
        0 <= i <= s.len(),
        forall|k: int| 0 <= k < i ==> is_ws(#[trigger] s[k]),
    ensures
        trim_start(s) == trim_start(s.subrange(i, s.len() as int)),
    decreases i,
{
    if i > 0 {
        assert(s.drop_first().subrange(i - 1, s.drop_first().len() as int) =~= s.subrange(
            i,
            s.len() as int,
        ));
        lemma_trim_start_skip(s.drop_first(), i - 1);
    } else {
        assert(s.subrange(0, s.len() as int) =~= s);
    }
}

proof fn lemma_trim_end_cut(s: Seq<char>, j: int)
    requires
        0 <= j <= s.len(),
        forall|k: int| j <= k < s.len() ==> is_ws(#[trigger] s[k]),
    ensures
        trim_end(s) == trim_end(s.subrange(0, j)),
    decreases s.len() - j,
{
    if j < s.len() {
        assert(s.drop_last().subrange(0, j) =~= s.subrange(0, j));
        lemma_trim_end_cut(s.drop_last(), j);
    } else {
        assert(s.subrange(0, j) =~= s);
    }
}

/// The characters of `v` between `from` and `to`.
pub fn slice_chars(v: &Vec<char>, from: usize, to: usize) -> (r: Vec<char>)
    requires
        from <= to <= v.len(),
    ensures
        r@ == v@.subrange(from as int, to as int),
{
    let mut r: Vec<char> = Vec::new();
    let mut i = from;
    while i < to
        invariant
            from <= i <= to <= v.len(),
            r@ == v@.subrange(from as int, i as int),
        decreases to - i,
    {
        r.push(v[i]);
        assert(v@.subrange(from as int, i + 1) =~= v@.subrange(from as int, i as int).push(
            v@[i as int],
        ));
        i = i + 1;
    }
    r
}

/// `str::trim` on a character vector.
pub fn trim_chars(v: &Vec<char>) -> (r: Vec<char>)
    ensures
        r@ == trim(v@),
{
    let n = v.len();
    let mut i: usize = 0;
    while i < n && is_whitespace(v[i])
        invariant
            i <= n == v.len(),
            forall|k: int| 0 <= k < i ==> is_ws(#[trigger] v@[k]),
        decreases n - i,
    {
        i = i + 1;
    }
    proof {
        lemma_trim_start_skip(v@, i as int);
    }
    let ghost rest = v@.subrange(i as int, n as int);
    assert(trim_start(rest) == rest);
    let mut j: usize = n;
    while j > i && is_whitespace(v[j - 1])
        invariant
            i <= j <= n == v.len(),
            forall|k: int| j <= k < n ==> is_ws(#[trigger] v@[k]),
        decreases j,
    {
        j = j - 1;
    }
    proof {
        let t = v@.subrange(i as int, j as int);
        assert forall|k: int| (j - i) <= k < rest.len() implies is_ws(#[trigger] rest[k]) by {
            assert(rest[k] == v@[k + i]);
        }
        lemma_trim_end_cut(rest, j - i);
        assert(rest.subrange(0, j - i) =~= t);
        if t.len() > 0 {
            assert(t.last() == v@[j - 1]);
        }
    }
    slice_chars(v, i, j)
}

/// `str::trim` returning an owned string.
pub fn trim_str(s: &str) -> (r: String)
    ensures
        r@ == trim(s@),
{
    let v = chars_of(s);
    let t = trim_chars(&v);
    string_of(&t)
}


/// The ASCII digit character for `d < 10`.
pub open spec fn digit_char(d: nat) -> char {
    ((d + 48) as u8) as char
}

/// The decimal numeral of `n`, as `Display` writes an unsigned integer.
pub open spec fn dec(n: nat) -> Seq<char>
    decreases n,
{
    if n < 10 {
        seq![digit_char(n)]
    } else {
        dec(n / 10).push(digit_char(n % 10))
    }
}

/// Whether `c` is an ASCII decimal digit.
pub open spec fn is_digit(c: char) -> bool {
    '0' <= c && c <= '9'
}

/// The value of a string of ASCII digits.
pub open spec fn digits_value(s: Seq<char>) -> nat
    decreases s.len(),
{
    if s.len() == 0 {
        0
    } else {
        digits_value(s.drop_last()) * 10 + ((s.last() as u32) - 48) as nat
    }
}

/// Whether every character of `s` is an ASCII digit.
pub open spec fn all_digits(s: Seq<char>) -> bool {
    forall|k: int| 0 <= k < s.len() ==> is_digit(#[trigger] s[k])
}

/// The digits part of a numeral: without one leading `+`.
pub open spec fn unsigned_digits(s: Seq<char>) -> Seq<char> {
    if s.len() > 0 && s[0] == '+' {
        s.drop_first()
    } else {
        s
    }
}

/// What `str::parse` of an unsigned integer type whose largest value is
/// `max` gives: an optional `+`, then one or more ASCII digits, with a
/// value not above `max`.
pub open spec fn parse_unsigned(s: Seq<char>, max: nat) -> Option<nat> {
    let d = unsigned_digits(s);
    if d.len() > 0 && all_digits(d) && digits_value(d) <= max {
        Some(digits_value(d))
    } else {
        None
    }
}

/// `str::parse::<u32>().ok()`.
pub open spec fn parse_u32(s: Seq<char>) -> Option<u32> {
    match parse_unsigned(s, u32::MAX as nat) {
        Some(v) => Some(v as u32),
        None => None,
    }
}

/// `str::parse::<usize>().ok()`.
pub open spec fn parse_usize(s: Seq<char>) -> Option<usize> {
    match parse_unsigned(s, usize::MAX as nat) {
        Some(v) => Some(v as usize),
        None => None,
    }
}

/// The numeral of `n` is a non-empty string of digits whose value is `n`.
pub proof fn lemma_dec_digits(n: nat)
    ensures
        dec(n).len() > 0,
        forall|k: int| 0 <= k < dec(n).len() ==> is_digit(#[trigger] dec(n)[k]),
        digits_value(dec(n)) == n,
        dec(n)[0] != '+',
    decreases n,
{
    if n >= 10 {
        lemma_dec_digits(n / 10);
        let d = dec(n);
        assert(d.drop_last() =~= dec(n / 10));
        assert(d.last() == digit_char(n % 10));
        assert(((digit_char(n % 10) as u32) - 48) as nat == n % 10);
        assert(digits_value(d) == digits_value(d.drop_last()) * 10 + ((d.last() as u32) - 48) as nat);
        assert(n == (n / 10) * 10 + n % 10);
    } else {
        assert(((digit_char(n) as u32) - 48) as nat == n);
        assert(dec(n).drop_last() =~= Seq::<char>::empty());
        assert(digits_value(Seq::<char>::empty()) == 0);
    }
}

/// Parsing the decimal numeral of a value gives the value back.
pub proof fn lemma_parse_dec(n: nat, max: nat)
    requires
        n <= max,
    ensures
        parse_unsigned(dec(n), max) == Some(n),
{
    lemma_dec_digits(n);
}

/// The decimal numeral of `n` (`n.to_string()`).
pub fn dec_string(n: u64) -> (r: String)
    ensures
        r@ == dec(n as nat),
{
    let mut digits: Vec<char> = Vec::new();
    let mut m = n;
    // the digits of n, least significant first
    while m >= 10
        invariant
            m <= n,
            dec(n as nat) =~= dec(m as nat) + digits@.reverse(),
        decreases m,
    {
        let c = ((m % 10 + 48) as u8) as char;
        let ghost old_digits = digits@;
        digits.push(c);
        assert(digits@.reverse() =~= seq![c] + old_digits.reverse());
        assert(dec(m as nat) =~= dec((m / 10) as nat).push(c));
        m = m / 10;
    }
    let c = ((m + 48) as u8) as char;
    let ghost old_digits = digits@;
    digits.push(c);
    assert(digits@.reverse() =~= seq![c] + old_digits.reverse());
    assert(dec(m as nat) =~= seq![c]);
    let mut r = String::new();
    let mut i = digits.len();
    while i > 0
        invariant
            i <= digits.len(),
            digits.len() > 0,
            dec(n as nat) =~= digits@.reverse(),
            r@ =~= digits@.reverse().take((digits.len() - i) as int),
        decreases i,
    {
        i = i - 1;
        push_char(&mut r, digits[i]);
        assert(digits@.reverse().take((digits.len() - i) as int) =~= digits@.reverse().take(
            (digits.len() - i - 1) as int,
        ).push(digits@[i as int]));
    }
    assert(digits@.reverse().take(digits.len() as int) =~= digits@.reverse());
    r
}

/// Parses an unsigned integer the way `str::parse` does for an integer type
/// whose largest value is `max`.
pub fn parse_unsigned_chars(v: &Vec<char>, max: u64) -> (r: Option<u64>)
    ensures
        match parse_unsigned(v@, max as nat) {
            Some(n) => r == Some(n as u64),
            None => r is None,
        },
{
    let n = v.len();
    let start: usize = if n > 0 && v[0] == '+' {
        1
    } else {
        0
    };
    let ghost d = unsigned_digits(v@);
    assert(d =~= v@.subrange(start as int, n as int));
    if start == n {
        return None;
    }
    let mut acc: u128 = 0;
    let mut over = false;
    let mut i = start;
    while i < n
        invariant
            start <= i <= n == v.len(),
            d == unsigned_digits(v@),
            d =~= v@.subrange(start as int, n as int),
            forall|k: int| start <= k < i ==> is_digit(#[trigger] v@[k]),
            !over ==> acc == digits_value(v@.subrange(start as int, i as int)) && acc <= max,
            over ==> digits_value(v@.subrange(start as int, i as int)) > max,
        decreases n - i,
    {
        let c = v[i];
        if !('0' <= c && c <= '9') {
            assert(d[i - start] == c);
            assert(!is_digit(d[i - start]));
            assert(!all_digits(d));
            assert(parse_unsigned(v@, max as nat) is None);
            return None;
        }
        let ghost pre = v@.subrange(start as int, i as int);
        let ghost post = v@.subrange(start as int, i + 1);
        assert(post.drop_last() =~= pre);
        assert(post.last() == c);
        let dv = (c as u32 - 48) as u128;
        assert(dv == ((c as u32) - 48) as nat);
        if !over {
            acc = acc * 10 + dv;
            if acc > max as u128 {
                over = true;
            }
        } else {
            assert(digits_value(post) >= digits_value(pre)) by (nonlinear_arith)
                requires digits_value(post) == digits_value(pre) * 10 + dv;
        }
        i = i + 1;
    }
    assert(v@.subrange(start as int, n as int) =~= d);
    if over {
        None
    } else {
        Some(acc as u64)
    }
}

/// `str::parse::<u32>().ok()` on a character vector.
pub fn parse_u32_chars(v: &Vec<char>) -> (r: Option<u32>)
    ensures
        r == parse_u32(v@),
{
    match parse_unsigned_chars(v, 0xffff_ffff) {
        Some(x) => Some(x as u32),
        None => None,
    }
}

/// `str::parse::<usize>().ok()` on a character vector.
pub fn parse_usize_chars(v: &Vec<char>) -> (r: Option<usize>)
    ensures
        r == parse_usize(v@),
{
    match parse_unsigned_chars(v, usize::MAX as u64) {
        Some(x) => Some(x as usize),
        None => None,
    }
}


/// The first index at or after `i` where `s` holds `c`.
pub open spec fn find_char_from(s: Seq<char>, c: char, i: int) -> Option<int>
    decreases s.len() - i,
{
    if i < 0 || i >= s.len() {
        None
    } else if s[i] == c {
        Some(i)
    } else {
        find_char_from(s, c, i + 1)
    }
}

/// `str::find` of a character: its first index in `s`.
pub open spec fn find_char(s: Seq<char>, c: char) -> Option<int> {
    find_char_from(s, c, 0)
}

/// The last index below `j` where `s` holds `c`.
pub open spec fn rfind_char_below(s: Seq<char>, c: char, j: int) -> Option<int>
    decreases j,
{
    if j <= 0 || j > s.len() {
        None
    } else if s[j - 1] == c {
        Some(j - 1)
    } else {
        rfind_char_below(s, c, j - 1)
    }
}

/// `str::rfind` of a character: its last index in `s`.
pub open spec fn rfind_char(s: Seq<char>, c: char) -> Option<int> {
    rfind_char_below(s, c, s.len() as int)
}

/// What `rfind_char_below` reports is the last `c` below `j`.
pub proof fn lemma_rfind_char_below(s: Seq<char>, c: char, j: int)
    requires
        j <= s.len(),
    ensures
        match rfind_char_below(s, c, j) {
            Some(i) => 0 <= i < j && s[i] == c && (forall|m: int| i < m < j ==> s[m] != c),
            None => forall|m: int| 0 <= m < j ==> s[m] != c,
        },
    decreases j,
{
    if j > 0 && s[j - 1] != c {
        lemma_rfind_char_below(s, c, j - 1);
    }
}

/// When `c` is absent from `[k, j)`, searching below `j` is searching below `k`.
pub proof fn lemma_rfind_char_skip(s: Seq<char>, c: char, k: int, j: int)
    requires
        0 <= k <= j <= s.len(),
        forall|i: int| k <= i < j ==> s[i] != c,
    ensures
        rfind_char_below(s, c, j) == rfind_char_below(s, c, k),
    decreases j - k,
{
    if j > k {
        lemma_rfind_char_skip(s, c, k, j - 1);
    }
}

/// Whether `pat` occurs in `s` at index `i`.
pub open spec fn occurs_at(s: Seq<char>, pat: Seq<char>, i: int) -> bool {
    0 <= i && i + pat.len() <= s.len() && s.subrange(i, i + pat.len()) == pat
}

/// The last index below `j` where `pat` occurs in `s`.
pub open spec fn rfind_below(s: Seq<char>, pat: Seq<char>, j: int) -> Option<int>
    decreases j,
{
    if j <= 0 {
        None
    } else if occurs_at(s, pat, j - 1) {
        Some(j - 1)
    } else {
        rfind_below(s, pat, j - 1)
    }
}

/// `str::rfind` of a non-empty pattern: the index of its last occurrence.
pub open spec fn rfind(s: Seq<char>, pat: Seq<char>) -> Option<int> {
    rfind_below(s, pat, s.len() + 1int)
}

/// When `pat` does not occur at any index in `[k, j)`, searching below `j`
/// is searching below `k`.
pub proof fn lemma_rfind_below_skip(s: Seq<char>, pat: Seq<char>, k: int, j: int)
    requires
        0 <= k <= j,
        forall|i: int| k <= i < j ==> !occurs_at(s, pat, i),
    ensures
        rfind_below(s, pat, j) == rfind_below(s, pat, k),
    decreases j - k,
{
    if j > k {
        lemma_rfind_below_skip(s, pat, k, j - 1);
    }
}

/// A match that `rfind_below` reports is an occurrence below `j`.
pub proof fn lemma_rfind_below_occurs(s: Seq<char>, pat: Seq<char>, j: int)
    ensures
        match rfind_below(s, pat, j) {
            Some(i) => occurs_at(s, pat, i) && i < j,
            None => forall|i: int| 0 <= i < j ==> !occurs_at(s, pat, i),
        },
    decreases j,
{
    if j > 0 && !occurs_at(s, pat, j - 1) {
        lemma_rfind_below_occurs(s, pat, j - 1);
    }
}

/// When `c` is absent from `[k, j)`, searching for it from `k` is searching from `j`.
pub proof fn lemma_find_char_skip(s: Seq<char>, c: char, k: int, j: int)
    requires
        0 <= k <= j,
        forall|i: int| k <= i < j && i < s.len() ==> s[i] != c,
    ensures
        find_char_from(s, c, k) == find_char_from(s, c, j),
    decreases j - k,
{
    if j > k {
        lemma_find_char_skip(s, c, k + 1, j);
    }
}

/// The first index of `c` in `v` (`str::find`).
pub fn find_char_in(v: &Vec<char>, c: char) -> (r: Option<usize>)
    ensures
        match find_char(v@, c) {
            Some(i) => r == Some(i as usize) && 0 <= i < v@.len() && v@[i] == c && (forall|m: int|
                0 <= m < i ==> v@[m] != c),
            None => r is None && forall|m: int| 0 <= m < v@.len() ==> v@[m] != c,
        },
{
    proof {
        lemma_find_char(v@, c);
    }
    let n = v.len();
    let mut i: usize = 0;
    while i < n
        invariant
            i <= n == v.len(),
            find_char(v@, c) == find_char_from(v@, c, i as int),
        decreases n - i,
    {
        if v[i] == c {
            assert(find_char_from(v@, c, i as int) == Some(i as int));
            proof {
                lemma_find_char(v@, c);
            }
            return Some(i);
        }
        i = i + 1;
    }
    proof {
        lemma_find_char(v@, c);
    }
    None
}

/// The last index of `c` in `v` (`str::rfind`).
pub fn rfind_char_in(v: &Vec<char>, c: char) -> (r: Option<usize>)
    ensures
        match rfind_char(v@, c) {
            Some(i) => r == Some(i as usize) && 0 <= i < v@.len() && v@[i] == c && (forall|m: int|
                i < m < v@.len() ==> v@[m] != c),
            None => r is None && forall|m: int| 0 <= m < v@.len() ==> v@[m] != c,
        },
{
    proof {
        lemma_rfind_char_below(v@, c, v@.len() as int);
    }
    let mut j: usize = v.len();
    while j > 0
        invariant
            j <= v.len(),
            rfind_char(v@, c) == rfind_char_below(v@, c, j as int),
        decreases j,
    {
        if v[j - 1] == c {
            proof {
                lemma_rfind_char_below(v@, c, v@.len() as int);
            }
            return Some(j - 1);
        }
        j = j - 1;
    }
    None
}

/// Whether `pat` occurs in `v` at index `i`.
pub fn occurs_at_in(v: &Vec<char>, pat: &Vec<char>, i: usize) -> (r: bool)
    ensures
        r == occurs_at(v@, pat@, i as int),
{
    if i > v.len() || pat.len() > v.len() - i {
        return false;
    }
    let mut k: usize = 0;
    while k < pat.len()
        invariant
            i + pat.len() <= v.len(),
            k <= pat.len(),
            forall|m: int| 0 <= m < k ==> v@[i + m] == pat@[m],
        decreases pat.len() - k,
    {
        if v[i + k] != pat[k] {
            assert(v@.subrange(i as int, i + pat.len())[k as int] != pat@[k as int]);
            return false;
        }
        k = k + 1;
    }
    assert(v@.subrange(i as int, i + pat.len()) =~= pat@);
    true
}

/// The index of the last occurrence of `pat` in `v` (`str::rfind`).
pub fn rfind_in(v: &Vec<char>, pat: &Vec<char>) -> (r: Option<usize>)
    ensures
        r matches Some(k) ==> rfind(v@, pat@) == Some(k as int) && occurs_at(v@, pat@, k as int),
        r is None ==> rfind(v@, pat@) is None,
{
    let mut j: usize = v.len();
    assert(!occurs_at(v@, pat@, v@.len() as int) || pat@.len() == 0);
    if pat.len() == 0 {
        assert(occurs_at(v@, pat@, v@.len() as int)) by {
            assert(v@.subrange(v@.len() as int, v@.len() as int) =~= pat@);
        }
        return Some(v.len());
    }
    assert(rfind(v@, pat@) == rfind_below(v@, pat@, j as int)) by {
        assert(!occurs_at(v@, pat@, v@.len() as int));
    }
    while j > 0
        invariant
            j <= v.len(),
            pat@.len() > 0,
            rfind(v@, pat@) == rfind_below(v@, pat@, j as int),
        decreases j,
    {
        if occurs_at_in(v, pat, j - 1) {
            assert(rfind_below(v@, pat@, j as int) == Some(j - 1));
            return Some(j - 1);
        }
        j = j - 1;
    }
    None
}

/// Whether `s` begins with `pre`.
pub open spec fn starts_with(s: Seq<char>, pre: Seq<char>) -> bool {
    pre.len() <= s.len() && s.subrange(0, pre.len() as int) == pre
}

/// Whether `s` ends with `suf`.
pub open spec fn ends_with(s: Seq<char>, suf: Seq<char>) -> bool {
    suf.len() <= s.len() && s.subrange(s.len() - suf.len(), s.len() as int) == suf
}

/// `str::starts_with`.
pub fn starts_with_in(v: &Vec<char>, pre: &Vec<char>) -> (r: bool)
    ensures
        r == starts_with(v@, pre@),
{
    occurs_at_in(v, pre, 0)
}

/// `str::ends_with`.
pub fn ends_with_in(v: &Vec<char>, suf: &Vec<char>) -> (r: bool)
    ensures
        r == ends_with(v@, suf@),
{
    if suf.len() > v.len() {
        return false;
    }
    occurs_at_in(v, suf, v.len() - suf.len())
}

/// The pieces of `s` between occurrences of `sep`, as `str::split` gives them.
pub open spec fn split_char(s: Seq<char>, sep: char) -> Seq<Seq<char>>
    decreases s.len(),
{
    match find_char(s, sep) {
        Some(i) => {
            if 0 <= i < s.len() {
                seq![s.subrange(0, i)] + split_char(s.subrange(i + 1, s.len() as int), sep)
            } else {
                seq![s]
            }
        },
        None => seq![s],
    }
}

/// The pieces joined with `sep` between them, as `[T]::join` does.
pub open spec fn join(pieces: Seq<Seq<char>>, sep: Seq<char>) -> Seq<char>
    decreases pieces.len(),
{
    if pieces.len() == 0 {
        Seq::empty()
    } else if pieces.len() == 1 {
        pieces[0]
    } else {
        join(pieces.drop_last(), sep) + sep + pieces.last()
    }
}

proof fn lemma_find_char_from_range(s: Seq<char>, c: char, i: int)
    requires
        0 <= i,
    ensures
        match find_char_from(s, c, i) {
            Some(k) => i <= k < s.len() && 0 <= k && s[k] == c && (forall|m: int|
                i <= m < k ==> s[m] != c),
            None => forall|m: int| i <= m < s.len() && 0 <= m ==> s[m] != c,
        },
    decreases s.len() - i,
{
    if i >= 0 && i < s.len() && s[i] != c {
        lemma_find_char_from_range(s, c, i + 1);
    }
}

/// The first index of `c`, as a property.
pub proof fn lemma_find_char(s: Seq<char>, c: char)
    ensures
        match find_char(s, c) {
            Some(k) => 0 <= k < s.len() && s[k] == c && (forall|m: int| 0 <= m < k ==> s[m] != c),
            None => forall|m: int| 0 <= m < s.len() ==> s[m] != c,
        },
{
    lemma_find_char_from_range(s, c, 0);
}

/// `str::split` on a character.
pub fn split_chars(v: &Vec<char>, sep: char) -> (r: Vec<Vec<char>>)
    ensures
        r@.len() == split_char(v@, sep).len(),
        forall|k: int| 0 <= k < r@.len() ==> (#[trigger] r@[k])@ == split_char(v@, sep)[k],
{
    let mut r: Vec<Vec<char>> = Vec::new();
    let mut rest: Vec<char> = slice_chars(v, 0, v.len());
    assert(rest@ =~= v@);
    loop
        invariant
            split_char(v@, sep).len() == r@.len() + split_char(rest@, sep).len(),
            forall|k: int| 0 <= k < r@.len() ==> (#[trigger] r@[k])@ == split_char(v@, sep)[k],
            forall|k: int|
                0 <= k < split_char(rest@, sep).len() ==> split_char(v@, sep)[r@.len() + k]
                    == #[trigger] split_char(rest@, sep)[k],
        decreases rest@.len(),
    {
        proof {
            lemma_find_char(rest@, sep);
        }
        match find_char_in(&rest, sep) {
            Some(i) => {
                let head = slice_chars(&rest, 0, i);
                let tail = slice_chars(&rest, i + 1, rest.len());
                let ghost old_r = r@;
                assert(split_char(rest@, sep) =~= seq![head@] + split_char(tail@, sep));
                r.push(head);
                assert forall|k: int| 0 <= k < r@.len() implies (#[trigger] r@[k])@ == split_char(
                    v@,
                    sep,
                )[k] by {
                    if k == old_r.len() {
                        assert(split_char(rest@, sep)[0] == head@);
                    } else {
                        assert(r@[k] == old_r[k]);
                    }
                }
                assert forall|k: int| 0 <= k < split_char(tail@, sep).len() implies split_char(
                    v@,
                    sep,
                )[r@.len() + k] == #[trigger] split_char(tail@, sep)[k] by {
                    assert(split_char(rest@, sep)[k + 1] == split_char(tail@, sep)[k]);
                }
                rest = tail;
            },
            None => {
                assert(split_char(rest@, sep) =~= seq![rest@]);
                let ghost old_r = r@;
                r.push(rest);
                assert forall|k: int| 0 <= k < r@.len() implies (#[trigger] r@[k])@ == split_char(
                    v@,
                    sep,
                )[k] by {
                    if k == old_r.len() {
                        assert(split_char(v@, sep)[old_r.len() as int] == split_char(
                            rest@,
                            sep,
                        )[0]);
                    } else {
                        assert(r@[k] == old_r[k]);
                    }
                }
                return r;
            },
        }
    }
}


/// An owned copy of a string slice.
pub fn own(s: &str) -> (r: String)
    ensures
        r@ == s@,
{
    s.to_owned()
}

/// `s` followed by `t`.
pub fn concat(s: &str, t: &str) -> (r: String)
    ensures
        r@ == s@ + t@,
{
    let mut r = s.to_owned();
    r.append(t);
    r
}

/// Whether two character sequences are equal.
pub fn chars_eq(a: &Vec<char>, b: &Vec<char>) -> (r: bool)
    ensures
        r == (a@ == b@),
{
    if a.len() != b.len() {
        return false;
    }
    let mut i: usize = 0;
    while i < a.len()
        invariant
            a.len() == b.len(),
            i <= a.len(),
            forall|k: int| 0 <= k < i ==> a@[k] == b@[k],
        decreases a.len() - i,
    {
        if a[i] != b[i] {
            return false;
        }
        i = i + 1;
    }
    assert(a@ =~= b@);
    true
}

/// Whether two strings are equal.
pub fn str_eq(a: &str, b: &str) -> (r: bool)
    ensures
        r == (a@ == b@),
{
    let x = chars_of(a);
    let y = chars_of(b);
    chars_eq(&x, &y)
}


/// The text of each string.
pub open spec fn texts(v: Seq<String>) -> Seq<Seq<char>> {
    v.map_values(|x: String| x@)
}

/// `[String]::join`: the strings with `sep` between them.
pub fn join_strings(pieces: &Vec<String>, sep: &str) -> (r: String)
    ensures
        r@ == join(texts(pieces@), sep@),
{
    let mut r = String::new();
    let n = pieces.len();
    for i in 0..n
        invariant
            n == pieces.len(),
            r@ == join(texts(pieces@.take(i as int)), sep@),
    {
        let ghost before = texts(pieces@.take(i as int));
        let ghost after = texts(pieces@.take(i + 1));
        assert(after.drop_last() =~= before);
        assert(after.last() == pieces@[i as int]@);
        if i > 0 {
            r.append(sep);
        } else {
            assert(after =~= seq![pieces@[0]@]);
        }
        r.append(pieces[i].as_str());
    }
    assert(pieces@.take(n as int) =~= pieces@);
    r
}

} // verus!
