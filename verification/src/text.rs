//! Character-level text helpers shared by the message builders and parsers.
use vstd::prelude::*;

verus! {

broadcast use vstd::string::group_string_axioms;

/// The characters of `text`, in order.
pub fn chars_of(text: &str) -> (out: Vec<char>)
    ensures
        out@ == text@,
{
    let mut out: Vec<char> = Vec::new();
    for c in it: text.chars()
        invariant
            out@ == it.seq().take(it.index() as int),
    {
        out.push(c);
    }
    out
}

/// Appends one character to `text` (`String::push`).
#[verifier::external_body]
fn push_char(text: &mut String, c: char)
    ensures
        final(text)@ == old(text)@.push(c),
{
    text.push(c);
}

/// A string holding exactly `chars`.
pub fn string_of(chars: &[char]) -> (out: String)
    ensures
        out@ == chars@,
{
    let mut out = String::new();
    let mut i: usize = 0;
    while i < chars.len()
        invariant
            i <= chars@.len(),
            out@ == chars@.take(i as int),
        decreases chars@.len() - i,
    {
        push_char(&mut out, chars[i]);
        i = i + 1;
        assert(out@ == chars@.take(i as int));
    }
    assert(chars@.take(chars@.len() as int) == chars@);
    out
}

/// The decimal digit character for `d`.
pub open spec fn digit_char(d: nat) -> char {
    (48 + d) as char
}

/// Base-ten rendering of `n`, most significant digit first, no leading zeros.
pub open spec fn decimal(n: nat) -> Seq<char>
    decreases n,
{
    if n < 10 {
        seq![digit_char(n)]
    } else {
        decimal(n / 10).push(digit_char(n % 10))
    }
}

/// Base-ten rendering of a signed integer, as `{}` prints it.
pub open spec fn signed_decimal(n: int) -> Seq<char> {
    if n < 0 {
        seq!['-'] + decimal((-n) as nat)
    } else {
        decimal(n as nat)
    }
}

fn digit(d: u64) -> (c: char)
    requires
        d < 10,
    ensures
        c == digit_char(d as nat),
{
    let b: u8 = 48u8 + (d as u8);
    b as char
}

/// Base-ten characters of `n`.
pub fn decimal_u64(n: u64) -> (out: Vec<char>)
    ensures
        out@ == decimal(n as nat),
    decreases n,
{
    if n < 10 {
        let mut out: Vec<char> = Vec::new();
        out.push(digit(n));
        out
    } else {
        let mut out = decimal_u64(n / 10);
        out.push(digit(n % 10));
        out
    }
}

/// Base-ten characters of a signed `n`, with a leading `-` when negative.
pub fn decimal_i64(n: i64) -> (out: Vec<char>)
    ensures
        out@ == signed_decimal(n as int),
{
    if n < 0 {
        let magnitude: u64 = if n == i64::MIN {
            9223372036854775808u64
        } else {
            (-n) as u64
        };
        let mut out: Vec<char> = Vec::new();
        out.push('-');
        let mut digits = decimal_u64(magnitude);
        out.append(&mut digits);
        out
    } else {
        decimal_u64(n as u64)
    }
}


/// A lowercase hexadecimal digit for `d`.
pub open spec fn hex_digit_char(d: nat) -> char {
    if d < 10 {
        (48 + d) as char
    } else {
        (87 + d) as char
    }
}

/// The lowest `width` hexadecimal digits of `n`, most significant first, zero
/// padded, as `{:0width$x}` prints a value below `16^width`.
pub open spec fn hex_padded(n: nat, width: nat) -> Seq<char>
    decreases width,
{
    if width == 0 {
        Seq::empty()
    } else {
        hex_padded(n / 16, (width - 1) as nat).push(hex_digit_char(n % 16))
    }
}

fn hex_digit(d: u32) -> (c: char)
    requires
        d < 16,
    ensures
        c == hex_digit_char(d as nat),
{
    if d < 10 {
        let b: u8 = 48u8 + (d as u8);
        b as char
    } else {
        let b: u8 = 87u8 + (d as u8);
        b as char
    }
}

/// The lowest `width` lowercase hexadecimal digits of `n`, zero padded.
fn hex_digits(n: u32, width: u32) -> (out: Vec<char>)
    ensures
        out@ == hex_padded(n as nat, width as nat),
    decreases width,
{
    if width == 0 {
        Vec::new()
    } else {
        let mut out = hex_digits(n / 16, width - 1);
        out.push(hex_digit(n % 16));
        out
    }
}

/// Eight lowercase hexadecimal digits of `n`, as `{n:08x}` prints it.
pub fn hex8(n: u32) -> (out: Vec<char>)
    ensures
        out@ == hex_padded(n as nat, 8),
{
    hex_digits(n, 8)
}

/// Whether `c` has the Unicode `White_Space` property, which is what
/// `char::is_whitespace` tests.
pub open spec fn is_white(c: char) -> bool {
    let u = c as u32;
    ||| 9 <= u <= 13
    ||| u == 32
    ||| u == 0x85
    ||| u == 0xA0
    ||| u == 0x1680
    ||| 0x2000 <= u <= 0x200A
    ||| u == 0x2028
    ||| u == 0x2029
    ||| u == 0x202F
    ||| u == 0x205F
    ||| u == 0x3000
}

/// `s` without its leading white space.
pub open spec fn trim_start(s: Seq<char>) -> Seq<char>
    decreases s.len(),
{
    if s.len() > 0 && is_white(s[0]) {
        trim_start(s.drop_first())
    } else {
        s
    }
}

/// `s` without its trailing white space.
pub open spec fn trim_end(s: Seq<char>) -> Seq<char>
    decreases s.len(),
{
    if s.len() > 0 && is_white(s.last()) {
        trim_end(s.drop_last())
    } else {
        s
    }
}

/// `s` without leading and trailing white space, as `str::trim` returns it.
pub open spec fn trimmed(s: Seq<char>) -> Seq<char> {
    trim_end(trim_start(s))
}

/// Whether `c` is white space.
pub fn is_whitespace(c: char) -> (b: bool)
    ensures
        b == is_white(c),
{
    let u = c as u32;
    (9 <= u && u <= 13) || u == 32 || u == 0x85 || u == 0xA0 || u == 0x1680 || (0x2000 <= u
        && u <= 0x200A) || u == 0x2028 || u == 0x2029 || u == 0x202F || u == 0x205F || u
        == 0x3000
}

/// `s` without leading and trailing white space.
pub fn trim(s: &[char]) -> (out: Vec<char>)
    ensures
        out@ == trimmed(s@),
{
    let mut lo: usize = 0;
    assert(s@.skip(0) == s@);
    while lo < s.len() && is_whitespace(s[lo])
        invariant
            lo <= s@.len(),
            trim_start(s@) == trim_start(s@.skip(lo as int)),
        decreases s@.len() - lo,
    {
        assert(s@.skip(lo as int).drop_first() == s@.skip(lo + 1));
        lo = lo + 1;
    }
    assert(trim_start(s@) == s@.skip(lo as int));
    let mut hi: usize = s.len();
    assert(s@.subrange(lo as int, s@.len() as int) == s@.skip(lo as int));
    while hi > lo && is_whitespace(s[hi - 1])
        invariant
            lo <= hi <= s@.len(),
            trim_end(s@.skip(lo as int)) == trim_end(s@.subrange(lo as int, hi as int)),
        decreases hi,
    {
        assert(s@.subrange(lo as int, hi as int).drop_last() == s@.subrange(lo as int, hi - 1));
        hi = hi - 1;
    }
    let mut out: Vec<char> = Vec::new();
    let mut i: usize = lo;
    while i < hi
        invariant
            lo <= i <= hi <= s@.len(),
            out@ == s@.subrange(lo as int, i as int),
        decreases hi - i,
    {
        out.push(s[i]);
        i = i + 1;
        assert(out@ == s@.subrange(lo as int, i as int));
    }
    out
}

/// `c` with an ASCII capital letter mapped to its lowercase form.
pub open spec fn ascii_lower(c: char) -> char {
    if 'A' <= c <= 'Z' {
        ((c as u32) + 32) as char
    } else {
        c
    }
}

/// Every ASCII capital in `s` made lowercase, as `str::to_ascii_lowercase` does.
pub open spec fn ascii_lowercase(s: Seq<char>) -> Seq<char> {
    s.map_values(|c: char| ascii_lower(c))
}

fn lower_char(c: char) -> (out: char)
    ensures
        out == ascii_lower(c),
{
    if 'A' <= c && c <= 'Z' {
        let b: u8 = (c as u8) + 32u8;
        b as char
    } else {
        c
    }
}

/// `s` with ASCII capitals lowered.
pub fn to_ascii_lowercase(s: &[char]) -> (out: Vec<char>)
    ensures
        out@ == ascii_lowercase(s@),
{
    let mut out: Vec<char> = Vec::new();
    let mut i: usize = 0;
    while i < s.len()
        invariant
            i <= s@.len(),
            out@ == ascii_lowercase(s@.take(i as int)),
        decreases s@.len() - i,
    {
        out.push(lower_char(s[i]));
        i = i + 1;
        assert(out@ == ascii_lowercase(s@.take(i as int)));
    }
    assert(s@.take(s@.len() as int) == s@);
    out
}

/// Whether `a` and `b` hold the same characters.
pub fn same_chars(a: &[char], b: &[char]) -> (eq: bool)
    ensures
        eq == (a@ == b@),
{
    if a.len() != b.len() {
        return false;
    }
    let mut i: usize = 0;
    while i < a.len()
        invariant
            a@.len() == b@.len(),
            i <= a@.len(),
            a@.take(i as int) == b@.take(i as int),
        decreases a@.len() - i,
    {
        if a[i] != b[i] {
            assert(a@[i as int] != b@[i as int]);
            return false;
        }
        i = i + 1;
        assert(a@.take(i as int) == b@.take(i as int));
    }
    assert(a@ == a@.take(a@.len() as int));
    assert(b@ == b@.take(b@.len() as int));
    true
}

/// Index of the first `c` in `s`, or `-1` when there is none.
pub open spec fn find_char(s: Seq<char>, c: char) -> int
    decreases s.len(),
{
    if s.len() == 0 {
        -1
    } else if s[0] == c {
        0
    } else {
        let rest = find_char(s.drop_first(), c);
        if rest < 0 {
            -1
        } else {
            rest + 1
        }
    }
}

/// The pieces of `s` between occurrences of `sep`, as `str::split` yields them:
/// always at least one, possibly empty.
pub open spec fn split_on(s: Seq<char>, sep: char) -> Seq<Seq<char>>
    decreases s.len(),
{
    let i = find_char(s, sep);
    if i < 0 {
        seq![s]
    } else {
        proof {
            lemma_find_char_bounds(s, sep);
        }
        seq![s.take(i)] + split_on(s.skip(i + 1), sep)
    }
}

pub proof fn lemma_find_char_bounds(s: Seq<char>, c: char)
    ensures
        -1 <= find_char(s, c) < s.len(),
        find_char(s, c) >= 0 ==> s[find_char(s, c)] == c,
        forall|j: int| 0 <= j < s.len() && (find_char(s, c) < 0 || j < find_char(s, c)) ==> s[j]
            != c,
    decreases s.len(),
{
    if s.len() > 0 {
        lemma_find_char_bounds(s.drop_first(), c);
        if s[0] != c {
            assert forall|j: int|
                0 < j < s.len() && (find_char(s, c) < 0 || j < find_char(s, c)) implies s[j] != c by {
                assert(s[j] == s.drop_first()[j - 1]);
            }
        }
    }
}

/// With no `c` in `head` and `c` at the start of `tail`, the first `c` of
/// `head + tail` is at `head.len()`.
proof fn lemma_find_char_after(head: Seq<char>, tail: Seq<char>, c: char)
    requires
        forall|j: int| 0 <= j < head.len() ==> head[j] != c,
        tail.len() > 0,
        tail[0] == c,
    ensures
        find_char(head + tail, c) == head.len(),
    decreases head.len(),
{
    if head.len() > 0 {
        lemma_find_char_after(head.drop_first(), tail, c);
        assert((head + tail).drop_first() == head.drop_first() + tail);
    }
}

proof fn lemma_find_char_none(s: Seq<char>, c: char)
    requires
        forall|j: int| 0 <= j < s.len() ==> s[j] != c,
    ensures
        find_char(s, c) == -1,
    decreases s.len(),
{
    if s.len() > 0 {
        lemma_find_char_none(s.drop_first(), c);
    }
}

/// The views of a sequence of character vectors.
pub open spec fn views(v: Seq<Vec<char>>) -> Seq<Seq<char>> {
    v.map_values(|p: Vec<char>| p@)
}

/// The pieces of `s` between occurrences of `sep`.
pub fn split(s: &[char], sep: char) -> (parts: Vec<Vec<char>>)
    ensures
        views(parts@) == split_on(s@, sep),
{
    let mut parts: Vec<Vec<char>> = Vec::new();
    let mut current: Vec<char> = Vec::new();
    let mut i: usize = 0;
    assert(s@.skip(0) == s@);
    while i < s.len()
        invariant
            i <= s@.len(),
            forall|j: int| 0 <= j < current@.len() ==> current@[j] != sep,
            split_on(s@, sep) == views(parts@) + split_on(current@ + s@.skip(i as int), sep),
        decreases s@.len() - i,
    {
        let c = s[i];
        if c == sep {
            proof {
                let rest = s@.skip(i as int);
                lemma_find_char_after(current@, rest, sep);
                assert((current@ + rest).take(current@.len() as int) == current@);
                assert((current@ + rest).skip(current@.len() as int + 1) == s@.skip(i + 1));
                assert(split_on(current@ + rest, sep) == seq![current@] + split_on(s@.skip(i + 1), sep));
            }
            let finished = current;
            let ghost before = parts@;
            parts.push(finished);
            current = Vec::new();
            proof {
                assert(views(parts@) == views(before) + seq![finished@]);
                assert(current@ + s@.skip(i + 1) == s@.skip(i + 1));
            }
        } else {
            proof {
                assert(current@ + s@.skip(i as int) == current@.push(c) + s@.skip(i + 1));
            }
            current.push(c);
        }
        i = i + 1;
    }
    proof {
        assert(current@ + s@.skip(i as int) == current@);
        lemma_find_char_none(current@, sep);
    }
    let last = current;
    let ghost before = parts@;
    parts.push(last);
    proof {
        assert(views(parts@) == views(before) + seq![last@]);
    }
    parts
}

/// Whether `c` is an ASCII decimal digit.
pub open spec fn is_digit(c: char) -> bool {
    '0' <= c <= '9'
}

/// The value of the ASCII digit `c`.
pub open spec fn digit_value(c: char) -> nat {
    ((c as u32) - 48) as nat
}

/// The number the decimal digits `d` spell, most significant first.
pub open spec fn digits_value(d: Seq<char>) -> nat
    decreases d.len(),
{
    if d.len() == 0 {
        0
    } else {
        digits_value(d.drop_last()) * 10 + digit_value(d.last())
    }
}

/// `s` without one leading `+`.
pub open spec fn unsigned_digits(s: Seq<char>) -> Seq<char> {
    if s.len() > 0 && s[0] == '+' {
        s.drop_first()
    } else {
        s
    }
}

/// Whether every character of `d` is an ASCII digit.
pub open spec fn all_digits(d: Seq<char>) -> bool {
    forall|i: int| 0 <= i < d.len() ==> is_digit(#[trigger] d[i])
}

/// What `s.parse::<u32>()` gives: an optional `+`, then one or more ASCII digits
/// whose value fits in a `u32`; anything else is an error (`None`).
pub open spec fn parsed_u32(s: Seq<char>) -> Option<u32> {
    let digits = unsigned_digits(s);
    if digits.len() > 0 && all_digits(digits) && digits_value(digits) <= u32::MAX {
        Some(digits_value(digits) as u32)
    } else {
        None
    }
}

proof fn lemma_digits_value_prefix_grows(d: Seq<char>, k: int)
    requires
        0 <= k <= d.len(),
    ensures
        digits_value(d.take(k)) <= digits_value(d),
    decreases d.len(),
{
    if k < d.len() {
        assert(d.drop_last().take(k) == d.take(k));
        lemma_digits_value_prefix_grows(d.drop_last(), k);
    } else {
        assert(d.take(k) == d);
    }
}

/// Parses an unsigned decimal as `str::parse::<u32>` does.
pub fn parse_u32(s: &[char]) -> (out: Option<u32>)
    ensures
        out == parsed_u32(s@),
{
    let start: usize = if s.len() > 0 && s[0] == '+' { 1 } else { 0 };
    let ghost digits = s@.skip(start as int);
    assert(digits == unsigned_digits(s@));
    if start >= s.len() {
        return None;
    }
    let mut value: u32 = 0;
    let mut i: usize = start;
    assert(digits.take(0) == Seq::<char>::empty());
    while i < s.len()
        invariant
            start <= i <= s@.len(),
            start < s@.len(),
            digits == s@.skip(start as int),
            digits == unsigned_digits(s@),
            forall|j: int| 0 <= j < i - start ==> is_digit(#[trigger] digits[j]),
            value as nat == digits_value(digits.take(i - start)),
        decreases s@.len() - i,
    {
        let c = s[i];
        assert(digits[i - start] == c);
        if !('0' <= c && c <= '9') {
            assert(!is_digit(digits[i - start]));
            assert(!all_digits(digits));
            return None;
        }
        let d: u32 = (c as u32) - 48;
        assert(digits.take(i - start + 1).drop_last() == digits.take(i - start));
        assert(digits.take(i - start + 1).last() == c);
        assert(digits_value(digits.take(i - start + 1)) == value * 10 + d);
        match value.checked_mul(10) {
            Some(scaled) => match scaled.checked_add(d) {
                Some(next) => {
                    value = next;
                },
                None => {
                    proof { lemma_digits_value_prefix_grows(digits, i - start + 1); }
                    return None;
                },
            },
            None => {
                proof { lemma_digits_value_prefix_grows(digits, i - start + 1); }
                return None;
            },
        }
        i = i + 1;
    }
    assert(digits.take(i - start) == digits);
    Some(value)
}

/// Whether `s` begins with `prefix`.
pub open spec fn has_prefix(s: Seq<char>, prefix: Seq<char>) -> bool {
    prefix.len() <= s.len() && s.take(prefix.len() as int) == prefix
}

/// Whether `s` ends with `suffix`.
pub open spec fn has_suffix(s: Seq<char>, suffix: Seq<char>) -> bool {
    suffix.len() <= s.len() && s.skip(s.len() - suffix.len()) == suffix
}

/// Whether `part` occurs in `s` as a contiguous run.
pub open spec fn has_infix(s: Seq<char>, part: Seq<char>) -> bool {
    exists|i: int| 0 <= i <= s.len() - part.len() && #[trigger] s.subrange(i, i + part.len()) == part
}

/// Whether `s[at..at + part.len()]` is `part`.
fn matches_at(s: &[char], part: &[char], at: usize) -> (b: bool)
    requires
        at + part@.len() <= s@.len(),
    ensures
        b == (s@.subrange(at as int, at + part@.len()) == part@),
{
    let mut k: usize = 0;
    while k < part.len()
        invariant
            k <= part@.len(),
            at + part@.len() <= s@.len(),
            s@.len() == s.len(),
            part@.len() == part.len(),
            s@.subrange(at as int, at + k) == part@.take(k as int),
        decreases part@.len() - k,
    {
        if s[at + k] != part[k] {
            assert(s@.subrange(at as int, at + part@.len())[k as int] != part@[k as int]);
            return false;
        }
        k = k + 1;
        assert(s@.subrange(at as int, at + k) == part@.take(k as int));
    }
    assert(part@.take(part@.len() as int) == part@);
    true
}

/// Whether `s` begins with `prefix`.
pub fn starts_with(s: &[char], prefix: &[char]) -> (b: bool)
    ensures
        b == has_prefix(s@, prefix@),
{
    if prefix.len() > s.len() {
        return false;
    }
    let b = matches_at(s, prefix, 0);
    assert(s@.subrange(0, prefix@.len() as int) == s@.take(prefix@.len() as int));
    b
}

/// Whether `s` ends with `suffix`.
pub fn ends_with(s: &[char], suffix: &[char]) -> (b: bool)
    ensures
        b == has_suffix(s@, suffix@),
{
    if suffix.len() > s.len() {
        return false;
    }
    let at = s.len() - suffix.len();
    let b = matches_at(s, suffix, at);
    assert(s@.subrange(at as int, s@.len() as int) == s@.skip(at as int));
    b
}

/// Whether `part` occurs in `s`.
pub fn contains(s: &[char], part: &[char]) -> (b: bool)
    ensures
        b == has_infix(s@, part@),
{
    if part.len() > s.len() {
        return false;
    }
    let last = s.len() - part.len();
    let mut at: usize = 0;
    loop
        invariant
            at <= last,
            last == s@.len() - part@.len(),
            forall|i: int| 0 <= i < at ==> #[trigger] s@.subrange(i, i + part@.len()) != part@,
        decreases last - at,
    {
        if matches_at(s, part, at) {
            return true;
        }
        if at == last {
            assert(!has_infix(s@, part@));
            return false;
        }
        at = at + 1;
    }
}

/// The first `n` characters of `s`.
pub fn prefix_of(s: &[char], n: usize) -> (out: Vec<char>)
    requires
        n <= s@.len(),
    ensures
        out@ == s@.take(n as int),
{
    let mut out: Vec<char> = Vec::new();
    let mut i: usize = 0;
    while i < n
        invariant
            i <= n <= s@.len(),
            out@ == s@.take(i as int),
        decreases n - i,
    {
        out.push(s[i]);
        i = i + 1;
        assert(out@ == s@.take(i as int));
    }
    out
}

/// The characters of `s` from `n` on.
pub fn suffix_from(s: &[char], n: usize) -> (out: Vec<char>)
    requires
        n <= s@.len(),
    ensures
        out@ == s@.skip(n as int),
{
    let mut out: Vec<char> = Vec::new();
    let mut i: usize = n;
    while i < s.len()
        invariant
            n <= i <= s@.len(),
            out@ == s@.subrange(n as int, i as int),
        decreases s@.len() - i,
    {
        out.push(s[i]);
        i = i + 1;
        assert(out@ == s@.subrange(n as int, i as int));
    }
    out
}

/// `a` sorts no later than `b`: compared character by character, and a
/// prefix first. Since UTF-8 preserves the order of code points, this is the
/// byte-wise order that `str`'s `Ord` uses.
pub open spec fn lex_le(a: Seq<char>, b: Seq<char>) -> bool
    decreases a.len(),
{
    if a.len() == 0 {
        true
    } else if b.len() == 0 {
        false
    } else if a[0] != b[0] {
        a[0] < b[0]
    } else {
        lex_le(a.drop_first(), b.drop_first())
    }
}

pub proof fn lemma_lex_le_total(a: Seq<char>, b: Seq<char>)
    ensures
        lex_le(a, b) || lex_le(b, a),
    decreases a.len(),
{
    if a.len() > 0 && b.len() > 0 && a[0] == b[0] {
        lemma_lex_le_total(a.drop_first(), b.drop_first());
    }
}

pub proof fn lemma_lex_le_reflexive(a: Seq<char>)
    ensures
        lex_le(a, a),
    decreases a.len(),
{
    if a.len() > 0 {
        lemma_lex_le_reflexive(a.drop_first());
    }
}

pub proof fn lemma_lex_le_antisymmetric(a: Seq<char>, b: Seq<char>)
    requires
        lex_le(a, b),
        lex_le(b, a),
    ensures
        a == b,
    decreases a.len(),
{
    if a.len() > 0 && b.len() > 0 {
        lemma_lex_le_antisymmetric(a.drop_first(), b.drop_first());
        assert(a == seq![a[0]] + a.drop_first());
        assert(b == seq![b[0]] + b.drop_first());
    }
}

pub proof fn lemma_lex_le_transitive(a: Seq<char>, b: Seq<char>, c: Seq<char>)
    requires
        lex_le(a, b),
        lex_le(b, c),
    ensures
        lex_le(a, c),
    decreases a.len(),
{
    if a.len() > 0 && b.len() > 0 && c.len() > 0 && a[0] == b[0] && b[0] == c[0] {
        lemma_lex_le_transitive(a.drop_first(), b.drop_first(), c.drop_first());
    }
}

/// Whether `a` sorts no later than `b`.
pub fn lex_less_eq(a: &[char], b: &[char]) -> (le: bool)
    ensures
        le == lex_le(a@, b@),
{
    let mut i: usize = 0;
    assert(a@.skip(0) == a@ && b@.skip(0) == b@);
    while i < a.len() && i < b.len() && a[i] == b[i]
        invariant
            i <= a@.len(),
            i <= b@.len(),
            a@.take(i as int) == b@.take(i as int),
            lex_le(a@, b@) == lex_le(a@.skip(i as int), b@.skip(i as int)),
        decreases a@.len() - i,
    {
        assert(a@.skip(i as int).drop_first() == a@.skip(i + 1));
        assert(b@.skip(i as int).drop_first() == b@.skip(i + 1));
        i = i + 1;
        assert(a@.take(i as int) == b@.take(i as int));
    }
    if i == a.len() {
        true
    } else if i == b.len() {
        false
    } else {
        a[i] < b[i]
    }
}

} // verus!
