//! Text helpers shared by the library: decimal rendering and parsing of
//! unsigned integers, path joining and substring search, each with the
//! mathematical statement of what it computes.

use vstd::prelude::*;
use vstd::string::*;

verus! {

/// The character of a decimal digit `d < 10`.
pub open spec fn digit_char(d: nat) -> char {
    if d == 0 { '0' }
    else if d == 1 { '1' }
    else if d == 2 { '2' }
    else if d == 3 { '3' }
    else if d == 4 { '4' }
    else if d == 5 { '5' }
    else if d == 6 { '6' }
    else if d == 7 { '7' }
    else if d == 8 { '8' }
    else { '9' }
}

/// The value of a decimal digit character, if it is one.
pub open spec fn digit_value(c: char) -> Option<nat> {
    if c == '0' { Some(0nat) }
    else if c == '1' { Some(1nat) }
    else if c == '2' { Some(2nat) }
    else if c == '3' { Some(3nat) }
    else if c == '4' { Some(4nat) }
    else if c == '5' { Some(5nat) }
    else if c == '6' { Some(6nat) }
    else if c == '7' { Some(7nat) }
    else if c == '8' { Some(8nat) }
    else if c == '9' { Some(9nat) }
    else { None }
}

/// The shortest decimal rendering of `n`, most significant digit first.
pub open spec fn decimal(n: nat) -> Seq<char>
    decreases n,
{
    if n < 10 {
        seq![digit_char(n)]
    } else {
        decimal(n / 10).push(digit_char(n % 10))
    }
}

/// The value of a non-empty string of decimal digits (`None` if a character is not a digit).
pub open spec fn digits_value(s: Seq<char>) -> Option<nat>
    decreases s.len(),
{
    if s.len() == 0 {
        Some(0nat)
    } else {
        match (digits_value(s.drop_last()), digit_value(s.last())) {
            (Some(v), Some(d)) => Some(v * 10 + d),
            _ => None,
        }
    }
}

/// What `str::parse` gives for an unsigned integer type whose largest value is `max`:
/// an optional `+` sign followed by at least one decimal digit and nothing else, whose
/// value does not exceed `max`.
pub open spec fn parse_unsigned(s: Seq<char>, max: nat) -> Option<nat> {
    let digits = if s.len() > 0 && s[0] == '+' { s.drop_first() } else { s };
    if digits.len() == 0 {
        None
    } else {
        match digits_value(digits) {
            Some(v) => if v <= max { Some(v) } else { None },
            None => None,
        }
    }
}

/// What `str::parse::<bool>` gives: exactly `true` or `false`.
pub open spec fn parse_bool(s: Seq<char>) -> Option<bool> {
    if s == "true"@ {
        Some(true)
    } else if s == "false"@ {
        Some(false)
    } else {
        None
    }
}

/// Joining a relative path component onto a directory, as `Path::join` does:
/// a separator is inserted unless the directory is empty or already ends in one.
pub open spec fn path_join(dir: Seq<char>, name: Seq<char>) -> Seq<char> {
    if dir.len() == 0 {
        name
    } else if dir.last() == '/' {
        dir + name
    } else {
        dir + seq!['/'] + name
    }
}

/// `pat` occurs in `s` at position `i`.
pub open spec fn occurs_at(s: Seq<char>, pat: Seq<char>, i: int) -> bool {
    0 <= i && i + pat.len() <= s.len() && s.subrange(i, i + pat.len()) == pat
}

/// The position of the first occurrence of `pat` in `s`, as `str::find` reports it
/// (counted in characters).
#[verifier::opaque]
pub open spec fn first_occurrence(s: Seq<char>, pat: Seq<char>) -> Option<int> {
    if exists|i: int| occurs_at(s, pat, i) {
        Some(choose|i: int| occurs_at(s, pat, i) && forall|j: int| 0 <= j < i ==> !occurs_at(s, pat, j))
    } else {
        None
    }
}

/// Appends one character.
///
/// Trusted: it calls `String::push`, which std documents as appending the
/// character to the end of the string; that is the claim.
#[verifier::external_body]
pub(crate) fn push_char(s: &mut String, c: char)
    ensures
        final(s)@ == old(s)@.push(c),
{
    s.push(c);
}

/// The characters of a string, in order.
pub fn chars_of(s: &str) -> (r: Vec<char>)
    ensures
        r@ == s@,
{
    let mut r: Vec<char> = Vec::new();
    for c in it: s.chars()
        invariant
            r@ == it.seq().take(it.index() as int),
            it.seq() == s@,
    {
        r.push(c);
    }
    r
}

/// Builds a string from characters.
pub fn string_from_chars(cs: &Vec<char>) -> (r: String)
    ensures
        r@ == cs@,
{
    let mut r = String::new();
    let mut i: usize = 0;
    while i < cs.len()
        invariant
            i <= cs.len(),
            r@ == cs@.take(i as int),
        decreases cs.len() - i,
    {
        push_char(&mut r, cs[i]);
        assert(cs@.take(i as int + 1) =~= cs@.take(i as int).push(cs@[i as int]));
        i += 1;
    }
    assert(cs@.take(cs.len() as int) =~= cs@);
    r
}

/// The string of the characters `cs[from..to]`.
pub fn string_from_chars_range(cs: &Vec<char>, from: usize, to: usize) -> (r: String)
    requires
        from <= to <= cs@.len(),
    ensures
        r@ == cs@.subrange(from as int, to as int),
{
    let mut r = String::new();
    let mut i: usize = from;
    while i < to
        invariant
            from <= i <= to,
            to <= cs@.len(),
            r@ == cs@.subrange(from as int, i as int),
        decreases to - i,
    {
        push_char(&mut r, cs[i]);
        assert(cs@.subrange(from as int, i as int + 1) =~= cs@.subrange(from as int, i as int).push(cs@[i as int]));
        i += 1;
    }
    r
}

fn digit_to_char(d: u64) -> (c: char)
    requires
        d < 10,
    ensures
        c == digit_char(d as nat),
{
    if d == 0 { '0' }
    else if d == 1 { '1' }
    else if d == 2 { '2' }
    else if d == 3 { '3' }
    else if d == 4 { '4' }
    else if d == 5 { '5' }
    else if d == 6 { '6' }
    else if d == 7 { '7' }
    else if d == 8 { '8' }
    else { '9' }
}

/// Appends the decimal rendering of `n`.
pub fn push_decimal(s: &mut String, n: u64)
    ensures
        final(s)@ == old(s)@ + decimal(n as nat),
    decreases n,
{
    if n >= 10 {
        push_decimal(s, n / 10);
    }
    push_char(s, digit_to_char(n % 10));
    assert(decimal(n as nat) =~= if n < 10 { seq![digit_char(n as nat)] } else {
        decimal((n / 10) as nat).push(digit_char((n % 10) as nat))
    });
}

/// Appends the decimal rendering of a wide unsigned integer `n`.
pub fn push_decimal_wide(s: &mut String, n: u128)
    ensures
        final(s)@ == old(s)@ + decimal(n as nat),
    decreases n,
{
    if n >= 10 {
        push_decimal_wide(s, n / 10);
    }
    push_char(s, digit_to_char((n % 10) as u64));
    assert(decimal(n as nat) =~= if n < 10 { seq![digit_char(n as nat)] } else {
        decimal((n / 10) as nat).push(digit_char((n % 10) as nat))
    });
}

/// Ten to the power `d`.
pub open spec fn pow10(d: nat) -> nat
    decreases d,
{
    if d == 0 { 1 } else { 10 * pow10((d - 1) as nat) }
}

/// `num / den` rounded to the nearest integer, ties to the even one.
pub open spec fn rounded(num: nat, den: nat) -> nat {
    let q = num / den;
    let r = num % den;
    if r * 2 > den || (r * 2 == den && q % 2 == 1) { q + 1 } else { q }
}

/// The last `width` decimal digits of `n`, with leading zeros.
pub open spec fn padded(n: nat, width: nat) -> Seq<char>
    decreases width,
{
    if width == 0 { Seq::empty() } else { padded(n / 10, (width - 1) as nat).push(digit_char(n % 10)) }
}

/// `num / den` written with exactly `places` decimals, rounded to the nearest,
/// ties to even: how a number is displayed with a fixed precision.
pub open spec fn fixed_text(num: nat, den: nat, places: nat) -> Seq<char> {
    let v = rounded(num * pow10(places), den);
    if places == 0 {
        decimal(v)
    } else {
        decimal(v / pow10(places)) + seq!['.'] + padded(v % pow10(places), places)
    }
}

/// The bound below which fractions are rendered exactly.
pub const FIXED_LIMIT: u128 = 0x10_0000_0000_0000_0000_0000_0000;

/// Appends `num / den` with `places` decimals (see `fixed_text`).
pub fn push_fixed(s: &mut String, num: u128, den: u128, places: u32)
    requires
        0 < den,
        num < FIXED_LIMIT,
        places <= 2,
    ensures
        final(s)@ == old(s)@ + fixed_text(num as nat, den as nat, places as nat),
{
    let p: u128 = if places == 0 { 1 } else if places == 1 { 10 } else { 100 };
    assert(p == pow10(places as nat)) by {
        reveal_with_fuel(pow10, 3);
    }
    let scaled = num * p;
    let q = scaled / den;
    let r = scaled % den;
    let ghost qn = q as nat;
    assert(q <= scaled) by (nonlinear_arith)
        requires q == scaled / den, den > 0, scaled >= 0;
    let v: u128 = if r > den - r || (r == den - r && q % 2 == 1) { q + 1 } else { q };
    assert(v == rounded(scaled as nat, den as nat));
    if places == 0 {
        push_decimal_wide(s, v);
    } else {
        push_decimal_wide(s, v / p);
        push_char(s, '.');
        let f = v % p;
        if places == 2 {
            push_char(s, digit_to_char((f / 10) as u64));
        }
        push_char(s, digit_to_char((f % 10) as u64));
        proof {
            reveal_with_fuel(padded, 3);
            if places == 2 {
                assert(f / 10 < 10);
                assert((f / 10) % 10 == f / 10);
            }
        }
    }
}

/// `n` spaces.
pub open spec fn spaces(n: nat) -> Seq<char> {
    Seq::new(n, |i: int| ' ')
}

/// `s` left-aligned in a field of `width` characters: padded with spaces on
/// the right when shorter, unchanged when not.
pub open spec fn pad_right(s: Seq<char>, width: nat) -> Seq<char> {
    if s.len() >= width { s } else { s + spaces((width - s.len()) as nat) }
}

/// Appends `t` left-aligned in a field of `width` characters.
pub fn push_padded(s: &mut String, t: &str, width: usize)
    ensures
        final(s)@ == old(s)@ + pad_right(t@, width as nat),
{
    let n = chars_of(t).len();
    push_str(s, t);
    let ghost s1 = s@;
    let mut k: usize = n;
    while k < width
        invariant
            n == t@.len(),
            n <= k || k == n,
            k <= width || k == n,
            s@ == s1 + spaces((k - n) as nat),
        decreases width - k,
    {
        push_char(s, ' ');
        assert(spaces((k + 1 - n) as nat) =~= spaces((k - n) as nat).push(' '));
        k += 1;
    }
    assert(s1 =~= old(s)@ + t@);
    if n >= width {
        assert(spaces(0) =~= Seq::<char>::empty());
    }
}

/// Bytes taken by a character in UTF-8.
pub open spec fn utf8_width(c: char) -> nat {
    if (c as u32) < 0x80 { 1 } else if (c as u32) < 0x800 { 2 } else if (c as u32) < 0x10000 { 3 } else { 4 }
}

/// Bytes taken by a string in UTF-8 (what `str::len` gives).
pub open spec fn utf8_len(s: Seq<char>) -> nat
    decreases s.len(),
{
    if s.len() == 0 { 0 } else { utf8_len(s.drop_last()) + utf8_width(s.last()) }
}

/// Bytes taken by a character in UTF-8.
pub fn utf8_width_exec(c: char) -> (n: usize)
    ensures
        n == utf8_width(c),
{
    let v = c as u32;
    if v < 0x80 { 1 } else if v < 0x800 { 2 } else if v < 0x10000 { 3 } else { 4 }
}

/// Whether `c` is white space as `char::is_whitespace` defines it (the
/// Unicode White_Space property).
pub open spec fn is_space(c: char) -> bool {
    let v = c as u32;
    (0x09 <= v && v <= 0x0D) || v == 0x20 || v == 0x85 || v == 0xA0 || v == 0x1680
        || (0x2000 <= v && v <= 0x200A) || v == 0x2028 || v == 0x2029 || v == 0x202F
        || v == 0x205F || v == 0x3000
}

/// Whether `c` is white space (see `is_space`).
pub fn is_space_exec(c: char) -> (r: bool)
    ensures
        r == is_space(c),
{
    let v = c as u32;
    (0x09 <= v && v <= 0x0D) || v == 0x20 || v == 0x85 || v == 0xA0 || v == 0x1680
        || (0x2000 <= v && v <= 0x200A) || v == 0x2028 || v == 0x2029 || v == 0x202F
        || v == 0x205F || v == 0x3000
}

/// `s` without leading white space.
pub open spec fn trim_start(s: Seq<char>) -> Seq<char>
    decreases s.len(),
{
    if s.len() > 0 && is_space(s[0]) { trim_start(s.drop_first()) } else { s }
}

/// `s` without trailing white space.
pub open spec fn trim_end(s: Seq<char>) -> Seq<char>
    decreases s.len(),
{
    if s.len() > 0 && is_space(s.last()) { trim_end(s.drop_last()) } else { s }
}

/// `s` without leading and trailing white space (what `str::trim` gives).
pub open spec fn trim(s: Seq<char>) -> Seq<char> {
    trim_end(trim_start(s))
}

proof fn lemma_trim_start_at(s: Seq<char>, i: int)
    requires
        0 <= i <= s.len(),
        forall|j: int| 0 <= j < i ==> is_space(#[trigger] s[j]),
    ensures
        trim_start(s) == trim_start(s.subrange(i, s.len() as int)),
    decreases i,
{
    if i > 0 {
        assert(s.len() > 0 && is_space(s[0]));
        assert(s.drop_first().subrange(i - 1, s.drop_first().len() as int) =~= s.subrange(i, s.len() as int));
        lemma_trim_start_at(s.drop_first(), i - 1);
    } else {
        assert(s.subrange(0, s.len() as int) =~= s);
    }
}

proof fn lemma_trim_end_at(s: Seq<char>, k: int)
    requires
        0 <= k <= s.len(),
        forall|j: int| k <= j < s.len() ==> is_space(#[trigger] s[j]),
    ensures
        trim_end(s) == trim_end(s.subrange(0, k)),
    decreases s.len() - k,
{
    if k < s.len() {
        assert(is_space(s.last()));
        assert(s.drop_last().subrange(0, k) =~= s.subrange(0, k));
        lemma_trim_end_at(s.drop_last(), k);
    } else {
        assert(s.subrange(0, k) =~= s);
    }
}

/// `s` without leading and trailing white space (see `trim`).
pub fn trim_exec(s: &str) -> (r: String)
    ensures
        r@ == trim(s@),
{
    let cs = chars_of(s);
    let n = cs.len();
    let mut i: usize = 0;
    while i < n && is_space_exec(cs[i])
        invariant
            i <= n,
            n == cs@.len(),
            cs@ == s@,
            forall|j: int| 0 <= j < i ==> is_space(#[trigger] cs@[j]),
        decreases n - i,
    {
        i += 1;
    }
    proof { lemma_trim_start_at(s@, i as int); }
    let ghost rest = s@.subrange(i as int, n as int);
    if i == n {
        assert(rest =~= Seq::<char>::empty());
        return String::new();
    }
    assert(!is_space(rest[0]));
    assert(trim_start(rest) == rest);
    let mut k: usize = n;
    while k > i && is_space_exec(cs[k - 1])
        invariant
            i < n,
            i <= k <= n,
            n == cs@.len(),
            cs@ == s@,
            rest == s@.subrange(i as int, n as int),
            forall|j: int| k - i <= j < rest.len() ==> is_space(#[trigger] rest[j]),
        decreases k,
    {
        k -= 1;
    }
    proof {
        lemma_trim_end_at(rest, (k - i) as int);
        assert(rest.subrange(0, (k - i) as int) =~= s@.subrange(i as int, k as int));
        assert(k > i);
        let t = s@.subrange(i as int, k as int);
        assert(!is_space(t.last()));
    }
    string_from_chars_range(&cs, i, k)
}

/// `line` without one trailing carriage return.
pub open spec fn strip_cr(line: Seq<char>) -> Seq<char> {
    if line.len() > 0 && line.last() == '\r' { line.drop_last() } else { line }
}

/// The lines of `s` that end in a newline (without it, nor a carriage return
/// before it), and the text after the last newline.
pub open spec fn line_scan(s: Seq<char>) -> (Seq<Seq<char>>, Seq<char>)
    decreases s.len(),
{
    if s.len() == 0 {
        (Seq::empty(), Seq::empty())
    } else {
        let (done, cur) = line_scan(s.drop_last());
        if s.last() == '\n' { (done.push(strip_cr(cur)), Seq::empty()) } else { (done, cur.push(s.last())) }
    }
}

/// The lines of `s`, as `str::lines` gives them: split at newlines, a carriage
/// return before a newline dropped, no empty line after a final newline.
pub open spec fn lines(s: Seq<char>) -> Seq<Seq<char>> {
    let (done, cur) = line_scan(s);
    if cur.len() > 0 { done.push(cur) } else { done }
}

/// The lines of `s` (see `lines`).
pub fn lines_exec(s: &str) -> (r: Vec<String>)
    ensures
        r@.map_values(|l: String| l@) == lines(s@),
{
    let cs = chars_of(s);
    let mut done: Vec<String> = Vec::new();
    let mut cur: Vec<char> = Vec::new();
    let mut i: usize = 0;
    while i < cs.len()
        invariant
            i <= cs@.len(),
            cs@ == s@,
            (done@.map_values(|l: String| l@), cur@) == line_scan(s@.take(i as int)),
        decreases cs.len() - i,
    {
        let c = cs[i];
        let ghost before = done@;
        assert(s@.take(i as int + 1).drop_last() =~= s@.take(i as int));
        if c == '\n' {
            let mut end = cur.len();
            if end > 0 && cur[end - 1] == '\r' {
                end = end - 1;
            }
            let line = string_from_chars_range(&cur, 0, end);
            assert(line@ =~= strip_cr(cur@));
            done.push(line);
            assert(done@.map_values(|l: String| l@) =~= before.map_values(|l: String| l@).push(strip_cr(cur@)));
            cur = Vec::new();
        } else {
            cur.push(c);
        }
        i += 1;
    }
    assert(s@.take(i as int) =~= s@);
    if cur.len() > 0 {
        let ghost before = done@;
        let last = string_from_chars(&cur);
        done.push(last);
        assert(done@.map_values(|l: String| l@) =~= before.map_values(|l: String| l@).push(cur@));
    }
    done
}

/// The words of `s` that a white-space character has ended, and the word in
/// progress at its end.
pub open spec fn word_scan(s: Seq<char>) -> (Seq<Seq<char>>, Seq<char>)
    decreases s.len(),
{
    if s.len() == 0 {
        (Seq::empty(), Seq::empty())
    } else {
        let (done, cur) = word_scan(s.drop_last());
        if is_space(s.last()) {
            (if cur.len() > 0 { done.push(cur) } else { done }, Seq::empty())
        } else {
            (done, cur.push(s.last()))
        }
    }
}

/// The words of `s`, as `str::split_whitespace` gives them: the maximal runs
/// of characters that are not white space.
pub open spec fn words(s: Seq<char>) -> Seq<Seq<char>> {
    let (done, cur) = word_scan(s);
    if cur.len() > 0 { done.push(cur) } else { done }
}

/// The words of `s` (see `words`).
pub fn words_exec(s: &str) -> (r: Vec<String>)
    ensures
        r@.map_values(|w: String| w@) == words(s@),
{
    let cs = chars_of(s);
    let mut done: Vec<String> = Vec::new();
    let mut cur: Vec<char> = Vec::new();
    let mut i: usize = 0;
    while i < cs.len()
        invariant
            i <= cs@.len(),
            cs@ == s@,
            (done@.map_values(|w: String| w@), cur@) == word_scan(s@.take(i as int)),
        decreases cs.len() - i,
    {
        let c = cs[i];
        let ghost before = done@;
        assert(s@.take(i as int + 1).drop_last() =~= s@.take(i as int));
        if is_space_exec(c) {
            if cur.len() > 0 {
                let word = string_from_chars(&cur);
                done.push(word);
                assert(done@.map_values(|w: String| w@) =~= before.map_values(|w: String| w@).push(cur@));
            }
            cur = Vec::new();
        } else {
            cur.push(c);
        }
        i += 1;
    }
    assert(s@.take(i as int) =~= s@);
    if cur.len() > 0 {
        let ghost before = done@;
        let last = string_from_chars(&cur);
        done.push(last);
        assert(done@.map_values(|w: String| w@) =~= before.map_values(|w: String| w@).push(cur@));
    }
    done
}

/// Whether `s` begins with `prefix`.
pub fn starts_with_exec(s: &str, prefix: &str) -> (r: bool)
    ensures
        r == (prefix@.len() <= s@.len() && s@.take(prefix@.len() as int) == prefix@),
{
    let cs = chars_of(s);
    let ps = chars_of(prefix);
    if ps.len() > cs.len() {
        return false;
    }
    let mut i: usize = 0;
    while i < ps.len()
        invariant
            i <= ps@.len(),
            ps@.len() <= cs@.len(),
            cs@ == s@,
            ps@ == prefix@,
            forall|j: int| 0 <= j < i ==> cs@[j] == ps@[j],
        decreases ps.len() - i,
    {
        if cs[i] != ps[i] {
            assert(s@.take(prefix@.len() as int)[i as int] != prefix@[i as int]);
            return false;
        }
        i += 1;
    }
    assert(s@.take(prefix@.len() as int) =~= prefix@);
    true
}

/// The position of the first occurrence of `pat` in `s` at or after `from`.
pub fn find_from(s: &Vec<char>, pat: &Vec<char>, from: usize) -> (r: Option<usize>)
    requires
        from <= s@.len(),
    ensures
        match r {
            Some(i) => from <= i && occurs_at(s@, pat@, i as int)
                && forall|j: int| from <= j < i ==> !occurs_at(s@, pat@, j),
            None => forall|j: int| from <= j ==> !occurs_at(s@, pat@, j),
        },
{
    if pat.len() > s.len() {
        return None;
    }
    let n = s.len();
    let last = n - pat.len();
    let mut i: usize = from;
    while i <= last
        invariant
            n == s@.len(),
            from <= i,
            last == s@.len() - pat@.len(),
            pat@.len() <= s@.len(),
            forall|j: int| from <= j < i ==> !occurs_at(s@, pat@, j),
        decreases last + 1 - i,
    {
        let mut k: usize = 0;
        let mut same = true;
        while k < pat.len()
            invariant
                n == s@.len(),
                i <= last,
                last == s@.len() - pat@.len(),
                pat@.len() <= s@.len(),
                k <= pat@.len(),
                same ==> forall|m: int| 0 <= m < k ==> s@[i + m] == pat@[m],
                !same ==> !occurs_at(s@, pat@, i as int),
            decreases pat.len() - k,
        {
            if s[i + k] != pat[k] {
                same = false;
                assert(s@.subrange(i as int, i + pat@.len())[k as int] != pat@[k as int]);
            }
            k += 1;
        }
        if same {
            assert(s@.subrange(i as int, i + pat@.len()) =~= pat@);
            return Some(i);
        }
        if i == last {
            assert forall|j: int| from <= j implies !occurs_at(s@, pat@, j) by {
                if j <= last { } else { }
            }
            return None;
        }
        i += 1;
    }
    None
}

/// The position of the first occurrence of `pat` in `s` (see `first_occurrence`).
pub fn find_exec(s: &str, pat: &str) -> (r: Option<usize>)
    ensures
        match r {
            Some(i) => first_occurrence(s@, pat@) == Some(i as int) && occurs_at(s@, pat@, i as int),
            None => first_occurrence(s@, pat@) is None,
        },
{
    let cs = chars_of(s);
    let ps = chars_of(pat);
    let r = find_from(&cs, &ps, 0);
    proof { reveal(first_occurrence); }
    match r {
        Some(i) => {
            proof {
                let w = choose|j: int| occurs_at(s@, pat@, j) && forall|k: int| 0 <= k < j ==> !occurs_at(s@, pat@, k);
                assert(occurs_at(s@, pat@, i as int));
                assert(occurs_at(s@, pat@, w) && forall|k: int| 0 <= k < w ==> !occurs_at(s@, pat@, k));
                if w < i { assert(!occurs_at(s@, pat@, w)); }
                if i < w { assert(!occurs_at(s@, pat@, i as int)); }
            }
            Some(i)
        },
        None => {
            proof {
                assert forall|j: int| !occurs_at(s@, pat@, j) by {
                    if j < 0 { } else { assert(0 <= j); }
                }
            }
            None
        },
    }
}

/// The position of the first `c` in `s`.
pub open spec fn find_char(s: Seq<char>, c: char) -> Option<int>
    decreases s.len(),
{
    if s.len() == 0 {
        None
    } else if s[0] == c {
        Some(0)
    } else {
        match find_char(s.drop_first(), c) {
            Some(i) => Some(i + 1),
            None => None,
        }
    }
}

/// The first `c` is a `c` within the string.
pub proof fn lemma_find_char_range(s: Seq<char>, c: char)
    ensures
        match find_char(s, c) {
            Some(i) => 0 <= i < s.len() && s[i] == c && (i > 0 ==> s[0] != c),
            None => true,
        },
    decreases s.len(),
{
    if s.len() > 0 && s[0] != c {
        lemma_find_char_range(s.drop_first(), c);
    }
}

proof fn lemma_find_char(s: Seq<char>, c: char, i: int)
    requires
        0 <= i <= s.len(),
        forall|j: int| 0 <= j < i ==> s[j] != c,
    ensures
        i < s.len() && s[i] == c ==> find_char(s, c) == Some(i),
        i == s.len() ==> find_char(s, c) is None,
    decreases i,
{
    if i > 0 {
        assert(s[0] != c);
        lemma_find_char(s.drop_first(), c, i - 1);
    }
}

/// The position of the first `c` in `cs[from..]`, counted from `from`.
pub fn find_char_from(cs: &Vec<char>, c: char, from: usize) -> (r: Option<usize>)
    requires
        from <= cs@.len(),
    ensures
        match r {
            Some(i) => from <= i && find_char(cs@.skip(from as int), c) == Some(i - from),
            None => find_char(cs@.skip(from as int), c) is None,
        },
{
    let ghost t = cs@.skip(from as int);
    let mut i: usize = from;
    while i < cs.len()
        invariant
            from <= i <= cs@.len(),
            t == cs@.skip(from as int),
            forall|j: int| 0 <= j < i - from ==> t[j] != c,
        decreases cs.len() - i,
    {
        if cs[i] == c {
            proof { lemma_find_char(t, c, (i - from) as int); }
            return Some(i);
        }
        i += 1;
    }
    proof { lemma_find_char(t, c, (i - from) as int); }
    None
}

/// The decimal rendering of `n`.
pub fn to_decimal(n: u64) -> (r: String)
    ensures
        r@ == decimal(n as nat),
{
    let mut r = String::new();
    push_decimal(&mut r, n);
    r
}

/// Appends a string slice.
pub fn push_str(s: &mut String, t: &str)
    ensures
        final(s)@ == old(s)@ + t@,
{
    s.append(t);
}

proof fn lemma_digit_char_injective(a: nat, b: nat)
    requires
        a < 10,
        b < 10,
        digit_char(a) == digit_char(b),
    ensures
        a == b,
{
}

/// Decimal renderings are never empty, and have one digit exactly below ten.
pub proof fn lemma_decimal_len(n: nat)
    ensures
        decimal(n).len() >= 1,
        decimal(n).len() == 1 <==> n < 10,
    decreases n,
{
    if n >= 10 {
        lemma_decimal_len(n / 10);
    }
}

/// Distinct numbers have distinct decimal renderings.
pub proof fn lemma_decimal_injective(a: nat, b: nat)
    requires
        decimal(a) == decimal(b),
    ensures
        a == b,
    decreases a,
{
    lemma_decimal_len(a);
    lemma_decimal_len(b);
    if a < 10 {
        assert(b < 10);
        assert(decimal(a)[0] == digit_char(a));
        assert(decimal(b)[0] == digit_char(b));
        lemma_digit_char_injective(a, b);
    } else {
        assert(b >= 10);
        let da = decimal(a);
        let db = decimal(b);
        assert(da == decimal(a / 10).push(digit_char(a % 10)));
        assert(db == decimal(b / 10).push(digit_char(b % 10)));
        assert(da.last() == digit_char(a % 10));
        assert(db.last() == digit_char(b % 10));
        assert(da.drop_last() =~= decimal(a / 10));
        assert(db.drop_last() =~= decimal(b / 10));
        lemma_decimal_injective(a / 10, b / 10);
        lemma_digit_char_injective(a % 10, b % 10);
    }
}

/// Parses a decimal unsigned integer no larger than `max`, as `str::parse` does for
/// the unsigned type whose largest value is `max`.
pub fn parse_unsigned_exec(s: &str, max: u64) -> (r: Option<u64>)
    ensures
        match r {
            Some(v) => parse_unsigned(s@, max as nat) == Some(v as nat),
            None => parse_unsigned(s@, max as nat) is None,
        },
{
    let cs = chars_of(s);
    let ghost sv = s@;
    let start: usize = if cs.len() > 0 && cs[0] == '+' { 1 } else { 0 };
    let ghost digits = if sv.len() > 0 && sv[0] == '+' { sv.drop_first() } else { sv };
    assert(digits =~= sv.subrange(start as int, sv.len() as int));
    if start == cs.len() {
        return None;
    }
    let mut value: u64 = 0;
    let mut i: usize = start;
    while i < cs.len()
        invariant
            start <= i <= cs.len(),
            cs@ == sv,
            sv == s@,
            digits == sv.subrange(start as int, sv.len() as int),
            digits == (if sv.len() > 0 && sv[0] == '+' { sv.drop_first() } else { sv }),
            digits.len() > 0,
            value <= max,
            digits_value(sv.subrange(start as int, i as int)) == Some(value as nat),
        decreases cs.len() - i,
    {
        let c = cs[i];
        let ghost pre = sv.subrange(start as int, i as int);
        let ghost next = sv.subrange(start as int, i as int + 1);
        assert(next.drop_last() =~= pre);
        assert(next.last() == c);
        let d: u64 = if c == '0' { 0 }
            else if c == '1' { 1 }
            else if c == '2' { 2 }
            else if c == '3' { 3 }
            else if c == '4' { 4 }
            else if c == '5' { 5 }
            else if c == '6' { 6 }
            else if c == '7' { 7 }
            else if c == '8' { 8 }
            else if c == '9' { 9 }
            else {
                proof {
                    assert(digits[i - start] == c);
                    lemma_digits_value_prefix_none(digits, (i - start) as int);
                }
                return None;
            };
        assert(digit_value(c) == Some(d as nat));
        assert(digits_value(next) == Some((value * 10 + d) as nat));
        if d > max || value > (max - d) / 10 {
            proof {
                assert(digits.take((i - start) as int + 1) =~= next);
                lemma_digits_value_monotone(digits, (i - start) as int + 1);
            }
            return None;
        }
        value = value * 10 + d;
        i += 1;
    }
    assert(sv.subrange(start as int, cs.len() as int) =~= digits);
    Some(value)
}

/// The digits of a number read back as the number.
pub proof fn lemma_digits_value_decimal(n: nat)
    ensures
        digits_value(decimal(n)) == Some(n),
        decimal(n).len() > 0,
        decimal(n)[0] != '+',
    decreases n,
{
    if n < 10 {
        let d = decimal(n);
        assert(d =~= seq![digit_char(n)]);
        assert(d.drop_last() =~= Seq::<char>::empty());
        assert(digits_value(d.drop_last()) == Some(0nat));
        assert(digit_value(digit_char(n)) == Some(n));
        assert(digits_value(d) == Some(0 * 10 + n));
    } else {
        lemma_digits_value_decimal(n / 10);
        let d = decimal(n);
        assert(d.drop_last() =~= decimal(n / 10));
        assert(d.last() == digit_char(n % 10));
        assert(digit_value(digit_char(n % 10)) == Some(n % 10));
        assert(d[0] == decimal(n / 10)[0]);
        assert(digits_value(d) == Some((n / 10) * 10 + n % 10));
    }
}

/// Writing a number in decimal and parsing it gives the number back.
pub proof fn lemma_parse_decimal(n: nat, max: nat)
    requires
        n <= max,
    ensures
        parse_unsigned(decimal(n), max) == Some(n),
{
    lemma_digits_value_decimal(n);
}

/// A non-digit at position `k` makes the whole string invalid.
proof fn lemma_digits_value_prefix_none(s: Seq<char>, k: int)
    requires
        0 <= k < s.len(),
        digit_value(s[k]) is None,
    ensures
        digits_value(s) is None,
    decreases s.len(),
{
    if k < s.len() - 1 {
        lemma_digits_value_prefix_none(s.drop_last(), k);
    }
}

/// The value of a valid digit string is at least the value of any of its prefixes.
proof fn lemma_digits_value_monotone(s: Seq<char>, k: int)
    requires
        0 <= k <= s.len(),
        digits_value(s.take(k)) is Some,
    ensures
        digits_value(s) is Some ==> digits_value(s).unwrap() >= digits_value(s.take(k)).unwrap(),
    decreases s.len(),
{
    if k < s.len() {
        assert(s.drop_last().take(k) =~= s.take(k));
        lemma_digits_value_monotone(s.drop_last(), k);
    } else {
        assert(s.take(k) =~= s);
    }
}


/// The digits of a fraction of a second given in milliseconds (`0 < f < 1000`),
/// without trailing zeros.
pub open spec fn fraction_digits(f: nat) -> Seq<char> {
    let d = seq![digit_char(f / 100), digit_char((f / 10) % 10), digit_char(f % 10)];
    if f % 100 == 0 {
        d.take(1)
    } else if f % 10 == 0 {
        d.take(2)
    } else {
        d
    }
}

/// A time given in milliseconds, written in seconds the way a float is displayed:
/// no fractional part when it is a whole number of seconds, else no trailing zeros.
pub open spec fn seconds_text(ms: nat) -> Seq<char> {
    if ms % 1000 == 0 {
        decimal(ms / 1000)
    } else {
        decimal(ms / 1000) + seq!['.'] + fraction_digits(ms % 1000)
    }
}

/// Appends `ms` milliseconds written in seconds.
pub fn push_seconds(s: &mut String, ms: u64)
    ensures
        final(s)@ == old(s)@ + seconds_text(ms as nat),
{
    push_decimal(s, ms / 1000);
    let f = ms % 1000;
    if f != 0 {
        push_char(s, '.');
        push_char(s, digit_to_char(f / 100));
        if f % 100 != 0 {
            push_char(s, digit_to_char((f / 10) % 10));
            if f % 10 != 0 {
                push_char(s, digit_to_char(f % 10));
            }
        }
        let ghost d = seq![digit_char((f / 100) as nat), digit_char(((f / 10) % 10) as nat), digit_char((f % 10) as nat)];
        assert(d.take(1) =~= seq![digit_char((f / 100) as nat)]);
        assert(d.take(2) =~= seq![digit_char((f / 100) as nat), digit_char(((f / 10) % 10) as nat)]);
        assert(final(s)@ =~= old(s)@ + seconds_text(ms as nat)) by {
            assert(seconds_text(ms as nat) =~= decimal((ms / 1000) as nat) + seq!['.'] + fraction_digits(f as nat));
        }
    }
}


/// Joins a relative path component onto a directory, as `Path::join` does.
pub fn path_join_exec(dir: &str, name: &str) -> (r: String)
    ensures
        r@ == path_join(dir@, name@),
{
    let cs = chars_of(dir);
    let mut r = String::new();
    push_str(&mut r, dir);
    if cs.len() > 0 && cs[cs.len() - 1] != '/' {
        push_char(&mut r, '/');
    }
    push_str(&mut r, name);
    proof {
        if dir@.len() > 0 && dir@.last() != '/' {
            assert(r@ =~= dir@ + seq!['/'] + name@);
        }
    }
    r
}

/// Whether two strings are equal.
pub fn str_eq(a: &str, b: &str) -> (r: bool)
    ensures
        r == (a@ == b@),
{
    let x = a.to_owned();
    let y = b.to_owned();
    x == y
}

} // verus!
