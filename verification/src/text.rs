//! Text primitives shared by both sources: decimal rendering of integers,
//! form-style percent encoding, and small string helpers.

use vstd::prelude::*;

verus! {

/// The ASCII digit character for a value below ten.
pub open spec fn digit_char(d: int) -> char {
    ((d + 48) as u8) as char
}

/// Decimal digits of a natural number, most significant first, no leading zeros
/// (the number zero is the single digit `0`).
pub open spec fn decimal_digits(n: nat) -> Seq<char>
    decreases n,
{
    if n < 10 {
        seq![digit_char(n as int)]
    } else {
        decimal_digits(n / 10).push(digit_char((n % 10) as int))
    }
}

/// The decimal rendering of a signed integer: an optional `-` followed by the digits
/// of its magnitude.
pub open spec fn decimal_string(n: int) -> Seq<char> {
    if n < 0 {
        seq!['-'] + decimal_digits((-n) as nat)
    } else {
        decimal_digits(n as nat)
    }
}

/// Appends one character to a string.
#[verifier::external_body]
pub(crate) fn push_char(s: &mut String, c: char)
    ensures
        final(s)@ == old(s)@.push(c),
{
    s.push(c);
}

/// Renders `n` in decimal.
pub fn i32_to_string(n: i32) -> (res: String)
    requires
        n > i32::MIN,
    ensures
        res@ == decimal_string(n as int),
{
    let negative = n < 0;
    let mut m: i32 = if negative { -n } else { n };
    let ghost mag: nat = m as nat;
    // digits are produced least significant first
    let mut buf: Vec<char> = Vec::new();
    if m == 0 {
        buf.push('0');
    }
    while m > 0
        invariant
            0 <= m <= mag,
            mag == 0 ==> buf@ == seq!['0'],
            mag > 0 && m > 0 ==> decimal_digits(mag) == decimal_digits(m as nat) + buf@.reverse(),
            mag > 0 && m == 0 ==> decimal_digits(mag) == buf@.reverse(),
        decreases m,
    {
        let d: i32 = m % 10;
        let c: char = ((d as u8) + 48) as char;
        assert(c == digit_char(d as int));
        let ghost old_buf = buf@;
        buf.push(c);
        assert(buf@.reverse() =~= seq![c] + old_buf.reverse());
        m = m / 10;
        if m > 0 {
            assert(decimal_digits((m * 10 + d) as nat) == decimal_digits(m as nat).push(c));
            assert(decimal_digits(m as nat).push(c) + old_buf.reverse() =~= decimal_digits(m as nat) + buf@.reverse());
        }
    }
    let ghost digits = buf@.reverse();
    assert(digits == decimal_digits(mag)) by {
        if mag == 0 {
            assert(buf@.reverse() =~= seq!['0']);
        }
    }
    let mut res = String::new();
    if negative {
        push_char(&mut res, '-');
    }
    let ghost sign = res@;
    let len = buf.len();
    let mut i: usize = len;
    while i > 0
        invariant
            i <= len == buf@.len(),
            digits == buf@.reverse(),
            res@ == sign + digits.subrange(0, len - i),
        decreases i,
    {
        i = i - 1;
        push_char(&mut res, buf[i]);
        assert(digits[len - 1 - i] == buf@[i as int]);
        assert(res@ =~= sign + digits.subrange(0, len - i));
    }
    assert(digits.subrange(0, len as int) =~= digits);
    assert(sign =~= (if negative { seq!['-'] } else { Seq::<char>::empty() }));
    assert(res@ =~= decimal_string(n as int));
    res
}


/// The characters of a string, as a vector.
pub fn chars_of(s: &str) -> (v: Vec<char>)
    ensures
        v@ == s@,
{
    let n = s.unicode_len();
    let mut v: Vec<char> = Vec::new();
    let mut i: usize = 0;
    while i < n
        invariant
            i <= n == s@.len(),
            v@ == s@.subrange(0, i as int),
        decreases n - i,
    {
        v.push(s.get_char(i));
        i = i + 1;
        assert(v@ =~= s@.subrange(0, i as int));
    }
    assert(s@.subrange(0, n as int) =~= s@);
    v
}

/// A string holding the characters `v[from..to]`.
pub fn string_from_range(v: &[char], from: usize, to: usize) -> (res: String)
    requires
        from <= to <= v@.len(),
    ensures
        res@ == v@.subrange(from as int, to as int),
{
    let mut res = String::new();
    let mut i: usize = from;
    while i < to
        invariant
            from <= i <= to <= v@.len(),
            res@ == v@.subrange(from as int, i as int),
        decreases to - i,
    {
        push_char(&mut res, v[i]);
        i = i + 1;
        assert(res@ =~= v@.subrange(from as int, i as int));
    }
    res
}

/// A string holding exactly the characters of `v`.
pub fn string_from_chars(v: &[char]) -> (res: String)
    ensures
        res@ == v@,
{
    let res = string_from_range(v, 0, v.len());
    assert(v@.subrange(0, v@.len() as int) =~= v@);
    res
}

/// Whether two strings hold the same characters.
pub fn str_eq(a: &str, b: &str) -> (r: bool)
    ensures
        r == (a@ == b@),
{
    let n = a.unicode_len();
    if n != b.unicode_len() {
        return false;
    }
    let mut i: usize = 0;
    while i < n
        invariant
            i <= n == a@.len() == b@.len(),
            a@.subrange(0, i as int) == b@.subrange(0, i as int),
        decreases n - i,
    {
        if a.get_char(i) != b.get_char(i) {
            assert(a@[i as int] != b@[i as int]);
            return false;
        }
        i = i + 1;
        assert(a@.subrange(0, i as int) =~= b@.subrange(0, i as int)) by {
            assert forall|k: int| 0 <= k < i implies a@.subrange(0, i as int)[k] == b@.subrange(0, i as int)[k] by {
                if k < i - 1 {
                    assert(a@.subrange(0, i - 1)[k] == b@.subrange(0, i - 1)[k]);
                }
            }
        }
    }
    assert(a@ =~= a@.subrange(0, n as int));
    assert(b@ =~= b@.subrange(0, n as int));
    true
}

/// Whether `pat` occurs in `s` starting at position `i`.
pub open spec fn occurs_at(s: Seq<char>, pat: Seq<char>, i: int) -> bool {
    0 <= i && i + pat.len() <= s.len() && s.subrange(i, i + pat.len()) == pat
}

/// The first position at or after `i` where `pat` occurs in `s`.
pub open spec fn find_from(s: Seq<char>, pat: Seq<char>, i: int) -> Option<int>
    decreases s.len() + 1 - i,
{
    if i < 0 || i + pat.len() > s.len() {
        None
    } else if occurs_at(s, pat, i) {
        Some(i)
    } else {
        find_from(s, pat, i + 1)
    }
}

/// Whether `s` ends with `suffix`.
pub open spec fn ends_with(s: Seq<char>, suffix: Seq<char>) -> bool {
    suffix.len() <= s.len() && s.subrange(s.len() - suffix.len(), s.len() as int) == suffix
}

/// `c` in lower case, when it is an upper-case ASCII letter; otherwise `c`.
pub open spec fn ascii_lower_char(c: char) -> char {
    if 'A' <= c <= 'Z' {
        ((c as u32) + 32) as char
    } else {
        c
    }
}

/// `s` with its upper-case ASCII letters in lower case.
pub open spec fn ascii_lowercase(s: Seq<char>) -> Seq<char> {
    s.map_values(|c: char| ascii_lower_char(c))
}

/// Whether `pat` occurs anywhere in `s`.
pub open spec fn has_substring(s: Seq<char>, pat: Seq<char>) -> bool {
    find_from(s, pat, 0) is Some
}

/// What `find_from` returns is an occurrence, and no earlier one exists.
pub proof fn lemma_find_from(s: Seq<char>, pat: Seq<char>, i: int)
    requires
        0 <= i,
    ensures
        find_from(s, pat, i) matches Some(j) ==> i <= j && occurs_at(s, pat, j) && forall|k: int|
            i <= k < j ==> !occurs_at(s, pat, k),
        find_from(s, pat, i) is None ==> forall|k: int| i <= k ==> !occurs_at(s, pat, k),
    decreases s.len() + 1 - i,
{
    if i + pat.len() > s.len() {
    } else if occurs_at(s, pat, i) {
    } else {
        lemma_find_from(s, pat, i + 1);
    }
}

/// Whether `v[i..]` starts with `pat`.
pub fn matches_at(v: &[char], pat: &[char], i: usize) -> (r: bool)
    ensures
        r == occurs_at(v@, pat@, i as int),
{
    if i > v.len() || pat.len() > v.len() - i {
        return false;
    }
    let mut k: usize = 0;
    while k < pat.len()
        invariant
            i + pat.len() <= v.len(),
            k <= pat@.len(),
            forall|j: int| 0 <= j < k ==> v@[i + j] == pat@[j],
        decreases pat.len() - k,
    {
        if v[i + k] != pat[k] {
            assert(v@.subrange(i as int, i + pat@.len())[k as int] != pat@[k as int]);
            return false;
        }
        k = k + 1;
    }
    assert(v@.subrange(i as int, i + pat@.len()) =~= pat@);
    true
}

/// The first position at or after `from` where `pat` occurs in `v`.
pub fn find_from_exec(v: &[char], pat: &[char], from: usize) -> (r: Option<usize>)
    ensures
        r matches Some(j) ==> find_from(v@, pat@, from as int) == Some(j as int),
        r is None ==> find_from(v@, pat@, from as int) is None,
{
    if from > v.len() {
        return None;
    }
    let mut i: usize = from;
    while i < v.len()
        invariant
            from <= i <= v.len(),
            find_from(v@, pat@, from as int) == find_from(v@, pat@, i as int),
        decreases v.len() - i,
    {
        if pat.len() > v.len() - i {
            return None;
        }
        if matches_at(v, pat, i) {
            return Some(i);
        }
        i = i + 1;
    }
    if matches_at(v, pat, i) {
        Some(i)
    } else {
        assert(find_from(v@, pat@, i + 1) is None);
        None
    }
}

/// Whether `pat` occurs in `s`.
pub fn contains_str(s: &str, pat: &str) -> (r: bool)
    ensures
        r == has_substring(s@, pat@),
{
    let v = chars_of(s);
    let p = chars_of(pat);
    find_from_exec(v.as_slice(), p.as_slice(), 0).is_some()
}


/// Bytes that form-style percent encoding leaves as they are:
/// ASCII letters, digits, and `-`, `_`, `.`, `~`.
pub open spec fn is_unreserved(b: u8) -> bool {
    (65 <= b <= 90) || (97 <= b <= 122) || (48 <= b <= 57) || b == 45 || b == 95 || b == 46
        || b == 126
}

/// Upper-case hexadecimal digit for a value below sixteen.
pub open spec fn hex_digit(n: int) -> char {
    if n < 10 {
        ((n + 48) as u8) as char
    } else {
        ((n + 55) as u8) as char
    }
}

/// The encoding of a single byte: unreserved bytes stand for themselves, a space
/// becomes `+`, anything else becomes `%` and two upper-case hex digits.
pub open spec fn encode_byte(b: u8) -> Seq<char> {
    if is_unreserved(b) {
        seq![b as char]
    } else if b == 32 {
        seq!['+']
    } else {
        seq!['%', hex_digit(b as int / 16), hex_digit(b as int % 16)]
    }
}

/// Form-style percent encoding of a byte sequence, byte by byte.
pub open spec fn form_encode(bytes: Seq<u8>) -> Seq<char>
    decreases bytes.len(),
{
    if bytes.len() == 0 {
        Seq::empty()
    } else {
        form_encode(bytes.drop_last()) + encode_byte(bytes.last())
    }
}

fn hex_digit_exec(n: u8) -> (c: char)
    requires
        n < 16,
    ensures
        c == hex_digit(n as int),
{
    if n < 10 {
        (n + 48) as char
    } else {
        (n + 55) as char
    }
}

/// Percent-encodes the UTF-8 bytes of `s` for use in a query string.
pub fn urlencode(s: &str) -> (res: String)
    ensures
        res@ == form_encode(vstd::utf8::encode_utf8(s@)),
{
    let bytes = s.as_bytes();
    let mut res = String::new();
    let mut i: usize = 0;
    while i < bytes.len()
        invariant
            i <= bytes@.len(),
            bytes@ == vstd::utf8::encode_utf8(s@),
            res@ == form_encode(bytes@.subrange(0, i as int)),
        decreases bytes.len() - i,
    {
        let b: u8 = bytes[i];
        let ghost prev = res@;
        if (b >= 65 && b <= 90) || (b >= 97 && b <= 122) || (b >= 48 && b <= 57) || b == 45 || b
            == 95 || b == 46 || b == 126 {
            push_char(&mut res, b as char);
        } else if b == 32 {
            push_char(&mut res, '+');
        } else {
            push_char(&mut res, '%');
            push_char(&mut res, hex_digit_exec(b / 16));
            push_char(&mut res, hex_digit_exec(b % 16));
        }
        assert(res@ =~= prev + encode_byte(b));
        i = i + 1;
        assert(bytes@.subrange(0, i as int).drop_last() =~= bytes@.subrange(0, i - 1));
    }
    assert(bytes@.subrange(0, bytes@.len() as int) =~= bytes@);
    res
}

/// Characters with the Unicode `White_Space` property.
pub open spec fn is_whitespace(c: char) -> bool {
    ('\u{9}' <= c <= '\u{d}') || c == ' ' || c == '\u{85}' || c == '\u{a0}' || c == '\u{1680}'
        || ('\u{2000}' <= c <= '\u{200a}') || c == '\u{2028}' || c == '\u{2029}' || c
        == '\u{202f}' || c == '\u{205f}' || c == '\u{3000}'
}

/// Whether `c` has the Unicode `White_Space` property.
pub fn is_whitespace_exec(c: char) -> (r: bool)
    ensures
        r == is_whitespace(c),
{
    (c >= '\u{9}' && c <= '\u{d}') || c == ' ' || c == '\u{85}' || c == '\u{a0}' || c
        == '\u{1680}' || (c >= '\u{2000}' && c <= '\u{200a}') || c == '\u{2028}' || c
        == '\u{2029}' || c == '\u{202f}' || c == '\u{205f}' || c == '\u{3000}'
}

/// `s` without its leading whitespace.
pub open spec fn trim_start(s: Seq<char>) -> Seq<char>
    decreases s.len(),
{
    if s.len() > 0 && is_whitespace(s[0]) {
        trim_start(s.skip(1))
    } else {
        s
    }
}

/// `s` without its trailing whitespace.
pub open spec fn trim_end(s: Seq<char>) -> Seq<char>
    decreases s.len(),
{
    if s.len() > 0 && is_whitespace(s.last()) {
        trim_end(s.drop_last())
    } else {
        s
    }
}

/// `s` without leading and trailing whitespace.
pub open spec fn trim(s: Seq<char>) -> Seq<char> {
    trim_end(trim_start(s))
}

/// The index of the first character of `v[from..]` that is not whitespace
/// (or `v.len()` when there is none).
fn skip_whitespace(v: &[char], from: usize) -> (r: usize)
    requires
        from <= v@.len(),
    ensures
        from <= r <= v@.len(),
        trim_start(v@.skip(from as int)) == v@.skip(r as int),
        r < v@.len() ==> !is_whitespace(v@[r as int]),
{
    let mut i = from;
    while i < v.len() && is_whitespace_exec(v[i])
        invariant
            from <= i <= v@.len(),
            trim_start(v@.skip(from as int)) == trim_start(v@.skip(i as int)),
        decreases v.len() - i,
    {
        assert(v@.skip(i as int).skip(1) =~= v@.skip(i + 1));
        i = i + 1;
    }
    i
}

/// The trimmed text of `s`.
pub fn trim_exec(s: &str) -> (res: String)
    ensures
        res@ == trim(s@),
{
    let v = chars_of(s);
    let a = skip_whitespace(v.as_slice(), 0);
    assert(v@.skip(0) =~= v@);
    let mut b = v.len();
    while b > a && is_whitespace_exec(v[b - 1])
        invariant
            a <= b <= v@.len(),
            trim(v@) == trim_end(v@.subrange(a as int, b as int)),
        decreases b,
    {
        assert(v@.subrange(a as int, b as int).drop_last() =~= v@.subrange(a as int, b - 1));
        b = b - 1;
    }
    string_from_range(v.as_slice(), a, b)
}


/// `s` with every leading repetition of `pat` removed (nothing is removed when
/// `pat` is empty).
pub open spec fn strip_prefixes(s: Seq<char>, pat: Seq<char>) -> Seq<char>
    decreases s.len(),
{
    if pat.len() > 0 && occurs_at(s, pat, 0) {
        strip_prefixes(s.skip(pat.len() as int), pat)
    } else {
        s
    }
}

/// The index in `v` where `v[from..]` stripped of leading repetitions of `pat` begins.
pub fn strip_prefixes_exec(v: &[char], from: usize, pat: &[char]) -> (r: usize)
    requires
        from <= v@.len(),
    ensures
        from <= r <= v@.len(),
        strip_prefixes(v@.skip(from as int), pat@) == v@.skip(r as int),
{
    let mut i = from;
    if pat.len() == 0 {
        return i;
    }
    while matches_at(v, pat, i)
        invariant
            from <= i <= v@.len(),
            pat@.len() > 0,
            strip_prefixes(v@.skip(from as int), pat@) == strip_prefixes(v@.skip(i as int), pat@),
        decreases v.len() - i,
    {
        assert(occurs_at(v@.skip(i as int), pat@, 0)) by {
            assert(v@.skip(i as int).subrange(0, pat@.len() as int) =~= v@.subrange(
                i as int,
                i + pat@.len(),
            ));
        }
        assert(v@.skip(i as int).skip(pat@.len() as int) =~= v@.skip(i + pat@.len()));
        i = i + pat.len();
    }
    assert(!occurs_at(v@.skip(i as int), pat@, 0)) by {
        if i + pat@.len() <= v@.len() {
            assert(v@.skip(i as int).subrange(0, pat@.len() as int) =~= v@.subrange(
                i as int,
                i + pat@.len(),
            ));
        }
    }
    i
}

/// The part of `s` before the first occurrence of `pat`, or all of `s` when `pat`
/// does not occur (the first item of splitting `s` at `pat`).
pub open spec fn before_first(s: Seq<char>, pat: Seq<char>) -> Seq<char> {
    match find_from(s, pat, 0) {
        Some(i) => s.take(i),
        None => s,
    }
}

/// The part of `s` after the first occurrence of `pat`, if any.
pub open spec fn after_first(s: Seq<char>, pat: Seq<char>) -> Option<Seq<char>> {
    match find_from(s, pat, 0) {
        Some(i) => Some(s.skip(i + pat.len())),
        None => None,
    }
}

/// The second item of splitting `s` at `pat`: the text between the first and the
/// second occurrence of `pat` (or up to the end).
pub open spec fn second_piece(s: Seq<char>, pat: Seq<char>) -> Option<Seq<char>> {
    match after_first(s, pat) {
        Some(rest) => Some(before_first(rest, pat)),
        None => None,
    }
}

/// The end of the first item of splitting `v[from..]` at `pat`.
pub fn before_first_exec(v: &[char], from: usize, pat: &[char]) -> (r: usize)
    requires
        from <= v@.len(),
    ensures
        from <= r <= v@.len(),
        before_first(v@.skip(from as int), pat@) == v@.subrange(from as int, r as int),
{
    let ghost w = v@.skip(from as int);
    proof {
        lemma_find_from(v@, pat@, from as int);
        lemma_find_from(w, pat@, 0);
    }
    match find_from_exec(v, pat, from) {
        Some(j) => {
            assert(find_from(w, pat@, 0) == Some(j - from)) by {
                assert forall|k: int| 0 <= k < j - from implies !occurs_at(w, pat@, k) by {
                    assert(!occurs_at(v@, pat@, k + from));
                    if k + pat@.len() <= w.len() {
                        assert(w.subrange(k, k + pat@.len()) =~= v@.subrange(
                            k + from,
                            k + from + pat@.len(),
                        ));
                    }
                }
                assert(w.subrange(j - from, j - from + pat@.len()) =~= v@.subrange(
                    j as int,
                    j + pat@.len(),
                ));
                assert(occurs_at(w, pat@, j - from));
                lemma_find_unique(w, pat@, j - from);
            }
            assert(w.take(j - from) =~= v@.subrange(from as int, j as int));
            j
        },
        None => {
            assert(find_from(w, pat@, 0) is None) by {
                if find_from(w, pat@, 0) is Some {
                    let k = find_from(w, pat@, 0)->0;
                    assert(w.subrange(k, k + pat@.len()) =~= v@.subrange(
                        k + from,
                        k + from + pat@.len(),
                    ));
                    assert(occurs_at(v@, pat@, k + from));
                }
            }
            assert(w =~= v@.subrange(from as int, v@.len() as int));
            v.len()
        },
    }
}

/// An occurrence with no earlier occurrence is what `find_from` reports.
pub proof fn lemma_find_unique(s: Seq<char>, pat: Seq<char>, j: int)
    requires
        occurs_at(s, pat, j),
        forall|k: int| 0 <= k < j ==> !occurs_at(s, pat, k),
    ensures
        find_from(s, pat, 0) == Some(j),
{
    lemma_find_from(s, pat, 0);
    if find_from(s, pat, 0) is None {
        assert(!occurs_at(s, pat, j));
    }
}


/// The pieces of `s` separated by the character `c` (always at least one piece).
pub open spec fn split_char(s: Seq<char>, c: char) -> Seq<Seq<char>>
    decreases s.len(),
{
    if s.len() == 0 {
        seq![Seq::empty()]
    } else {
        let pieces = split_char(s.drop_last(), c);
        if s.last() == c {
            pieces.push(Seq::empty())
        } else {
            pieces.update(pieces.len() - 1, pieces.last().push(s.last()))
        }
    }
}

/// The views of a sequence of strings.
pub open spec fn views(v: Seq<String>) -> Seq<Seq<char>> {
    v.map_values(|x: String| x@)
}

/// Splits `s` at every occurrence of `c`.
pub fn split_char_exec(s: &str, c: char) -> (res: Vec<String>)
    ensures
        views(res@) == split_char(s@, c),
{
    let v = chars_of(s);
    let mut pieces: Vec<String> = Vec::new();
    let mut start: usize = 0;
    let mut i: usize = 0;
    assert(v@.take(0) =~= Seq::<char>::empty());
    assert(views(pieces@) =~= Seq::<Seq<char>>::empty());
    assert(views(pieces@).push(v@.subrange(0, 0)) =~= seq![Seq::<char>::empty()]);
    while i < v.len()
        invariant
            start <= i <= v@.len(),
            v@ == s@,
            views(pieces@).push(v@.subrange(start as int, i as int)) == split_char(
                v@.take(i as int),
                c,
            ),
        decreases v.len() - i,
    {
        let ghost before = views(pieces@).push(v@.subrange(start as int, i as int));
        assert(v@.take(i + 1).drop_last() =~= v@.take(i as int));
        if v[i] == c {
            let piece = string_from_range(v.as_slice(), start, i);
            let ghost old_pieces = pieces@;
            pieces.push(piece);
            assert(views(pieces@) =~= views(old_pieces).push(v@.subrange(start as int, i as int)));
            start = i + 1;
            assert(v@.subrange(start as int, i + 1) =~= Seq::<char>::empty());
            assert(views(pieces@).push(v@.subrange(start as int, i + 1)) =~= before.push(
                Seq::empty(),
            ));
        } else {
            assert(v@.subrange(start as int, i + 1) =~= v@.subrange(start as int, i as int).push(
                v@[i as int],
            ));
            assert(views(pieces@).push(v@.subrange(start as int, i + 1)) =~= before.update(
                before.len() - 1,
                before.last().push(v@[i as int]),
            ));
        }
        i = i + 1;
    }
    let last = string_from_range(v.as_slice(), start, v.len());
    let ghost old_pieces = pieces@;
    pieces.push(last);
    assert(views(pieces@) =~= views(old_pieces).push(v@.subrange(start as int, v@.len() as int)));
    assert(v@.take(v@.len() as int) =~= v@);
    assert(views(pieces@) =~= split_char(s@, c));
    pieces
}

/// The leading run of `s` up to its first whitespace character.
pub open spec fn leading_word(s: Seq<char>) -> Seq<char>
    decreases s.len(),
{
    if s.len() == 0 || is_whitespace(s[0]) {
        Seq::empty()
    } else {
        seq![s[0]] + leading_word(s.skip(1))
    }
}

/// The first whitespace-separated word of `s`, if there is one.
pub open spec fn first_word(s: Seq<char>) -> Option<Seq<char>> {
    let t = trim_start(s);
    if t.len() == 0 {
        None
    } else {
        Some(leading_word(t))
    }
}

/// The first whitespace-separated word of `s`, if there is one.
pub fn first_word_exec(s: &str) -> (res: Option<String>)
    ensures
        res is None <==> first_word(s@) is None,
        res matches Some(w) ==> first_word(s@) == Some(w@),
{
    let v = chars_of(s);
    let a = skip_whitespace(v.as_slice(), 0);
    assert(v@.skip(0) =~= v@);
    if a == v.len() {
        return None;
    }
    let mut b = a;
    while b < v.len() && !is_whitespace_exec(v[b])
        invariant
            a <= b <= v@.len(),
            leading_word(v@.skip(a as int)) == v@.subrange(a as int, b as int) + leading_word(
                v@.skip(b as int),
            ),
        decreases v.len() - b,
    {
        assert(v@.skip(b as int).skip(1) =~= v@.skip(b + 1));
        assert(v@.subrange(a as int, b as int) + seq![v@[b as int]] =~= v@.subrange(
            a as int,
            b + 1,
        ));
        b = b + 1;
    }
    assert(leading_word(v@.skip(b as int)) =~= Seq::<char>::empty());
    assert(v@.subrange(a as int, b as int) + Seq::<char>::empty() =~= v@.subrange(
        a as int,
        b as int,
    ));
    Some(string_from_range(v.as_slice(), a, b))
}

/// Whether every character of `s` is an ASCII digit.
pub open spec fn all_ascii_digits(s: Seq<char>) -> bool {
    forall|i: int| 0 <= i < s.len() ==> '0' <= #[trigger] s[i] <= '9'
}

/// The value of a string of decimal digits.
pub open spec fn digits_value(s: Seq<char>) -> nat
    decreases s.len(),
{
    if s.len() == 0 {
        0
    } else {
        digits_value(s.drop_last()) * 10 + ((s.last() as int - 48) as nat)
    }
}

/// The integer a string denotes in the syntax of Rust's integer parsing: an
/// optional `+` or `-` followed by one or more ASCII digits.
pub open spec fn integer_text_value(s: Seq<char>) -> Option<int> {
    if s.len() > 0 && (s[0] == '-' || s[0] == '+') {
        let rest = s.skip(1);
        if rest.len() > 0 && all_ascii_digits(rest) {
            if s[0] == '-' {
                Some(-(digits_value(rest) as int))
            } else {
                Some(digits_value(rest) as int)
            }
        } else {
            None
        }
    } else if s.len() > 0 && all_ascii_digits(s) {
        Some(digits_value(s) as int)
    } else {
        None
    }
}

/// Parsing a string as an `i64`: the denoted integer, when it is in range.
pub open spec fn parse_i64(s: Seq<char>) -> Option<i64> {
    match integer_text_value(s) {
        Some(v) => if i64::MIN <= v <= i64::MAX {
            Some(v as i64)
        } else {
            None
        },
        None => None,
    }
}

proof fn lemma_unsigned_text_value(s: Seq<char>)
    requires
        s.len() > 0,
        !(s[0] == '-' || s[0] == '+'),
        all_ascii_digits(s),
    ensures
        integer_text_value(s) == Some(digits_value(s) as int),
{
}

proof fn lemma_digits_value_grows(s: Seq<char>, k: int)
    requires
        0 <= k <= s.len(),
        all_ascii_digits(s),
    ensures
        digits_value(s.take(k)) <= digits_value(s),
    decreases s.len(),
{
    if k < s.len() {
        assert(all_ascii_digits(s.drop_last()));
        lemma_digits_value_grows(s.drop_last(), k);
        assert(s.drop_last().take(k) =~= s.take(k));
    } else {
        assert(s.take(k) =~= s);
    }
}

/// Parses `s` as an `i64`, as `str::parse::<i64>` does.
pub fn parse_i64_exec(s: &str) -> (res: Option<i64>)
    ensures
        res == parse_i64(s@),
{
    let v = chars_of(s);
    let n = v.len();
    if n == 0 {
        return None;
    }
    let negative = v[0] == '-';
    let start: usize = if v[0] == '-' || v[0] == '+' { 1 } else { 0 };
    if start == n {
        assert(integer_text_value(s@) is None);
        return None;
    }
    let ghost digits = v@.skip(start as int);
    assert(start == 0 ==> digits =~= s@);
    assert(start == 1 ==> digits =~= s@.skip(1));
    assert(negative ==> start == 1);
    // magnitude, capped just above the largest magnitude an i64 can have
    let mut mag: u128 = 0;
    let mut i: usize = start;
    while i < n
        invariant
            start <= i <= n == v@.len(),
            v@ == s@,
            digits == v@.skip(start as int),
            s@.len() > 0,
            start <= 1,
            start == 0 ==> digits == s@,
            start == 1 ==> digits == s@.skip(1),
            (start == 1) == (s@[0] == '-' || s@[0] == '+'),
            negative == (s@[0] == '-'),
            all_ascii_digits(v@.subrange(start as int, i as int)),
            mag == digits_value(v@.subrange(start as int, i as int)),
            mag <= 9223372036854775808,
        decreases n - i,
    {
        let c = v[i];
        if c < '0' || c > '9' {
            assert(!all_ascii_digits(digits)) by {
                assert(digits[i - start] == c);
            }
            assert(integer_text_value(s@) is None);
            return None;
        }
        let d: u128 = (c as u32 - 48) as u128;
        assert(v@.subrange(start as int, i + 1).drop_last() =~= v@.subrange(start as int, i as int));
        assert(v@.subrange(start as int, i + 1).last() == c);
        assert(all_ascii_digits(v@.subrange(start as int, i + 1)));
        assert(digits_value(v@.subrange(start as int, i + 1)) == mag * 10 + d);
        mag = mag * 10 + d;
        i = i + 1;
        if mag > 9223372036854775808 {
            // the remaining digits only make the value larger
            proof {
                if all_ascii_digits(digits) {
                    assert(digits.take(i - start) =~= v@.subrange(start as int, i as int));
                    lemma_digits_value_grows(digits, i - start);
                    assert(digits_value(digits) > 9223372036854775808);
                    if start == 0 {
                        lemma_unsigned_text_value(s@);
                    } else {
                        assert(s@.skip(1) == digits);
                        assert(s@.skip(1).len() > 0);
                    }
                } else {
                    assert(integer_text_value(s@) is None);
                }
                assert(parse_i64(s@) is None);
            }
            return None;
        }
    }
    assert(v@.subrange(start as int, n as int) =~= digits);
    assert(integer_text_value(s@) == Some(if negative { -(mag as int) } else { mag as int }));
    if negative {
        let m: i128 = -(mag as i128);
        if m < -9223372036854775808 {
            None
        } else {
            Some(m as i64)
        }
    } else {
        if mag > 9223372036854775807 {
            None
        } else {
            Some(mag as i64)
        }
    }
}


/// A vector holding `v[from..to]`.
pub fn chars_in_range(v: &[char], from: usize, to: usize) -> (res: Vec<char>)
    requires
        from <= to <= v@.len(),
    ensures
        res@ == v@.subrange(from as int, to as int),
{
    let mut res: Vec<char> = Vec::new();
    let mut i = from;
    while i < to
        invariant
            from <= i <= to <= v@.len(),
            res@ == v@.subrange(from as int, i as int),
        decreases to - i,
    {
        res.push(v[i]);
        i = i + 1;
        assert(res@ =~= v@.subrange(from as int, i as int));
    }
    res
}

/// The second item of splitting `v` at `pat`, if `pat` occurs in `v`.
pub fn second_piece_exec(v: &[char], pat: &[char]) -> (res: Option<Vec<char>>)
    ensures
        res matches Some(p) ==> second_piece(v@, pat@) == Some(p@),
        res is None ==> second_piece(v@, pat@) is None,
{
    match find_from_exec(v, pat, 0) {
        Some(i) => {
            proof {
                lemma_find_from(v@, pat@, 0);
            }
            assert(occurs_at(v@, pat@, i as int));
            assert(i + pat@.len() <= v@.len());
            assert(v@.len() == v.len());
            let start = i + pat.len();
            let end = before_first_exec(v, start, pat);
            Some(chars_in_range(v, start, end))
        },
        None => None,
    }
}


/// `s` with every `from` character replaced by `to`.
pub open spec fn replace_char(s: Seq<char>, from: char, to: char) -> Seq<char> {
    s.map_values(|c: char| if c == from { to } else { c })
}

/// `s` with every `from` character replaced by `to`.
pub fn replace_char_exec(s: &str, from: char, to: char) -> (res: String)
    ensures
        res@ == replace_char(s@, from, to),
{
    let v = chars_of(s);
    let mut res = String::new();
    let mut i: usize = 0;
    while i < v.len()
        invariant
            i <= v@.len(),
            v@ == s@,
            res@ == replace_char(v@.take(i as int), from, to),
        decreases v.len() - i,
    {
        let c = v[i];
        push_char(&mut res, if c == from { to } else { c });
        i = i + 1;
        assert(res@ =~= replace_char(v@.take(i as int), from, to));
    }
    assert(v@.take(v@.len() as int) =~= v@);
    res
}

/// Whether `v` holds a string with the same characters as `s`.
pub fn contains_string(v: &Vec<String>, s: &String) -> (r: bool)
    ensures
        r == views(v@).contains(s@),
{
    let mut i: usize = 0;
    while i < v.len()
        invariant
            i <= v@.len(),
            forall|k: int| 0 <= k < i ==> v@[k]@ != s@,
        decreases v.len() - i,
    {
        if str_eq(v[i].as_str(), s.as_str()) {
            assert(views(v@)[i as int] == s@);
            return true;
        }
        i = i + 1;
    }
    assert(!views(v@).contains(s@)) by {
        if views(v@).contains(s@) {
            let k = choose|k: int| 0 <= k < views(v@).len() && views(v@)[k] == s@;
            assert(v@[k]@ == s@);
        }
    }
    false
}


/// Characters that may stand in an encoded query value: ASCII letters and
/// digits, `-`, `_`, `.`, `~`, and the `%` and `+` of the encoding itself.
pub open spec fn is_query_value_char(c: char) -> bool {
    ('A' <= c <= 'Z') || ('a' <= c <= 'z') || ('0' <= c <= '9') || c == '-' || c == '_' || c
        == '.' || c == '~' || c == '%' || c == '+'
}

proof fn lemma_encode_byte_chars(b: u8)
    ensures
        forall|i: int| 0 <= i < encode_byte(b).len() ==> is_query_value_char(#[trigger] encode_byte(b)[i]),
{
    let hi = b as int / 16;
    let lo = b as int % 16;
    assert(0 <= hi < 16 && 0 <= lo < 16);
    if is_unreserved(b) {
        assert(encode_byte(b)[0] == b as char);
    }
}

/// Law: the form encoding of any bytes holds only characters that may stand in
/// a query value, so an encoded value never contains `&`, `=`, `#`, `?`, `/`
/// or a space, and cannot split or end the query it is put in.
pub proof fn law_form_encode_is_query_safe(bytes: Seq<u8>)
    ensures
        forall|i: int| 0 <= i < form_encode(bytes).len() ==> is_query_value_char(#[trigger] form_encode(bytes)[i]),
    decreases bytes.len(),
{
    if bytes.len() > 0 {
        law_form_encode_is_query_safe(bytes.drop_last());
        lemma_encode_byte_chars(bytes.last());
        let a = form_encode(bytes.drop_last());
        let b = encode_byte(bytes.last());
        assert forall|i: int| 0 <= i < form_encode(bytes).len() implies is_query_value_char(#[trigger] form_encode(bytes)[i]) by {
            if i < a.len() {
                assert(form_encode(bytes)[i] == a[i]);
            } else {
                assert(form_encode(bytes)[i] == b[i - a.len()]);
            }
        }
    }
}

/// Law: encoding the concatenation of two byte sequences is the concatenation of
/// their encodings, so a value may be encoded piece by piece.
pub proof fn law_form_encode_concat(x: Seq<u8>, y: Seq<u8>)
    ensures
        form_encode(x + y) == form_encode(x) + form_encode(y),
    decreases y.len(),
{
    if y.len() == 0 {
        assert(x + y =~= x);
        assert(form_encode(x) + form_encode(y) =~= form_encode(x));
    } else {
        law_form_encode_concat(x, y.drop_last());
        assert((x + y).drop_last() =~= x + y.drop_last());
        assert((x + y).last() == y.last());
        assert(form_encode(x + y) =~= form_encode(x) + form_encode(y));
    }
}

proof fn lemma_decimal_digits(n: nat)
    ensures
        decimal_digits(n).len() > 0,
        all_ascii_digits(decimal_digits(n)),
        digits_value(decimal_digits(n)) == n,
    decreases n,
{
    if n < 10 {
        let s = decimal_digits(n);
        assert(s.drop_last() =~= Seq::<char>::empty());
        assert(digit_char(n as int) as int == n + 48);
        assert(s.last() == digit_char(n as int));
        assert(digits_value(s) == digits_value(s.drop_last()) * 10 + ((s.last() as int - 48) as nat));
    } else {
        lemma_decimal_digits(n / 10);
        let s = decimal_digits(n);
        let d = (n % 10) as int;
        assert(digit_char(d) as int == d + 48);
        assert(s.drop_last() =~= decimal_digits(n / 10));
        assert(s.last() == digit_char(d));
        assert(digits_value(s) == digits_value(s.drop_last()) * 10 + ((s.last() as int - 48) as nat));
        assert(digits_value(s) == (n / 10) * 10 + d);
        assert(all_ascii_digits(s)) by {
            assert forall|i: int| 0 <= i < s.len() implies '0' <= #[trigger] s[i] <= '9' by {
                if i < s.len() - 1 {
                    assert(s[i] == decimal_digits(n / 10)[i]);
                }
            }
        }
    }
}

/// Law: parsing the decimal rendering of an integer in the `i64` range gives
/// that integer back; in particular reading what `i32_to_string` writes is
/// the identity.
pub proof fn law_decimal_round_trip(n: int)
    requires
        i64::MIN <= n <= i64::MAX,
    ensures
        parse_i64(decimal_string(n)) == Some(n as i64),
{
    if n < 0 {
        let m = (-n) as nat;
        lemma_decimal_digits(m);
        let s = decimal_string(n);
        assert(s.skip(1) =~= decimal_digits(m));
        assert(s[0] == '-');
    } else {
        lemma_decimal_digits(n as nat);
        let s = decimal_string(n);
        assert(s[0] != '-' && s[0] != '+') by {
            assert('0' <= s[0] <= '9');
        }
    }
}


/// A pattern first found in `p` is first found at the same place in `p + rest`.
pub proof fn lemma_find_in_prefixed(p: Seq<char>, rest: Seq<char>, pat: Seq<char>, at: int)
    requires
        occurs_at(p, pat, at),
        forall|k: int| 0 <= k < at ==> !occurs_at(p, pat, k),
    ensures
        find_from(p + rest, pat, 0) == Some(at),
{
    let s = p + rest;
    assert(s.subrange(at, at + pat.len()) =~= p.subrange(at, at + pat.len()));
    assert forall|k: int| 0 <= k < at implies !occurs_at(s, pat, k) by {
        if occurs_at(s, pat, k) {
            assert(s.subrange(k, k + pat.len()) =~= p.subrange(k, k + pat.len()));
            assert(occurs_at(p, pat, k));
        }
    }
    lemma_find_unique(s, pat, at);
}

/// A pattern that starts and ends with `/` and does not occur in `p` does not
/// occur in `p + rest` when `rest` has no `/`.
pub proof fn lemma_absent_in_prefixed(p: Seq<char>, rest: Seq<char>, pat: Seq<char>)
    requires
        pat.len() > 0,
        pat[0] == '/',
        pat.last() == '/',
        !rest.contains('/'),
        forall|k: int| 0 <= k ==> !occurs_at(p, pat, k),
    ensures
        find_from(p + rest, pat, 0) is None,
{
    let s = p + rest;
    lemma_find_from(s, pat, 0);
    if find_from(s, pat, 0) is Some {
        let k = find_from(s, pat, 0)->0;
        assert(occurs_at(s, pat, k));
        if k + pat.len() <= p.len() {
            assert(s.subrange(k, k + pat.len()) =~= p.subrange(k, k + pat.len()));
            assert(occurs_at(p, pat, k));
        } else {
            let j = k + pat.len() - 1;
            assert(s.subrange(k, k + pat.len())[pat.len() - 1] == s[j]);
            assert(s[j] == pat[pat.len() - 1]);
            assert(s[j] == '/');
            assert(s[j] == rest[j - p.len()]);
            assert(rest.contains(s[j]));
        }
    }
}

/// A pattern that starts with `/` is not found in a text without `/`.
pub proof fn lemma_absent_without_slash(s: Seq<char>, pat: Seq<char>)
    requires
        pat.len() > 0,
        pat[0] == '/',
        !s.contains('/'),
    ensures
        find_from(s, pat, 0) is None,
{
    lemma_find_from(s, pat, 0);
    if find_from(s, pat, 0) is Some {
        let k = find_from(s, pat, 0)->0;
        assert(s.subrange(k, k + pat.len())[0] == s[k]);
    }
}


/// Nothing is stripped from a text that does not start with the pattern.
pub proof fn lemma_strip_nothing(s: Seq<char>, pat: Seq<char>)
    requires
        !occurs_at(s, pat, 0),
    ensures
        strip_prefixes(s, pat) == s,
{
}

/// Stripping a pattern from the pattern followed by a text strips at least that
/// occurrence.
pub proof fn lemma_strip_one(pat: Seq<char>, rest: Seq<char>)
    requires
        pat.len() > 0,
    ensures
        strip_prefixes(pat + rest, pat) == strip_prefixes(rest, pat),
{
    let s = pat + rest;
    assert(s.subrange(0, pat.len() as int) =~= pat);
    assert(s.skip(pat.len() as int) =~= rest);
}

} // verus!
