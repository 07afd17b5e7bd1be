//! Character and string primitives shared by the rest of the library.
//!
//! Every function here is stated over the `Seq<char>` view of a string, so that
//! callers can reason about text without looking at bytes.

use vstd::prelude::*;
use vstd::string::StrSliceExecFns;
use vstd::string::StringExecFns;

verus! {

/// `String::push` of the standard library appends one character and changes
/// nothing else.
pub assume_specification[ String::push ](s: &mut String, ch: char)
    ensures
        final(s)@ == old(s)@.push(ch),
;

/// The text that `str::to_lowercase` makes of `s`: its lower-case form by the
/// rules of Unicode.
pub uninterp spec fn lowercase_text(s: Seq<char>) -> Seq<char>;

/// `str::to_lowercase` of the standard library.
#[verifier::external_body]
pub(crate) fn to_lowercase(s: &str) -> (r: String)
    ensures
        r@ == lowercase_text(s@),
{
    s.to_lowercase()
}

/// `Path::file_name` of the standard library: the last component of `path`,
/// if it has one. Where the path's components begin and end depends on the
/// platform's rules for paths, so it is not said which component comes back,
/// nor when one does. A component is a piece of the path's text between
/// separators, and that much is claimed: a name that comes back stands
/// somewhere in `path`.
#[verifier::external_body]
pub(crate) fn file_name_of(path: &str) -> (name: Option<String>)
    ensures
        name matches Some(text) ==> has_infix(path@, text@),
{
    std::path::Path::new(path).file_name().and_then(|name| name.to_str()).map(
        |name| name.to_string(),
    )
}

/// The characters that carry the Unicode property `White_Space`.
pub open spec fn is_white_space(c: char) -> bool {
    let u = c as u32;
    ||| 0x09 <= u <= 0x0D
    ||| u == 0x20
    ||| u == 0x85
    ||| u == 0xA0
    ||| u == 0x1680
    ||| 0x2000 <= u <= 0x200A
    ||| u == 0x2028
    ||| u == 0x2029
    ||| u == 0x202F
    ||| u == 0x205F
    ||| u == 0x3000
}

/// `s` without its leading white space.
pub open spec fn trim_start(s: Seq<char>) -> Seq<char>
    decreases s.len(),
{
    if s.len() > 0 && is_white_space(s[0]) {
        trim_start(s.drop_first())
    } else {
        s
    }
}

/// `s` without its trailing white space.
pub open spec fn trim_end(s: Seq<char>) -> Seq<char>
    decreases s.len(),
{
    if s.len() > 0 && is_white_space(s.last()) {
        trim_end(s.drop_last())
    } else {
        s
    }
}

/// `s` without leading and trailing white space.
pub open spec fn trimmed(s: Seq<char>) -> Seq<char> {
    trim_end(trim_start(s))
}

/// A text is blank when nothing but white space is in it.
pub open spec fn blank(s: Seq<char>) -> bool {
    trimmed(s).len() == 0
}

/// The test that every character but `unwanted` passes.
pub open spec fn other_than(unwanted: char) -> spec_fn(char) -> bool {
    |c: char| c != unwanted
}

/// `s` with every occurrence of `unwanted` taken out.
pub open spec fn without(s: Seq<char>, unwanted: char) -> Seq<char> {
    s.filter(other_than(unwanted))
}

/// Trimming never invents characters: the result is a contiguous piece of `s`
/// that neither starts nor ends with white space.
pub proof fn lemma_trimmed_is_tight(s: Seq<char>)
    ensures
        trimmed(s).len() <= s.len(),
        trimmed(s).len() > 0 ==> !is_white_space(trimmed(s)[0]) && !is_white_space(
            trimmed(s).last(),
        ),
        exists|from: int, to: int|
            0 <= from <= to <= s.len() && trimmed(s) == #[trigger] s.subrange(from, to),
{
    lemma_trim_start_shape(s);
    let lead = choose|from: int|
        0 <= from <= s.len() && trim_start(s) == s.subrange(from, s.len() as int);
    let rest = trim_start(s);
    lemma_trim_end_shape(rest);
    let keep = choose|to: int| 0 <= to <= rest.len() && trim_end(rest) == rest.subrange(0, to);
    assert(rest.subrange(0, keep) == s.subrange(lead, lead + keep));
    if trimmed(s).len() > 0 {
        assert(trimmed(s)[0] == rest[0]);
    }
}

/// `trim_start` cuts a prefix off and stops at the first character that is not
/// white space.
pub proof fn lemma_trim_start_shape(s: Seq<char>)
    ensures
        exists|from: int|
            0 <= from <= s.len() && trim_start(s) == #[trigger] s.subrange(from, s.len() as int),
        trim_start(s).len() > 0 ==> !is_white_space(trim_start(s)[0]),
    decreases s.len(),
{
    if s.len() > 0 && is_white_space(s[0]) {
        let tail = s.drop_first();
        lemma_trim_start_shape(tail);
        let from = choose|from: int|
            0 <= from <= tail.len() && trim_start(tail) == tail.subrange(from, tail.len() as int);
        assert(tail.subrange(from, tail.len() as int) == s.subrange(from + 1, s.len() as int));
    } else {
        assert(s == s.subrange(0, s.len() as int));
    }
}

/// `trim_end` cuts a suffix off and stops at the last character that is not
/// white space; what it keeps starts as its argument does.
pub proof fn lemma_trim_end_shape(s: Seq<char>)
    ensures
        exists|to: int| 0 <= to <= s.len() && trim_end(s) == #[trigger] s.subrange(0, to),
        trim_end(s).len() > 0 ==> !is_white_space(trim_end(s).last()) && trim_end(s)[0] == s[0],
    decreases s.len(),
{
    if s.len() > 0 && is_white_space(s.last()) {
        let front = s.drop_last();
        lemma_trim_end_shape(front);
        let to = choose|to: int| 0 <= to <= front.len() && trim_end(front) == front.subrange(0, to);
        assert(front.subrange(0, to) == s.subrange(0, to));
    } else {
        assert(s == s.subrange(0, s.len() as int));
    }
}

/// Whether `c` is white space.
pub fn is_whitespace(c: char) -> (r: bool)
    ensures
        r == is_white_space(c),
{
    let u: u32 = c as u32;
    (0x09 <= u && u <= 0x0D) || u == 0x20 || u == 0x85 || u == 0xA0 || u == 0x1680 || (0x2000 <= u
        && u <= 0x200A) || u == 0x2028 || u == 0x2029 || u == 0x202F || u == 0x205F || u == 0x3000
}

/// The characters of `s`, in order.
pub fn chars_of(s: &str) -> (v: Vec<char>)
    ensures
        v@ == s@,
{
    let mut v: Vec<char> = Vec::new();
    for c in it: s.chars()
        invariant
            v@ == it.seq().take(it.index() as int),
            it.seq() == s@,
    {
        v.push(c);
    }
    v
}

/// `s` without leading and trailing white space, as a slice of `s`.
pub fn trim(s: &str) -> (r: &str)
    ensures
        r@ == trimmed(s@),
{
    let chars = chars_of(s);
    let n: usize = chars.len();
    let mut start: usize = 0;
    assert(s@.subrange(0, n as int) == s@);
    while start < n && is_whitespace(chars[start])
        invariant
            start <= n,
            n == chars.len(),
            chars@ == s@,
            trim_start(s@) == trim_start(s@.subrange(start as int, n as int)),
        decreases n - start,
    {
        assert(s@.subrange(start as int, n as int).drop_first() == s@.subrange(
            start as int + 1,
            n as int,
        ));
        start = start + 1;
    }
    let ghost rest = s@.subrange(start as int, n as int);
    let mut end: usize = n;
    while end > start && is_whitespace(chars[end - 1])
        invariant
            start <= end <= n,
            n == chars.len(),
            chars@ == s@,
            trim_end(rest) == trim_end(s@.subrange(start as int, end as int)),
        decreases end - start,
    {
        assert(s@.subrange(start as int, end as int).drop_last() == s@.subrange(
            start as int,
            end as int - 1,
        ));
        end = end - 1;
    }
    s.substring_char(start, end)
}

/// Whether `s` holds nothing but white space.
pub fn is_blank(s: &str) -> (r: bool)
    ensures
        r == blank(s@),
{
    trim(s).unicode_len() == 0
}

/// A copy of `s` with every occurrence of `unwanted` taken out.
pub fn remove_char(s: &str, unwanted: char) -> (r: String)
    ensures
        r@ == without(s@, unwanted),
{
    let chars = chars_of(s);
    let mut r = String::new();
    let mut i: usize = 0;
    while i < chars.len()
        invariant
            i <= chars.len(),
            chars@ == s@,
            r@ == without(s@.take(i as int), unwanted),
        decreases chars.len() - i,
    {
        proof {
            assert(s@.take(i as int + 1) == s@.take(i as int).push(s@[i as int]));
            s@.take(i as int).lemma_filter_push(s@[i as int], other_than(unwanted));
        }
        if chars[i] != unwanted {
            r.push(chars[i]);
        }
        i = i + 1;
    }
    assert(s@.take(chars.len() as int) == s@);
    r
}

/// The lower-case form of an ASCII capital; any other character is itself.
pub open spec fn ascii_lower_char(c: char) -> char {
    if 'A' <= c && c <= 'Z' {
        ((c as u32) + 32) as char
    } else {
        c
    }
}

/// `s` with each ASCII capital in lower case.
pub open spec fn ascii_lower(s: Seq<char>) -> Seq<char> {
    Seq::new(s.len(), |i: int| ascii_lower_char(s[i]))
}

/// `needle` stands in `hay` at position `at`.
pub open spec fn occurs_at(hay: Seq<char>, needle: Seq<char>, at: int) -> bool {
    &&& 0 <= at
    &&& at + needle.len() <= hay.len()
    &&& hay.subrange(at, at + needle.len()) == needle
}

/// `needle` stands somewhere in `hay`.
pub open spec fn has_infix(hay: Seq<char>, needle: Seq<char>) -> bool {
    exists|at: int| occurs_at(hay, needle, at)
}

/// `hay` begins with `prefix`.
pub open spec fn has_prefix(hay: Seq<char>, prefix: Seq<char>) -> bool {
    occurs_at(hay, prefix, 0)
}

/// `hay` ends with `suffix`.
pub open spec fn has_suffix(hay: Seq<char>, suffix: Seq<char>) -> bool {
    occurs_at(hay, suffix, hay.len() - suffix.len())
}

/// The lower-case form of an ASCII capital; any other character is itself.
pub fn lower_char(c: char) -> (r: char)
    ensures
        r == ascii_lower_char(c),
{
    if 'A' <= c && c <= 'Z' {
        let code: u8 = c as u8;
        assert(code as u32 == c as u32);
        (code + 32) as char
    } else {
        c
    }
}

/// A copy of `s` with each ASCII capital in lower case.
pub fn to_ascii_lowercase(s: &str) -> (r: String)
    ensures
        r@ == ascii_lower(s@),
{
    let chars = chars_of(s);
    let mut r = String::new();
    let mut i: usize = 0;
    while i < chars.len()
        invariant
            i <= chars.len(),
            chars@ == s@,
            r@ == ascii_lower(s@.take(i as int)),
        decreases chars.len() - i,
    {
        r.push(lower_char(chars[i]));
        assert(ascii_lower(s@.take(i as int + 1)) == ascii_lower(s@.take(i as int)).push(
            ascii_lower_char(s@[i as int]),
        ));
        i = i + 1;
    }
    assert(s@.take(chars.len() as int) == s@);
    r
}

/// Whether `needle` stands in `hay` at position `at`.
fn matches_at(hay: &Vec<char>, needle: &Vec<char>, at: usize) -> (r: bool)
    requires
        at + needle.len() <= hay.len(),
    ensures
        r == occurs_at(hay@, needle@, at as int),
{
    let mut j: usize = 0;
    while j < needle.len()
        invariant
            j <= needle.len(),
            at + needle.len() <= hay.len(),
            forall|k: int| 0 <= k < j ==> hay@[at + k] == needle@[k],
        decreases needle.len() - j,
    {
        if hay[at + j] != needle[j] {
            assert(hay@.subrange(at as int, at + needle.len())[j as int] == hay@[at + j]);
            return false;
        }
        j = j + 1;
    }
    assert(hay@.subrange(at as int, at + needle.len()) =~= needle@);
    true
}

/// Whether `needle` stands somewhere in `hay`.
pub fn contains(hay: &str, needle: &str) -> (r: bool)
    ensures
        r == has_infix(hay@, needle@),
{
    let h = chars_of(hay);
    let n = chars_of(needle);
    if n.len() > h.len() {
        return false;
    }
    let last: usize = h.len() - n.len();
    let mut at: usize = 0;
    while at < last
        invariant
            at <= last,
            last == h.len() - n.len(),
            n.len() <= h.len(),
            h@ == hay@,
            n@ == needle@,
            forall|k: int| 0 <= k < at ==> !occurs_at(hay@, needle@, k),
        decreases last - at,
    {
        if matches_at(&h, &n, at) {
            return true;
        }
        at = at + 1;
    }
    matches_at(&h, &n, last)
}

/// Whether `hay` begins with `prefix`.
pub fn starts_with(hay: &str, prefix: &str) -> (r: bool)
    ensures
        r == has_prefix(hay@, prefix@),
{
    let h = chars_of(hay);
    let n = chars_of(prefix);
    if n.len() > h.len() {
        return false;
    }
    matches_at(&h, &n, 0)
}

/// Whether `hay` ends with `suffix`.
pub fn ends_with(hay: &str, suffix: &str) -> (r: bool)
    ensures
        r == has_suffix(hay@, suffix@),
{
    let h = chars_of(hay);
    let n = chars_of(suffix);
    if n.len() > h.len() {
        return false;
    }
    matches_at(&h, &n, h.len() - n.len())
}

/// Whether `a` and `b` are the same text once ASCII capitals are read as lower
/// case.
pub fn eq_ignore_ascii_case(a: &str, b: &str) -> (r: bool)
    ensures
        r == (ascii_lower(a@) == ascii_lower(b@)),
{
    let x = chars_of(a);
    let y = chars_of(b);
    if x.len() != y.len() {
        assert(ascii_lower(a@).len() != ascii_lower(b@).len());
        return false;
    }
    let mut i: usize = 0;
    while i < x.len()
        invariant
            i <= x.len(),
            x.len() == y.len(),
            x@ == a@,
            y@ == b@,
            forall|k: int| 0 <= k < i ==> ascii_lower_char(a@[k]) == ascii_lower_char(b@[k]),
        decreases x.len() - i,
    {
        if lower_char(x[i]) != lower_char(y[i]) {
            assert(ascii_lower(a@)[i as int] != ascii_lower(b@)[i as int]);
            return false;
        }
        i = i + 1;
    }
    assert(ascii_lower(a@) =~= ascii_lower(b@));
    true
}

/// The character for one decimal digit.
pub open spec fn digit_char(d: int) -> char {
    ('0' as int + d) as char
}

/// The decimal digits of `n`, the most significant first and without leading
/// zeros.
pub open spec fn decimal_nat(n: nat) -> Seq<char>
    decreases n,
{
    if n < 10 {
        seq![digit_char(n as int)]
    } else {
        decimal_nat(n / 10).push(digit_char((n % 10) as int))
    }
}

/// `i` in decimal, with a minus sign before a negative number.
pub open spec fn decimal_int(i: int) -> Seq<char> {
    if i < 0 {
        seq!['-'] + decimal_nat((-i) as nat)
    } else {
        decimal_nat(i as nat)
    }
}

/// The character for one hexadecimal digit, a capital for ten to fifteen.
pub open spec fn hex_digit_char(d: int) -> char {
    if d < 10 {
        ('0' as int + d) as char
    } else {
        ('A' as int + d - 10) as char
    }
}

/// `bits` as eight hexadecimal digits, with capitals and leading zeros.
pub open spec fn hex_upper_8(bits: int) -> Seq<char> {
    seq![
        hex_digit_char((bits / 0x1000_0000) % 16),
        hex_digit_char((bits / 0x100_0000) % 16),
        hex_digit_char((bits / 0x10_0000) % 16),
        hex_digit_char((bits / 0x1_0000) % 16),
        hex_digit_char((bits / 0x1000) % 16),
        hex_digit_char((bits / 0x100) % 16),
        hex_digit_char((bits / 0x10) % 16),
        hex_digit_char(bits % 16),
    ]
}

/// The pattern of 32 bits that stands for `code`, read as a number without
/// sign.
pub open spec fn bits_of(code: i32) -> int {
    if code < 0 {
        code + 0x1_0000_0000
    } else {
        code as int
    }
}

/// `parts` with `separator` between each two of them.
pub open spec fn joined(parts: Seq<Seq<char>>, separator: Seq<char>) -> Seq<char>
    decreases parts.len(),
{
    if parts.len() == 0 {
        Seq::empty()
    } else if parts.len() == 1 {
        parts[0]
    } else {
        joined(parts.drop_last(), separator) + separator + parts.last()
    }
}

/// The character for the decimal digit `d`.
fn digit(d: u8) -> (c: char)
    requires
        d < 10,
    ensures
        c == digit_char(d as int),
{
    (48u8 + d) as char
}

/// The character for the hexadecimal digit `d`.
fn hex_digit(d: u32) -> (c: char)
    requires
        d < 16,
    ensures
        c == hex_digit_char(d as int),
{
    let d8: u8 = d as u8;
    if d8 < 10 {
        (48u8 + d8) as char
    } else {
        (55u8 + d8) as char
    }
}

/// Appends `n` in decimal to `out`.
pub fn push_decimal(out: &mut String, n: u128)
    ensures
        final(out)@ == old(out)@ + decimal_nat(n as nat),
    decreases n,
{
    if n >= 10 {
        push_decimal(out, n / 10);
    }
    out.push(digit((n % 10) as u8));
}

/// Appends `i` in decimal to `out`, with a minus sign before a negative
/// number.
pub fn push_decimal_i32(out: &mut String, i: i32)
    ensures
        final(out)@ == old(out)@ + decimal_int(i as int),
{
    let wide: i64 = i as i64;
    if wide < 0 {
        out.push('-');
        push_decimal(out, (-wide) as u128);
        assert(old(out)@.push('-') + decimal_nat((-wide) as nat) == old(out)@ + (seq!['-']
            + decimal_nat((-wide) as nat)));
    } else {
        push_decimal(out, wide as u128);
    }
}

/// Appends `bits` as eight hexadecimal digits to `out`.
pub fn push_hex_upper_8(out: &mut String, bits: u32)
    ensures
        final(out)@ == old(out)@ + hex_upper_8(bits as int),
{
    out.push(hex_digit((bits / 0x1000_0000) % 16));
    out.push(hex_digit((bits / 0x100_0000) % 16));
    out.push(hex_digit((bits / 0x10_0000) % 16));
    out.push(hex_digit((bits / 0x1_0000) % 16));
    out.push(hex_digit((bits / 0x1000) % 16));
    out.push(hex_digit((bits / 0x100) % 16));
    out.push(hex_digit((bits / 0x10) % 16));
    out.push(hex_digit(bits % 16));
    assert(out@ == old(out)@ + hex_upper_8(bits as int));
}

/// The pattern of 32 bits that stands for `code`, as a number without sign.
pub fn bits_of_i32(code: i32) -> (bits: u32)
    ensures
        bits == bits_of(code),
{
    let wide: i64 = code as i64;
    if wide < 0 {
        (wide + 0x1_0000_0000) as u32
    } else {
        wide as u32
    }
}

/// Whether `a` and `b` are the same text.
pub fn same_text(a: &str, b: &str) -> (r: bool)
    ensures
        r == (a@ == b@),
{
    let x = chars_of(a);
    let y = chars_of(b);
    if x.len() != y.len() {
        return false;
    }
    let mut i: usize = 0;
    while i < x.len()
        invariant
            i <= x.len(),
            x.len() == y.len(),
            x@ == a@,
            y@ == b@,
            forall|k: int| 0 <= k < i ==> a@[k] == b@[k],
        decreases x.len() - i,
    {
        if x[i] != y[i] {
            return false;
        }
        i = i + 1;
    }
    assert(a@ =~= b@);
    true
}

/// The strings of `parts` with `separator` between each two of them.
pub fn join(parts: &Vec<String>, separator: &str) -> (r: String)
    ensures
        r@ == joined(parts@.map_values(|s: String| s@), separator@),
{
    let ghost texts = parts@.map_values(|s: String| s@);
    let mut r = String::new();
    let mut i: usize = 0;
    while i < parts.len()
        invariant
            i <= parts.len(),
            texts == parts@.map_values(|s: String| s@),
            r@ == joined(texts.take(i as int), separator@),
        decreases parts.len() - i,
    {
        proof {
            let now = texts.take(i as int + 1);
            assert(now.drop_last() == texts.take(i as int));
            assert(now.last() == parts@[i as int]@);
            if i == 0 {
                assert(joined(now, separator@) == now[0]);
                assert(r@ + now[0] == now[0]);
            }
        }
        if i > 0 {
            r.append(separator);
        }
        r.append(parts[i].as_str());
        i = i + 1;
    }
    assert(texts.take(parts.len() as int) == texts);
    r
}

/// Lower case is taken character by character, so the lower-case form of a
/// piece is the same piece of the lower-case form.
pub proof fn lemma_ascii_lower_subrange(s: Seq<char>, from: int, to: int)
    requires
        0 <= from <= to <= s.len(),
    ensures
        ascii_lower(s.subrange(from, to)) == ascii_lower(s).subrange(from, to),
{
    assert(ascii_lower(s.subrange(from, to)) =~= ascii_lower(s).subrange(from, to));
}

/// What stands in a text stands in it in lower case too.
pub proof fn lemma_infix_in_lower_case(hay: Seq<char>, piece: Seq<char>)
    requires
        has_infix(hay, piece),
    ensures
        has_infix(ascii_lower(hay), ascii_lower(piece)),
{
    let at = choose|at: int| occurs_at(hay, piece, at);
    lemma_ascii_lower_subrange(hay, at, at + piece.len());
    assert(occurs_at(ascii_lower(hay), ascii_lower(piece), at));
}

/// What stands in a piece of a text stands in the text.
pub proof fn lemma_infix_of_infix(hay: Seq<char>, piece: Seq<char>, needle: Seq<char>)
    requires
        has_infix(hay, piece),
        has_infix(piece, needle),
    ensures
        has_infix(hay, needle),
{
    let outer = choose|at: int| occurs_at(hay, piece, at);
    let inner = choose|at: int| occurs_at(piece, needle, at);
    assert(hay.subrange(outer + inner, outer + inner + needle.len()) =~= piece.subrange(
        inner,
        inner + needle.len(),
    ));
    assert(occurs_at(hay, needle, outer + inner));
}

} // verus!
