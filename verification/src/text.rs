//! Text handling over the characters of a string.
//!
//! Every function here is stated over `Seq<char>`, the view of `str` and `String`.

use vstd::prelude::*;
use vstd::string::*;

verus! {

/// `String::push` appends one character to the end of the string.
pub assume_specification[ String::push ](s: &mut String, c: char)
    ensures
        final(s)@ == old(s)@.push(c),
;

// ---------------------------------------------------------------------------
// Model
// ---------------------------------------------------------------------------

/// The character that writes the decimal digit `d`.
pub open spec fn digit_char(d: int) -> char {
    (48 + d) as char
}

/// `n` in decimal, without leading zeros.
pub open spec fn decimal(n: nat) -> Seq<char>
    decreases n,
{
    if n < 10 {
        seq![digit_char(n as int)]
    } else {
        decimal(n / 10).push(digit_char((n % 10) as int))
    }
}

/// `n` copies of the character `c`.
pub open spec fn repeated(c: char, n: nat) -> Seq<char> {
    Seq::new(n, |i: int| c)
}

/// `n` in decimal, filled with zeros on the left up to `width` characters.
pub open spec fn zero_padded(n: nat, width: nat) -> Seq<char> {
    let d = decimal(n);
    if d.len() >= width {
        d
    } else {
        repeated('0', (width - d.len()) as nat) + d
    }
}

/// `part` occurs in `s` at position `i`.
pub open spec fn occurs_at(s: Seq<char>, part: Seq<char>, i: int) -> bool {
    0 <= i && i + part.len() <= s.len() && s.subrange(i, i + part.len() as int) == part
}

/// `part` occurs somewhere in `s`.
pub open spec fn has_part(s: Seq<char>, part: Seq<char>) -> bool {
    exists|i: int| occurs_at(s, part, i)
}

/// `s` begins with `prefix`.
pub open spec fn begins_with(s: Seq<char>, prefix: Seq<char>) -> bool {
    occurs_at(s, prefix, 0)
}

/// `s` ends with `suffix`.
pub open spec fn finishes_with(s: Seq<char>, suffix: Seq<char>) -> bool {
    occurs_at(s, suffix, s.len() - suffix.len())
}

/// The characters that Unicode gives the property White_Space.
pub open spec fn is_space(c: char) -> bool {
    let n = c as u32;
    (0x09 <= n <= 0x0d) || n == 0x20 || n == 0x85 || n == 0xa0 || n == 0x1680 || (0x2000 <= n
        <= 0x200a) || n == 0x2028 || n == 0x2029 || n == 0x202f || n == 0x205f || n == 0x3000
}

/// `s` without the white space at its start.
pub open spec fn trimmed_start(s: Seq<char>) -> Seq<char>
    decreases s.len(),
{
    if s.len() > 0 && is_space(s[0]) {
        trimmed_start(s.drop_first())
    } else {
        s
    }
}

/// `s` without the white space at its end.
pub open spec fn trimmed_end(s: Seq<char>) -> Seq<char>
    decreases s.len(),
{
    if s.len() > 0 && is_space(s.last()) {
        trimmed_end(s.drop_last())
    } else {
        s
    }
}

/// `s` without the white space at both ends.
pub open spec fn trimmed(s: Seq<char>) -> Seq<char> {
    trimmed_end(trimmed_start(s))
}

/// The pieces of `s` between occurrences of `sep`: always one more than there are separators.
pub open spec fn pieces(s: Seq<char>, sep: char) -> Seq<Seq<char>>
    decreases s.len(),
{
    if s.len() == 0 {
        seq![s]
    } else if s.last() == sep {
        pieces(s.drop_last(), sep).push(Seq::empty())
    } else {
        let p = pieces(s.drop_last(), sep);
        p.update(p.len() - 1, p.last().push(s.last()))
    }
}

/// `c` is an ASCII decimal digit.
pub open spec fn is_digit(c: char) -> bool {
    '0' <= c && c <= '9'
}

/// Every character is an ASCII decimal digit.
pub open spec fn all_digits(s: Seq<char>) -> bool {
    forall|i: int| 0 <= i < s.len() ==> is_digit(#[trigger] s[i])
}

/// The number that a sequence of decimal digits writes.
pub open spec fn digits_value(s: Seq<char>) -> nat
    decreases s.len(),
{
    if s.len() == 0 {
        0
    } else {
        digits_value(s.drop_last()) * 10 + ((s.last() as u32 - 48) as nat)
    }
}

/// The digits of an unsigned number as text: one leading `+` is allowed.
pub open spec fn unsigned_digits(s: Seq<char>) -> Seq<char> {
    if s.len() > 0 && s[0] == '+' {
        s.drop_first()
    } else {
        s
    }
}

/// The number of at most `max` that `s` writes in decimal, if it writes one.
pub open spec fn unsigned_value(s: Seq<char>, max: nat) -> Option<nat> {
    let d = unsigned_digits(s);
    if d.len() > 0 && all_digits(d) && digits_value(d) <= max {
        Some(digits_value(d))
    } else {
        None
    }
}

/// The view of each string in a list.
pub open spec fn views(v: Seq<String>) -> Seq<Seq<char>> {
    v.map_values(|s: String| s@)
}

// ---------------------------------------------------------------------------
// Conversions
// ---------------------------------------------------------------------------

/// The characters of a string, in order.
pub fn to_chars(s: &str) -> (r: Vec<char>)
    ensures
        r@ == s@,
{
    let mut r: Vec<char> = Vec::new();
    for c in iter: s.chars()
        invariant
            r@ == iter.seq().subrange(0, iter.index() as int),
            iter.seq() == s@,
    {
        r.push(c);
    }
    r
}

/// The string that holds the characters `v[from..to]`.
pub fn from_chars(v: &Vec<char>, from: usize, to: usize) -> (r: String)
    requires
        from <= to <= v@.len(),
    ensures
        r@ == v@.subrange(from as int, to as int),
{
    let mut r = String::new();
    let mut i: usize = from;
    while i < to
        invariant
            from <= i <= to <= v@.len(),
            r@ == v@.subrange(from as int, i as int),
        decreases to - i,
    {
        r.push(v[i]);
        i = i + 1;
    }
    r
}

/// A copy of the text.
pub fn owned(s: &str) -> (r: String)
    ensures
        r@ == s@,
{
    s.to_owned()
}

/// The two texts hold the same characters.
pub fn same(a: &str, b: &str) -> (r: bool)
    ensures
        r == (a@ == b@),
{
    let x = to_chars(a);
    let y = to_chars(b);
    same_chars(&x, &y)
}

fn same_chars(x: &Vec<char>, y: &Vec<char>) -> (r: bool)
    ensures
        r == (x@ == y@),
{
    if x.len() != y.len() {
        return false;
    }
    let mut i: usize = 0;
    while i < x.len()
        invariant
            i <= x@.len() == y@.len(),
            forall|j: int| 0 <= j < i ==> x@[j] == y@[j],
        decreases x@.len() - i,
    {
        if x[i] != y[i] {
            return false;
        }
        i = i + 1;
    }
    assert(x@ =~= y@);
    true
}

/// Whether `part` stands in `s` at position `i`.
pub fn chars_occur_at(s: &Vec<char>, part: &Vec<char>, i: usize) -> (r: bool)
    ensures
        r == occurs_at(s@, part@, i as int),
{
    if part.len() > s.len() || i > s.len() - part.len() {
        return false;
    }
    let mut j: usize = 0;
    while j < part.len()
        invariant
            j <= part@.len(),
            i + part@.len() <= s@.len() <= usize::MAX,
            forall|k: int| 0 <= k < j ==> #[trigger] part@[k] == s@[i + k],
        decreases part@.len() - j,
    {
        if s[i + j] != part[j] {
            assert(s@.subrange(i as int, i + part@.len() as int)[j as int] == s@[i + j]);
            return false;
        }
        j = j + 1;
    }
    assert(s@.subrange(i as int, i + part@.len() as int) =~= part@);
    true
}

/// Whether `s` begins with `prefix`.
pub fn starts_with(s: &str, prefix: &str) -> (r: bool)
    ensures
        r == begins_with(s@, prefix@),
{
    let x = to_chars(s);
    let p = to_chars(prefix);
    chars_occur_at(&x, &p, 0)
}

/// Whether `s` ends with `suffix`.
pub fn ends_with(s: &str, suffix: &str) -> (r: bool)
    ensures
        r == finishes_with(s@, suffix@),
{
    let x = to_chars(s);
    let p = to_chars(suffix);
    if p.len() > x.len() {
        return false;
    }
    chars_occur_at(&x, &p, x.len() - p.len())
}

/// Whether `part` occurs somewhere in `s`.
pub fn contains(s: &str, part: &str) -> (r: bool)
    ensures
        r == has_part(s@, part@),
{
    let x = to_chars(s);
    let p = to_chars(part);
    if p.len() > x.len() {
        assert forall|i: int| !occurs_at(s@, part@, i) by {}
        return false;
    }
    let last: usize = x.len() - p.len();
    let mut i: usize = 0;
    while !chars_occur_at(&x, &p, i)
        invariant
            x@ == s@,
            p@ == part@,
            last == x@.len() - p@.len(),
            i <= last,
            forall|j: int| 0 <= j < i ==> !occurs_at(s@, part@, j),
        decreases last - i,
    {
        if i == last {
            return false;
        }
        i = i + 1;
    }
    true
}

// ---------------------------------------------------------------------------
// Numbers
// ---------------------------------------------------------------------------

fn digit(d: u64) -> (r: char)
    requires
        d < 10,
    ensures
        r == digit_char(d as int),
{
    (48u8 + d as u8) as char
}

/// Appends `n` in decimal.
pub fn push_decimal(out: &mut String, n: u64)
    ensures
        final(out)@ == old(out)@ + decimal(n as nat),
    decreases n,
{
    if n >= 10 {
        push_decimal(out, n / 10);
    }
    out.push(digit(n % 10));
    assert(out@ =~= old(out)@ + decimal(n as nat));
}

/// `n` in decimal.
pub fn decimal_string(n: u64) -> (r: String)
    ensures
        r@ == decimal(n as nat),
{
    let mut out = String::new();
    push_decimal(&mut out, n);
    assert(out@ =~= decimal(n as nat));
    out
}

/// Appends `n` in decimal, filled with zeros on the left up to `width` characters.
pub fn push_zero_padded(out: &mut String, n: u64, width: usize)
    ensures
        final(out)@ == old(out)@ + zero_padded(n as nat, width as nat),
{
    let digits = decimal_string(n);
    let len = to_chars(&digits).len();
    if len < width {
        let fill: usize = width - len;
        let mut i: usize = 0;
        while i < fill
            invariant
                i <= fill,
                out@ == old(out)@ + repeated('0', i as nat),
            decreases fill - i,
        {
            out.push('0');
            i = i + 1;
            assert(out@ =~= old(out)@ + repeated('0', i as nat));
        }
    }
    out.append(&digits);
    assert(out@ =~= old(out)@ + zero_padded(n as nat, width as nat));
}

proof fn lemma_digits_value_grows(s: Seq<char>, k: int)
    requires
        0 <= k <= s.len(),
        all_digits(s),
    ensures
        digits_value(s.subrange(0, k)) <= digits_value(s),
    decreases s.len() - k,
{
    if k < s.len() {
        lemma_digits_value_grows(s, k + 1);
        let t = s.subrange(0, k + 1);
        assert(t.drop_last() =~= s.subrange(0, k));
        assert(is_digit(s[k]));
        assert(digits_value(t) >= digits_value(t.drop_last()));
    } else {
        assert(s.subrange(0, k) =~= s);
    }
}

/// Reads an unsigned decimal number of at most `max`.
pub fn parse_unsigned(v: &Vec<char>, max: u64) -> (r: Option<u64>)
    ensures
        r is Some <==> unsigned_value(v@, max as nat) is Some,
        r is Some ==> r->0 as nat == unsigned_value(v@, max as nat)->0,
{
    let start: usize = if v.len() > 0 && v[0] == '+' {
        1
    } else {
        0
    };
    let ghost d = unsigned_digits(v@);
    assert(d =~= v@.subrange(start as int, v@.len() as int));
    if start == v.len() {
        return None;
    }
    let mut value: u64 = 0;
    let mut i: usize = start;
    while i < v.len()
        invariant
            start <= i <= v@.len(),
            start < v@.len(),
            d == v@.subrange(start as int, v@.len() as int),
            d == unsigned_digits(v@),
            forall|j: int| 0 <= j < i - start ==> is_digit(#[trigger] d[j]),
            value as nat == digits_value(d.subrange(0, i - start)),
            value <= max,
        decreases v@.len() - i,
    {
        let c = v[i];
        assert(c == d[i - start]);
        if c < '0' || c > '9' {
            assert(!all_digits(d));
            return None;
        }
        let digit = c as u64 - 48;
        let ghost next = d.subrange(0, i - start + 1);
        assert(next.drop_last() =~= d.subrange(0, i - start));
        assert(digits_value(next) == value * 10 + digit);
        let fits = match value.checked_mul(10) {
            Some(tens) => match tens.checked_add(digit) {
                Some(n) => {
                    value = n;
                    n <= max
                },
                None => false,
            },
            None => false,
        };
        if !fits {
            proof {
                if all_digits(d) {
                    lemma_digits_value_grows(d, i - start + 1);
                }
            }
            return None;
        }
        i = i + 1;
    }
    assert(d.subrange(0, v@.len() - start) =~= d);
    Some(value)
}

// ---------------------------------------------------------------------------
// Trimming and splitting
// ---------------------------------------------------------------------------

/// Whether `c` is white space.
pub fn space(c: char) -> (r: bool)
    ensures
        r == is_space(c),
{
    let n = c as u32;
    (0x09 <= n && n <= 0x0d) || n == 0x20 || n == 0x85 || n == 0xa0 || n == 0x1680 || (0x2000 <= n
        && n <= 0x200a) || n == 0x2028 || n == 0x2029 || n == 0x202f || n == 0x205f || n == 0x3000
}

/// The characters `v[from..to]` without the white space at both ends.
pub fn trim_chars(v: &Vec<char>, from: usize, to: usize) -> (r: (usize, usize))
    requires
        from <= to <= v@.len(),
    ensures
        from <= r.0 <= r.1 <= to,
        v@.subrange(r.0 as int, r.1 as int) == trimmed(v@.subrange(from as int, to as int)),
{
    let mut a: usize = from;
    let ghost whole = v@.subrange(from as int, to as int);
    while a < to && space(v[a])
        invariant
            from <= a <= to <= v@.len(),
            trimmed_start(whole) == trimmed_start(v@.subrange(a as int, to as int)),
        decreases to - a,
    {
        assert(v@.subrange(a as int, to as int).drop_first() =~= v@.subrange(a + 1, to as int));
        a = a + 1;
    }
    let ghost middle = v@.subrange(a as int, to as int);
    assert(trimmed_start(whole) == middle);
    let mut b: usize = to;
    while a < b && space(v[b - 1])
        invariant
            from <= a <= b <= to <= v@.len(),
            trimmed_end(middle) == trimmed_end(v@.subrange(a as int, b as int)),
        decreases b - a,
    {
        assert(v@.subrange(a as int, b as int).drop_last() =~= v@.subrange(a as int, b - 1));
        b = b - 1;
    }
    (a, b)
}

/// `s` without the white space at both ends.
pub fn trim(s: &str) -> (r: String)
    ensures
        r@ == trimmed(s@),
{
    let v = to_chars(s);
    let (a, b) = trim_chars(&v, 0, v.len());
    assert(v@.subrange(0, v@.len() as int) =~= s@);
    from_chars(&v, a, b)
}

/// The pieces of `s` between occurrences of `sep`.
pub fn split(s: &str, sep: char) -> (r: Vec<String>)
    ensures
        views(r@) == pieces(s@, sep),
{
    let v = to_chars(s);
    let mut done: Vec<String> = Vec::new();
    let mut piece = String::new();
    let mut i: usize = 0;
    proof {
        assert(v@.subrange(0, 0) =~= Seq::<char>::empty());
        assert(views(done@).push(piece@) =~= pieces(v@.subrange(0, 0), sep));
    }
    while i < v.len()
        invariant
            i <= v@.len(),
            v@ == s@,
            views(done@).push(piece@) == pieces(v@.subrange(0, i as int), sep),
        decreases v@.len() - i,
    {
        let ghost before = pieces(v@.subrange(0, i as int), sep);
        let ghost here = v@.subrange(0, i + 1);
        assert(here.drop_last() =~= v@.subrange(0, i as int));
        assert(here.last() == v@[i as int]);
        assert(before.last() == piece@);
        let c = v[i];
        if c == sep {
            let ghost done_before = done@;
            done.push(piece);
            piece = String::new();
            assert(views(done@) =~= before);
            assert(views(done@).push(piece@) =~= pieces(here, sep));
        } else {
            piece.push(c);
            assert(views(done@).push(piece@) =~= before.update(before.len() - 1, piece@));
        }
        i = i + 1;
    }
    assert(v@.subrange(0, v@.len() as int) =~= s@);
    let ghost earlier = views(done@);
    done.push(piece);
    assert(views(done@) =~= earlier.push(piece@));
    done
}

// ---------------------------------------------------------------------------
// Letter case
// ---------------------------------------------------------------------------

/// `c` in lower case, where it is an ASCII letter.
pub open spec fn ascii_lower(c: char) -> char {
    if 'A' <= c && c <= 'Z' {
        (c as u32 + 32) as char
    } else {
        c
    }
}

/// A text in lower case, as `str::to_lowercase` gives it.
pub uninterp spec fn lowered(s: Seq<char>) -> Seq<char>;

/// `str::to_lowercase`: depends on the text alone; on ASCII text it turns each letter into its
/// lower-case form and keeps the rest.
#[verifier::external_body]
pub(crate) fn lowercase(s: &str) -> (r: String)
    ensures
        r@ == lowered(s@),
        vstd::utf8::is_ascii_chars(s@) ==> r@ == s@.map_values(|c: char| ascii_lower(c)),
{
    s.to_lowercase()
}

// ---------------------------------------------------------------------------
// Bytes
// ---------------------------------------------------------------------------

/// `std::str::from_utf8`: the text that the bytes encode, where they are valid UTF-8.
#[verifier::external_body]
pub(crate) fn text_of_utf8(bytes: &[u8]) -> (r: Option<String>)
    ensures
        r is Some <==> vstd::utf8::valid_utf8(bytes@),
        r matches Some(s) ==> s@ == vstd::utf8::decode_utf8(bytes@),
{
    match std::str::from_utf8(bytes) {
        Ok(s) => Some(s.to_string()),
        Err(_) => None,
    }
}

/// Bytes as text, as `String::from_utf8_lossy` reads them.
pub uninterp spec fn lossy_text(bytes: Seq<u8>) -> Seq<char>;

/// `String::from_utf8_lossy`: depends on the bytes alone; valid UTF-8 is decoded as it is.
#[verifier::external_body]
pub(crate) fn lossy(bytes: &[u8]) -> (r: String)
    ensures
        r@ == lossy_text(bytes@),
        vstd::utf8::valid_utf8(bytes@) ==> r@ == vstd::utf8::decode_utf8(bytes@),
{
    String::from_utf8_lossy(bytes).to_string()
}

// ---------------------------------------------------------------------------
// Numbers, words and lines
// ---------------------------------------------------------------------------

/// Why a text is no number of 64 bits, in the words of `std::num::ParseIntError`.
pub uninterp spec fn number_failure(s: Seq<char>) -> Seq<char>;

/// `str::parse::<u64>`: an optional plus sign and decimal digits are a number where it fits in 64
/// bits; the words for any other text depend on the text alone.
#[verifier::external_body]
pub(crate) fn parse_u64(s: &str) -> (r: Result<u64, String>)
    ensures
        match r {
            Ok(n) => unsigned_value(s@, u64::MAX as nat) == Some(n as nat),
            Err(e) => unsigned_value(s@, u64::MAX as nat) is None && e@ == number_failure(s@),
        },
{
    s.parse::<u64>().map_err(|e| e.to_string())
}

/// The words of a text: its parts between white space.
pub open spec fn words(s: Seq<char>) -> Seq<Seq<char>>
    decreases s.len(),
{
    if s.len() == 0 {
        Seq::empty()
    } else if is_space(s.last()) {
        words(s.drop_last())
    } else {
        let w = words(s.drop_last());
        if s.len() > 1 && !is_space(s[s.len() - 2]) {
            w.update(w.len() - 1, w.last().push(s.last()))
        } else {
            w.push(seq![s.last()])
        }
    }
}

/// The words of a text.
pub fn split_whitespace(s: &str) -> (r: Vec<String>)
    ensures
        views(r@) == words(s@),
{
    let v = to_chars(s);
    let mut out: Vec<String> = Vec::new();
    let mut word = String::new();
    let mut i: usize = 0;
    proof {
        assert(v@.subrange(0, 0) =~= Seq::<char>::empty());
        assert(views(out@) =~= Seq::empty());
    }
    while i < v.len()
        invariant
            i <= v@.len(),
            v@ == s@,
            word@.len() > 0 <==> i > 0 && !is_space(v@[i - 1]),
            words(v@.subrange(0, i as int)) == if word@.len() > 0 {
                views(out@).push(word@)
            } else {
                views(out@)
            },
        decreases v@.len() - i,
    {
        let c = v[i];
        let ghost here = v@.subrange(0, i + 1);
        let ghost before = views(out@);
        let ghost w = word@;
        assert(here.drop_last() =~= v@.subrange(0, i as int));
        assert(here.last() == c);
        if space(c) {
            if word.as_str().unicode_len() > 0 {
                out.push(word);
                assert(views(out@) =~= before.push(w));
                word = String::new();
            }
        } else {
            proof {
                if w.len() > 0 {
                    let b = before.push(w);
                    assert(here[here.len() - 2] == v@[i - 1]);
                    assert(b.update(b.len() - 1, b.last().push(c)) =~= before.push(w.push(c)));
                } else {
                    assert(seq![c] =~= w.push(c));
                }
            }
            word.push(c);
        }
        i = i + 1;
    }
    assert(v@.subrange(0, i as int) =~= s@);
    if word.as_str().unicode_len() > 0 {
        let ghost before = views(out@);
        let ghost w = word@;
        out.push(word);
        assert(views(out@) =~= before.push(w));
    }
    out
}

/// What follows the prefix, if the text begins with it.
pub open spec fn stripped(s: Seq<char>, prefix: Seq<char>) -> Option<Seq<char>> {
    if begins_with(s, prefix) {
        Some(s.subrange(prefix.len() as int, s.len() as int))
    } else {
        None
    }
}

/// What follows the prefix, if the text begins with it.
pub fn strip_prefix(s: &str, prefix: &str) -> (r: Option<String>)
    ensures
        r is Some <==> stripped(s@, prefix@) is Some,
        r matches Some(t) ==> t@ == stripped(s@, prefix@)->0,
{
    if !starts_with(s, prefix) {
        return None;
    }
    let v = to_chars(s);
    let n = to_chars(prefix).len();
    Some(from_chars(&v, n, v.len()))
}

// ---------------------------------------------------------------------------
// Order
// ---------------------------------------------------------------------------

/// `a` comes before `b` in dictionary order, by the numbers of the characters.
pub open spec fn precedes(a: Seq<char>, b: Seq<char>) -> bool
    decreases a.len(),
{
    if b.len() == 0 {
        false
    } else if a.len() == 0 {
        true
    } else if a[0] == b[0] {
        precedes(a.drop_first(), b.drop_first())
    } else {
        a[0] < b[0]
    }
}

/// No text comes before itself, and of two texts at most one comes before the other.
pub proof fn lemma_precedes_strict(a: Seq<char>, b: Seq<char>)
    ensures
        precedes(a, b) ==> a != b && !precedes(b, a),
        a == b || precedes(a, b) || precedes(b, a),
    decreases a.len(),
{
    if a.len() > 0 && b.len() > 0 && a[0] == b[0] {
        lemma_precedes_strict(a.drop_first(), b.drop_first());
        if a.drop_first() == b.drop_first() {
            assert(a =~= seq![a[0]] + a.drop_first());
            assert(b =~= seq![b[0]] + b.drop_first());
        }
    }
    if a.len() == 0 && b.len() == 0 {
        assert(a =~= b);
    }
}

/// The order is transitive.
pub proof fn lemma_precedes_transitive(a: Seq<char>, b: Seq<char>, c: Seq<char>)
    requires
        precedes(a, b),
        precedes(b, c),
    ensures
        precedes(a, c),
    decreases a.len(),
{
    if a.len() > 0 && b.len() > 0 && c.len() > 0 && a[0] == b[0] && b[0] == c[0] {
        lemma_precedes_transitive(a.drop_first(), b.drop_first(), c.drop_first());
    }
}

/// Whether `a` comes before `b` in dictionary order.
pub fn comes_before(a: &str, b: &str) -> (r: bool)
    ensures
        r == precedes(a@, b@),
{
    let x = to_chars(a);
    let y = to_chars(b);
    let mut i: usize = 0;
    assert(x@.subrange(0, x@.len() as int) =~= x@);
    assert(y@.subrange(0, y@.len() as int) =~= y@);
    while i < x.len() && i < y.len() && x[i] == y[i]
        invariant
            i <= x@.len(),
            i <= y@.len(),
            precedes(x@, y@) == precedes(
                x@.subrange(i as int, x@.len() as int),
                y@.subrange(i as int, y@.len() as int),
            ),
        decreases x@.len() - i,
    {
        assert(x@.subrange(i as int, x@.len() as int).drop_first() =~= x@.subrange(
            i + 1,
            x@.len() as int,
        ));
        assert(y@.subrange(i as int, y@.len() as int).drop_first() =~= y@.subrange(
            i + 1,
            y@.len() as int,
        ));
        i = i + 1;
    }
    if i >= y.len() {
        false
    } else if i >= x.len() {
        true
    } else {
        x[i] < y[i]
    }
}

/// Of two texts of the same length, the order does not depend on what follows them.
pub proof fn lemma_precedes_extends(a: Seq<char>, b: Seq<char>, u: Seq<char>, w: Seq<char>)
    requires
        a.len() == b.len(),
        precedes(a, b),
    ensures
        precedes(a + u, b + w),
    decreases a.len(),
{
    if a[0] == b[0] {
        lemma_precedes_extends(a.drop_first(), b.drop_first(), u, w);
        assert((a + u).drop_first() =~= a.drop_first() + u);
        assert((b + w).drop_first() =~= b.drop_first() + w);
    }
}

/// What two texts have in common at the front does not change their order.
proof fn lemma_precedes_behind(common: Seq<char>, u: Seq<char>, w: Seq<char>)
    requires
        precedes(u, w),
    ensures
        precedes(common + u, common + w),
    decreases common.len(),
{
    if common.len() == 0 {
        assert(common + u =~= u);
        assert(common + w =~= w);
    } else {
        lemma_precedes_behind(common.drop_first(), u, w);
        assert((common + u).drop_first() =~= common.drop_first() + u);
        assert((common + w).drop_first() =~= common.drop_first() + w);
    }
}

/// Digits of the same number are ordered as the numbers that they write.
pub proof fn digits_are_ordered_as_numbers(a: Seq<char>, b: Seq<char>)
    requires
        a.len() == b.len(),
        all_digits(a),
        all_digits(b),
    ensures
        digits_value(a) == digits_value(b) ==> a == b,
        digits_value(a) < digits_value(b) ==> precedes(a, b),
    decreases a.len(),
{
    if a.len() == 0 {
        assert(a =~= b);
    } else {
        let x = a.drop_last();
        let y = b.drop_last();
        assert(all_digits(x) && all_digits(y));
        digits_are_ordered_as_numbers(x, y);
        assert(is_digit(a[a.len() - 1]) && is_digit(b[b.len() - 1]));
        assert(a =~= x + seq![a.last()]);
        assert(b =~= y + seq![b.last()]);
        if digits_value(a) < digits_value(b) {
            if digits_value(x) < digits_value(y) {
                lemma_precedes_extends(x, y, seq![a.last()], seq![b.last()]);
            } else {
                assert(digits_value(x) == digits_value(y));
                assert(precedes(seq![a.last()], seq![b.last()]));
                lemma_precedes_behind(x, seq![a.last()], seq![b.last()]);
            }
        }
    }
}

/// A number in decimal, with zeros in front, writes that number.
pub proof fn padded_numbers_read_back(n: nat, width: nat)
    ensures
        all_digits(zero_padded(n, width)),
        digits_value(zero_padded(n, width)) == n,
{
    lemma_decimal_value(n);
    let d = decimal(n);
    if d.len() < width {
        lemma_zeros_in_front((width - d.len()) as nat, d);
    }
}

/// A number in decimal writes that number, without a zero in front of it.
pub proof fn decimals_read_back(n: nat)
    ensures
        decimal(n).len() > 0,
        decimal(n)[0] == '0' ==> n == 0 && decimal(n).len() == 1,
        all_digits(decimal(n)),
        digits_value(decimal(n)) == n,
    decreases n,
{
    lemma_decimal_value(n);
    if n >= 10 {
        decimals_read_back(n / 10);
    }
}

proof fn lemma_decimal_value(n: nat)
    ensures
        all_digits(decimal(n)),
        digits_value(decimal(n)) == n,
    decreases n,
{
    let d = decimal(n);
    if n < 10 {
        assert(d.drop_last() =~= Seq::empty());
        assert(digits_value(d.drop_last()) == 0);
    } else {
        lemma_decimal_value(n / 10);
        assert(d.drop_last() =~= decimal(n / 10));
    }
}

proof fn lemma_zeros_in_front(k: nat, d: Seq<char>)
    requires
        all_digits(d),
    ensures
        all_digits(repeated('0', k) + d),
        digits_value(repeated('0', k) + d) == digits_value(d),
    decreases k + d.len(),
{
    let s = repeated('0', k) + d;
    if d.len() > 0 {
        assert(all_digits(d.drop_last()));
        lemma_zeros_in_front(k, d.drop_last());
        assert(s.drop_last() =~= repeated('0', k) + d.drop_last());
    } else if k > 0 {
        lemma_zeros_in_front((k - 1) as nat, d);
        assert(s.drop_last() =~= repeated('0', (k - 1) as nat) + d);
    }
}

/// Pieces, with a separator between each two.
pub open spec fn joined(p: Seq<Seq<char>>, sep: char) -> Seq<char>
    decreases p.len(),
{
    if p.len() == 0 {
        Seq::empty()
    } else if p.len() == 1 {
        p[0]
    } else {
        joined(p.drop_last(), sep).push(sep) + p.last()
    }
}

/// The pieces of a text, joined again, are the text; none of them holds the separator.
pub proof fn pieces_make_up_the_text(s: Seq<char>, sep: char)
    ensures
        pieces(s, sep).len() > 0,
        joined(pieces(s, sep), sep) == s,
        forall|i: int| 0 <= i < pieces(s, sep).len() ==> !(#[trigger] pieces(s, sep)[i]).contains(sep),
    decreases s.len(),
{
    let p = pieces(s, sep);
    if s.len() > 0 {
        let t = s.drop_last();
        let c = s.last();
        pieces_make_up_the_text(t, sep);
        let q = pieces(t, sep);
        assert(t.push(c) =~= s);
        if c == sep {
            assert(p.drop_last() =~= q);
            assert(joined(p, sep) =~= s);
            assert(!Seq::<char>::empty().contains(sep));
        } else {
            assert(p.drop_last() =~= q.drop_last());
            assert(joined(p, sep) =~= joined(q, sep).push(c));
            assert forall|i: int| 0 <= i < p.len() implies !(#[trigger] p[i]).contains(sep) by {
                if i == p.len() - 1 {
                    assert(!q[i].contains(sep));
                    if p[i].contains(sep) {
                        let k = choose|k: int| 0 <= k < p[i].len() && p[i][k] == sep;
                        assert(q[i][k] == sep);
                    }
                } else {
                    assert(p[i] == q[i]);
                }
            }
        }
    } else {
        assert(p =~= seq![s]);
    }
}

/// What is taken off the ends of a text is white space, and none of it is left there.
pub proof fn trimming_takes_white_space(s: Seq<char>)
    ensures
        trimmed(s).len() > 0 ==> !is_space(trimmed(s)[0]) && !is_space(trimmed(s).last()),
        exists|a: int, b: int|
            0 <= a <= b <= s.len() && trimmed(s) == #[trigger] s.subrange(a, b) && (forall|i: int|
                0 <= i < s.len() && !(a <= i < b) ==> is_space(s[i])),
{
    lemma_trimmed_start(s);
    let t = trimmed_start(s);
    lemma_trimmed_end(t);
    let a = s.len() - t.len();
    let b = a + trimmed_end(t).len();
    assert(trimmed(s) =~= s.subrange(a, b));
    assert forall|i: int| 0 <= i < s.len() && !(a <= i < b) implies is_space(s[i]) by {
        if i >= b {
            assert(s[i] == t[i - a]);
        }
    }
    if trimmed(s).len() > 0 {
        assert(trimmed(s)[0] == t[0]);
    }
}

proof fn lemma_trimmed_start(s: Seq<char>)
    ensures
        trimmed_start(s).len() <= s.len(),
        trimmed_start(s) == s.subrange(s.len() - trimmed_start(s).len(), s.len() as int),
        forall|i: int| 0 <= i < s.len() - trimmed_start(s).len() ==> is_space(s[i]),
        trimmed_start(s).len() > 0 ==> !is_space(trimmed_start(s)[0]),
    decreases s.len(),
{
    if s.len() > 0 && is_space(s[0]) {
        let t = s.drop_first();
        lemma_trimmed_start(t);
        let n = trimmed_start(t).len();
        assert(t.subrange(t.len() - n, t.len() as int) =~= s.subrange(
            s.len() - n,
            s.len() as int,
        ));
        assert forall|i: int| 0 <= i < s.len() - n implies is_space(s[i]) by {
            if i > 0 {
                assert(s[i] == t[i - 1]);
            }
        }
    } else {
        assert(s.subrange(0, s.len() as int) =~= s);
    }
}

proof fn lemma_trimmed_end(s: Seq<char>)
    ensures
        trimmed_end(s).len() <= s.len(),
        trimmed_end(s) == s.subrange(0, trimmed_end(s).len() as int),
        forall|i: int| trimmed_end(s).len() <= i < s.len() ==> is_space(s[i]),
        trimmed_end(s).len() > 0 ==> !is_space(trimmed_end(s).last()),
    decreases s.len(),
{
    if s.len() > 0 && is_space(s.last()) {
        let t = s.drop_last();
        lemma_trimmed_end(t);
        let n = trimmed_end(t).len() as int;
        assert(t.subrange(0, n) =~= s.subrange(0, n));
        assert forall|i: int| n <= i < s.len() implies is_space(s[i]) by {
            if i < t.len() {
                assert(s[i] == t[i]);
            }
        }
    } else {
        assert(s.subrange(0, s.len() as int) =~= s);
    }
}

} // verus!
