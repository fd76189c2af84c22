//! Characters, text and decimal numerals.
//!
//! Text is modelled as `Seq<char>`. Executable code that has to look inside a
//! string works on a `Vec<char>` and turns it back into a `String` at the end.

use std::num::ParseIntError;
use vstd::prelude::*;
use vstd::string::*;

verus! {

/// `c` is one of the ten ASCII digits.
pub open spec fn is_digit(c: char) -> bool {
    48 <= c as int && c as int <= 57
}

/// The number that the digit `c` stands for.
pub open spec fn digit_value(c: char) -> nat {
    (c as int - 48) as nat
}

/// The digit that stands for `d`, for `d < 10`.
pub open spec fn digit_char(d: nat) -> char {
    (d + 48) as char
}

/// Every character of `s` is a digit.
pub open spec fn all_digits(s: Seq<char>) -> bool {
    forall|i: int| 0 <= i < s.len() ==> is_digit(#[trigger] s[i])
}

/// The number that a run of digits stands for, read in base ten.
pub open spec fn decimal_value(s: Seq<char>) -> nat
    decreases s.len(),
{
    if s.len() == 0 {
        0
    } else {
        decimal_value(s.drop_last()) * 10 + digit_value(s.last())
    }
}

/// The shortest numeral for `n`: no leading zero, and `"0"` for zero.
pub open spec fn decimal_text(n: nat) -> Seq<char>
    decreases n,
{
    if n < 10 {
        seq![digit_char(n)]
    } else {
        decimal_text(n / 10).push(digit_char(n % 10))
    }
}

/// `n` zeros.
pub open spec fn zeros(n: nat) -> Seq<char> {
    Seq::new(n, |i: int| '0')
}

/// `s` filled up with zeros on the left to `width` characters; unchanged when
/// it is already that long.
pub open spec fn pad_left(s: Seq<char>, width: nat) -> Seq<char> {
    if s.len() >= width {
        s
    } else {
        zeros((width - s.len()) as nat) + s
    }
}

/// A numeral is canonical when it is a single digit or does not start with a zero.
pub open spec fn canonical(s: Seq<char>) -> bool {
    s.len() == 1 || (s.len() > 1 && s[0] != '0')
}

/// The number of a character.
pub fn char_code(c: char) -> (n: u32)
    ensures
        n as int == c as int,
{
    c as u32
}

/// Whether `c` is a digit.
pub fn is_digit_char(c: char) -> (r: bool)
    ensures
        r == is_digit(c),
{
    let n: u32 = c as u32;
    48 <= n && n <= 57
}

/// The characters of `s`, in order.
pub fn chars_of(s: &str) -> (v: Vec<char>)
    ensures
        v@ == s@,
{
    let mut v: Vec<char> = Vec::new();
    for c in it: s.chars()
        invariant
            it.seq() == s@,
            v@ == s@.subrange(0, it.index() as int),
    {
        v.push(c);
    }
    assert(s@.subrange(0, s@.len() as int) =~= s@);
    v
}

/// `String::from_iter` over the characters of a vector: the string whose
/// characters are those of `v`, in order.
#[verifier::external_body]
pub(crate) fn string_of(v: &Vec<char>) -> (s: String)
    ensures
        s@ == v@,
{
    String::from_iter(v.iter())
}

/// A numeral with a nonzero first digit stands for a positive number.
pub proof fn lemma_value_positive(s: Seq<char>)
    requires
        s.len() >= 1,
        all_digits(s),
        s[0] != '0',
    ensures
        decimal_value(s) >= 1,
    decreases s.len(),
{
    if s.len() == 1 {
        assert(s.drop_last().len() == 0);
        assert(decimal_value(s.drop_last()) == 0);
        assert(is_digit(s[0]));
    } else {
        let t = s.drop_last();
        assert(t[0] == s[0]);
        assert forall|i: int| 0 <= i < t.len() implies is_digit(#[trigger] t[i]) by {
            assert(t[i] == s[i]);
        }
        lemma_value_positive(t);
    }
}

/// The shortest numeral of the value of a canonical numeral is that numeral.
pub proof fn lemma_text_of_value(s: Seq<char>)
    requires
        all_digits(s),
        canonical(s),
    ensures
        decimal_text(decimal_value(s)) == s,
    decreases s.len(),
{
    let t = s.drop_last();
    assert(is_digit(s.last()));
    let d = digit_value(s.last());
    assert(digit_char(d) == s.last());
    if s.len() == 1 {
        assert(t.len() == 0);
        assert(decimal_value(t) == 0);
        assert(decimal_value(s) == d);
        assert(decimal_text(d) =~= s);
    } else {
        assert(t[0] == s[0]);
        assert forall|i: int| 0 <= i < t.len() implies is_digit(#[trigger] t[i]) by {
            assert(t[i] == s[i]);
        }
        lemma_value_positive(t);
        lemma_text_of_value(t);
        let v = decimal_value(s);
        assert(v == decimal_value(t) * 10 + d);
        assert(v >= 10);
        assert(v / 10 == decimal_value(t));
        assert(v % 10 == d);
        assert(decimal_text(v) == decimal_text(v / 10).push(digit_char(v % 10)));
        assert(t.push(s.last()) =~= s);
    }
}

/// A leading zero does not change the value of a numeral.
pub proof fn lemma_leading_zero(s: Seq<char>)
    requires
        s.len() >= 1,
        s[0] == '0',
    ensures
        decimal_value(s) == decimal_value(s.subrange(1, s.len() as int)),
    decreases s.len(),
{
    let rest = s.subrange(1, s.len() as int);
    if s.len() == 1 {
        assert(s.drop_last().len() == 0);
        assert(decimal_value(s.drop_last()) == 0);
        assert(s.last() == '0');
        assert(digit_value('0') == 0);
        assert(rest.len() == 0);
    } else {
        let t = s.drop_last();
        assert(t[0] == '0');
        lemma_leading_zero(t);
        assert(t.subrange(1, t.len() as int) =~= rest.drop_last());
        assert(rest.last() == s.last());
        assert(decimal_value(rest) == decimal_value(rest.drop_last()) * 10 + digit_value(
            rest.last(),
        ));
    }
}

/// The shortest numeral of a value is never longer than a numeral that
/// stands for it, and filling it up with zeros to that length gives the
/// numeral back.
pub proof fn lemma_pad_of_value(s: Seq<char>)
    requires
        s.len() >= 1,
        all_digits(s),
    ensures
        decimal_text(decimal_value(s)).len() <= s.len(),
        pad_left(decimal_text(decimal_value(s)), s.len()) == s,
    decreases s.len(),
{
    if canonical(s) {
        lemma_text_of_value(s);
    } else {
        let rest = s.subrange(1, s.len() as int);
        assert(s[0] == '0');
        assert forall|i: int| 0 <= i < rest.len() implies is_digit(#[trigger] rest[i]) by {
            assert(rest[i] == s[i + 1]);
        }
        lemma_leading_zero(s);
        lemma_pad_of_value(rest);
        let text = decimal_text(decimal_value(s));
        let inner = pad_left(text, rest.len());
        assert(inner == rest);
        assert(pad_left(text, s.len()) =~= seq!['0'] + inner);
        assert(seq!['0'] + rest =~= s);
    }
}

/// A numeral stands for at least as much as any of its prefixes.
pub proof fn lemma_value_prefix(s: Seq<char>, k: int)
    requires
        0 <= k <= s.len(),
    ensures
        decimal_value(s.subrange(0, k)) <= decimal_value(s),
    decreases s.len() - k,
{
    if k == s.len() {
        assert(s.subrange(0, k) =~= s);
    } else {
        let t = s.drop_last();
        assert(t.subrange(0, k) =~= s.subrange(0, k));
        lemma_value_prefix(t, k);
        assert(decimal_value(s) >= decimal_value(t)) by (nonlinear_arith)
            requires
                decimal_value(s) == decimal_value(t) * 10 + digit_value(s.last()),
        ;
    }
}

/// The value of the digits `v[start..end]`, when it fits a `u32`.
pub fn parse_decimal(v: &Vec<char>, start: usize, end: usize) -> (r: Option<u32>)
    requires
        start <= end <= v.len(),
        all_digits(v@.subrange(start as int, end as int)),
    ensures
        r is Some <==> decimal_value(v@.subrange(start as int, end as int)) <= u32::MAX,
        r matches Some(n) ==> n == decimal_value(v@.subrange(start as int, end as int)),
{
    let ghost whole = v@.subrange(start as int, end as int);
    let mut acc: u64 = 0;
    let mut i: usize = start;
    while i < end
        invariant
            start <= i <= end <= v.len(),
            whole == v@.subrange(start as int, end as int),
            all_digits(whole),
            acc == decimal_value(whole.subrange(0, i - start)),
            acc <= u32::MAX,
        decreases end - i,
    {
        let c: char = v[i];
        assert(c == whole[i - start]);
        assert(is_digit(c));
        let d: u64 = (c as u32 - 48) as u64;
        let next: u64 = acc * 10 + d;
        proof {
            let now = whole.subrange(0, i + 1 - start);
            assert(now.drop_last() =~= whole.subrange(0, i - start));
            assert(now.last() == c);
            assert(next == decimal_value(now));
        }
        if next > 0xffff_ffff {
            proof {
                lemma_value_prefix(whole, i + 1 - start);
            }
            return None;
        }
        acc = next;
        i += 1;
    }
    assert(whole.subrange(0, end - start) =~= whole);
    Some(acc as u32)
}

/// The shortest numeral for `n`.
pub fn decimal_chars(n: u64) -> (v: Vec<char>)
    ensures
        v@ == decimal_text(n as nat),
    decreases n,
{
    if n < 10 {
        let c: char = digit_of(n);
        let mut v: Vec<char> = Vec::new();
        v.push(c);
        assert(v@ =~= seq![digit_char(n as nat)]);
        v
    } else {
        let mut v = decimal_chars(n / 10);
        v.push(digit_of(n % 10));
        v
    }
}

/// The digit for `d`.
pub fn digit_of(d: u64) -> (c: char)
    requires
        d < 10,
    ensures
        c == digit_char(d as nat),
{
    let b: u8 = (d + 48) as u8;
    b as char
}

/// The numeral for `n`, filled up with zeros on the left to `width` characters.
pub fn padded_chars(n: u32, width: usize) -> (v: Vec<char>)
    ensures
        v@ == pad_left(decimal_text(n as nat), width as nat),
{
    let text = decimal_chars(n as u64);
    let mut v: Vec<char> = Vec::new();
    let mut k: usize = text.len();
    while k < width
        invariant
            k >= text.len(),
            k == text.len() || k <= width,
            v@ == zeros((k - text.len()) as nat),
        decreases width - k,
    {
        v.push('0');
        k += 1;
        assert(v@ =~= zeros((k - text.len()) as nat));
    }
    let ghost pad = v@;
    append_chars(&mut v, &text);
    proof {
        if text.len() >= width {
            assert(pad.len() == 0);
            assert(v@ =~= text@);
        } else {
            assert(k == width);
        }
    }
    v
}

/// Appends the characters of `src` to `dst`.
pub fn append_chars(dst: &mut Vec<char>, src: &Vec<char>)
    ensures
        final(dst)@ == old(dst)@ + src@,
{
    let mut i: usize = 0;
    while i < src.len()
        invariant
            i <= src.len(),
            dst@ == old(dst)@ + src@.subrange(0, i as int),
        decreases src.len() - i,
    {
        dst.push(src[i]);
        i += 1;
        assert(dst@ =~= old(dst)@ + src@.subrange(0, i as int));
    }
    assert(src@.subrange(0, src.len() as int) =~= src@);
}

/// Appends the characters of `src` to `dst`.
pub fn append_str(dst: &mut Vec<char>, src: &str)
    ensures
        final(dst)@ == old(dst)@ + src@,
{
    let chars = chars_of(src);
    append_chars(dst, &chars);
}

/// The characters `v[start..end]`.
pub fn slice_chars(v: &Vec<char>, start: usize, end: usize) -> (r: Vec<char>)
    requires
        start <= end <= v.len(),
    ensures
        r@ == v@.subrange(start as int, end as int),
{
    let mut r: Vec<char> = Vec::new();
    let mut i: usize = start;
    while i < end
        invariant
            start <= i <= end <= v.len(),
            r@ == v@.subrange(start as int, i as int),
        decreases end - i,
    {
        r.push(v[i]);
        i += 1;
        assert(r@ =~= v@.subrange(start as int, i as int));
    }
    r
}

/// Whether two texts are the same.
pub fn same_chars(a: &Vec<char>, b: &Vec<char>) -> (r: bool)
    ensures
        r == (a@ == b@),
{
    if a.len() != b.len() {
        return false;
    }
    let mut i: usize = 0;
    while i < a.len()
        invariant
            a.len() == b.len(),
            i <= a.len(),
            a@.subrange(0, i as int) == b@.subrange(0, i as int),
        decreases a.len() - i,
    {
        if a[i] != b[i] {
            return false;
        }
        i += 1;
        assert(a@.subrange(0, i as int) =~= a@.subrange(0, i - 1).push(a[i - 1]));
        assert(b@.subrange(0, i as int) =~= b@.subrange(0, i - 1).push(b[i - 1]));
    }
    assert(a@.subrange(0, a.len() as int) =~= a@);
    assert(b@.subrange(0, b.len() as int) =~= b@);
    true
}

/// Whether two strings hold the same text.
pub fn same_text(a: &str, b: &str) -> (r: bool)
    ensures
        r == (a@ == b@),
{
    let x = chars_of(a);
    let y = chars_of(b);
    same_chars(&x, &y)
}

/// `p` is a prefix of `s`.
pub open spec fn is_prefix(p: Seq<char>, s: Seq<char>) -> bool {
    p.len() <= s.len() && s.subrange(0, p.len() as int) == p
}

/// Whether `s` starts with `p`.
pub fn starts_with_chars(s: &Vec<char>, p: &Vec<char>) -> (r: bool)
    ensures
        r == is_prefix(p@, s@),
{
    if p.len() > s.len() {
        return false;
    }
    let head = slice_chars(s, 0, p.len());
    same_chars(&head, p)
}

/// Whether the string `s` starts with the string `p`.
pub fn starts_with(s: &str, p: &str) -> (r: bool)
    ensures
        r == is_prefix(p@, s@),
{
    let x = chars_of(s);
    let y = chars_of(p);
    starts_with_chars(&x, &y)
}

/// `std::num::ParseIntError`: the error of `str::parse` for integers.
/// Nothing is known of a value of this type.
#[verifier::external_type_specification]
#[verifier::external_body]
pub struct ExParseIntError(ParseIntError);

/// The digits of a numeral that may start with a plus sign.
pub open spec fn unsigned_digits(s: Seq<char>) -> Seq<char> {
    if s.len() > 0 && s[0] == '+' {
        s.subrange(1, s.len() as int)
    } else {
        s
    }
}

/// `s` is a numeral for a 32-bit number: an optional plus sign and then at
/// least one digit, nothing else, and a value of at most `u32::MAX`.
pub open spec fn u32_numeral(s: Seq<char>) -> bool {
    &&& unsigned_digits(s).len() >= 1
    &&& all_digits(unsigned_digits(s))
    &&& decimal_value(unsigned_digits(s)) <= u32::MAX
}

/// `str::parse::<u32>`: succeeds exactly on an optional plus sign followed
/// by one or more ASCII digits whose value fits 32 bits, and then gives that
/// value; leading zeros are accepted.
#[verifier::external_body]
pub(crate) fn parse_u32(s: &str) -> (r: Result<u32, ParseIntError>)
    ensures
        r is Ok <==> u32_numeral(s@),
        r matches Ok(n) ==> n == decimal_value(unsigned_digits(s@)),
{
    s.parse::<u32>()
}

/// The first position from `from` on that holds `c`, or the length of `s`
/// when there is none.
pub open spec fn find(s: Seq<char>, c: char, from: int) -> int
    decreases s.len() - from,
{
    if 0 <= from < s.len() && s[from] != c {
        find(s, c, from + 1)
    } else {
        from
    }
}

/// The pieces of `s` from `from` on that stand between occurrences of `c`.
pub open spec fn split_from(s: Seq<char>, c: char, from: int) -> Seq<Seq<char>>
    decreases s.len() - from,
{
    let i = find(s, c, from);
    if 0 <= from <= i < s.len() {
        seq![s.subrange(from, i)] + split_from(s, c, i + 1)
    } else {
        seq![s.subrange(from, s.len() as int)]
    }
}

/// The pieces of `s` that stand between occurrences of `c`: one more piece
/// than there are occurrences, empty pieces included.
pub open spec fn split_on(s: Seq<char>, c: char) -> Seq<Seq<char>> {
    split_from(s, c, 0)
}

/// The texts of a vector of texts.
pub open spec fn texts(v: Seq<Vec<char>>) -> Seq<Seq<char>> {
    v.map_values(|x: Vec<char>| x@)
}

/// The search for a character stops at it or at the end, and skips none.
pub proof fn lemma_find(s: Seq<char>, c: char, from: int)
    requires
        0 <= from <= s.len(),
    ensures
        from <= find(s, c, from) <= s.len(),
        find(s, c, from) < s.len() ==> s[find(s, c, from)] == c,
        forall|k: int| from <= k < find(s, c, from) ==> s[k] != c,
    decreases s.len() - from,
{
    if from < s.len() && s[from] != c {
        lemma_find(s, c, from + 1);
    }
}

/// The first position from `from` on that holds `c`.
pub fn find_char(v: &Vec<char>, c: char, from: usize) -> (r: usize)
    requires
        from <= v.len(),
    ensures
        r == find(v@, c, from as int),
        from <= r <= v.len(),
{
    let mut i: usize = from;
    while i < v.len() && v[i] != c
        invariant
            from <= i <= v.len(),
            find(v@, c, from as int) == find(v@, c, i as int),
        decreases v.len() - i,
    {
        i += 1;
    }
    i
}

/// Whether `v` holds `c`.
pub fn has_char(v: &Vec<char>, c: char) -> (r: bool)
    ensures
        r == v@.contains(c),
{
    let i = find_char(v, c, 0);
    proof {
        lemma_find(v@, c, 0);
        if i < v.len() {
            assert(v@[i as int] == c);
        }
    }
    i < v.len()
}

/// The pieces of `v` that stand between occurrences of `c`.
pub fn split_chars(v: &Vec<char>, c: char) -> (r: Vec<Vec<char>>)
    ensures
        texts(r@) == split_on(v@, c),
        r.len() >= 1,
{
    let mut r: Vec<Vec<char>> = Vec::new();
    let mut from: usize = 0;
    let mut i: usize = find_char(v, c, 0);
    while i < v.len()
        invariant
            from <= i <= v.len(),
            i == find(v@, c, from as int),
            split_on(v@, c) == texts(r@) + split_from(v@, c, from as int),
        decreases v.len() - from,
    {
        let ghost before = r@;
        r.push(slice_chars(v, from, i));
        assert(texts(r@) =~= texts(before) + seq![v@.subrange(from as int, i as int)]);
        from = i + 1;
        i = find_char(v, c, from);
    }
    let ghost before = r@;
    r.push(slice_chars(v, from, v.len()));
    assert(texts(r@) =~= texts(before) + seq![v@.subrange(from as int, v.len() as int)]);
    r
}

/// The texts of a vector of strings.
pub open spec fn strings(v: Seq<String>) -> Seq<Seq<char>> {
    v.map_values(|x: String| x@)
}

/// The text of an optional string.
pub open spec fn optional(o: Option<String>) -> Option<Seq<char>> {
    match o {
        Some(s) => Some(s@),
        None => None,
    }
}

/// A copy of an optional string.
pub fn copy_optional(o: &Option<String>) -> (r: Option<String>)
    ensures
        optional(r) == optional(*o),
{
    match o {
        Some(s) => Some(s.clone()),
        None => None,
    }
}

/// A copy of a vector of strings.
pub fn copy_strings(v: &Vec<String>) -> (r: Vec<String>)
    ensures
        strings(r@) == strings(v@),
{
    let mut r: Vec<String> = Vec::new();
    let mut i: usize = 0;
    while i < v.len()
        invariant
            i <= v.len(),
            r.len() == i,
            strings(r@) == strings(v@.subrange(0, i as int)),
        decreases v.len() - i,
    {
        let ghost before = r@;
        let item = v[i].clone();
        r.push(item);
        i += 1;
        assert forall|k: int| 0 <= k < i implies strings(r@)[k] == strings(
            v@.subrange(0, i as int),
        )[k] by {
            if k < i - 1 {
                assert(strings(before)[k] == strings(v@.subrange(0, i - 1))[k]);
                assert(r@[k] == before[k]);
            }
        }
        assert(strings(r@) =~= strings(v@.subrange(0, i as int)));
    }
    assert(v@.subrange(0, v.len() as int) =~= v@);
    r
}

/// Whether one of the strings of `v` holds the text of `s`.
pub fn contains_text(v: &Vec<String>, s: &str) -> (r: bool)
    ensures
        r == strings(v@).contains(s@),
{
    let mut i: usize = 0;
    while i < v.len()
        invariant
            i <= v.len(),
            forall|k: int| 0 <= k < i ==> strings(v@)[k] != s@,
        decreases v.len() - i,
    {
        if same_text(v[i].as_str(), s) {
            assert(strings(v@)[i as int] == s@);
            return true;
        }
        i += 1;
    }
    false
}

} // verus!
