//! Scanning text: runs of characters of one class, surrounding white space,
//! words, fields and decimal integers.

use vstd::prelude::*;

verus! {

/// A class of characters.
#[derive(Clone, Copy, Debug)]
pub enum Class {
    /// White space in the sense of Unicode.
    Whitespace,
    /// The five blanks of ASCII: space, tab, line feed, form feed, carriage
    /// return.
    Blank,
    /// Everything but the five blanks of ASCII.
    Word,
    /// Every character but the given one.
    Not(char),
    /// The ten decimal digits.
    Digit,
}

/// `c` is white space in the sense of Unicode.
pub open spec fn is_whitespace(c: char) -> bool {
    ||| '\u{9}' <= c <= '\u{D}'
    ||| c == ' '
    ||| c == '\u{85}'
    ||| c == '\u{A0}'
    ||| c == '\u{1680}'
    ||| '\u{2000}' <= c <= '\u{200A}'
    ||| c == '\u{2028}'
    ||| c == '\u{2029}'
    ||| c == '\u{202F}'
    ||| c == '\u{205F}'
    ||| c == '\u{3000}'
}

/// `c` is one of the five blanks of ASCII.
pub open spec fn is_blank(c: char) -> bool {
    c == ' ' || c == '\t' || c == '\n' || c == '\u{C}' || c == '\r'
}

impl Class {
    /// `c` belongs to the class.
    pub open spec fn has(self, c: char) -> bool {
        match self {
            Class::Whitespace => is_whitespace(c),
            Class::Blank => is_blank(c),
            Class::Word => !is_blank(c),
            Class::Not(stop) => c != stop,
            Class::Digit => is_digit(c),
        }
    }

    /// Tells whether `c` belongs to the class.
    pub fn contains(self, c: char) -> (b: bool)
        ensures
            b == self.has(c),
    {
        match self {
            Class::Whitespace => ('\u{9}' <= c && c <= '\u{D}') || c == ' ' || c == '\u{85}' || c
                == '\u{A0}' || c == '\u{1680}' || ('\u{2000}' <= c && c <= '\u{200A}') || c
                == '\u{2028}' || c == '\u{2029}' || c == '\u{202F}' || c == '\u{205F}' || c
                == '\u{3000}',
            Class::Blank => c == ' ' || c == '\t' || c == '\n' || c == '\u{C}' || c == '\r',
            Class::Word => !(c == ' ' || c == '\t' || c == '\n' || c == '\u{C}' || c == '\r'),
            Class::Not(stop) => c != stop,
            Class::Digit => '0' <= c && c <= '9',
        }
    }
}

/// The length of the longest prefix of `s` made of characters of `class`.
pub open spec fn span(s: Seq<char>, class: Class) -> nat
    decreases s.len(),
{
    if s.len() > 0 && class.has(s[0]) {
        1 + span(s.drop_first(), class)
    } else {
        0
    }
}

/// The length of the longest suffix of `s` made of characters of `class`.
pub open spec fn span_back(s: Seq<char>, class: Class) -> nat
    decreases s.len(),
{
    if s.len() > 0 && class.has(s.last()) {
        1 + span_back(s.drop_last(), class)
    } else {
        0
    }
}

/// A prefix of `k` characters of `class` that ends at the end of `s` or
/// before a character outside `class` is the longest one.
pub proof fn lemma_span(s: Seq<char>, class: Class, k: int)
    requires
        0 <= k <= s.len(),
        forall|j: int| 0 <= j < k ==> class.has(#[trigger] s[j]),
        k < s.len() ==> !class.has(s[k]),
    ensures
        span(s, class) == k,
    decreases k,
{
    if k > 0 {
        let t = s.drop_first();
        assert forall|j: int| 0 <= j < k - 1 implies class.has(#[trigger] t[j]) by {
            assert(t[j] == s[j + 1]);
        }
        lemma_span(t, class, k - 1);
    }
}

/// A suffix of `k` characters of `class` that starts at the start of `s` or
/// after a character outside `class` is the longest one.
pub proof fn lemma_span_back(s: Seq<char>, class: Class, k: int)
    requires
        0 <= k <= s.len(),
        forall|j: int| s.len() - k <= j < s.len() ==> class.has(#[trigger] s[j]),
        k < s.len() ==> !class.has(s[s.len() - k - 1]),
    ensures
        span_back(s, class) == k,
    decreases k,
{
    if k > 0 {
        let t = s.drop_last();
        assert forall|j: int| t.len() - (k - 1) <= j < t.len() implies class.has(
            #[trigger] t[j],
        ) by {
            assert(t[j] == s[j]);
        }
        lemma_span_back(t, class, k - 1);
    }
}

/// The longest run of characters of a class at the start of a text is the
/// whole text just when every character is of the class.
pub proof fn lemma_span_all(s: Seq<char>, class: Class)
    ensures
        span(s, class) <= s.len(),
        span(s, class) == s.len() <==> forall|i: int| 0 <= i < s.len() ==> class.has(#[trigger] s[i]),
    decreases s.len(),
{
    if s.len() > 0 {
        let t = s.drop_first();
        lemma_span_all(t, class);
        if class.has(s[0]) {
            if span(t, class) == t.len() {
                assert forall|i: int| 0 <= i < s.len() implies class.has(#[trigger] s[i]) by {
                    if i > 0 {
                        assert(s[i] == t[i - 1]);
                    }
                }
            } else {
                let j = choose|j: int| 0 <= j < t.len() && !class.has(#[trigger] t[j]);
                assert(s[j + 1] == t[j]);
            }
        }
    }
}

/// The end of the longest run of characters of `class` that starts at `from`
/// and stays below `to`.
pub fn scan(text: &Vec<char>, from: usize, to: usize, class: Class) -> (end: usize)
    requires
        from <= to <= text@.len(),
    ensures
        from <= end <= to,
        end - from == span(text@.subrange(from as int, to as int), class),
{
    let mut i: usize = from;
    while i < to && class.contains(text[i])
        invariant
            from <= i <= to <= text@.len(),
            forall|j: int| from <= j < i ==> class.has(#[trigger] text@[j]),
        decreases to - i,
    {
        i += 1;
    }
    proof {
        let s = text@.subrange(from as int, to as int);
        assert forall|j: int| 0 <= j < i - from implies class.has(#[trigger] s[j]) by {
            assert(s[j] == text@[from + j]);
        }
        lemma_span(s, class, i - from);
    }
    i
}

/// The start of the longest run of characters of `class` that ends at `to`
/// and does not reach below `from`.
pub fn scan_back(text: &Vec<char>, from: usize, to: usize, class: Class) -> (start: usize)
    requires
        from <= to <= text@.len(),
    ensures
        from <= start <= to,
        to - start == span_back(text@.subrange(from as int, to as int), class),
{
    let mut i: usize = to;
    while i > from && class.contains(text[i - 1])
        invariant
            from <= i <= to <= text@.len(),
            forall|j: int| i <= j < to ==> class.has(#[trigger] text@[j]),
        decreases i - from,
    {
        i -= 1;
    }
    proof {
        let s = text@.subrange(from as int, to as int);
        assert forall|j: int| s.len() - (to - i) <= j < s.len() implies class.has(
            #[trigger] s[j],
        ) by {
            assert(s[j] == text@[from + j]);
        }
        lemma_span_back(s, class, to - i);
    }
    i
}

/// `s` without the white space at its two ends.
pub open spec fn trim(s: Seq<char>) -> Seq<char> {
    let t = s.skip(span(s, Class::Whitespace) as int);
    t.take(t.len() - span_back(t, Class::Whitespace))
}

/// What follows the first word of `s`: `s` without its leading blanks and
/// without the run of other characters that comes after them.
pub open spec fn after_word(s: Seq<char>) -> Seq<char> {
    let t = s.skip(span(s, Class::Blank) as int);
    t.skip(span(t, Class::Word) as int)
}

/// Word `n` of `s`, counted from zero, where words are the longest runs of
/// characters that are no ASCII blanks. Empty if `s` has no such word; a
/// word that is there is never empty.
pub open spec fn word(s: Seq<char>, n: nat) -> Seq<char>
    decreases n,
{
    if n == 0 {
        let t = s.skip(span(s, Class::Blank) as int);
        t.take(span(t, Class::Word) as int)
    } else {
        word(after_word(s), (n - 1) as nat)
    }
}

/// Field `n` of `s`, counted from zero, where `sep` separates fields. A text
/// with `k` separators has `k + 1` fields, some of them empty perhaps.
pub open spec fn field(s: Seq<char>, sep: char, n: nat) -> Option<Seq<char>>
    decreases n,
{
    let k = span(s, Class::Not(sep));
    if n == 0 {
        Some(s.take(k as int))
    } else if k < s.len() {
        field(s.skip(k as int + 1), sep, (n - 1) as nat)
    } else {
        None
    }
}

/// `s` begins with `p`.
pub open spec fn starts_with(s: Seq<char>, p: Seq<char>) -> bool {
    p.len() <= s.len() && s.take(p.len() as int) == p
}

/// `c` is a decimal digit.
pub open spec fn is_digit(c: char) -> bool {
    '0' <= c <= '9'
}

/// Every character of `s` is a decimal digit.
pub open spec fn all_digits(s: Seq<char>) -> bool {
    forall|i: int| 0 <= i < s.len() ==> is_digit(#[trigger] s[i])
}

/// The number that the digits of `s` write in base ten.
pub open spec fn digits_value(s: Seq<char>) -> int
    decreases s.len(),
{
    if s.len() == 0 {
        0
    } else {
        10 * digits_value(s.drop_last()) + (s.last() as int - '0' as int)
    }
}

/// The 32-bit signed integer that `s` writes: an optional sign, then one
/// digit or more, nothing else, and a value that fits.
pub open spec fn decimal(s: Seq<char>) -> Option<int> {
    let signed = s.len() > 0 && (s[0] == '-' || s[0] == '+');
    let d = if signed {
        s.drop_first()
    } else {
        s
    };
    let v = if s.len() > 0 && s[0] == '-' {
        -digits_value(d)
    } else {
        digits_value(d)
    };
    if d.len() > 0 && all_digits(d) && -0x8000_0000 <= v <= 0x7fff_ffff {
        Some(v)
    } else {
        None
    }
}

/// `s` is `word` in small or capital letters: each of its characters is the
/// one of `small` or the one of `capital` at that place.
pub open spec fn spells(s: Seq<char>, small: Seq<char>, capital: Seq<char>) -> bool {
    &&& s.len() == small.len()
    &&& forall|i: int| 0 <= i < s.len() ==> s[i] == small[i] || s[i] == #[trigger] capital[i]
}

/// `s` is an exponent: `e` or `E`, an optional sign, then one digit or more.
pub open spec fn is_exponent(s: Seq<char>) -> bool {
    &&& s.len() > 0
    &&& (s[0] == 'e' || s[0] == 'E')
    &&& {
        let t = s.skip(1);
        let u = if t.len() > 0 && (t[0] == '+' || t[0] == '-') {
            t.skip(1)
        } else {
            t
        };
        u.len() > 0 && all_digits(u)
    }
}

/// `s` is a decimal number without sign: digits with at most one point
/// among them, before them or behind them, at least one digit in all, and
/// an exponent behind that or none.
pub open spec fn is_number(s: Seq<char>) -> bool {
    let whole = span(s, Class::Digit);
    let t = s.skip(whole as int);
    let point = t.len() > 0 && t[0] == '.';
    let u = if point {
        t.skip(1)
    } else {
        t
    };
    let part = if point {
        span(u, Class::Digit)
    } else {
        0
    };
    let v = u.skip(part as int);
    whole + part > 0 && (v.len() == 0 || is_exponent(v))
}

/// `s` writes a floating-point number: an optional sign, then a decimal
/// number, or one of the words `inf`, `infinity` and `nan` in small or
/// capital letters.
pub open spec fn is_float(s: Seq<char>) -> bool {
    let t = if s.len() > 0 && (s[0] == '+' || s[0] == '-') {
        s.skip(1)
    } else {
        s
    };
    ||| is_number(t)
    ||| spells(t, "inf"@, "INF"@)
    ||| spells(t, "infinity"@, "INFINITY"@)
    ||| spells(t, "nan"@, "NAN"@)
}

/// A number written in digits is at least the number that any of its
/// prefixes writes, and not negative.
pub proof fn lemma_digits_value_prefix(s: Seq<char>, k: int)
    requires
        all_digits(s),
        0 <= k <= s.len(),
    ensures
        0 <= digits_value(s.take(k)) <= digits_value(s),
    decreases s.len() - k,
{
    if k == s.len() {
        assert(s.take(k) =~= s);
        lemma_digits_value_nonnegative(s);
    } else {
        let t = s.drop_last();
        assert(t.take(k) =~= s.take(k));
        assert(is_digit(s.last()));
        lemma_digits_value_prefix(t, k);
    }
}

/// A number written in digits is not negative.
pub proof fn lemma_digits_value_nonnegative(s: Seq<char>)
    requires
        all_digits(s),
    ensures
        0 <= digits_value(s),
    decreases s.len(),
{
    if s.len() > 0 {
        assert(is_digit(s.last()));
        lemma_digits_value_nonnegative(s.drop_last());
    }
}

/// The bounds of `text[from..to]` without the white space at its two ends.
pub fn trim_range(text: &Vec<char>, from: usize, to: usize) -> (r: (usize, usize))
    requires
        from <= to <= text@.len(),
    ensures
        from <= r.0 <= r.1 <= to,
        text@.subrange(r.0 as int, r.1 as int) == trim(text@.subrange(from as int, to as int)),
{
    let a = scan(text, from, to, Class::Whitespace);
    let b = scan_back(text, a, to, Class::Whitespace);
    proof {
        let s = text@.subrange(from as int, to as int);
        let t = s.skip(span(s, Class::Whitespace) as int);
        assert(t =~= text@.subrange(a as int, to as int));
        assert(text@.subrange(a as int, b as int) =~= t.take(
            t.len() - span_back(t, Class::Whitespace),
        ));
    }
    (a, b)
}

/// The bounds of the first word of `text[from..to]`; what follows the word
/// starts where the word ends.
pub fn first_word(text: &Vec<char>, from: usize, to: usize) -> (r: (usize, usize))
    requires
        from <= to <= text@.len(),
    ensures
        from <= r.0 <= r.1 <= to,
        text@.subrange(r.0 as int, r.1 as int) == word(text@.subrange(from as int, to as int), 0),
        text@.subrange(r.1 as int, to as int) == after_word(
            text@.subrange(from as int, to as int),
        ),
{
    let a = scan(text, from, to, Class::Blank);
    let b = scan(text, a, to, Class::Word);
    proof {
        let s = text@.subrange(from as int, to as int);
        let t = s.skip(span(s, Class::Blank) as int);
        assert(t =~= text@.subrange(a as int, to as int));
        assert(text@.subrange(a as int, b as int) =~= t.take(span(t, Class::Word) as int));
        assert(text@.subrange(b as int, to as int) =~= t.skip(span(t, Class::Word) as int));
    }
    (a, b)
}

/// The bounds of the first field of `text[from..to]`: it ends at the first
/// `sep` or, if there is none, at `to`.
pub fn first_field(text: &Vec<char>, from: usize, to: usize, sep: char) -> (end: usize)
    requires
        from <= to <= text@.len(),
    ensures
        from <= end <= to,
        end - from == span(text@.subrange(from as int, to as int), Class::Not(sep)),
        Some(text@.subrange(from as int, end as int)) == field(
            text@.subrange(from as int, to as int),
            sep,
            0,
        ),
        end < to ==> text@.subrange(end + 1, to as int) == text@.subrange(
            from as int,
            to as int,
        ).skip(end - from + 1),
{
    let end = scan(text, from, to, Class::Not(sep));
    proof {
        let s = text@.subrange(from as int, to as int);
        assert(text@.subrange(from as int, end as int) =~= s.take(end - from));
        if end < to {
            assert(text@.subrange(end + 1, to as int) =~= s.skip(end - from + 1));
        }
    }
    end
}

/// Tells whether `text[from..to]` begins with `prefix`.
pub fn has_prefix(text: &Vec<char>, from: usize, to: usize, prefix: &str) -> (b: bool)
    requires
        from <= to <= text@.len(),
    ensures
        b == starts_with(text@.subrange(from as int, to as int), prefix@),
{
    let ghost s = text@.subrange(from as int, to as int);
    let n = prefix.unicode_len();
    if to - from < n {
        return false;
    }
    let mut i: usize = 0;
    while i < n
        invariant
            0 <= i <= n,
            n == prefix@.len(),
            from + n <= to <= text@.len(),
            s == text@.subrange(from as int, to as int),
            forall|j: int| 0 <= j < i ==> s[j] == prefix@[j],
        decreases n - i,
    {
        if text[from + i] != prefix.get_char(i) {
            assert(s.take(n as int)[i as int] != prefix@[i as int]);
            return false;
        }
        i += 1;
    }
    assert(s.take(n as int) =~= prefix@);
    true
}

/// Tells whether `text[from..to]` is the word that `small` spells in small
/// and `capital` in capital letters, in any mix of the two.
pub fn is_spelled(text: &Vec<char>, from: usize, to: usize, small: &str, capital: &str) -> (b:
    bool)
    requires
        from <= to <= text@.len(),
        small@.len() == capital@.len(),
    ensures
        b == spells(text@.subrange(from as int, to as int), small@, capital@),
{
    let ghost s = text@.subrange(from as int, to as int);
    let n = small.unicode_len();
    if to - from != n {
        return false;
    }
    let mut i: usize = 0;
    while i < n
        invariant
            0 <= i <= n,
            n == small@.len(),
            n == capital@.len(),
            from + n == to,
            to <= text@.len(),
            s == text@.subrange(from as int, to as int),
            forall|j: int| 0 <= j < i ==> s[j] == small@[j] || s[j] == #[trigger] capital@[j],
        decreases n - i,
    {
        let c = text[from + i];
        if c != small.get_char(i) && c != capital.get_char(i) {
            assert(s[i as int] == c);
            assert(!(s[i as int] == small@[i as int] || s[i as int] == capital@[i as int]));
            return false;
        }
        i += 1;
    }
    true
}

/// Tells whether all of `text[from..to]` is digits.
pub fn is_all_digits(text: &Vec<char>, from: usize, to: usize) -> (b: bool)
    requires
        from <= to <= text@.len(),
    ensures
        b == all_digits(text@.subrange(from as int, to as int)),
{
    let ghost s = text@.subrange(from as int, to as int);
    let end = scan(text, from, to, Class::Digit);
    proof {
        lemma_span_all(s, Class::Digit);
    }
    end == to
}

/// Tells whether `text[from..to]` is an exponent.
pub fn is_exponent_at(text: &Vec<char>, from: usize, to: usize) -> (b: bool)
    requires
        from <= to <= text@.len(),
    ensures
        b == is_exponent(text@.subrange(from as int, to as int)),
{
    let ghost s = text@.subrange(from as int, to as int);
    if from == to {
        return false;
    }
    assert(s[0] == text@[from as int]);
    if text[from] != 'e' && text[from] != 'E' {
        return false;
    }
    let ghost t = s.skip(1);
    assert(t =~= text@.subrange(from + 1, to as int));
    let digits: usize = if from + 1 < to && (text[from + 1] == '+' || text[from + 1] == '-') {
        assert(t[0] == text@[from + 1]);
        assert(t.skip(1) =~= text@.subrange(from + 2, to as int));
        from + 2
    } else {
        proof {
            if t.len() > 0 {
                assert(t[0] == text@[from + 1]);
            }
        }
        from + 1
    };
    digits < to && is_all_digits(text, digits, to)
}

/// Tells whether `text[from..to]` is a decimal number without sign.
pub fn is_number_at(text: &Vec<char>, from: usize, to: usize) -> (b: bool)
    requires
        from <= to <= text@.len(),
    ensures
        b == is_number(text@.subrange(from as int, to as int)),
{
    let ghost s = text@.subrange(from as int, to as int);
    let a = scan(text, from, to, Class::Digit);
    let ghost t = s.skip(a - from);
    assert(t =~= text@.subrange(a as int, to as int));
    let point = a < to && text[a] == '.';
    proof {
        if t.len() > 0 {
            assert(t[0] == text@[a as int]);
        }
    }
    let b: usize = if point {
        assert(t.skip(1) =~= text@.subrange(a + 1, to as int));
        scan(text, a + 1, to, Class::Digit)
    } else {
        a
    };
    let digits: usize = if point {
        (a - from) + (b - (a + 1))
    } else {
        a - from
    };
    proof {
        let u = if point {
            t.skip(1)
        } else {
            t
        };
        let part = if point {
            span(u, Class::Digit)
        } else {
            0
        };
        assert(u.skip(part as int) =~= text@.subrange(b as int, to as int));
    }
    digits > 0 && (b == to || is_exponent_at(text, b, to))
}

/// Tells whether `text[from..to]` writes a floating-point number.
pub fn is_float_at(text: &Vec<char>, from: usize, to: usize) -> (b: bool)
    requires
        from <= to <= text@.len(),
    ensures
        b == is_float(text@.subrange(from as int, to as int)),
{
    let ghost s = text@.subrange(from as int, to as int);
    let start: usize = if from < to && (text[from] == '+' || text[from] == '-') {
        assert(s[0] == text@[from as int]);
        assert(s.skip(1) =~= text@.subrange(from + 1, to as int));
        from + 1
    } else {
        proof {
            if s.len() > 0 {
                assert(s[0] == text@[from as int]);
            }
        }
        from
    };
    proof {
        reveal_strlit("inf");
        reveal_strlit("INF");
        reveal_strlit("infinity");
        reveal_strlit("INFINITY");
        reveal_strlit("nan");
        reveal_strlit("NAN");
    }
    is_number_at(text, start, to) || is_spelled(text, start, to, "inf", "INF") || is_spelled(
        text,
        start,
        to,
        "infinity",
        "INFINITY",
    ) || is_spelled(text, start, to, "nan", "NAN")
}

/// A copy of `text[from..to]`.
pub fn copy_range(text: &Vec<char>, from: usize, to: usize) -> (copy: Vec<char>)
    requires
        from <= to <= text@.len(),
    ensures
        copy@ == text@.subrange(from as int, to as int),
{
    let mut copy: Vec<char> = Vec::new();
    let mut i: usize = from;
    while i < to
        invariant
            from <= i <= to <= text@.len(),
            copy@ == text@.subrange(from as int, i as int),
        decreases to - i,
    {
        copy.push(text[i]);
        assert(copy@ =~= text@.subrange(from as int, i + 1));
        i += 1;
    }
    copy
}

/// The characters of `s`, one by one.
pub fn chars_of(s: &str) -> (text: Vec<char>)
    ensures
        text@ == s@,
{
    let mut text: Vec<char> = Vec::new();
    for c in it: s.chars()
        invariant
            text@ == it.seq().subrange(0, it.index()),
    {
        text.push(c);
    }
    text
}

/// The 32-bit signed integer that `text[from..to]` writes in base ten, if
/// it writes one.
pub fn parse_decimal(text: &Vec<char>, from: usize, to: usize) -> (r: Option<i32>)
    requires
        from <= to <= text@.len(),
    ensures
        match decimal(text@.subrange(from as int, to as int)) {
            Some(v) => r == Some(v as i32),
            None => r is None,
        },
{
    let ghost s = text@.subrange(from as int, to as int);
    if from == to {
        return None;
    }
    let first = text[from];
    assert(first == s[0]);
    let negative = first == '-';
    let start: usize = if first == '-' || first == '+' {
        from + 1
    } else {
        from
    };
    let ghost d = text@.subrange(start as int, to as int);
    proof {
        if first == '-' || first == '+' {
            assert(d =~= s.drop_first());
        } else {
            assert(d =~= s);
        }
    }
    if start == to {
        return None;
    }
    let mut acc: i64 = 0;
    let mut i: usize = start;
    while i < to
        invariant
            start <= i <= to <= text@.len(),
            s == text@.subrange(from as int, to as int),
            s.len() > 0,
            d == text@.subrange(start as int, to as int),
            d == if s[0] == '-' || s[0] == '+' {
                s.drop_first()
            } else {
                s
            },
            all_digits(d.take(i - start)),
            acc == digits_value(d.take(i - start)),
            0 <= acc <= 0x8000_0000,
        decreases to - i,
    {
        let c = text[i];
        assert(c == d[i - start]);
        if !('0' <= c && c <= '9') {
            assert(!is_digit(d[i - start]));
            return None;
        }
        let digit: i64 = (c as u32 - '0' as u32) as i64;
        proof {
            let longer = d.take(i - start + 1);
            assert(longer.drop_last() =~= d.take(i - start));
            assert(longer.last() == c);
            assert(all_digits(longer));
        }
        acc = acc * 10 + digit;
        if acc > 0x8000_0000 {
            proof {
                if all_digits(d) {
                    lemma_digits_value_prefix(d, i - start + 1);
                }
            }
            return None;
        }
        i += 1;
    }
    proof {
        assert(d.take(to - start) =~= d);
    }
    if negative {
        Some((-acc) as i32)
    } else if acc > 0x7fff_ffff {
        None
    } else {
        Some(acc as i32)
    }
}

} // verus!
