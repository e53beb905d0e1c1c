//! Character-level text operations.
//!
//! Every string of the library is modelled by its sequence of characters, the
//! view of `str` and `String`. The operations here are stated over those
//! sequences and proved; only lowercasing and appending one character to a
//! `String` are taken from the standard library on trust.

use vstd::prelude::*;

verus! {

/// `needle` occurs in `hay` starting at position `at`.
pub open spec fn occurs_at(hay: Seq<char>, needle: Seq<char>, at: int) -> bool {
    &&& 0 <= at
    &&& at + needle.len() <= hay.len()
    &&& hay.subrange(at, at + needle.len()) == needle
}

/// `needle` occurs somewhere in `hay`.
pub open spec fn contains(hay: Seq<char>, needle: Seq<char>) -> bool {
    exists|at: int| occurs_at(hay, needle, at)
}

/// `hay` begins with `prefix`.
pub open spec fn starts_with(hay: Seq<char>, prefix: Seq<char>) -> bool {
    occurs_at(hay, prefix, 0)
}

/// Position of the leftmost occurrence of `needle` in `hay` that starts at
/// `from` or later.
pub open spec fn find_from(hay: Seq<char>, needle: Seq<char>, from: int) -> Option<int>
    decreases hay.len() - from + 1,
{
    if from < 0 || from + needle.len() > hay.len() {
        None
    } else if occurs_at(hay, needle, from) {
        Some(from)
    } else {
        find_from(hay, needle, from + 1)
    }
}

/// Position of the leftmost occurrence of `needle` in `hay`.
pub open spec fn find(hay: Seq<char>, needle: Seq<char>) -> Option<int> {
    find_from(hay, needle, 0)
}

/// What `find_from` returns is the leftmost occurrence at or after `from`,
/// and it returns `None` only when there is none.
pub proof fn lemma_find_from(hay: Seq<char>, needle: Seq<char>, from: int)
    requires
        0 <= from,
    ensures
        match find_from(hay, needle, from) {
            Some(at) => {
                &&& from <= at
                &&& occurs_at(hay, needle, at)
                &&& forall|j: int| from <= j < at ==> !occurs_at(hay, needle, j)
            },
            None => forall|j: int| from <= j ==> !occurs_at(hay, needle, j),
        },
    decreases hay.len() - from + 1,
{
    if from + needle.len() > hay.len() {
    } else if occurs_at(hay, needle, from) {
    } else {
        lemma_find_from(hay, needle, from + 1);
    }
}

/// `find` succeeds exactly on the texts that contain the needle.
pub proof fn lemma_find_contains(hay: Seq<char>, needle: Seq<char>)
    ensures
        find(hay, needle) is Some <==> contains(hay, needle),
{
    lemma_find_from(hay, needle, 0);
    if contains(hay, needle) {
        let at = choose|at: int| occurs_at(hay, needle, at);
        assert(occurs_at(hay, needle, at));
    }
}

/// The pieces of `s` between the non-overlapping occurrences of `sep`, found
/// from left to right starting at `from`. The last piece runs to the end.
pub open spec fn split_from(s: Seq<char>, sep: Seq<char>, from: int) -> Seq<Seq<char>>
    decreases s.len() - from + 1,
{
    match find_from(s, sep, from) {
        Some(at) => if sep.len() > 0 && from <= at && at + sep.len() <= s.len() {
            seq![s.subrange(from, at)] + split_from(s, sep, at + sep.len())
        } else {
            seq![s.subrange(from, s.len() as int)]
        },
        None => seq![s.subrange(from, s.len() as int)],
    }
}

/// The pieces of `s` between the occurrences of the separator `sep`. A text
/// without the separator is its own single piece, and so is any text where
/// the separator is empty.
pub open spec fn split(s: Seq<char>, sep: Seq<char>) -> Seq<Seq<char>> {
    split_from(s, sep, 0)
}

/// `s` without any occurrence of the character `c`.
pub open spec fn without_char(s: Seq<char>, c: char) -> Seq<char> {
    s.filter(|x: char| x != c)
}

/// The lowercase form of a text, as `str::to_lowercase` of the standard
/// library computes it from the Unicode character tables.
pub uninterp spec fn lowercase(s: Seq<char>) -> Seq<char>;

/// `needle` occurs in `hay` when letter case is ignored.
pub open spec fn contains_ignoring_case(hay: Seq<char>, needle: Seq<char>) -> bool {
    contains(lowercase(hay), lowercase(needle))
}

/// The two texts are the same when letter case is ignored.
pub open spec fn equal_ignoring_case(a: Seq<char>, b: Seq<char>) -> bool {
    lowercase(a) == lowercase(b)
}

/// The character is white space, as Unicode defines it.
pub open spec fn is_space(c: char) -> bool {
    let code = c as u32;
    ||| 0x09 <= code <= 0x0d
    ||| code == 0x20
    ||| code == 0x85
    ||| code == 0xa0
    ||| code == 0x1680
    ||| 0x2000 <= code <= 0x200a
    ||| code == 0x2028
    ||| code == 0x2029
    ||| code == 0x202f
    ||| code == 0x205f
    ||| code == 0x3000
}

/// Number of white-space characters that `s` begins with.
pub open spec fn leading_spaces(s: Seq<char>) -> nat
    decreases s.len(),
{
    if s.len() > 0 && is_space(s[0]) {
        1 + leading_spaces(s.drop_first())
    } else {
        0
    }
}

/// Number of white-space characters that `s` ends with.
pub open spec fn trailing_spaces(s: Seq<char>) -> nat
    decreases s.len(),
{
    if s.len() > 0 && is_space(s.last()) {
        1 + trailing_spaces(s.drop_last())
    } else {
        0
    }
}

/// `s` without the white space at its beginning and at its end.
pub open spec fn trimmed(s: Seq<char>) -> Seq<char> {
    if leading_spaces(s) == s.len() {
        Seq::empty()
    } else {
        s.subrange(leading_spaces(s) as int, s.len() - trailing_spaces(s))
    }
}

/// The white space that `s` begins with is a run of white space that ends
/// before a character that is none, or at the end of `s`.
pub proof fn lemma_leading_spaces(s: Seq<char>, n: int)
    requires
        0 <= n <= s.len(),
        forall|j: int| 0 <= j < n ==> is_space(s[j]),
        n < s.len() ==> !is_space(s[n]),
    ensures
        leading_spaces(s) == n,
    decreases s.len(),
{
    if n > 0 {
        let rest = s.drop_first();
        assert forall|j: int| 0 <= j < n - 1 implies is_space(rest[j]) by {
            assert(rest[j] == s[j + 1]);
        }
        if n < s.len() {
            assert(rest[n - 1] == s[n]);
        }
        lemma_leading_spaces(rest, n - 1);
    }
}

/// The white space that `s` ends with is a run of white space that begins
/// behind a character that is none, or at the beginning of `s`.
pub proof fn lemma_trailing_spaces(s: Seq<char>, n: int)
    requires
        0 <= n <= s.len(),
        forall|j: int| s.len() - n <= j < s.len() ==> is_space(s[j]),
        n < s.len() ==> !is_space(s[s.len() - n - 1]),
    ensures
        trailing_spaces(s) == n,
    decreases s.len(),
{
    if n > 0 {
        let rest = s.drop_last();
        assert forall|j: int| rest.len() - (n - 1) <= j < rest.len() implies is_space(rest[j]) by {
            assert(rest[j] == s[j]);
        }
        if n < s.len() {
            assert(rest[rest.len() - (n - 1) - 1] == s[s.len() - n - 1]);
        }
        lemma_trailing_spaces(rest, n - 1);
    }
}

/// The character that writes the digit `d`; that of 9 for any greater
/// number.
pub open spec fn digit_char(d: nat) -> char {
    if d == 0 {
        '0'
    } else if d == 1 {
        '1'
    } else if d == 2 {
        '2'
    } else if d == 3 {
        '3'
    } else if d == 4 {
        '4'
    } else if d == 5 {
        '5'
    } else if d == 6 {
        '6'
    } else if d == 7 {
        '7'
    } else if d == 8 {
        '8'
    } else {
        '9'
    }
}

/// The number `n` written in decimal, without leading zeros.
pub open spec fn decimal(n: nat) -> Seq<char>
    decreases n,
{
    if n < 10 {
        seq![digit_char(n)]
    } else {
        decimal(n / 10).push(digit_char(n % 10))
    }
}

/// The integer `n` written in decimal, with a minus sign where it is
/// negative.
pub open spec fn signed_decimal(n: int) -> Seq<char> {
    if n < 0 {
        seq!['-'] + decimal((-n) as nat)
    } else {
        decimal(n as nat)
    }
}

/// The digits with zeros put before them until they are `width` long.
pub open spec fn zero_padded(digits: Seq<char>, width: nat) -> Seq<char>
    decreases width - digits.len(),
{
    if digits.len() >= width {
        digits
    } else {
        zero_padded(seq!['0'] + digits, width)
    }
}

/// The items one after the other, with `sep` between each two.
pub open spec fn joined(items: Seq<Seq<char>>, sep: Seq<char>) -> Seq<char>
    decreases items.len(),
{
    if items.len() == 0 {
        Seq::empty()
    } else if items.len() == 1 {
        items[0]
    } else {
        joined(items.drop_last(), sep) + sep + items.last()
    }
}

/// Removing `c` from a text that ends in `x` removes it from the text before
/// `x` and keeps `x` unless it is `c`.
pub proof fn lemma_without_char_push(s: Seq<char>, x: char, c: char)
    ensures
        without_char(s.push(x), c) == if x != c {
            without_char(s, c).push(x)
        } else {
            without_char(s, c)
        },
{
    reveal(Seq::filter);
    assert(s.push(x).drop_last() == s);
}

/// The characters of a string, as a vector.
pub fn chars_of(s: &str) -> (v: Vec<char>)
    ensures
        v@ == s@,
{
    let mut v: Vec<char> = Vec::new();
    for c in it: s.chars()
        invariant
            v@ == it.seq().take(it.index()),
            it.seq() == s@,
    {
        v.push(c);
    }
    v
}

/// `String::push`: the string afterwards is the string before with `c`
/// appended.
#[verifier::external_body]
fn push_char(s: &mut String, c: char)
    ensures
        final(s)@ == old(s)@.push(c),
{
    s.push(c)
}

/// The string made of the characters `v[from..to]`.
pub fn string_of_range(v: &Vec<char>, from: usize, to: usize) -> (s: String)
    requires
        from <= to <= v.len(),
    ensures
        s@ == v@.subrange(from as int, to as int),
{
    let mut s = String::new();
    let mut i: usize = from;
    while i < to
        invariant
            from <= i <= to <= v.len(),
            s@ == v@.subrange(from as int, i as int),
        decreases to - i,
    {
        push_char(&mut s, v[i]);
        i += 1;
    }
    s
}

/// The string made of the characters of `v`.
pub fn string_of(v: &Vec<char>) -> (s: String)
    ensures
        s@ == v@,
{
    let s = string_of_range(v, 0, v.len());
    assert(v@.subrange(0, v.len() as int) == v@);
    s
}

/// Whether `needle` occurs in `hay` at position `at`.
pub fn matches_at(hay: &Vec<char>, needle: &Vec<char>, at: usize) -> (r: bool)
    ensures
        r == occurs_at(hay@, needle@, at as int),
{
    if needle.len() > hay.len() || at > hay.len() - needle.len() {
        return false;
    }
    let mut k: usize = 0;
    while k < needle.len()
        invariant
            k <= needle.len(),
            at + needle.len() <= hay.len(),
            forall|j: int| 0 <= j < k ==> hay@[at + j] == needle@[j],
        decreases needle.len() - k,
    {
        if hay[at + k] != needle[k] {
            assert(hay@.subrange(at as int, at + needle.len())[k as int] != needle@[k as int]);
            return false;
        }
        k += 1;
    }
    assert(hay@.subrange(at as int, at + needle.len()) =~= needle@);
    true
}

/// Leftmost occurrence of `needle` in `hay` at or after `from`.
pub fn find_chars_from(hay: &Vec<char>, needle: &Vec<char>, from: usize) -> (r: Option<usize>)
    ensures
        match r {
            Some(at) => find_from(hay@, needle@, from as int) == Some(at as int),
            None => find_from(hay@, needle@, from as int) is None,
        },
{
    if needle.len() > hay.len() || from > hay.len() - needle.len() {
        return None;
    }
    let last: usize = hay.len() - needle.len();
    let mut i: usize = from;
    loop
        invariant
            from <= i <= last,
            last == hay.len() - needle.len(),
            find_from(hay@, needle@, from as int) == find_from(hay@, needle@, i as int),
        decreases last - i,
    {
        if matches_at(hay, needle, i) {
            return Some(i);
        }
        if i == last {
            assert(find_from(hay@, needle@, i + 1) is None);
            return None;
        }
        i += 1;
    }
}

/// Leftmost occurrence of `needle` in `hay`.
pub fn find_chars(hay: &Vec<char>, needle: &Vec<char>) -> (r: Option<usize>)
    ensures
        match r {
            Some(at) => find(hay@, needle@) == Some(at as int),
            None => find(hay@, needle@) is None,
        },
{
    find_chars_from(hay, needle, 0)
}

/// Whether the text `hay` begins with the text `prefix`.
pub fn str_starts_with(hay: &str, prefix: &str) -> (r: bool)
    ensures
        r == starts_with(hay@, prefix@),
{
    let h = chars_of(hay);
    let p = chars_of(prefix);
    matches_at(&h, &p, 0)
}

/// Splits `s` at every occurrence of the separator `sep`.
pub fn split_str(s: &str, sep: &str) -> (pieces: Vec<String>)
    ensures
        pieces.deep_view() == split(s@, sep@),
{
    let text = chars_of(s);
    let mark = chars_of(sep);
    let mut pieces: Vec<String> = Vec::new();
    let mut from: usize = 0;
    if mark.len() == 0 {
        pieces.push(string_of(&text));
        assert(pieces.deep_view() =~= seq![text@]);
        assert(text@.subrange(0, text@.len() as int) == text@);
        return pieces;
    }
    loop
        invariant
            from <= text.len(),
            mark@.len() > 0,
            text@ == s@,
            mark@ == sep@,
            split(s@, sep@) == pieces.deep_view() + split_from(text@, mark@, from as int),
        decreases text.len() - from,
    {
        proof {
            lemma_find_from(text@, mark@, from as int);
        }
        match find_chars_from(&text, &mark, from) {
            Some(at) => {
                let piece = string_of_range(&text, from, at);
                let ghost before = pieces.deep_view();
                pieces.push(piece);
                assert(pieces.deep_view() =~= before + seq![text@.subrange(from as int, at as int)]);
                from = at + mark.len();
            },
            None => {
                let piece = string_of_range(&text, from, text.len());
                let ghost before = pieces.deep_view();
                pieces.push(piece);
                assert(pieces.deep_view() =~= before + seq![
                    text@.subrange(from as int, text.len() as int),
                ]);
                return pieces;
            },
        }
    }
}

/// `s` with every occurrence of the character `c` removed.
pub fn remove_char(s: &str, c: char) -> (r: String)
    ensures
        r@ == without_char(s@, c),
{
    let text = chars_of(s);
    let mut r = String::new();
    let mut i: usize = 0;
    while i < text.len()
        invariant
            i <= text.len(),
            r@ == without_char(text@.take(i as int), c),
        decreases text.len() - i,
    {
        proof {
            assert(text@.take(i + 1) == text@.take(i as int).push(text@[i as int]));
            lemma_without_char_push(text@.take(i as int), text@[i as int], c);
        }
        if text[i] != c {
            push_char(&mut r, text[i]);
        }
        i += 1;
    }
    assert(text@.take(text.len() as int) == text@);
    r
}

/// `str::to_lowercase`: the result is the lowercase form of the argument.
/// Nothing is claimed of what that form is.
#[verifier::external_body]
fn to_lowercase(s: &str) -> (r: String)
    ensures
        r@ == lowercase(s@),
{
    s.to_lowercase()
}

/// The lowercase characters of a text.
pub fn lowercase_chars(s: &str) -> (v: Vec<char>)
    ensures
        v@ == lowercase(s@),
{
    let lower = to_lowercase(s);
    chars_of(lower.as_str())
}

/// Whether `hay` contains `needle` when letter case is ignored.
pub fn str_contains_ignoring_case(hay: &str, needle: &str) -> (r: bool)
    ensures
        r == contains_ignoring_case(hay@, needle@),
{
    let h = lowercase_chars(hay);
    let n = lowercase_chars(needle);
    proof {
        lemma_find_contains(h@, n@);
    }
    find_chars(&h, &n).is_some()
}

/// Whether two texts are the same when letter case is ignored.
pub fn str_eq_ignoring_case(a: &str, b: &str) -> (r: bool)
    ensures
        r == equal_ignoring_case(a@, b@),
{
    let x = to_lowercase(a);
    let y = to_lowercase(b);
    x == y
}

/// Whether the character is white space.
pub fn is_space_char(c: char) -> (r: bool)
    ensures
        r == is_space(c),
{
    let code: u32 = c as u32;
    (0x09 <= code && code <= 0x0d) || code == 0x20 || code == 0x85 || code == 0xa0 || code
        == 0x1680 || (0x2000 <= code && code <= 0x200a) || code == 0x2028 || code == 0x2029
        || code == 0x202f || code == 0x205f || code == 0x3000
}

/// The text without the white space at its beginning and at its end.
pub fn trim(s: &str) -> (r: String)
    ensures
        r@ == trimmed(s@),
{
    let text = chars_of(s);
    let mut from: usize = 0;
    while from < text.len() && is_space_char(text[from])
        invariant
            from <= text.len(),
            forall|j: int| 0 <= j < from ==> is_space(text@[j]),
        decreases text.len() - from,
    {
        from += 1;
    }
    proof {
        lemma_leading_spaces(text@, from as int);
    }
    if from == text.len() {
        return String::new();
    }
    let mut to: usize = text.len();
    while to > from && is_space_char(text[to - 1])
        invariant
            from <= to <= text.len(),
            forall|j: int| to <= j < text.len() ==> is_space(text@[j]),
        decreases to,
    {
        to -= 1;
    }
    proof {
        assert(!is_space(text@[from as int]));
        lemma_trailing_spaces(text@, text.len() - to);
    }
    string_of_range(&text, from, to)
}

/// The character that writes a digit.
pub fn digit(d: u8) -> (c: char)
    ensures
        c == digit_char(d as nat),
{
    if d == 0 {
        '0'
    } else if d == 1 {
        '1'
    } else if d == 2 {
        '2'
    } else if d == 3 {
        '3'
    } else if d == 4 {
        '4'
    } else if d == 5 {
        '5'
    } else if d == 6 {
        '6'
    } else if d == 7 {
        '7'
    } else if d == 8 {
        '8'
    } else {
        '9'
    }
}

/// Writes a number in decimal.
pub fn write_decimal(n: u64) -> (r: String)
    ensures
        r@ == decimal(n as nat),
{
    let mut digits: Vec<char> = Vec::new();
    let mut rest: u64 = n;
    while rest >= 10
        invariant
            decimal(n as nat) == decimal(rest as nat) + digits@.reverse(),
        decreases rest,
    {
        let d: u8 = (rest % 10) as u8;
        let ghost before = digits@;
        digits.push(digit(d));
        proof {
            assert(digits@.reverse() =~= seq![digit_char(d as nat)] + before.reverse());
            assert(decimal(rest as nat) == decimal((rest / 10) as nat).push(digit_char(d as nat)));
            assert(decimal((rest / 10) as nat).push(digit_char(d as nat)) + before.reverse()
                =~= decimal((rest / 10) as nat) + digits@.reverse());
        }
        rest = rest / 10;
    }
    let ghost before = digits@;
    digits.push(digit(rest as u8));
    proof {
        assert(digits@.reverse() =~= seq![digit_char(rest as nat)] + before.reverse());
    }
    let mut r = String::new();
    let mut i: usize = digits.len();
    while i > 0
        invariant
            i <= digits.len(),
            r@ == digits@.reverse().take(digits.len() - i),
        decreases i,
    {
        i -= 1;
        push_char(&mut r, digits[i]);
        assert(digits@.reverse().take(digits.len() - i) =~= digits@.reverse().take(
            digits.len() - i - 1,
        ).push(digits@[i as int]));
    }
    assert(digits@.reverse().take(digits.len() as int) =~= digits@.reverse());
    r
}

/// Writes an integer in decimal, with a minus sign where it is negative.
pub fn write_signed_decimal(n: i64) -> (r: String)
    ensures
        r@ == signed_decimal(n as int),
{
    if n < 0 {
        let magnitude: u64 = ((-(n + 1)) as u64) + 1;
        let digits = write_decimal(magnitude);
        proof {
            reveal_strlit("-");
            assert("-"@ =~= seq!['-']);
        }
        append("-", digits.as_str())
    } else {
        write_decimal(n as u64)
    }
}

/// Writes a number in decimal, with zeros before it until it is `width`
/// characters long.
pub fn write_zero_padded(n: u64, width: usize) -> (r: String)
    ensures
        r@ == zero_padded(decimal(n as nat), width as nat),
{
    let mut r = write_decimal(n);
    let mut len: usize = r.as_str().unicode_len();
    while len < width
        invariant
            len == r@.len(),
            zero_padded(decimal(n as nat), width as nat) == zero_padded(r@, width as nat),
        decreases width - len,
    {
        proof {
            reveal_strlit("0");
            assert("0"@ =~= seq!['0']);
        }
        r = append("0", r.as_str());
        len += 1;
    }
    r
}

/// Writes the items one after the other, with `sep` between each two.
pub fn join(items: &Vec<String>, sep: &str) -> (r: String)
    ensures
        r@ == joined(items.deep_view(), sep@),
{
    let mut r = String::new();
    let mut i: usize = 0;
    while i < items.len()
        invariant
            i <= items.len(),
            r@ == joined(items.deep_view().take(i as int), sep@),
        decreases items.len() - i,
    {
        proof {
            let next = items.deep_view().take(i + 1);
            assert(next.drop_last() == items.deep_view().take(i as int));
            assert(next.last() == items[i as int]@);
            if i == 0 {
                assert(next[0] == items[0]@);
            }
        }
        if i > 0 {
            r = append(r.as_str(), sep);
            r = append(r.as_str(), items[i].as_str());
        } else {
            r = items[i].clone();
        }
        i += 1;
    }
    assert(items.deep_view().take(items.len() as int) == items.deep_view());
    r
}

/// The concatenation of two texts.
pub fn append(a: &str, b: &str) -> (r: String)
    ensures
        r@ == a@ + b@,
{
    let mut v = chars_of(a);
    let mut w = chars_of(b);
    v.append(&mut w);
    string_of(&v)
}

} // verus!
