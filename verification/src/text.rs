//! Character-level helpers shared by the library: trimming, case folding,
//! lexicographic comparison and number formatting.
use vstd::prelude::*;
use vstd::utf8::{decode_utf8, valid_utf8};

verus! {

/// Collects the characters of a string slice.
pub fn chars_of(s: &str) -> (res: Vec<char>)
    ensures
        res@ == s@,
{
    let mut res: Vec<char> = Vec::new();
    for c in it: s.chars()
        invariant
            res@ == it.seq().take(it.index() as int),
    {
        res.push(c);
    }
    res
}

/// `String::from_iter` on characters: the string of exactly those
/// characters, in order.
#[verifier::external_body]
pub(crate) fn string_from_chars(chars: &Vec<char>) -> (res: String)
    ensures
        res@ == chars@,
{
    String::from_iter(chars.iter())
}

/// The characters for which `char::is_whitespace` holds (Unicode `White_Space`).
pub open spec fn is_whitespace_char(c: char) -> bool {
    let v = c as u32;
    ||| 0x9 <= v <= 0xd
    ||| v == 0x20
    ||| v == 0x85
    ||| v == 0xa0
    ||| v == 0x1680
    ||| 0x2000 <= v <= 0x200a
    ||| v == 0x2028
    ||| v == 0x2029
    ||| v == 0x202f
    ||| v == 0x205f
    ||| v == 0x3000
}

/// `char::is_whitespace`.
pub fn is_whitespace(c: char) -> (res: bool)
    ensures
        res == is_whitespace_char(c),
{
    let v = c as u32;
    (0x9 <= v && v <= 0xd) || v == 0x20 || v == 0x85 || v == 0xa0 || v == 0x1680 || (0x2000 <= v
        && v <= 0x200a) || v == 0x2028 || v == 0x2029 || v == 0x202f || v == 0x205f || v == 0x3000
}

/// A class of characters to strip from the ends of a text.
#[derive(Clone, Copy, PartialEq, Eq, Structural, Debug)]
pub enum CharClass {
    Whitespace,
    Exactly(char),
}

pub open spec fn in_class(class: CharClass, c: char) -> bool {
    match class {
        CharClass::Whitespace => is_whitespace_char(c),
        CharClass::Exactly(d) => c == d,
    }
}

pub fn class_contains(class: CharClass, c: char) -> (res: bool)
    ensures
        res == in_class(class, c),
{
    match class {
        CharClass::Whitespace => is_whitespace(c),
        CharClass::Exactly(d) => c == d,
    }
}

/// `s` without the characters of `class` at its start.
pub open spec fn strip_start(s: Seq<char>, class: CharClass) -> Seq<char>
    decreases s.len(),
{
    if s.len() > 0 && in_class(class, s[0]) {
        strip_start(s.drop_first(), class)
    } else {
        s
    }
}

/// `s` without the characters of `class` at its end.
pub open spec fn strip_end(s: Seq<char>, class: CharClass) -> Seq<char>
    decreases s.len(),
{
    if s.len() > 0 && in_class(class, s.last()) {
        strip_end(s.drop_last(), class)
    } else {
        s
    }
}

/// `s` without the characters of `class` at either end (`str::trim_matches`).
pub open spec fn strip_both(s: Seq<char>, class: CharClass) -> Seq<char> {
    strip_end(strip_start(s, class), class)
}

proof fn lemma_strip_start_step(s: Seq<char>, i: int, class: CharClass)
    requires
        0 <= i < s.len(),
        in_class(class, s[i]),
    ensures
        strip_start(s.subrange(i, s.len() as int), class) == strip_start(
            s.subrange(i + 1, s.len() as int),
            class,
        ),
{
    assert(s.subrange(i, s.len() as int).drop_first() =~= s.subrange(i + 1, s.len() as int));
}

proof fn lemma_strip_end_step(s: Seq<char>, j: int, class: CharClass)
    requires
        0 < j <= s.len(),
        in_class(class, s[j - 1]),
    ensures
        strip_end(s.subrange(0, j), class) == strip_end(s.subrange(0, j - 1), class),
{
    assert(s.subrange(0, j).drop_last() =~= s.subrange(0, j - 1));
}

/// Removes the characters of `class` from both ends.
pub fn trim_class(s: &Vec<char>, class: CharClass) -> (res: Vec<char>)
    ensures
        res@ == strip_both(s@, class),
{
    let n = s.len();
    let mut i: usize = 0;
    assert(s@.subrange(0, n as int) =~= s@);
    while i < n && class_contains(class, s[i])
        invariant
            n == s@.len(),
            i <= n,
            strip_start(s@, class) == strip_start(s@.subrange(i as int, n as int), class),
        decreases n - i,
    {
        proof {
            lemma_strip_start_step(s@, i as int, class);
        }
        i = i + 1;
    }
    let ghost rest = s@.subrange(i as int, n as int);
    assert(rest.subrange(0, n - i) =~= rest);
    let mut j: usize = n;
    while j > i && class_contains(class, s[j - 1])
        invariant
            n == s@.len(),
            i <= j <= n,
            rest == s@.subrange(i as int, n as int),
            strip_end(rest, class) == strip_end(rest.subrange(0, j - i), class),
        decreases j,
    {
        proof {
            assert(rest[j - i - 1] == s@[j - 1]);
            lemma_strip_end_step(rest, (j - i) as int, class);
        }
        j = j - 1;
    }
    let mut res: Vec<char> = Vec::new();
    let mut k: usize = i;
    while k < j
        invariant
            n == s@.len(),
            i <= k <= j <= n,
            res@ == s@.subrange(i as int, k as int),
        decreases j - k,
    {
        res.push(s[k]);
        k = k + 1;
    }
    proof {
        assert(rest.subrange(0, j - i) =~= s@.subrange(i as int, j as int));
        if i < n {
            assert(!in_class(class, rest[0]));
            assert(strip_start(rest, class) == rest);
        } else {
            assert(rest.len() == 0);
        }
        let t = rest.subrange(0, j - i);
        if j > i {
            assert(t.last() == s@[j - 1]);
        }
        assert(strip_end(t, class) == t);
    }
    res
}

/// `str::trim`.
pub open spec fn trim_spec(s: Seq<char>) -> Seq<char> {
    strip_both(s, CharClass::Whitespace)
}

/// `str::trim`, as an owned string.
pub fn trim(s: &str) -> (res: String)
    ensures
        res@ == trim_spec(s@),
{
    let chars = chars_of(s);
    let trimmed = trim_class(&chars, CharClass::Whitespace);
    string_from_chars(&trimmed)
}

/// Whether `prefix` is a prefix of `s`.
pub open spec fn has_prefix(s: Seq<char>, prefix: Seq<char>) -> bool {
    prefix.len() <= s.len() && s.subrange(0, prefix.len() as int) == prefix
}

/// `str::starts_with` on character sequences.
pub fn starts_with(s: &Vec<char>, prefix: &Vec<char>) -> (res: bool)
    ensures
        res == has_prefix(s@, prefix@),
{
    if prefix.len() > s.len() {
        return false;
    }
    let mut i: usize = 0;
    while i < prefix.len()
        invariant
            prefix@.len() <= s@.len(),
            i <= prefix@.len(),
            forall|k: int| 0 <= k < i ==> s@[k] == prefix@[k],
        decreases prefix@.len() - i,
    {
        if s[i] != prefix[i] {
            assert(s@.subrange(0, prefix@.len() as int)[i as int] != prefix@[i as int]);
            return false;
        }
        i = i + 1;
    }
    assert(s@.subrange(0, prefix@.len() as int) =~= prefix@);
    true
}

/// Whether two character sequences are equal.
pub fn chars_equal(a: &Vec<char>, b: &Vec<char>) -> (res: bool)
    ensures
        res == (a@ == b@),
{
    if a.len() != b.len() {
        return false;
    }
    let mut i: usize = 0;
    while i < a.len()
        invariant
            a@.len() == b@.len(),
            i <= a@.len(),
            forall|k: int| 0 <= k < i ==> a@[k] == b@[k],
        decreases a@.len() - i,
    {
        if a[i] != b[i] {
            return false;
        }
        i = i + 1;
    }
    assert(a@ =~= b@);
    true
}

/// Whether two strings are equal.
pub fn str_equal(a: &str, b: &str) -> (res: bool)
    ensures
        res == (a@ == b@),
{
    let x = chars_of(a);
    let y = chars_of(b);
    chars_equal(&x, &y)
}

/// The lowercase mapping of a text, as `str::to_lowercase` computes it
/// from the Unicode case tables.
pub uninterp spec fn lowercase(s: Seq<char>) -> Seq<char>;

/// `str::to_lowercase`. Its result is a function of the text alone, given the
/// name `lowercase`; the Unicode case tables are not restated here.
#[verifier::external_body]
pub(crate) fn to_lowercase(s: &str) -> (res: String)
    ensures
        res@ == lowercase(s@),
{
    s.to_lowercase()
}

/// The uppercase mapping of a text, as `str::to_uppercase` computes it
/// from the Unicode case tables.
pub uninterp spec fn uppercase(s: Seq<char>) -> Seq<char>;

/// `str::to_uppercase`. Its result is a function of the text alone, given
/// the name `uppercase`; the Unicode case tables are not restated here. It
/// maps each character to its uppercase mapping, which `char::to_uppercase`
/// documents as one or more characters, so a text that is not empty stays
/// not empty.
#[verifier::external_body]
pub(crate) fn to_uppercase(s: &str) -> (res: String)
    ensures
        res@ == uppercase(s@),
        s@.len() > 0 ==> res@.len() > 0,
{
    s.to_uppercase()
}

/// Strict lexicographic order of texts by code point, which is the order
/// of `str`'s `Ord` (UTF-8 preserves the code point order).
pub open spec fn text_less(a: Seq<char>, b: Seq<char>) -> bool
    decreases a.len(),
{
    if a.len() == 0 {
        b.len() > 0
    } else if b.len() == 0 {
        false
    } else if a[0] != b[0] {
        a[0] < b[0]
    } else {
        text_less(a.drop_first(), b.drop_first())
    }
}

proof fn lemma_text_less_suffix(a: Seq<char>, b: Seq<char>, i: int)
    requires
        0 <= i <= a.len(),
        i <= b.len(),
        a.subrange(0, i) == b.subrange(0, i),
    ensures
        text_less(a, b) == text_less(a.subrange(i, a.len() as int), b.subrange(i, b.len() as int)),
    decreases i,
{
    if i > 0 {
        assert(a[0] == a.subrange(0, i)[0]);
        assert(b[0] == b.subrange(0, i)[0]);
        assert(a.drop_first().subrange(0, i - 1) =~= a.subrange(0, i).drop_first());
        assert(b.drop_first().subrange(0, i - 1) =~= b.subrange(0, i).drop_first());
        lemma_text_less_suffix(a.drop_first(), b.drop_first(), i - 1);
        assert(a.drop_first().subrange(i - 1, a.len() - 1) =~= a.subrange(i, a.len() as int));
        assert(b.drop_first().subrange(i - 1, b.len() - 1) =~= b.subrange(i, b.len() as int));
    } else {
        assert(a.subrange(0, a.len() as int) =~= a);
        assert(b.subrange(0, b.len() as int) =~= b);
    }
}


/// `text_less` is irreflexive.
pub proof fn lemma_text_less_irreflexive(a: Seq<char>)
    ensures
        !text_less(a, a),
    decreases a.len(),
{
    if a.len() > 0 {
        lemma_text_less_irreflexive(a.drop_first());
    }
}

/// `text_less` is transitive.
pub proof fn lemma_text_less_transitive(a: Seq<char>, b: Seq<char>, c: Seq<char>)
    requires
        text_less(a, b),
        text_less(b, c),
    ensures
        text_less(a, c),
    decreases a.len(),
{
    if a.len() > 0 && b.len() > 0 && c.len() > 0 {
        if a[0] == b[0] && b[0] == c[0] {
            lemma_text_less_transitive(a.drop_first(), b.drop_first(), c.drop_first());
        }
    }
}

/// `text_less` orders any two different texts.
pub proof fn lemma_text_less_total(a: Seq<char>, b: Seq<char>)
    requires
        a != b,
    ensures
        text_less(a, b) || text_less(b, a),
    decreases a.len(),
{
    if a.len() > 0 && b.len() > 0 && a[0] == b[0] {
        if a.drop_first() == b.drop_first() {
            assert(a =~= seq![a[0]] + a.drop_first());
            assert(b =~= seq![b[0]] + b.drop_first());
        }
        lemma_text_less_total(a.drop_first(), b.drop_first());
    } else if a.len() == 0 && b.len() == 0 {
        assert(a =~= b);
    }
}

/// Compares two texts: -1 when `a` sorts first, 0 when equal, 1 otherwise.
pub fn compare_chars(a: &Vec<char>, b: &Vec<char>) -> (res: i8)
    ensures
        res == -1 <==> text_less(a@, b@),
        res == 0 <==> a@ == b@,
        res == 1 <==> text_less(b@, a@),
        -1 <= res <= 1,
{
    let mut i: usize = 0;
    while i < a.len() && i < b.len() && a[i] == b[i]
        invariant
            i <= a@.len(),
            i <= b@.len(),
            a@.subrange(0, i as int) == b@.subrange(0, i as int),
        decreases a@.len() - i,
    {
        assert(a@.subrange(0, i + 1) =~= a@.subrange(0, i as int).push(a@[i as int]));
        assert(b@.subrange(0, i + 1) =~= b@.subrange(0, i as int).push(b@[i as int]));
        i = i + 1;
    }
    proof {
        lemma_text_less_suffix(a@, b@, i as int);
        lemma_text_less_suffix(b@, a@, i as int);
    }
    let ghost ra = a@.subrange(i as int, a@.len() as int);
    let ghost rb = b@.subrange(i as int, b@.len() as int);
    assert(text_less(a@, b@) == text_less(ra, rb));
    assert(text_less(b@, a@) == text_less(rb, ra));
    if i == a.len() && i == b.len() {
        assert(a@ =~= a@.subrange(0, i as int));
        assert(b@ =~= b@.subrange(0, i as int));
        assert(ra.len() == 0 && rb.len() == 0);
        0
    } else if i == a.len() {
        assert(ra.len() == 0 && rb.len() > 0);
        assert(a@ != b@);
        -1
    } else if i == b.len() {
        assert(rb.len() == 0 && ra.len() > 0);
        assert(a@ != b@);
        1
    } else {
        assert(ra[0] == a@[i as int] && rb[0] == b@[i as int]);
        assert(a@[i as int] != b@[i as int]);
        assert(a@ != b@);
        if a[i] < b[i] {
            assert(text_less(ra, rb));
            assert(!text_less(rb, ra));
            -1
        } else {
            assert(!text_less(ra, rb));
            assert(text_less(rb, ra));
            1
        }
    }
}

/// The digit character for a value below sixteen (lowercase hexadecimal).
pub open spec fn digit_char(d: nat) -> char {
    if d < 10 {
        ((48 + d) as u32) as char
    } else {
        ((87 + d) as u32) as char
    }
}

pub fn digit(d: u64) -> (c: char)
    requires
        d < 16,
    ensures
        c == digit_char(d as nat),
{
    match d {
        0 => '0',
        1 => '1',
        2 => '2',
        3 => '3',
        4 => '4',
        5 => '5',
        6 => '6',
        7 => '7',
        8 => '8',
        9 => '9',
        10 => 'a',
        11 => 'b',
        12 => 'c',
        13 => 'd',
        14 => 'e',
        _ => 'f',
    }
}

/// The digits of `n` in base `radix` without leading zeros, as `{}` and
/// `{:x}` format an unsigned integer.
pub open spec fn radix_digits(n: nat, radix: nat) -> Seq<char>
    recommends
        2 <= radix <= 16,
    decreases n,
{
    if radix < 2 || n < radix {
        seq![digit_char(n)]
    } else {
        proof {
            assert(n / radix < n) by (nonlinear_arith)
                requires
                    radix >= 2,
                    n >= radix,
            ;
        }
        radix_digits(n / radix, radix).push(digit_char(n % radix))
    }
}

/// Appends the base-`radix` digits of `n` to `out`.
pub fn push_digits(n: u64, radix: u64, out: &mut Vec<char>)
    requires
        2 <= radix <= 16,
    ensures
        final(out)@ == old(out)@ + radix_digits(n as nat, radix as nat),
    decreases n,
{
    if n >= radix {
        assert(n / radix < n) by (nonlinear_arith)
            requires
                radix >= 2,
                n >= radix,
        ;
        push_digits(n / radix, radix, out);
    }
    out.push(digit(n % radix));
    proof {
        if n < radix {
            assert(n % radix == n) by (nonlinear_arith)
                requires
                    n < radix,
            ;
        }
    }
}

/// `format!("{}", n)`.
pub fn decimal(n: u64) -> (res: Vec<char>)
    ensures
        res@ == radix_digits(n as nat, 10),
{
    let mut out: Vec<char> = Vec::new();
    push_digits(n, 10, &mut out);
    assert(out@ =~= radix_digits(n as nat, 10));
    out
}

/// `format!("{:x}", n)`.
pub fn lower_hex(n: u64) -> (res: Vec<char>)
    ensures
        res@ == radix_digits(n as nat, 16),
{
    let mut out: Vec<char> = Vec::new();
    push_digits(n, 16, &mut out);
    assert(out@ =~= radix_digits(n as nat, 16));
    out
}

/// Appends all of `src` to `dst`.
pub fn extend_chars(dst: &mut Vec<char>, src: &Vec<char>)
    ensures
        final(dst)@ == old(dst)@ + src@,
{
    let mut i: usize = 0;
    while i < src.len()
        invariant
            i <= src@.len(),
            dst@ == old(dst)@ + src@.subrange(0, i as int),
        decreases src@.len() - i,
    {
        dst.push(src[i]);
        i = i + 1;
        assert(src@.subrange(0, i as int) =~= src@.subrange(0, i - 1).push(src@[i - 1]));
    }
    assert(src@.subrange(0, src@.len() as int) =~= src@);
}

/// Appends the characters of a string to `dst`.
pub fn extend_str(dst: &mut Vec<char>, src: &str)
    ensures
        final(dst)@ == old(dst)@ + src@,
{
    let chars = chars_of(src);
    extend_chars(dst, &chars);
}

} // verus!

verus! {

/// The index of the first `c` in `s` at or after `from`, or -1.
pub open spec fn index_from(s: Seq<char>, c: char, from: int) -> int
    decreases s.len() - from,
{
    if from < 0 || from >= s.len() {
        -1
    } else if s[from] == c {
        from
    } else {
        index_from(s, c, from + 1)
    }
}

/// One line without its line ending (`\n`, or `\r\n`).
pub open spec fn line_body(piece: Seq<char>) -> Seq<char> {
    if piece.len() > 0 && piece.last() == '\r' {
        piece.drop_last()
    } else {
        piece
    }
}

/// The lines of `s` from position `from` on, as `str::lines` gives them:
/// split after each `\n`, the ending `\n` or `\r\n` removed, and no line
/// for an empty rest.
pub open spec fn lines_from(s: Seq<char>, from: int) -> Seq<Seq<char>>
    decreases s.len() - from,
{
    if from < 0 || from >= s.len() {
        Seq::empty()
    } else {
        let nl = index_from(s, '\n', from);
        if nl < 0 {
            seq![s.subrange(from, s.len() as int)]
        } else {
            proof {
                lemma_index_from(s, '\n', from);
            }
            seq![line_body(s.subrange(from, nl))] + lines_from(s, nl + 1)
        }
    }
}

/// `str::lines`.
pub open spec fn lines_spec(s: Seq<char>) -> Seq<Seq<char>> {
    lines_from(s, 0)
}

pub proof fn lemma_index_from(s: Seq<char>, c: char, from: int)
    requires
        0 <= from,
    ensures
        index_from(s, c, from) == -1 || (from <= index_from(s, c, from) < s.len() && s[index_from(s, c, from)] == c),
        forall|k: int| from <= k < s.len() && (index_from(s, c, from) == -1 || k < index_from(s, c, from)) ==> s[k] != c,
    decreases s.len() - from,
{
    if from < s.len() && s[from] != c {
        lemma_index_from(s, c, from + 1);
    }
}

/// The lines of a text.
pub fn lines(text: &str) -> (res: Vec<String>)
    ensures
        res.deep_view() == lines_spec(text@),
{
    let s = chars_of(text);
    let n = s.len();
    let mut res: Vec<String> = Vec::new();
    let mut from: usize = 0;
    while from < n
        invariant
            n == s@.len(),
            from <= n,
            res.deep_view() + lines_from(s@, from as int) == lines_spec(s@),
        decreases n - from,
    {
        let mut k = from;
        while k < n && s[k] != '\n'
            invariant
                n == s@.len(),
                from <= k <= n,
                index_from(s@, '\n', from as int) == index_from(s@, '\n', k as int),
            decreases n - k,
        {
            k = k + 1;
        }
        let ghost before = res.deep_view();
        if k == n {
            assert(index_from(s@, '\n', from as int) == -1);
            let line = crate::paths::slice_chars(&s, from, n);
            res.push(string_from_chars(&line));
            assert(res.deep_view() =~= before.push(line@));
            assert(lines_from(s@, n as int) =~= Seq::<Seq<char>>::empty());
            assert(before + lines_from(s@, from as int) =~= res.deep_view() + lines_from(
                s@,
                n as int,
            ));
            from = n;
        } else {
            assert(index_from(s@, '\n', from as int) == k);
            let mut end = k;
            if end > from && s[end - 1] == '\r' {
                end = end - 1;
            }
            let line = crate::paths::slice_chars(&s, from, end);
            assert(line@ =~= line_body(s@.subrange(from as int, k as int)));
            res.push(string_from_chars(&line));
            assert(res.deep_view() =~= before.push(line@));
            assert(before + lines_from(s@, from as int) =~= res.deep_view() + lines_from(
                s@,
                k + 1,
            ));
            from = k + 1;
        }
    }
    assert(lines_from(s@, from as int) =~= Seq::<Seq<char>>::empty());
    assert(res.deep_view() + Seq::<Seq<char>>::empty() =~= res.deep_view());
    res
}

/// The text `String::from_utf8_lossy` makes of bytes.
pub uninterp spec fn lossy_utf8(bytes: Seq<u8>) -> Seq<char>;

/// `String::from_utf8`: the text when the bytes are valid UTF-8.
#[verifier::external_body]
pub(crate) fn string_from_utf8(bytes: Vec<u8>) -> (res: Option<String>)
    ensures
        res is Some <==> valid_utf8(bytes@),
        res matches Some(s) ==> s@ == decode_utf8(bytes@),
{
    String::from_utf8(bytes).ok()
}

/// `String::from_utf8_lossy`: invalid sequences become U+FFFD; valid
/// UTF-8 is decoded as it is.
#[verifier::external_body]
pub(crate) fn string_from_utf8_lossy(bytes: &[u8]) -> (res: String)
    ensures
        res@ == lossy_utf8(bytes@),
        valid_utf8(bytes@) ==> res@ == decode_utf8(bytes@),
{
    String::from_utf8_lossy(bytes).into_owned()
}


/// The pieces of `s` from position `from` on between the separators `sep`,
/// as `str::split` gives them: empty pieces included, and one piece after
/// the last separator.
pub open spec fn split_from(s: Seq<char>, sep: char, from: int) -> Seq<Seq<char>>
    decreases s.len() + 1 - from,
{
    if from < 0 || from > s.len() {
        Seq::empty()
    } else {
        let k = index_from(s, sep, from);
        if k < 0 {
            seq![s.subrange(from, s.len() as int)]
        } else {
            proof {
                lemma_index_from(s, sep, from);
            }
            seq![s.subrange(from, k)] + split_from(s, sep, k + 1)
        }
    }
}

/// `str::split` on a character.
pub open spec fn split_spec(s: Seq<char>, sep: char) -> Seq<Seq<char>> {
    split_from(s, sep, 0)
}

/// The pieces of a text between the separators `sep`.
pub fn split(text: &str, sep: char) -> (res: Vec<String>)
    ensures
        res.deep_view() == split_spec(text@, sep),
{
    let s = chars_of(text);
    let n = s.len();
    let mut res: Vec<String> = Vec::new();
    let mut from: usize = 0;
    loop
        invariant
            n == s@.len(),
            s@ == text@,
            from <= n,
            res.deep_view() + split_from(s@, sep, from as int) == split_spec(s@, sep),
        decreases n - from,
    {
        let mut k = from;
        while k < n && s[k] != sep
            invariant
                n == s@.len(),
                from <= k <= n,
                index_from(s@, sep, from as int) == index_from(s@, sep, k as int),
            decreases n - k,
        {
            k = k + 1;
        }
        let ghost before = res.deep_view();
        let piece = crate::paths::slice_chars(&s, from, k);
        res.push(string_from_chars(&piece));
        assert(res.deep_view() =~= before.push(piece@));
        if k == n {
            assert(index_from(s@, sep, from as int) == -1);
            assert(split_from(s@, sep, from as int) =~= seq![piece@]);
            assert(before + split_from(s@, sep, from as int) =~= res.deep_view());
            return res;
        }
        assert(index_from(s@, sep, from as int) == k);
        assert(before + split_from(s@, sep, from as int) =~= res.deep_view() + split_from(
            s@,
            sep,
            k + 1,
        ));
        from = k + 1;
    }
}

/// The first position at or after `from` that is not whitespace, or the
/// length of `s`.
pub open spec fn skip_whitespace(s: Seq<char>, from: int) -> int
    decreases s.len() - from,
{
    if from < 0 || from >= s.len() {
        s.len() as int
    } else if !is_whitespace_char(s[from]) {
        from
    } else {
        skip_whitespace(s, from + 1)
    }
}

/// The first position at or after `from` that is whitespace, or the
/// length of `s`.
pub open spec fn word_end(s: Seq<char>, from: int) -> int
    decreases s.len() - from,
{
    if from < 0 || from >= s.len() {
        s.len() as int
    } else if is_whitespace_char(s[from]) {
        from
    } else {
        word_end(s, from + 1)
    }
}

pub proof fn lemma_skip_whitespace(s: Seq<char>, from: int)
    requires
        0 <= from,
    ensures
        from <= skip_whitespace(s, from) <= s.len() || (from > s.len() && skip_whitespace(s, from)
            == s.len()),
        skip_whitespace(s, from) < s.len() ==> !is_whitespace_char(s[skip_whitespace(s, from)]),
        forall|k: int| from <= k < skip_whitespace(s, from) ==> is_whitespace_char(s[k]),
    decreases s.len() - from,
{
    if from < s.len() && is_whitespace_char(s[from]) {
        lemma_skip_whitespace(s, from + 1);
    }
}

pub proof fn lemma_word_end(s: Seq<char>, from: int)
    requires
        0 <= from <= s.len(),
    ensures
        from <= word_end(s, from) <= s.len(),
        word_end(s, from) < s.len() ==> is_whitespace_char(s[word_end(s, from)]),
        forall|k: int| from <= k < word_end(s, from) ==> !is_whitespace_char(s[k]),
    decreases s.len() - from,
{
    if from < s.len() && !is_whitespace_char(s[from]) {
        lemma_word_end(s, from + 1);
    }
}

/// The words of `s` from position `from` on, as `str::split_whitespace`
/// gives them: the non-empty runs of non-whitespace characters.
pub open spec fn words_from(s: Seq<char>, from: int) -> Seq<Seq<char>>
    decreases s.len() - from,
{
    if from < 0 || from >= s.len() {
        Seq::empty()
    } else {
        let a = skip_whitespace(s, from);
        if a >= s.len() {
            Seq::empty()
        } else {
            let b = word_end(s, a);
            proof {
                lemma_skip_whitespace(s, from);
                lemma_word_end(s, a);
            }
            seq![s.subrange(a, b)] + words_from(s, b)
        }
    }
}

/// `str::split_whitespace`.
pub open spec fn words_spec(s: Seq<char>) -> Seq<Seq<char>> {
    words_from(s, 0)
}

/// The words of a text, split at whitespace.
pub fn words(text: &str) -> (res: Vec<String>)
    ensures
        res.deep_view() == words_spec(text@),
{
    let s = chars_of(text);
    let n = s.len();
    let mut res: Vec<String> = Vec::new();
    let mut from: usize = 0;
    while from < n
        invariant
            n == s@.len(),
            from <= n,
            res.deep_view() + words_from(s@, from as int) == words_spec(s@),
        decreases n - from,
    {
        let mut a = from;
        while a < n && is_whitespace(s[a])
            invariant
                n == s@.len(),
                from <= a <= n,
                skip_whitespace(s@, from as int) == skip_whitespace(s@, a as int),
            decreases n - a,
        {
            a = a + 1;
        }
        if a == n {
            assert(words_from(s@, from as int) =~= Seq::<Seq<char>>::empty());
            assert(words_from(s@, n as int) =~= Seq::<Seq<char>>::empty());
            from = n;
        } else {
            let mut b = a;
            while b < n && !is_whitespace(s[b])
                invariant
                    n == s@.len(),
                    a <= b <= n,
                    word_end(s@, a as int) == word_end(s@, b as int),
                decreases n - b,
            {
                b = b + 1;
            }
            let ghost before = res.deep_view();
            let word = crate::paths::slice_chars(&s, a, b);
            res.push(string_from_chars(&word));
            assert(res.deep_view() =~= before.push(word@));
            assert(before + words_from(s@, from as int) =~= res.deep_view() + words_from(
                s@,
                b as int,
            ));
            from = b;
        }
    }
    assert(words_from(s@, from as int) =~= Seq::<Seq<char>>::empty());
    assert(res.deep_view() + Seq::<Seq<char>>::empty() =~= res.deep_view());
    res
}

/// Whether `pat` occurs in `s` at position `at`.
pub open spec fn occurs_at(s: Seq<char>, pat: Seq<char>, at: int) -> bool {
    0 <= at && at + pat.len() <= s.len() && s.subrange(at, at + pat.len()) == pat
}

/// The first position at or after `from` where `pat` occurs, or -1.
pub open spec fn find_from(s: Seq<char>, pat: Seq<char>, from: int) -> int
    decreases s.len() + 1 - from,
{
    if from < 0 || from + pat.len() > s.len() {
        -1
    } else if occurs_at(s, pat, from) {
        from
    } else {
        find_from(s, pat, from + 1)
    }
}

pub proof fn lemma_find_from(s: Seq<char>, pat: Seq<char>, from: int)
    requires
        0 <= from,
    ensures
        find_from(s, pat, from) == -1 || (from <= find_from(s, pat, from) && occurs_at(
            s,
            pat,
            find_from(s, pat, from),
        )),
    decreases s.len() + 1 - from,
{
    if from + pat.len() <= s.len() && !occurs_at(s, pat, from) {
        lemma_find_from(s, pat, from + 1);
    }
}

fn matches_at(s: &Vec<char>, pat: &Vec<char>, at: usize) -> (res: bool)
    requires
        at + pat@.len() <= s@.len(),
    ensures
        res == occurs_at(s@, pat@, at as int),
{
    let mut i: usize = 0;
    while i < pat.len()
        invariant
            at + pat@.len() <= s@.len(),
            i <= pat@.len(),
            forall|k: int| 0 <= k < i ==> s@[at + k] == pat@[k],
        decreases pat@.len() - i,
    {
        assert(at + i < s.len());
        if s[at + i] != pat[i] {
            assert(s@.subrange(at as int, at + pat@.len())[i as int] != pat@[i as int]);
            return false;
        }
        i = i + 1;
    }
    assert(s@.subrange(at as int, at + pat@.len()) =~= pat@);
    true
}

/// The first position at or after `from` where `pat` occurs in `s`.
pub fn find_chars(s: &Vec<char>, pat: &Vec<char>, from: usize) -> (res: Option<usize>)
    ensures
        match res {
            Some(k) => k as int == find_from(s@, pat@, from as int),
            None => find_from(s@, pat@, from as int) == -1,
        },
{
    if pat.len() > s.len() {
        return None;
    }
    let last = s.len() - pat.len();
    let mut i = from;
    loop
        invariant
            last + pat@.len() == s@.len(),
            from <= i,
            find_from(s@, pat@, from as int) == find_from(s@, pat@, i as int),
        decreases last + 1 - i,
    {
        if i > last {
            return None;
        }
        if matches_at(s, pat, i) {
            return Some(i);
        }
        if i == last {
            assert(find_from(s@, pat@, i + 1) == -1);
            return None;
        }
        i = i + 1;
    }
}

/// `str::split_once` on a text pattern: the text before and after the
/// first occurrence of `pat`.
pub open spec fn split_once_spec(s: Seq<char>, pat: Seq<char>) -> Option<(Seq<char>, Seq<char>)> {
    let k = find_from(s, pat, 0);
    if k < 0 {
        None
    } else {
        Some((s.subrange(0, k), s.subrange(k + pat.len(), s.len() as int)))
    }
}

/// The text before and after the first occurrence of `pat`.
pub fn split_once(text: &str, pat: &str) -> (res: Option<(String, String)>)
    ensures
        match (res, split_once_spec(text@, pat@)) {
            (Some((a, b)), Some((x, y))) => a@ == x && b@ == y,
            (None, None) => true,
            _ => false,
        },
{
    let s = chars_of(text);
    let p = chars_of(pat);
    match find_chars(&s, &p, 0) {
        Some(k) => {
            proof {
                lemma_find_from(s@, p@, 0);
            }
            assert(occurs_at(s@, p@, k as int));
            assert(k + p.len() <= s.len());
            let before = crate::paths::slice_chars(&s, 0, k);
            let after = crate::paths::slice_chars(&s, k + p.len(), s.len());
            Some((string_from_chars(&before), string_from_chars(&after)))
        },
        None => None,
    }
}

/// `str::replace`: every occurrence of `pat` from `from` on, left to right
/// and without overlap, replaced by `with`.
pub open spec fn replace_from(s: Seq<char>, pat: Seq<char>, with: Seq<char>, from: int) -> Seq<char>
    recommends
        pat.len() > 0,
    decreases s.len() + 1 - from,
{
    if from < 0 || from > s.len() || pat.len() == 0 {
        Seq::empty()
    } else {
        let k = find_from(s, pat, from);
        if k < 0 {
            s.subrange(from, s.len() as int)
        } else {
            proof {
                lemma_find_from(s, pat, from);
            }
            s.subrange(from, k) + with + replace_from(s, pat, with, k + pat.len())
        }
    }
}

/// `with` before every character of `s` and after the last: what
/// `str::replace` does with an empty pattern.
pub open spec fn interleaved(s: Seq<char>, with: Seq<char>) -> Seq<char>
    decreases s.len(),
{
    if s.len() == 0 {
        with
    } else {
        interleaved(s.drop_last(), with) + seq![s.last()] + with
    }
}

/// `str::replace`: an empty pattern matches before every character and at
/// the end.
pub open spec fn replace_spec(s: Seq<char>, pat: Seq<char>, with: Seq<char>) -> Seq<char> {
    if pat.len() == 0 {
        interleaved(s, with)
    } else {
        replace_from(s, pat, with, 0)
    }
}

/// `str::replace`.
pub fn replace(text: &str, pat: &str, with: &str) -> (res: String)
    ensures
        res@ == replace_spec(text@, pat@, with@),
{
    if pat.is_empty() {
        let s = chars_of(text);
        let w = chars_of(with);
        let mut out: Vec<char> = Vec::new();
        extend_chars(&mut out, &w);
        let mut i: usize = 0;
        while i < s.len()
            invariant
                i <= s@.len(),
                w@ == with@,
                out@ == interleaved(s@.subrange(0, i as int), with@),
            decreases s@.len() - i,
        {
            assert(s@.subrange(0, i + 1).drop_last() =~= s@.subrange(0, i as int));
            out.push(s[i]);
            extend_chars(&mut out, &w);
            assert(out@ =~= interleaved(s@.subrange(0, i as int), with@) + seq![s@[i as int]] + with@);
            i = i + 1;
        }
        assert(s@.subrange(0, s@.len() as int) =~= s@);
        assert(s@ == text@);
        return string_from_chars(&out);
    }
    replace_nonempty(text, pat, with)
}

fn replace_nonempty(text: &str, pat: &str, with: &str) -> (res: String)
    requires
        pat@.len() > 0,
    ensures
        res@ == replace_from(text@, pat@, with@, 0),
{
    let s = chars_of(text);
    let p = chars_of(pat);
    let w = chars_of(with);
    let n = s.len();
    let mut out: Vec<char> = Vec::new();
    let mut from: usize = 0;
    loop
        invariant
            n == s@.len(),
            s@ == text@,
            p@ == pat@,
            w@ == with@,
            p@.len() > 0,
            from <= n,
            out@ + replace_from(s@, p@, w@, from as int) == replace_from(s@, p@, w@, 0),
        decreases n - from,
    {
        match find_chars(&s, &p, from) {
            Some(k) => {
                proof {
                    lemma_find_from(s@, p@, from as int);
                }
                let ghost before = out@;
                let piece = crate::paths::slice_chars(&s, from, k);
                extend_chars(&mut out, &piece);
                extend_chars(&mut out, &w);
                assert(before + replace_from(s@, p@, w@, from as int) =~= out@ + replace_from(
                    s@,
                    p@,
                    w@,
                    k + p@.len(),
                ));
                from = k + p.len();
            },
            None => {
                let ghost before = out@;
                let piece = crate::paths::slice_chars(&s, from, n);
                extend_chars(&mut out, &piece);
                assert(before + replace_from(s@, p@, w@, from as int) =~= out@);
                return string_from_chars(&out);
            },
        }
    }
}
} // verus!
