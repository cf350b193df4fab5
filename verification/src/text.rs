//! Text as a sequence of characters: building, comparing and cutting strings.
use vstd::prelude::*;
use vstd::string::*;

verus! {

/// `String::push` appends one character.
pub assume_specification[ String::push ](s: &mut String, c: char)
    ensures
        final(s)@ == old(s)@.push(c),
;

/// `==` on `str` compares the characters.
pub assume_specification[ <str as PartialEq>::eq ](a: &str, b: &str) -> (res: bool)
    ensures
        res == (a@ == b@),
;

/// Whether two texts hold the same characters.
pub fn same(a: &str, b: &str) -> (res: bool)
    ensures
        res == (a@ == b@),
{
    *a == *b
}

/// The characters of `s`, in order.
pub fn chars_of(s: &str) -> (res: Vec<char>)
    ensures
        res@ == s@,
{
    let mut out: Vec<char> = Vec::new();
    for c in it: s.chars()
        invariant
            out@ == it.seq().take(it.index() as int),
            it.seq() == s@,
    {
        out.push(c);
    }
    out
}

/// The text that `chars` spells from index `from` up to, and not with, index `to`.
pub fn text_between(chars: &Vec<char>, from: usize, to: usize) -> (res: String)
    requires
        from <= to <= chars@.len(),
    ensures
        res@ == chars@.subrange(from as int, to as int),
{
    let mut out = String::new();
    let mut i: usize = from;
    while i < to
        invariant
            from <= i <= to <= chars@.len(),
            out@ == chars@.subrange(from as int, i as int),
        decreases to - i,
    {
        out.push(chars[i]);
        i += 1;
        assert(chars@.subrange(from as int, i as int) =~= chars@.subrange(from as int, i - 1).push(chars@[i - 1]));
    }
    out
}

/// The views of a list of values.
pub open spec fn views<T: View>(s: Seq<T>) -> Seq<T::V> {
    Seq::new(s.len(), |i: int| s[i]@)
}

/// What a filter keeps: elements of the sequence that pass, and all of those.
pub proof fn filter_keeps<T>(s: Seq<T>, p: spec_fn(T) -> bool, x: T)
    ensures
        s.filter(p).contains(x) <==> s.contains(x) && p(x),
    decreases s.len(),
{
    reveal(Seq::filter);
    if s.len() > 0 {
        let init = s.drop_last();
        filter_keeps(init, p, x);
        assert(s =~= init.push(s.last()));
        assert(s.contains(x) <==> init.contains(x) || x == s.last()) by {
            if init.contains(x) {
                let i = choose|i: int| 0 <= i < init.len() && init[i] == x;
                assert(s[i] == x);
            }
            if s.contains(x) {
                let i = choose|i: int| 0 <= i < s.len() && s[i] == x;
                if i < init.len() {
                    assert(init[i] == x);
                }
            }
        }
        if p(s.last()) {
            let kept = init.filter(p);
            assert(kept.push(s.last()).contains(x) <==> kept.contains(x) || x == s.last()) by {
                if kept.contains(x) {
                    let i = choose|i: int| 0 <= i < kept.len() && kept[i] == x;
                    assert(kept.push(s.last())[i] == x);
                }
                if x == s.last() {
                    assert(kept.push(s.last())[kept.len() as int] == x);
                }
                if kept.push(s.last()).contains(x) {
                    let i = choose|i: int|
                        0 <= i < kept.len() + 1 && kept.push(s.last())[i] == x;
                    if i < kept.len() {
                        assert(kept[i] == x);
                    }
                }
            }
        }
    }
}

/// A filter that every element passes keeps the sequence.
pub proof fn filter_keeps_all<T>(s: Seq<T>, p: spec_fn(T) -> bool)
    requires
        forall|i: int| 0 <= i < s.len() ==> p(#[trigger] s[i]),
    ensures
        s.filter(p) == s,
    decreases s.len(),
{
    reveal(Seq::filter);
    if s.len() > 0 {
        filter_keeps_all(s.drop_last(), p);
        assert(s.drop_last().push(s.last()) =~= s);
        assert(p(s[s.len() - 1]));
    }
}

/// The index of the first `c` in `s`; the length of `s`, if there is none.
pub open spec fn first_index(s: Seq<char>, c: char) -> int
    decreases s.len(),
{
    if s.len() == 0 || s[0] == c {
        0
    } else {
        1 + first_index(s.drop_first(), c)
    }
}

/// What [`first_index`] is.
pub proof fn first_index_spec(s: Seq<char>, c: char)
    ensures
        0 <= first_index(s, c) <= s.len(),
        first_index(s, c) < s.len() ==> s[first_index(s, c)] == c,
        forall|i: int| 0 <= i < first_index(s, c) ==> s[i] != c,
    decreases s.len(),
{
    if s.len() > 0 && s[0] != c {
        first_index_spec(s.drop_first(), c);
        assert forall|i: int| 0 <= i < first_index(s, c) implies s[i] != c by {
            if i > 0 {
                assert(s.drop_first()[i - 1] == s[i]);
            }
        }
    }
}

/// An index that qualifies as the first one is the first one.
pub proof fn first_index_unique(s: Seq<char>, c: char, i: int)
    requires
        0 <= i <= s.len(),
        i < s.len() ==> s[i] == c,
        forall|j: int| 0 <= j < i ==> s[j] != c,
    ensures
        first_index(s, c) == i,
{
    first_index_spec(s, c);
}

/// The index of the first `c` among `chars`; their number, if there is none.
pub fn find_char(chars: &Vec<char>, c: char) -> (res: usize)
    ensures
        res == first_index(chars@, c),
{
    let mut i: usize = 0;
    while i < chars.len()
        invariant
            i <= chars@.len(),
            forall|j: int| 0 <= j < i ==> chars@[j] != c,
        decreases chars.len() - i,
    {
        if chars[i] == c {
            proof {
                first_index_unique(chars@, c, i as int);
            }
            return i;
        }
        i += 1;
    }
    proof {
        first_index_unique(chars@, c, i as int);
    }
    i
}

/// The parts of `s` before and after the first `c`, if there is one.
pub open spec fn split_first(s: Seq<char>, c: char) -> Option<(Seq<char>, Seq<char>)> {
    let i = first_index(s, c);
    if i < s.len() {
        Some((s.subrange(0, i), s.subrange(i + 1, s.len() as int)))
    } else {
        None
    }
}

/// Cuts `s` at the first `c`.
pub fn split_once(s: &str, c: char) -> (res: Option<(String, String)>)
    ensures
        res is Some <==> split_first(s@, c) is Some,
        res is Some ==> ((res->0).0@, (res->0).1@) == split_first(s@, c)->0,
{
    let chars = chars_of(s);
    let i: usize = find_char(&chars, c);
    proof {
        first_index_spec(s@, c);
    }
    if i < chars.len() {
        Some((text_between(&chars, 0, i), text_between(&chars, i + 1, chars.len())))
    } else {
        None
    }
}

/// Whether `s` begins with `prefix`.
pub fn starts_with(s: &str, prefix: &str) -> (res: bool)
    ensures
        res == prefix@.is_prefix_of(s@),
{
    let a = chars_of(s);
    let b = chars_of(prefix);
    if b.len() > a.len() {
        return false;
    }
    let mut i: usize = 0;
    while i < b.len()
        invariant
            i <= b@.len() <= a@.len(),
            a@ == s@,
            b@ == prefix@,
            forall|j: int| 0 <= j < i ==> a@[j] == b@[j],
        decreases b.len() - i,
    {
        if a[i] != b[i] {
            assert(s@.subrange(0, prefix@.len() as int)[i as int] != prefix@[i as int]);
            return false;
        }
        i += 1;
    }
    assert(prefix@ =~= s@.subrange(0, prefix@.len() as int));
    true
}

/// What follows `prefix` in `s`, if `s` begins with it.
pub fn strip_prefix(s: &str, prefix: &str) -> (res: Option<String>)
    ensures
        res is Some <==> prefix@.is_prefix_of(s@),
        res is Some ==> res->0@ == s@.subrange(prefix@.len() as int, s@.len() as int),
        res is Some ==> s@ == prefix@ + res->0@,
{
    if starts_with(s, prefix) {
        let a = chars_of(s);
        let n: usize = chars_of(prefix).len();
        let rest = text_between(&a, n, a.len());
        assert(s@ =~= prefix@ + rest@);
        Some(rest)
    } else {
        None
    }
}

/// What precedes `suffix` in `s`, if `s` ends with it.
pub fn strip_suffix(s: &str, suffix: &str) -> (res: Option<String>)
    ensures
        res is Some <==> suffix@.is_suffix_of(s@),
        res is Some ==> res->0@ == s@.subrange(0, s@.len() - suffix@.len()),
        res is Some ==> s@ == res->0@ + suffix@,
{
    let a = chars_of(s);
    let b = chars_of(suffix);
    if b.len() > a.len() {
        return None;
    }
    let at: usize = a.len() - b.len();
    let tail = text_between(&a, at, a.len());
    if same(tail.as_str(), suffix) {
        let head = text_between(&a, 0, at);
        assert(s@ =~= head@ + suffix@);
        Some(head)
    } else {
        None
    }
}

/// The character with the number `n` has the Unicode property White_Space.
pub open spec fn white_space_number(n: u32) -> bool {
    ||| 9 <= n <= 13
    ||| n == 32
    ||| n == 0x85
    ||| n == 0xA0
    ||| n == 0x1680
    ||| 0x2000 <= n <= 0x200A
    ||| n == 0x2028
    ||| n == 0x2029
    ||| n == 0x202F
    ||| n == 0x205F
    ||| n == 0x3000
}

/// `c` has the Unicode property White_Space.
pub open spec fn white_space(c: char) -> bool {
    white_space_number(c as u32)
}

/// Whether `c` has the Unicode property White_Space.
fn is_white_space(c: char) -> (res: bool)
    ensures
        res == white_space(c),
{
    let n: u32 = c as u32;
    (9 <= n && n <= 13) || n == 32 || n == 0x85 || n == 0xA0 || n == 0x1680 || (0x2000 <= n && n
        <= 0x200A) || n == 0x2028 || n == 0x2029 || n == 0x202F || n == 0x205F || n == 0x3000
}

/// Nothing is left of `s` when white space is trimmed.
pub open spec fn blank(s: Seq<char>) -> bool {
    forall|i: int| 0 <= i < s.len() ==> white_space(#[trigger] s[i])
}

/// Whether nothing is left of `s` when white space is trimmed.
pub fn is_blank(s: &str) -> (res: bool)
    ensures
        res == blank(s@),
{
    let chars = chars_of(s);
    let mut i: usize = 0;
    while i < chars.len()
        invariant
            chars@ == s@,
            i <= chars@.len(),
            forall|j: int| 0 <= j < i ==> white_space(#[trigger] chars@[j]),
        decreases chars.len() - i,
    {
        if !is_white_space(chars[i]) {
            return false;
        }
        i += 1;
    }
    true
}

/// `s` without white space at its start.
pub open spec fn trimmed_start(s: Seq<char>) -> Seq<char>
    decreases s.len(),
{
    if s.len() > 0 && white_space(s[0]) {
        trimmed_start(s.drop_first())
    } else {
        s
    }
}

/// `s` without white space at its end.
pub open spec fn trimmed_end(s: Seq<char>) -> Seq<char>
    decreases s.len(),
{
    if s.len() > 0 && white_space(s.last()) {
        trimmed_end(s.drop_last())
    } else {
        s
    }
}

/// `s` without white space at its start and its end.
pub open spec fn trimmed(s: Seq<char>) -> Seq<char> {
    trimmed_end(trimmed_start(s))
}

/// `s` without white space at its start and its end.
pub fn trim(s: &str) -> (res: String)
    ensures
        res@ == trimmed(s@),
{
    let chars = chars_of(s);
    let n: usize = chars.len();
    let mut from: usize = 0;
    assert(s@.skip(0) =~= s@);
    while from < n && is_white_space(chars[from])
        invariant
            chars@ == s@,
            n == chars@.len(),
            from <= n,
            trimmed_start(s@) == trimmed_start(s@.skip(from as int)),
        decreases n - from,
    {
        assert(s@.skip(from as int).drop_first() =~= s@.skip(from + 1));
        from += 1;
    }
    let ghost rest = s@.skip(from as int);
    assert(trimmed_start(s@) == rest);
    let mut to: usize = n;
    assert(s@.subrange(from as int, n as int) =~= rest);
    while to > from && is_white_space(chars[to - 1])
        invariant
            chars@ == s@,
            n == chars@.len(),
            from <= to <= n,
            trimmed_end(rest) == trimmed_end(s@.subrange(from as int, to as int)),
        decreases to,
    {
        let ghost part = s@.subrange(from as int, to as int);
        assert(part.last() == chars@[to - 1]);
        assert(part.drop_last() =~= s@.subrange(from as int, to - 1));
        to -= 1;
    }
    proof {
        let part = s@.subrange(from as int, to as int);
        if to > from {
            assert(part.last() == chars@[to - 1]);
        }
    }
    text_between(&chars, from, to)
}

/// `std::str::from_utf8`: the text that the bytes encode, if they encode one.
#[verifier::external_body]
pub(crate) fn utf8_text(bytes: &[u8]) -> (res: Option<String>)
    ensures
        res is Some <==> vstd::utf8::valid_utf8(bytes@),
        res is Some ==> vstd::utf8::encode_utf8(res->0@) == bytes@,
{
    match std::str::from_utf8(bytes) {
        Ok(text) => Some(text.to_owned()),
        Err(_) => None,
    }
}

/// `s` in double quotes, with the escapes of `Debug`.
pub uninterp spec fn debug_quoted(s: Seq<char>) -> Seq<char>;

/// `Debug` of `str`: the text in double quotes, with quotes, backslashes and unprintable
/// characters escaped. Stated is that the result depends on the text alone.
#[verifier::external_body]
pub(crate) fn quote_debug(s: &str) -> (res: String)
    ensures
        res@ == debug_quoted(s@),
{
    format!("{:?}", s)
}

/// One of the parts of `s` between the separators `sep` is `part`.
pub open spec fn has_part(s: Seq<char>, sep: char, part: Seq<char>) -> bool
    decreases s.len(),
{
    let i = first_index(s, sep);
    if 0 <= i < s.len() {
        s.subrange(0, i) == part || has_part(s.subrange(i + 1, s.len() as int), sep, part)
    } else {
        s == part
    }
}

/// Whether one of the parts of `s` between the separators `sep` is `part`.
pub fn contains_part(s: &str, sep: char, part: &str) -> (res: bool)
    ensures
        res == has_part(s@, sep, part@),
    decreases s@.len(),
{
    proof {
        first_index_spec(s@, sep);
    }
    match split_once(s, sep) {
        Some((head, rest)) => same(head.as_str(), part) || contains_part(rest.as_str(), sep, part),
        None => same(s, part),
    }
}

/// A letter `a` to `z`.
pub open spec fn lower(c: char) -> bool {
    97 <= c as u32 <= 122
}

/// A letter `A` to `Z`.
pub open spec fn upper(c: char) -> bool {
    65 <= c as u32 <= 90
}

/// A digit `0` to `9`.
pub open spec fn numeral(c: char) -> bool {
    48 <= c as u32 <= 57
}

/// Whether `c` is a letter `a` to `z`.
pub fn is_lower(c: char) -> (res: bool)
    ensures
        res == lower(c),
{
    let n: u32 = c as u32;
    97 <= n && n <= 122
}

/// Whether `c` is a letter `A` to `Z`.
pub fn is_upper(c: char) -> (res: bool)
    ensures
        res == upper(c),
{
    let n: u32 = c as u32;
    65 <= n && n <= 90
}

/// Whether `c` is a digit `0` to `9`.
pub fn is_numeral(c: char) -> (res: bool)
    ensures
        res == numeral(c),
{
    let n: u32 = c as u32;
    48 <= n && n <= 57
}

/// The first text that `f` gives for a place from `i` on.
pub open spec fn first_problem(
    len: int,
    i: int,
    f: spec_fn(int) -> Option<Seq<char>>,
) -> Option<Seq<char>>
    decreases len - i,
{
    if i >= len {
        None
    } else {
        match f(i) {
            Some(text) => Some(text),
            None => first_problem(len, i + 1, f),
        }
    }
}

/// There is a first problem exactly if there is a problem.
pub proof fn first_problem_spec(len: int, i: int, f: spec_fn(int) -> Option<Seq<char>>)
    ensures
        first_problem(len, i, f) is None <==> forall|k: int| i <= k < len ==> #[trigger] f(k) is None,
    decreases len - i,
{
    if i < len {
        first_problem_spec(len, i + 1, f);
        if f(i) is None && first_problem(len, i + 1, f) is None {
            assert forall|k: int| i <= k < len implies #[trigger] f(k) is None by {
                if k > i {
                }
            }
        }
    }
}

/// A copy of a list of texts.
pub fn clone_texts(v: &Vec<String>) -> (res: Vec<String>)
    ensures
        res.deep_view() == v.deep_view(),
{
    let mut out: Vec<String> = Vec::new();
    let mut i: usize = 0;
    while i < v.len()
        invariant
            i <= v@.len(),
            out@.len() == i,
            forall|j: int| 0 <= j < i ==> (#[trigger] out@[j])@ == v@[j]@,
        decreases v.len() - i,
    {
        out.push(v[i].clone());
        i += 1;
    }
    assert(out.deep_view() =~= v.deep_view());
    out
}

/// A copy of a list of pairs of texts.
pub fn clone_pairs(v: &Vec<(String, String)>) -> (res: Vec<(String, String)>)
    ensures
        res.deep_view() == v.deep_view(),
{
    let mut out: Vec<(String, String)> = Vec::new();
    let mut i: usize = 0;
    while i < v.len()
        invariant
            i <= v@.len(),
            out@.len() == i,
            forall|j: int|
                0 <= j < i ==> (#[trigger] out@[j]).0@ == v@[j].0@ && out@[j].1@ == v@[j].1@,
        decreases v.len() - i,
    {
        out.push((v[i].0.clone(), v[i].1.clone()));
        i += 1;
    }
    assert forall|j: int| 0 <= j < v@.len() implies out.deep_view()[j] == v.deep_view()[j] by {
        assert(out@[j].0@ == v@[j].0@);
    }
    assert(out.deep_view() =~= v.deep_view());
    out
}

/// The decimal digit for `d`, which is below ten.
pub open spec fn digit(d: nat) -> char {
    (48 + d) as char
}

/// `n` in decimal, without leading zeros.
pub open spec fn decimal(n: nat) -> Seq<char>
    decreases n,
{
    if n < 10 {
        seq![digit(n)]
    } else {
        decimal(n / 10).push(digit(n % 10))
    }
}

/// Appends `n` in decimal.
pub fn push_decimal(s: &mut String, n: u64)
    ensures
        final(s)@ == old(s)@ + decimal(n as nat),
    decreases n,
{
    if n >= 10 {
        push_decimal(s, n / 10);
    }
    let last: u8 = (n % 10) as u8;
    s.push((48 + last) as char);
    assert(s@ =~= old(s)@ + decimal(n as nat));
}

/// All of `s` are digits.
pub open spec fn all_numerals(s: Seq<char>) -> bool {
    forall|i: int| 0 <= i < s.len() ==> numeral(#[trigger] s[i])
}

/// The number that digits stand for.
pub open spec fn decimal_value(s: Seq<char>) -> nat
    decreases s.len(),
{
    if s.len() == 0 {
        0
    } else {
        10 * decimal_value(s.drop_last()) + ((s.last() as u32 - 48) as nat)
    }
}

/// Digits written for a number are digits, and stand for it.
pub proof fn decimal_reads_back(n: nat)
    ensures
        decimal(n).len() > 0,
        all_numerals(decimal(n)),
        decimal_value(decimal(n)) == n,
    decreases n,
{
    let d = digit(n % 10);
    assert(d as u32 == 48 + n % 10);
    reveal_with_fuel(decimal_value, 2);
    if n >= 10 {
        decimal_reads_back(n / 10);
        let s = decimal(n);
        assert(s.drop_last() =~= decimal(n / 10));
        assert(s.last() == d);
        assert forall|i: int| 0 <= i < s.len() implies numeral(#[trigger] s[i]) by {
            if i < s.len() - 1 {
                assert(s[i] == decimal(n / 10)[i]);
            }
        }
    } else {
        assert(decimal(n).drop_last() =~= Seq::<char>::empty());
        assert(decimal(n).last() == d);
    }
}

/// Different numbers are written differently.
pub proof fn decimal_is_injective(a: nat, b: nat)
    requires
        decimal(a) == decimal(b),
    ensures
        a == b,
{
    decimal_reads_back(a);
    decimal_reads_back(b);
}

/// A text is cut at the first `c`: what comes before has none, and before, `c` and after make up
/// the text. It is not cut exactly if it has no `c`.
pub proof fn cutting_loses_nothing(s: Seq<char>, c: char)
    ensures
        split_first(s, c) is Some <==> s.contains(c),
        split_first(s, c) is Some ==> (split_first(s, c)->0).0 + seq![c] + (split_first(s, c)->0).1
            == s && !(split_first(s, c)->0).0.contains(c),
{
    first_index_spec(s, c);
    let i = first_index(s, c);
    if i < s.len() {
        assert(s.contains(s[i]));
        assert(s.subrange(0, i) + seq![c] + s.subrange(i + 1, s.len() as int) =~= s);
        let head = s.subrange(0, i);
        if head.contains(c) {
            let j = choose|j: int| 0 <= j < head.len() && head[j] == c;
            assert(s[j] == c);
        }
    } else if s.contains(c) {
        let j = choose|j: int| 0 <= j < s.len() && s[j] == c;
        assert(s[j] != c);
    }
}

/// What is trimmed off is white space, before and behind; what is left neither begins nor ends
/// with white space.
pub proof fn trimming_takes_white_space_only(s: Seq<char>)
    ensures
        exists|a: Seq<char>, b: Seq<char>| #[trigger] (a + trimmed(s) + b) == s && blank(a)
            && blank(b),
        trimmed(s).len() > 0 ==> !white_space(trimmed(s)[0]) && !white_space(trimmed(s).last()),
        trimmed(s).len() == 0 <==> blank(s),
{
    let a = trim_start_spec(s);
    let mid = trimmed_start(s);
    let b = trim_end_spec(mid);
    assert(a + trimmed(s) + b =~= s);
    if trimmed(s).len() > 0 {
        assert(mid[0] == trimmed(s)[0]);
    }
    if trimmed(s).len() == 0 {
        assert forall|i: int| 0 <= i < s.len() implies white_space(#[trigger] s[i]) by {
            if i < a.len() {
                assert(s[i] == a[i]);
            } else {
                assert(s[i] == b[i - a.len()]);
            }
        }
    } else {
        assert(s[a.len() as int] == trimmed(s)[0]);
    }
}

/// What is trimmed off at the start.
proof fn trim_start_spec(s: Seq<char>) -> (cut: Seq<char>)
    ensures
        cut + trimmed_start(s) == s,
        blank(cut),
        trimmed_start(s).len() > 0 ==> !white_space(trimmed_start(s)[0]),
    decreases s.len(),
{
    if s.len() > 0 && white_space(s[0]) {
        let rest = trim_start_spec(s.drop_first());
        let cut = seq![s[0]] + rest;
        assert(rest + trimmed_start(s) == s.drop_first());
        assert(s =~= seq![s[0]] + s.drop_first());
        assert(cut + trimmed_start(s) =~= seq![s[0]] + (rest + trimmed_start(s)));
        cut
    } else {
        assert(Seq::<char>::empty() + s =~= s);
        Seq::empty()
    }
}

/// What is trimmed off at the end.
proof fn trim_end_spec(s: Seq<char>) -> (cut: Seq<char>)
    ensures
        trimmed_end(s) + cut == s,
        blank(cut),
        trimmed_end(s).len() > 0 ==> !white_space(trimmed_end(s).last()),
    decreases s.len(),
{
    if s.len() > 0 && white_space(s.last()) {
        let rest = trim_end_spec(s.drop_last());
        let cut = rest.push(s.last());
        assert(trimmed_end(s) + rest == s.drop_last());
        assert(s =~= s.drop_last().push(s.last()));
        assert(trimmed_end(s) + cut =~= (trimmed_end(s) + rest).push(s.last()));
        cut
    } else {
        assert(s + Seq::<char>::empty() =~= s);
        Seq::empty()
    }
}

/// A part stands in `s` from `i` to `j`: between separators or the ends, and without one.
pub open spec fn is_part(s: Seq<char>, sep: char, i: int, j: int) -> bool {
    &&& 0 <= i <= j <= s.len()
    &&& i == 0 || s[i - 1] == sep
    &&& j == s.len() || s[j] == sep
    &&& forall|k: int| i <= k < j ==> #[trigger] s[k] != sep
}

/// A text has a part exactly if that part stands somewhere between separators or the ends.
pub proof fn parts_stand_between_separators(s: Seq<char>, sep: char, part: Seq<char>)
    ensures
        has_part(s, sep, part) <==> exists|i: int, j: int| #[trigger]
            is_part(s, sep, i, j) && s.subrange(i, j) == part,
    decreases s.len(),
{
    first_index_spec(s, sep);
    let n = first_index(s, sep);
    if n < s.len() {
        let rest = s.subrange(n + 1, s.len() as int);
        parts_stand_between_separators(rest, sep, part);
        if s.subrange(0, n) == part {
            assert(is_part(s, sep, 0, n));
        }
        if has_part(rest, sep, part) {
            let (i, j) = choose|i: int, j: int| #[trigger]
                is_part(rest, sep, i, j) && rest.subrange(i, j) == part;
            assert(s.subrange(n + 1 + i, n + 1 + j) =~= part);
            assert forall|k: int| n + 1 + i <= k < n + 1 + j implies #[trigger] s[k] != sep by {
                assert(s[k] == rest[k - n - 1]);
            }
            if i > 0 {
                assert(rest[i - 1] == s[n + i]);
            }
            assert(is_part(s, sep, n + 1 + i, n + 1 + j));
        }
        if exists|i: int, j: int| #[trigger] is_part(s, sep, i, j) && s.subrange(i, j) == part {
            let (i, j) = choose|i: int, j: int| #[trigger]
                is_part(s, sep, i, j) && s.subrange(i, j) == part;
            if i <= n {
                if i > 0 {
                    assert(s[i - 1] != sep);
                }
                if j > n {
                    assert(s[n] != sep);
                }
                if j < n {
                    assert(s[j] != sep);
                }
                assert(j == n);
            } else {
                assert(rest.subrange(i - n - 1, j - n - 1) =~= part);
                assert forall|k: int| i - n - 1 <= k < j - n - 1 implies #[trigger] rest[k] != sep by {
                    assert(rest[k] == s[k + n + 1]);
                }
                if i - n - 1 > 0 {
                    assert(rest[i - n - 2] == s[i - 1]);
                }
                assert(is_part(rest, sep, i - n - 1, j - n - 1));
            }
        }
    } else {
        if s == part {
            assert(s.subrange(0, s.len() as int) =~= s);
            assert(is_part(s, sep, 0, s.len() as int));
        }
        if exists|i: int, j: int| #[trigger] is_part(s, sep, i, j) && s.subrange(i, j) == part {
            let (i, j) = choose|i: int, j: int| #[trigger]
                is_part(s, sep, i, j) && s.subrange(i, j) == part;
            if i > 0 {
                assert(s[i - 1] != sep);
            }
            if j < s.len() {
                assert(s[j] != sep);
            }
            assert(s.subrange(0, s.len() as int) =~= s);
        }
    }
}

/// The first problem is that of the first place that has one.
pub proof fn first_problem_is_the_first(
    len: int,
    from: int,
    i: int,
    f: spec_fn(int) -> Option<Seq<char>>,
)
    requires
        from <= i < len,
        f(i) is Some,
        forall|k: int| from <= k < i ==> #[trigger] f(k) is None,
    ensures
        first_problem(len, from, f) == f(i),
    decreases len - from,
{
    if from < i {
        assert(f(from) is None);
        first_problem_is_the_first(len, from + 1, i, f);
    }
}

/// Letters and digits are those of ASCII, and white space is what Unicode counts as such.
pub proof fn characters_have_their_class(c: char)
    ensures
        lower(c) <==> 'a' <= c && c <= 'z',
        upper(c) <==> 'A' <= c && c <= 'Z',
        numeral(c) <==> '0' <= c && c <= '9',
        white_space(c) <==> seq![
            0x9u32,
            0xA,
            0xB,
            0xC,
            0xD,
            0x20,
            0x85,
            0xA0,
            0x1680,
            0x2000,
            0x2001,
            0x2002,
            0x2003,
            0x2004,
            0x2005,
            0x2006,
            0x2007,
            0x2008,
            0x2009,
            0x200A,
            0x2028,
            0x2029,
            0x202F,
            0x205F,
            0x3000,
        ].contains(c as u32),
{
    let all = seq![
        0x9u32,
        0xA,
        0xB,
        0xC,
        0xD,
        0x20,
        0x85,
        0xA0,
        0x1680,
        0x2000,
        0x2001,
        0x2002,
        0x2003,
        0x2004,
        0x2005,
        0x2006,
        0x2007,
        0x2008,
        0x2009,
        0x200A,
        0x2028,
        0x2029,
        0x202F,
        0x205F,
        0x3000,
    ];
    let n = c as u32;
    if 9 <= n <= 13 {
        assert(all[n - 9] == n);
    } else if 0x2000 <= n <= 0x200A {
        assert(all[n - 0x2000 + 9] == n);
    } else {
        assert(all[5] == 0x20 && all[6] == 0x85 && all[7] == 0xA0 && all[8] == 0x1680);
        assert(all[20] == 0x2028 && all[21] == 0x2029 && all[22] == 0x202F);
        assert(all[23] == 0x205F && all[24] == 0x3000);
    }
}

} // verus!
