//! Text operations over the characters of a string.
use vstd::prelude::*;

verus! {

broadcast use vstd::string::group_string_axioms;

/// The characters that Unicode gives the property White_Space.
pub open spec fn white_space(c: char) -> bool {
    ||| '\u{9}' <= c <= '\u{d}'
    ||| c == '\u{20}'
    ||| c == '\u{85}'
    ||| c == '\u{a0}'
    ||| c == '\u{1680}'
    ||| '\u{2000}' <= c <= '\u{200a}'
    ||| c == '\u{2028}'
    ||| c == '\u{2029}'
    ||| c == '\u{202f}'
    ||| c == '\u{205f}'
    ||| c == '\u{3000}'
}

/// `s` without the white space it begins with.
pub open spec fn trim_start(s: Seq<char>) -> Seq<char>
    decreases s.len(),
{
    if s.len() > 0 && white_space(s.first()) {
        trim_start(s.drop_first())
    } else {
        s
    }
}

/// `s` without the white space it ends with.
pub open spec fn trim_end(s: Seq<char>) -> Seq<char>
    decreases s.len(),
{
    if s.len() > 0 && white_space(s.last()) {
        trim_end(s.drop_last())
    } else {
        s
    }
}

/// `s` without white space at either end.
pub open spec fn trimmed(s: Seq<char>) -> Seq<char> {
    trim_end(trim_start(s))
}

/// `s` without the run of `c` it ends with.
pub open spec fn trimmed_end_of(s: Seq<char>, c: char) -> Seq<char>
    decreases s.len(),
{
    if s.len() > 0 && s.last() == c {
        trimmed_end_of(s.drop_last(), c)
    } else {
        s
    }
}

/// Whether `c` is white space.
pub fn is_white_space(c: char) -> (r: bool)
    ensures
        r == white_space(c),
{
    ('\u{9}' <= c && c <= '\u{d}') || c == '\u{20}' || c == '\u{85}' || c == '\u{a0}' || c
        == '\u{1680}' || ('\u{2000}' <= c && c <= '\u{200a}') || c == '\u{2028}' || c == '\u{2029}'
        || c == '\u{202f}' || c == '\u{205f}' || c == '\u{3000}'
}

/// The characters of `s`, in order.
pub fn chars_of(s: &str) -> (r: Vec<char>)
    ensures
        r@ == s@,
{
    let mut out: Vec<char> = Vec::new();
    for c in it: s.chars()
        invariant
            it.seq() == s@,
            out@ == s@.take(it.index() as int),
    {
        out.push(c);
        assert(out@ =~= s@.take(it.index() + 1));
    }
    assert(s@.take(s@.len() as int) =~= s@);
    out
}

/// Whether two texts hold the same characters.
pub fn same_text(a: &str, b: &str) -> (r: bool)
    ensures
        r == (a@ == b@),
{
    a.to_owned() == b.to_owned()
}

/// `s` without white space at either end.
pub fn trim(s: &str) -> (r: String)
    ensures
        r@ == trimmed(s@),
{
    let cs = chars_of(s);
    let mut from: usize = 0;
    assert(s@.skip(0) =~= s@);
    while from < cs.len() && is_white_space(cs[from])
        invariant
            cs@ == s@,
            from <= cs.len(),
            trim_start(s@) == trim_start(s@.skip(from as int)),
        decreases cs.len() - from,
    {
        assert(s@.skip(from as int).drop_first() =~= s@.skip(from + 1));
        from = from + 1;
    }
    let ghost rest = s@.skip(from as int);
    assert(trim_start(s@) == rest);
    let mut to: usize = cs.len();
    assert(rest.take(to - from) =~= rest);
    while from < to && is_white_space(cs[to - 1])
        invariant
            cs@ == s@,
            from <= to <= cs.len(),
            rest == s@.skip(from as int),
            trim_end(rest) == trim_end(rest.take(to - from)),
        decreases to,
    {
        assert(rest.take(to - from).drop_last() =~= rest.take(to - from - 1));
        to = to - 1;
    }
    assert(rest.take(to - from) =~= s@.subrange(from as int, to as int));
    s.substring_char(from, to).to_owned()
}

/// `s` without the run of `c` it ends with.
pub fn trim_end_of(s: &str, c: char) -> (r: String)
    ensures
        r@ == trimmed_end_of(s@, c),
{
    let cs = chars_of(s);
    let mut to: usize = cs.len();
    assert(s@.take(to as int) =~= s@);
    while 0 < to && cs[to - 1] == c
        invariant
            cs@ == s@,
            to <= cs.len(),
            trimmed_end_of(s@, c) == trimmed_end_of(s@.take(to as int), c),
        decreases to,
    {
        assert(s@.take(to as int).drop_last() =~= s@.take(to - 1));
        to = to - 1;
    }
    assert(s@.take(to as int) =~= s@.subrange(0, to as int));
    s.substring_char(0, to).to_owned()
}

/// Where `c` stands first in `s`, or `s.len()` where it does not occur.
pub open spec fn first_index(s: Seq<char>, c: char) -> int
    decreases s.len(),
{
    if s.len() == 0 || s.first() == c {
        0
    } else {
        1 + first_index(s.drop_first(), c)
    }
}

/// Where `c` stands last in `s`, or `-1` where it does not occur.
pub open spec fn last_index(s: Seq<char>, c: char) -> int
    decreases s.len(),
{
    if s.len() == 0 {
        -1
    } else if s.last() == c {
        s.len() - 1
    } else {
        last_index(s.drop_last(), c)
    }
}

/// `first_index` finds an occurrence with none before it.
pub proof fn lemma_first_index(s: Seq<char>, c: char)
    ensures
        0 <= first_index(s, c) <= s.len(),
        first_index(s, c) < s.len() ==> s[first_index(s, c)] == c,
        forall|i: int| 0 <= i < first_index(s, c) ==> s[i] != c,
        s.contains(c) <==> first_index(s, c) < s.len(),
    decreases s.len(),
{
    if s.len() > 0 && s.first() != c {
        let tail = s.drop_first();
        lemma_first_index(tail, c);
        assert forall|i: int| 0 <= i < first_index(s, c) implies s[i] != c by {
            if i > 0 {
                assert(s[i] == tail[i - 1]);
            }
        }
    }
    if s.contains(c) {
        let k = choose|k: int| 0 <= k < s.len() && s[k] == c;
        assert(first_index(s, c) <= k);
    }
}

/// `last_index` finds an occurrence with none after it.
pub proof fn lemma_last_index(s: Seq<char>, c: char)
    ensures
        -1 <= last_index(s, c) < s.len(),
        last_index(s, c) >= 0 ==> s[last_index(s, c)] == c,
        forall|i: int| last_index(s, c) < i < s.len() ==> s[i] != c,
        s.contains(c) <==> last_index(s, c) >= 0,
    decreases s.len(),
{
    if s.len() > 0 && s.last() != c {
        let init = s.drop_last();
        lemma_last_index(init, c);
        assert forall|i: int| last_index(s, c) < i < s.len() implies s[i] != c by {
            if i < s.len() - 1 {
                assert(s[i] == init[i]);
            }
        }
    }
    if s.contains(c) {
        let k = choose|k: int| 0 <= k < s.len() && s[k] == c;
        assert(last_index(s, c) >= k);
    }
}

/// Where `c` stands first among `cs`, or their number where it does not occur.
pub fn find_char(cs: &Vec<char>, c: char) -> (r: usize)
    ensures
        r == first_index(cs@, c),
{
    let mut i: usize = 0;
    assert(cs@.skip(0) =~= cs@);
    while i < cs.len() && cs[i] != c
        invariant
            i <= cs.len(),
            first_index(cs@, c) == i + first_index(cs@.skip(i as int), c),
        decreases cs.len() - i,
    {
        assert(cs@.skip(i as int).drop_first() =~= cs@.skip(i + 1));
        i = i + 1;
    }
    i
}

/// Whether `c` occurs in `s`.
pub fn has_char(s: &str, c: char) -> (r: bool)
    ensures
        r == s@.contains(c),
{
    let cs = chars_of(s);
    proof {
        lemma_first_index(s@, c);
    }
    find_char(&cs, c) < cs.len()
}

/// The text before the first `c` and the text after it, where `c` occurs.
pub open spec fn split_at_first(s: Seq<char>, c: char) -> Option<(Seq<char>, Seq<char>)> {
    let i = first_index(s, c);
    if i < s.len() {
        Some((s.take(i), s.skip(i + 1)))
    } else {
        None
    }
}

/// The text before the last `c` and the text after it, where `c` occurs.
pub open spec fn split_at_last(s: Seq<char>, c: char) -> Option<(Seq<char>, Seq<char>)> {
    let i = last_index(s, c);
    if i >= 0 {
        Some((s.take(i), s.skip(i + 1)))
    } else {
        None
    }
}

/// The view of a pair of texts.
pub open spec fn pair_view(p: (String, String)) -> (Seq<char>, Seq<char>) {
    (p.0@, p.1@)
}

/// Splits `s` at the first `c`.
pub fn split_once(s: &str, c: char) -> (r: Option<(String, String)>)
    ensures
        match r {
            Some(p) => split_at_first(s@, c) == Some(pair_view(p)),
            None => split_at_first(s@, c) is None,
        },
{
    let cs = chars_of(s);
    let i = find_char(&cs, c);
    if i < cs.len() {
        assert(s@.subrange(0, i as int) =~= s@.take(i as int));
        assert(s@.subrange(i + 1, s@.len() as int) =~= s@.skip(i + 1));
        Some((s.substring_char(0, i).to_owned(), s.substring_char(i + 1, cs.len()).to_owned()))
    } else {
        None
    }
}

/// Splits `s` at the last `c`.
pub fn rsplit_once(s: &str, c: char) -> (r: Option<(String, String)>)
    ensures
        match r {
            Some(p) => split_at_last(s@, c) == Some(pair_view(p)),
            None => split_at_last(s@, c) is None,
        },
{
    let cs = chars_of(s);
    let mut i: usize = cs.len();
    assert(s@.take(i as int) =~= s@);
    while i > 0 && cs[i - 1] != c
        invariant
            cs@ == s@,
            i <= cs.len(),
            last_index(s@, c) == last_index(s@.take(i as int), c),
        decreases i,
    {
        assert(s@.take(i as int).drop_last() =~= s@.take(i - 1));
        i = i - 1;
    }
    if i > 0 {
        assert(s@.subrange(0, i - 1) =~= s@.take(i - 1));
        assert(s@.subrange(i as int, s@.len() as int) =~= s@.skip(i as int));
        Some((s.substring_char(0, i - 1).to_owned(), s.substring_char(i, cs.len()).to_owned()))
    } else {
        None
    }
}

/// The parts of `s` between its occurrences of `c`.
pub open spec fn split_all(s: Seq<char>, c: char) -> Seq<Seq<char>>
    decreases s.len(),
{
    let i = first_index(s, c);
    if 0 <= i < s.len() {
        seq![s.take(i)] + split_all(s.skip(i + 1), c)
    } else {
        seq![s]
    }
}

/// The views of some texts.
pub open spec fn views(texts: Seq<String>) -> Seq<Seq<char>> {
    Seq::new(texts.len(), |i: int| texts[i]@)
}

/// Splits `s` at every `c`.
pub fn split(s: &str, c: char) -> (r: Vec<String>)
    ensures
        views(r@) == split_all(s@, c),
{
    let mut parts: Vec<String> = Vec::new();
    let mut rest: String = s.to_owned();
    assert(views(parts@) + split_all(rest@, c) =~= split_all(s@, c));
    loop
        invariant
            views(parts@) + split_all(rest@, c) == split_all(s@, c),
        decreases rest@.len(),
    {
        let ghost before = parts@;
        let ghost whole = rest@;
        proof {
            lemma_first_index(whole, c);
        }
        match split_once(rest.as_str(), c) {
            Some((head, tail)) => {
                parts.push(head);
                rest = tail;
                assert(views(parts@) =~= views(before).push(head@));
                assert(views(parts@) + split_all(rest@, c) =~= views(before) + split_all(whole, c));
            },
            None => {
                parts.push(rest);
                assert(views(parts@) =~= views(before) + seq![whole]);
                return parts;
            },
        }
    }
}

/// Whether `c` is one of the digits `0` to `9`.
pub open spec fn digit(c: char) -> bool {
    '0' <= c <= '9'
}

/// Whether `s` holds digits only.
pub open spec fn all_digits(s: Seq<char>) -> bool {
    forall|i: int| 0 <= i < s.len() ==> digit(#[trigger] s[i])
}

/// The number that a run of digits writes in base ten.
pub open spec fn decimal(s: Seq<char>) -> int
    decreases s.len(),
{
    if s.len() == 0 {
        0
    } else {
        decimal(s.drop_last()) * 10 + (s.last() as int - '0' as int)
    }
}

/// The number that `s` writes: an optional sign and at least one digit, within the range of `i32`.
pub open spec fn decimal_i32(s: Seq<char>) -> Option<int> {
    let signed = s.len() > 0 && (s[0] == '-' || s[0] == '+');
    let digits = if signed {
        s.drop_first()
    } else {
        s
    };
    let value = if signed && s[0] == '-' {
        -decimal(digits)
    } else {
        decimal(digits)
    };
    if digits.len() > 0 && all_digits(digits) && i32::MIN <= value <= i32::MAX {
        Some(value)
    } else {
        None
    }
}

/// A number is no smaller than what its leading digits write.
proof fn lemma_decimal_grows(s: Seq<char>, i: int)
    requires
        0 <= i <= s.len(),
        all_digits(s),
    ensures
        0 <= decimal(s.take(i)) <= decimal(s),
    decreases s.len() - i, s.len(),
{
    if i == s.len() {
        assert(s.take(i) =~= s);
        if s.len() > 0 {
            lemma_decimal_grows(s.drop_last(), s.len() - 1);
            assert(s.drop_last().take(s.len() - 1) =~= s.drop_last());
        }
    } else {
        lemma_decimal_grows(s, i + 1);
        let longer = s.take(i + 1);
        assert(longer.drop_last() =~= s.take(i));
        lemma_decimal_grows(s.take(i), i);
        assert(s.take(i).take(i) =~= s.take(i));
    }
}

/// Reads `s` as an `i32` in base ten.
pub fn parse_i32(s: &str) -> (r: Option<i32>)
    ensures
        match r {
            Some(n) => decimal_i32(s@) == Some(n as int),
            None => decimal_i32(s@) is None,
        },
{
    let cs = chars_of(s);
    let signed = cs.len() > 0 && (cs[0] == '-' || cs[0] == '+');
    let negative = signed && cs[0] == '-';
    let start: usize = if signed {
        1
    } else {
        0
    };
    let ghost digits = s@.skip(start as int);
    assert(signed ==> s@.drop_first() =~= digits);
    assert(!signed ==> s@ =~= digits);
    if start == cs.len() {
        return None;
    }
    let mut i: usize = start;
    let mut value: i64 = 0;
    let mut large: bool = false;
    assert(digits.take(0) =~= Seq::<char>::empty());
    while i < cs.len()
        invariant
            cs@ == s@,
            start <= i <= cs.len(),
            start <= 1,
            digits == s@.skip(start as int),
            forall|k: int| 0 <= k < i - start ==> digit(#[trigger] digits[k]),
            0 <= value <= 2147483648,
            !large ==> value == decimal(digits.take(i - start)),
            large ==> decimal(digits.take(i - start)) > 2147483648,
            decimal_i32(s@) is Some ==> all_digits(digits),
        decreases cs.len() - i,
    {
        let c = cs[i];
        assert(digits[i - start] == c);
        if !('0' <= c && c <= '9') {
            return None;
        }
        let ghost shorter = digits.take(i - start);
        let ghost longer = digits.take(i + 1 - start);
        assert(longer.drop_last() =~= shorter);
        if !large {
            let next: i64 = value * 10 + (c as u32 as i64 - 48);
            if next > 2147483648 {
                large = true;
            } else {
                value = next;
            }
        }
        i = i + 1;
    }
    assert(digits.take(i - start) =~= digits);
    proof {
        lemma_decimal_grows(digits, 0);
    }
    if large {
        return None;
    }
    if negative {
        Some((-value) as i32)
    } else if value == 2147483648 {
        None
    } else {
        Some(value as i32)
    }
}

/// The order of texts by their characters from the left.
pub open spec fn text_le(a: Seq<char>, b: Seq<char>) -> bool
    decreases a.len(),
{
    if a.len() == 0 {
        true
    } else if b.len() == 0 {
        false
    } else if a.first() == b.first() {
        text_le(a.drop_first(), b.drop_first())
    } else {
        a.first() < b.first()
    }
}

/// Any two texts are ordered one way or the other.
pub proof fn lemma_text_le_total(a: Seq<char>, b: Seq<char>)
    ensures
        text_le(a, b) || text_le(b, a),
    decreases a.len(),
{
    if a.len() > 0 && b.len() > 0 && a.first() == b.first() {
        lemma_text_le_total(a.drop_first(), b.drop_first());
    }
}

/// Texts ordered both ways are the same text.
pub proof fn lemma_text_le_antisymmetric(a: Seq<char>, b: Seq<char>)
    requires
        text_le(a, b),
        text_le(b, a),
    ensures
        a == b,
    decreases a.len(),
{
    if a.len() > 0 && b.len() > 0 {
        lemma_text_le_antisymmetric(a.drop_first(), b.drop_first());
        assert(a =~= seq![a.first()] + a.drop_first());
        assert(b =~= seq![b.first()] + b.drop_first());
    } else {
        assert(a =~= b);
    }
}

/// The order of texts is transitive.
pub proof fn lemma_text_le_transitive(a: Seq<char>, b: Seq<char>, c: Seq<char>)
    requires
        text_le(a, b),
        text_le(b, c),
    ensures
        text_le(a, c),
    decreases a.len(),
{
    if a.len() > 0 && b.len() > 0 && c.len() > 0 && a.first() == b.first() && b.first()
        == c.first() {
        lemma_text_le_transitive(a.drop_first(), b.drop_first(), c.drop_first());
    }
}

/// Whether `a` comes before `b` in the order of texts, or is the same text.
pub fn text_not_after(a: &str, b: &str) -> (r: bool)
    ensures
        r == text_le(a@, b@),
{
    let x = chars_of(a);
    let y = chars_of(b);
    let mut i: usize = 0;
    assert(a@.skip(0) =~= a@);
    assert(b@.skip(0) =~= b@);
    while i < x.len() && i < y.len() && x[i] == y[i]
        invariant
            x@ == a@,
            y@ == b@,
            i <= x.len(),
            i <= y.len(),
            text_le(a@, b@) == text_le(a@.skip(i as int), b@.skip(i as int)),
        decreases x.len() - i,
    {
        assert(a@.skip(i as int).drop_first() =~= a@.skip(i + 1));
        assert(b@.skip(i as int).drop_first() =~= b@.skip(i + 1));
        i = i + 1;
    }
    if i == x.len() {
        true
    } else if i == y.len() {
        false
    } else {
        x[i] < y[i]
    }
}

/// Two texts, one after the other.
pub fn join(a: &str, b: &str) -> (r: String)
    ensures
        r@ == a@ + b@,
{
    let mut out = a.to_owned();
    out.append(b);
    out
}

/// How many bytes a text takes in UTF-8.
pub open spec fn byte_len(s: Seq<char>) -> nat {
    vstd::utf8::encode_utf8(s).len()
}

/// Whether a text takes `n` bytes in UTF-8.
pub fn has_byte_len(s: &str, n: usize) -> (r: bool)
    ensures
        r == (byte_len(s@) == n),
{
    s.as_bytes().len() == n
}

/// The text in the first `n` bytes of `s`, where they end with a character.
pub open spec fn leading_bytes(s: Seq<char>, n: int) -> Option<Seq<char>> {
    let bytes = vstd::utf8::encode_utf8(s);
    if vstd::utf8::is_char_boundary(bytes, n) {
        Some(vstd::utf8::decode_utf8(bytes.subrange(0, n)))
    } else {
        None
    }
}

/// The text in the first `n` bytes of `s`, where they end with a character.
pub fn take_bytes(s: &str, n: usize) -> (r: Option<String>)
    ensures
        match r {
            Some(t) => leading_bytes(s@, n as int) == Some(t@),
            None => leading_bytes(s@, n as int) is None,
        },
{
    if s.is_char_boundary(n) {
        let (head, _) = s.split_at(n);
        proof {
            vstd::utf8::encode_utf8_decode_utf8(head@);
        }
        Some(head.to_owned())
    } else {
        None
    }
}

/// The digit that writes a number below ten.
pub open spec fn digit_of(n: int) -> char {
    (n + '0' as int) as char
}

/// A number in base ten.
pub open spec fn decimal_text(n: int) -> Seq<char>
    decreases n,
{
    if n < 10 {
        seq![digit_of(n)]
    } else {
        decimal_text(n / 10).push(digit_of(n % 10))
    }
}

/// Writes a number in base ten.
pub fn write_decimal(n: usize) -> (r: String)
    ensures
        r@ == decimal_text(n as int),
    decreases n,
{
    let digit = (48u8 + (n % 10) as u8) as char;
    assert(digit == digit_of(n as int % 10));
    if n < 10 {
        let mut out = String::new();
        out.push(digit);
        assert(out@ =~= seq![digit_of(n as int)]);
        out
    } else {
        let mut out = write_decimal(n / 10);
        out.push(digit);
        out
    }
}

/// A number is written in the digits that are read back as that number.
pub proof fn law_decimal_reads_back(n: int)
    requires
        0 <= n,
    ensures
        all_digits(decimal_text(n)),
        decimal_text(n).len() > 0,
        decimal(decimal_text(n)) == n,
    decreases n,
{
    if n < 10 {
        assert(decimal_text(n).drop_last() =~= Seq::<char>::empty());
        reveal_with_fuel(decimal, 2);
    } else {
        law_decimal_reads_back(n / 10);
        assert(decimal_text(n).drop_last() =~= decimal_text(n / 10));
        assert forall|i: int| 0 <= i < decimal_text(n).len() implies digit(
            #[trigger] decimal_text(n)[i],
        ) by {
            if i < decimal_text(n).len() - 1 {
                assert(decimal_text(n)[i] == decimal_text(n / 10)[i]);
            }
        }
    }
}

/// A copy of texts.
pub fn copy_texts(texts: &Vec<String>) -> (r: Vec<String>)
    ensures
        r@ == texts@,
{
    let mut out: Vec<String> = Vec::new();
    let mut i: usize = 0;
    while i < texts.len()
        invariant
            i <= texts.len(),
            out@ == texts@.take(i as int),
        decreases texts.len() - i,
    {
        out.push(texts[i].clone());
        assert(out@ =~= texts@.take(i + 1));
        i = i + 1;
    }
    assert(out@ =~= texts@);
    out
}

// ---------------------------------------------------------------------------------------------
// Laws
// ---------------------------------------------------------------------------------------------

/// Where trimming the start of a text leaves off.
proof fn lemma_trim_start(s: Seq<char>) -> (from: int)
    ensures
        0 <= from <= s.len(),
        trim_start(s) == s.skip(from),
        forall|i: int| 0 <= i < from ==> white_space(#[trigger] s[i]),
        from < s.len() ==> !white_space(s[from]),
    decreases s.len(),
{
    if s.len() > 0 && white_space(s.first()) {
        let rest = s.drop_first();
        let from = lemma_trim_start(rest);
        assert(rest.skip(from) =~= s.skip(from + 1));
        assert forall|i: int| 0 <= i < from + 1 implies white_space(#[trigger] s[i]) by {
            if i > 0 {
                assert(s[i] == rest[i - 1]);
            }
        }
        from + 1
    } else {
        assert(s.skip(0) =~= s);
        0
    }
}

/// Where trimming the end of a text leaves off.
proof fn lemma_trim_end(s: Seq<char>) -> (to: int)
    ensures
        0 <= to <= s.len(),
        trim_end(s) == s.take(to),
        forall|i: int| to <= i < s.len() ==> white_space(#[trigger] s[i]),
        to > 0 ==> !white_space(s[to - 1]),
    decreases s.len(),
{
    if s.len() > 0 && white_space(s.last()) {
        let rest = s.drop_last();
        let to = lemma_trim_end(rest);
        assert(rest.take(to) =~= s.take(to));
        assert forall|i: int| to <= i < s.len() implies white_space(#[trigger] s[i]) by {
            if i < rest.len() {
                assert(s[i] == rest[i]);
            }
        }
        to
    } else {
        assert(s.take(s.len() as int) =~= s);
        s.len() as int
    }
}

/// Trimming drops white space at both ends of a text, all of it, and nothing else.
pub proof fn law_trimming_drops_the_white_space_around(s: Seq<char>) -> (r: (int, int))
    ensures
        0 <= r.0 <= r.1 <= s.len(),
        trimmed(s) == s.subrange(r.0, r.1),
        forall|i: int| 0 <= i < r.0 || r.1 <= i < s.len() ==> white_space(#[trigger] s[i]),
        r.0 < r.1 ==> !white_space(s[r.0]) && !white_space(s[r.1 - 1]),
{
    let from = lemma_trim_start(s);
    let rest = s.skip(from);
    let to = lemma_trim_end(rest);
    assert(rest.take(to) =~= s.subrange(from, from + to));
    assert forall|i: int| 0 <= i < from || from + to <= i < s.len() implies white_space(
        #[trigger] s[i],
    ) by {
        if i >= from {
            assert(s[i] == rest[i - from]);
        }
    }
    if to > 0 {
        assert(rest[0] == s[from]);
        assert(rest[to - 1] == s[from + to - 1]);
    }
    (from, from + to)
}

/// A text that begins and ends with something other than white space is what trimming it gives, and so
/// trimming twice is trimming once.
pub proof fn law_trimmed_text_stays(s: Seq<char>)
    ensures
        s.len() == 0 || (!white_space(s[0]) && !white_space(s.last())) ==> trimmed(s) == s,
        trimmed(trimmed(s)) == trimmed(s),
{
    let r = law_trimming_drops_the_white_space_around(s);
    let t = trimmed(s);
    if t.len() > 0 {
        assert(t[0] == s[r.0] && t.last() == s[r.1 - 1]);
    }
}

/// Dropping a character at the end of a text drops all of its run there, and nothing else.
pub proof fn law_run_at_the_end_is_dropped(s: Seq<char>, c: char)
    ensures
        trimmed_end_of(s, c).len() <= s.len(),
        trimmed_end_of(s, c) == s.take(trimmed_end_of(s, c).len() as int),
        forall|i: int| trimmed_end_of(s, c).len() <= i < s.len() ==> #[trigger] s[i] == c,
        trimmed_end_of(s, c).len() > 0 ==> trimmed_end_of(s, c).last() != c,
    decreases s.len(),
{
    if s.len() > 0 && s.last() == c {
        let rest = s.drop_last();
        law_run_at_the_end_is_dropped(rest, c);
        let n = trimmed_end_of(rest, c).len() as int;
        assert(rest.take(n) =~= s.take(n));
        assert forall|i: int| n <= i < s.len() implies #[trigger] s[i] == c by {
            if i < rest.len() {
                assert(s[i] == rest[i]);
            }
        }
    } else {
        assert(s.take(s.len() as int) =~= s);
    }
}

/// A text is split at a character exactly where it has it: the parts and the character between them
/// make up the text, and the first part, or the last, has none of it.
pub proof fn law_parts_make_up_the_text(s: Seq<char>, c: char)
    ensures
        split_at_first(s, c) is Some <==> s.contains(c),
        split_at_last(s, c) is Some <==> s.contains(c),
        split_at_first(s, c) matches Some((a, b)) ==> s == a + seq![c] + b && !a.contains(c),
        split_at_last(s, c) matches Some((a, b)) ==> s == a + seq![c] + b && !b.contains(c),
{
    lemma_first_index(s, c);
    lemma_last_index(s, c);
    if let Some((a, b)) = split_at_first(s, c) {
        assert(s =~= a + seq![c] + b);
        let i = first_index(s, c);
        if a.contains(c) {
            let k = choose|k: int| 0 <= k < a.len() && a[k] == c;
            assert(s[k] == c);
        }
    }
    if let Some((a, b)) = split_at_last(s, c) {
        assert(s =~= a + seq![c] + b);
        let i = last_index(s, c);
        if b.contains(c) {
            let k = choose|k: int| 0 <= k < b.len() && b[k] == c;
            assert(s[i + 1 + k] == c);
        }
    }
}

/// Two texts with a character between them are split into the parts of the one and the parts of the
/// other; and a text without the character is its own only part.
pub proof fn law_joined_texts_split_apart(a: Seq<char>, b: Seq<char>, c: char)
    ensures
        split_all(a + seq![c] + b, c) == split_all(a, c) + split_all(b, c),
        !a.contains(c) ==> split_all(a, c) == seq![a],
    decreases a.len(),
{
    let whole = a + seq![c] + b;
    lemma_first_index(a, c);
    lemma_first_index(whole, c);
    let i = first_index(a, c);
    assert(whole[a.len() as int] == c);
    assert(whole.contains(c));
    let w = first_index(whole, c);
    if i < a.len() {
        assert(whole[i] == a[i]);
        assert(w <= i);
        assert(whole[w] == a[w]);
        assert(w == i);
        let rest = a.skip(i + 1);
        assert(whole.take(w) =~= a.take(i));
        assert(whole.skip(w + 1) =~= rest + seq![c] + b);
        law_joined_texts_split_apart(rest, b, c);
        assert(seq![a.take(i)] + (split_all(rest, c) + split_all(b, c)) =~= (seq![a.take(i)]
            + split_all(rest, c)) + split_all(b, c));
    } else {
        assert(w <= a.len());
        if w < a.len() {
            assert(whole[w] == a[w]);
        }
        assert(whole.take(w) =~= a);
        assert(whole.skip(w + 1) =~= b);
        assert(split_all(a, c) =~= seq![a]);
        assert(split_all(whole, c) =~= seq![a] + split_all(b, c));
    }
}

/// Texts are ordered as in a dictionary: what begins with a text does not come before it, and of two
/// texts that first differ in a character the one with the smaller character comes first.
pub proof fn law_texts_are_in_dictionary_order(
    a: Seq<char>,
    x: char,
    y: char,
    b: Seq<char>,
    c: Seq<char>,
)
    requires
        x < y,
    ensures
        text_le(a, a + b),
        text_le(a + seq![x] + b, a + seq![y] + c),
        !text_le(a + seq![y] + c, a + seq![x] + b),
    decreases a.len(),
{
    let left = a + seq![x] + b;
    let right = a + seq![y] + c;
    if a.len() > 0 {
        let rest = a.drop_first();
        law_texts_are_in_dictionary_order(rest, x, y, b, c);
        assert((a + b).drop_first() =~= rest + b);
        assert(left.drop_first() =~= rest + seq![x] + b);
        assert(right.drop_first() =~= rest + seq![y] + c);
        assert((a + b).first() == a.first());
        assert(left.first() == a.first() && right.first() == a.first());
    } else {
        assert(left.first() == x && right.first() == y);
    }
}

/// A number is read from its digits, with or without a sign before them, as far as it fits.
pub proof fn law_signed_numbers_are_read(n: int)
    requires
        0 <= n,
    ensures
        decimal_i32(decimal_text(n)) == (if n <= 2147483647 {
            Some(n)
        } else {
            None
        }),
        decimal_i32(seq!['+'] + decimal_text(n)) == decimal_i32(decimal_text(n)),
        decimal_i32(seq!['-'] + decimal_text(n)) == (if n <= 2147483648 {
            Some(-n)
        } else {
            None
        }),
{
    law_decimal_reads_back(n);
    let digits = decimal_text(n);
    assert(digit(digits[0]));
    assert((seq!['+'] + digits).drop_first() =~= digits);
    assert((seq!['-'] + digits).drop_first() =~= digits);
}

/// What holds a character that is no digit, behind a sign or not, is no number.
pub proof fn law_other_texts_are_no_numbers(s: Seq<char>, i: int)
    requires
        0 <= i < s.len(),
        !digit(s[i]),
        i > 0 || (s[0] != '+' && s[0] != '-'),
    ensures
        decimal_i32(s) is None,
{
    if s[0] == '+' || s[0] == '-' {
        assert(s.drop_first()[i - 1] == s[i]);
    }
}

/// Of a text of ASCII characters the first bytes are the first characters.
pub proof fn law_leading_bytes_of_ascii(s: Seq<char>, n: int)
    requires
        vstd::utf8::is_ascii_chars(s),
        0 <= n <= s.len(),
    ensures
        byte_len(s) == s.len(),
        leading_bytes(s, n) == Some(s.take(n)),
{
    let bytes = vstd::utf8::encode_utf8(s);
    let head = s.take(n);
    let tail = s.skip(n);
    vstd::utf8::is_ascii_chars_encode_utf8(s);
    vstd::utf8::is_ascii_chars_encode_utf8(head);
    vstd::utf8::encode_utf8_valid_utf8(s);
    vstd::utf8::encode_utf8_decode_utf8(head);
    assert(bytes.subrange(0, n) =~= vstd::utf8::encode_utf8(head));
    if n == 0 || n == s.len() {
        vstd::utf8::is_char_boundary_start_end_of_seq(bytes);
    } else {
        vstd::utf8::is_char_boundary_iff_not_is_continuation_byte(bytes, n);
        vstd::utf8::utf8_byte_ranges_bitwise(bytes[n]);
    }
}

} // verus!
