//! Text as a sequence of characters: the string operations that routing is made of, each with the
//! mathematical function that it computes.

use vstd::prelude::*;
use vstd::string::*;

verus! {

/// The smallest magnitude that no `i64` reaches on the positive side.
pub const I64_LIMIT: u64 = 9223372036854775808;

// ---------------------------------------------------------------------------------------------
// Between strings and characters
// ---------------------------------------------------------------------------------------------

/// `String::push` appends the given character to the end of the string.
pub assume_specification[ String::push ](s: &mut String, c: char)
    ensures
        final(s)@ == old(s)@.push(c),
;

/// What each string of a list spells.
pub open spec fn texts(list: Seq<String>) -> Seq<Seq<char>> {
    Seq::new(list.len(), |i: int| list[i]@)
}

/// What an optional string spells.
pub open spec fn optional_text(text: Option<String>) -> Option<Seq<char>> {
    match text {
        Some(t) => Some(t@),
        None => None,
    }
}

/// What an optional borrowed string spells.
pub open spec fn optional_str(text: Option<&str>) -> Option<Seq<char>> {
    match text {
        Some(t) => Some(t@),
        None => None,
    }
}

/// The characters of a string, in order.
pub fn chars_of(s: &str) -> (v: Vec<char>)
    ensures
        v@ == s@,
{
    let mut v: Vec<char> = Vec::new();
    for c in it: s.chars()
        invariant
            it.seq() == s@,
            v@ == s@.take(it.index() as int),
    {
        v.push(c);
        assert(v@ =~= s@.take(it.index() + 1));
    }
    assert(s@.take(s@.len() as int) =~= s@);
    v
}

/// The string that the characters `from..to` spell.
pub fn text_of(v: &Vec<char>, from: usize, to: usize) -> (s: String)
    requires
        from <= to <= v.len(),
    ensures
        s@ == v@.subrange(from as int, to as int),
{
    let mut s = String::new();
    for i in from..to
        invariant
            from <= to <= v.len(),
            s@ == v@.subrange(from as int, i as int),
    {
        s.push(v[i]);
        assert(s@ =~= v@.subrange(from as int, i + 1));
    }
    s
}

/// Whether two strings spell the same text.
pub fn same_text(a: &str, b: &str) -> (r: bool)
    ensures
        r == (a@ == b@),
{
    a.to_owned() == b.to_owned()
}

/// Whether a list of strings holds a text.
pub fn list_contains(list: &[String], text: &str) -> (r: bool)
    ensures
        r == texts(list@).contains(text@),
{
    for i in 0..list.len()
        invariant
            forall|j: int| 0 <= j < i ==> texts(list@)[j] != text@,
    {
        if same_text(list[i].as_str(), text) {
            assert(texts(list@)[i as int] == text@);
            return true;
        }
    }
    false
}

/// A copy of a list of strings.
pub fn copy_list(list: &[String]) -> (r: Vec<String>)
    ensures
        texts(r@) == texts(list@),
{
    let mut r: Vec<String> = Vec::new();
    for i in 0..list.len()
        invariant
            texts(r@) == texts(list@).take(i as int),
    {
        let ghost before = texts(r@);
        r.push(list[i].clone());
        assert(texts(r@) =~= before.push(list@[i as int]@));
        assert(texts(r@) =~= texts(list@).take(i + 1));
    }
    assert(texts(list@).take(list@.len() as int) =~= texts(list@));
    r
}

// ---------------------------------------------------------------------------------------------
// White space and words
// ---------------------------------------------------------------------------------------------

/// The characters with the Unicode property White_Space.
pub open spec fn white(c: char) -> bool {
    let n = c as u32;
    ||| 0x09 <= n <= 0x0d
    ||| n == 0x20
    ||| n == 0x85
    ||| n == 0xa0
    ||| n == 0x1680
    ||| 0x2000 <= n <= 0x200a
    ||| n == 0x2028
    ||| n == 0x2029
    ||| n == 0x202f
    ||| n == 0x205f
    ||| n == 0x3000
}

/// Whether a character is white space.
pub fn is_white(c: char) -> (r: bool)
    ensures
        r == white(c),
{
    let n: u32 = c as u32;
    (0x09 <= n && n <= 0x0d) || n == 0x20 || n == 0x85 || n == 0xa0 || n == 0x1680
        || (0x2000 <= n && n <= 0x200a) || n == 0x2028 || n == 0x2029 || n == 0x202f
        || n == 0x205f || n == 0x3000
}

/// A text without its leading white space.
pub open spec fn skip_white(s: Seq<char>) -> Seq<char>
    decreases s.len(),
{
    if s.len() > 0 && white(s[0]) {
        skip_white(s.skip(1))
    } else {
        s
    }
}

/// A text without its trailing white space.
pub open spec fn drop_white(s: Seq<char>) -> Seq<char>
    decreases s.len(),
{
    if s.len() > 0 && white(s.last()) {
        drop_white(s.drop_last())
    } else {
        s
    }
}

/// A text without white space at either end.
pub open spec fn trimmed(s: Seq<char>) -> Seq<char> {
    drop_white(skip_white(s))
}

/// The number of characters before the first white space.
pub open spec fn word_len(s: Seq<char>) -> nat
    decreases s.len(),
{
    if s.len() == 0 || white(s[0]) {
        0
    } else {
        1 + word_len(s.skip(1))
    }
}

/// The maximal runs of characters that are not white space, in order.
pub open spec fn words(s: Seq<char>) -> Seq<Seq<char>>
    decreases s.len(),
{
    if s.len() == 0 {
        Seq::empty()
    } else if white(s[0]) {
        words(s.skip(1))
    } else {
        proof {
            lemma_word_len(s);
        }
        seq![s.take(word_len(s) as int)] + words(s.skip(word_len(s) as int))
    }
}

/// A word is no longer than the text that it begins.
pub proof fn lemma_word_len(s: Seq<char>)
    ensures
        word_len(s) <= s.len(),
    decreases s.len(),
{
    if s.len() > 0 && !white(s[0]) {
        lemma_word_len(s.skip(1));
    }
}

/// Where a word ends does not depend on what follows the white space after it.
proof fn lemma_word_len_before_white(a: Seq<char>, c: char, b: Seq<char>)
    requires
        white(c),
    ensures
        word_len(a + seq![c] + b) == word_len(a),
    decreases a.len(),
{
    let whole = a + seq![c] + b;
    if a.len() == 0 {
        assert(whole[0] == c);
    } else {
        assert(whole[0] == a[0]);
        assert(whole.skip(1) =~= a.skip(1) + seq![c] + b);
        lemma_word_len_before_white(a.skip(1), c, b);
    }
}

/// The words of two texts with white space between them are the words of the one, then those of the
/// other.
pub proof fn law_words_are_split_by_white_space(a: Seq<char>, c: char, b: Seq<char>)
    requires
        white(c),
    ensures
        words(a + seq![c] + b) == words(a) + words(b),
    decreases a.len(),
{
    let whole = a + seq![c] + b;
    if a.len() == 0 {
        assert(whole[0] == c);
        assert(whole.skip(1) =~= b);
        assert(words(a) + words(b) =~= words(b));
    } else if white(a[0]) {
        assert(whole[0] == a[0]);
        assert(whole.skip(1) =~= a.skip(1) + seq![c] + b);
        law_words_are_split_by_white_space(a.skip(1), c, b);
    } else {
        let n = word_len(a) as int;
        lemma_word_len(a);
        lemma_word_len_before_white(a, c, b);
        assert(whole[0] == a[0]);
        assert(whole.take(n) =~= a.take(n));
        assert(whole.skip(n) =~= a.skip(n) + seq![c] + b);
        law_words_are_split_by_white_space(a.skip(n), c, b);
        assert(seq![a.take(n)] + (words(a.skip(n)) + words(b)) =~= seq![a.take(n)] + words(
            a.skip(n),
        ) + words(b));
    }
}

/// The text without white space at either end.
pub fn trim(s: &str) -> (r: String)
    ensures
        r@ == trimmed(s@),
{
    let v = chars_of(s);
    let mut i: usize = 0;
    assert(v@.skip(0) =~= v@);
    while i < v.len() && is_white(v[i])
        invariant
            i <= v.len(),
            skip_white(v@) == skip_white(v@.skip(i as int)),
        decreases v.len() - i,
    {
        assert(v@.skip(i as int).skip(1) =~= v@.skip(i + 1));
        i = i + 1;
    }
    let ghost rest = v@.skip(i as int);
    assert(skip_white(v@) == rest);
    let mut j: usize = v.len();
    assert(v@.subrange(i as int, j as int) =~= rest);
    while j > i && is_white(v[j - 1])
        invariant
            i <= j <= v.len(),
            drop_white(rest) == drop_white(v@.subrange(i as int, j as int)),
        decreases j,
    {
        assert(v@.subrange(i as int, j as int).drop_last() =~= v@.subrange(i as int, j - 1));
        j = j - 1;
    }
    text_of(&v, i, j)
}

/// The words of a text, in order.
pub fn split_words(s: &str) -> (r: Vec<String>)
    ensures
        texts(r@) == words(s@),
{
    let v = chars_of(s);
    let mut r: Vec<String> = Vec::new();
    let mut i: usize = 0;
    assert(v@.skip(0) =~= v@);
    assert(texts(r@) + words(v@) =~= words(v@));
    while i < v.len()
        invariant
            i <= v.len(),
            words(v@) == texts(r@) + words(v@.skip(i as int)),
        decreases v.len() - i,
    {
        let ghost rest = v@.skip(i as int);
        if is_white(v[i]) {
            assert(rest.skip(1) =~= v@.skip(i + 1));
            i = i + 1;
        } else {
            let start = i;
            assert(rest.skip(0) =~= rest);
            while i < v.len() && !is_white(v[i])
                invariant
                    start <= i <= v.len(),
                    rest == v@.skip(start as int),
                    word_len(rest) == (i - start) + word_len(rest.skip(i - start)),
                    i < v.len() ==> rest.skip(i - start)[0] == v@[i as int],
                decreases v.len() - i,
            {
                assert(rest.skip(i - start).skip(1) =~= rest.skip(i + 1 - start));
                i = i + 1;
            }
            assert(word_len(rest.skip(i - start)) == 0);
            let ghost before = texts(r@);
            r.push(text_of(&v, start, i));
            assert(rest.take(i - start) =~= v@.subrange(start as int, i as int));
            assert(rest.skip(i - start) =~= v@.skip(i as int));
            assert(texts(r@) =~= before.push(rest.take(i - start)));
            assert(before + (seq![rest.take(i - start)] + words(v@.skip(i as int))) =~= texts(r@)
                + words(v@.skip(i as int)));
        }
    }
    assert(v@.skip(i as int) =~= Seq::<char>::empty());
    assert(texts(r@) + Seq::<Seq<char>>::empty() =~= texts(r@));
    r
}

// ---------------------------------------------------------------------------------------------
// Searching, replacing, joining
// ---------------------------------------------------------------------------------------------

/// Whether `needle` stands in `hay` at position `at`.
pub open spec fn stands_at(hay: Seq<char>, needle: Seq<char>, at: int) -> bool {
    &&& 0 <= at
    &&& at + needle.len() <= hay.len()
    &&& hay.subrange(at, at + needle.len()) == needle
}

/// Whether `needle` stands anywhere in `hay`.
pub open spec fn occurs(hay: Seq<char>, needle: Seq<char>) -> bool {
    exists|at: int| stands_at(hay, needle, at)
}

/// `s` with every occurrence of `pattern` replaced, taken from left to right without overlap.
/// An empty pattern replaces nothing.
pub open spec fn replaced(s: Seq<char>, pattern: Seq<char>, with: Seq<char>) -> Seq<char>
    decreases s.len(),
{
    if s.len() == 0 || pattern.len() == 0 {
        s
    } else if stands_at(s, pattern, 0) {
        with + replaced(s.skip(pattern.len() as int), pattern, with)
    } else {
        seq![s[0]] + replaced(s.skip(1), pattern, with)
    }
}

/// The parts one after the other, with the separator between each two.
pub open spec fn joined(parts: Seq<Seq<char>>, separator: Seq<char>) -> Seq<char>
    decreases parts.len(),
{
    if parts.len() == 0 {
        Seq::empty()
    } else if parts.len() == 1 {
        parts[0]
    } else {
        joined(parts.drop_last(), separator) + separator + parts.last()
    }
}

/// The position of the first `c`, or the length of the text.
pub open spec fn first_position(s: Seq<char>, c: char) -> int
    decreases s.len(),
{
    if s.len() == 0 || s[0] == c {
        0
    } else {
        1 + first_position(s.skip(1), c)
    }
}

/// The position of the last `c`, or -1.
pub open spec fn last_position(s: Seq<char>, c: char) -> int
    decreases s.len(),
{
    if s.len() == 0 || s.last() == c {
        s.len() - 1
    } else {
        last_position(s.drop_last(), c)
    }
}

/// Whether the characters of `needle` stand in `hay` at position `at`.
fn is_at(hay: &Vec<char>, needle: &Vec<char>, at: usize) -> (r: bool)
    requires
        at <= hay.len(),
    ensures
        r == stands_at(hay@, needle@, at as int),
{
    if needle.len() > hay.len() - at {
        return false;
    }
    for i in 0..needle.len()
        invariant
            at + needle.len() <= hay.len(),
            forall|j: int| 0 <= j < i ==> hay[at + j] == needle[j],
    {
        if hay[at + i] != needle[i] {
            assert(hay@.subrange(at as int, at + needle.len())[i as int] != needle@[i as int]);
            return false;
        }
    }
    assert(hay@.subrange(at as int, at + needle.len()) =~= needle@);
    true
}

/// Whether a text stands in another.
pub fn contains(hay: &str, needle: &str) -> (r: bool)
    ensures
        r == occurs(hay@, needle@),
{
    let h = chars_of(hay);
    let n = chars_of(needle);
    if n.len() > h.len() {
        return false;
    }
    let last: usize = h.len() - n.len();
    let mut at: usize = 0;
    while at <= last
        invariant
            h@ == hay@,
            n@ == needle@,
            last + n.len() == h.len(),
            at <= last + 1,
            forall|k: int| k < at ==> !stands_at(hay@, needle@, k),
        decreases last + 1 - at,
    {
        if is_at(&h, &n, at) {
            return true;
        }
        if at == last {
            assert forall|k: int| !stands_at(hay@, needle@, k) by {
                if k > last {
                    assert(k + needle@.len() > hay@.len());
                }
            }
            return false;
        }
        at = at + 1;
    }
    false
}

/// The text with every occurrence of a pattern replaced.
pub fn replace_all(s: &str, pattern: &str, with: &str) -> (r: String)
    ensures
        r@ == replaced(s@, pattern@, with@),
{
    let v = chars_of(s);
    let p = chars_of(pattern);
    if p.len() == 0 {
        return s.to_owned();
    }
    let mut r = String::new();
    let mut i: usize = 0;
    assert(v@.skip(0) =~= v@);
    assert(r@ + replaced(v@, p@, with@) =~= replaced(v@, p@, with@));
    while i < v.len()
        invariant
            p.len() > 0,
            i <= v.len(),
            replaced(v@, p@, with@) == r@ + replaced(v@.skip(i as int), p@, with@),
        decreases v.len() - i,
    {
        let ghost rest = v@.skip(i as int);
        let ghost before = r@;
        if is_at(&v, &p, i) {
            assert(rest.subrange(0, p.len() as int) =~= v@.subrange(i as int, i + p.len()));
            r.append(with);
            assert(rest.skip(p.len() as int) =~= v@.skip(i + p.len()));
            i = i + p.len();
            assert(before + (with@ + replaced(v@.skip(i as int), p@, with@)) =~= r@ + replaced(
                v@.skip(i as int),
                p@,
                with@,
            ));
        } else {
            proof {
                if stands_at(rest, p@, 0) {
                    assert(rest.subrange(0, p.len() as int) =~= v@.subrange(
                        i as int,
                        i + p.len(),
                    ));
                }
            }
            r.push(v[i]);
            assert(rest.skip(1) =~= v@.skip(i + 1));
            i = i + 1;
            assert(before + (seq![rest[0]] + replaced(v@.skip(i as int), p@, with@)) =~= r@
                + replaced(v@.skip(i as int), p@, with@));
        }
    }
    assert(v@.skip(i as int) =~= Seq::<char>::empty());
    assert(r@ + Seq::<char>::empty() =~= r@);
    r
}

/// The strings one after the other, with the separator between each two.
pub fn join(parts: &[String], separator: &str) -> (r: String)
    ensures
        r@ == joined(texts(parts@), separator@),
{
    let mut r = String::new();
    for i in 0..parts.len()
        invariant
            r@ == joined(texts(parts@).take(i as int), separator@),
    {
        let ghost upto = texts(parts@).take(i + 1);
        assert(upto.drop_last() =~= texts(parts@).take(i as int));
        assert(upto.last() == parts@[i as int]@);
        if i > 0 {
            r.append(separator);
        }
        r.append(parts[i].as_str());
        assert(r@ =~= joined(upto, separator@));
    }
    assert(texts(parts@).take(parts@.len() as int) =~= texts(parts@));
    r
}

/// The position of the first `c`, or the number of characters.
pub fn find_char(v: &Vec<char>, c: char) -> (r: usize)
    ensures
        r == first_position(v@, c),
        r <= v.len(),
{
    let mut i: usize = 0;
    assert(v@.skip(0) =~= v@);
    while i < v.len() && v[i] != c
        invariant
            i <= v.len(),
            first_position(v@, c) == i + first_position(v@.skip(i as int), c),
        decreases v.len() - i,
    {
        assert(v@.skip(i as int).skip(1) =~= v@.skip(i + 1));
        i = i + 1;
    }
    i
}

/// One more than the position of the last `c`; zero where there is none.
pub fn end_of_last(v: &Vec<char>, c: char) -> (r: usize)
    ensures
        r == last_position(v@, c) + 1,
        r <= v.len(),
{
    let mut j: usize = v.len();
    assert(v@.take(j as int) =~= v@);
    while j > 0 && v[j - 1] != c
        invariant
            j <= v.len(),
            last_position(v@, c) == last_position(v@.take(j as int), c),
        decreases j,
    {
        assert(v@.take(j as int).drop_last() =~= v@.take(j - 1));
        j = j - 1;
    }
    j
}

// ---------------------------------------------------------------------------------------------
// Numbers
// ---------------------------------------------------------------------------------------------

/// The decimal digit of a number below ten.
pub open spec fn digit(d: nat) -> char {
    ('0' as u32 + d) as char
}

/// The decimal digits of a number, without leading zeros.
pub open spec fn decimal(n: nat) -> Seq<char>
    decreases n,
{
    if n < 10 {
        seq![digit(n)]
    } else {
        decimal(n / 10).push(digit(n % 10))
    }
}

/// The decimal text of an integer, with a sign where it is negative.
pub open spec fn signed_decimal(n: int) -> Seq<char> {
    if n < 0 {
        seq!['-'] + decimal((-n) as nat)
    } else {
        decimal(n as nat)
    }
}

/// Whether a text is one or more decimal digits.
pub open spec fn all_digits(s: Seq<char>) -> bool {
    s.len() > 0 && forall|i: int| 0 <= i < s.len() ==> '0' <= #[trigger] s[i] <= '9'
}

/// The number that a text of decimal digits spells.
pub open spec fn digits_value(s: Seq<char>) -> nat
    decreases s.len(),
{
    if s.len() == 0 {
        0
    } else {
        digits_value(s.drop_last()) * 10 + (s.last() as u32 - '0' as u32) as nat
    }
}

/// The digits of a signed number: all of it but a leading sign.
pub open spec fn unsigned_part(s: Seq<char>) -> Seq<char> {
    if s.len() > 0 && (s[0] == '-' || s[0] == '+') {
        s.skip(1)
    } else {
        s
    }
}

/// The `i64` that a text spells: an optional sign and decimal digits, in range.
pub open spec fn int_value(s: Seq<char>) -> Option<int> {
    let magnitude = digits_value(unsigned_part(s));
    let value = if s.len() > 0 && s[0] == '-' {
        -(magnitude as int)
    } else {
        magnitude as int
    };
    if all_digits(unsigned_part(s)) && i64::MIN <= value <= i64::MAX {
        Some(value)
    } else {
        None
    }
}

/// The decimal text of a number.
pub fn write_decimal(n: u64) -> (r: String)
    ensures
        r@ == decimal(n as nat),
    decreases n,
{
    let mut r = if n < 10 {
        String::new()
    } else {
        write_decimal(n / 10)
    };
    let d: u8 = 48 + (n % 10) as u8;
    r.push(d as char);
    assert(r@ =~= decimal(n as nat));
    r
}

/// The decimal text of a signed number.
pub fn write_signed(n: i64) -> (r: String)
    ensures
        r@ == signed_decimal(n as int),
{
    if n >= 0 {
        write_decimal(n as u64)
    } else {
        let mut r = String::new();
        r.push('-');
        let magnitude: u64 = (-(n + 1)) as u64 + 1;
        let digits = write_decimal(magnitude);
        r.append(digits.as_str());
        assert(r@ =~= signed_decimal(n as int));
        r
    }
}

/// The number that a text spells, if it spells one.
pub fn parse_int(s: &str) -> (r: Option<i64>)
    ensures
        int_value(s@) is Some == r is Some,
        r matches Some(n) ==> int_value(s@) == Some(n as int),
{
    let v = chars_of(s);
    let negative = v.len() > 0 && v[0] == '-';
    let start: usize = if v.len() > 0 && (v[0] == '-' || v[0] == '+') {
        1
    } else {
        0
    };
    let ghost part = unsigned_part(s@);
    assert(part =~= v@.skip(start as int));
    if start == v.len() {
        return None;
    }
    let mut magnitude: u64 = 0;
    let mut beyond = false;
    let mut i: usize = start;
    while i < v.len()
        invariant
            start <= i <= v.len(),
            part == v@.skip(start as int),
            part == unsigned_part(s@),
            forall|k: int| 0 <= k < i - start ==> '0' <= #[trigger] part[k] <= '9',
            magnitude <= I64_LIMIT,
            !beyond ==> magnitude == digits_value(part.take(i - start)),
            beyond ==> digits_value(part.take(i - start)) > I64_LIMIT,
        decreases v.len() - i,
    {
        let c = v[i];
        assert(part[i - start] == c);
        if c < '0' || c > '9' {
            return None;
        }
        let d: u64 = (c as u32 - 48) as u64;
        assert(part.take(i + 1 - start).drop_last() =~= part.take(i - start));
        if beyond || magnitude > 922337203685477580 || magnitude * 10 + d > I64_LIMIT {
            beyond = true;
        } else {
            magnitude = magnitude * 10 + d;
        }
        i = i + 1;
    }
    assert(part.take(part.len() as int) =~= part);
    if beyond || (magnitude == I64_LIMIT && !negative) {
        None
    } else if magnitude == I64_LIMIT {
        Some(i64::MIN)
    } else if negative {
        Some(-(magnitude as i64))
    } else {
        Some(magnitude as i64)
    }
}

// ---------------------------------------------------------------------------------------------
// Laws
// ---------------------------------------------------------------------------------------------

/// Dropping leading white space drops a prefix, and stops at a character that is none.
pub proof fn lemma_skip_white(s: Seq<char>) -> (k: int)
    ensures
        0 <= k <= s.len(),
        skip_white(s) == s.skip(k),
        forall|i: int| 0 <= i < k ==> white(#[trigger] s[i]),
        k < s.len() ==> !white(s[k]),
    decreases s.len(),
{
    if s.len() > 0 && white(s[0]) {
        let rest = s.skip(1);
        let k = lemma_skip_white(rest);
        assert(rest.skip(k) =~= s.skip(k + 1));
        assert forall|i: int| 0 <= i < k + 1 implies white(#[trigger] s[i]) by {
            if i > 0 {
                assert(rest[i - 1] == s[i]);
            }
        }
        k + 1
    } else {
        assert(s.skip(0) =~= s);
        0
    }
}

/// Dropping trailing white space drops a suffix, and stops at a character that is none.
pub proof fn lemma_drop_white(s: Seq<char>) -> (k: int)
    ensures
        0 <= k <= s.len(),
        drop_white(s) == s.take(k),
        forall|i: int| k <= i < s.len() ==> white(#[trigger] s[i]),
        k > 0 ==> !white(s[k - 1]),
    decreases s.len(),
{
    if s.len() > 0 && white(s.last()) {
        let k = lemma_drop_white(s.drop_last());
        assert(s.drop_last().take(k) =~= s.take(k));
        assert forall|i: int| k <= i < s.len() implies white(#[trigger] s[i]) by {
            if i < s.len() - 1 {
                assert(s.drop_last()[i] == s[i]);
            }
        }
        k
    } else {
        assert(s.take(s.len() as int) =~= s);
        s.len() as int
    }
}

/// Trimming a trimmed text changes nothing.
pub proof fn law_trim_is_idempotent(s: Seq<char>)
    ensures
        trimmed(trimmed(s)) == trimmed(s),
{
    let i = lemma_skip_white(s);
    let mid = skip_white(s);
    let j = lemma_drop_white(mid);
    let t = trimmed(s);
    let i2 = lemma_skip_white(t);
    assert(i2 == 0) by {
        if t.len() > 0 {
            assert(t[0] == mid[0]);
            assert(mid[0] == s[i]);
        }
    }
    assert(t.skip(0) =~= t);
    let j2 = lemma_drop_white(t);
    assert(j2 == t.len()) by {
        if t.len() > 0 {
            assert(t.last() == mid[j - 1]);
        }
    }
    assert(t.take(t.len() as int) =~= t);
}

/// White space around a text is trimmed away, and nothing else.
pub proof fn law_trim_ignores_surrounding_white_space(
    before: Seq<char>,
    s: Seq<char>,
    after: Seq<char>,
)
    requires
        forall|i: int| 0 <= i < before.len() ==> white(#[trigger] before[i]),
        forall|i: int| 0 <= i < after.len() ==> white(#[trigger] after[i]),
    ensures
        trimmed(before + s + after) == trimmed(s),
{
    let whole = before + s + after;
    let b = before.len() as int;
    let i = lemma_skip_white(s);
    let k = lemma_skip_white(whole);
    if i == s.len() {
        assert(k == whole.len()) by {
            if k < whole.len() {
                if k < b {
                    assert(whole[k] == before[k]);
                } else if k < b + s.len() {
                    assert(whole[k] == s[k - b]);
                } else {
                    assert(whole[k] == after[k - b - s.len()]);
                }
            }
        }
        assert(skip_white(whole) =~= skip_white(s));
    } else {
        assert(whole[b + i] == s[i]);
        assert(k == b + i) by {
            if k < b {
                assert(whole[k] == before[k]);
            } else if k < b + i {
                assert(whole[k] == s[k - b]);
            }
        }
        let mid = skip_white(s);
        let wide = skip_white(whole);
        assert(wide =~= mid + after);
        let j = lemma_drop_white(mid);
        let j2 = lemma_drop_white(wide);
        assert(mid[0] == s[i]);
        assert(j > 0);
        assert(wide[j - 1] == mid[j - 1]);
        assert(j2 == j) by {
            if j2 > mid.len() {
                assert(wide[j2 - 1] == after[j2 - 1 - mid.len()]);
            } else if j2 > j {
                assert(wide[j2 - 1] == mid[j2 - 1]);
            }
        }
        assert(wide.take(j) =~= mid.take(j));
    }
}

/// A text stands in itself, and wherever text is put around it.
pub proof fn lemma_occurs_between(before: Seq<char>, needle: Seq<char>, after: Seq<char>)
    ensures
        occurs(before + needle + after, needle),
{
    let whole = before + needle + after;
    let at = before.len() as int;
    assert(whole.subrange(at, at + needle.len()) =~= needle);
    assert(stands_at(whole, needle, at));
}

/// What stands in a part of a text stands in the text.
pub proof fn lemma_occurs_within(whole: Seq<char>, part: Seq<char>, needle: Seq<char>)
    requires
        occurs(whole, part),
        occurs(part, needle),
    ensures
        occurs(whole, needle),
{
    let a = choose|a: int| stands_at(whole, part, a);
    let b = choose|b: int| stands_at(part, needle, b);
    let there = whole.subrange(a + b, a + b + needle.len());
    assert forall|i: int| 0 <= i < needle.len() implies #[trigger] there[i] == needle[i] by {
        assert(whole.subrange(a, a + part.len())[b + i] == part[b + i]);
        assert(part.subrange(b, b + needle.len())[i] == part[b + i]);
    }
    assert(there =~= needle);
    assert(stands_at(whole, needle, a + b));
}

/// Each part stands in the joined text.
pub proof fn lemma_joined_holds_parts(parts: Seq<Seq<char>>, separator: Seq<char>, i: int)
    requires
        0 <= i < parts.len(),
    ensures
        occurs(joined(parts, separator), parts[i]),
    decreases parts.len(),
{
    let whole = joined(parts, separator);
    let none = Seq::<char>::empty();
    if parts.len() == 1 {
        lemma_occurs_between(none, parts[0], none);
        assert(none + parts[0] + none =~= parts[0]);
    } else if i == parts.len() - 1 {
        let front = joined(parts.drop_last(), separator) + separator;
        lemma_occurs_between(front, parts[i], none);
        assert(front + parts[i] + none =~= whole);
    } else {
        let front = joined(parts.drop_last(), separator);
        lemma_joined_holds_parts(parts.drop_last(), separator, i);
        lemma_occurs_between(none, front, separator + parts.last());
        assert(none + front + (separator + parts.last()) =~= whole);
        lemma_occurs_within(whole, front, parts[i]);
    }
}

/// The number of times that a character stands in a text.
pub open spec fn count(s: Seq<char>, c: char) -> nat
    decreases s.len(),
{
    if s.len() == 0 {
        0
    } else {
        count(s.skip(1), c) + if s[0] == c {
            1nat
        } else {
            0nat
        }
    }
}

/// The counts of the two halves of a text add up.
pub proof fn lemma_count_concat(a: Seq<char>, b: Seq<char>, c: char)
    ensures
        count(a + b, c) == count(a, c) + count(b, c),
    decreases a.len(),
{
    if a.len() == 0 {
        assert(a + b =~= b);
    } else {
        assert((a + b).skip(1) =~= a.skip(1) + b);
        lemma_count_concat(a.skip(1), b, c);
    }
}

/// Replacing occurrences by a text that does not hold a character does not add that character, and
/// takes none away where the replaced pattern does not hold it either.
pub proof fn law_replacing_adds_no_foreign_character(
    s: Seq<char>,
    pattern: Seq<char>,
    with: Seq<char>,
    c: char,
)
    requires
        count(with, c) == 0,
    ensures
        count(replaced(s, pattern, with), c) <= count(s, c),
        count(pattern, c) == 0 ==> count(replaced(s, pattern, with), c) == count(s, c),
    decreases s.len(),
{
    if s.len() == 0 || pattern.len() == 0 {
    } else if stands_at(s, pattern, 0) {
        let rest = s.skip(pattern.len() as int);
        law_replacing_adds_no_foreign_character(rest, pattern, with, c);
        lemma_count_concat(with, replaced(rest, pattern, with), c);
        assert(s =~= pattern + rest);
        lemma_count_concat(pattern, rest, c);
    } else {
        let rest = s.skip(1);
        law_replacing_adds_no_foreign_character(rest, pattern, with, c);
        lemma_count_concat(seq![s[0]], replaced(rest, pattern, with), c);
        assert(s =~= seq![s[0]] + rest);
        lemma_count_concat(seq![s[0]], rest, c);
    }
}

/// The digits of a number spell that number.
pub proof fn lemma_decimal(n: nat)
    ensures
        all_digits(decimal(n)),
        digits_value(decimal(n)) == n,
    decreases n,
{
    if n < 10 {
        assert(decimal(n).drop_last() =~= Seq::<char>::empty());
        assert(digits_value(Seq::<char>::empty()) == 0);
    } else {
        lemma_decimal(n / 10);
        assert(decimal(n).drop_last() =~= decimal(n / 10));
        assert forall|i: int| 0 <= i < decimal(n).len() implies '0' <= #[trigger] decimal(
            n,
        )[i] <= '9' by {
            if i < decimal(n).len() - 1 {
                assert(decimal(n)[i] == decimal(n / 10)[i]);
            }
        }
    }
}

/// Reading back the decimal text of an `i64` gives the number.
pub proof fn law_integers_read_back(n: int)
    requires
        i64::MIN <= n <= i64::MAX,
    ensures
        int_value(signed_decimal(n)) == Some(n),
{
    if n < 0 {
        let digits = decimal((-n) as nat);
        lemma_decimal((-n) as nat);
        assert(unsigned_part(signed_decimal(n)) =~= digits);
    } else {
        lemma_decimal(n as nat);
        let s = signed_decimal(n);
        assert('0' <= s[0] <= '9');
        assert(unsigned_part(s) == s);
    }
}

} // verus!
