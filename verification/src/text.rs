//! Text as the rest of the library reads it: a string is the sequence of its characters.

use vstd::prelude::*;

verus! {

// ----- The standard library's strings -----

/// `str == str` of the standard library compares the characters.
pub assume_specification[ <str as PartialEq>::eq ](a: &str, b: &str) -> (r: bool)
    ensures
        r == (a@ == b@),
;

/// `String::push` appends one character.
pub assume_specification[ std::string::String::push ](s: &mut String, c: char)
    ensures
        final(s)@ == old(s)@.push(c),
;

// ----- What the functions below mean -----

/// Whether Unicode gives `c` the property `White_Space`.
pub open spec fn white(c: char) -> bool {
    let n = c as int;
    ||| 0x9 <= n <= 0xd
    ||| n == 0x20
    ||| n == 0x85
    ||| n == 0xa0
    ||| n == 0x1680
    ||| 0x2000 <= n <= 0x200a
    ||| n == 0x2028
    ||| n == 0x2029
    ||| n == 0x202f
    ||| n == 0x205f
    ||| n == 0x3000
}

pub open spec fn trimmed_start(s: Seq<char>) -> Seq<char>
    decreases s.len(),
{
    if s.len() > 0 && white(s[0]) {
        trimmed_start(s.drop_first())
    } else {
        s
    }
}

pub open spec fn trimmed_end(s: Seq<char>) -> Seq<char>
    decreases s.len(),
{
    if s.len() > 0 && white(s.last()) {
        trimmed_end(s.drop_last())
    } else {
        s
    }
}

/// `s` without the white space around it.
pub open spec fn trimmed(s: Seq<char>) -> Seq<char> {
    trimmed_end(trimmed_start(s))
}

/// The first index that holds `c`, or the length if none does.
pub open spec fn char_index(s: Seq<char>, c: char) -> int
    decreases s.len(),
{
    if s.len() == 0 {
        0
    } else if s[0] == c {
        0
    } else {
        1 + char_index(s.drop_first(), c)
    }
}

/// The last index that holds `c`, or -1 if none does.
pub open spec fn last_char_index(s: Seq<char>, c: char) -> int
    decreases s.len(),
{
    if s.len() == 0 {
        -1
    } else if s.last() == c {
        s.len() - 1
    } else {
        last_char_index(s.drop_last(), c)
    }
}

/// The pieces of `s` between the separators.
pub open spec fn pieces(s: Seq<char>, sep: char) -> Seq<Seq<char>>
    decreases s.len(),
{
    let i = char_index(s, sep);
    if 0 <= i < s.len() {
        seq![s.take(i)] + pieces(s.skip(i + 1), sep)
    } else {
        seq![s]
    }
}

/// A line without the carriage return before its line feed.
pub open spec fn chomped(s: Seq<char>) -> Seq<char> {
    if s.len() > 0 && s.last() == '\r' {
        s.drop_last()
    } else {
        s
    }
}

/// The lines of `s`; the line feed (with a carriage return before it) that ends one isn't part
/// of it, and the last one needs none.
pub open spec fn text_lines(s: Seq<char>) -> Seq<Seq<char>>
    decreases s.len(),
{
    let i = char_index(s, '\n');
    if s.len() == 0 {
        seq![]
    } else if 0 <= i < s.len() {
        seq![chomped(s.take(i))] + text_lines(s.skip(i + 1))
    } else {
        seq![s]
    }
}

/// Where `p` first occurs in `s`.
pub open spec fn find(s: Seq<char>, p: Seq<char>) -> Option<int>
    decreases s.len(),
{
    if p.is_prefix_of(s) {
        Some(0)
    } else if s.len() == 0 {
        None
    } else {
        match find(s.drop_first(), p) {
            Some(i) => Some(i + 1),
            None => None,
        }
    }
}

/// Whether `p` occurs in `s`.
pub open spec fn contains_text(s: Seq<char>, p: Seq<char>) -> bool {
    exists|i: int|
        0 <= i && i + p.len() <= s.len() && #[trigger] s.subrange(i, i + p.len()) == p
}

/// How many characters of `s` from its start aren't white space.
pub open spec fn word_len(s: Seq<char>) -> int
    decreases s.len(),
{
    if s.len() == 0 || white(s[0]) {
        0
    } else {
        1 + word_len(s.drop_first())
    }
}

/// The pieces of `s` between white space, without empty ones.
pub open spec fn words(s: Seq<char>) -> Seq<Seq<char>>
    decreases s.len(),
{
    if s.len() == 0 {
        seq![]
    } else if white(s[0]) {
        words(s.drop_first())
    } else {
        let n = word_len(s);
        if 0 < n <= s.len() {
            seq![s.take(n)] + words(s.skip(n))
        } else {
            seq![]
        }
    }
}

/// `s` without the characters `c` it starts with.
pub open spec fn without_leading(s: Seq<char>, c: char) -> Seq<char>
    decreases s.len(),
{
    if s.len() > 0 && s[0] == c {
        without_leading(s.drop_first(), c)
    } else {
        s
    }
}

/// `s` without the characters `c` it ends with.
pub open spec fn without_trailing(s: Seq<char>, c: char) -> Seq<char>
    decreases s.len(),
{
    if s.len() > 0 && s.last() == c {
        without_trailing(s.drop_last(), c)
    } else {
        s
    }
}

/// The texts one after another, with `sep` between them.
pub open spec fn joined(parts: Seq<Seq<char>>, sep: Seq<char>) -> Seq<char>
    decreases parts.len(),
{
    if parts.len() == 0 {
        seq![]
    } else if parts.len() == 1 {
        parts[0]
    } else {
        joined(parts.drop_last(), sep) + sep + parts.last()
    }
}

/// The characters of a sequence of strings.
pub open spec fn texts(v: Seq<String>) -> Seq<Seq<char>> {
    Seq::new(v.len(), |i: int| v[i]@)
}

/// The characters of a sequence of sequences of strings.
pub open spec fn text_lists(v: Seq<Vec<String>>) -> Seq<Seq<Seq<char>>> {
    Seq::new(v.len(), |i: int| texts(v[i]@))
}

/// The characters of an optional string.
pub open spec fn text_of(s: Option<String>) -> Option<Seq<char>> {
    match s {
        Some(s) => Some(s@),
        None => None,
    }
}

/// The characters of a sequence of string slices.
pub open spec fn slices(v: Seq<&str>) -> Seq<Seq<char>> {
    Seq::new(v.len(), |i: int| v[i]@)
}

/// Whether `a` comes before `b` in the order of their characters.
pub open spec fn precedes(a: Seq<char>, b: Seq<char>) -> bool
    decreases a.len(),
{
    if b.len() == 0 {
        false
    } else if a.len() == 0 {
        true
    } else if a[0] != b[0] {
        a[0] < b[0]
    } else {
        precedes(a.drop_first(), b.drop_first())
    }
}

/// Each text comes before all that follow it.
pub open spec fn ascending(v: Seq<Seq<char>>) -> bool {
    forall|i: int, j: int| 0 <= i < j < v.len() ==> precedes(#[trigger] v[i], #[trigger] v[j])
}

/// The decimal digit of `n`, `0 <= n < 10`.
pub open spec fn digit(n: int) -> char {
    (n + 0x30) as char
}

/// `n` written in decimal.
pub open spec fn decimal(n: nat) -> Seq<char>
    decreases n,
{
    if n < 10 {
        seq![digit(n as int)]
    } else {
        decimal(n / 10).push(digit((n % 10) as int))
    }
}

/// `n` written in decimal, with its sign if it is negative.
pub open spec fn signed_decimal(n: int) -> Seq<char> {
    if n < 0 {
        seq!['-'] + decimal((-n) as nat)
    } else {
        decimal(n as nat)
    }
}

pub open spec fn is_digit(c: char) -> bool {
    '0' <= c <= '9'
}

pub open spec fn all_digits(s: Seq<char>) -> bool {
    forall|i: int| 0 <= i < s.len() ==> is_digit(#[trigger] s[i])
}

/// The number that decimal digits write.
pub open spec fn number(s: Seq<char>) -> nat
    decreases s.len(),
{
    if s.len() == 0 {
        0
    } else {
        number(s.drop_last()) * 10 + (s.last() as int - 0x30) as nat
    }
}

/// The number that `s` writes: digits, with a plus sign before them at most.
pub open spec fn parsed(s: Seq<char>) -> Option<nat> {
    let digits = if s.len() > 0 && s[0] == '+' {
        s.drop_first()
    } else {
        s
    };
    if digits.len() > 0 && all_digits(digits) {
        Some(number(digits))
    } else {
        None
    }
}

/// `c` with the ASCII lower-case letters made upper case.
pub open spec fn ascii_upper(c: char) -> char {
    if 'a' <= c <= 'z' {
        (c as int - 0x20) as char
    } else {
        c
    }
}

/// `c` with the ASCII upper-case letters made lower case.
pub open spec fn ascii_lower(c: char) -> char {
    if 'A' <= c <= 'Z' {
        (c as int + 0x20) as char
    } else {
        c
    }
}

pub open spec fn ascii_uppercase(s: Seq<char>) -> Seq<char> {
    Seq::new(s.len(), |i: int| ascii_upper(s[i]))
}

pub open spec fn ascii_lowercase(s: Seq<char>) -> Seq<char> {
    Seq::new(s.len(), |i: int| ascii_lower(s[i]))
}

pub open spec fn ascii_alphanumeric(c: char) -> bool {
    '0' <= c <= '9' || 'a' <= c <= 'z' || 'A' <= c <= 'Z'
}

/// A hexadecimal digit of `n`, `0 <= n < 16`; letters from `a`.
pub open spec fn hex_digit(n: int, a: char) -> char {
    if n < 10 {
        (n + 0x30) as char
    } else {
        (n - 10 + a as int) as char
    }
}

/// The two hexadecimal digits of a byte.
pub open spec fn hex_pair(b: u8, a: char) -> Seq<char> {
    seq![hex_digit(b as int / 16, a), hex_digit(b as int % 16, a)]
}

/// The bytes in lower-case hexadecimal.
pub open spec fn hex(bytes: Seq<u8>) -> Seq<char>
    decreases bytes.len(),
{
    if bytes.len() == 0 {
        seq![]
    } else {
        hex(bytes.drop_last()) + hex_pair(bytes.last(), 'a')
    }
}

// ----- Facts -----

/// A number is written in digits, and they write it.
pub proof fn lemma_decimal_digits(n: nat)
    ensures
        decimal(n).len() >= 1,
        all_digits(decimal(n)),
        number(decimal(n)) == n,
    decreases n,
{
    let s = decimal(n);
    if n >= 10 {
        lemma_decimal_digits(n / 10);
        assert(s.drop_last() =~= decimal(n / 10));
        assert(s.last() == digit((n % 10) as int));
        assert(number(s) == (n / 10) * 10 + n % 10);
        assert forall|i: int| 0 <= i < s.len() implies is_digit(#[trigger] s[i]) by {
            if i < s.len() - 1 {
                assert(s[i] == decimal(n / 10)[i]);
            }
        }
    } else {
        assert(s.drop_last() =~= Seq::empty());
        assert(number(s.drop_last()) == 0);
        assert(s.last() == digit(n as int));
    }
}

pub proof fn lemma_hex_len(bytes: Seq<u8>)
    ensures
        hex(bytes).len() == 2 * bytes.len(),
    decreases bytes.len(),
{
    if bytes.len() > 0 {
        lemma_hex_len(bytes.drop_last());
    }
}

pub broadcast proof fn texts_push(v: Seq<String>, s: String)
    ensures
        #[trigger] texts(v.push(s)) == texts(v).push(s@),
{
    assert(texts(v.push(s)) =~= texts(v).push(s@));
}

pub broadcast proof fn text_lists_push(v: Seq<Vec<String>>, s: Vec<String>)
    ensures
        #[trigger] text_lists(v.push(s)) == text_lists(v).push(texts(s@)),
{
    assert(text_lists(v.push(s)) =~= text_lists(v).push(texts(s@)));
}

pub proof fn lemma_char_index(s: Seq<char>, c: char)
    ensures
        0 <= char_index(s, c) <= s.len(),
        forall|j: int| 0 <= j < char_index(s, c) ==> s[j] != c,
        char_index(s, c) < s.len() ==> s[char_index(s, c)] == c,
    decreases s.len(),
{
    if s.len() > 0 && s[0] != c {
        lemma_char_index(s.drop_first(), c);
        assert forall|j: int| 0 <= j < char_index(s, c) implies s[j] != c by {
            if j > 0 {
                assert(s[j] == s.drop_first()[j - 1]);
            }
        }
    }
}

pub proof fn lemma_char_index_is(s: Seq<char>, c: char, at: int)
    requires
        0 <= at <= s.len(),
        forall|j: int| 0 <= j < at ==> s[j] != c,
        at < s.len() ==> s[at] == c,
    ensures
        char_index(s, c) == at,
{
    lemma_char_index(s, c);
}

/// What was found stands where it was found and nowhere before; what wasn't, stands nowhere.
pub proof fn lemma_find(s: Seq<char>, p: Seq<char>)
    ensures
        match find(s, p) {
            Some(i) => {
                &&& 0 <= i && i + p.len() <= s.len()
                &&& s.subrange(i, i + p.len()) == p
                &&& forall|j: int|
                    0 <= j < i ==> (#[trigger] s.subrange(j, j + p.len())) != p
            },
            None => forall|j: int|
                0 <= j && j + p.len() <= s.len() ==> (#[trigger] s.subrange(j, j + p.len())) != p,
        },
        (find(s, p) is Some) == contains_text(s, p),
    decreases s.len(),
{
    if p.is_prefix_of(s) {
        assert(s.subrange(0int, 0int + p.len()) =~= p);
    } else {
        if s.len() > 0 {
            let r = s.drop_first();
            lemma_find(r, p);
            assert forall|j: int| 1 <= j && j + p.len() <= s.len() implies (#[trigger] s.subrange(
                j,
                j + p.len(),
            )) == r.subrange(j - 1, j - 1 + p.len()) by {
                assert(s.subrange(j, j + p.len()) =~= r.subrange(j - 1, j - 1 + p.len()));
            }
            match find(r, p) {
                Some(i) => {
                    assert(s.subrange(i + 1, i + 1 + p.len()) == p);
                    assert forall|j: int| 0 <= j < i + 1 implies (#[trigger] s.subrange(
                        j,
                        j + p.len(),
                    )) != p by {
                        if j > 0 {
                            assert(r.subrange(j - 1, j - 1 + p.len()) != p);
                        }
                    }
                },
                None => {
                    assert forall|j: int| 0 <= j && j + p.len() <= s.len() implies (
                    #[trigger] s.subrange(j, j + p.len())) != p by {
                        if j > 0 {
                            assert(r.subrange(j - 1, j - 1 + p.len()) != p);
                        }
                    }
                },
            }
        }
    }
}

/// Of two different texts one comes before the other.
pub proof fn lemma_precedes_total(a: Seq<char>, b: Seq<char>)
    ensures
        a == b || precedes(a, b) || precedes(b, a),
        precedes(a, b) ==> !precedes(b, a) && a != b,
    decreases a.len(),
{
    if a.len() > 0 && b.len() > 0 && a[0] == b[0] {
        lemma_precedes_total(a.drop_first(), b.drop_first());
        if a.drop_first() == b.drop_first() {
            assert(a =~= seq![a[0]] + a.drop_first());
            assert(b =~= seq![b[0]] + b.drop_first());
        }
    } else if a.len() == 0 && b.len() == 0 {
        assert(a =~= b);
    }
}

pub proof fn lemma_precedes_transitive(a: Seq<char>, b: Seq<char>, c: Seq<char>)
    requires
        precedes(a, b),
        precedes(b, c),
    ensures
        precedes(a, c),
    decreases a.len(),
{
    if a.len() > 0 && b.len() > 0 && c.len() > 0 && a[0] == b[0] && b[0] == c[0] {
        lemma_precedes_transitive(a.drop_first(), b.drop_first(), c.drop_first());
    }
}

// ----- Comparing and taking apart -----

/// Whether `a` comes before `b` in the order of their characters.
pub fn comes_before(a: &str, b: &str) -> (r: bool)
    ensures
        r == precedes(a@, b@),
{
    let x: Vec<char> = chars(a);
    let y: Vec<char> = chars(b);
    let mut i: usize = 0;
    assert(x@.skip(0) =~= x@);
    assert(y@.skip(0) =~= y@);
    while i < x.len() && i < y.len()
        invariant
            i <= x@.len(),
            i <= y@.len(),
            precedes(a@, b@) == precedes(x@.skip(i as int), y@.skip(i as int)),
        decreases x@.len() - i,
    {
        if x[i] != y[i] {
            return x[i] < y[i];
        }
        assert(x@.skip(i as int).drop_first() =~= x@.skip(i + 1));
        assert(y@.skip(i as int).drop_first() =~= y@.skip(i + 1));
        i += 1;
    }
    i < y.len()
}

/// Puts `s` where it belongs among ascending texts, unless it is there already.
pub fn insert_sorted(v: &mut Vec<String>, s: &str)
    requires
        ascending(texts(old(v)@)),
    ensures
        ascending(texts(final(v)@)),
        forall|x: Seq<char>|
            #[trigger] texts(final(v)@).contains(x) <==> texts(old(v)@).contains(x) || x == s@,
{
    let ghost before = texts(v@);
    let mut i: usize = 0;
    while i < v.len() && comes_before(v[i].as_str(), s)
        invariant
            i <= v@.len(),
            before == texts(v@),
            forall|j: int| 0 <= j < i ==> precedes(#[trigger] before[j], s@),
        decreases v@.len() - i,
    {
        assert(before[i as int] == v@[i as int]@);
        i += 1;
    }
    if i < v.len() && same(v[i].as_str(), s) {
        assert(before[i as int] == s@);
        assert forall|x: Seq<char>| #[trigger] before.contains(x) || x == s@ implies before.contains(
            x,
        ) by {}
        return;
    }
    proof {
        if i < v@.len() {
            lemma_precedes_total(before[i as int], s@);
            assert forall|j: int| i <= j < before.len() implies precedes(
                s@,
                #[trigger] before[j],
            ) by {
                if j > i {
                    lemma_precedes_transitive(s@, before[i as int], before[j]);
                }
            }
        }
    }
    v.insert(i, s.to_string());
    proof {
        let after = texts(v@);
        assert(after =~= before.insert(i as int, s@));
        assert forall|x: Seq<char>| #[trigger] after.contains(x) <==> before.contains(x) || x
            == s@ by {
            if before.contains(x) {
                let j = choose|j: int| 0 <= j < before.len() && before[j] == x;
                assert(after[if j < i { j } else { j + 1 }] == x);
            }
            if x == s@ {
                assert(after[i as int] == x);
            }
            if after.contains(x) && x != s@ {
                let j = choose|j: int| 0 <= j < after.len() && after[j] == x;
                assert(before[if j < i { j } else { j - 1 }] == x);
            }
        }
        assert forall|a: int, b: int| 0 <= a < b < after.len() implies precedes(
            #[trigger] after[a],
            #[trigger] after[b],
        ) by {
            if a < i && b > i {
                assert(after[a] == before[a] && after[b] == before[b - 1]);
            } else if a > i {
                assert(after[a] == before[a - 1] && after[b] == before[b - 1]);
            } else if b < i {
                assert(after[a] == before[a] && after[b] == before[b]);
            }
        }
    }
}


/// Whether two texts hold the same characters.
pub fn same(a: &str, b: &str) -> (r: bool)
    ensures
        r == (a@ == b@),
{
    *a == *b
}

/// Whether `s` is one of the texts.
pub fn among(all: &Vec<&'static str>, s: &str) -> (r: bool)
    ensures
        r == slices(all@).contains(s@),
{
    let mut i: usize = 0;
    while i < all.len()
        invariant
            i <= all@.len(),
            forall|j: int| 0 <= j < i ==> (#[trigger] slices(all@)[j]) != s@,
        decreases all@.len() - i,
    {
        if same(all[i], s) {
            assert(slices(all@)[i as int] == s@);
            return true;
        }
        i += 1;
    }
    false
}

/// The characters of a text.
pub fn chars(s: &str) -> (r: Vec<char>)
    ensures
        r@ == s@,
{
    let mut out: Vec<char> = Vec::new();
    for c in it: s.chars()
        invariant
            out@ == s@.take(it.index() as int),
            it.seq() == s@,
    {
        out.push(c);
    }
    out
}

/// The text of the characters from `from` to `to`.
pub fn text_between(cs: &Vec<char>, from: usize, to: usize) -> (r: String)
    requires
        from <= to <= cs@.len(),
    ensures
        r@ == cs@.subrange(from as int, to as int),
{
    let mut out: String = String::new();
    let mut i: usize = from;
    while i < to
        invariant
            from <= i <= to <= cs@.len(),
            out@ =~= cs@.subrange(from as int, i as int),
        decreases to - i,
    {
        out.push(cs[i]);
        i += 1;
    }
    out
}

pub fn is_white(c: char) -> (r: bool)
    ensures
        r == white(c),
{
    let n: u32 = c as u32;
    (0x9 <= n && n <= 0xd) || n == 0x20 || n == 0x85 || n == 0xa0 || n == 0x1680 || (0x2000 <= n
        && n <= 0x200a) || n == 0x2028 || n == 0x2029 || n == 0x202f || n == 0x205f || n == 0x3000
}

/// The text without the white space around it.
pub fn trim(s: &str) -> (r: String)
    ensures
        r@ == trimmed(s@),
{
    let cs: Vec<char> = chars(s);
    let mut from: usize = 0;
    assert(cs@.skip(0) =~= cs@);
    while from < cs.len() && is_white(cs[from])
        invariant
            from <= cs@.len(),
            trimmed_start(cs@) == trimmed_start(cs@.skip(from as int)),
        decreases cs@.len() - from,
    {
        assert(cs@.skip(from as int).drop_first() =~= cs@.skip(from + 1));
        from += 1;
    }
    let mut to: usize = cs.len();
    let ghost t = cs@.skip(from as int);
    assert(trimmed_start(cs@) == t);
    assert(cs@.subrange(from as int, to as int) =~= t);
    while to > from && is_white(cs[to - 1])
        invariant
            from <= to <= cs@.len(),
            trimmed_end(t) == trimmed_end(cs@.subrange(from as int, to as int)),
        decreases to,
    {
        assert(cs@.subrange(from as int, to as int).drop_last() =~= cs@.subrange(
            from as int,
            to - 1,
        ));
        to -= 1;
    }
    text_between(&cs, from, to)
}

/// Whether `p` stands in `cs` at `at`.
pub fn stands_at(cs: &Vec<char>, p: &Vec<char>, at: usize) -> (r: bool)
    requires
        at <= cs@.len(),
    ensures
        r == p@.is_prefix_of(cs@.skip(at as int)),
{
    if p.len() > cs.len() - at {
        return false;
    }
    let mut i: usize = 0;
    while i < p.len()
        invariant
            i <= p@.len() <= cs.len() - at,
            at <= cs@.len(),
            forall|j: int| 0 <= j < i ==> p@[j] == cs@[at + j],
        decreases p@.len() - i,
    {
        if p[i] != cs[at + i] {
            assert(cs@.skip(at as int).take(p@.len() as int)[i as int] != p@[i as int]);
            return false;
        }
        i += 1;
    }
    assert(cs@.skip(at as int).take(p@.len() as int) =~= p@);
    true
}

pub fn starts_with(s: &str, p: &str) -> (r: bool)
    ensures
        r == p@.is_prefix_of(s@),
{
    let cs: Vec<char> = chars(s);
    let ps: Vec<char> = chars(p);
    assert(cs@.skip(0) =~= cs@);
    stands_at(&cs, &ps, 0)
}

/// What follows `p` in `s`, if `s` starts with it.
pub fn strip_prefix(s: &str, p: &str) -> (r: Option<String>)
    ensures
        match r {
            Some(rest) => p@.is_prefix_of(s@) && rest@ == s@.skip(p@.len() as int),
            None => !p@.is_prefix_of(s@),
        },
{
    let cs: Vec<char> = chars(s);
    let ps: Vec<char> = chars(p);
    assert(cs@.skip(0) =~= cs@);
    if stands_at(&cs, &ps, 0) {
        Some(text_between(&cs, ps.len(), cs.len()))
    } else {
        None
    }
}

/// What stands before `p` in `s`, if `s` ends with it.
pub fn strip_suffix(s: &str, p: &str) -> (r: Option<String>)
    ensures
        match r {
            Some(rest) => p@.is_suffix_of(s@) && rest@ == s@.take(s@.len() - p@.len()),
            None => !p@.is_suffix_of(s@),
        },
{
    let cs: Vec<char> = chars(s);
    let ps: Vec<char> = chars(p);
    if ps.len() > cs.len() {
        return None;
    }
    let at: usize = cs.len() - ps.len();
    let ghost tail = cs@.skip(at as int);
    assert(tail.take(ps@.len() as int) =~= tail);
    if stands_at(&cs, &ps, at) {
        Some(text_between(&cs, 0, at))
    } else {
        None
    }
}

pub fn ends_with(s: &str, p: &str) -> (r: bool)
    ensures
        r == p@.is_suffix_of(s@),
{
    strip_suffix(s, p).is_some()
}

/// Where `p` first occurs in `cs` at or after `from`.
pub fn find_from(cs: &Vec<char>, p: &Vec<char>, from: usize) -> (r: Option<usize>)
    requires
        from <= cs@.len(),
    ensures
        match r {
            Some(i) => from <= i && i + p@.len() <= cs@.len() && find(cs@.skip(from as int), p@)
                == Some(i - from),
            None => find(cs@.skip(from as int), p@) is None,
        },
{
    let mut i: usize = from;
    let ghost s = cs@.skip(from as int);
    while !stands_at(cs, p, i)
        invariant
            from <= i <= cs@.len(),
            s == cs@.skip(from as int),
            find(s, p@) == match find(cs@.skip(i as int), p@) {
                Some(k) => Some(k + (i - from)),
                None => None,
            },
        decreases cs@.len() - i,
    {
        if i == cs.len() {
            return None;
        }
        assert(cs@.skip(i as int).drop_first() =~= cs@.skip(i + 1));
        i += 1;
    }
    proof {
        lemma_find(cs@.skip(i as int), p@);
    }
    Some(i)
}

/// Whether `p` occurs in `s`.
pub fn contains(s: &str, p: &str) -> (r: bool)
    ensures
        r == contains_text(s@, p@),
{
    let cs: Vec<char> = chars(s);
    let ps: Vec<char> = chars(p);
    assert(cs@.skip(0) =~= cs@);
    proof {
        lemma_find(s@, p@);
    }
    find_from(&cs, &ps, 0).is_some()
}

/// Whether `s` holds the character `c`.
pub fn contains_char(s: &str, c: char) -> (r: bool)
    ensures
        r == s@.contains(c),
{
    let cs: Vec<char> = chars(s);
    let mut i: usize = 0;
    while i < cs.len()
        invariant
            i <= cs@.len(),
            cs@ == s@,
            forall|j: int| 0 <= j < i ==> cs@[j] != c,
        decreases cs@.len() - i,
    {
        if cs[i] == c {
            assert(s@[i as int] == c);
            return true;
        }
        i += 1;
    }
    false
}

/// The pieces of `s` between the separators.
pub fn split(s: &str, sep: char) -> (r: Vec<String>)
    ensures
        texts(r@) == pieces(s@, sep),
{
    let cs: Vec<char> = chars(s);
    let mut out: Vec<String> = Vec::new();
    let mut from: usize = 0;
    let mut i: usize = 0;
    assert(cs@.skip(0) =~= cs@);
    assert(texts(out@) + pieces(cs@.skip(0), sep) =~= pieces(s@, sep));
    while i < cs.len()
        invariant
            from <= i <= cs@.len(),
            forall|j: int| from <= j < i ==> cs@[j] != sep,
            texts(out@) + pieces(cs@.skip(from as int), sep) == pieces(s@, sep),
        decreases cs@.len() - i,
    {
        if cs[i] == sep {
            let ghost rest = cs@.skip(from as int);
            let ghost done = texts(out@);
            proof {
                lemma_char_index_is(rest, sep, i - from);
                assert(rest.take(i - from) =~= cs@.subrange(from as int, i as int));
                assert(rest.skip(i - from + 1) =~= cs@.skip(i + 1));
            }
            out.push(text_between(&cs, from, i));
            from = i + 1;
            proof {
                broadcast use texts_push;

                assert(texts(out@) + pieces(cs@.skip(from as int), sep) =~= done + pieces(
                    rest,
                    sep,
                ));
            }
        }
        i += 1;
    }
    proof {
        let rest = cs@.skip(from as int);
        lemma_char_index_is(rest, sep, rest.len() as int);
        assert(cs@.subrange(from as int, cs@.len() as int) =~= rest);
    }
    let ghost done = texts(out@);
    out.push(text_between(&cs, from, cs.len()));
    proof {
        broadcast use texts_push;

        assert(texts(out@) =~= done + seq![cs@.skip(from as int)]);
    }
    out
}

/// The lines of `s`.
pub fn lines(s: &str) -> (r: Vec<String>)
    ensures
        texts(r@) == text_lines(s@),
{
    let cs: Vec<char> = chars(s);
    let mut out: Vec<String> = Vec::new();
    let mut from: usize = 0;
    let mut i: usize = 0;
    assert(cs@.skip(0) =~= cs@);
    assert(texts(out@) + text_lines(cs@.skip(0)) =~= text_lines(s@));
    while i < cs.len()
        invariant
            from <= i <= cs@.len(),
            forall|j: int| from <= j < i ==> cs@[j] != '\n',
            texts(out@) + text_lines(cs@.skip(from as int)) == text_lines(s@),
        decreases cs@.len() - i,
    {
        if cs[i] == '\n' {
            let ghost rest = cs@.skip(from as int);
            let ghost done = texts(out@);
            let ghost line = cs@.subrange(from as int, i as int);
            proof {
                lemma_char_index_is(rest, '\n', i - from);
                assert(rest.take(i - from) =~= line);
                assert(rest.skip(i - from + 1) =~= cs@.skip(i + 1));
            }
            let to: usize = if i > from && cs[i - 1] == '\r' {
                i - 1
            } else {
                i
            };
            assert(cs@.subrange(from as int, to as int) =~= chomped(line));
            out.push(text_between(&cs, from, to));
            from = i + 1;
            proof {
                broadcast use texts_push;

                assert(texts(out@) + text_lines(cs@.skip(from as int)) =~= done + text_lines(rest));
            }
        }
        i += 1;
    }
    let ghost rest = cs@.skip(from as int);
    proof {
        lemma_char_index_is(rest, '\n', rest.len() as int);
    }
    if from < cs.len() {
        let ghost done = texts(out@);
        assert(cs@.subrange(from as int, cs@.len() as int) =~= rest);
        out.push(text_between(&cs, from, cs.len()));
        proof {
            broadcast use texts_push;

            assert(texts(out@) =~= done + text_lines(rest));
        }
    } else {
        assert(texts(out@) =~= texts(out@) + text_lines(rest));
    }
    out
}

/// In order, where the same text may stand twice.
pub open spec fn ordered(v: Seq<Seq<char>>) -> bool {
    forall|i: int, j: int|
        0 <= i < j < v.len() ==> v[i] == v[j] || precedes(#[trigger] v[i], #[trigger] v[j])
}

/// The texts in order, each as often as before.
pub fn sort(v: Vec<String>) -> (r: Vec<String>)
    ensures
        ordered(texts(r@)),
        texts(r@).to_multiset() == texts(v@).to_multiset(),
{
    let mut out: Vec<String> = Vec::new();
    let ghost all = texts(v@);
    let mut n: usize = 0;
    assert(texts(out@) =~= all.take(0));
    while n < v.len()
        invariant
            n <= v@.len(),
            all == texts(v@),
            ordered(texts(out@)),
            texts(out@).to_multiset() == all.take(n as int).to_multiset(),
        decreases v@.len() - n,
    {
        let ghost before = texts(out@);
        let ghost s = all[n as int];
        let mut at: usize = 0;
        while at < out.len() && !comes_before(v[n].as_str(), out[at].as_str())
            invariant
                n < v@.len(),
                at <= out@.len(),
                before == texts(out@),
                s == v@[n as int]@,
                forall|j: int|
                    0 <= j < at ==> #[trigger] before[j] == s || precedes(before[j], s),
            decreases out@.len() - at,
        {
            proof {
                assert(before[at as int] == out@[at as int]@);
                lemma_precedes_total(s, before[at as int]);
            }
            at += 1;
        }
        let ghost old_out = out@;
        out.insert(at, v[n].clone());
        proof {
            let after = texts(out@);
            assert(after =~= before.insert(at as int, s));
            assert forall|j: int| at <= j < before.len() implies precedes(
                s,
                #[trigger] before[j],
            ) by {
                assert(before[at as int] == old_out[at as int]@);
                if j > at && before[at as int] != before[j] {
                    lemma_precedes_transitive(s, before[at as int], before[j]);
                }
            }
            assert forall|i: int, j: int| 0 <= i < j < after.len() implies after[i] == after[j]
                || precedes(#[trigger] after[i], #[trigger] after[j]) by {
                let a = if i < at {
                    before[i]
                } else if i == at {
                    s
                } else {
                    before[i - 1]
                };
                let b = if j < at {
                    before[j]
                } else if j == at {
                    s
                } else {
                    before[j - 1]
                };
                assert(after[i] == a && after[j] == b);
            }
            broadcast use vstd::seq_lib::group_to_multiset_ensures;

            assert(after.remove(at as int) =~= before);
            assert(after[at as int] == s && after.contains(s));
            assert(after.to_multiset() =~= before.to_multiset().insert(s));
            assert(all.take(n + 1) =~= all.take(n as int).push(s));
        }
        n += 1;
    }
    assert(all.take(n as int) =~= all);
    out
}

/// The pieces of `s` between white space, without empty ones.
pub fn split_words(s: &str) -> (r: Vec<String>)
    ensures
        texts(r@) == words(s@),
{
    let cs: Vec<char> = chars(s);
    let mut out: Vec<String> = Vec::new();
    let mut i: usize = 0;
    assert(cs@.skip(0) =~= cs@);
    assert(texts(out@) + words(cs@) =~= words(s@));
    while i < cs.len()
        invariant
            i <= cs@.len(),
            texts(out@) + words(cs@.skip(i as int)) == words(s@),
        decreases cs@.len() - i,
    {
        let ghost rest = cs@.skip(i as int);
        assert(rest.drop_first() =~= cs@.skip(i + 1));
        if is_white(cs[i]) {
            i += 1;
        } else {
            let mut j: usize = i + 1;
            while j < cs.len() && !is_white(cs[j])
                invariant
                    i < j <= cs@.len(),
                    rest == cs@.skip(i as int),
                    word_len(rest) == (j - i) + word_len(cs@.skip(j as int)),
                decreases cs@.len() - j,
            {
                assert(cs@.skip(j as int).drop_first() =~= cs@.skip(j + 1));
                j += 1;
            }
            let ghost done = texts(out@);
            assert(word_len(rest) == j - i);
            out.push(text_between(&cs, i, j));
            proof {
                broadcast use texts_push;

                assert(rest.take(j - i) =~= cs@.subrange(i as int, j as int));
                assert(rest.skip(j - i) =~= cs@.skip(j as int));
                assert(texts(out@) + words(cs@.skip(j as int)) =~= done + words(rest));
            }
            i = j;
        }
    }
    assert(texts(out@) + words(cs@.skip(i as int)) =~= texts(out@));
    out
}

/// `s` without the characters `first` it starts with and the characters `last` it ends with.
pub fn strip_chars(s: &str, first: char, last: char) -> (r: String)
    ensures
        r@ == without_trailing(without_leading(s@, first), last),
{
    let cs: Vec<char> = chars(s);
    let mut from: usize = 0;
    assert(cs@.skip(0) =~= cs@);
    while from < cs.len() && cs[from] == first
        invariant
            from <= cs@.len(),
            without_leading(cs@, first) == without_leading(cs@.skip(from as int), first),
        decreases cs@.len() - from,
    {
        assert(cs@.skip(from as int).drop_first() =~= cs@.skip(from + 1));
        from += 1;
    }
    let mut to: usize = cs.len();
    let ghost t = cs@.skip(from as int);
    assert(without_leading(cs@, first) == t);
    assert(cs@.subrange(from as int, to as int) =~= t);
    while to > from && cs[to - 1] == last
        invariant
            from <= to <= cs@.len(),
            without_trailing(t, last) == without_trailing(
                cs@.subrange(from as int, to as int),
                last,
            ),
        decreases to,
    {
        assert(cs@.subrange(from as int, to as int).drop_last() =~= cs@.subrange(
            from as int,
            to - 1,
        ));
        to -= 1;
    }
    text_between(&cs, from, to)
}

// ----- Putting together -----

/// The slices of a list of strings.
pub fn as_slices(v: &Vec<String>) -> (r: Vec<&str>)
    ensures
        slices(r@) == texts(v@),
{
    let mut out: Vec<&str> = Vec::new();
    let mut i: usize = 0;
    while i < v.len()
        invariant
            i <= v@.len(),
            slices(out@) =~= texts(v@).take(i as int),
        decreases v@.len() - i,
    {
        let ghost before = out@;
        out.push(v[i].as_str());
        assert(slices(out@) =~= slices(before).push(v@[i as int]@));
        i += 1;
    }
    out
}

/// A copy of a list of strings.
pub fn clone_texts(v: &Vec<String>) -> (r: Vec<String>)
    ensures
        texts(r@) == texts(v@),
{
    let mut out: Vec<String> = Vec::new();
    let mut i: usize = 0;
    while i < v.len()
        invariant
            i <= v@.len(),
            texts(out@) =~= texts(v@).take(i as int),
        decreases v@.len() - i,
    {
        broadcast use texts_push;

        out.push(v[i].clone());
        i += 1;
    }
    out
}

/// `a` and `b` one after the other.
pub fn cat(a: &str, b: &str) -> (r: String)
    ensures
        r@ == a@ + b@,
{
    let mut out: String = a.to_string();
    out.append(b);
    out
}

pub fn cat3(a: &str, b: &str, c: &str) -> (r: String)
    ensures
        r@ == a@ + b@ + c@,
{
    let mut out: String = a.to_string();
    out.append(b);
    out.append(c);
    out
}

pub fn cat4(a: &str, b: &str, c: &str, d: &str) -> (r: String)
    ensures
        r@ == a@ + b@ + c@ + d@,
{
    let mut out: String = a.to_string();
    out.append(b);
    out.append(c);
    out.append(d);
    out
}

pub fn cat5(a: &str, b: &str, c: &str, d: &str, e: &str) -> (r: String)
    ensures
        r@ == a@ + b@ + c@ + d@ + e@,
{
    let mut out: String = a.to_string();
    out.append(b);
    out.append(c);
    out.append(d);
    out.append(e);
    out
}

/// The texts one after another, with `sep` between them.
pub fn join(parts: &Vec<String>, sep: &str) -> (r: String)
    ensures
        r@ == joined(texts(parts@), sep@),
{
    let mut out: String = String::new();
    let mut i: usize = 0;
    while i < parts.len()
        invariant
            i <= parts@.len(),
            out@ == joined(texts(parts@).take(i as int), sep@),
        decreases parts@.len() - i,
    {
        let ghost taken = texts(parts@).take(i + 1);
        assert(taken.drop_last() =~= texts(parts@).take(i as int));
        if i > 0 {
            out.append(sep);
        }
        out.append(parts[i].as_str());
        assert(i == 0 ==> out@ =~= taken[0]);
        i += 1;
    }
    assert(texts(parts@).take(i as int) =~= texts(parts@));
    out
}

// ----- Numbers -----

/// `n` written in decimal.
pub fn decimal_text(n: u128) -> (r: String)
    ensures
        r@ == decimal(n as nat),
    decreases n,
{
    let last: char = ((n % 10) as u8 + 0x30) as char;
    let mut out: String = if n < 10 {
        String::new()
    } else {
        decimal_text(n / 10)
    };
    out.push(last);
    assert(n < 10 ==> out@ =~= decimal(n as nat));
    out
}

/// `n` written in decimal, with its sign if it is negative.
pub fn signed_decimal_text(n: i64) -> (r: String)
    ensures
        r@ == signed_decimal(n as int),
{
    if n < 0 {
        let mut out: String = String::new();
        out.push('-');
        assert(out@ =~= seq!['-']);
        out.append(decimal_text((-(n as i128)) as u128).as_str());
        out
    } else {
        decimal_text(n as u128)
    }
}

/// The number that `s` writes, if it is at most `max`.
pub fn parse_number(s: &str, max: u64) -> (r: Option<u64>)
    ensures
        match parsed(s@) {
            Some(n) if n <= max => r == Some(n as u64),
            _ => r is None,
        },
{
    let cs: Vec<char> = chars(s);
    let from: usize = if cs.len() > 0 && cs[0] == '+' {
        1
    } else {
        0
    };
    let ghost digits = cs@.skip(from as int);
    assert(from == 0 ==> digits =~= cs@);
    assert(from == 1 ==> digits =~= cs@.drop_first());
    if from == cs.len() {
        return None;
    }
    let mut n: u64 = 0;
    let mut big: bool = false;
    let mut i: usize = from;
    assert(cs@.subrange(from as int, i as int) =~= seq![]);
    while i < cs.len()
        invariant
            from <= i <= cs@.len(),
            digits == cs@.skip(from as int),
            parsed(s@) == if digits.len() > 0 && all_digits(digits) { Some(number(digits)) } else { None },
            forall|j: int| from <= j < i ==> is_digit(cs@[j]),
            big ==> number(cs@.subrange(from as int, i as int)) > max,
            !big ==> n == number(cs@.subrange(from as int, i as int)) && n <= max,
        decreases cs@.len() - i,
    {
        let c: char = cs[i];
        if !('0' <= c && c <= '9') {
            assert(!is_digit(digits[i - from]));
            return None;
        }
        let d: u64 = c as u64 - 0x30;
        proof {
            let sub = cs@.subrange(from as int, i + 1);
            assert(sub.drop_last() =~= cs@.subrange(from as int, i as int));
            assert(number(sub) == number(cs@.subrange(from as int, i as int)) * 10 + d);
        }
        if !big {
            if n > (u64::MAX - d) / 10 || n * 10 + d > max {
                big = true;
            } else {
                n = n * 10 + d;
            }
        }
        i += 1;
    }
    assert(cs@.subrange(from as int, cs@.len() as int) =~= digits);
    assert(all_digits(digits));
    if big {
        None
    } else {
        Some(n)
    }
}

/// The text with the ASCII lower-case letters made upper case.
pub fn to_ascii_uppercase(s: &str) -> (r: String)
    ensures
        r@ == ascii_uppercase(s@),
{
    let cs: Vec<char> = chars(s);
    let mut out: String = String::new();
    let mut i: usize = 0;
    while i < cs.len()
        invariant
            i <= cs@.len(),
            out@ =~= ascii_uppercase(cs@).take(i as int),
        decreases cs@.len() - i,
    {
        let c: char = cs[i];
        if 'a' <= c && c <= 'z' {
            out.push((c as u8 - 0x20) as char);
        } else {
            out.push(c);
        }
        i += 1;
    }
    out
}

/// The text with the ASCII upper-case letters made lower case.
pub fn to_ascii_lowercase(s: &str) -> (r: String)
    ensures
        r@ == ascii_lowercase(s@),
{
    let cs: Vec<char> = chars(s);
    let mut out: String = String::new();
    let mut i: usize = 0;
    while i < cs.len()
        invariant
            i <= cs@.len(),
            out@ =~= ascii_lowercase(cs@).take(i as int),
        decreases cs@.len() - i,
    {
        let c: char = cs[i];
        if 'A' <= c && c <= 'Z' {
            out.push((c as u8 + 0x20) as char);
        } else {
            out.push(c);
        }
        i += 1;
    }
    out
}

/// Appends the two hexadecimal digits of a byte; letters from `a`.
pub fn push_hex(out: &mut String, b: u8, a: char)
    requires
        a == 'a' || a == 'A',
    ensures
        final(out)@ == old(out)@ + hex_pair(b, a),
{
    let base: u8 = a as u8;
    let high: u8 = b / 16;
    let low: u8 = b % 16;
    out.push(if high < 10 {
        (high + 0x30) as char
    } else {
        (high - 10 + base) as char
    });
    out.push(if low < 10 {
        (low + 0x30) as char
    } else {
        (low - 10 + base) as char
    });
    assert(out@ =~= old(out)@ + hex_pair(b, a));
}

/// The bytes in lower-case hexadecimal.
pub fn hex_text(bytes: &Vec<u8>) -> (r: String)
    ensures
        r@ == hex(bytes@),
{
    let mut out: String = String::new();
    let mut i: usize = 0;
    while i < bytes.len()
        invariant
            i <= bytes@.len(),
            out@ == hex(bytes@.take(i as int)),
        decreases bytes@.len() - i,
    {
        assert(bytes@.take(i + 1).drop_last() =~= bytes@.take(i as int));
        push_hex(&mut out, bytes[i], 'a');
        i += 1;
    }
    assert(bytes@.take(i as int) =~= bytes@);
    out
}

/// Whether two lists hold the same texts, in the same order.
pub(crate) fn same_texts(a: &Vec<String>, b: &Vec<String>) -> (r: bool)
    ensures
        r == (texts(a@) == texts(b@)),
{
    let ghost x = texts(a@);
    let ghost y = texts(b@);
    if a.len() != b.len() {
        assert(x.len() != y.len());
        return false;
    }
    let mut i: usize = 0;
    while i < a.len()
        invariant
            i <= a@.len() == b@.len(),
            x == texts(a@),
            y == texts(b@),
            forall|j: int| 0 <= j < i ==> #[trigger] x[j] == y[j],
        decreases a@.len() - i,
    {
        assert(x[i as int] == a@[i as int]@);
        assert(y[i as int] == b@[i as int]@);
        if !same(a[i].as_str(), b[i].as_str()) {
            assert(x[i as int] != y[i as int]);
            return false;
        }
        i += 1;
    }
    assert(x =~= y);
    true
}

} // verus!
