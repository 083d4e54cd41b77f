//! What taking texts apart and putting them together promises.

use crate::text;
use vstd::prelude::*;

verus! {

/// A text that is white space from end to end.
pub open spec fn all_white(s: Seq<char>) -> bool {
    forall|i: int| 0 <= i < s.len() ==> text::white(#[trigger] s[i])
}

proof fn lemma_trimmed_start(s: Seq<char>) -> (head: Seq<char>)
    ensures
        all_white(head),
        s == head + text::trimmed_start(s),
        text::trimmed_start(s).len() > 0 ==> !text::white(text::trimmed_start(s)[0]),
    decreases s.len(),
{
    if s.len() > 0 && text::white(s[0]) {
        let rest = lemma_trimmed_start(s.drop_first());
        let head = seq![s[0]] + rest;
        let inner = text::trimmed_start(s.drop_first());
        assert(s.drop_first() == rest + inner);
        assert(s =~= seq![s[0]] + s.drop_first());
        assert(seq![s[0]] + (rest + inner) =~= head + inner);
        assert forall|i: int| 0 <= i < head.len() implies text::white(#[trigger] head[i]) by {
            if i > 0 {
                assert(head[i] == rest[i - 1]);
            }
        }
        head
    } else {
        assert(s =~= Seq::<char>::empty() + s);
        Seq::empty()
    }
}

proof fn lemma_trimmed_end(s: Seq<char>) -> (tail: Seq<char>)
    ensures
        all_white(tail),
        s == text::trimmed_end(s) + tail,
        text::trimmed_end(s).len() > 0 ==> !text::white(text::trimmed_end(s).last()),
    decreases s.len(),
{
    if s.len() > 0 && text::white(s.last()) {
        let rest = lemma_trimmed_end(s.drop_last());
        let tail = rest.push(s.last());
        let inner = text::trimmed_end(s.drop_last());
        assert(s.drop_last() == inner + rest);
        assert(s =~= s.drop_last().push(s.last()));
        assert((inner + rest).push(s.last()) =~= inner + tail);
        tail
    } else {
        assert(s =~= s + Seq::<char>::empty());
        Seq::empty()
    }
}

/// Trimming takes the white space before and behind a text, all of it, and nothing else.
pub proof fn trimming_takes_white_space_only(s: Seq<char>) -> (r: (Seq<char>, Seq<char>))
    ensures
        all_white(r.0),
        all_white(r.1),
        s == r.0 + text::trimmed(s) + r.1,
        text::trimmed(s).len() > 0 ==> !text::white(text::trimmed(s)[0]) && !text::white(
            text::trimmed(s).last(),
        ),
{
    let head = lemma_trimmed_start(s);
    let inner = text::trimmed_start(s);
    let tail = lemma_trimmed_end(inner);
    assert(s =~= head + text::trimmed(s) + tail);
    if text::trimmed(s).len() > 0 {
        assert(inner[0] == text::trimmed(s)[0]);
    }
    (head, tail)
}

/// Spaces, tabs and line ends are white; what is printed isn't.
pub proof fn printed_characters_are_not_white(c: char)
    ensures
        text::white(' '),
        text::white('\t'),
        text::white('\n'),
        text::white('\r'),
        '!' <= c <= '~' ==> !text::white(c),
{
}

proof fn lemma_joined_first(a: Seq<char>, rest: Seq<Seq<char>>, sep: Seq<char>)
    requires
        rest.len() > 0,
    ensures
        text::joined(seq![a] + rest, sep) == a + sep + text::joined(rest, sep),
    decreases rest.len(),
{
    let all = seq![a] + rest;
    assert(all.len() == rest.len() + 1 && all.last() == rest.last());
    if rest.len() == 1 {
        assert(all.drop_last() =~= seq![a]);
        assert(text::joined(seq![a], sep) == a);
        assert(text::joined(rest, sep) == rest[0]);
    } else {
        lemma_joined_first(a, rest.drop_last(), sep);
        assert(all.drop_last() =~= seq![a] + rest.drop_last());
        assert(text::joined(all, sep) =~= a + sep + text::joined(rest, sep));
    }
}

/// A text that is taken apart at a character can be put together again, and no piece has the
/// character in it.
pub proof fn pieces_make_up_the_text(s: Seq<char>, sep: char, i: int)
    ensures
        text::pieces(s, sep).len() > 0,
        text::joined(text::pieces(s, sep), seq![sep]) == s,
        0 <= i < text::pieces(s, sep).len() ==> !text::pieces(s, sep)[i].contains(sep),
    decreases s.len(),
{
    let at = text::char_index(s, sep);
    text::lemma_char_index(s, sep);
    if 0 <= at < s.len() {
        let rest = s.skip(at + 1);
        let found = text::pieces(rest, sep);
        pieces_make_up_the_text(rest, sep, i - 1);
        lemma_joined_first(s.take(at), found, seq![sep]);
        assert(s =~= s.take(at) + seq![sep] + rest);
        if i == 0 {
            let first = s.take(at);
            if first.contains(sep) {
                let j = choose|j: int| 0 <= j < first.len() && first[j] == sep;
                assert(s[j] == sep);
            }
        } else if 0 < i < text::pieces(s, sep).len() {
            assert(text::pieces(s, sep)[i] == found[i - 1]);
        }
    } else {
        assert(text::joined(seq![s], seq![sep]) == s);
        if s.contains(sep) {
            let j = choose|j: int| 0 <= j < s.len() && s[j] == sep;
            assert(s[j] == sep);
        }
    }
}

proof fn lemma_number(n: nat)
    ensures
        text::number(text::decimal(n)) == n,
        text::decimal(n).len() > 0,
        text::all_digits(text::decimal(n)),
    decreases n,
{
    let s = text::decimal(n);
    if n < 10 {
        assert(s.drop_last() =~= Seq::<char>::empty());
        assert(text::number(Seq::<char>::empty()) == 0);
        assert(s.last() == text::digit(n as int));
    } else {
        lemma_number(n / 10);
        assert(s.drop_last() =~= text::decimal(n / 10));
        assert(s.last() == text::digit((n % 10) as int));
    }
}

/// A number that is written is read back.
pub proof fn written_numbers_are_read_back(n: nat)
    ensures
        text::parsed(text::decimal(n)) == Some(n),
{
    lemma_number(n);
    assert(text::is_digit(text::decimal(n)[0]));
}

/// Capitals are the same letters, and anything else stays.
pub proof fn capitals_are_the_same_letters(s: Seq<char>, i: int)
    requires
        0 <= i < s.len(),
    ensures
        text::ascii_uppercase(s).len() == s.len(),
        s[i] == 'a' ==> text::ascii_uppercase(s)[i] == 'A',
        s[i] == 'z' ==> text::ascii_uppercase(s)[i] == 'Z',
        'a' <= s[i] <= 'z' ==> text::ascii_uppercase(s)[i] as int == s[i] as int - 32,
        !('a' <= s[i] <= 'z') ==> text::ascii_uppercase(s)[i] == s[i],
        text::ascii_uppercase(text::ascii_uppercase(s)) == text::ascii_uppercase(s),
{
    assert(text::ascii_uppercase(text::ascii_uppercase(s)) =~= text::ascii_uppercase(s));
}

/// A byte is written as its two hexadecimal digits, the higher first, in small letters.
pub proof fn bytes_are_written_digit_by_digit(bytes: Seq<u8>, i: int)
    requires
        0 <= i < bytes.len(),
    ensures
        text::hex(bytes).len() == 2 * bytes.len(),
        ({
            let high = bytes[i] as int / 16;
            let low = bytes[i] as int % 16;
            &&& high < 10 ==> text::hex(bytes)[2 * i] as int == '0' as int + high
            &&& high >= 10 ==> text::hex(bytes)[2 * i] as int == 'a' as int + high - 10
            &&& low < 10 ==> text::hex(bytes)[2 * i + 1] as int == '0' as int + low
            &&& low >= 10 ==> text::hex(bytes)[2 * i + 1] as int == 'a' as int + low - 10
        }),
    decreases bytes.len(),
{
    let before = bytes.drop_last();
    text::lemma_hex_len(bytes);
    text::lemma_hex_len(before);
    if i < before.len() {
        bytes_are_written_digit_by_digit(before, i);
        assert(before[i] == bytes[i]);
        assert(text::hex(bytes)[2 * i] == text::hex(before)[2 * i]);
        assert(text::hex(bytes)[2 * i + 1] == text::hex(before)[2 * i + 1]);
    } else {
        assert(text::hex(bytes)[2 * i] == text::hex_pair(bytes[i], 'a')[0]);
        assert(text::hex(bytes)[2 * i + 1] == text::hex_pair(bytes[i], 'a')[1]);
    }
}

} // verus!
