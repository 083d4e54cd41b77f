//! What PEM text means: blocks between a line that begins one and the line that ends it.

use crate::outside;
use crate::text;
use vstd::prelude::*;

verus! {

/// The label of a line that begins a block.
pub open spec fn begin_label(line: Seq<char>) -> Option<Seq<char>> {
    let line = text::trimmed(line);
    let rest = line.skip("-----BEGIN "@.len() as int);
    if "-----BEGIN "@.is_prefix_of(line) && "-----"@.is_suffix_of(rest) {
        Some(rest.take(rest.len() - "-----"@.len()))
    } else {
        None
    }
}

/// The line that ends a block.
pub open spec fn end_line(label: Seq<char>) -> Seq<char> {
    "-----END "@ + label + "-----"@
}

/// The first line that is `end` without the space around it, or the number of lines.
pub open spec fn end_index(lines: Seq<Seq<char>>, end: Seq<char>) -> int
    decreases lines.len(),
{
    if lines.len() == 0 {
        0
    } else if text::trimmed(lines[0]) == end {
        0
    } else {
        1 + end_index(lines.drop_first(), end)
    }
}

/// The lines one after another without the space around them; headers (lines with a colon) are
/// left out.
pub open spec fn body_text(lines: Seq<Seq<char>>) -> Seq<char>
    decreases lines.len(),
{
    if lines.len() == 0 {
        seq![]
    } else {
        let line = text::trimmed(lines.last());
        if line.contains(':') {
            body_text(lines.drop_last())
        } else {
            body_text(lines.drop_last()) + line
        }
    }
}

/// The blocks of a text: label and decoded bytes, none for a body that isn't base64. One that
/// nothing ends reaches to the end.
pub open spec fn sections(lines: Seq<Seq<char>>) -> Seq<(Seq<char>, Option<Seq<u8>>)>
    decreases lines.len(),
{
    if lines.len() == 0 {
        seq![]
    } else {
        let rest = lines.drop_first();
        match begin_label(lines[0]) {
            None => sections(rest),
            Some(label) => {
                let n = end_index(rest, end_line(label));
                let next = if 0 <= n < rest.len() {
                    sections(rest.skip(n + 1))
                } else {
                    seq![]
                };
                seq![(label, outside::base64_decoded(body_text(rest.take(n))))] + next
            },
        }
    }
}

/// The blocks whose bytes could be decoded.
pub open spec fn readable(v: Seq<(Seq<char>, Option<Seq<u8>>)>) -> Seq<(Seq<char>, Seq<u8>)>
    decreases v.len(),
{
    if v.len() == 0 {
        seq![]
    } else {
        match v[0].1 {
            Some(der) => seq![(v[0].0, der)] + readable(v.drop_first()),
            None => readable(v.drop_first()),
        }
    }
}

/// The blocks of a text: label and decoded bytes. One whose body isn't base64 is left out, and
/// one that nothing ends reaches to the end.
pub open spec fn blocks(lines: Seq<Seq<char>>) -> Seq<(Seq<char>, Seq<u8>)>
    decreases lines.len(),
{
    if lines.len() == 0 {
        seq![]
    } else {
        let rest = lines.drop_first();
        match begin_label(lines[0]) {
            None => blocks(rest),
            Some(label) => {
                let n = end_index(rest, end_line(label));
                let next = if 0 <= n < rest.len() {
                    blocks(rest.skip(n + 1))
                } else {
                    seq![]
                };
                match outside::base64_decoded(body_text(rest.take(n))) {
                    Some(der) => seq![(label, der)] + next,
                    None => next,
                }
            },
        }
    }
}

/// The blocks of a text are its readable sections.
pub proof fn lemma_readable_sections(lines: Seq<Seq<char>>)
    ensures
        readable(sections(lines)) == blocks(lines),
    decreases lines.len(),
{
    if lines.len() > 0 {
        let rest = lines.drop_first();
        match begin_label(lines[0]) {
            None => lemma_readable_sections(rest),
            Some(label) => {
                let n = end_index(rest, end_line(label));
                let all = sections(lines);
                if 0 <= n < rest.len() {
                    lemma_readable_sections(rest.skip(n + 1));
                    assert(all.drop_first() =~= sections(rest.skip(n + 1)));
                } else {
                    assert(all.drop_first() =~= Seq::empty());
                }
                assert(all[0] == (label, outside::base64_decoded(body_text(rest.take(n)))));
                reveal_with_fuel(readable, 2);
            },
        }
    }
}

pub proof fn lemma_end_index_is(lines: Seq<Seq<char>>, end: Seq<char>, at: int)
    requires
        0 <= at <= lines.len(),
        forall|k: int| 0 <= k < at ==> text::trimmed(#[trigger] lines[k]) != end,
        at < lines.len() ==> text::trimmed(lines[at]) == end,
    ensures
        end_index(lines, end) == at,
    decreases lines.len(),
{
    if lines.len() > 0 && at > 0 {
        let rest = lines.drop_first();
        assert(text::trimmed(lines[0]) != end);
        assert forall|k: int| 0 <= k < at - 1 implies text::trimmed(#[trigger] rest[k]) != end by {
            assert(rest[k] == lines[k + 1]);
        }
        lemma_end_index_is(rest, end, at - 1);
    }
}

// ----- Writing -----

/// A line of base64: what 64 bytes (or the rest) hold, if that is text.
pub open spec fn chunk_text(bytes: Seq<u8>) -> Seq<char> {
    if vstd::utf8::valid_utf8(bytes) {
        vstd::utf8::decode_utf8(bytes)
    } else {
        seq![]
    }
}

pub open spec fn chunk_len(len: nat) -> int {
    if len < 64 {
        len as int
    } else {
        64
    }
}

/// The bytes as lines of 64.
pub open spec fn wrapped_bytes(bytes: Seq<u8>) -> Seq<char>
    decreases bytes.len(),
{
    if bytes.len() == 0 {
        seq![]
    } else {
        let n = chunk_len(bytes.len());
        chunk_text(bytes.take(n)) + "\n"@ + wrapped_bytes(bytes.skip(n))
    }
}

/// The characters as lines of 64.
pub open spec fn wrapped(s: Seq<char>) -> Seq<char>
    decreases s.len(),
{
    if s.len() == 0 {
        seq![]
    } else {
        let n = chunk_len(s.len());
        s.take(n) + "\n"@ + wrapped(s.skip(n))
    }
}

/// A block: the line that begins it, the lines of its body, the line that ends it.
pub open spec fn armored(label: Seq<char>, body: Seq<char>) -> Seq<char> {
    "-----BEGIN "@ + label + "-----\n"@ + body + "-----END "@ + label + "-----\n"@
}

/// The text without white space.
pub open spec fn compact(s: Seq<char>) -> Seq<char>
    decreases s.len(),
{
    if s.len() == 0 {
        seq![]
    } else if text::white(s.last()) {
        compact(s.drop_last())
    } else {
        compact(s.drop_last()).push(s.last())
    }
}

/// The first block in a text on one line: its label, its body without white space, and where it
/// ends. None if there is no complete one.
pub open spec fn first_block(s: Seq<char>) -> Option<(Seq<char>, Seq<char>, int)> {
    match text::find(s, "-----BEGIN "@) {
        None => None,
        Some(i) => {
            let start = i + "-----BEGIN "@.len();
            match text::find(s.skip(start), "-----"@) {
                None => None,
                Some(n) => {
                    let label = s.subrange(start, start + n);
                    let body = start + n + "-----"@.len();
                    match text::find(s.skip(body), end_line(label)) {
                        None => None,
                        Some(m) => Some(
                            (
                                label,
                                compact(s.subrange(body, body + m)),
                                body + m + end_line(label).len(),
                            ),
                        ),
                    }
                },
            }
        },
    }
}

/// A block ends inside the text, and not at its start.
pub proof fn lemma_first_block(s: Seq<char>)
    ensures
        first_block(s) matches Some((label, body, end)) ==> 0 < end <= s.len(),
{
    reveal_strlit("-----");
    text::lemma_find(s, "-----BEGIN "@);
    if let Some(i) = text::find(s, "-----BEGIN "@) {
        let start = i + "-----BEGIN "@.len();
        text::lemma_find(s.skip(start), "-----"@);
        if let Some(n) = text::find(s.skip(start), "-----"@) {
            let body = start + n + "-----"@.len();
            text::lemma_find(s.skip(body), end_line(s.subrange(start, start + n)));
        }
    }
}

/// The blocks of a text on one line, each with its line breaks put back; up to the first that
/// isn't complete.
pub open spec fn unfolded(s: Seq<char>) -> Seq<char>
    decreases s.len(),
{
    match first_block(s) {
        None => seq![],
        Some((label, body, end)) => {
            proof {
                lemma_first_block(s);
            }
            armored(label, wrapped_bytes(vstd::utf8::encode_utf8(body))) + unfolded(s.skip(end))
        },
    }
}

/// PEM text as pasted: line breaks that a one-line input lost are put back.
pub open spec fn normalized(s: Seq<char>) -> Seq<char> {
    let t = text::trimmed(s);
    if t.contains('\n') || !"-----BEGIN "@.is_prefix_of(t) || unfolded(t).len() == 0 {
        t
    } else {
        unfolded(t)
    }
}

// ----- Data of a kubeconfig -----

/// The PEM text of a `*-data` value: base64 of PEM, or PEM itself.
pub open spec fn data_text(data: Seq<char>) -> Result<Seq<char>, Seq<char>> {
    let t = text::trimmed(data);
    if "-----BEGIN"@.is_prefix_of(t) {
        Ok(t)
    } else {
        match outside::base64_decoded(compact(t)) {
            None => Err("not valid base64"@),
            Some(bytes) => if vstd::utf8::valid_utf8(bytes) {
                Ok(vstd::utf8::decode_utf8(bytes))
            } else {
                Err("the decoded data isn't PEM text"@)
            },
        }
    }
}

/// Text in the alphabet of base64.
pub open spec fn all_base64(s: Seq<char>) -> bool {
    forall|i: int| 0 <= i < s.len() ==> outside::base64_char(#[trigger] s[i])
}

/// Base64 has no white space, so trimming and compacting it change nothing.
pub proof fn lemma_base64_is_compact(s: Seq<char>)
    requires
        all_base64(s),
    ensures
        text::trimmed(s) == s,
        compact(s) == s,
        !"-----BEGIN"@.is_prefix_of(s),
        !s.contains(':'),
        !s.contains('\n'),
    decreases s.len(),
{
    if s.len() > 0 {
        assert(outside::base64_char(s[0]));
        assert(outside::base64_char(s[s.len() - 1]));
        assert forall|i: int| 0 <= i < s.drop_last().len() implies outside::base64_char(
            #[trigger] s.drop_last()[i],
        ) by {
            assert(s.drop_last()[i] == s[i]);
        }
        lemma_base64_is_compact(s.drop_last());
        assert(s.drop_last().push(s.last()) =~= s);
    } else {
        assert(compact(s) =~= s);
    }
    reveal_strlit("-----BEGIN");
    if "-----BEGIN"@.is_prefix_of(s) {
        assert(s[0] == '-') by {
            assert(s.take(10)[0] == "-----BEGIN"@[0]);
        }
    }
    if s.contains(':') {
        let i = choose|i: int| 0 <= i < s.len() && s[i] == ':';
        assert(outside::base64_char(s[i]));
    }
    if s.contains('\n') {
        let i = choose|i: int| 0 <= i < s.len() && s[i] == '\n';
        assert(outside::base64_char(s[i]));
    }
}

// ----- A written block reads back -----

/// A line and a line feed before a text make that line and the text's lines.
pub proof fn lemma_line_first(line: Seq<char>, rest: Seq<char>)
    requires
        !line.contains('\n'),
        line.len() > 0 ==> line.last() != '\r',
    ensures
        text::text_lines(line + "\n"@ + rest) == seq![line] + text::text_lines(rest),
{
    reveal_strlit("\n");
    let s = line + "\n"@ + rest;
    let n = line.len() as int;
    assert forall|j: int| 0 <= j < n implies s[j] != '\n' by {
        assert(s[j] == line[j]);
        assert(line.contains(line[j]));
    }
    assert(s[n] == '\n');
    text::lemma_char_index_is(s, '\n', n);
    assert(s.take(n) =~= line);
    assert(s.skip(n + 1) =~= rest);
}

/// The lines of 64 of a base64 text, before more text, are read back as that text.
proof fn lemma_wrapped_lines(s: Seq<char>, end: Seq<char>, tail: Seq<char>)
    requires
        all_base64(s),
        end.len() > 0,
        end[0] == '-',
        text::trimmed(end) == end,
        !end.contains('\n'),
        end.last() != '\r',
    ensures
        ({
            let lines = text::text_lines(wrapped(s) + end + "\n"@ + tail);
            let n = end_index(lines, end);
            &&& 0 <= n < lines.len()
            &&& body_text(lines.take(n)) == s
            &&& lines.skip(n + 1) == text::text_lines(tail)
        }),
    decreases s.len(),
{
    let all = wrapped(s) + end + "\n"@ + tail;
    if s.len() == 0 {
        assert(all =~= end + "\n"@ + tail);
        lemma_line_first(end, tail);
        let lines = text::text_lines(all);
        assert(lines[0] == end);
        assert(lines.take(0) =~= Seq::empty());
        assert(lines.skip(1) =~= text::text_lines(tail));
        assert(body_text(lines.take(0)) =~= s);
    } else {
        let n = chunk_len(s.len());
        let chunk = s.take(n);
        let more = s.skip(n);
        assert forall|i: int| 0 <= i < chunk.len() implies outside::base64_char(
            #[trigger] chunk[i],
        ) by {
            assert(chunk[i] == s[i]);
        }
        assert forall|i: int| 0 <= i < more.len() implies outside::base64_char(
            #[trigger] more[i],
        ) by {
            assert(more[i] == s[n + i]);
        }
        lemma_base64_is_compact(chunk);
        lemma_wrapped_lines(more, end, tail);
        let rest = wrapped(more) + end + "\n"@ + tail;
        assert(all =~= chunk + "\n"@ + rest);
        assert(outside::base64_char(chunk[chunk.len() - 1]));
        lemma_line_first(chunk, rest);
        let lines = text::text_lines(all);
        let after = text::text_lines(rest);
        let m = end_index(after, end);
        assert(lines.drop_first() =~= after);
        assert(lines[0] == chunk);
        assert(outside::base64_char(chunk[0]));
        assert(chunk != end);
        assert(end_index(lines, end) == 1 + m);
        assert(lines.skip(m + 2) =~= after.skip(m + 1));
        lemma_body_text_first(lines.take(m + 1));
        assert(lines.take(m + 1).drop_first() =~= after.take(m));
        assert(chunk + more =~= s);
    }
}

/// The text of a body, from its first line on.
proof fn lemma_body_text_first(lines: Seq<Seq<char>>)
    requires
        lines.len() > 0,
        !text::trimmed(lines[0]).contains(':'),
    ensures
        body_text(lines) == text::trimmed(lines[0]) + body_text(lines.drop_first()),
    decreases lines.len(),
{
    let first = text::trimmed(lines[0]);
    if lines.len() == 1 {
        assert(lines.drop_last() =~= Seq::empty());
        assert(lines.drop_first() =~= Seq::empty());
        assert(body_text(lines) =~= first + body_text(lines.drop_first()));
    } else {
        lemma_body_text_first(lines.drop_last());
        assert(lines.drop_last().drop_first() =~= lines.drop_first().drop_last());
        assert(lines.drop_first().last() == lines.last());
        assert(body_text(lines) =~= first + body_text(lines.drop_first()));
    }
}

/// Text that starts and ends with a dash has no space around it.
proof fn lemma_dashes_trimmed(s: Seq<char>)
    requires
        s.len() > 0,
        s[0] == '-',
        s.last() == '-',
    ensures
        text::trimmed(s) == s,
{
}

/// What a block of base64 reads back as: one block, with its label and the decoded bytes.
pub proof fn lemma_armored_reads_back(label: Seq<char>, s: Seq<char>, der: Seq<u8>)
    requires
        !label.contains('\n'),
        all_base64(s),
        outside::base64_decoded(s) == Some(der),
    ensures
        blocks(text::text_lines(armored(label, wrapped(s)))) == seq![(label, der)],
{
    reveal_strlit("-----BEGIN ");
    reveal_strlit("-----END ");
    reveal_strlit("-----");
    reveal_strlit("-----\n");
    reveal_strlit("\n");
    let begin = "-----BEGIN "@ + label + "-----"@;
    let end = end_line(label);
    let rest = wrapped(s) + end + "\n"@ + Seq::<char>::empty();
    assert("-----\n"@ =~= "-----"@ + "\n"@);
    assert(armored(label, wrapped(s)) =~= begin + "\n"@ + rest);
    assert forall|i: int| 0 <= i < begin.len() implies begin[i] != '\n' by {
        if 11 <= i < 11 + label.len() {
            assert(begin[i] == label[i - 11]);
            assert(label.contains(label[i - 11]));
        }
    }
    assert forall|i: int| 0 <= i < end.len() implies end[i] != '\n' by {
        if 9 <= i < 9 + label.len() {
            assert(end[i] == label[i - 9]);
            assert(label.contains(label[i - 9]));
        }
    }
    lemma_line_first(begin, rest);
    lemma_dashes_trimmed(begin);
    lemma_dashes_trimmed(end);
    lemma_wrapped_lines(s, end, Seq::empty());
    let lines = text::text_lines(armored(label, wrapped(s)));
    let after = text::text_lines(rest);
    assert(lines.drop_first() =~= after);
    assert(lines[0] == begin);
    let inner = begin.skip(11);
    assert("-----BEGIN "@ =~= begin.take(11));
    assert(inner =~= label + "-----"@);
    assert("-----"@ =~= inner.skip(label.len() as int));
    assert(inner.take(inner.len() - 5) =~= label);
    assert(begin_label(begin) == Some(label));
    let n = end_index(after, end);
    assert(blocks(after.skip(n + 1)) =~= Seq::empty());
    assert(blocks(lines) =~= seq![(label, der)]);
}

// ----- Blocks on one line -----

/// A block whose line breaks were lost.
pub open spec fn one_line(label: Seq<char>, body: Seq<char>) -> Seq<char> {
    "-----BEGIN "@ + label + "-----"@ + body + end_line(label)
}

/// A place where a text stands for the first time is where it is found.
proof fn lemma_find_is(s: Seq<char>, p: Seq<char>, at: int)
    requires
        0 <= at,
        at + p.len() <= s.len(),
        s.subrange(at, at + p.len()) == p,
        forall|j: int| 0 <= j < at ==> (#[trigger] s.subrange(j, j + p.len())) != p,
    ensures
        text::find(s, p) == Some(at),
{
    text::lemma_find(s, p);
    let found = text::find(s, p)->Some_0;
    if found < at {
        assert(s.subrange(found, found + p.len()) != p);
    }
    if at < found {
        assert(s.subrange(at, at + p.len()) != p);
    }
}

/// Every character of base64 is one byte.
proof fn lemma_base64_bytes(s: Seq<char>, n: int)
    requires
        all_base64(s),
        0 <= n <= s.len(),
    ensures
        vstd::utf8::encode_utf8(s).len() == s.len(),
        vstd::utf8::encode_utf8(s.take(n)) == vstd::utf8::encode_utf8(s).take(n),
        vstd::utf8::encode_utf8(s.skip(n)) == vstd::utf8::encode_utf8(s).skip(n),
    decreases s.len(),
{
    let all = vstd::utf8::encode_utf8(s);
    if s.len() > 0 {
        let rest = s.drop_first();
        assert(outside::base64_char(s[0]));
        assert forall|i: int| 0 <= i < rest.len() implies outside::base64_char(
            #[trigger] rest[i],
        ) by {
            assert(rest[i] == s[i + 1]);
        }
        let one = vstd::utf8::encode_scalar(s[0] as u32);
        assert(one.len() == 1);
        assert(all == one + vstd::utf8::encode_utf8(rest));
        if n > 0 {
            lemma_base64_bytes(rest, n - 1);
            assert(s.take(n).drop_first() =~= rest.take(n - 1));
            assert(s.skip(n) =~= rest.skip(n - 1));
            assert(vstd::utf8::encode_utf8(s.take(n)) =~= all.take(n));
            assert(vstd::utf8::encode_utf8(s.skip(n)) =~= all.skip(n));
        } else {
            lemma_base64_bytes(rest, 0);
            assert(s.skip(0) =~= s);
            assert(vstd::utf8::encode_utf8(s.take(0)) =~= all.take(0));
        }
    } else {
        assert(s.take(n) =~= s);
        assert(s.skip(n) =~= s);
    }
}

/// Lines of base64 are the same by bytes and by characters.
proof fn lemma_wrapped_bytes(s: Seq<char>)
    requires
        all_base64(s),
    ensures
        wrapped_bytes(vstd::utf8::encode_utf8(s)) == wrapped(s),
    decreases s.len(),
{
    lemma_base64_bytes(s, 0);
    if s.len() > 0 {
        let n = chunk_len(s.len());
        lemma_base64_bytes(s, n);
        vstd::utf8::encode_utf8_valid_utf8(s.take(n));
        vstd::utf8::encode_utf8_decode_utf8(s.take(n));
        let rest = s.skip(n);
        assert forall|i: int| 0 <= i < rest.len() implies outside::base64_char(
            #[trigger] rest[i],
        ) by {
            assert(rest[i] == s[i + n]);
        }
        lemma_wrapped_bytes(rest);
    }
}

/// A label ends at the first dashes behind it, whatever follows them.
proof fn lemma_label_found(label: Seq<char>, rest: Seq<char>)
    requires
        text::find(label + "-----"@, "-----"@) == Some(label.len() as int),
    ensures
        text::find(label + "-----"@ + rest, "-----"@) == Some(label.len() as int),
{
    let dashes = "-----"@;
    let head = label + dashes;
    let y = head + rest;
    let n = label.len() as int;
    let k = dashes.len() as int;
    text::lemma_find(head, dashes);
    assert(y.subrange(n, n + k) =~= dashes);
    assert forall|j: int| 0 <= j < n implies (#[trigger] y.subrange(j, j + dashes.len()))
        != dashes by {
        assert(y.subrange(j, j + k) =~= head.subrange(j, j + k));
    }
    lemma_find_is(y, dashes, n);
}

/// The end of a block is found behind its body, whatever follows it.
proof fn lemma_end_found(label: Seq<char>, s: Seq<char>, rest: Seq<char>)
    requires
        all_base64(s),
    ensures
        text::find(s + end_line(label) + rest, end_line(label)) == Some(s.len() as int),
{
    reveal_strlit("-----END ");
    let end = end_line(label);
    let z = s + end + rest;
    let m = s.len() as int;
    assert(end[0] == '-');
    assert(z.subrange(m, m + end.len()) =~= end);
    assert forall|j: int| 0 <= j < m implies (#[trigger] z.subrange(j, j + end.len())) != end by {
        assert(outside::base64_char(s[j]));
        assert(z.subrange(j, j + end.len())[0] == s[j]);
    }
    lemma_find_is(z, end, m);
}

/// What is found first in a text that starts with a block on one line is the block.
proof fn lemma_one_line_block(label: Seq<char>, s: Seq<char>, rest: Seq<char>)
    requires
        all_base64(s),
        text::find(label + "-----"@, "-----"@) == Some(label.len() as int),
    ensures
        first_block(one_line(label, s) + rest) == Some(
            (label, s, one_line(label, s).len() as int),
        ),
{
    let x = one_line(label, s) + rest;
    let begin = "-----BEGIN "@;
    let dashes = "-----"@;
    let end = end_line(label);
    let start = begin.len() as int;
    let n = label.len() as int;
    let body = start + n + dashes.len();
    assert(x.subrange(0, start) =~= begin);
    lemma_find_is(x, begin, 0);
    assert(x.skip(start) =~= label + dashes + (s + end + rest));
    lemma_label_found(label, s + end + rest);
    assert(x.subrange(start, start + n) =~= label);
    assert(x.skip(body) =~= s + end + rest);
    lemma_end_found(label, s, rest);
    assert(x.subrange(body, body + s.len()) =~= s);
    lemma_base64_is_compact(s);
}

/// A label of a block: on one line, and it ends where the dashes behind it begin.
pub open spec fn is_label(label: Seq<char>) -> bool {
    !label.contains('\n') && text::find(label + "-----"@, "-----"@) == Some(label.len() as int)
}

/// A label and the base64 text of a block.
pub open spec fn is_part(part: (Seq<char>, Seq<char>)) -> bool {
    is_label(part.0) && all_base64(part.1)
}

/// Blocks one after another.
pub open spec fn all_armored(parts: Seq<(Seq<char>, Seq<char>)>) -> Seq<char>
    decreases parts.len(),
{
    if parts.len() == 0 {
        seq![]
    } else {
        armored(parts[0].0, wrapped(parts[0].1)) + all_armored(parts.drop_first())
    }
}

/// Blocks whose line breaks were lost, one after another.
pub open spec fn all_on_one_line(parts: Seq<(Seq<char>, Seq<char>)>) -> Seq<char>
    decreases parts.len(),
{
    if parts.len() == 0 {
        seq![]
    } else {
        one_line(parts[0].0, parts[0].1) + all_on_one_line(parts.drop_first())
    }
}

/// The text without its line breaks.
pub open spec fn unbroken(s: Seq<char>) -> Seq<char>
    decreases s.len(),
{
    if s.len() == 0 {
        seq![]
    } else if s.last() == '\n' {
        unbroken(s.drop_last())
    } else {
        unbroken(s.drop_last()).push(s.last())
    }
}

proof fn lemma_unbroken_both(a: Seq<char>, b: Seq<char>)
    ensures
        unbroken(a + b) == unbroken(a) + unbroken(b),
    decreases b.len(),
{
    if b.len() == 0 {
        assert(a + b =~= a);
        assert(unbroken(a) + unbroken(b) =~= unbroken(a));
    } else {
        lemma_unbroken_both(a, b.drop_last());
        assert((a + b).drop_last() =~= a + b.drop_last());
        assert(unbroken(a + b) =~= unbroken(a) + unbroken(b));
    }
}

proof fn lemma_unbroken_line(s: Seq<char>)
    requires
        !s.contains('\n'),
    ensures
        unbroken(s) == s,
    decreases s.len(),
{
    if s.len() > 0 {
        assert(s.contains(s.last()));
        if s.drop_last().contains('\n') {
            let i = choose|i: int| 0 <= i < s.drop_last().len() && s.drop_last()[i] == '\n';
            assert(s[i] == '\n');
        }
        lemma_unbroken_line(s.drop_last());
        assert(s.drop_last().push(s.last()) =~= s);
    } else {
        assert(unbroken(s) =~= s);
    }
}

/// A line and its line break, without the break.
proof fn lemma_unbroken_first(line: Seq<char>, rest: Seq<char>)
    requires
        !line.contains('\n'),
    ensures
        unbroken(line + "\n"@ + rest) == line + unbroken(rest),
{
    reveal_strlit("\n");
    lemma_unbroken_both(line + "\n"@, rest);
    assert((line + "\n"@).drop_last() =~= line);
    lemma_unbroken_line(line);
}

proof fn lemma_unbroken_wrapped(s: Seq<char>)
    requires
        all_base64(s),
    ensures
        unbroken(wrapped(s)) == s,
    decreases s.len(),
{
    if s.len() == 0 {
        assert(unbroken(wrapped(s)) =~= s);
    } else {
        let n = chunk_len(s.len());
        let chunk = s.take(n);
        let more = s.skip(n);
        assert forall|i: int| 0 <= i < chunk.len() implies outside::base64_char(
            #[trigger] chunk[i],
        ) by {
            assert(chunk[i] == s[i]);
        }
        assert forall|i: int| 0 <= i < more.len() implies outside::base64_char(
            #[trigger] more[i],
        ) by {
            assert(more[i] == s[n + i]);
        }
        lemma_base64_is_compact(chunk);
        lemma_unbroken_first(chunk, wrapped(more));
        lemma_unbroken_wrapped(more);
        assert(chunk + more =~= s);
    }
}

/// A block without its line breaks is the block on one line.
proof fn lemma_unbroken_block(label: Seq<char>, s: Seq<char>)
    requires
        !label.contains('\n'),
        all_base64(s),
    ensures
        unbroken(armored(label, wrapped(s))) == one_line(label, s),
        !one_line(label, s).contains('\n'),
{
    reveal_strlit("-----BEGIN ");
    reveal_strlit("-----END ");
    reveal_strlit("-----");
    reveal_strlit("-----\n");
    reveal_strlit("\n");
    let begin = "-----BEGIN "@ + label + "-----"@;
    let end = end_line(label);
    assert("-----\n"@ =~= "-----"@ + "\n"@);
    assert forall|i: int| 0 <= i < begin.len() implies begin[i] != '\n' by {
        if 11 <= i < 11 + label.len() {
            assert(begin[i] == label[i - 11]);
            assert(label.contains(label[i - 11]));
        }
    }
    assert forall|i: int| 0 <= i < end.len() implies end[i] != '\n' by {
        if 9 <= i < 9 + label.len() {
            assert(end[i] == label[i - 9]);
            assert(label.contains(label[i - 9]));
        }
    }
    let none = Seq::<char>::empty();
    let last = end + "\n"@ + none;
    let rest = wrapped(s) + last;
    assert(armored(label, wrapped(s)) =~= begin + "\n"@ + rest);
    lemma_unbroken_first(begin, rest);
    lemma_unbroken_both(wrapped(s), last);
    lemma_unbroken_wrapped(s);
    lemma_unbroken_first(end, none);
    assert(begin + (s + (end + unbroken(none))) =~= one_line(label, s));
    lemma_base64_is_compact(s);
    let x = one_line(label, s);
    assert forall|i: int| 0 <= i < x.len() implies x[i] != '\n' by {
        let a = begin.len() as int;
        if i < a {
            assert(x[i] == begin[i]);
        } else if i < a + s.len() {
            assert(x[i] == s[i - a]);
            assert(s.contains(s[i - a]));
        } else {
            assert(x[i] == end[i - a - s.len()]);
        }
    }
}

proof fn lemma_unbroken_blocks(parts: Seq<(Seq<char>, Seq<char>)>)
    requires
        forall|i: int| 0 <= i < parts.len() ==> is_part(#[trigger] parts[i]),
    ensures
        unbroken(all_armored(parts)) == all_on_one_line(parts),
        !all_on_one_line(parts).contains('\n'),
        parts.len() > 0 ==> ({
            let x = all_on_one_line(parts);
            x.len() > 0 && x[0] == '-' && x.last() == '-' && "-----BEGIN "@.is_prefix_of(x)
        }),
    decreases parts.len(),
{
    if parts.len() > 0 {
        let rest = parts.drop_first();
        assert(is_part(parts[0]));
        assert forall|i: int| 0 <= i < rest.len() implies is_part(#[trigger] rest[i]) by {
            assert(rest[i] == parts[i + 1]);
        }
        lemma_unbroken_blocks(rest);
        let (label, s) = parts[0];
        lemma_unbroken_block(label, s);
        lemma_unbroken_both(armored(label, wrapped(s)), all_armored(rest));
        let first = one_line(label, s);
        let more = all_on_one_line(rest);
        let x = all_on_one_line(parts);
        assert forall|i: int| 0 <= i < x.len() implies x[i] != '\n' by {
            if i < first.len() {
                assert(x[i] == first[i]);
                assert(first.contains(first[i]));
            } else {
                assert(x[i] == more[i - first.len()]);
                assert(more.contains(more[i - first.len()]));
            }
        }
        reveal_strlit("-----BEGIN ");
        reveal_strlit("-----");
        assert(first[0] == '-' && first.last() == '-');
        assert(x.take("-----BEGIN "@.len() as int) =~= "-----BEGIN "@);
        if rest.len() == 0 {
            assert(x =~= first);
        } else {
            assert(x.last() == more.last());
        }
    }
}

proof fn lemma_blocks_unfold(parts: Seq<(Seq<char>, Seq<char>)>)
    requires
        forall|i: int| 0 <= i < parts.len() ==> is_part(#[trigger] parts[i]),
    ensures
        unfolded(all_on_one_line(parts)) == all_armored(parts),
    decreases parts.len(),
{
    let x = all_on_one_line(parts);
    if parts.len() == 0 {
        reveal_strlit("-----BEGIN ");
        text::lemma_find(x, "-----BEGIN "@);
        assert(first_block(x) is None);
    } else {
        let rest = parts.drop_first();
        assert(is_part(parts[0]));
        assert forall|i: int| 0 <= i < rest.len() implies is_part(#[trigger] rest[i]) by {
            assert(rest[i] == parts[i + 1]);
        }
        let (label, s) = parts[0];
        let more = all_on_one_line(rest);
        lemma_one_line_block(label, s, more);
        lemma_wrapped_bytes(s);
        lemma_blocks_unfold(rest);
        assert(x.skip(one_line(label, s).len() as int) =~= more);
    }
}

/// Blocks that were pasted into a one-line input, one or several run together, get back the line
/// breaks that they lost.
pub proof fn blocks_on_one_line_are_put_back(parts: Seq<(Seq<char>, Seq<char>)>)
    requires
        parts.len() > 0,
        forall|i: int| 0 <= i < parts.len() ==> is_part(#[trigger] parts[i]),
    ensures
        normalized(unbroken(all_armored(parts))) == all_armored(parts),
{
    let x = all_on_one_line(parts);
    lemma_unbroken_blocks(parts);
    lemma_blocks_unfold(parts);
    lemma_dashes_trimmed(x);
    reveal_strlit("-----BEGIN ");
    let (label, s) = parts[0];
    assert(armored(label, wrapped(s)).len() > 0);
}

/// A label without dashes and line breaks is a label.
pub proof fn labels_have_no_dashes(label: Seq<char>)
    requires
        !label.contains('-'),
        !label.contains('\n'),
    ensures
        is_label(label),
{
    reveal_strlit("-----");
    let dashes = "-----"@;
    let x = label + dashes;
    let n = label.len() as int;
    assert(x.subrange(n, n + dashes.len()) =~= dashes);
    assert forall|j: int| 0 <= j < n implies (#[trigger] x.subrange(j, j + dashes.len()))
        != dashes by {
        assert(label.contains(label[j]));
        assert(x.subrange(j, j + dashes.len())[0] == label[j]);
    }
    lemma_find_is(x, dashes, n);
}

/// Text that has line breaks, or doesn't start with a block, is only trimmed.
pub proof fn other_text_is_only_trimmed(s: Seq<char>)
    requires
        text::trimmed(s).contains('\n') || !"-----BEGIN "@.is_prefix_of(text::trimmed(s)),
    ensures
        normalized(s) == text::trimmed(s),
{
}

/// A block that lost its line breaks gets them back.
pub proof fn lemma_one_block(label: Seq<char>, s: Seq<char>)
    requires
        is_label(label),
        all_base64(s),
    ensures
        normalized(unbroken(armored(label, wrapped(s)))) == armored(label, wrapped(s)),
{
    let parts = seq![(label, s)];
    assert(parts.drop_first() =~= Seq::empty());
    assert(all_armored(parts.drop_first()) =~= Seq::empty());
    assert(all_armored(parts) =~= armored(label, wrapped(s)));
    blocks_on_one_line_are_put_back(parts);
}

/// A block that was pasted into a one-line input is read as the block it was.
pub proof fn a_block_on_one_line_is_read(label: Seq<char>, s: Seq<char>, der: Seq<u8>)
    requires
        is_label(label),
        all_base64(s),
        outside::base64_decoded(s) == Some(der),
    ensures
        blocks(text::text_lines(normalized(one_line(label, s)))) == seq![(label, der)],
{
    lemma_one_block(label, s);
    lemma_unbroken_block(label, s);
    lemma_armored_reads_back(label, s, der);
}

} // verus!
