//! What saving a file promises: whose backups are whose, which are listed and which go, what
//! becomes of a file's mode, and which names new files get.

use crate::files::{self, Refusal};
use crate::names;
use crate::outside;
use crate::text;
use vstd::prelude::*;

verus! {

/// The first eight characters of the hexadecimal SHA-256 of a path.
pub open spec fn path_digest(path: Seq<char>) -> Seq<char> {
    text::hex(outside::sha256(vstd::utf8::encode_utf8(path))).take(8)
}

/// The prefix of a file's backups is the file's stem, with what isn't a letter, a digit, `-` or
/// `_` made plain, and the digest of the whole path: its first eight characters.
pub proof fn backup_prefixes_carry_the_path(stem: Option<Seq<char>>, path: Seq<char>)
    ensures
        ({
            let shown = match stem {
                Some(s) => s,
                None => "kubeconfig"@,
            };
            let prefix = files::prefix_of(stem, path);
            let n = shown.len() as int;
            &&& path_digest(path).len() == 8 ==> prefix.len() == n + 10
            &&& path_digest(path).len() == 8 ==> prefix.subrange(n + 1, n + 9) == path_digest(path)
            &&& prefix[n] == '-' && prefix.last() == '-'
            &&& forall|i: int|
                0 <= i < n ==> #[trigger] prefix[i] == if text::ascii_alphanumeric(shown[i])
                    || shown[i] == '-' || shown[i] == '_' {
                    shown[i]
                } else {
                    '-'
                }
        }),
{
    reveal_strlit("-");
    let shown = match stem {
        Some(s) => s,
        None => "kubeconfig"@,
    };
    let prefix = files::prefix_of(stem, path);
    let n = shown.len() as int;
    assert(prefix == files::plain_text(shown) + "-"@ + path_digest(path) + "-"@);
    if path_digest(path).len() == 8 {
        assert(prefix.subrange(n + 1, n + 9) =~= path_digest(path));
    }
}

proof fn lemma_with_prefix(names: Seq<Seq<char>>, prefix: Seq<char>, x: Seq<char>)
    ensures
        files::with_prefix(names, prefix).contains(x) <==> names.contains(x)
            && prefix.is_prefix_of(x),
    decreases names.len(),
{
    if names.len() > 0 {
        let before = names.drop_last();
        lemma_with_prefix(before, prefix, x);
        let found = files::with_prefix(before, prefix);
        let all = files::with_prefix(names, prefix);
        if all.contains(x) {
            let i = choose|i: int| 0 <= i < all.len() && all[i] == x;
            if i < found.len() {
                assert(found[i] == x);
                let j = choose|j: int| 0 <= j < before.len() && before[j] == x;
                assert(names[j] == x);
            } else {
                assert(names[names.len() - 1] == x);
            }
        }
        if names.contains(x) && prefix.is_prefix_of(x) {
            let i = choose|i: int| 0 <= i < names.len() && names[i] == x;
            if i < before.len() {
                assert(before[i] == x);
                let j = choose|j: int| 0 <= j < found.len() && found[j] == x;
                assert(all[j] == x);
            } else {
                assert(all[all.len() - 1] == x);
            }
        }
    }
}

/// The listed backups of a file are exactly the names that begin with its prefix.
pub proof fn backups_are_listed_by_prefix(names: Seq<Seq<char>>, prefix: Seq<char>, x: Seq<char>)
    ensures
        files::with_prefix(names, prefix).contains(x) <==> names.contains(x) && prefix.len()
            <= x.len() && x.take(prefix.len() as int) == prefix,
{
    lemma_with_prefix(names, prefix, x);
    if prefix.len() <= x.len() && x.take(prefix.len() as int) == prefix {
        assert(prefix =~= x.subrange(0, prefix.len() as int));
    }
    if prefix.is_prefix_of(x) {
        assert(x.take(prefix.len() as int) =~= prefix);
    }
}

/// The stem that a file's backups are named after.
pub open spec fn shown_stem(stem: Option<Seq<char>>) -> Seq<char> {
    match stem {
        Some(s) => s,
        None => "kubeconfig"@,
    }
}

/// Stems that are the same, or that part somewhere.
pub open spec fn stems_part(a: Seq<char>, b: Seq<char>) -> bool {
    a == b || exists|i: int| 0 <= i < a.len() && i < b.len() && #[trigger] a[i] != b[i]
}

/// Two files share no backups: where the digests of their paths begin differently, and their stems
/// are the same or part, no name begins with both prefixes. So pruning the backups of one leaves
/// those of the other alone, even if the files are named the same.
pub proof fn files_share_no_backups(
    names: Seq<Seq<char>>,
    stem_a: Option<Seq<char>>,
    a: Seq<char>,
    stem_b: Option<Seq<char>>,
    b: Seq<char>,
    x: Seq<char>,
)
    requires
        stems_part(
            files::plain_text(shown_stem(stem_a)),
            files::plain_text(shown_stem(stem_b)),
        ),
    ensures
        path_digest(a).len() == 8 && path_digest(b).len() == 8 && path_digest(a) != path_digest(b)
            ==> {
            let prefix_a = files::prefix_of(stem_a, a);
            let prefix_b = files::prefix_of(stem_b, b);
            &&& !(prefix_a.is_prefix_of(x) && prefix_b.is_prefix_of(x))
            &&& !prefix_a.is_prefix_of(prefix_b + x)
            &&& !prefix_b.is_prefix_of(prefix_a + x)
            &&& files::with_prefix(names, prefix_a).contains(x) ==> !files::with_prefix(
                names,
                prefix_b,
            ).contains(x)
        },
{
    let prefix_a = files::prefix_of(stem_a, a);
    let prefix_b = files::prefix_of(stem_b, b);
    assert(prefix_a == files::prefix_of(Some(shown_stem(stem_a)), a));
    assert(prefix_b == files::prefix_of(Some(shown_stem(stem_b)), b));
    lemma_with_prefix(names, prefix_a, x);
    lemma_with_prefix(names, prefix_b, x);
    if path_digest(a).len() == 8 && path_digest(b).len() == 8 && path_digest(a) != path_digest(b) {
        if prefix_a.is_prefix_of(x) && prefix_b.is_prefix_of(x) {
            lemma_prefixes_part(shown_stem(stem_a), a, shown_stem(stem_b), b, x);
        }
        if prefix_a.is_prefix_of(prefix_b + x) {
            assert(prefix_b.is_prefix_of(prefix_b + x)) by {
                assert((prefix_b + x).subrange(0, prefix_b.len() as int) =~= prefix_b);
            }
            lemma_prefixes_part(shown_stem(stem_a), a, shown_stem(stem_b), b, prefix_b + x);
        }
        if prefix_b.is_prefix_of(prefix_a + x) {
            assert(prefix_a.is_prefix_of(prefix_a + x)) by {
                assert((prefix_a + x).subrange(0, prefix_a.len() as int) =~= prefix_a);
            }
            lemma_prefixes_part(shown_stem(stem_a), a, shown_stem(stem_b), b, prefix_a + x);
        }
    }
}

proof fn lemma_prefixes_part(
    stem_a: Seq<char>,
    a: Seq<char>,
    stem_b: Seq<char>,
    b: Seq<char>,
    x: Seq<char>,
)
    requires
        stems_part(files::plain_text(stem_a), files::plain_text(stem_b)),
        path_digest(a).len() == 8,
        path_digest(b).len() == 8,
        path_digest(a) != path_digest(b),
        files::prefix_of(Some(stem_a), a).is_prefix_of(x),
    ensures
        !files::prefix_of(Some(stem_b), b).is_prefix_of(x),
{
    reveal_strlit("-");
    let pa = files::plain_text(stem_a);
    let pb = files::plain_text(stem_b);
    let prefix_a = files::prefix_of(Some(stem_a), a);
    let prefix_b = files::prefix_of(Some(stem_b), b);
    assert(prefix_a == pa + "-"@ + path_digest(a) + "-"@);
    assert(prefix_b == pb + "-"@ + path_digest(b) + "-"@);
    if prefix_b.is_prefix_of(x) {
        let xa = x.subrange(0, prefix_a.len() as int);
        let xb = x.subrange(0, prefix_b.len() as int);
        assert(prefix_a == xa && prefix_b == xb);
        if pa == pb {
            let n = pa.len() as int;
            assert forall|i: int| 0 <= i < 8 implies path_digest(a)[i] == path_digest(b)[i] by {
                assert(prefix_a[n + 1 + i] == path_digest(a)[i]);
                assert(prefix_b[n + 1 + i] == path_digest(b)[i]);
                assert(xa[n + 1 + i] == x[n + 1 + i] && xb[n + 1 + i] == x[n + 1 + i]);
            }
            assert(path_digest(a) =~= path_digest(b));
        } else {
            let i = choose|i: int| 0 <= i < pa.len() && i < pb.len() && #[trigger] pa[i] != pb[i];
            assert(prefix_a[i] == pa[i] && prefix_b[i] == pb[i]);
            assert(xa[i] == x[i] && xb[i] == x[i]);
        }
    }
}

/// A new backup has a name that isn't taken, it is listed among the backups of its file, and its
/// name goes on with the timestamp.
pub proof fn new_backups_have_free_names(
    names: Seq<Seq<char>>,
    prefix: Seq<char>,
    stamp: Seq<char>,
)
    ensures
        ({
            let new = files::backup_file(names, prefix, stamp);
            &&& !names.contains(new)
            &&& (prefix + stamp).is_prefix_of(new)
            &&& prefix.is_prefix_of(new)
            &&& ".yaml"@.is_suffix_of(new)
            &&& files::with_prefix(names.push(new), prefix).contains(new)
        }),
{
    let head = prefix + stamp;
    let high = files::highest(files::with_prefix(names, prefix), prefix, stamp);
    let from: nat = match high {
        Some(n) => n + 2,
        None => 3,
    };
    names::a_number_is_free(names, head, ".yaml"@, from);
    let new = files::backup_file(names, prefix, stamp);
    assert(exists|mid: Seq<char>| new == head + mid + ".yaml"@) by {
        let first = match high {
            None => head + ".yaml"@,
            Some(n) => names::numbered(head, n + 1, ".yaml"@),
        };
        if !names.contains(first) {
            if let Some(n) = high {
                assert(new =~= head + ("-"@ + text::decimal(n + 1)) + ".yaml"@);
            } else {
                assert(new =~= head + Seq::<char>::empty() + ".yaml"@);
            }
        } else {
            let n = names::free_number(names, head, ".yaml"@, from);
            assert(new =~= head + ("-"@ + text::decimal(n)) + ".yaml"@);
        }
    }
    let mid = choose|mid: Seq<char>| new == head + mid + ".yaml"@;
    assert(new.subrange(0, head.len() as int) =~= head);
    assert(new.subrange(0, prefix.len() as int) =~= prefix);
    assert(new.subrange(new.len() - ".yaml"@.len(), new.len() as int) =~= ".yaml"@);
    lemma_with_prefix(names.push(new), prefix, new);
    assert(names.push(new)[names.len() as int] == new);
}

/// Backups are ordered by their timestamps, and those of one second by their counters as numbers,
/// so that the tenth comes behind the ninth.
pub proof fn counters_are_numbers(prefix: Seq<char>, stamp: Seq<char>, m: nat, n: nat)
    requires
        files::is_stamp(stamp),
        m <= n <= u32::MAX,
    ensures
        files::key_of(prefix, names::numbered(prefix + stamp, n, ".yaml"@)) == (stamp, n),
        files::not_newer(
            files::key_of(prefix, names::numbered(prefix + stamp, m, ".yaml"@)),
            files::key_of(prefix, names::numbered(prefix + stamp, n, ".yaml"@)),
        ),
        m < n ==> !files::not_newer(
            files::key_of(prefix, names::numbered(prefix + stamp, n, ".yaml"@)),
            files::key_of(prefix, names::numbered(prefix + stamp, m, ".yaml"@)),
        ),
{
    files::lemma_numbered_counter(stamp, m);
    files::lemma_numbered_counter(stamp, n);
    let of_m = names::numbered(prefix + stamp, m, ".yaml"@);
    let of_n = names::numbered(prefix + stamp, n, ".yaml"@);
    assert(of_m.skip(prefix.len() as int) =~= stamp + "-"@ + text::decimal(m) + ".yaml"@);
    assert(of_n.skip(prefix.len() as int) =~= stamp + "-"@ + text::decimal(n) + ".yaml"@);
    text::lemma_precedes_total(stamp, stamp);
}

/// A backup of a later second is newer, whatever its counter.
pub proof fn later_seconds_are_newer(a: (Seq<char>, nat), b: (Seq<char>, nat))
    requires
        text::precedes(a.0, b.0),
    ensures
        files::not_newer(a, b),
        !files::not_newer(b, a),
{
    text::lemma_precedes_total(a.0, b.0);
}

/// How many backups pruning leaves: as many as are to be kept, but never none.
pub proof fn pruning_never_takes_the_last(sorted: Seq<Seq<char>>, keep: nat)
    ensures
        sorted.len() > 0 ==> files::pruned(sorted, keep).len() < sorted.len(),
        files::pruned(sorted, keep).is_prefix_of(sorted),
        sorted.len() <= keep ==> files::pruned(sorted, keep).len() == 0,
        keep > 0 && sorted.len() > keep ==> files::pruned(sorted, keep).len() == sorted.len()
            - keep,
{
    let gone = files::pruned(sorted, keep);
    assert(sorted.subrange(0, gone.len() as int) =~= gone);
}

/// Files that hold credentials, and new ones, are for their owner alone; others keep their mode.
pub proof fn private_files_are_for_their_owner(mode: Option<u32>)
    ensures
        files::mode_of(true, mode) == Some(384u32),
        files::mode_of(false, mode) == mode,
{
    assert(0o600u32 == 384u32);
}

/// What a refused save is told: that a new file is there already, or that the loaded one changed
/// to what it is now.
pub proof fn refusals_tell_what_is_there(
    expected: Option<Seq<char>>,
    current: Option<Seq<char>>,
)
    ensures
        expected is None && current is Some ==> files::first_check(expected, current) == Some(
            Refusal::Exists,
        ),
        expected is Some && expected != current ==> files::first_check(expected, current) == Some(
            Refusal::Changed(current),
        ),
        expected is None && current is Some ==> files::last_check(current, expected) == Some(
            Refusal::Exists,
        ),
        expected is Some && expected != current ==> files::last_check(current, expected) == Some(
            Refusal::Changed(current),
        ),
{
}

proof fn lemma_marks_before(s: Seq<char>)
    ensures
        forall|i: int|
            0 <= i < files::without_marks_before(s).len() ==> s.contains(
                #[trigger] files::without_marks_before(s)[i],
            ),
        files::without_marks_before(s).len() > 0 ==> !files::is_mark(
            files::without_marks_before(s)[0],
        ),
    decreases s.len(),
{
    if s.len() > 0 && files::is_mark(s[0]) {
        let rest = s.drop_first();
        lemma_marks_before(rest);
        let r = files::without_marks_before(s);
        assert forall|i: int| 0 <= i < r.len() implies s.contains(#[trigger] r[i]) by {
            assert(rest.contains(r[i]));
            let j = choose|j: int| 0 <= j < rest.len() && rest[j] == r[i];
            assert(s[j + 1] == r[i]);
        }
    }
}

proof fn lemma_marks_behind(s: Seq<char>)
    ensures
        files::without_marks_behind(s).is_prefix_of(s),
        files::without_marks_behind(s).len() > 0 ==> !files::is_mark(
            files::without_marks_behind(s).last(),
        ),
    decreases s.len(),
{
    let r = files::without_marks_behind(s);
    if s.len() > 0 && files::is_mark(s.last()) {
        lemma_marks_behind(s.drop_last());
        assert(s.subrange(0, r.len() as int) =~= s.drop_last().subrange(0, r.len() as int));
    } else {
        assert(s.subrange(0, s.len() as int) =~= s);
    }
}

/// The stem of a new file's name is made of letters, digits, `-`, `_` and `.` alone, so that it
/// leads to no other folder; it isn't empty and neither begins nor ends with `-` or `.`.
pub proof fn stems_of_new_files_are_plain(name: Seq<char>)
    ensures
        ({
            let stem = files::stem_of(name);
            &&& stem.len() > 0
            &&& stem[0] != '.' && stem[0] != '-'
            &&& stem.last() != '.' && stem.last() != '-'
            &&& forall|i: int|
                0 <= i < stem.len() ==> text::ascii_alphanumeric(#[trigger] stem[i]) || stem[i]
                    == '-' || stem[i] == '_' || stem[i] == '.'
            &&& forall|i: int| 0 <= i < stem.len() ==> #[trigger] stem[i] != '/'
        }),
{
    reveal_strlit("kubeconfig");
    let plain = Seq::new(name.len(), |i: int| files::stem_char(name[i]));
    let p = files::without_marks_before(plain);
    lemma_marks_before(plain);
    let q = files::without_marks_behind(p);
    lemma_marks_behind(p);
    let stem = files::stem_of(name);
    if q.len() > 0 {
        assert(stem == q);
        assert forall|i: int| 0 <= i < q.len() implies text::ascii_alphanumeric(#[trigger] q[i])
            || q[i] == '-' || q[i] == '_' || q[i] == '.' by {
            assert(q == p.subrange(0, q.len() as int));
            assert(q[i] == p[i]);
            assert(plain.contains(p[i]));
            let j = choose|j: int| 0 <= j < plain.len() && plain[j] == p[i];
            assert(plain[j] == files::stem_char(name[j]));
        }
        assert(q[0] == p[0]) by {
            assert(q == p.subrange(0, q.len() as int));
        }
    }
}

/// A name that is plain already is kept: the file is named after it.
pub proof fn plain_names_are_kept(name: Seq<char>)
    requires
        name.len() > 0,
        forall|i: int|
            0 <= i < name.len() ==> text::ascii_alphanumeric(#[trigger] name[i]) || name[i] == '-'
                || name[i] == '_' || name[i] == '.',
        name[0] != '-' && name[0] != '.',
        name.last() != '-' && name.last() != '.',
    ensures
        files::stem_of(name) == name,
        files::owned_file(seq![], name) == name + ".yaml"@,
{
    let plain = Seq::new(name.len(), |i: int| files::stem_char(name[i]));
    assert(plain =~= name);
}

} // verus!
