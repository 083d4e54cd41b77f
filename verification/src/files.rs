//! Reading and saving kubeconfig files: what a save checks, writes, backs up and prunes.
//!
//! A save refuses to overwrite a file whose SHA-256 changed since it was loaded (another tool
//! wrote it), copies the old contents to a timestamped backup (the last N per file), and
//! replaces the file atomically. The hash is checked before the backup and again right before
//! the file is replaced. New files and files with inline credentials are 0600; others keep
//! their mode.

use crate::names;
use crate::outside;
use crate::report;
use crate::text::{self, cat4};
use vstd::prelude::*;

verus! {

/// A file as it was read.
#[derive(Debug, PartialEq, Eq)]
pub struct Snapshot {
    pub text: String,
    /// SHA-256 of the bytes, hex. `None`: the file doesn't exist.
    pub hash: Option<String>,
}

/// SHA-256 of `bytes` as hex.
pub open spec fn hash_of(bytes: Seq<u8>) -> Seq<char> {
    text::hex(outside::sha256(bytes))
}

/// SHA-256 of `bytes` as hex.
pub fn hash(bytes: &[u8]) -> (r: String)
    ensures
        r@ == hash_of(bytes@),
{
    text::hex_text(&outside::sha256_digest(bytes))
}

/// The hash of a file's bytes; none without a file.
pub open spec fn hash_of_file(bytes: Option<Vec<u8>>) -> Option<Seq<char>> {
    match bytes {
        Some(b) => Some(hash_of(b@)),
        None => None,
    }
}

/// The file's hash; `None` if it doesn't exist.
pub fn hash_file(bytes: &Option<Vec<u8>>) -> (r: Option<String>)
    ensures
        text::text_of(r) == hash_of_file(*bytes),
{
    match bytes {
        Some(b) => Some(hash(b.as_slice())),
        None => None,
    }
}

/// A kubeconfig from its bytes. A missing file is an empty snapshot without a hash.
pub fn snapshot(bytes: Option<Vec<u8>>) -> (r: Result<Snapshot, String>)
    ensures
        match bytes {
            None => r is Ok && r->Ok_0.text@.len() == 0 && r->Ok_0.hash is None,
            Some(b) => if vstd::utf8::valid_utf8(b@) {
                r is Ok && r->Ok_0.text@ == vstd::utf8::decode_utf8(b@) && text::text_of(
                    r->Ok_0.hash,
                ) == Some(hash_of(b@))
            } else {
                r is Err && r->Err_0@ == "the file isn't UTF-8 text"@
            },
        },
{
    match bytes {
        None => Ok(Snapshot { text: String::new(), hash: None }),
        Some(b) => {
            let hash: String = hash(b.as_slice());
            match outside::utf8_text(b) {
                Some(text) => Ok(Snapshot { text, hash: Some(hash) }),
                None => Err("the file isn't UTF-8 text".to_string()),
            }
        },
    }
}

/// Where backups go and how many are kept per file.
#[derive(Debug)]
pub struct Backups {
    pub dir: String,
    pub keep: usize,
}

/// How to save.
#[derive(Debug)]
pub struct SaveOptions {
    /// The hash the file had when it was loaded; `None` for a new file (which must not exist).
    pub expected: Option<String>,
    pub backups: Option<Backups>,
    /// Write mode 0600 (new files and files with inline credentials).
    pub private: bool,
}

/// Why a save didn't happen.
#[derive(Debug, PartialEq, Eq)]
pub enum SaveError {
    /// The file changed on disk since it was loaded (`current`: its hash now, `None` if it was
    /// deleted).
    Changed { current: Option<String> },
    /// A new file would overwrite an existing one.
    Exists,
    Io(String),
}

impl SaveError {
    pub fn message(&self) -> (r: String)
        ensures
            r@ == match *self {
                SaveError::Changed { current: Some(_) } => "the file changed on disk since it was opened"@,
                SaveError::Changed { current: None } => "the file was deleted since it was opened"@,
                SaveError::Exists => "a file with that name already exists"@,
                SaveError::Io(e) => e@,
            },
    {
        match self {
            SaveError::Changed { current: Some(_) } => "the file changed on disk since it was opened".to_string(),
            SaveError::Changed { current: None } => "the file was deleted since it was opened".to_string(),
            SaveError::Exists => "a file with that name already exists".to_string(),
            SaveError::Io(e) => e.clone(),
        }
    }
}

/// What a save did.
#[derive(Debug, PartialEq, Eq)]
pub struct Saved {
    /// The file that was written (the symlink's target for a symlink).
    pub written: String,
    pub hash: String,
    pub backup: Option<String>,
    /// The file's permission bits now (Unix).
    pub mode: Option<u32>,
}

// ----- The checks -----

/// Why a save is refused.
pub enum Refusal {
    Changed(Option<Seq<char>>),
    Exists,
}

/// What the first check says: a new file must not exist, another one must be as it was loaded.
pub open spec fn first_check(expected: Option<Seq<char>>, current: Option<Seq<char>>) -> Option<
    Refusal,
> {
    match expected {
        None => if current is Some {
            Some(Refusal::Exists)
        } else {
            None
        },
        Some(_) => if current == expected {
            None
        } else {
            Some(Refusal::Changed(current))
        },
    }
}

/// What the check right before the file is replaced says: it is as it was at the first check.
pub open spec fn last_check(now: Option<Seq<char>>, current: Option<Seq<char>>) -> Option<
    Refusal,
> {
    if now == current {
        None
    } else if now is Some && current is None {
        Some(Refusal::Exists)
    } else {
        Some(Refusal::Changed(now))
    }
}

/// An outcome of a check.
pub open spec fn refusal_of(r: Result<(), SaveError>) -> Option<Refusal> {
    match r {
        Ok(_) => None,
        Err(SaveError::Changed { current }) => Some(Refusal::Changed(text::text_of(current))),
        Err(_) => Some(Refusal::Exists),
    }
}

fn same_hash(a: &Option<String>, b: &Option<String>) -> (r: bool)
    ensures
        r == (text::text_of(*a) == text::text_of(*b)),
{
    match (a, b) {
        (Some(a), Some(b)) => text::same(a.as_str(), b.as_str()),
        (None, None) => true,
        _ => false,
    }
}

fn check_current(expected: &Option<String>, current: &Option<String>) -> (r: Result<
    (),
    SaveError,
>)
    ensures
        refusal_of(r) == first_check(text::text_of(*expected), text::text_of(*current)),
        r is Err ==> !(r->Err_0 is Io),
{
    if expected.is_none() {
        if current.is_some() {
            return Err(SaveError::Exists);
        }
        return Ok(());
    }
    if same_hash(expected, current) {
        Ok(())
    } else {
        Err(SaveError::Changed { current: report::clone_text(current) })
    }
}

/// The check right before the file is replaced (`now`: its hash): another tool may have written
/// it since the first check (`current`).
pub fn check_again(now: &Option<String>, current: &Option<String>) -> (r: Result<(), SaveError>)
    ensures
        refusal_of(r) == last_check(text::text_of(*now), text::text_of(*current)),
        r is Err ==> !(r->Err_0 is Io),
{
    if same_hash(now, current) {
        Ok(())
    } else if now.is_some() && current.is_none() {
        Err(SaveError::Exists)
    } else {
        Err(SaveError::Changed { current: report::clone_text(now) })
    }
}

/// What a save does once the first check passed.
#[derive(Debug)]
pub struct SavePlan {
    /// The file's hash at the first check.
    pub current: Option<String>,
    /// The file's bytes go to a backup first.
    pub backup: bool,
    /// The mode the written file gets.
    pub mode: Option<u32>,
}

/// The mode a written file gets: 0600 when private, else the existing file's.
pub open spec fn mode_of(private: bool, existing: Option<u32>) -> Option<u32> {
    if private {
        Some(0o600)
    } else {
        existing
    }
}

/// The first check of a save of a file (`current`: its bytes now, `mode`: its permission bits),
/// and what the save does if it passes.
pub fn plan_save(options: &SaveOptions, current: &Option<Vec<u8>>, mode: Option<u32>) -> (r: Result<
    SavePlan,
    SaveError,
>)
    ensures
        match first_check(text::text_of(options.expected), hash_of_file(*current)) {
            Some(Refusal::Exists) => r is Err && r->Err_0 is Exists,
            Some(Refusal::Changed(now)) => r is Err && r->Err_0 is Changed && text::text_of(
                r->Err_0->current,
            ) == now,
            None => match r {
                Ok(plan) => text::text_of(plan.current) == hash_of_file(*current) && plan.backup
                    == (options.backups is Some && current is Some) && plan.mode == mode_of(
                    current is None || options.private,
                    mode,
                ),
                Err(_) => false,
            },
        },
{
    let hash: Option<String> = hash_file(current);
    match check_current(&options.expected, &hash) {
        Err(e) => Err(e),
        Ok(()) => Ok(
            SavePlan {
                current: hash,
                backup: options.backups.is_some() && current.is_some(),
                mode: if current.is_none() || options.private {
                    Some(0o600)
                } else {
                    mode
                },
            },
        ),
    }
}

/// What a save did, once the file is replaced.
pub fn saved(written: String, text: &str, backup: Option<String>, mode: Option<u32>) -> (r: Saved)
    ensures
        r.written == written,
        r.hash@ == hash_of(vstd::utf8::encode_utf8(text@)),
        r.backup == backup,
        r.mode == mode,
{
    Saved { written, hash: hash(text.as_bytes()), backup, mode }
}

/// The name of the file that is written before it replaces the other.
pub fn temp_name(name: Option<&str>, process: u32, nanos: u32) -> (r: String)
    ensures
        r@ == "."@ + match name {
            Some(name) => name@,
            None => "kubeconfig"@,
        } + ".kubyl-"@ + text::decimal(process as nat) + "-"@ + text::decimal(nanos as nat)
            + ".tmp"@,
{
    let name: &str = match name {
        Some(name) => name,
        None => "kubeconfig",
    };
    let head: String = cat4(
        ".",
        name,
        ".kubyl-",
        text::decimal_text(process as u128).as_str(),
    );
    cat4(head.as_str(), "-", text::decimal_text(nanos as u128).as_str(), ".tmp")
}

// ----- Backups -----

/// Letters, digits, `-` and `_` stay; anything else becomes `-`.
pub open spec fn plain_char(c: char) -> char {
    if text::ascii_alphanumeric(c) || c == '-' || c == '_' {
        c
    } else {
        '-'
    }
}

pub open spec fn plain_text(s: Seq<char>) -> Seq<char> {
    Seq::new(s.len(), |i: int| plain_char(s[i]))
}

fn is_alphanumeric(c: char) -> (r: bool)
    ensures
        r == text::ascii_alphanumeric(c),
{
    ('a' <= c && c <= 'z') || ('A' <= c && c <= 'Z') || ('0' <= c && c <= '9')
}

/// `<stem>-<hash of the path>-`: the prefix of a file's backups.
pub open spec fn prefix_of(stem: Option<Seq<char>>, path: Seq<char>) -> Seq<char> {
    let stem = match stem {
        Some(s) => s,
        None => "kubeconfig"@,
    };
    plain_text(stem) + "-"@ + hash_of(vstd::utf8::encode_utf8(path)).take(8) + "-"@
}

/// `<stem>-<hash of the path>-`: the prefix of a file's backups. `stem` is the stem of the
/// path's file name.
pub fn backup_prefix(stem: Option<&str>, path: &str) -> (r: String)
    ensures
        r@ == prefix_of(
            match stem {
                Some(s) => Some(s@),
                None => None,
            },
            path@,
        ),
{
    let stem: &str = match stem {
        Some(s) => s,
        None => "kubeconfig",
    };
    let cs: Vec<char> = text::chars(stem);
    let mut plain: String = String::new();
    let mut i: usize = 0;
    while i < cs.len()
        invariant
            i <= cs@.len(),
            cs@ == stem@,
            plain@ =~= plain_text(stem@).take(i as int),
        decreases cs@.len() - i,
    {
        let c: char = cs[i];
        let keep: bool = is_alphanumeric(c) || c == '-' || c == '_';
        plain.push(
            if keep {
                c
            } else {
                '-'
            },
        );
        i += 1;
    }
    assert(plain@ =~= plain_text(stem@));
    let digest: Vec<u8> = outside::sha256_digest(path.as_bytes());
    let full: Vec<char> = text::chars(text::hex_text(&digest).as_str());
    proof {
        text::lemma_hex_len(digest@);
    }
    let start: String = text::text_between(&full, 0, 8);
    assert(full@.subrange(0, 8) =~= full@.take(8));
    cat4(plain.as_str(), "-", start.as_str(), "-")
}

/// `s` without the endings `suffix`.
pub open spec fn without_endings(s: Seq<char>, suffix: Seq<char>) -> Seq<char>
    decreases s.len(),
{
    if suffix.len() > 0 && suffix.is_suffix_of(s) {
        without_endings(s.take(s.len() - suffix.len()), suffix)
    } else {
        s
    }
}

/// The timestamp and counter of a backup, from its name behind the prefix: `20260926-140512` or
/// `20260926-140512-3`.
pub open spec fn counter_of(rest: Seq<char>) -> (Seq<char>, nat) {
    let rest = without_endings(rest, ".yaml"@);
    let i = text::last_char_index(rest, '-');
    if i >= 0 && rest.take(i).contains('-') {
        (
            rest.take(i),
            match text::parsed(rest.skip(i + 1)) {
                Some(n) if n <= u32::MAX => n,
                _ => 0,
            },
        )
    } else {
        (rest, 0)
    }
}

/// The timestamp and counter of a backup, from its name behind the prefix.
pub fn split_counter(rest: &str) -> (r: (String, u32))
    ensures
        (r.0@, r.1 as nat) == counter_of(rest@),
{
    proof {
        reveal_strlit(".yaml");
    }
    let mut s: String = rest.to_string();
    loop
        invariant_except_break
            without_endings(rest@, ".yaml"@) == without_endings(s@, ".yaml"@),
            ".yaml"@.len() == 5,
        ensures
            s@ == without_endings(rest@, ".yaml"@),
        decreases s@.len(),
    {
        match text::strip_suffix(s.as_str(), ".yaml") {
            Some(shorter) => {
                assert(shorter@ =~= s@.take(s@.len() - 5));
                s = shorter;
            },
            None => {
                break;
            },
        }
    }
    let cs: Vec<char> = text::chars(s.as_str());
    let mut i: usize = cs.len();
    assert(cs@.take(i as int) =~= cs@);
    while i > 0
        invariant
            i <= cs@.len(),
            cs@ == s@,
            s@ == without_endings(rest@, ".yaml"@),
            text::last_char_index(s@, '-') == text::last_char_index(cs@.take(i as int), '-'),
        decreases i,
    {
        assert(cs@.take(i as int).drop_last() =~= cs@.take(i - 1));
        if cs[i - 1] == '-' {
            let stamp: String = text::text_between(&cs, 0, i - 1);
            assert(stamp@ =~= s@.take(i - 1));
            if text::contains_char(stamp.as_str(), '-') {
                let n: String = text::text_between(&cs, i, cs.len());
                assert(n@ =~= s@.skip(i as int));
                let n: u32 = match text::parse_number(n.as_str(), u32::MAX as u64) {
                    Some(n) => n as u32,
                    None => 0,
                };
                return (stamp, n);
            }
            return (s, 0);
        }
        i -= 1;
    }
    (s, 0)
}

/// The timestamp and counter of a backup with this prefix.
pub open spec fn key_of(prefix: Seq<char>, name: Seq<char>) -> (Seq<char>, nat) {
    counter_of(name.skip(prefix.len() as int))
}

/// Whether a backup isn't newer than another: timestamps first, then counters.
pub open spec fn not_newer(a: (Seq<char>, nat), b: (Seq<char>, nat)) -> bool {
    text::precedes(a.0, b.0) || (a.0 == b.0 && a.1 <= b.1)
}

/// The names with a prefix.
pub open spec fn with_prefix(names: Seq<Seq<char>>, prefix: Seq<char>) -> Seq<Seq<char>>
    decreases names.len(),
{
    if names.len() == 0 {
        seq![]
    } else {
        let before = with_prefix(names.drop_last(), prefix);
        if prefix.is_prefix_of(names.last()) {
            before.push(names.last())
        } else {
            before
        }
    }
}

/// Backups from the oldest to the newest.
pub open spec fn oldest_first(v: Seq<Seq<char>>, prefix: Seq<char>) -> bool {
    forall|i: int, j: int|
        0 <= i < j < v.len() ==> not_newer(
            key_of(prefix, #[trigger] v[i]),
            key_of(prefix, #[trigger] v[j]),
        )
}

/// The timestamp and counter of a backup with this prefix.
fn key(prefix: &str, name: &str) -> (r: (String, u32))
    requires
        prefix@.is_prefix_of(name@),
    ensures
        (r.0@, r.1 as nat) == key_of(prefix@, name@),
{
    match text::strip_prefix(name, prefix) {
        Some(rest) => {
            assert(rest@ =~= name@.skip(prefix@.len() as int));
            split_counter(rest.as_str())
        },
        None => vstd::pervasive::unreached(),
    }
}

fn newer(a: &(String, u32), b: &(String, u32)) -> (r: bool)
    ensures
        r == !not_newer((a.0@, a.1 as nat), (b.0@, b.1 as nat)),
{
    proof {
        text::lemma_precedes_total(a.0@, b.0@);
    }
    if text::same(a.0.as_str(), b.0.as_str()) {
        a.1 > b.1
    } else {
        text::comes_before(b.0.as_str(), a.0.as_str())
    }
}

proof fn lemma_not_newer(a: (Seq<char>, nat), b: (Seq<char>, nat), c: (Seq<char>, nat))
    ensures
        !not_newer(a, b) ==> not_newer(b, a),
        not_newer(a, b) && not_newer(b, c) ==> not_newer(a, c),
{
    text::lemma_precedes_total(a.0, b.0);
    if text::precedes(a.0, b.0) && text::precedes(b.0, c.0) {
        text::lemma_precedes_transitive(a.0, b.0, c.0);
    }
}

/// The names in a folder that start with `prefix`, oldest first: timestamps sort by name, and
/// `-2` suffixes after the plain name of the same second.
pub fn backups_with_prefix(names: &Vec<String>, prefix: &str) -> (r: Vec<String>)
    ensures
        oldest_first(text::texts(r@), prefix@),
        text::texts(r@).to_multiset() == with_prefix(
            text::texts(names@),
            prefix@,
        ).to_multiset(),
{
    let ghost all = text::texts(names@);
    let mut out: Vec<String> = Vec::new();
    let mut n: usize = 0;
    assert(all.take(0) =~= Seq::empty());
    assert(text::texts(out@) =~= Seq::empty());
    while n < names.len()
        invariant
            n <= names@.len(),
            all == text::texts(names@),
            oldest_first(text::texts(out@), prefix@),
            forall|j: int|
                0 <= j < out@.len() ==> prefix@.is_prefix_of(#[trigger] text::texts(out@)[j]),
            text::texts(out@).to_multiset() == with_prefix(
                all.take(n as int),
                prefix@,
            ).to_multiset(),
        decreases names@.len() - n,
    {
        assert(all.take(n + 1).drop_last() =~= all.take(n as int));
        let name: &str = names[n].as_str();
        let ghost before = text::texts(out@);
        let ghost s = name@;
        if text::starts_with(name, prefix) {
            let own: (String, u32) = key(prefix, name);
            let ghost mine = key_of(prefix@, s);
            let mut at: usize = 0;
            let mut stop: bool = false;
            while at < out.len() && !stop
                invariant
                    at <= out@.len(),
                    before == text::texts(out@),
                    (own.0@, own.1 as nat) == mine,
                    forall|j: int|
                        0 <= j < out@.len() ==> prefix@.is_prefix_of(
                            #[trigger] text::texts(out@)[j],
                        ),
                    forall|j: int|
                        0 <= j < at ==> not_newer(key_of(prefix@, #[trigger] before[j]), mine),
                    stop ==> at < out@.len() && !not_newer(
                        key_of(prefix@, before[at as int]),
                        mine,
                    ),
                decreases
                    2 * (out@.len() - at) - if stop {
                        1int
                    } else {
                        0
                    },
            {
                assert(before[at as int] == out@[at as int]@);
                if newer(&key(prefix, out[at].as_str()), &own) {
                    stop = true;
                } else {
                    at += 1;
                }
            }
            out.insert(at, name.to_string());
            proof {
                let after = text::texts(out@);
                assert(after =~= before.insert(at as int, s));
                assert forall|i: int, j: int| 0 <= i < j < after.len() implies not_newer(
                    key_of(prefix@, #[trigger] after[i]),
                    key_of(prefix@, #[trigger] after[j]),
                ) by {
                    let a = if i < at {
                        before[i]
                    } else if i == at {
                        s
                    } else {
                        before[i - 1]
                    };
                    let b = if j < at {
                        before[j]
                    } else if j == at {
                        s
                    } else {
                        before[j - 1]
                    };
                    assert(after[i] == a && after[j] == b);
                    if j > at && at < before.len() {
                        let next = before[at as int];
                        lemma_not_newer(key_of(prefix@, next), mine, mine);
                        lemma_not_newer(mine, key_of(prefix@, next), key_of(prefix@, b));
                        if i < at {
                            lemma_not_newer(key_of(prefix@, a), mine, key_of(prefix@, b));
                        }
                    }
                }
                assert forall|j: int| 0 <= j < out@.len() implies prefix@.is_prefix_of(
                    #[trigger] after[j],
                ) by {
                    if j < at {
                        assert(after[j] == before[j]);
                    } else if j > at {
                        assert(after[j] == before[j - 1]);
                    }
                }
                broadcast use vstd::seq_lib::group_to_multiset_ensures;

                assert(after.remove(at as int) =~= before);
                assert(after[at as int] == s && after.contains(s));
                assert(after.to_multiset() =~= before.to_multiset().insert(s));
            }
        }
        n += 1;
    }
    assert(all.take(n as int) =~= all);
    out
}

/// The backups of a file among the names in a folder, oldest first. `stem` is the stem of the
/// path's file name.
pub fn backups_of(names: &Vec<String>, stem: Option<&str>, path: &str) -> (r: Vec<String>)
    ensures
        ({
            let prefix = prefix_of(
                match stem {
                    Some(s) => Some(s@),
                    None => None,
                },
                path@,
            );
            &&& oldest_first(text::texts(r@), prefix)
            &&& text::texts(r@).to_multiset() == with_prefix(
                text::texts(names@),
                prefix,
            ).to_multiset()
        }),
{
    backups_with_prefix(names, backup_prefix(stem, path).as_str())
}

/// The highest counter among backups of the same second (a plain name counts as the first).
pub open spec fn highest(found: Seq<Seq<char>>, prefix: Seq<char>, stamp: Seq<char>) -> Option<
    nat,
>
    decreases found.len(),
{
    if found.len() == 0 {
        None
    } else {
        let before = highest(found.drop_last(), prefix, stamp);
        let (s, n) = key_of(prefix, found.last());
        let n = if n == 0 {
            1
        } else {
            n
        };
        if s != stamp {
            before
        } else {
            match before {
                Some(h) if h >= n => Some(h),
                _ => Some(n),
            }
        }
    }
}

/// The name of a new backup: its second, and a counter above those of the same second.
pub open spec fn backup_file(names: Seq<Seq<char>>, prefix: Seq<char>, stamp: Seq<char>) -> Seq<
    char,
> {
    let high = highest(with_prefix(names, prefix), prefix, stamp);
    let head = prefix + stamp;
    let first = match high {
        None => head + ".yaml"@,
        Some(n) => names::numbered(head, n + 1, ".yaml"@),
    };
    if !names.contains(first) {
        first
    } else {
        names::numbered(
            head,
            names::free_number(
                names,
                head,
                ".yaml"@,
                match high {
                    Some(n) => n + 2,
                    None => 3,
                },
            ),
            ".yaml"@,
        )
    }
}

/// The name of a new backup in a folder (`names`: what is in it): its second, and a counter
/// above those of the same second (pruning may have removed lower ones).
pub fn backup_name(names: &Vec<String>, prefix: &str, stamp: &str) -> (r: String)
    ensures
        r@ == backup_file(text::texts(names@), prefix@, stamp@),
        !text::texts(names@).contains(r@),
{
    let ghost all = text::texts(names@);
    let mut high: Option<u64> = None;
    let mut i: usize = 0;
    assert(all.take(0) =~= Seq::empty());
    while i < names.len()
        invariant
            i <= names@.len(),
            all == text::texts(names@),
            match high {
                Some(h) => highest(with_prefix(all.take(i as int), prefix@), prefix@, stamp@)
                    == Some(h as nat) && h <= u32::MAX,
                None => highest(
                    with_prefix(all.take(i as int), prefix@),
                    prefix@,
                    stamp@,
                ) is None,
            },
        decreases names@.len() - i,
    {
        assert(all.take(i + 1).drop_last() =~= all.take(i as int));
        let ghost before = with_prefix(all.take(i as int), prefix@);
        let name: &str = names[i].as_str();
        assert(all[i as int] == name@);
        if text::starts_with(name, prefix) {
            assert(with_prefix(all.take(i + 1), prefix@).drop_last() =~= before);
            let (s, n) = key(prefix, name);
            let n: u64 = if n == 0 {
                1
            } else {
                n as u64
            };
            if text::same(s.as_str(), stamp) {
                high = match high {
                    Some(h) => if h >= n {
                        Some(h)
                    } else {
                        Some(n)
                    },
                    None => Some(n),
                };
            }
        }
        i += 1;
    }
    assert(all.take(i as int) =~= all);
    let head: String = text::cat(prefix, stamp);
    let (first, from): (String, u64) = match high {
        None => (text::cat(head.as_str(), ".yaml"), 3),
        Some(n) => (
            cat4(
                head.as_str(),
                "-",
                text::decimal_text((n + 1) as u128).as_str(),
                ".yaml",
            ),
            n + 2,
        ),
    };
    if !names::holds(names, first.as_str()) {
        first
    } else {
        names::free_name(names, head.as_str(), ".yaml", from)
    }
}

/// The backups that go: all but the newest `keep` (one at least).
pub open spec fn pruned(sorted: Seq<Seq<char>>, keep: nat) -> Seq<Seq<char>> {
    let keep = if keep == 0 {
        1
    } else {
        keep
    };
    if sorted.len() > keep {
        sorted.take(sorted.len() - keep)
    } else {
        seq![]
    }
}

/// The backups that go, of those in a folder with a prefix (oldest first): all but the newest
/// `keep` (one at least).
pub fn prune(sorted: &Vec<String>, keep: usize) -> (r: Vec<String>)
    ensures
        text::texts(r@) == pruned(text::texts(sorted@), keep as nat),
{
    let keep: usize = if keep == 0 {
        1
    } else {
        keep
    };
    let excess: usize = if sorted.len() > keep {
        sorted.len() - keep
    } else {
        0
    };
    let ghost all = text::texts(sorted@);
    let mut out: Vec<String> = Vec::new();
    let mut i: usize = 0;
    assert(all.len() == sorted@.len());
    assert(text::texts(out@) =~= all.take(0));
    while i < excess
        invariant
            i <= excess <= sorted@.len(),
            all == text::texts(sorted@),
            text::texts(out@) == all.take(i as int),
        decreases excess - i,
    {
        broadcast use text::texts_push;

        out.push(sorted[i].clone());
        assert(all.take(i + 1) =~= all.take(i as int).push(all[i as int]));
        i += 1;
    }
    out
}

// ----- Owned files -----

/// Letters, digits, `-`, `_` and `.` stay; anything else becomes `-`.
pub open spec fn stem_char(c: char) -> char {
    if text::ascii_alphanumeric(c) || c == '-' || c == '_' || c == '.' {
        c
    } else {
        '-'
    }
}

pub open spec fn is_mark(c: char) -> bool {
    c == '-' || c == '.'
}

pub open spec fn without_marks_before(s: Seq<char>) -> Seq<char>
    decreases s.len(),
{
    if s.len() > 0 && is_mark(s[0]) {
        without_marks_before(s.drop_first())
    } else {
        s
    }
}

pub open spec fn without_marks_behind(s: Seq<char>) -> Seq<char>
    decreases s.len(),
{
    if s.len() > 0 && is_mark(s.last()) {
        without_marks_behind(s.drop_last())
    } else {
        s
    }
}

/// The stem of a new file for a name.
pub open spec fn stem_of(name: Seq<char>) -> Seq<char> {
    let plain = Seq::new(name.len(), |i: int| stem_char(name[i]));
    let stem = without_marks_behind(without_marks_before(plain));
    if stem.len() == 0 {
        "kubeconfig"@
    } else {
        stem
    }
}

/// A free `<name>.yaml` in a folder.
pub open spec fn owned_file(taken: Seq<Seq<char>>, name: Seq<char>) -> Seq<char> {
    let stem = stem_of(name);
    if taken.contains(stem + ".yaml"@) {
        names::numbered(stem, names::free_number(taken, stem, ".yaml"@, 2), ".yaml"@)
    } else {
        stem + ".yaml"@
    }
}

fn stem_for(name: &str) -> (r: String)
    ensures
        r@ == stem_of(name@),
{
    let cs: Vec<char> = text::chars(name);
    let mut plain: Vec<char> = Vec::new();
    let ghost all = Seq::new(name@.len(), |i: int| stem_char(name@[i]));
    let mut i: usize = 0;
    while i < cs.len()
        invariant
            i <= cs@.len(),
            cs@ == name@,
            all == Seq::new(name@.len(), |i: int| stem_char(name@[i])),
            plain@ =~= all.take(i as int),
        decreases cs@.len() - i,
    {
        let c: char = cs[i];
        let keep: bool = is_alphanumeric(c) || c == '-' || c == '_' || c == '.';
        plain.push(
            if keep {
                c
            } else {
                '-'
            },
        );
        i += 1;
    }
    assert(plain@ =~= all);
    let mut from: usize = 0;
    assert(plain@.skip(0) =~= plain@);
    while from < plain.len() && (plain[from] == '-' || plain[from] == '.')
        invariant
            from <= plain@.len(),
            without_marks_before(plain@) == without_marks_before(plain@.skip(from as int)),
        decreases plain@.len() - from,
    {
        assert(plain@.skip(from as int).drop_first() =~= plain@.skip(from + 1));
        from += 1;
    }
    let ghost t = plain@.skip(from as int);
    assert(without_marks_before(plain@) == t);
    let mut to: usize = plain.len();
    assert(plain@.subrange(from as int, to as int) =~= t);
    while to > from && (plain[to - 1] == '-' || plain[to - 1] == '.')
        invariant
            from <= to <= plain@.len(),
            without_marks_behind(t) == without_marks_behind(
                plain@.subrange(from as int, to as int),
            ),
        decreases to,
    {
        assert(plain@.subrange(from as int, to as int).drop_last() =~= plain@.subrange(
            from as int,
            to - 1,
        ));
        to -= 1;
    }
    if from == to {
        return "kubeconfig".to_string();
    }
    text::text_between(&plain, from, to)
}

/// The name of a new Kubyl-owned kubeconfig in a folder (`taken`: what is in it): a free
/// `<name>.yaml`.
pub fn new_owned_path(taken: &Vec<String>, name: &str) -> (r: String)
    ensures
        r@ == owned_file(text::texts(taken@), name@),
        !text::texts(taken@).contains(r@),
{
    let stem: String = stem_for(name);
    let first: String = text::cat(stem.as_str(), ".yaml");
    if !names::holds(taken, first.as_str()) {
        first
    } else {
        names::free_name(taken, stem.as_str(), ".yaml", 2)
    }
}

// ----- Laws -----

/// A save never replaces a file that another tool wrote: where both checks pass, the file is
/// right before it is replaced what it was when it was loaded, and a new file isn't there.
pub proof fn a_changed_file_is_never_replaced(
    expected: Option<Seq<char>>,
    current: Option<Seq<char>>,
    now: Option<Seq<char>>,
)
    requires
        first_check(expected, current) is None,
        last_check(now, current) is None,
    ensures
        now == expected,
{
}

/// An unchanged file can be saved: neither check refuses it.
pub proof fn an_unchanged_file_can_be_saved(loaded: Option<Seq<char>>)
    ensures
        first_check(loaded, loaded) is None,
        last_check(loaded, loaded) is None,
{
}

/// After pruning at most `keep` backups (one at least) are left, and they are the newest.
pub proof fn pruning_keeps_the_newest(sorted: Seq<Seq<char>>, prefix: Seq<char>, keep: nat)
    requires
        oldest_first(sorted, prefix),
    ensures
        ({
            let gone = pruned(sorted, keep);
            let left = sorted.skip(gone.len() as int);
            &&& sorted == gone + left
            &&& left.len() == if sorted.len() <= keep {
                sorted.len()
            } else if keep == 0 {
                1
            } else {
                keep
            }
            &&& forall|i: int, j: int|
                0 <= i < gone.len() && 0 <= j < left.len() ==> not_newer(
                    key_of(prefix, #[trigger] gone[i]),
                    key_of(prefix, #[trigger] left[j]),
                )
        }),
{
    let gone = pruned(sorted, keep);
    let left = sorted.skip(gone.len() as int);
    assert(sorted =~= gone + left);
    assert forall|i: int, j: int| 0 <= i < gone.len() && 0 <= j < left.len() implies not_newer(
        key_of(prefix, #[trigger] gone[i]),
        key_of(prefix, #[trigger] left[j]),
    ) by {
        assert(gone[i] == sorted[i]);
        assert(left[j] == sorted[gone.len() + j]);
    }
}

/// A new file never overwrites another: its name isn't taken.
pub proof fn new_files_have_free_names(taken: Seq<Seq<char>>, name: Seq<char>)
    ensures
        !taken.contains(owned_file(taken, name)),
{
    names::a_number_is_free(taken, stem_of(name), ".yaml"@, 2);
}

/// A timestamp: two parts with a `-` between them, the second one ending in a digit.
pub open spec fn is_stamp(stamp: Seq<char>) -> bool {
    exists|i: int|
        0 <= i < stamp.len() - 1 && stamp[i] == '-' && text::is_digit(stamp.last()) && forall|j: int|
            0 <= j < stamp.len() && j != i ==> stamp[j] != '-'
}

proof fn lemma_last_char_index(s: Seq<char>, c: char, at: int)
    requires
        0 <= at < s.len(),
        s[at] == c,
        forall|j: int| at < j < s.len() ==> s[j] != c,
    ensures
        text::last_char_index(s, c) == at,
    decreases s.len(),
{
    if at < s.len() - 1 {
        lemma_last_char_index(s.drop_last(), c, at);
    }
}

pub proof fn lemma_numbered_counter(stamp: Seq<char>, n: nat)
    requires
        is_stamp(stamp),
        n <= u32::MAX,
    ensures
        counter_of(stamp + "-"@ + text::decimal(n) + ".yaml"@) == (stamp, n),
{
    reveal_strlit(".yaml");
    reveal_strlit("-");
    let digits = text::decimal(n);
    let t = stamp + "-"@ + digits;
    let rest = t + ".yaml"@;
    text::lemma_decimal_digits(n);
    assert(rest.take(rest.len() - 5) =~= t);
    assert(".yaml"@.is_suffix_of(rest)) by {
        assert(rest.subrange(rest.len() - 5, rest.len() as int) =~= ".yaml"@);
    }
    assert(t.last() == digits.last());
    assert(text::is_digit(t.last()));
    assert(!".yaml"@.is_suffix_of(t)) by {
        if ".yaml"@.is_suffix_of(t) {
            assert(t.subrange(t.len() - 5, t.len() as int).last() == 'l');
        }
    }
    assert(without_endings(t, ".yaml"@) == t);
    assert(without_endings(rest, ".yaml"@) == t);
    let at = stamp.len() as int;
    assert(t[at] == '-');
    assert forall|j: int| at < j < t.len() implies t[j] != '-' by {
        assert(text::is_digit(digits[j - at - 1]));
        assert(t[j] == digits[j - at - 1]);
    }
    lemma_last_char_index(t, '-', at);
    assert(t.take(at) =~= stamp);
    assert(t.skip(at + 1) =~= digits);
    let i = choose|i: int|
        0 <= i < stamp.len() - 1 && stamp[i] == '-' && text::is_digit(stamp.last()) && forall|
            j: int,
        | 0 <= j < stamp.len() && j != i ==> stamp[j] != '-';
    assert(stamp.contains(stamp[i]));
}

proof fn lemma_highest(found: Seq<Seq<char>>, prefix: Seq<char>, stamp: Seq<char>, i: int)
    requires
        0 <= i < found.len(),
        key_of(prefix, found[i]).0 == stamp,
    ensures
        match highest(found, prefix, stamp) {
            Some(h) => h >= 1 && h >= key_of(prefix, found[i]).1,
            None => false,
        },
    decreases found.len(),
{
    if i < found.len() - 1 {
        lemma_highest(found.drop_last(), prefix, stamp, i);
    }
}

/// Counters only go up: a new backup is newer than every backup of the same second that is
/// still there.
pub proof fn counters_only_go_up(
    names: Seq<Seq<char>>,
    prefix: Seq<char>,
    stamp: Seq<char>,
    i: int,
)
    requires
        is_stamp(stamp),
        0 <= i < with_prefix(names, prefix).len(),
        key_of(prefix, with_prefix(names, prefix)[i]).0 == stamp,
        highest(with_prefix(names, prefix), prefix, stamp)->0 < u32::MAX,
        names::free_number(
            names,
            prefix + stamp,
            ".yaml"@,
            highest(with_prefix(names, prefix), prefix, stamp)->0 + 2,
        ) <= u32::MAX,
    ensures
        ({
            let old_key = key_of(prefix, with_prefix(names, prefix)[i]);
            let new_key = key_of(prefix, backup_file(names, prefix, stamp));
            new_key.0 == stamp && old_key.1 < new_key.1
        }),
{
    let found = with_prefix(names, prefix);
    lemma_highest(found, prefix, stamp, i);
    let h = highest(found, prefix, stamp)->0;
    let head = prefix + stamp;
    let free = names::free_number(names, head, ".yaml"@, h + 2);
    names::a_number_is_free(names, head, ".yaml"@, h + 2);
    let first = names::numbered(head, h + 1, ".yaml"@);
    let n = if names.contains(first) {
        free
    } else {
        h + 1
    };
    let name = backup_file(names, prefix, stamp);
    assert(name == names::numbered(head, n, ".yaml"@));
    assert(name.skip(prefix.len() as int) =~= stamp + "-"@ + text::decimal(n) + ".yaml"@);
    lemma_numbered_counter(stamp, n);
}

} // verus!
