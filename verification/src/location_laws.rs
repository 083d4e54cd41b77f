//! Where files and commands are looked for: what becomes of the paths in a document that moves to
//! another folder, and which files could be a command.

use crate::commands;
use crate::document;
use crate::edit_laws;
use crate::json::{self, Fields, Json};
use crate::laws;
use crate::locations;
use crate::model::Kind;
use crate::moves::{self, SourceFiles, SourceKind};
use crate::text;
use crate::transfer;
use crate::transfer_laws;
use vstd::prelude::*;

verus! {

// ----- Paths -----

/// An absolute path stays as it is in whatever folder; a relative one goes behind the folder, with
/// one slash between them where the folder doesn't end with one.
pub proof fn relative_paths_go_behind_the_folder(dir: Seq<char>, path: Seq<char>)
    ensures
        path.len() > 0 && path[0] == '/' ==> locations::resolved(dir, path) == path,
        dir.len() > 0 && (path.len() == 0 || path[0] != '/') ==> {
            let r = locations::resolved(dir, path);
            &&& dir.is_prefix_of(r)
            &&& path.is_suffix_of(r)
            &&& r.len() == dir.len() + path.len() + if dir.last() == '/' {
                0int
            } else {
                1
            }
            &&& r[r.len() - path.len() - 1] == '/'
        },
        dir.len() > 0 && dir[0] == '/' ==> locations::resolved(dir, path)[0] == '/',
{
    reveal_strlit("/");
    let r = locations::resolved(dir, path);
    if dir.len() > 0 && (path.len() == 0 || path[0] != '/') {
        assert(r.subrange(0, dir.len() as int) =~= dir);
        assert(r.subrange(r.len() - path.len(), r.len() as int) =~= path);
    }
}

/// A path under a key that leads to a file is made to lead there from anywhere; other keys stay.
proof fn lemma_moved_key(o: Fields, dir: Seq<char>, key: Seq<char>, other: Seq<char>)
    ensures
        json::field(locations::moved_key(o, dir, key), key) == match json::field(o, key) {
            Some(Json::Str(path)) if path.len() > 0 => Some(
                Json::Str(locations::resolved(dir, path)),
            ),
            v => v,
        },
        other != key ==> json::field(locations::moved_key(o, dir, key), other) == json::field(
            o,
            other,
        ),
{
    if let Some(Json::Str(path)) = json::field(o, key) {
        json::put_then_field(o, key, Json::Str(locations::resolved(dir, path)));
    }
}

/// The keys of a cluster or user that lead to files.
pub open spec fn leads_to_a_file(kind: Kind, key: Seq<char>) -> bool {
    match kind {
        Kind::Cluster => key == "certificate-authority"@,
        Kind::User => key == "client-certificate"@ || key == "client-key"@ || key == "tokenFile"@,
        Kind::Context => false,
    }
}

proof fn lemma_moved_body(o: Fields, kind: Kind, dir: Seq<char>, key: Seq<char>)
    ensures
        json::field(locations::moved_body(o, kind, dir), key) == match json::field(o, key) {
            Some(Json::Str(path)) if path.len() > 0 && leads_to_a_file(kind, key) => Some(
                Json::Str(locations::resolved(dir, path)),
            ),
            v => v,
        },
{
    laws::lemma_auth_literals();
    match kind {
        Kind::Context => {},
        Kind::Cluster => {
            lemma_moved_key(o, dir, "certificate-authority"@, key);
        },
        Kind::User => {
            let a = locations::moved_key(o, dir, "client-certificate"@);
            let b = locations::moved_key(a, dir, "client-key"@);
            lemma_moved_key(o, dir, "client-certificate"@, key);
            lemma_moved_key(a, dir, "client-key"@, key);
            lemma_moved_key(b, dir, "tokenFile"@, key);
        },
    }
}

proof fn lemma_moved_list(d: Json, kind: Kind, dir: Seq<char>)
    ensures
        ({
            let m = locations::moved_list(d, kind, dir);
            &&& document::list(m, kind).len() == document::list(d, kind).len()
            &&& forall|i: int|
                0 <= i < document::list(d, kind).len() ==> #[trigger] document::list(m, kind)[i]
                    == locations::moved_entry(document::list(d, kind)[i], kind, dir)
            &&& forall|k: Kind| k != kind ==> #[trigger] document::list(m, k) == document::list(d, k)
            &&& document::current_context(m) == document::current_context(d)
        }),
{
    let all = Seq::new(
        document::list(d, kind).len(),
        |i: int| locations::moved_entry(document::list(d, kind)[i], kind, dir),
    );
    document::with_list_reads(d, kind, all);
    laws::lemma_with_list_elsewhere(d, kind, all);
}

/// In a document that moves to another folder, the paths of certificates, keys and token files
/// lead where they led before; every other field of an entry, its name and the contexts stay.
pub proof fn moved_documents_find_their_files(
    d: Json,
    dir: Seq<char>,
    kind: Kind,
    place: int,
    b: Fields,
    key: Seq<char>,
)
    requires
        0 <= place < document::list(d, kind).len(),
        document::body_of(document::list(d, kind)[place], kind) == Some(b),
    ensures
        ({
            let m = locations::moved(d, dir);
            let after = document::body_of(document::list(m, kind)[place], kind);
            &&& document::list(m, kind).len() == document::list(d, kind).len()
            &&& document::name_of(document::list(m, kind)[place]) == document::name_of(
                document::list(d, kind)[place],
            )
            &&& after is Some
            &&& json::field(after->Some_0, key) == match json::field(b, key) {
                Some(Json::Str(path)) if path.len() > 0 && ((kind == Kind::Cluster && key
                    == "certificate-authority"@) || (kind == Kind::User && (key
                    == "client-certificate"@ || key == "client-key"@ || key == "tokenFile"@))) => {
                    Some(Json::Str(locations::resolved(dir, path)))
                },
                v => v,
            }
            &&& document::list(m, Kind::Context) == document::list(d, Kind::Context)
            &&& document::current_context(m) == document::current_context(d)
        }),
{
    let d1 = locations::moved_list(d, Kind::Cluster, dir);
    let m = locations::moved(d, dir);
    lemma_moved_list(d, Kind::Cluster, dir);
    lemma_moved_list(d1, Kind::User, dir);
    assert(document::list(m, Kind::Cluster) == document::list(d1, Kind::Cluster));
    assert(document::list(d1, Kind::User) == document::list(d, Kind::User));
    assert(document::list(m, Kind::Context) == document::list(d1, Kind::Context));
    lemma_moved_body(b, kind, dir, key);
    let entry = document::list(d, kind)[place];
    if kind != Kind::Context {
        assert(document::list(m, kind)[place] == locations::moved_entry(entry, kind, dir));
        let body = Json::Object(locations::moved_body(b, kind, dir));
        json::put_then_field(document::fields_of(entry), document::body_key(kind), body);
        document::lemma_keys_differ();
        reveal_strlit("name");
        reveal_strlit("cluster");
        reveal_strlit("user");
        assert("name"@.len() == 4 && "cluster"@.len() == 7);
        assert("user"@[0] == 'u' && "name"@[0] == 'n');
        assert("name"@ != document::body_key(kind));
    }
}

// ----- Commands -----

proof fn lemma_in_folders(
    dirs: Seq<Seq<char>>,
    command: Seq<char>,
    endings: Seq<Seq<char>>,
    i: int,
    j: int,
)
    requires
        0 <= i < dirs.len(),
        0 <= j <= endings.len(),
    ensures
        commands::in_folders(dirs, command, endings).len() == dirs.len() * (endings.len() + 1),
        commands::in_folders(dirs, command, endings)[i * (endings.len() + 1) + j] == if j == 0 {
            locations::resolved(dirs[i], command)
        } else {
            locations::resolved(dirs[i], command + "."@ + endings[j - 1])
        },
        0 <= i * (endings.len() + 1) + j < dirs.len() * (endings.len() + 1),
    decreases dirs.len(),
{
    let n = endings.len() as int + 1;
    let before = dirs.drop_last();
    let all = commands::in_folders(dirs, command, endings);
    let last = commands::in_folder(dirs.last(), command, endings);
    assert(last.len() == n);
    assert(dirs.len() * n == (dirs.len() - 1) * n + n) by (nonlinear_arith);
    assert(i * n + j < dirs.len() * n && 0 <= i * n) by (nonlinear_arith)
        requires
            0 <= i < dirs.len(),
            0 <= j < n,
    ;
    if i < before.len() {
        lemma_in_folders(before, command, endings, i, j);
        assert(before[i] == dirs[i]);
    } else {
        if before.len() > 0 {
            lemma_in_folders(before, command, endings, 0, 0);
        } else {
            assert(0 * n == 0) by (nonlinear_arith);
        }
        assert(all[i * n + j] == last[j]);
    }
}

/// A command without a slash is looked for in every folder of the search path, in their order: in
/// each folder first as it is, and behind that with each ending.
pub proof fn commands_are_looked_for_in_order(
    command: Seq<char>,
    dir: Option<Seq<char>>,
    separator: char,
    dirs: Seq<Seq<char>>,
    endings: Seq<Seq<char>>,
    i: int,
    j: int,
)
    requires
        !command.contains('/'),
        !command.contains(separator),
        0 <= i < dirs.len(),
        0 <= j <= endings.len(),
    ensures
        ({
            let places = commands::places_of(command, dir, separator, Some(dirs), endings);
            let at = i * (endings.len() + 1) + j;
            &&& places.len() == dirs.len() * (endings.len() + 1)
            &&& 0 <= at < places.len()
            &&& places[at] == if j == 0 {
                locations::resolved(dirs[i], command)
            } else {
                locations::resolved(dirs[i], command + "."@ + endings[j - 1])
            }
        }),
{
    lemma_in_folders(dirs, command, endings, i, j);
}

/// A command with a slash is a path, and is looked for nowhere else: relative to the folder of the
/// file that names it.
pub proof fn paths_are_not_searched_for(
    command: Seq<char>,
    dir: Seq<char>,
    separator: char,
    path: Option<Seq<Seq<char>>>,
    endings: Seq<Seq<char>>,
)
    requires
        command.contains('/'),
    ensures
        commands::places_of(command, Some(dir), separator, path, endings) == seq![
            locations::resolved(dir, command),
        ],
        commands::places_of(command, None, separator, path, endings) == seq![command],
{
}

// ----- Moving contexts between files -----

proof fn lemma_others(v: Seq<Seq<char>>, path: Seq<char>, x: Seq<char>)
    ensures
        moves::others(v, path).contains(x) <==> v.contains(x) && !locations::same_path(x, path),
    decreases v.len(),
{
    if v.len() > 0 {
        let before = v.drop_last();
        lemma_others(before, path, x);
        let found = moves::others(before, path);
        let all = moves::others(v, path);
        if all.contains(x) {
            let i = choose|i: int| 0 <= i < all.len() && all[i] == x;
            if i < found.len() {
                assert(found[i] == x);
                let j = choose|j: int| 0 <= j < before.len() && before[j] == x;
                assert(v[j] == x);
            } else {
                assert(v[v.len() - 1] == x);
            }
        }
        if v.contains(x) && !locations::same_path(x, path) {
            let i = choose|i: int| 0 <= i < v.len() && v[i] == x;
            if i < before.len() {
                assert(before[i] == x);
                let j = choose|j: int| 0 <= j < found.len() && found[j] == x;
                assert(all[j] == x);
            } else {
                assert(all[all.len() - 1] == x);
            }
        }
    }
}

/// Of a list of files, all but the one with this path are left.
pub proof fn only_the_file_itself_is_left_out(v: Seq<Seq<char>>, path: Seq<char>, x: Seq<char>)
    ensures
        moves::others(v, path).contains(x) <==> v.contains(x) && !locations::same_path(x, path),
{
    lemma_others(v, path, x);
}

/// A document that is split has a part for every context that it holds, under a name that ends in
/// the context's, in the order of the contexts; each part is the context with what it refers to,
/// credentials and all.
pub proof fn splitting_gives_every_context_its_file(
    d: Json,
    stem: Seq<char>,
    contexts: Seq<Seq<char>>,
    i: int,
)
    requires
        forall|k: int|
            0 <= k < contexts.len() ==> document::contains(
                d,
                Kind::Context,
                #[trigger] contexts[k],
            ),
        0 <= i < contexts.len(),
    ensures
        moves::parts_of(d, stem, contexts).len() == contexts.len(),
        moves::parts_of(d, stem, contexts)[i].0 == stem + "-"@ + contexts[i],
        Some(moves::parts_of(d, stem, contexts)[i].1) == transfer::extracted(d, contexts[i], true),
    decreases contexts.len(),
{
    reveal_with_fuel(moves::parts_of, 2);
    let before = contexts.drop_last();
    assert forall|k: int| 0 <= k < before.len() implies document::contains(
        d,
        Kind::Context,
        #[trigger] before[k],
    ) by {
        assert(before[k] == contexts[k]);
    }
    assert(document::contains(d, Kind::Context, contexts[contexts.len() - 1]));
    if i < before.len() {
        splitting_gives_every_context_its_file(d, stem, before, i);
        assert(before[i] == contexts[i]);
    } else if before.len() > 0 {
        splitting_gives_every_context_its_file(d, stem, before, 0);
    }
}

/// A copy of a file named `config`, as every machine has one, gets a name that tells it apart;
/// others keep theirs.
pub proof fn copies_are_named_after_their_file(stem: Seq<char>)
    ensures
        moves::copy_name(Some("config"@)) == "kube-config"@,
        stem != "config"@ ==> moves::copy_name(Some(stem)) == stem,
        moves::copy_name(None) == "kubeconfig"@,
{
}

// ----- Sources -----

/// Two paths to the same folder that end in different names are different paths; a path is the
/// same as itself.
pub proof fn different_names_are_different_paths(
    a: Seq<char>,
    b: Seq<char>,
    folder: Seq<Seq<char>>,
    x: Seq<char>,
    y: Seq<char>,
)
    requires
        text::pieces(a, '/') == folder.push(x),
        text::pieces(b, '/') == folder.push(y),
        a.len() > 0,
        b.len() > 0,
        folder.len() > 0,
        x.len() > 0,
        y.len() > 0,
        x != seq!['.'],
        y != seq!['.'],
        x != seq!['.', '.'],
        y != seq!['.', '.'],
        x != y,
    ensures
        !locations::same_path(a, b),
        locations::same_path(a, a),
{
    let k = locations::parts_key(folder);
    assert(folder.push(x).drop_last() =~= folder);
    assert(folder.push(y).drop_last() =~= folder);
    let p = k + (seq!['4'] + x + seq!['\0']);
    let q = k + (seq!['4'] + y + seq!['\0']);
    assert(locations::path_key(a) == p);
    assert(locations::path_key(b) == q);
    if p == q {
        assert(x.len() == y.len());
        assert forall|i: int| 0 <= i < x.len() implies x[i] == y[i] by {
            assert(p[k.len() + 1 + i] == x[i]);
            assert(q[k.len() + 1 + i] == y[i]);
        }
        assert(x =~= y);
    }
}

/// Empty parts and parts that stay where they are don't make a path another one.
pub proof fn empty_parts_change_no_path(
    a: Seq<char>,
    b: Seq<char>,
    folder: Seq<Seq<char>>,
    x: Seq<char>,
)
    requires
        text::pieces(a, '/') == folder,
        text::pieces(b, '/') == folder.push(x),
        a.len() > 0,
        b.len() > 0,
        folder.len() > 0,
        x.len() == 0 || x == seq!['.'],
    ensures
        locations::same_path(a, b),
{
    assert(folder.push(x).drop_last() =~= folder);
    assert(locations::path_key(b) =~= locations::path_key(a));
}

/// A file comes from the first source that lists it, and from none if none does.
pub proof fn files_come_from_their_first_source(
    sources: Seq<SourceFiles>,
    path: Seq<char>,
    i: int,
)
    requires
        0 <= i <= sources.len(),
        i < sources.len() ==> locations::listed(text::texts(sources[i].files@), path),
        forall|j: int|
            0 <= j < i ==> !locations::listed(text::texts((#[trigger] sources[j]).files@), path),
    ensures
        moves::kind_of(sources, path) == if i < sources.len() {
            Some(sources[i].kind)
        } else {
            None
        },
    decreases sources.len(),
{
    if i > 0 {
        assert(!locations::listed(text::texts(sources[0].files@), path));
        let rest = sources.drop_first();
        if i < sources.len() {
            assert(rest[i - 1] == sources[i]);
        }
        assert forall|j: int| 0 <= j < i - 1 implies !locations::listed(
            text::texts((#[trigger] rest[j]).files@),
            path,
        ) by {
            assert(rest[j] == sources[j + 1]);
        }
        files_come_from_their_first_source(rest, path, i - 1);
    }
}

/// A context can be copied to every other file, and not to its own.
pub proof fn contexts_are_copied_to_other_files(
    files: Seq<(String, bool)>,
    current: Seq<char>,
    i: int,
)
    requires
        0 <= i < files.len(),
    ensures
        !locations::same_path(files[i].0@, current) ==> moves::other_targets(
            files,
            current,
        ).contains((files[i].0@, files[i].1)),
        forall|k: int|
            0 <= k < moves::other_targets(files, current).len() ==> !locations::same_path(
                (#[trigger] moves::other_targets(files, current)[k]).0,
                current,
            ),
    decreases files.len(),
{
    let before = files.drop_last();
    let found = moves::other_targets(before, current);
    let all = moves::other_targets(files, current);
    if before.len() > 0 {
        contexts_are_copied_to_other_files(before, current, 0);
    } else {
        assert(found.len() == 0);
    }
    assert forall|k: int| 0 <= k < all.len() implies !locations::same_path(
        (#[trigger] all[k]).0,
        current,
    ) by {
        if k < found.len() {
            assert(all[k] == found[k]);
        }
    }
    let x = (files[i].0@, files[i].1);
    if i < before.len() {
        assert(before[i] == files[i]);
        contexts_are_copied_to_other_files(before, current, i);
        if found.contains(x) {
            let k = choose|k: int| 0 <= k < found.len() && found[k] == x;
            assert(all[k] == x);
        }
    } else if !locations::same_path(files[i].0@, current) {
        assert(all[all.len() - 1] == x);
    }
}

/// Exporting a context warns of secrets exactly if what is exported holds some.
pub proof fn exports_with_secrets_are_known(d: Json, context: Seq<char>)
    ensures
        document::contains(d, Kind::Context, context) ==> (moves::export_has_secrets(d, context)
            <==> transfer::holds_secrets(transfer::extracted(d, context, true)->Some_0)),
        !document::contains(d, Kind::Context, context) ==> !moves::export_has_secrets(d, context),
{
}

/// A merge keeps every entry of the document, in its place, and adds a context for each that it
/// counts.
pub proof fn merging_adds_what_it_counts(d: Json, from: Json, contexts: Seq<Seq<char>>)
    ensures
        ({
            let (e, n) = moves::merged(d, from, contexts);
            &&& document::list(e, Kind::Context).len() == document::list(d, Kind::Context).len()
                + n
            &&& forall|k: Kind| (#[trigger] document::list(d, k)).is_prefix_of(document::list(e, k))
            &&& document::current_context(e) == document::current_context(d)
        }),
    decreases contexts.len(),
{
    if contexts.len() == 0 {
        assert forall|k: Kind| (#[trigger] document::list(d, k)).is_prefix_of(
            document::list(d, k),
        ) by {
            let v = document::list(d, k);
            assert(v.subrange(0, v.len() as int) =~= v);
        }
    } else {
        let rest = contexts.drop_last();
        merging_adds_what_it_counts(d, from, rest);
        let (before, n) = moves::merged(d, from, rest);
        if document::contains(from, Kind::Context, contexts.last()) {
            transfer_laws::imported_context_brings_what_it_uses(before, from, contexts.last());
            edit_laws::imports_add_one_context(before, from, contexts.last());
            let (e, name) = transfer::imported(before, from, contexts.last())->Some_0;
            assert forall|k: Kind| (#[trigger] document::list(d, k)).is_prefix_of(
                document::list(e, k),
            ) by {
                let x = document::list(d, k);
                let y = document::list(before, k);
                let z = document::list(e, k);
                assert(y.is_prefix_of(z));
                assert(z.subrange(0, x.len() as int) =~= x);
            }
        }
    }
}

/// The files that stay when one leaves the environment's list are all the others of that list.
pub proof fn other_files_of_the_environment_stay(
    sources: Seq<SourceFiles>,
    original: Seq<char>,
    i: int,
    x: Seq<char>,
)
    requires
        0 <= i < sources.len(),
        sources[i].kind == SourceKind::Env,
        text::texts(sources[i].files@).contains(x),
        !locations::same_path(x, original),
    ensures
        moves::env_files(sources, original).contains(x),
    decreases sources.len(),
{
    let before = sources.drop_last();
    let found = moves::env_files(before, original);
    let all = moves::env_files(sources, original);
    if i < before.len() {
        assert(before[i] == sources[i]);
        other_files_of_the_environment_stay(before, original, i, x);
        let k = choose|k: int| 0 <= k < found.len() && found[k] == x;
        assert(all[k] == x);
    } else {
        let mine = moves::others(text::texts(sources[i].files@), original);
        lemma_others(text::texts(sources[i].files@), original, x);
        let k = choose|k: int| 0 <= k < mine.len() && mine[k] == x;
        assert(all[found.len() + k] == x);
    }
}

} // verus!
