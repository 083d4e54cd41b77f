//! What the editor, the reports and the watches of a session say of what they hold.

use crate::document;
use crate::editor::{self, KubeconfigEditor};
use crate::editor_view;
use crate::files::Snapshot;
use crate::import::{self, SaToken};
use crate::issues::Issue;
use crate::json::{self, Json};
use crate::model::{Doc, Kind};
use crate::outside;
use crate::panel;
use crate::paste;
use crate::report::{self, ReportState, Status, StepKind, StepState};
use crate::sa_dialog::{self, SaForm, SaSubject};
use crate::switcher::{self, SwitchItem};
use crate::text;
use crate::validate::Severity;
use crate::watches::{self, WatchEvent};
use vstd::prelude::*;

verus! {

// ----- Reports -----

/// The steps of a test in their order: the network, TLS, the credentials, the API, who the user
/// is, what the user may do, and how long it takes.
pub proof fn tests_go_step_by_step(context: Seq<char>, started: crate::certs::Moment)
    ensures
        report::place(StepKind::Network) == 0,
        report::place(StepKind::Tls) == 1,
        report::place(StepKind::Credentials) == 2,
        report::place(StepKind::Api) == 3,
        report::place(StepKind::Auth) == 4,
        report::place(StepKind::Permissions) == 5,
        report::place(StepKind::Latency) == 6,
        report::step_title(StepKind::Network) == "DNS and TCP"@,
        report::step_title(StepKind::Tls) == "TLS"@,
        report::step_title(StepKind::Credentials) == "Credentials"@,
        report::step_title(StepKind::Api) == "API server"@,
        report::step_title(StepKind::Auth) == "Authentication"@,
        report::step_title(StepKind::Permissions) == "Permissions"@,
        report::step_title(StepKind::Latency) == "Latency"@,
        report::complete(report::new_report(context, started)),
        !report::new_report(context, started).done,
        forall|i: int|
            0 <= i < 7 ==> (#[trigger] report::new_report(context, started).steps[i]).status
                == Status::Pending,
        report::new_report(context, started).version is None,
        report::new_report(context, started).user is None,
{
}

/// The first failure is a step that failed, with none before it that did; there is none exactly if
/// no step failed.
pub proof fn the_first_failure_is_the_first(steps: Seq<StepState>)
    ensures
        match report::first_failure(steps) {
            Some(i) => 0 <= i < steps.len() && steps[i].status == Status::Fail && forall|j: int|
                0 <= j < i ==> (#[trigger] steps[j]).status != Status::Fail,
            None => forall|j: int|
                0 <= j < steps.len() ==> (#[trigger] steps[j]).status != Status::Fail,
        },
    decreases steps.len(),
{
    if steps.len() > 0 {
        let before = steps.drop_last();
        the_first_failure_is_the_first(before);
        match report::first_failure(before) {
            Some(i) => {
                assert(before[i] == steps[i]);
                assert forall|j: int| 0 <= j < i implies (#[trigger] steps[j]).status
                    != Status::Fail by {
                    assert(before[j] == steps[j]);
                }
            },
            None => {
                assert forall|j: int| 0 <= j < steps.len() - 1 implies (#[trigger] steps[j]).status
                    != Status::Fail by {
                    assert(before[j] == steps[j]);
                }
            },
        }
    }
}

/// A report says that it connected only if it is done and no step failed.
pub proof fn only_whole_tests_connect(r: ReportState)
    ensures
        !r.done ==> report::summary_text(r) == "Testing…"@,
        r.done && (exists|i: int|
            0 <= i < r.steps.len() && (#[trigger] r.steps[i]).status == Status::Fail)
            ==> "Failed at "@.is_prefix_of(report::summary_text(r)),
        r.done && (forall|i: int|
            0 <= i < r.steps.len() ==> (#[trigger] r.steps[i]).status != Status::Fail)
            ==> report::summary_text(r) == text::joined(report::summary_parts(r), " · "@),
        report::summary_parts(r)[0] == "Connected"@,
        r.version matches Some(v) ==> report::summary_parts(r).contains(v),
        r.user matches Some(u) ==> report::summary_parts(r).last() == "as "@ + u,
{
    the_first_failure_is_the_first(r.steps);
    if let Some(i) = report::first_failure(r.steps) {
        let all = "Failed at "@ + report::step_title(r.steps[i].kind) + ": "@
            + match r.steps[i].found.error {
            Some(e) => e,
            None => seq![],
        };
        assert(all.subrange(0, "Failed at "@.len() as int) =~= "Failed at "@);
    }
    let parts = report::summary_parts(r);
    if let Some(v) = r.version {
        let at: int = if r.latency is Some {
            2
        } else {
            1
        };
        assert(parts[at] == v);
    }
}

proof fn lemma_row_places(steps: Seq<StepState>, i: int)
    requires
        0 <= i < steps.len(),
    ensures
        panel::row_places(steps).contains(i) <==> !panel::folded(steps[i]),
        forall|k: int|
            0 <= k < panel::row_places(steps).len() ==> 0 <= #[trigger] panel::row_places(steps)[k]
                < steps.len(),
    decreases steps.len(),
{
    let before = steps.drop_last();
    let found = panel::row_places(before);
    let all = panel::row_places(steps);
    if before.len() > 0 {
        lemma_row_places(before, 0);
    } else {
        assert(found.len() == 0);
    }
    assert forall|k: int| 0 <= k < all.len() implies 0 <= #[trigger] all[k] < steps.len() by {
        if k < found.len() {
            assert(all[k] == found[k]);
        }
    }
    if i < before.len() {
        lemma_row_places(before, i);
        assert(before[i] == steps[i]);
        if found.contains(i) {
            let k = choose|k: int| 0 <= k < found.len() && found[k] == i;
            assert(all[k] == i);
        }
        if all.contains(i) {
            let k = choose|k: int| 0 <= k < all.len() && all[k] == i;
            if k < found.len() {
                assert(found[k] == i);
            }
        }
    } else {
        if all.contains(i) {
            let k = choose|k: int| 0 <= k < all.len() && all[k] == i;
            if k < found.len() {
                assert(found[k] == i);
            }
        }
        if !panel::folded(steps[i]) {
            assert(all[all.len() - 1] == i);
        }
    }
}

/// A step that passed, was warned of or failed always has a row of its own; only skipped ones are
/// folded together.
pub proof fn ended_steps_have_rows(steps: Seq<StepState>, i: int)
    requires
        0 <= i < steps.len(),
        steps[i].status != Status::Skipped,
    ensures
        panel::row_places(steps).contains(i),
{
    lemma_row_places(steps, i);
}

// ----- The editor -----

/// A loaded document has something to save exactly if it differs from the file; a draft always has.
pub proof fn changed_documents_are_dirty(e: KubeconfigEditor)
    ensures
        e.draft is Some ==> e.dirty(),
        e.draft is None && e.snapshot is Some ==> (e.dirty() <==> !json::equal(e.doc@, e.base@)),
        e.draft is None && e.snapshot is None ==> !e.dirty(),
{
}

/// A change on disk is news exactly if it is another than what was loaded and what was seen; not
/// while the editor itself saves or loads.
pub proof fn changes_on_disk_are_news(e: KubeconfigEditor, disk: Snapshot)
    ensures
        e.sees_news(disk) ==> disk.hash is Some && (e.snapshot matches Some(s) ==> text::text_of(
            s.hash,
        ) != text::text_of(disk.hash)) && !e.saving && !e.loading && e.draft is None,
        !e.saving && !e.loading && e.draft is None && disk.hash is Some && (e.snapshot matches Some(s)
            ==> text::text_of(s.hash) != text::text_of(disk.hash)) && e.disk is None
            ==> e.sees_news(disk),
{
}

/// What is selected stays selected as long as it is there; else the first context is, or with none
/// the first cluster, or with none the first user.
pub proof fn the_selection_stays(d: Json, kind: Kind, name: Seq<char>)
    ensures
        document::contains(d, kind, name) ==> editor::selection_in(d, Some((kind, name))) == Some(
            (kind, name),
        ),
        !document::contains(d, kind, name) && document::names(d, Kind::Context).len() > 0
            ==> editor::selection_in(d, Some((kind, name))) == Some(
            (Kind::Context, document::names(d, Kind::Context)[0]),
        ),
        document::names(d, Kind::Context).len() == 0 && document::names(d, Kind::Cluster).len() > 0
            ==> editor::selection_in(d, None) == Some(
            (Kind::Cluster, document::names(d, Kind::Cluster)[0]),
        ),
{
}

/// A new context starts with the first cluster and the first user of the document.
pub proof fn new_contexts_start_with_what_is_there(d: Json)
    requires
        document::names(d, Kind::Cluster).len() > 0,
        document::names(d, Kind::User).len() > 0,
    ensures
        json::field(editor::start_body(d, Kind::Context), "cluster"@) == Some(
            Json::Str(document::names(d, Kind::Cluster)[0]),
        ),
        json::field(editor::start_body(d, Kind::Context), "user"@) == Some(
            Json::Str(document::names(d, Kind::User)[0]),
        ),
{
    reveal_strlit("cluster");
    reveal_strlit("user");
    assert("cluster"@.len() == 7 && "user"@.len() == 4);
    let b = editor::start_body(d, Kind::Context);
    assert(b =~= seq![
        ("cluster"@, Json::Str(document::names(d, Kind::Cluster)[0])),
        ("user"@, Json::Str(document::names(d, Kind::User)[0])),
    ]);
    json::lemma_key_index_is(b, "cluster"@, 0);
    json::lemma_key_index_is(b, "user"@, 1);
}

/// An entry is marked with the worst of its problems: an error before a warning; information isn't
/// marked.
pub proof fn entries_show_their_worst_problem(
    problems: Seq<Issue>,
    kind: Kind,
    name: Seq<char>,
    i: int,
)
    requires
        0 <= i < problems.len(),
        problems[i].entry == Some((kind, name)),
    ensures
        problems[i].severity == Severity::Error ==> editor_view::worst_problem(
            problems,
            kind,
            name,
        ) == Some(Severity::Error),
        problems[i].severity == Severity::Warning ==> editor_view::worst_problem(
            problems,
            kind,
            name,
        ) is Some,
{
}

/// An entry without an error or a warning of its own isn't marked.
pub proof fn entries_without_problems_are_not_marked(
    problems: Seq<Issue>,
    kind: Kind,
    name: Seq<char>,
)
    requires
        forall|i: int|
            0 <= i < problems.len() && (#[trigger] problems[i]).entry == Some((kind, name))
                ==> problems[i].severity == Severity::Info,
    ensures
        editor_view::worst_problem(problems, kind, name) is None,
{
}

// ----- Filters -----

/// Without a filter everything is listed; with one whatever has it in its name, in whatever case.
pub proof fn filters_look_for_names(item: SwitchItem, name: Seq<char>, filter: Seq<char>)
    ensures
        outside::lowercase(filter).len() == 0 ==> switcher::passes(item, filter)
            && editor_view::passes(name, filter),
        text::contains_text(outside::lowercase(item.name@), outside::lowercase(filter))
            ==> switcher::passes(item, filter),
        item.server matches Some(s) ==> text::contains_text(
            outside::lowercase(s@),
            outside::lowercase(filter),
        ) ==> switcher::passes(item, filter),
        outside::lowercase(filter).len() > 0 ==> (editor_view::passes(name, filter)
            <==> text::contains_text(outside::lowercase(name), outside::lowercase(filter))),
{
}

proof fn lemma_places(items: Seq<SwitchItem>, filter: Seq<char>, i: int)
    requires
        0 <= i < items.len(),
    ensures
        switcher::places(items, filter).contains(i) <==> switcher::passes(items[i], filter),
        forall|k: int|
            0 <= k < switcher::places(items, filter).len() ==> 0 <= #[trigger] switcher::places(
                items,
                filter,
            )[k] < items.len(),
        forall|k: int, m: int|
            0 <= k < m < switcher::places(items, filter).len() ==> #[trigger] switcher::places(
                items,
                filter,
            )[k] < #[trigger] switcher::places(items, filter)[m],
    decreases items.len(),
{
    let before = items.drop_last();
    let found = switcher::places(before, filter);
    let all = switcher::places(items, filter);
    if before.len() > 0 {
        lemma_places(before, filter, 0);
    } else {
        assert(found.len() == 0);
    }
    assert forall|k: int| 0 <= k < all.len() implies 0 <= #[trigger] all[k] < items.len() by {
        if k < found.len() {
            assert(all[k] == found[k]);
        }
    }
    assert forall|k: int, m: int| 0 <= k < m < all.len() implies #[trigger] all[k]
        < #[trigger] all[m] by {
        assert(all[k] == found[k]);
        if m < found.len() {
            assert(all[m] == found[m]);
        }
    }
    if i < before.len() {
        lemma_places(before, filter, i);
        assert(before[i] == items[i]);
        if found.contains(i) {
            let k = choose|k: int| 0 <= k < found.len() && found[k] == i;
            assert(all[k] == i);
        }
        if all.contains(i) {
            let k = choose|k: int| 0 <= k < all.len() && all[k] == i;
            if k < found.len() {
                assert(found[k] == i);
            }
        }
    } else {
        if all.contains(i) {
            let k = choose|k: int| 0 <= k < all.len() && all[k] == i;
            if k < found.len() {
                assert(found[k] == i);
            }
        }
        if switcher::passes(items[i], filter) {
            assert(all[all.len() - 1] == i);
        }
    }
}

/// The listed contexts are exactly those that pass the filter, each once and in their order.
pub proof fn filtered_contexts_keep_their_order(
    items: Seq<SwitchItem>,
    filter: Seq<char>,
    i: int,
    k: int,
    m: int,
)
    requires
        0 <= i < items.len(),
        0 <= k < m < switcher::places(items, filter).len(),
    ensures
        switcher::places(items, filter).contains(i) <==> switcher::passes(items[i], filter),
        switcher::places(items, filter)[k] < switcher::places(items, filter)[m],
{
    lemma_places(items, filter, i);
}

// ----- Service accounts -----

/// A service account is asked for exactly if a connected cluster was picked that may be written
/// to, and a namespace and a name were entered.
pub proof fn read_only_clusters_get_no_account(f: SaForm)
    ensures
        sa_dialog::form_error(f) is None <==> f.picked && f.connected && !f.read_only
            && text::trimmed(f.namespace@).len() > 0 && text::trimmed(f.name@).len() > 0,
{
}

/// The draft that comes out holds the token that was given, for the account, the context and the
/// namespace that were asked for; without a token, or without the source's document, there is none.
pub proof fn drafts_hold_the_given_token(
    s: SaSubject,
    token: Result<SaToken, String>,
    source: Result<Doc, String>,
    owned: Seq<char>,
    taken: Seq<Seq<char>>,
)
    ensures
        ({
            let end = sa_dialog::ended(s, token, source, owned, taken);
            &&& token is Err ==> end == Err::<sa_dialog::SaEnd, Seq<char>>(token->Err_0@)
            &&& token is Ok && source is Err ==> end is Err
            &&& end is Ok ==> token is Ok && source is Ok
                && import::service_account_document(
                source->Ok_0@,
                s.dir@,
                s.context@,
                s.namespace@,
                s.name@,
                token->Ok_0.token@,
            ) == Some(end->Ok_0.doc)
        }),
{
}

// ----- Watches -----

/// A namespace that appears is known and reported, one that goes is not known any more; what is
/// known already isn't reported again.
pub proof fn namespaces_come_and_go(
    names: Set<Seq<char>>,
    initializing: Set<Seq<char>>,
    name: String,
    generation: i64,
)
    ensures
        ({
            let came = watches::names_after(
                names,
                initializing,
                WatchEvent::Apply { name, generation },
            );
            let went = watches::names_after(names, initializing, WatchEvent::Delete { name });
            &&& came.0.contains(name@)
            &&& !went.0.contains(name@)
            &&& forall|other: Seq<char>|
                other != name@ ==> (#[trigger] came.0.contains(other) <==> names.contains(other))
            &&& forall|other: Seq<char>|
                other != name@ ==> (#[trigger] went.0.contains(other) <==> names.contains(other))
            &&& watches::reported(names, (WatchEvent::Apply { name, generation }))
                <==> !names.contains(name@)
            &&& watches::reported(names, (WatchEvent::Delete { name })) <==> names.contains(name@)
        }),
{
}

/// Of a kind of resource that was changed only the new generation is known, and that is reported;
/// one that goes isn't known any more, which is reported too. The others stay.
pub proof fn resource_kinds_come_and_go(
    known: Set<(Seq<char>, i64)>,
    initializing: Set<(Seq<char>, i64)>,
    ready: bool,
    name: String,
    generation: i64,
    other: (Seq<char>, i64),
)
    ensures
        ({
            let apply = WatchEvent::Apply { name, generation };
            let delete = WatchEvent::Delete { name };
            let came = watches::crds_after(known, initializing, apply).0;
            let went = watches::crds_after(known, initializing, delete).0;
            &&& came.contains((name@, generation))
            &&& other.0 == name@ && other.1 != generation ==> !came.contains(other)
            &&& other.0 != name@ ==> (came.contains(other) <==> known.contains(other))
            &&& other.0 == name@ ==> !went.contains(other)
            &&& other.0 != name@ ==> (went.contains(other) <==> known.contains(other))
            &&& !known.contains((name@, generation)) ==> watches::crds_reported(
                known,
                initializing,
                ready,
                apply,
            )
            &&& watches::crds_reported(known, initializing, ready, delete)
            &&& watches::crds_reported(known, initializing, false, WatchEvent::InitDone)
            &&& !watches::crds_reported(known, known, true, WatchEvent::InitDone)
            &&& initializing != known ==> watches::crds_reported(
                known,
                initializing,
                ready,
                WatchEvent::InitDone,
            )
            &&& watches::crds_after(known, initializing, WatchEvent::InitDone).0 == initializing
        }),
{
}

/// How long a token is asked for is called what it is.
pub proof fn durations_are_called_what_they_are(i: int)
    requires
        0 <= i < sa_dialog::durations().len(),
    ensures
        sa_dialog::durations()[i].1 == sa_dialog::duration_name(sa_dialog::durations()[i].0),
        sa_dialog::duration_name(3_600) == "1 hour"@,
        sa_dialog::duration_name(28_800) == "8 hours"@,
        sa_dialog::duration_name(86_400) == "1 day"@,
        sa_dialog::duration_name(604_800) == "7 days"@,
        sa_dialog::duration_name(2_592_000) == "30 days"@,
        sa_dialog::duration_name(31_536_000) == "1 year"@,
{
    let d = sa_dialog::durations();
    assert(d[0].0 == 3_600 && d[1].0 == 28_800 && d[2].0 == 86_400);
    assert(d[3].0 == 604_800 && d[4].0 == 2_592_000 && d[5].0 == 31_536_000);
}

/// A new entry gets a name that isn't taken.
pub proof fn new_entries_have_free_names(d: Json, kind: Kind)
    ensures
        !document::contains(d, kind, editor::start_name(d, kind)),
{
    document::unique_name_is_free(
        d,
        kind,
        match kind {
            Kind::Context => "new-context"@,
            Kind::Cluster => "new-cluster"@,
            Kind::User => "new-user"@,
        },
    );
}

/// What is pasted is named as typed, or else after its first context.
pub proof fn pasted_documents_are_named_after_their_context(
    typed: Seq<char>,
    contexts: Seq<Seq<char>>,
)
    ensures
        text::trimmed(typed).len() > 0 ==> paste::paste_name(typed, contexts) == text::trimmed(
            typed,
        ),
        text::trimmed(typed).len() == 0 && contexts.len() > 0 ==> paste::paste_name(
            typed,
            contexts,
        ) == contexts[0],
{
}

/// A context is found by its id: of several the first.
pub proof fn contexts_are_found_by_id(items: Seq<SwitchItem>, id: Seq<char>)
    ensures
        match switcher::place_of(items, id) {
            Some(i) => 0 <= i < items.len() && items[i].id@ == id && forall|j: int|
                0 <= j < i ==> (#[trigger] items[j]).id@ != id,
            None => forall|j: int| 0 <= j < items.len() ==> (#[trigger] items[j]).id@ != id,
        },
    decreases items.len(),
{
    if items.len() > 0 {
        let before = items.drop_last();
        contexts_are_found_by_id(before, id);
        assert forall|j: int| 0 <= j < before.len() implies #[trigger] items[j] == before[j] by {}
    }
}

} // verus!
