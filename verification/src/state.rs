//! What outlives a dialog or a tab: connection tests, OIDC sign-ins started from a test,
//! exec-plugin consent, and unsaved new documents.

use crate::certs::Moment;
use crate::conntest::Input;
use crate::consent;
use crate::credentials;
use crate::exec::{self, ExecSpec};
use crate::json::{self, Json};
use crate::model::{Doc, Kind};
use crate::report::{self, Report};
use crate::table::{Table, TestKey};
use crate::text::{self, cat, same};
use std::collections::{HashMap, HashSet};
use vstd::prelude::*;

verus! {

/// A test and what it is of.
pub struct TestRun {
    pub report: Report,
    pub input: Input,
}

/// The progress of an OIDC sign-in started from a test.
#[derive(Debug, PartialEq, Eq)]
pub enum SignInState {
    Starting,
    WaitingForBrowser { url: String },
    DeviceCode { user_code: String, verification_uri: String },
    Failed(String),
}

/// A new document that isn't saved yet (an editor tab shows it).
pub struct Draft {
    pub doc: Doc,
    /// Where it's saved by default (a Kubyl-owned path).
    pub path: String,
    pub title: String,
}

/// "Select this context (and test it)" for an editor that opens or is open.
#[derive(Debug)]
pub struct Pending {
    pub path: String,
    pub context: Option<String>,
    pub test: bool,
}

/// What is asked of the editor of a path.
pub open spec fn pending_of(v: Seq<Pending>, path: Seq<char>) -> Option<(Option<Seq<char>>, bool)>
    decreases v.len(),
{
    if v.len() == 0 {
        None
    } else if v[0].path@ == path {
        Some((text::text_of(v[0].context), v[0].test))
    } else {
        pending_of(v.drop_first(), path)
    }
}

pub struct Kubeconfigs {
    pub tests: Table<TestRun>,
    pub sign_ins: Table<SignInState>,
    /// Exec plugins the user agreed to run in this session, by [`ExecSpec::consent_key`].
    pub consents: HashSet<u64>,
    pub drafts: HashMap<u64, Draft>,
    pub pending: Vec<Pending>,
    pub last_id: u64,
}

/// What to do after a sign-in ended.
#[derive(Debug)]
pub enum AfterSignIn {
    /// Run the test again.
    Retest,
    /// Say this.
    Notify(String),
}

// ----- Exec consent -----

/// The exec plugin of a context, with its user.
pub open spec fn plugin_of_context(d: Json, context: Seq<char>) -> Option<
    (Seq<char>, exec::Plugin),
> {
    match credentials::exec_block(d, context) {
        Some((user, block)) => match exec::plugin_of(block) {
            Some(p) => Some((user, p)),
            None => None,
        },
        None => None,
    }
}

/// The exec plugin of a user.
pub open spec fn plugin_of_user(d: Json, user: Seq<char>) -> Option<exec::Plugin> {
    match crate::document::body(d, Kind::User, user) {
        Some(body) => match json::field(body, "exec"@) {
            Some(block) => exec::plugin_of(block),
            None => None,
        },
        None => None,
    }
}

/// The exec plugin of a context that isn't the one its user has in the saved file.
pub open spec fn unsaved_plugin(d: Json, saved: Option<Json>, context: Seq<char>) -> Option<
    exec::Plugin,
> {
    match plugin_of_context(d, context) {
        None => None,
        Some((user, p)) => {
            let before = match saved {
                Some(s) => plugin_of_user(s, user),
                None => None,
            };
            match before {
                Some(b) if b == p => None,
                _ => Some(p),
            }
        },
    }
}

fn same_pairs(a: &Vec<(String, String)>, b: &Vec<(String, String)>) -> (r: bool)
    ensures
        r == (exec::pair_texts(a@) == exec::pair_texts(b@)),
{
    let ghost x = exec::pair_texts(a@);
    let ghost y = exec::pair_texts(b@);
    if a.len() != b.len() {
        assert(x.len() != y.len());
        return false;
    }
    let mut i: usize = 0;
    while i < a.len()
        invariant
            i <= a@.len() == b@.len(),
            x == exec::pair_texts(a@),
            y == exec::pair_texts(b@),
            forall|j: int| 0 <= j < i ==> #[trigger] x[j] == y[j],
        decreases a@.len() - i,
    {
        assert(x[i as int] == (a@[i as int].0@, a@[i as int].1@));
        assert(y[i as int] == (b@[i as int].0@, b@[i as int].1@));
        if !same(a[i].0.as_str(), b[i].0.as_str()) || !same(a[i].1.as_str(), b[i].1.as_str()) {
            assert(x[i as int] != y[i as int]);
            return false;
        }
        i += 1;
    }
    assert(x =~= y);
    true
}

/// Whether two plugins are the same.
pub fn same_plugin(a: &ExecSpec, b: &ExecSpec) -> (r: bool)
    ensures
        r == (a@ == b@),
{
    same(a.command.as_str(), b.command.as_str()) && text::same_texts(&a.args, &b.args) && same_pairs(
        &a.env,
        &b.env,
    ) && same(a.api_version.as_str(), b.api_version.as_str()) && same(
        a.interactive_mode.as_str(),
        b.interactive_mode.as_str(),
    ) && a.provide_cluster_info == b.provide_cluster_info
}

/// The exec plugin of a user.
pub fn user_plugin(doc: &Doc, user: &str) -> (r: Option<ExecSpec>)
    ensures
        match r {
            Some(spec) => plugin_of_user(doc@, user@) == Some(spec@),
            None => plugin_of_user(doc@, user@) is None,
        },
{
    match doc.body(Kind::User, user) {
        Some(body) => match body.get("exec") {
            Some(block) => ExecSpec::read(block),
            None => None,
        },
        None => None,
    }
}

/// The exec plugin of `context` that isn't the one the saved, loaded file has (`saved`).
pub fn exec_to_ask(doc: &Doc, saved: Option<&Doc>, context: &str) -> (r: Option<ExecSpec>)
    ensures
        ({
            let wanted = unsaved_plugin(
                doc@,
                match saved {
                    Some(s) => Some(s@),
                    None => None,
                },
                context@,
            );
            match r {
                Some(spec) => wanted == Some(spec@),
                None => wanted is None,
            }
        }),
{
    let (user, spec): (String, ExecSpec) = match exec::exec_of(doc, context) {
        Some(found) => found,
        None => {
            return None;
        },
    };
    let before: Option<ExecSpec> = match saved {
        Some(s) => user_plugin(s, user.as_str()),
        None => None,
    };
    if let Some(before) = before {
        if same_plugin(&before, &spec) {
            return None;
        }
    }
    Some(spec)
}

impl Kubeconfigs {
    /// The tables are sound, and no draft has an id that isn't given out yet.
    pub open spec fn well_formed(&self) -> bool {
        &&& self.tests.well_formed()
        &&& self.sign_ins.well_formed()
        &&& forall|id: u64| self.drafts@.contains_key(id) ==> 0 < id <= self.last_id
    }

    pub fn new() -> (r: Kubeconfigs)
        ensures
            r.well_formed(),
            r.tests@ == Map::<(Seq<char>, Seq<char>), TestRun>::empty(),
            r.sign_ins@ == Map::<(Seq<char>, Seq<char>), SignInState>::empty(),
            r.consents@ == Set::<u64>::empty(),
            r.drafts@ == Map::<u64, Draft>::empty(),
            r.pending@.len() == 0,
            r.last_id == 0,
    {
        Kubeconfigs {
            tests: Table::new(),
            sign_ins: Table::new(),
            consents: HashSet::new(),
            drafts: HashMap::new(),
            pending: Vec::new(),
            last_id: 0,
        }
    }

    /// A fresh id for drafts and wizards.
    pub fn next_id(&mut self) -> (r: u64)
        requires
            old(self).well_formed(),
            old(self).last_id < u64::MAX,
        ensures
            r == old(self).last_id + 1,
            *final(self) == (Kubeconfigs { last_id: r, ..*old(self) }),
            final(self).well_formed(),
            !final(self).drafts@.contains_key(r),
    {
        self.last_id = self.last_id + 1;
        self.last_id
    }

    // ----- Tests -----

    pub fn report(&self, key: &TestKey) -> (r: Option<&Report>)
        requires
            self.well_formed(),
        ensures
            match r {
                Some(report) => self.tests@.contains_key(key@) && self.tests@[key@].report
                    == *report,
                None => !self.tests@.contains_key(key@),
            },
    {
        match self.tests.get(key) {
            Some(run) => Some(&run.report),
            None => None,
        }
    }

    /// Every report of a document, by context.
    pub fn reports_of(&self, doc: &str) -> (r: Vec<(&str, &TestRun)>)
        requires
            self.well_formed(),
        ensures
            forall|i: int|
                0 <= i < r@.len() ==> self.tests@.contains_key((doc@, (#[trigger] r@[i]).0@))
                    && self.tests@[(doc@, r@[i].0@)] == *r@[i].1,
            forall|context: Seq<char>|
                #[trigger] self.tests@.contains_key((doc@, context)) ==> exists|i: int|
                    0 <= i < r@.len() && (#[trigger] r@[i]).0@ == context,
            forall|i: int, j: int|
                0 <= i < j < r@.len() ==> (#[trigger] r@[i]).0@ != (#[trigger] r@[j]).0@,
    {
        self.tests.of_doc(doc)
    }

    pub fn is_running(&self, key: &TestKey) -> (r: bool)
        requires
            self.well_formed(),
        ensures
            r == (self.tests@.contains_key(key@) && !self.tests@[key@].report.done),
    {
        match self.report(key) {
            Some(report) => !report.done,
            None => false,
        }
    }

    /// Starts (or restarts) a test at a moment. The caller has checked exec consent
    /// ([`Self::needs_consent`]) and set `input.allow_exec`.
    pub fn test(&mut self, key: TestKey, input: Input, started: Moment)
        requires
            old(self).well_formed(),
        ensures
            final(self).well_formed(),
            final(self).tests@.contains_key(key@),
            final(self).tests@ == old(self).tests@.insert(key@, final(self).tests@[key@]),
            final(self).tests@[key@].input == input,
            final(self).tests@[key@].report@ == report::new_report(key.context@, started),
            *final(self) == (Kubeconfigs { tests: final(self).tests, ..*old(self) }),
    {
        let report: Report = Report::starting_at(key.context.as_str(), started);
        self.tests.set(key, TestRun { report, input });
    }

    /// The progress of a test. It is lost if the test was forgotten meanwhile.
    pub fn progress(&mut self, key: &TestKey, report: Report)
        requires
            old(self).well_formed(),
        ensures
            final(self).well_formed(),
            final(self).tests@ == if old(self).tests@.contains_key(key@) {
                old(self).tests@.insert(
                    key@,
                    TestRun { report, input: old(self).tests@[key@].input },
                )
            } else {
                old(self).tests@
            },
            *final(self) == (Kubeconfigs { tests: final(self).tests, ..*old(self) }),
    {
        let ghost before = self.tests@;
        if let Some(run) = self.tests.take(key) {
            self.tests.set(key.clone(), TestRun { report, input: run.input });
            assert(self.tests@ =~= before.insert(key@, TestRun { report, input: run.input }));
        } else {
            assert(self.tests@ =~= before);
        }
    }

    /// Runs the last test of `key` again (after a sign-in or a fix). Whether there was one.
    pub fn retest(&mut self, key: &TestKey, started: Moment) -> (r: bool)
        requires
            old(self).well_formed(),
        ensures
            final(self).well_formed(),
            r == old(self).tests@.contains_key(key@),
            !r ==> final(self).tests@ == old(self).tests@,
            r ==> final(self).tests@.contains_key(key@) && final(self).tests@
                == old(self).tests@.insert(key@, final(self).tests@[key@])
                && final(self).tests@[key@].input == old(self).tests@[key@].input
                && final(self).tests@[key@].report@ == report::new_report(key@.1, started),
            *final(self) == (Kubeconfigs { tests: final(self).tests, ..*old(self) }),
    {
        let ghost before = self.tests@;
        match self.tests.take(key) {
            Some(run) => {
                let key: TestKey = key.clone();
                let ghost k = key@;
                self.test(key, run.input, started);
                assert(self.tests@ =~= before.insert(k, self.tests@[k]));
                true
            },
            None => {
                assert(self.tests@ =~= before);
                false
            },
        }
    }

    /// Forgets the tests of a document (its tab closed, or it was saved under a new path).
    pub fn forget(&mut self, doc: &str)
        requires
            old(self).well_formed(),
        ensures
            final(self).well_formed(),
            final(self).tests@ == old(self).tests@.restrict(
                Set::new(|key: (Seq<char>, Seq<char>)| key.0 != doc@),
            ),
            final(self).sign_ins@ == old(self).sign_ins@.restrict(
                Set::new(|key: (Seq<char>, Seq<char>)| key.0 != doc@),
            ),
            *final(self) == (Kubeconfigs {
                tests: final(self).tests,
                sign_ins: final(self).sign_ins,
                ..*old(self)
            }),
    {
        self.tests.forget(doc);
        self.sign_ins.forget(doc);
    }

    // ----- Exec consent -----

    /// Whether the user agreed to run a plugin in this session.
    pub open spec fn agreed_to(&self, p: exec::Plugin) -> bool {
        exists|key: u64| #[trigger] self.consents@.contains(key) && key == consent::id_of(p)
    }

    /// Whether the user agreed to the plugin with this key.
    pub fn agreed(&self, key: u64) -> (r: bool)
        ensures
            r == self.consents@.contains(key),
    {
        broadcast use vstd::std_specs::hash::group_hash_axioms;

        self.consents.contains(&key)
    }

    /// Notes that the user agreed to the plugin with this key.
    pub fn agree(&mut self, key: u64)
        ensures
            final(self).consents@ == old(self).consents@.insert(key),
            *final(self) == (Kubeconfigs { consents: final(self).consents, ..*old(self) }),
    {
        broadcast use vstd::std_specs::hash::group_hash_axioms;

        self.consents.insert(key);
    }

    /// The exec plugin of `context` when running it needs the user's OK: it isn't the one the
    /// saved, loaded file has (`saved`), and the user didn't agree to it in this session.
    /// Whether the plugin is interactive doesn't matter.
    pub fn needs_consent(&self, doc: &Doc, saved: Option<&Doc>, context: &str) -> (r: Option<
        ExecSpec,
    >)
        ensures
            ({
                let wanted = unsaved_plugin(
                    doc@,
                    match saved {
                        Some(s) => Some(s@),
                        None => None,
                    },
                    context@,
                );
                match wanted {
                    Some(p) if !self.agreed_to(p) => r is Some && r->0@ == p,
                    _ => r is None,
                }
            }),
    {
        match exec_to_ask(doc, saved, context) {
            Some(spec) => if self.agreed(spec.consent_key()) {
                None
            } else {
                Some(spec)
            },
            None => None,
        }
    }

    /// Notes that the user agreed to run a plugin.
    pub fn consent(&mut self, spec: &ExecSpec)
        ensures
            forall|p: exec::Plugin| #[trigger]
                final(self).agreed_to(p) == (old(self).agreed_to(p) || consent::id_of(p)
                    == consent::id_of(spec@)),
            *final(self) == (Kubeconfigs { consents: final(self).consents, ..*old(self) }),
    {
        let key: u64 = spec.consent_key();
        self.agree(key);
        assert forall|p: exec::Plugin| #[trigger]
            self.agreed_to(p) == (old(self).agreed_to(p) || consent::id_of(p) == consent::id_of(
                spec@,
            )) by {
            assert(self.consents@.contains(key));
            if old(self).agreed_to(p) {
                let k = choose|k: u64| #[trigger]
                    old(self).consents@.contains(k) && k == consent::id_of(p);
                assert(self.consents@.contains(k));
            }
            if self.agreed_to(p) && consent::id_of(p) != consent::id_of(spec@) {
                let k = choose|k: u64| #[trigger]
                    self.consents@.contains(k) && k == consent::id_of(p);
                assert(old(self).consents@.contains(k));
            }
        }
    }

    // ----- OIDC sign-in -----

    pub fn sign_in_state(&self, key: &TestKey) -> (r: Option<&SignInState>)
        requires
            self.well_formed(),
        ensures
            match r {
                Some(s) => self.sign_ins@.contains_key(key@) && self.sign_ins@[key@] == *s,
                None => !self.sign_ins@.contains_key(key@),
            },
    {
        self.sign_ins.get(key)
    }

    /// A sign-in starts (in place of an earlier one).
    pub fn sign_in(&mut self, key: TestKey)
        requires
            old(self).well_formed(),
        ensures
            final(self).well_formed(),
            final(self).sign_ins@ == old(self).sign_ins@.insert(key@, SignInState::Starting),
            *final(self) == (Kubeconfigs { sign_ins: final(self).sign_ins, ..*old(self) }),
    {
        self.sign_ins.set(key, SignInState::Starting);
    }

    /// The progress of a sign-in. It is lost if the sign-in was cancelled meanwhile.
    pub fn sign_in_progress(&mut self, key: &TestKey, state: SignInState)
        requires
            old(self).well_formed(),
        ensures
            final(self).well_formed(),
            final(self).sign_ins@ == if old(self).sign_ins@.contains_key(key@) {
                old(self).sign_ins@.insert(key@, state)
            } else {
                old(self).sign_ins@
            },
            *final(self) == (Kubeconfigs { sign_ins: final(self).sign_ins, ..*old(self) }),
    {
        if self.sign_ins.get(key).is_some() {
            self.sign_ins.set(key.clone(), state);
        }
    }

    /// A sign-in ended: the test runs again, or the failure is kept and said.
    pub fn sign_in_done(&mut self, key: &TestKey, result: Result<(), String>) -> (r: AfterSignIn)
        requires
            old(self).well_formed(),
        ensures
            final(self).well_formed(),
            match result {
                Ok(_) => r is Retest && final(self).sign_ins@ == old(self).sign_ins@.remove(key@),
                Err(e) => r is Notify && r->Notify_0@ == "Sign-in failed: "@ + e@
                    && final(self).sign_ins@ == if old(self).sign_ins@.contains_key(key@) {
                    old(self).sign_ins@.insert(key@, SignInState::Failed(e))
                } else {
                    old(self).sign_ins@
                },
            },
            *final(self) == (Kubeconfigs { sign_ins: final(self).sign_ins, ..*old(self) }),
    {
        match result {
            Ok(_) => {
                self.sign_ins.take(key);
                AfterSignIn::Retest
            },
            Err(e) => {
                let note: String = cat("Sign-in failed: ", e.as_str());
                self.sign_in_progress(key, SignInState::Failed(e));
                AfterSignIn::Notify(note)
            },
        }
    }

    pub fn cancel_sign_in(&mut self, key: &TestKey)
        requires
            old(self).well_formed(),
        ensures
            final(self).well_formed(),
            final(self).sign_ins@ == old(self).sign_ins@.remove(key@),
            *final(self) == (Kubeconfigs { sign_ins: final(self).sign_ins, ..*old(self) }),
    {
        self.sign_ins.take(key);
    }

    // ----- Opening editors -----

    /// Asks the editor of `path` to select `context` and optionally test it.
    pub fn request(&mut self, path: &str, context: Option<String>, test: bool)
        ensures
            pending_of(final(self).pending@, path@) == Some((text::text_of(context), test)),
            forall|other: Seq<char>|
                other != path@ ==> #[trigger] pending_of(final(self).pending@, other)
                    == pending_of(old(self).pending@, other),
            *final(self) == (Kubeconfigs { pending: final(self).pending, ..*old(self) }),
    {
        let ghost before = self.pending@;
        let pending = Pending { path: path.to_string(), context, test };
        self.pending.insert(0, pending);
        assert(self.pending@.drop_first() =~= before);
    }

    /// Takes what is asked of the editor of `path`.
    pub fn take_pending(&mut self, path: &str) -> (r: Option<(Option<String>, bool)>)
        ensures
            pending_of(old(self).pending@, path@) == match r {
                Some((context, test)) => Some((text::text_of(context), test)),
                None => None,
            },
            pending_of(final(self).pending@, path@) is None,
            forall|other: Seq<char>|
                other != path@ ==> #[trigger] pending_of(final(self).pending@, other)
                    == pending_of(old(self).pending@, other),
            *final(self) == (Kubeconfigs { pending: final(self).pending, ..*old(self) }),
    {
        let ghost start = self.pending@;
        let mut found: Option<(Option<String>, bool)> = None;
        let mut i: usize = 0;
        assert(start.take(0) =~= Seq::empty());
        while i < self.pending.len()
            invariant
                i <= self.pending@.len(),
                *self == (Kubeconfigs { pending: self.pending, ..*old(self) }),
                forall|j: int| 0 <= j < i ==> (#[trigger] self.pending@[j]).path@ != path@,
                match found {
                    Some((context, test)) => pending_of(start, path@) == Some(
                        (text::text_of(context), test),
                    ),
                    None => pending_of(start, path@) == pending_of(self.pending@, path@),
                },
                forall|other: Seq<char>|
                    other != path@ ==> #[trigger] pending_of(self.pending@, other) == pending_of(
                        start,
                        other,
                    ),
            decreases self.pending@.len() - i,
        {
            let ghost before = self.pending@;
            if same(self.pending[i].path.as_str(), path) {
                let taken: Pending = self.pending.remove(i);
                proof {
                    lemma_first_pending(before, path@, i as int);
                    assert forall|other: Seq<char>| other != path@ implies #[trigger] pending_of(
                        self.pending@,
                        other,
                    ) == pending_of(start, other) by {
                        lemma_other_pending(before, other, i as int);
                    }
                }
                if found.is_none() {
                    found = Some((taken.context, taken.test));
                }
            } else {
                i += 1;
            }
        }
        proof {
            lemma_no_pending(self.pending@, path@);
        }
        found
    }

    // ----- Drafts -----

    /// Keeps a draft under a fresh id.
    pub fn add_draft(&mut self, draft: Draft) -> (id: u64)
        requires
            old(self).well_formed(),
            old(self).last_id < u64::MAX,
        ensures
            final(self).well_formed(),
            !old(self).drafts@.contains_key(id),
            final(self).drafts@ == old(self).drafts@.insert(id, draft),
            *final(self) == (Kubeconfigs {
                drafts: final(self).drafts,
                last_id: id,
                ..*old(self)
            }),
    {
        broadcast use vstd::std_specs::hash::group_hash_axioms;

        let id: u64 = self.next_id();
        self.drafts.insert(id, draft);
        id
    }

    /// Takes a draft.
    pub fn take_draft(&mut self, id: u64) -> (r: Option<Draft>)
        requires
            old(self).well_formed(),
        ensures
            final(self).well_formed(),
            match r {
                Some(draft) => old(self).drafts@.contains_key(id) && old(self).drafts@[id]
                    == draft,
                None => !old(self).drafts@.contains_key(id),
            },
            final(self).drafts@ == old(self).drafts@.remove(id),
            *final(self) == (Kubeconfigs { drafts: final(self).drafts, ..*old(self) }),
    {
        broadcast use vstd::std_specs::hash::group_hash_axioms;

        self.drafts.remove(&id)
    }
}

proof fn lemma_first_pending(v: Seq<Pending>, path: Seq<char>, i: int)
    requires
        0 <= i < v.len(),
        v[i].path@ == path,
        forall|j: int| 0 <= j < i ==> (#[trigger] v[j]).path@ != path,
    ensures
        pending_of(v, path) == Some((text::text_of(v[i].context), v[i].test)),
    decreases i,
{
    if i > 0 {
        assert(v[0].path@ != path);
        lemma_first_pending(v.drop_first(), path, i - 1);
    }
}

proof fn lemma_other_pending(v: Seq<Pending>, other: Seq<char>, i: int)
    requires
        0 <= i < v.len(),
        v[i].path@ != other,
    ensures
        pending_of(v.remove(i), other) == pending_of(v, other),
    decreases i,
{
    if i == 0 {
        assert(v.remove(0) =~= v.drop_first());
    } else {
        assert(v.remove(i).drop_first() =~= v.drop_first().remove(i - 1));
        assert(v.remove(i)[0] == v[0]);
        lemma_other_pending(v.drop_first(), other, i - 1);
    }
}

proof fn lemma_no_pending(v: Seq<Pending>, path: Seq<char>)
    requires
        forall|j: int| 0 <= j < v.len() ==> (#[trigger] v[j]).path@ != path,
    ensures
        pending_of(v, path) is None,
    decreases v.len(),
{
    if v.len() > 0 {
        lemma_no_pending(v.drop_first(), path);
    }
}

// ----- Laws -----

/// A plugin that is saved and unchanged needs no consent.
pub proof fn a_saved_plugin_needs_no_consent(d: Json, context: Seq<char>)
    ensures
        unsaved_plugin(d, Some(d), context) is None,
{
}

/// A plugin of a new document always needs consent.
pub proof fn a_new_plugin_needs_consent(d: Json, context: Seq<char>)
    requires
        plugin_of_context(d, context) is Some,
    ensures
        match plugin_of_context(d, context) {
            Some((_, p)) => unsaved_plugin(d, None, context) == Some(p),
            None => false,
        },
{
}

/// A plugin that differs from the saved one needs consent.
pub proof fn a_changed_plugin_needs_consent(d: Json, saved: Json, context: Seq<char>)
    requires
        match plugin_of_context(d, context) {
            Some((user, p)) => match plugin_of_user(saved, user) {
                Some(b) => b != p,
                None => true,
            },
            None => false,
        },
    ensures
        unsaved_plugin(d, Some(saved), context) is Some,
{
}

} // verus!
