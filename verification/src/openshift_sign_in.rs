//! The OpenShift sign-in, like `oc login`: through the browser (`--web`), with a username and
//! password (`-u`), or with a token from the "Copy login command" page (`--token`).

use crate::sign_in::{StatusBox, StatusView};
use crate::text::{self, cat, cat3, cat4, same, trim};
use vstd::prelude::*;

verus! {

/// How the user signs in.
#[derive(Clone, Copy, Debug, PartialEq, Eq, Structural)]
pub enum Method {
    Browser,
    Password,
    Token,
}

impl Method {
    pub const ALL: [Method; 3] = [Method::Browser, Method::Password, Method::Token];

    pub fn label(self) -> (r: &'static str)
        ensures
            r@ == match self {
                Method::Browser => "Browser"@,
                Method::Password => "Username & password"@,
                Method::Token => "Token"@,
            },
    {
        match self {
            Method::Browser => "Browser",
            Method::Password => "Username & password",
            Method::Token => "Token",
        }
    }
}

/// Where a sign-in is.
#[derive(Debug)]
pub enum Phase {
    Idle,
    Working,
    Browser { url: String, redirect_uri: String },
    Failed(String),
}

/// The OAuth server of a cluster.
#[derive(Debug)]
pub struct OauthServer {
    pub issuer: String,
    /// The page that shows a token.
    pub token_page: String,
    /// It supports the browser sign-in.
    pub browser: bool,
}

/// A sign-in.
#[derive(Debug)]
pub struct OpenShiftSignIn {
    /// The cluster's name.
    pub name: String,
    pub server: String,
    pub user: String,
    /// Where tokens are stored, in words.
    pub store: String,
    pub method: Method,
    pub phase: Phase,
    /// The OAuth server, or why it couldn't be read; none until it answered.
    pub oauth: Option<Result<OauthServer, String>>,
    /// A sign-in was started, and not cancelled.
    pub running: bool,
    /// The method's first empty input gets focus when it's shown next.
    pub pending_focus: bool,
}

/// What is to be sent.
#[derive(Debug)]
pub enum Submit {
    Nothing,
    Browser,
    Password { username: String, password: String },
    Token(String),
}

/// An input of the dialog.
#[derive(Clone, Copy, Debug, PartialEq, Eq, Structural)]
pub enum Focus {
    Nowhere,
    Username,
    Password,
    Token,
}

impl OpenShiftSignIn {
    /// A new sign-in. `hint` is the user name that the kubeconfig's user suggests: the cluster
    /// admin has a password; for others the browser sign-in starts once the OAuth server is known
    /// to support it.
    pub fn new(name: String, server: String, user: String, store: String, hint: &str) -> (r:
        OpenShiftSignIn)
        ensures
            r.name == name && r.server == server && r.user == user && r.store == store,
            r.oauth is None,
            !r.running,
            r.pending_focus,
            if hint@ == "kubeadmin"@ {
                r.method == Method::Password && r.phase is Idle
            } else {
                r.method == Method::Browser && r.phase is Working
            },
    {
        let admin: bool = same(hint, "kubeadmin");
        OpenShiftSignIn {
            name,
            server,
            user,
            store,
            method: if admin {
                Method::Password
            } else {
                Method::Browser
            },
            phase: if admin {
                Phase::Idle
            } else {
                Phase::Working
            },
            oauth: None,
            running: false,
            pending_focus: true,
        }
    }

    /// The OAuth server answered: start the browser sign-in (true), or switch to a token when the
    /// cluster can't do it.
    pub fn on_metadata(&mut self, result: Result<OauthServer, String>) -> (r: bool)
        ensures
            ({
                let s = *old(self);
                let waiting = s.method == Method::Browser && !s.running;
                match result {
                    Err(e) => !r && (if waiting {
                        final(self).phase is Failed && final(self).phase->Failed_0@ == e@
                    } else {
                        final(self).phase == s.phase
                    }) && *final(self) == (OpenShiftSignIn {
                        oauth: Some(result),
                        phase: final(self).phase,
                        ..s
                    }),
                    Ok(server) => if server.browser {
                        r == waiting && *final(self) == (if waiting {
                            OpenShiftSignIn {
                                oauth: Some(result),
                                phase: Phase::Working,
                                running: true,
                                ..s
                            }
                        } else {
                            OpenShiftSignIn { oauth: Some(result), ..s }
                        })
                    } else {
                        !r && *final(self) == (if s.method == Method::Browser {
                            OpenShiftSignIn {
                                oauth: Some(result),
                                method: Method::Token,
                                phase: Phase::Idle,
                                pending_focus: true,
                                ..s
                            }
                        } else {
                            OpenShiftSignIn { oauth: Some(result), ..s }
                        })
                    },
                }
            }),
    {
        let waiting: bool = self.method == Method::Browser && !self.running;
        let supported: Option<bool> = match &result {
            Ok(server) => Some(server.browser),
            Err(e) => {
                if waiting {
                    self.phase = Phase::Failed(e.clone());
                }
                None
            },
        };
        self.oauth = Some(result);
        match supported {
            Some(true) => if waiting {
                self.run();
                true
            } else {
                false
            },
            Some(false) => {
                if self.method == Method::Browser {
                    self.method = Method::Token;
                    self.phase = Phase::Idle;
                    self.pending_focus = true;
                }
                false
            },
            None => false,
        }
    }

    fn run(&mut self)
        ensures
            *final(self) == (OpenShiftSignIn {
                phase: Phase::Working,
                running: true,
                ..*old(self)
            }),
    {
        self.phase = Phase::Working;
        self.running = true;
    }

    /// Another method was picked; that cancels a running sign-in. True if the browser sign-in is
    /// to be started.
    pub fn select(&mut self, method: Method) -> (r: bool)
        ensures
            r == (method == Method::Browser && match old(self).oauth {
                Some(Ok(_)) => true,
                _ => false,
            }),
            final(self).method == method,
            final(self).pending_focus,
            final(self).running == r,
            match (method, old(self).oauth) {
                (Method::Browser, Some(Ok(_))) => final(self).phase is Working,
                (Method::Browser, None) => final(self).phase is Working,
                (Method::Browser, Some(Err(e))) => final(self).phase is Failed
                    && final(self).phase->Failed_0@ == e@,
                _ => final(self).phase is Idle,
            },
            *final(self) == (OpenShiftSignIn {
                method,
                phase: final(self).phase,
                running: r,
                pending_focus: true,
                ..*old(self)
            }),
    {
        self.running = false;
        self.method = method;
        self.phase = Phase::Idle;
        self.pending_focus = true;
        if method == Method::Browser {
            let failed: Option<String> = match &self.oauth {
                Some(Ok(_)) => {
                    self.run();
                    return true;
                },
                None => None,
                Some(Err(e)) => Some(e.clone()),
            };
            match failed {
                // The answer of the OAuth server starts it.
                None => {
                    self.phase = Phase::Working;
                },
                Some(e) => {
                    self.phase = Phase::Failed(e);
                },
            }
        }
        false
    }

    /// The input that gets focus, if it's time: the first empty one of the method.
    pub fn apply_focus(&mut self, username: &str) -> (r: Focus)
        ensures
            *final(self) == (OpenShiftSignIn { pending_focus: false, ..*old(self) }),
            r == if !old(self).pending_focus {
                Focus::Nowhere
            } else {
                match old(self).method {
                    Method::Browser => Focus::Nowhere,
                    Method::Password => if text::trimmed(username@).len() == 0 {
                        Focus::Username
                    } else {
                        Focus::Password
                    },
                    Method::Token => Focus::Token,
                }
            },
    {
        if !self.pending_focus {
            return Focus::Nowhere;
        }
        self.pending_focus = false;
        match self.method {
            Method::Browser => Focus::Nowhere,
            Method::Password => if trim(username).as_str().is_empty() {
                Focus::Username
            } else {
                Focus::Password
            },
            Method::Token => Focus::Token,
        }
    }

    /// A sign-in is at work.
    pub open spec fn busy(&self) -> bool {
        self.phase is Working || self.phase is Browser
    }

    fn is_busy(&self) -> (r: bool)
        ensures
            r == self.busy(),
    {
        match &self.phase {
            Phase::Working => true,
            Phase::Browser { url: _, redirect_uri: _ } => true,
            _ => false,
        }
    }

    /// The primary button was pressed. Nothing happens while a sign-in is at work.
    pub fn submit(&mut self, username: &str, password: &str, token: &str) -> (r: Submit)
        ensures
            ({
                let s = *old(self);
                let started = OpenShiftSignIn { phase: Phase::Working, running: true, ..s };
                if s.busy() {
                    r is Nothing && *final(self) == s
                } else {
                    match s.method {
                        Method::Browser => r is Browser && *final(self) == started,
                        Method::Password => if text::trimmed(username@).len() == 0
                            || password@.len() == 0 {
                            r is Nothing && final(self).phase is Failed
                                && final(self).phase->Failed_0@
                                == "Enter a username and a password."@ && *final(self) == (
                            OpenShiftSignIn { phase: final(self).phase, ..s })
                        } else {
                            (match r {
                                Submit::Password { username: u, password: p } => u@
                                    == text::trimmed(username@) && p@ == password@,
                                _ => false,
                            }) && *final(self) == started
                        },
                        Method::Token => r is Token && r->Token_0@ == token@ && *final(self)
                            == started,
                    }
                }
            }),
    {
        if self.is_busy() {
            return Submit::Nothing;
        }
        match self.method {
            Method::Browser => {
                self.run();
                Submit::Browser
            },
            Method::Password => {
                let username: String = trim(username);
                if username.as_str().is_empty() || password.is_empty() {
                    self.phase = Phase::Failed("Enter a username and a password.".to_string());
                    return Submit::Nothing;
                }
                self.run();
                Submit::Password { username, password: password.to_string() }
            },
            Method::Token => {
                self.run();
                Submit::Token(token.to_string())
            },
        }
    }

    /// The browser sign-in waits for the user.
    pub fn waiting(&mut self, url: String, redirect_uri: String)
        ensures
            *final(self) == (OpenShiftSignIn {
                phase: Phase::Browser { url, redirect_uri },
                ..*old(self)
            }),
    {
        self.phase = Phase::Browser { url, redirect_uri };
    }

    /// The sign-in ended. Gives what is said if the user is signed in; the dialog closes and the
    /// cluster connects. Else the error is shown.
    pub fn finish(&mut self, result: Result<Option<String>, String>) -> (r: Option<String>)
        ensures
            match result {
                Ok(user) => text::text_of(r) == Some(
                    match user {
                        Some(u) => "Signed in to "@ + old(self).name@ + " as "@ + u@,
                        None => "Signed in to "@ + old(self).name@,
                    },
                ) && *final(self) == *old(self),
                Err(e) => r is None && *final(self) == (OpenShiftSignIn {
                    phase: Phase::Failed(e),
                    ..*old(self)
                }),
            },
    {
        match result {
            Ok(user) => match user {
                Some(u) => Some(cat4("Signed in to ", self.name.as_str(), " as ", u.as_str())),
                None => Some(cat("Signed in to ", self.name.as_str())),
            },
            Err(e) => {
                self.phase = Phase::Failed(e);
                None
            },
        }
    }

    /// The page that shows a token, once the OAuth server is known.
    pub fn token_page(&self) -> (r: Option<&str>)
        ensures
            match self.oauth {
                Some(Ok(server)) => r is Some && r->0@ == server.token_page@,
                _ => r is None,
            },
    {
        match &self.oauth {
            Some(Ok(server)) => Some(server.token_page.as_str()),
            _ => None,
        }
    }

    /// The cluster can't sign in through the browser.
    pub open spec fn no_browser(&self) -> bool {
        match self.oauth {
            Some(Ok(server)) => !server.browser,
            _ => false,
        }
    }

    /// The cluster can't sign in through the browser.
    pub fn browser_unsupported(&self) -> (r: bool)
        ensures
            r == self.no_browser(),
    {
        match &self.oauth {
            Some(Ok(server)) => !server.browser,
            _ => false,
        }
    }
}

// ----- What is shown -----

/// A method's tab.
#[derive(Clone, Copy, Debug, PartialEq, Eq, Structural)]
pub struct MethodTab {
    pub method: Method,
    pub selected: bool,
    pub available: bool,
}

/// What the dialog shows of a sign-in.
#[derive(Debug)]
pub struct OpenShiftDialog {
    pub title: String,
    pub oauth: String,
    /// The OAuth server isn't known.
    pub oauth_dim: bool,
    pub tabs: Vec<MethodTab>,
    pub status: Option<StatusBox>,
    pub note: &'static str,
    pub browser_note: Option<&'static str>,
    pub can_open_token_page: bool,
    /// The primary button's label, and whether it can be pressed.
    pub primary: Option<(&'static str, bool)>,
    pub footer: String,
}

/// The box with the state of a sign-in.
pub open spec fn status_of(s: OpenShiftSignIn) -> Option<StatusView> {
    match s.phase {
        Phase::Idle => None,
        Phase::Working => Some(
            StatusView {
                failed: false,
                title: match s.method {
                    Method::Browser => "Contacting the OAuth server…"@,
                    Method::Password => "Signing in…"@,
                    Method::Token => "Checking the token…"@,
                },
                subtitle: s.server@,
                reopen: None,
            },
        ),
        Phase::Browser { url, redirect_uri } => Some(
            StatusView {
                failed: false,
                title: "Waiting for your browser…"@,
                subtitle: "callback on "@ + redirect_uri@ + " · PKCE"@,
                reopen: Some(url@),
            },
        ),
        Phase::Failed(message) => Some(
            StatusView {
                failed: true,
                title: "Sign-in failed"@,
                subtitle: message@,
                reopen: None,
            },
        ),
    }
}

/// The label of the primary button and whether it can be pressed.
pub open spec fn primary_of(s: OpenShiftSignIn) -> Option<(Seq<char>, bool)> {
    match s.method {
        Method::Browser => if s.phase is Failed {
            Some(("Try again"@, true))
        } else {
            None
        },
        Method::Password => Some(("Sign in"@, !s.busy())),
        Method::Token => Some(("Use token"@, !s.busy())),
    }
}

pub open spec fn status_view(s: Option<StatusBox>) -> Option<StatusView> {
    match s {
        Some(s) => Some(s@),
        None => None,
    }
}

pub open spec fn primary_view(p: Option<(&'static str, bool)>) -> Option<(Seq<char>, bool)> {
    match p {
        Some((label, on)) => Some((label@, on)),
        None => None,
    }
}

/// The tab of a method.
pub open spec fn tab_of(s: OpenShiftSignIn, method: Method) -> MethodTab {
    MethodTab {
        method,
        selected: method == s.method,
        available: !(method == Method::Browser && s.no_browser()),
    }
}

/// What the dialog shows of a sign-in.
pub fn dialog(s: &OpenShiftSignIn) -> (r: OpenShiftDialog)
    ensures
        r.title@ == "Sign in to "@ + s.name@,
        (r.oauth@, r.oauth_dim) == match s.oauth {
            None => ("…"@, true),
            Some(Ok(server)) => (server.issuer@, false),
            Some(Err(e)) => (e@, true),
        },
        r.tabs@ == seq![
            tab_of(*s, Method::Browser),
            tab_of(*s, Method::Password),
            tab_of(*s, Method::Token),
        ],
        status_view(r.status) == status_of(*s),
        r.note@ == match s.method {
            Method::Browser => "Like oc login --web: any identity provider of the cluster. If the browser shows an error instead of a login page, the cluster doesn't allow it (older OpenShift): use a token."@,
            Method::Password => "Like oc login -u: for identity providers with passwords (kubeadmin, htpasswd, LDAP)."@,
            Method::Token => "Sign in on the token page, choose Display Token and paste the token or the whole oc login command."@,
        },
        match r.browser_note {
            Some(n) => s.method == Method::Token && s.no_browser() && n@
                == "This cluster can't sign in through the browser directly: it has no openshift-cli-client OAuth client (older OpenShift)."@,
            None => !(s.method == Method::Token && s.no_browser()),
        },
        r.can_open_token_page == match s.oauth {
            Some(Ok(_)) => true,
            _ => false,
        },
        primary_view(r.primary) == primary_of(*s),
        r.footer@ == "Tokens are stored in the "@ + s.store@
            + " · never in kubeconfig or settings"@,
{
    let (oauth, oauth_dim): (String, bool) = match &s.oauth {
        None => ("…".to_string(), true),
        Some(Ok(server)) => (server.issuer.clone(), false),
        Some(Err(e)) => (e.clone(), true),
    };
    let unsupported: bool = s.browser_unsupported();
    let busy: bool = s.is_busy();
    let status: Option<StatusBox> = match &s.phase {
        Phase::Idle => None,
        Phase::Working => Some(
            StatusBox {
                failed: false,
                title: match s.method {
                    Method::Browser => "Contacting the OAuth server…",
                    Method::Password => "Signing in…",
                    Method::Token => "Checking the token…",
                },
                subtitle: s.server.clone(),
                reopen: None,
            },
        ),
        Phase::Browser { url, redirect_uri } => Some(
            StatusBox {
                failed: false,
                title: "Waiting for your browser…",
                subtitle: cat3("callback on ", redirect_uri.as_str(), " · PKCE"),
                reopen: Some(url.clone()),
            },
        ),
        Phase::Failed(message) => Some(
            StatusBox {
                failed: true,
                title: "Sign-in failed",
                subtitle: message.clone(),
                reopen: None,
            },
        ),
    };
    let primary: Option<(&'static str, bool)> = match s.method {
        Method::Browser => match &s.phase {
            Phase::Failed(_) => Some(("Try again", true)),
            _ => None,
        },
        Method::Password => Some(("Sign in", !busy)),
        Method::Token => Some(("Use token", !busy)),
    };
    let tabs: Vec<MethodTab> = vec![
        MethodTab {
            method: Method::Browser,
            selected: s.method == Method::Browser,
            available: !unsupported,
        },
        MethodTab {
            method: Method::Password,
            selected: s.method == Method::Password,
            available: true,
        },
        MethodTab { method: Method::Token, selected: s.method == Method::Token, available: true },
    ];
    OpenShiftDialog {
        title: cat("Sign in to ", s.name.as_str()),
        oauth,
        oauth_dim,
        tabs,
        status,
        note: match s.method {
            Method::Browser => "Like oc login --web: any identity provider of the cluster. If the browser shows an error instead of a login page, the cluster doesn't allow it (older OpenShift): use a token.",
            Method::Password => "Like oc login -u: for identity providers with passwords (kubeadmin, htpasswd, LDAP).",
            Method::Token => "Sign in on the token page, choose Display Token and paste the token or the whole oc login command.",
        },
        browser_note: if s.method == Method::Token && unsupported {
            Some(
                "This cluster can't sign in through the browser directly: it has no openshift-cli-client OAuth client (older OpenShift).",
            )
        } else {
            None
        },
        can_open_token_page: match &s.oauth {
            Some(Ok(_)) => true,
            _ => false,
        },
        primary,
        footer: cat3(
            "Tokens are stored in the ",
            s.store.as_str(),
            " · never in kubeconfig or settings",
        ),
    }
}

} // verus!
