//! The OIDC sign-in: issuer, client id and scopes, a "waiting for your browser" state, a device
//! code, and what the buttons do.

use crate::outside;
use crate::text::{self, cat, cat3};
use vstd::prelude::*;

verus! {

/// How the user signs in.
#[derive(Clone, Copy, Debug, PartialEq, Eq, Structural)]
pub enum SignInMethod {
    Browser,
    DeviceCode,
}

/// Where a sign-in is.
#[derive(Debug)]
pub enum Phase {
    Starting,
    Browser { url: String, redirect_uri: String },
    DeviceCode { user_code: String, verification_uri: String, complete: Option<String> },
    Failed(String),
}

/// What the identity provider said.
#[derive(Debug)]
pub enum SignInEvent {
    WaitingForBrowser { url: String, redirect_uri: String },
    DeviceCode { user_code: String, verification_uri: String, complete: Option<String> },
}

/// A sign-in.
#[derive(Debug)]
pub struct SignIn {
    /// The cluster's name.
    pub name: String,
    pub issuer: String,
    pub client_id: String,
    pub scopes: Vec<String>,
    /// Where tokens are stored, in words.
    pub store: String,
    pub method: SignInMethod,
    pub phase: Phase,
}

/// What opens for a context that needs a sign-in.
#[derive(Clone, Copy, Debug, PartialEq, Eq, Structural)]
pub enum Opens {
    /// The OpenShift sign-in.
    OpenShift,
    /// A connection: the sign-in opens if the token is rejected.
    Connection,
    /// The OIDC sign-in.
    Oidc,
    /// "This context doesn't use OIDC."
    NothingToDo,
}

/// What opens for a context: `openshift` says that it signs in with OpenShift, `tried` that it
/// was tried, `oidc` that it signs in with OIDC.
pub fn opens_for(openshift: bool, tried: bool, oidc: bool) -> (r: Opens)
    ensures
        r == if openshift {
            if tried {
                Opens::OpenShift
            } else {
                Opens::Connection
            }
        } else if oidc {
            Opens::Oidc
        } else {
            Opens::NothingToDo
        },
{
    if openshift {
        if tried {
            Opens::OpenShift
        } else {
            Opens::Connection
        }
    } else if oidc {
        Opens::Oidc
    } else {
        Opens::NothingToDo
    }
}

/// The method that a sign-in starts with.
pub fn first_method(prefer_device_code: bool) -> (r: SignInMethod)
    ensures
        r == if prefer_device_code {
            SignInMethod::DeviceCode
        } else {
            SignInMethod::Browser
        },
{
    if prefer_device_code {
        SignInMethod::DeviceCode
    } else {
        SignInMethod::Browser
    }
}

impl SignIn {
    /// Starts (or restarts) the sign-in. `still_there`: the context is. True if the
    /// provider is to be asked.
    pub fn start(&mut self, method: SignInMethod, still_there: bool) -> (r: bool)
        ensures
            r == still_there,
            if still_there {
                *final(self) == (SignIn { method, phase: Phase::Starting, ..*old(self) })
            } else {
                final(self).phase is Failed && final(self).phase->Failed_0@
                    == "The context no longer exists."@ && *final(self) == (SignIn {
                    phase: final(self).phase,
                    ..*old(self)
                })
            },
    {
        if !still_there {
            self.phase = Phase::Failed("The context no longer exists.".to_string());
            return false;
        }
        self.method = method;
        self.phase = Phase::Starting;
        true
    }

    /// The provider said something. Gives the page to open, if there is one.
    pub fn on_event(&mut self, event: SignInEvent) -> (r: Option<String>)
        ensures
            match event {
                SignInEvent::WaitingForBrowser { url, redirect_uri } => r is None && *final(self)
                    == (SignIn { phase: Phase::Browser { url, redirect_uri }, ..*old(self) }),
                SignInEvent::DeviceCode { user_code, verification_uri, complete } => text::text_of(
                    r,
                ) == text::text_of(complete) && *final(self) == (SignIn {
                    phase: Phase::DeviceCode { user_code, verification_uri, complete },
                    ..*old(self)
                }),
            },
    {
        match event {
            SignInEvent::WaitingForBrowser { url, redirect_uri } => {
                self.phase = Phase::Browser { url, redirect_uri };
                None
            },
            SignInEvent::DeviceCode { user_code, verification_uri, complete } => {
                let page: Option<String> = match &complete {
                    Some(url) => Some(url.clone()),
                    None => None,
                };
                self.phase = Phase::DeviceCode { user_code, verification_uri, complete };
                page
            },
        }
    }

    /// The sign-in ended. Gives what is said if the user is signed in; the dialog closes and the
    /// cluster connects. Else the error is shown.
    pub fn finish(&mut self, result: Result<(), String>) -> (r: Option<String>)
        ensures
            match result {
                Ok(()) => text::text_of(r) == Some("Signed in to "@ + old(self).name@)
                    && *final(self) == *old(self),
                Err(e) => r is None && *final(self) == (SignIn {
                    phase: Phase::Failed(e),
                    ..*old(self)
                }),
            },
    {
        match result {
            Ok(()) => Some(cat("Signed in to ", self.name.as_str())),
            Err(e) => {
                self.phase = Phase::Failed(e);
                None
            },
        }
    }
}

// ----- What is shown -----

/// The box with the state of a sign-in.
#[derive(Debug)]
pub struct StatusBox {
    pub failed: bool,
    pub title: &'static str,
    pub subtitle: String,
    /// "Reopen browser" opens this page.
    pub reopen: Option<String>,
}

/// A box as a mathematical value.
pub struct StatusView {
    pub failed: bool,
    pub title: Seq<char>,
    pub subtitle: Seq<char>,
    pub reopen: Option<Seq<char>>,
}

impl View for StatusBox {
    type V = StatusView;

    open spec fn view(&self) -> StatusView {
        StatusView {
            failed: self.failed,
            title: self.title@,
            subtitle: self.subtitle@,
            reopen: text::text_of(self.reopen),
        }
    }
}

/// The box with the state of a sign-in.
pub open spec fn status_of(phase: Phase, issuer: Seq<char>) -> StatusView {
    match phase {
        Phase::Starting => StatusView {
            failed: false,
            title: "Contacting the identity provider…"@,
            subtitle: issuer,
            reopen: None,
        },
        Phase::Browser { url, redirect_uri } => StatusView {
            failed: false,
            title: "Waiting for your browser…"@,
            subtitle: "callback on "@ + redirect_uri@ + " · PKCE"@,
            reopen: Some(url@),
        },
        Phase::DeviceCode { user_code: _, verification_uri, complete: _ } => StatusView {
            failed: false,
            title: "Waiting for the device code…"@,
            subtitle: "enter the code at "@ + verification_uri@,
            reopen: None,
        },
        Phase::Failed(message) => StatusView {
            failed: true,
            title: "Sign-in failed"@,
            subtitle: message@,
            reopen: None,
        },
    }
}

/// A device code with the page to enter it at.
#[derive(Debug)]
pub struct DeviceCode {
    pub code: String,
    /// What the link opens.
    pub link: String,
    /// What the link says: the page's host and path.
    pub page: String,
}

/// A URL's host and path, or the text itself if it isn't a URL.
pub open spec fn page_of(
    uri: Seq<char>,
    parts: Result<(Seq<char>, Option<Seq<char>>, Option<u16>, Seq<char>), Seq<char>>,
) -> Seq<char> {
    match parts {
        Ok((_, host, _, path)) => (match host {
            Some(h) => h,
            None => seq![],
        }) + path,
        Err(_) => uri,
    }
}

/// A URL's host and path, or the text itself if it isn't a URL. `parts` are the URL's.
pub fn page_text(uri: &str, parts: &Result<(String, Option<String>, Option<u16>, String), String>) -> (r:
    String)
    ensures
        r@ == page_of(uri@, parts_view(*parts)),
{
    match parts {
        Ok((_, host, _, path)) => match host {
            Some(h) => cat(h.as_str(), path.as_str()),
            None => {
                assert(Seq::<char>::empty() + path@ =~= path@);
                path.clone()
            },
        },
        Err(_) => uri.to_string(),
    }
}

/// A URL's parts as mathematical values.
pub open spec fn parts_view(parts: Result<(String, Option<String>, Option<u16>, String), String>) -> Result<
    (Seq<char>, Option<Seq<char>>, Option<u16>, Seq<char>),
    Seq<char>,
> {
    match parts {
        Ok((scheme, host, port, path)) => Ok((scheme@, text::text_of(host), port, path@)),
        Err(e) => Err(e@),
    }
}

/// What the dialog shows of a sign-in.
#[derive(Debug)]
pub struct SignInDialog {
    pub title: String,
    pub scopes: String,
    pub status: StatusBox,
    pub hint: Option<&'static str>,
    pub device: Option<DeviceCode>,
    pub primary: &'static str,
    pub footer: String,
}

/// What the dialog shows of a sign-in.
pub fn dialog(s: &SignIn) -> (r: SignInDialog)
    ensures
        r.title@ == "Sign in to "@ + s.name@,
        r.scopes@ == text::joined(text::texts(s.scopes@), " "@),
        r.status@ == status_of(s.phase, s.issuer@),
        match r.hint {
            Some(h) => s.method == SignInMethod::Browser && h@
                == "No browser on this machine? Use a device code instead."@,
            None => s.method != SignInMethod::Browser,
        },
        match s.phase {
            Phase::DeviceCode { user_code, verification_uri, complete } => match r.device {
                Some(d) => d.code@ == user_code@ && d.link@ == (match complete {
                    Some(url) => url@,
                    None => verification_uri@,
                }) && d.page@ == page_of(
                    verification_uri@,
                    outside::url_parts(verification_uri@),
                ),
                None => false,
            },
            _ => r.device is None,
        },
        r.primary@ == if s.phase is Failed {
            "Try again"@
        } else if s.method == SignInMethod::Browser {
            "Use device code"@
        } else {
            "Use browser"@
        },
        r.footer@ == "Tokens are stored in the "@ + s.store@
            + " · never in kubeconfig or settings"@,
{
    let status: StatusBox = match &s.phase {
        Phase::Starting => StatusBox {
            failed: false,
            title: "Contacting the identity provider…",
            subtitle: s.issuer.clone(),
            reopen: None,
        },
        Phase::Browser { url, redirect_uri } => StatusBox {
            failed: false,
            title: "Waiting for your browser…",
            subtitle: cat3("callback on ", redirect_uri.as_str(), " · PKCE"),
            reopen: Some(url.clone()),
        },
        Phase::DeviceCode { user_code: _, verification_uri, complete: _ } => StatusBox {
            failed: false,
            title: "Waiting for the device code…",
            subtitle: cat("enter the code at ", verification_uri.as_str()),
            reopen: None,
        },
        Phase::Failed(message) => StatusBox {
            failed: true,
            title: "Sign-in failed",
            subtitle: message.clone(),
            reopen: None,
        },
    };
    let device: Option<DeviceCode> = match &s.phase {
        Phase::DeviceCode { user_code, verification_uri, complete } => {
            let parts = outside::parse_url(verification_uri.as_str());
            Some(
                DeviceCode {
                    code: user_code.clone(),
                    link: match complete {
                        Some(url) => url.clone(),
                        None => verification_uri.clone(),
                    },
                    page: page_text(verification_uri.as_str(), &parts),
                },
            )
        },
        _ => None,
    };
    let failed: bool = status.failed;
    SignInDialog {
        title: cat("Sign in to ", s.name.as_str()),
        scopes: text::join(&s.scopes, " "),
        status,
        hint: if s.method == SignInMethod::Browser {
            Some("No browser on this machine? Use a device code instead.")
        } else {
            None
        },
        device,
        primary: if failed {
            "Try again"
        } else if s.method == SignInMethod::Browser {
            "Use device code"
        } else {
            "Use browser"
        },
        footer: cat3(
            "Tokens are stored in the ",
            s.store.as_str(),
            " · never in kubeconfig or settings",
        ),
    }
}

/// The method that the primary button starts: again the same one after a failure, else the
/// other one.
pub fn primary_method(s: &SignIn) -> (r: SignInMethod)
    ensures
        r == if s.phase is Failed {
            s.method
        } else if s.method == SignInMethod::Browser {
            SignInMethod::DeviceCode
        } else {
            SignInMethod::Browser
        },
{
    match &s.phase {
        Phase::Failed(_) => s.method,
        _ => if s.method == SignInMethod::Browser {
            SignInMethod::DeviceCode
        } else {
            SignInMethod::Browser
        },
    }
}

} // verus!
