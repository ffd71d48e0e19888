//! Declared-provider consent: the config names a provider this machine
//! doesn't have, and nothing is downloaded or run before the user says
//! so. `y` accepts the verified install, `n`/Esc declines into the
//! built-in backend; a provider that fails to start gets a repair
//! prompt instead. The popup's text is built here, styled by the view.
use crate::action::{Action, DeclarationState};
use crate::keys::{Key, KeyCode};
use crate::provider::{Declaration, HealthIssue};
use crate::text::push_str;
use vstd::prelude::*;

verus! {

/// What the popup is asking about: install a missing declared
/// provider, or repair one that fails to start.
pub enum ConsentKind {
    Install(Declaration),
    Health(HealthIssue),
}

pub struct ConsentPopup {
    kind: ConsentKind,
    /// `None` = asking; `Installing` = worker running; `Failed` =
    /// refused, Esc closes.
    state: Option<DeclarationState>,
}

/// The pins line of a declaration: its tag and the sha256 marker,
/// joined by ` · `.
pub open spec fn pins_text(d: Declaration) -> Seq<char> {
    match (d.tag, d.sha) {
        (Some(t), Some(_)) => "tag "@ + t@ + " · sha256"@,
        (Some(t), None) => "tag "@ + t@,
        (None, Some(_)) => "sha256"@,
        (None, None) => seq![],
    }
}

/// The install prompt's lines.
pub open spec fn spec_install_lines(d: Declaration) -> Seq<Seq<char>> {
    let head = seq![
        "config declares "@ + d.name@ + " — not installed on this machine"@,
        "source  "@ + d.repo@,
    ];
    let pinned = if d.tag is Some || d.sha is Some {
        head.push("pins    "@ + pins_text(d))
    } else {
        head
    };
    pinned + seq![
        seq![],
        "you are trusting "@ + d.repo@ + " — the tarball is sha256-verified"@ + (if d.sha is Some {
            " against your config's pin and its sidecar"@
        } else {
            " against its release sidecar"@
        }) + " before anything runs"@,
        "y install  ·  n browse github instead"@,
    ]
}

/// The health prompt's choices: retry only when it could help.
pub open spec fn health_choices(retryable: bool) -> Seq<char> {
    if retryable {
        "r retry once  ·  g browse github  ·  e edit config"@
    } else {
        "g browse github  ·  e edit config"@
    }
}

/// The health prompt's lines.
pub open spec fn spec_health_lines(h: HealthIssue) -> Seq<Seq<char>> {
    seq![
        h.name@ + " failed to start"@,
        "error   "@ + h.error@,
        seq![],
        health_choices(h.retryable),
    ]
}

/// The lines the worker state adds.
pub open spec fn state_lines(s: Option<DeclarationState>) -> Seq<Seq<char>> {
    match s {
        None => seq![],
        Some(DeclarationState::Installing) => seq!["installing — verified download running…"@],
        Some(DeclarationState::Failed(e)) => seq![
            "failed: "@ + e@,
            "esc — browse github (the declaration stays in your config)"@,
        ],
    }
}

fn cat2(a: &str, b: &str) -> (r: String)
    ensures
        r@ == a@ + b@,
{
    let mut r = a.to_owned();
    push_str(&mut r, b);
    r
}

fn cat3(a: &str, b: &str, c: &str) -> (r: String)
    ensures
        r@ == a@ + b@ + c@,
{
    let mut r = cat2(a, b);
    push_str(&mut r, c);
    r
}

pub open spec fn strings_view(v: Seq<String>) -> Seq<Seq<char>> {
    v.map_values(|s: String| s@)
}

/// The install prompt's lines.
pub fn install_lines(d: &Declaration) -> (r: Vec<String>)
    ensures
        strings_view(r@) == spec_install_lines(*d),
{
    let mut lines: Vec<String> = Vec::new();
    lines.push(cat3("config declares ", d.name.as_str(), " — not installed on this machine"));
    lines.push(cat2("source  ", d.repo.as_str()));
    if d.tag.is_some() || d.sha.is_some() {
        let mut pins = String::new();
        if let Some(t) = &d.tag {
            pins = cat2("tag ", t.as_str());
            if d.sha.is_some() {
                push_str(&mut pins, " · sha256");
            }
        } else {
            pins = "sha256".to_owned();
        }
        assert(pins@ == pins_text(*d));
        lines.push(cat2("pins    ", pins.as_str()));
    }
    lines.push(String::new());
    let mut trust = cat3("you are trusting ", d.repo.as_str(), " — the tarball is sha256-verified");
    if d.sha.is_some() {
        push_str(&mut trust, " against your config's pin and its sidecar");
    } else {
        push_str(&mut trust, " against its release sidecar");
    }
    push_str(&mut trust, " before anything runs");
    lines.push(trust);
    lines.push("y install  ·  n browse github instead".to_owned());
    assert(strings_view(lines@) =~= spec_install_lines(*d));
    lines
}

/// The health prompt's lines.
pub fn health_lines(h: &HealthIssue) -> (r: Vec<String>)
    ensures
        strings_view(r@) == spec_health_lines(*h),
{
    let choices = if h.retryable {
        "r retry once  ·  g browse github  ·  e edit config"
    } else {
        "g browse github  ·  e edit config"
    };
    let mut lines: Vec<String> = Vec::new();
    lines.push(cat2(h.name.as_str(), " failed to start"));
    lines.push(cat2("error   ", h.error.as_str()));
    lines.push(String::new());
    lines.push(choices.to_owned());
    assert(strings_view(lines@) =~= spec_health_lines(*h));
    lines
}

impl ConsentPopup {
    pub closed spec fn kind_spec(&self) -> ConsentKind {
        self.kind
    }

    pub closed spec fn state_spec(&self) -> Option<DeclarationState> {
        self.state
    }

    /// Ask about installing the declared provider `decl`.
    pub fn new(decl: Declaration) -> (r: Self)
        ensures
            r.kind_spec() == ConsentKind::Install(decl),
            r.state_spec() is None,
    {
        ConsentPopup { kind: ConsentKind::Install(decl), state: None }
    }

    /// Ask about a provider that won't start.
    pub fn health(issue: HealthIssue) -> (r: Self)
        ensures
            r.kind_spec() == ConsentKind::Health(issue),
            r.state_spec() is None,
    {
        ConsentPopup { kind: ConsentKind::Health(issue), state: None }
    }

    /// The declaration an install prompt asks about (a health prompt
    /// has none).
    pub fn declaration(&self) -> (r: &Declaration)
        requires
            self.kind_spec() is Install,
        ensures
            self.kind_spec() == ConsentKind::Install(*r),
    {
        match &self.kind {
            ConsentKind::Install(d) => d,
            ConsentKind::Health(_) => {
                proof {
                    assert(false);
                }
                unreached()
            },
        }
    }

    /// The failing provider of a health prompt.
    pub fn health_issue(&self) -> (r: Option<&HealthIssue>)
        ensures
            match self.kind_spec() {
                ConsentKind::Health(h) => r == Some(&h),
                ConsentKind::Install(_) => r is None,
            },
    {
        match &self.kind {
            ConsentKind::Health(h) => Some(h),
            ConsentKind::Install(_) => None,
        }
    }

    /// The worker's state landed.
    pub fn set_state(&mut self, state: DeclarationState)
        ensures
            final(self).kind_spec() == old(self).kind_spec(),
            final(self).state_spec() == Some(state),
    {
        self.state = Some(state);
    }

    /// The popup's title.
    pub fn title(&self) -> (r: &'static str)
        ensures
            self.kind_spec() is Health ==> r@ == " provider health "@,
            self.kind_spec() is Install ==> r@ == " install provider? "@,
    {
        match &self.kind {
            ConsentKind::Health(_) => " provider health ",
            ConsentKind::Install(_) => " install provider? ",
        }
    }

    /// The popup's text, line by line: the prompt, then the worker's
    /// state.
    pub fn lines(&self) -> (r: Vec<String>)
        ensures
            strings_view(r@) == match self.kind_spec() {
                ConsentKind::Health(h) => spec_health_lines(h),
                ConsentKind::Install(d) => spec_install_lines(d),
            } + state_lines(self.state_spec()),
    {
        let mut lines = match &self.kind {
            ConsentKind::Health(h) => health_lines(h),
            ConsentKind::Install(d) => install_lines(d),
        };
        let ghost base = strings_view(lines@);
        match &self.state {
            None => {},
            Some(DeclarationState::Installing) => {
                lines.push("installing — verified download running…".to_owned());
            },
            Some(DeclarationState::Failed(e)) => {
                lines.push(cat2("failed: ", e.as_str()));
                lines.push("esc — browse github (the declaration stays in your config)".to_owned());
            },
        }
        assert(strings_view(lines@) =~= base + state_lines(self.state_spec()));
        lines
    }

    /// An install prompt takes `y` (only while asking) and `n`/Esc
    /// (always); a health prompt takes `r` (only when a retry could
    /// help), `g`/Esc and `e`. Every other key does nothing.
    pub fn handle_key(&mut self, key: Key) -> (r: Action)
        ensures
            final(self).kind_spec() == old(self).kind_spec(),
            final(self).state_spec() == old(self).state_spec(),
            r == match old(self).kind_spec() {
                ConsentKind::Install(_) => if key.code == KeyCode::Char('y') && old(
                    self,
                ).state_spec() is None {
                    Action::DeclarationAccept
                } else if key.code == KeyCode::Char('n') || key.code == KeyCode::Esc {
                    Action::DeclarationDecline
                } else {
                    Action::Noop
                },
                ConsentKind::Health(h) => if key.code == KeyCode::Char('r') && h.retryable {
                    Action::DeclarationRetry
                } else if key.code == KeyCode::Char('g') || key.code == KeyCode::Esc {
                    Action::DeclarationDecline
                } else if key.code == KeyCode::Char('e') {
                    Action::DeclarationEditConfig
                } else {
                    Action::Noop
                },
            },
    {
        match &self.kind {
            ConsentKind::Install(_) => match key.code {
                KeyCode::Char('y') if self.state.is_none() => Action::DeclarationAccept,
                KeyCode::Char('n') | KeyCode::Esc => Action::DeclarationDecline,
                _ => Action::Noop,
            },
            ConsentKind::Health(h) => match key.code {
                KeyCode::Char('r') if h.retryable => Action::DeclarationRetry,
                KeyCode::Char('g') | KeyCode::Esc => Action::DeclarationDecline,
                KeyCode::Char('e') => Action::DeclarationEditConfig,
                _ => Action::Noop,
            },
        }
    }
}

} // verus!
