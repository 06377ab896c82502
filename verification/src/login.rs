use vstd::prelude::*;

use crate::auth::{credential_error, credential_error_message, is_login_report, login_report, TokenSource};
use crate::error::CliError;
use crate::json::Json;

verus! {

// ---------------------------------------------------------------------------
// Credentials for API commands
// ---------------------------------------------------------------------------

/// Where an API command's client gets its token.
#[derive(Debug)]
pub enum ClientSource {
    /// The token passed with `--token` / `ILEAP_TOKEN`.
    Token(String),
    /// The token cached for the given username.
    Cached(String),
    /// Authenticate with username and password.
    Credentials { username: String, password: String },
    /// Nothing to authenticate with.
    Missing(CliError),
}

/// Whether the token cache is consulted: only without a token flag, and only
/// for a known username (a cache entry belongs to one user).
pub open spec fn needs_cache_probe_spec(token: Option<&str>, username: Option<&str>) -> bool {
    token is None && username is Some
}

pub fn needs_cache_probe(token: Option<&str>, username: Option<&str>) -> (r: bool)
    ensures
        r == needs_cache_probe_spec(token, username),
{
    token.is_none() && username.is_some()
}

/// The credential chain: the token flag, then the token cached for the username,
/// then username and password; otherwise the missing-credential error.
/// `cached` is what the cache holds for `username` when it was consulted.
pub open spec fn client_source_spec(
    token: Option<&str>,
    username: Option<&str>,
    password: Option<&str>,
    cached: Option<Seq<char>>,
    source: ClientSource,
) -> bool {
    match token {
        Some(t) => source matches ClientSource::Token(s) && s@ == t@,
        None => {
            if username is Some && cached is Some {
                source matches ClientSource::Cached(s) && s@ == cached->0
            } else if username is Some && password is Some {
                source matches ClientSource::Credentials { username: u, password: p }
                    && u@ == username->0@ && p@ == password->0@
            } else {
                &&& source matches ClientSource::Missing(e)
                &&& e matches CliError::Auth(_)
                &&& e.spec_message() == credential_error_message(username is Some, password is Some)
            }
        },
    }
}

/// Chooses the client's credentials (see `client_source_spec`).
pub fn client_source(
    token: Option<&str>,
    username: Option<&str>,
    password: Option<&str>,
    cached: Option<String>,
) -> (source: ClientSource)
    ensures
        client_source_spec(
            token,
            username,
            password,
            match cached {
                Some(c) => Some(c@),
                None => None,
            },
            source,
        ),
{
    if let Some(t) = token {
        return ClientSource::Token(String::from_str(t));
    }
    if username.is_some() {
        if let Some(c) = cached {
            return ClientSource::Cached(c);
        }
    }
    match (username, password) {
        (Some(u), Some(p)) => ClientSource::Credentials {
            username: String::from_str(u),
            password: String::from_str(p),
        },
        (u, p) => ClientSource::Missing(credential_error(u, p)),
    }
}

/// The credential chain in order. A token flag always wins and the cache is
/// then not even consulted; without one, a cached token for the username wins
/// over username and password; these are used only when nothing is cached.
pub proof fn credential_chain_order(
    token: Option<&str>,
    username: Option<&str>,
    password: Option<&str>,
    cached: Option<Seq<char>>,
    source: ClientSource,
)
    requires
        client_source_spec(token, username, password, cached, source),
    ensures
        token is Some ==> !needs_cache_probe_spec(token, username) && (source matches ClientSource::Token(s)
            && s@ == token->0@),
        token is None && username is Some ==> needs_cache_probe_spec(token, username),
        token is None && username is Some && cached is Some ==> (source matches ClientSource::Cached(s)
            && s@ == cached->0),
        token is None && username is Some && password is Some && cached is None ==> (
        source matches ClientSource::Credentials { username: su, password: sp } && su@ == username->0@
            && sp@ == password->0@),
        (token is None && !(username is Some && password is Some) && !(username is Some && cached is Some)) ==> (
        source matches ClientSource::Missing(e) && e.spec_exit_code() == 4),
{
}

// ---------------------------------------------------------------------------
// `auth login`
// ---------------------------------------------------------------------------

/// The message when a token is given without a username and carries no subject.
pub open spec fn unkeyed_token_message() -> Seq<char> {
    "provide --username (or set ILEAP_USERNAME) to associate the cached token"@
}

/// Where `auth login` stands between two outside steps.
#[derive(Debug)]
pub enum LoginState {
    /// Waiting for the cache lookup of `user`, given or typed at the prompt.
    AwaitCache { user: String },
    /// Waiting for the username typed at the prompt.
    AwaitUsername,
    /// Waiting for the password of `user` typed at the prompt.
    AwaitPassword { user: String },
    /// Waiting for the token obtained for `user`.
    AwaitToken { user: String },
    /// Waiting for the token to be saved.
    AwaitSave { source: TokenSource },
    /// Finished.
    Done,
}

/// What the outside world reports to `auth login`.
#[derive(Debug)]
pub enum LoginEvent {
    CacheHit,
    CacheMiss,
    Username(String),
    Password(String),
    Token(String),
    Saved,
}

/// What `auth login` asks the outside world to do next.
#[derive(Debug)]
pub enum LoginAction {
    /// Look up the cached token of `user`.
    ProbeCache { user: String },
    /// Ask for a username on the terminal.
    PromptUsername,
    /// Ask for a password on the terminal.
    PromptPassword,
    /// Obtain a token with these credentials.
    Authenticate { user: String, password: String },
    /// Save `token` in the cache of `user`.
    SaveToken { user: String, token: String },
    /// Print the document; the command succeeded.
    Report(Json),
    /// The command failed.
    Fail(CliError),
}

/// Whether `event` is an answer to the step that `state` waits for.
pub open spec fn answers(state: LoginState, event: LoginEvent) -> bool {
    match state {
        LoginState::AwaitCache { .. } => event is CacheHit || event is CacheMiss,
        LoginState::AwaitUsername => event is Username,
        LoginState::AwaitPassword { .. } => event is Password,
        LoginState::AwaitToken { .. } => event is Token,
        LoginState::AwaitSave { .. } => event is Saved,
        LoginState::Done => false,
    }
}

/// `state` waits for the cache lookup of `u`.
pub open spec fn awaits_cache(state: LoginState, u: Seq<char>) -> bool {
    state matches LoginState::AwaitCache { user } && user@ == u
}

/// `state` waits for the password of `u`.
pub open spec fn awaits_password(state: LoginState, u: Seq<char>) -> bool {
    state matches LoginState::AwaitPassword { user } && user@ == u
}

/// `state` waits for the token obtained for `u`.
pub open spec fn awaits_token(state: LoginState, u: Seq<char>) -> bool {
    state matches LoginState::AwaitToken { user } && user@ == u
}

/// `a` asks for the cached token of `u`.
pub open spec fn asks_probe(a: LoginAction, u: Seq<char>) -> bool {
    a matches LoginAction::ProbeCache { user } && user@ == u
}

/// `a` asks to authenticate as `u` with password `p`.
pub open spec fn asks_authenticate(a: LoginAction, u: Seq<char>, p: Seq<char>) -> bool {
    a matches LoginAction::Authenticate { user, password } && user@ == u && password@ == p
}

/// `a` asks to save token `t` for `u`.
pub open spec fn asks_save(a: LoginAction, u: Seq<char>, t: Seq<char>) -> bool {
    a matches LoginAction::SaveToken { user, token } && user@ == u && token@ == t
}

/// `a` fails with an authentication error of message `m`.
pub open spec fn fails_auth(a: LoginAction, m: Seq<char>) -> bool {
    a matches LoginAction::Fail(e) && e matches CliError::Auth(_) && e.spec_message() == m
}

/// `a` prints the login document for `source`.
pub open spec fn reports(a: LoginAction, source: TokenSource) -> bool {
    a matches LoginAction::Report(j) && is_login_report(j, source)
}

/// The course of `auth login`: a token flag is cached as is (under the
/// username, or else under the token's own subject); otherwise a valid cached
/// token for the username is accepted; otherwise the credentials are used,
/// prompting on a terminal for what is missing.
pub struct Login {
    username: Option<String>,
    password: Option<String>,
    terminal: bool,
    state: LoginState,
}

/// How `auth login` goes on once no cached token is available for `username`:
/// with both credentials it authenticates; on a terminal it prompts only for
/// what is missing (the username first, then the password); otherwise it
/// fails with the missing-credential error.
pub open spec fn continues_without_cache(
    username: Option<Seq<char>>,
    password: Option<Seq<char>>,
    terminal: bool,
    a: LoginAction,
    next: LoginState,
) -> bool {
    match (username, password) {
        (Some(u), Some(p)) => asks_authenticate(a, u, p) && awaits_token(next, u),
        _ => if terminal {
            match username {
                Some(u) => a is PromptPassword && awaits_password(next, u),
                None => a is PromptUsername && next is AwaitUsername,
            }
        } else {
            fails_auth(a, credential_error_message(username is Some, password is Some)) && next is Done
        },
    }
}

impl Login {
    pub closed spec fn spec_state(&self) -> LoginState {
        self.state
    }

    pub closed spec fn spec_terminal(&self) -> bool {
        self.terminal
    }

    pub closed spec fn spec_username(&self) -> Option<Seq<char>> {
        match self.username {
            Some(u) => Some(u@),
            None => None,
        }
    }

    pub closed spec fn spec_password(&self) -> Option<Seq<char>> {
        match self.password {
            Some(p) => Some(p@),
            None => None,
        }
    }

    /// The user's terminal is asked for input only when it is a terminal.
    pub closed spec fn wf(&self) -> bool {
        &&& (self.state is AwaitUsername ==> self.terminal)
        &&& (self.state is AwaitPassword ==> self.terminal)
    }

    /// Continues once no cached token is available for `username` (the given
    /// one, or the one typed at the prompt): authenticate when both
    /// credentials are known, prompt on a terminal for what is missing, fail
    /// otherwise.
    fn without_cache(&mut self, username: Option<String>) -> (a: LoginAction)
        requires
            old(self).wf(),
        ensures
            final(self).wf(),
            final(self).spec_terminal() == old(self).spec_terminal(),
            final(self).spec_username() == old(self).spec_username(),
            final(self).spec_password() == old(self).spec_password(),
            continues_without_cache(
                match username {
                    Some(u) => Some(u@),
                    None => None,
                },
                old(self).spec_password(),
                old(self).spec_terminal(),
                a,
                final(self).spec_state(),
            ),
    {
        match (username, &self.password) {
            (Some(u), Some(p)) => {
                let password = p.clone();
                self.state = LoginState::AwaitToken { user: u.clone() };
                LoginAction::Authenticate { user: u, password }
            },
            (username, _) => {
                if self.terminal {
                    match username {
                        Some(u) => {
                            self.state = LoginState::AwaitPassword { user: u };
                            LoginAction::PromptPassword
                        },
                        None => {
                            self.state = LoginState::AwaitUsername;
                            LoginAction::PromptUsername
                        },
                    }
                } else {
                    let e = credential_error(
                        match &username {
                            Some(u) => Some(u.as_str()),
                            None => None,
                        },
                        match &self.password {
                            Some(p) => Some(p.as_str()),
                            None => None,
                        },
                    );
                    self.state = LoginState::Done;
                    LoginAction::Fail(e)
                }
            },
        }
    }

    /// Starts `auth login`. `token` is the token flag, `token_sub` the `sub`
    /// claim of that token, and `terminal` whether standard input is a terminal.
    pub fn start(
        token: Option<String>,
        token_sub: Option<String>,
        username: Option<String>,
        password: Option<String>,
        terminal: bool,
    ) -> (r: (Login, LoginAction))
        ensures
            r.0.wf(),
            r.0.spec_terminal() == terminal,
            r.0.spec_username() == (match username {
                Some(u) => Some(u@),
                None => None::<Seq<char>>,
            }),
            r.0.spec_password() == (match password {
                Some(p) => Some(p@),
                None => None::<Seq<char>>,
            }),
            match token {
                Some(t) => match (username, token_sub) {
                    (Some(u), _) => asks_save(r.1, u@, t@) && r.0.spec_state() == (
                    LoginState::AwaitSave { source: TokenSource::Flag }),
                    (None, Some(s)) => asks_save(r.1, s@, t@) && r.0.spec_state() == (
                    LoginState::AwaitSave { source: TokenSource::Flag }),
                    (None, None) => fails_auth(r.1, unkeyed_token_message())
                        && r.0.spec_state() is Done,
                },
                None => match username {
                    Some(u) => asks_probe(r.1, u@) && awaits_cache(r.0.spec_state(), u@),
                    None => continues_without_cache(
                        None,
                        r.0.spec_password(),
                        terminal,
                        r.1,
                        r.0.spec_state(),
                    ),
                },
            },
    {
        let mut login = Login { username, password, terminal, state: LoginState::Done };
        match token {
            Some(t) => {
                let user = match &login.username {
                    Some(u) => Some(u.clone()),
                    None => token_sub,
                };
                match user {
                    Some(user) => {
                        login.state = LoginState::AwaitSave { source: TokenSource::Flag };
                        (login, LoginAction::SaveToken { user, token: t })
                    },
                    None => {
                        let e = CliError::Auth(
                            String::from_str(
                                "provide --username (or set ILEAP_USERNAME) to associate the cached token",
                            ),
                        );
                        (login, LoginAction::Fail(e))
                    },
                }
            },
            None => {
                let probe = match &login.username {
                    Some(u) => Some(u.clone()),
                    None => None,
                };
                match probe {
                    Some(u) => {
                        login.state = LoginState::AwaitCache { user: u.clone() };
                        (login, LoginAction::ProbeCache { user: u })
                    },
                    None => {
                        let a = login.without_cache(None);
                        (login, a)
                    },
                }
            },
        }
    }

    /// Advances `auth login` with the answer to the step it waits for.
    pub fn step(&mut self, event: LoginEvent) -> (a: LoginAction)
        requires
            old(self).wf(),
            answers(old(self).spec_state(), event),
        ensures
            final(self).wf(),
            final(self).spec_terminal() == old(self).spec_terminal(),
            (a is PromptUsername || a is PromptPassword) ==> old(self).spec_terminal(),
            match (old(self).spec_state(), event) {
                (LoginState::AwaitCache { .. }, LoginEvent::CacheHit) => reports(a, TokenSource::Cache)
                    && final(self).spec_state() is Done,
                (LoginState::AwaitCache { user }, LoginEvent::CacheMiss) => continues_without_cache(
                    Some(user@),
                    old(self).spec_password(),
                    old(self).spec_terminal(),
                    a,
                    final(self).spec_state(),
                ),
                (LoginState::AwaitUsername, LoginEvent::Username(u)) => asks_probe(a, u@) && awaits_cache(
                    final(self).spec_state(),
                    u@,
                ),
                (LoginState::AwaitPassword { user }, LoginEvent::Password(p)) => asks_authenticate(
                    a,
                    user@,
                    p@,
                ) && awaits_token(final(self).spec_state(), user@),
                (LoginState::AwaitToken { user }, LoginEvent::Token(t)) => asks_save(a, user@, t@)
                    && final(self).spec_state() == (LoginState::AwaitSave {
                    source: TokenSource::Credentials,
                }),
                (LoginState::AwaitSave { source }, LoginEvent::Saved) => reports(a, source)
                    && final(self).spec_state() is Done,
                _ => false,
            },
    {
        let mut state = LoginState::Done;
        std::mem::swap(&mut state, &mut self.state);
        match (state, event) {
            (LoginState::AwaitCache { .. }, LoginEvent::CacheHit) => {
                LoginAction::Report(login_report(TokenSource::Cache))
            },
            (LoginState::AwaitCache { user }, LoginEvent::CacheMiss) => {
                self.without_cache(Some(user))
            },
            (LoginState::AwaitUsername, LoginEvent::Username(u)) => {
                self.state = LoginState::AwaitCache { user: u.clone() };
                LoginAction::ProbeCache { user: u }
            },
            (LoginState::AwaitPassword { user }, LoginEvent::Password(p)) => {
                self.state = LoginState::AwaitToken { user: user.clone() };
                LoginAction::Authenticate { user, password: p }
            },
            (LoginState::AwaitToken { user }, LoginEvent::Token(t)) => {
                self.state = LoginState::AwaitSave { source: TokenSource::Credentials };
                LoginAction::SaveToken { user, token: t }
            },
            (LoginState::AwaitSave { source }, LoginEvent::Saved) => {
                LoginAction::Report(login_report(source))
            },
            (_, _) => {
                proof {
                    assert(false);
                }
                LoginAction::Fail(CliError::Other(String::new()))
            },
        }
    }
}

} // verus!
