//! Connecting to whichever player the settings name.
//!
//! Spotify resumes from its cached session and falls back to browser authorization; YouTube Music
//! has nothing to authorize, so it only has to reach the system media session.

use vstd::prelude::*;

use crate::codec::all_url_safe;
use crate::http::{HttpRequest, Reply, ReplyView, RequestView};
use crate::player::{label_of, PlayerKind};
use crate::session::{status, Session, SessionView, StatusEvent, StatusView};
use crate::settings::{plausible_id, validate_client_id, Settings};
use crate::spotify::{
    authorization_page, challenge_for, code_form, may_control, refresh_form, spotify_error_text,
    token_answers, token_asks, unsaved_warning, with_tokens, Resume, Spotify, SpotifyError,
    SpotifyErrorView, SpotifyView,
};
use crate::json::{text_in, within};
use crate::text::{concat3, same, trim};

verus! {

/// How a connection is made.
#[derive(Debug)]
pub enum Connect {
    /// One is live already.
    Already,
    Ytmusic,
    /// With this Client ID.
    Spotify(String),
    /// The Client ID is missing or cannot be one: tell the interface why.
    NeedsClientId(StatusEvent),
}

/// What the interface is told while a connection is made.
pub open spec fn connecting_to(player: PlayerKind) -> StatusView {
    StatusView {
        state: "connecting"@,
        message: "Connecting to "@ + label_of(player) + "…"@,
        notice: ""@,
    }
}

/// What the interface is told while a connection is made.
pub fn connecting_status(player: PlayerKind) -> (event: StatusEvent)
    ensures
        event@ == connecting_to(player),
{
    let message = concat3("Connecting to ", player.label(), "…");
    status("connecting", message.as_str(), "")
}

/// How to connect to whichever source the settings name.
pub fn plan_connection(session: &Session, settings: &Settings) -> (connect: Connect)
    ensures
        match connect {
            Connect::Already => session@.player is Some,
            Connect::Ytmusic => session@.player is None && settings@.player == PlayerKind::Ytmusic,
            Connect::Spotify(id) => session@.player is None && settings@.player
                == PlayerKind::Spotify && plausible_id(trim(settings@.client_id)) && id@ == trim(
                settings@.client_id,
            ),
            Connect::NeedsClientId(event) => session@.player is None && settings@.player
                == PlayerKind::Spotify && !plausible_id(trim(settings@.client_id)) && event@ == (
            StatusView {
                state: "needs-client-id"@,
                message: "Client ID configuration needed"@,
                notice: if trim(settings@.client_id).len() == 0 {
                    "Enter your Spotify Client ID in Settings."@
                } else {
                    "The Client ID should be letters and digits only. Use the Client ID, not the client secret."@
                },
            }),
        },
{
    if session.player.is_some() {
        return Connect::Already;
    }
    match settings.player {
        PlayerKind::Ytmusic => Connect::Ytmusic,
        PlayerKind::Spotify => match validate_client_id(settings.client_id.as_str()) {
            Ok(id) => Connect::Spotify(id),
            Err(error) => Connect::NeedsClientId(
                status("needs-client-id", "Client ID configuration needed", error.as_str()),
            ),
        },
    }
}

/// The notice after a sign-in. A sign-in that cannot be cached and a cache that cannot be written
/// are both "your work will not survive a restart"; they are said together.
pub open spec fn notice_for(cache_warning: Seq<char>, storage_warning: Option<Seq<char>>) -> Seq<
    char,
> {
    match storage_warning {
        None => cache_warning,
        Some(warning) => if cache_warning.len() == 0 {
            warning
        } else {
            cache_warning + " "@ + warning
        },
    }
}

/// The notice after a sign-in.
pub fn connection_notice(cache_warning: &str, storage_warning: Option<&str>) -> (notice: String)
    ensures
        notice@ == notice_for(
            cache_warning@,
            match storage_warning {
                Some(warning) => Some(warning@),
                None => None,
            },
        ),
{
    match storage_warning {
        None => cache_warning.to_owned(),
        Some(warning) => if cache_warning.is_empty() {
            warning.to_owned()
        } else {
            concat3(cache_warning, " ", warning)
        },
    }
}

/// Whether the Client ID is still the one that was signed in with.
pub fn check_client_id(settings: &Settings, client_id: &str) -> (checked: Result<(), String>)
    ensures
        match checked {
            Ok(()) => settings@.client_id == client_id@,
            Err(error) => settings@.client_id != client_id@ && error@
                == "Client ID changed during authorization. Connect again."@,
        },
{
    if same(settings.client_id.as_str(), client_id) {
        Ok(())
    } else {
        Err("Client ID changed during authorization. Connect again.".to_owned())
    }
}

/// Whether YouTube Music is still wanted: the reader may have switched back to Spotify while
/// Windows was answering.
pub fn check_ytmusic(settings: &Settings) -> (checked: Result<(), String>)
    ensures
        match checked {
            Ok(()) => settings@.player == PlayerKind::Ytmusic,
            Err(error) => settings@.player != PlayerKind::Ytmusic && error@
                == "The player changed while connecting. Connect again."@,
        },
{
    match settings.player {
        PlayerKind::Ytmusic => Ok(()),
        PlayerKind::Spotify => Err(
            "The player changed while connecting. Connect again.".to_owned(),
        ),
    }
}

/// What the interface is told after a connection was made.
pub fn connected_status(notice: &str) -> (event: StatusEvent)
    ensures
        event@ == (StatusView {
            state: "connected"@,
            message: "Connected"@,
            notice: notice@,
        }),
{
    status("connected", "Connected", notice)
}

/// What the interface is told while the reader authorizes the app.
pub fn authorizing_status() -> (event: StatusEvent)
    ensures
        event@ == (StatusView {
            state: "authorizing"@,
            message: "Waiting for Spotify authorization in your browser…"@,
            notice: ""@,
        }),
{
    status("authorizing", "Waiting for Spotify authorization in your browser…", "")
}

/// What the interface is told where no connection could be made.
pub fn failed_status(error: &str) -> (event: StatusEvent)
    ensures
        event@ == (StatusView {
            state: "error"@,
            message: "Connection failed"@,
            notice: error@,
        }),
{
    status("error", "Connection failed", error)
}

// --------------------------------------------------------------------------- signing in

/// What a sign-in waits for.
#[derive(Debug)]
pub enum Stage {
    /// The refresh token that is stored.
    Token,
    /// The reply to the request that trades it for new tokens.
    Refresh,
    /// Whether a refresh token could be stored, and whether the browser comes after that.
    Storing { needs_browser: bool },
    /// The page on which the reader authorizes the app.
    Authorize,
    /// Whether the browser opened that page.
    Browser { verifier: String, state: String },
    /// What the browser brings back.
    Callback { verifier: String },
    /// The reply to the request that trades the code for tokens.
    Tokens,
    Over,
}

/// What a [`Stage`] is.
pub ghost enum StageView {
    Token,
    Refresh,
    Storing { needs_browser: bool },
    Authorize,
    Browser { verifier: Seq<char>, state: Seq<char> },
    Callback { verifier: Seq<char> },
    Tokens,
    Over,
}

impl View for Stage {
    type V = StageView;

    open spec fn view(&self) -> StageView {
        match *self {
            Stage::Token => StageView::Token,
            Stage::Refresh => StageView::Refresh,
            Stage::Storing { needs_browser } => StageView::Storing { needs_browser },
            Stage::Authorize => StageView::Authorize,
            Stage::Browser { verifier, state } => StageView::Browser {
                verifier: verifier@,
                state: state@,
            },
            Stage::Callback { verifier } => StageView::Callback { verifier: verifier@ },
            Stage::Tokens => StageView::Tokens,
            Stage::Over => StageView::Over,
        }
    }
}

/// A sign-in that is under way.
#[derive(Debug)]
pub struct SignIn {
    pub account: Spotify,
    pub stage: Stage,
}

/// What a [`SignIn`] says.
pub ghost struct SignInView {
    pub account: SpotifyView,
    pub stage: StageView,
}

impl View for SignIn {
    type V = SignInView;

    open spec fn view(&self) -> SignInView {
        SignInView { account: self.account@, stage: self.stage@ }
    }
}

/// Something that happened during a sign-in.
#[derive(Debug)]
pub enum Event {
    /// The stored refresh token was read, where there is one.
    Token(Option<String>),
    /// A request was answered.
    Reply(Reply),
    /// A refresh token was stored, or could not be.
    Stored(bool),
    /// The browser was opened, or could not be.
    Opened(bool),
    /// The browser brought back a code, or the sign-in failed there.
    Callback(Result<String, SpotifyError>),
}

/// What an [`Event`] says.
pub ghost enum EventView {
    Token(Option<Seq<char>>),
    Reply(ReplyView),
    Stored(bool),
    Opened(bool),
    Callback(Result<Seq<char>, SpotifyErrorView>),
}

impl View for Event {
    type V = EventView;

    open spec fn view(&self) -> EventView {
        match *self {
            Event::Token(token) => EventView::Token(token.deep_view()),
            Event::Reply(reply) => EventView::Reply(reply@),
            Event::Stored(saved) => EventView::Stored(saved),
            Event::Opened(opened) => EventView::Opened(opened),
            Event::Callback(Ok(code)) => EventView::Callback(Ok(code@)),
            Event::Callback(Err(error)) => EventView::Callback(Err(error@)),
        }
    }
}

/// What to do next in a sign-in.
#[derive(Debug)]
pub enum Next {
    Send(HttpRequest),
    /// Store this refresh token.
    Store(String),
    /// Ask for the page on which the reader authorizes the app and open it, after clearing what
    /// is stored where the flag says so.
    Authorize { clear_stored: bool },
    /// Wait for the callback that carries this state.
    AwaitCallback { state: String },
    /// The account may be used.
    Ready,
    /// No connection could be made, for this reason.
    Failed(String),
    /// This is not what was waited for.
    Ignored,
}

/// What a [`Next`] says.
pub ghost enum NextView {
    Send(RequestView),
    Store(Seq<char>),
    Authorize { clear_stored: bool },
    AwaitCallback { state: Seq<char> },
    Ready,
    Failed(Seq<char>),
    Ignored,
}

impl View for Next {
    type V = NextView;

    open spec fn view(&self) -> NextView {
        match *self {
            Next::Send(request) => NextView::Send(request@),
            Next::Store(token) => NextView::Store(token@),
            Next::Authorize { clear_stored } => NextView::Authorize { clear_stored },
            Next::AwaitCallback { state } => NextView::AwaitCallback { state: state@ },
            Next::Ready => NextView::Ready,
            Next::Failed(error) => NextView::Failed(error@),
            Next::Ignored => NextView::Ignored,
        }
    }
}

/// The sign-in after tokens came: a new refresh token is stored first.
pub open spec fn tokens_came(
    account: SpotifyView,
    to_store: Option<Seq<char>>,
    needs_browser: bool,
) -> (SignInView, NextView) {
    match to_store {
        Some(token) => (
            SignInView { account, stage: StageView::Storing { needs_browser } },
            NextView::Store(token),
        ),
        None => goes_on(account, needs_browser),
    }
}

/// The sign-in once there is nothing to store: the browser, or the end.
pub open spec fn goes_on(account: SpotifyView, needs_browser: bool) -> (SignInView, NextView) {
    if needs_browser {
        (
            SignInView { account, stage: StageView::Authorize },
            NextView::Authorize { clear_stored: false },
        )
    } else {
        (SignInView { account, stage: StageView::Over }, NextView::Ready)
    }
}

/// The sign-in after an error that ends it.
pub open spec fn fails(account: SpotifyView, error: Seq<char>) -> (SignInView, NextView) {
    (SignInView { account, stage: StageView::Over }, NextView::Failed(error))
}

/// How a sign-in goes on.
pub open spec fn sign_in_step(sign_in: SignInView, event: EventView) -> (SignInView, NextView) {
    let account = sign_in.account;
    match (sign_in.stage, event) {
        (StageView::Token, EventView::Token(Some(token))) => (
            SignInView {
                account: SpotifyView { refresh_token: Some(token), ..account },
                stage: StageView::Refresh,
            },
            NextView::Send(token_asks(refresh_form(account.client_id, token))),
        ),
        (StageView::Token, EventView::Token(None)) => goes_on(account, true),
        (StageView::Refresh, EventView::Reply(reply)) => match token_answers(reply) {
            Ok(data) => tokens_came(
                with_tokens(account, data),
                text_in(within(data, "refresh_token"@)),
                !may_control(with_tokens(account, data).granted_scopes),
            ),
            Err(SpotifyErrorView::LoginRequired) => (
                SignInView {
                    account: SpotifyView { refresh_token: None, granted_scopes: None, ..account },
                    stage: StageView::Authorize,
                },
                NextView::Authorize { clear_stored: true },
            ),
            Err(error) => fails(account, spotify_error_text(error)),
        },
        (StageView::Storing { needs_browser }, EventView::Stored(saved)) => goes_on(
            SpotifyView {
                cache_warning: if saved {
                    Seq::empty()
                } else {
                    unsaved_warning()
                },
                ..account
            },
            needs_browser,
        ),
        (StageView::Browser { verifier, state }, EventView::Opened(opened)) => if opened {
            (
                SignInView { account, stage: StageView::Callback { verifier } },
                NextView::AwaitCallback { state },
            )
        } else {
            fails(account, "Cannot open the browser for Spotify authorization."@)
        },
        (StageView::Callback { verifier }, EventView::Callback(result)) => match result {
            Ok(code) => (
                SignInView { account, stage: StageView::Tokens },
                NextView::Send(token_asks(code_form(account.client_id, code, verifier))),
            ),
            Err(error) => fails(account, spotify_error_text(error)),
        },
        (StageView::Tokens, EventView::Reply(reply)) => match token_answers(reply) {
            Ok(data) => tokens_came(
                with_tokens(account, data),
                text_in(within(data, "refresh_token"@)),
                false,
            ),
            Err(error) => fails(account, spotify_error_text(error)),
        },
        _ => (sign_in, NextView::Ignored),
    }
}

impl SignIn {
    /// Begin to sign in. The stored refresh token is waited for.
    pub fn new(client_id: String) -> (sign_in: Self)
        ensures
            sign_in@ == (SignInView {
                account: crate::spotify::signed_out(client_id@),
                stage: StageView::Token,
            }),
    {
        SignIn { account: Spotify::new(client_id), stage: Stage::Token }
    }

    fn go_on(&mut self, needs_browser: bool) -> (next: Next)
        ensures
            (final(self)@, next@) == goes_on(old(self)@.account, needs_browser),
    {
        if needs_browser {
            self.stage = Stage::Authorize;
            Next::Authorize { clear_stored: false }
        } else {
            self.stage = Stage::Over;
            Next::Ready
        }
    }

    fn store(&mut self, to_store: Option<String>, needs_browser: bool) -> (next: Next)
        ensures
            (final(self)@, next@) == tokens_came(
                old(self)@.account,
                to_store.deep_view(),
                needs_browser,
            ),
    {
        match to_store {
            Some(token) => {
                self.stage = Stage::Storing { needs_browser };
                Next::Store(token)
            },
            None => self.go_on(needs_browser),
        }
    }

    fn fail(&mut self, error: SpotifyError) -> (next: Next)
        ensures
            (final(self)@, next@) == fails(old(self)@.account, spotify_error_text(error@)),
    {
        self.stage = Stage::Over;
        Next::Failed(error.message())
    }

    /// Take what happened.
    pub fn advance(&mut self, event: Event) -> (next: Next)
        ensures
            (final(self)@, next@) == sign_in_step(old(self)@, event@),
    {
        let mut stage = Stage::Over;
        std::mem::swap(&mut stage, &mut self.stage);
        match (stage, event) {
            (Stage::Token, Event::Token(stored)) => match self.account.connect_session(stored) {
                Resume::Refresh(request) => {
                    self.stage = Stage::Refresh;
                    Next::Send(request)
                },
                Resume::Browser => self.go_on(true),
            },
            (Stage::Refresh, Event::Reply(reply)) => {
                let resumed = self.account.session_resumed(&reply);
                match resumed.needs_browser {
                    Ok(needs_browser) => if resumed.clear_stored {
                        self.stage = Stage::Authorize;
                        Next::Authorize { clear_stored: true }
                    } else {
                        self.store(resumed.to_store, needs_browser)
                    },
                    Err(error) => self.fail(error),
                }
            },
            (Stage::Storing { needs_browser }, Event::Stored(saved)) => {
                self.account.stored(saved);
                self.go_on(needs_browser)
            },
            (Stage::Browser { verifier, state }, Event::Opened(opened)) => {
                if opened {
                    self.stage = Stage::Callback { verifier };
                    Next::AwaitCallback { state }
                } else {
                    Next::Failed("Cannot open the browser for Spotify authorization.".to_owned())
                }
            },
            (Stage::Callback { verifier }, Event::Callback(Ok(code))) => {
                self.stage = Stage::Tokens;
                Next::Send(self.account.complete_authorization(code.as_str(), verifier.as_str()))
            },
            (Stage::Callback { verifier: _ }, Event::Callback(Err(error))) => self.fail(error),
            (Stage::Tokens, Event::Reply(reply)) => match self.account.take_tokens(&reply) {
                Ok(to_store) => self.store(to_store, false),
                Err(error) => self.fail(error),
            },
            (stage, _) => {
                self.stage = stage;
                Next::Ignored
            },
        }
    }

    /// The page on which the reader authorizes the app. It carries a random state, and the
    /// challenge of a random verifier, which are kept for what the browser brings back.
    pub fn authorize(&mut self) -> (page: String)
        ensures
            final(self)@.account == old(self)@.account,
            final(self)@.stage matches StageView::Browser { verifier, state } && page@
                == authorization_page(
                old(self)@.account.client_id,
                challenge_for(verifier),
                state,
            ) && verifier.len() == 86 && all_url_safe(verifier) && state.len() == 32
                && all_url_safe(state),
    {
        let (page, verifier, state) = self.account.authorization_request();
        self.stage = Stage::Browser { verifier, state };
        page
    }
}

/// Where the reader has to authorize, the code is only ever traded with the verifier whose
/// challenge stood on the page that was opened, and only a callback with the state that stood
/// there is waited for.
pub proof fn the_code_is_traded_with_its_own_verifier(
    account: SpotifyView,
    verifier: Seq<char>,
    state: Seq<char>,
    code: Seq<char>,
)
    ensures
        ({
            let waiting = SignInView { account, stage: StageView::Browser { verifier, state } };
            let (opened, asked) = sign_in_step(waiting, EventView::Opened(true));
            let (traded, sent) = sign_in_step(opened, EventView::Callback(Ok(code)));
            &&& asked == NextView::AwaitCallback { state }
            &&& sent == NextView::Send(token_asks(code_form(account.client_id, code, verifier)))
        }),
{
}

/// The stored session is only cleared where Spotify itself turned it down.
pub proof fn only_a_refusal_clears_the_stored_session(sign_in: SignInView, event: EventView)
    requires
        sign_in_step(sign_in, event).1 == (NextView::Authorize { clear_stored: true }),
    ensures
        sign_in.stage is Refresh,
        event matches EventView::Reply(reply) && token_answers(reply) == Err::<
            Option<crate::json::JsonView>,
            _,
        >(SpotifyErrorView::LoginRequired),
{
}

// ------------------------------------------------------------------------- connected

/// Take the account that was signed in with, as the connection of this number. It is refused if
/// the Client ID changed meanwhile.
pub fn spotify_connected(
    session: &mut Session,
    settings: &Settings,
    account: &Spotify,
    storage_warning: Option<&str>,
    serial: u64,
) -> (event: Result<StatusEvent, String>)
    ensures
        match event {
            Ok(event) => {
                &&& settings@.client_id == account@.client_id
                &&& final(session)@ == (SessionView { player: Some(serial), ..old(session)@ })
                &&& event@ == (StatusView {
                    state: "connected"@,
                    message: "Connected"@,
                    notice: notice_for(
                        account@.cache_warning,
                        match storage_warning {
                            Some(warning) => Some(warning@),
                            None => None,
                        },
                    ),
                })
            },
            Err(error) => {
                &&& settings@.client_id != account@.client_id
                &&& final(session)@ == old(session)@
                &&& error@ == "Client ID changed during authorization. Connect again."@
            },
        },
{
    let warning = account.cache_warning();
    let notice = connection_notice(warning.as_str(), storage_warning);
    match check_client_id(settings, account.client_id.as_str()) {
        Ok(()) => {
            session.connected(serial);
            Ok(connected_status(notice.as_str()))
        },
        Err(error) => Err(error),
    }
}

/// Take the system media session, as the connection of this number. It is refused if the reader
/// switched back to Spotify meanwhile.
pub fn ytmusic_connected(
    session: &mut Session,
    settings: &Settings,
    storage_warning: Option<&str>,
    serial: u64,
) -> (event: Result<StatusEvent, String>)
    ensures
        match event {
            Ok(event) => {
                &&& settings@.player == PlayerKind::Ytmusic
                &&& final(session)@ == (SessionView { player: Some(serial), ..old(session)@ })
                &&& event@ == (StatusView {
                    state: "connected"@,
                    message: "Connected"@,
                    notice: match storage_warning {
                        Some(warning) => warning@,
                        None => Seq::empty(),
                    },
                })
            },
            Err(error) => {
                &&& settings@.player != PlayerKind::Ytmusic
                &&& final(session)@ == old(session)@
                &&& error@ == "The player changed while connecting. Connect again."@
            },
        },
{
    match check_ytmusic(settings) {
        Ok(()) => {
            let notice = connection_notice("", storage_warning);
            proof {
                reveal_strlit("");
                assert(""@ =~= Seq::<char>::empty());
            }
            session.connected(serial);
            Ok(connected_status(notice.as_str()))
        },
        Err(error) => Err(error),
    }
}

} // verus!
