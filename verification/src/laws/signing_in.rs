//! How a reader signs in, and what the interface is told on the way.

use vstd::prelude::*;

use crate::codec::{base64_url_encoded, percent_encoded, percent_encoding_is_undone, sha256};
use crate::connection::{
    connecting_to, notice_for, sign_in_step, EventView, NextView, SignInView, StageView,
};
use crate::http::{Fault, Method, ReplyView};
use crate::json::JsonView;
use crate::laws::json::{a_field_is_its_member, a_missing_field_is_nothing, has, lacks};
use crate::player::PlayerKind;
use crate::spotify::{
    authorization_page, callback_outcome, challenge_for, fault_in_spotify, page, page_response,
    pair_value, pairs_in, signed_out, spotify_error_text, token_answers, with_tokens,
    AUTH_TIMEOUT_SECONDS, CALLBACK_ADDRESS, SpotifyErrorView, SpotifyView,
};
use crate::text::{
    decimal, join, joined_pieces_are_cut_again, split_once, the_first_separator_cuts,
};
use vstd::utf8::encode_utf8;

verus! {

// ---------------------------------------------------------------------------------- the page

proof fn a_parameter_is_read_back(name: Seq<char>, value: Seq<char>)
    requires
        !name.contains('='),
        !name.contains('&'),
    ensures
        pair_value(name.push('=') + percent_encoded(value), name) == Some(value),
        !(name.push('=') + percent_encoded(value)).contains('&'),
{
    percent_encoding_is_undone(value);
    the_first_separator_cuts(name, '=', percent_encoded(value));
    let pair = name.push('=') + percent_encoded(value);
    if pair.contains('&') {
        let i = choose|i: int| 0 <= i < pair.len() && pair[i] == '&';
        if i < name.len() {
            assert(name[i] == '&');
        } else if i > name.len() {
            assert(pair[i] == percent_encoded(value)[i - name.len() - 1]);
            assert(crate::codec::percent_safe(percent_encoded(value)[i - name.len() - 1]));
        }
    }
}

/// The page that the reader is sent to is Spotify's, and its parameters say who asks, for what,
/// where the answer goes, and by what it will be known, each as it was given.
pub proof fn the_page_asks_for_what_the_app_needs(
    client_id: Seq<char>,
    challenge: Seq<char>,
    state: Seq<char>,
)
    ensures
        split_once(authorization_page(client_id, challenge, state), '?') matches Some((at, query))
            && at == "https://accounts.spotify.com/authorize"@ && pairs_in(query).len() == 7
            && pair_value(pairs_in(query)[0], "client_id"@) == Some(client_id) && pair_value(
            pairs_in(query)[1],
            "response_type"@,
        ) == Some("code"@) && pair_value(pairs_in(query)[2], "redirect_uri"@) == Some(
            "http://127.0.0.1:8787/callback"@,
        ) && pair_value(pairs_in(query)[3], "code_challenge_method"@) == Some("S256"@)
            && pair_value(pairs_in(query)[4], "code_challenge"@) == Some(challenge) && pair_value(
            pairs_in(query)[5],
            "scope"@,
        ) == Some(
            "user-read-currently-playing user-read-playback-state user-modify-playback-state"@,
        ) && pair_value(pairs_in(query)[6], "state"@) == Some(state),
{
    reveal_strlit("client_id");
    reveal_strlit("client_id=");
    reveal_strlit("response_type");
    reveal_strlit("response_type=");
    reveal_strlit("redirect_uri");
    reveal_strlit("redirect_uri=");
    reveal_strlit("code_challenge_method");
    reveal_strlit("code_challenge_method=");
    reveal_strlit("code_challenge");
    reveal_strlit("code_challenge=");
    reveal_strlit("scope");
    reveal_strlit("scope=");
    reveal_strlit("state");
    reveal_strlit("state=");
    reveal_strlit("?");
    reveal_strlit("&");
    reveal_strlit("https://accounts.spotify.com/authorize");
    let redirect = "http://127.0.0.1:8787/callback"@;
    let scopes = "user-read-currently-playing user-read-playback-state user-modify-playback-state"@;
    let pieces = seq![
        "client_id="@ + percent_encoded(client_id),
        "response_type="@ + percent_encoded("code"@),
        "redirect_uri="@ + percent_encoded(redirect),
        "code_challenge_method="@ + percent_encoded("S256"@),
        "code_challenge="@ + percent_encoded(challenge),
        "scope="@ + percent_encoded(scopes),
        "state="@ + percent_encoded(state),
    ];
    assert("client_id="@ =~= "client_id"@.push('='));
    assert("response_type="@ =~= "response_type"@.push('='));
    assert("redirect_uri="@ =~= "redirect_uri"@.push('='));
    assert("code_challenge_method="@ =~= "code_challenge_method"@.push('='));
    assert("code_challenge="@ =~= "code_challenge"@.push('='));
    assert("scope="@ =~= "scope"@.push('='));
    assert("state="@ =~= "state"@.push('='));
    a_parameter_is_read_back("client_id"@, client_id);
    a_parameter_is_read_back("response_type"@, "code"@);
    a_parameter_is_read_back("redirect_uri"@, redirect);
    a_parameter_is_read_back("code_challenge_method"@, "S256"@);
    a_parameter_is_read_back("code_challenge"@, challenge);
    a_parameter_is_read_back("scope"@, scopes);
    a_parameter_is_read_back("state"@, state);
    assert("&"@ =~= seq!['&']);
    joined_pieces_are_cut_again(pieces, '&');
    let front = "https://accounts.spotify.com/authorize"@;
    let query = join(pieces, "&"@);
    assert(!front.contains('?'));
    the_first_separator_cuts(front, '?', query);
    assert(front + "?"@ + query =~= front.push('?') + query);
}

/// The browser comes back to this machine, where it is waited for during five minutes.
pub proof fn the_browser_comes_back_to_this_machine()
    ensures
        CALLBACK_ADDRESS@ == "127.0.0.1:8787"@,
        AUTH_TIMEOUT_SECONDS == 5 * 60,
{
}

/// The challenge is the SHA-256 digest of the verifier's bytes, in base64 for addresses.
pub proof fn a_challenge_is_a_digest_of_its_verifier(verifier: Seq<char>)
    ensures
        challenge_for(verifier) == base64_url_encoded(sha256(encode_utf8(verifier))),
{
}

// --------------------------------------------------------------------------------- the steps

/// A stored token is traded for new ones at Spotify's token address. Without one the reader
/// authorizes in the browser.
pub proof fn a_stored_token_is_traded_first(account: SpotifyView, token: Seq<char>)
    ensures
        ({
            let waiting = SignInView { account, stage: StageView::Token };
            let (next, asked) = sign_in_step(waiting, EventView::Token(Some(token)));
            &&& next.stage is Refresh
            &&& next.account.refresh_token == Some(token)
            &&& next.account.client_id == account.client_id
            &&& asked matches NextView::Send(request) && request.method == Method::Post
                && request.url == "https://accounts.spotify.com/api/token"@ && request.form.contains(
                ("grant_type"@, "refresh_token"@),
            ) && request.form.contains(("refresh_token"@, token)) && request.form.contains(
                ("client_id"@, account.client_id),
            ) && request.form.len() == 3
        }),
        ({
            let waiting = SignInView { account, stage: StageView::Token };
            let (next, asked) = sign_in_step(waiting, EventView::Token(None));
            &&& next.stage is Authorize
            &&& next.account == account
            &&& asked == NextView::Authorize { clear_stored: false }
        }),
{
    let waiting = SignInView { account, stage: StageView::Token };
    let form = sign_in_step(waiting, EventView::Token(Some(token))).1->Send_0.form;
    assert(form[0] == ("grant_type"@, "refresh_token"@));
    assert(form[1] == ("refresh_token"@, token));
    assert(form[2] == ("client_id"@, account.client_id));
}

/// What comes of trading the stored token: new tokens are taken, and stored where they came with
/// another refresh token; a session that is over is cleared and authorized anew; any other error
/// ends the sign-in and is told.
pub proof fn a_traded_token_is_taken(
    account: SpotifyView,
    reply: ReplyView,
    data: JsonView,
    token: Seq<char>,
    error: SpotifyErrorView,
)
    ensures
        ({
            let waiting = SignInView { account, stage: StageView::Refresh };
            let (next, asked) = sign_in_step(waiting, EventView::Reply(reply));
            let with = with_tokens(account, Some(data));
            let controls = crate::spotify::may_control(with.granted_scopes);
            let came = token_answers(reply) == Ok::<_, SpotifyErrorView>(Some(data));
            let failed = token_answers(reply) == Err::<Option<JsonView>, _>(error);
            &&& came ==> next.account == with
            &&& came && has(data, "refresh_token"@, JsonView::Text(token)) ==> asked
                == NextView::Store(token) && next.stage == StageView::Storing {
                needs_browser: !controls,
            }
            &&& came && lacks(data, "refresh_token"@) && controls ==> asked is Ready
                && next.stage is Over
            &&& came && lacks(data, "refresh_token"@) && !controls ==> asked
                == NextView::Authorize { clear_stored: false } && next.stage is Authorize
            &&& failed && error is LoginRequired ==> asked == NextView::Authorize {
                clear_stored: true,
            } && next.stage is Authorize && next.account.refresh_token is None
                && next.account.granted_scopes is None && next.account.client_id
                == account.client_id
            &&& failed && !(error is LoginRequired) ==> asked == NextView::Failed(
                spotify_error_text(error),
            ) && next.stage is Over && next.account == account
        }),
{
    if has(data, "refresh_token"@, JsonView::Text(token)) {
        a_field_is_its_member(data, "refresh_token"@, JsonView::Text(token));
    }
    if lacks(data, "refresh_token"@) {
        a_missing_field_is_nothing(data, "refresh_token"@);
    }
}

/// Once a token was stored or not, the browser comes where it is needed, and the account may be
/// used where it is not. A token that could not be stored is warned of.
pub proof fn storing_a_token_is_followed_up(account: SpotifyView, needs_browser: bool, saved: bool)
    ensures
        ({
            let waiting = SignInView { account, stage: StageView::Storing { needs_browser } };
            let (next, asked) = sign_in_step(waiting, EventView::Stored(saved));
            &&& saved ==> next.account.cache_warning.len() == 0
            &&& !saved ==> next.account.cache_warning
                == "The sign-in could not be saved; you may need to authorize again next time."@
            &&& next.account.client_id == account.client_id && next.account.access_token
                == account.access_token && next.account.refresh_token == account.refresh_token
                && next.account.granted_scopes == account.granted_scopes
            &&& needs_browser ==> asked == NextView::Authorize { clear_stored: false }
                && next.stage is Authorize
            &&& !needs_browser ==> asked is Ready && next.stage is Over
        }),
{
}

/// A browser that opened is waited for, with the state of its page. One that did not open ends
/// the sign-in.
pub proof fn an_opened_browser_is_waited_for(
    account: SpotifyView,
    verifier: Seq<char>,
    state: Seq<char>,
)
    ensures
        ({
            let waiting = SignInView { account, stage: StageView::Browser { verifier, state } };
            let (next, asked) = sign_in_step(waiting, EventView::Opened(true));
            &&& next == SignInView { account, stage: StageView::Callback { verifier } }
            &&& asked == NextView::AwaitCallback { state }
        }),
        ({
            let waiting = SignInView { account, stage: StageView::Browser { verifier, state } };
            let (next, asked) = sign_in_step(waiting, EventView::Opened(false));
            &&& next == SignInView { account, stage: StageView::Over }
            &&& asked == NextView::Failed("Cannot open the browser for Spotify authorization."@)
        }),
{
}

/// A code is traded for tokens with the verifier, and an error that the browser brings ends the
/// sign-in.
pub proof fn a_code_is_traded(
    account: SpotifyView,
    verifier: Seq<char>,
    code: Seq<char>,
    error: SpotifyErrorView,
)
    ensures
        ({
            let waiting = SignInView { account, stage: StageView::Callback { verifier } };
            let (next, asked) = sign_in_step(waiting, EventView::Callback(Ok(code)));
            &&& next == SignInView { account, stage: StageView::Tokens }
            &&& asked matches NextView::Send(request) && request.method == Method::Post
                && request.url == "https://accounts.spotify.com/api/token"@ && request.form.contains(
                ("grant_type"@, "authorization_code"@),
            ) && request.form.contains(("code"@, code)) && request.form.contains(
                ("code_verifier"@, verifier),
            ) && request.form.contains(("client_id"@, account.client_id)) && request.form.contains(
                ("redirect_uri"@, "http://127.0.0.1:8787/callback"@),
            ) && request.form.len() == 5
        }),
        ({
            let waiting = SignInView { account, stage: StageView::Callback { verifier } };
            let (next, asked) = sign_in_step(waiting, EventView::Callback(Err(error)));
            &&& next == SignInView { account, stage: StageView::Over }
            &&& asked == NextView::Failed(spotify_error_text(error))
        }),
{
    let waiting = SignInView { account, stage: StageView::Callback { verifier } };
    let form = sign_in_step(waiting, EventView::Callback(Ok(code))).1->Send_0.form;
    assert(form[0] == ("grant_type"@, "authorization_code"@));
    assert(form[1] == ("code"@, code));
    assert(form[2] == ("redirect_uri"@, "http://127.0.0.1:8787/callback"@));
    assert(form[3] == ("client_id"@, account.client_id));
    assert(form[4] == ("code_verifier"@, verifier));
}

/// The tokens that a code was traded for end the sign-in, once they are stored. Whatever else
/// comes instead of them ends it with its reason.
pub proof fn traded_tokens_end_the_sign_in(
    account: SpotifyView,
    reply: ReplyView,
    data: JsonView,
    token: Seq<char>,
    error: SpotifyErrorView,
)
    ensures
        ({
            let waiting = SignInView { account, stage: StageView::Tokens };
            let (next, asked) = sign_in_step(waiting, EventView::Reply(reply));
            let came = token_answers(reply) == Ok::<_, SpotifyErrorView>(Some(data));
            let failed = token_answers(reply) == Err::<Option<JsonView>, _>(error);
            &&& came ==> next.account == with_tokens(account, Some(data))
            &&& came && has(data, "refresh_token"@, JsonView::Text(token)) ==> asked
                == NextView::Store(token) && next.stage == StageView::Storing {
                needs_browser: false,
            }
            &&& came && lacks(data, "refresh_token"@) ==> asked is Ready && next.stage is Over
            &&& failed ==> asked == NextView::Failed(spotify_error_text(error)) && next.stage
                is Over && next.account == account
        }),
{
    if has(data, "refresh_token"@, JsonView::Text(token)) {
        a_field_is_its_member(data, "refresh_token"@, JsonView::Text(token));
    }
    if lacks(data, "refresh_token"@) {
        a_missing_field_is_nothing(data, "refresh_token"@);
    }
}

/// What is not waited for changes nothing.
pub proof fn what_is_not_awaited_is_ignored(sign_in: SignInView, event: EventView)
    requires
        !(sign_in.stage is Token && event is Token),
        !(sign_in.stage is Refresh && event is Reply),
        !(sign_in.stage is Storing && event is Stored),
        !(sign_in.stage is Browser && event is Opened),
        !(sign_in.stage is Callback && event is Callback),
        !(sign_in.stage is Tokens && event is Reply),
    ensures
        sign_in_step(sign_in, event) == (sign_in, NextView::Ignored),
{
}

// -------------------------------------------------------------------------- what is told

/// Both things that will not survive a restart are told, with a space between them.
pub proof fn a_notice_tells_both(cache: Seq<char>, storage: Seq<char>)
    ensures
        notice_for(cache, None) == cache,
        cache.len() == 0 ==> notice_for(cache, Some(storage)) == storage,
        cache.len() > 0 ==> notice_for(cache, Some(storage)) == cache + " "@ + storage,
{
}

/// The interface is told which player is being connected to.
pub proof fn connecting_names_the_player()
    ensures
        connecting_to(PlayerKind::Spotify).state == "connecting"@,
        connecting_to(PlayerKind::Spotify).message == "Connecting to "@ + "Spotify"@ + "…"@,
        connecting_to(PlayerKind::Ytmusic).state == "connecting"@,
        connecting_to(PlayerKind::Ytmusic).message == "Connecting to "@ + "YouTube Music"@ + "…"@,
{
}

/// Each error of Spotify is told in its own words, or in those that stand for it.
pub proof fn an_error_of_spotify_is_told(
    text: Seq<char>,
    status: u16,
    seconds: u64,
    decode: bool,
)
    ensures
        spotify_error_text(SpotifyErrorView::LoginRequired)
            == "Spotify authorization is required"@,
        spotify_error_text(SpotifyErrorView::Config(text)) == text,
        spotify_error_text(SpotifyErrorView::Network(text)) == text,
        spotify_error_text(SpotifyErrorView::Refused { status, message: text }) == text,
        spotify_error_text(SpotifyErrorView::RateLimited { retry_after: seconds })
            == "Spotify rate limit"@,
        fault_in_spotify(Fault { timeout: true, decode }) == SpotifyErrorView::Network(
            "Spotify did not respond in time"@,
        ),
        fault_in_spotify(Fault { timeout: false, decode }) == SpotifyErrorView::Network(
            "Spotify is unreachable"@,
        ),
{
}

/// Nobody is signed in at first.
pub proof fn nobody_is_signed_in_at_first(client_id: Seq<char>)
    ensures
        signed_out(client_id).client_id == client_id,
        signed_out(client_id).access_token.len() == 0,
        signed_out(client_id).refresh_token is None,
        signed_out(client_id).granted_scopes is None,
        signed_out(client_id).cache_warning.len() == 0,
{
}

/// The page that the browser shows holds the message, and the answer that carries it says how
/// many bytes it has.
pub proof fn a_page_is_sent_with_its_length(message: Seq<char>)
    ensures
        exists|before: Seq<char>, after: Seq<char>| #[trigger]
            (before + message + after) == page(message),
        page_response(message)
            == "HTTP/1.1 200 OK\r\nContent-Type: text/html; charset=utf-8\r\nContent-Length: "@
            + decimal(encode_utf8(page(message)).len() as int) + "\r\nConnection: close\r\n\r\n"@
            + page(message),
{
}

/// A request that cannot be read, or that asks for nothing, does not sign in.
pub proof fn an_unread_request_does_not_sign_in(state: Seq<char>, line: Seq<char>)
    ensures
        callback_outcome(state, None).end is None,
        callback_outcome(state, None).shown == "Sign-in failed. You can close this tab."@,
        crate::text::words(line).len() < 2 ==> callback_outcome(state, Some(line)).end is None,
{
}

} // verus!
