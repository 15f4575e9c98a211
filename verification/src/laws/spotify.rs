//! What Spotify is asked, and how its answers are read.

use vstd::prelude::*;

use crate::http::{Fault, Method, ReplyView};
use crate::json::{json_in_bytes, JsonView};
use crate::laws::json::{a_field_is_its_member, a_missing_field_is_nothing, has, is_integer, lacks};
use crate::laws::texts::a_text_is_cut_at_the_first;
use crate::player::{nothing_playing, Control, PlayerKind};
use crate::spotify::{
    call_answers, call_goes_on, code_form, control_asks, fields_in, fields_outcome, last_value,
    may_control, names_of_artists, pair_value, pairs_in, playback_asks, playback_in, refresh_form,
    target_outcome, token_answers, token_asks, token_refusal, with_tokens, CallNextView, CallStage,
    CalledView, FieldsView, Purpose, SpotifyErrorView, SpotifyView,
};
use crate::text::{decimal, parsed_u64, words};

verus! {

// ---------------------------------------------------------------------------- playback

/// Whether a state shows this item, an object, as a track: it says so, or does not say what it
/// is.
pub open spec fn shows(data: JsonView, item: JsonView) -> bool {
    &&& has(data, "item"@, item)
    &&& item is Object
    &&& has(item, "type"@, JsonView::Text("track"@)) || lacks(item, "type"@)
}

proof fn a_shown_item(data: JsonView, item: JsonView)
    requires
        shows(data, item),
    ensures
        crate::json::field(data, "item"@) == Some(item),
        crate::spotify::plays_track(Some(item)),
{
    a_field_is_its_member(data, "item"@, item);
    if lacks(item, "type"@) {
        a_missing_field_is_nothing(item, "type"@);
    } else {
        a_field_is_its_member(item, "type"@, JsonView::Text("track"@));
    }
}

/// A state whose item is a track gives a sample with a track, from Spotify. It plays where the
/// state says so, and not where it says that it does not or says nothing.
pub proof fn a_sample_plays_where_the_state_says_so(data: JsonView, item: JsonView, playing: bool)
    requires
        shows(data, item),
    ensures
        playback_in(Some(data)).has_track,
        playback_in(Some(data)).source == PlayerKind::Spotify,
        has(data, "is_playing"@, JsonView::Bool(playing)) ==> playback_in(Some(data)).is_playing
            == playing,
        lacks(data, "is_playing"@) ==> !playback_in(Some(data)).is_playing,
{
    a_shown_item(data, item);
    if has(data, "is_playing"@, JsonView::Bool(playing)) {
        a_field_is_its_member(data, "is_playing"@, JsonView::Bool(playing));
    }
    if lacks(data, "is_playing"@) {
        a_missing_field_is_nothing(data, "is_playing"@);
    }
}

/// A sample names the song as the item of the state does.
pub proof fn a_sample_names_the_song_of_the_state(
    data: JsonView,
    item: JsonView,
    id: Seq<char>,
    name: Seq<char>,
    length: JsonView,
    ms: i64,
)
    requires
        shows(data, item),
    ensures
        has(item, "id"@, JsonView::Text(id)) ==> playback_in(Some(data)).track_id == id,
        lacks(item, "id"@) ==> playback_in(Some(data)).track_id.len() == 0,
        has(item, "id"@, JsonView::Null) ==> playback_in(Some(data)).track_id.len() == 0,
        has(item, "name"@, JsonView::Text(name)) ==> playback_in(Some(data)).name == name,
        has(item, "duration_ms"@, length) && is_integer(length, ms) ==> playback_in(
            Some(data),
        ).duration_ms == ms,
        lacks(item, "duration_ms"@) ==> playback_in(Some(data)).duration_ms == 0,
{
    a_shown_item(data, item);
    if has(item, "id"@, JsonView::Text(id)) {
        a_field_is_its_member(item, "id"@, JsonView::Text(id));
    }
    if has(item, "id"@, JsonView::Null) {
        a_field_is_its_member(item, "id"@, JsonView::Null);
    }
    if lacks(item, "id"@) {
        a_missing_field_is_nothing(item, "id"@);
    }
    if has(item, "name"@, JsonView::Text(name)) {
        a_field_is_its_member(item, "name"@, JsonView::Text(name));
    }
    if has(item, "duration_ms"@, length) {
        a_field_is_its_member(item, "duration_ms"@, length);
    }
    if lacks(item, "duration_ms"@) {
        a_missing_field_is_nothing(item, "duration_ms"@);
    }
}

/// A sample is where the state says that playback is, on the device it names.
pub proof fn a_sample_is_where_the_state_says(
    data: JsonView,
    item: JsonView,
    progress: JsonView,
    ms: i64,
    device: JsonView,
    name: Seq<char>,
)
    requires
        shows(data, item),
    ensures
        has(data, "progress_ms"@, progress) && is_integer(progress, ms) ==> playback_in(
            Some(data),
        ).progress_ms == Some(ms),
        lacks(data, "progress_ms"@) ==> playback_in(Some(data)).progress_ms is None,
        has(data, "device"@, device) && has(device, "name"@, JsonView::Text(name)) ==> playback_in(
            Some(data),
        ).device_name == Some(name),
        lacks(data, "device"@) ==> playback_in(Some(data)).device_name is None,
{
    a_shown_item(data, item);
    if has(data, "progress_ms"@, progress) {
        a_field_is_its_member(data, "progress_ms"@, progress);
    }
    if lacks(data, "progress_ms"@) {
        a_missing_field_is_nothing(data, "progress_ms"@);
    }
    if has(data, "device"@, device) && has(device, "name"@, JsonView::Text(name)) {
        a_field_is_its_member(data, "device"@, device);
        a_field_is_its_member(device, "name"@, JsonView::Text(name));
    }
    if lacks(data, "device"@) {
        a_missing_field_is_nothing(data, "device"@);
    }
}

/// A sample has the album of the item, with the picture that its list has first.
pub proof fn a_sample_has_the_album_of_the_item(
    data: JsonView,
    item: JsonView,
    album: JsonView,
    name: Seq<char>,
    images: Seq<JsonView>,
    address: Seq<char>,
)
    requires
        shows(data, item),
        has(item, "album"@, album),
    ensures
        has(album, "name"@, JsonView::Text(name)) ==> playback_in(Some(data)).album == name,
        has(album, "images"@, JsonView::Array(images)) && images.len() > 0 && has(
            images[0],
            "url"@,
            JsonView::Text(address),
        ) ==> playback_in(Some(data)).album_art == Some(address),
        has(album, "images"@, JsonView::Array(images)) && images.len() == 0 ==> playback_in(
            Some(data),
        ).album_art is None,
{
    a_shown_item(data, item);
    a_field_is_its_member(item, "album"@, album);
    if has(album, "name"@, JsonView::Text(name)) {
        a_field_is_its_member(album, "name"@, JsonView::Text(name));
    }
    if has(album, "images"@, JsonView::Array(images)) {
        a_field_is_its_member(album, "images"@, JsonView::Array(images));
        if images.len() > 0 && has(images[0], "url"@, JsonView::Text(address)) {
            a_field_is_its_member(images[0], "url"@, JsonView::Text(address));
        }
    }
}

proof fn every_name_is_listed(artists: Seq<JsonView>, names: Seq<Seq<char>>, n: int)
    requires
        artists.len() == names.len(),
        0 <= n <= artists.len(),
        forall|i: int|
            0 <= i < artists.len() ==> has(
                #[trigger] artists[i],
                "name"@,
                JsonView::Text(names[i]),
            ),
    ensures
        names_of_artists(artists, n) == names.take(n),
    decreases n,
{
    if n > 0 {
        every_name_is_listed(artists, names, n - 1);
        assert(has(artists[n - 1], "name"@, JsonView::Text(names[n - 1])));
        a_field_is_its_member(artists[n - 1], "name"@, JsonView::Text(names[n - 1]));
        assert(names.take(n - 1).push(names[n - 1]) =~= names.take(n));
    } else {
        assert(names.take(0) =~= Seq::empty());
    }
}

/// A sample lists the artists of the item, all of them and in their order.
pub proof fn a_sample_lists_the_artists_of_the_item(
    data: JsonView,
    item: JsonView,
    artists: Seq<JsonView>,
    names: Seq<Seq<char>>,
)
    requires
        shows(data, item),
        has(item, "artists"@, JsonView::Array(artists)),
        artists.len() == names.len(),
        forall|i: int|
            0 <= i < artists.len() ==> has(
                #[trigger] artists[i],
                "name"@,
                JsonView::Text(names[i]),
            ),
    ensures
        playback_in(Some(data)).artists == names,
{
    a_shown_item(data, item);
    a_field_is_its_member(item, "artists"@, JsonView::Array(artists));
    every_name_is_listed(artists, names, artists.len() as int);
    assert(names.take(names.len() as int) =~= names);
}

/// A transport action is offered unless the state disallows it, each under its own name.
pub proof fn an_action_is_offered_unless_disallowed(
    data: JsonView,
    item: JsonView,
    actions: JsonView,
    disallows: JsonView,
    next: bool,
    previous: bool,
    seeking: bool,
)
    requires
        shows(data, item),
        has(data, "actions"@, actions),
        has(actions, "disallows"@, disallows),
    ensures
        has(disallows, "skipping_next"@, JsonView::Bool(next)) ==> playback_in(
            Some(data),
        ).can_skip_next == !next,
        lacks(disallows, "skipping_next"@) ==> playback_in(Some(data)).can_skip_next,
        has(disallows, "skipping_prev"@, JsonView::Bool(previous)) ==> playback_in(
            Some(data),
        ).can_skip_previous == !previous,
        lacks(disallows, "skipping_prev"@) ==> playback_in(Some(data)).can_skip_previous,
        has(disallows, "seeking"@, JsonView::Bool(seeking)) ==> playback_in(Some(data)).can_seek
            == !seeking,
        lacks(disallows, "seeking"@) ==> playback_in(Some(data)).can_seek,
{
    a_shown_item(data, item);
    a_field_is_its_member(data, "actions"@, actions);
    a_field_is_its_member(actions, "disallows"@, disallows);
    if has(disallows, "skipping_next"@, JsonView::Bool(next)) {
        a_field_is_its_member(disallows, "skipping_next"@, JsonView::Bool(next));
    }
    if lacks(disallows, "skipping_next"@) {
        a_missing_field_is_nothing(disallows, "skipping_next"@);
    }
    if has(disallows, "skipping_prev"@, JsonView::Bool(previous)) {
        a_field_is_its_member(disallows, "skipping_prev"@, JsonView::Bool(previous));
    }
    if lacks(disallows, "skipping_prev"@) {
        a_missing_field_is_nothing(disallows, "skipping_prev"@);
    }
    if has(disallows, "seeking"@, JsonView::Bool(seeking)) {
        a_field_is_its_member(disallows, "seeking"@, JsonView::Bool(seeking));
    }
    if lacks(disallows, "seeking"@) {
        a_missing_field_is_nothing(disallows, "seeking"@);
    }
}

/// Where nothing is playing, or what plays is no track, the sample shows no track and offers
/// nothing.
pub proof fn what_is_no_track_is_not_shown(data: JsonView, item: JsonView, kind: Seq<char>)
    ensures
        !playback_in(None).has_track,
        lacks(data, "item"@) ==> !playback_in(Some(data)).has_track,
        has(data, "item"@, JsonView::Null) ==> !playback_in(Some(data)).has_track,
        has(data, "item"@, item) && has(item, "type"@, JsonView::Text(kind)) && kind != "track"@
            ==> !playback_in(Some(data)).has_track,
        !playback_in(Some(data)).has_track ==> playback_in(Some(data)) == nothing_playing(
            PlayerKind::Spotify,
        ),
{
    if lacks(data, "item"@) {
        a_missing_field_is_nothing(data, "item"@);
    }
    if has(data, "item"@, JsonView::Null) {
        a_field_is_its_member(data, "item"@, JsonView::Null);
    }
    if has(data, "item"@, item) && has(item, "type"@, JsonView::Text(kind)) {
        a_field_is_its_member(data, "item"@, item);
        a_field_is_its_member(item, "type"@, JsonView::Text(kind));
    }
}

// ------------------------------------------------------------------------------- calls

/// Every call goes to the Web API with the access token of the account: the player state is
/// fetched, and each control goes to its own address.
pub proof fn calls_carry_the_token(token: Seq<char>, control: Control)
    ensures
        playback_asks(token).method == Method::Get,
        playback_asks(token).url == "https://api.spotify.com/v1"@ + "/me/player"@,
        playback_asks(token).headers.contains(("Authorization"@, "Bearer "@ + token)),
        control_asks(token, control).headers.contains(("Authorization"@, "Bearer "@ + token)),
        control_asks(token, control).method == (if control is Next || control is Previous {
            Method::Post
        } else {
            Method::Put
        }),
        control is Play ==> control_asks(token, control).url == "https://api.spotify.com/v1"@
            + "/me/player/play"@,
        control is Pause ==> control_asks(token, control).url == "https://api.spotify.com/v1"@
            + "/me/player/pause"@,
        control is Next ==> control_asks(token, control).url == "https://api.spotify.com/v1"@
            + "/me/player/next"@,
        control is Previous ==> control_asks(token, control).url == "https://api.spotify.com/v1"@
            + "/me/player/previous"@,
        control is Seek ==> control_asks(token, control).url == "https://api.spotify.com/v1"@
            + "/me/player/seek"@,
        control matches Control::Seek(ms) ==> ms >= 0 ==> control_asks(token, control).query
            == seq![("position_ms"@, decimal(ms as int))],
        control matches Control::Seek(ms) ==> ms < 0 ==> control_asks(token, control).query
            == seq![("position_ms"@, decimal(0))],
        !(control is Seek) ==> control_asks(token, control).query.len() == 0,
{
    assert(playback_asks(token).headers[0] == ("Authorization"@, "Bearer "@ + token));
    assert(control_asks(token, control).headers[0] == ("Authorization"@, "Bearer "@ + token));
}

/// What a status means: an expired token is refreshed, but only once; too many calls are waited
/// out for as long as Spotify asks, ten seconds where it does not say; a success hands over its
/// document; and everything else is a refusal.
pub proof fn a_status_means_what_it_says(
    status: u16,
    bytes: Seq<u8>,
    fault: Fault,
    pause: Seq<char>,
    seconds: u64,
    first: bool,
)
    ensures
        ({
            let reply = ReplyView::Answered { status, body: Ok(bytes) };
            &&& call_answers(reply, None, first) is Refresh <==> status == 401 && first
            &&& status == 429 ==> call_answers(reply, None, first) == CalledView::Done(
                Err(SpotifyErrorView::RateLimited { retry_after: 10 }),
            )
            &&& status == 429 && parsed_u64(pause) == Some(seconds) ==> call_answers(
                reply,
                Some(pause),
                first,
            ) == CalledView::Done(Err(SpotifyErrorView::RateLimited { retry_after: seconds }))
            &&& status == 204 ==> call_answers(reply, None, first) == CalledView::Done(Ok(None))
            &&& 200 <= status <= 299 && status != 204 && bytes.len() > 0 ==> call_answers(
                reply,
                None,
                first,
            ) == CalledView::Done(Ok(json_in_bytes(bytes)))
            &&& 200 <= status <= 299 && bytes.len() == 0 ==> call_answers(reply, None, first)
                == CalledView::Done(Ok(None))
            &&& (status < 200 || status > 299) && status != 429 && !(status == 401 && first)
                ==> (call_answers(reply, None, first) matches CalledView::Done(
                Err(SpotifyErrorView::Refused { status: said, message }),
            ) && said == status)
        }),
        call_answers(ReplyView::Failed(fault), None, first) == CalledView::Done(
            Err(
                SpotifyErrorView::Network(
                    if fault.timeout {
                        "Spotify did not respond in time"@
                    } else {
                        "Spotify is unreachable"@
                    },
                ),
            ),
        ),
{
}

/// A refusal is told in Spotify's own words, where it has any.
pub proof fn a_refusal_is_told_in_its_own_words(
    status: u16,
    bytes: Seq<u8>,
    body: JsonView,
    error: JsonView,
    message: Seq<char>,
)
    requires
        status != 401,
        status != 429,
        status < 200 || status > 299,
        json_in_bytes(bytes) == Some(body),
        has(body, "error"@, error),
        has(error, "message"@, JsonView::Text(message)),
    ensures
        call_answers(ReplyView::Answered { status, body: Ok(bytes) }, None, true)
            == CalledView::Done(Err(SpotifyErrorView::Refused { status, message })),
{
    a_field_is_its_member(body, "error"@, error);
    a_field_is_its_member(error, "message"@, JsonView::Text(message));
}

/// An expired token is traded for a new one, and the same call is then made with the new token.
pub proof fn an_expired_token_is_replaced(
    account: SpotifyView,
    purpose: Purpose,
    token: Seq<char>,
    bytes: Seq<u8>,
    data: JsonView,
    access: Seq<char>,
    old_bytes: Seq<u8>,
)
    requires
        account.refresh_token == Some(token),
        json_in_bytes(bytes) == Some(data),
        has(data, "access_token"@, JsonView::Text(access)),
    ensures
        call_goes_on(
            account,
            purpose,
            CallStage::First,
            ReplyView::Answered { status: 401, body: Ok(old_bytes) },
            None,
        ) == (
            account,
            CallNextView::Send {
                stage: CallStage::Refreshing,
                to_store: None,
                request: token_asks(refresh_form(account.client_id, token)),
            },
        ),
        ({
            let (next, step) = call_goes_on(
                account,
                purpose,
                CallStage::Refreshing,
                ReplyView::Answered { status: 200, body: Ok(bytes) },
                None,
            );
            &&& next.access_token == access
            &&& step matches CallNextView::Send { stage, to_store, request }
            &&& stage == CallStage::Second
            &&& purpose is Playback ==> request == playback_asks(access)
            &&& purpose matches Purpose::Control(control) ==> request == control_asks(
                access,
                control,
            )
        }),
{
    a_field_is_its_member(data, "access_token"@, JsonView::Text(access));
}

// ------------------------------------------------------------------------------ tokens

/// Tokens are asked for at one address, by a form that says what is traded.
pub proof fn tokens_are_traded_by_a_form(
    client_id: Seq<char>,
    token: Seq<char>,
    code: Seq<char>,
    verifier: Seq<char>,
)
    ensures
        ({
            let request = token_asks(refresh_form(client_id, token));
            &&& request.method == Method::Post
            &&& request.url == "https://accounts.spotify.com/api/token"@
            &&& request.form.len() == 3
            &&& request.form.contains(("grant_type"@, "refresh_token"@))
            &&& request.form.contains(("refresh_token"@, token))
            &&& request.form.contains(("client_id"@, client_id))
        }),
        ({
            let request = token_asks(code_form(client_id, code, verifier));
            &&& request.method == Method::Post
            &&& request.form.len() == 5
            &&& request.form.contains(("grant_type"@, "authorization_code"@))
            &&& request.form.contains(("code"@, code))
            &&& request.form.contains(("redirect_uri"@, "http://127.0.0.1:8787/callback"@))
            &&& request.form.contains(("client_id"@, client_id))
            &&& request.form.contains(("code_verifier"@, verifier))
        }),
{
    let refresh = token_asks(refresh_form(client_id, token)).form;
    assert(refresh[0] == ("grant_type"@, "refresh_token"@));
    assert(refresh[1] == ("refresh_token"@, token));
    assert(refresh[2] == ("client_id"@, client_id));
    let trade = token_asks(code_form(client_id, code, verifier)).form;
    assert(trade[0] == ("grant_type"@, "authorization_code"@));
    assert(trade[1] == ("code"@, code));
    assert(trade[2] == ("redirect_uri"@, "http://127.0.0.1:8787/callback"@));
    assert(trade[3] == ("client_id"@, client_id));
    assert(trade[4] == ("code_verifier"@, verifier));
}

/// An account takes what came, and keeps of the rest what it had: the tokens and the scopes that
/// an answer names replace the old ones, and one that it does not name stays.
pub proof fn an_account_takes_what_came(
    account: SpotifyView,
    data: JsonView,
    access: Seq<char>,
    refresh: Seq<char>,
    scope: Seq<char>,
)
    ensures
        has(data, "access_token"@, JsonView::Text(access)) ==> with_tokens(
            account,
            Some(data),
        ).access_token == access,
        lacks(data, "access_token"@) ==> with_tokens(account, Some(data)).access_token
            == account.access_token,
        has(data, "refresh_token"@, JsonView::Text(refresh)) ==> with_tokens(
            account,
            Some(data),
        ).refresh_token == Some(refresh),
        lacks(data, "refresh_token"@) ==> with_tokens(account, Some(data)).refresh_token
            == account.refresh_token,
        has(data, "scope"@, JsonView::Text(scope)) ==> with_tokens(
            account,
            Some(data),
        ).granted_scopes == Some(scope),
        lacks(data, "scope"@) ==> with_tokens(account, Some(data)).granted_scopes
            == account.granted_scopes,
        with_tokens(account, Some(data)).client_id == account.client_id,
        with_tokens(account, Some(data)).cache_warning == account.cache_warning,
        with_tokens(account, None) == account,
{
    if has(data, "access_token"@, JsonView::Text(access)) {
        a_field_is_its_member(data, "access_token"@, JsonView::Text(access));
    }
    if lacks(data, "access_token"@) {
        a_missing_field_is_nothing(data, "access_token"@);
    }
    if has(data, "refresh_token"@, JsonView::Text(refresh)) {
        a_field_is_its_member(data, "refresh_token"@, JsonView::Text(refresh));
    }
    if lacks(data, "refresh_token"@) {
        a_missing_field_is_nothing(data, "refresh_token"@);
    }
    if has(data, "scope"@, JsonView::Text(scope)) {
        a_field_is_its_member(data, "scope"@, JsonView::Text(scope));
    }
    if lacks(data, "scope"@) {
        a_missing_field_is_nothing(data, "scope"@);
    }
}

/// A token may control playback where its scopes say so, or where Spotify does not name them.
pub proof fn control_needs_its_scope(scopes: Seq<char>)
    ensures
        may_control(None),
        may_control(Some(scopes)) <==> exists|i: int|
            0 <= i < words(scopes).len() && #[trigger] words(scopes)[i]
                == "user-modify-playback-state"@,
{
    if words(scopes).contains("user-modify-playback-state"@) {
        let i = choose|i: int|
            0 <= i < words(scopes).len() && words(scopes)[i] == "user-modify-playback-state"@;
        assert(words(scopes)[i] == "user-modify-playback-state"@);
    }
}

/// A refused refresh means that the reader signs in again exactly where the status is 400 or the
/// answer says that the grant is finished; any other refusal is a fault that names the status.
pub proof fn a_finished_grant_needs_a_new_sign_in(status: u16, body: JsonView, error: Seq<char>)
    requires
        has(body, "error"@, JsonView::Text(error)),
    ensures
        token_refusal(status, Some(body)) is LoginRequired <==> status == 400 || error
            == "invalid_grant"@,
        token_refusal(status, None) is LoginRequired <==> status == 400,
        !(token_refusal(status, Some(body)) is LoginRequired) ==> token_refusal(status, Some(body))
            == SpotifyErrorView::Network(
            "Spotify refused the sign-in ("@ + decimal(status as int) + ")"@,
        ),
{
    a_field_is_its_member(body, "error"@, JsonView::Text(error));
    crate::laws::json::a_value_is_read_as_what_it_is(body);
    reveal_strlit("invalid_grant");
    assert("invalid_grant"@.len() == 13);
}

/// A reply to a request for tokens counts as one exactly where its status is a success.
pub proof fn tokens_come_with_a_success(status: u16, bytes: Seq<u8>, fault: Fault)
    ensures
        token_answers(ReplyView::Answered { status, body: Ok(bytes) }) is Ok <==> 200 <= status
            <= 299,
        200 <= status <= 299 ==> token_answers(ReplyView::Answered { status, body: Ok(bytes) })
            == Ok::<_, SpotifyErrorView>(json_in_bytes(bytes)),
        token_answers(ReplyView::Failed(fault)) is Err,
        !(token_answers(ReplyView::Failed(fault)) == Err::<Option<JsonView>, _>(
            SpotifyErrorView::LoginRequired,
        )),
{
}

// ---------------------------------------------------------------------------- callback

/// What the fields of a callback come to, for each of the ways they can be.
pub proof fn a_callback_is_judged_by_its_fields(expected: Seq<char>, fields: FieldsView)
    ensures
        fields.error matches Some(error) ==> fields_outcome(expected, fields).end == Some(
            Err::<Seq<char>, _>(SpotifyErrorView::Config("Spotify returned: "@ + error)),
        ),
        fields.error is None && fields.state == Some(expected) ==> match fields.code {
            Some(code) => fields_outcome(expected, fields).end == Some(
                Ok::<_, SpotifyErrorView>(code),
            ),
            None => fields_outcome(expected, fields).end is None,
        },
        fields.error is None && fields.state != Some(expected) ==> fields_outcome(
            expected,
            fields,
        ).end is None,
{
}

/// Where Spotify asks for a pause in words that are no number, ten seconds are waited.
pub proof fn a_pause_is_ten_seconds_where_it_is_no_number(
    bytes: Seq<u8>,
    pause: Seq<char>,
    first: bool,
)
    requires
        parsed_u64(pause) is None,
    ensures
        call_answers(ReplyView::Answered { status: 429, body: Ok(bytes) }, Some(pause), first)
            == CalledView::Done(Err(SpotifyErrorView::RateLimited { retry_after: 10 })),
{
}

/// Where a parameter is given twice the last one counts, and where it is given by none of the
/// pairs it has no value.
pub proof fn the_last_parameter_counts(pairs: Seq<Seq<char>>, name: Seq<char>, at: int, n: int)
    requires
        -1 <= at < n <= pairs.len(),
        forall|i: int| at < i < n ==> pair_value(#[trigger] pairs[i], name) is None,
    ensures
        at >= 0 && pair_value(pairs[at], name) is Some ==> last_value(pairs, name, n) == pair_value(
            pairs[at],
            name,
        ),
        at == -1 ==> last_value(pairs, name, n) is None,
    decreases n,
{
    if at < n - 1 {
        assert(pair_value(pairs[n - 1], name) is None);
        the_last_parameter_counts(pairs, name, at, n - 1);
    }
}

/// The fields of a callback are its parameters of those names.
pub proof fn fields_are_parameters(query: Seq<char>)
    ensures
        ({
            let pairs = pairs_in(query);
            let n = pairs.len() as int;
            &&& fields_in(query).code == last_value(pairs, "code"@, n)
            &&& fields_in(query).state == last_value(pairs, "state"@, n)
            &&& fields_in(query).error == last_value(pairs, "error"@, n)
        }),
{
}

/// A request for another path is told that there is nothing, and one without parameters that it
/// failed. Neither ends the sign-in.
pub proof fn another_path_is_not_found(state: Seq<char>, path: Seq<char>, query: Seq<char>)
    requires
        !path.contains('?'),
    ensures
        path != "/callback"@ ==> target_outcome(state, path.push('?') + query).end is None
            && target_outcome(state, path.push('?') + query).shown == "Not found."@,
        path == "/callback"@ ==> target_outcome(state, path.push('?') + query) == fields_outcome(
            state,
            fields_in(query),
        ),
        target_outcome(state, path).end is None,
        target_outcome(state, path).shown == "Sign-in failed. You can close this tab."@,
{
    a_text_is_cut_at_the_first(path, '?', query);
}

/// What the browser shows says how the sign-in ended.
pub proof fn the_browser_shows_how_it_ended(expected: Seq<char>, fields: FieldsView)
    ensures
        fields.error is Some ==> fields_outcome(expected, fields).shown
            == "Sign-in was cancelled. You can close this tab."@,
        fields_outcome(expected, fields).end matches Some(Ok(_)) ==> fields_outcome(
            expected,
            fields,
        ).shown == "Signed in. You can close this tab."@,
        fields_outcome(expected, fields).end is None ==> fields_outcome(expected, fields).shown
            == "Sign-in failed. You can close this tab."@,
{
}

} // verus!
