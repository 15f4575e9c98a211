//! What the reader can set, and what is in force.

use vstd::prelude::*;

use crate::player::{
    label_of, nothing_playing, player_error_text, prefix_of, PlayerErrorView, PlayerKind,
};
use crate::settings::{
    default_settings, enabled_ids, has_id, kept, label_for, label_from, missing, normalized,
    order_of, plausible_id, settings_in_force, PROVIDERS, PreferenceView, SettingsView,
};
use crate::text::trim;

verus! {

// ---------------------------------------------------------------------------------- sources

/// There are five sources, each with its name.
pub proof fn there_are_five_sources(id: Seq<char>)
    ensures
        label_for("lrclib"@) == Some("LRCLIB"@),
        label_for("petitlyrics"@) == Some("PetitLyrics"@),
        label_for("musixmatch"@) == Some("Musixmatch"@),
        label_for("netease"@) == Some("NetEase"@),
        label_for("qqmusic"@) == Some("QQ Music"@),
        id != "lrclib"@ && id != "petitlyrics"@ && id != "musixmatch"@ && id != "netease"@ && id
            != "qqmusic"@ ==> label_for(id) is None,
{
    reveal_with_fuel(label_from, 6);
    reveal_strlit("lrclib");
    reveal_strlit("petitlyrics");
    reveal_strlit("musixmatch");
    reveal_strlit("netease");
    reveal_strlit("qqmusic");
    assert("lrclib"@.len() == 6 && "petitlyrics"@.len() == 11 && "musixmatch"@.len() == 10);
    assert("netease"@.len() == 7 && "netease"@[0] == 'n' && "qqmusic"@[0] == 'q');
}

/// Sources are asked in the order of their entries: an enabled one takes its turn, a disabled one
/// none.
pub proof fn enabled_sources_take_their_turn(
    before: Seq<PreferenceView>,
    entry: PreferenceView,
    after: Seq<PreferenceView>,
)
    ensures
        enabled_ids(Seq::empty()).len() == 0,
        enabled_ids(before.push(entry) + after) == enabled_ids(before) + (if entry.enabled {
            seq![entry.id]
        } else {
            Seq::empty()
        }) + enabled_ids(after),
    decreases after.len(),
{
    let all = before.push(entry) + after;
    if after.len() == 0 {
        assert(all =~= before.push(entry));
        assert(all.drop_last() =~= before);
        assert(enabled_ids(all) =~= enabled_ids(before) + (if entry.enabled {
            seq![entry.id]
        } else {
            Seq::empty()
        }) + enabled_ids(after));
    } else {
        assert(all.drop_last() =~= before.push(entry) + after.drop_last());
        assert(all.last() == after.last());
        enabled_sources_take_their_turn(before, entry, after.drop_last());
        assert(enabled_ids(all) =~= enabled_ids(before) + (if entry.enabled {
            seq![entry.id]
        } else {
            Seq::empty()
        }) + enabled_ids(after));
    }
}

/// The enabled sources alone are asked, as long as there is one.
pub proof fn the_order_is_that_of_the_enabled(
    before: Seq<PreferenceView>,
    entry: PreferenceView,
    after: Seq<PreferenceView>,
)
    requires
        entry.enabled,
    ensures
        order_of(before.push(entry) + after) == enabled_ids(before).push(entry.id) + enabled_ids(
            after,
        ),
{
    enabled_sources_take_their_turn(before, entry, after);
    assert(enabled_ids(before).push(entry.id) + enabled_ids(after) =~= enabled_ids(before) + seq![
        entry.id,
    ] + enabled_ids(after));
}

proof fn missing_are_enabled(sources: Seq<PreferenceView>, n: int, i: int)
    requires
        0 <= n,
        0 <= i < missing(sources, n).len(),
    ensures
        missing(sources, n)[i].enabled,
        !has_id(sources, missing(sources, n)[i].id),
    decreases n,
{
    if n > 0 && i < missing(sources, n - 1).len() {
        missing_are_enabled(sources, n - 1, i);
    }
}

/// A source without an entry gets one behind those that stay, and it is enabled.
pub proof fn a_source_without_an_entry_is_enabled(sources: Seq<PreferenceView>, i: int)
    requires
        kept(sources).len() <= i < normalized(sources).len(),
    ensures
        normalized(sources)[i].enabled,
        !has_id(kept(sources), normalized(sources)[i].id),
{
    missing_are_enabled(kept(sources), PROVIDERS@.len() as int, i - kept(sources).len());
}

/// A list without any entry becomes all five sources, enabled, in the default order.
pub proof fn an_empty_list_becomes_the_default_one()
    ensures
        ({
            let list = normalized(Seq::empty());
            &&& list.len() == 5
            &&& list[0] == PreferenceView { id: "lrclib"@, enabled: true }
            &&& list[1] == PreferenceView { id: "petitlyrics"@, enabled: true }
            &&& list[2] == PreferenceView { id: "musixmatch"@, enabled: true }
            &&& list[3] == PreferenceView { id: "netease"@, enabled: true }
            &&& list[4] == PreferenceView { id: "qqmusic"@, enabled: true }
        }),
{
    reveal_with_fuel(missing, 6);
}

// --------------------------------------------------------------------------------- settings

/// What a first run begins with.
pub proof fn a_first_run_begins_with_these()
    ensures
        ({
            let settings = settings_in_force(None);
            &&& settings.player == PlayerKind::Spotify
            &&& settings.client_id.len() == 0
            &&& settings.follow_lyrics
            &&& !settings.always_on_top
            &&& settings.theme.accent == "#1db954"@
            &&& settings.theme.active_line == "#f4f6f5"@
            &&& settings.theme.past_line == "#3e4040"@
            &&& default_settings().sources.len() == 5
            &&& forall|i: int| 0 <= i < 5 ==> (#[trigger] default_settings().sources[i]).enabled
        }),
{
}

/// Stored settings are in force as they are, with the Client ID trimmed and the list of sources
/// put right.
pub proof fn stored_settings_are_in_force(stored: SettingsView)
    ensures
        ({
            let settings = settings_in_force(Some(stored));
            &&& settings.player == stored.player
            &&& settings.theme == stored.theme
            &&& settings.follow_lyrics == stored.follow_lyrics
            &&& settings.always_on_top == stored.always_on_top
            &&& settings.client_id == trim(stored.client_id)
            &&& settings.sources == normalized(stored.sources)
        }),
{
}

/// A Client ID is one or more ASCII letters and digits, and nothing else.
pub proof fn a_client_id_is_letters_and_digits(before: Seq<char>, c: char, after: Seq<char>)
    ensures
        !plausible_id(Seq::empty()),
        ('0' <= c <= '9' || 'A' <= c <= 'Z' || 'a' <= c <= 'z') ==> plausible_id(seq![c]),
        !('0' <= c <= '9' || 'A' <= c <= 'Z' || 'a' <= c <= 'z') ==> !plausible_id(
            before.push(c) + after,
        ),
        plausible_id(before) && plausible_id(after) ==> plausible_id(before + after),
{
    let all = before.push(c) + after;
    assert(all[before.len() as int] == c);
    if plausible_id(before) && plausible_id(after) {
        let both = before + after;
        assert forall|i: int| 0 <= i < both.len() implies crate::text::ascii_alphanumeric(
            #[trigger] both[i],
        ) by {
            if i < before.len() {
                assert(both[i] == before[i]);
            } else {
                assert(both[i] == after[i - before.len()]);
            }
        }
    }
}

// ---------------------------------------------------------------------------------- players

/// The two players, by the names they are shown under and the marks of their keys.
pub proof fn players_have_their_names()
    ensures
        label_of(PlayerKind::Spotify) == "Spotify"@,
        label_of(PlayerKind::Ytmusic) == "YouTube Music"@,
        prefix_of(PlayerKind::Spotify) == "sp"@,
        prefix_of(PlayerKind::Ytmusic) == "ytm"@,
{
}

/// Where nothing plays, nothing is named, nothing moves and nothing is offered.
pub proof fn nothing_is_said_of_silence(source: PlayerKind)
    ensures
        ({
            let playback = nothing_playing(source);
            &&& playback.source == source
            &&& !playback.has_track
            &&& !playback.is_playing
            &&& playback.name.len() == 0
            &&& playback.track_id.len() == 0
            &&& playback.artists.len() == 0
            &&& playback.album.len() == 0
            &&& playback.album_art is None
            &&& playback.duration_ms == 0
            &&& playback.progress_ms is None
            &&& playback.device_name is None
            &&& !playback.can_skip_next
            &&& !playback.can_skip_previous
            &&& !playback.can_seek
        }),
{
}

/// An error that carries a text is told in that text.
pub proof fn an_error_is_told_in_its_own_words(text: Seq<char>, seconds: u64)
    ensures
        player_error_text(PlayerErrorView::Config(text)) == text,
        player_error_text(PlayerErrorView::Network(text)) == text,
        player_error_text(PlayerErrorView::Refused { message: text }) == text,
        player_error_text(PlayerErrorView::NeedsAuth) == "Authorization is required"@,
        player_error_text(PlayerErrorView::RateLimited { retry_after: seconds })
            == "Rate limited"@,
{
}

} // verus!
