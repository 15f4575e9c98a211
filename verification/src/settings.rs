//! Portable, user-editable configuration stored beside the executable.
//!
//! The Spotify Client ID lives here: it is typed in the settings panel, so a first run needs no
//! text editor. It is never compiled into the binary, so sharing a build does not share a
//! Spotify identity.

use vstd::prelude::*;

use crate::player::PlayerKind;
use crate::text::{ascii_alphanumeric, chars_of, same, trim, trim_is_idempotent, trim_text};

verus! {

pub const SETTINGS_FILE: &'static str = "settings.json";

/// Every lyrics source with its name, in the default lookup order.
///
/// LRCLIB is open and fastest. The Japanese-market sources come next because this player is used
/// on a Japan-region account, PetitLyrics ahead of Musixmatch because it answers reliably while
/// Musixmatch limits its callers. The Chinese sources stay last as the backstop.
pub const PROVIDERS: [(&'static str, &'static str); 5] = [
    ("lrclib", "LRCLIB"),
    ("petitlyrics", "PetitLyrics"),
    ("musixmatch", "Musixmatch"),
    ("netease", "NetEase"),
    ("qqmusic", "QQ Music"),
];

/// The name of the source with this id, looked for from one entry of the list on.
pub open spec fn label_from(id: Seq<char>, from: int) -> Option<Seq<char>>
    decreases PROVIDERS@.len() - from,
{
    if from < 0 || from >= PROVIDERS@.len() {
        None
    } else if PROVIDERS@[from].0@ == id {
        Some(PROVIDERS@[from].1@)
    } else {
        label_from(id, from + 1)
    }
}

/// The name of the source with this id.
pub open spec fn label_for(id: Seq<char>) -> Option<Seq<char>> {
    label_from(id, 0)
}

/// Whether this build has a source with this id.
pub open spec fn is_provider(id: Seq<char>) -> bool {
    label_for(id) is Some
}

/// The name of the source with this id.
pub fn provider_label(id: &str) -> (label: Option<&'static str>)
    ensures
        match label {
            Some(label) => label_for(id@) == Some(label@),
            None => label_for(id@) is None,
        },
{
    let mut i: usize = 0;
    while i < PROVIDERS.len()
        invariant
            i <= PROVIDERS@.len(),
            label_for(id@) == label_from(id@, i as int),
        decreases PROVIDERS@.len() - i,
    {
        if same(PROVIDERS[i].0, id) {
            return Some(PROVIDERS[i].1);
        }
        i += 1;
    }
    None
}

proof fn provider_ids_differ(i: int, j: int)
    requires
        0 <= i < j < PROVIDERS@.len(),
    ensures
        PROVIDERS@[i].0@ != PROVIDERS@[j].0@,
{
    reveal_strlit("lrclib");
    reveal_strlit("petitlyrics");
    reveal_strlit("musixmatch");
    reveal_strlit("netease");
    reveal_strlit("qqmusic");
    assert("lrclib"@[0] == 'l');
    assert("petitlyrics"@[0] == 'p');
    assert("musixmatch"@[0] == 'm');
    assert("netease"@[0] == 'n');
    assert("qqmusic"@[0] == 'q');
}

proof fn listed_ids_are_providers(i: int, from: int)
    requires
        0 <= from <= i < PROVIDERS@.len(),
    ensures
        label_from(PROVIDERS@[i].0@, from) is Some,
    decreases i - from,
{
    if PROVIDERS@[from].0@ != PROVIDERS@[i].0@ {
        listed_ids_are_providers(i, from + 1);
    }
}

/// Whatever has an id that this build knows is one of the listed sources.
pub proof fn providers_are_listed(id: Seq<char>, from: int) -> (i: int)
    requires
        0 <= from,
        label_from(id, from) is Some,
    ensures
        from <= i < PROVIDERS@.len(),
        PROVIDERS@[i].0@ == id,
    decreases PROVIDERS@.len() - from,
{
    if PROVIDERS@[from].0@ == id {
        from
    } else {
        providers_are_listed(id, from + 1)
    }
}

/// One entry of the global lookup order.
#[derive(Debug, Clone, PartialEq, Eq)]
pub struct SourcePreference {
    pub id: String,
    pub enabled: bool,
}

/// What a [`SourcePreference`] says.
pub ghost struct PreferenceView {
    pub id: Seq<char>,
    pub enabled: bool,
}

impl View for SourcePreference {
    type V = PreferenceView;

    open spec fn view(&self) -> PreferenceView {
        PreferenceView { id: self.id@, enabled: self.enabled }
    }
}

impl DeepView for SourcePreference {
    type V = PreferenceView;

    open spec fn deep_view(&self) -> PreferenceView {
        self@
    }
}

impl SourcePreference {
    /// The same entry once more.
    pub fn copy(&self) -> (entry: Self)
        ensures
            entry@ == self@,
    {
        SourcePreference { id: self.id.clone(), enabled: self.enabled }
    }
}

/// Colours the reader can change. Stored as CSS colour strings and handed to the interface
/// untouched, which keeps the palette in one place.
#[derive(Debug, Clone, PartialEq, Eq)]
pub struct Theme {
    /// Controls: the follow toggle, the scrubber, the synced badge.
    pub accent: String,
    /// The lyric line currently being sung.
    pub active_line: String,
    /// Lines already sung.
    pub past_line: String,
}

/// What a [`Theme`] says.
pub ghost struct ThemeView {
    pub accent: Seq<char>,
    pub active_line: Seq<char>,
    pub past_line: Seq<char>,
}

impl View for Theme {
    type V = ThemeView;

    open spec fn view(&self) -> ThemeView {
        ThemeView {
            accent: self.accent@,
            active_line: self.active_line@,
            past_line: self.past_line@,
        }
    }
}

/// The colours of a first run.
pub open spec fn default_theme() -> ThemeView {
    ThemeView { accent: "#1db954"@, active_line: "#f4f6f5"@, past_line: "#3e4040"@ }
}

impl Default for Theme {
    fn default() -> (theme: Self)
        ensures
            theme@ == default_theme(),
    {
        Theme {
            accent: "#1db954".to_owned(),
            active_line: "#f4f6f5".to_owned(),
            past_line: "#3e4040".to_owned(),
        }
    }
}

/// Everything the reader can set.
#[derive(Debug, Clone, PartialEq, Eq)]
pub struct Settings {
    /// Which player the app follows.
    pub player: PlayerKind,
    /// Spotify Client ID. Empty until the reader fills it in.
    pub client_id: String,
    pub sources: Vec<SourcePreference>,
    pub theme: Theme,
    /// Auto-scroll the lyrics to the current line.
    pub follow_lyrics: bool,
    /// Keep the window above every other window.
    ///
    /// Stored rather than reset each launch: a reader who pins the lyrics over a game or a
    /// video wants them pinned the next time too.
    pub always_on_top: bool,
}

/// What a [`Settings`] says.
pub ghost struct SettingsView {
    pub player: PlayerKind,
    pub client_id: Seq<char>,
    pub sources: Seq<PreferenceView>,
    pub theme: ThemeView,
    pub follow_lyrics: bool,
    pub always_on_top: bool,
}

impl View for Settings {
    type V = SettingsView;

    open spec fn view(&self) -> SettingsView {
        SettingsView {
            player: self.player,
            client_id: self.client_id@,
            sources: self.sources.deep_view(),
            theme: self.theme@,
            follow_lyrics: self.follow_lyrics,
            always_on_top: self.always_on_top,
        }
    }
}

/// Every source, enabled, in the default order.
pub open spec fn default_sources() -> Seq<PreferenceView> {
    Seq::new(
        PROVIDERS@.len(),
        |i: int| PreferenceView { id: PROVIDERS@[i].0@, enabled: true },
    )
}

/// The settings of a first run.
pub open spec fn default_settings() -> SettingsView {
    SettingsView {
        player: PlayerKind::Spotify,
        client_id: Seq::empty(),
        sources: default_sources(),
        theme: default_theme(),
        follow_lyrics: true,
        always_on_top: false,
    }
}

impl Default for Settings {
    fn default() -> (settings: Self)
        ensures
            settings@ == default_settings(),
    {
        let mut sources: Vec<SourcePreference> = Vec::new();
        let mut i: usize = 0;
        while i < PROVIDERS.len()
            invariant
                i <= PROVIDERS@.len(),
                sources@.len() == i,
                forall|j: int| 0 <= j < i ==> (#[trigger] sources@[j])@ == default_sources()[j],
            decreases PROVIDERS@.len() - i,
        {
            sources.push(SourcePreference { id: PROVIDERS[i].0.to_owned(), enabled: true });
            i += 1;
        }
        assert(sources.deep_view() =~= default_sources());
        Settings {
            player: PlayerKind::Spotify,
            client_id: String::new(),
            sources,
            theme: Theme::default(),
            follow_lyrics: true,
            always_on_top: false,
        }
    }
}

/// Whether an entry has this id.
pub open spec fn has_id(sources: Seq<PreferenceView>, id: Seq<char>) -> bool {
    exists|i: int| 0 <= i < sources.len() && (#[trigger] sources[i]).id == id
}

/// The entries that stay: those of known sources, each where it stands first.
pub open spec fn kept(sources: Seq<PreferenceView>) -> Seq<PreferenceView>
    decreases sources.len(),
{
    if sources.len() == 0 {
        Seq::empty()
    } else {
        let before = kept(sources.drop_last());
        let entry = sources.last();
        if is_provider(entry.id) && !has_id(before, entry.id) {
            before.push(entry)
        } else {
            before
        }
    }
}

/// An enabled entry for each of the first `n` sources that is not among these.
pub open spec fn missing(sources: Seq<PreferenceView>, n: int) -> Seq<PreferenceView>
    decreases n,
{
    if n <= 0 {
        Seq::empty()
    } else {
        let before = missing(sources, n - 1);
        let id = PROVIDERS@[n - 1].0@;
        if has_id(sources, id) {
            before
        } else {
            before.push(PreferenceView { id, enabled: true })
        }
    }
}

/// The entries that stay, then the sources that had none.
pub open spec fn normalized(sources: Seq<PreferenceView>) -> Seq<PreferenceView> {
    kept(sources) + missing(kept(sources), PROVIDERS@.len() as int)
}

fn list_has_id(sources: &[SourcePreference], id: &str) -> (r: bool)
    ensures
        r == has_id(sources.deep_view(), id@),
{
    let mut i: usize = 0;
    while i < sources.len()
        invariant
            i <= sources@.len(),
            forall|j: int| 0 <= j < i ==> (#[trigger] sources.deep_view()[j]).id != id@,
        decreases sources@.len() - i,
    {
        assert(sources.deep_view()[i as int] == sources@[i as int]@);
        if same(sources[i].id.as_str(), id) {
            return true;
        }
        i += 1;
    }
    false
}

fn keep_known(sources: &[SourcePreference]) -> (list: Vec<SourcePreference>)
    ensures
        list.deep_view() == kept(sources.deep_view()),
{
    let ghost views = sources.deep_view();
    let mut list: Vec<SourcePreference> = Vec::new();
    let mut i: usize = 0;
    assert(list.deep_view() =~= kept(views.take(0)));
    while i < sources.len()
        invariant
            i <= sources@.len(),
            views == sources.deep_view(),
            list.deep_view() == kept(views.take(i as int)),
        decreases sources@.len() - i,
    {
        let ghost before = list.deep_view();
        assert(views.take(i + 1).drop_last() =~= views.take(i as int));
        assert(views.take(i + 1).last() == sources@[i as int]@);
        if provider_label(sources[i].id.as_str()).is_some()
            && !list_has_id(&list, sources[i].id.as_str()) {
            list.push(sources[i].copy());
            assert(list.deep_view() =~= before.push(sources@[i as int]@));
        }
        i += 1;
    }
    assert(views.take(i as int) =~= views);
    list
}

fn add_missing(list: &mut Vec<SourcePreference>)
    ensures
        final(list).deep_view() == old(list).deep_view() + missing(
            old(list).deep_view(),
            PROVIDERS@.len() as int,
        ),
{
    let ghost start = list.deep_view();
    let count = list.len();
    let mut i: usize = 0;
    assert(list.deep_view() =~= start + missing(start, 0));
    while i < PROVIDERS.len()
        invariant
            i <= PROVIDERS@.len(),
            count == start.len(),
            list.deep_view() == start + missing(start, i as int),
        decreases PROVIDERS@.len() - i,
    {
        let id = PROVIDERS[i].0;
        let ghost before = list.deep_view();
        assert(list@.len() == list.deep_view().len());
        let stored = vstd::slice::slice_subrange(list.as_slice(), 0, count);
        assert(stored.deep_view() =~= start) by {
            assert forall|j: int| 0 <= j < count implies #[trigger] stored.deep_view()[j]
                == start[j] by {
                assert(list.deep_view()[j] == list@[j]@);
            }
        }
        if !list_has_id(stored, id) {
            let entry = SourcePreference { id: id.to_owned(), enabled: true };
            list.push(entry);
            assert(list.deep_view() =~= before.push(entry@));
            assert(list.deep_view() =~= start + missing(start, i + 1));
        }
        i += 1;
    }
}

/// The ids of the enabled entries.
pub open spec fn enabled_ids(sources: Seq<PreferenceView>) -> Seq<Seq<char>>
    decreases sources.len(),
{
    if sources.len() == 0 {
        Seq::empty()
    } else if sources.last().enabled {
        enabled_ids(sources.drop_last()).push(sources.last().id)
    } else {
        enabled_ids(sources.drop_last())
    }
}

/// The order in which sources are asked: the enabled ones, or all where none is.
pub open spec fn order_of(sources: Seq<PreferenceView>) -> Seq<Seq<char>> {
    if enabled_ids(sources).len() == 0 {
        Seq::new(sources.len(), |i: int| sources[i].id)
    } else {
        enabled_ids(sources)
    }
}

impl Settings {
    /// Drop sources this build does not have, drop duplicates, and append any source the stored
    /// file predates, so a settings file written by an older or newer build never silently
    /// hides a provider or resurrects a dead one.
    pub fn normalize(&mut self)
        ensures
            final(self)@ == (SettingsView {
                sources: normalized(old(self)@.sources),
                client_id: trim(old(self)@.client_id),
                ..old(self)@
            }),
    {
        let mut list = keep_known(&self.sources);
        add_missing(&mut list);
        self.sources = list;
        self.client_id = trim_text(self.client_id.as_str());
    }

    /// The lookup order actually used: enabled sources, in the stored order.
    ///
    /// All-disabled is treated as "no preference expressed" rather than "never look anything
    /// up", because a settings file that silently stops all lyrics is worse than one that
    /// ignores an unusable choice.
    pub fn lookup_order(&self) -> (order: Vec<String>)
        ensures
            order.deep_view() == order_of(self@.sources),
    {
        let ghost views = self@.sources;
        let mut all: Vec<String> = Vec::new();
        let mut enabled: Vec<String> = Vec::new();
        let mut i: usize = 0;
        assert(enabled.deep_view() =~= enabled_ids(views.take(0)));
        while i < self.sources.len()
            invariant
                i <= self.sources@.len(),
                views == self.sources.deep_view(),
                all@.len() == i,
                forall|j: int| 0 <= j < i ==> (#[trigger] all@[j])@ == views[j].id,
                enabled.deep_view() == enabled_ids(views.take(i as int)),
            decreases self.sources@.len() - i,
        {
            let ghost before = enabled.deep_view();
            assert(views.take(i + 1).drop_last() =~= views.take(i as int));
            assert(views.take(i + 1).last() == self.sources@[i as int]@);
            all.push(self.sources[i].id.clone());
            if self.sources[i].enabled {
                enabled.push(self.sources[i].id.clone());
                assert(enabled.deep_view() =~= before.push(self.sources@[i as int].id@));
            }
            i += 1;
        }
        assert(views.take(i as int) =~= views);
        assert(enabled@.len() == enabled.deep_view().len());
        if enabled.len() == 0 {
            assert(all.deep_view() =~= order_of(views));
            all
        } else {
            enabled
        }
    }
}

/// Whether two lists have the same entries.
pub fn same_sources(a: &[SourcePreference], b: &[SourcePreference]) -> (r: bool)
    ensures
        r == (a.deep_view() == b.deep_view()),
{
    assert(a.deep_view().len() == a@.len() && b.deep_view().len() == b@.len());
    if a.len() != b.len() {
        return false;
    }
    let mut i: usize = 0;
    while i < a.len()
        invariant
            i <= a@.len(),
            a@.len() == b@.len(),
            forall|j: int| 0 <= j < i ==> #[trigger] a.deep_view()[j] == b.deep_view()[j],
        decreases a@.len() - i,
    {
        assert(a.deep_view()[i as int] == a@[i as int]@);
        assert(b.deep_view()[i as int] == b@[i as int]@);
        if a[i].enabled != b[i].enabled || !same(a[i].id.as_str(), b[i].id.as_str()) {
            return false;
        }
        i += 1;
    }
    assert(a.deep_view() =~= b.deep_view());
    true
}

/// The settings in force, given what the stored file was read as.
pub open spec fn settings_in_force(stored: Option<SettingsView>) -> SettingsView {
    let settings = match stored {
        Some(settings) => settings,
        None => default_settings(),
    };
    SettingsView {
        sources: normalized(settings.sources),
        client_id: trim(settings.client_id),
        ..settings
    }
}

/// The settings in force, given what the stored file was read as.
///
/// A missing file is the normal first run. A corrupt one is also answered with defaults rather
/// than a failure: losing a colour choice is recoverable, being unable to open the app to fix it
/// is not.
pub fn load(stored: Option<Settings>) -> (settings: Settings)
    ensures
        settings@ == settings_in_force(
            match stored {
                Some(stored) => Some(stored@),
                None => None,
            },
        ),
{
    let mut settings = match stored {
        Some(stored) => stored,
        None => Settings::default(),
    };
    settings.normalize();
    settings
}

/// Whether a text can be a Client ID.
pub open spec fn plausible_id(id: Seq<char>) -> bool {
    id.len() > 0 && forall|i: int| 0 <= i < id.len() ==> ascii_alphanumeric(#[trigger] id[i])
}

/// A Client ID is 32 lowercase hex characters today, but Spotify documents no format, so this
/// only rejects what certainly is not one: empty, or carrying characters no identifier uses. A
/// wrong-but-plausible value is Spotify's to refuse, with its own wording.
pub fn validate_client_id(value: &str) -> (id: Result<String, String>)
    ensures
        match id {
            Ok(id) => plausible_id(trim(value@)) && id@ == trim(value@),
            Err(error) => !plausible_id(trim(value@)) && error@ == if trim(value@).len() == 0 {
                "Enter your Spotify Client ID in Settings."@
            } else {
                "The Client ID should be letters and digits only. Use the Client ID, not the client secret."@
            },
        },
{
    let id = trim_text(value);
    let chars = chars_of(id.as_str());
    if chars.len() == 0 {
        return Err("Enter your Spotify Client ID in Settings.".to_owned());
    }
    let mut i: usize = 0;
    while i < chars.len()
        invariant
            i <= chars@.len(),
            chars@ == trim(value@),
            chars@.len() > 0,
            forall|j: int| 0 <= j < i ==> ascii_alphanumeric(#[trigger] chars@[j]),
        decreases chars@.len() - i,
    {
        let c = chars[i];
        if !(('0' <= c && c <= '9') || ('A' <= c && c <= 'Z') || ('a' <= c && c <= 'z')) {
            assert(!ascii_alphanumeric(trim(value@)[i as int]));
            return Err(
                "The Client ID should be letters and digits only. Use the Client ID, not the client secret.".to_owned(),
            );
        }
        i += 1;
    }
    Ok(id)
}

// ----------------------------------------------------------------------------- laws

/// Whether no two entries have the same id.
pub open spec fn all_differ(sources: Seq<PreferenceView>) -> bool {
    forall|i: int, j: int|
        0 <= i < j < sources.len() ==> (#[trigger] sources[i]).id != (#[trigger] sources[j]).id
}

/// Whether every entry is of a source that this build has.
pub open spec fn all_known(sources: Seq<PreferenceView>) -> bool {
    forall|i: int| 0 <= i < sources.len() ==> is_provider((#[trigger] sources[i]).id)
}

/// Whether every source that this build has is among the entries.
pub open spec fn all_present(sources: Seq<PreferenceView>) -> bool {
    forall|i: int|
        0 <= i < PROVIDERS@.len() ==> has_id(sources, (#[trigger] PROVIDERS@[i]).0@)
}

proof fn kept_are_known_and_differ(sources: Seq<PreferenceView>)
    ensures
        all_known(kept(sources)),
        all_differ(kept(sources)),
    decreases sources.len(),
{
    if sources.len() > 0 {
        kept_are_known_and_differ(sources.drop_last());
    }
}

proof fn missing_are_listed(sources: Seq<PreferenceView>, n: int)
    requires
        0 <= n <= PROVIDERS@.len(),
    ensures
        forall|j: int|
            0 <= j < missing(sources, n).len() ==> exists|i: int|
                0 <= i < n && (#[trigger] PROVIDERS@[i]).0@ == (#[trigger] missing(
                    sources,
                    n,
                )[j]).id,
        forall|j: int|
            0 <= j < missing(sources, n).len() ==> !has_id(
                sources,
                (#[trigger] missing(sources, n)[j]).id,
            ),
        all_known(missing(sources, n)),
        all_differ(missing(sources, n)),
        forall|i: int|
            0 <= i < n ==> has_id(sources, (#[trigger] PROVIDERS@[i]).0@) || has_id(
                missing(sources, n),
                PROVIDERS@[i].0@,
            ),
    decreases n,
{
    if n > 0 {
        missing_are_listed(sources, n - 1);
        let before = missing(sources, n - 1);
        let list = missing(sources, n);
        let id = PROVIDERS@[n - 1].0@;
        listed_ids_are_providers(n - 1, 0);
        if !has_id(sources, id) {
            assert forall|j: int| 0 <= j < before.len() implies (#[trigger] list[j]).id != id by {
                assert(list[j] == before[j]);
                let i = choose|i: int| 0 <= i < n - 1 && (#[trigger] PROVIDERS@[i]).0@ == before[j].id;
                provider_ids_differ(i, n - 1);
            }
            assert(list[before.len() as int].id == id);
            assert forall|i: int| 0 <= i < n implies has_id(sources, (#[trigger] PROVIDERS@[i]).0@)
                || has_id(list, PROVIDERS@[i].0@) by {
                if i < n - 1 && !has_id(sources, PROVIDERS@[i].0@) {
                    let j = choose|j: int|
                        0 <= j < before.len() && (#[trigger] before[j]).id == PROVIDERS@[i].0@;
                    assert(list[j] == before[j]);
                }
            }
            assert forall|j: int| 0 <= j < list.len() implies exists|i: int|
                0 <= i < n && (#[trigger] PROVIDERS@[i]).0@ == (#[trigger] list[j]).id by {
                if j < before.len() {
                    assert(list[j] == before[j]);
                    let i = choose|i: int|
                        0 <= i < n - 1 && (#[trigger] PROVIDERS@[i]).0@ == before[j].id;
                    assert(PROVIDERS@[i].0@ == list[j].id);
                } else {
                    assert(PROVIDERS@[n - 1].0@ == list[j].id);
                }
            }
        }
    }
}

proof fn ids_are_a_set(sources: Seq<PreferenceView>)
    requires
        all_differ(sources),
        all_known(sources),
        all_present(sources),
    ensures
        sources.len() == PROVIDERS@.len(),
{
    let ids = Seq::new(sources.len(), |i: int| sources[i].id);
    let listed = Seq::new(PROVIDERS@.len(), |i: int| PROVIDERS@[i].0@);
    assert(ids.no_duplicates());
    assert(listed.no_duplicates()) by {
        assert forall|i: int, j: int| 0 <= i < listed.len() && 0 <= j < listed.len() && i != j implies listed[i]
            != listed[j] by {
            if i < j {
                provider_ids_differ(i, j);
            } else {
                provider_ids_differ(j, i);
            }
        }
    }
    assert(ids.to_set() =~= listed.to_set()) by {
        assert forall|id: Seq<char>| ids.to_set().contains(id) implies listed.to_set().contains(
            id,
        ) by {
            let k = choose|k: int| 0 <= k < ids.len() && ids[k] == id;
            assert(is_provider(sources[k].id));
            let i = providers_are_listed(id, 0);
            assert(listed[i] == id);
        }
        assert forall|id: Seq<char>| listed.to_set().contains(id) implies ids.to_set().contains(
            id,
        ) by {
            let i = choose|i: int| 0 <= i < listed.len() && listed[i] == id;
            assert(has_id(sources, PROVIDERS@[i].0@));
            let k = choose|k: int| 0 <= k < sources.len() && (#[trigger] sources[k]).id == id;
            assert(ids[k] == id);
        }
    }
    ids.unique_seq_to_set();
    listed.unique_seq_to_set();
}

/// After normalizing, every source that this build has is there exactly once, and no other.
pub proof fn normalizing_lists_every_source_once(sources: Seq<PreferenceView>)
    ensures
        all_present(normalized(sources)),
        all_known(normalized(sources)),
        all_differ(normalized(sources)),
        normalized(sources).len() == PROVIDERS@.len(),
{
    let front = kept(sources);
    let back = missing(front, PROVIDERS@.len() as int);
    let list = normalized(sources);
    kept_are_known_and_differ(sources);
    missing_are_listed(front, PROVIDERS@.len() as int);
    assert forall|i: int, j: int| 0 <= i < j < list.len() implies (#[trigger] list[i]).id != (
    #[trigger] list[j]).id by {
        if j < front.len() {
            assert(list[i] == front[i] && list[j] == front[j]);
        } else if i < front.len() {
            assert(list[i] == front[i] && list[j] == back[j - front.len()]);
            assert(!has_id(front, back[j - front.len()].id));
        } else {
            assert(list[i] == back[i - front.len()] && list[j] == back[j - front.len()]);
        }
    }
    assert forall|i: int| 0 <= i < PROVIDERS@.len() implies has_id(
        list,
        (#[trigger] PROVIDERS@[i]).0@,
    ) by {
        let id = PROVIDERS@[i].0@;
        if has_id(front, id) {
            let k = choose|k: int| 0 <= k < front.len() && (#[trigger] front[k]).id == id;
            assert(list[k] == front[k]);
        } else {
            let k = choose|k: int| 0 <= k < back.len() && (#[trigger] back[k]).id == id;
            assert(list[front.len() + k] == back[k]);
        }
    }
    assert(all_known(list)) by {
        assert forall|i: int| 0 <= i < list.len() implies is_provider((#[trigger] list[i]).id) by {
            if i < front.len() {
                assert(list[i] == front[i]);
            } else {
                assert(list[i] == back[i - front.len()]);
            }
        }
    }
    ids_are_a_set(list);
}

proof fn good_lists_are_kept(sources: Seq<PreferenceView>)
    requires
        all_known(sources),
        all_differ(sources),
    ensures
        kept(sources) == sources,
    decreases sources.len(),
{
    if sources.len() > 0 {
        let front = sources.drop_last();
        assert(all_known(front)) by {
            assert forall|i: int| 0 <= i < front.len() implies is_provider(
                (#[trigger] front[i]).id,
            ) by {
                assert(front[i] == sources[i]);
            }
        }
        good_lists_are_kept(front);
        assert(is_provider(sources[sources.len() - 1].id));
        assert(!has_id(front, sources.last().id)) by {
            assert forall|i: int| 0 <= i < front.len() implies (#[trigger] front[i]).id
                != sources.last().id by {
                assert(sources[i].id != sources[sources.len() - 1].id);
            }
        }
        assert(kept(sources) =~= sources);
    }
}

proof fn nothing_is_missing(sources: Seq<PreferenceView>, n: int)
    requires
        all_present(sources),
        0 <= n <= PROVIDERS@.len(),
    ensures
        missing(sources, n).len() == 0,
    decreases n,
{
    if n > 0 {
        nothing_is_missing(sources, n - 1);
        assert(has_id(sources, PROVIDERS@[n - 1].0@));
    }
}

/// Normalizing what was normalized changes nothing.
pub proof fn normalizing_is_idempotent(sources: Seq<PreferenceView>, client_id: Seq<char>)
    ensures
        normalized(normalized(sources)) == normalized(sources),
        trim(trim(client_id)) == trim(client_id),
{
    let list = normalized(sources);
    normalizing_lists_every_source_once(sources);
    good_lists_are_kept(list);
    nothing_is_missing(list, PROVIDERS@.len() as int);
    assert(normalized(list) =~= list);
    trim_is_idempotent(client_id);
}

/// Whether no earlier entry has the id of this one.
pub open spec fn stands_first(sources: Seq<PreferenceView>, at: int) -> bool {
    0 <= at < sources.len() && forall|i: int|
        0 <= i < at ==> (#[trigger] sources[i]).id != sources[at].id
}

/// Whether an entry is the one at this place, and the first with its id.
pub open spec fn comes_from(sources: Seq<PreferenceView>, at: int, entry: PreferenceView) -> bool {
    stands_first(sources, at) && sources[at] == entry
}

proof fn first_known_entries_are_kept(sources: Seq<PreferenceView>, at: int)
    requires
        0 <= at < sources.len(),
        is_provider(sources[at].id),
    ensures
        has_id(kept(sources), sources[at].id),
    decreases sources.len(),
{
    let front = sources.drop_last();
    let before = kept(front);
    if at < front.len() {
        first_known_entries_are_kept(front, at);
        let k = choose|k: int| 0 <= k < before.len() && (#[trigger] before[k]).id == sources[at].id;
        assert(kept(sources)[k] == before[k]);
    } else if !has_id(before, sources[at].id) {
        assert(kept(sources)[before.len() as int].id == sources[at].id);
    }
}

proof fn kept_come_from(sources: Seq<PreferenceView>, j: int) -> (at: int)
    requires
        0 <= j < kept(sources).len(),
    ensures
        comes_from(sources, at, kept(sources)[j]),
    decreases sources.len(),
{
    let front = sources.drop_last();
    let before = kept(front);
    if j < before.len() {
        assert(kept(sources)[j] == before[j]);
        let at = kept_come_from(front, j);
        assert forall|i: int| 0 <= i < at implies (#[trigger] sources[i]).id != sources[at].id by {
            assert(front[i].id != front[at].id);
        }
        at
    } else {
        let at = sources.len() - 1;
        assert forall|i: int| 0 <= i < at implies (#[trigger] sources[i]).id != sources[at].id by {
            if sources[i].id == sources[at].id {
                assert(front[i] == sources[i]);
                first_known_entries_are_kept(front, i);
            }
        }
        at
    }
}

/// The stored order and the stored flags are kept: what stays of the stored entries stands at
/// the front, each entry as it stood first in the file, in the order of the file.
pub proof fn normalizing_keeps_order_and_flags(sources: Seq<PreferenceView>, j: int, k: int)
    requires
        0 <= j < k < kept(sources).len(),
    ensures
        normalized(sources)[j] == kept(sources)[j],
        normalized(sources)[k] == kept(sources)[k],
        exists|a: int, b: int|
            #[trigger] comes_from(sources, a, kept(sources)[j]) && #[trigger] comes_from(
                sources,
                b,
                kept(sources)[k],
            ) && a < b,
    decreases sources.len(),
{
    let front = sources.drop_last();
    let before = kept(front);
    let a = kept_come_from(sources, j);
    let b = kept_come_from(sources, k);
    assert(comes_from(sources, a, kept(sources)[j]) && comes_from(sources, b, kept(sources)[k]));
    kept_are_known_and_differ(sources);
    assert(kept(sources)[j].id != kept(sources)[k].id);
    if k < before.len() {
        normalizing_keeps_order_and_flags(front, j, k);
        let (c, d) = choose|c: int, d: int|
            #[trigger] comes_from(front, c, before[j]) && #[trigger] comes_from(front, d, before[k])
                && c < d;
        assert(sources[c] == kept(sources)[j] && sources[d] == kept(sources)[k]);
        if a < c {
            assert(front[a].id != front[c].id);
        }
        if c < a {
            assert(sources[c].id != sources[a].id);
        }
        if b < d {
            assert(front[b].id != front[d].id);
        }
        if d < b {
            assert(sources[d].id != sources[b].id);
        }
    } else {
        assert(kept(sources)[j] == before[j]);
        let c = kept_come_from(front, j);
        assert(sources[c] == kept(sources)[j]);
        if a > c {
            assert(sources[c].id != sources[a].id);
        }
        assert(b == sources.len() - 1) by {
            if b < sources.len() - 1 {
                assert(front[b] == sources[b]);
                first_known_entries_are_kept(front, b);
            }
        }
    }
}

/// There is always a source to ask, as long as any is listed.
pub proof fn disabling_everything_disables_nothing(sources: Seq<PreferenceView>)
    ensures
        sources.len() > 0 ==> order_of(sources).len() > 0,
        (forall|i: int| 0 <= i < sources.len() ==> !(#[trigger] sources[i]).enabled) ==> order_of(
            sources,
        ) == Seq::new(sources.len(), |i: int| sources[i].id),
{
    if forall|i: int| 0 <= i < sources.len() ==> !(#[trigger] sources[i]).enabled {
        none_enabled(sources);
    }
}

proof fn none_enabled(sources: Seq<PreferenceView>)
    requires
        forall|i: int| 0 <= i < sources.len() ==> !(#[trigger] sources[i]).enabled,
    ensures
        enabled_ids(sources).len() == 0,
    decreases sources.len(),
{
    if sources.len() > 0 {
        assert(!sources[sources.len() - 1].enabled);
        assert forall|i: int| 0 <= i < sources.drop_last().len() implies !(
        #[trigger] sources.drop_last()[i]).enabled by {
            assert(!sources[i].enabled);
        }
        none_enabled(sources.drop_last());
    }
}

} // verus!
