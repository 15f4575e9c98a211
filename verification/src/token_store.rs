//! What is stored of a Spotify session, and under which conditions it is read back.
//!
//! Only a refresh token is stored, encrypted for the current Windows user.

use vstd::prelude::*;
use vstd::utf8::{encode_utf8, encode_utf8_decode_utf8};

use crate::text::same;

verus! {

/// An encrypted blob far larger than this is not something this app wrote.
pub const MAX_ENCRYPTED_BYTES: usize = 131_072;

pub const MAX_PAYLOAD_BYTES: usize = 65_536;

/// What is stored.
#[derive(Debug)]
pub struct StoredSession {
    pub client_id: String,
    pub refresh_token: String,
}

/// The bytes that an encrypted session is bound to, besides the Windows user.
pub open spec fn entropy_for(client_id: Seq<char>) -> Seq<u8> {
    encode_utf8("SpotifyOriginalLyrics:"@ + client_id)
}

/// The stored blob is bound to both the Windows user and the client id, so a different Spotify
/// app cannot reuse a cached token.
pub fn entropy_bytes(client_id: &str) -> (bytes: Vec<u8>)
    ensures
        bytes@ == entropy_for(client_id@),
{
    let mut text = "SpotifyOriginalLyrics:".to_owned();
    text.append(client_id);
    let encoded = text.as_str().as_bytes();
    let mut bytes: Vec<u8> = Vec::new();
    let mut i: usize = 0;
    while i < encoded.len()
        invariant
            i <= encoded@.len(),
            bytes@ == encoded@.take(i as int),
        decreases encoded@.len() - i,
    {
        bytes.push(encoded[i]);
        assert(encoded@.take(i + 1) =~= encoded@.take(i as int).push(encoded@[i as int]));
        i += 1;
    }
    assert(encoded@.take(i as int) =~= encoded@);
    bytes
}

/// Two client ids never bind a session to the same bytes.
pub proof fn each_client_id_has_its_own_entropy(a: Seq<char>, b: Seq<char>)
    requires
        entropy_for(a) == entropy_for(b),
    ensures
        a == b,
{
    let front = "SpotifyOriginalLyrics:"@;
    encode_utf8_decode_utf8(front + a);
    encode_utf8_decode_utf8(front + b);
    assert((front + a).skip(front.len() as int) =~= a);
    assert((front + b).skip(front.len() as int) =~= b);
}

/// Whether a stored blob of this many bytes is read at all.
pub fn is_encrypted_size(size: usize) -> (r: bool)
    ensures
        r == (0 < size <= MAX_ENCRYPTED_BYTES),
{
    size != 0 && size <= MAX_ENCRYPTED_BYTES
}

/// The refresh token in what was stored, for this client.
pub open spec fn usable_token(
    client_id: Seq<char>,
    stored: Option<(Seq<char>, Seq<char>)>,
) -> Option<Seq<char>> {
    match stored {
        Some((owner, token)) if owner == client_id && token.len() > 0 => Some(token),
        _ => None,
    }
}

/// What was stored, as a pair of client id and refresh token.
pub open spec fn stored_pair(stored: Option<StoredSession>) -> Option<(Seq<char>, Seq<char>)> {
    match stored {
        Some(session) => Some((session.client_id@, session.refresh_token@)),
        None => None,
    }
}

/// The refresh token in what was stored, `None` where nothing could be read. It is `None` too
/// where it is bound to another client id; every such case simply means "authorize again".
pub fn load_refresh_token(client_id: &str, stored: Option<StoredSession>) -> (token: Option<String>)
    ensures
        token.deep_view() == usable_token(client_id@, stored_pair(stored)),
{
    match stored {
        Some(session) => if same(session.client_id.as_str(), client_id)
            && !session.refresh_token.as_str().is_empty() {
            Some(session.refresh_token)
        } else {
            None
        },
        None => None,
    }
}

/// What to store, or why nothing is stored.
pub fn save_refresh_token(client_id: &str, token: &str) -> (session: Result<StoredSession, String>)
    ensures
        match session {
            Ok(session) => client_id@.len() > 0 && token@.len() > 0 && session.client_id@
                == client_id@ && session.refresh_token@ == token@,
            Err(error) => (client_id@.len() == 0 || token@.len() == 0) && error@
                == "Client ID and refresh token are required"@,
        },
{
    if client_id.is_empty() || token.is_empty() {
        return Err("Client ID and refresh token are required".to_owned());
    }
    Ok(StoredSession { client_id: client_id.to_owned(), refresh_token: token.to_owned() })
}

/// Whether the encoded session is small enough to be stored.
pub fn check_payload(size: usize) -> (checked: Result<(), String>)
    ensures
        match checked {
            Ok(()) => size <= MAX_PAYLOAD_BYTES,
            Err(error) => size > MAX_PAYLOAD_BYTES && error@ == "Session data is too large"@,
        },
{
    if size > MAX_PAYLOAD_BYTES {
        Err("Session data is too large".to_owned())
    } else {
        Ok(())
    }
}

/// What was stored for a client is read back for that client, and for no other.
pub proof fn a_session_is_read_back_for_its_client_only(
    client_id: Seq<char>,
    token: Seq<char>,
    reader: Seq<char>,
)
    requires
        token.len() > 0,
    ensures
        usable_token(reader, Some((client_id, token))) == if reader == client_id {
            Some(token)
        } else {
            None
        },
{
}

} // verus!
