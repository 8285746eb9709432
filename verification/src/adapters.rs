//! The canonical decoded probe response and its parts, together with the
//! trusted byte-to-text encodings the engine applies to them.

use vstd::prelude::*;

verus! {

/// A canonical decoded ping response returned from a probed server.
/// Produced once per successful probe and never mutated afterwards.
pub struct CCheckResponse {
    /// The version name reported by the server.
    pub version: String,
    /// The protocol number reported by the server.
    pub protocol: i32,
    /// The maximum number of connected players.
    pub max_players: usize,
    /// The number of players currently connected.
    pub online_players: usize,
    /// A sample of the connected players; may be absent even when players
    /// are connected.
    pub sample: Option<Vec<CCheckPlayer>>,
    /// The rich-text description of the server.
    pub description: CCheckChat,
    /// The favicon as an opaque binary blob, when the server sent one.
    pub favicon: Option<Vec<u8>>,
}

/// One sampled connected player: a display name and an opaque id.
pub struct CCheckPlayer {
    pub name: String,
    pub id: String,
}

/// A rich-text chat component: text and style flags, with child components
/// that inherit unset style from their parent.
pub struct CCheckChat {
    pub text: String,
    pub bold: bool,
    pub italic: bool,
    pub underlined: bool,
    pub strikethrough: bool,
    pub obfuscated: bool,
    /// The color of the text; absent to use the default color.
    pub color: Option<String>,
    /// The child components following this one.
    pub extra: Vec<CCheckChat>,
}

/// Why a single probe attempt produced no response. Always non-fatal: the
/// target is discarded for the current attempt only.
#[derive(Clone, Copy, Debug, PartialEq, Eq, Structural)]
pub enum ProbeError {
    ConnectFailed,
    TimedOut,
    ProtocolError,
}

/// The sampled player list of `r`, empty when none was reported.
pub open spec fn sample_players(r: CCheckResponse) -> Seq<CCheckPlayer> {
    match r.sample {
        Option::Some(ps) => ps@,
        Option::None => Seq::empty(),
    }
}

/// The favicon bytes of `r`, empty when none was sent.
pub open spec fn favicon_bytes(r: CCheckResponse) -> Seq<u8> {
    match r.favicon {
        Option::Some(bs) => bs@,
        Option::None => Seq::empty(),
    }
}

/// The standard-alphabet base64 rendering of `bytes`: a fixed function of
/// the bytes alone, left unspecified here.
pub uninterp spec fn base64_of(bytes: Seq<u8>) -> Seq<char>;

/// Relies on base64::encode: the standard-alphabet encoding of the input
/// bytes, a function of the bytes alone.
#[verifier::external_body]
pub(crate) fn base64_encode(bytes: &[u8]) -> (s: String)
    ensures
        s@ == base64_of(bytes@),
{
    base64::encode(bytes)
}

} // verus!
