use vstd::prelude::*;

use crate::events::InstanceId;
use crate::instance::InstanceConfig;

verus! {

/// Whether `text` is a JSON document.
pub uninterp spec fn json_parses(text: Seq<char>) -> bool;

/// The string that the top-level object of the JSON document `text` holds
/// under `key`, if it is an object that holds a string there.
pub uninterp spec fn json_str_at(text: Seq<char>, key: Seq<char>) -> Option<Seq<char>>;

/// The non-negative integer that the top-level object of `text` holds under
/// `key`, if it holds one there that fits in 64 bits.
pub uninterp spec fn json_u64_at(text: Seq<char>, key: Seq<char>) -> Option<u64>;

/// The boolean that the top-level object of `text` holds under `key`.
pub uninterp spec fn json_bool_at(text: Seq<char>, key: Seq<char>) -> Option<bool>;

/// The 128-bit value of the UUID that `text` spells, if it spells one.
pub uninterp spec fn uuid_value(text: Seq<char>) -> Option<u128>;

/// Relies on serde_json's `from_str` into a `Value`: whether the text parses.
#[verifier::external_body]
fn is_json(text: &str) -> (r: bool)
    ensures
        r == json_parses(text@),
{
    serde_json::from_str::<serde_json::Value>(text).is_ok()
}

/// Relies on serde_json's `from_str` into a `Value`, then `Value::get` and
/// `Value::as_str`: the string held under `key`.
#[verifier::external_body]
fn str_at(text: &str, key: &str) -> (r: Option<String>)
    ensures
        r is None <==> json_str_at(text@, key@) is None,
        r matches Some(s) ==> json_str_at(text@, key@) == Some(s@),
{
    let v = serde_json::from_str::<serde_json::Value>(text).ok()?;
    v.get(key)?.as_str().map(String::from)
}

/// Relies on serde_json's `from_str` into a `Value`, then `Value::get` and
/// `Value::as_u64`: the integer held under `key`.
#[verifier::external_body]
fn u64_at(text: &str, key: &str) -> (r: Option<u64>)
    ensures
        r == json_u64_at(text@, key@),
{
    let v = serde_json::from_str::<serde_json::Value>(text).ok()?;
    v.get(key)?.as_u64()
}

/// Relies on serde_json's `from_str` into a `Value`, then `Value::get` and
/// `Value::as_bool`: the boolean held under `key`.
#[verifier::external_body]
fn bool_at(text: &str, key: &str) -> (r: Option<bool>)
    ensures
        r == json_bool_at(text@, key@),
{
    let v = serde_json::from_str::<serde_json::Value>(text).ok()?;
    v.get(key)?.as_bool()
}

/// Relies on uuid's `Uuid::parse_str` and `Uuid::as_u128`.
#[verifier::external_body]
fn parse_uuid(text: &str) -> (r: Option<u128>)
    ensures
        r == uuid_value(text@),
{
    uuid::Uuid::parse_str(text).ok().map(|u| u.as_u128())
}

/// Why a marker file could not be read as an instance's configuration.
#[derive(Debug, Clone, Copy, PartialEq, Eq, Structural)]
pub enum MarkerError {
    /// The file is not JSON.
    Malformed,
    /// A field is missing or of the wrong type.
    MissingField,
    /// The game type is none that this manager runs.
    UnknownGameType,
    /// The `uuid` field is no UUID.
    InvalidUuid,
    /// The `port` field does not fit in 32 bits.
    InvalidPort,
}

/// The fields of a marker file, as read from it.
pub struct MarkerFields {
    pub game_type: Option<String>,
    pub name: Option<String>,
    /// `None` where the field is missing; `Some(None)` where it is no UUID.
    pub uuid: Option<Option<u128>>,
    pub port: Option<u64>,
    pub auto_start: Option<bool>,
}

/// An instance configuration as values: identifier, name, port, auto-start.
pub type ConfigView = (InstanceId, Seq<char>, u32, bool);

pub open spec fn config_view(c: InstanceConfig) -> ConfigView {
    (c.uuid, c.name@, c.port, c.auto_start)
}

pub open spec fn opt_view(o: Option<String>) -> Option<Seq<char>> {
    match o {
        Some(s) => Some(s@),
        None => None,
    }
}

pub open spec fn minecraft_name() -> Seq<char> {
    seq!['m', 'i', 'n', 'e', 'c', 'r', 'a', 'f', 't']
}

/// `c` is the lower-case ASCII letter `lower`, in either case.
pub open spec fn same_letter(c: char, lower: char) -> bool {
    c == lower || (c as u32) + 32 == (lower as u32)
}

/// `g` names the Minecraft game type, in any mix of ASCII case.
pub open spec fn names_minecraft(g: Seq<char>) -> bool {
    &&& g.len() == minecraft_name().len()
    &&& forall|i: int| 0 <= i < g.len() ==> same_letter(#[trigger] g[i], minecraft_name()[i])
}

/// What a marker file's fields make: the configuration, or the first
/// problem in the order game type, name, uuid, port, auto-start.
pub open spec fn decode_spec(
    game_type: Option<Seq<char>>,
    name: Option<Seq<char>>,
    uuid: Option<Option<u128>>,
    port: Option<u64>,
    auto_start: Option<bool>,
) -> Result<ConfigView, MarkerError> {
    match game_type {
        None => Err(MarkerError::MissingField),
        Some(g) => if !names_minecraft(g) {
            Err(MarkerError::UnknownGameType)
        } else {
            match (name, uuid, port, auto_start) {
                (None, _, _, _) => Err(MarkerError::MissingField),
                (_, None, _, _) => Err(MarkerError::MissingField),
                (_, Some(None), _, _) => Err(MarkerError::InvalidUuid),
                (_, _, None, _) => Err(MarkerError::MissingField),
                (Some(n), Some(Some(u)), Some(p), a) => if p > u32::MAX as u64 {
                    Err(MarkerError::InvalidPort)
                } else {
                    match a {
                        None => Err(MarkerError::MissingField),
                        Some(a) => Ok((InstanceId { value: u }, n, p as u32, a)),
                    }
                },
            }
        },
    }
}

/// What the marker file `text` makes.
pub open spec fn marker_spec(text: Seq<char>) -> Result<ConfigView, MarkerError> {
    if !json_parses(text) {
        Err(MarkerError::Malformed)
    } else {
        decode_spec(
            json_str_at(text, "game_type"@),
            json_str_at(text, "name"@),
            match json_str_at(text, "uuid"@) {
                None => None,
                Some(s) => Some(uuid_value(s)),
            },
            json_u64_at(text, "port"@),
            json_bool_at(text, "auto_start"@),
        )
    }
}

/// Whether `g` names the Minecraft game type, ignoring ASCII case.
pub fn is_minecraft(g: &str) -> (r: bool)
    ensures
        r == names_minecraft(g@),
{
    let expected: [char; 9] = ['m', 'i', 'n', 'e', 'c', 'r', 'a', 'f', 't'];
    proof {
        assert(expected@ =~= minecraft_name());
    }
    if g.unicode_len() != 9 {
        return false;
    }
    let mut i: usize = 0;
    while i < 9
        invariant
            i <= 9,
            g@.len() == 9,
            expected@ == minecraft_name(),
            forall|j: int| 0 <= j < i ==> same_letter(#[trigger] g@[j], minecraft_name()[j]),
        decreases 9 - i,
    {
        let c = g.get_char(i);
        let e = expected[i];
        if !(c == e || (c as u32) + 32 == (e as u32)) {
            return false;
        }
        i = i + 1;
    }
    true
}

/// Builds the configuration from a marker file's fields.
pub fn decode_fields(fields: MarkerFields) -> (r: Result<InstanceConfig, MarkerError>)
    ensures
        match r {
            Ok(c) => decode_spec(opt_view(fields.game_type), opt_view(fields.name), fields.uuid, fields.port, fields.auto_start) == Ok::<ConfigView, MarkerError>(config_view(c)),
            Err(e) => decode_spec(opt_view(fields.game_type), opt_view(fields.name), fields.uuid, fields.port, fields.auto_start) == Err::<ConfigView, MarkerError>(e),
        },
{
    let MarkerFields { game_type, name, uuid, port, auto_start } = fields;
    let g = match game_type {
        None => return Err(MarkerError::MissingField),
        Some(g) => g,
    };
    if !is_minecraft(g.as_str()) {
        return Err(MarkerError::UnknownGameType);
    }
    let name = match name {
        None => return Err(MarkerError::MissingField),
        Some(n) => n,
    };
    let uuid = match uuid {
        None => return Err(MarkerError::MissingField),
        Some(None) => return Err(MarkerError::InvalidUuid),
        Some(Some(u)) => u,
    };
    let port = match port {
        None => return Err(MarkerError::MissingField),
        Some(p) => p,
    };
    if port > u32::MAX as u64 {
        return Err(MarkerError::InvalidPort);
    }
    let auto_start = match auto_start {
        None => return Err(MarkerError::MissingField),
        Some(a) => a,
    };
    Ok(InstanceConfig { uuid: InstanceId { value: uuid }, name, port: port as u32, auto_start })
}

/// Reads an instance's configuration from the text of its marker file.
pub fn parse_marker(text: &str) -> (r: Result<InstanceConfig, MarkerError>)
    ensures
        match r {
            Ok(c) => marker_spec(text@) == Ok::<ConfigView, MarkerError>(config_view(c)),
            Err(e) => marker_spec(text@) == Err::<ConfigView, MarkerError>(e),
        },
{
    if !is_json(text) {
        return Err(MarkerError::Malformed);
    }
    let uuid = match str_at(text, "uuid") {
        None => None,
        Some(s) => Some(parse_uuid(s.as_str())),
    };
    let fields = MarkerFields {
        game_type: str_at(text, "game_type"),
        name: str_at(text, "name"),
        uuid,
        port: u64_at(text, "port"),
        auto_start: bool_at(text, "auto_start"),
    };
    decode_fields(fields)
}

} // verus!
