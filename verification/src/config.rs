//! Configuration parsing: the connection settings are read from a TOML
//! document with an `irc` table holding `server`, `pass`, `nick` and
//! `channel` strings.
//!
//! The TOML syntax itself is handled by the `toml` crate behind trusted
//! wrappers.  Parsing is a pure function of the document text, so the
//! wrappers' results carry names: `toml_document_ok` says whether the
//! text is TOML at all, and `toml_setting` is the string entry under a
//! table and key (outer option: the entry exists; inner option: it is a
//! string).  The shape checking and the error mapping around those names
//! are verified.  Reading the file from disk is the caller's business.

use vstd::prelude::*;

verus! {

pub uninterp spec fn toml_document_ok(doc: Seq<char>) -> bool;

pub uninterp spec fn toml_setting(doc: Seq<char>, table: Seq<char>, key: Seq<char>) -> Option<
    Option<Seq<char>>,
>;

/// Relies on toml::Table's `FromStr`: whether the text is a valid TOML
/// document.  Parsing is deterministic in the text alone.
#[verifier::external_body]
fn toml_parse_ok(s: &str) -> (r: bool)
    ensures
        r == toml_document_ok(s@),
{
    s.parse::<toml::Table>().is_ok()
}

/// Relies on toml::Table's `FromStr`, toml::Table::get and
/// toml::Value::as_str: the `table.key` entry of the TOML document.
/// `None` when the document does not parse or has no such entry,
/// `Some(None)` when the entry is not a string, `Some(Some(v))` for the
/// string `v`.  All three calls are deterministic in their text inputs.
#[verifier::external_body]
fn toml_lookup(s: &str, table: &str, key: &str) -> (r: Option<Option<String>>)
    ensures
        match r {
            Option::Some(Option::Some(v)) => toml_setting(s@, table@, key@) == Some(
                Some(v@),
            ),
            Option::Some(Option::None) => toml_setting(s@, table@, key@) == Some(
                None::<Seq<char>>,
            ),
            Option::None => toml_setting(s@, table@, key@) is None,
        },
{
    let tree: toml::Table = match s.parse::<toml::Table>() {
        Ok(t) => t,
        Err(_) => return None,
    };
    match tree.get(table) {
        Some(section) => match section.get(key) {
            Some(entry) => match entry.as_str() {
                Some(v) => Some(Some(v.to_string())),
                None => Some(None),
            },
            None => None,
        },
        None => None,
    }
}

/// Look up `table.key` in the TOML document and return it as a string.
/// Fails with 1 when the document has no such entry (or is not TOML at
/// all), and with 2 when the entry exists but is not a string.
pub fn get_toml_value_as_string(doc: &str, table: &str, key: &str) -> (r: Result<String, u8>)
    ensures
        match toml_setting(doc@, table@, key@) {
            Option::Some(Option::Some(v)) => r matches Ok(s) && s@ == v,
            Option::Some(Option::None) => r == Err::<String, u8>(2u8),
            Option::None => r == Err::<String, u8>(1u8),
        },
{
    match toml_lookup(doc, table, key) {
        Option::Some(Option::Some(s)) => Ok(s),
        Option::Some(Option::None) => Err(2),
        Option::None => Err(1),
    }
}

/// Parse configuration text and extract the connection settings: the
/// server, password, nick and channel of the `irc` table, in that order.
/// Fails with 2 exactly when the text is not TOML, and with 3 exactly
/// when it is TOML but a required setting is missing or not a string.
pub fn parse_config_file(config_text: &str) -> (r: Result<(String, String, String, String), u8>)
    ensures
        ({
            let server = toml_setting(config_text@, "irc"@, "server"@);
            let pass = toml_setting(config_text@, "irc"@, "pass"@);
            let nick = toml_setting(config_text@, "irc"@, "nick"@);
            let channel = toml_setting(config_text@, "irc"@, "channel"@);
            match r {
                Result::Ok(out) => {
                    &&& toml_document_ok(config_text@)
                    &&& server == Some(Some(out.0@))
                    &&& pass == Some(Some(out.1@))
                    &&& nick == Some(Some(out.2@))
                    &&& channel == Some(Some(out.3@))
                },
                Result::Err(e) => {
                    ||| (e == 2 && !toml_document_ok(config_text@))
                    ||| (e == 3 && toml_document_ok(config_text@) && !(server matches Some(
                        Some(_),
                    ) && pass matches Some(Some(_)) && nick matches Some(Some(_))
                        && channel matches Some(Some(_))))
                },
            }
        }),
{
    if !toml_parse_ok(config_text) {
        return Err(2);
    }
    let server = match get_toml_value_as_string(config_text, "irc", "server") {
        Result::Ok(s) => s,
        Result::Err(_) => {
            return Err(3);
        },
    };
    let pass = match get_toml_value_as_string(config_text, "irc", "pass") {
        Result::Ok(s) => s,
        Result::Err(_) => {
            return Err(3);
        },
    };
    let nick = match get_toml_value_as_string(config_text, "irc", "nick") {
        Result::Ok(s) => s,
        Result::Err(_) => {
            return Err(3);
        },
    };
    let channel = match get_toml_value_as_string(config_text, "irc", "channel") {
        Result::Ok(s) => s,
        Result::Err(_) => {
            return Err(3);
        },
    };
    Ok((server, pass, nick, channel))
}

} // verus!
