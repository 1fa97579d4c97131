//! Contracts of the functions that come from outside of this crate.

use sqlx::postgres::PgConnectOptions;
use std::string::FromUtf8Error;
use vstd::prelude::*;
use vstd::utf8::{decode_utf8, is_ascii_chars, valid_utf8};

verus! {

/// The characters that a database or user name may hold: `[a-zA-Z0-9_]`.
pub open spec fn is_name_char(c: char) -> bool {
    'a' <= c <= 'z' || 'A' <= c <= 'Z' || '0' <= c <= '9' || c == '_'
}

/// One or more name characters and nothing else.
pub open spec fn is_name(text: Seq<char>) -> bool {
    text.len() > 0 && forall|i: int| 0 <= i < text.len() ==> is_name_char(#[trigger] text[i])
}

/// The pattern of the texts that are names.
pub const NAME_PATTERN: &'static str = "^[a-zA-Z0-9_]+$";

/// `regex::Regex::new`, followed by `regex::Regex::is_match`, on the pattern of
/// names. The pattern is anchored at both ends of the text, and neither anchor
/// is in multi-line mode, so that it matches the texts that consist of one or
/// more characters of its ASCII class. It compiles, and stays below the size
/// limit of a compiled pattern.
#[verifier::external_body]
pub(crate) fn regex_is_match(pattern: &str, text: &str) -> (res: bool)
    requires
        pattern@ == NAME_PATTERN@,
    ensures
        res == is_name(text@),
{
    regex::Regex::new(pattern).expect("Invalid regex").is_match(text)
}

/// The lower case letter of an ASCII upper case letter; any other character
/// is left as it is.
pub open spec fn ascii_lowercase(c: char) -> char {
    if 'A' <= c <= 'Z' {
        ((c as u32 + 32) as u32) as char
    } else {
        c
    }
}

/// What `str::to_lowercase` returns, by Unicode's case mapping.
pub uninterp spec fn lowercase(text: Seq<char>) -> Seq<char>;

/// `str::to_lowercase`. An ASCII text is mapped letter by letter; what becomes
/// of other letters is left to Unicode's tables.
#[verifier::external_body]
pub(crate) fn to_lowercase(text: &str) -> (res: String)
    ensures
        res@ == lowercase(text@),
        is_ascii_chars(text@) ==> res@ == text@.map_values(|c: char| ascii_lowercase(c)),
{
    text.to_lowercase()
}

/// `String::push` appends one character.
pub assume_specification[ String::push ](text: &mut String, c: char)
    ensures
        final(text)@ == old(text)@.push(c),
;

/// The error of `String::from_utf8`, which keeps the bytes.
#[verifier::external_type_specification]
#[verifier::external_body]
pub struct ExFromUtf8Error(FromUtf8Error);

/// `String::from_utf8` decodes the bytes when they are valid UTF-8, and fails
/// otherwise.
pub assume_specification[ String::from_utf8 ](vec: Vec<u8>) -> (res: Result<String, FromUtf8Error>)
    ensures
        res is Ok <==> valid_utf8(vec@),
        res matches Ok(text) ==> text@ == decode_utf8(vec@),
;

/// The options with which `sqlx` opens a connection to a PostgreSQL server.
#[verifier::external_type_specification]
#[verifier::external_body]
pub struct ExPgConnectOptions(PgConnectOptions);

/// The settings that connection options hold, each as a text under its name:
/// `host`, `port` (in decimal digits), `username`, `sslmode` (as PostgreSQL
/// writes it) and `statement_cache_capacity` (in decimal digits), which are
/// always there, and `socket`, `password`, `database`, `application_name`,
/// `sslrootcert`, `sslcert`, `sslkey` and `options` (the startup options) where
/// they are set. A socket that is set is used in place of the host.
pub uninterp spec fn pg_settings(options: PgConnectOptions) -> Map<Seq<char>, Seq<char>>;

/// How many statements a connection caches unless it is told otherwise.
pub const STATEMENT_CACHE_CAPACITY: &'static str = "100";

/// `PgConnectOptions::new` sets no socket, and the capacity of the statement
/// cache. It takes the other settings from the environment and from the password
/// file of the user, so nothing is said of them.
pub assume_specification[ PgConnectOptions::new ]() -> (res: PgConnectOptions)
    ensures
        !pg_settings(res).contains_key("socket"@),
        pg_settings(res).contains_pair("statement_cache_capacity"@, STATEMENT_CACHE_CAPACITY@),
;

/// `PgConnectOptions::host` sets the host and keeps the other settings, the
/// port, the socket and the TLS mode among them. So does each setter below
/// with its own setting.
pub assume_specification[ PgConnectOptions::host ](
    options: PgConnectOptions,
    host: &str,
) -> (res: PgConnectOptions)
    ensures
        pg_settings(res) == pg_settings(options).insert("host"@, host@),
;

/// `PgConnectOptions::username` sets the user name and keeps the other settings.
pub assume_specification[ PgConnectOptions::username ](
    options: PgConnectOptions,
    username: &str,
) -> (res: PgConnectOptions)
    ensures
        pg_settings(res) == pg_settings(options).insert("username"@, username@),
;

/// `PgConnectOptions::password` sets the password and keeps the other settings.
pub assume_specification[ PgConnectOptions::password ](
    options: PgConnectOptions,
    password: &str,
) -> (res: PgConnectOptions)
    ensures
        pg_settings(res) == pg_settings(options).insert("password"@, password@),
;

/// `PgConnectOptions::database` sets the database and keeps the other settings.
pub assume_specification[ PgConnectOptions::database ](
    options: PgConnectOptions,
    database: &str,
) -> (res: PgConnectOptions)
    ensures
        pg_settings(res) == pg_settings(options).insert("database"@, database@),
;

/// `PgConnectOptions::application_name` sets the application name and keeps
/// the other settings, the port, the socket and the TLS mode among them.
pub assume_specification[ PgConnectOptions::application_name ](
    options: PgConnectOptions,
    application_name: &str,
) -> (res: PgConnectOptions)
    ensures
        pg_settings(res) == pg_settings(options).insert("application_name"@, application_name@),
;

/// `PgConnectOptions::get_host` returns the host, which is always set.
pub assume_specification<'a>[ PgConnectOptions::get_host ](options: &'a PgConnectOptions) -> (res:
    &'a str)
    ensures
        pg_settings(*options).contains_pair("host"@, res@),
;

/// What a connection URL says by itself: the settings that it fixes, under the
/// names that they have in the options, or the text of the error with which it
/// is refused. It may fix every setting that connection options hold. Under
/// `options` stand the startup options of the URL alone.
pub uninterp spec fn pg_url_settings(url: Seq<char>) -> Result<
    Map<Seq<char>, Seq<char>>,
    Seq<char>,
>;

/// The settings are those of options that come from a URL which fixes the given
/// ones.
pub open spec fn holds_fixed(
    settings: Map<Seq<char>, Seq<char>>,
    fixed: Map<Seq<char>, Seq<char>>,
) -> bool {
    &&& fixed.remove("options"@).submap_of(settings)
    &&& fixed.contains_key("options"@) ==> {
        &&& settings.contains_key("options"@)
        &&& fixed["options"@].is_suffix_of(settings["options"@])
    }
    &&& !fixed.contains_key("socket"@) ==> !settings.contains_key("socket"@)
    &&& !fixed.contains_key("statement_cache_capacity"@) ==> settings.contains_pair(
        "statement_cache_capacity"@,
        STATEMENT_CACHE_CAPACITY@,
    )
}

/// `<PgConnectOptions as FromStr>::from_str`. Whether a URL is accepted, the
/// error where it is not, and the settings that it fixes follow from the URL
/// alone, on machines whose words are of one size: a statement cache capacity
/// has to fit. The options hold the settings that the URL fixes, its port, its
/// socket and its TLS mode among them. The startup options of a URL are appended
/// to those of the environment, so that they end the startup options. There is
/// no socket but one of the URL, and the statement cache has its usual capacity
/// unless the URL gives another. The other settings come from the environment
/// and the password file, and nothing is said of them.
#[verifier::external_body]
pub(crate) fn parse_pg_url(url: &str) -> (res: Result<PgConnectOptions, String>)
    ensures
        match (res, pg_url_settings(url@)) {
            (Ok(options), Ok(fixed)) => holds_fixed(pg_settings(options), fixed),
            (Err(error), Err(text)) => error@ == text,
            _ => false,
        },
{
    url.parse::<PgConnectOptions>().map_err(|error| error.to_string())
}

} // verus!
