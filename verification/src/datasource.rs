//! Decoding the datasource argument and rendering it as a datasource block.

use vstd::prelude::*;
use vstd::string::StrSliceExecFns;
use vstd::string::StringExecFns;

use crate::strutil::str_eq;

verus! {

/// Errors of the connector boundary, surfaced to the caller as-is.
#[derive(Debug, Clone)]
pub enum ConnectorError {
    /// The decoded datasource text could not be parsed as a schema.
    SchemaParserError { full_error: String },
    /// The connection string has no recognizable shape.
    InvalidConnectionString { details: String },
}

/// What decoding a standard-alphabet base64 string yields, when it is
/// valid; the result depends on the input alone.
pub uninterp spec fn base64_decoded(s: Seq<char>) -> Option<Seq<u8>>;

/// Relies on `base64::decode`: standard-alphabet, padded decoding, a pure
/// function of the input string.
#[verifier::external_body]
fn b64_decode(s: &str) -> (r: Option<Vec<u8>>)
    ensures
        match r {
            Some(v) => base64_decoded(s@) == Some(v@),
            None => base64_decoded(s@) is None,
        },
{
    match base64::decode(s) {
        Ok(v) => Some(v),
        Err(_) => None,
    }
}

/// What decoding bytes as UTF-8 yields, when they are valid; the result
/// depends on the bytes alone.
pub uninterp spec fn utf8_decoded(b: Seq<u8>) -> Option<Seq<char>>;

/// Declares the error `String::from_utf8` reports, so it can be carried
/// and rendered.
#[verifier::external_type_specification]
#[verifier::external_body]
pub struct ExFromUtf8Error(std::string::FromUtf8Error);

/// Relies on `String::from_utf8`: the bytes reinterpreted as UTF-8 text, a
/// pure function of the bytes.
#[verifier::external_body]
fn from_utf8(b: Vec<u8>) -> (r: Result<String, std::string::FromUtf8Error>)
    ensures
        match r {
            Ok(s) => utf8_decoded(b@) == Some(s@),
            Err(_) => utf8_decoded(b@) is None,
        },
{
    String::from_utf8(b)
}

/// Decode a possibly base64-encoded datasource argument: a valid encoding
/// of UTF-8 text yields that text, a string that is not valid base64 is
/// taken verbatim, and a valid encoding of non-UTF-8 bytes is a
/// schema-parsing error.
pub fn parse_base64_string(s: &str) -> (r: Result<String, ConnectorError>)
    ensures
        match base64_decoded(s@) {
            None => r matches Ok(out) && out@ == s@,
            Some(bytes) => match utf8_decoded(bytes) {
                Some(chars) => r matches Ok(out) && out@ == chars,
                None => r matches Err(e) && e is SchemaParserError,
            },
        },
{
    match b64_decode(s) {
        None => Ok(s.to_owned()),
        Some(bytes) => match from_utf8(bytes) {
            Ok(out) => Ok(out),
            Err(e) => Err(ConnectorError::SchemaParserError { full_error: e.to_string() }),
        },
    }
}

/// `url[i]` is the first colon.
pub open spec fn colon_at(url: Seq<char>, i: int) -> bool {
    &&& 0 <= i < url.len()
    &&& url[i] == ':'
    &&& forall|j: int| 0 <= j < i ==> url[j] != ':'
}

/// The url contains a colon.
pub open spec fn has_colon(url: Seq<char>) -> bool {
    exists|i: int| 0 <= i < url.len() && url[i] == ':'
}

/// The index of the first colon.
pub open spec fn colon_index(url: Seq<char>) -> int {
    choose|i: int| colon_at(url, i)
}

/// A colon anywhere gives a first colon.
pub proof fn lemma_first_colon(url: Seq<char>, i: int)
    requires
        0 <= i < url.len(),
        url[i] == ':',
    ensures
        colon_at(url, colon_index(url)),
    decreases i,
{
    if forall|j: int| 0 <= j < i ==> url[j] != ':' {
        assert(colon_at(url, i));
    } else {
        let j = choose|j: int| 0 <= j < i && url[j] == ':';
        lemma_first_colon(url, j);
    }
}

/// The provider implied by a connection string: the scheme before the
/// first colon (or the whole string without one), with the two historical
/// scheme names mapped to their provider names.
pub open spec fn provider_of(url: Seq<char>) -> Seq<char> {
    let p = if has_colon(url) {
        url.take(colon_index(url))
    } else {
        url
    };
    if p == "postgres"@ {
        "postgresql"@
    } else if p == "file"@ {
        "sqlite"@
    } else {
        p
    }
}

/// The datasource block rendered for a connection string.
pub open spec fn datasource_schema(url: Seq<char>) -> Seq<char> {
    "datasource db {\n    provider = \""@ + provider_of(url) + "\"\n    url = \""@ + url
        + "\"\n}\n"@
}

/// Render the datasource block for a raw connection string. Every string
/// has a scheme prefix (possibly the whole string), so rendering always
/// succeeds.
pub fn datasource_from_database_str(database_str: &str) -> (r: Result<String, ConnectorError>)
    ensures
        r matches Ok(schema) && schema@ == datasource_schema(database_str@),
{
    let n = database_str.unicode_len();
    let mut i: usize = 0;
    let mut found: bool = false;
    while i < n && !found
        invariant
            i <= n,
            n == database_str@.len(),
            !found ==> forall|j: int| 0 <= j < i ==> database_str@[j] != ':',
            found ==> colon_at(database_str@, i as int) && i < n,
        decreases n - i + (if found {
            0int
        } else {
            1int
        }),
    {
        if database_str.get_char(i) == ':' {
            proof {
                assert(colon_at(database_str@, i as int));
            }
            found = true;
        } else {
            i += 1;
        }
    }
    let prefix = database_str.substring_char(0, i);
    proof {
        if found {
            lemma_first_colon(database_str@, i as int);
            let f = colon_index(database_str@);
            assert(colon_at(database_str@, f));
            if f < i as int {
                assert(database_str@[f] == ':');
            } else if (i as int) < f {
                assert(database_str@[i as int] == ':');
            }
            assert(f == i as int);
        } else {
            assert(i == n);
            assert(!has_colon(database_str@));
            assert(database_str@.take(n as int) =~= database_str@);
        }
    }
    let provider: String = if str_eq(prefix, "postgres") {
        "postgresql".to_owned()
    } else if str_eq(prefix, "file") {
        "sqlite".to_owned()
    } else {
        prefix.to_owned()
    };
    proof {
        assert(provider@ == provider_of(database_str@));
    }
    let mut schema = String::new();
    schema.append("datasource db {\n    provider = \"");
    schema.append(provider.as_str());
    schema.append("\"\n    url = \"");
    schema.append(database_str);
    schema.append("\"\n}\n");
    Ok(schema)
}

} // verus!
