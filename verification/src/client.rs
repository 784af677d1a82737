//! The client endpoint: a validated absolute base URL from which all request
//! URLs are derived by path-joining. Joining always extends the current path,
//! because every endpoint URL this module produces ends with `/`.

use vstd::prelude::*;

use crate::database::Database;
use crate::error::ChesterfieldError;
use crate::text::push_char;

verus! {

/// What url::Url::parse computes on a string: the normalized serialization of
/// the parsed absolute URL, or nothing when the string is not a valid URL.
/// Parsing is a function of the string alone.
pub uninterp spec fn spec_url_parse(s: Seq<char>) -> Option<Seq<char>>;

#[verifier::external_type_specification]
#[verifier::external_body]
pub struct ExParseError(url::ParseError);

/// Relies on url::Url::parse, which parses an absolute URL from a string and
/// is deterministic in it, and on From<Url> for String, which hands out the
/// URL's normalized serialization.
#[verifier::external_body]
fn parse_url(s: &str) -> (r: Result<String, url::ParseError>)
    ensures
        r is Ok <==> spec_url_parse(s@) is Some,
        r matches Ok(u) ==> Some(u@) == spec_url_parse(s@),
{
    url::Url::parse(s).map(String::from)
}

/// The characters a path segment (database name or document id) may hold so
/// that appending it to a base URL composes without escaping.
pub open spec fn spec_valid_segment_char(c: char) -> bool {
    ('a' <= c && c <= 'z') || ('A' <= c && c <= 'Z') || ('0' <= c && c <= '9') || c == '-' || c
        == '_' || c == '$' || c == '(' || c == ')' || c == '+'
}

/// A path segment is valid when it is nonempty and every character composes
/// into a URL path unchanged.
pub open spec fn spec_valid_segment(s: Seq<char>) -> bool {
    s.len() > 0 && forall|i: int| 0 <= i < s.len() ==> spec_valid_segment_char(s[i])
}

/// Decide whether a string is a valid path segment.
pub fn is_valid_segment(s: &str) -> (r: bool)
    ensures
        r == spec_valid_segment(s@),
{
    let len = s.unicode_len();
    if len == 0 {
        return false;
    }
    for i in 0..len
        invariant
            len == s@.len(),
            forall|j: int| 0 <= j < i ==> spec_valid_segment_char(s@[j]),
    {
        let c = s.get_char(i);
        let ok = ('a' <= c && c <= 'z') || ('A' <= c && c <= 'Z') || ('0' <= c && c <= '9') || c
            == '-' || c == '_' || c == '$' || c == '(' || c == ')' || c == '+';
        if !ok {
            return false;
        }
    }
    true
}

/// The base URL with a trailing separator guaranteed: the normalized URL as
/// parsed, with `/` appended when the parse did not already end in one.
pub open spec fn spec_base_of(normalized: Seq<char>) -> Seq<char> {
    if normalized.len() > 0 && normalized.last() == '/' {
        normalized
    } else {
        normalized.push('/')
    }
}

/// A client bound to one endpoint URL. The endpoint is never mutated after
/// construction; deriving a sub-endpoint copies it. The transport connection
/// itself lives with the caller, which dispatches the requests this library
/// builds.
#[derive(Debug)]
pub struct Client {
    url: String,
}

impl Client {
    /// The endpoint URL.
    pub closed spec fn spec_url(&self) -> Seq<char> {
        self.url@
    }

    /// An endpoint URL always ends with the path separator, so joined
    /// segments extend the current path.
    pub open spec fn wf(&self) -> bool {
        self.spec_url().len() > 0 && self.spec_url().last() == '/'
    }

    /// Build a client from a base URL string. Fails exactly when the string
    /// is not a parsable absolute URL.
    pub fn from_url_str(url: &str) -> (r: Result<Client, ChesterfieldError>)
        ensures
            r is Ok <==> spec_url_parse(url@) is Some,
            r matches Ok(c) ==> c.wf() && c.spec_url() == spec_base_of(
                spec_url_parse(url@)->Some_0,
            ),
            r matches Err(e) ==> e == ChesterfieldError::UrlParse,
    {
        match parse_url(url) {
            Ok(mut u) => {
                let len = u.as_str().unicode_len();
                if len == 0 || u.as_str().get_char(len - 1) != '/' {
                    push_char(&mut u, '/');
                }
                Ok(Client { url: u })
            },
            Err(_) => Err(ChesterfieldError::UrlParse),
        }
    }

    /// The endpoint URL as a string, for the transport that dispatches.
    pub fn url(&self) -> (r: &String)
        ensures
            r@ == self.spec_url(),
    {
        &self.url
    }

    /// A client for the same endpoint, sharing the caller's transport.
    pub fn duplicate(&self) -> (r: Client)
        ensures
            r.spec_url() == self.spec_url(),
    {
        Client { url: self.url.clone() }
    }

    /// A client scoped to the sub-path `name`: the current URL, the segment,
    /// and a trailing separator, so that further joins compose predictably.
    /// Fails exactly when the segment is not valid in a URL path.
    pub fn join(&self, name: &str) -> (r: Result<Client, ChesterfieldError>)
        requires
            self.wf(),
        ensures
            r is Ok <==> spec_valid_segment(name@),
            r matches Ok(c) ==> c.wf() && c.spec_url() == self.spec_url() + name@ + seq!['/'],
            r matches Err(e) ==> e == ChesterfieldError::UrlParse,
    {
        if is_valid_segment(name) {
            let mut u = self.url.clone();
            u.append(name);
            push_char(&mut u, '/');
            proof {
                assert(u@ =~= self.spec_url() + name@ + seq!['/']);
            }
            Ok(Client { url: u })
        } else {
            Err(ChesterfieldError::UrlParse)
        }
    }

    /// An interface to the database `name` of this server: the endpoint
    /// joined with the name. Fails exactly when the name is not a valid path
    /// segment.
    pub fn database(&self, name: &str) -> (r: Result<Database, ChesterfieldError>)
        requires
            self.wf(),
        ensures
            r is Ok <==> spec_valid_segment(name@),
            r matches Ok(db) ==> db.wf() && db.spec_url() == self.spec_url() + name@ + seq!['/']
                && db.spec_name() == name@,
            r matches Err(e) ==> e == ChesterfieldError::UrlParse,
    {
        match self.join(name) {
            Ok(c) => Ok(Database::new(c, String::from_str(name))),
            Err(e) => Err(e),
        }
    }
}

} // verus!
