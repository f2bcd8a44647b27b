//! The cross-origin stage: four fixed header fields, set on every outgoing
//! response whatever the request was.

use rocket_http::{Header, HeaderMap};
use vstd::prelude::*;

verus! {

/// `rocket_http::HeaderMap`, the header fields of a response. Verified code
/// sees it only through `header_fields`.
#[verifier::external_type_specification]
#[verifier::external_body]
pub struct ExHeaderMap<'h>(HeaderMap<'h>);

/// The fields that a header map holds: under each field name, in ASCII lower
/// case, the values stored for that field, oldest first.
pub uninterp spec fn header_fields(headers: &HeaderMap<'_>) -> Map<Seq<char>, Seq<Seq<char>>>;

/// The ASCII lower-case form of a character.
pub open spec fn ascii_lower(c: char) -> char {
    if 'A' <= c && c <= 'Z' {
        ((c as u8) + 32) as char
    } else {
        c
    }
}

/// A field name as a header map keys it: names that differ only in ASCII case
/// name the same field.
pub open spec fn field_key(name: Seq<char>) -> Seq<char> {
    name.map_values(|c: char| ascii_lower(c))
}

/// Calls `rocket_http::HeaderMap::replace` on `rocket_http::Header::new(name, value)`.
/// Whatever the map stored under the field, compared without regard to ASCII
/// case, gives way to the one new value; every other field is untouched.
#[verifier::external_body]
fn set_header<'h>(headers: &mut HeaderMap<'h>, name: &'static str, value: &'static str)
    ensures
        header_fields(final(headers)) == header_fields(old(headers)).insert(
            field_key(name@),
            seq![value@],
        ),
{
    headers.replace(Header::new(name, value));
}

/// The field that names the origins allowed to read a response.
pub const ALLOW_ORIGIN: &'static str = "Access-Control-Allow-Origin";

/// The field that names the methods allowed across origins.
pub const ALLOW_METHODS: &'static str = "Access-Control-Allow-Methods";

/// The field that names the request headers allowed across origins.
pub const ALLOW_HEADERS: &'static str = "Access-Control-Allow-Headers";

/// The field that says whether credentials may be sent across origins.
pub const ALLOW_CREDENTIALS: &'static str = "Access-Control-Allow-Credentials";

/// The wildcard: every origin, every header.
pub const ANY: &'static str = "*";

/// The methods allowed across origins.
pub const METHODS: &'static str = "POST, PATCH, PUT, DELETE, HEAD, OPTIONS, GET";

/// Credentials are allowed.
pub const CREDENTIALS: &'static str = "true";

/// A header map after the cross-origin stage has run over it.
pub open spec fn with_cors(headers: Map<Seq<char>, Seq<Seq<char>>>) -> Map<Seq<char>, Seq<Seq<char>>> {
    headers.insert(field_key(ALLOW_ORIGIN@), seq![ANY@]).insert(
        field_key(ALLOW_METHODS@),
        seq![METHODS@],
    ).insert(field_key(ALLOW_HEADERS@), seq![ANY@]).insert(
        field_key(ALLOW_CREDENTIALS@),
        seq![CREDENTIALS@],
    )
}

/// Whether `key` is one of the four cross-origin fields.
pub open spec fn is_cors_field(key: Seq<char>) -> bool {
    ||| key == field_key(ALLOW_ORIGIN@)
    ||| key == field_key(ALLOW_METHODS@)
    ||| key == field_key(ALLOW_HEADERS@)
    ||| key == field_key(ALLOW_CREDENTIALS@)
}

/// The callback through which a fairing takes part in a server's life.
#[derive(Clone, Copy, Debug, PartialEq, Eq, Structural)]
pub enum Kind {
    Ignite,
    Liftoff,
    Request,
    Response,
    Shutdown,
}

/// What a fairing says of itself: its name and the callback it implements.
#[derive(Clone, Copy, Debug)]
pub struct Info {
    pub name: &'static str,
    pub kind: Kind,
}

/// The cross-origin responder. It has no settings: the policy is fixed.
#[derive(Clone, Copy, Debug)]
pub struct Cors;

impl Cors {
    /// The responder's name, and that it acts on responses only.
    pub fn info(&self) -> (info: Info)
        ensures
            info.name@ == "Add CORS headers to responses"@,
            info.kind == Kind::Response,
    {
        Info { name: "Add CORS headers to responses", kind: Kind::Response }
    }

    /// Sets the four cross-origin fields among a response's header fields,
    /// replacing any value they had. Neither the request nor the rest of the
    /// response plays a part.
    pub fn on_response<'h>(&self, headers: &mut HeaderMap<'h>)
        ensures
            header_fields(final(headers)) == with_cors(header_fields(old(headers))),
    {
        set_header(headers, ALLOW_ORIGIN, ANY);
        set_header(headers, ALLOW_METHODS, METHODS);
        set_header(headers, ALLOW_HEADERS, ANY);
        set_header(headers, ALLOW_CREDENTIALS, CREDENTIALS);
    }
}

/// The four cross-origin field names are four different fields.
pub proof fn lemma_cors_fields_distinct()
    ensures
        field_key(ALLOW_ORIGIN@) != field_key(ALLOW_METHODS@),
        field_key(ALLOW_ORIGIN@) != field_key(ALLOW_HEADERS@),
        field_key(ALLOW_ORIGIN@) != field_key(ALLOW_CREDENTIALS@),
        field_key(ALLOW_METHODS@) != field_key(ALLOW_HEADERS@),
        field_key(ALLOW_METHODS@) != field_key(ALLOW_CREDENTIALS@),
        field_key(ALLOW_HEADERS@) != field_key(ALLOW_CREDENTIALS@),
{
    reveal_strlit("Access-Control-Allow-Origin");
    reveal_strlit("Access-Control-Allow-Methods");
    reveal_strlit("Access-Control-Allow-Headers");
    reveal_strlit("Access-Control-Allow-Credentials");
    assert(field_key(ALLOW_ORIGIN@).len() == 27);
    assert(field_key(ALLOW_METHODS@).len() == 28);
    assert(field_key(ALLOW_HEADERS@).len() == 28);
    assert(field_key(ALLOW_CREDENTIALS@).len() == 32);
    assert(field_key(ALLOW_METHODS@)[21] == 'm');
    assert(field_key(ALLOW_HEADERS@)[21] == 'h');
}

/// After the cross-origin stage every response carries the four fields, each
/// with exactly its one fixed value, whatever it carried before; and all its
/// other fields are as they were.
pub proof fn lemma_cors_headers_present(headers: Map<Seq<char>, Seq<Seq<char>>>)
    ensures
        with_cors(headers).contains_key(field_key(ALLOW_ORIGIN@)),
        with_cors(headers)[field_key(ALLOW_ORIGIN@)] == seq![ANY@],
        with_cors(headers).contains_key(field_key(ALLOW_METHODS@)),
        with_cors(headers)[field_key(ALLOW_METHODS@)] == seq![METHODS@],
        with_cors(headers).contains_key(field_key(ALLOW_HEADERS@)),
        with_cors(headers)[field_key(ALLOW_HEADERS@)] == seq![ANY@],
        with_cors(headers).contains_key(field_key(ALLOW_CREDENTIALS@)),
        with_cors(headers)[field_key(ALLOW_CREDENTIALS@)] == seq![CREDENTIALS@],
        forall|key: Seq<char>|
            !is_cors_field(key) ==> (with_cors(headers).contains_key(key) <==> headers.contains_key(
                key,
            )),
        forall|key: Seq<char>|
            !is_cors_field(key) && headers.contains_key(key) ==> with_cors(headers)[key]
                == headers[key],
{
    lemma_cors_fields_distinct();
}

/// Running the stage twice leaves what running it once leaves.
pub proof fn lemma_cors_idempotent(headers: Map<Seq<char>, Seq<Seq<char>>>)
    ensures
        with_cors(with_cors(headers)) == with_cors(headers),
{
    lemma_cors_fields_distinct();
    assert(with_cors(with_cors(headers)) =~= with_cors(headers));
}

} // verus!
