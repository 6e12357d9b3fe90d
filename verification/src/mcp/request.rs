//! What a tool reads off its request: headers and the per-session arguments.

use http::header::HeaderMap;
use http::HeaderValue;
use rmcp::model::Extensions;
use vstd::prelude::*;

use crate::text;

verus! {

/// Header carrying the caller's response id (scopes the executor tool calls).
pub const RESPONSE_ID_HEADER: &'static str = "x-objectiveai-response-id";

/// Header carrying the caller's agent instance hierarchy.
pub const AIH_HEADER: &'static str = "x-objectiveai-agent-instance-hierarchy";

/// Header carrying the per-session arguments JSON (e.g. `token-repeat`).
pub const ARGUMENTS_HEADER: &'static str = "x-objectiveai-arguments";

/// Why a tool call fails, with the message for the caller.
pub enum ToolError {
    /// The caller's request is at fault.
    InvalidParams(String),
    /// Something behind the tool failed.
    Internal(String),
}

/// What a [`ToolError`] holds.
pub enum ToolErrorView {
    InvalidParams(Seq<char>),
    Internal(Seq<char>),
}

impl View for ToolError {
    type V = ToolErrorView;

    open spec fn view(&self) -> ToolErrorView {
        match self {
            ToolError::InvalidParams(m) => ToolErrorView::InvalidParams(m@),
            ToolError::Internal(m) => ToolErrorView::Internal(m@),
        }
    }
}

/// An internal failure: what was being done, and the failure's own words.
pub fn internal_error(context: &str, detail: &str) -> (r: ToolError)
    ensures
        r@ == ToolErrorView::Internal(context@ + ": "@ + detail@),
{
    ToolError::Internal(text::concat3(context, ": ", detail))
}

// ---------------------------------------------------------------------------------------
// Headers
// ---------------------------------------------------------------------------------------

/// The type map that travels with an MCP request.
#[verifier::external_type_specification]
#[verifier::external_body]
pub struct ExExtensions(rmcp::model::Extensions);

/// The headers of an HTTP request.
#[verifier::external_type_specification]
#[verifier::external_body]
#[verifier::reject_recursive_types(T)]
pub struct ExHeaderMap<T>(http::header::HeaderMap<T>);

/// The value of one header.
#[verifier::external_type_specification]
#[verifier::external_body]
pub struct ExHeaderValue(http::HeaderValue);

/// What a header map answers: for each name under which it finds a value, the bytes of the
/// first value stored under it.
pub uninterp spec fn header_values(headers: HeaderMap<HeaderValue>) -> Map<Seq<char>, Seq<u8>>;

/// What the headers of the HTTP request in the type map answer, or `None` where it holds no
/// HTTP request.
pub uninterp spec fn request_headers(extensions: Extensions) -> Option<Map<Seq<char>, Seq<u8>>>;

/// `Extensions::get` of rmcp, for `http::request::Parts`: the HTTP request that was put into
/// the type map, if one was; here, its headers.
#[verifier::external_body]
fn request_header_map(extensions: &Extensions) -> (r: Option<&HeaderMap<HeaderValue>>)
    ensures
        r is None <==> request_headers(*extensions) is None,
        r matches Some(h) ==> request_headers(*extensions) == Some(header_values(*h)),
{
    extensions.get::<http::request::Parts>().map(|parts| &parts.headers)
}

/// `HeaderMap::get` of http: the first value stored under a name, or `None` where there is
/// none (a name that no header can have among them); here, the bytes of that value.
#[verifier::external_body]
fn header_bytes(headers: &HeaderMap<HeaderValue>, name: &str) -> (r: Option<Vec<u8>>)
    ensures
        r is Some <==> header_values(*headers).contains_key(name@),
        r matches Some(v) ==> v@ == header_values(*headers)[name@],
{
    headers.get(name).map(|value| value.as_bytes().to_vec())
}

/// A byte that a textual header value may hold: printable ASCII or a tab.
pub open spec fn visible_ascii(b: u8) -> bool {
    32 <= b < 127 || b == 9
}

/// The text of a header value, if all of its bytes are visible ASCII.
pub open spec fn header_text(value: Seq<u8>) -> Option<Seq<char>> {
    if forall|i: int| 0 <= i < value.len() ==> visible_ascii(#[trigger] value[i]) {
        Some(value.map_values(|b: u8| b as char))
    } else {
        None
    }
}

/// The bytes stored under `name`, where there is a request and it has that header.
pub open spec fn stored_header(
    headers: Option<Map<Seq<char>, Seq<u8>>>,
    name: Seq<char>,
) -> Option<Seq<u8>> {
    match headers {
        Some(h) if h.contains_key(name) => Some(h[name]),
        _ => None,
    }
}

/// What a required header gives: its trimmed text, or an error that names it where it is
/// absent, is not text, or is blank.
pub open spec fn header_result(value: Option<Seq<u8>>, name: Seq<char>) -> Result<
    Seq<char>,
    ToolErrorView,
> {
    let missing = ToolErrorView::InvalidParams("missing required header: "@ + name);
    match value {
        Some(bytes) => match header_text(bytes) {
            Some(t) if text::trimmed(t).len() > 0 => Ok(text::trimmed(t)),
            _ => Err(missing),
        },
        None => Err(missing),
    }
}

/// What reading a required header off a request gives.
pub open spec fn required_header_result(
    headers: Option<Map<Seq<char>, Seq<u8>>>,
    name: Seq<char>,
) -> Result<Seq<char>, ToolErrorView> {
    if headers is None {
        Err(ToolErrorView::InvalidParams("missing request parts"@))
    } else {
        header_result(stored_header(headers, name), name)
    }
}

/// The view of a result that is a text or a tool error.
pub open spec fn text_result(r: Result<String, ToolError>) -> Result<Seq<char>, ToolErrorView> {
    match r {
        Ok(s) => Ok(s@),
        Err(e) => Err(e@),
    }
}

/// The text of a header value, if all of its bytes are visible ASCII.
pub fn visible_text(value: &Vec<u8>) -> (r: Option<String>)
    ensures
        text::text_option(r) == header_text(value@),
{
    let mut s: String = String::new();
    let mut i: usize = 0;
    while i < value.len()
        invariant
            i <= value.len(),
            forall|j: int| 0 <= j < i ==> visible_ascii(#[trigger] value@[j]),
            s@ == value@.subrange(0, i as int).map_values(|b: u8| b as char),
        decreases value.len() - i,
    {
        let b: u8 = value[i];
        if !((32 <= b && b < 127) || b == 9) {
            assert(!visible_ascii(value@[i as int]));
            return None;
        }
        s.push(b as char);
        i = i + 1;
        assert(s@ =~= value@.subrange(0, i as int).map_values(|b: u8| b as char));
    }
    assert(value@.subrange(0, i as int) == value@);
    Some(s)
}

/// What the value found for a required header gives: its trimmed text, or the error for a
/// header that is absent, is not text, or is blank.
pub fn checked_header(value: Option<Vec<u8>>, name: &str) -> (r: Result<String, ToolError>)
    ensures
        text_result(r) == header_result(
            match value {
                Some(v) => Some(v@),
                None => None,
            },
            name@,
        ),
{
    if let Some(bytes) = value {
        if let Some(t) = visible_text(&bytes) {
            let trimmed = text::trim(t.as_str());
            if !trimmed.is_empty() {
                return Ok(trimmed.to_string());
            }
        }
    }
    Err(ToolError::InvalidParams(text::concat2("missing required header: ", name)))
}

/// Read a required header off the request extensions, failing if absent or empty.
pub fn required_header(extensions: &Extensions, name: &str) -> (r: Result<String, ToolError>)
    ensures
        text_result(r) == required_header_result(request_headers(*extensions), name@),
{
    match request_header_map(extensions) {
        None => Err(ToolError::InvalidParams("missing request parts".to_string())),
        Some(headers) => checked_header(header_bytes(headers, name), name),
    }
}

// ---------------------------------------------------------------------------------------
// Arguments
// ---------------------------------------------------------------------------------------

/// A parsed JSON document.
#[verifier::external_type_specification]
#[verifier::external_body]
pub struct ExJsonValue(serde_json::Value);

/// Why a text is not JSON.
#[verifier::external_type_specification]
#[verifier::external_body]
pub struct ExJsonError(serde_json::Error);

/// One member of a JSON object, as far as members are read: a number is held as the `u64` and
/// as the `i64` that it is, if it is one.
pub enum JsonMember {
    Null,
    Bool(bool),
    Number { unsigned: Option<u64>, signed: Option<i64> },
    Text(String),
    Array,
    Object,
}

/// What a [`JsonMember`] holds.
pub enum JsonMemberView {
    Null,
    Bool(bool),
    Number { unsigned: Option<u64>, signed: Option<i64> },
    Text(Seq<char>),
    Array,
    Object,
}

impl View for JsonMember {
    type V = JsonMemberView;

    open spec fn view(&self) -> JsonMemberView {
        match self {
            JsonMember::Null => JsonMemberView::Null,
            JsonMember::Bool(b) => JsonMemberView::Bool(*b),
            JsonMember::Number { unsigned, signed } => JsonMemberView::Number {
                unsigned: *unsigned,
                signed: *signed,
            },
            JsonMember::Text(s) => JsonMemberView::Text(s@),
            JsonMember::Array => JsonMemberView::Array,
            JsonMember::Object => JsonMemberView::Object,
        }
    }
}

/// The members of a JSON document that is an object; no members for any other document.
pub uninterp spec fn json_members(document: serde_json::Value) -> Map<Seq<char>, JsonMemberView>;

/// The members of the JSON document that a text writes, or `None` where it writes none.
pub uninterp spec fn json_text_members(raw: Seq<char>) -> Option<Map<Seq<char>, JsonMemberView>>;

/// `serde_json::from_str`, for `serde_json::Value`: the document that a text writes, or an
/// error where the text is not JSON.
#[verifier::external_body]
pub(crate) fn parse_json(raw: &str) -> (r: Result<serde_json::Value, serde_json::Error>)
    ensures
        r is Ok <==> json_text_members(raw@) is Some,
        r matches Ok(v) ==> json_text_members(raw@) == Some(json_members(v)),
{
    serde_json::from_str(raw)
}

/// `Value::get` of serde_json, with a text: the member of that name if the document is an
/// object that has one. A number is taken by `Number::as_u64` and `Number::as_i64`.
#[verifier::external_body]
pub(crate) fn json_member(document: &serde_json::Value, key: &str) -> (r: Option<JsonMember>)
    ensures
        r is Some <==> json_members(*document).contains_key(key@),
        r matches Some(m) ==> m@ == json_members(*document)[key@],
{
    Some(match document.get(key)? {
        serde_json::Value::Null => JsonMember::Null,
        serde_json::Value::Bool(b) => JsonMember::Bool(*b),
        serde_json::Value::Number(n) => JsonMember::Number {
            unsigned: n.as_u64(),
            signed: n.as_i64(),
        },
        serde_json::Value::String(s) => JsonMember::Text(s.clone()),
        serde_json::Value::Array(_) => JsonMember::Array,
        serde_json::Value::Object(_) => JsonMember::Object,
    })
}

/// The `u64` that an argument gives: the host encodes argument values as strings, so a
/// number and a text that writes one are both accepted.
pub open spec fn u64_argument(member: JsonMemberView) -> Option<u64> {
    match member {
        JsonMemberView::Number { unsigned, .. } => unsigned,
        JsonMemberView::Text(s) => text::decimal_u64(s),
        _ => None,
    }
}

/// The `token-repeat` that the arguments give.
pub open spec fn token_repeat_in(
    members: Option<Map<Seq<char>, JsonMemberView>>,
) -> Option<u64> {
    match members {
        Some(m) if m.contains_key("token-repeat"@) => u64_argument(m["token-repeat"@]),
        _ => None,
    }
}

/// What reading `token-repeat` off a request gives.
pub open spec fn token_repeat_result(headers: Option<Map<Seq<char>, Seq<u8>>>) -> Result<
    u64,
    ToolErrorView,
> {
    match required_header_result(headers, ARGUMENTS_HEADER@) {
        Err(e) => Err(e),
        Ok(raw) => match token_repeat_in(json_text_members(raw)) {
            Some(n) => Ok(n),
            None => Err(ToolErrorView::InvalidParams("token-repeat must be a u64"@)),
        },
    }
}

/// The `u64` that a member of the arguments gives, in number or string form.
pub fn argument_as_u64(member: &JsonMember) -> (r: Option<u64>)
    ensures
        r == u64_argument(member@),
{
    match member {
        JsonMember::Number { unsigned, .. } => *unsigned,
        JsonMember::Text(s) => text::parse_u64(s.as_str()),
        _ => None,
    }
}

/// Pull `token-repeat` out of the arguments JSON object (number or string form).
pub fn parse_token_repeat(raw: &str) -> (r: Option<u64>)
    ensures
        r == token_repeat_in(json_text_members(raw@)),
{
    match parse_json(raw) {
        Ok(args) => match json_member(&args, "token-repeat") {
            Some(member) => argument_as_u64(&member),
            None => None,
        },
        Err(_) => None,
    }
}

/// Parse `token-repeat` (u64) from the `x-objectiveai-arguments` JSON header.
pub fn token_repeat(extensions: &Extensions) -> (r: Result<u64, ToolError>)
    ensures
        match r {
            Ok(n) => token_repeat_result(request_headers(*extensions)) == Ok::<
                u64,
                ToolErrorView,
            >(n),
            Err(e) => token_repeat_result(request_headers(*extensions)) == Err::<
                u64,
                ToolErrorView,
            >(e@),
        },
{
    match required_header(extensions, ARGUMENTS_HEADER) {
        Err(e) => Err(e),
        Ok(raw) => match parse_token_repeat(raw.as_str()) {
            Some(n) => Ok(n),
            None => Err(ToolError::InvalidParams("token-repeat must be a u64".to_string())),
        },
    }
}

// ---------------------------------------------------------------------------------------
// Laws
// ---------------------------------------------------------------------------------------

/// A required header that is read is not empty, and starts and ends with no white space.
pub proof fn law_required_header_is_not_blank(
    headers: Option<Map<Seq<char>, Seq<u8>>>,
    name: Seq<char>,
)
    ensures
        required_header_result(headers, name) matches Ok(t) ==> t.len() > 0 && !text::white_space(
            t[0],
        ) && !text::white_space(t.last()),
{
    if let Some(bytes) = stored_header(headers, name) {
        if let Some(t) = header_text(bytes) {
            text::lemma_trimmed(t);
        }
    }
}

/// An argument may be given as a number or as the text that writes it: both give the same.
pub proof fn law_number_and_text_arguments_agree(digits: Seq<char>, signed: Option<i64>)
    requires
        digits.len() > 0,
        forall|i: int| 0 <= i < digits.len() ==> text::decimal_digit(#[trigger] digits[i]),
        text::digits_value(digits) <= u64::MAX,
    ensures
        u64_argument(JsonMemberView::Text(digits)) == u64_argument(
            JsonMemberView::Number { unsigned: Some(text::digits_value(digits) as u64), signed },
        ),
        u64_argument(JsonMemberView::Text(digits)) == Some(text::digits_value(digits) as u64),
{
    assert(text::decimal_digit(digits[0]));
}

/// A header value is a text if and only if each of its bytes is printable ASCII or a tab, and
/// the text has one character per byte, with the byte's own code.
pub proof fn law_header_text_is_its_bytes(value: Seq<u8>)
    ensures
        header_text(value) is Some <==> forall|i: int|
            0 <= i < value.len() ==> (32 <= #[trigger] value[i] <= 126 || value[i] == 9),
        header_text(value) matches Some(t) ==> t.len() == value.len() && forall|i: int|
            0 <= i < value.len() ==> #[trigger] t[i] as int == value[i] as int,
{
    if forall|i: int| 0 <= i < value.len() ==> visible_ascii(#[trigger] value[i]) {
        assert forall|i: int| 0 <= i < value.len() implies (32 <= #[trigger] value[i] <= 126
            || value[i] == 9) by {
            assert(visible_ascii(value[i]));
        }
    } else {
        let i = choose|i: int| 0 <= i < value.len() && !visible_ascii(#[trigger] value[i]);
        assert(!(32 <= value[i] <= 126 || value[i] == 9));
    }
}

/// A required header is read whole but for white space at its ends, under its own name and
/// whatever other headers there are.
pub proof fn law_required_header_is_read(
    headers: Map<Seq<char>, Seq<u8>>,
    name: Seq<char>,
    before: Seq<char>,
    t: Seq<char>,
    after: Seq<char>,
)
    requires
        headers.contains_key(name),
        header_text(headers[name]) == Some(before + t + after),
        text::all_white(before),
        text::all_white(after),
        text::bare(t),
        t.len() > 0,
    ensures
        required_header_result(Some(headers), name) == Ok::<Seq<char>, ToolErrorView>(t),
{
    text::law_trimming_takes_the_ends_off(before, t, after);
}

/// A header that is absent, is no text, or is blank is an error of the caller's that names it;
/// so is a request without headers.
pub proof fn law_missing_header_is_named(headers: Map<Seq<char>, Seq<u8>>, name: Seq<char>)
    ensures
        ({
            let blank = match header_text(headers[name]) {
                Some(t) => text::all_white(t),
                None => true,
            };
            (!headers.contains_key(name) || blank) <==> required_header_result(Some(headers), name)
                == Err::<Seq<char>, ToolErrorView>(
                ToolErrorView::InvalidParams("missing required header: "@ + name),
            )
        }),
        !(required_header_result(Some(headers), name) is Ok) ==> required_header_result(
            Some(headers),
            name,
        ) == Err::<Seq<char>, ToolErrorView>(
            ToolErrorView::InvalidParams("missing required header: "@ + name),
        ),
        required_header_result(None, name) == Err::<Seq<char>, ToolErrorView>(
            ToolErrorView::InvalidParams("missing request parts"@),
        ),
{
    if headers.contains_key(name) {
        if let Some(t) = header_text(headers[name]) {
            let (before, after) = text::law_white_space_is_trimmed_off(t);
            let r = text::trimmed(t);
            if text::all_white(t) && r.len() > 0 {
                assert(t[before.len() as int] == r[0]);
            }
            if r.len() == 0 {
                assert(t =~= before + after);
                assert forall|i: int| 0 <= i < t.len() implies text::white_space(
                    #[trigger] t[i],
                ) by {
                    if i < before.len() {
                        assert(t[i] == before[i]);
                    } else {
                        assert(t[i] == after[i - before.len()]);
                    }
                }
            }
        }
    }
}

/// A number argument gives its `u64`, and a text argument the `u64` that it writes; nothing
/// else is a `u64`.
pub proof fn law_arguments_are_numbers_or_texts(
    unsigned: Option<u64>,
    signed: Option<i64>,
    t: Seq<char>,
    b: bool,
)
    ensures
        u64_argument(JsonMemberView::Number { unsigned, signed }) == unsigned,
        u64_argument(JsonMemberView::Text(t)) == text::decimal_u64(t),
        u64_argument(JsonMemberView::Null) is None,
        u64_argument(JsonMemberView::Bool(b)) is None,
        u64_argument(JsonMemberView::Array) is None,
        u64_argument(JsonMemberView::Object) is None,
{
}

/// The `token-repeat` of a request is the very number that the object in its arguments header
/// gives under that name, whatever the number is. Arguments that give none are an error of the
/// caller's, and so is a header that cannot be read.
pub proof fn law_token_repeat_is_the_one_given(
    headers: Option<Map<Seq<char>, Seq<u8>>>,
    n: u64,
)
    ensures
        ({
            let arguments = required_header_result(headers, "x-objectiveai-arguments"@);
            let given = token_repeat_result(headers);
            match arguments {
                Err(e) => given == Err::<u64, ToolErrorView>(e),
                Ok(raw) => {
                    let gives = json_text_members(raw) matches Some(m) && m.contains_key(
                        "token-repeat"@,
                    ) && match m["token-repeat"@] {
                        JsonMemberView::Number { unsigned, .. } => unsigned == Some(n),
                        JsonMemberView::Text(t) => text::decimal_u64(t) == Some(n),
                        _ => false,
                    };
                    &&& given == Ok::<u64, ToolErrorView>(n) <==> gives
                    &&& given is Err ==> given == Err::<u64, ToolErrorView>(
                        ToolErrorView::InvalidParams("token-repeat must be a u64"@),
                    )
                },
            }
        }),
{
}

/// Arguments give a `token-repeat` if and only if they are an object with that member, and the
/// member gives a `u64`: that one.
pub proof fn law_arguments_give_their_own_member(
    members: Map<Seq<char>, JsonMemberView>,
    value: JsonMemberView,
)
    ensures
        token_repeat_in(None) is None,
        !members.contains_key("token-repeat"@) ==> token_repeat_in(Some(members)) is None,
        token_repeat_in(Some(members.insert("token-repeat"@, value))) == u64_argument(value),
{
}

/// What is said of an error, a member or a result is said of what it holds.
pub proof fn law_views_hold_the_contents(
    e: ToolError,
    m: JsonMember,
    r: Result<String, ToolError>,
)
    ensures
        match e {
            ToolError::InvalidParams(t) => e@ == ToolErrorView::InvalidParams(t@),
            ToolError::Internal(t) => e@ == ToolErrorView::Internal(t@),
        },
        match m {
            JsonMember::Null => m@ is Null,
            JsonMember::Bool(b) => m@ == JsonMemberView::Bool(b),
            JsonMember::Number { unsigned, signed } => m@ == (JsonMemberView::Number {
                unsigned,
                signed,
            }),
            JsonMember::Text(t) => m@ == JsonMemberView::Text(t@),
            JsonMember::Array => m@ is Array,
            JsonMember::Object => m@ is Object,
        },
        match r {
            Ok(t) => text_result(r) == Ok::<Seq<char>, ToolErrorView>(t@),
            Err(x) => text_result(r) == Err::<Seq<char>, ToolErrorView>(x@),
        },
{
}

}
