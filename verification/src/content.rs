//! The minimal `ServiceContent` document, as JSON text, that stands in for the
//! one a JSON endpoint would have returned.
use vstd::prelude::*;

use crate::reply::{service_refs, ServiceRefs, extracted, value_or};

verus! {

#[verifier::external_type_specification]
#[verifier::external_body]
pub struct ExJsonError(serde_json::Error);

/// A hexadecimal digit, lower case, for `0 <= n < 16`.
pub open spec fn hex_digit(n: int) -> char {
    if n < 10 {
        (48 + n) as char
    } else {
        (87 + n) as char
    }
}

/// How the character `c` is written inside a JSON string: `"` and `\` and
/// the control characters below U+0020 escaped (backspace, tab, line feed,
/// form feed and carriage return by letter, the others as `\u00` and two
/// lower-case hex digits), every other character as itself.
pub open spec fn json_escape_char(c: char) -> Seq<char> {
    if c == '"' {
        seq!['\\', '"']
    } else if c == '\\' {
        seq!['\\', '\\']
    } else if c == '\u{8}' {
        seq!['\\', 'b']
    } else if c == '\t' {
        seq!['\\', 't']
    } else if c == '\n' {
        seq!['\\', 'n']
    } else if c == '\u{c}' {
        seq!['\\', 'f']
    } else if c == '\r' {
        seq!['\\', 'r']
    } else if (c as int) < 0x20 {
        seq!['\\', 'u', '0', '0', hex_digit((c as int) / 16), hex_digit((c as int) % 16)]
    } else {
        seq![c]
    }
}

/// The characters of `s`, each written as inside a JSON string.
pub open spec fn json_escaped(s: Seq<char>) -> Seq<char>
    decreases s.len(),
{
    if s.len() == 0 {
        Seq::empty()
    } else {
        json_escaped(s.drop_last()) + json_escape_char(s.last())
    }
}

/// The JSON string literal for the text `s`.
pub open spec fn json_string(s: Seq<char>) -> Seq<char> {
    seq!['"'] + json_escaped(s) + seq!['"']
}

/// No character of `s` needs escaping in a JSON string: none is `"`, `\`
/// or a control character below U+0020.
pub open spec fn plain_json_text(s: Seq<char>) -> bool {
    forall|i: int|
        0 <= i < s.len() ==> s[i] != '"' && s[i] != '\\' && (s[i] as int) >= 0x20
}

/// `s` between two double quotes.
pub open spec fn between_quotes(s: Seq<char>) -> Seq<char> {
    seq!['"'] + s + seq!['"']
}

/// A text with nothing to escape is written as itself between two double
/// quotes.
pub proof fn plain_text_is_quoted_verbatim(s: Seq<char>)
    requires
        plain_json_text(s),
    ensures
        json_escaped(s) == s,
        json_string(s) == between_quotes(s),
    decreases s.len(),
{
    if s.len() > 0 {
        plain_text_is_quoted_verbatim(s.drop_last());
        assert(s.drop_last().push(s.last()) =~= s);
    }
}

/// Calls `serde_json::to_string` on a string slice.
///
/// Claims: the call succeeds (its documentation names as the only causes of
/// failure a `Serialize` impl that decides to fail and maps with non-string
/// keys, and `str` serializes through `serialize_str`, which only writes to
/// the in-memory buffer), and the result is `json_string` of the text: a
/// double quote, each character as `format_escaped_str_contents` and
/// `write_char_escape` write it, and a double quote.
#[verifier::external_body]
fn json_quote(s: &str) -> (r: Result<String, serde_json::Error>)
    ensures
        r is Ok,
        r matches Ok(q) ==> q@ == json_string(s@),
{
    serde_json::to_string(s)
}

/// The JSON text of a minimal `ServiceContent`, given the three reference
/// values already written as JSON string literals: a `Folder` root folder, a
/// `PropertyCollector`, a `SessionManager`, and the fixed simulator `about`.
pub open spec fn content_json(root_q: Seq<char>, pc_q: Seq<char>, sm_q: Seq<char>) -> Seq<char> {
    "{\"_typeName\":\"ServiceContent\",\"rootFolder\":{\"_typeName\":\"ManagedObjectReference\",\"type\":\"Folder\",\"value\":"@
        + root_q
        + "},\"propertyCollector\":{\"_typeName\":\"ManagedObjectReference\",\"type\":\"PropertyCollector\",\"value\":"@
        + pc_q
        + "},\"sessionManager\":{\"_typeName\":\"ManagedObjectReference\",\"type\":\"SessionManager\",\"value\":"@
        + sm_q
        + "},\"about\":{\"_typeName\":\"AboutInfo\",\"apiType\":\"VirtualCenter\",\"apiVersion\":\"sim\",\"fullName\":\"Simulator (SOAP Fallback)\"}}"@
}

/// The fixed text before the root folder's value.
pub open spec fn frame_before_root() -> Seq<char> {
    "{\"_typeName\":\"ServiceContent\",\"rootFolder\":{\"_typeName\":\"ManagedObjectReference\",\"type\":\"Folder\",\"value\":"@
}

/// The fixed text between the root folder's value and the property collector's.
pub open spec fn frame_before_property_collector() -> Seq<char> {
    "},\"propertyCollector\":{\"_typeName\":\"ManagedObjectReference\",\"type\":\"PropertyCollector\",\"value\":"@
}

/// The fixed text between the property collector's value and the session manager's.
pub open spec fn frame_before_session_manager() -> Seq<char> {
    "},\"sessionManager\":{\"_typeName\":\"ManagedObjectReference\",\"type\":\"SessionManager\",\"value\":"@
}

/// The fixed text after the session manager's value: the `about` object and
/// the closing braces.
pub open spec fn frame_after_session_manager() -> Seq<char> {
    "},\"about\":{\"_typeName\":\"AboutInfo\",\"apiType\":\"VirtualCenter\",\"apiVersion\":\"sim\",\"fullName\":\"Simulator (SOAP Fallback)\"}}"@
}

/// Each value stands at its own key, whatever the values are: the document
/// is the fixed frame with the root folder's value, then the property
/// collector's, then the session manager's, each exactly as given.
pub proof fn content_json_places_each_value(root_q: Seq<char>, pc_q: Seq<char>, sm_q: Seq<char>)
    ensures
        content_json(root_q, pc_q, sm_q) == frame_before_root() + root_q
            + frame_before_property_collector() + pc_q + frame_before_session_manager() + sm_q
            + frame_after_session_manager(),
{
}

/// The JSON text of the minimal `ServiceContent` that names these references.
pub open spec fn refs_json(root: Seq<char>, pc: Seq<char>, sm: Seq<char>) -> Seq<char> {
    content_json(json_string(root), json_string(pc), json_string(sm))
}

/// The JSON text of a minimal `ServiceContent` around three reference values
/// that are already JSON string literals.
pub fn assemble_service_content_json(root_q: &str, pc_q: &str, sm_q: &str) -> (r: String)
    ensures
        r@ == content_json(root_q@, pc_q@, sm_q@),
        r@ == frame_before_root() + root_q@ + frame_before_property_collector() + pc_q@
            + frame_before_session_manager() + sm_q@ + frame_after_session_manager(),
{
    let mut out = String::new();
    out.append(
        "{\"_typeName\":\"ServiceContent\",\"rootFolder\":{\"_typeName\":\"ManagedObjectReference\",\"type\":\"Folder\",\"value\":",
    );
    out.append(root_q);
    out.append(
        "},\"propertyCollector\":{\"_typeName\":\"ManagedObjectReference\",\"type\":\"PropertyCollector\",\"value\":",
    );
    out.append(pc_q);
    out.append(
        "},\"sessionManager\":{\"_typeName\":\"ManagedObjectReference\",\"type\":\"SessionManager\",\"value\":",
    );
    out.append(sm_q);
    proof {
        content_json_places_each_value(root_q@, pc_q@, sm_q@);
    }
    out.append(
        "},\"about\":{\"_typeName\":\"AboutInfo\",\"apiType\":\"VirtualCenter\",\"apiVersion\":\"sim\",\"fullName\":\"Simulator (SOAP Fallback)\"}}",
    );
    out
}

/// A reference value as a JSON string literal.
fn quote(s: &String) -> (q: String)
    ensures
        q@ == json_string(s@),
{
    match json_quote(s.as_str()) {
        Ok(q) => q,
        Err(_) => {
            assert(false);
            vstd::pervasive::unreached()
        },
    }
}

/// The JSON text of the minimal `ServiceContent` that names `refs`.
pub fn service_content_json(refs: &ServiceRefs) -> (r: String)
    ensures
        r@ == refs_json(refs.root_folder@, refs.property_collector@, refs.session_manager@),
        r@ == frame_before_root() + json_string(refs.root_folder@)
            + frame_before_property_collector() + json_string(refs.property_collector@)
            + frame_before_session_manager() + json_string(refs.session_manager@)
            + frame_after_session_manager(),
        plain_json_text(refs.root_folder@) && plain_json_text(refs.property_collector@)
            && plain_json_text(refs.session_manager@) ==> r@ == content_json(
            between_quotes(refs.root_folder@),
            between_quotes(refs.property_collector@),
            between_quotes(refs.session_manager@),
        ),
{
    proof {
        if plain_json_text(refs.root_folder@) && plain_json_text(refs.property_collector@)
            && plain_json_text(refs.session_manager@) {
            plain_text_is_quoted_verbatim(refs.root_folder@);
            plain_text_is_quoted_verbatim(refs.property_collector@);
            plain_text_is_quoted_verbatim(refs.session_manager@);
        }
    }
    let root_q = quote(&refs.root_folder);
    let pc_q = quote(&refs.property_collector);
    let sm_q = quote(&refs.session_manager);
    assemble_service_content_json(root_q.as_str(), pc_q.as_str(), sm_q.as_str())
}

/// The JSON text of the minimal `ServiceContent` built from a
/// `RetrieveServiceContent` reply, with the defaults of `service_refs` for
/// references that the reply does not name.
pub fn service_content_from_reply(xml: &str) -> (r: String)
    ensures
        r@ == refs_json(
            value_or(extracted("rootFolder"@, xml@), Seq::empty()),
            value_or(extracted("propertyCollector"@, xml@), "propertyCollector"@),
            value_or(extracted("sessionManager"@, xml@), "SessionManager"@),
        ),
{
    let refs = service_refs(xml);
    service_content_json(&refs)
}

} // verus!
