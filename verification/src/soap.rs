//! The SOAP `RetrieveServiceContent` exchange: where the request goes, what it
//! carries, and which managed object references are read back from the reply.
use vstd::prelude::*;

use crate::text::{
    chars_of, contains_seq, find_from, first_match_from, is_first_from, lemma_first_match_exists,
    occurs_at,
};

verus! {

/// The path segment that marks the SDK part of a vSphere base URL.
pub open spec fn sdk_marker() -> Seq<char> {
    seq!['/', 's', 'd', 'k', '/']
}

/// `s` with every trailing `'/'` removed.
pub open spec fn without_trailing_slashes(s: Seq<char>) -> Seq<char>
    decreases s.len(),
{
    if s.len() > 0 && s.last() == '/' {
        without_trailing_slashes(s.drop_last())
    } else {
        s
    }
}

/// `base` names an SDK endpoint: it contains `"/sdk/"`.
pub open spec fn has_sdk_segment(base: Seq<char>) -> bool {
    contains_seq(base, sdk_marker())
}

/// A base URL that contains `"/sdk/"` has a first `"/sdk/"`.
pub proof fn lemma_sdk_segment_found(base: Seq<char>)
    ensures
        has_sdk_segment(base) <==> first_match_from(base, sdk_marker(), 0) is Some,
{
    if has_sdk_segment(base) {
        let i = choose|i: int| occurs_at(base, sdk_marker(), i);
        lemma_first_match_exists(base, sdk_marker(), 0, i);
    }
    if first_match_from(base, sdk_marker(), 0) is Some {
        let k = first_match_from(base, sdk_marker(), 0)->0;
        assert(is_first_from(base, sdk_marker(), 0, k));
    }
}

/// The SOAP endpoint of a base URL such as `https://host/sdk/vim25/<release>`:
/// everything up to and including the first `"/sdk"`, trailing `'/'` removed.
pub open spec fn soap_endpoint_of(base: Seq<char>) -> Seq<char>
    recommends
        has_sdk_segment(base),
{
    without_trailing_slashes(base.take(first_match_from(base, sdk_marker(), 0)->0 + 4))
}

/// The content type of the SOAP request.
pub open spec fn soap_content_type_text() -> Seq<char> {
    "text/xml; charset=utf-8"@
}

/// The SOAP envelope of the `RetrieveServiceContent` call on `ServiceInstance`.
pub open spec fn soap_envelope_text() -> Seq<char> {
    r#"<soapenv:Envelope xmlns:soapenv="http://schemas.xmlsoap.org/soap/envelope/" xmlns:vim25="urn:vim25"><soapenv:Body><vim25:RetrieveServiceContent><_this type="ServiceInstance">ServiceInstance</_this></vim25:RetrieveServiceContent></soapenv:Body></soapenv:Envelope>"#@
}

/// The HTTP POST that asks a vSphere SDK endpoint for its service content.
pub struct SoapRequest {
    pub url: String,
    pub content_type: String,
    pub body: String,
}

/// The SOAP endpoint of a base URL is the prefix of it that ends with its
/// first `"/sdk"`: nothing is trimmed, it ends with `"/sdk"`, and in the base
/// URL a `'/'` follows it.
pub proof fn soap_endpoint_is_sdk_prefix(base: Seq<char>)
    requires
        has_sdk_segment(base),
    ensures
        ({
            let p = first_match_from(base, sdk_marker(), 0)->0;
            let e = soap_endpoint_of(base);
            &&& e == base.take(p + 4)
            &&& e.len() == p + 4
            &&& e.subrange(p, p + 4) == seq!['/', 's', 'd', 'k']
            &&& base[p + 4] == '/'
        }),
{
    lemma_sdk_segment_found(base);
    let p = first_match_from(base, sdk_marker(), 0)->0;
    assert(is_first_from(base, sdk_marker(), 0, p));
    assert(occurs_at(base, sdk_marker(), p));
    let pre = base.take(p + 4);
    assert(base.subrange(p, p + 5)[3] == 'k');
    assert(base.subrange(p, p + 5)[4] == '/');
    assert(pre.last() == 'k');
    assert(without_trailing_slashes(pre) == pre);
    assert(pre.subrange(p, p + 4) =~= seq!['/', 's', 'd', 'k']) by {
        assert forall|i: int| 0 <= i < 4 implies pre.subrange(p, p + 4)[i] == sdk_marker()[i] by {
            assert(base.subrange(p, p + 5)[i] == sdk_marker()[i]);
        }
    }
}

/// The position (in characters) of the first `"/sdk/"` in `base`, if any.
pub fn sdk_position(base: &str) -> (r: Option<usize>)
    ensures
        match r {
            Some(p) => first_match_from(base@, sdk_marker(), 0) == Some(p as int),
            None => !has_sdk_segment(base@),
        },
{
    let chars = chars_of(base);
    let marker: Vec<char> = vec!['/', 's', 'd', 'k', '/'];
    assert(marker@ == sdk_marker());
    proof {
        lemma_sdk_segment_found(base@);
    }
    find_from(&chars, &marker, 0)
}

/// `s` with every trailing `'/'` removed.
pub fn trim_trailing_slashes(s: &str) -> (r: String)
    ensures
        r@ == without_trailing_slashes(s@),
{
    let chars = chars_of(s);
    let mut k: usize = chars.len();
    assert(chars@.take(k as int) =~= chars@);
    while k > 0 && chars[k - 1] == '/'
        invariant
            chars@ == s@,
            k <= chars.len(),
            without_trailing_slashes(chars@.take(k as int)) == without_trailing_slashes(s@),
        decreases k,
    {
        assert(chars@.take(k as int).drop_last() =~= chars@.take(k - 1));
        k = k - 1;
    }
    let r = s.substring_char(0, k).to_owned();
    proof {
        assert(chars@.take(k as int) =~= s@.subrange(0, k as int));
    }
    r
}

/// The SOAP endpoint of `base`: everything up to and including its first
/// `"/sdk"`, trailing `'/'` removed. It never ends with `'/'`, and is in fact
/// exactly the prefix of `base` that ends with that `"/sdk"`.
pub fn soap_endpoint(base: &str) -> (r: String)
    requires
        has_sdk_segment(base@),
    ensures
        r@ == soap_endpoint_of(base@),
        r@ == base@.take(first_match_from(base@, sdk_marker(), 0)->0 + 4),
{
    let chars = chars_of(base);
    let marker: Vec<char> = vec!['/', 's', 'd', 'k', '/'];
    assert(marker@ == sdk_marker());
    proof {
        lemma_sdk_segment_found(base@);
    }
    let p = match find_from(&chars, &marker, 0) {
        Some(p) => p,
        None => {
            assert(false);
            vstd::pervasive::unreached()
        },
    };
    proof {
        soap_endpoint_is_sdk_prefix(base@);
    }
    let n = chars.len();
    assert(p + 5 <= n);
    let prefix = base.substring_char(0, p + 4);
    let r = trim_trailing_slashes(prefix);
    assert(prefix@ =~= base@.take(p + 4));
    r
}

/// The request that asks the SDK endpoint of `base` for its service content.
pub fn service_content_request(base: &str) -> (r: SoapRequest)
    requires
        has_sdk_segment(base@),
    ensures
        r.url@ == soap_endpoint_of(base@),
        r.url@ == base@.take(first_match_from(base@, sdk_marker(), 0)->0 + 4),
        r.content_type@ == soap_content_type_text(),
        r.body@ == soap_envelope_text(),
{
    let url = soap_endpoint(base);
    let content_type = "text/xml; charset=utf-8".to_owned();
    let body = r#"<soapenv:Envelope xmlns:soapenv="http://schemas.xmlsoap.org/soap/envelope/" xmlns:vim25="urn:vim25"><soapenv:Body><vim25:RetrieveServiceContent><_this type="ServiceInstance">ServiceInstance</_this></vim25:RetrieveServiceContent></soapenv:Body></soapenv:Envelope>"#.to_owned();
    SoapRequest { url, content_type, body }
}

} // verus!
