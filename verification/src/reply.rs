//! Reading the SOAP reply: the text of the first element with a given tag
//! (written with attributes, as `<rootFolder type="Folder">group-d1</rootFolder>`),
//! and the three managed object references that the fallback needs.
use vstd::prelude::*;

use crate::text::{
    chars_of, contains_seq, find_from, first_match_from, is_first_from, lemma_first_match_is, occurs_at,
};

verus! {

/// The opening of an element with attributes: `'<'`, the tag, then a space.
pub open spec fn open_tag(tag: Seq<char>) -> Seq<char> {
    seq!['<'] + tag + seq![' ']
}

/// The text of the first element opened as `<tag ...>`: from just after the
/// first `'>'` that follows the opening, up to the next `'<'`; `None` when
/// the opening, that `'>'` or that `'<'` is missing.
pub open spec fn extracted(tag: Seq<char>, xml: Seq<char>) -> Option<Seq<char>> {
    match first_match_from(xml, open_tag(tag), 0) {
        None => None,
        Some(pos) => match first_match_from(xml, seq!['>'], pos) {
            None => None,
            Some(gt) => match first_match_from(xml, seq!['<'], gt + 1) {
                None => None,
                Some(end) => Some(xml.subrange(gt + 1, end)),
            },
        },
    }
}

/// The value inside `o`, or `d` when there is none.
pub open spec fn value_or(o: Option<Seq<char>>, d: Seq<char>) -> Seq<char> {
    match o {
        Some(v) => v,
        None => d,
    }
}

/// A value that is present is kept as it is, whatever it holds; the default
/// stands only for a missing value.
pub proof fn value_or_keeps_present_value(v: Seq<char>, d: Seq<char>)
    ensures
        value_or(Some(v), d) == v,
        value_or(None, d) == d,
{
}

/// The managed object references read from a `RetrieveServiceContent` reply.
pub struct ServiceRefs {
    pub root_folder: String,
    pub property_collector: String,
    pub session_manager: String,
}

/// A first match is an occurrence, with nothing earlier.
pub proof fn lemma_first_match_facts(hay: Seq<char>, needle: Seq<char>, start: int)
    ensures
        first_match_from(hay, needle, start) matches Some(k) ==> is_first_from(
            hay,
            needle,
            start,
            k,
        ),
{
}

/// No character of `s` is `'<'`.
pub open spec fn no_markup(s: Seq<char>) -> bool {
    forall|i: int| 0 <= i < s.len() ==> s[i] != '<'
}

/// The text read for a tag is a slice of the document that holds no `'<'`:
/// it is the text of an element, never markup.
pub proof fn extracted_text_is_markup_free(tag: Seq<char>, xml: Seq<char>)
    ensures
        match extracted(tag, xml) {
            Some(v) => no_markup(v) && contains_seq(xml, v),
            None => true,
        },
{
    if let Some(pos) = first_match_from(xml, open_tag(tag), 0) {
        if let Some(gt) = first_match_from(xml, seq!['>'], pos) {
            lemma_first_match_facts(xml, seq!['>'], pos);
            if let Some(end) = first_match_from(xml, seq!['<'], gt + 1) {
                lemma_first_match_facts(xml, seq!['<'], gt + 1);
                let v = xml.subrange(gt + 1, end);
                assert forall|i: int| 0 <= i < v.len() implies v[i] != '<' by {
                    assert(!occurs_at(xml, seq!['<'], gt + 1 + i));
                    assert(xml.subrange(gt + 1 + i, gt + 2 + i)[0] == xml[gt + 1 + i]);
                }
                assert(occurs_at(xml, v, gt + 1));
                assert(no_markup(v));
                assert(contains_seq(xml, v));
            }
        }
    }
}

/// An element written as `<tag attrs>value<...` is read back as `value`,
/// when the tag and the attributes hold no `'>'`, the value holds no `'<'`,
/// and no earlier `<tag ` opening starts in the text before it.
pub proof fn extract_reads_element_text(
    tag: Seq<char>,
    before: Seq<char>,
    attrs: Seq<char>,
    value: Seq<char>,
    after: Seq<char>,
)
    requires
        forall|i: int| 0 <= i < tag.len() ==> tag[i] != '>',
        forall|i: int| 0 <= i < attrs.len() ==> attrs[i] != '>',
        forall|i: int| 0 <= i < value.len() ==> value[i] != '<',
        forall|j: int| 0 <= j < before.len() ==> !occurs_at(before + open_tag(tag), open_tag(tag), j),
    ensures
        extracted(
            tag,
            before + open_tag(tag) + attrs + seq!['>'] + value + seq!['<'] + after,
        ) == Some(value),
{
    let open = open_tag(tag);
    let head = before + open;
    let doc = before + open + attrs + seq!['>'] + value + seq!['<'] + after;
    let pos = before.len() as int;
    let gt = pos + open.len() + attrs.len();
    let end = gt + 1 + value.len();
    assert forall|k: int| 0 <= k < head.len() implies doc[k] == head[k] by {}
    assert forall|k: int| 0 <= k < open.len() implies doc[pos + k] == open[k] by {}
    assert forall|k: int| 0 <= k < attrs.len() implies doc[pos + open.len() + k] == attrs[k] by {}
    assert(doc[gt] == '>');
    assert forall|k: int| 0 <= k < value.len() implies doc[gt + 1 + k] == value[k] by {}
    assert(doc[end] == '<');
    // the opening
    assert(doc.subrange(pos, pos + open.len()) =~= open);
    assert forall|j: int| 0 <= j < pos implies !occurs_at(doc, open, j) by {
        assert(!occurs_at(head, open, j));
        if occurs_at(doc, open, j) {
            assert(head.subrange(j, j + open.len()) =~= doc.subrange(j, j + open.len()));
        }
    }
    assert(is_first_from(doc, open, 0, pos));
    lemma_first_match_is(doc, open, 0, pos);
    // the first '>' after it
    assert forall|j: int| pos <= j < gt implies !occurs_at(doc, seq!['>'], j) by {
        if occurs_at(doc, seq!['>'], j) {
            assert(doc.subrange(j, j + 1)[0] == doc[j]);
            if j < pos + open.len() {
                let k = j - pos;
                assert(doc[j] == open[k]);
                if 0 < k < open.len() - 1 {
                    assert(open[k] == tag[k - 1]);
                }
            } else {
                assert(doc[j] == attrs[j - pos - open.len()]);
            }
        }
    }
    assert(doc.subrange(gt, gt + 1) =~= seq!['>']);
    assert(is_first_from(doc, seq!['>'], pos, gt));
    lemma_first_match_is(doc, seq!['>'], pos, gt);
    // the next '<'
    assert forall|j: int| gt + 1 <= j < end implies !occurs_at(doc, seq!['<'], j) by {
        if occurs_at(doc, seq!['<'], j) {
            assert(doc.subrange(j, j + 1)[0] == doc[j]);
            assert(doc[j] == value[j - gt - 1]);
        }
    }
    assert(doc.subrange(end, end + 1) =~= seq!['<']);
    assert(is_first_from(doc, seq!['<'], gt + 1, end));
    lemma_first_match_is(doc, seq!['<'], gt + 1, end);
    assert(doc.subrange(gt + 1, end) =~= value);
}

/// The text of the first `<tag ...>` element of `xml`, over its characters.
fn extract_chars(tag: &str, xml: &str, xml_chars: &Vec<char>) -> (r: Option<String>)
    requires
        xml_chars@ == xml@,
    ensures
        match r {
            Some(v) => extracted(tag@, xml@) == Some(v@),
            None => extracted(tag@, xml@) is None,
        },
{
    let tag_chars = chars_of(tag);
    let mut open: Vec<char> = Vec::new();
    open.push('<');
    let mut i: usize = 0;
    while i < tag_chars.len()
        invariant
            i <= tag_chars.len(),
            open@ == seq!['<'] + tag_chars@.take(i as int),
        decreases tag_chars.len() - i,
    {
        open.push(tag_chars[i]);
        i = i + 1;
        assert(open@ =~= seq!['<'] + tag_chars@.take(i as int));
    }
    open.push(' ');
    assert(tag_chars@.take(i as int) =~= tag@);
    assert(open@ =~= open_tag(tag@));
    let gt_needle: Vec<char> = vec!['>'];
    let lt_needle: Vec<char> = vec!['<'];
    assert(gt_needle@ =~= seq!['>']);
    assert(lt_needle@ =~= seq!['<']);
    let pos = match find_from(xml_chars, &open, 0) {
        Some(pos) => pos,
        None => return None,
    };
    let gt = match find_from(xml_chars, &gt_needle, pos) {
        Some(gt) => gt,
        None => return None,
    };
    proof {
        lemma_first_match_facts(xml@, seq!['>'], pos as int);
        assert(occurs_at(xml@, seq!['>'], gt as int));
    }
    let n = xml_chars.len();
    assert(gt < n);
    let end = match find_from(xml_chars, &lt_needle, gt + 1) {
        Some(end) => end,
        None => return None,
    };
    proof {
        lemma_first_match_facts(xml@, seq!['<'], gt + 1);
        assert(occurs_at(xml@, seq!['<'], end as int));
    }
    let text = xml.substring_char(gt + 1, end).to_owned();
    Some(text)
}

/// The text of the first element of `xml` opened as `<tag ...>`: after the
/// first `'>'` that follows the opening, up to the next `'<'`.
pub fn extract(tag: &str, xml: &str) -> (r: Option<String>)
    ensures
        match r {
            Some(v) => extracted(tag@, xml@) == Some(v@),
            None => extracted(tag@, xml@) is None,
        },
{
    let xml_chars = chars_of(xml);
    extract_chars(tag, xml, &xml_chars)
}

/// The root folder, property collector and session manager named in a
/// `RetrieveServiceContent` reply; where one is missing, the root folder is
/// empty, the property collector is `propertyCollector` and the session
/// manager is `SessionManager`.
pub fn service_refs(xml: &str) -> (r: ServiceRefs)
    ensures
        r.root_folder@ == value_or(extracted("rootFolder"@, xml@), Seq::empty()),
        r.property_collector@ == value_or(
            extracted("propertyCollector"@, xml@),
            "propertyCollector"@,
        ),
        r.session_manager@ == value_or(extracted("sessionManager"@, xml@), "SessionManager"@),
        extracted("rootFolder"@, xml@) matches Some(v) ==> r.root_folder@ == v,
        extracted("propertyCollector"@, xml@) matches Some(v) ==> r.property_collector@ == v,
        extracted("sessionManager"@, xml@) matches Some(v) ==> r.session_manager@ == v,
        extracted("rootFolder"@, xml@) is None ==> r.root_folder@ == Seq::<char>::empty(),
        extracted("propertyCollector"@, xml@) is None ==> r.property_collector@
            == "propertyCollector"@,
        extracted("sessionManager"@, xml@) is None ==> r.session_manager@ == "SessionManager"@,
{
    let xml_chars = chars_of(xml);
    let root_folder = match extract_chars("rootFolder", xml, &xml_chars) {
        Some(v) => v,
        None => String::new(),
    };
    let property_collector = match extract_chars("propertyCollector", xml, &xml_chars) {
        Some(v) => v,
        None => "propertyCollector".to_owned(),
    };
    let session_manager = match extract_chars("sessionManager", xml, &xml_chars) {
        Some(v) => v,
        None => "SessionManager".to_owned(),
    };
    ServiceRefs { root_folder, property_collector, session_manager }
}

} // verus!
