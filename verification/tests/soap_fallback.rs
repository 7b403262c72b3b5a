use vim_rs::content::{assemble_service_content_json, service_content_from_reply, service_content_json};
use vim_rs::reply::{extract, service_refs, ServiceRefs};
use vim_rs::soap::{sdk_position, service_content_request, soap_endpoint, trim_trailing_slashes};
use vim_rs::text::{chars_of, find_from};

const ENVELOPE: &str = r#"<soapenv:Envelope xmlns:soapenv="http://schemas.xmlsoap.org/soap/envelope/" xmlns:vim25="urn:vim25"><soapenv:Body><vim25:RetrieveServiceContent><_this type="ServiceInstance">ServiceInstance</_this></vim25:RetrieveServiceContent></soapenv:Body></soapenv:Envelope>"#;

const ABOUT: &str = r#"{"_typeName":"AboutInfo","apiType":"VirtualCenter","apiVersion":"sim","fullName":"Simulator (SOAP Fallback)"}"#;

const REPLY: &str = r#"<?xml version="1.0" encoding="UTF-8"?><soapenv:Envelope><soapenv:Body><RetrieveServiceContentResponse xmlns="urn:vim25"><returnval><rootFolder type="Folder">group-d1</rootFolder><propertyCollector type="PropertyCollector">propertyCollector</propertyCollector><viewManager type="ViewManager">ViewManager</viewManager><about><name>VMware vCenter Server</name></about><sessionManager type="SessionManager">SessionManager</sessionManager></returnval></RetrieveServiceContentResponse></soapenv:Body></soapenv:Envelope>"#;

fn expected_json(root: &str, pc: &str, sm: &str) -> String {
    let mut s = String::from(r#"{"_typeName":"ServiceContent","rootFolder":{"_typeName":"ManagedObjectReference","type":"Folder","value":"#);
    s.push_str(root);
    s.push_str(r#"},"propertyCollector":{"_typeName":"ManagedObjectReference","type":"PropertyCollector","value":"#);
    s.push_str(pc);
    s.push_str(r#"},"sessionManager":{"_typeName":"ManagedObjectReference","type":"SessionManager","value":"#);
    s.push_str(sm);
    s.push_str(r#"},"about":"#);
    s.push_str(ABOUT);
    s.push('}');
    s
}

#[test]
fn endpoint_trims_release_path() {
    assert_eq!(soap_endpoint("https://vc.example.com/sdk/vim25/8.0.1.0"), "https://vc.example.com/sdk");
}

#[test]
fn endpoint_of_bare_sdk_with_slash() {
    assert_eq!(soap_endpoint("https://host:8989/sdk/"), "https://host:8989/sdk");
}

#[test]
fn endpoint_uses_first_sdk_segment() {
    assert_eq!(soap_endpoint("https://a/sdk/b/sdk/c"), "https://a/sdk");
}

#[test]
fn endpoint_keeps_non_ascii_host() {
    assert_eq!(soap_endpoint("https://vç.例え/sdk/vim25"), "https://vç.例え/sdk");
}

#[test]
fn sdk_position_found_and_missing() {
    assert_eq!(sdk_position("https://h/sdk/vim25"), Some(9));
    assert_eq!(sdk_position("https://h/vim25"), None);
    assert_eq!(sdk_position("https://h/sdk"), None);
    assert_eq!(sdk_position(""), None);
}

#[test]
fn trims_only_trailing_slashes() {
    assert_eq!(trim_trailing_slashes("a//"), "a");
    assert_eq!(trim_trailing_slashes("///"), "");
    assert_eq!(trim_trailing_slashes("a/b"), "a/b");
    assert_eq!(trim_trailing_slashes(""), "");
}

#[test]
fn request_carries_envelope_and_content_type() {
    let r = service_content_request("https://h/sdk/vim25/8.0");
    assert_eq!(r.url, "https://h/sdk");
    assert_eq!(r.content_type, "text/xml; charset=utf-8");
    assert_eq!(r.body, ENVELOPE);
    assert!(r.body.contains(r#"<_this type="ServiceInstance">ServiceInstance</_this>"#));
}

#[test]
fn extract_element_with_attribute() {
    let xml = r#"<rootFolder type="Folder">group-d1</rootFolder>"#;
    assert_eq!(extract("rootFolder", xml), Some("group-d1".to_string()));
}

#[test]
fn extract_needs_attribute_form() {
    assert_eq!(extract("rootFolder", "<rootFolder>group-d1</rootFolder>"), None);
}

#[test]
fn extract_missing_tag_or_delimiters() {
    assert_eq!(extract("sessionManager", REPLY.replace("sessionManager", "x").as_str()), None);
    assert_eq!(extract("a", "<a b"), None);
    assert_eq!(extract("a", "<a b>text without end"), None);
}

#[test]
fn extract_first_occurrence_and_empty_text() {
    assert_eq!(extract("a", "<a x>one</a><a y>two</a>"), Some("one".to_string()));
    assert_eq!(extract("a", "<a x></a>"), Some(String::new()));
}

#[test]
fn extract_keeps_unicode_text() {
    assert_eq!(extract("a", "<a x=\"é\">日本é<"), Some("日本é".to_string()));
}

#[test]
fn extract_takes_text_after_gt_of_the_opening() {
    // the text runs from the first '>' after the opening up to the next '<'
    assert_eq!(extract("a", "<b>z</b><a k=1>v<c>"), Some("v".to_string()));
    assert_eq!(extract("a", "<a k=1><c>w</c>"), Some(String::new()));
}

#[test]
fn refs_from_reply() {
    let refs = service_refs(REPLY);
    assert_eq!(refs.root_folder, "group-d1");
    assert_eq!(refs.property_collector, "propertyCollector");
    assert_eq!(refs.session_manager, "SessionManager");
}

#[test]
fn refs_defaults_when_missing() {
    let refs = service_refs("<empty/>");
    assert_eq!(refs.root_folder, "");
    assert_eq!(refs.property_collector, "propertyCollector");
    assert_eq!(refs.session_manager, "SessionManager");
}

#[test]
fn refs_read_other_values() {
    let xml = r#"<propertyCollector type="PropertyCollector">pc-7</propertyCollector><sessionManager type="SessionManager">sm-2</sessionManager>"#;
    let refs = service_refs(xml);
    assert_eq!(refs.root_folder, "");
    assert_eq!(refs.property_collector, "pc-7");
    assert_eq!(refs.session_manager, "sm-2");
}

#[test]
fn assemble_places_values() {
    let s = assemble_service_content_json("1", "2", "3");
    assert_eq!(s, expected_json("1", "2", "3"));
}

#[test]
fn content_json_from_reply() {
    let s = service_content_from_reply(REPLY);
    assert_eq!(s, expected_json("\"group-d1\"", "\"propertyCollector\"", "\"SessionManager\""));
    let v: serde_json::Value = serde_json::from_str(&s).unwrap();
    assert_eq!(v["rootFolder"]["value"], "group-d1");
    assert_eq!(v["rootFolder"]["type"], "Folder");
    assert_eq!(v["sessionManager"]["_typeName"], "ManagedObjectReference");
    assert_eq!(v["about"]["fullName"], "Simulator (SOAP Fallback)");
}

#[test]
fn content_json_from_empty_reply() {
    let s = service_content_from_reply("");
    assert_eq!(s, expected_json("\"\"", "\"propertyCollector\"", "\"SessionManager\""));
}

#[test]
fn content_json_escapes_values() {
    let refs = ServiceRefs {
        root_folder: "a\"b\\c".to_string(),
        property_collector: "line\nfeed".to_string(),
        session_manager: "\u{1}".to_string(),
    };
    let s = service_content_json(&refs);
    assert_eq!(s, expected_json(r#""a\"b\\c""#, r#""line\nfeed""#, r#""\u0001""#));
    let v: serde_json::Value = serde_json::from_str(&s).unwrap();
    assert_eq!(v["rootFolder"]["value"], "a\"b\\c");
    assert_eq!(v["propertyCollector"]["value"], "line\nfeed");
}

#[test]
fn element_text_reads_back() {
    let before = "<x><y>";
    let value = "vm-42";
    let doc = format!("{}<vm type=\"VirtualMachine\">{}</vm>tail", before, value);
    assert_eq!(extract("vm", &doc), Some(value.to_string()));
}

#[test]
fn find_from_positions() {
    let hay = chars_of("abcabc");
    assert_eq!(find_from(&hay, &chars_of("bc"), 0), Some(1));
    assert_eq!(find_from(&hay, &chars_of("bc"), 2), Some(4));
    assert_eq!(find_from(&hay, &chars_of("bc"), 5), None);
    assert_eq!(find_from(&hay, &chars_of(""), 6), Some(6));
    assert_eq!(find_from(&hay, &chars_of("x"), 0), None);
}

#[test]
fn content_json_escapes_control_characters() {
    let refs = ServiceRefs {
        root_folder: "\t\r".to_string(),
        property_collector: "\u{8}\u{c}".to_string(),
        session_manager: "\u{1f}é\u{7f}".to_string(),
    };
    let s = service_content_json(&refs);
    assert_eq!(s, expected_json(r#""\t\r""#, r#""\b\f""#, "\"\\u001fé\u{7f}\""));
}
