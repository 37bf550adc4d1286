use wextrunk::errors::WextError;
use wextrunk::extract::{get_attribute, has_attribute, Attr, Extractor};

fn attr(name: &str, value: &str) -> Attr {
    Attr { name: name.to_string(), value: value.to_string() }
}

fn manifest_link(extra: &[(&str, &str)]) -> Vec<Attr> {
    let mut attrs = vec![attr("rel", "manifest")];
    for (n, v) in extra {
        attrs.push(attr(n, v));
    }
    attrs
}

#[test]
fn attribute_lookup_finds_first_match() {
    let attrs = vec![attr("rel", "script"), attr("js", "a.js"), attr("js", "b.js")];
    assert_eq!(get_attribute(&attrs, "js").unwrap(), "a.js");
    assert!(get_attribute(&attrs, "href").is_none());
    assert!(has_attribute(&attrs, "rel"));
    assert!(!has_attribute(&attrs, "default"));
}

#[test]
fn single_default_manifest_is_selected() {
    let mut ex = Extractor::new(None);
    ex.handle_metadata_link(&manifest_link(&[("default", ""), ("href", "chosen.json")]))
        .unwrap();
    let result = ex.finish(String::new()).unwrap();
    assert_eq!(result.manifest.href, "chosen.json");
}

#[test]
fn two_default_manifests_are_ambiguous() {
    let mut ex = Extractor::new(None);
    ex.handle_metadata_link(&manifest_link(&[("default", ""), ("href", "a.json")]))
        .unwrap();
    let r = ex.handle_metadata_link(&manifest_link(&[("default", ""), ("href", "b.json")]));
    assert!(matches!(r, Err(WextError::AmbiguousManifestSelection)));
}

#[test]
fn zero_manifests_fail_at_finish() {
    let mut ex = Extractor::new(None);
    ex.handle_metadata_link(&vec![
        attr("rel", "htmlpage"),
        attr("name", "popup"),
        attr("html", "popup.html"),
        attr("wasm-fn", "popup_page"),
    ])
    .unwrap();
    let r = ex.finish(String::new());
    assert!(matches!(r, Err(WextError::NoManifestSelected)));
}

#[test]
fn requested_target_selects_matching_manifest() {
    let mut ex = Extractor::new(Some("chrome".to_string()));
    ex.handle_metadata_link(&manifest_link(&[("target", "firefox"), ("href", "ff.json")]))
        .unwrap();
    ex.handle_metadata_link(&manifest_link(&[("target", "chrome"), ("href", "ch.json")]))
        .unwrap();
    let result = ex.finish(String::new()).unwrap();
    assert_eq!(result.manifest.href, "ch.json");
}

#[test]
fn requested_target_ignores_default_marker() {
    let mut ex = Extractor::new(Some("chrome".to_string()));
    ex.handle_metadata_link(&manifest_link(&[
        ("target", "firefox"),
        ("default", ""),
        ("href", "ff.json"),
    ]))
    .unwrap();
    let r = ex.finish(String::new());
    assert!(matches!(r, Err(WextError::NoManifestSelected)));
}

#[test]
fn manifest_without_target_attribute_fails_under_requested_target() {
    let mut ex = Extractor::new(Some("chrome".to_string()));
    let r = ex.handle_metadata_link(&manifest_link(&[("default", ""), ("href", "a.json")]));
    assert!(matches!(r, Err(WextError::MissingRequiredAttribute(ref a)) if a == "target"));
}

#[test]
fn two_matching_target_manifests_are_ambiguous() {
    let mut ex = Extractor::new(Some("chrome".to_string()));
    ex.handle_metadata_link(&manifest_link(&[("target", "chrome"), ("href", "a.json")]))
        .unwrap();
    let r = ex.handle_metadata_link(&manifest_link(&[("target", "chrome"), ("href", "b.json")]));
    assert!(matches!(r, Err(WextError::AmbiguousManifestSelection)));
}

#[test]
fn selected_manifest_without_href_fails() {
    let mut ex = Extractor::new(None);
    let r = ex.handle_metadata_link(&manifest_link(&[("default", "")]));
    assert!(matches!(r, Err(WextError::MissingRequiredAttribute(ref a)) if a == "href"));
}

#[test]
fn htmlpage_link_collects_declaration() {
    let mut ex = Extractor::new(None);
    ex.handle_metadata_link(&vec![
        attr("rel", "htmlpage"),
        attr("name", "popup"),
        attr("html", "popup.html"),
        attr("no-reload", ""),
        attr("wasm-fn", "popup_page"),
    ])
    .unwrap();
    ex.handle_metadata_link(&manifest_link(&[("default", ""), ("href", "m.json")]))
        .unwrap();
    let result = ex.finish("<html></html>".to_string()).unwrap();
    assert_eq!(result.html_pages.len(), 1);
    let page = &result.html_pages[0];
    assert_eq!(page.name, "popup");
    assert_eq!(page.html, "popup.html");
    assert!(page.no_reload);
    assert_eq!(page.wasm_fn, "popup_page");
    assert_eq!(result.html_template, "<html></html>");
}

#[test]
fn htmlpage_link_missing_name_fails() {
    let mut ex = Extractor::new(None);
    let r = ex.handle_metadata_link(&vec![
        attr("rel", "htmlpage"),
        attr("html", "popup.html"),
        attr("wasm-fn", "popup_page"),
    ]);
    assert!(matches!(r, Err(WextError::MissingRequiredAttribute(ref a)) if a == "name"));
}

#[test]
fn script_link_collects_declaration() {
    let mut ex = Extractor::new(None);
    ex.handle_metadata_link(&vec![
        attr("rel", "script"),
        attr("js", "background.js"),
        attr("background-script", ""),
        attr("wasm-fn", "background_script"),
    ])
    .unwrap();
    ex.handle_metadata_link(&manifest_link(&[("default", ""), ("href", "m.json")]))
        .unwrap();
    let result = ex.finish(String::new()).unwrap();
    assert_eq!(result.scripts.len(), 1);
    let script = &result.scripts[0];
    assert_eq!(script.js, "background.js");
    assert!(!script.no_reload);
    assert!(script.background_script);
    assert_eq!(script.wasm_fn, "background_script");
}

#[test]
fn script_link_missing_js_fails() {
    let mut ex = Extractor::new(None);
    let r = ex.handle_metadata_link(&vec![attr("rel", "script"), attr("wasm-fn", "f")]);
    assert!(matches!(r, Err(WextError::MissingRequiredAttribute(ref a)) if a == "js"));
}

#[test]
fn unknown_rel_changes_nothing() {
    let mut ex = Extractor::new(None);
    ex.handle_metadata_link(&vec![attr("rel", "stylesheet"), attr("href", "s.css")])
        .unwrap();
    ex.handle_metadata_link(&vec![attr("href", "no-rel-at-all")]).unwrap();
    let r = ex.finish(String::new());
    assert!(matches!(r, Err(WextError::NoManifestSelected)));
}

#[test]
fn script_text_chunks_accumulate_in_order() {
    let mut ex = Extractor::new(None);
    ex.handle_script_text("import init from './x.js';\n");
    ex.handle_script_text("run();\n");
    ex.handle_metadata_link(&manifest_link(&[("default", ""), ("href", "m.json")]))
        .unwrap();
    let result = ex.finish(String::new()).unwrap();
    assert_eq!(result.script_contents, "import init from './x.js';\nrun();\n");
}

#[test]
fn error_messages_name_the_fault() {
    let e = WextError::MissingRequiredAttribute("name".to_string());
    assert_eq!(e.message(), "missing required attribute: name");
    let e = WextError::MissingExpectedMarker("import".to_string());
    assert_eq!(e.message(), "expected marker not found: import");
    let e = WextError::AmbiguousManifestSelection;
    assert_eq!(e.message(), "multiple manifests were selected, but only one is allowed");
    let e = WextError::NoManifestSelected;
    assert_eq!(e.message(), "no manifest was selected, but one is required");
}
