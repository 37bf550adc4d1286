use wextrunk::decls::PageDeclaration;
use wextrunk::extract::Attr;
use wextrunk::page::{
    join_address, keep_conditional_element, shim_js_name, shim_src_value, synthesize_shim_script,
};
use wextrunk::text::{contains_sub, find_from, replace_all, str_eq, trim_spaces};

fn attr(name: &str, value: &str) -> Attr {
    Attr { name: name.to_string(), value: value.to_string() }
}

#[test]
fn shim_name_replaces_dots_and_appends_suffix() {
    assert_eq!(shim_js_name("popup.html"), "popup_html_shim.js");
    assert_eq!(shim_js_name("a.b.html"), "a_b_html_shim.js");
}

#[test]
fn shim_src_is_absolute() {
    assert_eq!(shim_src_value("popup_html_shim.js"), "/popup_html_shim.js");
}

#[test]
fn shim_script_inherits_page_settings() {
    let page = PageDeclaration {
        name: "popup".to_string(),
        html: "popup.html".to_string(),
        no_reload: true,
        wasm_fn: "popup_page".to_string(),
    };
    let shim = synthesize_shim_script(&page);
    assert_eq!(shim.js, "popup_html_shim.js");
    assert!(shim.no_reload);
    assert!(!shim.background_script);
    assert_eq!(shim.wasm_fn, "popup_page");
}

#[test]
fn conditional_element_kept_only_for_named_page() {
    let popup_marked = vec![attr("class", "x"), attr("data-wextrunk-include", "popup")];
    let options_marked = vec![attr("data-wextrunk-include", "options")];
    assert!(keep_conditional_element(&popup_marked, "popup"));
    assert!(!keep_conditional_element(&options_marked, "popup"));
    assert!(keep_conditional_element(&options_marked, "options"));
}

#[test]
fn conditional_element_with_repeated_markers_matches_any() {
    let both = vec![
        attr("data-wextrunk-include", "popup"),
        attr("data-wextrunk-include", "options"),
    ];
    assert!(keep_conditional_element(&both, "popup"));
    assert!(keep_conditional_element(&both, "options"));
    assert!(!keep_conditional_element(&both, "background"));
}

#[test]
fn address_joins_host_and_port() {
    assert_eq!(join_address("127.0.0.1", "8080"), "127.0.0.1:8080");
}

#[test]
fn text_search_finds_first_occurrence() {
    assert_eq!(find_from("abcabc", 0, "bc"), Some(1));
    assert_eq!(find_from("abcabc", 2, "bc"), Some(4));
    assert_eq!(find_from("abcabc", 0, "zz"), None);
    assert!(contains_sub("hello function world", "function"));
    assert!(!contains_sub("hello world", "function"));
}

#[test]
fn text_replace_replaces_all_occurrences() {
    assert_eq!(replace_all("a.b.c", ".", "_"), "a_b_c");
    assert_eq!(replace_all("none here", "x", "y"), "none here");
    assert_eq!(replace_all("init(init(", "init(", "go("), "go(go(");
}

#[test]
fn text_trim_strips_edges_only() {
    assert_eq!(trim_spaces("  \n hi there \t\n"), "hi there");
    assert_eq!(trim_spaces(""), "");
    assert_eq!(trim_spaces(" \n\t "), "");
    assert_eq!(trim_spaces("solid"), "solid");
}

#[test]
fn string_equality_compares_contents() {
    assert!(str_eq("abc", "abc"));
    assert!(!str_eq("abc", "abd"));
    assert!(!str_eq("abc", "abcd"));
}
