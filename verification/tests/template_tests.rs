use wextrunk::errors::WextError;
use wextrunk::reload::AutoReloadTemplate;
use wextrunk::script_template::{fix_init_line, ScriptTemplate};

const P6_SCRIPT: &str = "import init from './x.js';\nasync function run(){\nawait init('x.wasm');\n}\nrun();\n";

#[test]
fn reload_template_splits_at_placeholders() {
    let t = AutoReloadTemplate::new("A{{__TRUNK_ADDRESS__}}B{{__TRUNK_WS_BASE__}}C").unwrap();
    assert_eq!(t.before_address, "A");
    assert_eq!(t.after_address, "B");
    assert_eq!(t.after_base, "C");
}

#[test]
fn reload_template_renders_values_in_place() {
    let t = AutoReloadTemplate::new("ws('{{__TRUNK_ADDRESS__}}', '{{__TRUNK_WS_BASE__}}')")
        .unwrap();
    let mut out = String::new();
    t.render("127.0.0.1:8080", "/", &mut out);
    assert_eq!(out, "ws('127.0.0.1:8080', '/')");
}

#[test]
fn reload_template_missing_address_token_fails() {
    let r = AutoReloadTemplate::new("function reload() {}");
    assert!(matches!(r, Err(WextError::MissingExpectedMarker(ref m)) if m == "{{__TRUNK_ADDRESS__}}"));
}

#[test]
fn reload_template_missing_base_token_fails() {
    let r = AutoReloadTemplate::new("function reload() { '{{__TRUNK_ADDRESS__}}' }");
    assert!(matches!(r, Err(WextError::MissingExpectedMarker(ref m)) if m == "{{__TRUNK_WS_BASE__}}"));
}

#[test]
fn script_without_dispatch_splits_at_module_path() {
    let t = ScriptTemplate::new(P6_SCRIPT).unwrap();
    assert_eq!(t.import_line, "import init from './x.js';\n");
    assert_eq!(
        t.init,
        "async function run(){\nawait init({module_or_path: 'x.wasm'});\n"
    );
    assert_eq!(t.dispatch_event, "");
    assert!(t.auto_reload.is_none());
}

#[test]
fn script_with_dispatch_keeps_statement_separate() {
    let s = "import init from './pkg.js';\nawait init('./pkg_bg.wasm');\ndispatchEvent(new Event('TrunkApplicationStarted'));\n";
    let t = ScriptTemplate::new(s).unwrap();
    assert_eq!(t.import_line, "import init from './pkg.js';\n");
    assert_eq!(t.init, "await init({module_or_path: './pkg_bg.wasm'});\n");
    assert_eq!(
        t.dispatch_event,
        "dispatchEvent(new Event('TrunkApplicationStarted'));"
    );
    assert!(t.auto_reload.is_none());
}

#[test]
fn script_with_reload_snippet_parses_template() {
    let s = "import init from './pkg.js';\nawait init('./pkg_bg.wasm');\ndispatchEvent(new Event('go'));\n(function () { connect('{{__TRUNK_ADDRESS__}}{{__TRUNK_WS_BASE__}}'); })();\n";
    let t = ScriptTemplate::new(s).unwrap();
    let reload = t.auto_reload.as_ref().unwrap();
    assert_eq!(reload.before_address, "\n(function () { connect('");
    assert_eq!(reload.after_address, "");
    assert_eq!(reload.after_base, "'); })();\n");
}

#[test]
fn script_missing_import_fails() {
    let r = ScriptTemplate::new("console.log('nothing here');\n");
    assert!(matches!(r, Err(WextError::MissingExpectedMarker(ref m)) if m == "import"));
}

#[test]
fn script_missing_import_terminator_fails() {
    let r = ScriptTemplate::new("import init from './x.js'");
    assert!(matches!(r, Err(WextError::MissingExpectedMarker(ref m)) if m == ";\n"));
}

#[test]
fn script_missing_both_boundaries_fails() {
    let r = ScriptTemplate::new("import init from './x.js';\nrun();\n");
    assert!(matches!(r, Err(WextError::MissingExpectedMarker(ref m)) if m == ".wasm');\n"));
}

#[test]
fn find_dispatch_event_locates_statement() {
    let s = "import x;\ndispatchEvent(new Event('a'));\nrest";
    let (start, end) = ScriptTemplate::find_dispatch_event(s, 0).unwrap();
    assert_eq!(&s[start..end], "dispatchEvent(new Event('a'));");
    assert!(ScriptTemplate::find_dispatch_event("no dispatch here\n", 0).is_none());
}

#[test]
fn fix_init_line_rewrites_bare_argument() {
    assert_eq!(
        fix_init_line("await init('./pkg.js');"),
        "await init({module_or_path: './pkg.js'});\n"
    );
}

#[test]
fn render_without_wrapper_concatenates_fragments() {
    let t = ScriptTemplate::new(P6_SCRIPT).unwrap();
    let mut out = String::new();
    t.render_without_wrapper("popup_page", true, "127.0.0.1:8080", "/", &mut out);
    assert_eq!(
        out,
        "import init from './x.js';\nasync function run(){\nawait init({module_or_path: 'x.wasm'});\nawait wasm.popup_page();\n"
    );
}

#[test]
fn render_with_wrapper_brackets_body() {
    let t = ScriptTemplate::new(P6_SCRIPT).unwrap();
    let mut wrapped = String::new();
    t.render_with_wrapper("background_script", true, "127.0.0.1:8080", "/", &mut wrapped);
    assert!(wrapped.starts_with("import init from './x.js';\n(async () => {\n\n"));
    assert!(wrapped.ends_with("\n\n})();\n"));
    let mut plain = String::new();
    t.render_without_wrapper("background_script", true, "127.0.0.1:8080", "/", &mut plain);
    assert!(!plain.contains("(async () => {"));
    assert!(!plain.contains("})();"));
}

#[test]
fn render_dispatches_on_wrapper_flag() {
    let t = ScriptTemplate::new(P6_SCRIPT).unwrap();
    let mut with_flag = String::new();
    t.render("run", false, true, "127.0.0.1:8080", "/", &mut with_flag);
    let mut wrapped = String::new();
    t.render_with_wrapper("run", false, "127.0.0.1:8080", "/", &mut wrapped);
    assert_eq!(with_flag, wrapped);
}

#[test]
fn suppressing_reload_removes_exactly_the_reload_segment() {
    let s = "import init from './pkg.js';\nawait init('./pkg_bg.wasm');\ndispatchEvent(new Event('go'));\n(function () { connect('{{__TRUNK_ADDRESS__}}{{__TRUNK_WS_BASE__}}'); })();\n";
    let t = ScriptTemplate::new(s).unwrap();
    let mut with_reload = String::new();
    t.render_without_wrapper("run", false, "10.0.0.1:9090", "/ws", &mut with_reload);
    let mut without_reload = String::new();
    t.render_without_wrapper("run", true, "10.0.0.1:9090", "/ws", &mut without_reload);
    let mut reload_segment = String::new();
    t.auto_reload
        .as_ref()
        .unwrap()
        .render("10.0.0.1:9090", "/ws", &mut reload_segment);
    assert_eq!(with_reload, format!("{without_reload}{reload_segment}"));
    assert!(with_reload.contains("connect('10.0.0.1:9090/ws')"));
}
