//! Per-page output decisions.
//!
//! Rendering one declared HTML page means writing its shim script and then
//! re-streaming the shared HTML template with page-specific rewrites.  The
//! decisions those rewrites make — the shim script's name, the rewritten
//! script reference, and which conditionally-included elements survive into
//! this page — are plain functions of the declaration and each element's
//! attributes.

use vstd::prelude::*;

use crate::decls::{PageDeclaration, ScriptDeclaration};
use crate::extract::Attr;
use crate::text::{spec_replace, str_eq};

verus! {

/// The shim script filename derived from a page's HTML filename: every dot
/// replaced by an underscore, with the shim suffix appended.
pub open spec fn spec_shim_js_name(html: Seq<char>) -> Seq<char> {
    spec_replace(html, "."@, "_"@) + "_shim.js"@
}

/// The shim script filename for an output HTML filename.
pub fn shim_js_name(html: &str) -> (r: String)
    ensures
        r@ == spec_shim_js_name(html@),
{
    proof {
        reveal_strlit(".");
    }
    let mut name = crate::text::replace_all(html, ".", "_");
    name.append("_shim.js");
    name
}

/// The value written into the page's script reference: the shim filename as
/// an absolute path.
pub fn shim_src_value(js: &str) -> (r: String)
    ensures
        r@ == "/"@ + js@,
{
    let mut v = String::from_str("/");
    v.append(js);
    v
}

/// The implicit script declaration for a page's shim: named after the
/// page's HTML file, inheriting its reload suppression and entry function,
/// never a background script.
pub fn synthesize_shim_script(page: &PageDeclaration) -> (r: ScriptDeclaration)
    ensures
        r.js@ == spec_shim_js_name(page.html@),
        r.no_reload == page.no_reload,
        !r.background_script,
        r.wasm_fn@ == page.wasm_fn@,
{
    ScriptDeclaration {
        js: shim_js_name(page.html.as_str()),
        no_reload: page.no_reload,
        background_script: false,
        wasm_fn: page.wasm_fn.clone(),
    }
}

/// Whether an element carrying conditional-inclusion markers survives into
/// the page named `page_name`: it does exactly when some marker's value is
/// that name.  (An element may carry several markers, one per page it
/// belongs to.)
pub open spec fn spec_keep_element(attrs: Seq<Attr>, page_name: Seq<char>) -> bool {
    exists|i: int|
        0 <= i < attrs.len() && attrs[i].name@ == "data-wextrunk-include"@ && attrs[i].value@
            == page_name
}

/// Whether an element with conditional-inclusion markers is kept for the
/// page named `page_name`.
pub fn keep_conditional_element(attrs: &Vec<Attr>, page_name: &str) -> (r: bool)
    ensures
        r == spec_keep_element(attrs@, page_name@),
{
    let mut i: usize = 0;
    while i < attrs.len()
        invariant
            i <= attrs@.len(),
            forall|j: int|
                0 <= j < i ==> !(attrs@[j].name@ == "data-wextrunk-include"@ && attrs@[j].value@
                    == page_name@),
        decreases attrs@.len() - i,
    {
        if str_eq(attrs[i].name.as_str(), "data-wextrunk-include") && str_eq(
            attrs[i].value.as_str(),
            page_name,
        ) {
            return true;
        }
        i += 1;
    }
    false
}

/// The development server address handed to renders: host and port joined
/// with a colon.
pub fn join_address(host: &str, port: &str) -> (r: String)
    ensures
        r@ == host@ + ":"@ + port@,
{
    let mut a = host.to_owned();
    a.append(":");
    a.append(port);
    proof {
        assert(a@ =~= host@ + ":"@ + port@);
    }
    a
}

} // verus!
