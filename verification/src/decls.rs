//! The typed declarations collected from the input document's metadata, and
//! their mathematical models.
//!
//! One metadata element declares one desired output: an HTML page, a script
//! file, or a manifest candidate.  The extraction pass collects them in
//! document order into an `ExtractionResult`.

use vstd::prelude::*;

verus! {

/// Model of a page declaration: its field texts as character sequences.
#[verifier::ext_equal]
pub struct PageModel {
    pub name: Seq<char>,
    pub html: Seq<char>,
    pub no_reload: bool,
    pub wasm_fn: Seq<char>,
}

/// Model of a script declaration: its field texts as character sequences.
#[verifier::ext_equal]
pub struct ScriptModel {
    pub js: Seq<char>,
    pub no_reload: bool,
    pub background_script: bool,
    pub wasm_fn: Seq<char>,
}

/// One desired output HTML page: a near-clone of the input document under a
/// new name, with the inline script moved to a shim file.
#[derive(Debug)]
pub struct PageDeclaration {
    /// The page's logical name, matched against conditional-inclusion
    /// markers.
    pub name: String,
    /// The output HTML filename.
    pub html: String,
    /// Whether the auto-reload snippet is suppressed for this page.
    pub no_reload: bool,
    /// The WebAssembly entry-function name inserted into the page's shim.
    pub wasm_fn: String,
}

impl View for PageDeclaration {
    type V = PageModel;

    open spec fn view(&self) -> PageModel {
        PageModel {
            name: self.name@,
            html: self.html@,
            no_reload: self.no_reload,
            wasm_fn: self.wasm_fn@,
        }
    }
}

/// One desired output script file, holding what is normally in the inline
/// script.
#[derive(Debug)]
pub struct ScriptDeclaration {
    /// The output script filename.
    pub js: String,
    /// Whether the auto-reload snippet is suppressed for this script.
    pub no_reload: bool,
    /// Whether the script runs in a background context and needs the
    /// asynchronous wrapper.
    pub background_script: bool,
    /// The WebAssembly entry-function name inserted into the script.
    pub wasm_fn: String,
}

impl View for ScriptDeclaration {
    type V = ScriptModel;

    open spec fn view(&self) -> ScriptModel {
        ScriptModel {
            js: self.js@,
            no_reload: self.no_reload,
            background_script: self.background_script,
            wasm_fn: self.wasm_fn@,
        }
    }
}

/// The one manifest file to copy into the package, as a source-relative
/// path.
#[derive(Debug)]
pub struct ManifestSelection {
    pub href: String,
}

/// Everything the extraction pass produces: the declarations in document
/// order, the selected manifest, the cleaned HTML template and the
/// accumulated inline-script text.
#[derive(Debug)]
pub struct ExtractionResult {
    pub html_pages: Vec<PageDeclaration>,
    pub scripts: Vec<ScriptDeclaration>,
    pub manifest: ManifestSelection,
    pub html_template: String,
    pub script_contents: String,
}

} // verus!
