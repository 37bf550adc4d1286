//! The metadata extractor.
//!
//! The input document is streamed once; for every element carrying the
//! metadata marker, the element's attributes are handed to the extractor,
//! which branches on the `rel` discriminator to collect page, script and
//! manifest declarations; inline-script text is accumulated separately.  The
//! extractor is a state machine over plain attribute lists, so its selection
//! rules are stated — and proved — over a mathematical model of its state.

use vstd::prelude::*;

use crate::decls::{
    ExtractionResult, ManifestSelection, PageDeclaration, PageModel, ScriptDeclaration,
    ScriptModel,
};
use crate::errors::WextError;
use crate::text::str_eq;

verus! {

/// One attribute of a markup element, as plain text.
#[derive(Debug)]
pub struct Attr {
    pub name: String,
    pub value: String,
}

/// The value of the first attribute called `name`, or `None` when the
/// element has no such attribute.
pub open spec fn spec_attr_value(attrs: Seq<Attr>, name: Seq<char>) -> Option<Seq<char>>
    decreases attrs.len(),
{
    if attrs.len() == 0 {
        None
    } else if attrs[0].name@ == name {
        Some(attrs[0].value@)
    } else {
        spec_attr_value(attrs.drop_first(), name)
    }
}

/// Whether the element carries an attribute called `name`.
pub open spec fn spec_has_attr(attrs: Seq<Attr>, name: Seq<char>) -> bool {
    exists|i: int| 0 <= i < attrs.len() && attrs[i].name@ == name
}

/// The value of the first attribute called `name`, cloned out of the list.
pub fn get_attribute(attrs: &Vec<Attr>, name: &str) -> (r: Option<String>)
    ensures
        match r {
            Some(v) => spec_attr_value(attrs@, name@) == Some(v@),
            None => spec_attr_value(attrs@, name@) is None,
        },
{
    let ghost whole = attrs@;
    proof {
        assert(attrs@.skip(0) =~= attrs@);
    }
    let mut i: usize = 0;
    while i < attrs.len()
        invariant
            i <= attrs@.len(),
            whole == attrs@,
            spec_attr_value(attrs@, name@) == spec_attr_value(
                attrs@.skip(i as int),
                name@,
            ),
            forall|j: int| 0 <= j < i ==> attrs@[j].name@ != name@,
        decreases attrs@.len() - i,
    {
        proof {
            let rest = attrs@.skip(i as int);
            assert(rest[0] == attrs@[i as int]);
            assert(rest.drop_first() =~= attrs@.skip(i as int + 1));
        }
        if str_eq(attrs[i].name.as_str(), name) {
            return Some(attrs[i].value.clone());
        }
        i += 1;
    }
    proof {
        assert(attrs@.skip(i as int).len() == 0);
    }
    None
}

/// Whether the element carries an attribute called `name`.
pub fn has_attribute(attrs: &Vec<Attr>, name: &str) -> (r: bool)
    ensures
        r == spec_has_attr(attrs@, name@),
{
    let mut i: usize = 0;
    while i < attrs.len()
        invariant
            i <= attrs@.len(),
            forall|j: int| 0 <= j < i ==> attrs@[j].name@ != name@,
        decreases attrs@.len() - i,
    {
        if str_eq(attrs[i].name.as_str(), name) {
            return true;
        }
        i += 1;
    }
    false
}

/// Model of the extractor's state: the requested target identifier, the
/// declarations collected so far, the selected manifest's path, and the
/// accumulated inline-script text.
#[verifier::ext_equal]
pub struct ExtractorModel {
    pub target: Option<Seq<char>>,
    pub pages: Seq<PageModel>,
    pub scripts: Seq<ScriptModel>,
    pub manifest: Option<Seq<char>>,
    pub script_text: Seq<char>,
}

/// What one metadata element does to the extractor: advances its state, or
/// fails naming a missing attribute, or fails as ambiguous.
pub enum StepResult {
    Progress(ExtractorModel),
    MissingAttr(Seq<char>),
    Ambiguous,
}

/// Effect of an `htmlpage` metadata element: appends a page declaration
/// built from the `name`, `html`, `wasm-fn` and optional `no-reload`
/// attributes.
pub open spec fn spec_page_step(m: ExtractorModel, attrs: Seq<Attr>) -> StepResult {
    if spec_attr_value(attrs, "name"@) is None {
        StepResult::MissingAttr("name"@)
    } else if spec_attr_value(attrs, "html"@) is None {
        StepResult::MissingAttr("html"@)
    } else if spec_attr_value(attrs, "wasm-fn"@) is None {
        StepResult::MissingAttr("wasm-fn"@)
    } else {
        StepResult::Progress(
            ExtractorModel {
                pages: m.pages.push(
                    PageModel {
                        name: spec_attr_value(attrs, "name"@)->Some_0,
                        html: spec_attr_value(attrs, "html"@)->Some_0,
                        no_reload: spec_has_attr(attrs, "no-reload"@),
                        wasm_fn: spec_attr_value(attrs, "wasm-fn"@)->Some_0,
                    },
                ),
                ..m
            },
        )
    }
}

/// Effect of a `script` metadata element: appends a script declaration
/// built from the `js`, `wasm-fn` and optional `no-reload` and
/// `background-script` attributes.
pub open spec fn spec_script_step(m: ExtractorModel, attrs: Seq<Attr>) -> StepResult {
    if spec_attr_value(attrs, "js"@) is None {
        StepResult::MissingAttr("js"@)
    } else if spec_attr_value(attrs, "wasm-fn"@) is None {
        StepResult::MissingAttr("wasm-fn"@)
    } else {
        StepResult::Progress(
            ExtractorModel {
                scripts: m.scripts.push(
                    ScriptModel {
                        js: spec_attr_value(attrs, "js"@)->Some_0,
                        no_reload: spec_has_attr(attrs, "no-reload"@),
                        background_script: spec_has_attr(attrs, "background-script"@),
                        wasm_fn: spec_attr_value(attrs, "wasm-fn"@)->Some_0,
                    },
                ),
                ..m
            },
        )
    }
}

/// Selecting a manifest candidate: a second selection is ambiguous, and a
/// selected candidate must name its path.
pub open spec fn spec_select_manifest(m: ExtractorModel, attrs: Seq<Attr>) -> StepResult {
    if m.manifest is Some {
        StepResult::Ambiguous
    } else if spec_attr_value(attrs, "href"@) is None {
        StepResult::MissingAttr("href"@)
    } else {
        StepResult::Progress(
            ExtractorModel { manifest: Some(spec_attr_value(attrs, "href"@)->Some_0), ..m },
        )
    }
}

/// Effect of a `manifest` metadata element.  With a requested target
/// identifier the candidate is selected exactly when its `target` attribute
/// equals it — a candidate without a `target` attribute is an error, and the
/// default marker is never consulted.  Without one, the candidate is
/// selected exactly when it carries the `default` marker.
pub open spec fn spec_manifest_step(m: ExtractorModel, attrs: Seq<Attr>) -> StepResult {
    match m.target {
        Some(t) => {
            if spec_attr_value(attrs, "target"@) is None {
                StepResult::MissingAttr("target"@)
            } else if spec_attr_value(attrs, "target"@) == Some(t) {
                spec_select_manifest(m, attrs)
            } else {
                StepResult::Progress(m)
            }
        },
        None => {
            if spec_has_attr(attrs, "default"@) {
                spec_select_manifest(m, attrs)
            } else {
                StepResult::Progress(m)
            }
        },
    }
}

/// Effect of one metadata element on the extractor, branching on its `rel`
/// discriminator; an element with an unknown or missing discriminator
/// changes nothing.
pub open spec fn spec_link_step(m: ExtractorModel, attrs: Seq<Attr>) -> StepResult {
    let rel = spec_attr_value(attrs, "rel"@);
    if rel == Some("htmlpage"@) {
        spec_page_step(m, attrs)
    } else if rel == Some("script"@) {
        spec_script_step(m, attrs)
    } else if rel == Some("manifest"@) {
        spec_manifest_step(m, attrs)
    } else {
        StepResult::Progress(m)
    }
}

/// How an executable step must relate to its model step: on progress the new
/// state is the stepped model; on failure the state is unchanged and the
/// error names what the model step names.
pub open spec fn step_outcome(
    pre: ExtractorModel,
    post: ExtractorModel,
    r: Result<(), WextError>,
    step: StepResult,
) -> bool {
    match step {
        StepResult::Progress(m) => r is Ok && post == m,
        StepResult::MissingAttr(a) => {
            &&& r matches Err(WextError::MissingRequiredAttribute(n)) && n@ == a
            &&& post == pre
        },
        StepResult::Ambiguous => {
            &&& r matches Err(WextError::AmbiguousManifestSelection)
            &&& post == pre
        },
    }
}

pub open spec fn opt_str_view(o: Option<String>) -> Option<Seq<char>> {
    match o {
        Some(s) => Some(s@),
        None => None,
    }
}

pub open spec fn opt_manifest_view(o: Option<ManifestSelection>) -> Option<Seq<char>> {
    match o {
        Some(m) => Some(m.href@),
        None => None,
    }
}

/// The extraction pass's mutable state: one per run of the pass.
#[derive(Debug)]
pub struct Extractor {
    /// The externally requested target identifier, when one was supplied.
    pub target: Option<String>,
    /// Page declarations, in document order.
    pub html_pages: Vec<PageDeclaration>,
    /// Script declarations, in document order.
    pub scripts: Vec<ScriptDeclaration>,
    /// The manifest candidate selected so far.
    pub selected_manifest: Option<ManifestSelection>,
    /// The accumulated text of the inlined bootstrap script.
    pub script_contents: String,
}

impl View for Extractor {
    type V = ExtractorModel;

    open spec fn view(&self) -> ExtractorModel {
        ExtractorModel {
            target: opt_str_view(self.target),
            pages: self.html_pages@.map_values(|p: PageDeclaration| p@),
            scripts: self.scripts@.map_values(|s: ScriptDeclaration| s@),
            manifest: opt_manifest_view(self.selected_manifest),
            script_text: self.script_contents@,
        }
    }
}

impl Extractor {
    /// A fresh extractor for one pass, with nothing collected, selecting by
    /// `target` when one is supplied and by the default marker otherwise.
    pub fn new(target: Option<String>) -> (r: Extractor)
        ensures
            r@ == (ExtractorModel {
                target: opt_str_view(target),
                pages: Seq::<PageModel>::empty(),
                scripts: Seq::<ScriptModel>::empty(),
                manifest: None,
                script_text: Seq::<char>::empty(),
            }),
    {
        let r = Extractor {
            target,
            html_pages: Vec::new(),
            scripts: Vec::new(),
            selected_manifest: None,
            script_contents: String::new(),
        };
        proof {
            assert(r@ =~~= (ExtractorModel {
                target: opt_str_view(r.target),
                pages: Seq::<PageModel>::empty(),
                scripts: Seq::<ScriptModel>::empty(),
                manifest: None,
                script_text: Seq::<char>::empty(),
            }));
        }
        r
    }

    fn handle_htmlpage(&mut self, attrs: &Vec<Attr>) -> (r: Result<(), WextError>)
        ensures
            step_outcome(old(self)@, final(self)@, r, spec_page_step(old(self)@, attrs@)),
    {
        let name = match get_attribute(attrs, "name") {
            Some(v) => v,
            None => {
                return Err(WextError::MissingRequiredAttribute("name".to_owned()));
            },
        };
        let html = match get_attribute(attrs, "html") {
            Some(v) => v,
            None => {
                return Err(WextError::MissingRequiredAttribute("html".to_owned()));
            },
        };
        let wasm_fn = match get_attribute(attrs, "wasm-fn") {
            Some(v) => v,
            None => {
                return Err(WextError::MissingRequiredAttribute("wasm-fn".to_owned()));
            },
        };
        let no_reload = has_attribute(attrs, "no-reload");
        self.html_pages.push(PageDeclaration { name, html, no_reload, wasm_fn });
        proof {
            let stepped = spec_page_step(old(self)@, attrs@)->Progress_0;
            assert(self@.pages =~= stepped.pages);
            assert(self@ =~~= stepped);
        }
        Ok(())
    }

    fn handle_script(&mut self, attrs: &Vec<Attr>) -> (r: Result<(), WextError>)
        ensures
            step_outcome(old(self)@, final(self)@, r, spec_script_step(old(self)@, attrs@)),
    {
        let js = match get_attribute(attrs, "js") {
            Some(v) => v,
            None => {
                return Err(WextError::MissingRequiredAttribute("js".to_owned()));
            },
        };
        let wasm_fn = match get_attribute(attrs, "wasm-fn") {
            Some(v) => v,
            None => {
                return Err(WextError::MissingRequiredAttribute("wasm-fn".to_owned()));
            },
        };
        let no_reload = has_attribute(attrs, "no-reload");
        let background_script = has_attribute(attrs, "background-script");
        self.scripts.push(ScriptDeclaration { js, no_reload, background_script, wasm_fn });
        proof {
            let stepped = spec_script_step(old(self)@, attrs@)->Progress_0;
            assert(self@.scripts =~= stepped.scripts);
            assert(self@ =~~= stepped);
        }
        Ok(())
    }

    fn handle_manifest(&mut self, attrs: &Vec<Attr>) -> (r: Result<(), WextError>)
        ensures
            step_outcome(old(self)@, final(self)@, r, spec_manifest_step(old(self)@, attrs@)),
    {
        let selected: bool;
        match &self.target {
            Some(t) => {
                let manifest_target = match get_attribute(attrs, "target") {
                    Some(v) => v,
                    None => {
                        return Err(WextError::MissingRequiredAttribute("target".to_owned()));
                    },
                };
                selected = str_eq(manifest_target.as_str(), t.as_str());
            },
            None => {
                selected = has_attribute(attrs, "default");
            },
        }
        if !selected {
            return Ok(());
        }
        if self.selected_manifest.is_some() {
            return Err(WextError::AmbiguousManifestSelection);
        }
        let href = match get_attribute(attrs, "href") {
            Some(v) => v,
            None => {
                return Err(WextError::MissingRequiredAttribute("href".to_owned()));
            },
        };
        self.selected_manifest = Some(ManifestSelection { href });
        proof {
            let stepped = spec_select_manifest(old(self)@, attrs@)->Progress_0;
            assert(self@ =~~= stepped);
        }
        Ok(())
    }

    /// Apply one metadata element's attributes to the extractor, exactly as
    /// the model step `spec_link_step` describes; on an error the state is
    /// unchanged.
    pub fn handle_metadata_link(&mut self, attrs: &Vec<Attr>) -> (r: Result<(), WextError>)
        ensures
            step_outcome(old(self)@, final(self)@, r, spec_link_step(old(self)@, attrs@)),
    {
        let rel = match get_attribute(attrs, "rel") {
            Some(v) => v,
            None => {
                return Ok(());
            },
        };
        if str_eq(rel.as_str(), "htmlpage") {
            self.handle_htmlpage(attrs)
        } else if str_eq(rel.as_str(), "script") {
            self.handle_script(attrs)
        } else if str_eq(rel.as_str(), "manifest") {
            self.handle_manifest(attrs)
        } else {
            Ok(())
        }
    }

    /// Append one chunk of inline-script text to the accumulated script
    /// buffer.
    pub fn handle_script_text(&mut self, chunk: &str)
        ensures
            final(self)@ == (ExtractorModel { script_text: old(self)@.script_text + chunk@, ..old(self)@ }),
    {
        self.script_contents.append(chunk);
        proof {
            assert(self@ =~~= (ExtractorModel {
                script_text: old(self)@.script_text + chunk@,
                ..old(self)@
            }));
        }
    }

    /// End the pass, attaching the cleaned document text: succeeds with
    /// everything collected exactly when a manifest was selected, and fails
    /// with the no-manifest error otherwise.  A requested target that
    /// matched nothing fails too: the default-marker rule is never
    /// substituted for it.
    pub fn finish(self, html_template: String) -> (r: Result<ExtractionResult, WextError>)
        ensures
            match self@.manifest {
                Some(href) => {
                    &&& r is Ok
                    &&& r->Ok_0.html_pages@ == self.html_pages@
                    &&& r->Ok_0.scripts@ == self.scripts@
                    &&& r->Ok_0.manifest.href@ == href
                    &&& r->Ok_0.html_template@ == html_template@
                    &&& r->Ok_0.script_contents@ == self@.script_text
                },
                None => r matches Err(WextError::NoManifestSelected),
            },
    {
        let manifest = match self.selected_manifest {
            Some(m) => m,
            None => {
                return Err(WextError::NoManifestSelected);
            },
        };
        Ok(
            ExtractionResult {
                html_pages: self.html_pages,
                scripts: self.scripts,
                manifest,
                html_template,
                script_contents: self.script_contents,
            },
        )
    }
}

/// A run of the extraction pass over the metadata elements of a document, in
/// document order: the fold of `spec_link_step`, stopping at the first
/// failure.
pub open spec fn spec_run_links(m: ExtractorModel, links: Seq<Seq<Attr>>) -> StepResult
    decreases links.len(),
{
    if links.len() == 0 {
        StepResult::Progress(m)
    } else {
        match spec_link_step(m, links[0]) {
            StepResult::Progress(m2) => spec_run_links(m2, links.drop_first()),
            StepResult::MissingAttr(a) => StepResult::MissingAttr(a),
            StepResult::Ambiguous => StepResult::Ambiguous,
        }
    }
}

/// Whether an element is a manifest metadata element.
pub open spec fn is_manifest_link(attrs: Seq<Attr>) -> bool {
    spec_attr_value(attrs, "rel"@) == Some("manifest"@)
}

/// Whether an element is a manifest metadata element carrying the default
/// marker.
pub open spec fn is_default_manifest(attrs: Seq<Attr>) -> bool {
    is_manifest_link(attrs) && spec_has_attr(attrs, "default"@)
}

/// Whether a metadata element carries every attribute its variant requires,
/// so that stepping on it never reports a missing attribute.
pub open spec fn link_well_formed(attrs: Seq<Attr>) -> bool {
    let rel = spec_attr_value(attrs, "rel"@);
    if rel == Some("htmlpage"@) {
        spec_attr_value(attrs, "name"@) is Some && spec_attr_value(attrs, "html"@) is Some
            && spec_attr_value(attrs, "wasm-fn"@) is Some
    } else if rel == Some("script"@) {
        spec_attr_value(attrs, "js"@) is Some && spec_attr_value(attrs, "wasm-fn"@) is Some
    } else if rel == Some("manifest"@) {
        spec_attr_value(attrs, "href"@) is Some
    } else {
        true
    }
}

proof fn lemma_step_non_default_preserves(m: ExtractorModel, attrs: Seq<Attr>)
    requires
        m.target is None,
        link_well_formed(attrs),
        !is_default_manifest(attrs),
    ensures
        spec_link_step(m, attrs) matches StepResult::Progress(m2) && m2.manifest == m.manifest
            && m2.target == m.target,
{
}

proof fn lemma_step_non_manifest_preserves(m: ExtractorModel, attrs: Seq<Attr>)
    requires
        link_well_formed(attrs),
        !is_manifest_link(attrs),
    ensures
        spec_link_step(m, attrs) matches StepResult::Progress(m2) && m2.manifest == m.manifest
            && m2.target == m.target,
{
}

proof fn lemma_default_manifest_selects(m: ExtractorModel, attrs: Seq<Attr>)
    requires
        m.target is None,
        m.manifest is None,
        is_default_manifest(attrs),
        link_well_formed(attrs),
    ensures
        spec_link_step(m, attrs) matches StepResult::Progress(m2) && m2.manifest
            == spec_attr_value(attrs, "href"@) && m2.target == m.target,
{
    lemma_rel_values_distinct();
}

proof fn lemma_default_manifest_ambiguous(m: ExtractorModel, attrs: Seq<Attr>)
    requires
        m.target is None,
        m.manifest is Some,
        is_default_manifest(attrs),
    ensures
        spec_link_step(m, attrs) == StepResult::Ambiguous,
{
    lemma_rel_values_distinct();
}

proof fn lemma_rel_values_distinct()
    ensures
        "manifest"@ != "htmlpage"@,
        "manifest"@ != "script"@,
{
    reveal_strlit("htmlpage");
    reveal_strlit("script");
    reveal_strlit("manifest");
    assert("manifest"@[0] == 'm');
    assert("htmlpage"@[0] == 'h');
    assert("manifest"@.len() == 8);
    assert("script"@.len() == 6);
}

proof fn lemma_run_no_default_preserves(m: ExtractorModel, links: Seq<Seq<Attr>>)
    requires
        m.target is None,
        forall|i: int|
            0 <= i < links.len() ==> link_well_formed(#[trigger] links[i])
                && !is_default_manifest(links[i]),
    ensures
        spec_run_links(m, links) matches StepResult::Progress(mf) && mf.manifest == m.manifest,
    decreases links.len(),
{
    if links.len() > 0 {
        lemma_step_non_default_preserves(m, links[0]);
        let m2 = spec_link_step(m, links[0])->Progress_0;
        assert forall|i: int| 0 <= i < links.drop_first().len() implies link_well_formed(
            #[trigger] links.drop_first()[i],
        ) && !is_default_manifest(links.drop_first()[i]) by {
            assert(links.drop_first()[i] == links[i + 1]);
        }
        lemma_run_no_default_preserves(m2, links.drop_first());
    }
}

/// With no target identifier and exactly one default-marked manifest among
/// well-formed metadata elements, the pass succeeds and selects exactly that
/// manifest's path.
pub proof fn lemma_single_default_manifest_selected(
    m: ExtractorModel,
    links: Seq<Seq<Attr>>,
    k: int,
)
    requires
        m.target is None,
        m.manifest is None,
        0 <= k < links.len(),
        is_default_manifest(links[k]),
        link_well_formed(links[k]),
        forall|i: int|
            0 <= i < links.len() && i != k ==> link_well_formed(#[trigger] links[i])
                && !is_default_manifest(links[i]),
    ensures
        spec_run_links(m, links) matches StepResult::Progress(mf) && mf.manifest
            == spec_attr_value(links[k], "href"@),
    decreases k,
{
    if k == 0 {
        lemma_default_manifest_selects(m, links[0]);
        let m2 = spec_link_step(m, links[0])->Progress_0;
        assert(m2.manifest == spec_attr_value(links[0], "href"@));
        assert forall|i: int| 0 <= i < links.drop_first().len() implies link_well_formed(
            #[trigger] links.drop_first()[i],
        ) && !is_default_manifest(links.drop_first()[i]) by {
            assert(links.drop_first()[i] == links[i + 1]);
        }
        lemma_run_no_default_preserves(m2, links.drop_first());
    } else {
        lemma_step_non_default_preserves(m, links[0]);
        let m2 = spec_link_step(m, links[0])->Progress_0;
        assert forall|i: int|
            0 <= i < links.drop_first().len() && i != k - 1 implies link_well_formed(
            #[trigger] links.drop_first()[i],
        ) && !is_default_manifest(links.drop_first()[i]) by {
            assert(links.drop_first()[i] == links[i + 1]);
        }
        assert(links.drop_first()[k - 1] == links[k]);
        lemma_single_default_manifest_selected(m2, links.drop_first(), k - 1);
    }
}

proof fn lemma_run_selected_hits_default(m: ExtractorModel, links: Seq<Seq<Attr>>, k: int)
    requires
        m.target is None,
        m.manifest is Some,
        0 <= k < links.len(),
        is_default_manifest(links[k]),
        forall|i: int|
            0 <= i < k ==> link_well_formed(#[trigger] links[i]) && !is_default_manifest(
                links[i],
            ),
    ensures
        spec_run_links(m, links) == StepResult::Ambiguous,
    decreases k,
{
    if k == 0 {
        lemma_default_manifest_ambiguous(m, links[0]);
        assert(spec_link_step(m, links[0]) == StepResult::Ambiguous);
    } else {
        lemma_step_non_default_preserves(m, links[0]);
        let m2 = spec_link_step(m, links[0])->Progress_0;
        assert forall|i: int| 0 <= i < k - 1 implies link_well_formed(
            #[trigger] links.drop_first()[i],
        ) && !is_default_manifest(links.drop_first()[i]) by {
            assert(links.drop_first()[i] == links[i + 1]);
        }
        assert(links.drop_first()[k - 1] == links[k]);
        lemma_run_selected_hits_default(m2, links.drop_first(), k - 1);
    }
}

/// With no target identifier, two default-marked manifests among otherwise
/// well-formed, non-default elements make the pass fail as ambiguous.
pub proof fn lemma_two_default_manifests_ambiguous(
    m: ExtractorModel,
    links: Seq<Seq<Attr>>,
    k1: int,
    k2: int,
)
    requires
        m.target is None,
        m.manifest is None,
        0 <= k1 < k2 < links.len(),
        is_default_manifest(links[k1]),
        link_well_formed(links[k1]),
        is_default_manifest(links[k2]),
        forall|i: int|
            0 <= i < k2 && i != k1 ==> link_well_formed(#[trigger] links[i])
                && !is_default_manifest(links[i]),
    ensures
        spec_run_links(m, links) == StepResult::Ambiguous,
    decreases k1,
{
    if k1 == 0 {
        lemma_default_manifest_selects(m, links[0]);
        lemma_rel_values_distinct();
        let m2 = spec_link_step(m, links[0])->Progress_0;
        assert(m2.manifest is Some);
        assert forall|i: int| 0 <= i < k2 - 1 implies link_well_formed(
            #[trigger] links.drop_first()[i],
        ) && !is_default_manifest(links.drop_first()[i]) by {
            assert(links.drop_first()[i] == links[i + 1]);
        }
        assert(links.drop_first()[k2 - 1] == links[k2]);
        lemma_run_selected_hits_default(m2, links.drop_first(), k2 - 1);
    } else {
        lemma_step_non_default_preserves(m, links[0]);
        let m2 = spec_link_step(m, links[0])->Progress_0;
        assert forall|i: int|
            0 <= i < k2 - 1 && i != k1 - 1 implies link_well_formed(
            #[trigger] links.drop_first()[i],
        ) && !is_default_manifest(links.drop_first()[i]) by {
            assert(links.drop_first()[i] == links[i + 1]);
        }
        assert(links.drop_first()[k1 - 1] == links[k1]);
        assert(links.drop_first()[k2 - 1] == links[k2]);
        lemma_two_default_manifests_ambiguous(m2, links.drop_first(), k1 - 1, k2 - 1);
    }
}

/// With no manifest elements at all (and the rest well formed), the pass
/// runs through but selects nothing — so ending it reports the no-manifest
/// error, whatever the target identifier.
pub proof fn lemma_no_manifest_links_selects_none(m: ExtractorModel, links: Seq<Seq<Attr>>)
    requires
        m.manifest is None,
        forall|i: int|
            0 <= i < links.len() ==> link_well_formed(#[trigger] links[i]) && !is_manifest_link(
                links[i],
            ),
    ensures
        spec_run_links(m, links) matches StepResult::Progress(mf) && mf.manifest is None,
    decreases links.len(),
{
    if links.len() > 0 {
        lemma_step_non_manifest_preserves(m, links[0]);
        let m2 = spec_link_step(m, links[0])->Progress_0;
        assert forall|i: int| 0 <= i < links.drop_first().len() implies link_well_formed(
            #[trigger] links.drop_first()[i],
        ) && !is_manifest_link(links.drop_first()[i]) by {
            assert(links.drop_first()[i] == links[i + 1]);
        }
        lemma_no_manifest_links_selects_none(m2, links.drop_first());
    }
}

} // verus!
