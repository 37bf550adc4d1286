//! The two-stage script template.
//!
//! The one inlined bootstrap script is split, purely by locating literal
//! markers, into four fragments: the import statement, the initialization
//! preamble, the event-dispatch statement (possibly empty) and, when present,
//! the auto-reload snippet.  A render recombines the fragments for one output
//! target: it inserts an awaited call to the target's entry function, can
//! suppress the reload snippet, and can wrap the body in an asynchronous
//! immediately-invoked wrapper for contexts that forbid top-level awaiting.

use vstd::prelude::*;

use crate::errors::WextError;
use crate::reload::{spec_parse_reload, AutoReloadTemplate};
use crate::text::{
    contains_from, contains_sub, find_from, spec_find, spec_replace, spec_trim, substring,
    trim_spaces,
};

verus! {

/// The bounds `find_dispatch_event` reports: the dispatch statement starts
/// one past the newline before `dispatchEvent` and ends just past its
/// closing `;`.
pub open spec fn spec_dispatch_bounds(s: Seq<char>, start: int) -> Option<(int, int)> {
    match spec_find(s, "\ndispatchEvent"@, start) {
        None => None,
        Some(d) => match spec_find(s, ";\n"@, d + 1) {
            None => None,
            Some(e) => Some((d + 1, e + 1)),
        },
    }
}

/// Where the four fragments of the script text split: the import statement's
/// bounds, then the dispatch statement's bounds.  With no dispatch statement
/// the initialization fragment ends just past the `.wasm');` that closes the
/// module-path literal, and the dispatch fragment is empty there.  `Err`
/// carries the marker that could not be found.
pub open spec fn spec_script_bounds(s: Seq<char>) -> Result<(int, int, int, int), Seq<char>> {
    match spec_find(s, "import"@, 0) {
        None => Err("import"@),
        Some(i0) => match spec_find(s, ";\n"@, i0) {
            None => Err(";\n"@),
            Some(p) => match spec_dispatch_bounds(s, p + 1) {
                Some(bounds) => Ok((i0, p + 1, bounds.0, bounds.1)),
                None => match spec_find(s, ".wasm');\n"@, p + 1) {
                    None => Err(".wasm');\n"@),
                    Some(w) => Ok((i0, p + 1, w + 8, w + 8)),
                },
            },
        },
    }
}

/// The normalization of the initialization fragment: the module path is
/// handed to the initialization call inside a keyed configuration object
/// rather than as a bare string literal.
pub open spec fn spec_fix_init(s: Seq<char>) -> Seq<char> {
    spec_replace(spec_replace(s, "init("@, "init({module_or_path: "@), ");"@, "});\n"@)
}

/// The opening token sequence of the asynchronous wrapper.
pub open spec fn open_wrapper() -> Seq<char> {
    "(async () => {\n\n"@
}

/// The closing token sequence of the asynchronous wrapper.
pub open spec fn close_wrapper() -> Seq<char> {
    "\n\n})();\n"@
}

/// Rewrite a bare string-literal argument of the module-initialization call
/// into a keyed configuration object argument, replacing every `init(` and
/// every `);` in the fragment.
pub fn fix_init_line(input: &str) -> (r: String)
    ensures
        r@ == spec_fix_init(input@),
{
    proof {
        reveal_strlit("init(");
        reveal_strlit(");");
    }
    let step = crate::text::replace_all(input, "init(", "init({module_or_path: ");
    crate::text::replace_all(step.as_str(), ");", "});\n")
}

/// Parsed structure of the one inlined bootstrap script, shared read-only by
/// every render call.
#[derive(Debug)]
pub struct ScriptTemplate {
    /// The import statement, newline-terminated.
    pub import_line: String,
    /// The normalized initialization preamble, up to the dispatch statement.
    pub init: String,
    /// The event-dispatch statement; empty when the build has none.
    pub dispatch_event: String,
    /// The auto-reload snippet's template, when the build carries one.
    pub auto_reload: Option<AutoReloadTemplate>,
}

/// The fragment fields `ScriptTemplate::new` produces from script text `s`
/// split at the bounds `spec_script_bounds` names.
pub open spec fn fragments_of(t: ScriptTemplate, s: Seq<char>, i0: int, i1: int, ds: int, de: int) -> bool {
    &&& t.import_line@ == s.subrange(i0, i1) + "\n"@
    &&& t.init@ == spec_fix_init(spec_trim(s.subrange(i1, ds)))
    &&& t.dispatch_event@ == s.subrange(ds, de)
}

impl ScriptTemplate {
    /// The rendered text between the import statement and any wrapper: the
    /// initialization fragment, an awaited call of the entry function on the
    /// initialized module object, the dispatch fragment, and, unless
    /// suppressed or absent, the reload snippet with `address` and `ws_base`
    /// substituted.
    pub open spec fn rendered_core(
        &self,
        wasm_fn: Seq<char>,
        no_reload: bool,
        address: Seq<char>,
        ws_base: Seq<char>,
    ) -> Seq<char> {
        let body = self.init@ + "await wasm."@ + wasm_fn + "();\n"@ + self.dispatch_event@;
        if !no_reload && self.auto_reload is Some {
            body + self.auto_reload->Some_0.rendered(address, ws_base)
        } else {
            body
        }
    }

    /// The whole rendered script without a wrapper.
    pub open spec fn rendered_plain(
        &self,
        wasm_fn: Seq<char>,
        no_reload: bool,
        address: Seq<char>,
        ws_base: Seq<char>,
    ) -> Seq<char> {
        self.import_line@ + self.rendered_core(wasm_fn, no_reload, address, ws_base)
    }

    /// The whole rendered script with the asynchronous wrapper around
    /// everything but the import statement.
    pub open spec fn rendered_wrapped(
        &self,
        wasm_fn: Seq<char>,
        no_reload: bool,
        address: Seq<char>,
        ws_base: Seq<char>,
    ) -> Seq<char> {
        self.import_line@ + open_wrapper() + self.rendered_core(wasm_fn, no_reload, address, ws_base)
            + close_wrapper()
    }

    /// The dispatch statement's bounds in `script_contents` at or after
    /// `start_offset`: the statement begins right after a newline followed by
    /// `dispatchEvent` and ends just past the next `;` that ends a line.
    pub fn find_dispatch_event(script_contents: &str, start_offset: usize) -> (r: Option<
        (usize, usize),
    >)
        ensures
            match r {
                Some(pair) => {
                    &&& spec_dispatch_bounds(script_contents@, start_offset as int) == Some(
                        (pair.0 as int, pair.1 as int),
                    )
                    &&& start_offset < pair.0 <= pair.1
                    &&& pair.1 <= script_contents@.len()
                },
                None => spec_dispatch_bounds(script_contents@, start_offset as int) is None,
            },
    {
        let len = script_contents.unicode_len();
        let found_d = find_from(script_contents, start_offset, "\ndispatchEvent");
        proof {
            reveal_strlit("\ndispatchEvent");
            crate::text::lemma_spec_find_characterization(
                script_contents@,
                "\ndispatchEvent"@,
                start_offset as int,
            );
        }
        let d = match found_d {
            Some(d) => d,
            None => {
                return None;
            },
        };
        let found_e = find_from(script_contents, d + 1, ";\n");
        proof {
            reveal_strlit(";\n");
            crate::text::lemma_spec_find_characterization(script_contents@, ";\n"@, d + 1);
        }
        let e = match found_e {
            Some(e) => e,
            None => {
                return None;
            },
        };
        Some((d + 1, e + 1))
    }

    /// Split `script_contents` into the four fragments, normalizing the
    /// initialization fragment.  Fails with `MissingExpectedMarker` when the
    /// import statement, its terminator, or (with no dispatch statement) the
    /// module-path literal's end cannot be found, or when an auto-reload
    /// snippet is present but lacks a placeholder token.
    pub fn new(script_contents: &str) -> (r: Result<ScriptTemplate, WextError>)
        ensures
            match spec_script_bounds(script_contents@) {
                Err(marker) => {
                    &&& r matches Err(WextError::MissingExpectedMarker(m))
                    &&& m@ == marker
                },
                Ok(bounds) => {
                    let tail = script_contents@.subrange(
                        bounds.3,
                        script_contents@.len() as int,
                    );
                    if contains_from(tail, "function"@, 0) {
                        match spec_parse_reload(tail) {
                            Some(parts) => {
                                &&& r is Ok
                                &&& fragments_of(
                                    r->Ok_0,
                                    script_contents@,
                                    bounds.0,
                                    bounds.1,
                                    bounds.2,
                                    bounds.3,
                                )
                                &&& r->Ok_0.auto_reload matches Some(a)
                                &&& a.before_address@ == parts.0
                                &&& a.after_address@ == parts.1
                                &&& a.after_base@ == parts.2
                            },
                            None => {
                                &&& r matches Err(WextError::MissingExpectedMarker(m))
                                &&& (m@ == crate::reload::address_token() || m@
                                    == crate::reload::ws_base_token())
                            },
                        }
                    } else {
                        &&& r is Ok
                        &&& fragments_of(
                            r->Ok_0,
                            script_contents@,
                            bounds.0,
                            bounds.1,
                            bounds.2,
                            bounds.3,
                        )
                        &&& r->Ok_0.auto_reload is None
                    }
                },
            },
    {
        let s = script_contents;
        let len = s.unicode_len();
        let import_start = match find_from(s, 0, "import") {
            Some(i) => i,
            None => {
                return Err(WextError::MissingExpectedMarker("import".to_owned()));
            },
        };
        proof {
            crate::text::lemma_spec_find_characterization(s@, "import"@, 0);
        }
        let found_p = find_from(s, import_start, ";\n");
        proof {
            reveal_strlit(";\n");
            crate::text::lemma_spec_find_characterization(s@, ";\n"@, import_start as int);
        }
        let import_end = match found_p {
            Some(p) => p + 1,
            None => {
                return Err(WextError::MissingExpectedMarker(";\n".to_owned()));
            },
        };
        let dispatch = Self::find_dispatch_event(s, import_end);
        let (ds, de) = match dispatch {
            Some(pair) => pair,
            None => {
                match find_from(s, import_end, ".wasm');\n") {
                    Some(w) => {
                        proof {
                            crate::text::lemma_spec_find_characterization(
                                s@,
                                ".wasm');\n"@,
                                import_end as int,
                            );
                            reveal_strlit(".wasm');\n");
                        }
                        (w + 8, w + 8)
                    },
                    None => {
                        return Err(WextError::MissingExpectedMarker(".wasm');\n".to_owned()));
                    },
                }
            },
        };
        let mut import_line = substring(s, import_start, import_end);
        import_line.append("\n");
        let dispatch_event = substring(s, ds, de);
        let raw_init = substring(s, import_end, ds);
        let trimmed = trim_spaces(raw_init.as_str());
        let init = fix_init_line(trimmed.as_str());
        let tail = substring(s, de, len);
        let auto_reload = if contains_sub(tail.as_str(), "function") {
            match AutoReloadTemplate::new(tail.as_str()) {
                Ok(t) => Some(t),
                Err(e) => {
                    return Err(e);
                },
            }
        } else {
            None
        };
        Ok(ScriptTemplate { import_line, init, dispatch_event, auto_reload })
    }

    /// Append the rendered script without a wrapper: import, initialization,
    /// the awaited entry call, dispatch, and, unless suppressed or absent,
    /// the reload snippet.
    pub fn render_without_wrapper(
        &self,
        wasm_fn: &str,
        no_reload: bool,
        address: &str,
        ws_base: &str,
        out: &mut String,
    )
        ensures
            final(out)@ == old(out)@ + self.rendered_plain(wasm_fn@, no_reload, address@, ws_base@),
    {
        out.append(self.import_line.as_str());
        out.append(self.init.as_str());
        out.append("await wasm.");
        out.append(wasm_fn);
        out.append("();\n");
        out.append(self.dispatch_event.as_str());
        if !no_reload {
            if let Some(auto_reload) = &self.auto_reload {
                auto_reload.render(address, ws_base, out);
            }
        }
        proof {
            assert(out@ =~= old(out)@ + self.rendered_plain(
                wasm_fn@,
                no_reload,
                address@,
                ws_base@,
            ));
        }
    }

    /// Append the rendered script with the asynchronous wrapper that lets it
    /// run where top-level awaiting is disallowed: the import statement, then
    /// the whole body inside a self-invoking asynchronous function.
    pub fn render_with_wrapper(
        &self,
        wasm_fn: &str,
        no_reload: bool,
        address: &str,
        ws_base: &str,
        out: &mut String,
    )
        ensures
            final(out)@ == old(out)@ + self.rendered_wrapped(
                wasm_fn@,
                no_reload,
                address@,
                ws_base@,
            ),
    {
        out.append(self.import_line.as_str());
        out.append("(async () => {\n\n");
        out.append(self.init.as_str());
        out.append("await wasm.");
        out.append(wasm_fn);
        out.append("();\n");
        out.append(self.dispatch_event.as_str());
        if !no_reload {
            if let Some(auto_reload) = &self.auto_reload {
                auto_reload.render(address, ws_base, out);
            }
        }
        out.append("\n\n})();\n");
        proof {
            assert(out@ =~= old(out)@ + self.rendered_wrapped(
                wasm_fn@,
                no_reload,
                address@,
                ws_base@,
            ));
        }
    }

    /// Append the script rendered for one output target: with the
    /// asynchronous wrapper when `bg_wrapper` asks for one, without it
    /// otherwise.
    pub fn render(
        &self,
        wasm_fn: &str,
        no_reload: bool,
        bg_wrapper: bool,
        address: &str,
        ws_base: &str,
        out: &mut String,
    )
        ensures
            final(out)@ == old(out)@ + if bg_wrapper {
                self.rendered_wrapped(wasm_fn@, no_reload, address@, ws_base@)
            } else {
                self.rendered_plain(wasm_fn@, no_reload, address@, ws_base@)
            },
    {
        if bg_wrapper {
            self.render_with_wrapper(wasm_fn, no_reload, address, ws_base, out);
        } else {
            self.render_without_wrapper(wasm_fn, no_reload, address, ws_base, out);
        }
    }
}

/// Suppressing reload changes nothing but the reload segment: with a reload
/// template present, the unsuppressed render is byte-identical to the
/// suppressed one with the rendered reload segment appended (without a
/// wrapper) or inserted right before the closing wrapper (with one).
pub proof fn lemma_reload_round_trip(
    t: ScriptTemplate,
    wasm_fn: Seq<char>,
    address: Seq<char>,
    ws_base: Seq<char>,
)
    requires
        t.auto_reload is Some,
    ensures
        t.rendered_plain(wasm_fn, false, address, ws_base) == t.rendered_plain(
            wasm_fn,
            true,
            address,
            ws_base,
        ) + t.auto_reload->Some_0.rendered(address, ws_base),
        t.rendered_wrapped(wasm_fn, false, address, ws_base) == t.import_line@ + open_wrapper()
            + t.rendered_core(wasm_fn, true, address, ws_base) + t.auto_reload->Some_0.rendered(
            address,
            ws_base,
        ) + close_wrapper(),
{
    assert(t.rendered_plain(wasm_fn, false, address, ws_base) =~= t.rendered_plain(
        wasm_fn,
        true,
        address,
        ws_base,
    ) + t.auto_reload->Some_0.rendered(address, ws_base));
    assert(t.rendered_wrapped(wasm_fn, false, address, ws_base) =~= t.import_line@
        + open_wrapper() + t.rendered_core(wasm_fn, true, address, ws_base)
        + t.auto_reload->Some_0.rendered(address, ws_base) + close_wrapper());
}

/// A background-wrapped render opens the body with the wrapper's opening
/// token sequence right after the import statement and ends with its closing
/// sequence; the unwrapped render is the same text with both sequences
/// absent.
pub proof fn lemma_background_wrapper(
    t: ScriptTemplate,
    wasm_fn: Seq<char>,
    no_reload: bool,
    address: Seq<char>,
    ws_base: Seq<char>,
)
    ensures
        ({
            let w = t.rendered_wrapped(wasm_fn, no_reload, address, ws_base);
            let p = t.rendered_plain(wasm_fn, no_reload, address, ws_base);
            let core = t.rendered_core(wasm_fn, no_reload, address, ws_base);
            &&& w.subrange(
                t.import_line@.len() as int,
                t.import_line@.len() + open_wrapper().len() as int,
            ) == open_wrapper()
            &&& w.subrange(w.len() - close_wrapper().len(), w.len() as int) == close_wrapper()
            &&& w == t.import_line@ + open_wrapper() + core + close_wrapper()
            &&& p == t.import_line@ + core
            &&& p.len() + open_wrapper().len() + close_wrapper().len() == w.len()
        }),
{
    let w = t.rendered_wrapped(wasm_fn, no_reload, address, ws_base);
    assert(w.subrange(
        t.import_line@.len() as int,
        t.import_line@.len() + open_wrapper().len() as int,
    ) =~= open_wrapper());
    assert(w.subrange(w.len() - close_wrapper().len(), w.len() as int) =~= close_wrapper());
}

} // verus!
