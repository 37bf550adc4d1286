//! The auto-reload placeholder template.
//!
//! The bundler's auto-reload snippet carries two placeholder tokens, an
//! address token followed by a WebSocket base-path token.  Parsing splits the
//! snippet into the three literal segments around the first occurrence of
//! each token; rendering writes the segments back with caller-supplied values
//! in the placeholders' positions.

use vstd::prelude::*;

use crate::errors::WextError;
use crate::text::{find_from, spec_find, substring};

verus! {

/// The placeholder the development server's address is substituted for.
pub open spec fn address_token() -> Seq<char> {
    "{{__TRUNK_ADDRESS__}}"@
}

/// The placeholder the WebSocket base path is substituted for.
pub open spec fn ws_base_token() -> Seq<char> {
    "{{__TRUNK_WS_BASE__}}"@
}

/// The three segments of `s` around the first address token and the first
/// WebSocket base token after it, or `None` when either token is missing.
pub open spec fn spec_parse_reload(s: Seq<char>) -> Option<(Seq<char>, Seq<char>, Seq<char>)> {
    match spec_find(s, address_token(), 0) {
        None => None,
        Some(a) => match spec_find(s, ws_base_token(), a + address_token().len()) {
            None => None,
            Some(b) => Some(
                (
                    s.subrange(0, a),
                    s.subrange(a + address_token().len(), b),
                    s.subrange(b + ws_base_token().len(), s.len() as int),
                ),
            ),
        },
    }
}

/// Three-segment split of the auto-reload snippet around its two placeholder
/// tokens.
#[derive(Debug)]
pub struct AutoReloadTemplate {
    /// Everything before the address placeholder.
    pub before_address: String,
    /// Everything between the address and base-path placeholders.
    pub after_address: String,
    /// Everything after the base-path placeholder.
    pub after_base: String,
}

impl AutoReloadTemplate {
    /// What a render with the given address and base-path values produces.
    pub open spec fn rendered(&self, address: Seq<char>, base: Seq<char>) -> Seq<char> {
        self.before_address@ + address + self.after_address@ + base + self.after_base@
    }

    /// Split `auto_reload_contents` at the first address token and the first
    /// base-path token after it.  Fails with `MissingExpectedMarker`, naming
    /// the missing token, when either is absent.
    pub fn new(auto_reload_contents: &str) -> (r: Result<AutoReloadTemplate, WextError>)
        ensures
            match spec_parse_reload(auto_reload_contents@) {
                Some(parts) => {
                    &&& r is Ok
                    &&& r->Ok_0.before_address@ == parts.0
                    &&& r->Ok_0.after_address@ == parts.1
                    &&& r->Ok_0.after_base@ == parts.2
                },
                None => {
                    &&& r matches Err(WextError::MissingExpectedMarker(m))
                    &&& (m@ == address_token() || m@ == ws_base_token())
                },
            },
    {
        let address_tok = "{{__TRUNK_ADDRESS__}}";
        let base_tok = "{{__TRUNK_WS_BASE__}}";
        let len = auto_reload_contents.unicode_len();
        let address_start = match find_from(auto_reload_contents, 0, address_tok) {
            Some(i) => i,
            None => {
                return Err(WextError::MissingExpectedMarker(address_tok.to_owned()));
            },
        };
        proof {
            crate::text::lemma_spec_find_characterization(auto_reload_contents@, address_tok@, 0);
        }
        let address_end = address_start + address_tok.unicode_len();
        let base_start = match find_from(auto_reload_contents, address_end, base_tok) {
            Some(i) => i,
            None => {
                return Err(WextError::MissingExpectedMarker(base_tok.to_owned()));
            },
        };
        proof {
            crate::text::lemma_spec_find_characterization(
                auto_reload_contents@,
                base_tok@,
                address_end as int,
            );
        }
        let base_end = base_start + base_tok.unicode_len();
        Ok(
            AutoReloadTemplate {
                before_address: substring(auto_reload_contents, 0, address_start),
                after_address: substring(auto_reload_contents, address_end, base_start),
                after_base: substring(auto_reload_contents, base_end, len),
            },
        )
    }

    /// Append the rendered snippet to `out`: the three segments with
    /// `address` and `base` substituted in the placeholders' positions.
    pub fn render(&self, address: &str, base: &str, out: &mut String)
        ensures
            final(out)@ == old(out)@ + self.rendered(address@, base@),
    {
        out.append(self.before_address.as_str());
        out.append(address);
        out.append(self.after_address.as_str());
        out.append(base);
        out.append(self.after_base.as_str());
        proof {
            assert(out@ =~= old(out)@ + self.rendered(address@, base@));
        }
    }
}

/// Rendering places the caller's address value exactly where the address
/// token stood (right after the first segment) and the base value right
/// after the second segment, and the parsed segments are exactly the splits
/// of the source snippet, so the rendered text is the source snippet with
/// the two tokens replaced in place.
pub proof fn lemma_reload_substitution_positions(
    t: AutoReloadTemplate,
    s: Seq<char>,
    address: Seq<char>,
    base: Seq<char>,
)
    requires
        spec_parse_reload(s) matches Some(parts) && t.before_address@ == parts.0
            && t.after_address@ == parts.1 && t.after_base@ == parts.2,
    ensures
        ({
            let a = spec_find(s, address_token(), 0)->Some_0;
            let r = t.rendered(address, base);
            &&& r.subrange(a, a + address.len() as int) == address
            &&& a == t.before_address@.len()
            &&& r.subrange(
                a + address.len(),
                a + address.len() + t.after_address@.len(),
            ) == t.after_address@
            &&& r.subrange(
                a + address.len() + t.after_address@.len(),
                a + address.len() + t.after_address@.len() + base.len(),
            ) == base
        }),
{
    let a = spec_find(s, address_token(), 0)->Some_0;
    crate::text::lemma_spec_find_characterization(s, address_token(), 0);
    crate::text::lemma_spec_find_characterization(s, ws_base_token(), a + address_token().len());
    let r = t.rendered(address, base);
    assert(t.before_address@.len() == a);
    assert(r.subrange(a, a + address.len() as int) =~= address);
    assert(r.subrange(a + address.len(), a + address.len() + t.after_address@.len())
        =~= t.after_address@);
    assert(r.subrange(
        a + address.len() + t.after_address@.len(),
        a + address.len() + t.after_address@.len() + base.len(),
    ) =~= base);
}

} // verus!
