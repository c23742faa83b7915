//! Rendering one template file: the call into the template engine and what
//! becomes of the file afterwards.
use crate::error::Error;
use crate::outline::{engine_outline, engine_safe, is_engine_safe, outline_of};
use crate::params::ParameterSet;
use crate::paths::{
    is_marked, lemma_unmarked_shorter, lemma_unmarked_then_marker, template_destination, trimmed, unmarked, MARKER_EXTENSION,
};
use std::collections::HashMap;
use vstd::map::*;
use vstd::prelude::*;

verus! {

/// The message with which every import directive is refused.
pub const IMPORTS_NOT_SUPPORTED: &'static str = "Imports not supported!";

/// The message with which a text is refused that the engine could not run to
/// completion: one with a replace directive, or with a tag that names no
/// implementation of its own kind.
pub const UNSUPPORTED_TEMPLATE: &'static str = "Template form not supported!";

/// The message with which a template file is refused whose rendering would
/// itself carry the marker extension.
pub const MARKED_DESTINATION: &'static str = "Rendered file name carries the marker extension!";

/// What the template engine makes of a text under a parameter set: the
/// expanded text, or the reason it was rejected.
pub uninterp spec fn generated(text: Seq<char>, params: Map<Seq<char>, Seq<char>>) -> Result<
    Seq<char>,
    Seq<char>,
>;

/// The view of an engine result.
pub open spec fn result_view(r: Result<String, String>) -> Result<Seq<char>, Seq<char>> {
    match r {
        Ok(s) => Ok(s@),
        Err(m) => Err(m@),
    }
}

/// Resolves an import directive of a template: imports are never supported.
pub fn resolve_import(name: &str) -> (r: Result<String, String>)
    ensures
        r matches Err(m) && m@ == IMPORTS_NOT_SUPPORTED@,
{
    Err(IMPORTS_NOT_SUPPORTED.to_owned())
}

/// Relies on `chrobry_core::generate`: expands `text` with the parameters,
/// no separator between injected blocks. This engine never calls its import
/// resolver (imports are refused before the call); `resolve_import` is handed
/// over all the same. The result depends on the text and the parameters
/// alone. Texts with a replace directive, or with a tag whose implementation
/// does not target its kind, are left out: on those the engine may panic, and
/// only replace directives make it print.
#[verifier::external_body]
fn engine_generate(text: &str, params: &ParameterSet) -> (r: Result<String, String>)
    requires
        params.wf(),
        outline_of(text@) matches Some(o) ==> engine_safe(o),
    ensures
        result_view(r) == generated(text@, params@),
{
    let variables: HashMap<String, String> = params.entries().iter().cloned().collect();
    chrobry_core::generate(text, "", variables, |name| resolve_import(name))
}

/// What rendering `text` gives: a text the parser rejects goes to the engine,
/// which reports the parse error; a text with imports is refused with
/// `IMPORTS_NOT_SUPPORTED`; one the engine could not run to completion with
/// `UNSUPPORTED_TEMPLATE`; any other is expanded by the engine.
pub open spec fn rendered(text: Seq<char>, params: Map<Seq<char>, Seq<char>>) -> Result<
    Seq<char>,
    Seq<char>,
> {
    match outline_of(text) {
        Some(o) => if o.0.len() > 0 {
            Err(IMPORTS_NOT_SUPPORTED@)
        } else if !engine_safe(o) {
            Err(UNSUPPORTED_TEMPLATE@)
        } else {
            generated(text, params)
        },
        None => generated(text, params),
    }
}

/// Renders `text` with the parameters, refusing imports and the forms the
/// engine cannot run to completion before it is called.
pub fn render_text(text: &str, params: &ParameterSet) -> (r: Result<String, String>)
    requires
        params.wf(),
    ensures
        result_view(r) == rendered(text@, params@),
{
    match engine_outline(text) {
        Some(o) => {
            if o.imports.len() > 0 {
                return Err(IMPORTS_NOT_SUPPORTED.to_owned());
            }
            if !is_engine_safe(&o) {
                return Err(UNSUPPORTED_TEMPLATE.to_owned());
            }
        },
        None => {},
    }
    engine_generate(text, params)
}

/// How a template file is replaced: `original` is removed and `content` is
/// written to `destination`, replacing whatever stood there.
#[derive(Debug, PartialEq, Eq)]
pub struct Rewrite {
    pub original: String,
    pub destination: String,
    pub content: String,
}

impl Rewrite {
    /// The rewrite as (original, destination, content).
    pub open spec fn view_parts(&self) -> (Seq<char>, Seq<char>, Seq<char>) {
        (self.original@, self.destination@, self.content@)
    }
}

/// `r` is what becomes of the marked file `path` when the engine answered `g`.
/// Where the unmarked path still carries the marker, the file is refused
/// with `MARKED_DESTINATION`, so that no marked file outlives a successful
/// run. Otherwise a rewrite to the unmarked path on success, `RenderFailed`
/// with the engine's reason on failure. On any failure nothing is removed or
/// written.
pub open spec fn outcome_of(path: Seq<char>, g: Result<Seq<char>, Seq<char>>, r: Result<
    Option<Rewrite>,
    Error,
>) -> bool {
    if is_marked(unmarked(path)) {
        r matches Err(Error::RenderFailed { path: p, cause: c }) && p@ == path && c@
            == MARKED_DESTINATION@
    } else {
        match g {
            Ok(text) => r matches Ok(Some(w)) && w.view_parts() == (path, unmarked(path), text),
            Err(m) => r matches Err(Error::RenderFailed { path: p, cause: c }) && p@ == path && c@
                == m,
        }
    }
}

/// What becomes of the file `path` once the engine has answered for it: a
/// file without the marker is left alone (`Ok(None)`).
pub fn rewrite_of(path: &str, rendered: Result<String, String>) -> (r: Result<Option<Rewrite>, Error>)
    ensures
        !is_marked(path@) ==> r matches Ok(None),
        is_marked(path@) ==> outcome_of(path@, result_view(rendered), r),
{
    match template_destination(path) {
        Some(destination) => {
            if template_destination(destination.as_str()).is_some() {
                return Err(
                    Error::RenderFailed { path: path.to_owned(), cause: MARKED_DESTINATION.to_owned() },
                );
            }
            match rendered {
                Ok(content) => Ok(Some(Rewrite { original: path.to_owned(), destination, content })),
                Err(cause) => Err(Error::RenderFailed { path: path.to_owned(), cause }),
            }
        },
        None => Ok(None),
    }
}

/// Renders the file `path`, whose text is `content`, with the parameters,
/// if it carries the marker; any other file is left alone (`Ok(None)`). The
/// marked file is only to be removed once the engine has succeeded.
pub fn render_file(path: &str, content: &str, params: &ParameterSet) -> (r: Result<
    Option<Rewrite>,
    Error,
>)
    requires
        params.wf(),
    ensures
        !is_marked(path@) ==> r matches Ok(None),
        is_marked(path@) ==> outcome_of(path@, rendered(content@, params@), r),
{
    match template_destination(path) {
        Some(destination) => {
            if template_destination(destination.as_str()).is_some() {
                return rewrite_of(path, Err(MARKED_DESTINATION.to_owned()));
            }
        },
        None => {
            return Ok(None);
        },
    }
    let rendered = render_text(content, params);
    rewrite_of(path, rendered)
}

/// A template file whose unmarked path still carries the marker is refused,
/// whatever the engine answers: nothing is written that carries the marker.
pub proof fn lemma_marked_destination_refused(
    path: Seq<char>,
    g: Result<Seq<char>, Seq<char>>,
    r: Result<Option<Rewrite>, Error>,
)
    requires
        is_marked(path),
        is_marked(unmarked(path)),
        outcome_of(path, g, r),
    ensures
        r matches Err(Error::RenderFailed { path: p, cause: c }) && p@ == path && c@
            == MARKED_DESTINATION@,
{
}

/// When the engine rejects a marked file, the run fails with `RenderFailed`
/// carrying the engine's reason, and no rewrite is made: the marked file stays
/// and nothing is written for it.
pub proof fn lemma_failed_render_rewrites_nothing(
    path: Seq<char>,
    reason: Seq<char>,
    r: Result<Option<Rewrite>, Error>,
)
    requires
        is_marked(path),
        !is_marked(unmarked(path)),
        outcome_of(path, Err(reason), r),
    ensures
        r matches Err(Error::RenderFailed { path: p, cause: c }) && p@ == path && c@ == reason,
        !(r is Ok),
{
}

/// A file tree, as a map from paths to contents, after a rewrite.
pub open spec fn applied(tree: Map<Seq<char>, Seq<char>>, w: (Seq<char>, Seq<char>, Seq<char>)) -> Map<
    Seq<char>,
    Seq<char>,
> {
    tree.remove(w.0).insert(w.1, w.2)
}

/// A rendered file replaces whatever stood at its destination, and the marked
/// file is gone.
pub proof fn lemma_rewrite_replaces(
    tree: Map<Seq<char>, Seq<char>>,
    path: Seq<char>,
    g: Result<Seq<char>, Seq<char>>,
    r: Result<Option<Rewrite>, Error>,
)
    requires
        is_marked(path),
        !is_marked(unmarked(path)),
        outcome_of(path, g, r),
        g is Ok,
    ensures
        r matches Ok(Some(w)) && applied(tree, w.view_parts()).contains_key(unmarked(path))
            && applied(tree, w.view_parts())[unmarked(path)] == g->Ok_0
            && !applied(tree, w.view_parts()).contains_key(path),
{
    lemma_unmarked_shorter(path);
}

/// Running again over a tree where the template file was put back gives the
/// same tree: the same rewrite, applied once more, changes nothing.
pub proof fn lemma_rerun_is_stable(
    tree: Map<Seq<char>, Seq<char>>,
    path: Seq<char>,
    template: Seq<char>,
    g: Result<Seq<char>, Seq<char>>,
    r: Result<Option<Rewrite>, Error>,
)
    requires
        is_marked(path),
        !is_marked(unmarked(path)),
        outcome_of(path, g, r),
        g is Ok,
    ensures
        r matches Ok(Some(w)) && applied(applied(tree, w.view_parts()).insert(path, template), w.view_parts())
            == applied(tree, w.view_parts()),
{
    lemma_unmarked_shorter(path);
    let w = r->Ok_0->Some_0.view_parts();
    assert(applied(applied(tree, w).insert(path, template), w) =~= applied(tree, w));
}

/// The path of the template file whose rendering lands at `k`.
pub open spec fn marked_of(k: Seq<char>) -> Seq<char> {
    k + seq!['.'] + MARKER_EXTENSION@
}

/// The tree holds a template file that renders to `k`.
pub open spec fn renders_to(tree: Map<Seq<char>, Seq<char>>, k: Seq<char>) -> bool {
    tree.contains_key(marked_of(k)) && is_marked(marked_of(k))
}

/// The output tree after materialization: the source's entries over what
/// the output directory held, a source entry winning.
pub open spec fn materialized(out: Map<Seq<char>, Seq<char>>, source: Map<Seq<char>, Seq<char>>) -> Map<
    Seq<char>,
    Seq<char>,
> {
    out.union_prefer_right(source)
}

/// The tree after every template file has been rendered: template files are
/// gone, each rendering stands at its destination, and every other file is
/// kept as it was.
pub open spec fn after_rendering(tree: Map<Seq<char>, Seq<char>>, params: Map<Seq<char>, Seq<char>>) -> Map<
    Seq<char>,
    Seq<char>,
> {
    Map::new(
        |k: Seq<char>| (tree.contains_key(k) && !is_marked(k)) || renders_to(tree, k),
        |k: Seq<char>|
            if renders_to(tree, k) {
                rendered(tree[marked_of(k)], params)->Ok_0
            } else {
                tree[k]
            },
    )
}

/// A rewrite lands where `after_rendering` puts the rendering of its template
/// file: the template file is the destination's `marked_of`.
pub proof fn lemma_rewrite_destination_marked_of(
    path: Seq<char>,
    g: Result<Seq<char>, Seq<char>>,
    r: Result<Option<Rewrite>, Error>,
)
    requires
        is_marked(path),
        !is_marked(unmarked(path)),
        trimmed(path) == path,
        outcome_of(path, g, r),
        g is Ok,
    ensures
        r matches Ok(Some(w)) && marked_of(w.destination@) == path,
{
    lemma_unmarked_then_marker(path);
}

/// Every template file of the tree renders, and its unmarked path does not
/// carry the marker: a run over the tree succeeds.
pub open spec fn run_succeeds(tree: Map<Seq<char>, Seq<char>>, params: Map<Seq<char>, Seq<char>>) -> bool {
    forall|m: Seq<char>|
        is_marked(m) && #[trigger] tree.contains_key(m) ==> !is_marked(unmarked(m)) && rendered(
            tree[m],
            params,
        ) is Ok
}

/// Where `marked_of(k)` carries the marker, its unmarked path is `k`.
pub proof fn lemma_marked_of_unmarked(k: Seq<char>)
    requires
        is_marked(marked_of(k)),
    ensures
        unmarked(marked_of(k)) == k,
{
    reveal_strlit("chrobry-marker");
    let p = marked_of(k);
    assert(p.last() == 'r');
    assert(trimmed(p) == p);
    lemma_unmarked_then_marker(p);
    let u = unmarked(p);
    assert(u.len() == k.len());
    assert forall|i: int| 0 <= i < k.len() implies u[i] == k[i] by {
        assert(p[i] == k[i]);
        assert((u + seq!['.'] + MARKER_EXTENSION@)[i] == u[i]);
    }
    assert(u =~= k);
}

/// A second run with the same source and parameters into the output of a
/// first run leaves the same tree: no template file and no stale rendering
/// is left behind. This holds where the first run succeeds and every template
/// file in the output directory comes from the source.
pub proof fn lemma_second_run_is_idempotent(
    out: Map<Seq<char>, Seq<char>>,
    source: Map<Seq<char>, Seq<char>>,
    params: Map<Seq<char>, Seq<char>>,
)
    requires
        forall|k: Seq<char>|
            is_marked(k) && #[trigger] materialized(out, source).contains_key(k) ==> source.contains_key(k),
        run_succeeds(materialized(out, source), params),
    ensures
        after_rendering(materialized(after_rendering(materialized(out, source), params), source), params)
            == after_rendering(materialized(out, source), params),
{
    let u = materialized(out, source);
    let t1 = after_rendering(u, params);
    let v = materialized(t1, source);
    let t2 = after_rendering(v, params);
    assert forall|k: Seq<char>| is_marked(k) implies !renders_to(u, k) by {
        if renders_to(u, k) {
            lemma_marked_of_unmarked(k);
            assert(u.contains_key(marked_of(k)) && is_marked(marked_of(k)));
        }
    }
    assert forall|k: Seq<char>| is_marked(k) && source.contains_key(k) implies rendered(
        source[k],
        params,
    ) is Ok by {
        assert(u.contains_key(k) && u[k] == source[k]);
    }
    assert forall|k: Seq<char>| is_marked(k) implies !t1.contains_key(k) by {
        assert(!renders_to(u, k));
    }
    assert forall|k: Seq<char>| renders_to(v, k) == renders_to(u, k) by {
        let mk = marked_of(k);
        if is_marked(mk) {
            assert(!t1.contains_key(mk));
            if u.contains_key(mk) {
                assert(u.contains_key(mk) && is_marked(mk));
                assert(source.contains_key(mk));
            }
        }
    }
    assert_maps_equal!(t2, t1, k => {
        let mk = marked_of(k);
        if renders_to(u, k) {
            assert(source.contains_key(mk));
            assert(v[mk] == source[mk]);
            assert(u[mk] == source[mk]);
        } else {
            if source.contains_key(k) {
                assert(u[k] == source[k]);
            }
        }
    });
}

} // verus!
