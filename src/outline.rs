//! What the template engine's parser finds in a text, as far as the decision
//! to hand that text to the engine needs it.
use chrobry_core::ast::AstImplementationTarget as EngineTarget;
use vstd::prelude::*;

verus! {

/// The kind of type an implementation applies to, or that a tag stands on.
#[derive(Debug, Clone, Copy, PartialEq, Eq, Structural)]
pub enum ImplTarget {
    All,
    Struct,
    Enum,
}

/// The parts of a parsed template that decide whether it may be rendered.
pub struct Outline {
    /// The paths named by import directives.
    pub imports: Vec<String>,
    /// How many replace directives there are.
    pub replacements: usize,
    /// The tags placed on structs, by name.
    pub struct_tags: Vec<String>,
    /// The tags placed on enums, by name.
    pub enum_tags: Vec<String>,
    /// Each implementation's name and target.
    pub impls: Vec<(String, ImplTarget)>,
}

/// The view of an outline: imports, replacement count, struct tags, enum
/// tags, implementations.
pub type OutlineView = (Seq<Seq<char>>, nat, Seq<Seq<char>>, Seq<Seq<char>>, Seq<(Seq<char>, ImplTarget)>);

/// The views of a list of strings.
pub open spec fn string_views(v: Seq<String>) -> Seq<Seq<char>> {
    v.map_values(|s: String| s@)
}

/// The views of a list of implementations.
pub open spec fn impl_views(v: Seq<(String, ImplTarget)>) -> Seq<(Seq<char>, ImplTarget)> {
    v.map_values(|p: (String, ImplTarget)| (p.0@, p.1))
}

impl Outline {
    pub open spec fn view_parts(&self) -> OutlineView {
        (
            string_views(self.imports@),
            self.replacements as nat,
            string_views(self.struct_tags@),
            string_views(self.enum_tags@),
            impl_views(self.impls@),
        )
    }
}

/// The view of a parse outcome.
pub open spec fn outline_view(o: Option<Outline>) -> Option<OutlineView> {
    match o {
        Some(o) => Some(o.view_parts()),
        None => None,
    }
}

/// What the engine's parser makes of a text: `None` where it rejects it.
pub uninterp spec fn outline_of(text: Seq<char>) -> Option<OutlineView>;

/// Relies on `chrobry_core::parser::parse`: the imports, replace directives,
/// tags and implementations of the parsed text, in order; `None` where it
/// does not parse. The result depends on the text alone.
#[verifier::external_body]
pub(crate) fn engine_outline(text: &str) -> (r: Option<Outline>)
    ensures
        outline_view(r) == outline_of(text@),
{
    let ast = chrobry_core::parser::parse(text).ok()?;
    Some(Outline {
        imports: ast.imports.clone(),
        replacements: ast.replacements.len(),
        struct_tags: ast.structs.iter().flat_map(|s| s.tags.iter().map(|t| t.0.clone())).collect(),
        enum_tags: ast.enums.iter().flat_map(|e| e.tags.iter().map(|t| t.0.clone())).collect(),
        impls: ast.implementations.iter().map(|i| (i.name.clone(), match i.target {
            EngineTarget::All => ImplTarget::All,
            EngineTarget::Struct => ImplTarget::Struct,
            EngineTarget::Enum => ImplTarget::Enum,
        })).collect(),
    })
}

/// Some implementation is named `name` and targets exactly `target`.
pub open spec fn has_impl(impls: Seq<(Seq<char>, ImplTarget)>, name: Seq<char>, target: ImplTarget) -> bool {
    exists|i: int| 0 <= i < impls.len() && #[trigger] impls[i] == (name, target)
}

/// Every tag of `tags` names an implementation that targets exactly `target`.
pub open spec fn tags_targeted(
    tags: Seq<Seq<char>>,
    impls: Seq<(Seq<char>, ImplTarget)>,
    target: ImplTarget,
) -> bool {
    forall|j: int| 0 <= j < tags.len() ==> has_impl(impls, #[trigger] tags[j], target)
}

/// The engine runs the outlined text to completion: there is no replace
/// directive, and every tag names an implementation of its own kind.
pub open spec fn engine_safe(o: OutlineView) -> bool {
    &&& o.1 == 0
    &&& tags_targeted(o.2, o.4, ImplTarget::Struct)
    &&& tags_targeted(o.3, o.4, ImplTarget::Enum)
}

fn impl_found(impls: &Vec<(String, ImplTarget)>, name: &String, target: ImplTarget) -> (r: bool)
    ensures
        r == has_impl(impl_views(impls@), name@, target),
{
    let ghost v = impl_views(impls@);
    let mut i: usize = 0;
    while i < impls.len()
        invariant
            0 <= i <= impls@.len(),
            v == impl_views(impls@),
            forall|k: int| 0 <= k < i ==> v[k] != (name@, target),
        decreases impls@.len() - i,
    {
        if impls[i].0 == *name && impls[i].1 == target {
            assert(v[i as int] == (name@, target));
            return true;
        }
        i = i + 1;
    }
    false
}

fn all_targeted(tags: &Vec<String>, impls: &Vec<(String, ImplTarget)>, target: ImplTarget) -> (r: bool)
    ensures
        r == tags_targeted(string_views(tags@), impl_views(impls@), target),
{
    let ghost t = string_views(tags@);
    let mut j: usize = 0;
    while j < tags.len()
        invariant
            0 <= j <= tags@.len(),
            t == string_views(tags@),
            forall|k: int| 0 <= k < j ==> has_impl(impl_views(impls@), #[trigger] t[k], target),
        decreases tags@.len() - j,
    {
        if !impl_found(impls, &tags[j], target) {
            assert(!has_impl(impl_views(impls@), t[j as int], target));
            return false;
        }
        j = j + 1;
    }
    true
}

/// Decides `engine_safe` of an outline.
pub fn is_engine_safe(o: &Outline) -> (r: bool)
    ensures
        r == engine_safe(o.view_parts()),
{
    o.replacements == 0 && all_targeted(&o.struct_tags, &o.impls, ImplTarget::Struct)
        && all_targeted(&o.enum_tags, &o.impls, ImplTarget::Enum)
}

} // verus!
