//! The checks made before any file is touched, and what they settle.
use crate::error::Error;
use crate::params::{parameters_of, views_of, well_formed_entry, ParameterSet};
use crate::paths::{extension, source_kind, TemplateSource, ARCHIVE_EXTENSION};
use vstd::prelude::*;

verus! {

/// What a run works with once its inputs have been checked.
pub struct RunPlan {
    pub params: ParameterSet,
    pub source: TemplateSource,
}

/// Checks the inputs of a run before anything is written: a missing template
/// is refused first, then the first malformed parameter entry. On success,
/// the parameter set and the kind of template source.
pub fn plan_run(project_name: &str, raw: &Vec<String>, template: &str, template_exists: bool) -> (r:
    Result<RunPlan, Error>)
    ensures
        !template_exists ==> (r matches Err(Error::TemplateNotFound { path }) && path@ == template@),
        template_exists ==> (r is Ok <==> forall|i: int|
            0 <= i < raw@.len() ==> well_formed_entry(#[trigger] raw@[i]@)),
        template_exists && r is Err ==> exists|i: int|
            0 <= i < raw@.len() && !well_formed_entry(raw@[i]@) && (forall|j: int|
                0 <= j < i ==> well_formed_entry(#[trigger] raw@[j]@)) && (r matches Err(
                Error::MalformedParameter { entry: x },
            ) && x@ == raw@[i]@),
        r matches Ok(p) ==> p.params.wf() && p.params@ == parameters_of(views_of(raw@), project_name@)
            && (p.source == TemplateSource::Archive <==> extension(template@) == Some(
            ARCHIVE_EXTENSION@,
        )),
{
    if !template_exists {
        return Err(Error::TemplateNotFound { path: template.to_owned() });
    }
    let params = ParameterSet::from_entries(raw, project_name)?;
    let source = source_kind(template);
    Ok(RunPlan { params, source })
}

} // verus!
