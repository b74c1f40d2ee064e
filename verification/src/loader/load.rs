//! Loading a pipeline manifest: placeholders expanded, documents read,
//! checked and resolved into a deployment plan.
use vstd::prelude::*;
use crate::loader::error::{load_fails_with, LoaderError, LoaderErrorKind};
use crate::loader::expand::{expand_environment_variables_with, expansion_result};
use crate::loader::manifest::{documents_read, parse_resource_documents, ParsedDocument, ResourceDocument};
use crate::loader::registry::{deployment_resolution, resolve_deployment_plan};
use crate::message::DeploymentPlan;
use crate::text::{is_blank, str_is_blank};

verus! {

/// Loads pipeline manifests.
#[derive(Debug, Clone, Copy)]
pub struct Loader;

/// The plan of a manifest whose YAML documents are `docs`: the documents are
/// read and checked in order, and the resources they hold resolved.
pub open spec fn plan_of_documents(docs: Seq<ParsedDocument>, r: Result<DeploymentPlan, LoaderError>) -> bool {
    exists|read: Result<Vec<ResourceDocument>, LoaderError>| #[trigger] documents_read(docs, read) && match read {
        Err(e) => load_fails_with(r, e.kind, e.message@),
        Ok(resources) => deployment_resolution(resources@, r),
    }
}

/// The plan of `manifest`, placeholders expanded with `resolve` and the
/// expanded text read into documents by `parse`.
pub open spec fn manifest_plan<F, P>(manifest: Seq<char>, resolve: F, parse: P, r: Result<DeploymentPlan, LoaderError>) -> bool
    where
        F: Fn(String) -> Result<String, String>,
        P: Fn(String) -> Vec<ParsedDocument>,
{
    if is_blank(manifest) {
        load_fails_with(r, LoaderErrorKind::EmptyManifest, "pipeline manifest is empty"@)
    } else {
        exists|x: Result<String, LoaderError>| #[trigger] expansion_result(manifest, resolve, x) && match x {
            Err(e) => load_fails_with(r, e.kind, e.message@),
            Ok(text) => exists|docs: Vec<ParsedDocument>| #[trigger] call_ensures(parse, (text,), docs)
                && plan_of_documents(docs@, r),
        }
    }
}

impl Loader {
    /// The plan of `manifest`: a blank manifest is refused; placeholders are
    /// expanded with `resolve`; `parse` reads the expanded text into its YAML
    /// documents, which are then checked and resolved.
    pub fn load<F, P>(&self, manifest: &str, resolve: F, parse: P) -> (r: Result<DeploymentPlan, LoaderError>)
        where
            F: Fn(String) -> Result<String, String>,
            P: Fn(String) -> Vec<ParsedDocument>,
        requires
            forall|s: String| call_requires(resolve, (s,)),
            forall|s: String| call_requires(parse, (s,)),
        ensures
            manifest_plan(manifest@, resolve, parse, r),
    {
        if str_is_blank(manifest) {
            return Err(LoaderError::new(LoaderErrorKind::EmptyManifest, "pipeline manifest is empty".to_string()));
        }
        let x = expand_environment_variables_with(manifest, resolve);
        let ghost xv = x;
        let expanded = match x {
            Ok(t) => t,
            Err(e) => {
                assert(expansion_result(manifest@, resolve, xv));
                return Err(e);
            },
        };
        let ghost text = expanded;
        let documents = parse(expanded);
        let ghost docs = documents;
        let read = parse_resource_documents(documents);
        let ghost readv = read;
        let r = match read {
            Err(e) => Err(e),
            Ok(resources) => resolve_deployment_plan(resources),
        };
        assert(documents_read(docs@, readv));
        assert(plan_of_documents(docs@, r));
        assert(call_ensures(parse, (text,), docs));
        assert(expansion_result(manifest@, resolve, xv));
        r
    }
}

} // verus!
