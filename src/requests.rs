use vstd::prelude::*;

verus! {

/// A request to install a release asset from GitHub.
#[derive(Clone, Debug)]
pub struct GithubArtifactRequest {
    /// `owner/name` of the repository.
    pub repo: String,
    /// The release tag, which is also the installed version.
    pub version: String,
    /// The file name of the asset.
    pub asset: String,
}

/// New contents for a service's configuration file: dotted keys and values.
#[derive(Clone, Debug)]
pub struct UpdateConfigRequest {
    pub config: Vec<(String, String)>,
}

/// One field of a configuration template.
#[derive(Clone, Debug)]
pub struct TemplateField {
    pub value: String,
    /// `"integer"`, `"float"`, `"boolean"` or anything else for a string.
    pub field_type: String,
}

/// The fields of a configuration template.
#[derive(Clone, Debug)]
pub struct CreateTemplateRequest {
    pub fields: Vec<(String, TemplateField)>,
}

} // verus!
