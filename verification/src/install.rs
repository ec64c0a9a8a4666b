//! The install pipeline's decisions, gathered into one planning step: given
//! what the host found (whether the source tree has its two subdirectories,
//! the discovered version candidates, the documents root, the two directory
//! listings), produce either the full set of links to create or the error
//! that aborts the run. Structural validation comes first: a source tree
//! missing `user` or `igor` is rejected before any destination is computed.

use vstd::prelude::*;
use vstd::string::*;
use crate::dest::{FolderRole, wave_metrics_path, wave_metrics_path_spec};
use crate::link::{DirEntry, LinkEntry, entry_views, link_views, plan_links, plan_links_spec};
use crate::text::{join_path, join_path_exec};
use crate::version::{lex_le, select_max_version};

verus! {

/// Why an install run aborts before any link is planned.
#[derive(Clone, Copy, PartialEq, Eq, Structural, Debug)]
pub enum InstallError {
    /// The resolved source tree lacks a `user` or an `igor` subdirectory.
    MissingSubdirectories,
    /// No version was named and no installed version was discovered.
    NoVersionsFound,
}

/// The diagnostic text of an error.
pub open spec fn error_message_spec(e: InstallError) -> Seq<char> {
    match e {
        InstallError::MissingSubdirectories => "The required 'user' and 'igor' directories are missing. Please modify the repository structure."@,
        InstallError::NoVersionsFound => "No installed Igor Pro versions were found."@,
    }
}

impl InstallError {
    /// The diagnostic to print for this error.
    pub fn message(&self) -> (m: String)
        ensures
            m@ == error_message_spec(*self),
    {
        match self {
            InstallError::MissingSubdirectories => String::from_str(
                "The required 'user' and 'igor' directories are missing. Please modify the repository structure.",
            ),
            InstallError::NoVersionsFound => String::from_str(
                "No installed Igor Pro versions were found.",
            ),
        }
    }
}

/// `v` is a maximal candidate: the view of one of them, and lexicographically
/// above them all.
pub open spec fn is_max_candidate(candidates: Seq<String>, v: Seq<char>) -> bool {
    &&& exists|i: int| 0 <= i < candidates.len() && v == #[trigger] candidates[i]@
    &&& forall|i: int| 0 <= i < candidates.len() ==> lex_le(#[trigger] candidates[i]@, v)
}

/// Selects the target version. An explicitly requested version is used
/// verbatim, with no validation against the candidates; otherwise the
/// lexicographic maximum of the candidates; an error when there is neither.
pub fn select_version(explicit: &Option<String>, candidates: &Vec<String>) -> (r: Result<
    String,
    InstallError,
>)
    ensures
        r is Ok <==> (explicit is Some || candidates@.len() > 0),
        explicit is Some ==> r is Ok && r->Ok_0@ == explicit->0@,
        (explicit is None && candidates@.len() > 0) ==> r is Ok && is_max_candidate(
            candidates@,
            r->Ok_0@,
        ),
        r is Err ==> r->Err_0 == InstallError::NoVersionsFound,
{
    match explicit {
        Some(v) => Ok(v.clone()),
        None => match select_max_version(candidates) {
            Some(v) => Ok(v),
            None => Err(InstallError::NoVersionsFound),
        },
    }
}

/// Everything a run will do once planning succeeds: the chosen version, the
/// two source subdirectories, the two destination directories, and the links
/// to create in each.
pub struct InstallPlan {
    pub version: String,
    pub user_source: String,
    pub user_dest: String,
    pub igor_source: String,
    pub igor_dest: String,
    pub user_links: Vec<LinkEntry>,
    pub igor_links: Vec<LinkEntry>,
}

/// Plans a whole install run. Validation order is part of the contract: a
/// source tree missing `user` or `igor` yields `MissingSubdirectories`
/// whatever the other inputs hold, so no destination path or link set is
/// ever derived from such a tree; version selection failure comes second.
pub fn plan_install(
    repo_dir: &str,
    user_exists: bool,
    igor_exists: bool,
    explicit: &Option<String>,
    candidates: &Vec<String>,
    doc_dir: &str,
    user_entries: &Vec<DirEntry>,
    igor_entries: &Vec<DirEntry>,
) -> (r: Result<InstallPlan, InstallError>)
    ensures
        !(user_exists && igor_exists) ==> r == Result::<InstallPlan, InstallError>::Err(
            InstallError::MissingSubdirectories,
        ),
        (user_exists && igor_exists && explicit is None && candidates@.len() == 0) ==> r
            == Result::<InstallPlan, InstallError>::Err(InstallError::NoVersionsFound),
        r is Ok <==> (user_exists && igor_exists && (explicit is Some || candidates@.len() > 0)),
        r is Ok ==> ({
            let p = r->Ok_0;
            &&& (explicit is Some ==> p.version@ == explicit->0@)
            &&& (explicit is None ==> is_max_candidate(candidates@, p.version@))
            &&& p.user_source@ == join_path(repo_dir@, "user"@)
            &&& p.igor_source@ == join_path(repo_dir@, "igor"@)
            &&& p.user_dest@ == wave_metrics_path_spec(
                doc_dir@,
                p.version@,
                FolderRole::UserProcedures,
            )
            &&& p.igor_dest@ == wave_metrics_path_spec(
                doc_dir@,
                p.version@,
                FolderRole::IgorProcedures,
            )
            &&& link_views(p.user_links@) == plan_links_spec(
                p.user_source@,
                p.user_dest@,
                entry_views(user_entries@),
            )
            &&& link_views(p.igor_links@) == plan_links_spec(
                p.igor_source@,
                p.igor_dest@,
                entry_views(igor_entries@),
            )
        }),
{
    if !(user_exists && igor_exists) {
        return Err(InstallError::MissingSubdirectories);
    }
    let version = match select_version(explicit, candidates) {
        Ok(v) => v,
        Err(e) => {
            return Err(e);
        },
    };
    let user_source = join_path_exec(repo_dir, "user");
    let igor_source = join_path_exec(repo_dir, "igor");
    let user_dest = wave_metrics_path(doc_dir, version.as_str(), FolderRole::UserProcedures);
    let igor_dest = wave_metrics_path(doc_dir, version.as_str(), FolderRole::IgorProcedures);
    let user_links = plan_links(user_source.as_str(), user_dest.as_str(), user_entries);
    let igor_links = plan_links(igor_source.as_str(), igor_dest.as_str(), igor_entries);
    Ok(
        InstallPlan {
            version,
            user_source,
            user_dest,
            igor_source,
            igor_dest,
            user_links,
            igor_links,
        },
    )
}

/// The final message of a successful run, naming the installed version.
pub open spec fn success_message_spec(version: Seq<char>) -> Seq<char> {
    "Successfully installed procedures for Igor Pro "@ + version
}

/// Formats the success message for the installed version.
pub fn success_message(version: &str) -> (m: String)
    ensures
        m@ == success_message_spec(version@),
{
    let mut m = String::from_str("Successfully installed procedures for Igor Pro ");
    m.append(version);
    m
}

} // verus!
