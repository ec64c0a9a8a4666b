//! Destination location: pure composition of the per-version, per-role
//! destination directory path under the host's documents root.

use vstd::prelude::*;
use vstd::string::*;

verus! {

/// The two fixed installation targets. Each role has its own subdirectory
/// name inside the resolved source tree and its own destination folder name
/// under the version's user-files root.
#[derive(Clone, Copy, PartialEq, Eq, Structural, Debug)]
pub enum FolderRole {
    UserProcedures,
    IgorProcedures,
}

/// The destination folder name of a role.
pub open spec fn role_folder_name(role: FolderRole) -> Seq<char> {
    match role {
        FolderRole::UserProcedures => "User Procedures"@,
        FolderRole::IgorProcedures => "Igor Procedures"@,
    }
}

/// The subdirectory name a role reads from inside the resolved source tree.
pub open spec fn role_source_subdir(role: FolderRole) -> Seq<char> {
    match role {
        FolderRole::UserProcedures => "user"@,
        FolderRole::IgorProcedures => "igor"@,
    }
}

/// The destination folder name of a role, as a string slice.
pub fn folder_name(role: FolderRole) -> (r: &'static str)
    ensures
        r@ == role_folder_name(role),
{
    match role {
        FolderRole::UserProcedures => "User Procedures",
        FolderRole::IgorProcedures => "Igor Procedures",
    }
}

/// The subdirectory name a role reads from, as a string slice.
pub fn source_subdir(role: FolderRole) -> (r: &'static str)
    ensures
        r@ == role_source_subdir(role),
{
    match role {
        FolderRole::UserProcedures => "user",
        FolderRole::IgorProcedures => "igor",
    }
}

/// The destination directory for a version and role:
/// `<documents>/WaveMetrics/Igor Pro <version> User Files/<role folder>`.
pub open spec fn wave_metrics_path_spec(
    doc_dir: Seq<char>,
    version: Seq<char>,
    role: FolderRole,
) -> Seq<char> {
    doc_dir + "/WaveMetrics/Igor Pro "@ + version + " User Files/"@ + role_folder_name(role)
}

/// Composes the destination directory path for a version and role. Pure
/// composition: nothing checks that the path exists.
pub fn wave_metrics_path(doc_dir: &str, version: &str, role: FolderRole) -> (r: String)
    ensures
        r@ == wave_metrics_path_spec(doc_dir@, version@, role),
{
    let mut r = String::from_str(doc_dir);
    r.append("/WaveMetrics/Igor Pro ");
    r.append(version);
    r.append(" User Files/");
    r.append(folder_name(role));
    r
}

} // verus!
