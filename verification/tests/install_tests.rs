use igor_install::install::{
    plan_install, select_version, success_message, InstallError,
};
use igor_install::link::{materialize, DirEntry, EntryKind, FsModel};

fn file_entry(name: &str) -> DirEntry {
    DirEntry {
        name: String::from(name),
        kind: EntryKind::File,
    }
}

#[test]
fn missing_subdirectory_aborts_before_any_destination_work() {
    // Even with candidates and a documents root at hand, a source tree
    // missing `user` or `igor` yields the structural error and nothing else.
    let candidates = vec![String::from("9.0")];
    let entries: Vec<DirEntry> = Vec::new();
    let r = plan_install(
        "/repo",
        false,
        true,
        &None,
        &candidates,
        "/docs",
        &entries,
        &entries,
    );
    assert_eq!(r.err(), Some(InstallError::MissingSubdirectories));
    let r2 = plan_install("/repo", true, false, &None, &candidates, "/docs", &entries, &entries);
    assert_eq!(r2.err(), Some(InstallError::MissingSubdirectories));
    // The structural error wins even when version discovery would also fail.
    let none: Vec<String> = Vec::new();
    let r3 = plan_install("/repo", false, false, &None, &none, "/docs", &entries, &entries);
    assert_eq!(r3.err(), Some(InstallError::MissingSubdirectories));
}

#[test]
fn no_versions_found_aborts() {
    let none: Vec<String> = Vec::new();
    let entries: Vec<DirEntry> = Vec::new();
    let r = plan_install("/repo", true, true, &None, &none, "/docs", &entries, &entries);
    assert_eq!(r.err(), Some(InstallError::NoVersionsFound));
}

#[test]
fn explicit_version_is_used_verbatim() {
    let none: Vec<String> = Vec::new();
    let r = select_version(&Some(String::from("6.2")), &none);
    assert_eq!(r, Ok(String::from("6.2")));
}

#[test]
fn automatic_selection_picks_lexicographic_maximum() {
    let candidates = vec![
        String::from("9.0"),
        String::from("10.0"),
        String::from("8.1"),
    ];
    let r = select_version(&None, &candidates);
    assert_eq!(r, Ok(String::from("9.0")));
}

#[test]
fn end_to_end_local_source() {
    // Source tree: user/{x.ipf}, igor/{y.ipf}; version 9.0. Each role's
    // destination receives exactly one correctly-named link, and the final
    // message names the version.
    let user_entries = vec![file_entry("x.ipf")];
    let igor_entries = vec![file_entry("y.ipf")];
    let candidates = vec![String::from("9.0")];
    let plan = plan_install(
        "/home/me/procs",
        true,
        true,
        &None,
        &candidates,
        "/home/me/Documents",
        &user_entries,
        &igor_entries,
    )
    .unwrap();

    assert_eq!(plan.version, "9.0");
    assert_eq!(plan.user_source, "/home/me/procs/user");
    assert_eq!(plan.igor_source, "/home/me/procs/igor");
    assert_eq!(
        plan.user_dest,
        "/home/me/Documents/WaveMetrics/Igor Pro 9.0 User Files/User Procedures"
    );
    assert_eq!(
        plan.igor_dest,
        "/home/me/Documents/WaveMetrics/Igor Pro 9.0 User Files/Igor Procedures"
    );

    let mut fs = FsModel { existing: Vec::new() };
    assert_eq!(materialize(&plan.user_links, &mut fs), Ok(1));
    assert_eq!(materialize(&plan.igor_links, &mut fs), Ok(1));
    assert_eq!(
        fs.existing,
        vec![
            "/home/me/Documents/WaveMetrics/Igor Pro 9.0 User Files/User Procedures/x.ipf"
                .to_string(),
            "/home/me/Documents/WaveMetrics/Igor Pro 9.0 User Files/Igor Procedures/y.ipf"
                .to_string(),
        ]
    );
    assert_eq!(plan.user_links[0].source, "/home/me/procs/user/x.ipf");
    assert_eq!(plan.igor_links[0].source, "/home/me/procs/igor/y.ipf");

    assert_eq!(
        success_message(&plan.version),
        "Successfully installed procedures for Igor Pro 9.0"
    );
}

#[test]
fn error_messages() {
    assert_eq!(
        InstallError::MissingSubdirectories.message(),
        "The required 'user' and 'igor' directories are missing. Please modify the repository structure."
    );
    assert_eq!(
        InstallError::NoVersionsFound.message(),
        "No installed Igor Pro versions were found."
    );
}
