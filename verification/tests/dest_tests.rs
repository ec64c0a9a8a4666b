use igor_install::dest::{folder_name, source_subdir, wave_metrics_path, FolderRole};

#[test]
fn role_names() {
    assert_eq!(folder_name(FolderRole::UserProcedures), "User Procedures");
    assert_eq!(folder_name(FolderRole::IgorProcedures), "Igor Procedures");
    assert_eq!(source_subdir(FolderRole::UserProcedures), "user");
    assert_eq!(source_subdir(FolderRole::IgorProcedures), "igor");
}

#[test]
fn destination_path_composition() {
    assert_eq!(
        wave_metrics_path("/home/me/Documents", "9.0", FolderRole::UserProcedures),
        "/home/me/Documents/WaveMetrics/Igor Pro 9.0 User Files/User Procedures"
    );
    assert_eq!(
        wave_metrics_path("/home/me/Documents", "9.0", FolderRole::IgorProcedures),
        "/home/me/Documents/WaveMetrics/Igor Pro 9.0 User Files/Igor Procedures"
    );
}
