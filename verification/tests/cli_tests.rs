use sekirei::cli::{
    build_output, init_project_name, install_report, parse_pkg_command, parse_subcommand, PkgCommand, Subcommand,
};

fn strings(v: &[&str]) -> Vec<String> {
    v.iter().map(|s| s.to_string()).collect()
}

#[test]
fn compiler_commands() {
    assert_eq!(parse_subcommand(&"run".to_string()), Some(Subcommand::Run));
    assert_eq!(parse_subcommand(&"build".to_string()), Some(Subcommand::Build));
    assert_eq!(parse_subcommand(&"emit-ir".to_string()), Some(Subcommand::EmitIr));
    assert_eq!(parse_subcommand(&"emit".to_string()), None);
}

#[test]
fn build_output_follows_dash_o() {
    assert_eq!(build_output(&strings(&["sekirei", "build", "hello.sk", "-o", "bin/hi"])), "bin/hi");
}

#[test]
fn build_output_defaults_to_the_source_without_extension() {
    assert_eq!(build_output(&strings(&["sekirei", "build", "src/hello.sk"])), "src/hello");
    assert_eq!(build_output(&strings(&["sekirei", "build", "hello.sk", "-o"])), "hello");
    assert_eq!(build_output(&strings(&["sekirei", "build", "hello.sk", "-x", "out"])), "hello");
    assert_eq!(build_output(&strings(&["sekirei", "build", "noext"])), "noext");
}

#[test]
fn package_manager_commands() {
    assert_eq!(parse_pkg_command(&"init".to_string()), Some(PkgCommand::Init));
    assert_eq!(parse_pkg_command(&"install".to_string()), Some(PkgCommand::Install));
    assert_eq!(parse_pkg_command(&"publish".to_string()), Some(PkgCommand::Publish));
    assert_eq!(parse_pkg_command(&"remove".to_string()), None);
}

#[test]
fn init_names_the_project() {
    assert_eq!(init_project_name(&strings(&["demo", "extra"])), "demo");
    assert_eq!(init_project_name(&Vec::new()), "myproject");
}

#[test]
fn install_reports_each_package() {
    let note = "[skp] (not yet implemented - sekipi.org registry coming soon)";
    assert_eq!(install_report(&Vec::new()), vec!["[skp] installing dependencies from sekirei.toml...", note]);
    assert_eq!(
        install_report(&strings(&["http", "json"])),
        vec!["[skp] installing 'http'...", note, "[skp] installing 'json'...", note]
    );
}
