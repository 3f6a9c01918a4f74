use msvc2008_parser::cli::{keep_built_configurations, lines, skip_nones, Cli};
use msvc2008_parser::vcproj::VCProject;

fn reference_skip_nones(formatted: &str) -> String {
    formatted.lines().filter(|line| !line.contains("None")).collect::<Vec<_>>().join("\n")
}

const TEXTS: [&str; 12] = [
    "",
    "\n",
    "a",
    "a\n",
    "a\r\nb",
    "a\r\nb\r\n",
    "\n\nx\n",
    "a\r",
    "a\r\r\nb",
    "None",
    "Config {\n    name: \"Release|Win32\",\n    character_set: None,\n    use_of_mfc: Some(\n        0,\n    ),\n}",
    "x: None,\r\ny: Some(1),\r\n",
];

#[test]
fn lines_agree_with_std() {
    for t in TEXTS {
        let expected: Vec<String> = t.lines().map(str::to_string).collect();
        assert_eq!(lines(t), expected, "input {t:?}");
    }
}

#[test]
fn skip_nones_agrees_with_its_definition() {
    for t in TEXTS {
        assert_eq!(skip_nones(t), reference_skip_nones(t), "input {t:?}");
    }
}

#[test]
fn skip_nones_drops_lines_with_none() {
    let formatted = "VCProject {\n    name: \"core\",\n    keyword: None,\n    version: \"9.00\",\n}";
    assert_eq!(skip_nones(formatted), "VCProject {\n    name: \"core\",\n    version: \"9.00\",\n}");
    let out = skip_nones(TEXTS[10]);
    assert!(out.lines().all(|l| !l.contains("None")));
    assert_eq!(skip_nones("None\nNone"), "");
}

#[test]
fn cli_holds_its_arguments() {
    let cli = Cli { sln_path: "game/vostok.sln".to_string(), project_name: "core".to_string() };
    assert_eq!(cli.sln_path, "game/vostok.sln");
    assert_eq!(cli.project_name, "core");
}

#[test]
fn keeps_only_built_configurations() {
    let text = r#"<VisualStudioProject ProjectType="Visual C++" Version="9,00" Name="core" ProjectGUID="{1}" RootNamespace="core" TargetFrameworkVersion="0">
      <Platforms><Platform Name="Win32"/></Platforms>
      <Configurations>
        <Configuration Name="Debug|Win32" ConfigurationType="4"/>
        <Configuration Name="Release|Win32" ConfigurationType="4"/>
        <Configuration Name="Release|x64" ConfigurationType="4"/>
        <Configuration Name="Master Gold|Win32" ConfigurationType="1"/>
      </Configurations>
      <Files><File RelativePath="a.cpp"/></Files>
    </VisualStudioProject>"#;
    let mut p = VCProject::parse_xml(text).unwrap();
    keep_built_configurations(&mut p);
    let names: Vec<&str> = p.configurations.iter().map(|c| c.name.as_str()).collect();
    assert_eq!(names, vec!["Release|Win32", "Master Gold|Win32"]);
    assert_eq!(p.configurations[1].configuration_type, 1);
    assert!(p.platforms.is_empty());
    assert!(p.files.files.is_empty() && p.files.filters.is_empty());
    assert_eq!(p.name, "core");
    keep_built_configurations(&mut p);
    let again: Vec<&str> = p.configurations.iter().map(|c| c.name.as_str()).collect();
    assert_eq!(again, vec!["Release|Win32", "Master Gold|Win32"]);
}
