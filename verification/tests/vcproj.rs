use msvc2008_parser::text::{decimal_i8, IntErrorKind};
use msvc2008_parser::vcproj::{
    parse_bool, parse_list, CompilerTool, Files, LibTool, LinkerTool, Optimization, Tool, VCProject,
};
use msvc2008_parser::xml::{XmlDocument, XmlError};

const HEAD: &str = r#"<?xml version="1.0" encoding="Windows-1252"?>
<VisualStudioProject ProjectType="Visual C++" Version="9,00" Name="core" ProjectGUID="{11111111-2222-3333-4444-555555555555}" RootNamespace="core" TargetFrameworkVersion="196613">"#;

fn project(body: &str) -> String {
    format!("{HEAD}{body}</VisualStudioProject>")
}

const FULL: &str = r#"
  <Platforms>
    <Platform Name="Win32"/>
    <Platform Name="Xbox 360"/>
    <Other/>
  </Platforms>
  <ToolFiles>
  </ToolFiles>
  <Configurations>
    <Configuration Name="Release|Win32" OutputDirectory="$(SolutionDir)bin" ConfigurationType="4" CharacterSet="2" WholeProgramOptimization="1" InheritedPropertySheets=";a.vsprops;;b.vsprops" UseOfMFC="-1">
      <Tool Name="VCPreBuildEventTool"/>
      <Tool Name="VCCLCompilerTool" Optimization="2" PreprocessorDefinitions="WIN32;NDEBUG;_LIB;" StringPooling="true" WarningLevel="3"/>
      <Tool Name="VCLibrarianTool" OutputFile="$(OutDir)\core.lib"/>
    </Configuration>
    <Configuration Name="Debug|Win32" ConfigurationType="1">
      <Tool Name="VCLinkerTool" GenerateDebugInformation="TRUE" SubSystem="2"/>
    </Configuration>
  </Configurations>
  <References>
  </References>
  <Files>
    <Filter Name="Sources" Filter="cpp;c;cxx" UniqueIdentifier="{4FC737F1}">
      <File RelativePath=".\main.cpp">
        <FileConfiguration Name="Release|Win32" ExcludedFromBuild="false">
          <Tool Name="VCCLCompilerTool" UsePrecompiledHeader="1"/>
        </FileConfiguration>
        <FileConfiguration Name="Release|x64">
          <Tool Name="VCCLCompilerTool"/>
        </FileConfiguration>
      </File>
      <Filter Name="Nested">
        <File RelativePath=".\inner.cpp"/>
      </Filter>
    </Filter>
    <File RelativePath=".\readme.txt" FileType="3">
      <File RelativePath=".\readme.generated.txt"/>
      <Tool Name="Custom"/>
    </File>
  </Files>
  <Globals>
    <Global Name="DevPartner_IsInstrumented" Value="0"/>
  </Globals>
"#;

#[test]
fn reads_a_whole_project() {
    let p = VCProject::parse_xml(&project(FULL)).unwrap();
    assert_eq!(p.name, "core");
    assert_eq!(p.project_type, "Visual C++");
    assert_eq!(p.version, "9,00");
    assert_eq!(p.guid, "{11111111-2222-3333-4444-555555555555}");
    assert_eq!(p.root_namespace, "core");
    assert_eq!(p.keyword, None);
    assert_eq!(p.target_framework_version, "196613");

    let platforms: Vec<&str> = p.platforms.iter().map(|x| x.name.as_str()).collect();
    assert_eq!(platforms, vec!["Win32", "Xbox 360"]);

    assert_eq!(p.configurations.len(), 2);
    let release = &p.configurations[0];
    assert_eq!(release.name, "Release|Win32");
    assert_eq!(release.output_directory.as_deref(), Some("$(SolutionDir)bin"));
    assert_eq!(release.intermediate_directory, None);
    assert_eq!(release.configuration_type, 4);
    assert_eq!(release.character_set, Some(2));
    assert_eq!(release.whole_program_optimization, Some(true));
    assert_eq!(
        release.inherited_property_sheets,
        Some(vec!["a.vsprops".to_string(), "b.vsprops".to_string()])
    );
    assert_eq!(release.use_of_mfc, Some(-1));
    let cl = release.compiler_tool.as_ref().unwrap();
    assert_eq!(cl.optimization, Some(2));
    assert_eq!(
        cl.preprocessor_definitions,
        Some(vec!["WIN32".to_string(), "NDEBUG".to_string(), "_LIB".to_string()])
    );
    assert_eq!(cl.string_pooling, Some(true));
    assert_eq!(cl.warning_level, Some(3));
    assert_eq!(cl.additional_options, None);
    assert_eq!(release.lib_tool.as_ref().unwrap().output_file.as_deref(), Some("$(OutDir)\\core.lib"));
    assert!(release.linker_tool.is_none());

    let debug = &p.configurations[1];
    assert_eq!(debug.configuration_type, 1);
    assert!(debug.compiler_tool.is_none());
    assert!(debug.lib_tool.is_none());
    let link = debug.linker_tool.as_ref().unwrap();
    assert_eq!(link.generate_debug_information, Some(true));
    assert_eq!(link.sub_system, Some(2));

    assert_eq!(p.files.filters.len(), 1);
    let sources = &p.files.filters[0];
    assert_eq!(sources.name, "Sources");
    assert_eq!(sources.filter, Some(vec!["cpp".to_string(), "c".to_string(), "cxx".to_string()]));
    assert_eq!(sources.files.len(), 1);
    let main = &sources.files[0];
    assert_eq!(main.relative_path, ".\\main.cpp");
    assert_eq!(main.file_configurations.len(), 2);
    assert_eq!(main.file_configurations[0].name, "Release|Win32");
    assert_eq!(main.file_configurations[0].excluded_from_build, Some(false));
    assert_eq!(main.file_configurations[0].tool.name, "VCCLCompilerTool");
    assert_eq!(main.file_configurations[0].tool.use_precompiled_header, Some(1));
    assert_eq!(main.file_configurations[1].name, "Release|x64");
    assert_eq!(main.file_configurations[1].excluded_from_build, None);
    assert_eq!(sources.filters.len(), 1);
    assert_eq!(sources.filters[0].name, "Nested");
    assert_eq!(sources.filters[0].files[0].relative_path, ".\\inner.cpp");

    assert_eq!(p.files.files.len(), 1);
    let readme = &p.files.files[0];
    assert_eq!(readme.file_type, Some(3));
    assert_eq!(readme.files.len(), 1);
    assert_eq!(readme.files[0].relative_path, ".\\readme.generated.txt");
}

#[test]
fn a_project_without_sections_is_empty() {
    let p = VCProject::parse_xml(&project("")).unwrap();
    assert!(p.platforms.is_empty());
    assert!(p.configurations.is_empty());
    assert!(p.files.filters.is_empty() && p.files.files.is_empty());
    let with_keyword = HEAD.replace("RootNamespace=\"core\"", "RootNamespace=\"core\" Keyword=\"Win32Proj\"");
    let p = VCProject::parse_xml(&format!("{with_keyword}</VisualStudioProject>")).unwrap();
    assert_eq!(p.keyword.as_deref(), Some("Win32Proj"));
}

#[test]
fn document_errors() {
    assert!(matches!(VCProject::parse_xml("<VisualStudioProject>"), Err(XmlError::Document(_))));
    assert!(matches!(VCProject::parse_xml("<Other/>"), Err(XmlError::UnexpectedRoot)));
}

#[test]
fn attribute_errors() {
    let missing = r#"<VisualStudioProject ProjectType="Visual C++" Version="9,00" ProjectGUID="{1}" RootNamespace="core" TargetFrameworkVersion="0"/>"#;
    match VCProject::parse_xml(missing) {
        Err(XmlError::MissingAttribute { context, name }) => {
            assert_eq!(context, "VCProject");
            assert_eq!(name, "Name");
        }
        other => panic!("unexpected {other:?}"),
    }
    let extra = project("").replace("Name=\"core\"", "Name=\"core\" Colour=\"red\"");
    match VCProject::parse_xml(&extra) {
        Err(XmlError::UnexpectedAttribute { context, name, value }) => {
            assert_eq!(context, "VCProject");
            assert_eq!(name, "Colour");
            assert_eq!(value, "red");
        }
        other => panic!("unexpected {other:?}"),
    }
    let bad_bool = project(r#"<Configurations><Configuration Name="R" ConfigurationType="1" WholeProgramOptimization="yes"/></Configurations>"#);
    match VCProject::parse_xml(&bad_bool) {
        Err(XmlError::InvalidBool { value }) => assert_eq!(value, "yes"),
        other => panic!("unexpected {other:?}"),
    }
    let bad_int = project(r#"<Configurations><Configuration Name="R" ConfigurationType="300"/></Configurations>"#);
    match VCProject::parse_xml(&bad_int) {
        Err(XmlError::InvalidInteger { value, kind }) => {
            assert_eq!(value, "300");
            assert_eq!(kind, IntErrorKind::PosOverflow);
        }
        other => panic!("unexpected {other:?}"),
    }
}

#[test]
fn structure_errors() {
    let odd_section = project("<Macros/>");
    match VCProject::parse_xml(&odd_section) {
        Err(XmlError::UnexpectedTag { parent, tag }) => {
            assert_eq!(parent, "VisualStudioProject");
            assert_eq!(tag, "Macros");
        }
        other => panic!("unexpected {other:?}"),
    }
    let tool_files = project(r#"<ToolFiles><DefaultToolFile FileName="x.rules"/></ToolFiles>"#);
    match VCProject::parse_xml(&tool_files) {
        Err(XmlError::ExpectedEmpty { tag }) => assert_eq!(tag, "ToolFiles"),
        other => panic!("unexpected {other:?}"),
    }
    let odd_file_child = project(r#"<Files><Folder/></Files>"#);
    match VCProject::parse_xml(&odd_file_child) {
        Err(XmlError::UnexpectedTag { parent, tag }) => {
            assert_eq!(parent, "Files");
            assert_eq!(tag, "Folder");
        }
        other => panic!("unexpected {other:?}"),
    }
    let no_tool = project(r#"<Files><File RelativePath="a.cpp"><FileConfiguration Name="R"/></File></Files>"#);
    match VCProject::parse_xml(&no_tool) {
        Err(XmlError::MissingChild { parent, child }) => {
            assert_eq!(parent, "FileConfiguration");
            assert_eq!(child, "Tool");
        }
        other => panic!("unexpected {other:?}"),
    }
}

#[test]
fn optimization_flags() {
    let flags: Vec<&str> = (0..4).map(|v| Optimization::parse(v).unwrap().as_str()).collect();
    assert_eq!(flags, vec!["/Od", "/O1", "/O2", "/Ox"]);
    match Optimization::parse(4) {
        Err(XmlError::InvalidFlag { name, value }) => {
            assert_eq!(name, "Optimization");
            assert_eq!(value, 4);
        }
        other => panic!("unexpected {other:?}"),
    }
    assert!(matches!(Optimization::parse(-1), Err(XmlError::InvalidFlag { value: -1, .. })));
    assert_eq!(Optimization::from_str("3").unwrap().as_str(), "/Ox");
    assert!(matches!(
        Optimization::from_str("x"),
        Err(XmlError::InvalidInteger { kind: IntErrorKind::InvalidDigit, .. })
    ));
    assert!(matches!(Optimization::from_str("9"), Err(XmlError::InvalidFlag { value: 9, .. })));
}

#[test]
fn booleans_and_lists() {
    assert_eq!(parse_bool("TRUE").unwrap(), true);
    assert_eq!(parse_bool("0").unwrap(), false);
    assert!(matches!(parse_bool("Yes"), Err(XmlError::InvalidBool { value }) if value == "Yes"));
    assert_eq!(parse_list("a;;b;"), vec!["a", "b"]);
    assert!(parse_list(";;").is_empty());
}

#[test]
fn empty_file_tree() {
    let f = Files::default();
    assert!(f.filters.is_empty() && f.files.is_empty());
    let g = Files::new();
    assert!(g.filters.is_empty() && g.files.is_empty());
}

#[test]
fn default_tool_has_no_settings() {
    let t = Tool::default();
    assert_eq!(t.name, "");
    assert!(t.use_precompiled_header.is_none() && t.additional_options.is_none());
    assert!(t.optimization.is_none() && t.preprocessor_definitions.is_none());
    assert!(t.warning_level.is_none() && t.xml_documentation_file_name.is_none());
}

#[test]
fn optimization_parses_through_from_str() {
    assert_eq!("3".parse::<Optimization>().unwrap().as_str(), "/Ox");
    assert_eq!("0".parse::<Optimization>().unwrap().as_str(), "/Od");
    assert!(matches!("7".parse::<Optimization>(), Err(XmlError::InvalidFlag { value: 7, .. })));
    assert!(matches!("".parse::<Optimization>(), Err(XmlError::InvalidInteger { kind: IntErrorKind::Empty, .. })));
}

#[test]
fn project_error_messages() {
    let cases: Vec<(XmlError, &str)> = vec![
        (XmlError::UnexpectedRoot, "Expected 'VisualStudioProject' as a root object"),
        (
            XmlError::UnexpectedAttribute { context: "VCProject".into(), name: "Colour".into(), value: "red".into() },
            "Unexpected VCProject attribute: 'Colour' with value: 'red'",
        ),
        (XmlError::MissingAttribute { context: "File".into(), name: "RelativePath".into() }, "File missing 'RelativePath'"),
        (XmlError::InvalidInteger { value: "".into(), kind: IntErrorKind::Empty }, "cannot parse integer from empty string"),
        (XmlError::InvalidInteger { value: "x".into(), kind: IntErrorKind::InvalidDigit }, "invalid digit found in string"),
        (XmlError::InvalidInteger { value: "300".into(), kind: IntErrorKind::PosOverflow }, "number too large to fit in target type"),
        (XmlError::InvalidInteger { value: "-300".into(), kind: IntErrorKind::NegOverflow }, "number too small to fit in target type"),
        (XmlError::InvalidBool { value: "yes".into() }, "Unexpected boolean value: 'yes'"),
        (XmlError::UnexpectedTag { parent: "VisualStudioProject".into(), tag: "Macros".into() }, "Unexpected tag name: 'Macros'"),
        (XmlError::UnexpectedTag { parent: "Files".into(), tag: "Folder".into() }, "Unexpected tag in Files: 'Folder'"),
        (XmlError::ExpectedEmpty { tag: "ToolFiles".into() }, "Expected 'ToolFiles' to be empty"),
        (XmlError::MissingChild { parent: "FileConfiguration".into(), child: "Tool".into() }, "FileConfiguration missing Tool"),
        (XmlError::InvalidFlag { name: "Optimization".into(), value: 4 }, "Invalid Optimization value: 4"),
        (XmlError::InvalidFlag { name: "Optimization".into(), value: -128 }, "Invalid Optimization value: -128"),
        (XmlError::InvalidFlag { name: "Optimization".into(), value: 127 }, "Invalid Optimization value: 127"),
        (XmlError::InvalidFlag { name: "Optimization".into(), value: -10 }, "Invalid Optimization value: -10"),
        (XmlError::Document("unexpected end of stream".into()), "unexpected end of stream"),
    ];
    for (e, m) in cases {
        assert_eq!(e.message(), m);
    }
    for v in i8::MIN..=i8::MAX {
        assert_eq!(decimal_i8(v), v.to_string());
    }
    match VCProject::parse_xml("<VisualStudioProject") {
        Err(e) => assert_eq!(e.message(), roxmltree::Document::parse("<VisualStudioProject").unwrap_err().to_string()),
        Ok(_) => panic!("expected an error"),
    }
}

#[test]
fn tool_readers_ignore_the_name() {
    let with_name = XmlDocument::parse(r#"<Tool Name="VCCLCompilerTool" Optimization="2" WarningLevel="3"/>"#).unwrap();
    let without = XmlDocument::parse(r#"<Tool Optimization="2" WarningLevel="3"/>"#).unwrap();
    let other = XmlDocument::parse(r#"<Tool Name="Anything" Optimization="2" WarningLevel="3"/>"#).unwrap();
    let a = CompilerTool::parse_xml(&with_name, 1).unwrap();
    let b = CompilerTool::parse_xml(&without, 1).unwrap();
    let c = CompilerTool::parse_xml(&other, 1).unwrap();
    assert_eq!(format!("{a:?}"), format!("{b:?}"));
    assert_eq!(format!("{a:?}"), format!("{c:?}"));
    let l1 = LinkerTool::parse_xml(&with_name, 1);
    assert!(matches!(l1, Err(XmlError::UnexpectedAttribute { .. })));
    let lib = XmlDocument::parse(r#"<Tool Name="VCLibrarianTool" OutputFile="a.lib"/>"#).unwrap();
    let lib2 = XmlDocument::parse(r#"<Tool OutputFile="a.lib"/>"#).unwrap();
    assert_eq!(format!("{:?}", LibTool::parse_xml(&lib, 1).unwrap()), format!("{:?}", LibTool::parse_xml(&lib2, 1).unwrap()));
}

#[test]
fn references_and_globals_contents_are_not_read() {
    let plain = project("<References/><Configurations><Configuration Name=\"R\" ConfigurationType=\"1\"/></Configurations><Globals></Globals>");
    let filled = project(
        "<References><AssemblyReference RelativePath=\"System.dll\" AssemblyName=\"System\"/><Odd><Deeper x=\"1\"/></Odd></References>\
         <Configurations><Configuration Name=\"R\" ConfigurationType=\"1\"/></Configurations>\
         <Globals><Global Name=\"DevPartner_IsInstrumented\" Value=\"0\"/></Globals>",
    );
    let a = VCProject::parse_xml(&plain).unwrap();
    let b = VCProject::parse_xml(&filled).unwrap();
    assert_eq!(format!("{a:?}"), format!("{b:?}"));
}

#[test]
fn integer_messages_match_std() {
    for s in ["", "x", "300", "-300"] {
        let std_message = s.parse::<i8>().unwrap_err().to_string();
        let kind = match s.parse::<i8>().unwrap_err().kind() {
            std::num::IntErrorKind::Empty => IntErrorKind::Empty,
            std::num::IntErrorKind::InvalidDigit => IntErrorKind::InvalidDigit,
            std::num::IntErrorKind::PosOverflow => IntErrorKind::PosOverflow,
            _ => IntErrorKind::NegOverflow,
        };
        let e = XmlError::InvalidInteger { value: s.to_string(), kind };
        assert_eq!(e.message(), std_message);
    }
}
