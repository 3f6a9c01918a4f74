use msvc2008_parser::vcproj_raw::{parse_bool, parse_list, Files, Project};
use msvc2008_parser::xml::XmlError;

const ROOT: &str = r#"<VisualStudioProject ProjectType="Visual C++" Version="9,00" Name="engine" ProjectGUID="{1}" RootNamespace="engine" Keyword="Win32Proj" TargetFrameworkVersion="131072">"#;

const COMPILER: &str = r#"<Tool Name="VCCLCompilerTool" AdditionalOptions="/MP" Optimization="2" InlineFunctionExpansion="1" EnableIntrinsicFunctions="true" OmitFramePointers="TRUE" EnableFiberSafeOptimizations="0" AdditionalIncludeDirectories="..\include;;..\sdk" PreprocessorDefinitions="WIN32;NDEBUG;" StringPooling="1" MinimalRebuild="false" ExceptionHandling="1" RuntimeLibrary="0" BufferSecurityCheck="FALSE" EnableEnhancedInstructionSet="2" FloatingPointModel="2" UsePrecompiledHeader="2" PrecompiledHeaderThrough="pch.h" WarningLevel="4" Detect64BitPortabilityProblems="false" DebugInformationFormat="3"/>"#;

const LIBRARIAN: &str = r#"<Tool Name="VCLibrarianTool" AdditionalOptions="" OutputFile="$(OutDir)\engine.lib"/>"#;

fn configuration(tools: &str) -> String {
    format!(
        r#"<Configuration Name="Release|Win32" OutputDirectory="out" IntermediateDirectory="obj" ConfigurationType="4" CharacterSet="1" WholeProgramOptimization="1">{tools}</Configuration>"#
    )
}

fn project(body: &str) -> String {
    format!("{ROOT}{body}</VisualStudioProject>")
}

#[test]
fn reads_a_whole_raw_project() {
    let files = r#"<Files>
      <Filter Name="src">
        <File RelativePath="a.cpp">
          <FileConfiguration Name="Release|Win32"><Tool Name="VCCLCompilerTool" UsePrecompiledHeader="1"/></FileConfiguration>
          <FileConfiguration Name="Release|Xbox 360" ExcludedFromBuild="true"><Tool Name="VCCLCompilerTool"/></FileConfiguration>
          <FileConfiguration Name="Debug|PS3"><Tool Name="VCCLCompilerTool"/></FileConfiguration>
          <FileConfiguration Name="Debug|x64"><Tool Name="VCCLCompilerTool"/></FileConfiguration>
          <FileConfiguration Name="Debug|Win32" ExcludedFromBuild="true"><Tool Name="VCCustomBuildTool"/></FileConfiguration>
        </File>
      </Filter>
      <File RelativePath="b.cpp"/>
    </Files>"#;
    let body = format!(
        "<Platforms><Platform Name=\"Win32\"/></Platforms><ToolFiles/><Configurations>{}</Configurations><References/>{files}<Globals/>",
        configuration(&format!("<Tool Name=\"VCMIDLTool\"/>{COMPILER}{LIBRARIAN}"))
    );
    let p = Project::parse_xml(&project(&body)).unwrap();
    assert_eq!(p.name, "engine");
    assert_eq!(p.project_type, "Visual C++");
    assert_eq!(p.version, "9,00");
    assert_eq!(p.guid, "{1}");
    assert_eq!(p.root_namespace, "engine");
    assert_eq!(p.keyword, "Win32Proj");
    assert_eq!(p.target_framework_version, "131072");
    assert_eq!(p.platforms.len(), 1);
    assert_eq!(p.platforms[0].name, "Win32");

    assert_eq!(p.configuraitons.len(), 1);
    let c = &p.configuraitons[0];
    assert_eq!(c.name, "Release|Win32");
    assert_eq!(c.output_directory, "out");
    assert_eq!(c.intermediate_directory, "obj");
    assert_eq!(c.configuraiton_type, 4);
    assert_eq!(c.character_set, 1);
    assert!(c.whole_program_optimization);
    let cl = &c.compiler_tool;
    assert_eq!(cl.additional_options, "/MP");
    assert_eq!(cl.optimization, 2);
    assert!(cl.enable_intrinsic_functions && cl.omit_frame_pointers && !cl.enable_fiber_safe_optimizations);
    assert_eq!(cl.additional_include_directories, vec!["..\\include", "..\\sdk"]);
    assert_eq!(cl.preprocessor_definitions, vec!["WIN32", "NDEBUG"]);
    assert!(cl.string_pooling && !cl.minimal_rebuild && !cl.buffer_security_check);
    assert_eq!(cl.precompiled_header_through, "pch.h");
    assert_eq!(cl.warning_level, 4);
    assert!(!cl.detect_64bit_portability_problems);
    assert_eq!(cl.debug_information_format, 3);
    assert_eq!(c.linker_tool.additional_options, "");
    assert_eq!(c.linker_tool.output_file, "$(OutDir)\\engine.lib");

    assert_eq!(p.files.filters.len(), 1);
    let a = &p.files.filters[0].files[0];
    assert_eq!(a.relative_path, "a.cpp");
    let names: Vec<&str> = a.file_configurations.iter().map(|c| c.name.as_str()).collect();
    assert_eq!(names, vec!["Release|Win32", "Debug|Win32"]);
    assert!(!a.file_configurations[0].excluded_from_build);
    assert_eq!(a.file_configurations[0].tool.use_precompiled_header, Some(1));
    assert!(a.file_configurations[1].excluded_from_build);
    assert_eq!(a.file_configurations[1].tool.name, "VCCustomBuildTool");
    assert_eq!(p.files.files[0].relative_path, "b.cpp");
}

#[test]
fn every_root_attribute_is_required() {
    let no_keyword = ROOT.replace(" Keyword=\"Win32Proj\"", "");
    match Project::parse_xml(&format!("{no_keyword}</VisualStudioProject>")) {
        Err(XmlError::MissingAttribute { context, name }) => {
            assert_eq!(context, "VisualStudioProject");
            assert_eq!(name, "Keyword");
        }
        other => panic!("unexpected {other:?}"),
    }
}

#[test]
fn configuration_needs_both_tools() {
    let only_compiler = project(&format!("<Configurations>{}</Configurations>", configuration(COMPILER)));
    match Project::parse_xml(&only_compiler) {
        Err(XmlError::MissingChild { parent, child }) => {
            assert_eq!(parent, "Configuration");
            assert_eq!(child, "VCLibrarianTool");
        }
        other => panic!("unexpected {other:?}"),
    }
    let only_librarian = project(&format!("<Configurations>{}</Configurations>", configuration(LIBRARIAN)));
    match Project::parse_xml(&only_librarian) {
        Err(XmlError::MissingChild { child, .. }) => assert_eq!(child, "VCCLCompilerTool"),
        other => panic!("unexpected {other:?}"),
    }
}

#[test]
fn compiler_attribute_errors() {
    let odd = COMPILER.replace("WarningLevel=\"4\"", "WarningLevel=\"4\" Unknown=\"1\"");
    let text = project(&format!("<Configurations>{}</Configurations>", configuration(&format!("{odd}{LIBRARIAN}"))));
    match Project::parse_xml(&text) {
        Err(XmlError::UnexpectedAttribute { context, name, value }) => {
            assert_eq!(context, "VCCLCompilerTool");
            assert_eq!(name, "Unknown");
            assert_eq!(value, "1");
        }
        other => panic!("unexpected {other:?}"),
    }
    let bad = COMPILER.replace("StringPooling=\"1\"", "StringPooling=\"on\"");
    let text = project(&format!("<Configurations>{}</Configurations>", configuration(&format!("{bad}{LIBRARIAN}"))));
    assert!(matches!(Project::parse_xml(&text), Err(XmlError::InvalidBool { value }) if value == "on"));
}

#[test]
fn sections_must_be_empty_or_known() {
    match Project::parse_xml(&project("<Globals><Global Name=\"x\" Value=\"0\"/></Globals>")) {
        Err(XmlError::ExpectedEmpty { tag }) => assert_eq!(tag, "Globals"),
        other => panic!("unexpected {other:?}"),
    }
    match Project::parse_xml(&project("<Macros/>")) {
        Err(XmlError::UnexpectedTag { parent, tag }) => {
            assert_eq!(parent, "VisualStudioProject");
            assert_eq!(tag, "Macros");
        }
        other => panic!("unexpected {other:?}"),
    }
    match Project::parse_xml(&project("<Files><File RelativePath=\"a\"><File RelativePath=\"b\"/></File></Files>")) {
        Err(XmlError::UnexpectedTag { parent, tag }) => {
            assert_eq!(parent, "File");
            assert_eq!(tag, "File");
        }
        other => panic!("unexpected {other:?}"),
    }
    assert!(matches!(Project::parse_xml("<Solution/>"), Err(XmlError::UnexpectedRoot)));
    assert!(matches!(Project::parse_xml("not xml"), Err(XmlError::Document(_))));
}

#[test]
fn raw_helpers() {
    assert_eq!(parse_bool("true").unwrap(), true);
    assert_eq!(parse_bool("FALSE").unwrap(), false);
    assert!(matches!(parse_bool(""), Err(XmlError::InvalidBool { .. })));
    assert_eq!(parse_list("..\\a;..\\b;"), vec!["..\\a", "..\\b"]);
    let f = Files::default();
    assert!(f.filters.is_empty() && f.files.is_empty());
}

#[test]
fn strict_error_messages() {
    let odd = COMPILER.replace("WarningLevel=\"4\"", "WarningLevel=\"4\" Unknown=\"1\"");
    let text = project(&format!("<Configurations>{}</Configurations>", configuration(&format!("{odd}{LIBRARIAN}"))));
    let e = Project::parse_xml(&text).unwrap_err();
    assert_eq!(e.strict_message(), "Unexpected VCCLCompilerTool attribute: 'Unknown'");
    let bad = COMPILER.replace("StringPooling=\"1\"", "StringPooling=\"on\"");
    let text = project(&format!("<Configurations>{}</Configurations>", configuration(&format!("{bad}{LIBRARIAN}"))));
    let e = Project::parse_xml(&text).unwrap_err();
    assert_eq!(e.strict_message(), "Unexpected boolean value: on");
    assert_eq!(parse_bool("yes").unwrap_err().strict_message(), "Unexpected boolean value: yes");
    let only_compiler = project(&format!("<Configurations>{}</Configurations>", configuration(COMPILER)));
    let e = Project::parse_xml(&only_compiler).unwrap_err();
    assert_eq!(e.strict_message(), "Configuration missing VCLibrarianTool");
    let no_keyword = ROOT.replace(" Keyword=\"Win32Proj\"", "");
    let e = Project::parse_xml(&format!("{no_keyword}</VisualStudioProject>")).unwrap_err();
    assert_eq!(e.strict_message(), "VisualStudioProject missing 'Keyword'");
    assert_eq!(
        Project::parse_xml(&project("<Macros/>")).unwrap_err().strict_message(),
        "Unexpected tag name: 'Macros'"
    );
}
