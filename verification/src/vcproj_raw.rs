//! The first reader of project files: every listed attribute is required, and
//! a configuration must have a compiler and a librarian tool.
use crate::text::{bool_value, spec_contains, spec_parse_bool, spec_split_nonempty, split_nonempty, str_contains, str_eq};
use crate::xml::{
    attr_bool, attr_i8, attr_list, attr_u8, convert_field, kept_attributes, last_value, lemma_fields_read,
    lemma_kept_all, lemma_kept_one, xml_document_nodes,    attributes_without, lemma_read_fields_without,
    attribute_first, bool_at, field_specs, field_values_view, first_value, is_child_element,
    lemma_fields_fit, list_at, read_fields, required_text_at, root_element, spec_parse_document,
    spec_read_fields, str_views, text_of, u8_at, value_fits, children_of, FieldDesc, FieldKind,
    FieldSpec, FieldValue, FieldValueModel, NodeView, XmlDocument, XmlError, XmlErrorModel,
};
use vstd::prelude::*;

verus! {

/// A project file: the attributes of its `VisualStudioProject` root, its platforms, configurations and files.
#[derive(Debug)]
pub struct Project {
    pub project_type: String,
    pub version: String,
    pub name: String,
    pub guid: String,
    pub root_namespace: String,
    pub keyword: String,
    pub target_framework_version: String,
    pub platforms: Vec<Platform>,
    pub configuraitons: Vec<Configuration>,
    pub files: Files,
}

impl Project {
    /// The attributes that the element takes, in the order they are read.
    pub open spec fn schema() -> Seq<FieldSpec> {
        seq![
            FieldSpec { name: "ProjectType"@, kind: FieldKind::Text, required: true },
            FieldSpec { name: "Version"@, kind: FieldKind::Text, required: true },
            FieldSpec { name: "Name"@, kind: FieldKind::Text, required: true },
            FieldSpec { name: "ProjectGUID"@, kind: FieldKind::Text, required: true },
            FieldSpec { name: "RootNamespace"@, kind: FieldKind::Text, required: true },
            FieldSpec { name: "Keyword"@, kind: FieldKind::Text, required: true },
            FieldSpec { name: "TargetFrameworkVersion"@, kind: FieldKind::Text, required: true },
        ]
    }

    /// The fields read from attributes, in the order of [`Self::schema`].
    pub open spec fn field_values(&self) -> Seq<FieldValueModel> {
        seq![
            FieldValueModel::Text(Some(self.project_type@)),
            FieldValueModel::Text(Some(self.version@)),
            FieldValueModel::Text(Some(self.name@)),
            FieldValueModel::Text(Some(self.guid@)),
            FieldValueModel::Text(Some(self.root_namespace@)),
            FieldValueModel::Text(Some(self.keyword@)),
            FieldValueModel::Text(Some(self.target_framework_version@)),
        ]
    }

    fn schema_descs() -> (r: [FieldDesc; 7])
        ensures
            field_specs(r@) == Self::schema(),
    {
        let r = [
            FieldDesc { name: "ProjectType", kind: FieldKind::Text, required: true },
            FieldDesc { name: "Version", kind: FieldKind::Text, required: true },
            FieldDesc { name: "Name", kind: FieldKind::Text, required: true },
            FieldDesc { name: "ProjectGUID", kind: FieldKind::Text, required: true },
            FieldDesc { name: "RootNamespace", kind: FieldKind::Text, required: true },
            FieldDesc { name: "Keyword", kind: FieldKind::Text, required: true },
            FieldDesc { name: "TargetFrameworkVersion", kind: FieldKind::Text, required: true },
        ];
        assert(field_specs(r@) =~= Self::schema());
        r
    }

    fn from_values(vals: &Vec<FieldValue>, platforms: Vec<Platform>, configuraitons: Vec<Configuration>, files: Files) -> (r: Self)
        requires
            vals@.len() == 7,
            forall|k: int|
                0 <= k < 7 ==> value_fits(
                    #[trigger] vals@[k]@,
                    Self::schema()[k].kind,
                    Self::schema()[k].required,
                ),
        ensures
            r.field_values() == field_values_view(vals@),
            r.platforms == platforms,
            r.configuraitons == configuraitons,
            r.files == files,
    {
        let r = Project {
            project_type: required_text_at(vals, 0),
            version: required_text_at(vals, 1),
            name: required_text_at(vals, 2),
            guid: required_text_at(vals, 3),
            root_namespace: required_text_at(vals, 4),
            keyword: required_text_at(vals, 5),
            target_framework_version: required_text_at(vals, 6),
            platforms,
            configuraitons,
            files,
        };
        assert(r.field_values() =~= field_values_view(vals@));
        r
    }
}

/// One build configuration and its compiler and librarian tools.
#[derive(Debug)]
pub struct Configuration {
    pub name: String,
    pub output_directory: String,
    pub intermediate_directory: String,
    pub configuraiton_type: u8,
    pub character_set: u8,
    pub whole_program_optimization: bool,
    pub compiler_tool: CompilerTool,
    pub linker_tool: LinkerTool,
}

impl Configuration {
    /// The attributes that the element takes, in the order they are read.
    pub open spec fn schema() -> Seq<FieldSpec> {
        seq![
            FieldSpec { name: "Name"@, kind: FieldKind::Text, required: true },
            FieldSpec { name: "OutputDirectory"@, kind: FieldKind::Text, required: true },
            FieldSpec { name: "IntermediateDirectory"@, kind: FieldKind::Text, required: true },
            FieldSpec { name: "ConfigurationType"@, kind: FieldKind::U8, required: true },
            FieldSpec { name: "CharacterSet"@, kind: FieldKind::U8, required: true },
            FieldSpec { name: "WholeProgramOptimization"@, kind: FieldKind::Bool, required: true },
        ]
    }

    /// The fields read from attributes, in the order of [`Self::schema`].
    pub open spec fn field_values(&self) -> Seq<FieldValueModel> {
        seq![
            FieldValueModel::Text(Some(self.name@)),
            FieldValueModel::Text(Some(self.output_directory@)),
            FieldValueModel::Text(Some(self.intermediate_directory@)),
            FieldValueModel::U8(Some(self.configuraiton_type)),
            FieldValueModel::U8(Some(self.character_set)),
            FieldValueModel::Bool(Some(self.whole_program_optimization)),
        ]
    }

    fn schema_descs() -> (r: [FieldDesc; 6])
        ensures
            field_specs(r@) == Self::schema(),
    {
        let r = [
            FieldDesc { name: "Name", kind: FieldKind::Text, required: true },
            FieldDesc { name: "OutputDirectory", kind: FieldKind::Text, required: true },
            FieldDesc { name: "IntermediateDirectory", kind: FieldKind::Text, required: true },
            FieldDesc { name: "ConfigurationType", kind: FieldKind::U8, required: true },
            FieldDesc { name: "CharacterSet", kind: FieldKind::U8, required: true },
            FieldDesc { name: "WholeProgramOptimization", kind: FieldKind::Bool, required: true },
        ];
        assert(field_specs(r@) =~= Self::schema());
        r
    }

    fn from_values(vals: &Vec<FieldValue>, compiler_tool: CompilerTool, linker_tool: LinkerTool) -> (r: Self)
        requires
            vals@.len() == 6,
            forall|k: int|
                0 <= k < 6 ==> value_fits(
                    #[trigger] vals@[k]@,
                    Self::schema()[k].kind,
                    Self::schema()[k].required,
                ),
        ensures
            r.field_values() == field_values_view(vals@),
            r.compiler_tool == compiler_tool,
            r.linker_tool == linker_tool,
    {
        let r = Configuration {
            name: required_text_at(vals, 0),
            output_directory: required_text_at(vals, 1),
            intermediate_directory: required_text_at(vals, 2),
            configuraiton_type: match u8_at(vals, 3) { Some(x) => x, None => 0 },
            character_set: match u8_at(vals, 4) { Some(x) => x, None => 0 },
            whole_program_optimization: match bool_at(vals, 5) { Some(x) => x, None => false },
            compiler_tool,
            linker_tool,
        };
        assert(r.field_values() =~= field_values_view(vals@));
        r
    }
}

/// A target platform.
#[derive(Debug)]
pub struct Platform {
    pub name: String,
}

impl Platform {
    /// The attributes that the element takes, in the order they are read.
    pub open spec fn schema() -> Seq<FieldSpec> {
        seq![
            FieldSpec { name: "Name"@, kind: FieldKind::Text, required: true },
        ]
    }

    /// The fields read from attributes, in the order of [`Self::schema`].
    pub open spec fn field_values(&self) -> Seq<FieldValueModel> {
        seq![
            FieldValueModel::Text(Some(self.name@)),
        ]
    }

    fn schema_descs() -> (r: [FieldDesc; 1])
        ensures
            field_specs(r@) == Self::schema(),
    {
        let r = [
            FieldDesc { name: "Name", kind: FieldKind::Text, required: true },
        ];
        assert(field_specs(r@) =~= Self::schema());
        r
    }

    fn from_values(vals: &Vec<FieldValue>) -> (r: Self)
        requires
            vals@.len() == 1,
            forall|k: int|
                0 <= k < 1 ==> value_fits(
                    #[trigger] vals@[k]@,
                    Self::schema()[k].kind,
                    Self::schema()[k].required,
                ),
        ensures
            r.field_values() == field_values_view(vals@),
    {
        let r = Platform {
            name: required_text_at(vals, 0),
        };
        assert(r.field_values() =~= field_values_view(vals@));
        r
    }
}

/// The settings of the `VCCLCompilerTool` of a configuration.
#[derive(Debug)]
pub struct CompilerTool {
    pub additional_options: String,
    pub optimization: u8,
    pub inline_function_expansion: u8,
    pub enable_intrinsic_functions: bool,
    pub omit_frame_pointers: bool,
    pub enable_fiber_safe_optimizations: bool,
    pub additional_include_directories: Vec<String>,
    pub preprocessor_definitions: Vec<String>,
    pub string_pooling: bool,
    pub minimal_rebuild: bool,
    pub exception_handling: u8,
    pub runtime_library: u8,
    pub buffer_security_check: bool,
    pub enable_enhanced_instruction_set: u8,
    pub floating_point_model: u8,
    pub use_precompiled_header: u8,
    pub precompiled_header_through: String,
    pub warning_level: u8,
    pub detect_64bit_portability_problems: bool,
    pub debug_information_format: u8,
}

impl CompilerTool {
    /// The attributes that the element takes, in the order they are read.
    pub open spec fn schema() -> Seq<FieldSpec> {
        seq![
            FieldSpec { name: "AdditionalOptions"@, kind: FieldKind::Text, required: true },
            FieldSpec { name: "Optimization"@, kind: FieldKind::U8, required: true },
            FieldSpec { name: "InlineFunctionExpansion"@, kind: FieldKind::U8, required: true },
            FieldSpec { name: "EnableIntrinsicFunctions"@, kind: FieldKind::Bool, required: true },
            FieldSpec { name: "OmitFramePointers"@, kind: FieldKind::Bool, required: true },
            FieldSpec { name: "EnableFiberSafeOptimizations"@, kind: FieldKind::Bool, required: true },
            FieldSpec { name: "AdditionalIncludeDirectories"@, kind: FieldKind::List, required: true },
            FieldSpec { name: "PreprocessorDefinitions"@, kind: FieldKind::List, required: true },
            FieldSpec { name: "StringPooling"@, kind: FieldKind::Bool, required: true },
            FieldSpec { name: "MinimalRebuild"@, kind: FieldKind::Bool, required: true },
            FieldSpec { name: "ExceptionHandling"@, kind: FieldKind::U8, required: true },
            FieldSpec { name: "RuntimeLibrary"@, kind: FieldKind::U8, required: true },
            FieldSpec { name: "BufferSecurityCheck"@, kind: FieldKind::Bool, required: true },
            FieldSpec { name: "EnableEnhancedInstructionSet"@, kind: FieldKind::U8, required: true },
            FieldSpec { name: "FloatingPointModel"@, kind: FieldKind::U8, required: true },
            FieldSpec { name: "UsePrecompiledHeader"@, kind: FieldKind::U8, required: true },
            FieldSpec { name: "PrecompiledHeaderThrough"@, kind: FieldKind::Text, required: true },
            FieldSpec { name: "WarningLevel"@, kind: FieldKind::U8, required: true },
            FieldSpec { name: "Detect64BitPortabilityProblems"@, kind: FieldKind::Bool, required: true },
            FieldSpec { name: "DebugInformationFormat"@, kind: FieldKind::U8, required: true },
        ]
    }

    /// The fields read from attributes, in the order of [`Self::schema`].
    pub open spec fn field_values(&self) -> Seq<FieldValueModel> {
        seq![
            FieldValueModel::Text(Some(self.additional_options@)),
            FieldValueModel::U8(Some(self.optimization)),
            FieldValueModel::U8(Some(self.inline_function_expansion)),
            FieldValueModel::Bool(Some(self.enable_intrinsic_functions)),
            FieldValueModel::Bool(Some(self.omit_frame_pointers)),
            FieldValueModel::Bool(Some(self.enable_fiber_safe_optimizations)),
            FieldValueModel::List(Some(self.additional_include_directories.deep_view())),
            FieldValueModel::List(Some(self.preprocessor_definitions.deep_view())),
            FieldValueModel::Bool(Some(self.string_pooling)),
            FieldValueModel::Bool(Some(self.minimal_rebuild)),
            FieldValueModel::U8(Some(self.exception_handling)),
            FieldValueModel::U8(Some(self.runtime_library)),
            FieldValueModel::Bool(Some(self.buffer_security_check)),
            FieldValueModel::U8(Some(self.enable_enhanced_instruction_set)),
            FieldValueModel::U8(Some(self.floating_point_model)),
            FieldValueModel::U8(Some(self.use_precompiled_header)),
            FieldValueModel::Text(Some(self.precompiled_header_through@)),
            FieldValueModel::U8(Some(self.warning_level)),
            FieldValueModel::Bool(Some(self.detect_64bit_portability_problems)),
            FieldValueModel::U8(Some(self.debug_information_format)),
        ]
    }

    fn schema_descs() -> (r: [FieldDesc; 20])
        ensures
            field_specs(r@) == Self::schema(),
    {
        let r = [
            FieldDesc { name: "AdditionalOptions", kind: FieldKind::Text, required: true },
            FieldDesc { name: "Optimization", kind: FieldKind::U8, required: true },
            FieldDesc { name: "InlineFunctionExpansion", kind: FieldKind::U8, required: true },
            FieldDesc { name: "EnableIntrinsicFunctions", kind: FieldKind::Bool, required: true },
            FieldDesc { name: "OmitFramePointers", kind: FieldKind::Bool, required: true },
            FieldDesc { name: "EnableFiberSafeOptimizations", kind: FieldKind::Bool, required: true },
            FieldDesc { name: "AdditionalIncludeDirectories", kind: FieldKind::List, required: true },
            FieldDesc { name: "PreprocessorDefinitions", kind: FieldKind::List, required: true },
            FieldDesc { name: "StringPooling", kind: FieldKind::Bool, required: true },
            FieldDesc { name: "MinimalRebuild", kind: FieldKind::Bool, required: true },
            FieldDesc { name: "ExceptionHandling", kind: FieldKind::U8, required: true },
            FieldDesc { name: "RuntimeLibrary", kind: FieldKind::U8, required: true },
            FieldDesc { name: "BufferSecurityCheck", kind: FieldKind::Bool, required: true },
            FieldDesc { name: "EnableEnhancedInstructionSet", kind: FieldKind::U8, required: true },
            FieldDesc { name: "FloatingPointModel", kind: FieldKind::U8, required: true },
            FieldDesc { name: "UsePrecompiledHeader", kind: FieldKind::U8, required: true },
            FieldDesc { name: "PrecompiledHeaderThrough", kind: FieldKind::Text, required: true },
            FieldDesc { name: "WarningLevel", kind: FieldKind::U8, required: true },
            FieldDesc { name: "Detect64BitPortabilityProblems", kind: FieldKind::Bool, required: true },
            FieldDesc { name: "DebugInformationFormat", kind: FieldKind::U8, required: true },
        ];
        assert(field_specs(r@) =~= Self::schema());
        r
    }

    fn from_values(vals: &Vec<FieldValue>) -> (r: Self)
        requires
            vals@.len() == 20,
            forall|k: int|
                0 <= k < 20 ==> value_fits(
                    #[trigger] vals@[k]@,
                    Self::schema()[k].kind,
                    Self::schema()[k].required,
                ),
        ensures
            r.field_values() == field_values_view(vals@),
    {
        let r = CompilerTool {
            additional_options: required_text_at(vals, 0),
            optimization: match u8_at(vals, 1) { Some(x) => x, None => 0 },
            inline_function_expansion: match u8_at(vals, 2) { Some(x) => x, None => 0 },
            enable_intrinsic_functions: match bool_at(vals, 3) { Some(x) => x, None => false },
            omit_frame_pointers: match bool_at(vals, 4) { Some(x) => x, None => false },
            enable_fiber_safe_optimizations: match bool_at(vals, 5) { Some(x) => x, None => false },
            additional_include_directories: match list_at(vals, 6) { Some(x) => x, None => Vec::new() },
            preprocessor_definitions: match list_at(vals, 7) { Some(x) => x, None => Vec::new() },
            string_pooling: match bool_at(vals, 8) { Some(x) => x, None => false },
            minimal_rebuild: match bool_at(vals, 9) { Some(x) => x, None => false },
            exception_handling: match u8_at(vals, 10) { Some(x) => x, None => 0 },
            runtime_library: match u8_at(vals, 11) { Some(x) => x, None => 0 },
            buffer_security_check: match bool_at(vals, 12) { Some(x) => x, None => false },
            enable_enhanced_instruction_set: match u8_at(vals, 13) { Some(x) => x, None => 0 },
            floating_point_model: match u8_at(vals, 14) { Some(x) => x, None => 0 },
            use_precompiled_header: match u8_at(vals, 15) { Some(x) => x, None => 0 },
            precompiled_header_through: required_text_at(vals, 16),
            warning_level: match u8_at(vals, 17) { Some(x) => x, None => 0 },
            detect_64bit_portability_problems: match bool_at(vals, 18) { Some(x) => x, None => false },
            debug_information_format: match u8_at(vals, 19) { Some(x) => x, None => 0 },
        };
        assert(r.field_values() =~= field_values_view(vals@));
        r
    }
}

/// The settings of the `VCLibrarianTool` of a configuration.
#[derive(Debug)]
pub struct LinkerTool {
    pub additional_options: String,
    pub output_file: String,
}

impl LinkerTool {
    /// The attributes that the element takes, in the order they are read.
    pub open spec fn schema() -> Seq<FieldSpec> {
        seq![
            FieldSpec { name: "AdditionalOptions"@, kind: FieldKind::Text, required: true },
            FieldSpec { name: "OutputFile"@, kind: FieldKind::Text, required: true },
        ]
    }

    /// The fields read from attributes, in the order of [`Self::schema`].
    pub open spec fn field_values(&self) -> Seq<FieldValueModel> {
        seq![
            FieldValueModel::Text(Some(self.additional_options@)),
            FieldValueModel::Text(Some(self.output_file@)),
        ]
    }

    fn schema_descs() -> (r: [FieldDesc; 2])
        ensures
            field_specs(r@) == Self::schema(),
    {
        let r = [
            FieldDesc { name: "AdditionalOptions", kind: FieldKind::Text, required: true },
            FieldDesc { name: "OutputFile", kind: FieldKind::Text, required: true },
        ];
        assert(field_specs(r@) =~= Self::schema());
        r
    }

    fn from_values(vals: &Vec<FieldValue>) -> (r: Self)
        requires
            vals@.len() == 2,
            forall|k: int|
                0 <= k < 2 ==> value_fits(
                    #[trigger] vals@[k]@,
                    Self::schema()[k].kind,
                    Self::schema()[k].required,
                ),
        ensures
            r.field_values() == field_values_view(vals@),
    {
        let r = LinkerTool {
            additional_options: required_text_at(vals, 0),
            output_file: required_text_at(vals, 1),
        };
        assert(r.field_values() =~= field_values_view(vals@));
        r
    }
}

/// A folder of the file tree, with its sub-folders and files.
#[derive(Debug)]
pub struct Filter {
    pub name: String,
    pub filters: Vec<Filter>,
    pub files: Vec<File>,
}

impl Filter {
    /// The attributes that the element takes, in the order they are read.
    pub open spec fn schema() -> Seq<FieldSpec> {
        seq![
            FieldSpec { name: "Name"@, kind: FieldKind::Text, required: true },
        ]
    }

    /// The fields read from attributes, in the order of [`Self::schema`].
    pub open spec fn field_values(&self) -> Seq<FieldValueModel> {
        seq![
            FieldValueModel::Text(Some(self.name@)),
        ]
    }

    fn schema_descs() -> (r: [FieldDesc; 1])
        ensures
            field_specs(r@) == Self::schema(),
    {
        let r = [
            FieldDesc { name: "Name", kind: FieldKind::Text, required: true },
        ];
        assert(field_specs(r@) =~= Self::schema());
        r
    }

    fn from_values(vals: &Vec<FieldValue>, filters: Vec<Filter>, files: Vec<File>) -> (r: Self)
        requires
            vals@.len() == 1,
            forall|k: int|
                0 <= k < 1 ==> value_fits(
                    #[trigger] vals@[k]@,
                    Self::schema()[k].kind,
                    Self::schema()[k].required,
                ),
        ensures
            r.field_values() == field_values_view(vals@),
            r.filters == filters,
            r.files == files,
    {
        let r = Filter {
            name: required_text_at(vals, 0),
            filters,
            files,
        };
        assert(r.field_values() =~= field_values_view(vals@));
        r
    }
}

/// A source file and its per-configuration settings.
#[derive(Debug)]
pub struct File {
    pub relative_path: String,
    pub file_configurations: Vec<FileConfiguration>,
}

impl File {
    /// The attributes that the element takes, in the order they are read.
    pub open spec fn schema() -> Seq<FieldSpec> {
        seq![
            FieldSpec { name: "RelativePath"@, kind: FieldKind::Text, required: true },
        ]
    }

    /// The fields read from attributes, in the order of [`Self::schema`].
    pub open spec fn field_values(&self) -> Seq<FieldValueModel> {
        seq![
            FieldValueModel::Text(Some(self.relative_path@)),
        ]
    }

    fn schema_descs() -> (r: [FieldDesc; 1])
        ensures
            field_specs(r@) == Self::schema(),
    {
        let r = [
            FieldDesc { name: "RelativePath", kind: FieldKind::Text, required: true },
        ];
        assert(field_specs(r@) =~= Self::schema());
        r
    }

    fn from_values(vals: &Vec<FieldValue>, file_configurations: Vec<FileConfiguration>) -> (r: Self)
        requires
            vals@.len() == 1,
            forall|k: int|
                0 <= k < 1 ==> value_fits(
                    #[trigger] vals@[k]@,
                    Self::schema()[k].kind,
                    Self::schema()[k].required,
                ),
        ensures
            r.field_values() == field_values_view(vals@),
            r.file_configurations == file_configurations,
    {
        let r = File {
            relative_path: required_text_at(vals, 0),
            file_configurations,
        };
        assert(r.field_values() =~= field_values_view(vals@));
        r
    }
}

/// The tool settings of a file configuration.
#[derive(Debug)]
pub struct Tool {
    pub use_precompiled_header: Option<u8>,
    pub name: String,
}

impl Tool {
    /// The attributes that the element takes, in the order they are read.
    pub open spec fn schema() -> Seq<FieldSpec> {
        seq![
            FieldSpec { name: "UsePrecompiledHeader"@, kind: FieldKind::U8, required: false },
            FieldSpec { name: "Name"@, kind: FieldKind::Text, required: true },
        ]
    }

    /// The fields read from attributes, in the order of [`Self::schema`].
    pub open spec fn field_values(&self) -> Seq<FieldValueModel> {
        seq![
            FieldValueModel::U8(self.use_precompiled_header),
            FieldValueModel::Text(Some(self.name@)),
        ]
    }

    fn schema_descs() -> (r: [FieldDesc; 2])
        ensures
            field_specs(r@) == Self::schema(),
    {
        let r = [
            FieldDesc { name: "UsePrecompiledHeader", kind: FieldKind::U8, required: false },
            FieldDesc { name: "Name", kind: FieldKind::Text, required: true },
        ];
        assert(field_specs(r@) =~= Self::schema());
        r
    }

    fn from_values(vals: &Vec<FieldValue>) -> (r: Self)
        requires
            vals@.len() == 2,
            forall|k: int|
                0 <= k < 2 ==> value_fits(
                    #[trigger] vals@[k]@,
                    Self::schema()[k].kind,
                    Self::schema()[k].required,
                ),
        ensures
            r.field_values() == field_values_view(vals@),
    {
        let r = Tool {
            use_precompiled_header: u8_at(vals, 0),
            name: required_text_at(vals, 1),
        };
        assert(r.field_values() =~= field_values_view(vals@));
        r
    }
}

/// The settings of a file in one configuration.
#[derive(Debug)]
pub struct FileConfiguration {
    pub name: String,
    pub excluded_from_build: bool,
    pub tool: Tool,
}

impl FileConfiguration {
    /// The attributes that the element takes, in the order they are read.
    pub open spec fn schema() -> Seq<FieldSpec> {
        seq![
            FieldSpec { name: "ExcludedFromBuild"@, kind: FieldKind::Bool, required: false },
            FieldSpec { name: "Name"@, kind: FieldKind::Text, required: true },
        ]
    }

    /// The fields read from attributes, in the order of [`Self::schema`].
    pub open spec fn field_values(&self) -> Seq<FieldValueModel> {
        seq![
            FieldValueModel::Bool(Some(self.excluded_from_build)),
            FieldValueModel::Text(Some(self.name@)),
        ]
    }

    pub open spec fn model(&self) -> FileConfigurationModel {
        FileConfigurationModel { fields: self.field_values(), tool: self.tool.field_values() }
    }

    /// Reads the `FileConfiguration` element `node`: its `Name`, whether it is
    /// `ExcludedFromBuild` (false where absent), and its first `Tool` child.
    pub fn parse_xml(doc: &XmlDocument, node: usize) -> (r: Result<Self, XmlError>)
        requires
            node < doc@.len(),
        ensures
            match r {
                Ok(x) => spec_file_configuration(doc@, node as int) == Ok::<
                    FileConfigurationModel,
                    XmlErrorModel,
                >(x.model()),
                Err(e) => spec_file_configuration(doc@, node as int) == Err::<
                    FileConfigurationModel,
                    XmlErrorModel,
                >(e@),
            },
    {
        let schema = [
            FieldDesc { name: "ExcludedFromBuild", kind: FieldKind::Bool, required: false },
            FieldDesc { name: "Name", kind: FieldKind::Text, required: true },
        ];
        let ignore: [&str; 0] = [];
        assert(field_specs(schema@) =~= Self::schema());
        assert(str_views(ignore@) =~= Seq::<Seq<char>>::empty());
        assert(doc@[node as int] == doc.nodes@[node as int]@);
        let vals = match read_fields(&doc.nodes[node], "FileConfiguration", &schema, &ignore) {
            Ok(v) => v,
            Err(e) => return Err(e),
        };
        proof {
            lemma_fields_fit(doc@[node as int].attributes, "FileConfiguration"@, Self::schema(), str_views(ignore@), vals@);
        }
        let name = required_text_at(&vals, 1);
        let excluded_from_build = match bool_at(&vals, 0) {
            Some(b) => b,
            None => false,
        };
        let tool_node = match first_child_named(doc, node, "Tool") {
            Some(j) => j,
            None => {
                return Err(XmlError::MissingChild {
                    parent: "FileConfiguration".to_owned(),
                    child: "Tool".to_owned(),
                })
            },
        };
        let tool = match Tool::parse_xml(doc, tool_node) {
            Ok(t) => t,
            Err(e) => return Err(e),
        };
        let r = FileConfiguration { name, excluded_from_build, tool };
        assert(r.field_values() =~= field_values_view(vals@).update(
            0,
            default_false(field_values_view(vals@)[0]),
        ));
        Ok(r)
    }
}

/// What a file configuration holds.
pub struct FileConfigurationModel {
    pub fields: Seq<FieldValueModel>,
    pub tool: Seq<FieldValueModel>,
}

/// What a file holds.
pub struct FileModel {
    pub fields: Seq<FieldValueModel>,
    pub file_configurations: Seq<FileConfigurationModel>,
}

/// What a folder of the file tree holds.
pub struct FilterModel {
    pub fields: Seq<FieldValueModel>,
    pub filters: Seq<FilterModel>,
    pub files: Seq<FileModel>,
}

/// What the file tree holds.
pub struct FilesModel {
    pub filters: Seq<FilterModel>,
    pub files: Seq<FileModel>,
}

/// What a configuration holds.
pub struct ConfigurationModel {
    pub fields: Seq<FieldValueModel>,
    pub compiler_tool: Seq<FieldValueModel>,
    pub linker_tool: Seq<FieldValueModel>,
}

/// What a project holds.
pub struct ProjectModel {
    pub fields: Seq<FieldValueModel>,
    pub platforms: Seq<Seq<FieldValueModel>>,
    pub configurations: Seq<ConfigurationModel>,
    pub files: FilesModel,
}

impl Platform {
    pub open spec fn model(&self) -> Seq<FieldValueModel> {
        self.field_values()
    }
}

impl File {
    pub open spec fn model(&self) -> FileModel {
        FileModel {
            fields: self.field_values(),
            file_configurations: self.file_configurations@.map_values(
                |c: FileConfiguration| c.model(),
            ),
        }
    }
}

impl Filter {
    pub open spec fn model(&self) -> FilterModel
        decreases self,
    {
        FilterModel {
            fields: self.field_values(),
            filters: Self::models(self.filters@),
            files: self.files@.map_values(|f: File| f.model()),
        }
    }

    pub open spec fn models(s: Seq<Filter>) -> Seq<FilterModel>
        decreases s,
    {
        if s.len() == 0 {
            Seq::empty()
        } else {
            Self::models(s.drop_last()).push(s.last().model())
        }
    }
}

proof fn lemma_filter_models_push(s: Seq<Filter>, f: Filter)
    ensures
        Filter::models(s.push(f)) == Filter::models(s).push(f.model()),
{
    assert(s.push(f).drop_last() =~= s);
}

/// The file tree of a project, with its top-level folders and files.
#[derive(Debug)]
pub struct Files {
    pub filters: Vec<Filter>,
    pub files: Vec<File>,
}

impl Files {
    pub open spec fn model(&self) -> FilesModel {
        FilesModel {
            filters: Filter::models(self.filters@),
            files: self.files@.map_values(|f: File| f.model()),
        }
    }

    /// The empty file tree.
    pub fn new() -> (r: Files)
        ensures
            r.model() == empty_files(),
    {
        let r = Files { filters: Vec::new(), files: Vec::new() };
        assert(r.model().files =~= Seq::<FileModel>::empty());
        r
    }
}

impl Default for Files {
    fn default() -> (r: Files)
        ensures
            r.model() == empty_files(),
    {
        Files::new()
    }
}

impl Configuration {
    pub open spec fn model(&self) -> ConfigurationModel {
        ConfigurationModel {
            fields: self.field_values(),
            compiler_tool: self.compiler_tool.field_values(),
            linker_tool: self.linker_tool.field_values(),
        }
    }
}

impl Project {
    pub open spec fn model(&self) -> ProjectModel {
        ProjectModel {
            fields: self.field_values(),
            platforms: self.platforms@.map_values(|p: Platform| p.model()),
            configurations: self.configuraitons@.map_values(|c: Configuration| c.model()),
            files: self.files.model(),
        }
    }
}

pub open spec fn empty_files() -> FilesModel {
    FilesModel { filters: Seq::empty(), files: Seq::empty() }
}

/// An absent optional boolean reads as false.
pub open spec fn default_false(v: FieldValueModel) -> FieldValueModel {
    match v {
        FieldValueModel::Bool(None) => FieldValueModel::Bool(Some(false)),
        _ => v,
    }
}

/// The first element child of `i` called `name` at index `from` or later.
pub open spec fn first_child_from(d: Seq<NodeView>, i: int, name: Seq<char>, from: int) -> Option<
    int,
>
    decreases d.len() - from,
{
    if from <= i || from >= d.len() {
        None
    } else if is_child_element(d, i, from) && d[from].name == name {
        Some(from)
    } else {
        first_child_from(d, i, name, from + 1)
    }
}

pub open spec fn spec_platform(d: Seq<NodeView>, i: int) -> Result<Seq<FieldValueModel>, XmlErrorModel> {
    spec_read_fields(d[i].attributes, "Platform"@, Platform::schema(), Seq::empty())
}

pub open spec fn spec_tool(d: Seq<NodeView>, i: int) -> Result<Seq<FieldValueModel>, XmlErrorModel> {
    spec_read_fields(d[i].attributes, "Tool"@, Tool::schema(), Seq::empty())
}

pub open spec fn spec_compiler_tool(d: Seq<NodeView>, i: int) -> Result<
    Seq<FieldValueModel>,
    XmlErrorModel,
> {
    spec_read_fields(d[i].attributes, "VCCLCompilerTool"@, CompilerTool::schema(), seq!["Name"@])
}

pub open spec fn spec_linker_tool(d: Seq<NodeView>, i: int) -> Result<Seq<FieldValueModel>, XmlErrorModel> {
    spec_read_fields(d[i].attributes, "VCLibrarianTool"@, LinkerTool::schema(), seq!["Name"@])
}

/// A file configuration: its attributes (an absent `ExcludedFromBuild` read as
/// false) and its first `Tool` child, which must be there.
pub open spec fn spec_file_configuration(d: Seq<NodeView>, i: int) -> Result<
    FileConfigurationModel,
    XmlErrorModel,
> {
    match spec_read_fields(d[i].attributes, "FileConfiguration"@, FileConfiguration::schema(), Seq::empty()) {
        Err(e) => Err(e),
        Ok(vals) => match first_child_from(d, i, "Tool"@, i + 1) {
            None => Err(XmlErrorModel::MissingChild { parent: "FileConfiguration"@, child: "Tool"@ }),
            Some(j) => match spec_tool(d, j) {
                Err(e) => Err(e),
                Ok(t) => Ok(
                    FileConfigurationModel { fields: vals.update(0, default_false(vals[0])), tool: t },
                ),
            },
        },
    }
}

/// The name of a file configuration.
pub open spec fn configuration_name(c: FileConfigurationModel) -> Seq<char> {
    match text_of(c.fields[1]) {
        Some(n) => n,
        None => Seq::empty(),
    }
}

/// Configurations for the PS3, Xbox and x64 platforms are dropped.
pub open spec fn is_foreign_platform(name: Seq<char>) -> bool {
    spec_contains(name, "PS3"@) || spec_contains(name, "Xbox"@) || spec_contains(name, "x64"@)
}

/// The file configurations among the element children of file `i` from index
/// `from` on, without those of foreign platforms; `Tool` children are skipped
/// and any other child is an error.
pub open spec fn file_scan(d: Seq<NodeView>, i: int, from: int) -> Result<
    Seq<FileConfigurationModel>,
    XmlErrorModel,
>
    decreases d.len() - from,
{
    if from <= i || from >= d.len() {
        Ok(Seq::empty())
    } else if !is_child_element(d, i, from) {
        file_scan(d, i, from + 1)
    } else if d[from].name == "FileConfiguration"@ {
        match spec_file_configuration(d, from) {
            Err(e) => Err(e),
            Ok(c) => match file_scan(d, i, from + 1) {
                Err(e) => Err(e),
                Ok(rest) => Ok(
                    if is_foreign_platform(configuration_name(c)) {
                        rest
                    } else {
                        seq![c] + rest
                    },
                ),
            },
        }
    } else if d[from].name == "Tool"@ {
        file_scan(d, i, from + 1)
    } else {
        Err(XmlErrorModel::UnexpectedTag { parent: "File"@, tag: d[from].name })
    }
}

pub open spec fn spec_file(d: Seq<NodeView>, i: int) -> Result<FileModel, XmlErrorModel> {
    match spec_read_fields(d[i].attributes, "File"@, File::schema(), Seq::empty()) {
        Err(e) => Err(e),
        Ok(vals) => match file_scan(d, i, i + 1) {
            Err(e) => Err(e),
            Ok(cs) => Ok(FileModel { fields: vals, file_configurations: cs }),
        },
    }
}

/// The folders and files among the element children of `i` from index `from`
/// on, in order; any other child is an error naming `parent`.
pub open spec fn tree_scan(d: Seq<NodeView>, i: int, from: int, parent: Seq<char>) -> Result<
    (Seq<FilterModel>, Seq<FileModel>),
    XmlErrorModel,
>
    decreases d.len() - i, d.len() - from,
{
    if i < 0 || from <= i || from >= d.len() {
        Ok((Seq::empty(), Seq::empty()))
    } else if !is_child_element(d, i, from) {
        tree_scan(d, i, from + 1, parent)
    } else if d[from].name == "Filter"@ {
        match spec_filter(d, from) {
            Err(e) => Err(e),
            Ok(f) => match tree_scan(d, i, from + 1, parent) {
                Err(e) => Err(e),
                Ok(rest) => Ok((seq![f] + rest.0, rest.1)),
            },
        }
    } else if d[from].name == "File"@ {
        match spec_file(d, from) {
            Err(e) => Err(e),
            Ok(f) => match tree_scan(d, i, from + 1, parent) {
                Err(e) => Err(e),
                Ok(rest) => Ok((rest.0, seq![f] + rest.1)),
            },
        }
    } else {
        Err(XmlErrorModel::UnexpectedTag { parent: parent, tag: d[from].name })
    }
}

/// A folder: its `Name` and the folders and files among its children.
pub open spec fn spec_filter(d: Seq<NodeView>, i: int) -> Result<FilterModel, XmlErrorModel>
    decreases d.len() - i, d.len() - i,
{
    if i < 0 || i >= d.len() {
        Err(XmlErrorModel::NoRootElement)
    } else {
        match spec_read_fields(d[i].attributes, "Filter"@, Filter::schema(), Seq::empty()) {
            Err(e) => Err(e),
            Ok(vals) => match tree_scan(d, i, i + 1, "Filter"@) {
                Err(e) => Err(e),
                Ok(t) => Ok(FilterModel { fields: vals, filters: t.0, files: t.1 }),
            },
        }
    }
}

pub open spec fn spec_files(d: Seq<NodeView>, i: int) -> Result<FilesModel, XmlErrorModel> {
    match tree_scan(d, i, i + 1, "Files"@) {
        Err(e) => Err(e),
        Ok(t) => Ok(FilesModel { filters: t.0, files: t.1 }),
    }
}

/// The compiler and librarian tools among the `Tool` children of `i` from index
/// `from` on, told apart by their `Name` attribute; a later one replaces an earlier one.
pub open spec fn tools_scan(d: Seq<NodeView>, i: int, from: int) -> Result<
    (Option<Seq<FieldValueModel>>, Option<Seq<FieldValueModel>>),
    XmlErrorModel,
>
    decreases d.len() - from,
{
    if from <= i || from >= d.len() {
        Ok((None, None))
    } else if !(is_child_element(d, i, from) && d[from].name == "Tool"@) {
        tools_scan(d, i, from + 1)
    } else if first_value(d[from].attributes, "Name"@) == Some("VCCLCompilerTool"@) {
        match spec_compiler_tool(d, from) {
            Err(e) => Err(e),
            Ok(c) => match tools_scan(d, i, from + 1) {
                Err(e) => Err(e),
                Ok(rest) => Ok((if rest.0 is Some { rest.0 } else { Some(c) }, rest.1)),
            },
        }
    } else if first_value(d[from].attributes, "Name"@) == Some("VCLibrarianTool"@) {
        match spec_linker_tool(d, from) {
            Err(e) => Err(e),
            Ok(l) => match tools_scan(d, i, from + 1) {
                Err(e) => Err(e),
                Ok(rest) => Ok((rest.0, if rest.1 is Some { rest.1 } else { Some(l) })),
            },
        }
    } else {
        tools_scan(d, i, from + 1)
    }
}

/// A configuration: its attributes and its compiler and librarian tools, both required.
pub open spec fn spec_configuration(d: Seq<NodeView>, i: int) -> Result<ConfigurationModel, XmlErrorModel> {
    match spec_read_fields(d[i].attributes, "Configuration"@, Configuration::schema(), Seq::empty()) {
        Err(e) => Err(e),
        Ok(vals) => match tools_scan(d, i, i + 1) {
            Err(e) => Err(e),
            Ok(t) => match t.0 {
                None => Err(
                    XmlErrorModel::MissingChild { parent: "Configuration"@, child: "VCCLCompilerTool"@ },
                ),
                Some(c) => match t.1 {
                    None => Err(
                        XmlErrorModel::MissingChild { parent: "Configuration"@, child: "VCLibrarianTool"@ },
                    ),
                    Some(l) => Ok(ConfigurationModel { fields: vals, compiler_tool: c, linker_tool: l }),
                },
            },
        },
    }
}

/// The platforms among the `Platform` children of `i` from index `from` on.
pub open spec fn platforms_scan(d: Seq<NodeView>, i: int, from: int) -> Result<
    Seq<Seq<FieldValueModel>>,
    XmlErrorModel,
>
    decreases d.len() - from,
{
    if from <= i || from >= d.len() {
        Ok(Seq::empty())
    } else if !(is_child_element(d, i, from) && d[from].name == "Platform"@) {
        platforms_scan(d, i, from + 1)
    } else {
        match spec_platform(d, from) {
            Err(e) => Err(e),
            Ok(p) => match platforms_scan(d, i, from + 1) {
                Err(e) => Err(e),
                Ok(rest) => Ok(seq![p] + rest),
            },
        }
    }
}

/// The configurations among the `Configuration` children of `i` from index `from` on.
pub open spec fn configurations_scan(d: Seq<NodeView>, i: int, from: int) -> Result<
    Seq<ConfigurationModel>,
    XmlErrorModel,
>
    decreases d.len() - from,
{
    if from <= i || from >= d.len() {
        Ok(Seq::empty())
    } else if !(is_child_element(d, i, from) && d[from].name == "Configuration"@) {
        configurations_scan(d, i, from + 1)
    } else {
        match spec_configuration(d, from) {
            Err(e) => Err(e),
            Ok(c) => match configurations_scan(d, i, from + 1) {
                Err(e) => Err(e),
                Ok(rest) => Ok(seq![c] + rest),
            },
        }
    }
}

/// An element that must have no element children.
pub open spec fn is_empty_section(name: Seq<char>) -> bool {
    name == "ToolFiles"@ || name == "References"@ || name == "Globals"@
}

/// The platforms, configurations and file tree among the children of the root
/// `r` from index `from` on; a later `Files` replaces an earlier one.
pub open spec fn project_scan(d: Seq<NodeView>, r: int, from: int) -> Result<
    (Seq<Seq<FieldValueModel>>, Seq<ConfigurationModel>, Option<FilesModel>),
    XmlErrorModel,
>
    decreases d.len() - from,
{
    if from <= r || from >= d.len() {
        Ok((Seq::empty(), Seq::empty(), None))
    } else if !is_child_element(d, r, from) {
        project_scan(d, r, from + 1)
    } else if d[from].name == "Platforms"@ {
        match platforms_scan(d, from, from + 1) {
            Err(e) => Err(e),
            Ok(ps) => match project_scan(d, r, from + 1) {
                Err(e) => Err(e),
                Ok(rest) => Ok((ps + rest.0, rest.1, rest.2)),
            },
        }
    } else if d[from].name == "Configurations"@ {
        match configurations_scan(d, from, from + 1) {
            Err(e) => Err(e),
            Ok(cs) => match project_scan(d, r, from + 1) {
                Err(e) => Err(e),
                Ok(rest) => Ok((rest.0, cs + rest.1, rest.2)),
            },
        }
    } else if d[from].name == "Files"@ {
        match spec_files(d, from) {
            Err(e) => Err(e),
            Ok(f) => match project_scan(d, r, from + 1) {
                Err(e) => Err(e),
                Ok(rest) => Ok((rest.0, rest.1, if rest.2 is Some { rest.2 } else { Some(f) })),
            },
        }
    } else if is_empty_section(d[from].name) {
        if children_of(d, from).len() > 0 {
            Err(XmlErrorModel::ExpectedEmpty { tag: d[from].name })
        } else {
            project_scan(d, r, from + 1)
        }
    } else if d[from].name.len() == 0 {
        project_scan(d, r, from + 1)
    } else {
        Err(XmlErrorModel::UnexpectedTag { parent: "VisualStudioProject"@, tag: d[from].name })
    }
}

/// A project file: the XML document, its `VisualStudioProject` root element,
/// the root's attributes, then its children.
pub open spec fn spec_project(input: Seq<char>) -> Result<ProjectModel, XmlErrorModel> {
    match spec_parse_document(input) {
        Err(e) => Err(e),
        Ok(d) => match root_element(d) {
            None => Err(XmlErrorModel::NoRootElement),
            Some(r) => if d[r].name != "VisualStudioProject"@ {
                Err(XmlErrorModel::UnexpectedRoot)
            } else {
                match spec_read_fields(
                    d[r].attributes,
                    "VisualStudioProject"@,
                    Project::schema(),
                    Seq::empty(),
                ) {
                    Err(e) => Err(e),
                    Ok(vals) => match project_scan(d, r, r + 1) {
                        Err(e) => Err(e),
                        Ok(t) => Ok(
                            ProjectModel {
                                fields: vals,
                                platforms: t.0,
                                configurations: t.1,
                                files: match t.2 {
                                    Some(f) => f,
                                    None => empty_files(),
                                },
                            },
                        ),
                    },
                }
            },
        },
    }
}

/// Node `j` is an element child of `i`.
pub fn is_child(doc: &XmlDocument, i: usize, j: usize) -> (r: bool)
    requires
        i < j < doc@.len(),
    ensures
        r == is_child_element(doc@, i as int, j as int),
{
    let n = &doc.nodes[j];
    assert(doc@[j as int] == n@);
    match n.parent {
        Some(p) => n.is_element && p == i,
        None => false,
    }
}

/// Node `j` is called `name`.
pub fn name_is(doc: &XmlDocument, j: usize, name: &str) -> (r: bool)
    requires
        j < doc@.len(),
    ensures
        r == (doc@[j as int].name == name@),
{
    assert(doc@[j as int] == doc.nodes@[j as int]@);
    str_eq(doc.nodes[j].name.as_str(), name)
}

/// The first element child of `i` called `name`.
pub fn first_child_named(doc: &XmlDocument, i: usize, name: &str) -> (r: Option<usize>)
    requires
        i < doc@.len(),
    ensures
        match r {
            Some(j) => i < j < doc@.len() && first_child_from(doc@, i as int, name@, i + 1) == Some(
                j as int,
            ),
            None => first_child_from(doc@, i as int, name@, i + 1) is None,
        },
{
    let n: usize = doc.nodes.len();
    assert(doc@.len() == n);
    let mut j: usize = i + 1;
    while j < n
        invariant
            n == doc@.len(),
            i < j,
            first_child_from(doc@, i as int, name@, i + 1) == first_child_from(
                doc@,
                i as int,
                name@,
                j as int,
            ),
        decreases n - j,
    {
        if is_child(doc, i, j) && name_is(doc, j, name) {
            return Some(j);
        }
        j = j + 1;
    }
    None
}

impl Tool {
    /// Reads the `Tool` element `node`: its `Name` and optional `UsePrecompiledHeader`.
    pub fn parse_xml(doc: &XmlDocument, node: usize) -> (r: Result<Self, XmlError>)
        requires
            node < doc@.len(),
        ensures
            match r {
                Ok(x) => spec_tool(doc@, node as int) == Ok::<Seq<FieldValueModel>, XmlErrorModel>(
                    x.field_values(),
                ),
                Err(e) => spec_tool(doc@, node as int) == Err::<Seq<FieldValueModel>, XmlErrorModel>(
                    e@,
                ),
            },
    {
        let schema = Self::schema_descs();
        let ignore: [&str; 0] = [];
        assert(str_views(ignore@) =~= Seq::<Seq<char>>::empty());
        assert(doc@[node as int] == doc.nodes@[node as int]@);
        match read_fields(&doc.nodes[node], "Tool", &schema, &ignore) {
            Ok(vals) => {
                proof {
                    lemma_fields_fit(doc@[node as int].attributes, "Tool"@, Self::schema(), str_views(ignore@), vals@);
                }
                Ok(Self::from_values(&vals))
            },
            Err(e) => Err(e),
        }
    }
}

impl Platform {
    /// Reads the `Platform` element `node`: its `Name`.
    pub fn parse_xml(doc: &XmlDocument, node: usize) -> (r: Result<Self, XmlError>)
        requires
            node < doc@.len(),
        ensures
            match r {
                Ok(x) => spec_platform(doc@, node as int) == Ok::<Seq<FieldValueModel>, XmlErrorModel>(
                    x.field_values(),
                ),
                Err(e) => spec_platform(doc@, node as int) == Err::<
                    Seq<FieldValueModel>,
                    XmlErrorModel,
                >(e@),
            },
    {
        let schema = Self::schema_descs();
        let ignore: [&str; 0] = [];
        assert(str_views(ignore@) =~= Seq::<Seq<char>>::empty());
        assert(doc@[node as int] == doc.nodes@[node as int]@);
        match read_fields(&doc.nodes[node], "Platform", &schema, &ignore) {
            Ok(vals) => {
                proof {
                    lemma_fields_fit(doc@[node as int].attributes, "Platform"@, Self::schema(), str_views(ignore@), vals@);
                }
                Ok(Self::from_values(&vals))
            },
            Err(e) => Err(e),
        }
    }
}

impl CompilerTool {
    /// Reads the `VCCLCompilerTool` element `node`: all twenty of its settings.
    pub fn parse_xml(doc: &XmlDocument, node: usize) -> (r: Result<Self, XmlError>)
        requires
            node < doc@.len(),
        ensures
            match r {
                Ok(x) => spec_compiler_tool(doc@, node as int) == Ok::<
                    Seq<FieldValueModel>,
                    XmlErrorModel,
                >(x.field_values()),
                Err(e) => spec_compiler_tool(doc@, node as int) == Err::<
                    Seq<FieldValueModel>,
                    XmlErrorModel,
                >(e@),
            },
    {
        let schema = Self::schema_descs();
        let ignore: [&str; 1] = ["Name"];
        assert(str_views(ignore@) =~= seq!["Name"@]);
        assert(doc@[node as int] == doc.nodes@[node as int]@);
        match read_fields(&doc.nodes[node], "VCCLCompilerTool", &schema, &ignore) {
            Ok(vals) => {
                proof {
                    lemma_fields_fit(doc@[node as int].attributes, "VCCLCompilerTool"@, Self::schema(), str_views(ignore@), vals@);
                }
                Ok(Self::from_values(&vals))
            },
            Err(e) => Err(e),
        }
    }
}

impl LinkerTool {
    /// Reads the `VCLibrarianTool` element `node`: its options and output file.
    pub fn parse_xml(doc: &XmlDocument, node: usize) -> (r: Result<Self, XmlError>)
        requires
            node < doc@.len(),
        ensures
            match r {
                Ok(x) => spec_linker_tool(doc@, node as int) == Ok::<
                    Seq<FieldValueModel>,
                    XmlErrorModel,
                >(x.field_values()),
                Err(e) => spec_linker_tool(doc@, node as int) == Err::<
                    Seq<FieldValueModel>,
                    XmlErrorModel,
                >(e@),
            },
    {
        let schema = Self::schema_descs();
        let ignore: [&str; 1] = ["Name"];
        assert(str_views(ignore@) =~= seq!["Name"@]);
        assert(doc@[node as int] == doc.nodes@[node as int]@);
        match read_fields(&doc.nodes[node], "VCLibrarianTool", &schema, &ignore) {
            Ok(vals) => {
                proof {
                    lemma_fields_fit(doc@[node as int].attributes, "VCLibrarianTool"@, Self::schema(), str_views(ignore@), vals@);
                }
                Ok(Self::from_values(&vals))
            },
            Err(e) => Err(e),
        }
    }
}

/// Reads one of the boolean spellings `1`, `TRUE`, `true`, `0`, `FALSE`, `false`.
pub fn parse_bool(s: &str) -> (r: Result<bool, XmlError>)
    ensures
        match spec_parse_bool(s@) {
            Some(b) => r matches Ok(x) && x == b,
            None => r matches Err(e) && e@ == XmlErrorModel::InvalidBool { value: s@ },
        },
{
    match bool_value(s) {
        Some(b) => Ok(b),
        None => Err(XmlError::InvalidBool { value: s.to_owned() }),
    }
}

/// The non-empty pieces of `s` between `;` separators.
pub fn parse_list(s: &str) -> (r: Vec<String>)
    ensures
        r.deep_view() == spec_split_nonempty(s@, ';'),
{
    split_nonempty(s, ';')
}


/// Prepends what was already read to the rest of a scan.
pub open spec fn prepend<T>(acc: Seq<T>, rest: Result<Seq<T>, XmlErrorModel>) -> Result<
    Seq<T>,
    XmlErrorModel,
> {
    match rest {
        Err(e) => Err(e),
        Ok(r) => Ok(acc + r),
    }
}

pub open spec fn file_configuration_models(s: Seq<FileConfiguration>) -> Seq<FileConfigurationModel> {
    s.map_values(|c: FileConfiguration| c.model())
}

pub open spec fn file_models(s: Seq<File>) -> Seq<FileModel> {
    s.map_values(|f: File| f.model())
}

/// Whether a file configuration called `name` is for the PS3, Xbox or x64 platform.
fn is_foreign(name: &String) -> (r: bool)
    ensures
        r == is_foreign_platform(name@),
{
    str_contains(name.as_str(), "PS3") || str_contains(name.as_str(), "Xbox") || str_contains(
        name.as_str(),
        "x64",
    )
}

impl File {
    /// Reads the `File` element `node`: its `RelativePath` and its file
    /// configurations, leaving out those of the PS3, Xbox and x64 platforms.
    pub fn parse_xml(doc: &XmlDocument, node: usize) -> (r: Result<Self, XmlError>)
        requires
            node < doc@.len(),
        ensures
            match r {
                Ok(x) => spec_file(doc@, node as int) == Ok::<FileModel, XmlErrorModel>(x.model()),
                Err(e) => spec_file(doc@, node as int) == Err::<FileModel, XmlErrorModel>(e@),
            },
    {
        let schema = Self::schema_descs();
        let ignore: [&str; 0] = [];
        assert(str_views(ignore@) =~= Seq::<Seq<char>>::empty());
        assert(doc@[node as int] == doc.nodes@[node as int]@);
        let vals = match read_fields(&doc.nodes[node], "File", &schema, &ignore) {
            Ok(v) => v,
            Err(e) => return Err(e),
        };
        proof {
            lemma_fields_fit(doc@[node as int].attributes, "File"@, Self::schema(), str_views(ignore@), vals@);
        }
        let n: usize = doc.nodes.len();
        assert(doc@.len() == n);
        let mut confs: Vec<FileConfiguration> = Vec::new();
        let mut j: usize = node + 1;
        assert(file_configuration_models(confs@) =~= Seq::<FileConfigurationModel>::empty());
        while j < n
            invariant
                n == doc@.len(),
                node < j,
                spec_read_fields(doc@[node as int].attributes, "File"@, File::schema(), Seq::empty())
                    == Ok::<Seq<FieldValueModel>, XmlErrorModel>(field_values_view(vals@)),
                file_scan(doc@, node as int, node + 1) == prepend(
                    file_configuration_models(confs@),
                    file_scan(doc@, node as int, j as int),
                ),
            decreases n - j,
        {
            if is_child(doc, node, j) {
                if name_is(doc, j, "FileConfiguration") {
                    match FileConfiguration::parse_xml(doc, j) {
                        Err(e) => return Err(e),
                        Ok(c) => {
                            if !is_foreign(&c.name) {
                                let ghost before = file_configuration_models(confs@);
                                confs.push(c);
                                assert(file_configuration_models(confs@) =~= before.push(c.model()));
                                assert(before + (seq![c.model()] + file_scan(doc@, node as int, j + 1)->Ok_0)
                                    =~= before.push(c.model()) + file_scan(doc@, node as int, j + 1)->Ok_0);
                            }
                        },
                    }
                } else if !name_is(doc, j, "Tool") {
                    assert(doc@[j as int] == doc.nodes@[j as int]@);
                    return Err(XmlError::UnexpectedTag {
                        parent: "File".to_owned(),
                        tag: doc.nodes[j].name.clone(),
                    });
                }
            }
            j = j + 1;
        }
        assert(file_configuration_models(confs@) + Seq::<FileConfigurationModel>::empty()
            =~= file_configuration_models(confs@));
        Ok(Self::from_values(&vals, confs))
    }
}

/// Prepends the folders and files already read to the rest of a scan.
pub open spec fn prepend_tree(
    acc: (Seq<FilterModel>, Seq<FileModel>),
    rest: Result<(Seq<FilterModel>, Seq<FileModel>), XmlErrorModel>,
) -> Result<(Seq<FilterModel>, Seq<FileModel>), XmlErrorModel> {
    match rest {
        Err(e) => Err(e),
        Ok(r) => Ok((acc.0 + r.0, acc.1 + r.1)),
    }
}

/// Reads the folders and files among the element children of `node`; any other
/// child is an error naming `parent`.
fn parse_tree(doc: &XmlDocument, node: usize, parent: &str) -> (r: Result<
    (Vec<Filter>, Vec<File>),
    XmlError,
>)
    requires
        node < doc@.len(),
    ensures
        match r {
            Ok(t) => tree_scan(doc@, node as int, node + 1, parent@) == Ok::<
                (Seq<FilterModel>, Seq<FileModel>),
                XmlErrorModel,
            >((Filter::models(t.0@), file_models(t.1@))),
            Err(e) => tree_scan(doc@, node as int, node + 1, parent@) == Err::<
                (Seq<FilterModel>, Seq<FileModel>),
                XmlErrorModel,
            >(e@),
        },
    decreases doc@.len() - node, 0int,
{
    let n: usize = doc.nodes.len();
    assert(doc@.len() == n);
    let mut filters: Vec<Filter> = Vec::new();
    let mut files: Vec<File> = Vec::new();
    let mut j: usize = node + 1;
    assert(file_models(files@) =~= Seq::<FileModel>::empty());
    assert(Filter::models(filters@) =~= Seq::<FilterModel>::empty());
    while j < n
        invariant
            n == doc@.len(),
            node < j,
            tree_scan(doc@, node as int, node + 1, parent@) == prepend_tree(
                (Filter::models(filters@), file_models(files@)),
                tree_scan(doc@, node as int, j as int, parent@),
            ),
        decreases n - j,
    {
        if is_child(doc, node, j) {
            if name_is(doc, j, "Filter") {
                match Filter::parse_xml(doc, j) {
                    Err(e) => return Err(e),
                    Ok(f) => {
                        let ghost before = Filter::models(filters@);
                        let ghost rest = tree_scan(doc@, node as int, j + 1, parent@);
                        proof {
                            lemma_filter_models_push(filters@, f);
                        }
                        filters.push(f);
                        assert(rest is Ok ==> before + (seq![f.model()] + rest->Ok_0.0) =~= Filter::models(filters@)
                            + rest->Ok_0.0);
                    },
                }
            } else if name_is(doc, j, "File") {
                match File::parse_xml(doc, j) {
                    Err(e) => return Err(e),
                    Ok(f) => {
                        let ghost before = file_models(files@);
                        let ghost rest = tree_scan(doc@, node as int, j + 1, parent@);
                        files.push(f);
                        assert(file_models(files@) =~= before.push(f.model()));
                        assert(rest is Ok ==> before + (seq![f.model()] + rest->Ok_0.1) =~= file_models(files@)
                            + rest->Ok_0.1);
                    },
                }
            } else {
                assert(doc@[j as int] == doc.nodes@[j as int]@);
                return Err(XmlError::UnexpectedTag {
                    parent: parent.to_owned(),
                    tag: doc.nodes[j].name.clone(),
                });
            }
        }
        j = j + 1;
    }
    assert(Filter::models(filters@) + Seq::<FilterModel>::empty() =~= Filter::models(filters@));
    assert(file_models(files@) + Seq::<FileModel>::empty() =~= file_models(files@));
    Ok((filters, files))
}

impl Filter {
    /// Reads the `Filter` element `node`: its `Name` and the folders and files
    /// among its children, in order.
    pub fn parse_xml(doc: &XmlDocument, node: usize) -> (r: Result<Self, XmlError>)
        requires
            node < doc@.len(),
        ensures
            match r {
                Ok(x) => spec_filter(doc@, node as int) == Ok::<FilterModel, XmlErrorModel>(x.model()),
                Err(e) => spec_filter(doc@, node as int) == Err::<FilterModel, XmlErrorModel>(e@),
            },
        decreases doc@.len() - node, 1int,
    {
        let schema = Self::schema_descs();
        let ignore: [&str; 0] = [];
        assert(str_views(ignore@) =~= Seq::<Seq<char>>::empty());
        assert(doc@[node as int] == doc.nodes@[node as int]@);
        let vals = match read_fields(&doc.nodes[node], "Filter", &schema, &ignore) {
            Ok(v) => v,
            Err(e) => return Err(e),
        };
        proof {
            lemma_fields_fit(doc@[node as int].attributes, "Filter"@, Self::schema(), str_views(ignore@), vals@);
        }
        match parse_tree(doc, node, "Filter") {
            Err(e) => Err(e),
            Ok((filters, files)) => Ok(Self::from_values(&vals, filters, files)),
        }
    }
}

impl Files {
    /// Reads the `Files` element `node`: the folders and files among its children, in order.
    pub fn parse_xml(doc: &XmlDocument, node: usize) -> (r: Result<Self, XmlError>)
        requires
            node < doc@.len(),
        ensures
            match r {
                Ok(x) => spec_files(doc@, node as int) == Ok::<FilesModel, XmlErrorModel>(x.model()),
                Err(e) => spec_files(doc@, node as int) == Err::<FilesModel, XmlErrorModel>(e@),
            },
    {
        match parse_tree(doc, node, "Files") {
            Err(e) => Err(e),
            Ok((filters, files)) => Ok(Files { filters, files }),
        }
    }
}

/// Keeps what was already read where the rest of a scan reads nothing new.
pub open spec fn prepend_tools(
    acc: (Option<Seq<FieldValueModel>>, Option<Seq<FieldValueModel>>),
    rest: Result<(Option<Seq<FieldValueModel>>, Option<Seq<FieldValueModel>>), XmlErrorModel>,
) -> Result<(Option<Seq<FieldValueModel>>, Option<Seq<FieldValueModel>>), XmlErrorModel> {
    match rest {
        Err(e) => Err(e),
        Ok(r) => Ok(
            (if r.0 is Some { r.0 } else { acc.0 }, if r.1 is Some { r.1 } else { acc.1 }),
        ),
    }
}

pub open spec fn compiler_model(c: Option<CompilerTool>) -> Option<Seq<FieldValueModel>> {
    match c {
        Some(x) => Some(x.field_values()),
        None => None,
    }
}

pub open spec fn linker_model(c: Option<LinkerTool>) -> Option<Seq<FieldValueModel>> {
    match c {
        Some(x) => Some(x.field_values()),
        None => None,
    }
}

impl Configuration {
    /// Reads the `Configuration` element `node`: its six attributes and its
    /// `VCCLCompilerTool` and `VCLibrarianTool` tools (the last of each), which must be there.
    pub fn parse_xml(doc: &XmlDocument, node: usize) -> (r: Result<Self, XmlError>)
        requires
            node < doc@.len(),
        ensures
            match r {
                Ok(x) => spec_configuration(doc@, node as int) == Ok::<ConfigurationModel, XmlErrorModel>(
                    x.model(),
                ),
                Err(e) => spec_configuration(doc@, node as int) == Err::<
                    ConfigurationModel,
                    XmlErrorModel,
                >(e@),
            },
    {
        let schema = Self::schema_descs();
        let ignore: [&str; 0] = [];
        assert(str_views(ignore@) =~= Seq::<Seq<char>>::empty());
        assert(doc@[node as int] == doc.nodes@[node as int]@);
        let vals = match read_fields(&doc.nodes[node], "Configuration", &schema, &ignore) {
            Ok(v) => v,
            Err(e) => return Err(e),
        };
        proof {
            lemma_fields_fit(doc@[node as int].attributes, "Configuration"@, Self::schema(), str_views(ignore@), vals@);
        }
        let n: usize = doc.nodes.len();
        assert(doc@.len() == n);
        let mut compiler: Option<CompilerTool> = None;
        let mut linker: Option<LinkerTool> = None;
        let mut j: usize = node + 1;
        while j < n
            invariant
                n == doc@.len(),
                node < j,
                spec_read_fields(
                    doc@[node as int].attributes,
                    "Configuration"@,
                    Configuration::schema(),
                    Seq::empty(),
                ) == Ok::<Seq<FieldValueModel>, XmlErrorModel>(field_values_view(vals@)),
                tools_scan(doc@, node as int, node + 1) == prepend_tools(
                    (compiler_model(compiler), linker_model(linker)),
                    tools_scan(doc@, node as int, j as int),
                ),
            decreases n - j,
        {
            if is_child(doc, node, j) && name_is(doc, j, "Tool") {
                assert(doc@[j as int] == doc.nodes@[j as int]@);
                match attribute_first(&doc.nodes[j].attributes, "Name") {
                    Some(tool_name) => {
                        if str_eq(tool_name.as_str(), "VCCLCompilerTool") {
                            match CompilerTool::parse_xml(doc, j) {
                                Err(e) => return Err(e),
                                Ok(c) => {
                                    compiler = Some(c);
                                },
                            }
                        } else if str_eq(tool_name.as_str(), "VCLibrarianTool") {
                            match LinkerTool::parse_xml(doc, j) {
                                Err(e) => return Err(e),
                                Ok(l) => {
                                    linker = Some(l);
                                },
                            }
                        }
                    },
                    None => {},
                }
            }
            j = j + 1;
        }
        let compiler_tool = match compiler {
            Some(c) => c,
            None => {
                return Err(XmlError::MissingChild {
                    parent: "Configuration".to_owned(),
                    child: "VCCLCompilerTool".to_owned(),
                })
            },
        };
        let linker_tool = match linker {
            Some(l) => l,
            None => {
                return Err(XmlError::MissingChild {
                    parent: "Configuration".to_owned(),
                    child: "VCLibrarianTool".to_owned(),
                })
            },
        };
        Ok(Self::from_values(&vals, compiler_tool, linker_tool))
    }
}

pub open spec fn platform_models(s: Seq<Platform>) -> Seq<Seq<FieldValueModel>> {
    s.map_values(|p: Platform| p.model())
}

pub open spec fn configuration_models(s: Seq<Configuration>) -> Seq<ConfigurationModel> {
    s.map_values(|c: Configuration| c.model())
}

/// Reads the `Platform` children of `node`, in order.
fn parse_platforms(doc: &XmlDocument, node: usize) -> (r: Result<Vec<Platform>, XmlError>)
    requires
        node < doc@.len(),
    ensures
        match r {
            Ok(v) => platforms_scan(doc@, node as int, node + 1) == Ok::<
                Seq<Seq<FieldValueModel>>,
                XmlErrorModel,
            >(platform_models(v@)),
            Err(e) => platforms_scan(doc@, node as int, node + 1) == Err::<
                Seq<Seq<FieldValueModel>>,
                XmlErrorModel,
            >(e@),
        },
{
    let n: usize = doc.nodes.len();
    assert(doc@.len() == n);
    let mut out: Vec<Platform> = Vec::new();
    let mut j: usize = node + 1;
    assert(platform_models(out@) =~= Seq::<Seq<FieldValueModel>>::empty());
    while j < n
        invariant
            n == doc@.len(),
            node < j,
            platforms_scan(doc@, node as int, node + 1) == prepend(
                platform_models(out@),
                platforms_scan(doc@, node as int, j as int),
            ),
        decreases n - j,
    {
        if is_child(doc, node, j) && name_is(doc, j, "Platform") {
            match Platform::parse_xml(doc, j) {
                Err(e) => return Err(e),
                Ok(p) => {
                    let ghost before = platform_models(out@);
                    let ghost rest = platforms_scan(doc@, node as int, j + 1);
                    out.push(p);
                    assert(platform_models(out@) =~= before.push(p.model()));
                    assert(rest is Ok ==> before + (seq![p.model()] + rest->Ok_0) =~= platform_models(out@)
                        + rest->Ok_0);
                },
            }
        }
        j = j + 1;
    }
    assert(platform_models(out@) + Seq::<Seq<FieldValueModel>>::empty() =~= platform_models(out@));
    Ok(out)
}

/// Reads the `Configuration` children of `node`, in order.
fn parse_configurations(doc: &XmlDocument, node: usize) -> (r: Result<Vec<Configuration>, XmlError>)
    requires
        node < doc@.len(),
    ensures
        match r {
            Ok(v) => configurations_scan(doc@, node as int, node + 1) == Ok::<
                Seq<ConfigurationModel>,
                XmlErrorModel,
            >(configuration_models(v@)),
            Err(e) => configurations_scan(doc@, node as int, node + 1) == Err::<
                Seq<ConfigurationModel>,
                XmlErrorModel,
            >(e@),
        },
{
    let n: usize = doc.nodes.len();
    assert(doc@.len() == n);
    let mut out: Vec<Configuration> = Vec::new();
    let mut j: usize = node + 1;
    assert(configuration_models(out@) =~= Seq::<ConfigurationModel>::empty());
    while j < n
        invariant
            n == doc@.len(),
            node < j,
            configurations_scan(doc@, node as int, node + 1) == prepend(
                configuration_models(out@),
                configurations_scan(doc@, node as int, j as int),
            ),
        decreases n - j,
    {
        if is_child(doc, node, j) && name_is(doc, j, "Configuration") {
            match Configuration::parse_xml(doc, j) {
                Err(e) => return Err(e),
                Ok(c) => {
                    let ghost before = configuration_models(out@);
                    let ghost rest = configurations_scan(doc@, node as int, j + 1);
                    out.push(c);
                    assert(configuration_models(out@) =~= before.push(c.model()));
                    assert(rest is Ok ==> before + (seq![c.model()] + rest->Ok_0) =~= configuration_models(
                        out@,
                    ) + rest->Ok_0);
                },
            }
        }
        j = j + 1;
    }
    assert(configuration_models(out@) + Seq::<ConfigurationModel>::empty() =~= configuration_models(out@));
    Ok(out)
}

pub open spec fn files_model(f: Option<Files>) -> Option<FilesModel> {
    match f {
        Some(x) => Some(x.model()),
        None => None,
    }
}

/// Prepends what was already read of the root's children to the rest of a scan.
pub open spec fn prepend_project(
    acc: (Seq<Seq<FieldValueModel>>, Seq<ConfigurationModel>, Option<FilesModel>),
    rest: Result<(Seq<Seq<FieldValueModel>>, Seq<ConfigurationModel>, Option<FilesModel>), XmlErrorModel>,
) -> Result<(Seq<Seq<FieldValueModel>>, Seq<ConfigurationModel>, Option<FilesModel>), XmlErrorModel> {
    match rest {
        Err(e) => Err(e),
        Ok(r) => Ok((acc.0 + r.0, acc.1 + r.1, if r.2 is Some { r.2 } else { acc.2 })),
    }
}

impl Project {
    /// Reads a project file: the XML text `input`, whose root element must be
    /// `VisualStudioProject` with its seven attributes, then the platforms,
    /// configurations and file tree among the root's children.
    #[verifier::rlimit(50)]
    pub fn parse_xml(input: &str) -> (r: Result<Self, XmlError>)
        ensures
            match r {
                Ok(x) => spec_project(input@) == Ok::<ProjectModel, XmlErrorModel>(x.model()),
                Err(e) => spec_project(input@) == Err::<ProjectModel, XmlErrorModel>(e@),
            },
    {
        let doc = match XmlDocument::parse(input) {
            Ok(d) => d,
            Err(e) => return Err(e),
        };
        let root = match doc.root_element() {
            Some(r) => r,
            None => return Err(XmlError::NoRootElement),
        };
        if !name_is(&doc, root, "VisualStudioProject") {
            return Err(XmlError::UnexpectedRoot);
        }
        let schema = Self::schema_descs();
        let ignore: [&str; 0] = [];
        assert(str_views(ignore@) =~= Seq::<Seq<char>>::empty());
        assert(doc@[root as int] == doc.nodes@[root as int]@);
        let vals = match read_fields(&doc.nodes[root], "VisualStudioProject", &schema, &ignore) {
            Ok(v) => v,
            Err(e) => return Err(e),
        };
        proof {
            lemma_fields_fit(
                doc@[root as int].attributes,
                "VisualStudioProject"@,
                Self::schema(),
                str_views(ignore@),
                vals@,
            );
        }
        let n: usize = doc.nodes.len();
        assert(doc@.len() == n);
        let mut platforms: Vec<Platform> = Vec::new();
        let mut configurations: Vec<Configuration> = Vec::new();
        let mut files: Option<Files> = None;
        let mut j: usize = root + 1;
        assert(platform_models(platforms@) =~= Seq::<Seq<FieldValueModel>>::empty());
        assert(configuration_models(configurations@) =~= Seq::<ConfigurationModel>::empty());
        while j < n
            invariant
                n == doc@.len(),
                root < j,
                spec_parse_document(input@) == Ok::<Seq<NodeView>, XmlErrorModel>(doc@),
                root_element(doc@) == Some(root as int),
                doc@[root as int].name == "VisualStudioProject"@,
                spec_read_fields(
                    doc@[root as int].attributes,
                    "VisualStudioProject"@,
                    Project::schema(),
                    Seq::empty(),
                ) == Ok::<Seq<FieldValueModel>, XmlErrorModel>(field_values_view(vals@)),
                project_scan(doc@, root as int, root + 1) == prepend_project(
                    (platform_models(platforms@), configuration_models(configurations@), files_model(files)),
                    project_scan(doc@, root as int, j as int),
                ),
            decreases n - j,
        {
            if is_child(&doc, root, j) {
                assert(doc@[j as int] == doc.nodes@[j as int]@);
                let ghost rest = project_scan(doc@, root as int, j + 1);
                if name_is(&doc, j, "Platforms") {
                    match parse_platforms(&doc, j) {
                        Err(e) => return Err(e),
                        Ok(mut ps) => {
                            let ghost before = platform_models(platforms@);
                            let ghost got = platform_models(ps@);
                            platforms.append(&mut ps);
                            assert(platform_models(platforms@) =~= before + got);
                            assert(rest is Ok ==> before + (got + rest->Ok_0.0) =~= platform_models(platforms@) + rest->Ok_0.0);
                        },
                    }
                } else if name_is(&doc, j, "Configurations") {
                    match parse_configurations(&doc, j) {
                        Err(e) => return Err(e),
                        Ok(mut cs) => {
                            let ghost before = configuration_models(configurations@);
                            let ghost got = configuration_models(cs@);
                            configurations.append(&mut cs);
                            assert(configuration_models(configurations@) =~= before + got);
                            assert(rest is Ok ==> before + (got + rest->Ok_0.1) =~= configuration_models(configurations@) + rest->Ok_0.1);
                        },
                    }
                } else if name_is(&doc, j, "Files") {
                    match Files::parse_xml(&doc, j) {
                        Err(e) => return Err(e),
                        Ok(f) => {
                            files = Some(f);
                        },
                    }
                } else if name_is(&doc, j, "ToolFiles") || name_is(&doc, j, "References") || name_is(
                    &doc,
                    j,
                    "Globals",
                ) {
                    if doc.has_element_child(j) {
                        return Err(XmlError::ExpectedEmpty { tag: doc.nodes[j].name.clone() });
                    }
                } else if doc.nodes[j].name.as_str().unicode_len() != 0 {
                    return Err(XmlError::UnexpectedTag {
                        parent: "VisualStudioProject".to_owned(),
                        tag: doc.nodes[j].name.clone(),
                    });
                }
            }
            j = j + 1;
        }
        let files = match files {
            Some(f) => f,
            None => Files::new(),
        };
        assert(platform_models(platforms@) + Seq::<Seq<FieldValueModel>>::empty() =~= platform_models(platforms@));
        assert(configuration_models(configurations@) + Seq::<ConfigurationModel>::empty() =~= configuration_models(configurations@));
        Ok(Self::from_values(&vals, platforms, configurations, files))
    }
}

proof fn lemma_file_scan_native(d: Seq<NodeView>, i: int, from: int)
    ensures
        file_scan(d, i, from) matches Ok(cs) ==> forall|k: int|
            0 <= k < cs.len() ==> !is_foreign_platform(configuration_name(#[trigger] cs[k])),
    decreases d.len() - from,
{
    if from <= i || from >= d.len() {
    } else if !is_child_element(d, i, from) {
        lemma_file_scan_native(d, i, from + 1);
    } else if d[from].name == "FileConfiguration"@ {
        lemma_file_scan_native(d, i, from + 1);
        if let Ok(c) = spec_file_configuration(d, from) {
            if let Ok(rest) = file_scan(d, i, from + 1) {
                if !is_foreign_platform(configuration_name(c)) {
                    let cs = seq![c] + rest;
                    assert forall|k: int| 0 <= k < cs.len() implies !is_foreign_platform(
                        configuration_name(#[trigger] cs[k]),
                    ) by {
                        if k > 0 {
                            assert(cs[k] == rest[k - 1]);
                        }
                    }
                }
            }
        }
    } else if d[from].name == "Tool"@ {
        lemma_file_scan_native(d, i, from + 1);
    }
}

/// A file read from a project keeps none of the file configurations of the
/// PS3, Xbox and x64 platforms.
pub proof fn law_file_drops_foreign(d: Seq<NodeView>, i: int)
    ensures
        spec_file(d, i) matches Ok(m) ==> forall|k: int|
            0 <= k < m.file_configurations.len() ==> !is_foreign_platform(
                configuration_name(#[trigger] m.file_configurations[k]),
            ),
{
    lemma_file_scan_native(d, i, i + 1);
}

/// The compiler settings of a configuration never depend on the element's `Name` attribute: two elements whose
/// other attributes are the same read the same.
pub proof fn law_compiler_tool_ignores_name(d1: Seq<NodeView>, i1: int, d2: Seq<NodeView>, i2: int)
    requires
        attributes_without(d1[i1].attributes, "Name"@) == attributes_without(d2[i2].attributes, "Name"@),
    ensures
        spec_compiler_tool(d1, i1) == spec_compiler_tool(d2, i2),
{
    assert(seq!["Name"@][0] == "Name"@);
    lemma_read_fields_without(d1[i1].attributes, "VCCLCompilerTool"@, CompilerTool::schema(), seq!["Name"@], "Name"@);
    lemma_read_fields_without(d2[i2].attributes, "VCCLCompilerTool"@, CompilerTool::schema(), seq!["Name"@], "Name"@);
}

/// The librarian settings of a configuration never depend on the element's `Name` attribute: two elements whose
/// other attributes are the same read the same.
pub proof fn law_librarian_tool_ignores_name(d1: Seq<NodeView>, i1: int, d2: Seq<NodeView>, i2: int)
    requires
        attributes_without(d1[i1].attributes, "Name"@) == attributes_without(d2[i2].attributes, "Name"@),
    ensures
        spec_linker_tool(d1, i1) == spec_linker_tool(d2, i2),
{
    assert(seq!["Name"@][0] == "Name"@);
    lemma_read_fields_without(d1[i1].attributes, "VCLibrarianTool"@, LinkerTool::schema(), seq!["Name"@], "Name"@);
    lemma_read_fields_without(d2[i2].attributes, "VCLibrarianTool"@, LinkerTool::schema(), seq!["Name"@], "Name"@);
}

/// The attributes of a project: each field is read from the attribute that bears its name, the
/// last one of that name; an absent attribute leaves an optional field out.
pub proof fn law_project_reads_named_attributes(input: Seq<char>, d: Seq<NodeView>, r: int, x: Project)
    requires
        xml_document_nodes(input) == Ok::<Seq<NodeView>, Seq<char>>(d),
        root_element(d) == Some(r),
        spec_project(input) == Ok::<ProjectModel, XmlErrorModel>(x.model()),
    ensures
        last_value(d[r].attributes, "ProjectType"@) == Some(x.project_type@),
        last_value(d[r].attributes, "Version"@) == Some(x.version@),
        last_value(d[r].attributes, "Name"@) == Some(x.name@),
        last_value(d[r].attributes, "ProjectGUID"@) == Some(x.guid@),
        last_value(d[r].attributes, "RootNamespace"@) == Some(x.root_namespace@),
        last_value(d[r].attributes, "Keyword"@) == Some(x.keyword@),
        last_value(d[r].attributes, "TargetFrameworkVersion"@) == Some(x.target_framework_version@),
{
    let vals = x.field_values();
    lemma_fields_read(d[r].attributes, "VisualStudioProject"@, Project::schema(), Seq::<Seq<char>>::empty(), vals);
    let k = kept_attributes(d[r].attributes, Seq::<Seq<char>>::empty());
    lemma_kept_all(d[r].attributes);
    assert(convert_field(k, Project::schema()[0]) == Ok::<FieldValueModel, XmlErrorModel>(vals[0]));
    assert(convert_field(k, Project::schema()[1]) == Ok::<FieldValueModel, XmlErrorModel>(vals[1]));
    assert(convert_field(k, Project::schema()[2]) == Ok::<FieldValueModel, XmlErrorModel>(vals[2]));
    assert(convert_field(k, Project::schema()[3]) == Ok::<FieldValueModel, XmlErrorModel>(vals[3]));
    assert(convert_field(k, Project::schema()[4]) == Ok::<FieldValueModel, XmlErrorModel>(vals[4]));
    assert(convert_field(k, Project::schema()[5]) == Ok::<FieldValueModel, XmlErrorModel>(vals[5]));
    assert(convert_field(k, Project::schema()[6]) == Ok::<FieldValueModel, XmlErrorModel>(vals[6]));
}

/// The child named `VCCLCompilerTool` among the `Tool` children of `i` from `from` on
/// from which the scan of those children read its compiler tool.
proof fn lemma_compiler_read_from_child(d: Seq<NodeView>, i: int, from: int) -> (j: int)
    requires
        tools_scan(d, i, from) matches Ok(t) && t.0 is Some,
    ensures
        from <= j,
        is_child_element(d, i, j),
        d[j].name == "Tool"@,
        first_value(d[j].attributes, "Name"@) == Some("VCCLCompilerTool"@),
        spec_compiler_tool(d, j) == Ok::<Seq<FieldValueModel>, XmlErrorModel>(tools_scan(d, i, from)->Ok_0.0->Some_0),
    decreases d.len() - from,
{
    if !(from > i && from < d.len()) {
        assert(tools_scan(d, i, from) is Ok && tools_scan(d, i, from)->Ok_0.0 is None);
        from
    } else if is_child_element(d, i, from) && d[from].name == "Tool"@ {
            if first_value(d[from].attributes, "Name"@) == Some("VCCLCompilerTool"@) {
                let c = spec_compiler_tool(d, from)->Ok_0;
                let rest = tools_scan(d, i, from + 1)->Ok_0;
                assert(spec_compiler_tool(d, from) is Ok && tools_scan(d, i, from + 1) is Ok) by {
                    if !(spec_compiler_tool(d, from) is Ok) || !(tools_scan(d, i, from + 1) is Ok) {
                        assert(tools_scan(d, i, from) is Err);
                    }
                }
                assert(tools_scan(d, i, from) == Ok::<(Option<Seq<FieldValueModel>>, Option<Seq<FieldValueModel>>), XmlErrorModel>(((if rest.0 is Some { rest.0 } else { Some(c) }), rest.1)));
                if rest.0 is Some {
                    lemma_compiler_read_from_child(d, i, from + 1)
                } else {
                    from
                }
            } else if first_value(d[from].attributes, "Name"@) == Some("VCLibrarianTool"@) {
                let c = spec_linker_tool(d, from)->Ok_0;
                let rest = tools_scan(d, i, from + 1)->Ok_0;
                assert(spec_linker_tool(d, from) is Ok && tools_scan(d, i, from + 1) is Ok) by {
                    if !(spec_linker_tool(d, from) is Ok) || !(tools_scan(d, i, from + 1) is Ok) {
                        assert(tools_scan(d, i, from) is Err);
                    }
                }
                assert(tools_scan(d, i, from) == Ok::<(Option<Seq<FieldValueModel>>, Option<Seq<FieldValueModel>>), XmlErrorModel>((rest.0, (if rest.1 is Some { rest.1 } else { Some(c) }))));
                lemma_compiler_read_from_child(d, i, from + 1)
        } else {
            assert(tools_scan(d, i, from) == tools_scan(d, i, from + 1));
            lemma_compiler_read_from_child(d, i, from + 1)
        }
    } else {
        assert(tools_scan(d, i, from) == tools_scan(d, i, from + 1));
        lemma_compiler_read_from_child(d, i, from + 1)
    }
}

/// The child named `VCLibrarianTool` among the `Tool` children of `i` from `from` on
/// from which the scan of those children read its librarian tool.
proof fn lemma_librarian_read_from_child(d: Seq<NodeView>, i: int, from: int) -> (j: int)
    requires
        tools_scan(d, i, from) matches Ok(t) && t.1 is Some,
    ensures
        from <= j,
        is_child_element(d, i, j),
        d[j].name == "Tool"@,
        first_value(d[j].attributes, "Name"@) == Some("VCLibrarianTool"@),
        spec_linker_tool(d, j) == Ok::<Seq<FieldValueModel>, XmlErrorModel>(tools_scan(d, i, from)->Ok_0.1->Some_0),
    decreases d.len() - from,
{
    if !(from > i && from < d.len()) {
        assert(tools_scan(d, i, from) is Ok && tools_scan(d, i, from)->Ok_0.1 is None);
        from
    } else if is_child_element(d, i, from) && d[from].name == "Tool"@ {
            if first_value(d[from].attributes, "Name"@) == Some("VCCLCompilerTool"@) {
                let c = spec_compiler_tool(d, from)->Ok_0;
                let rest = tools_scan(d, i, from + 1)->Ok_0;
                assert(spec_compiler_tool(d, from) is Ok && tools_scan(d, i, from + 1) is Ok) by {
                    if !(spec_compiler_tool(d, from) is Ok) || !(tools_scan(d, i, from + 1) is Ok) {
                        assert(tools_scan(d, i, from) is Err);
                    }
                }
                assert(tools_scan(d, i, from) == Ok::<(Option<Seq<FieldValueModel>>, Option<Seq<FieldValueModel>>), XmlErrorModel>(((if rest.0 is Some { rest.0 } else { Some(c) }), rest.1)));
                lemma_librarian_read_from_child(d, i, from + 1)
            } else if first_value(d[from].attributes, "Name"@) == Some("VCLibrarianTool"@) {
                let c = spec_linker_tool(d, from)->Ok_0;
                let rest = tools_scan(d, i, from + 1)->Ok_0;
                assert(spec_linker_tool(d, from) is Ok && tools_scan(d, i, from + 1) is Ok) by {
                    if !(spec_linker_tool(d, from) is Ok) || !(tools_scan(d, i, from + 1) is Ok) {
                        assert(tools_scan(d, i, from) is Err);
                    }
                }
                assert(tools_scan(d, i, from) == Ok::<(Option<Seq<FieldValueModel>>, Option<Seq<FieldValueModel>>), XmlErrorModel>((rest.0, (if rest.1 is Some { rest.1 } else { Some(c) }))));
                if rest.1 is Some {
                    lemma_librarian_read_from_child(d, i, from + 1)
                } else {
                    from
                }
        } else {
            assert(tools_scan(d, i, from) == tools_scan(d, i, from + 1));
            lemma_librarian_read_from_child(d, i, from + 1)
        }
    } else {
        assert(tools_scan(d, i, from) == tools_scan(d, i, from + 1));
        lemma_librarian_read_from_child(d, i, from + 1)
    }
}

/// A configuration: each field is read from the attribute that bears its name, the
/// last one of that name; an absent attribute leaves an optional field out.
pub proof fn law_configuration_reads_named_attributes(d: Seq<NodeView>, i: int, x: Configuration)
    requires
        spec_configuration(d, i) == Ok::<ConfigurationModel, XmlErrorModel>(x.model()),
    ensures
        last_value(d[i].attributes, "Name"@) == Some(x.name@),
        last_value(d[i].attributes, "OutputDirectory"@) == Some(x.output_directory@),
        last_value(d[i].attributes, "IntermediateDirectory"@) == Some(x.intermediate_directory@),
        attr_u8(d[i].attributes, "ConfigurationType"@) == Some(x.configuraiton_type),
        attr_u8(d[i].attributes, "CharacterSet"@) == Some(x.character_set),
        attr_bool(d[i].attributes, "WholeProgramOptimization"@) == Some(x.whole_program_optimization),
        exists|j: int|
            #![trigger spec_compiler_tool(d, j)]
            is_child_element(d, i, j) && d[j].name == "Tool"@ && first_value(d[j].attributes, "Name"@)
                == Some("VCCLCompilerTool"@) && spec_compiler_tool(d, j) == Ok::<Seq<FieldValueModel>, XmlErrorModel>(x.compiler_tool.field_values()),
        exists|j: int|
            #![trigger spec_linker_tool(d, j)]
            is_child_element(d, i, j) && d[j].name == "Tool"@ && first_value(d[j].attributes, "Name"@)
                == Some("VCLibrarianTool"@) && spec_linker_tool(d, j) == Ok::<Seq<FieldValueModel>, XmlErrorModel>(x.linker_tool.field_values()),
{
    let j0 = lemma_compiler_read_from_child(d, i, i + 1);
    assert(spec_compiler_tool(d, j0) == Ok::<Seq<FieldValueModel>, XmlErrorModel>(tools_scan(d, i, i + 1)->Ok_0.0->Some_0));
    let j1 = lemma_librarian_read_from_child(d, i, i + 1);
    assert(spec_linker_tool(d, j1) == Ok::<Seq<FieldValueModel>, XmlErrorModel>(tools_scan(d, i, i + 1)->Ok_0.1->Some_0));
    let vals = x.field_values();
    lemma_fields_read(d[i].attributes, "Configuration"@, Configuration::schema(), Seq::<Seq<char>>::empty(), vals);
    let k = kept_attributes(d[i].attributes, Seq::<Seq<char>>::empty());
    lemma_kept_all(d[i].attributes);
    assert(convert_field(k, Configuration::schema()[0]) == Ok::<FieldValueModel, XmlErrorModel>(vals[0]));
    assert(convert_field(k, Configuration::schema()[1]) == Ok::<FieldValueModel, XmlErrorModel>(vals[1]));
    assert(convert_field(k, Configuration::schema()[2]) == Ok::<FieldValueModel, XmlErrorModel>(vals[2]));
    assert(convert_field(k, Configuration::schema()[3]) == Ok::<FieldValueModel, XmlErrorModel>(vals[3]));
    assert(convert_field(k, Configuration::schema()[4]) == Ok::<FieldValueModel, XmlErrorModel>(vals[4]));
    assert(convert_field(k, Configuration::schema()[5]) == Ok::<FieldValueModel, XmlErrorModel>(vals[5]));
}

/// A platform: each field is read from the attribute that bears its name, the
/// last one of that name; an absent attribute leaves an optional field out.
pub proof fn law_platform_reads_named_attributes(d: Seq<NodeView>, i: int, x: Platform)
    requires
        spec_platform(d, i) == Ok::<Seq<FieldValueModel>, XmlErrorModel>(x.field_values()),
    ensures
        last_value(d[i].attributes, "Name"@) == Some(x.name@),
{
    let vals = x.field_values();
    lemma_fields_read(d[i].attributes, "Platform"@, Platform::schema(), Seq::<Seq<char>>::empty(), vals);
    let k = kept_attributes(d[i].attributes, Seq::<Seq<char>>::empty());
    lemma_kept_all(d[i].attributes);
    assert(convert_field(k, Platform::schema()[0]) == Ok::<FieldValueModel, XmlErrorModel>(vals[0]));
}

/// The compiler settings of a configuration: each field is read from the attribute that bears its name, the
/// last one of that name, other than `Name` attributes; an absent attribute leaves an optional field out.
pub proof fn law_compiler_tool_reads_named_attributes(d: Seq<NodeView>, i: int, x: CompilerTool)
    requires
        spec_compiler_tool(d, i) == Ok::<Seq<FieldValueModel>, XmlErrorModel>(x.field_values()),
    ensures
        last_value(attributes_without(d[i].attributes, "Name"@), "AdditionalOptions"@) == Some(x.additional_options@),
        attr_u8(attributes_without(d[i].attributes, "Name"@), "Optimization"@) == Some(x.optimization),
        attr_u8(attributes_without(d[i].attributes, "Name"@), "InlineFunctionExpansion"@) == Some(x.inline_function_expansion),
        attr_bool(attributes_without(d[i].attributes, "Name"@), "EnableIntrinsicFunctions"@) == Some(x.enable_intrinsic_functions),
        attr_bool(attributes_without(d[i].attributes, "Name"@), "OmitFramePointers"@) == Some(x.omit_frame_pointers),
        attr_bool(attributes_without(d[i].attributes, "Name"@), "EnableFiberSafeOptimizations"@) == Some(x.enable_fiber_safe_optimizations),
        attr_list(attributes_without(d[i].attributes, "Name"@), "AdditionalIncludeDirectories"@) == Some(x.additional_include_directories.deep_view()),
        attr_list(attributes_without(d[i].attributes, "Name"@), "PreprocessorDefinitions"@) == Some(x.preprocessor_definitions.deep_view()),
        attr_bool(attributes_without(d[i].attributes, "Name"@), "StringPooling"@) == Some(x.string_pooling),
        attr_bool(attributes_without(d[i].attributes, "Name"@), "MinimalRebuild"@) == Some(x.minimal_rebuild),
        attr_u8(attributes_without(d[i].attributes, "Name"@), "ExceptionHandling"@) == Some(x.exception_handling),
        attr_u8(attributes_without(d[i].attributes, "Name"@), "RuntimeLibrary"@) == Some(x.runtime_library),
        attr_bool(attributes_without(d[i].attributes, "Name"@), "BufferSecurityCheck"@) == Some(x.buffer_security_check),
        attr_u8(attributes_without(d[i].attributes, "Name"@), "EnableEnhancedInstructionSet"@) == Some(x.enable_enhanced_instruction_set),
        attr_u8(attributes_without(d[i].attributes, "Name"@), "FloatingPointModel"@) == Some(x.floating_point_model),
        attr_u8(attributes_without(d[i].attributes, "Name"@), "UsePrecompiledHeader"@) == Some(x.use_precompiled_header),
        last_value(attributes_without(d[i].attributes, "Name"@), "PrecompiledHeaderThrough"@) == Some(x.precompiled_header_through@),
        attr_u8(attributes_without(d[i].attributes, "Name"@), "WarningLevel"@) == Some(x.warning_level),
        attr_bool(attributes_without(d[i].attributes, "Name"@), "Detect64BitPortabilityProblems"@) == Some(x.detect_64bit_portability_problems),
        attr_u8(attributes_without(d[i].attributes, "Name"@), "DebugInformationFormat"@) == Some(x.debug_information_format),
{
    let vals = x.field_values();
    lemma_fields_read(d[i].attributes, "VCCLCompilerTool"@, CompilerTool::schema(), seq!["Name"@], vals);
    let k = kept_attributes(d[i].attributes, seq!["Name"@]);
    lemma_kept_one(d[i].attributes, "Name"@);
    assert(convert_field(k, CompilerTool::schema()[0]) == Ok::<FieldValueModel, XmlErrorModel>(vals[0]));
    assert(convert_field(k, CompilerTool::schema()[1]) == Ok::<FieldValueModel, XmlErrorModel>(vals[1]));
    assert(convert_field(k, CompilerTool::schema()[2]) == Ok::<FieldValueModel, XmlErrorModel>(vals[2]));
    assert(convert_field(k, CompilerTool::schema()[3]) == Ok::<FieldValueModel, XmlErrorModel>(vals[3]));
    assert(convert_field(k, CompilerTool::schema()[4]) == Ok::<FieldValueModel, XmlErrorModel>(vals[4]));
    assert(convert_field(k, CompilerTool::schema()[5]) == Ok::<FieldValueModel, XmlErrorModel>(vals[5]));
    assert(convert_field(k, CompilerTool::schema()[6]) == Ok::<FieldValueModel, XmlErrorModel>(vals[6]));
    assert(convert_field(k, CompilerTool::schema()[7]) == Ok::<FieldValueModel, XmlErrorModel>(vals[7]));
    assert(convert_field(k, CompilerTool::schema()[8]) == Ok::<FieldValueModel, XmlErrorModel>(vals[8]));
    assert(convert_field(k, CompilerTool::schema()[9]) == Ok::<FieldValueModel, XmlErrorModel>(vals[9]));
    assert(convert_field(k, CompilerTool::schema()[10]) == Ok::<FieldValueModel, XmlErrorModel>(vals[10]));
    assert(convert_field(k, CompilerTool::schema()[11]) == Ok::<FieldValueModel, XmlErrorModel>(vals[11]));
    assert(convert_field(k, CompilerTool::schema()[12]) == Ok::<FieldValueModel, XmlErrorModel>(vals[12]));
    assert(convert_field(k, CompilerTool::schema()[13]) == Ok::<FieldValueModel, XmlErrorModel>(vals[13]));
    assert(convert_field(k, CompilerTool::schema()[14]) == Ok::<FieldValueModel, XmlErrorModel>(vals[14]));
    assert(convert_field(k, CompilerTool::schema()[15]) == Ok::<FieldValueModel, XmlErrorModel>(vals[15]));
    assert(convert_field(k, CompilerTool::schema()[16]) == Ok::<FieldValueModel, XmlErrorModel>(vals[16]));
    assert(convert_field(k, CompilerTool::schema()[17]) == Ok::<FieldValueModel, XmlErrorModel>(vals[17]));
    assert(convert_field(k, CompilerTool::schema()[18]) == Ok::<FieldValueModel, XmlErrorModel>(vals[18]));
    assert(convert_field(k, CompilerTool::schema()[19]) == Ok::<FieldValueModel, XmlErrorModel>(vals[19]));
}

/// The librarian settings of a configuration: each field is read from the attribute that bears its name, the
/// last one of that name, other than `Name` attributes; an absent attribute leaves an optional field out.
pub proof fn law_librarian_tool_reads_named_attributes(d: Seq<NodeView>, i: int, x: LinkerTool)
    requires
        spec_linker_tool(d, i) == Ok::<Seq<FieldValueModel>, XmlErrorModel>(x.field_values()),
    ensures
        last_value(attributes_without(d[i].attributes, "Name"@), "AdditionalOptions"@) == Some(x.additional_options@),
        last_value(attributes_without(d[i].attributes, "Name"@), "OutputFile"@) == Some(x.output_file@),
{
    let vals = x.field_values();
    lemma_fields_read(d[i].attributes, "VCLibrarianTool"@, LinkerTool::schema(), seq!["Name"@], vals);
    let k = kept_attributes(d[i].attributes, seq!["Name"@]);
    lemma_kept_one(d[i].attributes, "Name"@);
    assert(convert_field(k, LinkerTool::schema()[0]) == Ok::<FieldValueModel, XmlErrorModel>(vals[0]));
    assert(convert_field(k, LinkerTool::schema()[1]) == Ok::<FieldValueModel, XmlErrorModel>(vals[1]));
}

/// A folder of the file tree: each field is read from the attribute that bears its name, the
/// last one of that name; an absent attribute leaves an optional field out.
pub proof fn law_filter_reads_named_attributes(d: Seq<NodeView>, i: int, x: Filter)
    requires
        spec_filter(d, i) == Ok::<FilterModel, XmlErrorModel>(x.model()),
    ensures
        last_value(d[i].attributes, "Name"@) == Some(x.name@),
{
    let vals = x.field_values();
    lemma_fields_read(d[i].attributes, "Filter"@, Filter::schema(), Seq::<Seq<char>>::empty(), vals);
    let k = kept_attributes(d[i].attributes, Seq::<Seq<char>>::empty());
    lemma_kept_all(d[i].attributes);
    assert(convert_field(k, Filter::schema()[0]) == Ok::<FieldValueModel, XmlErrorModel>(vals[0]));
}

/// A file: each field is read from the attribute that bears its name, the
/// last one of that name; an absent attribute leaves an optional field out.
pub proof fn law_file_reads_named_attributes(d: Seq<NodeView>, i: int, x: File)
    requires
        spec_file(d, i) == Ok::<FileModel, XmlErrorModel>(x.model()),
    ensures
        last_value(d[i].attributes, "RelativePath"@) == Some(x.relative_path@),
{
    let vals = x.field_values();
    lemma_fields_read(d[i].attributes, "File"@, File::schema(), Seq::<Seq<char>>::empty(), vals);
    let k = kept_attributes(d[i].attributes, Seq::<Seq<char>>::empty());
    lemma_kept_all(d[i].attributes);
    assert(convert_field(k, File::schema()[0]) == Ok::<FieldValueModel, XmlErrorModel>(vals[0]));
}

/// A file configuration: each field is read from the attribute that bears its name, the
/// last one of that name; an absent `ExcludedFromBuild` reads as false. Its
/// tool is read from its first `Tool` child.
pub proof fn law_file_configuration_reads_named_attributes(d: Seq<NodeView>, i: int, x: FileConfiguration)
    requires
        spec_file_configuration(d, i) == Ok::<FileConfigurationModel, XmlErrorModel>(x.model()),
    ensures
        x.excluded_from_build == (match attr_bool(d[i].attributes, "ExcludedFromBuild"@) {
            Some(b) => b,
            None => false,
        }),
        last_value(d[i].attributes, "Name"@) == Some(x.name@),
        (first_child_from(d, i, "Tool"@, i + 1) matches Some(j) && spec_tool(d, j) == Ok::<Seq<FieldValueModel>, XmlErrorModel>(x.tool.field_values())),
{
    let vals = spec_read_fields(d[i].attributes, "FileConfiguration"@, FileConfiguration::schema(), Seq::empty())->Ok_0;
    lemma_fields_read(d[i].attributes, "FileConfiguration"@, FileConfiguration::schema(), Seq::<Seq<char>>::empty(), vals);
    let k = kept_attributes(d[i].attributes, Seq::<Seq<char>>::empty());
    lemma_kept_all(d[i].attributes);
    assert(convert_field(k, FileConfiguration::schema()[0]) == Ok::<FieldValueModel, XmlErrorModel>(vals[0]));
    assert(convert_field(k, FileConfiguration::schema()[1]) == Ok::<FieldValueModel, XmlErrorModel>(vals[1]));
}

/// The tool settings of a file configuration: each field is read from the attribute that bears its name, the
/// last one of that name; an absent attribute leaves an optional field out.
pub proof fn law_tool_reads_named_attributes(d: Seq<NodeView>, i: int, x: Tool)
    requires
        spec_tool(d, i) == Ok::<Seq<FieldValueModel>, XmlErrorModel>(x.field_values()),
    ensures
        x.use_precompiled_header == attr_u8(d[i].attributes, "UsePrecompiledHeader"@),
        last_value(d[i].attributes, "Name"@) == Some(x.name@),
{
    let vals = x.field_values();
    lemma_fields_read(d[i].attributes, "Tool"@, Tool::schema(), Seq::<Seq<char>>::empty(), vals);
    let k = kept_attributes(d[i].attributes, Seq::<Seq<char>>::empty());
    lemma_kept_all(d[i].attributes);
    assert(convert_field(k, Tool::schema()[0]) == Ok::<FieldValueModel, XmlErrorModel>(vals[0]));
    assert(convert_field(k, Tool::schema()[1]) == Ok::<FieldValueModel, XmlErrorModel>(vals[1]));
}

} // verus!
