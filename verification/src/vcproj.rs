//! The reader of project files: most attributes are optional, files nest, and a
//! configuration may have a compiler, a librarian and a linker tool.
use crate::text::{bool_value, parse_i8, spec_parse_bool, spec_parse_i8, spec_split_nonempty, split_nonempty, IntErrorKind};
use crate::xml::{
    attr_bool, attr_i8, attr_list, attr_u8, convert_field, kept_attributes, last_value, lemma_fields_read,
    lemma_kept_all, lemma_kept_one,    xml_document_nodes,
    child_elements,    attributes_without, lemma_read_fields_without,
    attribute_first, bool_at, field_specs, field_values_view, first_value, i8_at, is_child_element,
    lemma_fields_fit, list_at, read_fields, required_text_at, root_element, spec_parse_document,
    spec_read_fields, str_views, text_at, u8_at, value_fits, children_of, FieldDesc, FieldKind,
    FieldSpec, FieldValue, FieldValueModel, NodeView, XmlDocument, XmlError, XmlErrorModel,
};
use crate::vcproj_raw::{first_child_named, first_child_from, is_child, name_is, prepend};
use vstd::prelude::*;

verus! {

/// A project file: the attributes of its `VisualStudioProject` root, its platforms, configurations and files.
#[derive(Debug)]
pub struct VCProject {
    pub name: String,
    pub project_type: String,
    pub version: String,
    pub guid: String,
    pub root_namespace: String,
    pub keyword: Option<String>,
    pub target_framework_version: String,
    pub platforms: Vec<Platform>,
    pub configurations: Vec<Configuration>,
    pub files: Files,
}

impl VCProject {
    /// The attributes that the element takes, in the order they are read.
    pub open spec fn schema() -> Seq<FieldSpec> {
        seq![
            FieldSpec { name: "Name"@, kind: FieldKind::Text, required: true },
            FieldSpec { name: "ProjectType"@, kind: FieldKind::Text, required: true },
            FieldSpec { name: "Version"@, kind: FieldKind::Text, required: true },
            FieldSpec { name: "ProjectGUID"@, kind: FieldKind::Text, required: true },
            FieldSpec { name: "RootNamespace"@, kind: FieldKind::Text, required: true },
            FieldSpec { name: "Keyword"@, kind: FieldKind::Text, required: false },
            FieldSpec { name: "TargetFrameworkVersion"@, kind: FieldKind::Text, required: true },
        ]
    }

    /// The fields read from attributes, in the order of [`Self::schema`].
    pub open spec fn field_values(&self) -> Seq<FieldValueModel> {
        seq![
            FieldValueModel::Text(Some(self.name@)),
            FieldValueModel::Text(Some(self.project_type@)),
            FieldValueModel::Text(Some(self.version@)),
            FieldValueModel::Text(Some(self.guid@)),
            FieldValueModel::Text(Some(self.root_namespace@)),
            FieldValueModel::Text(self.keyword.deep_view()),
            FieldValueModel::Text(Some(self.target_framework_version@)),
        ]
    }

    fn schema_descs() -> (r: [FieldDesc; 7])
        ensures
            field_specs(r@) == Self::schema(),
    {
        let r = [
            FieldDesc { name: "Name", kind: FieldKind::Text, required: true },
            FieldDesc { name: "ProjectType", kind: FieldKind::Text, required: true },
            FieldDesc { name: "Version", kind: FieldKind::Text, required: true },
            FieldDesc { name: "ProjectGUID", kind: FieldKind::Text, required: true },
            FieldDesc { name: "RootNamespace", kind: FieldKind::Text, required: true },
            FieldDesc { name: "Keyword", kind: FieldKind::Text, required: false },
            FieldDesc { name: "TargetFrameworkVersion", kind: FieldKind::Text, required: true },
        ];
        assert(field_specs(r@) =~= Self::schema());
        r
    }

    fn from_values(vals: &Vec<FieldValue>, platforms: Vec<Platform>, configurations: Vec<Configuration>, files: Files) -> (r: Self)
        requires
            vals@.len() == 7,
            forall|k: int|
                0 <= k < 7 ==> value_fits(
                    #[trigger] vals@[k]@,
                    Self::schema()[k].kind,
                    Self::schema()[k].required,
                ),
        ensures
            r.field_values() == field_values_view(vals@),
            r.platforms == platforms,
            r.configurations == configurations,
            r.files == files,
    {
        let r = VCProject {
            name: required_text_at(vals, 0),
            project_type: required_text_at(vals, 1),
            version: required_text_at(vals, 2),
            guid: required_text_at(vals, 3),
            root_namespace: required_text_at(vals, 4),
            keyword: text_at(vals, 5),
            target_framework_version: required_text_at(vals, 6),
            platforms,
            configurations,
            files,
        };
        assert(r.field_values() =~= field_values_view(vals@));
        r
    }
}

/// One build configuration and its compiler, librarian and linker tools.
#[derive(Debug)]
pub struct Configuration {
    pub name: String,
    pub output_directory: Option<String>,
    pub intermediate_directory: Option<String>,
    pub configuration_type: u8,
    pub character_set: Option<u8>,
    pub whole_program_optimization: Option<bool>,
    pub managed_extensions: Option<u8>,
    pub atl_minimizes_c_runtime_library_usage: Option<bool>,
    pub delete_extensions_on_clean: Option<String>,
    pub inherited_property_sheets: Option<Vec<String>>,
    pub use_of_atl: Option<u8>,
    pub use_of_mfc: Option<i8>,
    pub compiler_tool: Option<CompilerTool>,
    pub lib_tool: Option<LibTool>,
    pub linker_tool: Option<LinkerTool>,
}

impl Configuration {
    /// The attributes that the element takes, in the order they are read.
    pub open spec fn schema() -> Seq<FieldSpec> {
        seq![
            FieldSpec { name: "Name"@, kind: FieldKind::Text, required: true },
            FieldSpec { name: "OutputDirectory"@, kind: FieldKind::Text, required: false },
            FieldSpec { name: "IntermediateDirectory"@, kind: FieldKind::Text, required: false },
            FieldSpec { name: "ConfigurationType"@, kind: FieldKind::U8, required: true },
            FieldSpec { name: "CharacterSet"@, kind: FieldKind::U8, required: false },
            FieldSpec { name: "WholeProgramOptimization"@, kind: FieldKind::Bool, required: false },
            FieldSpec { name: "ManagedExtensions"@, kind: FieldKind::U8, required: false },
            FieldSpec { name: "ATLMinimizesCRunTimeLibraryUsage"@, kind: FieldKind::Bool, required: false },
            FieldSpec { name: "DeleteExtensionsOnClean"@, kind: FieldKind::Text, required: false },
            FieldSpec { name: "InheritedPropertySheets"@, kind: FieldKind::List, required: false },
            FieldSpec { name: "UseOfATL"@, kind: FieldKind::U8, required: false },
            FieldSpec { name: "UseOfMFC"@, kind: FieldKind::I8, required: false },
        ]
    }

    /// The fields read from attributes, in the order of [`Self::schema`].
    pub open spec fn field_values(&self) -> Seq<FieldValueModel> {
        seq![
            FieldValueModel::Text(Some(self.name@)),
            FieldValueModel::Text(self.output_directory.deep_view()),
            FieldValueModel::Text(self.intermediate_directory.deep_view()),
            FieldValueModel::U8(Some(self.configuration_type)),
            FieldValueModel::U8(self.character_set),
            FieldValueModel::Bool(self.whole_program_optimization),
            FieldValueModel::U8(self.managed_extensions),
            FieldValueModel::Bool(self.atl_minimizes_c_runtime_library_usage),
            FieldValueModel::Text(self.delete_extensions_on_clean.deep_view()),
            FieldValueModel::List(self.inherited_property_sheets.deep_view()),
            FieldValueModel::U8(self.use_of_atl),
            FieldValueModel::I8(self.use_of_mfc),
        ]
    }

    fn schema_descs() -> (r: [FieldDesc; 12])
        ensures
            field_specs(r@) == Self::schema(),
    {
        let r = [
            FieldDesc { name: "Name", kind: FieldKind::Text, required: true },
            FieldDesc { name: "OutputDirectory", kind: FieldKind::Text, required: false },
            FieldDesc { name: "IntermediateDirectory", kind: FieldKind::Text, required: false },
            FieldDesc { name: "ConfigurationType", kind: FieldKind::U8, required: true },
            FieldDesc { name: "CharacterSet", kind: FieldKind::U8, required: false },
            FieldDesc { name: "WholeProgramOptimization", kind: FieldKind::Bool, required: false },
            FieldDesc { name: "ManagedExtensions", kind: FieldKind::U8, required: false },
            FieldDesc { name: "ATLMinimizesCRunTimeLibraryUsage", kind: FieldKind::Bool, required: false },
            FieldDesc { name: "DeleteExtensionsOnClean", kind: FieldKind::Text, required: false },
            FieldDesc { name: "InheritedPropertySheets", kind: FieldKind::List, required: false },
            FieldDesc { name: "UseOfATL", kind: FieldKind::U8, required: false },
            FieldDesc { name: "UseOfMFC", kind: FieldKind::I8, required: false },
        ];
        assert(field_specs(r@) =~= Self::schema());
        r
    }

    fn from_values(vals: &Vec<FieldValue>, compiler_tool: Option<CompilerTool>, lib_tool: Option<LibTool>, linker_tool: Option<LinkerTool>) -> (r: Self)
        requires
            vals@.len() == 12,
            forall|k: int|
                0 <= k < 12 ==> value_fits(
                    #[trigger] vals@[k]@,
                    Self::schema()[k].kind,
                    Self::schema()[k].required,
                ),
        ensures
            r.field_values() == field_values_view(vals@),
            r.compiler_tool == compiler_tool,
            r.lib_tool == lib_tool,
            r.linker_tool == linker_tool,
    {
        let r = Configuration {
            name: required_text_at(vals, 0),
            output_directory: text_at(vals, 1),
            intermediate_directory: text_at(vals, 2),
            configuration_type: match u8_at(vals, 3) { Some(x) => x, None => 0 },
            character_set: u8_at(vals, 4),
            whole_program_optimization: bool_at(vals, 5),
            managed_extensions: u8_at(vals, 6),
            atl_minimizes_c_runtime_library_usage: bool_at(vals, 7),
            delete_extensions_on_clean: text_at(vals, 8),
            inherited_property_sheets: list_at(vals, 9),
            use_of_atl: u8_at(vals, 10),
            use_of_mfc: i8_at(vals, 11),
            compiler_tool,
            lib_tool,
            linker_tool,
        };
        assert(r.field_values() =~= field_values_view(vals@));
        r
    }
}

/// A target platform.
#[derive(Debug)]
pub struct Platform {
    pub name: String,
}

impl Platform {
    /// The attributes that the element takes, in the order they are read.
    pub open spec fn schema() -> Seq<FieldSpec> {
        seq![
            FieldSpec { name: "Name"@, kind: FieldKind::Text, required: true },
        ]
    }

    /// The fields read from attributes, in the order of [`Self::schema`].
    pub open spec fn field_values(&self) -> Seq<FieldValueModel> {
        seq![
            FieldValueModel::Text(Some(self.name@)),
        ]
    }

    fn schema_descs() -> (r: [FieldDesc; 1])
        ensures
            field_specs(r@) == Self::schema(),
    {
        let r = [
            FieldDesc { name: "Name", kind: FieldKind::Text, required: true },
        ];
        assert(field_specs(r@) =~= Self::schema());
        r
    }

    fn from_values(vals: &Vec<FieldValue>) -> (r: Self)
        requires
            vals@.len() == 1,
            forall|k: int|
                0 <= k < 1 ==> value_fits(
                    #[trigger] vals@[k]@,
                    Self::schema()[k].kind,
                    Self::schema()[k].required,
                ),
        ensures
            r.field_values() == field_values_view(vals@),
    {
        let r = Platform {
            name: required_text_at(vals, 0),
        };
        assert(r.field_values() =~= field_values_view(vals@));
        r
    }
}

/// The settings of the `VCCLCompilerTool` of a configuration.
#[derive(Debug)]
pub struct CompilerTool {
    pub additional_options: Option<String>,
    pub optimization: Option<u8>,
    pub inline_function_expansion: Option<u8>,
    pub enable_intrinsic_functions: Option<bool>,
    pub omit_frame_pointers: Option<bool>,
    pub enable_fiber_safe_optimizations: Option<bool>,
    pub additional_include_directories: Option<Vec<String>>,
    pub preprocessor_definitions: Option<Vec<String>>,
    pub string_pooling: Option<bool>,
    pub minimal_rebuild: Option<bool>,
    pub exception_handling: Option<u8>,
    pub runtime_library: Option<u8>,
    pub buffer_security_check: Option<bool>,
    pub enable_enhanced_instruction_set: Option<u8>,
    pub floating_point_model: Option<u8>,
    pub use_precompiled_header: Option<u8>,
    pub precompiled_header_through: Option<String>,
    pub warning_level: Option<u8>,
    pub detect_64_bit_portability_problems: Option<bool>,
    pub debug_information_format: Option<u8>,
    pub basic_runtime_checks: Option<u8>,
    pub favor_size_or_speed: Option<u8>,
    pub enable_function_level_linking: Option<bool>,
    pub precompiled_header_file: Option<String>,
    pub whole_program_optimization: Option<bool>,
    pub smaller_type_check: Option<bool>,
    pub assembler_listing_location: Option<String>,
    pub browse_information: Option<u8>,
    pub calling_convention: Option<u8>,
    pub compile_as: Option<u8>,
    pub disable_specific_warnings: Option<Vec<String>>,
    pub floating_point_exceptions: Option<bool>,
    pub force_conformance_in_for_loop_scope: Option<bool>,
    pub generate_preprocessed_file: Option<u8>,
    pub object_file: Option<String>,
    pub program_data_base_file_name: Option<String>,
    pub runtime_type_info: Option<bool>,
    pub show_includes: Option<bool>,
    pub struct_member_alignment: Option<u8>,
    pub suppress_startup_banner: Option<bool>,
    pub use_unicode_response_files: Option<bool>,
    pub execution_bucket: Option<u8>,
}

impl CompilerTool {
    /// The attributes that the element takes, in the order they are read.
    pub open spec fn schema() -> Seq<FieldSpec> {
        seq![
            FieldSpec { name: "AdditionalOptions"@, kind: FieldKind::Text, required: false },
            FieldSpec { name: "Optimization"@, kind: FieldKind::U8, required: false },
            FieldSpec { name: "InlineFunctionExpansion"@, kind: FieldKind::U8, required: false },
            FieldSpec { name: "EnableIntrinsicFunctions"@, kind: FieldKind::Bool, required: false },
            FieldSpec { name: "OmitFramePointers"@, kind: FieldKind::Bool, required: false },
            FieldSpec { name: "EnableFiberSafeOptimizations"@, kind: FieldKind::Bool, required: false },
            FieldSpec { name: "AdditionalIncludeDirectories"@, kind: FieldKind::List, required: false },
            FieldSpec { name: "PreprocessorDefinitions"@, kind: FieldKind::List, required: false },
            FieldSpec { name: "StringPooling"@, kind: FieldKind::Bool, required: false },
            FieldSpec { name: "MinimalRebuild"@, kind: FieldKind::Bool, required: false },
            FieldSpec { name: "ExceptionHandling"@, kind: FieldKind::U8, required: false },
            FieldSpec { name: "RuntimeLibrary"@, kind: FieldKind::U8, required: false },
            FieldSpec { name: "BufferSecurityCheck"@, kind: FieldKind::Bool, required: false },
            FieldSpec { name: "EnableEnhancedInstructionSet"@, kind: FieldKind::U8, required: false },
            FieldSpec { name: "FloatingPointModel"@, kind: FieldKind::U8, required: false },
            FieldSpec { name: "UsePrecompiledHeader"@, kind: FieldKind::U8, required: false },
            FieldSpec { name: "PrecompiledHeaderThrough"@, kind: FieldKind::Text, required: false },
            FieldSpec { name: "WarningLevel"@, kind: FieldKind::U8, required: false },
            FieldSpec { name: "Detect64BitPortabilityProblems"@, kind: FieldKind::Bool, required: false },
            FieldSpec { name: "DebugInformationFormat"@, kind: FieldKind::U8, required: false },
            FieldSpec { name: "BasicRuntimeChecks"@, kind: FieldKind::U8, required: false },
            FieldSpec { name: "FavorSizeOrSpeed"@, kind: FieldKind::U8, required: false },
            FieldSpec { name: "EnableFunctionLevelLinking"@, kind: FieldKind::Bool, required: false },
            FieldSpec { name: "PrecompiledHeaderFile"@, kind: FieldKind::Text, required: false },
            FieldSpec { name: "WholeProgramOptimization"@, kind: FieldKind::Bool, required: false },
            FieldSpec { name: "SmallerTypeCheck"@, kind: FieldKind::Bool, required: false },
            FieldSpec { name: "AssemblerListingLocation"@, kind: FieldKind::Text, required: false },
            FieldSpec { name: "BrowseInformation"@, kind: FieldKind::U8, required: false },
            FieldSpec { name: "CallingConvention"@, kind: FieldKind::U8, required: false },
            FieldSpec { name: "CompileAs"@, kind: FieldKind::U8, required: false },
            FieldSpec { name: "DisableSpecificWarnings"@, kind: FieldKind::List, required: false },
            FieldSpec { name: "FloatingPointExceptions"@, kind: FieldKind::Bool, required: false },
            FieldSpec { name: "ForceConformanceInForLoopScope"@, kind: FieldKind::Bool, required: false },
            FieldSpec { name: "GeneratePreprocessedFile"@, kind: FieldKind::U8, required: false },
            FieldSpec { name: "ObjectFile"@, kind: FieldKind::Text, required: false },
            FieldSpec { name: "ProgramDataBaseFileName"@, kind: FieldKind::Text, required: false },
            FieldSpec { name: "RuntimeTypeInfo"@, kind: FieldKind::Bool, required: false },
            FieldSpec { name: "ShowIncludes"@, kind: FieldKind::Bool, required: false },
            FieldSpec { name: "StructMemberAlignment"@, kind: FieldKind::U8, required: false },
            FieldSpec { name: "SuppressStartupBanner"@, kind: FieldKind::Bool, required: false },
            FieldSpec { name: "UseUnicodeResponseFiles"@, kind: FieldKind::Bool, required: false },
            FieldSpec { name: "ExecutionBucket"@, kind: FieldKind::U8, required: false },
        ]
    }

    /// The fields read from attributes, in the order of [`Self::schema`].
    pub open spec fn field_values(&self) -> Seq<FieldValueModel> {
        seq![
            FieldValueModel::Text(self.additional_options.deep_view()),
            FieldValueModel::U8(self.optimization),
            FieldValueModel::U8(self.inline_function_expansion),
            FieldValueModel::Bool(self.enable_intrinsic_functions),
            FieldValueModel::Bool(self.omit_frame_pointers),
            FieldValueModel::Bool(self.enable_fiber_safe_optimizations),
            FieldValueModel::List(self.additional_include_directories.deep_view()),
            FieldValueModel::List(self.preprocessor_definitions.deep_view()),
            FieldValueModel::Bool(self.string_pooling),
            FieldValueModel::Bool(self.minimal_rebuild),
            FieldValueModel::U8(self.exception_handling),
            FieldValueModel::U8(self.runtime_library),
            FieldValueModel::Bool(self.buffer_security_check),
            FieldValueModel::U8(self.enable_enhanced_instruction_set),
            FieldValueModel::U8(self.floating_point_model),
            FieldValueModel::U8(self.use_precompiled_header),
            FieldValueModel::Text(self.precompiled_header_through.deep_view()),
            FieldValueModel::U8(self.warning_level),
            FieldValueModel::Bool(self.detect_64_bit_portability_problems),
            FieldValueModel::U8(self.debug_information_format),
            FieldValueModel::U8(self.basic_runtime_checks),
            FieldValueModel::U8(self.favor_size_or_speed),
            FieldValueModel::Bool(self.enable_function_level_linking),
            FieldValueModel::Text(self.precompiled_header_file.deep_view()),
            FieldValueModel::Bool(self.whole_program_optimization),
            FieldValueModel::Bool(self.smaller_type_check),
            FieldValueModel::Text(self.assembler_listing_location.deep_view()),
            FieldValueModel::U8(self.browse_information),
            FieldValueModel::U8(self.calling_convention),
            FieldValueModel::U8(self.compile_as),
            FieldValueModel::List(self.disable_specific_warnings.deep_view()),
            FieldValueModel::Bool(self.floating_point_exceptions),
            FieldValueModel::Bool(self.force_conformance_in_for_loop_scope),
            FieldValueModel::U8(self.generate_preprocessed_file),
            FieldValueModel::Text(self.object_file.deep_view()),
            FieldValueModel::Text(self.program_data_base_file_name.deep_view()),
            FieldValueModel::Bool(self.runtime_type_info),
            FieldValueModel::Bool(self.show_includes),
            FieldValueModel::U8(self.struct_member_alignment),
            FieldValueModel::Bool(self.suppress_startup_banner),
            FieldValueModel::Bool(self.use_unicode_response_files),
            FieldValueModel::U8(self.execution_bucket),
        ]
    }

    fn schema_descs() -> (r: [FieldDesc; 42])
        ensures
            field_specs(r@) == Self::schema(),
    {
        let r = [
            FieldDesc { name: "AdditionalOptions", kind: FieldKind::Text, required: false },
            FieldDesc { name: "Optimization", kind: FieldKind::U8, required: false },
            FieldDesc { name: "InlineFunctionExpansion", kind: FieldKind::U8, required: false },
            FieldDesc { name: "EnableIntrinsicFunctions", kind: FieldKind::Bool, required: false },
            FieldDesc { name: "OmitFramePointers", kind: FieldKind::Bool, required: false },
            FieldDesc { name: "EnableFiberSafeOptimizations", kind: FieldKind::Bool, required: false },
            FieldDesc { name: "AdditionalIncludeDirectories", kind: FieldKind::List, required: false },
            FieldDesc { name: "PreprocessorDefinitions", kind: FieldKind::List, required: false },
            FieldDesc { name: "StringPooling", kind: FieldKind::Bool, required: false },
            FieldDesc { name: "MinimalRebuild", kind: FieldKind::Bool, required: false },
            FieldDesc { name: "ExceptionHandling", kind: FieldKind::U8, required: false },
            FieldDesc { name: "RuntimeLibrary", kind: FieldKind::U8, required: false },
            FieldDesc { name: "BufferSecurityCheck", kind: FieldKind::Bool, required: false },
            FieldDesc { name: "EnableEnhancedInstructionSet", kind: FieldKind::U8, required: false },
            FieldDesc { name: "FloatingPointModel", kind: FieldKind::U8, required: false },
            FieldDesc { name: "UsePrecompiledHeader", kind: FieldKind::U8, required: false },
            FieldDesc { name: "PrecompiledHeaderThrough", kind: FieldKind::Text, required: false },
            FieldDesc { name: "WarningLevel", kind: FieldKind::U8, required: false },
            FieldDesc { name: "Detect64BitPortabilityProblems", kind: FieldKind::Bool, required: false },
            FieldDesc { name: "DebugInformationFormat", kind: FieldKind::U8, required: false },
            FieldDesc { name: "BasicRuntimeChecks", kind: FieldKind::U8, required: false },
            FieldDesc { name: "FavorSizeOrSpeed", kind: FieldKind::U8, required: false },
            FieldDesc { name: "EnableFunctionLevelLinking", kind: FieldKind::Bool, required: false },
            FieldDesc { name: "PrecompiledHeaderFile", kind: FieldKind::Text, required: false },
            FieldDesc { name: "WholeProgramOptimization", kind: FieldKind::Bool, required: false },
            FieldDesc { name: "SmallerTypeCheck", kind: FieldKind::Bool, required: false },
            FieldDesc { name: "AssemblerListingLocation", kind: FieldKind::Text, required: false },
            FieldDesc { name: "BrowseInformation", kind: FieldKind::U8, required: false },
            FieldDesc { name: "CallingConvention", kind: FieldKind::U8, required: false },
            FieldDesc { name: "CompileAs", kind: FieldKind::U8, required: false },
            FieldDesc { name: "DisableSpecificWarnings", kind: FieldKind::List, required: false },
            FieldDesc { name: "FloatingPointExceptions", kind: FieldKind::Bool, required: false },
            FieldDesc { name: "ForceConformanceInForLoopScope", kind: FieldKind::Bool, required: false },
            FieldDesc { name: "GeneratePreprocessedFile", kind: FieldKind::U8, required: false },
            FieldDesc { name: "ObjectFile", kind: FieldKind::Text, required: false },
            FieldDesc { name: "ProgramDataBaseFileName", kind: FieldKind::Text, required: false },
            FieldDesc { name: "RuntimeTypeInfo", kind: FieldKind::Bool, required: false },
            FieldDesc { name: "ShowIncludes", kind: FieldKind::Bool, required: false },
            FieldDesc { name: "StructMemberAlignment", kind: FieldKind::U8, required: false },
            FieldDesc { name: "SuppressStartupBanner", kind: FieldKind::Bool, required: false },
            FieldDesc { name: "UseUnicodeResponseFiles", kind: FieldKind::Bool, required: false },
            FieldDesc { name: "ExecutionBucket", kind: FieldKind::U8, required: false },
        ];
        assert(field_specs(r@) =~= Self::schema());
        r
    }

    fn from_values(vals: &Vec<FieldValue>) -> (r: Self)
        requires
            vals@.len() == 42,
            forall|k: int|
                0 <= k < 42 ==> value_fits(
                    #[trigger] vals@[k]@,
                    Self::schema()[k].kind,
                    Self::schema()[k].required,
                ),
        ensures
            r.field_values() == field_values_view(vals@),
    {
        let r = CompilerTool {
            additional_options: text_at(vals, 0),
            optimization: u8_at(vals, 1),
            inline_function_expansion: u8_at(vals, 2),
            enable_intrinsic_functions: bool_at(vals, 3),
            omit_frame_pointers: bool_at(vals, 4),
            enable_fiber_safe_optimizations: bool_at(vals, 5),
            additional_include_directories: list_at(vals, 6),
            preprocessor_definitions: list_at(vals, 7),
            string_pooling: bool_at(vals, 8),
            minimal_rebuild: bool_at(vals, 9),
            exception_handling: u8_at(vals, 10),
            runtime_library: u8_at(vals, 11),
            buffer_security_check: bool_at(vals, 12),
            enable_enhanced_instruction_set: u8_at(vals, 13),
            floating_point_model: u8_at(vals, 14),
            use_precompiled_header: u8_at(vals, 15),
            precompiled_header_through: text_at(vals, 16),
            warning_level: u8_at(vals, 17),
            detect_64_bit_portability_problems: bool_at(vals, 18),
            debug_information_format: u8_at(vals, 19),
            basic_runtime_checks: u8_at(vals, 20),
            favor_size_or_speed: u8_at(vals, 21),
            enable_function_level_linking: bool_at(vals, 22),
            precompiled_header_file: text_at(vals, 23),
            whole_program_optimization: bool_at(vals, 24),
            smaller_type_check: bool_at(vals, 25),
            assembler_listing_location: text_at(vals, 26),
            browse_information: u8_at(vals, 27),
            calling_convention: u8_at(vals, 28),
            compile_as: u8_at(vals, 29),
            disable_specific_warnings: list_at(vals, 30),
            floating_point_exceptions: bool_at(vals, 31),
            force_conformance_in_for_loop_scope: bool_at(vals, 32),
            generate_preprocessed_file: u8_at(vals, 33),
            object_file: text_at(vals, 34),
            program_data_base_file_name: text_at(vals, 35),
            runtime_type_info: bool_at(vals, 36),
            show_includes: bool_at(vals, 37),
            struct_member_alignment: u8_at(vals, 38),
            suppress_startup_banner: bool_at(vals, 39),
            use_unicode_response_files: bool_at(vals, 40),
            execution_bucket: u8_at(vals, 41),
        };
        assert(r.field_values() =~= field_values_view(vals@));
        r
    }
}

/// The settings of the `VCLinkerTool` of a configuration.
#[derive(Debug)]
pub struct LinkerTool {
    pub additional_options: Option<String>,
    pub additional_dependencies: Option<Vec<String>>,
    pub output_file: Option<String>,
    pub link_incremental: Option<u8>,
    pub additional_library_directories: Option<Vec<String>>,
    pub ignore_default_library_names: Option<Vec<String>>,
    pub module_definition_file: Option<String>,
    pub generate_debug_information: Option<bool>,
    pub program_database_file: Option<String>,
    pub generate_map_file: Option<bool>,
    pub map_file_name: Option<String>,
    pub map_exports: Option<bool>,
    pub sub_system: Option<u8>,
    pub large_address_aware: Option<u8>,
    pub optimize_references: Option<u8>,
    pub enable_comdat_folding: Option<u8>,
    pub randomized_base_address: Option<u8>,
    pub data_execution_prevention: Option<u8>,
    pub import_library: Option<String>,
    pub target_machine: Option<u8>,
    pub assembly_debug: Option<u8>,
    pub assembly_link_resource: Option<String>,
    pub base_address: Option<String>,
    pub clr_thread_attribute: Option<u8>,
    pub delay_load_dlls: Option<Vec<String>>,
    pub embed_managed_resource_file: Option<String>,
    pub entry_point_symbol: Option<String>,
    pub fixed_base_address: Option<u8>,
    pub generate_manifest: Option<bool>,
    pub ignore_import_library: Option<bool>,
    pub optimize_for_windows98: Option<u8>,
    pub support_unload_of_delay_loaded_dll: Option<bool>,
    pub version: Option<String>,
}

impl LinkerTool {
    /// The attributes that the element takes, in the order they are read.
    pub open spec fn schema() -> Seq<FieldSpec> {
        seq![
            FieldSpec { name: "AdditionalOptions"@, kind: FieldKind::Text, required: false },
            FieldSpec { name: "AdditionalDependencies"@, kind: FieldKind::List, required: false },
            FieldSpec { name: "OutputFile"@, kind: FieldKind::Text, required: false },
            FieldSpec { name: "LinkIncremental"@, kind: FieldKind::U8, required: false },
            FieldSpec { name: "AdditionalLibraryDirectories"@, kind: FieldKind::List, required: false },
            FieldSpec { name: "IgnoreDefaultLibraryNames"@, kind: FieldKind::List, required: false },
            FieldSpec { name: "ModuleDefinitionFile"@, kind: FieldKind::Text, required: false },
            FieldSpec { name: "GenerateDebugInformation"@, kind: FieldKind::Bool, required: false },
            FieldSpec { name: "ProgramDatabaseFile"@, kind: FieldKind::Text, required: false },
            FieldSpec { name: "GenerateMapFile"@, kind: FieldKind::Bool, required: false },
            FieldSpec { name: "MapFileName"@, kind: FieldKind::Text, required: false },
            FieldSpec { name: "MapExports"@, kind: FieldKind::Bool, required: false },
            FieldSpec { name: "SubSystem"@, kind: FieldKind::U8, required: false },
            FieldSpec { name: "LargeAddressAware"@, kind: FieldKind::U8, required: false },
            FieldSpec { name: "OptimizeReferences"@, kind: FieldKind::U8, required: false },
            FieldSpec { name: "EnableCOMDATFolding"@, kind: FieldKind::U8, required: false },
            FieldSpec { name: "RandomizedBaseAddress"@, kind: FieldKind::U8, required: false },
            FieldSpec { name: "DataExecutionPrevention"@, kind: FieldKind::U8, required: false },
            FieldSpec { name: "ImportLibrary"@, kind: FieldKind::Text, required: false },
            FieldSpec { name: "TargetMachine"@, kind: FieldKind::U8, required: false },
            FieldSpec { name: "AssemblyDebug"@, kind: FieldKind::U8, required: false },
            FieldSpec { name: "AssemblyLinkResource"@, kind: FieldKind::Text, required: false },
            FieldSpec { name: "BaseAddress"@, kind: FieldKind::Text, required: false },
            FieldSpec { name: "CLRThreadAttribute"@, kind: FieldKind::U8, required: false },
            FieldSpec { name: "DelayLoadDLLs"@, kind: FieldKind::List, required: false },
            FieldSpec { name: "EmbedManagedResourceFile"@, kind: FieldKind::Text, required: false },
            FieldSpec { name: "EntryPointSymbol"@, kind: FieldKind::Text, required: false },
            FieldSpec { name: "FixedBaseAddress"@, kind: FieldKind::U8, required: false },
            FieldSpec { name: "GenerateManifest"@, kind: FieldKind::Bool, required: false },
            FieldSpec { name: "IgnoreImportLibrary"@, kind: FieldKind::Bool, required: false },
            FieldSpec { name: "OptimizeForWindows98"@, kind: FieldKind::U8, required: false },
            FieldSpec { name: "SupportUnloadOfDelayLoadedDLL"@, kind: FieldKind::Bool, required: false },
            FieldSpec { name: "Version"@, kind: FieldKind::Text, required: false },
        ]
    }

    /// The fields read from attributes, in the order of [`Self::schema`].
    pub open spec fn field_values(&self) -> Seq<FieldValueModel> {
        seq![
            FieldValueModel::Text(self.additional_options.deep_view()),
            FieldValueModel::List(self.additional_dependencies.deep_view()),
            FieldValueModel::Text(self.output_file.deep_view()),
            FieldValueModel::U8(self.link_incremental),
            FieldValueModel::List(self.additional_library_directories.deep_view()),
            FieldValueModel::List(self.ignore_default_library_names.deep_view()),
            FieldValueModel::Text(self.module_definition_file.deep_view()),
            FieldValueModel::Bool(self.generate_debug_information),
            FieldValueModel::Text(self.program_database_file.deep_view()),
            FieldValueModel::Bool(self.generate_map_file),
            FieldValueModel::Text(self.map_file_name.deep_view()),
            FieldValueModel::Bool(self.map_exports),
            FieldValueModel::U8(self.sub_system),
            FieldValueModel::U8(self.large_address_aware),
            FieldValueModel::U8(self.optimize_references),
            FieldValueModel::U8(self.enable_comdat_folding),
            FieldValueModel::U8(self.randomized_base_address),
            FieldValueModel::U8(self.data_execution_prevention),
            FieldValueModel::Text(self.import_library.deep_view()),
            FieldValueModel::U8(self.target_machine),
            FieldValueModel::U8(self.assembly_debug),
            FieldValueModel::Text(self.assembly_link_resource.deep_view()),
            FieldValueModel::Text(self.base_address.deep_view()),
            FieldValueModel::U8(self.clr_thread_attribute),
            FieldValueModel::List(self.delay_load_dlls.deep_view()),
            FieldValueModel::Text(self.embed_managed_resource_file.deep_view()),
            FieldValueModel::Text(self.entry_point_symbol.deep_view()),
            FieldValueModel::U8(self.fixed_base_address),
            FieldValueModel::Bool(self.generate_manifest),
            FieldValueModel::Bool(self.ignore_import_library),
            FieldValueModel::U8(self.optimize_for_windows98),
            FieldValueModel::Bool(self.support_unload_of_delay_loaded_dll),
            FieldValueModel::Text(self.version.deep_view()),
        ]
    }

    fn schema_descs() -> (r: [FieldDesc; 33])
        ensures
            field_specs(r@) == Self::schema(),
    {
        let r = [
            FieldDesc { name: "AdditionalOptions", kind: FieldKind::Text, required: false },
            FieldDesc { name: "AdditionalDependencies", kind: FieldKind::List, required: false },
            FieldDesc { name: "OutputFile", kind: FieldKind::Text, required: false },
            FieldDesc { name: "LinkIncremental", kind: FieldKind::U8, required: false },
            FieldDesc { name: "AdditionalLibraryDirectories", kind: FieldKind::List, required: false },
            FieldDesc { name: "IgnoreDefaultLibraryNames", kind: FieldKind::List, required: false },
            FieldDesc { name: "ModuleDefinitionFile", kind: FieldKind::Text, required: false },
            FieldDesc { name: "GenerateDebugInformation", kind: FieldKind::Bool, required: false },
            FieldDesc { name: "ProgramDatabaseFile", kind: FieldKind::Text, required: false },
            FieldDesc { name: "GenerateMapFile", kind: FieldKind::Bool, required: false },
            FieldDesc { name: "MapFileName", kind: FieldKind::Text, required: false },
            FieldDesc { name: "MapExports", kind: FieldKind::Bool, required: false },
            FieldDesc { name: "SubSystem", kind: FieldKind::U8, required: false },
            FieldDesc { name: "LargeAddressAware", kind: FieldKind::U8, required: false },
            FieldDesc { name: "OptimizeReferences", kind: FieldKind::U8, required: false },
            FieldDesc { name: "EnableCOMDATFolding", kind: FieldKind::U8, required: false },
            FieldDesc { name: "RandomizedBaseAddress", kind: FieldKind::U8, required: false },
            FieldDesc { name: "DataExecutionPrevention", kind: FieldKind::U8, required: false },
            FieldDesc { name: "ImportLibrary", kind: FieldKind::Text, required: false },
            FieldDesc { name: "TargetMachine", kind: FieldKind::U8, required: false },
            FieldDesc { name: "AssemblyDebug", kind: FieldKind::U8, required: false },
            FieldDesc { name: "AssemblyLinkResource", kind: FieldKind::Text, required: false },
            FieldDesc { name: "BaseAddress", kind: FieldKind::Text, required: false },
            FieldDesc { name: "CLRThreadAttribute", kind: FieldKind::U8, required: false },
            FieldDesc { name: "DelayLoadDLLs", kind: FieldKind::List, required: false },
            FieldDesc { name: "EmbedManagedResourceFile", kind: FieldKind::Text, required: false },
            FieldDesc { name: "EntryPointSymbol", kind: FieldKind::Text, required: false },
            FieldDesc { name: "FixedBaseAddress", kind: FieldKind::U8, required: false },
            FieldDesc { name: "GenerateManifest", kind: FieldKind::Bool, required: false },
            FieldDesc { name: "IgnoreImportLibrary", kind: FieldKind::Bool, required: false },
            FieldDesc { name: "OptimizeForWindows98", kind: FieldKind::U8, required: false },
            FieldDesc { name: "SupportUnloadOfDelayLoadedDLL", kind: FieldKind::Bool, required: false },
            FieldDesc { name: "Version", kind: FieldKind::Text, required: false },
        ];
        assert(field_specs(r@) =~= Self::schema());
        r
    }

    fn from_values(vals: &Vec<FieldValue>) -> (r: Self)
        requires
            vals@.len() == 33,
            forall|k: int|
                0 <= k < 33 ==> value_fits(
                    #[trigger] vals@[k]@,
                    Self::schema()[k].kind,
                    Self::schema()[k].required,
                ),
        ensures
            r.field_values() == field_values_view(vals@),
    {
        let r = LinkerTool {
            additional_options: text_at(vals, 0),
            additional_dependencies: list_at(vals, 1),
            output_file: text_at(vals, 2),
            link_incremental: u8_at(vals, 3),
            additional_library_directories: list_at(vals, 4),
            ignore_default_library_names: list_at(vals, 5),
            module_definition_file: text_at(vals, 6),
            generate_debug_information: bool_at(vals, 7),
            program_database_file: text_at(vals, 8),
            generate_map_file: bool_at(vals, 9),
            map_file_name: text_at(vals, 10),
            map_exports: bool_at(vals, 11),
            sub_system: u8_at(vals, 12),
            large_address_aware: u8_at(vals, 13),
            optimize_references: u8_at(vals, 14),
            enable_comdat_folding: u8_at(vals, 15),
            randomized_base_address: u8_at(vals, 16),
            data_execution_prevention: u8_at(vals, 17),
            import_library: text_at(vals, 18),
            target_machine: u8_at(vals, 19),
            assembly_debug: u8_at(vals, 20),
            assembly_link_resource: text_at(vals, 21),
            base_address: text_at(vals, 22),
            clr_thread_attribute: u8_at(vals, 23),
            delay_load_dlls: list_at(vals, 24),
            embed_managed_resource_file: text_at(vals, 25),
            entry_point_symbol: text_at(vals, 26),
            fixed_base_address: u8_at(vals, 27),
            generate_manifest: bool_at(vals, 28),
            ignore_import_library: bool_at(vals, 29),
            optimize_for_windows98: u8_at(vals, 30),
            support_unload_of_delay_loaded_dll: bool_at(vals, 31),
            version: text_at(vals, 32),
        };
        assert(r.field_values() =~= field_values_view(vals@));
        r
    }
}

/// The settings of the `VCLibrarianTool` of a configuration.
#[derive(Debug)]
pub struct LibTool {
    pub additional_options: Option<String>,
    pub output_file: Option<String>,
    pub additional_library_directories: Option<Vec<String>>,
    pub ignore_default_library_names: Option<Vec<String>>,
    pub suppress_startup_banner: Option<bool>,
}

impl LibTool {
    /// The attributes that the element takes, in the order they are read.
    pub open spec fn schema() -> Seq<FieldSpec> {
        seq![
            FieldSpec { name: "AdditionalOptions"@, kind: FieldKind::Text, required: false },
            FieldSpec { name: "OutputFile"@, kind: FieldKind::Text, required: false },
            FieldSpec { name: "AdditionalLibraryDirectories"@, kind: FieldKind::List, required: false },
            FieldSpec { name: "IgnoreDefaultLibraryNames"@, kind: FieldKind::List, required: false },
            FieldSpec { name: "SuppressStartupBanner"@, kind: FieldKind::Bool, required: false },
        ]
    }

    /// The fields read from attributes, in the order of [`Self::schema`].
    pub open spec fn field_values(&self) -> Seq<FieldValueModel> {
        seq![
            FieldValueModel::Text(self.additional_options.deep_view()),
            FieldValueModel::Text(self.output_file.deep_view()),
            FieldValueModel::List(self.additional_library_directories.deep_view()),
            FieldValueModel::List(self.ignore_default_library_names.deep_view()),
            FieldValueModel::Bool(self.suppress_startup_banner),
        ]
    }

    fn schema_descs() -> (r: [FieldDesc; 5])
        ensures
            field_specs(r@) == Self::schema(),
    {
        let r = [
            FieldDesc { name: "AdditionalOptions", kind: FieldKind::Text, required: false },
            FieldDesc { name: "OutputFile", kind: FieldKind::Text, required: false },
            FieldDesc { name: "AdditionalLibraryDirectories", kind: FieldKind::List, required: false },
            FieldDesc { name: "IgnoreDefaultLibraryNames", kind: FieldKind::List, required: false },
            FieldDesc { name: "SuppressStartupBanner", kind: FieldKind::Bool, required: false },
        ];
        assert(field_specs(r@) =~= Self::schema());
        r
    }

    fn from_values(vals: &Vec<FieldValue>) -> (r: Self)
        requires
            vals@.len() == 5,
            forall|k: int|
                0 <= k < 5 ==> value_fits(
                    #[trigger] vals@[k]@,
                    Self::schema()[k].kind,
                    Self::schema()[k].required,
                ),
        ensures
            r.field_values() == field_values_view(vals@),
    {
        let r = LibTool {
            additional_options: text_at(vals, 0),
            output_file: text_at(vals, 1),
            additional_library_directories: list_at(vals, 2),
            ignore_default_library_names: list_at(vals, 3),
            suppress_startup_banner: bool_at(vals, 4),
        };
        assert(r.field_values() =~= field_values_view(vals@));
        r
    }
}

/// A folder of the file tree, with its sub-folders and files.
#[derive(Debug)]
pub struct Filter {
    pub name: String,
    pub filter: Option<Vec<String>>,
    pub unique_identifier: Option<String>,
    pub filters: Vec<Filter>,
    pub files: Vec<File>,
}

impl Filter {
    /// The attributes that the element takes, in the order they are read.
    pub open spec fn schema() -> Seq<FieldSpec> {
        seq![
            FieldSpec { name: "Name"@, kind: FieldKind::Text, required: true },
            FieldSpec { name: "Filter"@, kind: FieldKind::List, required: false },
            FieldSpec { name: "UniqueIdentifier"@, kind: FieldKind::Text, required: false },
        ]
    }

    /// The fields read from attributes, in the order of [`Self::schema`].
    pub open spec fn field_values(&self) -> Seq<FieldValueModel> {
        seq![
            FieldValueModel::Text(Some(self.name@)),
            FieldValueModel::List(self.filter.deep_view()),
            FieldValueModel::Text(self.unique_identifier.deep_view()),
        ]
    }

    fn schema_descs() -> (r: [FieldDesc; 3])
        ensures
            field_specs(r@) == Self::schema(),
    {
        let r = [
            FieldDesc { name: "Name", kind: FieldKind::Text, required: true },
            FieldDesc { name: "Filter", kind: FieldKind::List, required: false },
            FieldDesc { name: "UniqueIdentifier", kind: FieldKind::Text, required: false },
        ];
        assert(field_specs(r@) =~= Self::schema());
        r
    }

    fn from_values(vals: &Vec<FieldValue>, filters: Vec<Filter>, files: Vec<File>) -> (r: Self)
        requires
            vals@.len() == 3,
            forall|k: int|
                0 <= k < 3 ==> value_fits(
                    #[trigger] vals@[k]@,
                    Self::schema()[k].kind,
                    Self::schema()[k].required,
                ),
        ensures
            r.field_values() == field_values_view(vals@),
            r.filters == filters,
            r.files == files,
    {
        let r = Filter {
            name: required_text_at(vals, 0),
            filter: list_at(vals, 1),
            unique_identifier: text_at(vals, 2),
            filters,
            files,
        };
        assert(r.field_values() =~= field_values_view(vals@));
        r
    }
}

/// A source file, its per-configuration settings and the files nested in it.
#[derive(Debug)]
pub struct File {
    pub relative_path: String,
    pub file_type: Option<u8>,
    pub sub_type: Option<String>,
    pub file_configurations: Vec<FileConfiguration>,
    pub files: Vec<File>,
}

impl File {
    /// The attributes that the element takes, in the order they are read.
    pub open spec fn schema() -> Seq<FieldSpec> {
        seq![
            FieldSpec { name: "RelativePath"@, kind: FieldKind::Text, required: true },
            FieldSpec { name: "FileType"@, kind: FieldKind::U8, required: false },
            FieldSpec { name: "SubType"@, kind: FieldKind::Text, required: false },
        ]
    }

    /// The fields read from attributes, in the order of [`Self::schema`].
    pub open spec fn field_values(&self) -> Seq<FieldValueModel> {
        seq![
            FieldValueModel::Text(Some(self.relative_path@)),
            FieldValueModel::U8(self.file_type),
            FieldValueModel::Text(self.sub_type.deep_view()),
        ]
    }

    fn schema_descs() -> (r: [FieldDesc; 3])
        ensures
            field_specs(r@) == Self::schema(),
    {
        let r = [
            FieldDesc { name: "RelativePath", kind: FieldKind::Text, required: true },
            FieldDesc { name: "FileType", kind: FieldKind::U8, required: false },
            FieldDesc { name: "SubType", kind: FieldKind::Text, required: false },
        ];
        assert(field_specs(r@) =~= Self::schema());
        r
    }

    fn from_values(vals: &Vec<FieldValue>, file_configurations: Vec<FileConfiguration>, files: Vec<File>) -> (r: Self)
        requires
            vals@.len() == 3,
            forall|k: int|
                0 <= k < 3 ==> value_fits(
                    #[trigger] vals@[k]@,
                    Self::schema()[k].kind,
                    Self::schema()[k].required,
                ),
        ensures
            r.field_values() == field_values_view(vals@),
            r.file_configurations == file_configurations,
            r.files == files,
    {
        let r = File {
            relative_path: required_text_at(vals, 0),
            file_type: u8_at(vals, 1),
            sub_type: text_at(vals, 2),
            file_configurations,
            files,
        };
        assert(r.field_values() =~= field_values_view(vals@));
        r
    }
}

/// The settings of a file in one configuration.
#[derive(Debug)]
pub struct FileConfiguration {
    pub name: String,
    pub excluded_from_build: Option<bool>,
    pub tool: Tool,
}

impl FileConfiguration {
    /// The attributes that the element takes, in the order they are read.
    pub open spec fn schema() -> Seq<FieldSpec> {
        seq![
            FieldSpec { name: "Name"@, kind: FieldKind::Text, required: true },
            FieldSpec { name: "ExcludedFromBuild"@, kind: FieldKind::Bool, required: false },
        ]
    }

    /// The fields read from attributes, in the order of [`Self::schema`].
    pub open spec fn field_values(&self) -> Seq<FieldValueModel> {
        seq![
            FieldValueModel::Text(Some(self.name@)),
            FieldValueModel::Bool(self.excluded_from_build),
        ]
    }

    fn schema_descs() -> (r: [FieldDesc; 2])
        ensures
            field_specs(r@) == Self::schema(),
    {
        let r = [
            FieldDesc { name: "Name", kind: FieldKind::Text, required: true },
            FieldDesc { name: "ExcludedFromBuild", kind: FieldKind::Bool, required: false },
        ];
        assert(field_specs(r@) =~= Self::schema());
        r
    }

    fn from_values(vals: &Vec<FieldValue>, tool: Tool) -> (r: Self)
        requires
            vals@.len() == 2,
            forall|k: int|
                0 <= k < 2 ==> value_fits(
                    #[trigger] vals@[k]@,
                    Self::schema()[k].kind,
                    Self::schema()[k].required,
                ),
        ensures
            r.field_values() == field_values_view(vals@),
            r.tool == tool,
    {
        let r = FileConfiguration {
            name: required_text_at(vals, 0),
            excluded_from_build: bool_at(vals, 1),
            tool,
        };
        assert(r.field_values() =~= field_values_view(vals@));
        r
    }
}

/// The tool settings of a file configuration.
#[derive(Debug)]
pub struct Tool {
    pub name: String,
    pub use_precompiled_header: Option<u8>,
    pub additional_options: Option<String>,
    pub basic_runtime_checks: Option<u8>,
    pub disable_specific_warnings: Option<Vec<String>>,
    pub generate_preprocessed_file: Option<u8>,
    pub object_file: Option<String>,
    pub optimization: Option<u8>,
    pub precompiled_header_file: Option<String>,
    pub precompiled_header_through: Option<String>,
    pub preprocessor_definitions: Option<Vec<String>>,
    pub show_includes: Option<bool>,
    pub warning_level: Option<u8>,
    pub xml_documentation_file_name: Option<String>,
}

impl Tool {
    /// The attributes that the element takes, in the order they are read.
    pub open spec fn schema() -> Seq<FieldSpec> {
        seq![
            FieldSpec { name: "Name"@, kind: FieldKind::Text, required: true },
            FieldSpec { name: "UsePrecompiledHeader"@, kind: FieldKind::U8, required: false },
            FieldSpec { name: "AdditionalOptions"@, kind: FieldKind::Text, required: false },
            FieldSpec { name: "BasicRuntimeChecks"@, kind: FieldKind::U8, required: false },
            FieldSpec { name: "DisableSpecificWarnings"@, kind: FieldKind::List, required: false },
            FieldSpec { name: "GeneratePreprocessedFile"@, kind: FieldKind::U8, required: false },
            FieldSpec { name: "ObjectFile"@, kind: FieldKind::Text, required: false },
            FieldSpec { name: "Optimization"@, kind: FieldKind::U8, required: false },
            FieldSpec { name: "PrecompiledHeaderFile"@, kind: FieldKind::Text, required: false },
            FieldSpec { name: "PrecompiledHeaderThrough"@, kind: FieldKind::Text, required: false },
            FieldSpec { name: "PreprocessorDefinitions"@, kind: FieldKind::List, required: false },
            FieldSpec { name: "ShowIncludes"@, kind: FieldKind::Bool, required: false },
            FieldSpec { name: "WarningLevel"@, kind: FieldKind::U8, required: false },
            FieldSpec { name: "XMLDocumentationFileName"@, kind: FieldKind::Text, required: false },
        ]
    }

    /// The fields read from attributes, in the order of [`Self::schema`].
    pub open spec fn field_values(&self) -> Seq<FieldValueModel> {
        seq![
            FieldValueModel::Text(Some(self.name@)),
            FieldValueModel::U8(self.use_precompiled_header),
            FieldValueModel::Text(self.additional_options.deep_view()),
            FieldValueModel::U8(self.basic_runtime_checks),
            FieldValueModel::List(self.disable_specific_warnings.deep_view()),
            FieldValueModel::U8(self.generate_preprocessed_file),
            FieldValueModel::Text(self.object_file.deep_view()),
            FieldValueModel::U8(self.optimization),
            FieldValueModel::Text(self.precompiled_header_file.deep_view()),
            FieldValueModel::Text(self.precompiled_header_through.deep_view()),
            FieldValueModel::List(self.preprocessor_definitions.deep_view()),
            FieldValueModel::Bool(self.show_includes),
            FieldValueModel::U8(self.warning_level),
            FieldValueModel::Text(self.xml_documentation_file_name.deep_view()),
        ]
    }

    fn schema_descs() -> (r: [FieldDesc; 14])
        ensures
            field_specs(r@) == Self::schema(),
    {
        let r = [
            FieldDesc { name: "Name", kind: FieldKind::Text, required: true },
            FieldDesc { name: "UsePrecompiledHeader", kind: FieldKind::U8, required: false },
            FieldDesc { name: "AdditionalOptions", kind: FieldKind::Text, required: false },
            FieldDesc { name: "BasicRuntimeChecks", kind: FieldKind::U8, required: false },
            FieldDesc { name: "DisableSpecificWarnings", kind: FieldKind::List, required: false },
            FieldDesc { name: "GeneratePreprocessedFile", kind: FieldKind::U8, required: false },
            FieldDesc { name: "ObjectFile", kind: FieldKind::Text, required: false },
            FieldDesc { name: "Optimization", kind: FieldKind::U8, required: false },
            FieldDesc { name: "PrecompiledHeaderFile", kind: FieldKind::Text, required: false },
            FieldDesc { name: "PrecompiledHeaderThrough", kind: FieldKind::Text, required: false },
            FieldDesc { name: "PreprocessorDefinitions", kind: FieldKind::List, required: false },
            FieldDesc { name: "ShowIncludes", kind: FieldKind::Bool, required: false },
            FieldDesc { name: "WarningLevel", kind: FieldKind::U8, required: false },
            FieldDesc { name: "XMLDocumentationFileName", kind: FieldKind::Text, required: false },
        ];
        assert(field_specs(r@) =~= Self::schema());
        r
    }

    fn from_values(vals: &Vec<FieldValue>) -> (r: Self)
        requires
            vals@.len() == 14,
            forall|k: int|
                0 <= k < 14 ==> value_fits(
                    #[trigger] vals@[k]@,
                    Self::schema()[k].kind,
                    Self::schema()[k].required,
                ),
        ensures
            r.field_values() == field_values_view(vals@),
    {
        let r = Tool {
            name: required_text_at(vals, 0),
            use_precompiled_header: u8_at(vals, 1),
            additional_options: text_at(vals, 2),
            basic_runtime_checks: u8_at(vals, 3),
            disable_specific_warnings: list_at(vals, 4),
            generate_preprocessed_file: u8_at(vals, 5),
            object_file: text_at(vals, 6),
            optimization: u8_at(vals, 7),
            precompiled_header_file: text_at(vals, 8),
            precompiled_header_through: text_at(vals, 9),
            preprocessor_definitions: list_at(vals, 10),
            show_includes: bool_at(vals, 11),
            warning_level: u8_at(vals, 12),
            xml_documentation_file_name: text_at(vals, 13),
        };
        assert(r.field_values() =~= field_values_view(vals@));
        r
    }
}

/// What a file configuration holds.
pub struct FileConfigurationModel {
    pub fields: Seq<FieldValueModel>,
    pub tool: Seq<FieldValueModel>,
}

/// What a file holds.
pub struct FileModel {
    pub fields: Seq<FieldValueModel>,
    pub file_configurations: Seq<FileConfigurationModel>,
    pub files: Seq<FileModel>,
}

/// What a folder of the file tree holds.
pub struct FilterModel {
    pub fields: Seq<FieldValueModel>,
    pub filters: Seq<FilterModel>,
    pub files: Seq<FileModel>,
}

/// What the file tree holds.
pub struct FilesModel {
    pub filters: Seq<FilterModel>,
    pub files: Seq<FileModel>,
}

/// What a configuration holds.
pub struct ConfigurationModel {
    pub fields: Seq<FieldValueModel>,
    pub compiler_tool: Option<Seq<FieldValueModel>>,
    pub lib_tool: Option<Seq<FieldValueModel>>,
    pub linker_tool: Option<Seq<FieldValueModel>>,
}

/// What a project holds.
pub struct VCProjectModel {
    pub fields: Seq<FieldValueModel>,
    pub platforms: Seq<Seq<FieldValueModel>>,
    pub configurations: Seq<ConfigurationModel>,
    pub files: FilesModel,
}

impl Platform {
    pub open spec fn model(&self) -> Seq<FieldValueModel> {
        self.field_values()
    }
}

impl FileConfiguration {
    pub open spec fn model(&self) -> FileConfigurationModel {
        FileConfigurationModel { fields: self.field_values(), tool: self.tool.field_values() }
    }
}

impl File {
    pub open spec fn model(&self) -> FileModel
        decreases self,
    {
        FileModel {
            fields: self.field_values(),
            file_configurations: self.file_configurations@.map_values(
                |c: FileConfiguration| c.model(),
            ),
            files: Self::models(self.files@),
        }
    }

    pub open spec fn models(s: Seq<File>) -> Seq<FileModel>
        decreases s,
    {
        if s.len() == 0 {
            Seq::empty()
        } else {
            Self::models(s.drop_last()).push(s.last().model())
        }
    }
}

impl Filter {
    pub open spec fn model(&self) -> FilterModel
        decreases self,
    {
        FilterModel {
            fields: self.field_values(),
            filters: Self::models(self.filters@),
            files: File::models(self.files@),
        }
    }

    pub open spec fn models(s: Seq<Filter>) -> Seq<FilterModel>
        decreases s,
    {
        if s.len() == 0 {
            Seq::empty()
        } else {
            Self::models(s.drop_last()).push(s.last().model())
        }
    }
}

proof fn lemma_filter_models_push(s: Seq<Filter>, f: Filter)
    ensures
        Filter::models(s.push(f)) == Filter::models(s).push(f.model()),
{
    assert(s.push(f).drop_last() =~= s);
}

proof fn lemma_file_models_push(s: Seq<File>, f: File)
    ensures
        File::models(s.push(f)) == File::models(s).push(f.model()),
{
    assert(s.push(f).drop_last() =~= s);
}

/// The file tree of a project, with its top-level folders and files.
#[derive(Debug)]
pub struct Files {
    pub filters: Vec<Filter>,
    pub files: Vec<File>,
}

impl Files {
    pub open spec fn model(&self) -> FilesModel {
        FilesModel { filters: Filter::models(self.filters@), files: File::models(self.files@) }
    }

    /// The empty file tree.
    pub fn new() -> (r: Files)
        ensures
            r.model() == empty_files(),
    {
        let r = Files { filters: Vec::new(), files: Vec::new() };
        assert(r.filters@ =~= Seq::<Filter>::empty());
        assert(r.files@ =~= Seq::<File>::empty());
        r
    }
}

impl Default for Files {
    fn default() -> (r: Files)
        ensures
            r.model() == empty_files(),
    {
        Files::new()
    }
}

pub open spec fn tool_model<T>(t: Option<T>, f: spec_fn(T) -> Seq<FieldValueModel>) -> Option<Seq<FieldValueModel>> {
    match t {
        Some(x) => Some(f(x)),
        None => None,
    }
}

impl Configuration {
    pub open spec fn model(&self) -> ConfigurationModel {
        ConfigurationModel {
            fields: self.field_values(),
            compiler_tool: tool_model(self.compiler_tool, |c: CompilerTool| c.field_values()),
            lib_tool: tool_model(self.lib_tool, |c: LibTool| c.field_values()),
            linker_tool: tool_model(self.linker_tool, |c: LinkerTool| c.field_values()),
        }
    }
}

impl VCProject {
    pub open spec fn model(&self) -> VCProjectModel {
        VCProjectModel {
            fields: self.field_values(),
            platforms: self.platforms@.map_values(|p: Platform| p.model()),
            configurations: self.configurations@.map_values(|c: Configuration| c.model()),
            files: self.files.model(),
        }
    }
}

pub open spec fn empty_files() -> FilesModel {
    FilesModel { filters: Seq::empty(), files: Seq::empty() }
}

pub open spec fn spec_platform(d: Seq<NodeView>, i: int) -> Result<Seq<FieldValueModel>, XmlErrorModel> {
    spec_read_fields(d[i].attributes, "Platform"@, Platform::schema(), Seq::empty())
}

pub open spec fn spec_tool(d: Seq<NodeView>, i: int) -> Result<Seq<FieldValueModel>, XmlErrorModel> {
    spec_read_fields(d[i].attributes, "Tool"@, Tool::schema(), Seq::empty())
}

pub open spec fn spec_compiler_tool(d: Seq<NodeView>, i: int) -> Result<
    Seq<FieldValueModel>,
    XmlErrorModel,
> {
    spec_read_fields(d[i].attributes, "VCCLCompilerTool"@, CompilerTool::schema(), seq!["Name"@])
}

pub open spec fn spec_lib_tool(d: Seq<NodeView>, i: int) -> Result<Seq<FieldValueModel>, XmlErrorModel> {
    spec_read_fields(d[i].attributes, "VCLibrarianTool"@, LibTool::schema(), seq!["Name"@])
}

pub open spec fn spec_linker_tool(d: Seq<NodeView>, i: int) -> Result<Seq<FieldValueModel>, XmlErrorModel> {
    spec_read_fields(d[i].attributes, "VCLinkerTool"@, LinkerTool::schema(), seq!["Name"@])
}

/// A file configuration: its attributes and its first `Tool` child, which must be there.
pub open spec fn spec_file_configuration(d: Seq<NodeView>, i: int) -> Result<
    FileConfigurationModel,
    XmlErrorModel,
> {
    match spec_read_fields(d[i].attributes, "FileConfiguration"@, FileConfiguration::schema(), Seq::empty()) {
        Err(e) => Err(e),
        Ok(vals) => match first_child_from(d, i, "Tool"@, i + 1) {
            None => Err(XmlErrorModel::MissingChild { parent: "FileConfiguration"@, child: "Tool"@ }),
            Some(j) => match spec_tool(d, j) {
                Err(e) => Err(e),
                Ok(t) => Ok(FileConfigurationModel { fields: vals, tool: t }),
            },
        },
    }
}

/// The file configurations and nested files among the element children of
/// file `i` from index `from` on; `Tool` children are skipped and any other
/// child is an error.
pub open spec fn file_scan(d: Seq<NodeView>, i: int, from: int) -> Result<
    (Seq<FileConfigurationModel>, Seq<FileModel>),
    XmlErrorModel,
>
    decreases d.len() - i, d.len() - from,
{
    if i < 0 || from <= i || from >= d.len() {
        Ok((Seq::empty(), Seq::empty()))
    } else if !is_child_element(d, i, from) {
        file_scan(d, i, from + 1)
    } else if d[from].name == "FileConfiguration"@ {
        match spec_file_configuration(d, from) {
            Err(e) => Err(e),
            Ok(c) => match file_scan(d, i, from + 1) {
                Err(e) => Err(e),
                Ok(rest) => Ok((seq![c] + rest.0, rest.1)),
            },
        }
    } else if d[from].name == "File"@ {
        match spec_file(d, from) {
            Err(e) => Err(e),
            Ok(f) => match file_scan(d, i, from + 1) {
                Err(e) => Err(e),
                Ok(rest) => Ok((rest.0, seq![f] + rest.1)),
            },
        }
    } else if d[from].name == "Tool"@ {
        file_scan(d, i, from + 1)
    } else {
        Err(XmlErrorModel::UnexpectedTag { parent: "File"@, tag: d[from].name })
    }
}

/// A file: its attributes, then its file configurations and nested files in order.
pub open spec fn spec_file(d: Seq<NodeView>, i: int) -> Result<FileModel, XmlErrorModel>
    decreases d.len() - i, d.len() - i,
{
    if i < 0 || i >= d.len() {
        Err(XmlErrorModel::NoRootElement)
    } else {
        match spec_read_fields(d[i].attributes, "File"@, File::schema(), Seq::empty()) {
            Err(e) => Err(e),
            Ok(vals) => match file_scan(d, i, i + 1) {
                Err(e) => Err(e),
                Ok(t) => Ok(FileModel { fields: vals, file_configurations: t.0, files: t.1 }),
            },
        }
    }
}

/// The folders and files among the element children of `i` from index `from`
/// on, in order; any other child is an error naming `parent`.
pub open spec fn tree_scan(d: Seq<NodeView>, i: int, from: int, parent: Seq<char>) -> Result<
    (Seq<FilterModel>, Seq<FileModel>),
    XmlErrorModel,
>
    decreases d.len() - i, d.len() - from,
{
    if i < 0 || from <= i || from >= d.len() {
        Ok((Seq::empty(), Seq::empty()))
    } else if !is_child_element(d, i, from) {
        tree_scan(d, i, from + 1, parent)
    } else if d[from].name == "Filter"@ {
        match spec_filter(d, from) {
            Err(e) => Err(e),
            Ok(f) => match tree_scan(d, i, from + 1, parent) {
                Err(e) => Err(e),
                Ok(rest) => Ok((seq![f] + rest.0, rest.1)),
            },
        }
    } else if d[from].name == "File"@ {
        match spec_file(d, from) {
            Err(e) => Err(e),
            Ok(f) => match tree_scan(d, i, from + 1, parent) {
                Err(e) => Err(e),
                Ok(rest) => Ok((rest.0, seq![f] + rest.1)),
            },
        }
    } else {
        Err(XmlErrorModel::UnexpectedTag { parent: parent, tag: d[from].name })
    }
}

/// A folder: its attributes and the folders and files among its children.
pub open spec fn spec_filter(d: Seq<NodeView>, i: int) -> Result<FilterModel, XmlErrorModel>
    decreases d.len() - i, d.len() - i,
{
    if i < 0 || i >= d.len() {
        Err(XmlErrorModel::NoRootElement)
    } else {
        match spec_read_fields(d[i].attributes, "Filter"@, Filter::schema(), Seq::empty()) {
            Err(e) => Err(e),
            Ok(vals) => match tree_scan(d, i, i + 1, "Filter"@) {
                Err(e) => Err(e),
                Ok(t) => Ok(FilterModel { fields: vals, filters: t.0, files: t.1 }),
            },
        }
    }
}

pub open spec fn spec_files(d: Seq<NodeView>, i: int) -> Result<FilesModel, XmlErrorModel> {
    match tree_scan(d, i, i + 1, "Files"@) {
        Err(e) => Err(e),
        Ok(t) => Ok(FilesModel { filters: t.0, files: t.1 }),
    }
}

pub type ToolsModel = (Option<Seq<FieldValueModel>>, Option<Seq<FieldValueModel>>, Option<Seq<FieldValueModel>>);

/// The compiler, librarian and linker tools among the `Tool` children of `i`
/// from index `from` on, told apart by their `Name`; a later one replaces an earlier one.
pub open spec fn tools_scan(d: Seq<NodeView>, i: int, from: int) -> Result<ToolsModel, XmlErrorModel>
    decreases d.len() - from,
{
    if from <= i || from >= d.len() {
        Ok((None, None, None))
    } else if !(is_child_element(d, i, from) && d[from].name == "Tool"@) {
        tools_scan(d, i, from + 1)
    } else if first_value(d[from].attributes, "Name"@) == Some("VCCLCompilerTool"@) {
        match spec_compiler_tool(d, from) {
            Err(e) => Err(e),
            Ok(c) => match tools_scan(d, i, from + 1) {
                Err(e) => Err(e),
                Ok(rest) => Ok((if rest.0 is Some { rest.0 } else { Some(c) }, rest.1, rest.2)),
            },
        }
    } else if first_value(d[from].attributes, "Name"@) == Some("VCLibrarianTool"@) {
        match spec_lib_tool(d, from) {
            Err(e) => Err(e),
            Ok(c) => match tools_scan(d, i, from + 1) {
                Err(e) => Err(e),
                Ok(rest) => Ok((rest.0, if rest.1 is Some { rest.1 } else { Some(c) }, rest.2)),
            },
        }
    } else if first_value(d[from].attributes, "Name"@) == Some("VCLinkerTool"@) {
        match spec_linker_tool(d, from) {
            Err(e) => Err(e),
            Ok(c) => match tools_scan(d, i, from + 1) {
                Err(e) => Err(e),
                Ok(rest) => Ok((rest.0, rest.1, if rest.2 is Some { rest.2 } else { Some(c) })),
            },
        }
    } else {
        tools_scan(d, i, from + 1)
    }
}

/// A configuration: its attributes and whichever of its three tools are there.
pub open spec fn spec_configuration(d: Seq<NodeView>, i: int) -> Result<ConfigurationModel, XmlErrorModel> {
    match spec_read_fields(d[i].attributes, "Configuration"@, Configuration::schema(), Seq::empty()) {
        Err(e) => Err(e),
        Ok(vals) => match tools_scan(d, i, i + 1) {
            Err(e) => Err(e),
            Ok(t) => Ok(
                ConfigurationModel { fields: vals, compiler_tool: t.0, lib_tool: t.1, linker_tool: t.2 },
            ),
        },
    }
}

/// The platforms among the `Platform` children of `i` from index `from` on.
pub open spec fn platforms_scan(d: Seq<NodeView>, i: int, from: int) -> Result<
    Seq<Seq<FieldValueModel>>,
    XmlErrorModel,
>
    decreases d.len() - from,
{
    if from <= i || from >= d.len() {
        Ok(Seq::empty())
    } else if !(is_child_element(d, i, from) && d[from].name == "Platform"@) {
        platforms_scan(d, i, from + 1)
    } else {
        match spec_platform(d, from) {
            Err(e) => Err(e),
            Ok(p) => match platforms_scan(d, i, from + 1) {
                Err(e) => Err(e),
                Ok(rest) => Ok(seq![p] + rest),
            },
        }
    }
}

/// The configurations among the `Configuration` children of `i` from index `from` on.
pub open spec fn configurations_scan(d: Seq<NodeView>, i: int, from: int) -> Result<
    Seq<ConfigurationModel>,
    XmlErrorModel,
>
    decreases d.len() - from,
{
    if from <= i || from >= d.len() {
        Ok(Seq::empty())
    } else if !(is_child_element(d, i, from) && d[from].name == "Configuration"@) {
        configurations_scan(d, i, from + 1)
    } else {
        match spec_configuration(d, from) {
            Err(e) => Err(e),
            Ok(c) => match configurations_scan(d, i, from + 1) {
                Err(e) => Err(e),
                Ok(rest) => Ok(seq![c] + rest),
            },
        }
    }
}

/// The sections whose content is not read.
pub open spec fn is_skipped_section(name: Seq<char>) -> bool {
    name == "References"@ || name == "Globals"@
}

/// The platforms, configurations and file tree among the children of the root
/// `r` from index `from` on; a later `Files` replaces an earlier one.
pub open spec fn project_scan(d: Seq<NodeView>, r: int, from: int) -> Result<
    (Seq<Seq<FieldValueModel>>, Seq<ConfigurationModel>, Option<FilesModel>),
    XmlErrorModel,
>
    decreases d.len() - from,
{
    if from <= r || from >= d.len() {
        Ok((Seq::empty(), Seq::empty(), None))
    } else if !is_child_element(d, r, from) {
        project_scan(d, r, from + 1)
    } else if d[from].name == "Platforms"@ {
        match platforms_scan(d, from, from + 1) {
            Err(e) => Err(e),
            Ok(ps) => match project_scan(d, r, from + 1) {
                Err(e) => Err(e),
                Ok(rest) => Ok((ps + rest.0, rest.1, rest.2)),
            },
        }
    } else if d[from].name == "Configurations"@ {
        match configurations_scan(d, from, from + 1) {
            Err(e) => Err(e),
            Ok(cs) => match project_scan(d, r, from + 1) {
                Err(e) => Err(e),
                Ok(rest) => Ok((rest.0, cs + rest.1, rest.2)),
            },
        }
    } else if d[from].name == "Files"@ {
        match spec_files(d, from) {
            Err(e) => Err(e),
            Ok(f) => match project_scan(d, r, from + 1) {
                Err(e) => Err(e),
                Ok(rest) => Ok((rest.0, rest.1, if rest.2 is Some { rest.2 } else { Some(f) })),
            },
        }
    } else if d[from].name == "ToolFiles"@ {
        if children_of(d, from).len() > 0 {
            Err(XmlErrorModel::ExpectedEmpty { tag: d[from].name })
        } else {
            project_scan(d, r, from + 1)
        }
    } else if is_skipped_section(d[from].name) || d[from].name.len() == 0 {
        project_scan(d, r, from + 1)
    } else {
        Err(XmlErrorModel::UnexpectedTag { parent: "VisualStudioProject"@, tag: d[from].name })
    }
}

/// A project read from the nodes `d` of its XML document: its
/// `VisualStudioProject` root element, the root's attributes, then its children.
pub open spec fn spec_project_nodes(d: Seq<NodeView>) -> Result<VCProjectModel, XmlErrorModel> {
    match root_element(d) {
        None => Err(XmlErrorModel::NoRootElement),
        Some(r) => if d[r].name != "VisualStudioProject"@ {
            Err(XmlErrorModel::UnexpectedRoot)
        } else {
            match spec_read_fields(d[r].attributes, "VCProject"@, VCProject::schema(), Seq::empty()) {
                Err(e) => Err(e),
                Ok(vals) => match project_scan(d, r, r + 1) {
                    Err(e) => Err(e),
                    Ok(t) => Ok(
                        VCProjectModel {
                            fields: vals,
                            platforms: t.0,
                            configurations: t.1,
                            files: match t.2 {
                                Some(f) => f,
                                None => empty_files(),
                            },
                        },
                    ),
                },
            }
        },
    }
}

/// A project file: the XML document, its `VisualStudioProject` root element,
/// the root's attributes, then its children.
pub open spec fn spec_project(input: Seq<char>) -> Result<VCProjectModel, XmlErrorModel> {
    match spec_parse_document(input) {
        Err(e) => Err(e),
        Ok(d) => spec_project_nodes(d),
    }
}

impl Platform {
    /// Reads the `Platform` element `node`: its `Name`.
    pub fn parse_xml(doc: &XmlDocument, node: usize) -> (r: Result<Self, XmlError>)
        requires
            node < doc@.len(),
        ensures
            match r {
                Ok(x) => spec_platform(doc@, node as int) == Ok::<Seq<FieldValueModel>, XmlErrorModel>(
                    x.field_values(),
                ),
                Err(e) => spec_platform(doc@, node as int) == Err::<Seq<FieldValueModel>, XmlErrorModel>(
                    e@,
                ),
            },
    {
        let schema = Self::schema_descs();
        let ignore: [&str; 0] = [];
        assert(str_views(ignore@) =~= Seq::<Seq<char>>::empty());
        assert(doc@[node as int] == doc.nodes@[node as int]@);
        match read_fields(&doc.nodes[node], "Platform", &schema, &ignore) {
            Ok(vals) => {
                proof {
                    lemma_fields_fit(doc@[node as int].attributes, "Platform"@, Self::schema(), str_views(ignore@), vals@);
                }
                Ok(Self::from_values(&vals))
            },
            Err(e) => Err(e),
        }
    }
}


impl Tool {
    /// Reads the `Tool` element `node` of a file configuration.
    pub fn parse_xml(doc: &XmlDocument, node: usize) -> (r: Result<Self, XmlError>)
        requires
            node < doc@.len(),
        ensures
            match r {
                Ok(x) => spec_tool(doc@, node as int) == Ok::<Seq<FieldValueModel>, XmlErrorModel>(
                    x.field_values(),
                ),
                Err(e) => spec_tool(doc@, node as int) == Err::<Seq<FieldValueModel>, XmlErrorModel>(
                    e@,
                ),
            },
    {
        let schema = Self::schema_descs();
        let ignore: [&str; 0] = [];
        assert(str_views(ignore@) =~= Seq::<Seq<char>>::empty());
        assert(doc@[node as int] == doc.nodes@[node as int]@);
        match read_fields(&doc.nodes[node], "Tool", &schema, &ignore) {
            Ok(vals) => {
                proof {
                    lemma_fields_fit(doc@[node as int].attributes, "Tool"@, Self::schema(), str_views(ignore@), vals@);
                }
                Ok(Self::from_values(&vals))
            },
            Err(e) => Err(e),
        }
    }
}


impl CompilerTool {
    /// Reads the `VCCLCompilerTool` element `node`.
    pub fn parse_xml(doc: &XmlDocument, node: usize) -> (r: Result<Self, XmlError>)
        requires
            node < doc@.len(),
        ensures
            match r {
                Ok(x) => spec_compiler_tool(doc@, node as int) == Ok::<Seq<FieldValueModel>, XmlErrorModel>(
                    x.field_values(),
                ),
                Err(e) => spec_compiler_tool(doc@, node as int) == Err::<Seq<FieldValueModel>, XmlErrorModel>(
                    e@,
                ),
            },
    {
        let schema = Self::schema_descs();
        let ignore: [&str; 1] = ["Name"];
        assert(str_views(ignore@) =~= seq!["Name"@]);
        assert(doc@[node as int] == doc.nodes@[node as int]@);
        match read_fields(&doc.nodes[node], "VCCLCompilerTool", &schema, &ignore) {
            Ok(vals) => {
                proof {
                    lemma_fields_fit(doc@[node as int].attributes, "VCCLCompilerTool"@, Self::schema(), str_views(ignore@), vals@);
                }
                Ok(Self::from_values(&vals))
            },
            Err(e) => Err(e),
        }
    }
}


impl LinkerTool {
    /// Reads the `VCLinkerTool` element `node`.
    pub fn parse_xml(doc: &XmlDocument, node: usize) -> (r: Result<Self, XmlError>)
        requires
            node < doc@.len(),
        ensures
            match r {
                Ok(x) => spec_linker_tool(doc@, node as int) == Ok::<Seq<FieldValueModel>, XmlErrorModel>(
                    x.field_values(),
                ),
                Err(e) => spec_linker_tool(doc@, node as int) == Err::<Seq<FieldValueModel>, XmlErrorModel>(
                    e@,
                ),
            },
    {
        let schema = Self::schema_descs();
        let ignore: [&str; 1] = ["Name"];
        assert(str_views(ignore@) =~= seq!["Name"@]);
        assert(doc@[node as int] == doc.nodes@[node as int]@);
        match read_fields(&doc.nodes[node], "VCLinkerTool", &schema, &ignore) {
            Ok(vals) => {
                proof {
                    lemma_fields_fit(doc@[node as int].attributes, "VCLinkerTool"@, Self::schema(), str_views(ignore@), vals@);
                }
                Ok(Self::from_values(&vals))
            },
            Err(e) => Err(e),
        }
    }
}


impl LibTool {
    /// Reads the `VCLibrarianTool` element `node`.
    pub fn parse_xml(doc: &XmlDocument, node: usize) -> (r: Result<Self, XmlError>)
        requires
            node < doc@.len(),
        ensures
            match r {
                Ok(x) => spec_lib_tool(doc@, node as int) == Ok::<Seq<FieldValueModel>, XmlErrorModel>(
                    x.field_values(),
                ),
                Err(e) => spec_lib_tool(doc@, node as int) == Err::<Seq<FieldValueModel>, XmlErrorModel>(
                    e@,
                ),
            },
    {
        let schema = Self::schema_descs();
        let ignore: [&str; 1] = ["Name"];
        assert(str_views(ignore@) =~= seq!["Name"@]);
        assert(doc@[node as int] == doc.nodes@[node as int]@);
        match read_fields(&doc.nodes[node], "VCLibrarianTool", &schema, &ignore) {
            Ok(vals) => {
                proof {
                    lemma_fields_fit(doc@[node as int].attributes, "VCLibrarianTool"@, Self::schema(), str_views(ignore@), vals@);
                }
                Ok(Self::from_values(&vals))
            },
            Err(e) => Err(e),
        }
    }
}


impl FileConfiguration {
    /// Reads the `FileConfiguration` element `node`: its attributes and its first `Tool` child.
    pub fn parse_xml(doc: &XmlDocument, node: usize) -> (r: Result<Self, XmlError>)
        requires
            node < doc@.len(),
        ensures
            match r {
                Ok(x) => spec_file_configuration(doc@, node as int) == Ok::<
                    FileConfigurationModel,
                    XmlErrorModel,
                >(x.model()),
                Err(e) => spec_file_configuration(doc@, node as int) == Err::<
                    FileConfigurationModel,
                    XmlErrorModel,
                >(e@),
            },
    {
        let schema = Self::schema_descs();
        let ignore: [&str; 0] = [];
        assert(str_views(ignore@) =~= Seq::<Seq<char>>::empty());
        assert(doc@[node as int] == doc.nodes@[node as int]@);
        let vals = match read_fields(&doc.nodes[node], "FileConfiguration", &schema, &ignore) {
            Ok(v) => v,
            Err(e) => return Err(e),
        };
        proof {
            lemma_fields_fit(doc@[node as int].attributes, "FileConfiguration"@, Self::schema(), str_views(ignore@), vals@);
        }
        let tool_node = match first_child_named(doc, node, "Tool") {
            Some(j) => j,
            None => {
                return Err(XmlError::MissingChild {
                    parent: "FileConfiguration".to_owned(),
                    child: "Tool".to_owned(),
                })
            },
        };
        let tool = match Tool::parse_xml(doc, tool_node) {
            Ok(t) => t,
            Err(e) => return Err(e),
        };
        Ok(Self::from_values(&vals, tool))
    }
}

pub open spec fn file_configuration_models(s: Seq<FileConfiguration>) -> Seq<FileConfigurationModel> {
    s.map_values(|c: FileConfiguration| c.model())
}

/// Prepends the file configurations and files already read to the rest of a scan.
pub open spec fn prepend_file(
    acc: (Seq<FileConfigurationModel>, Seq<FileModel>),
    rest: Result<(Seq<FileConfigurationModel>, Seq<FileModel>), XmlErrorModel>,
) -> Result<(Seq<FileConfigurationModel>, Seq<FileModel>), XmlErrorModel> {
    match rest {
        Err(e) => Err(e),
        Ok(r) => Ok((acc.0 + r.0, acc.1 + r.1)),
    }
}

impl File {
    /// Reads the `File` element `node`: its attributes, then its file
    /// configurations and nested files, in order.
    pub fn parse_xml(doc: &XmlDocument, node: usize) -> (r: Result<Self, XmlError>)
        requires
            node < doc@.len(),
        ensures
            match r {
                Ok(x) => spec_file(doc@, node as int) == Ok::<FileModel, XmlErrorModel>(x.model()),
                Err(e) => spec_file(doc@, node as int) == Err::<FileModel, XmlErrorModel>(e@),
            },
        decreases doc@.len() - node,
    {
        let schema = Self::schema_descs();
        let ignore: [&str; 0] = [];
        assert(str_views(ignore@) =~= Seq::<Seq<char>>::empty());
        assert(doc@[node as int] == doc.nodes@[node as int]@);
        let vals = match read_fields(&doc.nodes[node], "File", &schema, &ignore) {
            Ok(v) => v,
            Err(e) => return Err(e),
        };
        proof {
            lemma_fields_fit(doc@[node as int].attributes, "File"@, Self::schema(), str_views(ignore@), vals@);
        }
        let n: usize = doc.nodes.len();
        assert(doc@.len() == n);
        let mut confs: Vec<FileConfiguration> = Vec::new();
        let mut files: Vec<File> = Vec::new();
        let mut j: usize = node + 1;
        assert(file_configuration_models(confs@) =~= Seq::<FileConfigurationModel>::empty());
        assert(File::models(files@) =~= Seq::<FileModel>::empty());
        while j < n
            invariant
                n == doc@.len(),
                node < j,
                spec_read_fields(doc@[node as int].attributes, "File"@, File::schema(), Seq::empty())
                    == Ok::<Seq<FieldValueModel>, XmlErrorModel>(field_values_view(vals@)),
                file_scan(doc@, node as int, node + 1) == prepend_file(
                    (file_configuration_models(confs@), File::models(files@)),
                    file_scan(doc@, node as int, j as int),
                ),
            decreases n - j,
        {
            if is_child(doc, node, j) {
                let ghost rest = file_scan(doc@, node as int, j + 1);
                if name_is(doc, j, "FileConfiguration") {
                    match FileConfiguration::parse_xml(doc, j) {
                        Err(e) => return Err(e),
                        Ok(c) => {
                            let ghost before = file_configuration_models(confs@);
                            confs.push(c);
                            assert(file_configuration_models(confs@) =~= before.push(c.model()));
                            assert(rest is Ok ==> before + (seq![c.model()] + rest->Ok_0.0)
                                =~= file_configuration_models(confs@) + rest->Ok_0.0);
                        },
                    }
                } else if name_is(doc, j, "File") {
                    match File::parse_xml(doc, j) {
                        Err(e) => return Err(e),
                        Ok(f) => {
                            let ghost before = File::models(files@);
                            proof {
                                lemma_file_models_push(files@, f);
                            }
                            files.push(f);
                            assert(rest is Ok ==> before + (seq![f.model()] + rest->Ok_0.1)
                                =~= File::models(files@) + rest->Ok_0.1);
                        },
                    }
                } else if !name_is(doc, j, "Tool") {
                    assert(doc@[j as int] == doc.nodes@[j as int]@);
                    return Err(XmlError::UnexpectedTag {
                        parent: "File".to_owned(),
                        tag: doc.nodes[j].name.clone(),
                    });
                }
            }
            j = j + 1;
        }
        assert(file_configuration_models(confs@) + Seq::<FileConfigurationModel>::empty()
            =~= file_configuration_models(confs@));
        assert(File::models(files@) + Seq::<FileModel>::empty() =~= File::models(files@));
        Ok(Self::from_values(&vals, confs, files))
    }
}

/// Prepends the folders and files already read to the rest of a scan.
pub open spec fn prepend_tree(
    acc: (Seq<FilterModel>, Seq<FileModel>),
    rest: Result<(Seq<FilterModel>, Seq<FileModel>), XmlErrorModel>,
) -> Result<(Seq<FilterModel>, Seq<FileModel>), XmlErrorModel> {
    match rest {
        Err(e) => Err(e),
        Ok(r) => Ok((acc.0 + r.0, acc.1 + r.1)),
    }
}

/// Reads the folders and files among the element children of `node`; any other
/// child is an error naming `parent`.
fn parse_tree(doc: &XmlDocument, node: usize, parent: &str) -> (r: Result<
    (Vec<Filter>, Vec<File>),
    XmlError,
>)
    requires
        node < doc@.len(),
    ensures
        match r {
            Ok(t) => tree_scan(doc@, node as int, node + 1, parent@) == Ok::<
                (Seq<FilterModel>, Seq<FileModel>),
                XmlErrorModel,
            >((Filter::models(t.0@), File::models(t.1@))),
            Err(e) => tree_scan(doc@, node as int, node + 1, parent@) == Err::<
                (Seq<FilterModel>, Seq<FileModel>),
                XmlErrorModel,
            >(e@),
        },
    decreases doc@.len() - node, 0int,
{
    let n: usize = doc.nodes.len();
    assert(doc@.len() == n);
    let mut filters: Vec<Filter> = Vec::new();
    let mut files: Vec<File> = Vec::new();
    let mut j: usize = node + 1;
    assert(File::models(files@) =~= Seq::<FileModel>::empty());
    assert(Filter::models(filters@) =~= Seq::<FilterModel>::empty());
    while j < n
        invariant
            n == doc@.len(),
            node < j,
            tree_scan(doc@, node as int, node + 1, parent@) == prepend_tree(
                (Filter::models(filters@), File::models(files@)),
                tree_scan(doc@, node as int, j as int, parent@),
            ),
        decreases n - j,
    {
        if is_child(doc, node, j) {
            let ghost rest = tree_scan(doc@, node as int, j + 1, parent@);
            if name_is(doc, j, "Filter") {
                match Filter::parse_xml(doc, j) {
                    Err(e) => return Err(e),
                    Ok(f) => {
                        let ghost before = Filter::models(filters@);
                        proof {
                            lemma_filter_models_push(filters@, f);
                        }
                        filters.push(f);
                        assert(rest is Ok ==> before + (seq![f.model()] + rest->Ok_0.0) =~= Filter::models(filters@)
                            + rest->Ok_0.0);
                    },
                }
            } else if name_is(doc, j, "File") {
                match File::parse_xml(doc, j) {
                    Err(e) => return Err(e),
                    Ok(f) => {
                        let ghost before = File::models(files@);
                        proof {
                            lemma_file_models_push(files@, f);
                        }
                        files.push(f);
                        assert(rest is Ok ==> before + (seq![f.model()] + rest->Ok_0.1) =~= File::models(files@)
                            + rest->Ok_0.1);
                    },
                }
            } else {
                assert(doc@[j as int] == doc.nodes@[j as int]@);
                return Err(XmlError::UnexpectedTag {
                    parent: parent.to_owned(),
                    tag: doc.nodes[j].name.clone(),
                });
            }
        }
        j = j + 1;
    }
    assert(Filter::models(filters@) + Seq::<FilterModel>::empty() =~= Filter::models(filters@));
    assert(File::models(files@) + Seq::<FileModel>::empty() =~= File::models(files@));
    Ok((filters, files))
}

impl Filter {
    /// Reads the `Filter` element `node`: its attributes and the folders and
    /// files among its children, in order.
    pub fn parse_xml(doc: &XmlDocument, node: usize) -> (r: Result<Self, XmlError>)
        requires
            node < doc@.len(),
        ensures
            match r {
                Ok(x) => spec_filter(doc@, node as int) == Ok::<FilterModel, XmlErrorModel>(x.model()),
                Err(e) => spec_filter(doc@, node as int) == Err::<FilterModel, XmlErrorModel>(e@),
            },
        decreases doc@.len() - node, 1int,
    {
        let schema = Self::schema_descs();
        let ignore: [&str; 0] = [];
        assert(str_views(ignore@) =~= Seq::<Seq<char>>::empty());
        assert(doc@[node as int] == doc.nodes@[node as int]@);
        let vals = match read_fields(&doc.nodes[node], "Filter", &schema, &ignore) {
            Ok(v) => v,
            Err(e) => return Err(e),
        };
        proof {
            lemma_fields_fit(doc@[node as int].attributes, "Filter"@, Self::schema(), str_views(ignore@), vals@);
        }
        match parse_tree(doc, node, "Filter") {
            Err(e) => Err(e),
            Ok((filters, files)) => Ok(Self::from_values(&vals, filters, files)),
        }
    }
}

impl Files {
    /// Reads the `Files` element `node`: the folders and files among its children, in order.
    pub fn parse_xml(doc: &XmlDocument, node: usize) -> (r: Result<Self, XmlError>)
        requires
            node < doc@.len(),
        ensures
            match r {
                Ok(x) => spec_files(doc@, node as int) == Ok::<FilesModel, XmlErrorModel>(x.model()),
                Err(e) => spec_files(doc@, node as int) == Err::<FilesModel, XmlErrorModel>(e@),
            },
    {
        match parse_tree(doc, node, "Files") {
            Err(e) => Err(e),
            Ok((filters, files)) => Ok(Files { filters, files }),
        }
    }
}

/// Keeps what was already read where the rest of a scan reads nothing new.
pub open spec fn prepend_tools(acc: ToolsModel, rest: Result<ToolsModel, XmlErrorModel>) -> Result<
    ToolsModel,
    XmlErrorModel,
> {
    match rest {
        Err(e) => Err(e),
        Ok(r) => Ok(
            (
                if r.0 is Some { r.0 } else { acc.0 },
                if r.1 is Some { r.1 } else { acc.1 },
                if r.2 is Some { r.2 } else { acc.2 },
            ),
        ),
    }
}

impl Configuration {
    /// Reads the `Configuration` element `node`: its attributes and its
    /// `VCCLCompilerTool`, `VCLibrarianTool` and `VCLinkerTool` tools (the last of each).
    #[verifier::rlimit(30)]
    pub fn parse_xml(doc: &XmlDocument, node: usize) -> (r: Result<Self, XmlError>)
        requires
            node < doc@.len(),
        ensures
            match r {
                Ok(x) => spec_configuration(doc@, node as int) == Ok::<ConfigurationModel, XmlErrorModel>(
                    x.model(),
                ),
                Err(e) => spec_configuration(doc@, node as int) == Err::<
                    ConfigurationModel,
                    XmlErrorModel,
                >(e@),
            },
    {
        let schema = Self::schema_descs();
        let ignore: [&str; 0] = [];
        assert(str_views(ignore@) =~= Seq::<Seq<char>>::empty());
        assert(doc@[node as int] == doc.nodes@[node as int]@);
        let vals = match read_fields(&doc.nodes[node], "Configuration", &schema, &ignore) {
            Ok(v) => v,
            Err(e) => return Err(e),
        };
        proof {
            lemma_fields_fit(doc@[node as int].attributes, "Configuration"@, Self::schema(), str_views(ignore@), vals@);
        }
        let n: usize = doc.nodes.len();
        assert(doc@.len() == n);
        let mut compiler: Option<CompilerTool> = None;
        let mut lib: Option<LibTool> = None;
        let mut linker: Option<LinkerTool> = None;
        let mut j: usize = node + 1;
        while j < n
            invariant
                n == doc@.len(),
                node < j,
                spec_read_fields(
                    doc@[node as int].attributes,
                    "Configuration"@,
                    Configuration::schema(),
                    Seq::empty(),
                ) == Ok::<Seq<FieldValueModel>, XmlErrorModel>(field_values_view(vals@)),
                tools_scan(doc@, node as int, node + 1) == prepend_tools(
                    (
                        tool_model(compiler, |c: CompilerTool| c.field_values()),
                        tool_model(lib, |c: LibTool| c.field_values()),
                        tool_model(linker, |c: LinkerTool| c.field_values()),
                    ),
                    tools_scan(doc@, node as int, j as int),
                ),
            decreases n - j,
        {
            if is_child(doc, node, j) && name_is(doc, j, "Tool") {
                assert(doc@[j as int] == doc.nodes@[j as int]@);
                match attribute_first(&doc.nodes[j].attributes, "Name") {
                    Some(tool_name) => {
                        if crate::text::str_eq(tool_name.as_str(), "VCCLCompilerTool") {
                            match CompilerTool::parse_xml(doc, j) {
                                Err(e) => return Err(e),
                                Ok(c) => {
                                    compiler = Some(c);
                                },
                            }
                        } else if crate::text::str_eq(tool_name.as_str(), "VCLibrarianTool") {
                            match LibTool::parse_xml(doc, j) {
                                Err(e) => return Err(e),
                                Ok(c) => {
                                    lib = Some(c);
                                },
                            }
                        } else if crate::text::str_eq(tool_name.as_str(), "VCLinkerTool") {
                            match LinkerTool::parse_xml(doc, j) {
                                Err(e) => return Err(e),
                                Ok(c) => {
                                    linker = Some(c);
                                },
                            }
                        }
                    },
                    None => {},
                }
            }
            j = j + 1;
        }
        Ok(Self::from_values(&vals, compiler, lib, linker))
    }
}

pub open spec fn platform_models(s: Seq<Platform>) -> Seq<Seq<FieldValueModel>> {
    s.map_values(|p: Platform| p.model())
}

pub open spec fn configuration_models(s: Seq<Configuration>) -> Seq<ConfigurationModel> {
    s.map_values(|c: Configuration| c.model())
}

/// Reads the `Platform` children of `node`, in order.
fn parse_platforms(doc: &XmlDocument, node: usize) -> (r: Result<Vec<Platform>, XmlError>)
    requires
        node < doc@.len(),
    ensures
        match r {
            Ok(v) => platforms_scan(doc@, node as int, node + 1) == Ok::<
                Seq<Seq<FieldValueModel>>,
                XmlErrorModel,
            >(platform_models(v@)),
            Err(e) => platforms_scan(doc@, node as int, node + 1) == Err::<
                Seq<Seq<FieldValueModel>>,
                XmlErrorModel,
            >(e@),
        },
{
    let n: usize = doc.nodes.len();
    assert(doc@.len() == n);
    let mut out: Vec<Platform> = Vec::new();
    let mut j: usize = node + 1;
    assert(platform_models(out@) =~= Seq::<Seq<FieldValueModel>>::empty());
    while j < n
        invariant
            n == doc@.len(),
            node < j,
            platforms_scan(doc@, node as int, node + 1) == prepend(
                platform_models(out@),
                platforms_scan(doc@, node as int, j as int),
            ),
        decreases n - j,
    {
        if is_child(doc, node, j) && name_is(doc, j, "Platform") {
            match Platform::parse_xml(doc, j) {
                Err(e) => return Err(e),
                Ok(p) => {
                    let ghost before = platform_models(out@);
                    let ghost rest = platforms_scan(doc@, node as int, j + 1);
                    out.push(p);
                    assert(platform_models(out@) =~= before.push(p.model()));
                    assert(rest is Ok ==> before + (seq![p.model()] + rest->Ok_0) =~= platform_models(out@)
                        + rest->Ok_0);
                },
            }
        }
        j = j + 1;
    }
    assert(platform_models(out@) + Seq::<Seq<FieldValueModel>>::empty() =~= platform_models(out@));
    Ok(out)
}

/// Reads the `Configuration` children of `node`, in order.
fn parse_configurations(doc: &XmlDocument, node: usize) -> (r: Result<Vec<Configuration>, XmlError>)
    requires
        node < doc@.len(),
    ensures
        match r {
            Ok(v) => configurations_scan(doc@, node as int, node + 1) == Ok::<
                Seq<ConfigurationModel>,
                XmlErrorModel,
            >(configuration_models(v@)),
            Err(e) => configurations_scan(doc@, node as int, node + 1) == Err::<
                Seq<ConfigurationModel>,
                XmlErrorModel,
            >(e@),
        },
{
    let n: usize = doc.nodes.len();
    assert(doc@.len() == n);
    let mut out: Vec<Configuration> = Vec::new();
    let mut j: usize = node + 1;
    assert(configuration_models(out@) =~= Seq::<ConfigurationModel>::empty());
    while j < n
        invariant
            n == doc@.len(),
            node < j,
            configurations_scan(doc@, node as int, node + 1) == prepend(
                configuration_models(out@),
                configurations_scan(doc@, node as int, j as int),
            ),
        decreases n - j,
    {
        if is_child(doc, node, j) && name_is(doc, j, "Configuration") {
            match Configuration::parse_xml(doc, j) {
                Err(e) => return Err(e),
                Ok(c) => {
                    let ghost before = configuration_models(out@);
                    let ghost rest = configurations_scan(doc@, node as int, j + 1);
                    out.push(c);
                    assert(configuration_models(out@) =~= before.push(c.model()));
                    assert(rest is Ok ==> before + (seq![c.model()] + rest->Ok_0) =~= configuration_models(
                        out@,
                    ) + rest->Ok_0);
                },
            }
        }
        j = j + 1;
    }
    assert(configuration_models(out@) + Seq::<ConfigurationModel>::empty() =~= configuration_models(out@));
    Ok(out)
}

pub open spec fn files_model(f: Option<Files>) -> Option<FilesModel> {
    match f {
        Some(x) => Some(x.model()),
        None => None,
    }
}

/// Prepends what was already read of the root's children to the rest of a scan.
pub open spec fn prepend_project(
    acc: (Seq<Seq<FieldValueModel>>, Seq<ConfigurationModel>, Option<FilesModel>),
    rest: Result<(Seq<Seq<FieldValueModel>>, Seq<ConfigurationModel>, Option<FilesModel>), XmlErrorModel>,
) -> Result<(Seq<Seq<FieldValueModel>>, Seq<ConfigurationModel>, Option<FilesModel>), XmlErrorModel> {
    match rest {
        Err(e) => Err(e),
        Ok(r) => Ok((acc.0 + r.0, acc.1 + r.1, if r.2 is Some { r.2 } else { acc.2 })),
    }
}

impl VCProject {
    /// Reads a project file: the XML text `input`, whose root element must be
    /// `VisualStudioProject`, its attributes, then the platforms,
    /// configurations and file tree among the root's children.
    #[verifier::rlimit(50)]
    pub fn parse_xml(input: &str) -> (r: Result<Self, XmlError>)
        ensures
            match r {
                Ok(x) => spec_project(input@) == Ok::<VCProjectModel, XmlErrorModel>(x.model()),
                Err(e) => spec_project(input@) == Err::<VCProjectModel, XmlErrorModel>(e@),
            },
    {
        let doc = match XmlDocument::parse(input) {
            Ok(d) => d,
            Err(e) => return Err(e),
        };
        let root = match doc.root_element() {
            Some(r) => r,
            None => return Err(XmlError::NoRootElement),
        };
        if !name_is(&doc, root, "VisualStudioProject") {
            return Err(XmlError::UnexpectedRoot);
        }
        let schema = Self::schema_descs();
        let ignore: [&str; 0] = [];
        assert(str_views(ignore@) =~= Seq::<Seq<char>>::empty());
        assert(doc@[root as int] == doc.nodes@[root as int]@);
        let vals = match read_fields(&doc.nodes[root], "VCProject", &schema, &ignore) {
            Ok(v) => v,
            Err(e) => return Err(e),
        };
        proof {
            lemma_fields_fit(doc@[root as int].attributes, "VCProject"@, Self::schema(), str_views(ignore@), vals@);
        }
        let n: usize = doc.nodes.len();
        assert(doc@.len() == n);
        let mut platforms: Vec<Platform> = Vec::new();
        let mut configurations: Vec<Configuration> = Vec::new();
        let mut files: Option<Files> = None;
        let mut j: usize = root + 1;
        assert(platform_models(platforms@) =~= Seq::<Seq<FieldValueModel>>::empty());
        assert(configuration_models(configurations@) =~= Seq::<ConfigurationModel>::empty());
        while j < n
            invariant
                n == doc@.len(),
                root < j,
                spec_parse_document(input@) == Ok::<Seq<NodeView>, XmlErrorModel>(doc@),
                root_element(doc@) == Some(root as int),
                doc@[root as int].name == "VisualStudioProject"@,
                spec_read_fields(doc@[root as int].attributes, "VCProject"@, VCProject::schema(), Seq::empty())
                    == Ok::<Seq<FieldValueModel>, XmlErrorModel>(field_values_view(vals@)),
                project_scan(doc@, root as int, root + 1) == prepend_project(
                    (platform_models(platforms@), configuration_models(configurations@), files_model(files)),
                    project_scan(doc@, root as int, j as int),
                ),
            decreases n - j,
        {
            if is_child(&doc, root, j) {
                assert(doc@[j as int] == doc.nodes@[j as int]@);
                let ghost rest = project_scan(doc@, root as int, j + 1);
                if name_is(&doc, j, "Platforms") {
                    match parse_platforms(&doc, j) {
                        Err(e) => return Err(e),
                        Ok(mut ps) => {
                            let ghost before = platform_models(platforms@);
                            let ghost got = platform_models(ps@);
                            platforms.append(&mut ps);
                            assert(platform_models(platforms@) =~= before + got);
                            assert(rest is Ok ==> before + (got + rest->Ok_0.0) =~= platform_models(platforms@) + rest->Ok_0.0);
                        },
                    }
                } else if name_is(&doc, j, "Configurations") {
                    match parse_configurations(&doc, j) {
                        Err(e) => return Err(e),
                        Ok(mut cs) => {
                            let ghost before = configuration_models(configurations@);
                            let ghost got = configuration_models(cs@);
                            configurations.append(&mut cs);
                            assert(configuration_models(configurations@) =~= before + got);
                            assert(rest is Ok ==> before + (got + rest->Ok_0.1) =~= configuration_models(configurations@) + rest->Ok_0.1);
                        },
                    }
                } else if name_is(&doc, j, "Files") {
                    match Files::parse_xml(&doc, j) {
                        Err(e) => return Err(e),
                        Ok(f) => {
                            files = Some(f);
                        },
                    }
                } else if name_is(&doc, j, "ToolFiles") {
                    if doc.has_element_child(j) {
                        return Err(XmlError::ExpectedEmpty { tag: doc.nodes[j].name.clone() });
                    }
                } else if !name_is(&doc, j, "References") && !name_is(&doc, j, "Globals")
                    && doc.nodes[j].name.as_str().unicode_len() != 0 {
                    return Err(XmlError::UnexpectedTag {
                        parent: "VisualStudioProject".to_owned(),
                        tag: doc.nodes[j].name.clone(),
                    });
                }
            }
            j = j + 1;
        }
        let files = match files {
            Some(f) => f,
            None => Files::new(),
        };
        assert(platform_models(platforms@) + Seq::<Seq<FieldValueModel>>::empty() =~= platform_models(platforms@));
        assert(configuration_models(configurations@) + Seq::<ConfigurationModel>::empty() =~= configuration_models(configurations@));
        Ok(Self::from_values(&vals, platforms, configurations, files))
    }
}

impl Default for Tool {
    /// A tool with an empty name and no settings.
    fn default() -> (r: Tool)
        ensures
            r.name@.len() == 0,
            r.use_precompiled_header is None,
            r.additional_options is None,
            r.basic_runtime_checks is None,
            r.disable_specific_warnings is None,
            r.generate_preprocessed_file is None,
            r.object_file is None,
            r.optimization is None,
            r.precompiled_header_file is None,
            r.precompiled_header_through is None,
            r.preprocessor_definitions is None,
            r.show_includes is None,
            r.warning_level is None,
            r.xml_documentation_file_name is None,
    {
        Tool {
            name: String::new(),
            use_precompiled_header: None,
            additional_options: None,
            basic_runtime_checks: None,
            disable_specific_warnings: None,
            generate_preprocessed_file: None,
            object_file: None,
            optimization: None,
            precompiled_header_file: None,
            precompiled_header_through: None,
            preprocessor_definitions: None,
            show_includes: None,
            warning_level: None,
            xml_documentation_file_name: None,
        }
    }
}

/// A compiler optimization setting and its command-line flag.
#[derive(Debug)]
pub struct Optimization(pub &'static str);

impl Optimization {
    /// The flag of the setting value `v`: `/Od`, `/O1`, `/O2` or `/Ox` for 0 to 3.
    pub open spec fn flag(v: i8) -> Option<Seq<char>> {
        if v == 0 {
            Some("/Od"@)
        } else if v == 1 {
            Some("/O1"@)
        } else if v == 2 {
            Some("/O2"@)
        } else if v == 3 {
            Some("/Ox"@)
        } else {
            None
        }
    }

    /// The setting with value `v`.
    pub fn parse(v: i8) -> (r: Result<Self, XmlError>)
        ensures
            match Self::flag(v) {
                Some(f) => r matches Ok(o) && o.0@ == f,
                None => r matches Err(e) && e@ == XmlErrorModel::InvalidFlag {
                    name: "Optimization"@,
                    value: v,
                },
            },
    {
        if v == 0 {
            Ok(Optimization("/Od"))
        } else if v == 1 {
            Ok(Optimization("/O1"))
        } else if v == 2 {
            Ok(Optimization("/O2"))
        } else if v == 3 {
            Ok(Optimization("/Ox"))
        } else {
            Err(XmlError::InvalidFlag { name: "Optimization".to_owned(), value: v })
        }
    }

    /// The command-line flag.
    pub fn as_str(&self) -> (r: &'static str)
        ensures
            r@ == self.0@,
    {
        self.0
    }

    /// The setting whose value is the decimal text `s`.
    pub fn from_str(s: &str) -> (r: Result<Self, XmlError>)
        ensures
            match spec_parse_i8(s@) {
                Err(k) => r matches Err(e) && e@ == XmlErrorModel::InvalidInteger { value: s@, kind: k },
                Ok(v) => match Self::flag(v) {
                    Some(f) => r matches Ok(o) && o.0@ == f,
                    None => r matches Err(e) && e@ == XmlErrorModel::InvalidFlag {
                        name: "Optimization"@,
                        value: v,
                    },
                },
            },
    {
        match parse_i8(s) {
            Ok(v) => Self::parse(v),
            Err(k) => Err(XmlError::InvalidInteger { value: s.to_owned(), kind: k }),
        }
    }
}

impl std::str::FromStr for Optimization {
    type Err = XmlError;

    /// The setting whose value is the decimal text `s`, as [`Optimization::from_str`].
    fn from_str(s: &str) -> Result<Self, XmlError> {
        Optimization::from_str(s)
    }
}

/// Reads one of the boolean spellings `1`, `TRUE`, `true`, `0`, `FALSE`, `false`.
pub fn parse_bool(s: &str) -> (r: Result<bool, XmlError>)
    ensures
        match spec_parse_bool(s@) {
            Some(b) => r matches Ok(x) && x == b,
            None => r matches Err(e) && e@ == XmlErrorModel::InvalidBool { value: s@ },
        },
{
    match bool_value(s) {
        Some(b) => Ok(b),
        None => Err(XmlError::InvalidBool { value: s.to_owned() }),
    }
}

/// The non-empty pieces of `s` between `;` separators.
pub fn parse_list(s: &str) -> (r: Vec<String>)
    ensures
        r.deep_view() == spec_split_nonempty(s@, ';'),
{
    split_nonempty(s, ';')
}

/// The compiler settings of a configuration never depend on the element's `Name` attribute: two elements whose
/// other attributes are the same read the same.
pub proof fn law_compiler_tool_ignores_name(d1: Seq<NodeView>, i1: int, d2: Seq<NodeView>, i2: int)
    requires
        attributes_without(d1[i1].attributes, "Name"@) == attributes_without(d2[i2].attributes, "Name"@),
    ensures
        spec_compiler_tool(d1, i1) == spec_compiler_tool(d2, i2),
{
    assert(seq!["Name"@][0] == "Name"@);
    lemma_read_fields_without(d1[i1].attributes, "VCCLCompilerTool"@, CompilerTool::schema(), seq!["Name"@], "Name"@);
    lemma_read_fields_without(d2[i2].attributes, "VCCLCompilerTool"@, CompilerTool::schema(), seq!["Name"@], "Name"@);
}

/// The librarian settings of a configuration never depend on the element's `Name` attribute: two elements whose
/// other attributes are the same read the same.
pub proof fn law_lib_tool_ignores_name(d1: Seq<NodeView>, i1: int, d2: Seq<NodeView>, i2: int)
    requires
        attributes_without(d1[i1].attributes, "Name"@) == attributes_without(d2[i2].attributes, "Name"@),
    ensures
        spec_lib_tool(d1, i1) == spec_lib_tool(d2, i2),
{
    assert(seq!["Name"@][0] == "Name"@);
    lemma_read_fields_without(d1[i1].attributes, "VCLibrarianTool"@, LibTool::schema(), seq!["Name"@], "Name"@);
    lemma_read_fields_without(d2[i2].attributes, "VCLibrarianTool"@, LibTool::schema(), seq!["Name"@], "Name"@);
}

/// The linker settings of a configuration never depend on the element's `Name` attribute: two elements whose
/// other attributes are the same read the same.
pub proof fn law_linker_tool_ignores_name(d1: Seq<NodeView>, i1: int, d2: Seq<NodeView>, i2: int)
    requires
        attributes_without(d1[i1].attributes, "Name"@) == attributes_without(d2[i2].attributes, "Name"@),
    ensures
        spec_linker_tool(d1, i1) == spec_linker_tool(d2, i2),
{
    assert(seq!["Name"@][0] == "Name"@);
    lemma_read_fields_without(d1[i1].attributes, "VCLinkerTool"@, LinkerTool::schema(), seq!["Name"@], "Name"@);
    lemma_read_fields_without(d2[i2].attributes, "VCLinkerTool"@, LinkerTool::schema(), seq!["Name"@], "Name"@);
}


/// Where a node of the first document, outside the replaced part `(s, e1)`,
/// stands in the second document, whose replaced part is `(s, e2)`.
pub open spec fn moved(k: int, s: int, e1: int, e2: int) -> int {
    if k <= s {
        k
    } else {
        k - e1 + e2
    }
}

/// Node `k` lies outside the replaced part `(s, e)`.
pub open spec fn outside(k: int, s: int, e: int) -> bool {
    k <= s || k >= e
}

/// `d2` is `d1` with the nodes strictly inside the section `s` replaced: the
/// nodes of `d1` after `s` and before `e1` all lie inside `s`, and so do the
/// nodes of `d2` after `s` and before `e2`, which stand in their place; every
/// other node is the same, and so is its parent, where `s` is a child of the
/// root element `r`.
pub open spec fn same_but_inside(
    d1: Seq<NodeView>,
    d2: Seq<NodeView>,
    r: int,
    s: int,
    e1: int,
    e2: int,
) -> bool {
    &&& 0 <= r < s < e1 <= d1.len()
    &&& s < e2 <= d2.len()
    &&& d2.len() - e2 == d1.len() - e1
    &&& d1[s].parent == Some(r)
    &&& forall|k: int|
        0 <= k < d1.len() && outside(k, s, e1) ==> {
            let n1 = #[trigger] d1[k];
            let n2 = d2[moved(k, s, e1, e2)];
            &&& n2.is_element == n1.is_element
            &&& n2.name == n1.name
            &&& n2.attributes == n1.attributes
            &&& match n1.parent {
                None => n2.parent is None,
                Some(p) => outside(p, s, e1) && n2.parent == Some(moved(p, s, e1, e2)),
            }
        }
    &&& forall|k: int| s < k < e1 ==> ((#[trigger] d1[k]).parent matches Some(p) && s <= p < k)
    &&& forall|k: int| s < k < e2 ==> ((#[trigger] d2[k]).parent matches Some(p) && s <= p < k)
}

proof fn lemma_child_moved(
    d1: Seq<NodeView>,
    d2: Seq<NodeView>,
    r: int,
    s: int,
    e1: int,
    e2: int,
    i: int,
    k: int,
)
    requires
        same_but_inside(d1, d2, r, s, e1, e2),
        outside(i, s, e1),
        outside(k, s, e1),
        0 <= k < d1.len(),
    ensures
        is_child_element(d1, i, k) == is_child_element(d2, moved(i, s, e1, e2), moved(k, s, e1, e2)),
        d2[moved(k, s, e1, e2)].name == d1[k].name,
        d2[moved(k, s, e1, e2)].attributes == d1[k].attributes,
        moved(k, s, e1, e2) < d2.len(),
{
    let n1 = d1[k];
    assert(n1 == d1[k]);
}

proof fn lemma_inside_not_children(
    d1: Seq<NodeView>,
    d2: Seq<NodeView>,
    r: int,
    s: int,
    e1: int,
    e2: int,
    i: int,
)
    requires
        same_but_inside(d1, d2, r, s, e1, e2),
        outside(i, s, e1),
        i != s,
    ensures
        forall|k: int| s + 1 <= k < e1 ==> !is_child_element(d1, i, k),
        forall|k: int| s + 1 <= k < e2 ==> !is_child_element(d2, moved(i, s, e1, e2), k),
{
    assert forall|k: int| s + 1 <= k < e1 implies !is_child_element(d1, i, k) by {
        assert((d1[k].parent matches Some(p) && s <= p < k));
    }
    assert forall|k: int| s + 1 <= k < e2 implies !is_child_element(d2, moved(i, s, e1, e2), k) by {
        assert((d2[k].parent matches Some(p) && s <= p < k));
    }
}

proof fn lemma_child_elements_moved(
    d1: Seq<NodeView>,
    d2: Seq<NodeView>,
    r: int,
    s: int,
    e1: int,
    e2: int,
    i: int,
    from: int,
)
    requires
        same_but_inside(d1, d2, r, s, e1, e2),
        outside(i, s, e1),
        i != s,
        d1[s].parent != Some(i),
        outside(from, s, e1),
        0 <= from <= d1.len(),
    ensures
        child_elements(d1, i, from).len() == child_elements(
            d2,
            moved(i, s, e1, e2),
            moved(from, s, e1, e2),
        ).len(),
        child_elements(d1, i, from).len() > 0 ==> child_elements(
            d2,
            moved(i, s, e1, e2),
            moved(from, s, e1, e2),
        )[0] == moved(child_elements(d1, i, from)[0], s, e1, e2),
    decreases d1.len() - from,
{
    crate::xml::lemma_child_elements_bounds(d1, i, from);
    if from < d1.len() {
        lemma_child_moved(d1, d2, r, s, e1, e2, i, from);
        if from == s {
            lemma_inside_not_children(d1, d2, r, s, e1, e2, i);
            lemma_child_elements_skip_full(d1, i, s + 1, e1);
            lemma_child_elements_skip_full(d2, moved(i, s, e1, e2), s + 1, e2);
            lemma_child_elements_moved(d1, d2, r, s, e1, e2, i, e1);
        } else {
            lemma_child_elements_moved(d1, d2, r, s, e1, e2, i, from + 1);
        }
    }
}

proof fn lemma_child_elements_skip_full(d: Seq<NodeView>, i: int, a: int, b: int)
    requires
        0 <= a <= b,
        forall|k: int| a <= k < b ==> !is_child_element(d, i, k),
    ensures
        child_elements(d, i, a) == child_elements(d, i, b),
    decreases b - a,
{
    if a < b {
        lemma_child_elements_skip_full(d, i, a + 1, b);
    }
}


proof fn lemma_first_child_skip(d: Seq<NodeView>, i: int, name: Seq<char>, a: int, b: int)
    requires
        i < a <= b,
        forall|k: int| a <= k < b ==> !is_child_element(d, i, k),
    ensures
        first_child_from(d, i, name, a) == first_child_from(d, i, name, b),
    decreases b - a,
{
    if a < b {
        lemma_first_child_skip(d, i, name, a + 1, b);
    }
}

proof fn lemma_first_child_moved(
    d1: Seq<NodeView>,
    d2: Seq<NodeView>,
    r: int,
    s: int,
    e1: int,
    e2: int,
    i: int,
    name: Seq<char>,
    from: int,
)
    requires
        same_but_inside(d1, d2, r, s, e1, e2),
        r < i,
        outside(i, s, e1),
        i != s,
        outside(from, s, e1),
        0 <= from <= d1.len(),
    ensures
        match first_child_from(d1, i, name, from) {
            None => first_child_from(d2, moved(i, s, e1, e2), name, moved(from, s, e1, e2)) is None,
            Some(j) => {
                &&& first_child_from(d2, moved(i, s, e1, e2), name, moved(from, s, e1, e2)) == Some(
                    moved(j, s, e1, e2),
                )
                &&& outside(j, s, e1)
                &&& 0 <= j < d1.len()
                &&& is_child_element(d1, i, j)
            },
        },
    decreases d1.len() - from,
{
    if from > i && from < d1.len() {
        lemma_child_moved(d1, d2, r, s, e1, e2, i, from);
        if from == s {
            lemma_inside_not_children(d1, d2, r, s, e1, e2, i);
            lemma_first_child_skip(d1, i, name, s + 1, e1);
            lemma_first_child_skip(d2, moved(i, s, e1, e2), name, s + 1, e2);
            lemma_first_child_moved(d1, d2, r, s, e1, e2, i, name, e1);
        } else {
            lemma_first_child_moved(d1, d2, r, s, e1, e2, i, name, from + 1);
        }
    }
}

proof fn lemma_tools_scan_skip(d: Seq<NodeView>, i: int, a: int, b: int)
    requires
        i < a <= b,
        forall|k: int| a <= k < b ==> !is_child_element(d, i, k),
    ensures
        tools_scan(d, i, a) == tools_scan(d, i, b),
    decreases b - a,
{
    if a < b {
        lemma_tools_scan_skip(d, i, a + 1, b);
    }
}

proof fn lemma_tools_scan_moved(
    d1: Seq<NodeView>,
    d2: Seq<NodeView>,
    r: int,
    s: int,
    e1: int,
    e2: int,
    i: int,
    from: int,
)
    requires
        same_but_inside(d1, d2, r, s, e1, e2),
        r < i,
        outside(i, s, e1),
        i != s,
        outside(from, s, e1),
        0 <= from <= d1.len(),
    ensures
        tools_scan(d1, i, from) == tools_scan(d2, moved(i, s, e1, e2), moved(from, s, e1, e2)),
    decreases d1.len() - from,
{
    if from > i && from < d1.len() {
        lemma_child_moved(d1, d2, r, s, e1, e2, i, from);
        if from == s {
            lemma_inside_not_children(d1, d2, r, s, e1, e2, i);
            lemma_tools_scan_skip(d1, i, s + 1, e1);
            lemma_tools_scan_skip(d2, moved(i, s, e1, e2), s + 1, e2);
            lemma_tools_scan_moved(d1, d2, r, s, e1, e2, i, e1);
        } else {
            lemma_tools_scan_moved(d1, d2, r, s, e1, e2, i, from + 1);
        }
    }
}

proof fn lemma_configuration_moved(
    d1: Seq<NodeView>,
    d2: Seq<NodeView>,
    r: int,
    s: int,
    e1: int,
    e2: int,
    i: int,
)
    requires
        same_but_inside(d1, d2, r, s, e1, e2),
        r < i < d1.len(),
        outside(i, s, e1),
        i != s,
    ensures
        spec_configuration(d1, i) == spec_configuration(d2, moved(i, s, e1, e2)),
{
    lemma_child_moved(d1, d2, r, s, e1, e2, i, i);
    lemma_tools_scan_moved(d1, d2, r, s, e1, e2, i, i + 1);
}

proof fn lemma_platforms_scan_skip(d: Seq<NodeView>, i: int, a: int, b: int)
    requires
        i < a <= b,
        forall|k: int| a <= k < b ==> !is_child_element(d, i, k),
    ensures
        platforms_scan(d, i, a) == platforms_scan(d, i, b),
    decreases b - a,
{
    if a < b {
        lemma_platforms_scan_skip(d, i, a + 1, b);
    }
}

proof fn lemma_platforms_scan_moved(
    d1: Seq<NodeView>,
    d2: Seq<NodeView>,
    r: int,
    s: int,
    e1: int,
    e2: int,
    i: int,
    from: int,
)
    requires
        same_but_inside(d1, d2, r, s, e1, e2),
        r < i,
        outside(i, s, e1),
        i != s,
        outside(from, s, e1),
        0 <= from <= d1.len(),
    ensures
        platforms_scan(d1, i, from) == platforms_scan(d2, moved(i, s, e1, e2), moved(from, s, e1, e2)),
    decreases d1.len() - from,
{
    if from > i && from < d1.len() {
        lemma_child_moved(d1, d2, r, s, e1, e2, i, from);
        if from == s {
            lemma_inside_not_children(d1, d2, r, s, e1, e2, i);
            lemma_platforms_scan_skip(d1, i, s + 1, e1);
            lemma_platforms_scan_skip(d2, moved(i, s, e1, e2), s + 1, e2);
            lemma_platforms_scan_moved(d1, d2, r, s, e1, e2, i, e1);
        } else {
            lemma_platforms_scan_moved(d1, d2, r, s, e1, e2, i, from + 1);
        }
    }
}

proof fn lemma_configurations_scan_skip(d: Seq<NodeView>, i: int, a: int, b: int)
    requires
        i < a <= b,
        forall|k: int| a <= k < b ==> !is_child_element(d, i, k),
    ensures
        configurations_scan(d, i, a) == configurations_scan(d, i, b),
    decreases b - a,
{
    if a < b {
        lemma_configurations_scan_skip(d, i, a + 1, b);
    }
}

proof fn lemma_configurations_scan_moved(
    d1: Seq<NodeView>,
    d2: Seq<NodeView>,
    r: int,
    s: int,
    e1: int,
    e2: int,
    i: int,
    from: int,
)
    requires
        same_but_inside(d1, d2, r, s, e1, e2),
        r < i,
        outside(i, s, e1),
        i != s,
        outside(from, s, e1),
        0 <= from <= d1.len(),
    ensures
        configurations_scan(d1, i, from) == configurations_scan(
            d2,
            moved(i, s, e1, e2),
            moved(from, s, e1, e2),
        ),
    decreases d1.len() - from,
{
    if from > i && from < d1.len() {
        lemma_child_moved(d1, d2, r, s, e1, e2, i, from);
        if from == s {
            lemma_inside_not_children(d1, d2, r, s, e1, e2, i);
            lemma_configurations_scan_skip(d1, i, s + 1, e1);
            lemma_configurations_scan_skip(d2, moved(i, s, e1, e2), s + 1, e2);
            lemma_configurations_scan_moved(d1, d2, r, s, e1, e2, i, e1);
        } else {
            if is_child_element(d1, i, from) {
                lemma_configuration_moved(d1, d2, r, s, e1, e2, from);
            }
            lemma_configurations_scan_moved(d1, d2, r, s, e1, e2, i, from + 1);
        }
    }
}


proof fn lemma_file_configuration_moved(
    d1: Seq<NodeView>,
    d2: Seq<NodeView>,
    r: int,
    s: int,
    e1: int,
    e2: int,
    i: int,
)
    requires
        same_but_inside(d1, d2, r, s, e1, e2),
        r < i < d1.len(),
        outside(i, s, e1),
        i != s,
    ensures
        spec_file_configuration(d1, i) == spec_file_configuration(d2, moved(i, s, e1, e2)),
{
    lemma_child_moved(d1, d2, r, s, e1, e2, i, i);
    lemma_first_child_moved(d1, d2, r, s, e1, e2, i, "Tool"@, i + 1);
    if let Some(j) = first_child_from(d1, i, "Tool"@, i + 1) {
        lemma_child_moved(d1, d2, r, s, e1, e2, i, j);
    }
}

proof fn lemma_file_scan_skip(d: Seq<NodeView>, i: int, a: int, b: int)
    requires
        0 <= i < a <= b,
        forall|k: int| a <= k < b ==> !is_child_element(d, i, k),
    ensures
        file_scan(d, i, a) == file_scan(d, i, b),
    decreases b - a,
{
    if a < b {
        lemma_file_scan_skip(d, i, a + 1, b);
    }
}

proof fn lemma_file_scan_moved(
    d1: Seq<NodeView>,
    d2: Seq<NodeView>,
    r: int,
    s: int,
    e1: int,
    e2: int,
    i: int,
    from: int,
)
    requires
        same_but_inside(d1, d2, r, s, e1, e2),
        r < i,
        outside(i, s, e1),
        i != s,
        outside(from, s, e1),
        0 <= from <= d1.len(),
    ensures
        file_scan(d1, i, from) == file_scan(d2, moved(i, s, e1, e2), moved(from, s, e1, e2)),
    decreases d1.len() - i, d1.len() - from,
{
    if from > i && from < d1.len() {
        lemma_child_moved(d1, d2, r, s, e1, e2, i, from);
        if from == s {
            lemma_inside_not_children(d1, d2, r, s, e1, e2, i);
            lemma_file_scan_skip(d1, i, s + 1, e1);
            lemma_file_scan_skip(d2, moved(i, s, e1, e2), s + 1, e2);
            lemma_file_scan_moved(d1, d2, r, s, e1, e2, i, e1);
        } else {
            if is_child_element(d1, i, from) {
                lemma_file_configuration_moved(d1, d2, r, s, e1, e2, from);
                lemma_file_moved(d1, d2, r, s, e1, e2, from);
            }
            lemma_file_scan_moved(d1, d2, r, s, e1, e2, i, from + 1);
        }
    }
}

proof fn lemma_file_moved(
    d1: Seq<NodeView>,
    d2: Seq<NodeView>,
    r: int,
    s: int,
    e1: int,
    e2: int,
    i: int,
)
    requires
        same_but_inside(d1, d2, r, s, e1, e2),
        r < i < d1.len(),
        outside(i, s, e1),
        i != s,
    ensures
        spec_file(d1, i) == spec_file(d2, moved(i, s, e1, e2)),
    decreases d1.len() - i, d1.len() - i,
{
    lemma_child_moved(d1, d2, r, s, e1, e2, i, i);
    lemma_file_scan_moved(d1, d2, r, s, e1, e2, i, i + 1);
}

proof fn lemma_tree_scan_skip(d: Seq<NodeView>, i: int, a: int, b: int, parent: Seq<char>)
    requires
        0 <= i < a <= b,
        forall|k: int| a <= k < b ==> !is_child_element(d, i, k),
    ensures
        tree_scan(d, i, a, parent) == tree_scan(d, i, b, parent),
    decreases b - a,
{
    if a < b {
        lemma_tree_scan_skip(d, i, a + 1, b, parent);
    }
}

proof fn lemma_tree_scan_moved(
    d1: Seq<NodeView>,
    d2: Seq<NodeView>,
    r: int,
    s: int,
    e1: int,
    e2: int,
    i: int,
    from: int,
    parent: Seq<char>,
)
    requires
        same_but_inside(d1, d2, r, s, e1, e2),
        r < i,
        outside(i, s, e1),
        i != s,
        outside(from, s, e1),
        0 <= from <= d1.len(),
    ensures
        tree_scan(d1, i, from, parent) == tree_scan(
            d2,
            moved(i, s, e1, e2),
            moved(from, s, e1, e2),
            parent,
        ),
    decreases d1.len() - i, d1.len() - from,
{
    if from > i && from < d1.len() {
        lemma_child_moved(d1, d2, r, s, e1, e2, i, from);
        if from == s {
            lemma_inside_not_children(d1, d2, r, s, e1, e2, i);
            lemma_tree_scan_skip(d1, i, s + 1, e1, parent);
            lemma_tree_scan_skip(d2, moved(i, s, e1, e2), s + 1, e2, parent);
            lemma_tree_scan_moved(d1, d2, r, s, e1, e2, i, e1, parent);
        } else {
            if is_child_element(d1, i, from) {
                lemma_filter_moved(d1, d2, r, s, e1, e2, from);
                lemma_file_moved(d1, d2, r, s, e1, e2, from);
            }
            lemma_tree_scan_moved(d1, d2, r, s, e1, e2, i, from + 1, parent);
        }
    }
}

proof fn lemma_filter_moved(
    d1: Seq<NodeView>,
    d2: Seq<NodeView>,
    r: int,
    s: int,
    e1: int,
    e2: int,
    i: int,
)
    requires
        same_but_inside(d1, d2, r, s, e1, e2),
        r < i < d1.len(),
        outside(i, s, e1),
        i != s,
    ensures
        spec_filter(d1, i) == spec_filter(d2, moved(i, s, e1, e2)),
    decreases d1.len() - i, d1.len() - i,
{
    lemma_child_moved(d1, d2, r, s, e1, e2, i, i);
    lemma_tree_scan_moved(d1, d2, r, s, e1, e2, i, i + 1, "Filter"@);
}

proof fn lemma_project_scan_skip(d: Seq<NodeView>, i: int, a: int, b: int)
    requires
        i < a <= b,
        forall|k: int| a <= k < b ==> !is_child_element(d, i, k),
    ensures
        project_scan(d, i, a) == project_scan(d, i, b),
    decreases b - a,
{
    if a < b {
        lemma_project_scan_skip(d, i, a + 1, b);
    }
}

proof fn lemma_skipped_names(n: Seq<char>)
    requires
        is_skipped_section(n),
    ensures
        n != "Platforms"@,
        n != "Configurations"@,
        n != "Files"@,
        n != "ToolFiles"@,
{
    reveal_strlit("References");
    reveal_strlit("Globals");
    reveal_strlit("Platforms");
    reveal_strlit("Configurations");
    reveal_strlit("Files");
    reveal_strlit("ToolFiles");
    assert("References"@.len() != "Platforms"@.len());
    assert("Globals"@.len() != "Platforms"@.len());
    assert("References"@.len() != "Configurations"@.len());
    assert("Globals"@.len() != "Configurations"@.len());
    assert("References"@.len() != "Files"@.len());
    assert("Globals"@[0] != "Files"@[0]);
    assert("References"@.len() != "ToolFiles"@.len());
    assert("Globals"@.len() != "ToolFiles"@.len());
}

#[verifier::rlimit(40)]
proof fn lemma_project_scan_moved(
    d1: Seq<NodeView>,
    d2: Seq<NodeView>,
    r: int,
    s: int,
    e1: int,
    e2: int,
    from: int,
)
    requires
        same_but_inside(d1, d2, r, s, e1, e2),
        is_skipped_section(d1[s].name),
        outside(from, s, e1),
        0 <= from <= d1.len(),
    ensures
        project_scan(d1, r, from) == project_scan(d2, r, moved(from, s, e1, e2)),
    decreases d1.len() - from,
{
    if from > r && from < d1.len() {
        lemma_child_moved(d1, d2, r, s, e1, e2, r, from);
        if from == s {
            lemma_skipped_names(d1[s].name);
            lemma_inside_not_children(d1, d2, r, s, e1, e2, r);
            lemma_project_scan_skip(d1, r, s + 1, e1);
            lemma_project_scan_skip(d2, r, s + 1, e2);
            lemma_project_scan_moved(d1, d2, r, s, e1, e2, e1);
        } else {
            if is_child_element(d1, r, from) {
                if d1[from].name == "Platforms"@ {
                    lemma_platforms_scan_moved(d1, d2, r, s, e1, e2, from, from + 1);
                } else if d1[from].name == "Configurations"@ {
                    lemma_configurations_scan_moved(d1, d2, r, s, e1, e2, from, from + 1);
                } else if d1[from].name == "Files"@ {
                    lemma_tree_scan_moved(d1, d2, r, s, e1, e2, from, from + 1, "Files"@);
                } else if d1[from].name == "ToolFiles"@ {
                    lemma_child_elements_moved(d1, d2, r, s, e1, e2, from, from + 1);
                }
            }
            lemma_project_scan_moved(d1, d2, r, s, e1, e2, from + 1);
        }
    }
}

proof fn lemma_one_section_unread(d1: Seq<NodeView>, d2: Seq<NodeView>, r: int, s: int, e1: int, e2: int)
    requires
        root_element(d1) == Some(r),
        same_but_inside(d1, d2, r, s, e1, e2),
        is_skipped_section(d1[s].name),
    ensures
        spec_project_nodes(d1) == spec_project_nodes(d2),
{
    crate::xml::lemma_child_elements_bounds(d1, 0, 1);
    assert(is_child_element(d1, 0, r));
    lemma_child_elements_moved(d1, d2, r, s, e1, e2, 0, 1);
    lemma_child_moved(d1, d2, r, s, e1, e2, r, r);
    lemma_project_scan_moved(d1, d2, r, s, e1, e2, r + 1);
}

/// One step of a change inside skipped sections: the root element `r`, the
/// `References` or `Globals` section `s` of it, and the ends `e1` and `e2` of
/// the nodes inside it before and after.
pub struct SectionChange {
    pub r: int,
    pub s: int,
    pub e1: int,
    pub e2: int,
}

/// Each node list of `ds` is the one before it with the nodes inside one
/// `References` or `Globals` section of the root element replaced, as `steps`
/// says.
pub open spec fn differ_inside_skipped(ds: Seq<Seq<NodeView>>, steps: Seq<SectionChange>) -> bool {
    &&& ds.len() == steps.len() + 1
    &&& forall|k: int|
        0 <= k < steps.len() ==> {
            let c = #[trigger] steps[k];
            &&& root_element(ds[k]) == Some(c.r)
            &&& same_but_inside(ds[k], ds[k + 1], c.r, c.s, c.e1, c.e2)
            &&& is_skipped_section(ds[k][c.s].name)
        }
}

/// The project reader never looks inside `References` or `Globals` sections:
/// two node lists that differ only in the nodes inside any number of such
/// sections of the root element, however many nodes there are in each on
/// either side, read the same. The sections are changed one after another,
/// from the first list `ds[0]` to the last.
pub proof fn law_skipped_sections_unread_nodes(ds: Seq<Seq<NodeView>>, steps: Seq<SectionChange>)
    requires
        differ_inside_skipped(ds, steps),
    ensures
        spec_project_nodes(ds[0]) == spec_project_nodes(ds[ds.len() - 1]),
    decreases steps.len(),
{
    if steps.len() > 0 {
        let c = steps[0];
        lemma_one_section_unread(ds[0], ds[1], c.r, c.s, c.e1, c.e2);
        let rest = ds.skip(1);
        let rest_steps = steps.skip(1);
        assert forall|k: int| 0 <= k < rest_steps.len() implies {
            let c = #[trigger] rest_steps[k];
            &&& root_element(rest[k]) == Some(c.r)
            &&& same_but_inside(rest[k], rest[k + 1], c.r, c.s, c.e1, c.e2)
            &&& is_skipped_section(rest[k][c.s].name)
        } by {
            assert(rest_steps[k] == steps[k + 1]);
            assert(rest[k] == ds[k + 1]);
            assert(rest[k + 1] == ds[k + 2]);
        }
        law_skipped_sections_unread_nodes(rest, rest_steps);
        assert(rest[rest.len() - 1] == ds[ds.len() - 1]);
    }
}

/// Two project files whose XML documents differ only inside `References` or
/// `Globals` sections of the root element, as [`differ_inside_skipped`] says,
/// read the same.
pub proof fn law_skipped_sections_unread(
    input1: Seq<char>,
    input2: Seq<char>,
    ds: Seq<Seq<NodeView>>,
    steps: Seq<SectionChange>,
)
    requires
        differ_inside_skipped(ds, steps),
        xml_document_nodes(input1) == Ok::<Seq<NodeView>, Seq<char>>(ds[0]),
        xml_document_nodes(input2) == Ok::<Seq<NodeView>, Seq<char>>(ds[ds.len() - 1]),
    ensures
        spec_project(input1) == spec_project(input2),
{
    law_skipped_sections_unread_nodes(ds, steps);
}


/// Each compiler setting is read from the attribute that bears its name: the
/// last one of that name, other than `Name` attributes; an absent attribute
/// leaves the setting out.
pub proof fn law_compiler_tool_reads_named_attributes(d: Seq<NodeView>, i: int, x: CompilerTool)
    requires
        spec_compiler_tool(d, i) == Ok::<Seq<FieldValueModel>, XmlErrorModel>(x.field_values()),
    ensures
        x.additional_options.deep_view() == last_value(attributes_without(d[i].attributes, "Name"@), "AdditionalOptions"@),
        x.optimization == attr_u8(attributes_without(d[i].attributes, "Name"@), "Optimization"@),
        x.inline_function_expansion == attr_u8(attributes_without(d[i].attributes, "Name"@), "InlineFunctionExpansion"@),
        x.enable_intrinsic_functions == attr_bool(attributes_without(d[i].attributes, "Name"@), "EnableIntrinsicFunctions"@),
        x.omit_frame_pointers == attr_bool(attributes_without(d[i].attributes, "Name"@), "OmitFramePointers"@),
        x.enable_fiber_safe_optimizations == attr_bool(attributes_without(d[i].attributes, "Name"@), "EnableFiberSafeOptimizations"@),
        x.additional_include_directories.deep_view() == attr_list(attributes_without(d[i].attributes, "Name"@), "AdditionalIncludeDirectories"@),
        x.preprocessor_definitions.deep_view() == attr_list(attributes_without(d[i].attributes, "Name"@), "PreprocessorDefinitions"@),
        x.string_pooling == attr_bool(attributes_without(d[i].attributes, "Name"@), "StringPooling"@),
        x.minimal_rebuild == attr_bool(attributes_without(d[i].attributes, "Name"@), "MinimalRebuild"@),
        x.exception_handling == attr_u8(attributes_without(d[i].attributes, "Name"@), "ExceptionHandling"@),
        x.runtime_library == attr_u8(attributes_without(d[i].attributes, "Name"@), "RuntimeLibrary"@),
        x.buffer_security_check == attr_bool(attributes_without(d[i].attributes, "Name"@), "BufferSecurityCheck"@),
        x.enable_enhanced_instruction_set == attr_u8(attributes_without(d[i].attributes, "Name"@), "EnableEnhancedInstructionSet"@),
        x.floating_point_model == attr_u8(attributes_without(d[i].attributes, "Name"@), "FloatingPointModel"@),
        x.use_precompiled_header == attr_u8(attributes_without(d[i].attributes, "Name"@), "UsePrecompiledHeader"@),
        x.precompiled_header_through.deep_view() == last_value(attributes_without(d[i].attributes, "Name"@), "PrecompiledHeaderThrough"@),
        x.warning_level == attr_u8(attributes_without(d[i].attributes, "Name"@), "WarningLevel"@),
        x.detect_64_bit_portability_problems == attr_bool(attributes_without(d[i].attributes, "Name"@), "Detect64BitPortabilityProblems"@),
        x.debug_information_format == attr_u8(attributes_without(d[i].attributes, "Name"@), "DebugInformationFormat"@),
        x.basic_runtime_checks == attr_u8(attributes_without(d[i].attributes, "Name"@), "BasicRuntimeChecks"@),
        x.favor_size_or_speed == attr_u8(attributes_without(d[i].attributes, "Name"@), "FavorSizeOrSpeed"@),
        x.enable_function_level_linking == attr_bool(attributes_without(d[i].attributes, "Name"@), "EnableFunctionLevelLinking"@),
        x.precompiled_header_file.deep_view() == last_value(attributes_without(d[i].attributes, "Name"@), "PrecompiledHeaderFile"@),
        x.whole_program_optimization == attr_bool(attributes_without(d[i].attributes, "Name"@), "WholeProgramOptimization"@),
        x.smaller_type_check == attr_bool(attributes_without(d[i].attributes, "Name"@), "SmallerTypeCheck"@),
        x.assembler_listing_location.deep_view() == last_value(attributes_without(d[i].attributes, "Name"@), "AssemblerListingLocation"@),
        x.browse_information == attr_u8(attributes_without(d[i].attributes, "Name"@), "BrowseInformation"@),
        x.calling_convention == attr_u8(attributes_without(d[i].attributes, "Name"@), "CallingConvention"@),
        x.compile_as == attr_u8(attributes_without(d[i].attributes, "Name"@), "CompileAs"@),
        x.disable_specific_warnings.deep_view() == attr_list(attributes_without(d[i].attributes, "Name"@), "DisableSpecificWarnings"@),
        x.floating_point_exceptions == attr_bool(attributes_without(d[i].attributes, "Name"@), "FloatingPointExceptions"@),
        x.force_conformance_in_for_loop_scope == attr_bool(attributes_without(d[i].attributes, "Name"@), "ForceConformanceInForLoopScope"@),
        x.generate_preprocessed_file == attr_u8(attributes_without(d[i].attributes, "Name"@), "GeneratePreprocessedFile"@),
        x.object_file.deep_view() == last_value(attributes_without(d[i].attributes, "Name"@), "ObjectFile"@),
        x.program_data_base_file_name.deep_view() == last_value(attributes_without(d[i].attributes, "Name"@), "ProgramDataBaseFileName"@),
        x.runtime_type_info == attr_bool(attributes_without(d[i].attributes, "Name"@), "RuntimeTypeInfo"@),
        x.show_includes == attr_bool(attributes_without(d[i].attributes, "Name"@), "ShowIncludes"@),
        x.struct_member_alignment == attr_u8(attributes_without(d[i].attributes, "Name"@), "StructMemberAlignment"@),
        x.suppress_startup_banner == attr_bool(attributes_without(d[i].attributes, "Name"@), "SuppressStartupBanner"@),
        x.use_unicode_response_files == attr_bool(attributes_without(d[i].attributes, "Name"@), "UseUnicodeResponseFiles"@),
        x.execution_bucket == attr_u8(attributes_without(d[i].attributes, "Name"@), "ExecutionBucket"@),
{
    let vals = x.field_values();
    lemma_fields_read(d[i].attributes, "VCCLCompilerTool"@, CompilerTool::schema(), seq!["Name"@], vals);
    let k = kept_attributes(d[i].attributes, seq!["Name"@]);
    lemma_kept_one(d[i].attributes, "Name"@);
    assert(convert_field(k, CompilerTool::schema()[0]) == Ok::<FieldValueModel, XmlErrorModel>(vals[0]));
    assert(convert_field(k, CompilerTool::schema()[1]) == Ok::<FieldValueModel, XmlErrorModel>(vals[1]));
    assert(convert_field(k, CompilerTool::schema()[2]) == Ok::<FieldValueModel, XmlErrorModel>(vals[2]));
    assert(convert_field(k, CompilerTool::schema()[3]) == Ok::<FieldValueModel, XmlErrorModel>(vals[3]));
    assert(convert_field(k, CompilerTool::schema()[4]) == Ok::<FieldValueModel, XmlErrorModel>(vals[4]));
    assert(convert_field(k, CompilerTool::schema()[5]) == Ok::<FieldValueModel, XmlErrorModel>(vals[5]));
    assert(convert_field(k, CompilerTool::schema()[6]) == Ok::<FieldValueModel, XmlErrorModel>(vals[6]));
    assert(convert_field(k, CompilerTool::schema()[7]) == Ok::<FieldValueModel, XmlErrorModel>(vals[7]));
    assert(convert_field(k, CompilerTool::schema()[8]) == Ok::<FieldValueModel, XmlErrorModel>(vals[8]));
    assert(convert_field(k, CompilerTool::schema()[9]) == Ok::<FieldValueModel, XmlErrorModel>(vals[9]));
    assert(convert_field(k, CompilerTool::schema()[10]) == Ok::<FieldValueModel, XmlErrorModel>(vals[10]));
    assert(convert_field(k, CompilerTool::schema()[11]) == Ok::<FieldValueModel, XmlErrorModel>(vals[11]));
    assert(convert_field(k, CompilerTool::schema()[12]) == Ok::<FieldValueModel, XmlErrorModel>(vals[12]));
    assert(convert_field(k, CompilerTool::schema()[13]) == Ok::<FieldValueModel, XmlErrorModel>(vals[13]));
    assert(convert_field(k, CompilerTool::schema()[14]) == Ok::<FieldValueModel, XmlErrorModel>(vals[14]));
    assert(convert_field(k, CompilerTool::schema()[15]) == Ok::<FieldValueModel, XmlErrorModel>(vals[15]));
    assert(convert_field(k, CompilerTool::schema()[16]) == Ok::<FieldValueModel, XmlErrorModel>(vals[16]));
    assert(convert_field(k, CompilerTool::schema()[17]) == Ok::<FieldValueModel, XmlErrorModel>(vals[17]));
    assert(convert_field(k, CompilerTool::schema()[18]) == Ok::<FieldValueModel, XmlErrorModel>(vals[18]));
    assert(convert_field(k, CompilerTool::schema()[19]) == Ok::<FieldValueModel, XmlErrorModel>(vals[19]));
    assert(convert_field(k, CompilerTool::schema()[20]) == Ok::<FieldValueModel, XmlErrorModel>(vals[20]));
    assert(convert_field(k, CompilerTool::schema()[21]) == Ok::<FieldValueModel, XmlErrorModel>(vals[21]));
    assert(convert_field(k, CompilerTool::schema()[22]) == Ok::<FieldValueModel, XmlErrorModel>(vals[22]));
    assert(convert_field(k, CompilerTool::schema()[23]) == Ok::<FieldValueModel, XmlErrorModel>(vals[23]));
    assert(convert_field(k, CompilerTool::schema()[24]) == Ok::<FieldValueModel, XmlErrorModel>(vals[24]));
    assert(convert_field(k, CompilerTool::schema()[25]) == Ok::<FieldValueModel, XmlErrorModel>(vals[25]));
    assert(convert_field(k, CompilerTool::schema()[26]) == Ok::<FieldValueModel, XmlErrorModel>(vals[26]));
    assert(convert_field(k, CompilerTool::schema()[27]) == Ok::<FieldValueModel, XmlErrorModel>(vals[27]));
    assert(convert_field(k, CompilerTool::schema()[28]) == Ok::<FieldValueModel, XmlErrorModel>(vals[28]));
    assert(convert_field(k, CompilerTool::schema()[29]) == Ok::<FieldValueModel, XmlErrorModel>(vals[29]));
    assert(convert_field(k, CompilerTool::schema()[30]) == Ok::<FieldValueModel, XmlErrorModel>(vals[30]));
    assert(convert_field(k, CompilerTool::schema()[31]) == Ok::<FieldValueModel, XmlErrorModel>(vals[31]));
    assert(convert_field(k, CompilerTool::schema()[32]) == Ok::<FieldValueModel, XmlErrorModel>(vals[32]));
    assert(convert_field(k, CompilerTool::schema()[33]) == Ok::<FieldValueModel, XmlErrorModel>(vals[33]));
    assert(convert_field(k, CompilerTool::schema()[34]) == Ok::<FieldValueModel, XmlErrorModel>(vals[34]));
    assert(convert_field(k, CompilerTool::schema()[35]) == Ok::<FieldValueModel, XmlErrorModel>(vals[35]));
    assert(convert_field(k, CompilerTool::schema()[36]) == Ok::<FieldValueModel, XmlErrorModel>(vals[36]));
    assert(convert_field(k, CompilerTool::schema()[37]) == Ok::<FieldValueModel, XmlErrorModel>(vals[37]));
    assert(convert_field(k, CompilerTool::schema()[38]) == Ok::<FieldValueModel, XmlErrorModel>(vals[38]));
    assert(convert_field(k, CompilerTool::schema()[39]) == Ok::<FieldValueModel, XmlErrorModel>(vals[39]));
    assert(convert_field(k, CompilerTool::schema()[40]) == Ok::<FieldValueModel, XmlErrorModel>(vals[40]));
    assert(convert_field(k, CompilerTool::schema()[41]) == Ok::<FieldValueModel, XmlErrorModel>(vals[41]));
}

/// The attributes of a project: each field is read from the attribute that bears its name, the
/// last one of that name; an absent attribute leaves an optional field out.
pub proof fn law_project_reads_named_attributes(d: Seq<NodeView>, r: int, x: VCProject)
    requires
        root_element(d) == Some(r),
        spec_project_nodes(d) == Ok::<VCProjectModel, XmlErrorModel>(x.model()),
    ensures
        last_value(d[r].attributes, "Name"@) == Some(x.name@),
        last_value(d[r].attributes, "ProjectType"@) == Some(x.project_type@),
        last_value(d[r].attributes, "Version"@) == Some(x.version@),
        last_value(d[r].attributes, "ProjectGUID"@) == Some(x.guid@),
        last_value(d[r].attributes, "RootNamespace"@) == Some(x.root_namespace@),
        x.keyword.deep_view() == last_value(d[r].attributes, "Keyword"@),
        last_value(d[r].attributes, "TargetFrameworkVersion"@) == Some(x.target_framework_version@),
{
    let vals = x.field_values();
    lemma_fields_read(d[r].attributes, "VCProject"@, VCProject::schema(), Seq::<Seq<char>>::empty(), vals);
    let k = kept_attributes(d[r].attributes, Seq::<Seq<char>>::empty());
    lemma_kept_all(d[r].attributes);
    assert(convert_field(k, VCProject::schema()[0]) == Ok::<FieldValueModel, XmlErrorModel>(vals[0]));
    assert(convert_field(k, VCProject::schema()[1]) == Ok::<FieldValueModel, XmlErrorModel>(vals[1]));
    assert(convert_field(k, VCProject::schema()[2]) == Ok::<FieldValueModel, XmlErrorModel>(vals[2]));
    assert(convert_field(k, VCProject::schema()[3]) == Ok::<FieldValueModel, XmlErrorModel>(vals[3]));
    assert(convert_field(k, VCProject::schema()[4]) == Ok::<FieldValueModel, XmlErrorModel>(vals[4]));
    assert(convert_field(k, VCProject::schema()[5]) == Ok::<FieldValueModel, XmlErrorModel>(vals[5]));
    assert(convert_field(k, VCProject::schema()[6]) == Ok::<FieldValueModel, XmlErrorModel>(vals[6]));
}

/// The child named `VCCLCompilerTool` among the `Tool` children of `i` from `from` on
/// from which the scan of those children read its compiler tool.
proof fn lemma_compiler_read_from_child(d: Seq<NodeView>, i: int, from: int) -> (j: int)
    requires
        tools_scan(d, i, from) matches Ok(t) && t.0 is Some,
    ensures
        from <= j,
        is_child_element(d, i, j),
        d[j].name == "Tool"@,
        first_value(d[j].attributes, "Name"@) == Some("VCCLCompilerTool"@),
        spec_compiler_tool(d, j) == Ok::<Seq<FieldValueModel>, XmlErrorModel>(tools_scan(d, i, from)->Ok_0.0->Some_0),
    decreases d.len() - from,
{
    if !(from > i && from < d.len()) {
        assert(tools_scan(d, i, from) is Ok && tools_scan(d, i, from)->Ok_0.0 is None);
        from
    } else if is_child_element(d, i, from) && d[from].name == "Tool"@ {
            if first_value(d[from].attributes, "Name"@) == Some("VCCLCompilerTool"@) {
                let c = spec_compiler_tool(d, from)->Ok_0;
                let rest = tools_scan(d, i, from + 1)->Ok_0;
                assert(spec_compiler_tool(d, from) is Ok && tools_scan(d, i, from + 1) is Ok) by {
                    if !(spec_compiler_tool(d, from) is Ok) || !(tools_scan(d, i, from + 1) is Ok) {
                        assert(tools_scan(d, i, from) is Err);
                    }
                }
                assert(tools_scan(d, i, from) == Ok::<ToolsModel, XmlErrorModel>(((if rest.0 is Some { rest.0 } else { Some(c) }), rest.1, rest.2)));
                if rest.0 is Some {
                    lemma_compiler_read_from_child(d, i, from + 1)
                } else {
                    from
                }
            } else if first_value(d[from].attributes, "Name"@) == Some("VCLibrarianTool"@) {
                let c = spec_lib_tool(d, from)->Ok_0;
                let rest = tools_scan(d, i, from + 1)->Ok_0;
                assert(spec_lib_tool(d, from) is Ok && tools_scan(d, i, from + 1) is Ok) by {
                    if !(spec_lib_tool(d, from) is Ok) || !(tools_scan(d, i, from + 1) is Ok) {
                        assert(tools_scan(d, i, from) is Err);
                    }
                }
                assert(tools_scan(d, i, from) == Ok::<ToolsModel, XmlErrorModel>((rest.0, (if rest.1 is Some { rest.1 } else { Some(c) }), rest.2)));
                lemma_compiler_read_from_child(d, i, from + 1)
            } else if first_value(d[from].attributes, "Name"@) == Some("VCLinkerTool"@) {
                let c = spec_linker_tool(d, from)->Ok_0;
                let rest = tools_scan(d, i, from + 1)->Ok_0;
                assert(spec_linker_tool(d, from) is Ok && tools_scan(d, i, from + 1) is Ok) by {
                    if !(spec_linker_tool(d, from) is Ok) || !(tools_scan(d, i, from + 1) is Ok) {
                        assert(tools_scan(d, i, from) is Err);
                    }
                }
                assert(tools_scan(d, i, from) == Ok::<ToolsModel, XmlErrorModel>((rest.0, rest.1, (if rest.2 is Some { rest.2 } else { Some(c) }))));
                lemma_compiler_read_from_child(d, i, from + 1)
        } else {
            assert(tools_scan(d, i, from) == tools_scan(d, i, from + 1));
            lemma_compiler_read_from_child(d, i, from + 1)
        }
    } else {
        assert(tools_scan(d, i, from) == tools_scan(d, i, from + 1));
        lemma_compiler_read_from_child(d, i, from + 1)
    }
}

/// The child named `VCLibrarianTool` among the `Tool` children of `i` from `from` on
/// from which the scan of those children read its librarian tool.
proof fn lemma_librarian_read_from_child(d: Seq<NodeView>, i: int, from: int) -> (j: int)
    requires
        tools_scan(d, i, from) matches Ok(t) && t.1 is Some,
    ensures
        from <= j,
        is_child_element(d, i, j),
        d[j].name == "Tool"@,
        first_value(d[j].attributes, "Name"@) == Some("VCLibrarianTool"@),
        spec_lib_tool(d, j) == Ok::<Seq<FieldValueModel>, XmlErrorModel>(tools_scan(d, i, from)->Ok_0.1->Some_0),
    decreases d.len() - from,
{
    if !(from > i && from < d.len()) {
        assert(tools_scan(d, i, from) is Ok && tools_scan(d, i, from)->Ok_0.1 is None);
        from
    } else if is_child_element(d, i, from) && d[from].name == "Tool"@ {
            if first_value(d[from].attributes, "Name"@) == Some("VCCLCompilerTool"@) {
                let c = spec_compiler_tool(d, from)->Ok_0;
                let rest = tools_scan(d, i, from + 1)->Ok_0;
                assert(spec_compiler_tool(d, from) is Ok && tools_scan(d, i, from + 1) is Ok) by {
                    if !(spec_compiler_tool(d, from) is Ok) || !(tools_scan(d, i, from + 1) is Ok) {
                        assert(tools_scan(d, i, from) is Err);
                    }
                }
                assert(tools_scan(d, i, from) == Ok::<ToolsModel, XmlErrorModel>(((if rest.0 is Some { rest.0 } else { Some(c) }), rest.1, rest.2)));
                lemma_librarian_read_from_child(d, i, from + 1)
            } else if first_value(d[from].attributes, "Name"@) == Some("VCLibrarianTool"@) {
                let c = spec_lib_tool(d, from)->Ok_0;
                let rest = tools_scan(d, i, from + 1)->Ok_0;
                assert(spec_lib_tool(d, from) is Ok && tools_scan(d, i, from + 1) is Ok) by {
                    if !(spec_lib_tool(d, from) is Ok) || !(tools_scan(d, i, from + 1) is Ok) {
                        assert(tools_scan(d, i, from) is Err);
                    }
                }
                assert(tools_scan(d, i, from) == Ok::<ToolsModel, XmlErrorModel>((rest.0, (if rest.1 is Some { rest.1 } else { Some(c) }), rest.2)));
                if rest.1 is Some {
                    lemma_librarian_read_from_child(d, i, from + 1)
                } else {
                    from
                }
            } else if first_value(d[from].attributes, "Name"@) == Some("VCLinkerTool"@) {
                let c = spec_linker_tool(d, from)->Ok_0;
                let rest = tools_scan(d, i, from + 1)->Ok_0;
                assert(spec_linker_tool(d, from) is Ok && tools_scan(d, i, from + 1) is Ok) by {
                    if !(spec_linker_tool(d, from) is Ok) || !(tools_scan(d, i, from + 1) is Ok) {
                        assert(tools_scan(d, i, from) is Err);
                    }
                }
                assert(tools_scan(d, i, from) == Ok::<ToolsModel, XmlErrorModel>((rest.0, rest.1, (if rest.2 is Some { rest.2 } else { Some(c) }))));
                lemma_librarian_read_from_child(d, i, from + 1)
        } else {
            assert(tools_scan(d, i, from) == tools_scan(d, i, from + 1));
            lemma_librarian_read_from_child(d, i, from + 1)
        }
    } else {
        assert(tools_scan(d, i, from) == tools_scan(d, i, from + 1));
        lemma_librarian_read_from_child(d, i, from + 1)
    }
}

/// The child named `VCLinkerTool` among the `Tool` children of `i` from `from` on
/// from which the scan of those children read its linker tool.
proof fn lemma_linker_read_from_child(d: Seq<NodeView>, i: int, from: int) -> (j: int)
    requires
        tools_scan(d, i, from) matches Ok(t) && t.2 is Some,
    ensures
        from <= j,
        is_child_element(d, i, j),
        d[j].name == "Tool"@,
        first_value(d[j].attributes, "Name"@) == Some("VCLinkerTool"@),
        spec_linker_tool(d, j) == Ok::<Seq<FieldValueModel>, XmlErrorModel>(tools_scan(d, i, from)->Ok_0.2->Some_0),
    decreases d.len() - from,
{
    if !(from > i && from < d.len()) {
        assert(tools_scan(d, i, from) is Ok && tools_scan(d, i, from)->Ok_0.2 is None);
        from
    } else if is_child_element(d, i, from) && d[from].name == "Tool"@ {
            if first_value(d[from].attributes, "Name"@) == Some("VCCLCompilerTool"@) {
                let c = spec_compiler_tool(d, from)->Ok_0;
                let rest = tools_scan(d, i, from + 1)->Ok_0;
                assert(spec_compiler_tool(d, from) is Ok && tools_scan(d, i, from + 1) is Ok) by {
                    if !(spec_compiler_tool(d, from) is Ok) || !(tools_scan(d, i, from + 1) is Ok) {
                        assert(tools_scan(d, i, from) is Err);
                    }
                }
                assert(tools_scan(d, i, from) == Ok::<ToolsModel, XmlErrorModel>(((if rest.0 is Some { rest.0 } else { Some(c) }), rest.1, rest.2)));
                lemma_linker_read_from_child(d, i, from + 1)
            } else if first_value(d[from].attributes, "Name"@) == Some("VCLibrarianTool"@) {
                let c = spec_lib_tool(d, from)->Ok_0;
                let rest = tools_scan(d, i, from + 1)->Ok_0;
                assert(spec_lib_tool(d, from) is Ok && tools_scan(d, i, from + 1) is Ok) by {
                    if !(spec_lib_tool(d, from) is Ok) || !(tools_scan(d, i, from + 1) is Ok) {
                        assert(tools_scan(d, i, from) is Err);
                    }
                }
                assert(tools_scan(d, i, from) == Ok::<ToolsModel, XmlErrorModel>((rest.0, (if rest.1 is Some { rest.1 } else { Some(c) }), rest.2)));
                lemma_linker_read_from_child(d, i, from + 1)
            } else if first_value(d[from].attributes, "Name"@) == Some("VCLinkerTool"@) {
                let c = spec_linker_tool(d, from)->Ok_0;
                let rest = tools_scan(d, i, from + 1)->Ok_0;
                assert(spec_linker_tool(d, from) is Ok && tools_scan(d, i, from + 1) is Ok) by {
                    if !(spec_linker_tool(d, from) is Ok) || !(tools_scan(d, i, from + 1) is Ok) {
                        assert(tools_scan(d, i, from) is Err);
                    }
                }
                assert(tools_scan(d, i, from) == Ok::<ToolsModel, XmlErrorModel>((rest.0, rest.1, (if rest.2 is Some { rest.2 } else { Some(c) }))));
                if rest.2 is Some {
                    lemma_linker_read_from_child(d, i, from + 1)
                } else {
                    from
                }
        } else {
            assert(tools_scan(d, i, from) == tools_scan(d, i, from + 1));
            lemma_linker_read_from_child(d, i, from + 1)
        }
    } else {
        assert(tools_scan(d, i, from) == tools_scan(d, i, from + 1));
        lemma_linker_read_from_child(d, i, from + 1)
    }
}

/// A configuration: each field is read from the attribute that bears its name, the
/// last one of that name; an absent attribute leaves an optional field out.
pub proof fn law_configuration_reads_named_attributes(d: Seq<NodeView>, i: int, x: Configuration)
    requires
        spec_configuration(d, i) == Ok::<ConfigurationModel, XmlErrorModel>(x.model()),
    ensures
        last_value(d[i].attributes, "Name"@) == Some(x.name@),
        x.output_directory.deep_view() == last_value(d[i].attributes, "OutputDirectory"@),
        x.intermediate_directory.deep_view() == last_value(d[i].attributes, "IntermediateDirectory"@),
        attr_u8(d[i].attributes, "ConfigurationType"@) == Some(x.configuration_type),
        x.character_set == attr_u8(d[i].attributes, "CharacterSet"@),
        x.whole_program_optimization == attr_bool(d[i].attributes, "WholeProgramOptimization"@),
        x.managed_extensions == attr_u8(d[i].attributes, "ManagedExtensions"@),
        x.atl_minimizes_c_runtime_library_usage == attr_bool(d[i].attributes, "ATLMinimizesCRunTimeLibraryUsage"@),
        x.delete_extensions_on_clean.deep_view() == last_value(d[i].attributes, "DeleteExtensionsOnClean"@),
        x.inherited_property_sheets.deep_view() == attr_list(d[i].attributes, "InheritedPropertySheets"@),
        x.use_of_atl == attr_u8(d[i].attributes, "UseOfATL"@),
        x.use_of_mfc == attr_i8(d[i].attributes, "UseOfMFC"@),
        x.compiler_tool matches Some(ct) ==> exists|j: int|
            #![trigger spec_compiler_tool(d, j)]
            is_child_element(d, i, j) && d[j].name == "Tool"@ && first_value(d[j].attributes, "Name"@)
                == Some("VCCLCompilerTool"@) && spec_compiler_tool(d, j) == Ok::<Seq<FieldValueModel>, XmlErrorModel>(ct.field_values()),
        x.lib_tool matches Some(lt) ==> exists|j: int|
            #![trigger spec_lib_tool(d, j)]
            is_child_element(d, i, j) && d[j].name == "Tool"@ && first_value(d[j].attributes, "Name"@)
                == Some("VCLibrarianTool"@) && spec_lib_tool(d, j) == Ok::<Seq<FieldValueModel>, XmlErrorModel>(lt.field_values()),
        x.linker_tool matches Some(kt) ==> exists|j: int|
            #![trigger spec_linker_tool(d, j)]
            is_child_element(d, i, j) && d[j].name == "Tool"@ && first_value(d[j].attributes, "Name"@)
                == Some("VCLinkerTool"@) && spec_linker_tool(d, j) == Ok::<Seq<FieldValueModel>, XmlErrorModel>(kt.field_values()),
{
    if x.compiler_tool is Some {
        let j = lemma_compiler_read_from_child(d, i, i + 1);
        assert(spec_compiler_tool(d, j) == Ok::<Seq<FieldValueModel>, XmlErrorModel>(x.compiler_tool->Some_0.field_values()));
    }
    if x.lib_tool is Some {
        let j = lemma_librarian_read_from_child(d, i, i + 1);
        assert(spec_lib_tool(d, j) == Ok::<Seq<FieldValueModel>, XmlErrorModel>(x.lib_tool->Some_0.field_values()));
    }
    if x.linker_tool is Some {
        let j = lemma_linker_read_from_child(d, i, i + 1);
        assert(spec_linker_tool(d, j) == Ok::<Seq<FieldValueModel>, XmlErrorModel>(x.linker_tool->Some_0.field_values()));
    }
    let vals = x.field_values();
    lemma_fields_read(d[i].attributes, "Configuration"@, Configuration::schema(), Seq::<Seq<char>>::empty(), vals);
    let k = kept_attributes(d[i].attributes, Seq::<Seq<char>>::empty());
    lemma_kept_all(d[i].attributes);
    assert(convert_field(k, Configuration::schema()[0]) == Ok::<FieldValueModel, XmlErrorModel>(vals[0]));
    assert(convert_field(k, Configuration::schema()[1]) == Ok::<FieldValueModel, XmlErrorModel>(vals[1]));
    assert(convert_field(k, Configuration::schema()[2]) == Ok::<FieldValueModel, XmlErrorModel>(vals[2]));
    assert(convert_field(k, Configuration::schema()[3]) == Ok::<FieldValueModel, XmlErrorModel>(vals[3]));
    assert(convert_field(k, Configuration::schema()[4]) == Ok::<FieldValueModel, XmlErrorModel>(vals[4]));
    assert(convert_field(k, Configuration::schema()[5]) == Ok::<FieldValueModel, XmlErrorModel>(vals[5]));
    assert(convert_field(k, Configuration::schema()[6]) == Ok::<FieldValueModel, XmlErrorModel>(vals[6]));
    assert(convert_field(k, Configuration::schema()[7]) == Ok::<FieldValueModel, XmlErrorModel>(vals[7]));
    assert(convert_field(k, Configuration::schema()[8]) == Ok::<FieldValueModel, XmlErrorModel>(vals[8]));
    assert(convert_field(k, Configuration::schema()[9]) == Ok::<FieldValueModel, XmlErrorModel>(vals[9]));
    assert(convert_field(k, Configuration::schema()[10]) == Ok::<FieldValueModel, XmlErrorModel>(vals[10]));
    assert(convert_field(k, Configuration::schema()[11]) == Ok::<FieldValueModel, XmlErrorModel>(vals[11]));
}

/// A platform: each field is read from the attribute that bears its name, the
/// last one of that name; an absent attribute leaves an optional field out.
pub proof fn law_platform_reads_named_attributes(d: Seq<NodeView>, i: int, x: Platform)
    requires
        spec_platform(d, i) == Ok::<Seq<FieldValueModel>, XmlErrorModel>(x.field_values()),
    ensures
        last_value(d[i].attributes, "Name"@) == Some(x.name@),
{
    let vals = x.field_values();
    lemma_fields_read(d[i].attributes, "Platform"@, Platform::schema(), Seq::<Seq<char>>::empty(), vals);
    let k = kept_attributes(d[i].attributes, Seq::<Seq<char>>::empty());
    lemma_kept_all(d[i].attributes);
    assert(convert_field(k, Platform::schema()[0]) == Ok::<FieldValueModel, XmlErrorModel>(vals[0]));
}

/// The linker settings of a configuration: each field is read from the attribute that bears its name, the
/// last one of that name, other than `Name` attributes; an absent attribute leaves an optional field out.
pub proof fn law_linker_tool_reads_named_attributes(d: Seq<NodeView>, i: int, x: LinkerTool)
    requires
        spec_linker_tool(d, i) == Ok::<Seq<FieldValueModel>, XmlErrorModel>(x.field_values()),
    ensures
        x.additional_options.deep_view() == last_value(attributes_without(d[i].attributes, "Name"@), "AdditionalOptions"@),
        x.additional_dependencies.deep_view() == attr_list(attributes_without(d[i].attributes, "Name"@), "AdditionalDependencies"@),
        x.output_file.deep_view() == last_value(attributes_without(d[i].attributes, "Name"@), "OutputFile"@),
        x.link_incremental == attr_u8(attributes_without(d[i].attributes, "Name"@), "LinkIncremental"@),
        x.additional_library_directories.deep_view() == attr_list(attributes_without(d[i].attributes, "Name"@), "AdditionalLibraryDirectories"@),
        x.ignore_default_library_names.deep_view() == attr_list(attributes_without(d[i].attributes, "Name"@), "IgnoreDefaultLibraryNames"@),
        x.module_definition_file.deep_view() == last_value(attributes_without(d[i].attributes, "Name"@), "ModuleDefinitionFile"@),
        x.generate_debug_information == attr_bool(attributes_without(d[i].attributes, "Name"@), "GenerateDebugInformation"@),
        x.program_database_file.deep_view() == last_value(attributes_without(d[i].attributes, "Name"@), "ProgramDatabaseFile"@),
        x.generate_map_file == attr_bool(attributes_without(d[i].attributes, "Name"@), "GenerateMapFile"@),
        x.map_file_name.deep_view() == last_value(attributes_without(d[i].attributes, "Name"@), "MapFileName"@),
        x.map_exports == attr_bool(attributes_without(d[i].attributes, "Name"@), "MapExports"@),
        x.sub_system == attr_u8(attributes_without(d[i].attributes, "Name"@), "SubSystem"@),
        x.large_address_aware == attr_u8(attributes_without(d[i].attributes, "Name"@), "LargeAddressAware"@),
        x.optimize_references == attr_u8(attributes_without(d[i].attributes, "Name"@), "OptimizeReferences"@),
        x.enable_comdat_folding == attr_u8(attributes_without(d[i].attributes, "Name"@), "EnableCOMDATFolding"@),
        x.randomized_base_address == attr_u8(attributes_without(d[i].attributes, "Name"@), "RandomizedBaseAddress"@),
        x.data_execution_prevention == attr_u8(attributes_without(d[i].attributes, "Name"@), "DataExecutionPrevention"@),
        x.import_library.deep_view() == last_value(attributes_without(d[i].attributes, "Name"@), "ImportLibrary"@),
        x.target_machine == attr_u8(attributes_without(d[i].attributes, "Name"@), "TargetMachine"@),
        x.assembly_debug == attr_u8(attributes_without(d[i].attributes, "Name"@), "AssemblyDebug"@),
        x.assembly_link_resource.deep_view() == last_value(attributes_without(d[i].attributes, "Name"@), "AssemblyLinkResource"@),
        x.base_address.deep_view() == last_value(attributes_without(d[i].attributes, "Name"@), "BaseAddress"@),
        x.clr_thread_attribute == attr_u8(attributes_without(d[i].attributes, "Name"@), "CLRThreadAttribute"@),
        x.delay_load_dlls.deep_view() == attr_list(attributes_without(d[i].attributes, "Name"@), "DelayLoadDLLs"@),
        x.embed_managed_resource_file.deep_view() == last_value(attributes_without(d[i].attributes, "Name"@), "EmbedManagedResourceFile"@),
        x.entry_point_symbol.deep_view() == last_value(attributes_without(d[i].attributes, "Name"@), "EntryPointSymbol"@),
        x.fixed_base_address == attr_u8(attributes_without(d[i].attributes, "Name"@), "FixedBaseAddress"@),
        x.generate_manifest == attr_bool(attributes_without(d[i].attributes, "Name"@), "GenerateManifest"@),
        x.ignore_import_library == attr_bool(attributes_without(d[i].attributes, "Name"@), "IgnoreImportLibrary"@),
        x.optimize_for_windows98 == attr_u8(attributes_without(d[i].attributes, "Name"@), "OptimizeForWindows98"@),
        x.support_unload_of_delay_loaded_dll == attr_bool(attributes_without(d[i].attributes, "Name"@), "SupportUnloadOfDelayLoadedDLL"@),
        x.version.deep_view() == last_value(attributes_without(d[i].attributes, "Name"@), "Version"@),
{
    let vals = x.field_values();
    lemma_fields_read(d[i].attributes, "VCLinkerTool"@, LinkerTool::schema(), seq!["Name"@], vals);
    let k = kept_attributes(d[i].attributes, seq!["Name"@]);
    lemma_kept_one(d[i].attributes, "Name"@);
    assert(convert_field(k, LinkerTool::schema()[0]) == Ok::<FieldValueModel, XmlErrorModel>(vals[0]));
    assert(convert_field(k, LinkerTool::schema()[1]) == Ok::<FieldValueModel, XmlErrorModel>(vals[1]));
    assert(convert_field(k, LinkerTool::schema()[2]) == Ok::<FieldValueModel, XmlErrorModel>(vals[2]));
    assert(convert_field(k, LinkerTool::schema()[3]) == Ok::<FieldValueModel, XmlErrorModel>(vals[3]));
    assert(convert_field(k, LinkerTool::schema()[4]) == Ok::<FieldValueModel, XmlErrorModel>(vals[4]));
    assert(convert_field(k, LinkerTool::schema()[5]) == Ok::<FieldValueModel, XmlErrorModel>(vals[5]));
    assert(convert_field(k, LinkerTool::schema()[6]) == Ok::<FieldValueModel, XmlErrorModel>(vals[6]));
    assert(convert_field(k, LinkerTool::schema()[7]) == Ok::<FieldValueModel, XmlErrorModel>(vals[7]));
    assert(convert_field(k, LinkerTool::schema()[8]) == Ok::<FieldValueModel, XmlErrorModel>(vals[8]));
    assert(convert_field(k, LinkerTool::schema()[9]) == Ok::<FieldValueModel, XmlErrorModel>(vals[9]));
    assert(convert_field(k, LinkerTool::schema()[10]) == Ok::<FieldValueModel, XmlErrorModel>(vals[10]));
    assert(convert_field(k, LinkerTool::schema()[11]) == Ok::<FieldValueModel, XmlErrorModel>(vals[11]));
    assert(convert_field(k, LinkerTool::schema()[12]) == Ok::<FieldValueModel, XmlErrorModel>(vals[12]));
    assert(convert_field(k, LinkerTool::schema()[13]) == Ok::<FieldValueModel, XmlErrorModel>(vals[13]));
    assert(convert_field(k, LinkerTool::schema()[14]) == Ok::<FieldValueModel, XmlErrorModel>(vals[14]));
    assert(convert_field(k, LinkerTool::schema()[15]) == Ok::<FieldValueModel, XmlErrorModel>(vals[15]));
    assert(convert_field(k, LinkerTool::schema()[16]) == Ok::<FieldValueModel, XmlErrorModel>(vals[16]));
    assert(convert_field(k, LinkerTool::schema()[17]) == Ok::<FieldValueModel, XmlErrorModel>(vals[17]));
    assert(convert_field(k, LinkerTool::schema()[18]) == Ok::<FieldValueModel, XmlErrorModel>(vals[18]));
    assert(convert_field(k, LinkerTool::schema()[19]) == Ok::<FieldValueModel, XmlErrorModel>(vals[19]));
    assert(convert_field(k, LinkerTool::schema()[20]) == Ok::<FieldValueModel, XmlErrorModel>(vals[20]));
    assert(convert_field(k, LinkerTool::schema()[21]) == Ok::<FieldValueModel, XmlErrorModel>(vals[21]));
    assert(convert_field(k, LinkerTool::schema()[22]) == Ok::<FieldValueModel, XmlErrorModel>(vals[22]));
    assert(convert_field(k, LinkerTool::schema()[23]) == Ok::<FieldValueModel, XmlErrorModel>(vals[23]));
    assert(convert_field(k, LinkerTool::schema()[24]) == Ok::<FieldValueModel, XmlErrorModel>(vals[24]));
    assert(convert_field(k, LinkerTool::schema()[25]) == Ok::<FieldValueModel, XmlErrorModel>(vals[25]));
    assert(convert_field(k, LinkerTool::schema()[26]) == Ok::<FieldValueModel, XmlErrorModel>(vals[26]));
    assert(convert_field(k, LinkerTool::schema()[27]) == Ok::<FieldValueModel, XmlErrorModel>(vals[27]));
    assert(convert_field(k, LinkerTool::schema()[28]) == Ok::<FieldValueModel, XmlErrorModel>(vals[28]));
    assert(convert_field(k, LinkerTool::schema()[29]) == Ok::<FieldValueModel, XmlErrorModel>(vals[29]));
    assert(convert_field(k, LinkerTool::schema()[30]) == Ok::<FieldValueModel, XmlErrorModel>(vals[30]));
    assert(convert_field(k, LinkerTool::schema()[31]) == Ok::<FieldValueModel, XmlErrorModel>(vals[31]));
    assert(convert_field(k, LinkerTool::schema()[32]) == Ok::<FieldValueModel, XmlErrorModel>(vals[32]));
}

/// The librarian settings of a configuration: each field is read from the attribute that bears its name, the
/// last one of that name, other than `Name` attributes; an absent attribute leaves an optional field out.
pub proof fn law_lib_tool_reads_named_attributes(d: Seq<NodeView>, i: int, x: LibTool)
    requires
        spec_lib_tool(d, i) == Ok::<Seq<FieldValueModel>, XmlErrorModel>(x.field_values()),
    ensures
        x.additional_options.deep_view() == last_value(attributes_without(d[i].attributes, "Name"@), "AdditionalOptions"@),
        x.output_file.deep_view() == last_value(attributes_without(d[i].attributes, "Name"@), "OutputFile"@),
        x.additional_library_directories.deep_view() == attr_list(attributes_without(d[i].attributes, "Name"@), "AdditionalLibraryDirectories"@),
        x.ignore_default_library_names.deep_view() == attr_list(attributes_without(d[i].attributes, "Name"@), "IgnoreDefaultLibraryNames"@),
        x.suppress_startup_banner == attr_bool(attributes_without(d[i].attributes, "Name"@), "SuppressStartupBanner"@),
{
    let vals = x.field_values();
    lemma_fields_read(d[i].attributes, "VCLibrarianTool"@, LibTool::schema(), seq!["Name"@], vals);
    let k = kept_attributes(d[i].attributes, seq!["Name"@]);
    lemma_kept_one(d[i].attributes, "Name"@);
    assert(convert_field(k, LibTool::schema()[0]) == Ok::<FieldValueModel, XmlErrorModel>(vals[0]));
    assert(convert_field(k, LibTool::schema()[1]) == Ok::<FieldValueModel, XmlErrorModel>(vals[1]));
    assert(convert_field(k, LibTool::schema()[2]) == Ok::<FieldValueModel, XmlErrorModel>(vals[2]));
    assert(convert_field(k, LibTool::schema()[3]) == Ok::<FieldValueModel, XmlErrorModel>(vals[3]));
    assert(convert_field(k, LibTool::schema()[4]) == Ok::<FieldValueModel, XmlErrorModel>(vals[4]));
}

/// A folder of the file tree: each field is read from the attribute that bears its name, the
/// last one of that name; an absent attribute leaves an optional field out.
pub proof fn law_filter_reads_named_attributes(d: Seq<NodeView>, i: int, x: Filter)
    requires
        spec_filter(d, i) == Ok::<FilterModel, XmlErrorModel>(x.model()),
    ensures
        last_value(d[i].attributes, "Name"@) == Some(x.name@),
        x.filter.deep_view() == attr_list(d[i].attributes, "Filter"@),
        x.unique_identifier.deep_view() == last_value(d[i].attributes, "UniqueIdentifier"@),
{
    let vals = x.field_values();
    lemma_fields_read(d[i].attributes, "Filter"@, Filter::schema(), Seq::<Seq<char>>::empty(), vals);
    let k = kept_attributes(d[i].attributes, Seq::<Seq<char>>::empty());
    lemma_kept_all(d[i].attributes);
    assert(convert_field(k, Filter::schema()[0]) == Ok::<FieldValueModel, XmlErrorModel>(vals[0]));
    assert(convert_field(k, Filter::schema()[1]) == Ok::<FieldValueModel, XmlErrorModel>(vals[1]));
    assert(convert_field(k, Filter::schema()[2]) == Ok::<FieldValueModel, XmlErrorModel>(vals[2]));
}

/// A file: each field is read from the attribute that bears its name, the
/// last one of that name; an absent attribute leaves an optional field out.
pub proof fn law_file_reads_named_attributes(d: Seq<NodeView>, i: int, x: File)
    requires
        spec_file(d, i) == Ok::<FileModel, XmlErrorModel>(x.model()),
    ensures
        last_value(d[i].attributes, "RelativePath"@) == Some(x.relative_path@),
        x.file_type == attr_u8(d[i].attributes, "FileType"@),
        x.sub_type.deep_view() == last_value(d[i].attributes, "SubType"@),
{
    let vals = x.field_values();
    lemma_fields_read(d[i].attributes, "File"@, File::schema(), Seq::<Seq<char>>::empty(), vals);
    let k = kept_attributes(d[i].attributes, Seq::<Seq<char>>::empty());
    lemma_kept_all(d[i].attributes);
    assert(convert_field(k, File::schema()[0]) == Ok::<FieldValueModel, XmlErrorModel>(vals[0]));
    assert(convert_field(k, File::schema()[1]) == Ok::<FieldValueModel, XmlErrorModel>(vals[1]));
    assert(convert_field(k, File::schema()[2]) == Ok::<FieldValueModel, XmlErrorModel>(vals[2]));
}

/// A file configuration: each field is read from the attribute that bears its name, the
/// last one of that name; an absent attribute leaves an optional field out.
/// Its tool is read from its first `Tool` child.
pub proof fn law_file_configuration_reads_named_attributes(d: Seq<NodeView>, i: int, x: FileConfiguration)
    requires
        spec_file_configuration(d, i) == Ok::<FileConfigurationModel, XmlErrorModel>(x.model()),
    ensures
        last_value(d[i].attributes, "Name"@) == Some(x.name@),
        x.excluded_from_build == attr_bool(d[i].attributes, "ExcludedFromBuild"@),
        (first_child_from(d, i, "Tool"@, i + 1) matches Some(j) && spec_tool(d, j) == Ok::<Seq<FieldValueModel>, XmlErrorModel>(x.tool.field_values())),
{
    let vals = x.field_values();
    lemma_fields_read(d[i].attributes, "FileConfiguration"@, FileConfiguration::schema(), Seq::<Seq<char>>::empty(), vals);
    let k = kept_attributes(d[i].attributes, Seq::<Seq<char>>::empty());
    lemma_kept_all(d[i].attributes);
    assert(convert_field(k, FileConfiguration::schema()[0]) == Ok::<FieldValueModel, XmlErrorModel>(vals[0]));
    assert(convert_field(k, FileConfiguration::schema()[1]) == Ok::<FieldValueModel, XmlErrorModel>(vals[1]));
}

/// The tool settings of a file configuration: each field is read from the attribute that bears its name, the
/// last one of that name; an absent attribute leaves an optional field out.
pub proof fn law_tool_reads_named_attributes(d: Seq<NodeView>, i: int, x: Tool)
    requires
        spec_tool(d, i) == Ok::<Seq<FieldValueModel>, XmlErrorModel>(x.field_values()),
    ensures
        last_value(d[i].attributes, "Name"@) == Some(x.name@),
        x.use_precompiled_header == attr_u8(d[i].attributes, "UsePrecompiledHeader"@),
        x.additional_options.deep_view() == last_value(d[i].attributes, "AdditionalOptions"@),
        x.basic_runtime_checks == attr_u8(d[i].attributes, "BasicRuntimeChecks"@),
        x.disable_specific_warnings.deep_view() == attr_list(d[i].attributes, "DisableSpecificWarnings"@),
        x.generate_preprocessed_file == attr_u8(d[i].attributes, "GeneratePreprocessedFile"@),
        x.object_file.deep_view() == last_value(d[i].attributes, "ObjectFile"@),
        x.optimization == attr_u8(d[i].attributes, "Optimization"@),
        x.precompiled_header_file.deep_view() == last_value(d[i].attributes, "PrecompiledHeaderFile"@),
        x.precompiled_header_through.deep_view() == last_value(d[i].attributes, "PrecompiledHeaderThrough"@),
        x.preprocessor_definitions.deep_view() == attr_list(d[i].attributes, "PreprocessorDefinitions"@),
        x.show_includes == attr_bool(d[i].attributes, "ShowIncludes"@),
        x.warning_level == attr_u8(d[i].attributes, "WarningLevel"@),
        x.xml_documentation_file_name.deep_view() == last_value(d[i].attributes, "XMLDocumentationFileName"@),
{
    let vals = x.field_values();
    lemma_fields_read(d[i].attributes, "Tool"@, Tool::schema(), Seq::<Seq<char>>::empty(), vals);
    let k = kept_attributes(d[i].attributes, Seq::<Seq<char>>::empty());
    lemma_kept_all(d[i].attributes);
    assert(convert_field(k, Tool::schema()[0]) == Ok::<FieldValueModel, XmlErrorModel>(vals[0]));
    assert(convert_field(k, Tool::schema()[1]) == Ok::<FieldValueModel, XmlErrorModel>(vals[1]));
    assert(convert_field(k, Tool::schema()[2]) == Ok::<FieldValueModel, XmlErrorModel>(vals[2]));
    assert(convert_field(k, Tool::schema()[3]) == Ok::<FieldValueModel, XmlErrorModel>(vals[3]));
    assert(convert_field(k, Tool::schema()[4]) == Ok::<FieldValueModel, XmlErrorModel>(vals[4]));
    assert(convert_field(k, Tool::schema()[5]) == Ok::<FieldValueModel, XmlErrorModel>(vals[5]));
    assert(convert_field(k, Tool::schema()[6]) == Ok::<FieldValueModel, XmlErrorModel>(vals[6]));
    assert(convert_field(k, Tool::schema()[7]) == Ok::<FieldValueModel, XmlErrorModel>(vals[7]));
    assert(convert_field(k, Tool::schema()[8]) == Ok::<FieldValueModel, XmlErrorModel>(vals[8]));
    assert(convert_field(k, Tool::schema()[9]) == Ok::<FieldValueModel, XmlErrorModel>(vals[9]));
    assert(convert_field(k, Tool::schema()[10]) == Ok::<FieldValueModel, XmlErrorModel>(vals[10]));
    assert(convert_field(k, Tool::schema()[11]) == Ok::<FieldValueModel, XmlErrorModel>(vals[11]));
    assert(convert_field(k, Tool::schema()[12]) == Ok::<FieldValueModel, XmlErrorModel>(vals[12]));
    assert(convert_field(k, Tool::schema()[13]) == Ok::<FieldValueModel, XmlErrorModel>(vals[13]));
}

} // verus!
