//! What to run for one file: the executable, its argument list, and how the
//! output comes about (written directly, staged in a scratch directory and
//! moved, or rewritten in place).

use vstd::prelude::*;
use crate::path::{FilePath, PathView, absolutize_spec, file_extension_of, file_name_of, render, texts};
use crate::tools::{ConversionMode, ConverterTool, OutputFormat};

verus! {

/// Where the bundled converters and their auxiliary files live.
#[derive(Debug)]
pub struct ToolPaths {
    pub hkxcmd: FilePath,
    pub hkxc: FilePath,
    pub hkxconv: FilePath,
    /// The filter set HCT runs (SSE to LE).
    pub sse_to_le_hko: FilePath,
    pub havok_behavior_post_process: FilePath,
}

pub ghost struct ToolPathsView {
    pub hkxcmd: PathView,
    pub hkxc: PathView,
    pub hkxconv: PathView,
    pub sse_to_le_hko: PathView,
    pub havok_behavior_post_process: PathView,
}

impl View for ToolPaths {
    type V = ToolPathsView;

    open spec fn view(&self) -> ToolPathsView {
        ToolPathsView {
            hkxcmd: self.hkxcmd@,
            hkxc: self.hkxc@,
            hkxconv: self.hkxconv@,
            sse_to_le_hko: self.sse_to_le_hko@,
            havok_behavior_post_process: self.havok_behavior_post_process@,
        }
    }
}

/// How the output file comes about.
#[derive(Debug)]
pub enum Strategy {
    /// The tool writes the output path it is given.
    Direct,
    /// The tool runs in a fresh scratch directory that holds a copy of
    /// `resource` named `resource_name`, and leaves `staged_name` there;
    /// that file is then moved to the output path.
    Staged { resource: String, resource_name: String, staged_name: String },
    /// `source` is first copied to the output path, which the tool then
    /// rewrites in place.
    InPlace { source: String },
}

pub ghost enum StrategyView {
    Direct,
    Staged { resource: Seq<char>, resource_name: Seq<char>, staged_name: Seq<char> },
    InPlace { source: Seq<char> },
}

impl View for Strategy {
    type V = StrategyView;

    open spec fn view(&self) -> StrategyView {
        match self {
            Strategy::Direct => StrategyView::Direct,
            Strategy::Staged { resource, resource_name, staged_name } => StrategyView::Staged {
                resource: resource@,
                resource_name: resource_name@,
                staged_name: staged_name@,
            },
            Strategy::InPlace { source } => StrategyView::InPlace { source: source@ },
        }
    }
}

/// One process to run.
#[derive(Debug)]
pub struct ProcessSpec {
    pub executable: String,
    pub args: Vec<String>,
    pub strategy: Strategy,
}

pub ghost struct ProcessView {
    pub executable: Seq<char>,
    pub args: Seq<Seq<char>>,
    pub strategy: StrategyView,
}

impl View for ProcessSpec {
    type V = ProcessView;

    open spec fn view(&self) -> ProcessView {
        ProcessView { executable: self.executable@, args: texts(self.args@), strategy: self.strategy@ }
    }
}

/// Why no process could be set up for a file.
#[derive(Clone, Copy, Debug, PartialEq, Eq, Structural)]
pub enum InvocationError {
    /// The tool cannot do this mode or write this format.
    Unsupported { tool: ConverterTool, mode: ConversionMode, format: OutputFormat },
    /// An animation mode without a skeleton file.
    MissingSkeleton,
    /// HavokBehaviorPostProcess reads `.hkx` files only.
    NotHkxInput,
    /// An in-place tool would overwrite its own input.
    SameInputOutput,
    /// The staged tool's auxiliary file path names no file.
    NoResourceName,
}

/// The name HCT gives its output in the scratch directory.
pub open spec fn hct_staged_name() -> Seq<char> {
    "filename.hkx"@
}

pub open spec fn executable_spec(tool: ConverterTool, paths: ToolPathsView) -> Seq<char> {
    match tool {
        ConverterTool::HkxCmd => render(paths.hkxcmd),
        ConverterTool::HkxC => render(paths.hkxc),
        ConverterTool::HkxConv => render(paths.hkxconv),
        ConverterTool::Hct => "hctStandAloneFilterManager.exe"@,
        ConverterTool::HavokBehaviorPostProcess => render(paths.havok_behavior_post_process),
    }
}

/// hkxcmd's version flag for a format.
pub open spec fn hkxcmd_version_flag(format: OutputFormat) -> Seq<char> {
    match format {
        OutputFormat::Xml => "-v:XML"@,
        OutputFormat::SkyrimLE => "-v:WIN32"@,
        OutputFormat::SkyrimSE => "-v:AMD64"@,
    }
}

/// hkxc's name for a format.
pub open spec fn hkxc_format_name(format: OutputFormat) -> Seq<char> {
    match format {
        OutputFormat::Xml => "xml"@,
        OutputFormat::SkyrimLE => "win32"@,
        OutputFormat::SkyrimSE => "amd64"@,
    }
}

/// hkxconv's name for a format.
pub open spec fn hkxconv_format_name(format: OutputFormat) -> Seq<char> {
    match format {
        OutputFormat::Xml => "xml"@,
        _ => "hkx"@,
    }
}

/// The argument list of each tool and mode, over the texts of the absolute
/// input, output and skeleton paths and the name of the staged resource.
pub open spec fn arguments_spec(
    tool: ConverterTool,
    mode: ConversionMode,
    format: OutputFormat,
    input: Seq<char>,
    output: Seq<char>,
    skeleton: Seq<char>,
    resource_name: Seq<char>,
) -> Seq<Seq<char>> {
    match tool {
        ConverterTool::HkxCmd => match mode {
            ConversionMode::Regular => seq![
                "convert"@,
                "-i"@,
                input,
                "-o"@,
                output,
                hkxcmd_version_flag(format),
            ],
            ConversionMode::KfToHkx => seq![
                "ConvertKF"@,
                skeleton,
                input,
                output,
                hkxcmd_version_flag(format),
            ],
            ConversionMode::HkxToKf => seq!["exportkf"@, skeleton, input, output],
        },
        ConverterTool::HkxC => seq![
            "convert"@,
            "--input"@,
            input,
            "--output"@,
            output,
            "--format"@,
            hkxc_format_name(format),
        ],
        ConverterTool::HkxConv => seq![
            "convert"@,
            input,
            output,
            "-v"@,
            hkxconv_format_name(format),
        ],
        ConverterTool::Hct => seq![input, "-s"@, resource_name],
        ConverterTool::HavokBehaviorPostProcess => seq!["--platformAmd64"@, output, output],
    }
}

/// The process for one file, or why there is none. Paths are made absolute
/// against `cwd` first, so that none handed to a tool starts with `-`. The
/// capability table is checked before anything else.
pub open spec fn invocation_spec(
    tool: ConverterTool,
    mode: ConversionMode,
    format: OutputFormat,
    input: PathView,
    output: PathView,
    skeleton: Option<PathView>,
    cwd: PathView,
    paths: ToolPathsView,
) -> Result<ProcessView, InvocationError> {
    let input_abs = absolutize_spec(input, cwd);
    let output_abs = absolutize_spec(output, cwd);
    if !tool.spec_supports(mode, format) {
        Err(InvocationError::Unsupported { tool, mode, format })
    } else if mode.spec_requires_skeleton() && skeleton is None {
        Err(InvocationError::MissingSkeleton)
    } else if tool == ConverterTool::Hct && file_name_of(paths.sse_to_le_hko) is None {
        Err(InvocationError::NoResourceName)
    } else if tool == ConverterTool::HavokBehaviorPostProcess && file_extension_of(input_abs)
        != Some("hkx"@) {
        Err(InvocationError::NotHkxInput)
    } else if tool == ConverterTool::HavokBehaviorPostProcess && input_abs == output_abs {
        Err(InvocationError::SameInputOutput)
    } else {
        let skeleton_text = match skeleton {
            Some(s) => render(absolutize_spec(s, cwd)),
            None => Seq::empty(),
        };
        let resource_name = match file_name_of(paths.sse_to_le_hko) {
            Some(n) => n,
            None => Seq::empty(),
        };
        let strategy = match tool {
            ConverterTool::Hct => StrategyView::Staged {
                resource: render(paths.sse_to_le_hko),
                resource_name,
                staged_name: hct_staged_name(),
            },
            ConverterTool::HavokBehaviorPostProcess => StrategyView::InPlace {
                source: render(input_abs),
            },
            _ => StrategyView::Direct,
        };
        Ok(
            ProcessView {
                executable: executable_spec(tool, paths),
                args: arguments_spec(
                    tool,
                    mode,
                    format,
                    render(input_abs),
                    render(output_abs),
                    skeleton_text,
                    resource_name,
                ),
                strategy,
            },
        )
    }
}

fn text(s: &str) -> (r: String)
    ensures
        r@ == s@,
{
    String::from_str(s)
}

fn hkxcmd_version_flag_text(format: OutputFormat) -> (r: String)
    ensures
        r@ == hkxcmd_version_flag(format),
{
    match format {
        OutputFormat::Xml => text("-v:XML"),
        OutputFormat::SkyrimLE => text("-v:WIN32"),
        OutputFormat::SkyrimSE => text("-v:AMD64"),
    }
}

fn hkxc_format_name_text(format: OutputFormat) -> (r: String)
    ensures
        r@ == hkxc_format_name(format),
{
    match format {
        OutputFormat::Xml => text("xml"),
        OutputFormat::SkyrimLE => text("win32"),
        OutputFormat::SkyrimSE => text("amd64"),
    }
}

fn hkxconv_format_name_text(format: OutputFormat) -> (r: String)
    ensures
        r@ == hkxconv_format_name(format),
{
    match format {
        OutputFormat::Xml => text("xml"),
        _ => text("hkx"),
    }
}

fn executable_of(tool: ConverterTool, paths: &ToolPaths) -> (r: String)
    ensures
        r@ == executable_spec(tool, paths@),
{
    match tool {
        ConverterTool::HkxCmd => paths.hkxcmd.to_text(),
        ConverterTool::HkxC => paths.hkxc.to_text(),
        ConverterTool::HkxConv => paths.hkxconv.to_text(),
        ConverterTool::Hct => text("hctStandAloneFilterManager.exe"),
        ConverterTool::HavokBehaviorPostProcess => paths.havok_behavior_post_process.to_text(),
    }
}

fn arguments(
    tool: ConverterTool,
    mode: ConversionMode,
    format: OutputFormat,
    input: String,
    output: String,
    skeleton: String,
    resource_name: String,
) -> (r: Vec<String>)
    ensures
        texts(r@) == arguments_spec(
            tool,
            mode,
            format,
            input@,
            output@,
            skeleton@,
            resource_name@,
        ),
{
    let r = match tool {
        ConverterTool::HkxCmd => match mode {
            ConversionMode::Regular => vec![
                text("convert"),
                text("-i"),
                input,
                text("-o"),
                output,
                hkxcmd_version_flag_text(format),
            ],
            ConversionMode::KfToHkx => vec![
                text("ConvertKF"),
                skeleton,
                input,
                output,
                hkxcmd_version_flag_text(format),
            ],
            ConversionMode::HkxToKf => vec![text("exportkf"), skeleton, input, output],
        },
        ConverterTool::HkxC => vec![
            text("convert"),
            text("--input"),
            input,
            text("--output"),
            output,
            text("--format"),
            hkxc_format_name_text(format),
        ],
        ConverterTool::HkxConv => vec![
            text("convert"),
            input,
            output,
            text("-v"),
            hkxconv_format_name_text(format),
        ],
        ConverterTool::Hct => vec![input, text("-s"), resource_name],
        ConverterTool::HavokBehaviorPostProcess => {
            let again = output.clone();
            vec![text("--platformAmd64"), output, again]
        },
    };
    assert(texts(r@) =~= arguments_spec(
        tool,
        mode,
        format,
        input@,
        output@,
        skeleton@,
        resource_name@,
    ));
    r
}

/// Sets up the process that converts `input` to `output`, or says why it
/// cannot be done; nothing is run here.
pub fn build_invocation(
    tool: ConverterTool,
    mode: ConversionMode,
    format: OutputFormat,
    input: &FilePath,
    output: &FilePath,
    skeleton: &Option<FilePath>,
    cwd: &FilePath,
    paths: &ToolPaths,
) -> (r: Result<ProcessSpec, InvocationError>)
    ensures
        match r {
            Ok(p) => invocation_spec(
                tool,
                mode,
                format,
                input@,
                output@,
                crate::path::opt_view(*skeleton),
                cwd@,
                paths@,
            ) == Ok::<ProcessView, InvocationError>(p@),
            Err(e) => invocation_spec(
                tool,
                mode,
                format,
                input@,
                output@,
                crate::path::opt_view(*skeleton),
                cwd@,
                paths@,
            ) == Err::<ProcessView, InvocationError>(e),
        },
{
    if !tool.supports(mode, format) {
        return Err(InvocationError::Unsupported { tool, mode, format });
    }
    if mode.requires_skeleton() && skeleton.is_none() {
        return Err(InvocationError::MissingSkeleton);
    }
    let resource_name = match tool {
        ConverterTool::Hct => match paths.sse_to_le_hko.file_name() {
            Some(n) => n,
            None => {
                return Err(InvocationError::NoResourceName);
            },
        },
        _ => String::new(),
    };
    let input_abs = input.absolutize(cwd);
    let output_abs = output.absolutize(cwd);
    if tool == ConverterTool::HavokBehaviorPostProcess {
        let hkx = text("hkx");
        let is_hkx = match input_abs.extension() {
            Some(e) => e == hkx,
            None => false,
        };
        if !is_hkx {
            return Err(InvocationError::NotHkxInput);
        }
        if input_abs.same_as(&output_abs) {
            return Err(InvocationError::SameInputOutput);
        }
    }
    let skeleton_text = match skeleton {
        Some(s) => s.absolutize(cwd).to_text(),
        None => String::new(),
    };
    let strategy = match tool {
        ConverterTool::Hct => Strategy::Staged {
            resource: paths.sse_to_le_hko.to_text(),
            resource_name: resource_name.clone(),
            staged_name: text("filename.hkx"),
        },
        ConverterTool::HavokBehaviorPostProcess => Strategy::InPlace { source: input_abs.to_text() },
        _ => Strategy::Direct,
    };
    let args = arguments(
        tool,
        mode,
        format,
        input_abs.to_text(),
        output_abs.to_text(),
        skeleton_text,
        resource_name,
    );
    Ok(ProcessSpec { executable: executable_of(tool, paths), args, strategy })
}

/// A (tool, mode, format) triple outside the tool's capabilities always
/// fails with `Unsupported` and yields no process; a triple inside never
/// fails that way.
pub proof fn law_capability_enforced(
    tool: ConverterTool,
    mode: ConversionMode,
    format: OutputFormat,
    input: PathView,
    output: PathView,
    skeleton: Option<PathView>,
    cwd: PathView,
    paths: ToolPathsView,
)
    ensures
        !tool.spec_supports(mode, format) ==> invocation_spec(
            tool,
            mode,
            format,
            input,
            output,
            skeleton,
            cwd,
            paths,
        ) == Err::<ProcessView, InvocationError>(InvocationError::Unsupported { tool, mode, format }),
        tool.spec_supports(mode, format) ==> invocation_spec(
            tool,
            mode,
            format,
            input,
            output,
            skeleton,
            cwd,
            paths,
        ) != Err::<ProcessView, InvocationError>(InvocationError::Unsupported { tool, mode, format }),
{
}

} // verus!
