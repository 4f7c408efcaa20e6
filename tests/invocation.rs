use hkx_tools::invocation::{build_invocation, InvocationError, ProcessSpec, Strategy, ToolPaths};
use hkx_tools::path::FilePath;
use hkx_tools::tools::{ConversionMode, ConverterTool, OutputFormat};

fn p(s: &str) -> FilePath {
    FilePath::parse(s)
}

fn tool_paths() -> ToolPaths {
    ToolPaths {
        hkxcmd: p("/opt/t/hkxcmd.exe"),
        hkxc: p("/opt/t/hkxc.exe"),
        hkxconv: p("/opt/t/hkxconv.exe"),
        sse_to_le_hko: p("/opt/t/_SSEtoLE.hko"),
        havok_behavior_post_process: p("/opt/t/HavokBehaviorPostProcess.exe"),
    }
}

fn build(
    tool: ConverterTool,
    mode: ConversionMode,
    format: OutputFormat,
    input: &str,
    output: &str,
    skeleton: Option<&str>,
) -> Result<ProcessSpec, InvocationError> {
    build_invocation(tool, mode, format, &p(input), &p(output), &skeleton.map(p), &p("/work"), &tool_paths())
}

fn args(spec: &ProcessSpec) -> Vec<&str> {
    spec.args.iter().map(|a| a.as_str()).collect()
}

#[test]
fn hkxcmd_regular_arguments() {
    let s = build(ConverterTool::HkxCmd, ConversionMode::Regular, OutputFormat::SkyrimLE, "/in/a.xml", "/out/a.hkx", None)
        .unwrap();
    assert_eq!(s.executable, "/opt/t/hkxcmd.exe");
    assert_eq!(args(&s), vec!["convert", "-i", "/in/a.xml", "-o", "/out/a.hkx", "-v:WIN32"]);
    assert!(matches!(s.strategy, Strategy::Direct));
}

#[test]
fn hkxcmd_animation_arguments() {
    let s = build(ConverterTool::HkxCmd, ConversionMode::KfToHkx, OutputFormat::SkyrimSE, "/in/a.kf", "/out/a.hkx", Some("/s/skeleton.hkx"))
        .unwrap();
    assert_eq!(args(&s), vec!["ConvertKF", "/s/skeleton.hkx", "/in/a.kf", "/out/a.hkx", "-v:AMD64"]);
    let s = build(ConverterTool::HkxCmd, ConversionMode::HkxToKf, OutputFormat::Xml, "/in/a.hkx", "/out/a.kf", Some("skel.hkx"))
        .unwrap();
    assert_eq!(args(&s), vec!["exportkf", "/work/skel.hkx", "/in/a.hkx", "/out/a.kf"]);
}

#[test]
fn hkxc_and_hkxconv_arguments() {
    let s = build(ConverterTool::HkxC, ConversionMode::Regular, OutputFormat::Xml, "/in/a.hkx", "/out/a.xml", None).unwrap();
    assert_eq!(s.executable, "/opt/t/hkxc.exe");
    assert_eq!(args(&s), vec!["convert", "--input", "/in/a.hkx", "--output", "/out/a.xml", "--format", "xml"]);
    let s = build(ConverterTool::HkxConv, ConversionMode::Regular, OutputFormat::SkyrimSE, "/in/a.xml", "/out/a.hkx", None)
        .unwrap();
    assert_eq!(s.executable, "/opt/t/hkxconv.exe");
    assert_eq!(args(&s), vec!["convert", "/in/a.xml", "/out/a.hkx", "-v", "hkx"]);
}

#[test]
fn hct_runs_staged() {
    let s = build(ConverterTool::Hct, ConversionMode::Regular, OutputFormat::SkyrimLE, "/in/a.hkx", "/out/a.hkx", None).unwrap();
    assert_eq!(s.executable, "hctStandAloneFilterManager.exe");
    assert_eq!(args(&s), vec!["/in/a.hkx", "-s", "_SSEtoLE.hko"]);
    match &s.strategy {
        Strategy::Staged { resource, resource_name, staged_name } => {
            assert_eq!(resource, "/opt/t/_SSEtoLE.hko");
            assert_eq!(resource_name, "_SSEtoLE.hko");
            assert_eq!(staged_name, "filename.hkx");
        }
        other => panic!("unexpected strategy {:?}", other),
    }
}

#[test]
fn post_process_runs_in_place() {
    let s = build(
        ConverterTool::HavokBehaviorPostProcess,
        ConversionMode::Regular,
        OutputFormat::SkyrimSE,
        "/in/b.hkx",
        "/out/b.hkx",
        None,
    )
    .unwrap();
    assert_eq!(args(&s), vec!["--platformAmd64", "/out/b.hkx", "/out/b.hkx"]);
    match &s.strategy {
        Strategy::InPlace { source } => assert_eq!(source, "/in/b.hkx"),
        other => panic!("unexpected strategy {:?}", other),
    }
}

#[test]
fn relative_paths_are_made_absolute() {
    let s = build(ConverterTool::HkxCmd, ConversionMode::Regular, OutputFormat::Xml, "-dash.hkx", "out/-dash.xml", None)
        .unwrap();
    assert_eq!(args(&s), vec!["convert", "-i", "/work/-dash.hkx", "-o", "/work/out/-dash.xml", "-v:XML"]);
}

#[test]
fn unsupported_triples_never_build() {
    let tools = [
        ConverterTool::HkxCmd,
        ConverterTool::HkxC,
        ConverterTool::HkxConv,
        ConverterTool::Hct,
        ConverterTool::HavokBehaviorPostProcess,
    ];
    let modes = [ConversionMode::Regular, ConversionMode::KfToHkx, ConversionMode::HkxToKf];
    let formats = [OutputFormat::Xml, OutputFormat::SkyrimLE, OutputFormat::SkyrimSE];
    for tool in tools {
        for mode in modes {
            for format in formats {
                let r = build(tool, mode, format, "/in/a.hkx", "/out/b.hkx", Some("/s/sk.hkx"));
                if tool.supports(mode, format) {
                    assert!(r.is_ok(), "{:?} {:?} {:?}", tool, mode, format);
                } else {
                    assert_eq!(r.unwrap_err(), InvocationError::Unsupported { tool, mode, format });
                }
            }
        }
    }
}

#[test]
fn invocation_errors() {
    assert_eq!(
        build(ConverterTool::HkxC, ConversionMode::KfToHkx, OutputFormat::Xml, "/a.kf", "/b.hkx", Some("/s.hkx")).unwrap_err(),
        InvocationError::Unsupported {
            tool: ConverterTool::HkxC,
            mode: ConversionMode::KfToHkx,
            format: OutputFormat::Xml
        }
    );
    assert_eq!(
        build(ConverterTool::HkxCmd, ConversionMode::HkxToKf, OutputFormat::Xml, "/a.hkx", "/b.kf", None).unwrap_err(),
        InvocationError::MissingSkeleton
    );
    assert_eq!(
        build(ConverterTool::HavokBehaviorPostProcess, ConversionMode::Regular, OutputFormat::SkyrimSE, "/a.xml", "/b.hkx", None)
            .unwrap_err(),
        InvocationError::NotHkxInput
    );
    assert_eq!(
        build(ConverterTool::HavokBehaviorPostProcess, ConversionMode::Regular, OutputFormat::SkyrimSE, "/a.hkx", "/a.hkx", None)
            .unwrap_err(),
        InvocationError::SameInputOutput
    );
    let mut paths = tool_paths();
    paths.sse_to_le_hko = p("/");
    assert_eq!(
        build_invocation(
            ConverterTool::Hct,
            ConversionMode::Regular,
            OutputFormat::SkyrimLE,
            &p("/a.hkx"),
            &p("/b.hkx"),
            &None,
            &p("/work"),
            &paths
        )
        .unwrap_err(),
        InvocationError::NoResourceName
    );
}
