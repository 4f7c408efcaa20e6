use hkx_tools::selection::Selection;
use hkx_tools::tools::{ConversionMode, ConverterTool, InputFileExtension, OutputFormat};

#[test]
fn initial_selection() {
    let s = Selection::initial();
    assert_eq!(s.tool, ConverterTool::HkxCmd);
    assert_eq!(s.mode, ConversionMode::Regular);
    assert_eq!(s.format, OutputFormat::Xml);
    assert_eq!(s.filter, InputFileExtension::All);
}

#[test]
fn selecting_a_tool_resets_what_it_cannot_do() {
    let mut s = Selection::initial();
    s.mode = ConversionMode::KfToHkx;
    s.format = OutputFormat::SkyrimLE;
    s.filter = InputFileExtension::Kf;
    s.select_tool(ConverterTool::HkxConv);
    assert_eq!(s.mode, ConversionMode::Regular);
    assert_eq!(s.format, OutputFormat::SkyrimSE);
    assert_eq!(s.filter, InputFileExtension::Hkx);

    let mut s = Selection::initial();
    s.filter = InputFileExtension::Xml;
    s.select_tool(ConverterTool::Hct);
    assert_eq!(s.format, OutputFormat::SkyrimLE);
    assert_eq!(s.filter, InputFileExtension::Hkx);

    s.select_tool(ConverterTool::HavokBehaviorPostProcess);
    assert_eq!(s.format, OutputFormat::SkyrimSE);

    s.select_tool(ConverterTool::HkxC);
    assert_eq!(s.format, OutputFormat::SkyrimSE);
    assert_eq!(s.tool, ConverterTool::HkxC);
}

#[test]
fn selections_the_tool_cannot_do_are_refused() {
    let mut s = Selection::initial();
    s.select_tool(ConverterTool::HkxC);
    assert!(!s.select_mode(ConversionMode::HkxToKf));
    assert_eq!(s.mode, ConversionMode::Regular);
    assert!(s.select_format(OutputFormat::SkyrimLE));
    assert_eq!(s.format, OutputFormat::SkyrimLE);
    assert!(!s.select_filter(InputFileExtension::Kf));
    assert!(s.select_filter(InputFileExtension::Xml));
    s.select_tool(ConverterTool::HkxCmd);
    assert!(s.select_mode(ConversionMode::HkxToKf));
    assert_eq!(s.format, OutputFormat::SkyrimLE);
}
