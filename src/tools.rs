//! The external converters, the conversion modes and output formats, and
//! the capability table that says which tool can do what.

use vstd::prelude::*;

verus! {

/// One of the bundled external converters.
#[derive(Clone, Copy, Debug, PartialEq, Eq, Structural)]
pub enum ConverterTool {
    HkxCmd,
    HkxC,
    HkxConv,
    Hct,
    HavokBehaviorPostProcess,
}

/// What a batch converts from and to.
#[derive(Clone, Copy, Debug, PartialEq, Eq, Structural)]
pub enum ConversionMode {
    /// HKX <-> XML.
    Regular,
    /// KF -> HKX; needs a skeleton file.
    KfToHkx,
    /// HKX -> KF; needs a skeleton file.
    HkxToKf,
}

/// The output flavour: XML text, 32-bit (LE) or 64-bit (SE) packfiles.
#[derive(Clone, Copy, Debug, PartialEq, Eq, Structural)]
pub enum OutputFormat {
    Xml,
    SkyrimLE,
    SkyrimSE,
}

/// The filter applied to files picked from folders or dropped on the window.
#[derive(Clone, Copy, Debug, PartialEq, Eq, Structural)]
pub enum InputFileExtension {
    All,
    Hkx,
    Xml,
    Kf,
}

impl ConverterTool {
    pub open spec fn spec_label(self) -> Seq<char> {
        match self {
            ConverterTool::HkxCmd => "hkxcmd"@,
            ConverterTool::HkxC => "hkxc"@,
            ConverterTool::HkxConv => "hkxconv"@,
            ConverterTool::Hct => "HCT"@,
            ConverterTool::HavokBehaviorPostProcess => "HavokBehaviorPostProcess"@,
        }
    }

    /// The name shown for the tool.
    pub fn label(&self) -> (r: &'static str)
        ensures
            r@ == self.spec_label(),
    {
        match self {
            ConverterTool::HkxCmd => "hkxcmd",
            ConverterTool::HkxC => "hkxc",
            ConverterTool::HkxConv => "hkxconv",
            ConverterTool::Hct => "HCT",
            ConverterTool::HavokBehaviorPostProcess => "HavokBehaviorPostProcess",
        }
    }

    pub open spec fn spec_supported_files_label(self) -> Seq<char> {
        match self {
            ConverterTool::HkxCmd => "Supports: HKX, XML, KF files"@,
            ConverterTool::HkxC | ConverterTool::HkxConv => "Supports: HKX, XML files"@,
            ConverterTool::Hct | ConverterTool::HavokBehaviorPostProcess => "Supports: HKX files"@,
        }
    }

    /// The note on which files the tool takes, shown while files are
    /// dragged over the window.
    pub fn supported_files_label(&self) -> (r: &'static str)
        ensures
            r@ == self.spec_supported_files_label(),
    {
        match self {
            ConverterTool::HkxCmd => "Supports: HKX, XML, KF files",
            ConverterTool::HkxC | ConverterTool::HkxConv => "Supports: HKX, XML files",
            ConverterTool::Hct | ConverterTool::HavokBehaviorPostProcess => "Supports: HKX files",
        }
    }

    /// Only hkxcmd handles the animation (KF) modes.
    pub open spec fn spec_supports_mode(self, mode: ConversionMode) -> bool {
        self == ConverterTool::HkxCmd || mode == ConversionMode::Regular
    }

    pub fn supports_mode(&self, mode: ConversionMode) -> (r: bool)
        ensures
            r == self.spec_supports_mode(mode),
    {
        match self {
            ConverterTool::HkxCmd => true,
            _ => mode == ConversionMode::Regular,
        }
    }

    /// hkxcmd and hkxc write every format; hkxconv writes XML and SE only;
    /// HCT writes LE only; HavokBehaviorPostProcess writes SE only.
    pub open spec fn spec_supports_format(self, format: OutputFormat) -> bool {
        match self {
            ConverterTool::HkxCmd | ConverterTool::HkxC => true,
            ConverterTool::HkxConv => format != OutputFormat::SkyrimLE,
            ConverterTool::Hct => format == OutputFormat::SkyrimLE,
            ConverterTool::HavokBehaviorPostProcess => format == OutputFormat::SkyrimSE,
        }
    }

    pub fn supports_format(&self, format: OutputFormat) -> (r: bool)
        ensures
            r == self.spec_supports_format(format),
    {
        match self {
            ConverterTool::HkxCmd | ConverterTool::HkxC => true,
            ConverterTool::HkxConv => format != OutputFormat::SkyrimLE,
            ConverterTool::Hct => format == OutputFormat::SkyrimLE,
            ConverterTool::HavokBehaviorPostProcess => format == OutputFormat::SkyrimSE,
        }
    }

    /// The whole capability matrix: a (tool, mode, format) triple is
    /// accepted when the tool handles both the mode and the format.
    pub open spec fn spec_supports(self, mode: ConversionMode, format: OutputFormat) -> bool {
        self.spec_supports_mode(mode) && self.spec_supports_format(format)
    }

    pub fn supports(&self, mode: ConversionMode, format: OutputFormat) -> (r: bool)
        ensures
            r == self.spec_supports(mode, format),
    {
        self.supports_mode(mode) && self.supports_format(format)
    }

    /// The input file types the tool reads: hkxcmd reads HKX, XML and KF;
    /// hkxc and hkxconv read HKX and XML; the others read HKX only.
    pub open spec fn spec_reads(self, kind: InputFileExtension) -> bool {
        match kind {
            InputFileExtension::All | InputFileExtension::Hkx => true,
            InputFileExtension::Xml => self != ConverterTool::Hct && self
                != ConverterTool::HavokBehaviorPostProcess,
            InputFileExtension::Kf => self == ConverterTool::HkxCmd,
        }
    }

    pub fn reads(&self, kind: InputFileExtension) -> (r: bool)
        ensures
            r == self.spec_reads(kind),
    {
        match kind {
            InputFileExtension::All | InputFileExtension::Hkx => true,
            InputFileExtension::Xml => match self {
                ConverterTool::Hct | ConverterTool::HavokBehaviorPostProcess => false,
                _ => true,
            },
            InputFileExtension::Kf => match self {
                ConverterTool::HkxCmd => true,
                _ => false,
            },
        }
    }

    /// The formats offered for the tool, in display order.
    pub open spec fn spec_available_formats(self) -> Seq<OutputFormat> {
        match self {
            ConverterTool::HkxCmd | ConverterTool::HkxC => seq![
                OutputFormat::Xml,
                OutputFormat::SkyrimLE,
                OutputFormat::SkyrimSE,
            ],
            ConverterTool::HkxConv => seq![OutputFormat::Xml, OutputFormat::SkyrimSE],
            ConverterTool::Hct => seq![OutputFormat::SkyrimLE],
            ConverterTool::HavokBehaviorPostProcess => seq![OutputFormat::SkyrimSE],
        }
    }

    pub fn available_formats(&self) -> (r: Vec<OutputFormat>)
        ensures
            r@ == self.spec_available_formats(),
            forall|f: OutputFormat| r@.contains(f) <==> self.spec_supports_format(f),
    {
        let r = match self {
            ConverterTool::HkxCmd | ConverterTool::HkxC => vec![
                OutputFormat::Xml,
                OutputFormat::SkyrimLE,
                OutputFormat::SkyrimSE,
            ],
            ConverterTool::HkxConv => vec![OutputFormat::Xml, OutputFormat::SkyrimSE],
            ConverterTool::Hct => vec![OutputFormat::SkyrimLE],
            ConverterTool::HavokBehaviorPostProcess => vec![OutputFormat::SkyrimSE],
        };
        assert(r@.contains(OutputFormat::Xml) <==> self.spec_supports_format(OutputFormat::Xml)) by {
            if self.spec_supports_format(OutputFormat::Xml) {
                assert(r@[0] == OutputFormat::Xml);
            }
        }
        assert(r@.contains(OutputFormat::SkyrimLE) <==> self.spec_supports_format(OutputFormat::SkyrimLE)) by {
            if self.spec_supports_format(OutputFormat::SkyrimLE) {
                assert(r@[if *self == ConverterTool::Hct { 0int } else { 1int }] == OutputFormat::SkyrimLE);
            }
        }
        assert(r@.contains(OutputFormat::SkyrimSE) <==> self.spec_supports_format(OutputFormat::SkyrimSE)) by {
            if self.spec_supports_format(OutputFormat::SkyrimSE) {
                assert(r@[r@.len() - 1] == OutputFormat::SkyrimSE);
            }
        }
        r
    }

    /// The input filters offered for the tool, in display order.
    pub open spec fn spec_available_filters(self) -> Seq<InputFileExtension> {
        match self {
            ConverterTool::HkxCmd => seq![
                InputFileExtension::All,
                InputFileExtension::Hkx,
                InputFileExtension::Xml,
                InputFileExtension::Kf,
            ],
            ConverterTool::HkxC | ConverterTool::HkxConv => seq![
                InputFileExtension::All,
                InputFileExtension::Hkx,
                InputFileExtension::Xml,
            ],
            ConverterTool::Hct | ConverterTool::HavokBehaviorPostProcess => seq![
                InputFileExtension::All,
                InputFileExtension::Hkx,
            ],
        }
    }

    pub fn available_filters(&self) -> (r: Vec<InputFileExtension>)
        ensures
            r@ == self.spec_available_filters(),
    {
        match self {
            ConverterTool::HkxCmd => vec![
                InputFileExtension::All,
                InputFileExtension::Hkx,
                InputFileExtension::Xml,
                InputFileExtension::Kf,
            ],
            ConverterTool::HkxC | ConverterTool::HkxConv => vec![
                InputFileExtension::All,
                InputFileExtension::Hkx,
                InputFileExtension::Xml,
            ],
            ConverterTool::Hct | ConverterTool::HavokBehaviorPostProcess => vec![
                InputFileExtension::All,
                InputFileExtension::Hkx,
            ],
        }
    }
}

impl ConversionMode {
    pub open spec fn spec_label(self) -> Seq<char> {
        match self {
            ConversionMode::Regular => "Regular (HKX <> XML)"@,
            ConversionMode::KfToHkx => "KF -> HKX (Animation)"@,
            ConversionMode::HkxToKf => "HKX -> KF (Animation)"@,
        }
    }

    /// The name shown for the mode.
    pub fn label(&self) -> (r: &'static str)
        ensures
            r@ == self.spec_label(),
    {
        match self {
            ConversionMode::Regular => "Regular (HKX <> XML)",
            ConversionMode::KfToHkx => "KF -> HKX (Animation)",
            ConversionMode::HkxToKf => "HKX -> KF (Animation)",
        }
    }

    pub open spec fn spec_requires_skeleton(self) -> bool {
        self != ConversionMode::Regular
    }

    /// The animation modes need a skeleton file; the regular mode does not.
    pub fn requires_skeleton(&self) -> (r: bool)
        ensures
            r == self.spec_requires_skeleton(),
    {
        match self {
            ConversionMode::Regular => false,
            _ => true,
        }
    }

    /// The extension an output gets when no custom one is set.
    pub open spec fn spec_default_extension(self, format: OutputFormat) -> Seq<char> {
        match self {
            ConversionMode::Regular => format.spec_extension(),
            ConversionMode::KfToHkx => "hkx"@,
            ConversionMode::HkxToKf => "kf"@,
        }
    }

    pub fn default_extension(&self, format: OutputFormat) -> (r: &'static str)
        ensures
            r@ == self.spec_default_extension(format),
    {
        match self {
            ConversionMode::Regular => format.extension(),
            ConversionMode::KfToHkx => "hkx",
            ConversionMode::HkxToKf => "kf",
        }
    }
}

impl OutputFormat {
    pub open spec fn spec_extension(self) -> Seq<char> {
        match self {
            OutputFormat::Xml => "xml"@,
            OutputFormat::SkyrimLE | OutputFormat::SkyrimSE => "hkx"@,
        }
    }

    /// The file extension of the format.
    pub fn extension(&self) -> (r: &'static str)
        ensures
            r@ == self.spec_extension(),
    {
        match self {
            OutputFormat::Xml => "xml",
            OutputFormat::SkyrimLE | OutputFormat::SkyrimSE => "hkx",
        }
    }

    pub open spec fn spec_label(self) -> Seq<char> {
        match self {
            OutputFormat::Xml => "XML"@,
            OutputFormat::SkyrimLE => "Skyrim LE"@,
            OutputFormat::SkyrimSE => "Skyrim SE"@,
        }
    }

    /// The name shown for the format.
    pub fn label(&self) -> (r: &'static str)
        ensures
            r@ == self.spec_label(),
    {
        match self {
            OutputFormat::Xml => "XML",
            OutputFormat::SkyrimLE => "Skyrim LE",
            OutputFormat::SkyrimSE => "Skyrim SE",
        }
    }
}

impl InputFileExtension {
    pub open spec fn spec_label_for_tool(self, tool: ConverterTool) -> Seq<char> {
        match self {
            InputFileExtension::All => match tool {
                ConverterTool::HkxCmd => "All (HKX, XML, KF)"@,
                ConverterTool::HkxC | ConverterTool::HkxConv => "All (HKX, XML)"@,
                ConverterTool::Hct | ConverterTool::HavokBehaviorPostProcess => "All (HKX only)"@,
            },
            InputFileExtension::Hkx => "HKX only"@,
            InputFileExtension::Xml => "XML only"@,
            InputFileExtension::Kf => "KF only"@,
        }
    }

    /// The name shown for the filter; "All" names the types the tool reads.
    pub fn label_for_tool(&self, tool: ConverterTool) -> (r: &'static str)
        ensures
            r@ == self.spec_label_for_tool(tool),
    {
        match self {
            InputFileExtension::All => match tool {
                ConverterTool::HkxCmd => "All (HKX, XML, KF)",
                ConverterTool::HkxC => "All (HKX, XML)",
                ConverterTool::HkxConv => "All (HKX, XML)",
                ConverterTool::Hct => "All (HKX only)",
                ConverterTool::HavokBehaviorPostProcess => "All (HKX only)",
            },
            InputFileExtension::Hkx => "HKX only",
            InputFileExtension::Xml => "XML only",
            InputFileExtension::Kf => "KF only",
        }
    }
}

} // verus!
