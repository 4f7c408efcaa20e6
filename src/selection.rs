//! The user's choice of tool, mode, output format and input filter, kept
//! consistent with what the tool can do.

use vstd::prelude::*;
use crate::tools::{ConversionMode, ConverterTool, InputFileExtension, OutputFormat};

verus! {

/// The current choice of tool, mode, format and input filter.
#[derive(Clone, Copy, Debug, PartialEq, Eq, Structural)]
pub struct Selection {
    pub tool: ConverterTool,
    pub mode: ConversionMode,
    pub format: OutputFormat,
    pub filter: InputFileExtension,
}

/// The mode kept for `tool`: tools other than hkxcmd fall back to regular.
pub open spec fn mode_for(tool: ConverterTool, mode: ConversionMode) -> ConversionMode {
    if tool.spec_supports_mode(mode) {
        mode
    } else {
        ConversionMode::Regular
    }
}

/// The format kept for `tool`: hkxconv turns LE into SE; HCT only writes LE;
/// HavokBehaviorPostProcess only writes SE.
pub open spec fn format_for(tool: ConverterTool, format: OutputFormat) -> OutputFormat {
    match tool {
        ConverterTool::HkxConv => if format == OutputFormat::SkyrimLE {
            OutputFormat::SkyrimSE
        } else {
            format
        },
        ConverterTool::Hct => OutputFormat::SkyrimLE,
        ConverterTool::HavokBehaviorPostProcess => OutputFormat::SkyrimSE,
        _ => format,
    }
}

/// The filter kept for `tool`: a filter for a type the tool does not read
/// becomes the HKX filter.
pub open spec fn filter_for(tool: ConverterTool, filter: InputFileExtension) -> InputFileExtension {
    if tool.spec_reads(filter) {
        filter
    } else {
        InputFileExtension::Hkx
    }
}

impl Selection {
    /// The choice a session starts with: hkxcmd, regular mode, XML, all
    /// files.
    pub fn initial() -> (r: Selection)
        ensures
            r == (Selection {
                tool: ConverterTool::HkxCmd,
                mode: ConversionMode::Regular,
                format: OutputFormat::Xml,
                filter: InputFileExtension::All,
            }),
    {
        Selection {
            tool: ConverterTool::HkxCmd,
            mode: ConversionMode::Regular,
            format: OutputFormat::Xml,
            filter: InputFileExtension::All,
        }
    }

    /// Whether the tool can do the mode and format, and reads the filter's
    /// file type.
    pub open spec fn consistent(self) -> bool {
        self.tool.spec_supports(self.mode, self.format) && self.tool.spec_reads(self.filter)
    }

    /// Picks `tool` and resets what it cannot do: the mode to regular, the
    /// format to one it writes, the filter to HKX.
    pub fn select_tool(&mut self, tool: ConverterTool)
        ensures
            final(self).tool == tool,
            final(self).mode == mode_for(tool, old(self).mode),
            final(self).format == format_for(tool, old(self).format),
            final(self).filter == filter_for(tool, old(self).filter),
            final(self).consistent(),
    {
        self.tool = tool;
        self.normalize();
    }

    /// Resets whatever the current tool cannot do.
    pub fn normalize(&mut self)
        ensures
            final(self).tool == old(self).tool,
            final(self).mode == mode_for(old(self).tool, old(self).mode),
            final(self).format == format_for(old(self).tool, old(self).format),
            final(self).filter == filter_for(old(self).tool, old(self).filter),
            final(self).consistent(),
    {
        if !self.tool.supports_mode(self.mode) {
            self.mode = ConversionMode::Regular;
        }
        self.format = match self.tool {
            ConverterTool::HkxConv => if self.format == OutputFormat::SkyrimLE {
                OutputFormat::SkyrimSE
            } else {
                self.format
            },
            ConverterTool::Hct => OutputFormat::SkyrimLE,
            ConverterTool::HavokBehaviorPostProcess => OutputFormat::SkyrimSE,
            _ => self.format,
        };
        if !self.tool.reads(self.filter) {
            self.filter = InputFileExtension::Hkx;
        }
    }

    /// Picks `mode` where the tool can do it; otherwise nothing changes.
    pub fn select_mode(&mut self, mode: ConversionMode) -> (changed: bool)
        ensures
            changed == old(self).tool.spec_supports_mode(mode),
            *final(self) == if changed {
                Selection { mode, ..*old(self) }
            } else {
                *old(self)
            },
    {
        if self.tool.supports_mode(mode) {
            self.mode = mode;
            true
        } else {
            false
        }
    }

    /// Picks `format` where the tool writes it; otherwise nothing changes.
    pub fn select_format(&mut self, format: OutputFormat) -> (changed: bool)
        ensures
            changed == old(self).tool.spec_supports_format(format),
            *final(self) == if changed {
                Selection { format, ..*old(self) }
            } else {
                *old(self)
            },
    {
        if self.tool.supports_format(format) {
            self.format = format;
            true
        } else {
            false
        }
    }

    /// Picks `filter` where the tool reads that type; otherwise nothing
    /// changes.
    pub fn select_filter(&mut self, filter: InputFileExtension) -> (changed: bool)
        ensures
            changed == old(self).tool.spec_reads(filter),
            *final(self) == if changed {
                Selection { filter, ..*old(self) }
            } else {
                *old(self)
            },
    {
        if self.tool.reads(filter) {
            self.filter = filter;
            true
        } else {
            false
        }
    }
}

} // verus!
