//! What the program was asked to do.

use vstd::prelude::*;

use crate::text::optional_text;

verus! {

/// Network printer scanning mode.
#[derive(Clone, Copy, Debug, PartialEq, Eq, Structural)]
pub enum ScanMode {
    /// Skips scanning for printers in the network.
    NoScan,
    /// Scans the current network for printers.
    Network,
    /// Scans the current network, and all neighboring networks, for printers.
    ///
    /// This is always skipped if the current network is bigger than a /24, for
    /// scalability and security reasons.
    Cluster,
}

impl Default for ScanMode {
    fn default() -> (mode: ScanMode)
        ensures
            mode == ScanMode::Cluster,
    {
        ScanMode::Cluster
    }
}

/// Output mode.
#[derive(Clone, Copy, Debug, PartialEq, Eq, Structural)]
pub enum OutputMode {
    /// No output.
    NoOutput,
    /// JSON output.
    Json,
    /// The number of pages printed per color cartridge per printer.
    PrintedPages,
}

impl Default for OutputMode {
    fn default() -> (mode: OutputMode)
        ensures
            mode == OutputMode::PrintedPages,
    {
        OutputMode::PrintedPages
    }
}

impl OutputMode {
    /// The extension of the name of a file in this mode.
    pub open spec fn spec_extension(self) -> Seq<char> {
        match self {
            OutputMode::NoOutput => ""@,
            OutputMode::Json => "json"@,
            OutputMode::PrintedPages => "csv"@,
        }
    }

    /// The extension of the name of a file in this mode.
    pub fn extension(self) -> (extension: &'static str)
        ensures
            extension@ == self.spec_extension(),
            self == OutputMode::NoOutput ==> extension@ == ""@,
            self == OutputMode::Json ==> extension@ == "json"@,
            self == OutputMode::PrintedPages ==> extension@ == "csv"@,
    {
        match self {
            OutputMode::NoOutput => "",
            OutputMode::Json => "json",
            OutputMode::PrintedPages => "csv",
        }
    }
}

/// The name of the file that addresses are read from where no other is given.
pub open spec fn default_ip_list() -> Seq<char> {
    "impressoras.txt"@
}

/// The name of the file that a report is written to where no other is given,
/// without its extension.
pub open spec fn default_out() -> Seq<char> {
    "relatorio_impressoras"@
}

/// The number of pings to run at once where no other is given.
pub const DEFAULT_PING_PARALLEL: usize = 128;

/// The number of printers to contact at once where no other is given.
pub const DEFAULT_CONTACT_PARALLEL: usize = 4;

/// The arguments of the program.
#[derive(Debug)]
pub struct Options {
    /// Disables reading from an IP list file.
    pub disable_ip_list: bool,
    /// File from which to read a list of IPs to always contact.
    pub ip_list: Option<String>,
    /// The network scanning mode.
    pub scan_mode: Option<ScanMode>,
    /// Disables writing the report to stdout.
    pub writeless: bool,
    /// Disables writing the report to a file.
    pub no_out: bool,
    /// Output filename of the report.
    pub out: Option<String>,
    /// Disable non-logger status prints.
    pub quiet: Option<String>,
    /// Number of simultaneous concurrent printer scraper tasks to run.
    pub contact_parallel: Option<usize>,
    /// Number of simultaneous ping tasks to run.
    pub ping_parallel: Option<usize>,
    /// The kind of report to generate.
    pub output_mode: Option<OutputMode>,
}

impl Options {
    /// The file to read addresses from, if one is to be read.
    pub fn ip_list_file(&self) -> (file: Option<String>)
        ensures
            optional_text(file) == (if self.disable_ip_list {
                None
            } else {
                match self.ip_list {
                    Some(name) => Some(name@),
                    None => Some(default_ip_list()),
                }
            }),
            file is None <==> self.disable_ip_list,
            file matches Some(file) ==> file@ == (match self.ip_list {
                Some(name) => name@,
                None => "impressoras.txt"@,
            }),
    {
        if self.disable_ip_list {
            return None;
        }
        match &self.ip_list {
            Some(name) => Some(name.clone()),
            None => Some("impressoras.txt".to_owned()),
        }
    }

    /// The scanning mode that was asked for, or the default one.
    pub open spec fn chosen_scan_mode(&self) -> ScanMode {
        match self.scan_mode {
            Some(mode) => mode,
            None => ScanMode::Cluster,
        }
    }

    /// Whether to scan for printers, and whether neighboring networks too.
    pub fn cluster_search(&self) -> (cluster: Option<bool>)
        ensures
            cluster == (match self.chosen_scan_mode() {
                ScanMode::NoScan => None,
                ScanMode::Network => Some(false),
                ScanMode::Cluster => Some(true),
            }),
            cluster is None <==> self.scan_mode == Some(ScanMode::NoScan),
            cluster == Some(false) <==> self.scan_mode == Some(ScanMode::Network),
            cluster == Some(true) <==> self.scan_mode == Some(ScanMode::Cluster) || self.scan_mode
                is None,
    {
        let mode: ScanMode = match self.scan_mode {
            Some(mode) => mode,
            None => ScanMode::default(),
        };
        if mode == ScanMode::NoScan {
            None
        } else {
            Some(mode == ScanMode::Cluster)
        }
    }

    /// The number of pings to run at once.
    pub fn ping_tasks(&self) -> (tasks: usize)
        ensures
            tasks == (match self.ping_parallel {
                Some(tasks) => tasks,
                None => 128,
            }),
    {
        match self.ping_parallel {
            Some(tasks) => tasks,
            None => DEFAULT_PING_PARALLEL,
        }
    }

    /// The number of printers to contact at once.
    pub fn contact_tasks(&self) -> (tasks: usize)
        ensures
            tasks == (match self.contact_parallel {
                Some(tasks) => tasks,
                None => 4,
            }),
    {
        match self.contact_parallel {
            Some(tasks) => tasks,
            None => DEFAULT_CONTACT_PARALLEL,
        }
    }

    /// The output mode that was asked for, or the default one.
    pub open spec fn spec_chosen_output_mode(&self) -> OutputMode {
        match self.output_mode {
            Some(mode) => mode,
            None => OutputMode::PrintedPages,
        }
    }

    /// The output mode that was asked for, or the default one.
    #[verifier::when_used_as_spec(spec_chosen_output_mode)]
    pub fn chosen_output_mode(&self) -> (mode: OutputMode)
        ensures
            mode == self.chosen_output_mode(),
            self.output_mode matches Some(chosen) ==> mode == chosen,
            self.output_mode is None ==> mode == OutputMode::PrintedPages,
    {
        match self.output_mode {
            Some(mode) => mode,
            None => OutputMode::default(),
        }
    }

    /// The file to write a report to, if one is to be written.
    pub fn out_file(&self) -> (file: Option<String>)
        ensures
            optional_text(file) == (if self.no_out {
                None
            } else {
                match self.out {
                    Some(name) => Some(name@),
                    None => Some(
                        default_out() + "."@ + self.chosen_output_mode().spec_extension(),
                    ),
                }
            }),
            file is None <==> self.no_out,
            file matches Some(file) ==> file@ == (match self.out {
                Some(name) => name@,
                None => match self.output_mode {
                    Some(OutputMode::NoOutput) => "relatorio_impressoras"@ + "."@ + ""@,
                    Some(OutputMode::Json) => "relatorio_impressoras"@ + "."@ + "json"@,
                    _ => "relatorio_impressoras"@ + "."@ + "csv"@,
                },
            }),
    {
        if self.no_out {
            return None;
        }
        match &self.out {
            Some(name) => Some(name.clone()),
            None => {
                let mut name: String = "relatorio_impressoras".to_owned();
                name.append(".");
                name.append(self.chosen_output_mode().extension());
                Some(name)
            },
        }
    }

    /// Whether to write a report to stdout.
    pub fn prints_report(&self) -> (prints: bool)
        ensures
            prints == !self.writeless,
    {
        !self.writeless
    }

    /// Whether to tell on stderr what is being done.
    pub fn prints_status(&self) -> (prints: bool)
        ensures
            prints == self.quiet is None,
    {
        self.quiet.is_none()
    }
}

/// What was asked for is done, and what was not asked for is the default: the
/// output mode, the scanning mode, and the extension of the report's file.
pub proof fn law_arguments_come_before_defaults(options: Options, mode: OutputMode, scan: ScanMode)
    ensures
        options.output_mode == Some(mode) ==> options.chosen_output_mode() == mode,
        options.output_mode is None ==> options.chosen_output_mode() == OutputMode::PrintedPages,
        options.scan_mode == Some(scan) ==> options.chosen_scan_mode() == scan,
        options.scan_mode is None ==> options.chosen_scan_mode() == ScanMode::Cluster,
        OutputMode::NoOutput.spec_extension() == Seq::<char>::empty(),
        OutputMode::Json.spec_extension() == seq!['j', 's', 'o', 'n'],
        OutputMode::PrintedPages.spec_extension() == seq!['c', 's', 'v'],
{
    reveal_strlit("");
    reveal_strlit("json");
    reveal_strlit("csv");
}

} // verus!
