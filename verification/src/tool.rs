use vstd::prelude::*;
use crate::cli::args_view;
use crate::ioctl::Cmd;
use crate::request::{Layout, RequestView, request_spec, result_offset_spec, long_cap};
use crate::text::{parse_u32_spec, parse_u32, str_eq};

verus! {

/// The protocol generation of the standalone tool.
#[derive(Debug, Clone, Copy, PartialEq, Eq, Structural)]
pub enum Version {
    V1,
    V2,
    V3,
}

impl Version {
    /// The buffer layout of this generation.
    pub open spec fn layout_spec(self) -> Layout {
        match self {
            Version::V1 => Layout::V1,
            Version::V2 => Layout::V2,
            Version::V3 => Layout::V3,
        }
    }

    /// The buffer layout of this generation.
    pub fn layout(self) -> (r: Layout)
        ensures
            r == self.layout_spec(),
    {
        match self {
            Version::V1 => Layout::V1,
            Version::V2 => Layout::V2,
            Version::V3 => Layout::V3,
        }
    }

    /// The generation a probe finds: V3 when the device opened and the V3
    /// `SELECT_TOUCH_ID` request returned 0, V2 otherwise (V1 cannot be told
    /// from V2).
    pub fn detect(opened: bool, select_rc: i32) -> (r: Version)
        ensures
            r == if opened && select_rc == 0 { Version::V3 } else { Version::V2 },
    {
        if opened && select_rc == 0 {
            Version::V3
        } else {
            Version::V2
        }
    }
}

/// Law: each generation talks to the driver as that generation's driver
/// expects. V1 and V2 send one 1024-byte request and read a result from the
/// start of the reply; a V1 SET_LONG carries up to 254 values and a V2 one
/// up to 253 (one word fewer, which holds the panel). V3 sends the panel
/// selection and the common-data structure, and reads a result from byte 8.
pub proof fn lemma_version_layouts(v: Version, touch_id: u32, cmd: Cmd, mode: u16, values: Seq<i32>)
    ensures
        result_offset_spec(v.layout_spec()) == if v == Version::V3 { 8int } else { 0int },
        v == Version::V1 ==> long_cap(v.layout_spec()) == 254,
        v == Version::V2 ==> long_cap(v.layout_spec()) == 253,
        request_spec(v.layout_spec(), touch_id, cmd, mode, values) is Common <==> v == Version::V3,
{
}

/// How the standalone tool's command line starts.
pub enum ToolStart {
    /// Go on: the forced generation, if any, the panel, whether only to
    /// detect, and where the subcommand is.
    Run { version: Option<Version>, touch_id: u32, detect_only: bool, next: usize },
    /// Print the usage and stop.
    Help,
    /// Stop with this error.
    Fail(String),
}

/// `ToolStart` as a mathematical value.
pub ghost enum ToolStartView {
    Run(Option<Version>, u32, bool, int),
    Help,
    Fail(Seq<char>),
}

impl View for ToolStart {
    type V = ToolStartView;

    open spec fn view(&self) -> ToolStartView {
        match self {
            ToolStart::Run { version, touch_id, detect_only, next } => ToolStartView::Run(
                *version,
                *touch_id,
                *detect_only,
                *next as int,
            ),
            ToolStart::Help => ToolStartView::Help,
            ToolStart::Fail(e) => ToolStartView::Fail(e@),
        }
    }
}

/// The tool's leading options from position `i` on: `--v1`, `--v2`, `--v3`
/// (the last one wins), `--touch-id N`, `--detect`, `--help`/`-h`; anything
/// else starts the subcommand.
pub open spec fn tool_options_from(
    args: Seq<Seq<char>>,
    i: int,
    version: Option<Version>,
    touch_id: u32,
    detect_only: bool,
) -> ToolStartView
    decreases args.len() - i,
{
    if i >= args.len() || i < 0 {
        ToolStartView::Run(version, touch_id, detect_only, i)
    } else if args[i] == "--v1"@ {
        tool_options_from(args, i + 1, Some(Version::V1), touch_id, detect_only)
    } else if args[i] == "--v2"@ {
        tool_options_from(args, i + 1, Some(Version::V2), touch_id, detect_only)
    } else if args[i] == "--v3"@ {
        tool_options_from(args, i + 1, Some(Version::V3), touch_id, detect_only)
    } else if args[i] == "--touch-id"@ {
        if i + 1 < args.len() && parse_u32_spec(args[i + 1]) is Some {
            tool_options_from(args, i + 2, version, parse_u32_spec(args[i + 1])->0, detect_only)
        } else {
            ToolStartView::Fail("--touch-id needs a non-negative integer"@)
        }
    } else if args[i] == "--detect"@ {
        tool_options_from(args, i + 1, version, touch_id, true)
    } else if args[i] == "--help"@ || args[i] == "-h"@ {
        ToolStartView::Help
    } else {
        ToolStartView::Run(version, touch_id, detect_only, i)
    }
}

/// Reads the leading options of the standalone tool's command line.
pub fn parse_tool_options(args: &[String]) -> (r: ToolStart)
    ensures
        r@ == tool_options_from(args_view(args@), 1, None, 0, false),
{
    let ghost all = args_view(args@);
    let mut version: Option<Version> = None;
    let mut touch_id: u32 = 0;
    let mut detect_only = false;
    let mut i: usize = 1;
    while i < args.len()
        invariant
            all == args_view(args@),
            1 <= i <= args@.len() + 1,
            tool_options_from(all, 1, None, 0, false) == tool_options_from(
                all,
                i as int,
                version,
                touch_id,
                detect_only,
            ),
        decreases args@.len() + 1 - i,
    {
        let a = args[i].as_str();
        if str_eq(a, "--v1") {
            version = Some(Version::V1);
            i = i + 1;
        } else if str_eq(a, "--v2") {
            version = Some(Version::V2);
            i = i + 1;
        } else if str_eq(a, "--v3") {
            version = Some(Version::V3);
            i = i + 1;
        } else if str_eq(a, "--touch-id") {
            let parsed = if i + 1 < args.len() {
                parse_u32(args[i + 1].as_str())
            } else {
                None
            };
            match parsed {
                Some(t) => {
                    touch_id = t;
                    i = i + 2;
                },
                None => {
                    return ToolStart::Fail(String::from_str("--touch-id needs a non-negative integer"));
                },
            }
        } else if str_eq(a, "--detect") {
            detect_only = true;
            i = i + 1;
        } else if str_eq(a, "--help") || str_eq(a, "-h") {
            return ToolStart::Help;
        } else {
            return ToolStart::Run { version, touch_id, detect_only, next: i };
        }
    }
    ToolStart::Run { version, touch_id, detect_only, next: i }
}

} // verus!
