//! Command-line option parsing.

use vstd::prelude::*;
use vstd::string::*;
use crate::config::{InfoBarPosition, SlideshowState};
use crate::types::{FilterType, ScaleMode};
use crate::text::{
    chars_of, chars_eq_str, lowercase_chars, string_from_chars, trim_chars, parse_u32, case_lower,
    trim, spec_parse_int, ascii_lower_char, all_ascii, ascii_lowercase,
};

verus! {

/// Terminal graphics protocol requested on the command line.
#[derive(Debug, Clone, Copy, PartialEq, Eq, Structural)]
pub enum ProtocolChoice {
    Kitty,
    Sixel,
    Halfblocks,
    Iterm2,
}

/// Parsed command-line options.
#[derive(Debug, Clone)]
pub struct CliOptions {
    /// File, directory or archive to open.
    pub initial_path: Option<String>,
    pub filter: FilterType,
    pub protocol: Option<ProtocolChoice>,
    pub scale: ScaleMode,
    pub slideshow: Option<SlideshowState>,
    /// Recognise files by their leading bytes instead of their extension.
    pub check_magic: bool,
    /// Do not show embedded thumbnails while loading.
    pub no_thumbnail: bool,
    /// Scan directories recursively.
    pub recursive: bool,
    pub import_path: Option<String>,
    pub export_path: Option<String>,
    pub infobar: InfoBarPosition,
    /// `--help` was given: the usage text is to be shown and nothing else done.
    pub show_help: bool,
}

/// The parse state as plain values.
pub struct CliState {
    pub initial_path: Option<Seq<char>>,
    pub filter: FilterType,
    pub protocol: Option<ProtocolChoice>,
    pub scale: ScaleMode,
    pub slideshow: Option<SlideshowState>,
    pub check_magic: bool,
    pub no_thumbnail: bool,
    pub recursive: bool,
    pub import_path: Option<Seq<char>>,
    pub export_path: Option<Seq<char>>,
    pub sync_path: Option<Seq<char>>,
    pub infobar: InfoBarPosition,
    pub show_help: bool,
}

pub open spec fn opt_view(o: Option<String>) -> Option<Seq<char>> {
    match o {
        Some(s) => Some(s@),
        None => None,
    }
}

/// The plain state of parsed options together with a pending `--sync` path.
pub open spec fn cli_state(o: CliOptions, sync: Option<String>) -> CliState {
    CliState {
        initial_path: opt_view(o.initial_path),
        filter: o.filter,
        protocol: o.protocol,
        scale: o.scale,
        slideshow: o.slideshow,
        check_magic: o.check_magic,
        no_thumbnail: o.no_thumbnail,
        recursive: o.recursive,
        import_path: opt_view(o.import_path),
        export_path: opt_view(o.export_path),
        sync_path: opt_view(sync),
        infobar: o.infobar,
        show_help: o.show_help,
    }
}

/// The state before any argument is read: nearest filter, shrink scaling,
/// status bar at the bottom, everything else off or absent.
pub open spec fn initial_state() -> CliState {
    CliState {
        initial_path: None,
        filter: FilterType::Nearest,
        protocol: None,
        scale: ScaleMode::Shrink,
        slideshow: None,
        check_magic: false,
        no_thumbnail: false,
        recursive: false,
        import_path: None,
        export_path: None,
        sync_path: None,
        infobar: InfoBarPosition::Bottom,
        show_help: false,
    }
}

pub open spec fn starts_with_dash(v: Seq<char>) -> bool {
    v.len() > 0 && v[0] == '-'
}

pub open spec fn msg_option_as_value(flag: Seq<char>, val: Seq<char>) -> Seq<char> {
    "Error: Argument for "@ + flag + " cannot be another option ("@ + val + ")"@
}

pub open spec fn msg_missing_value(flag: Seq<char>) -> Seq<char> {
    "Error: Option "@ + flag + " requires an argument"@
}

pub open spec fn msg_unknown_filter(v: Seq<char>) -> Seq<char> {
    "Error: Unknown filter '"@ + v
        + "'. Choose from: nearest, linear, cubic, mitchell, gaussian, lanczos, hamming"@
}

pub open spec fn msg_unknown_protocol(v: Seq<char>) -> Seq<char> {
    "Error: Unknown protocol '"@ + v + "'. Choose from: kitty, sixel, halfblocks, iterm2"@
}

pub open spec fn msg_unknown_scale(v: Seq<char>) -> Seq<char> {
    "Error: Unknown scale mode '"@ + v + "'. Choose from: none, actual, shrink, full, crop"@
}

pub open spec fn msg_bad_slideshow() -> Seq<char> {
    "Error: -t / --slideshow requires a positive integer argument"@
}

pub open spec fn msg_unknown_infobar(v: Seq<char>) -> Seq<char> {
    "Error: Unknown infobar position '"@ + v + "'. Choose from: top, bottom, none"@
}

pub open spec fn msg_unknown_option(v: Seq<char>) -> Seq<char> {
    "Error: Unknown option '"@ + v + "'"@
}

pub open spec fn msg_two_paths(p: Seq<char>, v: Seq<char>) -> Seq<char> {
    "Error: Only a single path argument is supported, but multiple paths were provided: '"@ + p
        + "' and '"@ + v + "'"@
}

pub open spec fn msg_sync_conflict() -> Seq<char> {
    "Error: Option --sync (-r) cannot be used together with --import (-i) or --export (-o)"@
}

/// The value following option `flag` at position `i`, which must exist and
/// must not itself look like an option.
pub open spec fn spec_get_arg(args: Seq<Seq<char>>, i: int, flag: Seq<char>) -> Result<
    Seq<char>,
    Seq<char>,
> {
    if i + 1 < args.len() {
        if starts_with_dash(args[i + 1]) {
            Err(msg_option_as_value(flag, args[i + 1]))
        } else {
            Ok(args[i + 1])
        }
    } else {
        Err(msg_missing_value(flag))
    }
}

pub open spec fn filter_from_name(v: Seq<char>) -> Option<FilterType> {
    if v == "nearest"@ {
        Some(FilterType::Nearest)
    } else if v == "linear"@ {
        Some(FilterType::Linear)
    } else if v == "cubic"@ {
        Some(FilterType::Cubic)
    } else if v == "mitchell"@ {
        Some(FilterType::Mitchell)
    } else if v == "gaussian"@ {
        Some(FilterType::Gaussian)
    } else if v == "lanczos"@ {
        Some(FilterType::Lanczos)
    } else if v == "hamming"@ {
        Some(FilterType::Hamming)
    } else {
        None
    }
}

pub open spec fn protocol_from_name(v: Seq<char>) -> Option<ProtocolChoice> {
    if v == "kitty"@ {
        Some(ProtocolChoice::Kitty)
    } else if v == "sixel"@ {
        Some(ProtocolChoice::Sixel)
    } else if v == "halfblocks"@ || v == "halfblock"@ {
        Some(ProtocolChoice::Halfblocks)
    } else if v == "iterm2"@ {
        Some(ProtocolChoice::Iterm2)
    } else {
        None
    }
}

pub open spec fn scale_from_name(v: Seq<char>) -> Option<ScaleMode> {
    if v == "none"@ || v == "actual"@ {
        Some(ScaleMode::Actual)
    } else if v == "shrink"@ {
        Some(ScaleMode::Shrink)
    } else if v == "full"@ || v == "fit"@ {
        Some(ScaleMode::Full)
    } else if v == "crop"@ {
        Some(ScaleMode::Crop)
    } else {
        None
    }
}

pub open spec fn infobar_from_name(v: Seq<char>) -> Option<InfoBarPosition> {
    if v == "top"@ {
        Some(InfoBarPosition::Top)
    } else if v == "bottom"@ {
        Some(InfoBarPosition::Bottom)
    } else if v == "none"@ {
        Some(InfoBarPosition::Hidden)
    } else {
        None
    }
}

/// The slideshow state a `--slideshow` value denotes: a whole number of
/// seconds, surrounding whitespace allowed.
pub open spec fn spec_parse_slideshow(v: Seq<char>) -> Option<SlideshowState> {
    match spec_parse_int(trim(v), false, 0, u32::MAX as int) {
        Some(n) => Some(SlideshowState::spec_new(n as u32)),
        None => None,
    }
}

/// Checks done once all arguments are read: `--sync` excludes `--import` and
/// `--export`, and otherwise stands for both.
pub open spec fn spec_finish(st: CliState) -> Result<CliState, Seq<char>> {
    match st.sync_path {
        Some(p) => if st.import_path is Some || st.export_path is Some {
            Err(msg_sync_conflict())
        } else {
            Ok(CliState { import_path: Some(p), export_path: Some(p), ..st })
        },
        None => Ok(st),
    }
}

pub open spec fn is_flag(a: Seq<char>, long: Seq<char>, short: Seq<char>) -> bool {
    a == long || a == short
}

/// The result of reading the arguments from position `i` on, in state `st`.
/// `--help` ends reading at once.
pub open spec fn spec_parse_from(args: Seq<Seq<char>>, i: int, st: CliState) -> Result<
    CliState,
    Seq<char>,
>
    decreases args.len() - i,
{
    if i < 0 || i >= args.len() {
        spec_finish(st)
    } else {
        let a = args[i];
        if is_flag(a, "--filter"@, "-f"@) {
            match spec_get_arg(args, i, a) {
                Err(e) => Err(e),
                Ok(v) => match filter_from_name(case_lower(v)) {
                    Some(f) => spec_parse_from(args, i + 2, CliState { filter: f, ..st }),
                    None => Err(msg_unknown_filter(case_lower(v))),
                },
            }
        } else if is_flag(a, "--protocol"@, "-p"@) {
            match spec_get_arg(args, i, a) {
                Err(e) => Err(e),
                Ok(v) => match protocol_from_name(case_lower(v)) {
                    Some(p) => spec_parse_from(args, i + 2, CliState { protocol: Some(p), ..st }),
                    None => Err(msg_unknown_protocol(case_lower(v))),
                },
            }
        } else if is_flag(a, "--scale"@, "-s"@) {
            match spec_get_arg(args, i, a) {
                Err(e) => Err(e),
                Ok(v) => match scale_from_name(case_lower(v)) {
                    Some(m) => spec_parse_from(args, i + 2, CliState { scale: m, ..st }),
                    None => Err(msg_unknown_scale(case_lower(v))),
                },
            }
        } else if is_flag(a, "--slideshow"@, "-t"@) {
            match spec_get_arg(args, i, a) {
                Err(e) => Err(e),
                Ok(v) => match spec_parse_slideshow(v) {
                    Some(s) => spec_parse_from(args, i + 2, CliState { slideshow: Some(s), ..st }),
                    None => Err(msg_bad_slideshow()),
                },
            }
        } else if is_flag(a, "--check-magic"@, "-m"@) {
            spec_parse_from(args, i + 1, CliState { check_magic: true, ..st })
        } else if a == "--no-thumbnail"@ {
            spec_parse_from(args, i + 1, CliState { no_thumbnail: true, ..st })
        } else if is_flag(a, "--recursive"@, "-R"@) {
            spec_parse_from(args, i + 1, CliState { recursive: true, ..st })
        } else if a == "--infobar"@ {
            match spec_get_arg(args, i, a) {
                Err(e) => Err(e),
                Ok(v) => match infobar_from_name(case_lower(v)) {
                    Some(p) => spec_parse_from(args, i + 2, CliState { infobar: p, ..st }),
                    None => Err(msg_unknown_infobar(case_lower(v))),
                },
            }
        } else if is_flag(a, "--sync"@, "-r"@) {
            match spec_get_arg(args, i, a) {
                Err(e) => Err(e),
                Ok(v) => spec_parse_from(args, i + 2, CliState { sync_path: Some(v), ..st }),
            }
        } else if is_flag(a, "--import"@, "-i"@) {
            match spec_get_arg(args, i, a) {
                Err(e) => Err(e),
                Ok(v) => spec_parse_from(args, i + 2, CliState { import_path: Some(v), ..st }),
            }
        } else if is_flag(a, "--export"@, "-o"@) {
            match spec_get_arg(args, i, a) {
                Err(e) => Err(e),
                Ok(v) => spec_parse_from(args, i + 2, CliState { export_path: Some(v), ..st }),
            }
        } else if is_flag(a, "--help"@, "-h"@) {
            Ok(CliState { show_help: true, ..st })
        } else if starts_with_dash(a) {
            Err(msg_unknown_option(a))
        } else {
            match st.initial_path {
                Some(p) => Err(msg_two_paths(p, a)),
                None => spec_parse_from(args, i + 1, CliState { initial_path: Some(a), ..st }),
            }
        }
    }
}

/// The plain views of a list of strings.
pub open spec fn args_view(args: Seq<String>) -> Seq<Seq<char>> {
    args.map_values(|s: String| s@)
}

/// The options denoted by a full argument list; the first argument is the
/// program name and is skipped.
pub open spec fn spec_parse_cli(args: Seq<Seq<char>>) -> Result<CliState, Seq<char>> {
    spec_parse_from(args, 1, initial_state())
}


proof fn lemma_lowered_name(v: Seq<char>, low: Seq<char>)
    requires
        v.len() == low.len(),
        forall|i: int| 0 <= i < v.len() ==> (#[trigger] v[i] as u32) < 128 && ascii_lower_char(v[i]) == low[i],
    ensures
        case_lower(v) == low,
{
    assert(all_ascii(v));
    assert(ascii_lowercase(v) =~= low);
}

proof fn lemma_scale_args(prog: Seq<char>, flag: Seq<char>, v: Seq<char>, m: ScaleMode)
    requires
        flag == "-s"@ || flag == "--scale"@,
        !starts_with_dash(v),
        scale_from_name(case_lower(v)) == Some(m),
    ensures
        spec_parse_cli(seq![prog, flag, v]) == Ok::<_, Seq<char>>(CliState { scale: m, ..initial_state() }),
{
    reveal_strlit("--filter");
    reveal_strlit("-f");
    reveal_strlit("--protocol");
    reveal_strlit("-p");
    reveal_strlit("--scale");
    reveal_strlit("-s");
    let args = seq![prog, flag, v];
    let st = CliState { scale: m, ..initial_state() };
    assert(args[1] == flag && args[2] == v);
    assert("--filter"@.len() != "-f"@.len());
    assert("--filter"@.len() != "--protocol"@.len());
    assert("--filter"@.len() != "-p"@.len());
    assert("--filter"@.len() != "--scale"@.len());
    assert("--filter"@.len() != "-s"@.len());
    assert("-f"@[1] != "-p"@[1]);
    assert("-f"@[1] != "-s"@[1]);
    assert("--protocol"@.len() != "-f"@.len());
    assert("--protocol"@.len() != "-p"@.len());
    assert("--protocol"@.len() != "--scale"@.len());
    assert("--protocol"@.len() != "-s"@.len());
    assert("-p"@[1] != "-s"@[1]);
    assert("--scale"@.len() != "-f"@.len());
    assert("--scale"@.len() != "-p"@.len());
    assert("--scale"@.len() != "-s"@.len());
    assert(!is_flag(flag, "--filter"@, "-f"@));
    assert(!is_flag(flag, "--protocol"@, "-p"@));
    assert(is_flag(flag, "--scale"@, "-s"@));
    assert(spec_get_arg(args, 1, flag) == Ok::<_, Seq<char>>(v));
    assert(spec_parse_from(args, 3, st) == spec_finish(st));
}

/// `--scale` (or `-s`) followed by a scale mode's name, in any letter case,
/// selects that mode; so do the aliases `actual` (no scaling) and `fit`
/// (full). Distinct modes are thus reached by distinct names.
pub proof fn lemma_scale_option_selects_mode(prog: Seq<char>, flag: Seq<char>, m: ScaleMode)
    requires
        flag == "-s"@ || flag == "--scale"@,
    ensures
        spec_parse_cli(seq![prog, flag, m.spec_name()]) is Ok,
        spec_parse_cli(seq![prog, flag, m.spec_name()])->Ok_0.scale == m,
        spec_parse_cli(seq![prog, flag, "actual"@])->Ok_0.scale == ScaleMode::Actual,
        spec_parse_cli(seq![prog, flag, "fit"@])->Ok_0.scale == ScaleMode::Full,
{
    reveal_strlit("None");
    reveal_strlit("Shrink");
    reveal_strlit("Full");
    reveal_strlit("Crop");
    reveal_strlit("none");
    reveal_strlit("actual");
    reveal_strlit("shrink");
    reveal_strlit("full");
    reveal_strlit("fit");
    reveal_strlit("crop");
    lemma_lowered_name("None"@, "none"@);
    lemma_lowered_name("Shrink"@, "shrink"@);
    lemma_lowered_name("Full"@, "full"@);
    lemma_lowered_name("Crop"@, "crop"@);
    lemma_lowered_name("actual"@, "actual"@);
    lemma_lowered_name("fit"@, "fit"@);
    assert("none"@.len() != "shrink"@.len());
    assert("actual"@.len() != "none"@.len());
    assert("actual"@[0] != "shrink"@[0]);
    assert("actual"@.len() != "full"@.len());
    assert("actual"@.len() != "fit"@.len());
    assert("actual"@.len() != "crop"@.len());
    assert("full"@[0] != "none"@[0]);
    assert("full"@.len() != "shrink"@.len());
    assert("fit"@.len() != "none"@.len());
    assert("fit"@.len() != "shrink"@.len());
    assert("fit"@.len() != "full"@.len());
    assert("crop"@[0] != "none"@[0]);
    assert("crop"@.len() != "shrink"@.len());
    assert("crop"@[0] != "full"@[0]);
    assert("crop"@.len() != "fit"@.len());
    match m {
        ScaleMode::Actual => assert(scale_from_name(case_lower(m.spec_name())) == Some(m)),
        ScaleMode::Shrink => assert(scale_from_name(case_lower(m.spec_name())) == Some(m)),
        ScaleMode::Full => assert(scale_from_name(case_lower(m.spec_name())) == Some(m)),
        ScaleMode::Crop => assert(scale_from_name(case_lower(m.spec_name())) == Some(m)),
    }
    lemma_scale_args(prog, flag, m.spec_name(), m);
    lemma_scale_args(prog, flag, "actual"@, ScaleMode::Actual);
    lemma_scale_args(prog, flag, "fit"@, ScaleMode::Full);
}

} // verus!

verus! {

/// Whether every field but the pending `--sync` path agrees.
pub open spec fn options_match(o: CliOptions, st: CliState) -> bool {
    let v = cli_state(o, None);
    &&& v.initial_path == st.initial_path
    &&& v.filter == st.filter
    &&& v.protocol == st.protocol
    &&& v.scale == st.scale
    &&& v.slideshow == st.slideshow
    &&& v.check_magic == st.check_magic
    &&& v.no_thumbnail == st.no_thumbnail
    &&& v.recursive == st.recursive
    &&& v.import_path == st.import_path
    &&& v.export_path == st.export_path
    &&& v.infobar == st.infobar
    &&& v.show_help == st.show_help
}

fn msg2(a: &str, b: &[char], c: &str) -> (r: String)
    ensures
        r@ == a@ + b@ + c@,
{
    let mut out = String::from_str(a);
    crate::text::append_chars(&mut out, b);
    out.append(c);
    out
}

/// The value following the option at position `*i`; on success `*i` moves
/// past the option and its value.
pub fn get_arg(args: &Vec<String>, i: &mut usize, flag: &str) -> (r: Result<String, String>)
    requires
        *old(i) < args.len(),
    ensures
        match spec_get_arg(args_view(args@), *old(i) as int, flag@) {
            Ok(v) => r is Ok && r->Ok_0@ == v && *final(i) == *old(i) + 2,
            Err(e) => r is Err && r->Err_0@ == e && *final(i) == *old(i),
        },
{
    let ghost av = args_view(args@);
    if *i + 1 < args.len() {
        let val = &args[*i + 1];
        assert(av[*i + 1] == val@);
        let vc = chars_of(val.as_str());
        if vc.len() > 0 && vc[0] == '-' {
            let mut out = String::from_str("Error: Argument for ");
            out.append(flag);
            out.append(" cannot be another option (");
            out.append(val.as_str());
            out.append(")");
            return Err(out);
        }
        let res = val.clone();
        *i = *i + 2;
        Ok(res)
    } else {
        let mut out = String::from_str("Error: Option ");
        out.append(flag);
        out.append(" requires an argument");
        Err(out)
    }
}

fn flag_eq(a: &[char], long: &str, short: &str) -> (r: bool)
    ensures
        r == is_flag(a@, long@, short@),
{
    chars_eq_str(a, long) || chars_eq_str(a, short)
}

fn filter_by_name(v: &[char]) -> (r: Option<FilterType>)
    ensures
        r == filter_from_name(v@),
{
    if chars_eq_str(v, "nearest") {
        Some(FilterType::Nearest)
    } else if chars_eq_str(v, "linear") {
        Some(FilterType::Linear)
    } else if chars_eq_str(v, "cubic") {
        Some(FilterType::Cubic)
    } else if chars_eq_str(v, "mitchell") {
        Some(FilterType::Mitchell)
    } else if chars_eq_str(v, "gaussian") {
        Some(FilterType::Gaussian)
    } else if chars_eq_str(v, "lanczos") {
        Some(FilterType::Lanczos)
    } else if chars_eq_str(v, "hamming") {
        Some(FilterType::Hamming)
    } else {
        None
    }
}

fn protocol_by_name(v: &[char]) -> (r: Option<ProtocolChoice>)
    ensures
        r == protocol_from_name(v@),
{
    if chars_eq_str(v, "kitty") {
        Some(ProtocolChoice::Kitty)
    } else if chars_eq_str(v, "sixel") {
        Some(ProtocolChoice::Sixel)
    } else if chars_eq_str(v, "halfblocks") || chars_eq_str(v, "halfblock") {
        Some(ProtocolChoice::Halfblocks)
    } else if chars_eq_str(v, "iterm2") {
        Some(ProtocolChoice::Iterm2)
    } else {
        None
    }
}

fn scale_by_name(v: &[char]) -> (r: Option<ScaleMode>)
    ensures
        r == scale_from_name(v@),
{
    if chars_eq_str(v, "none") || chars_eq_str(v, "actual") {
        Some(ScaleMode::Actual)
    } else if chars_eq_str(v, "shrink") {
        Some(ScaleMode::Shrink)
    } else if chars_eq_str(v, "full") || chars_eq_str(v, "fit") {
        Some(ScaleMode::Full)
    } else if chars_eq_str(v, "crop") {
        Some(ScaleMode::Crop)
    } else {
        None
    }
}

fn infobar_by_name(v: &[char]) -> (r: Option<InfoBarPosition>)
    ensures
        r == infobar_from_name(v@),
{
    if chars_eq_str(v, "top") {
        Some(InfoBarPosition::Top)
    } else if chars_eq_str(v, "bottom") {
        Some(InfoBarPosition::Bottom)
    } else if chars_eq_str(v, "none") {
        Some(InfoBarPosition::Hidden)
    } else {
        None
    }
}

/// Parses a slideshow delay the way `--slideshow` reads it: a whole number of
/// seconds, surrounding whitespace allowed; 0 means off.
pub fn parse_slideshow(v: &str) -> (r: Option<SlideshowState>)
    ensures
        r == spec_parse_slideshow(v@),
{
    let c = chars_of(v);
    let t = trim_chars(c.as_slice());
    match parse_u32(t.as_slice()) {
        Some(n) => Some(SlideshowState::new(n)),
        None => None,
    }
}

fn lower_of(v: &String) -> (r: Vec<char>)
    ensures
        r@ == case_lower(v@),
{
    let c = chars_of(v.as_str());
    lowercase_chars(c.as_slice())
}

/// How reading continues after one option.
pub enum Step {
    /// Continue at the given argument position.
    Next(usize),
    /// `--help` was read; stop.
    Help,
}

/// Reads the option at position `i`, updating the options and the pending
/// `--sync` path.
#[verifier::rlimit(80)]
fn parse_step(args: &Vec<String>, i: usize, o: &mut CliOptions, sync: &mut Option<String>) -> (r: Result<Step, String>)
    requires
        1 <= i < args.len(),
    ensures
        match r {
            Ok(Step::Next(j)) => i < j <= args.len() && spec_parse_from(args_view(args@), i as int, cli_state(*old(o), *old(sync)))
                == spec_parse_from(args_view(args@), j as int, cli_state(*final(o), *final(sync))),
            Ok(Step::Help) => spec_parse_from(args_view(args@), i as int, cli_state(*old(o), *old(sync)))
                == Ok::<CliState, Seq<char>>(cli_state(*final(o), *final(sync))),
            Err(e) => spec_parse_from(args_view(args@), i as int, cli_state(*old(o), *old(sync)))
                == Err::<CliState, Seq<char>>(e@),
        },
{
    let ghost av = args_view(args@);
    let mut i = i;
    let ghost i0 = i as int;
    let a = chars_of(args[i].as_str());
    assert(a@ == av[i0]);
    let flag = args[i].as_str();
    if flag_eq(a.as_slice(), "--filter", "-f") {
        let v = get_arg(args, &mut i, flag)?;
        let lv = lower_of(&v);
        match filter_by_name(lv.as_slice()) {
            Some(f) => {
                o.filter = f;
            },
            None => {
                return Err(
                    msg2(
                        "Error: Unknown filter '",
                        lv.as_slice(),
                        "'. Choose from: nearest, linear, cubic, mitchell, gaussian, lanczos, hamming",
                    ),
                );
            },
        }
    } else if flag_eq(a.as_slice(), "--protocol", "-p") {
        let v = get_arg(args, &mut i, flag)?;
        let lv = lower_of(&v);
        match protocol_by_name(lv.as_slice()) {
            Some(p) => {
                o.protocol = Some(p);
            },
            None => {
                return Err(
                    msg2(
                        "Error: Unknown protocol '",
                        lv.as_slice(),
                        "'. Choose from: kitty, sixel, halfblocks, iterm2",
                    ),
                );
            },
        }
    } else if flag_eq(a.as_slice(), "--scale", "-s") {
        let v = get_arg(args, &mut i, flag)?;
        let lv = lower_of(&v);
        match scale_by_name(lv.as_slice()) {
            Some(m) => {
                o.scale = m;
            },
            None => {
                return Err(
                    msg2(
                        "Error: Unknown scale mode '",
                        lv.as_slice(),
                        "'. Choose from: none, actual, shrink, full, crop",
                    ),
                );
            },
        }
    } else if flag_eq(a.as_slice(), "--slideshow", "-t") {
        let v = get_arg(args, &mut i, flag)?;
        match parse_slideshow(v.as_str()) {
            Some(s) => {
                o.slideshow = Some(s);
            },
            None => {
                return Err(
                    String::from_str(
                        "Error: -t / --slideshow requires a positive integer argument",
                    ),
                );
            },
        }
    } else if flag_eq(a.as_slice(), "--check-magic", "-m") {
        o.check_magic = true;
        i = i + 1;
    } else if chars_eq_str(a.as_slice(), "--no-thumbnail") {
        o.no_thumbnail = true;
        i = i + 1;
    } else if flag_eq(a.as_slice(), "--recursive", "-R") {
        o.recursive = true;
        i = i + 1;
    } else if chars_eq_str(a.as_slice(), "--infobar") {
        let v = get_arg(args, &mut i, flag)?;
        let lv = lower_of(&v);
        match infobar_by_name(lv.as_slice()) {
            Some(p) => {
                o.infobar = p;
            },
            None => {
                return Err(
                    msg2(
                        "Error: Unknown infobar position '",
                        lv.as_slice(),
                        "'. Choose from: top, bottom, none",
                    ),
                );
            },
        }
    } else if flag_eq(a.as_slice(), "--sync", "-r") {
        let v = get_arg(args, &mut i, flag)?;
        *sync = Some(v);
    } else if flag_eq(a.as_slice(), "--import", "-i") {
        let v = get_arg(args, &mut i, flag)?;
        o.import_path = Some(v);
    } else if flag_eq(a.as_slice(), "--export", "-o") {
        let v = get_arg(args, &mut i, flag)?;
        o.export_path = Some(v);
    } else if flag_eq(a.as_slice(), "--help", "-h") {
        o.show_help = true;
        return Ok(Step::Help);
    } else if a.len() > 0 && a[0] == '-' {
        return Err(msg2("Error: Unknown option '", a.as_slice(), "'"));
    } else {
        match &o.initial_path {
            Some(p) => {
                let mut out = String::from_str(
                    "Error: Only a single path argument is supported, but multiple paths were provided: '",
                );
                out.append(p.as_str());
                out.append("' and '");
                out.append(flag);
                out.append("'");
                return Err(out);
            },
            None => {
                o.initial_path = Some(args[i].clone());
                i = i + 1;
            },
        }
    }
    Ok(Step::Next(i))
}

/// Parses a full argument list (the first argument is the program name), as
/// described by `spec_parse_cli`.
pub fn parse_cli_args_from(args: &Vec<String>) -> (r: Result<CliOptions, String>)
    ensures
        match spec_parse_cli(args_view(args@)) {
            Ok(st) => r is Ok && options_match(r->Ok_0, st),
            Err(e) => r is Err && r->Err_0@ == e,
        },
{
    let ghost av = args_view(args@);
    let mut o = CliOptions {
        initial_path: None,
        filter: FilterType::Nearest,
        protocol: None,
        scale: ScaleMode::Shrink,
        slideshow: None,
        check_magic: false,
        no_thumbnail: false,
        recursive: false,
        import_path: None,
        export_path: None,
        infobar: InfoBarPosition::Bottom,
        show_help: false,
    };
    let mut sync: Option<String> = None;
    let mut i: usize = 1;
    assert(cli_state(o, sync) == initial_state());
    while i < args.len()
        invariant
            av == args_view(args@),
            i >= 1,
            spec_parse_cli(av) == spec_parse_from(av, i as int, cli_state(o, sync)),
        decreases args.len() - i,
    {
        match parse_step(args, i, &mut o, &mut sync)? {
            Step::Next(j) => {
                i = j;
            },
            Step::Help => {
                return Ok(o);
            },
        }
    }
    match &sync {
        Some(p) => {
            if o.import_path.is_some() || o.export_path.is_some() {
                return Err(
                    String::from_str(
                        "Error: Option --sync (-r) cannot be used together with --import (-i) or --export (-o)",
                    ),
                );
            }
            o.import_path = Some(p.clone());
            o.export_path = Some(p.clone());
        },
        None => {},
    }
    Ok(o)
}

} // verus!
