//! The operations a caller can ask for, the protocol version a tool server
//! agrees to, and the plan of the `rg` stand-in.
use vstd::prelude::*;
use crate::budget::{MAX_HITS_PER_FILE, MAX_LINE_CHARS};
use crate::process::ProcResult;
use crate::text::{decimal, decimal_string, from_utf8_lossy, lossy_utf8, str_eq, views};

verus! {

// ---------------------------------------------------------------------------
// Operations
// ---------------------------------------------------------------------------

/// An operation of the library.
#[derive(PartialEq, Eq, Structural, Clone, Copy, Debug)]
pub enum Op {
    Find,
    Files,
    Symbol,
    Json,
    SelfCheck,
}

/// The operation a name asks for: each operation by its short name or with
/// a `cxs_` prefix.
pub open spec fn op_named(name: Seq<char>) -> Option<Op> {
    if name == "find"@ || name == "cxs_find"@ {
        Some(Op::Find)
    } else if name == "files"@ || name == "cxs_files"@ {
        Some(Op::Files)
    } else if name == "symbol"@ || name == "cxs_symbol"@ {
        Some(Op::Symbol)
    } else if name == "json"@ || name == "cxs_json"@ {
        Some(Op::Json)
    } else if name == "self_check"@ || name == "cxs_self_check"@ {
        Some(Op::SelfCheck)
    } else {
        None
    }
}

/// Reads an operation name; `None` for a name that is no operation (which
/// is answered with `bad_op` and [`valid_ops`]).
pub fn op_from_name(name: &str) -> (res: Option<Op>)
    ensures
        res == op_named(name@),
{
    if str_eq(name, "find") || str_eq(name, "cxs_find") {
        Some(Op::Find)
    } else if str_eq(name, "files") || str_eq(name, "cxs_files") {
        Some(Op::Files)
    } else if str_eq(name, "symbol") || str_eq(name, "cxs_symbol") {
        Some(Op::Symbol)
    } else if str_eq(name, "json") || str_eq(name, "cxs_json") {
        Some(Op::Json)
    } else if str_eq(name, "self_check") || str_eq(name, "cxs_self_check") {
        Some(Op::SelfCheck)
    } else {
        None
    }
}

pub open spec fn valid_op_names() -> Seq<Seq<char>> {
    seq!["find"@, "files"@, "symbol"@, "json"@, "self_check"@]
}

/// The operation names a refused request is told about.
pub fn valid_ops() -> (res: Vec<String>)
    ensures
        views(res@) == valid_op_names(),
{
    let mut v: Vec<String> = Vec::new();
    v.push("find".to_owned());
    v.push("files".to_owned());
    v.push("symbol".to_owned());
    v.push("json".to_owned());
    v.push("self_check".to_owned());
    assert(views(v@) =~= valid_op_names());
    v
}

/// Every short operation name names its operation.
pub proof fn law_valid_ops_are_ops()
    ensures
        forall|i: int| 0 <= i < valid_op_names().len() ==> (#[trigger] op_named(valid_op_names()[i])) is Some,
{
    reveal_strlit("find");
    reveal_strlit("files");
    reveal_strlit("symbol");
    reveal_strlit("json");
    reveal_strlit("self_check");
}

// ---------------------------------------------------------------------------
// The self check
// ---------------------------------------------------------------------------

/// What `rg --version` reported: its first line, decoded, or `unknown`.
pub open spec fn version_text(lines: Seq<Vec<u8>>) -> Seq<char> {
    if lines.len() > 0 {
        lossy_utf8(lines[0]@)
    } else {
        "unknown"@
    }
}

pub fn rg_version(proc: &ProcResult) -> (res: String)
    ensures
        res@ == version_text(proc.lines@),
{
    if proc.lines.len() > 0 {
        from_utf8_lossy(proc.lines[0].as_slice())
    } else {
        "unknown".to_owned()
    }
}

// ---------------------------------------------------------------------------
// The tool protocol
// ---------------------------------------------------------------------------

/// The protocol version the tool server prefers.
pub open spec fn preferred_protocol() -> Seq<char> {
    "2025-06-18"@
}

/// The protocol versions the tool server speaks.
pub open spec fn known_protocol(v: Seq<char>) -> bool {
    v == "2025-06-18"@ || v == "2025-03-26"@ || v == "2024-11-05"@
}

/// The version agreed on: the requested one when the server speaks it,
/// else (or when none is requested) the preferred one.
pub open spec fn agreed_protocol(requested: Option<Seq<char>>) -> Seq<char> {
    match requested {
        Some(v) => if known_protocol(v) {
            v
        } else {
            preferred_protocol()
        },
        None => preferred_protocol(),
    }
}

pub fn negotiate_protocol(requested: Option<&str>) -> (res: String)
    ensures
        res@ == agreed_protocol(match requested {
            Some(v) => Some(v@),
            None => None,
        }),
{
    match requested {
        Some(v) => if str_eq(v, "2025-06-18") || str_eq(v, "2025-03-26") || str_eq(v, "2024-11-05") {
            v.to_owned()
        } else {
            "2025-06-18".to_owned()
        },
        None => "2025-06-18".to_owned(),
    }
}

/// How a tool call is answered: the single `cxs` tool dispatches on the
/// `op` it is given; each `cxs_<op>` tool runs its operation; any other
/// name is refused as `unknown_tool`.
pub enum ToolRoute {
    ByOp,
    Run(Op),
    Unknown,
}

pub open spec fn tool_route(name: Seq<char>) -> ToolRoute {
    if name == "cxs"@ {
        ToolRoute::ByOp
    } else if name == "cxs_find"@ {
        ToolRoute::Run(Op::Find)
    } else if name == "cxs_files"@ {
        ToolRoute::Run(Op::Files)
    } else if name == "cxs_symbol"@ {
        ToolRoute::Run(Op::Symbol)
    } else if name == "cxs_json"@ {
        ToolRoute::Run(Op::Json)
    } else if name == "cxs_self_check"@ {
        ToolRoute::Run(Op::SelfCheck)
    } else {
        ToolRoute::Unknown
    }
}

pub fn route_tool(name: &str) -> (res: ToolRoute)
    ensures
        res == tool_route(name@),
{
    if str_eq(name, "cxs") {
        ToolRoute::ByOp
    } else if str_eq(name, "cxs_find") {
        ToolRoute::Run(Op::Find)
    } else if str_eq(name, "cxs_files") {
        ToolRoute::Run(Op::Files)
    } else if str_eq(name, "cxs_symbol") {
        ToolRoute::Run(Op::Symbol)
    } else if str_eq(name, "cxs_json") {
        ToolRoute::Run(Op::Json)
    } else if str_eq(name, "cxs_self_check") {
        ToolRoute::Run(Op::SelfCheck)
    } else {
        ToolRoute::Unknown
    }
}

// ---------------------------------------------------------------------------
// The rg stand-in
// ---------------------------------------------------------------------------

pub open spec fn starts_with(s: Seq<char>, p: Seq<char>) -> bool {
    p.len() <= s.len() && s.take(p.len() as int) == p
}

/// Arguments that ask ripgrep for file names rather than lines.
pub open spec fn lists_files(a: Seq<char>) -> bool {
    a == "--files"@ || a == "-l"@ || a == "--files-with-matches"@
}

/// Arguments that ask for line numbers.
pub open spec fn asks_line_numbers(a: Seq<char>) -> bool {
    starts_with(a, "-n"@) || a == "--line-number"@
}

/// Flags a bounded search does without.
pub open spec fn ignored_flag(a: Seq<char>) -> bool {
    a == "-n"@ || a == "--line-number"@ || a == "--no-heading"@ || a == "--color=never"@ || a
        == "-S"@ || a == "--smart-case"@
}

pub open spec fn literal_flag(a: Seq<char>) -> bool {
    a == "-F"@ || a == "--fixed-strings"@
}

pub open spec fn pattern_flag(a: Seq<char>) -> bool {
    a == "-e"@ || a == "--regexp"@
}

/// A line-numbered ripgrep command line read as a bounded search, from
/// argument `i` on, with the patterns, paths and literal setting read so
/// far: ignored flags are skipped, `-F` makes it literal, `-e PATTERN`
/// adds a pattern, any other flag makes the line unsupported (`None`), and
/// a bare argument is the pattern when there is none yet, else a path.
pub open spec fn shim_parse(args: Seq<Seq<char>>, i: int, pats: Seq<Seq<char>>, paths: Seq<Seq<char>>, literal: bool) -> Option<
    (Seq<Seq<char>>, Seq<Seq<char>>, bool),
>
    decreases args.len() - i,
{
    if i < 0 || i >= args.len() {
        Some((pats, paths, literal))
    } else {
        let a = args[i];
        if ignored_flag(a) {
            shim_parse(args, i + 1, pats, paths, literal)
        } else if literal_flag(a) {
            shim_parse(args, i + 1, pats, paths, true)
        } else if pattern_flag(a) && i + 1 < args.len() {
            shim_parse(args, i + 2, pats.push(args[i + 1]), paths, literal)
        } else if a.len() > 0 && a[0] == '-' {
            None
        } else if pats.len() == 0 {
            shim_parse(args, i + 1, pats.push(a), paths, literal)
        } else {
            shim_parse(args, i + 1, pats, paths.push(a), literal)
        }
    }
}

/// What the stand-in does with a command line.
pub enum ShimPlan {
    /// Hand the arguments to the real ripgrep unchanged (raw mode was asked
    /// for in the environment).
    Raw,
    /// Hand the arguments to the real ripgrep unchanged (a file listing).
    Listing,
    /// Run a bounded search for the patterns in the paths.
    Search { terms: Vec<String>, literal: bool, paths: Vec<String> },
    /// Run the real ripgrep with these arguments: per-file and line-width
    /// guards before the given ones.
    Guarded(Vec<String>),
}

/// The guard arguments before a command line: at most the per-file hit
/// budget of matches per file, lines cut at the line budget with a preview.
pub open spec fn guarded_args(args: Seq<Seq<char>>) -> Seq<Seq<char>> {
    seq!["--max-count"@, decimal(MAX_HITS_PER_FILE as nat), "--max-columns"@, decimal(MAX_LINE_CHARS as nat), "--max-columns-preview"@]
        + args
}

/// The plan for a command line: raw mode first, then file listings, then a
/// bounded search for a line-numbered command line that reads as one, and
/// otherwise a guarded ripgrep run.
pub open spec fn shim_plan_holds(args: Seq<Seq<char>>, raw_env: bool, plan: ShimPlan) -> bool {
    if raw_env {
        plan is Raw
    } else if exists|i: int| 0 <= i < args.len() && lists_files(#[trigger] args[i]) {
        plan is Listing
    } else {
        let numbered = exists|i: int| 0 <= i < args.len() && asks_line_numbers(#[trigger] args[i]);
        match (if numbered { shim_parse(args, 0, seq![], seq![], false) } else { None }) {
            Some((pats, paths, literal)) => plan matches ShimPlan::Search { terms, literal: l, paths: ps }
                && views(terms@) == pats && views(ps@) == paths && l == literal,
            None => plan matches ShimPlan::Guarded(g) && views(g@) == guarded_args(args),
        }
    }
}

fn has_prefix(s: &str, p: &str) -> (res: bool)
    ensures
        res == starts_with(s@, p@),
{
    let sc = crate::text::chars_of(s);
    let pc = crate::text::chars_of(p);
    if pc.len() > sc.len() {
        return false;
    }
    let n = pc.len();
    let mut i: usize = 0;
    while i < n
        invariant
            i <= n == pc@.len() <= sc@.len(),
            sc@ == s@,
            pc@ == p@,
            forall|j: int| 0 <= j < i ==> sc@[j] == pc@[j],
        decreases n - i,
    {
        if sc[i] != pc[i] {
            assert(sc@.take(n as int)[i as int] == sc@[i as int]);
            assert(sc@.take(n as int) != pc@);
            return false;
        }
        i = i + 1;
    }
    assert(sc@.take(n as int) =~= pc@);
    true
}

fn any_arg(args: &Vec<String>, numbered: bool) -> (res: bool)
    ensures
        !numbered ==> res == exists|i: int| 0 <= i < args@.len() && lists_files(#[trigger] views(args@)[i]),
        numbered ==> res == exists|i: int| 0 <= i < args@.len() && asks_line_numbers(#[trigger] views(args@)[i]),
{
    let n = args.len();
    let mut i: usize = 0;
    while i < n
        invariant
            i <= n == args@.len(),
            !numbered ==> forall|j: int| 0 <= j < i ==> !lists_files(#[trigger] views(args@)[j]),
            numbered ==> forall|j: int| 0 <= j < i ==> !asks_line_numbers(#[trigger] views(args@)[j]),
        decreases n - i,
    {
        let a = args[i].as_str();
        assert(views(args@)[i as int] == a@);
        let hit = if numbered {
            has_prefix(a, "-n") || str_eq(a, "--line-number")
        } else {
            str_eq(a, "--files") || str_eq(a, "-l") || str_eq(a, "--files-with-matches")
        };
        if hit {
            return true;
        }
        i = i + 1;
    }
    false
}

fn parse_search(args: &Vec<String>) -> (res: Option<(Vec<String>, Vec<String>, bool)>)
    ensures
        match res {
            Some((pats, paths, literal)) => shim_parse(views(args@), 0, seq![], seq![], false) == Some(
                (views(pats@), views(paths@), literal),
            ),
            None => shim_parse(views(args@), 0, seq![], seq![], false) is None,
        },
{
    let ghost av = views(args@);
    let n = args.len();
    let mut pats: Vec<String> = Vec::new();
    let mut paths: Vec<String> = Vec::new();
    let mut literal = false;
    let mut i: usize = 0;
    assert(views(pats@) =~= Seq::<Seq<char>>::empty());
    assert(views(paths@) =~= Seq::<Seq<char>>::empty());
    while i < n
        invariant
            i <= n == args@.len(),
            av == views(args@),
            shim_parse(av, 0, seq![], seq![], false) == shim_parse(av, i as int, views(pats@), views(paths@), literal),
        decreases n - i,
    {
        let a = args[i].as_str();
        assert(av[i as int] == a@);
        let ghost pb = pats@;
        let ghost qb = paths@;
        if str_eq(a, "-n") || str_eq(a, "--line-number") || str_eq(a, "--no-heading") || str_eq(a, "--color=never")
            || str_eq(a, "-S") || str_eq(a, "--smart-case") {
            i = i + 1;
        } else if str_eq(a, "-F") || str_eq(a, "--fixed-strings") {
            literal = true;
            i = i + 1;
        } else if (str_eq(a, "-e") || str_eq(a, "--regexp")) && i + 1 < n {
            pats.push(args[i + 1].clone());
            assert(views(pats@) =~= views(pb).push(av[i + 1]));
            i = i + 2;
        } else if has_prefix(a, "-") {
            proof {
                reveal_strlit("-");
                assert("-"@ =~= seq!['-']);
                assert(a@.take(1)[0] == a@[0]);
                assert(a@.len() > 0 && a@[0] == '-');
            }
            return None;
        } else {
            proof {
                reveal_strlit("-");
                assert("-"@ =~= seq!['-']);
                if a@.len() > 0 {
                    assert(a@.take(1) =~= seq![a@[0]]);
                }
            }
            if pats.len() == 0 {
                pats.push(args[i].clone());
                assert(views(pats@) =~= views(pb).push(a@));
            } else {
                paths.push(args[i].clone());
                assert(views(paths@) =~= views(qb).push(a@));
            }
            i = i + 1;
        }
    }
    Some((pats, paths, literal))
}

/// Decides what the stand-in does with a command line, as
/// [`shim_plan_holds`] says; `raw_env` tells whether raw mode was asked
/// for in the environment.
pub fn shim_plan(args: &Vec<String>, raw_env: bool) -> (res: ShimPlan)
    ensures
        shim_plan_holds(views(args@), raw_env, res),
{
    proof {
        assert forall|i: int| 0 <= i < args@.len() implies views(args@)[i] == args@[i]@ by {}
    }
    if raw_env {
        return ShimPlan::Raw;
    }
    if any_arg(args, false) {
        return ShimPlan::Listing;
    }
    if any_arg(args, true) {
        match parse_search(args) {
            Some((terms, paths, literal)) => {
                return ShimPlan::Search { terms, literal, paths };
            },
            None => {},
        }
    }
    let mut g: Vec<String> = Vec::new();
    g.push("--max-count".to_owned());
    g.push(decimal_string(MAX_HITS_PER_FILE));
    g.push("--max-columns".to_owned());
    g.push(decimal_string(MAX_LINE_CHARS));
    g.push("--max-columns-preview".to_owned());
    let ghost head = views(g@);
    let n = args.len();
    let mut i: usize = 0;
    while i < n
        invariant
            i <= n == args@.len(),
            views(g@) == head + views(args@).take(i as int),
        decreases n - i,
    {
        let ghost before = g@;
        g.push(args[i].clone());
        assert(views(g@) =~= views(before).push(args@[i as int]@));
        assert(views(args@).take(i + 1) =~= views(args@).take(i as int).push(args@[i as int]@));
        i = i + 1;
    }
    assert(views(args@).take(n as int) =~= views(args@));
    assert(views(g@) =~= guarded_args(views(args@)));
    ShimPlan::Guarded(g)
}

} // verus!
