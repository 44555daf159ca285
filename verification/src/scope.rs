//! Search scopes and the ripgrep glob arguments they expand to.
use vstd::prelude::*;
use crate::json::{JsonValue, as_list_value, deref_opt, list_of};
use crate::text::{
    chars_of,
    contains_chars,
    contains_string,
    lowercase,
    str_contains,
    str_eq,
    string_from_chars,
    to_lowercase,
    trim_chars,
    trimmed,
    views,
};

verus! {

/// The views of a sequence of string slices.
pub open spec fn strs(xs: Seq<&str>) -> Seq<Seq<char>> {
    xs.map_values(|s: &str| s@)
}

/// Copies string slices into owned strings.
pub fn to_strings(xs: &[&str]) -> (res: Vec<String>)
    ensures
        views(res@) == strs(xs@),
        res@.len() == xs@.len(),
{
    let n = xs.len();
    let mut out: Vec<String> = Vec::new();
    let mut i: usize = 0;
    while i < n
        invariant
            i <= n == xs@.len(),
            out@.len() == i,
            views(out@) == strs(xs@.take(i as int)),
        decreases n - i,
    {
        let ghost before = out@;
        let t = xs[i].to_owned();
        out.push(t);
        assert forall|j: int| 0 <= j < i + 1 implies #[trigger] views(out@)[j] == strs(
            xs@.take(i + 1),
        )[j] by {
            if j < i {
                assert(views(before)[j] == strs(xs@.take(i as int))[j]);
                assert(out@[j] == before[j]);
            } else {
                assert(out@[j] == t);
            }
        }
        assert(views(out@) =~= strs(xs@.take(i + 1)));
        i = i + 1;
    }
    assert(xs@.take(n as int) =~= xs@);
    out
}

// ---------------------------------------------------------------------------
// Fixed tables
// ---------------------------------------------------------------------------

/// Scopes searched when the request names none.
pub open spec fn default_scopes() -> Seq<&'static str> {
    seq!["docs", "src", "tests", "config", "analysis"]
}

pub fn default_scope_names() -> (res: Vec<String>)
    ensures
        views(res@) == strs(default_scopes()),
{
    let a: [&str; 5] = ["docs", "src", "tests", "config", "analysis"];
    assert(a@ =~= default_scopes());
    to_strings(&a)
}

/// Paths left out of every search unless the request names files.
pub open spec fn default_excludes() -> Seq<&'static str> {
    seq![
        "**/.git/**",
        "**/.hg/**",
        "**/.svn/**",
        "**/.venv/**",
        "**/venv/**",
        "**/node_modules/**",
        "**/__pycache__/**",
        "**/resources/code/github/**",
        "**/resources/cache/**",
        "**/resources/models/**",
        "**/experiments/runs/**",
        "**/runs/**",
        "**/checkpoints/**",
        "**/wandb/**",
        "**/*.pt",
        "**/*.pth",
        "**/*.safetensors",
        "**/*.onnx",
        "**/*.bin",
        "**/*.gguf",
        "**/*.parquet",
        "**/*.arrow",
        "**/*.npz",
        "**/*.npy",
        "**/*.pkl",
        "**/*.pickle",
        "**/*.zip",
        "**/*.tar",
        "**/*.tar.gz",
        "**/*.tgz",
        "**/*.7z",
        "**/uv.lock",
        "**/package-lock.json",
        "**/pnpm-lock.yaml",
        "**/yarn.lock",
    ]
}

pub fn default_exclude_globs() -> (res: Vec<String>)
    ensures
        views(res@) == strs(default_excludes()),
{
    let a: [&str; 35] = [
        "**/.git/**",
        "**/.hg/**",
        "**/.svn/**",
        "**/.venv/**",
        "**/venv/**",
        "**/node_modules/**",
        "**/__pycache__/**",
        "**/resources/code/github/**",
        "**/resources/cache/**",
        "**/resources/models/**",
        "**/experiments/runs/**",
        "**/runs/**",
        "**/checkpoints/**",
        "**/wandb/**",
        "**/*.pt",
        "**/*.pth",
        "**/*.safetensors",
        "**/*.onnx",
        "**/*.bin",
        "**/*.gguf",
        "**/*.parquet",
        "**/*.arrow",
        "**/*.npz",
        "**/*.npy",
        "**/*.pkl",
        "**/*.pickle",
        "**/*.zip",
        "**/*.tar",
        "**/*.tar.gz",
        "**/*.tgz",
        "**/*.7z",
        "**/uv.lock",
        "**/package-lock.json",
        "**/pnpm-lock.yaml",
        "**/yarn.lock",
    ];
    assert(a@ =~= default_excludes());
    to_strings(&a)
}

/// Files that structured-data search looks at.
pub open spec fn data_globs() -> Seq<&'static str> {
    seq!["**/*.json", "**/*.jsonl", "**/*.ndjson", "**/*.csv", "**/*.tsv"]
}

pub fn data_glob_list() -> (res: Vec<String>)
    ensures
        views(res@) == strs(data_globs()),
{
    let a: [&str; 5] = ["**/*.json", "**/*.jsonl", "**/*.ndjson", "**/*.csv", "**/*.tsv"];
    assert(a@ =~= data_globs());
    to_strings(&a)
}

pub open spec fn docs_globs() -> Seq<&'static str> {
    seq![
        "**/*.md",
        "**/*.mdx",
        "**/*.txt",
        "**/*.rst",
        "**/*.adoc",
        "AGENTS.md",
        "README*",
        "CHANGELOG*",
        "TODO*",
        "NOTES*",
    ]
}

pub open spec fn src_globs() -> Seq<&'static str> {
    seq![
        "**/*.py",
        "**/*.pyi",
        "**/*.rs",
        "**/*.go",
        "**/*.js",
        "**/*.jsx",
        "**/*.ts",
        "**/*.tsx",
        "**/*.java",
        "**/*.kt",
        "**/*.c",
        "**/*.cc",
        "**/*.cpp",
        "**/*.h",
        "**/*.hpp",
        "**/*.cs",
        "**/*.rb",
        "**/*.php",
        "**/*.swift",
        "**/*.m",
        "**/*.scala",
        "**/*.sh",
        "**/*.bash",
        "**/*.zsh",
        "**/*.fish",
        "**/*.pl",
        "**/*.r",
        "**/*.R",
        "**/*.jl",
        "**/*.lua",
    ]
}

pub open spec fn tests_globs() -> Seq<&'static str> {
    seq!["**/test/**", "**/tests/**", "**/*test*.*", "**/*spec*.*"]
}

pub open spec fn config_globs() -> Seq<&'static str> {
    seq![
        "**/*.toml",
        "**/*.yaml",
        "**/*.yml",
        "**/*.json",
        "**/*.jsonl",
        "**/*.ini",
        "**/*.cfg",
        "**/*.conf",
        "**/*.env",
        "**/Dockerfile",
        "**/Makefile",
        "**/*.mk",
    ]
}

pub open spec fn analysis_globs() -> Seq<&'static str> {
    seq!["**/analysis/**", "**/reports/**", "**/summaries/**", "**/*.csv", "**/*.tsv"]
}

pub open spec fn runs_globs() -> Seq<&'static str> {
    seq!["**/experiments/runs/**", "**/runs/**", "**/artifacts/**", "**/outputs/**"]
}

pub open spec fn vendor_globs() -> Seq<&'static str> {
    seq!["**/resources/code/github/**", "**/vendor/**", "**/third_party/**"]
}

pub open spec fn all_globs() -> Seq<&'static str> {
    seq!["**/*"]
}

/// The include globs of a known scope name.
pub open spec fn scope_globs(scope: Seq<char>) -> Option<Seq<&'static str>> {
    if scope == "docs"@ {
        Some(docs_globs())
    } else if scope == "src"@ {
        Some(src_globs())
    } else if scope == "tests"@ {
        Some(tests_globs())
    } else if scope == "config"@ {
        Some(config_globs())
    } else if scope == "analysis"@ {
        Some(analysis_globs())
    } else if scope == "runs"@ {
        Some(runs_globs())
    } else if scope == "vendor"@ {
        Some(vendor_globs())
    } else if scope == "all"@ {
        Some(all_globs())
    } else {
        None
    }
}

/// The include globs of a scope, or `None` for an unknown scope name.
pub fn scope_includes(scope: &str) -> (res: Option<Vec<String>>)
    ensures
        match scope_globs(scope@) {
            Some(g) => res matches Some(v) && views(v@) == strs(g),
            None => res is None,
        },
{
    if str_eq(scope, "docs") {
        let a: [&str; 10] = [
            "**/*.md",
            "**/*.mdx",
            "**/*.txt",
            "**/*.rst",
            "**/*.adoc",
            "AGENTS.md",
            "README*",
            "CHANGELOG*",
            "TODO*",
            "NOTES*",
        ];
        assert(a@ =~= docs_globs());
        Some(to_strings(&a))
    } else if str_eq(scope, "src") {
        let a: [&str; 30] = [
            "**/*.py",
            "**/*.pyi",
            "**/*.rs",
            "**/*.go",
            "**/*.js",
            "**/*.jsx",
            "**/*.ts",
            "**/*.tsx",
            "**/*.java",
            "**/*.kt",
            "**/*.c",
            "**/*.cc",
            "**/*.cpp",
            "**/*.h",
            "**/*.hpp",
            "**/*.cs",
            "**/*.rb",
            "**/*.php",
            "**/*.swift",
            "**/*.m",
            "**/*.scala",
            "**/*.sh",
            "**/*.bash",
            "**/*.zsh",
            "**/*.fish",
            "**/*.pl",
            "**/*.r",
            "**/*.R",
            "**/*.jl",
            "**/*.lua",
        ];
        assert(a@ =~= src_globs());
        Some(to_strings(&a))
    } else if str_eq(scope, "tests") {
        let a: [&str; 4] = ["**/test/**", "**/tests/**", "**/*test*.*", "**/*spec*.*"];
        assert(a@ =~= tests_globs());
        Some(to_strings(&a))
    } else if str_eq(scope, "config") {
        let a: [&str; 12] = [
            "**/*.toml",
            "**/*.yaml",
            "**/*.yml",
            "**/*.json",
            "**/*.jsonl",
            "**/*.ini",
            "**/*.cfg",
            "**/*.conf",
            "**/*.env",
            "**/Dockerfile",
            "**/Makefile",
            "**/*.mk",
        ];
        assert(a@ =~= config_globs());
        Some(to_strings(&a))
    } else if str_eq(scope, "analysis") {
        let a: [&str; 5] = [
            "**/analysis/**",
            "**/reports/**",
            "**/summaries/**",
            "**/*.csv",
            "**/*.tsv",
        ];
        assert(a@ =~= analysis_globs());
        Some(to_strings(&a))
    } else if str_eq(scope, "runs") {
        let a: [&str; 4] = [
            "**/experiments/runs/**",
            "**/runs/**",
            "**/artifacts/**",
            "**/outputs/**",
        ];
        assert(a@ =~= runs_globs());
        Some(to_strings(&a))
    } else if str_eq(scope, "vendor") {
        let a: [&str; 3] = ["**/resources/code/github/**", "**/vendor/**", "**/third_party/**"];
        assert(a@ =~= vendor_globs());
        Some(to_strings(&a))
    } else if str_eq(scope, "all") {
        let a: [&str; 1] = ["**/*"];
        assert(a@ =~= all_globs());
        Some(to_strings(&a))
    } else {
        None
    }
}

// ---------------------------------------------------------------------------
// Glob arguments
// ---------------------------------------------------------------------------

/// A requested scope name as it is matched: trimmed and lower-cased.
pub open spec fn scope_key(s: Seq<char>) -> Seq<char> {
    lowercase(trimmed(s))
}

/// The distinct non-empty scope keys of `requested`, in first-seen order.
pub open spec fn scope_set(requested: Seq<Seq<char>>) -> Seq<Seq<char>>
    decreases requested.len(),
{
    if requested.len() == 0 {
        seq![]
    } else {
        let prev = scope_set(requested.drop_last());
        let k = scope_key(requested.last());
        if k.len() == 0 || prev.contains(k) {
            prev
        } else {
            prev.push(k)
        }
    }
}

/// The requested scopes, or the default scopes when none is requested.
pub open spec fn requested_or_default(requested: Seq<Seq<char>>) -> Seq<Seq<char>> {
    if requested.len() == 0 {
        strs(default_scopes())
    } else {
        requested
    }
}

/// Include globs of all known scopes in `set`, in order.
pub open spec fn scope_includes_of(set: Seq<Seq<char>>) -> Seq<Seq<char>>
    decreases set.len(),
{
    if set.len() == 0 {
        seq![]
    } else {
        scope_includes_of(set.drop_last()) + match scope_globs(set.last()) {
            Some(g) => strs(g),
            None => seq![],
        }
    }
}

/// One `unknown_scope:<name>` warning per unknown scope in `set`.
pub open spec fn unknown_scope_warnings(set: Seq<Seq<char>>) -> Seq<Seq<char>>
    decreases set.len(),
{
    if set.len() == 0 {
        seq![]
    } else {
        unknown_scope_warnings(set.drop_last()) + match scope_globs(set.last()) {
            Some(_) => seq![],
            None => seq!["unknown_scope:"@ + set.last()],
        }
    }
}

/// Default excludes that asking for the `vendor` scope keeps.
pub open spec fn kept_with_vendor(g: Seq<char>) -> bool {
    !contains_chars(g, "resources/code/github"@) && !contains_chars(g, "vendor"@)
        && !contains_chars(g, "third_party"@)
}

/// Default excludes that asking for the `runs` scope keeps.
pub open spec fn kept_with_runs(g: Seq<char>) -> bool {
    !contains_chars(g, "experiments/runs"@) && !contains_chars(g, "**/runs/**"@)
}

/// The default excludes that apply to a scope set: none when the request
/// names only files; the vendor and run-directory ones lifted when those
/// scopes are asked for.
pub open spec fn base_excludes(set: Seq<Seq<char>>, explicit_files: bool) -> Seq<Seq<char>> {
    let e0 = if explicit_files {
        seq![]
    } else {
        strs(default_excludes())
    };
    let e1 = if set.contains("vendor"@) {
        e0.filter(|g: Seq<char>| kept_with_vendor(g))
    } else {
        e0
    };
    if set.contains("runs"@) {
        e1.filter(|g: Seq<char>| kept_with_runs(g))
    } else {
        e1
    }
}

/// An exclude glob in negated form.
pub open spec fn negated(g: Seq<char>) -> Seq<char> {
    if g.len() > 0 && g[0] == '!' {
        g
    } else {
        seq!['!'] + g
    }
}

/// Arguments so far and globs already emitted.
pub type GlobAcc = (Seq<Seq<char>>, Seq<Seq<char>>);

pub open spec fn add_include(acc: GlobAcc, g: Seq<char>) -> GlobAcc {
    if g.len() > 0 && !acc.1.contains(g) {
        (acc.0 + seq!["-g"@, g], acc.1.push(g))
    } else {
        acc
    }
}

pub open spec fn add_exclude(acc: GlobAcc, g: Seq<char>) -> GlobAcc {
    let gg = negated(g);
    if !acc.1.contains(gg) {
        (acc.0 + seq!["-g"@, gg], acc.1.push(gg))
    } else {
        acc
    }
}

pub open spec fn include_fold(acc: GlobAcc, gs: Seq<Seq<char>>) -> GlobAcc
    decreases gs.len(),
{
    if gs.len() == 0 {
        acc
    } else {
        add_include(include_fold(acc, gs.drop_last()), gs.last())
    }
}

pub open spec fn exclude_fold(acc: GlobAcc, gs: Seq<Seq<char>>) -> GlobAcc
    decreases gs.len(),
{
    if gs.len() == 0 {
        acc
    } else {
        add_exclude(exclude_fold(acc, gs.drop_last()), gs.last())
    }
}

/// `-g GLOB` pairs: each non-empty include glob once, then each exclude glob
/// negated, skipping any glob already emitted.
pub open spec fn glob_args(includes: Seq<Seq<char>>, excludes: Seq<Seq<char>>) -> Seq<Seq<char>> {
    exclude_fold(include_fold((seq![], seq![]), includes), excludes).0
}

/// Every emitted glob stands in the arguments.
pub open spec fn emitted_in_args(acc: GlobAcc) -> bool {
    forall|x: Seq<char>| acc.1.contains(x) ==> acc.0.contains(x)
}

proof fn lemma_include_fold(acc: GlobAcc, gs: Seq<Seq<char>>)
    requires
        emitted_in_args(acc),
    ensures
        emitted_in_args(include_fold(acc, gs)),
        forall|x: Seq<char>| acc.1.contains(x) ==> include_fold(acc, gs).1.contains(x),
    decreases gs.len(),
{
    if gs.len() > 0 {
        lemma_include_fold(acc, gs.drop_last());
        let a = include_fold(acc, gs.drop_last());
        let g = gs.last();
        if g.len() > 0 && !a.1.contains(g) {
            let b = add_include(a, g);
            assert forall|x: Seq<char>| b.1.contains(x) implies b.0.contains(x) by {
                if x == g {
                    assert(b.0[b.0.len() - 1] == g);
                } else {
                    assert(a.1.contains(x));
                    let k = choose|k: int| 0 <= k < a.0.len() && a.0[k] == x;
                    assert(b.0[k] == x);
                }
            }
            assert forall|x: Seq<char>| a.1.contains(x) implies b.1.contains(x) by {
                let k = choose|k: int| 0 <= k < a.1.len() && a.1[k] == x;
                assert(b.1[k] == x);
            }
        }
    }
}

proof fn lemma_exclude_fold(acc: GlobAcc, gs: Seq<Seq<char>>)
    requires
        emitted_in_args(acc),
    ensures
        emitted_in_args(exclude_fold(acc, gs)),
        forall|x: Seq<char>| acc.1.contains(x) ==> exclude_fold(acc, gs).1.contains(x),
        forall|i: int| 0 <= i < gs.len() ==> exclude_fold(acc, gs).1.contains(negated(#[trigger] gs[i])),
    decreases gs.len(),
{
    if gs.len() > 0 {
        lemma_exclude_fold(acc, gs.drop_last());
        let a = exclude_fold(acc, gs.drop_last());
        let g = negated(gs.last());
        let b = add_exclude(a, gs.last());
        if !a.1.contains(g) {
            assert forall|x: Seq<char>| b.1.contains(x) implies b.0.contains(x) by {
                if x == g {
                    assert(b.0[b.0.len() - 1] == g);
                } else {
                    assert(a.1.contains(x));
                    let k = choose|k: int| 0 <= k < a.0.len() && a.0[k] == x;
                    assert(b.0[k] == x);
                }
            }
            assert forall|x: Seq<char>| a.1.contains(x) implies b.1.contains(x) by {
                let k = choose|k: int| 0 <= k < a.1.len() && a.1[k] == x;
                assert(b.1[k] == x);
            }
            assert(b.1[b.1.len() - 1] == g);
        }
        assert forall|i: int| 0 <= i < gs.len() implies b.1.contains(negated(#[trigger] gs[i])) by {
            if i < gs.len() - 1 {
                assert(gs.drop_last()[i] == gs[i]);
            }
        }
    }
}

/// No exclude glob is lost: each one, in negated form, stands in the glob
/// arguments after `-g`, whatever the includes are.
pub proof fn law_excludes_in_force(includes: Seq<Seq<char>>, excludes: Seq<Seq<char>>, i: int)
    requires
        0 <= i < excludes.len(),
    ensures
        glob_args(includes, excludes).contains(negated(excludes[i])),
{
    let e: GlobAcc = (seq![], seq![]);
    lemma_include_fold(e, includes);
    let a = include_fold(e, includes);
    lemma_exclude_fold(a, excludes);
}

/// A request that names only files gets no default excludes; otherwise
/// every default exclude applies unless the `vendor` or `runs` scope asks
/// for what it hides.
pub proof fn law_default_excludes(set: Seq<Seq<char>>)
    ensures
        base_excludes(set, true) == Seq::<Seq<char>>::empty(),
        !set.contains("vendor"@) && !set.contains("runs"@) ==> base_excludes(set, false) == strs(default_excludes()),
{
    assert(Seq::<Seq<char>>::empty().filter(|g: Seq<char>| kept_with_vendor(g)) =~= Seq::<Seq<char>>::empty());
    assert(Seq::<Seq<char>>::empty().filter(|g: Seq<char>| kept_with_runs(g)) =~= Seq::<Seq<char>>::empty());
}

/// The glob arguments and warnings for a search.
pub open spec fn glob_plan(
    requested: Seq<Seq<char>>,
    include_extra: Seq<Seq<char>>,
    exclude_extra: Seq<Seq<char>>,
    explicit_paths: bool,
    explicit_files: bool,
) -> (Seq<Seq<char>>, Seq<Seq<char>>) {
    let set = scope_set(requested_or_default(requested));
    let includes = if explicit_paths {
        include_extra
    } else {
        scope_includes_of(set) + include_extra
    };
    let warnings = if explicit_paths {
        seq![]
    } else {
        unknown_scope_warnings(set)
    };
    let excludes = base_excludes(set, explicit_files) + exclude_extra;
    (glob_args(includes, excludes), warnings)
}

/// Ripgrep glob arguments and the warnings met while building them.
pub struct GlobPlan {
    pub args: Vec<String>,
    pub warnings: Vec<String>,
}

/// The match key of a requested scope name.
pub fn scope_key_of(s: &str) -> (res: String)
    ensures
        res@ == scope_key(s@),
{
    let cs = chars_of(s);
    let t = trim_chars(cs.as_slice());
    let ts = string_from_chars(t.as_slice());
    to_lowercase(ts.as_str())
}

/// The distinct scope keys of `requested`, in first-seen order.
pub fn build_scope_set(requested: &Vec<String>) -> (res: Vec<String>)
    ensures
        views(res@) == scope_set(views(requested@)),
{
    let n = requested.len();
    let mut out: Vec<String> = Vec::new();
    let mut i: usize = 0;
    assert(views(requested@).take(0) =~= Seq::<Seq<char>>::empty());
    while i < n
        invariant
            i <= n == requested@.len(),
            views(out@) == scope_set(views(requested@).take(i as int)),
        decreases n - i,
    {
        let k = scope_key_of(requested[i].as_str());
        let ghost prefix = views(requested@).take(i + 1);
        assert(prefix.drop_last() =~= views(requested@).take(i as int));
        assert(prefix.last() == requested@[i as int]@);
        if !k.as_str().is_empty() && !contains_string(&out, k.as_str()) {
            let ghost before = out@;
            out.push(k);
            assert(views(out@) =~= views(before).push(k@));
        }
        i = i + 1;
    }
    assert(views(requested@).take(n as int) =~= views(requested@));
    out
}

fn append_strings(out: &mut Vec<String>, xs: &Vec<String>)
    ensures
        views(final(out)@) == views(old(out)@) + views(xs@),
{
    let n = xs.len();
    let mut i: usize = 0;
    let ghost start = views(out@);
    while i < n
        invariant
            i <= n == xs@.len(),
            views(out@) == start + views(xs@).take(i as int),
        decreases n - i,
    {
        let ghost before = out@;
        out.push(xs[i].clone());
        assert(views(out@) =~= views(before).push(xs@[i as int]@));
        assert(views(xs@).take(i + 1) =~= views(xs@).take(i as int).push(xs@[i as int]@));
        i = i + 1;
    }
    assert(views(xs@).take(n as int) =~= views(xs@));
}

/// Filters a list with the `vendor` rule of [`kept_with_vendor`].
fn filter_vendor(xs: &Vec<String>) -> (res: Vec<String>)
    ensures
        views(res@) == views(xs@).filter(|g: Seq<char>| kept_with_vendor(g)),
{
    let n = xs.len();
    let mut out: Vec<String> = Vec::new();
    let mut i: usize = 0;
    assert(views(xs@).take(0).filter(|g: Seq<char>| kept_with_vendor(g)) =~= Seq::<
        Seq<char>,
    >::empty()) by {
        reveal_with_fuel(Seq::filter, 1);
    }
    while i < n
        invariant
            i <= n == xs@.len(),
            views(out@) == views(xs@).take(i as int).filter(|g: Seq<char>| kept_with_vendor(g)),
        decreases n - i,
    {
        let g = xs[i].as_str();
        let keep = !str_contains(g, "resources/code/github") && !str_contains(g, "vendor")
            && !str_contains(g, "third_party");
        proof {
            reveal_with_fuel(Seq::filter, 1);
            assert(views(xs@).take(i + 1).drop_last() =~= views(xs@).take(i as int));
        }
        if keep {
            let ghost before = out@;
            out.push(xs[i].clone());
            assert(views(out@) =~= views(before).push(xs@[i as int]@));
        }
        i = i + 1;
    }
    assert(views(xs@).take(n as int) =~= views(xs@));
    out
}

/// Filters a list with the `runs` rule of [`kept_with_runs`].
fn filter_runs(xs: &Vec<String>) -> (res: Vec<String>)
    ensures
        views(res@) == views(xs@).filter(|g: Seq<char>| kept_with_runs(g)),
{
    let n = xs.len();
    let mut out: Vec<String> = Vec::new();
    let mut i: usize = 0;
    assert(views(xs@).take(0).filter(|g: Seq<char>| kept_with_runs(g)) =~= Seq::<
        Seq<char>,
    >::empty()) by {
        reveal_with_fuel(Seq::filter, 1);
    }
    while i < n
        invariant
            i <= n == xs@.len(),
            views(out@) == views(xs@).take(i as int).filter(|g: Seq<char>| kept_with_runs(g)),
        decreases n - i,
    {
        let g = xs[i].as_str();
        let keep = !str_contains(g, "experiments/runs") && !str_contains(g, "**/runs/**");
        proof {
            reveal_with_fuel(Seq::filter, 1);
            assert(views(xs@).take(i + 1).drop_last() =~= views(xs@).take(i as int));
        }
        if keep {
            let ghost before = out@;
            out.push(xs[i].clone());
            assert(views(out@) =~= views(before).push(xs@[i as int]@));
        }
        i = i + 1;
    }
    assert(views(xs@).take(n as int) =~= views(xs@));
    out
}

/// The negated form of an exclude glob.
fn negate(g: &String) -> (res: String)
    ensures
        res@ == negated(g@),
{
    let cs = chars_of(g.as_str());
    if cs.len() > 0 && cs[0] == '!' {
        g.clone()
    } else {
        let mut v: Vec<char> = Vec::new();
        v.push('!');
        let n = cs.len();
        let mut i: usize = 0;
        while i < n
            invariant
                i <= n == cs@.len(),
                v@ == seq!['!'] + cs@.take(i as int),
            decreases n - i,
        {
            v.push(cs[i]);
            assert(cs@.take(i + 1) =~= cs@.take(i as int).push(cs@[i as int]));
            i = i + 1;
        }
        assert(cs@.take(n as int) =~= cs@);
        string_from_chars(v.as_slice())
    }
}

/// Builds the glob arguments as [`glob_plan`] says, from the requested
/// scope names and the extra include and exclude globs.
pub fn build_glob_args(
    requested: &Vec<String>,
    include_extra: &Vec<String>,
    exclude_extra: &Vec<String>,
    explicit_paths: bool,
    explicit_files: bool,
) -> (res: GlobPlan)
    ensures
        (views(res.args@), views(res.warnings@)) == glob_plan(
            views(requested@),
            views(include_extra@),
            views(exclude_extra@),
            explicit_paths,
            explicit_files,
        ),
{
    let req = if requested.len() == 0 {
        default_scope_names()
    } else {
        crate::text::copy_strings(requested)
    };
    let set = build_scope_set(&req);
    let ghost setv = views(set@);
    // includes and warnings
    let mut includes: Vec<String> = Vec::new();
    let mut warnings: Vec<String> = Vec::new();
    if !explicit_paths {
        let n = set.len();
        let mut i: usize = 0;
        assert(setv.take(0) =~= Seq::<Seq<char>>::empty());
        while i < n
            invariant
                i <= n == set@.len(),
                setv == views(set@),
                views(includes@) == scope_includes_of(setv.take(i as int)),
                views(warnings@) == unknown_scope_warnings(setv.take(i as int)),
            decreases n - i,
        {
            assert(setv.take(i + 1).drop_last() =~= setv.take(i as int));
            assert(setv.take(i + 1).last() == set@[i as int]@);
            match scope_includes(set[i].as_str()) {
                Some(g) => {
                    append_strings(&mut includes, &g);
                    assert(views(warnings@) =~= views(warnings@) + Seq::<Seq<char>>::empty());
                },
                None => {
                    let mut w = "unknown_scope:".to_owned();
                    w.append(set[i].as_str());
                    let ghost before = warnings@;
                    warnings.push(w);
                    assert(views(warnings@) =~= views(before) + seq!["unknown_scope:"@ + set@[i as int]@]);
                    assert(views(includes@) =~= views(includes@) + Seq::<Seq<char>>::empty());
                },
            }
            i = i + 1;
        }
        assert(setv.take(n as int) =~= setv);
    } else {
        assert(views(warnings@) =~= Seq::<Seq<char>>::empty());
    }
    append_strings(&mut includes, include_extra);
    assert(views(includes@) =~= if explicit_paths {
        views(include_extra@)
    } else {
        scope_includes_of(setv) + views(include_extra@)
    });
    // excludes
    let e0 = if explicit_files {
        Vec::new()
    } else {
        default_exclude_globs()
    };
    assert(views(e0@) =~= if explicit_files {
        Seq::<Seq<char>>::empty()
    } else {
        strs(default_excludes())
    });
    let e1 = if contains_string(&set, "vendor") {
        filter_vendor(&e0)
    } else {
        e0
    };
    let mut excludes = if contains_string(&set, "runs") {
        filter_runs(&e1)
    } else {
        e1
    };
    append_strings(&mut excludes, exclude_extra);
    // emit
    let mut args: Vec<String> = Vec::new();
    let mut seen: Vec<String> = Vec::new();
    let ni = includes.len();
    let mut i: usize = 0;
    let ghost incv = views(includes@);
    assert(incv.take(0) =~= Seq::<Seq<char>>::empty());
    while i < ni
        invariant
            i <= ni == includes@.len(),
            incv == views(includes@),
            (views(args@), views(seen@)) == include_fold((seq![], seq![]), incv.take(i as int)),
        decreases ni - i,
    {
        assert(incv.take(i + 1).drop_last() =~= incv.take(i as int));
        let g = includes[i].as_str();
        if !g.is_empty() && !contains_string(&seen, g) {
            let ghost (a0, s0) = (args@, seen@);
            args.push("-g".to_owned());
            args.push(includes[i].clone());
            seen.push(includes[i].clone());
            assert(views(args@) =~= views(a0) + seq!["-g"@, incv[i as int]]);
            assert(views(seen@) =~= views(s0).push(incv[i as int]));
        }
        i = i + 1;
    }
    assert(incv.take(ni as int) =~= incv);
    let ne = excludes.len();
    let mut j: usize = 0;
    let ghost excv = views(excludes@);
    let ghost acc0 = include_fold((seq![], seq![]), incv);
    assert(excv.take(0) =~= Seq::<Seq<char>>::empty());
    while j < ne
        invariant
            j <= ne == excludes@.len(),
            excv == views(excludes@),
            (views(args@), views(seen@)) == exclude_fold(acc0, excv.take(j as int)),
        decreases ne - j,
    {
        assert(excv.take(j + 1).drop_last() =~= excv.take(j as int));
        let gg = negate(&excludes[j]);
        if !contains_string(&seen, gg.as_str()) {
            let ghost (a0, s0) = (args@, seen@);
            args.push("-g".to_owned());
            seen.push(gg.clone());
            args.push(gg);
            assert(views(args@) =~= views(a0) + seq!["-g"@, negated(excv[j as int])]);
            assert(views(seen@) =~= views(s0).push(negated(excv[j as int])));
        }
        j = j + 1;
    }
    assert(excv.take(ne as int) =~= excv);
    GlobPlan { args, warnings }
}

/// Builds the glob arguments from the request's `scopes`, `include_globs`
/// and `exclude_globs` values.
pub fn build_globs(
    scopes: Option<&JsonValue>,
    include_globs: Option<&JsonValue>,
    exclude_globs: Option<&JsonValue>,
    explicit_paths: bool,
    explicit_files: bool,
) -> (res: GlobPlan)
    ensures
        (views(res.args@), views(res.warnings@)) == glob_plan(
            list_of(deref_opt(scopes)),
            list_of(deref_opt(include_globs)),
            list_of(deref_opt(exclude_globs)),
            explicit_paths,
            explicit_files,
        ),
{
    let requested = as_list_value(scopes);
    let inc = as_list_value(include_globs);
    let exc = as_list_value(exclude_globs);
    build_glob_args(&requested, &inc, &exc, explicit_paths, explicit_files)
}

} // verus!
