//! Requested search paths: which ones lie under the search root, and how
//! they read relative to it.
use vstd::prelude::*;
use crate::json::{JsonValue, as_list_value, deref_opt, list_of};
use crate::text::{chars_of, str_eq, string_from_chars, views};

verus! {

/// `s` with every backslash replaced by a slash.
pub open spec fn forward_slashes(s: Seq<char>) -> Seq<char> {
    s.map_values(|c: char| if c == '\\' { '/' } else { c })
}

/// `p` read relative to `root`, for resolved (canonical) absolute paths:
/// `.` for the root itself, the rest after the root and a separator for a
/// path below it, nothing for a path elsewhere.
pub open spec fn rel_within(root: Seq<char>, p: Seq<char>) -> Option<Seq<char>> {
    if p == root {
        Some("."@)
    } else if root.len() > 0 && root.last() == '/' && p.len() > root.len() && p.take(
        root.len() as int,
    ) == root {
        Some(forward_slashes(p.skip(root.len() as int)))
    } else if p.len() > root.len() + 1 && p.take(root.len() as int) == root && p[root.len() as int]
        == '/' {
        Some(forward_slashes(p.skip(root.len() + 1int)))
    } else {
        None
    }
}

fn prefix_of(root: &Vec<char>, p: &Vec<char>) -> (res: bool)
    requires
        root@.len() <= p@.len(),
    ensures
        res == (p@.take(root@.len() as int) == root@),
{
    let n = root.len();
    let mut i: usize = 0;
    while i < n
        invariant
            i <= n == root@.len(),
            n <= p@.len(),
            forall|j: int| 0 <= j < i ==> p@[j] == root@[j],
        decreases n - i,
    {
        if p[i] != root[i] {
            assert(p@.take(n as int)[i as int] != root@[i as int]);
            return false;
        }
        i = i + 1;
    }
    assert(p@.take(n as int) =~= root@);
    true
}

fn tail_with_slashes(p: &Vec<char>, from: usize) -> (res: String)
    requires
        from <= p@.len(),
    ensures
        res@ == forward_slashes(p@.skip(from as int)),
{
    let n = p.len();
    let mut v: Vec<char> = Vec::new();
    let mut i: usize = from;
    while i < n
        invariant
            from <= i <= n == p@.len(),
            v@ == forward_slashes(p@.subrange(from as int, i as int)),
        decreases n - i,
    {
        let c = p[i];
        v.push(if c == '\\' {
            '/'
        } else {
            c
        });
        assert(p@.subrange(from as int, i + 1) =~= p@.subrange(from as int, i as int).push(c));
        assert(v@ =~= forward_slashes(p@.subrange(from as int, i + 1)));
        i = i + 1;
    }
    assert(p@.subrange(from as int, n as int) =~= p@.skip(from as int));
    string_from_chars(v.as_slice())
}

/// The path `resolved` relative to `root`, where `resolved` is what the
/// requested path resolves to (`None` when it does not resolve).
pub fn safe_rel(root: &str, resolved: Option<&str>) -> (res: Option<String>)
    ensures
        match resolved {
            None => res is None,
            Some(p) => match rel_within(root@, p@) {
                Some(r) => res matches Some(s) && s@ == r,
                None => res is None,
            },
        },
{
    let p = match resolved {
        Some(p) => p,
        None => {
            return None;
        },
    };
    if str_eq(p, root) {
        return Some(".".to_owned());
    }
    let r = chars_of(root);
    let pc = chars_of(p);
    let rl = r.len();
    if rl > 0 && r[rl - 1] == '/' && pc.len() > rl && prefix_of(&r, &pc) {
        return Some(tail_with_slashes(&pc, rl));
    }
    if pc.len() > rl && pc.len() - rl > 1 && prefix_of(&r, &pc) && pc[rl] == '/' {
        return Some(tail_with_slashes(&pc, rl + 1));
    }
    None
}

/// What the file system says of one requested path: whether it exists, and
/// what it resolves to (`None` when it does not resolve).
pub struct PathFacts {
    pub exists: bool,
    pub resolved: Option<String>,
}

/// A requested path that is not searched, and why (`missing` or
/// `outside_root`).
pub struct Rejected {
    pub path: String,
    pub reason: String,
}

pub open spec fn resolved_view(f: PathFacts) -> Option<Seq<char>> {
    match f.resolved {
        Some(s) => Some(s@),
        None => None,
    }
}

/// Outcome for one requested path: `Ok(rel)` when it is searched, else the
/// reason it is rejected.
pub open spec fn path_outcome(root: Seq<char>, f: PathFacts) -> Result<Seq<char>, Seq<char>> {
    if !f.exists {
        Err("missing"@)
    } else {
        match resolved_view(f) {
            None => Err("outside_root"@),
            Some(p) => match rel_within(root, p) {
                Some(r) => Ok(r),
                None => Err("outside_root"@),
            },
        }
    }
}

/// The searched relative paths among `items`, in order.
pub open spec fn accepted_paths(root: Seq<char>, facts: Seq<PathFacts>) -> Seq<Seq<char>>
    decreases facts.len(),
{
    if facts.len() == 0 {
        seq![]
    } else {
        accepted_paths(root, facts.drop_last()) + match path_outcome(root, facts.last()) {
            Ok(r) => seq![r],
            Err(_) => seq![],
        }
    }
}

/// The rejected items (path, reason), in order.
pub open spec fn rejected_paths(root: Seq<char>, items: Seq<Seq<char>>, facts: Seq<PathFacts>) -> Seq<
    (Seq<char>, Seq<char>),
>
    decreases facts.len(),
{
    if facts.len() == 0 || items.len() != facts.len() {
        seq![]
    } else {
        rejected_paths(root, items.drop_last(), facts.drop_last()) + match path_outcome(
            root,
            facts.last(),
        ) {
            Ok(_) => seq![],
            Err(why) => seq![(items.last(), why)],
        }
    }
}

pub open spec fn rejected_view(r: Rejected) -> (Seq<char>, Seq<char>) {
    (r.path@, r.reason@)
}

/// The searched and rejected paths for a request: just `.` when it names
/// no paths; otherwise every named path that exists and lies under the
/// root, and the others with their reasons.
pub open spec fn normalized(root: Seq<char>, items: Seq<Seq<char>>, facts: Seq<PathFacts>) -> (
    Seq<Seq<char>>,
    Seq<(Seq<char>, Seq<char>)>,
) {
    if items.len() == 0 {
        (seq!["."@], seq![])
    } else {
        (accepted_paths(root, facts), rejected_paths(root, items, facts))
    }
}

/// Requested paths never widen a search: when a request names paths, each
/// searched path is the in-root form of a named path that exists, so when
/// none of them exists nothing is searched (there is no fall-back to the
/// whole root).
pub proof fn law_named_paths_never_widen(root: Seq<char>, items: Seq<Seq<char>>, facts: Seq<PathFacts>)
    requires
        items.len() == facts.len(),
        items.len() > 0,
    ensures
        forall|j: int| 0 <= j < normalized(root, items, facts).0.len() ==> exists|i: int|
            0 <= i < facts.len() && facts[i].exists && path_outcome(root, facts[i]) == Ok::<Seq<char>, Seq<char>>(
                #[trigger] normalized(root, items, facts).0[j],
            ),
        (forall|i: int| 0 <= i < facts.len() ==> !(#[trigger] facts[i]).exists) ==> normalized(
            root,
            items,
            facts,
        ).0.len() == 0,
{
    lemma_accepted_from(root, facts);
}

proof fn lemma_accepted_from(root: Seq<char>, facts: Seq<PathFacts>)
    ensures
        forall|j: int| 0 <= j < accepted_paths(root, facts).len() ==> exists|i: int|
            0 <= i < facts.len() && facts[i].exists && path_outcome(root, facts[i]) == Ok::<Seq<char>, Seq<char>>(
                #[trigger] accepted_paths(root, facts)[j],
            ),
        (forall|i: int| 0 <= i < facts.len() ==> !(#[trigger] facts[i]).exists) ==> accepted_paths(root, facts).len() == 0,
    decreases facts.len(),
{
    if facts.len() > 0 {
        let d = facts.drop_last();
        lemma_accepted_from(root, d);
        let a = accepted_paths(root, d);
        let full = accepted_paths(root, facts);
        assert forall|j: int| 0 <= j < full.len() implies exists|i: int|
            0 <= i < facts.len() && facts[i].exists && path_outcome(root, facts[i]) == Ok::<Seq<char>, Seq<char>>(
                #[trigger] full[j],
            ) by {
            if j < a.len() {
                assert(full[j] == a[j]);
                let i = choose|i: int|
                    0 <= i < d.len() && d[i].exists && path_outcome(root, d[i]) == Ok::<Seq<char>, Seq<char>>(
                        #[trigger] a[j],
                    );
                assert(facts[i] == d[i]);
            } else {
                let i = facts.len() - 1;
                assert(facts[i] == facts.last());
            }
        }
        if forall|i: int| 0 <= i < facts.len() ==> !(#[trigger] facts[i]).exists {
            assert forall|i: int| 0 <= i < d.len() implies !(#[trigger] d[i]).exists by {
                assert(d[i] == facts[i]);
            }
            assert(!facts[facts.len() - 1].exists);
        }
    }
}

/// Sorts the requested paths into searched ones (relative to the root) and
/// rejected ones; `facts[i]` describes `items[i]`.
pub fn normalize_paths(root: &str, items: &Vec<String>, facts: &Vec<PathFacts>) -> (res: (
    Vec<String>,
    Vec<Rejected>,
))
    requires
        items@.len() == facts@.len(),
    ensures
        (views(res.0@), res.1@.map_values(|r: Rejected| rejected_view(r))) == normalized(
            root@,
            views(items@),
            facts@,
        ),
{
    let mut ok: Vec<String> = Vec::new();
    let mut bad: Vec<Rejected> = Vec::new();
    if items.len() == 0 {
        ok.push(".".to_owned());
        assert(views(ok@) =~= seq!["."@]);
        assert(bad@.map_values(|r: Rejected| rejected_view(r)) =~= Seq::<
            (Seq<char>, Seq<char>),
        >::empty());
        return (ok, bad);
    }
    let n = items.len();
    let mut i: usize = 0;
    assert(facts@.take(0) =~= Seq::<PathFacts>::empty());
    assert(views(items@).take(0) =~= Seq::<Seq<char>>::empty());
    while i < n
        invariant
            i <= n == items@.len() == facts@.len(),
            views(ok@) == accepted_paths(root@, facts@.take(i as int)),
            bad@.map_values(|r: Rejected| rejected_view(r)) == rejected_paths(
                root@,
                views(items@).take(i as int),
                facts@.take(i as int),
            ),
        decreases n - i,
    {
        assert(facts@.take(i + 1).drop_last() =~= facts@.take(i as int));
        assert(views(items@).take(i + 1).drop_last() =~= views(items@).take(i as int));
        assert(facts@.take(i + 1).last() == facts@[i as int]);
        assert(views(items@).take(i + 1).last() == items@[i as int]@);
        let f = &facts[i];
        let ghost okb = ok@;
        let ghost badb = bad@;
        if !f.exists {
            bad.push(Rejected { path: items[i].clone(), reason: "missing".to_owned() });
        } else {
            let rel = match &f.resolved {
                Some(p) => safe_rel(root, Some(p.as_str())),
                None => None,
            };
            match rel {
                Some(r) => {
                    ok.push(r);
                },
                None => {
                    bad.push(Rejected { path: items[i].clone(), reason: "outside_root".to_owned() });
                },
            }
        }
        assert(views(ok@) =~= accepted_paths(root@, facts@.take(i + 1)));
        assert(bad@.map_values(|r: Rejected| rejected_view(r)) =~= rejected_paths(
            root@,
            views(items@).take(i + 1),
            facts@.take(i + 1),
        ));
        i = i + 1;
    }
    assert(facts@.take(n as int) =~= facts@);
    assert(views(items@).take(n as int) =~= views(items@));
    (ok, bad)
}

/// Whether the request names only files: some path other than the root
/// alone, and every one of them a file (`is_file[i]` describes `rels[i]`).
pub open spec fn only_files(rels: Seq<Seq<char>>, is_file: Seq<bool>) -> bool {
    !(rels.len() == 0 || (rels.len() == 1 && rels[0] == "."@)) && forall|i: int|
        0 <= i < is_file.len() ==> #[trigger] is_file[i]
}

pub fn paths_all_files(rels: &Vec<String>, is_file: &Vec<bool>) -> (res: bool)
    requires
        rels@.len() == is_file@.len(),
    ensures
        res == only_files(views(rels@), is_file@),
{
    if rels.len() == 0 {
        return false;
    }
    if rels.len() == 1 && str_eq(rels[0].as_str(), ".") {
        assert(views(rels@)[0] == rels@[0]@);
        return false;
    }
    assert(rels.len() == 1 ==> views(rels@)[0] == rels@[0]@);
    let n = is_file.len();
    let mut i: usize = 0;
    while i < n
        invariant
            i <= n == is_file@.len(),
            forall|j: int| 0 <= j < i ==> is_file@[j],
        decreases n - i,
    {
        if !is_file[i] {
            return false;
        }
        i = i + 1;
    }
    true
}

/// An `rg` executable found on the search path: its path, whether it is a
/// file, and what it resolves to.
pub struct RgCandidate {
    pub path: String,
    pub is_file: bool,
    pub resolved: Option<String>,
}

/// A candidate that may be used: a file that does not resolve to the
/// excluded executable.
pub open spec fn usable_rg(c: RgCandidate, exclude: Option<Seq<char>>) -> bool {
    c.is_file && !(exclude matches Some(x) && (c.resolved matches Some(r) && r@ == x))
}

/// The first usable `rg` among the candidates, in search-path order.
pub fn find_rg_excluding(candidates: &Vec<RgCandidate>, exclude: Option<&str>) -> (res: Option<
    String,
>)
    ensures
        ({
            let ex = match exclude {
                Some(x) => Some(x@),
                None => None,
            };
            match res {
                Some(p) => exists|i: int|
                    0 <= i < candidates@.len() && usable_rg(candidates@[i], ex)
                        && candidates@[i].path@ == p@ && forall|j: int|
                        0 <= j < i ==> !usable_rg(#[trigger] candidates@[j], ex),
                None => forall|j: int|
                    0 <= j < candidates@.len() ==> !usable_rg(#[trigger] candidates@[j], ex),
            }
        }),
{
    let ghost ex = match exclude {
        Some(x) => Some(x@),
        None => None,
    };
    let n = candidates.len();
    let mut i: usize = 0;
    while i < n
        invariant
            i <= n == candidates@.len(),
            ex == match exclude {
                Some(x) => Some(x@),
                None => None::<Seq<char>>,
            },
            forall|j: int| 0 <= j < i ==> !usable_rg(#[trigger] candidates@[j], ex),
        decreases n - i,
    {
        let c = &candidates[i];
        if c.is_file {
            let skip = match (exclude, &c.resolved) {
                (Some(x), Some(r)) => str_eq(r.as_str(), x),
                _ => false,
            };
            if !skip {
                return Some(c.path.clone());
            }
        }
        i = i + 1;
    }
    None
}

/// The raw path items of a request (its `paths` argument as a list).
pub fn requested_paths(paths: Option<&JsonValue>) -> (res: Vec<String>)
    ensures
        views(res@) == list_of(deref_opt(paths)),
{
    as_list_value(paths)
}

} // verus!
