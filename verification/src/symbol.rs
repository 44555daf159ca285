//! Symbol lookup: a name becomes one regular expression that matches the
//! usual definition forms of many languages, and a symbol request becomes a
//! regex find request.
use vstd::prelude::*;
use vstd::string::*;
use crate::json::{
    Args, JsonValue, lookup, without_keys, take_entries_without, lemma_lookup_append,
    lemma_lookup_cons, lemma_lookup_without_keys, lemma_without_keys_absent,
};
use crate::regexes::{compile_regex, regex_compiles, regex_escape, regex_matches, escaped};
use crate::text::{contains_chars, joined, join_strings, lemma_contains_middle, lemma_contains_trans, lemma_joined_contains, views};

verus! {

broadcast use vstd::string::group_string_axioms;

/// The definition forms that a symbol is looked for in, each with the
/// escaped name `n` in place: Python defs and classes, JavaScript functions,
/// bindings and classes, Rust items, Go functions and types, declarations
/// with a modifier keyword, and a call-like definition head.
pub open spec fn symbol_forms(n: Seq<char>) -> Seq<Seq<char>> {
    seq![
        r"^\s*(?:async\s+def|def|class)\s+"@ + n + r"\b"@,
        r"^\s*(?:export\s+)?(?:async\s+)?function\s+"@ + n + r"\b"@,
        r"^\s*(?:export\s+)?(?:const|let|var)\s+"@ + n + r"\s*[=:]"@,
        r"^\s*(?:export\s+)?class\s+"@ + n + r"\b"@,
        r"^\s*(?:pub\s+)?(?:async\s+)?fn\s+"@ + n + r"\b"@,
        r"^\s*(?:pub\s+)?(?:struct|enum|trait|type)\s+"@ + n + r"\b"@,
        r"^\s*func\s+(?:\([^)]*\)\s*)?"@ + n + r"\b"@,
        r"^\s*type\s+"@ + n + r"\b"@,
        r"^\s*(?:public|private|protected|static|final|abstract|internal|open|override|inline|extern|constexpr)\b.*\b"@
            + n + r"\s*(?:\(|[:={])"@,
        r"^\s*"@ + n + r"\s*\([^)]*\)\s*(?:=>|\{)"@,
    ]
}

/// The regular expression for a symbol: every definition form of the
/// escaped name, as alternatives.
pub open spec fn symbol_regex(name: Seq<char>) -> Seq<char> {
    joined(symbol_forms(escaped(name)), "|"@)
}

fn form(prefix: &str, n: &str, suffix: &str) -> (res: String)
    ensures
        res@ == prefix@ + n@ + suffix@,
{
    prefix.to_owned().concat(n).concat(suffix)
}

/// A name made of ASCII letters, digits and underscores.
pub open spec fn is_identifier(n: Seq<char>) -> bool {
    forall|i: int| 0 <= i < n.len() ==> ('a' <= #[trigger] n[i] <= 'z' || 'A' <= n[i] <= 'Z' || '0' <= n[i] <= '9' || n[i] == '_')
}

/// An identifier needs no escaping: it stands in the pattern as itself.
pub proof fn law_identifiers_unescaped(n: Seq<char>)
    requires
        is_identifier(n),
    ensures
        escaped(n) == n,
    decreases n.len(),
{
    if n.len() > 0 {
        assert forall|i: int| 0 <= i < n.drop_last().len() implies ('a' <= #[trigger] n.drop_last()[i] <= 'z' || 'A' <= n.drop_last()[i] <= 'Z' || '0' <= n.drop_last()[i] <= '9' || n.drop_last()[i] == '_') by {
            assert(n.drop_last()[i] == n[i]);
        }
        law_identifiers_unescaped(n.drop_last());
        assert(n.drop_last() + seq![n.last()] =~= n);
    }
}

/// The symbol pattern offers every definition form for the escaped name:
/// Python `def` and `class`, JavaScript `function`, `const`/`let`/`var`
/// bindings and `class`, Rust `fn` and `struct`/`enum`/`trait`/`type`, Go
/// `func` (with or without a receiver) and `type`; each keyword group is
/// followed by whitespace and the name.
pub proof fn law_symbol_definition_forms(name: Seq<char>)
    ensures
        ({
            let p = symbol_regex(name);
            let e = escaped(name);
            &&& contains_chars(p, r"def|class)\s+"@ + e + r"\b"@)
            &&& contains_chars(p, r"function\s+"@ + e + r"\b"@)
            &&& contains_chars(p, r"(?:const|let|var)\s+"@ + e + r"\s*[=:]"@)
            &&& contains_chars(p, r"(?:export\s+)?class\s+"@ + e + r"\b"@)
            &&& contains_chars(p, r"fn\s+"@ + e + r"\b"@)
            &&& contains_chars(p, r"(?:struct|enum|trait|type)\s+"@ + e + r"\b"@)
            &&& contains_chars(p, r"func\s+(?:\([^)]*\)\s*)?"@ + e + r"\b"@)
            &&& contains_chars(p, r"^\s*type\s+"@ + e + r"\b"@)
        }),
{
    let e = escaped(name);
    let forms = symbol_forms(e);
    let p = symbol_regex(name);
    reveal_strlit(r"^\s*(?:async\s+def|def|class)\s+");
    reveal_strlit(r"^\s*(?:async\s+def|");
    reveal_strlit(r"def|class)\s+");
    reveal_strlit(r"^\s*(?:export\s+)?(?:async\s+)?function\s+");
    reveal_strlit(r"^\s*(?:export\s+)?(?:async\s+)?");
    reveal_strlit(r"function\s+");
    reveal_strlit(r"^\s*(?:export\s+)?(?:const|let|var)\s+");
    reveal_strlit(r"^\s*(?:export\s+)?");
    reveal_strlit(r"(?:const|let|var)\s+");
    reveal_strlit(r"^\s*(?:export\s+)?class\s+");
    reveal_strlit(r"^\s*");
    reveal_strlit(r"(?:export\s+)?class\s+");
    reveal_strlit(r"^\s*(?:pub\s+)?(?:async\s+)?fn\s+");
    reveal_strlit(r"^\s*(?:pub\s+)?(?:async\s+)?");
    reveal_strlit(r"fn\s+");
    reveal_strlit(r"^\s*(?:pub\s+)?(?:struct|enum|trait|type)\s+");
    reveal_strlit(r"^\s*(?:pub\s+)?");
    reveal_strlit(r"(?:struct|enum|trait|type)\s+");
    reveal_strlit(r"^\s*func\s+(?:\([^)]*\)\s*)?");
    reveal_strlit(r"func\s+(?:\([^)]*\)\s*)?");
    reveal_strlit(r"^\s*type\s+");
    let b = r"\b"@;
    let none = Seq::<char>::empty();
    // Each form, as a prefix followed by the part the law names.
    let x0 = r"def|class)\s+"@ + e + b;
    assert(forms[0] =~= r"^\s*(?:async\s+def|"@ + x0 + none);
    let x1 = r"function\s+"@ + e + b;
    assert(forms[1] =~= r"^\s*(?:export\s+)?(?:async\s+)?"@ + x1 + none);
    let x2 = r"(?:const|let|var)\s+"@ + e + r"\s*[=:]"@;
    assert(forms[2] =~= r"^\s*(?:export\s+)?"@ + x2 + none);
    let x3 = r"(?:export\s+)?class\s+"@ + e + b;
    assert(forms[3] =~= r"^\s*"@ + x3 + none);
    let x4 = r"fn\s+"@ + e + b;
    assert(forms[4] =~= r"^\s*(?:pub\s+)?(?:async\s+)?"@ + x4 + none);
    let x5 = r"(?:struct|enum|trait|type)\s+"@ + e + b;
    assert(forms[5] =~= r"^\s*(?:pub\s+)?"@ + x5 + none);
    let x6 = r"func\s+(?:\([^)]*\)\s*)?"@ + e + b;
    assert(forms[6] =~= r"^\s*"@ + x6 + none);
    let x7 = r"^\s*type\s+"@ + e + b;
    assert(forms[7] =~= none + x7 + none);
    lemma_contains_middle(r"^\s*(?:async\s+def|"@, x0, none);
    lemma_contains_middle(r"^\s*(?:export\s+)?(?:async\s+)?"@, x1, none);
    lemma_contains_middle(r"^\s*(?:export\s+)?"@, x2, none);
    lemma_contains_middle(r"^\s*"@, x3, none);
    lemma_contains_middle(r"^\s*(?:pub\s+)?(?:async\s+)?"@, x4, none);
    lemma_contains_middle(r"^\s*(?:pub\s+)?"@, x5, none);
    lemma_contains_middle(r"^\s*"@, x6, none);
    lemma_contains_middle(none, x7, none);
    lemma_joined_contains(forms, "|"@, 0);
    lemma_joined_contains(forms, "|"@, 1);
    lemma_joined_contains(forms, "|"@, 2);
    lemma_joined_contains(forms, "|"@, 3);
    lemma_joined_contains(forms, "|"@, 4);
    lemma_joined_contains(forms, "|"@, 5);
    lemma_joined_contains(forms, "|"@, 6);
    lemma_joined_contains(forms, "|"@, 7);
    lemma_contains_trans(p, forms[0], x0);
    lemma_contains_trans(p, forms[1], x1);
    lemma_contains_trans(p, forms[2], x2);
    lemma_contains_trans(p, forms[3], x3);
    lemma_contains_trans(p, forms[4], x4);
    lemma_contains_trans(p, forms[5], x5);
    lemma_contains_trans(p, forms[6], x6);
    lemma_contains_trans(p, forms[7], x7);
}

/// The regular expression that finds definitions of `name`.
pub fn symbol_pattern(name: &str) -> (res: String)
    ensures
        res@ == symbol_regex(name@),
{
    let n = regex_escape(name);
    let n = n.as_str();
    let mut forms: Vec<String> = Vec::new();
    forms.push(form(r"^\s*(?:async\s+def|def|class)\s+", n, r"\b"));
    forms.push(form(r"^\s*(?:export\s+)?(?:async\s+)?function\s+", n, r"\b"));
    forms.push(form(r"^\s*(?:export\s+)?(?:const|let|var)\s+", n, r"\s*[=:]"));
    forms.push(form(r"^\s*(?:export\s+)?class\s+", n, r"\b"));
    forms.push(form(r"^\s*(?:pub\s+)?(?:async\s+)?fn\s+", n, r"\b"));
    forms.push(form(r"^\s*(?:pub\s+)?(?:struct|enum|trait|type)\s+", n, r"\b"));
    forms.push(form(r"^\s*func\s+(?:\([^)]*\)\s*)?", n, r"\b"));
    forms.push(form(r"^\s*type\s+", n, r"\b"));
    forms.push(
        form(
            r"^\s*(?:public|private|protected|static|final|abstract|internal|open|override|inline|extern|constexpr)\b.*\b",
            n,
            r"\s*(?:\(|[:={])",
        ),
    );
    forms.push(form(r"^\s*", n, r"\s*\([^)]*\)\s*(?:=>|\{)"));
    assert(views(forms@) =~= symbol_forms(escaped(name@)));
    join_strings(&forms, "|")
}

/// The expression that a symbol name must match.
pub open spec fn name_pattern() -> Seq<char> {
    r"^[\w.$:-]+$"@
}

/// Whether `name` is accepted as a symbol name: non-empty, and made only of
/// word characters and `.`, `$`, `:`, `-` (as `regex` reads the expression
/// [`name_pattern`], compiled case-sensitively).
pub open spec fn valid_symbol_name(name: Seq<char>) -> bool {
    &&& name.len() > 0
    &&& regex_compiles(name_pattern(), false)
    &&& regex_matches(name_pattern(), false, name)
}

/// Why a symbol request is refused.
pub enum SymbolError {
    BadSymbolName,
}

impl SymbolError {
    /// The error as it is reported.
    pub fn name(&self) -> (res: &'static str)
        ensures
            res@ == "bad_symbol_name"@,
    {
        "bad_symbol_name"
    }
}

pub open spec fn is_str(v: Option<JsonValue>, s: Seq<char>) -> bool {
    v matches Some(JsonValue::Str(x)) && x@ == s
}

/// The scopes a symbol search uses when the request names none.
pub open spec fn default_symbol_scopes(v: Option<JsonValue>) -> bool {
    &&& v matches Some(JsonValue::Array(xs, t))
    &&& xs@.len() == 2
    &&& is_str(Some(xs@[0]), "src"@)
    &&& is_str(Some(xs@[1]), "tests"@)
    &&& t@ == "[\"src\",\"tests\"]"@
}

/// The keys a symbol request sets or drops before it is searched.
pub open spec fn symbol_keys() -> Set<Seq<char>> {
    set!["query"@, "match"@, "mode"@, "name"@]
}

/// What the find request made from a symbol request holds: the pattern as
/// query, match `any`, mode `regex`, no name, the scopes `src` and `tests`
/// unless the request names scopes, and every other argument unchanged.
pub open spec fn symbol_args(old: Seq<(String, JsonValue)>, pattern: Seq<char>, new: Seq<(String, JsonValue)>) -> bool {
    &&& is_str(lookup(new, "query"@), pattern)
    &&& is_str(lookup(new, "match"@), "any"@)
    &&& is_str(lookup(new, "mode"@), "regex"@)
    &&& lookup(new, "name"@) is None
    &&& lookup(old, "scopes"@) is Some ==> lookup(new, "scopes"@) == lookup(old, "scopes"@)
    &&& lookup(old, "scopes"@) is None ==> default_symbol_scopes(lookup(new, "scopes"@))
    &&& forall|k: Seq<char>|
        !symbol_keys().contains(k) && k != "scopes"@ ==> #[trigger] lookup(new, k) == lookup(old, k)
}

fn str_value(s: &str) -> (res: JsonValue)
    ensures
        res matches JsonValue::Str(x) && x@ == s@,
{
    JsonValue::Str(s.to_owned())
}

fn entry(k: &str, v: JsonValue) -> (res: (String, JsonValue))
    ensures
        res.0@ == k@,
        res.1 == v,
{
    (k.to_owned(), v)
}

/// Turns a symbol request into the find request that searches for it, or
/// refuses a name that [`valid_symbol_name`] does not accept.
pub fn symbol_find_args(args: Args) -> (res: Result<Args, SymbolError>)
    ensures
        res is Err <==> !valid_symbol_name(match crate::json::str_of(args.get_spec("name"@)) {
            Some(n) => n,
            None => Seq::empty(),
        }),
        res matches Ok(a) ==> symbol_args(
            args.entries@,
            symbol_regex(crate::json::str_of(args.get_spec("name"@))->0),
            a.entries@,
        ),
{
    let name = match crate::json::str_arg(&args, "name") {
        Some(n) => n,
        None => String::new(),
    };
    if name.as_str().is_empty() {
        return Err(SymbolError::BadSymbolName);
    }
    let valid = match compile_regex(r"^[\w.$:-]+$", Some(true)) {
        Ok(m) => m,
        Err(_) => {
            return Err(SymbolError::BadSymbolName);
        },
    };
    if !valid.is_match(name.as_str()) {
        return Err(SymbolError::BadSymbolName);
    }
    let pattern = symbol_pattern(name.as_str());
    let ghost pat = pattern@;
    let mut drop: Vec<String> = Vec::new();
    drop.push("query".to_owned());
    drop.push("match".to_owned());
    drop.push("mode".to_owned());
    drop.push("name".to_owned());
    proof {
        assert(views(drop@) =~= seq!["query"@, "match"@, "mode"@, "name"@]);
        assert(views(drop@).to_set() =~= symbol_keys()) by {
            assert forall|k: Seq<char>| symbol_keys().contains(k) implies views(drop@).to_set().contains(k) by {
                if k == "query"@ { assert(views(drop@)[0] == k); }
                if k == "match"@ { assert(views(drop@)[1] == k); }
                if k == "mode"@ { assert(views(drop@)[2] == k); }
                if k == "name"@ { assert(views(drop@)[3] == k); }
            }
        }
    }
    let has_scopes = args.get("scopes").is_some();
    let ghost old_entries = args.entries@;
    let rest = take_entries_without(args.entries, &drop);
    let mut entries: Vec<(String, JsonValue)> = Vec::new();
    entries.push(entry("query", JsonValue::Str(pattern)));
    entries.push(entry("match", str_value("any")));
    entries.push(entry("mode", str_value("regex")));
    if !has_scopes {
        let mut xs: Vec<JsonValue> = Vec::new();
        xs.push(str_value("src"));
        xs.push(str_value("tests"));
        entries.push(entry("scopes", JsonValue::Array(xs, "[\"src\",\"tests\"]".to_owned())));
    }
    let ghost head = entries@;
    let mut rest = rest;
    entries.append(&mut rest);
    proof {
        let old = old_entries;
        reveal_strlit("query");
        reveal_strlit("match");
        reveal_strlit("mode");
        reveal_strlit("name");
        reveal_strlit("scopes");
        assert("query"@[0] == 'q' && "match"@[0] == 'm' && "mode"@[0] == 'm' && "name"@[0] == 'n'
            && "scopes"@[0] == 's');
        assert("match"@.len() == 5 && "mode"@.len() == 4);
        assert("query"@ != "match"@ && "query"@ != "mode"@ && "query"@ != "name"@ && "query"@ != "scopes"@);
        assert("match"@ != "mode"@ && "match"@ != "name"@ && "match"@ != "scopes"@);
        assert("mode"@ != "name"@ && "mode"@ != "scopes"@ && "name"@ != "scopes"@);
        let tail = without_keys(old, symbol_keys());
        assert(entries@ =~= head + tail);
        assert forall|k: Seq<char>| true implies #[trigger] lookup(entries@, k) == (match lookup(head, k) {
            Some(v) => Some(v),
            None => lookup(tail, k),
        }) by {
            lemma_lookup_append(head, tail, k);
        }
        // The head holds the new keys, in this order.
        assert forall|k: Seq<char>| true implies #[trigger] lookup(head, k) == if k == "query"@ {
            Some(head[0].1)
        } else if k == "match"@ {
            Some(head[1].1)
        } else if k == "mode"@ {
            Some(head[2].1)
        } else if k == "scopes"@ && !has_scopes {
            Some(head[3].1)
        } else {
            None::<JsonValue>
        } by {
            let t1 = head.skip(1);
            let t2 = head.skip(2);
            let t3 = head.skip(3);
            assert(head =~= seq![head[0]] + t1);
            assert(t1 =~= seq![head[1]] + t2);
            assert(t2 =~= seq![head[2]] + t3);
            lemma_lookup_cons(head[0], t1, k);
            lemma_lookup_cons(head[1], t2, k);
            lemma_lookup_cons(head[2], t3, k);
            if has_scopes {
                assert(t3 =~= Seq::<(String, JsonValue)>::empty());
            } else {
                assert(t3 =~= seq![head[3]] + Seq::<(String, JsonValue)>::empty());
                lemma_lookup_cons(head[3], Seq::<(String, JsonValue)>::empty(), k);
            }
        }
        assert forall|k: Seq<char>| !symbol_keys().contains(k) implies #[trigger] lookup(tail, k) == lookup(old, k) by {
            lemma_lookup_without_keys(old, symbol_keys(), k);
        }
        assert forall|k: Seq<char>| symbol_keys().contains(k) implies #[trigger] lookup(tail, k) is None by {
            lemma_without_keys_absent(old, symbol_keys(), k);
        }
        assert(symbol_keys().contains("name"@));
        assert(!symbol_keys().contains("scopes"@));
        assert(lookup(tail, "name"@) is None);
        assert(lookup(tail, "scopes"@) == lookup(old, "scopes"@));
        assert(lookup(entries@, "query"@) == lookup(head, "query"@));
        assert(lookup(entries@, "match"@) == lookup(head, "match"@));
        assert(lookup(entries@, "mode"@) == lookup(head, "mode"@));
        assert(lookup(entries@, "name"@) == lookup(tail, "name"@));
        assert(lookup(entries@, "scopes"@) == lookup(head, "scopes"@) || lookup(entries@, "scopes"@) == lookup(tail, "scopes"@));
    }
    Ok(Args { entries })
}

} // verus!
