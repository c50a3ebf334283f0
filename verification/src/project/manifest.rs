//! The manifest of source files: which search expressions a project gives
//! rise to, which discovered files are left out, and in which order those
//! that stay are listed.

use vstd::prelude::*;
use crate::error::IroncladError;
use crate::project::compiler_opts::strings;

verus! {

/// A path with one more part joined to it. A part that starts with `/`
/// stands alone; otherwise the part follows the base, after a `/` unless
/// the base is empty or ends with one.
pub open spec fn joined(base: Seq<char>, part: Seq<char>) -> Seq<char> {
    if part.len() > 0 && part[0] == '/' {
        part
    } else if base.len() == 0 || base.last() == '/' {
        base + part
    } else {
        base + seq!['/'] + part
    }
}

/// The recursive search expression for one root and one file-name pattern:
/// `<root>/**/<pattern>`, joined as paths are.
pub open spec fn search_expression(root: Seq<char>, mask: Seq<char>) -> Seq<char> {
    joined(joined(root, seq!['*', '*']), mask)
}

/// The search expressions of one pattern, one for each root, in the roots'
/// order.
pub open spec fn expressions_for_mask(roots: Seq<Seq<char>>, mask: Seq<char>) -> Seq<Seq<char>> {
    Seq::new(roots.len(), |j: int| search_expression(roots[j], mask))
}

/// Every search expression of a project: pattern by pattern, and for each
/// pattern root by root.
pub open spec fn search_expressions_of(roots: Seq<Seq<char>>, masks: Seq<Seq<char>>) -> Seq<
    Seq<char>,
>
    decreases masks.len(),
{
    if masks.len() == 0 {
        Seq::empty()
    } else {
        search_expressions_of(roots, masks.drop_last()) + expressions_for_mask(roots, masks.last())
    }
}

/// Whether a path is left out: it starts with one of the prefixes, or it
/// ends with one of the suffixes.
pub open spec fn excluded(path: Seq<char>, prefixes: Seq<Seq<char>>, suffixes: Seq<Seq<char>>) -> bool {
    ||| exists|i: int| 0 <= i < prefixes.len() && #[trigger] prefixes[i].is_prefix_of(path)
    ||| exists|i: int| 0 <= i < suffixes.len() && #[trigger] suffixes[i].is_suffix_of(path)
}

/// The manifest after one more discovered path: unchanged if the path is
/// already listed or is left out, else with the path at its end.
pub open spec fn manifest_with(
    listed: Seq<Seq<char>>,
    path: Seq<char>,
    prefixes: Seq<Seq<char>>,
    suffixes: Seq<Seq<char>>,
) -> Seq<Seq<char>> {
    if listed.contains(path) || excluded(path, prefixes, suffixes) {
        listed
    } else {
        listed.push(path)
    }
}

/// The manifest of a sequence of discovered paths: each path that is not
/// left out, once, at the place of its first discovery.
pub open spec fn manifest_of(
    found: Seq<Seq<char>>,
    prefixes: Seq<Seq<char>>,
    suffixes: Seq<Seq<char>>,
) -> Seq<Seq<char>>
    decreases found.len(),
{
    if found.len() == 0 {
        Seq::empty()
    } else {
        manifest_with(
            manifest_of(found.drop_last(), prefixes, suffixes),
            found.last(),
            prefixes,
            suffixes,
        )
    }
}

/// `str::starts_with` of std, with a string as the pattern: whether `prefix`
/// is a prefix of `text`.
#[verifier::external_body]
fn text_starts_with(text: &str, prefix: &str) -> (r: bool)
    ensures
        r == prefix@.is_prefix_of(text@),
{
    text.starts_with(prefix)
}

/// `str::ends_with` of std, with a string as the pattern: whether `suffix`
/// is a suffix of `text`.
#[verifier::external_body]
fn text_ends_with(text: &str, suffix: &str) -> (r: bool)
    ensures
        r == suffix@.is_suffix_of(text@),
{
    text.ends_with(suffix)
}

/// Whether `glob::Pattern::new` compiles `expression`: the pattern syntax of
/// the glob crate.
pub uninterp spec fn glob_accepts(expression: Seq<char>) -> bool;

/// An expression without a backslash. The glob crate reads `/` as a path
/// separator on every platform and `\\` on some only, so these are the
/// expressions that it reads in one way everywhere.
pub open spec fn portable(expression: Seq<char>) -> bool {
    !expression.contains('\\')
}

/// `glob::Pattern::new`: compiles a pattern, or says where its syntax is
/// wrong. The compiled pattern is dropped. For a portable expression the
/// outcome is the crate's verdict on the expression's text alone.
#[verifier::external_body]
fn compile_pattern(expression: &str) -> (r: Result<(), glob::PatternError>)
    ensures
        portable(expression@) ==> (r is Ok <==> glob_accepts(expression@)),
{
    match glob::Pattern::new(expression) {
        Ok(_) => Ok(()),
        Err(e) => Err(e),
    }
}

/// What is known of an expression that passed the syntax check.
pub open spec fn passed(expression: Seq<char>) -> bool {
    portable(expression) ==> glob_accepts(expression)
}

/// What is known of an expression that failed the syntax check.
pub open spec fn failed(expression: Seq<char>) -> bool {
    portable(expression) ==> !glob_accepts(expression)
}

/// Whether one of `fragments` is a prefix of `path`.
pub fn starts_with_any(path: &str, fragments: &Vec<String>) -> (r: bool)
    ensures
        r == exists|i: int|
            0 <= i < fragments@.len() && #[trigger] strings(fragments@)[i].is_prefix_of(path@),
{
    let mut i: usize = 0;
    while i < fragments.len()
        invariant
            i <= fragments.len(),
            forall|j: int| 0 <= j < i ==> !(#[trigger] strings(fragments@)[j]).is_prefix_of(path@),
        decreases fragments.len() - i,
    {
        if text_starts_with(path, fragments[i].as_str()) {
            assert(strings(fragments@)[i as int].is_prefix_of(path@));
            return true;
        }
        i += 1;
    }
    false
}

/// Whether one of `fragments` is a suffix of `path`.
pub fn ends_with_any(path: &str, fragments: &Vec<String>) -> (r: bool)
    ensures
        r == exists|i: int|
            0 <= i < fragments@.len() && #[trigger] strings(fragments@)[i].is_suffix_of(path@),
{
    let mut i: usize = 0;
    while i < fragments.len()
        invariant
            i <= fragments.len(),
            forall|j: int| 0 <= j < i ==> !(#[trigger] strings(fragments@)[j]).is_suffix_of(path@),
        decreases fragments.len() - i,
    {
        if text_ends_with(path, fragments[i].as_str()) {
            assert(strings(fragments@)[i as int].is_suffix_of(path@));
            return true;
        }
        i += 1;
    }
    false
}

/// Whether `path` is already one of `listed`.
pub fn is_listed(listed: &Vec<String>, path: &String) -> (r: bool)
    ensures
        r == strings(listed@).contains(path@),
{
    let mut i: usize = 0;
    while i < listed.len()
        invariant
            i <= listed.len(),
            forall|j: int| 0 <= j < i ==> strings(listed@)[j] != path@,
        decreases listed.len() - i,
    {
        if listed[i] == *path {
            assert(strings(listed@)[i as int] == path@);
            return true;
        }
        i += 1;
    }
    false
}

/// `base` with `part` joined to it.
pub fn join_path(base: &str, part: &str) -> (r: String)
    ensures
        r@ == joined(base@, part@),
{
    proof {
        reveal_strlit("/");
        assert("/"@ =~= seq!['/']);
    }
    if text_starts_with(part, "/") {
        assert(part@.subrange(0, 1)[0] == '/');
        return String::from_str(part);
    }
    assert(!(part@.len() > 0 && part@[0] == '/')) by {
        if part@.len() > 0 && part@[0] == '/' {
            assert(seq!['/'] =~= part@.subrange(0, 1));
        }
    }
    let mut out = String::from_str(base);
    if base.is_empty() {
        out.append(part);
        return out;
    }
    if text_ends_with(base, "/") {
        assert(base@.subrange(base@.len() - 1, base@.len() as int)[0] == '/');
        out.append(part);
        return out;
    }
    assert(base@.last() != '/') by {
        if base@.last() == '/' {
            assert(seq!['/'] =~= base@.subrange(base@.len() - 1, base@.len() as int));
        }
    }
    out.append("/");
    out.append(part);
    out
}

/// The search expression for `root` and `mask`, as a string.
pub fn build_search_expression(root: &str, mask: &str) -> (r: String)
    ensures
        r@ == search_expression(root@, mask@),
{
    proof {
        reveal_strlit("**");
        assert("**"@ =~= seq!['*', '*']);
    }
    let recursive = join_path(root, "**");
    join_path(recursive.as_str(), mask)
}

/// `expressions[k]` is `pattern`, it failed the syntax check, and every
/// expression before it passed.
pub open spec fn first_failure(expressions: Seq<Seq<char>>, pattern: Seq<char>, k: int) -> bool {
    &&& 0 <= k < expressions.len()
    &&& expressions[k] == pattern
    &&& failed(pattern)
    &&& forall|j: int| 0 <= j < k ==> passed(#[trigger] expressions[j])
}

/// Every expression is portable and a well-formed pattern.
pub open spec fn all_accepted(expressions: Seq<Seq<char>>) -> bool {
    forall|k: int|
        0 <= k < expressions.len() ==> portable(#[trigger] expressions[k]) && glob_accepts(
            expressions[k],
        )
}

/// What becomes of a search expression once its syntax has been checked: the
/// expression itself if the pattern compiled, else the error that names it.
pub fn checked_expression(expression: String, outcome: Result<(), glob::PatternError>) -> (r:
    Result<String, IroncladError>)
    ensures
        r == match outcome {
            Ok(_) => Ok::<String, IroncladError>(expression),
            Err(cause) => Err(IroncladError::GlobPattern { pattern: expression, cause }),
        },
{
    match outcome {
        Ok(_) => Ok(expression),
        Err(cause) => Err(IroncladError::GlobPattern { pattern: expression, cause }),
    }
}

/// Every search expression of the given roots and patterns, in the order in
/// which they are to be evaluated, each checked for its syntax. The first
/// expression that is not a well-formed pattern fails the whole list, and
/// the error names it. With no root or no pattern nothing is checked and
/// the list is empty.
pub fn build_search_expressions(roots: &Vec<String>, masks: &Vec<String>) -> (r: Result<
    Vec<String>,
    IroncladError,
>)
    ensures
        match r {
            Ok(list) => {
                &&& strings(list@) == search_expressions_of(strings(roots@), strings(masks@))
                &&& forall|k: int| 0 <= k < list@.len() ==> passed(#[trigger] strings(list@)[k])
            },
            Err(e) => e matches IroncladError::GlobPattern { pattern, .. } && exists|k: int|
                first_failure(
                    search_expressions_of(strings(roots@), strings(masks@)),
                    pattern@,
                    k,
                ),
        },
        roots@.len() == 0 || masks@.len() == 0 ==> r is Ok,
        all_accepted(search_expressions_of(strings(roots@), strings(masks@))) ==> r is Ok,
{
    let ghost all = search_expressions_of(strings(roots@), strings(masks@));
    let mut out: Vec<String> = Vec::new();
    let mut i: usize = 0;
    assert(strings(masks@).take(0) =~= Seq::<Seq<char>>::empty());
    assert(strings(out@) =~= Seq::<Seq<char>>::empty());
    while i < masks.len()
        invariant
            i <= masks.len(),
            all == search_expressions_of(strings(roots@), strings(masks@)),
            strings(out@) == search_expressions_of(strings(roots@), strings(masks@).take(i as int)),
            forall|k: int| 0 <= k < out@.len() ==> passed(#[trigger] strings(out@)[k]),
        decreases masks.len() - i,
    {
        let ghost before = strings(out@);
        let ghost mask = strings(masks@)[i as int];
        let mut j: usize = 0;
        assert(strings(out@) =~= before + expressions_for_mask(strings(roots@), mask).take(0));
        while j < roots.len()
            invariant
                i < masks.len(),
                j <= roots.len(),
                mask == strings(masks@)[i as int],
                all == search_expressions_of(strings(roots@), strings(masks@)),
                before == search_expressions_of(strings(roots@), strings(masks@).take(i as int)),
                strings(out@) == before + expressions_for_mask(strings(roots@), mask).take(
                    j as int,
                ),
                forall|k: int| 0 <= k < out@.len() ==> passed(#[trigger] strings(out@)[k]),
            decreases roots.len() - j,
        {
            let expression = build_search_expression(roots[j].as_str(), masks[i].as_str());
            let outcome = compile_pattern(expression.as_str());
            let ghost listed = strings(out@);
            let ghost next = listed.push(expression@);
            proof {
                assert(expression@ == search_expression(strings(roots@)[j as int], mask));
                assert(next =~= before + expressions_for_mask(strings(roots@), mask).take(j + 1));
                lemma_expressions_grow(strings(roots@), strings(masks@), i as int, j + 1);
                assert(next.is_prefix_of(all));
                assert(all[listed.len() as int] == next[listed.len() as int]);
                assert forall|k: int| 0 <= k < listed.len() implies passed(#[trigger] all[k]) by {
                    assert(all[k] == next[k]);
                    assert(next[k] == strings(out@)[k]);
                }
            }
            match checked_expression(expression, outcome) {
                Ok(checked) => {
                    out.push(checked);
                    assert(strings(out@) =~= next);
                },
                Err(e) => {
                    assert(e->pattern@ == next[listed.len() as int]);
                    assert(first_failure(all, e->pattern@, listed.len() as int));
                    return Err(e);
                },
            }
            j += 1;
        }
        proof {
            let upto = strings(masks@).take(i + 1);
            assert(upto.drop_last() =~= strings(masks@).take(i as int));
            assert(upto.last() == mask);
            assert(expressions_for_mask(strings(roots@), mask).take(roots@.len() as int)
                =~= expressions_for_mask(strings(roots@), mask));
        }
        i += 1;
    }
    assert(strings(masks@).take(masks@.len() as int) =~= strings(masks@));
    Ok(out)
}

/// The expressions of the first `i` patterns, followed by those of pattern
/// `i` for the first `j` roots, are the beginning of all search expressions.
pub proof fn lemma_expressions_grow(roots: Seq<Seq<char>>, masks: Seq<Seq<char>>, i: int, j: int)
    requires
        0 <= i < masks.len(),
        0 <= j <= roots.len(),
    ensures
        (search_expressions_of(roots, masks.take(i)) + expressions_for_mask(roots, masks[i]).take(
            j,
        )).is_prefix_of(search_expressions_of(roots, masks)),
    decreases masks.len(),
{
    if i == masks.len() - 1 {
        assert(masks.take(i) =~= masks.drop_last());
    } else {
        lemma_expressions_grow(roots, masks.drop_last(), i, j);
        assert(masks.drop_last().take(i) =~= masks.take(i));
    }
}

/// The expression of pattern `i` and root `j` is one of a project's search
/// expressions.
pub proof fn lemma_expression_listed(roots: Seq<Seq<char>>, masks: Seq<Seq<char>>, i: int, j: int)
    requires
        0 <= i < masks.len(),
        0 <= j < roots.len(),
    ensures
        search_expressions_of(roots, masks).contains(search_expression(roots[j], masks[i])),
    decreases masks.len(),
{
    let head = search_expressions_of(roots, masks.drop_last());
    let tail = expressions_for_mask(roots, masks.last());
    if i == masks.len() - 1 {
        assert(tail[j] == search_expression(roots[j], masks[i]));
        assert((head + tail)[head.len() + j] == tail[j]);
    } else {
        lemma_expression_listed(roots, masks.drop_last(), i, j);
        let k = choose|k: int|
            0 <= k < head.len() && head[k] == search_expression(roots[j], masks[i]);
        assert((head + tail)[k] == head[k]);
    }
}

/// A path is in the manifest exactly when it was discovered and is not left
/// out: no discovered file is dropped for another reason, and no file that
/// was not discovered gets in.
pub proof fn lemma_manifest_members(
    found: Seq<Seq<char>>,
    prefixes: Seq<Seq<char>>,
    suffixes: Seq<Seq<char>>,
    path: Seq<char>,
)
    ensures
        manifest_of(found, prefixes, suffixes).contains(path) <==> found.contains(path)
            && !excluded(path, prefixes, suffixes),
    decreases found.len(),
{
    if found.len() > 0 {
        let earlier = found.drop_last();
        let before = manifest_of(earlier, prefixes, suffixes);
        let after = manifest_of(found, prefixes, suffixes);
        lemma_manifest_members(earlier, prefixes, suffixes, path);
        if found.contains(path) {
            let i = choose|i: int| 0 <= i < found.len() && found[i] == path;
            if i < earlier.len() {
                assert(earlier[i] == path);
            }
        }
        if earlier.contains(path) {
            let i = choose|i: int| 0 <= i < earlier.len() && earlier[i] == path;
            assert(found[i] == path);
        }
        assert(found[found.len() - 1] == found.last());
        if after.contains(path) {
            let i = choose|i: int| 0 <= i < after.len() && after[i] == path;
            if i < before.len() {
                assert(before[i] == path);
            }
        }
        if before.contains(path) {
            let i = choose|i: int| 0 <= i < before.len() && before[i] == path;
            assert(after[i] == path);
        }
        if after != before {
            assert(after[before.len() as int] == found.last());
        }
    }
}

/// A path that is left out is never in the manifest, wherever and however
/// often it was discovered.
pub proof fn lemma_excluded_never_listed(
    found: Seq<Seq<char>>,
    prefixes: Seq<Seq<char>>,
    suffixes: Seq<Seq<char>>,
    path: Seq<char>,
)
    requires
        excluded(path, prefixes, suffixes),
    ensures
        !manifest_of(found, prefixes, suffixes).contains(path),
{
    lemma_manifest_members(found, prefixes, suffixes, path);
}

/// No path is in the manifest twice, however often it was discovered.
pub proof fn lemma_manifest_no_duplicates(
    found: Seq<Seq<char>>,
    prefixes: Seq<Seq<char>>,
    suffixes: Seq<Seq<char>>,
)
    ensures
        manifest_of(found, prefixes, suffixes).no_duplicates(),
    decreases found.len(),
{
    if found.len() > 0 {
        lemma_manifest_no_duplicates(found.drop_last(), prefixes, suffixes);
    }
}

/// The manifest keeps the order of first discovery: what the first `n`
/// discoveries gave is the beginning of the whole manifest.
pub proof fn lemma_manifest_grows(
    found: Seq<Seq<char>>,
    prefixes: Seq<Seq<char>>,
    suffixes: Seq<Seq<char>>,
    n: int,
)
    requires
        0 <= n <= found.len(),
    ensures
        manifest_of(found.take(n), prefixes, suffixes).is_prefix_of(
            manifest_of(found, prefixes, suffixes),
        ),
    decreases found.len(),
{
    if n == found.len() {
        assert(found.take(n) =~= found);
    } else {
        lemma_manifest_grows(found.drop_last(), prefixes, suffixes, n);
        assert(found.drop_last().take(n) =~= found.take(n));
    }
}

/// A project has one search expression for each pair of a pattern and a
/// root.
pub proof fn lemma_expression_count(roots: Seq<Seq<char>>, masks: Seq<Seq<char>>)
    ensures
        search_expressions_of(roots, masks).len() == masks.len() * roots.len(),
    decreases masks.len(),
{
    if masks.len() > 0 {
        lemma_expression_count(roots, masks.drop_last());
        assert((masks.len() - 1) * roots.len() + roots.len() == masks.len() * roots.len())
            by (nonlinear_arith);
    } else {
        assert(0 * roots.len() == 0);
    }
}

} // verus!
