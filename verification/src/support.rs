//! Which file functions apply to a set of paths.
//!
//! The paths are summed up as a set of tokens: the lower-case extensions of
//! the files, and tokens that begin with a slash and say what kind of paths
//! were given (`/file`, `/files`, `/dir`, `/dirs`, `/paths`). A function
//! declares the tokens it applies to; `*` and `/all` stand for every
//! extension, and `!` before a token that begins with a slash rules the
//! function out where that token is present.

use crate::errors::CommandError;
use crate::functions::{
    file_json, lemma_holds_is_contains, push_entry, push_unique, FileFunction,
};
use crate::json::{entry_trees, Json, JsonModel};
use crate::paths::list_holds;
use crate::registry::FileRegistry;
use crate::text::{concat2, has_prefix, is_sorted, sorted_texts, starts_with, str_eq, views};
use vstd::prelude::*;
use vstd::string::StringExecFns;

verus! {

/// The tokens that say what kind of paths were given.
pub open spec fn is_pseudo_token(t: Seq<char>) -> bool {
    t == "/file"@ || t == "/dir"@ || t == "/files"@ || t == "/dirs"@ || t == "/paths"@
}

/// A token that stands for the extension of a file.
pub open spec fn is_real_extension(t: Seq<char>) -> bool {
    !has_prefix(t, "/"@)
}

/// The function applies to files of the extension.
pub open spec fn matches_extension(declared: Seq<Seq<char>>, ext: Seq<char>) -> bool {
    declared.contains("*"@) || declared.contains("/all"@) || declared.contains(ext)
}

/// The function applies to files of every extension among the tokens.
pub open spec fn matches_all_real(declared: Seq<Seq<char>>, tokens: Seq<Seq<char>>) -> bool {
    forall|i: int|
        0 <= i < tokens.len() && is_real_extension(#[trigger] tokens[i]) ==> matches_extension(
            declared,
            tokens[i],
        )
}

/// The function declares a kind of paths that is present.
pub open spec fn included_by_token(declared: Seq<Seq<char>>, tokens: Seq<Seq<char>>) -> bool {
    exists|i: int|
        0 <= i < tokens.len() && is_pseudo_token(#[trigger] tokens[i]) && declared.contains(
            tokens[i],
        )
}

/// The function rules out a kind of paths that is present.
pub open spec fn excluded_by_token(declared: Seq<Seq<char>>, tokens: Seq<Seq<char>>) -> bool {
    exists|i: int|
        0 <= i < tokens.len() && is_pseudo_token(#[trigger] tokens[i]) && declared.contains(
            "!"@ + tokens[i],
        )
}

/// The function is offered for the tokens: it applies to every extension or
/// declares a kind of paths that is present, and rules out none that is
/// present.
pub open spec fn supports(declared: Seq<Seq<char>>, tokens: Seq<Seq<char>>) -> bool {
    (matches_all_real(declared, tokens) || included_by_token(declared, tokens))
        && !excluded_by_token(declared, tokens)
}

pub fn is_pseudo(token: &str) -> (r: bool)
    ensures
        r == is_pseudo_token(token@),
{
    str_eq(token, "/file") || str_eq(token, "/dir") || str_eq(token, "/files") || str_eq(
        token,
        "/dirs",
    ) || str_eq(token, "/paths")
}

/// Whether a function that declares the tokens `declared` is offered for `tokens`.
pub fn function_supports(declared: &Vec<String>, tokens: &Vec<String>) -> (r: bool)
    ensures
        r == supports(views(declared@), views(tokens@)),
{
    let ghost d = views(declared@);
    let ghost t = views(tokens@);
    let any = list_holds(declared, "*") || list_holds(declared, "/all");
    proof {
        lemma_holds_is_contains(declared@, "*"@);
        lemma_holds_is_contains(declared@, "/all"@);
    }
    let mut all_real = true;
    let mut included = false;
    let mut excluded = false;
    let mut i: usize = 0;
    while i < tokens.len()
        invariant
            i <= tokens.len(),
            d == views(declared@),
            t == views(tokens@),
            any == (d.contains("*"@) || d.contains("/all"@)),
            all_real == matches_all_real(d, t.take(i as int)),
            included == included_by_token(d, t.take(i as int)),
            excluded == excluded_by_token(d, t.take(i as int)),
        decreases tokens.len() - i,
    {
        let token = tokens[i].as_str();
        let ghost before = t.take(i as int);
        let ghost after = t.take(i + 1);
        proof {
            assert(after =~= before.push(token@));
            lemma_holds_is_contains(declared@, token@);
            lemma_holds_is_contains(declared@, "!"@ + token@);
        }
        let is_real = !starts_with(token, "/");
        let pseudo = is_pseudo(token);
        let declared_here = list_holds(declared, token);
        let negated = concat2("!", token);
        let ruled_out = list_holds(declared, negated.as_str());
        proof {
            assert(matches_all_real(d, after) == (matches_all_real(d, before) && (is_real ==> (any
                || declared_here)))) by {
                if matches_all_real(d, after) {
                    assert forall|k: int|
                        0 <= k < before.len() && is_real_extension(
                            #[trigger] before[k],
                        ) implies matches_extension(d, before[k]) by {
                        assert(after[k] == before[k]);
                    }
                    assert(after[i as int] == token@);
                }
                if matches_all_real(d, before) && (is_real ==> (any || declared_here)) {
                    assert forall|k: int|
                        0 <= k < after.len() && is_real_extension(
                            #[trigger] after[k],
                        ) implies matches_extension(d, after[k]) by {
                        if k < i {
                            assert(after[k] == before[k]);
                        }
                    }
                }
            }
            assert(included_by_token(d, after) == (included_by_token(d, before) || (pseudo
                && declared_here))) by {
                if included_by_token(d, after) {
                    let k = choose|k: int|
                        0 <= k < after.len() && is_pseudo_token(#[trigger] after[k]) && d.contains(
                            after[k],
                        );
                    if k < i {
                        assert(before[k] == after[k]);
                    }
                }
                if included_by_token(d, before) {
                    let k = choose|k: int|
                        0 <= k < before.len() && is_pseudo_token(#[trigger] before[k])
                            && d.contains(before[k]);
                    assert(after[k] == before[k]);
                }
                if pseudo && declared_here {
                    assert(after[i as int] == token@);
                }
            }
            assert(excluded_by_token(d, after) == (excluded_by_token(d, before) || (pseudo
                && ruled_out))) by {
                if excluded_by_token(d, after) {
                    let k = choose|k: int|
                        0 <= k < after.len() && is_pseudo_token(#[trigger] after[k]) && d.contains(
                            "!"@ + after[k],
                        );
                    if k < i {
                        assert(before[k] == after[k]);
                    }
                }
                if excluded_by_token(d, before) {
                    let k = choose|k: int|
                        0 <= k < before.len() && is_pseudo_token(#[trigger] before[k])
                            && d.contains("!"@ + before[k]);
                    assert(after[k] == before[k]);
                }
                if pseudo && ruled_out {
                    assert(after[i as int] == token@);
                }
            }
        }
        if is_real && !(any || declared_here) {
            all_real = false;
        }
        if pseudo && declared_here {
            included = true;
        }
        if pseudo && ruled_out {
            excluded = true;
        }
        i = i + 1;
    }
    proof {
        assert(t.take(t.len() as int) =~= t);
    }
    (all_real || included) && !excluded
}

/// A function of the catalog has the name `n` and is offered for the tokens.
pub open spec fn offered(functions: Seq<FileFunction>, tokens: Seq<Seq<char>>, n: Seq<char>) -> bool {
    exists|i: int|
        0 <= i < functions.len() && (#[trigger] functions[i]).name@ == n && supports(
            views(functions[i].matches.extensions@),
            tokens,
        )
}

/// The names of the functions that are offered for the tokens, each once, in
/// ascending order.
pub fn supported_names(registry: &FileRegistry, tokens: &Vec<String>) -> (r: Vec<String>)
    ensures
        is_sorted(views(r@)),
        views(r@).no_duplicates(),
        forall|n: Seq<char>|
            views(r@).contains(n) <==> offered(registry.functions@, views(tokens@), n),
{
    let mut names: Vec<String> = Vec::new();
    let mut i: usize = 0;
    while i < registry.functions.len()
        invariant
            i <= registry.functions.len(),
            views(names@).no_duplicates(),
            forall|n: Seq<char>|
                views(names@).contains(n) <==> offered(
                    registry.functions@.take(i as int),
                    views(tokens@),
                    n,
                ),
        decreases registry.functions.len() - i,
    {
        let function = &registry.functions[i];
        let ghost before = views(names@);
        let ghost held = registry.functions@.take(i as int);
        let ghost next = registry.functions@.take(i + 1);
        let supported = function_supports(&function.matches.extensions, tokens);
        if supported {
            push_unique(&mut names, function.name.clone());
        }
        proof {
            assert(next =~= held.push(registry.functions@[i as int]));
            assert forall|n: Seq<char>|
                views(names@).contains(n) <==> offered(next, views(tokens@), n) by {
                assert(before.contains(n) <==> offered(held, views(tokens@), n));
                if offered(held, views(tokens@), n) {
                    let k = choose|k: int|
                        0 <= k < held.len() && (#[trigger] held[k]).name@ == n && supports(
                            views(held[k].matches.extensions@),
                            views(tokens@),
                        );
                    assert(next[k].name@ == n);
                }
                if offered(next, views(tokens@), n) {
                    let k = choose|k: int|
                        0 <= k < next.len() && (#[trigger] next[k]).name@ == n && supports(
                            views(next[k].matches.extensions@),
                            views(tokens@),
                        );
                    if k < i {
                        assert(held[k].name@ == n);
                    }
                }
                if supported && n == registry.functions@[i as int].name@ {
                    assert(next[i as int].name@ == n);
                }
            }
        }
        i = i + 1;
    }
    proof {
        assert(registry.functions@.take(registry.functions@.len() as int) =~= registry.functions@);
    }
    sorted_texts(&names)
}

/// `listing` tells which functions are offered for the tokens: under `names`
/// the names of the offered functions, and of no other, each once and in
/// ascending order; under `items` the descriptor of each under its name, in
/// the same order.
pub open spec fn is_support_listing(
    listing: JsonModel,
    functions: Seq<FileFunction>,
    tokens: Seq<Seq<char>>,
) -> bool {
    &&& listing is Object
    &&& listing->Object_0.len() == 2
    &&& listing->Object_0[0].0 == "items"@
    &&& listing->Object_0[1].0 == "names"@
    &&& listing->Object_0[1].1 is Array
    &&& listing->Object_0[0].1 is Object
    &&& listing->Object_0[0].1->Object_0.len() == listing->Object_0[1].1->Array_0.len()
    &&& forall|k: int|
        0 <= k < listing->Object_0[1].1->Array_0.len() ==> {
            let name = #[trigger] listing->Object_0[1].1->Array_0[k];
            let item = listing->Object_0[0].1->Object_0[k];
            &&& name is String
            &&& offered(functions, tokens, name->String_0)
            &&& item.0 == name->String_0
            &&& exists|i: int|
                0 <= i < functions.len() && (#[trigger] functions[i]).name@ == item.0 && item.1
                    == file_json(functions[i])
        }
    &&& forall|n: Seq<char>|
        offered(functions, tokens, n) ==> listing->Object_0[1].1->Array_0.contains(
            JsonModel::String(n),
        )
    &&& forall|a: int, b: int|
        0 <= a < b < listing->Object_0[1].1->Array_0.len() ==> crate::text::lex_le(
            (#[trigger] listing->Object_0[1].1->Array_0[a])->String_0,
            (#[trigger] listing->Object_0[1].1->Array_0[b])->String_0,
        ) && listing->Object_0[1].1->Array_0[a] != listing->Object_0[1].1->Array_0[b]
}

/// The file functions that are offered for the tokens: their names in
/// ascending order, and the descriptor of each under its name.
pub fn get_supported_file_functions(registry: &FileRegistry, file_exts: &Vec<String>) -> (r: Result<
    Json,
    CommandError,
>)
    ensures
        r is Ok,
        is_support_listing(r->Ok_0@, registry.functions@, views(file_exts@)),
{
    let names = supported_names(registry, file_exts);
    let mut items: Vec<(String, Json)> = Vec::new();
    let mut k: usize = 0;
    while k < names.len()
        invariant
            k <= names.len(),
            entry_trees(items@).len() == k,
            views(names@).no_duplicates(),
            forall|n: Seq<char>|
                views(names@).contains(n) <==> offered(registry.functions@, views(file_exts@), n),
            forall|j: int|
                0 <= j < k ==> (#[trigger] entry_trees(items@)[j]).0 == names@[j]@ && exists|i: int|
                    0 <= i < registry.functions@.len() && (
                    #[trigger] registry.functions@[i]).name@ == names@[j]@ && entry_trees(
                        items@,
                    )[j].1 == file_json(registry.functions@[i]),
        decreases names.len() - k,
    {
        let name = names[k].as_str();
        proof {
            assert(views(names@)[k as int] == name@);
            assert(views(names@).contains(name@));
            assert(offered(registry.functions@, views(file_exts@), name@));
        }
        match registry.find(name) {
            Some(i) => {
                let ghost before = entry_trees(items@);
                push_entry(&mut items, name, registry.functions[i].to_json());
                proof {
                    assert forall|j: int| 0 <= j < k + 1 implies (#[trigger] entry_trees(
                        items@,
                    )[j]).0 == names@[j]@ && exists|i2: int|
                        0 <= i2 < registry.functions@.len() && (
                        #[trigger] registry.functions@[i2]).name@ == names@[j]@ && entry_trees(
                            items@,
                        )[j].1 == file_json(registry.functions@[i2]) by {
                        if j < k {
                            assert(entry_trees(items@)[j] == before[j]);
                            let i2 = choose|i2: int|
                                0 <= i2 < registry.functions@.len() && (
                                #[trigger] registry.functions@[i2]).name@ == names@[j]@
                                    && before[j].1 == file_json(registry.functions@[i2]);
                            assert(registry.functions@[i2].name@ == names@[j]@);
                        } else {
                            assert(registry.functions@[i as int].name@ == names@[j]@);
                        }
                    }
                }
            },
            None => {
                proof {
                    assert(false);
                }
            },
        }
        k = k + 1;
    }
    let names_json = Json::texts(&names);
    let mut entries: Vec<(String, Json)> = Vec::new();
    push_entry(&mut entries, "items", Json::Object(items));
    push_entry(&mut entries, "names", names_json);
    let r = Json::Object(entries);
    proof {
        let listed = r@->Object_0[1].1->Array_0;
        assert(listed =~= Seq::new(views(names@).len(), |i: int| JsonModel::String(views(names@)[i])));
        assert forall|n: Seq<char>|
            offered(registry.functions@, views(file_exts@), n) implies listed.contains(
            JsonModel::String(n),
        ) by {
            assert(views(names@).contains(n));
            let j = choose|j: int| 0 <= j < views(names@).len() && views(names@)[j] == n;
            assert(listed[j] == JsonModel::String(n));
        }
        assert forall|j: int| 0 <= j < listed.len() implies {
            let name = #[trigger] listed[j];
            let item = r@->Object_0[0].1->Object_0[j];
            &&& name is String
            &&& offered(registry.functions@, views(file_exts@), name->String_0)
            &&& item.0 == name->String_0
            &&& exists|i: int|
                0 <= i < registry.functions@.len() && (#[trigger] registry.functions@[i]).name@
                    == item.0 && item.1 == file_json(registry.functions@[i])
        } by {
            assert(views(names@)[j] == names@[j]@);
            assert(views(names@).contains(names@[j]@));
            let i = choose|i: int|
                0 <= i < registry.functions@.len() && (#[trigger] registry.functions@[i]).name@
                    == names@[j]@ && entry_trees(items@)[j].1 == file_json(registry.functions@[i]);
            assert(registry.functions@[i].name@ == names@[j]@);
        }
        assert forall|a: int, b: int| 0 <= a < b < listed.len() implies crate::text::lex_le(
            (#[trigger] listed[a])->String_0,
            (#[trigger] listed[b])->String_0,
        ) && listed[a] != listed[b] by {
            assert(views(names@)[a] != views(names@)[b]);
            assert(crate::text::lex_le(views(names@)[a], views(names@)[b]));
        }
    }
    Ok(r)
}

/// The indices of the functions that apply to files of the extension.
pub open spec fn matching(functions: Seq<FileFunction>, ext: Seq<char>) -> Set<int> {
    Set::new(
        |i: int|
            0 <= i < functions.len() && matches_extension(
                views(functions[i].matches.extensions@),
                ext,
            ),
    )
}

/// All functions, cut down extension by extension to those that apply to each.
pub open spec fn intersected(functions: Seq<FileFunction>, tokens: Seq<Seq<char>>) -> Set<int>
    decreases tokens.len(),
{
    if tokens.len() == 0 {
        Set::new(|i: int| 0 <= i < functions.len())
    } else if is_real_extension(tokens.last()) {
        intersected(functions, tokens.drop_last()).intersect(matching(functions, tokens.last()))
    } else {
        intersected(functions, tokens.drop_last())
    }
}

/// The functions that declare a kind of paths that is present.
pub open spec fn included_set(functions: Seq<FileFunction>, tokens: Seq<Seq<char>>) -> Set<int> {
    Set::new(
        |i: int|
            0 <= i < functions.len() && included_by_token(
                views(functions[i].matches.extensions@),
                tokens,
            ),
    )
}

/// The functions that rule out a kind of paths that is present.
pub open spec fn excluded_set(functions: Seq<FileFunction>, tokens: Seq<Seq<char>>) -> Set<int> {
    Set::new(
        |i: int|
            0 <= i < functions.len() && excluded_by_token(
                views(functions[i].matches.extensions@),
                tokens,
            ),
    )
}

/// The functions that are offered are those that are left when the set of all
/// functions is cut down by every extension in turn, the functions that
/// declare a kind of paths that is present are added, and the functions that
/// rule one out are taken away last.
pub proof fn law_support_is_a_fold(functions: Seq<FileFunction>, tokens: Seq<Seq<char>>, i: int)
    requires
        0 <= i < functions.len(),
    ensures
        supports(views(functions[i].matches.extensions@), tokens) <==> intersected(
            functions,
            tokens,
        ).union(included_set(functions, tokens)).difference(
            excluded_set(functions, tokens),
        ).contains(i),
{
    lemma_intersected(functions, tokens, i);
}

pub proof fn lemma_intersected(functions: Seq<FileFunction>, tokens: Seq<Seq<char>>, i: int)
    requires
        0 <= i < functions.len(),
    ensures
        intersected(functions, tokens).contains(i) <==> matches_all_real(
            views(functions[i].matches.extensions@),
            tokens,
        ),
    decreases tokens.len(),
{
    let d = views(functions[i].matches.extensions@);
    if tokens.len() > 0 {
        let rest = tokens.drop_last();
        lemma_intersected(functions, rest, i);
        if matches_all_real(d, tokens) {
            assert forall|k: int|
                0 <= k < rest.len() && is_real_extension(
                    #[trigger] rest[k],
                ) implies matches_extension(d, rest[k]) by {
                assert(tokens[k] == rest[k]);
            }
            assert(tokens[tokens.len() - 1] == tokens.last());
        }
        if matches_all_real(d, rest) && (is_real_extension(tokens.last()) ==> matches_extension(
            d,
            tokens.last(),
        )) {
            assert forall|k: int|
                0 <= k < tokens.len() && is_real_extension(
                    #[trigger] tokens[k],
                ) implies matches_extension(d, tokens[k]) by {
                if k < rest.len() {
                    assert(tokens[k] == rest[k]);
                }
            }
        }
    }
}

} // verus!
