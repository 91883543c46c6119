//! Namespaced stylesheets: an ordered list of (theme name, style tree)
//! pairs is resolved into a table of themes. A theme named "default" acts
//! as the base: other themes are deep-merged on top of it, so unspecified
//! fields inherit from the default and the theme's own values win.
//!
//! The sequential rule is order-dependent: a pair is based on whatever
//! tree is stored under "default" at the moment the pair is processed, so
//! themes supplied before the default are stored unmerged. Both that rule
//! and the order-independent one are provided, chosen by [`MergePolicy`].

use vstd::prelude::*;

use crate::json::{
    entries_get, entries_has, entries_index_of, entries_view, index_of_key, jview, keys_unique,
    lemma_entries_index_of, lemma_merged_empty_left, lemma_merged_right_biased, merge_json_values,
    merged, node_field, EntriesV, Json, JsonV,
};

verus! {

/// How a theme finds its "default" base while a style document is loaded.
#[derive(Clone, Copy, Debug, PartialEq, Eq, Structural)]
pub enum MergePolicy {
    /// The literal, order-dependent rule: a pair is based on the tree
    /// stored under "default" at the moment the pair is processed; pairs
    /// supplied before the default are stored unmerged.
    Sequential,
    /// The order-independent rule: every pair not itself named "default"
    /// is based on the input's "default" pair, wherever it stands.
    DefaultBase,
}

/// Stores a theme under its name: an existing name is overwritten in
/// place, a new name is appended.
pub open spec fn entries_put(es: EntriesV, k: Seq<char>, v: JsonV) -> EntriesV {
    if entries_has(es, k) {
        es.update(entries_index_of(es, k), (k, v))
    } else {
        es.push((k, v))
    }
}

/// The literal loading rule, folding the pairs from index `i` into `acc`.
pub open spec fn loaded_styles_seq(acc: EntriesV, pairs: EntriesV, i: int) -> EntriesV
    decreases pairs.len() - i,
{
    if i < 0 || i >= pairs.len() {
        acc
    } else {
        let name = pairs[i].0;
        let tree = pairs[i].1;
        let resolved = if entries_has(acc, "default"@) {
            merged(merged(JsonV::Obj(Seq::empty()), entries_get(acc, "default"@)), tree)
        } else {
            tree
        };
        loaded_styles_seq(entries_put(acc, name, resolved), pairs, i + 1)
    }
}

/// The order-independent loading rule, folding the pairs from index `i`
/// into `acc`: every pair other than "default" itself is based on the
/// input's "default" pair, if the input holds one.
pub open spec fn loaded_styles_base(acc: EntriesV, pairs: EntriesV, i: int) -> EntriesV
    decreases pairs.len() - i,
{
    if i < 0 || i >= pairs.len() {
        acc
    } else {
        let name = pairs[i].0;
        let tree = pairs[i].1;
        let resolved = if name == "default"@ || !entries_has(pairs, "default"@) {
            tree
        } else {
            merged(merged(JsonV::Obj(Seq::empty()), entries_get(pairs, "default"@)), tree)
        };
        loaded_styles_base(entries_put(acc, name, resolved), pairs, i + 1)
    }
}

/// The resolved theme table for an ordered list of (name, tree) pairs.
pub open spec fn loaded_styles(pairs: EntriesV, policy: MergePolicy) -> EntriesV {
    match policy {
        MergePolicy::Sequential => loaded_styles_seq(Seq::empty(), pairs, 0),
        MergePolicy::DefaultBase => loaded_styles_base(Seq::empty(), pairs, 0),
    }
}

/// What a loaded theme resolves to: a pair based on a stored well-formed
/// "default" tree resolves to the plain deep merge of that default and
/// the pair's own tree (the empty tree the loader starts the merge from
/// changes nothing).
pub proof fn lemma_resolved_theme_is_merge_onto_default(dflt: JsonV, tree: JsonV)
    requires
        dflt is Obj,
        keys_unique(dflt->Obj_0),
    ensures
        merged(merged(JsonV::Obj(Seq::empty()), dflt), tree) == merged(dflt, tree),
{
    lemma_merged_empty_left(dflt);
}

/// A resolved theme inherits from the default: every top-level block of
/// the default or of the theme is present; a block only the default has
/// is inherited unchanged, a block only the theme has is the theme's own,
/// and a shared block is their deep merge, the theme's values winning.
pub proof fn lemma_theme_inherits_default(dflt: JsonV, tree: JsonV, k: Seq<char>)
    requires
        dflt is Obj,
        keys_unique(dflt->Obj_0),
        tree is Obj,
        keys_unique(tree->Obj_0),
    ensures
        ({
            let resolved = merged(merged(JsonV::Obj(Seq::empty()), dflt), tree);
            &&& (node_field(resolved, k) is Some <==> (node_field(dflt, k) is Some || node_field(
                tree,
                k,
            ) is Some))
            &&& (node_field(dflt, k) is Some && node_field(tree, k) is None ==> node_field(
                resolved,
                k,
            ) == node_field(dflt, k))
            &&& (node_field(dflt, k) is None && node_field(tree, k) is Some ==> node_field(
                resolved,
                k,
            ) == node_field(tree, k))
            &&& (node_field(dflt, k) is Some && node_field(tree, k) is Some ==> node_field(
                resolved,
                k,
            ) == Some(merged(node_field(dflt, k)->0, node_field(tree, k)->0)))
        }),
{
    lemma_resolved_theme_is_merge_onto_default(dflt, tree);
    lemma_merged_right_biased(dflt, tree, k);
}

/// Builders for the (theme name, style tree) pairs an application hands
/// to [`load_styles`].
pub struct StyleSheet {}

impl StyleSheet {
    /// Pairs a style tree with the reserved base theme name "default".
    pub fn default(styles: Json) -> (r: (String, Json))
        ensures
            r.0@ == "default"@,
            jview(r.1) == jview(styles),
    {
        ("default".to_owned(), styles)
    }

    /// Pairs a style tree with the given theme name.
    pub fn theme(name: &str, styles: Json) -> (r: (String, Json))
        ensures
            r.0@ == name@,
            jview(r.1) == jview(styles),
    {
        (name.to_owned(), styles)
    }
}

/// Stores a resolved theme under its name, overwriting in place or
/// appending, as [`entries_put`] says.
fn put_entry(acc: &mut Vec<(String, Json)>, name: String, tree: Json)
    ensures
        entries_view(final(acc)@) == entries_put(entries_view(old(acc)@), name@, jview(tree)),
{
    let idx_opt = index_of_key(acc, &name);
    match idx_opt {
        Some(idx) => {
            proof {
                lemma_entries_index_of(entries_view(old(acc)@), name@);
            }
            acc[idx] = (name, tree);
            proof {
                let ea = entries_view(old(acc)@);
                assert(entries_view(final(acc)@) =~= ea.update(
                    entries_index_of(ea, name@),
                    (name@, jview(tree)),
                ));
            }
        },
        None => {
            acc.push((name, tree));
            proof {
                let ea = entries_view(old(acc)@);
                assert(entries_view(final(acc)@) =~= ea.push((name@, jview(tree))));
            }
        },
    }
}

/// Resolves an ordered list of (theme name, style tree) pairs into the
/// theme table: each theme is stored under its name, deep-merged onto the
/// "default" base as the chosen [`MergePolicy`] directs.
pub fn load_styles(user_styles: Vec<(String, Json)>, policy: MergePolicy) -> (r: Vec<
    (String, Json),
>)
    ensures
        entries_view(r@) == loaded_styles(entries_view(user_styles@), policy),
{
    match policy {
        MergePolicy::Sequential => load_styles_seq(user_styles),
        MergePolicy::DefaultBase => load_styles_base(user_styles),
    }
}

/// The literal, order-dependent loading loop.
#[verifier::loop_isolation(false)]
fn load_styles_seq(user_styles: Vec<(String, Json)>) -> (r: Vec<(String, Json)>)
    ensures
        entries_view(r@) == loaded_styles_seq(Seq::empty(), entries_view(user_styles@), 0),
{
    let default_key: String = "default".to_owned();
    let mut acc: Vec<(String, Json)> = Vec::new();
    proof {
        assert(entries_view(acc@) =~= Seq::empty());
    }
    let mut i: usize = 0;
    while i < user_styles.len()
        invariant
            i <= user_styles@.len(),
            loaded_styles_seq(entries_view(acc@), entries_view(user_styles@), i as int)
                == loaded_styles_seq(Seq::empty(), entries_view(user_styles@), 0),
        decreases user_styles@.len() - i,
    {
        let name = user_styles[i].0.clone();
        let dflt_opt = index_of_key(&acc, &default_key);
        let resolved = match dflt_opt {
            Some(di) => {
                proof {
                    lemma_entries_index_of(entries_view(acc@), "default"@);
                }
                let mut style = Json::Obj(Vec::new());
                proof {
                    assert(entries_view(style->Obj_0@) =~= Seq::empty());
                }
                merge_json_values(&mut style, &acc[di].1);
                merge_json_values(&mut style, &user_styles[i].1);
                style
            },
            None => user_styles[i].1.deep_clone(),
        };
        proof {
            let pv = entries_view(user_styles@);
            assert(pv[i as int] == (user_styles@[i as int].0@, jview(user_styles@[i as int].1)));
        }
        put_entry(&mut acc, name, resolved);
        i = i + 1;
    }
    acc
}

/// The order-independent loading loop.
#[verifier::loop_isolation(false)]
fn load_styles_base(user_styles: Vec<(String, Json)>) -> (r: Vec<(String, Json)>)
    ensures
        entries_view(r@) == loaded_styles_base(Seq::empty(), entries_view(user_styles@), 0),
{
    let default_key: String = "default".to_owned();
    let dflt_opt = index_of_key(&user_styles, &default_key);
    proof {
        lemma_entries_index_of(entries_view(user_styles@), "default"@);
    }
    let mut acc: Vec<(String, Json)> = Vec::new();
    proof {
        assert(entries_view(acc@) =~= Seq::empty());
    }
    let mut i: usize = 0;
    while i < user_styles.len()
        invariant
            i <= user_styles@.len(),
            loaded_styles_base(entries_view(acc@), entries_view(user_styles@), i as int)
                == loaded_styles_base(Seq::empty(), entries_view(user_styles@), 0),
        decreases user_styles@.len() - i,
    {
        let name = user_styles[i].0.clone();
        let is_default = user_styles[i].0 == default_key;
        let resolved = match dflt_opt {
            Some(di) => {
                if is_default {
                    user_styles[i].1.deep_clone()
                } else {
                    let mut style = Json::Obj(Vec::new());
                    proof {
                        assert(entries_view(style->Obj_0@) =~= Seq::empty());
                    }
                    merge_json_values(&mut style, &user_styles[di].1);
                    merge_json_values(&mut style, &user_styles[i].1);
                    style
                }
            },
            None => user_styles[i].1.deep_clone(),
        };
        proof {
            let pv = entries_view(user_styles@);
            assert(pv[i as int] == (user_styles@[i as int].0@, jview(user_styles@[i as int].1)));
        }
        put_entry(&mut acc, name, resolved);
        i = i + 1;
    }
    acc
}

/// The resolved tree of the named theme, if the table holds one.
pub fn style_for_theme<'a>(styles: &'a Vec<(String, Json)>, name: &String) -> (r: Option<
    &'a Json,
>)
    ensures
        match r {
            Some(tree) => entries_has(entries_view(styles@), name@) && jview(*tree) == entries_get(
                entries_view(styles@),
                name@,
            ),
            None => !entries_has(entries_view(styles@), name@),
        },
{
    let idx_opt = index_of_key(styles, name);
    match idx_opt {
        Some(idx) => {
            proof {
                lemma_entries_index_of(entries_view(styles@), name@);
            }
            Some(&styles[idx].1)
        },
        None => None,
    }
}

} // verus!
