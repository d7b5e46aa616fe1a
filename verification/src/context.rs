//! The texts of the locales before and after they are merged with the default
//! locale.

use vstd::prelude::*;
use crate::json::JsonView;
use crate::text_map::TextMap;
use crate::value::JSONGetTextValue;

verus! {

/// The texts of one locale: from the key of a text to its value.
pub type LocaleMap<'a> = TextMap<JSONGetTextValue<'a>>;

/// The locales: from the identifier of a locale to its texts.
pub type Context<'a> = TextMap<LocaleMap<'a>>;

/// The texts of one locale, as a mathematical map.
pub type Texts = Map<Seq<char>, JsonView>;

/// The locales, as a mathematical map.
pub type Locales = Map<Seq<char>, Texts>;

/// A locale's texts after the merge: exactly the keys of the default locale,
/// each with the locale's own value where it has one and the default's value
/// where it has none.
pub open spec fn merged_texts(texts: Texts, defaults: Texts) -> Texts {
    Map::new(
        |k: Seq<char>| defaults.contains_key(k),
        |k: Seq<char>|
            if texts.contains_key(k) {
                texts[k]
            } else {
                defaults[k]
            },
    )
}

/// Every locale after the merge with the default locale.
pub open spec fn merged_locales(locales: Locales, default_key: Seq<char>) -> Locales {
    Map::new(
        |l: Seq<char>| locales.contains_key(l),
        |l: Seq<char>| merged_texts(locales[l], locales[default_key]),
    )
}

/// True when the locale `l` has the text `k` while the default locale lacks it.
pub open spec fn is_extra(locales: Locales, default_key: Seq<char>, l: Seq<char>, k: Seq<char>) -> bool {
    &&& locales.contains_key(l)
    &&& locales[l].contains_key(k)
    &&& !locales[default_key].contains_key(k)
}

/// True when some locale has a text that the default locale lacks.
pub open spec fn has_extra(locales: Locales, default_key: Seq<char>) -> bool {
    exists|l: Seq<char>, k: Seq<char>| is_extra(locales, default_key, l, k)
}

/// Default backfill: a text that a locale lacks and the default locale has
/// stands in the merged locale with the default's value, and a text that both
/// have keeps the locale's own value.
pub proof fn lemma_merge_backfills(locales: Locales, default_key: Seq<char>, l: Seq<char>, k: Seq<char>)
    requires
        locales.contains_key(default_key),
        locales.contains_key(l),
        locales[default_key].contains_key(k),
    ensures
        merged_locales(locales, default_key)[l].contains_key(k),
        !locales[l].contains_key(k) ==> merged_locales(locales, default_key)[l][k]
            == locales[default_key][k],
        locales[l].contains_key(k) ==> merged_locales(locales, default_key)[l][k] == locales[l][k],
{
}

/// After the merge every locale has exactly the keys of the default locale, so a
/// text that the default locale lacks is in no merged locale.
pub proof fn lemma_merge_keeps_default_keys(locales: Locales, default_key: Seq<char>, l: Seq<char>)
    requires
        locales.contains_key(default_key),
        locales.contains_key(l),
    ensures
        merged_locales(locales, default_key).contains_key(l),
        merged_locales(locales, default_key)[l].dom() == locales[default_key].dom(),
        merged_locales(locales, default_key)[default_key] == locales[default_key],
{
    assert(merged_locales(locales, default_key)[l].dom() =~= locales[default_key].dom());
    assert(merged_locales(locales, default_key)[default_key] =~= locales[default_key]);
}

/// Position of the first text of `texts` that `defaults` lacks.
pub fn first_extra_text<'a>(texts: &LocaleMap<'a>, defaults: &LocaleMap<'a>) -> (r: Option<usize>)
    ensures
        match r {
            Some(i) => i < texts.spec_len() && texts@.contains_key(texts.spec_key(i as int))
                && !defaults@.contains_key(texts.spec_key(i as int)),
            None => forall|k: Seq<char>| texts@.contains_key(k) ==> defaults@.contains_key(k),
        },
{
    proof {
        use_type_invariant(texts);
        use_type_invariant(defaults);
    }
    let mut i: usize = 0;
    while i < texts.len()
        invariant
            i <= texts.spec_len(),
            texts.wf(),
            defaults.wf(),
            forall|j: int| 0 <= j < i ==> defaults@.contains_key(#[trigger] texts.spec_key(j)),
        decreases texts.spec_len() - i,
    {
        if !defaults.contains_key(texts.key_at(i).as_str()) {
            proof {
                texts.lemma_entry(i as int);
            }
            return Some(i);
        }
        i = i + 1;
    }
    proof {
        assert forall|k: Seq<char>| texts@.contains_key(k) implies defaults@.contains_key(k) by {
            texts.lemma_has(k);
        }
    }
    None
}

/// Merges the texts of one locale with those of the default locale: the result
/// has the keys of the default locale, with the locale's own value where it has
/// one and a copy of the default's value where it has none.
pub fn merge_locale<'a>(texts: &LocaleMap<'a>, defaults: &LocaleMap<'a>) -> (r: LocaleMap<'a>)
    ensures
        r@ == merged_texts(texts@, defaults@),
{
    proof {
        use_type_invariant(texts);
        use_type_invariant(defaults);
    }
    let mut r: LocaleMap<'a> = TextMap::new();
    let mut i: usize = 0;
    while i < defaults.len()
        invariant
            i <= defaults.spec_len(),
            texts.wf(),
            defaults.wf(),
            r.wf(),
            forall|k: Seq<char>|
                r@.contains_key(k) <==> (exists|j: int|
                    0 <= j < i && #[trigger] defaults.spec_key(j) == k),
            forall|k: Seq<char>|
                r@.contains_key(k) ==> #[trigger] r@[k] == merged_texts(texts@, defaults@)[k],
        decreases defaults.spec_len() - i,
    {
        let key = defaults.key_at(i);
        proof {
            defaults.lemma_entry(i as int);
            defaults.lemma_view();
        }
        let value = match texts.get(key.as_str()) {
            Some(v) => v.duplicate(),
            None => defaults.value_at(i).duplicate(),
        };
        let ghost before = r@;
        r.insert(key.clone(), value);
        proof {
            assert forall|k: Seq<char>| r@.contains_key(k) <==> (exists|j: int|
                0 <= j < i + 1 && #[trigger] defaults.spec_key(j) == k) by {
                if r@.contains_key(k) {
                    if k == key@ {
                        assert(defaults.spec_key(i as int) == k);
                    } else {
                        assert(before.contains_key(k));
                    }
                }
                if exists|j: int| 0 <= j < i + 1 && #[trigger] defaults.spec_key(j) == k {
                    let j = choose|j: int| 0 <= j < i + 1 && #[trigger] defaults.spec_key(j) == k;
                    if j < i {
                        assert(before.contains_key(k));
                    }
                }
            }
        }
        i = i + 1;
    }
    proof {
        assert forall|k: Seq<char>| r@.contains_key(k) == defaults@.contains_key(k) by {
            if defaults@.contains_key(k) {
                defaults.lemma_has(k);
            }
        }
        assert(r@ =~= merged_texts(texts@, defaults@));
    }
    r
}

/// Copies the locales one by one.
pub fn duplicate_context<'a>(context: &Context<'a>) -> (r: Context<'a>)
    ensures
        r@ == context@,
{
    let mut r: Context<'a> = TextMap::new();
    let mut i: usize = 0;
    proof {
        use_type_invariant(context);
        r.lemma_view();
    }
    while i < context.len()
        invariant
            i <= context.spec_len(),
            context.wf(),
            r.wf(),
            forall|l: Seq<char>|
                r@.contains_key(l) <==> (exists|j: int|
                    0 <= j < i && #[trigger] context.spec_key(j) == l),
            forall|l: Seq<char>| r@.contains_key(l) ==> #[trigger] r@[l] == context@[l],
        decreases context.spec_len() - i,
    {
        proof {
            context.lemma_entry(i as int);
            context.lemma_view();
        }
        let texts = context.value_at(i);
        let copy = merge_locale(texts, texts);
        assert(copy@ =~= texts@);
        let ghost before = r;
        r.insert(context.key_at(i).clone(), copy);
        proof {
            let key = context.spec_key(i as int);
            r.lemma_view();
            before.lemma_view();
            assert forall|l: Seq<char>| r@.contains_key(l) <==> (exists|j: int|
                0 <= j < i + 1 && #[trigger] context.spec_key(j) == l) by {
                if r@.contains_key(l) {
                    if l == key {
                        assert(context.spec_key(i as int) == l);
                    } else {
                        assert(before@.contains_key(l));
                    }
                }
                if exists|j: int| 0 <= j < i + 1 && #[trigger] context.spec_key(j) == l {
                    let j = choose|j: int| 0 <= j < i + 1 && #[trigger] context.spec_key(j) == l;
                    if j < i {
                        assert(before@.contains_key(l));
                    }
                }
            }
        }
        i = i + 1;
    }
    proof {
        context.lemma_view();
        assert forall|l: Seq<char>| r@.contains_key(l) == context@.contains_key(l) by {
            if context@.contains_key(l) {
                context.lemma_has(l);
            }
        }
        assert(r@ =~= context@);
    }
    r
}

} // verus!
