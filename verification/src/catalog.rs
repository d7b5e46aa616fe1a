//! The catalog: the merged texts of every locale, and the lookups on them.

use vstd::prelude::*;
use crate::builder::JSONGetTextBuilder;
use crate::context::{
    duplicate_context, first_extra_text, has_extra, is_extra, merge_locale, merged_locales, merged_texts,
    Context, LocaleMap, Locales, Texts,
};
use crate::errors::JSONGetTextBuildError;
use crate::key::Key;
use crate::pattern::{pattern_matches, Pattern};
use crate::text_map::TextMap;
use crate::value::JSONGetTextValue;

verus! {

/// The texts of `texts` under the keys asked for.
pub open spec fn requested_texts(keys: Seq<&str>, texts: Texts) -> Texts {
    Map::new(
        |k: Seq<char>| exists|i: int| 0 <= i < keys.len() && (#[trigger] keys[i])@ == k,
        |k: Seq<char>| texts[k],
    )
}

/// The texts of `texts` whose key the regular expression matches.
pub open spec fn filtered_texts(source: Seq<char>, texts: Texts) -> Texts {
    Map::new(
        |k: Seq<char>| texts.contains_key(k) && pattern_matches(source, k),
        |k: Seq<char>| texts[k],
    )
}

/// The texts of `texts` whose position is marked in `chosen`.
pub open spec fn selected_texts(texts: &LocaleMap, chosen: Seq<bool>) -> Texts {
    Map::new(
        |k: Seq<char>| texts@.contains_key(k) && chosen[texts.index_of(k)],
        |k: Seq<char>| texts@[k],
    )
}

/// Borrows from `texts` the entries whose position is marked in `chosen`.
pub fn select_texts<'b, 'a>(texts: &'b LocaleMap<'a>, chosen: &Vec<bool>) -> (r: LocaleMap<'b>)
    requires
        chosen@.len() == texts.spec_len(),
    ensures
        r@ == selected_texts(texts, chosen@),
{
    proof {
        use_type_invariant(texts);
    }
    let mut r: LocaleMap<'b> = TextMap::new();
    let mut i: usize = 0;
    while i < texts.len()
        invariant
            i <= texts.spec_len(),
            chosen@.len() == texts.spec_len(),
            texts.wf(),
            r.wf(),
            forall|k: Seq<char>|
                r@.contains_key(k) <==> (exists|j: int|
                    0 <= j < i && chosen@[j] && #[trigger] texts.spec_key(j) == k),
            forall|k: Seq<char>| r@.contains_key(k) ==> #[trigger] r@[k] == texts@[k],
        decreases texts.spec_len() - i,
    {
        proof {
            texts.lemma_entry(i as int);
            texts.lemma_view();
        }
        if chosen[i] {
            let ghost before = r@;
            r.insert(texts.key_at(i).clone(), texts.value_at(i).clone_borrowed());
            proof {
                assert forall|k: Seq<char>| r@.contains_key(k) <==> (exists|j: int|
                    0 <= j < i + 1 && chosen@[j] && #[trigger] texts.spec_key(j) == k) by {
                    if r@.contains_key(k) {
                        if k == texts.spec_key(i as int) {
                            assert(chosen@[i as int] && texts.spec_key(i as int) == k);
                        } else {
                            assert(before.contains_key(k));
                        }
                    }
                    if exists|j: int|
                        0 <= j < i + 1 && chosen@[j] && #[trigger] texts.spec_key(j) == k {
                        let j = choose|j: int|
                            0 <= j < i + 1 && chosen@[j] && #[trigger] texts.spec_key(j) == k;
                        if j < i {
                            assert(before.contains_key(k));
                        }
                    }
                }
            }
        }
        i = i + 1;
    }
    proof {
        assert forall|k: Seq<char>| r@.contains_key(k) == selected_texts(
            texts,
            chosen@,
        ).contains_key(k) by {
            if r@.contains_key(k) {
                let j = choose|j: int|
                    0 <= j < i && chosen@[j] && #[trigger] texts.spec_key(j) == k;
                texts.lemma_entry(j);
                texts.lemma_view();
            }
            if selected_texts(texts, chosen@).contains_key(k) {
                texts.lemma_view();
                texts.lemma_has(k);
                assert(texts.spec_key(texts.index_of(k)) == k);
            }
        }
        assert(r@ =~= selected_texts(texts, chosen@));
    }
    r
}

/// Borrows from `texts` the values under the keys asked for, or nothing at all
/// where one of the keys is missing.
pub fn request_texts<'b, 'a>(texts: &'b LocaleMap<'a>, text_array: &[&str]) -> (r: Option<
    LocaleMap<'b>,
>)
    ensures
        match r {
            Some(m) => m@ == requested_texts(text_array@, texts@) && forall|i: int|
                0 <= i < text_array@.len() ==> texts@.contains_key((#[trigger] text_array@[i])@),
            None => exists|i: int|
                0 <= i < text_array@.len() && !texts@.contains_key((#[trigger] text_array@[i])@),
        },
{
    proof {
        use_type_invariant(texts);
    }
    let mut r: LocaleMap<'b> = TextMap::new();
    let mut i: usize = 0;
    while i < text_array.len()
        invariant
            i <= text_array@.len(),
            texts.wf(),
            r.wf(),
            forall|j: int| 0 <= j < i ==> texts@.contains_key((#[trigger] text_array@[j])@),
            forall|k: Seq<char>|
                r@.contains_key(k) <==> (exists|j: int|
                    0 <= j < i && (#[trigger] text_array@[j])@ == k),
            forall|k: Seq<char>| r@.contains_key(k) ==> #[trigger] r@[k] == texts@[k],
        decreases text_array@.len() - i,
    {
        let text: &str = text_array[i];
        match texts.get(text) {
            None => {
                return None;
            },
            Some(value) => {
                let ghost before = r@;
                r.insert(text.to_owned(), value.clone_borrowed());
                proof {
                    assert forall|k: Seq<char>| r@.contains_key(k) <==> (exists|j: int|
                        0 <= j < i + 1 && (#[trigger] text_array@[j])@ == k) by {
                        if r@.contains_key(k) {
                            if k == text@ {
                                assert(text_array@[i as int]@ == k);
                            } else {
                                assert(before.contains_key(k));
                            }
                        }
                        if exists|j: int| 0 <= j < i + 1 && (#[trigger] text_array@[j])@ == k {
                            let j = choose|j: int|
                                0 <= j < i + 1 && (#[trigger] text_array@[j])@ == k;
                            if j < i {
                                assert(before.contains_key(k));
                            }
                        }
                    }
                }
            },
        }
        i = i + 1;
    }
    proof {
        assert(r@ =~= requested_texts(text_array@, texts@));
    }
    Some(r)
}

/// Borrows from `texts` the entries whose key the regular expression matches.
pub fn filter_texts<'b, 'a>(texts: &'b LocaleMap<'a>, pattern: &Pattern) -> (r: LocaleMap<'b>)
    ensures
        r@ == filtered_texts(pattern@, texts@),
{
    proof {
        use_type_invariant(texts);
    }
    let mut chosen: Vec<bool> = Vec::new();
    let mut i: usize = 0;
    while i < texts.len()
        invariant
            i <= texts.spec_len(),
            chosen@.len() == i,
            forall|j: int|
                0 <= j < i ==> chosen@[j] == pattern_matches(pattern@, #[trigger] texts.spec_key(j)),
        decreases texts.spec_len() - i,
    {
        chosen.push(pattern.is_match(texts.key_at(i).as_str()));
        i = i + 1;
    }
    let r = select_texts(texts, &chosen);
    proof {
        texts.lemma_view();
        assert forall|k: Seq<char>| r@.contains_key(k) == filtered_texts(
            pattern@,
            texts@,
        ).contains_key(k) by {
            if texts@.contains_key(k) {
                texts.lemma_has(k);
            }
        }
        assert(r@ =~= filtered_texts(pattern@, texts@));
    }
    r
}

/// The texts of every locale, merged with those of the default locale. The
/// default locale is among the locales, and every locale has exactly the keys
/// of the default locale.
#[derive(Debug)]
pub struct JSONGetText<'a> {
    default_key: String,
    context: Context<'a>,
}

impl<'a> JSONGetText<'a> {
    #[verifier::type_invariant]
    spec fn inv(&self) -> bool {
        &&& self.context@.contains_key(self.default_key@)
        &&& forall|l: Seq<char>, k: Seq<char>|
            self.context@.contains_key(l) ==> (#[trigger] self.context@[l].contains_key(k)
                <==> self.context@[self.default_key@].contains_key(k))
    }

    /// The identifier of the default locale.
    pub closed spec fn spec_default_key(&self) -> Seq<char> {
        self.default_key@
    }

    /// The texts of every locale.
    pub closed spec fn locales(&self) -> Locales {
        self.context@
    }

    /// The texts that a lookup under `key` reads: those of the locale `key`
    /// where the catalog has it, else those of the default locale.
    pub open spec fn texts_for(&self, key: Seq<char>) -> Texts {
        if self.locales().contains_key(key) {
            self.locales()[key]
        } else {
            self.locales()[self.spec_default_key()]
        }
    }

    /// The texts of the default locale.
    pub open spec fn default_texts(&self) -> Texts {
        self.locales()[self.spec_default_key()]
    }

    /// Starts a builder for a catalog with the given default locale.
    pub fn build(default_key: &str) -> (r: JSONGetTextBuilder<'a>)
        ensures
            r.spec_default_key() == default_key@,
            r.locales() == Map::<Seq<char>, Texts>::empty(),
    {
        JSONGetTextBuilder::new(default_key)
    }

    /// Makes the catalog of the given locales. The default locale must be among
    /// them. A text that some locale has and the default locale lacks is an
    /// error, or is left out where `ignore_extra_keys` is set. Every locale is
    /// then filled up with the texts of the default locale that it lacks.
    pub fn from_context_with_default_key(
        default_key: String,
        ignore_extra_keys: bool,
        context: Context<'a>,
    ) -> (r: Result<JSONGetText<'a>, JSONGetTextBuildError>)
        ensures
            match r {
                Ok(c) => {
                    &&& context@.contains_key(default_key@)
                    &&& ignore_extra_keys || !has_extra(context@, default_key@)
                    &&& c.spec_default_key() == default_key@
                    &&& c.locales() == merged_locales(context@, default_key@)
                },
                Err(JSONGetTextBuildError::DefaultKeyNotFound) => !context@.contains_key(
                    default_key@,
                ),
                Err(JSONGetTextBuildError::TextInKeyNotInDefaultKey { key, text }) => {
                    &&& context@.contains_key(default_key@)
                    &&& !ignore_extra_keys
                    &&& is_extra(context@, default_key@, key@, text@)
                },
                Err(_) => false,
            },
    {
        proof {
            use_type_invariant(&context);
        }
        let d = match context.position(default_key.as_str()) {
            Some(d) => d,
            None => {
                return Err(JSONGetTextBuildError::DefaultKeyNotFound);
            },
        };
        proof {
            context.lemma_entry(d as int);
            context.lemma_view();
        }
        let defaults = context.value_at(d);
        let mut merged: Context<'a> = TextMap::new();
        proof {
            use_type_invariant(defaults);
        }
        let mut i: usize = 0;
        while i < context.len()
            invariant
                i <= context.spec_len(),
                context.wf(),
                d < context.spec_len(),
                context.spec_key(d as int) == default_key@,
                *defaults == context.spec_value(d as int),
                defaults.wf(),
                defaults@ == context@[default_key@],
                merged.wf(),
                forall|l: Seq<char>|
                    merged@.contains_key(l) <==> (exists|j: int|
                        0 <= j < i && #[trigger] context.spec_key(j) == l),
                forall|l: Seq<char>|
                    merged@.contains_key(l) ==> #[trigger] merged@[l] == merged_texts(
                        context@[l],
                        context@[default_key@],
                    ),
                !ignore_extra_keys ==> forall|j: int, k: Seq<char>|
                    0 <= j < i ==> !#[trigger] is_extra(
                        context@,
                        default_key@,
                        context.spec_key(j),
                        k,
                    ),
            decreases context.spec_len() - i,
        {
            proof {
                context.lemma_entry(i as int);
                context.lemma_view();
            }
            let texts = context.value_at(i);
            if !ignore_extra_keys {
                match first_extra_text(texts, defaults) {
                    Some(t) => {
                        return Err(
                            JSONGetTextBuildError::TextInKeyNotInDefaultKey {
                                key: Key::new(context.key_at(i).as_str()),
                                text: texts.key_at(t).clone(),
                            },
                        );
                    },
                    None => {},
                }
            }
            let locale = merge_locale(texts, defaults);
            let ghost before = merged;
            merged.insert(context.key_at(i).clone(), locale);
            proof {
                let key = context.spec_key(i as int);
                merged.lemma_view();
                before.lemma_view();
                assert forall|l: Seq<char>| merged@.contains_key(l) <==> (exists|j: int|
                    0 <= j < i + 1 && #[trigger] context.spec_key(j) == l) by {
                    if merged@.contains_key(l) {
                        if l == key {
                            assert(context.spec_key(i as int) == l);
                        } else {
                            assert(before@.contains_key(l));
                        }
                    }
                    if exists|j: int| 0 <= j < i + 1 && #[trigger] context.spec_key(j) == l {
                        let j = choose|j: int|
                            0 <= j < i + 1 && #[trigger] context.spec_key(j) == l;
                        if j < i {
                            assert(before@.contains_key(l));
                        }
                    }
                }
            }
            i = i + 1;
        }
        proof {
            context.lemma_view();
            merged.lemma_view();
            assert forall|l: Seq<char>| merged@.contains_key(l) == context@.contains_key(l) by {
                if context@.contains_key(l) {
                    context.lemma_has(l);
                }
            }
            assert(merged@ =~= merged_locales(context@, default_key@));
            if !ignore_extra_keys {
                assert forall|l: Seq<char>, k: Seq<char>| !is_extra(
                    context@,
                    default_key@,
                    l,
                    k,
                ) by {
                    if context@.contains_key(l) {
                        context.lemma_has(l);
                        assert(context.spec_key(context.index_of(l)) == l);
                    }
                }
            }
            assert(merged@[default_key@] =~= context@[default_key@]);
        }
        Ok(JSONGetText { default_key, context: merged })
    }

    /// Puts `map` in the place of the texts of the locale `key`, or adds the
    /// locale where the catalog has none under that key, and merges anew. A text
    /// that a locale then has and the default locale lacks is an error, or is
    /// left out where `ignore_extra_keys` is set. On an error the catalog stays
    /// as it was.
    pub fn set(&mut self, key: &str, map: LocaleMap<'a>, ignore_extra_keys: bool) -> (r: Result<
        (),
        JSONGetTextBuildError,
    >)
        ensures
            final(self).spec_default_key() == old(self).spec_default_key(),
            match r {
                Ok(()) => {
                    &&& ignore_extra_keys || !has_extra(
                        old(self).locales().insert(key@, map@),
                        old(self).spec_default_key(),
                    )
                    &&& final(self).locales() == merged_locales(
                        old(self).locales().insert(key@, map@),
                        old(self).spec_default_key(),
                    )
                },
                Err(JSONGetTextBuildError::TextInKeyNotInDefaultKey { key: locale, text }) => {
                    &&& !ignore_extra_keys
                    &&& is_extra(
                        old(self).locales().insert(key@, map@),
                        old(self).spec_default_key(),
                        locale@,
                        text@,
                    )
                    &&& *final(self) == *old(self)
                },
                Err(_) => false,
            },
    {
        proof {
            use_type_invariant(&*self);
        }
        let mut context = duplicate_context(&self.context);
        context.insert(key.to_owned(), map);
        match Self::from_context_with_default_key(
            self.default_key.clone(),
            ignore_extra_keys,
            context,
        ) {
            Ok(catalog) => {
                *self = catalog;
                Ok(())
            },
            Err(e) => Err(e),
        }
    }

    /// The identifiers of all locales, each once.
    pub fn get_keys(&self) -> (r: Vec<&str>)
        ensures
            forall|i: int| 0 <= i < r@.len() ==> self.locales().contains_key((#[trigger] r@[i])@),
            forall|l: Seq<char>|
                self.locales().contains_key(l) ==> exists|i: int|
                    0 <= i < r@.len() && (#[trigger] r@[i])@ == l,
            forall|i: int, j: int| 0 <= i < j < r@.len() ==> r@[i]@ != r@[j]@,
    {
        proof {
            use_type_invariant(self);
            use_type_invariant(&self.context);
            self.context.lemma_view();
        }
        let mut r: Vec<&str> = Vec::new();
        let mut i: usize = 0;
        while i < self.context.len()
            invariant
                i <= self.context.spec_len(),
                self.context.wf(),
                r@.len() == i,
                forall|j: int| 0 <= j < i ==> (#[trigger] r@[j])@ == self.context.spec_key(j),
            decreases self.context.spec_len() - i,
        {
            r.push(self.context.key_at(i).as_str());
            i = i + 1;
        }
        proof {
            assert forall|j: int| 0 <= j < r@.len() implies self.locales().contains_key(
                (#[trigger] r@[j])@,
            ) by {
                self.context.lemma_entry(j);
            }
            assert forall|l: Seq<char>| self.locales().contains_key(l) implies exists|j: int|
                0 <= j < r@.len() && (#[trigger] r@[j])@ == l by {
                self.context.lemma_has(l);
                assert(r@[self.context.index_of(l)]@ == l);
            }
        }
        r
    }

    /// True when the catalog has the locale `key`.
    pub fn contains_key(&self, key: &str) -> (r: bool)
        ensures
            r == self.locales().contains_key(key@),
    {
        self.context.contains_key(key)
    }

    /// The identifier of the default locale.
    pub fn get_default_key(&self) -> (r: &str)
        ensures
            r@ == self.spec_default_key(),
            self.locales().contains_key(r@),
    {
        proof {
            use_type_invariant(self);
        }
        self.default_key.as_str()
    }

    /// The texts of the locale `key`, or those of the default locale where the
    /// catalog has no such locale.
    pub fn get(&self, key: &str) -> (r: &LocaleMap<'a>)
        ensures
            r@ == self.texts_for(key@),
            r@.dom() == self.default_texts().dom(),
    {
        proof {
            use_type_invariant(self);
            use_type_invariant(&self.context);
            self.context.lemma_view();
        }
        let i = match self.context.position(key) {
            Some(i) => i,
            None => {
                let d = self.context.position(self.default_key.as_str());
                d.unwrap()
            },
        };
        proof {
            self.context.lemma_entry(i as int);
            assert(self.context@[self.context.spec_key(i as int)].dom()
                =~= self.context@[self.default_key@].dom());
        }
        self.context.value_at(i)
    }

    /// The text `text` of the default locale.
    pub fn get_text<'b>(&'b self, text: &str) -> (r: Option<JSONGetTextValue<'b>>)
        ensures
            match r {
                Some(v) => self.default_texts().contains_key(text@) && v@
                    == self.default_texts()[text@],
                None => !self.default_texts().contains_key(text@),
            },
    {
        let texts = self.get(self.get_default_key());
        match texts.get(text) {
            Some(v) => Some(v.clone_borrowed()),
            None => None,
        }
    }

    /// The text `text` of the locale `key`, or of the default locale where the
    /// catalog has no locale `key`.
    pub fn get_text_with_key<'b>(&'b self, key: &str, text: &str) -> (r: Option<
        JSONGetTextValue<'b>,
    >)
        ensures
            match r {
                Some(v) => self.texts_for(key@).contains_key(text@) && v@ == self.texts_for(
                    key@,
                )[text@],
                None => !self.texts_for(key@).contains_key(text@),
            },
            r.is_some() == self.default_texts().contains_key(text@),
    {
        let texts = self.get(key);
        match texts.get(text) {
            Some(v) => Some(v.clone_borrowed()),
            None => None,
        }
    }

    /// Several texts of the default locale at once: all of them, or `None`
    /// where the locale lacks one.
    pub fn get_multiple_text<'b>(&'b self, text_array: &[&str]) -> (r: Option<LocaleMap<'b>>)
        ensures
            match r {
                Some(m) => m@ == requested_texts(text_array@, self.default_texts())
                    && forall|i: int|
                    0 <= i < text_array@.len() ==> self.default_texts().contains_key(
                        (#[trigger] text_array@[i])@,
                    ),
                None => exists|i: int|
                    0 <= i < text_array@.len() && !self.default_texts().contains_key(
                        (#[trigger] text_array@[i])@,
                    ),
            },
    {
        request_texts(self.get(self.get_default_key()), text_array)
    }

    /// Several texts of the locale `key` at once, or of the default locale where
    /// the catalog has no locale `key`: all of them, or `None` where the locale
    /// lacks one.
    pub fn get_multiple_text_with_key<'b>(&'b self, key: &str, text_array: &[&str]) -> (r:
        Option<LocaleMap<'b>>)
        ensures
            match r {
                Some(m) => m@ == requested_texts(text_array@, self.texts_for(key@))
                    && forall|i: int|
                    0 <= i < text_array@.len() ==> self.texts_for(key@).contains_key(
                        (#[trigger] text_array@[i])@,
                    ),
                None => exists|i: int|
                    0 <= i < text_array@.len() && !self.texts_for(key@).contains_key(
                        (#[trigger] text_array@[i])@,
                    ),
            },
    {
        request_texts(self.get(key), text_array)
    }

    /// The texts of the default locale whose key the regular expression
    /// matches. The result is always `Some`, of an empty map where no key
    /// matches.
    pub fn get_filtered_text<'b>(&'b self, pattern: &Pattern) -> (r: Option<LocaleMap<'b>>)
        ensures
            r.is_some(),
            r.unwrap()@ == filtered_texts(pattern@, self.default_texts()),
    {
        Some(filter_texts(self.get(self.get_default_key()), pattern))
    }

    /// The texts of the locale `key`, or of the default locale where the catalog
    /// has no locale `key`, whose key the regular expression matches. The result
    /// is always `Some`, of an empty map where no key matches.
    pub fn get_filtered_text_with_key<'b>(&'b self, key: &str, pattern: &Pattern) -> (r: Option<
        LocaleMap<'b>,
    >)
        ensures
            r.is_some(),
            r.unwrap()@ == filtered_texts(pattern@, self.texts_for(key@)),
    {
        Some(filter_texts(self.get(key), pattern))
    }
}

/// Locale fallback: a lookup under a locale that the catalog lacks reads the
/// same texts as a lookup under the default locale.
pub proof fn lemma_unknown_locale_reads_default(catalog: &JSONGetText, unknown: Seq<char>)
    requires
        !catalog.locales().contains_key(unknown),
    ensures
        catalog.texts_for(unknown) == catalog.texts_for(catalog.spec_default_key()),
        catalog.texts_for(unknown) == catalog.default_texts(),
{
}

/// Batch lookups are all or nothing: the texts handed out for a list of keys
/// are defined exactly on the keys asked for, so none is left out.
pub proof fn lemma_requested_texts_complete(keys: Seq<&str>, texts: Texts, i: int)
    requires
        0 <= i < keys.len(),
    ensures
        requested_texts(keys, texts).contains_key(keys[i]@),
        requested_texts(keys, texts)[keys[i]@] == texts[keys[i]@],
{
}

} // verus!
