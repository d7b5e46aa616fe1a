//! Collects the texts of the locales, one locale at a time.

use vstd::prelude::*;
use crate::catalog::JSONGetText;
use crate::context::{has_extra, is_extra, merged_locales, Context, LocaleMap, Locales, Texts};
use crate::errors::JSONGetTextBuildError;
use crate::json::{parsed_object, Json, JsonView};
use crate::key::Key;
use crate::text_map::TextMap;
use crate::value::JSONGetTextValue;

verus! {

/// The map that the members of a JSON object stand for. Where a key occurs
/// more than once, its last value stays.
pub open spec fn members_texts(members: Seq<(Seq<char>, JsonView)>) -> Texts
    decreases members.len(),
{
    if members.len() == 0 {
        Map::empty()
    } else {
        members_texts(members.drop_last()).insert(members.last().0, members.last().1)
    }
}

/// The texts of the JSON object that `json` is written as, where it is one.
pub open spec fn object_texts(json: Seq<char>) -> Option<Texts> {
    match parsed_object(json) {
        Some(members) => Some(members_texts(members)),
        None => None,
    }
}

/// The locales after the JSON object `json` has been added under `key`: `None`
/// where the key is taken or the text is not a JSON object.
pub open spec fn added_json(locales: Locales, key: Seq<char>, json: Seq<char>) -> Option<Locales> {
    if locales.contains_key(key) || object_texts(json).is_none() {
        None
    } else {
        Some(locales.insert(key, object_texts(json).unwrap()))
    }
}

/// Makes the texts of a locale from the members of a JSON object. Each value is
/// copied, and owned by the result.
pub fn locale_from_members(members: &Vec<(String, Json)>) -> (r: LocaleMap<'static>)
    ensures
        r@ == members_texts(crate::json::members_view(members@)),
{
    let ghost all = crate::json::members_view(members@);
    let mut r: LocaleMap<'static> = TextMap::new();
    let mut i: usize = 0;
    while i < members.len()
        invariant
            i <= members@.len(),
            all == crate::json::members_view(members@),
            r.wf(),
            r@ == members_texts(all.take(i as int)),
        decreases members@.len() - i,
    {
        let key = members[i].0.clone();
        let value = JSONGetTextValue::from_json_value(members[i].1.duplicate());
        proof {
            assert(all.take(i + 1).drop_last() =~= all.take(i as int));
            assert(all.take(i + 1).last() == (key@, value@));
        }
        r.insert(key, value);
        i = i + 1;
    }
    proof {
        assert(all.take(members@.len() as int) =~= all);
    }
    r
}

/// A source file that is watched for changes.
#[derive(Debug, Clone, PartialEq, Eq)]
pub struct TrackedFile {
    /// The locale that the file holds.
    pub key: String,
    /// Where the file is.
    pub path: String,
    /// When the file was last seen modified, as a number that grows with time;
    /// `None` where the time is not known.
    pub modified: Option<u64>,
}

/// Collects locales for a catalog. No locale can be added twice.
#[derive(Debug, Clone)]
pub struct JSONGetTextBuilder<'a> {
    default_key: String,
    context: Context<'a>,
    files: Vec<TrackedFile>,
}

impl<'a> JSONGetTextBuilder<'a> {
    /// The identifier of the default locale.
    pub closed spec fn spec_default_key(&self) -> Seq<char> {
        self.default_key@
    }

    /// The texts of the locales added so far.
    pub closed spec fn locales(&self) -> Locales {
        self.context@
    }

    /// The files that locales were added from, in the order of their addition.
    pub closed spec fn watched(&self) -> Seq<TrackedFile> {
        self.files@
    }

    /// A builder without locales. The default locale is fixed here.
    pub fn new(default_key: &str) -> (r: JSONGetTextBuilder<'a>)
        ensures
            r.spec_default_key() == default_key@,
            r.locales() == Map::<Seq<char>, Texts>::empty(),
            r.watched().len() == 0,
    {
        let context: Context<'a> = TextMap::new();
        proof {
            context.lemma_view();
        }
        JSONGetTextBuilder { default_key: default_key.to_owned(), context, files: Vec::new() }
    }

    /// True when a locale has been added under `key`.
    pub fn contains_key(&self, key: &str) -> (r: bool)
        ensures
            r == self.locales().contains_key(key@),
    {
        self.context.contains_key(key)
    }

    /// Adds the locale `key` with the given texts. A key that the builder
    /// already has is an error, and the builder stays as it was.
    pub fn add_map(&mut self, key: &str, map: LocaleMap<'a>) -> (r: Result<
        (),
        JSONGetTextBuildError,
    >)
        ensures
            final(self).spec_default_key() == old(self).spec_default_key(),
            final(self).watched() == old(self).watched(),
            match r {
                Ok(()) => !old(self).locales().contains_key(key@) && final(self).locales() == old(
                    self,
                ).locales().insert(key@, map@),
                Err(JSONGetTextBuildError::DuplicatedKey(k)) => old(self).locales().contains_key(
                    key@,
                ) && k@ == key@ && *final(self) == *old(self),
                Err(_) => false,
            },
    {
        if self.context.contains_key(key) {
            return Err(JSONGetTextBuildError::DuplicatedKey(Key::new(key)));
        }
        self.context.insert(key.to_owned(), map);
        Ok(())
    }

    /// Adds the locale `key` with the texts of a JSON object. The values are
    /// owned by the builder. A key that the builder already has is an error,
    /// and so is a text that is not a JSON object; the builder then stays as
    /// it was.
    pub fn add_json_owned(&mut self, key: &str, json: &str) -> (r: Result<
        (),
        JSONGetTextBuildError,
    >)
        ensures
            final(self).spec_default_key() == old(self).spec_default_key(),
            final(self).watched() == old(self).watched(),
            match r {
                Ok(()) => !old(self).locales().contains_key(key@) && object_texts(json@).is_some()
                    && final(self).locales() == old(self).locales().insert(
                    key@,
                    object_texts(json@).unwrap(),
                ),
                Err(JSONGetTextBuildError::DuplicatedKey(k)) => old(self).locales().contains_key(
                    key@,
                ) && k@ == key@ && *final(self) == *old(self),
                Err(JSONGetTextBuildError::SerdeJSONError(_)) => !old(self).locales().contains_key(
                    key@,
                ) && object_texts(json@).is_none() && *final(self) == *old(self),
                Err(_) => false,
            },
    {
        if self.context.contains_key(key) {
            return Err(JSONGetTextBuildError::DuplicatedKey(Key::new(key)));
        }
        let members = match Json::parse_object(json) {
            Ok(members) => members,
            Err(e) => {
                return Err(JSONGetTextBuildError::SerdeJSONError(e));
            },
        };
        let map = locale_from_members(&members);
        self.add_map(key, map)
    }

    /// Adds the locale `key` with the texts of a JSON object. A key that the
    /// builder already has is an error, and so is a text that is not a JSON
    /// object; the builder then stays as it was.
    pub fn add_json(&mut self, key: &str, json: &str) -> (r: Result<(), JSONGetTextBuildError>)
        ensures
            final(self).spec_default_key() == old(self).spec_default_key(),
            final(self).watched() == old(self).watched(),
            match r {
                Ok(()) => !old(self).locales().contains_key(key@) && object_texts(json@).is_some()
                    && final(self).locales() == old(self).locales().insert(
                    key@,
                    object_texts(json@).unwrap(),
                ),
                Err(JSONGetTextBuildError::DuplicatedKey(k)) => old(self).locales().contains_key(
                    key@,
                ) && k@ == key@ && *final(self) == *old(self),
                Err(JSONGetTextBuildError::SerdeJSONError(_)) => !old(self).locales().contains_key(
                    key@,
                ) && object_texts(json@).is_none() && *final(self) == *old(self),
                Err(_) => false,
            },
    {
        self.add_json_owned(key, json)
    }

    /// Adds the locale `key` with the texts of a JSON object that was read from
    /// the file at `path`, last modified at `modified`. Where the locale is
    /// added, the file is recorded as watched. A key that the builder already
    /// has is an error, and so is a text that is not a JSON object; the builder
    /// then stays as it was.
    pub fn add_json_file(
        &mut self,
        key: &str,
        path: &str,
        modified: Option<u64>,
        contents: &str,
    ) -> (r: Result<(), JSONGetTextBuildError>)
        ensures
            final(self).spec_default_key() == old(self).spec_default_key(),
            match r {
                Ok(()) => {
                    &&& added_json(old(self).locales(), key@, contents@) == Some(
                        final(self).locales(),
                    )
                    &&& final(self).watched().len() == old(self).watched().len() + 1
                    &&& final(self).watched().drop_last() == old(self).watched()
                    &&& final(self).watched().last().key@ == key@
                    &&& final(self).watched().last().path@ == path@
                    &&& final(self).watched().last().modified == modified
                },
                Err(JSONGetTextBuildError::DuplicatedKey(k)) => old(self).locales().contains_key(
                    key@,
                ) && k@ == key@ && *final(self) == *old(self),
                Err(JSONGetTextBuildError::SerdeJSONError(_)) => !old(self).locales().contains_key(
                    key@,
                ) && object_texts(contents@).is_none() && *final(self) == *old(self),
                Err(_) => false,
            },
    {
        match self.add_json_owned(key, contents) {
            Ok(()) => {},
            Err(e) => {
                return Err(e);
            },
        }
        let ghost before = self.files@;
        self.files.push(TrackedFile { key: key.to_owned(), path: path.to_owned(), modified });
        proof {
            assert(self.files@.drop_last() =~= before);
        }
        Ok(())
    }

    /// The files that locales were added from, in the order of their addition.
    pub fn files(&self) -> (r: &Vec<TrackedFile>)
        ensures
            r@ == self.watched(),
    {
        &self.files
    }

    /// Adds the locale `key` with the members of a JSON value, which must be
    /// an object. A key that the builder already has is an error, and so is a
    /// value that is not an object; the builder then stays as it was.
    pub fn add_serialize(&mut self, key: &str, value: &Json) -> (r: Result<
        (),
        JSONGetTextBuildError,
    >)
        ensures
            final(self).spec_default_key() == old(self).spec_default_key(),
            final(self).watched() == old(self).watched(),
            match r {
                Ok(()) => !old(self).locales().contains_key(key@) && object_texts(
                    value@.text,
                ).is_some() && final(self).locales() == old(self).locales().insert(
                    key@,
                    object_texts(value@.text).unwrap(),
                ),
                Err(JSONGetTextBuildError::DuplicatedKey(k)) => old(self).locales().contains_key(
                    key@,
                ) && k@ == key@ && *final(self) == *old(self),
                Err(JSONGetTextBuildError::SerdeJSONError(_)) => !old(self).locales().contains_key(
                    key@,
                ) && object_texts(value@.text).is_none() && *final(self) == *old(self),
                Err(_) => false,
            },
    {
        self.add_json_owned(key, value.text())
    }

    /// Makes the catalog. The default locale must have been added. A text that
    /// some locale has and the default locale lacks is an error, or is left out
    /// where `ignore_extra_keys` is set.
    pub fn build(self, ignore_extra_keys: bool) -> (r: Result<
        JSONGetText<'a>,
        JSONGetTextBuildError,
    >)
        ensures
            match r {
                Ok(c) => {
                    &&& self.locales().contains_key(self.spec_default_key())
                    &&& ignore_extra_keys || !has_extra(self.locales(), self.spec_default_key())
                    &&& c.spec_default_key() == self.spec_default_key()
                    &&& c.locales() == merged_locales(self.locales(), self.spec_default_key())
                },
                Err(JSONGetTextBuildError::DefaultKeyNotFound) => !self.locales().contains_key(
                    self.spec_default_key(),
                ),
                Err(JSONGetTextBuildError::TextInKeyNotInDefaultKey { key, text }) => {
                    &&& self.locales().contains_key(self.spec_default_key())
                    &&& !ignore_extra_keys
                    &&& is_extra(self.locales(), self.spec_default_key(), key@, text@)
                },
                Err(_) => false,
            },
    {
        JSONGetText::from_context_with_default_key(self.default_key, ignore_extra_keys, self.context)
    }
}

/// Duplicate rejection: once a locale has been added under a key, the locales
/// have that key, so that a second addition under it is refused, and the texts
/// under the key are those that were added first.
pub proof fn lemma_added_key_is_taken(locales: Locales, key: Seq<char>, texts: Texts)
    ensures
        locales.insert(key, texts).contains_key(key),
        locales.insert(key, texts)[key] == texts,
{
}

} // verus!
