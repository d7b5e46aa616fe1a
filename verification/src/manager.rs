//! Keeps a catalog up to date with the files it was read from.
//!
//! The manager does no input or output itself. Its caller looks at the files
//! and hands over what it found; the manager decides what to do with it.

use vstd::prelude::*;
use vstd::pervasive::unreached;
use crate::builder::{added_json, JSONGetTextBuilder, TrackedFile};
use crate::catalog::JSONGetText;
use crate::context::{has_extra, is_extra, merged_locales, Locales, Texts};
use crate::errors::JSONGetTextBuildError;
use crate::text_map::TextMap;

verus! {

/// A source file together with what was read from it.
#[derive(Debug)]
pub struct LoadedFile {
    /// The locale that the file holds.
    pub key: String,
    /// Where the file is.
    pub path: String,
    /// When the file was modified, as a number that grows with time; `None`
    /// where the time is not known.
    pub modified: Option<u64>,
    /// The text of the file.
    pub contents: String,
}

/// True when a file must be read again: its time of modification is later than
/// the one last seen, or one of the two is not known.
pub open spec fn is_stale(seen: Option<u64>, found: Option<u64>) -> bool {
    match (seen, found) {
        (Some(a), Some(b)) => b > a,
        _ => true,
    }
}

/// A watched file after a look at it: a stale file takes the time found, and
/// any other file stays as it is.
pub open spec fn refreshed_file(file: TrackedFile, found: Option<u64>) -> TrackedFile {
    if is_stale(file.modified, found) {
        TrackedFile { key: file.key, path: file.path, modified: found }
    } else {
        file
    }
}

/// The time of modification that a look at a file found.
pub open spec fn found_time<E>(stat: Result<Option<u64>, E>) -> Option<u64> {
    match stat {
        Ok(t) => t,
        Err(_) => None,
    }
}

/// True when the look at the `i`-th file failed.
pub open spec fn look_failed<E>(stats: Seq<Result<Option<u64>, E>>, i: int) -> bool {
    0 <= i < stats.len() && stats[i].is_err()
}

/// The number of looks before the first that failed.
pub open spec fn looks_before_failure<E>(stats: Seq<Result<Option<u64>, E>>) -> int
    decreases stats.len(),
{
    if stats.len() == 0 {
        0
    } else if stats[0].is_err() {
        0
    } else {
        1 + looks_before_failure(stats.drop_first())
    }
}

/// The watched files after the first `n` of them have been looked at.
pub open spec fn refreshed_files<E>(
    files: Seq<TrackedFile>,
    stats: Seq<Result<Option<u64>, E>>,
    n: int,
) -> Seq<TrackedFile> {
    Seq::new(
        files.len(),
        |i: int|
            if i < n && stats[i].is_ok() {
                refreshed_file(files[i], found_time(stats[i]))
            } else {
                files[i]
            },
    )
}

/// True when one of the first `n` files is stale.
pub open spec fn any_stale<E>(
    files: Seq<TrackedFile>,
    stats: Seq<Result<Option<u64>, E>>,
    n: int,
) -> bool {
    exists|i: int|
        0 <= i < n && (#[trigger] stats[i]).is_ok() && is_stale(
            files[i].modified,
            found_time(stats[i]),
        )
}

/// The locales that a list of JSON objects gives, added one by one under
/// their keys: `None` where a key occurs twice or a text is not a JSON object.
pub open spec fn loaded_locales(keys: Seq<Seq<char>>, texts: Seq<Seq<char>>) -> Option<Locales>
    decreases keys.len(),
{
    if keys.len() == 0 {
        Some(Map::empty())
    } else {
        match loaded_locales(keys.drop_last(), texts.drop_last()) {
            Some(l) => added_json(l, keys.last(), texts.last()),
            None => None,
        }
    }
}

/// True when the first `i` sources can be loaded and the `i`-th cannot be added
/// to them.
pub open spec fn fails_at(keys: Seq<Seq<char>>, texts: Seq<Seq<char>>, i: int) -> bool {
    &&& 0 <= i < keys.len()
    &&& loaded_locales(keys.take(i), texts.take(i)).is_some()
    &&& added_json(loaded_locales(keys.take(i), texts.take(i)).unwrap(), keys[i], texts[i]).is_none()
}

/// True when the first `i` sources can be loaded and one of them has the key of
/// the `i`-th.
pub open spec fn duplicate_at(keys: Seq<Seq<char>>, texts: Seq<Seq<char>>, i: int) -> bool {
    &&& fails_at(keys, texts, i)
    &&& loaded_locales(keys.take(i), texts.take(i)).unwrap().contains_key(keys[i])
}

/// The merged locales of the catalog that a list of JSON objects gives: `None`
/// where they cannot be loaded, the default locale is not among them, or one
/// of them has a text that the default locale lacks.
pub open spec fn built_locales(
    default_key: Seq<char>,
    keys: Seq<Seq<char>>,
    texts: Seq<Seq<char>>,
) -> Option<Locales> {
    match loaded_locales(keys, texts) {
        Some(l) => if l.contains_key(default_key) && !has_extra(l, default_key) {
            Some(merged_locales(l, default_key))
        } else {
            None
        },
        None => None,
    }
}

/// The locales of the stand-in catalog: the default locale alone, without
/// texts.
pub open spec fn stand_in_locales(default_key: Seq<char>) -> Locales {
    Map::<Seq<char>, Texts>::empty().insert(default_key, Map::empty())
}

/// The keys of watched files.
pub open spec fn file_keys(files: Seq<TrackedFile>) -> Seq<Seq<char>> {
    Seq::new(files.len(), |i: int| files[i].key@)
}

/// The keys of loaded files.
pub open spec fn loaded_keys(files: Seq<LoadedFile>) -> Seq<Seq<char>> {
    Seq::new(files.len(), |i: int| files[i].key@)
}

/// The texts of loaded files.
pub open spec fn loaded_texts(files: Seq<LoadedFile>) -> Seq<Seq<char>> {
    Seq::new(files.len(), |i: int| files[i].contents@)
}

/// The files to watch for a list of loaded files.
pub open spec fn files_watched(files: Seq<LoadedFile>, watched: Seq<TrackedFile>) -> bool {
    &&& watched.len() == files.len()
    &&& forall|i: int|
        0 <= i < files.len() ==> (#[trigger] watched[i]).key@ == files[i].key@ && watched[i].path@
            == files[i].path@ && watched[i].modified == files[i].modified
}

/// What was read of the `i`-th file: its text, or nothing where it could not be
/// read.
pub open spec fn read_text<E>(read: Result<String, E>) -> Seq<char> {
    match read {
        Ok(s) => s@,
        Err(_) => Seq::empty(),
    }
}

/// What was read of each file.
pub open spec fn read_texts<E>(contents: Seq<Result<String, E>>) -> Seq<Seq<char>> {
    Seq::new(contents.len(), |i: int| read_text(contents[i]))
}

/// The number of files read before the first that could not be read.
pub open spec fn reads_before_failure<E>(contents: Seq<Result<String, E>>) -> int
    decreases contents.len(),
{
    if contents.len() == 0 {
        0
    } else if contents[0].is_err() {
        0
    } else {
        1 + reads_before_failure(contents.drop_first())
    }
}

/// Once a list of sources cannot be loaded, no longer list can.
pub proof fn lemma_loaded_locales_fails_on(keys: Seq<Seq<char>>, texts: Seq<Seq<char>>, n: int, m: int)
    requires
        0 <= n <= m <= keys.len(),
        keys.len() == texts.len(),
        loaded_locales(keys.take(n), texts.take(n)).is_none(),
    ensures
        loaded_locales(keys.take(m), texts.take(m)).is_none(),
    decreases m - n,
{
    if n < m {
        lemma_loaded_locales_fails_on(keys, texts, n, m - 1);
        assert(keys.take(m).drop_last() =~= keys.take(m - 1));
        assert(texts.take(m).drop_last() =~= texts.take(m - 1));
    }
}

/// The first look that failed comes after as many looks as went well before
/// it.
pub proof fn lemma_looks_before_failure<E>(stats: Seq<Result<Option<u64>, E>>, n: int)
    requires
        0 <= n <= stats.len(),
        forall|j: int| 0 <= j < n ==> (#[trigger] stats[j]).is_ok(),
        n < stats.len() ==> stats[n].is_err(),
    ensures
        looks_before_failure(stats) == n,
    decreases stats.len(),
{
    if stats.len() > 0 && n > 0 {
        assert(stats[0].is_ok());
        let rest = stats.drop_first();
        assert forall|j: int| 0 <= j < n - 1 implies (#[trigger] rest[j]).is_ok() by {
            assert(stats[j + 1].is_ok());
        }
        lemma_looks_before_failure(rest, n - 1);
    }
}

/// The first file that could not be read comes after as many files as were read
/// before it.
pub proof fn lemma_reads_before_failure<E>(contents: Seq<Result<String, E>>, n: int)
    requires
        0 <= n <= contents.len(),
        forall|j: int| 0 <= j < n ==> (#[trigger] contents[j]).is_ok(),
        n < contents.len() ==> contents[n].is_err(),
    ensures
        reads_before_failure(contents) == n,
    decreases contents.len(),
{
    if contents.len() > 0 && n > 0 {
        assert(contents[0].is_ok());
        let rest = contents.drop_first();
        assert forall|j: int| 0 <= j < n - 1 implies (#[trigger] rest[j]).is_ok() by {
            assert(contents[j + 1].is_ok());
        }
        lemma_reads_before_failure(rest, n - 1);
    }
}

/// A catalog together with the files it was read from. While the files are
/// being read again, lookups are served from a stand-in catalog that has the
/// default locale alone, without texts.
#[derive(Debug)]
pub struct JSONGetTextManager {
    empty: JSONGetText<'static>,
    json_gettext: JSONGetText<'static>,
    files: Vec<TrackedFile>,
    reloading: bool,
}

impl JSONGetTextManager {
    /// The stand-in catalog has the default locale of the live one, alone and
    /// without texts.
    #[verifier::type_invariant]
    spec fn inv(&self) -> bool {
        &&& self.empty.spec_default_key() == self.json_gettext.spec_default_key()
        &&& self.empty.locales() == stand_in_locales(self.json_gettext.spec_default_key())
    }

    /// The identifier of the default locale.
    pub closed spec fn spec_default_key(&self) -> Seq<char> {
        self.json_gettext.spec_default_key()
    }

    /// The texts of the live catalog.
    pub closed spec fn live(&self) -> Locales {
        self.json_gettext.locales()
    }

    /// The files that the manager watches.
    pub closed spec fn watched(&self) -> Seq<TrackedFile> {
        self.files@
    }

    /// True while the files are being read again.
    pub closed spec fn is_reloading(&self) -> bool {
        self.reloading
    }

    /// The texts that lookups are served from: those of the live catalog, or of
    /// the stand-in while the files are being read again.
    pub open spec fn served(&self) -> Locales {
        if self.is_reloading() {
            stand_in_locales(self.spec_default_key())
        } else {
            self.live()
        }
    }

    /// The catalog with the default locale alone, without texts.
    fn stand_in(default_key: &str) -> (r: JSONGetText<'static>)
        ensures
            r.spec_default_key() == default_key@,
            r.locales() == stand_in_locales(default_key@),
    {
        let mut builder: JSONGetTextBuilder<'static> = JSONGetTextBuilder::new(default_key);
        let added = builder.add_map(default_key, TextMap::new());
        assert(added.is_ok());
        let built = builder.build(true);
        proof {
            assert(merged_locales(stand_in_locales(default_key@), default_key@)
                =~~= stand_in_locales(default_key@));
        }
        built.unwrap()
    }

    /// The catalog of a list of JSON objects, one per locale, none of which may
    /// have a text that the default locale lacks.
    pub fn build_catalog(default_key: &str, keys: &Vec<String>, texts: &Vec<String>) -> (r: Result<
        JSONGetText<'static>,
        JSONGetTextBuildError,
    >)
        requires
            keys@.len() == texts@.len(),
        ensures
            match r {
                Ok(c) => c.spec_default_key() == default_key@ && built_locales(
                    default_key@,
                    keys@.map_values(|s: String| s@),
                    texts@.map_values(|s: String| s@),
                ) == Some(c.locales()),
                Err(e) => built_locales(
                    default_key@,
                    keys@.map_values(|s: String| s@),
                    texts@.map_values(|s: String| s@),
                ).is_none() && build_failure(
                    e,
                    default_key@,
                    keys@.map_values(|s: String| s@),
                    texts@.map_values(|s: String| s@),
                ),
            },
    {
        let ghost ks = keys@.map_values(|s: String| s@);
        let ghost ts = texts@.map_values(|s: String| s@);
        let mut builder: JSONGetTextBuilder<'static> = JSONGetTextBuilder::new(default_key);
        let mut i: usize = 0;
        while i < keys.len()
            invariant
                i <= keys@.len(),
                keys@.len() == texts@.len(),
                ks == keys@.map_values(|s: String| s@),
                ts == texts@.map_values(|s: String| s@),
                builder.spec_default_key() == default_key@,
                loaded_locales(ks.take(i as int), ts.take(i as int)) == Some(builder.locales()),
            decreases keys@.len() - i,
        {
            proof {
                assert(ks.take(i + 1).drop_last() =~= ks.take(i as int));
                assert(ts.take(i + 1).drop_last() =~= ts.take(i as int));
                assert(ks.take(i + 1).last() == keys@[i as int]@);
                assert(ts.take(i + 1).last() == texts@[i as int]@);
            }
            match builder.add_json_owned(keys[i].as_str(), texts[i].as_str()) {
                Ok(()) => {},
                Err(e) => {
                    proof {
                        lemma_loaded_locales_fails_on(ks, ts, i + 1, ks.len() as int);
                        assert(ks.take(ks.len() as int) =~= ks);
                        assert(ts.take(ts.len() as int) =~= ts);
                        assert(ks[i as int] == keys@[i as int]@);
                        assert(ts[i as int] == texts@[i as int]@);
                        assert(fails_at(ks, ts, i as int));
                        if e is DuplicatedKey {
                            assert(duplicate_at(ks, ts, i as int));
                            assert(ks[i as int] == e->DuplicatedKey_0@);
                        } else {
                            assert(!duplicate_at(ks, ts, i as int));
                        }
                    }
                    return Err(e);
                },
            }
            i = i + 1;
        }
        proof {
            assert(ks.take(ks.len() as int) =~= ks);
            assert(ts.take(ts.len() as int) =~= ts);
        }
        builder.build(false)
    }

    /// Makes a manager from source files that have been read. No locale may
    /// have a text that the default locale lacks.
    pub fn from_files(default_key: &str, source: Vec<LoadedFile>) -> (r: Result<
        JSONGetTextManager,
        JSONGetTextBuildError,
    >)
        ensures
            match r {
                Ok(m) => {
                    &&& !m.is_reloading()
                    &&& m.spec_default_key() == default_key@
                    &&& built_locales(default_key@, loaded_keys(source@), loaded_texts(source@))
                        == Some(m.live())
                    &&& files_watched(source@, m.watched())
                },
                Err(e) => built_locales(
                    default_key@,
                    loaded_keys(source@),
                    loaded_texts(source@),
                ).is_none() && build_failure(
                    e,
                    default_key@,
                    loaded_keys(source@),
                    loaded_texts(source@),
                ),
            },
    {
        let mut keys: Vec<String> = Vec::new();
        let mut texts: Vec<String> = Vec::new();
        let mut files: Vec<TrackedFile> = Vec::new();
        let mut i: usize = 0;
        while i < source.len()
            invariant
                i <= source@.len(),
                keys@.len() == i,
                texts@.len() == i,
                files@.len() == i,
                forall|j: int| 0 <= j < i ==> (#[trigger] keys@[j])@ == source@[j].key@,
                forall|j: int| 0 <= j < i ==> (#[trigger] texts@[j])@ == source@[j].contents@,
                forall|j: int|
                    0 <= j < i ==> (#[trigger] files@[j]).key@ == source@[j].key@ && files@[j].path@
                        == source@[j].path@ && files@[j].modified == source@[j].modified,
            decreases source@.len() - i,
        {
            keys.push(source[i].key.clone());
            texts.push(source[i].contents.clone());
            files.push(
                TrackedFile {
                    key: source[i].key.clone(),
                    path: source[i].path.clone(),
                    modified: source[i].modified,
                },
            );
            i = i + 1;
        }
        proof {
            assert(keys@.map_values(|s: String| s@) =~= loaded_keys(source@));
            assert(texts@.map_values(|s: String| s@) =~= loaded_texts(source@));
        }
        let empty = Self::stand_in(default_key);
        match Self::build_catalog(default_key, &keys, &texts) {
            Ok(json_gettext) => Ok(JSONGetTextManager { empty, json_gettext, files, reloading: false }),
            Err(e) => Err(e),
        }
    }

    /// Makes a manager from JSON objects, one per locale, given as pairs of a
    /// key and a text. It watches no file. No locale may have a text that the
    /// default locale lacks.
    pub fn from_jsons(default_key: &str, source: Vec<(&str, &str)>) -> (r: Result<
        JSONGetTextManager,
        JSONGetTextBuildError,
    >)
        ensures
            match r {
                Ok(m) => {
                    &&& !m.is_reloading()
                    &&& m.spec_default_key() == default_key@
                    &&& built_locales(
                        default_key@,
                        source@.map_values(|p: (&str, &str)| p.0@),
                        source@.map_values(|p: (&str, &str)| p.1@),
                    ) == Some(m.live())
                    &&& m.watched().len() == 0
                },
                Err(e) => built_locales(
                    default_key@,
                    source@.map_values(|p: (&str, &str)| p.0@),
                    source@.map_values(|p: (&str, &str)| p.1@),
                ).is_none() && build_failure(
                    e,
                    default_key@,
                    source@.map_values(|p: (&str, &str)| p.0@),
                    source@.map_values(|p: (&str, &str)| p.1@),
                ),
            },
    {
        let mut keys: Vec<String> = Vec::new();
        let mut texts: Vec<String> = Vec::new();
        let mut i: usize = 0;
        while i < source.len()
            invariant
                i <= source@.len(),
                keys@.len() == i,
                texts@.len() == i,
                forall|j: int| 0 <= j < i ==> (#[trigger] keys@[j])@ == source@[j].0@,
                forall|j: int| 0 <= j < i ==> (#[trigger] texts@[j])@ == source@[j].1@,
            decreases source@.len() - i,
        {
            keys.push(source[i].0.to_owned());
            texts.push(source[i].1.to_owned());
            i = i + 1;
        }
        proof {
            assert(keys@.map_values(|s: String| s@) =~= source@.map_values(
                |p: (&str, &str)| p.0@,
            ));
            assert(texts@.map_values(|s: String| s@) =~= source@.map_values(
                |p: (&str, &str)| p.1@,
            ));
        }
        let empty = Self::stand_in(default_key);
        match Self::build_catalog(default_key, &keys, &texts) {
            Ok(json_gettext) => Ok(
                JSONGetTextManager { empty, json_gettext, files: Vec::new(), reloading: false },
            ),
            Err(e) => Err(e),
        }
    }

    /// The catalog that lookups are served from: the live one, or the stand-in
    /// while the files are being read again.
    pub fn deref(&self) -> (r: &JSONGetText<'static>)
        ensures
            r.locales() == self.served(),
            r.spec_default_key() == self.spec_default_key(),
    {
        proof {
            use_type_invariant(self);
        }
        if self.reloading {
            &self.empty
        } else {
            &self.json_gettext
        }
    }

    /// The number of watched files.
    pub fn file_count(&self) -> (n: usize)
        ensures
            n == self.watched().len(),
    {
        self.files.len()
    }

    /// The `i`-th watched file.
    pub fn file(&self, i: usize) -> (r: &TrackedFile)
        requires
            i < self.watched().len(),
        ensures
            *r == self.watched()[i as int],
    {
        &self.files[i]
    }

    /// True while the files are being read again.
    pub fn reloading(&self) -> (r: bool)
        ensures
            r == self.is_reloading(),
    {
        self.reloading
    }
}

/// Which error a failed build comes with. The sources are taken in order: the
/// first that cannot be added gives a duplicated key, which the error names,
/// where an earlier source has its key, and else the parser's error. Where all
/// can be loaded, the error is a missing default locale, or else a text that
/// the default locale lacks, named together with its locale.
pub open spec fn build_failure(
    e: JSONGetTextBuildError,
    default_key: Seq<char>,
    keys: Seq<Seq<char>>,
    texts: Seq<Seq<char>>,
) -> bool {
    match e {
        JSONGetTextBuildError::DuplicatedKey(k) => exists|i: int|
            #[trigger] duplicate_at(keys, texts, i) && keys[i] == k@,
        JSONGetTextBuildError::SerdeJSONError(_) => exists|i: int|
            #[trigger] fails_at(keys, texts, i) && !duplicate_at(keys, texts, i),
        JSONGetTextBuildError::DefaultKeyNotFound => loaded_locales(keys, texts).is_some()
            && !loaded_locales(keys, texts).unwrap().contains_key(default_key),
        JSONGetTextBuildError::TextInKeyNotInDefaultKey { key, text } => loaded_locales(
            keys,
            texts,
        ).is_some() && loaded_locales(keys, texts).unwrap().contains_key(default_key) && is_extra(
            loaded_locales(keys, texts).unwrap(),
            default_key,
            key@,
            text@,
        ),
        JSONGetTextBuildError::IOError(_) => false,
    }
}

/// Which error a failed rebuild comes with. The files are taken in order: a
/// file that could not be read gives an I/O error where all files before it
/// could be loaded; a file before it that cannot be added gives a duplicated
/// key or the parser's error; and where every file was read and loaded, the
/// error is that of the build.
pub open spec fn reload_failure<E>(
    e: JSONGetTextBuildError,
    default_key: Seq<char>,
    keys: Seq<Seq<char>>,
    contents: Seq<Result<String, E>>,
) -> bool {
    let f = reads_before_failure(contents);
    let texts = read_texts(contents);
    match e {
        JSONGetTextBuildError::IOError(_) => f < contents.len() && loaded_locales(
            keys.take(f),
            texts.take(f),
        ).is_some(),
        JSONGetTextBuildError::DuplicatedKey(k) => exists|i: int|
            i < f && #[trigger] duplicate_at(keys, texts, i) && keys[i] == k@,
        JSONGetTextBuildError::SerdeJSONError(_) => exists|i: int|
            i < f && #[trigger] fails_at(keys, texts, i) && !duplicate_at(keys, texts, i),
        _ => f == contents.len() && build_failure(e, default_key, keys, texts),
    }
}

/// Where the first files were all read, the first failure comes after them.
pub proof fn lemma_reads_before_failure_at_least<E>(contents: Seq<Result<String, E>>, n: int)
    requires
        0 <= n <= contents.len(),
        forall|j: int| 0 <= j < n ==> (#[trigger] contents[j]).is_ok(),
    ensures
        n <= reads_before_failure(contents) <= contents.len(),
    decreases contents.len(),
{
    if contents.len() > 0 {
        let rest = contents.drop_first();
        if n > 0 {
            assert(contents[0].is_ok());
            assert forall|j: int| 0 <= j < n - 1 implies (#[trigger] rest[j]).is_ok() by {
                assert(contents[j + 1].is_ok());
            }
            lemma_reads_before_failure_at_least(rest, n - 1);
        } else if contents[0].is_ok() {
            lemma_reads_before_failure_at_least(rest, 0);
        }
    }
}

impl JSONGetTextManager {
    /// Starts a cycle, unless one is under way: returns whether this call
    /// started it. From then until the cycle ends, lookups are served from the
    /// stand-in catalog.
    pub fn begin_reload(&mut self) -> (started: bool)
        ensures
            started == !old(self).is_reloading(),
            final(self).is_reloading(),
            final(self).spec_default_key() == old(self).spec_default_key(),
            final(self).live() == old(self).live(),
            final(self).watched() == old(self).watched(),
    {
        proof {
            use_type_invariant(&*self);
        }
        if self.reloading {
            false
        } else {
            self.reloading = true;
            true
        }
    }

    /// Takes what a look at each watched file found: its time of modification
    /// where the system gave one, or the error of the look. The files are taken
    /// in order. A look that failed ends the cycle with its error. A stale file
    /// takes the time found. Where no file is stale the cycle ends; where one
    /// is, the result is `true` and the cycle goes on: every file is to be read
    /// again. The live catalog stays as it is.
    pub fn check_files(&mut self, stats: Vec<Result<Option<u64>, std::io::Error>>) -> (r: Result<
        bool,
        JSONGetTextBuildError,
    >)
        requires
            old(self).is_reloading(),
            stats@.len() == old(self).watched().len(),
        ensures
            final(self).spec_default_key() == old(self).spec_default_key(),
            final(self).live() == old(self).live(),
            final(self).watched() == refreshed_files(
                old(self).watched(),
                stats@,
                looks_before_failure(stats@),
            ),
            match r {
                Ok(reload) => {
                    &&& looks_before_failure(stats@) == stats@.len()
                    &&& reload == any_stale(old(self).watched(), stats@, stats@.len() as int)
                    &&& final(self).is_reloading() == reload
                },
                Err(JSONGetTextBuildError::IOError(_)) => {
                    &&& looks_before_failure(stats@) < stats@.len()
                    &&& !final(self).is_reloading()
                },
                Err(_) => false,
            },
    {
        proof {
            use_type_invariant(&*self);
        }
        let ghost all = stats@;
        let ghost before = self.files@;
        let mut looks = stats;
        let mut do_reload = false;
        let mut i: usize = 0;
        while i < self.files.len()
            invariant
                i <= before.len(),
                looks@ == all,
                all == stats@,
                before == old(self).files@,
                self.inv(),
                all.len() == before.len(),
                self.files@ == refreshed_files(before, all, i as int),
                do_reload == any_stale(before, all, i as int),
                forall|j: int| 0 <= j < i ==> (#[trigger] all[j]).is_ok(),
                self.empty == old(self).empty,
                self.json_gettext == old(self).json_gettext,
                self.reloading,
            decreases before.len() - i,
        {
            if looks[i].is_err() {
                let failed = looks.remove(i);
                self.reloading = false;
                proof {
                    lemma_looks_before_failure(all, i as int);
                }
                return match failed {
                    Err(e) => Err(JSONGetTextBuildError::IOError(e)),
                    Ok(_) => unreached(),
                };
            }
            let found: Option<u64> = match &looks[i] {
                Ok(t) => *t,
                Err(_) => unreached(),
            };
            let stale = match (self.files[i].modified, found) {
                (Some(a), Some(b)) => b > a,
                _ => true,
            };
            if stale {
                self.files[i].modified = found;
                do_reload = true;
            }
            proof {
                assert(self.files@ =~= refreshed_files(before, all, i + 1));
                if any_stale(before, all, i + 1) && !do_reload {
                    let j = choose|j: int|
                        0 <= j < i + 1 && (#[trigger] all[j]).is_ok() && is_stale(
                            before[j].modified,
                            found_time(all[j]),
                        );
                    assert(j < i);
                }
                if stale {
                    assert(all[i as int].is_ok());
                }
            }
            i = i + 1;
        }
        proof {
            lemma_looks_before_failure(all, all.len() as int);
        }
        if !do_reload {
            self.reloading = false;
        }
        Ok(do_reload)
    }

    /// Takes what was read of each watched file, its text or the error of the
    /// read, makes the catalog anew from all of them, and ends the cycle. Where
    /// that fails, the live catalog stays in place and goes on being served.
    pub fn finish_reload(&mut self, contents: Vec<Result<String, std::io::Error>>) -> (r: Result<
        (),
        JSONGetTextBuildError,
    >)
        requires
            old(self).is_reloading(),
            contents@.len() == old(self).watched().len(),
        ensures
            !final(self).is_reloading(),
            final(self).spec_default_key() == old(self).spec_default_key(),
            final(self).watched() == old(self).watched(),
            match r {
                Ok(()) => reads_before_failure(contents@) == contents@.len() && built_locales(
                    old(self).spec_default_key(),
                    file_keys(old(self).watched()),
                    read_texts(contents@),
                ) == Some(final(self).live()),
                Err(e) => final(self).live() == old(self).live() && reload_failure(
                    e,
                    old(self).spec_default_key(),
                    file_keys(old(self).watched()),
                    contents@,
                ),
            },
    {
        proof {
            use_type_invariant(&*self);
        }
        let ghost all = contents@;
        let ghost ks = file_keys(self.files@);
        let mut reads = contents;
        let ghost ts = read_texts(all);
        let mut builder: JSONGetTextBuilder<'static> = JSONGetTextBuilder::new(
            self.json_gettext.get_default_key(),
        );
        let mut i: usize = 0;
        while i < self.files.len()
            invariant
                i <= all.len(),
                reads@ == all,
                all == contents@,
                self.inv(),
                old(self).reloading,
                all.len() == self.files@.len(),
                ks == file_keys(self.files@),
                ts == read_texts(all),
                *self == *old(self),
                forall|j: int| 0 <= j < i ==> (#[trigger] all[j]).is_ok(),
                builder.spec_default_key() == self.json_gettext.spec_default_key(),
                loaded_locales(ks.take(i as int), ts.take(i as int)) == Some(builder.locales()),
            decreases all.len() - i,
        {
            if reads[i].is_err() {
                let failed = reads.remove(i);
                self.reloading = false;
                proof {
                    lemma_reads_before_failure(all, i as int);
                }
                return match failed {
                    Err(e) => Err(JSONGetTextBuildError::IOError(e)),
                    Ok(_) => unreached(),
                };
            }
            proof {
                assert(ks.take(i + 1).drop_last() =~= ks.take(i as int));
                assert(ts.take(i + 1).drop_last() =~= ts.take(i as int));
                assert(ks.take(i + 1).last() == self.files@[i as int].key@);
                assert(ts.take(i + 1).last() == read_text(all[i as int]));
            }
            let added = match &reads[i] {
                Ok(text) => builder.add_json_owned(self.files[i].key.as_str(), text.as_str()),
                Err(_) => unreached(),
            };
            match added {
                Ok(()) => {},
                Err(e) => {
                    self.reloading = false;
                    proof {
                        lemma_reads_before_failure_at_least(all, i + 1);
                        assert(ks[i as int] == self.files@[i as int].key@);
                        assert(ts[i as int] == read_text(all[i as int]));
                        assert(fails_at(ks, ts, i as int));
                        if e is DuplicatedKey {
                            assert(duplicate_at(ks, ts, i as int));
                            assert(ks[i as int] == e->DuplicatedKey_0@);
                        } else {
                            assert(!duplicate_at(ks, ts, i as int));
                        }
                    }
                    return Err(e);
                },
            }
            i = i + 1;
        }
        proof {
            lemma_reads_before_failure(all, all.len() as int);
            assert(ks.take(ks.len() as int) =~= ks);
            assert(ts.take(ts.len() as int) =~= ts);
        }
        self.reloading = false;
        match builder.build(false) {
            Ok(catalog) => {
                self.json_gettext = catalog;
                Ok(())
            },
            Err(e) => Err(e),
        }
    }

    /// One whole cycle, for a caller that has looked at every watched file and
    /// read every one of them: nothing happens where a cycle is under way;
    /// else the looks are taken, and where a file is stale the catalog is made
    /// anew from what was read. Whenever the result is an error, the live
    /// catalog is the one from before.
    pub fn reload_if_needed(
        &mut self,
        stats: Vec<Result<Option<u64>, std::io::Error>>,
        contents: Vec<Result<String, std::io::Error>>,
    ) -> (r: Result<(), JSONGetTextBuildError>)
        requires
            stats@.len() == old(self).watched().len(),
            contents@.len() == old(self).watched().len(),
        ensures
            final(self).spec_default_key() == old(self).spec_default_key(),
            final(self).is_reloading() == old(self).is_reloading(),
            r.is_err() ==> final(self).live() == old(self).live() && final(self).served() == old(
                self,
            ).served(),
            old(self).is_reloading() ==> r.is_ok() && final(self).live() == old(self).live()
                && final(self).watched() == old(self).watched(),
            !old(self).is_reloading() ==> final(self).watched() == refreshed_files(
                old(self).watched(),
                stats@,
                looks_before_failure(stats@),
            ),
            !old(self).is_reloading() ==> match r {
                Ok(()) => {
                    &&& looks_before_failure(stats@) == stats@.len()
                    &&& if any_stale(old(self).watched(), stats@, stats@.len() as int) {
                        &&& reads_before_failure(contents@) == contents@.len()
                        &&& built_locales(
                            old(self).spec_default_key(),
                            file_keys(old(self).watched()),
                            read_texts(contents@),
                        ) == Some(final(self).live())
                    } else {
                        final(self).live() == old(self).live()
                    }
                },
                Err(e) => if looks_before_failure(stats@) < stats@.len() {
                    e is IOError
                } else {
                    &&& any_stale(old(self).watched(), stats@, stats@.len() as int)
                    &&& reload_failure(
                        e,
                        old(self).spec_default_key(),
                        file_keys(old(self).watched()),
                        contents@,
                    )
                },
            },
    {
        if !self.begin_reload() {
            return Ok(());
        }
        let reload = match self.check_files(stats) {
            Ok(reload) => reload,
            Err(e) => {
                return Err(e);
            },
        };
        if !reload {
            return Ok(());
        }
        proof {
            assert(file_keys(self.files@) =~= file_keys(old(self).files@));
        }
        self.finish_reload(contents)
    }
}

} // verus!
