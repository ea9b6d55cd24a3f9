//! A chunk of the build and its flat description for the host.

use crate::text::{is_sorted_copy, sorted, sorted_copy_is_unique, sorted_copy_keeps_distinct};
use std::collections::{HashMap, HashSet};
use vstd::prelude::*;
use vstd::relations::{sorted_by, total_ordering};
use vstd::seq_lib::{
    group_to_multiset_ensures, lemma_sorted_unique, to_multiset_build, to_multiset_insert,
};
use vstd::std_specs::hash::axiom_spec_hash_keys_iter;
use vstd::std_specs::iter::IteratorSpec;

verus! {

/// What the build knows of one chunk, as far as the host is told of it.
///
/// `groups` is the set of the keys of its chunk groups. `id_name_hints`,
/// `files`, `auxiliary_files` and `runtime` stand for sets of texts and
/// `content_hash` for a map from source type to digest: the order of their
/// items carries no meaning, and none of it reaches the host.
#[derive(Debug, PartialEq, Eq)]
pub struct Chunk {
    pub ukey: usize,
    pub groups: HashSet<usize>,
    pub name: Option<String>,
    pub filename_template: Option<String>,
    pub css_filename_template: Option<String>,
    pub id: Option<String>,
    pub ids: Vec<String>,
    pub id_name_hints: Vec<String>,
    pub files: Vec<String>,
    pub auxiliary_files: Vec<String>,
    pub runtime: Vec<String>,
    pub hash: Option<String>,
    pub rendered_hash: Option<String>,
    pub content_hash: Vec<(String, String)>,
    pub chunk_reasons: Vec<String>,
}

/// The first text of each pair.
pub open spec fn firsts(pairs: Seq<(Seq<char>, Seq<char>)>) -> Seq<Seq<char>> {
    pairs.map_values(|pair: (Seq<char>, Seq<char>)| pair.0)
}

/// The second text of the first pair that begins with `key`.
pub open spec fn digest_of(pairs: Seq<(Seq<char>, Seq<char>)>, key: Seq<char>) -> Option<Seq<char>>
    decreases pairs.len(),
{
    if pairs.len() == 0 {
        None
    } else if pairs[0].0 == key {
        Some(pairs[0].1)
    } else {
        digest_of(pairs.drop_first(), key)
    }
}

impl Chunk {
    /// The lists that stand for sets name each item once, and `content_hash`
    /// has one digest for a source type.
    pub open spec fn wf(&self) -> bool {
        &&& self.id_name_hints.deep_view().no_duplicates()
        &&& self.files.deep_view().no_duplicates()
        &&& self.auxiliary_files.deep_view().no_duplicates()
        &&& self.runtime.deep_view().no_duplicates()
        &&& firsts(self.content_hash.deep_view()).no_duplicates()
    }

    /// `self` and `other` are one chunk: their sets hold the same items and
    /// their maps the same digests, in whatever order these are listed, and
    /// everything else is equal.
    pub open spec fn same_as(&self, other: &Chunk) -> bool {
        &&& self.ukey == other.ukey
        &&& self.groups@ == other.groups@
        &&& self.name.deep_view() == other.name.deep_view()
        &&& self.filename_template.deep_view() == other.filename_template.deep_view()
        &&& self.css_filename_template.deep_view() == other.css_filename_template.deep_view()
        &&& self.id.deep_view() == other.id.deep_view()
        &&& self.ids.deep_view() == other.ids.deep_view()
        &&& self.id_name_hints.deep_view().to_set() == other.id_name_hints.deep_view().to_set()
        &&& self.files.deep_view().to_set() == other.files.deep_view().to_set()
        &&& self.auxiliary_files.deep_view().to_set() == other.auxiliary_files.deep_view().to_set()
        &&& self.runtime.deep_view().to_set() == other.runtime.deep_view().to_set()
        &&& self.hash.deep_view() == other.hash.deep_view()
        &&& self.rendered_hash.deep_view() == other.rendered_hash.deep_view()
        &&& firsts(self.content_hash.deep_view()).to_set() == firsts(
            other.content_hash.deep_view(),
        ).to_set()
        &&& forall|key: Seq<char>|
            digest_of(self.content_hash.deep_view(), key) == digest_of(
                other.content_hash.deep_view(),
                key,
            )
        &&& self.chunk_reasons.deep_view() == other.chunk_reasons.deep_view()
    }
}

/// The description of a chunk that is handed to the host. Its lists are in
/// an order that the chunk's content fixes.
#[derive(Debug, PartialEq, Eq)]
pub struct JsChunk {
    pub inner_ukey: u32,
    pub inner_groups: Vec<u32>,
    pub name: Option<String>,
    pub id: Option<String>,
    pub ids: Vec<String>,
    pub id_name_hints: Vec<String>,
    pub filename_template: Option<String>,
    pub css_filename_template: Option<String>,
    pub files: Vec<String>,
    pub runtime: Vec<String>,
    pub hash: Option<String>,
    pub content_hash: Vec<(String, String)>,
    pub rendered_hash: Option<String>,
    pub chunk_reasons: Vec<String>,
    pub auxiliary_files: Vec<String>,
}

/// The key of a chunk or of a chunk group as the host holds it: the low 32
/// bits.
pub open spec fn host_key(ukey: usize) -> u32 {
    ukey as u32
}

/// The keys of `ukeys` as the host holds them.
pub open spec fn host_keys(ukeys: Seq<usize>) -> Seq<u32> {
    ukeys.map_values(|ukey: usize| host_key(ukey))
}

/// No key stands before a smaller one.
pub open spec fn keys_ascending(keys: Seq<u32>) -> bool {
    forall|i: int, j: int| 0 <= i <= j < keys.len() ==> keys[i] <= keys[j]
}

/// `sorted` holds the keys of `given`, each as often as there, in ascending
/// order.
pub open spec fn is_sorted_keys(sorted: Seq<u32>, given: Seq<u32>) -> bool {
    &&& keys_ascending(sorted)
    &&& sorted.to_multiset() == given.to_multiset()
}

/// `listing` names each key of `keys` once and no other.
pub open spec fn lists(listing: Seq<usize>, keys: Set<usize>) -> bool {
    &&& listing.no_duplicates()
    &&& listing.to_set() == keys
}

/// `sorted` holds, in ascending order, the host's key for each key of
/// `keys`.
pub open spec fn is_sorted_host_keys(sorted: Seq<u32>, keys: Set<usize>) -> bool {
    exists|listing: Seq<usize>| lists(listing, keys) && is_sorted_keys(sorted, host_keys(listing))
}

/// `pairs` holds, in ascending order of source type, one pair for each pair
/// of `given`, with the digest that `given` has for that source type.
pub open spec fn is_sorted_map(
    pairs: Seq<(Seq<char>, Seq<char>)>,
    given: Seq<(Seq<char>, Seq<char>)>,
) -> bool {
    &&& is_sorted_copy(firsts(pairs), firsts(given))
    &&& forall|i: int|
        0 <= i < pairs.len() ==> digest_of(given, (#[trigger] pairs[i]).0) == Some(pairs[i].1)
}

fn to_host_key(ukey: usize) -> (key: u32)
    ensures
        key == host_key(ukey),
{
    #[verifier::truncate]
    (ukey as u32)
}

/// Puts `key` into the ascending `keys`, before the first key above it.
fn insert_key(keys: &mut Vec<u32>, key: u32)
    requires
        keys_ascending(old(keys)@),
    ensures
        keys_ascending(final(keys)@),
        final(keys)@.to_multiset() == old(keys)@.to_multiset().insert(key),
{
    let mut at: usize = 0;
    while at < keys.len() && keys[at] <= key
        invariant
            at <= keys.len(),
            forall|j: int| 0 <= j < at ==> keys[j] <= key,
        decreases keys.len() - at,
    {
        at += 1;
    }
    proof {
        to_multiset_insert(keys@, at as int, key);
    }
    keys.insert(at, key);
}

/// The host's keys for `ukeys`, in ascending order.
fn sorted_host_keys(ukeys: &HashSet<usize>) -> (keys: Vec<u32>)
    ensures
        is_sorted_host_keys(keys@, ukeys@),
{
    let mut keys: Vec<u32> = Vec::new();
    let ghost listing = ukeys.iter().remaining().unref();
    proof {
        axiom_spec_hash_keys_iter(ukeys);
    }
    assert(host_keys(listing.take(0)) =~= keys@);
    for ukey in it: ukeys.iter()
        invariant
            it.seq().unref() == listing,
            is_sorted_keys(keys@, host_keys(listing.take(it.index() as int))),
    {
        proof {
            let done = it.index() as int;
            assert(listing[done] == *ukey);
            assert(host_keys(listing.take(done + 1)) =~= host_keys(listing.take(done)).push(
                host_key(*ukey),
            ));
            to_multiset_build(host_keys(listing.take(done)), host_key(*ukey));
        }
        insert_key(&mut keys, to_host_key(*ukey));
    }
    assert(listing.take(listing.len() as int) =~= listing);
    assert(lists(listing, ukeys@));
    keys
}

/// The index of the first pair that begins with `key`.
fn position_of(pairs: &Vec<(String, String)>, key: &String) -> (found: Option<usize>)
    ensures
        match found {
            Some(at) => at < pairs.len() && digest_of(pairs.deep_view(), key@) == Some(
                pairs[at as int].1@,
            ),
            None => digest_of(pairs.deep_view(), key@) is None,
        },
{
    let mut at: usize = 0;
    assert(pairs.deep_view().skip(0) =~= pairs.deep_view());
    while at < pairs.len()
        invariant
            at <= pairs.len(),
            digest_of(pairs.deep_view(), key@) == digest_of(pairs.deep_view().skip(at as int), key@),
        decreases pairs.len() - at,
    {
        let ghost rest = pairs.deep_view().skip(at as int);
        assert(rest[0] == pairs.deep_view()[at as int]);
        assert(rest.drop_first() =~= pairs.deep_view().skip(at as int + 1));
        if pairs[at].0 == *key {
            return Some(at);
        }
        at += 1;
    }
    None
}

/// The source types of `pairs`, in their order.
fn source_types(pairs: &Vec<(String, String)>) -> (keys: Vec<String>)
    ensures
        keys.deep_view() == firsts(pairs.deep_view()),
{
    let mut keys: Vec<String> = Vec::new();
    let mut i: usize = 0;
    while i < pairs.len()
        invariant
            i <= pairs.len(),
            keys.len() == i,
            keys.deep_view() == firsts(pairs.deep_view()).take(i as int),
        decreases pairs.len() - i,
    {
        keys.push(pairs[i].0.clone());
        i += 1;
        assert(keys.deep_view() =~= firsts(pairs.deep_view()).take(i as int));
    }
    assert(firsts(pairs.deep_view()).take(i as int) =~= firsts(pairs.deep_view()));
    keys
}

/// A pair that begins with `key` is among `pairs` as soon as `key` is among
/// their source types.
proof fn lemma_listed_has_digest(pairs: Seq<(Seq<char>, Seq<char>)>, key: Seq<char>)
    requires
        firsts(pairs).contains(key),
    ensures
        digest_of(pairs, key) is Some,
    decreases pairs.len(),
{
    let at = choose|at: int| 0 <= at < firsts(pairs).len() && firsts(pairs)[at] == key;
    if pairs[0].0 != key {
        assert(firsts(pairs.drop_first())[at - 1] == key);
        lemma_listed_has_digest(pairs.drop_first(), key);
    }
}

/// The pairs of `given`, in ascending order of source type.
fn sorted_map(given: &Vec<(String, String)>) -> (pairs: Vec<(String, String)>)
    ensures
        is_sorted_map(pairs.deep_view(), given.deep_view()),
{
    let keys = sorted(&source_types(given));
    let mut pairs: Vec<(String, String)> = Vec::new();
    let mut i: usize = 0;
    while i < keys.len()
        invariant
            i <= keys.len(),
            pairs.len() == i,
            is_sorted_copy(keys.deep_view(), firsts(given.deep_view())),
            firsts(pairs.deep_view()) == keys.deep_view().take(i as int),
            forall|j: int|
                0 <= j < i ==> digest_of(given.deep_view(), (#[trigger] pairs.deep_view()[j]).0)
                    == Some(pairs.deep_view()[j].1),
        decreases keys.len() - i,
    {
        proof {
            broadcast use group_to_multiset_ensures;

            let key = keys.deep_view()[i as int];
            assert(keys.deep_view().contains(key));
            assert(keys.deep_view().to_multiset().count(key) > 0);
            assert(firsts(given.deep_view()).to_multiset().count(key) > 0);
            assert(firsts(given.deep_view()).contains(key));
            assert(key == keys[i as int]@);
            lemma_listed_has_digest(given.deep_view(), keys[i as int]@);
        }
        let found = position_of(given, &keys[i]);
        let at = found.unwrap();
        let ghost before = pairs.deep_view();
        pairs.push((keys[i].clone(), given[at].1.clone()));
        assert(pairs.deep_view() =~= before.push((keys[i as int]@, given[at as int].1@)));
        i += 1;
        assert(firsts(pairs.deep_view()) =~= keys.deep_view().take(i as int));
    }
    assert(keys.deep_view().take(i as int) =~= keys.deep_view());
    pairs
}

impl JsChunk {
    /// The lists of names hold each name once, and `content_hash` has one
    /// digest for a source type.
    pub open spec fn wf(&self) -> bool {
        &&& self.id_name_hints.deep_view().no_duplicates()
        &&& self.files.deep_view().no_duplicates()
        &&& self.auxiliary_files.deep_view().no_duplicates()
        &&& self.runtime.deep_view().no_duplicates()
        &&& firsts(self.content_hash.deep_view()).no_duplicates()
    }

    /// `self` is the description of `chunk`: keys cut to 32 bits; what the
    /// chunk holds as a set in ascending order, and its digests in ascending
    /// order of source type; everything else as the chunk has it.
    pub open spec fn describes(&self, chunk: &Chunk) -> bool {
        &&& self.inner_ukey == host_key(chunk.ukey)
        &&& is_sorted_host_keys(self.inner_groups@, chunk.groups@)
        &&& self.name.deep_view() == chunk.name.deep_view()
        &&& self.id.deep_view() == chunk.id.deep_view()
        &&& self.ids.deep_view() == chunk.ids.deep_view()
        &&& is_sorted_copy(self.id_name_hints.deep_view(), chunk.id_name_hints.deep_view())
        &&& self.filename_template.deep_view() == chunk.filename_template.deep_view()
        &&& self.css_filename_template.deep_view() == chunk.css_filename_template.deep_view()
        &&& is_sorted_copy(self.files.deep_view(), chunk.files.deep_view())
        &&& is_sorted_copy(self.runtime.deep_view(), chunk.runtime.deep_view())
        &&& self.hash.deep_view() == chunk.hash.deep_view()
        &&& is_sorted_map(self.content_hash.deep_view(), chunk.content_hash.deep_view())
        &&& self.rendered_hash.deep_view() == chunk.rendered_hash.deep_view()
        &&& self.chunk_reasons.deep_view() == chunk.chunk_reasons.deep_view()
        &&& is_sorted_copy(self.auxiliary_files.deep_view(), chunk.auxiliary_files.deep_view())
    }

    /// `self` and `other` hold the same values, field by field and item by
    /// item.
    pub open spec fn agrees_with(&self, other: &JsChunk) -> bool {
        &&& self.inner_ukey == other.inner_ukey
        &&& self.inner_groups@ == other.inner_groups@
        &&& self.name.deep_view() == other.name.deep_view()
        &&& self.id.deep_view() == other.id.deep_view()
        &&& self.ids.deep_view() == other.ids.deep_view()
        &&& self.id_name_hints.deep_view() == other.id_name_hints.deep_view()
        &&& self.filename_template.deep_view() == other.filename_template.deep_view()
        &&& self.css_filename_template.deep_view() == other.css_filename_template.deep_view()
        &&& self.files.deep_view() == other.files.deep_view()
        &&& self.runtime.deep_view() == other.runtime.deep_view()
        &&& self.hash.deep_view() == other.hash.deep_view()
        &&& self.content_hash.deep_view() == other.content_hash.deep_view()
        &&& self.rendered_hash.deep_view() == other.rendered_hash.deep_view()
        &&& self.chunk_reasons.deep_view() == other.chunk_reasons.deep_view()
        &&& self.auxiliary_files.deep_view() == other.auxiliary_files.deep_view()
    }

    /// Describes `chunk` for the host.
    pub fn from(chunk: &Chunk) -> (js: JsChunk)
        ensures
            js.describes(chunk),
    {
        let files = sorted(&chunk.files);
        let auxiliary_files = sorted(&chunk.auxiliary_files);
        let runtime = sorted(&chunk.runtime);
        let id_name_hints = sorted(&chunk.id_name_hints);
        let ids = chunk.ids.clone();
        let chunk_reasons = chunk.chunk_reasons.clone();
        assert(ids.deep_view() =~= chunk.ids.deep_view());
        assert(chunk_reasons.deep_view() =~= chunk.chunk_reasons.deep_view());
        JsChunk {
            inner_ukey: to_host_key(chunk.ukey),
            inner_groups: sorted_host_keys(&chunk.groups),
            name: chunk.name.clone(),
            id: chunk.id.clone(),
            ids,
            id_name_hints,
            filename_template: chunk.filename_template.clone(),
            css_filename_template: chunk.css_filename_template.clone(),
            files,
            runtime,
            hash: chunk.hash.clone(),
            content_hash: sorted_map(&chunk.content_hash),
            rendered_hash: chunk.rendered_hash.clone(),
            chunk_reasons,
            auxiliary_files,
        }
    }
}

/// Two listings of one set hold the same items, each once.
proof fn lemma_listings_of_same<A>(first: Seq<A>, second: Seq<A>)
    requires
        first.no_duplicates(),
        second.no_duplicates(),
        first.to_set() == second.to_set(),
    ensures
        first.to_multiset() == second.to_multiset(),
{
    broadcast use group_to_multiset_ensures;

    first.lemma_multiset_has_no_duplicates();
    second.lemma_multiset_has_no_duplicates();
    assert forall|key: A| first.to_multiset().count(key) == second.to_multiset().count(key) by {
        assert(first.contains(key) <==> first.to_set().contains(key));
        assert(second.contains(key) <==> second.to_set().contains(key));
    }
    assert(first.to_multiset() =~= second.to_multiset());
}

/// Lists that hold the same keys, each as often, hold the same host keys,
/// each as often.
proof fn lemma_host_keys_of_same(first: Seq<usize>, second: Seq<usize>)
    requires
        first.to_multiset() == second.to_multiset(),
    ensures
        host_keys(first).to_multiset() == host_keys(second).to_multiset(),
    decreases first.len(),
{
    broadcast use group_to_multiset_ensures;

    if first.len() == 0 {
        assert(first.to_multiset().len() == 0);
        assert(second.to_multiset().len() == second.len());
        assert(second.len() == 0);
        assert(host_keys(first) =~= host_keys(second));
    } else {
        let key = first[0];
        assert(first.to_multiset().count(key) > 0);
        assert(second.contains(key));
        let at = choose|at: int| 0 <= at < second.len() && second[at] == key;
        assert(first.drop_first() =~= first.remove(0));
        lemma_host_keys_of_same(first.drop_first(), second.remove(at));
        assert(host_keys(first).remove(0) =~= host_keys(first.drop_first()));
        assert(host_keys(second).remove(at) =~= host_keys(second.remove(at)));
        assert(host_keys(first)[0] == host_keys(second)[at]);
        assert(host_keys(first).to_multiset() =~= host_keys(first).remove(0).to_multiset().insert(
            host_key(key),
        ));
        assert(host_keys(second).to_multiset() =~= host_keys(second).remove(
            at,
        ).to_multiset().insert(host_key(key)));
    }
}

/// There is one ascending list of the same keys.
proof fn lemma_sorted_keys_unique(first: Seq<u32>, second: Seq<u32>)
    requires
        keys_ascending(first),
        keys_ascending(second),
        first.to_multiset() == second.to_multiset(),
    ensures
        first == second,
{
    let le = |a: u32, b: u32| a <= b;
    assert(total_ordering(le));
    assert(sorted_by(first, le));
    assert(sorted_by(second, le));
    lemma_sorted_unique(first, second, le);
}

/// One chunk has one description, however its sets and maps are listed: the
/// descriptions of two listings agree in every field, item by item.
pub proof fn description_is_unique(first: &JsChunk, chunk: &Chunk, second: &JsChunk, other: &Chunk)
    requires
        chunk.wf(),
        other.wf(),
        chunk.same_as(other),
        first.describes(chunk),
        second.describes(other),
    ensures
        first.agrees_with(second),
{
    lemma_listings_of_same(chunk.id_name_hints.deep_view(), other.id_name_hints.deep_view());
    lemma_listings_of_same(chunk.files.deep_view(), other.files.deep_view());
    lemma_listings_of_same(chunk.auxiliary_files.deep_view(), other.auxiliary_files.deep_view());
    lemma_listings_of_same(chunk.runtime.deep_view(), other.runtime.deep_view());
    lemma_listings_of_same(
        firsts(chunk.content_hash.deep_view()),
        firsts(other.content_hash.deep_view()),
    );
    let mine = choose|listing: Seq<usize>|
        lists(listing, chunk.groups@) && is_sorted_keys(first.inner_groups@, host_keys(listing));
    let theirs = choose|listing: Seq<usize>|
        lists(listing, other.groups@) && is_sorted_keys(second.inner_groups@, host_keys(listing));
    lemma_listings_of_same(mine, theirs);
    lemma_host_keys_of_same(mine, theirs);
    lemma_sorted_keys_unique(first.inner_groups@, second.inner_groups@);
    sorted_copy_is_unique(
        first.id_name_hints.deep_view(),
        chunk.id_name_hints.deep_view(),
        second.id_name_hints.deep_view(),
        other.id_name_hints.deep_view(),
    );
    sorted_copy_is_unique(
        first.files.deep_view(),
        chunk.files.deep_view(),
        second.files.deep_view(),
        other.files.deep_view(),
    );
    sorted_copy_is_unique(
        first.auxiliary_files.deep_view(),
        chunk.auxiliary_files.deep_view(),
        second.auxiliary_files.deep_view(),
        other.auxiliary_files.deep_view(),
    );
    sorted_copy_is_unique(
        first.runtime.deep_view(),
        chunk.runtime.deep_view(),
        second.runtime.deep_view(),
        other.runtime.deep_view(),
    );
    let digests = first.content_hash.deep_view();
    let others = second.content_hash.deep_view();
    sorted_copy_is_unique(
        firsts(digests),
        firsts(chunk.content_hash.deep_view()),
        firsts(others),
        firsts(other.content_hash.deep_view()),
    );
    assert(digests.len() == firsts(digests).len());
    assert(others.len() == firsts(others).len());
    assert forall|i: int| 0 <= i < digests.len() implies digests[i] == others[i] by {
        assert(firsts(digests)[i] == firsts(others)[i]);
        assert(digest_of(chunk.content_hash.deep_view(), digests[i].0) == Some(digests[i].1));
        assert(digest_of(other.content_hash.deep_view(), others[i].0) == Some(others[i].1));
    }
    assert(digests =~= others);
}

/// The description of a chunk whose sets name each item once names each
/// once, too.
pub proof fn description_keeps_distinct(js: &JsChunk, chunk: &Chunk)
    requires
        js.describes(chunk),
        chunk.wf(),
    ensures
        js.wf(),
{
    sorted_copy_keeps_distinct(js.id_name_hints.deep_view(), chunk.id_name_hints.deep_view());
    sorted_copy_keeps_distinct(js.files.deep_view(), chunk.files.deep_view());
    sorted_copy_keeps_distinct(js.auxiliary_files.deep_view(), chunk.auxiliary_files.deep_view());
    sorted_copy_keeps_distinct(js.runtime.deep_view(), chunk.runtime.deep_view());
    sorted_copy_keeps_distinct(
        firsts(js.content_hash.deep_view()),
        firsts(chunk.content_hash.deep_view()),
    );
}

/// The chunks of a compilation, by key.
pub struct Compilation {
    pub chunk_by_ukey: HashMap<usize, Chunk>,
}

/// The chunk that `compilation` holds under `ukey`.
pub fn chunk(ukey: u32, compilation: &Compilation) -> (found: &Chunk)
    requires
        compilation.chunk_by_ukey@.contains_key(ukey as usize),
    ensures
        *found == compilation.chunk_by_ukey@[ukey as usize],
{
    let key: usize = ukey as usize;
    compilation.chunk_by_ukey.get(&key).unwrap()
}

/// A chunk and the name of the asset that was made of it.
pub struct ChunkAssetArgs<'a> {
    pub chunk: &'a Chunk,
    pub filename: &'a str,
}

/// `ChunkAssetArgs` as the host gets them.
#[derive(Debug, PartialEq, Eq)]
pub struct JsChunkAssetArgs {
    pub chunk: JsChunk,
    pub filename: String,
}

impl JsChunkAssetArgs {
    /// Describes the chunk of `value` for the host and copies the asset's
    /// name.
    pub fn from(value: &ChunkAssetArgs) -> (js: JsChunkAssetArgs)
        ensures
            js.chunk.describes(value.chunk),
            js.filename@ == value.filename@,
    {
        JsChunkAssetArgs { chunk: JsChunk::from(value.chunk), filename: value.filename.to_owned() }
    }
}

/// What the conversions that succeeded gave, in their order.
pub open spec fn successes<T, E>(results: Seq<Result<T, E>>) -> Seq<T>
    decreases results.len(),
{
    if results.len() == 0 {
        Seq::empty()
    } else {
        match results.last() {
            Ok(value) => successes(results.drop_last()).push(value),
            Err(_) => successes(results.drop_last()),
        }
    }
}

/// Keeps what succeeded. The host is shown the modules of a chunk that could
/// be described, in the order of the chunk, and nothing of the others.
pub fn keep_successes<T, E>(results: Vec<Result<T, E>>) -> (kept: Vec<T>)
    ensures
        kept@ == successes(results@),
{
    let ghost all = results@;
    let mut kept: Vec<T> = Vec::new();
    for result in it: results
        invariant
            it.seq() == all,
            kept@ == successes(all.take(it.index() as int)),
    {
        proof {
            let done = it.index() as int;
            assert(all.take(done + 1).drop_last() =~= all.take(done));
            assert(all.take(done + 1).last() == result);
        }
        if let Ok(value) = result {
            kept.push(value);
        }
    }
    assert(all.take(all.len() as int) =~= all);
    kept
}

} // verus!
