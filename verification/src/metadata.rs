//! The metadata extractor. The probe itself — detecting the container
//! format and reading its primary tag and playback properties — is lofty's
//! work, behind trusted wrappers; everything the probe reports is then
//! normalized by verified code: every tag item becomes a textual key/value
//! pair, binary values become the empty string (lossy by design), later
//! items override earlier ones with the same key, and the playback
//! properties keep their probed values, each absent when the format does
//! not report it.

use vstd::prelude::*;
use lofty::file::TaggedFileExt;
use lofty::prelude::AudioFile;

verus! {

use crate::catalog::{AudioMetadata, AudioProps, FileFacts};

#[verifier::external_type_specification]
#[verifier::external_body]
pub struct ExTaggedFile(lofty::file::TaggedFile);

/// The probe rejected the file: it is unreadable or not a parseable audio
/// container. This aborts the enclosing scan; it is never swallowed.
#[derive(Clone, Debug)]
pub struct ProbeError {
    pub message: String,
}

/// Whether the probed file carries a primary tag.
pub uninterp spec fn has_primary_tag(f: lofty::file::TaggedFile) -> bool;

/// The items of the probed file's primary tag, in order: each item's
/// canonical key, and its text when the value is textual (a text or a
/// locator), or nothing when it is binary.
pub uninterp spec fn primary_tag_items(f: lofty::file::TaggedFile) -> Seq<
    (Seq<char>, Option<Seq<char>>),
>;

/// The probed playback properties: duration in whole seconds, then sample
/// rate, channel count, average audio bitrate and bit depth.
pub uninterp spec fn audio_properties_of(f: lofty::file::TaggedFile) -> (
    u64,
    Option<u32>,
    Option<u8>,
    Option<u32>,
    Option<u8>,
);

/// Relies on lofty's Probe::open and Probe::read: opens the path, detects
/// the container format and reads tags and properties. What comes back
/// depends on the disk, so nothing is promised of it; failure means the
/// file could not be read or parsed as audio.
#[verifier::external_body]
fn probe_path(path: &str) -> (r: Result<lofty::file::TaggedFile, ProbeError>) {
    match lofty::probe::Probe::open(path).and_then(|p| p.read()) {
        Ok(f) => Ok(f),
        Err(e) => Err(ProbeError { message: format!("{}", e) }),
    }
}

/// Relies on TaggedFileExt::primary_tag and Tag::items: the primary tag's
/// items, each converted to its key's canonical name and its textual value,
/// binary values marked absent. A function of the probed file alone.
#[verifier::external_body]
fn read_primary_tag_items(f: &lofty::file::TaggedFile) -> (r: Option<
    Vec<(String, Option<String>)>,
>)
    ensures
        r is Some <==> has_primary_tag(*f),
        r matches Some(v) ==> v.deep_view() == primary_tag_items(*f),
{
    f.primary_tag().map(
        |tag|
            tag.items().map(
                |item|
                    (
                        format!("{:?}", item.key()),
                        match item.value() {
                            lofty::tag::ItemValue::Text(s) => Some(s.clone()),
                            lofty::tag::ItemValue::Locator(s) => Some(s.clone()),
                            lofty::tag::ItemValue::Binary(_) => None,
                        },
                    ),
            ).collect(),
    )
}

/// Relies on AudioFile::properties and the FileProperties getters: the
/// probed duration truncated to whole seconds, sample rate, channel count,
/// average audio bitrate and bit depth. A function of the probed file
/// alone.
#[verifier::external_body]
fn read_audio_properties(f: &lofty::file::TaggedFile) -> (r: (
    u64,
    Option<u32>,
    Option<u8>,
    Option<u32>,
    Option<u8>,
))
    ensures
        r == audio_properties_of(*f),
{
    let p = f.properties();
    (p.duration().as_secs(), p.sample_rate(), p.channels(), p.audio_bitrate(), p.bit_depth())
}

/// The normalized text of one tag value: binary values become empty text.
pub open spec fn norm_value(v: Option<Seq<char>>) -> Seq<char> {
    match v {
        Option::Some(s) => s,
        Option::None => Seq::empty(),
    }
}

/// The mapping a sequence of tag items induces: keyed by the item key,
/// later items overriding earlier ones.
pub open spec fn tags_map_of(items: Seq<(Seq<char>, Option<Seq<char>>)>) -> Map<
    Seq<char>,
    Seq<char>,
>
    decreases items.len(),
{
    if items.len() == 0 {
        Map::empty()
    } else {
        tags_map_of(items.drop_last()).insert(items.last().0, norm_value(items.last().1))
    }
}

/// The mapping held by a list of key/value pairs, later pairs overriding
/// earlier ones.
pub open spec fn pairs_map(pairs: Seq<(String, String)>) -> Map<Seq<char>, Seq<char>>
    decreases pairs.len(),
{
    if pairs.len() == 0 {
        Map::empty()
    } else {
        pairs_map(pairs.drop_last()).insert(pairs.last().0@, pairs.last().1@)
    }
}

/// No two pairs share a key.
pub open spec fn unique_keys(pairs: Seq<(String, String)>) -> bool {
    forall|i: int, j: int| 0 <= i < j < pairs.len() ==> pairs[i].0@ != pairs[j].0@
}

/// Overwriting the pair at a held key updates the induced mapping at that
/// key alone.
proof fn lemma_pairs_map_update(pairs: Seq<(String, String)>, j: int, p: (String, String))
    requires
        unique_keys(pairs),
        0 <= j < pairs.len(),
        pairs[j].0@ == p.0@,
    ensures
        pairs_map(pairs.update(j, p)) == pairs_map(pairs).insert(p.0@, p.1@),
    decreases pairs.len(),
{
    let upd = pairs.update(j, p);
    assert(upd.len() == pairs.len());
    if j == pairs.len() - 1 {
        assert(upd.drop_last() =~= pairs.drop_last());
        assert(pairs_map(upd) =~= pairs_map(pairs).insert(p.0@, p.1@));
    } else {
        assert(upd.drop_last() =~= pairs.drop_last().update(j, p));
        assert(upd.last() == pairs.last());
        lemma_pairs_map_update(pairs.drop_last(), j, p);
        // the last key differs from the updated key, so the inserts commute
        assert(pairs.last().0@ != p.0@);
        assert(pairs_map(upd) =~= pairs_map(pairs).insert(p.0@, p.1@));
    }
}

/// Finds the pair holding the given key, if one does.
fn find_key(pairs: &Vec<(String, String)>, key: &String) -> (o: Option<usize>)
    ensures
        o matches Some(j) ==> j < pairs@.len() && pairs@[j as int].0@ == key@,
        o is None ==> forall|t: int| 0 <= t < pairs@.len() ==> pairs@[t].0@ != key@,
{
    let mut j: usize = 0;
    while j < pairs.len()
        invariant
            j <= pairs@.len(),
            forall|t: int| 0 <= t < j ==> pairs@[t].0@ != key@,
        decreases pairs@.len() - j,
    {
        if pairs[j].0.eq(key) {
            return Option::Some(j);
        }
        j += 1;
    }
    Option::None
}

/// Builds the normalized tag pairs for a sequence of probed tag items:
/// the resulting list holds each key once and induces exactly the mapping
/// of the items.
fn build_tags(items: &Vec<(String, Option<String>)>) -> (r: Vec<(String, String)>)
    ensures
        unique_keys(r@),
        pairs_map(r@) == tags_map_of(items.deep_view()),
{
    let mut r: Vec<(String, String)> = Vec::new();
    let mut i: usize = 0;
    proof {
        assert(items.deep_view().take(0) =~= Seq::<(Seq<char>, Option<Seq<char>>)>::empty());
    }
    while i < items.len()
        invariant
            i <= items@.len(),
            items@.len() == items.deep_view().len(),
            unique_keys(r@),
            pairs_map(r@) == tags_map_of(items.deep_view().take(i as int)),
        decreases items@.len() - i,
    {
        let key = items[i].0.clone();
        let value = match &items[i].1 {
            Option::Some(s) => s.clone(),
            Option::None => String::new(),
        };
        let ghost old_pairs = r@;
        let ghost item = items.deep_view()[i as int];
        let ghost kview = key@;
        let ghost vview = value@;
        proof {
            assert(item == (items@[i as int].0@, items@[i as int].1.deep_view()));
            assert(kview == item.0);
            assert(vview == norm_value(item.1));
        }
        // replace the held pair with this key, or add a new one
        match find_key(&r, &key) {
            Option::Some(j) => {
                r.set(j, (key, value));
                proof {
                    let p = r@[j as int];
                    assert(p.0@ == kview && p.1@ == vview);
                    lemma_pairs_map_update(old_pairs, j as int, p);
                    assert forall|a: int, b: int| 0 <= a < b < r@.len() implies r@[a].0@
                        != r@[b].0@ by {
                        assert(r@[a].0@ == old_pairs[a].0@);
                        assert(r@[b].0@ == old_pairs[b].0@);
                    }
                }
            },
            Option::None => {
                r.push((key, value));
                proof {
                    assert(r@.drop_last() =~= old_pairs);
                    assert(r@.last().0@ == kview && r@.last().1@ == vview);
                    assert(forall|t: int|
                        0 <= t < old_pairs.len() ==> old_pairs[t].0@ != r@.last().0@);
                }
            },
        }
        proof {
            let cur = items.deep_view().take(i + 1);
            assert(cur.drop_last() =~= items.deep_view().take(i as int));
            assert(cur.last() == item);
            assert(pairs_map(r@) == tags_map_of(cur));
        }
        i += 1;
    }
    proof {
        assert(items.deep_view().take(items@.len() as int) =~= items.deep_view());
    }
    r
}

/// Builds the normalized metadata of one probed file from its tag and
/// properties and from the given filesystem facts.
pub fn normalize_metadata(f: &lofty::file::TaggedFile, facts: FileFacts) -> (r: AudioMetadata)
    ensures
        has_primary_tag(*f) ==> pairs_map(r.tags@) == tags_map_of(primary_tag_items(*f)),
        !has_primary_tag(*f) ==> r.tags@ == Seq::<(String, String)>::empty(),
        unique_keys(r.tags@),
        r.properties.duration_secs == audio_properties_of(*f).0,
        r.properties.sample_rate == audio_properties_of(*f).1,
        r.properties.channels == audio_properties_of(*f).2,
        r.properties.bitrate == audio_properties_of(*f).3,
        r.properties.bit_depth == audio_properties_of(*f).4,
        r.file == facts,
{
    let items = read_primary_tag_items(f);
    let tags = match items {
        Option::Some(v) => build_tags(&v),
        Option::None => Vec::new(),
    };
    let p = read_audio_properties(f);
    AudioMetadata {
        tags,
        properties: AudioProps {
            duration_secs: p.0,
            sample_rate: p.1,
            channels: p.2,
            bitrate: p.3,
            bit_depth: p.4,
        },
        file: facts,
    }
}

/// Probes one file and returns its normalized metadata, or the probe's
/// error when the file is not a parseable audio container. The error
/// aborts the file's processing; it must propagate, so that a malformed
/// file never produces an empty catalog entry.
pub fn extract_metadata(path: &str, facts: FileFacts) -> (r: Result<AudioMetadata, ProbeError>)
    ensures
        r matches Ok(m) ==> m.file == facts && unique_keys(m.tags@),
{
    match probe_path(path) {
        Result::Ok(f) => Result::Ok(normalize_metadata(&f, facts)),
        Result::Err(e) => Result::Err(e),
    }
}

} // verus!
