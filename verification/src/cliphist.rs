//! Clipboard history service: a snapshot of the clipboard manager's
//! entries, keyed by the monotonically issued sequence number the manager
//! assigns, each entry classified by sniffing its raw bytes.
//!
//! Classification order: bytes that begin with a known image container's
//! magic are a raster image (or an opaque blob when they do not decode);
//! otherwise valid UTF-8 that parses as a vector-image document is a vector
//! image; otherwise valid UTF-8 is text; anything else is an opaque blob.

use std::io::Cursor;

use vstd::prelude::*;

use crate::bus::Channel;
use crate::store::Store;
use crate::text::str_eq;
use vstd::utf8::decode_utf8;
use vstd::utf8::decode_utf8_encode_utf8;
use vstd::utf8::encode_utf8;
use vstd::utf8::valid_utf8;

verus! {

#[verifier::external_type_specification]
#[verifier::external_body]
pub struct ExDynamicImage(image::DynamicImage);

/// The bytes begin with a known image container's magic.
pub uninterp spec fn is_image_container(b: Seq<u8>) -> bool;

/// Relies on image::guess_format: whether the bytes carry a known image
/// container's magic depends on the bytes alone.
#[verifier::external_body]
fn has_image_magic(bytes: &Vec<u8>) -> (r: bool)
    ensures
        r == is_image_container(bytes@),
{
    image::guess_format(bytes.as_slice()).is_ok()
}

/// The bytes decode as a raster image.
pub uninterp spec fn pixel_decodes(b: Seq<u8>) -> bool;

/// Relies on image::guess_format and ImageReader::with_format: the format
/// comes from the magic-bytes table, a function of the buffer alone, and a
/// built-in decoder's outcome is a function of the bytes and the format, so
/// whether the bytes decode as a raster image depends on the bytes alone.
#[verifier::external_body]
fn decode_image(bytes: &Vec<u8>) -> (r: Option<image::DynamicImage>)
    ensures
        r.is_some() == pixel_decodes(bytes@),
{
    match image::guess_format(bytes.as_slice()) {
        Ok(format) => image::ImageReader::with_format(Cursor::new(bytes.as_slice()), format)
            .decode()
            .ok(),
        Err(_) => None,
    }
}

/// Relies on String::from_utf8: it succeeds exactly on valid UTF-8, and
/// decodes it to the corresponding scalar sequence.
#[verifier::external_body]
fn utf8_decode(bytes: &Vec<u8>) -> (r: Option<String>)
    ensures
        r.is_some() == valid_utf8(bytes@),
        r matches Some(s) ==> s@ == decode_utf8(bytes@),
{
    String::from_utf8(bytes.clone()).ok()
}

/// What scanning a text as an XML-ish document yields: whether every event
/// parses, and the tag names seen.
pub struct SvgScan {
    pub ok: bool,
    pub tag_names: Vec<String>,
}

/// The scan a text yields: a function of the text alone.
pub uninterp spec fn svg_scan_of(s: Seq<char>) -> (bool, Seq<Seq<char>>);

/// Relies on svg::read and its parser: the event stream depends on the text
/// alone.  `ok` records that no error event occurred; the tag names are
/// handed over as plain strings.
#[verifier::external_body]
fn svg_scan(s: &str) -> (r: SvgScan)
    ensures
        (r.ok, r.tag_names@.map_values(|t: String| t@)) == svg_scan_of(s@),
{
    let mut ok = true;
    let mut tag_names: Vec<String> = Vec::new();
    match svg::read(s) {
        Err(_) => ok = false,
        Ok(parser) => for ev in parser {
            match ev {
                svg::parser::Event::Error(_) => ok = false,
                svg::parser::Event::Tag(name, _, _) => tag_names.push(name.to_string()),
                _ => {},
            }
        },
    }
    SvgScan { ok, tag_names }
}

/// Relies on DynamicImage::clone: the copy is the same image.
#[verifier::external_body]
fn clone_image(img: &image::DynamicImage) -> (r: image::DynamicImage)
    ensures
        r == *img,
{
    img.clone()
}

/// Relies on DynamicImage::as_bytes: a view of the image's raw samples.
#[verifier::external_body]
fn image_bytes(img: &image::DynamicImage) -> &[u8] {
    img.as_bytes()
}

/// A text is a vector-image document when every event of it parses and it
/// contains an `svg` tag.
pub open spec fn is_vector_doc(s: Seq<char>) -> bool {
    svg_scan_of(s).0 && svg_scan_of(s).1.contains("svg"@)
}

/// Scan a text for a well-formed vector-image document.
fn check_vector_doc(s: &str) -> (r: bool)
    ensures
        r == is_vector_doc(s@),
{
    let scan = svg_scan(s);
    let ghost tags = svg_scan_of(s@).1;
    proof {
        assert(tags == scan.tag_names@.map_values(|t: String| t@));
    }
    if !scan.ok {
        return false;
    }
    let n = scan.tag_names.len();
    let mut i: usize = 0;
    while i < n
        invariant
            0 <= i <= n,
            n == scan.tag_names@.len(),
            tags == scan.tag_names@.map_values(|t: String| t@),
            scan.ok,
            (scan.ok, tags) == svg_scan_of(s@),
            forall|j: int| 0 <= j < i ==> tags[j] != "svg"@,
        decreases n - i,
    {
        if str_eq(scan.tag_names[i].as_str(), "svg") {
            proof {
                assert(tags[i as int] == "svg"@);
            }
            return true;
        }
        i = i + 1;
    }
    proof {
        assert(!tags.contains("svg"@)) by {
            assert(forall|j: int| 0 <= j < tags.len() ==> tags[j] != "svg"@);
        }
    }
    false
}

/// One clipboard entry, classified by its payload.
#[derive(Debug)]
pub enum CliphistEntry {
    Text(String),
    PixelImage(image::DynamicImage),
    VectorImage(String),
    Blob(Vec<u8>),
}

/// The mathematical shape of an entry; a raster image stays opaque.
pub ghost enum CliphistEntryView {
    Text(Seq<char>),
    PixelImage(image::DynamicImage),
    VectorImage(Seq<char>),
    Blob(Seq<u8>),
}

impl View for CliphistEntry {
    type V = CliphistEntryView;

    open spec fn view(&self) -> CliphistEntryView {
        match self {
            CliphistEntry::Text(s) => CliphistEntryView::Text(s@),
            CliphistEntry::PixelImage(i) => CliphistEntryView::PixelImage(*i),
            CliphistEntry::VectorImage(s) => CliphistEntryView::VectorImage(s@),
            CliphistEntry::Blob(b) => CliphistEntryView::Blob(b@),
        }
    }
}

impl Clone for CliphistEntry {
    fn clone(&self) -> (r: Self)
        ensures
            r@ == self@,
    {
        match self {
            CliphistEntry::Text(s) => CliphistEntry::Text(s.clone()),
            CliphistEntry::PixelImage(i) => CliphistEntry::PixelImage(clone_image(i)),
            CliphistEntry::VectorImage(s) => CliphistEntry::VectorImage(s.clone()),
            CliphistEntry::Blob(b) => {
                let c = b.clone();
                proof {
                    assert(c@ =~= b@);
                }
                CliphistEntry::Blob(c)
            },
        }
    }
}

/// The classification an entry must satisfy for the bytes it was built
/// from.
pub open spec fn classifies(b: Seq<u8>, e: CliphistEntryView) -> bool {
    if is_image_container(b) {
        if pixel_decodes(b) {
            e is PixelImage
        } else {
            e == CliphistEntryView::Blob(b)
        }
    } else if valid_utf8(b) {
        if is_vector_doc(decode_utf8(b)) {
            e == CliphistEntryView::VectorImage(decode_utf8(b))
        } else {
            e == CliphistEntryView::Text(decode_utf8(b))
        }
    } else {
        e == CliphistEntryView::Blob(b)
    }
}

impl CliphistEntry {
    /// Classify a raw clipboard payload.
    pub fn classify(bytes: Vec<u8>) -> (r: CliphistEntry)
        ensures
            classifies(bytes@, r@),
    {
        if has_image_magic(&bytes) {
            match decode_image(&bytes) {
                Some(img) => CliphistEntry::PixelImage(img),
                None => CliphistEntry::Blob(bytes),
            }
        } else {
            match utf8_decode(&bytes) {
                Some(s) => {
                    if check_vector_doc(s.as_str()) {
                        CliphistEntry::VectorImage(s)
                    } else {
                        CliphistEntry::Text(s)
                    }
                },
                None => CliphistEntry::Blob(bytes),
            }
        }
    }

    /// The raw bytes of the entry, as the external copy command takes
    /// them: a text or vector entry yields its characters' UTF-8 encoding,
    /// a blob yields its bytes, and a raster image yields its decoded
    /// samples.
    pub fn as_bytes(&self) -> (r: &[u8])
        ensures
            self@ matches CliphistEntryView::Text(s) ==> r@ == encode_utf8(s),
            self@ matches CliphistEntryView::VectorImage(s) ==> r@ == encode_utf8(s),
            self@ matches CliphistEntryView::Blob(b) ==> r@ == b,
    {
        match self {
            CliphistEntry::Text(s) => s.as_str().as_bytes(),
            CliphistEntry::VectorImage(s) => s.as_str().as_bytes(),
            CliphistEntry::PixelImage(i) => image_bytes(i),
            CliphistEntry::Blob(b) => b.as_slice(),
        }
    }
}

/// The bytes an entry yields for the external copy command; a raster image
/// is a decoded form and yields its samples instead.
pub open spec fn entry_bytes(e: CliphistEntryView) -> Seq<u8>
    recommends
        !(e is PixelImage),
{
    match e {
        CliphistEntryView::Text(s) => encode_utf8(s),
        CliphistEntryView::VectorImage(s) => encode_utf8(s),
        CliphistEntryView::Blob(b) => b,
        CliphistEntryView::PixelImage(_) => Seq::empty(),
    }
}

/// Round-trip law: for text, vector and blob entries, classification keeps
/// the exact original bytes — the bytes an entry yields are the bytes it
/// was built from.  A raster image is the one decoded form and is excluded.
pub proof fn lemma_classify_preserves_bytes(b: Seq<u8>, e: CliphistEntryView)
    requires
        classifies(b, e),
        !(e is PixelImage),
    ensures
        entry_bytes(e) == b,
{
    broadcast use decode_utf8_encode_utf8;

}

/// The clipboard snapshot: entries keyed by their issue number, in strictly
/// increasing order.
#[derive(Debug)]
pub struct CliphistData {
    pub entries: Vec<(u64, CliphistEntry)>,
}

impl View for CliphistData {
    type V = Seq<(u64, CliphistEntryView)>;

    open spec fn view(&self) -> Seq<(u64, CliphistEntryView)> {
        self.entries@.map_values(|p: (u64, CliphistEntry)| (p.0, p.1@))
    }
}

impl Clone for CliphistData {
    fn clone(&self) -> (r: Self)
        ensures
            r@ == self@,
    {
        let n = self.entries.len();
        let mut entries: Vec<(u64, CliphistEntry)> = Vec::new();
        let mut i: usize = 0;
        while i < n
            invariant
                0 <= i <= n,
                n == self.entries@.len(),
                entries@.len() == i,
                forall|j: int|
                    0 <= j < i ==> (#[trigger] entries@[j]).0 == self.entries@[j].0
                        && entries@[j].1@ == self.entries@[j].1@,
            decreases n - i,
        {
            let p = &self.entries[i];
            entries.push((p.0, p.1.clone()));
            i = i + 1;
        }
        let r = CliphistData { entries };
        proof {
            assert(r@ =~= self@);
        }
        r
    }
}

/// Some entry carries this id.
pub open spec fn has_id(s: Seq<(u64, CliphistEntryView)>, id: u64) -> bool {
    exists|k: int| 0 <= k < s.len() && (#[trigger] s[k]).0 == id
}

/// The value stored under an id.
pub open spec fn entry_value(s: Seq<(u64, CliphistEntryView)>, id: u64) -> CliphistEntryView {
    s[choose|k: int| 0 <= k < s.len() && (#[trigger] s[k]).0 == id].1
}

/// Entries are keyed: ids strictly increase.
pub open spec fn entries_sorted(s: Seq<(u64, CliphistEntryView)>) -> bool {
    forall|i: int, j: int| 0 <= i < j < s.len() ==> (#[trigger] s[i]).0 < (#[trigger] s[j]).0
}

/// The ids a listing carries.
pub open spec fn listed_ids(l: Seq<u64>) -> Set<u64> {
    l.to_set()
}

/// The per-field channel and the aggregate channel of the clipboard
/// service.
pub struct CliphistSender {
    pub entries: Channel<CliphistData>,
    pub changed: Channel<CliphistData>,
}

impl CliphistSender {
    pub open spec fn wf(self) -> bool {
        self.entries@.wf() && self.changed@.wf()
    }

    pub fn new() -> (r: CliphistSender)
        ensures
            r.wf(),
            r.entries@.published() == 0,
            r.changed@.published() == 0,
            r.entries@.capacity == 30,
            r.changed@.capacity == 30,
    {
        CliphistSender { entries: Channel::new(30), changed: Channel::new(30) }
    }
}

/// The clipboard history service.
pub struct CliphistService {
    pub data: Store<CliphistData>,
    pub sender: CliphistSender,
    pub num_display: usize,
}

impl CliphistService {
    pub open spec fn wf(self) -> bool {
        self.data.wf() && self.sender.wf() && entries_sorted(self.data.value()@)
    }

    /// A service with no entries yet; `num_display` is how many entries the
    /// consumer shows.
    pub fn new(num_display: usize) -> (r: CliphistService)
        ensures
            r.wf(),
            r.data.value()@ == Seq::<(u64, CliphistEntryView)>::empty(),
            r.num_display == num_display,
            r.sender.entries@.published() == 0,
            r.sender.changed@.published() == 0,
    {
        let d = CliphistData { entries: Vec::new() };
        proof {
            assert(d@ =~= Seq::<(u64, CliphistEntryView)>::empty());
        }
        CliphistService { data: Store::new(d), sender: CliphistSender::new(), num_display }
    }

    /// The ids of the current listing that the snapshot does not hold yet,
    /// in listing order: the transport fetches exactly these.
    pub fn missing_ids(&self, listed: &Vec<u64>) -> (r: Vec<u64>)
        requires
            self.wf(),
        ensures
            r@ == listed@.filter(|id: u64| !has_id(self.data.value()@, id)),
    {
        let ghost pred = |id: u64| !has_id(self.data.value()@, id);
        let n = listed.len();
        let mut r: Vec<u64> = Vec::new();
        let mut i: usize = 0;
        proof {
            assert(listed@.take(0).filter(pred) =~= Seq::<u64>::empty());
            assert(r@ =~= Seq::<u64>::empty());
        }
        while i < n
            invariant
                0 <= i <= n,
                n == listed@.len(),
                self.wf(),
                pred == (|id: u64| !has_id(self.data.value()@, id)),
                r@ == listed@.take(i as int).filter(pred),
            decreases n - i,
        {
            proof {
                reveal_with_fuel(Seq::filter, 2);
                assert(listed@.take(i + 1).drop_last() =~= listed@.take(i as int));
                assert(listed@.take(i + 1).last() == listed@[i as int]);
            }
            let id = listed[i];
            if !contains_id(self.data.read(), id) {
                r.push(id);
                proof {
                    assert(pred(listed@[i as int]));
                    assert(r@ =~= listed@.take(i + 1).filter(pred));
                }
            } else {
                proof {
                    assert(!pred(listed@[i as int]));
                    assert(r@ =~= listed@.take(i + 1).filter(pred));
                }
            }
            i = i + 1;
        }
        proof {
            assert(listed@.take(n as int) =~= listed@);
        }
        r
    }

    /// Commit one re-synchronization pass.  When the listing was empty the
    /// snapshot is cleared first, as the manager's store was reset.  Each
    /// fetched payload whose id is still absent is classified and inserted
    /// under its id; entries already held are untouched.  When anything was
    /// inserted, or a non-empty snapshot was cleared, the new snapshot is
    /// published on the entries channel and once on the aggregate channel;
    /// an unchanged pass publishes nothing.
    pub fn commit_entries(&mut self, listing_was_empty: bool, items: Vec<(u64, Vec<u8>)>) -> (changed:
        bool)
        requires
            old(self).wf(),
            old(self).sender.entries@.published() < u64::MAX,
            old(self).sender.changed@.published() < u64::MAX,
        ensures
            final(self).wf(),
            final(self).num_display == old(self).num_display,
            ({
                let start = if listing_was_empty {
                    Seq::<(u64, CliphistEntryView)>::empty()
                } else {
                    old(self).data.value()@
                };
                let now = final(self).data.value()@;
                &&& (forall|id: u64| #![trigger has_id(now, id)]
                    has_id(now, id) <==> has_id(start, id) || (exists|k: int|
                        0 <= k < items@.len() && (#[trigger] items@[k]).0 == id))
                &&& (forall|id: u64|
                    has_id(start, id) ==> has_id(now, id) && entry_value(now, id) == entry_value(
                        start,
                        id,
                    ))
                &&& (forall|id: u64|
                    !has_id(start, id) && has_id(now, id) ==> exists|k: int|
                        0 <= k < items@.len() && (#[trigger] items@[k]).0 == id && classifies(
                            items@[k].1@,
                            entry_value(now, id),
                        ))
                &&& changed == ((listing_was_empty && old(self).data.value()@.len() > 0) || (
                exists|k: int|
                    0 <= k < items@.len() && !has_id(start, (#[trigger] items@[k]).0)))
            }),
            changed ==> final(self).sender.entries@.published() == old(
                self,
            ).sender.entries@.published() + 1,
            changed ==> final(self).sender.changed@.published() == old(
                self,
            ).sender.changed@.published() + 1,
            changed ==> final(self).sender.entries@.entry(
                old(self).sender.entries@.published(),
            )@ == final(self).data.value()@,
            changed ==> final(self).sender.changed@.entry(
                old(self).sender.changed@.published(),
            )@ == final(self).data.value()@,
            !changed ==> final(self).sender.entries@ == old(self).sender.entries@,
            !changed ==> final(self).sender.changed@ == old(self).sender.changed@,
    {
        let mut current = self.data.read().clone();
        let cleared = listing_was_empty && current.entries.len() > 0;
        proof {
            assert(current@.len() == self.data.value()@.len());
        }
        if listing_was_empty {
            current = CliphistData { entries: Vec::new() };
            proof {
                assert(current@ =~= Seq::<(u64, CliphistEntryView)>::empty());
            }
        }
        let ghost start = current@;
        let ghost items0 = items@;
        let n = items.len();
        let mut items = items;
        let mut changed = cleared;
        let mut k: usize = 0;
        while k < n
            invariant
                0 <= k <= n,
                n == items0.len(),
                k + items@.len() == n,
                items@ == items0.skip(k as int),
                entries_sorted(current@),
                forall|id: u64| #![trigger has_id(current@, id)]
                    has_id(current@, id) <==> has_id(start, id) || (exists|j: int|
                        0 <= j < k && (#[trigger] items0[j]).0 == id),
                forall|id: u64|
                    has_id(start, id) ==> has_id(current@, id) && entry_value(current@, id)
                        == entry_value(start, id),
                forall|id: u64|
                    !has_id(start, id) && has_id(current@, id) ==> exists|j: int|
                        0 <= j < items0.len() && (#[trigger] items0[j]).0 == id && classifies(
                            items0[j].1@,
                            entry_value(current@, id),
                        ),
                cleared == (listing_was_empty && old(self).data.value()@.len() > 0),
                changed == (cleared || (exists|j: int|
                    0 <= j < k && !has_id(start, (#[trigger] items0[j]).0))),
            decreases n - k,
        {
            proof {
                assert(items@[0] == items0.skip(k as int)[0]);
                assert(items@[0] == items0[k as int]);
            }
            let (id, bytes) = items.remove(0);
            proof {
                assert((id, bytes) == items0[k as int]);
                assert(items@ =~= items0.skip(k + 1));
            }
            if !contains_id(&current, id) {
                proof {
                    assert(!has_id(start, id));
                }
                let e = CliphistEntry::classify(bytes);
                let ghost before = current@;
                insert_entry(&mut current, id, e);
                changed = true;
                proof {
                    assert(has_id(current@, id));
                    assert(entry_value(current@, id) == e@);
                    assert(classifies(items0[k as int].1@, entry_value(current@, id)));
                    assert(items0[k as int].0 == id);
                    assert(!has_id(start, items0[k as int].0));
                    assert forall|x: u64| #![trigger has_id(current@, x)]
                        has_id(current@, x) <==> has_id(start, x) || (exists|j: int|
                            0 <= j < k + 1 && (#[trigger] items0[j]).0 == x) by {
                        if x == id {
                            assert(items0[k as int].0 == x);
                            assert(exists|j: int|
                                0 <= j < k + 1 && (#[trigger] items0[j]).0 == x);
                        } else {
                            assert(has_id(current@, x) == has_id(before, x));
                            assert(has_id(before, x) ==> has_id(start, x) || exists|j: int|
                                0 <= j < k && (#[trigger] items0[j]).0 == x);
                            if has_id(before, x) && !has_id(start, x) {
                                let j0 = choose|j: int|
                                    0 <= j < k && (#[trigger] items0[j]).0 == x;
                                assert(0 <= j0 < k + 1 && items0[j0].0 == x);
                                assert(exists|j: int|
                                    0 <= j < k + 1 && (#[trigger] items0[j]).0 == x);
                            }
                            if exists|j: int| 0 <= j < k + 1 && (#[trigger] items0[j]).0 == x {
                                let j = choose|j: int|
                                    0 <= j < k + 1 && (#[trigger] items0[j]).0 == x;
                                assert(j < k);
                                assert(0 <= j < k && items0[j].0 == x);
                            }
                        }
                    }
                    assert forall|x: u64|
                        !has_id(start, x) && has_id(current@, x) implies exists|j: int|
                            0 <= j < items0.len() && (#[trigger] items0[j]).0 == x && classifies(
                                items0[j].1@,
                                entry_value(current@, x),
                            ) by {
                        if x == id {
                            assert(0 <= k < items0.len() && items0[k as int].0 == x && classifies(
                                items0[k as int].1@,
                                entry_value(current@, x),
                            ));
                        } else {
                            assert(has_id(before, x));
                            assert(entry_value(current@, x) == entry_value(before, x));
                            let j = choose|j: int|
                                0 <= j < items0.len() && (#[trigger] items0[j]).0 == x
                                    && classifies(items0[j].1@, entry_value(before, x));
                            assert(0 <= j < items0.len() && items0[j].0 == x && classifies(
                                items0[j].1@,
                                entry_value(current@, x),
                            ));
                        }
                    }
                }
            } else {
                proof {
                    assert(has_id(current@, id));
                    if !has_id(start, id) {
                        let j = choose|j: int| 0 <= j < k && (#[trigger] items0[j]).0 == id;
                        assert(!has_id(start, items0[j].0));
                        assert(changed);
                    }
                    assert forall|x: u64| #![trigger has_id(current@, x)]
                        has_id(current@, x) <==> has_id(start, x) || (exists|j: int|
                            0 <= j < k + 1 && (#[trigger] items0[j]).0 == x) by {
                        if x == id {
                            assert(items0[k as int].0 == x);
                        } else {
                            if has_id(current@, x) && !has_id(start, x) {
                                let j0 = choose|j: int|
                                    0 <= j < k && (#[trigger] items0[j]).0 == x;
                                assert(0 <= j0 < k + 1 && items0[j0].0 == x);
                            }
                            if exists|j: int| 0 <= j < k + 1 && (#[trigger] items0[j]).0 == x {
                                let j = choose|j: int|
                                    0 <= j < k + 1 && (#[trigger] items0[j]).0 == x;
                                assert(j < k);
                                assert(0 <= j < k && items0[j].0 == x);
                            }
                        }
                    }
                }
            }
            k = k + 1;
        }
        self.data.write(current);
        if changed {
            self.sender.entries.publish(self.data.read().clone());
            self.sender.changed.publish(self.data.read().clone());
        }
        changed
    }
}

/// Entries with one id all hold one value: ids are unique in a sorted
/// entry list.
proof fn lemma_entry_unique(s: Seq<(u64, CliphistEntryView)>, id: u64, k: int)
    requires
        entries_sorted(s),
        0 <= k < s.len(),
        s[k].0 == id,
    ensures
        has_id(s, id),
        entry_value(s, id) == s[k].1,
{
    assert(has_id(s, id));
    let k2 = choose|k2: int| 0 <= k2 < s.len() && (#[trigger] s[k2]).0 == id;
    if k2 < k {
        assert(s[k2].0 < s[k].0);
    } else if k2 > k {
        assert(s[k].0 < s[k2].0);
    }
}

/// Insert a fresh entry under its id, keeping the ids sorted.
fn insert_entry(d: &mut CliphistData, id: u64, e: CliphistEntry)
    requires
        entries_sorted(old(d)@),
        !has_id(old(d)@, id),
    ensures
        entries_sorted(final(d)@),
        final(d)@.len() == old(d)@.len() + 1,
        has_id(final(d)@, id),
        entry_value(final(d)@, id) == e@,
        forall|id2: u64| #![all_triggers]
            id2 != id ==> (has_id(final(d)@, id2) == has_id(old(d)@, id2)) && (has_id(
                old(d)@,
                id2,
            ) ==> entry_value(final(d)@, id2) == entry_value(old(d)@, id2)),
{
    let ghost vs = d@;
    let n = d.entries.len();
    let mut i: usize = 0;
    while i < n && d.entries[i].0 < id
        invariant
            0 <= i <= n,
            n == d.entries@.len(),
            d == old(d),
            vs == d@,
            forall|j: int| 0 <= j < i ==> (#[trigger] vs[j]).0 < id,
        decreases n - i,
    {
        proof {
            assert(vs[i as int].0 == d.entries@[i as int].0);
        }
        i = i + 1;
    }
    proof {
        if i < n {
            assert(d.entries@[i as int].0 != id) by {
                if d.entries@[i as int].0 == id {
                    assert(vs[i as int].0 == id);
                    assert(has_id(vs, id));
                }
            }
            assert(vs[i as int].0 > id);
        }
    }
    d.entries.insert(i, (id, e));
    proof {
        let ws = d@;
        vs.insert_ensures(i as int, (id, e@));
        assert(ws =~= vs.insert(i as int, (id, e@)));
        assert(entries_sorted(ws)) by {
            assert forall|p: int, q: int| 0 <= p < q < ws.len() implies ws[p].0 < ws[q].0 by {
                if q < i {
                } else if p > i {
                    assert(ws[p] == vs[p - 1] && ws[q] == vs[q - 1]);
                } else if p < i && q == i {
                    assert(ws[p] == vs[p] && ws[q].0 == id);
                } else if p == i && q > i {
                    assert(ws[p].0 == id && ws[q] == vs[q - 1]);
                    assert(vs[i as int].0 > id);
                    if q - 1 > i {
                        assert(vs[i as int].0 < vs[q - 1].0);
                    }
                } else if p < i && q > i {
                    assert(ws[p] == vs[p] && ws[q] == vs[q - 1]);
                    assert(vs[p].0 < id);
                    assert(vs[i as int].0 > id);
                    if q - 1 > i {
                        assert(vs[i as int].0 < vs[q - 1].0);
                    }
                }
            }
        }
        lemma_entry_unique(ws, id, i as int);
        assert forall|id2: u64| #![all_triggers] id2 != id implies (has_id(ws, id2) == has_id(
            vs,
            id2,
        )) && (has_id(vs, id2) ==> entry_value(ws, id2) == entry_value(vs, id2)) by {
            if has_id(vs, id2) {
                let k = choose|k: int| 0 <= k < vs.len() && (#[trigger] vs[k]).0 == id2;
                lemma_entry_unique(vs, id2, k);
                if k < i {
                    assert(ws[k] == vs[k]);
                    lemma_entry_unique(ws, id2, k);
                } else {
                    assert(ws[k + 1] == vs[k]);
                    lemma_entry_unique(ws, id2, k + 1);
                }
            }
            if has_id(ws, id2) {
                let k = choose|k: int| 0 <= k < ws.len() && (#[trigger] ws[k]).0 == id2;
                if k < i {
                    assert(vs[k] == ws[k]);
                    assert(has_id(vs, id2));
                } else {
                    assert(k != i);
                    assert(vs[k - 1] == ws[k]);
                    assert(has_id(vs, id2));
                }
            }
        }
    }
}

/// Is an id already among the entries?
fn contains_id(d: &CliphistData, id: u64) -> (r: bool)
    ensures
        r == has_id(d@, id),
{
    let n = d.entries.len();
    let mut i: usize = 0;
    while i < n
        invariant
            0 <= i <= n,
            n == d.entries@.len(),
            forall|j: int| 0 <= j < i ==> (#[trigger] d@[j]).0 != id,
        decreases n - i,
    {
        if d.entries[i].0 == id {
            proof {
                assert(d@[i as int].0 == id);
            }
            return true;
        }
        i = i + 1;
    }
    false
}

} // verus!
