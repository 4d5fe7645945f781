//! The typed views of listing responses: library entries from a
//! directory listing, queue items from a queue listing, and the player
//! snapshot from a status query. Each record's display name falls back
//! from its explicit title tag to the final segment of its path.

use vstd::prelude::*;
use vstd::string::*;
use crate::codec::{all_digits, dec_val, parse_i32, parse_i32_spec, parse_u32, str_eq};
use crate::result::PropertyMap;

verus! {

/// The trailing path separators removed.
pub open spec fn trim_slashes(p: Seq<char>) -> Seq<char>
    decreases p.len(),
{
    if p.len() > 0 && p.last() == '/' {
        trim_slashes(p.drop_last())
    } else {
        p
    }
}

/// The position where the final path segment begins: just after the
/// last separator, or the start when there is none.
pub open spec fn seg_start(q: Seq<char>) -> int
    decreases q.len(),
{
    if q.len() == 0 {
        0
    } else if q.last() == '/' {
        q.len() as int
    } else {
        seg_start(q.drop_last())
    }
}

/// The display name derived from a path: its final segment, ignoring
/// trailing separators; paths without a usable final segment (empty,
/// or ending in the current- or parent-directory marker) fall back to
/// a placeholder.
pub open spec fn display_name(p: Seq<char>) -> Seq<char> {
    let q = trim_slashes(p);
    let seg = q.skip(seg_start(q));
    if seg.len() == 0 || seg == (".")@ || seg == ("..")@ {
        ("n/a")@
    } else {
        seg
    }
}

/// Derives the display name of a path.
pub fn display_name_of(path: &str) -> (r: String)
    ensures
        r@ == display_name(path@),
{
    let len = path.unicode_len();
    proof {
        assert(path@.take(len as int) =~= path@);
    }
    let mut end = len;
    while end > 0 && path.get_char(end - 1) == '/'
        invariant
            end <= len,
            len == path@.len(),
            trim_slashes(path@) == trim_slashes(path@.take(end as int)),
        decreases end,
    {
        proof {
            let pre = path@.take(end as int);
            assert(pre.last() == path@[end - 1]);
            assert(pre.drop_last() =~= path@.take(end - 1));
        }
        end = end - 1;
    }
    let ghost q = path@.take(end as int);
    proof {
        if end > 0 {
            assert(q.last() == path@[end - 1]);
            assert(trim_slashes(q) == q);
        } else {
            assert(q.len() == 0);
            assert(trim_slashes(q) == q);
        }
        assert(trim_slashes(path@) == q);
        assert(q.take(end as int) =~= q);
    }
    let mut start = end;
    while start > 0 && path.get_char(start - 1) != '/'
        invariant
            start <= end,
            end <= len,
            len == path@.len(),
            q == path@.take(end as int),
            seg_start(q) == seg_start(q.take(start as int)),
        decreases start,
    {
        proof {
            let pre = q.take(start as int);
            assert(pre.last() == q[start - 1]);
            assert(q[start - 1] == path@[start - 1]);
            assert(pre.drop_last() =~= q.take(start - 1));
        }
        start = start - 1;
    }
    proof {
        if start > 0 {
            let pre = q.take(start as int);
            assert(pre.last() == q[start - 1]);
            assert(q[start - 1] == path@[start - 1]);
            assert(seg_start(q) == start);
        } else {
            assert(q.take(0) =~= Seq::<char>::empty());
            assert(seg_start(q) == 0);
        }
    }
    let seg = path.substring_char(start, end);
    proof {
        assert(seg@ =~= q.skip(seg_start(q)));
    }
    let seg_len = seg.unicode_len();
    if seg_len == 0 {
        String::from_str("n/a")
    } else if str_eq(seg, ".") || str_eq(seg, "..") {
        String::from_str("n/a")
    } else {
        String::from_str(seg)
    }
}

/// One entry of a directory listing.
#[derive(Debug, PartialEq)]
pub enum Entry {
    Song { track: Option<i32>, name: String, artist: String, path: String },
    Directory { name: String, path: String },
    Playlist { name: String, path: String },
}

/// The view of one entry.
pub enum EntryView {
    Song { track: Option<int>, name: Seq<char>, artist: Seq<char>, path: Seq<char> },
    Directory { name: Seq<char>, path: Seq<char> },
    Playlist { name: Seq<char>, path: Seq<char> },
}

impl View for Entry {
    type V = EntryView;

    open spec fn view(&self) -> EntryView {
        match self {
            Entry::Song { track, name, artist, path } => EntryView::Song {
                track: match track {
                    Some(t) => Some(*t as int),
                    None => None,
                },
                name: name@,
                artist: artist@,
                path: path@,
            },
            Entry::Directory { name, path } => EntryView::Directory { name: name@, path: path@ },
            Entry::Playlist { name, path } => EntryView::Playlist { name: name@, path: path@ },
        }
    }
}

/// The entry a record describes, if any: a `file` key makes a song
/// (title tag or file name, artist tag or empty, track tag when it
/// parses), a `directory` or `playlist` key makes the matching variant
/// named after its path's final segment.
pub open spec fn entry_of(m: Map<Seq<char>, Seq<char>>) -> Option<EntryView> {
    if m.contains_key(("file")@) {
        Some(
            EntryView::Song {
                track: if m.contains_key(("Track")@) {
                    parse_i32_spec(m[("Track")@])
                } else {
                    None
                },
                name: if m.contains_key(("Title")@) {
                    m[("Title")@]
                } else {
                    display_name(m[("file")@])
                },
                artist: if m.contains_key(("Artist")@) {
                    m[("Artist")@]
                } else {
                    Seq::empty()
                },
                path: m[("file")@],
            },
        )
    } else if m.contains_key(("directory")@) {
        Some(
            EntryView::Directory {
                name: display_name(m[("directory")@]),
                path: m[("directory")@],
            },
        )
    } else if m.contains_key(("playlist")@) {
        Some(
            EntryView::Playlist {
                name: display_name(m[("playlist")@]),
                path: m[("playlist")@],
            },
        )
    } else {
        None
    }
}

/// The entries of a record sequence, in order, records that describe
/// none skipped.
pub open spec fn entries_of(ms: Seq<Map<Seq<char>, Seq<char>>>) -> Seq<EntryView>
    decreases ms.len(),
{
    if ms.len() == 0 {
        Seq::empty()
    } else {
        entries_of(ms.drop_last()) + (match entry_of(ms.last()) {
            Some(e) => seq![e],
            None => Seq::empty(),
        })
    }
}

/// The views of a list of entries.
pub open spec fn entry_views(es: Seq<Entry>) -> Seq<EntryView> {
    es.map_values(|e: Entry| e@)
}

/// The views of a list of records.
pub open spec fn record_views(rs: Seq<PropertyMap>) -> Seq<Map<Seq<char>, Seq<char>>> {
    rs.map_values(|m: PropertyMap| m@)
}

/// Turns the records of a directory listing into entries, in record
/// order.
pub fn entries_from(records: &Vec<PropertyMap>) -> (r: Vec<Entry>)
    ensures
        entry_views(r@) == entries_of(record_views(records@)),
{
    let ghost all = record_views(records@);
    let mut out: Vec<Entry> = Vec::new();
    proof {
        assert(entry_views(out@) =~= entries_of(all.take(0)));
    }
    let mut i: usize = 0;
    while i < records.len()
        invariant
            i <= records.len(),
            all == record_views(records@),
            entry_views(out@) == entries_of(all.take(i as int)),
        decreases records.len() - i,
    {
        let m = &records[i];
        proof {
            assert(all[i as int] == records@[i as int]@);
            assert(all.take(i + 1).drop_last() =~= all.take(i as int));
            assert(all.take(i + 1).last() == all[i as int]);
        }
        let entry: Option<Entry> = if let Some(file) = m.get("file") {
            let track: Option<i32> = match m.get("Track") {
                Some(t) => parse_i32(t.as_str()),
                None => None,
            };
            let name: String = match m.get("Title") {
                Some(t) => t.clone(),
                None => display_name_of(file.as_str()),
            };
            let artist: String = match m.get("Artist") {
                Some(a) => a.clone(),
                None => String::new(),
            };
            Some(Entry::Song { track, name, artist, path: file.clone() })
        } else if let Some(dir) = m.get("directory") {
            Some(Entry::Directory { name: display_name_of(dir.as_str()), path: dir.clone() })
        } else if let Some(pl) = m.get("playlist") {
            Some(Entry::Playlist { name: display_name_of(pl.as_str()), path: pl.clone() })
        } else {
            None
        };
        match entry {
            Some(e) => {
                proof {
                    assert(Some(e@) == entry_of(all[i as int]));
                }
                let ghost pre = entry_views(out@);
                out.push(e);
                proof {
                    assert(entry_views(out@).drop_last() =~= pre);
                    assert(entry_views(out@) =~= entries_of(all.take(i + 1)));
                }
            },
            None => {
                proof {
                    assert(entry_of(all[i as int]) is None);
                    assert(entries_of(all.take(i + 1)) =~= entries_of(all.take(i as int)));
                }
            },
        }
        i = i + 1;
    }
    proof {
        assert(all.take(records.len() as int) =~= all);
    }
    out
}

/// One item of the play queue.
#[derive(Debug, PartialEq)]
pub struct QueueItem {
    pub id: u32,
    pub file: String,
    pub title: String,
    pub artist: Option<String>,
    pub playing: bool,
}

/// The view of one queue item.
pub struct QueueItemView {
    pub id: int,
    pub file: Seq<char>,
    pub title: Seq<char>,
    pub artist: Option<Seq<char>>,
    pub playing: bool,
}

impl View for QueueItem {
    type V = QueueItemView;

    open spec fn view(&self) -> QueueItemView {
        QueueItemView {
            id: self.id as int,
            file: self.file@,
            title: self.title@,
            artist: match &self.artist {
                Some(a) => Some(a@),
                None => None,
            },
            playing: self.playing,
        }
    }
}

/// A queue record the daemon can send: it names its file and carries a
/// numeric id.
pub open spec fn wf_queue_record(m: Map<Seq<char>, Seq<char>>) -> bool {
    m.contains_key(("file")@) && m.contains_key(("Id")@) && {
        let id = m[("Id")@];
        id.len() > 0 && all_digits(id) && dec_val(id) <= u32::MAX as int
    }
}

/// The currently playing song's id, as the status snapshot reports it.
pub open spec fn songid_of(status: Map<Seq<char>, Seq<char>>) -> Option<Seq<char>> {
    if status.contains_key(("songid")@) {
        Some(status[("songid")@])
    } else {
        None
    }
}

/// The queue item a record describes: its id and file, the title tag
/// falling back to the file path, the artist tag if any, and whether
/// its id equals the currently playing id.
pub open spec fn queue_item_of(m: Map<Seq<char>, Seq<char>>, songid: Option<Seq<char>>)
    -> QueueItemView {
    QueueItemView {
        id: dec_val(m[("Id")@]),
        file: m[("file")@],
        title: if m.contains_key(("Title")@) {
            m[("Title")@]
        } else {
            m[("file")@]
        },
        artist: if m.contains_key(("Artist")@) {
            Some(m[("Artist")@])
        } else {
            None
        },
        playing: songid == Some(m[("Id")@]),
    }
}

/// Turns the records of a queue listing into queue items, comparing
/// each record's id against the status snapshot's current song id.
pub fn queue_from(status: &PropertyMap, records: &Vec<PropertyMap>) -> (r: Vec<QueueItem>)
    requires
        forall|i: int|
            0 <= i < records@.len() ==> wf_queue_record(#[trigger] record_views(records@)[i]),
    ensures
        r@.len() == records@.len(),
        forall|i: int|
            0 <= i < r@.len() ==> (#[trigger] r@[i])@ == queue_item_of(
                record_views(records@)[i],
                songid_of(status@),
            ),
{
    let ghost all = record_views(records@);
    let songid = status.get("songid");
    let mut out: Vec<QueueItem> = Vec::new();
    let mut i: usize = 0;
    while i < records.len()
        invariant
            i <= records.len(),
            all == record_views(records@),
            forall|t: int| 0 <= t < all.len() ==> wf_queue_record(#[trigger] all[t]),
            match songid {
                Some(v) => songid_of(status@) == Some(v@),
                None => songid_of(status@) is None,
            },
            out@.len() == i,
            forall|t: int|
                0 <= t < i ==> (#[trigger] out@[t])@ == queue_item_of(all[t], songid_of(status@)),
        decreases records.len() - i,
    {
        let m = &records[i];
        proof {
            assert(all[i as int] == records@[i as int]@);
        }
        let id_str = match m.get("Id") {
            Some(v) => v,
            None => {
                proof {
                    assert(false);
                }
                return out;
            },
        };
        let id = match parse_u32(id_str.as_str()) {
            Some(v) => v,
            None => {
                proof {
                    assert(false);
                }
                return out;
            },
        };
        let file = match m.get("file") {
            Some(v) => v,
            None => {
                proof {
                    assert(false);
                }
                return out;
            },
        };
        let title: String = match m.get("Title") {
            Some(t) => t.clone(),
            None => file.clone(),
        };
        let artist: Option<String> = match m.get("Artist") {
            Some(a) => Some(a.clone()),
            None => None,
        };
        let playing = match songid {
            Some(v) => str_eq(v.as_str(), id_str.as_str()),
            None => false,
        };
        let item = QueueItem { id, file: file.clone(), title, artist, playing };
        proof {
            assert(item@ == queue_item_of(all[i as int], songid_of(status@)));
        }
        out.push(item);
        i = i + 1;
    }
    out
}

/// The transport-independent part of the player snapshot: the playback
/// state word, the four boolean settings, and the display name of the
/// current song if one is loaded.
#[derive(Debug, PartialEq)]
pub struct PlayerSnapshot {
    pub state: String,
    pub consume: bool,
    pub random: bool,
    pub repeat: bool,
    pub single: bool,
    pub name: Option<String>,
}

/// Whether a status snapshot reports a setting as switched on.
pub open spec fn flag_on(status: Map<Seq<char>, Seq<char>>, key: Seq<char>) -> bool {
    status[key] == ("1")@
}

/// Builds the player snapshot from a status query and a current-song
/// query. An empty current-song response means nothing is loaded; a
/// nonempty one names its file, and its display name falls back from
/// the title tag to the file path.
pub fn player_snapshot(status: &PropertyMap, song: &PropertyMap) -> (r: PlayerSnapshot)
    requires
        status@.contains_key(("state")@),
        status@.contains_key(("consume")@),
        status@.contains_key(("random")@),
        status@.contains_key(("repeat")@),
        status@.contains_key(("single")@),
        song@ == Map::<Seq<char>, Seq<char>>::empty() || song@.contains_key(("file")@),
    ensures
        r.state@ == status@[("state")@],
        r.consume == flag_on(status@, ("consume")@),
        r.random == flag_on(status@, ("random")@),
        r.repeat == flag_on(status@, ("repeat")@),
        r.single == flag_on(status@, ("single")@),
        song@ == Map::<Seq<char>, Seq<char>>::empty() ==> r.name is None,
        song@ != Map::<Seq<char>, Seq<char>>::empty() ==> (r.name matches Some(n) && n@ == (
        if song@.contains_key(("Title")@) {
            song@[("Title")@]
        } else {
            song@[("file")@]
        })),
{
    let state = match status.get("state") {
        Some(v) => v.clone(),
        None => {
            proof {
                assert(false);
            }
            String::new()
        },
    };
    let consume = flag_of(status, "consume");
    let random = flag_of(status, "random");
    let repeat = flag_of(status, "repeat");
    let single = flag_of(status, "single");
    let name: Option<String> = if song.is_empty() {
        None
    } else {
        match song.get("Title") {
            Some(t) => Some(t.clone()),
            None => match song.get("file") {
                Some(f) => Some(f.clone()),
                None => {
                    proof {
                        assert(false);
                    }
                    None
                },
            },
        }
    };
    PlayerSnapshot { state, consume, random, repeat, single, name }
}

/// Reads one boolean setting out of a status snapshot.
fn flag_of(status: &PropertyMap, key: &str) -> (r: bool)
    requires
        status@.contains_key(key@),
    ensures
        r == flag_on(status@, key@),
{
    match status.get(key) {
        Some(v) => str_eq(v.as_str(), "1"),
        None => {
            proof {
                assert(false);
            }
            false
        },
    }
}

} // verus!
