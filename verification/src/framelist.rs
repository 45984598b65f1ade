//! The frame index: an ordered list of numbered frame files built from a
//! directory listing.  Entries whose names fit the naming grammar are kept,
//! sorted ascending by frame id; entries with equal ids keep the order in
//! which the directory listed them; everything else is silently skipped.

use vstd::prelude::*;

use crate::framename::{frame_id_value, yields_frame_id};

verus! {

/// One numbered frame file: its id and where it lives.
#[derive(Debug, Clone)]
pub struct Frame(pub u64, pub String);

/// Mathematical image of a [`Frame`].
pub struct FrameView {
    pub id: u64,
    pub path: Seq<char>,
}

impl View for Frame {
    type V = FrameView;

    open spec fn view(&self) -> FrameView {
        FrameView { id: self.0, path: self.1@ }
    }
}

impl PartialEq for Frame {
    fn eq(&self, other: &Self) -> (r: bool) {
        self.0 == other.0 && self.1 == other.1
    }
}

impl vstd::std_specs::cmp::PartialEqSpecImpl for Frame {
    open spec fn obeys_eq_spec() -> bool {
        true
    }

    open spec fn eq_spec(&self, other: &Self) -> bool {
        self.0 == other.0 && self.1@ == other.1@
    }
}

impl Eq for Frame {

}

/// Frames order by id alone; paths never take part in the comparison.
impl PartialOrd for Frame {
    fn partial_cmp(&self, other: &Self) -> (r: Option<core::cmp::Ordering>) {
        if self.0 < other.0 {
            Some(core::cmp::Ordering::Less)
        } else if self.0 == other.0 {
            Some(core::cmp::Ordering::Equal)
        } else {
            Some(core::cmp::Ordering::Greater)
        }
    }
}

impl vstd::std_specs::cmp::PartialOrdSpecImpl for Frame {
    open spec fn obeys_partial_cmp_spec() -> bool {
        true
    }

    open spec fn partial_cmp_spec(&self, other: &Self) -> Option<core::cmp::Ordering> {
        if self.0 < other.0 {
            Some(core::cmp::Ordering::Less)
        } else if self.0 == other.0 {
            Some(core::cmp::Ordering::Equal)
        } else {
            Some(core::cmp::Ordering::Greater)
        }
    }
}

/// One directory entry as the caller saw it: the bare filename that the
/// grammar is matched against, and the full path stored with the frame.
#[derive(Debug, Clone)]
pub struct SourceEntry {
    pub name: String,
    pub path: String,
}

/// Mathematical image of a [`SourceEntry`].
pub struct SourceEntryView {
    pub name: Seq<char>,
    pub path: Seq<char>,
}

impl View for SourceEntry {
    type V = SourceEntryView;

    open spec fn view(&self) -> SourceEntryView {
        SourceEntryView { name: self.name@, path: self.path@ }
    }
}

/// The images of a sequence of entries.
pub open spec fn entry_views(es: Seq<SourceEntry>) -> Seq<SourceEntryView> {
    es.map_values(|e: SourceEntry| e@)
}

/// The images of a sequence of frames.
pub open spec fn frames_view(fs: Seq<Frame>) -> Seq<FrameView> {
    fs.map_values(|f: Frame| f@)
}

/// The frame an entry contributes: its id read from the filename, or
/// nothing when the name does not yield one.
pub open spec fn entry_frame(e: SourceEntryView) -> Option<FrameView> {
    if yields_frame_id(e.name) {
        Some(FrameView { id: frame_id_value(e.name) as u64, path: e.path })
    } else {
        None
    }
}

/// Inserts `f` after every element whose id does not exceed `f.id`:
/// ascending order is kept and equal ids land behind their elders.
pub open spec fn insert_by_id(s: Seq<FrameView>, f: FrameView) -> Seq<FrameView>
    decreases s.len(),
{
    if s.len() == 0 {
        seq![f]
    } else if s.last().id <= f.id {
        s.push(f)
    } else {
        insert_by_id(s.drop_last(), f).push(s.last())
    }
}

/// The frame index an entry listing denotes: matching entries inserted
/// one after another, in listing order, each behind its equals.
pub open spec fn indexed_frames(es: Seq<SourceEntryView>) -> Seq<FrameView>
    decreases es.len(),
{
    if es.len() == 0 {
        Seq::empty()
    } else {
        let prev = indexed_frames(es.drop_last());
        match entry_frame(es.last()) {
            Some(f) => insert_by_id(prev, f),
            None => prev,
        }
    }
}

/// The frames of the matching entries, still in listing order.
pub open spec fn matched_frames(es: Seq<SourceEntryView>) -> Seq<FrameView>
    decreases es.len(),
{
    if es.len() == 0 {
        Seq::empty()
    } else {
        let prev = matched_frames(es.drop_last());
        match entry_frame(es.last()) {
            Some(f) => prev.push(f),
            None => prev,
        }
    }
}

/// Ascending by id, duplicates allowed.
pub open spec fn sorted_by_id(s: Seq<FrameView>) -> bool {
    forall|i: int, j: int| 0 <= i <= j < s.len() ==> s[i].id <= s[j].id
}

/// Where `insert_by_id` puts the new element, position by position.
proof fn lemma_insert_by_id_at(s: Seq<FrameView>, f: FrameView, p: int)
    requires
        0 <= p <= s.len(),
        forall|k: int| p <= k < s.len() ==> s[k].id > f.id,
        p > 0 ==> s[p - 1].id <= f.id,
    ensures
        insert_by_id(s, f) =~= s.take(p).push(f) + s.skip(p),
    decreases s.len(),
{
    if s.len() == 0 {
        assert(insert_by_id(s, f) =~= seq![f]);
    } else if s.last().id <= f.id {
        assert(p == s.len());
    } else {
        assert(p < s.len());
        lemma_insert_by_id_at(s.drop_last(), f, p);
        assert(s.drop_last().take(p) =~= s.take(p));
    }
}

/// Every id bound of a list survives insertion of a bounded element.
proof fn lemma_insert_by_id_bound(s: Seq<FrameView>, f: FrameView, b: u64)
    requires
        forall|k: int| 0 <= k < s.len() ==> (#[trigger] s[k].id) <= b,
        f.id <= b,
    ensures
        forall|k: int|
            0 <= k < insert_by_id(s, f).len() ==> (#[trigger] insert_by_id(s, f)[k].id) <= b,
    decreases s.len(),
{
    if s.len() == 0 {
    } else if s.last().id <= f.id {
    } else {
        assert(forall|k: int|
            0 <= k < s.drop_last().len() ==> (#[trigger] s.drop_last()[k].id) <= b);
        lemma_insert_by_id_bound(s.drop_last(), f, b);
        let t = insert_by_id(s.drop_last(), f);
        assert forall|k: int| 0 <= k < t.push(s.last()).len() implies (#[trigger] t.push(
            s.last(),
        )[k].id) <= b by {
            if k < t.len() {
                assert(t.push(s.last())[k] == t[k]);
            } else {
                assert(t.push(s.last())[k] == s.last());
                assert(s.last().id <= b);
            }
        }
    }
}

/// Insertion keeps the list ascending.
proof fn lemma_insert_by_id_sorted(s: Seq<FrameView>, f: FrameView)
    requires
        sorted_by_id(s),
    ensures
        sorted_by_id(insert_by_id(s, f)),
    decreases s.len(),
{
    if s.len() == 0 {
    } else if s.last().id <= f.id {
    } else {
        assert(sorted_by_id(s.drop_last()));
        lemma_insert_by_id_sorted(s.drop_last(), f);
        assert(forall|k: int|
            0 <= k < s.drop_last().len() ==> (#[trigger] s.drop_last()[k].id) <= s.last().id);
        lemma_insert_by_id_bound(s.drop_last(), f, s.last().id);
        let t = insert_by_id(s.drop_last(), f);
        assert(forall|k: int| 0 <= k < t.len() ==> (#[trigger] t[k].id) <= s.last().id);
        assert(sorted_by_id(t.push(s.last())));
    }
}

/// Insertion adds exactly the new element.
proof fn lemma_insert_by_id_multiset(s: Seq<FrameView>, f: FrameView)
    ensures
        insert_by_id(s, f).to_multiset() =~= s.to_multiset().insert(f),
    decreases s.len(),
{
    broadcast use vstd::seq_lib::group_to_multiset_ensures;

    if s.len() == 0 {
        assert(seq![f] =~= Seq::<FrameView>::empty().push(f));
    } else if s.last().id <= f.id {
    } else {
        lemma_insert_by_id_multiset(s.drop_last(), f);
        assert(s.drop_last().push(s.last()) =~= s);
        assert(insert_by_id(s, f).to_multiset() =~= s.drop_last().to_multiset().insert(f).insert(
            s.last(),
        ));
        assert(s.to_multiset() =~= s.drop_last().to_multiset().insert(s.last()));
        assert(s.drop_last().to_multiset().insert(f).insert(s.last()) =~= s.drop_last()
            .to_multiset().insert(s.last()).insert(f));
    }
}

/// The index is ascending by id, whatever the directory held.
pub proof fn lemma_index_sorted(es: Seq<SourceEntryView>)
    ensures
        sorted_by_id(indexed_frames(es)),
    decreases es.len(),
{
    if es.len() > 0 {
        lemma_index_sorted(es.drop_last());
        match entry_frame(es.last()) {
            Some(f) => lemma_insert_by_id_sorted(indexed_frames(es.drop_last()), f),
            None => {},
        }
    }
}

/// The index holds exactly the frames of the matching entries — every
/// matching file is present, every non-matching file absent, multiplicity
/// included.
pub proof fn lemma_index_complete(es: Seq<SourceEntryView>)
    ensures
        indexed_frames(es).to_multiset() =~= matched_frames(es).to_multiset(),
    decreases es.len(),
{
    broadcast use vstd::seq_lib::group_to_multiset_ensures;

    if es.len() > 0 {
        lemma_index_complete(es.drop_last());
        match entry_frame(es.last()) {
            Some(f) => {
                lemma_insert_by_id_multiset(indexed_frames(es.drop_last()), f);
            },
            None => {},
        }
    }
}

/// When no two matching entries share an id, the index is strictly
/// ascending.
pub proof fn lemma_index_strictly_ascending(es: Seq<SourceEntryView>)
    requires
        forall|a: int, b: int|
            0 <= a < b < matched_frames(es).len() ==> (#[trigger] matched_frames(es)[a].id)
                != (#[trigger] matched_frames(es)[b].id),
    ensures
        forall|i: int, j: int|
            0 <= i < j < indexed_frames(es).len() ==> (#[trigger] indexed_frames(es)[i].id)
                < (#[trigger] indexed_frames(es)[j].id),
{
    broadcast use vstd::seq_lib::group_to_multiset_ensures;

    let m = matched_frames(es);
    let r = indexed_frames(es);
    lemma_index_sorted(es);
    lemma_index_complete(es);
    assert(m.no_duplicates()) by {
        assert forall|a: int, b: int| 0 <= a < b < m.len() implies m[a] != m[b] by {
            assert(m[a].id != m[b].id);
        }
    }
    m.lemma_multiset_has_no_duplicates();
    r.lemma_multiset_has_no_duplicates_conv();
    assert forall|i: int, j: int| 0 <= i < j < r.len() implies r[i].id < r[j].id by {
        assert(r[i].id <= r[j].id);
        if r[i].id == r[j].id {
            assert(r[i] != r[j]);
            assert(m.contains(r[i])) by {
                assert(r.to_multiset().count(r[i]) > 0);
                assert(m.to_multiset().count(r[i]) > 0);
            }
            assert(m.contains(r[j])) by {
                assert(r.to_multiset().count(r[j]) > 0);
                assert(m.to_multiset().count(r[j]) > 0);
            }
            let a = choose|a: int| 0 <= a < m.len() && m[a] == r[i];
            let b = choose|b: int| 0 <= b < m.len() && m[b] == r[j];
            assert(m[a].id == m[b].id);
            assert(false);
        }
    }
}

/// The ordered frame index for one run.
#[derive(Debug)]
pub struct FrameList {
    pub frames: Vec<Frame>,
}

impl View for FrameList {
    type V = Seq<FrameView>;

    open spec fn view(&self) -> Seq<FrameView> {
        frames_view(self.frames@)
    }
}

impl FrameList {
    /// Builds the index from a directory listing: keeps the entries whose
    /// names yield a frame id, ascending by id, listing order on ties.
    pub fn from_entries(entries: Vec<SourceEntry>) -> (r: FrameList)
        ensures
            r@ == indexed_frames(entry_views(entries@)),
            sorted_by_id(r@),
    {
        let ghost evs = entry_views(entries@);
        let mut frames: Vec<Frame> = Vec::new();
        let n: usize = entries.len();
        let mut k: usize = 0;
        while k < n
            invariant
                k <= n,
                n == entries@.len(),
                evs == entry_views(entries@),
                frames_view(frames@) == indexed_frames(evs.take(k as int)),
            decreases n - k,
        {
            proof {
                assert(evs.take(k + 1).drop_last() =~= evs.take(k as int));
                assert(evs.take(k + 1).last() == entries@[k as int]@);
            }
            match crate::framename::frame_id_of_name(entries[k].name.as_str()) {
                Some(id) => {
                    let path = entries[k].path.clone();
                    let f = Frame(id, path);
                    proof {
                        assert(entry_frame(evs.take(k + 1).last()) == Some(f@));
                    }
                    let ghost before = frames_view(frames@);
                    let mut p: usize = frames.len();
                    while p > 0 && frames[p - 1].0 > id
                        invariant
                            p <= frames@.len(),
                            before == frames_view(frames@),
                            forall|t: int|
                                p <= t < before.len() ==> (#[trigger] before[t].id) > id,
                        decreases p,
                    {
                        assert(before[p - 1].id == frames@[p - 1].0);
                        p = p - 1;
                    }
                    proof {
                        assert(p > 0 ==> before[p - 1].id <= id) by {
                            if p > 0 {
                                assert(before[p - 1].id == frames@[p - 1].0);
                            }
                        }
                        lemma_insert_by_id_at(before, f@, p as int);
                    }
                    frames.insert(p, f);
                    proof {
                        assert(frames_view(frames@) =~= before.take(p as int).push(f@)
                            + before.skip(p as int));
                    }
                },
                None => {
                    proof {
                        assert(entry_frame(evs.take(k + 1).last()) is None);
                    }
                },
            }
            k = k + 1;
        }
        proof {
            assert(evs.take(n as int) =~= evs);
            lemma_index_sorted(evs);
        }
        FrameList { frames }
    }

    /// How many frames the index holds.
    pub fn len(&self) -> (r: usize)
        ensures
            r == self@.len(),
    {
        self.frames.len()
    }
}

/// The representative frame of a listing: among the matching entries,
/// the one with the smallest id, the earliest of them on a tie; nothing
/// when no entry matches.
pub open spec fn min_frame_spec(es: Seq<SourceEntryView>) -> Option<FrameView>
    decreases es.len(),
{
    if es.len() == 0 {
        None
    } else {
        let prev = min_frame_spec(es.drop_last());
        match entry_frame(es.last()) {
            None => prev,
            Some(f) => match prev {
                None => Some(f),
                Some(g) => if f.id < g.id {
                    Some(f)
                } else {
                    Some(g)
                },
            },
        }
    }
}

/// The representative frame exists exactly when some entry matches, is
/// one of the matching entries' frames, and none of them has a smaller
/// id.
pub proof fn lemma_min_frame_minimal(es: Seq<SourceEntryView>)
    ensures
        min_frame_spec(es) is Some <==> matched_frames(es).len() > 0,
        min_frame_spec(es) is Some ==> matched_frames(es).contains(min_frame_spec(es)->0),
        min_frame_spec(es) is Some ==> forall|k: int|
            0 <= k < matched_frames(es).len() ==> min_frame_spec(es)->0.id
                <= (#[trigger] matched_frames(es)[k].id),
    decreases es.len(),
{
    if es.len() > 0 {
        lemma_min_frame_minimal(es.drop_last());
        let prev = min_frame_spec(es.drop_last());
        let mp = matched_frames(es.drop_last());
        match entry_frame(es.last()) {
            None => {
                assert(matched_frames(es) == mp);
            },
            Some(f) => {
                assert(matched_frames(es) == mp.push(f));
                if prev is Some {
                    let g = prev->0;
                    let i = choose|i: int| 0 <= i < mp.len() && mp[i] == g;
                    assert(mp.push(f)[i] == g);
                    assert(mp.push(f)[mp.len() as int] == f);
                    assert(forall|k: int|
                        0 <= k < mp.len() ==> (#[trigger] mp.push(f)[k]) == mp[k]);
                } else {
                    assert(mp.len() == 0);
                    assert(mp.push(f)[0] == f);
                }
            },
        }
    }
}

/// Scans a listing for the representative frame: the first one carrying
/// the smallest id among the matching entries.
pub fn min_frame(entries: &Vec<SourceEntry>) -> (r: Option<Frame>)
    ensures
        r is Some <==> min_frame_spec(entry_views(entries@)) is Some,
        r is Some ==> min_frame_spec(entry_views(entries@)) == Some(r->0@),
{
    let ghost evs = entry_views(entries@);
    let mut best: Option<Frame> = None;
    let n: usize = entries.len();
    let mut k: usize = 0;
    while k < n
        invariant
            k <= n,
            n == entries@.len(),
            evs == entry_views(entries@),
            best is Some <==> min_frame_spec(evs.take(k as int)) is Some,
            best is Some ==> min_frame_spec(evs.take(k as int)) == Some(best->0@),
        decreases n - k,
    {
        proof {
            assert(evs.take(k + 1).drop_last() =~= evs.take(k as int));
            assert(evs.take(k + 1).last() == entries@[k as int]@);
        }
        match crate::framename::frame_id_of_name(entries[k].name.as_str()) {
            Some(id) => {
                let replace = match &best {
                    None => true,
                    Some(b) => id < b.0,
                };
                if replace {
                    let path = entries[k].path.clone();
                    best = Some(Frame(id, path));
                }
                proof {
                    assert(entry_frame(evs.take(k + 1).last()) is Some);
                }
            },
            None => {
                proof {
                    assert(entry_frame(evs.take(k + 1).last()) is None);
                }
            },
        }
        k = k + 1;
    }
    proof {
        assert(evs.take(n as int) =~= evs);
    }
    best
}

} // verus!
