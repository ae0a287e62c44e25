//! The queue plus how much of it mpv currently holds.
//!
//! mpv's playlist is always a contiguous slice of the queue:
//!
//! ```text
//! mpv playlist == queue.items[origin .. origin + head + 1 + tail]
//! ```
//!
//! The `+ 1` is the current item, whose mpv position is therefore
//! `queue.index - origin` ([`PlaylistWindow::expected_pos`]). A prepend does
//! not move `origin`, and the current position is `index - origin`, not
//! `head`: the two coincide right after a prepend and diverge as soon as a
//! playlist jump moves `index`.
use crate::json::Json;
use crate::mpv::EndFileReason;
use crate::text::{decimal, owned, push_str, u64_decimal};
use vstd::prelude::*;

pub use crate::cast::{
    end_file_action_for, playlist_eof, playlist_eof_for, queue_index_at, EndFileAction, PlaylistEof,
    Queue,
};

verus! {

/// What an mpv `end-file` means for the session.
pub fn end_file_action(transitioning: bool, stopping: bool, reason: EndFileReason) -> (r:
    EndFileAction)
    ensures
        r == end_file_action_for(transitioning, stopping, reason),
{
    if transitioning || stopping {
        return EndFileAction::Ignore;
    }
    match reason {
        EndFileReason::Eof | EndFileReason::Redirect => EndFileAction::Advance,
        EndFileReason::Quit | EndFileReason::Stop | EndFileReason::Error => EndFileAction::Stop,
        EndFileReason::Other => EndFileAction::Ignore,
    }
}

/// `playlist-next` or an OSC jump ends the old file with `stop`; while mpv
/// still holds a playlist that is not a user Stop.
pub fn ignore_stop_for_playlist(reason: EndFileReason, playlist_count: usize) -> (r: bool)
    ensures
        r == (reason == EndFileReason::Stop && playlist_count > 1),
{
    match reason {
        EndFileReason::Stop => playlist_count > 1,
        _ => false,
    }
}

/// The `PlaylistItemId` Jellyfin's now-playing view uses for queue entry `i`.
pub open spec fn playlist_item_id(i: int) -> Seq<char> {
    "playlistItem"@ + decimal(i as nat)
}

/// The `NowPlayingQueue` entry for queue position `i` holding item `id`.
pub open spec fn is_queue_entry(v: Json, i: int, id: Seq<char>) -> bool {
    &&& v matches Json::Object(fields)
    &&& fields@.len() == 2
    &&& fields@[0].0@ == "Id"@
    &&& fields@[0].1 matches Json::Str(s) && s@ == id
    &&& fields@[1].0@ == "PlaylistItemId"@
    &&& fields@[1].1 matches Json::Str(p) && p@ == playlist_item_id(i)
}

/// The rendered `NowPlayingQueue` for `ids`.
pub open spec fn is_now_playing(entries: Seq<Json>, ids: Seq<String>) -> bool {
    &&& entries.len() == ids.len()
    &&& forall|i: int| 0 <= i < ids.len() ==> #[trigger] is_queue_entry(entries[i], i, ids[i]@)
}

fn queue_entry(i: usize, id: &String) -> (v: Json)
    ensures
        is_queue_entry(v, i as int, id@),
{
    let mut pid = String::new();
    push_str(&mut pid, "playlistItem");
    let n = u64_decimal(i as u64);
    push_str(&mut pid, n.as_str());
    let mut fields: Vec<(String, Json)> = Vec::new();
    fields.push((owned("Id"), Json::Str(id.clone())));
    fields.push((owned("PlaylistItemId"), Json::Str(pid)));
    Json::Object(fields)
}

pub fn render_now_playing(items: &Vec<String>) -> (r: Vec<Json>)
    ensures
        is_now_playing(r@, items@),
{
    let mut out: Vec<Json> = Vec::new();
    let mut i: usize = 0;
    while i < items.len()
        invariant
            i <= items.len(),
            out@.len() == i,
            forall|j: int| 0 <= j < i ==> #[trigger] is_queue_entry(out@[j], j, items@[j]@),
        decreases items.len() - i,
    {
        let e = queue_entry(i, &items[i]);
        out.push(e);
        i = i + 1;
    }
    out
}

/// Copies of `v[lo..hi]`.
pub fn clone_range(v: &Vec<String>, lo: usize, hi: usize) -> (r: Vec<String>)
    requires
        lo <= hi <= v@.len(),
    ensures
        r@ == v@.subrange(lo as int, hi as int),
{
    let mut r: Vec<String> = Vec::new();
    let mut i: usize = lo;
    while i < hi
        invariant
            lo <= i <= hi <= v@.len(),
            r@ == v@.subrange(lo as int, i as int),
        decreases hi - i,
    {
        r.push(v[i].clone());
        assert(v@.subrange(lo as int, i + 1) == v@.subrange(lo as int, i as int).push(v@[i as int]));
        i = i + 1;
    }
    r
}

/// What an enqueue asks of mpv.
#[derive(Debug, Clone, Copy, PartialEq, Eq, Structural)]
pub enum EnqueueOutcome {
    /// Nothing was playing: start the queue's current item.
    StartFresh,
    /// Append the entries past mpv's window to its playlist.
    FillForward,
    /// The queue changed; mpv's playlist stays as it is.
    QueueOnly,
}

/// The queue and the slice of it mpv holds.
#[derive(Debug)]
pub struct PlaylistWindow {
    queue: Queue,
    /// Queue index at mpv playlist position 0.
    origin: usize,
    /// Queue entries already in mpv before the current one.
    head: usize,
    /// Queue entries already in mpv after the current one.
    tail: usize,
    /// Previous episodes spliced into the queue but not yet into mpv; they
    /// wait until the current file is loaded, because `loadfile ... replace`
    /// wipes mpv's playlist.
    pending_prepend: Vec<String>,
    /// The rendered `NowPlayingQueue`, rebuilt whenever the queue changes.
    now_playing: Vec<Json>,
}

impl PlaylistWindow {
    /// The rendered `NowPlayingQueue` always matches the queue.
    pub closed spec fn wf(&self) -> bool {
        is_now_playing(self.now_playing@, self.queue.items@)
    }

    pub closed spec fn queue_spec(&self) -> Queue {
        self.queue
    }

    pub closed spec fn origin_spec(&self) -> nat {
        self.origin as nat
    }

    pub closed spec fn head_spec(&self) -> nat {
        self.head as nat
    }

    pub closed spec fn tail_spec(&self) -> nat {
        self.tail as nat
    }

    pub closed spec fn pending_spec(&self) -> Seq<String> {
        self.pending_prepend@
    }

    /// Where the window claims mpv's playlist ends in the queue.
    pub open spec fn window_end(&self) -> int {
        (self.origin_spec() + self.head_spec() + 1 + self.tail_spec()) as int
    }

    /// The slice of the queue this window claims mpv is holding.
    pub open spec fn mpv_playlist_spec(&self) -> Seq<String> {
        let len = self.queue_spec().items@.len() as int;
        let end = if self.window_end() < len {
            self.window_end()
        } else {
            len
        };
        if self.origin_spec() <= end {
            self.queue_spec().items@.subrange(self.origin_spec() as int, end)
        } else {
            Seq::empty()
        }
    }

    pub open spec fn expected_pos_spec(&self) -> nat {
        if self.queue_spec().index >= self.origin_spec() {
            (self.queue_spec().index - self.origin_spec()) as nat
        } else {
            0
        }
    }

    /// An empty queue that mpv holds nothing of.
    pub fn new() -> (w: PlaylistWindow)
        ensures
            w.wf(),
            w.queue_spec().items@.len() == 0,
            w.queue_spec().index == 0,
            w.origin_spec() == 0,
            w.head_spec() == 0,
            w.tail_spec() == 0,
            w.pending_spec().len() == 0,
    {
        PlaylistWindow {
            queue: Queue { items: Vec::new(), index: 0 },
            origin: 0,
            head: 0,
            tail: 0,
            pending_prepend: Vec::new(),
            now_playing: Vec::new(),
        }
    }

    /// mpv is about to hold the current item and nothing else.
    pub fn reset_to_current(&mut self)
        requires
            old(self).wf(),
        ensures
            final(self).wf(),
            final(self).queue_spec() == old(self).queue_spec(),
            final(self).origin_spec() == old(self).queue_spec().index,
            final(self).head_spec() == 0,
            final(self).tail_spec() == 0,
            final(self).pending_spec().len() == 0,
    {
        self.origin = self.queue.index;
        self.head = 0;
        self.tail = 0;
        self.pending_prepend.clear();
    }

    /// mpv holds nothing. `origin` is left alone; the next
    /// `reset_to_current` sets it.
    pub fn clear(&mut self)
        requires
            old(self).wf(),
        ensures
            final(self).wf(),
            final(self).queue_spec() == old(self).queue_spec(),
            final(self).origin_spec() == old(self).origin_spec(),
            final(self).head_spec() == 0,
            final(self).tail_spec() == 0,
            final(self).pending_spec().len() == 0,
    {
        self.head = 0;
        self.tail = 0;
        self.pending_prepend.clear();
    }

    pub fn origin(&self) -> (r: usize)
        ensures
            r == self.origin_spec(),
    {
        self.origin
    }

    pub fn head(&self) -> (r: usize)
        ensures
            r == self.head_spec(),
    {
        self.head
    }

    pub fn tail(&self) -> (r: usize)
        ensures
            r == self.tail_spec(),
    {
        self.tail
    }

    /// The current item's position in mpv's playlist: `index - origin`.
    pub fn expected_pos(&self) -> (r: usize)
        ensures
            r == self.expected_pos_spec(),
    {
        if self.queue.index >= self.origin {
            self.queue.index - self.origin
        } else {
            0
        }
    }

    /// The queue index mpv playlist position `playlist_pos` refers to, if it
    /// is inside the queue.
    pub fn queue_index_at(&self, playlist_pos: usize) -> (r: Option<usize>)
        ensures
            r == (if self.origin_spec() + playlist_pos < self.queue_spec().items@.len() {
                Some((self.origin_spec() + playlist_pos) as usize)
            } else {
                None
            }),
    {
        queue_index_at(self.origin, playlist_pos, self.queue.items.len())
    }

    /// Queue entries past everything mpv already holds.
    pub fn forward_ids(&self) -> (r: Vec<String>)
        requires
            self.window_end() <= usize::MAX,
        ensures
            r@ == (if self.window_end() <= self.queue_spec().items@.len() {
                self.queue_spec().items@.skip(self.window_end())
            } else {
                Seq::empty()
            }),
    {
        let start = self.origin + self.head + 1 + self.tail;
        if start <= self.queue.items.len() {
            clone_range(&self.queue.items, start, self.queue.items.len())
        } else {
            Vec::new()
        }
    }

    /// Records that `n` entries were appended to the end of mpv's playlist.
    pub fn note_appended(&mut self, n: usize)
        requires
            old(self).wf(),
            old(self).tail_spec() + n <= usize::MAX,
        ensures
            final(self).wf(),
            final(self).queue_spec() == old(self).queue_spec(),
            final(self).origin_spec() == old(self).origin_spec(),
            final(self).head_spec() == old(self).head_spec(),
            final(self).tail_spec() == old(self).tail_spec() + n,
            final(self).pending_spec() == old(self).pending_spec(),
    {
        self.tail = self.tail + n;
    }

    /// Splices previous episodes into the queue ahead of the current item and
    /// holds them for [`Self::take_pending_prepend`]. Returns how many.
    ///
    /// The current item's queue index and its mpv position both shift by n,
    /// so the window start is unchanged and only `head` grows.
    pub fn prepend(&mut self, previous: Vec<String>) -> (n: usize)
        requires
            old(self).wf(),
            old(self).queue_spec().index <= old(self).queue_spec().items@.len(),
            old(self).head_spec() + previous@.len() <= usize::MAX,
        ensures
            final(self).wf(),
            n == previous@.len(),
            final(self).queue_spec().items@ == old(self).queue_spec().items@.take(
                old(self).queue_spec().index as int,
            ) + previous@ + old(self).queue_spec().items@.skip(old(self).queue_spec().index as int),
            final(self).queue_spec().index == old(self).queue_spec().index + n,
            final(self).origin_spec() == old(self).origin_spec(),
            final(self).head_spec() == old(self).head_spec() + n,
            final(self).tail_spec() == old(self).tail_spec(),
            final(self).pending_spec() == previous@,
            final(self).queue_spec().current_id() == old(self).queue_spec().current_id(),
    {
        let ghost items = self.queue.items@;
        let ghost index = self.queue.index as int;
        let mut copy: Vec<String> = clone_range(&previous, 0, previous.len());
        assert(previous@.subrange(0, previous@.len() as int) == previous@);
        let n = self.queue.insert_before_current(copy);
        self.now_playing = render_now_playing(&self.queue.items);
        self.head = self.head + n;
        self.pending_prepend = previous;
        proof {
            if index < items.len() {
                law_splice_before_current_keeps_current(items, index, previous@);
            }
        }
        n
    }

    /// The queue's items.
    pub fn items(&self) -> (r: &Vec<String>)
        ensures
            r@ == self.queue_spec().items@,
    {
        &self.queue.items
    }

    pub fn len(&self) -> (r: usize)
        ensures
            r == self.queue_spec().items@.len(),
    {
        self.queue.items.len()
    }

    pub fn index(&self) -> (r: usize)
        ensures
            r == self.queue_spec().index,
    {
        self.queue.index
    }

    pub fn current(&self) -> (r: Option<&str>)
        ensures
            match r {
                Some(s) => self.queue_spec().current_id() == Some(s@),
                None => self.queue_spec().current_id() is None,
            },
    {
        self.queue.current()
    }

    pub fn peek_next(&self) -> (r: Option<&str>)
        ensures
            match r {
                Some(s) => self.queue_spec().has_next_spec() && self.queue_spec().items@[
                    self.queue_spec().index + 1]@ == s@,
                None => !self.queue_spec().has_next_spec(),
            },
    {
        self.queue.peek_next()
    }

    pub fn has_next(&self) -> (r: bool)
        ensures
            r == self.queue_spec().has_next_spec(),
    {
        self.queue.has_next()
    }

    /// Moves the queue to its next item, if any. The window does not move.
    pub fn advance(&mut self) -> (r: Option<&str>)
        requires
            old(self).wf(),
        ensures
            final(self).wf(),
            final(self).queue_spec().items@ == old(self).queue_spec().items@,
            old(self).queue_spec().has_next_spec() ==> final(self).queue_spec().index == old(self).queue_spec().index + 1,
            !old(self).queue_spec().has_next_spec() ==> final(self).queue_spec().index == old(self).queue_spec().index,
            match r {
                Some(s) => old(self).queue_spec().has_next_spec() && final(self).queue_spec().current_id() == Some(s@),
                None => !old(self).queue_spec().has_next_spec(),
            },
            final(self).origin_spec() == old(self).origin_spec(),
            final(self).head_spec() == old(self).head_spec(),
            final(self).tail_spec() == old(self).tail_spec(),
            final(self).pending_spec() == old(self).pending_spec(),
    {
        self.queue.advance()
    }

    /// Moves the queue to its previous item, if any, and returns the current one.
    pub fn previous(&mut self) -> (r: Option<&str>)
        requires
            old(self).wf(),
        ensures
            final(self).wf(),
            final(self).queue_spec().items@ == old(self).queue_spec().items@,
            final(self).queue_spec().index == (if old(self).queue_spec().index > 0 {
                old(self).queue_spec().index - 1
            } else {
                0
            }),
            match r {
                Some(s) => final(self).queue_spec().current_id() == Some(s@),
                None => final(self).queue_spec().current_id() is None,
            },
            final(self).origin_spec() == old(self).origin_spec(),
            final(self).head_spec() == old(self).head_spec(),
            final(self).tail_spec() == old(self).tail_spec(),
            final(self).pending_spec() == old(self).pending_spec(),
    {
        self.queue.previous()
    }

    /// Replaces the queue.
    pub fn replace(&mut self, items: Vec<String>, start_index: usize)
        requires
            old(self).wf(),
        ensures
            final(self).wf(),
            final(self).queue_spec().items@ == items@,
            final(self).queue_spec().index == (if items@.len() == 0 {
                0
            } else if start_index < items@.len() {
                start_index as int
            } else {
                items@.len() - 1
            }),
            final(self).origin_spec() == old(self).origin_spec(),
            final(self).head_spec() == old(self).head_spec(),
            final(self).tail_spec() == old(self).tail_spec(),
            final(self).pending_spec() == old(self).pending_spec(),
    {
        self.queue.replace(items, start_index);
        self.now_playing = render_now_playing(&self.queue.items);
    }

    /// Appends to the end of the queue.
    pub fn append(&mut self, ids: Vec<String>)
        requires
            old(self).wf(),
        ensures
            final(self).wf(),
            final(self).queue_spec().items@ == old(self).queue_spec().items@ + ids@,
            final(self).queue_spec().index == old(self).queue_spec().index,
            final(self).origin_spec() == old(self).origin_spec(),
            final(self).head_spec() == old(self).head_spec(),
            final(self).tail_spec() == old(self).tail_spec(),
            final(self).pending_spec() == old(self).pending_spec(),
    {
        self.queue.append(ids);
        self.now_playing = render_now_playing(&self.queue.items);
    }

    /// Inserts right after the current item.
    pub fn insert_next(&mut self, ids: Vec<String>)
        requires
            old(self).wf(),
        ensures
            final(self).wf(),
            ({
                let q = old(self).queue_spec();
                let at = if q.index < q.items@.len() {
                    q.index + 1
                } else {
                    q.items@.len() as int
                };
                final(self).queue_spec().items@ == q.items@.take(at) + ids@ + q.items@.skip(at)
            }),
            final(self).queue_spec().index == old(self).queue_spec().index,
            final(self).origin_spec() == old(self).origin_spec(),
            final(self).head_spec() == old(self).head_spec(),
            final(self).tail_spec() == old(self).tail_spec(),
            final(self).pending_spec() == old(self).pending_spec(),
    {
        self.queue.insert_next(ids);
        self.now_playing = render_now_playing(&self.queue.items);
    }

    /// PlayNext (`next`) or PlayLast. With no mpv running this is a PlayNow
    /// of `ids`; otherwise the queue grows, and mpv's playlist is topped up
    /// unless a PlayNext meets a playlist already holding later entries
    /// (that would need an insert-at; mpv catches up as it advances).
    pub fn enqueue(&mut self, ids: Vec<String>, next: bool, has_mpv: bool) -> (r: EnqueueOutcome)
        requires
            old(self).wf(),
        ensures
            final(self).wf(),
            final(self).origin_spec() == old(self).origin_spec(),
            final(self).head_spec() == old(self).head_spec(),
            final(self).tail_spec() == old(self).tail_spec(),
            final(self).pending_spec() == old(self).pending_spec(),
            !has_mpv ==> r == EnqueueOutcome::StartFresh && final(self).queue_spec().items@ == ids@
                && final(self).queue_spec().index == 0,
            has_mpv && next ==> ({
                let q = old(self).queue_spec();
                let at = if q.index < q.items@.len() {
                    q.index + 1
                } else {
                    q.items@.len() as int
                };
                &&& final(self).queue_spec().items@ == q.items@.take(at) + ids@ + q.items@.skip(at)
                &&& final(self).queue_spec().index == q.index
                &&& r == if old(self).tail_spec() == 0 {
                    EnqueueOutcome::FillForward
                } else {
                    EnqueueOutcome::QueueOnly
                }
            }),
            has_mpv && !next ==> final(self).queue_spec().items@ == old(self).queue_spec().items@ + ids@
                && final(self).queue_spec().index == old(self).queue_spec().index && r
                == EnqueueOutcome::FillForward,
    {
        if !has_mpv {
            self.replace(ids, 0);
            return EnqueueOutcome::StartFresh;
        }
        if next {
            self.insert_next(ids);
            if self.tail != 0 {
                return EnqueueOutcome::QueueOnly;
            }
        } else {
            self.append(ids);
        }
        EnqueueOutcome::FillForward
    }

    /// Previous from mpv's playlist position `playlist_pos`: `true` when mpv
    /// holds nothing before the current entry, and the queue stepped back to
    /// restart there; `false` when mpv should step back itself.
    pub fn step_back(&mut self, playlist_pos: usize) -> (restart: bool)
        requires
            old(self).wf(),
        ensures
            final(self).wf(),
            restart == (playlist_pos == 0),
            final(self).queue_spec().items@ == old(self).queue_spec().items@,
            final(self).queue_spec().index == (if restart && old(self).queue_spec().index > 0 {
                old(self).queue_spec().index - 1
            } else {
                old(self).queue_spec().index as int
            }),
            final(self).origin_spec() == old(self).origin_spec(),
            final(self).head_spec() == old(self).head_spec(),
            final(self).tail_spec() == old(self).tail_spec(),
            final(self).pending_spec() == old(self).pending_spec(),
    {
        if playlist_pos == 0 {
            self.previous();
            true
        } else {
            false
        }
    }

    /// The `NowPlayingQueue` Jellyfin's now-playing view renders.
    pub fn now_playing_queue(&self) -> (r: &Vec<Json>)
        requires
            self.wf(),
        ensures
            is_now_playing(r@, self.queue_spec().items@),
    {
        &self.now_playing
    }

    /// Moves the current item to `index` after mpv jumped there on its own.
    /// `origin` is untouched: the window itself did not move.
    pub fn adopt_index(&mut self, index: usize)
        requires
            old(self).wf(),
        ensures
            final(self).wf(),
            final(self).queue_spec().items@ == old(self).queue_spec().items@,
            final(self).queue_spec().index == index,
            final(self).origin_spec() == old(self).origin_spec(),
            final(self).head_spec() == old(self).head_spec(),
            final(self).tail_spec() == old(self).tail_spec(),
            final(self).pending_spec() == old(self).pending_spec(),
    {
        self.queue.index = index;
    }

    /// Takes the episodes waiting to be spliced into mpv, leaving none.
    pub fn take_pending_prepend(&mut self) -> (r: Vec<String>)
        requires
            old(self).wf(),
        ensures
            final(self).wf(),
            r@ == old(self).pending_spec(),
            final(self).pending_spec().len() == 0,
            final(self).queue_spec() == old(self).queue_spec(),
            final(self).origin_spec() == old(self).origin_spec(),
            final(self).head_spec() == old(self).head_spec(),
            final(self).tail_spec() == old(self).tail_spec(),
    {
        let mut taken: Vec<String> = Vec::new();
        std::mem::swap(&mut taken, &mut self.pending_prepend);
        taken
    }

    /// The slice of the queue this window claims mpv is holding.
    pub fn mpv_playlist(&self) -> (r: Vec<String>)
        requires
            self.window_end() <= usize::MAX,
        ensures
            r@ == self.mpv_playlist_spec(),
    {
        let len = self.queue.items.len();
        let w = self.origin + self.head + 1 + self.tail;
        let end = if w < len {
            w
        } else {
            len
        };
        if self.origin <= end {
            clone_range(&self.queue.items, self.origin, end)
        } else {
            Vec::new()
        }
    }
}


impl Default for PlaylistWindow {
    fn default() -> (w: PlaylistWindow)
        ensures
            w.wf(),
            w.queue_spec().items@.len() == 0,
            w.queue_spec().index == 0,
            w.origin_spec() == 0,
            w.head_spec() == 0,
            w.tail_spec() == 0,
            w.pending_spec().len() == 0,
    {
        PlaylistWindow::new()
    }
}

/// Splicing entries in ahead of the current item leaves the same item current.
pub proof fn law_splice_before_current_keeps_current(
    items: Seq<String>,
    index: int,
    ids: Seq<String>,
)
    requires
        0 <= index < items.len(),
    ensures
        (items.take(index) + ids + items.skip(index))[index + ids.len()] == items[index],
{
    assert((items.take(index) + ids + items.skip(index))[index + ids.len()] == items.skip(index)[0]);
}

/// A prepend keeps mpv's playlist a contiguous slice of the queue: when the
/// current item sits `head` entries into the window, the new window is the old
/// one with the prepended entries spliced in right before the current item, the
/// current item does not change, and its mpv position grows by the number
/// prepended.
pub proof fn law_prepend_keeps_window_contiguous(
    before: PlaylistWindow,
    after: PlaylistWindow,
    previous: Seq<String>,
)
    requires
        before.queue_spec().index == before.origin_spec() + before.head_spec(),
        before.window_end() <= before.queue_spec().items@.len(),
        before.queue_spec().index < before.queue_spec().items@.len(),
        after.queue_spec().items@ == before.queue_spec().items@.take(
            before.queue_spec().index as int,
        ) + previous + before.queue_spec().items@.skip(before.queue_spec().index as int),
        after.queue_spec().index == before.queue_spec().index + previous.len(),
        after.origin_spec() == before.origin_spec(),
        after.head_spec() == before.head_spec() + previous.len(),
        after.tail_spec() == before.tail_spec(),
    ensures
        after.mpv_playlist_spec() == before.queue_spec().items@.subrange(
            before.origin_spec() as int,
            before.queue_spec().index as int,
        ) + previous + before.queue_spec().items@.subrange(
            before.queue_spec().index as int,
            before.window_end(),
        ),
        after.queue_spec().current_id() == before.queue_spec().current_id(),
        after.expected_pos_spec() == before.expected_pos_spec() + previous.len(),
{
    let items = before.queue_spec().items@;
    let idx = before.queue_spec().index as int;
    let o = before.origin_spec() as int;
    let e = before.window_end();
    let n = previous.len() as int;
    let new_items = after.queue_spec().items@;
    assert(new_items.len() == items.len() + n);
    assert(after.window_end() == e + n);
    assert(after.mpv_playlist_spec() == new_items.subrange(o, e + n));
    assert(new_items.subrange(o, e + n) =~= items.subrange(o, idx) + previous + items.subrange(idx, e));
    law_splice_before_current_keeps_current(items, idx, previous);
}

/// Re-anchoring the window on the current item leaves mpv holding exactly
/// that item.
pub proof fn law_reset_holds_only_current(w: PlaylistWindow)
    requires
        w.origin_spec() == w.queue_spec().index,
        w.head_spec() == 0,
        w.tail_spec() == 0,
        w.queue_spec().index < w.queue_spec().items@.len(),
    ensures
        w.mpv_playlist_spec() == seq![w.queue_spec().items@[w.queue_spec().index as int]],
        w.expected_pos_spec() == 0,
{
    assert(w.mpv_playlist_spec() =~= seq![w.queue_spec().items@[w.queue_spec().index as int]]);
}

/// What mpv holds and what is still to be filled in make up the queue from
/// the window's start on.
pub proof fn law_window_and_forward_cover_the_rest(w: PlaylistWindow)
    requires
        w.window_end() <= w.queue_spec().items@.len(),
    ensures
        w.mpv_playlist_spec() + w.queue_spec().items@.skip(w.window_end()) == w.queue_spec().items@.skip(
            w.origin_spec() as int,
        ),
{
    assert(w.mpv_playlist_spec() + w.queue_spec().items@.skip(w.window_end())
        =~= w.queue_spec().items@.skip(w.origin_spec() as int));
}

} // verus!
