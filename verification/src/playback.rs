//! Playback: the cycle that matches the scan against the queue, the
//! timeline of a transmission, and the schedule of the spectral frames of
//! an item. All times are in microseconds.

use crate::queue::{is_first_match, TransmissionQueue};
use crate::scanner::{next_in_cycle, Scanner, ScannerView};
use crate::transmission::{frames_before, Transmission, TransmissionItem};
use vstd::prelude::*;

verus! {

/// One stretch of the timeline of a transmission.
#[derive(Clone, Copy, Debug, PartialEq, Eq, Structural)]
pub enum PlaybackSegment {
    /// White noise for `duration`; a duration of zero is played too, and
    /// lasts no time.
    Hiss { duration: u64 },
    /// The audio of the item at `index`.
    Item { index: usize },
}

/// The stretches that the first `upto` items take on the timeline: each
/// item's audio, and hiss after it where the item has a silence after it.
pub open spec fn item_segments(items: Seq<TransmissionItem>, upto: int) -> Seq<PlaybackSegment>
    decreases upto,
{
    if upto <= 0 {
        Seq::empty()
    } else {
        let item = items[upto - 1];
        let played = item_segments(items, upto - 1).push(
            PlaybackSegment::Item { index: (upto - 1) as usize },
        );
        if item.sleep_after > 0 {
            played.push(PlaybackSegment::Hiss { duration: item.sleep_after })
        } else {
            played
        }
    }
}

/// The timeline of a transmission: hiss before, the items in order, hiss
/// after.
pub open spec fn timeline(transmission: Transmission) -> Seq<PlaybackSegment> {
    (seq![PlaybackSegment::Hiss { duration: transmission.hiss_preroll }] + item_segments(
        transmission.items@,
        transmission.items@.len() as int,
    )).push(PlaybackSegment::Hiss { duration: transmission.hiss_postroll })
}

/// The timeline of `transmission`, stretch by stretch in the order of
/// playing.
pub fn plan_timeline(transmission: &Transmission) -> (segments: Vec<PlaybackSegment>)
    ensures
        segments@ == timeline(*transmission),
{
    let mut segments: Vec<PlaybackSegment> = Vec::new();
    segments.push(PlaybackSegment::Hiss { duration: transmission.hiss_preroll });
    let ghost lead = segments@;
    let mut i: usize = 0;
    while i < transmission.items.len()
        invariant
            i <= transmission.items@.len(),
            lead == seq![PlaybackSegment::Hiss { duration: transmission.hiss_preroll }],
            segments@ == lead + item_segments(transmission.items@, i as int),
        decreases transmission.items@.len() - i,
    {
        segments.push(PlaybackSegment::Item { index: i });
        if transmission.items[i].sleep_after > 0 {
            segments.push(PlaybackSegment::Hiss { duration: transmission.items[i].sleep_after });
        }
        i = i + 1;
    }
    segments.push(PlaybackSegment::Hiss { duration: transmission.hiss_postroll });
    segments
}

/// What a playback coordinator is, to its callers.
pub struct PlaybackView {
    /// The timeline that is played.
    pub segments: Seq<PlaybackSegment>,
    /// The place in `segments` of the stretch that is played next.
    pub position: int,
}

impl PlaybackView {
    /// What holds of every coordinator: its place lies within the timeline
    /// or at its end, and the timeline ends with hiss.
    pub open spec fn inv(&self) -> bool {
        &&& 0 <= self.position <= self.segments.len()
        &&& self.segments.len() > 0
        &&& self.segments.last() is Hiss
    }
}

/// The coordinator of one playback: it hands out the stretches of the
/// timeline of a transmission one by one.
#[derive(Debug)]
pub struct PlaybackCoordinator {
    segments: Vec<PlaybackSegment>,
    position: usize,
}

impl View for PlaybackCoordinator {
    type V = PlaybackView;

    closed spec fn view(&self) -> PlaybackView {
        PlaybackView { segments: self.segments@, position: self.position as int }
    }
}

impl PlaybackCoordinator {
    #[verifier::type_invariant]
    spec fn well_formed(&self) -> bool {
        &&& self.position <= self.segments@.len()
        &&& self.segments@.len() > 0
        &&& self.segments@.last() is Hiss
    }

    /// The coordinator of the playback of `transmission`, before its first
    /// stretch.
    pub fn start(transmission: &Transmission) -> (coordinator: Self)
        ensures
            coordinator@.inv(),
            coordinator@.segments == timeline(*transmission),
            coordinator@.position == 0,
    {
        PlaybackCoordinator { segments: plan_timeline(transmission), position: 0 }
    }

    /// The stretch to play next, if the playback has not ended; the
    /// coordinator moves on by one stretch.
    pub fn next_segment(&mut self) -> (segment: Option<PlaybackSegment>)
        ensures
            final(self)@.inv(),
            final(self)@.segments == old(self)@.segments,
            old(self)@.position < old(self)@.segments.len() ==> segment == Some(
                old(self)@.segments[old(self)@.position],
            ) && final(self)@.position == old(self)@.position + 1,
            old(self)@.position >= old(self)@.segments.len() ==> segment is None && final(self)@.position == old(self)@.position,
    {
        proof {
            use_type_invariant(&*self);
        }
        if self.position < self.segments.len() {
            let segment = self.segments[self.position];
            self.position = self.position + 1;
            Some(segment)
        } else {
            None
        }
    }

    /// Gives up the items that are still to come, as when the audio of an
    /// item cannot be played: what is left of the timeline is its last
    /// stretch, the hiss after the items. A playback that has ended stays
    /// ended.
    pub fn abort_items(&mut self)
        ensures
            final(self)@.inv(),
            final(self)@.segments == old(self)@.segments,
            final(self)@.position == if old(self)@.position < old(self)@.segments.len() {
                old(self)@.segments.len() - 1
            } else {
                old(self)@.position
            },
    {
        proof {
            use_type_invariant(&*self);
        }
        if self.position < self.segments.len() {
            self.position = self.segments.len() - 1;
        }
    }

    /// Whether every stretch was handed out.
    pub fn is_finished(&self) -> (finished: bool)
        ensures
            finished == (self@.position >= self@.segments.len()),
    {
        self.position >= self.segments.len()
    }
}

/// One cycle of the scan: the scanner moves to its next frequency, and the
/// first waiting transmission on that frequency, if there is one, is taken
/// out of the queue for playback, for which the scanner pauses. A scanner
/// at rest does nothing, and no transmission is taken.
pub fn scan_cycle(scanner: &mut Scanner, queue: &mut TransmissionQueue) -> (found: Option<
    Transmission,
>)
    ensures
        final(scanner)@.inv(),
        !old(scanner)@.scanning ==> found is None && final(scanner)@ == old(scanner)@ && final(queue).transmissions@ == old(queue).transmissions@,
        old(scanner)@.scanning ==> {
            let tuned = tuned_to(old(scanner)@);
            match found {
                Some(transmission) => exists|i: int|
                    #[trigger] is_first_match(old(queue).transmissions@, tuned.frequency, i)
                        && transmission == old(queue).transmissions@[i] && final(queue).transmissions@ == old(queue).transmissions@.remove(i) && final(scanner)@ == (
                    ScannerView {
                        scanning: false,
                        status: "Recieving transmission..."@,
                        ..tuned
                    }),
                None => final(scanner)@ == tuned && final(queue).transmissions@ == old(queue).transmissions@ && forall|i: int|
                    0 <= i < old(queue).transmissions@.len() ==> (
                    #[trigger] old(queue).transmissions@[i]).frequency != tuned.frequency,
            }
        },
{
    let frequency: u32 = match scanner.next_freq() {
        Some(frequency) => frequency,
        None => {
            return None;
        },
    };
    let ghost tuned = scanner@;
    assert(tuned == tuned_to(old(scanner)@));
    assert(frequency == tuned.frequency);
    match queue.take_match(frequency) {
        Some(transmission) => {
            scanner.pause_for_playback();
            proof {
                let i = choose|i: int|
                    #[trigger] is_first_match(old(queue).transmissions@, frequency, i)
                        && transmission == old(queue).transmissions@[i] && queue.transmissions@
                        == old(queue).transmissions@.remove(i);
                assert(is_first_match(old(queue).transmissions@, tuned.frequency, i));
            }
            Some(transmission)
        },
        None => None,
    }
}

/// A scanning scanner after it moved to its next frequency.
pub open spec fn tuned_to(scanner: ScannerView) -> ScannerView {
    if scanner.table.len() == 0 {
        ScannerView { frequency: 0, ..scanner }
    } else {
        ScannerView {
            frequency: scanner.table[scanner.position],
            position: next_in_cycle(scanner.position, scanner.table.len() as int),
            ..scanner
        }
    }
}

/// The time, from the start of an item that plays for `duration` and has
/// `frame_count` spectral frames, at which frame `frame` becomes current.
pub open spec fn frame_time(duration: u64, frame_count: int, frame: int) -> int {
    frame * duration / frame_count
}

/// What a frame schedule is, to its callers.
pub struct FrameScheduleView {
    /// The playing time of the item.
    pub duration: u64,
    /// The number of spectral frames of the item.
    pub frame_count: int,
    /// The number of frames that were shown; also the frame that comes
    /// next.
    pub shown: int,
}

impl FrameScheduleView {
    /// What holds of every schedule: no more frames were shown than there
    /// are.
    pub open spec fn inv(&self) -> bool {
        0 <= self.shown <= self.frame_count
    }

    /// The frame that a poll at the time `elapsed` shows, if it shows one:
    /// the next frame, once its time has come.
    pub open spec fn poll_result(&self, elapsed: u64) -> Option<int> {
        if self.shown < self.frame_count && frame_time(
            self.duration,
            self.frame_count,
            self.shown,
        ) <= elapsed {
            Some(self.shown)
        } else {
            None
        }
    }

    /// The schedule after a poll at the time `elapsed`.
    pub open spec fn after_poll(&self, elapsed: u64) -> FrameScheduleView {
        if self.poll_result(elapsed) is Some {
            FrameScheduleView { shown: self.shown + 1, ..*self }
        } else {
            *self
        }
    }

    /// The schedule after polls at the times `polls`, in their order.
    pub open spec fn after_polls(&self, polls: Seq<u64>) -> FrameScheduleView
        decreases polls.len(),
    {
        if polls.len() == 0 {
            *self
        } else {
            self.after_polls(polls.drop_last()).after_poll(polls.last())
        }
    }

    /// The frames that polls at the times `polls` show, in their order.
    pub open spec fn shown_by(&self, polls: Seq<u64>) -> Seq<int>
        decreases polls.len(),
    {
        if polls.len() == 0 {
            Seq::empty()
        } else {
            let earlier = self.shown_by(polls.drop_last());
            match self.after_polls(polls.drop_last()).poll_result(polls.last()) {
                Some(frame) => earlier.push(frame),
                None => earlier,
            }
        }
    }
}

/// The schedule on which the spectral frames of one item are shown while
/// the item plays.
#[derive(Clone, Copy, Debug)]
pub struct FrameSchedule {
    duration: u64,
    frame_count: usize,
    shown: usize,
}

impl View for FrameSchedule {
    type V = FrameScheduleView;

    closed spec fn view(&self) -> FrameScheduleView {
        FrameScheduleView {
            duration: self.duration,
            frame_count: self.frame_count as int,
            shown: self.shown as int,
        }
    }
}

/// No frame of an item becomes current after the item has ended.
pub proof fn lemma_frame_time_bound(duration: u64, frame_count: int, frame: int)
    requires
        0 <= frame <= frame_count,
        frame_count > 0,
    ensures
        0 <= frame_time(duration, frame_count, frame) <= duration,
{
    assert(frame * duration <= frame_count * duration) by (nonlinear_arith)
        requires
            0 <= frame <= frame_count,
            duration >= 0,
    ;
    assert(0 <= frame * duration) by (nonlinear_arith)
        requires
            0 <= frame,
            duration >= 0,
    ;
    vstd::arithmetic::div_mod::lemma_div_is_ordered(
        frame * duration,
        frame_count * duration,
        frame_count,
    );
    vstd::arithmetic::div_mod::lemma_div_multiples_vanish(duration as int, frame_count);
    vstd::arithmetic::div_mod::lemma_div_pos_is_pos(frame * duration, frame_count);
    assert(frame_count * duration == duration * frame_count) by (nonlinear_arith);
}

impl FrameSchedule {
    #[verifier::type_invariant]
    spec fn well_formed(&self) -> bool {
        self.shown <= self.frame_count
    }

    /// The schedule of an item that plays for `duration` and has
    /// `frame_count` frames, none of them shown yet.
    pub fn new(duration: u64, frame_count: usize) -> (schedule: Self)
        ensures
            schedule@ == (FrameScheduleView { duration, frame_count: frame_count as int, shown: 0 }),
            schedule@.inv(),
    {
        FrameSchedule { duration, frame_count, shown: 0 }
    }

    /// The schedule of `item`.
    pub fn for_item(item: &TransmissionItem) -> (schedule: Self)
        ensures
            schedule@ == (FrameScheduleView {
                duration: item.duration,
                frame_count: item.fft_data@.len() as int,
                shown: 0,
            }),
            schedule@.inv(),
    {
        Self::new(item.duration, item.fft_data.len())
    }

    /// The time at which frame `frame` becomes current, if the item has
    /// such a frame.
    pub fn due_time(&self, frame: usize) -> (time: Option<u64>)
        ensures
            frame >= self@.frame_count ==> time is None,
            frame < self@.frame_count ==> time == Some(
                frame_time(self@.duration, self@.frame_count, frame as int) as u64,
            ) && frame_time(self@.duration, self@.frame_count, frame as int) <= self@.duration,
    {
        if frame >= self.frame_count {
            return None;
        }
        proof {
            lemma_frame_time_bound(self.duration, self.frame_count as int, frame as int);
            assert(frame * self.duration <= 0xffff_ffff_ffff_ffff * 0xffff_ffff_ffff_ffff)
                by (nonlinear_arith)
                requires
                    0 <= frame <= 0xffff_ffff_ffff_ffff,
                    0 <= self.duration <= 0xffff_ffff_ffff_ffff,
            ;
        }
        let product: u128 = frame as u128 * self.duration as u128;
        let time: u128 = product / self.frame_count as u128;
        Some(time as u64)
    }

    /// Whether all frames were shown.
    pub fn is_done(&self) -> (done: bool)
        ensures
            done == (self@.shown >= self@.frame_count),
    {
        self.shown >= self.frame_count
    }

    /// Shows the next frame if its time has come at `elapsed`, the time
    /// since the item began to play: returns the frame to show, and counts
    /// it as shown. Frames come one by one, in order; where the time of
    /// several has come, one poll for each shows them all.
    pub fn poll(&mut self, elapsed: u64) -> (frame: Option<usize>)
        ensures
            final(self)@.inv(),
            final(self)@ == old(self)@.after_poll(elapsed),
            match frame {
                Some(shown) => old(self)@.poll_result(elapsed) == Some(shown as int),
                None => old(self)@.poll_result(elapsed) is None,
            },
    {
        proof {
            use_type_invariant(&*self);
        }
        match self.due_time(self.shown) {
            Some(time) => {
                if time <= elapsed {
                    let frame: usize = self.shown;
                    self.shown = self.shown + 1;
                    Some(frame)
                } else {
                    None
                }
            },
            None => None,
        }
    }
}

/// However an item is polled, its frames are shown one by one in order,
/// none twice and none left out, and no more than it has: the frames shown
/// are those from the first not yet shown up to the first still to come.
/// How often the screen is drawn plays no part.
pub proof fn law_frames_in_order(schedule: FrameScheduleView, polls: Seq<u64>)
    requires
        schedule.inv(),
    ensures
        schedule.after_polls(polls).inv(),
        schedule.after_polls(polls).duration == schedule.duration,
        schedule.after_polls(polls).frame_count == schedule.frame_count,
        schedule.shown <= schedule.after_polls(polls).shown,
        schedule.shown_by(polls) == Seq::new(
            (schedule.after_polls(polls).shown - schedule.shown) as nat,
            |k: int| schedule.shown + k,
        ),
    decreases polls.len(),
{
    if polls.len() > 0 {
        law_frames_in_order(schedule, polls.drop_last());
    }
    assert(schedule.shown_by(polls) =~= Seq::new(
        (schedule.after_polls(polls).shown - schedule.shown) as nat,
        |k: int| schedule.shown + k,
    ));
}

/// No frame is shown before its time: a poll that shows frame `i` of an
/// item comes no earlier than `i` times the playing time over the number of
/// frames.
pub proof fn law_frames_on_time(schedule: FrameScheduleView, elapsed: u64)
    requires
        schedule.inv(),
    ensures
        schedule.poll_result(elapsed) matches Some(frame) ==> frame_time(
            schedule.duration,
            schedule.frame_count,
            frame,
        ) <= elapsed,
        schedule.poll_result(elapsed) is None && schedule.shown < schedule.frame_count
            ==> elapsed < frame_time(schedule.duration, schedule.frame_count, schedule.shown),
{
}

/// Whether the polls at the times `polls` end with `count` polls of which
/// none comes before the time `end`. What the polls before those are, and
/// how many, is left open.
pub open spec fn ends_after(polls: Seq<u64>, count: int, end: u64) -> bool {
    &&& polls.len() >= count
    &&& forall|k: int| polls.len() - count <= k < polls.len() ==> #[trigger] polls[k] >= end
}

/// However an item is polled while it plays, once it has played to its end
/// one poll for each frame still to come shows them all: an item with `f`
/// frames gets exactly `f` updates.
pub proof fn law_all_frames_shown(schedule: FrameScheduleView, polls: Seq<u64>)
    requires
        schedule.inv(),
        ends_after(polls, schedule.frame_count - schedule.shown, schedule.duration),
    ensures
        schedule.after_polls(polls).shown == schedule.frame_count,
        schedule.shown_by(polls).len() == schedule.frame_count - schedule.shown,
{
    let closing = schedule.frame_count - schedule.shown;
    lemma_closing_polls(schedule, polls, closing, closing);
    assert(polls.take(polls.len() as int) == polls);
    law_frames_in_order(schedule, polls);
}

proof fn lemma_closing_polls(schedule: FrameScheduleView, polls: Seq<u64>, closing: int, t: int)
    requires
        schedule.inv(),
        0 <= t <= closing,
        ends_after(polls, closing, schedule.duration),
    ensures
        schedule.after_polls(polls.take(polls.len() - closing + t)).shown >= schedule.shown + t
            || schedule.after_polls(polls.take(polls.len() - closing + t)).shown
            == schedule.frame_count,
    decreases t,
{
    let upto = polls.len() - closing + t;
    let prefix = polls.take(upto);
    law_frames_in_order(schedule, prefix);
    if t > 0 {
        lemma_closing_polls(schedule, polls, closing, t - 1);
        let earlier = polls.take(upto - 1);
        assert(prefix.drop_last() == earlier);
        assert(prefix.last() == polls[upto - 1]);
        law_frames_in_order(schedule, earlier);
        let before = schedule.after_polls(earlier);
        if before.shown < schedule.frame_count {
            lemma_frame_time_bound(schedule.duration, schedule.frame_count, before.shown);
        }
    }
}

/// The schedule of an item before any of its frames was shown.
pub open spec fn item_schedule(item: TransmissionItem) -> FrameScheduleView {
    FrameScheduleView {
        duration: item.duration,
        frame_count: item.fft_data@.len() as int,
        shown: 0,
    }
}

/// Whether the polls at the times `polls` play an item to its end: however
/// the item is polled while it plays, the polls end with one for each of
/// its frames that does not come before the item has ended.
pub open spec fn plays_out(item: TransmissionItem, polls: Seq<u64>) -> bool {
    ends_after(polls, item.fft_data@.len() as int, item.duration)
}

/// The number of updates that the first `upto` items make together, when
/// item `i` is polled at the times `polls[i]`.
pub open spec fn updates_shown(items: Seq<TransmissionItem>, polls: Seq<Seq<u64>>, upto: int) -> int
    decreases upto,
{
    if upto <= 0 {
        0
    } else {
        updates_shown(items, polls, upto - 1) + item_schedule(items[upto - 1]).shown_by(
            polls[upto - 1],
        ).len()
    }
}

/// A transmission whose items are each played to their end makes as many
/// updates of the visualisation as its items have frames together.
pub proof fn law_updates_add_up(items: Seq<TransmissionItem>, polls: Seq<Seq<u64>>, upto: int)
    requires
        0 <= upto <= items.len(),
        upto <= polls.len(),
        forall|i: int| 0 <= i < upto ==> plays_out(#[trigger] items[i], polls[i]),
    ensures
        updates_shown(items, polls, upto) == frames_before(items, upto),
    decreases upto,
{
    if upto > 0 {
        law_updates_add_up(items, polls, upto - 1);
        let item = items[upto - 1];
        assert(plays_out(item, polls[upto - 1]));
        law_all_frames_shown(item_schedule(item), polls[upto - 1]);
    }
}

/// One update of the visualisation: frame `frame` of item `item` becomes
/// current `at` after the item began to play.
#[derive(Clone, Copy, Debug, PartialEq, Eq, Structural)]
pub struct FrameUpdate {
    pub item: usize,
    pub frame: usize,
    pub at: u64,
}

/// The place, among all updates of a transmission, of frame `frame` of item
/// `item`.
pub open spec fn update_slot(items: Seq<TransmissionItem>, item: int, frame: int) -> int {
    frames_before(items, item) + frame
}

/// The frames add up from item to item.
pub proof fn lemma_frames_before_grows(items: Seq<TransmissionItem>, a: int, b: int)
    requires
        0 <= a <= b,
    ensures
        0 <= frames_before(items, a) <= frames_before(items, b),
    decreases b,
{
    if b > 0 {
        if a < b {
            lemma_frames_before_grows(items, a, b - 1);
        } else {
            lemma_frames_before_grows(items, a - 1, b - 1);
        }
    }
}

/// All updates of the visualisation that playing `transmission` makes:
/// for each item in order, each of its frames in order, at the time at
/// which the frame becomes current. There are as many as the items have
/// frames together.
pub fn frame_updates(transmission: &Transmission) -> (updates: Vec<FrameUpdate>)
    ensures
        updates@.len() == transmission.total_frames(),
        forall|i: int, f: int|
            0 <= i < transmission.items@.len() && 0 <= f < transmission.items@[i].fft_data@.len()
                ==> updates@[#[trigger] update_slot(transmission.items@, i, f)] == (FrameUpdate {
                item: i as usize,
                frame: f as usize,
                at: frame_time(
                    transmission.items@[i].duration,
                    transmission.items@[i].fft_data@.len() as int,
                    f,
                ) as u64,
            }),
{
    let ghost items = transmission.items@;
    let mut updates: Vec<FrameUpdate> = Vec::new();
    let mut i: usize = 0;
    while i < transmission.items.len()
        invariant
            i <= items.len(),
            items == transmission.items@,
            updates@.len() == frames_before(items, i as int),
            forall|k: int, f: int|
                0 <= k < i && 0 <= f < items[k].fft_data@.len() ==> updates@[#[trigger] update_slot(
                    items,
                    k,
                    f,
                )] == (FrameUpdate {
                    item: k as usize,
                    frame: f as usize,
                    at: frame_time(items[k].duration, items[k].fft_data@.len() as int, f) as u64,
                }),
        decreases items.len() - i,
    {
        let schedule = FrameSchedule::for_item(&transmission.items[i]);
        let count: usize = transmission.items[i].fft_data.len();
        let mut f: usize = 0;
        while f < count
            invariant
                i < items.len(),
                items == transmission.items@,
                count == items[i as int].fft_data@.len(),
                schedule@.duration == items[i as int].duration,
                schedule@.frame_count == count,
                f <= count,
                updates@.len() == update_slot(items, i as int, f as int),
                forall|k: int, g: int|
                    0 <= k < i && 0 <= g < items[k].fft_data@.len() ==> updates@[
                    #[trigger] update_slot(items, k, g)] == (FrameUpdate {
                        item: k as usize,
                        frame: g as usize,
                        at: frame_time(items[k].duration, items[k].fft_data@.len() as int, g) as u64,
                    }),
                forall|g: int|
                    0 <= g < f ==> updates@[#[trigger] update_slot(items, i as int, g)] == (
                    FrameUpdate {
                        item: i,
                        frame: g as usize,
                        at: frame_time(items[i as int].duration, count as int, g) as u64,
                    }),
            decreases count - f,
        {
            let at: u64 = match schedule.due_time(f) {
                Some(time) => time,
                None => 0,
            };
            let ghost before = updates@;
            updates.push(FrameUpdate { item: i, frame: f, at });
            proof {
                lemma_frames_before_grows(items, 0, i as int);
                assert forall|k: int, g: int|
                    0 <= k < i && 0 <= g < items[k].fft_data@.len() implies updates@[
                #[trigger] update_slot(items, k, g)] == (FrameUpdate {
                    item: k as usize,
                    frame: g as usize,
                    at: frame_time(items[k].duration, items[k].fft_data@.len() as int, g) as u64,
                }) by {
                    lemma_frames_before_grows(items, k + 1, i as int);
                    lemma_frames_before_grows(items, 0, k);
                    assert(frames_before(items, k + 1) == frames_before(items, k)
                        + items[k].fft_data@.len());
                    assert(0 <= update_slot(items, k, g) < before.len());
                    assert(updates@[update_slot(items, k, g)] == before[update_slot(items, k, g)]);
                }
                assert forall|g: int| 0 <= g < f + 1 implies updates@[#[trigger] update_slot(
                    items,
                    i as int,
                    g,
                )] == (FrameUpdate {
                    item: i,
                    frame: g as usize,
                    at: frame_time(items[i as int].duration, count as int, g) as u64,
                }) by {
                    if g < f {
                        assert(0 <= update_slot(items, i as int, g) < before.len());
                        assert(updates@[update_slot(items, i as int, g)] == before[update_slot(
                            items,
                            i as int,
                            g,
                        )]);
                    }
                }
            }
            f = f + 1;
        }
        i = i + 1;
    }
    updates
}

} // verus!
