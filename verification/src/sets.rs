//! Conversation sets, and the choice of the next conversation of a set.

use crate::random::{choose_weighted, total_weight, Candidate};
use rand::rngs::StdRng;
use vstd::prelude::*;
use vstd::string::StringExecFns;

verus! {

/// What an item needs from its backend, as far as the document gives it: the
/// audio file of a stored item, the prompt and the model of a generated one.
#[derive(Clone, Debug)]
pub struct ItemPayload {
    pub file: Option<String>,
    pub prompt: Option<String>,
    pub model: Option<String>,
}

/// One item of a conversation as the document describes it. The delays are
/// whole seconds.
#[derive(Clone, Debug)]
pub struct ConversationTransmissionItemSpec {
    pub id: String,
    pub captions: Vec<String>,
    pub delay_after_min: u64,
    pub delay_after_max: u64,
    pub data: ItemPayload,
}

/// The frequency a conversation is sent on, and its items in order.
#[derive(Clone, Debug)]
pub struct ConversationTransmissionSpec {
    pub random_frequency: bool,
    pub frequency: u32,
    pub items: Vec<ConversationTransmissionItemSpec>,
}

/// One conversation of a set.
#[derive(Clone, Debug)]
pub struct Conversation {
    pub id: String,
    pub description: String,
    pub weight: u32,
    pub interface: String,
    pub transmissions: ConversationTransmissionSpec,
    pub file_path: String,
}

/// In what order a set hands out its conversations.
#[derive(Clone, Copy, Debug, PartialEq, Eq, Structural)]
pub enum PlaybackPolicy {
    /// In the order of the document.
    Sequence,
    /// By weighted draw.
    Random,
}

/// Whether a random set holds back the conversations it has handed out.
#[derive(Clone, Copy, Debug, PartialEq, Eq, Structural)]
pub enum ReplayMode {
    /// A conversation comes again only when all have come.
    Exhaust,
    /// Every conversation may come at every draw.
    Repeat,
}

impl PlaybackPolicy {
    /// The policy that a document names: `sequence` or `random`.
    pub open spec fn named(text: Seq<char>) -> Option<PlaybackPolicy> {
        if text == "sequence"@ {
            Some(PlaybackPolicy::Sequence)
        } else if text == "random"@ {
            Some(PlaybackPolicy::Random)
        } else {
            None
        }
    }

    /// The policy that `text` names, if it names one.
    pub fn parse(text: &String) -> (policy: Option<PlaybackPolicy>)
        ensures
            policy == Self::named(text@),
    {
        if *text == "sequence".to_string() {
            Some(PlaybackPolicy::Sequence)
        } else if *text == "random".to_string() {
            Some(PlaybackPolicy::Random)
        } else {
            None
        }
    }
}

impl ReplayMode {
    /// The mode that `text` names: `exhaust` holds played conversations
    /// back, anything else lets them repeat.
    pub fn parse(text: &String) -> (mode: ReplayMode)
        ensures
            mode == if text@ == "exhaust"@ {
                ReplayMode::Exhaust
            } else {
                ReplayMode::Repeat
            },
    {
        if *text == "exhaust".to_string() {
            ReplayMode::Exhaust
        } else {
            ReplayMode::Repeat
        }
    }
}

/// A named set of conversations with its policy, and the ids of those
/// already handed out (`conversations_state`).
#[derive(Clone, Debug)]
pub struct TransmissionSet {
    pub name: String,
    pub description: String,
    pub playback: PlaybackPolicy,
    pub replay_mode: ReplayMode,
    pub conversations: Vec<Conversation>,
    pub conversations_state: Vec<String>,
    pub file_path: String,
}

/// The texts of a sequence of strings.
pub open spec fn texts(strings: Seq<String>) -> Seq<Seq<char>> {
    strings.map_values(|s: String| s@)
}

/// The ids of a sequence of conversations, in order.
pub open spec fn ids_of(conversations: Seq<Conversation>) -> Seq<Seq<char>> {
    conversations.map_values(|c: Conversation| c.id@)
}

/// Whether every id of `ids` occurs in `played`.
pub open spec fn all_played(ids: Seq<Seq<char>>, played: Seq<Seq<char>>) -> bool {
    forall|i: int| 0 <= i < ids.len() ==> played.contains(#[trigger] ids[i])
}

/// Whether the next pick starts a new round: the policy holds played
/// conversations back, and all have been played.
pub open spec fn restarts(
    policy: PlaybackPolicy,
    mode: ReplayMode,
    ids: Seq<Seq<char>>,
    played: Seq<Seq<char>>,
) -> bool {
    !(policy == PlaybackPolicy::Random && mode == ReplayMode::Repeat) && all_played(ids, played)
}

/// Whether conversation `i` may be picked next. A random set that repeats
/// offers every conversation; any other offers those not played yet, and
/// all of them once all have been played.
pub open spec fn in_pool(
    policy: PlaybackPolicy,
    mode: ReplayMode,
    ids: Seq<Seq<char>>,
    played: Seq<Seq<char>>,
    i: int,
) -> bool {
    0 <= i < ids.len() && ((policy == PlaybackPolicy::Random && mode == ReplayMode::Repeat)
        || all_played(ids, played) || !played.contains(ids[i]))
}

/// Whether `i` is the first conversation, in document order, that may be
/// picked next.
pub open spec fn first_in_pool(
    policy: PlaybackPolicy,
    mode: ReplayMode,
    ids: Seq<Seq<char>>,
    played: Seq<Seq<char>>,
    i: int,
) -> bool {
    in_pool(policy, mode, ids, played, i) && forall|j: int|
        0 <= j < i ==> !in_pool(policy, mode, ids, played, j)
}

/// Whether some conversation that may be picked next has a weight above zero.
pub open spec fn pool_has_weight(
    policy: PlaybackPolicy,
    mode: ReplayMode,
    ids: Seq<Seq<char>>,
    weights: Seq<u32>,
    played: Seq<Seq<char>>,
) -> bool {
    exists|j: int| in_pool(policy, mode, ids, played, j) && 0 <= j < weights.len() && weights[j] > 0
}

/// The played list after conversation `picked` was picked: emptied first if
/// the pick starts a new round, then the id added at its end.
pub open spec fn played_after(
    policy: PlaybackPolicy,
    mode: ReplayMode,
    ids: Seq<Seq<char>>,
    played: Seq<Seq<char>>,
    picked: int,
) -> Seq<Seq<char>> {
    if restarts(policy, mode, ids, played) {
        Seq::<Seq<char>>::empty().push(ids[picked])
    } else {
        played.push(ids[picked])
    }
}

/// Whether picking conversation `picked` is a pick that the policy allows
/// when `played` is the played list. A sequence set allows only the first
/// conversation that may be picked. A random set allows any that may be
/// picked, but none of weight zero while one of them has weight; where none
/// has, it allows only the first.
pub open spec fn pick_allowed(
    policy: PlaybackPolicy,
    mode: ReplayMode,
    ids: Seq<Seq<char>>,
    weights: Seq<u32>,
    played: Seq<Seq<char>>,
    picked: int,
) -> bool {
    &&& in_pool(policy, mode, ids, played, picked)
    &&& policy == PlaybackPolicy::Sequence ==> first_in_pool(policy, mode, ids, played, picked)
    &&& policy == PlaybackPolicy::Random ==> if pool_has_weight(policy, mode, ids, weights, played) {
        0 <= picked < weights.len() && weights[picked] > 0
    } else {
        first_in_pool(policy, mode, ids, played, picked)
    }
}

/// Whether `text` is among `list`.
pub fn is_listed(list: &Vec<String>, text: &String) -> (found: bool)
    ensures
        found == texts(list@).contains(text@),
{
    let mut k: usize = 0;
    while k < list.len()
        invariant
            k <= list.len(),
            forall|j: int| 0 <= j < k ==> list[j]@ != text@,
        decreases list.len() - k,
    {
        if list[k] == *text {
            proof {
                assert(texts(list@)[k as int] == text@);
            }
            return true;
        }
        k = k + 1;
    }
    proof {
        assert forall|j: int| 0 <= j < texts(list@).len() implies texts(list@)[j] != text@ by {
            assert(texts(list@)[j] == list[j]@);
        }
    }
    false
}

proof fn lemma_total_weight_bound(pool: Seq<Candidate>)
    requires
        forall|k: int| 0 <= k < pool.len() ==> (#[trigger] pool[k]).weight <= u32::MAX,
    ensures
        total_weight(pool) <= pool.len() * 0xffff_ffff,
    decreases pool.len(),
{
    if pool.len() > 0 {
        lemma_total_weight_bound(pool.drop_last());
        assert(pool.last().weight <= u32::MAX);
    }
}

proof fn lemma_total_weight_zero(pool: Seq<Candidate>)
    requires
        total_weight(pool) == 0,
    ensures
        forall|k: int| 0 <= k < pool.len() ==> (#[trigger] pool[k]).weight == 0,
    decreases pool.len(),
{
    if pool.len() > 0 {
        lemma_total_weight_zero(pool.drop_last());
        assert forall|k: int| 0 <= k < pool.len() implies (#[trigger] pool[k]).weight == 0 by {
            if k < pool.len() - 1 {
                assert(pool[k] == pool.drop_last()[k]);
            }
        }
    }
}

impl TransmissionSet {
    /// The ids of the conversations, in document order.
    pub open spec fn ids(&self) -> Seq<Seq<char>> {
        ids_of(self.conversations@)
    }

    /// The weights of the conversations, in document order.
    pub open spec fn weights(&self) -> Seq<u32> {
        self.conversations@.map_values(|c: Conversation| c.weight)
    }

    /// The ids already handed out, oldest first.
    pub open spec fn played(&self) -> Seq<Seq<char>> {
        texts(self.conversations_state@)
    }

    /// Whether every id in the played list is the id of a conversation of
    /// the set.
    pub open spec fn state_within_ids(&self) -> bool {
        forall|k: int|
            0 <= k < self.played().len() ==> self.ids().contains(#[trigger] self.played()[k])
    }

    spec fn offers(&self, everything: bool, i: int) -> bool {
        everything || !self.played().contains(self.ids()[i])
    }

    /// The conversations that a pick may fall on, as entries of a weighted
    /// pool in document order: all of them if `everything`, else those not
    /// played yet.
    fn build_pool(&self, everything: bool) -> (pool: Vec<Candidate>)
        ensures
            forall|k: int|
                0 <= k < pool.len() ==> {
                    &&& (#[trigger] pool@[k]).index < self.conversations.len()
                    &&& pool@[k].weight == self.conversations[pool@[k].index as int].weight
                    &&& self.offers(everything, pool@[k].index as int)
                },
            forall|a: int, b: int|
                0 <= a < b < pool.len() ==> (#[trigger] pool@[a]).index < (#[trigger] pool@[b]).index,
            forall|i: int|
                0 <= i < self.conversations.len() && #[trigger] self.offers(everything, i)
                    ==> exists|k: int| 0 <= k < pool.len() && (#[trigger] pool@[k]).index == i,
    {
        let mut pool: Vec<Candidate> = Vec::new();
        let mut i: usize = 0;
        while i < self.conversations.len()
            invariant
                i <= self.conversations.len(),
                forall|k: int|
                    0 <= k < pool.len() ==> {
                        &&& (#[trigger] pool@[k]).index < i
                        &&& pool@[k].weight == self.conversations[pool@[k].index as int].weight
                        &&& self.offers(everything, pool@[k].index as int)
                    },
                forall|a: int, b: int|
                    0 <= a < b < pool.len() ==> (#[trigger] pool@[a]).index < (
                    #[trigger] pool@[b]).index,
                forall|j: int|
                    0 <= j < i && #[trigger] self.offers(everything, j) ==> exists|k: int|
                        0 <= k < pool.len() && (#[trigger] pool@[k]).index == j,
            decreases self.conversations.len() - i,
        {
            let offered = everything || !is_listed(
                &self.conversations_state,
                &self.conversations[i].id,
            );
            assert(offered == self.offers(everything, i as int));
            if offered {
                let ghost before = pool@;
                pool.push(Candidate { index: i, weight: self.conversations[i].weight as u128 });
                proof {
                    assert(pool@[before.len() as int].index == i);
                    assert forall|j: int|
                        0 <= j < i + 1 && #[trigger] self.offers(everything, j) implies exists|
                        k: int,
                    | 0 <= k < pool.len() && (#[trigger] pool@[k]).index == j by {
                        if j < i {
                            let k = choose|k: int|
                                0 <= k < before.len() && (#[trigger] before[k]).index == j;
                            assert(pool@[k] == before[k]);
                        }
                    }
                }
            }
            i = i + 1;
        }
        pool
    }

    /// Whether every conversation of the set is in the played list.
    pub fn all_were_played(&self) -> (all: bool)
        ensures
            all == all_played(self.ids(), self.played()),
    {
        let mut i: usize = 0;
        while i < self.conversations.len()
            invariant
                i <= self.conversations.len(),
                forall|j: int| 0 <= j < i ==> self.played().contains(#[trigger] self.ids()[j]),
            decreases self.conversations.len() - i,
        {
            if !is_listed(&self.conversations_state, &self.conversations[i].id) {
                proof {
                    assert(!self.played().contains(self.ids()[i as int]));
                }
                return false;
            }
            i = i + 1;
        }
        true
    }

    /// Notes the conversation at `picked` as played: where the pick starts
    /// a new round, the played list is emptied first; then the id of the
    /// conversation is added at its end. Where `picked` is no conversation
    /// of the set, nothing is noted and the set stays as it was.
    pub fn note_pick(&mut self, picked: usize) -> (noted: bool)
        ensures
            final(self).conversations == old(self).conversations,
            final(self).playback == old(self).playback,
            final(self).replay_mode == old(self).replay_mode,
            final(self).name == old(self).name,
            final(self).description == old(self).description,
            final(self).file_path == old(self).file_path,
            noted == (picked < old(self).conversations.len()),
            !noted ==> final(self).conversations_state == old(self).conversations_state,
            noted ==> final(self).played() == played_after(
                old(self).playback,
                old(self).replay_mode,
                old(self).ids(),
                old(self).played(),
                picked as int,
            ),
            old(self).state_within_ids() ==> final(self).state_within_ids(),
    {
        if picked >= self.conversations.len() {
            return false;
        }
        let ghost ids = self.ids();
        let ghost played = self.played();
        let holds_back = !(self.playback == PlaybackPolicy::Random && self.replay_mode
            == ReplayMode::Repeat);
        if holds_back && self.all_were_played() {
            self.conversations_state.clear();
            proof {
                assert(self.played() =~= Seq::<Seq<char>>::empty());
            }
        }
        let ghost before = self.conversations_state@;
        let id = self.conversations[picked].id.clone();
        self.conversations_state.push(id);
        proof {
            assert(ids[picked as int] == self.conversations[picked as int].id@);
            assert(self.played() =~= texts(before).push(ids[picked as int]));
            if old(self).state_within_ids() {
                assert forall|k: int| 0 <= k < self.played().len() implies self.ids().contains(
                    #[trigger] self.played()[k],
                ) by {
                    if k < before.len() {
                        assert(self.played()[k] == played[k]);
                    }
                }
            }
        }
        true
    }

    /// Picks the next conversation and notes it as played, as `note_pick`
    /// does; returns its position. With no conversation there is nothing to
    /// pick, and the set stays as it was; with one or more, a pick is always
    /// made.
    pub fn pick_next(&mut self, rng: &mut StdRng) -> (picked: Option<usize>)
        ensures
            final(self).conversations == old(self).conversations,
            final(self).playback == old(self).playback,
            final(self).replay_mode == old(self).replay_mode,
            final(self).name == old(self).name,
            final(self).description == old(self).description,
            final(self).file_path == old(self).file_path,
            old(self).conversations.len() == 0 ==> picked is None && final(self).conversations_state
                == old(self).conversations_state,
            old(self).conversations.len() > 0 ==> picked is Some,
            picked matches Some(i) ==> pick_allowed(
                old(self).playback,
                old(self).replay_mode,
                old(self).ids(),
                old(self).weights(),
                old(self).played(),
                i as int,
            ) && final(self).played() == played_after(
                old(self).playback,
                old(self).replay_mode,
                old(self).ids(),
                old(self).played(),
                i as int,
            ),
            old(self).state_within_ids() ==> final(self).state_within_ids(),
    {
        if self.conversations.len() == 0 {
            return None;
        }
        let ghost ids = self.ids();
        let ghost weights = self.weights();
        let ghost played = self.played();
        let policy = self.playback;
        let mode = self.replay_mode;
        let everything = policy == PlaybackPolicy::Random && mode == ReplayMode::Repeat;
        let mut pool = self.build_pool(everything);
        if pool.len() == 0 {
            proof {
                assert forall|i: int| 0 <= i < ids.len() implies !self.offers(everything, i) by {
                    if self.offers(everything, i) {
                        let k = choose|k: int|
                            0 <= k < pool.len() && (#[trigger] pool@[k]).index == i;
                    }
                }
                assert(!self.offers(everything, 0));
                assert(all_played(ids, played)) by {
                    assert forall|i: int| 0 <= i < ids.len() implies played.contains(
                        #[trigger] ids[i],
                    ) by {
                        assert(!self.offers(everything, i));
                    }
                }
            }
            pool = self.build_pool(true);
            proof {
                assert(self.offers(true, 0));
            }
        } else {
            proof {
                if !everything {
                    let at = pool@[0].index as int;
                    assert(self.offers(everything, at));
                    assert(!played.contains(ids[at]));
                    assert(!all_played(ids, played));
                }
            }
        }
        assert(pool.len() > 0);
        assert forall|k: int| 0 <= k < pool.len() implies in_pool(
            policy,
            mode,
            ids,
            played,
            (#[trigger] pool@[k]).index as int,
        ) by {
            let at = pool@[k].index as int;
            if !restarts(policy, mode, ids, played) {
                assert(self.offers(everything, at));
            }
        }
        assert forall|j: int| in_pool(policy, mode, ids, played, j) implies exists|k: int|
            0 <= k < pool.len() && (#[trigger] pool@[k]).index == j by {
            if restarts(policy, mode, ids, played) {
                assert(self.offers(true, j));
            } else {
                assert(self.offers(everything, j));
            }
        }
        let first: usize = pool[0].index;
        assert(first_in_pool(policy, mode, ids, played, first as int)) by {
            assert forall|j: int| 0 <= j < first implies !in_pool(policy, mode, ids, played, j) by {
                if in_pool(policy, mode, ids, played, j) {
                    let k = choose|k: int| 0 <= k < pool.len() && (#[trigger] pool@[k]).index == j;
                    if k > 0 {
                        assert(pool[0].index < pool[k].index);
                    }
                }
            }
        }
        let picked: usize = match policy {
            PlaybackPolicy::Sequence => first,
            PlaybackPolicy::Random => {
                proof {
                    lemma_total_weight_bound(pool@);
                    assert(pool.len() * 0xffff_ffff <= u128::MAX) by (nonlinear_arith)
                        requires
                            pool.len() <= usize::MAX,
                    ;
                }
                match choose_weighted(rng, &pool) {
                    Some(entry) => {
                        proof {
                            let k = choose|k: int| 0 <= k < pool.len() && pool[k] == entry;
                            assert(pool[k].index == entry.index);
                            assert(weights[entry.index as int] == entry.weight);
                            assert(in_pool(policy, mode, ids, played, entry.index as int));
                        }
                        entry.index
                    },
                    None => {
                        proof {
                            lemma_total_weight_zero(pool@);
                            assert(!pool_has_weight(policy, mode, ids, weights, played)) by {
                                if pool_has_weight(policy, mode, ids, weights, played) {
                                    let j = choose|j: int|
                                        in_pool(policy, mode, ids, played, j) && 0 <= j
                                            < weights.len() && weights[j] > 0;
                                    let k = choose|k: int|
                                        0 <= k < pool.len() && (#[trigger] pool@[k]).index == j;
                                    assert(pool[k].weight == 0);
                                }
                            }
                        }
                        first
                    },
                }
            },
        };
        let noted = self.note_pick(picked);
        assert(noted);
        Some(picked)
    }

    /// Picks the next conversation as `pick_next` does, notes it as played
    /// and hands it out. Fails only on a set without conversations.
    pub fn get_conversation(&mut self, rng: &mut StdRng) -> (next: Option<&Conversation>)
        ensures
            final(self).conversations == old(self).conversations,
            final(self).playback == old(self).playback,
            final(self).replay_mode == old(self).replay_mode,
            final(self).name == old(self).name,
            final(self).description == old(self).description,
            final(self).file_path == old(self).file_path,
            old(self).conversations.len() == 0 ==> next is None && final(self).conversations_state
                == old(self).conversations_state,
            old(self).conversations.len() > 0 ==> next is Some,
            next matches Some(conversation) ==> exists|i: int|
                0 <= i < old(self).conversations.len() && *conversation == old(
                    self,
                ).conversations[i] && #[trigger] pick_allowed(
                    old(self).playback,
                    old(self).replay_mode,
                    old(self).ids(),
                    old(self).weights(),
                    old(self).played(),
                    i,
                ) && final(self).played() == played_after(
                    old(self).playback,
                    old(self).replay_mode,
                    old(self).ids(),
                    old(self).played(),
                    i,
                ),
            old(self).state_within_ids() ==> final(self).state_within_ids(),
    {
        match self.pick_next(rng) {
            Some(picked) => Some(&self.conversations[picked]),
            None => None,
        }
    }

    /// Whether `id` is the id of a conversation of the set.
    pub fn has_id(&self, id: &String) -> (found: bool)
        ensures
            found == self.ids().contains(id@),
    {
        let mut k: usize = 0;
        while k < self.conversations.len()
            invariant
                k <= self.conversations.len(),
                forall|j: int| 0 <= j < k ==> self.conversations[j].id@ != id@,
            decreases self.conversations.len() - k,
        {
            if self.conversations[k].id == *id {
                proof {
                    assert(self.ids()[k as int] == id@);
                }
                return true;
            }
            k = k + 1;
        }
        proof {
            assert forall|j: int| 0 <= j < self.ids().len() implies self.ids()[j] != id@ by {
                assert(self.ids()[j] == self.conversations[j].id@);
            }
        }
        false
    }

    /// Binds the set to the document it was read from and takes over a
    /// stored played list: of `stored`, the ids that belong to a conversation
    /// of the set, in their order. Other ids are dropped.
    pub fn attach_state(&mut self, file_path: String, stored: Vec<String>)
        ensures
            final(self).file_path == file_path,
            final(self).played() == keep_known(texts(stored@), old(self).ids()),
            final(self).state_within_ids(),
            final(self).conversations == old(self).conversations,
            final(self).playback == old(self).playback,
            final(self).replay_mode == old(self).replay_mode,
            final(self).name == old(self).name,
            final(self).description == old(self).description,
    {
        let mut kept: Vec<String> = Vec::new();
        let mut k: usize = 0;
        let ghost ids = self.ids();
        while k < stored.len()
            invariant
                k <= stored.len(),
                ids == self.ids(),
                texts(kept@) == keep_known(texts(stored@).take(k as int), ids),
                forall|j: int| 0 <= j < kept.len() ==> ids.contains(#[trigger] texts(kept@)[j]),
            decreases stored.len() - k,
        {
            let ghost before = kept@;
            proof {
                let upto = texts(stored@).take(k + 1);
                assert(upto.drop_last() == texts(stored@).take(k as int));
                assert(upto.last() == stored[k as int]@);
            }
            if self.has_id(&stored[k]) {
                kept.push(stored[k].clone());
                proof {
                    assert(texts(kept@) =~= texts(before).push(stored[k as int]@));
                    assert forall|j: int| 0 <= j < kept.len() implies ids.contains(
                        #[trigger] texts(kept@)[j],
                    ) by {
                        if j < before.len() {
                            assert(texts(kept@)[j] == texts(before)[j]);
                        }
                    }
                }
            }
            k = k + 1;
        }
        proof {
            assert(texts(stored@).take(k as int) == texts(stored@));
        }
        self.conversations_state = kept;
        self.file_path = file_path;
    }

    /// Where the played list of the set is kept: beside the set's own
    /// document, under its path with `.state` added.
    pub fn sidecar_path(&self) -> (path: String)
        ensures
            path@ == self.file_path@ + ".state"@,
    {
        let mut path = self.file_path.clone();
        path.append(".state");
        path
    }
}

/// Of `list`, the texts that occur in `ids`, in their order.
pub open spec fn keep_known(list: Seq<Seq<char>>, ids: Seq<Seq<char>>) -> Seq<Seq<char>>
    decreases list.len(),
{
    if list.len() == 0 {
        Seq::empty()
    } else if ids.contains(list.last()) {
        keep_known(list.drop_last(), ids).push(list.last())
    } else {
        keep_known(list.drop_last(), ids)
    }
}

/// Whether `picks` and `states` record a run of picks on a set: `states`
/// begins with the played list before the first pick, every pick is one that
/// the policy allows on the played list before it, and the played list after
/// it is the one that follows.
pub open spec fn is_run(
    policy: PlaybackPolicy,
    mode: ReplayMode,
    ids: Seq<Seq<char>>,
    weights: Seq<u32>,
    picks: Seq<int>,
    states: Seq<Seq<Seq<char>>>,
) -> bool {
    &&& states.len() == picks.len() + 1
    &&& forall|k: int|
        0 <= k < picks.len() ==> #[trigger] pick_allowed(
            policy,
            mode,
            ids,
            weights,
            states[k],
            picks[k],
        ) && states[k + 1] == played_after(policy, mode, ids, states[k], picks[k])
}

proof fn lemma_sequence_prefix(
    mode: ReplayMode,
    ids: Seq<Seq<char>>,
    weights: Seq<u32>,
    picks: Seq<int>,
    states: Seq<Seq<Seq<char>>>,
    k: int,
)
    requires
        ids.no_duplicates(),
        is_run(PlaybackPolicy::Sequence, mode, ids, weights, picks, states),
        states[0].len() == 0,
        0 <= k <= ids.len(),
        k <= picks.len(),
    ensures
        states[k] == ids.take(k),
        forall|m: int| 0 <= m < k ==> picks[m] == m,
    decreases k,
{
    if k == 0 {
        assert(states[0] =~= ids.take(0));
    } else {
        let at = k - 1;
        lemma_sequence_prefix(mode, ids, weights, picks, states, at);
        let before = states[at];
        let policy = PlaybackPolicy::Sequence;
        assert(pick_allowed(policy, mode, ids, weights, before, picks[at]));
        assert(!before.contains(ids[at])) by {
            if before.contains(ids[at]) {
                let m = choose|m: int| 0 <= m < before.len() && before[m] == ids[at];
                assert(ids[m] == ids[at]);
            }
        }
        assert(!all_played(ids, before));
        assert forall|j: int| 0 <= j < at implies !in_pool(policy, mode, ids, before, j) by {
            assert(before[j] == ids[j]);
        }
        assert(in_pool(policy, mode, ids, before, at));
        assert(picks[at] == at);
        assert(states[k] =~= ids.take(k));
    }
}

/// A sequence set that starts with nothing played hands out its `N`
/// conversations in document order, each once, and with the pick after
/// those begins again at the first; the played list then holds the first id
/// alone. The weights play no part. The ids must differ from one another.
pub proof fn law_sequence_round(
    mode: ReplayMode,
    ids: Seq<Seq<char>>,
    weights: Seq<u32>,
    picks: Seq<int>,
    states: Seq<Seq<Seq<char>>>,
)
    requires
        ids.no_duplicates(),
        ids.len() > 0,
        picks.len() == ids.len() + 1,
        states[0].len() == 0,
        is_run(PlaybackPolicy::Sequence, mode, ids, weights, picks, states),
    ensures
        forall|k: int| 0 <= k < ids.len() ==> picks[k] == k,
        picks[ids.len() as int] == 0,
        states[ids.len() as int] == ids,
        states[ids.len() as int + 1] == seq![ids[0]],
{
    let n = ids.len() as int;
    let policy = PlaybackPolicy::Sequence;
    lemma_sequence_prefix(mode, ids, weights, picks, states, n);
    assert(ids.take(n) == ids);
    assert(pick_allowed(policy, mode, ids, weights, states[n], picks[n]));
    assert(all_played(ids, ids));
    assert(in_pool(policy, mode, ids, ids, 0));
    assert(states[n + 1] =~= seq![ids[0]]);
}

proof fn lemma_short_list_leaves_one(ids: Seq<Seq<char>>, played: Seq<Seq<char>>)
    requires
        ids.no_duplicates(),
        played.len() < ids.len(),
    ensures
        !all_played(ids, played),
{
    if all_played(ids, played) {
        ids.unique_seq_to_set();
        played.lemma_cardinality_of_set();
        vstd::seq_lib::seq_to_set_is_finite(played);
        assert(ids.to_set().subset_of(played.to_set())) by {
            assert forall|id: Seq<char>| ids.to_set().contains(id) implies played.to_set().contains(
                id,
            ) by {
                let i = choose|i: int| 0 <= i < ids.len() && ids[i] == id;
                assert(played.contains(ids[i]));
            }
        }
        vstd::set_lib::lemma_len_subset(ids.to_set(), played.to_set());
    }
}

proof fn lemma_distinct_picks_cover(n: int, picks: Seq<int>)
    requires
        picks.len() == n,
        picks.no_duplicates(),
        forall|m: int| 0 <= m < n ==> 0 <= #[trigger] picks[m] < n,
    ensures
        forall|i: int| 0 <= i < n ==> picks.contains(i),
{
    picks.unique_seq_to_set();
    vstd::seq_lib::seq_to_set_is_finite(picks);
    vstd::set_lib::lemma_int_range(0, n);
    let range = vstd::set_lib::set_int_range(0, n);
    assert(picks.to_set().subset_of(range)) by {
        assert forall|v: int| picks.to_set().contains(v) implies range.contains(v) by {
            let m = choose|m: int| 0 <= m < picks.len() && picks[m] == v;
            assert(0 <= picks[m] < n);
        }
    }
    vstd::set_lib::lemma_subset_equality(picks.to_set(), range);
    assert forall|i: int| 0 <= i < n implies picks.contains(i) by {
        assert(range.contains(i));
        assert(picks.to_set().contains(i));
    }
}

proof fn lemma_exhaust_prefix(
    ids: Seq<Seq<char>>,
    weights: Seq<u32>,
    picks: Seq<int>,
    states: Seq<Seq<Seq<char>>>,
    k: int,
)
    requires
        ids.no_duplicates(),
        is_run(PlaybackPolicy::Random, ReplayMode::Exhaust, ids, weights, picks, states),
        states[0].len() == 0,
        0 <= k <= ids.len(),
        k <= picks.len(),
    ensures
        states[k].len() == k,
        forall|m: int| 0 <= m < k ==> 0 <= #[trigger] picks[m] < ids.len(),
        forall|m: int| 0 <= m < k ==> #[trigger] states[k][m] == ids[picks[m]],
        forall|a: int, b: int| 0 <= a < b < k ==> picks[a] != picks[b],
    decreases k,
{
    if k > 0 {
        let at = k - 1;
        lemma_exhaust_prefix(ids, weights, picks, states, at);
        let before = states[at];
        let policy = PlaybackPolicy::Random;
        let mode = ReplayMode::Exhaust;
        assert(pick_allowed(policy, mode, ids, weights, before, picks[at]));
        lemma_short_list_leaves_one(ids, before);
        assert(!before.contains(ids[picks[at]]));
        assert(states[k] == before.push(ids[picks[at]]));
        assert forall|a: int, b: int| 0 <= a < b < k implies picks[a] != picks[b] by {
            if b == at && picks[a] == picks[b] {
                assert(before[a] == ids[picks[a]]);
            }
        }
        assert forall|m: int| 0 <= m < k implies #[trigger] states[k][m] == ids[picks[m]] by {
            if m < at {
                assert(before[m] == ids[picks[m]]);
            }
        }
    }
}

/// A random set that holds played conversations back, and starts with
/// nothing played, hands out `N` different conversations with its first `N`
/// picks, whatever the draws, so that all have been played; the pick after
/// those starts a new round, after which the played list holds that pick's
/// id alone. The ids must differ from one another.
pub proof fn law_exhaust_round(
    ids: Seq<Seq<char>>,
    weights: Seq<u32>,
    picks: Seq<int>,
    states: Seq<Seq<Seq<char>>>,
)
    requires
        ids.no_duplicates(),
        ids.len() > 0,
        picks.len() == ids.len() + 1,
        states[0].len() == 0,
        is_run(PlaybackPolicy::Random, ReplayMode::Exhaust, ids, weights, picks, states),
    ensures
        forall|a: int, b: int| 0 <= a < b < ids.len() ==> picks[a] != picks[b],
        forall|k: int| 0 <= k < ids.len() ==> states[k].len() == k,
        all_played(ids, states[ids.len() as int]),
        states[ids.len() as int + 1] == seq![ids[picks[ids.len() as int]]],
{
    let n = ids.len() as int;
    let policy = PlaybackPolicy::Random;
    let mode = ReplayMode::Exhaust;
    lemma_exhaust_prefix(ids, weights, picks, states, n);
    assert forall|k: int| 0 <= k < n implies states[k].len() == k by {
        lemma_exhaust_prefix(ids, weights, picks, states, k);
    }
    let first = picks.take(n);
    assert(first.no_duplicates());
    assert forall|m: int| 0 <= m < n implies 0 <= #[trigger] first[m] < n by {
        assert(0 <= picks[m] < n);
    }
    lemma_distinct_picks_cover(n, first);
    assert(all_played(ids, states[n])) by {
        assert forall|i: int| 0 <= i < n implies states[n].contains(#[trigger] ids[i]) by {
            assert(first.contains(i));
            let m = choose|m: int| 0 <= m < first.len() && first[m] == i;
            assert(states[n][m] == ids[picks[m]]);
        }
    }
    assert(pick_allowed(policy, mode, ids, weights, states[n], picks[n]));
    assert(states[n + 1] =~= seq![ids[picks[n]]]);
}

} // verus!
