//! The director: it owns the network table, the content library and the
//! queue of built transmissions, and decides when the next transmission is
//! due to be built.

use crate::interfaces::{build_transmission, in_hiss_plan, TransmissionPlan};
use crate::library::{is_descent, LibraryError, TransmissionLibrary, TransmissionSetNode};
use crate::networks::{NetworkError, RadioNetworks};
use crate::queue::TransmissionQueue;
use crate::sets::{pick_allowed, played_after, Conversation, TransmissionSet};
use crate::settings::{debug_of, is_debug};
use crate::time::{clock_start, in_span, micros_since, rand_time_after, rand_time_secs, time_after};
use crate::transmission::{AudioAsset, BuildError, Transmission};
use config::Config;
use quanta::Instant;
use rand::rngs::StdRng;
use vstd::prelude::*;

verus! {

/// Why the documents that define the networks and the library are refused.
#[derive(Clone, Copy, Debug, PartialEq, Eq, Structural)]
pub enum DefinitionError {
    /// A document is missing or cannot be read.
    Unreadable,
    /// The network table breaks a rule.
    Networks(NetworkError),
    /// The content library is refused.
    Library(LibraryError),
}

impl DefinitionError {
    /// The operator-facing text of the error.
    pub fn message(&self) -> (text: String)
        ensures
            text@ == self.message_text(),
    {
        match self {
            DefinitionError::Unreadable => "A document is missing or cannot be read.".to_string(),
            DefinitionError::Networks(error) => error.message(),
            DefinitionError::Library(error) => error.message(),
        }
    }

    /// The text that `message` returns.
    pub open spec fn message_text(&self) -> Seq<char> {
        match self {
            DefinitionError::Unreadable => "A document is missing or cannot be read."@,
            DefinitionError::Networks(error) => error.message_text(),
            DefinitionError::Library(error) => error.message_text(),
        }
    }
}

/// The spans of time that the director draws from, each a lower and an
/// upper bound in microseconds: the gap between two builds, the hiss
/// before a transmission and the hiss after it.
#[derive(Clone, Copy, Debug, PartialEq, Eq, Structural)]
pub struct DirectorTimes {
    pub min_queue_delay: u64,
    pub max_queue_delay: u64,
    pub hiss_preroll_min_time: u64,
    pub hiss_preroll_max_time: u64,
    pub hiss_postroll_min_time: u64,
    pub hiss_postroll_max_time: u64,
}

/// Whether a build with the deadline `deadline` is due at the time `now`:
/// it is once the deadline has come, and never without a deadline.
pub open spec fn due_at(deadline: Option<u64>, now: u64) -> bool {
    deadline matches Some(time) && now >= time
}

/// The shortest gap before the first build while debugging is on.
pub const DEBUG_FIRST_GAP_MIN: u64 = 3_000_000;

/// The longest gap before the first build while debugging is on.
pub const DEBUG_FIRST_GAP_MAX: u64 = 5_000_000;

/// The director.
#[derive(Debug)]
pub struct Director {
    network_path: String,
    networks: RadioNetworks,
    library_path: String,
    library: TransmissionLibrary,
    pub queue: TransmissionQueue,
    clock: Instant,
    next_queue_time: Option<u64>,
    times: DirectorTimes,
    rng: StdRng,
}

impl Director {
    /// The time at which the next build is due, if one is.
    pub closed spec fn deadline(&self) -> Option<u64> {
        self.next_queue_time
    }

    /// The spans of time that the director draws from.
    pub closed spec fn times(&self) -> DirectorTimes {
        self.times
    }

    /// The network table.
    pub closed spec fn networks(&self) -> RadioNetworks {
        self.networks
    }

    /// The content library.
    pub closed spec fn library(&self) -> TransmissionLibrary {
        self.library
    }

    /// The transmissions that wait in the queue, oldest first.
    pub closed spec fn queued(&self) -> Seq<Transmission> {
        self.queue.transmissions@
    }

    /// The path of the document of the network table.
    pub closed spec fn network_path(&self) -> Seq<char> {
        self.network_path@
    }

    /// The path of the document of the content library.
    pub closed spec fn library_path(&self) -> Seq<char> {
        self.library_path@
    }

    /// What holds of every director: its library satisfies its `inv`.
    pub closed spec fn inv(&self) -> bool {
        self.library.inv()
    }

    /// A director without networks, with a library of the root alone, with
    /// nothing queued and no build due, that draws on `rng`.
    pub fn empty(rng: StdRng) -> (director: Self)
        ensures
            director.inv(),
            director.deadline() is None,
            director.queued().len() == 0,
            director.networks().networks@.len() == 0,
            director.networks().scan_frequencies@.len() == 0,
            director.library()@.len() == 1,
            director.network_path().len() == 0,
            director.library_path().len() == 0,
            director.times() == (DirectorTimes {
                min_queue_delay: 0,
                max_queue_delay: 0,
                hiss_preroll_min_time: 0,
                hiss_preroll_max_time: 0,
                hiss_postroll_min_time: 0,
                hiss_postroll_max_time: 0,
            }),
    {
        Self {
            network_path: String::new(),
            networks: RadioNetworks::empty(),
            library_path: String::new(),
            library: TransmissionLibrary::empty(),
            queue: TransmissionQueue::empty(),
            clock: clock_start(),
            next_queue_time: Self::never(),
            times: DirectorTimes {
                min_queue_delay: 0,
                max_queue_delay: 0,
                hiss_preroll_min_time: 0,
                hiss_preroll_max_time: 0,
                hiss_postroll_min_time: 0,
                hiss_postroll_max_time: 0,
            },
            rng,
        }
    }

    /// A director over the documents at the two paths, as they were read:
    /// it takes them over as `reload` does, and then sets the time of its
    /// first build, within the usual gap, or within three to five seconds
    /// while the settings turn debugging on. Where a document is refused,
    /// no director is made.
    pub fn new(
        rng: StdRng,
        settings: &Config,
        network_path: String,
        library_path: String,
        networks: Result<RadioNetworks, DefinitionError>,
        library: Result<TransmissionLibrary, DefinitionError>,
        times: DirectorTimes,
    ) -> (made: Result<Self, DefinitionError>)
        requires
            library matches Ok(tree) ==> tree.inv(),
        ensures
            match made {
                Ok(director) => {
                    &&& director.inv()
                    &&& networks == Ok::<RadioNetworks, DefinitionError>(director.networks())
                    &&& library == Ok::<TransmissionLibrary, DefinitionError>(director.library())
                    &&& director.times() == times
                    &&& director.network_path() == network_path@
                    &&& director.library_path() == library_path@
                    &&& director.queued().len() == 0
                    &&& director.deadline() is Some
                    &&& exists|now: u64, span: u64|
                        director.deadline() == Some(#[trigger] time_after(now, span)) && if debug_of(
                            *settings,
                        ) {
                            in_span(DEBUG_FIRST_GAP_MIN, DEBUG_FIRST_GAP_MAX, span)
                        } else {
                            in_span(times.min_queue_delay, times.max_queue_delay, span)
                        }
                },
                Err(error) => match networks {
                    Err(first) => error == first,
                    Ok(_) => library == Err::<TransmissionLibrary, DefinitionError>(error),
                },
            },
    {
        let mut director = Director::empty(rng);
        director.network_path = network_path;
        director.library_path = library_path;
        match director.reload(networks, library, times) {
            Ok(()) => {},
            Err(error) => {
                return Err(error);
            },
        }
        director.set_initial_queue_time(is_debug(settings));
        Ok(director)
    }

    fn set_initial_queue_time(&mut self, debug: bool)
        ensures
            final(self).inv() == old(self).inv(),
            final(self).networks() == old(self).networks(),
            final(self).library() == old(self).library(),
            final(self).times() == old(self).times(),
            final(self).queued() == old(self).queued(),
            final(self).network_path() == old(self).network_path(),
            final(self).library_path() == old(self).library_path(),
            exists|now: u64, span: u64|
                final(self).deadline() == Some(#[trigger] time_after(now, span)) && if debug {
                    in_span(DEBUG_FIRST_GAP_MIN, DEBUG_FIRST_GAP_MAX, span)
                } else {
                    in_span(old(self).times().min_queue_delay, old(self).times().max_queue_delay, span)
                },
    {
        if debug {
            let now: u64 = micros_since(&self.clock);
            self.next_queue_time = Some(
                rand_time_after(&mut self.rng, now, DEBUG_FIRST_GAP_MIN, DEBUG_FIRST_GAP_MAX),
            );
        } else {
            self.set_next_queue_time();
        }
    }

    /// Sets the time of the next build: a span after the present that is
    /// drawn within the gap between two builds.
    pub fn set_next_queue_time(&mut self)
        ensures
            final(self).inv() == old(self).inv(),
            final(self).networks() == old(self).networks(),
            final(self).library() == old(self).library(),
            final(self).times() == old(self).times(),
            final(self).queued() == old(self).queued(),
            final(self).network_path() == old(self).network_path(),
            final(self).library_path() == old(self).library_path(),
            exists|now: u64, span: u64|
                final(self).deadline() == Some(#[trigger] time_after(now, span)) && in_span(
                    old(self).times().min_queue_delay,
                    old(self).times().max_queue_delay,
                    span,
                ),
    {
        let now: u64 = micros_since(&self.clock);
        self.set_next_queue_time_at(now);
    }

    /// Sets the time of the next build: a span after `now` that is drawn
    /// within the gap between two builds.
    pub fn set_next_queue_time_at(&mut self, now: u64)
        ensures
            final(self).inv() == old(self).inv(),
            final(self).networks() == old(self).networks(),
            final(self).library() == old(self).library(),
            final(self).times() == old(self).times(),
            final(self).queued() == old(self).queued(),
            final(self).network_path() == old(self).network_path(),
            final(self).library_path() == old(self).library_path(),
            exists|span: u64|
                final(self).deadline() == Some(#[trigger] time_after(now, span)) && in_span(
                    old(self).times().min_queue_delay,
                    old(self).times().max_queue_delay,
                    span,
                ),
    {
        let time: u64 = rand_time_after(
            &mut self.rng,
            now,
            self.times.min_queue_delay,
            self.times.max_queue_delay,
        );
        self.next_queue_time = Some(time);
    }

    /// Takes over newly read documents: the network table, then the
    /// library. After both, no build is due, nothing is queued and `times`
    /// holds. A refused table stops the reload before anything changes; a
    /// refused library stops it with the table already taken over.
    pub fn reload(
        &mut self,
        networks: Result<RadioNetworks, DefinitionError>,
        library: Result<TransmissionLibrary, DefinitionError>,
        times: DirectorTimes,
    ) -> (done: Result<(), DefinitionError>)
        requires
            old(self).inv(),
            library matches Ok(tree) ==> tree.inv(),
        ensures
            final(self).inv(),
            final(self).network_path() == old(self).network_path(),
            final(self).library_path() == old(self).library_path(),
            match (networks, library) {
                (Ok(table), Ok(tree)) => {
                    &&& done is Ok
                    &&& final(self).networks() == table
                    &&& final(self).library() == tree
                    &&& final(self).deadline() is None
                    &&& final(self).queued().len() == 0
                    &&& final(self).times() == times
                },
                (Ok(table), Err(error)) => {
                    &&& done == Err::<(), DefinitionError>(error)
                    &&& final(self).networks() == table
                    &&& final(self).library() == old(self).library()
                    &&& final(self).deadline() == old(self).deadline()
                    &&& final(self).queued() == old(self).queued()
                    &&& final(self).times() == old(self).times()
                },
                (Err(error), _) => {
                    &&& done == Err::<(), DefinitionError>(error)
                    &&& final(self).networks() == old(self).networks()
                    &&& final(self).library() == old(self).library()
                    &&& final(self).deadline() == old(self).deadline()
                    &&& final(self).queued() == old(self).queued()
                    &&& final(self).times() == old(self).times()
                },
            },
    {
        match networks {
            Ok(table) => {
                self.networks = table;
            },
            Err(error) => {
                return Err(error);
            },
        }
        match library {
            Ok(tree) => {
                self.library = tree;
            },
            Err(error) => {
                return Err(error);
            },
        }
        self.next_queue_time = Self::never();
        self.queue = TransmissionQueue::empty();
        self.times = times;
        Ok(())
    }

    /// The network table.
    pub fn get_networks(&self) -> (networks: &RadioNetworks)
        ensures
            *networks == self.networks(),
    {
        &self.networks
    }

    /// The time of a build that is never due.
    fn never() -> (time: Option<u64>)
        ensures
            time is None,
    {
        None
    }

    /// Puts transmissions that were built at the end of the queue, in
    /// their order.
    pub fn add_incoming_transmissions(&mut self, transmissions: Vec<Transmission>)
        ensures
            final(self).queued() == old(self).queued() + transmissions@,
            final(self).inv() == old(self).inv(),
            final(self).networks() == old(self).networks(),
            final(self).library() == old(self).library(),
            final(self).times() == old(self).times(),
            final(self).deadline() == old(self).deadline(),
    {
        self.queue.extend(transmissions);
    }

    /// Whether a build is due at the time `now`: one is once the time set
    /// for it has come, and none is while no time is set.
    pub fn is_due(&self, now: u64) -> (due: bool)
        ensures
            due == due_at(self.deadline(), now),
    {
        match self.next_queue_time {
            Some(time) => now >= time,
            None => false,
        }
    }

    /// Whether a build is due at present: what `is_due` gives at the time
    /// that the director's clock shows. So none is due while no time is set,
    /// and one is due at any time where the time set is 0.
    pub fn needs_queueing(&self) -> (due: bool)
        ensures
            exists|now: u64| due == #[trigger] due_at(self.deadline(), now),
            self.deadline() is None ==> !due,
            self.deadline() == Some(0u64) ==> due,
    {
        let now: u64 = micros_since(&self.clock);
        let due = self.is_due(now);
        assert(due == due_at(self.deadline(), now));
        due
    }

    /// Chooses a set of the library by weighted descent from the root and
    /// gives the path of its data; nothing where the descent ends at a node
    /// that carries none, as the root of an empty library does.
    pub fn choose_set(&mut self) -> (path: Option<String>)
        requires
            old(self).inv(),
        ensures
            final(self).inv(),
            final(self).networks() == old(self).networks(),
            final(self).library() == old(self).library(),
            final(self).times() == old(self).times(),
            final(self).deadline() == old(self).deadline(),
            final(self).queued() == old(self).queued(),
            exists|descent: Seq<int>| #[trigger]
                is_descent(old(self).library()@, descent) && descent[0] == 0 && match path {
                    Some(text) => old(self).library()@[descent.last()].data matches Some(data)
                        && text@ == data@,
                    None => old(self).library()@[descent.last()].data is None,
                },
    {
        let chosen: &TransmissionSetNode = self.library.choose_leaf(&mut self.rng);
        let ghost descent = choose|descent: Seq<int>| #[trigger]
            is_descent(self.library@, descent) && descent[0] == 0 && *chosen
                == self.library@[descent.last()];
        let path = match &chosen.data {
            Some(data) => Some(data.clone()),
            None => None,
        };
        proof {
            assert(is_descent(old(self).library()@, descent) && descent[0] == 0 && match path {
                Some(text) => old(self).library()@[descent.last()].data matches Some(data)
                    && text@ == data@,
                None => old(self).library()@[descent.last()].data is None,
            });
        }
        path
    }

    /// Picks the next conversation of `set` on the director's draws, as
    /// `TransmissionSet::pick_next` does.
    pub fn get_random_conversation(&mut self, set: &mut TransmissionSet) -> (picked: Option<usize>)
        ensures
            final(self).inv() == old(self).inv(),
            final(self).networks() == old(self).networks(),
            final(self).library() == old(self).library(),
            final(self).times() == old(self).times(),
            final(self).deadline() == old(self).deadline(),
            final(self).queued() == old(self).queued(),
            final(set).conversations == old(set).conversations,
            final(set).playback == old(set).playback,
            final(set).replay_mode == old(set).replay_mode,
            final(set).name == old(set).name,
            final(set).description == old(set).description,
            final(set).file_path == old(set).file_path,
            old(set).conversations.len() == 0 ==> picked is None && final(set).conversations_state
                == old(set).conversations_state,
            old(set).conversations.len() > 0 ==> picked is Some,
            picked matches Some(i) ==> pick_allowed(
                old(set).playback,
                old(set).replay_mode,
                old(set).ids(),
                old(set).weights(),
                old(set).played(),
                i as int,
            ) && final(set).played() == played_after(
                old(set).playback,
                old(set).replay_mode,
                old(set).ids(),
                old(set).played(),
                i as int,
            ),
            old(set).state_within_ids() ==> final(set).state_within_ids(),
    {
        set.pick_next(&mut self.rng)
    }

    /// Plans the transmission of `conversation`, as `build_transmission`
    /// does, with hiss before and after it that is drawn within the spans
    /// set for each.
    pub fn get_random_transmission(
        &mut self,
        conversation: &Conversation,
        rendered: &Vec<Vec<String>>,
    ) -> (made: Result<TransmissionPlan, BuildError>)
        ensures
            final(self).inv() == old(self).inv(),
            final(self).networks() == old(self).networks(),
            final(self).library() == old(self).library(),
            final(self).times() == old(self).times(),
            final(self).deadline() == old(self).deadline(),
            final(self).queued() == old(self).queued(),
            in_hiss_plan(
                *conversation,
                old(self).networks().scan_frequencies@,
                old(self).times().hiss_preroll_min_time,
                old(self).times().hiss_preroll_max_time,
                old(self).times().hiss_postroll_min_time,
                old(self).times().hiss_postroll_max_time,
                rendered@,
                made,
            ),
    {
        let hiss_preroll: u64 = rand_time_secs(
            &mut self.rng,
            self.times.hiss_preroll_min_time,
            self.times.hiss_preroll_max_time,
        );
        let hiss_postroll: u64 = rand_time_secs(
            &mut self.rng,
            self.times.hiss_postroll_min_time,
            self.times.hiss_postroll_max_time,
        );
        build_transmission(
            conversation,
            &self.networks,
            hiss_preroll,
            hiss_postroll,
            rendered,
            &mut self.rng,
        )
    }

    /// Makes the transmission of a plan and of the audio read for it, as
    /// `TransmissionPlan::assemble` does; a build that fails yields nothing.
    pub fn get_new_transmission(plan: TransmissionPlan, assets: Vec<AudioAsset>) -> (made: Option<
        Transmission,
    >)
        ensures
            crate::interfaces::assembled_ok(
                plan,
                assets@,
                match made {
                    Some(transmission) => Ok(transmission),
                    None => Err(BuildError::MissingAsset),
                },
            ),
    {
        match plan.assemble(assets) {
            Ok(transmission) => Some(transmission),
            Err(_) => None,
        }
    }
}

} // verus!
