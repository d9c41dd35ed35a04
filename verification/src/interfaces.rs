//! The assembly of transmissions: the frequency of a conversation, the plan
//! of its items as each backend renders them, and the transmission made of
//! the plan and the audio that was read for it.

use crate::networks::RadioNetworks;
use crate::random::draw_between;
use crate::sets::{Conversation, ConversationTransmissionItemSpec};
use crate::time::in_span;
use crate::transmission::{
    playing_time, AudioAsset, BuildError, Transmission, TransmissionItem,
};
use rand::rngs::StdRng;
use vstd::prelude::*;
use vstd::string::StringExecFns;

verus! {

/// The backends that render the items of a conversation.
#[derive(Clone, Copy, Debug, PartialEq, Eq, Structural)]
pub enum TransmissionInterface {
    /// Items are audio files that exist.
    LocalFilesystem,
    /// Items are generated: a script from a prompt, speech from each line.
    OpenAI,
}

/// The backend that a conversation names, if the name is known.
pub open spec fn interface_named(name: Seq<char>) -> Option<TransmissionInterface> {
    if name == "LocalFileSystem"@ {
        Some(TransmissionInterface::LocalFilesystem)
    } else if name == "OpenAI"@ {
        Some(TransmissionInterface::OpenAI)
    } else {
        None
    }
}

/// The backend that `name` names, if the name is known.
pub fn interface_of(name: &String) -> (kind: Option<TransmissionInterface>)
    ensures
        kind == interface_named(name@),
{
    if *name == "LocalFileSystem".to_string() {
        Some(TransmissionInterface::LocalFilesystem)
    } else if *name == "OpenAI".to_string() {
        Some(TransmissionInterface::OpenAI)
    } else {
        None
    }
}

/// A span of whole seconds in microseconds, as far as 64 bits hold it.
pub open spec fn seconds_as_micros(seconds: u64) -> u64 {
    if seconds * 1_000_000 <= u64::MAX {
        (seconds * 1_000_000) as u64
    } else {
        u64::MAX
    }
}

/// Whether `sleep` is a silence that may follow an item: none after the
/// final item of a transmission (`last`), and otherwise a span between the
/// two delays that the item declares.
pub open spec fn delay_allowed(spec: ConversationTransmissionItemSpec, last: bool, sleep: u64) -> bool {
    if last {
        sleep == 0
    } else {
        exists|seconds: u64|
            spec.delay_after_min <= seconds <= spec.delay_after_max && sleep
                == #[trigger] seconds_as_micros(seconds)
    }
}

/// Whether `frequency` is one that a transmission of a conversation may be
/// sent on: the one the conversation names; or, where it asks for a random
/// one, a scan frequency of the table, or 0 where the table has none.
pub open spec fn frequency_resolved(
    random_frequency: bool,
    declared: u32,
    table: Seq<u32>,
    frequency: u32,
) -> bool {
    if !random_frequency {
        frequency == declared
    } else if table.len() == 0 {
        frequency == 0
    } else {
        table.contains(frequency)
    }
}

/// One item as it will be rendered: what to call it, what to show with it,
/// where its audio lies and how long to stay silent after it
/// (microseconds).
#[derive(Clone, Debug)]
pub struct ItemPlan {
    pub id: String,
    pub caption: String,
    pub file_path: String,
    pub sleep_after: u64,
}

/// A transmission as it will be built, before its audio is read.
#[derive(Clone, Debug)]
pub struct TransmissionPlan {
    pub id: String,
    pub frequency: u32,
    pub hiss_preroll: u64,
    pub hiss_postroll: u64,
    pub items: Vec<ItemPlan>,
}

/// What the generative backend is asked for one item: a script for
/// `prompt`, written by `model`.
#[derive(Clone, Debug)]
pub struct ScriptRequest {
    pub prompt: String,
    pub model: String,
}

/// The silence after an item: a whole number of seconds drawn between the
/// two delays that the item declares, in microseconds. An item whose lower
/// delay lies above its upper one is malformed.
pub fn get_delay(spec: &ConversationTransmissionItemSpec, rng: &mut StdRng) -> (delay: Result<
    u64,
    BuildError,
>)
    ensures
        spec.delay_after_min > spec.delay_after_max ==> delay == Err::<u64, BuildError>(
            BuildError::MalformedPayload,
        ),
        spec.delay_after_min <= spec.delay_after_max ==> delay is Ok && delay_allowed(
            *spec,
            false,
            delay->Ok_0,
        ),
{
    if spec.delay_after_min > spec.delay_after_max {
        return Err(BuildError::MalformedPayload);
    }
    let drawn: u128 = draw_between(rng, spec.delay_after_min as u128, spec.delay_after_max as u128);
    let seconds: u64 = drawn as u64;
    let micros: u64 = match seconds.checked_mul(1_000_000) {
        Some(micros) => micros,
        None => u64::MAX,
    };
    assert(micros == seconds_as_micros(seconds));
    Ok(micros)
}

/// Starts a transmission for `conversation`: on the frequency that the
/// conversation names, or on one drawn from the scan frequencies of
/// `networks` where it asks for a random one.
pub fn init_transmission(conversation: &Conversation, networks: &RadioNetworks, rng: &mut StdRng) -> (made:
    Result<Transmission, BuildError>)
    ensures
        made is Ok,
        made->Ok_0.id@.len() == 0,
        made->Ok_0.items@.len() == 0,
        made->Ok_0.hiss_preroll == 0,
        made->Ok_0.hiss_postroll == 0,
        frequency_resolved(
            conversation.transmissions.random_frequency,
            conversation.transmissions.frequency,
            networks.scan_frequencies@,
            made->Ok_0.frequency,
        ),
{
    if conversation.transmissions.random_frequency {
        Ok(Transmission::random_from_networks(networks, rng))
    } else {
        Ok(Transmission::new(conversation.transmissions.frequency))
    }
}

/// The backend of audio files that exist.
#[derive(Clone, Debug)]
pub struct TransmissionLocalFileSystem {
    pub path: String,
}

/// Whether the backend of existing files can render `spec`: it names a
/// file, it has a caption, and, unless it belongs to the last item, its
/// delays are in order.
pub open spec fn local_item_ok(spec: ConversationTransmissionItemSpec, last: bool) -> bool {
    &&& spec.data.file is Some
    &&& spec.captions@.len() > 0
    &&& last || spec.delay_after_min <= spec.delay_after_max
}

/// Whether `item` is what the backend of existing files plans for `spec`.
pub open spec fn local_item_planned(
    spec: ConversationTransmissionItemSpec,
    last: bool,
    item: ItemPlan,
) -> bool {
    &&& local_item_ok(spec, last)
    &&& item.id@ == spec.id@
    &&& item.caption@ == spec.captions@[0]@
    &&& item.file_path@ == "data/transmissions/"@ + spec.data.file->0@
    &&& delay_allowed(spec, last, item.sleep_after)
}

/// Whether `made` is a result that the backend of existing files may give
/// for `conversation`: a plan with one item for each item of the
/// conversation, in order, if it can render them all, and the error of a
/// malformed payload if not.
pub open spec fn local_plan_ok(
    conversation: Conversation,
    table: Seq<u32>,
    hiss_preroll: u64,
    hiss_postroll: u64,
    made: Result<TransmissionPlan, BuildError>,
) -> bool {
    let specs = conversation.transmissions.items@;
    let renderable = forall|i: int|
        0 <= i < specs.len() ==> local_item_ok(#[trigger] specs[i], i == specs.len() - 1);
    match made {
        Ok(plan) => {
            &&& renderable
            &&& plan.id@ == conversation.id@
            &&& frequency_resolved(
                conversation.transmissions.random_frequency,
                conversation.transmissions.frequency,
                table,
                plan.frequency,
            )
            &&& plan.hiss_preroll == hiss_preroll
            &&& plan.hiss_postroll == hiss_postroll
            &&& plan.items@.len() == specs.len()
            &&& forall|i: int|
                0 <= i < specs.len() ==> local_item_planned(
                    specs[i],
                    i == specs.len() - 1,
                    #[trigger] plan.items@[i],
                )
        },
        Err(error) => !renderable && error == BuildError::MalformedPayload,
    }
}

impl TransmissionLocalFileSystem {
    /// Plans the transmission of `conversation`: one item for each of its
    /// items, read from the file that the item names, below
    /// `data/transmissions/`.
    pub fn build(
        conversation: &Conversation,
        networks: &RadioNetworks,
        hiss_preroll: u64,
        hiss_postroll: u64,
        rng: &mut StdRng,
    ) -> (made: Result<TransmissionPlan, BuildError>)
        ensures
            local_plan_ok(
                *conversation,
                networks.scan_frequencies@,
                hiss_preroll,
                hiss_postroll,
                made,
            ),
    {
        let frequency: u32 = match init_transmission(conversation, networks, rng) {
            Ok(transmission) => transmission.frequency,
            Err(error) => {
                return Err(error);
            },
        };
        let count: usize = conversation.transmissions.items.len();
        let ghost specs = conversation.transmissions.items@;
        let mut items: Vec<ItemPlan> = Vec::new();
        let mut i: usize = 0;
        while i < count
            invariant
                i <= count,
                count == specs.len(),
                specs == conversation.transmissions.items@,
                items@.len() == i,
                forall|k: int|
                    0 <= k < i ==> local_item_planned(specs[k], k == count - 1, #[trigger] items@[k]),
            decreases count - i,
        {
            let spec = &conversation.transmissions.items[i];
            let last: bool = i + 1 == count;
            let mut file_path = "data/transmissions/".to_string();
            match &spec.data.file {
                Some(file) => file_path.append(file.as_str()),
                None => {
                    proof {
                        assert(!local_item_ok(specs[i as int], i == specs.len() - 1));
                    }
                    return Err(BuildError::MalformedPayload);
                },
            }
            if spec.captions.len() == 0 {
                proof {
                    assert(!local_item_ok(specs[i as int], i == specs.len() - 1));
                }
                return Err(BuildError::MalformedPayload);
            }
            let sleep_after: u64 = if last {
                0
            } else {
                match get_delay(spec, rng) {
                    Ok(delay) => delay,
                    Err(error) => {
                        proof {
                            assert(!local_item_ok(specs[i as int], i == specs.len() - 1));
                        }
                        return Err(error);
                    },
                }
            };
            let item = ItemPlan {
                id: spec.id.clone(),
                caption: spec.captions[0].clone(),
                file_path,
                sleep_after,
            };
            items.push(item);
            i = i + 1;
        }
        proof {
            assert forall|k: int| 0 <= k < specs.len() implies local_item_ok(
                #[trigger] specs[k],
                k == specs.len() - 1,
            ) by {
                assert(local_item_planned(specs[k], k == count - 1, items@[k]));
            }
        }
        Ok(
            TransmissionPlan {
                id: conversation.id.clone(),
                frequency,
                hiss_preroll,
                hiss_postroll,
                items,
            },
        )
    }
}

/// The generative backend.
#[derive(Clone, Debug)]
pub struct TransmissionOpenAI {
    pub path: String,
}

/// Whether the generative backend can render `spec`: it has a prompt, a
/// model and a caption, and, where a silence is to be drawn after one of
/// its lines (`delayed`), its delays are in order.
pub open spec fn generated_item_ok(spec: ConversationTransmissionItemSpec, delayed: bool) -> bool {
    &&& spec.data.prompt is Some
    &&& spec.data.model is Some
    &&& spec.captions@.len() > 0
    &&& delayed ==> spec.delay_after_min <= spec.delay_after_max
}

/// Whether `spec` says what to ask the generative backend for: it has a
/// prompt and a model.
pub open spec fn promptable(spec: ConversationTransmissionItemSpec) -> bool {
    spec.data.prompt is Some && spec.data.model is Some
}

/// Whether `request` asks for the script of `spec`.
pub open spec fn request_for(spec: ConversationTransmissionItemSpec, request: ScriptRequest) -> bool {
    &&& promptable(spec)
    &&& request.prompt@ == spec.data.prompt->0@
    &&& request.model@ == spec.data.model->0@
}

/// The number of lines of speech of the first `upto` items together.
pub open spec fn lines_before(rendered: Seq<Vec<String>>, upto: int) -> int
    decreases upto,
{
    if upto <= 0 {
        0
    } else {
        lines_before(rendered, upto - 1) + rendered[upto - 1]@.len()
    }
}

/// The place, among all rendered items, of line `line` of item `item`.
pub open spec fn slot(rendered: Seq<Vec<String>>, item: int, line: int) -> int {
    lines_before(rendered, item) + line
}

/// Whether place `k` is that of the final item among all rendered items.
pub open spec fn is_final(rendered: Seq<Vec<String>>, k: int) -> bool {
    k == lines_before(rendered, rendered.len() as int) - 1
}

/// Whether item `i` has a line that is not the final item of all: whether a
/// silence is drawn after one of its lines.
pub open spec fn renders_before_end(rendered: Seq<Vec<String>>, i: int) -> bool {
    rendered[i]@.len() > 0 && !is_final(rendered, slot(rendered, i, 0))
}

/// Whether `item` is what the generative backend plans for the line of
/// `spec` whose speech lies at `path`.
pub open spec fn generated_item_planned(
    spec: ConversationTransmissionItemSpec,
    last: bool,
    path: Seq<char>,
    item: ItemPlan,
) -> bool {
    &&& item.id@ == spec.id@
    &&& item.caption@ == spec.captions@[0]@
    &&& item.file_path@ == path
    &&& delay_allowed(spec, last, item.sleep_after)
}

/// Whether `made` is a result that the generative backend may give for
/// `conversation`, when `rendered` holds for each item, in order, the paths
/// of the speech of each line of its script: a plan with one item for each
/// line, in order, if there is speech for each item and the backend can
/// render them all; the error of a failed backend where `rendered` does not
/// match the items in number, and that of a malformed payload otherwise.
/// No silence follows the final item of the plan; after every other item a
/// silence is drawn within the delays of the item that the line belongs to.
pub open spec fn generated_plan_ok(
    conversation: Conversation,
    table: Seq<u32>,
    hiss_preroll: u64,
    hiss_postroll: u64,
    rendered: Seq<Vec<String>>,
    made: Result<TransmissionPlan, BuildError>,
) -> bool {
    let specs = conversation.transmissions.items@;
    let renderable = forall|i: int|
        0 <= i < specs.len() ==> generated_item_ok(
            #[trigger] specs[i],
            renders_before_end(rendered, i),
        );
    match made {
        Ok(plan) => {
            &&& rendered.len() == specs.len()
            &&& renderable
            &&& plan.id@.len() == 0
            &&& frequency_resolved(
                conversation.transmissions.random_frequency,
                conversation.transmissions.frequency,
                table,
                plan.frequency,
            )
            &&& plan.hiss_preroll == hiss_preroll
            &&& plan.hiss_postroll == hiss_postroll
            &&& plan.items@.len() == lines_before(rendered, specs.len() as int)
            &&& forall|i: int, l: int|
                0 <= i < specs.len() && 0 <= l < rendered[i]@.len() ==> generated_item_planned(
                    specs[i],
                    is_final(rendered, slot(rendered, i, l)),
                    rendered[i]@[l]@,
                    plan.items@[#[trigger] slot(rendered, i, l)],
                )
        },
        Err(error) => if rendered.len() != specs.len() {
            error == BuildError::BackendFailure
        } else {
            !renderable && error == BuildError::MalformedPayload
        },
    }
}

/// The lines of speech add up from item to item.
pub proof fn lemma_lines_before_grows(rendered: Seq<Vec<String>>, a: int, b: int)
    requires
        0 <= a <= b,
    ensures
        0 <= lines_before(rendered, a) <= lines_before(rendered, b),
    decreases b,
{
    if b > 0 {
        if a < b {
            lemma_lines_before_grows(rendered, a, b - 1);
        } else {
            lemma_lines_before_grows(rendered, a - 1, b - 1);
        }
    }
}

/// Items without lines add no lines.
proof fn lemma_lines_flat(rendered: Seq<Vec<String>>, a: int, b: int)
    requires
        0 <= a <= b,
        forall|k: int| a <= k < b ==> (#[trigger] rendered[k])@.len() == 0,
    ensures
        lines_before(rendered, b) == lines_before(rendered, a),
    decreases b - a,
{
    if a < b {
        lemma_lines_flat(rendered, a, b - 1);
        assert(rendered[b - 1]@.len() == 0);
    }
}

/// Where `last` is the last item with a line, the final item of all is the
/// last line of that item.
proof fn lemma_final_place(rendered: Seq<Vec<String>>, last: int, i: int, l: int)
    requires
        0 <= last < rendered.len(),
        rendered[last]@.len() > 0,
        forall|k: int| last < k < rendered.len() ==> (#[trigger] rendered[k])@.len() == 0,
        0 <= i < rendered.len(),
        0 <= l < rendered[i]@.len(),
    ensures
        i <= last,
        is_final(rendered, slot(rendered, i, l)) <==> (i == last && l == rendered[i]@.len() - 1),
{
    if i > last {
        assert(rendered[i]@.len() == 0);
    }
    lemma_lines_flat(rendered, last + 1, rendered.len() as int);
    assert(lines_before(rendered, last + 1) == lines_before(rendered, last)
        + rendered[last]@.len());
    lemma_lines_before_grows(rendered, 0, i);
    if i < last {
        assert(lines_before(rendered, i + 1) == lines_before(rendered, i) + rendered[i]@.len());
        lemma_lines_before_grows(rendered, i + 1, last);
    }
}

impl TransmissionOpenAI {
    /// What to ask the backend for: one script for each item of
    /// `conversation`, in order. An item without a prompt or a model is
    /// malformed.
    pub fn requests(conversation: &Conversation) -> (asked: Result<Vec<ScriptRequest>, BuildError>)
        ensures
            match asked {
                Ok(requests) => {
                    &&& requests@.len() == conversation.transmissions.items@.len()
                    &&& forall|i: int|
                        0 <= i < requests@.len() ==> request_for(
                            conversation.transmissions.items@[i],
                            #[trigger] requests@[i],
                        )
                },
                Err(error) => error == BuildError::MalformedPayload && exists|i: int|
                    0 <= i < conversation.transmissions.items@.len() && !promptable(
                        #[trigger] conversation.transmissions.items@[i],
                    ),
            },
    {
        let mut requests: Vec<ScriptRequest> = Vec::new();
        let mut i: usize = 0;
        while i < conversation.transmissions.items.len()
            invariant
                i <= conversation.transmissions.items@.len(),
                requests@.len() == i,
                forall|k: int|
                    0 <= k < i ==> request_for(
                        conversation.transmissions.items@[k],
                        #[trigger] requests@[k],
                    ),
            decreases conversation.transmissions.items@.len() - i,
        {
            let spec = &conversation.transmissions.items[i];
            let prompt = match &spec.data.prompt {
                Some(prompt) => prompt.clone(),
                None => {
                    proof {
                        assert(!promptable(conversation.transmissions.items@[i as int]));
                    }
                    return Err(BuildError::MalformedPayload);
                },
            };
            let model = match &spec.data.model {
                Some(model) => model.clone(),
                None => {
                    proof {
                        assert(!promptable(conversation.transmissions.items@[i as int]));
                    }
                    return Err(BuildError::MalformedPayload);
                },
            };
            requests.push(ScriptRequest { prompt, model });
            i = i + 1;
        }
        Ok(requests)
    }

    /// Plans the transmission of `conversation` from what the backend
    /// rendered: `rendered` holds for each item, in order, the paths of the
    /// speech of each line of its script. Each line becomes an item of its
    /// own, under the id and the first caption of the item it belongs to.
    /// After every rendered item but the final one a silence of its own is
    /// drawn, within the delays of the item that the line belongs to; no
    /// silence follows the final item. An item whose delays are out of order
    /// is malformed where a silence is to be drawn after one of its lines.
    pub fn build(
        conversation: &Conversation,
        networks: &RadioNetworks,
        hiss_preroll: u64,
        hiss_postroll: u64,
        rendered: &Vec<Vec<String>>,
        rng: &mut StdRng,
    ) -> (made: Result<TransmissionPlan, BuildError>)
        ensures
            generated_plan_ok(
                *conversation,
                networks.scan_frequencies@,
                hiss_preroll,
                hiss_postroll,
                rendered@,
                made,
            ),
    {
        let count: usize = conversation.transmissions.items.len();
        if rendered.len() != count {
            return Err(BuildError::BackendFailure);
        }
        let frequency: u32 = match init_transmission(conversation, networks, rng) {
            Ok(transmission) => transmission.frequency,
            Err(error) => {
                return Err(error);
            },
        };
        let ghost specs = conversation.transmissions.items@;
        let mut spoken: bool = false;
        let mut last_spoken: usize = 0;
        let mut j: usize = 0;
        while j < count
            invariant
                j <= count,
                rendered@.len() == count,
                spoken ==> last_spoken < j && rendered@[last_spoken as int]@.len() > 0,
                spoken ==> forall|k: int|
                    last_spoken < k < j ==> (#[trigger] rendered@[k])@.len() == 0,
                !spoken ==> forall|k: int| 0 <= k < j ==> (#[trigger] rendered@[k])@.len() == 0,
            decreases count - j,
        {
            if rendered[j].len() > 0 {
                spoken = true;
                last_spoken = j;
            }
            j = j + 1;
        }
        let mut items: Vec<ItemPlan> = Vec::new();
        let mut i: usize = 0;
        while i < count
            invariant
                i <= count,
                count == specs.len(),
                rendered@.len() == count,
                specs == conversation.transmissions.items@,
                spoken ==> last_spoken < count && rendered@[last_spoken as int]@.len() > 0,
                spoken ==> forall|k: int|
                    last_spoken < k < count ==> (#[trigger] rendered@[k])@.len() == 0,
                !spoken ==> forall|k: int|
                    0 <= k < count ==> (#[trigger] rendered@[k])@.len() == 0,
                items@.len() == lines_before(rendered@, i as int),
                forall|k: int|
                    0 <= k < i ==> generated_item_ok(
                        #[trigger] specs[k],
                        renders_before_end(rendered@, k),
                    ),
                forall|k: int, l: int|
                    0 <= k < i && 0 <= l < rendered@[k]@.len() ==> generated_item_planned(
                        specs[k],
                        is_final(rendered@, slot(rendered@, k, l)),
                        rendered@[k]@[l]@,
                        items@[#[trigger] slot(rendered@, k, l)],
                    ),
            decreases count - i,
        {
            let spec = &conversation.transmissions.items[i];
            let lines = &rendered[i];
            let delayed: bool = lines.len() > 0 && (i < last_spoken || lines.len() >= 2);
            proof {
                if lines@.len() > 0 {
                    assert(spoken) by {
                        if !spoken {
                            assert(rendered@[i as int]@.len() == 0);
                        }
                    }
                    lemma_final_place(rendered@, last_spoken as int, i as int, 0);
                }
                assert(delayed == renders_before_end(rendered@, i as int));
            }
            let usable: bool = spec.data.prompt.is_some() && spec.data.model.is_some()
                && spec.captions.len() > 0 && (!delayed || spec.delay_after_min
                <= spec.delay_after_max);
            if !usable {
                proof {
                    assert(!generated_item_ok(
                        specs[i as int],
                        renders_before_end(rendered@, i as int),
                    ));
                }
                return Err(BuildError::MalformedPayload);
            }
            let mut l: usize = 0;
            while l < lines.len()
                invariant
                    i < count,
                    count == specs.len(),
                    rendered@.len() == count,
                    specs == conversation.transmissions.items@,
                    *spec == specs[i as int],
                    *lines == rendered@[i as int],
                    spoken ==> last_spoken < count && rendered@[last_spoken as int]@.len() > 0,
                    spoken ==> forall|k: int|
                        last_spoken < k < count ==> (#[trigger] rendered@[k])@.len() == 0,
                    !spoken ==> forall|k: int|
                        0 <= k < count ==> (#[trigger] rendered@[k])@.len() == 0,
                    delayed == (lines@.len() > 0 && (i < last_spoken || lines@.len() >= 2)),
                    generated_item_ok(*spec, delayed),
                    l <= lines@.len(),
                    items@.len() == slot(rendered@, i as int, l as int),
                    forall|k: int, m: int|
                        0 <= k < i && 0 <= m < rendered@[k]@.len() ==> generated_item_planned(
                            specs[k],
                            is_final(rendered@, slot(rendered@, k, m)),
                            rendered@[k]@[m]@,
                            items@[#[trigger] slot(rendered@, k, m)],
                        ),
                    forall|m: int|
                        0 <= m < l ==> generated_item_planned(
                            *spec,
                            is_final(rendered@, slot(rendered@, i as int, m)),
                            lines@[m]@,
                            items@[#[trigger] slot(rendered@, i as int, m)],
                        ),
                decreases lines@.len() - l,
            {
                proof {
                    assert(spoken) by {
                        if !spoken {
                            assert(rendered@[i as int]@.len() == 0);
                        }
                    }
                    lemma_final_place(rendered@, last_spoken as int, i as int, l as int);
                }
                let final_line: bool = i == last_spoken && l + 1 == lines.len();
                assert(final_line == is_final(rendered@, slot(rendered@, i as int, l as int)));
                let sleep_after: u64 = if final_line {
                    0
                } else {
                    assert(delayed);
                    match get_delay(spec, rng) {
                        Ok(delay) => delay,
                        Err(error) => {
                            return Err(error);
                        },
                    }
                };
                let item = ItemPlan {
                    id: spec.id.clone(),
                    caption: spec.captions[0].clone(),
                    file_path: lines[l].clone(),
                    sleep_after,
                };
                let ghost before = items@;
                items.push(item);
                proof {
                    assert forall|k: int, m: int|
                        0 <= k < i && 0 <= m < rendered@[k]@.len() implies generated_item_planned(
                        specs[k],
                        is_final(rendered@, slot(rendered@, k, m)),
                        rendered@[k]@[m]@,
                        items@[#[trigger] slot(rendered@, k, m)],
                    ) by {
                        lemma_lines_before_grows(rendered@, k + 1, i as int);
                        lemma_lines_before_grows(rendered@, 0, k);
                        assert(lines_before(rendered@, k + 1) == lines_before(rendered@, k)
                            + rendered@[k]@.len());
                        assert(0 <= slot(rendered@, k, m) < before.len());
                        assert(items@[slot(rendered@, k, m)] == before[slot(rendered@, k, m)]);
                    }
                    assert forall|m: int| 0 <= m < l + 1 implies generated_item_planned(
                        *spec,
                        is_final(rendered@, slot(rendered@, i as int, m)),
                        lines@[m]@,
                        items@[#[trigger] slot(rendered@, i as int, m)],
                    ) by {
                        lemma_lines_before_grows(rendered@, 0, i as int);
                        if m < l {
                            assert(0 <= slot(rendered@, i as int, m) < before.len());
                            assert(items@[slot(rendered@, i as int, m)] == before[slot(
                                rendered@,
                                i as int,
                                m,
                            )]);
                        }
                    }
                }
                l = l + 1;
            }
            i = i + 1;
        }
        Ok(TransmissionPlan { id: String::new(), frequency, hiss_preroll, hiss_postroll, items })
    }
}

/// The item that is made of a planned item and the audio read for it.
pub open spec fn rendered_item(item: ItemPlan, asset: AudioAsset) -> TransmissionItem {
    TransmissionItem {
        id: item.id,
        duration: playing_time(asset.sample_count, asset.sample_rate) as u64,
        caption: item.caption,
        file_path: item.file_path,
        sleep_after: item.sleep_after,
        file_bytes: asset.file_bytes,
        fft_data: asset.fft_data,
    }
}

/// Whether `made` is what becomes of `plan` with the audio `assets`: the
/// transmission with each planned item rendered, if there is audio for each
/// item and all of it has a sample rate; the error of a missing asset if
/// not.
pub open spec fn assembled_ok(
    plan: TransmissionPlan,
    assets: Seq<AudioAsset>,
    made: Result<Transmission, BuildError>,
) -> bool {
    let complete = assets.len() == plan.items@.len() && forall|k: int|
        0 <= k < assets.len() ==> (#[trigger] assets[k]).sample_rate > 0;
    match made {
        Ok(transmission) => {
            &&& complete
            &&& transmission.id == plan.id
            &&& transmission.frequency == plan.frequency
            &&& transmission.hiss_preroll == plan.hiss_preroll
            &&& transmission.hiss_postroll == plan.hiss_postroll
            &&& transmission.items@.len() == plan.items@.len()
            &&& forall|k: int|
                0 <= k < plan.items@.len() ==> #[trigger] transmission.items@[k] == rendered_item(
                    plan.items@[k],
                    assets[k],
                )
        },
        Err(error) => !complete && error == BuildError::MissingAsset,
    }
}

impl TransmissionPlan {
    /// Makes the transmission of the plan and of the audio read for its
    /// items, `assets[k]` for item `k`. Nothing is made of a plan whose
    /// audio is not all there.
    pub fn assemble(self, assets: Vec<AudioAsset>) -> (made: Result<Transmission, BuildError>)
        ensures
            assembled_ok(self, assets@, made),
    {
        let ghost plan = self;
        let ghost planned = self.items@;
        let ghost read = assets@;
        let TransmissionPlan { id, frequency, hiss_preroll, hiss_postroll, items } = self;
        let mut items = items;
        let mut waiting = assets;
        if waiting.len() != items.len() {
            return Err(BuildError::MissingAsset);
        }
        let mut built: Vec<TransmissionItem> = Vec::new();
        while items.len() > 0
            invariant
                plan == self,
                planned == plan.items@,
                read == assets@,
                planned.len() == read.len(),
                built@.len() + items@.len() == planned.len(),
                items@ == planned.skip(built@.len() as int),
                waiting@ == read.skip(built@.len() as int),
                forall|k: int|
                    0 <= k < built@.len() ==> (#[trigger] read[k]).sample_rate > 0,
                forall|k: int|
                    0 <= k < built@.len() ==> #[trigger] built@[k] == rendered_item(
                        planned[k],
                        read[k],
                    ),
            decreases items@.len(),
        {
            let ghost done = built@.len() as int;
            let item = items.remove(0);
            let asset = waiting.remove(0);
            proof {
                assert(item == planned[done]);
                assert(asset == read[done]);
                assert(items@ =~= planned.skip(done + 1));
                assert(waiting@ =~= read.skip(done + 1));
            }
            match TransmissionItem::new(
                item.id,
                item.caption,
                item.file_path,
                item.sleep_after,
                asset,
            ) {
                Ok(rendered) => {
                    built.push(rendered);
                },
                Err(error) => {
                    proof {
                        assert(read[done].sample_rate == 0);
                    }
                    return Err(error);
                },
            }
        }
        Ok(Transmission { id, frequency, items: built, hiss_preroll, hiss_postroll })
    }
}

/// Whether `made` is a result that the assembly may give for
/// `conversation`: that of the backend that the conversation names, and the
/// error of an unknown interface where it names none that is known.
pub open spec fn plan_ok(
    conversation: Conversation,
    table: Seq<u32>,
    hiss_preroll: u64,
    hiss_postroll: u64,
    rendered: Seq<Vec<String>>,
    made: Result<TransmissionPlan, BuildError>,
) -> bool {
    match interface_named(conversation.interface@) {
        Some(TransmissionInterface::LocalFilesystem) => local_plan_ok(
            conversation,
            table,
            hiss_preroll,
            hiss_postroll,
            made,
        ),
        Some(TransmissionInterface::OpenAI) => generated_plan_ok(
            conversation,
            table,
            hiss_preroll,
            hiss_postroll,
            rendered,
            made,
        ),
        None => made matches Err(error) && error == BuildError::UnknownInterface,
    }
}

/// Whether `made` is a result that the assembly may give for
/// `conversation` with hiss drawn within the two spans given.
pub open spec fn in_hiss_plan(
    conversation: Conversation,
    table: Seq<u32>,
    preroll_min: u64,
    preroll_max: u64,
    postroll_min: u64,
    postroll_max: u64,
    rendered: Seq<Vec<String>>,
    made: Result<TransmissionPlan, BuildError>,
) -> bool {
    exists|hiss_preroll: u64, hiss_postroll: u64|
        in_span(preroll_min, preroll_max, hiss_preroll) && in_span(
            postroll_min,
            postroll_max,
            hiss_postroll,
        ) && #[trigger] plan_ok(conversation, table, hiss_preroll, hiss_postroll, rendered, made)
}

/// Plans the transmission of `conversation` through the backend that it
/// names. `rendered` is what the generative backend rendered, as
/// `TransmissionOpenAI::build` takes it; the backend of existing files does
/// not look at it.
pub fn build_transmission(
    conversation: &Conversation,
    networks: &RadioNetworks,
    hiss_preroll: u64,
    hiss_postroll: u64,
    rendered: &Vec<Vec<String>>,
    rng: &mut StdRng,
) -> (made: Result<TransmissionPlan, BuildError>)
    ensures
        plan_ok(
            *conversation,
            networks.scan_frequencies@,
            hiss_preroll,
            hiss_postroll,
            rendered@,
            made,
        ),
{
    match interface_of(&conversation.interface) {
        Some(TransmissionInterface::LocalFilesystem) => TransmissionLocalFileSystem::build(
            conversation,
            networks,
            hiss_preroll,
            hiss_postroll,
            rng,
        ),
        Some(TransmissionInterface::OpenAI) => TransmissionOpenAI::build(
            conversation,
            networks,
            hiss_preroll,
            hiss_postroll,
            rendered,
            rng,
        ),
        None => Err(BuildError::UnknownInterface),
    }
}

} // verus!
