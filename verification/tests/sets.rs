use rand::rngs::StdRng;
use rand::SeedableRng;
use scavnet::sets::{
    is_listed, Conversation, ConversationTransmissionItemSpec, ConversationTransmissionSpec,
    ItemPayload, PlaybackPolicy, ReplayMode, TransmissionSet,
};

fn spoken(id: &str, weight: u32, random_frequency: bool, frequency: u32) -> Conversation {
    Conversation {
        id: id.to_string(),
        description: String::new(),
        weight,
        interface: "LocalFileSystem".to_string(),
        transmissions: ConversationTransmissionSpec {
            random_frequency,
            frequency,
            items: vec![ConversationTransmissionItemSpec {
                id: format!("{}-1", id),
                captions: vec!["...".to_string()],
                delay_after_min: 1,
                delay_after_max: 2,
                data: ItemPayload { file: Some("a.wav".to_string()), prompt: None, model: None },
            }],
        },
        file_path: String::new(),
    }
}

fn set_of(playback: PlaybackPolicy, replay_mode: ReplayMode, weights: &[u32]) -> TransmissionSet {
    let mut conversations = Vec::new();
    for (i, weight) in weights.iter().enumerate() {
        conversations.push(spoken(&format!("c{}", i), *weight, false, 1000));
    }
    TransmissionSet {
        name: "set".to_string(),
        description: String::new(),
        playback,
        replay_mode,
        conversations,
        conversations_state: Vec::new(),
        file_path: "sets/one.yaml".to_string(),
    }
}

#[test]
fn sequence_visits_each_once_then_restarts() {
    let mut rng = StdRng::seed_from_u64(1);
    let mut set = set_of(PlaybackPolicy::Sequence, ReplayMode::Exhaust, &[5, 0, 1, 0]);
    let mut picks = Vec::new();
    for _ in 0..5 {
        picks.push(set.pick_next(&mut rng).unwrap());
    }
    assert_eq!(picks, vec![0, 1, 2, 3, 0]);
    assert_eq!(set.conversations_state, vec!["c0".to_string()]);
}

#[test]
fn sequence_scenario_a_then_b_then_a_again() {
    let mut rng = StdRng::seed_from_u64(2);
    let mut set = TransmissionSet {
        name: "pair".to_string(),
        description: String::new(),
        playback: PlaybackPolicy::Sequence,
        replay_mode: ReplayMode::Exhaust,
        conversations: vec![spoken("A", 1, false, 1000), spoken("B", 1, true, 0)],
        conversations_state: Vec::new(),
        file_path: "pair.yaml".to_string(),
    };
    let first = set.get_conversation(&mut rng).unwrap().id.clone();
    assert_eq!(first, "A");
    let second = set.get_conversation(&mut rng).unwrap();
    assert_eq!(second.id, "B");
    assert!(second.transmissions.random_frequency);
    assert_eq!(set.conversations_state, vec!["A".to_string(), "B".to_string()]);
    let third = set.get_conversation(&mut rng).unwrap();
    assert_eq!(third.id, "A");
    assert_eq!(third.transmissions.frequency, 1000);
    assert_eq!(set.conversations_state, vec!["A".to_string()]);
}

#[test]
fn exhaust_random_never_repeats_within_a_round() {
    for seed in 0..40u64 {
        let mut rng = StdRng::seed_from_u64(seed);
        let mut set = set_of(PlaybackPolicy::Random, ReplayMode::Exhaust, &[1, 7, 0, 3, 2]);
        let mut seen = vec![false; 5];
        for round in 0..5 {
            let picked = set.pick_next(&mut rng).unwrap();
            assert!(!seen[picked], "seed {} round {}", seed, round);
            seen[picked] = true;
            assert_eq!(set.conversations_state.len(), round + 1);
        }
        let again = set.pick_next(&mut rng).unwrap();
        assert_eq!(set.conversations_state, vec![format!("c{}", again)]);
    }
}

#[test]
fn random_pick_never_takes_weight_zero_while_weight_is_left() {
    for seed in 0..60u64 {
        let mut rng = StdRng::seed_from_u64(seed);
        let mut set = set_of(PlaybackPolicy::Random, ReplayMode::Repeat, &[0, 4, 0, 1]);
        let picked = set.pick_next(&mut rng).unwrap();
        assert!(picked == 1 || picked == 3);
    }
}

#[test]
fn random_pick_reaches_more_than_one_conversation() {
    let mut rng = StdRng::seed_from_u64(11);
    let mut set = set_of(PlaybackPolicy::Random, ReplayMode::Repeat, &[1, 1, 1]);
    let mut seen = vec![0u32; 3];
    for _ in 0..300 {
        seen[set.pick_next(&mut rng).unwrap()] += 1;
    }
    assert!(seen.iter().all(|count| *count > 50), "{:?}", seen);
    assert_eq!(set.conversations_state.len(), 300);
}

#[test]
fn random_pick_with_no_weight_takes_the_first_offered() {
    let mut rng = StdRng::seed_from_u64(3);
    let mut set = set_of(PlaybackPolicy::Random, ReplayMode::Exhaust, &[0, 0, 0]);
    assert_eq!(set.pick_next(&mut rng), Some(0));
    assert_eq!(set.pick_next(&mut rng), Some(1));
    assert_eq!(set.pick_next(&mut rng), Some(2));
    assert_eq!(set.pick_next(&mut rng), Some(0));
    assert_eq!(set.conversations_state, vec!["c0".to_string()]);
}

#[test]
fn weighted_random_pick_follows_the_weights() {
    let mut rng = StdRng::seed_from_u64(5);
    let mut set = set_of(PlaybackPolicy::Random, ReplayMode::Repeat, &[1, 3]);
    let mut second = 0u32;
    let draws = 4000;
    for _ in 0..draws {
        if set.pick_next(&mut rng).unwrap() == 1 {
            second += 1;
        }
    }
    let share = second as f64 / draws as f64;
    assert!((share - 0.75).abs() < 0.04, "{}", share);
}

#[test]
fn empty_set_has_nothing_to_pick() {
    let mut rng = StdRng::seed_from_u64(4);
    for policy in [PlaybackPolicy::Sequence, PlaybackPolicy::Random] {
        let mut set = set_of(policy, ReplayMode::Exhaust, &[]);
        set.conversations_state = vec!["old".to_string()];
        assert_eq!(set.pick_next(&mut rng), None);
        assert!(set.get_conversation(&mut rng).is_none());
        assert_eq!(set.conversations_state, vec!["old".to_string()]);
    }
}

#[test]
fn sequence_goes_on_from_a_stored_state() {
    let mut rng = StdRng::seed_from_u64(6);
    let mut set = set_of(PlaybackPolicy::Sequence, ReplayMode::Repeat, &[1, 1, 1]);
    set.conversations_state = vec!["c0".to_string(), "c2".to_string()];
    assert_eq!(set.pick_next(&mut rng), Some(1));
    assert_eq!(
        set.conversations_state,
        vec!["c0".to_string(), "c2".to_string(), "c1".to_string()]
    );
    assert_eq!(set.pick_next(&mut rng), Some(0));
    assert_eq!(set.conversations_state, vec!["c0".to_string()]);
}

#[test]
fn attach_state_keeps_known_ids_in_order() {
    let mut set = set_of(PlaybackPolicy::Sequence, ReplayMode::Exhaust, &[1, 1, 1]);
    set.attach_state(
        "data/sets/one.yaml".to_string(),
        vec!["c2".to_string(), "gone".to_string(), "c0".to_string(), "c2".to_string()],
    );
    assert_eq!(set.file_path, "data/sets/one.yaml");
    assert_eq!(
        set.conversations_state,
        vec!["c2".to_string(), "c0".to_string(), "c2".to_string()]
    );
    assert_eq!(set.sidecar_path(), "data/sets/one.yaml.state");
    assert!(set.has_id(&"c1".to_string()));
    assert!(!set.has_id(&"c3".to_string()));
}

#[test]
fn is_listed_finds_exact_texts_only() {
    let list = vec!["a".to_string(), "bc".to_string()];
    assert!(is_listed(&list, &"bc".to_string()));
    assert!(!is_listed(&list, &"b".to_string()));
    assert!(!is_listed(&Vec::new(), &"a".to_string()));
}

#[test]
fn policies_are_named_as_in_the_documents() {
    assert_eq!(PlaybackPolicy::parse(&"sequence".to_string()), Some(PlaybackPolicy::Sequence));
    assert_eq!(PlaybackPolicy::parse(&"random".to_string()), Some(PlaybackPolicy::Random));
    assert_eq!(PlaybackPolicy::parse(&"Random".to_string()), None);
    assert_eq!(ReplayMode::parse(&"exhaust".to_string()), ReplayMode::Exhaust);
    assert_eq!(ReplayMode::parse(&"repeat".to_string()), ReplayMode::Repeat);
    assert_eq!(ReplayMode::parse(&String::new()), ReplayMode::Repeat);
}

#[test]
fn note_pick_adds_the_id_and_starts_a_new_round_when_all_were_played() {
    let mut set = set_of(PlaybackPolicy::Random, ReplayMode::Exhaust, &[1, 1, 1]);
    assert!(!set.all_were_played());
    assert!(set.note_pick(2));
    assert!(set.note_pick(0));
    assert_eq!(set.conversations_state, vec!["c2".to_string(), "c0".to_string()]);
    assert!(!set.all_were_played());
    assert!(set.note_pick(1));
    assert!(set.all_were_played());
    assert!(set.note_pick(1));
    assert_eq!(set.conversations_state, vec!["c1".to_string()]);
    assert!(!set.note_pick(3));
    assert_eq!(set.conversations_state, vec!["c1".to_string()]);
}

#[test]
fn note_pick_never_empties_the_list_of_a_set_that_repeats() {
    let mut set = set_of(PlaybackPolicy::Random, ReplayMode::Repeat, &[1, 1]);
    assert!(set.note_pick(0));
    assert!(set.note_pick(1));
    assert!(set.all_were_played());
    assert!(set.note_pick(0));
    assert_eq!(
        set.conversations_state,
        vec!["c0".to_string(), "c1".to_string(), "c0".to_string()]
    );
    let mut sequence = set_of(PlaybackPolicy::Sequence, ReplayMode::Repeat, &[1, 1]);
    assert!(sequence.note_pick(1));
    assert!(sequence.note_pick(0));
    assert!(sequence.note_pick(1));
    assert_eq!(sequence.conversations_state, vec!["c1".to_string()]);
    let mut none = set_of(PlaybackPolicy::Sequence, ReplayMode::Exhaust, &[]);
    assert!(none.all_were_played());
    assert!(!none.note_pick(0));
}
