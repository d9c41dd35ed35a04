use rand::rngs::StdRng;
use rand::SeedableRng;
use scavnet::interfaces::{
    build_transmission, get_delay, init_transmission, interface_of, TransmissionInterface,
    TransmissionLocalFileSystem, TransmissionOpenAI,
};
use scavnet::networks::{RadioNetwork, RadioNetworks};
use scavnet::sets::{
    Conversation, ConversationTransmissionItemSpec, ConversationTransmissionSpec, ItemPayload,
};
use scavnet::transmission::{AudioAsset, BuildError, Transmission, TransmissionItem};

fn networks() -> RadioNetworks {
    RadioNetworks::from_networks(vec![
        RadioNetwork { name: "a".to_string(), start_freq: 100, end_freq: 130, step: 10 },
        RadioNetwork { name: "b".to_string(), start_freq: 500, end_freq: 520, step: 10 },
    ])
    .unwrap()
}

fn stored(id: &str, file: &str, min: u64, max: u64) -> ConversationTransmissionItemSpec {
    ConversationTransmissionItemSpec {
        id: id.to_string(),
        captions: vec![format!("{} says", id), "unused".to_string()],
        delay_after_min: min,
        delay_after_max: max,
        data: ItemPayload { file: Some(file.to_string()), prompt: None, model: None },
    }
}

fn prompted(id: &str, prompt: &str, min: u64, max: u64) -> ConversationTransmissionItemSpec {
    ConversationTransmissionItemSpec {
        id: id.to_string(),
        captions: vec![format!("{} says", id)],
        delay_after_min: min,
        delay_after_max: max,
        data: ItemPayload {
            file: None,
            prompt: Some(prompt.to_string()),
            model: Some("gpt-4o".to_string()),
        },
    }
}

fn conversation(
    interface: &str,
    random_frequency: bool,
    items: Vec<ConversationTransmissionItemSpec>,
) -> Conversation {
    Conversation {
        id: "conv".to_string(),
        description: String::new(),
        weight: 1,
        interface: interface.to_string(),
        transmissions: ConversationTransmissionSpec { random_frequency, frequency: 1000, items },
        file_path: String::new(),
    }
}

fn asset(sample_count: u32, sample_rate: u32, frames: usize) -> AudioAsset {
    AudioAsset {
        sample_count,
        sample_rate,
        file_bytes: vec![1, 2, 3],
        fft_data: vec![vec![7, 8]; frames],
    }
}

#[test]
fn interface_names_are_exact() {
    assert_eq!(
        interface_of(&"LocalFileSystem".to_string()),
        Some(TransmissionInterface::LocalFilesystem)
    );
    assert_eq!(interface_of(&"OpenAI".to_string()), Some(TransmissionInterface::OpenAI));
    assert_eq!(interface_of(&"openai".to_string()), None);
    assert_eq!(interface_of(&String::new()), None);
}

#[test]
fn explicit_frequency_is_kept() {
    let mut rng = StdRng::seed_from_u64(1);
    let made = init_transmission(&conversation("LocalFileSystem", false, vec![]), &networks(), &mut rng)
        .unwrap();
    assert_eq!(made.frequency, 1000);
    assert!(made.items.is_empty());
    assert_eq!(made.id, "");
}

#[test]
fn random_frequency_is_a_scan_frequency() {
    let table = networks();
    let mut seen = Vec::new();
    for seed in 0..60u64 {
        let mut rng = StdRng::seed_from_u64(seed);
        let made =
            init_transmission(&conversation("LocalFileSystem", true, vec![]), &table, &mut rng).unwrap();
        assert!(table.scan_frequencies.contains(&made.frequency));
        if !seen.contains(&made.frequency) {
            seen.push(made.frequency);
        }
    }
    assert!(seen.len() > 1);
    let mut rng = StdRng::seed_from_u64(1);
    let made = Transmission::random_from_networks(&RadioNetworks::empty(), &mut rng);
    assert_eq!(made.frequency, 0);
}

#[test]
fn delay_is_drawn_in_whole_seconds_within_the_declared_range() {
    let mut seen = Vec::new();
    for seed in 0..80u64 {
        let mut rng = StdRng::seed_from_u64(seed);
        let delay = get_delay(&stored("i", "f.wav", 2, 4), &mut rng).unwrap();
        assert!(delay == 2_000_000 || delay == 3_000_000 || delay == 4_000_000, "{}", delay);
        if !seen.contains(&delay) {
            seen.push(delay);
        }
    }
    assert_eq!(seen.len(), 3);
    let mut rng = StdRng::seed_from_u64(1);
    assert_eq!(get_delay(&stored("i", "f.wav", 5, 5), &mut rng), Ok(5_000_000));
    assert_eq!(get_delay(&stored("i", "f.wav", 6, 5), &mut rng), Err(BuildError::MalformedPayload));
    assert_eq!(get_delay(&stored("i", "f.wav", u64::MAX, u64::MAX), &mut rng), Ok(u64::MAX));
}

#[test]
fn local_plan_has_one_item_per_spec_and_no_sleep_after_the_last() {
    let mut rng = StdRng::seed_from_u64(5);
    let conv = conversation(
        "LocalFileSystem",
        false,
        vec![stored("one", "one.wav", 1, 3), stored("two", "sub/two.wav", 9, 9), stored("end", "end.wav", 7, 2)],
    );
    let plan = TransmissionLocalFileSystem::build(&conv, &networks(), 700_000, 1_500_000, &mut rng)
        .unwrap();
    assert_eq!(plan.id, "conv");
    assert_eq!(plan.frequency, 1000);
    assert_eq!(plan.hiss_preroll, 700_000);
    assert_eq!(plan.hiss_postroll, 1_500_000);
    assert_eq!(plan.items.len(), 3);
    assert_eq!(plan.items[0].id, "one");
    assert_eq!(plan.items[0].caption, "one says");
    assert_eq!(plan.items[0].file_path, "data/transmissions/one.wav");
    assert!(plan.items[0].sleep_after >= 1_000_000 && plan.items[0].sleep_after <= 3_000_000);
    assert_eq!(plan.items[0].sleep_after % 1_000_000, 0);
    assert_eq!(plan.items[1].file_path, "data/transmissions/sub/two.wav");
    assert_eq!(plan.items[1].sleep_after, 9_000_000);
    assert_eq!(plan.items[2].id, "end");
    assert_eq!(plan.items[2].sleep_after, 0);
}

#[test]
fn local_plan_refuses_malformed_items() {
    let mut rng = StdRng::seed_from_u64(5);
    let table = networks();
    let mut no_file = stored("x", "x.wav", 1, 2);
    no_file.data.file = None;
    let mut no_caption = stored("x", "x.wav", 1, 2);
    no_caption.captions.clear();
    for bad in [no_file, no_caption, stored("x", "x.wav", 3, 2)] {
        let conv = conversation("LocalFileSystem", false, vec![bad, stored("end", "e.wav", 0, 0)]);
        let made = TransmissionLocalFileSystem::build(&conv, &table, 0, 0, &mut rng);
        assert!(matches!(made, Err(BuildError::MalformedPayload)));
    }
    let empty = conversation("LocalFileSystem", false, vec![]);
    let plan = TransmissionLocalFileSystem::build(&empty, &table, 1, 2, &mut rng).unwrap();
    assert!(plan.items.is_empty());
}

#[test]
fn generative_requests_carry_prompt_and_model() {
    let conv = conversation("OpenAI", false, vec![prompted("a", "say hi", 1, 2), prompted("b", "say bye", 1, 2)]);
    let requests = TransmissionOpenAI::requests(&conv).unwrap();
    assert_eq!(requests.len(), 2);
    assert_eq!(requests[0].prompt, "say hi");
    assert_eq!(requests[1].prompt, "say bye");
    assert_eq!(requests[1].model, "gpt-4o");
    let broken = conversation("OpenAI", false, vec![prompted("a", "say hi", 1, 2), stored("b", "b.wav", 1, 2)]);
    assert!(matches!(TransmissionOpenAI::requests(&broken), Err(BuildError::MalformedPayload)));
}

#[test]
fn generative_plan_has_one_item_per_line() {
    let mut rng = StdRng::seed_from_u64(8);
    let conv = conversation(
        "OpenAI",
        true,
        vec![prompted("a", "first prompt", 2, 2), prompted("b", "second prompt", 1, 1), prompted("c", "third prompt", 9, 1)],
    );
    let rendered = vec![
        vec!["/tmp/a1.wav".to_string(), "/tmp/a2.wav".to_string()],
        Vec::new(),
        vec!["/tmp/c1.wav".to_string()],
    ];
    let table = networks();
    let plan = TransmissionOpenAI::build(&conv, &table, 10, 20, &rendered, &mut rng).unwrap();
    assert_eq!(plan.id, "");
    assert!(table.scan_frequencies.contains(&plan.frequency));
    assert_eq!(plan.hiss_preroll, 10);
    assert_eq!(plan.hiss_postroll, 20);
    assert_eq!(plan.items.len(), 3);
    assert_eq!(plan.items[0].id, "a");
    assert_eq!(plan.items[0].caption, "a says");
    assert_eq!(plan.items[0].file_path, "/tmp/a1.wav");
    assert_eq!(plan.items[0].sleep_after, 2_000_000);
    assert_eq!(plan.items[1].id, "a");
    assert_eq!(plan.items[1].file_path, "/tmp/a2.wav");
    assert_eq!(plan.items[1].sleep_after, 2_000_000);
    assert_eq!(plan.items[2].id, "c");
    assert_eq!(plan.items[2].file_path, "/tmp/c1.wav");
    assert_eq!(plan.items[2].sleep_after, 0);
}

#[test]
fn generative_plan_fails_where_the_backend_fell_short_or_items_are_malformed() {
    let mut rng = StdRng::seed_from_u64(8);
    let table = networks();
    let conv = conversation("OpenAI", false, vec![prompted("a", "first prompt", 2, 2)]);
    let made = TransmissionOpenAI::build(&conv, &table, 0, 0, &Vec::new(), &mut rng);
    assert!(matches!(made, Err(BuildError::BackendFailure)));
    let broken = conversation("OpenAI", false, vec![stored("a", "a.wav", 1, 2)]);
    let made = TransmissionOpenAI::build(&broken, &table, 0, 0, &vec![Vec::new()], &mut rng);
    assert!(matches!(made, Err(BuildError::MalformedPayload)));
    let unordered = conversation("OpenAI", false, vec![prompted("a", "prompt", 3, 2), prompted("b", "prompt", 0, 0)]);
    let spoken = vec![vec!["/tmp/a.wav".to_string()], vec!["/tmp/b.wav".to_string()]];
    let made = TransmissionOpenAI::build(&unordered, &table, 0, 0, &spoken, &mut rng);
    assert!(matches!(made, Err(BuildError::MalformedPayload)));
}

#[test]
fn build_transmission_goes_by_the_interface_name() {
    let mut rng = StdRng::seed_from_u64(8);
    let table = networks();
    let none: Vec<Vec<String>> = Vec::new();
    let local = conversation("LocalFileSystem", false, vec![stored("one", "one.wav", 1, 3)]);
    let plan = build_transmission(&local, &table, 1, 2, &none, &mut rng).unwrap();
    assert_eq!(plan.id, "conv");
    assert_eq!(plan.items[0].file_path, "data/transmissions/one.wav");
    let generated = conversation("OpenAI", false, vec![prompted("a", "first prompt", 2, 2)]);
    let rendered = vec![vec!["/tmp/x.wav".to_string()]];
    let plan = build_transmission(&generated, &table, 1, 2, &rendered, &mut rng).unwrap();
    assert_eq!(plan.items[0].file_path, "/tmp/x.wav");
    let unknown = conversation("Carrier Pigeon", false, vec![stored("one", "one.wav", 1, 3)]);
    let made = build_transmission(&unknown, &table, 1, 2, &none, &mut rng);
    assert!(matches!(made, Err(BuildError::UnknownInterface)));
    assert_eq!(BuildError::UnknownInterface.message(), "Invalid transmission interface.");
}

#[test]
fn item_duration_is_samples_over_rate_in_microseconds() {
    let item = TransmissionItem::new(
        "i".to_string(),
        "c".to_string(),
        "p.wav".to_string(),
        5,
        asset(66_150, 44_100, 3),
    )
    .unwrap();
    assert_eq!(item.duration, 1_500_000);
    assert_eq!(item.sleep_after, 5);
    assert_eq!(item.file_bytes, vec![1, 2, 3]);
    assert_eq!(item.frame_count(), 3);
    let third = TransmissionItem::new(
        "i".to_string(),
        "c".to_string(),
        "p.wav".to_string(),
        0,
        asset(1, 3, 0),
    )
    .unwrap();
    assert_eq!(third.duration, 333_333);
    let long = TransmissionItem::new(
        "i".to_string(),
        "c".to_string(),
        "p.wav".to_string(),
        0,
        asset(u32::MAX, 1, 0),
    )
    .unwrap();
    assert_eq!(long.duration, u32::MAX as u64 * 1_000_000);
    let silent = TransmissionItem::new(
        "i".to_string(),
        "c".to_string(),
        "p.wav".to_string(),
        0,
        asset(10, 0, 0),
    );
    assert!(matches!(silent, Err(BuildError::MissingAsset)));
}

#[test]
fn assemble_renders_each_planned_item_or_nothing() {
    let mut rng = StdRng::seed_from_u64(5);
    let conv = conversation(
        "LocalFileSystem",
        false,
        vec![stored("one", "one.wav", 4, 4), stored("two", "two.wav", 0, 0)],
    );
    let table = networks();
    let plan = TransmissionLocalFileSystem::build(&conv, &table, 7, 8, &mut rng).unwrap();
    let made = plan.clone().assemble(vec![asset(44_100, 44_100, 2), asset(22_050, 44_100, 1)]).unwrap();
    assert_eq!(made.id, "conv");
    assert_eq!(made.frequency, 1000);
    assert_eq!(made.hiss_preroll, 7);
    assert_eq!(made.hiss_postroll, 8);
    assert_eq!(made.items.len(), 2);
    assert_eq!(made.items[0].id, "one");
    assert_eq!(made.items[0].duration, 1_000_000);
    assert_eq!(made.items[0].sleep_after, 4_000_000);
    assert_eq!(made.items[0].fft_data.len(), 2);
    assert_eq!(made.items[1].caption, "two says");
    assert_eq!(made.items[1].duration, 500_000);
    assert_eq!(made.items[1].file_path, "data/transmissions/two.wav");
    assert!(matches!(
        plan.clone().assemble(vec![asset(44_100, 44_100, 2)]),
        Err(BuildError::MissingAsset)
    ));
    assert!(matches!(
        plan.assemble(vec![asset(44_100, 44_100, 2), asset(5, 0, 1)]),
        Err(BuildError::MissingAsset)
    ));
}

#[test]
fn add_item_appends() {
    let mut transmission = Transmission::new(12);
    let item = TransmissionItem::new(
        "i".to_string(),
        "c".to_string(),
        "p.wav".to_string(),
        0,
        asset(10, 10, 1),
    )
    .unwrap();
    transmission.add_item(item.clone());
    transmission.add_item(item);
    assert_eq!(transmission.items.len(), 2);
    assert_eq!(transmission.frequency, 12);
    assert_eq!(transmission.hiss_preroll, 0);
}

#[test]
fn only_the_final_generated_item_has_no_silence() {
    let mut rng = StdRng::seed_from_u64(21);
    let table = networks();
    let conv = conversation("OpenAI", false, vec![prompted("only", "prompt", 1, 4)]);
    let rendered = vec![vec![
        "/tmp/1.wav".to_string(),
        "/tmp/2.wav".to_string(),
        "/tmp/3.wav".to_string(),
    ]];
    let plan = TransmissionOpenAI::build(&conv, &table, 0, 0, &rendered, &mut rng).unwrap();
    assert_eq!(plan.items.len(), 3);
    for item in &plan.items[..2] {
        assert!(item.sleep_after >= 1_000_000 && item.sleep_after <= 4_000_000);
        assert_eq!(item.sleep_after % 1_000_000, 0);
    }
    assert_eq!(plan.items[2].file_path, "/tmp/3.wav");
    assert_eq!(plan.items[2].sleep_after, 0);
}

#[test]
fn the_final_generated_item_may_belong_to_an_earlier_item() {
    let mut rng = StdRng::seed_from_u64(22);
    let table = networks();
    let conv = conversation(
        "OpenAI",
        false,
        vec![prompted("a", "prompt", 2, 2), prompted("b", "prompt", 3, 3), prompted("c", "prompt", 9, 1)],
    );
    let rendered = vec![
        vec!["/tmp/a.wav".to_string()],
        vec!["/tmp/b1.wav".to_string(), "/tmp/b2.wav".to_string()],
        Vec::new(),
    ];
    let plan = TransmissionOpenAI::build(&conv, &table, 0, 0, &rendered, &mut rng).unwrap();
    assert_eq!(plan.items.len(), 3);
    assert_eq!(plan.items[0].sleep_after, 2_000_000);
    assert_eq!(plan.items[1].sleep_after, 3_000_000);
    assert_eq!(plan.items[2].id, "b");
    assert_eq!(plan.items[2].sleep_after, 0);
}

#[test]
fn delays_out_of_order_matter_only_where_a_silence_is_drawn() {
    let mut rng = StdRng::seed_from_u64(23);
    let table = networks();
    let conv = conversation(
        "OpenAI",
        false,
        vec![prompted("quiet", "prompt", 5, 1), prompted("end", "prompt", 7, 2)],
    );
    let one_line_at_the_end = vec![Vec::new(), vec!["/tmp/end.wav".to_string()]];
    let plan = TransmissionOpenAI::build(&conv, &table, 0, 0, &one_line_at_the_end, &mut rng).unwrap();
    assert_eq!(plan.items.len(), 1);
    assert_eq!(plan.items[0].sleep_after, 0);
    let two_lines_at_the_end =
        vec![Vec::new(), vec!["/tmp/1.wav".to_string(), "/tmp/2.wav".to_string()]];
    let made = TransmissionOpenAI::build(&conv, &table, 0, 0, &two_lines_at_the_end, &mut rng);
    assert!(matches!(made, Err(BuildError::MalformedPayload)));
    let nothing = vec![Vec::new(), Vec::new()];
    let plan = TransmissionOpenAI::build(&conv, &table, 0, 0, &nothing, &mut rng).unwrap();
    assert!(plan.items.is_empty());
}
