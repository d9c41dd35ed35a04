use scavnet::networks::{NetworkError, RadioNetwork, RadioNetworks};

fn network(name: &str, start_freq: u64, end_freq: u64, step: u64) -> RadioNetwork {
    RadioNetwork { name: name.to_string(), start_freq, end_freq, step }
}

fn entries() -> Vec<RadioNetwork> {
    vec![
        network("pubnet", 25_000_000, 512_000_000, 10),
        network("scavnet", 800_000_000, 866_000_000, 10),
    ]
}

fn get_testing_data() -> RadioNetworks {
    RadioNetworks::from_networks(entries()).unwrap()
}

fn get_raw_testing_data() -> RadioNetworks {
    RadioNetworks { networks: entries(), scan_frequencies: Vec::new() }
}

#[test]
fn test_networks_from_yaml() {
    let networks = get_testing_data();
    assert_eq!(networks.networks.len(), 2);
}

#[test]
fn test_get_network_name_from_freq() {
    let networks = get_testing_data();
    assert_eq!(networks.network_name_from_freq(25000001).unwrap(), "pubnet");
    assert_eq!(networks.network_name_from_freq(823000000).unwrap(), "scavnet");
    assert_eq!(networks.network_name_from_freq(10000), None);
}

#[test]
fn test_build_scan_frequencies() {
    let networks = get_testing_data();
    assert_eq!(networks.scan_frequencies.len(), 55300000);
}

#[test]
fn test_no_name() {
    let mut networks = get_raw_testing_data();
    networks.networks[0].name = String::new();
    let result = networks.validate_values();

    assert_eq!(result.is_err(), true);
    assert_eq!(result.unwrap_err().message(), "No name defined.");
}

#[test]
fn test_no_start_freq() {
    let mut networks = get_raw_testing_data();
    networks.networks[0].start_freq = 0;
    let result = networks.validate_values();

    assert_eq!(result.is_err(), true);
    assert_eq!(result.unwrap_err().message(), "No start_freq defined.");
}

#[test]
fn test_no_end_freq() {
    let mut networks = get_raw_testing_data();
    networks.networks[0].end_freq = 0;
    let result = networks.validate_values();

    assert_eq!(result.is_err(), true);
    assert_eq!(result.unwrap_err().message(), "No end_freq defined.");
}

#[test]
fn test_no_step() {
    let mut networks = get_raw_testing_data();
    networks.networks[0].step = 0;
    let result = networks.validate_values();

    assert_eq!(result.is_err(), true);
    assert_eq!(result.unwrap_err().message(), "No step defined.");
}

#[test]
fn test_invalid_network_freqs() {
    let mut networks = get_raw_testing_data();
    networks.networks[0].start_freq = 512000001;
    let result = networks.validate_values();

    assert_eq!(result.is_err(), true);
    assert_eq!(result.unwrap_err().message(), "Start_freq must be less than end_freq.");
}

#[test]
fn test_invalid_network_step() {
    let mut networks = get_raw_testing_data();
    networks.networks[0].end_freq = 511999999;
    let result = networks.validate_values();

    assert_eq!(result.is_err(), true);
    assert_eq!(
        result.unwrap_err().message(),
        "Step must be a factor of the difference between start_freq and end_freq."
    );
}

#[test]
fn scan_table_of_one_network_is_start_and_strides() {
    let mut table = RadioNetworks {
        networks: vec![network("a", 0, 10, 5)],
        scan_frequencies: vec![99],
    };
    table.build_scan_frequencies();
    assert_eq!(table.scan_frequencies(), vec![0, 5]);
}

#[test]
fn scan_table_concatenates_networks_in_table_order() {
    let mut table = RadioNetworks {
        networks: vec![network("high", 100, 106, 2), network("low", 1, 10, 3)],
        scan_frequencies: Vec::new(),
    };
    table.build_scan_frequencies();
    assert_eq!(table.scan_frequencies(), vec![100, 102, 104, 1, 4, 7]);
}

#[test]
fn scan_table_skips_zero_step_and_empty_ranges() {
    let mut table = RadioNetworks {
        networks: vec![network("still", 5, 9, 0), network("back", 9, 5, 1), network("ok", 7, 9, 1)],
        scan_frequencies: Vec::new(),
    };
    table.build_scan_frequencies();
    assert_eq!(table.scan_frequencies(), vec![7, 8]);
}

#[test]
fn scan_table_reaches_the_top_of_the_range_without_overflow() {
    let mut table = RadioNetworks {
        networks: vec![network("top", u64::MAX - 5, u64::MAX, 4)],
        scan_frequencies: Vec::new(),
    };
    table.build_scan_frequencies();
    assert_eq!(
        table.scan_frequencies(),
        vec![(u64::MAX - 5) as u32, (u64::MAX - 1) as u32]
    );
}

#[test]
fn equal_start_and_end_is_rejected_and_adds_nothing() {
    let same = network("same", 500, 500, 5);
    assert_eq!(same.validate_values(), Err(NetworkError::StartNotBelowEnd));
    assert_eq!(
        NetworkError::StartNotBelowEnd.message(),
        "Start_freq must be less than end_freq."
    );
    let made = RadioNetworks::from_networks(vec![network("same", 500, 500, 5)]);
    assert!(matches!(made, Err(NetworkError::StartNotBelowEnd)));
    let mut raw = RadioNetworks {
        networks: vec![network("same", 500, 500, 5)],
        scan_frequencies: Vec::new(),
    };
    raw.build_scan_frequencies();
    assert!(raw.scan_frequencies().is_empty());
}

#[test]
fn each_rule_has_its_error_in_order() {
    assert_eq!(network("", 0, 0, 0).validate_values(), Err(NetworkError::NoName));
    assert_eq!(network("n", 0, 0, 0).validate_values(), Err(NetworkError::NoStartFreq));
    assert_eq!(network("n", 1, 0, 0).validate_values(), Err(NetworkError::NoEndFreq));
    assert_eq!(network("n", 1, 9, 0).validate_values(), Err(NetworkError::NoStep));
    assert_eq!(network("n", 9, 1, 2).validate_values(), Err(NetworkError::StartNotBelowEnd));
    assert_eq!(network("n", 1, 10, 2).validate_values(), Err(NetworkError::StepNotFactor));
    assert_eq!(network("n", 1, 9, 2).validate_values(), Ok(()));
}

#[test]
fn empty_table_is_rejected() {
    let table = RadioNetworks::empty();
    assert!(table.networks.is_empty());
    assert!(table.scan_frequencies.is_empty());
    assert_eq!(table.validate_values(), Err(NetworkError::NoNetworks));
    assert_eq!(NetworkError::NoNetworks.message(), "No networks defined.");
    assert_eq!(table.validate_network_values(), Ok(()));
    assert!(matches!(RadioNetworks::from_networks(Vec::new()), Err(NetworkError::NoNetworks)));
}

#[test]
fn first_invalid_network_decides_the_error() {
    let table = RadioNetworks {
        networks: vec![network("ok", 1, 9, 2), network("n", 1, 10, 2), network("", 1, 9, 2)],
        scan_frequencies: Vec::new(),
    };
    assert_eq!(table.validate_values(), Err(NetworkError::StepNotFactor));
    assert_eq!(table.validate_network_values(), Err(NetworkError::StepNotFactor));
}

#[test]
fn network_name_takes_first_covering_range_with_both_ends() {
    let table = RadioNetworks {
        networks: vec![network("one", 10, 20, 5), network("two", 20, 30, 5)],
        scan_frequencies: Vec::new(),
    };
    assert_eq!(table.network_name_from_freq(10).unwrap(), "one");
    assert_eq!(table.network_name_from_freq(20).unwrap(), "one");
    assert_eq!(table.network_name_from_freq(21).unwrap(), "two");
    assert_eq!(table.network_name_from_freq(30).unwrap(), "two");
    assert_eq!(table.network_name_from_freq(31), None);
    assert_eq!(table.network_name_from_freq(9), None);
}

#[test]
fn from_networks_builds_the_scan_table() {
    let table = RadioNetworks::from_networks(vec![network("a", 10, 20, 5)]).unwrap();
    assert_eq!(table.scan_frequencies(), vec![10, 15]);
    let copy = table.clone();
    assert_eq!(copy.scan_frequencies, vec![10, 15]);
    assert_eq!(copy.networks[0].name, "a");
}
