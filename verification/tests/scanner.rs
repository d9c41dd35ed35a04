use rand::rngs::StdRng;
use rand::SeedableRng;
use scavnet::networks::{RadioNetwork, RadioNetworks};
use scavnet::scanner::Scanner;

fn table(entries: &[(&str, u64, u64, u64)]) -> RadioNetworks {
    let mut networks = Vec::new();
    for (name, start_freq, end_freq, step) in entries {
        networks.push(RadioNetwork {
            name: name.to_string(),
            start_freq: *start_freq,
            end_freq: *end_freq,
            step: *step,
        });
    }
    let mut table = RadioNetworks { networks, scan_frequencies: Vec::new() };
    table.build_scan_frequencies();
    table
}

#[test]
fn scanner_at_rest_gives_no_frequency() {
    let mut scanner = Scanner::new(table(&[("a", 10, 20, 5)]), &mut StdRng::seed_from_u64(12));
    assert!(!scanner.is_scanning());
    assert_eq!(scanner.status(), "");
    assert_eq!(scanner.next_freq(), None);
    assert_eq!(scanner.cur_freq_display(), "0.00001 MHz");
}

#[test]
fn scanner_cycles_in_table_order_and_wraps() {
    let mut scanner = Scanner::new(table(&[("b", 100, 103, 1), ("a", 10, 20, 5)]), &mut StdRng::seed_from_u64(12));
    scanner.start();
    assert!(scanner.is_scanning());
    assert_eq!(scanner.status(), "Scanning...");
    let mut seen = Vec::new();
    for _ in 0..11 {
        seen.push(scanner.next_freq().unwrap());
    }
    assert_eq!(seen, vec![100, 101, 102, 10, 15, 100, 101, 102, 10, 15, 100]);
}

#[test]
fn scanner_keeps_its_place_over_a_pause_for_playback() {
    let mut scanner = Scanner::new(table(&[("a", 10, 30, 5)]), &mut StdRng::seed_from_u64(12));
    scanner.start();
    assert_eq!(scanner.next_freq(), Some(10));
    assert_eq!(scanner.next_freq(), Some(15));
    scanner.pause_for_playback();
    assert!(!scanner.is_scanning());
    assert_eq!(scanner.status(), "Recieving transmission...");
    assert_eq!(scanner.next_freq(), None);
    assert_eq!(scanner.cur_network_name(), "a");
    scanner.resume_after_playback();
    assert_eq!(scanner.status(), "Scanning...");
    assert_eq!(scanner.next_freq(), Some(20));
    scanner.pause();
    assert_eq!(scanner.next_freq(), None);
    assert_eq!(scanner.status(), "Scanning...");
}

#[test]
fn scanner_over_nothing_moves_to_zero() {
    let mut scanner = Scanner::empty();
    assert_eq!(scanner.next_freq(), None);
    scanner.start();
    assert_eq!(scanner.next_freq(), Some(0));
    assert_eq!(scanner.next_freq(), Some(0));
    assert_eq!(scanner.cur_network_name(), "UNKNOWN");
    scanner.simulate_noise();
    scanner.simulate_hiss_noise();
    assert!(scanner.get_fft_data().is_empty());
    assert!(scanner._get_networks().networks.is_empty());
}

#[test]
fn frequency_is_shown_in_megahertz_to_five_places() {
    let mut scanner = Scanner::new(table(&[("s", 823_000_000, 823_000_010, 10)]), &mut StdRng::seed_from_u64(12));
    scanner.start();
    assert_eq!(scanner.next_freq(), Some(823_000_000));
    assert_eq!(scanner.cur_freq_display(), "823.00000 MHz");
    let mut scanner = Scanner::new(table(&[("p", 25_000_014, 25_000_020, 1)]), &mut StdRng::seed_from_u64(12));
    scanner.start();
    scanner.next_freq();
    assert_eq!(scanner.cur_freq_display(), "25.00001 MHz");
    scanner.next_freq();
    assert_eq!(scanner.cur_freq_display(), "25.00002 MHz");
}

#[test]
fn noise_rows_have_the_profile_shape_and_hiss_is_louder() {
    let mut scanner = Scanner::new(table(&[("a", 10, 20, 5)]), &mut StdRng::seed_from_u64(12));
    assert!(scanner.get_fft_data().is_empty());
    scanner.simulate_noise();
    let noise = scanner.get_fft_data();
    assert_eq!(noise.len(), 257);
    assert!(noise.iter().all(|level| level % 20 == 0 && *level <= 255 * 20));
    assert!(noise.iter().any(|level| *level != noise[0]));
    scanner.simulate_hiss_noise();
    let hiss = scanner.get_fft_data();
    assert_eq!(hiss.len(), 257);
    assert!(hiss.iter().all(|level| level % 50 == 0 && *level <= 255 * 50));
}

#[test]
fn noise_profile_comes_round_after_all_rows() {
    let mut scanner = Scanner::new(table(&[("a", 10, 20, 5)]), &mut StdRng::seed_from_u64(12));
    scanner.simulate_noise();
    let first = scanner.get_fft_data();
    scanner.simulate_noise();
    let second = scanner.get_fft_data();
    for _ in 0..254 {
        scanner.simulate_noise();
    }
    scanner.simulate_noise();
    assert_eq!(scanner.get_fft_data(), first);
    scanner.simulate_hiss_noise();
    let scaled: Vec<u32> = second.iter().map(|level| level / 20 * 50).collect();
    assert_eq!(scanner.get_fft_data(), scaled);
}

#[test]
fn shown_levels_are_those_last_given() {
    let mut scanner = Scanner::empty();
    scanner.update_fft_data(vec![1, 2, 3]);
    assert_eq!(scanner.get_fft_data(), vec![1, 2, 3]);
    scanner.update_fft_data(Vec::new());
    assert!(scanner.get_fft_data().is_empty());
}

#[test]
fn network_name_of_the_current_frequency() {
    let mut scanner = Scanner::new(table(&[("one", 10, 20, 5), ("two", 30, 40, 5)]), &mut StdRng::seed_from_u64(12));
    assert_eq!(scanner.cur_network_name(), "one");
    scanner.start();
    for _ in 0..3 {
        scanner.next_freq();
    }
    assert_eq!(scanner.cur_network_name(), "two");
    let clone = scanner.clone();
    assert_eq!(clone.cur_network_name(), "two");
}
