//! The frequency scanner: the cursor that cycles through the scan
//! frequencies, its pause for playback, and the signal levels it shows.

use crate::networks::{covered, first_cover, RadioNetwork, RadioNetworks};
use crate::random::draw_between;
use rand::rngs::StdRng;
use vstd::prelude::*;
use vstd::string::StringExecFns;

verus! {

/// The number of rows of the noise profile.
pub const NOISE_ROWS: usize = 256;

/// The number of levels in each row of the noise profile.
pub const NOISE_COLUMNS: usize = 257;

/// The text of one decimal digit.
pub open spec fn digit_text(digit: int) -> Seq<char> {
    if digit == 0 {
        "0"@
    } else if digit == 1 {
        "1"@
    } else if digit == 2 {
        "2"@
    } else if digit == 3 {
        "3"@
    } else if digit == 4 {
        "4"@
    } else if digit == 5 {
        "5"@
    } else if digit == 6 {
        "6"@
    } else if digit == 7 {
        "7"@
    } else if digit == 8 {
        "8"@
    } else {
        "9"@
    }
}

/// The decimal text of a number, without leading zeros.
pub open spec fn decimal_text(number: nat) -> Seq<char>
    decreases number,
{
    if number < 10 {
        digit_text(number as int)
    } else {
        decimal_text(number / 10) + digit_text((number % 10) as int)
    }
}

/// The last `places` decimal digits of a number, with leading zeros.
pub open spec fn padded_text(number: nat, places: nat) -> Seq<char>
    decreases places,
{
    if places == 0 {
        Seq::empty()
    } else {
        padded_text(number / 10, (places - 1) as nat) + digit_text((number % 10) as int)
    }
}

/// A frequency in megahertz to five places, the last of them rounded:
/// the whole megahertz, a point, five digits, and the unit.
pub open spec fn mhz_text(frequency: u32) -> Seq<char> {
    let tens = ((frequency + 5) / 10) as nat;
    decimal_text(tens / 100_000) + "."@ + padded_text(tens % 100_000, 5) + " MHz"@
}

fn push_digit(text: &mut String, digit: u64)
    requires
        digit < 10,
    ensures
        final(text)@ == old(text)@ + digit_text(digit as int),
{
    if digit == 0 {
        text.append("0");
    } else if digit == 1 {
        text.append("1");
    } else if digit == 2 {
        text.append("2");
    } else if digit == 3 {
        text.append("3");
    } else if digit == 4 {
        text.append("4");
    } else if digit == 5 {
        text.append("5");
    } else if digit == 6 {
        text.append("6");
    } else if digit == 7 {
        text.append("7");
    } else if digit == 8 {
        text.append("8");
    } else {
        text.append("9");
    }
}

fn push_decimal(text: &mut String, number: u64)
    ensures
        final(text)@ == old(text)@ + decimal_text(number as nat),
    decreases number,
{
    if number >= 10 {
        push_decimal(text, number / 10);
    }
    push_digit(text, number % 10);
    proof {
        if number >= 10 {
            assert(text@ =~= old(text)@ + (decimal_text((number / 10) as nat) + digit_text(
                (number % 10) as int,
            )));
        }
    }
}

fn push_padded(text: &mut String, number: u64, places: u32)
    ensures
        final(text)@ == old(text)@ + padded_text(number as nat, places as nat),
    decreases places,
{
    if places > 0 {
        push_padded(text, number / 10, places - 1);
        push_digit(text, number % 10);
        proof {
            assert(text@ =~= old(text)@ + (padded_text((number / 10) as nat, (places - 1) as nat)
                + digit_text((number % 10) as int)));
        }
    } else {
        proof {
            assert(text@ =~= old(text)@ + padded_text(number as nat, 0));
        }
    }
}

/// What a scanner is, to its callers.
pub struct ScannerView {
    /// The networks that the scanner scans.
    pub networks: Seq<RadioNetwork>,
    /// The scan frequencies, in scan order.
    pub table: Seq<u32>,
    /// The position in `table` of the frequency that comes next.
    pub position: int,
    /// The frequency the scanner is on.
    pub frequency: u32,
    /// Whether the scanner is scanning.
    pub scanning: bool,
    /// The status line.
    pub status: Seq<char>,
    /// The signal levels on show, in thousandths.
    pub levels: Seq<u32>,
    /// The noise profile: rows of raw levels.
    pub noise: Seq<Seq<u8>>,
    /// The row of the noise profile that is shown next.
    pub noise_row: int,
}

/// The frequency scanner.
#[derive(Debug)]
pub struct Scanner {
    networks: RadioNetworks,
    cur_frequency: u32,
    next_index: usize,
    scanning: bool,
    fftdata: Vec<u32>,
    status: String,
    noise_profile: Vec<Vec<u8>>,
    noise_index: usize,
}

impl View for Scanner {
    type V = ScannerView;

    closed spec fn view(&self) -> ScannerView {
        ScannerView {
            networks: self.networks.networks@,
            table: self.networks.scan_frequencies@,
            position: self.next_index as int,
            frequency: self.cur_frequency,
            scanning: self.scanning,
            status: self.status@,
            levels: self.fftdata@,
            noise: self.noise_profile@.map_values(|row: Vec<u8>| row@),
            noise_row: self.noise_index as int,
        }
    }
}

/// A row of raw noise as the levels shown while scanning: each raw level
/// counts for a fiftieth, so for twenty thousandths.
pub open spec fn noise_levels(row: Seq<u8>) -> Seq<u32> {
    row.map_values(|raw: u8| (raw * 20) as u32)
}

/// A row of raw noise as the levels shown during hiss: two and a half times
/// those shown while scanning.
pub open spec fn hiss_levels(row: Seq<u8>) -> Seq<u32> {
    row.map_values(|raw: u8| (raw * 50) as u32)
}

/// The position that follows `position` in a cycle of `len` positions.
pub open spec fn next_in_cycle(position: int, len: int) -> int {
    if position + 1 < len {
        position + 1
    } else {
        0
    }
}

/// The position that is reached from `position` in `steps` steps through a
/// cycle of `len` positions.
pub open spec fn position_after(position: int, steps: nat, len: int) -> int
    decreases steps,
{
    if steps == 0 {
        position
    } else {
        next_in_cycle(position_after(position, (steps - 1) as nat, len), len)
    }
}

/// The scan goes round: `steps` steps on from a position of the table, the
/// cursor stands that many positions further, counted round the table; so
/// after as many steps as the table has frequencies it stands where it
/// stood.
pub proof fn law_scan_goes_round(position: int, steps: nat, len: int)
    requires
        0 <= position < len,
    ensures
        position_after(position, steps, len) == (position + steps) % len,
        position_after(position, len as nat, len) == position,
    decreases steps,
{
    lemma_position_after(position, steps, len);
    lemma_position_after(position, len as nat, len);
    vstd::arithmetic::div_mod::lemma_mod_add_multiples_vanish(position, len);
    vstd::arithmetic::div_mod::lemma_small_mod(position as nat, len as nat);
}

proof fn lemma_position_after(position: int, steps: nat, len: int)
    requires
        0 <= position < len,
    ensures
        position_after(position, steps, len) == (position + steps) % len,
    decreases steps,
{
    if steps == 0 {
        vstd::arithmetic::div_mod::lemma_small_mod(position as nat, len as nat);
    } else {
        lemma_position_after(position, (steps - 1) as nat, len);
        let before = position + steps - 1;
        vstd::arithmetic::div_mod::lemma_fundamental_div_mod(before, len);
        vstd::arithmetic::div_mod::lemma_mod_bound(before, len);
        let q = before / len;
        let r = before % len;
        if r + 1 < len {
            assert(before + 1 == q * len + (r + 1)) by (nonlinear_arith)
                requires
                    before == len * q + r,
            ;
            vstd::arithmetic::div_mod::lemma_fundamental_div_mod_converse(before + 1, len, q, r + 1);
        } else {
            assert(before + 1 == (q + 1) * len + 0) by (nonlinear_arith)
                requires
                    before == len * q + r,
                    r + 1 == len,
            ;
            vstd::arithmetic::div_mod::lemma_fundamental_div_mod_converse(before + 1, len, q + 1, 0);
        }
    }
}

impl ScannerView {
    /// What holds of every scanner: the cursor and the noise row stand
    /// within their tables, or at 0 where the table is empty.
    pub open spec fn inv(&self) -> bool {
        &&& 0 <= self.position
        &&& self.position < self.table.len() || self.position == 0
        &&& 0 <= self.noise_row
        &&& self.noise_row < self.noise.len() || self.noise_row == 0
    }
}

impl Clone for Scanner {
    fn clone(&self) -> (copy: Self)
        ensures
            copy@ == self@,
    {
        proof {
            use_type_invariant(self);
        }
        let mut noise_profile: Vec<Vec<u8>> = Vec::new();
        let mut row: usize = 0;
        while row < self.noise_profile.len()
            invariant
                row <= self.noise_profile.len(),
                noise_profile@.len() == row,
                forall|r: int| 0 <= r < row ==> (#[trigger] noise_profile@[r])@
                    == self.noise_profile@[r]@,
            decreases self.noise_profile.len() - row,
        {
            noise_profile.push(self.noise_profile[row].clone());
            row = row + 1;
        }
        let networks = self.networks.clone();
        let copy = Scanner {
            networks,
            cur_frequency: self.cur_frequency,
            next_index: self.next_index,
            scanning: self.scanning,
            fftdata: self.fftdata.clone(),
            status: self.status.clone(),
            noise_profile,
            noise_index: self.noise_index,
        };
        proof {
            assert(copy@.noise =~= self@.noise);
        }
        copy
    }
}

impl Scanner {
    #[verifier::type_invariant]
    spec fn well_formed(&self) -> bool {
        &&& self.next_index < self.networks.scan_frequencies@.len() || self.next_index == 0
        &&& self.noise_index < self.noise_profile@.len() || self.noise_index == 0
    }

    /// A scanner over no network, at rest on frequency 0, with no noise.
    pub fn empty() -> (scanner: Self)
        ensures
            scanner@.inv(),
            scanner@.networks.len() == 0,
            scanner@.table.len() == 0,
            scanner@.position == 0,
            scanner@.frequency == 0,
            !scanner@.scanning,
            scanner@.status.len() == 0,
            scanner@.levels.len() == 0,
            scanner@.noise.len() == 0,
            scanner@.noise_row == 0,
    {
        Self {
            networks: RadioNetworks::empty(),
            cur_frequency: 0,
            next_index: 0,
            scanning: false,
            fftdata: Vec::new(),
            status: String::new(),
            noise_profile: Vec::new(),
            noise_index: 0,
        }
    }

    /// A scanner over the scan frequencies of `networks`, at rest on the
    /// first of them (on 0 where there is none), with a fresh noise profile
    /// of 256 rows of 257 levels drawn on `rng`.
    pub fn new(networks: RadioNetworks, rng: &mut StdRng) -> (scanner: Self)
        ensures
            scanner@.inv(),
            scanner@.networks == networks.networks@,
            scanner@.table == networks.scan_frequencies@,
            scanner@.position == 0,
            scanner@.frequency == if networks.scan_frequencies@.len() > 0 {
                networks.scan_frequencies@[0]
            } else {
                0
            },
            !scanner@.scanning,
            scanner@.status.len() == 0,
            scanner@.levels.len() == 0,
            scanner@.noise.len() == NOISE_ROWS,
            forall|row: int| 0 <= row < NOISE_ROWS ==> (#[trigger] scanner@.noise[row]).len()
                == NOISE_COLUMNS,
            scanner@.noise_row == 0,
    {
        let cur_frequency: u32 = if networks.scan_frequencies.len() > 0 {
            networks.scan_frequencies[0]
        } else {
            0
        };
        let mut noise_profile: Vec<Vec<u8>> = Vec::new();
        let mut row: usize = 0;
        while row < NOISE_ROWS
            invariant
                row <= NOISE_ROWS,
                noise_profile.len() == row,
                forall|r: int| 0 <= r < row ==> (#[trigger] noise_profile@[r]).len() == NOISE_COLUMNS,
            decreases NOISE_ROWS - row,
        {
            let mut levels: Vec<u8> = Vec::new();
            let mut column: usize = 0;
            while column < NOISE_COLUMNS
                invariant
                    column <= NOISE_COLUMNS,
                    levels.len() == column,
                decreases NOISE_COLUMNS - column,
            {
                let raw: u128 = draw_between(rng, 0, 255);
                levels.push(raw as u8);
                column = column + 1;
            }
            noise_profile.push(levels);
            row = row + 1;
        }
        Self {
            networks,
            cur_frequency,
            next_index: 0,
            scanning: false,
            fftdata: Vec::new(),
            status: String::new(),
            noise_profile,
            noise_index: 0,
        }
    }

    /// The networks that the scanner scans.
    pub fn _get_networks(&self) -> (networks: RadioNetworks)
        ensures
            networks.networks@ == self@.networks,
            networks.scan_frequencies@ == self@.table,
    {
        self.networks.clone()
    }

    /// Starts scanning, or goes on with it.
    pub fn start(&mut self)
        ensures
            final(self)@ == (ScannerView { scanning: true, status: "Scanning..."@, ..old(self)@ }),
    {
        proof {
            use_type_invariant(&*self);
        }
        self.scanning = true;
        self.status = "Scanning...".to_string();
    }

    /// Stops scanning; the cursor stays where it is.
    pub fn pause(&mut self)
        ensures
            final(self)@ == (ScannerView { scanning: false, ..old(self)@ }),
    {
        proof {
            use_type_invariant(&*self);
        }
        self.scanning = false;
    }

    /// Stops scanning while a transmission is played.
    pub fn pause_for_playback(&mut self)
        ensures
            final(self)@ == (ScannerView {
                scanning: false,
                status: "Recieving transmission..."@,
                ..old(self)@
            }),
    {
        self.pause();
        proof {
            use_type_invariant(&*self);
        }
        self.status = "Recieving transmission...".to_string();
    }

    /// Goes on scanning after a transmission was played.
    pub fn resume_after_playback(&mut self)
        ensures
            final(self)@ == (ScannerView { scanning: true, status: "Scanning..."@, ..old(self)@ }),
    {
        self.start();
    }

    /// Moves to the next scan frequency and returns it, while scanning; at
    /// rest it returns nothing and stays. The frequencies come in table
    /// order, and after the last the first comes again. A scanner over no
    /// frequency moves to 0.
    pub fn next_freq(&mut self) -> (frequency: Option<u32>)
        ensures
            final(self)@.inv(),
            !old(self)@.scanning ==> frequency is None && final(self)@ == old(self)@,
            old(self)@.scanning && old(self)@.table.len() == 0 ==> frequency == Some(0u32)
                && final(self)@ == (ScannerView { frequency: 0, ..old(self)@ }),
            old(self)@.scanning && old(self)@.table.len() > 0 ==> frequency == Some(
                old(self)@.table[old(self)@.position],
            ) && final(self)@ == (ScannerView {
                frequency: old(self)@.table[old(self)@.position],
                position: next_in_cycle(old(self)@.position, old(self)@.table.len() as int),
                ..old(self)@
            }),
    {
        proof {
            use_type_invariant(&*self);
        }
        if !self.scanning {
            return None;
        }
        let len: usize = self.networks.scan_frequencies.len();
        if len == 0 {
            self.cur_frequency = 0;
            return Some(0);
        }
        self.cur_frequency = self.networks.scan_frequencies[self.next_index];
        if self.next_index + 1 < len {
            self.next_index = self.next_index + 1;
        } else {
            self.next_index = 0;
        }
        Some(self.cur_frequency)
    }

    /// The frequency the scanner is on, in megahertz to five places, the
    /// last of them rounded.
    pub fn cur_freq_display(&self) -> (text: String)
        ensures
            text@ == mhz_text(self@.frequency),
    {
        let tens: u64 = (self.cur_frequency as u64 + 5) / 10;
        let mut text = String::new();
        push_decimal(&mut text, tens / 100_000);
        text.append(".");
        push_padded(&mut text, tens % 100_000, 5);
        text.append(" MHz");
        proof {
            let whole = decimal_text((tens / 100_000) as nat);
            let fraction = padded_text((tens % 100_000) as nat, 5);
            assert(text@ =~= whole + "."@ + fraction + " MHz"@);
        }
        text
    }

    /// Shows `levels` as the signal.
    pub fn update_fft_data(&mut self, levels: Vec<u32>)
        ensures
            final(self)@ == (ScannerView { levels: levels@, ..old(self)@ }),
    {
        proof {
            use_type_invariant(&*self);
        }
        self.fftdata = levels;
    }

    /// The signal levels on show.
    pub fn get_fft_data(&self) -> (levels: Vec<u32>)
        ensures
            levels@ == self@.levels,
    {
        self.fftdata.clone()
    }

    /// Whether the scanner is scanning.
    pub fn is_scanning(&self) -> (scanning: bool)
        ensures
            scanning == self@.scanning,
    {
        self.scanning
    }

    /// Shows the next row of the noise profile as the signal, and moves to
    /// the row after it, from the last row to the first. Without a noise
    /// profile nothing changes.
    pub fn simulate_noise(&mut self)
        ensures
            final(self)@.inv(),
            old(self)@.noise.len() == 0 ==> final(self)@ == old(self)@,
            old(self)@.noise.len() > 0 ==> final(self)@ == (ScannerView {
                levels: noise_levels(old(self)@.noise[old(self)@.noise_row]),
                noise_row: next_in_cycle(old(self)@.noise_row, old(self)@.noise.len() as int),
                ..old(self)@
            }),
    {
        proof {
            use_type_invariant(&*self);
        }
        if self.noise_profile.len() == 0 {
            return ;
        }
        let mut levels: Vec<u32> = Vec::new();
        let mut column: usize = 0;
        let ghost row = self.noise_profile@[self.noise_index as int]@;
        while column < self.noise_profile[self.noise_index].len()
            invariant
                self.noise_index < self.noise_profile.len(),
                row == self.noise_profile@[self.noise_index as int]@,
                column <= row.len(),
                levels@ == noise_levels(row.take(column as int)),
            decreases row.len() - column,
        {
            let raw: u8 = self.noise_profile[self.noise_index][column];
            levels.push(raw as u32 * 20);
            proof {
                assert(noise_levels(row.take(column + 1)) =~= noise_levels(
                    row.take(column as int),
                ).push((raw * 20) as u32));
            }
            column = column + 1;
        }
        proof {
            assert(row.take(column as int) == row);
        }
        self.fftdata = levels;
        if self.noise_index + 1 < self.noise_profile.len() {
            self.noise_index = self.noise_index + 1;
        } else {
            self.noise_index = 0;
        }
    }

    /// Shows the next row of the noise profile, raised to the level of
    /// hiss, as the signal, and moves to the row after it, from the last
    /// row to the first. Without a noise profile nothing changes.
    pub fn simulate_hiss_noise(&mut self)
        ensures
            final(self)@.inv(),
            old(self)@.noise.len() == 0 ==> final(self)@ == old(self)@,
            old(self)@.noise.len() > 0 ==> final(self)@ == (ScannerView {
                levels: hiss_levels(old(self)@.noise[old(self)@.noise_row]),
                noise_row: next_in_cycle(old(self)@.noise_row, old(self)@.noise.len() as int),
                ..old(self)@
            }),
    {
        proof {
            use_type_invariant(&*self);
        }
        if self.noise_profile.len() == 0 {
            return ;
        }
        let mut levels: Vec<u32> = Vec::new();
        let mut column: usize = 0;
        let ghost row = self.noise_profile@[self.noise_index as int]@;
        while column < self.noise_profile[self.noise_index].len()
            invariant
                self.noise_index < self.noise_profile.len(),
                row == self.noise_profile@[self.noise_index as int]@,
                column <= row.len(),
                levels@ == hiss_levels(row.take(column as int)),
            decreases row.len() - column,
        {
            let raw: u8 = self.noise_profile[self.noise_index][column];
            levels.push(raw as u32 * 50);
            proof {
                assert(hiss_levels(row.take(column + 1)) =~= hiss_levels(
                    row.take(column as int),
                ).push((raw * 50) as u32));
            }
            column = column + 1;
        }
        proof {
            assert(row.take(column as int) == row);
        }
        self.fftdata = levels;
        if self.noise_index + 1 < self.noise_profile.len() {
            self.noise_index = self.noise_index + 1;
        } else {
            self.noise_index = 0;
        }
    }

    /// The status line.
    pub fn status(&self) -> (text: String)
        ensures
            text@ == self@.status,
    {
        self.status.clone()
    }

    /// The name of the network that the scanner is on: that of the first
    /// network whose range holds the frequency, or `UNKNOWN`.
    pub fn cur_network_name(&self) -> (name: String)
        ensures
            name@ == if covered(self@.networks, self@.frequency as u64) {
                self@.networks[first_cover(self@.networks, self@.frequency as u64)].name@
            } else {
                "UNKNOWN"@
            },
    {
        match self.networks.network_name_from_freq(self.cur_frequency as u64) {
            Some(name) => name,
            None => "UNKNOWN".to_string(),
        }
    }
}

} // verus!
