//! The table of radio networks and the scan frequencies derived from it.

use vstd::prelude::*;

verus! {

/// Why a network table, or one entry of it, is refused.
#[derive(Clone, Copy, Debug, PartialEq, Eq, Structural)]
pub enum NetworkError {
    /// The entry has an empty name.
    NoName,
    /// The entry's start frequency is zero.
    NoStartFreq,
    /// The entry's end frequency is zero.
    NoEndFreq,
    /// The entry's step is zero.
    NoStep,
    /// The entry's start frequency is not below its end frequency.
    StartNotBelowEnd,
    /// The entry's step does not divide the width of its range.
    StepNotFactor,
    /// The table has no entry.
    NoNetworks,
}

impl NetworkError {
    /// The operator-facing text of the error.
    pub fn message(&self) -> (text: String)
        ensures
            text@ == self.message_text(),
    {
        match self {
            NetworkError::NoName => "No name defined.".to_string(),
            NetworkError::NoStartFreq => "No start_freq defined.".to_string(),
            NetworkError::NoEndFreq => "No end_freq defined.".to_string(),
            NetworkError::NoStep => "No step defined.".to_string(),
            NetworkError::StartNotBelowEnd => "Start_freq must be less than end_freq.".to_string(),
            NetworkError::StepNotFactor => "Step must be a factor of the difference between start_freq and end_freq.".to_string(),
            NetworkError::NoNetworks => "No networks defined.".to_string(),
        }
    }

    /// The text that `message` returns.
    pub open spec fn message_text(&self) -> Seq<char> {
        match self {
            NetworkError::NoName => "No name defined."@,
            NetworkError::NoStartFreq => "No start_freq defined."@,
            NetworkError::NoEndFreq => "No end_freq defined."@,
            NetworkError::NoStep => "No step defined."@,
            NetworkError::StartNotBelowEnd => "Start_freq must be less than end_freq."@,
            NetworkError::StepNotFactor => "Step must be a factor of the difference between start_freq and end_freq."@,
            NetworkError::NoNetworks => "No networks defined."@,
        }
    }
}

/// One named range of frequencies, scanned from `start_freq` upwards in
/// strides of `step`, `end_freq` excluded.
#[derive(Debug)]
pub struct RadioNetwork {
    pub name: String,
    pub start_freq: u64,
    pub end_freq: u64,
    pub step: u64,
}

impl Clone for RadioNetwork {
    fn clone(&self) -> (copy: Self)
        ensures
            copy == *self,
    {
        RadioNetwork {
            name: self.name.clone(),
            start_freq: self.start_freq,
            end_freq: self.end_freq,
            step: self.step,
        }
    }
}

impl RadioNetwork {
    /// The verdict on this entry: the first rule it breaks, in the order
    /// name, start, end, step, ordering, divisibility.
    pub open spec fn check(&self) -> Result<(), NetworkError> {
        if self.name@.len() == 0 {
            Err(NetworkError::NoName)
        } else if self.start_freq == 0 {
            Err(NetworkError::NoStartFreq)
        } else if self.end_freq == 0 {
            Err(NetworkError::NoEndFreq)
        } else if self.step == 0 {
            Err(NetworkError::NoStep)
        } else if self.start_freq >= self.end_freq {
            Err(NetworkError::StartNotBelowEnd)
        } else if (self.end_freq - self.start_freq) % (self.step as int) != 0 {
            Err(NetworkError::StepNotFactor)
        } else {
            Ok(())
        }
    }

    /// An entry is valid when it has a name, no field is zero, the range is
    /// not empty and the step divides its width.
    pub open spec fn is_valid(&self) -> bool {
        &&& self.name@.len() > 0
        &&& self.start_freq > 0
        &&& self.end_freq > 0
        &&& self.step > 0
        &&& self.start_freq < self.end_freq
        &&& (self.end_freq - self.start_freq) % (self.step as int) == 0
    }

    /// Whether `freq` lies within the entry's range, both ends included.
    pub open spec fn covers(&self, freq: u64) -> bool {
        self.start_freq <= freq <= self.end_freq
    }

    /// How many frequencies the entry contributes to a scan: those of the
    /// form `start_freq + k * step` that lie below `end_freq`.
    pub open spec fn frequency_count(&self) -> nat {
        if self.start_freq < self.end_freq && self.step > 0 {
            ((self.end_freq - self.start_freq - 1) / (self.step as int) + 1) as nat
        } else {
            0
        }
    }

    /// The frequencies the entry contributes to a scan, ascending. A
    /// frequency is kept in 32 bits; one that needs more loses its high bits.
    pub open spec fn frequencies(&self) -> Seq<u32> {
        Seq::new(self.frequency_count(), |k: int| (self.start_freq + k * self.step) as u32)
    }

    /// Checks the entry against the rules of the table.
    pub fn validate_values(&self) -> (verdict: Result<(), NetworkError>)
        ensures
            verdict == self.check(),
            verdict is Ok <==> self.is_valid(),
    {
        if self.name.as_str().is_empty() {
            return Err(NetworkError::NoName);
        }
        if self.start_freq == 0 {
            return Err(NetworkError::NoStartFreq);
        }
        if self.end_freq == 0 {
            return Err(NetworkError::NoEndFreq);
        }
        if self.step == 0 {
            return Err(NetworkError::NoStep);
        }
        if self.start_freq >= self.end_freq {
            return Err(NetworkError::StartNotBelowEnd);
        }
        if (self.end_freq - self.start_freq) % self.step != 0 {
            return Err(NetworkError::StepNotFactor);
        }
        Ok(())
    }
}

/// An entry whose start frequency is not below its end frequency is
/// refused, where nothing else is wrong with it, as one whose start is not
/// below its end; and whether checked or not, it adds nothing to a scan.
pub proof fn law_empty_range(network: RadioNetwork)
    requires
        network.start_freq >= network.end_freq,
    ensures
        network.check() is Err,
        network.name@.len() > 0 && network.start_freq > 0 && network.end_freq > 0 && network.step
            > 0 ==> network.check() == Err::<(), NetworkError>(NetworkError::StartNotBelowEnd),
        network.frequencies().len() == 0,
{
}

/// Every frequency that an entry adds to a scan lies in its range, the end
/// excluded, at a whole number of steps from the start; and a valid entry
/// adds as many as its width holds steps.
pub proof fn law_frequencies_in_range(network: RadioNetwork, k: int)
    requires
        0 <= k < network.frequency_count(),
    ensures
        network.start_freq <= network.start_freq + k * network.step < network.end_freq,
        network.frequencies()[k] == (network.start_freq + k * network.step) as u32,
        network.is_valid() ==> network.frequency_count() == (network.end_freq
            - network.start_freq) / (network.step as int),
{
    let width = network.end_freq - network.start_freq;
    let step = network.step as int;
    lemma_stride_bound(k, width - 1, step);
    assert(0 <= k * step) by (nonlinear_arith)
        requires
            0 <= k,
            0 < step,
    ;
    if network.is_valid() {
        vstd::arithmetic::div_mod::lemma_fundamental_div_mod(width, step);
        let q = width / step;
        assert(width == step * q);
        assert(q >= 1) by (nonlinear_arith)
            requires
                width == step * q,
                width > 0,
                step > 0,
        ;
        lemma_stride_bound(q - 1, width - 1, step);
        lemma_stride_bound(q, width - 1, step);
        assert((q - 1) * step == step * q - step) by (nonlinear_arith);
        assert(q * step == step * q) by (nonlinear_arith);
    }
}

/// The frequencies of a whole table: those of each entry, entry after entry
/// in table order.
pub open spec fn scan_table(networks: Seq<RadioNetwork>) -> Seq<u32>
    decreases networks.len(),
{
    if networks.len() == 0 {
        Seq::empty()
    } else {
        scan_table(networks.drop_last()) + networks.last().frequencies()
    }
}

/// The position of the first entry of `networks` that is not valid.
pub open spec fn first_invalid(networks: Seq<RadioNetwork>) -> int {
    choose|i: int|
        0 <= i < networks.len() && !(#[trigger] networks[i]).is_valid() && forall|j: int|
            0 <= j < i ==> (#[trigger] networks[j]).is_valid()
}

/// Where entry `i` is not valid and all before it are, `i` is the first
/// entry that is not valid, and its verdict is that of the table.
pub proof fn lemma_first_invalid(networks: Seq<RadioNetwork>, i: int)
    requires
        0 <= i < networks.len(),
        !networks[i].is_valid(),
        forall|j: int| 0 <= j < i ==> (#[trigger] networks[j]).is_valid(),
    ensures
        first_invalid(networks) == i,
        table_verdict(networks) == networks[i].check(),
{
    let found = first_invalid(networks);
    if found < i {
        assert(networks[found].is_valid());
    } else if i < found {
        assert(networks[i].is_valid());
    }
}

/// The verdict on a whole table: an empty table is refused as such, and
/// otherwise the first entry that is not valid decides.
pub open spec fn table_verdict(networks: Seq<RadioNetwork>) -> Result<(), NetworkError> {
    if networks.len() == 0 {
        Err(NetworkError::NoNetworks)
    } else if forall|i: int| 0 <= i < networks.len() ==> (#[trigger] networks[i]).is_valid() {
        Ok(())
    } else {
        networks[first_invalid(networks)].check()
    }
}

/// Whether the range of some entry holds `freq`.
pub open spec fn covered(networks: Seq<RadioNetwork>, freq: u64) -> bool {
    exists|i: int| 0 <= i < networks.len() && (#[trigger] networks[i]).covers(freq)
}

/// Whether `i` is the first entry whose range holds `freq`.
pub open spec fn is_first_cover(networks: Seq<RadioNetwork>, freq: u64, i: int) -> bool {
    &&& 0 <= i < networks.len()
    &&& networks[i].covers(freq)
    &&& forall|j: int| 0 <= j < i ==> !(#[trigger] networks[j]).covers(freq)
}

/// The position of the first entry whose range holds `freq`.
pub open spec fn first_cover(networks: Seq<RadioNetwork>, freq: u64) -> int {
    choose|i: int| is_first_cover(networks, freq, i)
}

/// There is one first entry at most whose range holds a frequency.
pub proof fn lemma_first_cover(networks: Seq<RadioNetwork>, freq: u64, i: int)
    requires
        is_first_cover(networks, freq, i),
    ensures
        covered(networks, freq),
        first_cover(networks, freq) == i,
{
    let found = first_cover(networks, freq);
    assert(is_first_cover(networks, freq, found));
    if found < i {
        assert(!networks[found].covers(freq));
    } else if i < found {
        assert(!networks[i].covers(freq));
    }
}

/// The table of networks, with the scan frequencies last derived from it.
#[derive(Debug)]
pub struct RadioNetworks {
    pub networks: Vec<RadioNetwork>,
    pub scan_frequencies: Vec<u32>,
}

impl Clone for RadioNetworks {
    fn clone(&self) -> (copy: Self)
        ensures
            copy.networks@ == self.networks@,
            copy.scan_frequencies@ == self.scan_frequencies@,
    {
        let mut networks: Vec<RadioNetwork> = Vec::new();
        let mut i: usize = 0;
        while i < self.networks.len()
            invariant
                i <= self.networks.len(),
                networks@ == self.networks@.take(i as int),
            decreases self.networks.len() - i,
        {
            networks.push(self.networks[i].clone());
            i = i + 1;
        }
        RadioNetworks { networks, scan_frequencies: self.scan_frequencies.clone() }
    }
}

proof fn lemma_stride_bound(k: int, width: int, step: int)
    requires
        step > 0,
        width >= 0,
        k >= 0,
    ensures
        k <= width / step <==> k * step <= width,
{
    vstd::arithmetic::div_mod::lemma_fundamental_div_mod(width, step);
    vstd::arithmetic::div_mod::lemma_mod_bound(width, step);
    let q = width / step;
    if k <= q {
        assert(k * step <= q * step) by (nonlinear_arith)
            requires
                k <= q,
                step > 0,
        ;
    } else {
        assert(k * step >= (q + 1) * step) by (nonlinear_arith)
            requires
                k >= q + 1,
                step > 0,
        ;
        assert((q + 1) * step == q * step + step) by (nonlinear_arith);
    }
    assert(step * q == q * step) by (nonlinear_arith);
}

impl RadioNetworks {
    /// Whether the scan frequencies are those of the entries.
    pub open spec fn is_built(&self) -> bool {
        self.scan_frequencies@ == scan_table(self.networks@)
    }

    /// A table with no entry and nothing to scan.
    pub fn empty() -> (table: Self)
        ensures
            table.networks@.len() == 0,
            table.scan_frequencies@.len() == 0,
            table.is_built(),
    {
        Self { networks: Vec::new(), scan_frequencies: Vec::new() }
    }

    /// Makes a table of `networks` if every rule holds of it, with its scan
    /// frequencies derived; refuses it with the first broken rule otherwise.
    pub fn from_networks(networks: Vec<RadioNetwork>) -> (made: Result<Self, NetworkError>)
        ensures
            match made {
                Ok(table) => table.networks == networks && table.is_built() && table_verdict(
                    networks@,
                ) is Ok,
                Err(error) => table_verdict(networks@) == Err::<(), NetworkError>(error),
            },
    {
        let mut table = Self { networks, scan_frequencies: Vec::new() };
        match table.validate_values() {
            Ok(()) => {
                table.build_scan_frequencies();
                Ok(table)
            },
            Err(error) => Err(error),
        }
    }

    /// The name of the first entry, in table order, whose range holds `freq`
    /// (both ends of a range count), if there is one.
    pub fn network_name_from_freq(&self, freq: u64) -> (name: Option<String>)
        ensures
            name is Some <==> covered(self.networks@, freq),
            name matches Some(text) ==> text@ == self.networks@[first_cover(
                self.networks@,
                freq,
            )].name@,
    {
        let mut i: usize = 0;
        while i < self.networks.len()
            invariant
                i <= self.networks.len(),
                forall|j: int| 0 <= j < i ==> !(#[trigger] self.networks@[j]).covers(freq),
            decreases self.networks.len() - i,
        {
            if freq >= self.networks[i].start_freq && freq <= self.networks[i].end_freq {
                proof {
                    lemma_first_cover(self.networks@, freq, i as int);
                }
                return Some(self.networks[i].name.clone());
            }
            i = i + 1;
        }
        None
    }

    /// Derives the scan frequencies from the entries anew: each entry's
    /// frequencies ascending, the entries in table order. An entry with an
    /// empty range or a zero step contributes none.
    pub fn build_scan_frequencies(&mut self)
        ensures
            final(self).networks == old(self).networks,
            final(self).scan_frequencies@ == scan_table(old(self).networks@),
            final(self).is_built(),
    {
        let mut table: Vec<u32> = Vec::new();
        let mut i: usize = 0;
        while i < self.networks.len()
            invariant
                i <= self.networks.len(),
                self.networks == old(self).networks,
                table@ == scan_table(self.networks@.take(i as int)),
            decreases self.networks.len() - i,
        {
            let start: u64 = self.networks[i].start_freq;
            let end: u64 = self.networks[i].end_freq;
            let step: u64 = self.networks[i].step;
            let ghost base = table@;
            let ghost wanted = self.networks[i as int].frequencies();
            let ghost count = self.networks[i as int].frequency_count() as int;
            if step > 0 && start < end {
                let mut freq: u64 = start;
                let ghost mut k: int = 0;
                proof {
                    lemma_stride_bound(0, end - start - 1, step as int);
                }
                loop
                    invariant_except_break
                        0 <= k < count,
                        freq == start + k * step,
                        freq < end,
                        table@ == base + wanted.take(k),
                    invariant
                        step > 0,
                        start < end,
                        wanted.len() == count,
                        count == (end - start - 1) / (step as int) + 1,
                        forall|j: int| 0 <= j < count ==> wanted[j] == (start + j * step) as u32,
                    ensures
                        table@ == base + wanted,
                    decreases end - freq,
                {
                    table.push(freq as u32);
                    proof {
                        assert(wanted.take(k + 1) == wanted.take(k).push(wanted[k]));
                        k = k + 1;
                        lemma_stride_bound(k, end - start - 1, step as int);
                        assert(k * step == (k - 1) * step + step) by (nonlinear_arith);
                    }
                    let next: Option<u64> = freq.checked_add(step);
                    match next {
                        Some(following) => {
                            if following < end {
                                freq = following;
                            } else {
                                proof {
                                    assert(wanted.take(k) == wanted);
                                }
                                break ;
                            }
                        },
                        None => {
                            proof {
                                assert(wanted.take(k) == wanted);
                            }
                            break ;
                        },
                    }
                }
            } else {
                assert(wanted.len() == 0);
                assert(base + wanted == base);
            }
            proof {
                let upto = self.networks@.take(i + 1);
                assert(upto.drop_last() == self.networks@.take(i as int));
                assert(upto.last() == self.networks[i as int]);
            }
            i = i + 1;
        }
        proof {
            assert(self.networks@.take(i as int) == self.networks@);
        }
        self.scan_frequencies = table;
    }

    /// The scan frequencies, as last derived.
    pub fn scan_frequencies(&self) -> (table: Vec<u32>)
        ensures
            table@ == self.scan_frequencies@,
    {
        self.scan_frequencies.clone()
    }

    /// Checks the table: it must have an entry, and every entry must be
    /// valid. The first entry that is not decides the error.
    pub fn validate_values(&self) -> (verdict: Result<(), NetworkError>)
        ensures
            verdict == table_verdict(self.networks@),
    {
        if self.networks.len() == 0 {
            return Err(NetworkError::NoNetworks);
        }
        self.validate_network_values()
    }

    /// Checks every entry in table order and stops at the first that is not
    /// valid.
    pub fn validate_network_values(&self) -> (verdict: Result<(), NetworkError>)
        ensures
            match verdict {
                Ok(_) => forall|i: int|
                    0 <= i < self.networks.len() ==> (#[trigger] self.networks[i]).is_valid(),
                Err(error) => self.networks[first_invalid(self.networks@)].check() == Err::<
                    (),
                    NetworkError,
                >(error) && exists|i: int|
                    0 <= i < self.networks.len() && !(#[trigger] self.networks[i]).is_valid(),
            },
            self.networks.len() > 0 ==> verdict == table_verdict(self.networks@),
    {
        let mut i: usize = 0;
        while i < self.networks.len()
            invariant
                i <= self.networks.len(),
                forall|j: int| 0 <= j < i ==> (#[trigger] self.networks[j]).is_valid(),
            decreases self.networks.len() - i,
        {
            match self.networks[i].validate_values() {
                Ok(()) => {},
                Err(error) => {
                    proof {
                        lemma_first_invalid(self.networks@, i as int);
                    }
                    return Err(error);
                },
            }
            i = i + 1;
        }
        Ok(())
    }
}

} // verus!
