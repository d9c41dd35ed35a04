//! Transmissions and their rendered items. All times are in microseconds;
//! signal levels are in thousandths.

use crate::networks::RadioNetworks;
use crate::random::choose_one;
use rand::rngs::StdRng;
use vstd::prelude::*;

verus! {

/// Why a transmission could not be built.
#[derive(Clone, Copy, Debug, PartialEq, Eq, Structural)]
pub enum BuildError {
    /// The conversation names an interface that the library does not know.
    UnknownInterface,
    /// An audio asset is missing or cannot be read as audio.
    MissingAsset,
    /// An item lacks what its backend needs of it.
    MalformedPayload,
    /// A backend did not deliver what was asked of it.
    BackendFailure,
}

impl BuildError {
    /// The operator-facing text of the error.
    pub fn message(&self) -> (text: String)
        ensures
            text@ == self.message_text(),
    {
        match self {
            BuildError::UnknownInterface => "Invalid transmission interface.".to_string(),
            BuildError::MissingAsset => "Audio asset missing or unreadable.".to_string(),
            BuildError::MalformedPayload => "Malformed item payload.".to_string(),
            BuildError::BackendFailure => "Backend request failed.".to_string(),
        }
    }

    /// The text that `message` returns.
    pub open spec fn message_text(&self) -> Seq<char> {
        match self {
            BuildError::UnknownInterface => "Invalid transmission interface."@,
            BuildError::MissingAsset => "Audio asset missing or unreadable."@,
            BuildError::MalformedPayload => "Malformed item payload."@,
            BuildError::BackendFailure => "Backend request failed."@,
        }
    }
}

/// What was read of one audio asset: the number of samples in each channel
/// and the sample rate, the bytes of the file, and its spectral frames.
#[derive(Clone, Debug)]
pub struct AudioAsset {
    pub sample_count: u32,
    pub sample_rate: u32,
    pub file_bytes: Vec<u8>,
    pub fft_data: Vec<Vec<u32>>,
}

/// The playing time of `sample_count` samples at `sample_rate` samples a
/// second, in whole microseconds.
pub open spec fn playing_time(sample_count: u32, sample_rate: u32) -> int {
    sample_count * 1_000_000 / (sample_rate as int)
}

/// One rendered item of a transmission.
#[derive(Clone, Debug)]
pub struct TransmissionItem {
    pub id: String,
    pub duration: u64,
    pub caption: String,
    pub file_path: String,
    pub sleep_after: u64,
    pub file_bytes: Vec<u8>,
    pub fft_data: Vec<Vec<u32>>,
}

impl TransmissionItem {
    /// Makes an item of an asset that was read. The item plays as long as
    /// the asset's samples last at its sample rate. An asset without a
    /// sample rate is no audio.
    pub fn new(
        id: String,
        caption: String,
        file_path: String,
        sleep_after: u64,
        asset: AudioAsset,
    ) -> (made: Result<Self, BuildError>)
        ensures
            asset.sample_rate == 0 ==> made == Err::<Self, BuildError>(BuildError::MissingAsset),
            asset.sample_rate > 0 ==> made == Ok::<Self, BuildError>(
                TransmissionItem {
                    id,
                    duration: playing_time(asset.sample_count, asset.sample_rate) as u64,
                    caption,
                    file_path,
                    sleep_after,
                    file_bytes: asset.file_bytes,
                    fft_data: asset.fft_data,
                },
            ),
            asset.sample_rate > 0 ==> playing_time(asset.sample_count, asset.sample_rate)
                <= u64::MAX,
    {
        if asset.sample_rate == 0 {
            return Err(BuildError::MissingAsset);
        }
        let micros: u64 = asset.sample_count as u64 * 1_000_000;
        let duration: u64 = micros / (asset.sample_rate as u64);
        Ok(
            TransmissionItem {
                id,
                duration,
                caption,
                file_path,
                sleep_after,
                file_bytes: asset.file_bytes,
                fft_data: asset.fft_data,
            },
        )
    }

    /// The number of spectral frames of the item.
    pub fn frame_count(&self) -> (count: usize)
        ensures
            count == self.fft_data@.len(),
    {
        self.fft_data.len()
    }
}

/// One broadcast: the frequency it is sent on, its items in order, and the
/// hiss before and after them.
#[derive(Clone, Debug)]
pub struct Transmission {
    pub id: String,
    pub frequency: u32,
    pub items: Vec<TransmissionItem>,
    pub hiss_preroll: u64,
    pub hiss_postroll: u64,
}

/// The number of spectral frames of the first `upto` items together.
pub open spec fn frames_before(items: Seq<TransmissionItem>, upto: int) -> int
    decreases upto,
{
    if upto <= 0 {
        0
    } else {
        frames_before(items, upto - 1) + items[upto - 1].fft_data@.len()
    }
}

impl Transmission {
    /// A transmission on `frequency` with no id, no item and no hiss.
    pub fn new(frequency: u32) -> (made: Self)
        ensures
            made.id@.len() == 0,
            made.frequency == frequency,
            made.items@.len() == 0,
            made.hiss_preroll == 0,
            made.hiss_postroll == 0,
    {
        Self { id: String::new(), frequency, items: Vec::new(), hiss_preroll: 0, hiss_postroll: 0 }
    }

    /// A transmission as `new` makes it, on a frequency drawn from the scan
    /// frequencies of `networks`; on frequency 0 where there is none to
    /// draw.
    pub fn random_from_networks(networks: &RadioNetworks, rng: &mut StdRng) -> (made: Self)
        ensures
            made.id@.len() == 0,
            made.items@.len() == 0,
            made.hiss_preroll == 0,
            made.hiss_postroll == 0,
            networks.scan_frequencies@.len() == 0 ==> made.frequency == 0,
            networks.scan_frequencies@.len() > 0 ==> networks.scan_frequencies@.contains(
                made.frequency,
            ),
    {
        let frequency: u32 = match choose_one(rng, &networks.scan_frequencies) {
            Some(drawn) => drawn,
            None => 0,
        };
        Self::new(frequency)
    }

    /// Adds an item behind those that the transmission has.
    pub fn add_item(&mut self, item: TransmissionItem)
        ensures
            final(self).items@ == old(self).items@.push(item),
            final(self).id == old(self).id,
            final(self).frequency == old(self).frequency,
            final(self).hiss_preroll == old(self).hiss_preroll,
            final(self).hiss_postroll == old(self).hiss_postroll,
    {
        self.items.push(item);
    }

    /// The number of spectral frames of all items together.
    pub open spec fn total_frames(&self) -> int {
        frames_before(self.items@, self.items@.len() as int)
    }
}

} // verus!
