//! Reading the Features of a FeatureCollection one at a time.
//!
//! The reader looks at the stream byte by byte only between Features: up
//! to the `[` that opens the `"features"` array, then at the `,` or `]`
//! after each Feature. Whitespace is skipped everywhere. Each Feature itself
//! is read by a JSON reader from where the scan stopped.
use vstd::prelude::*;

verus! {

/// Where a scan is in the FeatureCollection.
#[derive(Clone, Copy, Debug, PartialEq, Eq)]
pub enum ScanState {
    /// Before the `[` that opens the features.
    BeforeFeatures,
    /// Between two Features, or before the first.
    DuringFeatures,
    /// After the `]` that closes the features.
    AfterFeatures,
}

/// What a scanned byte means.
#[derive(Clone, Copy, Debug, PartialEq, Eq)]
pub enum ScanStep {
    /// Not a decision yet: read another byte.
    Skip,
    /// A Feature follows.
    FeatureFollows,
    /// The features are over.
    End,
    /// A byte that cannot stand between two Features.
    Unexpected(u8),
}

/// The bytes that read as whitespace characters.
pub open spec fn is_space_byte(b: u8) -> bool {
    b == 9 || b == 10 || b == 11 || b == 12 || b == 13 || b == 32 || b == 0x85 || b == 0xA0
}

/// The state after a byte, and what the byte means.
pub open spec fn spec_scan(state: ScanState, b: u8) -> (ScanState, ScanStep) {
    if is_space_byte(b) {
        (state, ScanStep::Skip)
    } else {
        match state {
            ScanState::BeforeFeatures => if b == 0x5B {
                (ScanState::DuringFeatures, ScanStep::FeatureFollows)
            } else {
                (ScanState::BeforeFeatures, ScanStep::Skip)
            },
            ScanState::DuringFeatures => if b == 0x2C {
                (ScanState::DuringFeatures, ScanStep::FeatureFollows)
            } else if b == 0x5D {
                (ScanState::AfterFeatures, ScanStep::End)
            } else {
                (ScanState::DuringFeatures, ScanStep::Unexpected(b))
            },
            ScanState::AfterFeatures => (ScanState::AfterFeatures, ScanStep::End),
        }
    }
}

/// Whether `b` reads as a whitespace character.
pub fn is_space(b: u8) -> (r: bool)
    ensures
        r == is_space_byte(b),
{
    b == 9 || b == 10 || b == 11 || b == 12 || b == 13 || b == 32 || b == 0x85 || b == 0xA0
}

/// Scans one byte; the scan is not asked for more once the features are
/// over.
pub fn scan_byte(state: ScanState, b: u8) -> (r: (ScanState, ScanStep))
    requires
        state != ScanState::AfterFeatures,
    ensures
        r == spec_scan(state, b),
{
    if is_space(b) {
        return (state, ScanStep::Skip);
    }
    match state {
        ScanState::BeforeFeatures => {
            if b == 0x5B {
                (ScanState::DuringFeatures, ScanStep::FeatureFollows)
            } else {
                (ScanState::BeforeFeatures, ScanStep::Skip)
            }
        },
        ScanState::DuringFeatures => {
            if b == 0x2C {
                (ScanState::DuringFeatures, ScanStep::FeatureFollows)
            } else if b == 0x5D {
                (ScanState::AfterFeatures, ScanStep::End)
            } else {
                (ScanState::DuringFeatures, ScanStep::Unexpected(b))
            }
        },
        ScanState::AfterFeatures => (ScanState::AfterFeatures, ScanStep::End),
    }
}

/// The state and step after scanning `bytes` from `state`, stopping at the
/// first byte that decides something.
pub open spec fn scan_until_decided(state: ScanState, bytes: Seq<u8>) -> (ScanState, ScanStep)
    decreases bytes.len(),
{
    if bytes.len() == 0 {
        (state, ScanStep::Skip)
    } else {
        let (next, step) = spec_scan(state, bytes[0]);
        if step == ScanStep::Skip {
            scan_until_decided(next, bytes.subrange(1, bytes.len() as int))
        } else {
            (next, step)
        }
    }
}

/// Whitespace between Features changes nothing: scanning it before a byte
/// decides what the byte alone decides.
pub proof fn lemma_whitespace_is_skipped(state: ScanState, spaces: Seq<u8>, b: u8)
    requires
        forall|i: int| 0 <= i < spaces.len() ==> is_space_byte(#[trigger] spaces[i]),
        !is_space_byte(b),
    ensures
        scan_until_decided(state, spaces.push(b)) == spec_scan(state, b),
    decreases spaces.len(),
{
    if spaces.len() > 0 {
        let rest = spaces.subrange(1, spaces.len() as int);
        assert(spaces.push(b).subrange(1, spaces.len() as int + 1) =~= rest.push(b));
        assert(spaces.push(b)[0] == spaces[0]);
        assert(is_space_byte(spaces[0]));
        assert(spec_scan(state, spaces[0]) == (state, ScanStep::Skip));
        assert forall|i: int| 0 <= i < rest.len() implies is_space_byte(#[trigger] rest[i]) by {
            assert(rest[i] == spaces[i + 1]);
        }
        lemma_whitespace_is_skipped(state, rest, b);
    } else {
        assert(spaces.push(b).subrange(1, 1) =~= Seq::<u8>::empty());
        assert(spaces.push(b)[0] == b);
        assert(scan_until_decided(spec_scan(state, b).0, Seq::<u8>::empty()) == (
            spec_scan(state, b).0,
            ScanStep::Skip,
        ));
    }
}

/// Reads the Features of a FeatureCollection one at a time.
pub struct FeatureIterator<R> {
    reader: R,
    state: ScanState,
}

impl<R> FeatureIterator<R> {
    pub closed spec fn scan_state(&self) -> ScanState {
        self.state
    }

    /// The stream being read.
    pub closed spec fn stream(&self) -> R {
        self.reader
    }

    /// A scan that has not yet met the features.
    pub fn new(reader: R) -> (r: Self)
        ensures
            r.scan_state() == ScanState::BeforeFeatures,
            r.stream() == reader,
    {
        FeatureIterator { reader, state: ScanState::BeforeFeatures }
    }

    /// Whether the features are over.
    pub fn is_done(&self) -> (r: bool)
        ensures
            r == (self.scan_state() == ScanState::AfterFeatures),
    {
        match self.state {
            ScanState::AfterFeatures => true,
            _ => false,
        }
    }

    /// Takes the next byte of the stream into the scan, which must not be
    /// over yet.
    pub fn advance(&mut self, b: u8) -> (r: ScanStep)
        requires
            old(self).scan_state() != ScanState::AfterFeatures,
        ensures
            (final(self).scan_state(), r) == spec_scan(old(self).scan_state(), b),
    {
        let (next, step) = scan_byte(self.state, b);
        self.state = next;
        step
    }

    /// The stream being read.
    pub fn reader_mut(&mut self) -> (r: &mut R)
        ensures
            *r == old(self).stream(),
            final(self).scan_state() == old(self).scan_state(),
            final(self).stream() == *final(r),
    {
        &mut self.reader
    }
}

/// Enumerates the Features of a FeatureCollection.
pub struct FeatureReader<R> {
    reader: R,
}

impl<R> FeatureReader<R> {
    pub closed spec fn inner(&self) -> R {
        self.reader
    }

    /// A reader of the FeatureCollection in `reader`.
    pub fn from_reader(reader: R) -> (r: Self)
        ensures
            r.inner() == reader,
    {
        FeatureReader { reader }
    }

    /// A scan over the Features, from the start of the stream.
    pub fn features(self) -> (r: FeatureIterator<R>)
        ensures
            r.scan_state() == ScanState::BeforeFeatures,
            r.stream() == self.inner(),
    {
        FeatureIterator::new(self.reader)
    }

    /// The stream.
    pub fn into_inner(self) -> (r: R)
        ensures
            r == self.inner(),
    {
        self.reader
    }
}

} // verus!
