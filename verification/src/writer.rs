//! Writing the Features of a FeatureCollection one at a time.
//!
//! The writer decides the bytes of a FeatureCollection: the opening before
//! the first Feature, a comma between Features, and the closing after the
//! last one. It hands them out chunk by chunk for its caller to write to
//! the underlying writer; what it has handed out is always the beginning
//! of one FeatureCollection document.
use crate::errors::{Error, WriterFault};
use crate::reader::{is_space_byte, scan_until_decided, spec_scan, ScanState, ScanStep};
use vstd::prelude::*;
use vstd::string::StringSliceAdditionalSpecFns;

verus! {

/// Where a writer is in the FeatureCollection it writes.
#[derive(Clone, Copy, Debug, PartialEq, Eq)]
pub enum WriterState {
    /// Nothing written yet.
    New,
    /// The opening and at least one Feature written.
    Started,
    /// The closing written; nothing more can be written.
    Finished,
}

/// What opens the FeatureCollection.
pub open spec fn prefix_bytes() -> Seq<u8> {
    "{ \"type\": \"FeatureCollection\", \"features\": [".spec_bytes()
}

/// What closes the FeatureCollection.
pub open spec fn suffix_bytes() -> Seq<u8> {
    "]}".spec_bytes()
}

/// What goes between two Features.
pub open spec fn separator_bytes() -> Seq<u8> {
    ",".spec_bytes()
}

/// The Features' texts with a separator between each two.
pub open spec fn joined(features: Seq<Seq<u8>>) -> Seq<u8>
    decreases features.len(),
{
    if features.len() == 0 {
        Seq::empty()
    } else if features.len() == 1 {
        features[0]
    } else {
        joined(features.drop_last()) + separator_bytes() + features.last()
    }
}

/// What a writer in `state` that has written `features` has put out.
pub open spec fn collection_text(state: WriterState, features: Seq<Seq<u8>>) -> Seq<u8> {
    match state {
        WriterState::New => Seq::empty(),
        WriterState::Started => prefix_bytes() + joined(features),
        WriterState::Finished => prefix_bytes() + joined(features) + suffix_bytes(),
    }
}

/// `out` with `bytes` after it.
fn append_bytes(out: &mut Vec<u8>, bytes: &[u8])
    ensures
        final(out)@ == old(out)@ + bytes@,
{
    let ghost start = out@;
    let mut i: usize = 0;
    while i < bytes.len()
        invariant
            i <= bytes@.len(),
            out@ == start + bytes@.take(i as int),
        decreases bytes@.len() - i,
    {
        out.push(bytes[i]);
        proof {
            assert(bytes@.take(i + 1) =~= bytes@.take(i as int).push(bytes@[i as int]));
        }
        i = i + 1;
    }
    proof {
        assert(bytes@.take(bytes@.len() as int) =~= bytes@);
    }
}

/// The opening of the FeatureCollection.
fn opening() -> (r: Vec<u8>)
    ensures
        r@ == prefix_bytes(),
{
    let mut out: Vec<u8> = Vec::new();
    append_bytes(&mut out, "{ \"type\": \"FeatureCollection\", \"features\": [".as_bytes());
    out
}

/// Writes Features to a FeatureCollection. The writer decides which bytes
/// go to the underlying writer next and hands them to its caller, who
/// writes them there: the opening before the first Feature, a comma
/// between Features, and the closing at the end.
pub struct FeatureWriter<W> {
    writer: W,
    state: WriterState,
    /// The Features' texts handed out so far.
    features: Ghost<Seq<Seq<u8>>>,
    /// All the bytes handed out so far, in order.
    written: Ghost<Seq<u8>>,
}

impl<W> FeatureWriter<W> {
    /// Where the writer is in its FeatureCollection.
    pub closed spec fn state(&self) -> WriterState {
        self.state
    }

    /// The Features' texts handed out so far.
    pub closed spec fn features(&self) -> Seq<Seq<u8>> {
        self.features@
    }

    /// All the bytes handed out so far, in order.
    pub closed spec fn written(&self) -> Seq<u8> {
        self.written@
    }

    /// The underlying writer.
    pub closed spec fn stream(&self) -> W {
        self.writer
    }

    /// What has been handed out is the FeatureCollection so far; a started
    /// writer has handed out a Feature.
    pub closed spec fn wf(&self) -> bool {
        &&& self.written@ == collection_text(self.state, self.features@)
        &&& self.state == WriterState::New ==> self.features@.len() == 0
        &&& self.state == WriterState::Started ==> self.features@.len() > 0
    }

    /// A writer that has handed out nothing yet.
    pub fn from_writer(writer: W) -> (r: Self)
        ensures
            r.wf(),
            r.state() == WriterState::New,
            r.features() == Seq::<Seq<u8>>::empty(),
            r.written() == Seq::<u8>::empty(),
            r.stream() == writer,
    {
        FeatureWriter {
            writer,
            state: WriterState::New,
            features: Ghost(Seq::empty()),
            written: Ghost(Seq::empty()),
        }
    }

    /// Whether the collection has been closed.
    pub fn is_finished(&self) -> (r: bool)
        ensures
            r == (self.state() == WriterState::Finished),
    {
        match self.state {
            WriterState::Finished => true,
            _ => false,
        }
    }

    /// The underlying writer, to write the bytes handed out to it.
    pub fn writer_mut(&mut self) -> (r: &mut W)
        ensures
            *r == old(self).stream(),
            final(self).state() == old(self).state(),
            final(self).features() == old(self).features(),
            final(self).written() == old(self).written(),
            final(self).wf() == old(self).wf(),
            final(self).stream() == *final(r),
    {
        &mut self.writer
    }

    /// The bytes that put one more Feature into the collection: the opening
    /// before the first Feature, a comma before a later one.
    fn next_feature(&mut self, feature_json: &[u8]) -> (r: Vec<u8>)
        requires
            old(self).wf(),
            old(self).state() != WriterState::Finished,
        ensures
            final(self).wf(),
            final(self).stream() == old(self).stream(),
            r@ == (if old(self).state() == WriterState::New {
                prefix_bytes()
            } else {
                separator_bytes()
            }) + feature_json@,
            final(self).state() == WriterState::Started,
            final(self).features() == old(self).features().push(feature_json@),
            final(self).written() == old(self).written() + r@,
    {
        let mut out = match self.state {
            WriterState::New => opening(),
            _ => {
                let mut v: Vec<u8> = Vec::new();
                append_bytes(&mut v, ",".as_bytes());
                v
            },
        };
        append_bytes(&mut out, feature_json);
        let ghost before = self.features@;
        proof {
            if before.len() > 0 {
                assert(before.push(feature_json@).drop_last() =~= before);
                assert(joined(before.push(feature_json@)) == joined(before) + separator_bytes()
                    + feature_json@);
                assert(prefix_bytes() + joined(before) + (separator_bytes() + feature_json@)
                    =~= prefix_bytes() + (joined(before) + separator_bytes() + feature_json@));
            } else {
                assert(joined(before.push(feature_json@)) =~= feature_json@);
                assert(Seq::<u8>::empty() + (prefix_bytes() + feature_json@) =~= prefix_bytes()
                    + feature_json@);
            }
        }
        self.state = WriterState::Started;
        self.features = Ghost(before.push(feature_json@));
        self.written = Ghost(self.written@ + out@);
        out
    }

    /// Writes one Feature, given as its JSON text: returns the bytes to
    /// write to the underlying writer, which are the opening of the
    /// collection before the first Feature, a comma before a later one,
    /// then the Feature's text. Refused once the collection is closed.
    pub fn write_feature(&mut self, feature_json: &[u8]) -> (r: Result<Vec<u8>, Error>)
        requires
            old(self).wf(),
        ensures
            final(self).wf(),
            final(self).stream() == old(self).stream(),
            old(self).state() == WriterState::Finished ==> r == Err::<Vec<u8>, Error>(
                Error::InvalidWriterState(WriterFault::FeatureAfterFinish),
            ) && *final(self) == *old(self),
            old(self).state() != WriterState::Finished ==> (r matches Ok(b) && b@ == (if old(
                self,
            ).state() == WriterState::New {
                prefix_bytes()
            } else {
                separator_bytes()
            }) + feature_json@ && final(self).written() == old(self).written() + b@),
            old(self).state() != WriterState::Finished ==> final(self).state()
                == WriterState::Started && final(self).features() == old(self).features().push(
                feature_json@,
            ),
    {
        match self.state {
            WriterState::Finished => Err(Error::InvalidWriterState(WriterFault::FeatureAfterFinish)),
            _ => Ok(self.next_feature(feature_json)),
        }
    }

    /// Writes one record, already made a Feature and given as its JSON
    /// text: the same bytes as [`FeatureWriter::write_feature`], refused
    /// with its own fault once the collection is closed.
    pub fn serialize(&mut self, feature_json: &[u8]) -> (r: Result<Vec<u8>, Error>)
        requires
            old(self).wf(),
        ensures
            final(self).wf(),
            final(self).stream() == old(self).stream(),
            old(self).state() == WriterState::Finished ==> r == Err::<Vec<u8>, Error>(
                Error::InvalidWriterState(WriterFault::RecordAfterFinish),
            ) && *final(self) == *old(self),
            old(self).state() != WriterState::Finished ==> (r matches Ok(b) && b@ == (if old(
                self,
            ).state() == WriterState::New {
                prefix_bytes()
            } else {
                separator_bytes()
            }) + feature_json@ && final(self).written() == old(self).written() + b@),
            old(self).state() != WriterState::Finished ==> final(self).state()
                == WriterState::Started && final(self).features() == old(self).features().push(
                feature_json@,
            ),
    {
        match self.state {
            WriterState::Finished => Err(Error::InvalidWriterState(WriterFault::RecordAfterFinish)),
            _ => Ok(self.next_feature(feature_json)),
        }
    }

    /// Closes the FeatureCollection: returns the bytes to write to the
    /// underlying writer, which are the closing, after the opening if no
    /// Feature was written. Refused if the collection is already closed.
    pub fn finish(&mut self) -> (r: Result<Vec<u8>, Error>)
        requires
            old(self).wf(),
        ensures
            final(self).wf(),
            final(self).stream() == old(self).stream(),
            old(self).state() == WriterState::Finished ==> r == Err::<Vec<u8>, Error>(
                Error::InvalidWriterState(WriterFault::FinishAfterFinish),
            ) && *final(self) == *old(self),
            old(self).state() != WriterState::Finished ==> (r matches Ok(b) && b@ == (if old(
                self,
            ).state() == WriterState::New {
                prefix_bytes()
            } else {
                Seq::<u8>::empty()
            }) + suffix_bytes() && final(self).written() == old(self).written() + b@),
            old(self).state() != WriterState::Finished ==> final(self).state()
                == WriterState::Finished && final(self).features() == old(self).features(),
    {
        let mut out = match self.state {
            WriterState::Finished => {
                return Err(Error::InvalidWriterState(WriterFault::FinishAfterFinish));
            },
            WriterState::New => opening(),
            WriterState::Started => Vec::new(),
        };
        append_bytes(&mut out, "]}".as_bytes());
        proof {
            if self.state == WriterState::New {
                assert(joined(self.features@) =~= Seq::<u8>::empty());
                assert(prefix_bytes() + Seq::<u8>::empty() =~= prefix_bytes());
                assert(Seq::<u8>::empty() + (prefix_bytes() + suffix_bytes()) =~= prefix_bytes()
                    + suffix_bytes());
            } else {
                assert(Seq::<u8>::empty() + suffix_bytes() =~= suffix_bytes());
            }
        }
        self.state = WriterState::Finished;
        self.written = Ghost(self.written@ + out@);
        Ok(out)
    }
}

/// What a writer has handed out, all its chunks in order, is the
/// FeatureCollection so far: nothing before the first Feature, the opening
/// and the Features' texts separated by commas once started, and after
/// `finish` the whole FeatureCollection, closing included.
pub proof fn lemma_writer_output<W>(w: &FeatureWriter<W>)
    requires
        w.wf(),
    ensures
        w.written() == collection_text(w.state(), w.features()),
        w.state() == WriterState::New ==> w.written() == Seq::<u8>::empty(),
        w.state() == WriterState::Started ==> w.written() == prefix_bytes() + joined(w.features()),
        w.state() == WriterState::Finished ==> w.written() == prefix_bytes() + joined(w.features())
            + suffix_bytes(),
{
}

/// A writer whose writes all succeeded and that was closed has put out
/// exactly one FeatureCollection: the opening, the Features' texts
/// separated by commas, and the closing.
pub proof fn lemma_finished_collection(state: WriterState, features: Seq<Seq<u8>>, written: Seq<u8>)
    requires
        state == WriterState::Finished,
        written == collection_text(state, features),
    ensures
        written == prefix_bytes() + joined(features) + suffix_bytes(),
        written.subrange(0, prefix_bytes().len() as int) == prefix_bytes(),
        written.subrange(written.len() - suffix_bytes().len(), written.len() as int)
            == suffix_bytes(),
{
    assert((prefix_bytes() + joined(features) + suffix_bytes()).subrange(
        0,
        prefix_bytes().len() as int,
    ) =~= prefix_bytes());
    assert(written.subrange(written.len() - suffix_bytes().len(), written.len() as int)
        =~= suffix_bytes());
}

/// From the start of a stream, the scan skips every byte up to the first
/// `[`, which announces a Feature.
proof fn lemma_scan_to_open_bracket(bytes: Seq<u8>)
    requires
        bytes.len() > 0,
        forall|i: int| 0 <= i < bytes.len() - 1 ==> #[trigger] bytes[i] != 0x5Bu8,
        bytes[bytes.len() - 1] == 0x5Bu8,
    ensures
        scan_until_decided(ScanState::BeforeFeatures, bytes) == (
            ScanState::DuringFeatures,
            ScanStep::FeatureFollows,
        ),
    decreases bytes.len(),
{
    assert(!is_space_byte(0x5Bu8));
    if bytes.len() == 1 {
        assert(spec_scan(ScanState::BeforeFeatures, bytes[0]) == (
            ScanState::DuringFeatures,
            ScanStep::FeatureFollows,
        ));
    } else {
        let rest = bytes.subrange(1, bytes.len() as int);
        assert(bytes[0] != 0x5Bu8);
        assert(spec_scan(ScanState::BeforeFeatures, bytes[0]) == (
            ScanState::BeforeFeatures,
            ScanStep::Skip,
        ));
        assert forall|i: int| 0 <= i < rest.len() - 1 implies #[trigger] rest[i] != 0x5Bu8 by {
            assert(rest[i] == bytes[i + 1]);
        }
        assert(rest[rest.len() - 1] == bytes[bytes.len() - 1]);
        lemma_scan_to_open_bracket(rest);
    }
}

/// The reader decides at the bytes that the writer puts between Features:
/// scanning the opening from the start of a stream announces the first
/// Feature, scanning a separator after a Feature announces the next one,
/// and scanning the closing after a Feature ends the features.
pub proof fn lemma_reader_scans_writer_framing()
    ensures
        scan_until_decided(ScanState::BeforeFeatures, prefix_bytes()) == (
            ScanState::DuringFeatures,
            ScanStep::FeatureFollows,
        ),
        scan_until_decided(ScanState::DuringFeatures, separator_bytes()) == (
            ScanState::DuringFeatures,
            ScanStep::FeatureFollows,
        ),
        scan_until_decided(ScanState::DuringFeatures, suffix_bytes()) == (
            ScanState::AfterFeatures,
            ScanStep::End,
        ),
{
    let opening = "{ \"type\": \"FeatureCollection\", \"features\": [";
    reveal_strlit("{ \"type\": \"FeatureCollection\", \"features\": [");
    reveal_strlit(",");
    reveal_strlit("]}");
    assert(vstd::string::is_ascii(opening));
    assert(vstd::string::is_ascii(","));
    assert(vstd::string::is_ascii("]}"));
    vstd::utf8::is_ascii_chars_encode_utf8(opening@);
    vstd::utf8::is_ascii_chars_encode_utf8(","@);
    vstd::utf8::is_ascii_chars_encode_utf8("]}"@);
    let b = prefix_bytes();
    assert(b.len() == 44);
    assert forall|i: int| 0 <= i < b.len() - 1 implies #[trigger] b[i] != 0x5Bu8 by {
        assert(b[i] == opening@[i] as u8);
    }
    assert(b[43] == 0x5Bu8);
    lemma_scan_to_open_bracket(b);
    assert(separator_bytes()[0] == 0x2Cu8);
    assert(separator_bytes().subrange(1, 1) =~= Seq::<u8>::empty());
    assert(suffix_bytes()[0] == 0x5Du8);
}

} // verus!
