//! The streaming pipeline, as a state machine that a host drives.
//!
//! The host opens the files and reads the source; the machine decides what
//! each chunk becomes, what is written, and when progress is reported. For
//! encryption the host writes the header (the file nonce) first, then each
//! frame the machine returns; for decryption it hands the machine the header,
//! then each frame it reads. When the machine returns an error the host
//! deletes the partial output and stops.

use vstd::prelude::*;
use vstd::slice::slice_to_vec;
use vstd::string::StringSliceAdditionalSpecFns;

use crate::codec::{
    is_sealed_frame, open_chunk, open_chunk_result, seal_chunk, sealable_len, CodecError, FRAME_OVERHEAD,
};
use crate::keys::{create_key, derived_key, generate_nonce, KEY_LEN, NONCE_LEN};
use crate::password::{password_ok, validate_password};
use crate::types::ResponseTextCode;

verus! {

/// Plaintext bytes per chunk; an encrypted frame on disk holds up to this
/// many plus 48.
pub const CHUNK_SIZE: usize = 1048576;

/// The least time, in milliseconds, between two progress reports (the first
/// and the last report of an operation are never held back).
pub const MIN_EVENT_INTERVAL_MILLIS: u64 = 30;

/// Progress of one operation at one moment.
#[derive(Debug, Clone, Copy, PartialEq, Eq, Structural)]
pub struct ProgressSnapshot {
    /// Source bytes consumed so far (for decryption, the header included).
    pub bytes_processed: u64,
    /// The size of the source, taken once at the start.
    pub total_bytes: u64,
    /// Milliseconds since the operation started.
    pub elapsed_millis: u64,
}

/// What the host does with one chunk: write `bytes` to the output, then emit
/// `report` if there is one.
pub struct ChunkOutput {
    pub bytes: Vec<u8>,
    pub report: Option<ProgressSnapshot>,
}

/// The state of one operation, in mathematical terms.
pub struct StreamModel {
    pub is_encryption: bool,
    pub key: Seq<u8>,
    pub nonce: Seq<u8>,
    pub total_bytes: nat,
    pub bytes_processed: nat,
    pub last_report_millis: nat,
    /// `bytes_processed` of every report emitted so far, in order.
    pub reported: Seq<nat>,
}

/// The state of one encryption or decryption.
pub struct Stream {
    is_encryption: bool,
    key: Vec<u8>,
    nonce: Vec<u8>,
    total_bytes: u64,
    bytes_processed: u64,
    last_report_millis: u64,
    has_reported: bool,
    last_reported_bytes: u64,
    reported: Ghost<Seq<nat>>,
}

impl View for Stream {
    type V = StreamModel;

    closed spec fn view(&self) -> StreamModel {
        StreamModel {
            is_encryption: self.is_encryption,
            key: self.key@,
            nonce: self.nonce@,
            total_bytes: self.total_bytes as nat,
            bytes_processed: self.bytes_processed as nat,
            last_report_millis: self.last_report_millis as nat,
            reported: self.reported@,
        }
    }
}

/// Reports never go back: each carries at least the count of the one before,
/// and none more than what has been processed.
pub open spec fn reports_monotone(reported: Seq<nat>, processed: nat) -> bool {
    &&& forall|i: int, j: int| 0 <= i <= j < reported.len() ==> reported[i] <= reported[j]
    &&& forall|i: int| 0 <= i < reported.len() ==> #[trigger] reported[i] <= processed
}

/// Whether a chunk that brings the count to `processed` at time `now` is
/// reported: the first report and the one that reaches the total always are,
/// others once the minimum interval has passed since the last.
pub open spec fn should_report(m: StreamModel, processed: nat, now: nat) -> bool {
    m.reported.len() == 0 || processed >= m.total_bytes || now >= m.last_report_millis
        + MIN_EVENT_INTERVAL_MILLIS
}

/// The state after a chunk that brings the count to `processed` at time `now`.
pub open spec fn after_chunk(m: StreamModel, processed: nat, now: nat) -> StreamModel {
    if should_report(m, processed, now) {
        StreamModel {
            bytes_processed: processed,
            last_report_millis: now,
            reported: m.reported.push(processed),
            ..m
        }
    } else {
        StreamModel { bytes_processed: processed, ..m }
    }
}

/// The report a chunk gives, if any.
pub open spec fn chunk_report(m: StreamModel, processed: nat, now: nat) -> Option<ProgressSnapshot> {
    if should_report(m, processed, now) {
        Some(
            ProgressSnapshot {
                bytes_processed: processed as u64,
                total_bytes: m.total_bytes as u64,
                elapsed_millis: now as u64,
            },
        )
    } else {
        None
    }
}

/// How many bytes the host reads for one step: a plaintext chunk when
/// encrypting, a whole frame when decrypting.
pub open spec fn spec_read_size(is_encryption: bool) -> nat {
    if is_encryption {
        CHUNK_SIZE as nat
    } else {
        (CHUNK_SIZE + FRAME_OVERHEAD) as nat
    }
}

/// The password, as UTF-8, can be handed to the KDF.
pub open spec fn kdf_accepts_password(password: Seq<u8>) -> bool {
    1 <= password.len() <= u32::MAX
}

impl Stream {
    /// The state's invariant.
    pub closed spec fn wf(&self) -> bool {
        &&& self.key@.len() == KEY_LEN
        &&& self.nonce@.len() == NONCE_LEN
        &&& reports_monotone(self.reported@, self.bytes_processed as nat)
        &&& self.has_reported == (self.reported@.len() > 0)
        &&& self.reported@.len() > 0 ==> self.reported@.last() == self.last_reported_bytes
    }

    /// Starts an encryption of a source of `total_bytes` bytes: checks the
    /// password against the policy, draws the file nonce, derives the key,
    /// and returns the header to write first.
    pub fn start_encryption(password: &str, total_bytes: u64) -> (r: Result<(Stream, Vec<u8>), ResponseTextCode>)
        ensures
            r is Ok <==> password_ok(password@) && kdf_accepts_password(password.spec_bytes()),
            !password_ok(password@) ==> r == Err::<(Stream, Vec<u8>), ResponseTextCode>(ResponseTextCode::InvalidPassword),
            password_ok(password@) && r is Err ==> r == Err::<(Stream, Vec<u8>), ResponseTextCode>(ResponseTextCode::KeyGenerationFailed),
            r matches Ok((s, header)) ==> {
                &&& s.wf()
                &&& header@.len() == NONCE_LEN
                &&& s@ == (StreamModel {
                    is_encryption: true,
                    key: derived_key(password.spec_bytes(), header@),
                    nonce: header@,
                    total_bytes: total_bytes as nat,
                    bytes_processed: 0,
                    last_report_millis: 0,
                    reported: Seq::empty(),
                })
            },
    {
        if validate_password(password).is_err() {
            return Err(ResponseTextCode::InvalidPassword);
        }
        let nonce = generate_nonce();
        let header = slice_to_vec(nonce.as_slice());
        match create_key(password, slice_to_vec(nonce.as_slice())) {
            Ok(key) => {
                let s = Stream {
                    is_encryption: true,
                    key,
                    nonce,
                    total_bytes,
                    bytes_processed: 0,
                    last_report_millis: 0,
                    has_reported: false,
                    last_reported_bytes: 0,
                    reported: Ghost(Seq::empty()),
                };
                Ok((s, header))
            },
            Err(_) => Err(ResponseTextCode::KeyGenerationFailed),
        }
    }

    /// Starts a decryption of a source of `total_bytes` bytes whose first
    /// bytes, the file nonce, are `header`, once the password passes the
    /// policy; the header counts as processed.
    pub fn start_decryption(password: &str, header: &[u8], total_bytes: u64) -> (r: Result<Stream, ResponseTextCode>)
        ensures
            r is Ok <==> password_ok(password@) && header@.len() == NONCE_LEN && kdf_accepts_password(
                password.spec_bytes(),
            ),
            !password_ok(password@) ==> r == Err::<Stream, ResponseTextCode>(ResponseTextCode::InvalidPassword),
            password_ok(password@) && header@.len() != NONCE_LEN ==> r == Err::<Stream, ResponseTextCode>(
                ResponseTextCode::DecryptionFailed,
            ),
            password_ok(password@) && header@.len() == NONCE_LEN && !kdf_accepts_password(password.spec_bytes())
                ==> r == Err::<Stream, ResponseTextCode>(ResponseTextCode::KeyGenerationFailed),
            r matches Ok(s) ==> {
                &&& s.wf()
                &&& s@ == (StreamModel {
                    is_encryption: false,
                    key: derived_key(password.spec_bytes(), header@),
                    nonce: header@,
                    total_bytes: total_bytes as nat,
                    bytes_processed: NONCE_LEN as nat,
                    last_report_millis: 0,
                    reported: Seq::empty(),
                })
            },
    {
        if validate_password(password).is_err() {
            return Err(ResponseTextCode::InvalidPassword);
        }
        if header.len() != NONCE_LEN {
            return Err(ResponseTextCode::DecryptionFailed);
        }
        match create_key(password, slice_to_vec(header)) {
            Ok(key) => Ok(
                Stream {
                    is_encryption: false,
                    key,
                    nonce: slice_to_vec(header),
                    total_bytes,
                    bytes_processed: NONCE_LEN as u64,
                    last_report_millis: 0,
                    has_reported: false,
                    last_reported_bytes: 0,
                    reported: Ghost(Seq::empty()),
                },
            ),
            Err(_) => Err(ResponseTextCode::KeyGenerationFailed),
        }
    }

    /// Whether this is an encryption.
    pub fn is_encryption(&self) -> (r: bool)
        ensures
            r == self@.is_encryption,
    {
        self.is_encryption
    }

    /// Source bytes consumed so far.
    pub fn bytes_processed(&self) -> (r: u64)
        ensures
            r == self@.bytes_processed,
    {
        self.bytes_processed
    }

    /// The size of the source, as given at the start.
    pub fn total_bytes(&self) -> (r: u64)
        ensures
            r == self@.total_bytes,
    {
        self.total_bytes
    }

    /// How many bytes the host reads for the next step.
    pub fn read_size(&self) -> (r: usize)
        ensures
            r == spec_read_size(self@.is_encryption),
    {
        if self.is_encryption {
            CHUNK_SIZE
        } else {
            CHUNK_SIZE + FRAME_OVERHEAD
        }
    }

    /// The code for a failure to read or write the files.
    pub fn failure_code(&self) -> (r: ResponseTextCode)
        ensures
            r == if self@.is_encryption {
                ResponseTextCode::EncryptionFailed
            } else {
                ResponseTextCode::DecryptionFailed
            },
    {
        if self.is_encryption {
            ResponseTextCode::EncryptionFailed
        } else {
            ResponseTextCode::DecryptionFailed
        }
    }

    /// The code for a completed operation.
    pub fn success_code(&self) -> (r: ResponseTextCode)
        ensures
            r == if self@.is_encryption {
                ResponseTextCode::EncryptionSuccessful
            } else {
                ResponseTextCode::DecryptionSuccessful
            },
    {
        if self.is_encryption {
            ResponseTextCode::EncryptionSuccessful
        } else {
            ResponseTextCode::DecryptionSuccessful
        }
    }
}


/// The view of a decryption step as a codec result.
pub open spec fn opened_view(r: Result<ChunkOutput, ResponseTextCode>) -> Result<Seq<u8>, CodecError> {
    match r {
        Ok(out) => Ok(out.bytes@),
        Err(_) => Err(CodecError::AuthenticationFailed),
    }
}

impl Stream {
    /// Counts `len` more bytes as processed at time `now`, and reports when
    /// `should_report` says so.
    fn advance(&mut self, len: usize, now: u64) -> (r: Option<ProgressSnapshot>)
        requires
            old(self).wf(),
            old(self)@.bytes_processed + len <= u64::MAX,
        ensures
            final(self).wf(),
            final(self)@ == after_chunk(old(self)@, (old(self)@.bytes_processed + len) as nat, now as nat),
            r == chunk_report(old(self)@, (old(self)@.bytes_processed + len) as nat, now as nat),
    {
        let processed = self.bytes_processed + len as u64;
        let due = !self.has_reported || processed >= self.total_bytes || (now >= self.last_report_millis
            && now - self.last_report_millis >= MIN_EVENT_INTERVAL_MILLIS);
        self.bytes_processed = processed;
        if due {
            self.last_report_millis = now;
            self.has_reported = true;
            self.last_reported_bytes = processed;
            self.reported = Ghost(self.reported@.push(processed as nat));
            Some(ProgressSnapshot { bytes_processed: processed, total_bytes: self.total_bytes, elapsed_millis: now })
        } else {
            None
        }
    }

    /// Takes one chunk the host read, `elapsed_millis` after the start.
    /// Encrypting, the chunk is sealed into a frame; decrypting, the chunk is
    /// a frame and is opened. On success the host writes the returned bytes;
    /// on failure it deletes the partial output. A frame that does not
    /// authenticate gives `InvalidPassword`.
    pub fn process_chunk(&mut self, chunk: &[u8], elapsed_millis: u64) -> (r: Result<ChunkOutput, ResponseTextCode>)
        requires
            old(self).wf(),
            old(self)@.bytes_processed + chunk@.len() <= u64::MAX,
        ensures
            final(self).wf(),
            r is Err ==> final(self)@ == old(self)@,
            r matches Ok(out) ==> {
                &&& final(self)@ == after_chunk(old(self)@, (old(self)@.bytes_processed + chunk@.len()) as nat, elapsed_millis as nat)
                &&& out.report == chunk_report(old(self)@, (old(self)@.bytes_processed + chunk@.len()) as nat, elapsed_millis as nat)
            },
            old(self)@.is_encryption ==> {
                &&& r is Ok <==> sealable_len(chunk@.len())
                &&& r matches Ok(out) ==> is_sealed_frame(old(self)@.key, old(self)@.nonce, chunk@, out.bytes@)
                &&& r matches Err(e) ==> e == ResponseTextCode::EncryptionFailed
            },
            !old(self)@.is_encryption ==> {
                &&& open_chunk_result(old(self)@.key, old(self)@.nonce, chunk@, opened_view(r))
                &&& r matches Err(e) ==> e == ResponseTextCode::InvalidPassword
            },
    {
        let bytes = if self.is_encryption {
            match seal_chunk(self.key.as_slice(), self.nonce.as_slice(), chunk) {
                Ok(frame) => frame,
                Err(_) => {
                    return Err(ResponseTextCode::EncryptionFailed);
                },
            }
        } else {
            let opened = open_chunk(self.key.as_slice(), self.nonce.as_slice(), chunk);
            match opened {
                Ok(plaintext) => plaintext,
                Err(_) => {
                    return Err(ResponseTextCode::InvalidPassword);
                },
            }
        };
        let report = self.advance(chunk.len(), elapsed_millis);
        Ok(ChunkOutput { bytes, report })
    }

    /// Ends the operation once the source is exhausted, `elapsed_millis`
    /// after the start. Returns the final report when the last chunk's count
    /// was not reported yet (or nothing was), so that the last report always
    /// carries the final count.
    pub fn finish(&mut self, elapsed_millis: u64) -> (r: Option<ProgressSnapshot>)
        requires
            old(self).wf(),
        ensures
            final(self).wf(),
            final(self)@.bytes_processed == old(self)@.bytes_processed,
            final(self)@.reported.len() > 0,
            final(self)@.reported.last() == final(self)@.bytes_processed,
            r is Some <==> (old(self)@.reported.len() == 0 || old(self)@.reported.last() != old(self)@.bytes_processed),
            r is Some ==> final(self)@.reported == old(self)@.reported.push(old(self)@.bytes_processed),
            r is None ==> final(self)@ == old(self)@,
            r matches Some(snapshot) ==> snapshot == (ProgressSnapshot {
                bytes_processed: old(self)@.bytes_processed as u64,
                total_bytes: old(self)@.total_bytes as u64,
                elapsed_millis,
            }),
    {
        if self.has_reported && self.last_reported_bytes == self.bytes_processed {
            return None;
        }
        self.last_report_millis = elapsed_millis;
        self.has_reported = true;
        self.last_reported_bytes = self.bytes_processed;
        self.reported = Ghost(self.reported@.push(self.bytes_processed as nat));
        Some(
            ProgressSnapshot {
                bytes_processed: self.bytes_processed,
                total_bytes: self.total_bytes,
                elapsed_millis,
            },
        )
    }
}


/// Progress reports of one operation never go back, and none exceeds what
/// has been processed.
pub proof fn lemma_progress_reports(s: Stream)
    requires
        s.wf(),
    ensures
        forall|i: int, j: int| 0 <= i <= j < s@.reported.len() ==> s@.reported[i] <= s@.reported[j],
        forall|i: int| 0 <= i < s@.reported.len() ==> #[trigger] s@.reported[i] <= s@.bytes_processed,
{
}

/// What an encryption seals, a decryption started with the same password and
/// the header the encryption produced opens back to the same plaintext.
pub proof fn lemma_stream_round_trip(
    password: Seq<u8>,
    header: Seq<u8>,
    enc: StreamModel,
    dec: StreamModel,
    chunk: Seq<u8>,
    frame: Seq<u8>,
    opened: Result<Seq<u8>, CodecError>,
)
    requires
        enc.key == derived_key(password, header),
        enc.nonce == header,
        dec.key == derived_key(password, header),
        dec.nonce == header,
        sealable_len(chunk.len()),
        is_sealed_frame(enc.key, enc.nonce, chunk, frame),
        open_chunk_result(dec.key, dec.nonce, frame, opened),
    ensures
        opened == Ok::<Seq<u8>, CodecError>(chunk),
{
    crate::codec::lemma_frame_round_trip(enc.key, enc.nonce, chunk, frame, opened);
}

} // verus!
