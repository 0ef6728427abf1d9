use vstd::prelude::*;

verus! {

/// Length of the text that precedes the payload in a response:
/// `data:audio/wav;base64,`.
pub const PAYLOAD_OFFSET: usize = 22;

/// What base64 decoding (standard alphabet, padded) gives for `s`, or `None`
/// where `s` is not valid base64.
pub uninterp spec fn base64_decoded(s: Seq<u8>) -> Option<Seq<u8>>;

/// What reading `b` as a WAVE file gives: `None` where the header cannot be
/// read, else one entry for each sample of the file as a 16-bit integer,
/// `None` for a sample that could not be read as one.
pub uninterp spec fn wav_samples(b: Seq<u8>) -> Option<Seq<Option<i16>>>;

/// Relies on base64::decode (standard configuration): decodes `s`, or fails
/// where `s` is not valid base64.
#[verifier::external_body]
fn decode_base64(s: &[u8]) -> (r: Option<Vec<u8>>)
    ensures
        match r {
            Some(v) => base64_decoded(s@) == Some(v@),
            None => base64_decoded(s@) is None,
        },
{
    base64::decode(s).ok()
}

/// Relies on hound::WavReader::new, which reads a WAVE header, and on
/// hound::WavReader::samples, which reads each sample as an `i16`.
#[verifier::external_body]
fn read_wav_samples(b: &Vec<u8>) -> (r: Option<Vec<Option<i16>>>)
    ensures
        match r {
            Some(v) => wav_samples(b@) == Some(v@),
            None => wav_samples(b@) is None,
        },
{
    match hound::WavReader::new(std::io::Cursor::new(b.clone())) {
        Ok(mut reader) => Some(reader.samples::<i16>().map(Result::ok).collect()),
        Err(_) => None,
    }
}

/// The samples that could be read, in file order.
pub open spec fn present(items: Seq<Option<i16>>) -> Seq<i16>
    decreases items.len(),
{
    if items.len() == 0 {
        Seq::empty()
    } else {
        let rest = present(items.drop_last());
        match items.last() {
            Some(v) => rest.push(v),
            None => rest,
        }
    }
}

/// Why a response could not be turned into samples.
#[derive(Debug, Clone, Copy, PartialEq, Eq, Structural)]
pub enum DecodeError {
    /// The response holds nothing after the prefix.
    TooShort,
    /// The payload is not base64.
    NotBase64,
    /// The decoded payload is not a WAVE file.
    NotWave,
}

/// The outcome of decoding response `body`, by its parts: the payload after
/// the prefix is base64 of a WAVE file whose readable samples are the result.
pub open spec fn decoded_spec(body: Seq<u8>) -> Result<Seq<i16>, DecodeError> {
    if body.len() <= PAYLOAD_OFFSET {
        Err(DecodeError::TooShort)
    } else {
        match base64_decoded(body.subrange(PAYLOAD_OFFSET as int, body.len() as int)) {
            None => Err(DecodeError::NotBase64),
            Some(bytes) => match wav_samples(bytes) {
                None => Err(DecodeError::NotWave),
                Some(items) => Ok(present(items)),
            },
        }
    }
}

/// Keeps the samples that could be read, in order.
pub fn keep_present(items: &Vec<Option<i16>>) -> (r: Vec<i16>)
    ensures
        r@ == present(items@),
{
    let mut out: Vec<i16> = Vec::new();
    let mut i: usize = 0;
    while i < items.len()
        invariant
            i <= items@.len(),
            out@ == present(items@.subrange(0, i as int)),
        decreases items@.len() - i,
    {
        proof {
            assert(items@.subrange(0, i + 1).drop_last() =~= items@.subrange(0, i as int));
        }
        match items[i] {
            Some(v) => out.push(v),
            None => {},
        }
        i = i + 1;
    }
    proof {
        assert(items@.subrange(0, items@.len() as int) =~= items@);
    }
    out
}

/// Turns a response body of the form `data:audio/wav;base64,<payload>` into
/// the samples of the WAVE file that the payload encodes. The prefix is
/// skipped by its length, not compared; samples that cannot be read as
/// 16-bit integers are left out.
pub fn decode_response(body: &[u8]) -> (r: Result<Vec<i16>, DecodeError>)
    ensures
        match (r, decoded_spec(body@)) {
            (Ok(v), Ok(s)) => v@ == s,
            (Err(e), Err(f)) => e == f,
            _ => false,
        },
{
    if body.len() <= PAYLOAD_OFFSET {
        return Err(DecodeError::TooShort);
    }
    let payload = vstd::slice::slice_subrange(body, PAYLOAD_OFFSET, body.len());
    let bytes = match decode_base64(payload) {
        Some(bytes) => bytes,
        None => return Err(DecodeError::NotBase64),
    };
    let items = match read_wav_samples(&bytes) {
        Some(items) => items,
        None => return Err(DecodeError::NotWave),
    };
    Ok(keep_present(&items))
}

} // verus!
