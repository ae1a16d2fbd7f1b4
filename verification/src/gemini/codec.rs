//! Encoding of PCM frames into Gemini protocol messages and back.

use crate::audio::frame::{le_bytes, samples_of_le_bytes, PcmFrame, PcmFrameView};
use crate::gemini::protocol::{AudioBlob, InlineData, Part, RealtimeInput, RealtimeInputBody, ServerMessage};
use crate::text::{concat_str, decimal, u32_to_decimal};
use base64::engine::general_purpose::STANDARD;
use base64::{DecodeError, Engine};
use vstd::prelude::*;
use vstd::string::StrSliceExecFns;

verus! {

/// Text that the standard base64 engine produces for these bytes.
pub uninterp spec fn base64_encoding(bytes: Seq<u8>) -> Seq<char>;

/// Bytes that the standard base64 engine decodes from this text, if it is valid.
pub uninterp spec fn base64_decoding(text: Seq<char>) -> Option<Seq<u8>>;

/// Declares `base64::DecodeError`.
#[verifier::external_type_specification]
#[verifier::external_body]
pub struct ExDecodeError(DecodeError);

/// Calls `STANDARD.encode` (standard alphabet, padded). Its output decodes
/// back to the input with the same engine.
#[verifier::external_body]
fn base64_encode(bytes: &[u8]) -> (r: String)
    ensures
        r@ == base64_encoding(bytes@),
        base64_decoding(r@) == Some(bytes@),
{
    STANDARD.encode(bytes)
}

/// Calls `STANDARD.decode` on the text.
#[verifier::external_body]
fn base64_decode(text: &str) -> (r: Result<Vec<u8>, DecodeError>)
    ensures
        r is Ok <==> base64_decoding(text@) is Some,
        r matches Ok(v) ==> base64_decoding(text@) == Some(v@),
{
    STANDARD.decode(text)
}

/// Whether `p` is a prefix of `s`.
pub open spec fn has_prefix(s: Seq<char>, p: Seq<char>) -> bool {
    p.len() <= s.len() && s.subrange(0, p.len() as int) == p
}

/// Whether `prefix` begins `s`, compared character by character.
fn str_starts_with(s: &str, prefix: &str) -> (r: bool)
    ensures
        r == has_prefix(s@, prefix@),
{
    let n = prefix.unicode_len();
    let m = s.unicode_len();
    if n > m {
        return false;
    }
    for i in 0..n
        invariant
            n == prefix@.len(),
            m == s@.len(),
            n <= m,
            forall|k: int| 0 <= k < i ==> s@[k] == prefix@[k],
    {
        if s.get_char(i) != prefix.get_char(i) {
            assert(s@.subrange(0, n as int)[i as int] != prefix@[i as int]);
            return false;
        }
    }
    assert(s@.subrange(0, n as int) =~= prefix@);
    true
}

/// MIME type announcing PCM at a sample rate.
pub open spec fn pcm_mime(rate: u32) -> Seq<char> {
    "audio/pcm;rate="@ + decimal(rate as nat)
}

/// 16k PCM frame -> realtimeInput message.
pub fn encode_input(frame: &PcmFrame) -> (r: RealtimeInput)
    requires
        2 * frame.samples@.len() <= isize::MAX,
    ensures
        r.realtime_input.audio.mime_type@ == pcm_mime(frame.sample_rate),
        r.realtime_input.audio.data@ == base64_encoding(le_bytes(frame.samples@)),
        base64_decoding(r.realtime_input.audio.data@) == Some(le_bytes(frame.samples@)),
{
    let bytes = frame.to_le_bytes();
    let b64 = base64_encode(bytes.as_slice());
    let rate = u32_to_decimal(frame.sample_rate);
    RealtimeInput {
        realtime_input: RealtimeInputBody {
            audio: AudioBlob { mime_type: concat_str("audio/pcm;rate=", rate.as_str()), data: b64 },
        },
    }
}

/// The frame carried by one message part: PCM audio inline data whose base64
/// payload decodes, read as little-endian samples at `rate`.
pub open spec fn part_frame(part: Part, rate: u32) -> Option<PcmFrameView> {
    match part.inline_data {
        Some(inline) => if has_prefix(inline.mime_type@, "audio/pcm"@) && base64_decoding(
            inline.data@,
        ) is Some {
            Some(
                PcmFrameView {
                    samples: samples_of_le_bytes(base64_decoding(inline.data@)->0),
                    sample_rate: rate,
                },
            )
        } else {
            None
        },
        None => None,
    }
}

/// The frames of a sequence of parts, in order, skipping parts without audio.
pub open spec fn frames_of_parts(parts: Seq<Part>, rate: u32) -> Seq<PcmFrameView>
    decreases parts.len(),
{
    if parts.len() == 0 {
        Seq::empty()
    } else {
        let prefix = frames_of_parts(parts.drop_last(), rate);
        match part_frame(parts.last(), rate) {
            Some(f) => prefix.push(f),
            None => prefix,
        }
    }
}

/// All audio frames of a server message.
pub open spec fn message_frames(msg: ServerMessage, rate: u32) -> Seq<PcmFrameView> {
    match msg.server_content {
        Some(sc) => match sc.model_turn {
            Some(mt) => frames_of_parts(mt.parts@, rate),
            None => Seq::empty(),
        },
        None => Seq::empty(),
    }
}

/// Extracts every audio part of a server message as a frame at `out_rate`.
pub fn decode_audio(msg: &ServerMessage, out_rate: u32) -> (r: Vec<PcmFrame>)
    ensures
        r@.map_values(|f: PcmFrame| f@) == message_frames(*msg, out_rate),
{
    let mut frames: Vec<PcmFrame> = Vec::new();
    if let Some(sc) = &msg.server_content {
        if let Some(mt) = &sc.model_turn {
            let n = mt.parts.len();
            for i in 0..n
                invariant
                    n == mt.parts@.len(),
                    frames@.map_values(|f: PcmFrame| f@) == frames_of_parts(
                        mt.parts@.take(i as int),
                        out_rate,
                    ),
            {
                let part = &mt.parts[i];
                assert(mt.parts@.take(i + 1).drop_last() =~= mt.parts@.take(i as int));
                assert(mt.parts@.take(i + 1).last() == *part);
                if let Some(inline) = &part.inline_data {
                    if str_starts_with(inline.mime_type.as_str(), "audio/pcm") {
                        match base64_decode(inline.data.as_str()) {
                            Ok(bytes) => {
                                let frame = PcmFrame::from_le_bytes(bytes.as_slice(), out_rate);
                                frames.push(frame);
                                assert(frames@.map_values(|f: PcmFrame| f@) =~= frames_of_parts(
                                    mt.parts@.take(i + 1),
                                    out_rate,
                                ));
                            },
                            Err(_) => {},
                        }
                    }
                }
            }
            assert(mt.parts@.take(n as int) =~= mt.parts@);
        }
    }
    frames
}

/// Codec round trip: audio sent as a realtime input blob (PCM MIME type,
/// base64 payload of the little-endian samples) and received back as an
/// inline-data part yields the very same samples at the receiving rate.
pub proof fn law_encoded_audio_decodes_back(samples: Seq<i16>, blob: AudioBlob, rate: u32, sent_rate: u32)
    requires
        blob.mime_type@ == pcm_mime(sent_rate),
        base64_decoding(blob.data@) == Some(le_bytes(samples)),
    ensures
        part_frame(
            Part { inline_data: Some(InlineData { mime_type: blob.mime_type, data: blob.data }) },
            rate,
        ) == Some(PcmFrameView { samples, sample_rate: rate }),
{
    reveal_strlit("audio/pcm;rate=");
    reveal_strlit("audio/pcm");
    let m = blob.mime_type@;
    assert(m.subrange(0, 9) =~= "audio/pcm"@);
    crate::audio::frame::law_le_bytes_roundtrip(samples);
}

} // verus!
