use vstd::prelude::*;

verus! {

// The one fixed binary serialization scheme for session payloads. A payload
// is written as its key/value pairs and read back with the same scheme; the
// format is not versioned, so these two names pin the whole encoding.

/// The byte image the scheme gives to a sequence of key/value pairs, when it
/// gives one.
pub uninterp spec fn msgpack_of(entries: Seq<(Seq<char>, Seq<char>)>) -> Seq<u8>;

/// What the scheme's decoder reads out of a byte blob: the pairs, or nothing
/// when the blob is not a well-formed image.
pub uninterp spec fn msgpack_entries(bytes: Seq<u8>) -> Option<Seq<(Seq<char>, Seq<char>)>>;

/// Pairs that the scheme's length headers can describe. The scheme writes
/// every collection count and string byte length into a 32-bit header; a
/// character takes at most four bytes, so keeping each string under a
/// quarter of the header's range keeps every byte length inside it. Beyond
/// these bounds the writer would truncate a length header, and what it wrote
/// could not be read back.
pub open spec fn msgpack_within_limits(entries: Seq<(Seq<char>, Seq<char>)>) -> bool {
    &&& entries.len() < 0x1_0000_0000
    &&& forall|i: int|
        0 <= i < entries.len() ==> #[trigger] entries[i].0.len() < 0x4000_0000 && entries[
            i
        ].1.len() < 0x4000_0000
}

/// Relies on rmp_serde::to_vec: the encoding of a value depends on the value
/// alone; writing to a byte vector cannot fail, so pairs within the scheme's
/// limits always encode; and within those limits rmp_serde::from_slice reads
/// the encoded value back unchanged.
#[verifier::external_body]
pub(crate) fn encode_entries(entries: &Vec<(String, String)>) -> (r: Option<Vec<u8>>)
    ensures
        msgpack_within_limits(entries.deep_view()) ==> r is Some,
        r matches Some(b) ==> b@ == msgpack_of(entries.deep_view()) && (msgpack_within_limits(
            entries.deep_view(),
        ) ==> msgpack_entries(b@) == Some(entries.deep_view())),
{
    rmp_serde::to_vec(entries).ok()
}

/// Relies on rmp_serde::from_slice: what a blob decodes to depends on the
/// bytes alone.
#[verifier::external_body]
pub(crate) fn decode_entries(bytes: &Vec<u8>) -> (r: Option<Vec<(String, String)>>)
    ensures
        match msgpack_entries(bytes@) {
            Some(e) => r matches Some(v) && v.deep_view() == e,
            None => r is None,
        },
{
    rmp_serde::from_slice::<Vec<(String, String)>>(bytes.as_slice()).ok()
}

} // verus!
