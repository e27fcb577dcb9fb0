use vstd::prelude::*;
use vstd::slice::slice_subrange;

verus! {

/// The line feed.
pub const LINE_FEED: u8 = 10;

/// The carriage return.
pub const CARRIAGE_RETURN: u8 = 13;

/// The newline characters, which trimming removes from the end of a message:
/// the line feed and the carriage return. No other byte is one, a blank or a
/// tab neither.
pub open spec fn is_newline(byte: u8) -> bool {
    byte == LINE_FEED || byte == CARRIAGE_RETURN
}

/// Tells whether a byte is a newline character.
pub fn newline(byte: u8) -> (yes: bool)
    ensures
        yes == is_newline(byte),
{
    byte == LINE_FEED || byte == CARRIAGE_RETURN
}

/// The text that lossy decoding makes of a byte sequence: valid UTF-8 is kept,
/// each invalid part becomes a replacement character.
pub uninterp spec fn utf8_lossy_text(bytes: Seq<u8>) -> Seq<char>;

/// `String::from_utf8_lossy`, made an owned `String`: the text is the lossy
/// decoding of the bytes.
#[verifier::external_body]
pub(crate) fn decode_lossy(bytes: &[u8]) -> (text: String)
    ensures
        text@ == utf8_lossy_text(bytes@),
{
    String::from_utf8_lossy(bytes).into_owned()
}

/// The length of the bytes without the newline characters at their end.
pub open spec fn trimmed_len(bytes: Seq<u8>) -> nat
    decreases bytes.len(),
{
    if bytes.len() > 0 && is_newline(bytes.last()) {
        trimmed_len(bytes.drop_last())
    } else {
        bytes.len()
    }
}

/// The bytes without the newline characters at their end.
pub open spec fn trim_newlines(bytes: Seq<u8>) -> Seq<u8> {
    bytes.take(trimmed_len(bytes) as int)
}

/// The text of a message in the output: the lossy decoding of its bytes, taken
/// without their trailing newline characters where trimming is on.
pub open spec fn message_text_of(bytes: Seq<u8>, trim: bool) -> Seq<char> {
    if trim {
        utf8_lossy_text(trim_newlines(bytes))
    } else {
        utf8_lossy_text(bytes)
    }
}

/// Trimming removes the trailing newline characters and nothing else: what is
/// left is the start of the bytes, it does not end in a newline character, and
/// every byte behind it is one.
pub proof fn trim_removes_exactly_trailing_newlines(bytes: Seq<u8>)
    ensures
        trimmed_len(bytes) <= bytes.len(),
        trim_newlines(bytes) == bytes.take(trimmed_len(bytes) as int),
        trimmed_len(bytes) == 0 || !is_newline(bytes[trimmed_len(bytes) - 1]),
        forall|i: int| trimmed_len(bytes) <= i < bytes.len() ==> is_newline(#[trigger] bytes[i]),
    decreases bytes.len(),
{
    if bytes.len() > 0 && is_newline(bytes.last()) {
        let shorter = bytes.drop_last();
        trim_removes_exactly_trailing_newlines(shorter);
        assert forall|i: int| trimmed_len(bytes) <= i < bytes.len() implies is_newline(
            #[trigger] bytes[i],
        ) by {
            if i < shorter.len() {
                assert(is_newline(shorter[i]));
            }
        }
    }
}

/// Without trimming the whole message is decoded, the newline characters at
/// its end included.
pub proof fn untrimmed_message_is_kept(bytes: Seq<u8>)
    ensures
        message_text_of(bytes, false) == utf8_lossy_text(bytes),
{
}

/// The length of `bytes` without the newline characters at its end.
pub fn trimmed_length(bytes: &[u8]) -> (n: usize)
    ensures
        n == trimmed_len(bytes@),
{
    let mut n: usize = bytes.len();
    assert(bytes@.take(n as int) =~= bytes@);
    while n > 0 && newline(bytes[n - 1])
        invariant
            n <= bytes.len(),
            trimmed_len(bytes@) == trimmed_len(bytes@.take(n as int)),
        decreases n,
    {
        assert(bytes@.take(n as int).drop_last() =~= bytes@.take(n - 1));
        n = n - 1;
    }
    n
}

/// The text of a message as it goes into the output.
pub fn message_text(message: &Vec<u8>, trim: bool) -> (text: String)
    ensures
        text@ == message_text_of(message@, trim),
{
    let bytes = message.as_slice();
    if trim {
        let n = trimmed_length(bytes);
        proof {
            trim_removes_exactly_trailing_newlines(bytes@);
            assert(bytes@.subrange(0, n as int) =~= trim_newlines(bytes@));
        }
        decode_lossy(slice_subrange(bytes, 0, n))
    } else {
        decode_lossy(bytes)
    }
}

} // verus!
