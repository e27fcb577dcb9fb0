use vstd::prelude::*;

verus! {

/// Who wrote or committed a change, and when (seconds since the Unix epoch).
#[derive(Clone, Debug)]
pub struct Signature {
    pub name: String,
    pub email: String,
    pub seconds: i64,
}

/// One visited commit, decoded from the repository's object store.
#[derive(Clone, Debug)]
pub struct CommitRecord {
    pub id: String,
    pub message: Vec<u8>,
    pub author: Signature,
    pub committer: Signature,
    pub parents: Vec<String>,
}

/// A name, an e-mail address and a timestamp, as they stand in a row.
pub type PersonCells = (Seq<char>, Seq<char>, i64);

/// One output row: hash, message text, author, committer, parent hashes.
pub type Row = (Seq<char>, Seq<char>, PersonCells, PersonCells, Seq<Seq<char>>);

impl Signature {
    pub open spec fn cells(&self) -> PersonCells {
        (self.name@, self.email@, self.seconds)
    }
}

/// The texts of a list of strings, in their order.
pub open spec fn texts_of(strings: Seq<String>) -> Seq<Seq<char>> {
    Seq::new(strings.len(), |i: int| strings[i]@)
}

/// The number of bytes that a text takes as UTF-8.
pub open spec fn text_bytes(text: Seq<char>) -> nat {
    vstd::utf8::encode_utf8(text).len()
}

/// A text takes at most four bytes for each of its characters.
pub proof fn text_bytes_bound(text: Seq<char>)
    ensures
        text_bytes(text) <= 4 * text.len(),
    decreases text.len(),
{
    if text.len() > 0 {
        text_bytes_bound(text.drop_first());
    }
}

/// The number of bytes that the texts of a list take together.
pub open spec fn list_bytes(texts: Seq<Seq<char>>) -> nat
    decreases texts.len(),
{
    if texts.len() == 0 {
        0
    } else {
        list_bytes(texts.drop_last()) + text_bytes(texts.last())
    }
}

} // verus!
