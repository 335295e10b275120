//! What the repository engine hands over when it has resolved a query.

use crate::graph::{id_views, CommitId};
use vstd::prelude::*;
use vstd::string::*;

verus! {

/// Why a query could not be resolved.
#[derive(Debug)]
pub enum RevsetError {
    /// The query is malformed; the text says where and why.
    ParseError(String),
}

impl RevsetError {
    /// The text that is shown for this error.
    pub open spec fn spec_message(self) -> Seq<char> {
        match self {
            RevsetError::ParseError(detail) => "Failed to parse revset: "@ + detail@,
        }
    }

    /// The text that is shown for this error.
    pub fn message(&self) -> (text: String)
        ensures
            text@ == self.spec_message(),
    {
        match self {
            RevsetError::ParseError(detail) => {
                let mut text = "Failed to parse revset: ".to_owned();
                text.append(detail.as_str());
                text
            },
        }
    }
}

/// The digits of the change-id notation: `z` stands for 0, `y` for 1, and so
/// on down to `k` for 15.
pub open spec fn reverse_hex_digits() -> Seq<char> {
    seq!['z', 'y', 'x', 'w', 'v', 'u', 't', 's', 'r', 'q', 'p', 'o', 'n', 'm', 'l', 'k']
}

/// How a change identifier is written: two digits for each byte, the upper
/// half of the byte first.
pub open spec fn reverse_hex(bytes: Seq<u8>) -> Seq<char> {
    Seq::new(
        2 * bytes.len(),
        |i: int|
            if i % 2 == 0 {
                reverse_hex_digits()[bytes[i / 2] as int / 16]
            } else {
                reverse_hex_digits()[bytes[i / 2] as int % 16]
            },
    )
}

/// `jj_lib::hex_util::encode_reverse_hex` writes each byte of `data` as two
/// characters, the one for the upper four bits before the one for the lower
/// four, and takes the character of a value from the table `zyxwvutsrqponmlk`.
/// It is how the repository shows a change identifier. Not proved here: the
/// encoder is the repository library's own.
pub assume_specification[ jj_lib::hex_util::encode_reverse_hex ](data: &[u8]) -> (text: String)
    ensures
        text@ == reverse_hex(data@),
;

/// What a [`Revision`] holds, as mathematical values.
pub struct RevisionView {
    pub id: Seq<u8>,
    pub change_id: Seq<u8>,
    pub prefix_len: nat,
    pub parents: Seq<Seq<u8>>,
}

/// One commit of an evaluated query, with what is needed to display it.
#[derive(Debug)]
pub struct Revision {
    /// The commit.
    pub id: CommitId,
    /// The change identifier of the commit.
    pub change_id: Vec<u8>,
    /// How many characters of the written change identifier tell it apart
    /// from all others.
    pub prefix_len: usize,
    /// The parents of the commit, in the order of the engine.
    pub parents: Vec<CommitId>,
}

impl View for Revision {
    type V = RevisionView;

    open spec fn view(&self) -> RevisionView {
        RevisionView {
            id: self.id@,
            change_id: self.change_id@,
            prefix_len: self.prefix_len as nat,
            parents: id_views(self.parents@),
        }
    }
}

/// The view of one fetched item: a revision, or the text of the engine's error.
pub open spec fn fetched_view(item: Result<Revision, String>) -> Result<RevisionView, Seq<char>> {
    match item {
        Ok(revision) => Ok(revision@),
        Err(message) => Err(message@),
    }
}

/// The views of `items`, in order.
pub open spec fn fetched_views(items: Seq<Result<Revision, String>>) -> Seq<
    Result<RevisionView, Seq<char>>,
> {
    Seq::new(items.len(), |i: int| fetched_view(items[i]))
}

} // verus!
