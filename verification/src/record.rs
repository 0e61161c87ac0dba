//! The stored record type and its invariant.

use vstd::prelude::*;

verus! {

/// The optional file-like payload of a record: a file name and a size in
/// bytes.  At the storage boundary an absent payload is encoded as the
/// sentinel pair `("", 0)`, so a well-formed present payload has a non-empty
/// name and a non-zero size.
#[derive(Clone, Debug, PartialEq)]
pub struct PastaFile {
    pub name: String,
    pub size: u64,
}

/// One paste record, the unit of storage.
#[derive(Clone, Debug, PartialEq)]
pub struct Pasta {
    /// Unique identifier; primary key of the stored row.
    pub id: u64,
    /// Mandatory text body.
    pub content: String,
    /// Optional text, stored as a nullable column.
    pub title: Option<String>,
    /// Optional attachment; see [`PastaFile`].
    pub file: Option<PastaFile>,
    /// Mandatory file type tag.
    pub extension: String,
    pub readonly: bool,
    pub private: bool,
    pub editable: bool,
    pub encrypt_server: bool,
    pub encrypt_client: bool,
    /// Optional text, present only when server-side encryption is active.
    pub encrypted_key: Option<String>,
    pub created: i64,
    pub expiration: i64,
    pub last_read: i64,
    pub read_count: u64,
    pub burn_after_reads: u64,
    /// Mandatory discriminator, opaque to the storage layer.
    pub pasta_type: String,
}

/// Mathematical model of an attachment.
pub ghost struct FileModel {
    pub name: Seq<char>,
    pub size: u64,
}

/// Mathematical model of a record: every text field as a sequence of
/// characters, everything else as a plain scalar.
pub ghost struct PastaModel {
    pub id: u64,
    pub content: Seq<char>,
    pub title: Option<Seq<char>>,
    pub file: Option<FileModel>,
    pub extension: Seq<char>,
    pub readonly: bool,
    pub private: bool,
    pub editable: bool,
    pub encrypt_server: bool,
    pub encrypt_client: bool,
    pub encrypted_key: Option<Seq<char>>,
    pub created: i64,
    pub expiration: i64,
    pub last_read: i64,
    pub read_count: u64,
    pub burn_after_reads: u64,
    pub pasta_type: Seq<char>,
}

impl View for PastaFile {
    type V = FileModel;

    open spec fn view(&self) -> FileModel {
        FileModel { name: self.name@, size: self.size }
    }
}

impl View for Pasta {
    type V = PastaModel;

    open spec fn view(&self) -> PastaModel {
        PastaModel {
            id: self.id,
            content: self.content@,
            title: match self.title {
                Some(t) => Some(t@),
                None => None,
            },
            file: match self.file {
                Some(f) => Some(f@),
                None => None,
            },
            extension: self.extension@,
            readonly: self.readonly,
            private: self.private,
            editable: self.editable,
            encrypt_server: self.encrypt_server,
            encrypt_client: self.encrypt_client,
            encrypted_key: match self.encrypted_key {
                Some(k) => Some(k@),
                None => None,
            },
            created: self.created,
            expiration: self.expiration,
            last_read: self.last_read,
            read_count: self.read_count,
            burn_after_reads: self.burn_after_reads,
            pasta_type: self.pasta_type@,
        }
    }
}

/// An attachment survives storage only when it is fully present: non-empty
/// name and non-zero size.
pub open spec fn file_present(f: Option<FileModel>) -> bool {
    match f {
        Some(fm) => fm.name.len() > 0 && fm.size > 0,
        None => false,
    }
}

/// A record is well formed when its attachment is fully absent or fully
/// present.  Only well-formed records survive a storage round trip unchanged.
pub open spec fn pasta_wf(p: PastaModel) -> bool {
    match p.file {
        Some(fm) => fm.name.len() > 0 && fm.size > 0,
        None => true,
    }
}

/// What a record becomes after one storage round trip: an attachment with an
/// empty name or a zero size collapses to absent, everything else is kept.
pub open spec fn collapse(p: PastaModel) -> PastaModel {
    if file_present(p.file) {
        p
    } else {
        PastaModel { file: None, ..p }
    }
}

/// A well-formed record is unchanged by [`collapse`].
pub proof fn lemma_collapse_wf(p: PastaModel)
    requires
        pasta_wf(p),
    ensures
        collapse(p) == p,
{
}

/// The failures of the storage layer, as the unverified adapter reports them
/// and as the table model produces them.
#[derive(Clone, Copy, Debug, PartialEq, Eq, Structural)]
pub enum StoreError {
    /// The database file could not be opened or created.
    Connection,
    /// The table could not be created, inspected or altered.
    Schema,
    /// An insert collided with an existing primary key.
    Constraint,
    /// A stored row could not be mapped back to a record.
    Decode,
}

} // verus!
