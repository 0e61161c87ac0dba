//! Pure, stateless translation between a record and a flat row of scalar
//! column values, in both directions, with no I/O.
//!
//! Booleans are stored as integers (`true` as 1, any non-zero as true on the
//! way back).  An absent attachment is stored as the sentinel pair `("", 0)`;
//! on decode an attachment counts as present only when its name is non-empty
//! and its size is non-zero.

use vstd::prelude::*;

use crate::record::{collapse, file_present, pasta_wf, FileModel, Pasta, PastaFile, PastaModel};

verus! {

/// One stored row, one field per column, in the fixed column order of the
/// table schema.
#[derive(Clone, Debug, PartialEq)]
pub struct Row {
    pub id: u64,
    pub content: String,
    pub title: Option<String>,
    pub file_name: String,
    pub file_size: u64,
    pub extension: String,
    pub read_only: i64,
    pub private: i64,
    pub editable: i64,
    pub encrypt_server: i64,
    pub encrypt_client: i64,
    pub encrypted_key: Option<String>,
    pub created: i64,
    pub expiration: i64,
    pub last_read: i64,
    pub read_count: u64,
    pub burn_after_reads: u64,
    pub pasta_type: String,
}

/// Mathematical model of a row.
pub ghost struct RowModel {
    pub id: u64,
    pub content: Seq<char>,
    pub title: Option<Seq<char>>,
    pub file_name: Seq<char>,
    pub file_size: u64,
    pub extension: Seq<char>,
    pub read_only: i64,
    pub private: i64,
    pub editable: i64,
    pub encrypt_server: i64,
    pub encrypt_client: i64,
    pub encrypted_key: Option<Seq<char>>,
    pub created: i64,
    pub expiration: i64,
    pub last_read: i64,
    pub read_count: u64,
    pub burn_after_reads: u64,
    pub pasta_type: Seq<char>,
}

impl View for Row {
    type V = RowModel;

    open spec fn view(&self) -> RowModel {
        RowModel {
            id: self.id,
            content: self.content@,
            title: match self.title {
                Some(t) => Some(t@),
                None => None,
            },
            file_name: self.file_name@,
            file_size: self.file_size,
            extension: self.extension@,
            read_only: self.read_only,
            private: self.private,
            editable: self.editable,
            encrypt_server: self.encrypt_server,
            encrypt_client: self.encrypt_client,
            encrypted_key: match self.encrypted_key {
                Some(k) => Some(k@),
                None => None,
            },
            created: self.created,
            expiration: self.expiration,
            last_read: self.last_read,
            read_count: self.read_count,
            burn_after_reads: self.burn_after_reads,
            pasta_type: self.pasta_type@,
        }
    }
}

/// How a boolean is stored in an integer column.
pub open spec fn bool_col(b: bool) -> i64 {
    if b {
        1
    } else {
        0
    }
}

/// The row that encoding a record produces.
pub open spec fn encode_model(p: PastaModel) -> RowModel {
    RowModel {
        id: p.id,
        content: p.content,
        title: p.title,
        file_name: match p.file {
            Some(f) => f.name,
            None => Seq::<char>::empty(),
        },
        file_size: match p.file {
            Some(f) => f.size,
            None => 0,
        },
        extension: p.extension,
        read_only: bool_col(p.readonly),
        private: bool_col(p.private),
        editable: bool_col(p.editable),
        encrypt_server: bool_col(p.encrypt_server),
        encrypt_client: bool_col(p.encrypt_client),
        encrypted_key: p.encrypted_key,
        created: p.created,
        expiration: p.expiration,
        last_read: p.last_read,
        read_count: p.read_count,
        burn_after_reads: p.burn_after_reads,
        pasta_type: p.pasta_type,
    }
}

/// The record that decoding a row produces.  The attachment is present only
/// when the stored name is non-empty and the stored size is non-zero; a
/// stored integer flag is true exactly when it is non-zero.
pub open spec fn decode_model(r: RowModel) -> PastaModel {
    PastaModel {
        id: r.id,
        content: r.content,
        title: r.title,
        file: if r.file_name.len() > 0 && r.file_size > 0 {
            Some(FileModel { name: r.file_name, size: r.file_size })
        } else {
            None
        },
        extension: r.extension,
        readonly: r.read_only != 0,
        private: r.private != 0,
        editable: r.editable != 0,
        encrypt_server: r.encrypt_server != 0,
        encrypt_client: r.encrypt_client != 0,
        encrypted_key: r.encrypted_key,
        created: r.created,
        expiration: r.expiration,
        last_read: r.last_read,
        read_count: r.read_count,
        burn_after_reads: r.burn_after_reads,
        pasta_type: r.pasta_type,
    }
}

/// Decoding an encoded record gives the record back, except that a partial
/// attachment (empty name or zero size) collapses to absent.
pub proof fn lemma_decode_encode(p: PastaModel)
    ensures
        decode_model(encode_model(p)) == collapse(p),
{
    if file_present(p.file) {
        assert(decode_model(encode_model(p)) == p);
    } else {
        assert(decode_model(encode_model(p)) == PastaModel { file: None, ..p });
    }
}

/// A well-formed record survives the codec round trip unchanged.
pub proof fn lemma_decode_encode_wf(p: PastaModel)
    requires
        pasta_wf(p),
    ensures
        decode_model(encode_model(p)) == p,
{
    lemma_decode_encode(p);
}

/// Encode a record into a row, booleans as 0/1 and an absent attachment as
/// the sentinel pair `("", 0)`.
pub fn encode(p: &Pasta) -> (r: Row)
    ensures
        r@ == encode_model(p@),
{
    let (file_name, file_size): (String, u64) = match &p.file {
        Some(f) => (f.name.clone(), f.size),
        None => (String::new(), 0u64),
    };
    let r = Row {
        id: p.id,
        content: p.content.clone(),
        title: clone_opt_string(&p.title),
        file_name,
        file_size,
        extension: p.extension.clone(),
        read_only: if p.readonly {
            1
        } else {
            0
        },
        private: if p.private {
            1
        } else {
            0
        },
        editable: if p.editable {
            1
        } else {
            0
        },
        encrypt_server: if p.encrypt_server {
            1
        } else {
            0
        },
        encrypt_client: if p.encrypt_client {
            1
        } else {
            0
        },
        encrypted_key: clone_opt_string(&p.encrypted_key),
        created: p.created,
        expiration: p.expiration,
        last_read: p.last_read,
        read_count: p.read_count,
        burn_after_reads: p.burn_after_reads,
        pasta_type: p.pasta_type.clone(),
    };
    r
}

/// Decode a row into a record, non-zero integers as true and the attachment
/// present only when its name is non-empty and its size is non-zero.
pub fn decode(r: &Row) -> (p: Pasta)
    ensures
        p@ == decode_model(r@),
{
    let file: Option<PastaFile> = if !r.file_name.as_str().is_empty() && r.file_size > 0 {
        Some(PastaFile { name: r.file_name.clone(), size: r.file_size })
    } else {
        None
    };
    let p = Pasta {
        id: r.id,
        content: r.content.clone(),
        title: clone_opt_string(&r.title),
        file,
        extension: r.extension.clone(),
        readonly: r.read_only != 0,
        private: r.private != 0,
        editable: r.editable != 0,
        encrypt_server: r.encrypt_server != 0,
        encrypt_client: r.encrypt_client != 0,
        encrypted_key: clone_opt_string(&r.encrypted_key),
        created: r.created,
        expiration: r.expiration,
        last_read: r.last_read,
        read_count: r.read_count,
        burn_after_reads: r.burn_after_reads,
        pasta_type: r.pasta_type.clone(),
    };
    p
}

/// Copy an optional text field.
fn clone_opt_string(s: &Option<String>) -> (r: Option<String>)
    ensures
        r is Some <==> s is Some,
        r is Some ==> r->0 == s->0,
{
    match s {
        Some(t) => Some(t.clone()),
        None => None,
    }
}

} // verus!
