//! Outside types that this crate carries without looking inside.
use vstd::prelude::*;

verus! {

/// `std::io::Error`, carried as the cause of I/O and disconnect errors.
#[verifier::external_type_specification]
#[verifier::external_body]
pub struct ExIoError(std::io::Error);

/// `tokio::task::JoinError`, carried as the cause of a failed task.
#[verifier::external_type_specification]
#[verifier::external_body]
pub struct ExJoinError(tokio::task::JoinError);

/// `rmp_serde::encode::Error`, carried as the cause of a failed typed encoding.
#[verifier::external_type_specification]
#[verifier::external_body]
pub struct ExSerdeEncodeError(rmp_serde::encode::Error);

/// `rmp_serde::decode::Error`, carried as the cause of a failed typed decoding.
#[verifier::external_type_specification]
#[verifier::external_body]
pub struct ExSerdeDecodeError(rmp_serde::decode::Error);

/// `bytes::BytesMut`, a growable buffer of bytes.
#[verifier::external_type_specification]
#[verifier::external_body]
pub struct ExBytesMut(bytes::BytesMut);

} // verus!
