//! The host's side: the bridge between the clients and the enclave.
//!
//! The host owns no secret. It takes one frame from a client, hands it to the
//! enclave in two pieces, the length and then the rest, waits for the one
//! answer and passes it back. The enclave reaches the host by connecting to a
//! name that is no network address. This module holds what the bridge
//! decides; the channels and the threads are the caller's.

use crate::error::{is_error, Error, ErrorKind};
use crate::protocol::{frame_fault, parse_frame, take_frame, LEN_INFO_LEN};
use crate::wire::{lemma_parse_fixed_splits, take_fixed, to_vec};
use vstd::prelude::*;

verus! {

/// The name under which the enclave connects to the host: `sgx`.
pub fn enclave_address() -> (addr: &'static str)
    ensures
        addr@ == "sgx"@,
{
    "sgx"
}

/// Whether `addr` is the name under which the enclave connects to the host.
/// Any other address is left to the network.
pub fn is_enclave_address(addr: &str) -> (b: bool)
    ensures
        b == (addr@ == "sgx"@),
{
    let given = String::from_str(addr);
    let name = String::from_str(enclave_address());
    given == name
}

/// Whether `data` is exactly one frame.
pub open spec fn is_one_frame(data: Seq<u8>) -> bool {
    parse_frame(data) matches Some((_, rest)) && rest.len() == 0
}

/// Why `data` is not exactly one frame, where it is not: it does not start
/// with a frame, or there is more behind the frame.
pub open spec fn one_frame_fault(data: Seq<u8>) -> Seq<char> {
    if parse_frame(data) is None {
        frame_fault(data)
    } else {
        "data behind the frame"@
    }
}

/// Splits the frame of a client into the two pieces in which it goes to the
/// enclave: the eight bytes of the length, and what the frame carries.
/// Anything but exactly one frame is refused, so that the enclave is never
/// left waiting for bytes that do not come.
pub fn split_frame(data: &[u8]) -> (r: Result<(Vec<u8>, Vec<u8>), Error>)
    ensures
        match r {
            Ok((len_info, body)) => is_one_frame(data@) && len_info@.len() == LEN_INFO_LEN
                && len_info@ + body@ == data@ && parse_frame(data@) == Some(
                (body@, Seq::<u8>::empty()),
            ),
            Err(e) => !is_one_frame(data@) && is_error(
                e,
                ErrorKind::Protocol,
                one_frame_fault(data@),
            ),
        },
{
    if data.len() == 0 {
        return Err(Error::protocol("incomplete length"));
    }
    let (body, rest) = match take_frame(data) {
        Ok(x) => x,
        Err(e) => {
            return Err(e);
        },
    };
    if rest.len() > 0 {
        return Err(Error::protocol("data behind the frame"));
    }
    let (len_info, carried) = match take_fixed(data, LEN_INFO_LEN) {
        Some(x) => x,
        None => {
            return Err(Error::protocol("incomplete length"));
        },
    };
    proof {
        lemma_parse_fixed_splits(data@, LEN_INFO_LEN as nat);
        lemma_parse_fixed_splits(carried@, body@.len());
        assert(body@ + rest@ =~= body@);
    }
    Ok((to_vec(len_info), to_vec(body)))
}

/// What a read of the enclave returns, given what the channel from the host
/// delivered: the piece, which must have the size that the enclave asked for,
/// or no bytes at all when the channel is closed, which tells the enclave
/// that the stream has ended.
pub fn bridge_read(wanted: usize, piece: Option<Vec<u8>>) -> (r: Result<Vec<u8>, Error>)
    ensures
        match piece {
            None => r matches Ok(bytes) && bytes@.len() == 0,
            Some(data) => if data@.len() == wanted {
                r matches Ok(bytes) && bytes@ == data@
            } else {
                r matches Err(e) && is_error(e, ErrorKind::Protocol, "read size mismatch"@)
            },
        },
{
    match piece {
        None => Ok(Vec::new()),
        Some(data) => {
            if data.len() == wanted {
                Ok(data)
            } else {
                Err(Error::protocol("read size mismatch"))
            }
        },
    }
}

} // verus!
