//! The core of an overlay-network node that relays onion-routed datagrams:
//! the rules of its links, sockets and stores, stated and proved.
use std::fmt::Debug;
use vstd::prelude::*;
use vstd::string::*;

pub mod cache;
pub mod channel;
pub mod crypt;
pub mod daemon;
pub mod global_rpc;
pub mod packet;
pub mod sequences;
pub mod socket;
pub mod sorting;
pub mod text;
pub mod topology;

verus! {

/// The line that reports the restart of the background loop `label` after it
/// ended with an error whose description is `detail`.
pub fn restart_message(label: &str, detail: &str) -> (line: String)
    ensures
        line@ == label@ + " restart, error: "@ + detail@,
{
    let mut line = String::from_str(label);
    line.append(" restart, error: ");
    line.append(detail);
    line
}

/// `format!` with `{:?}`: the text that the value's `Debug` impl writes.
/// Nothing is claimed of it.
#[verifier::external_body]
fn debug_text<E: Debug>(value: &E) -> String {
    format!("{:?}", value)
}

/// The line that reports the restart of the background loop `label` after it
/// ended with `error`: the label, the words ` restart, error: `, and the
/// error as its `Debug` impl writes it.
pub fn log_error<E: Debug>(label: &str, error: &E) -> (line: String)
    ensures
        (label@ + " restart, error: "@).is_prefix_of(line@),
{
    let detail = debug_text(error);
    restart_message(label, detail.as_str())
}

} // verus!
