//! The commands of the forced-inclusion toolbox and their options, as plain
//! values.

use vstd::prelude::*;

verus! {

/// The protocol fork whose contracts a command talks to.
#[derive(Clone, Copy, Debug)]
pub enum Fork {
    Pacaya,
    Shasta,
}

/// Options for the send command.
#[derive(Debug, Clone, Copy)]
pub struct SendCmdOptions {
    /// How far past the account's pending nonce the transaction's nonce is
    /// set. Zero leaves the nonce to the provider.
    pub nonce_delta: u64,
}

/// Options for the spam command.
#[derive(Debug, Clone, Copy)]
pub struct SpamCmdOptions {
    /// Seconds to wait between two forced-inclusion transactions.
    pub interval_secs: u64,
}

/// Command to execute.
#[derive(Debug)]
pub enum Cmd {
    /// Read the forced-inclusion queue from the contract.
    ReadQueue,
    /// Monitor the forced-inclusion queue.
    MonitorQueue,
    /// Send a forced-inclusion transaction.
    Send(SendCmdOptions),
    /// Send forced-inclusion transactions in a loop.
    Spam(SpamCmdOptions),
}

impl Default for SendCmdOptions {
    fn default() -> (opts: Self)
        ensures
            opts.nonce_delta == 0,
    {
        SendCmdOptions { nonce_delta: 0 }
    }
}

impl Default for SpamCmdOptions {
    fn default() -> (opts: Self)
        ensures
            opts.interval_secs == 0,
    {
        SpamCmdOptions { interval_secs: 0 }
    }
}

impl SendCmdOptions {
    /// The nonce to set on the transaction, given the account's pending nonce:
    /// none where the delta is zero, so that the provider fills it in, and
    /// `pending_nonce + nonce_delta` otherwise. Where that sum does not fit in
    /// 64 bits there is no nonce to set either.
    pub fn nonce(&self, pending_nonce: u64) -> (nonce: Option<u64>)
        ensures
            nonce == if self.nonce_delta > 0 && pending_nonce + self.nonce_delta <= u64::MAX {
                Some((pending_nonce + self.nonce_delta) as u64)
            } else {
                None
            },
    {
        if self.nonce_delta > 0 {
            pending_nonce.checked_add(self.nonce_delta)
        } else {
            None
        }
    }
}

} // verus!
