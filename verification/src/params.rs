//! Command-line parameters for choosing a signer backend, and the keystore
//! configuration assembled from them.

use vstd::prelude::*;

verus! {

/// Which key-holder backend a node runs: the local on-disk store, a client
/// of a remote signing service, or the server side of one.
#[derive(Clone, Copy, PartialEq, Eq, Debug)]
pub enum SignerType {
    Local,
    RemoteClient,
    RemoteServer,
}

/// Keystore configuration handed to the service: the backend kind, the
/// remote host (for a remote client), and the port (to connect to for a
/// remote client, to listen on for a remote server).
pub struct SignerConfig {
    pub signer_type: SignerType,
    pub host: Option<String>,
    pub port: Option<u32>,
}

/// Parameters of the signer.
pub struct SignerParams {
    /// The type of signer.
    pub signer_type: SignerType,
    /// Signer host, only applicable for the remote-client signer type.
    pub signer_host: Option<String>,
    /// Signer port: the port to connect to for a remote client, the port to
    /// listen on for a remote server.
    pub signer_port: Option<u32>,
}

impl SignerParams {
    /// Get the keystore configuration for the parameters: every parameter
    /// is carried over unchanged, and no parameter combination is rejected.
    pub fn signer_config(&self) -> (r: Result<SignerConfig, ()>)
        ensures
            (match r {
                Ok(config) => {
                    &&& config.signer_type == self.signer_type
                    &&& (match (config.host, self.signer_host) {
                        (Some(have), Some(want)) => have@ == want@,
                        (None, None) => true,
                        _ => false,
                    })
                    &&& config.port == self.signer_port
                },
                Err(..) => false,
            }),
    {
        let host = match &self.signer_host {
            Some(name) => Some(name.clone()),
            None => None,
        };
        Ok(SignerConfig { signer_type: self.signer_type, host, port: self.signer_port })
    }
}

} // verus!
