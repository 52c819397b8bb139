//! The client's side of a file transfer: which certificate the file
//! channel pins, its pairing request, the offer, and how each answer of the
//! server is read. The caller performs the I/O and hashes the file.

use crate::addr::{format_host_port, spec_format_host_port};
use crate::client_config::{spec_client_fingerprint, Config};
use crate::client_session::{opt_view, ConnectOptions};
use crate::protocol::{pairing_proof, spec_pairing_proof, Envelope};
use crate::crypto::{random_16, sha256_digest, Sha256Stream};
use crate::server_session::copy_string;
use vstd::prelude::*;
use vstd::string::StringExecFns;

verus! {

/// Why sending a file failed.
#[derive(Debug)]
pub enum TransferError {
    /// The failure, as text.
    Failed(String),
    /// The server answered with a message that makes no sense here. The text
    /// is `context`, a colon and the message's debug form.
    Unexpected { context: String, reply: Envelope },
}

/// The fingerprint the file channel at `host:port` must present: the one
/// required by the options, else the one pinned for that address.
pub fn file_channel_pin(opts: &ConnectOptions, config: &Config, host: &str, port: u16) -> (r: Option<
    String,
>)
    requires
        config.wf(),
    ensures
        opt_view(r) == match opt_view(opts.expected_fingerprint) {
            Some(fp) => Some(fp),
            None => if config.servers().contains_key(spec_format_host_port(host@, port)) {
                Some(config.servers()[spec_format_host_port(host@, port)].fingerprint)
            } else {
                None
            },
        },
{
    match &opts.expected_fingerprint {
        Some(fp) => Some(copy_string(fp)),
        None => {
            let addr = format_host_port(host, port);
            config.known_fingerprint(addr.as_str())
        },
    }
}

/// The pairing request on the file channel: this client's fingerprint with
/// a proof for the empty PIN (the server only checks that the fingerprint
/// is paired there).
pub fn file_pair_request(config: &Config, nonce: [u8; 16]) -> (e: Envelope)
    ensures
        e matches Envelope::PairRequest { nonce: n, fingerprint, proof } && n == nonce
            && fingerprint@ == spec_client_fingerprint(config.client_secret@) && proof@
            == spec_pairing_proof(Seq::empty(), nonce@, spec_client_fingerprint(config.client_secret@)),
{
    let fingerprint = config.client_fingerprint();
    let proof = pairing_proof("", &nonce, fingerprint.as_str());
    proof {
        reveal_strlit("");
        assert(""@ =~= Seq::<char>::empty());
    }
    Envelope::PairRequest { nonce, fingerprint, proof }
}

/// The file channel's pairing request under a fresh random nonce.
pub fn fresh_file_pair_request(config: &Config) -> (e: Envelope)
    ensures
        e matches Envelope::PairRequest { nonce, fingerprint, proof }
            && fingerprint@ == spec_client_fingerprint(config.client_secret@) && proof@
            == spec_pairing_proof(Seq::empty(), nonce@, spec_client_fingerprint(config.client_secret@)),
{
    file_pair_request(config, random_16())
}

/// Reads the answer to the file channel's pairing request.
pub fn on_file_pair_reply(reply: Envelope) -> (r: Result<(), TransferError>)
    ensures
        match reply {
            Envelope::PairAccept => r is Ok,
            Envelope::PairReject { reason } => r matches Err(TransferError::Failed(t)) && t@
                == "file channel rejected: "@ + reason@,
            _ => r matches Err(TransferError::Unexpected { context, reply: e }) && context@
                == "unexpected response on file channel"@ && e == reply,
        },
{
    match reply {
        Envelope::PairAccept => Ok(()),
        Envelope::PairReject { reason } => {
            let mut t = String::from_str("file channel rejected: ");
            t.append(reason.as_str());
            Err(TransferError::Failed(t))
        },
        other => Err(
            TransferError::Unexpected { context: String::from_str("unexpected response on file channel"), reply: other },
        ),
    }
}

/// The offer of a file whose bytes were absorbed into `content` in order:
/// it carries their SHA-256.
pub fn file_offer(id: u128, name: String, size: u64, content: Sha256Stream) -> (e: Envelope)
    ensures
        e matches Envelope::FileOffer { id: i, name: n, size: s, sha256: h } && i == id && n@
            == name@ && s == size && h@ == sha256_digest(content.absorbed()),
{
    let sha256 = content.finalize();
    Envelope::FileOffer { id, name, size, sha256 }
}

/// The text of a refusal of `file_name` for `reason`.
pub open spec fn rejected_text(file_name: Seq<char>, reason: Seq<char>) -> Seq<char> {
    "server rejected file '"@ + file_name + "': "@ + reason
}

fn rejected(file_name: &str, reason: &str) -> (e: TransferError)
    ensures
        e matches TransferError::Failed(t) && t@ == rejected_text(file_name@, reason@),
{
    let mut t = String::from_str("server rejected file '");
    t.append(file_name);
    t.append("': ");
    t.append(reason);
    TransferError::Failed(t)
}

/// Reads the answer to the offer: the offset to send from.
pub fn on_offer_reply(reply: Envelope, file_name: &str) -> (r: Result<u64, TransferError>)
    ensures
        match reply {
            Envelope::FileAccept { start_offset, .. } => r == Ok::<u64, TransferError>(start_offset),
            Envelope::FileReject { reason, .. } => r matches Err(TransferError::Failed(t)) && t@
                == rejected_text(file_name@, reason@),
            _ => r matches Err(TransferError::Unexpected { context, reply: e }) && context@
                == "unexpected response from server"@ && e == reply,
        },
{
    match reply {
        Envelope::FileAccept { id: _, start_offset } => Ok(start_offset),
        Envelope::FileReject { id: _, reason } => Err(rejected(file_name, reason.as_str())),
        other => Err(
            TransferError::Unexpected { context: String::from_str("unexpected response from server"), reply: other },
        ),
    }
}

/// Reads the server's verdict once every byte was sent.
pub fn on_transfer_result(reply: Envelope, file_name: &str) -> (r: Result<(), TransferError>)
    ensures
        match reply {
            Envelope::FileComplete { .. } => r is Ok,
            Envelope::FileReject { reason, .. } => r matches Err(TransferError::Failed(t)) && t@
                == rejected_text(file_name@, reason@),
            Envelope::Error(e) => r matches Err(TransferError::Failed(t)) && t@
                == "server error during file transfer: "@ + e@,
            _ => r matches Err(TransferError::Unexpected { context, reply: e }) && context@
                == "unexpected response from server"@ && e == reply,
        },
{
    match reply {
        Envelope::FileComplete { id: _ } => Ok(()),
        Envelope::FileReject { id: _, reason } => Err(rejected(file_name, reason.as_str())),
        Envelope::Error(e) => {
            let mut t = String::from_str("server error during file transfer: ");
            t.append(e.as_str());
            Err(TransferError::Failed(t))
        },
        other => Err(
            TransferError::Unexpected { context: String::from_str("unexpected response from server"), reply: other },
        ),
    }
}

} // verus!
