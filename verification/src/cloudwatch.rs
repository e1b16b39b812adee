use vstd::prelude::*;

use crate::configuration::Configuration;

verus! {

/// What the client reads of one log stream the service described: its name
/// and the sequence token the next append must carry.
#[derive(Clone, Debug, PartialEq)]
pub struct LogStreamInfo {
    pub log_stream_name: Option<String>,
    pub upload_sequence_token: Option<String>,
}

/// The stream picked out of a lookup's reply: the first stream listed, and
/// only when it carries exactly the wanted name. The service matches stream
/// names by prefix, so a listing may well start with some other stream; such
/// a listing yields nothing.
pub open spec fn spec_select_log_stream(
    log_streams: Option<Vec<LogStreamInfo>>,
    wanted: Seq<char>,
) -> Option<LogStreamInfo> {
    match log_streams {
        Some(streams) => {
            if streams@.len() > 0 {
                match streams@[0].log_stream_name {
                    Some(name) => {
                        if name@ == wanted {
                            Some(streams@[0])
                        } else {
                            None
                        }
                    },
                    None => None,
                }
            } else {
                None
            }
        },
        None => None,
    }
}

/// Picks the wanted stream out of a lookup's reply, exactly as
/// `spec_select_log_stream` states it.
pub fn select_log_stream(
    log_streams: Option<Vec<LogStreamInfo>>,
    wanted: &String,
) -> (r: Option<LogStreamInfo>)
    ensures
        r == spec_select_log_stream(log_streams, wanted@),
{
    match log_streams {
        Some(mut streams) => {
            if streams.len() > 0 {
                let ls = streams.remove(0);
                let name_matches = match &ls.log_stream_name {
                    Some(name) => *name == *wanted,
                    None => false,
                };
                if name_matches {
                    Some(ls)
                } else {
                    None
                }
            } else {
                None
            }
        },
        None => None,
    }
}

/// The token a resync run ends with: the looked-up stream's current token
/// when the stream was found (itself possibly absent), absent otherwise.
pub open spec fn resync_token_of(looked_up: Option<LogStreamInfo>) -> Option<String> {
    match looked_up {
        Some(ls) => ls.upload_sequence_token,
        None => None,
    }
}

/// Owns the destination identity and the sequence token that the next
/// append must carry. The remote calls themselves — looking a stream up,
/// creating it, appending — happen outside; this state absorbs their
/// results.
pub struct SequencedAppendClient {
    pub conf: Configuration,
    pub sequence_token: Option<String>,
}

/// The whole client state after a resync: the held token is replaced by the
/// lookup's result and nothing else changes.
pub open spec fn client_after_resync(
    c: SequencedAppendClient,
    looked_up: Option<LogStreamInfo>,
) -> SequencedAppendClient {
    SequencedAppendClient { conf: c.conf, sequence_token: resync_token_of(looked_up) }
}

impl SequencedAppendClient {
    /// A client that has not resolved a token yet; construction follows up
    /// with a lookup absorbed through `resync`.
    pub fn new(conf: Configuration) -> (c: SequencedAppendClient)
        ensures
            c.conf == conf,
            c.sequence_token is None,
    {
        SequencedAppendClient { conf, sequence_token: None }
    }

    /// Absorbs a successful append's reply. The server's next token replaces
    /// the held one; a reply that omits it leaves the now-stale token in
    /// place and reports it missing, so the caller can warn — the following
    /// append will likely fail and recover through `resync`.
    pub fn on_append_success(&mut self, next_sequence_token: Option<String>) -> (token_missing:
        bool)
        ensures
            final(self).conf == old(self).conf,
            (match next_sequence_token {
                Some(t) => final(self).sequence_token == Some(t) && !token_missing,
                None => final(self).sequence_token == old(self).sequence_token && token_missing,
            }),
    {
        match next_sequence_token {
            Some(t) => {
                self.sequence_token = Some(t);
                false
            },
            None => true,
        }
    }

    /// Absorbs a fresh stream lookup, run at construction and again after
    /// every failed append: the held token — possibly stale — is discarded
    /// and replaced by whatever the lookup yielded.
    pub fn resync(&mut self, looked_up: Option<LogStreamInfo>)
        ensures
            *final(self) == client_after_resync(*old(self), looked_up),
    {
        self.sequence_token = match looked_up {
            Some(ls) => ls.upload_sequence_token,
            None => None,
        };
    }
}

/// After a failed append the token held for the next append comes from the
/// fresh lookup alone: two clients for the same destination, whatever stale
/// tokens they held, agree after absorbing the same lookup.
pub proof fn lemma_resync_ignores_stale_token(
    c1: SequencedAppendClient,
    c2: SequencedAppendClient,
    looked_up: Option<LogStreamInfo>,
)
    requires
        c1.conf == c2.conf,
    ensures
        client_after_resync(c1, looked_up) == client_after_resync(c2, looked_up),
        client_after_resync(c1, looked_up).sequence_token == resync_token_of(looked_up),
{
}

} // verus!
