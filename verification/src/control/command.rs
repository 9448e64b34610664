//! The control plane's commands: flush cache by bucket or by auth
//! scope, ping, change a connection's shard context, quit. Each
//! command is independent; the shard context is the only state, and
//! it belongs to one connection alone. `dispatch_line` reads one line
//! of the protocol; reading lines off the wire is the host program's
//! part.

use vstd::prelude::*;

use crate::cache::route::{auth_mask_of, bucket_mask_of, tag_key_of, CacheRoute};
use crate::cache::store::{spec_purged, spec_unchanged, CachePurgeVariant, CacheStore};
use crate::text::{all_dec_digits, dec_val, next_token, parse_u8, spec_token_at, str_eq};

verus! {

/// The shard context of one control connection.
pub type ControlShard = u8;

/// Longest command name, in characters.
pub const COMMAND_SIZE: usize = 11;

/// The single-token replies of the control protocol.
#[derive(Clone, Copy, Debug, PartialEq, Eq, Structural)]
pub enum ControlCommandResponse {
    Void,
    Nil,
    Okay,
    Pong,
    Ended,
}

pub struct ControlCommand;

/// The command named by a protocol line: its first token.
pub open spec fn spec_command_of(line: Seq<char>) -> Seq<char> {
    spec_token_at(line, 0).0
}

/// The argument of a protocol line: its second token.
pub open spec fn spec_argument_of(line: Seq<char>) -> Seq<char> {
    spec_token_at(line, spec_token_at(line, 0).1).0
}

/// Whether an argument parses as a shard number.
pub open spec fn spec_shard_arg_ok(arg: Seq<char>) -> bool {
    arg.len() > 0 && all_dec_digits(arg) && dec_val(arg) <= u8::MAX
}

impl ControlCommandResponse {
    /// The reply's wire form.
    pub open spec fn str_of(self) -> Seq<char> {
        match self {
            ControlCommandResponse::Void => ""@,
            ControlCommandResponse::Nil => "NIL"@,
            ControlCommandResponse::Okay => "OK"@,
            ControlCommandResponse::Pong => "PONG"@,
            ControlCommandResponse::Ended => "ENDED quit"@,
        }
    }

    pub fn to_str(&self) -> (r: &'static str)
        ensures
            r@ == self.str_of(),
    {
        match self {
            ControlCommandResponse::Void => "",
            ControlCommandResponse::Nil => "NIL",
            ControlCommandResponse::Okay => "OK",
            ControlCommandResponse::Pong => "PONG",
            ControlCommandResponse::Ended => "ENDED quit",
        }
    }
}

impl ControlCommand {
    /// Dispatches one line: the first token names the command, the
    /// second is its argument. An unknown or empty command is
    /// answered `NIL` and changes nothing; only `QUIT` ends the
    /// session.
    pub fn dispatch_line(store: &mut CacheStore, shard: &mut ControlShard, line: &str) -> (r:
        ControlCommandResponse)
        requires
            old(store).wf(),
        ensures
            final(store).wf(),
            ({
                let cmd = spec_command_of(line@);
                let arg = spec_argument_of(line@);
                &&& (cmd == "FLUSHBUCKET"@ ==> *final(shard) == *old(shard) && (if arg.len() == 0 {
                    r == ControlCommandResponse::Nil && spec_unchanged(*old(store), *final(store))
                } else {
                    r == ControlCommandResponse::Okay && spec_purged(
                        *old(store),
                        *final(store),
                        tag_key_of(*old(shard), bucket_mask_of(arg)),
                    )
                }))
                &&& (cmd == "FLUSHAUTH"@ ==> *final(shard) == *old(shard) && (if arg.len() == 0 {
                    r == ControlCommandResponse::Nil && spec_unchanged(*old(store), *final(store))
                } else {
                    r == ControlCommandResponse::Okay && spec_purged(
                        *old(store),
                        *final(store),
                        tag_key_of(*old(shard), auth_mask_of(arg)),
                    )
                }))
                &&& (cmd == "PING"@ ==> r == ControlCommandResponse::Pong && *final(shard)
                    == *old(shard) && spec_unchanged(*old(store), *final(store)))
                &&& (cmd == "SHARD"@ ==> spec_unchanged(*old(store), *final(store)) && (
                if spec_shard_arg_ok(arg) {
                    r == ControlCommandResponse::Okay && *final(shard) == dec_val(arg)
                } else {
                    r == ControlCommandResponse::Nil && *final(shard) == *old(shard)
                }))
                &&& (cmd == "QUIT"@ ==> r == ControlCommandResponse::Ended && *final(shard)
                    == *old(shard) && spec_unchanged(*old(store), *final(store)))
                &&& (!(cmd == "FLUSHBUCKET"@ || cmd == "FLUSHAUTH"@ || cmd == "PING"@ || cmd
                    == "SHARD"@ || cmd == "QUIT"@) ==> r == ControlCommandResponse::Nil
                    && *final(shard) == *old(shard) && spec_unchanged(*old(store), *final(store)))
            }),
    {
        let (command, after) = next_token(line, 0);
        let (argument, _rest) = next_token(line, after);
        proof {
            reveal_strlit("FLUSHBUCKET");
            reveal_strlit("FLUSHAUTH");
            reveal_strlit("PING");
            reveal_strlit("SHARD");
            reveal_strlit("QUIT");
            assert("PING"@[0] != "QUIT"@[0]);
            assert("PING"@ != "QUIT"@);
        }
        if command.as_str().unicode_len() > COMMAND_SIZE {
            return ControlCommandResponse::Nil;
        }
        if str_eq(command.as_str(), "FLUSHBUCKET") {
            Self::dispatch_flush_bucket(store, shard, argument.as_str())
        } else if str_eq(command.as_str(), "FLUSHAUTH") {
            Self::dispatch_flush_auth(store, shard, argument.as_str())
        } else if str_eq(command.as_str(), "PING") {
            Self::dispatch_ping()
        } else if str_eq(command.as_str(), "SHARD") {
            Self::dispatch_shard(shard, argument.as_str())
        } else if str_eq(command.as_str(), "QUIT") {
            Self::dispatch_quit()
        } else {
            ControlCommandResponse::Nil
        }
    }

    /// Flushes every cache entry registered under a bucket tag in the
    /// connection's shard. An empty bucket name is answered `NIL` and
    /// touches nothing; otherwise the purge runs and is acknowledged
    /// `OK`, also when the tag had no registered entries.
    pub fn dispatch_flush_bucket(store: &mut CacheStore, shard: &ControlShard, bucket: &str) -> (r:
        ControlCommandResponse)
        requires
            old(store).wf(),
        ensures
            final(store).wf(),
            bucket@.len() == 0 ==> r == ControlCommandResponse::Nil && spec_unchanged(
                *old(store),
                *final(store),
            ),
            bucket@.len() > 0 ==> r == ControlCommandResponse::Okay && spec_purged(
                *old(store),
                *final(store),
                tag_key_of(*shard, bucket_mask_of(bucket@)),
            ),
    {
        if bucket.unicode_len() == 0 {
            return ControlCommandResponse::Nil;
        }
        let (bucket_key, _mask) = CacheRoute::gen_key_bucket_from_hash(*shard, bucket);
        Self::proceed_flush(store, CachePurgeVariant::Bucket, *shard, bucket_key.as_str())
    }

    /// Flushes every cache entry registered under an auth-scope tag in
    /// the connection's shard, with the same replies as the bucket
    /// flush.
    pub fn dispatch_flush_auth(store: &mut CacheStore, shard: &ControlShard, auth: &str) -> (r:
        ControlCommandResponse)
        requires
            old(store).wf(),
        ensures
            final(store).wf(),
            auth@.len() == 0 ==> r == ControlCommandResponse::Nil && spec_unchanged(
                *old(store),
                *final(store),
            ),
            auth@.len() > 0 ==> r == ControlCommandResponse::Okay && spec_purged(
                *old(store),
                *final(store),
                tag_key_of(*shard, auth_mask_of(auth@)),
            ),
    {
        if auth.unicode_len() == 0 {
            return ControlCommandResponse::Nil;
        }
        let (auth_key, _mask) = CacheRoute::gen_key_auth_from_hash(*shard, auth);
        Self::proceed_flush(store, CachePurgeVariant::Auth, *shard, auth_key.as_str())
    }

    /// Acknowledges a ping.
    pub fn dispatch_ping() -> (r: ControlCommandResponse)
        ensures
            r == ControlCommandResponse::Pong,
    {
        ControlCommandResponse::Pong
    }

    /// Changes the connection's shard context. An argument that does
    /// not parse as a small number leaves the context untouched and is
    /// answered `NIL` rather than an error.
    pub fn dispatch_shard(shard: &mut ControlShard, arg: &str) -> (r: ControlCommandResponse)
        ensures
            spec_shard_arg_ok(arg@) ==> r == ControlCommandResponse::Okay && *final(shard)
                == dec_val(arg@),
            !spec_shard_arg_ok(arg@) ==> r == ControlCommandResponse::Nil && *final(shard) == *old(
                shard,
            ),
    {
        match parse_u8(arg) {
            Some(shard_to) => {
                *shard = shard_to;
                ControlCommandResponse::Okay
            },
            None => ControlCommandResponse::Nil,
        }
    }

    /// Ends the session cleanly.
    pub fn dispatch_quit() -> (r: ControlCommandResponse)
        ensures
            r == ControlCommandResponse::Ended,
    {
        ControlCommandResponse::Ended
    }

    fn proceed_flush(
        store: &mut CacheStore,
        variant: CachePurgeVariant,
        shard: ControlShard,
        pattern: &str,
    ) -> (r: ControlCommandResponse)
        requires
            old(store).wf(),
        ensures
            final(store).wf(),
            r == ControlCommandResponse::Okay,
            spec_purged(*old(store), *final(store), pattern@),
    {
        match store.purge_tag(&variant, shard, pattern) {
            Result::Ok(_count) => ControlCommandResponse::Okay,
            Result::Err(_) => ControlCommandResponse::Nil,
        }
    }
}

} // verus!
