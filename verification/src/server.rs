//! The server's shared state — one storage engine behind one handler — and
//! the per-connection service cycle over it.
//!
//! The listening socket, the task spawning and the reads and writes are
//! transport plumbing and live outside the library. Each connection keeps
//! its own parser and buffers; whenever bytes arrive it hands them to
//! [`TcpServer::process_bytes`], which drains every complete frame, routes
//! each request through the handler, and collects the response bytes to
//! write back and the per-frame faults to report.

use vstd::prelude::*;
use crate::binary_codec::{
    CodecError, MemcachedBinaryCodec, lemma_decode_consumes, spec_decode, spec_encode,
    spec_state_rank,
};
use crate::handler::{BinaryHandler, spec_handle};
use crate::storage::{RecordModel, Storage, StorageModel};

verus! {

/// The state every connection of one server shares.
pub struct TcpServer {
    pub handler: BinaryHandler,
}

/// The service cycle as a pure function: from the storage state, the parser
/// state and the buffered input to the storage and parser states after every
/// complete frame is drained, the unconsumed input, the response bytes owed
/// to the peer in order, and the per-frame faults met along the way. The
/// cycle stops early only when the token counter has no headroom left.
pub open spec fn spec_serve(
    s: StorageModel,
    c: MemcachedBinaryCodec,
    input: Seq<u8>,
    now: u64,
) -> (StorageModel, MemcachedBinaryCodec, Seq<u8>, Seq<u8>, Seq<CodecError>)
    decreases input.len(), spec_state_rank(c.state),
    via spec_serve_decreases
{
    let (c1, rest, res) = spec_decode(c, input);
    match res {
        Ok(None) => (s, c1, rest, Seq::<u8>::empty(), Seq::<CodecError>::empty()),
        Ok(Some(m)) => {
            if s.next_cas < u64::MAX {
                let (s1, resp) = spec_handle(s, m, now);
                let bytes = match resp {
                    Some(r) => spec_encode(r),
                    None => Seq::<u8>::empty(),
                };
                let (s2, c2, rest2, out2, errs2) = spec_serve(s1, c1, rest, now);
                (s2, c2, rest2, bytes + out2, errs2)
            } else {
                (s, c1, rest, Seq::<u8>::empty(), Seq::<CodecError>::empty())
            }
        },
        Err(e) => {
            let (s2, c2, rest2, out2, errs2) = spec_serve(s, c1, rest, now);
            (s2, c2, rest2, out2, seq![e] + errs2)
        },
    }
}

#[via_fn]
proof fn spec_serve_decreases(
    s: StorageModel,
    c: MemcachedBinaryCodec,
    input: Seq<u8>,
    now: u64,
) {
    lemma_decode_consumes(c, input);
}

impl TcpServer {
    /// A server over a fresh, empty storage engine.
    pub fn new() -> (s: TcpServer)
        ensures
            s.handler.wf(),
            s.handler@.entries == Map::<Seq<u8>, RecordModel>::empty(),
            s.handler@.next_cas == 1,
    {
        let storage = Storage::new();
        TcpServer { handler: BinaryHandler::new(storage) }
    }

    /// One reading-to-writing cycle of a connection: drains every complete
    /// frame buffered in `inbound` through the parser, dispatches each
    /// request to the handler, and returns the response bytes to write on
    /// the connection, in request order, together with the per-frame faults
    /// to report. Exactly [`spec_serve`] on the shared state, the parser and
    /// the buffer.
    #[verifier::loop_isolation(false)]
    pub fn process_bytes(
        &mut self,
        codec: &mut MemcachedBinaryCodec,
        inbound: &mut Vec<u8>,
        now: u64,
    ) -> (r: (Vec<u8>, Vec<CodecError>))
        requires
            old(self).handler.wf(),
        ensures
            final(self).handler.wf(),
            ({
                let (s2, c2, rest, out, errs) = spec_serve(
                    old(self).handler@,
                    *old(codec),
                    old(inbound)@,
                    now,
                );
                &&& final(self).handler@ == s2
                &&& *final(codec) == c2
                &&& final(inbound)@ == rest
                &&& r.0@ == out
                &&& r.1@ == errs
            }),
    {
        let mut out: Vec<u8> = Vec::new();
        let mut errs: Vec<CodecError> = Vec::new();
        let ghost goal = spec_serve(self.handler@, *codec, inbound@, now);
        proof {
            assert(out@ + goal.3 =~= goal.3);
            assert(errs@ + goal.4 =~= goal.4);
        }
        loop
            invariant
                self.handler.wf(),
                ({
                    let (s2, c2, rest, o, e) = spec_serve(self.handler@, *codec, inbound@, now);
                    &&& goal.0 == s2
                    &&& goal.1 == c2
                    &&& goal.2 == rest
                    &&& goal.3 == out@ + o
                    &&& goal.4 == errs@ + e
                }),
            decreases inbound@.len(), spec_state_rank(codec.state),
        {
            let ghost pre_codec = *codec;
            let ghost pre_input = inbound@;
            proof {
                lemma_decode_consumes(pre_codec, pre_input);
            }
            match codec.decode(inbound) {
                Ok(None) => {
                    proof {
                        assert(out@ + Seq::<u8>::empty() =~= out@);
                        assert(errs@ + Seq::<CodecError>::empty() =~= errs@);
                    }
                    return (out, errs);
                },
                Ok(Some(request)) => {
                    if !self.handler.has_token_headroom() {
                        proof {
                            assert(out@ + Seq::<u8>::empty() =~= out@);
                            assert(errs@ + Seq::<CodecError>::empty() =~= errs@);
                        }
                        return (out, errs);
                    }
                    let ghost pre_out = out@;
                    let response = self.handler.handle_request(request, now);
                    match response {
                        Some(resp) => {
                            let ghost bytes = spec_encode(resp@);
                            codec.encode(resp, &mut out);
                            proof {
                                let o2 = spec_serve(self.handler@, *codec, inbound@, now).3;
                                assert(pre_out + (bytes + o2) =~= out@ + o2);
                            }
                        },
                        None => {
                            proof {
                                let o2 = spec_serve(self.handler@, *codec, inbound@, now).3;
                                assert(pre_out + (Seq::<u8>::empty() + o2) =~= out@ + o2);
                            }
                        },
                    }
                },
                Err(e) => {
                    let ghost pre_errs = errs@;
                    errs.push(e);
                    proof {
                        let e2 = spec_serve(self.handler@, *codec, inbound@, now).4;
                        assert(pre_errs + (seq![e] + e2) =~= errs@ + e2);
                    }
                },
            }
        }
    }
}

} // verus!
