use vstd::prelude::*;

verus! {

/// Where one direction of the splice stands.
#[derive(Clone, Copy, Debug, PartialEq, Eq, Structural)]
pub enum CopyState {
    /// Waiting for the next chunk from the reader.
    Reading,
    /// A chunk is out with the writer; waiting for the write to finish.
    Writing,
    /// The reader reported end of stream.
    Done,
}

/// One direction of the byte splice: every chunk the reader yields is
/// handed unchanged to the writer before the next read is issued.  The two
/// ghost sequences record everything read and everything written, so the
/// exactness of the forwarding is part of the state.
pub struct HalfCopy {
    pub state: CopyState,
    pub input: Ghost<Seq<u8>>,
    pub output: Ghost<Seq<u8>>,
    pub pending: Ghost<Seq<u8>>,
}

impl HalfCopy {
    /// Everything the reader has yielded so far.
    pub open spec fn input(self) -> Seq<u8> {
        self.input@
    }

    /// Everything handed to the writer and confirmed written so far.
    pub open spec fn output(self) -> Seq<u8> {
        self.output@
    }

    /// Where the direction stands.
    pub open spec fn state(self) -> CopyState {
        self.state
    }

    /// The written bytes always form a prefix of the read bytes, and the
    /// only bytes still missing are the chunk currently with the writer.
    pub open spec fn wf(self) -> bool {
        match self.state {
            CopyState::Reading => self.output@ == self.input@,
            CopyState::Writing => self.output@ + self.pending@ == self.input@,
            CopyState::Done => self.output@ == self.input@,
        }
    }

    /// A fresh direction: nothing read, nothing written.
    pub fn new() -> (c: Self)
        ensures
            c.wf(),
            c.state() == CopyState::Reading,
            c.input() == Seq::<u8>::empty(),
            c.output() == Seq::<u8>::empty(),
    {
        HalfCopy {
            state: CopyState::Reading,
            input: Ghost(Seq::empty()),
            output: Ghost(Seq::empty()),
            pending: Ghost(Seq::empty()),
        }
    }

    /// Accepts the next chunk from the reader and returns exactly those
    /// bytes as the chunk the writer must now write.
    pub fn on_chunk(&mut self, chunk: Vec<u8>) -> (w: Vec<u8>)
        requires
            old(self).wf(),
            old(self).state() == CopyState::Reading,
        ensures
            final(self).wf(),
            final(self).state() == CopyState::Writing,
            w@ == chunk@,
            final(self).input() == old(self).input() + chunk@,
            final(self).output() == old(self).output(),
    {
        proof {
            self.input@ = self.input@ + chunk@;
            self.pending@ = chunk@;
        }
        self.state = CopyState::Writing;
        chunk
    }

    /// Records that the writer finished the chunk; the next read may be
    /// issued.
    pub fn on_written(&mut self)
        requires
            old(self).wf(),
            old(self).state() == CopyState::Writing,
        ensures
            final(self).wf(),
            final(self).state() == CopyState::Reading,
            final(self).input() == old(self).input(),
            final(self).output() == old(self).input(),
    {
        proof {
            self.output@ = self.output@ + self.pending@;
            self.pending@ = Seq::empty();
        }
        self.state = CopyState::Reading;
    }

    /// Records end of stream from the reader: the direction is complete.
    pub fn on_eof(&mut self)
        requires
            old(self).wf(),
            old(self).state() == CopyState::Reading,
        ensures
            final(self).wf(),
            final(self).state() == CopyState::Done,
            final(self).input() == old(self).input(),
            final(self).output() == old(self).output(),
    {
        self.state = CopyState::Done;
    }
}

/// When a direction has seen end of stream, the bytes written are exactly
/// the bytes read, in order: nothing lost, nothing added, nothing
/// reordered.
pub proof fn lemma_copy_exact(c: HalfCopy)
    requires
        c.wf(),
        c.state() == CopyState::Done,
    ensures
        c.output() == c.input(),
{
}

/// The full-duplex splice: one copy direction from the client to the
/// server and one from the server to the client, driven independently.
pub struct StreamCopier {
    pub client_to_server: HalfCopy,
    pub server_to_client: HalfCopy,
}

impl StreamCopier {
    /// Both directions well-formed.
    pub open spec fn wf(self) -> bool {
        self.client_to_server.wf() && self.server_to_client.wf()
    }

    /// A fresh splice with both directions idle.
    pub fn new() -> (c: Self)
        ensures
            c.wf(),
            c.client_to_server.state() == CopyState::Reading,
            c.server_to_client.state() == CopyState::Reading,
            c.client_to_server.input() == Seq::<u8>::empty(),
            c.server_to_client.input() == Seq::<u8>::empty(),
    {
        StreamCopier { client_to_server: HalfCopy::new(), server_to_client: HalfCopy::new() }
    }

    /// Whether both directions have reached end of stream.
    pub fn finished(&self) -> (r: bool)
        ensures
            r == (self.client_to_server.state() == CopyState::Done
                && self.server_to_client.state() == CopyState::Done),
    {
        self.client_to_server.state == CopyState::Done && self.server_to_client.state
            == CopyState::Done
    }
}

/// When both directions are complete, each peer has received exactly the
/// byte stream the other sent.
pub proof fn lemma_splice_exact(c: StreamCopier)
    requires
        c.wf(),
        c.client_to_server.state() == CopyState::Done,
        c.server_to_client.state() == CopyState::Done,
    ensures
        c.client_to_server.output() == c.client_to_server.input(),
        c.server_to_client.output() == c.server_to_client.input(),
{
}

} // verus!
