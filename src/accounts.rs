use vstd::prelude::*;
use crate::encoders;
use crate::protocol::{
    check_server_version, field_i32, is_version_error, DecodeFault, Error, Incoming, RequestMessage, ResponseMessage,
    ACCOUNT_SUMMARY, REQ_FAMILY_CODES,
};

verus! {

/// The family code of one account.
#[derive(Debug, Clone)]
pub struct FamilyCode {
    /// Account ID
    pub account_id: String,
    /// Family code
    pub family_code: String,
}

impl Default for FamilyCode {
    fn default() -> (r: FamilyCode)
        ensures
            r@ == (Seq::<char>::empty(), Seq::<char>::empty()),
    {
        FamilyCode { account_id: String::new(), family_code: String::new() }
    }
}

impl View for FamilyCode {
    type V = (Seq<char>, Seq<char>);

    open spec fn view(&self) -> (Seq<char>, Seq<char>) {
        (self.account_id@, self.family_code@)
    }
}

pub open spec fn codes_view(v: Seq<FamilyCode>) -> Seq<(Seq<char>, Seq<char>)> {
    v.map_values(|c: FamilyCode| c@)
}

pub open spec fn decode_error(field: int, reason: DecodeFault) -> Error {
    Error::Decode { field: field as usize, reason }
}

/// What a family-codes message holds: after the tag, a count and then that many pairs
/// of account ID and family code. A count below one stands for no codes.
pub open spec fn family_codes_of(m: Seq<Seq<char>>) -> Result<Seq<(Seq<char>, Seq<char>)>, Error> {
    if m.len() < 2 {
        Err(decode_error(m.len() as int, DecodeFault::EndOfMessage))
    } else {
        match field_i32(m[1]) {
            None => Err(decode_error(1, DecodeFault::NotAnInteger)),
            Some(c) => if c < 1 {
                Ok(Seq::empty())
            } else if m.len() < 2 + 2 * c {
                Err(decode_error(m.len() as int, DecodeFault::EndOfMessage))
            } else {
                Ok(Seq::new(c as nat, |k: int| (m[2 + 2 * k], m[3 + 2 * k])))
            },
        }
    }
}

/// The outcome of a call, seen through the views of the codes it returns.
pub open spec fn codes_outcome(r: Result<Vec<FamilyCode>, Error>) -> Result<Seq<(Seq<char>, Seq<char>)>, Error> {
    match r {
        Ok(v) => Ok(codes_view(v@)),
        Err(e) => Err(e),
    }
}

/// Decodes a family-codes message.
pub fn decode_family_codes(message: &ResponseMessage) -> (r: Result<Vec<FamilyCode>, Error>)
    ensures
        codes_outcome(r) == family_codes_of(message@),
{
    let fields = &message.fields;
    let len = fields.len();
    if len < 2 {
        return Err(Error::Decode { field: len, reason: DecodeFault::EndOfMessage });
    }
    let count = match crate::protocol::parse_i32(fields[1].as_str()) {
        None => {
            return Err(Error::Decode { field: 1, reason: DecodeFault::NotAnInteger });
        },
        Some(c) => c,
    };
    if count < 1 {
        let r = Ok(Vec::new());
        assert(codes_view(Seq::<FamilyCode>::empty()) =~= Seq::empty());
        return r;
    }
    let c = count as usize;
    if c > (len - 2) / 2 {
        return Err(Error::Decode { field: len, reason: DecodeFault::EndOfMessage });
    }
    let ghost m = message@;
    let ghost want = Seq::new(c as nat, |k: int| (m[2 + 2 * k], m[3 + 2 * k]));
    let mut codes: Vec<FamilyCode> = Vec::new();
    let mut k: usize = 0;
    while k < c
        invariant
            k <= c,
            2 + 2 * c <= len,
            len == fields@.len(),
            m == message@,
            fields == &message.fields,
            want == Seq::new(c as nat, |k: int| (m[2 + 2 * k], m[3 + 2 * k])),
            codes_view(codes@) =~= want.subrange(0, k as int),
        decreases c - k,
    {
        let code = FamilyCode {
            account_id: fields[2 + 2 * k].clone(),
            family_code: fields[3 + 2 * k].clone(),
        };
        assert(m[2 + 2 * k] == fields@[2 + 2 * k]@);
        assert(m[3 + 2 * k] == fields@[3 + 2 * k]@);
        assert(code@ == want[k as int]);
        let ghost before = codes@;
        codes.push(code);
        assert(codes_view(codes@) =~= codes_view(before).push(code@));
        k = k + 1;
        assert(codes_view(codes@) =~= want.subrange(0, k as int));
    }
    assert(want.subrange(0, c as int) =~= want);
    Ok(codes)
}

} // verus!

verus! {

/// Builds the subscription to positions of every account, once the negotiated
/// version allows it, together with the stream that reads the answers.
pub fn positions(server_version: i32) -> (r: Result<(RequestMessage, PositionStream), Error>)
    ensures
        r is Ok <==> server_version >= ACCOUNT_SUMMARY,
        r is Err ==> is_version_error(r->Err_0, ACCOUNT_SUMMARY, server_version),
        r matches Err(Error::ServerVersion { feature: f, .. }) ==> f@ == "It does not support position requests."@,
        r matches Ok((req, stream)) ==> req@ == seq!["61"@, "1"@] && stream.wf()
            && stream.server_version == server_version && stream.state == StreamState::Active
            && !stream.cancel_sent && stream.absorbed@.len() == 0,
{
    match check_server_version(server_version, ACCOUNT_SUMMARY, "It does not support position requests.") {
        Err(e) => Err(e),
        Ok(()) => {
            let req = encoders::request_positions();
            let stream = PositionStream {
                server_version,
                state: StreamState::Active,
                cancel_sent: false,
                absorbed: Vec::new(),
            };
            Ok((req, stream))
        },
    }
}

/// Builds the request that ends the position subscription, once the negotiated
/// version allows it.
pub fn cancel_positions(server_version: i32) -> (r: Result<RequestMessage, Error>)
    ensures
        r is Ok <==> server_version >= ACCOUNT_SUMMARY,
        r is Err ==> is_version_error(r->Err_0, ACCOUNT_SUMMARY, server_version),
        r matches Err(Error::ServerVersion { feature: f, .. }) ==> f@ == "It does not support position cancellation."@,
        r is Ok ==> r->Ok_0@ == seq!["64"@, "1"@],
{
    match check_server_version(server_version, ACCOUNT_SUMMARY, "It does not support position cancellation.") {
        Err(e) => Err(e),
        Ok(()) => Ok(encoders::cancel_positions()),
    }
}

/// Builds the family-codes request, once the negotiated version allows it.
pub fn family_codes_request(server_version: i32) -> (r: Result<RequestMessage, Error>)
    ensures
        r is Ok <==> server_version >= REQ_FAMILY_CODES,
        r is Err ==> is_version_error(r->Err_0, REQ_FAMILY_CODES, server_version),
        r matches Err(Error::ServerVersion { feature: f, .. }) ==> f@ == "It does not support family codes requests."@,
        r is Ok ==> r->Ok_0@ == seq!["80"@],
{
    match check_server_version(server_version, REQ_FAMILY_CODES, "It does not support family codes requests.") {
        Err(e) => Err(e),
        Ok(()) => Ok(encoders::request_family_codes()),
    }
}

/// The family codes, from the one answer that the request got, if any: no answer
/// stands for no codes, an answer that cannot be decoded fails the call.
pub fn family_codes(response: Option<&ResponseMessage>) -> (r: Result<Vec<FamilyCode>, Error>)
    ensures
        response is None ==> r is Ok && r->Ok_0@.len() == 0,
        response matches Some(m) ==> codes_outcome(r) == family_codes_of(m@),
{
    match response {
        None => Ok(Vec::new()),
        Some(m) => decode_family_codes(m),
    }
}

/// Whether a position stream may still yield items.
#[derive(PartialEq, Eq, Structural, Clone, Copy, Debug)]
pub enum StreamState {
    Active,
    Terminated,
}

/// A failure that the position stream absorbs rather than hands to its consumer,
/// kept so that the consumer can inspect it.
#[derive(Debug)]
pub enum Absorbed {
    /// A position message that could not be decoded was dropped.
    Undecodable(Error),
    /// A message of another kind was ignored.
    Unexpected(Incoming),
    /// The cancellation after the end of the snapshot could not be built or sent.
    CancelFailed(Error),
}

/// What the consumer pulled from the subscription's handle, with a position message
/// already decoded.
pub enum Pulled<T> {
    /// The handle has no more messages.
    Exhausted,
    Position(Result<T, Error>),
    /// The initial snapshot is complete.
    PositionEnd,
    /// Any other message on the shared broadcast.
    Other(Incoming),
}

/// What the consumer does after handing the stream one pulled message.
pub enum Step<T> {
    /// Hand this position to the caller.
    Item(T),
    /// Pull the next message.
    Continue,
    /// Submit this cancellation, then end the iteration.
    Cancel(RequestMessage),
    /// End the iteration.
    End,
}

/// The state of an iteration over position updates.
pub struct PositionStream {
    pub server_version: i32,
    pub state: StreamState,
    /// Whether the cancellation was handed out; it is handed out at most once.
    pub cancel_sent: bool,
    pub absorbed: Vec<Absorbed>,
}

/// The positions that a stream yields from the messages it pulls, in order:
/// those decoded before the first end of the snapshot or exhaustion.
pub open spec fn stream_items<T>(s: Seq<Pulled<T>>) -> Seq<T>
    decreases s.len(),
{
    if s.len() == 0 {
        Seq::empty()
    } else {
        match s[0] {
            Pulled::Exhausted => Seq::empty(),
            Pulled::PositionEnd => Seq::empty(),
            Pulled::Position(Ok(x)) => seq![x] + stream_items(s.drop_first()),
            _ => stream_items(s.drop_first()),
        }
    }
}

/// Whether the end of the snapshot arrives before the messages run out.
pub open spec fn reaches_end<T>(s: Seq<Pulled<T>>) -> bool
    decreases s.len(),
{
    if s.len() == 0 {
        false
    } else {
        match s[0] {
            Pulled::Exhausted => false,
            Pulled::PositionEnd => true,
            _ => reaches_end(s.drop_first()),
        }
    }
}

impl PositionStream {
    pub open spec fn wf(&self) -> bool {
        &&& self.server_version >= ACCOUNT_SUMMARY
        &&& self.cancel_sent ==> self.state == StreamState::Terminated
    }

    /// Takes one pulled message and says what the consumer does next.
    pub fn next_step<T>(&mut self, pulled: Pulled<T>) -> (r: Step<T>)
        requires
            old(self).wf(),
        ensures
            final(self).wf(),
            final(self).server_version == old(self).server_version,
            old(self).state == StreamState::Terminated ==> r is End && final(self).state == StreamState::Terminated
                && final(self).cancel_sent == old(self).cancel_sent && final(self).absorbed@ == old(self).absorbed@,
            old(self).state == StreamState::Active ==> match pulled {
                Pulled::Exhausted => r is End && final(self).state == StreamState::Terminated
                    && !final(self).cancel_sent && final(self).absorbed@ == old(self).absorbed@,
                Pulled::Position(Ok(x)) => r == Step::Item(x) && final(self).state == StreamState::Active
                    && final(self).cancel_sent == old(self).cancel_sent && final(self).absorbed@ == old(self).absorbed@,
                Pulled::Position(Err(e)) => r is Continue && final(self).state == StreamState::Active
                    && final(self).cancel_sent == old(self).cancel_sent
                    && final(self).absorbed@ == old(self).absorbed@.push(Absorbed::Undecodable(e)),
                Pulled::PositionEnd => (r matches Step::Cancel(req) && req@ == seq!["64"@, "1"@])
                    && final(self).state == StreamState::Terminated
                    && final(self).cancel_sent && final(self).absorbed@ == old(self).absorbed@,
                Pulled::Other(k) => r is Continue && final(self).state == StreamState::Active
                    && final(self).cancel_sent == old(self).cancel_sent
                    && final(self).absorbed@ == old(self).absorbed@.push(Absorbed::Unexpected(k)),
            },
    {
        if self.state == StreamState::Terminated {
            return Step::End;
        }
        match pulled {
            Pulled::Exhausted => {
                self.state = StreamState::Terminated;
                Step::End
            },
            Pulled::Position(Ok(x)) => Step::Item(x),
            Pulled::Position(Err(e)) => {
                self.absorbed.push(Absorbed::Undecodable(e));
                Step::Continue
            },
            Pulled::PositionEnd => {
                self.state = StreamState::Terminated;
                match cancel_positions(self.server_version) {
                    Ok(req) => {
                        self.cancel_sent = true;
                        Step::Cancel(req)
                    },
                    Err(e) => {
                        self.absorbed.push(Absorbed::CancelFailed(e));
                        Step::End
                    },
                }
            },
            Pulled::Other(k) => {
                self.absorbed.push(Absorbed::Unexpected(k));
                Step::Continue
            },
        }
    }

    /// Records how the submission of the cancellation went. A failure is kept
    /// among the absorbed failures and never reaches the consumer.
    pub fn cancel_submitted(&mut self, outcome: Result<(), Error>)
        requires
            old(self).wf(),
        ensures
            final(self).wf(),
            final(self).server_version == old(self).server_version,
            final(self).state == old(self).state,
            final(self).cancel_sent == old(self).cancel_sent,
            outcome is Ok ==> final(self).absorbed@ == old(self).absorbed@,
            outcome matches Err(e) ==> final(self).absorbed@ == old(self).absorbed@.push(Absorbed::CancelFailed(e)),
    {
        match outcome {
            Ok(()) => {},
            Err(e) => self.absorbed.push(Absorbed::CancelFailed(e)),
        }
    }

    /// Runs an active stream over the messages of a handle, in order, until it ends:
    /// at the end of the snapshot, at an exhaustion, or when the messages run out.
    /// Returns the positions yielded and the cancellation to submit, if any.
    pub fn drain<T>(&mut self, pulled: Vec<Pulled<T>>) -> (r: (Vec<T>, Option<RequestMessage>))
        requires
            old(self).wf(),
            old(self).state == StreamState::Active,
        ensures
            final(self).wf(),
            final(self).state == StreamState::Terminated,
            final(self).server_version == old(self).server_version,
            r.0@ == stream_items(pulled@),
            r.1 is Some <==> reaches_end(pulled@),
            final(self).cancel_sent <==> reaches_end(pulled@),
            r.1 matches Some(req) ==> req@ == seq!["64"@, "1"@],
    {
        let ghost all = pulled@;
        let mut rest = pulled;
        let mut items: Vec<T> = Vec::new();
        loop
            invariant
                self.wf(),
                self.state == StreamState::Active,
                !self.cancel_sent,
                self.server_version == old(self).server_version,
                items@ + stream_items(rest@) == stream_items(all),
                reaches_end(rest@) == reaches_end(all),
                all == pulled@,
            decreases rest@.len(),
        {
            if rest.len() == 0 {
                let _ = self.next_step::<T>(Pulled::Exhausted);
                assert(stream_items(rest@) == Seq::<T>::empty());
                assert(!reaches_end(rest@));
                assert(items@ + Seq::<T>::empty() =~= items@);
                return (items, None);
            }
            let ghost before = rest@;
            let p = rest.remove(0);
            assert(before.drop_first() =~= rest@);
            let ghost kind_exhausted = p is Exhausted;
            let ghost kind_end = p is PositionEnd;
            match self.next_step(p) {
                Step::Item(x) => {
                    let ghost prev = items@;
                    items.push(x);
                    assert(prev + stream_items(before) =~= items@ + stream_items(rest@));
                },
                Step::Continue => {},
                Step::Cancel(req) => {
                    assert(kind_end);
                    assert(stream_items(before) == Seq::<T>::empty());
                    assert(reaches_end(before));
                    assert(items@ + Seq::<T>::empty() =~= items@);
                    return (items, Some(req));
                },
                Step::End => {
                    assert(kind_exhausted);
                    assert(stream_items(before) == Seq::<T>::empty());
                    assert(!reaches_end(before));
                    assert(items@ + Seq::<T>::empty() =~= items@);
                    return (items, None);
                },
            }
        }
    }
}

} // verus!

verus! {

/// A message that the stream absorbs: an undecodable position or foreign traffic.
pub open spec fn is_noise<T>(p: Pulled<T>) -> bool {
    p is Other || p matches Pulled::Position(Err(_))
}

/// Inserting an undecodable position or a foreign message anywhere in what a stream
/// pulls changes neither the positions it yields nor whether it cancels.
pub proof fn lemma_noise_ignored<T>(s: Seq<Pulled<T>>, i: int, noise: Pulled<T>)
    requires
        0 <= i <= s.len(),
        is_noise(noise),
    ensures
        stream_items(s.insert(i, noise)) == stream_items(s),
        reaches_end(s.insert(i, noise)) == reaches_end(s),
    decreases i,
{
    let t = s.insert(i, noise);
    if i == 0 {
        assert(t.drop_first() =~= s);
    } else {
        lemma_noise_ignored(s.drop_first(), i - 1, noise);
        assert(t.drop_first() =~= s.drop_first().insert(i - 1, noise));
        assert(t[0] == s[0]);
    }
}

} // verus!

verus! {

/// A stream whose messages hold no end of the snapshot never submits a cancellation.
pub proof fn lemma_no_end_no_cancel<T>(s: Seq<Pulled<T>>)
    requires
        forall|i: int| 0 <= i < s.len() ==> !(#[trigger] s[i] is PositionEnd),
    ensures
        !reaches_end(s),
    decreases s.len(),
{
    if s.len() > 0 {
        assert(!(s[0] is PositionEnd));
        assert forall|i: int| 0 <= i < s.drop_first().len() implies !(#[trigger] s.drop_first()[i] is PositionEnd) by {
            assert(s.drop_first()[i] == s[i + 1]);
        }
        lemma_no_end_no_cancel(s.drop_first());
    }
}

} // verus!
