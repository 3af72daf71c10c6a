//! The completion token for the read operation.
//!
//! Read is the one operation whose success payload the implementer produces
//! by invoking a completion function rather than by returning a value. To
//! guarantee the implementer answers exactly once, the operation's contract
//! requires it to return a [`CallbackResult`], whose only producer is
//! [`ReadCompleter::complete`] — and `complete` takes its token by value, so
//! one token answers at most one request. Tokens are minted only inside
//! [`run_read`], one per read exchange: the implementer cannot copy, clone
//! or construct one, so within an exchange the single returned
//! `CallbackResult` witnesses exactly one completion of the supplied token.

use vstd::prelude::*;

verus! {

/// Proof that a read request was answered: produced exclusively by
/// [`ReadCompleter::complete`], and carrying the answer itself.
pub struct CallbackResult {
    reply: Result<Vec<u8>, i32>,
}

impl View for CallbackResult {
    type V = Result<Seq<u8>, i32>;

    closed spec fn view(&self) -> Result<Seq<u8>, i32> {
        match self.reply {
            Ok(v) => Ok(v@),
            Err(e) => Err(e),
        }
    }
}

impl CallbackResult {
    /// The answer the implementer gave: the requested bytes, or a POSIX
    /// error code.
    pub fn into_reply(self) -> (r: Result<Vec<u8>, i32>)
        ensures
            match r {
                Ok(v) => self@ == Ok::<Seq<u8>, i32>(v@),
                Err(e) => self@ == Err::<Seq<u8>, i32>(e),
            },
    {
        self.reply
    }
}

/// A single-use completion token handed to the implementer's read
/// operation. It is consumed by [`ReadCompleter::complete`] and is neither
/// copyable, clonable, nor constructible outside the library, so each token
/// answers at most one request; the borrowed data passed to `complete` is
/// captured there and must not be retained by the implementer afterwards.
pub struct ReadCompleter {
    sealed: (),
}

impl ReadCompleter {
    /// Answer the request: record the read bytes, or the error code, and
    /// spend the token.
    pub fn complete(self, reply: Result<Vec<u8>, i32>) -> (r: CallbackResult)
        ensures
            match reply {
                Ok(v) => r@ == Ok::<Seq<u8>, i32>(v@),
                Err(e) => r@ == Err::<Seq<u8>, i32>(e),
            },
    {
        let _ = self.sealed;
        CallbackResult { reply }
    }
}

/// Run one read exchange: mint a fresh single-use completion token, hand it
/// to the implementer operation, and return the reply carried by the
/// `CallbackResult` the operation produced. This is the only place a token
/// is minted, so the operation can satisfy its return obligation only by
/// completing a token exactly once.
pub fn run_read<F: FnOnce(ReadCompleter) -> CallbackResult>(f: F) -> (r: Result<Vec<u8>, i32>)
    requires
        forall|token: ReadCompleter| call_requires(f, (token,)),
    ensures
        exists|token: ReadCompleter, answered: CallbackResult|
            #[trigger] call_ensures(f, (token,), answered) && match r {
                Ok(v) => answered@ == Ok::<Seq<u8>, i32>(v@),
                Err(e) => answered@ == Err::<Seq<u8>, i32>(e),
            },
{
    let answered = f(ReadCompleter { sealed: () });
    answered.into_reply()
}

} // verus!
