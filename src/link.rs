//! The serial transport the driver talks through, and a model of one exchange
//! on it: a request written and flushed, then a reply read byte by byte up to
//! its acknowledgment byte.
use vstd::prelude::*;

verus! {

/// The receiving half of a serial link: a blocking read of one byte.
pub trait SerialRead {
    type Error;

    fn read(&mut self) -> Result<u8, Self::Error>;
}

/// The sending half of a serial link: a blocking write of a buffer, and a flush.
pub trait SerialWrite {
    type Error;

    fn write_all(&mut self, bytes: &[u8]) -> Result<(), Self::Error>;

    fn flush(&mut self) -> Result<(), Self::Error>;
}

/// What an operation of the driver can fail with.
#[derive(Debug)]
pub enum Error<T, U> {
    /// The acknowledgment byte was not `#`, or the reply made no sense.
    UnexpectedResponse,
    /// The transport failed to read.
    Read(T),
    /// The transport failed to write or flush.
    Write(U),
}

/// The byte that closes every successful reply.
pub const ACK: u8 = 0x23;

/// One call made on the sending half, with what it returned.
pub enum TxEvent<E> {
    Write(Seq<u8>, Result<(), E>),
    Flush(Result<(), E>),
}

/// `tx` is what sending `frame` does: the frame is written, and only if that
/// succeeds the link is flushed.
pub open spec fn is_request<E>(frame: Seq<u8>, tx: Seq<TxEvent<E>>) -> bool {
    &&& 1 <= tx.len() <= 2
    &&& tx[0] matches TxEvent::Write(f, w) && f == frame && (w is Ok <==> tx.len() == 2)
    &&& tx.len() == 2 ==> tx[1] is Flush
}

/// The outcome of a request: the first failure among its calls, if any.
pub open spec fn request_result<E>(tx: Seq<TxEvent<E>>) -> Result<(), E> {
    match tx[0] {
        TxEvent::Write(_, Err(e)) => Err(e),
        _ => match tx[1] {
            TxEvent::Flush(r) => r,
            TxEvent::Write(_, r) => r,
        },
    }
}

/// `rx` are the results of the reads that take a reply of `n` payload bytes:
/// every read but the last succeeded, and the reads stop
/// - at the first failed read, or
/// - after a `#` acknowledgment that follows the payload, or
/// - one byte after any other acknowledgment byte, which is the error code
///   that the controller sends after it.
pub open spec fn is_reply<E>(n: nat, rx: Seq<Result<u8, E>>) -> bool {
    let k = rx.len();
    &&& 1 <= k
    &&& forall|i: int| 0 <= i < k - 1 ==> (#[trigger] rx[i]) is Ok
    &&& {
        ||| k <= n + 1 && rx[k - 1] is Err
        ||| k == n + 1 && rx[k - 1] == Ok::<u8, E>(ACK)
        ||| k == n + 2 && rx[n as int]->Ok_0 != ACK
    }
}

/// The bytes that a run of successful reads returned.
pub open spec fn bytes_of<E>(rx: Seq<Result<u8, E>>) -> Seq<u8> {
    rx.map_values(|x: Result<u8, E>| x->Ok_0)
}

/// The outcome of a reply of `n` payload bytes: the error of a failed read, an
/// unexpected response where the acknowledgment byte was not `#`, and the
/// payload otherwise.
pub open spec fn reply_result<R, W>(n: nat, rx: Seq<Result<u8, R>>) -> Result<Seq<u8>, Error<R, W>> {
    if rx.last() is Err {
        Err(Error::Read(rx.last()->Err_0))
    } else if rx.len() == n + 2 {
        Err(Error::UnexpectedResponse)
    } else {
        Ok(bytes_of(rx.take(n as int)))
    }
}

/// `tx` and `rx` are what one exchange does: `frame` is sent, and the reply of
/// `n` payload bytes is read only if sending succeeded.
pub open spec fn is_exchange<R, W>(
    frame: Seq<u8>,
    n: nat,
    tx: Seq<TxEvent<W>>,
    rx: Seq<Result<u8, R>>,
) -> bool {
    &&& is_request(frame, tx)
    &&& if request_result(tx) is Ok {
        is_reply(n, rx)
    } else {
        rx.len() == 0
    }
}

/// The outcome of an exchange: the transport's write error, or else the outcome
/// of the reply.
pub open spec fn exchange_result<R, W>(tx: Seq<TxEvent<W>>, n: nat, rx: Seq<Result<u8, R>>) -> Result<
    Seq<u8>,
    Error<R, W>,
> {
    match request_result(tx) {
        Err(e) => Err(Error::Write(e)),
        Ok(_) => reply_result(n, rx),
    }
}

/// The outcome `o` with its payload decoded by `f`.
pub open spec fn decoded<A, E>(o: Result<Seq<u8>, E>, f: spec_fn(Seq<u8>) -> A) -> Result<A, E> {
    match o {
        Ok(p) => Ok(f(p)),
        Err(e) => Err(e),
    }
}

} // verus!
