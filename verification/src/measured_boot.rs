//! Conversions of measured-boot records from their wire messages, and the
//! errors they report.
//!
//! A record type names itself ([`DisplayName`]) and says how one message
//! converts ([`FromGrpc::try_from_grpc`], which renders its own failure as
//! text). The provided methods wrap that conversion: a failure becomes an
//! [`Error::RpcConversion`] naming the record type, a missing message is an
//! error of its own, and a list converts element by element, stopping at
//! the first failure. Their contracts speak of what the record type's own
//! `display_name` and `try_from_grpc` can return, so they hold for every
//! implementation of the traits.

use vstd::prelude::*;

verus! {

/// An error of the measured-boot records.
#[derive(Debug)]
pub enum Error {
    /// Text that could not be parsed.
    Parse(String),
    /// A wire message that could not be converted.
    RpcConversion(String),
}

impl Error {
    /// The message the error carries.
    pub open spec fn text(&self) -> Seq<char> {
        match self {
            Error::Parse(m) => m@,
            Error::RpcConversion(m) => m@,
        }
    }

    /// The error as it is displayed: its message alone.
    pub fn message(&self) -> (r: String)
        ensures
            r@ == self.text(),
    {
        match self {
            Error::Parse(m) => m.clone(),
            Error::RpcConversion(m) => m.clone(),
        }
    }
}

/// The message of a failed conversion: `bad message: <name>: <cause>`.
pub open spec fn bad_message_text(name: Seq<char>, cause: Seq<char>) -> Seq<char> {
    "bad message: "@ + name + ": "@ + cause
}

/// The message of an absent message: `<name> is unexpectedly empty`.
pub open spec fn empty_message_text(name: Seq<char>) -> Seq<char> {
    name + " is unexpectedly empty"@
}

/// The error for a message of record type `name` that failed to convert
/// with `cause`.
pub fn conversion_error(name: &str, cause: &str) -> (r: Error)
    ensures
        r matches Error::RpcConversion(m) && m@ == bad_message_text(name@, cause@),
{
    let mut m = String::from_str("bad message: ");
    m.append(name);
    m.append(": ");
    m.append(cause);
    Error::RpcConversion(m)
}

/// The error for an absent message of record type `name`.
pub fn empty_message_error(name: &str) -> (r: Error)
    ensures
        r matches Error::RpcConversion(m) && m@ == empty_message_text(name@),
{
    let mut m = String::from_str(name);
    m.append(" is unexpectedly empty");
    Error::RpcConversion(m)
}

/// Wraps the outcome of one conversion of a record of type `name`: a value
/// passes through, a failure becomes the conversion error naming the type.
pub fn wrap_conversion<T>(name: &str, converted: Result<T, String>) -> (r: Result<T, Error>)
    ensures
        converted is Ok ==> r is Ok && r->Ok_0 == converted->Ok_0,
        converted is Err ==> (r matches Err(Error::RpcConversion(m)) && m@ == bad_message_text(name@, converted->Err_0@)),
{
    match converted {
        Ok(v) => Ok(v),
        Err(cause) => Err(conversion_error(name, cause.as_str())),
    }
}

/// `r` is the result of wrapping the conversion outcome `converted` of a
/// record of type `name`: a value passes through, a failure with cause
/// `c` becomes the conversion error `bad message: <name>: <c>`.
pub open spec fn wraps<T>(name: Seq<char>, converted: Result<T, String>, r: Result<T, Error>) -> bool {
    match converted {
        Ok(v) => r == Ok::<T, Error>(v),
        Err(cause) => r matches Err(Error::RpcConversion(m)) && m@ == bad_message_text(name, cause@),
    }
}

/// `r` is the error for an absent message of record type `name`.
pub open spec fn is_empty_message_error<T>(name: Seq<char>, r: Result<T, Error>) -> bool {
    r matches Err(Error::RpcConversion(m)) && m@ == empty_message_text(name)
}

/// A record type's name, as conversion errors report it.
pub trait DisplayName {
    fn display_name() -> &'static str;
}

/// Conversion of a record from its wire message `M`.
pub trait FromGrpc<M>: DisplayName + Sized {
    /// Converts one message; a failure is rendered as its text.
    fn try_from_grpc(msg: M) -> Result<Self, String>;

    /// Converts one message; a failure is reported as a conversion error
    /// that names the record type. The result is the wrapping of an
    /// outcome of `try_from_grpc` on `msg`, under a name that
    /// `display_name` gives.
    fn from_grpc(msg: M) -> (r: Result<Self, Error>)
        ensures
            exists|name: &'static str, converted: Result<Self, String>|
                call_ensures(Self::display_name, (), name) && call_ensures(
                    Self::try_from_grpc,
                    (msg,),
                    converted,
                ) && #[trigger] wraps(name@, converted, r),
    {
        let name = Self::display_name();
        let converted = Self::try_from_grpc(msg);
        let ghost c = converted;
        let r = wrap_conversion(name, converted);
        assert(wraps(name@, c, r));
        r
    }
}

/// `r` is a result that converting a clone of `msg` can give.
pub open spec fn converts_to<M: Clone, T: FromGrpc<M>>(msg: M, r: Result<T, Error>) -> bool {
    exists|c: M| cloned(msg, c) && #[trigger] call_ensures(T::from_grpc, (c,), r)
}

/// Converting a clone of `msg` can succeed.
pub open spec fn converts_ok<M: Clone, T: FromGrpc<M>>(msg: M) -> bool {
    exists|v: T| #[trigger] converts_to::<M, T>(msg, Ok(v))
}

/// Conversion of a record from a message that may be absent.
pub trait FromGrpcOpt<M>: FromGrpc<M> {
    /// Converts the message; an absent one is an error that names the
    /// record type, a present one gives what `from_grpc` gives on it.
    fn from_grpc_opt(msg: Option<M>) -> (r: Result<Self, Error>)
        ensures
            msg is None ==> exists|name: &'static str|
                call_ensures(Self::display_name, (), name) && #[trigger] is_empty_message_error(
                    name@,
                    r,
                ),
            msg matches Some(m) ==> call_ensures(Self::from_grpc, (m,), r),
    {
        match msg {
            None => {
                let name = Self::display_name();
                let r = Err(empty_message_error(name));
                assert(is_empty_message_error(name@, r));
                r
            },
            Some(m) => Self::from_grpc(m),
        }
    }
}

/// Conversion of a list of records from their messages.
pub trait FromPbVec<M: Clone>: FromGrpc<M> {
    /// Converts a clone of every message in order; the first failure is
    /// the result. An empty list converts to an empty one.
    fn from_pb_vec(pbs: &[M]) -> (r: Result<Vec<Self>, Error>)
        ensures
            pbs@.len() == 0 ==> (r matches Ok(v) && v@.len() == 0),
            r matches Ok(v) ==> {
                &&& v@.len() == pbs@.len()
                &&& forall|i: int|
                    0 <= i < pbs@.len() ==> #[trigger] converts_to::<M, Self>(pbs@[i], Ok(v@[i]))
            },
            r matches Err(e) ==> exists|k: int|
                {
                    &&& 0 <= k < pbs@.len()
                    &&& #[trigger] converts_to::<M, Self>(pbs@[k], Err(e))
                    &&& forall|j: int| 0 <= j < k ==> #[trigger] converts_ok::<M, Self>(pbs@[j])
                },
    {
        let mut out: Vec<Self> = Vec::new();
        let mut i: usize = 0;
        while i < pbs.len()
            invariant
                i <= pbs@.len(),
                out@.len() == i,
                forall|j: int| 0 <= j < i ==> #[trigger] converts_to::<M, Self>(pbs@[j], Ok(out@[j])),
            decreases pbs@.len() - i,
        {
            let record = pbs[i].clone();
            let converted = Self::from_grpc(record);
            assert(converts_to::<M, Self>(pbs@[i as int], converted));
            match converted {
                Ok(v) => out.push(v),
                Err(e) => {
                    assert forall|j: int| 0 <= j < i implies #[trigger] converts_ok::<M, Self>(
                        pbs@[j],
                    ) by {
                        assert(converts_to::<M, Self>(pbs@[j], Ok(out@[j])));
                    }
                    return Err(e);
                },
            }
            i = i + 1;
        }
        Ok(out)
    }
}

} // verus!
