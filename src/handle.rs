//! A resource handle whose payload arrives from a background load.
//!
//! The handle starts out pending and takes exactly one terminal state, ready
//! with its payload or failed with a message, after which it never changes.
use vstd::prelude::*;

verus! {

/// What a reader of a handle can observe.
pub ghost enum LoadState<T> {
    Pending,
    Ready(T),
    Failed(Seq<char>),
}

/// Message committed when a failed load reports no text of its own.
pub const FALLBACK_ERROR: &'static str = "resource could not be loaded";

/// The state that a commit of `outcome` leaves behind: only a pending handle
/// takes the outcome; a terminal one keeps what it has.
pub open spec fn committed<T>(st: LoadState<T>, outcome: Result<T, Seq<char>>) -> LoadState<T> {
    match st {
        LoadState::Pending => match outcome {
            Ok(p) => LoadState::Ready(p),
            Err(m) => LoadState::Failed(
                if m.len() == 0 {
                    FALLBACK_ERROR@
                } else {
                    m
                },
            ),
        },
        _ => st,
    }
}

pub open spec fn is_ready<T>(st: LoadState<T>) -> bool {
    st is Ready
}

pub open spec fn is_failed<T>(st: LoadState<T>) -> bool {
    st is Failed
}

/// The error message that a reader sees: present only on a failed handle.
pub open spec fn message_of<T>(st: LoadState<T>) -> Option<Seq<char>> {
    match st {
        LoadState::Failed(m) => Some(m),
        _ => None,
    }
}

/// A handle is in exactly one of its three states. Once it is ready or
/// failed, no later commit moves it back to pending or changes its payload or
/// message: the first commit of a pending handle is the only one that counts.
pub proof fn lemma_terminal_state_is_final<T>(
    st: LoadState<T>,
    first: Result<T, Seq<char>>,
    later: Result<T, Seq<char>>,
)
    ensures
        (st is Pending) as int + (st is Ready) as int + (st is Failed) as int == 1,
        !(st is Pending) ==> committed(st, later) == st,
        !(committed(st, first) is Pending),
        committed(committed(st, first), later) == committed(st, first),
{
}

/// Reading a handle before its load has finished shows it neither ready nor
/// failed, with no error message.
pub proof fn lemma_pending_reads<T>(st: LoadState<T>)
    requires
        st is Pending,
    ensures
        !is_ready(st),
        !is_failed(st),
        message_of(st) is None,
{
}

/// A font face (or any resource) loaded in the background.
///
/// The loading task is its only writer, through `commit`; readers use `ready`,
/// `failed`, `err` and `with_internal`, none of which blocks or fails.
pub struct FontFace<T> {
    err: Option<String>,
    internal: Option<T>,
}

impl<T> FontFace<T> {
    /// The handle is never ready and failed at once, and a failure carries text.
    pub closed spec fn wf(&self) -> bool {
        &&& !(self.err is Some && self.internal is Some)
        &&& (self.err matches Some(m) ==> m@.len() > 0)
    }

    pub closed spec fn state(&self) -> LoadState<T> {
        match self.internal {
            Some(p) => LoadState::Ready(p),
            None => match self.err {
                Some(m) => LoadState::Failed(m@),
                None => LoadState::Pending,
            },
        }
    }

    /// What `with_internal` hands to its callback: the payload once ready.
    pub closed spec fn payload(&self) -> Option<T> {
        self.internal
    }

    /// A fresh handle, pending.
    pub fn new() -> (r: Self)
        ensures
            r.wf(),
            r.state() == LoadState::<T>::Pending,
    {
        FontFace { err: None, internal: None }
    }

    /// Records the outcome of the load. Only the first commit takes effect;
    /// the result says whether this one did.
    pub fn commit(&mut self, outcome: Result<T, String>) -> (took: bool)
        requires
            old(self).wf(),
        ensures
            final(self).wf(),
            took == (old(self).state() is Pending),
            final(self).state() == committed(
                old(self).state(),
                match outcome {
                    Ok(p) => Ok(p),
                    Err(m) => Err(m@),
                },
            ),
    {
        if self.internal.is_some() || self.err.is_some() {
            return false;
        }
        match outcome {
            Ok(p) => {
                self.internal = Some(p);
            },
            Err(m) => {
                if m.as_str().is_empty() {
                    proof {
                        reveal_strlit("resource could not be loaded");
                    }
                    self.err = Some(String::from_str(FALLBACK_ERROR));
                } else {
                    self.err = Some(m);
                }
            },
        }
        true
    }

    /// The error message, present only once the load has failed.
    pub fn err(&self) -> (r: Option<String>)
        requires
            self.wf(),
        ensures
            match r {
                Some(m) => message_of(self.state()) == Some(m@),
                None => message_of(self.state()) is None,
            },
    {
        match &self.err {
            Some(m) => Some(m.clone()),
            None => None,
        }
    }

    /// Whether the load has failed.
    pub fn failed(&self) -> (r: bool)
        requires
            self.wf(),
        ensures
            r == is_failed(self.state()),
    {
        self.err.is_some()
    }

    /// Whether the payload has arrived.
    pub fn ready(&self) -> (r: bool)
        requires
            self.wf(),
        ensures
            r == is_ready(self.state()),
    {
        self.internal.is_some()
    }

    /// Runs `f` on the payload if it is ready, on `None` otherwise.
    pub fn with_internal<R, F>(&self, f: F) -> (r: R)
        where
            F: FnOnce(&Option<T>) -> R,
        requires
            self.wf(),
            f.requires((&self.payload(),)),
        ensures
            f.ensures((&self.payload(),), r),
            self.payload() == match self.state() {
                LoadState::Ready(p) => Some(p),
                _ => None::<T>,
            },
    {
        f(&self.internal)
    }
}

} // verus!
