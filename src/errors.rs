//! Errors of a run, and helpers to fold nested results.
use vstd::prelude::*;

verus! {

/// An error from the runner, with its message.
#[derive(Debug)]
pub struct RuntError(pub String);

impl RuntError {
    /// The message of this error.
    pub fn message(&self) -> (r: String)
        ensures
            r@ == self.0@,
    {
        self.0.clone()
    }
}

/// Folds nested results into one.
pub trait RichResult<T, E>: Sized {
    /// The folded result: the innermost value, or the outermost error.
    spec fn collapsed(self) -> Result<T, E>;

    /// Folds the nested results into one.
    fn collapse(self) -> (r: Result<T, E>)
        ensures
            r == self.collapsed(),
    ;
}

impl<T, E> RichResult<T, E> for Result<Result<Result<T, E>, E>, E> {
    open spec fn collapsed(self) -> Result<T, E> {
        match self {
            Ok(Ok(Ok(v))) => Ok(v),
            Ok(Ok(Err(e))) => Err(e),
            Ok(Err(e)) => Err(e),
            Err(e) => Err(e),
        }
    }

    fn collapse(self) -> (r: Result<T, E>) {
        match self {
            Ok(Ok(Ok(v))) => Ok(v),
            Ok(Ok(Err(e))) => Err(e),
            Ok(Err(e)) => Err(e),
            Err(e) => Err(e),
        }
    }
}

impl<T, E> RichResult<T, E> for Result<Result<T, E>, E> {
    open spec fn collapsed(self) -> Result<T, E> {
        match self {
            Ok(Ok(v)) => Ok(v),
            Ok(Err(e)) => Err(e),
            Err(e) => Err(e),
        }
    }

    fn collapse(self) -> (r: Result<T, E>) {
        match self {
            Ok(Ok(v)) => Ok(v),
            Ok(Err(e)) => Err(e),
            Err(e) => Err(e),
        }
    }
}

/// The values of the `Ok` entries, in order.
pub open spec fn ok_values<T, E>(s: Seq<Result<T, E>>) -> Seq<T>
    decreases s.len(),
{
    if s.len() == 0 {
        Seq::empty()
    } else {
        match s[0] {
            Ok(v) => seq![v] + ok_values(s.drop_first()),
            Err(_) => ok_values(s.drop_first()),
        }
    }
}

/// The errors of the `Err` entries, in order.
pub open spec fn err_values<T, E>(s: Seq<Result<T, E>>) -> Seq<E>
    decreases s.len(),
{
    if s.len() == 0 {
        Seq::empty()
    } else {
        match s[0] {
            Ok(_) => err_values(s.drop_first()),
            Err(e) => seq![e] + err_values(s.drop_first()),
        }
    }
}

/// Splits a vector of results into its values and its errors.
pub trait RichVec<T, E>: Sized {
    /// The values, in order.
    spec fn oks(self) -> Seq<T>;

    /// The errors, in order.
    spec fn errs(self) -> Seq<E>;

    /// Splits the results into the values and the errors, each in order.
    fn partition_results(self) -> (r: (Vec<T>, Vec<E>))
        ensures
            r.0@ == self.oks(),
            r.1@ == self.errs(),
    ;
}

impl<T, E> RichVec<T, E> for Vec<Result<T, E>> {
    open spec fn oks(self) -> Seq<T> {
        ok_values(self@)
    }

    open spec fn errs(self) -> Seq<E> {
        err_values(self@)
    }

    fn partition_results(self) -> (r: (Vec<T>, Vec<E>)) {
        let ghost all = self@;
        let mut rest = self;
        let mut ts: Vec<T> = Vec::new();
        let mut es: Vec<E> = Vec::new();
        while rest.len() > 0
            invariant
                ts@ + ok_values(rest@) == ok_values(all),
                es@ + err_values(rest@) == err_values(all),
            decreases rest.len(),
        {
            let ghost before = rest@;
            let item = rest.remove(0);
            proof {
                assert(before.drop_first() =~= rest@);
            }
            match item {
                Ok(v) => {
                    ts.push(v);
                    proof {
                        assert(ts@ + ok_values(rest@) =~= ts@.drop_last() + ok_values(before));
                    }
                },
                Err(e) => {
                    es.push(e);
                    proof {
                        assert(es@ + err_values(rest@) =~= es@.drop_last() + err_values(before));
                    }
                },
            }
        }
        proof {
            assert(ts@ + ok_values(rest@) =~= ts@);
            assert(es@ + err_values(rest@) =~= es@);
        }
        (ts, es)
    }
}

} // verus!
