//! The error contract of a deployment run.
//!
//! Every error aborts the remainder of the run; recovery is the operator
//! re-running deployment, which is safe because every remote operation is
//! idempotent with respect to the desired final state.  The operator-facing
//! message of each error is part of the contract: it carries the offending
//! namespace name, or the verbatim status and body of a failed remote call.

use vstd::prelude::*;
use vstd::string::StringExecFns;

verus! {

/// Why a deployment run stopped.
#[derive(Debug)]
pub enum DeployError {
    /// The control plane answered a non-success status; carries the
    /// status code and the response body verbatim.
    RemoteError { status: u16, body: String },
    /// A used binding names a namespace that neither the directory nor
    /// the run's own creations know: a configuration error.
    NamespaceNotFound { name: String },
    /// The control plane answered success but the response body did not
    /// have the expected shape.
    MalformedResponse,
}

/// Mathematical image of a [`DeployError`].
pub ghost enum DeployErrorView {
    RemoteError { status: u16, body: Seq<char> },
    NamespaceNotFound { name: Seq<char> },
    MalformedResponse,
}

impl View for DeployError {
    type V = DeployErrorView;

    open spec fn view(&self) -> DeployErrorView {
        match self {
            DeployError::RemoteError { status, body } => DeployErrorView::RemoteError {
                status: *status,
                body: body@,
            },
            DeployError::NamespaceNotFound { name } => DeployErrorView::NamespaceNotFound {
                name: name@,
            },
            DeployError::MalformedResponse => DeployErrorView::MalformedResponse,
        }
    }
}

impl Clone for DeployError {
    fn clone(&self) -> (res: Self)
        ensures
            res == *self,
    {
        match self {
            DeployError::RemoteError { status, body } => DeployError::RemoteError {
                status: *status,
                body: body.clone(),
            },
            DeployError::NamespaceNotFound { name } => DeployError::NamespaceNotFound {
                name: name.clone(),
            },
            DeployError::MalformedResponse => DeployError::MalformedResponse,
        }
    }
}

/// The decimal digit `d` as a character.
pub open spec fn decimal_digit(d: nat) -> char
    recommends
        d < 10,
{
    if d == 0 {
        '0'
    } else if d == 1 {
        '1'
    } else if d == 2 {
        '2'
    } else if d == 3 {
        '3'
    } else if d == 4 {
        '4'
    } else if d == 5 {
        '5'
    } else if d == 6 {
        '6'
    } else if d == 7 {
        '7'
    } else if d == 8 {
        '8'
    } else {
        '9'
    }
}

/// The usual decimal notation of `n`, most significant digit first and
/// without leading zeroes.
pub open spec fn decimal_string(n: nat) -> Seq<char>
    decreases n,
{
    if n < 10 {
        seq![decimal_digit(n)]
    } else {
        decimal_string(n / 10).push(decimal_digit(n % 10))
    }
}

fn decimal_digit_str(d: u16) -> (s: &'static str)
    requires
        d < 10,
    ensures
        s@ == seq![decimal_digit(d as nat)],
{
    let s: &'static str = match d {
        0 => "0",
        1 => "1",
        2 => "2",
        3 => "3",
        4 => "4",
        5 => "5",
        6 => "6",
        7 => "7",
        8 => "8",
        _ => "9",
    };
    proof {
        reveal_strlit("0");
        reveal_strlit("1");
        reveal_strlit("2");
        reveal_strlit("3");
        reveal_strlit("4");
        reveal_strlit("5");
        reveal_strlit("6");
        reveal_strlit("7");
        reveal_strlit("8");
        reveal_strlit("9");
        assert(s@ =~= seq![decimal_digit(d as nat)]);
    }
    s
}

fn push_decimal(n: u16, out: &mut String)
    ensures
        final(out)@ == old(out)@ + decimal_string(n as nat),
    decreases n,
{
    if n < 10 {
        out.append(decimal_digit_str(n));
        proof {
            assert(final(out)@ =~= old(out)@ + decimal_string(n as nat));
        }
    } else {
        assert(n / 10 < n && n / 10 >= 1) by (nonlinear_arith)
            requires
                n >= 10,
        ;
        push_decimal(n / 10, out);
        out.append(decimal_digit_str(n % 10));
        proof {
            assert(final(out)@ =~= old(out)@ + decimal_string(n as nat));
        }
    }
}

/// The operator-facing message of an error.
pub open spec fn error_message(e: DeployErrorView) -> Seq<char> {
    match e {
        DeployErrorView::RemoteError { status, body } => "Something went wrong! Status: "@
            + decimal_string(status as nat) + ", Details "@ + body,
        DeployErrorView::NamespaceNotFound { name } => "durable object namespace with name "@
            + name + " was not found in your account."@,
        DeployErrorView::MalformedResponse => "malformed response from the control plane"@,
    }
}

impl DeployError {
    /// The operator-facing description of the error: for a remote error
    /// the verbatim status and body, for an unresolvable binding the
    /// offending namespace name.
    pub fn message(&self) -> (msg: String)
        ensures
            msg@ == error_message(self@),
    {
        match self {
            DeployError::RemoteError { status, body } => {
                let mut s = String::from_str("Something went wrong! Status: ");
                push_decimal(*status, &mut s);
                s.append(", Details ");
                s.append(body.as_str());
                proof {
                    assert(s@ =~= error_message(self@));
                }
                s
            }
            DeployError::NamespaceNotFound { name } => {
                let mut s = String::from_str("durable object namespace with name ");
                s.append(name.as_str());
                s.append(" was not found in your account.");
                proof {
                    assert(s@ =~= error_message(self@));
                }
                s
            }
            DeployError::MalformedResponse => {
                String::from_str("malformed response from the control plane")
            }
        }
    }
}

} // verus!
