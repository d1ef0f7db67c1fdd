//! Errors with the chain of causes behind them, and their report.

use vstd::prelude::*;
use vstd::string::*;

verus! {

/// An error as plain text: what it says, and what each of the causes behind
/// it says, the nearest cause first.
#[derive(Clone, Debug, PartialEq, Eq)]
pub struct ErrorTrace {
    pub message: String,
    pub causes: Vec<String>,
}

/// The mathematical content of an `ErrorTrace`.
pub struct ErrorTraceView {
    pub message: Seq<char>,
    pub causes: Seq<Seq<char>>,
}

/// The texts of a list of strings, in order.
pub open spec fn texts(strings: Seq<String>) -> Seq<Seq<char>> {
    Seq::new(strings.len(), |i: int| strings[i]@)
}

impl View for ErrorTrace {
    type V = ErrorTraceView;

    open spec fn view(&self) -> ErrorTraceView {
        ErrorTraceView { message: self.message@, causes: texts(self.causes@) }
    }
}

/// The report of an error: its message and an empty line, then for each
/// cause a heading, and the cause on a line of its own after a tab.
pub open spec fn chain_report(message: Seq<char>, causes: Seq<Seq<char>>) -> Seq<char>
    decreases causes.len(),
{
    if causes.len() == 0 {
        message + "\n\n"@
    } else {
        chain_report(message, causes.drop_last()) + "Caused by:\n\t"@ + causes.last() + "\n"@
    }
}

/// Writes the report of an error and of the chain of causes behind it.
pub fn error_chain_fmt(message: &str, causes: &Vec<String>) -> (report: String)
    ensures
        report@ == chain_report(message@, texts(causes@)),
{
    let mut report = String::from_str(message);
    report.append("\n\n");
    let ghost all = texts(causes@);
    assert(all.subrange(0, 0) =~= Seq::<Seq<char>>::empty());
    let mut i: usize = 0;
    while i < causes.len()
        invariant
            i <= causes.len(),
            all == texts(causes@),
            report@ == chain_report(message@, all.subrange(0, i as int)),
        decreases causes.len() - i,
    {
        proof {
            assert(all.subrange(0, i + 1).drop_last() =~= all.subrange(0, i as int));
            assert(all.subrange(0, i + 1).last() == causes[i as int]@);
        }
        report.append("Caused by:\n\t");
        report.append(causes[i].as_str());
        report.append("\n");
        i = i + 1;
    }
    assert(all.subrange(0, causes.len() as int) =~= all);
    report
}

impl ErrorTrace {
    /// An error without a known cause.
    pub fn new(message: &str) -> (trace: ErrorTrace)
        ensures
            trace@ == (ErrorTraceView { message: message@, causes: Seq::empty() }),
    {
        let trace = ErrorTrace { message: String::from_str(message), causes: Vec::new() };
        assert(texts(trace.causes@) =~= Seq::<Seq<char>>::empty());
        trace
    }

    /// The error that says `message` and has `self` as its nearest cause.
    pub fn context(self, message: &str) -> (trace: ErrorTrace)
        ensures
            trace@ == (ErrorTraceView {
                message: message@,
                causes: seq![self@.message] + self@.causes,
            }),
    {
        let ErrorTrace { message: cause, causes: mut further } = self;
        let ghost rest = further@;
        further.insert(0, cause);
        let trace = ErrorTrace { message: String::from_str(message), causes: further };
        assert(texts(trace.causes@) =~= seq![cause@] + texts(rest));
        trace
    }

    /// The message with every cause: the error itself, then each cause, nearest first.
    pub fn chain(&self) -> (chain: Vec<String>)
        ensures
            texts(chain@) == seq![self@.message] + self@.causes,
    {
        let mut chain: Vec<String> = Vec::new();
        chain.push(self.message.clone());
        let mut i: usize = 0;
        while i < self.causes.len()
            invariant
                i <= self.causes.len(),
                texts(chain@) == seq![self@.message] + self@.causes.subrange(0, i as int),
            decreases self.causes.len() - i,
        {
            let ghost had = chain@;
            chain.push(self.causes[i].clone());
            assert(texts(chain@) =~= texts(had).push(self.causes[i as int]@));
            i = i + 1;
            assert(texts(chain@) =~= seq![self@.message] + self@.causes.subrange(0, i as int));
        }
        assert(self@.causes.subrange(0, self.causes.len() as int) =~= self@.causes);
        chain
    }
}

} // verus!
