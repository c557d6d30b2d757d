//! The AML interpreter, and the record of the calls made into it.
use crate::error::AmlFault;
use vstd::prelude::*;

verus! {

/// What a value of the AML namespace is, as far as this library reads it.
pub enum AmlObject {
    /// A package, with the integer value of each element that has one.
    Package(Vec<Option<u64>>),
    /// Any other kind of object.
    Other,
}

/// The AML interpreter: it parses tables into a namespace, evaluates objects and invokes methods.
pub trait AmlInterpreter {
    fn parse_table(&mut self, stream: &[u8]) -> Result<(), AmlFault>;

    fn initialize_objects(&mut self) -> Result<(), AmlFault>;

    /// Evaluates the object at the absolute path `path`.
    fn evaluate(&self, path: &str) -> Result<AmlObject, AmlFault>;

    /// Invokes the method at the absolute path `path` with integer arguments.
    fn invoke_method(&mut self, path: &str, args: Vec<u64>) -> Result<(), AmlFault>;
}

/// One call into the AML interpreter, with what it returned.
pub enum AmlCall {
    ParseTable { stream: Seq<u8>, result: Result<(), AmlFault> },
    InitializeObjects { result: Result<(), AmlFault> },
    Evaluate { path: &'static str, result: Result<AmlObject, AmlFault> },
    Invoke { path: &'static str, args: Seq<u64>, result: Result<(), AmlFault> },
}

/// What an evaluation returned.
pub open spec fn evaluated(call: AmlCall) -> Result<AmlObject, AmlFault> {
    match call {
        AmlCall::Evaluate { result, .. } => result,
        _ => Err(AmlFault::ValueDoesNotExist),
    }
}

/// What an invocation, a parse or an initialization returned.
pub open spec fn outcome(call: AmlCall) -> Result<(), AmlFault> {
    match call {
        AmlCall::Invoke { result, .. } => result,
        AmlCall::ParseTable { result, .. } => result,
        AmlCall::InitializeObjects { result } => result,
        _ => Ok(()),
    }
}

/// Whether `call` is an evaluation of `path`, whatever it returned.
pub open spec fn is_evaluation_of(call: AmlCall, path: &'static str) -> bool {
    match call {
        AmlCall::Evaluate { path: p, .. } => p == path,
        _ => false,
    }
}

/// Whether `call` is a parse of `stream`, whatever it returned.
pub open spec fn is_parse_of(call: AmlCall, stream: Seq<u8>) -> bool {
    match call {
        AmlCall::ParseTable { stream: s, .. } => s == stream,
        _ => false,
    }
}

/// Whether `call` is an invocation of `path` with `args`, whatever it returned.
pub open spec fn is_invocation_of(call: AmlCall, path: &'static str, args: Seq<u64>) -> bool {
    match call {
        AmlCall::Invoke { path: p, args: a, .. } => p == path && a == args,
        _ => false,
    }
}

/// The interpreter `A`, with the record of the calls made into it.
pub struct AmlSession<A: AmlInterpreter> {
    pub interpreter: A,
    calls: Ghost<Seq<AmlCall>>,
}

impl<A: AmlInterpreter> AmlSession<A> {
    /// The calls made into the interpreter so far, oldest first.
    pub closed spec fn log(&self) -> Seq<AmlCall> {
        self.calls@
    }

    /// The interpreter itself.
    pub closed spec fn inner(&self) -> A {
        self.interpreter
    }

    pub fn new(interpreter: A) -> (r: Self)
        ensures
            r.inner() == interpreter,
            r.log() == Seq::<AmlCall>::empty(),
    {
        AmlSession { interpreter, calls: Ghost(Seq::empty()) }
    }

    fn record(&mut self, call: Ghost<AmlCall>)
        ensures
            final(self).log() == old(self).log().push(call@),
    {
        self.calls = Ghost(self.calls@.push(call@));
    }

    pub fn parse_table(&mut self, stream: &[u8]) -> (r: Result<(), AmlFault>)
        ensures
            final(self).log() == old(self).log().push(
                AmlCall::ParseTable { stream: stream@, result: r },
            ),
    {
        let r = self.interpreter.parse_table(stream);
        self.record(Ghost(AmlCall::ParseTable { stream: stream@, result: r }));
        r
    }

    pub fn initialize_objects(&mut self) -> (r: Result<(), AmlFault>)
        ensures
            final(self).log() == old(self).log().push(AmlCall::InitializeObjects { result: r }),
    {
        let r = self.interpreter.initialize_objects();
        self.record(Ghost(AmlCall::InitializeObjects { result: r }));
        r
    }

    pub fn evaluate(&mut self, path: &'static str) -> (r: Result<AmlObject, AmlFault>)
        ensures
            final(self).log() == old(self).log().push(AmlCall::Evaluate { path, result: r }),
    {
        let r = self.interpreter.evaluate(path);
        self.record(Ghost(AmlCall::Evaluate { path, result: r }));
        r
    }

    pub fn invoke_method(&mut self, path: &'static str, args: Vec<u64>) -> (r: Result<
        (),
        AmlFault,
    >)
        ensures
            final(self).log() == old(self).log().push(
                AmlCall::Invoke { path, args: args@, result: r },
            ),
    {
        let ghost arg_values = args@;
        let r = self.interpreter.invoke_method(path, args);
        self.record(Ghost(AmlCall::Invoke { path, args: arg_values, result: r }));
        r
    }
}

} // verus!
