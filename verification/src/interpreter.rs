//! The rule interpreter: a tree of nodes that run against one environment.

use vstd::prelude::*;
use vstd::std_specs::convert::FromSpecImpl;
use vstd::string::StringExecFns;
use crate::text::append_text;
use crate::value::{env_contents, Contents, VariableMapType};

verus! {

/// The kind of value that a node asked for.
#[derive(Clone, Copy, Debug, PartialEq, Eq, Structural)]
pub enum Expected {
    Vector,
    Mapping,
}

/// Why a node did not succeed.
#[derive(Clone, Debug, PartialEq, Eq)]
pub enum ExecError {
    /// The environment holds nothing under `key`.
    MissingKey { key: String },
    /// What the environment holds under `key` is not what the node works on.
    ValueTypeMismatch { key: String, expected: Expected },
    /// No branch of a conditional was taken.
    NoBranchTaken,
    /// An instruction failed, for the reason it gives.
    Failed { reason: String },
}

/// The mathematical value of an `ExecError`.
pub enum Failure {
    MissingKey { key: Seq<char> },
    ValueTypeMismatch { key: Seq<char>, expected: Expected },
    NoBranchTaken,
    Failed { reason: Seq<char> },
}

impl View for ExecError {
    type V = Failure;

    open spec fn view(&self) -> Failure {
        match self {
            ExecError::MissingKey { key } => Failure::MissingKey { key: key@ },
            ExecError::ValueTypeMismatch { key, expected } => Failure::ValueTypeMismatch {
                key: key@,
                expected: *expected,
            },
            ExecError::NoBranchTaken => Failure::NoBranchTaken,
            ExecError::Failed { reason } => Failure::Failed { reason: reason@ },
        }
    }
}

/// What a failure says of itself.
pub open spec fn failure_text(failure: Failure) -> Seq<char> {
    match failure {
        Failure::MissingKey { key } => "Value with Key "@ + key + " does not exist"@,
        Failure::ValueTypeMismatch { key, expected: Expected::Vector } =>
            "The Value attained with Key "@ + key + " is not a Vector"@,
        Failure::ValueTypeMismatch { key, expected: Expected::Mapping } =>
            "The Value attained with Key "@ + key + " is not a Map"@,
        Failure::NoBranchTaken => "Didn't execute anything."@,
        Failure::Failed { reason } => reason,
    }
}

impl ExecError {
    /// What the failure says of itself.
    pub fn message(&self) -> (text: String)
        ensures
            text@ == failure_text(self@),
    {
        match self {
            ExecError::MissingKey { key } => {
                let mut text = append_text("Value with Key ", key.as_str());
                text.append(" does not exist");
                text
            },
            ExecError::ValueTypeMismatch { key, expected: Expected::Vector } => {
                let mut text = append_text("The Value attained with Key ", key.as_str());
                text.append(" is not a Vector");
                text
            },
            ExecError::ValueTypeMismatch { key, expected: Expected::Mapping } => {
                let mut text = append_text("The Value attained with Key ", key.as_str());
                text.append(" is not a Map");
                text
            },
            ExecError::NoBranchTaken => String::from_str("Didn't execute anything."),
            ExecError::Failed { reason } => reason.clone(),
        }
    }
}

/// What a node came to, with the failure as its mathematical value.
pub open spec fn outcome(result: Result<(), ExecError>) -> Result<(), Failure> {
    match result {
        Ok(_) => Ok(()),
        Err(e) => Err(e@),
    }
}

/// A node of a rule tree: something that runs against the environment and
/// succeeds or fails.
pub trait Executable {
    /// Whether the node, run on an environment that holds `before`, may leave
    /// it holding `after` and come to `result`. What a node may do is the
    /// same before and after it runs. A node that does not say may do
    /// anything.
    open spec fn may(&self, before: Contents, after: Contents, result: Result<(), Failure>) -> bool {
        true
    }

    /// Runs the node against `env`.
    fn execute(&mut self, env: &mut VariableMapType) -> (result: Result<(), ExecError>)
        ensures
            old(self).may(env_contents(*old(env)), env_contents(*final(env)), outcome(result)),
            forall|before: Contents, after: Contents, result: Result<(), Failure>|
                #[trigger] final(self).may(before, after, result) == old(self).may(
                    before,
                    after,
                    result,
                ),
    ;
}

/// A predicate of a conditional: something that looks at the environment,
/// may change it, and says yes or no.
pub trait Condition {
    /// Whether the predicate, asked on an environment that holds `before`,
    /// may leave it holding `after` and give `answer`. What a predicate may
    /// do is the same before and after it is asked. A predicate that does
    /// not say may do anything.
    open spec fn may(&self, before: Contents, after: Contents, answer: bool) -> bool {
        true
    }

    /// Asks the predicate on `env`.
    fn holds(&mut self, env: &mut VariableMapType) -> (answer: bool)
        ensures
            old(self).may(env_contents(*old(env)), env_contents(*final(env)), answer),
            forall|before: Contents, after: Contents, answer: bool|
                #[trigger] final(self).may(before, after, answer) == old(self).may(
                    before,
                    after,
                    answer,
                ),
    ;
}

/// A predicate as a conditional holds it.
pub type ConditionalFn = Box<dyn Condition>;

/// A leaf of the tree: one operation, given as a function that accepts
/// every environment. Running the instruction is calling the function. As a
/// node of a tree, an instruction may do anything: what is known of its
/// function does not reach `may`. An operation of which a tree is to know
/// more, or that keeps state of its own between runs, is a type of its own
/// with `Executable`.
pub struct Instruction<F: Fn(&mut VariableMapType) -> Result<(), ExecError>> {
    function: F,
}

impl<F: Fn(&mut VariableMapType) -> Result<(), ExecError>> Instruction<F> {
    #[verifier::type_invariant]
    spec fn callable(&self) -> bool {
        forall|env: &mut VariableMapType| call_requires(self.function, (env,))
    }

    /// The function that the instruction runs.
    pub closed spec fn operation(self) -> F {
        self.function
    }

    /// The instruction that runs `function`.
    pub fn new(function: F) -> (instruction: Self)
        requires
            forall|env: &mut VariableMapType| call_requires(function, (env,)),
        ensures
            instruction.operation() == function,
    {
        Instruction { function }
    }
}

impl<F: Fn(&mut VariableMapType) -> Result<(), ExecError>> Executable for Instruction<F> {
    /// Calls the function on `env`: the environment is left as the function
    /// leaves it, and the result is the function's. The instruction stays
    /// as it is.
    fn execute(&mut self, env: &mut VariableMapType) -> (result: Result<(), ExecError>)
        ensures
            *final(self) == *old(self),
            exists|run: &mut VariableMapType|
                *run == *old(env) && *final(run) == *final(env) && #[trigger] call_ensures(
                    old(self).operation(),
                    (run,),
                    result,
                ),
    {
        proof {
            use_type_invariant(&*self);
        }
        let result = (self.function)(env);
        assert(self.function == old(self).operation());
        result
    }
}

/// A predicate given as a function that accepts every environment. Asking
/// the predicate is calling the function. As a predicate of a group, it may
/// do anything: what is known of its function does not reach `may`.
pub struct Predicate<F: Fn(&mut VariableMapType) -> bool> {
    function: F,
}

impl<F: Fn(&mut VariableMapType) -> bool> Predicate<F> {
    #[verifier::type_invariant]
    spec fn callable(&self) -> bool {
        forall|env: &mut VariableMapType| call_requires(self.function, (env,))
    }

    /// The function that the predicate asks.
    pub closed spec fn question(self) -> F {
        self.function
    }

    /// The predicate that asks `function`.
    pub fn new(function: F) -> (predicate: Self)
        requires
            forall|env: &mut VariableMapType| call_requires(function, (env,)),
        ensures
            predicate.question() == function,
    {
        Predicate { function }
    }
}

impl<F: Fn(&mut VariableMapType) -> bool> Condition for Predicate<F> {
    /// Calls the function on `env`: the environment is left as the function
    /// leaves it, and the answer is the function's. The predicate stays as
    /// it is.
    fn holds(&mut self, env: &mut VariableMapType) -> (answer: bool)
        ensures
            *final(self) == *old(self),
            exists|run: &mut VariableMapType|
                *run == *old(env) && *final(run) == *final(env) && #[trigger] call_ensures(
                    old(self).question(),
                    (run,),
                    answer,
                ),
    {
        proof {
            use_type_invariant(&*self);
        }
        let answer = (self.function)(env);
        assert(self.function == old(self).question());
        answer
    }
}

/// Two bodies have as many nodes, and node for node these may do the same.
pub open spec fn bodies_alike(a: Seq<Box<dyn Executable>>, b: Seq<Box<dyn Executable>>) -> bool {
    a.len() == b.len() && forall|k: int, before: Contents, after: Contents, result: Result<(), Failure>|
        0 <= k < a.len() ==> #[trigger] a[k].may(before, after, result) == b[k].may(
            before,
            after,
            result,
        )
}

/// Whether the nodes of `body` from `from` on, run in order on an
/// environment that holds `before` up to the first that fails, may leave it
/// holding `after` and come to `result`: the failure of that node, or success
/// where none fails.
pub open spec fn body_may(
    body: Seq<Box<dyn Executable>>,
    from: int,
    before: Contents,
    after: Contents,
    result: Result<(), Failure>,
) -> bool
    decreases body.len() - from,
{
    if from < 0 || from >= body.len() {
        after == before && result == Ok::<(), Failure>(())
    } else {
        exists|mid: Contents, step: Result<(), Failure>|
            #[trigger] body[from].may(before, mid, step) && if step is Err {
                after == mid && result == step
            } else {
                body_may(body, from + 1, mid, after, result)
            }
    }
}

/// Bodies that are alike may do the same.
pub proof fn lemma_body_alike(
    a: Seq<Box<dyn Executable>>,
    b: Seq<Box<dyn Executable>>,
    from: int,
    before: Contents,
    after: Contents,
    result: Result<(), Failure>,
)
    requires
        bodies_alike(a, b),
    ensures
        body_may(a, from, before, after, result) == body_may(b, from, before, after, result),
    decreases a.len() - from,
{
    if 0 <= from < a.len() {
        if body_may(a, from, before, after, result) {
            let (mid, step) = choose|mid: Contents, step: Result<(), Failure>|
                #[trigger] a[from].may(before, mid, step) && if step is Err {
                    after == mid && result == step
                } else {
                    body_may(a, from + 1, mid, after, result)
                };
            lemma_body_alike(a, b, from + 1, mid, after, result);
        }
        if body_may(b, from, before, after, result) {
            let (mid, step) = choose|mid: Contents, step: Result<(), Failure>|
                #[trigger] b[from].may(before, mid, step) && if step is Err {
                    after == mid && result == step
                } else {
                    body_may(b, from + 1, mid, after, result)
                };
            lemma_body_alike(a, b, from + 1, mid, after, result);
            assert(a[from].may(before, mid, step));
        }
    }
}

/// Runs the nodes of a body in order and stops at the first that fails.
/// An empty body succeeds.
pub fn run_body(body: &mut Vec<Box<dyn Executable>>, env: &mut VariableMapType) -> (result: Result<
    (),
    ExecError,
>)
    ensures
        body_may(
            old(body)@,
            0,
            env_contents(*old(env)),
            env_contents(*final(env)),
            outcome(result),
        ),
        bodies_alike(final(body)@, old(body)@),
        old(body).len() == 0 ==> result == Ok::<(), ExecError>(()) && *final(env) == *old(env),
{
    let mut i: usize = 0;
    while i < body.len()
        invariant
            i <= body.len(),
            bodies_alike(body@, old(body)@),
            i == 0 ==> *env == *old(env),
            forall|after: Contents, result: Result<(), Failure>|
                body_may(old(body)@, i as int, env_contents(*env), after, result) ==> body_may(
                    old(body)@,
                    0,
                    env_contents(*old(env)),
                    after,
                    result,
                ),
        decreases body.len() - i,
    {
        let ghost nodes = body@;
        let result = body[i].execute(env);
        proof {
            assert forall|k: int, b: Contents, a: Contents, r: Result<(), Failure>|
                0 <= k < body.len() implies #[trigger] body@[k].may(b, a, r) == old(body)@[k].may(
                b,
                a,
                r,
            ) by {
                if k != i {
                    vstd::seq::axiom_seq_update_different(nodes, k, i as int, body@[i as int]);
                }
            }
        }
        if result.is_err() {
            return result;
        }
        i += 1;
    }
    Ok(())
}

/// The mathematical values of failures.
pub open spec fn failures_view(failures: Seq<ExecError>) -> Seq<Failure> {
    failures.map_values(|e: ExecError| e@)
}

/// The failure of a step, if it failed, before those of the steps after it.
pub open spec fn with_failure(step: Result<(), Failure>, rest: Seq<Failure>) -> Seq<Failure> {
    match step {
        Ok(_) => rest,
        Err(failure) => seq![failure] + rest,
    }
}

/// The failures of earlier steps before those of later ones.
pub open spec fn failures_then(some: Seq<Failure>, rest: Seq<Failure>) -> Seq<Failure> {
    some + rest
}

/// Whether all nodes of `body` from `from` on, run in order on an environment
/// that holds `before`, may leave it holding `after`, with `failed` as the
/// failures of those that failed, in order. No failure keeps a later node
/// from running.
pub open spec fn each_may(
    body: Seq<Box<dyn Executable>>,
    from: int,
    before: Contents,
    after: Contents,
    failed: Seq<Failure>,
) -> bool
    decreases body.len() - from,
{
    if from < 0 || from >= body.len() {
        after == before && failed == Seq::<Failure>::empty()
    } else {
        exists|mid: Contents, step: Result<(), Failure>, rest: Seq<Failure>|
            #[trigger] body[from].may(before, mid, step) && each_may(body, from + 1, mid, after, rest)
                && failed == #[trigger] with_failure(step, rest)
    }
}

/// Bodies that are alike may do the same when each node is run.
pub proof fn lemma_each_alike(
    a: Seq<Box<dyn Executable>>,
    b: Seq<Box<dyn Executable>>,
    from: int,
    before: Contents,
    after: Contents,
    failed: Seq<Failure>,
)
    requires
        bodies_alike(a, b),
    ensures
        each_may(a, from, before, after, failed) == each_may(b, from, before, after, failed),
    decreases a.len() - from,
{
    if 0 <= from < a.len() {
        if each_may(a, from, before, after, failed) {
            let (mid, step, rest) = choose|mid: Contents, step: Result<(), Failure>, rest: Seq<Failure>|
                #[trigger] a[from].may(before, mid, step) && each_may(a, from + 1, mid, after, rest)
                    && failed == #[trigger] with_failure(step, rest);
            lemma_each_alike(a, b, from + 1, mid, after, rest);
        }
        if each_may(b, from, before, after, failed) {
            let (mid, step, rest) = choose|mid: Contents, step: Result<(), Failure>, rest: Seq<Failure>|
                #[trigger] b[from].may(before, mid, step) && each_may(b, from + 1, mid, after, rest)
                    && failed == #[trigger] with_failure(step, rest);
            lemma_each_alike(a, b, from + 1, mid, after, rest);
            assert(a[from].may(before, mid, step) && each_may(a, from + 1, mid, after, rest));
        }
    }
}

/// Runs every node of a body in order. A failure is added to `failures`, and
/// the nodes after it still run.
pub fn run_each(
    body: &mut Vec<Box<dyn Executable>>,
    failures: &mut Vec<ExecError>,
    env: &mut VariableMapType,
)
    ensures
        old(failures)@.is_prefix_of(final(failures)@),
        each_may(
            old(body)@,
            0,
            env_contents(*old(env)),
            env_contents(*final(env)),
            failures_view(final(failures)@.skip(old(failures).len() as int)),
        ),
        bodies_alike(final(body)@, old(body)@),
        old(body).len() == 0 ==> *final(env) == *old(env) && *final(failures) == *old(failures),
{
    let ghost n = failures.len() as int;
    let mut i: usize = 0;
    while i < body.len()
        invariant
            i <= body.len(),
            n == old(failures).len(),
            bodies_alike(body@, old(body)@),
            old(failures)@.is_prefix_of(failures@),
            i == 0 ==> *env == *old(env) && *failures == *old(failures),
            forall|after: Contents, rest: Seq<Failure>|
                each_may(old(body)@, i as int, env_contents(*env), after, rest) ==> each_may(
                    old(body)@,
                    0,
                    env_contents(*old(env)),
                    after,
                    failures_view(failures@.skip(n)) + rest,
                ),
        decreases body.len() - i,
    {
        let ghost before = env_contents(*env);
        let ghost nodes = body@;
        let ghost failed = failures_view(failures@.skip(n));
        let result = body[i].execute(env);
        let ghost step = outcome(result);
        proof {
            assert forall|k: int, b: Contents, a: Contents, r: Result<(), Failure>|
                0 <= k < body.len() implies #[trigger] body@[k].may(b, a, r) == old(body)@[k].may(
                b,
                a,
                r,
            ) by {
                if k != i {
                    vstd::seq::axiom_seq_update_different(nodes, k, i as int, body@[i as int]);
                }
            }
        }
        if let Err(failure) = result {
            failures.push(failure);
        }
        proof {
            let now = failures_view(failures@.skip(n));
            assert forall|after: Contents, rest: Seq<Failure>|
                each_may(old(body)@, i + 1, env_contents(*env), after, rest) implies each_may(
                old(body)@,
                0,
                env_contents(*old(env)),
                after,
                now + rest,
            ) by {
                assert(each_may(
                    old(body)@,
                    i as int,
                    before,
                    after,
                    with_failure(step, rest),
                ));
                assert(now + rest =~= failed + with_failure(step, rest));
            }
        }
        i += 1;
    }
    proof {
        assert(each_may(
            old(body)@,
            body.len() as int,
            env_contents(*env),
            env_contents(*env),
            Seq::<Failure>::empty(),
        ));
    }
}

impl<F: Fn(&mut VariableMapType) -> Result<(), ExecError> + 'static> From<Instruction<F>> for Box<dyn Executable> {
    fn from(instruction: Instruction<F>) -> (node: Self) {
        Box::new(instruction)
    }
}

impl<F: Fn(&mut VariableMapType) -> Result<(), ExecError> + 'static> FromSpecImpl<Instruction<F>> for Box<dyn Executable> {
    open spec fn obeys_from_spec() -> bool {
        false
    }

    open spec fn from_spec(instruction: Instruction<F>) -> Self {
        arbitrary()
    }
}

impl<F: Fn(&mut VariableMapType) -> bool + 'static> From<Predicate<F>> for Box<dyn Condition> {
    fn from(predicate: Predicate<F>) -> (condition: Self) {
        Box::new(predicate)
    }
}

impl<F: Fn(&mut VariableMapType) -> bool + 'static> FromSpecImpl<Predicate<F>> for Box<dyn Condition> {
    open spec fn obeys_from_spec() -> bool {
        false
    }

    open spec fn from_spec(predicate: Predicate<F>) -> Self {
        arbitrary()
    }
}

} // verus!
