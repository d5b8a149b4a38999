//! The branching node of the rule interpreter.

use vstd::prelude::*;
use vstd::std_specs::convert::FromSpecImpl;
use crate::interpreter::{
    bodies_alike, body_may, lemma_body_alike, outcome, run_body, Condition, ConditionalFn, ExecError,
    Executable, Failure,
};
use crate::value::{env_contents, Contents, VariableMapType};

verus! {

/// The outcome of a group of predicates, from their answers in the order in
/// which they were asked: the answer of the last one. The answers before it
/// do not count. A group without predicates does not match.
pub open spec fn group_outcome(answers: Seq<bool>) -> bool {
    answers.len() > 0 && answers.last()
}

/// The outcome of a group whose predicates gave `answers`.
pub fn decide_group(answers: &Vec<bool>) -> (outcome: bool)
    ensures
        outcome == group_outcome(answers@),
{
    let n = answers.len();
    n > 0 && answers[n - 1]
}

/// What a conditional does once its groups are decided.
#[derive(Clone, Copy, Debug, PartialEq, Eq, Structural)]
pub enum Branch {
    /// Run the body.
    Body,
    /// Try the conditionals of the else-if chain in order.
    ElseIf,
    /// Run the else body.
    Else,
    /// Fail: no branch is taken.
    Nothing,
}

/// The branch of a conditional: its body where a group matched; else its
/// else-if chain where it has one, and only without one its else body.
pub open spec fn branch_after(matched: bool, has_else_if: bool, has_else: bool) -> Branch {
    if matched {
        Branch::Body
    } else if has_else_if {
        Branch::ElseIf
    } else if has_else {
        Branch::Else
    } else {
        Branch::Nothing
    }
}

/// The branch that a conditional takes.
pub fn choose_branch(matched: bool, has_else_if: bool, has_else: bool) -> (branch: Branch)
    ensures
        branch == branch_after(matched, has_else_if, has_else),
{
    if matched {
        Branch::Body
    } else if has_else_if {
        Branch::ElseIf
    } else if has_else {
        Branch::Else
    } else {
        Branch::Nothing
    }
}

/// Two groups have as many predicates, and predicate for predicate these
/// may do the same.
pub open spec fn group_alike(a: Seq<ConditionalFn>, b: Seq<ConditionalFn>) -> bool {
    a.len() == b.len() && forall|k: int, before: Contents, after: Contents, answer: bool|
        0 <= k < a.len() ==> #[trigger] a[k].may(before, after, answer) == b[k].may(
            before,
            after,
            answer,
        )
}

/// Whether the predicates of `group` from `from` on, asked in order on an
/// environment that holds `before`, may leave it holding `after` and give the
/// group the outcome `outcome`, where `seen` is the answer of the predicate
/// asked last, if any: every predicate is asked, and the last answer is the
/// outcome.
pub open spec fn group_may(
    group: Seq<ConditionalFn>,
    from: int,
    seen: bool,
    before: Contents,
    after: Contents,
    outcome: bool,
) -> bool
    decreases group.len() - from,
{
    if from < 0 || from >= group.len() {
        after == before && outcome == seen
    } else {
        exists|mid: Contents, answer: bool|
            #[trigger] group[from].may(before, mid, answer) && group_may(
                group,
                from + 1,
                answer,
                mid,
                after,
                outcome,
            )
    }
}

/// Groups that are alike may do the same.
pub proof fn lemma_group_alike(
    a: Seq<ConditionalFn>,
    b: Seq<ConditionalFn>,
    from: int,
    seen: bool,
    before: Contents,
    after: Contents,
    outcome: bool,
)
    requires
        group_alike(a, b),
    ensures
        group_may(a, from, seen, before, after, outcome) == group_may(
            b,
            from,
            seen,
            before,
            after,
            outcome,
        ),
    decreases a.len() - from,
{
    if 0 <= from < a.len() {
        if group_may(a, from, seen, before, after, outcome) {
            let (mid, answer) = choose|mid: Contents, answer: bool|
                #[trigger] a[from].may(before, mid, answer) && group_may(
                    a,
                    from + 1,
                    answer,
                    mid,
                    after,
                    outcome,
                );
            lemma_group_alike(a, b, from + 1, answer, mid, after, outcome);
        }
        if group_may(b, from, seen, before, after, outcome) {
            let (mid, answer) = choose|mid: Contents, answer: bool|
                #[trigger] b[from].may(before, mid, answer) && group_may(
                    b,
                    from + 1,
                    answer,
                    mid,
                    after,
                    outcome,
                );
            lemma_group_alike(a, b, from + 1, answer, mid, after, outcome);
            assert(a[from].may(before, mid, answer));
        }
    }
}

/// Asks every predicate of a group in order and gives the group's outcome.
pub fn ask_group(group: &mut Vec<ConditionalFn>, env: &mut VariableMapType) -> (outcome: bool)
    ensures
        group_may(
            old(group)@,
            0,
            false,
            env_contents(*old(env)),
            env_contents(*final(env)),
            outcome,
        ),
        group_alike(final(group)@, old(group)@),
        old(group).len() == 0 ==> !outcome && *final(env) == *old(env),
{
    let mut answers: Vec<bool> = Vec::new();
    let mut i: usize = 0;
    while i < group.len()
        invariant
            i <= group.len(),
            group_alike(group@, old(group)@),
            answers.len() == i,
            i == 0 ==> *env == *old(env),
            forall|after: Contents, outcome: bool|
                group_may(
                    old(group)@,
                    i as int,
                    group_outcome(answers@),
                    env_contents(*env),
                    after,
                    outcome,
                ) ==> group_may(old(group)@, 0, false, env_contents(*old(env)), after, outcome),
        decreases group.len() - i,
    {
        let ghost asked = group@;
        let answer = group[i].holds(env);
        answers.push(answer);
        proof {
            assert forall|k: int, b: Contents, a: Contents, r: bool|
                0 <= k < group.len() implies #[trigger] group@[k].may(b, a, r) == old(group)@[k].may(
                b,
                a,
                r,
            ) by {
                if k != i {
                    vstd::seq::axiom_seq_update_different(asked, k, i as int, group@[i as int]);
                }
            }
        }
        i += 1;
    }
    decide_group(&answers)
}

/// No group of `conditions` has a predicate to ask.
pub open spec fn asks_nothing(conditions: Seq<Vec<ConditionalFn>>) -> bool {
    forall|i: int| 0 <= i < conditions.len() ==> (#[trigger] conditions[i]).len() == 0
}

/// Two lists of groups are as long, and group for group alike.
pub open spec fn groups_alike(a: Seq<Vec<ConditionalFn>>, b: Seq<Vec<ConditionalFn>>) -> bool {
    a.len() == b.len() && forall|i: int| 0 <= i < a.len() ==> #[trigger] group_alike(a[i]@, b[i]@)
}

/// Whether the groups of `conditions` from `from` on, asked in order on an
/// environment that holds `before` up to the first that matches, may leave it
/// holding `after`, with `matched` saying whether one did.
pub open spec fn groups_may(
    conditions: Seq<Vec<ConditionalFn>>,
    from: int,
    before: Contents,
    after: Contents,
    matched: bool,
) -> bool
    decreases conditions.len() - from,
{
    if from < 0 || from >= conditions.len() {
        after == before && !matched
    } else {
        exists|mid: Contents, outcome: bool|
            #[trigger] group_may(conditions[from]@, 0, false, before, mid, outcome) && if outcome {
                after == mid && matched
            } else {
                groups_may(conditions, from + 1, mid, after, matched)
            }
    }
}

/// Lists of groups that are alike may do the same.
pub proof fn lemma_groups_alike(
    a: Seq<Vec<ConditionalFn>>,
    b: Seq<Vec<ConditionalFn>>,
    from: int,
    before: Contents,
    after: Contents,
    matched: bool,
)
    requires
        groups_alike(a, b),
    ensures
        groups_may(a, from, before, after, matched) == groups_may(b, from, before, after, matched),
    decreases a.len() - from,
{
    if 0 <= from < a.len() {
        if groups_may(a, from, before, after, matched) {
            let (mid, outcome) = choose|mid: Contents, outcome: bool|
                #[trigger] group_may(a[from]@, 0, false, before, mid, outcome) && if outcome {
                    after == mid && matched
                } else {
                    groups_may(a, from + 1, mid, after, matched)
                };
            lemma_group_alike(a[from]@, b[from]@, 0, false, before, mid, outcome);
            lemma_groups_alike(a, b, from + 1, mid, after, matched);
        }
        if groups_may(b, from, before, after, matched) {
            let (mid, outcome) = choose|mid: Contents, outcome: bool|
                #[trigger] group_may(b[from]@, 0, false, before, mid, outcome) && if outcome {
                    after == mid && matched
                } else {
                    groups_may(b, from + 1, mid, after, matched)
                };
            lemma_group_alike(a[from]@, b[from]@, 0, false, before, mid, outcome);
            lemma_groups_alike(a, b, from + 1, mid, after, matched);
        }
    }
}

/// Asks the groups in order and stops at the first that matches. Says
/// whether one did.
pub fn ask_groups(conditions: &mut Vec<Vec<ConditionalFn>>, env: &mut VariableMapType) -> (matched:
    bool)
    ensures
        groups_may(
            old(conditions)@,
            0,
            env_contents(*old(env)),
            env_contents(*final(env)),
            matched,
        ),
        groups_alike(final(conditions)@, old(conditions)@),
        asks_nothing(old(conditions)@) ==> !matched && *final(env) == *old(env),
{
    let mut i: usize = 0;
    while i < conditions.len()
        invariant
            i <= conditions.len(),
            conditions.len() == old(conditions).len(),
            forall|k: int| i <= k < conditions.len() ==> conditions[k] == old(conditions)[k],
            groups_alike(conditions@, old(conditions)@),
            asks_nothing(old(conditions)@) ==> *env == *old(env),
            forall|after: Contents, matched: bool|
                groups_may(old(conditions)@, i as int, env_contents(*env), after, matched)
                    ==> groups_may(old(conditions)@, 0, env_contents(*old(env)), after, matched),
        decreases conditions.len() - i,
    {
        let outcome = ask_group(&mut conditions[i], env);
        if outcome {
            return true;
        }
        i += 1;
    }
    false
}

/// A branching node. Its groups of predicates are asked in order; the first
/// group that matches has the body run. Where none matches, the else-if chain
/// or the else body decides, as `branch_after` says.
pub struct Conditional {
    pub conditions: Vec<Vec<ConditionalFn>>,
    pub executables: Vec<Box<dyn Executable>>,
    pub else_if_conditionals: Option<Vec<Conditional>>,
    pub else_executables: Option<Vec<Box<dyn Executable>>>,
}

impl Default for Conditional {
    fn default() -> (node: Self)
        ensures
            node.conditions.len() == 0,
            node.executables.len() == 0,
            node.else_if_conditionals is None,
            node.else_executables is None,
    {
        Conditional {
            conditions: Vec::new(),
            executables: Vec::new(),
            else_if_conditionals: None,
            else_executables: None,
        }
    }
}

/// Marks a step of a chain.
pub open spec fn chain_step(mid: Contents, step: Result<(), Failure>) -> bool {
    true
}

/// Marks the state in which a conditional has asked its groups.
pub open spec fn asked(mid: Contents, matched: bool) -> bool {
    true
}

/// Whether the conditionals of `chain` from `from` on, run in order on an
/// environment that holds `before` up to the first that succeeds, may leave
/// it holding `after` and come to `result`: success, or no branch taken
/// where none succeeds.
pub open spec fn chain_may(
    chain: Seq<Conditional>,
    from: int,
    before: Contents,
    after: Contents,
    result: Result<(), Failure>,
) -> bool
    decreases chain, chain.len() - from,
{
    if from < 0 || from >= chain.len() {
        after == before && result == Err::<(), _>(Failure::NoBranchTaken)
    } else {
        exists|mid: Contents, step: Result<(), Failure>|
            #[trigger] chain_step(mid, step) && chain[from].runs(before, mid, step) && if step is Ok {
                after == mid && result == step
            } else {
                chain_may(chain, from + 1, mid, after, result)
            }
    }
}

impl Conditional {
    /// Whether the conditional, run on an environment that holds `before`,
    /// may leave it holding `after` and come to `result`: its groups are
    /// asked, and then the branch that `branch_after` names is taken.
    pub open spec fn runs(self, before: Contents, after: Contents, result: Result<(), Failure>) -> bool
        decreases self, 0int,
    {
        exists|mid: Contents, matched: bool|
            #[trigger] asked(mid, matched) && groups_may(self.conditions@, 0, before, mid, matched)
                && match branch_after(
                matched,
                self.else_if_conditionals is Some,
                self.else_executables is Some,
            ) {
                Branch::Body => body_may(self.executables@, 0, mid, after, result),
                Branch::ElseIf => chain_may(
                    self.else_if_conditionals->Some_0@,
                    0,
                    mid,
                    after,
                    result,
                ),
                Branch::Else => body_may(self.else_executables->Some_0@, 0, mid, after, result),
                Branch::Nothing => after == mid && result == Err::<(), _>(Failure::NoBranchTaken),
            }
    }
}

/// Two chains are as long, and conditional for conditional these may do the
/// same.
pub open spec fn chains_alike(a: Seq<Conditional>, b: Seq<Conditional>) -> bool {
    a.len() == b.len() && forall|k: int, before: Contents, after: Contents, result: Result<(), Failure>|
        0 <= k < a.len() ==> #[trigger] a[k].runs(before, after, result) == b[k].runs(
            before,
            after,
            result,
        )
}

/// Chains that are alike may do the same.
pub proof fn lemma_chain_alike(
    a: Seq<Conditional>,
    b: Seq<Conditional>,
    from: int,
    before: Contents,
    after: Contents,
    result: Result<(), Failure>,
)
    requires
        chains_alike(a, b),
    ensures
        chain_may(a, from, before, after, result) == chain_may(b, from, before, after, result),
    decreases a.len() - from,
{
    if 0 <= from < a.len() {
        if chain_may(a, from, before, after, result) {
            let (mid, step) = choose|mid: Contents, step: Result<(), Failure>|
                #[trigger] chain_step(mid, step) && a[from].runs(before, mid, step) && if step is Ok {
                    after == mid && result == step
                } else {
                    chain_may(a, from + 1, mid, after, result)
                };
            lemma_chain_alike(a, b, from + 1, mid, after, result);
        }
        if chain_may(b, from, before, after, result) {
            let (mid, step) = choose|mid: Contents, step: Result<(), Failure>|
                #[trigger] chain_step(mid, step) && b[from].runs(before, mid, step) && if step is Ok {
                    after == mid && result == step
                } else {
                    chain_may(b, from + 1, mid, after, result)
                };
            lemma_chain_alike(a, b, from + 1, mid, after, result);
            assert(chain_step(mid, step) && a[from].runs(before, mid, step));
        }
    }
}

/// Two conditionals have the same shape, and part for part these are alike.
pub open spec fn conditionals_alike(a: Conditional, b: Conditional) -> bool {
    &&& groups_alike(a.conditions@, b.conditions@)
    &&& bodies_alike(a.executables@, b.executables@)
    &&& a.else_if_conditionals is Some == b.else_if_conditionals is Some
    &&& a.else_if_conditionals is Some ==> chains_alike(
        a.else_if_conditionals->Some_0@,
        b.else_if_conditionals->Some_0@,
    )
    &&& a.else_executables is Some == b.else_executables is Some
    &&& a.else_executables is Some ==> bodies_alike(
        a.else_executables->Some_0@,
        b.else_executables->Some_0@,
    )
}

/// One direction of `lemma_conditional_alike`.
proof fn lemma_conditional_follows(
    a: Conditional,
    b: Conditional,
    before: Contents,
    after: Contents,
    result: Result<(), Failure>,
)
    requires
        conditionals_alike(a, b),
        a.runs(before, after, result),
    ensures
        b.runs(before, after, result),
{
    let (mid, matched) = choose|mid: Contents, matched: bool|
        #[trigger] asked(mid, matched) && groups_may(a.conditions@, 0, before, mid, matched)
            && match branch_after(matched, a.else_if_conditionals is Some, a.else_executables is Some) {
            Branch::Body => body_may(a.executables@, 0, mid, after, result),
            Branch::ElseIf => chain_may(a.else_if_conditionals->Some_0@, 0, mid, after, result),
            Branch::Else => body_may(a.else_executables->Some_0@, 0, mid, after, result),
            Branch::Nothing => after == mid && result == Err::<(), _>(Failure::NoBranchTaken),
        };
    lemma_groups_alike(a.conditions@, b.conditions@, 0, before, mid, matched);
    match branch_after(matched, a.else_if_conditionals is Some, a.else_executables is Some) {
        Branch::Body => {
            lemma_body_alike(a.executables@, b.executables@, 0, mid, after, result);
        },
        Branch::ElseIf => {
            lemma_chain_alike(
                a.else_if_conditionals->Some_0@,
                b.else_if_conditionals->Some_0@,
                0,
                mid,
                after,
                result,
            );
        },
        Branch::Else => {
            lemma_body_alike(
                a.else_executables->Some_0@,
                b.else_executables->Some_0@,
                0,
                mid,
                after,
                result,
            );
        },
        Branch::Nothing => {},
    }
}

/// The relation of being alike is symmetric.
proof fn lemma_alike_both_ways(a: Conditional, b: Conditional)
    requires
        conditionals_alike(a, b),
    ensures
        conditionals_alike(b, a),
{
    assert forall|i: int| 0 <= i < b.conditions@.len() implies #[trigger] group_alike(
        b.conditions@[i]@,
        a.conditions@[i]@,
    ) by {
        assert(group_alike(a.conditions@[i]@, b.conditions@[i]@));
    }
}

/// Conditionals that are alike may do the same.
pub proof fn lemma_conditional_alike(a: Conditional, b: Conditional)
    requires
        conditionals_alike(a, b),
    ensures
        forall|before: Contents, after: Contents, result: Result<(), Failure>|
            #[trigger] a.runs(before, after, result) == b.runs(before, after, result),
{
    lemma_alike_both_ways(a, b);
    assert forall|before: Contents, after: Contents, result: Result<(), Failure>|
        #[trigger] a.runs(before, after, result) == b.runs(before, after, result) by {
        if a.runs(before, after, result) {
            lemma_conditional_follows(a, b, before, after, result);
        }
        if b.runs(before, after, result) {
            lemma_conditional_follows(b, a, before, after, result);
        }
    }
}

/// Runs the conditionals of an else-if chain in order, up to the first that
/// succeeds. Fails where none does.
fn try_chain(chain: &mut Vec<Conditional>, env: &mut VariableMapType) -> (result: Result<
    (),
    ExecError,
>)
    ensures
        chain_may(
            old(chain)@,
            0,
            env_contents(*old(env)),
            env_contents(*final(env)),
            outcome(result),
        ),
        chains_alike(final(chain)@, old(chain)@),
        old(chain).len() == 0 ==> result == Err::<(), _>(ExecError::NoBranchTaken) && *final(env)
            == *old(env),
    decreases *old(chain),
{
    let ghost at_entry = *chain;
    let mut i: usize = 0;
    while i < chain.len()
        invariant
            i <= chain.len() == at_entry.len(),
            *old(chain) == at_entry,
            i == 0 ==> *env == *old(env),
            forall|k: int| i <= k < chain.len() ==> chain[k] == at_entry[k],
            chains_alike(chain@, at_entry@),
            forall|after: Contents, result: Result<(), Failure>|
                chain_may(at_entry@, i as int, env_contents(*env), after, result) ==> chain_may(
                    at_entry@,
                    0,
                    env_contents(*old(env)),
                    after,
                    result,
                ),
        decreases chain.len() - i,
    {
        proof {
            vstd::std_specs::vec::axiom_vec_index_decreases(at_entry, i as int);
        }
        let ghost links = chain@;
        let result = chain[i].execute(env);
        proof {
            let step = outcome(result);
            assert(chain_step(env_contents(*env), step));
            assert forall|k: int, b: Contents, a: Contents, r: Result<(), Failure>|
                0 <= k < chain.len() implies #[trigger] chain@[k].runs(b, a, r) == at_entry@[k].runs(
                b,
                a,
                r,
            ) by {
                if k == i {
                    assert(chain@[k].may(b, a, r) == links[k].may(b, a, r));
                }
            }
        }
        if result.is_ok() {
            return Ok(());
        }
        i += 1;
    }
    Err(ExecError::NoBranchTaken)
}

/// What a conditional comes to where nothing outside decides: it has no
/// predicate to ask, and the branch it then takes has nothing to run. `None`
/// where a predicate or a node has a say.
pub open spec fn settled(node: Conditional) -> Option<Result<(), ExecError>> {
    if !asks_nothing(node.conditions@) {
        None
    } else {
        match branch_after(
            false,
            node.else_if_conditionals is Some,
            node.else_executables is Some,
        ) {
            Branch::Body => None,
            Branch::ElseIf => if node.else_if_conditionals->Some_0.len() == 0 {
                Some(Err(ExecError::NoBranchTaken))
            } else {
                None
            },
            Branch::Else => if node.else_executables->Some_0.len() == 0 {
                Some(Ok(()))
            } else {
                None
            },
            Branch::Nothing => Some(Err(ExecError::NoBranchTaken)),
        }
    }
}

impl Executable for Conditional {
    open spec fn may(&self, before: Contents, after: Contents, result: Result<(), Failure>) -> bool {
        self.runs(before, after, result)
    }

    fn execute(&mut self, env: &mut VariableMapType) -> (result: Result<(), ExecError>)
        ensures
            conditionals_alike(*final(self), *old(self)),
            settled(*old(self)) is Some ==> result == settled(*old(self))->Some_0 && *final(env)
                == *old(env),
        decreases *old(self),
    {
        let matched = ask_groups(&mut self.conditions, env);
        let ghost mid = env_contents(*env);
        let branch = choose_branch(
            matched,
            self.else_if_conditionals.is_some(),
            self.else_executables.is_some(),
        );
        let result = match branch {
            Branch::Body => run_body(&mut self.executables, env),
            Branch::ElseIf => {
                if let Some(chain) = &mut self.else_if_conditionals {
                    try_chain(chain, env)
                } else {
                    Err(ExecError::NoBranchTaken)
                }
            },
            Branch::Else => {
                if let Some(body) = &mut self.else_executables {
                    run_body(body, env)
                } else {
                    Err(ExecError::NoBranchTaken)
                }
            },
            Branch::Nothing => Err(ExecError::NoBranchTaken),
        };
        proof {
            assert(asked(mid, matched));
            lemma_conditional_alike(*self, *old(self));
        }
        result
    }
}

/// The last answer of a group decides its outcome, whatever the answers
/// before it were: the outcome is not their conjunction.
pub proof fn law_last_answer_decides(answers: Seq<bool>, last: bool)
    ensures
        group_outcome(answers.push(last)) == last,
{
}

/// The outcome of a group is an answer that its last predicate may give,
/// whatever the predicates before it say.
pub proof fn law_last_predicate_decides(
    group: Seq<ConditionalFn>,
    from: int,
    seen: bool,
    before: Contents,
    after: Contents,
    outcome: bool,
)
    requires
        0 <= from < group.len(),
        group_may(group, from, seen, before, after, outcome),
    ensures
        exists|b: Contents, a: Contents| #[trigger] group.last().may(b, a, outcome),
    decreases group.len() - from,
{
    let (mid, answer) = choose|mid: Contents, answer: bool|
        #[trigger] group[from].may(before, mid, answer) && group_may(
            group,
            from + 1,
            answer,
            mid,
            after,
            outcome,
        );
    if from + 1 < group.len() {
        law_last_predicate_decides(group, from + 1, answer, mid, after, outcome);
    } else {
        assert(group.last().may(before, mid, outcome));
    }
}

/// A conditional of one group, without an else-if chain and an else body,
/// takes no branch where the last predicate of the group never says yes,
/// whatever the predicates before it say.
pub proof fn law_last_predicate_wins(
    node: Conditional,
    before: Contents,
    after: Contents,
    result: Result<(), Failure>,
)
    requires
        node.conditions@.len() == 1,
        node.conditions@[0]@.len() > 0,
        forall|b: Contents, a: Contents, answer: bool| #[trigger]
            node.conditions@[0]@.last().may(b, a, answer) ==> !answer,
        node.else_if_conditionals is None,
        node.else_executables is None,
        node.runs(before, after, result),
    ensures
        result == Err::<(), _>(Failure::NoBranchTaken),
{
    let (mid, matched) = choose|mid: Contents, matched: bool|
        #[trigger] asked(mid, matched) && groups_may(node.conditions@, 0, before, mid, matched)
            && match branch_after(
            matched,
            node.else_if_conditionals is Some,
            node.else_executables is Some,
        ) {
            Branch::Body => body_may(node.executables@, 0, mid, after, result),
            Branch::ElseIf => chain_may(node.else_if_conditionals->Some_0@, 0, mid, after, result),
            Branch::Else => body_may(node.else_executables->Some_0@, 0, mid, after, result),
            Branch::Nothing => after == mid && result == Err::<(), _>(Failure::NoBranchTaken),
        };
    if matched {
        let (at, outcome) = choose|at: Contents, outcome: bool|
            #[trigger] group_may(node.conditions@[0]@, 0, false, before, at, outcome) && if outcome {
                mid == at && matched
            } else {
                groups_may(node.conditions@, 1, at, mid, matched)
            };
        if outcome {
            law_last_predicate_decides(node.conditions@[0]@, 0, false, before, at, outcome);
        }
    }
}

impl From<Conditional> for Box<dyn Executable> {
    fn from(conditional: Conditional) -> (node: Self) {
        Box::new(conditional)
    }
}

impl FromSpecImpl<Conditional> for Box<dyn Executable> {
    open spec fn obeys_from_spec() -> bool {
        false
    }

    open spec fn from_spec(conditional: Conditional) -> Self {
        arbitrary()
    }
}

} // verus!
