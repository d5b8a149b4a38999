//! The loop of the rule interpreter: a node that walks a vector of mappings.

use vstd::prelude::*;
use vstd::std_specs::convert::FromSpecImpl;
use crate::interpreter::{
    bodies_alike, each_may, failures_then, failures_view, lemma_each_alike, outcome, run_each,
    with_failure, ExecError, Executable, Expected, Failure,
};
use crate::value::{
    env_contents, lookup, merge_into, Contents, Value, Variable, VariableMapType,
};

verus! {

/// What an iteration over `key` comes to on an environment that holds
/// `contents`, whatever its body does: `key` must name a vector of mappings.
pub open spec fn iteration_result(contents: Contents, key: Seq<char>) -> Result<
    (),
    Failure,
> {
    if !contents.contains_key(key) {
        Err(Failure::MissingKey { key })
    } else {
        match contents[key] {
            Value::Vector(items) => if first_other(items, 0) >= items.len() {
                Ok(())
            } else {
                Err(Failure::ValueTypeMismatch { key, expected: Expected::Mapping })
            },
            _ => Err(Failure::ValueTypeMismatch { key, expected: Expected::Vector }),
        }
    }
}

/// The place of the first of `items`, at or after `from`, that is no mapping;
/// `items.len()` where all are.
pub open spec fn first_other(items: Seq<Value>, from: int) -> int
    decreases items.len() - from,
{
    if from < 0 || from >= items.len() {
        items.len() as int
    } else if !(items[from] is Mapping) {
        from
    } else {
        first_other(items, from + 1)
    }
}

/// The contents after the first `n` of `items`, all mappings, were merged
/// into `contents` one after the other: of two that hold a name, the later
/// decides.
pub open spec fn merged(contents: Contents, items: Seq<Value>, n: int) -> Contents
    decreases n,
{
    if n <= 0 {
        contents
    } else {
        merged(contents, items, n - 1).union_prefer_right(items[n - 1]->Mapping_0)
    }
}

/// What an iteration over `key` without a body leaves of `contents`: the
/// mappings that come before the first item of another kind, merged into it.
pub open spec fn iteration_contents(contents: Contents, key: Seq<char>) -> Contents {
    if contents.contains_key(key) && contents[key] is Vector {
        merged(contents, contents[key]->Vector_0, first_other(contents[key]->Vector_0, 0))
    } else {
        contents
    }
}

/// Whether a loop with the body `body` over the items of `items` from `from`
/// on, on an environment that holds `before`, may leave it holding `after`,
/// with `failed` as the failures of the body. Each item that is a mapping is
/// merged into the environment, and then the whole body runs. The first item
/// that is no mapping ends the loop: then it `stopped`.
pub open spec fn rounds_may(
    body: Seq<Box<dyn Executable>>,
    items: Seq<Value>,
    from: int,
    before: Contents,
    after: Contents,
    stopped: bool,
    failed: Seq<Failure>,
) -> bool
    decreases items.len() - from,
{
    if from < 0 || from >= items.len() {
        after == before && !stopped && failed == Seq::<Failure>::empty()
    } else if !(items[from] is Mapping) {
        after == before && stopped && failed == Seq::<Failure>::empty()
    } else {
        exists|mid: Contents, some: Seq<Failure>, rest: Seq<Failure>|
            #[trigger] each_may(
                body,
                0,
                before.union_prefer_right(items[from]->Mapping_0),
                mid,
                some,
            ) && rounds_may(body, items, from + 1, mid, after, stopped, rest) && failed
                == #[trigger] failures_then(some, rest)
    }
}

/// A loop over a vector of mappings. For each mapping in turn, its entries
/// are merged into the environment and the body is run. A failure of a node
/// of the body is kept in `failures` and stops nothing.
pub struct Iterative {
    pub executables: Vec<Box<dyn Executable>>,
    pub key: String,
    pub failures: Vec<ExecError>,
}

/// Whether a loop over `key` with the body `body`, on an environment that
/// holds `before`, may leave it holding `after` and come to `result`, with
/// `failed` as the failures of the body. The loop walks the vector that `key`
/// names when it starts.
pub open spec fn loop_may(
    body: Seq<Box<dyn Executable>>,
    key: Seq<char>,
    before: Contents,
    after: Contents,
    result: Result<(), Failure>,
    failed: Seq<Failure>,
) -> bool {
    if !before.contains_key(key) {
        after == before && result == Err::<(), _>(Failure::MissingKey { key }) && failed
            == Seq::<Failure>::empty()
    } else {
        match before[key] {
            Value::Vector(items) => exists|stopped: bool| #[trigger]
                rounds_may(body, items, 0, before, after, stopped, failed) && result == if stopped {
                    Err::<(), _>(Failure::ValueTypeMismatch { key, expected: Expected::Mapping })
                } else {
                    Ok::<(), Failure>(())
                },
            _ => after == before && result == Err::<(), _>(
                Failure::ValueTypeMismatch { key, expected: Expected::Vector },
            ) && failed == Seq::<Failure>::empty(),
        }
    }
}

/// Loops whose bodies are alike may do the same.
pub proof fn lemma_rounds_alike(
    a: Seq<Box<dyn Executable>>,
    b: Seq<Box<dyn Executable>>,
    items: Seq<Value>,
    from: int,
    before: Contents,
    after: Contents,
    stopped: bool,
    failed: Seq<Failure>,
)
    requires
        bodies_alike(a, b),
    ensures
        rounds_may(a, items, from, before, after, stopped, failed) == rounds_may(
            b,
            items,
            from,
            before,
            after,
            stopped,
            failed,
        ),
    decreases items.len() - from,
{
    if 0 <= from < items.len() && items[from] is Mapping {
        let merged = before.union_prefer_right(items[from]->Mapping_0);
        if rounds_may(a, items, from, before, after, stopped, failed) {
            let (mid, some, rest) = choose|mid: Contents, some: Seq<Failure>, rest: Seq<Failure>|
                #[trigger] each_may(a, 0, merged, mid, some) && rounds_may(
                    a,
                    items,
                    from + 1,
                    mid,
                    after,
                    stopped,
                    rest,
                ) && failed == #[trigger] failures_then(some, rest);
            lemma_each_alike(a, b, 0, merged, mid, some);
            lemma_rounds_alike(a, b, items, from + 1, mid, after, stopped, rest);
        }
        if rounds_may(b, items, from, before, after, stopped, failed) {
            let (mid, some, rest) = choose|mid: Contents, some: Seq<Failure>, rest: Seq<Failure>|
                #[trigger] each_may(b, 0, merged, mid, some) && rounds_may(
                    b,
                    items,
                    from + 1,
                    mid,
                    after,
                    stopped,
                    rest,
                ) && failed == #[trigger] failures_then(some, rest);
            lemma_each_alike(a, b, 0, merged, mid, some);
            lemma_rounds_alike(a, b, items, from + 1, mid, after, stopped, rest);
        }
    }
}

impl Iterative {
    /// A loop over what `key` names, with an empty body.
    pub fn new(key: String) -> (node: Self)
        ensures
            node.key == key,
            node.executables@.len() == 0,
            node.failures@.len() == 0,
    {
        Iterative { key, executables: Vec::new(), failures: Vec::new() }
    }

    /// Binds the loop to another key.
    pub fn change_key(&mut self, key: String)
        ensures
            final(self).key == key,
            final(self).executables == old(self).executables,
            final(self).failures == old(self).failures,
    {
        self.key = key;
    }

    /// Adds a node to the end of the body.
    pub fn push(&mut self, executable: Box<dyn Executable>)
        ensures
            final(self).executables@ == old(self).executables@.push(executable),
            final(self).executables.len() == old(self).executables.len() + 1,
            final(self).key == old(self).key,
            final(self).failures == old(self).failures,
    {
        proof {
            vstd::seq::axiom_seq_push_len(self.executables@, executable);
        }
        self.executables.push(executable);
    }
}

impl Iterative {
    /// Walks the vector that the key names, round by round.
    fn run_rounds(&mut self, env: &mut VariableMapType) -> (result: Result<(), ExecError>)
        ensures
            old(self).may(env_contents(*old(env)), env_contents(*final(env)), outcome(result)),
            forall|before: Contents, after: Contents, result: Result<(), Failure>|
                #[trigger] final(self).may(before, after, result) == old(self).may(
                    before,
                    after,
                    result,
                ),
            final(self).key == old(self).key,
            bodies_alike(final(self).executables@, old(self).executables@),
            old(self).failures@.is_prefix_of(final(self).failures@),
            loop_may(
                old(self).executables@,
                old(self).key@,
                env_contents(*old(env)),
                env_contents(*final(env)),
                outcome(result),
                failures_view(final(self).failures@.skip(old(self).failures.len() as int)),
            ),
            !(env_contents(*old(env)).contains_key(old(self).key@) && env_contents(
                *old(env),
            )[old(self).key@] is Vector) ==> *final(env) == *old(env) && *final(self) == *old(self),
            old(self).executables.len() == 0 ==> final(self).failures == old(self).failures,
    {
        let ghost n = self.failures.len() as int;
        let ghost key = self.key@;
        let ghost before = env_contents(*env);
        proof {
            assert(failures_view(self.failures@.skip(n)) =~= Seq::<Failure>::empty());
            lemma_loop_alike(self.executables@, old(self).executables@, key);
        }
        let snapshot = match lookup(env, &self.key) {
            Some(found) => found.clone(),
            None => {
                let failure = ExecError::MissingKey { key: self.key.clone() };
                assert(loop_may(
                    self.executables@,
                    key,
                    before,
                    before,
                    Err::<(), _>(failure@),
                    Seq::<Failure>::empty(),
                ));
                return Err(failure);
            },
        };
        let items = match snapshot {
            Variable::Vector(items) => items,
            _ => {
                let failure = ExecError::ValueTypeMismatch {
                    key: self.key.clone(),
                    expected: Expected::Vector,
                };
                assert(loop_may(
                    self.executables@,
                    key,
                    before,
                    before,
                    Err::<(), _>(failure@),
                    Seq::<Failure>::empty(),
                ));
                return Err(failure);
            },
        };
        let ghost values = before[key]->Vector_0;
        let mut i: usize = 0;
        while i < items.len()
            invariant
                i <= items.len() == values.len(),
                n == old(self).failures.len(),
                key == old(self).key@,
                before == env_contents(*old(env)),
                before.contains_key(key),
                before[key] == Value::Vector(values),
                forall|k: int| 0 <= k < items.len() ==> (#[trigger] items[k])@ == values[k],
                self.key == old(self).key,
                bodies_alike(self.executables@, old(self).executables@),
                old(self).failures@.is_prefix_of(self.failures@),
                self.executables.len() == 0 ==> self.failures == old(self).failures,
                forall|after: Contents, stopped: bool, rest: Seq<Failure>|
                    rounds_may(
                        old(self).executables@,
                        values,
                        i as int,
                        env_contents(*env),
                        after,
                        stopped,
                        rest,
                    ) ==> rounds_may(
                        old(self).executables@,
                        values,
                        0,
                        before,
                        after,
                        stopped,
                        failures_view(self.failures@.skip(n)) + rest,
                    ),
            decreases items.len() - i,
        {
            let ghost round_start = env_contents(*env);
            let ghost failed = failures_view(self.failures@.skip(n));
            let ghost m = self.failures.len() as int;
            let ghost body = self.executables@;
            match &items[i] {
                Variable::Mapping(map) => {
                    merge_into(env, map);
                    let ghost merged = env_contents(*env);
                    run_each(&mut self.executables, &mut self.failures, env);
                    proof {
                        let some = failures_view(self.failures@.skip(m));
                        let now = failures_view(self.failures@.skip(n));
                        let round_end = env_contents(*env);
                        lemma_each_alike(body, old(self).executables@, 0, merged, round_end, some);
                        assert forall|after: Contents, stopped: bool, rest: Seq<Failure>|
                            rounds_may(
                                old(self).executables@,
                                values,
                                i + 1,
                                round_end,
                                after,
                                stopped,
                                rest,
                            ) implies rounds_may(
                            old(self).executables@,
                            values,
                            0,
                            before,
                            after,
                            stopped,
                            now + rest,
                        ) by {
                            assert(some + rest == failures_then(some, rest));
                            assert(each_may(
                                old(self).executables@,
                                0,
                                round_start.union_prefer_right(values[i as int]->Mapping_0),
                                round_end,
                                some,
                            ));
                            assert(rounds_may(
                                old(self).executables@,
                                values,
                                i as int,
                                round_start,
                                after,
                                stopped,
                                some + rest,
                            ));
                            assert(now + rest =~= failed + (some + rest));
                        }
                    }
                },
                _ => {
                    let failure = ExecError::ValueTypeMismatch {
                        key: self.key.clone(),
                        expected: Expected::Mapping,
                    };
                    proof {
                        assert(rounds_may(
                            old(self).executables@,
                            values,
                            i as int,
                            round_start,
                            round_start,
                            true,
                            Seq::<Failure>::empty(),
                        ));
                        assert(before[key] is Vector && before[key]->Vector_0 == values);
                        assert(loop_may(
                            old(self).executables@,
                            key,
                            before,
                            round_start,
                            Err::<(), _>(failure@),
                            failed,
                        ));
                        self.lemma_same_may(*old(self));
                    }
                    return Err(failure);
                },
            }
            i += 1;
        }
        proof {
            let failed = failures_view(self.failures@.skip(n));
            let end = env_contents(*env);
            assert(rounds_may(
                old(self).executables@,
                values,
                items.len() as int,
                end,
                end,
                false,
                Seq::<Failure>::empty(),
            ));
            assert(loop_may(old(self).executables@, key, before, end, Ok::<(), Failure>(()), failed));
            self.lemma_same_may(*old(self));
        }
        Ok(())
    }
}

impl Executable for Iterative {
    open spec fn may(&self, before: Contents, after: Contents, result: Result<(), Failure>) -> bool {
        exists|failed: Seq<Failure>| #[trigger]
            loop_may(self.executables@, self.key@, before, after, result, failed)
    }

    fn execute(&mut self, env: &mut VariableMapType) -> (result: Result<(), ExecError>)
        ensures
            final(self).key == old(self).key,
            bodies_alike(final(self).executables@, old(self).executables@),
            old(self).failures@.is_prefix_of(final(self).failures@),
            loop_may(
                old(self).executables@,
                old(self).key@,
                env_contents(*old(env)),
                env_contents(*final(env)),
                outcome(result),
                failures_view(final(self).failures@.skip(old(self).failures.len() as int)),
            ),
            outcome(result) == iteration_result(env_contents(*old(env)), old(self).key@),
            !(env_contents(*old(env)).contains_key(old(self).key@) && env_contents(
                *old(env),
            )[old(self).key@] is Vector) ==> *final(env) == *old(env) && *final(self) == *old(self),
            old(self).executables.len() == 0 ==> final(self).failures == old(self).failures
                && env_contents(*final(env)) == iteration_contents(
                env_contents(*old(env)),
                old(self).key@,
            ),
    {
        let result = self.run_rounds(env);
        proof {
            let failed = failures_view(self.failures@.skip(old(self).failures.len() as int));
            law_loop_result(
                old(self).executables@,
                old(self).key@,
                env_contents(*old(env)),
                env_contents(*env),
                outcome(result),
                failed,
            );
            if old(self).executables.len() == 0 {
                law_loop_without_body(
                    old(self).executables@,
                    old(self).key@,
                    env_contents(*old(env)),
                    env_contents(*env),
                    outcome(result),
                    failed,
                );
            }
        }
        result
    }
}

impl Iterative {
    /// Loops over the same key whose bodies are alike may do the same.
    pub proof fn lemma_same_may(self, other: Iterative)
        requires
            self.key@ == other.key@,
            bodies_alike(self.executables@, other.executables@),
        ensures
            forall|before: Contents, after: Contents, result: Result<(), Failure>|
                #[trigger] self.may(before, after, result) == other.may(before, after, result),
    {
        lemma_loop_alike(self.executables@, other.executables@, self.key@);
        assert forall|before: Contents, after: Contents, result: Result<(), Failure>|
            #[trigger] self.may(before, after, result) == other.may(before, after, result) by {
            if self.may(before, after, result) {
                let failed = choose|failed: Seq<Failure>| #[trigger]
                    loop_may(self.executables@, self.key@, before, after, result, failed);
            }
            if other.may(before, after, result) {
                let failed = choose|failed: Seq<Failure>| #[trigger]
                    loop_may(other.executables@, other.key@, before, after, result, failed);
                assert(loop_may(self.executables@, self.key@, before, after, result, failed));
            }
        }
    }
}

/// Loops whose bodies are alike may do the same.
pub proof fn lemma_loop_alike(a: Seq<Box<dyn Executable>>, b: Seq<Box<dyn Executable>>, key: Seq<char>)
    requires
        bodies_alike(a, b),
    ensures
        forall|before: Contents, after: Contents, result: Result<(), Failure>, failed: Seq<Failure>|
            #[trigger] loop_may(a, key, before, after, result, failed) == loop_may(
                b,
                key,
                before,
                after,
                result,
                failed,
            ),
{
    assert forall|before: Contents, after: Contents, result: Result<(), Failure>, failed: Seq<Failure>|
        #[trigger] loop_may(a, key, before, after, result, failed) == loop_may(
            b,
            key,
            before,
            after,
            result,
            failed,
        ) by {
        if before.contains_key(key) && before[key] is Vector {
            let items = before[key]->Vector_0;
            lemma_rounds_alike(a, b, items, 0, before, after, true, failed);
            lemma_rounds_alike(a, b, items, 0, before, after, false, failed);
        }
    }
}

/// Whether a loop stops early says where the first item lies that is no
/// mapping.
proof fn lemma_rounds_stop(
    body: Seq<Box<dyn Executable>>,
    items: Seq<Value>,
    from: int,
    before: Contents,
    after: Contents,
    stopped: bool,
    failed: Seq<Failure>,
)
    requires
        0 <= from <= items.len(),
        rounds_may(body, items, from, before, after, stopped, failed),
    ensures
        stopped == (first_other(items, from) < items.len()),
    decreases items.len() - from,
{
    if from < items.len() && items[from] is Mapping {
        let (mid, some, rest) = choose|mid: Contents, some: Seq<Failure>, rest: Seq<Failure>|
            #[trigger] each_may(body, 0, before.union_prefer_right(items[from]->Mapping_0), mid, some)
                && rounds_may(body, items, from + 1, mid, after, stopped, rest) && failed
                == #[trigger] failures_then(some, rest);
        lemma_rounds_stop(body, items, from + 1, mid, after, stopped, rest);
    }
}

/// What a loop comes to does not depend on its body: the key must name a
/// vector of mappings.
pub proof fn law_loop_result(
    body: Seq<Box<dyn Executable>>,
    key: Seq<char>,
    before: Contents,
    after: Contents,
    result: Result<(), Failure>,
    failed: Seq<Failure>,
)
    requires
        loop_may(body, key, before, after, result, failed),
    ensures
        result == iteration_result(before, key),
{
    if before.contains_key(key) && before[key] is Vector {
        let items = before[key]->Vector_0;
        let stopped = choose|stopped: bool| #[trigger]
            rounds_may(body, items, 0, before, after, stopped, failed) && result == if stopped {
                Err::<(), _>(Failure::ValueTypeMismatch { key, expected: Expected::Mapping })
            } else {
                Ok::<(), Failure>(())
            };
        lemma_rounds_stop(body, items, 0, before, after, stopped, failed);
    }
}

/// A loop without a body merges the mappings that come before the first
/// item of another kind, and records no failure.
proof fn lemma_rounds_without_body(
    body: Seq<Box<dyn Executable>>,
    items: Seq<Value>,
    from: int,
    start: Contents,
    before: Contents,
    after: Contents,
    stopped: bool,
    failed: Seq<Failure>,
)
    requires
        body.len() == 0,
        0 <= from <= items.len(),
        from <= first_other(items, 0),
        before == merged(start, items, from),
        rounds_may(body, items, from, before, after, stopped, failed),
    ensures
        after == merged(start, items, first_other(items, 0)),
        failed == Seq::<Failure>::empty(),
    decreases items.len() - from,
{
    lemma_first_other(items, 0, from);
    if from < items.len() && items[from] is Mapping {
        let (mid, some, rest) = choose|mid: Contents, some: Seq<Failure>, rest: Seq<Failure>|
            #[trigger] each_may(body, 0, before.union_prefer_right(items[from]->Mapping_0), mid, some)
                && rounds_may(body, items, from + 1, mid, after, stopped, rest) && failed
                == #[trigger] failures_then(some, rest);
        lemma_first_other(items, 0, from + 1);
        lemma_rounds_without_body(body, items, from + 1, start, mid, after, stopped, rest);
    }
}

/// The first item of another kind lies at or after the place from which it
/// is looked for.
proof fn lemma_first_other_bounds(items: Seq<Value>, from: int)
    requires
        0 <= from <= items.len(),
    ensures
        from <= first_other(items, from) <= items.len(),
    decreases items.len() - from,
{
    if from < items.len() && items[from] is Mapping {
        lemma_first_other_bounds(items, from + 1);
    }
}

/// Where all items from `from` up to `to` are mappings, the first item of
/// another kind lies at the same place seen from either.
proof fn lemma_first_other(items: Seq<Value>, from: int, to: int)
    requires
        0 <= from <= to <= items.len(),
        to <= first_other(items, from),
    ensures
        first_other(items, from) == first_other(items, to),
        to < items.len() && items[to] is Mapping ==> to + 1 <= first_other(items, from),
    decreases to - from,
{
    if from < to {
        lemma_first_other(items, from + 1, to);
    } else if to < items.len() && items[to] is Mapping {
        lemma_first_other_bounds(items, to + 1);
    }
}

/// A loop without a body leaves the mappings that come before the first
/// item of another kind merged into the environment, and records no failure.
pub proof fn law_loop_without_body(
    body: Seq<Box<dyn Executable>>,
    key: Seq<char>,
    before: Contents,
    after: Contents,
    result: Result<(), Failure>,
    failed: Seq<Failure>,
)
    requires
        body.len() == 0,
        loop_may(body, key, before, after, result, failed),
    ensures
        after == iteration_contents(before, key),
        failed == Seq::<Failure>::empty(),
{
    if before.contains_key(key) && before[key] is Vector {
        let items = before[key]->Vector_0;
        let stopped = choose|stopped: bool| #[trigger]
            rounds_may(body, items, 0, before, after, stopped, failed) && result == if stopped {
                Err::<(), _>(Failure::ValueTypeMismatch { key, expected: Expected::Mapping })
            } else {
                Ok::<(), Failure>(())
            };
        lemma_first_other_bounds(items, 0);
        lemma_rounds_without_body(body, items, 0, before, before, after, stopped, failed);
    }
}

/// No node of `body` touches what `name` names.
pub open spec fn keeps(body: Seq<Box<dyn Executable>>, name: Seq<char>) -> bool {
    forall|k: int, before: Contents, after: Contents, result: Result<(), Failure>|
        0 <= k < body.len() && #[trigger] body[k].may(before, after, result) ==> after.contains_key(
            name,
        ) == before.contains_key(name) && after[name] == before[name]
}

/// A body that keeps a name leaves it as it was.
proof fn lemma_each_keeps(
    body: Seq<Box<dyn Executable>>,
    from: int,
    before: Contents,
    after: Contents,
    failed: Seq<Failure>,
    name: Seq<char>,
)
    requires
        keeps(body, name),
        0 <= from,
        each_may(body, from, before, after, failed),
    ensures
        after.contains_key(name) == before.contains_key(name),
        after[name] == before[name],
    decreases body.len() - from,
{
    if from < body.len() {
        let (mid, step, rest) = choose|mid: Contents, step: Result<(), Failure>, rest: Seq<Failure>|
            #[trigger] body[from].may(before, mid, step) && each_may(body, from + 1, mid, after, rest)
                && failed == #[trigger] with_failure(step, rest);
        lemma_each_keeps(body, from + 1, mid, after, rest, name);
    }
}

/// After a loop that ran to its end, a name that the last mapping holds and
/// the body keeps has the value that the last mapping gives it. In each
/// round, the body finds under that name what the mapping of the round gives.
pub proof fn law_last_mapping_decides(
    body: Seq<Box<dyn Executable>>,
    items: Seq<Value>,
    from: int,
    before: Contents,
    after: Contents,
    failed: Seq<Failure>,
    name: Seq<char>,
)
    requires
        keeps(body, name),
        0 <= from < items.len(),
        items.last() is Mapping,
        items.last()->Mapping_0.contains_key(name),
        rounds_may(body, items, from, before, after, false, failed),
    ensures
        after.contains_key(name),
        after[name] == items.last()->Mapping_0[name],
    decreases items.len() - from,
{
    lemma_rounds_stop(body, items, from, before, after, false, failed);
    let merged = before.union_prefer_right(items[from]->Mapping_0);
    let (mid, some, rest) = choose|mid: Contents, some: Seq<Failure>, rest: Seq<Failure>|
        #[trigger] each_may(body, 0, merged, mid, some) && rounds_may(
            body,
            items,
            from + 1,
            mid,
            after,
            false,
            rest,
        ) && failed == #[trigger] failures_then(some, rest);
    lemma_each_keeps(body, 0, merged, mid, some, name);
    if from + 1 < items.len() {
        law_last_mapping_decides(body, items, from + 1, mid, after, rest, name);
    }
}

impl From<Iterative> for Box<dyn Executable> {
    fn from(iterative: Iterative) -> (node: Self) {
        Box::new(iterative)
    }
}

impl FromSpecImpl<Iterative> for Box<dyn Executable> {
    open spec fn obeys_from_spec() -> bool {
        false
    }

    open spec fn from_spec(iterative: Iterative) -> Self {
        arbitrary()
    }
}

} // verus!
