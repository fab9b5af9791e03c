//! Open- and closed-loop drivers.
//!
//! A driver steps a transfer element, and a controller, through a sequence of
//! setpoints (the time signal already sampled over a time range). It is
//! generic over the sample type `S` and over the state types of the element
//! (`E`) and of the controller (`C`). State is threaded explicitly: a step of
//! the element is `transfer(state, input) -> (next_state, output)`, a step of
//! the controller is `update(state, measurement, setpoint) -> (next_state,
//! output)`. Every run starts from the states it is handed, so two runs never
//! share mutable state.

use vstd::prelude::*;

verus! {

/// `n` copies of `v`.
pub open spec fn repeated<S>(v: S, n: nat) -> Seq<S> {
    Seq::new(n, |i: int| v)
}

/// `outputs` is what the element produces when it starts in `init` and is fed
/// `inputs` one sample at a time; `states[i]` is its state before sample `i`.
pub open spec fn transfer_trace<E, S, FE: Fn(E, S) -> (E, S)>(
    transfer: FE,
    init: E,
    states: Seq<E>,
    inputs: Seq<S>,
    outputs: Seq<S>,
) -> bool {
    &&& states.len() == inputs.len() + 1
    &&& outputs.len() == inputs.len()
    &&& states[0] == init
    &&& forall|i: int|
        0 <= i < inputs.len() ==> call_ensures(
            transfer,
            (states[i], inputs[i]),
            (states[i + 1], #[trigger] outputs[i]),
        )
}

/// `outputs` is what the controller produces when it starts in `init` and is
/// fed `measurements[i]` and `setpoints[i]` at sample `i`; `states[i]` is its
/// state before sample `i`.
pub open spec fn update_trace<C, S, FC: Fn(C, S, S) -> (C, S)>(
    update: FC,
    init: C,
    states: Seq<C>,
    measurements: Seq<S>,
    setpoints: Seq<S>,
    outputs: Seq<S>,
) -> bool {
    &&& states.len() == setpoints.len() + 1
    &&& measurements.len() == setpoints.len()
    &&& outputs.len() == setpoints.len()
    &&& states[0] == init
    &&& forall|i: int|
        0 <= i < setpoints.len() ==> call_ensures(
            update,
            (states[i], measurements[i], setpoints[i]),
            (states[i + 1], #[trigger] outputs[i]),
        )
}

/// `control` and `process` are what an open-loop run produces: the
/// controller, started in `controller`, sees `setpoints` and a measurement
/// fixed at `no_feedback`; the element, started in `element`, is fed the
/// controller's outputs.
pub open spec fn open_loop_run<S, E, C, FE: Fn(E, S) -> (E, S), FC: Fn(C, S, S) -> (C, S)>(
    transfer: FE,
    update: FC,
    element: E,
    controller: C,
    no_feedback: S,
    setpoints: Seq<S>,
    control: Seq<S>,
    process: Seq<S>,
) -> bool {
    &&& exists|cs: Seq<C>|
        #[trigger] update_trace(
            update,
            controller,
            cs,
            repeated(no_feedback, setpoints.len()),
            setpoints,
            control,
        )
    &&& exists|es: Seq<E>| #[trigger] transfer_trace(transfer, element, es, control, process)
}

/// `control` and `process` are what a closed-loop run produces: the element,
/// started in `element`, is fed `control`; `control[0]` is `initial_control`,
/// and the controller, started in `controller`, turns `process[i]` and
/// `setpoints[i]` into `control[i + 1]` for every sample but the last.
pub open spec fn closed_loop_run<S, E, C, FE: Fn(E, S) -> (E, S), FC: Fn(C, S, S) -> (C, S)>(
    transfer: FE,
    update: FC,
    element: E,
    controller: C,
    initial_control: S,
    setpoints: Seq<S>,
    control: Seq<S>,
    process: Seq<S>,
) -> bool {
    &&& control.len() == setpoints.len()
    &&& setpoints.len() > 0 ==> control[0] == initial_control
    &&& exists|es: Seq<E>| #[trigger] transfer_trace(transfer, element, es, control, process)
    &&& setpoints.len() > 0 ==> exists|cs: Seq<C>|
        #[trigger] update_trace(
            update,
            controller,
            cs,
            process.drop_last(),
            setpoints.drop_last(),
            control.drop_first(),
        )
}

/// Each element step has at most one outcome for a given state and input.
pub open spec fn transfer_is_function<E, S, FE: Fn(E, S) -> (E, S)>(transfer: FE) -> bool {
    forall|e: E, u: S, r1: (E, S), r2: (E, S)|
        #![trigger call_ensures(transfer, (e, u), r1), call_ensures(transfer, (e, u), r2)]
        call_ensures(transfer, (e, u), r1) && call_ensures(transfer, (e, u), r2) ==> r1 == r2
}

/// Each controller step has at most one outcome for a given state,
/// measurement and setpoint.
pub open spec fn update_is_function<C, S, FC: Fn(C, S, S) -> (C, S)>(update: FC) -> bool {
    forall|c: C, y: S, w: S, r1: (C, S), r2: (C, S)|
        #![trigger call_ensures(update, (c, y, w), r1), call_ensures(update, (c, y, w), r2)]
        call_ensures(update, (c, y, w), r1) && call_ensures(update, (c, y, w), r2) ==> r1 == r2
}

/// The first `k` samples of two open-loop runs from the same states agree.
proof fn lemma_open_loop_prefix<S, E, C, FE: Fn(E, S) -> (E, S), FC: Fn(C, S, S) -> (C, S)>(
    transfer: FE,
    update: FC,
    element: E,
    controller: C,
    measurements: Seq<S>,
    setpoints: Seq<S>,
    c1: Seq<S>,
    p1: Seq<S>,
    es1: Seq<E>,
    cs1: Seq<C>,
    c2: Seq<S>,
    p2: Seq<S>,
    es2: Seq<E>,
    cs2: Seq<C>,
    k: int,
)
    requires
        transfer_is_function(transfer),
        update_is_function(update),
        0 <= k <= setpoints.len(),
        update_trace(update, controller, cs1, measurements, setpoints, c1),
        update_trace(update, controller, cs2, measurements, setpoints, c2),
        transfer_trace(transfer, element, es1, c1, p1),
        transfer_trace(transfer, element, es2, c2, p2),
    ensures
        forall|i: int| 0 <= i < k ==> c1[i] == c2[i] && p1[i] == p2[i],
        forall|i: int| 0 <= i <= k ==> es1[i] == es2[i] && cs1[i] == cs2[i],
    decreases k,
{
    if k > 0 {
        lemma_open_loop_prefix(
            transfer,
            update,
            element,
            controller,
            measurements,
            setpoints,
            c1,
            p1,
            es1,
            cs1,
            c2,
            p2,
            es2,
            cs2,
            k - 1,
        );
        let i = k - 1;
        assert(call_ensures(update, (cs1[i], measurements[i], setpoints[i]), (cs1[i + 1], c1[i])));
        assert(call_ensures(update, (cs2[i], measurements[i], setpoints[i]), (cs2[i + 1], c2[i])));
        assert(call_ensures(transfer, (es1[i], c1[i]), (es1[i + 1], p1[i])));
        assert(call_ensures(transfer, (es2[i], c2[i]), (es2[i + 1], p2[i])));
    }
}

/// Runs are reproducible: when each element step and each controller step
/// has one outcome, two open-loop runs that start from the same element
/// state and controller state, with the same fixed measurement and the same
/// setpoints, produce the same control and process sequences.
pub proof fn lemma_open_loop_reproducible<
    S,
    E,
    C,
    FE: Fn(E, S) -> (E, S),
    FC: Fn(C, S, S) -> (C, S),
>(
    transfer: FE,
    update: FC,
    element: E,
    controller: C,
    no_feedback: S,
    setpoints: Seq<S>,
    c1: Seq<S>,
    p1: Seq<S>,
    c2: Seq<S>,
    p2: Seq<S>,
)
    requires
        transfer_is_function(transfer),
        update_is_function(update),
        open_loop_run(transfer, update, element, controller, no_feedback, setpoints, c1, p1),
        open_loop_run(transfer, update, element, controller, no_feedback, setpoints, c2, p2),
    ensures
        c1 == c2,
        p1 == p2,
{
    let measurements = repeated(no_feedback, setpoints.len());
    let cs1 = choose|cs: Seq<C>|
        #[trigger] update_trace(update, controller, cs, measurements, setpoints, c1);
    let cs2 = choose|cs: Seq<C>|
        #[trigger] update_trace(update, controller, cs, measurements, setpoints, c2);
    let es1 = choose|es: Seq<E>| #[trigger] transfer_trace(transfer, element, es, c1, p1);
    let es2 = choose|es: Seq<E>| #[trigger] transfer_trace(transfer, element, es, c2, p2);
    lemma_open_loop_prefix(
        transfer,
        update,
        element,
        controller,
        measurements,
        setpoints,
        c1,
        p1,
        es1,
        cs1,
        c2,
        p2,
        es2,
        cs2,
        setpoints.len() as int,
    );
    assert(c1 =~= c2);
    assert(p1 =~= p2);
}

/// The first `k` samples of two closed-loop runs from the same states agree.
proof fn lemma_closed_loop_prefix<S, E, C, FE: Fn(E, S) -> (E, S), FC: Fn(C, S, S) -> (C, S)>(
    transfer: FE,
    update: FC,
    element: E,
    controller: C,
    setpoints: Seq<S>,
    c1: Seq<S>,
    p1: Seq<S>,
    es1: Seq<E>,
    cs1: Seq<C>,
    c2: Seq<S>,
    p2: Seq<S>,
    es2: Seq<E>,
    cs2: Seq<C>,
    k: int,
)
    requires
        transfer_is_function(transfer),
        update_is_function(update),
        0 <= k <= setpoints.len(),
        setpoints.len() > 0,
        c1.len() == setpoints.len(),
        c2.len() == setpoints.len(),
        c1[0] == c2[0],
        transfer_trace(transfer, element, es1, c1, p1),
        transfer_trace(transfer, element, es2, c2, p2),
        update_trace(update, controller, cs1, p1.drop_last(), setpoints.drop_last(), c1.drop_first()),
        update_trace(update, controller, cs2, p2.drop_last(), setpoints.drop_last(), c2.drop_first()),
    ensures
        forall|i: int| 0 <= i < k ==> p1[i] == p2[i],
        forall|i: int| 0 <= i <= k ==> es1[i] == es2[i],
        forall|i: int| 0 <= i < setpoints.len() && i <= k ==> c1[i] == c2[i] && cs1[i] == cs2[i],
    decreases k,
{
    if k > 0 {
        lemma_closed_loop_prefix(
            transfer,
            update,
            element,
            controller,
            setpoints,
            c1,
            p1,
            es1,
            cs1,
            c2,
            p2,
            es2,
            cs2,
            k - 1,
        );
        let i = k - 1;
        assert(call_ensures(transfer, (es1[i], c1[i]), (es1[i + 1], p1[i])));
        assert(call_ensures(transfer, (es2[i], c2[i]), (es2[i + 1], p2[i])));
        if k < setpoints.len() {
            assert(c1.drop_first()[i] == c1[k]);
            assert(c2.drop_first()[i] == c2[k]);
            assert(p1.drop_last()[i] == p1[i]);
            assert(p2.drop_last()[i] == p2[i]);
            assert(call_ensures(
                update,
                (cs1[i], p1.drop_last()[i], setpoints.drop_last()[i]),
                (cs1[i + 1], c1.drop_first()[i]),
            ));
            assert(call_ensures(
                update,
                (cs2[i], p2.drop_last()[i], setpoints.drop_last()[i]),
                (cs2[i + 1], c2.drop_first()[i]),
            ));
        }
    }
}

/// Runs are reproducible: when each element step and each controller step
/// has one outcome, two closed-loop runs that start from the same element
/// state, controller state, initial control value and setpoints produce the
/// same control and process sequences. No run leaves anything behind that a
/// later run would see.
pub proof fn lemma_closed_loop_reproducible<
    S,
    E,
    C,
    FE: Fn(E, S) -> (E, S),
    FC: Fn(C, S, S) -> (C, S),
>(
    transfer: FE,
    update: FC,
    element: E,
    controller: C,
    initial_control: S,
    setpoints: Seq<S>,
    c1: Seq<S>,
    p1: Seq<S>,
    c2: Seq<S>,
    p2: Seq<S>,
)
    requires
        transfer_is_function(transfer),
        update_is_function(update),
        closed_loop_run(transfer, update, element, controller, initial_control, setpoints, c1, p1),
        closed_loop_run(transfer, update, element, controller, initial_control, setpoints, c2, p2),
    ensures
        c1 == c2,
        p1 == p2,
{
    let es1 = choose|es: Seq<E>| #[trigger] transfer_trace(transfer, element, es, c1, p1);
    let es2 = choose|es: Seq<E>| #[trigger] transfer_trace(transfer, element, es, c2, p2);
    if setpoints.len() > 0 {
        let cs1 = choose|cs: Seq<C>|
            #[trigger] update_trace(
                update,
                controller,
                cs,
                p1.drop_last(),
                setpoints.drop_last(),
                c1.drop_first(),
            );
        let cs2 = choose|cs: Seq<C>|
            #[trigger] update_trace(
                update,
                controller,
                cs,
                p2.drop_last(),
                setpoints.drop_last(),
                c2.drop_first(),
            );
        lemma_closed_loop_prefix(
            transfer,
            update,
            element,
            controller,
            setpoints,
            c1,
            p1,
            es1,
            cs1,
            c2,
            p2,
            es2,
            cs2,
            setpoints.len() as int,
        );
    }
    assert(c1 =~= c2);
    assert(p1 =~= p2);
}

/// Open loop: at each sample the controller sees the setpoint and a
/// measurement fixed at `no_feedback`; its output drives the element.
/// Returns `(control, process)`: the controller outputs and the element
/// outputs, both as long as `setpoints`.
pub fn open_loop<S: Copy, E, C, FE: Fn(E, S) -> (E, S), FC: Fn(C, S, S) -> (C, S)>(
    setpoints: &Vec<S>,
    no_feedback: S,
    element: E,
    controller: C,
    transfer: FE,
    update: FC,
) -> (r: (Vec<S>, Vec<S>))
    requires
        forall|e: E, u: S| call_requires(transfer, (e, u)),
        forall|c: C, y: S, w: S| call_requires(update, (c, y, w)),
    ensures
        r.0@.len() == setpoints@.len(),
        r.1@.len() == setpoints@.len(),
        open_loop_run(transfer, update, element, controller, no_feedback, setpoints@, r.0@, r.1@),
{
    let n = setpoints.len();
    let ghost measurements = repeated(no_feedback, n as nat);
    let mut control: Vec<S> = Vec::new();
    let mut process: Vec<S> = Vec::new();
    let mut e = element;
    let mut c = controller;
    let ghost mut es: Seq<E> = seq![e];
    let ghost mut cs: Seq<C> = seq![c];
    let mut i: usize = 0;
    while i < n
        invariant
            n == setpoints@.len(),
            measurements == repeated(no_feedback, n as nat),
            forall|e: E, u: S| call_requires(transfer, (e, u)),
            forall|c: C, y: S, w: S| call_requires(update, (c, y, w)),
            i <= n,
            control@.len() == i,
            process@.len() == i,
            es.len() == i + 1,
            cs.len() == i + 1,
            es[0] == element,
            cs[0] == controller,
            es[i as int] == e,
            cs[i as int] == c,
            forall|j: int|
                0 <= j < i ==> call_ensures(
                    update,
                    (cs[j], measurements[j], setpoints@[j]),
                    (cs[j + 1], #[trigger] control@[j]),
                ),
            forall|j: int|
                0 <= j < i ==> call_ensures(
                    transfer,
                    (es[j], control@[j]),
                    (es[j + 1], #[trigger] process@[j]),
                ),
        decreases n - i,
    {
        let setpoint = setpoints[i];
        let (c_next, u) = update(c, no_feedback, setpoint);
        let (e_next, y) = transfer(e, u);
        proof {
            cs = cs.push(c_next);
            es = es.push(e_next);
        }
        c = c_next;
        e = e_next;
        control.push(u);
        process.push(y);
        i = i + 1;
    }
    proof {
        assert(update_trace(update, controller, cs, measurements, setpoints@, control@));
        assert(transfer_trace(transfer, element, es, control@, process@));
    }
    (control, process)
}

/// Closed loop with a one-sample delay between sensing and acting: the first
/// control value is `initial_control`; at each sample `i` the element turns
/// `control[i]` into `process[i]`, and, unless `i` is the last sample, the
/// controller turns the measurement `process[i]` and the setpoint
/// `setpoints[i]` into `control[i + 1]`. Returns `(control, process)`, both as
/// long as `setpoints`.
pub fn closed_loop<S: Copy, E, C, FE: Fn(E, S) -> (E, S), FC: Fn(C, S, S) -> (C, S)>(
    setpoints: &Vec<S>,
    initial_control: S,
    element: E,
    controller: C,
    transfer: FE,
    update: FC,
) -> (r: (Vec<S>, Vec<S>))
    requires
        forall|e: E, u: S| call_requires(transfer, (e, u)),
        forall|c: C, y: S, w: S| call_requires(update, (c, y, w)),
    ensures
        r.0@.len() == setpoints@.len(),
        r.1@.len() == setpoints@.len(),
        closed_loop_run(transfer, update, element, controller, initial_control, setpoints@, r.0@, r.1@),
{
    let n = setpoints.len();
    let mut control: Vec<S> = Vec::new();
    let mut process: Vec<S> = Vec::new();
    let mut e = element;
    let mut c = controller;
    let ghost mut es: Seq<E> = seq![e];
    let ghost mut cs: Seq<C> = seq![c];
    if n == 0 {
        proof {
            assert(transfer_trace(transfer, element, es, control@, process@));
        }
        return (control, process);
    }
    control.push(initial_control);
    let mut i: usize = 0;
    while i < n
        invariant
            n == setpoints@.len(),
            n > 0,
            forall|e: E, u: S| call_requires(transfer, (e, u)),
            forall|c: C, y: S, w: S| call_requires(update, (c, y, w)),
            i <= n,
            control@.len() == if i < n { i + 1 } else { n as int },
            process@.len() == i,
            control@[0] == initial_control,
            es.len() == i + 1,
            es[0] == element,
            es[i as int] == e,
            cs.len() == control@.len(),
            cs[0] == controller,
            cs[cs.len() - 1] == c,
            forall|j: int|
                0 <= j < i ==> call_ensures(
                    transfer,
                    (es[j], control@[j]),
                    (es[j + 1], #[trigger] process@[j]),
                ),
            forall|j: int|
                0 <= j < control@.len() - 1 ==> call_ensures(
                    update,
                    (cs[j], process@[j], setpoints@[j]),
                    (cs[j + 1], #[trigger] control@[j + 1]),
                ),
        decreases n - i,
    {
        let u = control[i];
        let (e_next, y) = transfer(e, u);
        proof {
            es = es.push(e_next);
        }
        e = e_next;
        process.push(y);
        if i + 1 < n {
            let (c_next, u_next) = update(c, y, setpoints[i]);
            proof {
                cs = cs.push(c_next);
            }
            c = c_next;
            control.push(u_next);
        }
        i = i + 1;
    }
    proof {
        assert(transfer_trace(transfer, element, es, control@, process@));
        let ys = process@.drop_last();
        let ws = setpoints@.drop_last();
        let us = control@.drop_first();
        assert forall|j: int| 0 <= j < ws.len() implies call_ensures(
            update,
            (cs[j], ys[j], ws[j]),
            (cs[j + 1], #[trigger] us[j]),
        ) by {
            assert(us[j] == control@[j + 1]);
        }
        assert(update_trace(update, controller, cs, ys, ws, us));
    }
    (control, process)
}

} // verus!
