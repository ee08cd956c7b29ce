use vstd::prelude::*;

verus! {

/// One gate of a circuit: a simple gate naming its output and two input
/// wires, or a function gate with output wires, input wires, and a body of
/// inner gates written against its own local wire numbering.
#[derive(Debug, PartialEq, Eq)]
pub enum Gate {
    Simple(u64, u64, u64),
    Function(Vec<u64>, Vec<u64>, Vec<Gate>),
}

/// Every wire of one gate, read against `bound` wires: a simple gate's three
/// wires are in range, and a function gate's interface wires are in range
/// while its body is numbered against its own interface.
pub open spec fn gate_wires_ok(g: Gate, bound: int) -> bool
    decreases g,
{
    match g {
        Gate::Simple(out, in1, in2) => out < bound && in1 < bound && in2 < bound,
        Gate::Function(outs, ins, gates) => (forall|k: int|
            0 <= k < outs@.len() ==> outs@[k] < bound) && (forall|k: int|
            0 <= k < ins@.len() ==> ins@[k] < bound),
    }
}

/// A wire list, each wire looked up in the translation table.
pub open spec fn map_wires(v: Seq<u64>, table: Seq<u64>) -> Seq<u64> {
    v.map_values(|x: u64| table[x as int])
}

/// What translating one gate means: every interface wire is replaced by its
/// entry in the table; a function gate's body is carried along unchanged.
pub open spec fn is_translation(g: Gate, r: Gate, table: Seq<u64>) -> bool {
    match g {
        Gate::Simple(out, in1, in2) => r == Gate::Simple(
            table[out as int],
            table[in1 as int],
            table[in2 as int],
        ),
        Gate::Function(outs, ins, gates) => r matches Gate::Function(
            routs,
            rins,
            rgates,
        ) && routs@ == map_wires(outs@, table) && rins@ == map_wires(ins@, table) && rgates
            == gates,
    }
}

/// Translates one gate through the table and counts it.
pub fn translate_gate(gate: Gate, output_input: &Vec<u64>, translated_gates: &mut usize) -> (r:
    Gate)
    requires
        gate_wires_ok(gate, output_input@.len() as int),
        *old(translated_gates) < usize::MAX,
    ensures
        is_translation(gate, r, output_input@),
        *final(translated_gates) == *old(translated_gates) + 1,
{
    let table_len = output_input.len();
    *translated_gates = *translated_gates + 1;
    match gate {
        Gate::Simple(out, in1, in2) => Gate::Simple(
            output_input[out as usize],
            output_input[in1 as usize],
            output_input[in2 as usize],
        ),
        Gate::Function(outs, ins, gates) => {
            let translated_outputs = map_through(&outs, output_input);
            let translated_inputs = map_through(&ins, output_input);
            Gate::Function(translated_outputs, translated_inputs, gates)
        },
    }
}

/// Looks every wire of a list up in the table.
fn map_through(v: &Vec<u64>, table: &Vec<u64>) -> (r: Vec<u64>)
    requires
        forall|k: int| 0 <= k < v@.len() ==> v@[k] < table@.len(),
    ensures
        r@ == map_wires(v@, table@),
{
    let table_len = table.len();
    let mut r: Vec<u64> = Vec::new();
    let mut i: usize = 0;
    while i < v.len()
        invariant
            i <= v@.len(),
            table_len == table@.len(),
            forall|k: int| 0 <= k < v@.len() ==> v@[k] < table@.len(),
            r@ =~= map_wires(v@.take(i as int), table@),
        decreases v@.len() - i,
    {
        r.push(table[v[i] as usize]);
        proof {
            assert(r@ =~= map_wires(v@.take(i as int + 1), table@));
        }
        i = i + 1;
    }
    proof {
        assert(v@.take(v@.len() as int) =~= v@);
    }
    r
}

/// Translates a whole layer of gates, counting each.
pub fn translate_gates(gates: Vec<Gate>, output_input: &Vec<u64>, translated_gates: &mut usize) -> (
    r: Vec<Gate>)
    requires
        forall|k: int|
            0 <= k < gates@.len() ==> gate_wires_ok(#[trigger] gates@[k], output_input@.len() as int),
        *old(translated_gates) + gates@.len() <= usize::MAX,
    ensures
        r@.len() == gates@.len(),
        forall|k: int|
            0 <= k < gates@.len() ==> is_translation(gates@[k], #[trigger] r@[k], output_input@),
        *final(translated_gates) == *old(translated_gates) + gates@.len(),
{
    let mut r: Vec<Gate> = Vec::new();
    let mut rest = gates;
    while rest.len() > 0
        invariant
            r@.len() + rest@.len() == gates@.len(),
            rest@ =~= gates@.skip(r@.len() as int),
            forall|k: int|
                0 <= k < gates@.len() ==> gate_wires_ok(
                    #[trigger] gates@[k],
                    output_input@.len() as int,
                ),
            forall|k: int|
                0 <= k < r@.len() ==> is_translation(gates@[k], #[trigger] r@[k], output_input@),
            *translated_gates == *old(translated_gates) + r@.len(),
            *old(translated_gates) + gates@.len() <= usize::MAX,
        decreases rest@.len(),
    {
        let gate = rest.remove(0);
        proof {
            assert(gate == gates@[r@.len() as int]);
        }
        let translated = translate_gate(gate, output_input, translated_gates);
        r.push(translated);
        proof {
            assert(rest@ =~= gates@.skip(r@.len() as int));
        }
    }
    r
}

/// The size of a gate: itself, plus its whole body, recursively.
pub open spec fn gate_size(g: Gate) -> nat
    decreases g,
{
    match g {
        Gate::Simple(_, _, _) => 1,
        Gate::Function(_, _, gates) => 1 + gates_size(gates@),
    }
}

/// The summed size of a layer of gates.
pub open spec fn gates_size(gs: Seq<Gate>) -> nat
    decreases gs,
{
    if gs.len() == 0 {
        0
    } else {
        gate_size(gs[0]) + gates_size(gs.subrange(1, gs.len() as int))
    }
}

/// How many gates flattening walks through: none for a simple gate, and one
/// per body gate at every level below a function gate.
pub open spec fn flatten_cost(g: Gate) -> nat
    decreases g,
{
    match g {
        Gate::Simple(_, _, _) => 0,
        Gate::Function(_, _, gates) => gates@.len() + flatten_costs(gates@),
    }
}

/// The summed flattening cost of a layer of gates.
pub open spec fn flatten_costs(gs: Seq<Gate>) -> nat
    decreases gs,
{
    if gs.len() == 0 {
        0
    } else {
        flatten_cost(gs[0]) + flatten_costs(gs.subrange(1, gs.len() as int))
    }
}

/// A gate whose body, at every level, is numbered against the interface of
/// the function gate enclosing it.
pub open spec fn gate_body_ok(g: Gate) -> bool
    decreases g,
{
    match g {
        Gate::Simple(_, _, _) => true,
        Gate::Function(outs, ins, gates) => forall|k: int|
            0 <= k < gates@.len() ==> gate_wires_ok(
                #[trigger] gates@[k],
                outs@.len() + ins@.len() as int,
            ) && gate_body_ok(gates@[k]),
    }
}

/// Translating a gate changes neither its size, its flattening cost, nor the
/// well-formedness of its body.
proof fn lemma_translation_keeps_shape(g: Gate, r: Gate, table: Seq<u64>)
    requires
        is_translation(g, r, table),
        gate_body_ok(g),
    ensures
        gate_size(r) == gate_size(g),
        flatten_cost(r) == flatten_cost(g),
        gate_body_ok(r),
{
    match g {
        Gate::Simple(_, _, _) => {},
        Gate::Function(outs, ins, gates) => {},
    }
}

/// One element's size is part of the layer's size.
proof fn lemma_gates_size_element(gs: Seq<Gate>, k: int)
    requires
        0 <= k < gs.len(),
    ensures
        gate_size(gs[k]) <= gates_size(gs),
    decreases gs.len(),
{
    if k > 0 {
        lemma_gates_size_element(gs.subrange(1, gs.len() as int), k - 1);
        assert(gs.subrange(1, gs.len() as int)[k - 1] == gs[k]);
    }
}

/// Splitting a layer after its first element splits its flattening cost.
proof fn lemma_flatten_costs_split(gs: Seq<Gate>, k: int)
    requires
        0 <= k < gs.len(),
    ensures
        flatten_costs(gs.subrange(0, k + 1)) + flatten_costs(gs.subrange(k + 1, gs.len() as int))
            == flatten_costs(gs),
    decreases k,
{
    let front = gs.subrange(0, k + 1);
    let tail = gs.subrange(1, gs.len() as int);
    assert(front[0] == gs[0]);
    assert(flatten_costs(front) == flatten_cost(gs[0]) + flatten_costs(
        front.subrange(1, front.len() as int),
    ));
    assert(flatten_costs(gs) == flatten_cost(gs[0]) + flatten_costs(tail));
    if k == 0 {
        assert(front.subrange(1, 1) =~= Seq::<Gate>::empty());
        assert(gs.subrange(k + 1, gs.len() as int) =~= tail);
    } else {
        lemma_flatten_costs_split(tail, k - 1);
        assert(tail.subrange(0, k) =~= front.subrange(1, front.len() as int));
        assert(tail.subrange(k, tail.len() as int) =~= gs.subrange(k + 1, gs.len() as int));
    }
}

/// Flattens a gate down to simple gates: each function gate's body is
/// translated through that gate's own interface and expanded in turn, and the
/// counter grows by exactly one per body gate walked.
pub fn flatten(gate: Gate, translated: &mut usize) -> (r: Vec<Gate>)
    requires
        gate_body_ok(gate),
        *old(translated) + flatten_cost(gate) <= usize::MAX,
    ensures
        forall|k: int| 0 <= k < r@.len() ==> (#[trigger] r@[k]) matches Gate::Simple(_, _, _),
        *final(translated) == *old(translated) + flatten_cost(gate),
    decreases gate_size(gate),
{
    match gate {
        Gate::Simple(out, in1, in2) => {
            let mut r: Vec<Gate> = Vec::new();
            r.push(Gate::Simple(out, in1, in2));
            r
        },
        Gate::Function(outs, ins, gates) => {
            let ghost whole_size = gate_size(Gate::Function(outs, ins, gates));
            let ghost whole_cost = flatten_cost(Gate::Function(outs, ins, gates));
            let ghost body = gates@;
            let mut output_inputs: Vec<u64> = Vec::new();
            append_all(&mut output_inputs, &outs);
            append_all(&mut output_inputs, &ins);
            proof {
                assert(output_inputs@.len() == outs@.len() + ins@.len());
            }
            let mut r: Vec<Gate> = Vec::new();
            let mut rest = gates;
            let ghost start = *translated;
            while rest.len() > 0
                invariant
                    whole_size == gate_size(gate),
                    gate == Gate::Function(outs, ins, gates),
                    body == gates@,
                    rest@ =~= body.subrange(body.len() - rest@.len(), body.len() as int),
                    rest@.len() <= body.len(),
                    output_inputs@.len() == outs@.len() + ins@.len(),
                    forall|k: int|
                        0 <= k < body.len() ==> gate_wires_ok(
                            #[trigger] body[k],
                            outs@.len() + ins@.len() as int,
                        ) && gate_body_ok(body[k]),
                    forall|k: int|
                        0 <= k < r@.len() ==> (#[trigger] r@[k]) matches Gate::Simple(_, _, _),
                    whole_size == 1 + gates_size(body),
                    whole_cost == body.len() + flatten_costs(body),
                    *translated == start + (body.len() - rest@.len()) + flatten_costs(
                        body.subrange(0, body.len() - rest@.len()),
                    ),
                    start + whole_cost <= usize::MAX,
                decreases rest@.len(),
            {
                let ghost done = body.len() - rest@.len();
                let inner = rest.remove(0);
                proof {
                    assert(inner == body[done]);
                    assert(rest@ =~= body.subrange(body.len() - rest@.len(), body.len() as int));
                    lemma_costs_take_step(body, done);
                    assert(flatten_cost(body[done]) + flatten_costs(body.subrange(0, done))
                        <= flatten_costs(body));
                }
                let t = translate_gate(inner, &output_inputs, translated);
                proof {
                    lemma_translation_keeps_shape(inner, t, output_inputs@);
                    lemma_gates_size_element(body, done);
                    assert(gate_size(t) < whole_size);
                }
                let mut flat = flatten(t, translated);
                r.append(&mut flat);
                proof {
                    assert(forall|k: int|
                        0 <= k < r@.len() ==> (#[trigger] r@[k]) matches Gate::Simple(_, _, _));
                }
            }
            proof {
                assert(body.subrange(0, body.len() as int) =~= body);
            }
            r
        },
    }
}

/// One more element folds its cost into the running total.
proof fn lemma_costs_take_step(gs: Seq<Gate>, k: int)
    requires
        0 <= k < gs.len(),
    ensures
        flatten_costs(gs.subrange(0, k + 1)) == flatten_costs(gs.subrange(0, k)) + flatten_cost(
            gs[k],
        ),
        flatten_costs(gs.subrange(0, k)) + flatten_cost(gs[k]) <= flatten_costs(gs),
    decreases gs.len(),
{
    lemma_flatten_costs_split(gs, k);
    lemma_costs_prefix_step(gs.subrange(0, k + 1));
    assert(gs.subrange(0, k + 1).drop_last() =~= gs.subrange(0, k));
    assert(gs.subrange(0, k + 1).last() == gs[k]);
}

/// A layer's cost is its front part plus its last element.
proof fn lemma_costs_prefix_step(gs: Seq<Gate>)
    requires
        gs.len() > 0,
    ensures
        flatten_costs(gs) == flatten_costs(gs.drop_last()) + flatten_cost(gs.last()),
    decreases gs.len(),
{
    if gs.len() == 1 {
        assert(gs.subrange(1, 1) =~= Seq::<Gate>::empty());
        assert(gs.drop_last() =~= Seq::<Gate>::empty());
    } else {
        let tail = gs.subrange(1, gs.len() as int);
        lemma_costs_prefix_step(tail);
        assert(tail.drop_last() =~= gs.drop_last().subrange(
            1,
            gs.drop_last().len() as int,
        ));
        assert(tail.last() == gs.last());
        assert(gs.drop_last()[0] == gs[0]);
        assert(gs.drop_last().len() > 0);
    }
}

/// Appends every wire of the source to the end of the destination.
fn append_all(dest: &mut Vec<u64>, src: &Vec<u64>)
    ensures
        final(dest)@ == old(dest)@ + src@,
{
    let mut i: usize = 0;
    while i < src.len()
        invariant
            i <= src@.len(),
            dest@ =~= old(dest)@ + src@.take(i as int),
        decreases src@.len() - i,
    {
        dest.push(src[i]);
        proof {
            assert(dest@ =~= old(dest)@ + src@.take(i as int + 1));
        }
        i = i + 1;
    }
    proof {
        assert(src@.take(src@.len() as int) =~= src@);
    }
}

/// Flattens a whole layer of gates, in order.
pub fn flatten_gates(gates: Vec<Gate>, translated: &mut usize) -> (r: Vec<Gate>)
    requires
        forall|k: int| 0 <= k < gates@.len() ==> gate_body_ok(#[trigger] gates@[k]),
        *old(translated) + flatten_costs(gates@) <= usize::MAX,
    ensures
        forall|k: int| 0 <= k < r@.len() ==> (#[trigger] r@[k]) matches Gate::Simple(_, _, _),
        *final(translated) == *old(translated) + flatten_costs(gates@),
{
    let ghost all = gates@;
    let mut r: Vec<Gate> = Vec::new();
    let mut rest = gates;
    let ghost start = *translated;
    while rest.len() > 0
        invariant
            rest@ =~= all.subrange(all.len() - rest@.len(), all.len() as int),
            rest@.len() <= all.len(),
            forall|k: int| 0 <= k < all.len() ==> gate_body_ok(#[trigger] all[k]),
            forall|k: int|
                0 <= k < r@.len() ==> (#[trigger] r@[k]) matches Gate::Simple(_, _, _),
            *translated == start + flatten_costs(all.subrange(0, all.len() - rest@.len())),
            start + flatten_costs(all) <= usize::MAX,
        decreases rest@.len(),
    {
        let ghost done = all.len() - rest@.len();
        let gate = rest.remove(0);
        proof {
            assert(gate == all[done]);
            assert(rest@ =~= all.subrange(all.len() - rest@.len(), all.len() as int));
            lemma_costs_take_step(all, done);
        }
        let mut flat = flatten(gate, translated);
        r.append(&mut flat);
    }
    proof {
        assert(all.subrange(0, all.len() as int) =~= all);
    }
    r
}

} // verus!
