//! The data flow graph: the single owner of a function's code.
//!
//! All values, instructions and blocks of one function live in the arenas
//! below, and every mutation an optimization pass performs goes through this
//! type.  Handles issued by the graph are never reused; nothing the graph owns
//! is ever deleted.

use vstd::prelude::*;
use crate::basic_block::BasicBlock;
use crate::call_stack::{CallStack, CallStackHelper, CallStackId, Location};
use crate::elements::{elems, ivec_clone, ivec_get, ivec_len};
use crate::instruction::{
    Instruction, InstructionResultType, SimplifyResult, TerminatorInstruction,
};
use crate::types::{num_bits_of, NumericType, Type};
use crate::value::{
    BasicBlockId, FunctionId, InstructionId, IntrinsicId, Value, ValueId,
};

verus! {

/// The data flow graph of one function.
///
/// The three arenas (`values`, `instructions`, `blocks`) are append-only:
/// a handle is an index, and indices already issued stay valid forever.
/// `results` and `locations` run parallel to `instructions`; `replacements`
/// runs parallel to `values`.
pub struct DataFlowGraph {
    /// All instructions of the function.
    pub instructions: Vec<Instruction>,
    /// The result values of each instruction, parallel to `instructions`.
    pub results: Vec<Vec<ValueId>>,
    /// The call stack of each instruction, parallel to `instructions`;
    /// the root stack until one is recorded.
    pub locations: Vec<CallStackId>,
    /// All values of the function.
    pub values: Vec<Value>,
    /// For each value, the value its handle has been substituted by, if any.
    /// Resolution chases these links to a fixed point; the links are acyclic.
    pub replacements: Vec<Option<ValueId>>,
    /// The canonical value of each (constant, numeric type) pair created so
    /// far; keys are unique and so are the canonical values.
    pub constants: Vec<(u128, NumericType, ValueId)>,
    /// The canonical value of each imported function.
    pub functions: Vec<(FunctionId, ValueId)>,
    /// The canonical value of each imported intrinsic.
    pub intrinsics: Vec<(IntrinsicId, ValueId)>,
    /// The canonical value of each imported foreign function, by name.
    pub foreign_functions: Vec<(String, ValueId)>,
    /// All basic blocks of the function.
    pub blocks: Vec<BasicBlock>,
    /// The call-stack interner instructions' provenance points into.
    pub call_stack_data: CallStackHelper,
}

/// Chases substitution links from `id` for at most `fuel` steps; `None` means
/// the fuel ran out before a fixed point was reached.
pub open spec fn chase(replacements: Seq<Option<ValueId>>, id: ValueId, fuel: nat) -> Option<ValueId>
    decreases fuel,
{
    if id >= replacements.len() {
        Some(id)
    } else {
        match replacements[id as int] {
            None => Some(id),
            Some(next) => if fuel == 0 {
                None
            } else {
                chase(replacements, next, (fuel - 1) as nat)
            },
        }
    }
}

/// How many values currently have a substitution link.
pub open spec fn num_links(replacements: Seq<Option<ValueId>>) -> nat
    decreases replacements.len(),
{
    if replacements.len() == 0 {
        0
    } else {
        num_links(replacements.drop_last()) + if replacements.last() is Some {
            1nat
        } else {
            0nat
        }
    }
}

/// Every substitution link targets a valid handle other than its source.
pub open spec fn links_in_range(reps: Seq<Option<ValueId>>) -> bool {
    forall|k: int| 0 <= k < reps.len() && reps[k] is Some ==> (#[trigger] reps[k]).unwrap()
        < reps.len() && reps[k].unwrap() != k
}

/// Appending an unsubstituted entry changes no chase.
proof fn lemma_chase_push_none(reps: Seq<Option<ValueId>>, x: ValueId, f: nat)
    requires
        links_in_range(reps),
    ensures
        chase(reps.push(None), x, f) == chase(reps, x, f),
    decreases f,
{
    if x < reps.len() {
        match reps[x as int] {
            None => {},
            Some(next) => {
                if f > 0 {
                    lemma_chase_push_none(reps, next, (f - 1) as nat);
                }
            },
        }
    }
}

/// Appending an unsubstituted entry adds no link.
proof fn lemma_num_links_push_none(reps: Seq<Option<ValueId>>)
    ensures
        num_links(reps.push(None)) == num_links(reps),
{
    assert(reps.push(None).drop_last() =~= reps);
}

/// Updating one entry to a link adds one link, or none if the entry already
/// was one.
proof fn lemma_num_links_update(reps: Seq<Option<ValueId>>, k: int, v: Option<ValueId>)
    requires
        0 <= k < reps.len(),
        v is Some,
    ensures
        num_links(reps.update(k, v)) == num_links(reps) + if reps[k] is Some {
            0int
        } else {
            1int
        },
    decreases reps.len(),
{
    let reps2 = reps.update(k, v);
    if k == reps.len() - 1 {
        assert(reps2.drop_last() =~= reps.drop_last());
    } else {
        assert(reps2.drop_last() =~= reps.drop_last().update(k, v));
        lemma_num_links_update(reps.drop_last(), k, v);
    }
}

/// A sequence with a link somewhere has at least one link.
proof fn lemma_num_links_at_least_one(reps: Seq<Option<ValueId>>, k: int)
    requires
        0 <= k < reps.len(),
        reps[k] is Some,
    ensures
        num_links(reps) >= 1,
    decreases reps.len(),
{
    if k < reps.len() - 1 {
        lemma_num_links_at_least_one(reps.drop_last(), k);
    }
}

/// Linking a previously unlinked handle `k` to a fixed point `r` keeps every
/// chase successful, at the cost of one more step of fuel.
proof fn lemma_chase_update_fresh(
    reps: Seq<Option<ValueId>>,
    k: ValueId,
    r: ValueId,
    x: ValueId,
    f: nat,
)
    requires
        links_in_range(reps),
        k < reps.len(),
        r < reps.len(),
        r != k,
        reps[r as int] is None,
        chase(reps, x, f) is Some,
    ensures
        chase(reps.update(k as int, Some(r)), x, (f + 1) as nat) is Some,
    decreases f,
{
    let reps2 = reps.update(k as int, Some(r));
    if x >= reps.len() {
        assert(chase(reps2, x, (f + 1) as nat) == Some(x));
    } else if x == k {
        assert(chase(reps2, x, (f + 1) as nat) == chase(reps2, r, f));
        assert(reps2[r as int] is None);
        assert(chase(reps2, r, f) == Some(r));
    } else {
        match reps[x as int] {
            None => {
                assert(chase(reps2, x, (f + 1) as nat) == Some(x));
            },
            Some(next) => {
                assert(f > 0);
                lemma_chase_update_fresh(reps, k, r, next, (f - 1) as nat);
                assert((f - 1) as nat + 1 == f);
                assert(chase(reps2, x, (f + 1) as nat) == chase(reps2, next, f));
            },
        }
    }
}

/// Re-linking an already linked handle `k` to a fixed point `r` keeps every
/// chase successful with unchanged fuel.
proof fn lemma_chase_update_relink(
    reps: Seq<Option<ValueId>>,
    k: ValueId,
    r: ValueId,
    x: ValueId,
    f: nat,
)
    requires
        links_in_range(reps),
        k < reps.len(),
        r < reps.len(),
        r != k,
        reps[r as int] is None,
        reps[k as int] is Some,
        chase(reps, x, f) is Some,
    ensures
        chase(reps.update(k as int, Some(r)), x, f) is Some,
    decreases f,
{
    let reps2 = reps.update(k as int, Some(r));
    if x >= reps.len() {
        assert(chase(reps2, x, f) == Some(x));
    } else if x == k {
        // The old chase took at least one step out of `k`, so `f` is positive.
        assert(f > 0);
        assert(chase(reps2, x, f) == chase(reps2, r, (f - 1) as nat));
        assert(reps2[r as int] is None);
        assert(chase(reps2, r, (f - 1) as nat) == Some(r));
    } else {
        match reps[x as int] {
            None => {
                assert(chase(reps2, x, f) == Some(x));
            },
            Some(next) => {
                assert(f > 0);
                lemma_chase_update_relink(reps, k, r, next, (f - 1) as nat);
                assert(chase(reps2, x, f) == chase(reps2, next, (f - 1) as nat));
            },
        }
    }
}

impl DataFlowGraph {
    /// The number of values the graph owns.
    pub open spec fn num_values(self) -> int {
        self.values@.len() as int
    }

    /// The fixed point that chasing substitution links from `id` reaches.
    pub open spec fn resolved(self, id: ValueId) -> ValueId {
        chase(self.replacements@, id, num_links(self.replacements@)).unwrap()
    }

    /// The substitution links are well formed: each link target is a valid
    /// handle distinct from its source, and chasing links from any value
    /// reaches a fixed point within as many steps as there are links.
    pub open spec fn replacements_wf(self) -> bool {
        let reps = self.replacements@;
        &&& links_in_range(reps)
        &&& forall|x: ValueId| x < reps.len() ==> (#[trigger] chase(
            reps,
            x,
            num_links(reps),
        )) is Some
    }

    /// Every value that claims to result from an instruction names an
    /// existing instruction, and every stored instruction's operands are
    /// valid value handles.
    pub open spec fn arenas_wf(self) -> bool {
        &&& forall|v: int| 0 <= v < self.values@.len() ==> match #[trigger] self.values@[v] {
            Value::Instruction { instruction, .. } => instruction < self.instructions@.len(),
            _ => true,
        }
        &&& forall|i: int| 0 <= i < self.instructions@.len() ==> (
            #[trigger] self.instructions@[i]).valid_in(self.num_values())
        &&& forall|i: int, j: int| 0 <= i < self.results@.len() && 0 <= j
            < self.results@[i]@.len() ==> #[trigger] self.results@[i]@[j] < self.values@.len()
        &&& forall|b: int, j: int| 0 <= b < self.blocks@.len() && 0 <= j
            < self.blocks@[b].parameters@.len() ==> #[trigger] self.blocks@[b].parameters@[j]
            < self.values@.len()
    }

    /// The dedup tables hold pairwise distinct keys and valid, pairwise
    /// distinct canonical values.
    pub open spec fn tables_wf(self) -> bool {
        &&& forall|i: int, j: int| 0 <= i < self.constants@.len() && 0 <= j
            < self.constants@.len() && i != j ==> ((#[trigger] self.constants@[i]).0,
            self.constants@[i].1) != ((#[trigger] self.constants@[j]).0, self.constants@[j].1)
            && self.constants@[i].2 != self.constants@[j].2
        &&& forall|i: int| 0 <= i < self.constants@.len() ==> (#[trigger] self.constants@[i]).2
            < self.values@.len()
        &&& forall|i: int, j: int| 0 <= i < self.functions@.len() && 0 <= j
            < self.functions@.len() && i != j ==> (#[trigger] self.functions@[i]).0 != (
            #[trigger] self.functions@[j]).0
        &&& forall|i: int| 0 <= i < self.functions@.len() ==> (#[trigger] self.functions@[i]).1
            < self.values@.len()
        &&& forall|i: int, j: int| 0 <= i < self.intrinsics@.len() && 0 <= j
            < self.intrinsics@.len() && i != j ==> (#[trigger] self.intrinsics@[i]).0 != (
            #[trigger] self.intrinsics@[j]).0
        &&& forall|i: int| 0 <= i < self.intrinsics@.len() ==> (#[trigger] self.intrinsics@[i]).1
            < self.values@.len()
        &&& forall|i: int, j: int| 0 <= i < self.foreign_functions@.len() && 0 <= j
            < self.foreign_functions@.len() && i != j ==> (
            #[trigger] self.foreign_functions@[i]).0@ != (
            #[trigger] self.foreign_functions@[j]).0@
        &&& forall|i: int| 0 <= i < self.foreign_functions@.len() ==> (
            #[trigger] self.foreign_functions@[i]).1 < self.values@.len()
    }

    /// The graph invariant: parallel arenas agree in length, substitution
    /// links terminate, handles stored anywhere are valid, dedup tables are
    /// consistent, and the call-stack interner is well formed.
    pub open spec fn wf(self) -> bool {
        &&& self.results@.len() == self.instructions@.len()
        &&& self.locations@.len() == self.instructions@.len()
        &&& self.replacements@.len() == self.values@.len()
        &&& forall|i: int| 0 <= i < self.locations@.len()
            ==> self.call_stack_data.is_valid_id(#[trigger] self.locations@[i])
        &&& self.replacements_wf()
        &&& self.arenas_wf()
        &&& self.tables_wf()
        &&& self.call_stack_data.wf()
    }

    /// Creates an empty graph.
    pub fn new() -> (r: DataFlowGraph)
        ensures
            r.wf(),
            r.values@.len() == 0,
            r.instructions@.len() == 0,
            r.blocks@.len() == 0,
            r.constants@.len() == 0,
            r.functions@.len() == 0,
            r.intrinsics@.len() == 0,
            r.foreign_functions@.len() == 0,
            r.call_stack_data.nodes@.len() == 0,
    {
        DataFlowGraph {
            instructions: Vec::new(),
            results: Vec::new(),
            locations: Vec::new(),
            values: Vec::new(),
            replacements: Vec::new(),
            constants: Vec::new(),
            functions: Vec::new(),
            intrinsics: Vec::new(),
            foreign_functions: Vec::new(),
            blocks: Vec::new(),
            call_stack_data: CallStackHelper::new(),
        }
    }

    /// Inserts a value into the graph's storage and returns its handle.
    /// Until the value is used in an instruction it is unreachable.
    pub fn make_value(&mut self, value: Value) -> (id: ValueId)
        requires
            old(self).wf(),
            match value {
                Value::Instruction { instruction, .. } => instruction < old(self).instructions@.len(),
                _ => true,
            },
        ensures
            final(self).wf(),
            id == old(self).values@.len(),
            final(self).values@ == old(self).values@.push(value),
            final(self).replacements@ == old(self).replacements@.push(None),
            unchanged_but_values(*old(self), *final(self)),
    {
        let id = self.values.len();
        self.values.push(value);
        self.replacements.push(None);
        proof {
            self.lemma_value_pushed(*old(self));
        }
        id
    }

    /// Appending an unsubstituted value preserves the substitution invariant
    /// and leaves every resolution as it was.
    proof fn lemma_value_pushed(self, pre: DataFlowGraph)
        requires
            pre.replacements_wf(),
            self.replacements@ == pre.replacements@.push(None),
        ensures
            self.replacements_wf(),
            forall|x: ValueId| #![trigger self.resolved(x)] self.resolved(x) == pre.resolved(x),
    {
        let reps = pre.replacements@;
        let reps2 = self.replacements@;
        lemma_num_links_push_none(reps);
        assert forall|x: ValueId| true implies #[trigger] chase(reps2, x, num_links(reps2)) == chase(
            reps,
            x,
            num_links(reps),
        ) by {
            lemma_chase_push_none(reps, x, num_links(reps));
        }
        assert forall|x: ValueId| x < reps2.len() implies (#[trigger] chase(
            reps2,
            x,
            num_links(reps2),
        )) is Some by {
            if x >= reps.len() {
                assert(chase(reps, x, num_links(reps)) == Some(x));
            }
        }
        assert(links_in_range(reps2));
    }

    /// If `original_value_id`'s value has been substituted for that of another
    /// handle, returns the handle the substitution chain bottoms out at;
    /// otherwise returns `original_value_id` itself.  The result is never
    /// itself substituted.
    pub fn resolve(&self, original_value_id: ValueId) -> (r: ValueId)
        requires
            self.wf(),
            original_value_id < self.values@.len(),
        ensures
            r == self.resolved(original_value_id),
            r < self.values@.len(),
            self.replacements@[r as int] is None,
    {
        let reps_len = self.replacements.len();
        let ghost reps = self.replacements@;
        let mut current = original_value_id;
        let ghost mut fuel = num_links(reps);
        proof {
            assert(chase(reps, current, fuel) is Some);
        }
        loop
            invariant
                self.wf(),
                current < reps_len,
                reps_len == reps.len(),
                reps == self.replacements@,
                chase(reps, current, fuel) is Some,
                chase(reps, current, fuel) == chase(
                    reps,
                    original_value_id,
                    num_links(reps),
                ),
            decreases fuel,
        {
            match self.replacements[current] {
                None => {
                    return current;
                },
                Some(next) => {
                    proof {
                        fuel = (fuel - 1) as nat;
                    }
                    current = next;
                },
            }
        }
    }

    /// Makes `value_to_replace` refer to the value `new_value` currently
    /// resolves to: the substitution table gains the link, and the old
    /// handle's stored record is overwritten with a copy of the resolved
    /// value's record, so that direct reads of the old handle see the same
    /// value that resolution reports.
    ///
    /// The caller must never introduce a cycle: the value `new_value`
    /// resolves to must not be `value_to_replace` itself.
    pub fn set_value_from_id(&mut self, value_to_replace: ValueId, new_value: ValueId)
        requires
            old(self).wf(),
            value_to_replace < old(self).values@.len(),
            new_value < old(self).values@.len(),
            value_to_replace != new_value ==> old(self).resolved(new_value) != value_to_replace,
        ensures
            final(self).wf(),
            value_to_replace == new_value ==> *final(self) == *old(self),
            value_to_replace != new_value ==> {
                &&& final(self).replacements@ == old(self).replacements@.update(
                    value_to_replace as int,
                    Some(old(self).resolved(new_value)),
                )
                &&& final(self).values@ == old(self).values@.update(
                    value_to_replace as int,
                    old(self).values@[old(self).resolved(new_value) as int],
                )
                &&& final(self).resolved(value_to_replace) == old(self).resolved(new_value)
            },
            final(self).instructions == old(self).instructions,
            final(self).results == old(self).results,
            final(self).locations == old(self).locations,
            final(self).constants == old(self).constants,
            final(self).functions == old(self).functions,
            final(self).intrinsics == old(self).intrinsics,
            final(self).foreign_functions == old(self).foreign_functions,
            final(self).blocks == old(self).blocks,
            final(self).call_stack_data == old(self).call_stack_data,
            final(self).values@.len() == old(self).values@.len(),
    {
        if value_to_replace != new_value {
            let resolved_id = self.resolve(new_value);
            let ghost reps = self.replacements@;
            let ghost links = num_links(reps);
            self.replacements[value_to_replace] = Some(resolved_id);
            let record = self.values[resolved_id].clone();
            self.values[value_to_replace] = record;
            proof {
                let reps2 = self.replacements@;
                assert(reps2 == reps.update(value_to_replace as int, Some(resolved_id)));
                lemma_num_links_update(reps, value_to_replace as int, Some(resolved_id));
                if reps[value_to_replace as int] is Some {
                    assert forall|x: ValueId| x < reps2.len() implies (#[trigger] chase(
                        reps2,
                        x,
                        num_links(reps2),
                    )) is Some by {
                        lemma_chase_update_relink(reps, value_to_replace, resolved_id, x, links);
                    }
                } else {
                    assert forall|x: ValueId| x < reps2.len() implies (#[trigger] chase(
                        reps2,
                        x,
                        num_links(reps2),
                    )) is Some by {
                        lemma_chase_update_fresh(reps, value_to_replace, resolved_id, x, links);
                    }
                }
                // The new link's own resolution ends at the fixed point.
                lemma_num_links_at_least_one(reps2, value_to_replace as int);
                assert(reps2[resolved_id as int] is None);
                let fuel2 = num_links(reps2);
                assert(chase(reps2, resolved_id, (fuel2 - 1) as nat) == Some(resolved_id));
                assert(chase(reps2, value_to_replace, fuel2) == chase(
                    reps2,
                    resolved_id,
                    (fuel2 - 1) as nat,
                ));
            }
        }
    }

    /// The canonical value of a (constant, numeric type) pair, if one has
    /// been created.
    pub open spec fn spec_constant(self, constant: u128, typ: NumericType) -> Option<ValueId> {
        if exists|i: int|
            0 <= i < self.constants@.len() && (#[trigger] self.constants@[i]).0 == constant
                && self.constants@[i].1 == typ {
            let i = choose|i: int|
                0 <= i < self.constants@.len() && (#[trigger] self.constants@[i]).0 == constant
                    && self.constants@[i].1 == typ;
            Some(self.constants@[i].2)
        } else {
            None
        }
    }

    /// Returns the canonical value for the given constant of the given
    /// numeric type, creating it on first request.  Two requests agree on
    /// their value exactly when they agree on the (constant, type) pair.
    pub fn make_constant(&mut self, constant: u128, typ: NumericType) -> (r: ValueId)
        requires
            old(self).wf(),
        ensures
            final(self).wf(),
            r < final(self).values@.len(),
            final(self).spec_constant(constant, typ) == Some(r),
            match old(self).spec_constant(constant, typ) {
                Some(id) => r == id && *final(self) == *old(self),
                None => {
                    &&& r == old(self).values@.len()
                    &&& final(self).values@ == old(self).values@.push(
                        Value::NumericConstant { constant, typ },
                    )
                    &&& final(self).replacements@ == old(self).replacements@.push(None)
                    &&& final(self).constants@ == old(self).constants@.push((constant, typ, r))
                    &&& final(self).instructions == old(self).instructions
                    &&& final(self).results == old(self).results
                    &&& final(self).locations == old(self).locations
                    &&& final(self).functions == old(self).functions
                    &&& final(self).intrinsics == old(self).intrinsics
                    &&& final(self).foreign_functions == old(self).foreign_functions
                    &&& final(self).blocks == old(self).blocks
                    &&& final(self).call_stack_data == old(self).call_stack_data
                },
            },
    {
        let n = self.constants.len();
        let mut i: usize = 0;
        while i < n
            invariant
                self.wf(),
                n == self.constants@.len(),
                i <= n,
                forall|m: int| 0 <= m < i ==> !((#[trigger] self.constants@[m]).0 == constant
                    && self.constants@[m].1 == typ),
            decreases n - i,
        {
            let (c, t, id) = self.constants[i];
            if c == constant && t == typ {
                proof {
                    let w = choose|w: int|
                        0 <= w < self.constants@.len() && (#[trigger] self.constants@[w]).0
                            == constant && self.constants@[w].1 == typ;
                    assert(w == i as int);
                }
                return id;
            }
            i += 1;
        }
        let id = self.make_value(Value::NumericConstant { constant, typ });
        self.constants.push((constant, typ, id));
        proof {
            assert(old(self).spec_constant(constant, typ) is None);
            let post = *self;
            assert forall|a: int, b: int|
                0 <= a < post.constants@.len() && 0 <= b < post.constants@.len() && a
                    != b implies ((#[trigger] post.constants@[a]).0, post.constants@[a].1) != ((
                #[trigger] post.constants@[b]).0, post.constants@[b].1)
                && post.constants@[a].2 != post.constants@[b].2 by {
                assert(old(self).tables_wf());
            }
            let w = choose|w: int|
                0 <= w < post.constants@.len() && (#[trigger] post.constants@[w]).0 == constant
                    && post.constants@[w].1 == typ;
            assert(post.constants@[post.constants@.len() - 1].0 == constant);
            assert(w == post.constants@.len() - 1);
        }
        id
    }

    /// The canonical value of an imported function, if one has been created.
    pub open spec fn spec_function(self, function: FunctionId) -> Option<ValueId> {
        if exists|i: int|
            0 <= i < self.functions@.len() && (#[trigger] self.functions@[i]).0 == function {
            let i = choose|i: int|
                0 <= i < self.functions@.len() && (#[trigger] self.functions@[i]).0 == function;
            Some(self.functions@[i].1)
        } else {
            None
        }
    }

    /// Returns the canonical value for the given imported function, creating
    /// it on first request.
    pub fn import_function(&mut self, function: FunctionId) -> (r: ValueId)
        requires
            old(self).wf(),
        ensures
            final(self).wf(),
            r < final(self).values@.len(),
            final(self).spec_function(function) == Some(r),
            match old(self).spec_function(function) {
                Some(id) => r == id && *final(self) == *old(self),
                None => {
                    &&& r == old(self).values@.len()
                    &&& final(self).values@ == old(self).values@.push(Value::Function(function))
                    &&& final(self).replacements@ == old(self).replacements@.push(None)
                    &&& final(self).functions@ == old(self).functions@.push((function, r))
                    &&& final(self).instructions == old(self).instructions
                    &&& final(self).results == old(self).results
                    &&& final(self).locations == old(self).locations
                    &&& final(self).constants == old(self).constants
                    &&& final(self).intrinsics == old(self).intrinsics
                    &&& final(self).foreign_functions == old(self).foreign_functions
                    &&& final(self).blocks == old(self).blocks
                    &&& final(self).call_stack_data == old(self).call_stack_data
                },
            },
    {
        let n = self.functions.len();
        let mut i: usize = 0;
        while i < n
            invariant
                self.wf(),
                n == self.functions@.len(),
                i <= n,
                forall|m: int| 0 <= m < i ==> (#[trigger] self.functions@[m]).0 != function,
            decreases n - i,
        {
            let (f, id) = self.functions[i];
            if f == function {
                proof {
                    let w = choose|w: int|
                        0 <= w < self.functions@.len() && (#[trigger] self.functions@[w]).0
                            == function;
                    assert(w == i as int);
                }
                return id;
            }
            i += 1;
        }
        let id = self.make_value(Value::Function(function));
        self.functions.push((function, id));
        proof {
            assert(old(self).spec_function(function) is None);
            let post = *self;
            assert forall|a: int, b: int|
                0 <= a < post.functions@.len() && 0 <= b < post.functions@.len() && a
                    != b implies (#[trigger] post.functions@[a]).0 != (
            #[trigger] post.functions@[b]).0 by {
                assert(old(self).tables_wf());
            }
            let w = choose|w: int|
                0 <= w < post.functions@.len() && (#[trigger] post.functions@[w]).0 == function;
            assert(post.functions@[post.functions@.len() - 1].0 == function);
            assert(w == post.functions@.len() - 1);
        }
        id
    }

    /// The canonical value of an imported intrinsic, if one has been created.
    pub open spec fn spec_intrinsic(self, intrinsic: IntrinsicId) -> Option<ValueId> {
        if exists|i: int|
            0 <= i < self.intrinsics@.len() && (#[trigger] self.intrinsics@[i]).0 == intrinsic {
            let i = choose|i: int|
                0 <= i < self.intrinsics@.len() && (#[trigger] self.intrinsics@[i]).0 == intrinsic;
            Some(self.intrinsics@[i].1)
        } else {
            None
        }
    }

    /// Returns the canonical value for the given intrinsic, if it has been
    /// imported.
    pub fn get_intrinsic(&self, intrinsic: IntrinsicId) -> (r: Option<ValueId>)
        requires
            self.wf(),
        ensures
            r == self.spec_intrinsic(intrinsic),
    {
        let n = self.intrinsics.len();
        let mut i: usize = 0;
        while i < n
            invariant
                self.wf(),
                n == self.intrinsics@.len(),
                i <= n,
                forall|m: int| 0 <= m < i ==> (#[trigger] self.intrinsics@[m]).0 != intrinsic,
            decreases n - i,
        {
            let (k, id) = self.intrinsics[i];
            if k == intrinsic {
                proof {
                    let w = choose|w: int|
                        0 <= w < self.intrinsics@.len() && (#[trigger] self.intrinsics@[w]).0
                            == intrinsic;
                    assert(w == i as int);
                }
                return Some(id);
            }
            i += 1;
        }
        None
    }

    /// Returns the canonical value for the given intrinsic, creating it on
    /// first request.
    pub fn import_intrinsic(&mut self, intrinsic: IntrinsicId) -> (r: ValueId)
        requires
            old(self).wf(),
        ensures
            final(self).wf(),
            r < final(self).values@.len(),
            final(self).spec_intrinsic(intrinsic) == Some(r),
            match old(self).spec_intrinsic(intrinsic) {
                Some(id) => r == id && *final(self) == *old(self),
                None => {
                    &&& r == old(self).values@.len()
                    &&& final(self).values@ == old(self).values@.push(Value::Intrinsic(intrinsic))
                    &&& final(self).replacements@ == old(self).replacements@.push(None)
                    &&& final(self).intrinsics@ == old(self).intrinsics@.push((intrinsic, r))
                    &&& final(self).instructions == old(self).instructions
                    &&& final(self).results == old(self).results
                    &&& final(self).locations == old(self).locations
                    &&& final(self).constants == old(self).constants
                    &&& final(self).functions == old(self).functions
                    &&& final(self).foreign_functions == old(self).foreign_functions
                    &&& final(self).blocks == old(self).blocks
                    &&& final(self).call_stack_data == old(self).call_stack_data
                },
            },
    {
        let existing = self.get_intrinsic(intrinsic);
        match existing {
            Some(id) => id,
            None => {
                let id = self.make_value(Value::Intrinsic(intrinsic));
                self.intrinsics.push((intrinsic, id));
                proof {
                    let post = *self;
                    assert forall|a: int, b: int|
                        0 <= a < post.intrinsics@.len() && 0 <= b < post.intrinsics@.len() && a
                            != b implies (#[trigger] post.intrinsics@[a]).0 != (
                    #[trigger] post.intrinsics@[b]).0 by {
                        assert(old(self).tables_wf());
                    }
                    let w = choose|w: int|
                        0 <= w < post.intrinsics@.len() && (#[trigger] post.intrinsics@[w]).0
                            == intrinsic;
                    assert(post.intrinsics@[post.intrinsics@.len() - 1].0 == intrinsic);
                    assert(w == post.intrinsics@.len() - 1);
                }
                id
            },
        }
    }

    /// The canonical value of an imported foreign function, by name, if one
    /// has been created.
    pub open spec fn spec_foreign_function(self, name: Seq<char>) -> Option<ValueId> {
        if exists|i: int|
            0 <= i < self.foreign_functions@.len() && (#[trigger] self.foreign_functions@[i]).0@
                == name {
            let i = choose|i: int|
                0 <= i < self.foreign_functions@.len() && (
                #[trigger] self.foreign_functions@[i]).0@ == name;
            Some(self.foreign_functions@[i].1)
        } else {
            None
        }
    }

    /// Returns the canonical value for the foreign function of the given
    /// name, creating it on first request.
    pub fn import_foreign_function(&mut self, function: &str) -> (r: ValueId)
        requires
            old(self).wf(),
        ensures
            final(self).wf(),
            r < final(self).values@.len(),
            final(self).spec_foreign_function(function@) == Some(r),
            match old(self).spec_foreign_function(function@) {
                Some(id) => r == id && *final(self) == *old(self),
                None => {
                    &&& r == old(self).values@.len()
                    &&& final(self).values@.len() == old(self).values@.len() + 1
                    &&& forall|v: int| 0 <= v < old(self).values@.len() ==> final(self).values@[v]
                        == old(self).values@[v]
                    &&& final(self).values@[r as int] matches Value::ForeignFunction(n) && n@
                        == function@
                    &&& final(self).replacements@ == old(self).replacements@.push(None)
                    &&& final(self).foreign_functions@.len() == old(self).foreign_functions@.len()
                        + 1
                    &&& forall|m: int| 0 <= m < old(self).foreign_functions@.len()
                        ==> final(self).foreign_functions@[m] == old(self).foreign_functions@[m]
                    &&& final(self).instructions == old(self).instructions
                    &&& final(self).results == old(self).results
                    &&& final(self).locations == old(self).locations
                    &&& final(self).constants == old(self).constants
                    &&& final(self).functions == old(self).functions
                    &&& final(self).intrinsics == old(self).intrinsics
                    &&& final(self).blocks == old(self).blocks
                    &&& final(self).call_stack_data == old(self).call_stack_data
                },
            },
    {
        let name = function.to_owned();
        let n = self.foreign_functions.len();
        let mut i: usize = 0;
        while i < n
            invariant
                self.wf(),
                n == self.foreign_functions@.len(),
                i <= n,
                name@ == function@,
                forall|m: int| 0 <= m < i ==> (#[trigger] self.foreign_functions@[m]).0@ != name@,
            decreases n - i,
        {
            let found = self.foreign_functions[i].0 == name;
            if found {
                let id = self.foreign_functions[i].1;
                proof {
                    let w = choose|w: int|
                        0 <= w < self.foreign_functions@.len() && (
                        #[trigger] self.foreign_functions@[w]).0@ == name@;
                    assert(w == i as int);
                }
                return id;
            }
            i += 1;
        }
        let id = self.make_value(Value::ForeignFunction(name));
        let entry_name = function.to_owned();
        self.foreign_functions.push((entry_name, id));
        proof {
            assert(old(self).spec_foreign_function(function@) is None);
            let post = *self;
            assert forall|a: int, b: int|
                0 <= a < post.foreign_functions@.len() && 0 <= b < post.foreign_functions@.len()
                    && a != b implies (#[trigger] post.foreign_functions@[a]).0@ != (
            #[trigger] post.foreign_functions@[b]).0@ by {
                assert(old(self).tables_wf());
            }
            let w = choose|w: int|
                0 <= w < post.foreign_functions@.len() && (
                #[trigger] post.foreign_functions@[w]).0@ == function@;
            assert(post.foreign_functions@[post.foreign_functions@.len() - 1].0@ == function@);
            assert(w == post.foreign_functions@.len() - 1);
        }
        id
    }

    /// Returns the number of instructions inserted into the function.
    pub fn num_instructions(&self) -> (r: usize)
        ensures
            r == self.instructions@.len(),
    {
        self.instructions.len()
    }

    /// Returns the number of values the function owns.
    pub fn value_count(&self) -> (r: usize)
        ensures
            r == self.values@.len(),
    {
        self.values.len()
    }

    /// Returns the number of basic blocks the function owns.
    pub fn block_count(&self) -> (r: usize)
        ensures
            r == self.blocks@.len(),
    {
        self.blocks.len()
    }

    /// Indexed read access to a value.
    pub fn value(&self, id: ValueId) -> (r: &Value)
        requires
            id < self.values@.len(),
        ensures
            *r == self.values@[id as int],
    {
        &self.values[id]
    }

    /// Indexed read access to an instruction.
    pub fn instruction(&self, id: InstructionId) -> (r: &Instruction)
        requires
            id < self.instructions@.len(),
        ensures
            *r == self.instructions@[id as int],
    {
        &self.instructions[id]
    }

    /// Indexed write access to an instruction: overwrites it in place.  The
    /// results recorded for the instruction are not recomputed; see
    /// [`Self::make_instruction_results`].
    pub fn set_instruction(&mut self, id: InstructionId, instruction: Instruction)
        requires
            old(self).wf(),
            id < old(self).instructions@.len(),
            instruction.valid_in(old(self).num_values()),
        ensures
            final(self).wf(),
            final(self).instructions@ == old(self).instructions@.update(id as int, instruction),
            final(self).results == old(self).results,
            final(self).locations == old(self).locations,
            final(self).values == old(self).values,
            final(self).replacements == old(self).replacements,
            final(self).constants == old(self).constants,
            final(self).functions == old(self).functions,
            final(self).intrinsics == old(self).intrinsics,
            final(self).foreign_functions == old(self).foreign_functions,
            final(self).blocks == old(self).blocks,
            final(self).call_stack_data == old(self).call_stack_data,
    {
        self.instructions[id] = instruction;
    }

    /// Indexed read access to a basic block.
    pub fn block(&self, id: BasicBlockId) -> (r: &BasicBlock)
        requires
            id < self.blocks@.len(),
        ensures
            *r == self.blocks@[id as int],
    {
        &self.blocks[id]
    }

    /// Returns the type of the given value.
    pub fn type_of_value(&self, value: ValueId) -> (r: Type)
        requires
            value < self.values@.len(),
        ensures
            r == self.values@[value as int].spec_type(),
    {
        self.values[value].get_type()
    }

    /// True exactly when the given value's type is a reference.
    pub fn value_is_reference(&self, value: ValueId) -> (r: bool)
        requires
            value < self.values@.len(),
        ensures
            r == (self.values@[value as int].spec_type() is Reference),
    {
        match &self.values[value] {
            Value::Instruction { typ, .. } => matches!(typ, Type::Reference(_)),
            Value::Param { typ, .. } => matches!(typ, Type::Reference(_)),
            _ => false,
        }
    }

    /// The constant and numeric type the given value resolves to, if it
    /// resolves to a numeric constant.
    pub open spec fn spec_numeric_constant(self, value: ValueId) -> Option<(u128, NumericType)> {
        match self.values@[self.resolved(value) as int] {
            Value::NumericConstant { constant, typ } => Some((constant, typ)),
            _ => None,
        }
    }

    /// Returns the constant and the numeric type the value resolves to, or
    /// nothing if it does not resolve to a numeric constant.
    pub fn get_numeric_constant_with_type(&self, value: ValueId) -> (r: Option<(u128, NumericType)>)
        requires
            self.wf(),
            value < self.values@.len(),
        ensures
            r == self.spec_numeric_constant(value),
    {
        let id = self.resolve(value);
        match &self.values[id] {
            Value::NumericConstant { constant, typ } => Some((*constant, *typ)),
            _ => None,
        }
    }

    /// Returns the constant the value resolves to, or nothing if it does not
    /// resolve to a numeric constant.
    pub fn get_numeric_constant(&self, value: ValueId) -> (r: Option<u128>)
        requires
            self.wf(),
            value < self.values@.len(),
        ensures
            r == match self.spec_numeric_constant(value) {
                Some((constant, _)) => Some(constant),
                None => Option::<u128>::None,
            },
    {
        match self.get_numeric_constant_with_type(value) {
            Some((constant, _)) => Some(constant),
            None => None,
        }
    }

    /// True exactly when the value resolves to a nonzero numeric constant.
    pub fn is_constant_true(&self, argument: ValueId) -> (r: bool)
        requires
            self.wf(),
            argument < self.values@.len(),
        ensures
            r == match self.spec_numeric_constant(argument) {
                Some((constant, _)) => constant != 0,
                None => false,
            },
    {
        match self.get_numeric_constant(argument) {
            Some(constant) => constant != 0,
            None => false,
        }
    }

    /// Returns the array length the value's type declares, or nothing if the
    /// value is not array-typed.
    pub fn try_get_array_length(&self, value: ValueId) -> (r: Option<u32>)
        requires
            value < self.values@.len(),
        ensures
            r == match self.values@[value as int].spec_type() {
                Type::Array(_, length) => Some(length),
                _ => Option::<u32>::None,
            },
    {
        match self.type_of_value(value) {
            Type::Array(_, length) => Some(length),
            _ => None,
        }
    }

    /// True exactly when the array's type carries a statically known length
    /// and the index resolves to a numeric constant strictly less than it.
    pub fn is_safe_index(&self, index: ValueId, array: ValueId) -> (r: bool)
        requires
            self.wf(),
            index < self.values@.len(),
            array < self.values@.len(),
        ensures
            r == match (self.values@[array as int].spec_type(), self.spec_numeric_constant(
                index,
            )) {
                (Type::Array(_, length), Some((constant, _))) => constant < length as u128,
                _ => false,
            },
    {
        match (self.type_of_value(array), self.get_numeric_constant(index)) {
            (Type::Array(_, length), Some(constant)) => constant < length as u128,
            _ => false,
        }
    }

    /// Returns the element handles and the array type of the
    /// array-construction instruction the value resolves to a result of, or
    /// nothing for any other value.  The element sequence is structurally
    /// shared, so no deep copy is made.
    pub fn get_array_constant(&self, value: ValueId) -> (r: Option<(im::Vector<usize>, Type)>)
        requires
            self.wf(),
            value < self.values@.len(),
        ensures
            match self.values@[self.resolved(value) as int] {
                Value::Instruction { instruction, .. } => match self.instructions@[
                    instruction as int
                ] {
                    Instruction::MakeArray { elements, typ } => r matches Some((e, t))
                        && elems(e) == elems(elements) && t == typ,
                    _ => r is None,
                },
                _ => r is None,
            },
    {
        let id = self.resolve(value);
        match &self.values[id] {
            Value::Instruction { instruction, .. } => {
                let instruction = *instruction;
                match &self.instructions[instruction] {
                    Instruction::MakeArray { elements, typ } => Some(
                        (ivec_clone(elements), typ.clone()),
                    ),
                    _ => None,
                }
            },
            _ => None,
        }
    }

    /// Overwrites the type recorded for the given value.  Only values with a
    /// mutable type slot can be retyped: an instruction result or a block
    /// parameter takes any type, a numeric constant takes a numeric type, and
    /// retyping an imported entity is a caller error.
    pub fn set_type_of_value(&mut self, value_id: ValueId, target_type: Type)
        requires
            old(self).wf(),
            value_id < old(self).values@.len(),
            match old(self).values@[value_id as int] {
                Value::Instruction { .. } => true,
                Value::Param { .. } => true,
                Value::NumericConstant { .. } => target_type is Numeric,
                _ => false,
            },
        ensures
            final(self).wf(),
            final(self).values@ == old(self).values@.update(
                value_id as int,
                match old(self).values@[value_id as int] {
                    Value::Instruction { instruction, position, .. } => (Value::Instruction {
                        instruction,
                        position,
                        typ: target_type,
                    }),
                    Value::Param { block, position, .. } => (Value::Param {
                        block,
                        position,
                        typ: target_type,
                    }),
                    Value::NumericConstant { constant, .. } => (Value::NumericConstant {
                        constant,
                        typ: target_type.spec_unwrap_numeric(),
                    }),
                    v => v,
                },
            ),
            unchanged_but_values(*old(self), *final(self)),
            final(self).replacements == old(self).replacements,
    {
        let new_record = match &self.values[value_id] {
            Value::Instruction { instruction, position, .. } => Value::Instruction {
                instruction: *instruction,
                position: *position,
                typ: target_type,
            },
            Value::Param { block, position, .. } => Value::Param {
                block: *block,
                position: *position,
                typ: target_type,
            },
            Value::NumericConstant { constant, .. } => Value::NumericConstant {
                constant: *constant,
                typ: target_type.unwrap_numeric(),
            },
            _ => vstd::pervasive::unreached(),
        };
        self.values[value_id] = new_record;
    }

    /// The tightest known upper bound, in bits, on the given value.
    ///
    /// A numeric constant needs exactly its own width; the result of a cast
    /// still carries its input's width, since a cast may narrow the nominal
    /// type while the representation keeps the wider source range; any other
    /// value is bounded by its declared type's width.
    pub open spec fn spec_max_num_bits(self, value: ValueId) -> nat {
        match self.values@[value as int] {
            Value::Instruction { instruction, .. } => match self.instructions@[instruction as int] {
                Instruction::Cast(original, _) => self.values@[
                    original as int
                ].spec_type().spec_bit_size() as nat,
                _ => self.values@[value as int].spec_type().spec_bit_size() as nat,
            },
            Value::NumericConstant { constant, .. } => num_bits_of(constant),
            _ => self.values@[value as int].spec_type().spec_bit_size() as nat,
        }
    }

    /// Returns the maximum possible number of bits that `value` can take.
    /// The types this bound is read from must be numeric.
    pub fn get_value_max_num_bits(&self, value: ValueId) -> (r: u32)
        requires
            self.wf(),
            value < self.values@.len(),
            match self.values@[value as int] {
                Value::Instruction { instruction, .. } => match self.instructions@[
                    instruction as int
                ] {
                    Instruction::Cast(original, _) => self.values@[
                        original as int
                    ].spec_type() is Numeric,
                    _ => self.values@[value as int].spec_type() is Numeric,
                },
                Value::NumericConstant { .. } => true,
                _ => self.values@[value as int].spec_type() is Numeric,
            },
        ensures
            r as nat == self.spec_max_num_bits(value),
    {
        match &self.values[value] {
            Value::Instruction { instruction, .. } => {
                let instruction = *instruction;
                if let Instruction::Cast(original, _) = &self.instructions[instruction] {
                    self.type_of_value(*original).bit_size()
                } else {
                    self.type_of_value(value).bit_size()
                }
            },
            Value::NumericConstant { constant, .. } => crate::types::constant_num_bits(*constant),
            _ => self.type_of_value(value).bit_size(),
        }
    }

    /// The result types an instruction gets, given the optional control type
    /// variables: the policy's fixed type, the type of the named operand,
    /// nothing, or — for the *unknown* policy — exactly the supplied types.
    pub open spec fn spec_result_types(
        self,
        instruction: Instruction,
        ctrl_typevars: Option<Vec<Type>>,
    ) -> Seq<Type> {
        match instruction.spec_result_type() {
            InstructionResultType::Known(typ) => seq![typ],
            InstructionResultType::Operand(value) => seq![self.values@[value as int].spec_type()],
            InstructionResultType::NoResults => Seq::empty(),
            InstructionResultType::Unknown => ctrl_typevars.unwrap()@,
        }
    }

    /// Returns the result types of the given instruction.  An instruction
    /// with the *unknown* result-type policy must be given control type
    /// variables; invoking it without them is a caller error.
    fn instruction_result_types(
        &self,
        instruction_id: InstructionId,
        ctrl_typevars: Option<Vec<Type>>,
    ) -> (r: Vec<Type>)
        requires
            self.wf(),
            instruction_id < self.instructions@.len(),
            self.instructions@[instruction_id as int].spec_result_type() is Unknown
                ==> ctrl_typevars is Some,
        ensures
            r@ == self.spec_result_types(
                self.instructions@[instruction_id as int],
                ctrl_typevars,
            ),
    {
        let ghost ins = self.instructions@[instruction_id as int];
        match self.instructions[instruction_id].result_type() {
            InstructionResultType::Known(typ) => {
                let mut r = Vec::new();
                r.push(typ);
                proof {
                    assert(r@ =~= self.spec_result_types(ins, ctrl_typevars));
                }
                r
            },
            InstructionResultType::Operand(value) => {
                let mut r = Vec::new();
                r.push(self.type_of_value(value));
                proof {
                    assert(r@ =~= self.spec_result_types(ins, ctrl_typevars));
                }
                r
            },
            InstructionResultType::NoResults => Vec::new(),
            InstructionResultType::Unknown => ctrl_typevars.unwrap(),
        }
    }

    /// Recomputes and overwrites the full result list of the instruction:
    /// each result type becomes one freshly allocated instruction-result
    /// value, positions numbered from zero in declaration order.
    pub fn make_instruction_results(
        &mut self,
        instruction_id: InstructionId,
        ctrl_typevars: Option<Vec<Type>>,
    )
        requires
            old(self).wf(),
            instruction_id < old(self).instructions@.len(),
            old(self).instructions@[instruction_id as int].spec_result_type() is Unknown
                ==> ctrl_typevars is Some,
        ensures
            final(self).wf(),
            results_recomputed(
                *old(self),
                *final(self),
                instruction_id,
                old(self).spec_result_types(
                    old(self).instructions@[instruction_id as int],
                    ctrl_typevars,
                ),
            ),
    {
        let ghost pre = *self;
        let ghost types = self.spec_result_types(
            self.instructions@[instruction_id as int],
            ctrl_typevars,
        );
        let result_types = self.instruction_result_types(instruction_id, ctrl_typevars);
        let n = result_types.len();
        let ghost base = self.values@.len();
        let mut results: Vec<ValueId> = Vec::new();
        let mut position: usize = 0;
        while position < n
            invariant
                self.wf(),
                n == types.len(),
                result_types@ == types,
                position <= n,
                instruction_id < self.instructions@.len(),
                self.values@.len() == pre.values@.len() + position,
                base == pre.values@.len(),
                forall|v: int| 0 <= v < pre.values@.len() ==> self.values@[v] == pre.values@[v],
                forall|k: int| 0 <= k < position ==> self.values@[base + k] == (
                Value::Instruction { instruction: instruction_id, position: k as usize, typ: types[k] }),
                self.replacements@.len() == pre.replacements@.len() + position,
                forall|v: int| 0 <= v < pre.replacements@.len() ==> self.replacements@[v]
                    == pre.replacements@[v],
                forall|k: int| pre.replacements@.len() <= k < self.replacements@.len()
                    ==> self.replacements@[k] is None,
                results@.len() == position,
                forall|k: int| 0 <= k < position ==> results@[k] == base + k,
                unchanged_but_values(pre, *self),
                self.instructions == pre.instructions,
                self.results == pre.results,
                self.locations == pre.locations,
            decreases n - position,
        {
            let typ = result_types[position].clone();
            let id = self.make_value(
                Value::Instruction { instruction: instruction_id, position, typ },
            );
            results.push(id);
            position += 1;
        }
        self.results[instruction_id] = results;
    }

    /// Inserts a new instruction into the graph and computes its results.
    /// This does not add the instruction to any block.
    pub fn make_instruction(
        &mut self,
        instruction_data: Instruction,
        ctrl_typevars: Option<Vec<Type>>,
    ) -> (id: InstructionId)
        requires
            old(self).wf(),
            instruction_data.valid_in(old(self).num_values()),
            instruction_data.spec_result_type() is Unknown ==> ctrl_typevars is Some,
        ensures
            final(self).wf(),
            instruction_created(*old(self), *final(self), instruction_data, ctrl_typevars, id),
    {
        let ghost pre = *self;
        let ghost ctrl = ctrl_typevars;
        let id = self.instructions.len();
        self.instructions.push(instruction_data);
        self.results.push(Vec::new());
        self.locations.push(0);
        let ghost mid = *self;
        self.make_instruction_results(id, ctrl_typevars);
        proof {
            assert(mid.spec_result_types(instruction_data, ctrl) =~= pre.spec_result_types(
                instruction_data,
                ctrl,
            ));
        }
        id
    }

    /// Returns the result values attached to the given instruction.
    pub fn instruction_results(&self, instruction_id: InstructionId) -> (r: &Vec<ValueId>)
        requires
            instruction_id < self.results@.len(),
        ensures
            r@ == self.results@[instruction_id as int]@,
    {
        &self.results[instruction_id]
    }

    /// Replaces one result of an instruction with a freshly allocated value
    /// of the same type at the same position.  The old value's handle becomes
    /// dangling from the graph's perspective: code still holding it must be
    /// revisited by the caller.  The handle must currently be listed among
    /// the instruction's results.
    pub fn replace_result(&mut self, instruction_id: InstructionId, prev_value_id: ValueId) -> (r:
        ValueId)
        requires
            old(self).wf(),
            instruction_id < old(self).instructions@.len(),
            prev_value_id < old(self).values@.len(),
            exists|p: int|
                0 <= p < old(self).results@[instruction_id as int]@.len() && old(self).results@[
                    instruction_id as int
                ]@[p] == prev_value_id,
        ensures
            final(self).wf(),
            r == old(self).values@.len(),
            final(self).replacements@ == old(self).replacements@.push(None),
            exists|p: int|
                {
                    &&& 0 <= p < old(self).results@[instruction_id as int]@.len()
                    &&& old(self).results@[instruction_id as int]@[p] == prev_value_id
                    &&& forall|q: int| 0 <= q < p ==> old(self).results@[instruction_id as int]@[q]
                        != prev_value_id
                    &&& final(self).results@[instruction_id as int]@ == old(self).results@[
                        instruction_id as int
                    ]@.update(p, r)
                    &&& final(self).values@ == old(self).values@.push(
                        (Value::Instruction {
                            instruction: instruction_id,
                            position: p as usize,
                            typ: old(self).values@[prev_value_id as int].spec_type(),
                        }),
                    )
                },
            final(self).results@.len() == old(self).results@.len(),
            forall|j: int| 0 <= j < old(self).results@.len() && j != instruction_id
                ==> final(self).results@[j] == old(self).results@[j],
            final(self).instructions == old(self).instructions,
            final(self).locations == old(self).locations,
            final(self).blocks == old(self).blocks,
            final(self).constants == old(self).constants,
            final(self).functions == old(self).functions,
            final(self).intrinsics == old(self).intrinsics,
            final(self).foreign_functions == old(self).foreign_functions,
            final(self).call_stack_data == old(self).call_stack_data,
    {
        let typ = self.type_of_value(prev_value_id);
        let res_len = self.results[instruction_id].len();
        let mut position: usize = 0;
        while position < res_len && self.results[instruction_id][position] != prev_value_id
            invariant
                self.wf(),
                *self == *old(self),
                instruction_id < self.results@.len(),
                res_len == self.results@[instruction_id as int]@.len(),
                position <= res_len,
                forall|q: int| 0 <= q < position ==> self.results@[instruction_id as int]@[q]
                    != prev_value_id,
                exists|p: int|
                    position <= p < res_len && self.results@[instruction_id as int]@[p]
                        == prev_value_id,
            decreases res_len - position,
        {
            position += 1;
        }
        let value_id = self.make_value(
            Value::Instruction { instruction: instruction_id, position, typ },
        );
        self.results[instruction_id][position] = value_id;
        value_id
    }

    /// Creates a new basic block with no parameters.  The block is
    /// unreachable until another block is made to jump to it.
    pub fn make_block(&mut self) -> (id: BasicBlockId)
        requires
            old(self).wf(),
        ensures
            final(self).wf(),
            id == old(self).blocks@.len(),
            final(self).blocks@.len() == old(self).blocks@.len() + 1,
            forall|b: int| 0 <= b < old(self).blocks@.len() ==> final(self).blocks@[b] == old(self).blocks@[b],
            final(self).blocks@[id as int].parameters@.len() == 0,
            final(self).blocks@[id as int].instructions@.len() == 0,
            final(self).blocks@[id as int].terminator is None,
            unchanged_but_blocks(*old(self), *final(self)),
    {
        let id = self.blocks.len();
        self.blocks.push(BasicBlock::new());
        id
    }
}

/// The result list of `instruction_id` has been replaced in full: one freshly
/// allocated instruction-result value per type in `types`, positions numbered
/// from zero, appended to the value arena in order.  Nothing else changed.
pub open spec fn results_recomputed(
    pre: DataFlowGraph,
    post: DataFlowGraph,
    instruction_id: InstructionId,
    types: Seq<Type>,
) -> bool {
    let base = pre.values@.len() as int;
    &&& post.values@.len() == pre.values@.len() + types.len()
    &&& forall|v: int| 0 <= v < pre.values@.len() ==> post.values@[v] == pre.values@[v]
    &&& forall|k: int| 0 <= k < types.len() ==> post.values@[base + k] == (Value::Instruction {
        instruction: instruction_id,
        position: k as usize,
        typ: types[k],
    })
    &&& post.replacements@.len() == pre.replacements@.len() + types.len()
    &&& forall|v: int| 0 <= v < pre.replacements@.len() ==> post.replacements@[v]
        == pre.replacements@[v]
    &&& forall|k: int| pre.replacements@.len() <= k < post.replacements@.len()
        ==> post.replacements@[k] is None
    &&& post.results@.len() == pre.results@.len()
    &&& forall|j: int| 0 <= j < pre.results@.len() && j != instruction_id ==> post.results@[j]
        == pre.results@[j]
    &&& post.results@[instruction_id as int]@.len() == types.len()
    &&& forall|k: int| 0 <= k < types.len() ==> post.results@[instruction_id as int]@[k] == base + k
    &&& post.instructions == pre.instructions
    &&& post.locations == pre.locations
    &&& post.blocks == pre.blocks
    &&& post.constants == pre.constants
    &&& post.functions == pre.functions
    &&& post.intrinsics == pre.intrinsics
    &&& post.foreign_functions == pre.foreign_functions
    &&& post.call_stack_data == pre.call_stack_data
}

/// A fresh instruction `id` has been allocated, with `instruction` as its
/// record, the root call stack as its provenance, and a full result list as
/// by [`results_recomputed`] for the types the policy dictates.
pub open spec fn instruction_created(
    pre: DataFlowGraph,
    post: DataFlowGraph,
    instruction: Instruction,
    ctrl_typevars: Option<Vec<Type>>,
    id: InstructionId,
) -> bool {
    let types = pre.spec_result_types(instruction, ctrl_typevars);
    let base = pre.values@.len() as int;
    &&& id == pre.instructions@.len()
    &&& post.instructions@ == pre.instructions@.push(instruction)
    &&& post.locations@ == pre.locations@.push(0)
    &&& post.results@.len() == pre.results@.len() + 1
    &&& forall|j: int| 0 <= j < pre.results@.len() ==> post.results@[j] == pre.results@[j]
    &&& post.results@[id as int]@.len() == types.len()
    &&& forall|k: int| 0 <= k < types.len() ==> post.results@[id as int]@[k] == base + k
    &&& post.values@.len() == pre.values@.len() + types.len()
    &&& forall|v: int| 0 <= v < pre.values@.len() ==> post.values@[v] == pre.values@[v]
    &&& forall|k: int| 0 <= k < types.len() ==> post.values@[base + k] == (Value::Instruction {
        instruction: id,
        position: k as usize,
        typ: types[k],
    })
    &&& post.replacements@.len() == pre.replacements@.len() + types.len()
    &&& forall|v: int| 0 <= v < pre.replacements@.len() ==> post.replacements@[v]
        == pre.replacements@[v]
    &&& forall|k: int| pre.replacements@.len() <= k < post.replacements@.len()
        ==> post.replacements@[k] is None
    &&& post.blocks == pre.blocks
    &&& post.constants == pre.constants
    &&& post.functions == pre.functions
    &&& post.intrinsics == pre.intrinsics
    &&& post.foreign_functions == pre.foreign_functions
    &&& post.call_stack_data == pre.call_stack_data
}

impl DataFlowGraph {
    /// Whether the given value is a (recursively) constant value, decided
    /// with bounded recursion depth.  A parameter is not constant; the result
    /// of an array construction is constant exactly when every element is;
    /// any other instruction result is not constant; everything else —
    /// constants and imported entities — is.  `None` means the depth did not
    /// suffice to decide, which only happens when substitutions have made an
    /// array reach itself.
    pub open spec fn constancy(self, value: ValueId, fuel: nat) -> Option<bool>
        decreases fuel, 0int, 0int,
    {
        let r = self.resolved(value);
        if r >= self.values@.len() {
            None
        } else {
            match self.values@[r as int] {
                Value::Param { .. } => Some(false),
                Value::Instruction { instruction, .. } => {
                    if instruction >= self.instructions@.len() {
                        None
                    } else {
                        match self.instructions@[instruction as int] {
                            Instruction::MakeArray { elements, .. } => {
                                if fuel == 0 {
                                    None
                                } else {
                                    self.elements_constancy(elems(elements), 0, (fuel - 1) as nat)
                                }
                            },
                            _ => Some(false),
                        }
                    }
                },
                _ => Some(true),
            }
        }
    }

    /// Whether every element of `es` from index `i` on is constant, with the
    /// given recursion-depth bound per element.
    pub open spec fn elements_constancy(self, es: Seq<ValueId>, i: int, fuel: nat) -> Option<bool>
        decreases fuel, 1int, es.len() - i,
    {
        if i < 0 || i >= es.len() {
            Some(true)
        } else {
            match self.constancy(es[i], fuel) {
                None => None,
                Some(false) => Some(false),
                Some(true) => self.elements_constancy(es, i + 1, fuel),
            }
        }
    }

    /// True if the given value is a (recursively) constant value.  The
    /// recursion must be decidable within as many steps as there are values,
    /// which holds of every graph whose arrays do not reach themselves
    /// through substitution.
    pub fn is_constant(&self, argument: ValueId) -> (r: bool)
        requires
            self.wf(),
            argument < self.values@.len(),
            self.constancy(argument, self.values@.len()) is Some,
        ensures
            Some(r) == self.constancy(argument, self.values@.len()),
    {
        let fuel = self.values.len();
        self.is_constant_rec(argument, fuel)
    }

    /// Decides constancy with an explicit recursion-depth bound.
    fn is_constant_rec(&self, value: ValueId, fuel: usize) -> (r: bool)
        requires
            self.wf(),
            value < self.values@.len(),
            self.constancy(value, fuel as nat) is Some,
        ensures
            Some(r) == self.constancy(value, fuel as nat),
        decreases fuel,
    {
        let resolved = self.resolve(value);
        match &self.values[resolved] {
            Value::Param { .. } => false,
            Value::Instruction { instruction, .. } => {
                let instruction = *instruction;
                match &self.instructions[instruction] {
                    Instruction::MakeArray { elements, .. } => {
                        let ghost es = elems(*elements);
                        let ghost f1 = (fuel - 1) as nat;
                        proof {
                            if fuel == 0 {
                                assert(self.constancy(value, fuel as nat) is None);
                            }
                            assert(self.constancy(value, fuel as nat) == self.elements_constancy(
                                es,
                                0,
                                f1,
                            ));
                            assert(self.instructions@[instruction as int].valid_in(
                                self.num_values(),
                            ));
                        }
                        let n = ivec_len(elements);
                        let mut j: usize = 0;
                        while j < n
                            invariant
                                self.wf(),
                                value < self.values@.len(),
                                self.constancy(value, fuel as nat) is Some,
                                self.constancy(value, fuel as nat) == self.elements_constancy(
                                    es,
                                    0,
                                    f1,
                                ),
                                self.elements_constancy(es, 0, f1) == self.elements_constancy(
                                    es,
                                    j as int,
                                    f1,
                                ),
                                fuel >= 1,
                                f1 == (fuel - 1) as nat,
                                instruction < self.instructions@.len(),
                                self.instructions@[instruction as int] matches
                                    Instruction::MakeArray { elements: e, .. } && elems(e) == es,
                                elems(*elements) == es,
                                n == es.len(),
                                j <= n,
                            decreases n - j,
                        {
                            proof {
                                assert(self.instructions@[instruction as int].valid_in(
                                    self.num_values(),
                                ));
                                assert(es[j as int] < self.values@.len());
                                assert(self.elements_constancy(es, j as int, f1) is Some);
                                assert(self.constancy(es[j as int], f1) is Some);
                            }
                            let element_opt = ivec_get(elements, j);
                            let element = element_opt.unwrap();
                            if !self.is_constant_rec(element, fuel - 1) {
                                proof {
                                    assert(self.elements_constancy(es, j as int, f1) == Some(
                                        false,
                                    ));
                                }
                                return false;
                            }
                            j += 1;
                        }
                        proof {
                            assert(self.elements_constancy(es, n as int, f1) == Some(true));
                        }
                        true
                    },
                    _ => false,
                }
            },
            _ => true,
        }
    }

    /// Returns the parameters of the given block.
    pub fn block_parameters(&self, block: BasicBlockId) -> (r: &Vec<ValueId>)
        requires
            block < self.blocks@.len(),
        ensures
            r@ == self.blocks@[block as int].parameters@,
    {
        self.blocks[block].parameters()
    }

    /// Appends a new parameter value to the given block, at the position
    /// after all its current parameters, and returns its handle.
    pub fn add_block_parameter(&mut self, block_id: BasicBlockId, typ: Type) -> (r: ValueId)
        requires
            old(self).wf(),
            block_id < old(self).blocks@.len(),
        ensures
            final(self).wf(),
            r == old(self).values@.len(),
            parameter_added(*old(self), *final(self), block_id, typ, r),
    {
        let position = self.blocks[block_id].parameters().len();
        let parameter = self.make_value(Value::Param { block: block_id, position, typ });
        self.blocks[block_id].add_parameter(parameter);
        parameter
    }

    /// Creates a new block whose parameter count and per-position parameter
    /// types mirror the given block's, with fresh parameter values.  Neither
    /// instructions nor the terminator are copied.
    pub fn make_block_with_parameters_from_block(&mut self, block: BasicBlockId) -> (r:
        BasicBlockId)
        requires
            old(self).wf(),
            block < old(self).blocks@.len(),
        ensures
            final(self).wf(),
            r == old(self).blocks@.len(),
            final(self).blocks@.len() == old(self).blocks@.len() + 1,
            forall|b: int| 0 <= b < old(self).blocks@.len() ==> final(self).blocks@[b] == old(self).blocks@[b],
            final(self).blocks@[r as int].instructions@.len() == 0,
            final(self).blocks@[r as int].terminator is None,
            final(self).blocks@[r as int].parameters@.len() == old(self).blocks@[
                block as int
            ].parameters@.len(),
            forall|k: int| #![auto] 0 <= k < old(self).blocks@[block as int].parameters@.len()
                ==> final(self).blocks@[r as int].parameters@[k] == old(self).values@.len() + k,
            final(self).values@.len() == old(self).values@.len() + old(self).blocks@[
                block as int
            ].parameters@.len(),
            forall|v: int| 0 <= v < old(self).values@.len() ==> final(self).values@[v] == old(self).values@[v],
            forall|k: int| #![auto] 0 <= k < old(self).blocks@[block as int].parameters@.len()
                ==> final(self).values@[old(self).values@.len() + k] == (Value::Param {
                block: r,
                position: k as usize,
                typ: old(self).values@[old(self).blocks@[block as int].parameters@[k] as int].spec_type(),
            }),
            final(self).replacements@.len() == old(self).replacements@.len() + old(self).blocks@[block as int].parameters@.len(),
            forall|v: int| 0 <= v < old(self).replacements@.len() ==> final(self).replacements@[v]
                == old(self).replacements@[v],
            forall|k: int| old(self).replacements@.len() <= k < final(self).replacements@.len()
                ==> final(self).replacements@[k] is None,
            unchanged_but_values_and_blocks(*old(self), *final(self)),
    {
        let ghost pre = *self;
        let new_block = self.make_block();
        let param_count = self.blocks[block].parameters().len();
        let ghost base = self.values@.len();
        let mut parameters: Vec<ValueId> = Vec::new();
        let mut position: usize = 0;
        while position < param_count
            invariant
                self.wf(),
                pre.wf(),
                block < pre.blocks@.len(),
                new_block == pre.blocks@.len(),
                self.blocks@.len() == pre.blocks@.len() + 1,
                forall|b: int| 0 <= b < pre.blocks@.len() ==> self.blocks@[b] == pre.blocks@[b],
                self.blocks@[new_block as int].parameters@.len() == 0,
                self.blocks@[new_block as int].instructions@.len() == 0,
                self.blocks@[new_block as int].terminator is None,
                param_count == pre.blocks@[block as int].parameters@.len(),
                position <= param_count,
                base == pre.values@.len(),
                self.values@.len() == pre.values@.len() + position,
                forall|v: int| 0 <= v < pre.values@.len() ==> self.values@[v] == pre.values@[v],
                forall|k: int| #![auto] 0 <= k < position ==> self.values@[base + k] == (
                Value::Param {
                    block: new_block,
                    position: k as usize,
                    typ: pre.values@[pre.blocks@[block as int].parameters@[k] as int].spec_type(),
                }),
                self.replacements@.len() == pre.replacements@.len() + position,
                forall|v: int| 0 <= v < pre.replacements@.len() ==> self.replacements@[v]
                    == pre.replacements@[v],
                forall|k: int| pre.replacements@.len() <= k < self.replacements@.len()
                    ==> self.replacements@[k] is None,
                parameters@.len() == position,
                forall|k: int| 0 <= k < position ==> parameters@[k] == base + k,
                unchanged_but_values_and_blocks(pre, *self),
            decreases param_count - position,
        {
            proof {
                assert(self.blocks@[block as int] == pre.blocks@[block as int]);
                assert(pre.blocks@[block as int].parameters@[position as int]
                    < pre.values@.len());
            }
            let param = self.blocks[block].parameters[position];
            let typ = self.type_of_value(param);
            proof {
                assert(self.values@[param as int] == pre.values@[param as int]);
            }
            let id = self.make_value(Value::Param { block: new_block, position, typ });
            parameters.push(id);
            position += 1;
        }
        self.blocks[new_block].set_parameters(parameters);
        new_block
    }

    /// Sets the terminator of the given block, replacing any previous one.
    pub fn set_block_terminator(&mut self, block: BasicBlockId, terminator: TerminatorInstruction)
        requires
            old(self).wf(),
            block < old(self).blocks@.len(),
        ensures
            final(self).wf(),
            blocks_unchanged_except(*old(self), *final(self), block, block),
            final(self).blocks@[block as int].terminator == Some(terminator),
            final(self).blocks@[block as int].parameters == old(self).blocks@[
                block as int
            ].parameters,
            final(self).blocks@[block as int].instructions == old(self).blocks@[
                block as int
            ].instructions,
            unchanged_but_blocks(*old(self), *final(self)),
    {
        self.blocks[block].set_terminator(Some(terminator));
    }

    /// Moves all of `source`'s instructions and its terminator into
    /// `destination`, appending after `destination`'s instructions and
    /// replacing its terminator.  `source` is left as a valid but emptied
    /// shell: no instructions and no terminator.  Block-parameter references
    /// inside the moved instructions are not rewritten.
    pub fn inline_block(&mut self, source: BasicBlockId, destination: BasicBlockId)
        requires
            old(self).wf(),
            source < old(self).blocks@.len(),
            destination < old(self).blocks@.len(),
            source != destination,
        ensures
            final(self).wf(),
            blocks_unchanged_except(*old(self), *final(self), source, destination),
            final(self).blocks@[source as int].instructions@.len() == 0,
            final(self).blocks@[source as int].terminator is None,
            final(self).blocks@[source as int].parameters == old(self).blocks@[
                source as int
            ].parameters,
            final(self).blocks@[destination as int].instructions@ == old(self).blocks@[
                destination as int
            ].instructions@ + old(self).blocks@[source as int].instructions@,
            final(self).blocks@[destination as int].terminator == old(self).blocks@[
                source as int
            ].terminator,
            final(self).blocks@[destination as int].parameters == old(self).blocks@[
                destination as int
            ].parameters,
            unchanged_but_blocks(*old(self), *final(self)),
    {
        let mut instructions = self.blocks[source].take_instructions();
        let terminator = self.blocks[source].take_terminator();
        self.blocks[destination].instructions.append(&mut instructions);
        self.blocks[destination].set_terminator(terminator);
    }

    /// Returns the call-stack handle recorded for the instruction; the root
    /// handle if none has been recorded.
    pub fn get_instruction_call_stack_id(&self, instruction: InstructionId) -> (r: CallStackId)
        requires
            instruction < self.locations@.len(),
        ensures
            r == self.locations@[instruction as int],
    {
        self.locations[instruction]
    }

    /// Returns the materialized call stack of the instruction.
    pub fn get_instruction_call_stack(&self, instruction: InstructionId) -> (r: CallStack)
        requires
            self.wf(),
            instruction < self.locations@.len(),
        ensures
            r@ == self.call_stack_data.spec_call_stack(self.locations@[instruction as int]),
    {
        let call_stack = self.get_instruction_call_stack_id(instruction);
        self.call_stack_data.get_call_stack(call_stack)
    }

    /// Materializes the call stack behind a handle.
    pub fn get_call_stack(&self, call_stack: CallStackId) -> (r: CallStack)
        requires
            self.wf(),
            self.call_stack_data.is_valid_id(call_stack),
        ensures
            r@ == self.call_stack_data.spec_call_stack(call_stack),
    {
        self.call_stack_data.get_call_stack(call_stack)
    }

    /// Pushes a source location on top of the instruction's existing call
    /// stack (the root stack if none was recorded) and records the extended
    /// stack for it.  Inlining uses this to accumulate each call site above
    /// the stacks of the instructions of the inlined body.
    pub fn add_location_to_instruction(&mut self, instruction: InstructionId, location: Location)
        requires
            old(self).wf(),
            instruction < old(self).locations@.len(),
            old(self).call_stack_data.nodes@.len() < usize::MAX,
        ensures
            final(self).wf(),
            final(self).locations@ == old(self).locations@.update(
                instruction as int,
                (old(self).call_stack_data.nodes@.len() + 1) as usize,
            ),
            final(self).call_stack_data.spec_call_stack(
                final(self).locations@[instruction as int],
            ) == old(self).call_stack_data.spec_call_stack(
                old(self).locations@[instruction as int],
            ).push(location),
            forall|other: CallStackId| #[trigger] old(self).call_stack_data.is_valid_id(other)
                ==> final(self).call_stack_data.spec_call_stack(other) == old(self).call_stack_data.spec_call_stack(other),
            final(self).instructions == old(self).instructions,
            final(self).results == old(self).results,
            final(self).values == old(self).values,
            final(self).replacements == old(self).replacements,
            final(self).constants == old(self).constants,
            final(self).functions == old(self).functions,
            final(self).intrinsics == old(self).intrinsics,
            final(self).foreign_functions == old(self).foreign_functions,
            final(self).blocks == old(self).blocks,
    {
        let call_stack = self.locations[instruction];
        let extended = self.call_stack_data.add_child(call_stack, location);
        self.locations[instruction] = extended;
    }

    /// The call stack of a value: its defining instruction's stack if it
    /// resolves to an instruction result, the empty stack otherwise.
    pub open spec fn spec_value_call_stack_id(self, value: ValueId) -> CallStackId {
        match self.values@[self.resolved(value) as int] {
            Value::Instruction { instruction, .. } => self.locations@[instruction as int],
            _ => 0,
        }
    }

    /// Returns the call-stack handle of the value's defining instruction, or
    /// the root handle if the value is not an instruction result.
    pub fn get_value_call_stack_id(&self, value: ValueId) -> (r: CallStackId)
        requires
            self.wf(),
            value < self.values@.len(),
        ensures
            r == self.spec_value_call_stack_id(value),
            self.call_stack_data.is_valid_id(r),
    {
        let id = self.resolve(value);
        match &self.values[id] {
            Value::Instruction { instruction, .. } => {
                proof {
                    assert(self.call_stack_data.is_valid_id(self.locations@[*instruction as int]));
                }
                self.get_instruction_call_stack_id(*instruction)
            },
            _ => 0,
        }
    }

    /// Returns the materialized call stack of the value's defining
    /// instruction, or the empty stack if the value is not an instruction
    /// result.
    pub fn get_value_call_stack(&self, value: ValueId) -> (r: CallStack)
        requires
            self.wf(),
            value < self.values@.len(),
        ensures
            r@ == self.call_stack_data.spec_call_stack(self.spec_value_call_stack_id(value)),
    {
        let id = self.get_value_call_stack_id(value);
        self.call_stack_data.get_call_stack(id)
    }
}

/// One instruction has been allocated as by [`instruction_created`], then
/// appended to `block` and given `call_stack` as its provenance.
pub open spec fn one_instruction_inserted(
    pre: DataFlowGraph,
    post: DataFlowGraph,
    instruction: Instruction,
    ctrl_typevars: Option<Vec<Type>>,
    block: BasicBlockId,
    call_stack: CallStackId,
    id: InstructionId,
) -> bool {
    let types = pre.spec_result_types(instruction, ctrl_typevars);
    let base = pre.values@.len() as int;
    &&& id == pre.instructions@.len()
    &&& post.instructions@ == pre.instructions@.push(instruction)
    &&& post.locations@ == pre.locations@.push(call_stack)
    &&& post.results@.len() == pre.results@.len() + 1
    &&& forall|j: int| 0 <= j < pre.results@.len() ==> post.results@[j] == pre.results@[j]
    &&& post.results@[id as int]@.len() == types.len()
    &&& forall|k: int| 0 <= k < types.len() ==> post.results@[id as int]@[k] == base + k
    &&& post.values@.len() == pre.values@.len() + types.len()
    &&& forall|v: int| 0 <= v < pre.values@.len() ==> post.values@[v] == pre.values@[v]
    &&& forall|k: int| 0 <= k < types.len() ==> post.values@[base + k] == (Value::Instruction {
        instruction: id,
        position: k as usize,
        typ: types[k],
    })
    &&& post.replacements@.len() == pre.replacements@.len() + types.len()
    &&& forall|v: int| 0 <= v < pre.replacements@.len() ==> post.replacements@[v]
        == pre.replacements@[v]
    &&& forall|k: int| pre.replacements@.len() <= k < post.replacements@.len()
        ==> post.replacements@[k] is None
    &&& blocks_unchanged_except(pre, post, block, block)
    &&& post.blocks@[block as int].instructions@ == pre.blocks@[block as int].instructions@.push(
        id,
    )
    &&& post.blocks@[block as int].parameters == pre.blocks@[block as int].parameters
    &&& post.blocks@[block as int].terminator == pre.blocks@[block as int].terminator
    &&& post.constants == pre.constants
    &&& post.functions == pre.functions
    &&& post.intrinsics == pre.intrinsics
    &&& post.foreign_functions == pre.foreign_functions
    &&& post.call_stack_data == pre.call_stack_data
}

/// A run of effect-only instructions has been allocated and appended to
/// `block` in order, every one with `call_stack` as its provenance and with
/// no results, leaving the value arena untouched.
pub open spec fn constrain_sequence_inserted(
    pre: DataFlowGraph,
    post: DataFlowGraph,
    list: Seq<Instruction>,
    block: BasicBlockId,
    call_stack: CallStackId,
) -> bool {
    let base = pre.instructions@.len() as int;
    &&& post.instructions@ == pre.instructions@ + list
    &&& post.locations@.len() == pre.locations@.len() + list.len()
    &&& forall|j: int| 0 <= j < pre.locations@.len() ==> post.locations@[j] == pre.locations@[j]
    &&& forall|k: int| base <= k < post.locations@.len() ==> post.locations@[k] == call_stack
    &&& post.results@.len() == pre.results@.len() + list.len()
    &&& forall|j: int| 0 <= j < pre.results@.len() ==> post.results@[j] == pre.results@[j]
    &&& forall|k: int| base <= k < post.results@.len() ==> post.results@[k]@.len() == 0
    &&& post.values@ == pre.values@
    &&& post.replacements@ == pre.replacements@
    &&& blocks_unchanged_except(pre, post, block, block)
    &&& post.blocks@[block as int].instructions@.len() == pre.blocks@[
        block as int
    ].instructions@.len() + list.len()
    &&& forall|j: int| 0 <= j < pre.blocks@[block as int].instructions@.len() ==> post.blocks@[
        block as int
    ].instructions@[j] == pre.blocks@[block as int].instructions@[j]
    &&& forall|n: int| pre.blocks@[block as int].instructions@.len() <= n < post.blocks@[
        block as int
    ].instructions@.len() ==> #[trigger] post.blocks@[block as int].instructions@[n] == base + (n
        - pre.blocks@[block as int].instructions@.len())
    &&& post.blocks@[block as int].parameters == pre.blocks@[block as int].parameters
    &&& post.blocks@[block as int].terminator == pre.blocks@[block as int].terminator
    &&& post.constants == pre.constants
    &&& post.functions == pre.functions
    &&& post.intrinsics == pre.intrinsics
    &&& post.foreign_functions == pre.foreign_functions
    &&& post.call_stack_data == pre.call_stack_data
}

/// A fresh parameter value `r` has been appended to `block`: its position is
/// the block's parameter count before the call, and nothing else changed.
pub open spec fn parameter_added(
    pre: DataFlowGraph,
    post: DataFlowGraph,
    block: BasicBlockId,
    typ: Type,
    r: ValueId,
) -> bool {
    &&& r == pre.values@.len()
    &&& post.values@ == pre.values@.push(
        (Value::Param {
            block,
            position: pre.blocks@[block as int].parameters@.len() as usize,
            typ,
        }),
    )
    &&& post.replacements@ == pre.replacements@.push(None)
    &&& blocks_unchanged_except(pre, post, block, block)
    &&& post.blocks@[block as int].parameters@ == pre.blocks@[block as int].parameters@.push(r)
    &&& post.blocks@[block as int].instructions == pre.blocks@[block as int].instructions
    &&& post.blocks@[block as int].terminator == pre.blocks@[block as int].terminator
    &&& unchanged_but_values_and_blocks(pre, post)
}

/// Two parameters added to an empty block stand at positions 0 and 1, in call
/// order, with the types they were added with.
pub proof fn lemma_two_parameters_in_order(
    g0: DataFlowGraph,
    g1: DataFlowGraph,
    g2: DataFlowGraph,
    block: BasicBlockId,
    t1: Type,
    t2: Type,
    p1: ValueId,
    p2: ValueId,
)
    requires
        block < g0.blocks@.len(),
        g0.blocks@[block as int].parameters@.len() == 0,
        parameter_added(g0, g1, block, t1, p1),
        parameter_added(g1, g2, block, t2, p2),
    ensures
        g2.blocks@[block as int].parameters@ =~= seq![p1, p2],
        g2.values@[p1 as int] == (Value::Param { block, position: 0, typ: t1 }),
        g2.values@[p2 as int] == (Value::Param { block, position: 1, typ: t2 }),
        g2.values@[p1 as int].spec_type() == t1,
        g2.values@[p2 as int].spec_type() == t2,
{
}

/// For an instruction whose result-type policy is *unknown*, the freshly
/// created results match the supplied control type variables: one result per
/// type, in order, each declared with exactly that type.
pub proof fn lemma_unknown_results_take_supplied_types(
    pre: DataFlowGraph,
    post: DataFlowGraph,
    instruction: Instruction,
    types: Vec<Type>,
    id: InstructionId,
)
    requires
        instruction.spec_result_type() is Unknown,
        instruction_created(pre, post, instruction, Some(types), id),
    ensures
        post.results@[id as int]@.len() == types@.len(),
        forall|k: int| #![auto] 0 <= k < types@.len() ==> post.values@[post.results@[
            id as int
        ]@[k] as int].spec_type() == types@[k],
{
}

/// Everything but the value arena, its substitution table and the block arena
/// is unchanged between the two states.
pub open spec fn unchanged_but_values_and_blocks(pre: DataFlowGraph, post: DataFlowGraph) -> bool {
    &&& post.instructions == pre.instructions
    &&& post.results == pre.results
    &&& post.locations == pre.locations
    &&& post.constants == pre.constants
    &&& post.functions == pre.functions
    &&& post.intrinsics == pre.intrinsics
    &&& post.foreign_functions == pre.foreign_functions
    &&& post.call_stack_data == pre.call_stack_data
}

/// Everything but the value arena and its substitution table is unchanged
/// between the two states.
pub open spec fn unchanged_but_values(pre: DataFlowGraph, post: DataFlowGraph) -> bool {
    &&& post.instructions == pre.instructions
    &&& post.results == pre.results
    &&& post.locations == pre.locations
    &&& post.constants == pre.constants
    &&& post.functions == pre.functions
    &&& post.intrinsics == pre.intrinsics
    &&& post.foreign_functions == pre.foreign_functions
    &&& post.blocks == pre.blocks
    &&& post.call_stack_data == pre.call_stack_data
}

/// The two states agree on every block except possibly those named.
pub open spec fn blocks_unchanged_except(
    pre: DataFlowGraph,
    post: DataFlowGraph,
    a: BasicBlockId,
    b: BasicBlockId,
) -> bool {
    &&& post.blocks@.len() == pre.blocks@.len()
    &&& forall|c: int| 0 <= c < pre.blocks@.len() && c != a && c != b ==> post.blocks@[c]
        == pre.blocks@[c]
}

/// Everything but the block arena is unchanged between the two states.
pub open spec fn unchanged_but_blocks(pre: DataFlowGraph, post: DataFlowGraph) -> bool {
    &&& post.instructions == pre.instructions
    &&& post.results == pre.results
    &&& post.locations == pre.locations
    &&& post.values == pre.values
    &&& post.replacements == pre.replacements
    &&& post.constants == pre.constants
    &&& post.functions == pre.functions
    &&& post.intrinsics == pre.intrinsics
    &&& post.foreign_functions == pre.foreign_functions
    &&& post.call_stack_data == pre.call_stack_data
}

impl DataFlowGraph {
    /// Allocates `instruction`, appends it to `block`, and records
    /// `call_stack` as its provenance.
    fn insert_one(
        &mut self,
        instruction: Instruction,
        block: BasicBlockId,
        ctrl_typevars: Option<Vec<Type>>,
        call_stack: CallStackId,
    ) -> (r: InsertInstructionResult)
        requires
            old(self).wf(),
            block < old(self).blocks@.len(),
            old(self).call_stack_data.is_valid_id(call_stack),
            instruction.valid_in(old(self).num_values()),
            instruction.spec_result_type() is Unknown ==> ctrl_typevars is Some,
        ensures
            final(self).wf(),
            one_instruction_inserted(
                *old(self),
                *final(self),
                instruction,
                ctrl_typevars,
                block,
                call_stack,
                old(self).instructions@.len() as InstructionId,
            ),
            r matches InsertInstructionResult::Results(id, results) && id == old(self).instructions@.len() && results@ == final(self).results@[id as int]@,
    {
        let ghost pre = *self;
        let id = self.make_instruction(instruction, ctrl_typevars);
        self.blocks[block].insert_instruction(id);
        self.locations[id] = call_stack;
        proof {
            assert(self.locations@ =~= pre.locations@.push(call_stack));
        }
        let results = self.instruction_results(id).clone();
        proof {
            assert(results@ =~= self.results@[id as int]@);
        }
        InsertInstructionResult::Results(id, results)
    }

    /// The primary entry point for adding code to a block: applies the
    /// outcome the pass-supplied simplification produced for a candidate
    /// instruction.
    ///
    /// When the candidate was simplified to existing values or removed,
    /// nothing is inserted and the graph is unchanged.  When one instruction
    /// is to be inserted — the candidate itself, or its replacement — it is
    /// allocated, appended to `block`, and given `call_stack` as provenance.
    /// A replacement of several instructions must consist of effect-only
    /// `Constrain` instructions, which are appended in order; the outcome
    /// then carries the id and (empty) result list of the last one.
    pub fn insert_instruction_and_results(
        &mut self,
        instruction: Instruction,
        block: BasicBlockId,
        ctrl_typevars: Option<Vec<Type>>,
        call_stack: CallStackId,
        simplification: SimplifyResult,
    ) -> (r: InsertInstructionResult)
        requires
            old(self).wf(),
            block < old(self).blocks@.len(),
            old(self).call_stack_data.is_valid_id(call_stack),
            match simplification {
                SimplifyResult::Unchanged => instruction.valid_in(old(self).num_values())
                    && (instruction.spec_result_type() is Unknown ==> ctrl_typevars is Some),
                SimplifyResult::SimplifiedToInstruction(s) => s.valid_in(old(self).num_values())
                    && (s.spec_result_type() is Unknown ==> ctrl_typevars is Some),
                SimplifyResult::SimplifiedToInstructionMultiple(list) => {
                    &&& list@.len() >= 1
                    &&& forall|k: int| 0 <= k < list@.len() ==> (#[trigger] list@[k]).valid_in(
                        old(self).num_values(),
                    )
                    &&& list@.len() > 1 ==> forall|k: int| 0 <= k < list@.len()
                        ==> (#[trigger] list@[k]) is Constrain
                    &&& list@.len() == 1 ==> (list@[0].spec_result_type() is Unknown
                        ==> ctrl_typevars is Some)
                },
                _ => true,
            },
        ensures
            final(self).wf(),
            match simplification {
                SimplifyResult::SimplifiedTo(value) => r
                    == InsertInstructionResult::SimplifiedTo(value) && *final(self) == *old(self),
                SimplifyResult::SimplifiedToMultiple(values) => r matches
                    InsertInstructionResult::SimplifiedToMultiple(vs) && vs == values && *final(self) == *old(self),
                SimplifyResult::Remove => r == InsertInstructionResult::InstructionRemoved
                    && *final(self) == *old(self),
                SimplifyResult::Unchanged => {
                    &&& one_instruction_inserted(
                        *old(self),
                        *final(self),
                        instruction,
                        ctrl_typevars,
                        block,
                        call_stack,
                        old(self).instructions@.len() as InstructionId,
                    )
                    &&& r matches InsertInstructionResult::Results(id, results) && id == old(self).instructions@.len() && results@ == final(self).results@[id as int]@
                },
                SimplifyResult::SimplifiedToInstruction(s) => {
                    &&& one_instruction_inserted(
                        *old(self),
                        *final(self),
                        s,
                        ctrl_typevars,
                        block,
                        call_stack,
                        old(self).instructions@.len() as InstructionId,
                    )
                    &&& r matches InsertInstructionResult::Results(id, results) && id == old(self).instructions@.len() && results@ == final(self).results@[id as int]@
                },
                SimplifyResult::SimplifiedToInstructionMultiple(list) => {
                    &&& list@.len() == 1 ==> one_instruction_inserted(
                        *old(self),
                        *final(self),
                        list@[0],
                        ctrl_typevars,
                        block,
                        call_stack,
                        old(self).instructions@.len() as InstructionId,
                    )
                    &&& list@.len() > 1 ==> constrain_sequence_inserted(
                        *old(self),
                        *final(self),
                        list@,
                        block,
                        call_stack,
                    )
                    &&& r matches InsertInstructionResult::Results(id, results) && id == old(self).instructions@.len() + list@.len() - 1 && results@ == final(self).results@[
                        id as int
                    ]@
                },
            },
    {
        match simplification {
            SimplifyResult::SimplifiedTo(value) => InsertInstructionResult::SimplifiedTo(value),
            SimplifyResult::SimplifiedToMultiple(values) => (
            InsertInstructionResult::SimplifiedToMultiple(values)),
            SimplifyResult::Remove => InsertInstructionResult::InstructionRemoved,
            SimplifyResult::Unchanged => self.insert_one(
                instruction,
                block,
                ctrl_typevars,
                call_stack,
            ),
            SimplifyResult::SimplifiedToInstruction(simplified) => self.insert_one(
                simplified,
                block,
                ctrl_typevars,
                call_stack,
            ),
            SimplifyResult::SimplifiedToInstructionMultiple(mut list) => {
                let ghost full = list@;
                let ghost pre = *self;
                if list.len() == 1 {
                    let single = list.remove(0);
                    self.insert_one(single, block, ctrl_typevars, call_stack)
                } else {
                    let ghost base = self.instructions@.len() as int;
                    let mut last_id: InstructionId = 0;
                    while list.len() > 0
                        invariant
                            self.wf(),
                            pre.wf(),
                            full.len() >= 2,
                            block < pre.blocks@.len(),
                            pre.call_stack_data.is_valid_id(call_stack),
                            base == pre.instructions@.len(),
                            list@.len() <= full.len(),
                            list@ == full.subrange(
                                full.len() - list@.len(),
                                full.len() as int,
                            ),
                            forall|k: int| 0 <= k < full.len() ==> (#[trigger] full[k]) is
                                Constrain,
                            forall|k: int| 0 <= k < full.len() ==> (#[trigger] full[k]).valid_in(
                                pre.num_values(),
                            ),
                            constrain_sequence_inserted(
                                pre,
                                *self,
                                full.subrange(0, full.len() - list@.len()),
                                block,
                                call_stack,
                            ),
                            full.len() - list@.len() > 0 ==> last_id == base + (full.len()
                                - list@.len()) - 1,
                        decreases list@.len(),
                    {
                        let ghost done = full.len() - list@.len();
                        let ghost s0 = *self;
                        let next = list.remove(0);
                        proof {
                            assert(list@ =~= full.subrange(done + 1, full.len() as int));
                            assert(next == full[done]);
                            assert(next is Constrain);
                        }
                        let id = self.make_instruction(next, None);
                        let ghost s1 = *self;
                        self.blocks[block].insert_instruction(id);
                        self.locations[id] = call_stack;
                        last_id = id;
                        proof {
                            assert(full.subrange(0, done + 1) =~= full.subrange(0, done).push(
                                full[done],
                            ));
                            assert(s0.spec_result_types(next, Option::<Vec<Type>>::None)
                                =~= Seq::<Type>::empty());
                            assert(self.instructions@ =~= pre.instructions@ + full.subrange(
                                0,
                                done + 1,
                            ));
                            assert(s1.values@ =~= s0.values@);
                            assert(self.values@ =~= pre.values@);
                            assert(s1.replacements@ =~= s0.replacements@);
                            assert(self.replacements@ =~= pre.replacements@);
                            assert(self.locations@ =~= s0.locations@.push(call_stack));
                            assert(self.blocks@[block as int].instructions@ =~= s0.blocks@[
                                block as int
                            ].instructions@.push(id));
                        }
                    }
                    proof {
                        assert(full.subrange(0, full.len() as int) =~= full);
                    }
                    let results: Vec<ValueId> = Vec::new();
                    InsertInstructionResult::Results(last_id, results)
                }
            },
        }
    }
}

/// Canonicalization law: two canonical constant values of a well-formed
/// graph are the same handle exactly when their (constant, type) pairs are
/// the same.
pub proof fn lemma_constant_canonical(
    g: DataFlowGraph,
    v1: u128,
    t1: NumericType,
    v2: u128,
    t2: NumericType,
)
    requires
        g.wf(),
        g.spec_constant(v1, t1) is Some,
        g.spec_constant(v2, t2) is Some,
    ensures
        (g.spec_constant(v1, t1) == g.spec_constant(v2, t2)) <==> (v1 == v2 && t1 == t2),
{
    let i = choose|i: int|
        0 <= i < g.constants@.len() && (#[trigger] g.constants@[i]).0 == v1 && g.constants@[i].1
            == t1;
    let j = choose|j: int|
        0 <= j < g.constants@.len() && (#[trigger] g.constants@[j]).0 == v2 && g.constants@[j].1
            == t2;
    if v1 == v2 && t1 == t2 {
        assert(i == j);
    } else {
        assert(i != j);
        assert(g.constants@[i].2 != g.constants@[j].2);
    }
}

/// The outcome of [`DataFlowGraph::insert_instruction_and_results`]: either
/// the id and result list of the (last) inserted instruction, or the existing
/// value or values the candidate was simplified to, or nothing when the
/// candidate was removed.
#[derive(Debug)]
pub enum InsertInstructionResult {
    /// The standard case: the inserted instruction and its results.
    Results(InstructionId, Vec<ValueId>),
    SimplifiedTo(ValueId),
    SimplifiedToMultiple(Vec<ValueId>),
    InstructionRemoved,
}

impl InsertInstructionResult {
    /// The result values the outcome carries, in order.
    pub open spec fn spec_values(self) -> Seq<ValueId> {
        match self {
            InsertInstructionResult::Results(_, results) => results@,
            InsertInstructionResult::SimplifiedTo(value) => seq![value],
            InsertInstructionResult::SimplifiedToMultiple(values) => values@,
            InsertInstructionResult::InstructionRemoved => Seq::empty(),
        }
    }

    /// Retrieves the first result, which the caller expects to be the only
    /// one.  A removed outcome has no results to retrieve, and an
    /// inserted-instruction outcome must carry exactly one.
    pub fn first(&self) -> (r: ValueId)
        requires
            match self {
                InsertInstructionResult::Results(_, results) => results@.len() == 1,
                InsertInstructionResult::SimplifiedTo(_) => true,
                InsertInstructionResult::SimplifiedToMultiple(values) => values@.len() > 0,
                InsertInstructionResult::InstructionRemoved => false,
            },
        ensures
            r == self.spec_values()[0],
    {
        match self {
            InsertInstructionResult::SimplifiedTo(value) => *value,
            InsertInstructionResult::SimplifiedToMultiple(values) => values[0],
            InsertInstructionResult::Results(_, results) => results[0],
            InsertInstructionResult::InstructionRemoved => vstd::pervasive::unreached(),
        }
    }

    /// Returns all the results the outcome carries.
    pub fn results(self) -> (r: Vec<ValueId>)
        ensures
            r@ == self.spec_values(),
    {
        match self {
            InsertInstructionResult::Results(_, results) => results,
            InsertInstructionResult::SimplifiedTo(value) => {
                let mut r = Vec::new();
                r.push(value);
                proof {
                    assert(r@ =~= seq![value]);
                }
                r
            },
            InsertInstructionResult::SimplifiedToMultiple(values) => values,
            InsertInstructionResult::InstructionRemoved => Vec::new(),
        }
    }

    /// Returns the number of result values the outcome carries.
    pub fn len(&self) -> (r: usize)
        ensures
            r == self.spec_values().len(),
    {
        match self {
            InsertInstructionResult::SimplifiedTo(_) => 1,
            InsertInstructionResult::SimplifiedToMultiple(values) => values.len(),
            InsertInstructionResult::Results(_, results) => results.len(),
            InsertInstructionResult::InstructionRemoved => 0,
        }
    }

    /// Returns the result value at the given position.
    pub fn index(&self, index: usize) -> (r: ValueId)
        requires
            index < self.spec_values().len(),
        ensures
            r == self.spec_values()[index as int],
    {
        match self {
            InsertInstructionResult::Results(_, results) => results[index],
            InsertInstructionResult::SimplifiedTo(value) => *value,
            InsertInstructionResult::SimplifiedToMultiple(values) => values[index],
            InsertInstructionResult::InstructionRemoved => vstd::pervasive::unreached(),
        }
    }
}

impl Default for DataFlowGraph {
    /// An empty graph, equal to [`DataFlowGraph::new`].
    fn default() -> (r: DataFlowGraph)
        ensures
            r.wf(),
            r.values@.len() == 0,
            r.instructions@.len() == 0,
            r.blocks@.len() == 0,
    {
        DataFlowGraph::new()
    }
}

} // verus!
