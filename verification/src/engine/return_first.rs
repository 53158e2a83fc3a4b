use crate::error::{Error, ErrorKind};
use crate::schema::db::diff::{first_match, is_first, lemma_first_match_none, lemma_first_match_some};
use crate::stmt::value::{value_eq, values_equal};
use crate::stmt::{Type, Value};
use vstd::prelude::*;

verus! {

/// Identifies a node of the logical plan.
#[derive(Clone, Copy, Debug, PartialEq, Eq, Structural)]
pub struct NodeId(pub usize);

/// Identifies a variable of the execution plan.
#[derive(Clone, Copy, Debug, PartialEq, Eq, Structural)]
pub struct VarId(pub usize);

/// Identifies a compiled key function.
#[derive(Clone, Copy, Debug, PartialEq, Eq, Structural)]
pub struct Func(pub usize);

/// A node of the logical plan.
#[derive(Debug)]
pub struct Node {
    /// The variable holding the node's output, once assigned.
    pub var: Option<VarId>,
    /// How many times the output is used.
    pub num_uses: usize,
    /// The type of the node's output.
    pub ty: Type,
}

/// The logical plan: its nodes by [`NodeId`].
#[derive(Debug)]
pub struct LogicalPlan {
    pub nodes: Vec<Node>,
}

/// The variables of an execution plan, by [`VarId`], with their types.
#[derive(Debug)]
pub struct VarDecls {
    pub types: Vec<Type>,
}

/// Where an action stores its output.
#[derive(Clone, Copy, Debug, PartialEq, Eq, Structural)]
pub struct Output {
    pub var: VarId,
    pub num_uses: usize,
}

/// Selects one updated model by its pre-update primary key (logical plan).
#[derive(Debug)]
pub struct ReturnFirst {
    pub input: NodeId,
    pub selector: Option<NodeId>,
    pub key: Option<Func>,
    pub required: bool,
    pub ty: Type,
}

/// Narrows update-returning rows while execution is still transactional
/// (execution plan).
#[derive(Debug)]
pub struct ExecReturnFirst {
    pub input: VarId,
    pub selector: Option<VarId>,
    pub output: Output,
    pub key: Option<Func>,
    pub required: bool,
}

impl VarDecls {
    /// Declares a new variable of type `ty`.
    pub fn register_var(&mut self, ty: Type) -> (r: VarId)
        requires
            old(self).types@.len() < usize::MAX,
        ensures
            r.0 == old(self).types@.len(),
            final(self).types@ == old(self).types@.push(ty),
    {
        let id = VarId(self.types.len());
        self.types.push(ty);
        id
    }
}

/// The variable of node `id` of `plan`, when it has one.
pub open spec fn node_var(plan: LogicalPlan, id: NodeId) -> Option<VarId> {
    if 0 <= id.0 < plan.nodes@.len() {
        plan.nodes@[id.0 as int].var
    } else {
        None
    }
}

impl ReturnFirst {
    /// Lowers to the execution plan: the input and selector nodes' variables,
    /// and a new output variable of the node's type, which the node records.
    pub fn to_exec(&self, logical_plan: &LogicalPlan, node: &mut Node, var_table: &mut VarDecls) -> (r: ExecReturnFirst)
        requires
            node_var(*logical_plan, self.input) is Some,
            self.selector matches Some(s) ==> node_var(*logical_plan, s) is Some,
            old(var_table).types@.len() < usize::MAX,
        ensures
            final(var_table).types@ == old(var_table).types@.push(old(node).ty),
            r.output.var.0 == old(var_table).types@.len(),
            r.output.num_uses == old(node).num_uses,
            final(node).var == Some(r.output.var),
            final(node).num_uses == old(node).num_uses,
            final(node).ty == old(node).ty,
            Some(r.input) == node_var(*logical_plan, self.input),
            match self.selector {
                Some(s) => r.selector == node_var(*logical_plan, s),
                None => r.selector is None,
            },
            r.key == self.key,
            r.required == self.required,
    {
        let input = logical_plan.nodes[self.input.0].var.unwrap();
        let output = var_table.register_var(node.ty);
        node.var = Some(output);
        let selector = match self.selector {
            Some(s) => Some(logical_plan.nodes[s.0].var.unwrap()),
            None => None,
        };
        ExecReturnFirst {
            input,
            selector,
            output: Output { var: output, num_uses: node.num_uses },
            key: self.key,
            required: self.required,
        }
    }
}

/// The row key at position `i` either failed to evaluate or equals
/// `selected`.
pub open spec fn key_stops(k: Result<Value, Error>, selected: Value) -> bool {
    match k {
        Ok(v) => values_equal(v, selected),
        Err(_) => true,
    }
}

/// Which row the action keeps, as a position, or the position of the key
/// whose evaluation failed.
pub open spec fn spec_chosen_row(
    num_rows: int,
    selector: Option<Option<Value>>,
    row_keys: Seq<Result<Value, Error>>,
) -> Result<Option<int>, int> {
    match selector {
        None => Ok(if num_rows > 0 { Some(0) } else { None }),
        Some(None) => Ok(None),
        Some(Some(sel)) => match first_match(row_keys, |k: Result<Value, Error>| key_stops(k, sel)) {
            None => Ok(None),
            Some(j) => match row_keys[j] {
                Ok(_) => Ok(Some(j)),
                Err(_) => Err(j),
            },
        },
    }
}

/// The position of the first key that failed to evaluate or equals
/// `selected`.
fn find_key(row_keys: &Vec<Result<Value, Error>>, selected: &Value) -> (r: Option<usize>)
    ensures
        match r {
            Some(j) => first_match(row_keys@, |k: Result<Value, Error>| key_stops(k, *selected)) == Some(j as int),
            None => first_match(row_keys@, |k: Result<Value, Error>| key_stops(k, *selected)) is None,
        },
{
    let ghost stop = |k: Result<Value, Error>| key_stops(k, *selected);
    let mut i: usize = 0;
    while i < row_keys.len()
        invariant
            i <= row_keys@.len(),
            stop == (|k: Result<Value, Error>| key_stops(k, *selected)),
            forall|k: int| 0 <= k < i ==> !stop(#[trigger] row_keys@[k]),
        decreases row_keys@.len() - i,
    {
        let hit = match &row_keys[i] {
            Ok(v) => value_eq(v, selected),
            Err(_) => true,
        };
        if hit {
            proof {
                assert(is_first(row_keys@, stop, i as int));
                lemma_first_match_some(row_keys@, stop, i as int);
            }
            return Some(i);
        }
        i = i + 1;
    }
    proof {
        lemma_first_match_none(row_keys@, stop);
    }
    None
}

impl ExecReturnFirst {
    /// Keeps at most one of the updated `rows`: the first row without a
    /// selector; with one, the first row whose key (from `row_keys`, one per
    /// row) equals the first selected value, stopping at a key that failed to
    /// evaluate; none when nothing was selected. Fails when a row is required
    /// and none is kept.
    pub fn select_row(
        &self,
        rows: Vec<Value>,
        selected: Option<Option<Value>>,
        row_keys: Vec<Result<Value, Error>>,
    ) -> (r: Result<Vec<Value>, Error>)
        requires
            row_keys@.len() == rows@.len(),
            (self.selector is Some) == (selected is Some),
        ensures
            match spec_chosen_row(rows@.len() as int, selected, row_keys@) {
                Err(j) => r matches Err(e) && row_keys@[j] == Err::<Value, Error>(e),
                Ok(None) => if self.required {
                    r matches Err(e) && e.spec_kind() matches ErrorKind::RecordNotFound(m)
                        && m@ == "update returned no matching records"@
                } else {
                    r matches Ok(v) && v@.len() == 0
                },
                Ok(Some(j)) => r matches Ok(v) && v@ == seq![rows@[j]],
            },
    {
        let mut rows = rows;
        let mut row_keys = row_keys;
        let chosen: Option<usize> = match selected {
            None => if rows.len() > 0 {
                Some(0)
            } else {
                None
            },
            Some(None) => None,
            Some(Some(sel)) => {
                let found = find_key(&row_keys, &sel);
                match found {
                    Some(j) => {
                        let k = row_keys.swap_remove(j);
                        match k {
                            Ok(_) => Some(j),
                            Err(e) => return Err(e),
                        }
                    },
                    None => None,
                }
            },
        };
        match chosen {
            Some(j) => {
                let row = rows.swap_remove(j);
                let mut out = Vec::new();
                out.push(row);
                Ok(out)
            },
            None => {
                if self.required {
                    Err(Error::record_not_found("update returned no matching records"))
                } else {
                    Ok(Vec::new())
                }
            },
        }
    }
}

} // verus!
