//! What the semantic analysis learned of a program: the tables that the
//! lowering consults, keyed by node.

use vstd::prelude::*;
use std::collections::HashMap;
use crate::ids::{FunctionId, NodeId, VariableId};
use crate::types::{Conversion, Signature, Type};

verus! {

broadcast use vstd::std_specs::hash::group_hash_axioms;

/// The results of the semantic analysis. Every table is keyed by the number
/// inside the id it is indexed by; the types of variables are kept in two
/// tables, one for locals and one for globals.
#[derive(Debug)]
pub struct AnalysisCtx {
    /// The type of each expression and declaration node.
    pub types: HashMap<usize, Type>,
    /// The function that each call node calls.
    pub calls: HashMap<usize, FunctionId>,
    /// The variable that each variable use, parameter and declaration node names.
    pub variables: HashMap<usize, VariableId>,
    /// The type of each local variable.
    pub local_var_types: HashMap<usize, Type>,
    /// The type of each global variable.
    pub global_var_types: HashMap<usize, Type>,
    /// The function that each function declaration node declares.
    pub functions: HashMap<usize, FunctionId>,
    /// The signature of each function.
    pub signatures: HashMap<usize, Signature>,
    /// The implicit conversion attached to an expression node, if any.
    pub conversions: HashMap<usize, Conversion>,
}

pub open spec fn lookup<V>(m: Map<usize, V>, k: usize) -> Option<V> {
    if m.contains_key(k) {
        Some(m[k])
    } else {
        None
    }
}

impl AnalysisCtx {
    pub open spec fn node_type(&self, n: NodeId) -> Option<Type> {
        lookup(self.types@, n.0)
    }

    pub open spec fn node_call(&self, n: NodeId) -> Option<FunctionId> {
        lookup(self.calls@, n.0)
    }

    pub open spec fn node_variable(&self, n: NodeId) -> Option<VariableId> {
        lookup(self.variables@, n.0)
    }

    pub open spec fn variable_type(&self, v: VariableId) -> Option<Type> {
        match v {
            VariableId::Local(l) => lookup(self.local_var_types@, l.0),
            VariableId::Global(g) => lookup(self.global_var_types@, g.0),
        }
    }

    pub open spec fn node_function(&self, n: NodeId) -> Option<FunctionId> {
        lookup(self.functions@, n.0)
    }

    pub open spec fn signature(&self, f: FunctionId) -> Option<Signature> {
        lookup(self.signatures@, f.0)
    }

    pub open spec fn node_conversion(&self, n: NodeId) -> Option<Conversion> {
        lookup(self.conversions@, n.0)
    }

    /// Empty tables.
    pub fn new() -> (c: AnalysisCtx)
        ensures
            c.types@.is_empty(),
            c.calls@.is_empty(),
            c.variables@.is_empty(),
            c.local_var_types@.is_empty(),
            c.global_var_types@.is_empty(),
            c.functions@.is_empty(),
            c.signatures@.is_empty(),
            c.conversions@.is_empty(),
    {
        AnalysisCtx {
            types: HashMap::new(),
            calls: HashMap::new(),
            variables: HashMap::new(),
            local_var_types: HashMap::new(),
            global_var_types: HashMap::new(),
            functions: HashMap::new(),
            signatures: HashMap::new(),
            conversions: HashMap::new(),
        }
    }

    pub fn get_type(&self, n: NodeId) -> (r: Option<Type>)
        ensures
            r == self.node_type(n),
    {
        match self.types.get(&n.0) {
            Some(t) => Some(*t),
            None => None,
        }
    }

    pub fn get_call(&self, n: NodeId) -> (r: Option<FunctionId>)
        ensures
            r == self.node_call(n),
    {
        match self.calls.get(&n.0) {
            Some(f) => Some(*f),
            None => None,
        }
    }

    pub fn get_variable(&self, n: NodeId) -> (r: Option<VariableId>)
        ensures
            r == self.node_variable(n),
    {
        match self.variables.get(&n.0) {
            Some(v) => Some(*v),
            None => None,
        }
    }

    pub fn get_variable_type(&self, v: VariableId) -> (r: Option<Type>)
        ensures
            r == self.variable_type(v),
    {
        let found = match v {
            VariableId::Local(l) => self.local_var_types.get(&l.0),
            VariableId::Global(g) => self.global_var_types.get(&g.0),
        };
        match found {
            Some(t) => Some(*t),
            None => None,
        }
    }

    pub fn get_function(&self, n: NodeId) -> (r: Option<FunctionId>)
        ensures
            r == self.node_function(n),
    {
        match self.functions.get(&n.0) {
            Some(f) => Some(*f),
            None => None,
        }
    }

    pub fn get_signature(&self, f: FunctionId) -> (r: Option<Signature>)
        ensures
            r == self.signature(f),
    {
        match self.signatures.get(&f.0) {
            Some(s) => Some(*s),
            None => None,
        }
    }

    pub fn get_conversion(&self, n: NodeId) -> (r: Option<Conversion>)
        ensures
            r == self.node_conversion(n),
    {
        match self.conversions.get(&n.0) {
            Some(c) => Some(*c),
            None => None,
        }
    }
}

} // verus!
