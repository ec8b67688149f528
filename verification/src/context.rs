//! The evaluation environment: a mapping from identifier to a stack of
//! values (the top is the visible binding, which makes shadowing work)
//! and a mapping from identifier to function.
//!
//! Entries are only ever appended, and the latest entry for a name
//! shadows the earlier ones; the mathematical image is a pair of maps.
//! Callers never observe a context change: the evaluator extends private
//! copies only.

use vstd::prelude::*;

use crate::expression::bytes_eq;
use crate::function::{BodyModel, Builtin, Function, FunctionModel, SignatureModel};
use crate::num::{E_BITS, PI_BITS, TAU_BITS};

verus! {

/// The scoped environment of one evaluation.
#[derive(PartialEq, Debug)]
pub struct Context {
    values: Vec<(Vec<u8>, Vec<u64>)>,
    functions: Vec<(Vec<u8>, Function)>,
}

/// The mathematical image of a context.
pub struct ContextModel {
    pub values: Map<Seq<u8>, Seq<u64>>,
    pub functions: Map<Seq<u8>, FunctionModel>,
}

/// The value entries folded into a map; a later entry for a name wins.
pub open spec fn values_map(s: Seq<(Vec<u8>, Vec<u64>)>) -> Map<Seq<u8>, Seq<u64>>
    decreases s.len(),
{
    if s.len() == 0 {
        Map::empty()
    } else {
        values_map(s.drop_last()).insert(s.last().0@, s.last().1@)
    }
}

/// The function entries folded into a map; a later entry for a name wins.
pub open spec fn functions_map(s: Seq<(Vec<u8>, Function)>) -> Map<Seq<u8>, FunctionModel>
    decreases s.len(),
{
    if s.len() == 0 {
        Map::empty()
    } else {
        functions_map(s.drop_last()).insert(s.last().0@, s.last().1@)
    }
}

impl View for Context {
    type V = ContextModel;

    closed spec fn view(&self) -> ContextModel {
        ContextModel { values: values_map(self.values@), functions: functions_map(self.functions@) }
    }
}

/// The visible binding of a name: the top of its stack.
pub open spec fn spec_value(m: ContextModel, name: Seq<u8>) -> Option<u64> {
    if m.values.contains_key(name) && m.values[name].len() > 0 {
        Some(m.values[name].last())
    } else {
        None
    }
}

/// The stack a push leaves for a name: the old stack extended, or a new
/// one-value stack.
pub open spec fn pushed_stack(m: Map<Seq<u8>, Seq<u64>>, name: Seq<u8>, value: u64) -> Seq<u64> {
    if m.contains_key(name) {
        m[name].push(value)
    } else {
        seq![value]
    }
}

/// The stack a pop leaves for a name that has one: shortened by its top,
/// or left empty.
pub open spec fn popped_stack(m: Map<Seq<u8>, Seq<u64>>, name: Seq<u8>) -> Seq<u64> {
    if m[name].len() > 0 {
        m[name].drop_last()
    } else {
        m[name]
    }
}

/// A copy of a value stack.
fn copy_stack(v: &Vec<u64>) -> (r: Vec<u64>)
    ensures
        r@ == v@,
{
    let mut r: Vec<u64> = Vec::new();
    let mut k: usize = 0;
    while k < v.len()
        invariant
            k <= v.len(),
            r@ == v@.subrange(0, k as int),
        decreases v.len() - k,
    {
        r.push(v[k]);
        k = k + 1;
        proof {
            assert(r@ =~= v@.subrange(0, k as int));
        }
    }
    proof {
        assert(v@.subrange(0, v@.len() as int) =~= v@);
    }
    r
}

impl Context {
    /// The value entries, latest shadowing entry last.
    pub fn values(&self) -> (r: &Vec<(Vec<u8>, Vec<u64>)>)
        ensures
            values_map(r@) == self@.values,
    {
        &self.values
    }

    /// The function entries, latest shadowing entry last.
    pub fn functions(&self) -> (r: &Vec<(Vec<u8>, Function)>)
        ensures
            functions_map(r@) == self@.functions,
    {
        &self.functions
    }

    /// The function a name denotes, if any.
    pub fn function(&self, identifier: &Vec<u8>) -> (r: Option<&Function>)
        ensures
            match r {
                Some(f) => self@.functions.contains_key(identifier@) && f@
                    == self@.functions[identifier@],
                None => !self@.functions.contains_key(identifier@),
            },
    {
        let ghost s = self.functions@;
        let ghost name = identifier@;
        let mut k: usize = self.functions.len();
        proof {
            assert(s.take(s.len() as int) =~= s);
        }
        while k > 0
            invariant
                k <= s.len(),
                s == self.functions@,
                name == identifier@,
                functions_map(s).contains_key(name) == functions_map(s.take(k as int)).contains_key(
                    name,
                ),
                functions_map(s).contains_key(name) ==> functions_map(s)[name] == functions_map(
                    s.take(k as int),
                )[name],
            decreases k,
        {
            proof {
                assert(s.take(k as int).drop_last() =~= s.take(k as int - 1));
                assert(s.take(k as int).last() == s[k as int - 1]);
            }
            if bytes_eq(&self.functions[k - 1].0, identifier) {
                return Some(&self.functions[k - 1].1);
            }
            k = k - 1;
        }
        proof {
            assert(s.take(0) =~= Seq::<(Vec<u8>, Function)>::empty());
        }
        None
    }

    /// Bind a function under the name its signature declares, replacing
    /// any function that name denoted.
    pub fn set_function(&mut self, function: Function)
        ensures
            final(self)@.functions == old(self)@.functions.insert(
                function@.signature.identifier,
                function@,
            ),
            final(self)@.values == old(self)@.values,
    {
        let name = crate::expression::copy_bytes(function.signature().identifier());
        self.functions.push((name, function));
        proof {
            assert(self.functions@.drop_last() =~= old(self).functions@);
        }
    }

    /// The visible value of a name: the top of its stack, if the name is
    /// bound and its stack is not empty.
    pub fn value(&self, identifier: &Vec<u8>) -> (r: Option<u64>)
        ensures
            r == spec_value(self@, identifier@),
    {
        let ghost s = self.values@;
        let ghost name = identifier@;
        let mut k: usize = self.values.len();
        proof {
            assert(s.take(s.len() as int) =~= s);
        }
        while k > 0
            invariant
                k <= s.len(),
                s == self.values@,
                name == identifier@,
                values_map(s).contains_key(name) == values_map(s.take(k as int)).contains_key(name),
                values_map(s).contains_key(name) ==> values_map(s)[name] == values_map(
                    s.take(k as int),
                )[name],
            decreases k,
        {
            proof {
                assert(s.take(k as int).drop_last() =~= s.take(k as int - 1));
                assert(s.take(k as int).last() == s[k as int - 1]);
            }
            if bytes_eq(&self.values[k - 1].0, identifier) {
                let stack = &self.values[k - 1].1;
                if stack.len() > 0 {
                    return Some(stack[stack.len() - 1]);
                } else {
                    return None;
                }
            }
            k = k - 1;
        }
        proof {
            assert(s.take(0) =~= Seq::<(Vec<u8>, Vec<u64>)>::empty());
        }
        None
    }

    /// Push a value onto a name's stack, shadowing its earlier binding.
    pub fn push_value(&mut self, identifier: Vec<u8>, value: u64)
        ensures
            final(self)@.values == old(self)@.values.insert(
                identifier@,
                pushed_stack(old(self)@.values, identifier@, value),
            ),
            final(self)@.functions == old(self)@.functions,
    {
        let mut stack: Vec<u64> = match self.find_stack(&identifier) {
            Some(stack) => copy_stack(stack),
            None => Vec::new(),
        };
        stack.push(value);
        self.values.push((identifier, stack));
        proof {
            assert(self.values@.drop_last() =~= old(self).values@);
        }
    }

    /// Pop the top of a name's stack; a name without an entry, or with an
    /// empty stack, stays as it is.
    pub fn pop_value(&mut self, identifier: Vec<u8>)
        ensures
            old(self)@.values.contains_key(identifier@) ==> final(self)@.values == old(
                self,
            )@.values.insert(identifier@, popped_stack(old(self)@.values, identifier@)),
            !old(self)@.values.contains_key(identifier@) ==> final(self)@.values == old(
                self,
            )@.values,
            final(self)@.functions == old(self)@.functions,
    {
        let shortened: Vec<u64> = match self.find_stack(&identifier) {
            Some(stack) => {
                let mut copy = copy_stack(stack);
                if copy.len() > 0 {
                    let _ = copy.pop();
                }
                proof {
                    assert(copy@ == popped_stack(old(self)@.values, identifier@));
                }
                copy
            },
            None => {
                return ;
            },
        };
        self.values.push((identifier, shortened));
        proof {
            assert(self.values@.drop_last() =~= old(self).values@);
        }
    }

    /// The stack a name denotes, if the name has an entry.
    fn find_stack(&self, identifier: &Vec<u8>) -> (r: Option<&Vec<u64>>)
        ensures
            match r {
                Some(stack) => self@.values.contains_key(identifier@) && stack@
                    == self@.values[identifier@],
                None => !self@.values.contains_key(identifier@),
            },
    {
        let ghost s = self.values@;
        let ghost name = identifier@;
        let mut k: usize = self.values.len();
        proof {
            assert(s.take(s.len() as int) =~= s);
        }
        while k > 0
            invariant
                k <= s.len(),
                s == self.values@,
                name == identifier@,
                values_map(s).contains_key(name) == values_map(s.take(k as int)).contains_key(name),
                values_map(s).contains_key(name) ==> values_map(s)[name] == values_map(
                    s.take(k as int),
                )[name],
            decreases k,
        {
            proof {
                assert(s.take(k as int).drop_last() =~= s.take(k as int - 1));
                assert(s.take(k as int).last() == s[k as int - 1]);
            }
            if bytes_eq(&self.values[k - 1].0, identifier) {
                return Some(&self.values[k - 1].1);
            }
            k = k - 1;
        }
        proof {
            assert(s.take(0) =~= Seq::<(Vec<u8>, Vec<u64>)>::empty());
        }
        None
    }

    /// A context with the same image: fresh copies of every entry.
    pub fn duplicate(&self) -> (r: Context)
        ensures
            r@ == self@,
    {
        let mut values: Vec<(Vec<u8>, Vec<u64>)> = Vec::new();
        let mut k: usize = 0;
        while k < self.values.len()
            invariant
                k <= self.values@.len(),
                values@.len() == k,
                forall|j: int|
                    0 <= j < k ==> values@[j].0@ == self.values@[j].0@ && values@[j].1@
                        == self.values@[j].1@,
            decreases self.values@.len() - k,
        {
            let entry = &self.values[k];
            values.push((crate::expression::copy_bytes(&entry.0), copy_stack(&entry.1)));
            k = k + 1;
        }
        let mut functions: Vec<(Vec<u8>, Function)> = Vec::new();
        let mut j: usize = 0;
        while j < self.functions.len()
            invariant
                j <= self.functions@.len(),
                functions@.len() == j,
                forall|i: int|
                    0 <= i < j ==> functions@[i].0@ == self.functions@[i].0@ && functions@[i].1@
                        == self.functions@[i].1@,
            decreases self.functions@.len() - j,
        {
            let entry = &self.functions[j];
            functions.push((crate::expression::copy_bytes(&entry.0), entry.1.duplicate()));
            j = j + 1;
        }
        proof {
            lemma_values_map_congruence(values@, self.values@);
            lemma_functions_map_congruence(functions@, self.functions@);
        }
        Context { values, functions }
    }
}

/// Entrywise-equal value entries fold to the same map.
proof fn lemma_values_map_congruence(a: Seq<(Vec<u8>, Vec<u64>)>, b: Seq<(Vec<u8>, Vec<u64>)>)
    requires
        a.len() == b.len(),
        forall|j: int| 0 <= j < a.len() ==> a[j].0@ == b[j].0@ && a[j].1@ == b[j].1@,
    ensures
        values_map(a) == values_map(b),
    decreases a.len(),
{
    if a.len() > 0 {
        lemma_values_map_congruence(a.drop_last(), b.drop_last());
        assert(values_map(a) =~= values_map(b));
    } else {
        assert(values_map(a) =~= values_map(b));
    }
}

/// Entrywise-equal function entries fold to the same map.
proof fn lemma_functions_map_congruence(a: Seq<(Vec<u8>, Function)>, b: Seq<(Vec<u8>, Function)>)
    requires
        a.len() == b.len(),
        forall|j: int| 0 <= j < a.len() ==> a[j].0@ == b[j].0@ && a[j].1@ == b[j].1@,
    ensures
        functions_map(a) == functions_map(b),
    decreases a.len(),
{
    if a.len() > 0 {
        lemma_functions_map_congruence(a.drop_last(), b.drop_last());
        assert(functions_map(a) =~= functions_map(b));
    } else {
        assert(functions_map(a) =~= functions_map(b));
    }
}

/// The name `pi`.
pub open spec fn pi_name() -> Seq<u8> {
    seq![112u8, 105u8]
}

/// The name `tau`.
pub open spec fn tau_name() -> Seq<u8> {
    seq![116u8, 97u8, 117u8]
}

/// The name `e`.
pub open spec fn e_const_name() -> Seq<u8> {
    seq![101u8]
}

/// The name `abs`.
pub open spec fn abs_name() -> Seq<u8> {
    seq![97u8, 98u8, 115u8]
}

/// The name `min`.
pub open spec fn min_name() -> Seq<u8> {
    seq![109u8, 105u8, 110u8]
}

/// The name `max`.
pub open spec fn max_name() -> Seq<u8> {
    seq![109u8, 97u8, 120u8]
}

/// The name `sin`.
pub open spec fn sin_name() -> Seq<u8> {
    seq![115u8, 105u8, 110u8]
}

/// The name `cos`.
pub open spec fn cos_name() -> Seq<u8> {
    seq![99u8, 111u8, 115u8]
}

/// The name `floor`.
pub open spec fn floor_name() -> Seq<u8> {
    seq![102u8, 108u8, 111u8, 111u8, 114u8]
}

/// The name `ceil`.
pub open spec fn ceil_name() -> Seq<u8> {
    seq![99u8, 101u8, 105u8, 108u8]
}

/// The name `mix`.
pub open spec fn mix_name() -> Seq<u8> {
    seq![109u8, 105u8, 120u8]
}

/// The name `sum`.
pub open spec fn sum_name() -> Seq<u8> {
    seq![115u8, 117u8, 109u8]
}

/// The name `prod`.
pub open spec fn prod_name() -> Seq<u8> {
    seq![112u8, 114u8, 111u8, 100u8]
}

/// The name `pi` as a fresh byte vector.
pub fn pi_ident() -> (v: Vec<u8>)
    ensures
        v@ == pi_name(),
{
    let v: Vec<u8> = vec![112u8, 105u8];
    proof {
        assert(v@ =~= pi_name());
    }
    v
}

/// The name `tau` as a fresh byte vector.
pub fn tau_ident() -> (v: Vec<u8>)
    ensures
        v@ == tau_name(),
{
    let v: Vec<u8> = vec![116u8, 97u8, 117u8];
    proof {
        assert(v@ =~= tau_name());
    }
    v
}

/// The name `e` as a fresh byte vector.
pub fn e_const_ident() -> (v: Vec<u8>)
    ensures
        v@ == e_const_name(),
{
    let v: Vec<u8> = vec![101u8];
    proof {
        assert(v@ =~= e_const_name());
    }
    v
}

/// The name `abs` as a fresh byte vector.
pub fn abs_ident() -> (v: Vec<u8>)
    ensures
        v@ == abs_name(),
{
    let v: Vec<u8> = vec![97u8, 98u8, 115u8];
    proof {
        assert(v@ =~= abs_name());
    }
    v
}

/// The name `min` as a fresh byte vector.
pub fn min_ident() -> (v: Vec<u8>)
    ensures
        v@ == min_name(),
{
    let v: Vec<u8> = vec![109u8, 105u8, 110u8];
    proof {
        assert(v@ =~= min_name());
    }
    v
}

/// The name `max` as a fresh byte vector.
pub fn max_ident() -> (v: Vec<u8>)
    ensures
        v@ == max_name(),
{
    let v: Vec<u8> = vec![109u8, 97u8, 120u8];
    proof {
        assert(v@ =~= max_name());
    }
    v
}

/// The name `sin` as a fresh byte vector.
pub fn sin_ident() -> (v: Vec<u8>)
    ensures
        v@ == sin_name(),
{
    let v: Vec<u8> = vec![115u8, 105u8, 110u8];
    proof {
        assert(v@ =~= sin_name());
    }
    v
}

/// The name `cos` as a fresh byte vector.
pub fn cos_ident() -> (v: Vec<u8>)
    ensures
        v@ == cos_name(),
{
    let v: Vec<u8> = vec![99u8, 111u8, 115u8];
    proof {
        assert(v@ =~= cos_name());
    }
    v
}

/// The name `floor` as a fresh byte vector.
pub fn floor_ident() -> (v: Vec<u8>)
    ensures
        v@ == floor_name(),
{
    let v: Vec<u8> = vec![102u8, 108u8, 111u8, 111u8, 114u8];
    proof {
        assert(v@ =~= floor_name());
    }
    v
}

/// The name `ceil` as a fresh byte vector.
pub fn ceil_ident() -> (v: Vec<u8>)
    ensures
        v@ == ceil_name(),
{
    let v: Vec<u8> = vec![99u8, 101u8, 105u8, 108u8];
    proof {
        assert(v@ =~= ceil_name());
    }
    v
}

/// The name `mix` as a fresh byte vector.
pub fn mix_ident() -> (v: Vec<u8>)
    ensures
        v@ == mix_name(),
{
    let v: Vec<u8> = vec![109u8, 105u8, 120u8];
    proof {
        assert(v@ =~= mix_name());
    }
    v
}

/// The name `sum` as a fresh byte vector.
pub fn sum_ident() -> (v: Vec<u8>)
    ensures
        v@ == sum_name(),
{
    let v: Vec<u8> = vec![115u8, 117u8, 109u8];
    proof {
        assert(v@ =~= sum_name());
    }
    v
}

/// The name `prod` as a fresh byte vector.
pub fn prod_ident() -> (v: Vec<u8>)
    ensures
        v@ == prod_name(),
{
    let v: Vec<u8> = vec![112u8, 114u8, 111u8, 100u8];
    proof {
        assert(v@ =~= prod_name());
    }
    v
}

/// The name `output`.
pub open spec fn output_name() -> Seq<u8> {
    seq![111u8, 117u8, 116u8, 112u8, 117u8, 116u8]
}

/// The name `output` as a fresh byte vector.
pub fn output_ident() -> (v: Vec<u8>)
    ensures
        v@ == output_name(),
{
    let v: Vec<u8> = vec![111u8, 117u8, 116u8, 112u8, 117u8, 116u8];
    proof {
        assert(v@ =~= output_name());
    }
    v
}

/// The model of a builtin's table entry: no declared parameters; the
/// native operation handles its own arguments.
pub open spec fn builtin_function(name: Seq<u8>, native: Builtin) -> FunctionModel {
    FunctionModel {
        signature: SignatureModel { identifier: name, parameters: Seq::empty() },
        body: BodyModel::Native(native),
    }
}

/// The root environment: the seed constants and the builtin table. User
/// code may shadow any of them.
pub open spec fn root_context_model() -> ContextModel {
    ContextModel {
        values: Map::empty().insert(pi_name(), seq![PI_BITS]).insert(
            tau_name(),
            seq![TAU_BITS],
        ).insert(e_const_name(), seq![E_BITS]),
        functions: Map::empty()
            .insert(abs_name(), builtin_function(abs_name(), Builtin::Abs))
            .insert(min_name(), builtin_function(min_name(), Builtin::Min))
            .insert(max_name(), builtin_function(max_name(), Builtin::Max))
            .insert(sin_name(), builtin_function(sin_name(), Builtin::Sin))
            .insert(cos_name(), builtin_function(cos_name(), Builtin::Cos))
            .insert(floor_name(), builtin_function(floor_name(), Builtin::Floor))
            .insert(ceil_name(), builtin_function(ceil_name(), Builtin::Ceil))
            .insert(mix_name(), builtin_function(mix_name(), Builtin::Mix))
            .insert(sum_name(), builtin_function(sum_name(), Builtin::Sum))
            .insert(prod_name(), builtin_function(prod_name(), Builtin::Prod)),
    }
}

/// Build the root environment.
fn root_context() -> (c: Context)
    ensures
        c@ == root_context_model(),
{
    let mut c = Context { values: Vec::new(), functions: Vec::new() };
    proof {
        assert(c@.values =~= Map::<Seq<u8>, Seq<u64>>::empty());
        assert(c@.functions =~= Map::<Seq<u8>, FunctionModel>::empty());
    }
    c.push_value(pi_ident(), PI_BITS);
    c.push_value(tau_ident(), TAU_BITS);
    c.push_value(e_const_ident(), E_BITS);
    c.set_function(Function::new(abs_ident(), Builtin::Abs));
    proof {
        assert(c@.functions[abs_name()] == builtin_function(abs_name(), Builtin::Abs));
    }
    c.set_function(Function::new(min_ident(), Builtin::Min));
    proof {
        assert(c@.functions[min_name()] == builtin_function(min_name(), Builtin::Min));
    }
    c.set_function(Function::new(max_ident(), Builtin::Max));
    proof {
        assert(c@.functions[max_name()] == builtin_function(max_name(), Builtin::Max));
    }
    c.set_function(Function::new(sin_ident(), Builtin::Sin));
    proof {
        assert(c@.functions[sin_name()] == builtin_function(sin_name(), Builtin::Sin));
    }
    c.set_function(Function::new(cos_ident(), Builtin::Cos));
    proof {
        assert(c@.functions[cos_name()] == builtin_function(cos_name(), Builtin::Cos));
    }
    c.set_function(Function::new(floor_ident(), Builtin::Floor));
    proof {
        assert(c@.functions[floor_name()] == builtin_function(floor_name(), Builtin::Floor));
    }
    c.set_function(Function::new(ceil_ident(), Builtin::Ceil));
    proof {
        assert(c@.functions[ceil_name()] == builtin_function(ceil_name(), Builtin::Ceil));
    }
    c.set_function(Function::new(mix_ident(), Builtin::Mix));
    proof {
        assert(c@.functions[mix_name()] == builtin_function(mix_name(), Builtin::Mix));
    }
    c.set_function(Function::new(sum_ident(), Builtin::Sum));
    proof {
        assert(c@.functions[sum_name()] == builtin_function(sum_name(), Builtin::Sum));
    }
    c.set_function(Function::new(prod_ident(), Builtin::Prod));
    proof {
        assert(c@.functions[prod_name()] == builtin_function(prod_name(), Builtin::Prod));
    }
    proof {
        assert(c@.values =~= root_context_model().values);
        assert(c@.functions =~= root_context_model().functions);
    }
    c
}

impl Default for Context {
    /// The root environment, seeded with `pi`, `tau` and `e` and the
    /// builtin table.
    fn default() -> (c: Context)
        ensures
            c@ == root_context_model(),
    {
        root_context()
    }
}

} // verus!
