//! A request to the database: the SQL text with `?` placeholders and the
//! values bound to them, in order.

use vstd::prelude::*;
use crate::record::ids_of;

verus! {

/// A value bound to a placeholder.
#[derive(Clone, Debug, PartialEq, Eq)]
pub enum Arg {
    Text(String),
    Int(i64),
}

pub enum ArgModel {
    Text(Seq<char>),
    Int(int),
}

impl View for Arg {
    type V = ArgModel;

    open spec fn view(&self) -> ArgModel {
        match self {
            Arg::Text(s) => ArgModel::Text(s@),
            Arg::Int(n) => ArgModel::Int(*n as int),
        }
    }
}

pub struct StatementModel {
    pub sql: Seq<char>,
    pub args: Seq<ArgModel>,
}

/// One statement, ready to be prepared and run.
#[derive(Clone, Debug, PartialEq, Eq)]
pub struct Statement {
    pub sql: String,
    pub args: Vec<Arg>,
}

impl View for Statement {
    type V = StatementModel;

    open spec fn view(&self) -> StatementModel {
        StatementModel { sql: self.sql@, args: self.args@.map_values(|a: Arg| a@) }
    }
}

/// `n` placeholders, separated by a comma and a space.
pub open spec fn placeholders(n: nat) -> Seq<char>
    decreases n,
{
    if n == 0 {
        Seq::empty()
    } else if n == 1 {
        "?"@
    } else {
        placeholders((n - 1) as nat) + ", ?"@
    }
}

/// The text of `n` placeholders.
pub fn placeholder_list(n: usize) -> (list: String)
    ensures
        list@ == placeholders(n as nat),
{
    let mut list = String::new();
    if n == 0 {
        return list;
    }
    list.append("?");
    assert(list@ =~= "?"@);
    for i in 1..n
        invariant
            list@ == placeholders(i as nat),
    {
        list.append(", ?");
    }
    list
}

/// One text argument for each string of `texts`, in order.
pub fn text_args(texts: &Vec<String>) -> (args: Vec<Arg>)
    ensures
        args@.len() == texts@.len(),
        forall|i: int| 0 <= i < args@.len() ==> (#[trigger] args@[i])@ == ArgModel::Text(texts@[i]@),
{
    let mut args: Vec<Arg> = Vec::new();
    let n: usize = texts.len();
    for i in 0..n
        invariant
            n == texts.len(),
            args@.len() == i,
            forall|j: int| 0 <= j < i ==> (#[trigger] args@[j])@ == ArgModel::Text(texts@[j]@),
    {
        args.push(Arg::Text(texts[i].clone()));
    }
    args
}

/// The names of `names`, separated by a comma and a space.
pub open spec fn joined(names: Seq<Seq<char>>) -> Seq<char>
    decreases names.len(),
{
    if names.len() == 0 {
        Seq::empty()
    } else if names.len() == 1 {
        names[0]
    } else {
        joined(names.drop_last()) + ", "@ + names.last()
    }
}

/// The text of a list of names.
pub fn name_list(names: &Vec<String>) -> (list: String)
    ensures
        list@ == joined(ids_of(names@)),
{
    let mut list = String::new();
    let n: usize = names.len();
    let ghost all = ids_of(names@);
    if n == 0 {
        return list;
    }
    list.append(names[0].as_str());
    assert(list@ =~= all[0]);
    assert(all.take(1).len() == 1 && all.take(1)[0] == all[0]);
    for i in 1..n
        invariant
            n == names.len(),
            all == ids_of(names@),
            list@ == joined(all.take(i as int)),
    {
        assert(all.take(i + 1).drop_last() =~= all.take(i as int));
        assert(all.take(i + 1).last() == names@[i as int]@);
        list.append(", ");
        list.append(names[i].as_str());
    }
    assert(all.take(n as int) =~= all);
    list
}

} // verus!
