//! Structured config extraction: typed accessors over a generic
//! key/value tree (tables, arrays, text scalars). Absence is
//! represented, not an error; expecting a typed value out of an
//! optional one fails with a located, typed error. Every handle
//! carries a context tracker so chained extraction stays traceable.

use vstd::prelude::*;
use crate::context::Context;
use crate::errors::{TableGetErr, TableGetError};
use crate::text::str_eq;

verus! {

/// A node of the parsed configuration tree.
#[derive(Debug)]
pub enum ConfigValue {
    Text(String),
    List(Vec<ConfigValue>),
    Table(ConfigTable),
}

/// A table node: ordered key/value entries.
#[derive(Debug)]
pub struct ConfigTable {
    pub entries: Vec<(String, ConfigValue)>,
}

/// The value stored for a key: the first entry with that key, if any.
pub open spec fn spec_table_get(entries: Seq<(String, ConfigValue)>, key: Seq<char>) -> Option<
    ConfigValue,
>
    decreases entries.len(),
{
    if entries.len() == 0 {
        None
    } else if entries[0].0@ == key {
        Some(entries[0].1)
    } else {
        spec_table_get(entries.skip(1), key)
    }
}

proof fn lemma_table_get_skip(entries: Seq<(String, ConfigValue)>, key: Seq<char>, i: int)
    requires
        0 <= i <= entries.len(),
        forall|j: int| 0 <= j < i ==> entries[j].0@ != key,
    ensures
        spec_table_get(entries, key) == spec_table_get(entries.skip(i), key),
    decreases i,
{
    if i > 0 {
        assert(entries[0].0@ != key);
        lemma_table_get_skip(entries.skip(1), key, i - 1);
        assert(entries.skip(1).skip(i - 1) =~= entries.skip(i));
    } else {
        assert(entries.skip(0) =~= entries);
    }
}

/// An owned table with the root context it was loaded under.
#[derive(Debug)]
pub struct TableRoot {
    pub table: ConfigTable,
    pub context: Context,
}

/// A borrowed table plus the path that led to it.
#[derive(Debug)]
pub struct TableHandle<'t> {
    pub table: &'t ConfigTable,
    pub context: Context,
}

/// A value that may be absent, plus the path that was asked for.
#[derive(Debug)]
pub struct PotentialValueHandle<'t> {
    pub value: Option<&'t ConfigValue>,
    pub context: Context,
}

/// A present value plus the path that led to it.
#[derive(Debug)]
pub struct ValueHandle<'t> {
    pub value: &'t ConfigValue,
    pub context: Context,
}

pub type TableResult<T> = Result<T, TableGetError>;

impl TableRoot {
    /// A handle onto the root table.
    pub fn handle(&self) -> (h: TableHandle<'_>)
        ensures
            *h.table == self.table,
            h.context@ == self.context@,
    {
        TableHandle { table: &self.table, context: self.context.duplicate() }
    }
}

impl<'t> TableHandle<'t> {
    /// A root handle for a borrowed table under a fresh context label.
    pub fn new_root<'s>(table: &'s ConfigTable, root_context: String) -> (h: TableHandle<'s>)
        ensures
            *h.table == *table,
            h.context@ == seq![root_context],
    {
        TableHandle { table, context: Context::root(root_context) }
    }

    /// Looks a key up; absence is represented in the result, never an
    /// error. The result's context is extended by the key.
    pub fn get(&self, key: &str) -> (r: PotentialValueHandle<'t>)
        ensures
            r.context@.len() == self.context@.len() + 1,
            r.context@.drop_last() == self.context@,
            r.context@.last()@ == key@,
            match r.value {
                Some(v) => spec_table_get(self.table.entries@, key@) == Some(*v),
                None => spec_table_get(self.table.entries@, key@) is None,
            },
    {
        let context = self.context.child(key.to_owned());
        proof {
            assert(context@.drop_last() =~= self.context@);
            assert(context@.last()@ == key@);
        }
        let entries = &self.table.entries;
        let mut i: usize = 0;
        while i < entries.len()
            invariant
                i <= entries.len(),
                entries@ == self.table.entries@,
                forall|j: int| 0 <= j < i ==> entries@[j].0@ != key@,
                context@.len() == self.context@.len() + 1,
                context@.drop_last() == self.context@,
                context@.last()@ == key@,
            decreases entries.len() - i,
        {
            if str_eq(entries[i].0.as_str(), key) {
                proof {
                    lemma_table_get_skip(entries@, key@, i as int);
                    assert(entries@.skip(i as int)[0] == entries@[i as int]);
                    assert(entries@.skip(i as int)[0].0@ == key@);
                    assert(spec_table_get(entries@.skip(i as int), key@) == Some(
                        entries@[i as int].1,
                    ));
                }
                return PotentialValueHandle { value: Some(&entries[i].1), context };
            }
            i = i + 1;
        }
        proof {
            lemma_table_get_skip(entries@, key@, entries@.len() as int);
            assert(entries@.skip(entries@.len() as int) =~= Seq::<(String, ConfigValue)>::empty());
        }
        PotentialValueHandle { value: None, context }
    }

    /// How many entries the table has.
    pub fn entry_count(&self) -> (n: usize)
        ensures
            n == self.table.entries@.len(),
    {
        self.table.entries.len()
    }

    /// The entry at an index: its key, and its value under a context
    /// extended by that key.
    pub fn entry_at(&self, i: usize) -> (r: (&'t String, ValueHandle<'t>))
        requires
            i < self.table.entries@.len(),
        ensures
            *r.0 == self.table.entries@[i as int].0,
            *r.1.value == self.table.entries@[i as int].1,
            r.1.context@.len() == self.context@.len() + 1,
            r.1.context@.drop_last() == self.context@,
            r.1.context@.last()@ == self.table.entries@[i as int].0@,
    {
        let entry = &self.table.entries[i];
        let context = self.context.child(entry.0.clone());
        proof {
            assert(context@.drop_last() =~= self.context@);
            assert(context@.last()@ == self.table.entries@[i as int].0@);
        }
        (&entry.0, ValueHandle { value: &entry.1, context })
    }

    /// Follows a path of keys through nested tables. On success the
    /// handle's context is this handle's context extended by the path's
    /// keys; on failure the error is located at the offending key and
    /// says whether that key was absent or bound to a non-table.
    pub fn traverse(&self, path: &Vec<String>) -> (r: TableResult<TableHandle<'t>>)
        ensures
            match r {
                Ok(h) => {
                    &&& spec_traverse(*self.table, path@, path@.len() as int) == Some(*h.table)
                    &&& h.context@.len() == self.context@.len() + path@.len()
                    &&& (forall|k: int|
                        0 <= k < self.context@.len() ==> h.context@[k] == self.context@[k])
                    &&& (forall|k: int|
                        0 <= k < path@.len() ==> h.context@[self.context@.len() + k]@
                            == path@[k]@)
                },
                Err(e) => {
                    &&& spec_traverse(*self.table, path@, path@.len() as int) is None
                    &&& exists|j: int|
                        {
                            &&& 0 <= j < path@.len()
                            &&& (#[trigger] spec_traverse(*self.table, path@, j)) matches Some(t)
                                && match spec_table_get(t.entries@, path@[j]@) {
                                None => e.error is NoKey,
                                Some(v) => !(v is Table) && e.error is WrongType,
                            }
                            &&& e.context@.len() == self.context@.len() + j + 1
                            &&& (forall|k: int|
                                0 <= k < self.context@.len() ==> e.context@[k]
                                    == self.context@[k])
                            &&& (forall|k: int|
                                0 <= k <= j ==> e.context@[self.context@.len() + k]@
                                    == path@[k]@)
                        }
                },
            },
    {
        let mut current = TableHandle { table: self.table, context: self.context.duplicate() };
        let mut i: usize = 0;
        while i < path.len()
            invariant
                i <= path.len(),
                spec_traverse(*self.table, path@, i as int) == Some(*current.table),
                current.context@.len() == self.context@.len() + i,
                forall|k: int|
                    0 <= k < self.context@.len() ==> current.context@[k] == self.context@[k],
                forall|k: int|
                    0 <= k < i ==> current.context@[self.context@.len() + k]@ == path@[k]@,
            decreases path.len() - i,
        {
            let pv = current.get(path[i].as_str());
            match pv.expect_table() {
                Ok(next) => {
                    current = next;
                },
                Err(e) => {
                    proof {
                        assert(spec_traverse(*self.table, path@, i + 1 as int) is None);
                        lemma_traverse_none(*self.table, path@, i + 1 as int, path@.len() as int);
                    }
                    return Err(e);
                },
            }
            i = i + 1;
        }
        Ok(current)
    }
}

/// The table reached after following the first `j` keys of a path into
/// nested tables; `None` when some key along the way is absent or not
/// bound to a table.
pub open spec fn spec_traverse(table: ConfigTable, path: Seq<String>, j: int) -> Option<ConfigTable>
    decreases j,
{
    if j <= 0 {
        Some(table)
    } else {
        match spec_traverse(table, path, j - 1) {
            Some(t) => match spec_table_get(t.entries@, path[j - 1]@) {
                Some(v) => match v {
                    ConfigValue::Table(t2) => Some(t2),
                    _ => None,
                },
                _ => None,
            },
            None => None,
        }
    }
}

proof fn lemma_traverse_none(table: ConfigTable, path: Seq<String>, i: int, j: int)
    requires
        0 <= i <= j,
        spec_traverse(table, path, i) is None,
    ensures
        spec_traverse(table, path, j) is None,
    decreases j - i,
{
    if i < j {
        lemma_traverse_none(table, path, i + 1, j);
    }
}

impl<'t> ValueHandle<'t> {
    /// The same value as a potential-value handle.
    pub fn to_potential(self) -> (r: PotentialValueHandle<'t>)
        ensures
            r.value == Some(self.value),
            r.context@ == self.context@,
    {
        PotentialValueHandle { value: Some(self.value), context: self.context }
    }
}

impl<'t> PotentialValueHandle<'t> {
    /// The value as text. Fails with `NoKey` if absent, `WrongType` if
    /// present but not text; either error carries this handle's context.
    pub fn expect_string(self) -> (r: TableResult<&'t String>)
        ensures
            match r {
                Ok(s) => self.value matches Some(v) && *v matches ConfigValue::Text(t) && *s == t,
                Err(e) => e.context@ == self.context@ && match self.value {
                    None => e.error is NoKey,
                    Some(v) => !(*v is Text) && e.error is WrongType,
                },
            },
    {
        match self.value {
            None => Err(TableGetError { context: self.context, error: TableGetErr::NoKey }),
            Some(v) => match v {
                ConfigValue::Text(t) => Ok(t),
                _ => Err(
                    TableGetError {
                        context: self.context,
                        error: TableGetErr::WrongType("string"),
                    },
                ),
            },
        }
    }

    /// The value as a table handle, under the same context.
    pub fn expect_table(self) -> (r: TableResult<TableHandle<'t>>)
        ensures
            match r {
                Ok(h) => self.value matches Some(v) && *v matches ConfigValue::Table(t) && *h.table
                    == t && h.context@ == self.context@,
                Err(e) => e.context@ == self.context@ && match self.value {
                    None => e.error is NoKey,
                    Some(v) => !(*v is Table) && e.error is WrongType,
                },
            },
    {
        match self.value {
            None => Err(TableGetError { context: self.context, error: TableGetErr::NoKey }),
            Some(v) => match v {
                ConfigValue::Table(t) => Ok(TableHandle { table: t, context: self.context }),
                _ => Err(
                    TableGetError { context: self.context, error: TableGetErr::WrongType("table") },
                ),
            },
        }
    }

    /// The value as an array: one handle per element, each under this
    /// handle's context.
    pub fn expect_array(self) -> (r: TableResult<Vec<ValueHandle<'t>>>)
        ensures
            match r {
                Ok(vs) => self.value matches Some(v) && *v matches ConfigValue::List(items)
                    && vs@.len() == items@.len() && (forall|i: int|
                    0 <= i < vs@.len() ==> *vs@[i].value == items@[i] && vs@[i].context@
                        == self.context@),
                Err(e) => e.context@ == self.context@ && match self.value {
                    None => e.error is NoKey,
                    Some(v) => !(*v is List) && e.error is WrongType,
                },
            },
    {
        match self.value {
            None => Err(TableGetError { context: self.context, error: TableGetErr::NoKey }),
            Some(v) => match v {
                ConfigValue::List(items) => {
                    let mut vs: Vec<ValueHandle<'t>> = Vec::new();
                    let mut i: usize = 0;
                    while i < items.len()
                        invariant
                            i <= items.len(),
                            vs@.len() == i,
                            forall|j: int|
                                0 <= j < i ==> *vs@[j].value == items@[j] && vs@[j].context@
                                    == self.context@,
                        decreases items.len() - i,
                    {
                        vs.push(ValueHandle { value: &items[i], context: self.context.duplicate() });
                        i = i + 1;
                    }
                    Ok(vs)
                },
                _ => Err(
                    TableGetError { context: self.context, error: TableGetErr::WrongType("array") },
                ),
            },
        }
    }
}

/// Turns an extraction failure for a merely-absent key into a
/// represented absence; other failures stay errors.
pub fn to_optional<T>(r: TableResult<T>) -> (o: TableResult<Option<T>>)
    ensures
        match o {
            Ok(inner) => match inner {
                Some(v) => r matches Ok(rv) && rv == v,
                None => r matches Err(e) && e.error is NoKey,
            },
            Err(e) => r matches Err(re) && re == e && !(e.error is NoKey),
        },
{
    match r {
        Ok(v) => Ok(Some(v)),
        Err(e) => match e.error {
            TableGetErr::NoKey => Ok(None),
            _ => Err(e),
        },
    }
}

/// Optional-absence adapter on extraction results.
pub trait TableResultOptional<T>: Sized {
    /// What turning this result's merely-absent-key failure into a
    /// represented absence yields.
    spec fn optional_spec(self) -> TableResult<Option<T>>;

    fn optional(self) -> (r: TableResult<Option<T>>)
        ensures
            r == self.optional_spec(),
    ;
}

impl<T> TableResultOptional<T> for TableResult<T> {
    open spec fn optional_spec(self) -> TableResult<Option<T>> {
        match self {
            Ok(v) => Ok(Some(v)),
            Err(e) => if e.error is NoKey {
                Ok(None)
            } else {
                Err(e)
            },
        }
    }

    fn optional(self) -> (r: TableResult<Option<T>>) {
        to_optional(self)
    }
}

} // verus!
