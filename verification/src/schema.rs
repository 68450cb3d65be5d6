//! The data model: binding specifications, groups, captures, layers,
//! map and function definitions, and the optional per-scope settings
//! they carry.

use vstd::prelude::*;
use crate::overlay::OptWrite;

verus! {

/// Optional per-scope settings: an escape-sequence specifier and a
/// proxy identifier, each independently present or absent. Effective
/// settings at any point are the overlay merge of all enclosing
/// scopes, most specific scope last.
#[derive(Debug)]
#[verifier::ext_equal]
pub struct MetaOpts {
    pub escape: Option<String>,
    pub proxy: Option<String>,
}

impl OptWrite for MetaOpts {
    open spec fn merged(self, other: Self) -> Self {
        MetaOpts { escape: self.escape.merged(other.escape), proxy: self.proxy.merged(other.proxy) }
    }

    fn optwrite(&mut self, other: Self) {
        self.escape.optwrite(other.escape);
        self.proxy.optwrite(other.proxy);
    }

    fn overriden_by(self, other: Self) -> (r: Self) {
        MetaOpts {
            escape: self.escape.overriden_by(other.escape),
            proxy: self.proxy.overriden_by(other.proxy),
        }
    }
}

impl Default for MetaOpts {
    /// The all-absent record: the identity of the overlay merge.
    fn default() -> (r: Self)
        ensures
            r.escape is None,
            r.proxy is None,
    {
        MetaOpts { escape: None, proxy: None }
    }
}

impl MetaOpts {
    /// A copy with the same fields.
    pub fn duplicate(&self) -> (r: Self)
        ensures
            r == *self,
    {
        let escape = match &self.escape {
            Some(s) => Some(s.clone()),
            None => None,
        };
        let proxy = match &self.proxy {
            Some(s) => Some(s.clone()),
            None => None,
        };
        let r = MetaOpts { escape, proxy };
        assert(r =~= *self);
        r
    }
}

/// Overlay merge of option records is associative: folding scopes
/// outer-to-inner one at a time yields the same effective record as
/// merging against a pre-merged override, for every field
/// independently.
pub proof fn lemma_metaopts_merge_associative(a: MetaOpts, b: MetaOpts, c: MetaOpts)
    ensures
        a.merged(b).merged(c) == a.merged(b.merged(c)),
{
    assert(a.merged(b).merged(c) =~= a.merged(b.merged(c)));
}

/// Merging any record with the all-absent record, on either side,
/// yields the original record unchanged: a field once set by a more
/// specific scope is never reverted by an absent one.
pub proof fn lemma_metaopts_merge_identity(a: MetaOpts, e: MetaOpts)
    requires
        e.escape is None,
        e.proxy is None,
    ensures
        a.merged(e) == a,
        e.merged(a) == a,
{
    assert(a.merged(e) =~= a);
    assert(e.merged(a) =~= a);
}

/// One pipeline stage: a map lookup or a function invocation.
#[derive(Debug)]
#[verifier::ext_equal]
pub enum Layer {
    Mapping(MapLayer),
    Function(FunctionLayer),
}

/// A layer that looks the current text up in a named map.
#[derive(Debug)]
#[verifier::ext_equal]
pub struct MapLayer {
    pub map: String,
}

/// A layer that runs a named function on the current text, optionally
/// overriding the function's default arguments.
#[derive(Debug)]
#[verifier::ext_equal]
pub struct FunctionLayer {
    pub function: String,
    pub args: Option<Vec<String>>,
}

/// A fragment-extraction rule: an opaque matcher expression, an
/// optional per-capture escape override, and the ordered layers to
/// apply to each extracted fragment.
#[derive(Debug)]
#[verifier::ext_equal]
pub struct Capture {
    pub capture: String,
    pub escape: Option<String>,
    pub layers: Vec<Layer>,
}

/// A named unit of work: source file patterns, an output filename, and
/// the capture rules to run against every matched file.
#[derive(Debug)]
#[verifier::ext_equal]
pub struct Group {
    pub files: Vec<String>,
    pub axbind_filename: String,
    pub captures: Vec<Capture>,
}

/// One binding specification: optional global settings and an ordered
/// sequence of groups.
#[derive(Debug)]
#[verifier::ext_equal]
pub struct BindFile {
    pub meta: Option<MetaOpts>,
    pub groups: Vec<Group>,
    pub source_path: String,
}

/// A named lookup table: string-to-string values plus the identifiers
/// of other maps whose entries are merged in beneath this map's own.
#[derive(Debug)]
#[verifier::ext_equal]
pub struct MapFile {
    pub inclusions: Vec<String>,
    pub values: Vec<(String, String)>,
    pub source_path: String,
}

/// A named callable: optional settings and a function body.
#[derive(Debug)]
#[verifier::ext_equal]
pub struct FunctionFile {
    pub meta: Option<MetaOpts>,
    pub function: Function,
    pub source_path: String,
}

/// A function declaration: optional named formal parameters, an
/// optional format string describing how the capture text and
/// positional arguments map onto them, and the pipeline kind.
#[derive(Debug)]
#[verifier::ext_equal]
pub struct Function {
    pub parameters: Option<Vec<String>>,
    pub parameter_format: Option<String>,
    pub pipeline: FunctionPipeline,
}

/// How a function runs: an external command or a built-in transform.
#[derive(Debug)]
#[verifier::ext_equal]
pub enum FunctionPipeline {
    Command(CommandFunction),
    Internal(InternalFunction),
}

/// An external command: binary path, optional stdin template, optional
/// default argument list.
#[derive(Debug)]
#[verifier::ext_equal]
pub struct CommandFunction {
    pub binary: String,
    pub stdin: Option<String>,
    pub args: Option<Vec<String>>,
}

/// A built-in transform, selected by name from a fixed dispatch table.
#[derive(Debug)]
#[verifier::ext_equal]
pub struct InternalFunction {
    pub internal: String,
    pub args: Option<Vec<String>>,
}

/// A definition that can be built from an already-parsed configuration
/// table, remembering the file it came from.
pub trait FromFile: Sized {
    fn from_table(table: &crate::config::ConfigTable, source_path: String) -> Result<
        Self,
        crate::errors::TableGetError,
    >;

    fn source(&self) -> &String;
}

} // verus!
