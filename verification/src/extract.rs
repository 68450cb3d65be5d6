//! Building the data model out of a parsed configuration tree: each
//! definition kind has a parse specification over the generic tree, and
//! the extraction functions return exactly the records that
//! specification describes, or a located shape error.

use vstd::prelude::*;
use crate::errors::TableGetError;
use crate::config::{
    spec_table_get, to_optional, ConfigTable, ConfigValue, TableHandle, TableResult,
};
use crate::schema::{
    BindFile, Capture, CommandFunction, FromFile, Function, FunctionFile, FunctionLayer,
    FunctionPipeline, Group, InternalFunction, Layer, MapFile, MapLayer, MetaOpts,
};

verus! {

/// An optional text value at a key: absent is represented, a non-text
/// value is a shape error (the outer `None`).
pub open spec fn spec_opt_text(t: ConfigTable, key: Seq<char>) -> Option<Option<String>> {
    match spec_table_get(t.entries@, key) {
        None => Some(None),
        Some(v) => match v {
            ConfigValue::Text(s) => Some(Some(s)),
            _ => None,
        },
    }
}

/// A list whose items must all be text.
pub open spec fn spec_text_seq(items: Seq<ConfigValue>) -> Option<Seq<String>>
    decreases items.len(),
{
    if items.len() == 0 {
        Some(Seq::empty())
    } else {
        match spec_text_seq(items.drop_last()) {
            Some(pre) => match items.last() {
                ConfigValue::Text(s) => Some(pre.push(s)),
                _ => None,
            },
            None => None,
        }
    }
}

/// An optional list of text at a key: absent is represented.
pub open spec fn spec_opt_text_list(t: ConfigTable, key: Seq<char>) -> Option<
    Option<Seq<String>>,
> {
    match spec_table_get(t.entries@, key) {
        None => Some(None),
        Some(v) => match v {
            ConfigValue::List(items) => match spec_text_seq(items@) {
                Some(s) => Some(Some(s)),
                None => None,
            },
            _ => None,
        },
    }
}

/// A table whose values must all be text, as key/value pairs in
/// declaration order.
pub open spec fn spec_value_pairs(entries: Seq<(String, ConfigValue)>) -> Option<
    Seq<(String, String)>,
>
    decreases entries.len(),
{
    if entries.len() == 0 {
        Some(Seq::empty())
    } else {
        match spec_value_pairs(entries.drop_last()) {
            Some(pre) => match entries.last().1 {
                ConfigValue::Text(s) => Some(pre.push((entries.last().0, s))),
                _ => None,
            },
            None => None,
        }
    }
}

proof fn lemma_text_seq_none(items: Seq<ConfigValue>, i: int)
    requires
        0 <= i <= items.len(),
        spec_text_seq(items.subrange(0, i)) is None,
    ensures
        spec_text_seq(items) is None,
    decreases items.len() - i,
{
    if i < items.len() {
        assert(items.subrange(0, i + 1).drop_last() =~= items.subrange(0, i));
        lemma_text_seq_none(items, i + 1);
    } else {
        assert(items.subrange(0, i) =~= items);
    }
}

proof fn lemma_value_pairs_none(entries: Seq<(String, ConfigValue)>, i: int)
    requires
        0 <= i <= entries.len(),
        spec_value_pairs(entries.subrange(0, i)) is None,
    ensures
        spec_value_pairs(entries) is None,
    decreases entries.len() - i,
{
    if i < entries.len() {
        assert(entries.subrange(0, i + 1).drop_last() =~= entries.subrange(0, i));
        lemma_value_pairs_none(entries, i + 1);
    } else {
        assert(entries.subrange(0, i) =~= entries);
    }
}

/// Extracts an optional text field, cloning the stored value.
fn get_opt_text(handle: &TableHandle<'_>, key: &str) -> (r: TableResult<Option<String>>)
    ensures
        match r {
            Ok(o) => spec_opt_text(*handle.table, key@) == Some(o),
            Err(_) => spec_opt_text(*handle.table, key@) is None,
        },
{
    match to_optional(handle.get(key).expect_string()) {
        Ok(o) => match o {
            Some(s) => Ok(Some(s.clone())),
            None => Ok(None),
        },
        Err(e) => Err(e),
    }
}

/// Extracts a list of text items, cloning each.
fn get_text_list(items: Vec<crate::config::ValueHandle<'_>>, source: Ghost<Seq<ConfigValue>>) -> (r:
    TableResult<Vec<String>>)
    requires
        items@.len() == source@.len(),
        forall|i: int| 0 <= i < items@.len() ==> *items@[i].value == source@[i],
    ensures
        match r {
            Ok(v) => spec_text_seq(source@) == Some(v@),
            Err(_) => spec_text_seq(source@) is None,
        },
{
    let ghost items0 = items@;
    let mut rest = items;
    let mut out: Vec<String> = Vec::new();
    let ghost mut k: int = 0;
    while rest.len() > 0
        invariant
            0 <= k <= source@.len(),
            items0.len() == source@.len(),
            forall|i: int| 0 <= i < items0.len() ==> *items0[i].value == source@[i],
            rest@ =~= items0.skip(k),
            spec_text_seq(source@.subrange(0, k)) == Some(out@),
        decreases rest.len(),
    {
        let ghost pre = rest@;
        let vh = rest.remove(0);
        proof {
            assert(rest@ =~= pre.skip(1));
            assert(pre[0] == items0[k]);
        }
        match vh.to_potential().expect_string() {
            Ok(s) => {
                out.push(s.clone());
                proof {
                    assert(source@.subrange(0, k + 1).drop_last() =~= source@.subrange(0, k));
                    assert(source@.subrange(0, k + 1).last() == source@[k]);
                    k = k + 1;
                }
            },
            Err(e) => {
                proof {
                    assert(source@.subrange(0, k + 1).drop_last() =~= source@.subrange(0, k));
                    assert(source@.subrange(0, k + 1).last() == source@[k]);
                    assert(spec_text_seq(source@.subrange(0, k + 1)) is None);
                    lemma_text_seq_none(source@, k + 1);
                }
                return Err(e);
            },
        }
    }
    proof {
        assert(k == source@.len());
        assert(source@.subrange(0, k) =~= source@);
    }
    Ok(out)
}

/// Extracts an optional list-of-text field.
fn get_opt_text_list(handle: &TableHandle<'_>, key: &str) -> (r: TableResult<Option<Vec<String>>>)
    ensures
        match r {
            Ok(o) => match o {
                Some(v) => spec_opt_text_list(*handle.table, key@) == Some(Some(v@)),
                None => spec_opt_text_list(*handle.table, key@) == Some(
                    Option::<Seq<String>>::None,
                ),
            },
            Err(_) => spec_opt_text_list(*handle.table, key@) is None,
        },
{
    let pv = handle.get(key);
    match pv.value {
        None => Ok(None),
        Some(v) => {
            let ghost source: Seq<ConfigValue> = match v {
                ConfigValue::List(items) => items@,
                _ => Seq::empty(),
            };
            let handles = pv.expect_array()?;
            let out = get_text_list(handles, Ghost(source))?;
            Ok(Some(out))
        },
    }
}

impl MetaOpts {
    /// The settings record a table describes: optional `escape` and
    /// `proxy` text fields.
    pub open spec fn spec_parse(t: ConfigTable) -> Option<MetaOpts> {
        match (spec_opt_text(t, "escape"@), spec_opt_text(t, "proxy"@)) {
            (Some(e), Some(p)) => Some(MetaOpts { escape: e, proxy: p }),
            _ => None,
        }
    }

    /// Extracts the settings record that `spec_parse` describes.
    pub fn from_table(handle: &TableHandle<'_>) -> (r: TableResult<MetaOpts>)
        ensures
            match r {
                Ok(m) => MetaOpts::spec_parse(*handle.table) == Some(m),
                Err(_) => MetaOpts::spec_parse(*handle.table) is None,
            },
    {
        let escape = get_opt_text(handle, "escape")?;
        let proxy = get_opt_text(handle, "proxy")?;
        Ok(MetaOpts { escape, proxy })
    }
}

/// An optional settings table at `meta`: absent is represented.
pub open spec fn spec_opt_meta(t: ConfigTable) -> Option<Option<MetaOpts>> {
    match spec_table_get(t.entries@, "meta"@) {
        None => Some(None),
        Some(v) => match v {
            ConfigValue::Table(mt) => match MetaOpts::spec_parse(mt) {
                Some(m) => Some(Some(m)),
                None => None,
            },
            _ => None,
        },
    }
}

fn get_opt_meta(handle: &TableHandle<'_>) -> (r: TableResult<Option<MetaOpts>>)
    ensures
        match r {
            Ok(o) => spec_opt_meta(*handle.table) == Some(o),
            Err(_) => spec_opt_meta(*handle.table) is None,
        },
{
    let pv = handle.get("meta");
    match pv.value {
        None => Ok(None),
        Some(_) => {
            let mt = pv.expect_table()?;
            let m = MetaOpts::from_table(&mt)?;
            Ok(Some(m))
        },
    }
}

impl MapFile {
    /// The map a table describes: a required `values` table of text
    /// entries and an optional `inclusions` list of identifiers
    /// (absent means no inclusions).
    pub open spec fn spec_parse(t: ConfigTable) -> Option<(Seq<String>, Seq<(String, String)>)> {
        let incl = match spec_table_get(t.entries@, "inclusions"@) {
            None => Some(Seq::<String>::empty()),
            Some(v) => match v {
                ConfigValue::List(items) => spec_text_seq(items@),
                _ => None,
            },
        };
        let vals = match spec_table_get(t.entries@, "values"@) {
            Some(v) => match v {
                ConfigValue::Table(vt) => spec_value_pairs(vt.entries@),
                _ => None,
            },
            None => None,
        };
        match (incl, vals) {
            (Some(i), Some(vs)) => Some((i, vs)),
            _ => None,
        }
    }

    /// Extracts the map that `spec_parse` describes.
    pub fn from_table(handle: &TableHandle<'_>, source_path: String) -> (r: TableResult<MapFile>)
        ensures
            match r {
                Ok(m) => MapFile::spec_parse(*handle.table) == Some((m.inclusions@, m.values@))
                    && m.source_path == source_path,
                Err(_) => MapFile::spec_parse(*handle.table) is None,
            },
    {
        let inclusions = match get_opt_text_list(handle, "inclusions")? {
            Some(v) => v,
            None => Vec::new(),
        };
        let vt = handle.get("values").expect_table()?;
        let n = vt.entry_count();
        let mut values: Vec<(String, String)> = Vec::new();
        let mut i: usize = 0;
        while i < n
            invariant
                n == vt.table.entries@.len(),
                i <= n,
                spec_value_pairs(vt.table.entries@.subrange(0, i as int)) == Some(values@),
                MapFile::spec_parse(*handle.table) == (match spec_value_pairs(
                    vt.table.entries@,
                ) {
                    Some(vs) => Some((inclusions@, vs)),
                    None => None,
                }),
            decreases n - i,
        {
            let (key, vh) = vt.entry_at(i);
            let entry_key = key.clone();
            match vh.to_potential().expect_string() {
                Ok(s) => {
                    values.push((entry_key, s.clone()));
                    proof {
                        assert(vt.table.entries@.subrange(0, i + 1 as int).drop_last()
                            =~= vt.table.entries@.subrange(0, i as int));
                        assert(vt.table.entries@.subrange(0, i + 1 as int).last()
                            == vt.table.entries@[i as int]);
                    }
                },
                Err(e) => {
                    proof {
                        assert(vt.table.entries@.subrange(0, i + 1 as int).drop_last()
                            =~= vt.table.entries@.subrange(0, i as int));
                        assert(vt.table.entries@.subrange(0, i + 1 as int).last()
                            == vt.table.entries@[i as int]);
                        assert(spec_value_pairs(vt.table.entries@.subrange(0, i + 1 as int))
                            is None);
                        lemma_value_pairs_none(vt.table.entries@, i + 1);
                    }
                    return Err(e);
                },
            }
            i = i + 1;
        }
        proof {
            assert(vt.table.entries@.subrange(0, n as int) =~= vt.table.entries@);
        }
        Ok(MapFile { inclusions, values, source_path })
    }
}

/// The pipeline kind a table describes, at view level: a `binary`
/// entry selects an external command (optional `stdin` template and
/// `args` defaults); otherwise a required `internal` entry selects a
/// built-in (optional `args`).
pub open spec fn spec_parse_pipeline(pt: ConfigTable) -> Option<
    (Option<(String, Option<String>, Option<Seq<String>>)>, Option<(String, Option<Seq<String>>)>),
> {
    match spec_table_get(pt.entries@, "binary"@) {
        Some(bv) => match bv {
            ConfigValue::Text(b) => match (
                spec_opt_text(pt, "stdin"@),
                spec_opt_text_list(pt, "args"@),
            ) {
                (Some(stdin), Some(args)) => Some((Some((b, stdin, args)), None)),
                _ => None,
            },
            _ => None,
        },
        None => match spec_table_get(pt.entries@, "internal"@) {
            Some(iv) => match iv {
                ConfigValue::Text(name) => match spec_opt_text_list(pt, "args"@) {
                    Some(args) => Some((None, Some((name, args)))),
                    None => None,
                },
                _ => None,
            },
            None => None,
        },
    }
}

/// The view of an optional owned argument list.
pub open spec fn opt_args_view(o: Option<Vec<String>>) -> Option<Seq<String>> {
    match o {
        Some(v) => Some(v@),
        None => None,
    }
}

/// The view-level description of a pipeline value.
pub open spec fn pipeline_view(p: FunctionPipeline) -> (
    Option<(String, Option<String>, Option<Seq<String>>)>,
    Option<(String, Option<Seq<String>>)>,
) {
    match p {
        FunctionPipeline::Command(c) => (Some((c.binary, c.stdin, opt_args_view(c.args))), None),
        FunctionPipeline::Internal(i) => (None, Some((i.internal, opt_args_view(i.args)))),
    }
}

fn parse_pipeline(pt: &TableHandle<'_>) -> (r: TableResult<FunctionPipeline>)
    ensures
        match r {
            Ok(p) => spec_parse_pipeline(*pt.table) == Some(pipeline_view(p)),
            Err(_) => spec_parse_pipeline(*pt.table) is None,
        },
{
    let bv = pt.get("binary");
    match bv.value {
        Some(_) => {
            let binary = bv.expect_string()?.clone();
            let stdin = get_opt_text(pt, "stdin")?;
            let args = get_opt_text_list(pt, "args")?;
            Ok(FunctionPipeline::Command(CommandFunction { binary, stdin, args }))
        },
        None => {
            let internal = pt.get("internal").expect_string()?.clone();
            let args = get_opt_text_list(pt, "args")?;
            Ok(FunctionPipeline::Internal(InternalFunction { internal, args }))
        },
    }
}

/// The function declaration a table describes, at view level:
/// optional `parameters` (text list), optional `parameter_format`
/// (text), and a required `pipeline` table.
pub open spec fn spec_parse_function(ft: ConfigTable) -> Option<
    (Option<Seq<String>>, Option<String>, (
        Option<(String, Option<String>, Option<Seq<String>>)>,
        Option<(String, Option<Seq<String>>)>,
    )),
> {
    match (spec_opt_text_list(ft, "parameters"@), spec_opt_text(ft, "parameter_format"@)) {
        (Some(params), Some(fmt)) => match spec_table_get(ft.entries@, "pipeline"@) {
            Some(pv) => match pv {
                ConfigValue::Table(pt) => match spec_parse_pipeline(pt) {
                    Some(p) => Some((params, fmt, p)),
                    None => None,
                },
                _ => None,
            },
            None => None,
        },
        _ => None,
    }
}

/// The view-level description of a function declaration.
pub open spec fn function_view(f: Function) -> (
    Option<Seq<String>>,
    Option<String>,
    (
        Option<(String, Option<String>, Option<Seq<String>>)>,
        Option<(String, Option<Seq<String>>)>,
    ),
) {
    (opt_args_view(f.parameters), f.parameter_format, pipeline_view(f.pipeline))
}

fn parse_function(ft: &TableHandle<'_>) -> (r: TableResult<Function>)
    ensures
        match r {
            Ok(f) => spec_parse_function(*ft.table) == Some(function_view(f)),
            Err(_) => spec_parse_function(*ft.table) is None,
        },
{
    let parameters = get_opt_text_list(ft, "parameters")?;
    let parameter_format = get_opt_text(ft, "parameter_format")?;
    let pt = ft.get("pipeline").expect_table()?;
    let pipeline = parse_pipeline(&pt)?;
    Ok(Function { parameters, parameter_format, pipeline })
}

impl FunctionFile {
    /// The callable a table describes, at view level: an optional
    /// `meta` settings table and a required `function` table.
    pub open spec fn spec_parse(t: ConfigTable) -> Option<
        (Option<MetaOpts>, (Option<Seq<String>>, Option<String>, (
            Option<(String, Option<String>, Option<Seq<String>>)>,
            Option<(String, Option<Seq<String>>)>,
        ))),
    > {
        match spec_opt_meta(t) {
            Some(meta) => match spec_table_get(t.entries@, "function"@) {
                Some(fv) => match fv {
                    ConfigValue::Table(ft) => match spec_parse_function(ft) {
                        Some(f) => Some((meta, f)),
                        None => None,
                    },
                    _ => None,
                },
                None => None,
            },
            None => None,
        }
    }

    /// Extracts the callable that `spec_parse` describes.
    pub fn from_table(handle: &TableHandle<'_>, source_path: String) -> (r: TableResult<
        FunctionFile,
    >)
        ensures
            match r {
                Ok(f) => FunctionFile::spec_parse(*handle.table) == Some(
                    (f.meta, function_view(f.function)),
                ) && f.source_path == source_path,
                Err(_) => FunctionFile::spec_parse(*handle.table) is None,
            },
    {
        let meta = get_opt_meta(handle)?;
        let ft = handle.get("function").expect_table()?;
        let function = parse_function(&ft)?;
        Ok(FunctionFile { meta, function, source_path })
    }
}


/// The view-level description of one layer: a map reference or a
/// function reference with optional arguments.
pub type LayerView = (Option<String>, Option<(String, Option<Seq<String>>)>);

pub open spec fn layer_view(l: Layer) -> LayerView {
    match l {
        Layer::Mapping(ml) => (Some(ml.map), None),
        Layer::Function(fl) => (None, Some((fl.function, opt_args_view(fl.args)))),
    }
}

/// The layer a list item describes: a table with a text `map` entry,
/// or else a required text `function` entry with optional `args`.
pub open spec fn spec_parse_layer(v: ConfigValue) -> Option<LayerView> {
    match v {
        ConfigValue::Table(lt) => match spec_table_get(lt.entries@, "map"@) {
            Some(mv) => match mv {
                ConfigValue::Text(m) => Some((Some(m), None)),
                _ => None,
            },
            None => match spec_table_get(lt.entries@, "function"@) {
                Some(fv) => match fv {
                    ConfigValue::Text(f) => match spec_opt_text_list(lt, "args"@) {
                        Some(a) => Some((None, Some((f, a)))),
                        None => None,
                    },
                    _ => None,
                },
                None => None,
            },
        },
        _ => None,
    }
}

pub open spec fn spec_parse_layers(items: Seq<ConfigValue>) -> Option<Seq<LayerView>>
    decreases items.len(),
{
    if items.len() == 0 {
        Some(Seq::empty())
    } else {
        match spec_parse_layers(items.drop_last()) {
            Some(pre) => match spec_parse_layer(items.last()) {
                Some(l) => Some(pre.push(l)),
                None => None,
            },
            None => None,
        }
    }
}

pub open spec fn layers_view(ls: Seq<Layer>) -> Seq<LayerView> {
    ls.map_values(|l: Layer| layer_view(l))
}

/// The view-level description of a capture rule.
pub type CaptureView = (String, Option<String>, Seq<LayerView>);

pub open spec fn capture_view(c: Capture) -> CaptureView {
    (c.capture, c.escape, layers_view(c.layers@))
}

/// The capture a list item describes: a table with a required text
/// `capture` entry, an optional text `escape`, and a required `layers`
/// list.
pub open spec fn spec_parse_capture(v: ConfigValue) -> Option<CaptureView> {
    match v {
        ConfigValue::Table(ct) => match spec_table_get(ct.entries@, "capture"@) {
            Some(cv) => match cv {
                ConfigValue::Text(cap) => match spec_opt_text(ct, "escape"@) {
                    Some(esc) => match spec_table_get(ct.entries@, "layers"@) {
                        Some(lv) => match lv {
                            ConfigValue::List(items) => match spec_parse_layers(items@) {
                                Some(ls) => Some((cap, esc, ls)),
                                None => None,
                            },
                            _ => None,
                        },
                        None => None,
                    },
                    None => None,
                },
                _ => None,
            },
            None => None,
        },
        _ => None,
    }
}

pub open spec fn spec_parse_captures(items: Seq<ConfigValue>) -> Option<Seq<CaptureView>>
    decreases items.len(),
{
    if items.len() == 0 {
        Some(Seq::empty())
    } else {
        match spec_parse_captures(items.drop_last()) {
            Some(pre) => match spec_parse_capture(items.last()) {
                Some(c) => Some(pre.push(c)),
                None => None,
            },
            None => None,
        }
    }
}

pub open spec fn captures_view(cs: Seq<Capture>) -> Seq<CaptureView> {
    cs.map_values(|c: Capture| capture_view(c))
}

/// The view-level description of a group.
pub type GroupView = (Seq<String>, String, Seq<CaptureView>);

pub open spec fn group_view(g: Group) -> GroupView {
    (g.files@, g.axbind_filename, captures_view(g.captures@))
}

/// The group a list item describes: a table with required `files`
/// (text list), `axbind_filename` (text) and `captures` (list).
pub open spec fn spec_parse_group(v: ConfigValue) -> Option<GroupView> {
    match v {
        ConfigValue::Table(gt) => match spec_table_get(gt.entries@, "files"@) {
            Some(fv) => match fv {
                ConfigValue::List(fitems) => match spec_text_seq(fitems@) {
                    Some(files) => match spec_opt_text(gt, "axbind_filename"@) {
                        Some(Some(name)) => match spec_table_get(gt.entries@, "captures"@) {
                            Some(cv) => match cv {
                                ConfigValue::List(citems) => match spec_parse_captures(citems@) {
                                    Some(cs) => Some((files, name, cs)),
                                    None => None,
                                },
                                _ => None,
                            },
                            None => None,
                        },
                        _ => None,
                    },
                    None => None,
                },
                _ => None,
            },
            None => None,
        },
        _ => None,
    }
}

pub open spec fn spec_parse_groups(items: Seq<ConfigValue>) -> Option<Seq<GroupView>>
    decreases items.len(),
{
    if items.len() == 0 {
        Some(Seq::empty())
    } else {
        match spec_parse_groups(items.drop_last()) {
            Some(pre) => match spec_parse_group(items.last()) {
                Some(g) => Some(pre.push(g)),
                None => None,
            },
            None => None,
        }
    }
}

pub open spec fn groups_view(gs: Seq<Group>) -> Seq<GroupView> {
    gs.map_values(|g: Group| group_view(g))
}

proof fn lemma_parse_layers_none(items: Seq<ConfigValue>, i: int)
    requires
        0 <= i <= items.len(),
        spec_parse_layers(items.subrange(0, i)) is None,
    ensures
        spec_parse_layers(items) is None,
    decreases items.len() - i,
{
    if i < items.len() {
        assert(items.subrange(0, i + 1).drop_last() =~= items.subrange(0, i));
        lemma_parse_layers_none(items, i + 1);
    } else {
        assert(items.subrange(0, i) =~= items);
    }
}

proof fn lemma_parse_captures_none(items: Seq<ConfigValue>, i: int)
    requires
        0 <= i <= items.len(),
        spec_parse_captures(items.subrange(0, i)) is None,
    ensures
        spec_parse_captures(items) is None,
    decreases items.len() - i,
{
    if i < items.len() {
        assert(items.subrange(0, i + 1).drop_last() =~= items.subrange(0, i));
        lemma_parse_captures_none(items, i + 1);
    } else {
        assert(items.subrange(0, i) =~= items);
    }
}

proof fn lemma_parse_groups_none(items: Seq<ConfigValue>, i: int)
    requires
        0 <= i <= items.len(),
        spec_parse_groups(items.subrange(0, i)) is None,
    ensures
        spec_parse_groups(items) is None,
    decreases items.len() - i,
{
    if i < items.len() {
        assert(items.subrange(0, i + 1).drop_last() =~= items.subrange(0, i));
        lemma_parse_groups_none(items, i + 1);
    } else {
        assert(items.subrange(0, i) =~= items);
    }
}

fn parse_layer(vh: crate::config::ValueHandle<'_>) -> (r: TableResult<Layer>)
    ensures
        match r {
            Ok(l) => spec_parse_layer(*vh.value) == Some(layer_view(l)),
            Err(_) => spec_parse_layer(*vh.value) is None,
        },
{
    let lt = vh.to_potential().expect_table()?;
    let mv = lt.get("map");
    match mv.value {
        Some(_) => {
            let map = mv.expect_string()?.clone();
            Ok(Layer::Mapping(MapLayer { map }))
        },
        None => {
            let function = lt.get("function").expect_string()?.clone();
            let args = get_opt_text_list(&lt, "args")?;
            Ok(Layer::Function(FunctionLayer { function, args }))
        },
    }
}

fn parse_layer_list(handles: Vec<crate::config::ValueHandle<'_>>, source: Ghost<Seq<ConfigValue>>)
    -> (r: TableResult<Vec<Layer>>)
    requires
        handles@.len() == source@.len(),
        forall|i: int| 0 <= i < handles@.len() ==> *handles@[i].value == source@[i],
    ensures
        match r {
            Ok(v) => spec_parse_layers(source@) == Some(layers_view(v@)),
            Err(_) => spec_parse_layers(source@) is None,
        },
{
    let ghost items0 = handles@;
    let mut rest = handles;
    let mut out: Vec<Layer> = Vec::new();
    let ghost mut k: int = 0;
    while rest.len() > 0
        invariant
            0 <= k <= source@.len(),
            items0.len() == source@.len(),
            forall|i: int| 0 <= i < items0.len() ==> *items0[i].value == source@[i],
            rest@ =~= items0.skip(k),
            spec_parse_layers(source@.subrange(0, k)) == Some(layers_view(out@)),
        decreases rest.len(),
    {
        let ghost pre = rest@;
        let vh = rest.remove(0);
        proof {
            assert(rest@ =~= pre.skip(1));
            assert(pre[0] == items0[k]);
            assert(source@.subrange(0, k + 1).drop_last() =~= source@.subrange(0, k));
            assert(source@.subrange(0, k + 1).last() == source@[k]);
        }
        match parse_layer(vh) {
            Ok(l) => {
                out.push(l);
                proof {
                    assert(layers_view(out@) =~= layers_view(out@.drop_last()).push(
                        layer_view(out@.last()),
                    ));
                    k = k + 1;
                }
            },
            Err(e) => {
                proof {
                    assert(spec_parse_layers(source@.subrange(0, k + 1)) is None);
                    lemma_parse_layers_none(source@, k + 1);
                }
                return Err(e);
            },
        }
    }
    proof {
        assert(k == source@.len());
        assert(source@.subrange(0, k) =~= source@);
    }
    Ok(out)
}

fn parse_capture(vh: crate::config::ValueHandle<'_>) -> (r: TableResult<Capture>)
    ensures
        match r {
            Ok(c) => spec_parse_capture(*vh.value) == Some(capture_view(c)),
            Err(_) => spec_parse_capture(*vh.value) is None,
        },
{
    let ct = vh.to_potential().expect_table()?;
    let capture = ct.get("capture").expect_string()?.clone();
    let escape = get_opt_text(&ct, "escape")?;
    let lv = ct.get("layers");
    let ghost lsource: Seq<ConfigValue> = match lv.value {
        Some(v) => match v {
            ConfigValue::List(items) => items@,
            _ => Seq::empty(),
        },
        None => Seq::empty(),
    };
    let handles = lv.expect_array()?;
    let layers = parse_layer_list(handles, Ghost(lsource))?;
    Ok(Capture { capture, escape, layers })
}

fn parse_capture_list(handles: Vec<crate::config::ValueHandle<'_>>, source: Ghost<Seq<ConfigValue>>)
    -> (r: TableResult<Vec<Capture>>)
    requires
        handles@.len() == source@.len(),
        forall|i: int| 0 <= i < handles@.len() ==> *handles@[i].value == source@[i],
    ensures
        match r {
            Ok(v) => spec_parse_captures(source@) == Some(captures_view(v@)),
            Err(_) => spec_parse_captures(source@) is None,
        },
{
    let ghost items0 = handles@;
    let mut rest = handles;
    let mut out: Vec<Capture> = Vec::new();
    let ghost mut k: int = 0;
    while rest.len() > 0
        invariant
            0 <= k <= source@.len(),
            items0.len() == source@.len(),
            forall|i: int| 0 <= i < items0.len() ==> *items0[i].value == source@[i],
            rest@ =~= items0.skip(k),
            spec_parse_captures(source@.subrange(0, k)) == Some(captures_view(out@)),
        decreases rest.len(),
    {
        let ghost pre = rest@;
        let vh = rest.remove(0);
        proof {
            assert(rest@ =~= pre.skip(1));
            assert(pre[0] == items0[k]);
            assert(source@.subrange(0, k + 1).drop_last() =~= source@.subrange(0, k));
            assert(source@.subrange(0, k + 1).last() == source@[k]);
        }
        match parse_capture(vh) {
            Ok(c) => {
                out.push(c);
                proof {
                    assert(captures_view(out@) =~= captures_view(out@.drop_last()).push(
                        capture_view(out@.last()),
                    ));
                    k = k + 1;
                }
            },
            Err(e) => {
                proof {
                    assert(spec_parse_captures(source@.subrange(0, k + 1)) is None);
                    lemma_parse_captures_none(source@, k + 1);
                }
                return Err(e);
            },
        }
    }
    proof {
        assert(k == source@.len());
        assert(source@.subrange(0, k) =~= source@);
    }
    Ok(out)
}

fn parse_group(vh: crate::config::ValueHandle<'_>) -> (r: TableResult<Group>)
    ensures
        match r {
            Ok(g) => spec_parse_group(*vh.value) == Some(group_view(g)),
            Err(_) => spec_parse_group(*vh.value) is None,
        },
{
    let gt = vh.to_potential().expect_table()?;
    let fv = gt.get("files");
    let ghost fsource: Seq<ConfigValue> = match fv.value {
        Some(v) => match v {
            ConfigValue::List(items) => items@,
            _ => Seq::empty(),
        },
        None => Seq::empty(),
    };
    let fhandles = fv.expect_array()?;
    let files = get_text_list(fhandles, Ghost(fsource))?;
    let axbind_filename = gt.get("axbind_filename").expect_string()?.clone();
    let cv = gt.get("captures");
    let ghost csource: Seq<ConfigValue> = match cv.value {
        Some(v) => match v {
            ConfigValue::List(items) => items@,
            _ => Seq::empty(),
        },
        None => Seq::empty(),
    };
    let chandles = cv.expect_array()?;
    let captures = parse_capture_list(chandles, Ghost(csource))?;
    Ok(Group { files, axbind_filename, captures })
}

impl BindFile {
    /// The binding specification a table describes, at view level: an
    /// optional `meta` settings table and a required `groups` list.
    pub open spec fn spec_parse(t: ConfigTable) -> Option<(Option<MetaOpts>, Seq<GroupView>)> {
        match spec_opt_meta(t) {
            Some(meta) => match spec_table_get(t.entries@, "groups"@) {
                Some(gv) => match gv {
                    ConfigValue::List(items) => match spec_parse_groups(items@) {
                        Some(gs) => Some((meta, gs)),
                        None => None,
                    },
                    _ => None,
                },
                None => None,
            },
            None => None,
        }
    }

    /// Extracts the binding specification that `spec_parse` describes.
    pub fn from_table(handle: &TableHandle<'_>, source_path: String) -> (r: TableResult<BindFile>)
        ensures
            match r {
                Ok(b) => BindFile::spec_parse(*handle.table) == Some((b.meta, groups_view(b.groups@)))
                    && b.source_path == source_path,
                Err(_) => BindFile::spec_parse(*handle.table) is None,
            },
    {
        let meta = get_opt_meta(handle)?;
        let gv = handle.get("groups");
        let ghost gsource: Seq<ConfigValue> = match gv.value {
            Some(v) => match v {
                ConfigValue::List(items) => items@,
                _ => Seq::empty(),
            },
            None => Seq::empty(),
        };
        let ghandles = gv.expect_array()?;
        let ghost items0 = ghandles@;
        let mut rest = ghandles;
        let mut groups: Vec<Group> = Vec::new();
        let ghost mut k: int = 0;
        while rest.len() > 0
            invariant
                0 <= k <= gsource.len(),
                items0.len() == gsource.len(),
                forall|i: int| 0 <= i < items0.len() ==> *items0[i].value == gsource[i],
                rest@ =~= items0.skip(k),
                spec_parse_groups(gsource.subrange(0, k)) == Some(groups_view(groups@)),
                BindFile::spec_parse(*handle.table) == (match spec_parse_groups(gsource) {
                    Some(gs) => Some((meta, gs)),
                    None => None,
                }),
            decreases rest.len(),
        {
            let ghost pre = rest@;
            let vh = rest.remove(0);
            proof {
                assert(rest@ =~= pre.skip(1));
                assert(pre[0] == items0[k]);
                assert(gsource.subrange(0, k + 1).drop_last() =~= gsource.subrange(0, k));
                assert(gsource.subrange(0, k + 1).last() == gsource[k]);
            }
            match parse_group(vh) {
                Ok(g) => {
                    groups.push(g);
                    proof {
                        assert(groups_view(groups@) =~= groups_view(groups@.drop_last()).push(
                            group_view(groups@.last()),
                        ));
                        k = k + 1;
                    }
                },
                Err(e) => {
                    proof {
                        assert(spec_parse_groups(gsource.subrange(0, k + 1)) is None);
                        lemma_parse_groups_none(gsource, k + 1);
                    }
                    return Err(e);
                },
            }
        }
        proof {
            assert(k == gsource.len());
            assert(gsource.subrange(0, k) =~= gsource);
        }
        Ok(BindFile { meta, groups, source_path })
    }
}

impl FromFile for BindFile {
    fn from_table(table: &ConfigTable, source_path: String) -> Result<Self, TableGetError> {
        let handle = TableHandle::new_root(table, source_path.clone());
        BindFile::from_table(&handle, source_path)
    }

    fn source(&self) -> &String {
        &self.source_path
    }
}

impl FromFile for MapFile {
    fn from_table(table: &ConfigTable, source_path: String) -> Result<Self, TableGetError> {
        let handle = TableHandle::new_root(table, source_path.clone());
        MapFile::from_table(&handle, source_path)
    }

    fn source(&self) -> &String {
        &self.source_path
    }
}

impl FromFile for FunctionFile {
    fn from_table(table: &ConfigTable, source_path: String) -> Result<Self, TableGetError> {
        let handle = TableHandle::new_root(table, source_path.clone());
        FunctionFile::from_table(&handle, source_path)
    }

    fn source(&self) -> &String {
        &self.source_path
    }
}


} // verus!
