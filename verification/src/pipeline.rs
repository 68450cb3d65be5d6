//! Binding pipeline executor: threads a captured fragment through its
//! ordered layer list, consulting the definition cache for maps and
//! functions, dispatching built-in transforms itself and describing
//! external commands for the caller to run, then applies the effective
//! escape setting. A failure is recorded per capture and never aborts
//! sibling captures.

use vstd::prelude::*;
use crate::context::Context;
use crate::errors::{BindError, ExecutionError, ResolutionError};
use crate::filebase::Filebase;
use crate::maps::{resolve_key, spec_lookup, MapLookup, SpecLookup};
use crate::overlay::OptWrite;
use crate::schema::{
    BindFile, Capture, CommandFunction, Function, FunctionFile, FunctionPipeline, Layer, MapFile,
    MetaOpts,
};
use crate::text::{chars_to_string, chars_vec, lower, reverse, spec_lower, spec_upper, str_eq, upper};

verus! {

/// The views of an argument list.
pub open spec fn arg_views(args: Seq<String>) -> Seq<Seq<char>> {
    args.map_values(|s: String| s@)
}

/// The argument selected by a placeholder; out of range selects empty.
pub open spec fn arg_at(args: Seq<Seq<char>>, i: int) -> Seq<char> {
    if 0 <= i < args.len() {
        args[i]
    } else {
        Seq::empty()
    }
}

/// Which argument a placeholder digit selects (`%1` is the first).
pub open spec fn spec_digit_index(c: char) -> Option<int> {
    match c {
        '1' => Some(0),
        '2' => Some(1),
        '3' => Some(2),
        '4' => Some(3),
        '5' => Some(4),
        '6' => Some(5),
        '7' => Some(6),
        '8' => Some(7),
        '9' => Some(8),
        _ => None,
    }
}

/// Template substitution: `%0` is the capture text, `%1` through `%9`
/// the positional arguments (absent ones empty), `%%` a literal
/// percent sign; anything else is copied verbatim.
pub open spec fn spec_subst(fmt: Seq<char>, text: Seq<char>, args: Seq<Seq<char>>) -> Seq<char>
    decreases fmt.len(),
{
    if fmt.len() == 0 {
        Seq::empty()
    } else if fmt[0] == '%' && fmt.len() >= 2 {
        if fmt[1] == '%' {
            seq!['%'] + spec_subst(fmt.skip(2), text, args)
        } else if fmt[1] == '0' {
            text + spec_subst(fmt.skip(2), text, args)
        } else {
            match spec_digit_index(fmt[1]) {
                Some(i) => arg_at(args, i) + spec_subst(fmt.skip(2), text, args),
                None => seq![fmt[0], fmt[1]] + spec_subst(fmt.skip(2), text, args),
            }
        }
    } else {
        seq![fmt[0]] + spec_subst(fmt.skip(1), text, args)
    }
}

fn digit_index(c: char) -> (r: Option<usize>)
    ensures
        match r {
            Some(i) => spec_digit_index(c) == Some(i as int),
            None => spec_digit_index(c) is None,
        },
{
    match c {
        '1' => Some(0),
        '2' => Some(1),
        '3' => Some(2),
        '4' => Some(3),
        '5' => Some(4),
        '6' => Some(5),
        '7' => Some(6),
        '8' => Some(7),
        '9' => Some(8),
        _ => None,
    }
}

fn extend_chars(out: &mut Vec<char>, s: &str)
    ensures
        final(out)@ == old(out)@ + s@,
{
    let n = s.unicode_len();
    let mut i: usize = 0;
    while i < n
        invariant
            n == s@.len(),
            i <= n,
            out@ =~= old(out)@ + s@.subrange(0, i as int),
        decreases n - i,
    {
        out.push(s.get_char(i));
        proof {
            assert(s@.subrange(0, i + 1 as int) =~= s@.subrange(0, i as int).push(s@[i as int]));
        }
        i = i + 1;
    }
    assert(out@ =~= old(out)@ + s@);
}

/// Instantiates a template against the capture text and arguments.
pub fn subst(fmt: &str, text: &str, args: &Vec<String>) -> (r: String)
    ensures
        r@ == spec_subst(fmt@, text@, arg_views(args@)),
{
    let f = chars_vec(fmt);
    let ghost av = arg_views(args@);
    let mut out: Vec<char> = Vec::new();
    let mut i: usize = 0;
    proof {
        assert(fmt@.skip(0) =~= fmt@);
    }
    while i < f.len()
        invariant
            f@ == fmt@,
            av == arg_views(args@),
            i <= f.len(),
            spec_subst(fmt@, text@, av) == out@ + spec_subst(fmt@.skip(i as int), text@, av),
        decreases f.len() - i,
    {
        let ghost pre = out@;
        let c = f[i];
        if c == '%' && i + 1 < f.len() {
            let d = f[i + 1];
            if d == '%' {
                out.push('%');
            } else if d == '0' {
                extend_chars(&mut out, text);
            } else {
                match digit_index(d) {
                    Some(k) => {
                        if k < args.len() {
                            extend_chars(&mut out, args[k].as_str());
                            proof {
                                assert(arg_views(args@)[k as int] == args@[k as int]@);
                            }
                        } else {
                            assert(arg_at(av, k as int) =~= Seq::<char>::empty());
                        }
                    },
                    None => {
                        out.push(c);
                        out.push(d);
                        assert(out@ =~= pre + seq![fmt@[i as int], fmt@[i + 1 as int]]);
                    },
                }
            }
            proof {
                assert(fmt@.skip(i as int)[0] == fmt@[i as int]);
                assert(fmt@.skip(i as int)[1] == fmt@[i + 1 as int]);
                assert(fmt@.skip(i as int).skip(2) =~= fmt@.skip(i + 2 as int));
                assert(spec_subst(fmt@, text@, av) =~= out@ + spec_subst(
                    fmt@.skip(i + 2 as int),
                    text@,
                    av,
                ));
            }
            i = i + 2;
        } else {
            out.push(c);
            proof {
                assert(fmt@.skip(i as int)[0] == fmt@[i as int]);
                assert(fmt@.skip(i as int).skip(1) =~= fmt@.skip(i + 1 as int));
                assert(spec_subst(fmt@, text@, av) =~= out@ + spec_subst(
                    fmt@.skip(i + 1 as int),
                    text@,
                    av,
                ));
            }
            i = i + 1;
        }
    }
    proof {
        assert(fmt@.skip(f@.len() as int) =~= Seq::<char>::empty());
        assert(spec_subst(fmt@, text@, av) =~= out@);
    }
    chars_to_string(&out)
}

/// Removing escape markers: each occurrence of the (non-empty) escape
/// string is dropped and the character after it is kept verbatim; an
/// empty escape setting leaves the text unchanged.
pub open spec fn spec_unescape(text: Seq<char>, esc: Seq<char>) -> Seq<char>
    decreases text.len(),
{
    if esc.len() == 0 {
        text
    } else if text.len() == 0 {
        Seq::empty()
    } else if text.len() >= esc.len() && text.subrange(0, esc.len() as int) == esc {
        if text.len() == esc.len() {
            Seq::empty()
        } else {
            seq![text[esc.len() as int]] + spec_unescape(text.skip(esc.len() as int + 1), esc)
        }
    } else {
        seq![text[0]] + spec_unescape(text.skip(1), esc)
    }
}

fn matches_at(t: &Vec<char>, i: usize, pat: &Vec<char>) -> (r: bool)
    requires
        i <= t@.len(),
    ensures
        r == (i + pat@.len() <= t@.len() && t@.subrange(i as int, i + pat@.len()) == pat@),
{
    if t.len() - i < pat.len() {
        return false;
    }
    let mut j: usize = 0;
    while j < pat.len()
        invariant
            i + pat@.len() <= t@.len(),
            t@.len() <= usize::MAX,
            j <= pat@.len(),
            forall|k: int| 0 <= k < j ==> t@[i + k] == pat@[k],
        decreases pat.len() - j,
    {
        if t[i + j] != pat[j] {
            proof {
                assert(t@.subrange(i as int, i + pat@.len())[j as int] == t@[i + j]);
            }
            return false;
        }
        j = j + 1;
    }
    proof {
        assert(t@.subrange(i as int, i + pat@.len()) =~= pat@);
    }
    true
}

/// Applies an escape setting to final text.
pub fn unescape(text: &str, escape: &str) -> (r: String)
    ensures
        r@ == spec_unescape(text@, escape@),
{
    let t = chars_vec(text);
    let e = chars_vec(escape);
    if e.len() == 0 {
        return text.to_owned();
    }
    let mut out: Vec<char> = Vec::new();
    let mut i: usize = 0;
    proof {
        assert(text@.skip(0) =~= text@);
    }
    while i < t.len()
        invariant
            t@ == text@,
            e@ == escape@,
            e@.len() >= 1,
            i <= t.len(),
            spec_unescape(text@, escape@) == out@ + spec_unescape(text@.skip(i as int), escape@),
        decreases t.len() - i,
    {
        proof {
            assert(text@.skip(i as int).len() == text@.len() - i);
        }
        if matches_at(&t, i, &e) {
            proof {
                assert(text@.skip(i as int).subrange(0, escape@.len() as int) =~= text@.subrange(
                    i as int,
                    i + escape@.len(),
                ));
            }
            if i + e.len() < t.len() {
                out.push(t[i + e.len()]);
                proof {
                    assert(text@.skip(i as int)[escape@.len() as int] == text@[i + escape@.len()]);
                    assert(text@.skip(i as int).skip(escape@.len() as int + 1) =~= text@.skip(
                        i + escape@.len() + 1,
                    ));
                    assert(spec_unescape(text@, escape@) =~= out@ + spec_unescape(
                        text@.skip(i + escape@.len() + 1),
                        escape@,
                    ));
                }
                i = i + e.len() + 1;
            } else {
                proof {
                    assert(text@.skip(i as int).len() == escape@.len());
                    assert(text@.skip(t@.len() as int) =~= Seq::<char>::empty());
                    assert(spec_unescape(text@, escape@) =~= out@ + spec_unescape(
                        text@.skip(t@.len() as int),
                        escape@,
                    ));
                }
                i = t.len();
            }
        } else {
            out.push(t[i]);
            proof {
                if i + escape@.len() <= text@.len() {
                    assert(text@.skip(i as int).subrange(0, escape@.len() as int) =~= text@.subrange(
                        i as int,
                        i + escape@.len(),
                    ));
                }
                assert(text@.skip(i as int)[0] == text@[i as int]);
                assert(text@.skip(i as int).skip(1) =~= text@.skip(i + 1 as int));
                assert(spec_unescape(text@, escape@) =~= out@ + spec_unescape(
                    text@.skip(i + 1 as int),
                    escape@,
                ));
            }
            i = i + 1;
        }
    }
    proof {
        assert(text@.skip(t@.len() as int) =~= Seq::<char>::empty());
        assert(spec_unescape(text@, escape@) =~= out@);
    }
    chars_to_string(&out)
}

/// The fixed dispatch table of built-in transforms: `upper`, `lower`,
/// `reverse`, `prefix` and `suffix` (the latter two take their affix
/// from the first argument). Any other name is unknown.
pub open spec fn spec_internal(name: Seq<char>, args: Seq<Seq<char>>, text: Seq<char>) -> Option<
    Seq<char>,
> {
    if name == "upper"@ {
        Some(spec_upper(text))
    } else if name == "lower"@ {
        Some(spec_lower(text))
    } else if name == "reverse"@ {
        Some(text.reverse())
    } else if name == "prefix"@ {
        Some(arg_at(args, 0) + text)
    } else if name == "suffix"@ {
        Some(text + arg_at(args, 0))
    } else {
        None
    }
}

/// Runs a built-in transform; `None` means the name is unknown.
pub fn apply_internal(name: &str, args: &Vec<String>, text: &str) -> (r: Option<String>)
    ensures
        match r {
            Some(s) => spec_internal(name@, arg_views(args@), text@) == Some(s@),
            None => spec_internal(name@, arg_views(args@), text@) is None,
        },
{
    if str_eq(name, "upper") {
        Some(upper(text))
    } else if str_eq(name, "lower") {
        Some(lower(text))
    } else if str_eq(name, "reverse") {
        Some(reverse(text))
    } else if str_eq(name, "prefix") {
        let mut s = if args.len() > 0 {
            args[0].clone()
        } else {
            String::new()
        };
        s.append(text);
        proof {
            assert(s@ =~= arg_at(arg_views(args@), 0) + text@);
        }
        Some(s)
    } else if str_eq(name, "suffix") {
        let mut s = text.to_owned();
        if args.len() > 0 {
            s.append(args[0].as_str());
        }
        proof {
            assert(s@ =~= text@ + arg_at(arg_views(args@), 0));
        }
        Some(s)
    } else {
        None
    }
}

/// The base argument list of a function layer: the layer's own
/// arguments when given, else the function's declared defaults, else
/// none.
pub open spec fn spec_base_args(
    layer_args: Option<Vec<String>>,
    default_args: Option<Vec<String>>,
) -> Seq<Seq<char>> {
    match layer_args {
        Some(a) => arg_views(a@),
        None => match default_args {
            Some(a) => arg_views(a@),
            None => Seq::empty(),
        },
    }
}

fn clone_string_vec(v: &Vec<String>) -> (r: Vec<String>)
    ensures
        r@ == v@,
{
    let mut r: Vec<String> = Vec::new();
    let mut i: usize = 0;
    while i < v.len()
        invariant
            i <= v.len(),
            r@ =~= v@.subrange(0, i as int),
        decreases v.len() - i,
    {
        r.push(v[i].clone());
        i = i + 1;
    }
    assert(r@ =~= v@);
    r
}

fn build_base_args(layer_args: &Option<Vec<String>>, default_args: &Option<Vec<String>>) -> (r: Vec<
    String,
>)
    ensures
        arg_views(r@) == spec_base_args(*layer_args, *default_args),
{
    match layer_args {
        Some(a) => clone_string_vec(a),
        None => match default_args {
            Some(a) => clone_string_vec(a),
            None => {
                let r: Vec<String> = Vec::new();
                proof {
                    assert(arg_views(r@) =~= Seq::<Seq<char>>::empty());
                }
                r
            },
        },
    }
}

/// The settings a function file contributes to the overlay: its own
/// when declared, else the all-absent record.
pub open spec fn spec_fn_meta(f: FunctionFile) -> MetaOpts {
    match f.meta {
        Some(m) => m,
        None => MetaOpts { escape: None, proxy: None },
    }
}

/// The argument list handed to an external command: the base list, or,
/// when the function declares parameters with a format, the single
/// instantiated format string.
pub open spec fn spec_command_args(
    f: Function,
    layer_args: Option<Vec<String>>,
    cmd: CommandFunction,
    text: Seq<char>,
) -> Seq<Seq<char>> {
    let base = spec_base_args(layer_args, cmd.args);
    match (f.parameters, f.parameter_format) {
        (Some(_), Some(fmt)) => seq![spec_subst(fmt@, text, base)],
        _ => base,
    }
}

/// What the command reads on stdin: the instantiated stdin template,
/// or the bare capture text when none is declared.
pub open spec fn spec_command_stdin(
    cmd: CommandFunction,
    text: Seq<char>,
    base: Seq<Seq<char>>,
) -> Seq<char> {
    match cmd.stdin {
        Some(t) => spec_subst(t@, text, base),
        None => text,
    }
}

fn clone_opt_string(o: &Option<String>) -> (r: Option<String>)
    ensures
        r == *o,
{
    match o {
        Some(s) => Some(s.clone()),
        None => None,
    }
}

/// Where a capture stands in its pipeline.
pub enum Phase {
    /// Layers remain and the next one can be attempted.
    Running,
    /// An external command was described; its outcome must be fed back.
    AwaitingCommand,
    /// All layers applied; the result can be collected.
    Done,
    /// A capture-local failure was recorded.
    Failed,
}

/// What one step of the executor asks of its caller.
pub enum StepStatus {
    /// One layer was applied; step again.
    Advanced,
    /// Load this map definition into the cache, then step again.
    NeedsMap { identifier: String },
    /// Load this function definition into the cache, then step again.
    NeedsFunction { identifier: String },
    /// Run this external command and report its outcome.
    RunCommand { binary: String, args: Vec<String>, stdin: String },
    /// All layers are applied.
    Finished,
    /// The capture failed; the error is recorded on the pipeline.
    Failed,
}

/// The executor state for one extracted fragment.
pub struct CapturePipeline<'a> {
    /// The layers to apply, in declared order.
    pub layers: &'a Vec<Layer>,
    /// How many layers have been applied.
    pub index: usize,
    /// The text threaded through the layers so far.
    pub text: String,
    /// The accumulated overlay of enclosing scopes' settings, function
    /// scopes merged in as their layers are reached.
    pub opts: MetaOpts,
    /// The capture's own escape override, merged in last.
    pub escape_override: &'a Option<String>,
    /// Where this capture stands in its configuration, carried into
    /// every located failure it reports.
    pub context: Context,
    /// The binary of the command being awaited.
    pub awaiting_binary: Option<String>,
    pub phase: Phase,
    /// The failure, exactly when the phase is failed.
    pub error: Option<BindError>,
}

impl<'a> CapturePipeline<'a> {
    pub open spec fn wf(&self) -> bool {
        &&& self.index <= self.layers@.len()
        &&& (self.phase is Failed <==> self.error is Some)
        &&& (self.phase is AwaitingCommand ==> self.index < self.layers@.len()
            && self.awaiting_binary is Some)
    }

    /// The escape setting in force after all scopes are merged: the
    /// accumulated scopes overridden by the capture's own setting.
    pub open spec fn spec_effective_escape(&self) -> Option<String> {
        self.opts.merged(MetaOpts { escape: *self.escape_override, proxy: None }).escape
    }

    /// A fresh pipeline for one extracted fragment of a capture, under
    /// the given enclosing-scope settings; `context` locates the
    /// capture in its configuration for failure reports.
    pub fn new(text: String, capture: &'a Capture, global: &MetaOpts, context: Context) -> (p:
        CapturePipeline<'a>)
        ensures
            p.wf(),
            p.layers@ == capture.layers@,
            p.index == 0,
            p.text == text,
            p.opts == *global,
            *p.escape_override == capture.escape,
            p.context@ == context@,
            p.phase is Running,
            p.error is None,
    {
        CapturePipeline {
            layers: &capture.layers,
            index: 0,
            text,
            opts: global.duplicate(),
            escape_override: &capture.escape,
            context,
            awaiting_binary: None,
            phase: Phase::Running,
            error: None,
        }
    }

    /// Attempts the next layer. Layers are consumed strictly in
    /// declared order: each step acts on the layer at `index` alone and
    /// the text it produces is the input of the next.
    pub fn step(&mut self, maps: &Filebase<MapFile>, functions: &Filebase<FunctionFile>) -> (st:
        StepStatus)
        requires
            old(self).wf(),
            old(self).phase is Running,
            maps.wf(),
            functions.wf(),
        ensures
            final(self).wf(),
            final(self).layers@ == old(self).layers@,
            final(self).escape_override == old(self).escape_override,
            final(self).context@ == old(self).context@,
            match st {
                StepStatus::Finished => {
                    &&& old(self).index == old(self).layers@.len()
                    &&& final(self).phase is Done
                    &&& final(self).index == old(self).index
                    &&& final(self).text == old(self).text
                    &&& final(self).opts == old(self).opts
                    &&& final(self).error is None
                },
                StepStatus::Advanced => {
                    &&& old(self).index < old(self).layers@.len()
                    &&& final(self).index == old(self).index + 1
                    &&& final(self).phase is Running
                    &&& final(self).error is None
                    &&& match old(self).layers@[old(self).index as int] {
                        Layer::Mapping(ml) => {
                            &&& spec_lookup(maps.contents(), ml.map@, old(self).text@, Set::empty())
                                == SpecLookup::Found(final(self).text@)
                            &&& final(self).opts == old(self).opts
                        },
                        Layer::Function(fl) => {
                            &&& functions.contents().dom().contains(fl.function@)
                            &&& {
                                let f = functions.contents().index(fl.function@);
                                &&& final(self).opts == old(self).opts.merged(spec_fn_meta(f))
                                &&& f.function.pipeline matches FunctionPipeline::Internal(intf)
                                    && spec_internal(
                                    intf.internal@,
                                    spec_base_args(fl.args, intf.args),
                                    old(self).text@,
                                ) == Some(final(self).text@)
                            }
                        },
                    }
                },
                StepStatus::NeedsMap { identifier } => {
                    &&& *final(self) == *old(self)
                    &&& old(self).index < old(self).layers@.len()
                    &&& old(self).layers@[old(self).index as int] matches Layer::Mapping(ml)
                        && spec_lookup(maps.contents(), ml.map@, old(self).text@, Set::empty())
                        == SpecLookup::NeedsMap(identifier@)
                },
                StepStatus::NeedsFunction { identifier } => {
                    &&& *final(self) == *old(self)
                    &&& old(self).index < old(self).layers@.len()
                    &&& old(self).layers@[old(self).index as int] matches Layer::Function(fl)
                        && fl.function@ == identifier@ && functions.needs_load(fl.function@)
                },
                StepStatus::RunCommand { binary, args, stdin } => {
                    &&& old(self).index < old(self).layers@.len()
                    &&& final(self).index == old(self).index
                    &&& final(self).text == old(self).text
                    &&& final(self).phase is AwaitingCommand
                    &&& final(self).error is None
                    &&& old(self).layers@[old(self).index as int] matches Layer::Function(fl)
                        && functions.contents().dom().contains(fl.function@) && {
                        let f = functions.contents().index(fl.function@);
                        &&& final(self).opts == old(self).opts.merged(spec_fn_meta(f))
                        &&& f.function.pipeline matches FunctionPipeline::Command(cmd)
                            && binary@ == cmd.binary@ && (final(self).awaiting_binary matches Some(
                            b,
                        ) && b@ == cmd.binary@) && arg_views(args@)
                            == spec_command_args(f.function, fl.args, cmd, old(self).text@)
                            && stdin@ == spec_command_stdin(
                            cmd,
                            old(self).text@,
                            spec_base_args(fl.args, cmd.args),
                        )
                    }
                },
                StepStatus::Failed => {
                    &&& old(self).index < old(self).layers@.len()
                    &&& final(self).index == old(self).index
                    &&& final(self).text == old(self).text
                    &&& final(self).phase is Failed
                    &&& final(self).error matches Some(e) && match old(self).layers@[old(
                        self,
                    ).index as int] {
                        Layer::Mapping(ml) => match spec_lookup(
                            maps.contents(),
                            ml.map@,
                            old(self).text@,
                            Set::empty(),
                        ) {
                            SpecLookup::Missing => e matches BindError::Resolution {
                                context,
                                error,
                            } && context@ == old(self).context@ && (
                            error matches ResolutionError::NoSuchMapping { map, key } && map@
                                == ml.map@ && key@ == old(self).text@),
                            SpecLookup::CycleAt(x) => e matches BindError::Resolution {
                                context,
                                error,
                            } && context@ == old(self).context@ && (
                            error matches ResolutionError::CyclicInclusion { map } && map@ == x),
                            _ => false,
                        },
                        Layer::Function(fl) => {
                            &&& functions.contents().dom().contains(fl.function@)
                            &&& {
                                let f = functions.contents().index(fl.function@);
                                f.function.pipeline matches FunctionPipeline::Internal(intf)
                                    && spec_internal(
                                    intf.internal@,
                                    spec_base_args(fl.args, intf.args),
                                    old(self).text@,
                                ) is None && (e matches BindError::Execution {
                                    context,
                                    error,
                                } && context@ == old(self).context@ && (
                                error matches ExecutionError::UnknownInternal { name } && name@
                                    == intf.internal@))
                            }
                        },
                    }
                },
            },
    {
        if self.index >= self.layers.len() {
            self.phase = Phase::Done;
            return StepStatus::Finished;
        }
        let layers_ref = self.layers;
        let layer = &layers_ref[self.index];
        match layer {
            Layer::Mapping(ml) => {
                let r = resolve_key(maps, ml.map.as_str(), self.text.as_str());
                match r {
                    MapLookup::Found(v) => {
                        self.text = v;
                        self.index = self.index + 1;
                        StepStatus::Advanced
                    },
                    MapLookup::Missing => {
                        self.error = Some(
                            BindError::Resolution {
                                context: self.context.duplicate(),
                                error: ResolutionError::NoSuchMapping {
                                    map: ml.map.clone(),
                                    key: self.text.clone(),
                                },
                            },
                        );
                        self.phase = Phase::Failed;
                        StepStatus::Failed
                    },
                    MapLookup::NeedsMap(x) => StepStatus::NeedsMap { identifier: x },
                    MapLookup::CycleAt(x) => {
                        self.error = Some(
                            BindError::Resolution {
                                context: self.context.duplicate(),
                                error: ResolutionError::CyclicInclusion { map: x },
                            },
                        );
                        self.phase = Phase::Failed;
                        StepStatus::Failed
                    },
                }
            },
            Layer::Function(fl) => {
                let f = match functions.query(fl.function.as_str()) {
                    Ok(f) => f,
                    Err(miss) => {
                        return StepStatus::NeedsFunction { identifier: miss.identifier };
                    },
                };
                let fmeta = match &f.meta {
                    Some(m) => m.duplicate(),
                    None => MetaOpts { escape: None, proxy: None },
                };
                let new_opts = self.opts.duplicate().overriden_by(fmeta);
                match &f.function.pipeline {
                    FunctionPipeline::Internal(intf) => {
                        let args = build_base_args(&fl.args, &intf.args);
                        match apply_internal(intf.internal.as_str(), &args, self.text.as_str()) {
                            Some(out) => {
                                self.opts = new_opts;
                                self.text = out;
                                self.index = self.index + 1;
                                StepStatus::Advanced
                            },
                            None => {
                                self.error = Some(
                                    BindError::Execution {
                                        context: self.context.duplicate(),
                                        error: ExecutionError::UnknownInternal {
                                            name: intf.internal.clone(),
                                        },
                                    },
                                );
                                self.phase = Phase::Failed;
                                StepStatus::Failed
                            },
                        }
                    },
                    FunctionPipeline::Command(cmd) => {
                        let base = build_base_args(&fl.args, &cmd.args);
                        let stdin = match &cmd.stdin {
                            Some(t) => subst(t.as_str(), self.text.as_str(), &base),
                            None => self.text.clone(),
                        };
                        let has_params = match &f.function.parameters {
                            Some(_) => true,
                            None => false,
                        };
                        let args_final = if has_params {
                            match &f.function.parameter_format {
                                Some(fmt) => {
                                    let one = subst(fmt.as_str(), self.text.as_str(), &base);
                                    let mut v: Vec<String> = Vec::new();
                                    v.push(one);
                                    proof {
                                        assert(arg_views(v@) =~= spec_command_args(
                                            f.function,
                                            fl.args,
                                            *cmd,
                                            self.text@,
                                        ));
                                    }
                                    v
                                },
                                None => base,
                            }
                        } else {
                            base
                        };
                        self.opts = new_opts;
                        self.awaiting_binary = Some(cmd.binary.clone());
                        self.phase = Phase::AwaitingCommand;
                        StepStatus::RunCommand { binary: cmd.binary.clone(), args: args_final, stdin }
                    },
                }
            },
        }
    }

    /// Feeds back the outcome of the awaited command: its standard
    /// output becomes the next layer input on success; a non-zero exit
    /// is an execution error local to this capture.
    pub fn command_done(&mut self, stdout: String, success: bool)
        requires
            old(self).wf(),
            old(self).phase is AwaitingCommand,
        ensures
            final(self).wf(),
            final(self).layers@ == old(self).layers@,
            final(self).escape_override == old(self).escape_override,
            final(self).opts == old(self).opts,
            final(self).context@ == old(self).context@,
            success ==> final(self).phase is Running && final(self).index == old(self).index + 1
                && final(self).text == stdout && final(self).error is None,
            !success ==> final(self).phase is Failed && final(self).index == old(self).index
                && final(self).text == old(self).text && (final(self).error matches Some(e) && (
            e matches BindError::Execution { context, error } && context@ == old(self).context@
                && (error matches ExecutionError::CommandFailed { binary } && (old(
                self,
            ).awaiting_binary matches Some(b) && binary == b)))),
    {
        if success {
            let n = self.layers.len();
            assert(self.index < n);
            self.text = stdout;
            self.index = self.index + 1;
            self.awaiting_binary = None;
            self.phase = Phase::Running;
        } else {
            let binary = match &self.awaiting_binary {
                Some(b) => b.clone(),
                None => String::new(),
            };
            self.error = Some(
                BindError::Execution {
                    context: self.context.duplicate(),
                    error: ExecutionError::CommandFailed { binary },
                },
            );
            self.phase = Phase::Failed;
        }
    }

    /// Records that a definition this capture needs could not be
    /// loaded; the failure is local to this capture.
    pub fn load_failed(&mut self, error: BindError)
        requires
            old(self).wf(),
            old(self).phase is Running || old(self).phase is AwaitingCommand,
        ensures
            final(self).wf(),
            final(self).layers@ == old(self).layers@,
            final(self).escape_override == old(self).escape_override,
            final(self).opts == old(self).opts,
            final(self).context@ == old(self).context@,
            final(self).index == old(self).index,
            final(self).text == old(self).text,
            final(self).phase is Failed,
            final(self).error == Some(error),
    {
        self.error = Some(error);
        self.phase = Phase::Failed;
    }

    /// Collects the capture's outcome: the final text with the
    /// effective escape setting applied, or the recorded failure.
    pub fn finish(self) -> (r: Result<String, BindError>)
        requires
            self.wf(),
            self.phase is Done || self.phase is Failed,
        ensures
            match r {
                Ok(out) => self.phase is Done && match self.spec_effective_escape() {
                    Some(e) => out@ == spec_unescape(self.text@, e@),
                    None => out@ == self.text@,
                },
                Err(e) => self.phase is Failed && self.error == Some(e),
            },
    {
        match self.phase {
            Phase::Failed => match self.error {
                Some(e) => Err(e),
                None => vstd::pervasive::unreached(),
            },
            _ => {
                let esc = clone_opt_string(self.escape_override);
                let merged = self.opts.overriden_by(MetaOpts { escape: esc, proxy: None });
                match merged.escape {
                    Some(e) => Ok(unescape(self.text.as_str(), e.as_str())),
                    None => Ok(self.text),
                }
            },
        }
    }
}

/// The output a group writes: the successful captures' texts in
/// declared order, one line each; failed captures contribute nothing.
pub open spec fn spec_group_output(rs: Seq<Result<String, BindError>>) -> Seq<char>
    decreases rs.len(),
{
    if rs.len() == 0 {
        Seq::empty()
    } else {
        (match rs[0] {
            Ok(t) => t@ + "\n"@,
            Err(_) => Seq::empty(),
        }) + spec_group_output(rs.skip(1))
    }
}

/// The failures a group reports: every failed capture's error, in
/// declared order.
pub open spec fn spec_group_failures(rs: Seq<Result<String, BindError>>) -> Seq<BindError>
    decreases rs.len(),
{
    if rs.len() == 0 {
        Seq::empty()
    } else {
        (match rs[0] {
            Ok(_) => Seq::empty(),
            Err(e) => seq![e],
        }) + spec_group_failures(rs.skip(1))
    }
}

/// Assembles a group's output buffer and failure report from its
/// captures' outcomes, in declared order. A failed capture is recorded
/// and reported without disturbing the output of any other capture.
pub fn assemble_group_output(results: Vec<Result<String, BindError>>) -> (r: (String, Vec<
    BindError,
>))
    ensures
        r.0@ == spec_group_output(results@),
        r.1@ == spec_group_failures(results@),
{
    let ghost orig = results@;
    let mut rest = results;
    let mut out = String::new();
    let mut errs: Vec<BindError> = Vec::new();
    while rest.len() > 0
        invariant
            spec_group_output(orig) == out@ + spec_group_output(rest@),
            spec_group_failures(orig) == errs@ + spec_group_failures(rest@),
        decreases rest.len(),
    {
        let ghost pre = rest@;
        let item = rest.remove(0);
        proof {
            assert(rest@ =~= pre.skip(1));
        }
        match item {
            Ok(t) => {
                out.append(t.as_str());
                out.append("\n");
                proof {
                    assert(spec_group_output(orig) =~= out@ + spec_group_output(rest@));
                    assert(spec_group_failures(orig) =~= errs@ + spec_group_failures(rest@));
                }
            },
            Err(e) => {
                errs.push(e);
                proof {
                    assert(spec_group_output(orig) =~= out@ + spec_group_output(rest@));
                    assert(spec_group_failures(orig) =~= errs@ + spec_group_failures(rest@));
                }
            },
        }
    }
    proof {
        assert(spec_group_output(orig) =~= out@);
        assert(spec_group_failures(orig) =~= errs@);
    }
    (out, errs)
}


/// Group assembly distributes over concatenation of capture outcomes.
pub proof fn lemma_group_assembly_concat(
    a: Seq<Result<String, BindError>>,
    b: Seq<Result<String, BindError>>,
)
    ensures
        spec_group_output(a + b) == spec_group_output(a) + spec_group_output(b),
        spec_group_failures(a + b) == spec_group_failures(a) + spec_group_failures(b),
    decreases a.len(),
{
    if a.len() == 0 {
        assert(a + b =~= b);
        assert(spec_group_output(a) + spec_group_output(b) =~= spec_group_output(b));
        assert(spec_group_failures(a) + spec_group_failures(b) =~= spec_group_failures(b));
    } else {
        assert((a + b)[0] == a[0]);
        assert((a + b).skip(1) =~= a.skip(1) + b);
        lemma_group_assembly_concat(a.skip(1), b);
        assert(spec_group_output(a + b) =~= spec_group_output(a) + spec_group_output(b));
        assert(spec_group_failures(a + b) =~= spec_group_failures(a) + spec_group_failures(b));
    }
}

/// Partial-failure isolation: a failed capture — whether its failure is
/// a resolution error or a failed external command — contributes
/// nothing to the group's output and exactly its own error to the
/// report; the output and the other reported errors are exactly those
/// of the remaining captures, in their declared order. In particular, a
/// group whose other captures succeed still produces their output, with
/// exactly one error reported for the failed one.
pub proof fn lemma_partial_failure_isolation(
    rs: Seq<Result<String, BindError>>,
    i: int,
    e: BindError,
)
    requires
        0 <= i < rs.len(),
        rs[i] == Err::<String, BindError>(e),
    ensures
        spec_group_output(rs) == spec_group_output(rs.subrange(0, i)) + spec_group_output(
            rs.skip(i + 1),
        ),
        spec_group_failures(rs) == spec_group_failures(rs.subrange(0, i)) + seq![e]
            + spec_group_failures(rs.skip(i + 1)),
{
    let front = rs.subrange(0, i);
    let mid = seq![rs[i]];
    let back = rs.skip(i + 1);
    assert(rs =~= front + mid + back);
    lemma_group_assembly_concat(front + mid, back);
    lemma_group_assembly_concat(front, mid);
    let empty_rs = Seq::<Result<String, BindError>>::empty();
    assert(mid.skip(1) =~= empty_rs);
    assert(spec_group_output(empty_rs) =~= Seq::<char>::empty());
    assert(spec_group_failures(empty_rs) =~= Seq::<BindError>::empty());
    assert(mid[0] == Err::<String, BindError>(e));
    assert(spec_group_output(mid) =~= Seq::<char>::empty());
    assert(spec_group_failures(mid) =~= seq![e]);
    assert(spec_group_output(rs) =~= spec_group_output(front) + spec_group_output(back));
    assert(spec_group_failures(rs) =~= spec_group_failures(front) + seq![e]
        + spec_group_failures(back));
}

/// The settings the top of a binding file contributes: its global
/// record when declared, else the all-absent record.
pub open spec fn spec_global_opts(meta: Option<MetaOpts>) -> MetaOpts {
    match meta {
        Some(m) => m,
        None => MetaOpts { escape: None, proxy: None },
    }
}

/// One group's planned work: its output filename, its file patterns,
/// its capture rules, and the effective settings of the enclosing
/// scope.
pub struct GroupPlan<'a> {
    pub axbind_filename: &'a String,
    pub files: &'a Vec<String>,
    pub captures: &'a Vec<Capture>,
    pub opts: MetaOpts,
}

impl BindFile {
    /// Lays the file's groups out as a work plan: each group with its
    /// declared files, output name and captures, under the effective
    /// global settings. The caller resolves file patterns, extracts
    /// fragments, and drives a `CapturePipeline` per fragment.
    pub fn apply(&self) -> (plan: Vec<GroupPlan<'_>>)
        ensures
            plan@.len() == self.groups@.len(),
            forall|i: int|
                0 <= i < plan@.len() ==> {
                    &&& *(#[trigger] plan@[i]).axbind_filename == self.groups@[i].axbind_filename
                    &&& *plan@[i].files == self.groups@[i].files
                    &&& *plan@[i].captures == self.groups@[i].captures
                    &&& plan@[i].opts == spec_global_opts(self.meta)
                },
    {
        let global = match &self.meta {
            Some(m) => m.duplicate(),
            None => MetaOpts { escape: None, proxy: None },
        };
        let mut plan: Vec<GroupPlan<'_>> = Vec::new();
        let mut i: usize = 0;
        while i < self.groups.len()
            invariant
                i <= self.groups@.len(),
                plan@.len() == i,
                global == spec_global_opts(self.meta),
                forall|j: int|
                    0 <= j < i ==> {
                        &&& *(#[trigger] plan@[j]).axbind_filename == self.groups@[j].axbind_filename
                        &&& *plan@[j].files == self.groups@[j].files
                        &&& *plan@[j].captures == self.groups@[j].captures
                        &&& plan@[j].opts == spec_global_opts(self.meta)
                    },
            decreases self.groups.len() - i,
        {
            let g = &self.groups[i];
            plan.push(
                GroupPlan {
                    axbind_filename: &g.axbind_filename,
                    files: &g.files,
                    captures: &g.captures,
                    opts: global.duplicate(),
                },
            );
            i = i + 1;
        }
        plan
    }
}

} // verus!
