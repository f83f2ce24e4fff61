//! The topology compiler: expands macro-like transforms into subgraphs,
//! expands glob input patterns against the set of valid component names,
//! builds the dependency graph, and type-checks every edge, aggregating
//! every error of every phase before failing.

use vstd::prelude::*;

use crate::text::str_eq;
use crate::trusted::{glob_pattern_matches, glob_pattern_ok, spec_glob_match, spec_glob_pattern_ok};

verus! {

/// The kind of event stream a component consumes or produces.
#[derive(Clone, Copy, PartialEq, Eq, Structural, Debug)]
pub enum DataType {
    Any,
    Log,
    Metric,
}

impl DataType {
    /// Whether an upstream output of this type may feed a downstream
    /// input of type `input`.
    pub fn compatible_with(self, input: DataType) -> (r: bool)
        ensures
            r == spec_compatible(self, input),
    {
        match (self, input) {
            (DataType::Any, _) => true,
            (_, DataType::Any) => true,
            (DataType::Log, DataType::Log) => true,
            (DataType::Metric, DataType::Metric) => true,
            _ => false,
        }
    }
}

/// Edge compatibility: either side accepting anything accepts the other,
/// otherwise the stream kinds must agree.
pub open spec fn spec_compatible(output: DataType, input: DataType) -> bool {
    output is Any || input is Any || output == input
}

/// The identity of one component of the topology.
#[derive(Clone, PartialEq, Eq, Debug)]
pub struct ComponentKey {
    pub id: String,
}

impl ComponentKey {
    /// The key with the given name.
    pub fn named(id: &str) -> (k: ComponentKey)
        ensures
            k.id@ == id@,
    {
        ComponentKey { id: id.to_owned() }
    }
}

/// A named-port identity: a component, and possibly one of its named
/// output ports.
#[derive(Clone, PartialEq, Eq, Debug)]
pub struct OutputId {
    pub component: ComponentKey,
    pub port: Option<String>,
}

/// The text form of a port reference: `component` or `component.port`.
pub open spec fn spec_output_id_text(component: Seq<char>, port: Option<Seq<char>>) -> Seq<char> {
    match port {
        Some(p) => (component + "."@) + p,
        None => component,
    }
}

impl OutputId {
    /// The input string that refers to this output.
    pub fn to_text(&self) -> (r: String)
        ensures
            r@ == spec_output_id_text(
                self.component.id@,
                match self.port {
                    Some(ref p) => Some(p@),
                    None => None,
                },
            ),
    {
        match &self.port {
            Some(p) => self.component.id.clone().concat(".").concat(p.as_str()),
            None => self.component.id.clone(),
        }
    }
}

/// A source: what it produces, and the external resources it claims.
#[derive(Debug)]
pub struct SourceSpec {
    pub output_type: DataType,
    pub resources: Vec<String>,
}

/// One synthetic transform produced by a macro expansion.
#[derive(Debug)]
pub struct ChildTransform {
    pub input_type: DataType,
    pub output_type: DataType,
}

/// How an expansion wires its children.
#[derive(Clone, Copy, PartialEq, Eq, Structural, Debug)]
pub enum ExpandType {
    /// Every child reads the parent's original inputs.
    Parallel,
    /// Each child reads the previous child's output.
    Serial,
}

/// What a transform's macro expansion does, where it has one.
#[derive(Debug)]
pub enum Expansion {
    /// The transform rewrites itself into the named children.
    Expands(ExpandType, Vec<(String, ChildTransform)>),
    /// The expansion fails with this message.
    FailsWith(String),
}

/// A transform: its stream types, named output ports, and optional
/// macro expansion.
#[derive(Debug)]
pub struct TransformSpec {
    pub input_type: DataType,
    pub output_type: DataType,
    pub named_outputs: Vec<String>,
    pub expansion: Option<Expansion>,
}

/// A sink: what it consumes, and the external resources it claims.
#[derive(Debug)]
pub struct SinkSpec {
    pub input_type: DataType,
    pub resources: Vec<String>,
}

/// A transform with its not yet resolved input strings.
#[derive(Debug)]
pub struct TransformOuter {
    pub inputs: Vec<String>,
    pub inner: TransformSpec,
}

/// A sink with its not yet resolved input strings.
#[derive(Debug)]
pub struct SinkOuter {
    pub inputs: Vec<String>,
    pub inner: SinkSpec,
}

/// The declarative description of a topology, before compilation.
#[derive(Debug)]
pub struct ConfigBuilder {
    pub sources: Vec<(ComponentKey, SourceSpec)>,
    pub transforms: Vec<(ComponentKey, TransformOuter)>,
    pub sinks: Vec<(ComponentKey, SinkOuter)>,
}

impl ConfigBuilder {
    /// An empty topology.
    pub fn new() -> (b: ConfigBuilder)
        ensures
            b.sources@.len() == 0,
            b.transforms@.len() == 0,
            b.sinks@.len() == 0,
    {
        ConfigBuilder { sources: Vec::new(), transforms: Vec::new(), sinks: Vec::new() }
    }

    /// Add a source under the given name.
    pub fn add_source(&mut self, name: &str, source: SourceSpec)
        ensures
            final(self).sources@.len() == old(self).sources@.len() + 1,
            final(self).sources@.last().0.id@ == name@,
            final(self).sources@.last().1 == source,
            final(self).sources@.take(old(self).sources@.len() as int) == old(self).sources@,
            final(self).transforms@ == old(self).transforms@,
            final(self).sinks@ == old(self).sinks@,
    {
        self.sources.push((ComponentKey::named(name), source));
        proof {
            assert(self.sources@.take(self.sources@.len() - 1) =~= old(self).sources@);
        }
    }

    /// Add a transform under the given name, reading the given inputs.
    pub fn add_transform(&mut self, name: &str, inputs: Vec<String>, transform: TransformSpec)
        ensures
            final(self).transforms@.len() == old(self).transforms@.len() + 1,
            final(self).sources@ == old(self).sources@,
            final(self).sinks@ == old(self).sinks@,
    {
        self.transforms.push((ComponentKey::named(name), TransformOuter { inputs, inner: transform }));
    }

    /// Add a sink under the given name, reading the given inputs.
    pub fn add_sink(&mut self, name: &str, inputs: Vec<String>, sink: SinkSpec)
        ensures
            final(self).sinks@.len() == old(self).sinks@.len() + 1,
            final(self).sources@ == old(self).sources@,
            final(self).transforms@ == old(self).transforms@,
    {
        self.sinks.push((ComponentKey::named(name), SinkOuter { inputs, inner: sink }));
    }
}

/// A transform of the compiled topology, with resolved inputs.
#[derive(Debug)]
pub struct ResolvedTransform {
    pub inputs: Vec<OutputId>,
    pub inner: TransformSpec,
}

/// A sink of the compiled topology, with resolved inputs.
#[derive(Debug)]
pub struct ResolvedSink {
    pub inputs: Vec<OutputId>,
    pub inner: SinkSpec,
}

/// The compiled topology: every input resolved to an existing component
/// or port, every edge type-checked.
#[derive(Debug)]
pub struct Config {
    pub sources: Vec<(ComponentKey, SourceSpec)>,
    pub transforms: Vec<(ComponentKey, ResolvedTransform)>,
    pub sinks: Vec<(ComponentKey, ResolvedSink)>,
    /// Parent key of each expanded macro transform, with its children in
    /// wiring order.
    pub expansions: Vec<(ComponentKey, Vec<ComponentKey>)>,
}

impl Config {
    /// The first compiled transform of that name, if any.
    pub fn get_transform(&self, name: &str) -> (r: Option<&ResolvedTransform>)
        ensures
            match r {
                Some(t) => exists|i: int|
                    0 <= i < self.transforms@.len() && (#[trigger] self.transforms@[i]).0.id@
                        == name@ && t == &self.transforms@[i].1,
                None => forall|i: int|
                    0 <= i < self.transforms@.len() ==> (#[trigger] self.transforms@[i]).0.id@
                        != name@,
            },
    {
        let n = self.transforms.len();
        let mut i: usize = 0;
        while i < n
            invariant
                i <= n,
                n == self.transforms@.len(),
                forall|k: int|
                    0 <= k < i ==> (#[trigger] self.transforms@[k]).0.id@ != name@,
            decreases n - i,
        {
            if str_eq(self.transforms[i].0.id.as_str(), name) {
                return Some(&self.transforms[i].1);
            }
            i = i + 1;
        }
        None
    }

    /// The first compiled sink of that name, if any.
    pub fn get_sink(&self, name: &str) -> (r: Option<&ResolvedSink>)
        ensures
            match r {
                Some(s) => exists|i: int|
                    0 <= i < self.sinks@.len() && (#[trigger] self.sinks@[i]).0.id@ == name@ && s
                        == &self.sinks@[i].1,
                None => forall|i: int|
                    0 <= i < self.sinks@.len() ==> (#[trigger] self.sinks@[i]).0.id@ != name@,
            },
    {
        let n = self.sinks.len();
        let mut i: usize = 0;
        while i < n
            invariant
                i <= n,
                n == self.sinks@.len(),
                forall|k: int| 0 <= k < i ==> (#[trigger] self.sinks@[k]).0.id@ != name@,
            decreases n - i,
        {
            if str_eq(self.sinks[i].0.id.as_str(), name) {
                return Some(&self.sinks[i].1);
            }
            i = i + 1;
        }
        None
    }
}

/// Whether a component name holds the reserved namespace delimiter.
pub open spec fn spec_has_dot(s: Seq<char>) -> bool {
    exists|i: int| 0 <= i < s.len() && s[i] == '.'
}

/// Decide whether a name holds the reserved delimiter.
fn has_dot(s: &str) -> (r: bool)
    ensures
        r == spec_has_dot(s@),
{
    let n = s.unicode_len();
    let mut i: usize = 0;
    while i < n
        invariant
            i <= n,
            n == s@.len(),
            forall|k: int| 0 <= k < i ==> s@[k] != '.',
        decreases n - i,
    {
        if s.get_char(i) == '.' {
            return true;
        }
        i = i + 1;
    }
    false
}

/// The key of the synthetic child `name` of an expanded transform.
pub open spec fn spec_child_key(parent: Seq<char>, name: Seq<char>) -> Seq<char> {
    (parent + "."@) + name
}

/// The keys of every child of one expansion, in wiring order.
pub open spec fn spec_child_keys(parent: Seq<char>, children: Seq<(String, ChildTransform)>) -> Seq<
    Seq<char>,
> {
    children.map_values(|c: (String, ChildTransform)| spec_child_key(parent, c.0@))
}

/// The expansion record of a transform list: one entry per expanding
/// transform, in order, naming its children.
pub open spec fn spec_expansions(ts: Seq<(ComponentKey, TransformOuter)>) -> Seq<
    (Seq<char>, Seq<Seq<char>>),
>
    decreases ts.len(),
{
    if ts.len() == 0 {
        Seq::empty()
    } else {
        let head = match ts[0].1.inner.expansion {
            Some(Expansion::Expands(_, children)) => seq![
                (ts[0].0.id@, spec_child_keys(ts[0].0.id@, children@)),
            ],
            _ => Seq::empty(),
        };
        head + spec_expansions(ts.drop_first())
    }
}

/// The view of one expanded transform: its key, raw input strings,
/// stream types and named output ports.
pub struct TransformV {
    pub key: Seq<char>,
    pub inputs: Seq<Seq<char>>,
    pub input_type: DataType,
    pub output_type: DataType,
    pub named_outputs: Seq<Seq<char>>,
}

/// The view of one transform table entry.
pub open spec fn transform_tv(t: (ComponentKey, TransformOuter)) -> TransformV {
    TransformV {
        key: t.0.id@,
        inputs: t.1.inputs.deep_view(),
        input_type: t.1.inner.input_type,
        output_type: t.1.inner.output_type,
        named_outputs: t.1.inner.named_outputs.deep_view(),
    }
}

/// The view of a transform table.
pub open spec fn transforms_tv(ts: Seq<(ComponentKey, TransformOuter)>) -> Seq<TransformV> {
    ts.map_values(|t: (ComponentKey, TransformOuter)| transform_tv(t))
}

/// The synthetic transforms one expansion produces, in order: parallel
/// children all read the parent's original inputs, serial children chain,
/// the first reading the parent's inputs and each next one the previous
/// child's key.
pub open spec fn spec_expand_children(
    parent: Seq<char>,
    parent_inputs: Seq<Seq<char>>,
    mode: ExpandType,
    children: Seq<(String, ChildTransform)>,
    prev_inputs: Seq<Seq<char>>,
) -> Seq<TransformV>
    decreases children.len(),
{
    if children.len() == 0 {
        Seq::empty()
    } else {
        let child_key = spec_child_key(parent, children[0].0@);
        let tv = TransformV {
            key: child_key,
            inputs: prev_inputs,
            input_type: children[0].1.input_type,
            output_type: children[0].1.output_type,
            named_outputs: Seq::empty(),
        };
        let next = match mode {
            ExpandType::Parallel => parent_inputs,
            ExpandType::Serial => seq![child_key],
        };
        seq![tv] + spec_expand_children(parent, parent_inputs, mode, children.drop_first(), next)
    }
}

/// The rewritten transform table after macro expansion: non-expanding
/// transforms survive unchanged in place, an expanding transform is
/// replaced by its wired children, and a transform whose expansion fails
/// is dropped.
pub open spec fn spec_expand_transforms(ts: Seq<(ComponentKey, TransformOuter)>) -> Seq<TransformV>
    decreases ts.len(),
{
    if ts.len() == 0 {
        Seq::empty()
    } else {
        let head = match ts[0].1.inner.expansion {
            Some(Expansion::Expands(mode, children)) => spec_expand_children(
                ts[0].0.id@,
                ts[0].1.inputs.deep_view(),
                mode,
                children@,
                ts[0].1.inputs.deep_view(),
            ),
            Some(Expansion::FailsWith(_)) => Seq::empty(),
            None => seq![transform_tv(ts[0])],
        };
        head + spec_expand_transforms(ts.drop_first())
    }
}

/// The view of an expansion record.
pub open spec fn expansions_view(es: Seq<(ComponentKey, Vec<ComponentKey>)>) -> Seq<
    (Seq<char>, Seq<Seq<char>>),
> {
    es.map_values(
        |e: (ComponentKey, Vec<ComponentKey>)|
            (e.0.id@, e.1@.map_values(|c: ComponentKey| c.id@)),
    )
}

/// Whether some transform's expansion fails.
pub open spec fn spec_some_expansion_fails(ts: Seq<(ComponentKey, TransformOuter)>) -> bool {
    exists|i: int|
        0 <= i < ts.len() && (#[trigger] ts[i].1.inner.expansion) matches Some(
            Expansion::FailsWith(_),
        )
}

/// How many transforms' expansions fail: expansion reports one error per
/// failing transform.
pub open spec fn spec_expansion_fail_count(ts: Seq<(ComponentKey, TransformOuter)>) -> int
    decreases ts.len(),
{
    if ts.len() == 0 {
        0
    } else {
        (if ts[0].1.inner.expansion matches Some(Expansion::FailsWith(_)) {
            1int
        } else {
            0int
        }) + spec_expansion_fail_count(ts.drop_first())
    }
}

/// An exact copy of a string list.
fn clone_strings(v: &Vec<String>) -> (r: Vec<String>)
    ensures
        r.deep_view() == v.deep_view(),
{
    let n = v.len();
    let mut out: Vec<String> = Vec::new();
    let mut i: usize = 0;
    while i < n
        invariant
            i <= n,
            n == v@.len(),
            out@.len() == i,
            forall|k: int| 0 <= k < i ==> #[trigger] out@[k]@ == v@[k]@,
        decreases n - i,
    {
        out.push(v[i].clone());
        i = i + 1;
    }
    proof {
        assert(out.deep_view() =~= v.deep_view());
    }
    out
}

/// Expand macro-like transforms.  Each child of an expanding transform
/// becomes a synthetic transform named `parent.child`; parallel children
/// all read the parent's inputs, serial children chain one after the
/// other.  A failing expansion is collected as one error and drops only
/// that transform.
///
/// Returns the rewritten builder, the expansion record, and the
/// collected expansion errors.
pub fn expand_macros(builder: ConfigBuilder) -> (r: (
    ConfigBuilder,
    Vec<(ComponentKey, Vec<ComponentKey>)>,
    Vec<String>,
))
    ensures
        expansions_view(r.1@) == spec_expansions(builder.transforms@),
        (r.2@.len() > 0) == spec_some_expansion_fails(builder.transforms@),
        r.2@.len() == spec_expansion_fail_count(builder.transforms@),
        r.0.sources@ == builder.sources@,
        r.0.sinks@ == builder.sinks@,
        builder.transforms@.len() == 0 ==> r.0.transforms@.len() == 0,
        (forall|i: int|
            0 <= i < builder.transforms@.len() ==> (#[trigger] builder.transforms@[i]).1.inner.expansion is None) ==> r.0.transforms@ == builder.transforms@,
        transforms_tv(r.0.transforms@) == spec_expand_transforms(builder.transforms@),
{
    let ghost ts0 = builder.transforms@;
    let mut expansions: Vec<(ComponentKey, Vec<ComponentKey>)> = Vec::new();
    let mut errors: Vec<String> = Vec::new();
    let mut out_transforms: Vec<(ComponentKey, TransformOuter)> = Vec::new();

    let mut transforms = builder.transforms;
    let n = transforms.len();
    let mut i: usize = 0;
    proof {
        assert(ts0.skip(0) =~= ts0);
        assert(expansions_view(expansions@) =~= Seq::<(Seq<char>, Seq<Seq<char>>)>::empty());
    }
    while i < n
        invariant
            i <= n,
            n == ts0.len(),
            transforms@ == ts0.skip(i as int),
            ts0.len() == 0 ==> out_transforms@.len() == 0,
            (forall|k: int|
                0 <= k < ts0.len() ==> (#[trigger] ts0[k]).1.inner.expansion is None)
                ==> out_transforms@ =~= ts0.take(i as int),
            spec_expansions(ts0) =~= expansions_view(expansions@) + spec_expansions(
                ts0.skip(i as int),
            ),
            spec_expand_transforms(ts0) =~= transforms_tv(out_transforms@)
                + spec_expand_transforms(ts0.skip(i as int)),
            (errors@.len() > 0) == exists|k: int|
                0 <= k < i && (#[trigger] ts0[k].1.inner.expansion) matches Some(
                    Expansion::FailsWith(_),
                ),
            spec_expansion_fail_count(ts0) == errors@.len() + spec_expansion_fail_count(
                ts0.skip(i as int),
            ),
        decreases n - i,
    {
        proof {
            assert(ts0.skip(i as int)[0] == ts0[i as int]);
            assert(ts0.skip(i as int).drop_first() =~= ts0.skip(i as int + 1));
        }
        let (key, outer) = transforms.remove(0);
        proof {
            assert(transforms@ =~= ts0.skip(i as int + 1));
        }
        let ghost entry = ts0[i as int];
        let key_text = key.id;
        let TransformOuter { inputs: parent_inputs, inner } = outer;
        let TransformSpec { input_type, output_type, named_outputs, expansion } = inner;
        match expansion {
            Some(Expansion::Expands(mode, children)) => {
                let ghost cs = children@;
                let ghost expansions_before = expansions@;
                let ghost out_before = transforms_tv(out_transforms@);
                let ghost pin = parent_inputs.deep_view();
                let mut child_keys: Vec<ComponentKey> = Vec::new();
                let mut inputs = parent_inputs;
                let m = children.len();
                let mut j: usize = 0;
                proof {
                    assert(cs.skip(0) =~= cs);
                }
                while j < m
                    invariant
                        j <= m,
                        m == cs.len(),
                        cs == children@,
                        key_text@ == entry.0.id@,
                        child_keys@.len() == j,
                        forall|k: int|
                            0 <= k < j ==> #[trigger] child_keys@[k].id@ == spec_child_key(
                                entry.0.id@,
                                cs[k].0@,
                            ),
                        mode is Parallel ==> inputs.deep_view() == pin,
                        transforms_tv(out_transforms@).len() >= out_before.len(),
                        transforms_tv(out_transforms@).take(out_before.len() as int)
                            =~= out_before,
                        spec_expand_children(entry.0.id@, pin, mode, cs, pin) =~= transforms_tv(
                            out_transforms@,
                        ).skip(out_before.len() as int) + spec_expand_children(
                            entry.0.id@,
                            pin,
                            mode,
                            cs.skip(j as int),
                            inputs.deep_view(),
                        ),
                    decreases m - j,
                {
                    proof {
                        assert(cs.skip(j as int)[0] == cs[j as int]);
                        assert(cs.skip(j as int).drop_first() =~= cs.skip(j as int + 1));
                    }
                    let child_name = &children[j].0;
                    let full_name = key_text.clone().concat(".").concat(child_name.as_str());
                    let child_key = ComponentKey { id: full_name };
                    let ghost ckv = child_key.id@;
                    child_keys.push(child_key.clone_key());
                    let child = &children[j].1;
                    let child_spec = TransformSpec {
                        input_type: child.input_type,
                        output_type: child.output_type,
                        named_outputs: Vec::new(),
                        expansion: None,
                    };
                    let next_inputs = match mode {
                        ExpandType::Parallel => clone_strings(&inputs),
                        ExpandType::Serial => {
                            let mut v: Vec<String> = Vec::new();
                            v.push(child_key.id.clone());
                            v
                        },
                    };
                    let this_inputs = inputs;
                    inputs = next_inputs;
                    let ghost tv_before = transforms_tv(out_transforms@);
                    out_transforms.push(
                        (child_key, TransformOuter { inputs: this_inputs, inner: child_spec }),
                    );
                    proof {
                        let tv = TransformV {
                            key: spec_child_key(entry.0.id@, cs[j as int].0@),
                            inputs: this_inputs.deep_view(),
                            input_type: cs[j as int].1.input_type,
                            output_type: cs[j as int].1.output_type,
                            named_outputs: Seq::empty(),
                        };
                        assert(ckv == spec_child_key(entry.0.id@, cs[j as int].0@));
                        match mode {
                            ExpandType::Parallel => {
                                assert(inputs.deep_view() =~= pin);
                            },
                            ExpandType::Serial => {
                                assert(inputs.deep_view() =~= seq![ckv]);
                            },
                        }
                        assert(child_spec.named_outputs.deep_view() =~= Seq::<Seq<char>>::empty());
                        assert(transforms_tv(out_transforms@) =~= tv_before.push(tv));
                        assert(transforms_tv(out_transforms@).take(out_before.len() as int)
                            =~= out_before);
                        assert(spec_expand_children(
                            entry.0.id@,
                            pin,
                            mode,
                            cs.skip(j as int),
                            this_inputs.deep_view(),
                        ) =~= seq![tv] + spec_expand_children(
                            entry.0.id@,
                            pin,
                            mode,
                            cs.skip(j as int + 1),
                            inputs.deep_view(),
                        ));
                        assert(spec_expand_children(entry.0.id@, pin, mode, cs, pin)
                            =~= transforms_tv(out_transforms@).skip(out_before.len() as int)
                            + spec_expand_children(
                            entry.0.id@,
                            pin,
                            mode,
                            cs.skip(j as int + 1),
                            inputs.deep_view(),
                        ));
                    }
                    j = j + 1;
                }
                proof {
                    assert(child_keys@.map_values(|c: ComponentKey| c.id@) =~= spec_child_keys(
                        entry.0.id@,
                        cs,
                    ));
                    assert(spec_expand_children(
                        entry.0.id@,
                        pin,
                        mode,
                        cs.skip(m as int),
                        inputs.deep_view(),
                    ) =~= Seq::<TransformV>::empty());
                    assert(transforms_tv(out_transforms@) =~= out_before + spec_expand_children(
                        entry.0.id@,
                        pin,
                        mode,
                        cs,
                        pin,
                    ));
                    assert(entry.1.inputs.deep_view() == pin);
                    assert(spec_expand_transforms(ts0.skip(i as int)) =~= spec_expand_children(
                        entry.0.id@,
                        pin,
                        mode,
                        cs,
                        pin,
                    ) + spec_expand_transforms(ts0.skip(i as int + 1)));
                    assert(spec_expand_transforms(ts0) =~= transforms_tv(out_transforms@)
                        + spec_expand_transforms(ts0.skip(i as int + 1)));
                }
                expansions.push((ComponentKey { id: key_text }, child_keys));
                proof {
                    assert(entry.1.inner.expansion matches Some(Expansion::Expands(_, _)));
                    assert(expansions_view(expansions@) =~= expansions_view(
                        expansions_before,
                    ).push((entry.0.id@, spec_child_keys(entry.0.id@, cs))));
                    assert(spec_expansions(ts0.skip(i as int)) =~= seq![
                        (entry.0.id@, spec_child_keys(entry.0.id@, cs)),
                    ] + spec_expansions(ts0.skip(i as int + 1)));
                    assert(spec_expansions(ts0) =~= expansions_view(expansions@)
                        + spec_expansions(ts0.skip(i as int + 1)));
                }
            },
            Some(Expansion::FailsWith(message)) => {
                let text = String::from_str("failed to expand transform '").concat(
                    key_text.as_str(),
                ).concat("': ").concat(message.as_str());
                errors.push(text);
                proof {
                    assert(entry.1.inner.expansion matches Some(Expansion::FailsWith(_)));
                    assert(spec_expansions(ts0.skip(i as int)) =~= spec_expansions(
                        ts0.skip(i as int + 1),
                    ));
                    assert(spec_expand_transforms(ts0.skip(i as int)) =~= spec_expand_transforms(
                        ts0.skip(i as int + 1),
                    ));
                }
            },
            None => {
                let inner = TransformSpec {
                    input_type,
                    output_type,
                    named_outputs,
                    expansion: None,
                };
                let ghost tv_before = transforms_tv(out_transforms@);
                out_transforms.push(
                    (
                        ComponentKey { id: key_text },
                        TransformOuter { inputs: parent_inputs, inner },
                    ),
                );
                proof {
                    assert(spec_expansions(ts0.skip(i as int)) =~= spec_expansions(
                        ts0.skip(i as int + 1),
                    ));
                    assert(transforms_tv(out_transforms@) =~= tv_before.push(transform_tv(entry)));
                    assert(spec_expand_transforms(ts0.skip(i as int)) =~= seq![
                        transform_tv(entry),
                    ] + spec_expand_transforms(ts0.skip(i as int + 1)));
                    assert(spec_expand_transforms(ts0) =~= transforms_tv(out_transforms@)
                        + spec_expand_transforms(ts0.skip(i as int + 1)));
                }
            },
        }
        i = i + 1;
    }
    proof {
        assert(spec_expansions(ts0.skip(n as int)) =~= Seq::<(Seq<char>, Seq<Seq<char>>)>::empty());
        assert(expansions_view(expansions@) =~= spec_expansions(ts0));
        assert(ts0.take(n as int) =~= ts0);
        assert(spec_expand_transforms(ts0.skip(n as int)) =~= Seq::<TransformV>::empty());
        assert(transforms_tv(out_transforms@) =~= spec_expand_transforms(ts0));
    }
    let out = ConfigBuilder {
        sources: builder.sources,
        transforms: out_transforms,
        sinks: builder.sinks,
    };
    (out, expansions, errors)
}

impl ComponentKey {
    /// An exact copy of this key.
    fn clone_key(&self) -> (r: ComponentKey)
        ensures
            r.id@ == self.id@,
    {
        ComponentKey { id: self.id.clone() }
    }
}

/// The candidates a glob may select from `cands`: every candidate the
/// pattern matches, except the expanding component itself.
pub open spec fn spec_glob_select(raw: Seq<char>, id: Seq<char>, cands: Seq<Seq<char>>) -> Seq<
    Seq<char>,
>
    decreases cands.len(),
{
    if cands.len() == 0 {
        Seq::empty()
    } else {
        let head = if spec_glob_match(raw, cands[0]) && cands[0] != id {
            seq![cands[0]]
        } else {
            Seq::empty()
        };
        head + spec_glob_select(raw, id, cands.drop_first())
    }
}

/// The candidates a plain string selects: the candidates it equals,
/// except the expanding component itself.
pub open spec fn spec_eq_select(raw: Seq<char>, id: Seq<char>, cands: Seq<Seq<char>>) -> Seq<
    Seq<char>,
>
    decreases cands.len(),
{
    if cands.len() == 0 {
        Seq::empty()
    } else {
        let head = if cands[0] == raw && cands[0] != id {
            seq![cands[0]]
        } else {
            Seq::empty()
        };
        head + spec_eq_select(raw, id, cands.drop_first())
    }
}

/// What one input string expands to: the candidates it selects, as a
/// glob where it parses as one and by equality otherwise; a string that
/// selects nothing stays in place verbatim, so that the later resolution
/// phase can report it as an unknown input.
pub open spec fn spec_expand_one(raw: Seq<char>, id: Seq<char>, cands: Seq<Seq<char>>) -> Seq<
    Seq<char>,
> {
    let selected = if spec_glob_pattern_ok(raw) {
        spec_glob_select(raw, id, cands)
    } else {
        spec_eq_select(raw, id, cands)
    };
    if selected.len() == 0 {
        seq![raw]
    } else {
        selected
    }
}

/// What a whole input list expands to, in order.
pub open spec fn spec_expand_inputs(
    inputs: Seq<Seq<char>>,
    id: Seq<char>,
    cands: Seq<Seq<char>>,
) -> Seq<Seq<char>>
    decreases inputs.len(),
{
    if inputs.len() == 0 {
        Seq::empty()
    } else {
        spec_expand_one(inputs[0], id, cands) + spec_expand_inputs(inputs.drop_first(), id, cands)
    }
}

/// Unmatched glob fallback: an input string that selects no candidate at
/// all — as a glob pattern or as a plain name — is preserved verbatim in
/// the expanded input list rather than silently dropped.
pub proof fn lemma_unmatched_input_preserved(raw: Seq<char>, id: Seq<char>, cands: Seq<Seq<char>>)
    requires
        forall|i: int|
            0 <= i < cands.len() ==> !(spec_glob_match(raw, #[trigger] cands[i]) && cands[i] != id),
        forall|i: int| 0 <= i < cands.len() ==> !(#[trigger] cands[i] == raw && cands[i] != id),
    ensures
        spec_expand_one(raw, id, cands) == seq![raw],
{
    lemma_unmatched_glob_select(raw, id, cands);
    lemma_unmatched_eq_select(raw, id, cands);
}

proof fn lemma_unmatched_glob_select(raw: Seq<char>, id: Seq<char>, cands: Seq<Seq<char>>)
    requires
        forall|i: int|
            0 <= i < cands.len() ==> !(spec_glob_match(raw, #[trigger] cands[i]) && cands[i] != id),
    ensures
        spec_glob_select(raw, id, cands) =~= Seq::<Seq<char>>::empty(),
    decreases cands.len(),
{
    if cands.len() > 0 {
        assert(forall|i: int|
            0 <= i < cands.drop_first().len() ==> #[trigger] cands.drop_first()[i] == cands[i + 1]);
        lemma_unmatched_glob_select(raw, id, cands.drop_first());
    }
}

proof fn lemma_unmatched_eq_select(raw: Seq<char>, id: Seq<char>, cands: Seq<Seq<char>>)
    requires
        forall|i: int| 0 <= i < cands.len() ==> !(#[trigger] cands[i] == raw && cands[i] != id),
    ensures
        spec_eq_select(raw, id, cands) =~= Seq::<Seq<char>>::empty(),
    decreases cands.len(),
{
    if cands.len() > 0 {
        assert(forall|i: int|
            0 <= i < cands.drop_first().len() ==> #[trigger] cands.drop_first()[i] == cands[i + 1]);
        lemma_unmatched_eq_select(raw, id, cands.drop_first());
    }
}

/// Expand one input list against the candidate set.
fn expand_inputs(inputs: Vec<String>, id: &str, cands: &Vec<String>) -> (r: Vec<String>)
    ensures
        r.deep_view() == spec_expand_inputs(inputs.deep_view(), id@, cands.deep_view()),
{
    let ghost iv = inputs.deep_view();
    let ghost cv = cands.deep_view();
    let mut out: Vec<String> = Vec::new();
    let n = inputs.len();
    let mut i: usize = 0;
    proof {
        assert(iv.skip(0) =~= iv);
        assert(out.deep_view() =~= Seq::<Seq<char>>::empty());
    }
    while i < n
        invariant
            i <= n,
            n == inputs@.len(),
            iv == inputs.deep_view(),
            cv == cands.deep_view(),
            n == iv.len(),
            spec_expand_inputs(iv, id@, cv) =~= out.deep_view() + spec_expand_inputs(
                iv.skip(i as int),
                id@,
                cv,
            ),
        decreases n - i,
    {
        proof {
            assert(iv.skip(i as int)[0] == iv[i as int]);
            assert(iv.skip(i as int).drop_first() =~= iv.skip(i as int + 1));
        }
        let raw = &inputs[i];
        let ghost out_before = out.deep_view();
        let is_glob = glob_pattern_ok(raw.as_str());
        let mut matched = false;
        let m = cands.len();
        let mut j: usize = 0;
        proof {
            assert(cv.skip(0) =~= cv);
        }
        while j < m
            invariant
                j <= m,
                m == cands@.len(),
                iv == inputs.deep_view(),
                cv == cands.deep_view(),
                m == cv.len(),
                i < iv.len(),
                iv[i as int] == inputs@[i as int]@,
                is_glob == spec_glob_pattern_ok(iv[i as int]),
                raw == &inputs@[i as int],
                (if is_glob {
                    spec_glob_select(iv[i as int], id@, cv)
                } else {
                    spec_eq_select(iv[i as int], id@, cv)
                }) =~= out.deep_view().skip(out_before.len() as int) + (if is_glob {
                    spec_glob_select(iv[i as int], id@, cv.skip(j as int))
                } else {
                    spec_eq_select(iv[i as int], id@, cv.skip(j as int))
                }),
                out.deep_view().take(out_before.len() as int) =~= out_before,
                out.deep_view().len() >= out_before.len(),
                matched == (out.deep_view().len() > out_before.len()),
            decreases m - j,
        {
            proof {
                assert(cv.skip(j as int)[0] == cv[j as int]);
                assert(cv.skip(j as int).drop_first() =~= cv.skip(j as int + 1));
            }
            let hit = if is_glob {
                glob_pattern_matches(raw.as_str(), cands[j].as_str())
            } else {
                str_eq(raw.as_str(), cands[j].as_str())
            };
            if hit && !str_eq(cands[j].as_str(), id) {
                out.push(cands[j].clone());
                matched = true;
            }
            proof {
                assert(out.deep_view().take(out_before.len() as int) =~= out_before);
            }
            j = j + 1;
        }
        proof {
            assert(cv.skip(m as int).len() == 0);
        }
        if !matched {
            // Nothing matched: keep the raw string, so the resolution
            // phase can point at it by name.
            out.push(raw.clone());
            proof {
                assert(out.deep_view() =~= out_before + seq![iv[i as int]]);
                assert(spec_expand_one(iv[i as int], id@, cv) =~= seq![iv[i as int]]);
            }
        } else {
            proof {
                assert(out.deep_view().skip(out_before.len() as int).len() > 0);
                assert(spec_expand_one(iv[i as int], id@, cv) =~= out.deep_view().skip(
                    out_before.len() as int,
                ));
                assert(out.deep_view() =~= out_before + out.deep_view().skip(
                    out_before.len() as int,
                ));
            }
        }
        i = i + 1;
    }
    proof {
        assert(spec_expand_inputs(iv.skip(n as int), id@, cv) =~= Seq::<Seq<char>>::empty());
        assert(out.deep_view() =~= spec_expand_inputs(iv, id@, cv));
    }
    out
}

/// The names of the sources, in order.
pub open spec fn spec_source_names(sources: Seq<(ComponentKey, SourceSpec)>) -> Seq<Seq<char>> {
    sources.map_values(|s: (ComponentKey, SourceSpec)| s.0.id@)
}

/// The names of the transforms, in order.
pub open spec fn spec_transform_names(transforms: Seq<(ComponentKey, TransformOuter)>) -> Seq<
    Seq<char>,
> {
    transforms.map_values(|t: (ComponentKey, TransformOuter)| t.0.id@)
}

/// The `component.port` strings of one transform's named outputs.
pub open spec fn spec_port_names(key: Seq<char>, ports: Seq<String>) -> Seq<Seq<char>> {
    ports.map_values(|p: String| spec_child_key(key, p@))
}

/// The `component.port` strings of every transform, in order.
pub open spec fn spec_all_port_names(transforms: Seq<(ComponentKey, TransformOuter)>) -> Seq<
    Seq<char>,
>
    decreases transforms.len(),
{
    if transforms.len() == 0 {
        Seq::empty()
    } else {
        spec_port_names(transforms[0].0.id@, transforms[0].1.inner.named_outputs@)
            + spec_all_port_names(transforms.drop_first())
    }
}

/// The set of valid input strings a glob may select from: every source
/// and transform name, plus every `component.port` a transform exposes.
pub open spec fn spec_candidates(
    sources: Seq<(ComponentKey, SourceSpec)>,
    transforms: Seq<(ComponentKey, TransformOuter)>,
) -> Seq<Seq<char>> {
    (spec_source_names(sources) + spec_transform_names(transforms)) + spec_all_port_names(
        transforms,
    )
}

/// Collect the valid input strings of a topology.
///
/// A name shared by a source and a transform would appear twice here and
/// could be selected twice by one glob; such a topology always fails the
/// key-uniqueness check, so no accepted configuration can observe the
/// duplicate.
fn glob_candidates(
    sources: &Vec<(ComponentKey, SourceSpec)>,
    transforms: &Vec<(ComponentKey, TransformOuter)>,
) -> (r: Vec<String>)
    ensures
        r.deep_view() == spec_candidates(sources@, transforms@),
{
    let mut out: Vec<String> = Vec::new();
    let n = sources.len();
    let mut i: usize = 0;
    while i < n
        invariant
            i <= n,
            n == sources@.len(),
            out@.len() == i,
            forall|k: int| 0 <= k < i ==> #[trigger] out@[k]@ == sources@[k].0.id@,
        decreases n - i,
    {
        out.push(sources[i].0.id.clone());
        i = i + 1;
    }
    proof {
        assert(out.deep_view() =~= spec_source_names(sources@));
    }
    let ghost sources_part = out.deep_view();
    let m = transforms.len();
    let mut j: usize = 0;
    while j < m
        invariant
            j <= m,
            m == transforms@.len(),
            out.deep_view() =~= sources_part + spec_transform_names(transforms@).take(j as int),
        decreases m - j,
    {
        let ghost before = out.deep_view();
        out.push(transforms[j].0.id.clone());
        proof {
            assert(out.deep_view() =~= before.push(transforms@[j as int].0.id@));
            assert(spec_transform_names(transforms@).take(j as int + 1)
                =~= spec_transform_names(transforms@).take(j as int).push(
                transforms@[j as int].0.id@,
            ));
        }
        j = j + 1;
    }
    proof {
        assert(spec_transform_names(transforms@).take(m as int) =~= spec_transform_names(
            transforms@,
        ));
        assert(out.deep_view() =~= sources_part + spec_transform_names(transforms@));
    }
    let ghost name_part = out.deep_view();
    let mut j2: usize = 0;
    proof {
        assert(transforms@.skip(0) =~= transforms@);
    }
    while j2 < m
        invariant
            j2 <= m,
            m == transforms@.len(),
            out.deep_view().len() >= name_part.len(),
            out.deep_view().take(name_part.len() as int) =~= name_part,
            spec_all_port_names(transforms@) =~= out.deep_view().skip(name_part.len() as int)
                + spec_all_port_names(transforms@.skip(j2 as int)),
        decreases m - j2,
    {
        proof {
            assert(transforms@.skip(j2 as int)[0] == transforms@[j2 as int]);
            assert(transforms@.skip(j2 as int).drop_first() =~= transforms@.skip(j2 as int + 1));
        }
        let ports = transforms[j2].1.inner.named_outputs.len();
        let ghost before_ports = out.deep_view();
        let ghost port_part = spec_port_names(
            transforms@[j2 as int].0.id@,
            transforms@[j2 as int].1.inner.named_outputs@,
        );
        let mut p: usize = 0;
        while p < ports
            invariant
                p <= ports,
                j2 < transforms@.len(),
                ports == transforms@[j2 as int].1.inner.named_outputs@.len(),
                port_part == spec_port_names(
                    transforms@[j2 as int].0.id@,
                    transforms@[j2 as int].1.inner.named_outputs@,
                ),
                out.deep_view() =~= before_ports + port_part.take(p as int),
            decreases ports - p,
        {
            let text = transforms[j2].0.id.clone().concat(".").concat(
                transforms[j2].1.inner.named_outputs[p].as_str(),
            );
            let ghost before = out.deep_view();
            proof {
                assert(port_part[p as int] == spec_child_key(
                    transforms@[j2 as int].0.id@,
                    transforms@[j2 as int].1.inner.named_outputs@[p as int]@,
                ));
                assert(text@ == port_part[p as int]);
            }
            out.push(text);
            proof {
                assert(out.deep_view() =~= before.push(port_part[p as int]));
                assert(port_part.take(p as int + 1) =~= port_part.take(p as int).push(
                    port_part[p as int],
                ));
            }
            p = p + 1;
        }
        proof {
            assert(port_part.take(ports as int) =~= port_part);
            assert(out.deep_view() =~= before_ports + port_part);
            assert(out.deep_view().skip(name_part.len() as int) =~= before_ports.skip(
                name_part.len() as int,
            ) + port_part);
        }
        j2 = j2 + 1;
    }
    proof {
        assert(spec_all_port_names(transforms@.skip(m as int)) =~= Seq::<Seq<char>>::empty());
        assert(out.deep_view() =~= name_part + spec_all_port_names(transforms@));
        assert(out.deep_view() =~= spec_candidates(sources@, transforms@));
    }
    out
}

/// Expand the glob patterns in every transform and sink input list: each
/// component keeps its key and inner configuration, and its input list
/// becomes exactly what each input string selects from the candidate set.
pub fn expand_globs(builder: ConfigBuilder) -> (r: ConfigBuilder)
    ensures
        r.sources@ == builder.sources@,
        r.transforms@.len() == builder.transforms@.len(),
        r.sinks@.len() == builder.sinks@.len(),
        forall|k: int|
            0 <= k < r.transforms@.len() ==> {
                &&& (#[trigger] r.transforms@[k]).0 == builder.transforms@[k].0
                &&& r.transforms@[k].1.inner == builder.transforms@[k].1.inner
                &&& r.transforms@[k].1.inputs.deep_view() == spec_expand_inputs(
                    builder.transforms@[k].1.inputs.deep_view(),
                    builder.transforms@[k].0.id@,
                    spec_candidates(builder.sources@, builder.transforms@),
                )
            },
        forall|k: int|
            0 <= k < r.sinks@.len() ==> {
                &&& (#[trigger] r.sinks@[k]).0 == builder.sinks@[k].0
                &&& r.sinks@[k].1.inner == builder.sinks@[k].1.inner
                &&& r.sinks@[k].1.inputs.deep_view() == spec_expand_inputs(
                    builder.sinks@[k].1.inputs.deep_view(),
                    builder.sinks@[k].0.id@,
                    spec_candidates(builder.sources@, builder.transforms@),
                )
            },
{
    let candidates = glob_candidates(&builder.sources, &builder.transforms);
    let ghost cands = spec_candidates(builder.sources@, builder.transforms@);

    let mut transforms = builder.transforms;
    let ghost ts0 = transforms@;
    let mut out_transforms: Vec<(ComponentKey, TransformOuter)> = Vec::new();
    let tn = transforms.len();
    let mut i: usize = 0;
    while i < tn
        invariant
            i <= tn,
            tn == ts0.len(),
            transforms@ == ts0.skip(i as int),
            candidates.deep_view() == cands,
            out_transforms@.len() == i,
            forall|k: int|
                0 <= k < i ==> {
                    &&& (#[trigger] out_transforms@[k]).0 == ts0[k].0
                    &&& out_transforms@[k].1.inner == ts0[k].1.inner
                    &&& out_transforms@[k].1.inputs.deep_view() == spec_expand_inputs(
                        ts0[k].1.inputs.deep_view(),
                        ts0[k].0.id@,
                        cands,
                    )
                },
        decreases tn - i,
    {
        proof {
            assert(ts0.skip(i as int)[0] == ts0[i as int]);
            assert(transforms@.drop_first() =~= ts0.skip(i as int + 1));
        }
        let (key, outer) = transforms.remove(0);
        let id = key.id.clone();
        let inputs = expand_inputs(outer.inputs, id.as_str(), &candidates);
        out_transforms.push((key, TransformOuter { inputs, inner: outer.inner }));
        i = i + 1;
    }

    let mut sinks = builder.sinks;
    let ghost ss0 = sinks@;
    let mut out_sinks: Vec<(ComponentKey, SinkOuter)> = Vec::new();
    let sn = sinks.len();
    let mut k: usize = 0;
    while k < sn
        invariant
            k <= sn,
            sn == ss0.len(),
            sinks@ == ss0.skip(k as int),
            candidates.deep_view() == cands,
            out_sinks@.len() == k,
            forall|q: int|
                0 <= q < k ==> {
                    &&& (#[trigger] out_sinks@[q]).0 == ss0[q].0
                    &&& out_sinks@[q].1.inner == ss0[q].1.inner
                    &&& out_sinks@[q].1.inputs.deep_view() == spec_expand_inputs(
                        ss0[q].1.inputs.deep_view(),
                        ss0[q].0.id@,
                        cands,
                    )
                },
        decreases sn - k,
    {
        proof {
            assert(ss0.skip(k as int)[0] == ss0[k as int]);
            assert(sinks@.drop_first() =~= ss0.skip(k as int + 1));
        }
        let (key, outer) = sinks.remove(0);
        let id = key.id.clone();
        let inputs = expand_inputs(outer.inputs, id.as_str(), &candidates);
        out_sinks.push((key, SinkOuter { inputs, inner: outer.inner }));
        k = k + 1;
    }

    ConfigBuilder { sources: builder.sources, transforms: out_transforms, sinks: out_sinks }
}

/// Check that no configured component name holds the reserved namespace
/// delimiter, which expansion uses to name synthetic children.
fn check_names(builder: &ConfigBuilder) -> (errors: Vec<String>)
    ensures
        (errors@.len() == 0) <==> {
            &&& forall|i: int|
                0 <= i < builder.sources@.len() ==> !spec_has_dot(
                    #[trigger] builder.sources@[i].0.id@,
                )
            &&& forall|i: int|
                0 <= i < builder.transforms@.len() ==> !spec_has_dot(
                    #[trigger] builder.transforms@[i].0.id@,
                )
            &&& forall|i: int|
                0 <= i < builder.sinks@.len() ==> !spec_has_dot(#[trigger] builder.sinks@[i].0.id@)
        },
{
    let mut errors: Vec<String> = Vec::new();
    let n = builder.sources.len();
    let mut i: usize = 0;
    while i < n
        invariant
            i <= n,
            n == builder.sources@.len(),
            (errors@.len() == 0) <==> forall|k: int|
                0 <= k < i ==> !spec_has_dot(#[trigger] builder.sources@[k].0.id@),
        decreases n - i,
    {
        if has_dot(builder.sources[i].0.id.as_str()) {
            errors.push(name_error(&builder.sources[i].0));
        }
        i = i + 1;
    }
    let ghost after_sources = errors@.len();
    let m = builder.transforms.len();
    let mut j: usize = 0;
    while j < m
        invariant
            j <= m,
            m == builder.transforms@.len(),
            errors@.len() >= after_sources,
            (after_sources == 0) <==> forall|k: int|
                0 <= k < builder.sources@.len() ==> !spec_has_dot(
                    #[trigger] builder.sources@[k].0.id@,
                ),
            (errors@.len() == after_sources) <==> forall|k: int|
                0 <= k < j ==> !spec_has_dot(#[trigger] builder.transforms@[k].0.id@),
        decreases m - j,
    {
        if has_dot(builder.transforms[j].0.id.as_str()) {
            errors.push(name_error(&builder.transforms[j].0));
        }
        j = j + 1;
    }
    let ghost after_transforms = errors@.len();
    let s = builder.sinks.len();
    let mut k: usize = 0;
    while k < s
        invariant
            k <= s,
            s == builder.sinks@.len(),
            errors@.len() >= after_transforms,
            after_transforms >= after_sources,
            (after_sources == 0) <==> forall|q: int|
                0 <= q < builder.sources@.len() ==> !spec_has_dot(
                    #[trigger] builder.sources@[q].0.id@,
                ),
            (after_transforms == after_sources) <==> forall|q: int|
                0 <= q < builder.transforms@.len() ==> !spec_has_dot(
                    #[trigger] builder.transforms@[q].0.id@,
                ),
            (errors@.len() == after_transforms) <==> forall|q: int|
                0 <= q < k ==> !spec_has_dot(#[trigger] builder.sinks@[q].0.id@),
        decreases s - k,
    {
        if has_dot(builder.sinks[k].0.id.as_str()) {
            errors.push(name_error(&builder.sinks[k].0));
        }
        k = k + 1;
    }
    errors
}

/// The message reported for a component name holding the delimiter.
fn name_error(key: &ComponentKey) -> String {
    String::from_str("component name \"").concat(key.id.as_str()).concat(
        "\" must not contain a '.'",
    )
}

/// Structural checks, run before expansion so that a defective shape is
/// rejected rather than expanded: at least one source, at least one sink,
/// and no transform or sink without inputs.
fn check_shape(builder: &ConfigBuilder) -> (errors: Vec<String>)
    ensures
        (builder.sources@.len() > 0 && builder.sinks@.len() > 0 && (forall|i: int|
            0 <= i < builder.transforms@.len() ==> (#[trigger] builder.transforms@[i]).1.inputs@.len() > 0) && (forall|i: int|
            0 <= i < builder.sinks@.len() ==> (#[trigger] builder.sinks@[i]).1.inputs@.len() > 0))
            ==> errors@.len() == 0,
{
    let mut errors: Vec<String> = Vec::new();
    if builder.sources.is_empty() {
        errors.push(String::from_str("configuration defines no sources"));
    }
    if builder.sinks.is_empty() {
        errors.push(String::from_str("configuration defines no sinks"));
    }
    let ghost clean = builder.sources@.len() > 0 && builder.sinks@.len() > 0 && (forall|q: int|
        0 <= q < builder.transforms@.len() ==> (#[trigger] builder.transforms@[q]).1.inputs@.len() > 0) && (forall|q: int|
        0 <= q < builder.sinks@.len() ==> (#[trigger] builder.sinks@[q]).1.inputs@.len() > 0);
    let n = builder.transforms.len();
    let mut i: usize = 0;
    while i < n
        invariant
            i <= n,
            n == builder.transforms@.len(),
            clean == (builder.sources@.len() > 0 && builder.sinks@.len() > 0 && (forall|q: int|
                0 <= q < builder.transforms@.len() ==> (#[trigger] builder.transforms@[q]).1.inputs@.len() > 0) && (forall|q: int|
                0 <= q < builder.sinks@.len() ==> (#[trigger] builder.sinks@[q]).1.inputs@.len() > 0)),
            clean ==> errors@.len() == 0,
        decreases n - i,
    {
        if builder.transforms[i].1.inputs.is_empty() {
            errors.push(
                String::from_str("transform \"").concat(builder.transforms[i].0.id.as_str()).concat(
                    "\" has no inputs",
                ),
            );
        }
        i = i + 1;
    }
    let m = builder.sinks.len();
    let mut j: usize = 0;
    while j < m
        invariant
            j <= m,
            m == builder.sinks@.len(),
            clean == (builder.sources@.len() > 0 && builder.sinks@.len() > 0 && (forall|q: int|
                0 <= q < builder.transforms@.len() ==> (#[trigger] builder.transforms@[q]).1.inputs@.len() > 0) && (forall|q: int|
                0 <= q < builder.sinks@.len() ==> (#[trigger] builder.sinks@[q]).1.inputs@.len() > 0)),
            clean ==> errors@.len() == 0,
        decreases m - j,
    {
        if builder.sinks[j].1.inputs.is_empty() {
            errors.push(
                String::from_str("sink \"").concat(builder.sinks[j].0.id.as_str()).concat(
                    "\" has no inputs",
                ),
            );
        }
        j = j + 1;
    }
    errors
}

/// Resource checks: no two components may claim the same external
/// resource.
fn check_resources(builder: &ConfigBuilder) -> (errors: Vec<String>)
    ensures
        ((forall|i: int|
            0 <= i < builder.sources@.len() ==> (#[trigger] builder.sources@[i]).1.resources@.len() == 0) && (forall|i: int|
            0 <= i < builder.sinks@.len() ==> (#[trigger] builder.sinks@[i]).1.inner.resources@.len() == 0)) ==> errors@.len() == 0,
{
    let ghost bare = (forall|q: int|
        0 <= q < builder.sources@.len() ==> (#[trigger] builder.sources@[q]).1.resources@.len()
            == 0) && (forall|q: int|
        0 <= q < builder.sinks@.len() ==> (#[trigger] builder.sinks@[q]).1.inner.resources@.len()
            == 0);
    let mut errors: Vec<String> = Vec::new();
    let mut seen: Vec<String> = Vec::new();
    let n = builder.sources.len();
    let mut i: usize = 0;
    while i < n
        invariant
            i <= n,
            n == builder.sources@.len(),
            bare == ((forall|q: int|
                0 <= q < builder.sources@.len() ==> (#[trigger] builder.sources@[q]).1.resources@.len() == 0) && (forall|q: int|
                0 <= q < builder.sinks@.len() ==> (#[trigger] builder.sinks@[q]).1.inner.resources@.len() == 0)),
            bare ==> errors@.len() == 0,
        decreases n - i,
    {
        let rn = builder.sources[i].1.resources.len();
        let mut r: usize = 0;
        while r < rn
            invariant
                r <= rn,
                i < builder.sources@.len(),
                rn == builder.sources@[i as int].1.resources@.len(),
                bare ==> errors@.len() == 0 && rn == 0,
            decreases rn - r,
        {
            note_resource(&mut seen, &mut errors, &builder.sources[i].1.resources[r]);
            r = r + 1;
        }
        i = i + 1;
    }
    let m = builder.sinks.len();
    let mut j: usize = 0;
    while j < m
        invariant
            j <= m,
            m == builder.sinks@.len(),
            bare == ((forall|q: int|
                0 <= q < builder.sources@.len() ==> (#[trigger] builder.sources@[q]).1.resources@.len() == 0) && (forall|q: int|
                0 <= q < builder.sinks@.len() ==> (#[trigger] builder.sinks@[q]).1.inner.resources@.len() == 0)),
            bare ==> errors@.len() == 0,
        decreases m - j,
    {
        let rn = builder.sinks[j].1.inner.resources.len();
        let mut r: usize = 0;
        while r < rn
            invariant
                r <= rn,
                j < builder.sinks@.len(),
                rn == builder.sinks@[j as int].1.inner.resources@.len(),
                bare ==> errors@.len() == 0 && rn == 0,
            decreases rn - r,
        {
            note_resource(&mut seen, &mut errors, &builder.sinks[j].1.inner.resources[r]);
            r = r + 1;
        }
        j = j + 1;
    }
    errors
}

/// Check, after expansion so that synthetic names take part too, that
/// every component key is used exactly once.
fn check_unique_keys(builder: &ConfigBuilder) -> (errors: Vec<String>)
    ensures
        (builder.transforms@.len() == 0 && builder.sources@.len() == 1 && builder.sinks@.len() == 1
            && builder.sources@[0].0.id@ != builder.sinks@[0].0.id@) ==> errors@.len() == 0,
{
    let ghost simple = builder.transforms@.len() == 0 && builder.sources@.len() == 1
        && builder.sinks@.len() == 1 && builder.sources@[0].0.id@ != builder.sinks@[0].0.id@;
    let mut errors: Vec<String> = Vec::new();
    let mut seen_keys: Vec<String> = Vec::new();
    let sn = builder.sources.len();
    let mut si: usize = 0;
    while si < sn
        invariant
            si <= sn,
            sn == builder.sources@.len(),
            simple == (builder.transforms@.len() == 0 && builder.sources@.len() == 1
                && builder.sinks@.len() == 1 && builder.sources@[0].0.id@
                != builder.sinks@[0].0.id@),
            simple && si == 0 ==> seen_keys@.len() == 0 && errors@.len() == 0,
            simple && si >= 1 ==> seen_keys@.len() == 1 && seen_keys@[0]@
                == builder.sources@[0].0.id@ && errors@.len() == 0,
        decreases sn - si,
    {
        note_component_key(&mut seen_keys, &mut errors, &builder.sources[si].0);
        si = si + 1;
    }
    let tn = builder.transforms.len();
    let mut ti: usize = 0;
    while ti < tn
        invariant
            ti <= tn,
            tn == builder.transforms@.len(),
            simple == (builder.transforms@.len() == 0 && builder.sources@.len() == 1
                && builder.sinks@.len() == 1 && builder.sources@[0].0.id@
                != builder.sinks@[0].0.id@),
            simple ==> seen_keys@.len() == 1 && seen_keys@[0]@ == builder.sources@[0].0.id@
                && errors@.len() == 0,
        decreases tn - ti,
    {
        note_component_key(&mut seen_keys, &mut errors, &builder.transforms[ti].0);
        ti = ti + 1;
    }
    let kn = builder.sinks.len();
    let mut ki: usize = 0;
    while ki < kn
        invariant
            ki <= kn,
            kn == builder.sinks@.len(),
            simple == (builder.transforms@.len() == 0 && builder.sources@.len() == 1
                && builder.sinks@.len() == 1 && builder.sources@[0].0.id@
                != builder.sinks@[0].0.id@),
            simple && ki == 0 ==> seen_keys@.len() == 1 && seen_keys@[0]@
                == builder.sources@[0].0.id@ && errors@.len() == 0,
            simple && ki >= 1 ==> errors@.len() == 0,
        decreases kn - ki,
    {
        note_component_key(&mut seen_keys, &mut errors, &builder.sinks[ki].0);
        ki = ki + 1;
    }
    errors
}

/// Record one component key, reporting a name used more than once.
fn note_component_key(seen: &mut Vec<String>, errors: &mut Vec<String>, key: &ComponentKey)
    ensures
        (forall|j: int| 0 <= j < old(seen)@.len() ==> (#[trigger] old(seen)@[j])@ != key.id@)
            ==> (final(errors)@ == old(errors)@ && final(seen)@.len() == old(seen)@.len() + 1
            && final(seen)@.last()@ == key.id@ && (forall|j: int|
            0 <= j < old(seen)@.len() ==> #[trigger] final(seen)@[j] == old(seen)@[j])),
{
    let n = seen.len();
    let mut i: usize = 0;
    while i < n
        invariant
            i <= n,
            n == seen@.len(),
            seen@ == old(seen)@,
            errors@ == old(errors)@,
        decreases n - i,
    {
        if str_eq(seen[i].as_str(), key.id.as_str()) {
            errors.push(
                String::from_str("component name \"").concat(key.id.as_str()).concat(
                    "\" is used by more than one component",
                ),
            );
            return ;
        }
        i = i + 1;
    }
    seen.push(key.id.clone());
}

/// Record one claimed resource, reporting a collision with any earlier
/// claim.
fn note_resource(seen: &mut Vec<String>, errors: &mut Vec<String>, resource: &String) {
    let n = seen.len();
    let mut i: usize = 0;
    while i < n
        invariant
            i <= n,
            n == seen@.len(),
        decreases n - i,
    {
        if str_eq(seen[i].as_str(), resource.as_str()) {
            errors.push(
                String::from_str("resource \"").concat(resource.as_str()).concat(
                    "\" is claimed by more than one component",
                ),
            );
            return ;
        }
        i = i + 1;
    }
    seen.push(resource.clone());
}

/// The name of one source, for quantified resolution claims.
pub open spec fn sources_key(sources: Seq<(ComponentKey, SourceSpec)>, i: int) -> Seq<char> {
    sources[i].0.id@
}

/// The view of one resolved port reference.
pub struct OutputIdV {
    pub component: Seq<char>,
    pub port: Option<Seq<char>>,
}

/// The view of a resolved output.
pub open spec fn output_id_v(o: OutputId) -> OutputIdV {
    OutputIdV {
        component: o.component.id@,
        port: match o.port {
            Some(p) => Some(p@),
            None => None,
        },
    }
}

/// The view of a resolved input list.
pub open spec fn outputs_view(os: Seq<OutputId>) -> Seq<OutputIdV> {
    os.map_values(|o: OutputId| output_id_v(o))
}

/// What resolution reads of a transform: its key and its named output
/// ports.  Glob-expanded input lists do not take part.
pub open spec fn resolve_table(ts: Seq<(ComponentKey, TransformOuter)>) -> Seq<
    (Seq<char>, Seq<Seq<char>>),
> {
    ts.map_values(
        |t: (ComponentKey, TransformOuter)| (t.0.id@, t.1.inner.named_outputs.deep_view()),
    )
}

/// The same table, read off expanded transform views.
pub open spec fn tv_table(tvs: Seq<TransformV>) -> Seq<(Seq<char>, Seq<Seq<char>>)> {
    tvs.map_values(|t: TransformV| (t.key, t.named_outputs))
}

/// Whether some table entry has this key.
pub open spec fn spec_table_has_key(
    table: Seq<(Seq<char>, Seq<Seq<char>>)>,
    input: Seq<char>,
) -> bool {
    exists|i: int| 0 <= i < table.len() && (#[trigger] table[i]).0 == input
}

/// The first port of one entry whose `key.port` text is the input.
pub open spec fn spec_find_port(
    key: Seq<char>,
    ports: Seq<Seq<char>>,
    input: Seq<char>,
) -> Option<Seq<char>>
    decreases ports.len(),
{
    if ports.len() == 0 {
        None
    } else if spec_child_key(key, ports[0]) == input {
        Some(ports[0])
    } else {
        spec_find_port(key, ports.drop_first(), input)
    }
}

/// The first port reference of the table that the input names.
pub open spec fn spec_resolve_port(
    table: Seq<(Seq<char>, Seq<Seq<char>>)>,
    input: Seq<char>,
) -> Option<OutputIdV>
    decreases table.len(),
{
    if table.len() == 0 {
        None
    } else {
        match spec_find_port(table[0].0, table[0].1, input) {
            Some(p) => Some(OutputIdV { component: table[0].0, port: Some(p) }),
            None => spec_resolve_port(table.drop_first(), input),
        }
    }
}

/// What one input string resolves to: a source or transform of that
/// exact name, else the first matching `transform.port` reference, else
/// nothing.
pub open spec fn spec_resolve(
    input: Seq<char>,
    names: Seq<Seq<char>>,
    table: Seq<(Seq<char>, Seq<Seq<char>>)>,
) -> Option<OutputIdV> {
    if names.contains(input) || spec_table_has_key(table, input) {
        Some(OutputIdV { component: input, port: None })
    } else {
        spec_resolve_port(table, input)
    }
}

/// The resolutions of an input list, in order, where every input
/// resolves.
pub open spec fn spec_resolutions(
    inputs: Seq<Seq<char>>,
    names: Seq<Seq<char>>,
    table: Seq<(Seq<char>, Seq<Seq<char>>)>,
) -> Seq<OutputIdV>
    decreases inputs.len(),
{
    if inputs.len() == 0 {
        Seq::empty()
    } else {
        let head = match spec_resolve(inputs[0], names, table) {
            Some(o) => seq![o],
            None => Seq::empty(),
        };
        head + spec_resolutions(inputs.drop_first(), names, table)
    }
}

/// Every input string of every transform and sink resolves.
pub open spec fn spec_all_inputs_resolve(builder: &ConfigBuilder) -> bool {
    &&& forall|k: int, q: int|
        0 <= k < builder.transforms@.len() && 0 <= q < builder.transforms@[k].1.inputs@.len()
            ==> spec_resolve(
            (#[trigger] builder.transforms@[k].1.inputs@[q])@,
            spec_source_names(builder.sources@),
            resolve_table(builder.transforms@),
        ) is Some
    &&& forall|k: int, q: int|
        0 <= k < builder.sinks@.len() && 0 <= q < builder.sinks@[k].1.inputs@.len()
            ==> spec_resolve(
            (#[trigger] builder.sinks@[k].1.inputs@[q])@,
            spec_source_names(builder.sources@),
            resolve_table(builder.transforms@),
        ) is Some
}

/// A topology with no transforms whose every sink input names a source:
/// the shape whose resolution can never fail.
pub open spec fn spec_plain_resolvable(builder: &ConfigBuilder) -> bool {
    builder.transforms@.len() == 0 && (forall|j: int, q: int|
        0 <= j < builder.sinks@.len() && 0 <= q < builder.sinks@[j].1.inputs@.len()
            ==> exists|i: int|
            0 <= i < builder.sources@.len() && (#[trigger] sources_key(builder.sources@, i)) == (
            #[trigger] builder.sinks@[j].1.inputs@[q])@)
}

/// Resolve one input string against the expanded components: an exact
/// source or transform name, or a `transform.port` reference.
fn resolve_input(
    input: &String,
    sources: &Vec<(ComponentKey, SourceSpec)>,
    transforms: &Vec<(ComponentKey, TransformOuter)>,
) -> (r: Option<OutputId>)
    ensures
        (exists|i: int|
            0 <= i < sources@.len() && (#[trigger] sources@[i]).0.id@ == input@) ==> r is Some,
        match r {
            Some(o) => spec_resolve(
                input@,
                spec_source_names(sources@),
                resolve_table(transforms@),
            ) == Some(output_id_v(o)),
            None => spec_resolve(
                input@,
                spec_source_names(sources@),
                resolve_table(transforms@),
            ) is None,
        },
{
    let ghost names = spec_source_names(sources@);
    let ghost table = resolve_table(transforms@);
    let n = sources.len();
    let mut i: usize = 0;
    while i < n
        invariant
            i <= n,
            n == sources@.len(),
            names == spec_source_names(sources@),
            forall|k: int| 0 <= k < i ==> (#[trigger] sources@[k]).0.id@ != input@,
        decreases n - i,
    {
        if str_eq(sources[i].0.id.as_str(), input.as_str()) {
            proof {
                assert(names[i as int] == input@);
                assert(names.contains(input@));
            }
            return Some(OutputId { component: sources[i].0.clone_key(), port: None });
        }
        i = i + 1;
    }
    proof {
        assert(!names.contains(input@)) by {
            if names.contains(input@) {
                let w = choose|w: int| 0 <= w < names.len() && names[w] == input@;
                assert(sources@[w].0.id@ == input@);
            }
        }
    }
    let m = transforms.len();
    let mut j: usize = 0;
    while j < m
        invariant
            j <= m,
            m == transforms@.len(),
            table == resolve_table(transforms@),
            names == spec_source_names(sources@),
            !names.contains(input@),
            forall|k: int| 0 <= k < j ==> (#[trigger] table[k]).0 != input@,
        decreases m - j,
    {
        if str_eq(transforms[j].0.id.as_str(), input.as_str()) {
            proof {
                assert(table[j as int].0 == input@);
                assert(spec_table_has_key(table, input@));
            }
            return Some(OutputId { component: transforms[j].0.clone_key(), port: None });
        }
        j = j + 1;
    }
    proof {
        assert(!spec_table_has_key(table, input@));
        assert(table.skip(0) =~= table);
    }
    let mut j2: usize = 0;
    while j2 < m
        invariant
            j2 <= m,
            m == transforms@.len(),
            table == resolve_table(transforms@),
            names == spec_source_names(sources@),
            m == table.len(),
            !names.contains(input@),
            !spec_table_has_key(table, input@),
            spec_resolve_port(table, input@) == spec_resolve_port(table.skip(j2 as int), input@),
        decreases m - j2,
    {
        proof {
            assert(table.skip(j2 as int)[0] == table[j2 as int]);
            assert(table.skip(j2 as int).drop_first() =~= table.skip(j2 as int + 1));
        }
        let ports = transforms[j2].1.inner.named_outputs.len();
        let ghost pv = table[j2 as int].1;
        let mut p: usize = 0;
        proof {
            assert(pv =~= transforms@[j2 as int].1.inner.named_outputs.deep_view());
            assert(pv.skip(0) =~= pv);
        }
        while p < ports
            invariant
                p <= ports,
                j2 < transforms@.len(),
                m == transforms@.len(),
                table == resolve_table(transforms@),
                ports == transforms@[j2 as int].1.inner.named_outputs@.len(),
                pv == table[j2 as int].1,
                pv == transforms@[j2 as int].1.inner.named_outputs.deep_view(),
                ports == pv.len(),
                names == spec_source_names(sources@),
                !names.contains(input@),
                !spec_table_has_key(table, input@),
                spec_find_port(table[j2 as int].0, pv, input@) == spec_find_port(
                    table[j2 as int].0,
                    pv.skip(p as int),
                    input@,
                ),
                spec_resolve_port(table, input@) == spec_resolve_port(
                    table.skip(j2 as int),
                    input@,
                ),
            decreases ports - p,
        {
            proof {
                assert(pv.skip(p as int)[0] == pv[p as int]);
                assert(pv.skip(p as int).drop_first() =~= pv.skip(p as int + 1));
                assert(pv[p as int] == transforms@[j2 as int].1.inner.named_outputs@[p as int]@);
            }
            let text = transforms[j2].0.id.clone().concat(".").concat(
                transforms[j2].1.inner.named_outputs[p].as_str(),
            );
            proof {
                assert(text@ == spec_child_key(table[j2 as int].0, pv[p as int]));
            }
            if str_eq(text.as_str(), input.as_str()) {
                proof {
                    assert(table[j2 as int].0 == transforms@[j2 as int].0.id@);
                    assert(spec_find_port(table[j2 as int].0, pv.skip(p as int), input@) == Some(
                        pv[p as int],
                    ));
                    assert(spec_resolve_port(table.skip(j2 as int), input@) == Some(
                        OutputIdV { component: table[j2 as int].0, port: Some(pv[p as int]) },
                    ));
                }
                return Some(
                    OutputId {
                        component: transforms[j2].0.clone_key(),
                        port: Some(transforms[j2].1.inner.named_outputs[p].clone()),
                    },
                );
            }
            p = p + 1;
        }
        proof {
            assert(pv.skip(ports as int).len() == 0);
            assert(spec_find_port(table[j2 as int].0, pv, input@) is None);
        }
        j2 = j2 + 1;
    }
    proof {
        assert(table.skip(m as int).len() == 0);
        assert(spec_resolve_port(table, input@) is None);
    }
    None
}

/// Resolve the input lists of every transform and sink, collecting one
/// error per input that names no existing component or port.
fn resolve_all(builder: &ConfigBuilder) -> (r: Result<
    (Vec<Vec<OutputId>>, Vec<Vec<OutputId>>),
    Vec<String>,
>)
    ensures
        r matches Err(e) ==> e@.len() > 0,
        (r is Ok) == spec_all_inputs_resolve(builder),
        r matches Ok((t, s)) ==> {
            &&& t@.len() == builder.transforms@.len()
            &&& s@.len() == builder.sinks@.len()
            &&& (forall|k: int|
                0 <= k < t@.len() ==> outputs_view((#[trigger] t@[k])@) == spec_resolutions(
                    builder.transforms@[k].1.inputs.deep_view(),
                    spec_source_names(builder.sources@),
                    resolve_table(builder.transforms@),
                ))
            &&& (forall|k: int|
                0 <= k < s@.len() ==> outputs_view((#[trigger] s@[k])@) == spec_resolutions(
                    builder.sinks@[k].1.inputs.deep_view(),
                    spec_source_names(builder.sources@),
                    resolve_table(builder.transforms@),
                ))
        },
{
    let ghost names = spec_source_names(builder.sources@);
    let ghost table = resolve_table(builder.transforms@);
    let mut errors: Vec<String> = Vec::new();
    let mut transform_inputs: Vec<Vec<OutputId>> = Vec::new();
    let n = builder.transforms.len();
    let mut i: usize = 0;
    while i < n
        invariant
            i <= n,
            n == builder.transforms@.len(),
            names == spec_source_names(builder.sources@),
            table == resolve_table(builder.transforms@),
            transform_inputs@.len() == i,
            (errors@.len() == 0) == (forall|k: int, q: int|
                0 <= k < i && 0 <= q < builder.transforms@[k].1.inputs@.len() ==> spec_resolve(
                    (#[trigger] builder.transforms@[k].1.inputs@[q])@,
                    names,
                    table,
                ) is Some),
            errors@.len() == 0 ==> (forall|k: int|
                0 <= k < i ==> outputs_view((#[trigger] transform_inputs@[k])@)
                    == spec_resolutions(
                    builder.transforms@[k].1.inputs.deep_view(),
                    names,
                    table,
                )),
        decreases n - i,
    {
        let ghost errors_empty_before = errors@.len() == 0;
        let mut resolved: Vec<OutputId> = Vec::new();
        let inn = builder.transforms[i].1.inputs.len();
        let ghost iv = builder.transforms@[i as int].1.inputs.deep_view();
        let mut q: usize = 0;
        proof {
            assert(iv.skip(0) =~= iv);
        }
        while q < inn
            invariant
                q <= inn,
                i < builder.transforms@.len(),
                n == builder.transforms@.len(),
                inn == builder.transforms@[i as int].1.inputs@.len(),
                names == spec_source_names(builder.sources@),
                table == resolve_table(builder.transforms@),
                iv == builder.transforms@[i as int].1.inputs.deep_view(),
                inn == iv.len(),
                errors_empty_before == (forall|k: int, q2: int|
                    0 <= k < i && 0 <= q2 < builder.transforms@[k].1.inputs@.len()
                        ==> spec_resolve(
                        (#[trigger] builder.transforms@[k].1.inputs@[q2])@,
                        names,
                        table,
                    ) is Some),
                errors_empty_before ==> (forall|k: int|
                    0 <= k < i ==> outputs_view((#[trigger] transform_inputs@[k])@)
                        == spec_resolutions(
                        builder.transforms@[k].1.inputs.deep_view(),
                        names,
                        table,
                    )),
                (errors@.len() == 0) == (errors_empty_before && (forall|q2: int|
                    0 <= q2 < q ==> spec_resolve(#[trigger] iv[q2], names, table) is Some)),
                errors@.len() == 0 ==> spec_resolutions(iv, names, table) =~= outputs_view(
                    resolved@,
                ) + spec_resolutions(iv.skip(q as int), names, table),
            decreases inn - q,
        {
            proof {
                assert(iv.skip(q as int)[0] == iv[q as int]);
                assert(iv.skip(q as int).drop_first() =~= iv.skip(q as int + 1));
                assert(iv[q as int] == builder.transforms@[i as int].1.inputs@[q as int]@);
            }
            match resolve_input(
                &builder.transforms[i].1.inputs[q],
                &builder.sources,
                &builder.transforms,
            ) {
                Some(output) => {
                    let ghost before = outputs_view(resolved@);
                    resolved.push(output);
                    proof {
                        assert(outputs_view(resolved@) =~= before.push(output_id_v(output)));
                    }
                },
                None => {
                    errors.push(
                        String::from_str("input \"").concat(
                            builder.transforms[i].1.inputs[q].as_str(),
                        ).concat("\" for transform \"").concat(
                            builder.transforms[i].0.id.as_str(),
                        ).concat("\" doesn't match any components"),
                    );
                },
            }
            q = q + 1;
        }
        proof {
            if errors@.len() == 0 {
                assert(spec_resolutions(iv.skip(inn as int), names, table) =~= Seq::<
                    OutputIdV,
                >::empty());
                assert(outputs_view(resolved@) =~= spec_resolutions(iv, names, table));
                assert forall|q2: int|
                    0 <= q2 < builder.transforms@[i as int].1.inputs@.len() implies spec_resolve(
                    (#[trigger] builder.transforms@[i as int].1.inputs@[q2])@,
                    names,
                    table,
                ) is Some by {
                    assert(iv[q2] == builder.transforms@[i as int].1.inputs@[q2]@);
                }
            }
            if errors_empty_before && (forall|k: int, q2: int|
                0 <= k < i + 1 && 0 <= q2 < builder.transforms@[k].1.inputs@.len()
                    ==> spec_resolve(
                    (#[trigger] builder.transforms@[k].1.inputs@[q2])@,
                    names,
                    table,
                ) is Some) {
                assert forall|q2: int|
                    0 <= q2 < inn implies spec_resolve(#[trigger] iv[q2], names, table)
                        is Some by {
                    assert(iv[q2] == builder.transforms@[i as int].1.inputs@[q2]@);
                    assert(spec_resolve(builder.transforms@[i as int].1.inputs@[q2]@, names, table)
                        is Some);
                }
                assert(errors@.len() == 0);
            }
        }
        transform_inputs.push(resolved);
        i = i + 1;
    }
    let mut sink_inputs: Vec<Vec<OutputId>> = Vec::new();
    let m = builder.sinks.len();
    let mut j: usize = 0;
    while j < m
        invariant
            j <= m,
            m == builder.sinks@.len(),
            n == builder.transforms@.len(),
            names == spec_source_names(builder.sources@),
            table == resolve_table(builder.transforms@),
            transform_inputs@.len() == n,
            sink_inputs@.len() == j,
            (errors@.len() == 0) == ((forall|k: int, q: int|
                0 <= k < n && 0 <= q < builder.transforms@[k].1.inputs@.len() ==> spec_resolve(
                    (#[trigger] builder.transforms@[k].1.inputs@[q])@,
                    names,
                    table,
                ) is Some) && (forall|k: int, q: int|
                0 <= k < j && 0 <= q < builder.sinks@[k].1.inputs@.len() ==> spec_resolve(
                    (#[trigger] builder.sinks@[k].1.inputs@[q])@,
                    names,
                    table,
                ) is Some)),
            errors@.len() == 0 ==> (forall|k: int|
                0 <= k < n ==> outputs_view((#[trigger] transform_inputs@[k])@)
                    == spec_resolutions(
                    builder.transforms@[k].1.inputs.deep_view(),
                    names,
                    table,
                )),
            errors@.len() == 0 ==> (forall|k: int|
                0 <= k < j ==> outputs_view((#[trigger] sink_inputs@[k])@) == spec_resolutions(
                    builder.sinks@[k].1.inputs.deep_view(),
                    names,
                    table,
                )),
        decreases m - j,
    {
        let ghost errors_empty_before = errors@.len() == 0;
        let mut resolved: Vec<OutputId> = Vec::new();
        let inn = builder.sinks[j].1.inputs.len();
        let ghost iv = builder.sinks@[j as int].1.inputs.deep_view();
        let mut q: usize = 0;
        proof {
            assert(iv.skip(0) =~= iv);
        }
        while q < inn
            invariant
                q <= inn,
                j < builder.sinks@.len(),
                m == builder.sinks@.len(),
                n == builder.transforms@.len(),
                inn == builder.sinks@[j as int].1.inputs@.len(),
                names == spec_source_names(builder.sources@),
                table == resolve_table(builder.transforms@),
                iv == builder.sinks@[j as int].1.inputs.deep_view(),
                inn == iv.len(),
                transform_inputs@.len() == n,
                errors_empty_before == ((forall|k: int, q2: int|
                    0 <= k < n && 0 <= q2 < builder.transforms@[k].1.inputs@.len()
                        ==> spec_resolve(
                        (#[trigger] builder.transforms@[k].1.inputs@[q2])@,
                        names,
                        table,
                    ) is Some) && (forall|k: int, q2: int|
                    0 <= k < j && 0 <= q2 < builder.sinks@[k].1.inputs@.len() ==> spec_resolve(
                        (#[trigger] builder.sinks@[k].1.inputs@[q2])@,
                        names,
                        table,
                    ) is Some)),
                errors_empty_before ==> (forall|k: int|
                    0 <= k < n ==> outputs_view((#[trigger] transform_inputs@[k])@)
                        == spec_resolutions(
                        builder.transforms@[k].1.inputs.deep_view(),
                        names,
                        table,
                    )),
                errors_empty_before ==> (forall|k: int|
                    0 <= k < j ==> outputs_view((#[trigger] sink_inputs@[k])@)
                        == spec_resolutions(
                        builder.sinks@[k].1.inputs.deep_view(),
                        names,
                        table,
                    )),
                (errors@.len() == 0) == (errors_empty_before && (forall|q2: int|
                    0 <= q2 < q ==> spec_resolve(#[trigger] iv[q2], names, table) is Some)),
                errors@.len() == 0 ==> spec_resolutions(iv, names, table) =~= outputs_view(
                    resolved@,
                ) + spec_resolutions(iv.skip(q as int), names, table),
            decreases inn - q,
        {
            proof {
                assert(iv.skip(q as int)[0] == iv[q as int]);
                assert(iv.skip(q as int).drop_first() =~= iv.skip(q as int + 1));
                assert(iv[q as int] == builder.sinks@[j as int].1.inputs@[q as int]@);
            }
            match resolve_input(
                &builder.sinks[j].1.inputs[q],
                &builder.sources,
                &builder.transforms,
            ) {
                Some(output) => {
                    let ghost before = outputs_view(resolved@);
                    resolved.push(output);
                    proof {
                        assert(outputs_view(resolved@) =~= before.push(output_id_v(output)));
                    }
                },
                None => {
                    errors.push(
                        String::from_str("input \"").concat(
                            builder.sinks[j].1.inputs[q].as_str(),
                        ).concat("\" for sink \"").concat(builder.sinks[j].0.id.as_str()).concat(
                            "\" doesn't match any components",
                        ),
                    );
                },
            }
            q = q + 1;
        }
        proof {
            if errors@.len() == 0 {
                assert(spec_resolutions(iv.skip(inn as int), names, table) =~= Seq::<
                    OutputIdV,
                >::empty());
                assert(outputs_view(resolved@) =~= spec_resolutions(iv, names, table));
                assert forall|q2: int|
                    0 <= q2 < builder.sinks@[j as int].1.inputs@.len() implies spec_resolve(
                    (#[trigger] builder.sinks@[j as int].1.inputs@[q2])@,
                    names,
                    table,
                ) is Some by {
                    assert(iv[q2] == builder.sinks@[j as int].1.inputs@[q2]@);
                }
            }
            if errors_empty_before && (forall|k: int, q2: int|
                0 <= k < j + 1 && 0 <= q2 < builder.sinks@[k].1.inputs@.len() ==> spec_resolve(
                    (#[trigger] builder.sinks@[k].1.inputs@[q2])@,
                    names,
                    table,
                ) is Some) {
                assert forall|q2: int|
                    0 <= q2 < inn implies spec_resolve(#[trigger] iv[q2], names, table)
                        is Some by {
                    assert(iv[q2] == builder.sinks@[j as int].1.inputs@[q2]@);
                    assert(spec_resolve(builder.sinks@[j as int].1.inputs@[q2]@, names, table)
                        is Some);
                }
                assert(errors@.len() == 0);
            }
        }
        sink_inputs.push(resolved);
        j = j + 1;
    }
    proof {
        if errors@.len() == 0 {
            assert(spec_all_inputs_resolve(builder));
        } else {
            assert(!spec_all_inputs_resolve(builder));
        }
    }
    if errors.len() > 0 {
        Err(errors)
    } else {
        Ok((transform_inputs, sink_inputs))
    }
}

/// The output type of the component an input refers to.
fn upstream_output_type(
    output: &OutputId,
    sources: &Vec<(ComponentKey, SourceSpec)>,
    transforms: &Vec<(ComponentKey, TransformOuter)>,
) -> DataType {
    let n = sources.len();
    let mut i: usize = 0;
    while i < n
        invariant
            i <= n,
            n == sources@.len(),
        decreases n - i,
    {
        if str_eq(sources[i].0.id.as_str(), output.component.id.as_str()) {
            return sources[i].1.output_type;
        }
        i = i + 1;
    }
    let m = transforms.len();
    let mut j: usize = 0;
    while j < m
        invariant
            j <= m,
            m == transforms@.len(),
        decreases m - j,
    {
        if str_eq(transforms[j].0.id.as_str(), output.component.id.as_str()) {
            return transforms[j].1.inner.output_type;
        }
        j = j + 1;
    }
    DataType::Any
}

/// A topology with no transforms whose every sink accepts any stream:
/// the shape no edge type-check can fail on.
pub open spec fn spec_all_sinks_any(builder: &ConfigBuilder) -> bool {
    builder.transforms@.len() == 0 && (forall|j: int|
        0 <= j < builder.sinks@.len() ==> (#[trigger] builder.sinks@[j]).1.inner.input_type is Any)
}

/// Type-check every resolved edge: the upstream output type must be
/// compatible with the downstream input type, one error per bad edge.
fn typecheck_edges(
    builder: &ConfigBuilder,
    transform_inputs: &Vec<Vec<OutputId>>,
    sink_inputs: &Vec<Vec<OutputId>>,
) -> (errors: Vec<String>)
    requires
        transform_inputs@.len() == builder.transforms@.len(),
        sink_inputs@.len() == builder.sinks@.len(),
    ensures
        spec_all_sinks_any(builder) ==> errors@.len() == 0,
{
    let mut errors: Vec<String> = Vec::new();
    let n = builder.transforms.len();
    let mut i: usize = 0;
    while i < n
        invariant
            i <= n,
            n == builder.transforms@.len(),
            transform_inputs@.len() == n,
            spec_all_sinks_any(builder) ==> errors@.len() == 0,
        decreases n - i,
    {
        let edges = &transform_inputs[i];
        let en = edges.len();
        let mut q: usize = 0;
        while q < en
            invariant
                q <= en,
                i < builder.transforms@.len(),
                i < transform_inputs@.len(),
                en == transform_inputs@[i as int]@.len(),
                en == edges@.len(),
            decreases en - q,
        {
            let out_type = upstream_output_type(&edges[q], &builder.sources, &builder.transforms);
            if !out_type.compatible_with(builder.transforms[i].1.inner.input_type) {
                errors.push(
                    String::from_str("data type mismatch between \"").concat(
                        edges[q].component.id.as_str(),
                    ).concat("\" and \"").concat(builder.transforms[i].0.id.as_str()).concat("\""),
                );
            }
            q = q + 1;
        }
        i = i + 1;
    }
    let m = builder.sinks.len();
    let mut j: usize = 0;
    while j < m
        invariant
            j <= m,
            m == builder.sinks@.len(),
            sink_inputs@.len() == m,
            spec_all_sinks_any(builder) ==> errors@.len() == 0,
        decreases m - j,
    {
        let edges = &sink_inputs[j];
        let en = edges.len();
        let mut q: usize = 0;
        while q < en
            invariant
                q <= en,
                j < builder.sinks@.len(),
                j < sink_inputs@.len(),
                en == sink_inputs@[j as int]@.len(),
                en == edges@.len(),
                spec_all_sinks_any(builder) ==> errors@.len() == 0,
            decreases en - q,
        {
            let out_type = upstream_output_type(&edges[q], &builder.sources, &builder.transforms);
            if !out_type.compatible_with(builder.sinks[j].1.inner.input_type) {
                errors.push(
                    String::from_str("data type mismatch between \"").concat(
                        edges[q].component.id.as_str(),
                    ).concat("\" and \"").concat(builder.sinks[j].0.id.as_str()).concat("\""),
                );
            }
            q = q + 1;
        }
        j = j + 1;
    }
    errors
}

/// Detect an inference cycle among the transforms: every transform must
/// be reachable from the sources through resolved inputs alone.
fn check_cycles(
    builder: &ConfigBuilder,
    transform_inputs: &Vec<Vec<OutputId>>,
) -> (errors: Vec<String>)
    requires
        transform_inputs@.len() == builder.transforms@.len(),
    ensures
        builder.transforms@.len() == 0 ==> errors@.len() == 0,
{
    let n = builder.transforms.len();
    let mut settled: Vec<bool> = Vec::new();
    let mut i: usize = 0;
    while i < n
        invariant
            i <= n,
            settled@.len() == i,
        decreases n - i,
    {
        settled.push(false);
        i = i + 1;
    }
    // Each round settles at least one transform whose inputs are all
    // settled, so `n` rounds settle everything reachable.
    let mut round: usize = 0;
    while round < n
        invariant
            settled@.len() == n,
            n == builder.transforms@.len(),
            transform_inputs@.len() == n,
        decreases n - round,
    {
        let mut t: usize = 0;
        while t < n
            invariant
                t <= n,
                settled@.len() == n,
                n == builder.transforms@.len(),
                transform_inputs@.len() == n,
            decreases n - t,
        {
            if !settled[t] {
                let edges = &transform_inputs[t];
                let en = edges.len();
                let mut ok = true;
                let mut q: usize = 0;
                while q < en
                    invariant
                        q <= en,
                        t < transform_inputs@.len(),
                        settled@.len() == n,
                        n == builder.transforms@.len(),
                        en == transform_inputs@[t as int]@.len(),
                        en == edges@.len(),
                    decreases en - q,
                {
                    match transform_index(&builder.transforms, edges[q].component.id.as_str()) {
                        Some(u) => {
                            if !settled[u] {
                                ok = false;
                            }
                        },
                        None => {},
                    }
                    q = q + 1;
                }
                if ok {
                    settled[t] = true;
                }
            }
            t = t + 1;
        }
        round = round + 1;
    }
    let mut errors: Vec<String> = Vec::new();
    let mut t: usize = 0;
    while t < n
        invariant
            t <= n,
            settled@.len() == n,
            n == builder.transforms@.len(),
            n == 0 ==> errors@.len() == 0,
        decreases n - t,
    {
        if !settled[t] {
            errors.push(
                String::from_str("cyclic dependency detected at transform \"").concat(
                    builder.transforms[t].0.id.as_str(),
                ).concat("\""),
            );
        }
        t = t + 1;
    }
    errors
}

/// The position of a transform key, if any.
fn transform_index(transforms: &Vec<(ComponentKey, TransformOuter)>, id: &str) -> (r: Option<
    usize,
>)
    ensures
        r matches Some(u) ==> u < transforms@.len(),
{
    let m = transforms.len();
    let mut j: usize = 0;
    while j < m
        invariant
            j <= m,
            m == transforms@.len(),
        decreases m - j,
    {
        if str_eq(transforms[j].0.id.as_str(), id) {
            return Some(j);
        }
        j = j + 1;
    }
    None
}

/// Warnings for components whose output nothing reads.
fn unused_warnings(
    builder: &ConfigBuilder,
    transform_inputs: &Vec<Vec<OutputId>>,
    sink_inputs: &Vec<Vec<OutputId>>,
) -> (warnings: Vec<String>) {
    let mut warnings: Vec<String> = Vec::new();
    let n = builder.sources.len();
    let mut i: usize = 0;
    while i < n
        invariant
            i <= n,
            n == builder.sources@.len(),
        decreases n - i,
    {
        if !is_consumed(builder.sources[i].0.id.as_str(), transform_inputs, sink_inputs) {
            warnings.push(
                String::from_str("source \"").concat(builder.sources[i].0.id.as_str()).concat(
                    "\" has no consumers",
                ),
            );
        }
        i = i + 1;
    }
    let m = builder.transforms.len();
    let mut j: usize = 0;
    while j < m
        invariant
            j <= m,
            m == builder.transforms@.len(),
        decreases m - j,
    {
        if !is_consumed(builder.transforms[j].0.id.as_str(), transform_inputs, sink_inputs) {
            warnings.push(
                String::from_str("transform \"").concat(builder.transforms[j].0.id.as_str()).concat(
                    "\" has no consumers",
                ),
            );
        }
        j = j + 1;
    }
    warnings
}

/// Whether any resolved input reads the given component.
fn is_consumed(
    id: &str,
    transform_inputs: &Vec<Vec<OutputId>>,
    sink_inputs: &Vec<Vec<OutputId>>,
) -> bool {
    let n = transform_inputs.len();
    let mut i: usize = 0;
    while i < n
        invariant
            i <= n,
            n == transform_inputs@.len(),
        decreases n - i,
    {
        let edges = &transform_inputs[i];
        let en = edges.len();
        let mut q: usize = 0;
        while q < en
            invariant
                q <= en,
                i < transform_inputs@.len(),
                en == transform_inputs@[i as int]@.len(),
                en == edges@.len(),
            decreases en - q,
        {
            if str_eq(edges[q].component.id.as_str(), id) {
                return true;
            }
            q = q + 1;
        }
        i = i + 1;
    }
    let m = sink_inputs.len();
    let mut j: usize = 0;
    while j < m
        invariant
            j <= m,
            m == sink_inputs@.len(),
        decreases m - j,
    {
        let edges = &sink_inputs[j];
        let en = edges.len();
        let mut q: usize = 0;
        while q < en
            invariant
                q <= en,
                j < sink_inputs@.len(),
                en == sink_inputs@[j as int]@.len(),
                en == edges@.len(),
            decreases en - q,
        {
            if str_eq(edges[q].component.id.as_str(), id) {
                return true;
            }
            q = q + 1;
        }
        j = j + 1;
    }
    false
}

/// The `component.port` strings of one transform view's ports.
pub open spec fn spec_port_keys(key: Seq<char>, ports: Seq<Seq<char>>) -> Seq<Seq<char>> {
    ports.map_values(|p: Seq<char>| spec_child_key(key, p))
}

/// The `component.port` strings of a list of transform views, in order.
pub open spec fn spec_all_port_keys(tvs: Seq<TransformV>) -> Seq<Seq<char>>
    decreases tvs.len(),
{
    if tvs.len() == 0 {
        Seq::empty()
    } else {
        spec_port_keys(tvs[0].key, tvs[0].named_outputs) + spec_all_port_keys(tvs.drop_first())
    }
}

/// The keys of a list of transform views.
pub open spec fn tv_keys(tvs: Seq<TransformV>) -> Seq<Seq<char>> {
    tvs.map_values(|t: TransformV| t.key)
}

/// The glob candidate set, read off source names and transform views.
pub open spec fn spec_candidates_v(names: Seq<Seq<char>>, tvs: Seq<TransformV>) -> Seq<Seq<char>> {
    (names + tv_keys(tvs)) + spec_all_port_keys(tvs)
}

/// The candidate set of a component table equals the candidate set of
/// its views.
pub proof fn lemma_candidates_tv(
    sources: Seq<(ComponentKey, SourceSpec)>,
    ts: Seq<(ComponentKey, TransformOuter)>,
)
    ensures
        spec_candidates(sources, ts) == spec_candidates_v(
            spec_source_names(sources),
            transforms_tv(ts),
        ),
{
    assert(spec_transform_names(ts) =~= tv_keys(transforms_tv(ts)));
    lemma_port_names_tv(ts);
    assert(spec_candidates(sources, ts) =~= spec_candidates_v(
        spec_source_names(sources),
        transforms_tv(ts),
    ));
}

proof fn lemma_port_names_tv(ts: Seq<(ComponentKey, TransformOuter)>)
    ensures
        spec_all_port_names(ts) == spec_all_port_keys(transforms_tv(ts)),
    decreases ts.len(),
{
    if ts.len() > 0 {
        lemma_port_names_tv(ts.drop_first());
        assert(transforms_tv(ts).drop_first() =~= transforms_tv(ts.drop_first()));
        assert(transforms_tv(ts)[0] == transform_tv(ts[0]));
        assert(spec_port_names(ts[0].0.id@, ts[0].1.inner.named_outputs@) =~= spec_port_keys(
            transform_tv(ts[0]).key,
            transform_tv(ts[0]).named_outputs,
        ));
        assert(spec_all_port_names(ts) =~= spec_all_port_keys(transforms_tv(ts)));
    } else {
        assert(transforms_tv(ts) =~= Seq::<TransformV>::empty());
        assert(spec_all_port_names(ts) =~= Seq::<Seq<char>>::empty());
        assert(spec_all_port_keys(transforms_tv(ts)) =~= Seq::<Seq<char>>::empty());
    }
}

/// Expanding the one input string `s` against the one candidate `s`
/// yields exactly `[s]`, whichever way the glob oracle reads `s`: a
/// matching glob selects the candidate, a non-matching or invalid one
/// falls back to the verbatim string.
pub proof fn lemma_expand_single(s: Seq<char>, id: Seq<char>)
    requires
        s != id,
    ensures
        spec_expand_inputs(seq![s], id, seq![s]) =~= seq![s],
{
    let singleton: Seq<Seq<char>> = seq![s];
    assert(singleton.drop_first() =~= Seq::<Seq<char>>::empty());
    assert(spec_glob_select(s, id, Seq::<Seq<char>>::empty()) =~= Seq::<Seq<char>>::empty());
    assert(spec_eq_select(s, id, Seq::<Seq<char>>::empty()) =~= Seq::<Seq<char>>::empty());
    if crate::trusted::spec_glob_pattern_ok(s) {
        if crate::trusted::spec_glob_match(s, s) {
            assert(spec_glob_select(s, id, singleton) =~= seq![s]);
        } else {
            assert(spec_glob_select(s, id, singleton) =~= Seq::<Seq<char>>::empty());
        }
    } else {
        assert(spec_eq_select(s, id, singleton) =~= seq![s]);
    }
    assert(spec_expand_one(s, id, singleton) =~= seq![s]);
    assert(spec_expand_inputs(singleton.drop_first(), id, singleton) =~= Seq::<Seq<char>>::empty());
    assert(spec_expand_inputs(singleton, id, singleton) =~= spec_expand_one(s, id, singleton)
        + spec_expand_inputs(singleton.drop_first(), id, singleton));
}

/// The smallest well-formed topology: one source feeding one sink that
/// accepts anything, by its literal name.  Compiling it always succeeds.
pub open spec fn spec_minimal_topology(builder: &ConfigBuilder) -> bool {
    &&& builder.transforms@.len() == 0
    &&& builder.sources@.len() == 1
    &&& builder.sinks@.len() == 1
    &&& !spec_has_dot(builder.sources@[0].0.id@)
    &&& !spec_has_dot(builder.sinks@[0].0.id@)
    &&& builder.sources@[0].0.id@ != builder.sinks@[0].0.id@
    &&& builder.sources@[0].1.resources@.len() == 0
    &&& builder.sinks@[0].1.inner.resources@.len() == 0
    &&& builder.sinks@[0].1.inputs@.len() == 1
    &&& builder.sinks@[0].1.inputs@[0]@ == builder.sources@[0].0.id@
    &&& builder.sinks@[0].1.inner.input_type is Any
}

/// Compile a declarative topology into a resolved, typed configuration.
///
/// Runs every phase — name and shape validation, macro expansion, glob
/// expansion, key-uniqueness and resource validation, input resolution,
/// edge type-checking and cycle detection — and aggregates the errors of all
/// of them, so one pass reports every problem.  Only input resolution
/// cuts the run short: the later graph phases cannot run without it.
/// On success the compiled configuration records, for every expanded
/// macro transform, its synthetic children in wiring order.
pub fn compile(builder: ConfigBuilder) -> (r: Result<(Config, Vec<String>), Vec<String>>)
    ensures
        r matches Err(e) ==> e@.len() > 0,
        spec_minimal_topology(&builder) ==> r is Ok,
        r is Ok ==> {
            &&& forall|i: int|
                0 <= i < builder.sources@.len() ==> !spec_has_dot(
                    (#[trigger] builder.sources@[i]).0.id@,
                )
            &&& forall|i: int|
                0 <= i < builder.transforms@.len() ==> !spec_has_dot(
                    (#[trigger] builder.transforms@[i]).0.id@,
                )
            &&& forall|i: int|
                0 <= i < builder.sinks@.len() ==> !spec_has_dot(
                    (#[trigger] builder.sinks@[i]).0.id@,
                )
            &&& !spec_some_expansion_fails(builder.transforms@)
        },
        r matches Ok((c, _)) ==> {
            let names = spec_source_names(builder.sources@);
            let tvs = spec_expand_transforms(builder.transforms@);
            let cands = spec_candidates_v(names, tvs);
            let table = tv_table(tvs);
            &&& expansions_view(c.expansions@) == spec_expansions(builder.transforms@)
            &&& c.sources@ == builder.sources@
            &&& c.sinks@.len() == builder.sinks@.len()
            &&& c.transforms@.len() == tvs.len()
            &&& (forall|k: int|
                0 <= k < c.transforms@.len() ==> {
                    &&& (#[trigger] c.transforms@[k]).0.id@ == tvs[k].key
                    &&& c.transforms@[k].1.inner.input_type == tvs[k].input_type
                    &&& c.transforms@[k].1.inner.output_type == tvs[k].output_type
                    &&& c.transforms@[k].1.inner.named_outputs.deep_view() == tvs[k].named_outputs
                    &&& outputs_view(c.transforms@[k].1.inputs@) == spec_resolutions(
                        spec_expand_inputs(tvs[k].inputs, tvs[k].key, cands),
                        names,
                        table,
                    )
                })
            &&& (forall|k: int|
                0 <= k < c.sinks@.len() ==> {
                    &&& (#[trigger] c.sinks@[k]).0 == builder.sinks@[k].0
                    &&& c.sinks@[k].1.inner == builder.sinks@[k].1.inner
                    &&& outputs_view(c.sinks@[k].1.inputs@) == spec_resolutions(
                        spec_expand_inputs(
                            builder.sinks@[k].1.inputs.deep_view(),
                            builder.sinks@[k].0.id@,
                            cands,
                        ),
                        names,
                        table,
                    )
                })
        },
{
    let ghost b0 = builder;
    let ghost minimal = spec_minimal_topology(&b0);
    let mut errors: Vec<String> = Vec::new();

    let mut name_errors = check_names(&builder);
    errors.append(&mut name_errors);
    proof {
        if minimal {
            assert(errors@.len() == 0);
        }
    }

    // Structural defects are rejected before expansion could hide them or
    // expand them into invalid shapes.
    let mut shape_errors = check_shape(&builder);
    errors.append(&mut shape_errors);
    proof {
        if minimal {
            assert(errors@.len() == 0);
        }
    }

    let (builder, expansions, mut expansion_errors) = expand_macros(builder);
    errors.append(&mut expansion_errors);
    proof {
        if minimal {
            assert(!spec_some_expansion_fails(b0.transforms@));
            assert(errors@.len() == 0);
            assert(builder.transforms@.len() == 0);
        }
    }
    let ghost b1 = builder;

    let builder = expand_globs(builder);
    proof {
        if minimal {
            let s = b0.sources@[0].0.id@;
            let sink_id = b0.sinks@[0].0.id@;
            assert(spec_transform_names(b1.transforms@) =~= Seq::<Seq<char>>::empty());
            assert(spec_all_port_names(b1.transforms@) =~= Seq::<Seq<char>>::empty());
            assert(spec_source_names(b1.sources@) =~= seq![s]);
            assert(spec_candidates(b1.sources@, b1.transforms@) =~= seq![s]);
            assert(b1.sinks@[0].1.inputs.deep_view() =~= seq![s]);
            lemma_expand_single(s, sink_id);
            assert(builder.sinks@[0].1.inputs.deep_view() =~= seq![s]);
            assert(builder.sinks@[0].1.inputs@[0]@ == s);
            assert(builder.sinks@[0].0 == b0.sinks@[0].0);
            assert(builder.sinks@[0].1.inner == b0.sinks@[0].1.inner);
            assert(builder.sources@ == b0.sources@);
            assert(builder.transforms@.len() == 0);
        }
    }

    let mut key_errors = check_unique_keys(&builder);
    errors.append(&mut key_errors);

    let mut resource_errors = check_resources(&builder);
    errors.append(&mut resource_errors);
    proof {
        if minimal {
            assert(errors@.len() == 0);
            assert(spec_plain_resolvable(&builder)) by {
                assert(sources_key(builder.sources@, 0) == builder.sinks@[0].1.inputs@[0]@);
            }
            assert(spec_all_sinks_any(&builder));
        }
    }

    let ghost errors_pre_graph = errors@;
    let (transform_inputs, sink_inputs) = match resolve_all(&builder) {
        Ok(resolved) => resolved,
        Err(mut graph_errors) => {
            errors.append(&mut graph_errors);
            return Err(errors);
        },
    };

    let mut type_errors = typecheck_edges(&builder, &transform_inputs, &sink_inputs);
    errors.append(&mut type_errors);

    let mut cycle_errors = check_cycles(&builder, &transform_inputs);
    errors.append(&mut cycle_errors);

    proof {
        if minimal {
            assert(errors@.len() == 0);
        }
    }
    if errors.len() > 0 {
        return Err(errors);
    }

    // Connect the run to the spec-level pipeline: the post-expansion
    // transforms are the expanded views, the glob candidates and the
    // resolution table read off those views, and every resolved list is
    // the resolution of the glob-expanded inputs.
    let ghost names = spec_source_names(b0.sources@);
    let ghost tvs = spec_expand_transforms(b0.transforms@);
    let ghost cands = spec_candidates_v(names, tvs);
    let ghost table = tv_table(tvs);
    proof {
        lemma_candidates_tv(b1.sources@, b1.transforms@);
        assert(transforms_tv(b1.transforms@) == tvs);
        assert(spec_source_names(b1.sources@) =~= names);
        assert(spec_candidates(b1.sources@, b1.transforms@) == spec_candidates_v(
            spec_source_names(b1.sources@),
            tvs,
        ));
        assert(spec_candidates_v(spec_source_names(b1.sources@), tvs) =~= cands);
        assert(resolve_table(builder.transforms@) =~= tv_table(transforms_tv(b1.transforms@)))
            by {
            assert forall|k: int| 0 <= k < builder.transforms@.len() implies #[trigger]
            resolve_table(builder.transforms@)[k] == tv_table(transforms_tv(b1.transforms@))[k] by {
                assert(builder.transforms@[k].0 == b1.transforms@[k].0);
                assert(builder.transforms@[k].1.inner == b1.transforms@[k].1.inner);
            }
        }
        assert(resolve_table(builder.transforms@) == table);
        assert(spec_source_names(builder.sources@) =~= names);
        assert forall|k: int| 0 <= k < builder.transforms@.len() implies {
            &&& (#[trigger] builder.transforms@[k]).0.id@ == tvs[k].key
            &&& builder.transforms@[k].1.inner.input_type == tvs[k].input_type
            &&& builder.transforms@[k].1.inner.output_type == tvs[k].output_type
            &&& builder.transforms@[k].1.inner.named_outputs.deep_view() == tvs[k].named_outputs
            &&& builder.transforms@[k].1.inputs.deep_view() == spec_expand_inputs(
                tvs[k].inputs,
                tvs[k].key,
                cands,
            )
        } by {
            assert(transforms_tv(b1.transforms@)[k] == transform_tv(b1.transforms@[k]));
            assert(b1.transforms@[k].1.inputs.deep_view() == tvs[k].inputs);
        }
        assert forall|k: int| 0 <= k < builder.sinks@.len() implies {
            &&& (#[trigger] builder.sinks@[k]).0 == b0.sinks@[k].0
            &&& builder.sinks@[k].1.inner == b0.sinks@[k].1.inner
            &&& builder.sinks@[k].1.inputs.deep_view() == spec_expand_inputs(
                b0.sinks@[k].1.inputs.deep_view(),
                b0.sinks@[k].0.id@,
                cands,
            )
        } by {
            assert(b1.sinks@[k] == b0.sinks@[k]);
        }
    }

    let warnings = unused_warnings(&builder, &transform_inputs, &sink_inputs);

    let mut transforms: Vec<(ComponentKey, ResolvedTransform)> = Vec::new();
    let mut rest_transforms = builder.transforms;
    let ghost trans0 = rest_transforms@;
    let ghost tinputs0 = transform_inputs@;
    let mut rest_transform_inputs = transform_inputs;
    while rest_transforms.len() > 0
        invariant
            rest_transform_inputs@.len() == rest_transforms@.len(),
            transforms@.len() + rest_transforms@.len() == trans0.len(),
            tinputs0.len() == trans0.len(),
            rest_transforms@ == trans0.skip(transforms@.len() as int),
            rest_transform_inputs@ == tinputs0.skip(transforms@.len() as int),
            forall|k: int|
                0 <= k < transforms@.len() ==> (#[trigger] transforms@[k]).0 == trans0[k].0
                    && transforms@[k].1.inner == trans0[k].1.inner && transforms@[k].1.inputs
                    == tinputs0[k],
        decreases rest_transforms@.len(),
    {
        proof {
            assert(trans0.skip(transforms@.len() as int)[0] == trans0[transforms@.len() as int]);
            assert(rest_transforms@.drop_first() =~= trans0.skip(transforms@.len() as int + 1));
            assert(tinputs0.skip(transforms@.len() as int)[0] == tinputs0[
                transforms@.len() as int
            ]);
            assert(rest_transform_inputs@.drop_first() =~= tinputs0.skip(
                transforms@.len() as int + 1,
            ));
        }
        let (key, outer) = rest_transforms.remove(0);
        let inputs = rest_transform_inputs.remove(0);
        transforms.push((key, ResolvedTransform { inputs, inner: outer.inner }));
    }

    let mut sinks: Vec<(ComponentKey, ResolvedSink)> = Vec::new();
    let mut rest_sinks = builder.sinks;
    let ghost sinks0 = rest_sinks@;
    let ghost sinputs0 = sink_inputs@;
    let mut rest_sink_inputs = sink_inputs;
    while rest_sinks.len() > 0
        invariant
            rest_sink_inputs@.len() == rest_sinks@.len(),
            sinks@.len() + rest_sinks@.len() == sinks0.len(),
            sinputs0.len() == sinks0.len(),
            rest_sinks@ == sinks0.skip(sinks@.len() as int),
            rest_sink_inputs@ == sinputs0.skip(sinks@.len() as int),
            forall|k: int|
                0 <= k < sinks@.len() ==> (#[trigger] sinks@[k]).0 == sinks0[k].0
                    && sinks@[k].1.inner == sinks0[k].1.inner && sinks@[k].1.inputs == sinputs0[k],
        decreases rest_sinks@.len(),
    {
        proof {
            assert(sinks0.skip(sinks@.len() as int)[0] == sinks0[sinks@.len() as int]);
            assert(rest_sinks@.drop_first() =~= sinks0.skip(sinks@.len() as int + 1));
            assert(sinputs0.skip(sinks@.len() as int)[0] == sinputs0[sinks@.len() as int]);
            assert(rest_sink_inputs@.drop_first() =~= sinputs0.skip(sinks@.len() as int + 1));
        }
        let (key, outer) = rest_sinks.remove(0);
        let inputs = rest_sink_inputs.remove(0);
        sinks.push((key, ResolvedSink { inputs, inner: outer.inner }));
    }

    let config = Config { sources: builder.sources, transforms, sinks, expansions };
    Ok((config, warnings))
}

} // verus!
