//! Schema requirement validation: a component's required and optional
//! semantic meanings, checked against the event-shape `Definition` that
//! flows out of its upstream components.

use vstd::prelude::*;

use crate::kind::Kind;
use crate::text::{spec_str_lt, str_eq, str_lt};

verus! {

/// The expectation a component places on one semantic meaning.
#[derive(Clone, Copy, PartialEq, Eq, Structural, Debug)]
pub struct SemanticMeaning {
    /// The type required by this semantic meaning.
    pub kind: Kind,
    /// Whether the meaning is optional: an optional meaning may be absent
    /// from the definition, but when present its kind must still satisfy
    /// the requirement.
    pub optional: bool,
}

/// The input schema for a component: semantic meanings it expects from the
/// events produced by its upstream components.  The table is kept sorted by
/// identifier, so validation reports errors in identifier order.
pub struct Requirement {
    meaning: Vec<(String, SemanticMeaning)>,
}

/// The event-shape and meaning bindings flowing out of a component.
///
/// A meaning identifier may end up claimed by several bindings once
/// definitions from several upstream components are merged; such an
/// identifier is ambiguous, and validation reports it as a duplicate.
pub struct Definition {
    /// Field path to the kind known at that path.
    fields: Vec<(String, Kind)>,
    /// Meaning identifier to a path claiming it, one entry per claim.
    meanings: Vec<(String, String)>,
}

/// First value bound to `key` in an association list, if any.
pub open spec fn find_kind(fs: Seq<(Seq<char>, Kind)>, path: Seq<char>) -> Option<Kind>
    decreases fs.len(),
{
    if fs.len() == 0 {
        None
    } else if fs[0].0 == path {
        Some(fs[0].1)
    } else {
        find_kind(fs.drop_first(), path)
    }
}

/// Sorted insertion of one path into a duplicate-free sorted path set.
pub open spec fn spec_insert_path(ps: Seq<Seq<char>>, p: Seq<char>) -> Seq<Seq<char>>
    decreases ps.len(),
{
    if ps.len() == 0 {
        seq![p]
    } else if ps[0] == p {
        ps
    } else if spec_str_lt(p, ps[0]) {
        seq![p] + ps
    } else {
        seq![ps[0]] + spec_insert_path(ps.drop_first(), p)
    }
}

/// The sorted set of distinct paths that claim `id`, folded over the
/// binding list from the given accumulator.
pub open spec fn spec_paths_acc(
    acc: Seq<Seq<char>>,
    ms: Seq<(Seq<char>, Seq<char>)>,
    id: Seq<char>,
) -> Seq<Seq<char>>
    decreases ms.len(),
{
    if ms.len() == 0 {
        acc
    } else {
        let next = if ms[0].0 == id {
            spec_insert_path(acc, ms[0].1)
        } else {
            acc
        };
        spec_paths_acc(next, ms.drop_first(), id)
    }
}

/// The sorted set of distinct paths that claim `id` in a binding list.
pub open spec fn spec_paths_for(ms: Seq<(Seq<char>, Seq<char>)>, id: Seq<char>) -> Seq<Seq<char>> {
    spec_paths_acc(Seq::empty(), ms, id)
}

/// Insert one path into a sorted duplicate-free path set.
fn insert_path(ps: &mut Vec<String>, p: &str)
    ensures
        final(ps).deep_view() == spec_insert_path(old(ps).deep_view(), p@),
{
    let ghost ps0 = ps.deep_view();
    let n = ps.len();
    let mut j: usize = 0;
    while j < n
        invariant
            j <= n,
            n == ps@.len(),
            ps0 == old(ps).deep_view(),
            ps.deep_view() == ps0,
            forall|k: int|
                0 <= k < j ==> #[trigger] ps@[k]@ != p@ && !spec_str_lt(p@, ps@[k]@),
        decreases n - j,
    {
        if str_eq(ps[j].as_str(), p) {
            proof {
                lemma_insert_path_skip(ps0, p@, j as int);
                assert(ps0.skip(j as int)[0] == ps0[j as int]);
                assert(ps0[j as int] == ps@[j as int]@);
                assert(spec_insert_path(ps0.skip(j as int), p@) == ps0.skip(j as int));
                assert(ps0.take(j as int) + ps0.skip(j as int) =~= ps0);
                assert(spec_insert_path(ps0, p@) == ps0);
            }
            return ;
        }
        if str_lt(p, ps[j].as_str()) {
            proof {
                lemma_insert_path_skip(ps0, p@, j as int);
                assert(ps0.skip(j as int)[0] == ps0[j as int]);
                assert(ps0[j as int] == ps@[j as int]@);
                assert(spec_insert_path(ps0.skip(j as int), p@) == seq![p@] + ps0.skip(j as int));
            }
            ps.insert(j, p.to_owned());
            proof {
                assert(ps.deep_view() =~= ps0.take(j as int) + (seq![p@] + ps0.skip(j as int)));
                assert(ps.deep_view() == spec_insert_path(ps0, p@));
            }
            return ;
        }
        j = j + 1;
    }
    proof {
        lemma_insert_path_skip(ps0, p@, n as int);
        assert(spec_insert_path(ps0.skip(n as int), p@) =~= seq![p@]);
    }
    ps.push(p.to_owned());
    proof {
        assert(ps.deep_view() =~= spec_insert_path(ps0, p@));
    }
}

proof fn lemma_insert_path_skip(ps: Seq<Seq<char>>, p: Seq<char>, j: int)
    requires
        0 <= j <= ps.len(),
        forall|k: int| 0 <= k < j ==> ps[k] != p && !spec_str_lt(p, ps[k]),
    ensures
        spec_insert_path(ps, p) =~= ps.take(j) + spec_insert_path(ps.skip(j), p),
    decreases j,
{
    if j == 0 {
        assert(ps.take(0) =~= Seq::empty());
        assert(ps.skip(0) =~= ps);
    } else {
        lemma_insert_path_skip(ps.drop_first(), p, j - 1);
        assert(ps.drop_first().take(j - 1) =~= ps.take(j).drop_first());
        assert(ps.drop_first().skip(j - 1) =~= ps.skip(j));
        assert(spec_insert_path(ps, p) =~= seq![ps[0]] + spec_insert_path(ps.drop_first(), p));
    }
}

impl Definition {
    pub closed spec fn fields_view(&self) -> Seq<(Seq<char>, Kind)> {
        self.fields@.map_values(|p: (String, Kind)| (p.0@, p.1))
    }

    pub closed spec fn meanings_view(&self) -> Seq<(Seq<char>, Seq<char>)> {
        self.meanings@.map_values(|p: (String, String)| (p.0@, p.1@))
    }

    /// A definition with no fields and no meaning bindings.
    pub fn empty() -> (d: Definition)
        ensures
            d.fields_view() =~= Seq::<(Seq<char>, Kind)>::empty(),
            d.meanings_view() =~= Seq::<(Seq<char>, Seq<char>)>::empty(),
    {
        Definition { fields: Vec::new(), meanings: Vec::new() }
    }

    /// Record a field at `path` with the given kind, optionally binding a
    /// semantic meaning to that path.
    pub fn with_field(self, path: &str, kind: Kind, meaning: Option<&str>) -> (d: Definition)
        ensures
            d.fields_view() == self.fields_view().push((path@, kind)),
            match meaning {
                Some(id) => d.meanings_view() == self.meanings_view().push((id@, path@)),
                None => d.meanings_view() == self.meanings_view(),
            },
    {
        let mut d = self;
        let ghost old_fields = d.fields_view();
        let ghost old_meanings = d.meanings_view();
        d.fields.push((path.to_owned(), kind));
        proof {
            assert(d.fields_view() =~= old_fields.push((path@, kind)));
        }
        match meaning {
            Some(id) => {
                d.meanings.push((id.to_owned(), path.to_owned()));
                proof {
                    assert(d.meanings_view() =~= old_meanings.push((id@, path@)));
                }
            },
            None => {},
        }
        d
    }

    /// Take the union of two definitions: all fields and all meaning
    /// claims of both sides, in order.  A meaning claimed by both sides at
    /// distinct paths becomes ambiguous in the result.
    pub fn merge(self, other: Definition) -> (d: Definition)
        ensures
            d.fields_view() == self.fields_view() + other.fields_view(),
            d.meanings_view() == self.meanings_view() + other.meanings_view(),
    {
        let ghost sf = self.fields_view();
        let ghost sm = self.meanings_view();
        let mut d = self;
        let mut other_fields = other.fields;
        let mut other_meanings = other.meanings;
        d.fields.append(&mut other_fields);
        d.meanings.append(&mut other_meanings);
        proof {
            assert(d.fields_view() =~= sf + other.fields_view());
            assert(d.meanings_view() =~= sm + other.meanings_view());
        }
        d
    }

    /// The sorted distinct paths that claim `identifier`.
    fn paths_for(&self, identifier: &str) -> (out: Vec<String>)
        ensures
            out.deep_view() == spec_paths_for(self.meanings_view(), identifier@),
    {
        let ghost ms = self.meanings_view();
        let n = self.meanings.len();
        let mut out: Vec<String> = Vec::new();
        let mut i: usize = 0;
        proof {
            assert(ms.skip(0) =~= ms);
            assert(out.deep_view() =~= Seq::<Seq<char>>::empty());
        }
        while i < n
            invariant
                i <= n,
                n == self.meanings.len(),
                ms == self.meanings_view(),
                n == ms.len(),
                spec_paths_for(ms, identifier@) == spec_paths_acc(
                    out.deep_view(),
                    ms.skip(i as int),
                    identifier@,
                ),
            decreases n - i,
        {
            proof {
                assert(ms.skip(i as int)[0] == ms[i as int]);
                assert(ms.skip(i as int).drop_first() =~= ms.skip(i as int + 1));
            }
            if str_eq(self.meanings[i].0.as_str(), identifier) {
                insert_path(&mut out, self.meanings[i].1.as_str());
            }
            i = i + 1;
        }
        proof {
            assert(spec_paths_acc(out.deep_view(), ms.skip(n as int), identifier@)
                == out.deep_view());
        }
        out
    }

    /// The set of paths claiming `identifier`, where that claim is
    /// ambiguous because several distinct paths make it.
    pub fn invalid_meaning(&self, identifier: &str) -> (r: Option<Vec<String>>)
        ensures
            match r {
                Some(paths) => paths.deep_view() == spec_paths_for(
                    self.meanings_view(),
                    identifier@,
                ) && paths.deep_view().len() >= 2,
                None => spec_paths_for(self.meanings_view(), identifier@).len() < 2,
            },
    {
        let paths = self.paths_for(identifier);
        if paths.len() >= 2 {
            Some(paths)
        } else {
            None
        }
    }

    /// The path bound to `identifier`, where exactly one path claims it.
    pub fn meaning_path(&self, identifier: &str) -> (r: Option<String>)
        ensures
            match r {
                Some(path) => spec_paths_for(self.meanings_view(), identifier@) == seq![path@],
                None => spec_paths_for(self.meanings_view(), identifier@).len() != 1,
            },
    {
        let mut paths = self.paths_for(identifier);
        if paths.len() == 1 {
            let p = paths.pop().unwrap();
            proof {
                assert(spec_paths_for(self.meanings_view(), identifier@) =~= seq![p@]);
            }
            Some(p)
        } else {
            None
        }
    }

    /// The kind known at `path`, if the definition records one.
    pub fn kind_at(&self, path: &str) -> (r: Option<Kind>)
        ensures
            r == find_kind(self.fields_view(), path@),
    {
        let ghost fs = self.fields_view();
        let n = self.fields.len();
        let mut i: usize = 0;
        proof {
            assert(fs.skip(0) =~= fs);
        }
        while i < n
            invariant
                i <= n,
                n == self.fields.len(),
                fs == self.fields_view(),
                n == fs.len(),
                find_kind(fs, path@) == find_kind(fs.skip(i as int), path@),
            decreases n - i,
        {
            proof {
                assert(fs.skip(i as int)[0] == fs[i as int]);
                assert(fs.skip(i as int).drop_first() =~= fs.skip(i as int + 1));
            }
            if str_eq(self.fields[i].0.as_str(), path) {
                return Some(self.fields[i].1);
            }
            i = i + 1;
        }
        proof {
            assert(fs.skip(n as int).len() == 0);
        }
        None
    }
}

/// The ghost image of one validation error.
pub enum ValidationErrorView {
    MeaningMissing { identifier: Seq<char> },
    MeaningKind { identifier: Seq<char>, want: Kind, got: Kind },
    MeaningDuplicate { identifier: Seq<char>, paths: Seq<Seq<char>> },
}

/// One way a definition can fail a requirement.
#[derive(Clone, PartialEq, Eq, Debug)]
pub enum ValidationError {
    /// A required semantic meaning is missing.
    MeaningMissing { identifier: String },
    /// A semantic meaning is present but its kind does not satisfy the
    /// required kind.
    MeaningKind { identifier: String, want: Kind, got: Kind },
    /// A semantic meaning is claimed by multiple distinct paths.
    MeaningDuplicate { identifier: String, paths: Vec<String> },
}

impl View for ValidationError {
    type V = ValidationErrorView;

    open spec fn view(&self) -> ValidationErrorView {
        match self {
            ValidationError::MeaningMissing { identifier } => ValidationErrorView::MeaningMissing {
                identifier: identifier@,
            },
            ValidationError::MeaningKind { identifier, want, got } => {
                ValidationErrorView::MeaningKind { identifier: identifier@, want: *want, got: *got }
            },
            ValidationError::MeaningDuplicate { identifier, paths } => {
                ValidationErrorView::MeaningDuplicate {
                    identifier: identifier@,
                    paths: paths.deep_view(),
                }
            },
        }
    }
}

impl ValidationError {
    /// A short human-readable description of the violation.
    pub fn message(&self) -> String {
        match self {
            ValidationError::MeaningMissing { identifier } => {
                String::from_str("missing semantic meaning: ").concat(identifier.as_str())
            },
            ValidationError::MeaningKind { identifier, .. } => {
                String::from_str("invalid semantic meaning: ").concat(identifier.as_str())
            },
            ValidationError::MeaningDuplicate { identifier, .. } => {
                String::from_str("semantic meaning pointing to multiple fields: ").concat(
                    identifier.as_str(),
                )
            },
        }
    }

    pub fn is_meaning_missing(&self) -> (r: bool)
        ensures
            r == (self@ is MeaningMissing),
    {
        matches!(self, ValidationError::MeaningMissing { .. })
    }

    pub fn is_meaning_kind(&self) -> (r: bool)
        ensures
            r == (self@ is MeaningKind),
    {
        matches!(self, ValidationError::MeaningKind { .. })
    }

    pub fn is_meaning_duplicate(&self) -> (r: bool)
        ensures
            r == (self@ is MeaningDuplicate),
    {
        matches!(self, ValidationError::MeaningDuplicate { .. })
    }
}

/// The complete list of violations found by one validation pass.
#[derive(Clone, PartialEq, Eq, Debug)]
pub struct ValidationErrors(Vec<ValidationError>);

impl View for ValidationErrors {
    type V = Seq<ValidationErrorView>;

    closed spec fn view(&self) -> Seq<ValidationErrorView> {
        self.0@.map_values(|e: ValidationError| e@)
    }
}

impl ValidationErrors {
    pub fn new(errors: Vec<ValidationError>) -> (r: ValidationErrors)
        ensures
            r@ == errors@.map_values(|e: ValidationError| e@),
    {
        ValidationErrors(errors)
    }

    pub fn errors(&self) -> (r: &Vec<ValidationError>)
        ensures
            r@.map_values(|e: ValidationError| e@) == self@,
    {
        &self.0
    }

    pub fn is_meaning_missing(&self) -> (r: bool)
        ensures
            r == exists|i: int| 0 <= i < self@.len() && self@[i] is MeaningMissing,
    {
        let n = self.0.len();
        let mut i: usize = 0;
        while i < n
            invariant
                i <= n,
                n == self.0.len(),
                forall|j: int| 0 <= j < i ==> !(self@[j] is MeaningMissing),
            decreases n - i,
        {
            if self.0[i].is_meaning_missing() {
                proof {
                    assert(self@[i as int] == self.0@[i as int]@);
                }
                return true;
            }
            i = i + 1;
        }
        false
    }

    pub fn is_meaning_kind(&self) -> (r: bool)
        ensures
            r == exists|i: int| 0 <= i < self@.len() && self@[i] is MeaningKind,
    {
        let n = self.0.len();
        let mut i: usize = 0;
        while i < n
            invariant
                i <= n,
                n == self.0.len(),
                forall|j: int| 0 <= j < i ==> !(self@[j] is MeaningKind),
            decreases n - i,
        {
            if self.0[i].is_meaning_kind() {
                proof {
                    assert(self@[i as int] == self.0@[i as int]@);
                }
                return true;
            }
            i = i + 1;
        }
        false
    }
}

/// The violation, if any, that validating the single meaning `(id, m)`
/// against `def` reports.
pub open spec fn spec_error_for(def: &Definition, id: Seq<char>, m: SemanticMeaning) -> Option<
    ValidationErrorView,
> {
    let paths = spec_paths_for(def.meanings_view(), id);
    if paths.len() >= 2 {
        Some(ValidationErrorView::MeaningDuplicate { identifier: id, paths })
    } else if paths.len() == 1 {
        let got = match find_kind(def.fields_view(), paths[0]) {
            Some(k) => k,
            None => Kind::spec_any(),
        };
        if !m.kind.spec_is_superset(got) {
            Some(ValidationErrorView::MeaningKind { identifier: id, want: m.kind, got })
        } else {
            None
        }
    } else {
        if !m.optional {
            Some(ValidationErrorView::MeaningMissing { identifier: id })
        } else {
            None
        }
    }
}

/// The full list of violations, one per failing meaning, in table order.
pub open spec fn spec_validate(def: &Definition, ms: Seq<(Seq<char>, SemanticMeaning)>) -> Seq<
    ValidationErrorView,
>
    decreases ms.len(),
{
    if ms.len() == 0 {
        Seq::empty()
    } else {
        let rest = spec_validate(def, ms.drop_first());
        match spec_error_for(def, ms[0].0, ms[0].1) {
            Some(e) => seq![e] + rest,
            None => rest,
        }
    }
}

impl Requirement {
    pub closed spec fn meanings_view(&self) -> Seq<(Seq<char>, SemanticMeaning)> {
        self.meaning@.map_values(|p: (String, SemanticMeaning)| (p.0@, p.1))
    }

    /// The empty requirement: no meanings are demanded, so every
    /// definition satisfies it.
    pub fn empty() -> (r: Requirement)
        ensures
            r.meanings_view() =~= Seq::<(Seq<char>, SemanticMeaning)>::empty(),
    {
        Requirement { meaning: Vec::new() }
    }

    /// Whether no meanings are configured at all.
    pub fn is_empty(&self) -> (r: bool)
        ensures
            r == (self.meanings_view().len() == 0),
    {
        self.meaning.is_empty()
    }

    /// Demand that `meaning` be bound in the definition, with a kind the
    /// given kind can accept.
    pub fn required_meaning(self, meaning: &str, kind: Kind) -> (r: Requirement)
        ensures
            r.meanings_view() == spec_insert_meaning(
                self.meanings_view(),
                meaning@,
                SemanticMeaning { kind, optional: false },
            ),
    {
        self.insert_meaning(meaning, kind, false)
    }

    /// Accept `meaning` being absent, but demand the kind where bound.
    pub fn optional_meaning(self, meaning: &str, kind: Kind) -> (r: Requirement)
        ensures
            r.meanings_view() == spec_insert_meaning(
                self.meanings_view(),
                meaning@,
                SemanticMeaning { kind, optional: true },
            ),
    {
        self.insert_meaning(meaning, kind, true)
    }

    fn insert_meaning(self, identifier: &str, kind: Kind, optional: bool) -> (r: Requirement)
        ensures
            r.meanings_view() == spec_insert_meaning(
                self.meanings_view(),
                identifier@,
                SemanticMeaning { kind, optional },
            ),
    {
        let m = SemanticMeaning { kind, optional };
        let ghost ms = self.meanings_view();
        let mut v = self.meaning;
        let n = v.len();
        let j = meaning_insert_pos(&v, identifier);
        proof {
            lemma_insert_meaning_skip(ms, identifier@, m, j as int);
        }
        if j < n {
            if str_eq(v[j].0.as_str(), identifier) {
                v[j] = (identifier.to_owned(), m);
                proof {
                    assert(v@.map_values(|p: (String, SemanticMeaning)| (p.0@, p.1))
                        =~= spec_insert_meaning(ms, identifier@, m));
                }
            } else {
                v.insert(j, (identifier.to_owned(), m));
                proof {
                    assert(v@.map_values(|p: (String, SemanticMeaning)| (p.0@, p.1))
                        =~= spec_insert_meaning(ms, identifier@, m));
                }
            }
        } else {
            v.push((identifier.to_owned(), m));
            proof {
                assert(spec_insert_meaning(ms.skip(j as int), identifier@, m) =~= seq![
                    (identifier@, m),
                ]);
                assert(v@.map_values(|p: (String, SemanticMeaning)| (p.0@, p.1))
                    =~= spec_insert_meaning(ms, identifier@, m));
            }
        }
        Requirement { meaning: v }
    }

    /// Validate the definition against this requirement.
    ///
    /// Walks every configured meaning and collects every violation: a
    /// duplicate claim, a kind that the required kind cannot accept, or a
    /// missing required meaning.  Succeeds exactly when no meaning is
    /// violated; on failure the full violation list is returned, in the
    /// requirement's identifier order.
    pub fn validate(&self, definition: &Definition) -> (r: Result<(), ValidationErrors>)
        ensures
            match r {
                Ok(()) => spec_validate(definition, self.meanings_view()).len() == 0,
                Err(e) => e@ == spec_validate(definition, self.meanings_view()) && e@.len() > 0,
            },
    {
        let ghost ms = self.meanings_view();
        let mut errors: Vec<ValidationError> = Vec::new();
        let n = self.meaning.len();
        let mut i: usize = 0;
        proof {
            assert(ms.skip(0) =~= ms);
        }
        while i < n
            invariant
                i <= n,
                n == self.meaning.len(),
                ms == self.meanings_view(),
                n == ms.len(),
                spec_validate(definition, ms) =~= errors@.map_values(|e: ValidationError| e@)
                    + spec_validate(definition, ms.skip(i as int)),
            decreases n - i,
        {
            proof {
                assert(ms.skip(i as int)[0] == ms[i as int]);
                assert(ms.skip(i as int).drop_first() =~= ms.skip(i as int + 1));
            }
            let identifier = &self.meaning[i].0;
            let req_meaning = self.meaning[i].1;
            let ghost errors_before = errors@.map_values(|e: ValidationError| e@);
            match definition.invalid_meaning(identifier.as_str()) {
                Some(paths) => {
                    errors.push(
                        ValidationError::MeaningDuplicate { identifier: identifier.clone(), paths },
                    );
                },
                None => {
                    match definition.meaning_path(identifier.as_str()) {
                        Some(path) => {
                            let definition_kind = match definition.kind_at(path.as_str()) {
                                Some(k) => k,
                                None => Kind::any(),
                            };
                            if !req_meaning.kind.is_superset(&definition_kind) {
                                errors.push(
                                    ValidationError::MeaningKind {
                                        identifier: identifier.clone(),
                                        want: req_meaning.kind,
                                        got: definition_kind,
                                    },
                                );
                            }
                        },
                        None => {
                            if !req_meaning.optional {
                                errors.push(
                                    ValidationError::MeaningMissing {
                                        identifier: identifier.clone(),
                                    },
                                );
                            }
                        },
                    }
                },
            }
            proof {
                assert(errors@.map_values(|e: ValidationError| e@) =~= errors_before
                    + match spec_error_for(definition, ms[i as int].0, ms[i as int].1) {
                    Some(e) => seq![e],
                    None => Seq::empty(),
                });
            }
            i = i + 1;
        }
        proof {
            assert(spec_validate(definition, ms.skip(n as int)) =~= Seq::<
                ValidationErrorView,
            >::empty());
            assert(spec_validate(definition, ms) =~= errors@.map_values(
                |e: ValidationError| e@,
            ));
        }
        if errors.len() == 0 {
            Ok(())
        } else {
            Err(ValidationErrors(errors))
        }
    }
}

/// The ordered place of `identifier` in the meaning table: the first index
/// whose identifier is the same or comes later in lexicographic order.
fn meaning_insert_pos(v: &Vec<(String, SemanticMeaning)>, identifier: &str) -> (j: usize)
    ensures
        j <= v@.len(),
        forall|k: int|
            0 <= k < j ==> #[trigger] v@[k].0@ != identifier@ && !spec_str_lt(
                identifier@,
                v@[k].0@,
            ),
        j < v@.len() ==> v@[j as int].0@ == identifier@ || spec_str_lt(identifier@, v@[j as int].0@),
{
    let n = v.len();
    let mut j: usize = 0;
    while j < n
        invariant
            j <= n,
            n == v@.len(),
            forall|k: int|
                0 <= k < j ==> #[trigger] v@[k].0@ != identifier@ && !spec_str_lt(
                    identifier@,
                    v@[k].0@,
                ),
        decreases n - j,
    {
        if str_eq(v[j].0.as_str(), identifier) {
            return j;
        }
        if str_lt(identifier, v[j].0.as_str()) {
            return j;
        }
        j = j + 1;
    }
    j
}

/// Sorted insertion of one meaning: an existing entry for the identifier
/// is replaced, a new one stands at its ordered place.
pub open spec fn spec_insert_meaning(
    ms: Seq<(Seq<char>, SemanticMeaning)>,
    id: Seq<char>,
    m: SemanticMeaning,
) -> Seq<(Seq<char>, SemanticMeaning)>
    decreases ms.len(),
{
    if ms.len() == 0 {
        seq![(id, m)]
    } else if ms[0].0 == id {
        seq![(id, m)] + ms.drop_first()
    } else if spec_str_lt(id, ms[0].0) {
        seq![(id, m)] + ms
    } else {
        seq![ms[0]] + spec_insert_meaning(ms.drop_first(), id, m)
    }
}

proof fn lemma_insert_meaning_skip(
    ms: Seq<(Seq<char>, SemanticMeaning)>,
    id: Seq<char>,
    m: SemanticMeaning,
    j: int,
)
    requires
        0 <= j <= ms.len(),
        forall|k: int| 0 <= k < j ==> ms[k].0 != id && !spec_str_lt(id, ms[k].0),
    ensures
        spec_insert_meaning(ms, id, m) =~= ms.take(j) + spec_insert_meaning(ms.skip(j), id, m),
    decreases j,
{
    if j == 0 {
        assert(ms.take(0) =~= Seq::empty());
        assert(ms.skip(0) =~= ms);
    } else {
        lemma_insert_meaning_skip(ms.drop_first(), id, m, j - 1);
        assert(ms.drop_first().take(j - 1) =~= ms.take(j).drop_first());
        assert(ms.drop_first().skip(j - 1) =~= ms.skip(j));
        assert(spec_insert_meaning(ms, id, m) =~= seq![ms[0]] + spec_insert_meaning(
            ms.drop_first(),
            id,
            m,
        ));
    }
}

} // verus!
