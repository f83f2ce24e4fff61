//! The journal source's compile-time logic: merging unit lists into the
//! field-match tables, record filtering, duplicate detection, and the
//! argument list the journal reader is started with.

use vstd::prelude::*;

use crate::text::str_eq;

verus! {

/// The journal field a unit name is matched against.
pub fn systemd_unit_field() -> (r: String)
    ensures
        r@ == "_SYSTEMD_UNIT"@,
{
    String::from_str("_SYSTEMD_UNIT")
}

/// Sets of accepted values per journal field.
#[derive(Debug)]
pub struct Matches {
    pub entries: Vec<(String, Vec<String>)>,
}

/// One decoded journal record: field-value pairs.
#[derive(Debug)]
pub struct Record {
    pub fields: Vec<(String, String)>,
}

/// Whether a match table accepts `value` for `field`.
pub open spec fn spec_matches_accepts(
    entries: Seq<(Seq<char>, Seq<Seq<char>>)>,
    field: Seq<char>,
    value: Seq<char>,
) -> bool {
    exists|i: int, j: int|
        #![trigger entries[i].1[j]]
        0 <= i < entries.len() && entries[i].0 == field && 0 <= j < entries[i].1.len()
            && entries[i].1[j] == value
}

/// Accept one more value for `field`: appended to the first entry naming
/// the field, or as a fresh entry at the end.
pub open spec fn spec_matches_add(
    es: Seq<(Seq<char>, Seq<Seq<char>>)>,
    field: Seq<char>,
    value: Seq<char>,
) -> Seq<(Seq<char>, Seq<Seq<char>>)>
    decreases es.len(),
{
    if es.len() == 0 {
        seq![(field, seq![value])]
    } else if es[0].0 == field {
        seq![(es[0].0, es[0].1.push(value))] + es.drop_first()
    } else {
        seq![es[0]] + spec_matches_add(es.drop_first(), field, value)
    }
}

proof fn lemma_matches_add_skip(
    es: Seq<(Seq<char>, Seq<Seq<char>>)>,
    field: Seq<char>,
    value: Seq<char>,
    j: int,
)
    requires
        0 <= j <= es.len(),
        forall|k: int| 0 <= k < j ==> (#[trigger] es[k]).0 != field,
    ensures
        spec_matches_add(es, field, value) =~= es.take(j) + spec_matches_add(
            es.skip(j),
            field,
            value,
        ),
    decreases j,
{
    if j == 0 {
        assert(es.take(0) =~= Seq::empty());
        assert(es.skip(0) =~= es);
    } else {
        lemma_matches_add_skip(es.drop_first(), field, value, j - 1);
        assert(es.drop_first().take(j - 1) =~= es.take(j).drop_first());
        assert(es.drop_first().skip(j - 1) =~= es.skip(j));
        assert(spec_matches_add(es, field, value) =~= seq![es[0]] + spec_matches_add(
            es.drop_first(),
            field,
            value,
        ));
    }
}

impl Matches {
    pub closed spec fn view(&self) -> Seq<(Seq<char>, Seq<Seq<char>>)> {
        self.entries@.map_values(|p: (String, Vec<String>)| (p.0@, p.1.deep_view()))
    }

    /// An empty match table: it matches no record field at all.
    pub fn empty() -> (r: Matches)
        ensures
            r@ =~= Seq::<(Seq<char>, Seq<Seq<char>>)>::empty(),
    {
        Matches { entries: Vec::new() }
    }

    /// Whether no field is matched at all.
    pub fn is_empty(&self) -> (r: bool)
        ensures
            r == (self@.len() == 0),
    {
        self.entries.is_empty()
    }

    /// The accepted values of one field, flattened over every entry that
    /// names it.
    pub fn values_for(&self, field: &str) -> (r: Vec<String>)
        ensures
            forall|k: int|
                0 <= k < r.deep_view().len() ==> spec_matches_accepts(
                    self@,
                    field@,
                    #[trigger] r.deep_view()[k],
                ),
    {
        let mut out: Vec<String> = Vec::new();
        let n = self.entries.len();
        let mut i: usize = 0;
        while i < n
            invariant
                i <= n,
                n == self.entries@.len(),
                forall|k: int|
                    0 <= k < out.deep_view().len() ==> spec_matches_accepts(
                        self@,
                        field@,
                        #[trigger] out.deep_view()[k],
                    ),
            decreases n - i,
        {
            if str_eq(self.entries[i].0.as_str(), field) {
                let vals = &self.entries[i].1;
                let m = vals.len();
                let mut j: usize = 0;
                while j < m
                    invariant
                        j <= m,
                        i < self.entries@.len(),
                        n == self.entries@.len(),
                        m == self.entries@[i as int].1@.len(),
                        vals@ == self.entries@[i as int].1@,
                        self.entries@[i as int].0@ == field@,
                        forall|k: int|
                            0 <= k < out.deep_view().len() ==> spec_matches_accepts(
                                self@,
                                field@,
                                #[trigger] out.deep_view()[k],
                            ),
                    decreases m - j,
                {
                    let v = vals[j].clone();
                    let ghost dv_before = out.deep_view();
                    proof {
                        assert(self@[i as int].0 == field@);
                        assert(self@[i as int].1[j as int]
                            == self.entries@[i as int].1.deep_view()[j as int]);
                        assert(self@[i as int].1[j as int] == v@);
                        assert(spec_matches_accepts(self@, field@, v@));
                    }
                    out.push(v);
                    proof {
                        assert(out.deep_view() =~= dv_before.push(v@));
                    }
                    j = j + 1;
                }
            }
            i = i + 1;
        }
        out
    }

    /// Whether the table accepts the given field-value pair.
    pub fn accepts(&self, field: &str, value: &str) -> (r: bool)
        ensures
            r == spec_matches_accepts(self@, field@, value@),
    {
        let n = self.entries.len();
        let mut i: usize = 0;
        while i < n
            invariant
                i <= n,
                n == self.entries@.len(),
                !exists|p: int, q: int|
                    #![trigger self@[p].1[q]]
                    0 <= p < i && self@[p].0 == field@ && 0 <= q < self@[p].1.len()
                        && self@[p].1[q] == value@,
            decreases n - i,
        {
            if str_eq(self.entries[i].0.as_str(), field) {
                let vals = &self.entries[i].1;
                let m = vals.len();
                let mut j: usize = 0;
                while j < m
                    invariant
                        j <= m,
                        i < self.entries@.len(),
                        n == self.entries@.len(),
                        m == self.entries@[i as int].1@.len(),
                        vals@ == self.entries@[i as int].1@,
                        self.entries@[i as int].0@ == field@,
                        forall|q: int| 0 <= q < j ==> #[trigger] self@[i as int].1[q] != value@,
                        !exists|p: int, q: int|
                            #![trigger self@[p].1[q]]
                            0 <= p < i && self@[p].0 == field@ && 0 <= q < self@[p].1.len()
                                && self@[p].1[q] == value@,
                    decreases m - j,
                {
                    let hit = str_eq(vals[j].as_str(), value);
                    proof {
                        assert(self@[i as int].1[j as int]
                            == self.entries@[i as int].1.deep_view()[j as int]);
                        assert(self@[i as int].1[j as int] == vals@[j as int]@);
                    }
                    if hit {
                        proof {
                            assert(self@[i as int].0 == field@);
                            assert(self@[i as int].1[j as int] == value@);
                        }
                        return true;
                    }
                    j = j + 1;
                }
                proof {
                    assert(forall|q: int|
                        0 <= q < self@[i as int].1.len() ==> #[trigger] self@[i as int].1[q]
                            != value@);
                }
            }
            i = i + 1;
        }
        false
    }

    /// Append a value to the entry of `field`, creating the entry where
    /// none exists yet.
    pub fn add(&mut self, field: &str, value: &str)
        ensures
            final(self)@ == spec_matches_add(old(self)@, field@, value@),
            spec_matches_accepts(final(self)@, field@, value@),
            forall|f: Seq<char>, v: Seq<char>|
                spec_matches_accepts(old(self)@, f, v) ==> spec_matches_accepts(final(self)@, f, v),
    {
        let n = self.entries.len();
        let mut i: usize = 0;
        while i < n
            invariant
                i <= n,
                n == self.entries@.len(),
                self@ == old(self)@,
                forall|k: int| 0 <= k < i ==> (#[trigger] old(self)@[k]).0 != field@,
            decreases n - i,
        {
            if str_eq(self.entries[i].0.as_str(), field) {
                let ghost before = self@;
                let mut vals = core_take_values(&mut self.entries, i);
                vals.push(value.to_owned());
                put_back_values(&mut self.entries, i, vals);
                proof {
                    lemma_matches_add_skip(before, field@, value@, i as int);
                    assert(before.skip(i as int)[0] == before[i as int]);
                    assert(before.skip(i as int).drop_first() =~= before.skip(i as int + 1));
                    assert(spec_matches_add(before.skip(i as int), field@, value@) =~= seq![
                        (before[i as int].0, before[i as int].1.push(value@)),
                    ] + before.skip(i as int + 1));
                    assert(self@[i as int].1 =~= before[i as int].1.push(value@));
                    assert(self@ =~= spec_matches_add(before, field@, value@));
                    assert(self@[i as int].0 == field@);
                    assert(self@[i as int].1.last() == value@);
                    assert(spec_matches_accepts(self@, field@, value@));
                    assert forall|f: Seq<char>, v: Seq<char>|
                        spec_matches_accepts(before, f, v) implies spec_matches_accepts(
                        self@,
                        f,
                        v,
                    ) by {
                        let (p, q) = choose|p: int, q: int|
                            #![trigger before[p].1[q]]
                            0 <= p < before.len() && before[p].0 == f && 0 <= q
                                < before[p].1.len() && before[p].1[q] == v;
                        assert(self@[p].0 == f);
                        assert(self@[p].1[q] == v);
                    }
                }
                return ;
            }
            i = i + 1;
        }
        let ghost before = self@;
        let mut vals: Vec<String> = Vec::new();
        vals.push(value.to_owned());
        self.entries.push((field.to_owned(), vals));
        proof {
            lemma_matches_add_skip(before, field@, value@, before.len() as int);
            assert(before.skip(before.len() as int).len() == 0);
            assert(spec_matches_add(before.skip(before.len() as int), field@, value@) =~= seq![
                (field@, seq![value@]),
            ]);
            assert(self@[before.len() as int].1 =~= seq![value@]);
            assert(self@ =~= spec_matches_add(before, field@, value@));
            assert(self@[before.len() as int].0 == field@);
            assert(self@[before.len() as int].1[0] == value@);
            assert(spec_matches_accepts(self@, field@, value@));
            assert forall|f: Seq<char>, v: Seq<char>|
                spec_matches_accepts(before, f, v) implies spec_matches_accepts(self@, f, v) by {
                let (p, q) = choose|p: int, q: int|
                    #![trigger before[p].1[q]]
                    0 <= p < before.len() && before[p].0 == f && 0 <= q
                        < before[p].1.len() && before[p].1[q] == v;
                assert(self@[p].0 == f);
                assert(self@[p].1[q] == v);
            }
        }
    }
}

/// Move the value list out of entry `i`, leaving it empty in place.
fn core_take_values(entries: &mut Vec<(String, Vec<String>)>, i: usize) -> (r: Vec<String>)
    requires
        i < old(entries)@.len(),
    ensures
        r == old(entries)@[i as int].1,
        final(entries)@.len() == old(entries)@.len(),
        final(entries)@[i as int].0 == old(entries)@[i as int].0,
        forall|k: int|
            0 <= k < final(entries)@.len() && k != i ==> final(entries)@[k] == old(entries)@[k],
{
    let (key, vals) = entries.remove(i);
    entries.insert(i, (key, Vec::new()));
    proof {
        assert(entries@ =~= old(entries)@.update(
            i as int,
            (old(entries)@[i as int].0, entries@[i as int].1),
        ));
    }
    vals
}

/// Put a value list back into entry `i`.
fn put_back_values(entries: &mut Vec<(String, Vec<String>)>, i: usize, vals: Vec<String>)
    requires
        i < old(entries)@.len(),
    ensures
        final(entries)@.len() == old(entries)@.len(),
        final(entries)@[i as int].0 == old(entries)@[i as int].0,
        final(entries)@[i as int].1 == vals,
        forall|k: int|
            0 <= k < final(entries)@.len() && k != i ==> final(entries)@[k] == old(entries)@[k],
{
    let (key, _) = entries.remove(i);
    entries.insert(i, (key, vals));
    proof {
        assert(entries@ =~= old(entries)@.update(
            i as int,
            (old(entries)@[i as int].0, entries@[i as int].1),
        ));
    }
}

/// The full unit name a configured unit stands for: unchanged where it
/// has an extension, with ".service" appended otherwise.
pub open spec fn spec_fixup_unit(unit: Seq<char>) -> Seq<char> {
    if crate::topology::spec_has_dot(unit) {
        unit
    } else {
        unit + ".service"@
    }
}

/// The match table with every unit of the list accepted for the systemd
/// unit field, in order, each fixed up to a full unit name.
pub open spec fn spec_merge_units(
    es: Seq<(Seq<char>, Seq<Seq<char>>)>,
    units: Seq<Seq<char>>,
) -> Seq<(Seq<char>, Seq<Seq<char>>)>
    decreases units.len(),
{
    if units.len() == 0 {
        es
    } else {
        spec_merge_units(
            spec_matches_add(es, "_SYSTEMD_UNIT"@, spec_fixup_unit(units[0])),
            units.drop_first(),
        )
    }
}

/// Map a unit name into a valid systemd unit by appending ".service"
/// where no extension is present.
pub fn fixup_unit(unit: &str) -> (r: String)
    ensures
        r@ == spec_fixup_unit(unit@),
{
    let n = unit.unicode_len();
    let mut i: usize = 0;
    while i < n
        invariant
            i <= n,
            n == unit@.len(),
            forall|k: int| 0 <= k < i ==> unit@[k] != '.',
        decreases n - i,
    {
        if unit.get_char(i) == '.' {
            return unit.to_owned();
        }
        i = i + 1;
    }
    unit.to_owned().concat(".service")
}

/// The configuration of the journal source.
#[derive(Debug)]
pub struct JournaldConfig {
    pub since_now: Option<bool>,
    pub current_boot_only: Option<bool>,
    /// The deprecated unit list; use `include_units` instead.
    pub units: Vec<String>,
    pub include_units: Vec<String>,
    pub exclude_units: Vec<String>,
    pub include_matches: Matches,
    pub exclude_matches: Matches,
    pub data_dir: Option<String>,
    pub batch_size: Option<usize>,
    pub journalctl_path: Option<String>,
    pub journal_directory: Option<String>,
    pub remap_priority: bool,
}

impl Default for JournaldConfig {
    /// The example configuration shown to users: everything left at its
    /// defaults.
    fn default() -> (c: JournaldConfig)
        ensures
            c.units@.len() == 0,
            c.include_units@.len() == 0,
            c.exclude_units@.len() == 0,
            c.include_matches@.len() == 0,
            c.exclude_matches@.len() == 0,
            c.since_now is None,
            c.batch_size is None,
            !c.remap_priority,
    {
        JournaldConfig {
            since_now: None,
            current_boot_only: None,
            units: Vec::new(),
            include_units: Vec::new(),
            exclude_units: Vec::new(),
            include_matches: Matches::empty(),
            exclude_matches: Matches::empty(),
            data_dir: None,
            batch_size: None,
            journalctl_path: None,
            journal_directory: None,
            remap_priority: false,
        }
    }
}

impl JournaldConfig {
    /// The include table with the configured include units merged in.
    /// Naming units both under the deprecated `units` and under
    /// `include_units` is an error.
    pub fn merged_include_matches(&self) -> (r: Result<Matches, String>)
        ensures
            self.units@.len() > 0 && self.include_units@.len() > 0 ==> r is Err,
            !(self.units@.len() > 0 && self.include_units@.len() > 0) ==> (r matches Ok(m) && m@
                == spec_merge_units(
                self.include_matches@,
                if self.units@.len() > 0 {
                    self.units.deep_view()
                } else {
                    self.include_units.deep_view()
                },
            )),
    {
        if self.units.len() > 0 && self.include_units.len() > 0 {
            return Err(String::from_str("Cannot use both `units` and `include_units`"));
        }
        let units = if self.units.len() > 0 {
            &self.units
        } else {
            &self.include_units
        };
        Ok(Self::merge_units(&self.include_matches, units))
    }

    /// The exclude table with the configured exclude units merged in.
    pub fn merged_exclude_matches(&self) -> (r: Matches)
        ensures
            r@ == spec_merge_units(self.exclude_matches@, self.exclude_units.deep_view()),
    {
        Self::merge_units(&self.exclude_matches, &self.exclude_units)
    }

    /// A copy of the match table with each unit, fixed up to a full unit
    /// name, accepted for the systemd unit field.
    pub fn merge_units(matches: &Matches, units: &Vec<String>) -> (r: Matches)
        ensures
            r@ == spec_merge_units(matches@, units.deep_view()),
            forall|f: Seq<char>, v: Seq<char>|
                spec_matches_accepts(matches@, f, v) ==> spec_matches_accepts(r@, f, v),
    {
        let ghost uv = units.deep_view();
        let mut out = matches.duplicate();
        let field = systemd_unit_field();
        let n = units.len();
        let mut i: usize = 0;
        proof {
            assert(uv.skip(0) =~= uv);
        }
        while i < n
            invariant
                i <= n,
                n == units@.len(),
                uv == units.deep_view(),
                n == uv.len(),
                field@ == "_SYSTEMD_UNIT"@,
                spec_merge_units(matches@, uv) == spec_merge_units(out@, uv.skip(i as int)),
                forall|f: Seq<char>, v: Seq<char>|
                    spec_matches_accepts(matches@, f, v) ==> spec_matches_accepts(out@, f, v),
            decreases n - i,
        {
            proof {
                assert(uv.skip(i as int)[0] == uv[i as int]);
                assert(uv.skip(i as int).drop_first() =~= uv.skip(i as int + 1));
                assert(uv[i as int] == units@[i as int]@);
            }
            let unit = fixup_unit(units[i].as_str());
            out.add(field.as_str(), unit.as_str());
            i = i + 1;
        }
        proof {
            assert(uv.skip(n as int).len() == 0);
        }
        out
    }
}

impl Matches {
    /// An exact copy of this table.
    pub fn duplicate(&self) -> (r: Matches)
        ensures
            r@ == self@,
    {
        let mut out: Vec<(String, Vec<String>)> = Vec::new();
        let n = self.entries.len();
        let mut i: usize = 0;
        while i < n
            invariant
                i <= n,
                n == self.entries@.len(),
                out@.len() == i,
                forall|k: int|
                    0 <= k < i ==> (#[trigger] out@[k]).0@ == self.entries@[k].0@
                        && out@[k].1.deep_view() == self.entries@[k].1.deep_view(),
            decreases n - i,
        {
            let key = self.entries[i].0.clone();
            let vals = clone_string_list(&self.entries[i].1);
            out.push((key, vals));
            i = i + 1;
        }
        let r = Matches { entries: out };
        proof {
            assert(r@ =~= self@);
        }
        r
    }
}

/// An exact copy of a string list.
fn clone_string_list(v: &Vec<String>) -> (r: Vec<String>)
    ensures
        r.deep_view() == v.deep_view(),
{
    let n = v.len();
    let mut out: Vec<String> = Vec::new();
    let mut i: usize = 0;
    while i < n
        invariant
            i <= n,
            n == v@.len(),
            out@.len() == i,
            forall|k: int| 0 <= k < i ==> #[trigger] out@[k]@ == v@[k]@,
        decreases n - i,
    {
        out.push(v[i].clone());
        i = i + 1;
    }
    proof {
        assert(out.deep_view() =~= v.deep_view());
    }
    out
}

/// Whether a record matches a table: some field-value pair of the record
/// is accepted by the table.
pub open spec fn spec_contains_match(record: &Record, matches: &Matches) -> bool {
    exists|i: int|
        0 <= i < record.fields@.len() && spec_matches_accepts(
            matches@,
            (#[trigger] record.fields@[i]).0@,
            record.fields@[i].1@,
        )
}

/// Whether some field-value pair of the record is accepted by the table.
pub fn contains_match(record: &Record, matches: &Matches) -> (r: bool)
    ensures
        r == spec_contains_match(record, matches),
{
    let n = record.fields.len();
    let mut i: usize = 0;
    while i < n
        invariant
            i <= n,
            n == record.fields@.len(),
            forall|k: int|
                0 <= k < i ==> !spec_matches_accepts(
                    matches@,
                    (#[trigger] record.fields@[k]).0@,
                    record.fields@[k].1@,
                ),
        decreases n - i,
    {
        if matches.accepts(record.fields[i].0.as_str(), record.fields[i].1.as_str()) {
            return true;
        }
        i = i + 1;
    }
    false
}

/// Whether a record is filtered out: with no tables nothing is filtered;
/// with only includes, a record not included is filtered; with only
/// excludes, a record excluded is filtered; with both, a record is
/// filtered unless included and not excluded.
pub fn filter_matches(record: &Record, includes: &Matches, excludes: &Matches) -> (r: bool)
    ensures
        includes@.len() == 0 && excludes@.len() == 0 ==> r == false,
        includes@.len() > 0 && excludes@.len() == 0 ==> r == !spec_contains_match(
            record,
            includes,
        ),
        includes@.len() == 0 && excludes@.len() > 0 ==> r == spec_contains_match(record, excludes),
        includes@.len() > 0 && excludes@.len() > 0 ==> r == (!spec_contains_match(record, includes)
            || spec_contains_match(record, excludes)),
{
    let include_empty = includes.is_empty();
    let exclude_empty = excludes.is_empty();
    if include_empty && exclude_empty {
        false
    } else if !include_empty && exclude_empty {
        !contains_match(record, includes)
    } else if include_empty && !exclude_empty {
        contains_match(record, excludes)
    } else {
        !contains_match(record, includes) || contains_match(record, excludes)
    }
}

/// A field-value pair accepted by both tables, if any: naming the same
/// pair in the include and exclude tables is a configuration error.
pub fn find_duplicate_match(a_matches: &Matches, b_matches: &Matches) -> (r: Option<
    (String, String),
>)
    ensures
        r matches Some(p) ==> spec_matches_accepts(a_matches@, p.0@, p.1@)
            && spec_matches_accepts(b_matches@, p.0@, p.1@),
        r is None ==> forall|f: Seq<char>, v: Seq<char>|
            !(spec_matches_accepts(a_matches@, f, v) && spec_matches_accepts(b_matches@, f, v)),
{
    let n = a_matches.entries.len();
    let mut i: usize = 0;
    while i < n
        invariant
            i <= n,
            n == a_matches.entries@.len(),
            forall|p: int, q: int|
                #![trigger a_matches@[p].1[q]]
                0 <= p < i && 0 <= q < a_matches@[p].1.len() ==> !spec_matches_accepts(
                    b_matches@,
                    a_matches@[p].0,
                    a_matches@[p].1[q],
                ),
        decreases n - i,
    {
        let field = &a_matches.entries[i].0;
        let vals = &a_matches.entries[i].1;
        let m = vals.len();
        let mut j: usize = 0;
        while j < m
            invariant
                j <= m,
                i < a_matches.entries@.len(),
                n == a_matches.entries@.len(),
                m == a_matches.entries@[i as int].1@.len(),
                vals@ == a_matches.entries@[i as int].1@,
                field@ == a_matches.entries@[i as int].0@,
                forall|p: int, q: int|
                    #![trigger a_matches@[p].1[q]]
                    0 <= p < i && 0 <= q < a_matches@[p].1.len() ==> !spec_matches_accepts(
                        b_matches@,
                        a_matches@[p].0,
                        a_matches@[p].1[q],
                    ),
                forall|q: int|
                    0 <= q < j ==> !spec_matches_accepts(
                        b_matches@,
                        a_matches@[i as int].0,
                        #[trigger] a_matches@[i as int].1[q],
                    ),
            decreases m - j,
        {
            let hit = b_matches.accepts(field.as_str(), vals[j].as_str());
            proof {
                assert(a_matches@[i as int].0 == field@);
                assert(a_matches@[i as int].1[j as int]
                    == a_matches.entries@[i as int].1.deep_view()[j as int]);
                assert(a_matches@[i as int].1[j as int] == vals@[j as int]@);
            }
            if hit {
                proof {
                    assert(spec_matches_accepts(a_matches@, field@, vals@[j as int]@));
                }
                return Some((field.clone(), vals[j].clone()));
            }
            j = j + 1;
        }
        i = i + 1;
    }
    proof {
        assert forall|f: Seq<char>, v: Seq<char>|
            !(spec_matches_accepts(a_matches@, f, v) && spec_matches_accepts(
                b_matches@,
                f,
                v,
            )) by {
            if spec_matches_accepts(a_matches@, f, v) && spec_matches_accepts(b_matches@, f, v) {
                let (p, q) = choose|p: int, q: int|
                    #![trigger a_matches@[p].1[q]]
                    0 <= p < a_matches@.len() && a_matches@[p].0 == f && 0 <= q
                        < a_matches@[p].1.len() && a_matches@[p].1[q] == v;
                assert(!spec_matches_accepts(b_matches@, a_matches@[p].0, a_matches@[p].1[q]));
            }
        }
    }
    None
}

/// The label of a numeric record priority: the syslog level name for the
/// digits zero to seven, a marker for any other number, and nothing for a
/// value that is not a number, which is left alone.
pub fn remap_priority(priority: &str) -> Option<String> {
    let n = priority.unicode_len();
    if n == 0 {
        return None;
    }
    let mut i: usize = 0;
    while i < n
        invariant
            i <= n,
            n == priority@.len(),
        decreases n - i,
    {
        let c = priority.get_char(i);
        if !('0' <= c && c <= '9') {
            return None;
        }
        i = i + 1;
    }
    let text = if str_eq(priority, "0") {
        "EMERG"
    } else if str_eq(priority, "1") {
        "ALERT"
    } else if str_eq(priority, "2") {
        "CRIT"
    } else if str_eq(priority, "3") {
        "ERR"
    } else if str_eq(priority, "4") {
        "WARNING"
    } else if str_eq(priority, "5") {
        "NOTICE"
    } else if str_eq(priority, "6") {
        "INFO"
    } else if str_eq(priority, "7") {
        "DEBUG"
    } else {
        "UNKNOWN"
    };
    Some(text.to_owned())
}

/// How the journal reader is started.
#[derive(Debug)]
pub struct StartJournalctl {
    pub path: String,
    pub journal_dir: Option<String>,
    pub current_boot_only: bool,
    pub since_now: bool,
}

impl StartJournalctl {
    pub fn new(
        path: String,
        journal_dir: Option<String>,
        current_boot_only: bool,
        since_now: bool,
    ) -> (r: StartJournalctl)
        ensures
            r.path == path,
            r.journal_dir == journal_dir,
            r.current_boot_only == current_boot_only,
            r.since_now == since_now,
    {
        StartJournalctl { path, journal_dir, current_boot_only, since_now }
    }

    /// The argument list the journal reader is started with: always
    /// following output as JSON with cursors, plus the configured
    /// directory and boot limits, starting after the checkpoint cursor
    /// where one is known, at now where asked, and at the epoch of the
    /// format otherwise.
    pub fn make_command_args(&self, checkpoint: Option<&str>) -> (args: Vec<String>)
        ensures
            args@.len() >= 4,
            args@[0]@ == "--follow"@,
            args@[1]@ == "--all"@,
            args@[2]@ == "--show-cursor"@,
            args@[3]@ == "--output=json"@,
            self.journal_dir is Some ==> exists|i: int|
                0 <= i < args@.len() && (#[trigger] args@[i]@).len() >= 12 && args@[i]@.take(12)
                    == "--directory="@,
            self.current_boot_only ==> exists|i: int|
                0 <= i < args@.len() && #[trigger] args@[i]@ == "--boot"@,
            checkpoint is Some ==> exists|i: int|
                0 <= i < args@.len() && (#[trigger] args@[i]@).len() >= 15 && args@[i]@.take(15)
                    == "--after-cursor="@,
            checkpoint is None && self.since_now ==> exists|i: int|
                0 <= i < args@.len() && #[trigger] args@[i]@ == "--since=now"@,
            checkpoint is None && !self.since_now ==> exists|i: int|
                0 <= i < args@.len() && #[trigger] args@[i]@ == "--since=2000-01-01"@,
    {
        let mut args: Vec<String> = Vec::new();
        args.push(String::from_str("--follow"));
        args.push(String::from_str("--all"));
        args.push(String::from_str("--show-cursor"));
        args.push(String::from_str("--output=json"));

        let ghost mut dir_idx: int = 0;
        match &self.journal_dir {
            Some(dir) => {
                let arg = String::from_str("--directory=").concat(dir.as_str());
                proof {
                    dir_idx = args@.len() as int;
                    reveal_strlit("--directory=");
                    assert(arg@.take(12) =~= "--directory="@);
                }
                args.push(arg);
                proof {
                    assert(args@[dir_idx]@.len() >= 12 && args@[dir_idx]@.take(12)
                        == "--directory="@);
                }
            },
            None => {},
        }

        let ghost mut boot_idx: int = 0;
        if self.current_boot_only {
            proof {
                boot_idx = args@.len() as int;
            }
            args.push(String::from_str("--boot"));
            proof {
                assert(args@[boot_idx]@ == "--boot"@);
            }
        }
        match checkpoint {
            Some(cursor) => {
                let arg = String::from_str("--after-cursor=").concat(cursor);
                let ghost cur_idx: int = args@.len() as int;
                proof {
                    reveal_strlit("--after-cursor=");
                    assert(arg@.take(15) =~= "--after-cursor="@);
                }
                args.push(arg);
                proof {
                    assert(args@[cur_idx as int]@.len() >= 15 && args@[cur_idx as int]@.take(15)
                        == "--after-cursor="@);
                }
            },
            None => {
                if self.since_now {
                    let ghost now_idx: int = args@.len() as int;
                    args.push(String::from_str("--since=now"));
                    proof {
                        assert(args@[now_idx as int]@ == "--since=now"@);
                    }
                } else {
                    // Without a starting point the reader gives only a
                    // few lines: start from before the journal format
                    // existed.
                    let ghost epoch_idx: int = args@.len() as int;
                    args.push(String::from_str("--since=2000-01-01"));
                    proof {
                        assert(args@[epoch_idx as int]@ == "--since=2000-01-01"@);
                    }
                }
            },
        }

        proof {
            if self.journal_dir is Some {
                assert(0 <= dir_idx < args@.len());
                assert(args@[dir_idx]@.len() >= 12 && args@[dir_idx]@.take(12)
                    == "--directory="@);
            }
            if self.current_boot_only {
                assert(0 <= boot_idx < args@.len());
                assert(args@[boot_idx]@ == "--boot"@);
            }
        }
        args
    }
}

} // verus!
