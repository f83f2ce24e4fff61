//! A stable fingerprint of a topology description: the builder is written
//! out in a canonical order-stable text and hashed.

use vstd::prelude::*;

use crate::text::{lemma_str_lt_irreflexive, lemma_str_lt_transitive, spec_str_lt, str_lt};
use crate::topology::{ComponentKey, ConfigBuilder, SinkOuter, SourceSpec, TransformOuter};
use crate::trusted::{hex_encode, sha256_digest, spec_hex_lower, spec_sha256};

verus! {

/// One component name followed by the entry terminator.
pub open spec fn spec_name_text(name: Seq<char>) -> Seq<char> {
    name + ";"@
}

/// The text of a source table: each name terminated, in order.
pub open spec fn spec_sources_text(ss: Seq<(ComponentKey, SourceSpec)>) -> Seq<char>
    decreases ss.len(),
{
    if ss.len() == 0 {
        Seq::empty()
    } else {
        spec_name_text(ss[0].0.id@) + spec_sources_text(ss.drop_first())
    }
}

/// The text of one input list: each input followed by a separator.
pub open spec fn spec_inputs_text(inputs: Seq<Seq<char>>) -> Seq<char>
    decreases inputs.len(),
{
    if inputs.len() == 0 {
        Seq::empty()
    } else {
        (inputs[0] + ","@) + spec_inputs_text(inputs.drop_first())
    }
}

/// The text of one consuming component: its key, an arrow, its inputs,
/// and the entry terminator.
pub open spec fn spec_consumer_text(key: Seq<char>, inputs: Seq<Seq<char>>) -> Seq<char> {
    ((key + "<-"@) + spec_inputs_text(inputs)) + ";"@
}

/// The text of a transform table.
pub open spec fn spec_transforms_text(ts: Seq<(ComponentKey, TransformOuter)>) -> Seq<char>
    decreases ts.len(),
{
    if ts.len() == 0 {
        Seq::empty()
    } else {
        spec_consumer_text(ts[0].0.id@, ts[0].1.inputs.deep_view()) + spec_transforms_text(
            ts.drop_first(),
        )
    }
}

/// The text of a sink table.
pub open spec fn spec_sinks_text(ks: Seq<(ComponentKey, SinkOuter)>) -> Seq<char>
    decreases ks.len(),
{
    if ks.len() == 0 {
        Seq::empty()
    } else {
        spec_consumer_text(ks[0].0.id@, ks[0].1.inputs.deep_view()) + spec_sinks_text(
            ks.drop_first(),
        )
    }
}

/// The canonical text of an arranged builder.
pub open spec fn spec_canonical_text(
    ss: Seq<(ComponentKey, SourceSpec)>,
    ts: Seq<(ComponentKey, TransformOuter)>,
    ks: Seq<(ComponentKey, SinkOuter)>,
) -> Seq<char> {
    (((("sources:"@ + spec_sources_text(ss)) + "transforms:"@) + spec_transforms_text(ts))
        + "sinks:"@) + spec_sinks_text(ks)
}

/// A builder arranged for hashing: each component table sorted by
/// component key, so equal builders write equal texts.
pub struct ConfigBuilderHash {
    pub sources: Vec<(ComponentKey, SourceSpec)>,
    pub transforms: Vec<(ComponentKey, TransformOuter)>,
    pub sinks: Vec<(ComponentKey, SinkOuter)>,
}

impl ConfigBuilderHash {
    /// Arrange a builder for hashing, sorting each component table by
    /// key.
    pub fn from_builder(builder: ConfigBuilder) -> ConfigBuilderHash {
        ConfigBuilderHash {
            sources: sort_sources(builder.sources),
            transforms: sort_transforms(builder.transforms),
            sinks: sort_sinks(builder.sinks),
        }
    }

    /// The canonical text of the builder: every component key and input
    /// in table order, with unambiguous separators.
    pub fn canonical_text(&self) -> (r: String)
        ensures
            r@ == spec_canonical_text(self.sources@, self.transforms@, self.sinks@),
    {
        let ghost ss = self.sources@;
        let ghost ts = self.transforms@;
        let ghost ks = self.sinks@;
        let mut text = String::from_str("sources:");
        let n = self.sources.len();
        let mut i: usize = 0;
        proof {
            assert(ss.skip(0) =~= ss);
        }
        while i < n
            invariant
                i <= n,
                n == ss.len(),
                ss == self.sources@,
                ("sources:"@ + spec_sources_text(ss)) =~= text@ + spec_sources_text(
                    ss.skip(i as int),
                ),
            decreases n - i,
        {
            proof {
                assert(ss.skip(i as int)[0] == ss[i as int]);
                assert(ss.skip(i as int).drop_first() =~= ss.skip(i as int + 1));
            }
            text.append(self.sources[i].0.id.as_str());
            text.append(";");
            i = i + 1;
        }
        proof {
            assert(spec_sources_text(ss.skip(n as int)) =~= Seq::<char>::empty());
            assert(text@ =~= "sources:"@ + spec_sources_text(ss));
        }
        text.append("transforms:");
        let ghost base_t = text@;
        let m = self.transforms.len();
        let mut j: usize = 0;
        proof {
            assert(ts.skip(0) =~= ts);
        }
        while j < m
            invariant
                j <= m,
                m == ts.len(),
                ts == self.transforms@,
                (base_t + spec_transforms_text(ts)) =~= text@ + spec_transforms_text(
                    ts.skip(j as int),
                ),
            decreases m - j,
        {
            proof {
                assert(ts.skip(j as int)[0] == ts[j as int]);
                assert(ts.skip(j as int).drop_first() =~= ts.skip(j as int + 1));
            }
            text.append(self.transforms[j].0.id.as_str());
            text.append("<-");
            let ghost iv = ts[j as int].1.inputs.deep_view();
            let inn = self.transforms[j].1.inputs.len();
            let mut q: usize = 0;
            let ghost base_i = text@;
            proof {
                assert(iv.skip(0) =~= iv);
            }
            while q < inn
                invariant
                    q <= inn,
                    j < ts.len(),
                    ts == self.transforms@,
                    inn == ts[j as int].1.inputs@.len(),
                    iv == ts[j as int].1.inputs.deep_view(),
                    inn == iv.len(),
                    (base_i + spec_inputs_text(iv)) =~= text@ + spec_inputs_text(
                        iv.skip(q as int),
                    ),
                decreases inn - q,
            {
                proof {
                    assert(iv.skip(q as int)[0] == iv[q as int]);
                    assert(iv.skip(q as int).drop_first() =~= iv.skip(q as int + 1));
                    assert(iv[q as int] == ts[j as int].1.inputs@[q as int]@);
                }
                text.append(self.transforms[j].1.inputs[q].as_str());
                text.append(",");
                q = q + 1;
            }
            proof {
                assert(spec_inputs_text(iv.skip(inn as int)) =~= Seq::<char>::empty());
            }
            text.append(";");
            proof {
                assert((base_t + spec_transforms_text(ts)) =~= text@ + spec_transforms_text(
                    ts.skip(j as int + 1),
                ));
            }
            j = j + 1;
        }
        proof {
            assert(spec_transforms_text(ts.skip(m as int)) =~= Seq::<char>::empty());
            assert(text@ =~= base_t + spec_transforms_text(ts));
        }
        text.append("sinks:");
        let ghost base_k = text@;
        let s = self.sinks.len();
        let mut k: usize = 0;
        proof {
            assert(ks.skip(0) =~= ks);
        }
        while k < s
            invariant
                k <= s,
                s == ks.len(),
                ks == self.sinks@,
                (base_k + spec_sinks_text(ks)) =~= text@ + spec_sinks_text(ks.skip(k as int)),
            decreases s - k,
        {
            proof {
                assert(ks.skip(k as int)[0] == ks[k as int]);
                assert(ks.skip(k as int).drop_first() =~= ks.skip(k as int + 1));
            }
            text.append(self.sinks[k].0.id.as_str());
            text.append("<-");
            let ghost iv = ks[k as int].1.inputs.deep_view();
            let inn = self.sinks[k].1.inputs.len();
            let mut q: usize = 0;
            let ghost base_i = text@;
            proof {
                assert(iv.skip(0) =~= iv);
            }
            while q < inn
                invariant
                    q <= inn,
                    k < ks.len(),
                    ks == self.sinks@,
                    inn == ks[k as int].1.inputs@.len(),
                    iv == ks[k as int].1.inputs.deep_view(),
                    inn == iv.len(),
                    (base_i + spec_inputs_text(iv)) =~= text@ + spec_inputs_text(
                        iv.skip(q as int),
                    ),
                decreases inn - q,
            {
                proof {
                    assert(iv.skip(q as int)[0] == iv[q as int]);
                    assert(iv.skip(q as int).drop_first() =~= iv.skip(q as int + 1));
                    assert(iv[q as int] == ks[k as int].1.inputs@[q as int]@);
                }
                text.append(self.sinks[k].1.inputs[q].as_str());
                text.append(",");
                q = q + 1;
            }
            proof {
                assert(spec_inputs_text(iv.skip(inn as int)) =~= Seq::<char>::empty());
            }
            text.append(";");
            proof {
                assert((base_k + spec_sinks_text(ks)) =~= text@ + spec_sinks_text(
                    ks.skip(k as int + 1),
                ));
            }
            k = k + 1;
        }
        proof {
            assert(spec_sinks_text(ks.skip(s as int)) =~= Seq::<char>::empty());
            assert(text@ =~= spec_canonical_text(ss, ts, ks));
        }
        text
    }

    /// The SHA-256 fingerprint of the canonical text, written as
    /// lower-case hexadecimal digits.
    pub fn sha256_hex(&self) -> (r: String)
        ensures
            r@ == spec_hex_lower(
                spec_sha256(
                    vstd::utf8::encode_utf8(
                        spec_canonical_text(self.sources@, self.transforms@, self.sinks@),
                    ),
                ),
            ),
            r@.len() == 64,
    {
        let text = self.canonical_text();
        let bytes = text.as_str().as_bytes_vec();
        let digest = sha256_digest(bytes.as_slice());
        let hex = hex_encode(digest.as_slice());
        proof {
            lemma_hex_len(digest@);
            assert(bytes@ == vstd::utf8::encode_utf8(text@));
            assert(hex@ == spec_hex_lower(spec_sha256(bytes@)));
        }
        hex
    }
}

/// Hex encoding writes two digits per byte.
proof fn lemma_hex_len(data: Seq<u8>)
    ensures
        spec_hex_lower(data).len() == 2 * data.len(),
    decreases data.len(),
{
    if data.len() > 0 {
        lemma_hex_len(data.drop_first());
    }
}

/// Sort a source table by component key: the result holds exactly
/// the input entries, in non-descending key order.
fn sort_sources(v: Vec<(ComponentKey, SourceSpec)>) -> (r: Vec<(ComponentKey, SourceSpec)>)
    ensures
        r@.len() == v@.len(),
        r@.to_multiset() == v@.to_multiset(),
        forall|a: int, b: int|
            0 <= a < b < r@.len() ==> !spec_str_lt((#[trigger] r@[b]).0.id@, (#[trigger] r@[a]).0.id@),
{
    broadcast use vstd::seq_lib::group_to_multiset_ensures;

    let ghost v0 = v@;
    let mut v = v;
    let n = v.len();
    let mut out: Vec<(ComponentKey, SourceSpec)> = Vec::new();
    proof {
        assert(out@.to_multiset().add(v@.to_multiset()) =~= v0.to_multiset());
    }
    while v.len() > 0
        invariant
            out@.len() + v@.len() == n,
            n == v0.len(),
            out@.to_multiset().add(v@.to_multiset()) =~= v0.to_multiset(),
            forall|a: int, b: int|
                0 <= a < b < out@.len() ==> !spec_str_lt(
                    (#[trigger] out@[b]).0.id@,
                    (#[trigger] out@[a]).0.id@,
                ),
            forall|a: int, b: int|
                0 <= a < out@.len() && 0 <= b < v@.len() ==> !spec_str_lt(
                    (#[trigger] v@[b]).0.id@,
                    (#[trigger] out@[a]).0.id@,
                ),
        decreases v@.len(),
    {
        let mut best: usize = 0;
        let m = v.len();
        let mut i: usize = 1;
        proof {
            lemma_str_lt_irreflexive(v@[0].0.id@);
        }
        while i < m
            invariant
                i <= m,
                m == v@.len(),
                best < m,
                m > 0,
                forall|t: int|
                    0 <= t < i ==> !spec_str_lt((#[trigger] v@[t]).0.id@, v@[best as int].0.id@),
            decreases m - i,
        {
            let smaller = str_lt(v[i].0.id.as_str(), v[best].0.id.as_str());
            proof {
                if smaller {
                    assert forall|t: int| 0 <= t < i + 1 implies !spec_str_lt(
                        (#[trigger] v@[t]).0.id@,
                        v@[i as int].0.id@,
                    ) by {
                        if t == i {
                            lemma_str_lt_irreflexive(v@[i as int].0.id@);
                        } else if spec_str_lt(v@[t].0.id@, v@[i as int].0.id@) {
                            lemma_str_lt_transitive(
                                v@[t].0.id@,
                                v@[i as int].0.id@,
                                v@[best as int].0.id@,
                            );
                        }
                    }
                }
            }
            if smaller {
                best = i;
            }
            i = i + 1;
        }
        let ghost v_pre = v@;
        let ghost out_pre = out@;
        let entry = v.remove(best);
        proof {
            assert(v_pre[best as int] == entry);
            assert(v_pre.contains(entry));
            assert(v@ =~= v_pre.remove(best as int));
        }
        out.push(entry);
        proof {
            broadcast use vstd::multiset::group_multiset_axioms;

            vstd::seq_lib::to_multiset_contains(v_pre, entry);
            vstd::seq_lib::to_multiset_build(out_pre, entry);
            vstd::seq_lib::to_multiset_remove(v_pre, best as int);
            assert(out@ == out_pre.push(entry));
            assert(v@ == v_pre.remove(best as int));
            assert(out@.to_multiset() =~= out_pre.to_multiset().insert(entry));
            assert(v@.to_multiset() =~= v_pre.to_multiset().remove(entry));
            assert(out@.to_multiset().add(v@.to_multiset()) =~= out_pre.to_multiset().add(
                v_pre.to_multiset(),
            ));
            assert forall|a: int, b: int|
                0 <= a < out@.len() && 0 <= b < v@.len() implies !spec_str_lt(
                (#[trigger] v@[b]).0.id@,
                (#[trigger] out@[a]).0.id@,
            ) by {
                if b < best {
                    assert(v@[b] == v_pre[b]);
                } else {
                    assert(v@[b] == v_pre[b + 1]);
                }
                if a < out_pre.len() {
                    assert(out@[a] == out_pre[a]);
                } else {
                    assert(out@[a] == entry);
                }
            }
        }
    }
    proof {
        assert(v@.to_multiset() =~= Seq::<(ComponentKey, SourceSpec)>::empty().to_multiset());
        assert(out@.to_multiset() =~= v0.to_multiset());
    }
    out
}

/// Sort a transform table by component key: the result holds exactly
/// the input entries, in non-descending key order.
fn sort_transforms(v: Vec<(ComponentKey, TransformOuter)>) -> (r: Vec<
    (ComponentKey, TransformOuter),
>)
    ensures
        r@.len() == v@.len(),
        r@.to_multiset() == v@.to_multiset(),
        forall|a: int, b: int|
            0 <= a < b < r@.len() ==> !spec_str_lt((#[trigger] r@[b]).0.id@, (#[trigger] r@[a]).0.id@),
{
    broadcast use vstd::seq_lib::group_to_multiset_ensures;

    let ghost v0 = v@;
    let mut v = v;
    let n = v.len();
    let mut out: Vec<(ComponentKey, TransformOuter)> = Vec::new();
    proof {
        assert(out@.to_multiset().add(v@.to_multiset()) =~= v0.to_multiset());
    }
    while v.len() > 0
        invariant
            out@.len() + v@.len() == n,
            n == v0.len(),
            out@.to_multiset().add(v@.to_multiset()) =~= v0.to_multiset(),
            forall|a: int, b: int|
                0 <= a < b < out@.len() ==> !spec_str_lt(
                    (#[trigger] out@[b]).0.id@,
                    (#[trigger] out@[a]).0.id@,
                ),
            forall|a: int, b: int|
                0 <= a < out@.len() && 0 <= b < v@.len() ==> !spec_str_lt(
                    (#[trigger] v@[b]).0.id@,
                    (#[trigger] out@[a]).0.id@,
                ),
        decreases v@.len(),
    {
        let mut best: usize = 0;
        let m = v.len();
        let mut i: usize = 1;
        proof {
            lemma_str_lt_irreflexive(v@[0].0.id@);
        }
        while i < m
            invariant
                i <= m,
                m == v@.len(),
                best < m,
                m > 0,
                forall|t: int|
                    0 <= t < i ==> !spec_str_lt((#[trigger] v@[t]).0.id@, v@[best as int].0.id@),
            decreases m - i,
        {
            let smaller = str_lt(v[i].0.id.as_str(), v[best].0.id.as_str());
            proof {
                if smaller {
                    assert forall|t: int| 0 <= t < i + 1 implies !spec_str_lt(
                        (#[trigger] v@[t]).0.id@,
                        v@[i as int].0.id@,
                    ) by {
                        if t == i {
                            lemma_str_lt_irreflexive(v@[i as int].0.id@);
                        } else if spec_str_lt(v@[t].0.id@, v@[i as int].0.id@) {
                            lemma_str_lt_transitive(
                                v@[t].0.id@,
                                v@[i as int].0.id@,
                                v@[best as int].0.id@,
                            );
                        }
                    }
                }
            }
            if smaller {
                best = i;
            }
            i = i + 1;
        }
        let ghost v_pre = v@;
        let ghost out_pre = out@;
        let entry = v.remove(best);
        proof {
            assert(v_pre[best as int] == entry);
            assert(v_pre.contains(entry));
            assert(v@ =~= v_pre.remove(best as int));
        }
        out.push(entry);
        proof {
            broadcast use vstd::multiset::group_multiset_axioms;

            vstd::seq_lib::to_multiset_contains(v_pre, entry);
            vstd::seq_lib::to_multiset_build(out_pre, entry);
            vstd::seq_lib::to_multiset_remove(v_pre, best as int);
            assert(out@ == out_pre.push(entry));
            assert(v@ == v_pre.remove(best as int));
            assert(out@.to_multiset() =~= out_pre.to_multiset().insert(entry));
            assert(v@.to_multiset() =~= v_pre.to_multiset().remove(entry));
            assert(out@.to_multiset().add(v@.to_multiset()) =~= out_pre.to_multiset().add(
                v_pre.to_multiset(),
            ));
            assert forall|a: int, b: int|
                0 <= a < out@.len() && 0 <= b < v@.len() implies !spec_str_lt(
                (#[trigger] v@[b]).0.id@,
                (#[trigger] out@[a]).0.id@,
            ) by {
                if b < best {
                    assert(v@[b] == v_pre[b]);
                } else {
                    assert(v@[b] == v_pre[b + 1]);
                }
                if a < out_pre.len() {
                    assert(out@[a] == out_pre[a]);
                } else {
                    assert(out@[a] == entry);
                }
            }
        }
    }
    proof {
        assert(v@.to_multiset() =~= Seq::<(ComponentKey, TransformOuter)>::empty().to_multiset());
        assert(out@.to_multiset() =~= v0.to_multiset());
    }
    out
}

/// Sort a sink table by component key: the result holds exactly
/// the input entries, in non-descending key order.
fn sort_sinks(v: Vec<(ComponentKey, SinkOuter)>) -> (r: Vec<(ComponentKey, SinkOuter)>)
    ensures
        r@.len() == v@.len(),
        r@.to_multiset() == v@.to_multiset(),
        forall|a: int, b: int|
            0 <= a < b < r@.len() ==> !spec_str_lt((#[trigger] r@[b]).0.id@, (#[trigger] r@[a]).0.id@),
{
    broadcast use vstd::seq_lib::group_to_multiset_ensures;

    let ghost v0 = v@;
    let mut v = v;
    let n = v.len();
    let mut out: Vec<(ComponentKey, SinkOuter)> = Vec::new();
    proof {
        assert(out@.to_multiset().add(v@.to_multiset()) =~= v0.to_multiset());
    }
    while v.len() > 0
        invariant
            out@.len() + v@.len() == n,
            n == v0.len(),
            out@.to_multiset().add(v@.to_multiset()) =~= v0.to_multiset(),
            forall|a: int, b: int|
                0 <= a < b < out@.len() ==> !spec_str_lt(
                    (#[trigger] out@[b]).0.id@,
                    (#[trigger] out@[a]).0.id@,
                ),
            forall|a: int, b: int|
                0 <= a < out@.len() && 0 <= b < v@.len() ==> !spec_str_lt(
                    (#[trigger] v@[b]).0.id@,
                    (#[trigger] out@[a]).0.id@,
                ),
        decreases v@.len(),
    {
        let mut best: usize = 0;
        let m = v.len();
        let mut i: usize = 1;
        proof {
            lemma_str_lt_irreflexive(v@[0].0.id@);
        }
        while i < m
            invariant
                i <= m,
                m == v@.len(),
                best < m,
                m > 0,
                forall|t: int|
                    0 <= t < i ==> !spec_str_lt((#[trigger] v@[t]).0.id@, v@[best as int].0.id@),
            decreases m - i,
        {
            let smaller = str_lt(v[i].0.id.as_str(), v[best].0.id.as_str());
            proof {
                if smaller {
                    assert forall|t: int| 0 <= t < i + 1 implies !spec_str_lt(
                        (#[trigger] v@[t]).0.id@,
                        v@[i as int].0.id@,
                    ) by {
                        if t == i {
                            lemma_str_lt_irreflexive(v@[i as int].0.id@);
                        } else if spec_str_lt(v@[t].0.id@, v@[i as int].0.id@) {
                            lemma_str_lt_transitive(
                                v@[t].0.id@,
                                v@[i as int].0.id@,
                                v@[best as int].0.id@,
                            );
                        }
                    }
                }
            }
            if smaller {
                best = i;
            }
            i = i + 1;
        }
        let ghost v_pre = v@;
        let ghost out_pre = out@;
        let entry = v.remove(best);
        proof {
            assert(v_pre[best as int] == entry);
            assert(v_pre.contains(entry));
            assert(v@ =~= v_pre.remove(best as int));
        }
        out.push(entry);
        proof {
            broadcast use vstd::multiset::group_multiset_axioms;

            vstd::seq_lib::to_multiset_contains(v_pre, entry);
            vstd::seq_lib::to_multiset_build(out_pre, entry);
            vstd::seq_lib::to_multiset_remove(v_pre, best as int);
            assert(out@ == out_pre.push(entry));
            assert(v@ == v_pre.remove(best as int));
            assert(out@.to_multiset() =~= out_pre.to_multiset().insert(entry));
            assert(v@.to_multiset() =~= v_pre.to_multiset().remove(entry));
            assert(out@.to_multiset().add(v@.to_multiset()) =~= out_pre.to_multiset().add(
                v_pre.to_multiset(),
            ));
            assert forall|a: int, b: int|
                0 <= a < out@.len() && 0 <= b < v@.len() implies !spec_str_lt(
                (#[trigger] v@[b]).0.id@,
                (#[trigger] out@[a]).0.id@,
            ) by {
                if b < best {
                    assert(v@[b] == v_pre[b]);
                } else {
                    assert(v@[b] == v_pre[b + 1]);
                }
                if a < out_pre.len() {
                    assert(out@[a] == out_pre[a]);
                } else {
                    assert(out@[a] == entry);
                }
            }
        }
    }
    proof {
        assert(v@.to_multiset() =~= Seq::<(ComponentKey, SinkOuter)>::empty().to_multiset());
        assert(out@.to_multiset() =~= v0.to_multiset());
    }
    out
}

} // verus!
