//! Generating Rust enum declarations from the native layer's
//! usage-reporting resource tables.

use vstd::prelude::*;
use crate::strutil::{i64_dec_str, i64_to_string};

verus! {

/// Strict lexicographic order on character sequences, by code point.
pub open spec fn lex_lt(a: Seq<char>, b: Seq<char>) -> bool
    decreases a.len(),
{
    if b.len() == 0 {
        false
    } else if a.len() == 0 {
        true
    } else if (a[0] as u32) < (b[0] as u32) {
        true
    } else if a[0] == b[0] {
        lex_lt(a.skip(1), b.skip(1))
    } else {
        false
    }
}

/// Characters with the same code point are the same character.
proof fn lemma_char_inj(c: char, d: char)
    requires
        c as u32 == d as u32,
    ensures
        c == d,
{
}

/// Lexicographic order is irreflexive.
pub proof fn lemma_lex_lt_irrefl(a: Seq<char>)
    ensures
        !lex_lt(a, a),
    decreases a.len(),
{
    if a.len() > 0 {
        lemma_lex_lt_irrefl(a.skip(1));
    }
}

/// Lexicographic order is transitive.
pub proof fn lemma_lex_lt_trans(a: Seq<char>, b: Seq<char>, c: Seq<char>)
    requires
        lex_lt(a, b),
        lex_lt(b, c),
    ensures
        lex_lt(a, c),
    decreases a.len(),
{
    if a.len() > 0 && b.len() > 0 && c.len() > 0 {
        if a[0] == b[0] && b[0] == c[0] {
            lemma_lex_lt_trans(a.skip(1), b.skip(1), c.skip(1));
        }
    }
}

/// Two sequences neither of which precedes the other are equal.
pub proof fn lemma_lex_lt_connex(a: Seq<char>, b: Seq<char>)
    requires
        !lex_lt(a, b),
        !lex_lt(b, a),
    ensures
        a == b,
    decreases a.len(),
{
    if a.len() == 0 || b.len() == 0 {
        assert(a =~= b);
    } else {
        assert(a[0] as u32 == b[0] as u32);
        lemma_char_inj(a[0], b[0]);
        lemma_lex_lt_connex(a.skip(1), b.skip(1));
        assert(a =~= seq![a[0]] + a.skip(1));
        assert(b =~= seq![b[0]] + b.skip(1));
    }
}

/// Whether the first string lexicographically precedes the second.
pub fn str_lt(a: &str, b: &str) -> (r: bool)
    ensures
        r == lex_lt(a@, b@),
{
    let na = a.unicode_len();
    let nb = b.unicode_len();
    let mut i: usize = 0;
    proof {
        assert(a@.skip(0) =~= a@);
        assert(b@.skip(0) =~= b@);
    }
    loop
        invariant
            na == a@.len(),
            nb == b@.len(),
            i <= na,
            i <= nb,
            lex_lt(a@, b@) == lex_lt(a@.skip(i as int), b@.skip(i as int)),
        decreases na - i,
    {
        if i == nb {
            proof {
                assert(b@.skip(i as int).len() == 0);
            }
            return false;
        }
        if i == na {
            proof {
                assert(a@.skip(i as int).len() == 0);
                assert(b@.skip(i as int).len() > 0);
            }
            return true;
        }
        let ca = a.get_char(i);
        let cb = b.get_char(i);
        proof {
            assert(a@.skip(i as int)[0] == a@[i as int]);
            assert(b@.skip(i as int)[0] == b@[i as int]);
        }
        if (ca as u32) < (cb as u32) {
            return true;
        }
        if ca != cb {
            return false;
        }
        proof {
            assert(a@.skip(i as int).skip(1) =~= a@.skip(i + 1));
            assert(b@.skip(i as int).skip(1) =~= b@.skip(i + 1));
        }
        i += 1;
    }
}

/// The view of a variant list: each name as its character sequence,
/// beside its value.
pub open spec fn kv_views(s: Seq<(String, i32)>) -> Seq<(Seq<char>, i32)> {
    s.map_values(|p: (String, i32)| (p.0@, p.1))
}

/// Insertion into a name-sorted variant list: an existing name takes the
/// new value, a new name enters before the first name it precedes.
pub open spec fn sorted_insert(
    s: Seq<(Seq<char>, i32)>,
    key: Seq<char>,
    value: i32,
) -> Seq<(Seq<char>, i32)>
    decreases s.len(),
{
    if s.len() == 0 {
        seq![(key, value)]
    } else if lex_lt(s[0].0, key) {
        seq![s[0]] + sorted_insert(s.skip(1), key, value)
    } else if s[0].0 == key {
        seq![(key, value)] + s.skip(1)
    } else {
        seq![(key, value)] + s
    }
}

/// Order of variants within the generated declaration: by value, with
/// names breaking ties.
pub open spec fn vk_lt(a: (Seq<char>, i32), b: (Seq<char>, i32)) -> bool {
    a.1 < b.1 || (a.1 == b.1 && lex_lt(a.0, b.0))
}

/// One step of the insertion sort behind `sort_by_value`.
pub open spec fn insert_by_value(s: Seq<(Seq<char>, i32)>, x: (Seq<char>, i32)) -> Seq<
    (Seq<char>, i32),
>
    decreases s.len(),
{
    if s.len() == 0 {
        seq![x]
    } else if vk_lt(s[0], x) {
        seq![s[0]] + insert_by_value(s.skip(1), x)
    } else {
        seq![x] + s
    }
}

/// The variant order of the generated declaration: an insertion sort by
/// value, with names breaking ties.
pub open spec fn sort_by_value(s: Seq<(Seq<char>, i32)>) -> Seq<(Seq<char>, i32)>
    decreases s.len(),
{
    if s.len() == 0 {
        s
    } else {
        insert_by_value(sort_by_value(s.drop_last()), s.last())
    }
}

/// A generated variant line.
pub open spec fn variant_line(key: Seq<char>, value: i32) -> Seq<char> {
    "    k"@ + key + " = "@ + i64_dec_str(value as int) + ",\n"@
}

/// The generated variant lines, in order.
pub open spec fn variant_lines(s: Seq<(Seq<char>, i32)>) -> Seq<char>
    decreases s.len(),
{
    if s.len() == 0 {
        Seq::empty()
    } else {
        variant_lines(s.drop_last()) + variant_line(s.last().0, s.last().1)
    }
}

/// The full generated declaration: a fixed header, the enum's name, and
/// one line per variant in value order.
pub open spec fn enum_text(name: Seq<char>, variants: Seq<(Seq<char>, i32)>) -> Seq<char> {
    "#[derive(Debug, Copy, Clone, PartialEq, Eq)]\n#[repr(i32)]\npub enum "@ + name + " {\n"@
        + variant_lines(sort_by_value(variants)) + "}\n"@
}

/// Collects the variants of one native resource table and renders them as
/// a Rust enum declaration.
pub struct ResourceEnumBuilder {
    name: String,
    variants: Vec<(String, i32)>,
}

impl ResourceEnumBuilder {
    /// The enum's name as the specification sees it.
    pub closed spec fn spec_name(&self) -> Seq<char> {
        self.name@
    }

    /// The collected variants as the specification sees them.
    pub closed spec fn entries(&self) -> Seq<(Seq<char>, i32)> {
        kv_views(self.variants@)
    }

    /// The variants stay sorted by name, each name held once.
    pub open spec fn wf(&self) -> bool {
        forall|i: int, j: int|
            0 <= i < j < self.entries().len() ==> lex_lt(
                #[trigger] self.entries()[i].0,
                #[trigger] self.entries()[j].0,
            )
    }

    /// An empty builder for the table of the given name.
    pub fn new(name: &str) -> (r: Self)
        ensures
            r.wf(),
            r.spec_name() == name@,
            r.entries() == Seq::<(Seq<char>, i32)>::empty(),
    {
        let r = ResourceEnumBuilder { name: name.to_owned(), variants: Vec::new() };
        proof {
            assert(r.entries() =~= Seq::<(Seq<char>, i32)>::empty());
        }
        r
    }

    /// Where the key belongs in the sorted variant list: past every name
    /// that precedes it.
    fn find_slot(&self, key: &str) -> (r: usize)
        ensures
            r <= self.entries().len(),
            forall|j: int| 0 <= j < r ==> lex_lt(#[trigger] self.entries()[j].0, key@),
            r < self.entries().len() ==> !lex_lt(self.entries()[r as int].0, key@),
            forall|value: i32|
                sorted_insert(self.entries(), key@, value) == self.entries().take(r as int)
                    + sorted_insert(self.entries().skip(r as int), key@, value),
    {
        let ghost kv = self.entries();
        let n = self.variants.len();
        let mut idx: usize = 0;
        proof {
            assert(kv.len() == n) by {
                assert(kv == kv_views(self.variants@));
            }
            assert(kv.skip(0) =~= kv);
            assert(kv.take(0) =~= Seq::<(Seq<char>, i32)>::empty());
            assert(forall|value: i32|
                sorted_insert(kv, key@, value) == kv.take(0) + sorted_insert(
                    kv.skip(0),
                    key@,
                    value,
                ));
        }
        while idx < n && str_lt(self.variants[idx].0.as_str(), key)
            invariant
                n == self.variants@.len(),
                kv == self.entries(),
                kv.len() == n,
                idx <= n,
                forall|j: int| 0 <= j < idx ==> lex_lt(#[trigger] kv[j].0, key@),
                forall|value: i32|
                    sorted_insert(kv, key@, value) == kv.take(idx as int) + sorted_insert(
                        kv.skip(idx as int),
                        key@,
                        value,
                    ),
            decreases n - idx,
        {
            proof {
                let i = idx as int;
                assert(kv[i].0 == self.variants@[i].0@);
                assert(kv.skip(i)[0] == kv[i]);
                assert(kv.skip(i).skip(1) =~= kv.skip(i + 1));
                assert(kv.take(i).push(kv[i]) =~= kv.take(i + 1));
                assert forall|value: i32|
                    sorted_insert(kv, key@, value) == kv.take(i + 1) + sorted_insert(
                        kv.skip(i + 1),
                        key@,
                        value,
                    ) by {
                    assert(sorted_insert(kv.skip(i), key@, value) == seq![kv[i]] + sorted_insert(
                        kv.skip(i + 1),
                        key@,
                        value,
                    ));
                    assert(kv.take(i) + (seq![kv[i]] + sorted_insert(kv.skip(i + 1), key@, value))
                        =~= kv.take(i + 1) + sorted_insert(kv.skip(i + 1), key@, value));
                }
            }
            idx += 1;
        }
        proof {
            if idx < n {
                assert(kv[idx as int].0 == self.variants@[idx as int].0@);
            }
        }
        idx
    }

    /// Records a variant: a name already present takes the new value, a
    /// new name keeps the list sorted.
    pub fn insert_variant(&mut self, key: &str, value: i32)
        requires
            old(self).wf(),
        ensures
            final(self).wf(),
            final(self).spec_name() == old(self).spec_name(),
            final(self).entries() == sorted_insert(old(self).entries(), key@, value),
    {
        let ghost kv = self.entries();
        let idx = self.find_slot(key);
        let n = self.variants.len();
        proof {
            assert(kv.len() == n);
        }
        if idx < n && crate::strutil::str_eq(self.variants[idx].0.as_str(), key) {
            proof {
                let i = idx as int;
                assert(kv[i].0 == self.variants@[i].0@);
                assert(kv[i].0 == key@);
                lemma_lex_lt_irrefl(key@);
                assert(kv.skip(i)[0] == kv[i]);
                assert(sorted_insert(kv.skip(i), key@, value) == seq![(key@, value)] + kv.skip(
                    i,
                ).skip(1));
                assert(kv.skip(i).skip(1) =~= kv.skip(i + 1));
            }
            self.variants.remove(idx);
            self.variants.insert(idx, (key.to_owned(), value));
            proof {
                let i = idx as int;
                assert(self.entries() =~= kv.take(i) + (seq![(key@, value)] + kv.skip(i + 1)));
                assert(self.entries() =~= sorted_insert(kv, key@, value));
                assert forall|i2: int, j2: int|
                    0 <= i2 < j2 < self.entries().len() implies lex_lt(
                    #[trigger] self.entries()[i2].0,
                    #[trigger] self.entries()[j2].0,
                ) by {
                    assert(self.entries()[i2].0 == kv[i2].0);
                    assert(self.entries()[j2].0 == kv[j2].0);
                }
            }
        } else {
            proof {
                let i = idx as int;
                if idx < n {
                    assert(kv[i].0 == self.variants@[i].0@);
                    assert(kv[i].0 != key@);
                    assert(kv.skip(i)[0] == kv[i]);
                    assert(sorted_insert(kv.skip(i), key@, value) == seq![(key@, value)] + kv.skip(
                        i,
                    ));
                } else {
                    assert(kv.skip(i).len() == 0);
                }
            }
            self.variants.insert(idx, (key.to_owned(), value));
            proof {
                let i = idx as int;
                assert(self.entries() =~= kv.take(i) + (seq![(key@, value)] + kv.skip(i)));
                assert(self.entries() =~= sorted_insert(kv, key@, value));
                // the new name follows everything before the slot and, by
                // connexity, precedes everything from the slot on
                if i < kv.len() {
                    if !lex_lt(key@, kv[i].0) {
                        lemma_lex_lt_connex(kv[i].0, key@);
                    }
                    assert(lex_lt(key@, kv[i].0));
                }
                assert forall|i2: int, j2: int|
                    0 <= i2 < j2 < self.entries().len() implies lex_lt(
                    #[trigger] self.entries()[i2].0,
                    #[trigger] self.entries()[j2].0,
                ) by {
                    if i2 < i && j2 < i {
                        assert(self.entries()[i2].0 == kv[i2].0);
                        assert(self.entries()[j2].0 == kv[j2].0);
                    } else if i2 < i && j2 == i {
                        assert(self.entries()[i2].0 == kv[i2].0);
                    } else if i2 < i && j2 > i {
                        assert(self.entries()[i2].0 == kv[i2].0);
                        assert(self.entries()[j2].0 == kv[j2 - 1].0);
                    } else if i2 == i {
                        assert(self.entries()[j2].0 == kv[j2 - 1].0);
                        assert(!lex_lt(kv[i].0, key@));
                        if j2 - 1 > i {
                            lemma_lex_lt_trans(key@, kv[i].0, kv[j2 - 1].0);
                        }
                    } else {
                        assert(self.entries()[i2].0 == kv[i2 - 1].0);
                        assert(self.entries()[j2].0 == kv[j2 - 1].0);
                    }
                }
            }
        }
    }

    /// The name the builder was made for.
    pub fn name(&self) -> (r: &str)
        ensures
            r@ == self.spec_name(),
    {
        self.name.as_str()
    }

    /// How many distinct variants have been recorded.
    pub fn variant_count(&self) -> (r: usize)
        ensures
            r == self.entries().len(),
    {
        self.variants.len()
    }

    /// Renders the table as a Rust enum declaration: a fixed header, the
    /// name, and one line per variant in value order.
    #[verifier::rlimit(50)]
    pub fn generate_enum(&self) -> (r: String)
        ensures
            r@ == enum_text(self.spec_name(), self.entries()),
    {
        let ghost kv = self.entries();
        let n = self.variants.len();
        proof {
            assert(kv.len() == n);
        }
        // order the variants by value, names breaking ties
        let mut sorted: Vec<(String, i32)> = Vec::new();
        let mut k: usize = 0;
        proof {
            assert(kv.take(0) =~= Seq::<(Seq<char>, i32)>::empty());
            assert(kv_views(sorted@) =~= sort_by_value(kv.take(0)));
        }
        while k < n
            invariant
                n == self.variants@.len(),
                kv == self.entries(),
                kv.len() == n,
                k <= n,
                kv_views(sorted@) == sort_by_value(kv.take(k as int)),
            decreases n - k,
        {
            let pair = (self.variants[k].0.clone(), self.variants[k].1);
            let ghost x = (pair.0@, pair.1);
            proof {
                assert(x == kv[k as int]);
            }
            let ghost sv = kv_views(sorted@);
            let m = sorted.len();
            proof {
                assert(sv.len() == m);
            }
            let mut j: usize = 0;
            proof {
                assert(sv.skip(0) =~= sv);
                assert(sv.take(0) =~= Seq::<(Seq<char>, i32)>::empty());
                assert(insert_by_value(sv, x) == sv.take(0) + insert_by_value(sv.skip(0), x));
            }
            while j < m && (sorted[j].1 < pair.1 || (sorted[j].1 == pair.1 && str_lt(
                sorted[j].0.as_str(),
                pair.0.as_str(),
            )))
                invariant
                    m == sorted@.len(),
                    sv == kv_views(sorted@),
                    sv.len() == m,
                    j <= m,
                    x == (pair.0@, pair.1),
                    insert_by_value(sv, x) == sv.take(j as int) + insert_by_value(
                        sv.skip(j as int),
                        x,
                    ),
                decreases m - j,
            {
                proof {
                    let ji = j as int;
                    assert(sv[ji] == (sorted@[ji].0@, sorted@[ji].1));
                    assert(vk_lt(sv[ji], x));
                    assert(sv.skip(ji)[0] == sv[ji]);
                    assert(insert_by_value(sv.skip(ji), x) == seq![sv[ji]] + insert_by_value(
                        sv.skip(ji).skip(1),
                        x,
                    ));
                    assert(sv.skip(ji).skip(1) =~= sv.skip(ji + 1));
                    assert(sv.take(ji) + (seq![sv[ji]] + insert_by_value(sv.skip(ji + 1), x)) =~= sv
                        .take(ji + 1) + insert_by_value(sv.skip(ji + 1), x));
                }
                j += 1;
            }
            proof {
                let ji = j as int;
                if j < m {
                    assert(sv[ji] == (sorted@[ji].0@, sorted@[ji].1));
                    assert(!vk_lt(sv[ji], x));
                    assert(sv.skip(ji)[0] == sv[ji]);
                    assert(insert_by_value(sv.skip(ji), x) == seq![x] + sv.skip(ji));
                } else {
                    assert(sv.skip(ji).len() == 0);
                }
            }
            sorted.insert(j, pair);
            proof {
                let ji = j as int;
                assert(kv_views(sorted@) =~= sv.take(ji) + (seq![x] + sv.skip(ji)));
                assert(kv_views(sorted@) =~= insert_by_value(sv, x));
                assert(kv.take(k + 1).drop_last() =~= kv.take(k as int));
                assert(kv.take(k + 1).last() == kv[k as int]);
            }
            k += 1;
        }
        proof {
            assert(kv.take(n as int) =~= kv);
        }
        // render the declaration
        let ghost svs = kv_views(sorted@);
        let mut out =
            "#[derive(Debug, Copy, Clone, PartialEq, Eq)]\n#[repr(i32)]\npub enum ".to_owned();
        out.append(self.name.as_str());
        out.append(" {\n");
        let ghost head = out@;
        let m = sorted.len();
        proof {
            assert(svs.len() == m);
            assert(svs.take(0) =~= Seq::<(Seq<char>, i32)>::empty());
            assert(out@ =~= head + variant_lines(svs.take(0)));
        }
        let mut k2: usize = 0;
        while k2 < m
            invariant
                m == sorted@.len(),
                svs == kv_views(sorted@),
                svs.len() == m,
                k2 <= m,
                out@ == head + variant_lines(svs.take(k2 as int)),
            decreases m - k2,
        {
            out.append("    k");
            out.append(sorted[k2].0.as_str());
            out.append(" = ");
            let vs = i64_to_string(sorted[k2].1 as i64);
            out.append(vs.as_str());
            out.append(",\n");
            proof {
                let ki = k2 as int;
                assert(svs[ki] == (sorted@[ki].0@, sorted@[ki].1));
                assert(svs.take(ki + 1).drop_last() =~= svs.take(ki));
                assert(svs.take(ki + 1).last() == svs[ki]);
                assert(out@ =~= head + variant_lines(svs.take(ki + 1)));
            }
            k2 += 1;
        }
        out.append("}\n");
        proof {
            assert(svs.take(m as int) =~= svs);
            assert(out@ =~= enum_text(self.spec_name(), self.entries()));
        }
        out
    }
}

/// Variant order is irreflexive.
pub proof fn lemma_vk_lt_irrefl(a: (Seq<char>, i32))
    ensures
        !vk_lt(a, a),
{
    lemma_lex_lt_irrefl(a.0);
}

/// Variant order is transitive.
pub proof fn lemma_vk_lt_trans(a: (Seq<char>, i32), b: (Seq<char>, i32), c: (Seq<char>, i32))
    requires
        vk_lt(a, b),
        vk_lt(b, c),
    ensures
        vk_lt(a, c),
{
    if a.1 == b.1 && b.1 == c.1 {
        lemma_lex_lt_trans(a.0, b.0, c.0);
    }
}

/// Two variants neither of which precedes the other are equal.
pub proof fn lemma_vk_lt_connex(a: (Seq<char>, i32), b: (Seq<char>, i32))
    requires
        !vk_lt(a, b),
        !vk_lt(b, a),
    ensures
        a == b,
{
    lemma_lex_lt_connex(a.0, b.0);
}

/// Whether the variants stand in ascending order: no later variant
/// precedes an earlier one.
pub open spec fn sorted_by_value(s: Seq<(Seq<char>, i32)>) -> bool {
    forall|i: int, j: int| 0 <= i <= j < s.len() ==> !vk_lt(#[trigger] s[j], #[trigger] s[i])
}

/// Inserting splits the list at the first element the newcomer does not
/// follow: the split point is returned.
pub proof fn lemma_insert_by_value_shape(s: Seq<(Seq<char>, i32)>, x: (Seq<char>, i32)) -> (p: int)
    ensures
        0 <= p <= s.len(),
        insert_by_value(s, x) == s.take(p) + seq![x] + s.skip(p),
        forall|j: int| 0 <= j < p ==> vk_lt(#[trigger] s[j], x),
        p < s.len() ==> !vk_lt(s[p], x),
    decreases s.len(),
{
    if s.len() == 0 {
        assert(insert_by_value(s, x) =~= s.take(0) + seq![x] + s.skip(0));
        0
    } else if vk_lt(s[0], x) {
        let p0 = lemma_insert_by_value_shape(s.skip(1), x);
        let p = p0 + 1;
        assert(s.skip(1).take(p0) =~= s.take(p).skip(1));
        assert(s.skip(1).skip(p0) =~= s.skip(p));
        assert(insert_by_value(s, x) =~= s.take(p) + seq![x] + s.skip(p));
        assert(forall|j: int| 1 <= j < p ==> s[j] == s.skip(1)[j - 1]);
        p
    } else {
        assert(insert_by_value(s, x) =~= s.take(0) + seq![x] + s.skip(0));
        0
    }
}

/// Inserting into an ascending list keeps it ascending.
pub proof fn lemma_insert_by_value_sorted(s: Seq<(Seq<char>, i32)>, x: (Seq<char>, i32))
    requires
        sorted_by_value(s),
    ensures
        sorted_by_value(insert_by_value(s, x)),
        insert_by_value(s, x).len() == s.len() + 1,
{
    let p = lemma_insert_by_value_shape(s, x);
    let t = insert_by_value(s, x);
    assert forall|i: int, j: int| 0 <= i <= j < t.len() implies !vk_lt(
        #[trigger] t[j],
        #[trigger] t[i],
    ) by {
        if i < p && j < p {
            assert(t[i] == s[i] && t[j] == s[j]);
            if vk_lt(t[j], t[i]) {
                lemma_vk_lt_irrefl(s[i]);
            }
        } else if i < p && j == p {
            assert(t[i] == s[i] && t[j] == x);
            if vk_lt(x, s[i]) {
                lemma_vk_lt_trans(s[i], x, s[i]);
                lemma_vk_lt_irrefl(s[i]);
            }
        } else if i < p && j > p {
            assert(t[i] == s[i] && t[j] == s[j - 1]);
            if vk_lt(s[j - 1], s[i]) {
                lemma_vk_lt_irrefl(s[i]);
            }
        } else if i == p && j == p {
            lemma_vk_lt_irrefl(x);
        } else if i == p && j > p {
            // everything from the split on does not precede the newcomer
            assert(t[i] == x && t[j] == s[j - 1]);
            assert(!vk_lt(s[p], x));
            assert(!vk_lt(s[j - 1], s[p]));
            if vk_lt(s[j - 1], x) {
                if vk_lt(x, s[p]) {
                    lemma_vk_lt_trans(s[j - 1], x, s[p]);
                } else {
                    lemma_vk_lt_connex(x, s[p]);
                }
            }
        } else {
            assert(t[i] == s[i - 1] && t[j] == s[j - 1]);
            if vk_lt(s[j - 1], s[i - 1]) {
                lemma_vk_lt_irrefl(s[i - 1]);
            }
        }
    }
    assert(t.len() == s.len() + 1);
}

/// The generated declaration lists its variants in ascending order:
/// by value, names breaking ties.
pub proof fn lemma_sort_by_value_sorted(s: Seq<(Seq<char>, i32)>)
    ensures
        sorted_by_value(sort_by_value(s)),
        sort_by_value(s).len() == s.len(),
    decreases s.len(),
{
    if s.len() == 0 {
    } else {
        lemma_sort_by_value_sorted(s.drop_last());
        lemma_insert_by_value_sorted(sort_by_value(s.drop_last()), s.last());
    }
}

} // verus!
