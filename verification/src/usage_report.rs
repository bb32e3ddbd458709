//! Parsing the native layer's usage-reporting header: each table entry is
//! a line of the shape `  kTable_Variant = 123,`, naming a resource
//! table, one of its variants, and the variant's value.

use vstd::prelude::*;
use crate::resource_enum::{sorted_insert, ResourceEnumBuilder};
use crate::strutil::{all_digits, digits_val, is_digit, lemma_digits_val_prefix};

verus! {

/// Whitespace, as the entry lines use it.
pub open spec fn is_space(c: char) -> bool {
    c == ' ' || c == '\t' || c == '\r' || c == '\n' || c == '\u{b}' || c == '\u{c}'
}

/// An ASCII letter or digit.
pub open spec fn is_alnum(c: char) -> bool {
    (48 <= c as u32 && c as u32 <= 57) || (65 <= c as u32 && c as u32 <= 90) || (97 <= c as u32
        && c as u32 <= 122)
}

/// An ASCII letter, digit or underscore.
pub open spec fn is_word(c: char) -> bool {
    is_alnum(c) || c == '_'
}

/// The length of the whitespace run starting at `from`.
pub open spec fn space_run(s: Seq<char>, from: int) -> int
    decreases s.len() - from,
{
    if from < 0 || from >= s.len() || !is_space(s[from]) {
        0
    } else {
        1 + space_run(s, from + 1)
    }
}

/// The length of the letter-or-digit run starting at `from`.
pub open spec fn alnum_run(s: Seq<char>, from: int) -> int
    decreases s.len() - from,
{
    if from < 0 || from >= s.len() || !is_alnum(s[from]) {
        0
    } else {
        1 + alnum_run(s, from + 1)
    }
}

/// The length of the word-character run starting at `from`.
pub open spec fn word_run(s: Seq<char>, from: int) -> int
    decreases s.len() - from,
{
    if from < 0 || from >= s.len() || !is_word(s[from]) {
        0
    } else {
        1 + word_run(s, from + 1)
    }
}

/// The length of the digit run starting at `from`.
pub open spec fn digit_run(s: Seq<char>, from: int) -> int
    decreases s.len() - from,
{
    if from < 0 || from >= s.len() || !is_digit(s[from]) {
        0
    } else {
        1 + digit_run(s, from + 1)
    }
}

/// A scan that saw whitespace up to `i` and stop there counts the gap.
pub proof fn lemma_space_run(s: Seq<char>, from: int, i: int)
    requires
        0 <= from <= i <= s.len(),
        forall|j: int| from <= j < i ==> is_space(#[trigger] s[j]),
        i == s.len() || !is_space(s[i]),
    ensures
        space_run(s, from) == i - from,
    decreases i - from,
{
    if from < i {
        lemma_space_run(s, from + 1, i);
    }
}

/// A scan that saw letters and digits up to `i` and stop there counts the
/// gap.
pub proof fn lemma_alnum_run(s: Seq<char>, from: int, i: int)
    requires
        0 <= from <= i <= s.len(),
        forall|j: int| from <= j < i ==> is_alnum(#[trigger] s[j]),
        i == s.len() || !is_alnum(s[i]),
    ensures
        alnum_run(s, from) == i - from,
    decreases i - from,
{
    if from < i {
        lemma_alnum_run(s, from + 1, i);
    }
}

/// A scan that saw word characters up to `i` and stop there counts the
/// gap.
pub proof fn lemma_word_run(s: Seq<char>, from: int, i: int)
    requires
        0 <= from <= i <= s.len(),
        forall|j: int| from <= j < i ==> is_word(#[trigger] s[j]),
        i == s.len() || !is_word(s[i]),
    ensures
        word_run(s, from) == i - from,
    decreases i - from,
{
    if from < i {
        lemma_word_run(s, from + 1, i);
    }
}

/// A scan that saw digits up to `i` and stop there counts the gap.
pub proof fn lemma_digit_run(s: Seq<char>, from: int, i: int)
    requires
        0 <= from <= i <= s.len(),
        forall|j: int| from <= j < i ==> is_digit(#[trigger] s[j]),
        i == s.len() || !is_digit(s[i]),
    ensures
        digit_run(s, from) == i - from,
    decreases i - from,
{
    if from < i {
        lemma_digit_run(s, from + 1, i);
    }
}

/// What parsing an entry line yields: leading whitespace, a `k`, the
/// table name, an underscore, the variant name, an ` = `, the decimal
/// value and a comma, anything after the comma ignored. A value past the
/// 32-bit range is rejected.
pub open spec fn parse_usage_line_spec(s: Seq<char>) -> Option<(Seq<char>, Seq<char>, i32)> {
    let w = space_run(s, 0);
    let e0 = w + 1;
    let el = alnum_run(s, e0);
    let v0 = e0 + el + 1;
    let vl = word_run(s, v0);
    let sp = v0 + vl;
    let d0 = sp + 3;
    let dl = digit_run(s, d0);
    let dend = d0 + dl;
    if w == 0 || w >= s.len() || s[w] != 'k' {
        None
    } else if el == 0 {
        None
    } else if e0 + el >= s.len() || s[e0 + el] != '_' {
        None
    } else if vl == 0 {
        None
    } else if sp + 3 > s.len() || s[sp] != ' ' || s[sp + 1] != '=' || s[sp + 2] != ' ' {
        None
    } else if dl == 0 {
        None
    } else if dend >= s.len() || s[dend] != ',' {
        None
    } else if digits_val(s.subrange(d0, dend)) > i32::MAX {
        None
    } else {
        Some(
            (s.subrange(e0, e0 + el), s.subrange(v0, sp), digits_val(s.subrange(d0, dend)) as i32),
        )
    }
}

/// Whether the character is whitespace.
fn ch_is_space(c: char) -> (r: bool)
    ensures
        r == is_space(c),
{
    c == ' ' || c == '\t' || c == '\r' || c == '\n' || c == '\u{b}' || c == '\u{c}'
}

/// Whether the character is an ASCII letter or digit.
fn ch_is_alnum(c: char) -> (r: bool)
    ensures
        r == is_alnum(c),
{
    let v = c as u32;
    (48 <= v && v <= 57) || (65 <= v && v <= 90) || (97 <= v && v <= 122)
}

/// Whether the character is an ASCII letter, digit or underscore.
fn ch_is_word(c: char) -> (r: bool)
    ensures
        r == is_word(c),
{
    ch_is_alnum(c) || c == '_'
}

/// Whether the character is a decimal digit.
fn ch_is_digit(c: char) -> (r: bool)
    ensures
        r == is_digit(c),
{
    let v = c as u32;
    48 <= v && v <= 57
}

/// Parses one entry line of the usage-reporting header, exactly as
/// `parse_usage_line_spec` describes: the table name, the variant name
/// and the value, or nothing where the line is of another shape.
#[verifier::rlimit(30)]
#[verifier::loop_isolation(false)]
pub fn parse_usage_line(line: &str) -> (r: Option<(String, String, i32)>)
    ensures
        r is Some <==> parse_usage_line_spec(line@) is Some,
        r matches Some(p) ==> (parse_usage_line_spec(line@) matches Some(q) && p.0@ == q.0 && p.1@
            == q.1 && p.2 == q.2),
{
    let n = line.unicode_len();
    // leading whitespace
    let mut w: usize = 0;
    while w < n && ch_is_space(line.get_char(w))
        invariant
            n == line@.len(),
            w <= n,
            forall|j: int| 0 <= j < w ==> is_space(#[trigger] line@[j]),
        decreases n - w,
    {
        w += 1;
    }
    proof {
        lemma_space_run(line@, 0, w as int);
    }
    if w == 0 || w == n {
        return None;
    }
    if line.get_char(w) != 'k' {
        return None;
    }
    // the table name
    let e0 = w + 1;
    let mut i = e0;
    while i < n && ch_is_alnum(line.get_char(i))
        invariant
            n == line@.len(),
            e0 <= i <= n,
            forall|j: int| e0 <= j < i ==> is_alnum(#[trigger] line@[j]),
        decreases n - i,
    {
        i += 1;
    }
    proof {
        lemma_alnum_run(line@, e0 as int, i as int);
    }
    if i == e0 || i == n {
        return None;
    }
    if line.get_char(i) != '_' {
        return None;
    }
    // the variant name
    let v0 = i + 1;
    let mut sp = v0;
    while sp < n && ch_is_word(line.get_char(sp))
        invariant
            n == line@.len(),
            v0 <= sp <= n,
            forall|j: int| v0 <= j < sp ==> is_word(#[trigger] line@[j]),
        decreases n - sp,
    {
        sp += 1;
    }
    proof {
        lemma_word_run(line@, v0 as int, sp as int);
    }
    if sp == v0 {
        return None;
    }
    // the ` = ` between name and value
    if n - sp < 3 {
        return None;
    }
    if line.get_char(sp) != ' ' || line.get_char(sp + 1) != '=' || line.get_char(sp + 2) != ' ' {
        return None;
    }
    // the value's digits
    let d0 = sp + 3;
    let mut dend = d0;
    while dend < n && ch_is_digit(line.get_char(dend))
        invariant
            n == line@.len(),
            d0 <= dend <= n,
            forall|j: int| d0 <= j < dend ==> is_digit(#[trigger] line@[j]),
        decreases n - dend,
    {
        dend += 1;
    }
    proof {
        lemma_digit_run(line@, d0 as int, dend as int);
    }
    if dend == d0 || dend == n {
        return None;
    }
    if line.get_char(dend) != ',' {
        return None;
    }
    // the value itself
    let ghost run = line@.subrange(d0 as int, dend as int);
    proof {
        assert(all_digits(run));
    }
    let mut acc: u64 = 0;
    let mut m = d0;
    proof {
        assert(line@.subrange(d0 as int, d0 as int) =~= Seq::<char>::empty());
    }
    while m < dend
        invariant
            n == line@.len(),
            d0 <= m <= dend <= n,
            run == line@.subrange(d0 as int, dend as int),
            all_digits(run),
            forall|j: int| d0 <= j < dend ==> is_digit(#[trigger] line@[j]),
            acc <= i32::MAX as u64,
            acc == digits_val(line@.subrange(d0 as int, m as int)),
        decreases dend - m,
    {
        let c = line.get_char(m);
        let d = (c as u32 - 48) as u64;
        let acc2 = acc * 10 + d;
        proof {
            let prefix = line@.subrange(d0 as int, m as int);
            let prefix1 = line@.subrange(d0 as int, m + 1 as int);
            assert(prefix1.drop_last() =~= prefix);
            assert(prefix1.last() == line@[m as int]);
            assert(acc2 == digits_val(prefix1));
        }
        if acc2 > 0x7fffffffu64 {
            proof {
                assert(line@.subrange(d0 as int, m + 1 as int) =~= run.take(m + 1 - d0));
                lemma_digits_val_prefix(run, m + 1 - d0);
                assert(digits_val(line@.subrange(d0 as int, dend as int)) > i32::MAX);
            }
            return None;
        }
        acc = acc2;
        m += 1;
    }
    proof {
        assert(line@.subrange(d0 as int, dend as int) =~= run);
        assert(digits_val(run) <= i32::MAX);
    }
    // assemble the pieces
    let table = line.substring_char(e0, i).to_owned();
    let variant = line.substring_char(v0, sp).to_owned();
    let value: i32 = acc as i32;
    proof {
        assert(table@ =~= line@.subrange(e0 as int, i as int));
        assert(variant@ =~= line@.subrange(v0 as int, sp as int));
    }
    Some((table, variant, value))
}

/// The length of the run of characters other than a line feed starting at
/// `from`.
pub open spec fn line_run(s: Seq<char>, from: int) -> int
    decreases s.len() - from,
{
    if from < 0 || from >= s.len() || s[from] == '\n' {
        0
    } else {
        1 + line_run(s, from + 1)
    }
}

/// A scan that saw no line feed up to `i` and stop there counts the gap.
pub proof fn lemma_line_run(s: Seq<char>, from: int, i: int)
    requires
        0 <= from <= i <= s.len(),
        forall|j: int| from <= j < i ==> #[trigger] s[j] != '\n',
        i == s.len() || s[i] == '\n',
    ensures
        line_run(s, from) == i - from,
    decreases i - from,
{
    if from < i {
        lemma_line_run(s, from + 1, i);
    }
}

/// A run never leaves the text.
pub proof fn lemma_line_run_bounds(s: Seq<char>, from: int)
    requires
        0 <= from <= s.len(),
    ensures
        0 <= line_run(s, from) <= s.len() - from,
    decreases s.len() - from,
{
    if from < s.len() && s[from] != '\n' {
        lemma_line_run_bounds(s, from + 1);
    }
}

/// The lines of the text from `from` on: runs separated by line feeds,
/// with no line after a trailing line feed.
pub open spec fn lines_from(s: Seq<char>, from: int) -> Seq<Seq<char>>
    decreases s.len() - from + 1,
    when from >= 0
    via lines_from_decreases
{
    if from < 0 || from >= s.len() {
        Seq::empty()
    } else {
        let l = line_run(s, from);
        seq![s.subrange(from, from + l)] + lines_from(s, from + l + 1)
    }
}

#[via_fn]
proof fn lines_from_decreases(s: Seq<char>, from: int) {
    if 0 <= from < s.len() {
        lemma_line_run_bounds(s, from);
    }
}

/// The lines of the text.
pub open spec fn split_lines_spec(s: Seq<char>) -> Seq<Seq<char>> {
    lines_from(s, 0)
}

/// Splits the text into its lines, exactly as `split_lines_spec`
/// describes.
#[verifier::loop_isolation(false)]
pub fn split_lines(text: &str) -> (r: Vec<String>)
    ensures
        r@.len() == split_lines_spec(text@).len(),
        forall|i: int| 0 <= i < r@.len() ==> #[trigger] r@[i]@ == split_lines_spec(text@)[i],
{
    let n = text.unicode_len();
    let mut out: Vec<String> = Vec::new();
    let mut start: usize = 0;
    proof {
        assert(out@ =~= Seq::<String>::empty());
    }
    while start < n
        invariant
            n == text@.len(),
            start <= n,
            split_lines_spec(text@) == out@.map_values(|e: String| e@) + lines_from(
                text@,
                start as int,
            ),
        decreases n - start,
    {
        let ghost done = out@.map_values(|e: String| e@);
        let mut pos = start;
        while pos < n && text.get_char(pos) != '\n'
            invariant
                start <= pos <= n,
                forall|j: int| start <= j < pos ==> #[trigger] text@[j] != '\n',
            decreases n - pos,
        {
            pos += 1;
        }
        proof {
            lemma_line_run(text@, start as int, pos as int);
        }
        let line = text.substring_char(start, pos).to_owned();
        out.push(line);
        proof {
            lemma_line_run_bounds(text@, start as int);
            assert(out@.map_values(|e: String| e@) =~= done.push(
                text@.subrange(start as int, pos as int),
            ));
            assert(done + lines_from(text@, start as int) =~= done.push(
                text@.subrange(start as int, pos as int),
            ) + lines_from(text@, pos + 1));
        }
        if pos == n {
            proof {
                assert(lines_from(text@, pos + 1) =~= Seq::<Seq<char>>::empty());
                assert(split_lines_spec(text@) =~= out@.map_values(|e: String| e@));
            }
            return out;
        }
        start = pos + 1;
    }
    proof {
        assert(lines_from(text@, start as int) =~= Seq::<Seq<char>>::empty());
        assert(split_lines_spec(text@) =~= out@.map_values(|e: String| e@));
    }
    out
}

/// The view of a list of resource-table builders: each table's name
/// beside its variants.
pub open spec fn builders_views(bs: Seq<ResourceEnumBuilder>) -> Seq<
    (Seq<char>, Seq<(Seq<char>, i32)>),
> {
    bs.map_values(|b: ResourceEnumBuilder| (b.spec_name(), b.entries()))
}

/// The position of the table of the given name, from `from` on, or the
/// list's length where no table carries it.
pub open spec fn find_from(
    bs: Seq<(Seq<char>, Seq<(Seq<char>, i32)>)>,
    name: Seq<char>,
    from: int,
) -> int
    decreases bs.len() - from,
{
    if from < 0 || from >= bs.len() {
        bs.len() as int
    } else if bs[from].0 == name {
        from
    } else {
        find_from(bs, name, from + 1)
    }
}

/// What one line of the header does to the collected tables: an entry
/// line lands in its table, made anew where the name is new; any other
/// line does nothing.
pub open spec fn apply_usage_line(
    bs: Seq<(Seq<char>, Seq<(Seq<char>, i32)>)>,
    line: Seq<char>,
) -> Seq<(Seq<char>, Seq<(Seq<char>, i32)>)> {
    match parse_usage_line_spec(line) {
        Option::None => bs,
        Option::Some(entry) => {
            let i = find_from(bs, entry.0, 0);
            if i == bs.len() {
                bs.push((entry.0, sorted_insert(Seq::empty(), entry.1, entry.2)))
            } else {
                bs.update(i, (bs[i].0, sorted_insert(bs[i].1, entry.1, entry.2)))
            }
        },
    }
}

/// The tables collected from the first `k` lines.
pub open spec fn usage_tables(lines: Seq<Seq<char>>, k: int) -> Seq<
    (Seq<char>, Seq<(Seq<char>, i32)>),
>
    decreases k,
{
    if k <= 0 {
        Seq::empty()
    } else {
        apply_usage_line(usage_tables(lines, k - 1), lines[k - 1])
    }
}

/// The first builder holding the table of the given name.
fn find_builder(bs: &Vec<ResourceEnumBuilder>, name: &str) -> (r: usize)
    ensures
        r == find_from(builders_views(bs@), name@, 0),
        r <= bs@.len(),
        r < bs@.len() ==> builders_views(bs@)[r as int].0 == name@,
{
    let ghost views = builders_views(bs@);
    let n = bs.len();
    proof {
        assert(views.len() == n);
    }
    let mut j: usize = 0;
    while j < n && !crate::strutil::str_eq(bs[j].name(), name)
        invariant
            n == bs@.len(),
            views == builders_views(bs@),
            views.len() == n,
            j <= n,
            find_from(views, name@, 0) == find_from(views, name@, j as int),
            forall|j2: int| 0 <= j2 < j ==> #[trigger] views[j2].0 != name@,
        decreases n - j,
    {
        proof {
            assert(views[j as int].0 == bs@[j as int].spec_name());
        }
        j += 1;
    }
    proof {
        if j < n {
            assert(views[j as int].0 == bs@[j as int].spec_name());
        }
    }
    j
}

/// Collects every entry line of a usage-reporting header into one builder
/// per resource table, exactly as `usage_tables` describes over the
/// header's lines.
#[verifier::loop_isolation(false)]
pub fn collect_usage_enums(text: &str) -> (r: Vec<ResourceEnumBuilder>)
    ensures
        builders_views(r@) == usage_tables(
            split_lines_spec(text@),
            split_lines_spec(text@).len() as int,
        ),
        forall|i: int| 0 <= i < r@.len() ==> (#[trigger] r@[i]).wf(),
{
    let lines = split_lines(text);
    let ghost lviews = split_lines_spec(text@);
    let n = lines.len();
    proof {
        assert(lviews.len() == n);
    }
    let mut builders: Vec<ResourceEnumBuilder> = Vec::new();
    let mut k: usize = 0;
    proof {
        assert(builders_views(builders@) =~= usage_tables(lviews, 0));
    }
    while k < n
        invariant
            n == lines@.len(),
            k <= n,
            builders_views(builders@) == usage_tables(lviews, k as int),
            forall|i: int| 0 <= i < builders@.len() ==> (#[trigger] builders@[i]).wf(),
        decreases n - k,
    {
        let ghost views = builders_views(builders@);
        match parse_usage_line(lines[k].as_str()) {
            Option::None => {
            },
            Option::Some(entry) => {
                let i = find_builder(&builders, entry.0.as_str());
                if i == builders.len() {
                    let mut b = ResourceEnumBuilder::new(entry.0.as_str());
                    b.insert_variant(entry.1.as_str(), entry.2);
                    proof {
                        assert(b.entries() == sorted_insert(
                            Seq::<(Seq<char>, i32)>::empty(),
                            entry.1@,
                            entry.2,
                        ));
                    }
                    builders.push(b);
                    proof {
                        assert(builders_views(builders@) =~= views.push(
                            (entry.0@, sorted_insert(Seq::empty(), entry.1@, entry.2)),
                        ));
                    }
                } else {
                    let mut b = builders.remove(i);
                    let ghost bview = (b.spec_name(), b.entries());
                    b.insert_variant(entry.1.as_str(), entry.2);
                    builders.insert(i, b);
                    proof {
                        assert(views[i as int] == bview);
                        assert(builders_views(builders@) =~= views.update(
                            i as int,
                            (bview.0, sorted_insert(bview.1, entry.1@, entry.2)),
                        ));
                    }
                }
            },
        }
        k += 1;
    }
    proof {
        assert(usage_tables(lviews, n as int) == builders_views(builders@));
    }
    builders
}

} // verus!
