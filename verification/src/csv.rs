//! CSV iteration and merging: a comma-separated string is split into
//! fields, each trimmed of surrounding whitespace, and the values are
//! delivered in order to a visitor or resolved against the file store.

use vstd::prelude::*;
use vstd::string::StrSliceExecFns;
use vstd::string::StringExecFns;
use crate::file::file_content;
use crate::file::read_file;

verus! {

/// The Unicode white-space characters, as `char::is_whitespace` knows them.
pub open spec fn is_whitespace(c: char) -> bool {
    let u = c as u32;
    ||| u == 0x20
    ||| (0x09 <= u && u <= 0x0d)
    ||| u == 0x85
    ||| u == 0xa0
    ||| u == 0x1680
    ||| (0x2000 <= u && u <= 0x200a)
    ||| u == 0x2028
    ||| u == 0x2029
    ||| u == 0x202f
    ||| u == 0x205f
    ||| u == 0x3000
}

fn is_whitespace_char(c: char) -> (r: bool)
    ensures
        r == is_whitespace(c),
{
    let u = c as u32;
    u == 0x20 || (0x09 <= u && u <= 0x0d) || u == 0x85 || u == 0xa0 || u == 0x1680 || (0x2000 <= u
        && u <= 0x200a) || u == 0x2028 || u == 0x2029 || u == 0x202f || u == 0x205f || u == 0x3000
}

/// `s` without its leading whitespace.
pub open spec fn trim_start(s: Seq<char>) -> Seq<char>
    decreases s.len(),
{
    if s.len() > 0 && is_whitespace(s[0]) {
        trim_start(s.drop_first())
    } else {
        s
    }
}

/// `s` without its trailing whitespace.
pub open spec fn trim_end(s: Seq<char>) -> Seq<char>
    decreases s.len(),
{
    if s.len() > 0 && is_whitespace(s[s.len() - 1]) {
        trim_end(s.drop_last())
    } else {
        s
    }
}

/// `s` without its leading and trailing whitespace.
pub open spec fn trim(s: Seq<char>) -> Seq<char> {
    trim_end(trim_start(s))
}

/// The comma-separated fields of `s`, untrimmed; the empty string has the
/// single field `""`, and every comma separates two fields, so empty
/// fields are kept.
pub open spec fn split_csv(s: Seq<char>) -> Seq<Seq<char>>
    decreases s.len(),
{
    if s.len() == 0 {
        seq![Seq::<char>::empty()]
    } else if s[0] == ',' {
        seq![Seq::<char>::empty()] + split_csv(s.drop_first())
    } else {
        let rest = split_csv(s.drop_first());
        seq![seq![s[0]] + rest[0]] + rest.drop_first()
    }
}

/// Each field of `fields`, trimmed.
pub open spec fn trim_all(fields: Seq<Seq<char>>) -> Seq<Seq<char>> {
    fields.map_values(|f: Seq<char>| trim(f))
}

/// The values a CSV string carries: its fields, in order, each trimmed.
pub open spec fn csv_values(s: Seq<char>) -> Seq<Seq<char>> {
    trim_all(split_csv(s))
}

proof fn lemma_split_csv_len(s: Seq<char>)
    ensures
        split_csv(s).len() >= 1,
    decreases s.len(),
{
    if s.len() == 0 {
    } else {
        lemma_split_csv_len(s.drop_first());
    }
}

proof fn lemma_trim_start_at(s: Seq<char>, k: int)
    requires
        0 <= k <= s.len(),
        forall|j: int| 0 <= j < k ==> is_whitespace(s[j]),
        k == s.len() || !is_whitespace(s[k]),
    ensures
        trim_start(s) == s.skip(k),
    decreases k,
{
    if k == 0 {
        assert(s.skip(0) =~= s);
    } else {
        assert(is_whitespace(s[0]));
        lemma_trim_start_at(s.drop_first(), k - 1);
        assert(s.drop_first().skip(k - 1) =~= s.skip(k));
    }
}

proof fn lemma_trim_end_at(s: Seq<char>, m: int)
    requires
        0 <= m <= s.len(),
        forall|j: int| m <= j < s.len() ==> is_whitespace(s[j]),
        m == 0 || !is_whitespace(s[m - 1]),
    ensures
        trim_end(s) == s.take(m),
    decreases s.len(),
{
    if m == s.len() {
        assert(s.take(m) =~= s);
    } else {
        assert(is_whitespace(s[s.len() - 1]));
        lemma_trim_end_at(s.drop_last(), m);
        assert(s.drop_last().take(m) =~= s.take(m));
    }
}

/// A trimmed copy of `s`: its text without leading or trailing whitespace.
pub fn trim_str(s: &str) -> (r: String)
    ensures
        r@ == trim(s@),
{
    let n: usize = s.unicode_len();
    let mut start: usize = 0;
    while start < n && is_whitespace_char(s.get_char(start))
        invariant
            n == s@.len(),
            start <= n,
            forall|j: int| 0 <= j < start ==> is_whitespace(s@[j]),
        decreases n - start,
    {
        start += 1;
    }
    proof {
        lemma_trim_start_at(s@, start as int);
    }
    if start == n {
        proof {
            assert(s@.skip(n as int) =~= Seq::<char>::empty());
        }
        return String::new();
    }
    let mut end: usize = n;
    while end > start && is_whitespace_char(s.get_char(end - 1))
        invariant
            n == s@.len(),
            start < n,
            start <= end <= n,
            !is_whitespace(s@[start as int]),
            forall|j: int| end <= j < n ==> is_whitespace(s@[j]),
        decreases end,
    {
        end -= 1;
    }
    proof {
        assert(end > start);
        lemma_trim_end_at(s@.skip(start as int), end - start);
        assert(s@.skip(start as int).take(end - start) =~= s@.subrange(
            start as int,
            end as int,
        ));
    }
    let sub = s.substring_char(start, end);
    String::from_str(sub)
}

/// The first field of `fields` extended on the left by `f`.
spec fn prepend_first(f: Seq<char>, fields: Seq<Seq<char>>) -> Seq<Seq<char>>
    recommends
        fields.len() >= 1,
{
    seq![f + fields[0]] + fields.drop_first()
}

proof fn lemma_trim_all_push(fields: Seq<Seq<char>>, f: Seq<char>)
    ensures
        trim_all(fields.push(f)) == trim_all(fields).push(trim(f)),
{
    assert(trim_all(fields.push(f)) =~~= trim_all(fields).push(trim(f)));
}

/// Splits `csv` at its commas and trims each field: the values, in order.
pub fn split_values(csv: &str) -> (values: Vec<String>)
    ensures
        values.deep_view() == csv_values(csv@),
{
    let n: usize = csv.unicode_len();
    let mut values: Vec<String> = Vec::new();
    let ghost mut done: Seq<Seq<char>> = Seq::empty();
    let mut start: usize = 0;
    let mut i: usize = 0;
    proof {
        lemma_split_csv_len(csv@);
        assert(csv@.skip(0) =~= csv@);
        assert(csv@.subrange(0, 0) =~= Seq::<char>::empty());
        assert(prepend_first(csv@.subrange(0, 0), split_csv(csv@)) =~~= split_csv(csv@));
        assert(done + split_csv(csv@) =~~= split_csv(csv@));
        assert(values.deep_view() =~~= trim_all(done));
    }
    while i < n
        invariant
            n == csv@.len(),
            start <= i <= n,
            split_csv(csv@) == done + prepend_first(
                csv@.subrange(start as int, i as int),
                split_csv(csv@.skip(i as int)),
            ),
            values.deep_view() == trim_all(done),
        decreases n - i,
    {
        let c = csv.get_char(i);
        proof {
            lemma_split_csv_len(csv@.skip(i as int));
            lemma_split_csv_len(csv@.skip(i as int + 1));
            assert(csv@.skip(i as int).drop_first() =~= csv@.skip(i as int + 1));
        }
        let ghost f = csv@.subrange(start as int, i as int);
        let ghost ss1 = split_csv(csv@.skip(i as int));
        let ghost ss2 = split_csv(csv@.skip(i as int + 1));
        if c == ',' {
            let field = csv.substring_char(start, i);
            let trimmed = trim_str(field);
            values.push(trimmed);
            proof {
                assert(ss1 =~~= seq![Seq::<char>::empty()] + ss2);
                assert(prepend_first(f, ss1) =~~= seq![f] + ss2);
                lemma_trim_all_push(done, f);
                done = done.push(f);
                assert(prepend_first(
                    csv@.subrange(i as int + 1, i as int + 1),
                    ss2,
                ) =~~= ss2);
                assert(done + ss2 =~~= split_csv(csv@));
                assert(values.deep_view() =~~= trim_all(done));
            }
            start = i + 1;
        } else {
            proof {
                assert(ss1 =~~= seq![seq![csv@[i as int]] + ss2[0]] + ss2.drop_first());
                assert(f + (seq![csv@[i as int]] + ss2[0]) =~= csv@.subrange(
                    start as int,
                    i as int + 1,
                ) + ss2[0]);
                assert(prepend_first(f, ss1) =~~= prepend_first(
                    csv@.subrange(start as int, i as int + 1),
                    ss2,
                ));
            }
        }
        i += 1;
    }
    let field = csv.substring_char(start, n);
    let trimmed = trim_str(field);
    values.push(trimmed);
    proof {
        let f = csv@.subrange(start as int, n as int);
        assert(csv@.skip(n as int) =~= Seq::<char>::empty());
        assert(prepend_first(f, split_csv(csv@.skip(n as int))) =~~= seq![f]);
        assert(split_csv(csv@) =~~= done.push(f));
        lemma_trim_all_push(done, f);
        assert(values.deep_view() =~~= trim_all(done).push(trim(f)));
    }
    values
}

/// A consumer of CSV values. `seen` abstracts the values delivered so far;
/// each visit appends the value it is given.
pub trait CsvVisitor {
    /// The values this visitor has been given, oldest first.
    spec fn seen(&self) -> Seq<Seq<char>>;

    /// Receives the next value, which is borrowed for this call only.
    fn visit(&mut self, value: &str)
        ensures
            final(self).seen() == old(self).seen().push(value@),
    ;
}

/// A visitor that keeps every value it is given, as owned strings.
pub struct CollectingVisitor {
    pub values: Vec<String>,
}

impl CollectingVisitor {
    pub fn new() -> (v: CollectingVisitor)
        ensures
            v.seen() == Seq::<Seq<char>>::empty(),
    {
        let v = CollectingVisitor { values: Vec::new() };
        proof {
            assert(v.values.deep_view() =~~= Seq::<Seq<char>>::empty());
        }
        v
    }
}

impl CsvVisitor for CollectingVisitor {
    open spec fn seen(&self) -> Seq<Seq<char>> {
        self.values.deep_view()
    }

    fn visit(&mut self, value: &str) {
        self.values.push(String::from_str(value));
        proof {
            assert(self.seen() =~~= old(self).seen().push(value@));
        }
    }
}

/// Delivers each value of `csv` to `visitor`, in order: afterwards the
/// visitor has seen exactly the old values followed by `csv`'s values.
pub fn for_each_value<V: CsvVisitor>(csv: &str, visitor: &mut V)
    ensures
        final(visitor).seen() == old(visitor).seen() + csv_values(csv@),
{
    let values = split_values(csv);
    let n: usize = values.len();
    let mut j: usize = 0;
    proof {
        assert(visitor.seen() + csv_values(csv@).take(0) =~~= visitor.seen());
    }
    while j < n
        invariant
            n == values.len(),
            j <= n,
            values.deep_view() == csv_values(csv@),
            visitor.seen() == old(visitor).seen() + csv_values(csv@).take(j as int),
        decreases n - j,
    {
        visitor.visit(values[j].as_str());
        proof {
            assert(csv_values(csv@).take(j as int).push(csv_values(csv@)[j as int])
                =~~= csv_values(csv@).take(j as int + 1));
            assert(old(visitor).seen() + csv_values(csv@).take(j as int).push(
                csv_values(csv@)[j as int],
            ) =~~= old(visitor).seen() + csv_values(csv@).take(j as int + 1));
        }
        j += 1;
    }
    proof {
        assert(csv_values(csv@).take(n as int) =~~= csv_values(csv@));
    }
}

/// Why a merge failed: a value named a file the store does not define.
#[derive(Debug, PartialEq, Eq)]
pub enum MergeError {
    UnknownFile(String),
}

/// The first name of `names` the store does not define, if any.
pub open spec fn first_unknown(names: Seq<Seq<char>>) -> Option<Seq<char>>
    decreases names.len(),
{
    if names.len() == 0 {
        None
    } else if file_content(names[0]) is None {
        Some(names[0])
    } else {
        first_unknown(names.drop_first())
    }
}

/// The stored content of every name of `names` concatenated in order, with
/// no separator; `None` if any name is unknown.
pub open spec fn merged_content(names: Seq<Seq<char>>) -> Option<Seq<char>>
    decreases names.len(),
{
    if names.len() == 0 {
        Some(Seq::<char>::empty())
    } else {
        match (file_content(names[0]), merged_content(names.drop_first())) {
            (Some(c), Some(rest)) => Some(c + rest),
            _ => None,
        }
    }
}

/// Resolves each value of `csv` through the file store and concatenates
/// the contents, in order; fails on the first unknown name.
pub fn merge_files(csv: &str) -> (r: Result<String, MergeError>)
    ensures
        r is Ok <==> first_unknown(csv_values(csv@)) is None,
        r matches Ok(merged) ==> merged_content(csv_values(csv@)) == Some(merged@),
        r matches Err(e) ==> (e matches MergeError::UnknownFile(name)
            && first_unknown(csv_values(csv@)) == Some(name@)
            && merged_content(csv_values(csv@)) is None),
{
    let values = split_values(csv);
    let ghost names = csv_values(csv@);
    let mut merged = String::new();
    let n: usize = values.len();
    let mut i: usize = 0;
    proof {
        assert(names.skip(0) =~~= names);
    }
    while i < n
        invariant
            n == values.len(),
            i <= n,
            values.deep_view() == names,
            names == csv_values(csv@),
            first_unknown(names) == first_unknown(names.skip(i as int)),
            match merged_content(names.skip(i as int)) {
                Some(rest) => merged_content(names) == Some(merged@ + rest),
                None => merged_content(names) is None,
            },
        decreases n - i,
    {
        proof {
            assert(names.skip(i as int).drop_first() =~= names.skip(i as int + 1));
        }
        let file = read_file(values[i].as_str());
        match file.to_str() {
            Some(content) => {
                let ghost before = merged@;
                merged.append(content);
                proof {
                    if merged_content(names.skip(i as int + 1)) is Some {
                        let rest = merged_content(names.skip(i as int + 1)).unwrap();
                        assert(before + (content@ + rest) =~= merged@ + rest);
                    }
                }
            },
            None => {
                return Err(MergeError::UnknownFile(values[i].clone()));
            },
        }
        i += 1;
    }
    proof {
        assert(names.skip(n as int) =~= Seq::<Seq<char>>::empty());
        assert(merged@ + Seq::<char>::empty() =~= merged@);
    }
    Ok(merged)
}

} // verus!
