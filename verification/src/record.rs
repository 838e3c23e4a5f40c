//! Searchable records: a raw record is a mapping from field names to string
//! values; a category configuration groups field names; flattening turns a
//! raw record into one fixed-shape `QueryData` with one string per category,
//! each truncated to at most `CATEGORY_LIMIT` Unicode scalar values.
use vstd::prelude::*;
use vstd::string::StrSliceExecFns;
use vstd::string::StringExecFns;

verus! {

/// The hard upper bound on the length of one category string, in Unicode
/// scalar values, imposed by the external match primitive.
pub const CATEGORY_LIMIT: usize = 1024;

/// A raw record: an ordered list of (field name, value) pairs.
/// A lookup returns the value of the first pair whose name matches;
/// an absent field reads as the empty string.
pub struct RawRecord {
    pub fields: Vec<(String, String)>,
}

/// The value of field `name` in `fields`: the first matching pair's value,
/// or the empty sequence when no pair matches.
pub open spec fn field_value(fields: Seq<(String, String)>, name: Seq<char>) -> Seq<char>
    decreases fields.len(),
{
    if fields.len() == 0 {
        Seq::empty()
    } else if fields[0].0@ == name {
        fields[0].1@
    } else {
        field_value(fields.drop_first(), name)
    }
}

/// Whether `fields` holds a pair named `name`.
pub open spec fn field_present(fields: Seq<(String, String)>, name: Seq<char>) -> bool
    decreases fields.len(),
{
    if fields.len() == 0 {
        false
    } else if fields[0].0@ == name {
        true
    } else {
        field_present(fields.drop_first(), name)
    }
}

/// Character-by-character string equality.
fn str_eq(a: &str, b: &str) -> (r: bool)
    ensures
        r == (a@ == b@),
{
    let n = a.unicode_len();
    if n != b.unicode_len() {
        return false;
    }
    let mut i: usize = 0;
    while i < n
        invariant
            i <= n,
            n == a@.len(),
            n == b@.len(),
            forall|j: int| 0 <= j < i ==> a@[j] == b@[j],
        decreases n - i,
    {
        if a.get_char(i) != b.get_char(i) {
            return false;
        }
        i = i + 1;
    }
    proof {
        assert(a@ =~= b@);
    }
    true
}

impl RawRecord {
    /// Look up a field by name; `None` when the record has no such field.
    pub fn get(&self, name: &str) -> (r: Option<&String>)
        ensures
            match r {
                Some(v) => v@ == field_value(self.fields@, name@) && field_present(
                    self.fields@,
                    name@,
                ),
                None => !field_present(self.fields@, name@),
            },
    {
        proof {
            assert(self.fields@.skip(0) =~= self.fields@);
        }
        let mut i: usize = 0;
        while i < self.fields.len()
            invariant
                i <= self.fields@.len(),
                field_value(self.fields@, name@) == field_value(self.fields@.skip(i as int), name@),
                field_present(self.fields@, name@) == field_present(
                    self.fields@.skip(i as int),
                    name@,
                ),
            decreases self.fields@.len() - i,
        {
            let matches_here = str_eq(self.fields[i].0.as_str(), name);
            proof {
                assert(self.fields@.skip(i as int)[0] == self.fields@[i as int]);
                assert(self.fields@.skip(i as int).drop_first() =~= self.fields@.skip(i + 1));
            }
            if matches_here {
                return Some(&self.fields[i].1);
            }
            i = i + 1;
        }
        proof {
            assert(self.fields@.skip(i as int).len() == 0);
        }
        None
    }
}

/// A field that is not present reads as the empty string.
pub proof fn lemma_absent_field_empty(fields: Seq<(String, String)>, name: Seq<char>)
    requires
        !field_present(fields, name),
    ensures
        field_value(fields, name) == Seq::<char>::empty(),
    decreases fields.len(),
{
    if fields.len() > 0 {
        lemma_absent_field_empty(fields.drop_first(), name);
    }
}

/// The text of one category before truncation: the values of the listed
/// fields (absent fields read as empty), joined with a newline separator.
pub open spec fn joined(fields: Seq<(String, String)>, names: Seq<&str>) -> Seq<char>
    decreases names.len(),
{
    if names.len() == 0 {
        Seq::empty()
    } else if names.len() == 1 {
        field_value(fields, names[0]@)
    } else {
        joined(fields, names.drop_last()) + seq!['\n'] + field_value(fields, names.last()@)
    }
}

/// Truncation to the category limit: a sequence longer than the limit is cut
/// to exactly the limit; one at or under the limit is unchanged.
pub open spec fn clip(s: Seq<char>) -> Seq<char> {
    if s.len() <= CATEGORY_LIMIT {
        s
    } else {
        s.take(CATEGORY_LIMIT as int)
    }
}

/// Truncation law: any category string longer than the limit is truncated to
/// exactly the limit, and strings at or under the limit are unchanged.
pub proof fn lemma_clip_truncates(s: Seq<char>)
    ensures
        s.len() > CATEGORY_LIMIT ==> clip(s).len() == CATEGORY_LIMIT && clip(s) == s.take(
            CATEGORY_LIMIT as int,
        ),
        s.len() <= CATEGORY_LIMIT ==> clip(s) == s,
        clip(s).len() <= CATEGORY_LIMIT,
{
}

/// Flatten one category of a raw record: join the listed field values with
/// newlines, then truncate to the category limit.
fn flatten_category(entry: &RawRecord, names: &Vec<&str>) -> (r: String)
    ensures
        r@ == clip(joined(entry.fields@, names@)),
{
    let mut s = String::new();
    let mut j: usize = 0;
    while j < names.len()
        invariant
            j <= names@.len(),
            s@ == joined(entry.fields@, names@.take(j as int)),
        decreases names@.len() - j,
    {
        if j > 0 {
            s.append("\n");
            proof {
                reveal_strlit("\n");
                assert("\n"@ =~= seq!['\n']);
            }
        }
        let ghost before_value = s@;
        let name_j: &str = names[j];
        proof {
            assert(name_j == names@[j as int]);
        }
        match entry.get(name_j) {
            Some(v) => {
                s.append(v.as_str());
            },
            None => {
                proof {
                    lemma_absent_field_empty(entry.fields@, name_j@);
                }
            },
        }
        proof {
            assert(s@ =~= before_value + field_value(entry.fields@, names@[j as int]@));
            let taken = names@.take(j + 1);
            assert(taken.last() == names@[j as int]);
            assert(taken.drop_last() =~= names@.take(j as int));
            assert(s@ =~= joined(entry.fields@, taken));
        }
        j = j + 1;
    }
    proof {
        assert(names@.take(names@.len() as int) =~= names@);
    }
    let n = s.unicode_len();
    if n > CATEGORY_LIMIT {
        let clipped = s.as_str().substring_char(0, CATEGORY_LIMIT).to_owned();
        proof {
            assert(clipped@ =~= clip(joined(entry.fields@, names@)));
        }
        clipped
    } else {
        s
    }
}

/// The set of strings that are searched through: one string per category,
/// plus the identity of the record they were built from.
#[derive(Debug, PartialEq)]
pub struct QueryData {
    /// The built category strings.
    pub strings: Vec<String>,
    /// The id of the entry that this record corresponds to.
    pub id: usize,
}

/// The mathematical model of a `QueryData`: the category texts and the id.
pub ghost struct QueryView {
    pub strings: Seq<Seq<char>>,
    pub id: int,
}

impl View for QueryData {
    type V = QueryView;

    open spec fn view(&self) -> QueryView {
        QueryView { strings: self.strings.deep_view(), id: self.id as int }
    }
}

impl DeepView for QueryData {
    type V = QueryView;

    open spec fn deep_view(&self) -> QueryView {
        self.view()
    }
}

impl Clone for QueryData {
    fn clone(&self) -> (r: Self)
        ensures
            r@ == self@,
            r.id == self.id,
            r.strings@ == self.strings@,
    {
        let strings = self.strings.clone();
        proof {
            assert(strings@ =~= self.strings@);
            assert(strings.deep_view() =~= self.strings.deep_view());
        }
        QueryData { strings, id: self.id }
    }
}

impl Default for QueryData {
    /// An empty record: no category strings, id zero.
    fn default() -> (r: Self)
        ensures
            r@.strings.len() == 0,
            r@.id == 0,
    {
        QueryData { strings: Vec::new(), id: 0 }
    }
}

impl QueryData {
    /// Build a `QueryData` from a raw record and a category configuration:
    /// one string per category definition, each the newline-joined values of
    /// the listed fields, truncated to the category limit. Total: a missing
    /// field degrades to empty text, never to failure.
    pub fn build(id: usize, entry: &RawRecord, arguments: &Vec<Vec<&str>>) -> (r: QueryData)
        ensures
            r@.id == id,
            r@.strings.len() == arguments@.len(),
            forall|i: int|
                0 <= i < arguments@.len() ==> r@.strings[i] == clip(
                    joined(entry.fields@, arguments@[i]@),
                ),
    {
        let mut strings: Vec<String> = Vec::new();
        let mut i: usize = 0;
        while i < arguments.len()
            invariant
                i <= arguments@.len(),
                strings@.len() == i,
                forall|k: int|
                    0 <= k < i ==> strings@[k]@ == clip(joined(entry.fields@, arguments@[k]@)),
            decreases arguments@.len() - i,
        {
            let s = flatten_category(entry, &arguments[i]);
            strings.push(s);
            i = i + 1;
        }
        let r = QueryData { strings, id };
        proof {
            assert(forall|k: int|
                0 <= k < r.strings@.len() ==> r.strings.deep_view()[k] == r.strings@[k]@);
        }
        r
    }

    /// The number of categories this record was flattened into.
    pub fn len(&self) -> (r: usize)
        ensures
            r == self@.strings.len(),
    {
        self.strings.len()
    }
}

} // verus!
