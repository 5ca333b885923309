//! Multipart forms: the fields of a `multipart/form-data` request gathered
//! into a map of values that a form type can be read from.
//!
//! Reading the request is the caller's part: for each field it asks
//! [`field_action`] what to read, reads it, and hands the result to
//! [`FormMap::insert_file_field`] or [`FormMap::insert_text_field`].
use vstd::prelude::*;
use crate::text::{
    chars_of, ends_with_chars, has_suffix, parse_bool, parse_integer, parse_integer_spec, replace_all,
    replace_chars, str_equal, string_of,
};

verus! {

/// A file in a multipart form. This must be used with [`Multipart`].
#[derive(Debug)]
pub struct File {
    pub content_type: String,
    pub name: String,
    pub bytes: Vec<u8>,
}

/// A multipart form read into a value of type `T`.
pub struct Multipart<T> {
    data: T,
}

impl<T> Multipart<T> {
    pub closed spec fn spec_data(self) -> T {
        self.data
    }

    pub fn new(data: T) -> (r: Self)
        ensures
            r.spec_data() == data,
    {
        Multipart::<T> { data }
    }

    /// The form's value.
    pub fn data(&self) -> (r: &T)
        ensures
            *r == self.spec_data(),
    {
        &self.data
    }

    pub fn into_inner(self) -> (r: T)
        ensures
            r == self.spec_data(),
    {
        self.data
    }
}

impl<T> core::ops::Deref for Multipart<T> {
    type Target = T;

    fn deref(&self) -> (r: &T)
        ensures
            *r == self.spec_data(),
    {
        &self.data
    }
}

/// A value of a form field.
#[derive(Debug)]
pub enum FormValue {
    Null,
    Bool(bool),
    Number(isize),
    Text(String),
    File(File),
}

/// What a field name holds: one value, or the values of a field whose name
/// ends with `[]`, in the order they came.
#[derive(Debug)]
pub enum FormEntry {
    Single(FormValue),
    List(Vec<FormValue>),
}

/// The mathematical value of a [`FormValue`].
pub enum ValueView {
    Null,
    Bool(bool),
    Number(int),
    Text(Seq<char>),
    File { content_type: Seq<char>, name: Seq<char>, bytes: Seq<u8> },
}

/// The mathematical value of a [`FormEntry`].
pub enum EntryView {
    Single(ValueView),
    List(Seq<ValueView>),
}

pub open spec fn value_view(v: FormValue) -> ValueView {
    match v {
        FormValue::Null => ValueView::Null,
        FormValue::Bool(b) => ValueView::Bool(b),
        FormValue::Number(n) => ValueView::Number(n as int),
        FormValue::Text(s) => ValueView::Text(s@),
        FormValue::File(f) => ValueView::File {
            content_type: f.content_type@,
            name: f.name@,
            bytes: f.bytes@,
        },
    }
}

pub open spec fn values_view(vs: Seq<FormValue>) -> Seq<ValueView> {
    vs.map_values(|v: FormValue| value_view(v))
}

pub open spec fn entry_view(e: FormEntry) -> EntryView {
    match e {
        FormEntry::Single(v) => EntryView::Single(value_view(v)),
        FormEntry::List(vs) => EntryView::List(values_view(vs@)),
    }
}

/// The map that a list of distinct keys with their entries stands for.
pub open spec fn entries_view(entries: Seq<(String, FormEntry)>) -> Map<Seq<char>, EntryView>
    decreases entries.len(),
{
    if entries.len() == 0 {
        Map::empty()
    } else {
        entries_view(entries.drop_last()).insert(
            entries.last().0@,
            entry_view(entries.last().1),
        )
    }
}

pub open spec fn keys_distinct(entries: Seq<(String, FormEntry)>) -> bool {
    forall|i: int, j: int|
        0 <= i < entries.len() && 0 <= j < entries.len() && i != j ==> entries[i].0@
            != entries[j].0@
}

/// The fields of a form by name.
pub struct FormMap {
    entries: Vec<(String, FormEntry)>,
}

/// `[]`, the suffix that marks a field that may repeat.
pub open spec fn list_marker() -> Seq<char> {
    seq!['[', ']']
}

/// A field's name with every `[]` taken out.
pub open spec fn formatted_name(name: Seq<char>) -> Seq<char> {
    replace_all(name, list_marker(), Seq::empty())
}

/// Where a field's value goes: a name ending with `[]` collects its values in
/// a list under the name without the marker (a value that is not a list there
/// stays, and the new value is dropped); any other name is set to the value.
pub open spec fn params_insert_spec(
    m: Map<Seq<char>, EntryView>,
    field_name: Seq<char>,
    formatted: Seq<char>,
    element: ValueView,
) -> Map<Seq<char>, EntryView> {
    if has_suffix(field_name, list_marker()) {
        if m.contains_key(formatted) {
            match m[formatted] {
                EntryView::List(vs) => m.insert(formatted, EntryView::List(vs.push(element))),
                EntryView::Single(_) => m,
            }
        } else {
            m.insert(formatted, EntryView::List(seq![element]))
        }
    } else {
        m.insert(field_name, EntryView::Single(element))
    }
}

/// The value that the text of a field stands for: an integer if it is one,
/// `true` and `false` as booleans, and otherwise the text itself.
pub open spec fn text_value_spec(s: Seq<char>) -> ValueView {
    match parse_integer_spec(s, isize::MIN as int, isize::MAX as int) {
        Some(v) => ValueView::Number(v),
        None => {
            if s == "true"@ {
                ValueView::Bool(true)
            } else if s == "false"@ {
                ValueView::Bool(false)
            } else {
                ValueView::Text(s)
            }
        },
    }
}

/// What to read of a field.
#[derive(Debug, PartialEq, Eq, Structural)]
pub enum FieldAction {
    /// The field is not part of the form: leave it.
    Skip,
    /// The field is a file: read all of it.
    ReadFile,
    /// The field is a value: read its first chunk.
    ReadFirstChunk,
}

pub open spec fn field_action_spec(
    valid_fields: Seq<Seq<char>>,
    name: Option<Seq<char>>,
    has_filename: bool,
) -> FieldAction {
    match name {
        None => FieldAction::Skip,
        Some(n) => if !valid_fields.contains(n) {
            FieldAction::Skip
        } else if has_filename {
            FieldAction::ReadFile
        } else {
            FieldAction::ReadFirstChunk
        },
    }
}

/// Decide what to read of a field, from its name (if it has one), whether it
/// carries a file name, and the names of the form's fields. A field whose
/// name is not a field of the form, as it stands, is left out.
pub fn field_action(valid_fields: &Vec<String>, name: Option<&str>, has_filename: bool) -> (r:
    FieldAction)
    ensures
        r == field_action_spec(
            valid_fields@.map_values(|f: String| f@),
            match name {
                Some(n) => Some(n@),
                None => None,
            },
            has_filename,
        ),
{
    match name {
        None => FieldAction::Skip,
        Some(n) => {
            let ghost views = valid_fields@.map_values(|f: String| f@);
            let mut found = false;
            let mut i: usize = 0;
            while i < valid_fields.len()
                invariant
                    i <= valid_fields@.len(),
                    views == valid_fields@.map_values(|f: String| f@),
                    found == (exists|k: int| 0 <= k < i && views[k] == n@),
                decreases valid_fields@.len() - i,
            {
                proof {
                    assert(views[i as int] == valid_fields@[i as int]@);
                }
                if str_equal(valid_fields[i].as_str(), n) {
                    found = true;
                }
                i = i + 1;
            }
            proof {
                if found {
                    let k = choose|k: int| 0 <= k < i && views[k] == n@;
                    assert(views.contains(n@));
                } else {
                    assert(!views.contains(n@));
                }
            }
            if !found {
                FieldAction::Skip
            } else if has_filename {
                FieldAction::ReadFile
            } else {
                FieldAction::ReadFirstChunk
            }
        },
    }
}

/// A field's name with every `[]` taken out (`str::replace` with `""`).
pub fn format_field_name(name: &str) -> (r: String)
    ensures
        r@ == formatted_name(name@),
{
    let chars = chars_of(name);
    let marker: Vec<char> = vec!['[', ']'];
    let empty: Vec<char> = Vec::new();
    proof {
        assert(marker@ == list_marker());
        assert(empty@ == Seq::<char>::empty());
    }
    string_of(&replace_chars(&chars, &marker, &empty))
}

/// Decodes UTF-8 text (`std::str::from_utf8`, then `str::to_owned`).
///
/// The standard library documents that this succeeds exactly on valid UTF-8,
/// and that the string then holds the characters the bytes encode.
#[verifier::external_body]
pub(crate) fn utf8_to_string(bytes: &Vec<u8>) -> (r: Option<String>)
    ensures
        r is Some <==> vstd::utf8::valid_utf8(bytes@),
        r matches Some(s) ==> s@ == vstd::utf8::decode_utf8(bytes@),
{
    match std::str::from_utf8(bytes) {
        Ok(s) => Some(s.to_owned()),
        Err(_) => None,
    }
}

/// The value a text field stands for (an `isize`, a boolean, or text).
pub fn text_value(s: &str) -> (r: FormValue)
    ensures
        value_view(r) == text_value_spec(s@),
{
    let min: i128 = isize::MIN as i128;
    let max: i128 = isize::MAX as i128;
    match parse_integer(s, min, max) {
        Some(v) => FormValue::Number(v as isize),
        None => {
            match parse_bool(s) {
                Some(b) => {
                    proof {
                        reveal_strlit("true");
                        reveal_strlit("false");
                    }
                    FormValue::Bool(b)
                },
                None => FormValue::Text(s.to_owned()),
            }
        },
    }
}

impl FormMap {
    #[verifier::type_invariant]
    spec fn inv(self) -> bool {
        keys_distinct(self.entries@)
    }

    /// The fields by name.
    pub closed spec fn view(self) -> Map<Seq<char>, EntryView> {
        entries_view(self.entries@)
    }

    /// An empty form.
    pub fn new() -> (r: FormMap)
        ensures
            r.view() == Map::<Seq<char>, EntryView>::empty(),
    {
        FormMap { entries: Vec::new() }
    }

    /// Number of field names.
    pub fn len(&self) -> (r: usize)
        ensures
            r == self.view().dom().len(),
    {
        proof {
            use_type_invariant(self);
            lemma_entries_view_dom(self.entries@);
        }
        self.entries.len()
    }

    /// The fields, by name.
    pub fn entries(&self) -> (r: &Vec<(String, FormEntry)>)
        ensures
            entries_view(r@) == self.view(),
            keys_distinct(r@),
    {
        proof {
            use_type_invariant(self);
        }
        &self.entries
    }

    /// The fields, by name.
    pub fn into_entries(self) -> (r: Vec<(String, FormEntry)>)
        ensures
            entries_view(r@) == self.view(),
            keys_distinct(r@),
    {
        proof {
            use_type_invariant(&self);
        }
        self.entries
    }

    fn find(&self, key: &str) -> (r: Option<usize>)
        ensures
            r matches Some(i) ==> i < self.entries@.len() && self.entries@[i as int].0@ == key@,
            r is None ==> forall|i: int|
                0 <= i < self.entries@.len() ==> self.entries@[i].0@ != key@,
    {
        let mut i: usize = 0;
        while i < self.entries.len()
            invariant
                i <= self.entries@.len(),
                forall|k: int| 0 <= k < i ==> self.entries@[k].0@ != key@,
            decreases self.entries@.len() - i,
        {
            if str_equal(self.entries[i].0.as_str(), key) {
                return Some(i);
            }
            i = i + 1;
        }
        None
    }

    /// Whether a field of that name is present.
    pub fn contains_key(&self, key: &str) -> (r: bool)
        ensures
            r == self.view().contains_key(key@),
    {
        proof {
            use_type_invariant(self);
            lemma_entries_view_keys(self.entries@);
        }
        self.find(key).is_some()
    }

    /// Set the entry of a name.
    pub fn insert(&mut self, key: String, entry: FormEntry)
        ensures
            final(self).view() == old(self).view().insert(key@, entry_view(entry)),
    {
        proof {
            use_type_invariant(&*self);
        }
        let i = self.find(key.as_str());
        let mut entries: Vec<(String, FormEntry)> = Vec::new();
        std::mem::swap(&mut entries, &mut self.entries);
        let ghost before = entries@;
        match i {
            Some(i) => {
                entries.set(i, (key, entry));
                proof {
                    lemma_entries_view_update(before, i as int, entries@[i as int]);
                    lemma_keys_distinct_update(before, i as int, entries@[i as int]);
                    assert(entries@ == before.update(i as int, entries@[i as int]));
                }
            },
            None => {
                entries.push((key, entry));
                proof {
                    assert(entries@.drop_last() == before);
                    assert(keys_distinct(entries@)) by {
                        assert forall|a: int, b: int|
                            0 <= a < entries@.len() && 0 <= b < entries@.len() && a != b
                                implies entries@[a].0@ != entries@[b].0@ by {
                            if a < before.len() && b < before.len() {
                                assert(entries@[a] == before[a]);
                                assert(entries@[b] == before[b]);
                            } else if a < before.len() {
                                assert(entries@[a] == before[a]);
                            } else {
                                assert(entries@[b] == before[b]);
                            }
                        }
                    }
                }
            },
        }
        self.entries = entries;
    }

    /// Add a field's value: under a name ending with `[]` it joins the list of
    /// the name without the marker, if that name holds a list or nothing;
    /// under any other name it replaces what was there.
    pub fn params_insert(&mut self, field_name: &str, field_name_formatted: &str, element: FormValue)
        ensures
            final(self).view() == params_insert_spec(
                old(self).view(),
                field_name@,
                field_name_formatted@,
                value_view(element),
            ),
    {
        proof {
            use_type_invariant(&*self);
            lemma_entries_view_keys(self.entries@);
        }
        let name_chars = chars_of(field_name);
        let marker: Vec<char> = vec!['[', ']'];
        proof {
            assert(marker@ == list_marker());
        }
        if ends_with_chars(&name_chars, &marker) {
            match self.find(field_name_formatted) {
                Some(i) => {
                    proof {
                        lemma_entries_view_index(self.entries@, i as int);
                    }
                    let mut entries: Vec<(String, FormEntry)> = Vec::new();
                    std::mem::swap(&mut entries, &mut self.entries);
                    let ghost before = entries@;
                    let (key, entry) = entries.remove(i);
                    match entry {
                        FormEntry::List(mut values) => {
                            let ghost old_values = values@;
                            values.push(element);
                            proof {
                                assert(values_view(values@) =~= values_view(old_values).push(
                                    value_view(element),
                                ));
                            }
                            entries.insert(i, (key, FormEntry::List(values)));
                            proof {
                                assert(entries@ =~= before.update(i as int, entries@[i as int]));
                                lemma_entries_view_update(before, i as int, entries@[i as int]);
                                lemma_keys_distinct_update(before, i as int, entries@[i as int]);
                            }
                        },
                        FormEntry::Single(v) => {
                            entries.insert(i, (key, FormEntry::Single(v)));
                            proof {
                                assert(entries@ =~= before);
                            }
                        },
                    }
                    self.entries = entries;
                },
                None => {
                    let mut values: Vec<FormValue> = Vec::new();
                    values.push(element);
                    proof {
                        assert(values_view(values@) == seq![value_view(element)]);
                    }
                    self.insert(field_name_formatted.to_owned(), FormEntry::List(values));
                },
            }
        } else {
            self.insert(field_name.to_owned(), FormEntry::Single(element));
        }
    }

    /// Add a file field whose content was read: `bytes` are the chunks that
    /// came, and `chunk_failed` tells whether reading any chunk failed. A
    /// failed chunk first sets the formatted name to null.
    pub fn insert_file_field(
        &mut self,
        field_name: &str,
        content_type: String,
        filename: String,
        bytes: Vec<u8>,
        chunk_failed: bool,
    )
        ensures
            ({
                let formatted = formatted_name(field_name@);
                let m = if chunk_failed {
                    old(self).view().insert(formatted, EntryView::Single(ValueView::Null))
                } else {
                    old(self).view()
                };
                final(self).view() == params_insert_spec(
                    m,
                    field_name@,
                    formatted,
                    ValueView::File { content_type: content_type@, name: filename@, bytes: bytes@ },
                )
            }),
    {
        let formatted = format_field_name(field_name);
        if chunk_failed {
            self.insert(formatted.clone(), FormEntry::Single(FormValue::Null));
        }
        let file = File { content_type, name: filename, bytes };
        self.params_insert(field_name, formatted.as_str(), FormValue::File(file));
    }

    /// Add a value field from its first chunk (`None` when there was none or
    /// reading it failed, which sets the field to null). Text that is not
    /// UTF-8 adds nothing.
    pub fn insert_text_field(&mut self, field_name: &str, first_chunk: Option<Vec<u8>>)
        ensures
            ({
                let formatted = formatted_name(field_name@);
                match first_chunk {
                    None => final(self).view() == params_insert_spec(
                        old(self).view(),
                        field_name@,
                        formatted,
                        ValueView::Null,
                    ),
                    Some(b) => if vstd::utf8::valid_utf8(b@) {
                        final(self).view() == params_insert_spec(
                            old(self).view(),
                            field_name@,
                            formatted,
                            text_value_spec(vstd::utf8::decode_utf8(b@)),
                        )
                    } else {
                        final(self).view() == old(self).view()
                    },
                }
            }),
    {
        let formatted = format_field_name(field_name);
        match first_chunk {
            None => self.params_insert(field_name, formatted.as_str(), FormValue::Null),
            Some(bytes) => {
                match utf8_to_string(&bytes) {
                    Some(text) => {
                        let value = text_value(text.as_str());
                        self.params_insert(field_name, formatted.as_str(), value);
                    },
                    None => {},
                }
            },
        }
    }
}

proof fn lemma_entries_view_keys(entries: Seq<(String, FormEntry)>)
    ensures
        forall|k: Seq<char>|
            #![trigger entries_view(entries).contains_key(k)]
            entries_view(entries).contains_key(k) <==> exists|i: int|
                0 <= i < entries.len() && entries[i].0@ == k,
    decreases entries.len(),
{
    if entries.len() > 0 {
        lemma_entries_view_keys(entries.drop_last());
        assert forall|k: Seq<char>|
            #![trigger entries_view(entries).contains_key(k)]
            entries_view(entries).contains_key(k) <==> exists|i: int|
                0 <= i < entries.len() && entries[i].0@ == k by {
            if entries_view(entries).contains_key(k) {
                if k != entries.last().0@ {
                    assert(entries_view(entries.drop_last()).contains_key(k));
                    let i = choose|i: int|
                        0 <= i < entries.drop_last().len() && entries.drop_last()[i].0@ == k;
                    assert(entries[i] == entries.drop_last()[i]);
                } else {
                    assert(entries[entries.len() - 1].0@ == k);
                }
            }
            if exists|i: int| 0 <= i < entries.len() && entries[i].0@ == k {
                let i = choose|i: int| 0 <= i < entries.len() && entries[i].0@ == k;
                if i < entries.len() - 1 {
                    assert(entries.drop_last()[i] == entries[i]);
                    assert(entries_view(entries.drop_last()).contains_key(k));
                }
            }
        }
    }
}

proof fn lemma_entries_view_index(entries: Seq<(String, FormEntry)>, i: int)
    requires
        keys_distinct(entries),
        0 <= i < entries.len(),
    ensures
        entries_view(entries).contains_key(entries[i].0@),
        entries_view(entries)[entries[i].0@] == entry_view(entries[i].1),
    decreases entries.len(),
{
    if i < entries.len() - 1 {
        let init = entries.drop_last();
        assert(init[i] == entries[i]);
        assert(keys_distinct(init));
        lemma_entries_view_index(init, i);
    }
}

proof fn lemma_entries_view_dom(entries: Seq<(String, FormEntry)>)
    requires
        keys_distinct(entries),
    ensures
        entries_view(entries).dom().finite(),
        entries_view(entries).dom().len() == entries.len(),
    decreases entries.len(),
{
    if entries.len() > 0 {
        let init = entries.drop_last();
        assert(keys_distinct(init));
        lemma_entries_view_dom(init);
        lemma_entries_view_keys(init);
        assert(!entries_view(init).contains_key(entries.last().0@)) by {
            if entries_view(init).contains_key(entries.last().0@) {
                let i = choose|i: int| 0 <= i < init.len() && init[i].0@ == entries.last().0@;
                assert(entries[i] == init[i]);
            }
        }
    }
}

proof fn lemma_entries_view_update(
    entries: Seq<(String, FormEntry)>,
    i: int,
    e: (String, FormEntry),
)
    requires
        keys_distinct(entries),
        0 <= i < entries.len(),
        e.0@ == entries[i].0@,
    ensures
        entries_view(entries.update(i, e)) == entries_view(entries).insert(e.0@, entry_view(e.1)),
    decreases entries.len(),
{
    let u = entries.update(i, e);
    if i == entries.len() - 1 {
        assert(u.drop_last() == entries.drop_last());
        assert(entries_view(entries).insert(e.0@, entry_view(e.1)) =~= entries_view(
            entries.drop_last(),
        ).insert(e.0@, entry_view(e.1)));
    } else {
        lemma_entries_view_update(entries.drop_last(), i, e);
        assert(u.drop_last() == entries.drop_last().update(i, e));
        assert(entries.last().0@ != e.0@);
        assert(entries_view(u) =~= entries_view(entries).insert(e.0@, entry_view(e.1)));
    }
}

proof fn lemma_keys_distinct_update(entries: Seq<(String, FormEntry)>, i: int, e: (String, FormEntry))
    requires
        keys_distinct(entries),
        0 <= i < entries.len(),
        e.0@ == entries[i].0@,
    ensures
        keys_distinct(entries.update(i, e)),
{
    let u = entries.update(i, e);
    assert forall|a: int, b: int|
        0 <= a < u.len() && 0 <= b < u.len() && a != b implies u[a].0@ != u[b].0@ by {
        assert(u[a].0@ == entries[a].0@);
        assert(u[b].0@ == entries[b].0@);
    }
}

} // verus!

verus! {

/// The values of a field whose name ends with `[]` pile up, in the order they
/// come, under the name without the marker.
pub proof fn lemma_list_field_collects(
    m: Map<Seq<char>, EntryView>,
    field_name: Seq<char>,
    formatted: Seq<char>,
    first: ValueView,
    second: ValueView,
)
    requires
        has_suffix(field_name, list_marker()),
        !m.contains_key(formatted),
    ensures
        params_insert_spec(params_insert_spec(m, field_name, formatted, first), field_name, formatted, second)
            == m.insert(formatted, EntryView::List(seq![first, second])),
{
    let m1 = params_insert_spec(m, field_name, formatted, first);
    assert(m1 == m.insert(formatted, EntryView::List(seq![first])));
    assert(m1[formatted] == EntryView::List(seq![first]));
    assert(seq![first].push(second) == seq![first, second]);
    assert(m1.insert(formatted, EntryView::List(seq![first, second])) =~= m.insert(
        formatted,
        EntryView::List(seq![first, second]),
    ));
}

/// Putting the values `values`, one after the other, under the field
/// `field_name` (as [`params_insert_spec`] puts one).
pub open spec fn insert_values(
    m: Map<Seq<char>, EntryView>,
    field_name: Seq<char>,
    formatted: Seq<char>,
    values: Seq<ValueView>,
) -> Map<Seq<char>, EntryView>
    decreases values.len(),
{
    if values.len() == 0 {
        m
    } else {
        params_insert_spec(
            insert_values(m, field_name, formatted, values.drop_last()),
            field_name,
            formatted,
            values.last(),
        )
    }
}

/// A value of a field whose name ends with `[]` joins the end of the list
/// already under the name without the marker, however long that list is;
/// nothing else changes.
pub proof fn lemma_list_field_appends(
    m: Map<Seq<char>, EntryView>,
    field_name: Seq<char>,
    formatted: Seq<char>,
    values: Seq<ValueView>,
    element: ValueView,
)
    requires
        has_suffix(field_name, list_marker()),
        m.contains_key(formatted),
        m[formatted] == EntryView::List(values),
    ensures
        params_insert_spec(m, field_name, formatted, element)[formatted] == EntryView::List(
            values.push(element),
        ),
        params_insert_spec(m, field_name, formatted, element).dom() == m.dom(),
        forall|k: Seq<char>| #[trigger] m.contains_key(k) && k != formatted ==> params_insert_spec(
            m,
            field_name,
            formatted,
            element,
        )[k] == m[k],
{
    assert(params_insert_spec(m, field_name, formatted, element).dom() =~= m.dom());
}

/// However many values a field whose name ends with `[]` has, a form that did
/// not hold its name ends up with the list of all of them, in the order they
/// came, under the name without the marker; nothing else changes.
pub proof fn lemma_list_field_keeps_every_value(
    m: Map<Seq<char>, EntryView>,
    field_name: Seq<char>,
    formatted: Seq<char>,
    values: Seq<ValueView>,
)
    requires
        has_suffix(field_name, list_marker()),
        !m.contains_key(formatted),
        values.len() > 0,
    ensures
        insert_values(m, field_name, formatted, values) == m.insert(formatted, EntryView::List(values)),
    decreases values.len(),
{
    if values.len() == 1 {
        assert(values.drop_last() =~= Seq::<ValueView>::empty());
        assert(insert_values(m, field_name, formatted, values.drop_last()) == m);
        assert(seq![values.last()] =~= values);
        assert(insert_values(m, field_name, formatted, values) == params_insert_spec(
            m,
            field_name,
            formatted,
            values.last(),
        ));
    } else {
        let init = values.drop_last();
        lemma_list_field_keeps_every_value(m, field_name, formatted, init);
        let m1 = m.insert(formatted, EntryView::List(init));
        assert(insert_values(m, field_name, formatted, values) == params_insert_spec(
            m1,
            field_name,
            formatted,
            values.last(),
        ));
        assert(m1.contains_key(formatted) && m1[formatted] == EntryView::List(init));
        assert(init.push(values.last()) =~= values);
        assert(m1.insert(formatted, EntryView::List(values)) =~= m.insert(
            formatted,
            EntryView::List(values),
        ));
    }
}

/// A field whose name does not end with `[]` keeps only its last value.
pub proof fn lemma_plain_field_last_wins(
    m: Map<Seq<char>, EntryView>,
    field_name: Seq<char>,
    formatted: Seq<char>,
    first: ValueView,
    second: ValueView,
)
    requires
        !has_suffix(field_name, list_marker()),
    ensures
        params_insert_spec(params_insert_spec(m, field_name, formatted, first), field_name, formatted, second)
            == m.insert(field_name, EntryView::Single(second)),
{
    assert(m.insert(field_name, EntryView::Single(first)).insert(field_name, EntryView::Single(second))
        =~= m.insert(field_name, EntryView::Single(second)));
}

/// A field that is not part of the form is never read.
pub proof fn lemma_unknown_field_skipped(valid_fields: Seq<Seq<char>>, name: Seq<char>, has_filename: bool)
    requires
        !valid_fields.contains(name),
    ensures
        field_action_spec(valid_fields, Some(name), has_filename) == FieldAction::Skip,
{
}

} // verus!
