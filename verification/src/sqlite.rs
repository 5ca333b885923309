//! SQLite schema surgery for migrations: SQLite cannot add or drop a foreign
//! key of an existing table, so the table is rebuilt from an edited copy of
//! its definition.
use vstd::prelude::*;
use crate::text::{
    has_prefix, chars_of, concat_spec, concat_strs, last_char_index, last_index_of, matches_at, occurs_at,
    replace_all, replace_chars, string_of,
};

verus! {

/// The SQL that rebuilds table `tbl_name` with the definition `new_schema`,
/// keeping its rows.
pub open spec fn change_schema_spec(tbl_name: Seq<char>, new_schema: Seq<char>) -> Seq<char> {
    "\n        PRAGMA foreign_keys=off;\n\n        BEGIN TRANSACTION;\n\n        ALTER TABLE "@ + tbl_name
        + " RENAME TO _"@ + tbl_name + "_old;\n        \n        "@ + new_schema
        + ";\n\n        INSERT INTO "@ + tbl_name + " SELECT * FROM _"@ + tbl_name
        + "_old;\n        DROP TABLE _"@ + tbl_name
        + "_old;\n\n        COMMIT;\n\n        PRAGMA foreign_keys=on;\n        "@
}

/// Create query to change table schema.
pub fn sqlite_change_schema(tbl_name: &str, new_schema: &str) -> (r: String)
    ensures
        r@ == change_schema_spec(tbl_name@, new_schema@),
{
    let parts: Vec<&str> = vec![
        "\n        PRAGMA foreign_keys=off;\n\n        BEGIN TRANSACTION;\n\n        ALTER TABLE ",
        tbl_name,
        " RENAME TO _",
        tbl_name,
        "_old;\n        \n        ",
        new_schema,
        ";\n\n        INSERT INTO ",
        tbl_name,
        " SELECT * FROM _",
        tbl_name,
        "_old;\n        DROP TABLE _",
        tbl_name,
        "_old;\n\n        COMMIT;\n\n        PRAGMA foreign_keys=on;\n        ",
    ];
    let r = concat_strs(&parts);
    proof {
        let v = parts@.map_values(|p: &str| p@);
        assert(v.len() == 13);
        reveal_with_fuel(concat_spec, 14);
        assert(concat_spec(v) == change_schema_spec(tbl_name@, new_schema@));
    }
    r
}

/// The query that reads the definition of table `tbl`.
pub open spec fn table_def_query_spec(tbl: Seq<char>) -> Seq<char> {
    "SELECT sql FROM sqlite_master WHERE name='"@ + tbl + "';"@
}

/// Get the query of the SQLite table definition of `tbl`.
pub fn sqlite_table_def_query(tbl: &str) -> (r: String)
    ensures
        r@ == table_def_query_spec(tbl@),
{
    let mut r = "SELECT sql FROM sqlite_master WHERE name='".to_owned();
    r.append(tbl);
    r.append("';");
    r
}

/// The statement that drops column `column` of table `table` in SQLite.
pub open spec fn drop_column_sql_spec(table: Seq<char>, column: Seq<char>) -> Seq<char> {
    "ALTER TABLE "@ + table + " DROP COLUMN "@ + column + ";"@
}

pub fn sqlite_drop_column_sql(table: &str, column: &str) -> (r: String)
    ensures
        r@ == drop_column_sql_spec(table@, column@),
{
    let mut r = "ALTER TABLE ".to_owned();
    r.append(table);
    r.append(" DROP COLUMN ");
    r.append(column);
    r.append(";");
    r
}

/// A table definition with a constraint added before its closing parenthesis:
/// everything up to the last `)` (all of it when there is none), then `, `,
/// the constraint and `)`.
pub open spec fn add_constraint_spec(table_def: Seq<char>, constraint: Seq<char>) -> Seq<char> {
    let i = last_index_of(table_def, ')');
    let head = if i >= 0 { table_def.take(i) } else { table_def };
    head + ", "@ + constraint + ")"@
}

/// The table definition to create a foreign key with: `constraint` is the
/// foreign key clause, `old_tbl_def` the table's current definition.
pub fn sqlite_add_constraint(old_tbl_def: &str, constraint: &str) -> (r: String)
    ensures
        r@ == add_constraint_spec(old_tbl_def@, constraint@),
{
    let chars = chars_of(old_tbl_def);
    let cut: usize = match last_char_index(&chars, ')') {
        Some(i) => i,
        None => chars.len(),
    };
    let mut head: Vec<char> = Vec::new();
    let mut i: usize = 0;
    while i < cut
        invariant
            cut <= chars@.len(),
            i <= cut,
            head@ == chars@.take(i as int),
        decreases cut - i,
    {
        head.push(chars[i]);
        proof {
            assert(chars@.take(i + 1) == chars@.take(i as int).push(chars@[i as int]));
        }
        i = i + 1;
    }
    let mut r = string_of(&head);
    r.append(", ");
    r.append(constraint);
    r.append(")");
    proof {
        assert(chars@.take(chars@.len() as int) == chars@);
    }
    r
}

/// First position at or after `from` where `pat` occurs in `s`, or -1.
pub open spec fn find_from(s: Seq<char>, pat: Seq<char>, from: int) -> int
    decreases s.len() - from,
{
    if from < 0 || from + pat.len() > s.len() {
        -1
    } else if occurs_at(s, pat, from) {
        from
    } else if from >= s.len() {
        -1
    } else {
        find_from(s, pat, from + 1)
    }
}

/// First position at or after `from` of the character `c`, or -1.
pub open spec fn char_from(s: Seq<char>, c: char, from: int) -> int
    decreases s.len() - from,
{
    if from < 0 || from >= s.len() {
        -1
    } else if s[from] == c {
        from
    } else {
        char_from(s, c, from + 1)
    }
}

/// First position at or after `from` (and after 0) of a `)` that does not
/// follow a `"`, or -1.
pub open spec fn unquoted_paren_from(s: Seq<char>, from: int) -> int
    decreases s.len() - from,
{
    if from < 1 || from >= s.len() {
        -1
    } else if s[from] == ')' && s[from - 1] != '"' {
        from
    } else {
        unquoted_paren_from(s, from + 1)
    }
}

/// The clause `FOREIGN KEY ("column")`.
pub open spec fn fkey_search(column: Seq<char>) -> Seq<char> {
    "FOREIGN KEY (\""@ + column + "\")"@
}

/// Where the foreign key clause that starts `after` ends: at the first comma
/// after it (which separates it from what follows), or else at its first `)`
/// that does not close a quoted name (which closes the table definition); -1
/// when there is neither.
pub open spec fn fkey_clause_end(after: Seq<char>) -> int {
    let comma = char_from(after, ',', 0);
    if comma >= 0 {
        comma
    } else {
        unquoted_paren_from(after, 1)
    }
}

/// Whether the definition names a foreign key on `column` but has no end for
/// its clause.
pub open spec fn fkey_clause_unterminated(tbl_def: Seq<char>, column: Seq<char>) -> bool {
    let pos = find_from(tbl_def, fkey_search(column), 0);
    pos >= 0 && fkey_clause_end(tbl_def.skip(pos)) < 0
}

/// A table definition with the foreign key on `column` taken out: `None`
/// when it has no such key; otherwise every occurrence of `, ` followed by
/// the clause (from `FOREIGN KEY ("column")` up to the comma or closing
/// parenthesis after it) is removed, so what follows the clause stays.
pub open spec fn remove_foreign_key_spec(tbl_def: Seq<char>, column: Seq<char>) -> Option<Seq<char>> {
    let pos = find_from(tbl_def, fkey_search(column), 0);
    if pos < 0 {
        None
    } else {
        let after = tbl_def.skip(pos);
        let end = fkey_clause_end(after);
        Some(replace_all(tbl_def, ", "@ + after.take(end), Seq::empty()))
    }
}

fn find_chars(s: &Vec<char>, pat: &Vec<char>) -> (r: Option<usize>)
    requires
        pat@.len() > 0,
    ensures
        match r {
            Some(i) => find_from(s@, pat@, 0) == i as int,
            None => find_from(s@, pat@, 0) == -1,
        },
{
    let mut i: usize = 0;
    let n = s.len();
    while i <= n && pat.len() <= n - i
        invariant
            n == s@.len(),
            pat@.len() > 0,
            find_from(s@, pat@, 0) == find_from(s@, pat@, i as int),
        decreases n + 1 - i,
    {
        if matches_at(s, pat, i) {
            return Some(i);
        }
        i = i + 1;
    }
    None
}

fn char_index(s: &Vec<char>, c: char, from: usize) -> (r: Option<usize>)
    ensures
        match r {
            Some(i) => char_from(s@, c, from as int) == i as int,
            None => char_from(s@, c, from as int) == -1,
        },
{
    let mut i: usize = from;
    while i < s.len()
        invariant
            char_from(s@, c, from as int) == char_from(s@, c, i as int),
            from <= i,
        decreases s@.len() - i,
    {
        if s[i] == c {
            return Some(i);
        }
        i = i + 1;
    }
    None
}

fn unquoted_paren_index(s: &Vec<char>) -> (r: Option<usize>)
    ensures
        match r {
            Some(i) => unquoted_paren_from(s@, 1) == i as int,
            None => unquoted_paren_from(s@, 1) == -1,
        },
{
    let mut i: usize = 1;
    while i < s.len()
        invariant
            i >= 1,
            unquoted_paren_from(s@, 1) == unquoted_paren_from(s@, i as int),
        decreases s@.len() - i,
    {
        if s[i] == ')' && s[i - 1] != '"' {
            return Some(i);
        }
        i = i + 1;
    }
    None
}

/// The table definition without the foreign key on `column` (SQLite keeps
/// foreign keys unnamed, so the key is found by its column); `None` when the
/// definition has no such key.
pub fn sqlite_remove_foreign_key(tbl_def: &str, column: &str) -> (r: Option<String>)
    requires
        !fkey_clause_unterminated(tbl_def@, column@),
    ensures
        match remove_foreign_key_spec(tbl_def@, column@) {
            None => r is None,
            Some(d) => (r matches Some(s) && s@ == d),
        },
{
    let def = chars_of(tbl_def);
    let mut search = "FOREIGN KEY (\"".to_owned();
    search.append(column);
    search.append("\")");
    let search_chars = chars_of(search.as_str());
    proof {
        reveal_strlit("\")");
        assert(search_chars@.len() > 0);
    }
    match find_chars(&def, &search_chars) {
        None => None,
        Some(pos) => {
            proof {
                lemma_find_from_bounds(def@, search_chars@, 0);
            }
            let mut after: Vec<char> = Vec::new();
            let mut i: usize = pos;
            while i < def.len()
                invariant
                    pos <= i <= def@.len(),
                    after@ == def@.subrange(pos as int, i as int),
                decreases def@.len() - i,
            {
                after.push(def[i]);
                proof {
                    assert(def@.subrange(pos as int, i + 1) == def@.subrange(pos as int, i as int).push(def@[i as int]));
                }
                i = i + 1;
            }
            proof {
                assert(after@ == def@.skip(pos as int));
            }
            let end: usize = match char_index(&after, ',', 0) {
                Some(c) => {
                    proof {
                        assert(0 <= char_from(after@, ',', 0) < after@.len()) by {
                            lemma_char_from_bounds(after@, ',', 0);
                        }
                    }
                    c
                },
                None => match unquoted_paren_index(&after) {
                    Some(p) => p,
                    None => {
                        proof {
                            assert(fkey_clause_end(after@) < 0);
                        }
                        return None;
                    },
                },
            };
            proof {
                lemma_fkey_end_bounds(after@);
            }
            let mut removed: Vec<char> = vec![',', ' '];
            let mut k: usize = 0;
            while k < end
                invariant
                    end <= after@.len(),
                    k <= end,
                    removed@ == seq![',', ' '] + after@.take(k as int),
                decreases end - k,
            {
                removed.push(after[k]);
                proof {
                    assert(after@.take(k + 1) == after@.take(k as int).push(after@[k as int]));
                }
                k = k + 1;
            }
            let empty: Vec<char> = Vec::new();
            proof {
                reveal_strlit(", ");
                assert(", "@ == seq![',', ' ']);
                assert(empty@ == Seq::<char>::empty());
            }
            Some(string_of(&replace_chars(&def, &removed, &empty)))
        },
    }
}

/// The error when the definition of `table` has no foreign key to drop.
pub open spec fn fkey_not_found_spec(fkey_name: Seq<char>, table: Seq<char>) -> Seq<char> {
    "Didn't find foreign key with name '"@ + fkey_name + "' on table '"@ + table + "'"@
}

/// The message of a foreign key `fkey_name` that table `table` does not have.
pub fn fkey_not_found_message(fkey_name: &str, table: &str) -> (r: String)
    ensures
        r@ == fkey_not_found_spec(fkey_name@, table@),
{
    let mut r = "Didn't find foreign key with name '".to_owned();
    r.append(fkey_name);
    r.append("' on table '");
    r.append(table);
    r.append("'");
    r
}

/// The SQL that adds the foreign key clause `constraint` to table `table`,
/// whose definition is `old_tbl_def`.
pub fn sqlite_create_fkey_sql(table: &str, old_tbl_def: &str, constraint: &str) -> (r: String)
    ensures
        r@ == change_schema_spec(table@, add_constraint_spec(old_tbl_def@, constraint@)),
{
    let def = sqlite_add_constraint(old_tbl_def, constraint);
    sqlite_change_schema(table, def.as_str())
}

/// The SQL that drops the foreign key on `column` from table `table`, whose
/// definition is `tbl_def`; when the definition has no such key, the error
/// naming `fkey_name` and the table, and no SQL.
pub fn sqlite_drop_fkey_sql(table: &str, tbl_def: &str, column: &str, fkey_name: &str) -> (r: Result<
    String,
    String,
>)
    requires
        !fkey_clause_unterminated(tbl_def@, column@),
    ensures
        match remove_foreign_key_spec(tbl_def@, column@) {
            None => (r matches Err(e) && e@ == fkey_not_found_spec(fkey_name@, table@)),
            Some(d) => (r matches Ok(sql) && sql@ == change_schema_spec(table@, d)),
        },
{
    match sqlite_remove_foreign_key(tbl_def, column) {
        Some(d) => Ok(sqlite_change_schema(table, d.as_str())),
        None => Err(fkey_not_found_message(fkey_name, table)),
    }
}

/// A foreign key clause on the single column `column`, as the query builder
/// writes one: it starts with `FOREIGN KEY ("column")`, holds no comma, each
/// of its `)` closes a quoted name, and it does not end with a quote.
pub open spec fn single_column_fkey_clause(clause: Seq<char>, column: Seq<char>) -> bool {
    &&& has_prefix(clause, fkey_search(column))
    &&& forall|i: int| 0 <= i < clause.len() ==> #[trigger] clause[i] != ','
    &&& forall|i: int| 1 <= i < clause.len() && #[trigger] clause[i] == ')' ==> clause[i - 1] == '"'
    &&& clause.last() != '"'
}

/// Dropping a foreign key undoes adding it: a definition that ends with `)`
/// and has no foreign key on `column`, with a clause on `column` added, gives
/// back the definition when that key is removed.
pub proof fn lemma_fkey_round_trip(tbl_def: Seq<char>, clause: Seq<char>, column: Seq<char>)
    requires
        tbl_def.len() > 0,
        tbl_def.last() == ')',
        find_from(tbl_def, fkey_search(column), 0) == -1,
        single_column_fkey_clause(clause, column),
    ensures
        !fkey_clause_unterminated(add_constraint_spec(tbl_def, clause), column),
        remove_foreign_key_spec(add_constraint_spec(tbl_def, clause), column) == Some(tbl_def),
{
    let d = tbl_def;
    let c = clause;
    let p = fkey_search(column);
    let n = d.len();
    let h = d.take(n - 1);
    reveal_strlit(", ");
    reveal_strlit(")");
    reveal_strlit("FOREIGN KEY (\"");
    assert(last_index_of(d, ')') == n - 1);
    let q = ", "@ + c;
    let a = add_constraint_spec(d, c);
    assert(a =~= h + q + ")"@);
    assert(p[0] == 'F');
    assert(p.len() > 0);
    let k: int = h.len() as int + 2;
    assert(c.take(p.len() as int) == p);
    assert(occurs_at(a, p, k)) by {
        assert(a.subrange(k, k + p.len()) =~= c.take(p.len() as int));
    }
    assert forall|j: int| 0 <= j < k implies !occurs_at(a, p, j) by {
        if occurs_at(a, p, j) {
            if j + p.len() <= h.len() {
                assert(d.subrange(j, j + p.len()) =~= a.subrange(j, j + p.len()));
                lemma_find_from_none(d, p, 0, j);
            } else if j <= h.len() {
                let t = h.len() - j;
                assert(a[h.len() as int] == ',');
                assert(a.subrange(j, j + p.len())[t] == a[h.len() as int]);
                assert(p[t] == c[t]);
            } else {
                assert(a[j] == ' ');
                assert(a.subrange(j, j + p.len())[0] == a[j]);
            }
        }
    }
    lemma_find_from_first(a, p, 0, k);
    let after = a.skip(k);
    assert(after =~= c + ")"@);
    assert forall|j: int| 0 <= j < after.len() implies after[j] != ',' by {
        if j < c.len() {
            assert(after[j] == c[j]);
        }
    }
    lemma_char_from_none(after, ',', 0);
    assert forall|j: int| 1 <= j < c.len() implies !(#[trigger] after[j] == ')' && after[j - 1] != '"') by {
        assert(after[j] == c[j]);
        assert(after[j - 1] == c[j - 1]);
    }
    assert(after[c.len() as int] == ')');
    assert(after[c.len() - 1] == c.last());
    lemma_paren_first(after, 1, c.len() as int);
    assert(fkey_clause_end(after) == c.len());
    assert(after.take(c.len() as int) =~= c);
    assert forall|i: int| 0 <= i < h.len() implies !occurs_at(a, q, i) by {
        if occurs_at(a, q, i) {
            assert(a.subrange(i + 2, i + 2 + p.len()) =~= a.subrange(i, i + q.len()).subrange(
                2,
                2 + p.len() as int,
            ));
            assert(q.subrange(2, 2 + p.len() as int) =~= c.take(p.len() as int));
            assert(occurs_at(a, p, i + 2));
        }
    }
    lemma_replace_prefix_free(a, q, Seq::empty(), h.len() as int);
    assert(a.take(h.len() as int) =~= h);
    let rest = a.skip(h.len() as int);
    assert(rest =~= q + ")"@);
    assert(has_prefix(rest, q)) by {
        assert(rest.take(q.len() as int) =~= q);
    }
    assert(rest.skip(q.len() as int) =~= ")"@);
    let tail = ")"@;
    assert(!has_prefix(tail, q));
    assert(tail.skip(1).len() == 0);
    assert(replace_all(tail.skip(1), q, Seq::empty()) == tail.skip(1));
    assert(replace_all(tail, q, Seq::empty()) == seq![tail[0]] + replace_all(tail.skip(1), q, Seq::empty()));
    assert(replace_all(tail, q, Seq::empty()) =~= tail);
    assert(replace_all(rest, q, Seq::empty()) =~= tail);
    assert(h + tail =~= d);
}

proof fn lemma_find_from_none(s: Seq<char>, pat: Seq<char>, from: int, i: int)
    requires
        find_from(s, pat, from) == -1,
        0 <= from <= i,
    ensures
        !occurs_at(s, pat, i),
    decreases s.len() - from,
{
    if from + pat.len() <= s.len() && !occurs_at(s, pat, from) && from < s.len() && from < i {
        lemma_find_from_none(s, pat, from + 1, i);
    }
}

proof fn lemma_find_from_first(s: Seq<char>, pat: Seq<char>, from: int, k: int)
    requires
        0 <= from <= k,
        occurs_at(s, pat, k),
        pat.len() > 0,
        forall|j: int| from <= j < k ==> !occurs_at(s, pat, j),
    ensures
        find_from(s, pat, from) == k,
    decreases k - from,
{
    if from < k {
        lemma_find_from_first(s, pat, from + 1, k);
    }
}

proof fn lemma_char_from_none(s: Seq<char>, c: char, from: int)
    requires
        0 <= from,
        forall|j: int| from <= j < s.len() ==> s[j] != c,
    ensures
        char_from(s, c, from) == -1,
    decreases s.len() - from,
{
    if from < s.len() {
        lemma_char_from_none(s, c, from + 1);
    }
}

proof fn lemma_paren_first(s: Seq<char>, from: int, k: int)
    requires
        1 <= from <= k < s.len(),
        s[k] == ')' && s[k - 1] != '"',
        forall|j: int| from <= j < k ==> !(#[trigger] s[j] == ')' && s[j - 1] != '"'),
    ensures
        unquoted_paren_from(s, from) == k,
    decreases k - from,
{
    if from < k {
        lemma_paren_first(s, from + 1, k);
    }
}

proof fn lemma_replace_prefix_free(s: Seq<char>, pat: Seq<char>, with: Seq<char>, k: int)
    requires
        pat.len() > 0,
        0 <= k <= s.len(),
        forall|i: int| 0 <= i < k ==> !occurs_at(s, pat, i),
    ensures
        replace_all(s, pat, with) == s.take(k) + replace_all(s.skip(k), pat, with),
    decreases k,
{
    if k == 0 {
        assert(s.take(0) + replace_all(s.skip(0), pat, with) =~= replace_all(s, pat, with)) by {
            assert(s.skip(0) =~= s);
        }
    } else {
        assert(!has_prefix(s, pat)) by {
            if has_prefix(s, pat) {
                assert(s.subrange(0, pat.len() as int) =~= s.take(pat.len() as int));
                assert(occurs_at(s, pat, 0));
            }
        }
        let t = s.skip(1);
        assert forall|i: int| 0 <= i < k - 1 implies !occurs_at(t, pat, i) by {
            if occurs_at(t, pat, i) {
                assert(s.subrange(i + 1, i + 1 + pat.len()) =~= t.subrange(i, i + pat.len()));
                assert(occurs_at(s, pat, i + 1));
            }
        }
        lemma_replace_prefix_free(t, pat, with, k - 1);
        assert(s.take(k) =~= seq![s[0]] + t.take(k - 1));
        assert(s.skip(k) =~= t.skip(k - 1));
    }
}

proof fn lemma_find_from_bounds(s: Seq<char>, pat: Seq<char>, from: int)
    ensures
        find_from(s, pat, from) == -1 || (from <= find_from(s, pat, from) && find_from(s, pat, from)
            + pat.len() <= s.len()),
    decreases s.len() - from,
{
    if from >= 0 && from + pat.len() <= s.len() && !occurs_at(s, pat, from) && from < s.len() {
        lemma_find_from_bounds(s, pat, from + 1);
    }
}

proof fn lemma_char_from_bounds(s: Seq<char>, c: char, from: int)
    ensures
        char_from(s, c, from) == -1 || (from <= char_from(s, c, from) < s.len()),
    decreases s.len() - from,
{
    if from >= 0 && from < s.len() && s[from] != c {
        lemma_char_from_bounds(s, c, from + 1);
    }
}

proof fn lemma_paren_from_bounds(s: Seq<char>, from: int)
    ensures
        unquoted_paren_from(s, from) == -1 || (from <= unquoted_paren_from(s, from) < s.len()),
    decreases s.len() - from,
{
    if from >= 1 && from < s.len() && !(s[from] == ')' && s[from - 1] != '"') {
        lemma_paren_from_bounds(s, from + 1);
    }
}

proof fn lemma_fkey_end_bounds(after: Seq<char>)
    ensures
        fkey_clause_end(after) <= after.len(),
{
    lemma_char_from_bounds(after, ',', 0);
    lemma_paren_from_bounds(after, 1);
}

} // verus!
