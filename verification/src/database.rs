//! What the server computes around its database: paging, the version
//! query, and the file a request path names.
use vstd::prelude::*;
use crate::text::{chars_of, has_prefix, replace_all, replace_chars, string_of, trim_prefix_repeated, trim_start_matches_chars};

verus! {

/// The database kinds the server runs on.
#[derive(Debug, Clone, Copy, PartialEq, Eq, Structural)]
pub enum DbBackend {
    MySql,
    Postgres,
    Sqlite,
}

pub open spec fn version_query_spec(backend: DbBackend) -> Seq<char> {
    if backend == DbBackend::Sqlite {
        "select sqlite_version() as version;"@
    } else {
        "select version() as version;"@
    }
}

/// The query that reads the database version.
pub fn db_version_query(backend: DbBackend) -> (r: String)
    ensures
        r@ == version_query_spec(backend),
{
    let name = match backend {
        DbBackend::Sqlite => "sqlite_version",
        _ => "version",
    };
    let mut r = "select ".to_owned();
    r.append(name);
    r.append("() as version;");
    proof {
        reveal_strlit("select ");
        reveal_strlit("sqlite_version");
        reveal_strlit("version");
        reveal_strlit("() as version;");
        reveal_strlit("select sqlite_version() as version;");
        reveal_strlit("select version() as version;");
    }
    r
}

/// The database version as the server shows it: SQLite only gives a number,
/// so its name is put in front.
pub fn format_db_version(backend: DbBackend, version: String) -> (r: String)
    ensures
        backend == DbBackend::Sqlite ==> r@ == "SQLite "@ + version@,
        backend != DbBackend::Sqlite ==> r@ == version@,
{
    match backend {
        DbBackend::Sqlite => {
            let mut r = "SQLite ".to_owned();
            r.append(version.as_str());
            r
        },
        _ => version,
    }
}

/// Number of pages of `page_size` files that `count` files take, with the
/// count taken as a `u32` as the query result is.
pub fn total_file_pages(count: i64, page_size: u32) -> (r: u32)
    requires
        page_size > 0,
        (#[verifier::truncate] (count as u32)) + page_size <= u32::MAX,
    ensures
        r == ((#[verifier::truncate] (count as u32)) + page_size - 1) / (page_size as int),
{
    let c: u32 = #[verifier::truncate] (count as u32);
    (c + page_size - 1) / page_size
}

/// Offset of the first file of page `page` (counted from 1).
pub fn file_page_offset(page: u32, limit: u32) -> (r: u32)
    requires
        page >= 1,
        (page - 1) * limit <= u32::MAX,
    ensures
        r == (page - 1) * limit,
{
    (page - 1) * limit
}

/// The file a request path names under the served directory: the path
/// without its leading slashes, with every `..` taken out; `None` for the
/// root itself.
pub open spec fn requested_file_spec(path: Seq<char>) -> Option<Seq<char>> {
    let rest = trim_prefix_repeated(path, seq!['/']);
    if rest.len() == 0 {
        None
    } else {
        Some(replace_all(rest, seq!['.', '.'], Seq::empty()))
    }
}

/// The file a request path names (for serving the storage directory).
pub fn requested_file(path: &str) -> (r: Option<String>)
    ensures
        match requested_file_spec(path@) {
            None => r is None,
            Some(f) => (r matches Some(s) && s@ == f),
        },
{
    let chars = chars_of(path);
    let slash: Vec<char> = vec!['/'];
    proof {
        assert(slash@ == seq!['/']);
    }
    let rest = trim_start_matches_chars(&chars, &slash);
    if rest.len() == 0 {
        return None;
    }
    let dots: Vec<char> = vec!['.', '.'];
    let empty: Vec<char> = Vec::new();
    proof {
        assert(dots@ == seq!['.', '.']);
        assert(empty@ == Seq::<char>::empty());
    }
    Some(string_of(&replace_chars(&rest, &dots, &empty)))
}

/// Whether `s` holds `..` at position `i`.
pub open spec fn dots_at(s: Seq<char>, i: int) -> bool {
    s[i] == '.' && s[i + 1] == '.'
}

/// Whether `..` occurs anywhere in `s`.
pub open spec fn has_double_dot(s: Seq<char>) -> bool {
    exists|i: int| 0 <= i < s.len() - 1 && #[trigger] dots_at(s, i)
}

proof fn lemma_remove_dots_head(s: Seq<char>)
    requires
        s.len() > 0,
        s[0] != '.',
    ensures
        replace_all(s, seq!['.', '.'], Seq::empty()).len() > 0,
        replace_all(s, seq!['.', '.'], Seq::empty())[0] == s[0],
{
    assert(!has_prefix(s, seq!['.', '.'])) by {
        if has_prefix(s, seq!['.', '.']) {
            assert(s.take(2)[0] == s[0]);
        }
    }
    let rest = replace_all(s.skip(1), seq!['.', '.'], Seq::empty());
    assert(replace_all(s, seq!['.', '.'], Seq::empty()) == seq![s[0]] + rest);
}

/// Taking out every `..` leaves no `..` behind: a run of dots keeps at most
/// one, and runs stay apart.
pub proof fn lemma_remove_dots_leaves_none(s: Seq<char>)
    ensures
        !has_double_dot(replace_all(s, seq!['.', '.'], Seq::empty())),
    decreases s.len(),
{
    let pat = seq!['.', '.'];
    let e = Seq::<char>::empty();
    let r = replace_all(s, pat, e);
    if s.len() == 0 {
    } else if has_prefix(s, pat) {
        lemma_remove_dots_leaves_none(s.skip(2));
        assert(r == e + replace_all(s.skip(2), pat, e));
        assert(e + replace_all(s.skip(2), pat, e) == replace_all(s.skip(2), pat, e));
    } else {
        let t = s.skip(1);
        lemma_remove_dots_leaves_none(t);
        let rt = replace_all(t, pat, e);
        assert(r == seq![s[0]] + rt);
        if s[0] == '.' && t.len() > 0 {
            assert(t[0] != '.') by {
                if t[0] == '.' {
                    assert(s.take(2) =~= pat);
                }
            }
            lemma_remove_dots_head(t);
        }
        if t.len() == 0 {
            assert(rt.len() == 0);
        }
        assert forall|i: int| 0 <= i < r.len() - 1 implies !#[trigger] dots_at(r, i) by {
            if i == 0 {
                if s[0] == '.' {
                    assert(r[1] == rt[0]);
                }
            } else {
                assert(r[i] == rt[i - 1]);
                assert(r[i + 1] == rt[i]);
                assert(!dots_at(rt, i - 1));
            }
        }
    }
}

/// The file a request names never holds `..`.
pub proof fn lemma_requested_file_no_double_dot(path: Seq<char>)
    ensures
        requested_file_spec(path) matches Some(f) ==> !has_double_dot(f),
{
    lemma_remove_dots_leaves_none(trim_prefix_repeated(path, seq!['/']));
}

} // verus!

verus! {

/// The pages hold every file, and the last page is not empty: `pages` pages of
/// `page_size` reach `count`, and one page fewer does not.
pub proof fn lemma_total_pages_cover(count: nat, page_size: nat)
    requires
        page_size > 0,
    ensures
        ((count + page_size - 1) / page_size as int) * page_size >= count,
        (count + page_size - 1) / page_size as int == 0 || ((count + page_size - 1) / page_size as int
            - 1) * page_size < count,
{
    let q = (count + page_size - 1) / page_size as int;
    let r = (count + page_size - 1) % page_size as int;
    assert(q * page_size + r == count + page_size - 1 && 0 <= r < page_size) by (nonlinear_arith)
        requires
            page_size > 0,
            q == (count + page_size - 1) / page_size as int,
            r == (count + page_size - 1) % page_size as int,
    ;
    assert(q * page_size >= count) by (nonlinear_arith)
        requires
            q * page_size + r == count + page_size - 1,
            r < page_size,
    ;
    assert((q - 1) * page_size < count) by (nonlinear_arith)
        requires
            q * page_size + r == count + page_size - 1,
            r >= 0,
    ;
}

} // verus!
