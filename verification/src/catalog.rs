//! The database catalog: a name-keyed registry of databases and table
//! functions. Lookups and local mutations are decided here; an operation
//! that must reach the remote metadata store returns a [`CatalogAction`] or
//! [`Lookup::ConsultRemote`] for the caller's I/O layer to perform, so every
//! decision stays a pure function of the catalog state.

use vstd::prelude::*;
use vstd::pervasive::VecAdditionalExecFns;

use crate::error::ErrorCode;

verus! {

/// Configuration the catalog consults: a remote metadata store is in use
/// exactly when its address is non-empty.
#[derive(Debug)]
pub struct Config {
    pub store_address: String,
}

/// Which engine a database lives on.
#[derive(Clone, Copy, Debug, PartialEq, Eq, Structural)]
pub enum DatabaseEngineType {
    Local,
    Remote,
}

/// Metadata of one table.
#[derive(Debug)]
pub struct TableMeta {
    pub name: String,
    pub table_id: u64,
    pub version: Option<u64>,
}

/// Metadata of one table function.
#[derive(Debug)]
pub struct TableFunctionMeta {
    pub name: String,
    pub table_id: u64,
}

/// One registered database with its tables and table functions.
#[derive(Debug)]
pub struct Database {
    pub name: String,
    pub engine: DatabaseEngineType,
    pub tables: Vec<TableMeta>,
    pub table_functions: Vec<TableFunctionMeta>,
}

/// A request to create a database.
#[derive(Debug)]
pub struct CreateDatabasePlan {
    pub db: String,
    pub if_not_exists: bool,
    pub engine: DatabaseEngineType,
}

/// A request to drop a database.
#[derive(Debug)]
pub struct DropDatabasePlan {
    pub db: String,
    pub if_exists: bool,
}

/// What a catalog write asks of the caller: nothing more, or one remote call
/// to perform on the metadata store.
#[derive(Debug)]
pub enum CatalogAction {
    Done,
    DelegateCreate(CreateDatabasePlan),
    DelegateDrop(DropDatabasePlan),
}

/// A read that may have to consult the remote store: the value, or the
/// instruction to ask the store.
#[derive(Debug)]
pub enum Lookup<T> {
    Found(T),
    ConsultRemote,
}

/// Whether the association list holds the key.
pub open spec fn alist_contains<T>(s: Seq<(String, T)>, key: Seq<char>) -> bool {
    exists|i: int| 0 <= i < s.len() && s[i].0@ == key
}

/// The index of the key in the association list.
pub open spec fn alist_idx<T>(s: Seq<(String, T)>, key: Seq<char>) -> int {
    choose|i: int| 0 <= i < s.len() && s[i].0@ == key
}

/// The value under the key.
pub open spec fn alist_get<T>(s: Seq<(String, T)>, key: Seq<char>) -> T {
    s[alist_idx(s, key)].1
}

/// Keys are unique.
pub open spec fn alist_wf<T>(s: Seq<(String, T)>) -> bool {
    forall|i: int, j: int| 0 <= i < j < s.len() ==> s[i].0@ != s[j].0@
}

/// In a well-formed association list, any entry holding the key gives its
/// value.
pub proof fn lemma_alist_get<T>(s: Seq<(String, T)>, key: Seq<char>, i: int)
    requires
        alist_wf(s),
        0 <= i < s.len(),
        s[i].0@ == key,
    ensures
        alist_contains(s, key),
        alist_idx(s, key) == i,
        alist_get(s, key) == s[i].1,
{
    assert(alist_contains(s, key));
    let j = alist_idx(s, key);
    assert(0 <= j < s.len() && s[j].0@ == key);
    if i < j {
        assert(s[i].0@ != s[j].0@);
    } else if j < i {
        assert(s[j].0@ != s[i].0@);
    }
}

/// The result of a lowercase conversion of the given characters:
/// uninterpreted but fixed, named so that contracts can speak of it.
pub uninterp spec fn lower_of(s: Seq<char>) -> Seq<char>;

/// Relies on `str::to_lowercase`: the result depends on the characters alone
/// (the Unicode lowercase conversion, no locale).
#[verifier::external_body]
fn lowercase(s: &str) -> (r: String)
    ensures
        r@ == lower_of(s@),
{
    s.to_lowercase()
}

/// A copy of a table's metadata.
pub fn clone_table_meta(t: &TableMeta) -> (r: TableMeta)
    ensures
        r == *t,
{
    TableMeta {
        name: t.name.clone(),
        table_id: t.table_id,
        version: match t.version {
            Some(v) => Some(v),
            None => None,
        },
    }
}

/// A copy of a table function's metadata.
pub fn clone_table_function_meta(t: &TableFunctionMeta) -> (r: TableFunctionMeta)
    ensures
        r == *t,
{
    TableFunctionMeta { name: t.name.clone(), table_id: t.table_id }
}

/// A copy of a vector of table metadata.
fn clone_tables(v: &Vec<TableMeta>) -> (r: Vec<TableMeta>)
    ensures
        r@ == v@,
{
    let mut out: Vec<TableMeta> = Vec::new();
    let mut i: usize = 0;
    while i < v.len()
        invariant
            i <= v@.len(),
            out@ =~= v@.subrange(0, i as int),
        decreases v@.len() - i,
    {
        out.push(clone_table_meta(&v[i]));
        i = i + 1;
    }
    proof {
        assert(v@.subrange(0, v@.len() as int) =~= v@);
    }
    out
}

/// A copy of a vector of table-function metadata.
fn clone_table_functions(v: &Vec<TableFunctionMeta>) -> (r: Vec<TableFunctionMeta>)
    ensures
        r@ == v@,
{
    let mut out: Vec<TableFunctionMeta> = Vec::new();
    let mut i: usize = 0;
    while i < v.len()
        invariant
            i <= v@.len(),
            out@ =~= v@.subrange(0, i as int),
        decreases v@.len() - i,
    {
        out.push(clone_table_function_meta(&v[i]));
        i = i + 1;
    }
    proof {
        assert(v@.subrange(0, v@.len() as int) =~= v@);
    }
    out
}

/// Whether two database registrations hold the same content.
pub open spec fn db_eqv(a: Database, b: Database) -> bool {
    &&& a.name@ == b.name@
    &&& a.engine == b.engine
    &&& a.tables@ == b.tables@
    &&& a.table_functions@ == b.table_functions@
}

/// A copy of a database's registration.
pub fn clone_database(d: &Database) -> (r: Database)
    ensures
        db_eqv(r, *d),
{
    Database {
        name: d.name.clone(),
        engine: d.engine,
        tables: clone_tables(&d.tables),
        table_functions: clone_table_functions(&d.table_functions),
    }
}

/// The index of the key in the list, if present.
fn find_key<T>(s: &Vec<(String, T)>, key: &String) -> (r: Option<usize>)
    ensures
        match r {
            Some(i) => i < s@.len() && s@[i as int].0@ == key@,
            None => !alist_contains(s@, key@),
        },
{
    let mut i: usize = 0;
    while i < s.len()
        invariant
            i <= s@.len(),
            forall|k: int| 0 <= k < i ==> s@[k].0@ != key@,
        decreases s@.len() - i,
    {
        if s[i].0.eq(key) {
            return Some(i);
        }
        i = i + 1;
    }
    None
}

/// Insert or overwrite the value under the key.
fn alist_upsert<T>(s: &mut Vec<(String, T)>, key: String, value: T)
    requires
        alist_wf(old(s)@),
    ensures
        alist_wf(final(s)@),
        alist_contains(final(s)@, key@),
        alist_get(final(s)@, key@) == value,
        forall|k: Seq<char>|
            k != key@ ==> #[trigger] alist_contains(final(s)@, k) == alist_contains(old(s)@, k),
        forall|k: Seq<char>|
            k != key@ && alist_contains(old(s)@, k) ==> #[trigger] alist_get(final(s)@, k)
                == alist_get(old(s)@, k),
{
    let ghost olds = s@;
    match find_key(s, &key) {
        Some(i) => {
            s.set(i, (key, value));
            proof {
                assert forall|i2: int, j2: int| 0 <= i2 < j2 < s@.len() implies s@[i2].0@
                    != s@[j2].0@ by {
                    assert(olds[i2].0@ != olds[j2].0@);
                }
                lemma_alist_get(s@, key@, i as int);
                assert forall|k: Seq<char>| k != key@ implies #[trigger] alist_contains(s@, k)
                    == alist_contains(olds, k) by {
                    if alist_contains(olds, k) {
                        let w = alist_idx(olds, k);
                        assert(w != i);
                        assert(s@[w].0@ == k);
                    }
                    if alist_contains(s@, k) {
                        let w = alist_idx(s@, k);
                        assert(w != i);
                        assert(olds[w].0@ == k);
                    }
                }
                assert forall|k: Seq<char>| k != key@ && alist_contains(olds, k) implies #[trigger]
                    alist_get(s@, k) == alist_get(olds, k) by {
                    let w = alist_idx(olds, k);
                    lemma_alist_get(olds, k, w);
                    assert(w != i);
                    lemma_alist_get(s@, k, w);
                }
            }
        },
        None => {
            let ghost n = s@.len() as int;
            s.push((key, value));
            proof {
                assert forall|i2: int, j2: int| 0 <= i2 < j2 < s@.len() implies s@[i2].0@
                    != s@[j2].0@ by {
                    if j2 < n {
                        assert(olds[i2].0@ != olds[j2].0@);
                    } else {
                        assert(olds[i2].0@ != key@);
                    }
                }
                lemma_alist_get(s@, key@, n);
                assert forall|k: Seq<char>| k != key@ implies #[trigger] alist_contains(s@, k)
                    == alist_contains(olds, k) by {
                    if alist_contains(olds, k) {
                        let w = alist_idx(olds, k);
                        assert(s@[w].0@ == k);
                    }
                    if alist_contains(s@, k) {
                        let w = alist_idx(s@, k);
                        assert(w != n);
                        assert(olds[w].0@ == k);
                    }
                }
                assert forall|k: Seq<char>| k != key@ && alist_contains(olds, k) implies #[trigger]
                    alist_get(s@, k) == alist_get(olds, k) by {
                    let w = alist_idx(olds, k);
                    lemma_alist_get(olds, k, w);
                    lemma_alist_get(s@, k, w);
                }
            }
        },
    }
}

/// Remove the entry at index `i`, leaving every other key's value in place.
fn alist_remove<T>(s: &mut Vec<(String, T)>, i: usize)
    requires
        alist_wf(old(s)@),
        i < old(s)@.len(),
    ensures
        alist_wf(final(s)@),
        !alist_contains(final(s)@, old(s)@[i as int].0@),
        forall|k: Seq<char>|
            k != old(s)@[i as int].0@ ==> #[trigger] alist_contains(final(s)@, k)
                == alist_contains(old(s)@, k),
        forall|k: Seq<char>|
            k != old(s)@[i as int].0@ && alist_contains(old(s)@, k) ==> #[trigger] alist_get(
                final(s)@,
                k,
            ) == alist_get(old(s)@, k),
{
    let ghost olds = s@;
    let ghost key = s@[i as int].0@;
    s.remove(i);
    proof {
        assert forall|i2: int, j2: int| 0 <= i2 < j2 < s@.len() implies s@[i2].0@ != s@[j2].0@ by {
            let oi = if i2 < i {
                i2
            } else {
                i2 + 1
            };
            let oj = if j2 < i {
                j2
            } else {
                j2 + 1
            };
            assert(olds[oi].0@ != olds[oj].0@);
        }
        if alist_contains(s@, key) {
            let w = alist_idx(s@, key);
            let ow = if w < i {
                w
            } else {
                w + 1
            };
            assert(olds[ow].0@ == key);
            assert(olds[i as int].0@ == key);
            assert(false);
        }
        assert forall|k: Seq<char>| k != key implies #[trigger] alist_contains(s@, k)
            == alist_contains(olds, k) by {
            if alist_contains(olds, k) {
                let w = alist_idx(olds, k);
                assert(w != i);
                let nw = if w < i {
                    w
                } else {
                    w - 1
                };
                assert(s@[nw].0@ == k);
            }
            if alist_contains(s@, k) {
                let w = alist_idx(s@, k);
                let ow = if w < i {
                    w
                } else {
                    w + 1
                };
                assert(olds[ow].0@ == k);
            }
        }
        assert forall|k: Seq<char>| k != key && alist_contains(olds, k) implies #[trigger]
            alist_get(s@, k) == alist_get(olds, k) by {
            let w = alist_idx(olds, k);
            lemma_alist_get(olds, k, w);
            assert(w != i);
            let nw = if w < i {
                w
            } else {
                w - 1
            };
            assert(s@[nw].0@ == k && s@[nw].1 == olds[w].1);
            lemma_alist_get(s@, k, nw);
        }
    }
}

/// Lexicographic order on character sequences, by code point: negative, zero
/// or positive as `a` is below, equal to or above `b`.
pub open spec fn char_lex(a: Seq<char>, b: Seq<char>) -> int
    decreases a.len(),
{
    if a.len() == 0 && b.len() == 0 {
        0
    } else if a.len() == 0 {
        -1
    } else if b.len() == 0 {
        1
    } else if (a[0] as int) < (b[0] as int) {
        -1
    } else if (a[0] as int) > (b[0] as int) {
        1
    } else {
        char_lex(a.skip(1), b.skip(1))
    }
}

/// Swapping the operands flips the verdict.
pub proof fn lemma_char_lex_antisym(a: Seq<char>, b: Seq<char>)
    ensures
        char_lex(b, a) == -char_lex(a, b),
    decreases a.len(),
{
    if a.len() > 0 && b.len() > 0 && a[0] == b[0] {
        lemma_char_lex_antisym(a.skip(1), b.skip(1));
    }
}

/// The order is transitive.
pub proof fn lemma_char_lex_trans(a: Seq<char>, b: Seq<char>, c: Seq<char>)
    requires
        char_lex(a, b) <= 0,
        char_lex(b, c) <= 0,
    ensures
        char_lex(a, c) <= 0,
    decreases a.len(),
{
    if a.len() == 0 {
    } else {
        assert(b.len() > 0);
        assert(c.len() > 0);
        if a[0] == b[0] && b[0] == c[0] {
            lemma_char_lex_trans(a.skip(1), b.skip(1), c.skip(1));
        }
    }
}

/// Lexicographic comparison of two strings by code point.
fn str_lex(a: &str, b: &str) -> (r: i8)
    ensures
        r as int == char_lex(a@, b@),
{
    let na = a.unicode_len();
    let nb = b.unicode_len();
    let mut i: usize = 0;
    proof {
        assert(a@.skip(0) =~= a@);
        assert(b@.skip(0) =~= b@);
    }
    while i < na && i < nb
        invariant
            na == a@.len(),
            nb == b@.len(),
            i <= na,
            i <= nb,
            char_lex(a@, b@) == char_lex(a@.skip(i as int), b@.skip(i as int)),
        decreases na - i,
    {
        let ghost sa = a@.skip(i as int);
        let ghost sb = b@.skip(i as int);
        let ca = a.get_char(i) as u32;
        let cb = b.get_char(i) as u32;
        if ca < cb {
            return -1;
        }
        if ca > cb {
            return 1;
        }
        proof {
            assert(sa[0] == a@[i as int]);
            assert(sb[0] == b@[i as int]);
            assert(sa.skip(1) =~= a@.skip(i + 1));
            assert(sb.skip(1) =~= b@.skip(i + 1));
        }
        i = i + 1;
    }
    proof {
        assert(a@.skip(i as int).len() == na - i);
        assert(b@.skip(i as int).len() == nb - i);
    }
    if na == nb {
        0
    } else if na < nb {
        -1
    } else {
        1
    }
}

/// Whether the names stand in lexicographic order.
pub open spec fn names_sorted(s: Seq<String>) -> bool {
    forall|i: int, j: int| 0 <= i < j < s.len() ==> char_lex(s[i]@, s[j]@) <= 0
}

/// The names in lexicographic order (a permutation of the input).
fn sort_names(names: Vec<String>) -> (r: Vec<String>)
    ensures
        names_sorted(r@),
        r@.to_multiset() == names@.to_multiset(),
{
    broadcast use vstd::seq_lib::group_to_multiset_ensures;
    broadcast use vstd::multiset::group_multiset_axioms;

    let ghost input = names@;
    let mut rest = names;
    let mut out: Vec<String> = Vec::new();
    while rest.len() > 0
        invariant
            out@.to_multiset().add(rest@.to_multiset()) == input.to_multiset(),
            names_sorted(out@),
            forall|a: int, b: int|
                0 <= a < out@.len() && 0 <= b < rest@.len() ==> #[trigger] char_lex(
                    out@[a]@,
                    rest@[b]@,
                ) <= 0,
        decreases rest@.len(),
    {
        let n = rest.len();
        proof {
            lemma_char_lex_antisym(rest@[0]@, rest@[0]@);
        }
        let mut m: usize = 0;
        let mut i: usize = 1;
        while i < n
            invariant
                n == rest@.len(),
                m < i <= n,
                forall|k: int| 0 <= k < i ==> char_lex(rest@[m as int]@, #[trigger] rest@[k]@) <= 0,
            decreases n - i,
        {
            let ghost old_m = m as int;
            if str_lex(rest[i].as_str(), rest[m].as_str()) < 0 {
                m = i;
                proof {
                    assert forall|k: int| 0 <= k < i + 1 implies char_lex(
                        rest@[m as int]@,
                        #[trigger] rest@[k]@,
                    ) <= 0 by {
                        if k < i {
                            lemma_char_lex_trans(rest@[m as int]@, rest@[old_m]@, rest@[k]@);
                        } else {
                            assert(char_lex(rest@[k]@, rest@[k]@) == 0) by {
                                lemma_char_lex_antisym(rest@[k]@, rest@[k]@);
                            }
                        }
                    }
                }
            } else {
                proof {
                    lemma_char_lex_antisym(rest@[m as int]@, rest@[i as int]@);
                }
            }
            i = i + 1;
        }
        let ghost old_out = out@;
        let ghost old_rest = rest@;
        let x = rest.remove(m);
        out.push(x);
        proof {
            old_out.to_multiset_ensures();
            old_rest.to_multiset_ensures();
            assert(out@ == old_out.push(old_rest[m as int]));
            assert(rest@ == old_rest.remove(m as int));
            assert(old_out.push(old_rest[m as int]).to_multiset() =~= old_out.to_multiset().insert(
                old_rest[m as int],
            ));
            assert(old_rest.remove(m as int).to_multiset() =~= old_rest.to_multiset().remove(
                old_rest[m as int],
            ));
            assert(old_rest.contains(old_rest[m as int]));
            assert(old_rest.to_multiset().count(old_rest[m as int]) > 0);
            assert(out@.to_multiset().add(rest@.to_multiset()) =~= input.to_multiset());
            assert forall|a: int, b: int|
                0 <= a < out@.len() && 0 <= b < rest@.len() implies #[trigger] char_lex(
                out@[a]@,
                rest@[b]@,
            ) <= 0 by {
                let ob = if b < m {
                    b
                } else {
                    b + 1
                };
                assert(rest@[b] == old_rest[ob]);
                if a < old_out.len() {
                    assert(char_lex(out@[a]@, old_rest[ob]@) <= 0);
                } else {
                    assert(out@[a] == old_rest[m as int]);
                    assert(char_lex(old_rest[m as int]@, old_rest[ob]@) <= 0);
                }
            }
            assert forall|a: int, b: int| 0 <= a < b < out@.len() implies #[trigger] char_lex(
                out@[a]@,
                out@[b]@,
            ) <= 0 by {
                if b < out@.len() - 1 {
                    assert(char_lex(old_out[a]@, old_out[b]@) <= 0);
                } else {
                    assert(out@[b] == old_rest[m as int]);
                    assert(char_lex(old_out[a]@, old_rest[m as int]@) <= 0);
                }
            }
        }
    }
    out
}

/// Whether two strings hold the same characters.
fn str_eq_exec(a: &str, b: &str) -> (r: bool)
    ensures
        r == (a@ == b@),
{
    let x: String = a.to_owned();
    let y: String = b.to_owned();
    x == y
}

impl Database {
    /// A fresh, empty local database.
    pub fn create_local(name: String) -> (r: Database)
        ensures
            r.name == name,
            r.engine == DatabaseEngineType::Local,
            r.tables@.len() == 0,
            r.table_functions@.len() == 0,
    {
        Database {
            name,
            engine: DatabaseEngineType::Local,
            tables: Vec::new(),
            table_functions: Vec::new(),
        }
    }

    /// Whether the database lives on the local engine.
    pub fn is_local(&self) -> (r: bool)
        ensures
            r == (self.engine == DatabaseEngineType::Local),
    {
        matches!(self.engine, DatabaseEngineType::Local)
    }

    /// The first table registered under the name, or `UnknownTable` carrying
    /// it.
    pub fn get_table(&self, table_name: &str) -> (r: Result<TableMeta, ErrorCode>)
        ensures
            match r {
                Ok(t) => t.name@ == table_name@ && exists|i: int|
                    0 <= i < self.tables@.len() && #[trigger] self.tables@[i] == t,
                Err(e) => {
                    &&& forall|i: int|
                        0 <= i < self.tables@.len() ==> #[trigger] self.tables@[i].name@
                            != table_name@
                    &&& e matches ErrorCode::UnknownTable(s) && s@ == table_name@
                },
            },
    {
        let mut i: usize = 0;
        while i < self.tables.len()
            invariant
                i <= self.tables@.len(),
                forall|k: int| 0 <= k < i ==> #[trigger] self.tables@[k].name@ != table_name@,
            decreases self.tables@.len() - i,
        {
            if str_eq_exec(self.tables[i].name.as_str(), table_name) {
                return Ok(clone_table_meta(&self.tables[i]));
            }
            i = i + 1;
        }
        Err(ErrorCode::UnknownTable(table_name.to_owned()))
    }

    /// The first table registered under the id, or `UnknownTable` carrying
    /// the database's name.
    pub fn get_table_by_id(&self, table_id: u64) -> (r: Result<TableMeta, ErrorCode>)
        ensures
            match r {
                Ok(t) => t.table_id == table_id && exists|i: int|
                    0 <= i < self.tables@.len() && #[trigger] self.tables@[i] == t,
                Err(e) => {
                    &&& forall|i: int|
                        0 <= i < self.tables@.len() ==> #[trigger] self.tables@[i].table_id
                            != table_id
                    &&& e matches ErrorCode::UnknownTable(s) && s@ == self.name@
                },
            },
    {
        let mut i: usize = 0;
        while i < self.tables.len()
            invariant
                i <= self.tables@.len(),
                forall|k: int| 0 <= k < i ==> #[trigger] self.tables@[k].table_id != table_id,
            decreases self.tables@.len() - i,
        {
            if self.tables[i].table_id == table_id {
                return Ok(clone_table_meta(&self.tables[i]));
            }
            i = i + 1;
        }
        Err(ErrorCode::UnknownTable(self.name.as_str().to_owned()))
    }
}

/// Whether the table function at position `t` of batch entry `j` is the only
/// one of its name in the whole batch.
pub open spec fn tf_name_unique(dbs: Seq<Database>, j: int, t: int) -> bool {
    forall|j2: int, t2: int|
        0 <= j2 < dbs.len() && 0 <= t2 < dbs[j2].table_functions@.len() && !(j2 == j && t2 == t)
            ==> dbs[j2].table_functions@[t2].name@ != dbs[j].table_functions@[t].name@
}

/// Maintains all the databases and table functions a user sees. Databases
/// are keyed by lowercased name; table functions by their exact name.
pub struct DatabaseCatalog {
    pub conf: Config,
    pub databases: Vec<(String, Database)>,
    pub table_functions: Vec<(String, TableFunctionMeta)>,
}

impl DatabaseCatalog {
    /// Both registries have unique keys.
    pub open spec fn wf(&self) -> bool {
        alist_wf(self.databases@) && alist_wf(self.table_functions@)
    }

    /// Whether a remote metadata store is configured.
    pub open spec fn remote_configured(&self) -> bool {
        self.conf.store_address@.len() > 0
    }

    /// An empty catalog over the given configuration.
    pub fn try_create_with_config(conf: Config) -> (r: Result<DatabaseCatalog, ErrorCode>)
        ensures
            match r {
                Ok(c) => {
                    &&& c.wf()
                    &&& c.conf == conf
                    &&& c.databases@.len() == 0
                    &&& c.table_functions@.len() == 0
                },
                Err(_) => false,
            },
    {
        Ok(DatabaseCatalog { conf, databases: Vec::new(), table_functions: Vec::new() })
    }

    /// Register databases under their lowercased names, newer registrations
    /// shadowing older ones, and each of their table functions under its own
    /// name.
    pub fn register_database(&mut self, databases: Vec<Database>) -> (r: Result<(), ErrorCode>)
        requires
            old(self).wf(),
        ensures
            r is Ok,
            final(self).wf(),
            final(self).conf == old(self).conf,
            forall|j: int|
                0 <= j < databases@.len() ==> #[trigger] alist_contains(
                    final(self).databases@,
                    lower_of(databases@[j].name@),
                ),
            forall|j: int|
                0 <= j < databases@.len() && (forall|j2: int|
                    j < j2 < databases@.len() ==> lower_of(#[trigger] databases@[j2].name@)
                        != lower_of(databases@[j].name@)) ==> db_eqv(
                    alist_get(
                        final(self).databases@,
                        lower_of(#[trigger] databases@[j].name@),
                    ),
                    databases@[j],
                ),
            forall|k: Seq<char>|
                (forall|j: int|
                    0 <= j < databases@.len() ==> lower_of(#[trigger] databases@[j].name@) != k)
                    ==> #[trigger] alist_contains(final(self).databases@, k) == alist_contains(
                    old(self).databases@,
                    k,
                ) && (alist_contains(old(self).databases@, k) ==> alist_get(
                    final(self).databases@,
                    k,
                ) == alist_get(old(self).databases@, k)),
            forall|j: int, t: int|
                0 <= j < databases@.len() && 0 <= t < databases@[j].table_functions@.len()
                    ==> #[trigger] alist_contains(
                    final(self).table_functions@,
                    databases@[j].table_functions@[t].name@,
                ),
            forall|j: int, t: int|
                0 <= j < databases@.len() && 0 <= t < databases@[j].table_functions@.len()
                    && tf_name_unique(databases@, j, t) ==> #[trigger] alist_get(
                    final(self).table_functions@,
                    databases@[j].table_functions@[t].name@,
                ) == databases@[j].table_functions@[t],
    {
        let n = databases.len();
        let mut i: usize = 0;
        while i < n
            invariant
                self.wf(),
                self.conf == old(self).conf,
                n == databases@.len(),
                i <= n,
                forall|j: int|
                    0 <= j < i ==> #[trigger] alist_contains(
                        self.databases@,
                        lower_of(databases@[j].name@),
                    ),
                forall|j: int|
                    0 <= j < i && (forall|j2: int|
                        j < j2 < i ==> lower_of(#[trigger] databases@[j2].name@) != lower_of(
                            databases@[j].name@,
                        )) ==> db_eqv(
                        alist_get(
                            self.databases@,
                            lower_of(#[trigger] databases@[j].name@),
                        ),
                        databases@[j],
                    ),
                forall|k: Seq<char>|
                    (forall|j: int| 0 <= j < i ==> lower_of(#[trigger] databases@[j].name@) != k)
                        ==> #[trigger] alist_contains(self.databases@, k) == alist_contains(
                        old(self).databases@,
                        k,
                    ) && (alist_contains(old(self).databases@, k) ==> alist_get(
                        self.databases@,
                        k,
                    ) == alist_get(old(self).databases@, k)),
                forall|j: int, t: int|
                    0 <= j < i && 0 <= t < databases@[j].table_functions@.len() ==> #[trigger]
                        alist_contains(
                        self.table_functions@,
                        databases@[j].table_functions@[t].name@,
                    ),
                forall|j: int, t: int|
                    0 <= j < i && 0 <= t < databases@[j].table_functions@.len() && tf_name_unique(
                        databases@,
                        j,
                        t,
                    ) ==> #[trigger] alist_get(
                        self.table_functions@,
                        databases@[j].table_functions@[t].name@,
                    ) == databases@[j].table_functions@[t],
            decreases n - i,
        {
            let db = clone_database(&databases[i]);
            let key = lowercase(db.name.as_str());
            let ghost dbs_before = self.databases@;
            let tfn = db.table_functions.len();
            let mut t: usize = 0;
            while t < tfn
                invariant
                    self.wf(),
                    self.conf == old(self).conf,
                    self.databases@ == dbs_before,
                    t <= tfn,
                    i < n,
                    n == databases@.len(),
                    db_eqv(db, databases@[i as int]),
                    tfn == db.table_functions@.len(),
                    forall|j: int, t2: int|
                        0 <= j < i && 0 <= t2 < databases@[j].table_functions@.len() ==> #[trigger]
                            alist_contains(
                            self.table_functions@,
                            databases@[j].table_functions@[t2].name@,
                        ),
                    forall|t2: int|
                        0 <= t2 < t ==> #[trigger] alist_contains(
                            self.table_functions@,
                            db.table_functions@[t2].name@,
                        ),
                    forall|j: int, t2: int|
                        0 <= j < i && 0 <= t2 < databases@[j].table_functions@.len()
                            && tf_name_unique(databases@, j, t2) ==> #[trigger] alist_get(
                            self.table_functions@,
                            databases@[j].table_functions@[t2].name@,
                        ) == databases@[j].table_functions@[t2],
                    forall|t2: int|
                        0 <= t2 < t && tf_name_unique(databases@, i as int, t2) ==> #[trigger]
                            alist_get(
                            self.table_functions@,
                            databases@[i as int].table_functions@[t2].name@,
                        ) == databases@[i as int].table_functions@[t2],
                decreases tfn - t,
            {
                let tf = clone_table_function_meta(&db.table_functions[t]);
                let tf_key = tf.name.clone();
                alist_upsert(&mut self.table_functions, tf_key, tf);
                t = t + 1;
            }
            alist_upsert(&mut self.databases, key, db);
            i = i + 1;
        }
        Ok(())
    }

    /// The database registered under the name: found locally, to be asked of
    /// the remote store when one is configured, or `UnknownDatabase` carrying
    /// the name.
    pub fn get_database(&self, db_name: &str) -> (r: Result<Lookup<Database>, ErrorCode>)
        requires
            self.wf(),
        ensures
            match r {
                Ok(Lookup::Found(d)) => alist_contains(self.databases@, db_name@) && db_eqv(
                    d,
                    alist_get(self.databases@, db_name@),
                ),
                Ok(Lookup::ConsultRemote) => !alist_contains(self.databases@, db_name@)
                    && self.remote_configured(),
                Err(e) => {
                    &&& !alist_contains(self.databases@, db_name@)
                    &&& !self.remote_configured()
                    &&& e matches ErrorCode::UnknownDatabase(s) && s@ == db_name@
                },
            },
    {
        let key = db_name.to_owned();
        match find_key(&self.databases, &key) {
            Some(i) => {
                proof {
                    lemma_alist_get(self.databases@, db_name@, i as int);
                }
                Ok(Lookup::Found(clone_database(&self.databases[i].1)))
            },
            None => {
                if !self.conf.store_address.as_str().is_empty() {
                    Ok(Lookup::ConsultRemote)
                } else {
                    Err(ErrorCode::UnknownDatabase(db_name.to_owned()))
                }
            },
        }
    }

    /// All database names this catalog serves, in lexicographic order: the
    /// local keys, merged with the remote names the caller fetched when a
    /// store is configured.
    pub fn get_databases(&self, remote: Vec<String>) -> (r: Vec<String>)
        requires
            self.wf(),
        ensures
            names_sorted(r@),
            r@.to_multiset() == (Seq::new(self.databases@.len(), |i: int| self.databases@[i].0) + (
            if self.remote_configured() {
                remote@
            } else {
                Seq::<String>::empty()
            })).to_multiset(),
    {
        let mut out: Vec<String> = Vec::new();
        let mut i: usize = 0;
        while i < self.databases.len()
            invariant
                i <= self.databases@.len(),
                out@ =~= Seq::new(i as nat, |k: int| self.databases@[k].0),
            decreases self.databases@.len() - i,
        {
            out.push(self.databases[i].0.clone());
            i = i + 1;
        }
        if !self.conf.store_address.as_str().is_empty() {
            let mut j: usize = 0;
            let ghost locals = out@;
            while j < remote.len()
                invariant
                    j <= remote@.len(),
                    out@ =~= locals + remote@.subrange(0, j as int),
                decreases remote@.len() - j,
            {
                out.push(remote[j].clone());
                j = j + 1;
            }
            proof {
                assert(remote@.subrange(0, remote@.len() as int) =~= remote@);
                assert(out@ =~= Seq::new(self.databases@.len(), |i: int| self.databases@[i].0)
                    + remote@);
            }
        } else {
            proof {
                assert(out@ =~= Seq::new(self.databases@.len(), |i: int| self.databases@[i].0)
                    + Seq::<String>::empty());
            }
        }
        sort_names(out)
    }

    /// The named table of the named database, resolved locally, or the
    /// instruction to consult the remote store for the database.
    pub fn get_table(&self, db_name: &str, table_name: &str) -> (r: Result<
        Lookup<TableMeta>,
        ErrorCode,
    >)
        requires
            self.wf(),
        ensures
            match r {
                Ok(Lookup::Found(t)) => {
                    &&& alist_contains(self.databases@, db_name@)
                    &&& t.name@ == table_name@
                    &&& exists|i: int|
                        0 <= i < alist_get(self.databases@, db_name@).tables@.len() && #[trigger]
                        alist_get(self.databases@, db_name@).tables@[i] == t
                },
                Ok(Lookup::ConsultRemote) => !alist_contains(self.databases@, db_name@)
                    && self.remote_configured(),
                Err(e) => match e {
                    ErrorCode::UnknownDatabase(s) => {
                        &&& !alist_contains(self.databases@, db_name@)
                        &&& !self.remote_configured()
                        &&& s@ == db_name@
                    },
                    ErrorCode::UnknownTable(s) => {
                        &&& alist_contains(self.databases@, db_name@)
                        &&& s@ == table_name@
                        &&& forall|i: int|
                            0 <= i < alist_get(self.databases@, db_name@).tables@.len()
                                ==> #[trigger] alist_get(
                                self.databases@,
                                db_name@,
                            ).tables@[i].name@ != table_name@
                    },
                    _ => false,
                },
            },
    {
        let db = match self.get_database(db_name) {
            Ok(Lookup::Found(d)) => d,
            Ok(Lookup::ConsultRemote) => {
                return Ok(Lookup::ConsultRemote);
            },
            Err(e) => {
                return Err(e);
            },
        };
        match db.get_table(table_name) {
            Ok(t) => Ok(Lookup::Found(t)),
            Err(e) => Err(e),
        }
    }

    /// The table with the given id in the named database, resolved locally,
    /// or the instruction to consult the remote store. The version, when
    /// given, is the caller's concern and passes through unchecked.
    pub fn get_table_by_id(&self, db_name: &str, table_id: u64, _table_version: Option<u64>) -> (r:
        Result<Lookup<TableMeta>, ErrorCode>)
        requires
            self.wf(),
        ensures
            match r {
                Ok(Lookup::Found(t)) => {
                    &&& alist_contains(self.databases@, db_name@)
                    &&& t.table_id == table_id
                    &&& exists|i: int|
                        0 <= i < alist_get(self.databases@, db_name@).tables@.len() && #[trigger]
                        alist_get(self.databases@, db_name@).tables@[i] == t
                },
                Ok(Lookup::ConsultRemote) => !alist_contains(self.databases@, db_name@)
                    && self.remote_configured(),
                Err(e) => match e {
                    ErrorCode::UnknownDatabase(s) => {
                        &&& !alist_contains(self.databases@, db_name@)
                        &&& !self.remote_configured()
                        &&& s@ == db_name@
                    },
                    ErrorCode::UnknownTable(_) => alist_contains(self.databases@, db_name@)
                        && forall|i: int|
                        0 <= i < alist_get(self.databases@, db_name@).tables@.len() ==> #[trigger]
                            alist_get(self.databases@, db_name@).tables@[i].table_id != table_id,
                    _ => false,
                },
            },
    {
        let db = match self.get_database(db_name) {
            Ok(Lookup::Found(d)) => d,
            Ok(Lookup::ConsultRemote) => {
                return Ok(Lookup::ConsultRemote);
            },
            Err(e) => {
                return Err(e);
            },
        };
        match db.get_table_by_id(table_id) {
            Ok(t) => Ok(Lookup::Found(t)),
            Err(e) => Err(e),
        }
    }

    /// The table function registered under the name, or
    /// `UnknownTableFunction` carrying it; table functions are local only.
    pub fn get_table_function(&self, name: &str) -> (r: Result<TableFunctionMeta, ErrorCode>)
        requires
            self.wf(),
        ensures
            match r {
                Ok(t) => alist_contains(self.table_functions@, name@) && t == alist_get(
                    self.table_functions@,
                    name@,
                ),
                Err(e) => {
                    &&& !alist_contains(self.table_functions@, name@)
                    &&& e matches ErrorCode::UnknownTableFunction(s) && s@ == name@
                },
            },
    {
        let key = name.to_owned();
        match find_key(&self.table_functions, &key) {
            Some(i) => {
                proof {
                    lemma_alist_get(self.table_functions@, name@, i as int);
                }
                Ok(clone_table_function_meta(&self.table_functions[i].1))
            },
            None => Err(ErrorCode::UnknownTableFunction(name.to_owned())),
        }
    }

    /// Every local table, each under its database's key: the tables of the
    /// first `n` registered databases, in registration order.
    pub open spec fn local_pairs(dbs: Seq<(String, Database)>, n: int) -> Seq<(String, TableMeta)>
        decreases n,
    {
        if n <= 0 {
            Seq::empty()
        } else {
            Self::local_pairs(dbs, n - 1) + Seq::new(
                dbs[n - 1].1.tables@.len(),
                |t: int| (dbs[n - 1].0, dbs[n - 1].1.tables@[t]),
            )
        }
    }

    /// The first `n` remote pairs whose database name no local key shadows.
    pub open spec fn shadow_filter(
        dbs: Seq<(String, Database)>,
        remote: Seq<(String, TableMeta)>,
        n: int,
    ) -> Seq<(String, TableMeta)>
        decreases n,
    {
        if n <= 0 {
            Seq::empty()
        } else {
            Self::shadow_filter(dbs, remote, n - 1) + (if alist_contains(dbs, remote[n - 1].0@) {
                Seq::empty()
            } else {
                seq![remote[n - 1]]
            })
        }
    }

    /// Every table this catalog serves, each under its database's name: the
    /// local ones, then the remote pairs the caller fetched when a store is
    /// configured — except that a local or system database shadows a remote
    /// database of the same name.
    pub fn get_all_tables(&self, remote: Vec<(String, TableMeta)>) -> (r: Vec<(String, TableMeta)>)
        requires
            self.wf(),
        ensures
            r@ == Self::local_pairs(self.databases@, self.databases@.len() as int) + (
            if self.remote_configured() {
                Self::shadow_filter(self.databases@, remote@, remote@.len() as int)
            } else {
                Seq::<(String, TableMeta)>::empty()
            }),
    {
        let mut out: Vec<(String, TableMeta)> = Vec::new();
        let n = self.databases.len();
        let mut i: usize = 0;
        while i < n
            invariant
                self.wf(),
                n == self.databases@.len(),
                i <= n,
                out@ == Self::local_pairs(self.databases@, i as int),
            decreases n - i,
        {
            let entry = &self.databases[i];
            let tn = entry.1.tables.len();
            let ghost base = out@;
            let mut t: usize = 0;
            while t < tn
                invariant
                    self.wf(),
                    n == self.databases@.len(),
                    i < n,
                    tn == self.databases@[i as int].1.tables@.len(),
                    entry == &self.databases@[i as int],
                    t <= tn,
                    out@ =~= base + Seq::new(
                        t as nat,
                        |k: int| (self.databases@[i as int].0, self.databases@[i as int].1.tables@[k]),
                    ),
                decreases tn - t,
            {
                out.push((entry.0.clone(), clone_table_meta(&entry.1.tables[t])));
                t = t + 1;
            }
            proof {
                assert(out@ =~= Self::local_pairs(self.databases@, i + 1));
            }
            i = i + 1;
        }
        if !self.conf.store_address.as_str().is_empty() {
            let rn = remote.len();
            let ghost locals = out@;
            let mut j: usize = 0;
            while j < rn
                invariant
                    self.wf(),
                    rn == remote@.len(),
                    j <= rn,
                    out@ == locals + Self::shadow_filter(self.databases@, remote@, j as int),
                decreases rn - j,
            {
                let pair = &remote[j];
                match find_key(&self.databases, &pair.0) {
                    Some(i2) => {
                        proof {
                            lemma_alist_get(self.databases@, pair.0@, i2 as int);
                        }
                    },
                    None => {
                        out.push((pair.0.clone(), clone_table_meta(&pair.1)));
                    },
                }
                proof {
                    assert(out@ =~= locals + Self::shadow_filter(
                        self.databases@,
                        remote@,
                        j + 1,
                    ));
                }
                j = j + 1;
            }
        }
        out
    }

    /// Create a database. A name already present succeeds silently only with
    /// the if-not-exists flag; a fresh local name is registered here; a fresh
    /// remote name is delegated to the metadata store.
    pub fn create_database(&mut self, plan: CreateDatabasePlan) -> (r: Result<
        CatalogAction,
        ErrorCode,
    >)
        requires
            old(self).wf(),
        ensures
            final(self).wf(),
            final(self).conf == old(self).conf,
            final(self).table_functions == old(self).table_functions,
            r is Ok == create_is_ok(*old(self), plan),
            alist_contains(old(self).databases@, plan.db@) ==> final(self).databases == old(
                self,
            ).databases && (if plan.if_not_exists {
                r matches Ok(CatalogAction::Done)
            } else {
                r matches Err(ErrorCode::UnknownDatabase(s)) && s@ == plan.db@
            }),
            (!alist_contains(old(self).databases@, plan.db@) && plan.engine
                == DatabaseEngineType::Local) ==> {
                &&& r matches Ok(CatalogAction::Done)
                &&& alist_contains(final(self).databases@, plan.db@)
                &&& alist_get(final(self).databases@, plan.db@).engine
                    == DatabaseEngineType::Local
                &&& alist_get(final(self).databases@, plan.db@).name@ == plan.db@
                &&& alist_get(final(self).databases@, plan.db@).tables@.len() == 0
                &&& forall|k: Seq<char>|
                    k != plan.db@ ==> #[trigger] alist_contains(final(self).databases@, k)
                        == alist_contains(old(self).databases@, k)
                &&& forall|k: Seq<char>|
                    k != plan.db@ && alist_contains(old(self).databases@, k) ==> #[trigger]
                        alist_get(final(self).databases@, k) == alist_get(old(self).databases@, k)
            },
            (!alist_contains(old(self).databases@, plan.db@) && plan.engine
                == DatabaseEngineType::Remote) ==> final(self).databases == old(self).databases && (
            r matches Ok(CatalogAction::DelegateCreate(p)) && p == plan),
    {
        if let Some(_) = find_key(&self.databases, &plan.db) {
            if plan.if_not_exists {
                return Ok(CatalogAction::Done);
            } else {
                return Err(ErrorCode::UnknownDatabase(plan.db.as_str().to_owned()));
            }
        }
        match plan.engine {
            DatabaseEngineType::Local => {
                let name = plan.db.clone();
                let key = plan.db;
                let database = Database::create_local(name);
                alist_upsert(&mut self.databases, key, database);
                Ok(CatalogAction::Done)
            },
            DatabaseEngineType::Remote => Ok(CatalogAction::DelegateCreate(plan)),
        }
    }

    /// Drop a database. A local database is removed here; a remote one, or a
    /// name unknown locally while a store is configured, is delegated; a name
    /// unknown everywhere succeeds silently only with the if-exists flag.
    pub fn drop_database(&mut self, plan: DropDatabasePlan) -> (r: Result<
        CatalogAction,
        ErrorCode,
    >)
        requires
            old(self).wf(),
        ensures
            final(self).wf(),
            final(self).conf == old(self).conf,
            final(self).table_functions == old(self).table_functions,
            (alist_contains(old(self).databases@, plan.db@) && alist_get(
                old(self).databases@,
                plan.db@,
            ).engine == DatabaseEngineType::Local) ==> {
                &&& r matches Ok(CatalogAction::Done)
                &&& !alist_contains(final(self).databases@, plan.db@)
                &&& forall|k: Seq<char>|
                    k != plan.db@ ==> #[trigger] alist_contains(final(self).databases@, k)
                        == alist_contains(old(self).databases@, k)
                &&& forall|k: Seq<char>|
                    k != plan.db@ && alist_contains(old(self).databases@, k) ==> #[trigger]
                        alist_get(final(self).databases@, k) == alist_get(old(self).databases@, k)
            },
            (alist_contains(old(self).databases@, plan.db@) && alist_get(
                old(self).databases@,
                plan.db@,
            ).engine != DatabaseEngineType::Local) ==> final(self).databases == old(
                self,
            ).databases && (r matches Ok(CatalogAction::DelegateDrop(p)) && p == plan),
            (!alist_contains(old(self).databases@, plan.db@) && old(self).remote_configured())
                ==> final(self).databases == old(self).databases && (r matches Ok(
                CatalogAction::DelegateDrop(p),
            ) && p == plan),
            (!alist_contains(old(self).databases@, plan.db@) && !old(self).remote_configured())
                ==> final(self).databases == old(self).databases && (if plan.if_exists {
                r matches Ok(CatalogAction::Done)
            } else {
                r matches Err(ErrorCode::UnknownDatabase(s)) && s@ == plan.db@
            }),
    {
        match find_key(&self.databases, &plan.db) {
            Some(i) => {
                proof {
                    lemma_alist_get(self.databases@, plan.db@, i as int);
                }
                if self.databases[i].1.is_local() {
                    alist_remove(&mut self.databases, i);
                    Ok(CatalogAction::Done)
                } else {
                    Ok(CatalogAction::DelegateDrop(plan))
                }
            },
            None => {
                if !self.conf.store_address.as_str().is_empty() {
                    Ok(CatalogAction::DelegateDrop(plan))
                } else if plan.if_exists {
                    Ok(CatalogAction::Done)
                } else {
                    Err(ErrorCode::UnknownDatabase(plan.db.as_str().to_owned()))
                }
            },
        }
    }
}

/// Whether a create of this plan succeeds on this catalog state: always,
/// unless the name is taken and the if-not-exists flag is off.
pub open spec fn create_is_ok(c: DatabaseCatalog, plan: CreateDatabasePlan) -> bool {
    !alist_contains(c.databases@, plan.db@) || plan.if_not_exists
}

/// Catalog idempotence: once a create has registered a name (as every
/// successful local create does), a second create of the same name succeeds
/// exactly when its if-not-exists flag is set, and in either case leaves the
/// registry unchanged (by [`DatabaseCatalog::create_database`]'s contract).
pub proof fn lemma_create_database_idempotence(mid: DatabaseCatalog, plan: CreateDatabasePlan)
    requires
        mid.wf(),
        alist_contains(mid.databases@, plan.db@),
    ensures
        create_is_ok(mid, plan) == plan.if_not_exists,
{
}

} // verus!
