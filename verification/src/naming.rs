//! Names of pools, filesystems and the files that describe them.

use vstd::prelude::*;
use crate::error::ZfsBackupError;
use crate::tables::{lemma_text_lt_irreflexive, lemma_text_lt_transitive, text_less, text_lt};
use vstd::seq_lib::{to_multiset_build, to_multiset_insert};
use crate::text::{
    chars_of, concat, contains_char, push_char, lemma_split_nonempty, lowercase, nth_piece, replace_slashes,
    slashes_replaced, split_on, string_from_range, to_lowercase_text, trim_text, trimmed, views,
};

verus! {

/// The canonical form of a pool name: trimmed, then lowercased.
pub open spec fn normalized_pool_name(raw: Seq<char>) -> Seq<char> {
    lowercase(trimmed(raw))
}

/// `raw.trim().to_lowercase()`.
pub fn normalize_pool_name(raw: &str) -> (res: String)
    ensures
        res@ == normalized_pool_name(raw@),
{
    let t = trim_text(raw);
    to_lowercase_text(t.as_str())
}

/// The message with which a pool name is refused, if it is.
pub open spec fn pool_name_problem(name: Seq<char>) -> Option<Seq<char>> {
    if name.len() == 0 {
        Some("pool name must not be empty"@)
    } else if name.contains(' ') {
        Some("pool name '"@ + name + "' must not contain spaces"@)
    } else {
        None
    }
}

/// Accepts a pool name that is not empty and holds no space.
pub fn validate_pool_name(name: &str) -> (res: Result<(), ZfsBackupError>)
    ensures
        res is Ok <==> pool_name_problem(name@) is None,
        res matches Err(e) ==> (e matches ZfsBackupError::ConfigError(m) && pool_name_problem(
            name@,
        ) == Some(m@)),
{
    if name.is_empty() {
        return Err(ZfsBackupError::ConfigError(String::from_str("pool name must not be empty")));
    }
    if contains_char(name, ' ') {
        let a = concat("pool name '", name);
        let m = concat(a.as_str(), "' must not contain spaces");
        return Err(ZfsBackupError::ConfigError(m));
    }
    Ok(())
}

/// The prefix of the temporary state database of a local pool: the pool
/// name with each `/` replaced by `--`, then `--`, after which the random
/// part of the file name follows (`{pool}--XXXXXXXX.db`).
pub open spec fn temp_db_prefix_of(pool: Seq<char>) -> Seq<char> {
    slashes_replaced(pool) + seq!['-', '-']
}

/// Computes `temp_db_prefix_of`.
pub fn temp_db_prefix(pool: &str) -> (res: String)
    ensures
        res@ == temp_db_prefix_of(pool@),
{
    let mut r = replace_slashes(pool);
    push_char(&mut r, '-');
    push_char(&mut r, '-');
    assert(r@ =~= slashes_replaced(pool@) + seq!['-', '-']);
    r
}

/// The pool a filesystem belongs to: the part of its name before the first
/// `/` (`remote_fs.split('/').next().unwrap_or("")`).
pub open spec fn pool_of(fs_name: Seq<char>) -> Seq<char> {
    split_on(fs_name, '/')[0]
}

/// Computes `pool_of`.
pub fn pool_of_filesystem(fs_name: &str) -> (res: String)
    ensures
        res@ == pool_of(fs_name@),
{
    proof {
        lemma_split_nonempty(fs_name@, '/');
    }
    nth_piece(fs_name, '/', 0)
}

/// `parent/child`.
pub open spec fn child_name(parent: Seq<char>, child: Seq<char>) -> Seq<char> {
    parent + seq!['/'] + child
}

/// Computes `child_name`.
pub fn child_path(parent: &str, child: &str) -> (res: String)
    ensures
        res@ == child_name(parent@, child@),
{
    let a = concat(parent, "/");
    let r = concat(a.as_str(), child);
    proof {
        reveal_strlit("/");
    }
    r
}

/// The pool name of a configuration file: the name without its `.pool`
/// extension, for a file whose extension (the part after its last `.`,
/// where that `.` is not the first character) is `pool`.
pub open spec fn pool_file_stem(file_name: Seq<char>) -> Option<Seq<char>> {
    let n = file_name.len();
    if n > 5 && file_name.subrange(n - 5, n as int) == ".pool"@ {
        Some(file_name.take(n - 5))
    } else {
        None
    }
}

/// Computes `pool_file_stem`: which directory entries are pool
/// configurations, and the pool name each one gives.
pub fn pool_name_for_file(file_name: &str) -> (res: Option<String>)
    ensures
        res is Some <==> pool_file_stem(file_name@) is Some,
        res matches Some(s) ==> Some(s@) == pool_file_stem(file_name@),
{
    let cs = chars_of(file_name);
    let n = cs.len();
    if n <= 5 {
        return None;
    }
    let ext = string_from_range(&cs, n - 5, n);
    let wanted = String::from_str(".pool");
    if ext == wanted {
        Some(string_from_range(&cs, 0, n - 5))
    } else {
        None
    }
}


/// The prefix of a temporary database names no directory: it holds no `/`.
pub proof fn law_temp_db_prefix_has_no_slash(pool: Seq<char>)
    ensures
        !temp_db_prefix_of(pool).contains('/'),
{
    lemma_slashes_replaced_has_no_slash(pool);
    let a = slashes_replaced(pool);
    let b = seq!['-', '-'];
    if (a + b).contains('/') {
        let i = choose|i: int| 0 <= i < (a + b).len() && (a + b)[i] == '/';
        if i < a.len() {
            assert(a[i] == '/');
        } else {
            assert(b[i - a.len()] == '/');
        }
    }
}

/// Replacing the slashes leaves none.
proof fn lemma_slashes_replaced_has_no_slash(pool: Seq<char>)
    ensures
        !slashes_replaced(pool).contains('/'),
    decreases pool.len(),
{
    if pool.len() > 0 {
        lemma_slashes_replaced_has_no_slash(pool.drop_last());
        let a = slashes_replaced(pool.drop_last());
        let b = if pool.last() == '/' {
            seq!['-', '-']
        } else {
            seq![pool.last()]
        };
        assert(slashes_replaced(pool) == a + b);
        if (a + b).contains('/') {
            let i = choose|i: int| 0 <= i < (a + b).len() && (a + b)[i] == '/';
            if i < a.len() {
                assert(a[i] == '/');
            } else {
                assert(b[i - a.len()] == '/');
            }
        }
    }
}

/// The configuration file `NAME.pool` configures the pool `NAME`, for any
/// non-empty `NAME`.
pub proof fn law_pool_file_names_its_pool(stem: Seq<char>)
    requires
        stem.len() > 0,
    ensures
        pool_file_stem(stem + ".pool"@) == Some(stem),
{
    reveal_strlit(".pool");
    let f = stem + ".pool"@;
    assert(f.subrange(f.len() - 5, f.len() as int) == ".pool"@);
    assert(f.take(f.len() - 5) == stem);
}

/// Whether a directory entry name is a pool configuration.
pub open spec fn is_pool_file() -> spec_fn(Seq<char>) -> bool {
    |n: Seq<char>| pool_file_stem(n) is Some
}

/// Whether texts are in text order (none before an earlier one).
pub open spec fn text_sorted(v: Seq<Seq<char>>) -> bool {
    forall|i: int, j: int| 0 <= i < j < v.len() ==> !text_lt(#[trigger] v[j], #[trigger] v[i])
}

/// The entry names of a list of (entry name, pool name) pairs.
pub open spec fn entry_names(v: Seq<(String, String)>) -> Seq<Seq<char>> {
    v.map_values(|p: (String, String)| p.0@)
}

/// The pool configurations among the entries of a directory, in the order
/// of their names (the order of their paths in that directory): each
/// `NAME.pool` entry with the pool `NAME` it configures.
pub fn pool_files_in_order(entries: &Vec<String>) -> (res: Vec<(String, String)>)
    ensures
        text_sorted(entry_names(res@)),
        entry_names(res@).to_multiset() == views(entries@).filter(is_pool_file()).to_multiset(),
        forall|k: int|
            0 <= k < res@.len() ==> Some((#[trigger] res@[k]).1@) == pool_file_stem(res@[k].0@),
{
    let ghost es = views(entries@);
    let mut out: Vec<(String, String)> = Vec::new();
    let mut i: usize = 0;
    proof {
        reveal(Seq::filter);
        assert(es.take(0) == Seq::<Seq<char>>::empty());
        assert(entry_names(out@) =~= Seq::<Seq<char>>::empty());
    }
    while i < entries.len()
        invariant
            es == views(entries@),
            i <= entries@.len(),
            text_sorted(entry_names(out@)),
            entry_names(out@).to_multiset() == es.take(i as int).filter(is_pool_file()).to_multiset(),
            forall|k: int|
                0 <= k < out@.len() ==> Some((#[trigger] out@[k]).1@) == pool_file_stem(out@[k].0@),
        decreases entries@.len() - i,
    {
        proof {
            reveal(Seq::filter);
            assert(es.take(i + 1).drop_last() == es.take(i as int));
            assert(es.take(i + 1).last() == es[i as int]);
            assert(es[i as int] == entries@[i as int]@);
        }
        match pool_name_for_file(entries[i].as_str()) {
            None => {
                assert(es.take(i + 1).filter(is_pool_file()) == es.take(i as int).filter(is_pool_file()));
            },
            Some(pool) => {
                let name = entries[i].clone();
                let ghost ns = entry_names(out@);
                let mut p: usize = 0;
                while p < out.len() && !text_less(name.as_str(), out[p].0.as_str())
                    invariant
                        ns == entry_names(out@),
                        p <= out@.len(),
                        forall|k: int| 0 <= k < p ==> !text_lt(name@, #[trigger] ns[k]),
                    decreases out@.len() - p,
                {
                    p = p + 1;
                }
                proof {
                    assert forall|k: int| p <= k < ns.len() implies !text_lt(#[trigger] ns[k], name@) by {
                        assert(text_lt(name@, ns[p as int]));
                        if p < k {
                            assert(!text_lt(ns[k], ns[p as int]));
                        }
                        if text_lt(ns[k], name@) {
                            lemma_text_lt_transitive(ns[k], name@, ns[p as int]);
                            if k == p {
                                lemma_text_lt_irreflexive(ns[k]);
                            }
                        }
                    }
                }
                let ghost old_out = out@;
                let ghost entry = (name, pool);
                out.insert(p, (name, pool));
                let ghost ns2 = entry_names(out@);
                assert(out@ == old_out.insert(p as int, entry));
                assert(ns2 =~= ns.insert(p as int, entry.0@));
                proof {
                    to_multiset_insert(ns, p as int, entry.0@);
                    to_multiset_build(es.take(i as int).filter(is_pool_file()), es[i as int]);
                    assert(es.take(i + 1).filter(is_pool_file()) == es.take(i as int).filter(
                        is_pool_file(),
                    ).push(es[i as int]));
                    assert forall|x: int, y: int|
                        0 <= x < y < ns2.len() implies !text_lt(#[trigger] ns2[y], #[trigger] ns2[x]) by {
                        if y < p {
                            assert(ns2[x] == ns[x] && ns2[y] == ns[y]);
                        } else if y == p {
                            assert(ns2[y] == entry.0@ && ns2[x] == ns[x]);
                        } else if x < p {
                            assert(ns2[y] == ns[y - 1] && ns2[x] == ns[x]);
                        } else if x == p {
                            assert(ns2[x] == entry.0@ && ns2[y] == ns[y - 1]);
                        } else {
                            assert(ns2[x] == ns[x - 1] && ns2[y] == ns[y - 1]);
                        }
                    }
                    assert forall|k: int| 0 <= k < out@.len() implies Some((#[trigger] out@[k]).1@)
                        == pool_file_stem(out@[k].0@) by {
                        if k < p {
                            assert(out@[k] == old_out[k]);
                        } else if k > p {
                            assert(out@[k] == old_out[k - 1]);
                        }
                    }
                }
            },
        }
        i = i + 1;
    }
    assert(es.take(entries@.len() as int) == es);
    out
}

} // verus!
