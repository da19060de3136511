//! Schema migrations: which migration files to apply, and in what order.

use std::path::PathBuf;
use vstd::prelude::*;
use crate::text::{chars_of, str_eq};

verus! {

/// A file-system path (`std::path::PathBuf`), carried through verified code
/// without looking inside.
#[verifier::external_type_specification]
#[verifier::external_body]
pub struct ExPathBuf(PathBuf);

/// A migration script: its identifier (the file name without `.sql`), where it
/// was read from, and the SQL it runs.
pub struct MigrationFile {
    pub id: String,
    pub path: PathBuf,
    pub sql: String,
}

/// Strict lexicographic order on character sequences, comparing characters by
/// code point; for strings this is the order of `String`'s `Ord`, since UTF-8
/// keeps code-point order.
pub open spec fn lex_lt(a: Seq<char>, b: Seq<char>) -> bool
    decreases a.len(),
{
    if a.len() == 0 {
        b.len() > 0
    } else if b.len() == 0 {
        false
    } else if a[0] != b[0] {
        (a[0] as u32) < (b[0] as u32)
    } else {
        lex_lt(a.drop_first(), b.drop_first())
    }
}

/// `a` comes before `b` or equals it.
pub open spec fn lex_le(a: Seq<char>, b: Seq<char>) -> bool {
    !lex_lt(b, a)
}

/// The files stand in order of their identifiers.
pub open spec fn sorted_by_id(s: Seq<MigrationFile>) -> bool {
    forall|i: int, j: int| 0 <= i < j < s.len() ==> lex_le(#[trigger] s[i].id@, #[trigger] s[j].id@)
}

/// No sequence comes strictly before itself.
pub proof fn lemma_lex_lt_irreflexive(a: Seq<char>)
    ensures
        !lex_lt(a, a),
    decreases a.len(),
{
    if a.len() > 0 {
        lemma_lex_lt_irreflexive(a.drop_first());
    }
}

/// The strict order is transitive.
pub proof fn lemma_lex_lt_transitive(a: Seq<char>, b: Seq<char>, c: Seq<char>)
    requires
        lex_lt(a, b),
        lex_lt(b, c),
    ensures
        lex_lt(a, c),
    decreases a.len(),
{
    if a.len() > 0 && b.len() > 0 && c.len() > 0 {
        if a[0] == b[0] && b[0] == c[0] {
            lemma_lex_lt_transitive(a.drop_first(), b.drop_first(), c.drop_first());
        }
    }
}

/// Of two different sequences, one comes strictly before the other.
pub proof fn lemma_lex_lt_total(a: Seq<char>, b: Seq<char>)
    ensures
        a == b || lex_lt(a, b) || lex_lt(b, a),
    decreases a.len(),
{
    if a.len() == 0 && b.len() == 0 {
        assert(a =~= b);
    } else if a.len() > 0 && b.len() > 0 {
        if a[0] == b[0] {
            lemma_lex_lt_total(a.drop_first(), b.drop_first());
            if a.drop_first() == b.drop_first() {
                assert(a =~= seq![a[0]] + a.drop_first());
                assert(b =~= seq![b[0]] + b.drop_first());
            }
        } else {
            vstd::utf8::char_u32_cast(a[0], a[0] as u32);
            vstd::utf8::char_u32_cast(b[0], b[0] as u32);
        }
    }
}

/// The non-strict order is transitive.
pub proof fn lemma_lex_le_transitive(a: Seq<char>, b: Seq<char>, c: Seq<char>)
    requires
        lex_le(a, b),
        lex_le(b, c),
    ensures
        lex_le(a, c),
{
    if lex_lt(c, a) {
        lemma_lex_lt_total(a, b);
        if a == b {
        } else if lex_lt(a, b) {
            lemma_lex_lt_transitive(c, a, b);
        }
    }
}

proof fn lemma_lex_lt_skip(a: Seq<char>, b: Seq<char>, i: int)
    requires
        0 <= i < a.len(),
        i < b.len(),
        a[i] == b[i],
    ensures
        lex_lt(a.skip(i), b.skip(i)) == lex_lt(a.skip(i + 1), b.skip(i + 1)),
{
    assert(a.skip(i).drop_first() =~= a.skip(i + 1));
    assert(b.skip(i).drop_first() =~= b.skip(i + 1));
}

/// Whether `a` comes strictly before `b`.
pub fn id_less(a: &String, b: &String) -> (r: bool)
    ensures
        r == lex_lt(a@, b@),
{
    let ca = chars_of(a.as_str());
    let cb = chars_of(b.as_str());
    let mut i: usize = 0;
    assert(a@.skip(0) =~= a@);
    assert(b@.skip(0) =~= b@);
    while i < ca.len() && i < cb.len()
        invariant
            ca@ == a@,
            cb@ == b@,
            i <= ca.len(),
            i <= cb.len(),
            lex_lt(a@, b@) == lex_lt(a@.skip(i as int), b@.skip(i as int)),
        decreases ca.len() - i,
    {
        let x = ca[i];
        let y = cb[i];
        if x != y {
            let xu = x as u32;
            let yu = y as u32;
            assert(a@.skip(i as int)[0] == x);
            assert(b@.skip(i as int)[0] == y);
            return xu < yu;
        }
        proof {
            lemma_lex_lt_skip(a@, b@, i as int);
        }
        i += 1;
    }
    i == ca.len() && i < cb.len()
}

/// `r` is `s` rearranged: position `k` of `r` holds element `perm[k]` of `s`,
/// and no element of `s` is used twice.
pub open spec fn is_rearrangement(r: Seq<MigrationFile>, s: Seq<MigrationFile>, perm: Seq<int>) -> bool {
    &&& perm.len() == s.len()
    &&& r.len() == s.len()
    &&& forall|k: int| 0 <= k < perm.len() ==> 0 <= #[trigger] perm[k] < s.len() && r[k] == s[perm[k]]
    &&& forall|k1: int, k2: int|
        0 <= k1 < k2 < perm.len() ==> #[trigger] perm[k1] != #[trigger] perm[k2]
}

/// Files with equal identifiers stand in `r` in the order they had before the
/// rearrangement `perm`.
pub open spec fn keeps_order_of_equals(r: Seq<MigrationFile>, perm: Seq<int>) -> bool {
    forall|k1: int, k2: int|
        0 <= k1 < k2 < r.len() && #[trigger] r[k1].id@ == #[trigger] r[k2].id@ ==> perm[k1] < perm[k2]
}

proof fn lemma_insert_keeps_sorted(old_out: Seq<MigrationFile>, p: int, x: MigrationFile)
    requires
        0 <= p <= old_out.len(),
        sorted_by_id(old_out),
        forall|k: int| 0 <= k < p ==> lex_lt(#[trigger] old_out[k].id@, x.id@),
        p < old_out.len() ==> !lex_lt(old_out[p].id@, x.id@),
    ensures
        sorted_by_id(old_out.insert(p, x)),
{
    let out = old_out.insert(p, x);
    assert forall|i: int, j: int| 0 <= i < j < out.len() implies lex_le(
        #[trigger] out[i].id@,
        #[trigger] out[j].id@,
    ) by {
        if j < p {
            assert(out[i] == old_out[i] && out[j] == old_out[j]);
        } else if j == p {
            assert(lex_lt(old_out[i].id@, x.id@));
            lemma_lex_lt_irreflexive(x.id@);
            lemma_lex_lt_total(x.id@, old_out[i].id@);
            if lex_lt(x.id@, old_out[i].id@) {
                lemma_lex_lt_transitive(x.id@, old_out[i].id@, x.id@);
            }
        } else if i == p {
            assert(out[j] == old_out[j - 1]);
            if p < j - 1 {
                assert(lex_le(old_out[p].id@, old_out[j - 1].id@));
            } else {
                lemma_lex_lt_irreflexive(old_out[p].id@);
            }
            lemma_lex_le_transitive(x.id@, old_out[p].id@, old_out[j - 1].id@);
        } else if i < p {
            assert(out[i] == old_out[i] && out[j] == old_out[j - 1]);
        } else {
            assert(out[i] == old_out[i - 1] && out[j] == old_out[j - 1]);
        }
    }
}

/// Puts the migration files in order of their identifiers; files with equal
/// identifiers keep their order (the sort is stable).
pub fn sort_migration_files(migration_files: &mut Vec<MigrationFile>)
    ensures
        sorted_by_id(final(migration_files)@),
        final(migration_files)@.to_multiset() == old(migration_files)@.to_multiset(),
        exists|perm: Seq<int>|
            is_rearrangement(final(migration_files)@, old(migration_files)@, perm)
                && keeps_order_of_equals(final(migration_files)@, perm),
{
    broadcast use vstd::seq_lib::group_to_multiset_ensures;
    let ghost all = migration_files@;
    let ghost n = all.len();
    let ghost mut perm: Seq<int> = Seq::empty();
    let mut out: Vec<MigrationFile> = Vec::new();
    assert(all.take(n as int) =~= all);
    while migration_files.len() > 0
        invariant
            n == all.len(),
            all == old(migration_files)@,
            migration_files@ == all.take(migration_files@.len() as int),
            migration_files@.len() <= n,
            out@.len() == n - migration_files@.len(),
            perm.len() == out@.len(),
            forall|k: int|
                0 <= k < perm.len() ==> migration_files@.len() <= #[trigger] perm[k] < n
                    && out@[k] == all[perm[k]],
            forall|k1: int, k2: int|
                0 <= k1 < k2 < perm.len() ==> #[trigger] perm[k1] != #[trigger] perm[k2],
            keeps_order_of_equals(out@, perm),
            sorted_by_id(out@),
            out@.to_multiset().add(migration_files@.to_multiset()) == all.to_multiset(),
        decreases migration_files.len(),
    {
        let ghost before = migration_files@;
        let ghost m = before.len() - 1;
        let x = migration_files.pop().unwrap();
        proof {
            assert(before =~= migration_files@.push(x));
            vstd::seq_lib::to_multiset_build(migration_files@, x);
            assert(x == all[m]);
            assert(migration_files@ =~= all.take(m));
        }
        let mut p: usize = 0;
        while p < out.len() && id_less(&out[p].id, &x.id)
            invariant
                p <= out.len(),
                forall|k: int| 0 <= k < p ==> lex_lt(#[trigger] out@[k].id@, x.id@),
            decreases out.len() - p,
        {
            p += 1;
        }
        let ghost old_out = out@;
        let ghost old_perm = perm;
        out.insert(p, x);
        proof {
            vstd::seq_lib::to_multiset_insert(old_out, p as int, x);
            lemma_insert_keeps_sorted(old_out, p as int, x);
            perm = old_perm.insert(p as int, m);
            assert forall|k: int|
                0 <= k < perm.len() implies m <= #[trigger] perm[k] < n && out@[k] == all[perm[k]] by {
                if k < p {
                    assert(perm[k] == old_perm[k]);
                } else if k > p {
                    assert(perm[k] == old_perm[k - 1]);
                }
            }
            assert forall|k1: int, k2: int|
                0 <= k1 < k2 < perm.len() implies #[trigger] perm[k1] != #[trigger] perm[k2] by {
                if k1 != p && k2 != p {
                    let j1 = if k1 < p { k1 } else { k1 - 1 };
                    let j2 = if k2 < p { k2 } else { k2 - 1 };
                    assert(perm[k1] == old_perm[j1] && perm[k2] == old_perm[j2]);
                } else if k1 == p {
                    assert(perm[k2] == old_perm[k2 - 1]);
                } else {
                    assert(perm[k1] == old_perm[k1]);
                }
            }
            assert forall|k1: int, k2: int|
                0 <= k1 < k2 < out@.len() && #[trigger] out@[k1].id@ == #[trigger] out@[k2].id@
                implies perm[k1] < perm[k2] by {
                if k1 != p && k2 != p {
                    let j1 = if k1 < p { k1 } else { k1 - 1 };
                    let j2 = if k2 < p { k2 } else { k2 - 1 };
                    assert(perm[k1] == old_perm[j1] && perm[k2] == old_perm[j2]);
                    assert(out@[k1] == old_out[j1] && out@[k2] == old_out[j2]);
                } else if k1 == p {
                    assert(perm[k2] == old_perm[k2 - 1]);
                } else {
                    assert(out@[k1] == old_out[k1]);
                    lemma_lex_lt_irreflexive(x.id@);
                }
            }
        }
    }
    *migration_files = out;
}

/// The position of the last `.` in `name`, or -1 when there is none.
pub open spec fn last_dot(name: Seq<char>) -> int
    decreases name.len(),
{
    if name.len() == 0 {
        -1
    } else if name.last() == '.' {
        name.len() - 1
    } else {
        last_dot(name.drop_last())
    }
}

/// The migration identifier named by file name `name`: the file stem, when
/// the extension is `sql`. As for `Path::extension` and `Path::file_stem`,
/// the extension is what follows the last `.`, unless that `.` is the first
/// character of the name.
pub open spec fn migration_id_of(name: Seq<char>) -> Option<Seq<char>> {
    let k = last_dot(name);
    if k >= 1 && name.skip(k + 1) == "sql"@ {
        Some(name.take(k))
    } else {
        None
    }
}

proof fn lemma_last_dot_take(name: Seq<char>, i: int)
    requires
        0 <= i <= name.len(),
        forall|j: int| i <= j < name.len() ==> #[trigger] name[j] != '.',
    ensures
        last_dot(name) == last_dot(name.take(i)),
    decreases name.len() - i,
{
    if i < name.len() {
        lemma_last_dot_take(name, i + 1);
        let t = name.take(i + 1);
        assert(t.last() == name[i]);
        assert(t.drop_last() =~= name.take(i));
    } else {
        assert(name.take(i) =~= name);
    }
}

/// The migration identifier named by the file name `file_name`, if it names
/// an SQL migration.
pub fn migration_id(file_name: &str) -> (r: Option<String>)
    ensures
        match migration_id_of(file_name@) {
            Some(id) => r is Some && r->0@ == id,
            None => r is None,
        },
{
    let cs = chars_of(file_name);
    let mut i: usize = cs.len();
    while i > 0 && cs[i - 1] != '.'
        invariant
            cs@ == file_name@,
            i <= cs.len(),
            forall|j: int| i <= j < cs.len() ==> #[trigger] cs@[j] != '.',
        decreases i,
    {
        i -= 1;
    }
    proof {
        lemma_last_dot_take(cs@, i as int);
        if i > 0 {
            let t = cs@.take(i as int);
            assert(t.last() == cs@[i - 1]);
        } else {
            assert(cs@.take(0) =~= Seq::<char>::empty());
        }
        assert(last_dot(file_name@) == i - 1);
    }
    if i < 2 {
        return None;
    }
    let k = i - 1;
    let mut ext = String::new();
    let mut j: usize = i;
    while j < cs.len()
        invariant
            cs@ == file_name@,
            i <= j <= cs.len(),
            ext@ == cs@.subrange(i as int, j as int),
        decreases cs.len() - j,
    {
        ext.push(cs[j]);
        assert(cs@.subrange(i as int, j + 1) =~= cs@.subrange(i as int, j as int).push(cs@[j as int]));
        j += 1;
    }
    assert(ext@ =~= file_name@.skip(k + 1));
    if !str_eq(ext.as_str(), "sql") {
        return None;
    }
    let mut stem = String::new();
    let mut j: usize = 0;
    while j < k
        invariant
            cs@ == file_name@,
            j <= k < cs.len(),
            stem@ == cs@.take(j as int),
        decreases k - j,
    {
        stem.push(cs[j]);
        assert(cs@.take(j + 1) =~= cs@.take(j as int).push(cs@[j as int]));
        j += 1;
    }
    Some(stem)
}

/// The identifiers of the applied migrations.
pub open spec fn applied_ids(applied: Seq<String>) -> Seq<Seq<char>> {
    applied.map_values(|s: String| s@)
}

/// The files whose identifiers are not among `applied`, in their given order.
pub open spec fn pending(files: Seq<MigrationFile>, applied: Seq<Seq<char>>) -> Seq<MigrationFile> {
    files.filter(|m: MigrationFile| !applied.contains(m.id@))
}

/// Whether `id` is among the applied identifiers.
pub fn is_applied(id: &String, applied: &Vec<String>) -> (r: bool)
    ensures
        r == applied_ids(applied@).contains(id@),
{
    let mut i: usize = 0;
    while i < applied.len()
        invariant
            i <= applied.len(),
            forall|k: int| 0 <= k < i ==> applied@[k]@ != id@,
        decreases applied.len() - i,
    {
        if str_eq(applied[i].as_str(), id.as_str()) {
            assert(applied_ids(applied@)[i as int] == id@);
            return true;
        }
        i += 1;
    }
    assert(!applied_ids(applied@).contains(id@)) by {
        if applied_ids(applied@).contains(id@) {
            let k = choose|k: int| 0 <= k < applied_ids(applied@).len() && applied_ids(applied@)[k] == id@;
            assert(applied@[k]@ == id@);
        }
    }
    false
}

/// The migration files that have not been applied yet, in their given order.
pub fn get_pending_migrations(
    migration_files: Vec<MigrationFile>,
    applied_migrations: Vec<String>,
) -> (r: Vec<MigrationFile>)
    ensures
        r@ == pending(migration_files@, applied_ids(applied_migrations@)),
{
    let ghost ids = applied_ids(applied_migrations@);
    let ghost pred = |m: MigrationFile| !ids.contains(m.id@);
    let mut rest = migration_files;
    let ghost all = rest@;
    let mut out: Vec<MigrationFile> = Vec::new();
    assert(all.skip(0) =~= all);
    while rest.len() > 0
        invariant
            rest@.len() <= all.len(),
            rest@ == all.skip(all.len() - rest@.len()),
            out@ == all.take(all.len() - rest@.len()).filter(pred),
            ids == applied_ids(applied_migrations@),
            pred == (|m: MigrationFile| !ids.contains(m.id@)),
        decreases rest.len(),
    {
        let ghost k = all.len() - rest@.len();
        let m = rest.remove(0);
        proof {
            assert(m == all[k]);
            assert(all.take(k + 1) =~= all.take(k).push(m));
            all.take(k).lemma_filter_push(m, pred);
            assert(rest@ =~= all.skip(k + 1));
        }
        if !is_applied(&m.id, &applied_migrations) {
            out.push(m);
        }
    }
    assert(all.take(all.len() as int) =~= all);
    out
}

proof fn lemma_filter_keeps_sorted(files: Seq<MigrationFile>, pred: spec_fn(MigrationFile) -> bool)
    requires
        sorted_by_id(files),
    ensures
        sorted_by_id(files.filter(pred)),
    decreases files.len(),
{
    reveal(Seq::filter);
    if files.len() > 0 {
        let rest = files.drop_last();
        assert(sorted_by_id(rest)) by {
            assert forall|i: int, j: int| 0 <= i < j < rest.len() implies lex_le(
                #[trigger] rest[i].id@,
                #[trigger] rest[j].id@,
            ) by {
                assert(rest[i] == files[i] && rest[j] == files[j]);
            }
        }
        lemma_filter_keeps_sorted(rest, pred);
        let f = rest.filter(pred);
        if pred(files.last()) {
            let g = f.push(files.last());
            assert forall|i: int, j: int| 0 <= i < j < g.len() implies lex_le(
                #[trigger] g[i].id@,
                #[trigger] g[j].id@,
            ) by {
                if j < f.len() {
                    assert(g[i] == f[i] && g[j] == f[j]);
                } else {
                    assert(g[i] == f[i]);
                    assert(f.contains(f[i]));
                    rest.lemma_filter_contains_rev(pred, f[i]);
                    let k = choose|k: int| 0 <= k < rest.len() && rest[k] == f[i];
                    assert(files[k] == rest[k]);
                    assert(lex_le(files[k].id@, files[files.len() - 1].id@));
                }
            }
        }
    }
}

/// Picking the pending migrations out of a list in identifier order keeps
/// them in identifier order, so they are applied in that order.
pub proof fn lemma_pending_stays_sorted(files: Seq<MigrationFile>, applied: Seq<Seq<char>>)
    requires
        sorted_by_id(files),
    ensures
        sorted_by_id(pending(files, applied)),
{
    lemma_filter_keeps_sorted(files, |m: MigrationFile| !applied.contains(m.id@));
}

/// Once the pending migrations have been applied and recorded, none is
/// pending any more.
pub proof fn lemma_applied_migrations_not_pending(files: Seq<MigrationFile>, applied: Seq<Seq<char>>)
    ensures
        pending(
            files,
            applied + pending(files, applied).map_values(|m: MigrationFile| m.id@),
        ).len() == 0,
{
    let p = pending(files, applied);
    let ids = p.map_values(|m: MigrationFile| m.id@);
    let now = applied + ids;
    let pred = |m: MigrationFile| !now.contains(m.id@);
    assert forall|i: int| 0 <= i < files.len() implies !pred(#[trigger] files[i]) by {
        let f = files[i];
        if applied.contains(f.id@) {
            let k = choose|k: int| 0 <= k < applied.len() && applied[k] == f.id@;
            assert(now[k] == f.id@);
        } else {
            files.lemma_filter_contains(|m: MigrationFile| !applied.contains(m.id@), i);
            let j = choose|j: int| 0 <= j < p.len() && p[j] == f;
            assert(ids[j] == f.id@);
            assert(now[applied.len() + j] == f.id@);
        }
    }
    assert(files.all(|x: MigrationFile| !pred(x)));
    files.lemma_all_neg_filter_empty(pred);
    assert(pending(files, now) == files.filter(pred));
}

} // verus!
