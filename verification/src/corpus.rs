use vstd::prelude::*;
use vstd::multiset::Multiset;

use crate::model::{default_locale, Error, Recipe};

verus! {

/// Some recipe in `rs` carries the identifier `id`.
pub open spec fn has_id(rs: Seq<Recipe>, id: Seq<char>) -> bool {
    exists|i: int| 0 <= i < rs.len() && rs[i].id@ == id
}

/// Identifiers are pairwise distinct.
pub open spec fn unique_ids(rs: Seq<Recipe>) -> bool {
    forall|i: int, j: int| 0 <= i < j < rs.len() ==> rs[i].id@ != rs[j].id@
}

/// What identifier deduplication keeps: each recipe whose identifier no
/// earlier recipe claims, in input order.
pub open spec fn dedup_spec(rs: Seq<Recipe>) -> Seq<Recipe>
    decreases rs.len(),
{
    if rs.len() == 0 {
        Seq::<Recipe>::empty()
    } else if has_id(rs.drop_last(), rs.last().id@) {
        dedup_spec(rs.drop_last())
    } else {
        dedup_spec(rs.drop_last()).push(rs.last())
    }
}

/// Deduplication neither invents nor loses any one identifier.
pub proof fn lemma_dedup_has_id(rs: Seq<Recipe>, x: Seq<char>)
    ensures
        has_id(dedup_spec(rs), x) == has_id(rs, x),
    decreases rs.len(),
{
    if rs.len() > 0 {
        lemma_dedup_has_id(rs.drop_last(), x);
        if has_id(rs, x) {
            let i = choose|i: int| 0 <= i < rs.len() && rs[i].id@ == x;
            if i < rs.len() - 1 {
                assert(rs.drop_last()[i] == rs[i]);
                assert(has_id(rs.drop_last(), x));
                if !has_id(rs.drop_last(), rs.last().id@) {
                    let k = choose|k: int|
                        0 <= k < dedup_spec(rs.drop_last()).len() && dedup_spec(rs.drop_last())[k].id@
                            == x;
                    assert(dedup_spec(rs)[k].id@ == x);
                }
            } else {
                if has_id(rs.drop_last(), rs.last().id@) {
                    assert(has_id(rs.drop_last(), x));
                } else {
                    let n = dedup_spec(rs).len();
                    assert(dedup_spec(rs)[n - 1].id@ == x);
                }
            }
        }
        if has_id(dedup_spec(rs), x) {
            let i = choose|i: int| 0 <= i < dedup_spec(rs).len() && dedup_spec(rs)[i].id@ == x;
            if i < dedup_spec(rs.drop_last()).len() {
                assert(dedup_spec(rs.drop_last())[i] == dedup_spec(rs)[i]);
                assert(has_id(rs.drop_last(), x));
                let j = choose|j: int| 0 <= j < rs.drop_last().len() && rs.drop_last()[j].id@ == x;
                assert(rs.drop_last()[j] == rs[j]);
                assert(has_id(rs, x));
            } else {
                assert(dedup_spec(rs)[i] == rs.last());
                assert(rs[rs.len() - 1].id@ == x);
            }
        }
    }
}

/// Deduplication keeps each identifier at most once, and keeps no more
/// recipes than it was given.
pub proof fn lemma_dedup_ids(rs: Seq<Recipe>)
    ensures
        forall|x: Seq<char>|
            #[trigger] has_id(dedup_spec(rs), x) == has_id(rs, x),
        unique_ids(dedup_spec(rs)),
        dedup_spec(rs).len() <= rs.len(),
    decreases rs.len(),
{
    assert forall|x: Seq<char>| #[trigger] has_id(dedup_spec(rs), x) == has_id(rs, x) by {
        lemma_dedup_has_id(rs, x);
    }
    if rs.len() > 0 {
        lemma_dedup_ids(rs.drop_last());
        if !has_id(rs.drop_last(), rs.last().id@) {
            let prev = dedup_spec(rs.drop_last());
            assert forall|i: int, j: int| 0 <= i < j < dedup_spec(rs).len() implies dedup_spec(
                rs,
            )[i].id@ != dedup_spec(rs)[j].id@ by {
                if j == dedup_spec(rs).len() - 1 {
                    assert(dedup_spec(rs)[i] == prev[i]);
                    if prev[i].id@ == rs.last().id@ {
                        assert(has_id(prev, rs.last().id@));
                    }
                }
            }
        }
    }
}

/// Everything deduplication keeps was among the given recipes.
pub proof fn lemma_dedup_subset(rs: Seq<Recipe>)
    ensures
        forall|i: int|
            0 <= i < dedup_spec(rs).len() ==> rs.contains(#[trigger] dedup_spec(rs)[i]),
    decreases rs.len(),
{
    if rs.len() > 0 {
        lemma_dedup_subset(rs.drop_last());
        assert forall|i: int| 0 <= i < dedup_spec(rs).len() implies rs.contains(
            #[trigger] dedup_spec(rs)[i],
        ) by {
            if i < dedup_spec(rs.drop_last()).len() {
                assert(dedup_spec(rs)[i] == dedup_spec(rs.drop_last())[i]);
                let j = choose|j: int|
                    0 <= j < rs.drop_last().len() && rs.drop_last()[j] == dedup_spec(
                        rs.drop_last(),
                    )[i];
                assert(rs[j] == dedup_spec(rs)[i]);
            } else {
                assert(dedup_spec(rs)[i] == rs.last());
                assert(rs[rs.len() - 1] == dedup_spec(rs)[i]);
            }
        }
    }
}

/// The first recipe to claim its identifier is always kept.
pub proof fn lemma_dedup_retains_first(rs: Seq<Recipe>, i: int)
    requires
        0 <= i < rs.len(),
        forall|k: int| 0 <= k < i ==> rs[k].id@ != rs[i].id@,
    ensures
        dedup_spec(rs).contains(rs[i]),
    decreases rs.len(),
{
    if i == rs.len() - 1 {
        assert(!has_id(rs.drop_last(), rs.last().id@)) by {
            if has_id(rs.drop_last(), rs.last().id@) {
                let k = choose|k: int|
                    0 <= k < rs.drop_last().len() && rs.drop_last()[k].id@ == rs.last().id@;
                assert(rs[k].id@ == rs[i].id@);
            }
        }
        let n = dedup_spec(rs).len();
        assert(dedup_spec(rs)[n - 1] == rs[i]);
    } else {
        assert forall|k: int| 0 <= k < i implies rs.drop_last()[k].id@ != rs.drop_last()[i].id@ by {
            assert(rs.drop_last()[k] == rs[k]);
        }
        lemma_dedup_retains_first(rs.drop_last(), i);
        let j = choose|j: int|
            0 <= j < dedup_spec(rs.drop_last()).len() && dedup_spec(rs.drop_last())[j]
                == rs.drop_last()[i];
        assert(dedup_spec(rs)[j] == rs[i]);
    }
}

/// Whether some recipe in `v` carries the identifier `id`.
fn vec_has_id(v: &Vec<Recipe>, id: &String) -> (b: bool)
    ensures
        b == has_id(v@, id@),
{
    let mut i: usize = 0;
    while i < v.len()
        invariant
            0 <= i <= v@.len(),
            forall|j: int| 0 <= j < i ==> v@[j].id@ != id@,
        decreases v@.len() - i,
    {
        if v[i].id == *id {
            return true;
        }
        i += 1;
    }
    false
}

/// Walks the parsed recipes in order and keeps the first recipe for each
/// identifier, exactly as `dedup_spec` describes; the identifiers of the
/// recipes that were skipped come back too, for the caller to surface as
/// warnings. Duplication alone never fails a load.
pub fn dedup_recipes(recipes: Vec<Recipe>) -> (r: (Vec<Recipe>, Vec<String>))
    ensures
        r.0@ == dedup_spec(recipes@),
        unique_ids(r.0@),
        r.0@.len() + r.1@.len() == recipes@.len(),
        forall|k: int| 0 <= k < r.1@.len() ==> has_id(r.0@, r.1@[k]@),
{
    let ghost orig = recipes@;
    let mut rest = recipes;
    let mut kept: Vec<Recipe> = Vec::new();
    let mut skipped: Vec<String> = Vec::new();
    let ghost mut i: int = 0;
    proof {
        assert(orig.subrange(0, 0) =~= Seq::<Recipe>::empty());
        assert(rest@ =~= orig.subrange(0, orig.len() as int));
    }
    while rest.len() > 0
        invariant
            0 <= i <= orig.len(),
            rest@ =~= orig.subrange(i, orig.len() as int),
            kept@ == dedup_spec(orig.subrange(0, i)),
            kept@.len() + skipped@.len() == i,
            forall|k: int| 0 <= k < skipped@.len() ==> has_id(kept@, skipped@[k]@),
        decreases rest@.len(),
    {
        let rec = rest.remove(0);
        proof {
            assert(rec == orig[i]);
            assert(rest@ =~= orig.subrange(i + 1, orig.len() as int));
            assert(orig.subrange(0, i + 1).drop_last() =~= orig.subrange(0, i));
            assert(orig.subrange(0, i + 1).last() == orig[i]);
            lemma_dedup_ids(orig.subrange(0, i));
        }
        let ghost kept0 = kept@;
        if vec_has_id(&kept, &rec.id) {
            skipped.push(rec.id);
        } else {
            kept.push(rec);
            proof {
                assert forall|k: int| 0 <= k < skipped@.len() implies has_id(
                    kept@,
                    skipped@[k]@,
                ) by {
                    let j = choose|j: int| 0 <= j < kept0.len() && kept0[j].id@ == skipped@[k]@;
                    assert(kept@[j] == kept0[j]);
                }
            }
        }
        proof {
            i = i + 1;
        }
    }
    proof {
        assert(orig.subrange(0, orig.len() as int) =~= orig);
        lemma_dedup_ids(orig);
    }
    (kept, skipped)
}

/// Lexicographic order on texts by character code, shorter prefixes first.
pub open spec fn lex_le(a: Seq<char>, b: Seq<char>) -> bool
    decreases a.len(),
{
    if a.len() == 0 {
        true
    } else if b.len() == 0 {
        false
    } else if a[0] == b[0] {
        lex_le(a.drop_first(), b.drop_first())
    } else {
        (a[0] as int) < (b[0] as int)
    }
}

/// Any two texts compare in at least one direction.
pub proof fn lemma_lex_le_total(a: Seq<char>, b: Seq<char>)
    ensures
        lex_le(a, b) || lex_le(b, a),
    decreases a.len(),
{
    if a.len() > 0 && b.len() > 0 {
        if a[0] == b[0] {
            lemma_lex_le_total(a.drop_first(), b.drop_first());
        } else {
            assert((a[0] as int) != (b[0] as int));
        }
    }
}

/// The order is transitive.
pub proof fn lemma_lex_le_trans(a: Seq<char>, b: Seq<char>, c: Seq<char>)
    requires
        lex_le(a, b),
        lex_le(b, c),
    ensures
        lex_le(a, c),
    decreases a.len(),
{
    if a.len() > 0 && b.len() > 0 && c.len() > 0 && a[0] == b[0] && b[0] == c[0] {
        lemma_lex_le_trans(a.drop_first(), b.drop_first(), c.drop_first());
    }
}

/// Comparing suffixes after an equal prefix compares the whole texts.
proof fn lemma_lex_le_skip(a: Seq<char>, b: Seq<char>, i: int)
    requires
        0 <= i <= a.len(),
        i <= b.len(),
        forall|k: int| 0 <= k < i ==> a[k] == b[k],
    ensures
        lex_le(a, b) == lex_le(a.skip(i), b.skip(i)),
    decreases i,
{
    if i == 0 {
        assert(a.skip(0) =~= a);
        assert(b.skip(0) =~= b);
    } else {
        assert(a.drop_first() =~= a.skip(1));
        assert(b.drop_first() =~= b.skip(1));
        assert forall|k: int| 0 <= k < i - 1 implies a.skip(1)[k] == b.skip(1)[k] by {
            assert(a.skip(1)[k] == a[k + 1]);
            assert(b.skip(1)[k] == b[k + 1]);
        }
        lemma_lex_le_skip(a.skip(1), b.skip(1), i - 1);
        assert(a.skip(1).skip(i - 1) =~= a.skip(i));
        assert(b.skip(1).skip(i - 1) =~= b.skip(i));
    }
}

/// Whether `x` precedes `y` by character code.
fn char_lt(x: char, y: char) -> (r: bool)
    ensures
        r == ((x as int) < (y as int)),
{
    (x as u32) < (y as u32)
}

/// Whether `a` reads at or before `b` in lexicographic order.
pub fn str_le(a: &String, b: &String) -> (r: bool)
    ensures
        r == lex_le(a@, b@),
{
    let an = a.as_str().unicode_len();
    let bn = b.as_str().unicode_len();
    let mut i: usize = 0;
    loop
        invariant
            an == a@.len(),
            bn == b@.len(),
            0 <= i <= an,
            i <= bn,
            forall|k: int| 0 <= k < i ==> a@[k] == b@[k],
        decreases an - i,
    {
        proof {
            lemma_lex_le_skip(a@, b@, i as int);
        }
        if i >= an {
            assert(a@.skip(i as int).len() == 0);
            return true;
        }
        if i >= bn {
            assert(b@.skip(i as int).len() == 0);
            assert(a@.skip(i as int).len() > 0);
            return false;
        }
        let ca = a.as_str().get_char(i);
        let cb = b.as_str().get_char(i);
        proof {
            assert(a@.skip(i as int)[0] == a@[i as int]);
            assert(b@.skip(i as int)[0] == b@[i as int]);
            assert(a@.skip(i as int).drop_first() =~= a@.skip(i as int + 1));
            assert(b@.skip(i as int).drop_first() =~= b@.skip(i as int + 1));
        }
        if char_lt(ca, cb) {
            return true;
        }
        if char_lt(cb, ca) {
            return false;
        }
        assert(ca == cb);
        i += 1;
    }
}

/// `a` sorts at or before `b`: by resolved default-locale name.
pub open spec fn name_le(a: Recipe, b: Recipe) -> bool {
    lex_le(a.name.resolved(None), b.name.resolved(None))
}

/// Recipes stand in order of their resolved default-locale names.
pub open spec fn sorted_by_name(s: Seq<Recipe>) -> bool {
    forall|i: int, j: int| 0 <= i < j < s.len() ==> name_le(s[i], s[j])
}

/// Inserting at `i` adds one occurrence to the multiset.
proof fn lemma_to_multiset_insert<A>(s: Seq<A>, i: int, v: A)
    requires
        0 <= i <= s.len(),
    ensures
        s.insert(i, v).to_multiset() =~= s.to_multiset().insert(v),
{
    broadcast use vstd::seq_lib::group_seq_lib_default, vstd::seq::group_seq_axioms;

    assert(s.insert(i, v) =~= s.subrange(0, i).push(v) + s.subrange(i, s.len() as int));
    assert(s =~= s.subrange(0, i) + s.subrange(i, s.len() as int));
    vstd::seq_lib::lemma_multiset_commutative(s.subrange(0, i).push(v), s.subrange(i, s.len() as int));
    vstd::seq_lib::lemma_multiset_commutative(s.subrange(0, i), s.subrange(i, s.len() as int));
    s.subrange(0, i).to_multiset_ensures();
}

/// The first position whose key does not sort at or before `key`.
fn insert_pos(keys: &Vec<String>, key: &String) -> (j: usize)
    ensures
        0 <= j <= keys@.len(),
        forall|k: int| 0 <= k < j ==> lex_le(keys@[k]@, key@),
        j < keys@.len() ==> !lex_le(keys@[j as int]@, key@),
{
    let mut j: usize = 0;
    while j < keys.len()
        invariant
            0 <= j <= keys@.len(),
            forall|k: int| 0 <= k < j ==> lex_le(keys@[k]@, key@),
        decreases keys@.len() - j,
    {
        if !str_le(&keys[j], key) {
            return j;
        }
        j += 1;
    }
    j
}

/// The resolved default-locale name a recipe sorts by.
pub open spec fn name_key(r: Recipe) -> Seq<char> {
    r.name.resolved(None)
}

/// Where a stable insertion puts `r`: after every recipe already placed
/// whose key sorts at or before its own.
pub open spec fn ins_pos(s: Seq<Recipe>, r: Recipe) -> int
    decreases s.len(),
{
    if s.len() == 0 {
        0
    } else if lex_le(name_key(s[0]), name_key(r)) {
        1 + ins_pos(s.drop_first(), r)
    } else {
        0
    }
}

pub proof fn lemma_ins_pos(s: Seq<Recipe>, r: Recipe)
    ensures
        0 <= ins_pos(s, r) <= s.len(),
        forall|k: int| 0 <= k < ins_pos(s, r) ==> lex_le(name_key(s[k]), name_key(r)),
        ins_pos(s, r) < s.len() ==> !lex_le(name_key(s[ins_pos(s, r)]), name_key(r)),
    decreases s.len(),
{
    if s.len() > 0 && lex_le(name_key(s[0]), name_key(r)) {
        lemma_ins_pos(s.drop_first(), r);
        assert forall|k: int| 0 <= k < ins_pos(s, r) implies lex_le(
            name_key(s[k]),
            name_key(r),
        ) by {
            if k > 0 {
                assert(s.drop_first()[k - 1] == s[k]);
            }
        }
        if ins_pos(s, r) < s.len() {
            assert(s.drop_first()[ins_pos(s, r) - 1] == s[ins_pos(s, r)]);
        }
    }
}

/// What sorting produces: each recipe inserted, in input order, after every
/// already-placed recipe whose key sorts at or before its own — a stable
/// insertion sort, so recipes with equal names keep their input order.
pub open spec fn sort_spec(s: Seq<Recipe>) -> Seq<Recipe>
    decreases s.len(),
{
    if s.len() == 0 {
        Seq::<Recipe>::empty()
    } else {
        sort_spec(s.drop_last()).insert(
            ins_pos(sort_spec(s.drop_last()), s.last()),
            s.last(),
        )
    }
}

/// Sorts recipes by their resolved default-locale name, ascending: the
/// result is ordered and holds exactly the given recipes, and is pinned to
/// the stable insertion order `sort_spec` describes. Fails with
/// `MissingLocale` for the default locale exactly when some recipe's name
/// has no default-locale text.
pub fn sort_recipes_by_name(recipes: Vec<Recipe>) -> (r: Result<Vec<Recipe>, Error>)
    ensures
        r is Ok <==> (forall|i: int|
            0 <= i < recipes@.len() ==> recipes@[i].name.resolvable(None)),
        r matches Ok(v) ==> sorted_by_name(v@) && v@.to_multiset() == recipes@.to_multiset(),
        r matches Ok(v) ==> v@ == sort_spec(recipes@),
        r matches Err(e) ==> e matches Error::MissingLocale(l) && l@ == default_locale(),
{
    broadcast use vstd::seq_lib::group_to_multiset_ensures;

    let default_key = String::from_str("en_US");
    let mut ci: usize = 0;
    while ci < recipes.len()
        invariant
            0 <= ci <= recipes@.len(),
            default_key@ == default_locale(),
            forall|k: int| 0 <= k < ci ==> recipes@[k].name.resolvable(None),
        decreases recipes@.len() - ci,
    {
        if !recipes[ci].name.has_locale(&default_key) {
            return Err(Error::MissingLocale(default_key));
        }
        ci += 1;
    }
    assert(forall|k: int| 0 <= k < recipes@.len() ==> recipes@[k].name.resolvable(None));

    let ghost orig = recipes@;
    let mut rest = recipes;
    let mut out: Vec<Recipe> = Vec::new();
    let mut keys: Vec<String> = Vec::new();
    let ghost mut i: int = 0;
    proof {
        assert(orig.subrange(0, 0) =~= Seq::<Recipe>::empty());
        assert(rest@ =~= orig.subrange(0, orig.len() as int));
    }
    while rest.len() > 0
        invariant
            0 <= i <= orig.len(),
            rest@ =~= orig.subrange(i, orig.len() as int),
            out@ == sort_spec(orig.subrange(0, i)),
            forall|k: int| 0 <= k < orig.len() ==> orig[k].name.resolvable(None),
            orig.to_multiset() =~= out@.to_multiset().add(rest@.to_multiset()),
            keys@.len() == out@.len(),
            forall|k: int| 0 <= k < out@.len() ==> out@[k].name.resolvable(None),
            forall|k: int|
                0 <= k < out@.len() ==> keys@[k]@ == out@[k].name.resolved(None),
            forall|x: int, y: int|
                0 <= x < y < keys@.len() ==> lex_le(keys@[x]@, keys@[y]@),
        decreases rest@.len(),
    {
        let ghost rest0 = rest@;
        let rec = rest.remove(0);
        proof {
            rest0.to_multiset_ensures();
            orig.to_multiset_ensures();
            assert(rest@ =~= rest0.remove(0));
            assert(rec == orig[i]);
            assert(rest@ =~= orig.subrange(i + 1, orig.len() as int));
            assert(rest0.contains(rec));
            assert(rest0.to_multiset().count(rec) > 0);
            assert(orig.to_multiset().count(rec) == out@.to_multiset().count(rec)
                + rest0.to_multiset().count(rec));
            assert(orig.to_multiset().count(rec) > 0);
            assert(orig.contains(rec));
            let i = choose|i: int| 0 <= i < orig.len() && orig[i] == rec;
            assert(orig[i].name.resolvable(None));
        }
        let key = match rec.name.localized(None) {
            Ok(k) => k,
            Err(_) => {
                proof {
                    assert(false);
                }
                return Err(Error::MissingLocale(String::new()));
            },
        };
        let j = insert_pos(&keys, &key);
        let ghost out0 = out@;
        let ghost keys0 = keys@;
        out.insert(j, rec);
        keys.insert(j, key);
        proof {
            rest0.to_multiset_ensures();
            assert(rest@ =~= rest0.remove(0));
            assert(rest@.to_multiset() =~= rest0.to_multiset().remove(rec));
            lemma_to_multiset_insert(out0, j as int, rec);
            assert(out@.to_multiset() =~= out0.to_multiset().insert(rec));
            assert(rest0.contains(rec));
            assert(rest0.to_multiset().count(rec) > 0);
            assert(out@.to_multiset().add(rest@.to_multiset()) =~= out0.to_multiset().add(
                rest0.to_multiset(),
            ));
            lemma_ins_pos(out0, rec);
            assert(key@ == name_key(rec));
            if (j as int) < ins_pos(out0, rec) {
                assert(lex_le(name_key(out0[j as int]), name_key(rec)));
                assert(false);
            }
            if ins_pos(out0, rec) < j as int {
                assert(lex_le(keys0[ins_pos(out0, rec)]@, key@));
                assert(!lex_le(name_key(out0[ins_pos(out0, rec)]), name_key(rec)));
                assert(false);
            }
            assert(j as int == ins_pos(out0, rec));
            assert(out@ == out0.insert(j as int, rec));
            assert(orig.subrange(0, i + 1).drop_last() =~= orig.subrange(0, i));
            assert(orig.subrange(0, i + 1).last() == orig[i]);
            assert(out@ == sort_spec(orig.subrange(0, i + 1)));
            i = i + 1;
            assert forall|x: int, y: int| 0 <= x < y < keys@.len() implies lex_le(
                keys@[x]@,
                keys@[y]@,
            ) by {
                if y < j {
                } else if y == j {
                } else if x < j {
                    assert(keys@[y]@ == keys0[y - 1]@);
                } else if x == j {
                    assert(keys@[y]@ == keys0[y - 1]@);
                    lemma_lex_le_total(keys0[j as int]@, key@);
                    if y - 1 > j {
                        lemma_lex_le_trans(key@, keys0[j as int]@, keys0[y - 1]@);
                    }
                } else {
                    assert(keys@[x]@ == keys0[x - 1]@);
                    assert(keys@[y]@ == keys0[y - 1]@);
                }
            }
        }
    }
    proof {
        rest@.to_multiset_ensures();
        assert(rest@ =~= Seq::<Recipe>::empty());
        assert(i == orig.len());
        assert(orig.subrange(0, orig.len() as int) =~= orig);
        assert(out@ == sort_spec(orig));
        assert(rest@.to_multiset() =~= Multiset::<Recipe>::empty());
        assert(out@.to_multiset().add(rest@.to_multiset()) =~= out@.to_multiset());
        assert(orig.to_multiset() =~= out@.to_multiset());
        assert forall|i: int, j: int| 0 <= i < j < out@.len() implies name_le(out@[i], out@[j]) by {
            assert(keys@[i]@ == out@[i].name.resolved(None));
            assert(keys@[j]@ == out@[j].name.resolved(None));
            assert(lex_le(keys@[i]@, keys@[j]@));
        }
    }
    Ok(out)
}

} // verus!
