//! What a key expression means: the concrete keys (keys without `*`) that it
//! matches. Intersection is sound for this meaning: when two expressions
//! intersect, some concrete key matches both.
use crate::key_expr::{
    after_slash, chunk_end, drop_char, includes_at, intersects_at, is_double_star, key_include,
    key_intersect,
    lemma_after_slash_shorter, lemma_step_shorter, starts_with_star, Level,
};
use vstd::prelude::*;

verus! {

/// A key without wildcards.
pub open spec fn is_concrete_key(k: Seq<char>) -> bool {
    forall|i: int| 0 <= i < k.len() ==> k[i] != '*'
}

/// The text of one chunk of a concrete key: no `*`, no `/`.
pub open spec fn is_chunk_key(w: Seq<char>) -> bool {
    forall|i: int| 0 <= i < w.len() ==> w[i] != '*' && w[i] != '/'
}

/// The chunk pattern at the head of `p` matches the chunk at the head of `k`:
/// a `*` stands for any run of characters within the chunk.
pub open spec fn chunk_matches(p: Seq<char>, k: Seq<char>) -> bool
    decreases p.len() + k.len(),
{
    if chunk_end(p) {
        chunk_end(k)
    } else if p[0] == '*' {
        chunk_matches(drop_char(p), k) || (!chunk_end(k) && chunk_matches(p, drop_char(k)))
    } else {
        !chunk_end(k) && p[0] == k[0] && chunk_matches(drop_char(p), drop_char(k))
    }
}

/// The expression `e` matches the key `k`, chunk by chunk: `**` stands for
/// any number of chunks; any other chunk pattern matches one chunk, an empty
/// one only the empty chunk. A `/` with nothing after it ends the key.
pub open spec fn matches_key(e: Seq<char>, k: Seq<char>) -> bool
    decreases e.len() + k.len(),
{
    proof {
        lemma_after_slash_shorter(e);
        lemma_after_slash_shorter(k);
    }
    if e.len() == 0 {
        k.len() == 0
    } else if is_double_star(e) {
        matches_key(after_slash(e), k) || (k.len() > 0 && matches_key(e, after_slash(k)))
    } else {
        &&& k.len() > 0
        &&& chunk_end(e) == chunk_end(k)
        &&& chunk_matches(e, k)
        &&& matches_key(after_slash(e), after_slash(k))
    }
}

proof fn lemma_chunk_key_drop(w: Seq<char>)
    requires
        is_chunk_key(w),
    ensures
        is_chunk_key(drop_char(w)),
{
    assert forall|i: int| 0 <= i < drop_char(w).len() implies drop_char(w)[i] != '*'
        && drop_char(w)[i] != '/' by {
        assert(drop_char(w)[i] == w[i + 1]);
    }
}

proof fn lemma_chunk_key_cons(c: char, w: Seq<char>)
    requires
        is_chunk_key(w),
        c != '*',
        c != '/',
    ensures
        is_chunk_key(seq![c] + w),
        drop_char(seq![c] + w) == w,
{
    let v = seq![c] + w;
    assert forall|i: int| 0 <= i < v.len() implies v[i] != '*' && v[i] != '/' by {
        if i > 0 {
            assert(v[i] == w[i - 1]);
        }
    }
    assert(drop_char(v) =~= w);
}

/// A chunk match stays a match when the key goes on after the chunk.
proof fn lemma_chunk_extend(p: Seq<char>, w: Seq<char>, t: Seq<char>)
    requires
        is_chunk_key(w),
        t.len() == 0 || t[0] == '/',
        chunk_matches(p, w),
    ensures
        chunk_matches(p, w + t),
    decreases p.len() + w.len(),
{
    if chunk_end(p) {
        assert(w.len() == 0);
        assert(w + t =~= t);
    } else if p[0] == '*' {
        if chunk_matches(drop_char(p), w) {
            lemma_chunk_extend(drop_char(p), w, t);
        } else {
            lemma_chunk_key_drop(w);
            lemma_chunk_extend(p, drop_char(w), t);
            assert(drop_char(w + t) =~= drop_char(w) + t);
        }
    } else {
        lemma_chunk_key_drop(w);
        lemma_chunk_extend(drop_char(p), drop_char(w), t);
        assert(drop_char(w + t) =~= drop_char(w) + t);
    }
}

proof fn lemma_after_slash_compose(w: Seq<char>, r: Seq<char>)
    requires
        is_chunk_key(w),
    ensures
        after_slash(w + seq!['/'] + r) == r,
    decreases w.len(),
{
    let k = w + seq!['/'] + r;
    if w.len() == 0 {
        assert(k[0] == '/');
        assert(k.subrange(1, k.len() as int) =~= r);
    } else {
        assert(k[0] == w[0]);
        lemma_chunk_key_drop(w);
        assert(k.subrange(1, k.len() as int) =~= drop_char(w) + seq!['/'] + r);
        lemma_after_slash_compose(drop_char(w), r);
    }
}

/// A chunk pattern made of a `*` alone matches every chunk.
proof fn lemma_chunk_star_absorbs(a: Seq<char>, w: Seq<char>)
    requires
        starts_with_star(a),
        chunk_end(drop_char(a)),
        is_chunk_key(w),
    ensures
        chunk_matches(a, w),
    decreases w.len(),
{
    if w.len() > 0 {
        assert(w[0] != '/');
        lemma_chunk_key_drop(w);
        lemma_chunk_star_absorbs(a, drop_char(w));
    } else {
        assert(chunk_matches(drop_char(a), w));
    }
}

/// Every chunk pattern matches some chunk.
proof fn lemma_chunk_exists(b: Seq<char>) -> (w: Seq<char>)
    ensures
        is_chunk_key(w),
        chunk_matches(b, w),
    decreases b.len(),
{
    if chunk_end(b) {
        Seq::empty()
    } else if b[0] == '*' {
        lemma_chunk_exists(drop_char(b))
    } else {
        let w1 = lemma_chunk_exists(drop_char(b));
        lemma_chunk_key_cons(b[0], w1);
        seq![b[0]] + w1
    }
}

/// A chunk pattern that is not empty and matches the empty chunk matches any
/// one character.
proof fn lemma_chunk_one(p: Seq<char>, c: char)
    requires
        !chunk_end(p),
        chunk_matches(p, Seq::empty()),
        c != '/',
    ensures
        chunk_matches(p, seq![c]),
{
    assert(drop_char(seq![c]) =~= Seq::<char>::empty());
}

/// A common chunk of `a` and `b` that is empty exactly when their chunk
/// patterns are.
proof fn lemma_fix_chunk(a: Seq<char>, b: Seq<char>, w: Seq<char>) -> (w2: Seq<char>)
    requires
        is_chunk_key(w),
        chunk_matches(a, w),
        chunk_matches(b, w),
        chunk_end(a) == chunk_end(b),
    ensures
        is_chunk_key(w2),
        chunk_matches(a, w2),
        chunk_matches(b, w2),
        w2.len() > 0 <==> !chunk_end(a),
{
    if w.len() == 0 && !chunk_end(a) {
        assert(w =~= Seq::<char>::empty());
        lemma_chunk_one(a, 'z');
        lemma_chunk_one(b, 'z');
        seq!['z']
    } else {
        if chunk_end(a) && w.len() > 0 {
            assert(w[0] != '/');
        }
        w
    }
}

/// Puts a key together from a chunk and the rest of the key.
proof fn lemma_compose(b: Seq<char>, w: Seq<char>, r: Seq<char>)
    requires
        b.len() > 0,
        !is_double_star(b),
        is_chunk_key(w),
        chunk_matches(b, w),
        w.len() > 0 <==> !chunk_end(b),
        is_concrete_key(r),
        matches_key(after_slash(b), r),
    ensures
        is_concrete_key(w + seq!['/'] + r),
        after_slash(w + seq!['/'] + r) == r,
        matches_key(b, w + seq!['/'] + r),
{
    let k = w + seq!['/'] + r;
    lemma_chunk_extend(b, w, seq!['/'] + r);
    assert(w + (seq!['/'] + r) =~= k);
    lemma_after_slash_compose(w, r);
    assert forall|i: int| 0 <= i < k.len() implies k[i] != '*' by {
        if i < w.len() {
            assert(k[i] == w[i]);
        } else if i > w.len() {
            assert(k[i] == r[i - w.len() - 1]);
        }
    }
    if w.len() > 0 {
        assert(k[0] == w[0]);
    }
}

/// `**` at the end of an expression matches every key.
proof fn lemma_double_star_absorbs(a: Seq<char>, k: Seq<char>)
    requires
        is_double_star(a),
        after_slash(a).len() == 0,
    ensures
        matches_key(a, k),
    decreases k.len(),
{
    lemma_after_slash_shorter(k);
    if k.len() > 0 {
        lemma_double_star_absorbs(a, after_slash(k));
    } else {
        assert(matches_key(after_slash(a), k));
    }
}

/// Every expression matches some concrete key.
pub proof fn lemma_key_exists(b: Seq<char>) -> (k: Seq<char>)
    ensures
        is_concrete_key(k),
        matches_key(b, k),
    decreases b.len(),
{
    lemma_after_slash_shorter(b);
    if b.len() == 0 {
        Seq::empty()
    } else if is_double_star(b) {
        lemma_key_exists(after_slash(b))
    } else {
        let w0 = lemma_chunk_exists(b);
        let w = lemma_fix_chunk(b, b, w0);
        let r = lemma_key_exists(after_slash(b));
        lemma_compose(b, w, r);
        w + seq!['/'] + r
    }
}

proof fn lemma_chunk_witness(a: Seq<char>, b: Seq<char>) -> (w: Seq<char>)
    requires
        intersects_at(Level::Chunk, a, b),
    ensures
        is_chunk_key(w),
        chunk_matches(a, w),
        chunk_matches(b, w),
    decreases a.len() + b.len(),
{
    lemma_step_shorter(Level::Chunk, a);
    lemma_step_shorter(Level::Chunk, b);
    let da = drop_char(a);
    let db = drop_char(b);
    if chunk_end(a) && chunk_end(b) {
        Seq::empty()
    } else if starts_with_star(a) && chunk_end(b) {
        lemma_chunk_witness(da, b)
    } else if chunk_end(a) && starts_with_star(b) {
        lemma_chunk_witness(a, db)
    } else if starts_with_star(a) {
        if chunk_end(da) {
            let w = lemma_chunk_exists(b);
            lemma_chunk_star_absorbs(a, w);
            w
        } else if intersects_at(Level::Chunk, da, b) {
            lemma_chunk_witness(da, b)
        } else {
            let w1 = lemma_chunk_witness(a, db);
            if starts_with_star(b) {
                w1
            } else {
                lemma_chunk_key_cons(b[0], w1);
                seq![b[0]] + w1
            }
        }
    } else if starts_with_star(b) {
        if chunk_end(db) {
            let w = lemma_chunk_exists(a);
            lemma_chunk_star_absorbs(b, w);
            w
        } else if intersects_at(Level::Chunk, da, b) {
            let w1 = lemma_chunk_witness(da, b);
            lemma_chunk_key_cons(a[0], w1);
            seq![a[0]] + w1
        } else {
            lemma_chunk_witness(a, db)
        }
    } else {
        let w1 = lemma_chunk_witness(da, db);
        lemma_chunk_key_cons(a[0], w1);
        seq![a[0]] + w1
    }
}

proof fn lemma_witness(a: Seq<char>, b: Seq<char>) -> (k: Seq<char>)
    requires
        intersects_at(Level::Resource, a, b),
    ensures
        is_concrete_key(k),
        matches_key(a, k),
        matches_key(b, k),
    decreases a.len() + b.len(),
{
    lemma_step_shorter(Level::Resource, a);
    lemma_step_shorter(Level::Resource, b);
    let sa = after_slash(a);
    let sb = after_slash(b);
    if a.len() == 0 && b.len() == 0 {
        Seq::empty()
    } else if is_double_star(a) && b.len() == 0 {
        lemma_witness(sa, b)
    } else if a.len() == 0 && is_double_star(b) {
        lemma_witness(a, sb)
    } else if is_double_star(a) {
        if sa.len() == 0 {
            let k = lemma_key_exists(b);
            lemma_double_star_absorbs(a, k);
            k
        } else if intersects_at(Level::Resource, sa, b) {
            lemma_witness(sa, b)
        } else {
            let k1 = lemma_witness(a, sb);
            if is_double_star(b) {
                k1
            } else {
                let w0 = lemma_chunk_exists(b);
                let w = lemma_fix_chunk(b, b, w0);
                lemma_compose(b, w, k1);
                w + seq!['/'] + k1
            }
        }
    } else if is_double_star(b) {
        if sb.len() == 0 {
            let k = lemma_key_exists(a);
            lemma_double_star_absorbs(b, k);
            k
        } else if intersects_at(Level::Resource, sa, b) {
            let k1 = lemma_witness(sa, b);
            let w0 = lemma_chunk_exists(a);
            let w = lemma_fix_chunk(a, a, w0);
            lemma_compose(a, w, k1);
            w + seq!['/'] + k1
        } else {
            lemma_witness(a, sb)
        }
    } else {
        let w0 = lemma_chunk_witness(a, b);
        let w = lemma_fix_chunk(a, b, w0);
        let k1 = lemma_witness(sa, sb);
        lemma_compose(a, w, k1);
        lemma_compose(b, w, k1);
        w + seq!['/'] + k1
    }
}

/// Intersection is sound: when `a` and `b` intersect, some concrete key
/// matches both.
pub proof fn lemma_intersect_sound(a: Seq<char>, b: Seq<char>)
    requires
        key_intersect(a, b),
    ensures
        exists|k: Seq<char>| is_concrete_key(k) && matches_key(a, k) && matches_key(b, k),
{
    let k = lemma_witness(a, b);
}


/// A chunk pattern made of a `*` alone matches whatever chunk comes first.
proof fn lemma_chunk_star_all(a: Seq<char>, k: Seq<char>)
    requires
        starts_with_star(a),
        chunk_end(drop_char(a)),
    ensures
        chunk_matches(a, k),
    decreases k.len(),
{
    if chunk_end(k) {
        assert(chunk_matches(drop_char(a), k));
    } else {
        lemma_chunk_star_all(a, drop_char(k));
    }
}

proof fn lemma_chunk_include_sound(a: Seq<char>, b: Seq<char>, k: Seq<char>)
    requires
        includes_at(Level::Chunk, a, b),
        chunk_matches(b, k),
    ensures
        chunk_matches(a, k),
    decreases a.len() + b.len() + k.len(),
{
    lemma_step_shorter(Level::Chunk, a);
    lemma_step_shorter(Level::Chunk, b);
    lemma_step_shorter(Level::Chunk, k);
    let da = drop_char(a);
    let db = drop_char(b);
    let dk = drop_char(k);
    if chunk_end(a) && chunk_end(b) {
    } else if starts_with_star(a) && chunk_end(b) {
        lemma_chunk_include_sound(da, b, k);
    } else if starts_with_star(a) {
        if chunk_end(da) {
            lemma_chunk_star_all(a, k);
        } else if includes_at(Level::Chunk, da, b) {
            lemma_chunk_include_sound(da, b, k);
        } else if b[0] == '*' {
            if chunk_matches(db, k) {
                lemma_chunk_include_sound(a, db, k);
            } else {
                lemma_chunk_include_sound(a, b, dk);
            }
        } else {
            lemma_chunk_include_sound(a, db, dk);
        }
    } else if starts_with_star(b) {
    } else if chunk_end(a) || chunk_end(b) {
    } else {
        lemma_chunk_include_sound(da, db, dk);
    }
}

proof fn lemma_include_sound_at(a: Seq<char>, b: Seq<char>, k: Seq<char>)
    requires
        includes_at(Level::Resource, a, b),
        matches_key(b, k),
    ensures
        matches_key(a, k),
    decreases a.len() + b.len() + k.len(),
{
    lemma_step_shorter(Level::Resource, a);
    lemma_step_shorter(Level::Resource, b);
    lemma_step_shorter(Level::Resource, k);
    let sa = after_slash(a);
    let sb = after_slash(b);
    let sk = after_slash(k);
    if a.len() == 0 && b.len() == 0 {
    } else if is_double_star(a) && b.len() == 0 {
        lemma_include_sound_at(sa, b, k);
    } else if is_double_star(a) {
        if sa.len() == 0 {
            lemma_double_star_absorbs(a, k);
        } else if includes_at(Level::Resource, sa, b) {
            lemma_include_sound_at(sa, b, k);
        } else if is_double_star(b) {
            if matches_key(sb, k) {
                lemma_include_sound_at(a, sb, k);
            } else {
                lemma_include_sound_at(a, b, sk);
            }
        } else {
            lemma_include_sound_at(a, sb, sk);
        }
    } else if is_double_star(b) {
    } else if a.len() == 0 || b.len() == 0 {
    } else {
        lemma_chunk_include_sound(a, b, k);
        lemma_include_sound_at(sa, sb, sk);
    }
}

/// Inclusion is sound: when `a` includes `b`, every key that `b` matches, `a`
/// matches too.
pub proof fn lemma_include_sound(a: Seq<char>, b: Seq<char>, k: Seq<char>)
    requires
        key_include(a, b),
        matches_key(b, k),
    ensures
        matches_key(a, k),
{
    lemma_include_sound_at(a, b, k);
}


proof fn lemma_chunk_complete(a: Seq<char>, b: Seq<char>, k: Seq<char>)
    requires
        chunk_matches(a, k),
        chunk_matches(b, k),
    ensures
        intersects_at(Level::Chunk, a, b),
    decreases a.len() + b.len() + k.len(),
{
    lemma_step_shorter(Level::Chunk, a);
    lemma_step_shorter(Level::Chunk, b);
    lemma_step_shorter(Level::Chunk, k);
    let da = drop_char(a);
    let db = drop_char(b);
    let dk = drop_char(k);
    if chunk_end(a) && chunk_end(b) {
    } else if starts_with_star(a) && chunk_end(b) {
        lemma_chunk_complete(da, b, k);
    } else if chunk_end(a) && starts_with_star(b) {
        lemma_chunk_complete(a, db, k);
    } else if starts_with_star(a) {
        if chunk_matches(da, k) {
            lemma_chunk_complete(da, b, k);
        } else if b[0] == '*' {
            if chunk_matches(db, k) {
                lemma_chunk_complete(a, db, k);
            } else {
                lemma_chunk_complete(a, b, dk);
            }
        } else {
            lemma_chunk_complete(a, db, dk);
        }
    } else if starts_with_star(b) {
        if chunk_matches(db, k) {
            lemma_chunk_complete(a, db, k);
        } else {
            lemma_chunk_complete(da, b, dk);
        }
    } else if chunk_end(a) || chunk_end(b) {
    } else {
        lemma_chunk_complete(da, db, dk);
    }
}

proof fn lemma_complete_at(a: Seq<char>, b: Seq<char>, k: Seq<char>)
    requires
        matches_key(a, k),
        matches_key(b, k),
    ensures
        intersects_at(Level::Resource, a, b),
    decreases a.len() + b.len() + k.len(),
{
    lemma_step_shorter(Level::Resource, a);
    lemma_step_shorter(Level::Resource, b);
    lemma_step_shorter(Level::Resource, k);
    let sa = after_slash(a);
    let sb = after_slash(b);
    let sk = after_slash(k);
    if a.len() == 0 && b.len() == 0 {
    } else if is_double_star(a) && b.len() == 0 {
        lemma_complete_at(sa, b, k);
    } else if a.len() == 0 && is_double_star(b) {
        lemma_complete_at(a, sb, k);
    } else if is_double_star(a) {
        if matches_key(sa, k) {
            lemma_complete_at(sa, b, k);
        } else if is_double_star(b) {
            if matches_key(sb, k) {
                lemma_complete_at(a, sb, k);
            } else {
                lemma_complete_at(a, b, sk);
            }
        } else {
            lemma_complete_at(a, sb, sk);
        }
    } else if is_double_star(b) {
        if matches_key(sb, k) {
            lemma_complete_at(a, sb, k);
        } else {
            lemma_complete_at(sa, b, sk);
        }
    } else if a.len() == 0 || b.len() == 0 {
    } else {
        lemma_chunk_complete(a, b, k);
        lemma_complete_at(sa, sb, sk);
    }
}

/// Intersection is complete: when some key matches both `a` and `b`, they
/// intersect.
pub proof fn lemma_intersect_complete(a: Seq<char>, b: Seq<char>, k: Seq<char>)
    requires
        matches_key(a, k),
        matches_key(b, k),
    ensures
        key_intersect(a, b),
{
    lemma_complete_at(a, b, k);
}


/// The empty expression is included in, and meets, exactly the expressions
/// that match the empty key (`**`, and chains of `**` chunks).
pub proof fn lemma_empty_key(e: Seq<char>)
    ensures
        key_include(e, Seq::empty()) == matches_key(e, Seq::empty()),
        key_intersect(e, Seq::empty()) == matches_key(e, Seq::empty()),
    decreases e.len(),
{
    lemma_after_slash_shorter(e);
    if e.len() > 0 && is_double_star(e) {
        lemma_empty_key(after_slash(e));
    }
}

} // verus!
