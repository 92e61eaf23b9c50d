//! Algebraic facts about key expression intersection and inclusion.
use crate::key_expr::{
    after_slash, ended, includes_at, intersects_at, is_admin, key_include, key_intersect,
    key_matches, lemma_step_shorter, level_rank, step, wild_at, Level,
};
use vstd::prelude::*;

verus! {

/// A wildcard that ends the expression (`**` at resource level, `*` closing a
/// chunk at chunk level) meets and includes everything.
proof fn lemma_trailing_wild(lvl: Level, w: Seq<char>, x: Seq<char>)
    requires
        wild_at(lvl, w),
        ended(lvl, step(lvl, w)),
    ensures
        intersects_at(lvl, w, x),
        intersects_at(lvl, x, w),
        includes_at(lvl, w, x),
    decreases x.len(),
{
    lemma_step_shorter(lvl, w);
    lemma_step_shorter(lvl, x);
    let sw = step(lvl, w);
    if ended(lvl, x) {
        assert(intersects_at(lvl, sw, x));
        assert(intersects_at(lvl, x, sw));
        assert(includes_at(lvl, sw, x));
    } else if wild_at(lvl, x) {
        lemma_trailing_wild(lvl, w, step(lvl, x));
    }
}

/// Every expression meets and includes itself, at either level.
proof fn lemma_reflexive_at(lvl: Level, e: Seq<char>)
    ensures
        intersects_at(lvl, e, e),
        includes_at(lvl, e, e),
    decreases level_rank(lvl), e.len(),
{
    lemma_step_shorter(lvl, e);
    let se = step(lvl, e);
    if ended(lvl, e) {
    } else if wild_at(lvl, e) {
        if !ended(lvl, se) {
            lemma_reflexive_at(lvl, se);
            assert(intersects_at(lvl, e, se));
            assert(includes_at(lvl, e, se));
        }
    } else {
        if lvl == Level::Resource {
            lemma_reflexive_at(Level::Chunk, e);
        }
        lemma_reflexive_at(lvl, se);
    }
}

proof fn lemma_symmetric_at(lvl: Level, a: Seq<char>, b: Seq<char>)
    ensures
        intersects_at(lvl, a, b) == intersects_at(lvl, b, a),
    decreases level_rank(lvl), a.len() + b.len(),
{
    lemma_step_shorter(lvl, a);
    lemma_step_shorter(lvl, b);
    if ended(lvl, a) && ended(lvl, b) {
    } else if wild_at(lvl, a) && ended(lvl, b) {
        lemma_symmetric_at(lvl, step(lvl, a), b);
    } else if ended(lvl, a) && wild_at(lvl, b) {
        lemma_symmetric_at(lvl, a, step(lvl, b));
    } else if wild_at(lvl, a) || wild_at(lvl, b) {
        if wild_at(lvl, a) && ended(lvl, step(lvl, a)) {
            lemma_trailing_wild(lvl, a, b);
        }
        if wild_at(lvl, b) && ended(lvl, step(lvl, b)) {
            lemma_trailing_wild(lvl, b, a);
        }
        lemma_symmetric_at(lvl, step(lvl, a), b);
        lemma_symmetric_at(lvl, a, step(lvl, b));
    } else if ended(lvl, a) || ended(lvl, b) {
    } else {
        if lvl == Level::Resource {
            lemma_symmetric_at(Level::Chunk, a, b);
        }
        lemma_symmetric_at(lvl, step(lvl, a), step(lvl, b));
    }
}

proof fn lemma_include_intersect_at(lvl: Level, a: Seq<char>, b: Seq<char>)
    requires
        includes_at(lvl, a, b),
    ensures
        intersects_at(lvl, a, b),
    decreases level_rank(lvl), a.len() + b.len(),
{
    lemma_step_shorter(lvl, a);
    lemma_step_shorter(lvl, b);
    if ended(lvl, a) && ended(lvl, b) {
    } else if wild_at(lvl, a) && ended(lvl, b) {
        lemma_include_intersect_at(lvl, step(lvl, a), b);
    } else if wild_at(lvl, a) {
        if !ended(lvl, step(lvl, a)) {
            if includes_at(lvl, step(lvl, a), b) {
                lemma_include_intersect_at(lvl, step(lvl, a), b);
            } else {
                lemma_include_intersect_at(lvl, a, step(lvl, b));
            }
        }
    } else if wild_at(lvl, b) {
    } else if ended(lvl, a) || ended(lvl, b) {
    } else {
        if lvl == Level::Resource {
            lemma_include_intersect_at(Level::Chunk, a, b);
        }
        lemma_include_intersect_at(lvl, step(lvl, a), step(lvl, b));
    }
}

/// Every key expression intersects and includes itself.
pub proof fn lemma_reflexive(e: Seq<char>)
    ensures
        key_intersect(e, e),
        key_include(e, e),
{
    lemma_reflexive_at(Level::Resource, e);
}

/// Intersection does not depend on the order of its arguments.
pub proof fn lemma_intersect_symmetric(a: Seq<char>, b: Seq<char>)
    ensures
        key_intersect(a, b) == key_intersect(b, a),
{
    lemma_symmetric_at(Level::Resource, a, b);
}

/// Inclusion implies intersection.
pub proof fn lemma_include_implies_intersect(a: Seq<char>, b: Seq<char>)
    requires
        key_include(a, b),
    ensures
        key_intersect(a, b),
{
    lemma_include_intersect_at(Level::Resource, a, b);
}

/// `**` includes and intersects every expression.
pub proof fn lemma_double_star_top(e: Seq<char>)
    ensures
        key_include(seq!['*', '*'], e),
        key_intersect(seq!['*', '*'], e),
{
    let w = seq!['*', '*'];
    reveal_with_fuel(after_slash, 3);
    assert(w.subrange(1, 2) =~= seq!['*']);
    assert(seq!['*'].subrange(1, 1) =~= Seq::<char>::empty());
    assert(after_slash(w).len() == 0);
    lemma_trailing_wild(Level::Resource, w, e);
}

/// Expressions on the two sides of the admin boundary never match, whatever
/// their intersection.
pub proof fn lemma_admin_isolation(a: Seq<char>, b: Seq<char>)
    requires
        is_admin(a) != is_admin(b),
    ensures
        !key_matches(a, b),
{
}

} // verus!
