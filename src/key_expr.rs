//! Key expressions: `/`-separated chunks, with `*` (one non-empty chunk) and
//! `**` (any number of chunks) as wildcards.
//!
//! Both predicates are one recursive matcher run at two levels: between chunks
//! (`Level::Resource`) and inside one chunk (`Level::Chunk`). What they mean in
//! terms of the keys an expression matches is proved in `key_semantics`.
use crate::error::ZError;
use crate::key_semantics::{
    is_concrete_key, lemma_include_sound, lemma_intersect_complete, lemma_intersect_sound,
    matches_key,
};
use vstd::prelude::*;
use vstd::string::StringExecFns;

verus! {

/// The two levels at which the matchers walk an expression.
pub enum Level {
    Chunk,
    Resource,
}

pub open spec fn level_rank(lvl: Level) -> nat {
    match lvl {
        Level::Chunk => 0,
        Level::Resource => 1,
    }
}

/// Chunk level end: nothing left, or the chunk separator comes next.
pub open spec fn chunk_end(s: Seq<char>) -> bool {
    s.len() == 0 || s[0] == '/'
}

/// Chunk level wildcard: the rest of the chunk starts with `*`.
pub open spec fn starts_with_star(s: Seq<char>) -> bool {
    s.len() > 0 && s[0] == '*'
}

/// Resource level wildcard: the expression starts with the chunk `**`.
pub open spec fn is_double_star(s: Seq<char>) -> bool {
    ||| (s.len() >= 3 && s[0] == '*' && s[1] == '*' && s[2] == '/')
    ||| (s.len() == 2 && s[0] == '*' && s[1] == '*')
}

/// What follows the first `/` of `s`; empty when `s` holds no `/`.
pub open spec fn after_slash(s: Seq<char>) -> Seq<char>
    decreases s.len(),
{
    if s.len() == 0 {
        s
    } else if s[0] == '/' {
        s.subrange(1, s.len() as int)
    } else {
        after_slash(s.subrange(1, s.len() as int))
    }
}

/// `s` without its first character.
pub open spec fn drop_char(s: Seq<char>) -> Seq<char> {
    if s.len() == 0 {
        s
    } else {
        s.subrange(1, s.len() as int)
    }
}

pub open spec fn ended(lvl: Level, s: Seq<char>) -> bool {
    match lvl {
        Level::Chunk => chunk_end(s),
        Level::Resource => s.len() == 0,
    }
}

pub open spec fn wild_at(lvl: Level, s: Seq<char>) -> bool {
    match lvl {
        Level::Chunk => starts_with_star(s),
        Level::Resource => is_double_star(s),
    }
}

pub open spec fn step(lvl: Level, s: Seq<char>) -> Seq<char> {
    match lvl {
        Level::Chunk => drop_char(s),
        Level::Resource => after_slash(s),
    }
}

pub proof fn lemma_after_slash_shorter(s: Seq<char>)
    ensures
        s.len() > 0 ==> after_slash(s).len() < s.len(),
        s.len() == 0 ==> after_slash(s) == s,
    decreases s.len(),
{
    if s.len() > 0 && s[0] != '/' {
        lemma_after_slash_shorter(s.subrange(1, s.len() as int));
    }
}

pub proof fn lemma_step_shorter(lvl: Level, s: Seq<char>)
    ensures
        s.len() > 0 ==> step(lvl, s).len() < s.len(),
        s.len() == 0 ==> step(lvl, s) == s,
        wild_at(lvl, s) ==> s.len() > 0,
        !ended(lvl, s) ==> s.len() > 0,
{
    lemma_after_slash_shorter(s);
}

/// The intersection matcher at level `lvl`: is there a key, free of
/// wildcards, that both `a` and `b` match (up to the end of the chunk, at
/// chunk level)?
pub open spec fn intersects_at(lvl: Level, a: Seq<char>, b: Seq<char>) -> bool
    decreases level_rank(lvl), a.len() + b.len(),
{
    proof {
        lemma_step_shorter(lvl, a);
        lemma_step_shorter(lvl, b);
    }
    if ended(lvl, a) && ended(lvl, b) {
        true
    } else if wild_at(lvl, a) && ended(lvl, b) {
        intersects_at(lvl, step(lvl, a), b)
    } else if ended(lvl, a) && wild_at(lvl, b) {
        intersects_at(lvl, a, step(lvl, b))
    } else if wild_at(lvl, a) {
        ended(lvl, step(lvl, a)) || intersects_at(lvl, step(lvl, a), b) || intersects_at(
            lvl,
            a,
            step(lvl, b),
        )
    } else if wild_at(lvl, b) {
        ended(lvl, step(lvl, b)) || intersects_at(lvl, step(lvl, a), b) || intersects_at(
            lvl,
            a,
            step(lvl, b),
        )
    } else if ended(lvl, a) || ended(lvl, b) {
        false
    } else {
        let head = match lvl {
            Level::Chunk => a[0] == b[0],
            Level::Resource => chunk_end(a) == chunk_end(b) && intersects_at(Level::Chunk, a, b),
        };
        head && intersects_at(lvl, step(lvl, a), step(lvl, b))
    }
}

/// The inclusion matcher at level `lvl`: does `sup` match every key that
/// `sub` matches?
pub open spec fn includes_at(lvl: Level, sup: Seq<char>, sub: Seq<char>) -> bool
    decreases level_rank(lvl), sup.len() + sub.len(),
{
    proof {
        lemma_step_shorter(lvl, sup);
        lemma_step_shorter(lvl, sub);
    }
    if ended(lvl, sup) && ended(lvl, sub) {
        true
    } else if wild_at(lvl, sup) && ended(lvl, sub) {
        includes_at(lvl, step(lvl, sup), sub)
    } else if wild_at(lvl, sup) {
        ended(lvl, step(lvl, sup)) || includes_at(lvl, step(lvl, sup), sub) || includes_at(
            lvl,
            sup,
            step(lvl, sub),
        )
    } else if wild_at(lvl, sub) {
        false
    } else if ended(lvl, sup) || ended(lvl, sub) {
        false
    } else {
        let head = match lvl {
            Level::Chunk => sup[0] == sub[0],
            Level::Resource => chunk_end(sup) == chunk_end(sub) && includes_at(Level::Chunk, sup, sub),
        };
        head && includes_at(lvl, step(lvl, sup), step(lvl, sub))
    }
}

/// `intersect(a, b)` on whole expressions.
pub open spec fn key_intersect(a: Seq<char>, b: Seq<char>) -> bool {
    intersects_at(Level::Resource, a, b)
}

/// `includes(sup, sub)` on whole expressions.
pub open spec fn key_include(sup: Seq<char>, sub: Seq<char>) -> bool {
    includes_at(Level::Resource, sup, sub)
}

/// The expression lies in the admin namespace: it begins with `/@/`.
pub open spec fn is_admin(s: Seq<char>) -> bool {
    s.len() >= 3 && s[0] == '/' && s[1] == '@' && s[2] == '/'
}

/// `matches(a, b)`: intersection within one namespace.
pub open spec fn key_matches(a: Seq<char>, b: Seq<char>) -> bool {
    is_admin(a) == is_admin(b) && key_intersect(a, b)
}

// ---------------------------------------------------------------------------
// Chunk level primitives
fn cend(s: &str) -> (r: bool)
    ensures
        r == chunk_end(s@),
{
    s.unicode_len() == 0 || s.get_char(0) == '/'
}

fn cwild(s: &str) -> (r: bool)
    ensures
        r == starts_with_star(s@),
{
    s.unicode_len() > 0 && s.get_char(0) == '*'
}

fn cnext(s: &str) -> (r: &str)
    requires
        s@.len() > 0,
    ensures
        r@ == drop_char(s@),
{
    s.substring_char(1, s.unicode_len())
}

fn cequal(s1: &str, s2: &str) -> (r: bool)
    requires
        s1@.len() > 0,
        s2@.len() > 0,
    ensures
        r == (s1@[0] == s2@[0]),
{
    s1.get_char(0) == s2.get_char(0)
}

fn sub_chunk_intersect(c1: &str, c2: &str) -> (r: bool)
    ensures
        r == intersects_at(Level::Chunk, c1@, c2@),
    decreases c1@.len() + c2@.len(),
{
    proof {
        lemma_step_shorter(Level::Chunk, c1@);
        lemma_step_shorter(Level::Chunk, c2@);
    }
    if cend(c1) && cend(c2) {
        return true;
    }
    if cwild(c1) && cend(c2) {
        return sub_chunk_intersect(cnext(c1), c2);
    }
    if cend(c1) && cwild(c2) {
        return sub_chunk_intersect(c1, cnext(c2));
    }
    if cwild(c1) {
        if cend(cnext(c1)) {
            return true;
        }
        if sub_chunk_intersect(cnext(c1), c2) {
            return true;
        } else {
            return sub_chunk_intersect(c1, cnext(c2));
        }
    }
    if cwild(c2) {
        if cend(cnext(c2)) {
            return true;
        }
        if sub_chunk_intersect(cnext(c1), c2) {
            return true;
        } else {
            return sub_chunk_intersect(c1, cnext(c2));
        }
    }
    if cend(c1) || cend(c2) {
        return false;
    }
    if cequal(c1, c2) {
        return sub_chunk_intersect(cnext(c1), cnext(c2));
    }
    false
}

/// Whether the first chunks of `c1` and `c2` intersect; an empty chunk meets
/// only an empty chunk.
fn chunk_intersect(c1: &str, c2: &str) -> (r: bool)
    ensures
        r == (chunk_end(c1@) == chunk_end(c2@) && intersects_at(Level::Chunk, c1@, c2@)),
{
    if (cend(c1) && !cend(c2)) || (!cend(c1) && cend(c2)) {
        return false;
    }
    sub_chunk_intersect(c1, c2)
}

fn sub_chunk_include(this: &str, sub: &str) -> (r: bool)
    ensures
        r == includes_at(Level::Chunk, this@, sub@),
    decreases this@.len() + sub@.len(),
{
    proof {
        lemma_step_shorter(Level::Chunk, this@);
        lemma_step_shorter(Level::Chunk, sub@);
    }
    if cend(this) && cend(sub) {
        return true;
    }
    if cwild(this) && cend(sub) {
        return sub_chunk_include(cnext(this), sub);
    }
    if cwild(this) {
        if cend(cnext(this)) {
            return true;
        }
        if sub_chunk_include(cnext(this), sub) {
            return true;
        } else {
            return sub_chunk_include(this, cnext(sub));
        }
    }
    if cwild(sub) {
        return false;
    }
    if cend(this) || cend(sub) {
        return false;
    }
    if cequal(this, sub) {
        return sub_chunk_include(cnext(this), cnext(sub));
    }
    false
}

/// Whether the first chunk of `this` includes the first chunk of `sub`; an
/// empty chunk includes and is included by an empty chunk only.
fn chunk_include(this: &str, sub: &str) -> (r: bool)
    ensures
        r == (chunk_end(this@) == chunk_end(sub@) && includes_at(Level::Chunk, this@, sub@)),
{
    if (cend(this) && !cend(sub)) || (!cend(this) && cend(sub)) {
        return false;
    }
    sub_chunk_include(this, sub)
}

// ---------------------------------------------------------------------------
// Resource level primitives
fn end(s: &str) -> (r: bool)
    ensures
        r == (s@.len() == 0),
{
    s.unicode_len() == 0
}

fn wild(s: &str) -> (r: bool)
    ensures
        r == is_double_star(s@),
{
    let n = s.unicode_len();
    if n >= 3 {
        s.get_char(0) == '*' && s.get_char(1) == '*' && s.get_char(2) == '/'
    } else if n == 2 {
        s.get_char(0) == '*' && s.get_char(1) == '*'
    } else {
        false
    }
}

fn next(s: &str) -> (r: &str)
    ensures
        r@ == after_slash(s@),
{
    let n = s.unicode_len();
    let mut i: usize = 0;
    assert(s@.subrange(0, n as int) =~= s@);
    while i < n
        invariant
            n == s@.len(),
            i <= n,
            after_slash(s@) == after_slash(s@.subrange(i as int, n as int)),
        decreases n - i,
    {
        if s.get_char(i) == '/' {
            proof {
                assert(s@.subrange(i as int, n as int).subrange(1, n - i) =~= s@.subrange(
                    i + 1,
                    n as int,
                ));
            }
            return s.substring_char(i + 1, n);
        }
        proof {
            assert(s@.subrange(i as int, n as int).subrange(1, n - i) =~= s@.subrange(
                i + 1,
                n as int,
            ));
        }
        i = i + 1;
    }
    s.substring_char(n, n)
}

fn res_intersect(s1: &str, s2: &str) -> (r: bool)
    ensures
        r == intersects_at(Level::Resource, s1@, s2@),
    decreases s1@.len() + s2@.len(),
{
    proof {
        lemma_step_shorter(Level::Resource, s1@);
        lemma_step_shorter(Level::Resource, s2@);
    }
    if end(s1) && end(s2) {
        return true;
    }
    if wild(s1) && end(s2) {
        return res_intersect(next(s1), s2);
    }
    if end(s1) && wild(s2) {
        return res_intersect(s1, next(s2));
    }
    if wild(s1) {
        if end(next(s1)) {
            return true;
        }
        if res_intersect(next(s1), s2) {
            return true;
        } else {
            return res_intersect(s1, next(s2));
        }
    }
    if wild(s2) {
        if end(next(s2)) {
            return true;
        }
        if res_intersect(next(s1), s2) {
            return true;
        } else {
            return res_intersect(s1, next(s2));
        }
    }
    if end(s1) || end(s2) {
        return false;
    }
    if chunk_intersect(s1, s2) {
        return res_intersect(next(s1), next(s2));
    }
    false
}

fn res_include(this: &str, sub: &str) -> (r: bool)
    ensures
        r == includes_at(Level::Resource, this@, sub@),
    decreases this@.len() + sub@.len(),
{
    proof {
        lemma_step_shorter(Level::Resource, this@);
        lemma_step_shorter(Level::Resource, sub@);
    }
    if end(this) && end(sub) {
        return true;
    }
    if wild(this) && end(sub) {
        return res_include(next(this), sub);
    }
    if wild(this) {
        if end(next(this)) {
            return true;
        }
        if res_include(next(this), sub) {
            return true;
        } else {
            return res_include(this, next(sub));
        }
    }
    if wild(sub) {
        return false;
    }
    if end(this) || end(sub) {
        return false;
    }
    if chunk_include(this, sub) {
        return res_include(next(this), next(sub));
    }
    false
}

/// Returns `true` if the given key expressions intersect: some key without
/// wildcards matches both.
pub fn intersect(s1: &str, s2: &str) -> (r: bool)
    ensures
        r == key_intersect(s1@, s2@),
        r == exists|k: Seq<char>|
            is_concrete_key(k) && #[trigger] matches_key(s1@, k) && matches_key(s2@, k),
{
    let r = res_intersect(s1, s2);
    proof {
        if r {
            lemma_intersect_sound(s1@, s2@);
        } else {
            assert forall|k: Seq<char>|
                !(is_concrete_key(k) && #[trigger] matches_key(s1@, k) && matches_key(
                    s2@,
                    k,
                )) by {
                if matches_key(s1@, k) && matches_key(s2@, k) {
                    lemma_intersect_complete(s1@, s2@, k);
                }
            }
        }
    }
    r
}

/// Returns `true` if `this` includes `sub`: no key without wildcards matches
/// `sub` but not `this`.
pub fn includes(this: &str, sub: &str) -> (r: bool)
    ensures
        r == key_include(this@, sub@),
        r ==> forall|k: Seq<char>| #[trigger] matches_key(sub@, k) ==> matches_key(this@, k),
{
    let r = res_include(this, sub);
    proof {
        if r {
            assert forall|k: Seq<char>| #[trigger] matches_key(sub@, k) implies matches_key(
                this@,
                k,
            ) by {
                lemma_include_sound(this@, sub@, k);
            }
        }
    }
    r
}

fn is_admin_expr(s: &str) -> (r: bool)
    ensures
        r == is_admin(s@),
{
    s.unicode_len() >= 3 && s.get_char(0) == '/' && s.get_char(1) == '@' && s.get_char(2) == '/'
}

/// Intersection that never crosses the boundary of the admin namespace
/// (expressions that begin with `/@/`).
pub fn matches(s1: &str, s2: &str) -> (r: bool)
    ensures
        r == key_matches(s1@, s2@),
{
    if is_admin_expr(s1) == is_admin_expr(s2) {
        intersect(s1, s2)
    } else {
        false
    }
}


/// Numerical id of a registered key expression.
pub type ExprId = u64;

/// A key expression: an id (`0` for the global scope) and a suffix appended
/// to the expression that the id stands for.
#[derive(Clone, Debug, Hash)]
pub struct KeyExpr {
    pub scope: ExprId,
    pub suffix: String,
}

impl PartialEq for KeyExpr {
    fn eq(&self, other: &KeyExpr) -> (r: bool)
        ensures
            r == (self.scope == other.scope && self.suffix@ == other.suffix@),
    {
        self.scope == other.scope && self.suffix == other.suffix
    }
}

impl vstd::std_specs::cmp::PartialEqSpecImpl for KeyExpr {
    open spec fn obeys_eq_spec() -> bool {
        true
    }

    open spec fn eq_spec(&self, other: &KeyExpr) -> bool {
        self.scope == other.scope && self.suffix@ == other.suffix@
    }
}

impl Eq for KeyExpr {

}

impl KeyExpr {
    /// The expression as a string: the suffix when the scope is global, a
    /// placeholder otherwise.
    pub fn as_str(&self) -> (r: &str)
        ensures
            self.scope == 0 ==> r@ == self.suffix@,
            self.scope != 0 ==> r@ == "<encoded_expr>"@,
    {
        if self.scope == 0 {
            self.suffix.as_str()
        } else {
            "<encoded_expr>"
        }
    }

    pub fn try_as_str(&self) -> (r: Result<&str, ZError>)
        ensures
            self.scope == 0 <==> r is Ok,
            r matches Ok(s) ==> s@ == self.suffix@,
            r matches Err(e) ==> e == ZError::ScopedKeyExpr,
    {
        if self.scope == 0 {
            Ok(self.suffix.as_str())
        } else {
            Err(ZError::ScopedKeyExpr)
        }
    }

    pub fn as_id(&self) -> (r: ExprId)
        ensures
            r == self.scope,
    {
        self.scope
    }

    pub fn try_as_id(&self) -> (r: Result<ExprId, ZError>)
        ensures
            self.suffix@.len() == 0 <==> r is Ok,
            r matches Ok(id) ==> id == self.scope,
            r matches Err(e) ==> e == ZError::SuffixedKeyExpr,
    {
        if self.has_suffix() {
            Err(ZError::SuffixedKeyExpr)
        } else {
            Ok(self.scope)
        }
    }

    pub fn as_id_and_suffix(&self) -> (r: (ExprId, &str))
        ensures
            r.0 == self.scope,
            r.1@ == self.suffix@,
    {
        (self.scope, self.suffix.as_str())
    }

    pub fn has_suffix(&self) -> (r: bool)
        ensures
            r == (self.suffix@.len() > 0),
    {
        self.suffix.as_str().unicode_len() > 0
    }

    pub fn to_owned(&self) -> (r: KeyExpr)
        ensures
            r.scope == self.scope,
            r.suffix@ == self.suffix@,
    {
        KeyExpr { scope: self.scope, suffix: self.suffix.clone() }
    }

    /// Appends `suffix` to the expression's suffix.
    pub fn with_suffix(self, suffix: &str) -> (r: Self)
        ensures
            r.scope == self.scope,
            r.suffix@ == self.suffix@ + suffix@,
    {
        let mut k = self;
        if k.suffix.as_str().unicode_len() == 0 {
            k.suffix = String::from_str(suffix);
            proof {
                assert(self.suffix@ + suffix@ =~= suffix@);
            }
        } else {
            k.suffix.append(suffix);
        }
        k
    }

    /// The plain string of an expression in the global scope.
    pub fn try_into_string(self) -> (r: Result<String, ZError>)
        ensures
            self.scope == 0 <==> r is Ok,
            r matches Ok(s) ==> s@ == self.suffix@,
            r matches Err(e) ==> e == ZError::ScopedKeyExpr,
    {
        if self.scope == 0 {
            Ok(self.suffix)
        } else {
            Err(ZError::ScopedKeyExpr)
        }
    }

    /// The id of an expression without suffix.
    pub fn try_into_id(self) -> (r: Result<ExprId, ZError>)
        ensures
            self.suffix@.len() == 0 <==> r is Ok,
            r matches Ok(id) ==> id == self.scope,
            r matches Err(e) ==> e == ZError::SuffixedKeyExpr,
    {
        self.try_as_id()
    }
}

impl From<ExprId> for KeyExpr {
    fn from(rid: ExprId) -> (r: KeyExpr)
        ensures
            r.scope == rid,
            r.suffix@.len() == 0,
    {
        KeyExpr { scope: rid, suffix: String::new() }
    }
}

impl vstd::std_specs::convert::FromSpecImpl<ExprId> for KeyExpr {
    open spec fn obeys_from_spec() -> bool {
        false
    }

    open spec fn from_spec(rid: ExprId) -> KeyExpr {
        arbitrary()
    }
}

impl From<String> for KeyExpr {
    fn from(name: String) -> (r: KeyExpr)
        ensures
            r.scope == 0,
            r.suffix@ == name@,
    {
        KeyExpr { scope: 0, suffix: name }
    }
}

impl vstd::std_specs::convert::FromSpecImpl<String> for KeyExpr {
    open spec fn obeys_from_spec() -> bool {
        false
    }

    open spec fn from_spec(name: String) -> KeyExpr {
        arbitrary()
    }
}

impl<'a> From<&'a str> for KeyExpr {
    fn from(name: &'a str) -> (r: KeyExpr)
        ensures
            r.scope == 0,
            r.suffix@ == name@,
    {
        KeyExpr { scope: 0, suffix: String::from_str(name) }
    }
}

impl<'a> vstd::std_specs::convert::FromSpecImpl<&'a str> for KeyExpr {
    open spec fn obeys_from_spec() -> bool {
        false
    }

    open spec fn from_spec(name: &'a str) -> KeyExpr {
        arbitrary()
    }
}


/// The decimal digit `d` (below ten) as a character.
pub open spec fn digit_char(d: nat) -> char {
    seq!['0', '1', '2', '3', '4', '5', '6', '7', '8', '9'][d as int]
}

/// The decimal notation of `n`, without leading zeros.
pub open spec fn decimal(n: nat) -> Seq<char>
    decreases n,
{
    if n < 10 {
        seq![digit_char(n)]
    } else {
        decimal(n / 10) + seq![digit_char(n % 10)]
    }
}

/// The text form of a key expression: the suffix alone in the global scope,
/// `<scope>:<suffix>` otherwise.
pub open spec fn key_expr_text(scope: ExprId, suffix: Seq<char>) -> Seq<char> {
    if scope == 0 {
        suffix
    } else {
        decimal(scope as nat) + seq![':'] + suffix
    }
}

/// Appends the decimal notation of `n` to `s`.
fn push_decimal(s: &mut String, n: u64)
    ensures
        final(s)@ == old(s)@ + decimal(n as nat),
    decreases n,
{
    if n >= 10 {
        push_decimal(s, n / 10);
    }
    let digits = "0123456789";
    proof {
        reveal_strlit("0123456789");
        assert(digits@ =~= seq!['0', '1', '2', '3', '4', '5', '6', '7', '8', '9']);
    }
    let d = (n % 10) as usize;
    s.append(digits.substring_char(d, d + 1));
    proof {
        assert(digits@.subrange(d as int, d + 1) =~= seq![digit_char(d as nat)]);
        assert(s@ =~= old(s)@ + decimal(n as nat));
    }
}

impl KeyExpr {
    /// The text form of the expression.
    pub fn to_string(&self) -> (r: String)
        ensures
            r@ == key_expr_text(self.scope, self.suffix@),
    {
        if self.scope == 0 {
            return self.suffix.clone();
        }
        let mut r = String::new();
        push_decimal(&mut r, self.scope);
        r.append(":");
        proof {
            reveal_strlit(":");
        }
        r.append(self.suffix.as_str());
        proof {
            assert(r@ =~= key_expr_text(self.scope, self.suffix@));
        }
        r
    }
}

} // verus!
